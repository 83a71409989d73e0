use prisme::i18n::Lang;
use prisme::metadata::{
    boxart_name, boxart_url, catalog_url, crc32, facts, fetch_description, fill_from_catalog, format_release,
    parse_blocks, parse_category, parse_no_intro, parse_summary, read_answer, wiki_titles, wiki_url, Catalog,
    Category, GameMeta, Store, Walk, describe, boxart_step, BoxartStep,
};
use prisme::net::{Error, Fetch};
use std::cell::RefCell;
use std::collections::BTreeMap;
use std::collections::HashMap;

/// A network over a table of canned answers, recording what was asked.
#[derive(Default)]
struct FakeNet {
    answers: HashMap<String, Result<Vec<u8>, Error>>,
    asked: RefCell<Vec<String>>,
}

impl FakeNet {
    fn with(mut self, url: &str, body: &str) -> Self {
        self.answers.insert(url.to_string(), Ok(body.as_bytes().to_vec()));
        self
    }
    fn failing(mut self, url: &str) -> Self {
        self.answers.insert(url.to_string(), Err(Error::Failed("no route".to_string())));
        self
    }
}

impl Fetch for FakeNet {
    fn get(&self, url: &str) -> Result<Vec<u8>, Error> {
        self.asked.borrow_mut().push(url.to_string());
        self.answers.get(url).cloned().unwrap_or(Err(Error::NotFound))
    }
}

const NO_INTRO: &str = "clrmamepro (\n\tname \"Nintendo - Super Nintendo Entertainment System\"\n)\n\ngame (\n\tname \"Super Mario Kart (Europe)\"\n\tregion \"Europe\"\n\trom ( name \"Super Mario Kart (Europe).sfc\" size 524288 crc 56410E5E md5 F9FE md5 00 sha1 27D9 )\n)\ngame (\n\tname \"Aero the Acro-Bat (USA) (Beta)\"\n\trom ( name \"Aero the Acro-Bat (USA) (Beta).sfc\" size 1048576 crc 0BADC0DE )\n)\n";
const GENRE: &str = "clrmamepro (\n\tname \"x\"\n)\n\ngame (\n\tcomment \"Super Mario Kart (Europe)\"\n\tgenre \"Racing\"\n\trom ( crc 56410E5E )\n)\n";

#[test]
fn the_crc_is_the_one_every_dat_is_keyed_on() {
    assert_eq!(crc32(b"123456789"), 0xCBF4_3926);
    assert_eq!(crc32(b""), 0);
    assert_eq!(crc32(&[0u8; 32]), 0x190A_55AD);
    assert_ne!(crc32(b"ab"), crc32(b"ba"));
}

#[test]
fn a_quoted_name_may_hold_the_parentheses_the_grammar_uses() {
    let names = parse_no_intro(NO_INTRO);
    assert_eq!(names.get(&0x5641_0E5E).map(String::as_str), Some("Super Mario Kart (Europe)"));
    assert_eq!(names.get(&0x0BAD_C0DE).map(String::as_str), Some("Aero the Acro-Bat (USA) (Beta)"));
    assert_eq!(names.len(), 2, "the clrmamepro header is not a game");
}

#[test]
fn a_category_is_keyed_by_crc_not_by_name() {
    let genre = parse_category(GENRE, "genre");
    assert_eq!(genre.get(&0x5641_0E5E).map(String::as_str), Some("Racing"));
    assert!(genre.get(&0x0BAD_C0DE).is_none());
    let users = parse_category("game (\n\tcomment \"A\"\n\tusers 3\n\trom ( crc 000000FF )\n)\n", "users");
    assert_eq!(users.get(&0xFF).map(String::as_str), Some("3"));
    assert!(parse_category(GENRE, "developer").is_empty());
}

#[test]
fn a_truncated_file_yields_the_blocks_that_closed_and_no_others() {
    let cut = &NO_INTRO[..NO_INTRO.len() - 60];
    let names = parse_no_intro(cut);
    assert_eq!(names.len(), 1, "{names:?}");
    assert!(names.contains_key(&0x5641_0E5E));
    let names = parse_no_intro("game (\n\tname \"Super Mario Kart (Eur");
    assert!(names.is_empty(), "{names:?}");
    assert!(parse_no_intro("<xml><game/></xml>").is_empty());
    assert!(parse_no_intro("").is_empty());
}

#[test]
fn a_crc_that_matches_nothing_yields_an_unmatched_entry_not_an_error() {
    let catalog = Catalog {
        names: parse_no_intro(NO_INTRO),
        facts: vec![(Category::Genre, parse_category(GENRE, "genre"))],
    };
    let meta = fill_from_catalog(&catalog, 0xDEAD_BEEF, 1);
    assert!(!meta.matched());
    assert_eq!(meta.crc32, 0xDEAD_BEEF);
    assert!(meta.name.is_empty());
    assert!(facts(Lang::Fr, &meta).is_empty());
    assert_eq!(meta.description, None);
}

#[test]
fn a_known_crc_is_named_and_gets_its_facts() {
    let catalog = Catalog {
        names: parse_no_intro(NO_INTRO),
        facts: vec![(Category::Genre, parse_category(GENRE, "genre"))],
    };
    let meta = fill_from_catalog(&catalog, 0x5641_0E5E, 1_768_478_400);
    assert!(meta.matched());
    assert_eq!(meta.name, "Super Mario Kart (Europe)");
    assert_eq!(meta.genre.as_deref(), Some("Racing"));
    assert_eq!(meta.esrb, None);
    assert_eq!(meta.fetched, 1_768_478_400);
    assert_eq!(catalog.name_of(0x0BAD_C0DE).map(String::as_str), Some("Aero the Acro-Bat (USA) (Beta)"));
    assert_eq!(catalog.fact(Category::Esrb, 0x5641_0E5E), None);
}

#[test]
fn every_category_has_its_own_directory_and_its_own_field() {
    let mut dirs: Vec<&str> = Category::all().iter().map(|c| c.dir()).collect();
    let count = dirs.len();
    dirs.sort_unstable();
    dirs.dedup();
    assert_eq!(dirs.len(), count, "two categories share a directory");
    assert_eq!(Category::MaxUsers.field(), "users");
    assert_eq!(Category::Esrb.field(), "esrb_rating");
    assert_eq!(
        catalog_url("no-intro"),
        "https://raw.githubusercontent.com/libretro/libretro-database/master/metadat/no-intro/Nintendo%20-%20Super%20Nintendo%20Entertainment%20System.dat"
    );
}

#[test]
fn a_wikipedia_title_is_derived_from_the_canonical_name_without_searching() {
    assert_eq!(wiki_titles("Super Mario Kart (Europe)"), vec!["Super Mario Kart"]);
    assert_eq!(
        wiki_titles("Super Mario World 2 - Yoshi's Island (Europe) (En,Fr,De) (Rev 1)"),
        vec!["Super Mario World 2 - Yoshi's Island", "Super Mario World 2: Yoshi's Island"]
    );
    assert_eq!(
        wiki_titles("Super Mario All-Stars and Super Mario World (Europe)"),
        vec!["Super Mario All-Stars and Super Mario World", "Super Mario All-Stars"]
    );
    assert!(wiki_titles("(Europe)").is_empty());
    assert_eq!(
        wiki_url("Super Mario World 2: Yoshi's Island"),
        "https://en.wikipedia.org/api/rest_v1/page/summary/Super_Mario_World_2%3A_Yoshi%27s_Island"
    );
}

#[test]
fn the_box_art_file_name_is_the_canonical_name_the_repository_uses() {
    assert_eq!(boxart_name("Super Mario Kart (Europe)"), "Super Mario Kart (Europe)");
    assert_eq!(boxart_name("Jam & Jelly: A/B?"), "Jam _ Jelly_ A_B_");
    assert_eq!(boxart_name("Yoshi's Island (En,Fr,De)"), "Yoshi's Island (En,Fr,De)");
    assert_eq!(
        boxart_url("Super Mario Kart (Europe)"),
        "https://raw.githubusercontent.com/libretro-thumbnails/Nintendo_-_Super_Nintendo_Entertainment_System/master/Named_Boxarts/Super%20Mario%20Kart%20%28Europe%29.png"
    );
}

#[test]
fn a_release_date_is_written_the_way_each_language_reads_it() {
    assert_eq!(format_release(Lang::Fr, Some("1993"), Some("1")), Some("01/1993".into()));
    assert_eq!(format_release(Lang::En, Some("1993"), Some("1")), Some("1993-01".into()));
    assert_eq!(format_release(Lang::Fr, Some("1996"), None), Some("1996".into()));
    assert_eq!(format_release(Lang::Fr, Some("1996"), Some("13")), Some("1996".into()));
    assert_eq!(format_release(Lang::Fr, None, Some("7")), None);
    assert_eq!(format_release(Lang::Fr, Some(" "), None), None);
}

#[test]
fn a_month_is_read_the_way_an_unsigned_parse_reads_it() {
    assert_eq!(format_release(Lang::En, Some(" 1994 "), Some(" +11 ")), Some("1994-11".into()));
    assert_eq!(format_release(Lang::En, Some("1994"), Some("0011")), Some("1994-11".into()));
    assert_eq!(format_release(Lang::En, Some("1994"), Some("99999999999999999999")), Some("1994".into()));
    assert_eq!(format_release(Lang::En, Some("1994"), Some("-1")), Some("1994".into()));
    assert_eq!(format_release(Lang::En, Some("1994"), Some("0")), Some("1994".into()));
    assert_eq!(format_release(Lang::En, Some("1994"), Some("+")), Some("1994".into()));
}

#[test]
fn the_catalogue_facts_are_listed_in_both_languages_and_skip_what_is_absent() {
    let meta = GameMeta {
        name: "Secret of Mana (France)".into(),
        genre: Some("Role-playing (RPG)".into()),
        developer: Some("Square".into()),
        players: Some("3".into()),
        year: Some("1994".into()),
        month: Some("11".into()),
        ..Default::default()
    };
    let fr: BTreeMap<_, _> = facts(Lang::Fr, &meta).into_iter().collect();
    assert_eq!(fr["Genre"], "Role-playing (RPG)");
    assert_eq!(fr["Développeur"], "Square");
    assert_eq!(fr["Joueurs"], "3");
    assert_eq!(fr["Sortie"], "11/1994");
    assert!(!fr.contains_key("Éditeur"));
    assert!(!fr.contains_key("Classification"));
    let en: BTreeMap<_, _> = facts(Lang::En, &meta).into_iter().collect();
    assert_eq!(en["Developer"], "Square");
    assert_eq!(en["Players"], "3");
    assert_eq!(en["Release"], "1994-11");
    assert!(facts(Lang::Fr, &GameMeta::default()).is_empty());
}

#[test]
fn a_replaced_dump_invalidates_its_stored_entry() {
    let meta = GameMeta { crc32: 0x5641_0E5E, name: "Super Mario Kart (Europe)".into(), ..Default::default() };
    let mut store = Store::default();
    store.insert("SUPER_MARIOKART-BEEF".into(), meta.clone());
    assert_eq!(store.get("SUPER_MARIOKART-BEEF", 0x5641_0E5E), Some(&meta));
    assert_eq!(store.get("SUPER_MARIOKART-BEEF", 0x0000_0001), None);
    assert_eq!(store.get("UNKNOWN-0000", 0x5641_0E5E), None);
}

#[test]
fn blocks_keep_their_fields_nested_pairs_and_escapes() {
    let blocks = parse_blocks("stray game ( name \"a \\\"b\\\" (c)\" ( x 1 ) rom ( crc 1 crc zz ) ) tail");
    assert_eq!(blocks.len(), 1);
    let (kind, b) = &blocks[0];
    assert_eq!(kind, "game");
    assert_eq!(b.get("name"), Some("a \"b\" (c)"));
    assert_eq!(b.nested.len(), 2);
    assert_eq!(b.crcs(), vec![1]);
    assert_eq!(b.get("missing"), None);
}

#[test]
fn a_disambiguation_page_is_not_a_description() {
    let disambiguation = r#"{"type":"disambiguation","title":"Mercury","extract":"Mercury may refer to:","titles":{"normalized":"Mercury"}}"#;
    assert_eq!(parse_summary(disambiguation), None);
    // A 404 body, an empty extract, and anything that is not JSON.
    assert_eq!(parse_summary(r#"{"type":"https://mediawiki.org/wiki/HyperSwitch/errors/not_found","title":"Not found."}"#), None);
    assert_eq!(parse_summary(r#"{"type":"standard","title":"X","extract":"   "}"#), None);
    assert_eq!(parse_summary("<html>"), None);
    assert_eq!(parse_summary(""), None);

    let good = r#"{"type":"standard","title":"Super Mario RPG","titles":{"normalized":"Super Mario RPG"},"extract":"Super Mario RPG: Legend of the Seven Stars is a 1996 role-playing video game.","content_urls":{"desktop":{"page":"https://en.wikipedia.org/wiki/Super_Mario_RPG"}}}"#;
    let found = parse_summary(good).expect("a standard article is a description");
    assert_eq!(found.title, "Super Mario RPG");
    assert_eq!(found.url, "https://en.wikipedia.org/wiki/Super_Mario_RPG");
    assert!(found.text.starts_with("Super Mario RPG:"));
}

#[test]
fn the_article_that_answered_is_the_one_credited() {
    let body = r#"{"type":"standard","title":"Yoshi's Island","titles":{"normalized":"Yoshi's Island"},"extract":"Yoshi's Island is a 1995 platform game.","content_urls":{"desktop":{"page":"https://en.wikipedia.org/wiki/Yoshi%27s_Island"}}}"#;
    let net = FakeNet::default().with(&wiki_url("Super Mario World 2: Yoshi's Island"), body);
    let found = fetch_description(&net, "Super Mario World 2 - Yoshi's Island (Europe)")
        .0
        .expect("the second candidate answers");
    assert_eq!(found.title, "Yoshi's Island");
    // The first candidate was tried and 404'd, the second answered, and no
    // third call was made.
    assert_eq!(net.asked.borrow().len(), 2);
}

#[test]
fn a_refusing_server_ends_the_walk_instead_of_being_hammered() {
    let net = FakeNet::default().failing(&wiki_url("Super Mario World 2 - Yoshi's Island"));
    assert_eq!(fetch_description(&net, "Super Mario World 2 - Yoshi's Island (Europe)").0, None);
    assert_eq!(net.asked.borrow().len(), 1);
}

#[test]
fn a_summary_without_a_page_link_is_linked_by_its_title_and_trimmed() {
    let body = r#"{"title":"Jam & Jelly","extract":"  A game.  "}"#;
    let found = parse_summary(body).expect("no type counts as a standard page");
    assert_eq!(found.text, "A game.");
    assert_eq!(found.title, "Jam & Jelly");
    assert_eq!(found.url, "https://en.wikipedia.org/wiki/Jam_%26_Jelly");
    // A JSON value that is not an object describes nothing.
    assert_eq!(parse_summary("[1, 2]"), None);
    // A normalized title wins over the plain one.
    let found = parse_summary(r#"{"title":"a","titles":{"normalized":"B"},"extract":"x"}"#).expect("article");
    assert_eq!(found.title, "B");
    assert_eq!(found.url, "https://en.wikipedia.org/wiki/B");
}

#[test]
fn an_answer_is_found_moved_past_or_the_end_of_the_walk() {
    let body = br#"{"type":"standard","title":"T","extract":"E"}"#.to_vec();
    match read_answer(Ok(body)) {
        Walk::Found(d) => assert_eq!((d.text.as_str(), d.title.as_str()), ("E", "T")),
        other => panic!("{other:?}"),
    }
    assert_eq!(read_answer(Ok(b"<html>".to_vec())), Walk::Next);
    assert_eq!(read_answer(Ok(vec![0xFF, 0xFE])), Walk::Next);
    assert_eq!(read_answer(Err(Error::NotFound)), Walk::Next);
    assert_eq!(read_answer(Err(Error::Failed("boom".to_string()))), Walk::Stop);
}

#[test]
fn the_no_intro_catalogue_failing_is_the_only_fatal_step() {
    let err = Catalog::load(Err("no route".to_string()), &vec![]).err();
    assert_eq!(err, Some("No-Intro catalogue unavailable: no route".to_string()));
    let err = Catalog::load(Ok("clrmamepro ( name \"x\" )".to_string()), &vec![]).err();
    assert_eq!(err, Some("No-Intro catalogue is empty or malformed".to_string()));
    // A category that could not be had is simply a fact fewer.
    let catalog = Catalog::load(Ok(NO_INTRO.to_string()), &vec![(Category::Genre, GENRE.to_string())]).expect("catalogue");
    assert_eq!(catalog.name_of(0x5641_0E5E).map(String::as_str), Some("Super Mario Kart (Europe)"));
    assert_eq!(catalog.fact(Category::Genre, 0x5641_0E5E).map(String::as_str), Some("Racing"));
    assert_eq!(catalog.fact(Category::Developer, 0x5641_0E5E), None);
}

#[test]
fn a_store_keeps_one_entry_per_id() {
    let a = GameMeta { crc32: 1, name: "A".into(), ..Default::default() };
    let b = GameMeta { crc32: 2, name: "B".into(), ..Default::default() };
    let mut store = Store::default();
    assert_eq!(store.insert("ID-1".into(), a.clone()), None);
    assert_eq!(store.insert("ID-2".into(), a.clone()), None);
    assert_eq!(store.insert("ID-1".into(), b.clone()), Some(a.clone()));
    assert_eq!(store.games.len(), 2);
    assert_eq!(store.get("ID-1", 2), Some(&b));
    assert_eq!(store.get("ID-2", 1), Some(&a));

    let read = Store::from_entries(3, vec![("X".into(), a.clone()), ("Y".into(), a.clone()), ("X".into(), b.clone())]);
    assert_eq!(read.version, 3);
    assert_eq!(read.games.len(), 2);
    assert_eq!(read.get("X", 2), Some(&b));
    assert_eq!(read.get("X", 1), None);
}

#[test]
fn only_a_matched_game_asks_for_a_description() {
    let net = FakeNet::default();
    let (meta, _) = describe(&net, GameMeta { crc32: 7, ..Default::default() });
    assert_eq!(meta.description, None);
    assert!(net.asked.borrow().is_empty());

    let body = r#"{"type":"standard","title":"Super Mario Kart","extract":"A kart racing game."}"#;
    let net = FakeNet::default().with(&wiki_url("Super Mario Kart"), body);
    let (meta, _) = describe(&net, GameMeta { crc32: 7, name: "Super Mario Kart (Europe)".into(), ..Default::default() });
    assert_eq!(meta.description.expect("the first title answers").title, "Super Mario Kart");
    assert_eq!(meta.crc32, 7);
    assert_eq!(net.asked.borrow().len(), 1);
}

#[test]
fn box_art_on_disk_is_kept_and_missing_box_art_is_fetched() {
    assert_eq!(boxart_step(None, false, "X"), BoxartStep::Skip);
    assert_eq!(boxart_step(Some("/t/a.png".into()), true, "X"), BoxartStep::Keep("/t/a.png".into()));
    assert_eq!(
        boxart_step(Some("/t/a.png".into()), false, "Super Mario Kart (Europe)"),
        BoxartStep::Fetch { path: "/t/a.png".into(), url: boxart_url("Super Mario Kart (Europe)") }
    );
}
