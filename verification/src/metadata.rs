//! Box art and catalogue facts for a game: the CRC32 every DAT is keyed on,
//! the clrmamepro grammar those DATs are written in, the No-Intro name and
//! category facts read from them, and the titles, file names and URLs the
//! rest of the chain derives from a canonical name.

use crate::agent::{member, member_of, parse_json, json_parsed, Json, JsonNode};
use crate::i18n::{msg_text, Lang, Msg};
use crate::net::{encode_segment, percent_encoded, Error, Fetch};
use crate::text::{
    char_is_whitespace, chars_of, dec, decimal, fixed, fixed_digits, is_white, padded, push_chars,
    push_str, str_eq, string_of, trim_chars, trimmed, zpad,
};
use std::collections::BTreeMap;
use vstd::prelude::*;
use vstd::string::*;
use vstd::utf8::{decode_utf8, encode_utf8, valid_utf8};

verus! {

/// Directory the downloaded catalogue files are kept in.
pub const CATALOG_DIR: &'static str = "Catalog";

/// Directory the downloaded box art is kept in.
pub const BOXART_DIR: &'static str = "Boxarts";

/// Per-game results, beside the library cache.
pub const CACHE_FILE: &'static str = "metadata.json";

/// Layout version of the per-game results.
pub const CACHE_VERSION: u32 = 1;

/// Platform file name shared by every catalogue category.
pub const PLATFORM_FILE: &'static str = "Nintendo - Super Nintendo Entertainment System.dat";

pub const LIBRETRO_DATABASE: &'static str = "https://raw.githubusercontent.com/libretro/libretro-database/master/metadat";

pub const LIBRETRO_THUMBNAILS: &'static str = "https://raw.githubusercontent.com/libretro-thumbnails/Nintendo_-_Super_Nintendo_Entertainment_System/master/Named_Boxarts";

pub const WIKIPEDIA_SUMMARY: &'static str = "https://en.wikipedia.org/api/rest_v1/page/summary";

// --- CRC32 ----------------------------------------------------------------

/// One bit of the reflected IEEE CRC: shift right, folding the polynomial in
/// when the bit shifted out was set.
pub open spec fn crc_bit(c: u32) -> u32 {
    if c & 1 == 1 {
        (c >> 1) ^ 0xEDB8_8320
    } else {
        c >> 1
    }
}

pub open spec fn crc_bits(c: u32, n: nat) -> u32
    decreases n,
{
    if n == 0 {
        c
    } else {
        crc_bit(crc_bits(c, (n - 1) as nat))
    }
}

/// The register after feeding `bytes`, from `c`.
pub open spec fn crc_run(c: u32, bytes: Seq<u8>) -> u32
    decreases bytes.len(),
{
    if bytes.len() == 0 {
        c
    } else {
        crc_bits(crc_run(c, bytes.drop_last()) ^ (bytes.last() as u32), 8)
    }
}

/// CRC32 (IEEE) of `bytes`: register started at all ones, result inverted.
pub open spec fn spec_crc32(bytes: Seq<u8>) -> u32 {
    !crc_run(!0u32, bytes)
}

/// CRC32 (IEEE, the one every DAT file uses) of a ROM image.
pub fn crc32(bytes: &[u8]) -> (r: u32)
    ensures
        r == spec_crc32(bytes@),
{
    let mut crc: u32 = !0u32;
    let mut i: usize = 0;
    while i < bytes.len()
        invariant
            i <= bytes@.len(),
            crc == crc_run(!0u32, bytes@.take(i as int)),
        decreases bytes@.len() - i,
    {
        proof {
            assert(bytes@.take(i + 1).drop_last() =~= bytes@.take(i as int));
            assert(bytes@.take(i + 1).last() == bytes@[i as int]);
        }
        let start = crc ^ (bytes[i] as u32);
        crc = start;
        let mut k: u32 = 0;
        while k < 8
            invariant
                k <= 8,
                crc == crc_bits(start, k as nat),
            decreases 8 - k,
        {
            crc = if crc & 1 == 1 { (crc >> 1) ^ 0xEDB8_8320 } else { crc >> 1 };
            k = k + 1;
        }
        i = i + 1;
    }
    assert(bytes@.take(bytes@.len() as int) =~= bytes@);
    !crc
}

// --- the catalogue --------------------------------------------------------

/// One catalogue category; the field name is not always the category name.
#[derive(Debug, Clone, Copy, PartialEq, Eq, Structural)]
pub enum Category {
    Genre,
    Developer,
    Publisher,
    MaxUsers,
    ReleaseYear,
    ReleaseMonth,
    Franchise,
    Esrb,
}

pub open spec fn category_dir(c: Category) -> Seq<char> {
    match c {
        Category::Genre => "genre"@,
        Category::Developer => "developer"@,
        Category::Publisher => "publisher"@,
        Category::MaxUsers => "maxusers"@,
        Category::ReleaseYear => "releaseyear"@,
        Category::ReleaseMonth => "releasemonth"@,
        Category::Franchise => "franchise"@,
        Category::Esrb => "esrb"@,
    }
}

pub open spec fn category_field(c: Category) -> Seq<char> {
    match c {
        Category::Genre => "genre"@,
        Category::Developer => "developer"@,
        Category::Publisher => "publisher"@,
        Category::MaxUsers => "users"@,
        Category::ReleaseYear => "releaseyear"@,
        Category::ReleaseMonth => "releasemonth"@,
        Category::Franchise => "franchise"@,
        Category::Esrb => "esrb_rating"@,
    }
}

impl Category {
    /// Every category, in the order they are fetched.
    pub fn all() -> (r: Vec<Category>)
        ensures
            r@ == seq![
                Category::Genre,
                Category::Developer,
                Category::Publisher,
                Category::MaxUsers,
                Category::ReleaseYear,
                Category::ReleaseMonth,
                Category::Franchise,
                Category::Esrb,
            ],
    {
        let r = vec![
            Category::Genre,
            Category::Developer,
            Category::Publisher,
            Category::MaxUsers,
            Category::ReleaseYear,
            Category::ReleaseMonth,
            Category::Franchise,
            Category::Esrb,
        ];
        assert(r@ =~= seq![
            Category::Genre,
            Category::Developer,
            Category::Publisher,
            Category::MaxUsers,
            Category::ReleaseYear,
            Category::ReleaseMonth,
            Category::Franchise,
            Category::Esrb,
        ]);
        r
    }

    /// Directory of the category in the database, and the local cache file's
    /// stem.
    pub fn dir(self) -> (r: &'static str)
        ensures
            r@ == category_dir(self),
    {
        match self {
            Category::Genre => "genre",
            Category::Developer => "developer",
            Category::Publisher => "publisher",
            Category::MaxUsers => "maxusers",
            Category::ReleaseYear => "releaseyear",
            Category::ReleaseMonth => "releasemonth",
            Category::Franchise => "franchise",
            Category::Esrb => "esrb",
        }
    }

    /// Key the value sits under inside a `game ( … )` block.
    pub fn field(self) -> (r: &'static str)
        ensures
            r@ == category_field(self),
    {
        match self {
            Category::Genre => "genre",
            Category::Developer => "developer",
            Category::Publisher => "publisher",
            Category::MaxUsers => "users",
            Category::ReleaseYear => "releaseyear",
            Category::ReleaseMonth => "releasemonth",
            Category::Franchise => "franchise",
            Category::Esrb => "esrb_rating",
        }
    }
}

/// Every category has a directory of its own: no two share one.
pub proof fn law_category_dirs_are_distinct(a: Category, b: Category)
    requires
        a != b,
    ensures
        category_dir(a) != category_dir(b),
{
    reveal_strlit("genre");
    reveal_strlit("developer");
    reveal_strlit("publisher");
    reveal_strlit("maxusers");
    reveal_strlit("releaseyear");
    reveal_strlit("releasemonth");
    reveal_strlit("franchise");
    reveal_strlit("esrb");
    let x = category_dir(a);
    let y = category_dir(b);
    if x.len() == y.len() {
        if x.len() == 9 {
            assert(x[0] != y[0]);
        } else if x.len() == 11 {
            assert(x[0] != y[0]);
        }
    }
}

/// Name of the local cache file of a category (or of the No-Intro DAT).
pub fn catalog_file(dir: &str) -> (r: String)
    ensures
        r@ == dir@ + ".dat"@,
{
    let mut r = String::from_str(dir);
    push_str(&mut r, ".dat");
    r
}

/// URL of a catalogue file in the database.
pub fn catalog_url(dir: &str) -> (r: String)
    ensures
        r@ == LIBRETRO_DATABASE@ + "/"@ + dir@ + "/"@ + percent_encoded(PLATFORM_FILE.spec_bytes()),
{
    let mut r = String::from_str(LIBRETRO_DATABASE);
    push_str(&mut r, "/");
    push_str(&mut r, dir);
    push_str(&mut r, "/");
    let e = encode_segment(PLATFORM_FILE);
    push_str(&mut r, e.as_str());
    r
}

/// The downloaded catalogue: CRC to canonical name, and CRC to value for
/// each category that could be read.
#[derive(Debug, Clone)]
pub struct Catalog {
    pub names: BTreeMap<u32, String>,
    pub facts: Vec<(Category, BTreeMap<u32, String>)>,
}

/// The first category map listed for `c`.
pub open spec fn facts_of(facts: Seq<(Category, BTreeMap<u32, String>)>, c: Category) -> Option<BTreeMap<u32, String>>
    decreases facts.len(),
{
    if facts.len() == 0 {
        None
    } else if facts[0].0 == c {
        Some(facts[0].1)
    } else {
        facts_of(facts.drop_first(), c)
    }
}

impl Catalog {
    /// The catalogue from the texts that could be had: the No-Intro DAT
    /// (whose absence is fatal, as is a DAT that names nothing) and the
    /// category DATs that loaded, each read for its own field, in the order
    /// given. A category missing from `categories` is a fact fewer, no more.
    pub fn load(no_intro: Result<String, String>, categories: &Vec<(Category, String)>) -> (r: Result<Catalog, String>)
        ensures
            match no_intro {
                Err(e) => r matches Err(m) && m@ == "No-Intro catalogue unavailable: "@ + e@,
                Ok(t) => if spec_no_intro(spec_blocks(t@, 0)).dom().is_empty() {
                    r matches Err(m) && m@ == "No-Intro catalogue is empty or malformed"@
                } else {
                    r matches Ok(c) && names_view(c.names) == spec_no_intro(spec_blocks(t@, 0))
                        && c.facts@.len() == categories@.len()
                        && forall|i: int| 0 <= i < categories@.len() ==> (#[trigger] c.facts@[i]).0 == categories@[i].0
                            && names_view(c.facts@[i].1) == spec_category(spec_blocks(categories@[i].1@, 0), category_field(categories@[i].0))
                },
            },
    {
        broadcast use vstd::std_specs::btree::group_btree_axioms;
        let text = match no_intro {
            Ok(t) => t,
            Err(e) => {
                let mut m = String::from_str("No-Intro catalogue unavailable: ");
                push_str(&mut m, e.as_str());
                return Err(m);
            },
        };
        let names = parse_no_intro(text.as_str());
        proof {
            assert(names_view(names).dom() == names@.dom());
        }
        if names.is_empty() {
            return Err(String::from_str("No-Intro catalogue is empty or malformed"));
        }
        let mut facts: Vec<(Category, BTreeMap<u32, String>)> = Vec::new();
        let mut i: usize = 0;
        while i < categories.len()
            invariant
                i <= categories@.len(),
                facts@.len() == i,
                forall|k: int| 0 <= k < i ==> (#[trigger] facts@[k]).0 == categories@[k].0
                    && names_view(facts@[k].1) == spec_category(spec_blocks(categories@[k].1@, 0), category_field(categories@[k].0)),
            decreases categories@.len() - i,
        {
            let c = categories[i].0;
            let m = parse_category(categories[i].1.as_str(), c.field());
            facts.push((c, m));
            i = i + 1;
        }
        Ok(Catalog { names, facts })
    }

    pub fn name_of(&self, crc: u32) -> (r: Option<&String>)
        ensures
            r matches Some(n) ==> self.names@.contains_key(crc) && self.names@[crc] == *n,
            r is None ==> !self.names@.contains_key(crc),
    {
        broadcast use vstd::std_specs::btree::group_btree_axioms;
        self.names.get(&crc)
    }

    /// The value of `category` for `crc`, from the first map of that category.
    pub fn fact(&self, category: Category, crc: u32) -> (r: Option<&String>)
        ensures
            r matches Some(v) ==> facts_of(self.facts@, category) matches Some(m) && m@.contains_key(crc) && m@[crc] == *v,
            r is None ==> !(facts_of(self.facts@, category) matches Some(m) && m@.contains_key(crc)),
    {
        broadcast use vstd::std_specs::btree::group_btree_axioms;
        let mut i: usize = 0;
        assert(self.facts@.skip(0) =~= self.facts@);
        while i < self.facts.len()
            invariant
                i <= self.facts@.len(),
                facts_of(self.facts@, category) == facts_of(self.facts@.skip(i as int), category),
            decreases self.facts@.len() - i,
        {
            proof {
                let t = self.facts@.skip(i as int);
                assert(t.drop_first() =~= self.facts@.skip(i + 1));
                assert(t[0] == self.facts@[i as int]);
            }
            if self.facts[i].0 == category {
                return self.facts[i].1.get(&crc);
            }
            i = i + 1;
        }
        None
    }
}

// --- what one game ends up with -------------------------------------------

/// A description and the article it was taken from.
#[derive(Debug, Clone, PartialEq, Eq)]
pub struct Description {
    pub text: String,
    /// Title of the article actually served.
    pub title: String,
    pub url: String,
}

impl Default for Description {
    fn default() -> (r: Description)
        ensures
            r.text@.len() == 0,
            r.title@.len() == 0,
            r.url@.len() == 0,
    {
        Description { text: String::new(), title: String::new(), url: String::new() }
    }
}

/// Everything the chain found for one game; absent fields are absent.
#[derive(Debug, Clone, PartialEq, Eq)]
pub struct GameMeta {
    /// CRC32 of the image these facts were looked up with.
    pub crc32: u32,
    /// Canonical No-Intro name; empty when the CRC matched nothing.
    pub name: String,
    pub genre: Option<String>,
    pub developer: Option<String>,
    pub publisher: Option<String>,
    pub players: Option<String>,
    pub year: Option<String>,
    pub month: Option<String>,
    pub franchise: Option<String>,
    pub esrb: Option<String>,
    pub description: Option<Description>,
    /// Box art PNG, when the repository had one.
    pub boxart: Option<String>,
    /// When this was filled in, Unix seconds.
    pub fetched: i64,
}

impl Default for GameMeta {
    fn default() -> (r: GameMeta)
        ensures
            r.crc32 == 0,
            r.name@.len() == 0,
            r.genre is None && r.developer is None && r.publisher is None && r.players is None,
            r.year is None && r.month is None && r.franchise is None && r.esrb is None,
            r.description is None && r.boxart is None,
            r.fetched == 0,
    {
        GameMeta {
            crc32: 0,
            name: String::new(),
            genre: None,
            developer: None,
            publisher: None,
            players: None,
            year: None,
            month: None,
            franchise: None,
            esrb: None,
            description: None,
            boxart: None,
            fetched: 0,
        }
    }
}

impl GameMeta {
    /// Whether the CRC was found in the No-Intro catalogue.
    pub fn matched(&self) -> (r: bool)
        ensures
            r == (self.name@.len() > 0),
    {
        self.name.as_str().unicode_len() > 0
    }
}

fn clone_opt(o: &Option<String>) -> (r: Option<String>)
    ensures
        r == *o,
{
    match o {
        Some(s) => Some(s.clone()),
        None => None,
    }
}

/// The facts of a game, in display order, as label and value; absent facts
/// are absent rows.
pub open spec fn spec_facts(lang: Lang, m: GameMeta) -> Seq<(Seq<char>, Seq<char>)> {
    let rows: Seq<(Msg, Option<Seq<char>>)> = seq![
        (Msg::FactGenre, opt_text(m.genre)),
        (Msg::FactDeveloper, opt_text(m.developer)),
        (Msg::FactPublisher, opt_text(m.publisher)),
        (Msg::FactPlayers, opt_text(m.players)),
        (Msg::FactRelease, spec_release(lang, opt_text(m.year), opt_text(m.month))),
        (Msg::FactFranchise, opt_text(m.franchise)),
        (Msg::FactEsrb, opt_text(m.esrb)),
    ];
    present_rows(lang, rows)
}

pub open spec fn opt_text(o: Option<String>) -> Option<Seq<char>> {
    match o {
        Some(s) => Some(s@),
        None => None,
    }
}

pub open spec fn present_rows(lang: Lang, rows: Seq<(Msg, Option<Seq<char>>)>) -> Seq<(Seq<char>, Seq<char>)>
    decreases rows.len(),
{
    if rows.len() == 0 {
        Seq::empty()
    } else {
        let rest = present_rows(lang, rows.drop_last());
        match rows.last().1 {
            Some(v) => rest.push((msg_text(rows.last().0, lang), v)),
            None => rest,
        }
    }
}

fn push_row(out: &mut Vec<(String, String)>, lang: Lang, msg: Msg, value: Option<String>)
    ensures
        final(out)@.len() == old(out)@.len() + (if value is Some { 1int } else { 0int }),
        forall|k: int| 0 <= k < old(out)@.len() ==> final(out)@[k] == old(out)@[k],
        value matches Some(v) ==> final(out)@.last().0@ == msg_text(msg, lang) && final(out)@.last().1@ == v@,
{
    if let Some(v) = value {
        out.push((String::from_str(msg.text(lang)), v));
    }
}

/// The catalogue facts of one game, in display order, as label/value pairs.
pub fn facts(lang: Lang, meta: &GameMeta) -> (r: Vec<(String, String)>)
    ensures
        r@.map_values(|p: (String, String)| (p.0@, p.1@)) == spec_facts(lang, *meta),
{
    let year = match &meta.year {
        Some(y) => Some(y.as_str()),
        None => None,
    };
    let month = match &meta.month {
        Some(m) => Some(m.as_str()),
        None => None,
    };
    let release = format_release(lang, year, month);
    let mut out: Vec<(String, String)> = Vec::new();
    push_row(&mut out, lang, Msg::FactGenre, clone_opt(&meta.genre));
    push_row(&mut out, lang, Msg::FactDeveloper, clone_opt(&meta.developer));
    push_row(&mut out, lang, Msg::FactPublisher, clone_opt(&meta.publisher));
    push_row(&mut out, lang, Msg::FactPlayers, clone_opt(&meta.players));
    push_row(&mut out, lang, Msg::FactRelease, release);
    push_row(&mut out, lang, Msg::FactFranchise, clone_opt(&meta.franchise));
    push_row(&mut out, lang, Msg::FactEsrb, clone_opt(&meta.esrb));
    proof {
        let rows: Seq<(Msg, Option<Seq<char>>)> = seq![
            (Msg::FactGenre, opt_text(meta.genre)),
            (Msg::FactDeveloper, opt_text(meta.developer)),
            (Msg::FactPublisher, opt_text(meta.publisher)),
            (Msg::FactPlayers, opt_text(meta.players)),
            (Msg::FactRelease, spec_release(lang, opt_text(meta.year), opt_text(meta.month))),
            (Msg::FactFranchise, opt_text(meta.franchise)),
            (Msg::FactEsrb, opt_text(meta.esrb)),
        ];
        reveal_with_fuel(present_rows, 8);
        assert(rows.drop_last().drop_last().drop_last().drop_last().drop_last().drop_last().drop_last() =~= Seq::<(Msg, Option<Seq<char>>)>::empty());
        assert(out@.map_values(|p: (String, String)| (p.0@, p.1@)) =~= present_rows(lang, rows));
    }
    out
}

// --- release date ---------------------------------------------------------

/// The value of a string of decimal digits.
pub open spec fn dec_value(d: Seq<char>) -> nat
    decreases d.len(),
{
    if d.len() == 0 {
        0
    } else {
        dec_value(d.drop_last()) * 10 + ((d.last() as u32) - 0x30) as nat
    }
}

pub open spec fn all_digits(d: Seq<char>) -> bool {
    forall|i: int| 0 <= i < d.len() ==> '0' <= #[trigger] d[i] <= '9'
}

/// A month as the catalogue writes it: white space around, an optional `+`,
/// decimal digits, and a value from 1 to 12.
pub open spec fn spec_month(s: Seq<char>) -> Option<nat> {
    let t = trimmed(s);
    let d = if t.len() > 0 && t[0] == '+' { t.drop_first() } else { t };
    if d.len() > 0 && all_digits(d) && 1 <= dec_value(d) <= 12 {
        Some(dec_value(d))
    } else {
        None
    }
}

/// The release date in each language's order (`MM/YYYY`, `YYYY-MM`), the
/// year alone without a usable month, nothing without a year.
pub open spec fn spec_release(lang: Lang, year: Option<Seq<char>>, month: Option<Seq<char>>) -> Option<Seq<char>> {
    match year {
        None => None,
        Some(y) => {
            let y = trimmed(y);
            if y.len() == 0 {
                None
            } else {
                match (match month { Some(m) => spec_month(m), None => None }) {
                    None => Some(y),
                    Some(m) => match lang {
                        Lang::Fr => Some(zpad(m, 2) + "/"@ + y),
                        Lang::En => Some(y + "-"@ + zpad(m, 2)),
                    },
                }
            }
        },
    }
}

proof fn lemma_dec_value_grows(d: Seq<char>, k: int)
    requires
        0 <= k <= d.len(),
        all_digits(d),
    ensures
        dec_value(d.take(k)) <= dec_value(d),
    decreases d.len() - k,
{
    if k < d.len() {
        lemma_dec_value_grows(d, k + 1);
        assert(d.take(k + 1).drop_last() =~= d.take(k));
        assert('0' <= d[k] <= '9');
    } else {
        assert(d.take(k) =~= d);
    }
}

fn parse_month(s: &str) -> (r: Option<u32>)
    ensures
        r matches Some(m) ==> spec_month(s@) == Some(m as nat),
        r is None ==> spec_month(s@) is None,
{
    let v = chars_of(s);
    let t = trim_chars(v.as_slice());
    let start: usize = if t.len() > 0 && t[0] == '+' { 1 } else { 0 };
    let ghost d = if t@.len() > 0 && t@[0] == '+' { t@.drop_first() } else { t@ };
    proof {
        assert(d =~= t@.skip(start as int));
    }
    if start >= t.len() {
        return None;
    }
    let mut value: u32 = 0;
    let mut i: usize = start;
    while i < t.len()
        invariant
            t@ == trimmed(s@),
            d == (if t@.len() > 0 && t@[0] == '+' { t@.drop_first() } else { t@ }),
            d =~= t@.skip(start as int),
            start <= i <= t@.len(),
            start < t@.len(),
            all_digits(t@.subrange(start as int, i as int)),
            value == (if dec_value(t@.subrange(start as int, i as int)) >= 13 { 13 } else { dec_value(t@.subrange(start as int, i as int)) }),
        decreases t@.len() - i,
    {
        let c = t[i];
        if !('0' <= c && c <= '9') {
            proof {
                assert(d[i - start] == c);
            }
            return None;
        }
        proof {
            assert(t@.subrange(start as int, i + 1).drop_last() =~= t@.subrange(start as int, i as int));
            assert(t@.subrange(start as int, i + 1).last() == c);
        }
        let digit = (c as u32) - 0x30;
        value = if value >= 13 { 13 } else if value * 10 + digit >= 13 { 13 } else { value * 10 + digit };
        i = i + 1;
    }
    proof {
        assert(t@.subrange(start as int, t@.len() as int) =~= d);
    }
    if 1 <= value && value <= 12 {
        Some(value)
    } else {
        None
    }
}

/// The release date, in each language's own order: `01/1993` in French,
/// `1993-01` in English, the year alone when no month is catalogued.
pub fn format_release(lang: Lang, year: Option<&str>, month: Option<&str>) -> (r: Option<String>)
    ensures
        opt_text(r) == spec_release(lang, crate::paths::opt_view(year), crate::paths::opt_view(month)),
{
    let y = match year {
        Some(y) => y,
        None => {
            return None;
        },
    };
    let yv = chars_of(y);
    let yt = trim_chars(yv.as_slice());
    if yt.len() == 0 {
        return None;
    }
    let m = match month {
        Some(m) => parse_month(m),
        None => None,
    };
    let mut r = String::new();
    match m {
        None => {
            push_chars(&mut r, yt.as_slice());
        },
        Some(mm) => {
            let digits = padded(mm as u64, 2);
            match lang {
                Lang::Fr => {
                    push_chars(&mut r, digits.as_slice());
                    push_str(&mut r, "/");
                    push_chars(&mut r, yt.as_slice());
                },
                Lang::En => {
                    push_chars(&mut r, yt.as_slice());
                    push_str(&mut r, "-");
                    push_chars(&mut r, digits.as_slice());
                },
            }
        },
    }
    Some(r)
}


// --- clrmamepro parsing ---------------------------------------------------

/// A `key value` pair, as text.
pub open spec fn pair_view(p: (String, String)) -> (Seq<char>, Seq<char>) {
    (p.0@, p.1@)
}

pub open spec fn pairs_view(v: Vec<(String, String)>) -> Seq<(Seq<char>, Seq<char>)> {
    v@.map_values(|p: (String, String)| pair_view(p))
}

/// What a block holds, as text.
pub struct BlockView {
    pub fields: Seq<(Seq<char>, Seq<char>)>,
    pub nested: Seq<Seq<(Seq<char>, Seq<char>)>>,
}

pub open spec fn empty_block() -> BlockView {
    BlockView { fields: Seq::empty(), nested: Seq::empty() }
}

/// One `game ( … )` block: its own `key value` pairs, plus the pairs of every
/// block nested in it (`rom ( … )`).
#[derive(Debug, Clone, PartialEq, Eq)]
pub struct Block {
    pub fields: Vec<(String, String)>,
    pub nested: Vec<Vec<(String, String)>>,
}

impl View for Block {
    type V = BlockView;

    open spec fn view(&self) -> BlockView {
        BlockView {
            fields: pairs_view(self.fields),
            nested: self.nested@.map_values(|v: Vec<(String, String)>| pairs_view(v)),
        }
    }
}

impl Default for Block {
    fn default() -> (r: Block)
        ensures
            r@ == empty_block(),
    {
        let r = Block { fields: Vec::new(), nested: Vec::new() };
        assert(r@.fields =~= Seq::<(Seq<char>, Seq<char>)>::empty());
        assert(r@.nested =~= Seq::<Seq<(Seq<char>, Seq<char>)>>::empty());
        r
    }
}

/// The value of the first pair keyed `key`.
pub open spec fn first_value(fields: Seq<(Seq<char>, Seq<char>)>, key: Seq<char>) -> Option<Seq<char>>
    decreases fields.len(),
{
    if fields.len() == 0 {
        None
    } else if fields[0].0 == key {
        Some(fields[0].1)
    } else {
        first_value(fields.drop_first(), key)
    }
}

/// Every `crc` value of the nested blocks that reads as a 32-bit hex number,
/// in order.
pub open spec fn crcs_of(nested: Seq<Seq<(Seq<char>, Seq<char>)>>) -> Seq<u32>
    decreases nested.len(),
{
    if nested.len() == 0 {
        Seq::empty()
    } else {
        crcs_of(nested.drop_last()) + crcs_in(nested.last())
    }
}

pub open spec fn crcs_in(pairs: Seq<(Seq<char>, Seq<char>)>) -> Seq<u32>
    decreases pairs.len(),
{
    if pairs.len() == 0 {
        Seq::empty()
    } else {
        let p = pairs.last();
        crcs_in(pairs.drop_last()) + (if p.0 == "crc"@ && crate::text::radix16(trimmed(p.1), 0xFFFF_FFFF) is Some {
            seq![crate::text::radix16(trimmed(p.1), 0xFFFF_FFFF)->0 as u32]
        } else {
            Seq::empty()
        })
    }
}

impl Block {
    pub fn get(&self, key: &str) -> (r: Option<&str>)
        ensures
            crate::paths::opt_view(r) == first_value(self@.fields, key@),
    {
        let mut i: usize = 0;
        assert(self@.fields.skip(0) =~= self@.fields);
        while i < self.fields.len()
            invariant
                i <= self.fields@.len(),
                first_value(self@.fields, key@) == first_value(self@.fields.skip(i as int), key@),
            decreases self.fields@.len() - i,
        {
            proof {
                let t = self@.fields.skip(i as int);
                assert(t.drop_first() =~= self@.fields.skip(i + 1));
                assert(t[0] == pair_view(self.fields@[i as int]));
            }
            if str_eq(self.fields[i].0.as_str(), key) {
                return Some(self.fields[i].1.as_str());
            }
            i = i + 1;
        }
        None
    }

    /// Every CRC this block names, in order.
    pub fn crcs(&self) -> (r: Vec<u32>)
        ensures
            r@ == crcs_of(self@.nested),
    {
        let mut out: Vec<u32> = Vec::new();
        let mut i: usize = 0;
        while i < self.nested.len()
            invariant
                i <= self.nested@.len(),
                out@ == crcs_of(self@.nested.take(i as int)),
            decreases self.nested@.len() - i,
        {
            proof {
                assert(self@.nested.take(i + 1).drop_last() =~= self@.nested.take(i as int));
                assert(self@.nested.take(i + 1).last() == pairs_view(self.nested@[i as int]));
            }
            let rom = &self.nested[i];
            let ghost before = out@;
            let mut k: usize = 0;
            while k < rom.len()
                invariant
                    k <= rom@.len(),
                    out@ == before + crcs_in(pairs_view(*rom).take(k as int)),
                decreases rom@.len() - k,
            {
                proof {
                    assert(pairs_view(*rom).take(k + 1).drop_last() =~= pairs_view(*rom).take(k as int));
                    assert(pairs_view(*rom).take(k + 1).last() == pair_view(rom@[k as int]));
                }
                if str_eq(rom[k].0.as_str(), "crc") {
                    let v = chars_of(rom[k].1.as_str());
                    let t = trim_chars(v.as_slice());
                    match crate::text::parse_radix16(t.as_slice(), 0xFFFF_FFFF) {
                        Some(c) => {
                            out.push(c);
                        },
                        None => {},
                    }
                }
                proof {
                    assert(out@ =~= before + crcs_in(pairs_view(*rom).take(k + 1)));
                }
                k = k + 1;
            }
            proof {
                assert(pairs_view(*rom).take(rom@.len() as int) =~= pairs_view(*rom));
            }
            i = i + 1;
        }
        proof {
            assert(self@.nested.take(self@.nested.len() as int) =~= self@.nested);
        }
        out
    }
}

/// First position at or after `i` that is not white space.
pub open spec fn skip_ws(s: Seq<char>, i: int) -> int
    decreases s.len() - i,
{
    if 0 <= i < s.len() && is_white(s[i]) {
        skip_ws(s, i + 1)
    } else {
        i
    }
}

/// A character that ends a bare word.
pub open spec fn word_stop(c: char) -> bool {
    is_white(c) || c == '(' || c == ')' || c == '"'
}

/// First position at or after `i` that ends a bare word.
pub open spec fn word_end(s: Seq<char>, i: int) -> int
    decreases s.len() - i,
{
    if 0 <= i < s.len() && !word_stop(s[i]) {
        word_end(s, i + 1)
    } else {
        i
    }
}

/// A bare word after optional white space, and the position after it.
pub open spec fn spec_read_word(s: Seq<char>, i: int) -> Option<(Seq<char>, int)> {
    let a = skip_ws(s, i);
    let b = word_end(s, a);
    if b > a {
        Some((s.subrange(a, b), b))
    } else {
        None
    }
}

/// The rest of a quoted string from `i` (after its opening quote): `\`
/// escapes the next character; `None` when the text ends first.
pub open spec fn spec_quoted(s: Seq<char>, i: int) -> Option<(Seq<char>, int)>
    decreases s.len() - i,
{
    if i < 0 || i >= s.len() {
        None
    } else if s[i] == '"' {
        Some((Seq::empty(), i + 1))
    } else if s[i] == '\\' {
        if i + 1 < s.len() {
            match spec_quoted(s, i + 2) {
                Some((v, k)) => Some((seq![s[i + 1]] + v, k)),
                None => None,
            }
        } else {
            None
        }
    } else {
        match spec_quoted(s, i + 1) {
            Some((v, k)) => Some((seq![s[i]] + v, k)),
            None => None,
        }
    }
}

/// A value: a quoted string or a bare word.
pub open spec fn spec_read_value(s: Seq<char>, i: int) -> Option<(Seq<char>, int)> {
    let a = skip_ws(s, i);
    if 0 <= a < s.len() && s[a] == '"' {
        spec_quoted(s, a + 1)
    } else {
        spec_read_word(s, a)
    }
}

/// The body of a block from `i` up to and including its closing parenthesis,
/// added to `acc`; `None` when the text ends first.
pub open spec fn spec_read_block(s: Seq<char>, i: int, acc: BlockView) -> Option<(BlockView, int)>
    decreases s.len() - i,
{
    let j = skip_ws(s, i);
    if i < 0 || j < i || j >= s.len() {
        None
    } else if s[j] == ')' {
        Some((acc, j + 1))
    } else if s[j] == '(' {
        match spec_read_block(s, j + 1, empty_block()) {
            Some((b, k)) => if i < k <= s.len() {
                spec_read_block(s, k, BlockView { fields: acc.fields, nested: acc.nested.push(b.fields) })
            } else {
                None
            },
            None => None,
        }
    } else {
        match spec_read_word(s, j) {
            None => None,
            Some((key, k)) => {
                let k2 = skip_ws(s, k);
                if k2 < i || k2 >= s.len() + 1 {
                    None
                } else if k2 < s.len() && s[k2] == '(' {
                    match spec_read_block(s, k2 + 1, empty_block()) {
                        Some((b, k3)) => if i < k3 <= s.len() {
                            spec_read_block(s, k3, BlockView { fields: acc.fields, nested: acc.nested.push(b.fields) })
                        } else {
                            None
                        },
                        None => None,
                    }
                } else {
                    match spec_read_value(s, k2) {
                        Some((v, k3)) => if i < k3 <= s.len() {
                            spec_read_block(s, k3, BlockView { fields: acc.fields.push((key, v)), nested: acc.nested })
                        } else {
                            None
                        },
                        None => None,
                    }
                }
            },
        }
    }
}

/// The top-level blocks of a clrmamepro text from `i`, as (kind, block):
/// a stray word outside any block is skipped, and a block the text ends
/// inside ends the list.
pub open spec fn spec_blocks(s: Seq<char>, i: int) -> Seq<(Seq<char>, BlockView)>
    decreases s.len() - i,
{
    match spec_read_word(s, i) {
        None => Seq::empty(),
        Some((kind, k)) => {
            let j = skip_ws(s, k);
            if !(0 <= j < s.len() && s[j] == '(') {
                if i < k <= s.len() {
                    spec_blocks(s, k)
                } else {
                    Seq::empty()
                }
            } else {
                match spec_read_block(s, j + 1, empty_block()) {
                    Some((b, k2)) => if i < k2 <= s.len() {
                        seq![(kind, b)] + spec_blocks(s, k2)
                    } else {
                        Seq::empty()
                    },
                    None => Seq::empty(),
                }
            }
        },
    }
}

proof fn lemma_skip_ws(s: Seq<char>, i: int)
    requires
        0 <= i <= s.len(),
    ensures
        i <= skip_ws(s, i) <= s.len(),
        skip_ws(s, i) < s.len() ==> !is_white(s[skip_ws(s, i)]),
    decreases s.len() - i,
{
    if i < s.len() && is_white(s[i]) {
        lemma_skip_ws(s, i + 1);
    }
}

proof fn lemma_word_end(s: Seq<char>, i: int)
    requires
        0 <= i <= s.len(),
    ensures
        i <= word_end(s, i) <= s.len(),
    decreases s.len() - i,
{
    if i < s.len() && !word_stop(s[i]) {
        lemma_word_end(s, i + 1);
    }
}

fn skip_space(c: &[char], i: usize) -> (j: usize)
    requires
        i <= c@.len(),
    ensures
        j == skip_ws(c@, i as int),
        i <= j <= c@.len(),
{
    proof {
        lemma_skip_ws(c@, i as int);
    }
    let mut j = i;
    while j < c.len() && char_is_whitespace(c[j])
        invariant
            i <= j <= c@.len(),
            skip_ws(c@, i as int) == skip_ws(c@, j as int),
        decreases c@.len() - j,
    {
        j = j + 1;
    }
    j
}

fn read_word(c: &[char], i: usize) -> (r: Option<(String, usize)>)
    requires
        i <= c@.len(),
    ensures
        match r {
            Some((w, k)) => spec_read_word(c@, i as int) == Some((w@, k as int)) && i < k <= c@.len(),
            None => spec_read_word(c@, i as int) is None,
        },
{
    let a = skip_space(c, i);
    proof {
        lemma_word_end(c@, a as int);
    }
    let mut b = a;
    while b < c.len() && !(char_is_whitespace(c[b]) || c[b] == '(' || c[b] == ')' || c[b] == '"')
        invariant
            a <= b <= c@.len(),
            word_end(c@, a as int) == word_end(c@, b as int),
        decreases c@.len() - b,
    {
        b = b + 1;
    }
    if b > a {
        let w = crate::text::sub_chars(c, a, b);
        Some((string_of(w.as_slice()), b))
    } else {
        None
    }
}

fn read_quoted(c: &[char], i: usize) -> (r: Option<(String, usize)>)
    requires
        i <= c@.len(),
    ensures
        match r {
            Some((v, k)) => spec_quoted(c@, i as int) == Some((v@, k as int)) && i < k <= c@.len(),
            None => spec_quoted(c@, i as int) is None,
        },
{
    let mut out: Vec<char> = Vec::new();
    let mut j = i;
    loop
        invariant
            i <= j <= c@.len(),
            spec_quoted(c@, i as int) == (match spec_quoted(c@, j as int) {
                Some((v, k)) => Some((out@ + v, k)),
                None => None,
            }),
        decreases c@.len() - j,
    {
        if j >= c.len() {
            return None;
        }
        let ch = c[j];
        if ch == '"' {
            proof {
                assert(out@ + Seq::<char>::empty() =~= out@);
            }
            return Some((string_of(out.as_slice()), j + 1));
        }
        if ch == '\\' {
            if j + 1 < c.len() {
                proof {
                    match spec_quoted(c@, j + 2) {
                        Some((v, k)) => {
                            assert(out@ + (seq![c@[j + 1]] + v) =~= out@.push(c@[j + 1]) + v);
                        },
                        None => {},
                    }
                }
                out.push(c[j + 1]);
                j = j + 2;
            } else {
                return None;
            }
        } else {
            proof {
                match spec_quoted(c@, j + 1) {
                    Some((v, k)) => {
                        assert(out@ + (seq![ch] + v) =~= out@.push(ch) + v);
                    },
                    None => {},
                }
            }
            out.push(ch);
            j = j + 1;
        }
    }
}

fn read_value(c: &[char], i: usize) -> (r: Option<(String, usize)>)
    requires
        i <= c@.len(),
    ensures
        match r {
            Some((v, k)) => spec_read_value(c@, i as int) == Some((v@, k as int)) && i < k <= c@.len(),
            None => spec_read_value(c@, i as int) is None,
        },
{
    let a = skip_space(c, i);
    proof {
        lemma_skip_ws(c@, a as int);
    }
    if a < c.len() && c[a] == '"' {
        read_quoted(c, a + 1)
    } else {
        read_word(c, a)
    }
}

fn read_block(c: &[char], i: usize) -> (r: Option<(Block, usize)>)
    requires
        i <= c@.len(),
    ensures
        match r {
            Some((b, k)) => spec_read_block(c@, i as int, empty_block()) == Some((b@, k as int)) && i < k <= c@.len(),
            None => spec_read_block(c@, i as int, empty_block()) is None,
        },
    decreases c@.len() - i,
{
    let mut block = Block::default();
    let mut pos = i;
    loop
        invariant
            i <= pos <= c@.len(),
            pos == i ==> block@ == empty_block(),
            spec_read_block(c@, i as int, empty_block()) == spec_read_block(c@, pos as int, block@),
        decreases c@.len() - pos,
    {
        let j = skip_space(c, pos);
        if j >= c.len() {
            return None;
        }
        if c[j] == ')' {
            return Some((block, j + 1));
        }
        if c[j] == '(' {
            match read_block(c, j + 1) {
                Some((inner, k)) => {
                    let ghost before = block@;
                    block.nested.push(inner.fields);
                    proof {
                        assert(block@.nested =~= before.nested.push(inner@.fields));
                        assert(block@.fields =~= before.fields);
                    }
                    pos = k;
                },
                None => {
                    return None;
                },
            }
        } else {
            let (key, k) = match read_word(c, j) {
                Some(x) => x,
                None => {
                    return None;
                },
            };
            let k2 = skip_space(c, k);
            if k2 < c.len() && c[k2] == '(' {
                match read_block(c, k2 + 1) {
                    Some((inner, k3)) => {
                        let ghost before = block@;
                        block.nested.push(inner.fields);
                        proof {
                            assert(block@.nested =~= before.nested.push(inner@.fields));
                            assert(block@.fields =~= before.fields);
                        }
                        pos = k3;
                    },
                    None => {
                        return None;
                    },
                }
            } else {
                match read_value(c, k2) {
                    Some((v, k3)) => {
                        let ghost before = block@;
                        let ghost kv = key@;
                        block.fields.push((key, v));
                        proof {
                            assert(block@.fields =~= before.fields.push((kv, v@)));
                            assert(block@.nested =~= before.nested);
                        }
                        pos = k3;
                    },
                    None => {
                        return None;
                    },
                }
            }
        }
    }
}

/// Parse a clrmamepro file into its top-level blocks, as `(kind, block)`
/// pairs. A quoted value may hold anything, parentheses included; a
/// truncated file yields the blocks that did close and drops the one that
/// did not.
pub fn parse_blocks(text: &str) -> (r: Vec<(String, Block)>)
    ensures
        r@.map_values(|p: (String, Block)| (p.0@, p.1@)) == spec_blocks(text@, 0),
{
    let c = chars_of(text);
    let mut out: Vec<(String, Block)> = Vec::new();
    let mut i: usize = 0;
    loop
        invariant
            c@ == text@,
            i <= c@.len(),
            spec_blocks(c@, 0) == out@.map_values(|p: (String, Block)| (p.0@, p.1@)) + spec_blocks(c@, i as int),
        decreases c@.len() - i,
    {
        let ghost seen = out@.map_values(|p: (String, Block)| (p.0@, p.1@));
        let (kind, k) = match read_word(c.as_slice(), i) {
            Some(x) => x,
            None => {
                proof {
                    assert(seen + Seq::<(Seq<char>, BlockView)>::empty() =~= seen);
                }
                return out;
            },
        };
        let j = skip_space(c.as_slice(), k);
        if !(j < c.len() && c[j] == '(') {
            i = k;
        } else {
            match read_block(c.as_slice(), j + 1) {
                Some((b, k2)) => {
                    let ghost entry = (kind@, b@);
                    out.push((kind, b));
                    proof {
                        assert(out@.map_values(|p: (String, Block)| (p.0@, p.1@)) =~= seen.push(entry));
                        assert(seen + (seq![entry] + spec_blocks(c@, k2 as int)) =~= seen.push(entry) + spec_blocks(c@, k2 as int));
                    }
                    i = k2;
                },
                None => {
                    proof {
                        assert(seen + Seq::<(Seq<char>, BlockView)>::empty() =~= seen);
                    }
                    return out;
                },
            }
        }
    }
}


/// `m` with `v` added under every key of `keys` it does not hold yet: the
/// first value given for a key wins.
pub open spec fn insert_absent(m: Map<u32, Seq<char>>, keys: Seq<u32>, v: Seq<char>) -> Map<u32, Seq<char>>
    decreases keys.len(),
{
    if keys.len() == 0 {
        m
    } else {
        let m2 = insert_absent(m, keys.drop_last(), v);
        if m2.contains_key(keys.last()) {
            m2
        } else {
            m2.insert(keys.last(), v)
        }
    }
}

/// CRC to canonical name over the `game` blocks, in file order, the first
/// name of a CRC winning.
pub open spec fn spec_no_intro(blocks: Seq<(Seq<char>, BlockView)>) -> Map<u32, Seq<char>>
    decreases blocks.len(),
{
    if blocks.len() == 0 {
        Map::empty()
    } else {
        let m = spec_no_intro(blocks.drop_last());
        let (kind, b) = blocks.last();
        if kind == "game"@ && first_value(b.fields, "name"@) is Some {
            insert_absent(m, crcs_of(b.nested), first_value(b.fields, "name"@)->0)
        } else {
            m
        }
    }
}

/// CRC to the trimmed, non-empty value of `field`, over the `game` blocks,
/// the first value of a CRC winning.
pub open spec fn spec_category(blocks: Seq<(Seq<char>, BlockView)>, field: Seq<char>) -> Map<u32, Seq<char>>
    decreases blocks.len(),
{
    if blocks.len() == 0 {
        Map::empty()
    } else {
        let m = spec_category(blocks.drop_last(), field);
        let (kind, b) = blocks.last();
        if kind == "game"@ && first_value(b.fields, field) is Some && trimmed(first_value(b.fields, field)->0).len() > 0 {
            insert_absent(m, crcs_of(b.nested), trimmed(first_value(b.fields, field)->0))
        } else {
            m
        }
    }
}

pub open spec fn names_view(m: BTreeMap<u32, String>) -> Map<u32, Seq<char>> {
    m@.map_values(|s: String| s@)
}

/// `u32` keys compare the way the maps' specifications need.
proof fn lemma_u32_keys_are_ordered()
    ensures
        vstd::laws_cmp::obeys_cmp::<u32>(),
{
    broadcast use vstd::laws_cmp::group_laws_cmp;
}

fn insert_all(m: &mut BTreeMap<u32, String>, keys: &Vec<u32>, v: &str)
    ensures
        names_view(*final(m)) == insert_absent(names_view(*old(m)), keys@, v@),
{
    broadcast use vstd::std_specs::btree::group_btree_axioms;
    proof {
        lemma_u32_keys_are_ordered();
    }
    let mut i: usize = 0;
    while i < keys.len()
        invariant
            i <= keys@.len(),
            names_view(*m) == insert_absent(names_view(*old(m)), keys@.take(i as int), v@),
        decreases keys@.len() - i,
    {
        proof {
            assert(keys@.take(i + 1).drop_last() =~= keys@.take(i as int));
            assert(keys@.take(i + 1).last() == keys@[i as int]);
        }
        let k = keys[i];
        if !m.contains_key(&k) {
            let ghost before = names_view(*m);
            m.insert(k, String::from_str(v));
            proof {
                assert(names_view(*m) =~= before.insert(k, v@));
            }
        }
        i = i + 1;
    }
    proof {
        assert(keys@.take(keys@.len() as int) =~= keys@);
    }
}

/// CRC to canonical name, from a No-Intro DAT; the first name wins when two
/// entries share a CRC.
pub fn parse_no_intro(text: &str) -> (r: BTreeMap<u32, String>)
    ensures
        names_view(r) == spec_no_intro(spec_blocks(text@, 0)),
{
    broadcast use vstd::std_specs::btree::group_btree_axioms;
    let blocks = parse_blocks(text);
    let ghost bv = blocks@.map_values(|p: (String, Block)| (p.0@, p.1@));
    let mut out: BTreeMap<u32, String> = BTreeMap::new();
    proof {
        assert(names_view(out) =~= Map::<u32, Seq<char>>::empty());
    }
    let mut i: usize = 0;
    while i < blocks.len()
        invariant
            bv == blocks@.map_values(|p: (String, Block)| (p.0@, p.1@)),
            bv == spec_blocks(text@, 0),
            i <= blocks@.len(),
            names_view(out) == spec_no_intro(bv.take(i as int)),
        decreases blocks@.len() - i,
    {
        proof {
            assert(bv.take(i + 1).drop_last() =~= bv.take(i as int));
            assert(bv.take(i + 1).last() == bv[i as int]);
        }
        let (kind, block) = (&blocks[i].0, &blocks[i].1);
        if str_eq(kind.as_str(), "game") {
            match block.get("name") {
                Some(name) => {
                    let crcs = block.crcs();
                    insert_all(&mut out, &crcs, name);
                },
                None => {},
            }
        }
        i = i + 1;
    }
    proof {
        assert(bv.take(bv.len() as int) =~= bv);
    }
    out
}

/// CRC to the value of one category field (`genre`, `users`, …); blank
/// values are skipped and the first value of a CRC wins.
pub fn parse_category(text: &str, field: &str) -> (r: BTreeMap<u32, String>)
    ensures
        names_view(r) == spec_category(spec_blocks(text@, 0), field@),
{
    broadcast use vstd::std_specs::btree::group_btree_axioms;
    let blocks = parse_blocks(text);
    let ghost bv = blocks@.map_values(|p: (String, Block)| (p.0@, p.1@));
    let mut out: BTreeMap<u32, String> = BTreeMap::new();
    proof {
        assert(names_view(out) =~= Map::<u32, Seq<char>>::empty());
    }
    let mut i: usize = 0;
    while i < blocks.len()
        invariant
            bv == blocks@.map_values(|p: (String, Block)| (p.0@, p.1@)),
            bv == spec_blocks(text@, 0),
            i <= blocks@.len(),
            names_view(out) == spec_category(bv.take(i as int), field@),
        decreases blocks@.len() - i,
    {
        proof {
            assert(bv.take(i + 1).drop_last() =~= bv.take(i as int));
            assert(bv.take(i + 1).last() == bv[i as int]);
        }
        let (kind, block) = (&blocks[i].0, &blocks[i].1);
        if str_eq(kind.as_str(), "game") {
            match block.get(field) {
                Some(value) => {
                    let v = chars_of(value);
                    let t = trim_chars(v.as_slice());
                    if t.len() > 0 {
                        let crcs = block.crcs();
                        let tv = string_of(t.as_slice());
                        insert_all(&mut out, &crcs, tv.as_str());
                    }
                },
                None => {},
            }
        }
        i = i + 1;
    }
    proof {
        assert(bv.take(bv.len() as int) =~= bv);
    }
    out
}


// --- names derived from a canonical name ------------------------------------

/// Dropping bracketed tags: the text and the bracket depth after `s`.
pub open spec fn untagged(s: Seq<char>) -> (Seq<char>, nat)
    decreases s.len(),
{
    if s.len() == 0 {
        (Seq::empty(), 0)
    } else {
        let (out, depth) = untagged(s.drop_last());
        let c = s.last();
        if c == '(' || c == '[' {
            (out, depth + 1)
        } else if c == ')' || c == ']' {
            (out, if depth > 0 { (depth - 1) as nat } else { 0 })
        } else if depth == 0 {
            (out.push(c), depth)
        } else {
            (out, depth)
        }
    }
}

/// The words of `s` joined by single spaces: the text and whether a space
/// is pending before the next word.
pub open spec fn squashed(s: Seq<char>) -> (Seq<char>, bool)
    decreases s.len(),
{
    if s.len() == 0 {
        (Seq::empty(), false)
    } else {
        let (out, pending) = squashed(s.drop_last());
        let c = s.last();
        if is_white(c) {
            (out, out.len() > 0)
        } else if pending {
            (out.push(' ').push(c), false)
        } else {
            (out.push(c), false)
        }
    }
}

/// `s` from `i` with every ` - ` replaced by `: `, left to right.
pub open spec fn dash_to_colon(s: Seq<char>, i: int) -> Seq<char>
    decreases s.len() - i,
{
    if i < 0 || i >= s.len() {
        Seq::empty()
    } else if i + 3 <= s.len() && s.subrange(i, i + 3) == " - "@ {
        ": "@ + dash_to_colon(s, i + 3)
    } else {
        seq![s[i]] + dash_to_colon(s, i + 1)
    }
}

/// The first position at or after `i` where ` and ` starts, if any.
pub open spec fn first_and(s: Seq<char>, i: int) -> Option<int>
    decreases s.len() - i,
{
    if i < 0 || i + 5 > s.len() {
        None
    } else if s.subrange(i, i + 5) == " and "@ {
        Some(i)
    } else {
        first_and(s, i + 1)
    }
}

/// `t` appended when it is not empty and not already listed.
pub open spec fn push_new(out: Seq<Seq<char>>, t: Seq<char>) -> Seq<Seq<char>> {
    if t.len() > 0 && !out.contains(t) {
        out.push(t)
    } else {
        out
    }
}

/// Titles to try on Wikipedia for a canonical name, best first: the name
/// without its bracketed tags, then with ` - ` written `: `, then, for a
/// compilation, the title before ` and `.
pub open spec fn spec_wiki_titles(canonical: Seq<char>) -> Seq<Seq<char>> {
    let base = squashed(untagged(canonical).0).0;
    let first = push_new(Seq::empty(), base);
    let second = push_new(first, dash_to_colon(base, 0));
    match first_and(base, 0) {
        Some(k) => push_new(second, trimmed(base.take(k))),
        None => second,
    }
}

fn push_new_title(out: &mut Vec<String>, t: Vec<char>)
    ensures
        final(out)@.map_values(|s: String| s@) == push_new(old(out)@.map_values(|s: String| s@), t@),
{
    let ghost before = out@.map_values(|s: String| s@);
    if t.len() == 0 {
        return;
    }
    let mut i: usize = 0;
    while i < out.len()
        invariant
            before == out@.map_values(|s: String| s@),
            i <= out@.len(),
            forall|k: int| 0 <= k < i ==> out@[k]@ != t@,
        decreases out@.len() - i,
    {
        let ts = string_of(t.as_slice());
        if str_eq(out[i].as_str(), ts.as_str()) {
            proof {
                assert(before[i as int] == t@);
            }
            return;
        }
        i = i + 1;
    }
    proof {
        if before.contains(t@) {
            let k = choose|k: int| 0 <= k < before.len() && before[k] == t@;
            assert(out@[k]@ == t@);
        }
    }
    out.push(string_of(t.as_slice()));
    proof {
        assert(out@.map_values(|s: String| s@) =~= before.push(t@));
    }
}

fn matches_at(v: &Vec<char>, i: usize, pat: &str) -> (r: bool)
    ensures
        r == (i + pat@.len() <= v@.len() && v@.subrange(i as int, i + pat@.len()) == pat@),
{
    let p = chars_of(pat);
    if i > v.len() || p.len() > v.len() - i {
        return false;
    }
    let mut k: usize = 0;
    while k < p.len()
        invariant
            p@ == pat@,
            i + p@.len() <= v@.len() <= usize::MAX,
            k <= p@.len(),
            forall|m: int| 0 <= m < k ==> v@[i + m] == p@[m],
        decreases p@.len() - k,
    {
        if v[i + k] != p[k] {
            proof {
                assert(v@.subrange(i as int, i + p@.len())[k as int] != p@[k as int]);
            }
            return false;
        }
        k = k + 1;
    }
    assert(v@.subrange(i as int, i + p@.len()) =~= p@);
    true
}

/// Titles to try on Wikipedia for a canonical No-Intro name, best first.
pub fn wiki_titles(canonical: &str) -> (r: Vec<String>)
    ensures
        r@.map_values(|s: String| s@) == spec_wiki_titles(canonical@),
{
    let c = chars_of(canonical);
    // Tags dropped.
    let mut stripped: Vec<char> = Vec::new();
    let mut depth: usize = 0;
    let mut i: usize = 0;
    while i < c.len()
        invariant
            c@ == canonical@,
            i <= c@.len(),
            depth <= i,
            (stripped@, depth as nat) == untagged(c@.take(i as int)),
        decreases c@.len() - i,
    {
        proof {
            assert(c@.take(i + 1).drop_last() =~= c@.take(i as int));
            assert(c@.take(i + 1).last() == c@[i as int]);
        }
        let ch = c[i];
        if ch == '(' || ch == '[' {
            depth = depth + 1;
        } else if ch == ')' || ch == ']' {
            depth = if depth > 0 { depth - 1 } else { 0 };
        } else if depth == 0 {
            stripped.push(ch);
        }
        i = i + 1;
    }
    proof {
        assert(c@.take(c@.len() as int) =~= c@);
    }
    // Words joined by single spaces.
    let mut base: Vec<char> = Vec::new();
    let mut pending = false;
    let mut j: usize = 0;
    while j < stripped.len()
        invariant
            j <= stripped@.len(),
            (base@, pending) == squashed(stripped@.take(j as int)),
        decreases stripped@.len() - j,
    {
        proof {
            assert(stripped@.take(j + 1).drop_last() =~= stripped@.take(j as int));
            assert(stripped@.take(j + 1).last() == stripped@[j as int]);
        }
        let ch = stripped[j];
        if char_is_whitespace(ch) {
            pending = base.len() > 0;
        } else {
            if pending {
                base.push(' ');
            }
            base.push(ch);
            pending = false;
        }
        j = j + 1;
    }
    proof {
        assert(stripped@.take(stripped@.len() as int) =~= stripped@);
    }
    let mut out: Vec<String> = Vec::new();
    proof {
        assert(out@.map_values(|s: String| s@) =~= Seq::<Seq<char>>::empty());
    }
    push_new_title(&mut out, base.clone());
    // ` - ` written `: `.
    let mut colon: Vec<char> = Vec::new();
    let mut k: usize = 0;
    while k < base.len()
        invariant
            k <= base@.len(),
            colon@ + dash_to_colon(base@, k as int) == dash_to_colon(base@, 0),
        decreases base@.len() - k,
    {
        if matches_at(&base, k, " - ") {
            proof {
                reveal_strlit(" - ");
                reveal_strlit(": ");
                assert(colon@ + (": "@ + dash_to_colon(base@, k + 3)) =~= colon@.push(':').push(' ') + dash_to_colon(base@, k + 3));
            }
            colon.push(':');
            colon.push(' ');
            k = k + 3;
        } else {
            proof {
                reveal_strlit(" - ");
                assert(colon@ + (seq![base@[k as int]] + dash_to_colon(base@, k + 1)) =~= colon@.push(base@[k as int]) + dash_to_colon(base@, k + 1));
            }
            colon.push(base[k]);
            k = k + 1;
        }
    }
    proof {
        assert(colon@ + Seq::<char>::empty() =~= colon@);
    }
    push_new_title(&mut out, colon);
    // A compilation's first title.
    let mut a: usize = 0;
    let mut found = false;
    while !found && a < base.len() && base.len() - a >= 5
        invariant
            a <= base@.len(),
            first_and(base@, 0) == (if found { Some(a as int) } else { first_and(base@, a as int) }),
        decreases base@.len() - a + (if found { 0int } else { 1int }),
    {
        if matches_at(&base, a, " and ") {
            proof {
                reveal_strlit(" and ");
            }
            found = true;
        } else {
            proof {
                reveal_strlit(" and ");
            }
            a = a + 1;
        }
    }
    proof {
        reveal_strlit(" and ");
    }
    if found {
        let head = crate::text::sub_chars(base.as_slice(), 0, a);
        proof {
            assert(head@ =~= base@.take(a as int));
        }
        let t = trim_chars(head.as_slice());
        push_new_title(&mut out, t);
    }
    out
}

/// A title as one URL path segment: spaces written `_`, then its UTF-8 bytes
/// percent-encoded.
pub open spec fn spec_article_segment(title: Seq<char>) -> Seq<char> {
    percent_encoded(encode_utf8(title.map_values(|c: char| if c == ' ' { '_' } else { c })))
}

fn article_segment(title: &str) -> (r: String)
    ensures
        r@ == spec_article_segment(title@),
{
    let v = chars_of(title);
    let mut u: Vec<char> = Vec::new();
    let mut i: usize = 0;
    while i < v.len()
        invariant
            v@ == title@,
            i <= v@.len(),
            u@ == v@.take(i as int).map_values(|c: char| if c == ' ' { '_' } else { c }),
        decreases v@.len() - i,
    {
        u.push(if v[i] == ' ' { '_' } else { v[i] });
        i = i + 1;
        assert(u@ =~= v@.take(i as int).map_values(|c: char| if c == ' ' { '_' } else { c }));
    }
    assert(v@.take(v@.len() as int) =~= v@);
    let us = string_of(u.as_slice());
    encode_segment(us.as_str())
}

/// The summary URL of one Wikipedia title (spaces written `_`).
pub open spec fn spec_wiki_url(title: Seq<char>) -> Seq<char> {
    WIKIPEDIA_SUMMARY@ + "/"@ + spec_article_segment(title)
}

/// URL of the summary endpoint for one title.
pub fn wiki_url(title: &str) -> (r: String)
    ensures
        r@ == spec_wiki_url(title@),
{
    let mut r = String::from_str(WIKIPEDIA_SUMMARY);
    push_str(&mut r, "/");
    let e = article_segment(title);
    push_str(&mut r, e.as_str());
    r
}

/// Where an article is read, when a summary does not say.
pub const WIKIPEDIA_ARTICLE: &'static str = "https://en.wikipedia.org/wiki/";

/// The text of a member, when it is a string.
pub open spec fn str_node(j: Option<Json>) -> Option<Seq<char>> {
    match j {
        Some(v) => match v.node {
            JsonNode::Str(s) => Some(s@),
            _ => None,
        },
        None => None,
    }
}

/// The members of a member, when it is an object.
pub open spec fn obj_node(j: Option<Json>) -> Option<Seq<(String, Json)>> {
    match j {
        Some(v) => match v.node {
            JsonNode::Object(o) => Some(o@),
            _ => None,
        },
        None => None,
    }
}

/// A summary response as a description `(text, title, url)`: only a
/// `standard` page (a missing `type` counts as one) with a non-blank
/// `extract`, credited to `titles.normalized` or else `title`, linked by
/// `content_urls.desktop.page` or else by the article URL of that title.
pub open spec fn summary_of(j: Json) -> Option<(Seq<char>, Seq<char>, Seq<char>)> {
    match j.node {
        JsonNode::Object(o) => {
            let obj = o@;
            let standard = match str_node(member(obj, "type"@)) {
                Some(k) => k == "standard"@,
                None => true,
            };
            let normalized = match obj_node(member(obj, "titles"@)) {
                Some(t) => str_node(member(t, "normalized"@)),
                None => None,
            };
            let title = match normalized {
                Some(t) => Some(t),
                None => str_node(member(obj, "title"@)),
            };
            let page = match obj_node(member(obj, "content_urls"@)) {
                Some(u) => match obj_node(member(u, "desktop"@)) {
                    Some(d) => str_node(member(d, "page"@)),
                    None => None,
                },
                None => None,
            };
            match (str_node(member(obj, "extract"@)), title) {
                (Some(e), Some(ti)) => if !standard || trimmed(e).len() == 0 {
                    None
                } else {
                    Some((trimmed(e), ti, match page {
                        Some(p) => p,
                        None => WIKIPEDIA_ARTICLE@ + spec_article_segment(ti),
                    }))
                },
                _ => None,
            }
        },
        _ => None,
    }
}

/// What a summary body describes: `None` for a body that is not JSON, or
/// whose value `summary_of` refuses.
pub open spec fn spec_parse_summary(body: Seq<char>) -> Option<(Seq<char>, Seq<char>, Seq<char>)> {
    match json_parsed(body) {
        Some(j) => summary_of(j),
        None => None,
    }
}

pub open spec fn description_view(d: Description) -> (Seq<char>, Seq<char>, Seq<char>) {
    (d.text@, d.title@, d.url@)
}

fn str_member<'a>(obj: &'a Vec<(String, Json)>, key: &str) -> (r: Option<&'a String>)
    ensures
        r matches Some(s) ==> str_node(member(obj@, key@)) == Some(s@),
        r is None ==> str_node(member(obj@, key@)) is None,
{
    match member_of(obj, key) {
        Some(j) => match &j.node {
            JsonNode::Str(s) => Some(s),
            _ => None,
        },
        None => None,
    }
}

fn obj_member<'a>(obj: &'a Vec<(String, Json)>, key: &str) -> (r: Option<&'a Vec<(String, Json)>>)
    ensures
        r matches Some(o) ==> obj_node(member(obj@, key@)) == Some(o@),
        r is None ==> obj_node(member(obj@, key@)) is None,
{
    match member_of(obj, key) {
        Some(j) => match &j.node {
            JsonNode::Object(o) => Some(o),
            _ => None,
        },
        None => None,
    }
}

/// The description a parsed summary holds (see `summary_of`).
pub fn summary_from(j: &Json) -> (r: Option<Description>)
    ensures
        r matches Some(d) ==> summary_of(*j) == Some(description_view(d)),
        r is None ==> summary_of(*j) is None,
{
    let obj = match &j.node {
        JsonNode::Object(o) => o,
        _ => {
            return None;
        },
    };
    proof {
        reveal_strlit("type");
        reveal_strlit("standard");
        reveal_strlit("extract");
        reveal_strlit("titles");
        reveal_strlit("normalized");
        reveal_strlit("title");
        reveal_strlit("content_urls");
        reveal_strlit("desktop");
        reveal_strlit("page");
    }
    let standard = match str_member(obj, "type") {
        Some(k) => str_eq(k.as_str(), "standard"),
        None => true,
    };
    if !standard {
        return None;
    }
    let extract = match str_member(obj, "extract") {
        Some(e) => e,
        None => {
            return None;
        },
    };
    let ev = chars_of(extract.as_str());
    let tv = trim_chars(ev.as_slice());
    if tv.len() == 0 {
        return None;
    }
    let normalized = match obj_member(obj, "titles") {
        Some(t) => str_member(t, "normalized"),
        None => None,
    };
    let title = match normalized {
        Some(t) => t,
        None => match str_member(obj, "title") {
            Some(t) => t,
            None => {
                return None;
            },
        },
    };
    let page = match obj_member(obj, "content_urls") {
        Some(u) => match obj_member(u, "desktop") {
            Some(d) => str_member(d, "page"),
            None => None,
        },
        None => None,
    };
    let url = match page {
        Some(p) => p.clone(),
        None => {
            let mut r = String::from_str(WIKIPEDIA_ARTICLE);
            let seg = article_segment(title.as_str());
            push_str(&mut r, seg.as_str());
            r
        },
    };
    Some(Description { text: string_of(tv.as_slice()), title: title.clone(), url })
}

/// Read a summary response: `None` for everything that is not a plain
/// article with prose in it (a disambiguation page, a page with no extract,
/// a body that is not JSON).
pub fn parse_summary(body: &str) -> (r: Option<Description>)
    ensures
        r matches Some(d) ==> spec_parse_summary(body@) == Some(description_view(d)),
        r is None ==> spec_parse_summary(body@) is None,
{
    match parse_json(body) {
        Ok(j) => summary_from(&j),
        Err(_) => None,
    }
}

/// What `String::from_utf8_lossy` makes of a byte string.
pub uninterp spec fn lossy_text(bytes: Seq<u8>) -> Seq<char>;

/// Calls `String::from_utf8_lossy`: its result is named by `lossy_text`, and
/// on valid UTF-8 it is the decoding, with nothing replaced; the replacement
/// of invalid sequences is not stated.
#[verifier::external_body]
fn utf8_lossy(bytes: &[u8]) -> (r: String)
    ensures
        r@ == lossy_text(bytes@),
        valid_utf8(bytes@) ==> r@ == decode_utf8(bytes@),
{
    String::from_utf8_lossy(bytes).into_owned()
}

/// What one answer to a summary request does to the walk over candidate
/// titles.
#[derive(Debug, PartialEq, Eq)]
pub enum Walk {
    /// The article that answered.
    Found(Description),
    /// Try the next title: a 404, or a body that is no article.
    Next,
    /// The server is refusing requests: ask it nothing more.
    Stop,
}

/// The step an answer calls for.
pub open spec fn spec_walk(answer: Result<Seq<u8>, Error>) -> Option<Option<(Seq<char>, Seq<char>, Seq<char>)>> {
    match answer {
        Ok(b) => Some(spec_parse_summary(lossy_text(b))),
        Err(Error::NotFound) => Some(None),
        Err(Error::Failed(_)) => None,
    }
}

pub open spec fn answer_view(answer: Result<Vec<u8>, Error>) -> Result<Seq<u8>, Error> {
    match answer {
        Ok(b) => Ok(b@),
        Err(e) => Err(e),
    }
}

/// Read one answer: a body that parses as an article is found; a body that
/// does not, or a 404, moves on; any other failure stops the walk.
pub fn read_answer(answer: Result<Vec<u8>, Error>) -> (w: Walk)
    ensures
        w matches Walk::Found(d) ==> spec_walk(answer_view(answer)) == Some(Some(description_view(d))),
        w is Next ==> spec_walk(answer_view(answer)) == Some(None::<(Seq<char>, Seq<char>, Seq<char>)>),
        w is Stop ==> spec_walk(answer_view(answer)) is None,
{
    match answer {
        Ok(body) => {
            let text = utf8_lossy(body.as_slice());
            match parse_summary(text.as_str()) {
                Some(d) => Walk::Found(d),
                None => Walk::Next,
            }
        },
        Err(Error::NotFound) => Walk::Next,
        Err(Error::Failed(_)) => Walk::Stop,
    }
}

/// One request of the walk: the URL asked, and the answer as the walk read it.
pub type Asked = (Seq<char>, Result<Seq<u8>, Error>);

/// What a walk that asked `log` returns: the article of the last answer when
/// it described one, else nothing.
pub open spec fn walk_outcome(log: Seq<Asked>) -> Option<(Seq<char>, Seq<char>, Seq<char>)> {
    if log.len() == 0 {
        None
    } else {
        match spec_walk(log.last().1) {
            Some(Some(d)) => Some(d),
            _ => None,
        }
    }
}

/// `log` is a walk over `titles`: one request per title, in order, to that
/// title's summary URL; every answer but the last moved on; the walk stops
/// before the end of the titles only on an answer that did not move on.
pub open spec fn is_walk(titles: Seq<Seq<char>>, log: Seq<Asked>) -> bool {
    &&& log.len() <= titles.len()
    &&& forall|k: int| 0 <= k < log.len() ==> #[trigger] log[k].0 == spec_wiki_url(titles[k])
    &&& forall|k: int| 0 <= k < log.len() - 1 ==> spec_walk(#[trigger] log[k].1) == Some(None::<(Seq<char>, Seq<char>, Seq<char>)>)
    &&& log.len() < titles.len() ==> log.len() > 0 && spec_walk(log.last().1) != Some(None::<(Seq<char>, Seq<char>, Seq<char>)>)
}

pub open spec fn opt_description(r: Option<Description>) -> Option<(Seq<char>, Seq<char>, Seq<char>)> {
    match r {
        Some(d) => Some(description_view(d)),
        None => None,
    }
}

/// Walk `wiki_titles(canonical)` in order, asking `net` for each summary,
/// until one answers with an article; a 404 or a body that is no article
/// moves on to the next title, any other failure ends the walk with
/// nothing. Beside the article comes the log of what was asked and
/// answered; `Fetch` promises nothing of its answers, so the contract holds
/// for every answer `net` gives.
pub fn fetch_description<F: Fetch>(net: &F, canonical: &str) -> (r: (Option<Description>, Ghost<Seq<Asked>>))
    ensures
        is_walk(spec_wiki_titles(canonical@), r.1@),
        opt_description(r.0) == walk_outcome(r.1@),
{
    let titles = wiki_titles(canonical);
    let ghost t = spec_wiki_titles(canonical@);
    let ghost mut log: Seq<Asked> = Seq::empty();
    proof {
        assert(titles@.len() == t.len());
    }
    let mut i: usize = 0;
    while i < titles.len()
        invariant
            i <= titles@.len(),
            t == spec_wiki_titles(canonical@),
            titles@.map_values(|s: String| s@) == t,
            titles@.len() == t.len(),
            log.len() == i,
            forall|k: int| 0 <= k < log.len() ==> #[trigger] log[k].0 == spec_wiki_url(t[k]),
            forall|k: int| 0 <= k < log.len() ==> spec_walk(#[trigger] log[k].1) == Some(None::<(Seq<char>, Seq<char>, Seq<char>)>),
        decreases titles@.len() - i,
    {
        let url = wiki_url(titles[i].as_str());
        proof {
            assert(titles@[i as int]@ == t[i as int]);
        }
        let answer = net.get(url.as_str());
        let ghost seen = answer_view(answer);
        proof {
            let prev = log;
            log = log.push((url@, seen));
            assert forall|k: int| 0 <= k < log.len() implies #[trigger] log[k].0 == spec_wiki_url(t[k]) by {
                if k < prev.len() {
                    assert(log[k] == prev[k]);
                }
            }
            assert forall|k: int| 0 <= k < log.len() - 1 implies spec_walk(#[trigger] log[k].1) == Some(None::<(Seq<char>, Seq<char>, Seq<char>)>) by {
                assert(log[k] == prev[k]);
            }
        }
        match read_answer(answer) {
            Walk::Found(d) => {
                proof {
                    assert(log.last().1 == seen);
                    assert(spec_walk(seen) == Some(Some(description_view(d))));
                }
                return (Some(d), Ghost(log));
            },
            Walk::Next => {},
            Walk::Stop => {
                proof {
                    assert(log.last().1 == seen);
                }
                return (None, Ghost(log));
            },
        }
        i = i + 1;
    }
    (None, Ghost(log))
}

/// A character the box-art repository replaces in file names.
pub open spec fn boxart_replaced(c: char) -> bool {
    c == '&' || c == '*' || c == '/' || c == ':' || c == '`' || c == '<' || c == '>' || c == '?'
        || c == '\\' || c == '|' || c == '"'
}

pub open spec fn spec_boxart_name(canonical: Seq<char>) -> Seq<char> {
    canonical.map_values(|c: char| if boxart_replaced(c) { '_' } else { c })
}

/// File name a box art carries in the thumbnail repository: the canonical
/// name with `&*/:`<>?\|"` replaced by `_`.
pub fn boxart_name(canonical: &str) -> (r: String)
    ensures
        r@ == spec_boxart_name(canonical@),
{
    let v = chars_of(canonical);
    let mut u: Vec<char> = Vec::new();
    let mut i: usize = 0;
    while i < v.len()
        invariant
            v@ == canonical@,
            i <= v@.len(),
            u@ == spec_boxart_name(v@.take(i as int)),
        decreases v@.len() - i,
    {
        let c = v[i];
        let r = if c == '&' || c == '*' || c == '/' || c == ':' || c == '`' || c == '<' || c == '>' || c == '?'
            || c == '\\' || c == '|' || c == '"' {
            '_'
        } else {
            c
        };
        u.push(r);
        i = i + 1;
        assert(u@ =~= spec_boxart_name(v@.take(i as int)));
    }
    assert(v@.take(v@.len() as int) =~= v@);
    string_of(u.as_slice())
}

/// URL of a game's box art in the thumbnail repository.
pub fn boxart_url(canonical: &str) -> (r: String)
    ensures
        r@ == LIBRETRO_THUMBNAILS@ + "/"@ + percent_encoded(encode_utf8(spec_boxart_name(canonical@) + ".png"@)),
{
    let mut name = boxart_name(canonical);
    push_str(&mut name, ".png");
    let mut r = String::from_str(LIBRETRO_THUMBNAILS);
    push_str(&mut r, "/");
    let e = encode_segment(name.as_str());
    push_str(&mut r, e.as_str());
    r
}

/// Everything fetched so far, keyed by game id: no id has two entries
/// (`Store::wf`).
#[derive(Debug, Clone, PartialEq, Eq)]
pub struct Store {
    pub version: u32,
    pub games: Vec<(String, GameMeta)>,
}

impl Default for Store {
    fn default() -> (r: Store)
        ensures
            r.version == CACHE_VERSION,
            r.games@.len() == 0,
            r.wf(),
    {
        Store { version: CACHE_VERSION, games: Vec::new() }
    }
}

/// No id has two entries.
pub open spec fn ids_unique(games: Seq<(String, GameMeta)>) -> bool {
    forall|i: int, j: int| 0 <= i < j < games.len() ==> (#[trigger] games[i]).0@ != (#[trigger] games[j]).0@
}

/// The entry of `id` among `entries` read in order, a later one replacing an
/// earlier one.
pub open spec fn meta_last(entries: Seq<(String, GameMeta)>, id: Seq<char>) -> Option<GameMeta>
    decreases entries.len(),
{
    if entries.len() == 0 {
        None
    } else if entries.last().0@ == id {
        Some(entries.last().1)
    } else {
        meta_last(entries.drop_last(), id)
    }
}

proof fn lemma_meta_at(g: Seq<(String, GameMeta)>, id: Seq<char>, i: int)
    requires
        0 <= i < g.len(),
        g[i].0@ == id,
        forall|k: int| 0 <= k < i ==> (#[trigger] g[k]).0@ != id,
    ensures
        meta_of(g, id) == Some(g[i].1),
    decreases i,
{
    if i > 0 {
        let t = g.drop_first();
        assert forall|k: int| 0 <= k < i - 1 implies (#[trigger] t[k]).0@ != id by {
            assert(t[k] == g[k + 1]);
        }
        lemma_meta_at(t, id, i - 1);
    }
}

proof fn lemma_meta_absent(g: Seq<(String, GameMeta)>, id: Seq<char>)
    requires
        forall|k: int| 0 <= k < g.len() ==> (#[trigger] g[k]).0@ != id,
    ensures
        meta_of(g, id) is None,
    decreases g.len(),
{
    if g.len() > 0 {
        let t = g.drop_first();
        assert forall|k: int| 0 <= k < t.len() implies (#[trigger] t[k]).0@ != id by {
            assert(t[k] == g[k + 1]);
        }
        lemma_meta_absent(t, id);
    }
}

/// Two lists with the same ids in the same places, and the same entries
/// but for `id`, agree on every other id.
proof fn lemma_meta_same(g: Seq<(String, GameMeta)>, h: Seq<(String, GameMeta)>, id: Seq<char>, k: Seq<char>)
    requires
        g.len() == h.len(),
        forall|m: int| 0 <= m < g.len() ==> (#[trigger] g[m]).0@ == h[m].0@,
        forall|m: int| 0 <= m < g.len() && (#[trigger] g[m]).0@ != id ==> g[m].1 == h[m].1,
        k != id,
    ensures
        meta_of(g, k) == meta_of(h, k),
    decreases g.len(),
{
    if g.len() > 0 {
        assert(g[0].0@ == h[0].0@);
        if g[0].0@ != k {
            let (a, b) = (g.drop_first(), h.drop_first());
            assert forall|m: int| 0 <= m < a.len() implies (#[trigger] a[m]).0@ == b[m].0@ by {
                assert(a[m] == g[m + 1] && b[m] == h[m + 1]);
            }
            assert forall|m: int| 0 <= m < a.len() && (#[trigger] a[m]).0@ != id implies a[m].1 == b[m].1 by {
                assert(a[m] == g[m + 1] && b[m] == h[m + 1]);
            }
            lemma_meta_same(a, b, id, k);
        }
    }
}

/// Appending an entry of another id leaves an id's entry as it was.
proof fn lemma_meta_push(g: Seq<(String, GameMeta)>, x: (String, GameMeta), k: Seq<char>)
    requires
        x.0@ != k,
    ensures
        meta_of(g.push(x), k) == meta_of(g, k),
    decreases g.len(),
{
    if g.len() > 0 {
        assert(g.push(x).drop_first() =~= g.drop_first().push(x));
        lemma_meta_push(g.drop_first(), x, k);
    } else {
        assert(g.push(x).drop_first() =~= g);
    }
}

/// The entry recorded for `id`.
pub open spec fn meta_of(games: Seq<(String, GameMeta)>, id: Seq<char>) -> Option<GameMeta>
    decreases games.len(),
{
    if games.len() == 0 {
        None
    } else if games[0].0@ == id {
        Some(games[0].1)
    } else {
        meta_of(games.drop_first(), id)
    }
}

impl Store {
    /// No id has two entries.
    pub open spec fn wf(&self) -> bool {
        ids_unique(self.games@)
    }

    /// Record `meta` as the entry of `id`, replacing the one it had, and
    /// give back the replaced one.
    pub fn insert(&mut self, id: String, meta: GameMeta) -> (r: Option<GameMeta>)
        requires
            old(self).wf(),
        ensures
            final(self).wf(),
            final(self).version == old(self).version,
            r == meta_of(old(self).games@, id@),
            meta_of(final(self).games@, id@) == Some(meta),
            forall|k: Seq<char>| k != id@ ==> meta_of(#[trigger] final(self).games@, k) == meta_of(old(self).games@, k),
    {
        let ghost g = self.games@;
        let ghost version = self.version;
        let mut i: usize = 0;
        while i < self.games.len()
            invariant
                self.games@ == g,
                g == old(self).games@,
                self.version == version,
                version == old(self).version,
                ids_unique(g),
                i <= g.len(),
                forall|k: int| 0 <= k < i ==> (#[trigger] g[k]).0@ != id@,
            decreases g.len() - i,
        {
            if str_eq(self.games[i].0.as_str(), id.as_str()) {
                proof {
                    lemma_meta_at(g, id@, i as int);
                }
                let ghost entry = (id, meta);
                let old_entry = self.games.remove(i);
                self.games.insert(i, (id, meta));
                proof {
                    let h = self.games@;
                    assert(h =~= g.update(i as int, entry));
                    assert forall|a: int, b: int| 0 <= a < b < h.len() implies (#[trigger] h[a]).0@ != (#[trigger] h[b]).0@ by {
                        assert(g[a].0@ != g[b].0@);
                    }
                    assert forall|k: int| 0 <= k < i implies (#[trigger] h[k]).0@ != id@ by {
                        assert(h[k] == g[k]);
                    }
                    lemma_meta_at(h, id@, i as int);
                    assert forall|k: Seq<char>| k != id@ implies meta_of(#[trigger] self.games@, k) == meta_of(g, k) by {
                        lemma_meta_same(g, h, id@, k);
                    }
                }
                return Some(old_entry.1);
            }
            i = i + 1;
        }
        proof {
            lemma_meta_absent(g, id@);
        }
        let ghost entry = (id, meta);
        self.games.push((id, meta));
        proof {
            let h = self.games@;
            assert(h == g.push(entry));
            assert forall|k: int| 0 <= k < g.len() implies (#[trigger] h[k]).0@ != id@ by {
                assert(h[k] == g[k]);
            }
            lemma_meta_at(h, id@, g.len() as int);
            assert forall|a: int, b: int| 0 <= a < b < h.len() implies (#[trigger] h[a]).0@ != (#[trigger] h[b]).0@ by {
                if b < g.len() {
                    assert(h[a] == g[a] && h[b] == g[b]);
                } else {
                    assert(h[a] == g[a]);
                }
            }
            assert forall|k: Seq<char>| k != id@ implies meta_of(#[trigger] self.games@, k) == meta_of(g, k) by {
                lemma_meta_push(g, entry, k);
            }
        }
        None
    }

    /// A store of `version` holding `entries` read in order, a later entry
    /// of an id replacing an earlier one.
    pub fn from_entries(version: u32, entries: Vec<(String, GameMeta)>) -> (r: Store)
        ensures
            r.wf(),
            r.version == version,
            forall|k: Seq<char>| meta_of(#[trigger] r.games@, k) == meta_last(entries@, k),
    {
        let ghost all = entries@;
        let total = entries.len();
        let mut rest = entries;
        let mut r = Store { version, games: Vec::new() };
        let mut n: usize = 0;
        while rest.len() > 0
            invariant
                r.wf(),
                r.version == version,
                n + rest@.len() == all.len(),
                all.len() == total,
                rest@ == all.skip(n as int),
                forall|k: Seq<char>| meta_of(#[trigger] r.games@, k) == meta_last(all.take(n as int), k),
            decreases rest@.len(),
        {
            let ghost before = r.games@;
            let e = rest.remove(0);
            proof {
                assert(e == all[n as int]);
                assert(rest@ =~= all.skip(n + 1));
            }
            r.insert(e.0, e.1);
            proof {
                let t = all.take(n + 1);
                assert(t.drop_last() =~= all.take(n as int));
                assert(t.last() == e);
                assert forall|k: Seq<char>| meta_of(#[trigger] r.games@, k) == meta_last(all.take(n + 1), k) by {
                    if k != e.0@ {
                        assert(meta_of(r.games@, k) == meta_of(before, k));
                    }
                }
            }
            n = n + 1;
        }
        proof {
            assert(all.take(n as int) =~= all);
        }
        r
    }

    /// The entry for `id`, if it was filled in for the image whose CRC is
    /// `crc`; a different CRC means the file was replaced by another dump.
    pub fn get(&self, id: &str, crc: u32) -> (r: Option<&GameMeta>)
        ensures
            r matches Some(m) ==> meta_of(self.games@, id@) == Some(*m) && m.crc32 == crc,
            r is None ==> !(meta_of(self.games@, id@) matches Some(m) && m.crc32 == crc),
    {
        let mut i: usize = 0;
        assert(self.games@.skip(0) =~= self.games@);
        while i < self.games.len()
            invariant
                i <= self.games@.len(),
                meta_of(self.games@, id@) == meta_of(self.games@.skip(i as int), id@),
            decreases self.games@.len() - i,
        {
            proof {
                let t = self.games@.skip(i as int);
                assert(t.drop_first() =~= self.games@.skip(i + 1));
                assert(t[0] == self.games@[i as int]);
            }
            if str_eq(self.games[i].0.as_str(), id) {
                let m = &self.games[i].1;
                return if m.crc32 == crc { Some(m) } else { None };
            }
            i = i + 1;
        }
        None
    }
}

/// Complete a catalogue entry with its description: a game the catalogue
/// matched gets the article of one walk over its titles (see
/// `fetch_description`), beside the log of that walk; for an unmatched game
/// the network is not asked and the entry is left as it is.
pub fn describe<F: Fetch>(net: &F, meta: GameMeta) -> (r: (GameMeta, Ghost<Seq<Asked>>))
    ensures
        r.0 == (GameMeta { description: r.0.description, ..meta }),
        meta.name@.len() == 0 ==> r.0.description == meta.description && r.1@.len() == 0,
        meta.name@.len() > 0 ==> is_walk(spec_wiki_titles(meta.name@), r.1@) && opt_description(r.0.description)
            == walk_outcome(r.1@),
{
    if meta.matched() {
        let (d, log) = fetch_description(net, meta.name.as_str());
        (GameMeta { description: d, ..meta }, log)
    } else {
        (meta, Ghost(Seq::empty()))
    }
}

/// What to do for a matched game's box art.
#[derive(Debug, PartialEq, Eq)]
pub enum BoxartStep {
    /// There is no place to keep it: nothing is fetched.
    Skip,
    /// The file is already there: it is kept, and the network is not asked.
    Keep(String),
    /// Download `url` and write it at `path`.
    Fetch { path: String, url: String },
}

/// The box-art decision for the game named `canonical`, whose picture goes
/// at `path` (when there is a place for it) and is already there or not.
pub fn boxart_step(path: Option<String>, on_disk: bool, canonical: &str) -> (r: BoxartStep)
    ensures
        path is None ==> r is Skip,
        path matches Some(p) ==> (if on_disk {
            r matches BoxartStep::Keep(k) && k@ == p@
        } else {
            r matches BoxartStep::Fetch { path: q, url } && q@ == p@ && url@ == LIBRETRO_THUMBNAILS@ + "/"@
                + percent_encoded(encode_utf8(spec_boxart_name(canonical@) + ".png"@))
        }),
{
    match path {
        None => BoxartStep::Skip,
        Some(p) => if on_disk {
            BoxartStep::Keep(p)
        } else {
            BoxartStep::Fetch { path: p, url: boxart_url(canonical) }
        },
    }
}

/// Identify a game and read its facts out of the catalogue: the canonical
/// name of its CRC and each category's value for it. A CRC in no catalogue
/// gives an unmatched entry with no facts. Description and box art are the
/// network's part and are left absent here.
pub fn fill_from_catalog(catalog: &Catalog, crc: u32, fetched: i64) -> (r: GameMeta)
    ensures
        r.crc32 == crc,
        r.fetched == fetched,
        r.description is None,
        r.boxart is None,
        catalog.names@.contains_key(crc) ==> r.name@ == catalog.names@[crc]@,
        !catalog.names@.contains_key(crc) ==> r.name@.len() == 0 && r.genre is None && r.developer is None
            && r.publisher is None && r.players is None && r.year is None && r.month is None
            && r.franchise is None && r.esrb is None,
        catalog.names@.contains_key(crc) ==> {
            &&& opt_text(r.genre) == fact_text(catalog, Category::Genre, crc)
            &&& opt_text(r.developer) == fact_text(catalog, Category::Developer, crc)
            &&& opt_text(r.publisher) == fact_text(catalog, Category::Publisher, crc)
            &&& opt_text(r.players) == fact_text(catalog, Category::MaxUsers, crc)
            &&& opt_text(r.year) == fact_text(catalog, Category::ReleaseYear, crc)
            &&& opt_text(r.month) == fact_text(catalog, Category::ReleaseMonth, crc)
            &&& opt_text(r.franchise) == fact_text(catalog, Category::Franchise, crc)
            &&& opt_text(r.esrb) == fact_text(catalog, Category::Esrb, crc)
        },
{
    let mut meta = GameMeta::default();
    meta.crc32 = crc;
    meta.fetched = fetched;
    let name = match catalog.name_of(crc) {
        Some(n) => n.clone(),
        None => {
            return meta;
        },
    };
    meta.genre = fact_string(catalog, Category::Genre, crc);
    meta.developer = fact_string(catalog, Category::Developer, crc);
    meta.publisher = fact_string(catalog, Category::Publisher, crc);
    meta.players = fact_string(catalog, Category::MaxUsers, crc);
    meta.year = fact_string(catalog, Category::ReleaseYear, crc);
    meta.month = fact_string(catalog, Category::ReleaseMonth, crc);
    meta.franchise = fact_string(catalog, Category::Franchise, crc);
    meta.esrb = fact_string(catalog, Category::Esrb, crc);
    meta.name = name;
    meta
}

/// The value of a category for a CRC, as text.
pub open spec fn fact_text(catalog: &Catalog, c: Category, crc: u32) -> Option<Seq<char>> {
    match facts_of(catalog.facts@, c) {
        Some(m) => if m@.contains_key(crc) { Some(m@[crc]@) } else { None },
        None => None,
    }
}

fn fact_string(catalog: &Catalog, c: Category, crc: u32) -> (r: Option<String>)
    ensures
        opt_text(r) == fact_text(catalog, c, crc),
{
    match catalog.fact(c, crc) {
        Some(v) => Some(v.clone()),
        None => None,
    }
}

} // verus!
