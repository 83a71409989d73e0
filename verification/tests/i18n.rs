use prisme::i18n::{cannot_load, escape_hint, not_a_rom, press_a_key_for, Lang, Msg};

#[test]
fn every_message_exists_in_both_languages() {
    for msg in Msg::all() {
        for lang in [Lang::Fr, Lang::En] {
            let text = msg.text(lang);
            assert!(!text.trim().is_empty(), "{msg:?} is empty in {lang:?}");
        }
    }
}

#[test]
fn no_two_messages_share_a_french_string() {
    let mut seen: Vec<(&str, Msg)> = Vec::new();
    for msg in Msg::all() {
        let text = msg.text(Lang::Fr);
        if let Some((_, first)) = seen.iter().find(|(t, _)| *t == text) {
            panic!("{msg:?} and {first:?} both render {text:?}");
        }
        seen.push((text, msg));
    }
}

#[test]
fn a_language_tag_resolves_to_the_language_it_names() {
    for tag in ["fr", "fr-FR", "fr_CA", "FR", "fr-CA.UTF-8"] {
        assert_eq!(Lang::from_tag(tag), Lang::Fr, "{tag}");
    }
    for tag in ["en", "en-GB", "de-DE", "ja", "", "zz", "C"] {
        assert_eq!(Lang::from_tag(tag), Lang::En, "{tag}");
    }
}

#[test]
fn a_stored_language_round_trips_and_an_unknown_one_defers_to_the_system() {
    for lang in [Lang::Fr, Lang::En] {
        assert_eq!(Lang::from_pref(lang.as_pref()), Some(lang));
    }
    assert_eq!(Lang::from_pref("system"), None);
    assert_eq!(Lang::from_pref("klingon"), None);
    assert_eq!(Lang::from_pref(""), None);
}

#[test]
fn each_language_names_itself_in_its_own_words() {
    assert_eq!(Lang::Fr.endonym(), "Français");
    assert_eq!(Lang::En.endonym(), "English");
}

#[test]
fn a_sentence_with_a_hole_keeps_each_language_word_order() {
    assert_eq!(
        press_a_key_for(Lang::Fr, "A"),
        "Appuyez sur une touche pour A — Échap pour annuler."
    );
    assert_eq!(press_a_key_for(Lang::En, "A"), "Press a key for A — Esc to cancel.");
    assert!(not_a_rom(Lang::En, "notes.txt").starts_with("notes.txt is not"));
    assert!(not_a_rom(Lang::Fr, "notes.txt").starts_with("notes.txt n'est pas"));
}

#[test]
fn a_tag_is_read_up_to_its_first_separator_and_trimmed() {
    assert_eq!(Lang::from_tag(" fr .UTF-8"), Lang::Fr);
    assert_eq!(Lang::from_tag("fra"), Lang::En);
    assert_eq!(Lang::from_tag("f-r"), Lang::En);
    assert_eq!(Lang::default(), Lang::Fr);
}

#[test]
fn the_fixed_sentences_read_as_written() {
    assert_eq!(cannot_load(Lang::En, "a.sfc", "truncated"), "Could not load a.sfc: truncated");
    assert_eq!(cannot_load(Lang::Fr, "a.sfc", "tronqué"), "Impossible de charger a.sfc : tronqué");
    assert_eq!(escape_hint(Lang::En, false), "O: open a ROM · ,: settings");
    assert_eq!(Msg::Back.text(Lang::En), "Back");
    assert_eq!(Msg::TabFavorites.text(Lang::Fr), "Favoris");
    assert_eq!(Msg::all().len(), 66);
}
