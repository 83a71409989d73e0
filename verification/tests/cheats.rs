use prisme::cheats::{keep_first, Cheat, Cheats, Kind, MAX_BYTES};
use prisme::paths::GamePaths;

fn lives() -> Cheat {
    Cheat::new("Vies infinies".into(), "7E:0DBE", "63", Kind::Freeze, true).expect("cheat")
}

#[test]
fn an_address_is_written_the_way_the_rest_of_the_cli_writes_it() {
    for (given, expect) in [
        ("7E:0DBE", 0x7E_0DBE),
        ("7e:0dbe", 0x7E_0DBE),
        ("7E0DBE", 0x7E_0DBE),
        ("$7E:0DBE", 0x7E_0DBE),
        ("0x7E0DBE", 0x7E_0DBE),
        (" 7E:0DBE ", 0x7E_0DBE),
    ] {
        let c = Cheat::new("n".into(), given, "01", Kind::Freeze, true).expect(given);
        assert_eq!(c.addr, expect, "{given}");
        assert_eq!(c.addr_text(), "7E:0DBE");
    }
}

#[test]
fn every_unusable_cheat_is_refused_with_a_reason() {
    for (addr, hex, why) in [
        ("", "01", "empty address"),
        ("nonsense", "01", "not an address"),
        ("7E:ZZZZ", "01", "bad hex in the address"),
        ("7E00190", "01", "too many digits"),
        ("7E:0000", "", "no payload"),
        ("7E:0000", "0", "odd number of digits"),
        ("7E:0000", "GG", "not hex"),
        ("00:2100", "01", "MMIO"),
        ("80:4210", "01", "MMIO through the mirror"),
        ("00:1FFF", "0102", "a span that runs into MMIO"),
    ] {
        let e = Cheat::new("n".into(), addr, hex, Kind::Freeze, true).unwrap_err();
        assert!(!e.is_empty(), "{why}: {addr} {hex}");
    }
    let long = "00".repeat(MAX_BYTES + 1);
    assert!(Cheat::new("n".into(), "7E:0000", &long, Kind::Freeze, true).is_err());
    assert!(Cheat::new("  ".into(), "7E:0000", "01", Kind::Freeze, true).is_err());
    for addr in ["7E:0000", "7F:FFFF", "00:1FFE", "70:0000", "C0:0000"] {
        assert!(Cheat::new("n".into(), addr, "01", Kind::Once, true).is_ok(), "{addr}");
    }
}

#[test]
fn a_kind_reads_and_writes_the_same_two_words() {
    assert_eq!(Kind::parse("freeze").unwrap(), Kind::Freeze);
    assert_eq!(Kind::parse(" once ").unwrap(), Kind::Once);
    assert_eq!(Kind::Freeze.as_str(), "freeze");
    assert_eq!(Kind::Once.as_str(), "once");
    for bad in ["", "frozen", "FREEZE", "always"] {
        assert!(Kind::parse(bad).is_err(), "{bad}");
    }
}

#[test]
fn a_name_is_the_identity_of_a_cheat() {
    let mut cheats = Cheats::default();
    assert!(!cheats.add(lives()));
    assert_eq!(cheats.list().len(), 1);
    let moved = Cheat::new("Vies infinies".into(), "7E:0DB4", "05", Kind::Once, true).unwrap();
    assert!(cheats.add(moved));
    assert_eq!(cheats.list().len(), 1);
    assert_eq!(cheats.list()[0].addr_text(), "7E:0DB4");

    assert!(cheats.set_enabled("Vies infinies", false).is_some());
    assert!(!cheats.list()[0].enabled);
    assert!(cheats.set_enabled("inconnue", true).is_none());
    assert!(cheats.remove("Vies infinies"));
    assert!(!cheats.remove("Vies infinies"));
    assert!(cheats.is_empty());
}

#[test]
fn a_frozen_cheat_writes_after_every_pass() {
    let mut cheats = Cheats::default();
    cheats.add(lives());
    for _ in 0..3 {
        assert_eq!(cheats.apply(), vec![(0x7E_0DBE, 0x63)]);
    }
}

#[test]
fn a_once_cheat_fires_once_until_rearmed_and_a_disabled_one_never() {
    let mut cheats = Cheats::default();
    cheats.add(Cheat::new("Pièces".into(), "7E:0DBF", "63", Kind::Once, true).unwrap());
    cheats.add(Cheat::new("Éteinte".into(), "7E:0DC0", "63", Kind::Freeze, false).unwrap());
    assert_eq!(cheats.apply(), vec![(0x7E_0DBF, 0x63)]);
    assert_eq!(cheats.apply(), vec![]);
    cheats.rearm();
    assert_eq!(cheats.apply(), vec![(0x7E_0DBF, 0x63)]);
    // Any change of the list rearms too.
    cheats.set_enabled("Éteinte", true);
    assert_eq!(cheats.apply(), vec![(0x7E_0DBF, 0x63), (0x7E_0DC0, 0x63)]);
}

#[test]
fn a_multi_byte_cheat_names_consecutive_addresses() {
    let mut cheats = Cheats::default();
    cheats.add(Cheat::new("Or".into(), "7E:1F00", "E80300", Kind::Once, true).unwrap());
    assert_eq!(cheats.apply(), vec![(0x7E_1F00, 0xE8), (0x7E_1F01, 0x03), (0x7E_1F02, 0x00)]);
    let mut top = Cheats::default();
    top.add(Cheat::new("bord".into(), "FF:FFFF", "0102", Kind::Freeze, true).unwrap());
    assert_eq!(top.apply(), vec![(0xFF_FFFF, 0x01), (0x00_0000, 0x02)]);
}

#[test]
fn the_first_of_two_homonyms_is_kept() {
    let a = Cheat::new("doublon".into(), "7E:0001", "01", Kind::Once, false).unwrap();
    let b = Cheat::new("bonne".into(), "7E:0DBE", "63", Kind::Freeze, true).unwrap();
    let c = Cheat::new("doublon".into(), "7E:0002", "02", Kind::Once, true).unwrap();
    let kept = keep_first(vec![b.clone(), a.clone(), c]);
    assert_eq!(kept, vec![b, a]);
    assert_eq!(kept[1].addr_text(), "7E:0001");
    assert!(!kept[1].enabled);
}

#[test]
fn names_and_payloads_read_back_as_given() {
    let mut cheats = Cheats::default();
    cheats.add(lives());
    cheats.add(Cheat::new("  Énergie au max ".into(), "7E:0DB4", "0a0A", Kind::Once, false).unwrap());
    assert_eq!(cheats.names(), vec!["Vies infinies".to_string(), "Énergie au max".to_string()]);
    assert_eq!(cheats.list()[1].hex(), "0A0A");
    assert_eq!(cheats.list()[0].hex(), "63");
}

#[test]
fn the_sidecar_sits_where_every_other_sidecar_of_the_game_sits() {
    let beside = GamePaths::new("/roms/game.sfc", "GAME-0001", None, None);
    assert_eq!(beside.cheats_write(), "/roms/game.cheats.json");
    let folder = GamePaths::new("/roms/game.sfc", "GAME-0001", Some("/saves".to_string()), None);
    assert_eq!(folder.cheats_write(), "/saves/GAME-0001.cheats.json");
    let overridden = GamePaths::new(
        "/roms/game.sfc",
        "GAME-0001",
        None,
        Some("/elsewhere/custom.srm".to_string()),
    );
    assert_eq!(overridden.cheats_write(), "/roms/game.cheats.json");
}
