use prisme::stamp::{civil_from_unix, sanitize_file_stem, CalendarTime};

#[test]
fn civil_from_unix_matches_known_utc_instants() {
    let t = civil_from_unix(0);
    assert_eq!((t.year, t.month, t.day, t.hour, t.minute, t.second), (1970, 1, 1, 0, 0, 0));
    let t = civil_from_unix(1_000_000_000);
    assert_eq!((t.year, t.month, t.day, t.hour, t.minute, t.second), (2001, 9, 9, 1, 46, 40));
    let t = civil_from_unix(1_700_000_000);
    assert_eq!(
        (t.year, t.month, t.day, t.hour, t.minute, t.second),
        (2023, 11, 14, 22, 13, 20)
    );
    let t = civil_from_unix(951_782_400);
    assert_eq!((t.year, t.month, t.day), (2000, 2, 29));
    let t = civil_from_unix(-1);
    assert_eq!((t.year, t.month, t.day, t.hour, t.minute, t.second), (1969, 12, 31, 23, 59, 59));
}

#[test]
fn calendar_time_formats_stamp_and_id666_date() {
    let t = CalendarTime { year: 2026, month: 7, day: 4, hour: 9, minute: 5, second: 3 };
    assert_eq!(t.file_stamp(), "20260704-090503");
    assert_eq!(t.id666_date(), "07/04/2026");
    assert_eq!(t.id666_date().len(), 10);
}

#[test]
fn sanitize_file_stem_produces_portable_names() {
    assert_eq!(sanitize_file_stem("SUPER MARIOWORLD"), "SUPER_MARIOWORLD");
    assert_eq!(sanitize_file_stem("  SECRET OF MANA   "), "SECRET_OF_MANA");
    assert_eq!(sanitize_file_stem("A/B:C*D?E\"F<G>H|I"), "A_B_C_D_E_F_G_H_I");
    assert_eq!(sanitize_file_stem("bad\u{7}ctrl"), "bad_ctrl");
    assert_eq!(sanitize_file_stem("trailing..."), "trailing");
    assert_eq!(sanitize_file_stem("   "), "SNES");
    assert_eq!(sanitize_file_stem(""), "SNES");
    assert!(sanitize_file_stem(&"X".repeat(200)).len() <= 64);
}

#[test]
fn capture_file_names_are_title_then_timestamp() {
    let t = CalendarTime { year: 2026, month: 7, day: 24, hour: 21, minute: 30, second: 45 };
    let stem = format!("{}_{}", sanitize_file_stem("Secret of MANA "), t.file_stamp());
    assert_eq!(stem, "Secret_of_MANA_20260724-213045");
    let stem = format!("{}_{}", sanitize_file_stem("MARIO_ALLSTARS+WORLD"), t.file_stamp());
    assert_eq!(stem, "MARIO_ALLSTARS+WORLD_20260724-213045");
}

#[test]
fn extreme_timestamps_and_years_are_written_sign_aware() {
    let t = civil_from_unix(-86_400 * 365 * 2000);
    assert!(t.year < 0);
    let t = CalendarTime { year: -5, month: 1, day: 2, hour: 3, minute: 4, second: 5 };
    assert_eq!(t.file_stamp(), "-0050102-030405");
    assert_eq!(t.id666_date(), "01/02/-005");
    let t = CalendarTime { year: 12345, month: 12, day: 31, hour: 23, minute: 59, second: 59 };
    assert_eq!(t.file_stamp(), "123451231-235959");
    // The walk is over the first 64 characters: a space at the cut leaves nothing pending.
    let title = format!("{} Z", "Y".repeat(63));
    assert_eq!(sanitize_file_stem(&title), "Y".repeat(63));
}
