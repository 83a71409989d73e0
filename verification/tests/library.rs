use prisme::i18n::Lang;
use prisme::library::{
    arrange, format_date, format_play_time, format_size, format_sram, game_id, is_rom_file, library_dir,
    missing_entry, normalize, now_unix, resolve_picture, scan, screenshot_dir, screenshots, secs_from_offset, unix_secs, Cache, GameEntry, GameStats, Job, JobQueue,
    PlayClock, Probe, SortMode, StateFile,
};
use prisme::stamp::{civil_from_unix, CalendarTime};
use std::time::{Duration, UNIX_EPOCH};

fn entry(id: &str, title: &str) -> GameEntry {
    GameEntry {
        id: id.to_string(),
        path: format!("/roms/{title}.sfc"),
        file_size: 1024,
        modified: 42,
        title: title.to_string(),
        mapping: "LoROM".to_string(),
        region: "PAL".to_string(),
        rom_bytes: 1024,
        sram_bytes: 0,
        coprocessor: None,
        fastrom: false,
        checksum: 0x1234,
        checksum_valid: true,
        missing: false,
    }
}

fn ids(order: &[&GameEntry]) -> Vec<String> {
    order.iter().map(|e| e.id.clone()).collect()
}

#[test]
fn game_id_combines_the_sanitized_title_and_the_checksum() {
    let rom = [0u8; 1024];
    assert_eq!(game_id("SUPER MARIOWORLD", 0xA0DA, &rom), "SUPER_MARIOWORLD-A0DA");
    assert_ne!(game_id("SECRET OF MANA", 0x0001, &rom), game_id("SECRET OF MANA", 0x0002, &rom));
    assert!(!game_id("GAME", 0xBEEF, &rom).contains('/'));
    assert_eq!(game_id("GAME", 0xBEEF, &rom), game_id("GAME", 0xBEEF, &[0xFFu8; 4096]));
}

#[test]
fn headerless_dumps_do_not_collide_on_one_identity() {
    let a = game_id("   ", 0x0000, &[1u8; 1024]);
    let b = game_id("   ", 0x0000, &[2u8; 1024]);
    assert!(a.starts_with("SNES-0000-"), "{a}");
    assert_ne!(a, b);
    assert_eq!(a, game_id("", 0x0000, &[1u8; 1024]));
    assert_ne!(game_id("", 0x0000, &[1u8; 512]), game_id("", 0x0000, &[1u8; 1024]));
    assert!(game_id("", 0x1234, &[3u8; 64]).starts_with("SNES-1234-"));
    assert!(game_id("GAME", 0x0000, &[3u8; 64]).starts_with("GAME-0000-"));
}

#[test]
fn the_fingerprint_is_fnv1a_over_the_length_then_the_head() {
    // FNV-1a of the eight bytes of 0 then nothing: computed by hand.
    let mut h: u32 = 0x811C_9DC5;
    for b in 0u64.to_le_bytes() {
        h ^= b as u32;
        h = h.wrapping_mul(0x0100_0193);
    }
    assert_eq!(game_id("", 0, &[]), format!("SNES-0000-{h:08X}"));
}

#[test]
fn rom_files_are_recognized_case_insensitively() {
    for name in ["a.sfc", "a.SMC", "a.Zip", "a.sMc"] {
        assert!(is_rom_file(name), "{name}");
    }
    for name in ["a.png", "a.srm", "a.state", "a", "a.zipx"] {
        assert!(!is_rom_file(name), "{name}");
    }
}

#[test]
fn cache_entries_are_invalidated_by_size_or_mtime() {
    let mut cache = Cache::default();
    cache.entries.push(entry("A-0001", "A"));
    let path = "/roms/A.sfc";
    assert!(cache.valid_entry(path, 1024, 42).is_some());
    assert!(cache.valid_entry(path, 2048, 42).is_none(), "a resized file must re-parse");
    assert!(cache.valid_entry(path, 1024, 43).is_none(), "a touched file must re-parse");
    assert!(cache.valid_entry("/roms/B.sfc", 1024, 42).is_none());
}

#[test]
fn search_ignores_case_accents_and_punctuation() {
    let hit = |e: &GameEntry, q: &str| prisme::library::matches(e, &normalize(q));
    let e = entry("SOM-0001", "SECRET OF MANA");
    assert!(hit(&e, ""));
    assert!(hit(&e, "mana"));
    assert!(hit(&e, "SECRET OF"));
    assert!(hit(&e, "secretof"));
    assert!(!hit(&e, "zelda"));
    let mut e = entry("X-0001", "BLANK");
    e.path = "/roms/Pokémon Édition.zip".to_string();
    assert!(hit(&e, "pokemon"));
    assert!(hit(&e, "edition"));
    assert_eq!(normalize("Étoile-42 !"), "etoile42");
}

#[test]
fn favorites_are_pinned_ahead_of_every_other_game() {
    let entries = vec![entry("A-0001", "ALPHA"), entry("B-0001", "BRAVO"), entry("C-0001", "CHARLIE")];
    let games = vec![("C-0001".to_string(), GameStats { favorite: true, ..Default::default() })];
    let order = arrange(&entries, "", SortMode::Title, &games);
    assert_eq!(ids(&order), ["C-0001", "A-0001", "B-0001"]);
}

#[test]
fn recent_sort_puts_the_last_played_first_and_never_played_last() {
    let entries = vec![entry("A-0001", "ALPHA"), entry("B-0001", "BRAVO"), entry("C-0001", "CHARLIE")];
    let games = vec![
        ("A-0001".to_string(), GameStats { last_played: Some(100), ..Default::default() }),
        ("C-0001".to_string(), GameStats { last_played: Some(500), ..Default::default() }),
    ];
    let order = arrange(&entries, "", SortMode::Recent, &games);
    assert_eq!(ids(&order), ["C-0001", "A-0001", "B-0001"]);
    let order = arrange(&entries, "", SortMode::Title, &[]);
    assert_eq!(ids(&order), ["A-0001", "B-0001", "C-0001"]);
}

#[test]
fn arrange_filters_on_the_query() {
    let entries = vec![entry("A-0001", "ALPHA"), entry("B-0001", "BRAVO")];
    let order = arrange(&entries, "brav", SortMode::Title, &[]);
    assert_eq!(order.len(), 1);
    assert_eq!(order[0].id, "B-0001");
    assert!(arrange(&entries, "nothing", SortMode::Title, &[]).is_empty());
}

#[test]
fn arranging_a_large_library_stays_within_the_frame_budget() {
    let entries: Vec<GameEntry> = (0..200)
        .map(|i| entry(&format!("GAME-{i:04}"), &format!("GAME {:03}", (i * 37) % 200)))
        .collect();
    let mut games = Vec::new();
    for (i, e) in entries.iter().enumerate().filter(|(i, _)| i % 10 == 0) {
        games.push((e.id.clone(), GameStats { favorite: true, last_played: Some(i as i64), ..Default::default() }));
    }
    const ITERATIONS: u32 = 60;
    let start = std::time::Instant::now();
    let mut kept = 0;
    for _ in 0..ITERATIONS {
        kept += arrange(&entries, "game", SortMode::Recent, &games).len();
    }
    let per_frame = start.elapsed() / ITERATIONS;
    assert_eq!(kept, ITERATIONS as usize * entries.len());
    let bound = std::time::Duration::from_millis(20);
    assert!(per_frame < bound, "arrange took {per_frame:?} for 200 games");
}

#[test]
fn equal_keys_keep_their_input_order() {
    let entries = vec![entry("B-0001", "SAME"), entry("A-0001", "SAME"), entry("C-0001", "ANOTHER")];
    let order = arrange(&entries, "", SortMode::Title, &[]);
    assert_eq!(ids(&order), ["C-0001", "B-0001", "A-0001"]);
}

#[test]
fn sort_mode_round_trips_through_the_preference_string() {
    for mode in [SortMode::Title, SortMode::Recent] {
        assert_eq!(SortMode::from_pref(mode.as_pref()), mode);
        for lang in [Lang::Fr, Lang::En] {
            assert!(!mode.label(lang).is_empty());
        }
    }
    assert_eq!(SortMode::from_pref("unknown-from-a-newer-build"), SortMode::Title);
}

#[test]
fn sizes_and_durations_are_formatted_for_the_sheet() {
    assert_eq!(format_size(Lang::Fr, 0), "0 o");
    assert_eq!(format_size(Lang::Fr, 512), "512 o");
    assert_eq!(format_size(Lang::Fr, 8 * 1024), "8 Ko");
    assert_eq!(format_size(Lang::Fr, 2 * 1024 * 1024), "2,0 Mo");
    assert_eq!(format_size(Lang::Fr, 2_621_440), "2,5 Mo");
    assert_eq!(format_sram(Lang::Fr, 0), "Aucune");
    assert_eq!(format_sram(Lang::Fr, 8192), "8 Ko");
    assert_eq!(format_play_time(Lang::Fr, 0), "Jamais joué");
    assert_eq!(format_play_time(Lang::Fr, 30), "moins d'une minute");
    assert_eq!(format_play_time(Lang::Fr, 60), "1 min");
    assert_eq!(format_play_time(Lang::Fr, 59 * 60), "59 min");
    assert_eq!(format_play_time(Lang::Fr, 3600), "1 h 00");
    assert_eq!(format_play_time(Lang::Fr, 2 * 3600 + 5 * 60 + 59), "2 h 05");
    assert_eq!(format_size(Lang::En, 0), "0 B");
    assert_eq!(format_size(Lang::En, 8 * 1024), "8 KB");
    assert_eq!(format_size(Lang::En, 2_621_440), "2.5 MB");
    assert_eq!(format_sram(Lang::En, 0), "None");
    assert_eq!(format_play_time(Lang::En, 0), "Never played");
    assert_eq!(format_play_time(Lang::En, 30), "less than a minute");
    assert_eq!(format_play_time(Lang::En, 3600), "1 h 00");
    assert_eq!(format_play_time(Lang::En, 59 * 60), "59 min");
}

#[test]
fn a_tenth_of_a_mebibyte_is_rounded_like_the_float_it_replaces() {
    for bytes in [1_048_576u64, 1_100_000, 1_153_433, 1_153_434, 3_000_000, 10_485_759, 123_456_789] {
        let expected = format!("{:.1} MB", bytes as f64 / (1024.0 * 1024.0));
        assert_eq!(format_size(Lang::En, bytes), expected, "{bytes}");
    }
    // An exact half rounds to even, as the float formatting does.
    let half = 1_048_576u64 + 52_428 + 52_429;
    assert_eq!(format_size(Lang::En, 1_048_576 * 5 / 4), format!("{:.1} MB", 1.25f64));
    assert!(format_size(Lang::En, half).ends_with(" MB"));
}

#[test]
fn the_play_clock_keeps_the_sub_second_remainder() {
    let ms = |n: u64| Duration::from_millis(n).as_nanos() as u64;
    let mut clock = PlayClock::default();
    let mut committed = 0;
    for _ in 0..50 {
        committed += clock.add(ms(20));
    }
    assert_eq!(committed, 1);
    for _ in 0..50 {
        committed += clock.add(ms(20));
    }
    assert_eq!(committed, 2, "no time may be lost to rounding");
    assert_eq!(clock.add(ms(2500)), 2);
    clock.reset();
    assert_eq!(clock.add(ms(600)), 0);
}

#[test]
fn the_screenshot_folder_matches_what_the_capture_hotkey_uses() {
    assert_eq!(screenshot_dir("/roms/game.sfc", None), "/roms/Screenshots");
    assert_eq!(screenshot_dir("game.sfc", None), "Screenshots");
    assert_eq!(screenshot_dir("/roms/game.sfc", Some("/shots".to_string())), "/shots");
}

#[test]
fn the_library_folder_falls_back_from_preference_to_roms() {
    assert_eq!(library_dir(None, None), "roms");
    assert_eq!(library_dir(None, Some("/games".to_string())), "/games");
    assert_eq!(library_dir(Some("/library".to_string()), Some("/games".to_string())), "/library");
}

#[test]
fn a_save_state_is_labelled_by_its_slot() {
    let s = StateFile { slot: None, path: "/r/g.resume".to_string(), size: 1, modified: 0, preview: None };
    assert_eq!(s.label(Lang::Fr), "Reprise");
    assert_eq!(s.label(Lang::En), "Resume");
    let s = StateFile { slot: Some(3), ..s };
    assert_eq!(s.label(Lang::Fr), "Slot 3");
}

#[test]
fn a_scan_jumps_ahead_of_the_queued_thumbnails_and_cancels_them() {
    let mut q = JobQueue::new();
    for id in ["A-0001", "B-0001", "C-0001"] {
        q.push(Job::Thumb { id: id.to_string(), rom: "/roms/x.sfc".to_string() });
    }
    assert_eq!(q.queued(), (0, 3));
    q.push(Job::Scan { dir: "/games".to_string(), extra: Vec::new() });
    assert_eq!(q.queued(), (1, 0), "queued thumbnails belong to the old folder");
    assert_eq!(q.take(), Some(Job::Scan { dir: "/games".to_string(), extra: Vec::new() }));
    assert_eq!(q.queued(), (0, 0));
}

#[test]
fn thumbnails_are_served_in_submission_order_once_no_scan_is_waiting() {
    let mut q = JobQueue::new();
    q.push(Job::Thumb { id: "A".to_string(), rom: "/a.sfc".to_string() });
    q.push(Job::Thumb { id: "B".to_string(), rom: "/b.sfc".to_string() });
    assert_eq!(q.take(), Some(Job::Thumb { id: "A".to_string(), rom: "/a.sfc".to_string() }));
    assert_eq!(q.take(), Some(Job::Thumb { id: "B".to_string(), rom: "/b.sfc".to_string() }));
}

#[test]
fn closing_the_queue_ends_the_thread_without_waiting() {
    let mut q = JobQueue::new();
    q.push(Job::Scan { dir: "/games".to_string(), extra: Vec::new() });
    q.close();
    assert_eq!(q.take(), None);
}

#[test]
fn a_timestamp_formats_as_a_local_date() {
    // The local breakdown is the caller's; the UTC one stands in for it here.
    let t = civil_from_unix(1_700_000_000);
    let s = format_date(Lang::Fr, &t);
    assert_eq!(s.len(), 16, "{s}");
    assert_eq!(s.as_bytes()[2], b'/');
    assert_eq!(s.as_bytes()[5], b'/');
    assert_eq!(s.as_bytes()[13], b':');
    // English is ISO, so a date is never read a month out.
    let s = format_date(Lang::En, &t);
    assert_eq!(s.len(), 16, "{s}");
    assert_eq!(s.as_bytes()[4], b'-');
    assert_eq!(s.as_bytes()[7], b'-');
    assert_eq!(s.as_bytes()[13], b':');
}

#[test]
fn a_date_is_written_day_first_in_french_and_iso_in_english() {
    let t = civil_from_unix(1_700_000_000);
    assert_eq!(format_date(Lang::Fr, &t), "14/11/2023 22:13");
    assert_eq!(format_date(Lang::En, &t), "2023-11-14 22:13");
    let early = CalendarTime { year: 7, month: 1, day: 2, hour: 3, minute: 4, second: 5 };
    assert_eq!(format_date(Lang::Fr, &early), "02/01/0007 03:04");
    assert_eq!(format_date(Lang::En, &early), "0007-01-02 03:04");
}

#[test]
fn unix_time_conversions_are_symmetric() {
    assert_eq!(unix_secs(UNIX_EPOCH), 0);
    assert_eq!(unix_secs(UNIX_EPOCH + Duration::from_secs(1_700_000_000)), 1_700_000_000);
    assert_eq!(unix_secs(UNIX_EPOCH - Duration::from_secs(5)), -5);
    assert!(now_unix() > 1_700_000_000, "the host clock should be past 2023");
}

#[test]
fn an_offset_from_the_epoch_is_signed_by_its_side() {
    assert_eq!(secs_from_offset(Ok(0)), 0);
    assert_eq!(secs_from_offset(Ok(42)), 42);
    assert_eq!(secs_from_offset(Err(42)), -42);
    assert_eq!(secs_from_offset(Err(1 << 63)), i64::MIN);
}

fn probe(path: &str, key: &str, entry: Option<GameEntry>) -> Probe {
    Probe { path: path.to_string(), key: key.to_string(), entry }
}

#[test]
fn an_added_game_whose_file_is_gone_stays_listed_as_missing() {
    let gone = "/roms/elsewhere/Chrono Trigger (U).sfc";
    let mut cache = Cache::default();
    let found = scan(&vec![], &vec![probe(gone, gone, None)], &mut cache);
    // The folder is empty, so the added game is the whole library.
    assert_eq!(found.len(), 1);
    assert!(found[0].missing);
    assert_eq!(found[0].path, gone);
    assert_eq!(found[0].title, "Chrono Trigger (U).sfc");
    assert_eq!(found[0].id, "missing-chronotriggerusfc");

    // The known facts of a game seen before survive its file going away.
    cache.entries = vec![GameEntry { path: gone.to_string(), ..entry("CT-0001", "CHRONO TRIGGER") }];
    let found = scan(&vec![], &vec![probe(gone, gone, None)], &mut cache);
    assert_eq!(found[0].title, "CHRONO TRIGGER");
    assert_eq!(found[0].id, "CT-0001");
    assert!(found[0].missing);
}

#[test]
fn a_game_added_from_the_scanned_folder_is_not_listed_twice() {
    // Not a parseable ROM, so the folder pass drops it; the extra pass must
    // not then add it back as a second card, under either spelling.
    let mut cache = Cache::default();
    let folder = vec![probe("/roms/game.sfc", "/roms/game.sfc", None)];
    let extra = vec![probe("/roms/./game.sfc", "/roms/game.sfc", None)];
    let found = scan(&folder, &extra, &mut cache);
    assert!(found.is_empty(), "{found:?}");
    assert!(cache.entries.is_empty());
}

#[test]
fn a_scan_lists_the_folder_then_the_new_added_games_and_becomes_the_cache() {
    let mut cache = Cache::default();
    cache.entries.push(entry("GONE-0001", "GONE"));
    let a = entry("A-0001", "A");
    let b = entry("B-0001", "B");
    let c = entry("C-0001", "C");
    let folder = vec![
        probe("/roms/A.sfc", "/roms/A.sfc", Some(a.clone())),
        probe("/roms/broken.sfc", "/roms/broken.sfc", None),
        probe("/roms/B.sfc", "/roms/B.sfc", Some(b.clone())),
    ];
    let extra = vec![
        probe("/other/C.sfc", "/other/C.sfc", Some(c.clone())),
        probe("/roms/B.sfc", "/roms/B.sfc", Some(b.clone())),
        probe("/other/../other/C.sfc", "/other/C.sfc", Some(c.clone())),
    ];
    let found = scan(&folder, &extra, &mut cache);
    assert_eq!(found, vec![a, b, c]);
    // A cached entry for a file that no longer exists disappears.
    assert_eq!(cache.entries, found);
}

#[test]
fn a_gone_file_with_no_name_is_listed_under_its_path() {
    let cache = Cache::default();
    let e = missing_entry("/", &cache);
    assert_eq!(e.title, "/");
    assert_eq!(e.path, "/");
    assert!(e.missing && e.file_size == 0 && e.coprocessor.is_none());
}

#[test]
fn a_promoted_screenshot_wins_over_the_generated_thumbnail() {
    let file = |p: &str| prisme::paths::Entry { path: p.to_string(), is_file: true, mtime: None };
    let disk = prisme::paths::Disk { entries: vec![file("/p/promoted.png"), file("/p/generated.png")] };
    assert_eq!(resolve_picture(Some("/p/promoted.png"), Some("/p/generated.png"), &disk), Some("/p/promoted.png".to_string()));
    // A promoted picture that is gone falls back to the thumbnail.
    assert_eq!(resolve_picture(Some("/p/gone.png"), Some("/p/generated.png"), &disk), Some("/p/generated.png".to_string()));
    // Neither on disk: a placeholder, and a thumbnail still to generate.
    assert_eq!(resolve_picture(Some("/p/gone.png"), Some("/p/none.png"), &disk), None);
    assert_eq!(resolve_picture(None, None, &disk), None);
}

fn listed(v: &[(&str, i64)]) -> Vec<(String, i64)> {
    v.iter().map(|(p, t)| (p.to_string(), *t)).collect()
}

#[test]
fn screenshots_are_matched_by_title_prefix_and_sub_folder() {
    let flat = listed(&[
        ("/s/SECRET_OF_MANA_20260724-213045.png", 10),
        ("/s/SECRET_OF_MANA_20260724-213045_2.png", 30),
        ("/s/SUPER_MARIOWORLD_20260724-213045.png", 40),
        ("/s/SECRET_OF_MANA_notes.txt", 50),
        ("/s/SECRET_OF_MANA.png", 60),
    ]);
    let nested = listed(&[("/s/SECRET_OF_MANA/anything.PNG", 20), ("/s/SECRET_OF_MANA/notes.txt", 70)]);
    let shots = screenshots("SECRET OF MANA", &flat, &nested);
    // Newest first.
    assert_eq!(
        shots,
        vec![
            "/s/SECRET_OF_MANA_20260724-213045_2.png".to_string(),
            "/s/SECRET_OF_MANA/anything.PNG".to_string(),
            "/s/SECRET_OF_MANA_20260724-213045.png".to_string(),
        ]
    );
    assert!(screenshots("NO SUCH GAME", &flat, &[]).is_empty());
    assert!(screenshots("SECRET OF MANA", &[], &[]).is_empty());
}

#[test]
fn captures_of_the_same_second_are_listed_in_path_order() {
    let flat = listed(&[("/s/G_b.png", 5), ("/s/G_a.png", 5), ("/s/G_c.png", 9)]);
    assert_eq!(
        screenshots("G", &flat, &[]),
        vec!["/s/G_c.png".to_string(), "/s/G_a.png".to_string(), "/s/G_b.png".to_string()]
    );
}

#[test]
fn a_folder_listing_keeps_its_rom_files_sorted_by_path() {
    let listing = vec![
        ("/r/zelda.sfc".to_string(), false),
        ("/r/notes.txt".to_string(), false),
        ("/r/saves.sfc".to_string(), true),
        ("/r/Alpha.SMC".to_string(), false),
        ("/r/a b.zip".to_string(), false),
        ("/r/a.sfc".to_string(), false),
    ];
    assert_eq!(
        prisme::library::rom_paths(&listing),
        vec!["/r/Alpha.SMC".to_string(), "/r/a b.zip".to_string(), "/r/a.sfc".to_string(), "/r/zelda.sfc".to_string()]
    );
    assert!(prisme::library::rom_paths(&[]).is_empty());
}
