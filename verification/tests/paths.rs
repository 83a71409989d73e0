use prisme::paths::{read_candidates, read_sidecar, sidecar, state_ext, unique_path, Disk, Entry, GamePaths, SLOT_COUNT};

const ID: &str = "SUPER_MARIOWORLD-A0DA";

fn disk(files: &[(&str, u128)]) -> Disk {
    Disk {
        entries: files
            .iter()
            .map(|(p, t)| Entry { path: p.to_string(), is_file: true, mtime: Some(*t) })
            .collect(),
    }
}

#[test]
fn without_a_folder_a_sidecar_sits_beside_the_rom() {
    assert_eq!(sidecar("/roms/game.sfc", None, ID, "srm"), "/roms/game.srm");
    assert_eq!(sidecar("/roms/game.zip", None, ID, "srm"), "/roms/game.srm");
    assert_eq!(sidecar("/roms/game.sfc", None, ID, "state3"), "/roms/game.state3");
}

#[test]
fn a_configured_folder_names_each_sidecar_after_the_game() {
    let dir = "/saves";
    assert_eq!(sidecar("/roms/game.sfc", Some(dir), ID, "srm"), "/saves/SUPER_MARIOWORLD-A0DA.srm");
    assert_eq!(
        sidecar("/roms/sub/Super Mario (E) [!].zip", Some(dir), ID, "state2"),
        "/saves/SUPER_MARIOWORLD-A0DA.state2"
    );
    assert_eq!(sidecar("/roms/game.sfc", Some(dir), "", "srm"), "/saves/game.srm");
    assert_eq!(sidecar("/roms/game.sfc", Some(dir), "../escape-0000", "srm"), "/saves/game.srm");
    assert_eq!(sidecar("", Some(dir), "", "srm"), "");
}

#[test]
fn two_homonymous_roms_never_share_a_sidecar_in_a_shared_folder() {
    let dir = "/saves";
    let eu = sidecar("/roms/eu/Zelda.sfc", Some(dir), "ZELDA_EU-1234", "srm");
    let us = sidecar("/roms/us/Zelda.sfc", Some(dir), "ZELDA_US-5678", "srm");
    assert_ne!(eu, us);
    let smc = sidecar("/roms/Zelda.smc", Some(dir), "ZELDA_EU-1234", "srm");
    assert_eq!(eu, smc);
}

#[test]
fn a_read_falls_back_to_the_legacy_files_and_a_write_never_does() {
    let rom = "/r/roms/game.sfc";
    let saves = "/r/saves";
    let beside = "/r/roms/game.srm";
    let by_stem = "/r/saves/game.srm";
    let by_id = "/r/saves/SUPER_MARIOWORLD-A0DA.srm";
    assert_eq!(read_sidecar(rom, Some(saves), None, ID, "srm", &disk(&[])), by_id);
    assert_eq!(read_sidecar(rom, Some(saves), None, ID, "srm", &disk(&[(beside, 1)])), beside);
    assert_eq!(sidecar(rom, Some(saves), ID, "srm"), by_id);
    assert_eq!(
        read_sidecar(rom, Some(saves), None, ID, "srm", &disk(&[(beside, 1), (by_stem, 2)])),
        by_stem
    );
    assert_eq!(
        read_sidecar(rom, Some(saves), None, ID, "srm", &disk(&[(beside, 1), (by_stem, 2), (by_id, 3)])),
        by_id
    );
    assert_eq!(
        read_sidecar(rom, None, None, ID, "srm", &disk(&[(beside, 1), (by_stem, 2), (by_id, 3)])),
        beside
    );
}

#[test]
fn clearing_the_folder_still_reads_the_newer_save_left_in_it() {
    let rom = "/r/roms/game.sfc";
    let saves = "/r/saves";
    let beside = "/r/roms/game.srm";
    let by_id = "/r/saves/SUPER_MARIOWORLD-A0DA.srm";
    assert_eq!(read_sidecar(rom, None, Some(saves), ID, "srm", &disk(&[(beside, 100), (by_id, 3690)])), by_id);
    assert_eq!(sidecar(rom, None, ID, "srm"), beside);
    assert_eq!(read_sidecar(rom, None, Some(saves), ID, "srm", &disk(&[(beside, 4000), (by_id, 3690)])), beside);
    assert_eq!(read_sidecar(rom, None, Some("/r/empty"), ID, "srm", &disk(&[(beside, 4000), (by_id, 3690)])), beside);
}

#[test]
fn a_new_folder_reads_the_previous_one_before_the_beside_the_rom_file() {
    let rom = "/r/roms/game.sfc";
    let in_old = "/r/old-saves/SUPER_MARIOWORLD-A0DA.srm";
    let in_new = "/r/new-saves/SUPER_MARIOWORLD-A0DA.srm";
    let d = disk(&[("/r/roms/game.srm", 1), (in_old, 2)]);
    assert_eq!(read_sidecar(rom, Some("/r/new-saves"), Some("/r/old-saves"), ID, "srm", &d), in_old);
    let d = disk(&[("/r/roms/game.srm", 1), (in_old, 2), (in_new, 3)]);
    assert_eq!(read_sidecar(rom, Some("/r/new-saves"), Some("/r/old-saves"), ID, "srm", &d), in_new);
}

#[test]
fn a_directory_named_like_the_save_is_not_mistaken_for_one() {
    let rom = "/r/roms/game.sfc";
    let beside = "/r/roms/game.srm";
    let mut d = disk(&[(beside, 1)]);
    for p in ["/r/saves/SUPER_MARIOWORLD-A0DA.srm", "/r/saves/game.srm"] {
        d.entries.push(Entry { path: p.to_string(), is_file: false, mtime: Some(5) });
    }
    assert_eq!(read_sidecar(rom, Some("/r/saves"), None, ID, "srm", &d), beside);
}

#[test]
fn the_cli_override_wins_over_the_configured_folder() {
    let paths = GamePaths::new(
        "/roms/game.sfc",
        ID,
        Some("/saves".to_string()),
        Some("/elsewhere/custom.srm".to_string()),
    );
    assert_eq!(paths.srm_write(), "/elsewhere/custom.srm");
    assert_eq!(paths.srm_read(&disk(&[])), "/elsewhere/custom.srm");
    assert_eq!(paths.state_write(0), "/saves/SUPER_MARIOWORLD-A0DA.state");
    assert_eq!(paths.resume_write(), "/saves/SUPER_MARIOWORLD-A0DA.resume");
}

#[test]
fn every_sidecar_of_a_session_has_its_own_name() {
    for dir in [None, Some("/saves".to_string())] {
        let paths = GamePaths::new("/roms/game.sfc", ID, dir.clone(), None);
        let mut all = vec![paths.srm_write(), paths.resume_write(), paths.cheats_write()];
        all.extend((0..SLOT_COUNT).map(|s| paths.state_write(s)));
        let count = all.len();
        all.sort();
        all.dedup();
        assert_eq!(all.len(), count, "{dir:?}: two sidecars share a file name");
    }
}

#[test]
fn a_session_keeps_the_layout_it_was_built_with() {
    let beside = GamePaths::new("/roms/game.sfc", ID, None, None);
    assert_eq!(beside.srm_write(), "/roms/game.srm");
    assert_eq!(beside.dir(), None);
    assert_eq!(beside.id(), ID);
    let folder = GamePaths::new("/roms/game.sfc", ID, Some("/saves".to_string()), None);
    assert_eq!(folder.srm_write(), "/saves/SUPER_MARIOWORLD-A0DA.srm");
    assert_eq!(folder.dir(), Some("/saves"));
}

#[test]
fn the_previous_folder_is_never_a_write_target() {
    let paths = GamePaths::new("/roms/game.sfc", ID, None, None)
        .with_previous_dir(Some("/old-saves".to_string()));
    assert_eq!(paths.srm_write(), "/roms/game.srm");
    assert_eq!(paths.resume_write(), "/roms/game.resume");
    for slot in 0..SLOT_COUNT {
        assert!(!paths.state_write(slot).starts_with("/old-saves"));
    }
}

#[test]
fn a_state_slot_names_its_extension() {
    assert_eq!(state_ext(0), "state");
    assert_eq!(state_ext(3), "state3");
    assert_eq!(state_ext(12), "state12");
}

#[test]
fn the_read_candidates_are_listed_in_lookup_order() {
    let c = read_candidates("/roms/game.sfc", Some("/saves"), Some("/old"), ID, "srm");
    assert_eq!(
        c,
        vec![
            "/saves/SUPER_MARIOWORLD-A0DA.srm".to_string(),
            "/saves/game.srm".to_string(),
            "/old/SUPER_MARIOWORLD-A0DA.srm".to_string(),
            "/old/game.srm".to_string(),
            "/roms/game.srm".to_string(),
        ]
    );
    let paths = GamePaths::new("/roms/game.sfc", ID, None, None);
    assert_eq!(paths.read_candidates("srm"), vec!["/roms/game.srm".to_string(), "/roms/game.srm".to_string()]);
    let d = disk(&[("/roms/game.cheats.json", 1)]);
    assert_eq!(paths.cheats_read(&d), "/roms/game.cheats.json");
    assert_eq!(paths.state_read(2, &d), "/roms/game.state2");
    assert_eq!(paths.resume_read(&d), "/roms/game.resume");
}

#[test]
fn unique_path_avoids_clobbering_an_existing_file() {
    let empty = Disk { entries: vec![] };
    assert_eq!(unique_path("/shots", "GAME_20240101-000000", "png", &empty, 7), "/shots/GAME_20240101-000000.png");
    let taken = disk(&[("/shots/GAME.png", 1), ("/shots/GAME_2.png", 1)]);
    assert_eq!(unique_path("/shots", "GAME", "png", &taken, 7), "/shots/GAME_3.png");
    // A directory of that name is taken too.
    let dir = Disk { entries: vec![Entry { path: "/shots/GAME.png".to_string(), is_file: false, mtime: None }] };
    assert_eq!(unique_path("/shots", "GAME", "png", &dir, 7), "/shots/GAME_2.png");
}

#[test]
fn when_every_number_is_taken_the_process_id_names_the_capture() {
    let mut names = vec!["/shots/GAME.png".to_string()];
    for n in 2..1000 {
        names.push(format!("/shots/GAME_{n}.png"));
    }
    let full = Disk { entries: names.into_iter().map(|p| Entry { path: p, is_file: true, mtime: None }).collect() };
    assert_eq!(unique_path("/shots", "GAME", "png", &full, 4242), "/shots/GAME_4242.png");
}
