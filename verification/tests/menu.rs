use prisme::menu::{
    EXPORT_SPC_ID, FULLSCREEN_ID, HOME_ID, LOAD_STATE_ID, NEXT_SLOT_ID, OPEN_ROM_ID, PAUSE_RESUME_ID,
    QUIT_ID, RESET_ID, SAVE_STATE_ID, SCREENSHOT_ID, SETTINGS_ID,
};

#[test]
fn every_menu_id_is_distinct() {
    let mut ids: Vec<&str> = vec![
        HOME_ID,
        SETTINGS_ID,
        OPEN_ROM_ID,
        SCREENSHOT_ID,
        EXPORT_SPC_ID,
        NEXT_SLOT_ID,
        PAUSE_RESUME_ID,
        RESET_ID,
        SAVE_STATE_ID,
        LOAD_STATE_ID,
        QUIT_ID,
        FULLSCREEN_ID,
    ];
    let count = ids.len();
    ids.sort_unstable();
    ids.dedup();
    assert_eq!(ids.len(), count);
}

#[test]
fn the_menu_carries_actions_only() {
    for id in [
        HOME_ID,
        SETTINGS_ID,
        OPEN_ROM_ID,
        SCREENSHOT_ID,
        EXPORT_SPC_ID,
        NEXT_SLOT_ID,
        PAUSE_RESUME_ID,
        RESET_ID,
        SAVE_STATE_ID,
        LOAD_STATE_ID,
        QUIT_ID,
        FULLSCREEN_ID,
    ] {
        assert!(id.starts_with("prisme."), "{id}");
        for setting in ["zoom", "filter", "aspect", "show-fps", "mute", "volume", "ff-", "slot-", "confirm-quit", "resume-on-launch"] {
            assert!(!id.contains(setting), "{id} looks like a setting; those moved to the panel");
        }
    }
}
