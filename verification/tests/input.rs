use prisme::input::{
    bind_key, button_at_exec, button_name, default_key, effective_key, key_label, reserved_for, resolve_key, shown_key,
    BindResult, Capture, Captured, Device, Press,
};
use std::collections::BTreeMap;

fn buttons() -> Vec<&'static str> {
    (0..12).map(button_at_exec).collect()
}

/// The built-in (button, key) pairs.
fn defaults() -> Vec<(&'static str, &'static str)> {
    buttons().into_iter().map(|b| (b, default_key(b).expect("a built-in key"))).collect()
}

/// A keymap holding exactly the built-in bindings, like a fresh preferences
/// file.
fn full_default() -> Vec<(String, String)> {
    defaults().into_iter().map(|(b, k)| (b.to_string(), k.to_string())).collect()
}

fn one(name: &str, key: &str) -> Vec<(String, String)> {
    vec![(name.to_string(), key.to_string())]
}

/// What the keymap says, as the preferences store it.
fn as_map(m: &[(String, String)]) -> BTreeMap<String, String> {
    m.iter().cloned().collect()
}

fn get<'a>(m: &'a [(String, String)], name: &str) -> Option<&'a str> {
    m.iter().rev().find(|(n, _)| n == name).map(|(_, k)| k.as_str())
}

#[test]
fn a_capture_only_ever_targets_a_real_button() {
    let mut capture = Capture::default();
    capture.start("Turbo", Device::Keyboard);
    assert!(!capture.is_active());
    capture.start("A", Device::Keyboard);
    capture.start("B", Device::Gamepad);
    assert_eq!(capture.pending(), Some(("B", Device::Gamepad)));
    capture.cancel();
    assert!(!capture.is_active());
}

#[test]
fn the_twelve_buttons_are_named_as_the_script_contract_names_them() {
    for b in ["Up", "Down", "Left", "Right", "B", "A", "Y", "X", "L", "R", "Start", "Select"] {
        assert_eq!(button_name(b), Some(b));
    }
    for b in ["", "a", "Turbo", "start", "Up "] {
        assert_eq!(button_name(b), None);
    }
}

#[test]
fn a_keyboard_capture_takes_the_first_key_and_ends() {
    let mut capture = Capture::default();
    assert_eq!(capture.on_key(Press::Other), Captured::Ignored);
    capture.start("Start", Device::Keyboard);
    assert_eq!(capture.waiting_for(Device::Keyboard), Some("Start"));
    assert_eq!(capture.waiting_for(Device::Gamepad), None);
    assert_eq!(capture.on_key(Press::Other), Captured::Key { button: "Start" });
    assert!(!capture.is_active());
}

#[test]
fn escape_cancels_a_capture_on_either_device() {
    for device in [Device::Keyboard, Device::Gamepad] {
        let mut capture = Capture::default();
        capture.start("A", device);
        assert_eq!(capture.on_key(Press::Escape), Captured::Cancelled);
        assert!(!capture.is_active());
    }
}

#[test]
fn a_shortcut_key_is_refused_and_the_capture_stays_open() {
    let mut capture = Capture::default();
    capture.start("X", Device::Keyboard);
    let r = capture.on_key(Press::Reserved { what: "plein écran", label: "F".to_string() });
    assert_eq!(r, Captured::Reserved("plein écran"));
    assert!(capture.is_active());
    assert_eq!(
        capture.notice.as_deref(),
        Some("F est déjà un raccourci de l'application (plein écran).")
    );
}

#[test]
fn a_gamepad_capture_ignores_the_keyboard_and_yields_its_button_once() {
    let mut capture = Capture::default();
    capture.start("Y", Device::Gamepad);
    assert_eq!(capture.on_key(Press::Other), Captured::Ignored);
    assert!(capture.is_active());
    assert_eq!(capture.take_gamepad(), Some("Y"));
    assert_eq!(capture.take_gamepad(), None);
    capture.start("Y", Device::Keyboard);
    assert_eq!(capture.take_gamepad(), None);
    assert!(capture.is_active());
}

#[test]
fn the_button_list_matches_the_built_in_table() {
    assert_eq!(buttons(), vec!["Up", "Down", "Left", "Right", "B", "A", "Y", "X", "L", "R", "Start", "Select"]);
    for name in buttons() {
        assert_eq!(button_name(name), Some(name));
        assert!(default_key(name).is_some(), "{name} has no built-in key");
        assert!(prisme::input::Joypad::default().set_button(name, true).is_ok());
    }
    assert_eq!(button_name("Turbo"), None);
    assert_eq!(default_key("Turbo"), None);
}

#[test]
fn an_empty_keymap_falls_back_to_every_built_in_key() {
    let empty = vec![];
    for (name, code) in defaults() {
        assert_eq!(effective_key(&empty, name).as_deref(), Some(code), "{name}");
        assert_eq!(resolve_key(&empty, code), Some(name), "{name}");
    }
    assert_eq!(resolve_key(&empty, "Space"), None);
}

#[test]
fn a_full_default_keymap_resolves_exactly_like_the_built_in_table() {
    let map = full_default();
    for (name, code) in defaults() {
        assert_eq!(resolve_key(&map, code), Some(name));
        assert_eq!(effective_key(&map, name).as_deref(), Some(code));
    }
}

#[test]
fn a_rebound_button_answers_to_its_new_key_and_the_others_keep_theirs() {
    let map = one("A", "Space");
    assert_eq!(resolve_key(&map, "Space"), Some("A"));
    assert_eq!(effective_key(&map, "A").as_deref(), Some("Space"));
    assert_eq!(resolve_key(&map, "KeyX"), None);
    assert_eq!(resolve_key(&map, "KeyZ"), Some("B"));
    assert_eq!(resolve_key(&map, "ArrowUp"), Some("Up"));
}

#[test]
fn an_explicit_binding_wins_over_a_default_one() {
    let map = one("X", "KeyZ");
    assert_eq!(resolve_key(&map, "KeyZ"), Some("X"));
    assert_eq!(effective_key(&map, "B").as_deref(), Some("KeyZ"));
    assert_ne!(resolve_key(&map, "KeyZ"), Some("B"));
}

#[test]
fn the_shown_key_is_the_one_that_really_drives_the_button() {
    let map = full_default();
    for (name, code) in defaults() {
        assert_eq!(shown_key(&map, name).as_deref(), Some(code), "{name}");
    }
    let empty = vec![];
    for (name, code) in defaults() {
        assert_eq!(shown_key(&empty, name).as_deref(), Some(code), "{name}");
    }
    let map = one("X", "KeyZ");
    assert_eq!(shown_key(&map, "X").as_deref(), Some("KeyZ"));
    assert_eq!(shown_key(&map, "B"), None);
    assert_eq!(shown_key(&map, "Turbo"), None);
}

#[test]
fn binding_a_free_key_touches_only_that_button() {
    let mut map = full_default();
    assert_eq!(bind_key(&mut map, "A", "Space"), BindResult::Bound);
    assert_eq!(get(&map, "A"), Some("Space"));
    assert_eq!(resolve_key(&map, "Space"), Some("A"));
    assert_eq!(resolve_key(&map, "KeyX"), None, "the old key is free again");
    for (name, code) in defaults() {
        if name != "A" {
            assert_eq!(effective_key(&map, name).as_deref(), Some(code), "{name}");
        }
    }
}

#[test]
fn binding_a_key_already_in_use_swaps_the_two_buttons() {
    let mut map = full_default();
    assert_eq!(bind_key(&mut map, "A", "KeyZ"), BindResult::Swapped("B"));
    assert_eq!(effective_key(&map, "A").as_deref(), Some("KeyZ"));
    assert_eq!(effective_key(&map, "B").as_deref(), Some("KeyX"));
    assert_eq!(resolve_key(&map, "KeyZ"), Some("A"));
    assert_eq!(resolve_key(&map, "KeyX"), Some("B"));
    // Repeating the same assignment on the other button undoes the swap.
    assert_eq!(bind_key(&mut map, "B", "KeyZ"), BindResult::Swapped("A"));
    assert_eq!(effective_key(&map, "B").as_deref(), Some("KeyZ"));
    assert_eq!(effective_key(&map, "A").as_deref(), Some("KeyX"));
}

#[test]
fn a_conflict_with_a_default_binding_is_written_down_on_both_sides() {
    let mut map = vec![];
    assert_eq!(bind_key(&mut map, "X", "KeyZ"), BindResult::Swapped("B"));
    assert_eq!(get(&map, "X"), Some("KeyZ"));
    assert_eq!(get(&map, "B"), Some("KeyS"), "B receives X's former key");
    assert_eq!(resolve_key(&map, "KeyZ"), Some("X"));
    assert_eq!(resolve_key(&map, "KeyS"), Some("B"));
}

#[test]
fn a_masked_binding_is_repaired_instead_of_doubled() {
    let mut map = one("X", "KeyZ");
    assert_eq!(resolve_key(&map, "KeyZ"), Some("X"));
    assert_eq!(shown_key(&map, "B"), None, "B's claim is masked by X");
    assert_eq!(bind_key(&mut map, "B", "KeyZ"), BindResult::Reverted("X"));
    assert_eq!(get(&map, "B"), Some("KeyZ"));
    assert_eq!(get(&map, "X"), None, "X goes back to its built-in key");
    assert_eq!(resolve_key(&map, "KeyZ"), Some("B"));
    assert_eq!(resolve_key(&map, "KeyS"), Some("X"));
    assert_eq!(shown_key(&map, "B").as_deref(), Some("KeyZ"));
    assert_eq!(shown_key(&map, "X").as_deref(), Some("KeyS"));
    // No key drives two buttons.
    let mut driven: Vec<&str> = buttons()
        .into_iter()
        .filter_map(|n| effective_key(&map, n).map(|k| (n, k)))
        .filter(|(n, k)| resolve_key(&map, k) == Some(*n))
        .map(|(n, _)| n)
        .collect();
    driven.sort_unstable();
    driven.dedup();
    assert_eq!(driven.len(), 12, "every button must answer to something");
}

#[test]
fn a_masked_button_can_be_moved_to_a_free_key() {
    let mut map = one("X", "KeyZ");
    assert_eq!(bind_key(&mut map, "B", "Space"), BindResult::Bound);
    assert_eq!(resolve_key(&map, "Space"), Some("B"));
    assert_eq!(resolve_key(&map, "KeyZ"), Some("X"));
    assert_eq!(shown_key(&map, "B").as_deref(), Some("Space"));
}

#[test]
fn rebinding_a_button_to_the_key_it_already_has_changes_nothing() {
    let mut map = full_default();
    assert_eq!(bind_key(&mut map, "A", "KeyX"), BindResult::Unchanged);
    assert_eq!(as_map(&map), as_map(&full_default()));
    let mut map = vec![];
    assert_eq!(bind_key(&mut map, "A", "KeyX"), BindResult::Unchanged);
    assert_eq!(get(&map, "A"), Some("KeyX"));
    assert_eq!(bind_key(&mut map, "Turbo", "KeyG"), BindResult::Unchanged);
    assert_eq!(get(&map, "Turbo"), None);
}

#[test]
fn no_built_in_binding_collides_with_an_application_shortcut() {
    for (name, code) in defaults() {
        assert_eq!(reserved_for(code), None, "default key of {name} is a shortcut");
    }
    assert_eq!(reserved_for("F11"), Some("plein écran"));
    assert_eq!(reserved_for("Tab"), Some("accéléré"));
    assert_eq!(reserved_for("Digit7"), Some("slot de sauvegarde"));
    assert_eq!(reserved_for("Space"), None);
    assert_eq!(reserved_for("Escape"), None);
}

#[test]
fn key_labels_read_as_the_key_and_never_as_a_winit_variant() {
    assert_eq!(key_label("KeyZ"), "Z");
    assert_eq!(key_label("Digit4"), "4");
    assert_eq!(key_label("Enter"), "Entrée");
    assert_eq!(key_label("ShiftRight"), "Maj droite");
    assert_eq!(key_label("ArrowUp"), "Flèche haut");
    assert_eq!(key_label("Numpad7"), "Pavé 7");
    assert_eq!(key_label("Semicolon"), "Semicolon");
    for (_, code) in defaults() {
        assert!(!key_label(code).is_empty());
    }
}

#[test]
fn a_button_name_sets_its_one_flag() {
    let mut pad = prisme::input::Joypad::default();
    for name in ["A", "B", "X", "Y", "L", "R", "Start", "Select", "Up", "Down", "Left", "Right"] {
        assert!(pad.set_button(name, true).is_ok(), "{name}");
    }
    assert!(pad.a && pad.b && pad.x && pad.y && pad.l && pad.r && pad.start && pad.select);
    assert!(pad.up && pad.down && pad.left && pad.right);
    assert!(pad.set_button("Up", false).is_ok());
    assert!(!pad.up && pad.down);
    let before = pad;
    assert_eq!(pad.set_button("Turbo", true), Err("unknown button name: Turbo".to_string()));
    assert_eq!(pad, before);
    let held = prisme::input::Joypad::holding(&vec!["B".to_string(), "Turbo".to_string(), "Start".to_string()]);
    assert_eq!(held, prisme::input::Joypad { b: true, start: true, ..Default::default() });
}
