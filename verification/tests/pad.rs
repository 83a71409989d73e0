use prisme::i18n::Lang;
use prisme::input::{button_at_exec, BindResult};
use prisme::pad::{
    bind_button, current_buttons, override_button, pad_button_from_name, resolve_button, PadNotice, Slots,
    DEFAULT_PAD_MAP, PAD_BUTTONS,
};

fn no_map() -> Vec<(String, String)> {
    Vec::new()
}

fn entry(name: &str, button: &str) -> Vec<(String, String)> {
    vec![(name.to_string(), button.to_string())]
}

fn get<'a>(m: &'a [(String, String)], name: &str) -> Option<&'a str> {
    m.iter().rev().find(|(n, _)| n == name).map(|(_, k)| k.as_str())
}

#[test]
fn the_first_two_controllers_take_the_two_ports() {
    let mut slots = Slots::default();
    assert_eq!(slots.connected(), 0);
    assert_eq!(slots.connect(10), Some(0));
    assert_eq!(slots.connect(20), Some(1));
    assert_eq!(slots.connected(), 2);
    assert_eq!(slots.player_of(10), Some(0));
    assert_eq!(slots.player_of(20), Some(1));
    assert_eq!(slots.player_of(30), None);
    assert_eq!(slots.connect(30), None);
    assert_eq!(slots.connected(), 2);
}

#[test]
fn connecting_the_same_controller_twice_is_a_no_op() {
    let mut slots = Slots::default();
    assert_eq!(slots.connect(10), Some(0));
    assert_eq!(slots.connect(10), None);
    assert_eq!(slots.connected(), 1);
    assert_eq!(slots.player_of(10), Some(0));
}

#[test]
fn unplugging_player_one_does_not_promote_player_two() {
    let mut slots = Slots::default();
    slots.connect(10);
    slots.connect(20);
    assert_eq!(slots.disconnect(10), Some(0));
    assert_eq!(slots.player_of(20), Some(1), "player 2 must keep its port");
    assert_eq!(slots.connected(), 1);
    assert_eq!(slots.connect(10), Some(0));
    assert_eq!(slots.connect(30), None);
}

#[test]
fn disconnecting_an_unknown_controller_is_harmless() {
    let mut slots = Slots::default();
    assert_eq!(slots.disconnect(99), None);
    slots.connect(10);
    assert_eq!(slots.disconnect(99), None);
    assert_eq!(slots.player_of(10), Some(0));
    assert_eq!(slots.disconnect(10), Some(0));
    assert_eq!(slots.disconnect(10), None);
    assert_eq!(slots.connected(), 0);
}

#[test]
fn hot_plug_notices_are_written_for_the_overlay_font() {
    let plugged = PadNotice { player: 0, connected: true, name: "Pad".to_string() };
    assert_eq!(plugged.status(Lang::Fr), "MANETTE 1 CONNECTEE");
    assert_eq!(plugged.status(Lang::En), "CONTROLLER 1 CONNECTED");
    let gone = PadNotice { player: 1, connected: false, name: "Pad".to_string() };
    assert_eq!(gone.status(Lang::Fr), "MANETTE 2 DECONNECTEE");
    assert_eq!(gone.status(Lang::En), "CONTROLLER 2 DISCONNECTED");
    for notice in [plugged, gone] {
        for lang in [Lang::Fr, Lang::En] {
            let text = notice.status(lang);
            assert!(
                text.chars().all(|c| c.is_ascii_uppercase() || c.is_ascii_digit() || c == ' '),
                "{text:?} cannot be drawn by the overlay font"
            );
        }
    }
}

#[test]
fn a_controller_that_comes_and_goes_leaves_the_ports_as_they_were() {
    let mut slots = Slots::default();
    slots.connect(7);
    let before = slots.clone();
    slots.connect(8);
    slots.disconnect(8);
    assert_eq!(slots, before);
}

#[test]
fn every_gilrs_button_is_listed_under_its_own_name() {
    let mut names: Vec<&str> = PAD_BUTTONS.to_vec();
    let count = names.len();
    names.sort_unstable();
    names.dedup();
    assert_eq!(names.len(), count, "duplicate name in PAD_BUTTONS");
    for name in PAD_BUTTONS {
        assert_eq!(pad_button_from_name(name), Some(name));
    }
    for (_, button) in DEFAULT_PAD_MAP {
        assert_eq!(pad_button_from_name(button), Some(button));
    }
    assert_eq!(pad_button_from_name("Paddle"), None);
}

#[test]
fn an_empty_map_resolves_exactly_like_the_built_in_mapping() {
    let map = no_map();
    for (name, button) in DEFAULT_PAD_MAP {
        assert_eq!(resolve_button(&map, button), Some(name), "{name} <- {button}");
        assert!(current_buttons(&map, name).contains(&button));
    }
    assert_eq!(resolve_button(&map, "Mode"), None);
    assert_eq!(current_buttons(&map, "L"), vec!["LeftTrigger", "LeftTrigger2"]);
    assert_eq!(current_buttons(&map, "A"), vec!["East"]);
}

#[test]
fn a_rebound_pad_button_drives_its_new_snes_button_only() {
    let map = entry("A", "North");
    assert_eq!(resolve_button(&map, "North"), Some("A"));
    assert_eq!(resolve_button(&map, "East"), None, "A's own default is free again");
    assert_eq!(resolve_button(&map, "South"), Some("B"));
}

#[test]
fn an_override_replaces_every_default_binding_of_that_button() {
    let map = entry("L", "LeftTrigger2");
    assert_eq!(current_buttons(&map, "L"), vec!["LeftTrigger2"]);
    assert_eq!(resolve_button(&map, "LeftTrigger"), None);
    assert_eq!(resolve_button(&map, "LeftTrigger2"), Some("L"));
}

#[test]
fn an_unknown_stored_name_falls_back_to_the_default_binding() {
    let map = entry("A", "Paddle");
    assert_eq!(override_button(&map, "A"), None);
    assert_eq!(current_buttons(&map, "A"), vec!["East"]);
    assert_eq!(resolve_button(&map, "East"), Some("A"));
}

#[test]
fn binding_a_free_pad_button_touches_only_that_snes_button() {
    let mut map = no_map();
    assert_eq!(bind_button(&mut map, "Start", "Mode"), BindResult::Bound);
    assert_eq!(get(&map, "Start"), Some("Mode"));
    assert_eq!(resolve_button(&map, "Mode"), Some("Start"));
    assert_eq!(resolve_button(&map, "Start"), None, "the old button is free again");
    assert_eq!(resolve_button(&map, "Select"), Some("Select"));
    assert_eq!(bind_button(&mut map, "Start", "Mode"), BindResult::Unchanged);
    assert_eq!(map.len(), 1);
}

#[test]
fn binding_a_pad_button_already_in_use_swaps_the_two_snes_buttons() {
    let mut map = no_map();
    assert_eq!(bind_button(&mut map, "A", "South"), BindResult::Swapped("B"));
    assert_eq!(current_buttons(&map, "A"), vec!["South"]);
    assert_eq!(current_buttons(&map, "B"), vec!["East"], "B takes A's former button");
    assert_eq!(resolve_button(&map, "South"), Some("A"));
    assert_eq!(bind_button(&mut map, "Turbo", "Z"), BindResult::Unchanged);
    assert_eq!(get(&map, "Turbo"), None);
}

#[test]
fn a_masked_pad_binding_is_repaired_instead_of_doubled() {
    let mut map = entry("X", "South");
    assert_eq!(resolve_button(&map, "South"), Some("X"));
    assert_eq!(bind_button(&mut map, "B", "South"), BindResult::Reverted("X"));
    assert_eq!(get(&map, "B"), Some("South"));
    assert_eq!(get(&map, "X"), None, "X goes back to its built-in button");
    assert_eq!(resolve_button(&map, "South"), Some("B"));
    assert_eq!(resolve_button(&map, "North"), Some("X"));
}

#[test]
fn rebinding_a_default_button_to_its_own_snes_button_writes_nothing() {
    let mut map = no_map();
    assert_eq!(bind_button(&mut map, "L", "LeftTrigger"), BindResult::Unchanged);
    assert!(map.is_empty(), "a default binding must not be narrowed: {map:?}");
    assert_eq!(current_buttons(&map, "L"), vec!["LeftTrigger", "LeftTrigger2"]);
}

#[test]
fn swapping_with_a_double_bound_button_hands_over_its_first_button() {
    let mut map = no_map();
    assert_eq!(bind_button(&mut map, "X", "LeftTrigger"), BindResult::Swapped("L"));
    assert_eq!(current_buttons(&map, "X"), vec!["LeftTrigger"]);
    assert_eq!(current_buttons(&map, "L"), vec!["North"]);
    assert_eq!(resolve_button(&map, "LeftTrigger2"), None);
}

#[test]
fn every_snes_button_has_a_built_in_controller_button() {
    let map = no_map();
    for i in 0..12 {
        let name = button_at_exec(i);
        assert!(!current_buttons(&map, name).is_empty(), "{name} has no default binding");
    }
}
