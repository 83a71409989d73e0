use prisme::input::Joypad;
use prisme::script::{parse_script, script_state};

#[test]
fn a_script_reads_one_press_per_line_and_skips_comments() {
    let text = "# warm-up\n10 Start 2\n\n  30 A 0   # a zero hold still presses once\r\n30 Right 60\n";
    let s = parse_script("run.txt", text).expect("script");
    assert_eq!(
        s,
        vec![(10, "Start".to_string(), 2), (30, "A".to_string(), 1), (30, "Right".to_string(), 60)]
    );
    assert_eq!(parse_script("empty.txt", ""), Ok(vec![]));
    assert_eq!(parse_script("x", "5 B +3"), Ok(vec![(5, "B".to_string(), 3)]));
}

#[test]
fn a_bad_line_is_named_by_file_and_number() {
    assert_eq!(
        parse_script("run.txt", "10 A 1\n10 A\n"),
        Err("run.txt:2: expected `<frame> <button> <frames_held>`".to_string())
    );
    assert_eq!(
        parse_script("run.txt", "\n\n10 Turbo 1"),
        Err("run.txt:3: unknown button name: Turbo".to_string())
    );
    // Numbers are checked before the button, and carry no line number.
    assert_eq!(parse_script("run.txt", "ten Turbo 1"), Err("invalid number: ten".to_string()));
    assert_eq!(parse_script("run.txt", "1 Turbo x"), Err("invalid number: x".to_string()));
    // The first refusal wins.
    assert_eq!(
        parse_script("run.txt", "1 2\n1 Turbo 1"),
        Err("run.txt:1: expected `<frame> <button> <frames_held>`".to_string())
    );
}

#[test]
fn a_press_is_held_from_its_frame_for_its_count() {
    let s = parse_script("run.txt", "10 A 2\n11 B 1\n20 Start 1").expect("script");
    let none = Joypad::default();
    assert_eq!(script_state(&s, 9), none);
    assert_eq!(script_state(&s, 10), Joypad { a: true, ..none });
    assert_eq!(script_state(&s, 11), Joypad { a: true, b: true, ..none });
    assert_eq!(script_state(&s, 12), none);
    assert_eq!(script_state(&s, 20), Joypad { start: true, ..none });
    assert_eq!(script_state(&s, 21), none);
}
