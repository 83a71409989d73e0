use prisme::agent::{format_addr, parse, parse_addr, route, step_addr, Request, Route, check_range};

fn req(line: &str) -> Result<Request, String> {
    parse(line).1
}

#[test]
fn every_command_shape_parses() {
    assert_eq!(req(r#"{"cmd":"step"}"#).unwrap(), Request::Step { frames: 1 });
    assert_eq!(req(r#"{"cmd":"step","frames":60}"#).unwrap(), Request::Step { frames: 60 });
    assert_eq!(
        req(r#"{"cmd":"press","button":"Start","frames":4,"release":2}"#).unwrap(),
        Request::Press { buttons: vec!["Start".into()], frames: 4, release: 2 }
    );
    assert_eq!(
        req(r#"{"cmd":"press","buttons":["B","Right"]}"#).unwrap(),
        Request::Press { buttons: vec!["B".into(), "Right".into()], frames: 1, release: 0 }
    );
    assert_eq!(req(r#"{"cmd":"screenshot"}"#).unwrap(), Request::Screenshot { path: None });
    assert_eq!(
        req(r#"{"cmd":"screenshot","path":"a/b.png"}"#).unwrap(),
        Request::Screenshot { path: Some("a/b.png".to_string()) }
    );
    assert_eq!(
        req(r#"{"cmd":"read-mem","addr":"7E:0019","len":16}"#).unwrap(),
        Request::ReadMem { addr: 0x7E_0019, len: 16 }
    );
    assert_eq!(
        req(r#"{"cmd":"write-mem","addr":"7E0019","hex":"0A ff"}"#).unwrap(),
        Request::WriteMem { addr: 0x7E_0019, bytes: vec![0x0A, 0xFF] }
    );
    assert_eq!(
        req(r#"{"cmd":"write-mem","addr":"$7E:0019","bytes":[5]}"#).unwrap(),
        Request::WriteMem { addr: 0x7E_0019, bytes: vec![5] }
    );
    assert_eq!(req(r#"{"cmd":"save-state"}"#).unwrap(), Request::SaveState { path: None });
    assert_eq!(
        req(r#"{"cmd":"load-state","path":"s.state"}"#).unwrap(),
        Request::LoadState { path: Some("s.state".to_string()) }
    );
    assert_eq!(req(r#"{"cmd":"state"}"#).unwrap(), Request::State);
    assert_eq!(req(r#"{"cmd":"info"}"#).unwrap(), Request::State);
    assert_eq!(req(r#"{"cmd":"ping"}"#).unwrap(), Request::Ping);
    assert_eq!(req(r#"{"cmd":"help"}"#).unwrap(), Request::Help);
    assert_eq!(req(r#"{"cmd":"quit"}"#).unwrap(), Request::Quit);
    assert_eq!(req(r#"{"cmd":"exit"}"#).unwrap(), Request::Quit);
}

#[test]
fn a_malformed_line_is_an_error_value_not_a_panic() {
    for line in [
        "",
        "   ",
        "not json",
        "[1,2]",
        "\"a string\"",
        r#"{"frames":3}"#,
        r#"{"cmd":42}"#,
        r#"{"cmd":"fly"}"#,
        r#"{"cmd":"step","frames":-1}"#,
        r#"{"cmd":"step","frames":999999999}"#,
        r#"{"cmd":"press"}"#,
        r#"{"cmd":"press","button":"Turbo"}"#,
        r#"{"cmd":"press","button":"A","buttons":["B"]}"#,
        r#"{"cmd":"read-mem"}"#,
        r#"{"cmd":"read-mem","addr":"nonsense","len":1}"#,
        r#"{"cmd":"read-mem","addr":"7E:0000","len":0}"#,
        r#"{"cmd":"read-mem","addr":"7E:0000","len":99999}"#,
        r#"{"cmd":"write-mem","addr":"7E:0000"}"#,
        r#"{"cmd":"write-mem","addr":"7E:0000","hex":"abc"}"#,
        r#"{"cmd":"write-mem","addr":"7E:0000","bytes":[300]}"#,
        r#"{"cmd":"screenshot","path":""}"#,
        r#"{"cmd":"screenshot","path":7}"#,
    ] {
        assert!(req(line).is_err(), "{line} should not parse");
    }
}

#[test]
fn the_unknown_command_error_names_the_command() {
    let e = req(r#"{"cmd":"fly"}"#).unwrap_err();
    assert!(e.contains("unknown command: fly"), "{e}");
}

#[test]
fn addresses_take_the_cli_form_and_bare_hex() {
    assert_eq!(parse_addr("7E:0019").unwrap(), 0x7E_0019);
    assert_eq!(parse_addr("00:8000").unwrap(), 0x00_8000);
    assert_eq!(parse_addr("7E0019").unwrap(), 0x7E_0019);
    assert_eq!(parse_addr("0x7E0019").unwrap(), 0x7E_0019);
    assert_eq!(parse_addr("$7E:0019").unwrap(), 0x7E_0019);
    assert_eq!(format_addr(0x7E_0019), "7E:0019");
    for bad in ["", "ZZ:0000", "7E:ZZZZ", "7E00190", "hello", "7E:"] {
        assert!(parse_addr(bad).is_err(), "{bad} should not parse");
    }
}

#[test]
fn a_read_crossing_a_bank_boundary_stays_contiguous() {
    assert_eq!(step_addr(0x7E_FFFF, 1), 0x7F_0000);
    assert_eq!(step_addr(0xFF_FFFF, 1), 0x00_0000);
}

#[test]
fn the_id_is_echoed_and_the_errors_say_what_was_wrong() {
    let (id, r) = parse(r#"{"cmd":"ping","id":7}"#);
    assert_eq!(id.shown, "7");
    assert_eq!(r.unwrap(), Request::Ping);
    let (id, r) = parse(r#"{"cmd":"fly","id":"x"}"#);
    assert_eq!(id.shown, "\"x\"");
    assert_eq!(r.unwrap_err(), "unknown command: fly (try {\"cmd\":\"help\"})");
    assert_eq!(req("").unwrap_err(), "empty request line");
    assert_eq!(req("[1]").unwrap_err(), "request must be a JSON object");
    assert_eq!(req(r#"{"cmd":"step","frames":-1}"#).unwrap_err(), "\"frames\" must be a non-negative whole number, got -1");
    assert_eq!(req(r#"{"cmd":"press","button":"Turbo"}"#).unwrap_err(), "unknown button name: Turbo (known: A B X Y L R Start Select Up Down Left Right)");
    assert_eq!(req(r#"{"cmd":"read-mem","addr":"7E:0000","len":0}"#).unwrap_err(), "\"len\" must be 1..=4096, got 0");
    assert_eq!(req(r#"{"command":"step","frames":100001}"#).unwrap_err(), "\"frames\" must be <= 100000, got 100001");
}

#[test]
fn a_span_is_refused_at_its_first_mmio_byte() {
    assert_eq!(check_range(0x7E_0000, 16), Ok(()));
    assert_eq!(check_range(0x7E_0000, 0), Ok(()));
    let e = check_range(0x00_1FFE, 4).unwrap_err();
    assert!(e.starts_with("00:2000 is MMIO"), "{e}");
    // Banks $40-$7F have no MMIO window.
    assert_eq!(check_range(0x40_2000, 0x100), Ok(()));
    // The span wraps at the top of the 24-bit bus, into bank $00's window.
    assert_eq!(check_range(0xFF_FFFF, 2), Ok(()));
    assert!(check_range(0xFF_FFF0, 0x2100).is_err());
}

#[test]
fn a_line_is_routed_to_an_error_the_end_or_the_console() {
    assert!(matches!(route(parse("").1), Route::Fail(_)));
    assert!(matches!(route(parse(r#"{"cmd":"quit"}"#).1), Route::Quit));
    assert!(matches!(route(parse(r#"{"cmd":"step","frames":2}"#).1), Route::Exec(Request::Step { frames: 2 })));
}
