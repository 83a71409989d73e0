use prisme::cli::{parse_args, parse_bus_addr, parse_num, APP_NAME, USAGE};

fn args(v: &[&str]) -> Vec<String> {
    v.iter().map(|s| s.to_string()).collect()
}

#[test]
fn version_flag_parses_without_a_rom() {
    for flag in ["--version", "-V"] {
        let parsed = parse_args(&args(&[flag])).expect(flag);
        assert!(parsed.version);
        assert!(parsed.rom.is_none());
    }
    // Also accepted alongside --headless, which normally requires a ROM.
    assert!(parse_args(&args(&["--headless", "--version"])).expect("--headless --version").version);
}

#[test]
fn dump_spc_flag_parses() {
    let parsed = parse_args(&args(&["rom.sfc", "--dump-spc", "out.spc"])).expect("parse");
    assert_eq!(parsed.dump_spc, Some("out.spc".to_string()));
    // A missing value is an error, not a silent default.
    assert!(parse_args(&args(&["--dump-spc"])).is_err());
}

#[test]
fn the_defaults_hold_until_a_flag_changes_them() {
    let a = parse_args(&args(&["game.sfc"])).expect("parse");
    assert_eq!(a.rom.as_deref(), Some("game.sfc"));
    assert_eq!((a.count, a.frames, a.trace_start_frame, a.trace_end_frame), (30, 1, 0, u32::MAX));
    assert!(!a.headless && !a.info && !a.disasm && !a.log_mmio && !a.version);
    assert!(a.watch.is_empty() && a.save_state_at.is_none() && a.addr.is_none());
}

#[test]
fn every_kind_of_flag_is_read() {
    let a = parse_args(&args(&[
        "--headless", "g.sfc", "--frames", "+600", "--addr", "80:8000", "--watch", "7E:0010", "--watch",
        "7e:0011", "--save-state-at", "120", "s.state", "--trace", "t.log", "--trace-end-frame", "9",
        "--dump-frame-every", "60", "--log-mmio",
    ]))
    .expect("parse");
    assert!(a.headless && a.log_mmio);
    assert_eq!(a.frames, 600);
    assert_eq!(a.addr, Some((0x80, 0x8000)));
    assert_eq!(a.watch, vec![(0x7E, 0x0010), (0x7E, 0x0011)]);
    assert_eq!(a.save_state_at, Some((120, "s.state".to_string())));
    assert_eq!(a.trace.as_deref(), Some("t.log"));
    assert_eq!(a.trace_end_frame, 9);
    assert_eq!(a.dump_frame_every, Some(60));
}

#[test]
fn a_refused_command_line_says_why() {
    assert_eq!(parse_args(&args(&["--headless"])), Err("no ROM path given".to_string()));
    assert_eq!(parse_args(&args(&["--help"])), Err("help requested".to_string()));
    assert_eq!(parse_args(&args(&["-h"])), Err("help requested".to_string()));
    assert_eq!(parse_args(&args(&["--turbo"])), Err("unknown flag: --turbo".to_string()));
    assert_eq!(
        parse_args(&args(&["a.sfc", "b.sfc"])),
        Err("unexpected positional argument: b.sfc".to_string())
    );
    assert_eq!(parse_args(&args(&["--frames"])), Err("--frames requires a value".to_string()));
    assert_eq!(parse_args(&args(&["--frames", "ten"])), Err("invalid number: ten".to_string()));
    assert_eq!(
        parse_args(&args(&["--save-state-at", "5"])),
        Err("--save-state-at requires a value".to_string())
    );
    assert_eq!(parse_args(&args(&["--addr", "8000"])), Err("expected BB:AAAA, got 8000".to_string()));
    // A single dash is not a flag: it is the ROM path.
    assert_eq!(parse_args(&args(&["-x"])).expect("positional").rom.as_deref(), Some("-x"));
    // An empty command line opens the picker: no error.
    assert!(parse_args(&[]).is_ok());
}

#[test]
fn numbers_and_bus_addresses_are_read_like_the_standard_parsers() {
    assert_eq!(parse_num("0"), Ok(0));
    assert_eq!(parse_num("+7"), Ok(7));
    assert_eq!(parse_num("4294967295"), Ok(u32::MAX));
    assert_eq!(parse_num("4294967296"), Err("invalid number: 4294967296".to_string()));
    assert_eq!(parse_num("-1"), Err("invalid number: -1".to_string()));
    assert_eq!(parse_num(""), Err("invalid number: ".to_string()));
    assert_eq!(parse_num("+"), Err("invalid number: +".to_string()));
    assert_eq!(parse_bus_addr("7E:1234"), Ok((0x7E, 0x1234)));
    assert_eq!(parse_bus_addr("+0:+ff"), Ok((0, 0xFF)));
    assert_eq!(parse_bus_addr("100:0000"), Err("bad bank in 100:0000".to_string()));
    assert_eq!(parse_bus_addr("7E:10000"), Err("bad address in 7E:10000".to_string()));
    assert_eq!(parse_bus_addr("7E:12:34"), Err("bad address in 7E:12:34".to_string()));
    assert_eq!(parse_bus_addr(":1"), Err("bad bank in :1".to_string()));
}

#[test]
fn the_usage_names_the_program_and_its_flags() {
    assert!(USAGE.starts_with("usage: prisme"));
    assert!(USAGE.contains("--save-state-at FRAME FILE"));
    assert_eq!(APP_NAME, "Prisme - SuperNes");
}
