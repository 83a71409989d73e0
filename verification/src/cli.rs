//! The command line: the flags the emulator accepts, read into `Args`, with
//! the numbers and bus addresses they carry.

use crate::text::{chars_of, parse_radix10, parse_radix16, push_str, radix10, radix16, str_eq, find_char, first_index, lemma_first_index, sub_chars};
use vstd::prelude::*;

verus! {

/// Product name: `Prisme` is the platform, `SuperNes` the emulated console.
pub const APP_NAME: &'static str = "Prisme - SuperNes";

pub const USAGE: &'static str = "usage: prisme [rom.sfc|.smc|.zip] [flags]
  <rom> omitted, windowed mode          open a native file-open dialog to pick a ROM
  --version                             print the application name and version, then exit
  --info                                print header info and exit
  --disasm [--addr BB:AAAA] [--count N] disassemble and exit
  --headless --frames N                 emulate N frames without a window
  --dump-frame PATH.png                 write final framebuffer as PNG on exit
  --dump-frame-every N --dump-dir DIR   write DIR/frame_XXXXX.png every N frames
  --trace PATH [--trace-start-frame A --trace-end-frame B]
  --trace-spc PATH                      SPC700 trace, same bounds
  --trace-gsu PATH                      GSU/SuperFX trace, same bounds (needs a SuperFX cart)
  --trace-sa1 PATH                      SA-1 65C816 trace, same bounds (needs an SA-1 cart)
  --log-mmio                            log named MMIO writes to stderr
  --watch BB:AAAA                       log every read/write at a bus address
  --script PATH                         input script: <frame> <button> <held>
  --dump-state DIR                      dump wram/vram/cgram/oam/apuram on exit
  --dump-audio PATH.wav                 headless: write 32kHz 16-bit stereo WAV
  --dump-spc PATH.spc                   write the APU state as an .spc music file on exit
  --save PATH                           battery SRAM file (default: <rom>.srm)
  --load-state FILE                     headless: load a save-state before frame 0
  --save-state-at FRAME FILE            headless: write a save-state after FRAME";

/// What the command line asked for.
#[derive(Debug, Clone, PartialEq, Eq)]
pub struct Args {
    pub rom: Option<String>,
    pub info: bool,
    pub version: bool,
    pub disasm: bool,
    pub addr: Option<(u8, u16)>,
    pub count: u32,
    pub headless: bool,
    pub frames: u32,
    pub dump_frame: Option<String>,
    pub dump_frame_every: Option<u32>,
    pub dump_dir: Option<String>,
    pub trace: Option<String>,
    pub trace_spc: Option<String>,
    pub trace_gsu: Option<String>,
    pub trace_sa1: Option<String>,
    pub trace_start_frame: u32,
    pub trace_end_frame: u32,
    pub log_mmio: bool,
    pub watch: Vec<(u8, u16)>,
    pub script: Option<String>,
    pub dump_state: Option<String>,
    pub dump_audio: Option<String>,
    pub save: Option<String>,
    pub save_state_at: Option<(u32, String)>,
    pub load_state: Option<String>,
    pub dump_spc: Option<String>,
}

/// `Args` with its text as character sequences.
pub struct ArgsView {
    pub rom: Option<Seq<char>>,
    pub info: bool,
    pub version: bool,
    pub disasm: bool,
    pub addr: Option<(u8, u16)>,
    pub count: u32,
    pub headless: bool,
    pub frames: u32,
    pub dump_frame: Option<Seq<char>>,
    pub dump_frame_every: Option<u32>,
    pub dump_dir: Option<Seq<char>>,
    pub trace: Option<Seq<char>>,
    pub trace_spc: Option<Seq<char>>,
    pub trace_gsu: Option<Seq<char>>,
    pub trace_sa1: Option<Seq<char>>,
    pub trace_start_frame: u32,
    pub trace_end_frame: u32,
    pub log_mmio: bool,
    pub watch: Seq<(u8, u16)>,
    pub script: Option<Seq<char>>,
    pub dump_state: Option<Seq<char>>,
    pub dump_audio: Option<Seq<char>>,
    pub save: Option<Seq<char>>,
    pub save_state_at: Option<(u32, Seq<char>)>,
    pub load_state: Option<Seq<char>>,
    pub dump_spc: Option<Seq<char>>,
}

pub open spec fn text_opt(o: Option<String>) -> Option<Seq<char>> {
    match o {
        Some(s) => Some(s@),
        None => None,
    }
}

impl View for Args {
    type V = ArgsView;

    open spec fn view(&self) -> ArgsView {
        ArgsView {
            rom: text_opt(self.rom),
            info: self.info,
            version: self.version,
            disasm: self.disasm,
            addr: self.addr,
            count: self.count,
            headless: self.headless,
            frames: self.frames,
            dump_frame: text_opt(self.dump_frame),
            dump_frame_every: self.dump_frame_every,
            dump_dir: text_opt(self.dump_dir),
            trace: text_opt(self.trace),
            trace_spc: text_opt(self.trace_spc),
            trace_gsu: text_opt(self.trace_gsu),
            trace_sa1: text_opt(self.trace_sa1),
            trace_start_frame: self.trace_start_frame,
            trace_end_frame: self.trace_end_frame,
            log_mmio: self.log_mmio,
            watch: self.watch@,
            script: text_opt(self.script),
            dump_state: text_opt(self.dump_state),
            dump_audio: text_opt(self.dump_audio),
            save: text_opt(self.save),
            save_state_at: match self.save_state_at {
                Some((f, p)) => Some((f, p@)),
                None => None,
            },
            load_state: text_opt(self.load_state),
            dump_spc: text_opt(self.dump_spc),
        }
    }
}

/// The arguments before any flag is read: 30 instructions to disassemble,
/// one frame, a trace window open to the end.
pub open spec fn initial_args() -> ArgsView {
    ArgsView {
        rom: None,
        info: false,
        version: false,
        disasm: false,
        addr: None,
        count: 30,
        headless: false,
        frames: 1,
        dump_frame: None,
        dump_frame_every: None,
        dump_dir: None,
        trace: None,
        trace_spc: None,
        trace_gsu: None,
        trace_sa1: None,
        trace_start_frame: 0,
        trace_end_frame: 0xFFFF_FFFF,
        log_mmio: false,
        watch: Seq::empty(),
        script: None,
        dump_state: None,
        dump_audio: None,
        save: None,
        save_state_at: None,
        load_state: None,
        dump_spc: None,
    }
}

/// `u32::from_str`, with the message the command line prints.
pub open spec fn spec_parse_num(s: Seq<char>) -> Result<u32, Seq<char>> {
    match radix10(s, 0xFFFF_FFFF) {
        Some(v) => Ok(v as u32),
        None => Err("invalid number: "@ + s),
    }
}

/// `BB:AAAA`: hex bank, `:`, hex 16-bit offset (split at the first `:`).
pub open spec fn spec_parse_bus_addr(s: Seq<char>) -> Result<(u8, u16), Seq<char>> {
    if !s.contains(':') {
        Err("expected BB:AAAA, got "@ + s)
    } else {
        let k = first_index(s, ':');
        match radix16(s.take(k), 255) {
            None => Err("bad bank in "@ + s),
            Some(b) => match radix16(s.skip(k + 1), 65535) {
                None => Err("bad address in "@ + s),
                Some(o) => Ok((b as u8, o as u16)),
            },
        }
    }
}

/// The value after a flag, or the message naming the flag.
pub open spec fn value_at(args: Seq<Seq<char>>, i: int) -> Result<Seq<char>, Seq<char>> {
    if i + 1 < args.len() {
        Ok(args[i + 1])
    } else {
        Err(args[i] + " requires a value"@)
    }
}

pub open spec fn is_switch(f: Seq<char>) -> bool {
    f == "--version"@ || f == "-V"@ || f == "--info"@ || f == "--disasm"@ || f == "--headless"@
        || f == "--log-mmio"@
}

/// A flag that takes no value.
pub open spec fn with_switch(f: Seq<char>, a: ArgsView) -> ArgsView {
    if f == "--version"@ || f == "-V"@ {
        ArgsView { version: true, ..a }
    } else if f == "--info"@ {
        ArgsView { info: true, ..a }
    } else if f == "--disasm"@ {
        ArgsView { disasm: true, ..a }
    } else if f == "--headless"@ {
        ArgsView { headless: true, ..a }
    } else {
        ArgsView { log_mmio: true, ..a }
    }
}

pub open spec fn is_path_flag(f: Seq<char>) -> bool {
    f == "--dump-frame"@ || f == "--dump-dir"@ || f == "--trace"@ || f == "--trace-spc"@
        || f == "--trace-gsu"@ || f == "--trace-sa1"@ || f == "--script"@ || f == "--dump-state"@
        || f == "--dump-audio"@ || f == "--dump-spc"@ || f == "--save"@ || f == "--load-state"@
}

/// A flag whose value is a path.
pub open spec fn with_path(f: Seq<char>, v: Seq<char>, a: ArgsView) -> ArgsView {
    if f == "--dump-frame"@ {
        ArgsView { dump_frame: Some(v), ..a }
    } else if f == "--dump-dir"@ {
        ArgsView { dump_dir: Some(v), ..a }
    } else if f == "--trace"@ {
        ArgsView { trace: Some(v), ..a }
    } else if f == "--trace-spc"@ {
        ArgsView { trace_spc: Some(v), ..a }
    } else if f == "--trace-gsu"@ {
        ArgsView { trace_gsu: Some(v), ..a }
    } else if f == "--trace-sa1"@ {
        ArgsView { trace_sa1: Some(v), ..a }
    } else if f == "--script"@ {
        ArgsView { script: Some(v), ..a }
    } else if f == "--dump-state"@ {
        ArgsView { dump_state: Some(v), ..a }
    } else if f == "--dump-audio"@ {
        ArgsView { dump_audio: Some(v), ..a }
    } else if f == "--dump-spc"@ {
        ArgsView { dump_spc: Some(v), ..a }
    } else if f == "--save"@ {
        ArgsView { save: Some(v), ..a }
    } else {
        ArgsView { load_state: Some(v), ..a }
    }
}

pub open spec fn is_number_flag(f: Seq<char>) -> bool {
    f == "--count"@ || f == "--frames"@ || f == "--dump-frame-every"@ || f == "--trace-start-frame"@
        || f == "--trace-end-frame"@
}

/// A flag whose value is a number.
pub open spec fn with_number(f: Seq<char>, n: u32, a: ArgsView) -> ArgsView {
    if f == "--count"@ {
        ArgsView { count: n, ..a }
    } else if f == "--frames"@ {
        ArgsView { frames: n, ..a }
    } else if f == "--dump-frame-every"@ {
        ArgsView { dump_frame_every: Some(n), ..a }
    } else if f == "--trace-start-frame"@ {
        ArgsView { trace_start_frame: n, ..a }
    } else {
        ArgsView { trace_end_frame: n, ..a }
    }
}

pub open spec fn starts_flag(f: Seq<char>) -> bool {
    f.len() >= 2 && f[0] == '-' && f[1] == '-'
}

/// What the argument at `i` does: how many values after it it took, and the
/// arguments it leaves; or why the command line is refused.
pub open spec fn arg_step(args: Seq<Seq<char>>, i: int, a: ArgsView) -> Result<(nat, ArgsView), Seq<char>> {
    let f = args[i];
    if is_switch(f) {
        Ok((0, with_switch(f, a)))
    } else if f == "--addr"@ || f == "--watch"@ {
        match value_at(args, i) {
            Err(e) => Err(e),
            Ok(v) => match spec_parse_bus_addr(v) {
                Err(e) => Err(e),
                Ok(p) => if f == "--addr"@ {
                    Ok((1, ArgsView { addr: Some(p), ..a }))
                } else {
                    Ok((1, ArgsView { watch: a.watch.push(p), ..a }))
                },
            },
        }
    } else if is_number_flag(f) {
        match value_at(args, i) {
            Err(e) => Err(e),
            Ok(v) => match spec_parse_num(v) {
                Err(e) => Err(e),
                Ok(n) => Ok((1, with_number(f, n, a))),
            },
        }
    } else if is_path_flag(f) {
        match value_at(args, i) {
            Err(e) => Err(e),
            Ok(v) => Ok((1, with_path(f, v, a))),
        }
    } else if f == "--save-state-at"@ {
        match value_at(args, i) {
            Err(e) => Err(e),
            Ok(v) => match spec_parse_num(v) {
                Err(e) => Err(e),
                Ok(n) => match value_at(args, i + 1) {
                    Err(_) => Err(f + " requires a value"@),
                    Ok(file) => Ok((2, ArgsView { save_state_at: Some((n, file)), ..a })),
                },
            },
        }
    } else if f == "--help"@ || f == "-h"@ {
        Err("help requested"@)
    } else if starts_flag(f) {
        Err("unknown flag: "@ + f)
    } else if a.rom is Some {
        Err("unexpected positional argument: "@ + f)
    } else {
        Ok((0, ArgsView { rom: Some(f), ..a }))
    }
}

/// The arguments from position `i` on, read into `a`; then the one check
/// made of the whole: `--headless` needs a ROM unless `--version` is asked.
pub open spec fn args_from(args: Seq<Seq<char>>, i: int, a: ArgsView) -> Result<ArgsView, Seq<char>>
    decreases args.len() - i,
{
    if i < 0 || i >= args.len() {
        if a.rom is None && a.headless && !a.version {
            Err("no ROM path given"@)
        } else {
            Ok(a)
        }
    } else {
        match arg_step(args, i, a) {
            Err(e) => Err(e),
            Ok((n, b)) => args_from(args, i + 1 + n, b),
        }
    }
}

pub open spec fn arg_texts(args: Seq<String>) -> Seq<Seq<char>> {
    args.map_values(|s: String| s@)
}

pub open spec fn spec_parse_args(args: Seq<Seq<char>>) -> Result<ArgsView, Seq<char>> {
    args_from(args, 0, initial_args())
}

/// Parse a decimal `u32`.
pub fn parse_num(s: &str) -> (r: Result<u32, String>)
    ensures
        match r {
            Ok(n) => spec_parse_num(s@) == Ok::<u32, Seq<char>>(n),
            Err(e) => spec_parse_num(s@) == Err::<u32, Seq<char>>(e@),
        },
{
    let v = chars_of(s);
    match parse_radix10(v.as_slice(), 0xFFFF_FFFF) {
        Some(n) => Ok(n),
        None => {
            proof {
                reveal_strlit("invalid number: ");
            }
            let mut e = String::from_str("invalid number: ");
            push_str(&mut e, s);
            Err(e)
        },
    }
}

/// Parse `BB:AAAA` (hex bank : hex 16-bit address).
pub fn parse_bus_addr(s: &str) -> (r: Result<(u8, u16), String>)
    ensures
        match r {
            Ok(p) => spec_parse_bus_addr(s@) == Ok::<(u8, u16), Seq<char>>(p),
            Err(e) => spec_parse_bus_addr(s@) == Err::<(u8, u16), Seq<char>>(e@),
        },
{
    let v = chars_of(s);
    let k = find_char(v.as_slice(), ':');
    proof {
        lemma_first_index(v@, ':');
    }
    if k >= v.len() {
        proof {
            reveal_strlit("expected BB:AAAA, got ");
        }
        let mut e = String::from_str("expected BB:AAAA, got ");
        push_str(&mut e, s);
        return Err(e);
    }
    let bank = sub_chars(v.as_slice(), 0, k);
    let off = sub_chars(v.as_slice(), k + 1, v.len());
    assert(bank@ =~= v@.take(k as int));
    assert(off@ =~= v@.skip(k + 1));
    match parse_radix16(bank.as_slice(), 255) {
        None => {
            proof {
                reveal_strlit("bad bank in ");
            }
            let mut e = String::from_str("bad bank in ");
            push_str(&mut e, s);
            Err(e)
        },
        Some(b) => match parse_radix16(off.as_slice(), 65535) {
            None => {
                proof {
                    reveal_strlit("bad address in ");
                }
                let mut e = String::from_str("bad address in ");
                push_str(&mut e, s);
                Err(e)
            },
            Some(o) => Ok((b as u8, o as u16)),
        },
    }
}

fn is_switch_exec(f: &str) -> (r: bool)
    ensures
        r == is_switch(f@),
{
    str_eq(f, "--version") || str_eq(f, "-V") || str_eq(f, "--info") || str_eq(f, "--disasm")
        || str_eq(f, "--headless") || str_eq(f, "--log-mmio")
}

fn is_path_flag_exec(f: &str) -> (r: bool)
    ensures
        r == is_path_flag(f@),
{
    str_eq(f, "--dump-frame") || str_eq(f, "--dump-dir") || str_eq(f, "--trace") || str_eq(f, "--trace-spc")
        || str_eq(f, "--trace-gsu") || str_eq(f, "--trace-sa1") || str_eq(f, "--script") || str_eq(
        f,
        "--dump-state",
    ) || str_eq(f, "--dump-audio") || str_eq(f, "--dump-spc") || str_eq(f, "--save") || str_eq(f, "--load-state")
}

fn is_number_flag_exec(f: &str) -> (r: bool)
    ensures
        r == is_number_flag(f@),
{
    str_eq(f, "--count") || str_eq(f, "--frames") || str_eq(f, "--dump-frame-every") || str_eq(
        f,
        "--trace-start-frame",
    ) || str_eq(f, "--trace-end-frame")
}

fn apply_switch(f: &str, a: &mut Args)
    ensures
        final(a)@ == with_switch(f@, old(a)@),
{
    if str_eq(f, "--version") || str_eq(f, "-V") {
        a.version = true;
    } else if str_eq(f, "--info") {
        a.info = true;
    } else if str_eq(f, "--disasm") {
        a.disasm = true;
    } else if str_eq(f, "--headless") {
        a.headless = true;
    } else {
        a.log_mmio = true;
    }
}

fn apply_number(f: &str, n: u32, a: &mut Args)
    ensures
        final(a)@ == with_number(f@, n, old(a)@),
{
    if str_eq(f, "--count") {
        a.count = n;
    } else if str_eq(f, "--frames") {
        a.frames = n;
    } else if str_eq(f, "--dump-frame-every") {
        a.dump_frame_every = Some(n);
    } else if str_eq(f, "--trace-start-frame") {
        a.trace_start_frame = n;
    } else {
        a.trace_end_frame = n;
    }
}

fn apply_path(f: &str, v: String, a: &mut Args)
    ensures
        final(a)@ == with_path(f@, v@, old(a)@),
{
    if str_eq(f, "--dump-frame") {
        a.dump_frame = Some(v);
    } else if str_eq(f, "--dump-dir") {
        a.dump_dir = Some(v);
    } else if str_eq(f, "--trace") {
        a.trace = Some(v);
    } else if str_eq(f, "--trace-spc") {
        a.trace_spc = Some(v);
    } else if str_eq(f, "--trace-gsu") {
        a.trace_gsu = Some(v);
    } else if str_eq(f, "--trace-sa1") {
        a.trace_sa1 = Some(v);
    } else if str_eq(f, "--script") {
        a.script = Some(v);
    } else if str_eq(f, "--dump-state") {
        a.dump_state = Some(v);
    } else if str_eq(f, "--dump-audio") {
        a.dump_audio = Some(v);
    } else if str_eq(f, "--dump-spc") {
        a.dump_spc = Some(v);
    } else if str_eq(f, "--save") {
        a.save = Some(v);
    } else {
        a.load_state = Some(v);
    }
}

fn value_of(args: &[String], i: usize) -> (r: Result<String, String>)
    requires
        i < args@.len(),
    ensures
        match r {
            Ok(v) => value_at(arg_texts(args@), i as int) == Ok::<Seq<char>, Seq<char>>(v@),
            Err(e) => value_at(arg_texts(args@), i as int) == Err::<Seq<char>, Seq<char>>(e@),
        },
{
    if i < args.len() - 1 {
        Ok(args[i + 1].clone())
    } else {
        let mut e = args[i].clone();
        push_str(&mut e, " requires a value");
        Err(e)
    }
}

fn starts_flag_exec(f: &str) -> (r: bool)
    ensures
        r == starts_flag(f@),
{
    let v = chars_of(f);
    v.len() >= 2 && v[0] == '-' && v[1] == '-'
}

/// Read the argument at `i` into `a` (see `arg_step`).
fn read_arg(args: &[String], i: usize, a: &mut Args) -> (r: Result<usize, String>)
    requires
        i < args@.len(),
    ensures
        match r {
            Ok(n) => arg_step(arg_texts(args@), i as int, old(a)@) == Ok::<(nat, ArgsView), Seq<char>>(
                (n as nat, final(a)@),
            ),
            Err(e) => arg_step(arg_texts(args@), i as int, old(a)@) == Err::<(nat, ArgsView), Seq<char>>(e@),
        },
        r matches Ok(n) ==> i + 1 + n <= args@.len(),
{
    let ghost t = arg_texts(args@);
    let f = args[i].as_str();
    assert(t[i as int] == f@);
    if is_switch_exec(f) {
        apply_switch(f, a);
        return Ok(0);
    }
    if str_eq(f, "--addr") || str_eq(f, "--watch") {
        let v = value_of(args, i)?;
        let p = parse_bus_addr(v.as_str())?;
        if str_eq(f, "--addr") {
            a.addr = Some(p);
        } else {
            a.watch.push(p);
        }
        return Ok(1);
    }
    if is_number_flag_exec(f) {
        let v = value_of(args, i)?;
        let n = parse_num(v.as_str())?;
        apply_number(f, n, a);
        return Ok(1);
    }
    if is_path_flag_exec(f) {
        let v = value_of(args, i)?;
        apply_path(f, v, a);
        return Ok(1);
    }
    if str_eq(f, "--save-state-at") {
        let v = value_of(args, i)?;
        let n = parse_num(v.as_str())?;
        if args.len() - i > 2 {
            a.save_state_at = Some((n, args[i + 2].clone()));
            return Ok(2);
        } else {
            let mut e = String::from_str(f);
            push_str(&mut e, " requires a value");
            return Err(e);
        }
    }
    if str_eq(f, "--help") || str_eq(f, "-h") {
        return Err(String::from_str("help requested"));
    }
    if starts_flag_exec(f) {
        let mut e = String::from_str("unknown flag: ");
        push_str(&mut e, f);
        return Err(e);
    }
    if a.rom.is_some() {
        let mut e = String::from_str("unexpected positional argument: ");
        push_str(&mut e, f);
        return Err(e);
    }
    a.rom = Some(args[i].clone());
    Ok(0)
}

/// Read the command line (the arguments after the program name) into
/// `Args`, or say why it is refused (see `args_from`).
pub fn parse_args(args: &[String]) -> (r: Result<Args, String>)
    ensures
        match r {
            Ok(a) => spec_parse_args(arg_texts(args@)) == Ok::<ArgsView, Seq<char>>(a@),
            Err(e) => spec_parse_args(arg_texts(args@)) == Err::<ArgsView, Seq<char>>(e@),
        },
{
    let mut a = Args {
        rom: None,
        info: false,
        version: false,
        disasm: false,
        addr: None,
        count: 30,
        headless: false,
        frames: 1,
        dump_frame: None,
        dump_frame_every: None,
        dump_dir: None,
        trace: None,
        trace_spc: None,
        trace_gsu: None,
        trace_sa1: None,
        trace_start_frame: 0,
        trace_end_frame: u32::MAX,
        log_mmio: false,
        watch: Vec::new(),
        script: None,
        dump_state: None,
        dump_audio: None,
        save: None,
        save_state_at: None,
        load_state: None,
        dump_spc: None,
    };
    let ghost t = arg_texts(args@);
    assert(a@ == initial_args());
    let mut i: usize = 0;
    while i < args.len()
        invariant
            t == arg_texts(args@),
            i <= args@.len(),
            args_from(t, i as int, a@) == spec_parse_args(t),
        decreases args@.len() - i,
    {
        let n = read_arg(args, i, &mut a)?;
        i = i + 1 + n;
    }
    if a.rom.is_none() && a.headless && !a.version {
        return Err(String::from_str("no ROM path given"));
    }
    Ok(a)
}

} // verus!
