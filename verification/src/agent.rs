//! Bus addresses as the control channel and the cheat files write them:
//! parsing (`BB:AAAA`, or up to six bare hex digits, with an optional `0x` or
//! `$` prefix), spelling, stepping across banks, and the refusal of the MMIO
//! window of the system banks.

use crate::text::{
    all_hex, chars_of, find_char, first_index, fixed, fixed_digits, hex_num, hex_val,
    lemma_first_index, lemma_hex_num_bound, parse_radix16, pow16, push_chars, push_str, radix16,
    string_of, sub_chars, trim_chars, trimmed,
};
use crate::text::str_eq;
use vstd::prelude::*;

verus! {

/// The address text once trimmed and stripped of a `0x` or `$` prefix.
pub open spec fn addr_body(s: Seq<char>) -> Seq<char> {
    let t = trimmed(s);
    if t.len() >= 2 && t[0] == '0' && t[1] == 'x' {
        t.skip(2)
    } else if t.len() >= 1 && t[0] == '$' {
        t.skip(1)
    } else {
        t
    }
}

/// The address `s` names: `BB:AAAA` (hex bank, hex 16-bit offset), or a bare
/// hex number of 1 to 6 digits. `None` when it names none.
pub open spec fn spec_parse_addr(s: Seq<char>) -> Option<u32> {
    let u = addr_body(s);
    if u.contains(':') {
        let k = first_index(u, ':');
        match (radix16(u.take(k), 255), radix16(u.skip(k + 1), 65535)) {
            (Some(b), Some(o)) => Some((b * 65536 + o) as u32),
            _ => None,
        }
    } else if u.len() == 0 || u.len() > 6 || !all_hex(u) {
        None
    } else {
        Some(hex_num(u) as u32)
    }
}

/// `BB:AAAA`: the bank and the offset in uppercase hex.
pub open spec fn spec_format_addr(addr: u32) -> Seq<char> {
    fixed_digits(((addr / 65536) % 256) as nat, 16, 2) + seq![':'] + fixed_digits((addr % 65536) as nat, 16, 4)
}

/// Byte `i` of a span starting at `addr`: consecutive on the 24-bit bus,
/// wrapping at the top of the address space.
pub open spec fn spec_step_addr(addr: u32, i: u32) -> u32 {
    ((addr + i) % 0x1000000) as u32
}

/// The I/O window $2000-$5FFF of the system banks $00-$3F and $80-$BF.
pub open spec fn is_mmio(addr: u32) -> bool {
    let bank = (addr / 65536) % 256;
    let off = addr % 65536;
    (bank <= 0x3F || (0x80 <= bank <= 0xBF)) && 0x2000 <= off <= 0x5FFF
}

/// Parse a bus address; the error names the text that was refused.
pub fn parse_addr(s: &str) -> (r: Result<u32, String>)
    ensures
        r is Ok <==> spec_parse_addr(s@) is Some,
        r is Ok ==> r->Ok_0 == spec_parse_addr(s@)->0,
        r is Err ==> r->Err_0@.len() > 0,
{
    let v = chars_of(s);
    let t = trim_chars(v.as_slice());
    let start: usize = if t.len() >= 2 && t[0] == '0' && t[1] == 'x' {
        2
    } else if t.len() >= 1 && t[0] == '$' {
        1
    } else {
        0
    };
    let u = sub_chars(t.as_slice(), start, t.len());
    assert(u@ =~= addr_body(s@));
    let k = find_char(u.as_slice(), ':');
    proof {
        lemma_first_index(u@, ':');
    }
    if k < u.len() {
        let bank = sub_chars(u.as_slice(), 0, k);
        let off = sub_chars(u.as_slice(), k + 1, u.len());
        assert(bank@ =~= u@.take(k as int));
        assert(off@ =~= u@.skip(k + 1));
        let b = parse_radix16(bank.as_slice(), 255);
        let o = parse_radix16(off.as_slice(), 65535);
        match (b, o) {
            (Some(b), Some(o)) => {
                proof {
                    crate::bits::lemma_u32_bits();
                }
                Ok((b << 16) | o)
            },
            (None, _) => {
                proof {
                    reveal_strlit("bad bank in ");
                }
                let mut e = String::from_str("bad bank in ");
                push_chars(&mut e, u.as_slice());
                Err(e)
            },
            (_, None) => {
                proof {
                    reveal_strlit("bad address in ");
                }
                let mut e = String::from_str("bad address in ");
                push_chars(&mut e, u.as_slice());
                Err(e)
            },
        }
    } else {
        if u.len() > 0 && u.len() <= 6 && u[0] != '+' {
            match parse_radix16(u.as_slice(), 0xFF_FFFF) {
                Some(a) => {
                    return Ok(a);
                },
                None => {
                    proof {
                        if all_hex(u@) {
                            lemma_hex_num_bound(u@);
                            assert(pow16(u@.len()) <= 0x100_0000) by {
                                reveal_with_fuel(pow16, 7);
                            }
                        }
                    }
                },
            }
        } else {
            proof {
                if u@.len() > 0 && u@[0] == '+' {
                    assert(hex_val(u@[0]) is None);
                }
            }
        }
        proof {
            reveal_strlit("expected BB:AAAA or up to 6 hex digits, got \"");
        }
        let mut e = String::from_str("expected BB:AAAA or up to 6 hex digits, got \"");
        push_chars(&mut e, u.as_slice());
        push_str(&mut e, "\"");
        Err(e)
    }
}

/// `BB:AAAA`, the spelling the rest of the command line uses.
pub fn format_addr(addr: u32) -> (r: String)
    ensures
        r@ == spec_format_addr(addr),
{
    proof {
        crate::bits::lemma_u32_bits();
    }
    let mut v = fixed(((addr >> 16) & 0xFF) as u64, 16, 2);
    v.push(':');
    let w = fixed((addr & 0xFFFF) as u64, 16, 4);
    let mut r = string_of(v.as_slice());
    push_chars(&mut r, w.as_slice());
    assert(r@ =~= spec_format_addr(addr));
    r
}

/// Byte `i` of a span starting at `addr`, on the 24-bit bus.
pub fn step_addr(addr: u32, i: u32) -> (r: u32)
    ensures
        r == spec_step_addr(addr, i),
{
    proof {
        crate::bits::lemma_u32_bits();
    }
    addr.wrapping_add(i) & 0x00FF_FFFF
}

/// Refuse the MMIO window of the system banks.
pub fn check_addr(addr: u32) -> (r: Result<(), String>)
    ensures
        r is Err <==> is_mmio(addr),
        r matches Err(e) ==> e@ == spec_format_addr(addr) + " is MMIO: reading or writing it from the agent channel would perturb the console (use WRAM 7E:0000-7F:FFFF)"@,
{
    proof {
        crate::bits::lemma_u32_bits();
    }
    let bank = (addr >> 16) as u8;
    let off = addr as u16;
    let system_bank = bank <= 0x3F || (0x80 <= bank && bank <= 0xBF);
    if system_bank && 0x2000 <= off && off <= 0x5FFF {
        let mut e = format_addr(addr);
        push_str(
            &mut e,
            " is MMIO: reading or writing it from the agent channel would perturb the console (use WRAM 7E:0000-7F:FFFF)",
        );
        return Err(e);
    }
    Ok(())
}


// --- the control channel's requests --------------------------------------

/// Largest `read-mem` / `write-mem` payload.
pub const MAX_MEM_LEN: u32 = 4096;

/// The first byte of the span `addr`, `len` bytes long, that falls in the
/// MMIO window, if any.
pub open spec fn first_mmio(addr: u32, len: u32, i: int) -> Option<u32>
    decreases len - i,
{
    if i < 0 || i >= len {
        None
    } else if is_mmio(spec_step_addr(addr, i as u32)) {
        Some(spec_step_addr(addr, i as u32))
    } else {
        first_mmio(addr, len, i + 1)
    }
}

/// Refuse a span of `len` bytes from `addr` that touches the MMIO window:
/// the error names its first such byte.
pub fn check_range(addr: u32, len: u32) -> (r: Result<(), String>)
    ensures
        r is Ok <==> first_mmio(addr, len, 0) is None,
        r matches Err(e) ==> e@ == spec_format_addr(first_mmio(addr, len, 0)->0) + " is MMIO: reading or writing it from the agent channel would perturb the console (use WRAM 7E:0000-7F:FFFF)"@,
{
    let mut i: u32 = 0;
    while i < len
        invariant
            i <= len,
            first_mmio(addr, len, 0) == first_mmio(addr, len, i as int),
        decreases len - i,
    {
        let a = step_addr(addr, i);
        if let Err(e) = check_addr(a) {
            return Err(e);
        }
        i = i + 1;
    }
    Ok(())
}

/// Largest `step` / `press` burst.
pub const MAX_FRAMES: u32 = 100000;

/// A JSON value as the request reader sees it: its JSON text, and what it
/// holds (a number only as the whole number it is, when it is one that fits
/// in `u64`).
#[derive(Debug)]
pub struct Json {
    pub shown: String,
    pub node: JsonNode,
}

#[derive(Debug)]
pub enum JsonNode {
    Null,
    Bool(bool),
    Number(Option<u64>),
    Str(String),
    Array(Vec<Json>),
    Object(Vec<(String, Json)>),
}

#[verifier::external_type_specification]
#[verifier::external_body]
pub struct ExJsonValue(serde_json::Value);

/// What `serde_json::from_str::<Value>` makes of a text, when it parses.
pub uninterp spec fn json_parsed(text: Seq<char>) -> Option<Json>;

/// Calls `serde_json::from_str` into a `serde_json::Value` and hands the
/// value over as a `Json`; the parse and its error text are not stated.
#[verifier::external_body]
pub(crate) fn parse_json(text: &str) -> (r: Result<Json, String>)
    ensures
        r matches Ok(j) ==> json_parsed(text@) == Some(j),
        r is Err ==> json_parsed(text@) is None,
{
    match serde_json::from_str::<serde_json::Value>(text) {
        Ok(v) => Ok(json_from_value(&v)),
        Err(e) => Err(e.to_string()),
    }
}

/// Moves a `serde_json::Value` into the library's `Json`, one variant for
/// one variant; nothing is stated of it.
#[verifier::external_body]
fn json_from_value(v: &serde_json::Value) -> Json {
    let node = match v {
        serde_json::Value::Null => JsonNode::Null,
        serde_json::Value::Bool(b) => JsonNode::Bool(*b),
        serde_json::Value::Number(n) => JsonNode::Number(n.as_u64()),
        serde_json::Value::String(s) => JsonNode::Str(s.clone()),
        serde_json::Value::Array(a) => JsonNode::Array(a.iter().map(json_from_value).collect()),
        serde_json::Value::Object(o) => JsonNode::Object(o.iter().map(|(k, x)| (k.clone(), json_from_value(x))).collect()),
    };
    Json { shown: v.to_string(), node }
}

/// One line of the protocol, as understood after parsing.
#[derive(Debug, Clone, PartialEq, Eq)]
pub enum Request {
    Step { frames: u32 },
    Press { buttons: Vec<String>, frames: u32, release: u32 },
    Screenshot { path: Option<String> },
    ReadMem { addr: u32, len: u32 },
    WriteMem { addr: u32, bytes: Vec<u8> },
    SaveState { path: Option<String> },
    LoadState { path: Option<String> },
    State,
    Ping,
    Help,
    Quit,
}

/// A request, as text and numbers.
pub enum RequestView {
    Step { frames: u32 },
    Press { buttons: Seq<Seq<char>>, frames: u32, release: u32 },
    Screenshot { path: Option<Seq<char>> },
    ReadMem { addr: u32, len: u32 },
    WriteMem { addr: u32, bytes: Seq<u8> },
    SaveState { path: Option<Seq<char>> },
    LoadState { path: Option<Seq<char>> },
    State,
    Ping,
    Help,
    Quit,
}

pub open spec fn opt_str(o: Option<String>) -> Option<Seq<char>> {
    match o {
        Some(s) => Some(s@),
        None => None,
    }
}

impl View for Request {
    type V = RequestView;

    open spec fn view(&self) -> RequestView {
        match self {
            Request::Step { frames } => RequestView::Step { frames: *frames },
            Request::Press { buttons, frames, release } => RequestView::Press {
                buttons: buttons@.map_values(|s: String| s@),
                frames: *frames,
                release: *release,
            },
            Request::Screenshot { path } => RequestView::Screenshot { path: opt_str(*path) },
            Request::ReadMem { addr, len } => RequestView::ReadMem { addr: *addr, len: *len },
            Request::WriteMem { addr, bytes } => RequestView::WriteMem { addr: *addr, bytes: bytes@ },
            Request::SaveState { path } => RequestView::SaveState { path: opt_str(*path) },
            Request::LoadState { path } => RequestView::LoadState { path: opt_str(*path) },
            Request::State => RequestView::State,
            Request::Ping => RequestView::Ping,
            Request::Help => RequestView::Help,
            Request::Quit => RequestView::Quit,
        }
    }
}

/// The value of the first member named `key`.
pub open spec fn member(obj: Seq<(String, Json)>, key: Seq<char>) -> Option<Json>
    decreases obj.len(),
{
    if obj.len() == 0 {
        None
    } else if obj[0].0@ == key {
        Some(obj[0].1)
    } else {
        member(obj.drop_first(), key)
    }
}

/// An optional whole-number field: absent or null is `None`; `None` outside
/// when it is there but not a whole number that fits in `u32`.
pub open spec fn spec_u32_field(obj: Seq<(String, Json)>, key: Seq<char>) -> Option<Option<u32>> {
    match member(obj, key) {
        None => Some(None),
        Some(v) => match v.node {
            JsonNode::Null => Some(None),
            JsonNode::Number(Some(n)) => if n <= 0xFFFF_FFFF { Some(Some(n as u32)) } else { None },
            _ => None,
        },
    }
}

/// A frame count: the field or `default`, at most `MAX_FRAMES`.
pub open spec fn spec_frames(obj: Seq<(String, Json)>, key: Seq<char>, default: u32) -> Option<u32> {
    match spec_u32_field(obj, key) {
        None => None,
        Some(o) => {
            let n = match o { Some(n) => n, None => default };
            if n > MAX_FRAMES { None } else { Some(n) }
        },
    }
}

/// An optional path: absent or null is `None`; a blank or non-string value
/// is refused.
pub open spec fn spec_opt_path(obj: Seq<(String, Json)>, key: Seq<char>) -> Option<Option<Seq<char>>> {
    match member(obj, key) {
        None => Some(None),
        Some(v) => match v.node {
            JsonNode::Null => Some(None),
            JsonNode::Str(s) => if trimmed(s@).len() == 0 { None } else { Some(Some(s@)) },
            _ => None,
        },
    }
}

/// The strings of an array, when it holds nothing else.
pub open spec fn strings_of(a: Seq<Json>) -> Option<Seq<Seq<char>>>
    decreases a.len(),
{
    if a.len() == 0 {
        Some(Seq::empty())
    } else {
        match (strings_of(a.drop_last()), a.last().node) {
            (Some(s), JsonNode::Str(x)) => Some(s.push(x@)),
            _ => None,
        }
    }
}

/// The bytes of an array, when it holds only whole numbers up to 255.
pub open spec fn bytes_of(a: Seq<Json>) -> Option<Seq<u8>>
    decreases a.len(),
{
    if a.len() == 0 {
        Some(Seq::empty())
    } else {
        match (bytes_of(a.drop_last()), a.last().node) {
            (Some(s), JsonNode::Number(Some(n))) => if n <= 255 { Some(s.push(n as u8)) } else { None },
            _ => None,
        }
    }
}

/// `button` (one name) or `buttons` (several), never both, at least one,
/// every one of the twelve.
pub open spec fn spec_buttons(obj: Seq<(String, Json)>) -> Option<Seq<Seq<char>>> {
    match spec_raw_buttons(obj) {
        Some(n) => if n.len() > 0 && forall|i: int| 0 <= i < n.len() ==> crate::input::is_button(#[trigger] n[i]) {
            Some(n)
        } else {
            None
        },
        None => None,
    }
}

/// The names given by `button` or `buttons`, before they are checked.
pub open spec fn spec_raw_buttons(obj: Seq<(String, Json)>) -> Option<Seq<Seq<char>>> {
    let one = member(obj, "button"@);
    let many = member(obj, "buttons"@);
    if one is Some && many is None {
        match one->0.node {
            JsonNode::Str(s) => Some(seq![s@]),
            _ => None,
        }
    } else if one is None && many is Some {
        match many->0.node {
            JsonNode::Array(a) => strings_of(a@),
            _ => None,
        }
    } else {
        None
    }
}

/// `hex` (an even run of hex digits) or `bytes` (0..=255 each), never both.
pub open spec fn spec_write_bytes(obj: Seq<(String, Json)>) -> Option<Seq<u8>> {
    let hex = member(obj, "hex"@);
    let bytes = member(obj, "bytes"@);
    if hex is Some && bytes is None {
        match hex->0.node {
            JsonNode::Str(s) => crate::cheats::spec_parse_hex(s@),
            _ => None,
        }
    } else if hex is None && bytes is Some {
        match bytes->0.node {
            JsonNode::Array(a) => bytes_of(a@),
            _ => None,
        }
    } else {
        None
    }
}

/// The bus address of `addr` (or `address`), written like the CLI writes it.
pub open spec fn spec_addr_field(obj: Seq<(String, Json)>) -> Option<u32> {
    let v = if member(obj, "addr"@) is Some { member(obj, "addr"@) } else { member(obj, "address"@) };
    match v {
        Some(j) => match j.node {
            JsonNode::Str(s) => spec_parse_addr(s@),
            _ => None,
        },
        None => None,
    }
}

/// The command name: `cmd` (or `command`), when it is a string.
pub open spec fn spec_cmd(obj: Seq<(String, Json)>) -> Option<Seq<char>> {
    let v = if member(obj, "cmd"@) is Some { member(obj, "cmd"@) } else { member(obj, "command"@) };
    match v {
        Some(j) => match j.node {
            JsonNode::Str(s) => Some(s@),
            _ => None,
        },
        None => None,
    }
}

/// The request a JSON object asks for; `None` when it asks for none.
pub open spec fn spec_request(obj: Seq<(String, Json)>) -> Option<RequestView> {
    match spec_cmd(obj) {
        None => None,
        Some(c) => if c == "step"@ {
            match spec_frames(obj, "frames"@, 1) {
                Some(f) => Some(RequestView::Step { frames: f }),
                None => None,
            }
        } else if c == "press"@ {
            match (spec_buttons(obj), spec_frames(obj, "frames"@, 1), spec_frames(obj, "release"@, 0)) {
                (Some(b), Some(f), Some(r)) => Some(RequestView::Press { buttons: b, frames: f, release: r }),
                _ => None,
            }
        } else if c == "screenshot"@ {
            match spec_opt_path(obj, "path"@) {
                Some(p) => Some(RequestView::Screenshot { path: p }),
                None => None,
            }
        } else if c == "read-mem"@ {
            match spec_u32_field(obj, "len"@) {
                Some(o) => {
                    let len = match o { Some(n) => n, None => 1u32 };
                    if len == 0 || len > MAX_MEM_LEN {
                        None
                    } else {
                        match spec_addr_field(obj) {
                            Some(a) => Some(RequestView::ReadMem { addr: a, len }),
                            None => None,
                        }
                    }
                },
                None => None,
            }
        } else if c == "write-mem"@ {
            match spec_write_bytes(obj) {
                Some(b) => if b.len() == 0 || b.len() > MAX_MEM_LEN {
                    None
                } else {
                    match spec_addr_field(obj) {
                        Some(a) => Some(RequestView::WriteMem { addr: a, bytes: b }),
                        None => None,
                    }
                },
                None => None,
            }
        } else if c == "save-state"@ {
            match spec_opt_path(obj, "path"@) {
                Some(p) => Some(RequestView::SaveState { path: p }),
                None => None,
            }
        } else if c == "load-state"@ {
            match spec_opt_path(obj, "path"@) {
                Some(p) => Some(RequestView::LoadState { path: p }),
                None => None,
            }
        } else if c == "state"@ || c == "info"@ {
            Some(RequestView::State)
        } else if c == "ping"@ {
            Some(RequestView::Ping)
        } else if c == "help"@ {
            Some(RequestView::Help)
        } else if c == "quit"@ || c == "exit"@ {
            Some(RequestView::Quit)
        } else {
            None
        }
    }
}

/// A command name the channel knows.
pub open spec fn known_command(c: Seq<char>) -> bool {
    c == "step"@ || c == "press"@ || c == "screenshot"@ || c == "read-mem"@ || c == "write-mem"@
        || c == "save-state"@ || c == "load-state"@ || c == "state"@ || c == "info"@ || c == "ping"@
        || c == "help"@ || c == "quit"@ || c == "exit"@
}

pub(crate) fn member_of<'a>(obj: &'a Vec<(String, Json)>, key: &str) -> (r: Option<&'a Json>)
    ensures
        r matches Some(j) ==> member(obj@, key@) == Some(*j),
        r is None ==> member(obj@, key@) is None,
{
    let mut i: usize = 0;
    assert(obj@.skip(0) =~= obj@);
    while i < obj.len()
        invariant
            i <= obj@.len(),
            member(obj@, key@) == member(obj@.skip(i as int), key@),
        decreases obj@.len() - i,
    {
        proof {
            let t = obj@.skip(i as int);
            assert(t.drop_first() =~= obj@.skip(i + 1));
            assert(t[0] == obj@[i as int]);
        }
        if str_eq(obj[i].0.as_str(), key) {
            return Some(&obj[i].1);
        }
        i = i + 1;
    }
    None
}

fn u32_field(obj: &Vec<(String, Json)>, key: &str) -> (r: Result<Option<u32>, String>)
    ensures
        r matches Ok(o) ==> spec_u32_field(obj@, key@) == Some(o),
        r is Err ==> spec_u32_field(obj@, key@) is None,
{
    match member_of(obj, key) {
        None => Ok(None),
        Some(v) => match &v.node {
            JsonNode::Null => Ok(None),
            JsonNode::Number(Some(n)) => if *n <= 0xFFFF_FFFF {
                Ok(Some(*n as u32))
            } else {
                let mut e = String::from_str("\"");
                push_str(&mut e, key);
                push_str(&mut e, "\" is too large: ");
                let d = crate::text::decimal(*n);
                push_chars(&mut e, d.as_slice());
                Err(e)
            },
            _ => {
                let mut e = String::from_str("\"");
                push_str(&mut e, key);
                push_str(&mut e, "\" must be a non-negative whole number, got ");
                push_str(&mut e, v.shown.as_str());
                Err(e)
            },
        },
    }
}

fn frame_count(obj: &Vec<(String, Json)>, key: &str, default: u32) -> (r: Result<u32, String>)
    ensures
        r matches Ok(n) ==> spec_frames(obj@, key@, default) == Some(n),
        r is Err ==> spec_frames(obj@, key@, default) is None,
{
    let n = match u32_field(obj, key) {
        Ok(Some(n)) => n,
        Ok(None) => default,
        Err(e) => {
            return Err(e);
        },
    };
    if n > MAX_FRAMES {
        let mut e = String::from_str("\"");
        push_str(&mut e, key);
        push_str(&mut e, "\" must be <= 100000, got ");
        let d = crate::text::decimal(n as u64);
        push_chars(&mut e, d.as_slice());
        return Err(e);
    }
    Ok(n)
}

fn opt_path(obj: &Vec<(String, Json)>, key: &str) -> (r: Result<Option<String>, String>)
    ensures
        r matches Ok(o) ==> spec_opt_path(obj@, key@) == Some(opt_str(o)),
        r is Err ==> spec_opt_path(obj@, key@) is None,
{
    match member_of(obj, key) {
        None => Ok(None),
        Some(v) => match &v.node {
            JsonNode::Null => Ok(None),
            JsonNode::Str(s) => {
                let c = chars_of(s.as_str());
                let t = trim_chars(c.as_slice());
                if t.len() == 0 {
                    let mut e = String::from_str("\"");
                    push_str(&mut e, key);
                    push_str(&mut e, "\" must not be empty");
                    Err(e)
                } else {
                    Ok(Some(s.clone()))
                }
            },
            _ => {
                let mut e = String::from_str("\"");
                push_str(&mut e, key);
                push_str(&mut e, "\" must be a string, got ");
                push_str(&mut e, v.shown.as_str());
                Err(e)
            },
        },
    }
}

fn strings_in(a: &Vec<Json>) -> (r: Option<Vec<String>>)
    ensures
        r matches Some(v) ==> strings_of(a@) == Some(v@.map_values(|s: String| s@)),
        r is None ==> strings_of(a@) is None,
{
    let mut out: Vec<String> = Vec::new();
    let mut i: usize = 0;
    while i < a.len()
        invariant
            i <= a@.len(),
            strings_of(a@.take(i as int)) == Some(out@.map_values(|s: String| s@)),
        decreases a@.len() - i,
    {
        proof {
            assert(a@.take(i + 1).drop_last() =~= a@.take(i as int));
            assert(a@.take(i + 1).last() == a@[i as int]);
        }
        match &a[i].node {
            JsonNode::Str(s) => {
                let ghost before = out@.map_values(|s: String| s@);
                out.push(s.clone());
                proof {
                    assert(out@.map_values(|s: String| s@) =~= before.push(s@));
                }
            },
            _ => {
                proof {
                    lemma_strings_stop(a@, i as int);
                }
                return None;
            },
        }
        i = i + 1;
    }
    assert(a@.take(a@.len() as int) =~= a@);
    Some(out)
}

proof fn lemma_strings_stop(a: Seq<Json>, i: int)
    requires
        0 <= i < a.len(),
        !(a[i].node is Str),
    ensures
        strings_of(a) is None,
    decreases a.len(),
{
    if i < a.len() - 1 {
        lemma_strings_stop(a.drop_last(), i);
    }
}

proof fn lemma_bytes_stop(a: Seq<Json>, i: int)
    requires
        0 <= i < a.len(),
        !(a[i].node matches JsonNode::Number(Some(n)) && n <= 255),
    ensures
        bytes_of(a) is None,
    decreases a.len(),
{
    if i < a.len() - 1 {
        lemma_bytes_stop(a.drop_last(), i);
    }
}

fn bytes_in(a: &Vec<Json>) -> (r: Option<Vec<u8>>)
    ensures
        r matches Some(v) ==> bytes_of(a@) == Some(v@),
        r is None ==> bytes_of(a@) is None,
{
    let mut out: Vec<u8> = Vec::new();
    let mut i: usize = 0;
    while i < a.len()
        invariant
            i <= a@.len(),
            bytes_of(a@.take(i as int)) == Some(out@),
        decreases a@.len() - i,
    {
        proof {
            assert(a@.take(i + 1).drop_last() =~= a@.take(i as int));
            assert(a@.take(i + 1).last() == a@[i as int]);
        }
        match &a[i].node {
            JsonNode::Number(Some(n)) => {
                if *n <= 255 {
                    out.push(*n as u8);
                } else {
                    proof {
                        lemma_bytes_stop(a@, i as int);
                    }
                    return None;
                }
            },
            _ => {
                proof {
                    lemma_bytes_stop(a@, i as int);
                }
                return None;
            },
        }
        i = i + 1;
    }
    assert(a@.take(a@.len() as int) =~= a@);
    Some(out)
}

fn buttons(obj: &Vec<(String, Json)>) -> (r: Result<Vec<String>, String>)
    ensures
        r matches Ok(v) ==> spec_buttons(obj@) == Some(v@.map_values(|s: String| s@)),
        r is Err ==> spec_buttons(obj@) is None,
{
    let one = member_of(obj, "button");
    let many = member_of(obj, "buttons");
    let names: Vec<String> = match (one, many) {
        (Some(v), None) => match &v.node {
            JsonNode::Str(s) => {
                let mut n = Vec::new();
                n.push(s.clone());
                assert(n@.map_values(|s: String| s@) =~= seq![s@]);
                n
            },
            _ => {
                return Err(String::from_str("give either \"button\" or \"buttons\", not both"));
            },
        },
        (None, Some(v)) => match &v.node {
            JsonNode::Array(a) => match strings_in(a) {
                Some(n) => n,
                None => {
                    return Err(String::from_str("\"buttons\" holds strings"));
                },
            },
            _ => {
                return Err(String::from_str("give either \"button\" or \"buttons\", not both"));
            },
        },
        (None, None) => {
            return Err(String::from_str("press needs \"button\" or \"buttons\" (A B X Y L R Start Select Up Down Left Right)"));
        },
        _ => {
            return Err(String::from_str("give either \"button\" or \"buttons\", not both"));
        },
    };
    let ghost nv = names@.map_values(|s: String| s@);
    assert(spec_raw_buttons(obj@) == Some(nv));
    if names.len() == 0 {
        return Err(String::from_str("\"buttons\" must not be empty"));
    }
    let mut i: usize = 0;
    while i < names.len()
        invariant
            nv == names@.map_values(|s: String| s@),
            spec_raw_buttons(obj@) == Some(nv),
            nv.len() > 0,
            i <= names@.len(),
            forall|k: int| 0 <= k < i ==> crate::input::is_button(#[trigger] nv[k]),
        decreases names@.len() - i,
    {
        if crate::input::button_name(names[i].as_str()).is_none() {
            let mut e = String::from_str("unknown button name: ");
            push_str(&mut e, names[i].as_str());
            push_str(&mut e, " (known: A B X Y L R Start Select Up Down Left Right)");
            proof {
                assert(!crate::input::is_button(nv[i as int]));
            }
            return Err(e);
        }
        i = i + 1;
    }
    Ok(names)
}

fn write_bytes(obj: &Vec<(String, Json)>) -> (r: Result<Vec<u8>, String>)
    ensures
        r matches Ok(v) ==> spec_write_bytes(obj@) == Some(v@),
        r is Err ==> spec_write_bytes(obj@) is None,
{
    let hex = member_of(obj, "hex");
    let bytes = member_of(obj, "bytes");
    match (hex, bytes) {
        (Some(h), None) => match &h.node {
            JsonNode::Str(s) => crate::cheats::parse_hex(s.as_str()),
            _ => Err(String::from_str("give either \"hex\" or \"bytes\", not both")),
        },
        (None, Some(b)) => match &b.node {
            JsonNode::Array(a) => match bytes_in(a) {
                Some(v) => Ok(v),
                None => {
                    let mut e = String::from_str("\"bytes\" holds 0..=255, got ");
                    push_str(&mut e, b.shown.as_str());
                    Err(e)
                },
            },
            _ => Err(String::from_str("give either \"hex\" or \"bytes\", not both")),
        },
        (None, None) => Err(String::from_str("write-mem needs \"hex\" or \"bytes\"")),
        _ => Err(String::from_str("give either \"hex\" or \"bytes\", not both")),
    }
}

fn addr_field(obj: &Vec<(String, Json)>) -> (r: Result<u32, String>)
    ensures
        r matches Ok(a) ==> spec_addr_field(obj@) == Some(a),
        r is Err ==> spec_addr_field(obj@) is None,
{
    let v = match member_of(obj, "addr") {
        Some(v) => v,
        None => match member_of(obj, "address") {
            Some(v) => v,
            None => {
                return Err(String::from_str("missing \"addr\""));
            },
        },
    };
    match &v.node {
        JsonNode::Str(s) => parse_addr(s.as_str()),
        _ => {
            let mut e = String::from_str("\"addr\" must be a string like \"7E:0019\", got ");
            push_str(&mut e, v.shown.as_str());
            Err(e)
        },
    }
}

impl Request {
    /// The request a JSON object asks for, or why it asks for none.
    pub fn from_object(obj: &Vec<(String, Json)>) -> (r: Result<Request, String>)
        ensures
            r matches Ok(q) ==> spec_request(obj@) == Some(q@),
            r is Err ==> spec_request(obj@) is None,
            (spec_cmd(obj@) is Some && !known_command(spec_cmd(obj@)->0)) ==> (r is Err && r->Err_0@
                == "unknown command: "@ + spec_cmd(obj@)->0 + " (try {\"cmd\":\"help\"})"@),
    {
        let cv = match member_of(obj, "cmd") {
            Some(v) => v,
            None => match member_of(obj, "command") {
                Some(v) => v,
                None => {
                    return Err(String::from_str("missing \"cmd\""));
                },
            },
        };
        let cmd = match &cv.node {
            JsonNode::Str(s) => s.as_str(),
            _ => {
                return Err(String::from_str("\"cmd\" must be a string"));
            },
        };
        if str_eq(cmd, "step") {
            match frame_count(obj, "frames", 1) {
                Ok(f) => Ok(Request::Step { frames: f }),
                Err(e) => Err(e),
            }
        } else if str_eq(cmd, "press") {
            let b = match buttons(obj) {
                Ok(b) => b,
                Err(e) => {
                    return Err(e);
                },
            };
            let f = match frame_count(obj, "frames", 1) {
                Ok(f) => f,
                Err(e) => {
                    return Err(e);
                },
            };
            match frame_count(obj, "release", 0) {
                Ok(r) => Ok(Request::Press { buttons: b, frames: f, release: r }),
                Err(e) => Err(e),
            }
        } else if str_eq(cmd, "screenshot") {
            match opt_path(obj, "path") {
                Ok(p) => Ok(Request::Screenshot { path: p }),
                Err(e) => Err(e),
            }
        } else if str_eq(cmd, "read-mem") {
            let len = match u32_field(obj, "len") {
                Ok(Some(n)) => n,
                Ok(None) => 1,
                Err(e) => {
                    return Err(e);
                },
            };
            if len == 0 || len > MAX_MEM_LEN {
                let mut e = String::from_str("\"len\" must be 1..=4096, got ");
                let d = crate::text::decimal(len as u64);
                push_chars(&mut e, d.as_slice());
                return Err(e);
            }
            match addr_field(obj) {
                Ok(a) => Ok(Request::ReadMem { addr: a, len }),
                Err(e) => Err(e),
            }
        } else if str_eq(cmd, "write-mem") {
            let bytes = match write_bytes(obj) {
                Ok(b) => b,
                Err(e) => {
                    return Err(e);
                },
            };
            if bytes.len() == 0 || bytes.len() > 4096 {
                let mut e = String::from_str("write payload must be 1..=4096 bytes, got ");
                let d = crate::text::decimal(bytes.len() as u64);
                push_chars(&mut e, d.as_slice());
                return Err(e);
            }
            match addr_field(obj) {
                Ok(a) => Ok(Request::WriteMem { addr: a, bytes }),
                Err(e) => Err(e),
            }
        } else if str_eq(cmd, "save-state") {
            match opt_path(obj, "path") {
                Ok(p) => Ok(Request::SaveState { path: p }),
                Err(e) => Err(e),
            }
        } else if str_eq(cmd, "load-state") {
            match opt_path(obj, "path") {
                Ok(p) => Ok(Request::LoadState { path: p }),
                Err(e) => Err(e),
            }
        } else if str_eq(cmd, "state") || str_eq(cmd, "info") {
            Ok(Request::State)
        } else if str_eq(cmd, "ping") {
            Ok(Request::Ping)
        } else if str_eq(cmd, "help") {
            Ok(Request::Help)
        } else if str_eq(cmd, "quit") || str_eq(cmd, "exit") {
            Ok(Request::Quit)
        } else {
            let mut e = String::from_str("unknown command: ");
            push_str(&mut e, cmd);
            push_str(&mut e, " (try {\"cmd\":\"help\"})");
            Err(e)
        }
    }
}

/// What one line asks for: the JSON object's request, or `None` when the
/// line is blank, is not JSON, is not an object, or asks for nothing valid.
pub open spec fn spec_line_request(line: Seq<char>) -> Option<RequestView> {
    let t = trimmed(line);
    if t.len() == 0 {
        None
    } else {
        match json_parsed(t) {
            Some(j) => match j.node {
                JsonNode::Object(o) => spec_request(o@),
                _ => None,
            },
            None => None,
        }
    }
}

/// The `id` a line carries: the `id` member of its JSON object, whatever the
/// rest of the object asks; `None` when there is none to echo.
pub open spec fn spec_line_id(line: Seq<char>) -> Option<Json> {
    let t = trimmed(line);
    if t.len() == 0 {
        None
    } else {
        match json_parsed(t) {
            Some(j) => match j.node {
                JsonNode::Object(o) => member(o@, "id"@),
                _ => None,
            },
            None => None,
        }
    }
}

proof fn lemma_member_at(o: Seq<(String, Json)>, key: Seq<char>, i: int)
    requires
        0 <= i < o.len(),
        o[i].0@ == key,
        forall|k: int| 0 <= k < i ==> (#[trigger] o[k]).0@ != key,
    ensures
        member(o, key) == Some(o[i].1),
    decreases i,
{
    if i > 0 {
        let t = o.drop_first();
        assert forall|k: int| 0 <= k < i - 1 implies (#[trigger] t[k]).0@ != key by {
            assert(t[k] == o[k + 1]);
        }
        lemma_member_at(t, key, i - 1);
    }
}

proof fn lemma_member_absent(o: Seq<(String, Json)>, key: Seq<char>)
    requires
        forall|k: int| 0 <= k < o.len() ==> (#[trigger] o[k]).0@ != key,
    ensures
        member(o, key) is None,
    decreases o.len(),
{
    if o.len() > 0 {
        let t = o.drop_first();
        assert forall|k: int| 0 <= k < t.len() implies (#[trigger] t[k]).0@ != key by {
            assert(t[k] == o[k + 1]);
        }
        lemma_member_absent(t, key);
    }
}

fn position_of(obj: &Vec<(String, Json)>, key: &str) -> (r: Option<usize>)
    ensures
        r matches Some(i) ==> i < obj@.len() && obj@[i as int].0@ == key@
            && forall|k: int| 0 <= k < i ==> (#[trigger] obj@[k]).0@ != key@,
        r is None ==> forall|k: int| 0 <= k < obj@.len() ==> (#[trigger] obj@[k]).0@ != key@,
{
    let mut i: usize = 0;
    while i < obj.len()
        invariant
            i <= obj@.len(),
            forall|k: int| 0 <= k < i ==> (#[trigger] obj@[k]).0@ != key@,
        decreases obj@.len() - i,
    {
        if str_eq(obj[i].0.as_str(), key) {
            return Some(i);
        }
        i = i + 1;
    }
    None
}

/// Split a line into its echoed `id` (null when absent) and the request it
/// holds, or why it holds none.
pub fn parse(line: &str) -> (r: (Json, Result<Request, String>))
    ensures
        spec_line_id(line@) matches Some(j) ==> r.0 == j,
        spec_line_id(line@) is None ==> r.0.node is Null && r.0.shown@ == "null"@,
        r.1 matches Ok(q) ==> spec_line_request(line@) == Some(q@),
        r.1 is Err ==> spec_line_request(line@) is None,
{
    let v = chars_of(line);
    let t = trim_chars(v.as_slice());
    let null = Json { shown: String::from_str("null"), node: JsonNode::Null };
    if t.len() == 0 {
        return (null, Err(String::from_str("empty request line")));
    }
    let text = string_of(t.as_slice());
    let parsed = match parse_json(text.as_str()) {
        Ok(j) => j,
        Err(e) => {
            let mut m = String::from_str("invalid JSON: ");
            push_str(&mut m, e.as_str());
            return (null, Err(m));
        },
    };
    match parsed.node {
        JsonNode::Object(mut fields) => {
            let request = Request::from_object(&fields);
            match position_of(&fields, "id") {
                Some(i) => {
                    proof {
                        lemma_member_at(fields@, "id"@, i as int);
                    }
                    let (_, id) = fields.remove(i);
                    (id, request)
                },
                None => {
                    proof {
                        lemma_member_absent(fields@, "id"@);
                    }
                    (null, request)
                },
            }
        },
        _ => (null, Err(String::from_str("request must be a JSON object"))),
    }
}


/// What the stdio channel does with one parsed request line.
#[derive(Debug)]
pub enum Route {
    /// Answer with this error.
    Fail(String),
    /// Answer `{"frame": n}` and end the session.
    Quit,
    /// Carry out the request on the console and answer with what it gives.
    Exec(Request),
}

/// Route one parsed line: a line that holds no request is answered with
/// why, `quit` ends the session, anything else is carried out.
pub fn route(parsed: Result<Request, String>) -> (r: Route)
    ensures
        parsed matches Err(e) ==> (r matches Route::Fail(f) && f@ == e@),
        parsed matches Ok(q) ==> (if q is Quit {
            r is Quit
        } else {
            r matches Route::Exec(x) && x@ == q@
        }),
{
    match parsed {
        Err(e) => Route::Fail(e),
        Ok(Request::Quit) => Route::Quit,
        Ok(q) => Route::Exec(q),
    }
}

} // verus!
