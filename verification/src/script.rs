//! Input scripts for headless runs: one press per line,
//! `<frame> <button> <frames_held>`, with `#` starting a comment; and the
//! buttons a script holds at a given frame.

use crate::cli::{parse_num, spec_parse_num};
use crate::input::{button_name, is_button, pad_of, Joypad};
use crate::text::{chars_of, dec, decimal, first_index, find_char, is_white, lemma_first_index, push_chars, push_str, string_of, sub_chars, trim_chars, trimmed, char_is_whitespace};
use vstd::prelude::*;

verus! {

/// Lines cut at `\n`, with the part after the last `\n` still open.
pub open spec fn split_lines(s: Seq<char>) -> (Seq<Seq<char>>, Seq<char>)
    decreases s.len(),
{
    if s.len() == 0 {
        (Seq::empty(), Seq::empty())
    } else {
        let (ls, cur) = split_lines(s.drop_last());
        if s.last() == '\n' {
            (ls.push(cur), Seq::empty())
        } else {
            (ls, cur.push(s.last()))
        }
    }
}

/// The lines of a text: cut at each `\n`, a final line ending being
/// optional (the `\r` of a `\r\n` stays on its line, where trimming removes
/// it).
pub open spec fn text_lines(s: Seq<char>) -> Seq<Seq<char>> {
    let (ls, cur) = split_lines(s);
    if cur.len() > 0 {
        ls.push(cur)
    } else {
        ls
    }
}

/// Words completed so far, and the word still open.
pub open spec fn split_words(s: Seq<char>) -> (Seq<Seq<char>>, Seq<char>)
    decreases s.len(),
{
    if s.len() == 0 {
        (Seq::empty(), Seq::empty())
    } else {
        let (ws, cur) = split_words(s.drop_last());
        if is_white(s.last()) {
            if cur.len() > 0 {
                (ws.push(cur), Seq::empty())
            } else {
                (ws, Seq::empty())
            }
        } else {
            (ws, cur.push(s.last()))
        }
    }
}

/// The maximal runs of non-whitespace characters (`split_whitespace`).
pub open spec fn words(s: Seq<char>) -> Seq<Seq<char>> {
    let (ws, cur) = split_words(s);
    if cur.len() > 0 {
        ws.push(cur)
    } else {
        ws
    }
}

/// A line with its comment cut off and its ends trimmed.
pub open spec fn line_body(line: Seq<char>) -> Seq<char> {
    trimmed(line.take(first_index(line, '#')))
}

/// `<path>:<n>: ` in front of a message about line `n`.
pub open spec fn at_line(path: Seq<char>, n: nat) -> Seq<char> {
    path + ":"@ + dec(n) + ": "@
}

/// What line `n` (counted from 1) of a script holds: nothing (blank or a
/// comment), one press `(frame, button, frames held, at least 1)`, or why
/// it is refused. The frame is read first, then the count, then the button.
pub open spec fn script_line(path: Seq<char>, n: nat, line: Seq<char>) -> Result<Option<(u32, Seq<char>, u32)>, Seq<char>> {
    let body = line_body(line);
    let parts = words(body);
    if body.len() == 0 {
        Ok(None)
    } else if parts.len() != 3 {
        Err(at_line(path, n) + "expected `<frame> <button> <frames_held>`"@)
    } else {
        match (spec_parse_num(parts[0]), spec_parse_num(parts[2])) {
            (Err(e), _) => Err(e),
            (Ok(_), Err(e)) => Err(e),
            (Ok(frame), Ok(held)) => if !is_button(parts[1]) {
                Err(at_line(path, n) + "unknown button name: "@ + parts[1])
            } else {
                Ok(Some((frame, parts[1], if held == 0 { 1u32 } else { held })))
            },
        }
    }
}

/// The presses of lines `i..` in order, or the first refusal.
pub open spec fn script_from(path: Seq<char>, ls: Seq<Seq<char>>, i: int) -> Result<Seq<(u32, Seq<char>, u32)>, Seq<char>>
    decreases ls.len() - i,
{
    if i < 0 || i >= ls.len() {
        Ok(Seq::empty())
    } else {
        match script_line(path, (i + 1) as nat, ls[i]) {
            Err(e) => Err(e),
            Ok(None) => script_from(path, ls, i + 1),
            Ok(Some(p)) => match script_from(path, ls, i + 1) {
                Err(e) => Err(e),
                Ok(rest) => Ok(seq![p] + rest),
            },
        }
    }
}

pub open spec fn spec_parse_script(path: Seq<char>, text: Seq<char>) -> Result<Seq<(u32, Seq<char>, u32)>, Seq<char>> {
    script_from(path, text_lines(text), 0)
}

pub open spec fn press_views(v: Seq<(u32, String, u32)>) -> Seq<(u32, Seq<char>, u32)> {
    v.map_values(|p: (u32, String, u32)| (p.0, p.1@, p.2))
}

pub open spec fn char_views(v: Seq<Vec<char>>) -> Seq<Seq<char>> {
    v.map_values(|w: Vec<char>| w@)
}

fn lines_of(v: &Vec<char>) -> (r: Vec<Vec<char>>)
    ensures
        char_views(r@) == text_lines(v@),
{
    let mut ls: Vec<Vec<char>> = Vec::new();
    let mut cur: Vec<char> = Vec::new();
    let mut i: usize = 0;
    while i < v.len()
        invariant
            i <= v@.len(),
            (char_views(ls@), cur@) == split_lines(v@.take(i as int)),
        decreases v@.len() - i,
    {
        assert(v@.take(i + 1).drop_last() =~= v@.take(i as int));
        let ghost ls0 = char_views(ls@);
        if v[i] == '\n' {
            let done = cur;
            cur = Vec::new();
            ls.push(done);
            assert(char_views(ls@) =~= ls0.push(done@));
        } else {
            cur.push(v[i]);
        }
        i = i + 1;
    }
    assert(v@.take(v@.len() as int) =~= v@);
    if cur.len() > 0 {
        let ghost ls0 = char_views(ls@);
        let ghost c = cur@;
        ls.push(cur);
        assert(char_views(ls@) =~= ls0.push(c));
    }
    ls
}

fn words_of(v: &Vec<char>) -> (r: Vec<Vec<char>>)
    ensures
        char_views(r@) == words(v@),
{
    let mut ws: Vec<Vec<char>> = Vec::new();
    let mut cur: Vec<char> = Vec::new();
    let mut i: usize = 0;
    while i < v.len()
        invariant
            i <= v@.len(),
            (char_views(ws@), cur@) == split_words(v@.take(i as int)),
        decreases v@.len() - i,
    {
        assert(v@.take(i + 1).drop_last() =~= v@.take(i as int));
        let ghost ws0 = char_views(ws@);
        if char_is_whitespace(v[i]) {
            if cur.len() > 0 {
                let done = cur;
                cur = Vec::new();
                ws.push(done);
                assert(char_views(ws@) =~= ws0.push(done@));
            } else {
                cur = Vec::new();
            }
        } else {
            cur.push(v[i]);
        }
        i = i + 1;
    }
    assert(v@.take(v@.len() as int) =~= v@);
    if cur.len() > 0 {
        let ghost ws0 = char_views(ws@);
        let ghost c = cur@;
        ws.push(cur);
        assert(char_views(ws@) =~= ws0.push(c));
    }
    ws
}

fn line_prefix(path: &str, n: usize) -> (r: String)
    ensures
        r@ == at_line(path@, n as nat),
{
    let mut r = String::from_str(path);
    push_str(&mut r, ":");
    let d = decimal(n as u64);
    push_chars(&mut r, d.as_slice());
    push_str(&mut r, ": ");
    proof {
        reveal_strlit(":");
        reveal_strlit(": ");
    }
    assert(r@ =~= at_line(path@, n as nat));
    r
}

fn read_line(path: &str, n: usize, line: &Vec<char>) -> (r: Result<Option<(u32, String, u32)>, String>)
    ensures
        match r {
            Ok(None) => script_line(path@, n as nat, line@) == Ok::<Option<(u32, Seq<char>, u32)>, Seq<char>>(None),
            Ok(Some(p)) => script_line(path@, n as nat, line@) == Ok::<Option<(u32, Seq<char>, u32)>, Seq<char>>(Some((p.0, p.1@, p.2))),
            Err(e) => script_line(path@, n as nat, line@) == Err::<Option<(u32, Seq<char>, u32)>, Seq<char>>(e@),
        },
{
    let k = find_char(line.as_slice(), '#');
    proof {
        lemma_first_index(line@, '#');
    }
    let head = sub_chars(line.as_slice(), 0, k);
    assert(head@ =~= line@.take(k as int));
    let body = trim_chars(head.as_slice());
    if body.len() == 0 {
        return Ok(None);
    }
    let parts = words_of(&body);
    if parts.len() != 3 {
        let mut e = line_prefix(path, n);
        push_str(&mut e, "expected `<frame> <button> <frames_held>`");
        return Err(e);
    }
    let f = string_of(parts[0].as_slice());
    let b = string_of(parts[1].as_slice());
    let h = string_of(parts[2].as_slice());
    assert(f@ == char_views(parts@)[0]);
    assert(b@ == char_views(parts@)[1]);
    assert(h@ == char_views(parts@)[2]);
    let frame = parse_num(f.as_str())?;
    let held = parse_num(h.as_str())?;
    if button_name(b.as_str()).is_none() {
        let mut e = line_prefix(path, n);
        push_str(&mut e, "unknown button name: ");
        push_str(&mut e, b.as_str());
        return Err(e);
    }
    Ok(Some((frame, b, if held == 0 { 1 } else { held })))
}

/// Read a script's text (`path` names it in the messages): every press in
/// line order, or the first line refused and why.
pub fn parse_script(path: &str, text: &str) -> (r: Result<Vec<(u32, String, u32)>, String>)
    ensures
        match r {
            Ok(s) => spec_parse_script(path@, text@) == Ok::<Seq<(u32, Seq<char>, u32)>, Seq<char>>(press_views(s@)),
            Err(e) => spec_parse_script(path@, text@) == Err::<Seq<(u32, Seq<char>, u32)>, Seq<char>>(e@),
        },
{
    let v = chars_of(text);
    let ls = lines_of(&v);
    let ghost lv = char_views(ls@);
    let mut out: Vec<(u32, String, u32)> = Vec::new();
    let mut i: usize = 0;
    while i < ls.len()
        invariant
            lv == char_views(ls@),
            lv == text_lines(text@),
            i <= ls@.len(),
            spec_parse_script(path@, text@) == (match script_from(path@, lv, i as int) {
                Ok(rest) => Ok(press_views(out@) + rest),
                Err(e) => Err(e),
            }),
        decreases ls@.len() - i,
    {
        assert(lv[i as int] == ls@[i as int]@);
        let line = read_line(path, i + 1, &ls[i])?;
        match line {
            None => {},
            Some(p) => {
                let ghost o0 = press_views(out@);
                let ghost pv = (p.0, p.1@, p.2);
                out.push(p);
                proof {
                    assert(press_views(out@) =~= o0.push(pv));
                    match script_from(path@, lv, i + 1) {
                        Ok(rest) => {
                            assert(o0 + (seq![pv] + rest) =~= o0.push(pv) + rest);
                        },
                        Err(_) => {},
                    }
                }
            },
        }
        i = i + 1;
    }
    assert(press_views(out@) + Seq::<(u32, Seq<char>, u32)>::empty() =~= press_views(out@));
    Ok(out)
}

/// The buttons the presses hold at `frame`: those started at or before it
/// and held for more frames than have passed since, in script order.
pub open spec fn held_at(script: Seq<(u32, Seq<char>, u32)>, frame: u32) -> Seq<Seq<char>>
    decreases script.len(),
{
    if script.len() == 0 {
        Seq::empty()
    } else {
        let p = script.last();
        let rest = held_at(script.drop_last(), frame);
        if p.0 <= frame && frame < p.0 + p.2 {
            rest.push(p.1)
        } else {
            rest
        }
    }
}

/// Player 1's controller at `frame`: every button of a press active then
/// held. A press that starts by `frame` must end within the 32-bit frame
/// count.
pub fn script_state(script: &Vec<(u32, String, u32)>, frame: u32) -> (r: Joypad)
    requires
        forall|k: int| 0 <= k < script@.len() && #[trigger] script@[k].0 <= frame ==> script@[k].0 + script@[k].2 <= 0xFFFF_FFFF,
    ensures
        r == pad_of(held_at(press_views(script@), frame)),
{
    let names = held_names(script, frame);
    Joypad::holding(&names)
}

/// The names of the buttons held at `frame`, one per active press.
pub fn held_names(script: &Vec<(u32, String, u32)>, frame: u32) -> (r: Vec<String>)
    requires
        forall|k: int| 0 <= k < script@.len() && #[trigger] script@[k].0 <= frame ==> script@[k].0 + script@[k].2 <= 0xFFFF_FFFF,
    ensures
        r@.map_values(|s: String| s@) == held_at(press_views(script@), frame),
{
    let mut r: Vec<String> = Vec::new();
    let mut i: usize = 0;
    while i < script.len()
        invariant
            i <= script@.len(),
            forall|k: int| 0 <= k < script@.len() && #[trigger] script@[k].0 <= frame ==> script@[k].0 + script@[k].2 <= 0xFFFF_FFFF,
            r@.map_values(|s: String| s@) == held_at(press_views(script@.take(i as int)), frame),
        decreases script@.len() - i,
    {
        let ghost r0 = r@.map_values(|s: String| s@);
        assert(press_views(script@.take(i + 1)).drop_last() =~= press_views(script@.take(i as int)));
        let p = &script[i];
        let start = p.0;
        let held = p.2;
        if start <= frame && frame < start + held {
            let b = p.1.clone();
            r.push(b);
            assert(r@.map_values(|s: String| s@) =~= r0.push(script@[i as int].1@));
        }
        i = i + 1;
    }
    assert(script@.take(script@.len() as int) =~= script@);
    r
}

} // verus!
