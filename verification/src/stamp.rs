//! Names for the files a session writes: the calendar breakdown of a Unix
//! timestamp, the two date spellings built from it, and the portable file-name
//! stem a cartridge title turns into.

use crate::text::{is_ctrl, is_white, padded, padded_signed, push_chars, zpad, zpad_signed, char_is_control, char_is_whitespace, chars_of};
use vstd::prelude::*;
use vstd::arithmetic::div_mod::{lemma_hoist_over_denominator, lemma_mod_multiples_vanish};

verus! {

/// Broken-down calendar time.
#[derive(Debug, Clone, Copy, PartialEq, Eq, Structural)]
pub struct CalendarTime {
    pub year: i32,
    pub month: u8,
    pub day: u8,
    pub hour: u8,
    pub minute: u8,
    pub second: u8,
}

/// `YYYYMMDD-HHMMSS`.
pub open spec fn spec_file_stamp(t: CalendarTime) -> Seq<char> {
    zpad_signed(t.year as int, 4) + zpad(t.month as nat, 2) + zpad(t.day as nat, 2) + seq!['-']
        + zpad(t.hour as nat, 2) + zpad(t.minute as nat, 2) + zpad(t.second as nat, 2)
}

/// `MM/DD/YYYY`.
pub open spec fn spec_id666_date(t: CalendarTime) -> Seq<char> {
    zpad(t.month as nat, 2) + seq!['/'] + zpad(t.day as nat, 2) + seq!['/'] + zpad_signed(t.year as int, 4)
}

pub(crate) fn append(r: &mut Vec<char>, v: &Vec<char>)
    ensures
        final(r)@ == old(r)@ + v@,
{
    let mut i: usize = 0;
    let ghost r0 = r@;
    while i < v.len()
        invariant
            i <= v@.len(),
            r@ == r0 + v@.take(i as int),
        decreases v@.len() - i,
    {
        r.push(v[i]);
        i = i + 1;
        assert(r@ =~= r0 + v@.take(i as int));
    }
    assert(v@.take(v@.len() as int) =~= v@);
}

impl CalendarTime {
    /// `YYYYMMDD-HHMMSS`, safe on every filesystem and sorting
    /// chronologically.
    pub fn file_stamp(&self) -> (r: String)
        ensures
            r@ == spec_file_stamp(*self),
    {
        let mut v: Vec<char> = Vec::new();
        append(&mut v, &padded_signed(self.year as i64, 4));
        append(&mut v, &padded(self.month as u64, 2));
        append(&mut v, &padded(self.day as u64, 2));
        v.push('-');
        append(&mut v, &padded(self.hour as u64, 2));
        append(&mut v, &padded(self.minute as u64, 2));
        append(&mut v, &padded(self.second as u64, 2));
        let mut r = String::new();
        push_chars(&mut r, v.as_slice());
        assert(r@ =~= spec_file_stamp(*self));
        r
    }

    /// The ID666 dump date: `MM/DD/YYYY`.
    pub fn id666_date(&self) -> (r: String)
        ensures
            r@ == spec_id666_date(*self),
    {
        let mut v: Vec<char> = Vec::new();
        append(&mut v, &padded(self.month as u64, 2));
        v.push('/');
        append(&mut v, &padded(self.day as u64, 2));
        v.push('/');
        append(&mut v, &padded_signed(self.year as i64, 4));
        let mut r = String::new();
        push_chars(&mut r, v.as_slice());
        assert(r@ =~= spec_id666_date(*self));
        r
    }
}

/// The proleptic-Gregorian breakdown of a Unix timestamp (UTC), computed
/// from the day count with the era arithmetic of Hinnant's
/// `civil_from_days` (eras of 400 years starting on March 1st).
pub open spec fn spec_civil(secs: int) -> CalendarTime {
    let days = secs / 86400;
    let rem = secs % 86400;
    let z = days + 719468;
    let era = z / 146097;
    let doe = z % 146097;
    let yoe = (doe - doe / 1460 + doe / 36524 - doe / 146096) / 365;
    let y = yoe + era * 400;
    let doy = doe - (365 * yoe + yoe / 4 - yoe / 100);
    let mp = (5 * doy + 2) / 153;
    let d = doy - (153 * mp + 2) / 5 + 1;
    let m = if mp < 10 { mp + 3 } else { mp - 9 };
    CalendarTime {
        year: (if m <= 2 { y + 1 } else { y }) as i32,
        month: m as u8,
        day: d as u8,
        hour: (rem / 3600) as u8,
        minute: (rem % 3600 / 60) as u8,
        second: (rem % 60) as u8,
    }
}

/// Calendar breakdown of a Unix timestamp, in UTC.
pub fn civil_from_unix(secs: i64) -> (t: CalendarTime)
    ensures
        t == spec_civil(secs as int),
{
    // Shift by a whole number of 400-year eras so that every division below
    // is on a non-negative number.
    let shift_days: i128 = 146_097_000_000_000;
    let s: u128 = (secs as i128 + shift_days * 86400) as u128;
    proof {
        lemma_hoist_over_denominator(secs as int, 146_097_000_000_000, 86400);
        lemma_mod_multiples_vanish(146_097_000_000_000, secs as int, 86400);
        assert(146_097_000_000_000 * 86400 == 86400 * 146_097_000_000_000int);
    }
    let days_s: u128 = s / 86400;
    let rem: u128 = s % 86400;
    let z_s: u128 = days_s + 719_468;
    let era_s: u128 = z_s / 146_097;
    let doe: u128 = z_s % 146_097;
    proof {
        let z = secs as int / 86400 + 719468;
        assert(z_s == z + 146097 * 1_000_000_000);
        lemma_hoist_over_denominator(z, 1_000_000_000, 146097);
        lemma_mod_multiples_vanish(1_000_000_000, z, 146097);
        assert(era_s == z / 146097 + 1_000_000_000);
        assert(doe == z % 146097);
    }
    let yoe: u128 = (doe - doe / 1460 + doe / 36524 - doe / 146_096) / 365;
    let y: i128 = yoe as i128 + (era_s as i128 - 1_000_000_000) * 400;
    let doy: u128 = doe - (365 * yoe + yoe / 4 - yoe / 100);
    let mp: u128 = (5 * doy + 2) / 153;
    let d: u128 = doy - (153 * mp + 2) / 5 + 1;
    let m: u128 = if mp < 10 { mp + 3 } else { mp - 9 };
    CalendarTime {
        year: (if m <= 2 { y + 1 } else { y }) as i32,
        month: m as u8,
        day: d as u8,
        hour: (rem / 3600) as u8,
        minute: (rem % 3600 / 60) as u8,
        second: (rem % 60) as u8,
    }
}

/// Characters no common filesystem accepts in a name, plus control
/// characters.
pub open spec fn forbidden_in_file_name(c: char) -> bool {
    is_ctrl(c) || c == '/' || c == '\\' || c == ':' || c == '*' || c == '?' || c == '"' || c == '<'
        || c == '>' || c == '|'
}

/// Walking a title: the stem so far and whether a white-space run is pending
/// (it becomes one `_` before the next kept character, never a leading one).
pub open spec fn stem_walk(s: Seq<char>) -> (Seq<char>, bool)
    decreases s.len(),
{
    if s.len() == 0 {
        (Seq::empty(), false)
    } else {
        let (out, pending) = stem_walk(s.drop_last());
        let c = s.last();
        if is_white(c) {
            (out, out.len() > 0)
        } else {
            let k = if forbidden_in_file_name(c) { '_' } else { c };
            if pending {
                (out.push('_').push(k), false)
            } else {
                (out.push(k), false)
            }
        }
    }
}

/// `s` without its trailing `.` and `_`.
pub open spec fn strip_dots(s: Seq<char>) -> Seq<char>
    decreases s.len(),
{
    if s.len() > 0 && (s.last() == '.' || s.last() == '_') {
        strip_dots(s.drop_last())
    } else {
        s
    }
}

/// The portable stem of a title: its first 64 characters walked, trailing
/// dots and underscores dropped, `SNES` when nothing is left.
pub open spec fn spec_sanitize(title: Seq<char>) -> Seq<char> {
    let out = strip_dots(stem_walk(if title.len() > 64 { title.take(64) } else { title }).0);
    if out.len() == 0 {
        "SNES"@
    } else {
        out
    }
}

/// Turn a cartridge title into a portable file-name stem: forbidden
/// characters become `_`, white-space runs collapse to one `_`, trailing dots
/// and underscores go, and an empty result is `SNES`.
pub fn sanitize_file_stem(title: &str) -> (r: String)
    ensures
        r@ == spec_sanitize(title@),
{
    let v = chars_of(title);
    let n: usize = if v.len() > 64 { 64 } else { v.len() };
    let ghost t = if title@.len() > 64 { title@.take(64) } else { title@ };
    let mut out: Vec<char> = Vec::new();
    let mut pending = false;
    let mut i: usize = 0;
    while i < n
        invariant
            v@ == title@,
            n == t.len(),
            n <= v@.len(),
            t == v@.take(n as int),
            i <= n,
            (out@, pending) == stem_walk(t.take(i as int)),
        decreases n - i,
    {
        proof {
            assert(t.take(i + 1).drop_last() =~= t.take(i as int));
            assert(t.take(i + 1).last() == v@[i as int]);
        }
        let c = v[i];
        if char_is_whitespace(c) {
            pending = out.len() > 0;
        } else {
            let k = if char_is_control(c) || c == '/' || c == '\\' || c == ':' || c == '*' || c == '?'
                || c == '"' || c == '<' || c == '>' || c == '|' {
                '_'
            } else {
                c
            };
            if pending {
                out.push('_');
                pending = false;
            }
            out.push(k);
        }
        i = i + 1;
    }
    proof {
        assert(t.take(n as int) =~= t);
    }
    let ghost walked = out@;
    while out.len() > 0 && (out[out.len() - 1] == '.' || out[out.len() - 1] == '_')
        invariant
            strip_dots(out@) == strip_dots(walked),
        decreases out@.len(),
    {
        out.pop();
    }
    if out.len() == 0 {
        String::from_str("SNES")
    } else {
        let mut r = String::new();
        push_chars(&mut r, out.as_slice());
        r
    }
}

} // verus!
