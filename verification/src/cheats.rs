//! Cheats found by an agent, stored per game: one bus address, the bytes to
//! put there, and whether they are rewritten after every frame (`Freeze`) or
//! written a single time (`Once`). The list keeps one cheat per name; the
//! `once` cheats already fired this session are remembered until the list
//! changes or `rearm` is called.

use crate::agent::{check_addr, format_addr, is_mmio, parse_addr, spec_format_addr, spec_parse_addr, spec_step_addr, step_addr};
use crate::text::{
    chars_of, fixed, fixed_digits, hex_val, is_white, push_chars, radix16, string_of, trim_chars,
    trimmed, char_is_whitespace, hex_value, str_eq,
};
use vstd::prelude::*;

verus! {

/// Extension of the per-game sidecar: `<game>.cheats.json`.
pub const CHEATS_EXT: &'static str = "cheats.json";

/// Longest payload one cheat may write.
pub const MAX_BYTES: usize = 64;

/// How long a cheat's bytes stay in place.
#[derive(Debug, Clone, Copy, PartialEq, Eq, Structural)]
pub enum Kind {
    /// Rewritten after every emulated frame, so the game cannot take it back.
    Freeze,
    /// Written a single time, then left alone.
    Once,
}

/// The spelling of a kind in the file and on the agent channel.
pub open spec fn kind_text(k: Kind) -> Seq<char> {
    match k {
        Kind::Freeze => "freeze"@,
        Kind::Once => "once"@,
    }
}

/// The kind a text spells, surrounding white space aside.
pub open spec fn spec_kind_parse(s: Seq<char>) -> Option<Kind> {
    if trimmed(s) == "freeze"@ {
        Some(Kind::Freeze)
    } else if trimmed(s) == "once"@ {
        Some(Kind::Once)
    } else {
        None
    }
}

/// A kind reads back as itself from its spelling, and only the two
/// spellings (with white space around them) read as a kind.
pub proof fn law_kind_spelling_round_trip(k: Kind, s: Seq<char>)
    ensures
        spec_kind_parse(kind_text(k)) == Some(k),
        spec_kind_parse(s) is Some <==> (trimmed(s) == "freeze"@ || trimmed(s) == "once"@),
{
    reveal_strlit("freeze");
    reveal_strlit("once");
    assert("freeze"@ != "once"@) by {
        assert("freeze"@.len() != "once"@.len());
    }
    let t = kind_text(k);
    assert(!is_white(t[0]));
    assert(!is_white(t.last()));
    assert(crate::text::trim_start(t) == t);
    assert(crate::text::trim_end(t) == t);
}

impl Kind {
    /// The spelling used by the file and by the agent channel.
    pub fn as_str(self) -> (r: &'static str)
        ensures
            r@ == kind_text(self),
    {
        match self {
            Kind::Freeze => "freeze",
            Kind::Once => "once",
        }
    }

    /// Read a kind; surrounding white space is ignored, the spelling is exact.
    pub fn parse(s: &str) -> (r: Result<Kind, String>)
        ensures
            r == Ok::<Kind, String>(Kind::Freeze) <==> trimmed(s@) == "freeze"@,
            r == Ok::<Kind, String>(Kind::Once) <==> trimmed(s@) == "once"@,
            r is Err <==> (trimmed(s@) != "freeze"@ && trimmed(s@) != "once"@),
            r matches Ok(k) ==> spec_kind_parse(s@) == Some(k),
            r is Err <==> spec_kind_parse(s@) is None,
    {
        proof {
            reveal_strlit("freeze");
            reveal_strlit("once");
            assert("freeze"@ != "once"@) by {
                assert("freeze"@.len() != "once"@.len());
            }
        }
        let v = chars_of(s);
        let t = trim_chars(v.as_slice());
        let f = chars_of("freeze");
        let o = chars_of("once");
        if crate::text::chars_eq(t.as_slice(), f.as_slice()) {
            Ok(Kind::Freeze)
        } else if crate::text::chars_eq(t.as_slice(), o.as_slice()) {
            Ok(Kind::Once)
        } else {
            let mut e = String::from_str("\"kind\" must be \"freeze\" or \"once\", got \"");
            push_chars(&mut e, t.as_slice());
            crate::text::push_str(&mut e, "\"");
            Err(e)
        }
    }
}

/// One cheat: the address already parsed, the payload already decoded.
#[derive(Debug, Clone, PartialEq, Eq)]
pub struct Cheat {
    /// What the player sees; also the cheat's identity in a list.
    pub name: String,
    /// Bus address, 24 bits.
    pub addr: u32,
    pub bytes: Vec<u8>,
    pub kind: Kind,
    pub enabled: bool,
}

/// `s` without its white space.
pub open spec fn strip_white(s: Seq<char>) -> Seq<char>
    decreases s.len(),
{
    if s.len() == 0 {
        s
    } else if is_white(s.last()) {
        strip_white(s.drop_last())
    } else {
        strip_white(s.drop_last()).push(s.last())
    }
}

/// Every character is ASCII.
pub open spec fn all_ascii(s: Seq<char>) -> bool {
    forall|i: int| 0 <= i < s.len() ==> ((#[trigger] s[i]) as u32) < 0x80
}

/// The bytes of consecutive two-digit groups, as `u8::from_str_radix` reads
/// each group (a `+` sign followed by one digit is a group too).
pub open spec fn hex_pairs(c: Seq<char>) -> Option<Seq<u8>>
    decreases c.len(),
{
    if c.len() < 2 {
        Some(Seq::empty())
    } else {
        match (radix16(c.take(2), 255), hex_pairs(c.skip(2))) {
            (Some(b), Some(rest)) => Some(seq![b as u8] + rest),
            _ => None,
        }
    }
}

/// The payload a `hex` field names: white space is ignored, the rest must be
/// an even number of ASCII characters read two by two.
pub open spec fn spec_parse_hex(s: Seq<char>) -> Option<Seq<u8>> {
    let c = strip_white(s);
    if !all_ascii(c) || c.len() % 2 != 0 {
        None
    } else {
        hex_pairs(c)
    }
}

/// The payload in uppercase hex, two digits per byte.
pub open spec fn hex_text(b: Seq<u8>) -> Seq<char>
    decreases b.len(),
{
    if b.len() == 0 {
        Seq::empty()
    } else {
        hex_text(b.drop_last()) + fixed_digits(b.last() as nat, 16, 2)
    }
}

/// The cheat that `Cheat::new` builds from these fields, if they are usable:
/// a non-blank name (trimmed), an address, 1 to 64 payload bytes, and no byte
/// landing in the MMIO window.
pub open spec fn spec_cheat_fields(name: Seq<char>, addr: Seq<char>, hex: Seq<char>) -> Option<(Seq<char>, u32, Seq<u8>)> {
    match (spec_parse_addr(addr), spec_parse_hex(hex)) {
        (Some(a), Some(b)) => {
            if trimmed(name).len() > 0 && 1 <= b.len() <= MAX_BYTES && (forall|i: int|
                0 <= i < b.len() ==> !is_mmio(#[trigger] spec_step_addr(a, i as u32))) {
                Some((trimmed(name), a, b))
            } else {
                None
            }
        },
        _ => None,
    }
}

fn strip_white_chars(v: &[char]) -> (r: Vec<char>)
    ensures
        r@ == strip_white(v@),
{
    let mut r: Vec<char> = Vec::new();
    let mut i: usize = 0;
    while i < v.len()
        invariant
            i <= v@.len(),
            r@ == strip_white(v@.take(i as int)),
        decreases v@.len() - i,
    {
        let c = v[i];
        proof {
            assert(v@.take(i + 1).drop_last() =~= v@.take(i as int));
            assert(v@.take(i + 1).last() == c);
        }
        if !char_is_whitespace(c) {
            r.push(c);
        }
        i = i + 1;
    }
    assert(v@.take(v@.len() as int) =~= v@);
    r
}

pub(crate) fn parse_hex(s: &str) -> (r: Result<Vec<u8>, String>)
    ensures
        r is Ok <==> spec_parse_hex(s@) is Some,
        r is Ok ==> r->Ok_0@ == spec_parse_hex(s@)->0,
{
    let v = chars_of(s);
    let c = strip_white_chars(v.as_slice());
    let mut ascii = true;
    let mut k: usize = 0;
    while k < c.len()
        invariant
            k <= c@.len(),
            ascii == (forall|i: int| 0 <= i < k ==> ((#[trigger] c@[i]) as u32) < 0x80),
        decreases c@.len() - k,
    {
        if (c[k] as u32) >= 0x80 {
            ascii = false;
        }
        k = k + 1;
    }
    if !ascii || c.len() % 2 != 0 {
        return Err(String::from_str("\"hex\" needs an even number of ASCII hex digits"));
    }
    let n = c.len() / 2;
    let mut out: Vec<u8> = Vec::new();
    proof {
        assert(c@.skip(0) =~= c@);
        match hex_pairs(c@) {
            Some(rest) => {
                assert(out@ + rest =~= rest);
            },
            None => {},
        }
    }
    let mut i: usize = 0;
    while i < n
        invariant
            n * 2 == c@.len(),
            i <= n,
            c@ == strip_white(s@),
            all_ascii(c@),
            hex_pairs(c@) == (match hex_pairs(c@.skip(2 * i)) {
                Some(rest) => Some(out@ + rest),
                None => None::<Seq<u8>>,
            }),
        decreases n - i,
    {
        let pair = crate::text::sub_chars(c.as_slice(), 2 * i, 2 * i + 2);
        let b = crate::text::parse_radix16(pair.as_slice(), 255);
        let ghost t = c@.skip(2 * i);
        proof {
            assert(pair@ =~= t.take(2));
            assert(t.skip(2) =~= c@.skip(2 * (i + 1)));
        }
        match b {
            None => {
                proof {
                    assert(hex_pairs(t) is None);
                }
                return Err(String::from_str("bad hex byte"));
            },
            Some(b) => {
                out.push(b as u8);
                proof {
                    assert(out@ =~= out@.drop_last() + seq![b as u8]);
                    match hex_pairs(c@.skip(2 * (i + 1))) {
                        Some(rest) => {
                            assert(out@.drop_last() + (seq![b as u8] + rest) =~= out@ + rest);
                        },
                        None => {},
                    }
                }
                i = i + 1;
            },
        }
    }
    assert(c@.skip(2 * n) =~= Seq::<char>::empty());
    assert(out@ + Seq::<u8>::empty() =~= out@);
    Ok(out)
}

fn to_hex(bytes: &[u8]) -> (r: String)
    ensures
        r@ == hex_text(bytes@),
{
    let mut r = String::new();
    let mut i: usize = 0;
    while i < bytes.len()
        invariant
            i <= bytes@.len(),
            r@ == hex_text(bytes@.take(i as int)),
        decreases bytes@.len() - i,
    {
        let d = fixed(bytes[i] as u64, 16, 2);
        push_chars(&mut r, d.as_slice());
        proof {
            assert(bytes@.take(i + 1).drop_last() =~= bytes@.take(i as int));
        }
        i = i + 1;
    }
    assert(bytes@.take(bytes@.len() as int) =~= bytes@);
    r
}

impl Cheat {
    /// Build one from the text an agent (or the file) provides, validating
    /// everything before it can ever reach the bus.
    pub fn new(name: String, addr: &str, hex: &str, kind: Kind, enabled: bool) -> (r: Result<Cheat, String>)
        ensures
            r is Ok <==> spec_cheat_fields(name@, addr@, hex@) is Some,
            r is Ok ==> ({
                let f = spec_cheat_fields(name@, addr@, hex@)->0;
                &&& r->Ok_0.name@ == f.0
                &&& r->Ok_0.addr == f.1
                &&& r->Ok_0.bytes@ == f.2
                &&& r->Ok_0.kind == kind
                &&& r->Ok_0.enabled == enabled
            }),
    {
        let nv = chars_of(name.as_str());
        let t = trim_chars(nv.as_slice());
        assert(t@ == trimmed(name@));
        if t.len() == 0 {
            return Err(String::from_str("\"name\" must not be empty"));
        }
        let a = match parse_addr(addr) {
            Ok(a) => a,
            Err(e) => {
                return Err(e);
            },
        };
        let bytes = match parse_hex(hex) {
            Ok(b) => b,
            Err(e) => {
                return Err(e);
            },
        };
        if bytes.len() == 0 || bytes.len() > MAX_BYTES {
            return Err(String::from_str("a cheat writes 1 to 64 bytes"));
        }
        let n = bytes.len() as u32;
        let mut i: u32 = 0;
        while i < n
            invariant
                n == bytes@.len(),
                n <= 64,
                1 <= n,
                spec_parse_addr(addr@) == Some(a),
                spec_parse_hex(hex@) == Some(bytes@),
                trimmed(name@).len() > 0,
                i <= n,
                forall|k: int| 0 <= k < i ==> !is_mmio(#[trigger] spec_step_addr(a, k as u32)),
            decreases n - i,
        {
            match check_addr(step_addr(a, i)) {
                Ok(()) => {},
                Err(e) => {
                    proof {
                        assert(((i as int) as u32) == i);
                        assert(is_mmio(spec_step_addr(a, (i as int) as u32)));
                    }
                    return Err(e);
                },
            }
            i = i + 1;
        }
        Ok(Cheat { name: string_of(t.as_slice()), addr: a, bytes, kind, enabled })
    }

    /// `7E:0DBE`, the spelling `--watch` and the agent channel use.
    pub fn addr_text(&self) -> (r: String)
        ensures
            r@ == spec_format_addr(self.addr),
    {
        format_addr(self.addr)
    }

    /// The payload in uppercase hex.
    pub fn hex(&self) -> (r: String)
        ensures
            r@ == hex_text(self.bytes@),
    {
        to_hex(self.bytes.as_slice())
    }
}

/// Every cheat of one game, one per name, plus the names of the `once`
/// cheats already written this session.
#[derive(Debug, Clone)]
pub struct Cheats {
    list: Vec<Cheat>,
    fired: Vec<String>,
}

impl Default for Cheats {
    fn default() -> (r: Cheats)
        ensures
            r@.len() == 0,
            r.fired().is_empty(),
    {
        let r = Cheats { list: Vec::new(), fired: Vec::new() };
        assert(r.fired() =~= Set::empty());
        r
    }
}

/// Index of the first cheat named `name`, or the length when there is none.
pub open spec fn first_named(s: Seq<Cheat>, name: Seq<char>) -> int
    decreases s.len(),
{
    if s.len() == 0 {
        0
    } else if s[0].name@ == name {
        0
    } else {
        1 + first_named(s.drop_first(), name)
    }
}

pub proof fn lemma_first_named(s: Seq<Cheat>, name: Seq<char>)
    ensures
        0 <= first_named(s, name) <= s.len(),
        first_named(s, name) < s.len() ==> s[first_named(s, name)].name@ == name,
        forall|k: int| 0 <= k < first_named(s, name) ==> s[k].name@ != name,
    decreases s.len(),
{
    if s.len() > 0 && s[0].name@ != name {
        let t = s.drop_first();
        lemma_first_named(t, name);
        assert forall|k: int| 0 <= k < first_named(s, name) implies s[k].name@ != name by {
            if k > 0 {
                assert(s[k] == t[k - 1]);
            }
        }
    }
}

/// The cheats not named `name`, in order.
pub open spec fn without_name(s: Seq<Cheat>, name: Seq<char>) -> Seq<Cheat>
    decreases s.len(),
{
    if s.len() == 0 {
        s
    } else if s.last().name@ == name {
        without_name(s.drop_last(), name)
    } else {
        without_name(s.drop_last(), name).push(s.last())
    }
}

/// The bus writes one cheat makes: its bytes at consecutive addresses.
pub open spec fn cheat_writes(c: Cheat) -> Seq<(u32, u8)> {
    Seq::new(c.bytes@.len(), |i: int| (spec_step_addr(c.addr, i as u32), c.bytes@[i]))
}

/// What one pass over `s` writes, in order, and which `once` names have
/// fired afterwards, starting from the set `fired`.
pub open spec fn apply_pass(s: Seq<Cheat>, fired: Set<Seq<char>>) -> (Seq<(u32, u8)>, Set<Seq<char>>)
    decreases s.len(),
{
    if s.len() == 0 {
        (Seq::empty(), fired)
    } else {
        let (w, f) = apply_pass(s.drop_last(), fired);
        let c = s.last();
        if !c.enabled {
            (w, f)
        } else if c.kind == Kind::Freeze {
            (w + cheat_writes(c), f)
        } else if f.contains(c.name@) {
            (w, f)
        } else {
            (w + cheat_writes(c), f.insert(c.name@))
        }
    }
}

/// The cheats of `s` whose name no earlier one carries: the first of
/// homonyms is kept.
pub open spec fn first_of_each(s: Seq<Cheat>) -> Seq<Cheat>
    decreases s.len(),
{
    if s.len() == 0 {
        s
    } else if first_named(s.drop_last(), s.last().name@) < s.len() - 1 {
        first_of_each(s.drop_last())
    } else {
        first_of_each(s.drop_last()).push(s.last())
    }
}

impl View for Cheats {
    type V = Seq<Cheat>;

    closed spec fn view(&self) -> Seq<Cheat> {
        self.list@
    }
}

impl Cheats {
    /// Names of the `once` cheats already written since the list last changed.
    pub closed spec fn fired(&self) -> Set<Seq<char>> {
        self.fired@.map_values(|n: String| n@).to_set()
    }

    /// A list with nothing fired yet.
    pub fn from_list(list: Vec<Cheat>) -> (r: Cheats)
        ensures
            r@ == list@,
            r.fired().is_empty(),
    {
        let r = Cheats { list, fired: Vec::new() };
        assert(r.fired() =~= Set::empty());
        r
    }

    /// The list in order.
    pub fn list(&self) -> (r: &[Cheat])
        ensures
            r@ == self@,
    {
        self.list.as_slice()
    }

    pub fn is_empty(&self) -> (r: bool)
        ensures
            r == (self@.len() == 0),
    {
        self.list.len() == 0
    }

    fn find(&self, name: &str) -> (r: usize)
        ensures
            r == first_named(self@, name@),
    {
        proof {
            lemma_first_named(self@, name@);
        }
        let mut i: usize = 0;
        while i < self.list.len()
            invariant
                i <= self.list@.len(),
                forall|k: int| 0 <= k < i ==> self.list@[k].name@ != name@,
            decreases self.list@.len() - i,
        {
            if str_eq(self.list[i].name.as_str(), name) {
                proof {
                    lemma_first_named(self@, name@);
                }
                return i;
            }
            i = i + 1;
        }
        proof {
            lemma_first_named(self@, name@);
        }
        i
    }

    fn forget_fired(&mut self)
        ensures
            final(self)@ == old(self)@,
            final(self).fired().is_empty(),
    {
        self.fired = Vec::new();
        assert(self.fired() =~= Set::empty());
    }

    /// Add one, or replace the cheat of the same name; returns whether one
    /// was replaced. The fired set is forgotten.
    pub fn add(&mut self, cheat: Cheat) -> (replaced: bool)
        ensures
            replaced == (first_named(old(self)@, cheat.name@) < old(self)@.len()),
            replaced == exists|i: int| 0 <= i < old(self)@.len() && (#[trigger] old(self)@[i]).name@ == cheat.name@,
            replaced ==> final(self)@ == old(self)@.update(first_named(old(self)@, cheat.name@), cheat),
            !replaced ==> final(self)@ == old(self)@.push(cheat),
            names_unique(old(self)@) ==> names_unique(final(self)@),
            final(self).fired().is_empty(),
    {
        proof {
            lemma_first_named(self@, cheat.name@);
            if names_unique(self@) {
                law_add_keeps_names_unique(self@, cheat);
            }
        }
        self.forget_fired();
        let i = self.find(cheat.name.as_str());
        if i < self.list.len() {
            self.list.remove(i);
            self.list.insert(i, cheat);
            assert(self.list@ =~= old(self)@.update(i as int, cheat));
            true
        } else {
            self.list.push(cheat);
            false
        }
    }

    /// Remove every cheat named `name`; returns whether one was there.
    pub fn remove(&mut self, name: &str) -> (removed: bool)
        ensures
            final(self)@ == without_name(old(self)@, name@),
            removed == (final(self)@.len() != old(self)@.len()),
            final(self).fired().is_empty(),
    {
        self.forget_fired();
        let ghost orig = self.list@;
        let before = self.list.len();
        let mut i: usize = 0;
        let ghost mut j: int = 0;
        while i < self.list.len()
            invariant
                0 <= j <= orig.len(),
                self.fired().is_empty(),
                i == without_name(orig.take(j), name@).len(),
                self.list@ == without_name(orig.take(j), name@) + orig.skip(j),
            decreases self.list@.len() - i,
        {
            proof {
                assert(orig.take(j + 1).drop_last() =~= orig.take(j));
                assert(orig.take(j + 1).last() == orig[j]);
                assert(self.list@[i as int] == orig[j]);
            }
            if str_eq(self.list[i].name.as_str(), name) {
                self.list.remove(i);
                proof {
                    assert(self.list@ =~= without_name(orig.take(j + 1), name@) + orig.skip(j + 1));
                }
            } else {
                proof {
                    assert(self.list@ =~= without_name(orig.take(j + 1), name@) + orig.skip(j + 1));
                }
                i = i + 1;
            }
            proof {
                j = j + 1;
            }
        }
        proof {
            assert(orig.take(j) =~= orig);
            assert(self.list@ =~= without_name(orig, name@));
        }
        self.list.len() != before
    }

    /// Turn one on or off; `None` when no cheat carries that name.
    pub fn set_enabled(&mut self, name: &str, enabled: bool) -> (r: Option<&Cheat>)
        ensures
            final(self).fired().is_empty(),
            r is Some <==> first_named(old(self)@, name@) < old(self)@.len(),
            r is None ==> final(self)@ == old(self)@,
            r is Some ==> ({
                let i = first_named(old(self)@, name@);
                let c = old(self)@[i];
                &&& final(self)@ == old(self)@.update(i, Cheat { enabled, ..c })
                &&& *r->Some_0 == Cheat { enabled, ..c }
            }),
    {
        self.forget_fired();
        let i = self.find(name);
        if i < self.list.len() {
            let mut c = self.list.remove(i);
            c.enabled = enabled;
            self.list.insert(i, c);
            assert(self.list@ =~= old(self)@.update(i as int, c));
            Some(&self.list[i])
        } else {
            None
        }
    }

    /// Every name the list holds, in order.
    pub fn names(&self) -> (r: Vec<String>)
        ensures
            r@.len() == self@.len(),
            forall|k: int| 0 <= k < r@.len() ==> r@[k] == self@[k].name,
    {
        let mut r: Vec<String> = Vec::new();
        let mut i: usize = 0;
        while i < self.list.len()
            invariant
                i <= self.list@.len(),
                r@.len() == i,
                forall|k: int| 0 <= k < i ==> r@[k] == self.list@[k].name,
            decreases self.list@.len() - i,
        {
            r.push(self.list[i].name.clone());
            i = i + 1;
        }
        r
    }

    fn has_fired(&self, name: &str) -> (r: bool)
        ensures
            r == self.fired().contains(name@),
    {
        let mut i: usize = 0;
        while i < self.fired.len()
            invariant
                i <= self.fired@.len(),
                forall|k: int| 0 <= k < i ==> self.fired@[k]@ != name@,
            decreases self.fired@.len() - i,
        {
            if str_eq(self.fired[i].as_str(), name) {
                proof {
                    let m = self.fired@.map_values(|n: String| n@);
                    assert(m[i as int] == name@);
                    assert(m.contains(name@));
                }
                return true;
            }
            i = i + 1;
        }
        proof {
            let m = self.fired@.map_values(|n: String| n@);
            if m.contains(name@) {
                let k = choose|k: int| 0 <= k < m.len() && m[k] == name@;
                assert(self.fired@[k]@ == name@);
            }
        }
        false
    }

    fn mark_fired(&mut self, name: String)
        ensures
            final(self)@ == old(self)@,
            final(self).fired() == old(self).fired().insert(name@),
    {
        let ghost before = self.fired@.map_values(|n: String| n@);
        self.fired.push(name);
        proof {
            let after = self.fired@.map_values(|n: String| n@);
            assert(after =~= before.push(name@));
            assert(after.to_set() =~= before.to_set().insert(name@)) by {
                assert forall|x: Seq<char>| #[trigger] after.contains(x) <==> (before.contains(x) || x == name@) by {
                    if after.contains(x) {
                        let k = choose|k: int| 0 <= k < after.len() && after[k] == x;
                        if k < before.len() {
                            assert(before[k] == x);
                        }
                    }
                    if before.contains(x) {
                        let k = choose|k: int| 0 <= k < before.len() && before[k] == x;
                        assert(after[k] == x);
                    }
                    if x == name@ {
                        assert(after[before.len() as int] == x);
                    }
                }
            }
        }
    }

    /// The bus writes of one pass after a frame: every enabled `freeze`
    /// cheat, and every enabled `once` cheat that has not fired yet, which is
    /// then marked as fired. The list itself is unchanged.
    pub fn apply(&mut self) -> (w: Vec<(u32, u8)>)
        ensures
            final(self)@ == old(self)@,
            (w@, final(self).fired()) == apply_pass(old(self)@, old(self).fired()),
    {
        let mut w: Vec<(u32, u8)> = Vec::new();
        let n = self.list.len();
        let ghost f0 = self.fired();
        let mut i: usize = 0;
        while i < n
            invariant
                n == self.list@.len(),
                self.list@ == old(self)@,
                f0 == old(self).fired(),
                i <= n,
                (w@, self.fired()) == apply_pass(self.list@.take(i as int), f0),
            decreases n - i,
        {
            proof {
                assert(self.list@.take(i + 1).drop_last() =~= self.list@.take(i as int));
                assert(self.list@.take(i + 1).last() == self.list@[i as int]);
            }
            let enabled = self.list[i].enabled;
            let kind = self.list[i].kind;
            if enabled {
                let fire = match kind {
                    Kind::Freeze => true,
                    Kind::Once => !self.has_fired(self.list[i].name.as_str()),
                };
                if fire {
                    let ghost w0 = w@;
                    let c = &self.list[i];
                    let mut k: usize = 0;
                    while k < c.bytes.len()
                        invariant
                            k <= c.bytes@.len(),
                            w@ == w0 + cheat_writes(*c).take(k as int),
                        decreases c.bytes@.len() - k,
                    {
                        let a = step_addr(c.addr, k as u32);
                        w.push((a, c.bytes[k]));
                        proof {
                            assert(cheat_writes(*c).take(k + 1) =~= cheat_writes(*c).take(k as int).push((a, c.bytes@[k as int])));
                        }
                        k = k + 1;
                    }
                    proof {
                        assert(cheat_writes(*c).take(k as int) =~= cheat_writes(*c));
                    }
                    if kind == Kind::Once {
                        let nm = self.list[i].name.clone();
                        self.mark_fired(nm);
                    }
                }
            }
            i = i + 1;
        }
        proof {
            assert(self.list@.take(n as int) =~= self.list@);
        }
        w
    }

    /// Let the `once` cheats fire again.
    pub fn rearm(&mut self)
        ensures
            final(self)@ == old(self)@,
            final(self).fired().is_empty(),
    {
        self.forget_fired();
    }
}

/// The entries of a file in order, dropping any whose name an earlier entry
/// already carries: the first of homonyms is kept.
pub fn keep_first(entries: Vec<Cheat>) -> (r: Vec<Cheat>)
    ensures
        r@ == first_of_each(entries@),
{
    let mut out = Cheats::from_list(Vec::new());
    let ghost orig = entries@;
    let mut rest = entries;
    let ghost mut j: int = 0;
    while rest.len() > 0
        invariant
            0 <= j <= orig.len(),
            rest@ == orig.skip(j),
            out@ == first_of_each(orig.take(j)),
        decreases rest@.len(),
    {
        let c = rest.remove(0);
        proof {
            assert(orig.take(j + 1).drop_last() =~= orig.take(j));
            assert(c == orig[j]);
            assert(orig.take(j + 1).last() == orig[j]);
            assert(orig.skip(j + 1) =~= orig.skip(j).drop_first());
        }
        let i = out.find(c.name.as_str());
        proof {
            lemma_first_of_each_names(orig.take(j), c.name@);
            lemma_first_named(orig.take(j), c.name@);
            lemma_first_named(out@, c.name@);
            assert(orig.take(j).len() == j);
        }
        if i == out.list.len() {
            out.list.push(c);
            assert(out@ == first_of_each(orig.take(j + 1)));
        } else {
            assert(out@ == first_of_each(orig.take(j + 1)));
        }
        proof {
            j = j + 1;
        }
    }
    proof {
        assert(orig.take(j) =~= orig);
    }
    out.list
}

/// A name occurs in the kept entries exactly when it occurs in the input.
proof fn lemma_first_of_each_names(s: Seq<Cheat>, name: Seq<char>)
    ensures
        (first_named(first_of_each(s), name) < first_of_each(s).len()) == (first_named(s, name) < s.len()),
    decreases s.len(),
{
    lemma_first_named(s, name);
    lemma_first_named(first_of_each(s), name);
    if s.len() > 0 {
        let t = s.drop_last();
        lemma_first_of_each_names(t, name);
        lemma_first_of_each_names(t, s.last().name@);
        lemma_first_named(t, name);
        lemma_first_named(first_of_each(t), name);
        lemma_first_named(t, s.last().name@);
        if first_named(t, name) < t.len() {
            assert(s[first_named(t, name)] == t[first_named(t, name)]);
        }
        if first_named(s, name) < s.len() && first_named(s, name) < t.len() {
            assert(t[first_named(s, name)] == s[first_named(s, name)]);
        }
        let ft = first_of_each(t);
        if first_named(ft, name) < ft.len() {
            let k = first_named(ft, name);
            let fs = first_of_each(s);
            assert(fs[k] == ft[k]);
        }
        if first_of_each(s) != first_of_each(t) {
            let fs = first_of_each(s);
            assert(fs == ft.push(s.last()));
            if s.last().name@ == name {
                assert(fs[ft.len() as int].name@ == name);
            }
            if first_named(fs, name) < fs.len() && first_named(fs, name) < ft.len() {
                assert(ft[first_named(fs, name)] == fs[first_named(fs, name)]);
            }
        }
    }
}

/// No two cheats of `s` share a name.
pub open spec fn names_unique(s: Seq<Cheat>) -> bool {
    forall|i: int, j: int| 0 <= i < j < s.len() ==> (#[trigger] s[i]).name@ != (#[trigger] s[j]).name@
}

/// A name is the identity of a cheat: adding one (which replaces the cheat
/// of the same name, or appends) keeps every name unique.
pub proof fn law_add_keeps_names_unique(s: Seq<Cheat>, c: Cheat)
    requires
        names_unique(s),
    ensures
        names_unique(if first_named(s, c.name@) < s.len() {
            s.update(first_named(s, c.name@), c)
        } else {
            s.push(c)
        }),
{
    lemma_first_named(s, c.name@);
    let k = first_named(s, c.name@);
    if k < s.len() {
        let t = s.update(k, c);
        assert forall|i: int, j: int| 0 <= i < j < t.len() implies (#[trigger] t[i]).name@ != (#[trigger] t[j]).name@ by {
            if i == k {
                assert(s[k].name@ == c.name@);
            } else if j == k {
                assert(s[k].name@ == c.name@);
            }
        }
    } else {
        let t = s.push(c);
        assert forall|i: int, j: int| 0 <= i < j < t.len() implies (#[trigger] t[i]).name@ != (#[trigger] t[j]).name@ by {
            if j == s.len() {
                assert(t[i] == s[i]);
            }
        }
    }
}

/// After a removal no cheat of that name is left.
pub proof fn law_removed_name_is_gone(s: Seq<Cheat>, name: Seq<char>)
    ensures
        forall|i: int| 0 <= i < without_name(s, name).len() ==> (#[trigger] without_name(s, name)[i]).name@ != name,
    decreases s.len(),
{
    if s.len() > 0 {
        law_removed_name_is_gone(s.drop_last(), name);
    }
}

/// Reading a file keeps one cheat per name: the kept entries never share a
/// name.
pub proof fn law_kept_entries_have_unique_names(s: Seq<Cheat>)
    ensures
        names_unique(first_of_each(s)),
    decreases s.len(),
{
    if s.len() > 0 {
        let t = s.drop_last();
        law_kept_entries_have_unique_names(t);
        lemma_first_of_each_names(t, s.last().name@);
        lemma_first_named(first_of_each(t), s.last().name@);
        let f = first_of_each(t);
        if first_named(t, s.last().name@) >= t.len() {
            lemma_first_named(t, s.last().name@);
            let g = f.push(s.last());
            assert forall|i: int, j: int| 0 <= i < j < g.len() implies (#[trigger] g[i]).name@ != (#[trigger] g[j]).name@ by {
                if j == f.len() {
                    assert(g[i] == f[i]);
                    assert(first_named(f, s.last().name@) >= f.len());
                }
            }
        }
    }
}

} // verus!
