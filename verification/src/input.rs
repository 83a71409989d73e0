//! The settings panel's "press a key…" capture: which of the twelve SNES
//! buttons is waiting for a key or a controller button, and what one press
//! does to it. The physical keys themselves belong to the windowing layer;
//! here a press is what that layer makes of it (Escape, a key reserved for
//! an application shortcut, or any other key).

use crate::text::{chars_of, push_str, str_eq};
use vstd::prelude::*;

verus! {

/// One of the twelve SNES button names (the `--script` spelling).
pub open spec fn is_button(s: Seq<char>) -> bool {
    s == "Up"@ || s == "Down"@ || s == "Left"@ || s == "Right"@ || s == "B"@ || s == "A"@ || s == "Y"@ || s == "X"@ || s == "L"@ || s == "R"@ || s == "Start"@ || s == "Select"@
}

/// The canonical name of a button, or `None` when the name is not one of the
/// twelve.
pub fn button_name(name: &str) -> (r: Option<&'static str>)
    ensures
        r matches Some(b) ==> b@ == name@ && is_button(name@),
        r is None ==> !is_button(name@),
{
    if str_eq(name, "Up") {
        Some("Up")
    } else if str_eq(name, "Down") {
        Some("Down")
    } else if str_eq(name, "Left") {
        Some("Left")
    } else if str_eq(name, "Right") {
        Some("Right")
    } else if str_eq(name, "B") {
        Some("B")
    } else if str_eq(name, "A") {
        Some("A")
    } else if str_eq(name, "Y") {
        Some("Y")
    } else if str_eq(name, "X") {
        Some("X")
    } else if str_eq(name, "L") {
        Some("L")
    } else if str_eq(name, "R") {
        Some("R")
    } else if str_eq(name, "Start") {
        Some("Start")
    } else if str_eq(name, "Select") {
        Some("Select")
    } else {
        None
    }
}

/// What player 1's controller holds on one frame: one flag per button.
#[derive(Debug, Clone, Copy, PartialEq, Eq, Structural)]
pub struct Joypad {
    pub a: bool,
    pub b: bool,
    pub x: bool,
    pub y: bool,
    pub l: bool,
    pub r: bool,
    pub start: bool,
    pub select: bool,
    pub up: bool,
    pub down: bool,
    pub left: bool,
    pub right: bool,
}

/// No button held.
pub open spec fn released() -> Joypad {
    Joypad {
        a: false,
        b: false,
        x: false,
        y: false,
        l: false,
        r: false,
        start: false,
        select: false,
        up: false,
        down: false,
        left: false,
        right: false,
    }
}

/// The place of a button in the controller's fields, in the order A, B,
/// X, Y, L, R, Start, Select, Up, Down, Left, Right.
#[verifier::opaque]
pub open spec fn button_slot(name: Seq<char>) -> Option<u8> {
    if name == "A"@ {
        Some(0)
    } else if name == "B"@ {
        Some(1)
    } else if name == "X"@ {
        Some(2)
    } else if name == "Y"@ {
        Some(3)
    } else if name == "L"@ {
        Some(4)
    } else if name == "R"@ {
        Some(5)
    } else if name == "Start"@ {
        Some(6)
    } else if name == "Select"@ {
        Some(7)
    } else if name == "Up"@ {
        Some(8)
    } else if name == "Down"@ {
        Some(9)
    } else if name == "Left"@ {
        Some(10)
    } else if name == "Right"@ {
        Some(11)
    } else {
        None
    }
}

/// `j` with the button in slot `k` set to `pressed`.
pub open spec fn with_slot(j: Joypad, k: u8, pressed: bool) -> Joypad {
    if k == 0 {
        Joypad { a: pressed, ..j }
    } else if k == 1 {
        Joypad { b: pressed, ..j }
    } else if k == 2 {
        Joypad { x: pressed, ..j }
    } else if k == 3 {
        Joypad { y: pressed, ..j }
    } else if k == 4 {
        Joypad { l: pressed, ..j }
    } else if k == 5 {
        Joypad { r: pressed, ..j }
    } else if k == 6 {
        Joypad { start: pressed, ..j }
    } else if k == 7 {
        Joypad { select: pressed, ..j }
    } else if k == 8 {
        Joypad { up: pressed, ..j }
    } else if k == 9 {
        Joypad { down: pressed, ..j }
    } else if k == 10 {
        Joypad { left: pressed, ..j }
    } else {
        Joypad { right: pressed, ..j }
    }
}

/// `j` with the button named `name` set to `pressed`; an unknown name
/// changes nothing.
pub open spec fn with_button(j: Joypad, name: Seq<char>, pressed: bool) -> Joypad {
    match button_slot(name) {
        Some(k) => with_slot(j, k, pressed),
        None => j,
    }
}

fn slot_of(name: &str) -> (r: Option<u8>)
    ensures
        r == button_slot(name@),
        r is Some <==> is_button(name@),
{
    reveal(button_slot);
    if str_eq(name, "A") {
        Some(0)
    } else if str_eq(name, "B") {
        Some(1)
    } else if str_eq(name, "X") {
        Some(2)
    } else if str_eq(name, "Y") {
        Some(3)
    } else if str_eq(name, "L") {
        Some(4)
    } else if str_eq(name, "R") {
        Some(5)
    } else if str_eq(name, "Start") {
        Some(6)
    } else if str_eq(name, "Select") {
        Some(7)
    } else if str_eq(name, "Up") {
        Some(8)
    } else if str_eq(name, "Down") {
        Some(9)
    } else if str_eq(name, "Left") {
        Some(10)
    } else if str_eq(name, "Right") {
        Some(11)
    } else {
        None
    }
}

/// The controller holding every button `names` names (unknown names aside).
pub open spec fn pad_of(names: Seq<Seq<char>>) -> Joypad
    decreases names.len(),
{
    if names.len() == 0 {
        released()
    } else {
        with_button(pad_of(names.drop_last()), names.last(), true)
    }
}

impl Default for Joypad {
    fn default() -> (r: Joypad)
        ensures
            r == released(),
    {
        Joypad {
            a: false,
            b: false,
            x: false,
            y: false,
            l: false,
            r: false,
            start: false,
            select: false,
            up: false,
            down: false,
            left: false,
            right: false,
        }
    }
}

impl Joypad {
    /// Set a button by its CLI/script name; a name that is not one of the
    /// twelve is refused and changes nothing.
    pub fn set_button(&mut self, name: &str, pressed: bool) -> (r: Result<(), String>)
        ensures
            r is Ok <==> is_button(name@),
            *final(self) == with_button(*old(self), name@, pressed),
            r matches Err(e) ==> e@ == "unknown button name: "@ + name@,
    {
        match slot_of(name) {
            Some(k) => {
                self.set_slot(k, pressed);
                Ok(())
            },
            None => {
                let mut e = String::from_str("unknown button name: ");
                push_str(&mut e, name);
                Err(e)
            },
        }
    }

    fn set_slot(&mut self, k: u8, pressed: bool)
        ensures
            *final(self) == with_slot(*old(self), k, pressed),
    {
        if k == 0 {
            self.a = pressed;
        } else if k == 1 {
            self.b = pressed;
        } else if k == 2 {
            self.x = pressed;
        } else if k == 3 {
            self.y = pressed;
        } else if k == 4 {
            self.l = pressed;
        } else if k == 5 {
            self.r = pressed;
        } else if k == 6 {
            self.start = pressed;
        } else if k == 7 {
            self.select = pressed;
        } else if k == 8 {
            self.up = pressed;
        } else if k == 9 {
            self.down = pressed;
        } else if k == 10 {
            self.left = pressed;
        } else {
            self.right = pressed;
        }
    }

    /// The controller holding every button of `names` (unknown names are
    /// passed over).
    pub fn holding(names: &Vec<String>) -> (r: Joypad)
        ensures
            r == pad_of(names@.map_values(|s: String| s@)),
    {
        let ghost v = names@.map_values(|s: String| s@);
        let mut j = Joypad::default();
        let mut i: usize = 0;
        while i < names.len()
            invariant
                v == names@.map_values(|s: String| s@),
                i <= names@.len(),
                j == pad_of(v.take(i as int)),
            decreases names@.len() - i,
        {
            assert(v.take(i + 1).drop_last() =~= v.take(i as int));
            assert(v.take(i + 1).last() == names@[i as int]@);
            let _ = j.set_button(names[i].as_str(), true);
            i = i + 1;
        }
        assert(v.take(v.len() as int) =~= v);
        j
    }
}

/// What `bind_key` or the pad's binding did, so the panel can tell the
/// player.
#[derive(Debug, Clone, Copy, PartialEq, Eq)]
pub enum BindResult {
    /// Nothing changed.
    Unchanged,
    /// The key was free; only the target button changed.
    Bound,
    /// The key was in use: the two buttons swapped bindings.
    Swapped(&'static str),
    /// The key was claimed by a button with nothing to receive in exchange:
    /// its explicit entry was dropped, back to its built-in binding.
    Reverted(&'static str),
}

/// Which device a capture is waiting on.
#[derive(Debug, Clone, Copy, PartialEq, Eq, Structural)]
pub enum Device {
    Keyboard,
    Gamepad,
}

/// A key press as the windowing layer reports it to a capture.
#[derive(Debug, Clone, PartialEq, Eq)]
pub enum Press {
    /// Escape: always a way out.
    Escape,
    /// A key that drives an application function: what it does, and the
    /// key's label for the notice.
    Reserved { what: &'static str, label: String },
    /// Any other key.
    Other,
}

/// Outcome of a key press while a capture is pending.
#[derive(Debug, Clone, PartialEq, Eq)]
pub enum Captured {
    /// Not capturing, or a key while the capture waits for a controller.
    Ignored,
    /// Escape: the capture was abandoned.
    Cancelled,
    /// A key reserved for an application shortcut was refused; the capture
    /// stays pending.
    Reserved(&'static str),
    /// Assign the pressed key to `button`.
    Key { button: &'static str },
}

/// The refusal shown under the bindings list for a reserved key.
pub open spec fn reserved_notice(label: Seq<char>, what: Seq<char>) -> Seq<char> {
    label + " est déjà un raccourci de l'application ("@ + what + ")."@
}

/// The settings panel's capture state.
#[derive(Debug, Clone, PartialEq, Eq)]
pub struct Capture {
    pending: Option<(&'static str, Device)>,
    /// Last thing worth telling the player.
    pub notice: Option<String>,
}

pub open spec fn pending_view(p: Option<(&'static str, Device)>) -> Option<(Seq<char>, Device)> {
    match p {
        Some((b, d)) => Some((b@, d)),
        None => None,
    }
}

pub open spec fn awaited_device(p: Option<(Seq<char>, Device)>) -> Option<Device> {
    match p {
        Some((_, d)) => Some(d),
        None => None,
    }
}

pub open spec fn awaited_button(p: Option<(Seq<char>, Device)>) -> Option<Seq<char>> {
    match p {
        Some((b, _)) => Some(b),
        None => None,
    }
}

impl Default for Capture {
    fn default() -> (r: Capture)
        ensures
            r.pending_spec() is None,
            r.notice_view() is None,
    {
        Capture { pending: None, notice: None }
    }
}

impl Capture {
    /// The notice shown under the bindings list.
    pub closed spec fn notice_view(&self) -> Option<String> {
        self.notice
    }

    /// The button and device awaited, as text.
    pub closed spec fn pending_spec(&self) -> Option<(Seq<char>, Device)> {
        pending_view(self.pending)
    }

    /// Only a real button is ever awaited.
    pub closed spec fn wf(&self) -> bool {
        self.pending matches Some((b, _)) ==> is_button(b@)
    }

    /// Button and device currently awaited, if any.
    pub fn pending(&self) -> (r: Option<(&'static str, Device)>)
        ensures
            pending_view(r) == self.pending_spec(),
    {
        self.pending
    }

    /// True while a press must be routed here.
    pub fn is_active(&self) -> (r: bool)
        ensures
            r == self.pending_spec() is Some,
    {
        self.pending.is_some()
    }

    /// Button awaited on `device`.
    pub fn waiting_for(&self, device: Device) -> (r: Option<&'static str>)
        ensures
            (match r { Some(b) => Some(b@), None => None }) == (match self.pending_spec() {
                Some((b, d)) => if d == device { Some(b) } else { None },
                None => None,
            }),
    {
        match self.pending {
            Some((b, d)) => if d == device {
                Some(b)
            } else {
                None
            },
            None => None,
        }
    }

    /// Start (or move) the capture; an unknown button name is refused.
    pub fn start(&mut self, button: &str, device: Device)
        requires
            old(self).wf(),
        ensures
            final(self).wf(),
            is_button(button@) ==> final(self).pending_spec() == Some((button@, device)) && final(self).notice_view() is None,
            !is_button(button@) ==> final(self).pending_spec() == old(self).pending_spec() && final(self).notice_view() == old(self).notice_view(),
    {
        match button_name(button) {
            Some(b) => {
                self.pending = Some((b, device));
                self.notice = None;
            },
            None => {},
        }
    }

    /// Abandon the capture.
    pub fn cancel(&mut self)
        ensures
            final(self).wf(),
            final(self).pending_spec() is None,
            final(self).notice_view() == old(self).notice_view(),
    {
        self.pending = None;
    }

    /// Feed one key press to the capture: Escape cancels on either device, a
    /// controller capture ignores the keyboard, a reserved key is refused
    /// with a notice and the capture stays open, any other key ends it.
    pub fn on_key(&mut self, press: Press) -> (r: Captured)
        requires
            old(self).wf(),
        ensures
            final(self).wf(),
            old(self).pending_spec() is None ==> r == Captured::Ignored && final(self).pending_spec() is None
                && final(self).notice_view() == old(self).notice_view(),
            old(self).pending_spec() is Some && press == Press::Escape ==> r == Captured::Cancelled
                && final(self).pending_spec() is None && final(self).notice_view() is None,
            (awaited_device(old(self).pending_spec()) == Some(Device::Gamepad)
                && press != Press::Escape) ==> (r == Captured::Ignored && final(self).pending_spec()
                == old(self).pending_spec() && final(self).notice_view() == old(self).notice_view()),
            (awaited_device(old(self).pending_spec()) == Some(Device::Keyboard)
                && press is Reserved) ==> (r == Captured::Reserved(press->what) && final(self).pending_spec()
                == old(self).pending_spec() && final(self).notice_view() is Some
                && final(self).notice_view()->0@ == reserved_notice(press->label@, press->what@)),
            (awaited_device(old(self).pending_spec()) == Some(Device::Keyboard)
                && press == Press::Other) ==> (r is Key && Some(r->button@) == awaited_button(old(self).pending_spec())
                && final(self).pending_spec() is None && final(self).notice_view() == old(self).notice_view()),
    {
        let (button, device) = match self.pending {
            Some(p) => p,
            None => {
                return Captured::Ignored;
            },
        };
        match press {
            Press::Escape => {
                self.pending = None;
                self.notice = None;
                Captured::Cancelled
            },
            Press::Reserved { what, label } => {
                if device != Device::Keyboard {
                    return Captured::Ignored;
                }
                let mut n = label;
                push_str(&mut n, " est déjà un raccourci de l'application (");
                push_str(&mut n, what);
                push_str(&mut n, ").");
                self.notice = Some(n);
                Captured::Reserved(what)
            },
            Press::Other => {
                if device != Device::Keyboard {
                    return Captured::Ignored;
                }
                self.pending = None;
                Captured::Key { button }
            },
        }
    }

    /// Consume a controller-button capture: the button that was waiting, and
    /// the capture ends; `None` when it is not aimed at the controller.
    pub fn take_gamepad(&mut self) -> (r: Option<&'static str>)
        requires
            old(self).wf(),
        ensures
            final(self).wf(),
            (awaited_device(old(self).pending_spec()) == Some(Device::Gamepad)) ==> (r is Some
                && Some(r->0@) == awaited_button(old(self).pending_spec()) && final(self).pending_spec() is None),
            !(awaited_device(old(self).pending_spec()) == Some(Device::Gamepad)) ==> (r is None
                && final(self).pending_spec() == old(self).pending_spec()),
            final(self).notice_view() == old(self).notice_view(),
    {
        match self.waiting_for(Device::Gamepad) {
            Some(b) => {
                self.pending = None;
                Some(b)
            },
            None => None,
        }
    }
}

// --- names to names -------------------------------------------------------

/// A preferences map from names to names (a button to the key or controller
/// button bound to it), as its entries; when a name occurs twice the later
/// entry is the one that counts.
pub open spec fn map_of(m: Seq<(String, String)>) -> Map<Seq<char>, Seq<char>>
    decreases m.len(),
{
    if m.len() == 0 {
        Map::empty()
    } else {
        map_of(m.drop_last()).insert(m.last().0@, m.last().1@)
    }
}

/// The entries whose name is not `k`.
pub open spec fn without(m: Seq<(String, String)>, k: Seq<char>) -> Seq<(String, String)>
    decreases m.len(),
{
    if m.len() == 0 {
        Seq::empty()
    } else if m.last().0@ == k {
        without(m.drop_last(), k)
    } else {
        without(m.drop_last(), k).push(m.last())
    }
}

proof fn lemma_without(m: Seq<(String, String)>, k: Seq<char>)
    ensures
        map_of(without(m, k)) == map_of(m).remove(k),
    decreases m.len(),
{
    if m.len() == 0 {
        assert(map_of(m).remove(k) =~= Map::<Seq<char>, Seq<char>>::empty());
    } else {
        let m0 = m.drop_last();
        lemma_without(m0, k);
        if m.last().0@ == k {
            assert(map_of(m).remove(k) =~= map_of(m0).remove(k));
        } else {
            let w = without(m0, k).push(m.last());
            assert(w.drop_last() =~= without(m0, k));
            assert(map_of(w) =~= map_of(m).remove(k));
        }
    }
}

/// The value `m` holds for `k`.
pub fn map_get<'a>(m: &'a Vec<(String, String)>, k: &str) -> (r: Option<&'a String>)
    ensures
        r matches Some(v) ==> map_of(m@).contains_key(k@) && map_of(m@)[k@] == v@,
        r is None ==> !map_of(m@).contains_key(k@),
{
    let mut i: usize = m.len();
    assert(m@.take(m@.len() as int) =~= m@);
    while i > 0
        invariant
            i <= m@.len(),
            map_of(m@).contains_key(k@) == map_of(m@.take(i as int)).contains_key(k@),
            map_of(m@).contains_key(k@) ==> map_of(m@)[k@] == map_of(m@.take(i as int))[k@],
        decreases i,
    {
        let ghost t = m@.take(i as int);
        assert(t.drop_last() =~= m@.take(i - 1));
        assert(t.last() == m@[i - 1]);
        if str_eq(m[i - 1].0.as_str(), k) {
            return Some(&m[i - 1].1);
        }
        i = i - 1;
    }
    None
}

/// Drop every entry for `k`.
pub fn map_remove(m: &mut Vec<(String, String)>, k: &str)
    ensures
        map_of(final(m)@) == map_of(old(m)@).remove(k@),
{
    let mut r: Vec<(String, String)> = Vec::new();
    let mut i: usize = 0;
    while i < m.len()
        invariant
            i <= m@.len(),
            r@ == without(m@.take(i as int), k@),
        decreases m@.len() - i,
    {
        assert(m@.take(i + 1).drop_last() =~= m@.take(i as int));
        if !str_eq(m[i].0.as_str(), k) {
            let e = (m[i].0.clone(), m[i].1.clone());
            r.push(e);
        }
        i = i + 1;
    }
    assert(m@.take(m@.len() as int) =~= m@);
    proof {
        lemma_without(m@, k@);
    }
    *m = r;
}

/// Bind `k` to `v`, replacing what it held.
pub fn map_insert(m: &mut Vec<(String, String)>, k: &str, v: &str)
    ensures
        map_of(final(m)@) == map_of(old(m)@).insert(k@, v@),
{
    map_remove(m, k);
    let ghost m1 = m@;
    m.push((String::from_str(k), String::from_str(v)));
    assert(m@.drop_last() =~= m1);
    assert(map_of(m@) =~= map_of(old(m)@).insert(k@, v@));
}

// --- the keyboard ---------------------------------------------------------

/// The twelve buttons in the settings panel's order: the D-pad, the
/// diamond, the shoulders and the two menu buttons.
pub open spec fn button_at(i: int) -> Seq<char> {
    if i == 0 {
        "Up"@
    } else if i == 1 {
        "Down"@
    } else if i == 2 {
        "Left"@
    } else if i == 3 {
        "Right"@
    } else if i == 4 {
        "B"@
    } else if i == 5 {
        "A"@
    } else if i == 6 {
        "Y"@
    } else if i == 7 {
        "X"@
    } else if i == 8 {
        "L"@
    } else if i == 9 {
        "R"@
    } else if i == 10 {
        "Start"@
    } else {
        "Select"@
    }
}

/// The built-in key of each button (physical key positions, by their
/// `KeyCode` names): arrows, Z=B, X=A, A=Y, S=X, Q=L, W=R, Enter=Start,
/// right Shift=Select.
pub open spec fn default_key_at(i: int) -> Seq<char> {
    if i == 0 {
        "ArrowUp"@
    } else if i == 1 {
        "ArrowDown"@
    } else if i == 2 {
        "ArrowLeft"@
    } else if i == 3 {
        "ArrowRight"@
    } else if i == 4 {
        "KeyZ"@
    } else if i == 5 {
        "KeyX"@
    } else if i == 6 {
        "KeyA"@
    } else if i == 7 {
        "KeyS"@
    } else if i == 8 {
        "KeyQ"@
    } else if i == 9 {
        "KeyW"@
    } else if i == 10 {
        "Enter"@
    } else {
        "ShiftRight"@
    }
}

pub fn button_at_exec(i: usize) -> (r: &'static str)
    requires
        i < 12,
    ensures
        r@ == button_at(i as int),
{
    if i == 0 {
        "Up"
    } else if i == 1 {
        "Down"
    } else if i == 2 {
        "Left"
    } else if i == 3 {
        "Right"
    } else if i == 4 {
        "B"
    } else if i == 5 {
        "A"
    } else if i == 6 {
        "Y"
    } else if i == 7 {
        "X"
    } else if i == 8 {
        "L"
    } else if i == 9 {
        "R"
    } else if i == 10 {
        "Start"
    } else {
        "Select"
    }
}

fn default_key_at_exec(i: usize) -> (r: &'static str)
    requires
        i < 12,
    ensures
        r@ == default_key_at(i as int),
{
    if i == 0 {
        "ArrowUp"
    } else if i == 1 {
        "ArrowDown"
    } else if i == 2 {
        "ArrowLeft"
    } else if i == 3 {
        "ArrowRight"
    } else if i == 4 {
        "KeyZ"
    } else if i == 5 {
        "KeyX"
    } else if i == 6 {
        "KeyA"
    } else if i == 7 {
        "KeyS"
    } else if i == 8 {
        "KeyQ"
    } else if i == 9 {
        "KeyW"
    } else if i == 10 {
        "Enter"
    } else {
        "ShiftRight"
    }
}

/// The built-in key of the first of buttons `i..` named `name`.
pub open spec fn default_from(name: Seq<char>, i: int) -> Option<Seq<char>>
    decreases 12 - i,
{
    if i < 0 || i >= 12 {
        None
    } else if button_at(i) == name {
        Some(default_key_at(i))
    } else {
        default_from(name, i + 1)
    }
}

pub open spec fn spec_default_key(name: Seq<char>) -> Option<Seq<char>> {
    default_from(name, 0)
}

/// The key `name` claims: its binding in `m`, else its built-in key.
pub open spec fn spec_effective_key(m: Map<Seq<char>, Seq<char>>, name: Seq<char>) -> Option<Seq<char>> {
    if m.contains_key(name) {
        Some(m[name])
    } else {
        spec_default_key(name)
    }
}

/// The first of buttons `i..` explicitly bound to `key`.
pub open spec fn explicit_from(m: Map<Seq<char>, Seq<char>>, key: Seq<char>, i: int) -> Option<Seq<char>>
    decreases 12 - i,
{
    if i < 0 || i >= 12 {
        None
    } else if m.contains_key(button_at(i)) && m[button_at(i)] == key {
        Some(button_at(i))
    } else {
        explicit_from(m, key, i + 1)
    }
}

/// The first of buttons `i..` left on its built-in key, that key being `key`.
pub open spec fn implicit_from(m: Map<Seq<char>, Seq<char>>, key: Seq<char>, i: int) -> Option<Seq<char>>
    decreases 12 - i,
{
    if i < 0 || i >= 12 {
        None
    } else if !m.contains_key(button_at(i)) && default_key_at(i) == key {
        Some(button_at(i))
    } else {
        implicit_from(m, key, i + 1)
    }
}

/// The button `key` drives: explicit bindings first, then built-in ones.
pub open spec fn spec_resolve_key(m: Map<Seq<char>, Seq<char>>, key: Seq<char>) -> Option<Seq<char>> {
    match explicit_from(m, key, 0) {
        Some(b) => Some(b),
        None => implicit_from(m, key, 0),
    }
}

/// The key shown for `name`: the one it claims, when that key really
/// drives it.
pub open spec fn spec_shown_key(m: Map<Seq<char>, Seq<char>>, name: Seq<char>) -> Option<Seq<char>> {
    match spec_effective_key(m, name) {
        Some(k) => if spec_resolve_key(m, k) == Some(name) {
            Some(k)
        } else {
            None
        },
        None => None,
    }
}

/// Built-in key for `name`, or `None` for an unknown button name.
pub fn default_key(name: &str) -> (r: Option<&'static str>)
    ensures
        (match r { Some(k) => Some(k@), None => None }) == spec_default_key(name@),
{
    let mut i: usize = 0;
    while i < 12
        invariant
            i <= 12,
            spec_default_key(name@) == default_from(name@, i as int),
        decreases 12 - i,
    {
        if str_eq(button_at_exec(i), name) {
            return Some(default_key_at_exec(i));
        }
        i = i + 1;
    }
    None
}

/// The key `name` claims right now: the player's binding when `keymap`
/// carries one, else the built-in key. Not necessarily the key that reaches
/// it (see `resolve_key`).
pub fn effective_key(keymap: &Vec<(String, String)>, name: &str) -> (r: Option<String>)
    ensures
        (match r { Some(k) => Some(k@), None => None }) == spec_effective_key(map_of(keymap@), name@),
{
    match map_get(keymap, name) {
        Some(k) => Some(k.clone()),
        None => match default_key(name) {
            Some(k) => Some(String::from_str(k)),
            None => None,
        },
    }
}

/// The button a physical key drives, or `None`: a button's explicit binding
/// wins over another's built-in one, so a key moved onto another button
/// stops driving the one that held it by default.
pub fn resolve_key(keymap: &Vec<(String, String)>, key: &str) -> (r: Option<&'static str>)
    ensures
        (match r { Some(b) => Some(b@), None => None }) == spec_resolve_key(map_of(keymap@), key@),
{
    let ghost m = map_of(keymap@);
    let mut i: usize = 0;
    while i < 12
        invariant
            i <= 12,
            m == map_of(keymap@),
            explicit_from(m, key@, 0) == explicit_from(m, key@, i as int),
        decreases 12 - i,
    {
        let b = button_at_exec(i);
        match map_get(keymap, b) {
            Some(k) => {
                if str_eq(k.as_str(), key) {
                    return Some(b);
                }
            },
            None => {},
        }
        i = i + 1;
    }
    let mut j: usize = 0;
    while j < 12
        invariant
            j <= 12,
            m == map_of(keymap@),
            explicit_from(m, key@, 0) is None,
            implicit_from(m, key@, 0) == implicit_from(m, key@, j as int),
        decreases 12 - j,
    {
        let b = button_at_exec(j);
        if map_get(keymap, b).is_none() && str_eq(default_key_at_exec(j), key) {
            return Some(b);
        }
        j = j + 1;
    }
    None
}

/// The key to display for `name`: the one it claims when that key really
/// drives it, `None` when another button's binding masks it.
pub fn shown_key(keymap: &Vec<(String, String)>, name: &str) -> (r: Option<String>)
    ensures
        (match r { Some(k) => Some(k@), None => None }) == spec_shown_key(map_of(keymap@), name@),
{
    match effective_key(keymap, name) {
        Some(k) => match resolve_key(keymap, k.as_str()) {
            Some(b) => if str_eq(b, name) {
                Some(k)
            } else {
                None
            },
            None => None,
        },
        None => None,
    }
}

/// What a binding did, as text.
pub enum BindView {
    Unchanged,
    Bound,
    Swapped(Seq<char>),
    Reverted(Seq<char>),
}

pub open spec fn bind_view(r: BindResult) -> BindView {
    match r {
        BindResult::Unchanged => BindView::Unchanged,
        BindResult::Bound => BindView::Bound,
        BindResult::Swapped(o) => BindView::Swapped(o@),
        BindResult::Reverted(o) => BindView::Reverted(o@),
    }
}

/// Assigning `key` to `name`: the map after, and what happened. A name that
/// is not a button changes nothing. A key that already drives `name` is
/// written down explicitly. Otherwise `name` takes the key, and the button
/// the key drove (if another) receives what `name` claimed before — a swap —
/// or, when `name` was claiming that very key, loses its explicit entry and
/// goes back to its built-in key.
pub open spec fn spec_bind_key(m: Map<Seq<char>, Seq<char>>, name: Seq<char>, key: Seq<char>) -> (Map<Seq<char>, Seq<char>>, BindView) {
    if !is_button(name) {
        (m, BindView::Unchanged)
    } else if spec_resolve_key(m, key) == Some(name) {
        (m.insert(name, key), BindView::Unchanged)
    } else {
        let previous = match spec_effective_key(m, name) {
            Some(k) => if k != key { Some(k) } else { None },
            None => None,
        };
        let conflict = match spec_resolve_key(m, key) {
            Some(o) => if o != name { Some(o) } else { None },
            None => None,
        };
        let m1 = m.insert(name, key);
        match (conflict, previous) {
            (Some(o), Some(p)) => (m1.insert(o, p), BindView::Swapped(o)),
            (Some(o), None) => (m1.remove(o), BindView::Reverted(o)),
            (None, _) => (m1, BindView::Bound),
        }
    }
}

/// Assign `key` to the button `name`, settling a conflict by swapping (see
/// `spec_bind_key`): no button is ever silently left without a key.
pub fn bind_key(keymap: &mut Vec<(String, String)>, name: &str, key: &str) -> (r: BindResult)
    ensures
        (map_of(final(keymap)@), bind_view(r)) == spec_bind_key(map_of(old(keymap)@), name@, key@),
{
    let name = match button_name(name) {
        Some(n) => n,
        None => {
            return BindResult::Unchanged;
        },
    };
    let resolved = resolve_key(keymap, key);
    match resolved {
        Some(b) => {
            if str_eq(b, name) {
                map_insert(keymap, name, key);
                return BindResult::Unchanged;
            }
        },
        None => {},
    }
    let previous = match effective_key(keymap, name) {
        Some(k) => if str_eq(k.as_str(), key) {
            None
        } else {
            Some(k)
        },
        None => None,
    };
    let conflict = match resolved {
        Some(o) => if str_eq(o, name) {
            None
        } else {
            Some(o)
        },
        None => None,
    };
    map_insert(keymap, name, key);
    match (conflict, previous) {
        (Some(o), Some(p)) => {
            map_insert(keymap, o, p.as_str());
            BindResult::Swapped(o)
        },
        (Some(o), None) => {
            map_remove(keymap, o);
            BindResult::Reverted(o)
        },
        (None, _) => BindResult::Bound,
    }
}

/// Keys the application acts on itself (by `KeyCode` name), with what they
/// do: a button bound to one would never reach the console. Escape is not
/// listed: it cancels a capture, so it can never be assigned.
pub const RESERVED_KEYS: [(&'static str, &'static str); 38] = [
    ("Tab", "accéléré"),
    ("KeyM", "muet"),
    ("KeyP", "pause"),
    ("KeyN", "image suivante"),
    ("KeyO", "ouvrir une ROM"),
    ("KeyC", "confirmation avant de quitter"),
    ("KeyF", "compteur d'images"),
    ("KeyV", "filtre"),
    ("KeyR", "ratio"),
    ("Comma", "réglages"),
    ("Equal", "volume +"),
    ("NumpadAdd", "volume +"),
    ("Minus", "volume -"),
    ("NumpadSubtract", "volume -"),
    ("BracketLeft", "facteur d'accéléré"),
    ("BracketRight", "facteur d'accéléré"),
    ("F1", "taille de la fenêtre"),
    ("F2", "taille de la fenêtre"),
    ("F3", "taille de la fenêtre"),
    ("F4", "taille de la fenêtre"),
    ("F5", "sauvegarder l'état"),
    ("F6", "réinitialiser la console"),
    ("F7", "slot suivant"),
    ("F8", "exporter la musique"),
    ("F9", "charger l'état"),
    ("F10", "reprise instantanée"),
    ("F11", "plein écran"),
    ("F12", "capture d'écran"),
    ("Digit0", "slot de sauvegarde"),
    ("Digit1", "slot de sauvegarde"),
    ("Digit2", "slot de sauvegarde"),
    ("Digit3", "slot de sauvegarde"),
    ("Digit4", "slot de sauvegarde"),
    ("Digit5", "slot de sauvegarde"),
    ("Digit6", "slot de sauvegarde"),
    ("Digit7", "slot de sauvegarde"),
    ("Digit8", "slot de sauvegarde"),
    ("Digit9", "slot de sauvegarde"),
];

/// What the first of the reserved keys `i..` named `key` does.
pub open spec fn reserved_from(key: Seq<char>, i: int) -> Option<Seq<char>>
    decreases 38 - i,
{
    if i < 0 || i >= 38 {
        None
    } else if RESERVED_KEYS@[i].0@ == key {
        Some(RESERVED_KEYS@[i].1@)
    } else {
        reserved_from(key, i + 1)
    }
}

/// The application function `key` triggers, or `None` when the key is free
/// for a pad binding.
pub fn reserved_for(key: &str) -> (r: Option<&'static str>)
    ensures
        (match r { Some(w) => Some(w@), None => None }) == reserved_from(key@, 0),
{
    let mut i: usize = 0;
    while i < 38
        invariant
            i <= 38,
            reserved_from(key@, 0) == reserved_from(key@, i as int),
        decreases 38 - i,
    {
        let (k, what) = RESERVED_KEYS[i];
        if str_eq(k, key) {
            return Some(what);
        }
        i = i + 1;
    }
    None
}

/// Keys the bindings list names in words.
pub const NAMED_KEYS: [(&'static str, &'static str); 19] = [
    ("ArrowUp", "Flèche haut"),
    ("ArrowDown", "Flèche bas"),
    ("ArrowLeft", "Flèche gauche"),
    ("ArrowRight", "Flèche droite"),
    ("Enter", "Entrée"),
    ("NumpadEnter", "Entrée (pavé)"),
    ("Space", "Espace"),
    ("Backspace", "Retour arrière"),
    ("ShiftLeft", "Maj gauche"),
    ("ShiftRight", "Maj droite"),
    ("ControlLeft", "Ctrl gauche"),
    ("ControlRight", "Ctrl droite"),
    ("AltLeft", "Alt gauche"),
    ("AltRight", "Alt droite"),
    ("SuperLeft", "Cmd gauche"),
    ("SuperRight", "Cmd droite"),
    ("CapsLock", "Verr. maj"),
    ("Tab", "Tab"),
    ("Escape", "Échap"),
];

pub open spec fn named_from(key: Seq<char>, i: int) -> Option<Seq<char>>
    decreases 19 - i,
{
    if i < 0 || i >= 19 {
        None
    } else if NAMED_KEYS@[i].0@ == key {
        Some(NAMED_KEYS@[i].1@)
    } else {
        named_from(key, i + 1)
    }
}

/// How the bindings list names a physical key (given by its `KeyCode`
/// name): in words for the keys that have one, else the name with its
/// `Key` or `Digit` family prefix cut off (`KeyZ` reads `Z`), `Numpad`
/// written `Pavé `, and anything else as it is.
pub open spec fn spec_key_label(key: Seq<char>) -> Seq<char> {
    match named_from(key, 0) {
        Some(n) => n,
        None => if key.len() >= 3 && key.take(3) == "Key"@ {
            key.skip(3)
        } else if key.len() >= 5 && key.take(5) == "Digit"@ {
            key.skip(5)
        } else if key.len() >= 6 && key.take(6) == "Numpad"@ {
            "Pavé "@ + key.skip(6)
        } else {
            key
        },
    }
}

fn has_prefix(v: &Vec<char>, p: &str) -> (r: bool)
    ensures
        r == (v@.len() >= p@.len() && v@.take(p@.len() as int) == p@),
{
    let pv = chars_of(p);
    if v.len() < pv.len() {
        return false;
    }
    let mut i: usize = 0;
    while i < pv.len()
        invariant
            pv@ == p@,
            v@.len() >= pv@.len(),
            i <= pv@.len(),
            forall|k: int| 0 <= k < i ==> v@[k] == pv@[k],
        decreases pv@.len() - i,
    {
        if v[i] != pv[i] {
            assert(v@.take(p@.len() as int)[i as int] != p@[i as int]);
            return false;
        }
        i = i + 1;
    }
    assert(v@.take(p@.len() as int) =~= p@);
    true
}

/// Human-readable name of a physical key, for the bindings list.
pub fn key_label(key: &str) -> (r: String)
    ensures
        r@ == spec_key_label(key@),
{
    let mut i: usize = 0;
    while i < 19
        invariant
            i <= 19,
            named_from(key@, 0) == named_from(key@, i as int),
        decreases 19 - i,
    {
        let (k, label) = NAMED_KEYS[i];
        if str_eq(k, key) {
            return String::from_str(label);
        }
        i = i + 1;
    }
    let v = chars_of(key);
    proof {
        reveal_strlit("Key");
        reveal_strlit("Digit");
        reveal_strlit("Numpad");
    }
    if has_prefix(&v, "Key") {
        let rest = crate::text::sub_chars(v.as_slice(), 3, v.len());
        assert(rest@ =~= key@.skip(3));
        crate::text::string_of(rest.as_slice())
    } else if has_prefix(&v, "Digit") {
        let rest = crate::text::sub_chars(v.as_slice(), 5, v.len());
        assert(rest@ =~= key@.skip(5));
        crate::text::string_of(rest.as_slice())
    } else if has_prefix(&v, "Numpad") {
        let rest = crate::text::sub_chars(v.as_slice(), 6, v.len());
        assert(rest@ =~= key@.skip(6));
        let mut r = String::from_str("Pavé ");
        crate::text::push_chars(&mut r, rest.as_slice());
        r
    } else {
        String::from_str(key)
    }
}

/// Button `k` is explicitly bound to `key`.
pub open spec fn bound_to(m: Map<Seq<char>, Seq<char>>, key: Seq<char>, k: int) -> bool {
    m.contains_key(button_at(k)) && m[button_at(k)] == key
}

pub proof fn lemma_button_names()
    ensures
        forall|i: int, j: int| 0 <= i < 12 && 0 <= j < 12 && i != j ==> button_at(i) != button_at(j),
        forall|s: Seq<char>| is_button(s) ==> exists|i: int| 0 <= i < 12 && button_at(i) == s,
{
    reveal_strlit("Up");
    reveal_strlit("Down");
    reveal_strlit("Left");
    reveal_strlit("Right");
    reveal_strlit("B");
    reveal_strlit("A");
    reveal_strlit("Y");
    reveal_strlit("X");
    reveal_strlit("L");
    reveal_strlit("R");
    reveal_strlit("Start");
    reveal_strlit("Select");
    assert forall|i: int, j: int| 0 <= i < 12 && 0 <= j < 12 && i != j implies button_at(i) != button_at(j) by {
        if button_at(i).len() == button_at(j).len() {
            assert(button_at(i)[0] != button_at(j)[0] || button_at(i)[button_at(i).len() - 1] != button_at(j)[
                button_at(j).len() - 1
            ]);
        }
    }
    assert forall|s: Seq<char>| is_button(s) implies exists|i: int| 0 <= i < 12 && button_at(i) == s by {
        if s == "Up"@ {
            assert(button_at(0) == s);
        } else if s == "Down"@ {
            assert(button_at(1) == s);
        } else if s == "Left"@ {
            assert(button_at(2) == s);
        } else if s == "Right"@ {
            assert(button_at(3) == s);
        } else if s == "B"@ {
            assert(button_at(4) == s);
        } else if s == "A"@ {
            assert(button_at(5) == s);
        } else if s == "Y"@ {
            assert(button_at(6) == s);
        } else if s == "X"@ {
            assert(button_at(7) == s);
        } else if s == "L"@ {
            assert(button_at(8) == s);
        } else if s == "R"@ {
            assert(button_at(9) == s);
        } else if s == "Start"@ {
            assert(button_at(10) == s);
        } else {
            assert(button_at(11) == s);
        }
    }
}

proof fn lemma_explicit_from(m: Map<Seq<char>, Seq<char>>, key: Seq<char>, i: int)
    requires
        0 <= i <= 12,
    ensures
        explicit_from(m, key, i) is None <==> forall|k: int| i <= k < 12 ==> !bound_to(m, key, k),
        forall|j: int|
            i <= j < 12 && bound_to(m, key, j) && (forall|k: int| i <= k < j ==> !bound_to(m, key, k))
                ==> explicit_from(m, key, i) == Some(button_at(j)),
    decreases 12 - i,
{
    if i < 12 {
        lemma_explicit_from(m, key, i + 1);
        assert forall|j: int|
            i <= j < 12 && bound_to(m, key, j) && (forall|k: int| i <= k < j ==> !bound_to(m, key, k)) implies explicit_from(
            m,
            key,
            i,
        ) == Some(button_at(j)) by {
            if j > i {
                assert(!bound_to(m, key, i));
            }
        }
        if bound_to(m, key, i) {
            assert(explicit_from(m, key, i) == Some(button_at(i)));
        } else {
            assert(explicit_from(m, key, i) == explicit_from(m, key, i + 1));
            if forall|k: int| i + 1 <= k < 12 ==> !bound_to(m, key, k) {
                assert forall|k: int| i <= k < 12 implies !bound_to(m, key, k) by {
                    if k > i {
                        assert(i + 1 <= k < 12);
                    }
                }
            }
        }
    }
}

/// The first button explicitly bound to `key`, given one at `k`.
proof fn first_bound(m: Map<Seq<char>, Seq<char>>, key: Seq<char>, k: int) -> (f: int)
    requires
        0 <= k < 12,
        bound_to(m, key, k),
    ensures
        0 <= f <= k,
        bound_to(m, key, f),
        explicit_from(m, key, 0) == Some(button_at(f)),
    decreases k,
{
    if exists|q: int| 0 <= q < k && bound_to(m, key, q) {
        let q = choose|q: int| 0 <= q < k && bound_to(m, key, q);
        first_bound(m, key, q)
    } else {
        lemma_explicit_from(m, key, 0);
        k
    }
}

/// Once a key is assigned to a button, that key drives that button — on
/// every keymap where no two buttons are explicitly bound to that key.
pub proof fn law_a_bound_key_drives_its_button(m: Map<Seq<char>, Seq<char>>, name: Seq<char>, key: Seq<char>)
    requires
        is_button(name),
        forall|i: int, j: int| 0 <= i < j < 12 ==> !(#[trigger] bound_to(m, key, i) && #[trigger] bound_to(m, key, j)),
    ensures
        spec_resolve_key(spec_bind_key(m, name, key).0, key) == Some(name),
{
    lemma_button_names();
    let n = choose|i: int| 0 <= i < 12 && button_at(i) == name;
    let m2 = spec_bind_key(m, name, key).0;
    let r = spec_resolve_key(m, key);
    lemma_explicit_from(m, key, 0);
    assert(bound_to(m2, key, n));
    assert forall|k: int| 0 <= k < n implies !bound_to(m2, key, k) by {
        let bk = button_at(k);
        assert(bk != name);
        if bound_to(m2, key, k) {
            if r == Some(name) {
                assert(bound_to(m, key, k));
                let f = first_bound(m, key, k);
                assert(button_at(f) == name);
            } else {
                if r is Some && r->0 != name {
                    let o = r->0;
                    if bk != o {
                        assert(m2.contains_key(bk) && m.contains_key(bk) && m2[bk] == m[bk]);
                        assert(bound_to(m, key, k));
                        let f = first_bound(m, key, k);
                        assert(button_at(f) == o);
                        assert(f != k);
                        assert(bound_to(m, key, f) && bound_to(m, key, k));
                    }
                } else {
                    assert(r is None);
                    assert(bound_to(m, key, k));
                }
            }
        }
    }
    lemma_explicit_from(m2, key, 0);
    assert(explicit_from(m2, key, 0) == Some(button_at(n)));
}

proof fn lemma_explicit_some(m: Map<Seq<char>, Seq<char>>, key: Seq<char>, i: int)
    requires
        0 <= i <= 12,
        explicit_from(m, key, i) is Some,
    ensures
        exists|j: int| i <= j < 12 && explicit_from(m, key, i) == Some(button_at(j)) && bound_to(m, key, j),
    decreases 12 - i,
{
    if !bound_to(m, key, i) {
        lemma_explicit_some(m, key, i + 1);
    }
}

proof fn lemma_implicit_some(m: Map<Seq<char>, Seq<char>>, key: Seq<char>, i: int)
    requires
        0 <= i <= 12,
        implicit_from(m, key, i) is Some,
    ensures
        exists|j: int|
            i <= j < 12 && implicit_from(m, key, i) == Some(button_at(j)) && !m.contains_key(button_at(j))
                && default_key_at(j) == key,
    decreases 12 - i,
{
    if !(!m.contains_key(button_at(i)) && default_key_at(i) == key) {
        lemma_implicit_some(m, key, i + 1);
    }
}

proof fn lemma_default_of(j: int, i: int)
    requires
        0 <= i <= j < 12,
    ensures
        default_from(button_at(j), i) == Some(default_key_at(j)),
    decreases j - i,
{
    lemma_button_names();
    if i < j {
        assert(button_at(i) != button_at(j));
        lemma_default_of(j, i + 1);
    }
}

/// A swap is undone by repeating the assignment on the other button: when
/// giving `key` to `a` swapped it with `b`, giving `key` back to `b` swaps
/// them again, and both buttons claim the keys they claimed at first — on
/// every keymap where no two buttons are explicitly bound to `key`.
pub proof fn law_a_swap_is_undone_by_the_reverse_assignment(
    m: Map<Seq<char>, Seq<char>>,
    a: Seq<char>,
    key: Seq<char>,
)
    requires
        is_button(a),
        forall|i: int, j: int| 0 <= i < j < 12 ==> !(#[trigger] bound_to(m, key, i) && #[trigger] bound_to(m, key, j)),
        spec_bind_key(m, a, key).1 is Swapped,
    ensures
        ({
            let b = spec_bind_key(m, a, key).1->Swapped_0;
            let back = spec_bind_key(spec_bind_key(m, a, key).0, b, key);
            &&& back.1 == BindView::Swapped(a)
            &&& spec_effective_key(back.0, a) == spec_effective_key(m, a)
            &&& spec_effective_key(back.0, b) == spec_effective_key(m, b)
            &&& forall|n: Seq<char>| n != a && n != b ==> back.0.contains_key(n) == m.contains_key(n)
                && (m.contains_key(n) ==> back.0[n] == m[n])
        }),
{
    lemma_button_names();
    let m1 = spec_bind_key(m, a, key).0;
    let b = spec_bind_key(m, a, key).1->Swapped_0;
    let p = spec_effective_key(m, a)->0;
    assert(spec_resolve_key(m, key) == Some(b));
    assert(b != a);
    assert(spec_effective_key(m, a) == Some(p) && p != key);
    assert(m1 == m.insert(a, key).insert(b, p));
    // `b` is a button, and it claims `key` in `m`.
    if explicit_from(m, key, 0) is Some {
        lemma_explicit_some(m, key, 0);
        let j = choose|j: int| 0 <= j < 12 && explicit_from(m, key, 0) == Some(button_at(j)) && bound_to(m, key, j);
        assert(button_at(j) == b);
        assert(spec_effective_key(m, b) == Some(key));
        assert(is_button(b)) by {
            reveal_strlit("Up");
            reveal_strlit("Down");
            reveal_strlit("Left");
            reveal_strlit("Right");
            reveal_strlit("B");
            reveal_strlit("A");
            reveal_strlit("Y");
            reveal_strlit("X");
            reveal_strlit("L");
            reveal_strlit("R");
            reveal_strlit("Start");
            reveal_strlit("Select");
        }
    } else {
        lemma_implicit_some(m, key, 0);
        let j = choose|j: int|
            0 <= j < 12 && implicit_from(m, key, 0) == Some(button_at(j)) && !m.contains_key(button_at(j))
                && default_key_at(j) == key;
        assert(button_at(j) == b);
        lemma_default_of(j, 0);
        assert(spec_effective_key(m, b) == Some(key));
        assert(is_button(b));
    }
    // `a` now drives `key`.
    law_a_bound_key_drives_its_button(m, a, key);
    assert(spec_resolve_key(m1, key) == Some(a));
    assert(spec_effective_key(m1, b) == Some(p));
    let back = spec_bind_key(m1, b, key);
    assert(back.0 == m1.insert(b, key).insert(a, p));
    assert(back.1 == BindView::Swapped(a));
}

} // verus!




