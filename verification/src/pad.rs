//! Which physical controller owns which of the console's two ports, and the
//! notice shown when one is plugged in or out. A controller keeps its port
//! while it stays connected: unplugging player 1 frees port 0 but never
//! promotes player 2, and the freed port goes to the next controller to
//! arrive. Controllers are known by the platform's numeric id.
//!
//! Also the controller's remapping, by the same rule as the keyboard's: a
//! SNES button the preferences bind to a physical button uses that binding,
//! one they say nothing about falls back to the built-in table. Physical
//! buttons are named as the preferences store them (`South`, `LeftTrigger2`,
//! `DPadUp`, ...).

use crate::i18n::{spec_status_pad, status_pad, Lang};
use crate::input::{
    button_at, button_at_exec, button_name, bind_view, is_button, lemma_button_names, map_get, map_insert, map_of,
    map_remove, BindResult, BindView,
};
use crate::text::str_eq;
use vstd::prelude::*;

verus! {

/// The console has two controller ports.
pub const PLAYERS: usize = 2;

/// The first port owned by `id`.
pub open spec fn owner_slot(ids: Seq<Option<usize>>, id: usize) -> Option<int>
    decreases ids.len(),
{
    if ids.len() == 0 {
        None
    } else {
        match owner_slot(ids.drop_last(), id) {
            Some(k) => Some(k),
            None => if ids.last() == Some(id) { Some(ids.len() - 1) } else { None },
        }
    }
}

/// The first free port.
pub open spec fn free_slot(ids: Seq<Option<usize>>) -> Option<int>
    decreases ids.len(),
{
    if ids.len() == 0 {
        None
    } else {
        match free_slot(ids.drop_last()) {
            Some(k) => Some(k),
            None => if ids.last() is None { Some(ids.len() - 1) } else { None },
        }
    }
}

/// How many ports are driven by a controller.
pub open spec fn driven(ids: Seq<Option<usize>>) -> nat
    decreases ids.len(),
{
    if ids.len() == 0 {
        0
    } else {
        driven(ids.drop_last()) + (if ids.last() is Some { 1nat } else { 0nat })
    }
}

/// The ports after `id` connects: the lowest free one, unless it already
/// owns one or both are taken.
pub open spec fn after_connect(ids: Seq<Option<usize>>, id: usize) -> Seq<Option<usize>> {
    if owner_slot(ids, id) is Some {
        ids
    } else {
        match free_slot(ids) {
            Some(k) => ids.update(k, Some(id)),
            None => ids,
        }
    }
}

/// The ports after `id` disconnects: the port it owned is freed.
pub open spec fn after_disconnect(ids: Seq<Option<usize>>, id: usize) -> Seq<Option<usize>> {
    match owner_slot(ids, id) {
        Some(k) => ids.update(k, None),
        None => ids,
    }
}

/// Which controller owns which port.
#[derive(Debug, Clone, PartialEq, Eq)]
pub struct Slots {
    ids: [Option<usize>; 2],
}

impl View for Slots {
    type V = Seq<Option<usize>>;

    closed spec fn view(&self) -> Seq<Option<usize>> {
        self.ids@
    }
}

impl Default for Slots {
    fn default() -> (r: Slots)
        ensures
            r@ == seq![None::<usize>, None::<usize>],
    {
        let r = Slots { ids: [None, None] };
        assert(r@ =~= seq![None::<usize>, None::<usize>]);
        r
    }
}

impl Slots {
    pub closed spec fn wf(&self) -> bool {
        self.ids@.len() == 2
    }

    /// Player port `id` owns, if any.
    pub fn player_of(&self, id: usize) -> (r: Option<usize>)
        ensures
            (match r { Some(k) => Some(k as int), None => None }) == owner_slot(self@, id),
    {
        let ghost s = self.ids@;
        assert(s.len() == 2);
        assert(s.take(0) =~= Seq::<Option<usize>>::empty());
        let mut k: usize = 0;
        while k < 2
            invariant
                s == self.ids@,
                s.len() == 2,
                k <= 2,
                owner_slot(s.take(k as int), id) is None,
            decreases 2 - k,
        {
            proof {
                assert(s.take(k + 1).drop_last() =~= s.take(k as int));
            }
            if self.ids[k] == Some(id) {
                proof {
                    assert(owner_slot(s.take(k + 1), id) == Some(k as int));
                    lemma_owner_prefix(s, k + 1, id);
                }
                return Some(k);
            }
            k = k + 1;
        }
        assert(s.take(2) =~= s);
        None
    }

    /// Give `id` the lowest free port; `None` when it already owns one or
    /// both ports are taken.
    pub fn connect(&mut self, id: usize) -> (r: Option<usize>)
        ensures
            final(self)@ == after_connect(old(self)@, id),
            (match r { Some(k) => Some(k as int), None => None }) == (if owner_slot(old(self)@, id) is Some {
                None
            } else {
                free_slot(old(self)@)
            }),
    {
        if self.player_of(id).is_some() {
            return None;
        }
        let ghost s = self.ids@;
        proof {
            reveal_with_fuel(free_slot, 3);
            assert(s.drop_last().drop_last() =~= Seq::<Option<usize>>::empty());
        }
        if self.ids[0].is_none() {
            self.ids[0] = Some(id);
            assert(self.ids@ =~= s.update(0, Some(id)));
            Some(0)
        } else if self.ids[1].is_none() {
            self.ids[1] = Some(id);
            assert(self.ids@ =~= s.update(1, Some(id)));
            Some(1)
        } else {
            None
        }
    }

    /// Release the port `id` owned, if it owned one.
    pub fn disconnect(&mut self, id: usize) -> (r: Option<usize>)
        ensures
            final(self)@ == after_disconnect(old(self)@, id),
            (match r { Some(k) => Some(k as int), None => None }) == owner_slot(old(self)@, id),
    {
        let ghost s = self.ids@;
        match self.player_of(id) {
            Some(k) => {
                proof {
                    lemma_owner_bound(s, id);
                }
                self.ids.set(k, None);
                assert(self.ids@ =~= s.update(k as int, None));
                Some(k)
            },
            None => None,
        }
    }

    /// Number of ports currently driven by a controller.
    pub fn connected(&self) -> (r: usize)
        ensures
            r == driven(self@),
    {
        let ghost s = self.ids@;
        proof {
            reveal_with_fuel(driven, 3);
            assert(s.drop_last().drop_last() =~= Seq::<Option<usize>>::empty());
        }
        (if self.ids[0].is_some() { 1 } else { 0 }) + (if self.ids[1].is_some() { 1 } else { 0 })
    }
}

proof fn lemma_owner_prefix(s: Seq<Option<usize>>, k: int, id: usize)
    requires
        0 <= k <= s.len(),
        owner_slot(s.take(k), id) is Some,
    ensures
        owner_slot(s, id) == owner_slot(s.take(k), id),
    decreases s.len() - k,
{
    if k < s.len() {
        assert(s.take(k + 1).drop_last() =~= s.take(k));
        lemma_owner_prefix(s, k + 1, id);
    } else {
        assert(s.take(k) =~= s);
    }
}

proof fn lemma_owner_bound(s: Seq<Option<usize>>, id: usize)
    ensures
        owner_slot(s, id) matches Some(k) ==> 0 <= k < s.len() && s[k] == Some(id),
        owner_slot(s, id) is None ==> forall|k: int| 0 <= k < s.len() ==> s[k] != Some(id),
    decreases s.len(),
{
    if s.len() > 0 {
        let t = s.drop_last();
        lemma_owner_bound(t, id);
        if owner_slot(s, id) is None {
            assert forall|k: int| 0 <= k < s.len() implies s[k] != Some(id) by {
                if k < t.len() {
                    assert(s[k] == t[k]);
                }
            }
        }
        if owner_slot(t, id) is Some {
            let k = owner_slot(t, id)->0;
            assert(s[k] == t[k]);
        }
    }
}

/// Unplugging a controller never moves another one: every other controller
/// keeps the port it owned.
pub proof fn law_unplugging_keeps_the_others_in_place(ids: Seq<Option<usize>>, gone: usize, other: usize)
    requires
        gone != other,
    ensures
        owner_slot(after_disconnect(ids, gone), other) == owner_slot(ids, other),
{
    lemma_owner_bound(ids, gone);
    lemma_owner_bound(ids, other);
    let after = after_disconnect(ids, gone);
    lemma_owner_bound(after, other);
    lemma_owner_first(ids, other);
    lemma_owner_first(after, other);
    if owner_slot(ids, other) is Some && owner_slot(after, other) is Some {
        let a = owner_slot(ids, other)->0;
        let b = owner_slot(after, other)->0;
        if a < b {
            assert(after[a] == ids[a]);
        } else if b < a {
            assert(after[b] == ids[b]);
        }
    } else if owner_slot(ids, other) is Some {
        let a = owner_slot(ids, other)->0;
        assert(after[a] == ids[a]);
    } else if owner_slot(after, other) is Some {
        let b = owner_slot(after, other)->0;
        assert(after[b] == ids[b] || after[b] is None);
    }
}

/// A controller that connects and then disconnects leaves the ports as they
/// were, when it owned none before.
pub proof fn law_connect_then_disconnect_restores(ids: Seq<Option<usize>>, id: usize)
    requires
        owner_slot(ids, id) is None,
    ensures
        after_disconnect(after_connect(ids, id), id) == ids,
{
    lemma_owner_bound(ids, id);
    lemma_free_bound(ids);
    let mid = after_connect(ids, id);
    lemma_owner_bound(mid, id);
    lemma_owner_first(mid, id);
    if free_slot(ids) is Some {
        let k = free_slot(ids)->0;
        assert(mid[k] == Some(id));
        assert(owner_slot(mid, id) == Some(k)) by {
            let j = owner_slot(mid, id)->0;
            if j != k {
                assert(mid[j] == ids[j]);
            }
        }
        assert(after_disconnect(mid, id) =~= ids);
    }
}

/// No controller drives two ports.
pub open spec fn one_port_each(ids: Seq<Option<usize>>) -> bool {
    forall|i: int, j: int| 0 <= i < j < ids.len() && (#[trigger] ids[i]) is Some ==> ids[i] != #[trigger] ids[j]
}

/// Connecting never gives a controller a second port: a controller that
/// already drives one is left where it is, a new one takes the lowest free
/// port (and then owns exactly that one), and no controller ever drives two
/// ports. Disconnecting keeps that too.
pub proof fn law_a_controller_drives_one_port(ids: Seq<Option<usize>>, id: usize)
    requires
        one_port_each(ids),
    ensures
        owner_slot(ids, id) is Some ==> after_connect(ids, id) == ids,
        owner_slot(ids, id) is None && free_slot(ids) is Some ==> owner_slot(after_connect(ids, id), id) == free_slot(ids),
        owner_slot(ids, id) is None && free_slot(ids) is Some ==> forall|j: int|
            0 <= j < ids.len() && j != free_slot(ids)->0 ==> #[trigger] after_connect(ids, id)[j] == ids[j],
        free_slot(ids) is None ==> after_connect(ids, id) == ids,
        one_port_each(after_connect(ids, id)),
        one_port_each(after_disconnect(ids, id)),
{
    lemma_owner_bound(ids, id);
    lemma_free_bound(ids);
    let mid = after_connect(ids, id);
    if owner_slot(ids, id) is None && free_slot(ids) is Some {
        let k = free_slot(ids)->0;
        lemma_owner_bound(mid, id);
        lemma_owner_first(mid, id);
        assert(mid[k] == Some(id));
        assert(owner_slot(mid, id) == Some(k)) by {
            if owner_slot(mid, id) is None {
                assert(mid[k] != Some(id));
            } else {
                let j = owner_slot(mid, id)->0;
                if j != k {
                    assert(mid[j] == ids[j]);
                }
            }
        }
        assert forall|i: int, j: int| 0 <= i < j < mid.len() && (#[trigger] mid[i]) is Some implies mid[i] != #[trigger] mid[j] by {
            if i == k {
                assert(mid[j] == ids[j]);
            } else if j == k {
                assert(mid[i] == ids[i]);
            } else {
                assert(mid[i] == ids[i] && mid[j] == ids[j]);
            }
        }
    }
    let gone = after_disconnect(ids, id);
    assert forall|i: int, j: int| 0 <= i < j < gone.len() && (#[trigger] gone[i]) is Some implies gone[i] != #[trigger] gone[j] by {
        if owner_slot(ids, id) is Some {
            let k = owner_slot(ids, id)->0;
            if j != k {
                assert(gone[i] == ids[i] && gone[j] == ids[j]);
            }
        } else {
            assert(gone[i] == ids[i] && gone[j] == ids[j]);
        }
    }
}

proof fn lemma_owner_first(s: Seq<Option<usize>>, id: usize)
    ensures
        owner_slot(s, id) matches Some(k) ==> forall|j: int| 0 <= j < k ==> s[j] != Some(id),
    decreases s.len(),
{
    if s.len() > 0 {
        let t = s.drop_last();
        lemma_owner_first(t, id);
        lemma_owner_bound(t, id);
        if owner_slot(s, id) is Some {
            let k = owner_slot(s, id)->0;
            assert forall|j: int| 0 <= j < k implies s[j] != Some(id) by {
                assert(s[j] == t[j]);
            }
        }
    }
}

proof fn lemma_free_bound(s: Seq<Option<usize>>)
    ensures
        free_slot(s) matches Some(k) ==> 0 <= k < s.len() && s[k] is None,
    decreases s.len(),
{
    if s.len() > 0 {
        lemma_free_bound(s.drop_last());
    }
}

/// A controller was plugged in or unplugged, for the on-screen notice.
#[derive(Debug, Clone, PartialEq, Eq)]
pub struct PadNotice {
    /// 0-based player port.
    pub player: usize,
    pub connected: bool,
    /// Controller name as the platform reports it; for the log only.
    pub name: String,
}

impl PadNotice {
    /// Text for the status overlay, counting players from 1.
    pub fn status(&self, lang: Lang) -> (r: String)
        requires
            self.player < usize::MAX,
        ensures
            r@ == spec_status_pad(lang, (self.player + 1) as nat, self.connected),
    {
        status_pad(lang, self.player + 1, self.connected)
    }
}

/// Every physical button a controller reports, by the name the preferences
/// store it under.
pub const PAD_BUTTONS: [&'static str; 20] = [
    "South",
    "East",
    "North",
    "West",
    "C",
    "Z",
    "LeftTrigger",
    "LeftTrigger2",
    "RightTrigger",
    "RightTrigger2",
    "Select",
    "Start",
    "Mode",
    "LeftThumb",
    "RightThumb",
    "DPadUp",
    "DPadDown",
    "DPadLeft",
    "DPadRight",
    "Unknown",
];

/// The built-in controller mapping, SNES button to physical button. Face
/// buttons go by position (South=B, East=A, West=Y, North=X, as on a SNES
/// pad); L and R are each driven by both the shoulder and the trigger.
pub const DEFAULT_PAD_MAP: [(&'static str, &'static str); 14] = [
    ("B", "South"),
    ("A", "East"),
    ("Y", "West"),
    ("X", "North"),
    ("L", "LeftTrigger"),
    ("L", "LeftTrigger2"),
    ("R", "RightTrigger"),
    ("R", "RightTrigger2"),
    ("Start", "Start"),
    ("Select", "Select"),
    ("Up", "DPadUp"),
    ("Down", "DPadDown"),
    ("Left", "DPadLeft"),
    ("Right", "DPadRight"),
];

/// `s` names a physical button.
pub open spec fn is_pad_button(s: Seq<char>) -> bool {
    exists|i: int| 0 <= i < 20 && #[trigger] PAD_BUTTONS@[i]@ == s
}

/// The physical button a stored name refers to, or `None` for a name no
/// controller here reports (a hand-edited file): the binding is then
/// ignored and the built-in one applies.
pub fn pad_button_from_name(name: &str) -> (r: Option<&'static str>)
    ensures
        r matches Some(b) ==> b@ == name@ && is_pad_button(name@),
        r is None ==> !is_pad_button(name@),
{
    let mut i: usize = 0;
    while i < 20
        invariant
            i <= 20,
            forall|k: int| 0 <= k < i ==> PAD_BUTTONS@[k]@ != name@,
        decreases 20 - i,
    {
        if str_eq(PAD_BUTTONS[i], name) {
            return Some(PAD_BUTTONS[i]);
        }
        i = i + 1;
    }
    None
}

/// The physical button the player bound to `name`, when the stored name is
/// one this build knows.
pub open spec fn spec_override(m: Map<Seq<char>, Seq<char>>, name: Seq<char>) -> Option<Seq<char>> {
    if m.contains_key(name) && is_pad_button(m[name]) {
        Some(m[name])
    } else {
        None
    }
}

/// The built-in physical buttons of `name` among table entries `i..`.
pub open spec fn defaults_from(name: Seq<char>, i: int) -> Seq<Seq<char>>
    decreases 14 - i,
{
    if i < 0 || i >= 14 {
        Seq::empty()
    } else if DEFAULT_PAD_MAP@[i].0@ == name {
        seq![DEFAULT_PAD_MAP@[i].1@] + defaults_from(name, i + 1)
    } else {
        defaults_from(name, i + 1)
    }
}

/// The physical buttons driving `name`: its override alone, or every
/// built-in one.
pub open spec fn spec_current_buttons(m: Map<Seq<char>, Seq<char>>, name: Seq<char>) -> Seq<Seq<char>> {
    match spec_override(m, name) {
        Some(b) => seq![b],
        None => defaults_from(name, 0),
    }
}

/// The first of buttons `i..` whose override is `b`.
pub open spec fn pad_explicit_from(m: Map<Seq<char>, Seq<char>>, b: Seq<char>, i: int) -> Option<Seq<char>>
    decreases 12 - i,
{
    if i < 0 || i >= 12 {
        None
    } else if spec_override(m, button_at(i)) == Some(b) {
        Some(button_at(i))
    } else {
        pad_explicit_from(m, b, i + 1)
    }
}

/// The first of buttons `i..` with no override and `b` among its built-in
/// buttons.
pub open spec fn pad_implicit_from(m: Map<Seq<char>, Seq<char>>, b: Seq<char>, i: int) -> Option<Seq<char>>
    decreases 12 - i,
{
    if i < 0 || i >= 12 {
        None
    } else if spec_override(m, button_at(i)) is None && defaults_from(button_at(i), 0).contains(b) {
        Some(button_at(i))
    } else {
        pad_implicit_from(m, b, i + 1)
    }
}

/// The SNES button a physical button drives: overrides first, then the
/// built-in table.
pub open spec fn spec_resolve_button(m: Map<Seq<char>, Seq<char>>, b: Seq<char>) -> Option<Seq<char>> {
    match pad_explicit_from(m, b, 0) {
        Some(n) => Some(n),
        None => pad_implicit_from(m, b, 0),
    }
}

/// Physical button bound to `name` by the player, when the preferences name
/// one this build understands.
pub fn override_button(map: &Vec<(String, String)>, name: &str) -> (r: Option<&'static str>)
    ensures
        (match r { Some(b) => Some(b@), None => None }) == spec_override(map_of(map@), name@),
{
    match map_get(map, name) {
        Some(stored) => pad_button_from_name(stored.as_str()),
        None => None,
    }
}

/// Physical buttons driving `name`, in display order: the single override,
/// or every built-in one.
pub fn current_buttons(map: &Vec<(String, String)>, name: &str) -> (r: Vec<&'static str>)
    ensures
        r@.map_values(|b: &'static str| b@) == spec_current_buttons(map_of(map@), name@),
{
    match override_button(map, name) {
        Some(b) => {
            let r = vec![b];
            assert(r@.map_values(|b: &'static str| b@) =~= seq![b@]);
            r
        },
        None => {
            let mut r: Vec<&'static str> = Vec::new();
            let mut i: usize = 14;
            let ghost m = map_of(map@);
            while i > 0
                invariant
                    i <= 14,
                    r@.map_values(|b: &'static str| b@) == defaults_from(name@, i as int),
                decreases i,
            {
                i = i - 1;
                let (n, b) = DEFAULT_PAD_MAP[i];
                if str_eq(n, name) {
                    let ghost r0 = r@.map_values(|b: &'static str| b@);
                    r.insert(0, b);
                    assert(r@.map_values(|b: &'static str| b@) =~= seq![b@] + r0);
                }
            }
            r
        },
    }
}

fn has_default(name: &str, b: &str) -> (r: bool)
    ensures
        r == defaults_from(name@, 0).contains(b@),
{
    let mut i: usize = 0;
    while i < 14
        invariant
            i <= 14,
            defaults_from(name@, 0).contains(b@) == defaults_from(name@, i as int).contains(b@),
        decreases 14 - i,
    {
        let (n, p) = DEFAULT_PAD_MAP[i];
        if str_eq(n, name) {
            if str_eq(p, b) {
                assert(defaults_from(name@, i as int)[0] == b@);
                return true;
            }
            let ghost d0 = defaults_from(name@, i as int);
            let ghost d1 = defaults_from(name@, i + 1);
            assert(d0 =~= seq![p@] + d1);
            assert(d0.contains(b@) == d1.contains(b@)) by {
                if d0.contains(b@) {
                    let k = choose|k: int| 0 <= k < d0.len() && d0[k] == b@;
                    assert(k > 0);
                    assert(d1[k - 1] == b@);
                }
                if d1.contains(b@) {
                    let k = choose|k: int| 0 <= k < d1.len() && d1[k] == b@;
                    assert(d0[k + 1] == b@);
                }
            }
        }
        i = i + 1;
    }
    false
}

/// The SNES button `b` drives, or `None`: an override wins over another
/// button's built-in binding.
pub fn resolve_button(map: &Vec<(String, String)>, b: &str) -> (r: Option<&'static str>)
    ensures
        (match r { Some(n) => Some(n@), None => None }) == spec_resolve_button(map_of(map@), b@),
{
    let mut i: usize = 0;
    while i < 12
        invariant
            i <= 12,
            pad_explicit_from(map_of(map@), b@, 0) == pad_explicit_from(map_of(map@), b@, i as int),
        decreases 12 - i,
    {
        let n = button_at_exec(i);
        match override_button(map, n) {
            Some(o) => {
                if str_eq(o, b) {
                    return Some(n);
                }
            },
            None => {},
        }
        i = i + 1;
    }
    let mut j: usize = 0;
    while j < 12
        invariant
            j <= 12,
            pad_explicit_from(map_of(map@), b@, 0) is None,
            pad_implicit_from(map_of(map@), b@, 0) == pad_implicit_from(map_of(map@), b@, j as int),
        decreases 12 - j,
    {
        let n = button_at_exec(j);
        if override_button(map, n).is_none() && has_default(n, b) {
            return Some(n);
        }
        j = j + 1;
    }
    None
}

/// Assigning physical button `b` to `name`: the map after, and what
/// happened (same rule as `spec_bind_key`, except that a button already
/// driving `name` writes nothing, so L and R keep both their built-in
/// buttons). An override binds exactly one physical button; in a swap the
/// other button receives the first of `name`'s previous buttons.
pub open spec fn spec_bind_button(m: Map<Seq<char>, Seq<char>>, name: Seq<char>, b: Seq<char>) -> (Map<Seq<char>, Seq<char>>, BindView) {
    if !is_button(name) {
        (m, BindView::Unchanged)
    } else if spec_resolve_button(m, b) == Some(name) {
        (m, BindView::Unchanged)
    } else {
        let cur = spec_current_buttons(m, name);
        let previous = if cur.len() > 0 && cur[0] != b { Some(cur[0]) } else { None };
        let conflict = match spec_resolve_button(m, b) {
            Some(o) => if o != name { Some(o) } else { None },
            None => None,
        };
        let m1 = m.insert(name, b);
        match (conflict, previous) {
            (Some(o), Some(p)) => (m1.insert(o, p), BindView::Swapped(o)),
            (Some(o), None) => (m1.remove(o), BindView::Reverted(o)),
            (None, _) => (m1, BindView::Bound),
        }
    }
}

/// Assign physical button `b` to the SNES button `name`, swapping with the
/// SNES button that used it (see `spec_bind_button`).
pub fn bind_button(map: &mut Vec<(String, String)>, name: &str, b: &str) -> (r: BindResult)
    ensures
        (map_of(final(map)@), bind_view(r)) == spec_bind_button(map_of(old(map)@), name@, b@),
{
    let name = match button_name(name) {
        Some(n) => n,
        None => {
            return BindResult::Unchanged;
        },
    };
    let resolved = resolve_button(map, b);
    match resolved {
        Some(o) => {
            if str_eq(o, name) {
                return BindResult::Unchanged;
            }
        },
        None => {},
    }
    let cur = current_buttons(map, name);
    proof {
        assert(cur@.len() > 0 ==> cur@[0]@ == spec_current_buttons(map_of(map@), name@)[0]);
    }
    let previous = if cur.len() > 0 && !str_eq(cur[0], b) {
        Some(cur[0])
    } else {
        None
    };
    let conflict = match resolved {
        Some(o) => if str_eq(o, name) {
            None
        } else {
            Some(o)
        },
        None => None,
    };
    map_insert(map, name, b);
    match (conflict, previous) {
        (Some(o), Some(p)) => {
            map_insert(map, o, p);
            BindResult::Swapped(o)
        },
        (Some(o), None) => {
            map_remove(map, o);
            BindResult::Reverted(o)
        },
        (None, _) => BindResult::Bound,
    }
}

/// Button `k`'s override is `b`.
pub open spec fn pad_bound_to(m: Map<Seq<char>, Seq<char>>, b: Seq<char>, k: int) -> bool {
    spec_override(m, button_at(k)) == Some(b)
}

proof fn lemma_pad_explicit_from(m: Map<Seq<char>, Seq<char>>, b: Seq<char>, i: int)
    requires
        0 <= i <= 12,
    ensures
        pad_explicit_from(m, b, i) is None <==> forall|k: int| i <= k < 12 ==> !pad_bound_to(m, b, k),
        forall|j: int|
            i <= j < 12 && pad_bound_to(m, b, j) && (forall|k: int| i <= k < j ==> !pad_bound_to(m, b, k))
                ==> pad_explicit_from(m, b, i) == Some(button_at(j)),
    decreases 12 - i,
{
    if i < 12 {
        lemma_pad_explicit_from(m, b, i + 1);
        assert forall|j: int|
            i <= j < 12 && pad_bound_to(m, b, j) && (forall|k: int| i <= k < j ==> !pad_bound_to(m, b, k)) implies pad_explicit_from(
            m,
            b,
            i,
        ) == Some(button_at(j)) by {
            if j > i {
                assert(!pad_bound_to(m, b, i));
            }
        }
        if pad_bound_to(m, b, i) {
            assert(pad_explicit_from(m, b, i) == Some(button_at(i)));
        } else {
            assert(pad_explicit_from(m, b, i) == pad_explicit_from(m, b, i + 1));
            if forall|k: int| i + 1 <= k < 12 ==> !pad_bound_to(m, b, k) {
                assert forall|k: int| i <= k < 12 implies !pad_bound_to(m, b, k) by {
                    if k > i {
                        assert(i + 1 <= k < 12);
                    }
                }
            }
        }
    }
}

proof fn first_pad_bound(m: Map<Seq<char>, Seq<char>>, b: Seq<char>, k: int) -> (f: int)
    requires
        0 <= k < 12,
        pad_bound_to(m, b, k),
    ensures
        0 <= f <= k,
        pad_bound_to(m, b, f),
        pad_explicit_from(m, b, 0) == Some(button_at(f)),
    decreases k,
{
    if exists|q: int| 0 <= q < k && pad_bound_to(m, b, q) {
        let q = choose|q: int| 0 <= q < k && pad_bound_to(m, b, q);
        first_pad_bound(m, b, q)
    } else {
        lemma_pad_explicit_from(m, b, 0);
        k
    }
}

/// Once a physical button is assigned to a SNES button, it drives that SNES
/// button — on every controller map where no two SNES buttons are bound to
/// that physical button.
pub proof fn law_a_bound_pad_button_drives_its_button(m: Map<Seq<char>, Seq<char>>, name: Seq<char>, b: Seq<char>)
    requires
        is_button(name),
        is_pad_button(b),
        forall|i: int, j: int| 0 <= i < j < 12 ==> !(#[trigger] pad_bound_to(m, b, i) && #[trigger] pad_bound_to(m, b, j)),
    ensures
        spec_resolve_button(spec_bind_button(m, name, b).0, b) == Some(name),
{
    lemma_button_names();
    let r = spec_resolve_button(m, b);
    if r != Some(name) {
        let n = choose|i: int| 0 <= i < 12 && button_at(i) == name;
        let m2 = spec_bind_button(m, name, b).0;
        lemma_pad_explicit_from(m, b, 0);
        assert(pad_bound_to(m2, b, n));
        assert forall|k: int| 0 <= k < n implies !pad_bound_to(m2, b, k) by {
            let bk = button_at(k);
            assert(bk != name);
            if pad_bound_to(m2, b, k) {
                if r is Some && r->0 != name {
                    let o = r->0;
                    if bk != o {
                        assert(m2.contains_key(bk) && m.contains_key(bk) && m2[bk] == m[bk]);
                        assert(pad_bound_to(m, b, k));
                        let f = first_pad_bound(m, b, k);
                        assert(button_at(f) == o);
                        assert(f != k);
                        assert(pad_bound_to(m, b, f) && pad_bound_to(m, b, k));
                    }
                } else {
                    assert(r is None);
                    assert(pad_bound_to(m, b, k));
                }
            }
        }
        lemma_pad_explicit_from(m2, b, 0);
        assert(pad_explicit_from(m2, b, 0) == Some(button_at(n)));
    }
}

} // verus!
