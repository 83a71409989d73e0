//! The live channel's command in flight: a `step` or `press` owes frames,
//! holds its buttons while the hold lasts, lets go for the release, and is
//! answered once, after its last frame. It never runs a frame itself: the
//! caller runs one and says so.

use crate::agent::Request;
use crate::input::{button_name, is_button, pad_of, released, Joypad};
use crate::session::{Book, BookView};
use crate::text::push_str;
use vstd::prelude::*;

verus! {

/// A `step` or `press` in flight.
#[derive(Debug)]
pub struct Pending {
    /// Empty for a `step`, which is what tells the two answers apart.
    buttons: Vec<String>,
    /// Frames left to run with the buttons held.
    hold: u32,
    /// Frames left to run with nothing held, once the hold is over.
    release: u32,
    /// What the request asked for, echoed back on the answer.
    frames: u32,
    releases: u32,
}

/// The counters of a command in flight: frames left held, frames left
/// released, and what was asked.
pub struct PendingView {
    pub buttons: Seq<Seq<char>>,
    pub hold: u32,
    pub release: u32,
    pub frames: u32,
    pub releases: u32,
}

/// The answer a command owes.
#[derive(Debug, Clone, PartialEq, Eq)]
pub enum Done {
    /// A `step`: the frame count and the frames it ran.
    Step { frame: u64, frames: u32 },
    /// A `press`: also what it held and how long it let go.
    Press { frame: u64, buttons: Vec<String>, frames: u32, release: u32 },
}

pub open spec fn names(v: Seq<String>) -> Seq<Seq<char>> {
    v.map_values(|s: String| s@)
}

impl View for Pending {
    type V = PendingView;

    closed spec fn view(&self) -> PendingView {
        PendingView {
            buttons: names(self.buttons@),
            hold: self.hold,
            release: self.release,
            frames: self.frames,
            releases: self.releases,
        }
    }
}

/// A frame has run: the hold counts down first, then the release.
pub open spec fn tick(p: PendingView) -> PendingView {
    if p.hold > 0 {
        PendingView { hold: (p.hold - 1) as u32, ..p }
    } else if p.release > 0 {
        PendingView { release: (p.release - 1) as u32, ..p }
    } else {
        p
    }
}

/// The command after `k` frames.
pub open spec fn ticks(p: PendingView, k: nat) -> PendingView
    decreases k,
{
    if k == 0 {
        p
    } else {
        tick(ticks(p, (k - 1) as nat))
    }
}

pub open spec fn owes(p: PendingView) -> bool {
    p.hold > 0 || p.release > 0
}

/// The first of `v` that is not a button name.
pub open spec fn first_unknown(v: Seq<Seq<char>>) -> Option<Seq<char>>
    decreases v.len(),
{
    if v.len() == 0 {
        None
    } else if !is_button(v[0]) {
        Some(v[0])
    } else {
        first_unknown(v.drop_first())
    }
}

pub open spec fn done_body(p: PendingView, frame: u64, d: Done) -> bool {
    if p.buttons.len() == 0 {
        d == Done::Step { frame, frames: p.frames }
    } else {
        d matches Done::Press { frame: f, buttons: b, frames: n, release: r } && f == frame
            && names(b@) == p.buttons && n == p.frames && r == p.releases
    }
}

fn copy_names(v: &Vec<String>) -> (r: Vec<String>)
    ensures
        r@ == v@,
{
    let mut r: Vec<String> = Vec::new();
    let mut i: usize = 0;
    while i < v.len()
        invariant
            i <= v@.len(),
            r@ == v@.take(i as int),
        decreases v@.len() - i,
    {
        r.push(v[i].clone());
        i = i + 1;
        assert(r@ =~= v@.take(i as int));
    }
    assert(v@.take(v@.len() as int) =~= v@);
    r
}

impl Pending {
    /// A command holding `buttons` for `frames` frames, then holding nothing
    /// for `release`; refused, before a single frame is run, when a name is
    /// not one of the twelve buttons.
    pub fn new(buttons: Vec<String>, frames: u32, release: u32) -> (r: Result<Pending, String>)
        ensures
            match first_unknown(names(buttons@)) {
                Some(n) => r matches Err(e) && e@ == "unknown button name: "@ + n,
                None => r matches Ok(p) && p@ == (PendingView {
                    buttons: names(buttons@),
                    hold: frames,
                    release,
                    frames,
                    releases: release,
                }),
            },
    {
        let mut i: usize = 0;
        assert(names(buttons@).skip(0) =~= names(buttons@));
        while i < buttons.len()
            invariant
                i <= buttons@.len(),
                first_unknown(names(buttons@)) == first_unknown(names(buttons@).skip(i as int)),
            decreases buttons@.len() - i,
        {
            proof {
                let t = names(buttons@).skip(i as int);
                assert(t.drop_first() =~= names(buttons@).skip(i + 1));
                assert(t[0] == buttons@[i as int]@);
            }
            if button_name(buttons[i].as_str()).is_none() {
                let mut e = String::from_str("unknown button name: ");
                push_str(&mut e, buttons[i].as_str());
                return Err(e);
            }
            i = i + 1;
        }
        assert(names(buttons@).skip(buttons@.len() as int) =~= Seq::<Seq<char>>::empty());
        Ok(Pending { buttons, hold: frames, release, frames, releases: release })
    }

    /// True while there is still a frame to run for this command.
    pub fn owes_frames(&self) -> (r: bool)
        ensures
            r == owes(self@),
    {
        self.hold > 0 || self.release > 0
    }

    /// What player 1 must see on the frame about to run: the command's
    /// buttons while the hold lasts, nothing during the release.
    pub fn pad(&self) -> (r: Joypad)
        ensures
            r == (if self@.hold > 0 { pad_of(self@.buttons) } else { released() }),
    {
        if self.hold > 0 {
            Joypad::holding(&self.buttons)
        } else {
            Joypad::default()
        }
    }

    /// The answer this command gives at `frame`.
    pub fn body(&self, frame: u64) -> (d: Done)
        ensures
            done_body(self@, frame, d),
    {
        if self.buttons.len() == 0 {
            Done::Step { frame, frames: self.frames }
        } else {
            Done::Press { frame, buttons: copy_names(&self.buttons), frames: self.frames, release: self.releases }
        }
    }

    /// One frame has run: `Some` is the answer the command owed, given only
    /// once its last frame is spent.
    pub fn frame_elapsed(&mut self, frame: u64) -> (r: Option<Done>)
        ensures
            final(self)@ == tick(old(self)@),
            r is Some <==> !owes(tick(old(self)@)),
            r matches Some(d) ==> done_body(tick(old(self)@), frame, d),
    {
        if self.hold > 0 {
            self.hold = self.hold - 1;
        } else if self.release > 0 {
            self.release = self.release - 1;
        }
        if self.owes_frames() {
            return None;
        }
        Some(self.body(frame))
    }
}

/// A command owing `f` held and `r` released frames still owes one after
/// `k` frames exactly while `k < f + r`, and holds its buttons exactly while
/// `k < f`: it is answered on frame `f + r` and on no other.
pub proof fn law_a_command_is_answered_after_its_frames(p: PendingView, k: nat)
    requires
        k <= p.hold + p.release,
    ensures
        owes(ticks(p, k)) <==> k < p.hold + p.release,
        ticks(p, k).hold > 0 <==> k < p.hold,
        ticks(p, k).buttons == p.buttons && ticks(p, k).frames == p.frames
            && ticks(p, k).releases == p.releases,
{
    lemma_ticks_count(p, k);
}

proof fn lemma_ticks_count(p: PendingView, k: nat)
    requires
        k <= p.hold + p.release,
    ensures
        k <= p.hold ==> ticks(p, k).hold == p.hold - k && ticks(p, k).release == p.release,
        k > p.hold ==> ticks(p, k).hold == 0 && ticks(p, k).release == p.hold + p.release - k,
        ticks(p, k).buttons == p.buttons && ticks(p, k).frames == p.frames
            && ticks(p, k).releases == p.releases,
    decreases k,
{
    if k > 0 {
        lemma_ticks_count(p, (k - 1) as nat);
    }
}


// --- the channel's routing ---------------------------------------------------

/// The button names a refused `press` lists, in the protocol's order.
pub const BUTTON_LIST: &'static str = "A B X Y L R Start Select Up Down Left Right";

/// What the channel does with one request line once it is parsed.
#[derive(Debug)]
pub enum Action {
    /// Answer with this error.
    Fail(String),
    /// Answer at once with this body: a command that asked for no frame.
    Answer(Done),
    /// Answer `{"frame": n}` and close the channel.
    Close(u64),
    /// Carry out this request on the console; it costs no frame.
    Exec(Request),
    /// Nothing to send yet: the command waits for its frames.
    Wait,
}

/// What a channel holds: the session's book, the command in flight and
/// whether the client said `quit`.
pub struct ChannelView {
    pub book: BookView,
    pub pending: Option<PendingView>,
    pub closed: bool,
}

/// The live channel's state between frames.
pub struct Channel {
    pub book: Book,
    pending: Option<Pending>,
    closed: bool,
}

pub open spec fn pending_view(p: Option<Pending>) -> Option<PendingView> {
    match p {
        Some(q) => Some(q@),
        None => None,
    }
}

impl View for Channel {
    type V = ChannelView;

    closed spec fn view(&self) -> ChannelView {
        ChannelView { book: self.book@, pending: pending_view(self.pending), closed: self.closed }
    }
}

impl Channel {
    /// A channel that has run no frame, holds no command and is open.
    pub fn new() -> (r: Channel)
        ensures
            r@.book.frame == 0,
            r@.book.states.len() == 0,
            r@.pending is None,
            !r@.closed,
    {
        Channel { book: Book::new(), pending: None, closed: false }
    }

    /// The client said `quit` (or hung up).
    pub fn closed(&self) -> (r: bool)
        ensures
            r == self@.closed,
    {
        self.closed
    }

    /// The client hung up.
    pub fn close(&mut self)
        ensures
            final(self)@.closed,
            final(self)@.book == old(self)@.book,
            final(self)@.pending == old(self)@.pending,
    {
        self.closed = true;
    }

    /// Whether the next request line may be read now: not while a command
    /// waits for its frames, and never once the channel is closed.
    pub fn accepts(&self) -> (r: bool)
        ensures
            r == (self@.pending is None && !self@.closed),
    {
        self.pending.is_none() && !self.closed
    }

    /// What player 1 holds on the frame about to run, while a command is in
    /// flight.
    pub fn pad(&self) -> (r: Option<Joypad>)
        ensures
            match self@.pending {
                Some(p) => r == Some(if p.hold > 0 { pad_of(p.buttons) } else { released() }),
                None => r is None,
            },
    {
        match &self.pending {
            Some(p) => Some(p.pad()),
            None => None,
        }
    }

    /// Route one parsed request: an error is answered, `step` and `press`
    /// are taken in charge (answered at once when they ask for no frame,
    /// refused when a button name is unknown), `quit` is answered and closes
    /// the channel, anything else is carried out on the console.
    pub fn handle(&mut self, parsed: Result<Request, String>) -> (r: Action)
        requires
            old(self)@.pending is None,
        ensures
            final(self)@.book == old(self)@.book,
            parsed matches Err(e) ==> (r matches Action::Fail(f) && f@ == e@),
            parsed is Err ==> final(self)@ == old(self)@,
            parsed matches Ok(Request::Quit) ==> r == Action::Close(old(self)@.book.frame) && final(self)@.closed
                && final(self)@.pending is None,
            parsed matches Ok(Request::Step { frames }) ==> armed(old(self)@, Seq::empty(), frames, 0, r, final(self)@),
            parsed matches Ok(Request::Press { buttons, frames, release }) ==> armed(
                old(self)@,
                names(buttons@),
                frames,
                release,
                r,
                final(self)@,
            ),
            parsed matches Ok(q) ==> !(q is Quit || q is Step || q is Press) ==> (r matches Action::Exec(x) && x@ == q@)
                && final(self)@ == old(self)@,
    {
        let q = match parsed {
            Err(e) => {
                return Action::Fail(e);
            },
            Ok(q) => q,
        };
        match q {
            Request::Step { frames } => {
                let none: Vec<String> = Vec::new();
                assert(names(none@) =~= Seq::<Seq<char>>::empty());
                self.arm(none, frames, 0)
            },
            Request::Press { buttons, frames, release } => self.arm(buttons, frames, release),
            Request::Quit => {
                self.closed = true;
                Action::Close(self.book.frame())
            },
            _ => Action::Exec(q),
        }
    }

    fn arm(&mut self, buttons: Vec<String>, frames: u32, release: u32) -> (r: Action)
        requires
            old(self)@.pending is None,
        ensures
            final(self)@.book == old(self)@.book,
            armed(old(self)@, names(buttons@), frames, release, r, final(self)@),
    {
        let ghost bn = names(buttons@);
        match Pending::new(buttons, frames, release) {
            Err(e) => {
                let mut m = e;
                push_str(&mut m, " (known: ");
                push_str(&mut m, BUTTON_LIST);
                push_str(&mut m, ")");
                Action::Fail(m)
            },
            Ok(p) => {
                if !p.owes_frames() {
                    Action::Answer(p.body(self.book.frame()))
                } else {
                    self.pending = Some(p);
                    Action::Wait
                }
            },
        }
    }

    /// One frame was emulated: the counter moves on, the console no longer
    /// holds the saved state, and the command in flight counts it; its
    /// answer comes back once its last frame is spent, and it is then done.
    pub fn frame_elapsed(&mut self) -> (r: Option<Done>)
        requires
            old(self)@.book.frame < u64::MAX,
        ensures
            final(self)@.book.frame == old(self)@.book.frame + 1,
            final(self)@.book.states == old(self)@.book.states,
            final(self)@.book.last_state == old(self)@.book.last_state,
            !final(self)@.book.at_saved_state,
            final(self)@.closed == old(self)@.closed,
            match old(self)@.pending {
                None => r is None && final(self)@.pending is None,
                Some(p) => if owes(tick(p)) {
                    r is None && final(self)@.pending == Some(tick(p))
                } else {
                    (r matches Some(d) && done_body(tick(p), final(self)@.book.frame, d))
                        && final(self)@.pending is None
                },
            },
    {
        self.book.stepped(1);
        let frame = self.book.frame();
        match self.pending.take() {
            None => None,
            Some(mut p) => {
                let answer = p.frame_elapsed(frame);
                if answer.is_none() {
                    self.pending = Some(p);
                }
                answer
            },
        }
    }
}

/// How a `step` or `press` holding `buttons` for `frames` frames and
/// letting go for `release` is taken in charge by the channel `c`: an
/// unknown button is refused with the list of known ones; a command that
/// asks for no frame is answered on the spot; any other waits for its
/// frames.
pub open spec fn armed(c: ChannelView, buttons: Seq<Seq<char>>, frames: u32, release: u32, r: Action, after: ChannelView) -> bool {
    let p = PendingView { buttons, hold: frames, release, frames, releases: release };
    match first_unknown(buttons) {
        Some(n) => (r matches Action::Fail(e) && e@ == "unknown button name: "@ + n + " (known: "@ + BUTTON_LIST@ + ")"@)
            && after == c,
        None => if !owes(p) {
            (r matches Action::Answer(d) && done_body(p, c.book.frame, d)) && after == c
        } else {
            r is Wait && after == (ChannelView { pending: Some(p), ..c })
        },
    }
}

} // verus!
