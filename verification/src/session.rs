//! The bookkeeping of an agent session: the frame counter (its only clock),
//! the frame each state written this session was taken at, the last state
//! saved or loaded, and whether the console still holds exactly what that
//! state holds. Loading a state this session wrote puts the counter back;
//! loading one written by another process leaves the counter running.

use crate::text::str_eq;
use vstd::prelude::*;

verus! {

/// The frame recorded for `path`: the first entry naming it.
pub open spec fn frame_of(states: Seq<(String, u64)>, path: Seq<char>) -> Option<u64>
    decreases states.len(),
{
    if states.len() == 0 {
        None
    } else if states[0].0@ == path {
        Some(states[0].1)
    } else {
        frame_of(states.drop_first(), path)
    }
}

/// What a session's book holds.
pub struct BookView {
    pub frame: u64,
    pub states: Seq<(String, u64)>,
    pub last_state: Option<Seq<char>>,
    pub at_saved_state: bool,
}

/// The session's clock and the states it wrote.
pub struct Book {
    frame: u64,
    states: Vec<(String, u64)>,
    last_state: Option<String>,
    at_saved_state: bool,
}

impl View for Book {
    type V = BookView;

    closed spec fn view(&self) -> BookView {
        BookView {
            frame: self.frame,
            states: self.states@,
            last_state: match self.last_state {
                Some(s) => Some(s@),
                None => None,
            },
            at_saved_state: self.at_saved_state,
        }
    }
}

proof fn lemma_frame_at(s: Seq<(String, u64)>, p: Seq<char>, i: int)
    requires
        0 <= i < s.len(),
        s[i].0@ == p,
        forall|k: int| 0 <= k < i ==> (#[trigger] s[k]).0@ != p,
    ensures
        frame_of(s, p) == Some(s[i].1),
    decreases i,
{
    if i > 0 {
        let t = s.drop_first();
        assert forall|k: int| 0 <= k < i - 1 implies (#[trigger] t[k]).0@ != p by {
            assert(t[k] == s[k + 1]);
        }
        lemma_frame_at(t, p, i - 1);
    }
}

proof fn lemma_frame_absent(s: Seq<(String, u64)>, p: Seq<char>)
    requires
        forall|k: int| 0 <= k < s.len() ==> (#[trigger] s[k]).0@ != p,
    ensures
        frame_of(s, p) is None,
    decreases s.len(),
{
    if s.len() > 0 {
        let t = s.drop_first();
        assert forall|k: int| 0 <= k < t.len() implies (#[trigger] t[k]).0@ != p by {
            assert(t[k] == s[k + 1]);
        }
        lemma_frame_absent(t, p);
    }
}

/// Replacing the frame of one entry leaves every other path's frame as it
/// was.
proof fn lemma_frame_update(s: Seq<(String, u64)>, i: int, f: u64, q: Seq<char>)
    requires
        0 <= i < s.len(),
        s[i].0@ != q,
    ensures
        frame_of(s.update(i, (s[i].0, f)), q) == frame_of(s, q),
    decreases s.len(),
{
    let u = s.update(i, (s[i].0, f));
    if s[0].0@ != q {
        if i > 0 {
            assert(u.drop_first() =~= s.drop_first().update(i - 1, (s[i].0, f)));
            lemma_frame_update(s.drop_first(), i - 1, f, q);
        } else {
            assert(u.drop_first() =~= s.drop_first());
        }
    }
}

proof fn lemma_frame_push(s: Seq<(String, u64)>, x: (String, u64), q: Seq<char>)
    ensures
        frame_of(s.push(x), q) == (if frame_of(s, q) is Some {
            frame_of(s, q)
        } else if x.0@ == q {
            Some(x.1)
        } else {
            None
        }),
    decreases s.len(),
{
    if s.len() > 0 {
        assert(s.push(x).drop_first() =~= s.drop_first().push(x));
        lemma_frame_push(s.drop_first(), x, q);
    } else {
        assert(s.push(x).drop_first() =~= s);
    }
}

impl Book {
    /// A session that has run no frame and written no state.
    pub fn new() -> (r: Book)
        ensures
            r@.frame == 0,
            r@.states.len() == 0,
            r@.last_state is None,
            !r@.at_saved_state,
    {
        Book { frame: 0, states: Vec::new(), last_state: None, at_saved_state: false }
    }

    /// Frames run so far.
    pub fn frame(&self) -> (r: u64)
        ensures
            r == self@.frame,
    {
        self.frame
    }

    /// Whether the console still holds what the last state holds.
    pub fn at_saved_state(&self) -> (r: bool)
        ensures
            r == self@.at_saved_state,
    {
        self.at_saved_state
    }

    /// The last state saved or loaded.
    pub fn last_state(&self) -> (r: Option<&String>)
        ensures
            (match r {
                Some(s) => Some(s@),
                None => None,
            }) == self@.last_state,
    {
        match &self.last_state {
            Some(s) => Some(s),
            None => None,
        }
    }

    /// The frame the state at `path` was taken at, when this session wrote it.
    pub fn frame_of(&self, path: &str) -> (r: Option<u64>)
        ensures
            r == frame_of(self@.states, path@),
    {
        let mut i: usize = 0;
        assert(self.states@.skip(0) =~= self.states@);
        while i < self.states.len()
            invariant
                i <= self.states@.len(),
                frame_of(self.states@, path@) == frame_of(self.states@.skip(i as int), path@),
            decreases self.states@.len() - i,
        {
            proof {
                let t = self.states@.skip(i as int);
                assert(t.drop_first() =~= self.states@.skip(i + 1));
                assert(t[0] == self.states@[i as int]);
            }
            if str_eq(self.states[i].0.as_str(), path) {
                return Some(self.states[i].1);
            }
            i = i + 1;
        }
        None
    }

    /// `frames` frames were run: the counter moves on, and the console no
    /// longer holds the saved state unless no frame ran.
    pub fn stepped(&mut self, frames: u32)
        requires
            old(self)@.frame + frames <= u64::MAX,
        ensures
            final(self)@.frame == old(self)@.frame + frames,
            final(self)@.states == old(self)@.states,
            final(self)@.last_state == old(self)@.last_state,
            final(self)@.at_saved_state == (old(self)@.at_saved_state && frames == 0),
    {
        self.frame = self.frame + frames as u64;
        if frames > 0 {
            self.at_saved_state = false;
        }
    }

    /// Memory was written: the console no longer holds the saved state.
    pub fn memory_written(&mut self)
        ensures
            final(self)@.frame == old(self)@.frame,
            final(self)@.states == old(self)@.states,
            final(self)@.last_state == old(self)@.last_state,
            !final(self)@.at_saved_state,
    {
        self.at_saved_state = false;
    }

    /// A state was written at `path`: it is recorded at the current frame
    /// (replacing an earlier record of that path) and becomes the last state.
    pub fn saved(&mut self, path: &str)
        ensures
            final(self)@.frame == old(self)@.frame,
            frame_of(final(self)@.states, path@) == Some(old(self)@.frame),
            forall|q: Seq<char>| q != path@ ==> #[trigger] frame_of(final(self)@.states, q) == frame_of(old(self)@.states, q),
            final(self)@.last_state == Some(path@),
            final(self)@.at_saved_state,
    {
        let ghost s = self.states@;
        let f = self.frame;
        let mut i: usize = 0;
        while i < self.states.len()
            invariant
                self.states@ == s,
                self.frame == f,
                s == old(self)@.states,
                f == old(self)@.frame,
                i <= s.len(),
                forall|k: int| 0 <= k < i ==> (#[trigger] s[k]).0@ != path@,
            decreases s.len() - i,
        {
            if str_eq(self.states[i].0.as_str(), path) {
                let (name, _) = self.states.remove(i);
                self.states.insert(i, (name, f));
                proof {
                    let u = self.states@;
                    assert(u =~= s.update(i as int, (s[i as int].0, f)));
                    assert forall|k: int| 0 <= k < i implies (#[trigger] u[k]).0@ != path@ by {
                        assert(u[k] == s[k]);
                    }
                    lemma_frame_at(u, path@, i as int);
                    assert forall|q: Seq<char>| q != path@ implies #[trigger] frame_of(self.states@, q) == frame_of(s, q) by {
                        lemma_frame_update(s, i as int, f, q);
                    }
                }
                self.last_state = Some(String::from_str(path));
                self.at_saved_state = true;
                return;
            }
            i = i + 1;
        }
        let name = String::from_str(path);
        let ghost entry = (name, f);
        self.states.push((name, f));
        proof {
            lemma_frame_absent(s, path@);
            lemma_frame_push(s, entry, path@);
            assert forall|q: Seq<char>| q != path@ implies #[trigger] frame_of(self.states@, q) == frame_of(s, q) by {
                lemma_frame_push(s, entry, q);
            }
        }
        self.last_state = Some(String::from_str(path));
        self.at_saved_state = true;
    }

    /// The state a `load-state` reads: the one asked for, else the last one;
    /// an error when neither exists.
    pub fn load_target(&self, requested: Option<&str>) -> (r: Result<String, String>)
        ensures
            requested matches Some(p) ==> r matches Ok(s) && s@ == p@,
            requested is None ==> (match self@.last_state {
                Some(l) => r matches Ok(s) && s@ == l,
                None => r is Err,
            }),
    {
        match requested {
            Some(p) => Ok(String::from_str(p)),
            None => match &self.last_state {
                Some(l) => Ok(l.clone()),
                None => Err(String::from_str("no save state taken this session; pass \"path\"")),
            },
        }
    }

    /// The state at `path` was loaded: the counter goes back to the frame it
    /// was taken at when this session wrote it, else keeps running; it
    /// becomes the last state. Returns whether the frame was restored.
    pub fn loaded(&mut self, path: &str) -> (restored: bool)
        ensures
            restored == frame_of(old(self)@.states, path@) is Some,
            final(self)@.frame == (match frame_of(old(self)@.states, path@) {
                Some(f) => f,
                None => old(self)@.frame,
            }),
            final(self)@.states == old(self)@.states,
            final(self)@.last_state == Some(path@),
            final(self)@.at_saved_state,
    {
        let restored = match self.frame_of(path) {
            Some(f) => {
                self.frame = f;
                true
            },
            None => false,
        };
        self.last_state = Some(String::from_str(path));
        self.at_saved_state = true;
        restored
    }
}

/// What one call undoes: saving a state, running any number of frames and
/// writing memory, then loading that state puts the counter back on the
/// frame it was saved at, and the console holds the saved state again.
pub proof fn law_loading_a_saved_state_rewinds_the_clock(
    saved: BookView,
    later: BookView,
    loaded: BookView,
    path: Seq<char>,
    f: u64,
)
    requires
        frame_of(saved.states, path) == Some(f),
        forall|q: Seq<char>| #[trigger] frame_of(later.states, q) == frame_of(saved.states, q),
        loaded.frame == (match frame_of(later.states, path) {
            Some(g) => g,
            None => later.frame,
        }),
        loaded.at_saved_state,
    ensures
        loaded.frame == f,
        loaded.at_saved_state,
{
    assert(frame_of(later.states, path) == frame_of(saved.states, path));
}

} // verus!
