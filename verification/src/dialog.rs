//! Native file and folder dialogs, one at a time: a request is queued, the
//! event loop opens it from its own iteration (never from inside a window
//! callback), and the answer comes back on a later frame. This is the state
//! the event loop keeps; opening the panel and carrying its answer back is
//! the application's part.

use vstd::prelude::*;

verus! {

/// A native dialog the shell wants to show.
#[derive(Debug, Clone, PartialEq, Eq)]
pub enum Request {
    /// Pick a cartridge to load; `start` is the folder the panel opens in.
    Rom { start: String },
    /// Pick the folder the library scans.
    LibraryDir { current: String },
    /// Pick the folder screenshots are written to.
    ScreenshotDir { current: String },
    /// Pick the folder battery saves and save states are written to.
    SaveDir { current: String },
}

/// What the player answered.
#[derive(Debug, Clone, PartialEq, Eq)]
pub enum Answer {
    Rom(String),
    LibraryDir(String),
    ScreenshotDir(String),
    SaveDir(String),
    /// The panel was dismissed without a choice.
    Cancelled,
}

/// The answer a dialog gives for what the player chose in it: the choice
/// tagged with the kind of dialog, or `Cancelled` without one.
pub open spec fn spec_answer_for(request: Request, chosen: Option<String>) -> Answer {
    match chosen {
        None => Answer::Cancelled,
        Some(p) => match request {
            Request::Rom { .. } => Answer::Rom(p),
            Request::LibraryDir { .. } => Answer::LibraryDir(p),
            Request::ScreenshotDir { .. } => Answer::ScreenshotDir(p),
            Request::SaveDir { .. } => Answer::SaveDir(p),
        },
    }
}

/// Turn the choice made in the panel `request` opened into an answer.
pub fn answer_for(request: &Request, chosen: Option<String>) -> (r: Answer)
    ensures
        r == spec_answer_for(*request, chosen),
{
    match chosen {
        None => Answer::Cancelled,
        Some(p) => match request {
            Request::Rom { .. } => Answer::Rom(p),
            Request::LibraryDir { .. } => Answer::LibraryDir(p),
            Request::ScreenshotDir { .. } => Answer::ScreenshotDir(p),
            Request::SaveDir { .. } => Answer::SaveDir(p),
        },
    }
}

/// The pending native dialog, if any: queued, or on screen waiting for its
/// answer. Two panels at once is not a state the platform offers, so a
/// request made meanwhile is dropped rather than stacked.
#[derive(Debug)]
pub struct Dialogs {
    queued: Option<Request>,
    on_screen: bool,
}

impl View for Dialogs {
    type V = (Option<Request>, bool);

    closed spec fn view(&self) -> (Option<Request>, bool) {
        (self.queued, self.on_screen)
    }
}

impl Default for Dialogs {
    fn default() -> (r: Dialogs)
        ensures
            r@ == (None::<Request>, false),
    {
        Dialogs::new()
    }
}

impl Dialogs {
    pub fn new() -> (r: Dialogs)
        ensures
            r@ == (None::<Request>, false),
    {
        Dialogs { queued: None, on_screen: false }
    }

    /// The request waiting to be opened.
    pub fn queued(&self) -> (r: Option<&Request>)
        ensures
            r matches Some(q) ==> self@.0 == Some(*q),
            r is None ==> self@.0 is None,
    {
        match &self.queued {
            Some(q) => Some(q),
            None => None,
        }
    }

    /// Queue `request`; ignored while another dialog is queued or on screen.
    pub fn request(&mut self, request: Request)
        ensures
            old(self)@.1 || old(self)@.0 is Some ==> final(self)@ == old(self)@,
            !(old(self)@.1 || old(self)@.0 is Some) ==> final(self)@ == (Some(request), false),
    {
        if self.is_busy() {
            return;
        }
        self.queued = Some(request);
    }

    /// True while a dialog is queued or waiting for an answer.
    pub fn is_busy(&self) -> (r: bool)
        ensures
            r == (self@.1 || self@.0 is Some),
    {
        self.on_screen || self.queued.is_some()
    }

    /// The dialog to open now, if one is queued and none is on screen; it is
    /// then on screen until its answer arrives.
    pub fn pump(&mut self) -> (r: Option<Request>)
        ensures
            old(self)@.1 ==> r is None && final(self)@ == old(self)@,
            !old(self)@.1 ==> r == old(self)@.0 && final(self)@ == (None::<Request>, old(self)@.0 is Some),
    {
        if self.on_screen {
            return None;
        }
        match self.queued.take() {
            Some(request) => {
                self.on_screen = true;
                Some(request)
            },
            None => None,
        }
    }

    /// The answer that arrived since the last frame, if any: an answer
    /// frees the shell to ask again.
    pub fn poll(&mut self, arrived: Option<Answer>) -> (r: Option<Answer>)
        ensures
            r == arrived,
            arrived is Some ==> final(self)@ == (old(self)@.0, false),
            arrived is None ==> final(self)@ == old(self)@,
    {
        match arrived {
            Some(answer) => {
                self.on_screen = false;
                Some(answer)
            },
            None => None,
        }
    }
}

} // verus!
