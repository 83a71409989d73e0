//! What a headless run does around each emulated frame: whether the frame is
//! traced, whether a coprocessor trace sink is installed or removed before
//! it, whether its picture is dumped, and whether a save state is taken
//! after it. The run loop performs these actions; the decisions are here.

use crate::cli::Args;
use vstd::prelude::*;

verus! {

/// The actions around one frame.
#[derive(Debug, Clone, Copy, PartialEq, Eq, Structural)]
pub struct FramePlan {
    /// The frame lies in the trace window (`--trace-from` to `--trace-to`,
    /// both included).
    pub in_window: bool,
    /// Write the frame's picture into the dump folder.
    pub dump: bool,
    /// Take the `--save-state-at` state after the frame.
    pub save_state: bool,
}

/// The plan of frame `frame` (counted from 0).
pub open spec fn spec_frame_plan(
    frame: u32,
    trace_start: u32,
    trace_end: u32,
    dump_every: Option<u32>,
    has_dump_dir: bool,
    save_at: Option<u32>,
) -> FramePlan {
    FramePlan {
        in_window: trace_start <= frame <= trace_end,
        dump: has_dump_dir && (dump_every matches Some(n) && n > 0 && frame % n == 0),
        save_state: save_at == Some(frame),
    }
}

/// Decide the actions around frame `frame`.
pub fn frame_plan(
    frame: u32,
    trace_start: u32,
    trace_end: u32,
    dump_every: Option<u32>,
    has_dump_dir: bool,
    save_at: Option<u32>,
) -> (r: FramePlan)
    ensures
        r == spec_frame_plan(frame, trace_start, trace_end, dump_every, has_dump_dir, save_at),
{
    let dump = match dump_every {
        Some(n) => has_dump_dir && n > 0 && frame % n == 0,
        None => false,
    };
    let save_state = match save_at {
        Some(at) => at == frame,
        None => false,
    };
    FramePlan { in_window: trace_start <= frame && frame <= trace_end, dump, save_state }
}

/// The plan of frame `frame` of a run started with `args`.
pub fn plan_for(args: &Args, frame: u32) -> (r: FramePlan)
    ensures
        r == spec_frame_plan(
            frame,
            args@.trace_start_frame,
            args@.trace_end_frame,
            args@.dump_frame_every,
            args@.dump_dir is Some,
            match args@.save_state_at {
                Some(p) => Some(p.0),
                None => None,
            },
        ),
{
    let at = match &args.save_state_at {
        Some(p) => Some(p.0),
        None => None,
    };
    frame_plan(frame, args.trace_start_frame, args.trace_end_frame, args.dump_frame_every, args.dump_dir.is_some(), at)
}

/// What to do with a coprocessor trace sink before a frame.
#[derive(Debug, Clone, Copy, PartialEq, Eq, Structural)]
pub enum SinkStep {
    Install,
    Remove,
    Keep,
}

/// A sink is installed on entering the trace window and removed on leaving
/// it; otherwise it is left as it is.
pub open spec fn spec_sink_step(installed: bool, in_window: bool) -> SinkStep {
    if in_window && !installed {
        SinkStep::Install
    } else if !in_window && installed {
        SinkStep::Remove
    } else {
        SinkStep::Keep
    }
}

/// Whether a sink is installed after `step`.
pub open spec fn installed_after(installed: bool, step: SinkStep) -> bool {
    match step {
        SinkStep::Install => true,
        SinkStep::Remove => false,
        SinkStep::Keep => installed,
    }
}

/// The step for a sink that is `installed`, before a frame that is (or is
/// not) `in_window`.
pub fn sink_step(installed: bool, in_window: bool) -> (r: SinkStep)
    ensures
        r == spec_sink_step(installed, in_window),
{
    if in_window && !installed {
        SinkStep::Install
    } else if !in_window && installed {
        SinkStep::Remove
    } else {
        SinkStep::Keep
    }
}

/// A sink is installed during exactly the frames of the trace window: after
/// the step before a frame it is installed if and only if the frame is in
/// the window, and it is never installed twice nor removed when absent.
pub proof fn law_a_sink_follows_the_window(installed: bool, in_window: bool)
    ensures
        installed_after(installed, spec_sink_step(installed, in_window)) == in_window,
        spec_sink_step(installed, in_window) is Install ==> !installed,
        spec_sink_step(installed, in_window) is Remove ==> installed,
{
}

/// Over a run of `frames` frames with a dump interval `n > 0` and a dump
/// folder, frame `f` is dumped exactly when it is a multiple of `n`; the
/// save state is taken after the one frame it names and after no other.
pub proof fn law_dumps_and_states_fall_on_their_frames(
    f: u32,
    g: u32,
    trace_start: u32,
    trace_end: u32,
    n: u32,
    at: u32,
)
    requires
        n > 0,
        f != g,
    ensures
        spec_frame_plan(f, trace_start, trace_end, Some(n), true, Some(at)).dump == (f % n == 0),
        spec_frame_plan(f, trace_start, trace_end, Some(n), true, Some(at)).save_state
            ==> !spec_frame_plan(g, trace_start, trace_end, Some(n), true, Some(at)).save_state,
        spec_frame_plan(f, trace_start, trace_end, Some(n), false, Some(at)).dump == false,
{
}

} // verus!
