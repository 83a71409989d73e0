//! The assistant: what it is asked to do, the instructions it is handed,
//! and where the command-line tool it runs is looked for. Running the tool
//! and reading its narration is the application's part.

use crate::text::{push_str, str_eq};
use crate::paths::{join, path_join};
use vstd::prelude::*;

verus! {

/// Model the assistant runs on unless the player names another.
pub const DEFAULT_MODEL: &'static str = "haiku";

/// What the player is asking for.
#[derive(Debug, Clone, Copy, PartialEq, Eq, Structural)]
pub enum Task {
    /// Find a memory address and leave a cheat behind.
    Cheat,
}

/// Where the assistant is, from the shell's point of view.
#[derive(Debug, Clone, PartialEq, Eq)]
pub enum Status {
    /// A line of narration, in the assistant's own words.
    Progress(String),
    /// Finished, with what it has to say about it.
    Done(String),
    /// Failed, or was stopped.
    Failed(String),
}

/// Everything one request needs.
#[derive(Debug, Clone)]
pub struct Request {
    pub task: Task,
    /// What the player typed, verbatim.
    pub wish: String,
    /// The emulator binary the assistant drives.
    pub emulator: String,
    pub rom: String,
    /// State the assistant starts from.
    pub state: String,
    /// Where a found cheat must be written.
    pub cheats: String,
    /// Model to run on, or `None` for the tool's own default.
    pub model: Option<String>,
}

pub const COMMON_HEAD: &'static str = "You are driving a SNES emulator on behalf of someone playing a game.\nThey asked, in their own words: \"";

pub const COMMON_MID: &'static str = "\"\n\nStart the control channel with:\n  ";

pub const COMMON_TAIL: &'static str = "\nIt speaks one JSON object per line on stdin and answers one per line on\nstdout. Send {\"cmd\":\"help\"} first: it lists every command and its\nexact shape. The emulation is deterministic, so replaying the same\ninputs from the same state gives the same result — that is what makes\nany search you do reproducible.\n\nReport what you did in one short paragraph, in the language the wish\nabove is written in. If you did not succeed, say so plainly and say\nwhat you ruled out. Do not claim a result you did not verify.\n";

pub const CHEAT_HEAD: &'static str = "\nYour job: find the memory address behind that wish, and leave a\ncheat behind.\n\nThe method is successive intersection: snapshot the whole of WRAM\n($7E:0000, 128 KB), let the event happen, snapshot again, and keep\nonly the addresses that moved as expected. Repeat until few remain.\n\nTwo warnings, each of which has already cost a whole search:\n- A control round run while the game is still *resolving* the\nevent eliminates the right address. Let it settle first.\n- Several addresses survive every round because they are copies\n(a saved counter, the tile that draws the digit). No number of\nrounds separates them — only writing to each one and looking at\nthe screen tells you which the game actually reads.\n\nWhen you are sure, persist it with cheat-add, whose file is:\n  ";

pub const CHEAT_TAIL: &'static str = "\nThen verify in a *fresh* process that only reads that file.\n";

/// The command that starts the assistant's own console from the saved state.
pub open spec fn spec_start_command(r: Request) -> Seq<char> {
    r.emulator@ + " \""@ + r.rom@ + "\" --agent --load-state \""@ + r.state@ + "\""@
}

/// The instructions handed to the assistant: the player's wish verbatim, the
/// exact command line, the reporting rule, then the task's own method and
/// where its result goes.
pub open spec fn spec_prompt(r: Request) -> Seq<char> {
    let common = COMMON_HEAD@ + r.wish@ + COMMON_MID@ + spec_start_command(r) + COMMON_TAIL@;
    match r.task {
        Task::Cheat => common + CHEAT_HEAD@ + r.cheats@ + CHEAT_TAIL@,
    }
}

/// The instructions handed to the assistant.
pub fn prompt(request: &Request) -> (r: String)
    ensures
        r@ == spec_prompt(*request),
{
    let mut p = String::from_str(COMMON_HEAD);
    push_str(&mut p, request.wish.as_str());
    push_str(&mut p, COMMON_MID);
    push_str(&mut p, request.emulator.as_str());
    push_str(&mut p, " \"");
    push_str(&mut p, request.rom.as_str());
    push_str(&mut p, "\" --agent --load-state \"");
    push_str(&mut p, request.state.as_str());
    push_str(&mut p, "\"");
    push_str(&mut p, COMMON_TAIL);
    match request.task {
        Task::Cheat => {
            push_str(&mut p, CHEAT_HEAD);
            push_str(&mut p, request.cheats.as_str());
            push_str(&mut p, CHEAT_TAIL);
        },
    }
    assert(p@ =~= spec_prompt(*request));
    p
}

/// Where the tool named `name` is looked for, in order: the path the player
/// named and nothing else, or each `PATH` directory joined with the name.
pub open spec fn spec_tool_candidates(name: Seq<char>, chosen: Option<Seq<char>>, path_dirs: Seq<Seq<char>>) -> Seq<Seq<char>> {
    match chosen {
        Some(c) => seq![c],
        None => Seq::new(path_dirs.len(), |i: int| path_join(path_dirs[i], name)),
    }
}

/// The paths to try, in order: a path the player named wins and is not
/// second-guessed; otherwise the tool is looked for on the `PATH` only.
pub fn tool_candidates(name: &str, chosen: Option<&str>, path_dirs: &[String]) -> (r: Vec<String>)
    ensures
        r@.map_values(|s: String| s@) == spec_tool_candidates(name@, crate::paths::opt_view(chosen), path_dirs@.map_values(|s: String| s@)),
{
    let mut out: Vec<String> = Vec::new();
    match chosen {
        Some(c) => {
            out.push(String::from_str(c));
            assert(out@.map_values(|s: String| s@) =~= seq![c@]);
        },
        None => {
            let mut i: usize = 0;
            while i < path_dirs.len()
                invariant
                    i <= path_dirs@.len(),
                    out@.len() == i,
                    forall|k: int| 0 <= k < i ==> (#[trigger] out@[k])@ == path_join(path_dirs@[k]@, name@),
                decreases path_dirs@.len() - i,
            {
                out.push(join(path_dirs[i].as_str(), name));
                i = i + 1;
            }
            assert(out@.map_values(|s: String| s@) =~= spec_tool_candidates(name@, None, path_dirs@.map_values(|s: String| s@)));
        },
    }
    out
}

/// The first candidate known to be an executable file, if any.
pub open spec fn first_runnable(candidates: Seq<Seq<char>>, runnable: Seq<Seq<char>>) -> Option<Seq<char>>
    decreases candidates.len(),
{
    if candidates.len() == 0 {
        None
    } else if runnable.contains(candidates[0]) {
        Some(candidates[0])
    } else {
        first_runnable(candidates.drop_first(), runnable)
    }
}

/// Locate the tool among the candidates, given which of them are executable
/// files; `None` disables the feature rather than guessing a path.
pub fn find_tool(name: &str, chosen: Option<&str>, path_dirs: &[String], runnable: &[String]) -> (r: Option<String>)
    ensures
        (match r { Some(s) => Some(s@), None => None }) == first_runnable(
            spec_tool_candidates(name@, crate::paths::opt_view(chosen), path_dirs@.map_values(|s: String| s@)),
            runnable@.map_values(|s: String| s@),
        ),
{
    let cands = tool_candidates(name, chosen, path_dirs);
    let ghost cv = cands@.map_values(|s: String| s@);
    let ghost rv = runnable@.map_values(|s: String| s@);
    let mut i: usize = 0;
    assert(cv.skip(0) =~= cv);
    while i < cands.len()
        invariant
            cv == cands@.map_values(|s: String| s@),
            cv == spec_tool_candidates(name@, crate::paths::opt_view(chosen), path_dirs@.map_values(|s: String| s@)),
            rv == runnable@.map_values(|s: String| s@),
            i <= cands@.len(),
            first_runnable(cv, rv) == first_runnable(cv.skip(i as int), rv),
        decreases cands@.len() - i,
    {
        proof {
            let t = cv.skip(i as int);
            assert(t.drop_first() =~= cv.skip(i + 1));
            assert(t[0] == cands@[i as int]@);
        }
        let mut j: usize = 0;
        let mut hit = false;
        while j < runnable.len()
            invariant
                rv == runnable@.map_values(|s: String| s@),
                cv == cands@.map_values(|s: String| s@),
                i < cands@.len(),
                j <= runnable@.len(),
                hit == exists|k: int| 0 <= k < j && runnable@[k]@ == cands@[i as int]@,
            decreases runnable@.len() - j,
        {
            if str_eq(runnable[j].as_str(), cands[i].as_str()) {
                hit = true;
            }
            j = j + 1;
        }
        proof {
            if hit {
                let k = choose|k: int| 0 <= k < runnable@.len() && runnable@[k]@ == cands@[i as int]@;
                assert(rv[k] == cands@[i as int]@);
            }
            if rv.contains(cands@[i as int]@) {
                let k = choose|k: int| 0 <= k < rv.len() && rv[k] == cands@[i as int]@;
                assert(runnable@[k]@ == cands@[i as int]@);
            }
        }
        if hit {
            proof {
                let t = cv.skip(i as int);
                assert(t[0] == cv[i as int]);
                assert(rv.contains(t[0]));
            }
            return Some(cands[i].clone());
        }
        i = i + 1;
    }
    None
}

} // verus!
