//! Where the pedagogical guide shipped with the project is looked for: the
//! executable's directory and its ancestors, then the working directory and
//! its ancestors, a bounded number of levels each, without duplicates.

use crate::paths::{join, parent, path_join, path_parent};
use crate::text::str_eq;
use vstd::prelude::*;

verus! {

/// Path of the guide, relative to the repository root.
pub const RELATIVE_PATH: &'static str = "docs/emulateur-snes-explique.pdf";

/// How far up each directory's ancestors are searched.
pub const MAX_ANCESTORS: usize = 6;

/// The first `n` ancestors of `dir`, itself first (`Path::ancestors`).
pub open spec fn ancestors(dir: Seq<char>, n: nat) -> Seq<Seq<char>>
    decreases n,
{
    if n == 0 {
        Seq::empty()
    } else {
        seq![dir] + match path_parent(dir) {
            Some(p) => ancestors(p, (n - 1) as nat),
            None => Seq::empty(),
        }
    }
}

/// `out` extended with the guide's path under each directory of `dirs` not
/// already listed.
pub open spec fn with_candidates(out: Seq<Seq<char>>, dirs: Seq<Seq<char>>) -> Seq<Seq<char>>
    decreases dirs.len(),
{
    if dirs.len() == 0 {
        out
    } else {
        let c = path_join(dirs[0], RELATIVE_PATH@);
        with_candidates(if out.contains(c) { out } else { out.push(c) }, dirs.drop_first())
    }
}

/// Every place the guide is looked for, in search order.
pub open spec fn spec_candidates(exe_dir: Option<Seq<char>>, cwd: Seq<char>) -> Seq<Seq<char>> {
    let first = match exe_dir {
        Some(d) => with_candidates(Seq::empty(), ancestors(d, 6)),
        None => Seq::empty(),
    };
    with_candidates(first, ancestors(cwd, 6))
}

fn push_ancestors(out: &mut Vec<String>, dir: &str)
    ensures
        final(out)@.map_values(|s: String| s@) == with_candidates(old(out)@.map_values(|s: String| s@), ancestors(dir@, 6)),
{
    let mut current: Option<String> = Some(String::from_str(dir));
    let mut n: usize = MAX_ANCESTORS;
    loop
        invariant
            n <= 6,
            with_candidates(old(out)@.map_values(|s: String| s@), ancestors(dir@, 6)) == with_candidates(
                out@.map_values(|s: String| s@),
                match current {
                    Some(c) => ancestors(c@, n as nat),
                    None => Seq::empty(),
                },
            ),
        decreases n,
    {
        let d = match current {
            Some(d) => d,
            None => {
                return;
            },
        };
        if n == 0 {
            return;
        }
        let ghost seen = out@.map_values(|s: String| s@);
        let candidate = join(d.as_str(), RELATIVE_PATH);
        let mut found = false;
        let mut i: usize = 0;
        while i < out.len()
            invariant
                seen == out@.map_values(|s: String| s@),
                i <= out@.len(),
                found == exists|k: int| 0 <= k < i && out@[k]@ == candidate@,
            decreases out@.len() - i,
        {
            if str_eq(out[i].as_str(), candidate.as_str()) {
                found = true;
            }
            i = i + 1;
        }
        proof {
            if found {
                let k = choose|k: int| 0 <= k < out@.len() && out@[k]@ == candidate@;
                assert(seen[k] == candidate@);
            }
            if seen.contains(candidate@) {
                let k = choose|k: int| 0 <= k < seen.len() && seen[k] == candidate@;
                assert(out@[k]@ == candidate@);
            }
        }
        if !found {
            out.push(candidate);
            proof {
                assert(out@.map_values(|s: String| s@) =~= seen.push(path_join(d@, RELATIVE_PATH@)));
            }
        }
        proof {
            let a = ancestors(d@, n as nat);
            assert(a[0] == d@);
            assert(a.drop_first() =~= match path_parent(d@) {
                Some(p) => ancestors(p, (n - 1) as nat),
                None => Seq::empty(),
            });
        }
        current = parent(d.as_str());
        n = n - 1;
    }
}

/// Every place the guide is looked for, in search order: the executable's
/// directory and its ancestors first, then the working directory's;
/// deduplicated and bounded.
pub fn candidates(exe_dir: Option<&str>, cwd: &str) -> (r: Vec<String>)
    ensures
        r@.map_values(|s: String| s@) == spec_candidates(crate::paths::opt_view(exe_dir), cwd@),
{
    let mut out: Vec<String> = Vec::new();
    assert(out@.map_values(|s: String| s@) =~= Seq::<Seq<char>>::empty());
    if let Some(dir) = exe_dir {
        push_ancestors(&mut out, dir);
    }
    push_ancestors(&mut out, cwd);
    out
}

} // verus!
