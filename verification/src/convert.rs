//! Converting an ordinary clone into the preferred layout, keeping the original
//! as a backup.

use vstd::prelude::*;

use crate::clone;
use crate::text;

verus! {

/// The absolute paths a conversion operates on, computed once up front so that
/// nothing downstream depends on the process's (about-to-move) directory.
pub struct Plan {
    /// The repo's current top level: the original clone, which becomes the backup.
    pub top: String,
    /// The `origin` URL the new bare repo clones from.
    pub url: String,
    /// The repo name (the original directory's final component); the bare repo is
    /// `<name>.git`.
    pub name: String,
    /// Where the original is renamed to.
    pub backup: String,
    /// Scratch directory the new layout is built in before being swapped into
    /// `top`.
    pub temp: String,
}

/// What was found out about the clone to convert.
pub struct Facts {
    /// Whether the directory is inside a git work tree.
    pub inside: bool,
    /// The canonical top level of the work tree.
    pub top: String,
    /// Whether its `.git` is a file: a linked worktree or a submodule.
    pub git_is_file: bool,
    /// Whether the backup and the scratch path exist.
    pub backup_exists: bool,
    pub temp_exists: bool,
    /// The URL of its `origin`.
    pub url: Result<String, String>,
}

/// The position of the last slash, or -1.
pub open spec fn last_slash(path: Seq<char>) -> int
    decreases path.len(),
{
    if path.len() == 0 {
        -1
    } else if path.last() == '/' {
        path.len() - 1
    } else {
        last_slash(path.drop_last())
    }
}

/// The directory and the name of a canonical absolute path; nothing for the root.
pub open spec fn parts(top: Seq<char>) -> Option<(Seq<char>, Seq<char>)> {
    let at = last_slash(top);
    if at < 0 || at + 1 >= top.len() {
        None
    } else {
        Some(
            (
                if at == 0 {
                    "/"@
                } else {
                    top.take(at)
                },
                top.skip(at + 1),
            ),
        )
    }
}

/// The directory and the name of a canonical absolute path.
fn split_path(top: &str) -> (r: Option<(String, String)>)
    ensures
        match r {
            Some(pair) => parts(top@) == Some((pair.0@, pair.1@)),
            None => parts(top@) is None,
        },
{
    let v = text::chars(top);
    let mut i: usize = v.len();
    assert(v@.take(i as int) =~= v@);
    while i > 0 && v[i - 1] != '/'
        invariant
            i <= v.len(),
            last_slash(v@) == last_slash(v@.take(i as int)),
        decreases i,
    {
        assert(v@.take(i as int).drop_last() =~= v@.take(i - 1));
        i = i - 1;
    }
    if i == 0 || i == v.len() {
        return None;
    }
    assert(v@.take(i as int).last() == v@[i - 1]);
    let name = text::slice(&v, i, v.len());
    assert(name@ =~= top@.skip(i as int));
    let dir = if i == 1 {
        text::copy("/")
    } else {
        text::slice(&v, 0, i - 1)
    };
    assert(i > 1 ==> dir@ =~= top@.take(i - 1));
    Some((dir, name))
}

/// Where the original is renamed to.
pub open spec fn backup_of(dir: Seq<char>, name: Seq<char>) -> Seq<char> {
    text::below(dir, name + ".pre-ghwf"@)
}

/// Where the new layout is built.
pub open spec fn temp_of(dir: Seq<char>, name: Seq<char>) -> Seq<char> {
    text::below(dir, name + ".ghwf-converting"@)
}

/// The paths beside the clone that a conversion uses.
pub struct Siblings {
    pub name: String,
    pub backup: String,
    pub temp: String,
}

/// The paths beside the clone at `top` that a conversion uses; nothing where the
/// clone has no directory name to reuse.
pub fn siblings(top: &str) -> (r: Option<Siblings>)
    ensures
        match r {
            Some(s) => match parts(top@) {
                Some((dir, name)) => s.name@ == name && s.backup@ == backup_of(dir, name)
                    && s.temp@ == temp_of(dir, name),
                None => false,
            },
            None => parts(top@) is None,
        },
{
    match split_path(top) {
        Some((dir, name)) => {
            let mut backup = text::copy(name.as_str());
            backup.append(".pre-ghwf");
            let mut temp = text::copy(name.as_str());
            temp.append(".ghwf-converting");
            Some(
                Siblings {
                    backup: text::path_below(dir.as_str(), backup.as_str()),
                    temp: text::path_below(dir.as_str(), temp.as_str()),
                    name,
                },
            )
        },
        None => None,
    }
}

pub const NOT_A_CLONE: &'static str =
    "` is not inside an ordinary (non-bare) git clone — nothing to convert";

pub const LINKED: &'static str = "` is a linked worktree or submodule, not a standalone clone";

pub const NO_NAME: &'static str = "` has no directory name to reuse";

pub const IN_THE_WAY: &'static str = "` already exists; move it aside first";

pub const NO_ORIGIN: &'static str =
    "failed to read the `origin` remote URL — does this clone have one?: ";

/// Why the clone cannot be converted, if it cannot.
pub open spec fn refusal(start: Seq<char>, facts: Facts) -> Option<Seq<char>> {
    if !facts.inside {
        Some("`"@ + start + NOT_A_CLONE@)
    } else if facts.git_is_file {
        Some("`"@ + facts.top@ + LINKED@)
    } else {
        match parts(facts.top@) {
            None => Some("`"@ + facts.top@ + NO_NAME@),
            Some((dir, name)) => if facts.backup_exists {
                Some("backup path `"@ + backup_of(dir, name) + IN_THE_WAY@)
            } else if facts.temp_exists {
                Some("scratch path `"@ + temp_of(dir, name) + IN_THE_WAY@)
            } else {
                match facts.url {
                    Ok(_) => None,
                    Err(e) => Some(NO_ORIGIN@ + e@),
                }
            },
        }
    }
}

/// A message about a path.
fn about(lead: &str, path: &str, end: &str) -> (r: String)
    ensures
        r@ == lead@ + path@ + end@,
{
    let mut out = text::copy(lead);
    out.append(path);
    out.append(end);
    out
}

/// Decide whether the clone can be converted, and with which paths.
pub fn resolve(start: &str, facts: &Facts) -> (r: Result<Plan, String>)
    ensures
        match r {
            Ok(plan) => {
                &&& refusal(start@, *facts) is None
                &&& plan.top@ == facts.top@
                &&& plan.url@ == facts.url->Ok_0@
                &&& match parts(facts.top@) {
                    Some((dir, name)) => plan.name@ == name && plan.backup@ == backup_of(dir, name)
                        && plan.temp@ == temp_of(dir, name),
                    None => false,
                }
            },
            Err(e) => refusal(start@, *facts) == Some(e@),
        },
{
    if !facts.inside {
        return Err(about("`", start, NOT_A_CLONE));
    }
    let top = facts.top.as_str();
    if facts.git_is_file {
        return Err(about("`", top, LINKED));
    }
    let beside = match siblings(top) {
        Some(beside) => beside,
        None => {
            return Err(about("`", top, NO_NAME));
        },
    };
    if facts.backup_exists {
        return Err(about("backup path `", beside.backup.as_str(), IN_THE_WAY));
    }
    if facts.temp_exists {
        return Err(about("scratch path `", beside.temp.as_str(), IN_THE_WAY));
    }
    match &facts.url {
        Ok(url) => Ok(
            Plan {
                top: text::copy(top),
                url: text::copy(url.as_str()),
                name: beside.name,
                backup: beside.backup,
                temp: beside.temp,
            },
        ),
        Err(e) => {
            let mut why = text::copy(NO_ORIGIN);
            why.append(e.as_str());
            Err(why)
        },
    }
}

/// A step of a conversion.
#[derive(Clone, Copy, Debug, PartialEq, Eq, Structural)]
pub enum Step {
    /// Create the scratch directory.
    CreateScratch,
    /// Build the new layout in it.
    Build,
    /// Move the original aside.
    MoveAside,
    /// Move the new layout into its place.
    MoveIn,
    /// Put the original back.
    PutBack,
    /// Remove the scratch directory.
    ClearScratch,
    /// Relink the worktree to its final location.
    Relink,
    /// The conversion is done.
    Done,
    /// It failed, and the first failure is its error.
    Failed,
}

/// The step after one that succeeded or failed. `relinks` says whether a worktree
/// was created that has to be relinked.
pub open spec fn step_after(step: Step, ok: bool, relinks: bool) -> Step {
    match step {
        Step::CreateScratch => if ok {
            Step::Build
        } else {
            Step::Failed
        },
        Step::Build => if ok {
            Step::MoveAside
        } else {
            Step::ClearScratch
        },
        Step::MoveAside => if ok {
            Step::MoveIn
        } else {
            Step::Failed
        },
        Step::MoveIn => if ok {
            if relinks {
                Step::Relink
            } else {
                Step::Done
            }
        } else {
            Step::PutBack
        },
        Step::PutBack => Step::ClearScratch,
        Step::ClearScratch => Step::Failed,
        Step::Relink => if ok {
            Step::Done
        } else {
            Step::Failed
        },
        Step::Done => Step::Done,
        Step::Failed => Step::Failed,
    }
}

/// Build the new layout in the scratch directory, then swap it into place: the step
/// after one that succeeded or failed. The original clone is untouched until the
/// build succeeds, and a swap failure is rolled back, so a failed conversion never
/// loses the original.
pub fn build_and_swap(step: Step, ok: bool, relinks: bool) -> (r: Step)
    ensures
        r == step_after(step, ok, relinks),
{
    match step {
        Step::CreateScratch => {
            if ok {
                Step::Build
            } else {
                Step::Failed
            }
        },
        Step::Build => {
            if ok {
                Step::MoveAside
            } else {
                Step::ClearScratch
            }
        },
        Step::MoveAside => {
            if ok {
                Step::MoveIn
            } else {
                Step::Failed
            }
        },
        Step::MoveIn => {
            if ok {
                if relinks {
                    Step::Relink
                } else {
                    Step::Done
                }
            } else {
                Step::PutBack
            }
        },
        Step::PutBack => Step::ClearScratch,
        Step::ClearScratch => Step::Failed,
        Step::Relink => {
            if ok {
                Step::Done
            } else {
                Step::Failed
            }
        },
        Step::Done => Step::Done,
        Step::Failed => Step::Failed,
    }
}

/// What is at a path.
pub enum Held {
    Nothing,
    /// The original clone.
    Original,
    /// The new layout, half-built or whole.
    Layout,
}

/// What is at the paths of a conversion.
pub struct Places {
    /// The repo's top level.
    pub top: Held,
    /// Where the original is moved aside to.
    pub backup: Held,
    /// The scratch directory.
    pub scratch: Held,
}

/// Before a conversion only the original is there.
pub open spec fn untouched() -> Places {
    Places { top: Held::Original, backup: Held::Nothing, scratch: Held::Nothing }
}

/// What is where after a step that succeeded or failed: a failed step moves nothing.
pub open spec fn places_after(places: Places, step: Step, ok: bool) -> Places {
    if !ok {
        places
    } else {
        match step {
            Step::CreateScratch => Places { scratch: Held::Layout, ..places },
            Step::MoveAside => Places { top: Held::Nothing, backup: places.top, ..places },
            Step::MoveIn => Places { top: places.scratch, scratch: Held::Nothing, ..places },
            Step::PutBack => Places { top: places.backup, backup: Held::Nothing, ..places },
            Step::ClearScratch => Places { scratch: Held::Nothing, ..places },
            _ => places,
        }
    }
}

/// The step that a conversion has come to after `n` steps, which went like this, and
/// what is where.
pub open spec fn conversion(went: Seq<bool>, relinks: bool, n: int) -> (Step, Places)
    decreases n,
{
    if n <= 0 {
        (Step::CreateScratch, untouched())
    } else {
        let (step, places) = conversion(went, relinks, n - 1);
        (step_after(step, went[n - 1], relinks), places_after(places, step, went[n - 1]))
    }
}

/// The original is at the top level or moved aside, and nowhere else.
pub open spec fn original_kept(places: Places) -> bool {
    &&& (places.top is Original) != (places.backup is Original)
    &&& !(places.scratch is Original)
}

/// What a step finds.
pub open spec fn expected(step: Step, places: Places) -> bool {
    match step {
        Step::CreateScratch => places == untouched(),
        Step::Build | Step::MoveAside => places == (Places {
            scratch: Held::Layout,
            ..untouched()
        }),
        Step::MoveIn | Step::PutBack => places == (Places {
            top: Held::Nothing,
            backup: Held::Original,
            scratch: Held::Layout,
        }),
        Step::ClearScratch => original_kept(places) && !(places.top is Layout),
        Step::Relink | Step::Done => places == (Places {
            top: Held::Layout,
            backup: Held::Original,
            scratch: Held::Nothing,
        }),
        Step::Failed => original_kept(places),
    }
}

/// However its steps go, a conversion keeps the original clone, at the top level or as
/// the backup. Once it is done the new layout is at the top level, the original is the
/// backup, and the scratch directory is gone.
pub proof fn conversions_keep_the_original(went: Seq<bool>, relinks: bool, n: int)
    ensures
        original_kept(conversion(went, relinks, n).1),
        conversion(went, relinks, n).0 == Step::Done ==> conversion(went, relinks, n).1 == (Places {
            top: Held::Layout,
            backup: Held::Original,
            scratch: Held::Nothing,
        }),
        expected(conversion(went, relinks, n).0, conversion(went, relinks, n).1),
    decreases n,
{
    if n > 0 {
        conversions_keep_the_original(went, relinks, n - 1);
    }
}

/// A conversion whose build fails leaves everything as it was, with neither a backup
/// nor a scratch directory, provided that what was half-built can be removed.
pub proof fn failed_builds_leave_nothing_behind(went: Seq<bool>, relinks: bool, n: int)
    requires
        n >= 0,
        conversion(went, relinks, n).0 == Step::Build,
        !went[n] && went[n + 1],
    ensures
        conversion(went, relinks, n + 2) == (Step::Failed, untouched()),
{
    conversions_keep_the_original(went, relinks, n);
    reveal_with_fuel(conversion, 3);
}

/// A conversion that cannot move the new layout in leaves everything as it was,
/// provided that the original can be put back and the scratch directory removed.
pub proof fn failed_swaps_are_rolled_back(went: Seq<bool>, relinks: bool, n: int)
    requires
        n >= 0,
        conversion(went, relinks, n).0 == Step::MoveIn,
        !went[n] && went[n + 1] && went[n + 2],
    ensures
        conversion(went, relinks, n + 3) == (Step::Failed, untouched()),
{
    conversions_keep_the_original(went, relinks, n);
    reveal_with_fuel(conversion, 4);
}

/// However its steps go, a conversion ends.
pub proof fn conversions_end(went: Seq<bool>, relinks: bool, n: int)
    requires
        n >= 6,
    ensures
        conversion(went, relinks, n).0 == Step::Done || conversion(went, relinks, n).0
            == Step::Failed,
    decreases n,
{
    if n > 6 {
        conversions_end(went, relinks, n - 1);
    } else {
        reveal_with_fuel(conversion, 7);
    }
}

pub const KEPT: &'static str =
    "` — any local-only branches,\nstashes, or uncommitted changes are still there.\n\nNext steps:\n- `cd ";

/// Describe the new layout, where the backup is, and what to do next.
/// `default_worktree` is the default branch when its worktree was created.
pub fn report(plan: &Plan, default_worktree: Option<&str>) -> (r: String)
    ensures
        r@ == "Converted `"@ + plan.top@ + "` into ghwf's preferred layout:\n- `"@ + plan.name@
            + ".git` — the bare repo (a fresh single-branch clone)\n"@ + clone::LAYOUT@
            + clone::default_line(default_worktree) + "\nYour original clone is preserved at `"@
            + plan.backup@ + KEPT@ + plan.top@ + clone::NEXT_STEPS@,
{
    let mut out = text::copy("Converted `");
    out.append(plan.top.as_str());
    out.append("` into ghwf's preferred layout:\n- `");
    out.append(plan.name.as_str());
    out.append(".git` — the bare repo (a fresh single-branch clone)\n");
    out.append(clone::LAYOUT);
    out.append(clone::describe_default(default_worktree).as_str());
    out.append("\nYour original clone is preserved at `");
    out.append(plan.backup.as_str());
    out.append(KEPT);
    out.append(plan.top.as_str());
    out.append(clone::NEXT_STEPS);
    out
}

} // verus!
