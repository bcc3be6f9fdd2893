//! The prep-and-plan phase: worktree, plan, branch and draft PR, step by step.

use vstd::prelude::*;

use crate::git::{self, Git, Ran};
use crate::implement;
use crate::record::Recorded;
use crate::render;
use crate::state::{IssueState, PrepState};
use crate::text;

verus! {

/// A preparation of which only the mode is recorded.
pub open spec fn unprepared(no_branch: bool) -> PrepState {
    PrepState {
        no_branch,
        branch: None,
        worktree_path: None,
        worktree_session_id: None,
        pr_number: None,
    }
}

/// The preparation to go on with: one in branch mode where there is none.
pub open spec fn prepared(prep: Option<PrepState>) -> PrepState {
    match prep {
        Some(prep) => prep,
        None => unprepared(false),
    }
}

/// The branch was checked out in a new worktree that starts at the remote's branch,
/// and `a` is how that went.
pub open spec fn started<R: Fn(Vec<String>) -> Ran>(
    before: Git<R>,
    after: Git<R>,
    main_repo: Seq<char>,
    path: Seq<char>,
    branch: Seq<char>,
    default: Seq<char>,
    a: Result<(), String>,
) -> bool {
    git::did(
        before,
        after,
        main_repo,
        seq!["worktree"@, "add"@, "-b"@, branch, path, implement::remote_name(default)],
        a,
    )
}

/// `r` and the preparation `prep` are what came of creating the worktree: it is
/// recorded only where every step has succeeded.
pub open spec fn is_created<
    R: Fn(Vec<String>) -> Ran,
    D: Fn(()) -> Result<String, String>,
>(
    before: Git<R>,
    after: Git<R>,
    asked: Recorded<D, (), Result<String, String>>,
    answered: Recorded<D, (), Result<String, String>>,
    main_repo: Seq<char>,
    path: Seq<char>,
    branch: Seq<char>,
    unrecorded: PrepState,
    prep: PrepState,
    r: Result<(String, String), String>,
) -> bool {
    exists|mid: Git<R>, f: Result<(), String>| #[trigger]
        git::fetched(before, mid, main_repo, f) && match f {
            Err(e) => after == mid && answered == asked && prep == unrecorded && r == Err::<
                (String, String),
                String,
            >(e),
            Ok(_) => answered.calls().len() == asked.calls().len() + 1 && answered.calls()
                == asked.calls().push(answered.calls().last()) && match answered.calls().last().1 {
                Err(e) => after == mid && prep == unrecorded && r == Err::<
                    (String, String),
                    String,
                >(e),
                Ok(default) => exists|a: Result<(), String>| #[trigger]
                    started(mid, after, main_repo, path, branch, default@, a) && match a {
                        Err(e) => prep == unrecorded && r == Err::<(String, String), String>(e),
                        Ok(_) => r is Ok && r->Ok_0.0@ == path && r->Ok_0.1@ == branch && prep == (
                        PrepState {
                            branch: prep.branch,
                            worktree_path: prep.worktree_path,
                            ..unrecorded
                        }) && prep.branch is Some && prep.branch->0@ == branch
                            && prep.worktree_path is Some && prep.worktree_path->0@ == path,
                    },
            },
        }
}

/// Create the worktree on its new branch, at the remote's default branch once that
/// was fetched, and record it.
fn create<R: Fn(Vec<String>) -> Ran, D: Fn(()) -> Result<String, String>>(
    git: &mut Git<R>,
    default: &mut Recorded<D, (), Result<String, String>>,
    main_repo: &str,
    path: &str,
    branch: &str,
    prep: &mut PrepState,
) -> (r: Result<(String, String), String>)
    requires
        old(git).ready(),
        old(default).ready(),
    ensures
        is_created(
            *old(git),
            *final(git),
            *old(default),
            *final(default),
            main_repo@,
            path@,
            branch@,
            *old(prep),
            *final(prep),
            r,
        ),
{
    let got = git::fetch(git, main_repo);
    let ghost mid = *git;
    assert(git::fetched(*old(git), mid, main_repo@, got));
    if let Err(e) = got {
        let failed: Result<(String, String), String> = Err(e);
        assert(got == Err::<(), String>(e));
        return failed;
    }
    let named = default.call(());
    assert(default.calls().last().1 == named);
    assert(default.calls() =~= old(default).calls().push(default.calls().last()));
    let name = match named {
        Ok(name) => name,
        Err(e) => {
            let failed: Result<(String, String), String> = Err(e);
            return failed;
        },
    };
    let start_at = implement::base_ref(name.as_str());
    let added = git::add_worktree(git, main_repo, path, branch, start_at.as_str());
    assert(started(mid, *git, main_repo@, path@, branch@, name@, added));
    if let Err(e) = added {
        let failed: Result<(String, String), String> = Err(e);
        assert(added == Err::<(), String>(e));
        return failed;
    }
    prep.branch = Some(text::copy(branch));
    prep.worktree_path = Some(text::copy(path));
    Ok((text::copy(path), text::copy(branch)))
}

/// Ensure the issue's branch and worktree exist, recording a preparation in branch
/// mode where there is none. Returns the worktree and the branch.
///
/// A recorded worktree stands, and no command is run. A new one goes below the
/// worktrees' directory, on a new branch that starts at the remote's default branch
/// once that was fetched; where a step fails, neither is recorded. `default` tells
/// the name of the remote's default branch.
pub fn ensure_worktree<R: Fn(Vec<String>) -> Ran, D: Fn(()) -> Result<String, String>>(
    git: &mut Git<R>,
    default: &mut Recorded<D, (), Result<String, String>>,
    state: &mut IssueState,
    main_repo: &str,
    worktrees_dir: &str,
    branch: &str,
) -> (r: Result<(String, String), String>)
    requires
        old(git).ready(),
        old(default).ready(),
        prepared(old(state).prep).branch is Some ==> prepared(old(state).prep).worktree_path is Some,
    ensures
        *final(state) == (IssueState { prep: final(state).prep, ..*old(state) }),
        final(state).prep is Some,
        match prepared(old(state).prep).branch {
            Some(recorded) => {
                &&& *final(git) == *old(git)
                &&& *final(default) == *old(default)
                &&& final(state).prep == old(state).prep
                &&& r is Ok
                &&& r->Ok_0.0@ == prepared(old(state).prep).worktree_path->0@
                &&& r->Ok_0.1@ == recorded@
            },
            None => is_created(
                *old(git),
                *final(git),
                *old(default),
                *final(default),
                main_repo@,
                text::below(worktrees_dir@, branch@),
                branch@,
                prepared(old(state).prep),
                final(state).prep->0,
                r,
            ),
        },
{
    let mut prep = match state.prep.take() {
        Some(prep) => prep,
        None => PrepState::default(),
    };
    let recorded: Option<(String, String)> = match (&prep.worktree_path, &prep.branch) {
        (Some(path), Some(branch)) => Some(
            (text::copy(path.as_str()), text::copy(branch.as_str())),
        ),
        _ => None,
    };
    let r: Result<(String, String), String> = match recorded {
        Some(recorded) => Ok(recorded),
        None => {
            let path = text::path_below(worktrees_dir, branch);
            create(git, default, main_repo, path.as_str(), branch, &mut prep)
        },
    };
    state.prep = Some(prep);
    r
}

/// What came of updating the checkout of the default branch.
pub enum Update {
    /// The branch is checked out nowhere.
    NoWorktree,
    /// The worktree was left as it is: it has changes to tracked files.
    Changed(String),
    /// The worktree was left as it is: it has everything the remote's branch has.
    Current(String),
    /// The worktree was left as it is: it has commits that the remote's branch lacks.
    Diverged(String),
    /// The worktree was behind, and is at the remote's tip now.
    Forwarded(String),
}

/// Whether the remote's branch has all that HEAD in `dir` has.
pub open spec fn head_contained<R: Fn(Vec<String>) -> Ran>(
    before: Git<R>,
    after: Git<R>,
    dir: Seq<char>,
    default: Seq<char>,
    contained: bool,
) -> bool {
    git::probed(
        before,
        after,
        dir,
        seq!["merge-base"@, "--is-ancestor"@, "HEAD"@, implement::remote_name(default)],
        contained,
    )
}

/// The worktree was fast-forwarded to the remote's branch, and `f` is how it went.
pub open spec fn forwarded<R: Fn(Vec<String>) -> Ran>(
    before: Git<R>,
    after: Git<R>,
    worktree: Seq<char>,
    default: Seq<char>,
    f: Result<(), String>,
) -> bool {
    git::did(
        before,
        after,
        worktree,
        seq!["merge"@, "--ff-only"@, implement::remote_name(default)],
        f,
    )
}

/// `r` is what came of moving a worktree that is not at the remote's branch: it is
/// moved only where it is behind.
pub open spec fn is_moving<R: Fn(Vec<String>) -> Ran>(
    before: Git<R>,
    after: Git<R>,
    worktree: String,
    default: Seq<char>,
    r: Result<Update, String>,
) -> bool {
    exists|mid: Git<R>, behind: bool| #[trigger]
        head_contained(before, mid, worktree@, default, behind) && if behind {
            exists|f: Result<(), String>| #[trigger]
                forwarded(mid, after, worktree@, default, f) && match f {
                    Ok(_) => r == Ok::<Update, String>(Update::Forwarded(worktree)),
                    Err(e) => r == Err::<Update, String>(e),
                }
        } else {
            after == mid && r == Ok::<Update, String>(Update::Diverged(worktree))
        }
}

/// `r` is what came of bringing a clean worktree up to the remote's branch: it is
/// moved only where it is strictly behind.
pub open spec fn is_catching_up<R: Fn(Vec<String>) -> Ran>(
    before: Git<R>,
    after: Git<R>,
    worktree: String,
    default: Seq<char>,
    r: Result<Update, String>,
) -> bool {
    exists|mid: Git<R>, current: bool| #[trigger]
        implement::base_contained(before, mid, worktree@, default, current) && if current {
            after == mid && r == Ok::<Update, String>(Update::Current(worktree))
        } else {
            is_moving(mid, after, worktree, default, r)
        }
}

/// Bring a worktree without changes up to the remote's branch.
fn catch_up<R: Fn(Vec<String>) -> Ran>(
    git: &mut Git<R>,
    worktree: String,
    default: &str,
) -> (r: Result<Update, String>)
    requires
        old(git).ready(),
    ensures
        is_catching_up(*old(git), *final(git), worktree, default@, r),
{
    let name = implement::base_ref(default);
    let current = git::is_ancestor(git, worktree.as_str(), name.as_str(), "HEAD");
    let ghost one = *git;
    assert(implement::base_contained(*old(git), one, worktree@, default@, current));
    if current {
        return Ok(Update::Current(worktree));
    }
    let behind = git::is_ancestor(git, worktree.as_str(), "HEAD", name.as_str());
    let ghost two = *git;
    assert(head_contained(one, two, worktree@, default@, behind));
    if !behind {
        let kept: Result<Update, String> = Ok(Update::Diverged(worktree));
        assert(is_moving(one, *git, worktree, default@, kept));
        return kept;
    }
    let moved = git::merge_ff_only(git, worktree.as_str(), name.as_str());
    assert(forwarded(two, *git, worktree@, default@, moved));
    let r: Result<Update, String> = match moved {
        Ok(_) => Ok(Update::Forwarded(worktree)),
        Err(e) => Err(e),
    };
    assert(is_moving(one, *git, worktree, default@, r));
    r
}

/// `r` is what came of updating a worktree: it is touched only where it is clean.
pub open spec fn is_updating<R: Fn(Vec<String>) -> Ran>(
    before: Git<R>,
    after: Git<R>,
    worktree: String,
    default: Seq<char>,
    r: Result<Update, String>,
) -> bool {
    exists|mid: Git<R>, c: Result<bool, String>| #[trigger]
        git::clean_at(before, mid, worktree@, c) && match c {
            Err(e) => after == mid && r == Err::<Update, String>(e),
            Ok(false) => after == mid && r == Ok::<Update, String>(Update::Changed(worktree)),
            Ok(true) => is_catching_up(mid, after, worktree, default, r),
        }
}

/// `r` is what came of updating the checkout of the default branch. The commands are
/// run one after the other, each only where the one before let it go on, and no
/// others.
pub open spec fn is_update<R: Fn(Vec<String>) -> Ran>(
    before: Git<R>,
    after: Git<R>,
    main_repo: Seq<char>,
    default: Seq<char>,
    r: Result<Update, String>,
) -> bool {
    exists|mid: Git<R>, w: Result<Option<String>, String>| #[trigger]
        git::checked_out_at(before, mid, main_repo, default, w) && match w {
            Err(e) => after == mid && r == Err::<Update, String>(e),
            Ok(None) => after == mid && r == Ok::<Update, String>(Update::NoWorktree),
            Ok(Some(worktree)) => is_updating(mid, after, worktree, default, r),
        }
}

/// Fast-forward the worktree that has the default branch checked out, where there
/// is one. It is touched only where it has no changes to tracked files and is
/// strictly behind the remote's branch.
pub fn update_default_worktree<R: Fn(Vec<String>) -> Ran>(
    git: &mut Git<R>,
    main_repo: &str,
    default: &str,
) -> (r: Result<Update, String>)
    requires
        old(git).ready(),
    ensures
        is_update(*old(git), *final(git), main_repo@, default@, r),
{
    let at = git::branch_worktree(git, main_repo, default);
    let ghost one = *git;
    assert(git::checked_out_at(*old(git), one, main_repo@, default@, at));
    let worktree = match at {
        Err(e) => {
            return Err(e);
        },
        Ok(None) => {
            return Ok(Update::NoWorktree);
        },
        Ok(Some(worktree)) => worktree,
    };
    let clean = git::is_tree_clean(git, worktree.as_str());
    let ghost two = *git;
    assert(git::clean_at(one, two, worktree@, clean));
    let ghost there = worktree;
    let r: Result<Update, String> = match clean {
        Err(e) => Err(e),
        Ok(false) => Ok(Update::Changed(worktree)),
        Ok(true) => catch_up(git, worktree, default),
    };
    assert(is_updating(one, *git, there, default@, r));
    r
}

/// The default branch's worktree was found, to be clean and strictly behind the
/// remote's branch.
pub open spec fn found_behind<R: Fn(Vec<String>) -> Ran>(
    before: Git<R>,
    after: Git<R>,
    main_repo: Seq<char>,
    default: Seq<char>,
    worktree: String,
) -> bool {
    exists|one: Git<R>, two: Git<R>, three: Git<R>|
        #![trigger
            git::checked_out_at(before, one, main_repo, default, Ok(Some(worktree))),
            git::clean_at(one, two, worktree@, Ok(true)),
            implement::base_contained(two, three, worktree@, default, false)]
        {
            &&& git::checked_out_at(before, one, main_repo, default, Ok(Some(worktree)))
            &&& git::clean_at(one, two, worktree@, Ok(true))
            &&& implement::base_contained(two, three, worktree@, default, false)
            &&& head_contained(three, after, worktree@, default, true)
        }
}

/// A worktree is moved only once it was found to be clean and strictly behind the
/// remote's branch.
pub proof fn only_clean_worktrees_behind_are_moved<R: Fn(Vec<String>) -> Ran>(
    before: Git<R>,
    after: Git<R>,
    main_repo: Seq<char>,
    default: Seq<char>,
    r: Result<Update, String>,
    i: int,
)
    requires
        is_update(before, after, main_repo, default, r),
        before.calls().len() <= i < after.calls().len(),
        git::verb(after.calls()[i].0) == "merge"@,
    ensures
        exists|mid: Git<R>, worktree: String| #[trigger]
            found_behind(before, mid, main_repo, default, worktree) && mid.calls().len() == i
                && mid.calls().is_prefix_of(after.calls()),
{
    reveal_strlit("merge");
    reveal_strlit("worktree");
    reveal_strlit("status");
    reveal_strlit("merge-base");
    let verb = "merge"@;
    assert(verb.len() < "status"@.len() < "worktree"@.len() < "merge-base"@.len());
    let (one, w) = choose|mid: Git<R>, w: Result<Option<String>, String>| #[trigger]
        git::checked_out_at(before, mid, main_repo, default, w) && match w {
            Err(e) => after == mid && r == Err::<Update, String>(e),
            Ok(None) => after == mid && r == Ok::<Update, String>(Update::NoWorktree),
            Ok(Some(worktree)) => is_updating(mid, after, worktree, default, r),
        };
    let words = seq!["worktree"@, "list"@, "--porcelain"@];
    assert(words[0] == "worktree"@);
    git::lemma_answered_spares(
        before,
        one,
        main_repo,
        words,
        |a: Result<Seq<char>, Seq<char>>|
            git::optional(a, |out: Seq<char>| git::worktree_of(out, default), w),
        verb,
    );
    let worktree = w->Ok_0->0;
    assert(w == Ok::<Option<String>, String>(Some(worktree)));
    let (two, c) = choose|mid: Git<R>, c: Result<bool, String>| #[trigger]
        git::clean_at(one, mid, worktree@, c) && match c {
            Err(e) => after == mid && r == Err::<Update, String>(e),
            Ok(false) => after == mid && r == Ok::<Update, String>(Update::Changed(worktree)),
            Ok(true) => is_catching_up(mid, after, worktree, default, r),
        };
    let words = seq!["status"@, "--porcelain"@, "--untracked-files=no"@];
    assert(words[0] == "status"@);
    git::lemma_found_spares(
        one,
        two,
        worktree@,
        words,
        |out: Seq<char>| text::trim(out).len() == 0,
        c,
        verb,
    );
    git::lemma_spared_joined(before, one, two, verb);
    assert(c == Ok::<bool, String>(true));
    let (three, current) = choose|mid: Git<R>, current: bool| #[trigger]
        implement::base_contained(two, mid, worktree@, default, current) && if current {
            after == mid && r == Ok::<Update, String>(Update::Current(worktree))
        } else {
            is_moving(mid, after, worktree, default, r)
        };
    let words = seq!["merge-base"@, "--is-ancestor"@, implement::remote_name(default), "HEAD"@];
    assert(words[0] == "merge-base"@);
    git::lemma_probed_spares(two, three, worktree@, words, current, verb);
    git::lemma_spared_joined(before, two, three, verb);
    let (four, behind) = choose|mid: Git<R>, behind: bool| #[trigger]
        head_contained(three, mid, worktree@, default, behind) && if behind {
            exists|f: Result<(), String>| #[trigger]
                forwarded(mid, after, worktree@, default, f) && match f {
                    Ok(_) => r == Ok::<Update, String>(Update::Forwarded(worktree)),
                    Err(e) => r == Err::<Update, String>(e),
                }
        } else {
            after == mid && r == Ok::<Update, String>(Update::Diverged(worktree))
        };
    let words = seq!["merge-base"@, "--is-ancestor"@, "HEAD"@, implement::remote_name(default)];
    assert(words[0] == "merge-base"@);
    git::lemma_probed_spares(three, four, worktree@, words, behind, verb);
    git::lemma_spared_joined(before, three, four, verb);
    let f = choose|f: Result<(), String>| #[trigger]
        forwarded(four, after, worktree@, default, f);
    let words = seq!["merge"@, "--ff-only"@, implement::remote_name(default)];
    assert(words[0] == "merge"@);
    git::lemma_did_spares(four, after, worktree@, words, f, "status"@);
    assert(found_behind(before, four, main_repo, default, worktree));
    if i < four.calls().len() {
        assert(four.calls()[i] == after.calls()[i]);
    }
}

/// Enter the phase: the mode is recorded on first entry, and later runs reuse
/// it. Returns whether asking for no branch comes too late.
pub fn enter(state: &mut IssueState, no_branch: bool) -> (r: bool)
    ensures
        final(state).prep is Some,
        old(state).prep is Some ==> final(state).prep == old(state).prep,
        old(state).prep is None ==> final(state).prep == Some(unprepared(no_branch)),
        r == (no_branch && !final(state).prep->0.no_branch),
        *final(state) == (IssueState { prep: final(state).prep, ..*old(state) }),
{
    if state.prep.is_none() {
        let mut prep = PrepState::default();
        prep.no_branch = no_branch;
        state.prep = Some(prep);
    }
    match &state.prep {
        Some(prep) => no_branch && !prep.no_branch,
        None => false,
    }
}

/// A step of the phase in branch mode.
#[derive(Clone, Copy, Debug, PartialEq, Eq, Structural)]
pub enum PrepStep {
    /// Has the agent written the plan file?
    CheckPlan,
    /// Is the plan committed as it stands?
    CheckCommitted,
    Commit,
    /// Is the branch on the remote as it stands?
    CheckPushed,
    Push,
    /// Does the branch have a PR that is not recorded?
    FindPr,
    OpenPr,
    /// Stop: the agent has to write the plan first.
    PlanNeeded,
    /// Stop: everything is there.
    Complete,
}

/// The step that follows. `yes` answers the step's question; `pr_known` says
/// whether a PR is recorded already.
pub open spec fn next_step(step: PrepStep, yes: bool, pr_known: bool) -> PrepStep {
    let pushed = if pr_known {
        PrepStep::Complete
    } else {
        PrepStep::FindPr
    };
    match step {
        PrepStep::CheckPlan => if yes {
            PrepStep::CheckCommitted
        } else {
            PrepStep::PlanNeeded
        },
        PrepStep::CheckCommitted => if yes {
            PrepStep::CheckPushed
        } else {
            PrepStep::Commit
        },
        PrepStep::Commit => PrepStep::CheckPushed,
        PrepStep::CheckPushed => if yes {
            pushed
        } else {
            PrepStep::Push
        },
        PrepStep::Push => pushed,
        PrepStep::FindPr => if yes {
            PrepStep::Complete
        } else {
            PrepStep::OpenPr
        },
        PrepStep::OpenPr => PrepStep::Complete,
        PrepStep::PlanNeeded => PrepStep::PlanNeeded,
        PrepStep::Complete => PrepStep::Complete,
    }
}

/// Drive the phase in branch mode: the step that follows `step`, doing only what
/// remains. `yes` answers the step's question; `pr_known` says whether a PR is
/// recorded already.
pub fn run(step: PrepStep, yes: bool, pr_known: bool) -> (r: PrepStep)
    ensures
        r == next_step(step, yes, pr_known),
{
    let pushed = if pr_known {
        PrepStep::Complete
    } else {
        PrepStep::FindPr
    };
    match step {
        PrepStep::CheckPlan => if yes {
            PrepStep::CheckCommitted
        } else {
            PrepStep::PlanNeeded
        },
        PrepStep::CheckCommitted => if yes {
            PrepStep::CheckPushed
        } else {
            PrepStep::Commit
        },
        PrepStep::Commit => PrepStep::CheckPushed,
        PrepStep::CheckPushed => if yes {
            pushed
        } else {
            PrepStep::Push
        },
        PrepStep::Push => pushed,
        PrepStep::FindPr => if yes {
            PrepStep::Complete
        } else {
            PrepStep::OpenPr
        },
        PrepStep::OpenPr => PrepStep::Complete,
        PrepStep::PlanNeeded => PrepStep::PlanNeeded,
        PrepStep::Complete => PrepStep::Complete,
    }
}

/// The step that the phase has come to after `n` steps, which were answered like this.
pub open spec fn step_after(answers: Seq<bool>, pr_known: bool, n: int) -> PrepStep
    decreases n,
{
    if n <= 0 {
        PrepStep::CheckPlan
    } else {
        next_step(step_after(answers, pr_known, n - 1), answers[n - 1], pr_known)
    }
}

/// Where everything is done already, the phase runs through without committing,
/// pushing or opening anything.
pub proof fn a_finished_phase_does_nothing(answers: Seq<bool>, n: int)
    requires
        0 <= n <= answers.len(),
        forall|i: int| 0 <= i < answers.len() ==> #[trigger] answers[i],
    ensures
        match step_after(answers, true, n) {
            PrepStep::CheckPlan => n == 0,
            PrepStep::CheckCommitted => n == 1,
            PrepStep::CheckPushed => n == 2,
            PrepStep::Complete => n >= 3,
            _ => false,
        },
    decreases n,
{
    if n > 0 {
        a_finished_phase_does_nothing(answers, n - 1);
        assert(answers[n - 1]);
    }
}

/// Only what remains is done: a commit follows a plan that is not committed, and a
/// push a branch that is not on the remote.
pub proof fn only_what_remains_is_done(answers: Seq<bool>, pr_known: bool, n: int)
    requires
        0 <= n <= answers.len(),
    ensures
        step_after(answers, pr_known, n) == PrepStep::Commit ==> n > 0 && !answers[n - 1]
            && step_after(answers, pr_known, n - 1) == PrepStep::CheckCommitted,
        step_after(answers, pr_known, n) == PrepStep::Push ==> n > 0 && !answers[n - 1]
            && step_after(answers, pr_known, n - 1) == PrepStep::CheckPushed,
{
}

/// Whatever the answers, the phase comes to a stop.
pub proof fn the_phase_ends(answers: Seq<bool>, pr_known: bool, n: int)
    requires
        7 <= n <= answers.len(),
    ensures
        step_after(answers, pr_known, n) == PrepStep::Complete || step_after(answers, pr_known, n)
            == PrepStep::PlanNeeded,
    decreases n,
{
    if n > 7 {
        the_phase_ends(answers, pr_known, n - 1);
    } else {
        reveal_with_fuel(step_after, 8);
    }
}

/// A PR is opened only where the branch was looked up and has none.
pub proof fn a_pr_is_opened_only_where_there_is_none(step: PrepStep, yes: bool, pr_known: bool)
    ensures
        next_step(step, yes, pr_known) == PrepStep::OpenPr ==> step == PrepStep::FindPr && !yes,
        next_step(step, yes, pr_known) == PrepStep::FindPr ==> !pr_known,
{
}

pub const NO_BRANCH_INTRO: &'static str =
    "Prep-and-plan (--no-branch).\n\nWrite the plan to `";

pub const NO_BRANCH_TASK: &'static str =
    " Code plan mode). \
     No branch, worktree, or PR will be created — you are managing the branch and commits yourself.";

/// What the agent is told where there is no branch.
pub fn no_branch_body(agent: &str, plan_rel: &str) -> (r: String)
    ensures
        r@ == NO_BRANCH_INTRO@ + plan_rel@ + "` as a file (do not use "@ + agent@ + NO_BRANCH_TASK@,
{
    let mut out = text::copy(NO_BRANCH_INTRO);
    out.append(plan_rel);
    out.append("` as a file (do not use ");
    out.append(agent);
    out.append(NO_BRANCH_TASK);
    out
}

pub const PLAN_NEEDED_TASK: &'static str =
    " Code plan mode), then re-run \
     `ghwf work-on %`. ghwf will commit it, push the branch, and open a draft PR.";

/// What the agent is told where the plan is not written yet.
pub fn plan_needed_body(
    agent: &str,
    worktree: &str,
    branch: &str,
    plan_abs: &str,
    number: u64,
) -> (r: String)
    ensures
        r@ == "Prep-and-plan: worktree ready at `"@ + worktree@ + "` on branch `"@ + branch@
            + "`.\n\nWrite the plan to `"@ + plan_abs@ + "` as a file (do not use "@ + agent@
            + text::fill(
            PLAN_NEEDED_TASK@,
            text::decimal(number as nat),
        ),
{
    let mut out = text::copy("Prep-and-plan: worktree ready at `");
    out.append(worktree);
    out.append("` on branch `");
    out.append(branch);
    out.append("`.\n\nWrite the plan to `");
    out.append(plan_abs);
    out.append("` as a file (do not use ");
    out.append(agent);
    out.append(text::filled_number(PLAN_NEEDED_TASK, number).as_str());
    out
}

pub const COMPLETE_TASK: &'static str =
    "\n\n\
     If you haven't already, post a hand-off comment on issue #% and on the PR \
     saying the plan is ready for review, and that commenting `/approve-plan` on either \
     thread advances to the implement phase.\n\n";

/// What the agent is told once everything is there.
pub fn complete_body(worktree: &str, branch: &str, pr_url: &str, number: u64) -> (r: String)
    ensures
        r@ == "Prep-and-plan complete.\n\n- Worktree: `"@ + worktree@ + "`\n- Branch: `"@ + branch@
            + "`\n- Draft PR: "@ + pr_url@ + text::fill(
            COMPLETE_TASK@,
            text::decimal(number as nat),
        ) + text::fill(render::WAIT@, text::decimal(number as nat)),
{
    let mut out = text::copy("Prep-and-plan complete.\n\n- Worktree: `");
    out.append(worktree);
    out.append("`\n- Branch: `");
    out.append(branch);
    out.append("`\n- Draft PR: ");
    out.append(pr_url);
    out.append(text::filled_number(COMPLETE_TASK, number).as_str());
    out.append(render::wait_instruction(number).as_str());
    out
}

/// The message of the commit that adds the plan.
pub fn commit_message(number: u64, title: &str) -> (r: String)
    ensures
        r@ == "Add plan for #"@ + text::decimal(number as nat) + ": "@ + title@,
{
    let mut out = text::copy("Add plan for #");
    out.append(text::number(number).as_str());
    out.append(": ");
    out.append(title);
    out
}

/// The body of the draft PR.
pub fn draft_body(number: u64, issue_url: &str) -> (r: String)
    ensures
        r@ == "Plan for #"@ + text::decimal(number as nat) + ".\n\n## Issue\n\n"@ + issue_url@,
{
    let mut out = text::copy("Plan for #");
    out.append(text::number(number).as_str());
    out.append(".\n\n## Issue\n\n");
    out.append(issue_url);
    out
}

} // verus!
