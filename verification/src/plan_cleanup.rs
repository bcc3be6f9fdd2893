//! Erasing the plan commit once the implementation is approved.

use vstd::prelude::*;

use crate::git::{self, Git, Ran};
use crate::text;

verus! {

/// The outcome of an attempted plan-commit removal.
pub enum Removal {
    /// The plan commit was rebased out and the branch force-pushed.
    Removed,
    /// The removal was skipped; the plan is left in place. The string is a
    /// human-readable reason, for a warning.
    Skipped(String),
}

/// The removal was skipped for this reason.
pub open spec fn skips(r: Result<Removal, String>, why: Seq<char>) -> bool {
    r matches Ok(Removal::Skipped(reason)) && reason@ == why
}

/// `c` is the commit that added the plan, if there is one.
pub open spec fn added_at<R: Fn(Vec<String>) -> Ran>(
    before: Git<R>,
    after: Git<R>,
    worktree: Seq<char>,
    plan_rel: Seq<char>,
    c: Result<Option<String>, String>,
) -> bool {
    git::answered(
        before,
        after,
        worktree,
        seq!["log"@, "--diff-filter=A"@, "--format=%H"@, "--"@, plan_rel],
        |a: Result<Seq<char>, Seq<char>>|
            git::optional(a, |out: Seq<char>| git::last_line(out), c),
    )
}

/// `base` is the parent of a commit, if it has one.
pub open spec fn parent_at<R: Fn(Vec<String>) -> Ran>(
    before: Git<R>,
    after: Git<R>,
    worktree: Seq<char>,
    commit: Seq<char>,
    base: Option<Seq<char>>,
) -> bool {
    git::resolved(before, after, worktree, commit + "^"@, base)
}

/// `m` says whether there are merges above `base`.
pub open spec fn merges_above<R: Fn(Vec<String>) -> Ran>(
    before: Git<R>,
    after: Git<R>,
    worktree: Seq<char>,
    base: Seq<char>,
    m: Result<bool, String>,
) -> bool {
    git::found(
        before,
        after,
        worktree,
        seq!["rev-list"@, "--merges"@, base + "..HEAD"@],
        |out: Seq<char>| text::trim(out).len() > 0,
        m,
    )
}

/// `t` says whether a commit above `commit` touched the plan.
pub open spec fn touched_above<R: Fn(Vec<String>) -> Ran>(
    before: Git<R>,
    after: Git<R>,
    worktree: Seq<char>,
    commit: Seq<char>,
    plan_rel: Seq<char>,
    t: Result<bool, String>,
) -> bool {
    git::found(
        before,
        after,
        worktree,
        seq!["rev-list"@, commit + "..HEAD"@, "--"@, plan_rel],
        |out: Seq<char>| text::trim(out).len() > 0,
        t,
    )
}

/// What is above `commit` was replayed onto `base`, and `g` is how it went. A rebase
/// that fails, and no other, is undone.
pub open spec fn replayed<R: Fn(Vec<String>) -> Ran>(
    before: Git<R>,
    after: Git<R>,
    worktree: Seq<char>,
    commit: Seq<char>,
    base: Seq<char>,
    g: Result<(), String>,
) -> bool {
    let words = seq!["rebase"@, "--onto"@, base, commit];
    if g is Ok {
        git::did(before, after, worktree, words, g)
    } else {
        exists|mid: Git<R>| #[trigger]
            git::did(before, mid, worktree, words, g) && git::attempted(
                mid,
                after,
                worktree,
                seq!["rebase"@, "--abort"@],
            )
    }
}

/// The rewritten branch was published, and `p` is how it went.
pub open spec fn published<R: Fn(Vec<String>) -> Ran>(
    before: Git<R>,
    after: Git<R>,
    worktree: Seq<char>,
    branch: Seq<char>,
    p: Result<(), String>,
) -> bool {
    git::did(
        before,
        after,
        worktree,
        seq!["push"@, "--force-with-lease"@, "origin"@, branch],
        p,
    )
}

pub const PUSH_REJECTED: &'static str =
    "the plan commit was dropped locally but the force-push was rejected (";

/// `r` is what came of dropping the commit and, once that has succeeded, publishing
/// the branch.
pub open spec fn is_rewritten<R: Fn(Vec<String>) -> Ran>(
    before: Git<R>,
    after: Git<R>,
    worktree: Seq<char>,
    branch: Seq<char>,
    commit: Seq<char>,
    base: Seq<char>,
    r: Result<Removal, String>,
) -> bool {
    exists|mid: Git<R>, g: Result<(), String>| #[trigger]
        replayed(before, mid, worktree, commit, base, g) && match g {
            Err(e) => after == mid && skips(r, "the rebase failed: "@ + e@),
            Ok(_) => exists|p: Result<(), String>| #[trigger]
                published(mid, after, worktree, branch, p) && match p {
                    Ok(_) => r == Ok::<Removal, String>(Removal::Removed),
                    Err(e) => skips(
                        r,
                        PUSH_REJECTED@ + e@ + "); the remote branch still has the plan"@,
                    ),
                },
        }
}

/// `r` is what came of removing this commit, where no later commit may have touched
/// the plan.
pub open spec fn is_dropped_untouched<R: Fn(Vec<String>) -> Ran>(
    before: Git<R>,
    after: Git<R>,
    worktree: Seq<char>,
    branch: Seq<char>,
    plan_rel: Seq<char>,
    commit: Seq<char>,
    base: Seq<char>,
    r: Result<Removal, String>,
) -> bool {
    exists|mid: Git<R>, t: Result<bool, String>| #[trigger]
        touched_above(before, mid, worktree, commit, plan_rel, t) && match t {
            Err(e) => after == mid && r == Err::<Removal, String>(e),
            Ok(true) => after == mid && skips(
                r,
                "`"@ + plan_rel + "` is modified by a later commit"@,
            ),
            Ok(false) => is_rewritten(mid, after, worktree, branch, commit, base, r),
        }
}

/// `r` is what came of removing this commit: the history above it must be linear,
/// and no later commit may have touched the plan.
pub open spec fn is_dropped<R: Fn(Vec<String>) -> Ran>(
    before: Git<R>,
    after: Git<R>,
    worktree: Seq<char>,
    branch: Seq<char>,
    plan_rel: Seq<char>,
    commit: Seq<char>,
    base: Seq<char>,
    r: Result<Removal, String>,
) -> bool {
    exists|mid: Git<R>, m: Result<bool, String>| #[trigger]
        merges_above(before, mid, worktree, base, m) && match m {
            Err(e) => after == mid && r == Err::<Removal, String>(e),
            Ok(true) => after == mid && skips(r, "the branch contains merge commits"@),
            Ok(false) => is_dropped_untouched(
                mid,
                after,
                worktree,
                branch,
                plan_rel,
                commit,
                base,
                r,
            ),
        }
}

/// `r` is what came of removing a commit that has a parent.
pub open spec fn is_rebased<R: Fn(Vec<String>) -> Ran>(
    before: Git<R>,
    after: Git<R>,
    worktree: Seq<char>,
    branch: Seq<char>,
    plan_rel: Seq<char>,
    commit: Seq<char>,
    r: Result<Removal, String>,
) -> bool {
    exists|mid: Git<R>, base: Option<Seq<char>>| #[trigger]
        parent_at(before, mid, worktree, commit, base) && match base {
            None => after == mid && skips(r, "the plan commit has no parent to rebase onto"@),
            Some(base) => is_dropped(mid, after, worktree, branch, plan_rel, commit, base, r),
        }
}

/// `r` is what came of removing the commit that added the plan, from a clean tree.
pub open spec fn is_cleared<R: Fn(Vec<String>) -> Ran>(
    before: Git<R>,
    after: Git<R>,
    worktree: Seq<char>,
    branch: Seq<char>,
    plan_rel: Seq<char>,
    r: Result<Removal, String>,
) -> bool {
    exists|mid: Git<R>, c: Result<Option<String>, String>| #[trigger]
        added_at(before, mid, worktree, plan_rel, c) && match c {
            Err(e) => after == mid && r == Err::<Removal, String>(e),
            Ok(None) => after == mid && skips(
                r,
                "no commit adds `"@ + plan_rel + "` on this branch"@,
            ),
            Ok(Some(commit)) => is_rebased(mid, after, worktree, branch, plan_rel, commit@, r),
        }
}

/// `r` is what came of removing the commit that added the plan. The commands are run
/// one after the other, each only where the one before let it go on, and no others.
pub open spec fn is_removal<R: Fn(Vec<String>) -> Ran>(
    before: Git<R>,
    after: Git<R>,
    worktree: Seq<char>,
    branch: Seq<char>,
    plan_rel: Seq<char>,
    r: Result<Removal, String>,
) -> bool {
    exists|mid: Git<R>, c: Result<bool, String>| #[trigger]
        git::clean_at(before, mid, worktree, c) && match c {
            Err(e) => after == mid && r == Err::<Removal, String>(e),
            Ok(false) => after == mid && skips(r, "the worktree has uncommitted changes"@),
            Ok(true) => is_cleared(mid, after, worktree, branch, plan_rel, r),
        }
}

/// Skip the removal for a reason.
fn skip(why: &str) -> (r: Result<Removal, String>)
    ensures
        skips(r, why@),
{
    Ok(Removal::Skipped(text::copy(why)))
}

/// Drop the commit, and publish the rewritten branch.
fn rewrite<R: Fn(Vec<String>) -> Ran>(
    git: &mut Git<R>,
    worktree: &str,
    branch: &str,
    commit: &str,
    base: &str,
) -> (r: Result<Removal, String>)
    requires
        old(git).ready(),
    ensures
        is_rewritten(*old(git), *final(git), worktree@, branch@, commit@, base@, r),
{
    let rebased = git::rebase_onto(git, worktree, base, commit);
    let ghost mid = *git;
    assert(git::did(
        *old(git),
        mid,
        worktree@,
        seq!["rebase"@, "--onto"@, base@, commit@],
        rebased,
    ));
    if let Err(e) = rebased {
        let undone = git::rebase_abort(git, worktree);
        proof {
            git::lemma_did_is_attempted(
                mid,
                *git,
                worktree@,
                seq!["rebase"@, "--abort"@],
                undone,
            );
            assert(rebased == Err::<(), String>(e));
            assert(replayed(*old(git), *git, worktree@, commit@, base@, rebased));
        }
        let mut why = text::copy("the rebase failed: ");
        why.append(e.as_str());
        return skip(why.as_str());
    }
    assert(replayed(*old(git), mid, worktree@, commit@, base@, rebased));
    let pushed = git::force_push_with_lease(git, worktree, branch);
    assert(published(mid, *git, worktree@, branch@, pushed));
    match pushed {
        Ok(_) => Ok(Removal::Removed),
        Err(e) => {
            let mut why = text::copy(PUSH_REJECTED);
            why.append(e.as_str());
            why.append("); the remote branch still has the plan");
            skip(why.as_str())
        },
    }
}

/// Remove a commit, where no later commit touched the plan.
fn drop_untouched<R: Fn(Vec<String>) -> Ran>(
    git: &mut Git<R>,
    worktree: &str,
    branch: &str,
    plan_rel: &str,
    commit: &str,
    base: &str,
) -> (r: Result<Removal, String>)
    requires
        old(git).ready(),
    ensures
        is_dropped_untouched(
            *old(git),
            *final(git),
            worktree@,
            branch@,
            plan_rel@,
            commit@,
            base@,
            r,
        ),
{
    let mut later = text::copy(commit);
    later.append("..HEAD");
    let touched = git::path_touched_in_range(git, worktree, later.as_str(), plan_rel);
    assert(touched_above(*old(git), *git, worktree@, commit@, plan_rel@, touched));
    match touched {
        Err(e) => Err(e),
        Ok(true) => {
            let mut why = text::copy("`");
            why.append(plan_rel);
            why.append("` is modified by a later commit");
            skip(why.as_str())
        },
        Ok(false) => rewrite(git, worktree, branch, commit, base),
    }
}

/// Remove a commit, where the history above it is linear and no later commit
/// touched the plan.
fn drop_commit<R: Fn(Vec<String>) -> Ran>(
    git: &mut Git<R>,
    worktree: &str,
    branch: &str,
    plan_rel: &str,
    commit: &str,
    base: &str,
) -> (r: Result<Removal, String>)
    requires
        old(git).ready(),
    ensures
        is_dropped(*old(git), *final(git), worktree@, branch@, plan_rel@, commit@, base@, r),
{
    let mut range = text::copy(base);
    range.append("..HEAD");
    let merges = git::range_has_merges(git, worktree, range.as_str());
    assert(merges_above(*old(git), *git, worktree@, base@, merges));
    match merges {
        Err(e) => Err(e),
        Ok(true) => skip("the branch contains merge commits"),
        Ok(false) => drop_untouched(git, worktree, branch, plan_rel, commit, base),
    }
}

/// Remove a commit, where it has a parent.
fn rebase_away<R: Fn(Vec<String>) -> Ran>(
    git: &mut Git<R>,
    worktree: &str,
    branch: &str,
    plan_rel: &str,
    commit: &str,
) -> (r: Result<Removal, String>)
    requires
        old(git).ready(),
    ensures
        is_rebased(*old(git), *final(git), worktree@, branch@, plan_rel@, commit@, r),
{
    let mut rev = text::copy(commit);
    rev.append("^");
    let parent = git::rev_parse_ok(git, worktree, rev.as_str());
    assert(parent_at(*old(git), *git, worktree@, commit@, git::sha_seen(parent)));
    match parent {
        None => skip("the plan commit has no parent to rebase onto"),
        Some(base) => drop_commit(git, worktree, branch, plan_rel, commit, base.as_str()),
    }
}

/// Remove the commit that added the plan, from a clean tree.
fn clear<R: Fn(Vec<String>) -> Ran>(
    git: &mut Git<R>,
    worktree: &str,
    branch: &str,
    plan_rel: &str,
) -> (r: Result<Removal, String>)
    requires
        old(git).ready(),
    ensures
        is_cleared(*old(git), *final(git), worktree@, branch@, plan_rel@, r),
{
    let added = git::commit_that_added(git, worktree, plan_rel);
    assert(added_at(*old(git), *git, worktree@, plan_rel@, added));
    match added {
        Err(e) => Err(e),
        Ok(None) => {
            let mut why = text::copy("no commit adds `");
            why.append(plan_rel);
            why.append("` on this branch");
            skip(why.as_str())
        },
        Ok(Some(commit)) => rebase_away(git, worktree, branch, plan_rel, commit.as_str()),
    }
}

/// Rewrite the commit that added `plan_rel` out of `branch`'s history in
/// `worktree`, then force-push. Every precondition that doesn't hold gives
/// [`Removal::Skipped`] rather than an error: this is a best-effort cleanup that
/// must never break the workflow. An error is reserved for an unexpected git
/// failure while probing.
///
/// The rewrite is only attempted when the history above the plan commit is linear
/// and no later commit touched the plan file, so a plain rebase replays cleanly
/// without flattening merges or hitting conflicts.
pub fn remove_plan_commit<R: Fn(Vec<String>) -> Ran>(
    git: &mut Git<R>,
    worktree: &str,
    branch: &str,
    plan_rel: &str,
) -> (r: Result<Removal, String>)
    requires
        old(git).ready(),
    ensures
        is_removal(*old(git), *final(git), worktree@, branch@, plan_rel@, r),
{
    let clean = git::is_tree_clean(git, worktree);
    assert(git::clean_at(*old(git), *git, worktree@, clean));
    match clean {
        Err(e) => Err(e),
        Ok(false) => skip("the worktree has uncommitted changes"),
        Ok(true) => clear(git, worktree, branch, plan_rel),
    }
}

/// Every check was made, in this order, and let the removal of `commit` go on.
pub open spec fn checked<R: Fn(Vec<String>) -> Ran>(
    before: Git<R>,
    after: Git<R>,
    worktree: Seq<char>,
    plan_rel: Seq<char>,
    commit: String,
    base: Seq<char>,
) -> bool {
    exists|one: Git<R>, two: Git<R>, three: Git<R>, four: Git<R>|
        #![trigger
            git::clean_at(before, one, worktree, Ok(true)),
            added_at(one, two, worktree, plan_rel, Ok(Some(commit))),
            parent_at(two, three, worktree, commit@, Some(base)),
            merges_above(three, four, worktree, base, Ok(false))]
        {
            &&& git::clean_at(before, one, worktree, Ok(true))
            &&& added_at(one, two, worktree, plan_rel, Ok(Some(commit)))
            &&& parent_at(two, three, worktree, commit@, Some(base))
            &&& merges_above(three, four, worktree, base, Ok(false))
            &&& touched_above(four, after, worktree, commit@, plan_rel, Ok(false))
        }
}

/// The branch is rewritten by these subcommands, and no other.
pub open spec fn rewrites(verb: Seq<char>) -> bool {
    verb == "rebase"@ || verb == "push"@
}

/// None of the checks rewrites the branch: the removal stops at one of them, or comes
/// to the rewriting after all of them.
proof fn lemma_checks_spare<R: Fn(Vec<String>) -> Ran>(
    before: Git<R>,
    after: Git<R>,
    worktree: Seq<char>,
    branch: Seq<char>,
    plan_rel: Seq<char>,
    r: Result<Removal, String>,
    verb: Seq<char>,
)
    requires
        is_removal(before, after, worktree, branch, plan_rel, r),
        rewrites(verb),
    ensures
        git::spared(before, after, verb) && r != Ok::<Removal, String>(Removal::Removed)
            || exists|five: Git<R>, commit: String, base: Seq<char>| #[trigger]
            checked(before, five, worktree, plan_rel, commit, base) && git::spared(
                before,
                five,
                verb,
            ) && is_rewritten(five, after, worktree, branch, commit@, base, r),
{
    reveal_strlit("rebase");
    reveal_strlit("push");
    reveal_strlit("status");
    reveal_strlit("log");
    reveal_strlit("rev-parse");
    reveal_strlit("rev-list");
    assert("rebase"@[0] == 'r' && "status"@[0] == 's');
    assert("log"@.len() < verb.len() < "rev-list"@.len() < "rev-parse"@.len());
    let (one, c) = choose|mid: Git<R>, c: Result<bool, String>| #[trigger]
        git::clean_at(before, mid, worktree, c) && match c {
            Err(e) => after == mid && r == Err::<Removal, String>(e),
            Ok(false) => after == mid && skips(r, "the worktree has uncommitted changes"@),
            Ok(true) => is_cleared(mid, after, worktree, branch, plan_rel, r),
        };
    let words = seq!["status"@, "--porcelain"@, "--untracked-files=no"@];
    assert(words[0] == "status"@);
    git::lemma_found_spares(
        before,
        one,
        worktree,
        words,
        |out: Seq<char>| text::trim(out).len() == 0,
        c,
        verb,
    );
    if c == Ok::<bool, String>(true) {
        let (two, added) = choose|mid: Git<R>, c: Result<Option<String>, String>| #[trigger]
            added_at(one, mid, worktree, plan_rel, c) && match c {
                Err(e) => after == mid && r == Err::<Removal, String>(e),
                Ok(None) => after == mid && skips(
                    r,
                    "no commit adds `"@ + plan_rel + "` on this branch"@,
                ),
                Ok(Some(commit)) => is_rebased(mid, after, worktree, branch, plan_rel, commit@, r),
            };
        let words = seq!["log"@, "--diff-filter=A"@, "--format=%H"@, "--"@, plan_rel];
        assert(words[0] == "log"@);
        git::lemma_answered_spares(
            one,
            two,
            worktree,
            words,
            |a: Result<Seq<char>, Seq<char>>|
                git::optional(a, |out: Seq<char>| git::last_line(out), added),
            verb,
        );
        git::lemma_spared_joined(before, one, two, verb);
        if added is Ok && added->Ok_0 is Some {
            let commit = added->Ok_0->0;
            assert(added == Ok::<Option<String>, String>(Some(commit)));
            lemma_late_checks_spare(
                before,
                one,
                two,
                after,
                worktree,
                branch,
                plan_rel,
                commit,
                r,
                verb,
            );
        }
    }
}

/// The same for the checks of the commit.
proof fn lemma_late_checks_spare<R: Fn(Vec<String>) -> Ran>(
    before: Git<R>,
    one: Git<R>,
    two: Git<R>,
    after: Git<R>,
    worktree: Seq<char>,
    branch: Seq<char>,
    plan_rel: Seq<char>,
    commit: String,
    r: Result<Removal, String>,
    verb: Seq<char>,
)
    requires
        git::clean_at(before, one, worktree, Ok(true)),
        added_at(one, two, worktree, plan_rel, Ok(Some(commit))),
        git::spared(before, two, verb),
        is_rebased(two, after, worktree, branch, plan_rel, commit@, r),
        rewrites(verb),
    ensures
        git::spared(before, after, verb) && r != Ok::<Removal, String>(Removal::Removed)
            || exists|five: Git<R>, commit: String, base: Seq<char>| #[trigger]
            checked(before, five, worktree, plan_rel, commit, base) && git::spared(
                before,
                five,
                verb,
            ) && is_rewritten(five, after, worktree, branch, commit@, base, r),
{
    reveal_strlit("rebase");
    reveal_strlit("push");
    reveal_strlit("rev-parse");
    reveal_strlit("rev-list");
    assert(verb.len() < "rev-list"@.len() < "rev-parse"@.len());
    let (three, parent) = choose|mid: Git<R>, base: Option<Seq<char>>| #[trigger]
        parent_at(two, mid, worktree, commit@, base) && match base {
            None => after == mid && skips(r, "the plan commit has no parent to rebase onto"@),
            Some(base) => is_dropped(mid, after, worktree, branch, plan_rel, commit@, base, r),
        };
    git::lemma_resolved_spares(two, three, worktree, commit@ + "^"@, parent, verb);
    git::lemma_spared_joined(before, two, three, verb);
    if parent is Some {
        let base = parent->0;
        assert(parent == Some(base));
        let (four, m) = choose|mid: Git<R>, m: Result<bool, String>| #[trigger]
            merges_above(three, mid, worktree, base, m) && match m {
                Err(e) => after == mid && r == Err::<Removal, String>(e),
                Ok(true) => after == mid && skips(r, "the branch contains merge commits"@),
                Ok(false) => is_dropped_untouched(
                    mid,
                    after,
                    worktree,
                    branch,
                    plan_rel,
                    commit@,
                    base,
                    r,
                ),
            };
        let words = seq!["rev-list"@, "--merges"@, base + "..HEAD"@];
        assert(words[0] == "rev-list"@);
        git::lemma_found_spares(
            three,
            four,
            worktree,
            words,
            |out: Seq<char>| text::trim(out).len() > 0,
            m,
            verb,
        );
        git::lemma_spared_joined(before, three, four, verb);
        if m == Ok::<bool, String>(false) {
            let (five, t) = choose|mid: Git<R>, t: Result<bool, String>| #[trigger]
                touched_above(four, mid, worktree, commit@, plan_rel, t) && match t {
                    Err(e) => after == mid && r == Err::<Removal, String>(e),
                    Ok(true) => after == mid && skips(
                        r,
                        "`"@ + plan_rel + "` is modified by a later commit"@,
                    ),
                    Ok(false) => is_rewritten(mid, after, worktree, branch, commit@, base, r),
                };
            let words = seq!["rev-list"@, commit@ + "..HEAD"@, "--"@, plan_rel];
            assert(words[0] == "rev-list"@);
            git::lemma_found_spares(
                four,
                five,
                worktree,
                words,
                |out: Seq<char>| text::trim(out).len() > 0,
                t,
                verb,
            );
            git::lemma_spared_joined(before, four, five, verb);
            if t == Ok::<bool, String>(false) {
                assert(checked(before, five, worktree, plan_rel, commit, base));
            }
        }
    }
}

/// Rewriting begins with the rebase, and a push follows only one that succeeded.
proof fn lemma_rewriting<R: Fn(Vec<String>) -> Ran>(
    before: Git<R>,
    after: Git<R>,
    worktree: Seq<char>,
    branch: Seq<char>,
    commit: Seq<char>,
    base: Seq<char>,
    r: Result<Removal, String>,
)
    requires
        is_rewritten(before, after, worktree, branch, commit, base, r),
    ensures
        before.calls().is_prefix_of(after.calls()),
        git::spared(before, after, "push"@) && r != Ok::<Removal, String>(Removal::Removed)
            || exists|mid: Git<R>, p: Result<(), String>|
            #![trigger published(mid, after, worktree, branch, p)]
            {
                &&& replayed(before, mid, worktree, commit, base, Ok(()))
                &&& git::spared(before, mid, "push"@)
                &&& published(mid, after, worktree, branch, p)
                &&& r == Ok::<Removal, String>(Removal::Removed) ==> p is Ok
                &&& mid.calls().is_prefix_of(after.calls())
                &&& after.calls().len() == mid.calls().len() + 1
            },
{
    reveal_strlit("rebase");
    reveal_strlit("push");
    let (mid, g) = choose|mid: Git<R>, g: Result<(), String>| #[trigger]
        replayed(before, mid, worktree, commit, base, g) && match g {
            Err(e) => after == mid && skips(r, "the rebase failed: "@ + e@),
            Ok(_) => exists|p: Result<(), String>| #[trigger]
                published(mid, after, worktree, branch, p) && match p {
                    Ok(_) => r == Ok::<Removal, String>(Removal::Removed),
                    Err(e) => skips(
                        r,
                        PUSH_REJECTED@ + e@ + "); the remote branch still has the plan"@,
                    ),
                },
        };
    let words = seq!["rebase"@, "--onto"@, base, commit];
    assert(words[0] == "rebase"@);
    if g is Ok {
        assert(g->Ok_0 == ());
        git::lemma_did_spares(before, mid, worktree, words, g, "push"@);
        let p = choose|p: Result<(), String>| #[trigger]
            published(mid, after, worktree, branch, p) && match p {
                Ok(_) => r == Ok::<Removal, String>(Removal::Removed),
                Err(e) => skips(
                    r,
                    PUSH_REJECTED@ + e@ + "); the remote branch still has the plan"@,
                ),
            };
        let push = seq!["push"@, "--force-with-lease"@, "origin"@, branch];
        assert(push[0] == "push"@);
        git::lemma_did_spares(mid, after, worktree, push, p, "rebase"@);
    } else {
        let undone = choose|undone: Git<R>| #[trigger]
            git::did(before, undone, worktree, words, g) && git::attempted(
                undone,
                mid,
                worktree,
                seq!["rebase"@, "--abort"@],
            );
        git::lemma_did_spares(before, undone, worktree, words, g, "push"@);
        let abort = seq!["rebase"@, "--abort"@];
        assert(abort[0] == "rebase"@);
        let o = choose|o: Ran| #[trigger] git::ran(undone, mid, worktree, abort, o);
        git::lemma_ran_spares(undone, mid, worktree, abort, o, "push"@);
        git::lemma_spared_joined(before, undone, mid, "push"@);
    }
}

/// A rebase or a push is run only once every check has passed: a removal that is
/// skipped at one of them leaves history, files and origin as they are.
pub proof fn nothing_is_rewritten_unchecked<R: Fn(Vec<String>) -> Ran>(
    before: Git<R>,
    after: Git<R>,
    worktree: Seq<char>,
    branch: Seq<char>,
    plan_rel: Seq<char>,
    r: Result<Removal, String>,
    i: int,
)
    requires
        is_removal(before, after, worktree, branch, plan_rel, r),
        before.calls().len() <= i < after.calls().len(),
        rewrites(git::verb(after.calls()[i].0)),
    ensures
        exists|mid: Git<R>, commit: String, base: Seq<char>| #[trigger]
            checked(before, mid, worktree, plan_rel, commit, base) && mid.calls().len() <= i
                && mid.calls().is_prefix_of(after.calls()),
{
    let verb = git::verb(after.calls()[i].0);
    lemma_checks_spare(before, after, worktree, branch, plan_rel, r, verb);
    let (five, commit, base) = choose|five: Git<R>, commit: String, base: Seq<char>| #[trigger]
        checked(before, five, worktree, plan_rel, commit, base) && git::spared(before, five, verb)
            && is_rewritten(five, after, worktree, branch, commit@, base, r);
    lemma_rewriting(five, after, worktree, branch, commit@, base, r);
    if i < five.calls().len() {
        assert(five.calls()[i] == after.calls()[i]);
    }
}

/// A push is run only directly behind a rebase that succeeded.
pub proof fn a_push_follows_a_rebase_that_succeeded<R: Fn(Vec<String>) -> Ran>(
    before: Git<R>,
    after: Git<R>,
    worktree: Seq<char>,
    branch: Seq<char>,
    plan_rel: Seq<char>,
    r: Result<Removal, String>,
    i: int,
)
    requires
        is_removal(before, after, worktree, branch, plan_rel, r),
        before.calls().len() <= i < after.calls().len(),
        git::verb(after.calls()[i].0) == "push"@,
    ensures
        exists|five: Git<R>, six: Git<R>, commit: Seq<char>, base: Seq<char>| #[trigger]
            replayed(five, six, worktree, commit, base, Ok(())) && six.calls().len() == i
                && six.calls().is_prefix_of(after.calls()),
{
    lemma_checks_spare(before, after, worktree, branch, plan_rel, r, "push"@);
    let (five, commit, base) = choose|five: Git<R>, commit: String, base: Seq<char>| #[trigger]
        checked(before, five, worktree, plan_rel, commit, base) && git::spared(
            before,
            five,
            "push"@,
        ) && is_rewritten(five, after, worktree, branch, commit@, base, r);
    lemma_rewriting(five, after, worktree, branch, commit@, base, r);
    if git::spared(five, after, "push"@) {
        git::lemma_spared_joined(before, five, after, "push"@);
    }
    let (six, p) = choose|mid: Git<R>, p: Result<(), String>|
        #![trigger published(mid, after, worktree, branch, p)]
        {
            &&& replayed(five, mid, worktree, commit@, base, Ok(()))
            &&& git::spared(five, mid, "push"@)
            &&& published(mid, after, worktree, branch, p)
            &&& r == Ok::<Removal, String>(Removal::Removed) ==> p is Ok
            &&& mid.calls().is_prefix_of(after.calls())
            &&& after.calls().len() == mid.calls().len() + 1
        };
    git::lemma_spared_joined(before, five, six, "push"@);
    if i < six.calls().len() {
        assert(six.calls()[i] == after.calls()[i]);
    }
}

/// The plan commit counts as removed only where every check has passed, the history
/// above the commit was replayed without it, and the rewritten branch was pushed, in
/// this order.
pub proof fn removal_passes_every_check<R: Fn(Vec<String>) -> Ran>(
    before: Git<R>,
    after: Git<R>,
    worktree: Seq<char>,
    branch: Seq<char>,
    plan_rel: Seq<char>,
)
    requires
        is_removal(before, after, worktree, branch, plan_rel, Ok(Removal::Removed)),
    ensures
        exists|five: Git<R>, six: Git<R>, commit: String, base: Seq<char>|
            #![trigger
                checked(before, five, worktree, plan_rel, commit, base),
                published(six, after, worktree, branch, Ok(()))]
            {
                &&& checked(before, five, worktree, plan_rel, commit, base)
                &&& replayed(five, six, worktree, commit@, base, Ok(()))
                &&& published(six, after, worktree, branch, Ok(()))
            },
{
    let r = Ok::<Removal, String>(Removal::Removed);
    lemma_checks_spare(before, after, worktree, branch, plan_rel, r, "push"@);
    let (five, commit, base) = choose|five: Git<R>, commit: String, base: Seq<char>| #[trigger]
        checked(before, five, worktree, plan_rel, commit, base) && git::spared(
            before,
            five,
            "push"@,
        ) && is_rewritten(five, after, worktree, branch, commit@, base, r);
    lemma_rewriting(five, after, worktree, branch, commit@, base, r);
    let (six, p) = choose|mid: Git<R>, p: Result<(), String>|
        #![trigger published(mid, after, worktree, branch, p)]
        {
            &&& replayed(five, mid, worktree, commit@, base, Ok(()))
            &&& git::spared(five, mid, "push"@)
            &&& published(mid, after, worktree, branch, p)
            &&& r == Ok::<Removal, String>(Removal::Removed) ==> p is Ok
            &&& mid.calls().is_prefix_of(after.calls())
            &&& after.calls().len() == mid.calls().len() + 1
        };
    assert(p->Ok_0 == ());
}

} // verus!
