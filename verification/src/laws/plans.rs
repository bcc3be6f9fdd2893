//! The plan: its worktree, its commit, and its removal once it is approved.

use vstd::prelude::*;

use crate::git::{self, Git, Ran};
use crate::implement;
use crate::laws::commands::{
    blank, came_to, exits, issued, lemma_answered, lemma_did, lemma_found, lemma_issued,
    lemma_probed, lemma_resolved, lemma_trim, out, went,
};
use crate::plan_cleanup::{self, Removal};
use crate::prep::{self, PrepStep, Update};
use crate::record::Recorded;
use crate::state::{IssueState, PrepState};
use crate::text;

verus! {

/// The plan was left where it is.
pub open spec fn left(r: Result<Removal, String>) -> bool {
    r is Ok && r->Ok_0 is Skipped
}

/// Having found nothing against it, the commits above the plan's are put onto its parent,
/// and the branch is pushed where that worked; else the rebase is given up.
pub open spec fn drops<R: Fn(Vec<String>) -> Ran>(
    before: Git<R>,
    after: Git<R>,
    dir: Seq<char>,
    branch: Seq<char>,
    commit: Seq<char>,
    parent: Seq<char>,
    r: Result<Removal, String>,
) -> bool {
    exists|one: Git<R>|
        #![trigger came_to(one)]
        {
            &&& issued(before, one, seq!["-C"@, dir, "rebase"@, "--onto"@, parent, commit])
            &&& !went(came_to(one)) ==> issued(
                one,
                after,
                seq!["-C"@, dir, "rebase"@, "--abort"@],
            ) && left(r)
            &&& went(came_to(one)) ==> {
                &&& issued(
                    one,
                    after,
                    seq!["-C"@, dir, "push"@, "--force-with-lease"@, "origin"@, branch],
                )
                &&& went(came_to(after)) ==> r is Ok && r->Ok_0 is Removed
                &&& !went(came_to(after)) ==> left(r)
            }
        }
}

/// A later commit that touches the plan keeps it where it is.
pub open spec fn drops_untouched<R: Fn(Vec<String>) -> Ran>(
    before: Git<R>,
    after: Git<R>,
    dir: Seq<char>,
    branch: Seq<char>,
    plan: Seq<char>,
    commit: Seq<char>,
    parent: Seq<char>,
    r: Result<Removal, String>,
) -> bool {
    exists|one: Git<R>|
        #![trigger came_to(one)]
        {
            &&& issued(
                before,
                one,
                seq!["-C"@, dir, "rev-list"@, commit + "..HEAD"@, "--"@, plan],
            )
            &&& !went(came_to(one)) ==> after == one && r is Err
            &&& went(came_to(one)) && !blank(out(came_to(one))) ==> after == one && left(r)
            &&& went(came_to(one)) && blank(out(came_to(one))) ==> drops(
                one,
                after,
                dir,
                branch,
                commit,
                parent,
                r,
            )
        }
}

/// Merges above the plan keep it where it is.
pub open spec fn drops_unmerged<R: Fn(Vec<String>) -> Ran>(
    before: Git<R>,
    after: Git<R>,
    dir: Seq<char>,
    branch: Seq<char>,
    plan: Seq<char>,
    commit: Seq<char>,
    parent: Seq<char>,
    r: Result<Removal, String>,
) -> bool {
    exists|one: Git<R>|
        #![trigger came_to(one)]
        {
            &&& issued(
                before,
                one,
                seq!["-C"@, dir, "rev-list"@, "--merges"@, parent + "..HEAD"@],
            )
            &&& !went(came_to(one)) ==> after == one && r is Err
            &&& went(came_to(one)) && !blank(out(came_to(one))) ==> after == one && left(r)
            &&& went(came_to(one)) && blank(out(came_to(one))) ==> drops_untouched(
                one,
                after,
                dir,
                branch,
                plan,
                commit,
                parent,
                r,
            )
        }
}

/// A plan commit without a parent stays.
pub open spec fn drops_with_parent<R: Fn(Vec<String>) -> Ran>(
    before: Git<R>,
    after: Git<R>,
    dir: Seq<char>,
    branch: Seq<char>,
    plan: Seq<char>,
    commit: Seq<char>,
    r: Result<Removal, String>,
) -> bool {
    exists|one: Git<R>|
        #![trigger came_to(one)]
        {
            &&& issued(
                before,
                one,
                seq!["-C"@, dir, "rev-parse"@, "--verify"@, "--quiet"@, commit + "^"@],
            )
            &&& !went(came_to(one)) ==> after == one && left(r)
            &&& went(came_to(one)) ==> drops_unmerged(
                one,
                after,
                dir,
                branch,
                plan,
                commit,
                text::trim(out(came_to(one))),
                r,
            )
        }
}

/// The plan's commit is the oldest that adds its file; where none does, nothing is done.
pub open spec fn drops_added<R: Fn(Vec<String>) -> Ran>(
    before: Git<R>,
    after: Git<R>,
    dir: Seq<char>,
    branch: Seq<char>,
    plan: Seq<char>,
    r: Result<Removal, String>,
) -> bool {
    exists|one: Git<R>|
        #![trigger came_to(one)]
        {
            let lines = text::lines(out(came_to(one)));
            &&& issued(
                before,
                one,
                seq!["-C"@, dir, "log"@, "--diff-filter=A"@, "--format=%H"@, "--"@, plan],
            )
            &&& !went(came_to(one)) ==> after == one && r is Err
            &&& went(came_to(one)) && lines.len() == 0 ==> after == one && left(r)
            &&& went(came_to(one)) && lines.len() > 0 ==> drops_with_parent(
                one,
                after,
                dir,
                branch,
                plan,
                text::trim(lines[lines.len() - 1]),
                r,
            )
        }
}

/// The plan's commit is taken out of the branch only where the worktree is clean, one
/// commit adds the plan, it has a parent, nothing above it is a merge, and nothing above
/// it touches the plan. The commits above it are kept, and the branch is pushed only
/// after a rebase that worked, and never over what others pushed.
pub proof fn plans_are_taken_out_with_care<R: Fn(Vec<String>) -> Ran>(
    before: Git<R>,
    worktree: &str,
    branch: &str,
    plan: &str,
    after: Git<R>,
    r: Result<Removal, String>,
)
    requires
        exists|g: &mut Git<R>| #[trigger]
            call_ensures(plan_cleanup::remove_plan_commit::<R>, (g, worktree, branch, plan), r)
                && *g == before && *final(g) == after,
    ensures
        exists|one: Git<R>|
            #![trigger came_to(one)]
            {
                &&& issued(
                    before,
                    one,
                    seq!["-C"@, worktree@, "status"@, "--porcelain"@, "--untracked-files=no"@],
                )
                &&& !went(came_to(one)) ==> after == one && r is Err
                &&& went(came_to(one)) && !blank(out(came_to(one))) ==> after == one && left(r)
                &&& went(came_to(one)) && blank(out(came_to(one))) ==> drops_added(
                    one,
                    after,
                    worktree@,
                    branch@,
                    plan@,
                    r,
                )
            },
{
    let dir = worktree@;
    let (one, c) = choose|one: Git<R>, c: Result<bool, String>| #[trigger]
        git::clean_at(before, one, dir, c) && match c {
            Err(e) => after == one && r == Err::<Removal, String>(e),
            Ok(false) => after == one && plan_cleanup::skips(
                r,
                "the worktree has uncommitted changes"@,
            ),
            Ok(true) => plan_cleanup::is_cleared(one, after, dir, branch@, plan@, r),
        };
    let words = seq!["status"@, "--porcelain"@, "--untracked-files=no"@];
    let holds = |o: Seq<char>| text::trim(o).len() == 0;
    lemma_found(before, one, dir, words, holds, c);
    assert(seq!["-C"@, dir] + words =~= seq![
        "-C"@,
        dir,
        "status"@,
        "--porcelain"@,
        "--untracked-files=no"@,
    ]);
    lemma_trim(out(came_to(one)));
    if c == Ok::<bool, String>(true) {
        lemma_added(one, dir, branch@, plan@, after, r);
    }
}

proof fn lemma_added<R: Fn(Vec<String>) -> Ran>(
    before: Git<R>,
    dir: Seq<char>,
    branch: Seq<char>,
    plan: Seq<char>,
    after: Git<R>,
    r: Result<Removal, String>,
)
    requires
        plan_cleanup::is_cleared(before, after, dir, branch, plan, r),
    ensures
        drops_added(before, after, dir, branch, plan, r),
{
    let (one, c) = choose|one: Git<R>, c: Result<Option<String>, String>| #[trigger]
        plan_cleanup::added_at(before, one, dir, plan, c) && match c {
            Err(e) => after == one && r == Err::<Removal, String>(e),
            Ok(None) => after == one && plan_cleanup::skips(
                r,
                "no commit adds `"@ + plan + "` on this branch"@,
            ),
            Ok(Some(commit)) => plan_cleanup::is_rebased(
                one,
                after,
                dir,
                branch,
                plan,
                commit@,
                r,
            ),
        };
    let words = seq!["log"@, "--diff-filter=A"@, "--format=%H"@, "--"@, plan];
    let a = lemma_answered(
        before,
        one,
        dir,
        words,
        |a: Result<Seq<char>, Seq<char>>|
            git::optional(a, |o: Seq<char>| git::last_line(o), c),
    );
    assert(seq!["-C"@, dir] + words =~= seq![
        "-C"@,
        dir,
        "log"@,
        "--diff-filter=A"@,
        "--format=%H"@,
        "--"@,
        plan,
    ]);
    assert(came_to(one) == came_to(one));
    if a is Ok && c->Ok_0 is Some {
        let lines = text::lines(out(came_to(one)));
        assert(c->Ok_0->0@ == text::trim(lines[lines.len() - 1]));
        lemma_parent(one, dir, branch, plan, c->Ok_0->0@, after, r);
    }
}

proof fn lemma_parent<R: Fn(Vec<String>) -> Ran>(
    before: Git<R>,
    dir: Seq<char>,
    branch: Seq<char>,
    plan: Seq<char>,
    commit: Seq<char>,
    after: Git<R>,
    r: Result<Removal, String>,
)
    requires
        plan_cleanup::is_rebased(before, after, dir, branch, plan, commit, r),
    ensures
        drops_with_parent(before, after, dir, branch, plan, commit, r),
{
    let (one, base) = choose|one: Git<R>, base: Option<Seq<char>>| #[trigger]
        plan_cleanup::parent_at(before, one, dir, commit, base) && match base {
            None => after == one && plan_cleanup::skips(
                r,
                "the plan commit has no parent to rebase onto"@,
            ),
            Some(base) => plan_cleanup::is_dropped(one, after, dir, branch, plan, commit, base, r),
        };
    lemma_resolved(before, one, dir, commit + "^"@, base);
    assert(came_to(one) == came_to(one));
    if base is Some {
        lemma_unmerged(one, dir, branch, plan, commit, base->0, after, r);
    }
}

proof fn lemma_unmerged<R: Fn(Vec<String>) -> Ran>(
    before: Git<R>,
    dir: Seq<char>,
    branch: Seq<char>,
    plan: Seq<char>,
    commit: Seq<char>,
    parent: Seq<char>,
    after: Git<R>,
    r: Result<Removal, String>,
)
    requires
        plan_cleanup::is_dropped(before, after, dir, branch, plan, commit, parent, r),
    ensures
        drops_unmerged(before, after, dir, branch, plan, commit, parent, r),
{
    let (one, m) = choose|one: Git<R>, m: Result<bool, String>| #[trigger]
        plan_cleanup::merges_above(before, one, dir, parent, m) && match m {
            Err(e) => after == one && r == Err::<Removal, String>(e),
            Ok(true) => after == one && plan_cleanup::skips(
                r,
                "the branch contains merge commits"@,
            ),
            Ok(false) => plan_cleanup::is_dropped_untouched(
                one,
                after,
                dir,
                branch,
                plan,
                commit,
                parent,
                r,
            ),
        };
    let words = seq!["rev-list"@, "--merges"@, parent + "..HEAD"@];
    let holds = |o: Seq<char>| text::trim(o).len() > 0;
    lemma_found(before, one, dir, words, holds, m);
    assert(seq!["-C"@, dir] + words =~= seq![
        "-C"@,
        dir,
        "rev-list"@,
        "--merges"@,
        parent + "..HEAD"@,
    ]);
    lemma_trim(out(came_to(one)));
    if m == Ok::<bool, String>(false) {
        lemma_untouched(one, dir, branch, plan, commit, parent, after, r);
    }
}

proof fn lemma_untouched<R: Fn(Vec<String>) -> Ran>(
    before: Git<R>,
    dir: Seq<char>,
    branch: Seq<char>,
    plan: Seq<char>,
    commit: Seq<char>,
    parent: Seq<char>,
    after: Git<R>,
    r: Result<Removal, String>,
)
    requires
        plan_cleanup::is_dropped_untouched(before, after, dir, branch, plan, commit, parent, r),
    ensures
        drops_untouched(before, after, dir, branch, plan, commit, parent, r),
{
    let (one, t) = choose|one: Git<R>, t: Result<bool, String>| #[trigger]
        plan_cleanup::touched_above(before, one, dir, commit, plan, t) && match t {
            Err(e) => after == one && r == Err::<Removal, String>(e),
            Ok(true) => after == one && plan_cleanup::skips(
                r,
                "`"@ + plan + "` is modified by a later commit"@,
            ),
            Ok(false) => plan_cleanup::is_rewritten(one, after, dir, branch, commit, parent, r),
        };
    let words = seq!["rev-list"@, commit + "..HEAD"@, "--"@, plan];
    let holds = |o: Seq<char>| text::trim(o).len() > 0;
    lemma_found(before, one, dir, words, holds, t);
    assert(seq!["-C"@, dir] + words =~= seq![
        "-C"@,
        dir,
        "rev-list"@,
        commit + "..HEAD"@,
        "--"@,
        plan,
    ]);
    lemma_trim(out(came_to(one)));
    if t == Ok::<bool, String>(false) {
        lemma_drops(one, dir, branch, commit, parent, after, r);
    }
}

proof fn lemma_drops<R: Fn(Vec<String>) -> Ran>(
    before: Git<R>,
    dir: Seq<char>,
    branch: Seq<char>,
    commit: Seq<char>,
    parent: Seq<char>,
    after: Git<R>,
    r: Result<Removal, String>,
)
    requires
        plan_cleanup::is_rewritten(before, after, dir, branch, commit, parent, r),
    ensures
        drops(before, after, dir, branch, commit, parent, r),
{
    let (mid, g) = choose|mid: Git<R>, g: Result<(), String>| #[trigger]
        plan_cleanup::replayed(before, mid, dir, commit, parent, g) && match g {
            Err(e) => after == mid && plan_cleanup::skips(r, "the rebase failed: "@ + e@),
            Ok(_) => exists|p: Result<(), String>| #[trigger]
                plan_cleanup::published(mid, after, dir, branch, p) && match p {
                    Ok(_) => r == Ok::<Removal, String>(Removal::Removed),
                    Err(e) => plan_cleanup::skips(
                        r,
                        plan_cleanup::PUSH_REJECTED@ + e@
                            + "); the remote branch still has the plan"@,
                    ),
                },
        };
    let words = seq!["rebase"@, "--onto"@, parent, commit];
    assert(seq!["-C"@, dir] + words =~= seq!["-C"@, dir, "rebase"@, "--onto"@, parent, commit]);
    if g is Ok {
        lemma_did(before, mid, dir, words, g);
        let p = choose|p: Result<(), String>| #[trigger]
            plan_cleanup::published(mid, after, dir, branch, p) && match p {
                Ok(_) => r == Ok::<Removal, String>(Removal::Removed),
                Err(e) => plan_cleanup::skips(
                    r,
                    plan_cleanup::PUSH_REJECTED@ + e@ + "); the remote branch still has the plan"@,
                ),
            };
        let push = seq!["push"@, "--force-with-lease"@, "origin"@, branch];
        lemma_did(mid, after, dir, push, p);
        assert(seq!["-C"@, dir] + push =~= seq![
            "-C"@,
            dir,
            "push"@,
            "--force-with-lease"@,
            "origin"@,
            branch,
        ]);
        assert(went(came_to(mid)));
    } else {
        let one = choose|one: Git<R>| #[trigger]
            git::did(before, one, dir, words, g) && git::attempted(
                one,
                mid,
                dir,
                seq!["rebase"@, "--abort"@],
            );
        lemma_did(before, one, dir, words, g);
        let abort = seq!["rebase"@, "--abort"@];
        let o = choose|o: Ran| #[trigger] git::ran(one, mid, dir, abort, o);
        lemma_issued(one, mid, dir, abort, o);
        assert(seq!["-C"@, dir] + abort =~= seq!["-C"@, dir, "rebase"@, "--abort"@]);
        assert(!went(came_to(one)));
    }
}

/// A worktree that is behind is moved: only forward, only a clean one, and only where it
/// has nothing of its own.
pub open spec fn moves_forward<R: Fn(Vec<String>) -> Ran>(
    before: Git<R>,
    after: Git<R>,
    worktree: String,
    default: Seq<char>,
    r: Result<Update, String>,
) -> bool {
    exists|one: Git<R>|
        #![trigger came_to(one)]
        {
            &&& issued(
                before,
                one,
                seq![
                    "-C"@,
                    worktree@,
                    "status"@,
                    "--porcelain"@,
                    "--untracked-files=no"@,
                ],
            )
            &&& !went(came_to(one)) ==> after == one && r is Err
            &&& went(came_to(one)) && !blank(out(came_to(one))) ==> after == one && r == Ok::<
                Update,
                String,
            >(Update::Changed(worktree))
            &&& went(came_to(one)) && blank(out(came_to(one))) ==> catches_up(
                one,
                after,
                worktree,
                default,
                r,
            )
        }
}

/// Moved is what lacks something of the remote's branch and has nothing that it lacks.
pub open spec fn catches_up<R: Fn(Vec<String>) -> Ran>(
    before: Git<R>,
    after: Git<R>,
    worktree: String,
    default: Seq<char>,
    r: Result<Update, String>,
) -> bool {
    exists|one: Git<R>|
        #![trigger came_to(one)]
        {
            &&& issued(
                before,
                one,
                seq![
                    "-C"@,
                    worktree@,
                    "merge-base"@,
                    "--is-ancestor"@,
                    "origin/"@ + default,
                    "HEAD"@,
                ],
            )
            &&& exits(came_to(one), 0) ==> after == one && r == Ok::<Update, String>(
                Update::Current(worktree),
            )
            &&& !exits(came_to(one), 0) ==> exists|two: Git<R>|
                #![trigger came_to(two)]
                {
                    &&& issued(
                        one,
                        two,
                        seq![
                            "-C"@,
                            worktree@,
                            "merge-base"@,
                            "--is-ancestor"@,
                            "HEAD"@,
                            "origin/"@ + default,
                        ],
                    )
                    &&& !exits(came_to(two), 0) ==> after == two && r == Ok::<Update, String>(
                        Update::Diverged(worktree),
                    )
                    &&& exits(came_to(two), 0) ==> issued(
                        two,
                        after,
                        seq!["-C"@, worktree@, "merge"@, "--ff-only"@, "origin/"@ + default],
                    ) && (went(came_to(after)) ==> r == Ok::<Update, String>(
                        Update::Forwarded(worktree),
                    )) && (!went(came_to(after)) ==> r is Err)
                }
        }
}

/// The default branch's own worktree is brought forward where that loses nothing.
pub proof fn the_default_worktree_is_brought_forward<R: Fn(Vec<String>) -> Ran>(
    before: Git<R>,
    main_repo: &str,
    default: &str,
    after: Git<R>,
    r: Result<Update, String>,
)
    requires
        exists|g: &mut Git<R>| #[trigger]
            call_ensures(prep::update_default_worktree::<R>, (g, main_repo, default), r) && *g
                == before && *final(g) == after,
    ensures
        exists|one: Git<R>|
            #![trigger came_to(one)]
            {
                let at = git::worktree_of(out(came_to(one)), default@);
                &&& issued(
                    before,
                    one,
                    seq!["-C"@, main_repo@, "worktree"@, "list"@, "--porcelain"@],
                )
                &&& !went(came_to(one)) ==> after == one && r is Err
                &&& went(came_to(one)) && at is None ==> after == one && r == Ok::<Update, String>(
                    Update::NoWorktree,
                )
                &&& went(came_to(one)) && at is Some ==> exists|worktree: String|
                    worktree@ == at->0 && #[trigger] moves_forward(
                        one,
                        after,
                        worktree,
                        default@,
                        r,
                    )
            },
{
    let (one, w) = choose|one: Git<R>, w: Result<Option<String>, String>| #[trigger]
        git::checked_out_at(before, one, main_repo@, default@, w) && match w {
            Err(e) => after == one && r == Err::<Update, String>(e),
            Ok(None) => after == one && r == Ok::<Update, String>(Update::NoWorktree),
            Ok(Some(worktree)) => prep::is_updating(one, after, worktree, default@, r),
        };
    let words = seq!["worktree"@, "list"@, "--porcelain"@];
    let a = lemma_answered(
        before,
        one,
        main_repo@,
        words,
        |a: Result<Seq<char>, Seq<char>>|
            git::optional(a, |o: Seq<char>| git::worktree_of(o, default@), w),
    );
    assert(seq!["-C"@, main_repo@] + words =~= seq![
        "-C"@,
        main_repo@,
        "worktree"@,
        "list"@,
        "--porcelain"@,
    ]);
    assert(came_to(one) == came_to(one));
    if a is Ok && w->Ok_0 is Some {
        lemma_moves(one, after, w->Ok_0->0, default@, r);
    }
}

proof fn lemma_moves<R: Fn(Vec<String>) -> Ran>(
    before: Git<R>,
    after: Git<R>,
    worktree: String,
    default: Seq<char>,
    r: Result<Update, String>,
)
    requires
        prep::is_updating(before, after, worktree, default, r),
    ensures
        moves_forward(before, after, worktree, default, r),
{
    let dir = worktree@;
    let (one, c) = choose|one: Git<R>, c: Result<bool, String>| #[trigger]
        git::clean_at(before, one, dir, c) && match c {
            Err(e) => after == one && r == Err::<Update, String>(e),
            Ok(false) => after == one && r == Ok::<Update, String>(Update::Changed(worktree)),
            Ok(true) => prep::is_catching_up(one, after, worktree, default, r),
        };
    let words = seq!["status"@, "--porcelain"@, "--untracked-files=no"@];
    let holds = |o: Seq<char>| text::trim(o).len() == 0;
    lemma_found(before, one, dir, words, holds, c);
    assert(seq!["-C"@, dir] + words =~= seq![
        "-C"@,
        dir,
        "status"@,
        "--porcelain"@,
        "--untracked-files=no"@,
    ]);
    lemma_trim(out(came_to(one)));
    if c == Ok::<bool, String>(true) {
        lemma_catches_up(one, after, worktree, default, r);
    }
}

proof fn lemma_catches_up<R: Fn(Vec<String>) -> Ran>(
    before: Git<R>,
    after: Git<R>,
    worktree: String,
    default: Seq<char>,
    r: Result<Update, String>,
)
    requires
        prep::is_catching_up(before, after, worktree, default, r),
    ensures
        catches_up(before, after, worktree, default, r),
{
    let dir = worktree@;
    let remote = "origin/"@ + default;
    let (one, current) = choose|one: Git<R>, current: bool| #[trigger]
        implement::base_contained(before, one, dir, default, current) && if current {
            after == one && r == Ok::<Update, String>(Update::Current(worktree))
        } else {
            prep::is_moving(one, after, worktree, default, r)
        };
    let words = seq!["merge-base"@, "--is-ancestor"@, remote, "HEAD"@];
    lemma_probed(before, one, dir, words, current);
    assert(seq!["-C"@, dir] + words =~= seq![
        "-C"@,
        dir,
        "merge-base"@,
        "--is-ancestor"@,
        "origin/"@ + default,
        "HEAD"@,
    ]);
    assert(came_to(one) == came_to(one));
    if !current {
        let (two, behind) = choose|two: Git<R>, behind: bool| #[trigger]
            prep::head_contained(one, two, dir, default, behind) && if behind {
                exists|f: Result<(), String>| #[trigger]
                    prep::forwarded(two, after, dir, default, f) && match f {
                        Ok(_) => r == Ok::<Update, String>(Update::Forwarded(worktree)),
                        Err(e) => r == Err::<Update, String>(e),
                    }
            } else {
                after == two && r == Ok::<Update, String>(Update::Diverged(worktree))
            };
        let second = seq!["merge-base"@, "--is-ancestor"@, "HEAD"@, remote];
        lemma_probed(one, two, dir, second, behind);
        assert(seq!["-C"@, dir] + second =~= seq![
            "-C"@,
            dir,
            "merge-base"@,
            "--is-ancestor"@,
            "HEAD"@,
            "origin/"@ + default,
        ]);
        assert(came_to(two) == came_to(two));
        if behind {
            let f = choose|f: Result<(), String>| #[trigger]
                prep::forwarded(two, after, dir, default, f) && match f {
                    Ok(_) => r == Ok::<Update, String>(Update::Forwarded(worktree)),
                    Err(e) => r == Err::<Update, String>(e),
                };
            let third = seq!["merge"@, "--ff-only"@, remote];
            lemma_did(two, after, dir, third, f);
            assert(seq!["-C"@, dir] + third =~= seq![
                "-C"@,
                dir,
                "merge"@,
                "--ff-only"@,
                "origin/"@ + default,
            ]);
        }
    }
}

/// A workflow gets one worktree: where one is recorded it is used, and else a new branch
/// is made at the remote's default, freshly fetched, in a directory named like it; both
/// are recorded only once git has made them.
pub proof fn worktrees_start_at_the_fetched_default<
    R: Fn(Vec<String>) -> Ran,
    D: Fn(()) -> Result<String, String>,
>(
    before: Git<R>,
    asked: Recorded<D, (), Result<String, String>>,
    old_state: IssueState,
    main_repo: &str,
    worktrees_dir: &str,
    branch: &str,
    after: Git<R>,
    answered: Recorded<D, (), Result<String, String>>,
    new_state: IssueState,
    r: Result<(String, String), String>,
)
    requires
        exists|
            g: &mut Git<R>,
            d: &mut Recorded<D, (), Result<String, String>>,
            s: &mut IssueState,
        | #[trigger]
            call_ensures(
                prep::ensure_worktree::<R, D>,
                (g, d, s, main_repo, worktrees_dir, branch),
                r,
            ) && *g == before && *final(g) == after && *d == asked && *final(d) == answered && *s
                == old_state && *final(s) == new_state,
        old_state.prep is Some && old_state.prep->0.branch is Some
            ==> old_state.prep->0.worktree_path is Some,
    ensures
        new_state == (IssueState { prep: new_state.prep, ..old_state }),
        old_state.prep is Some && old_state.prep->0.branch is Some ==> after == before && new_state
            == old_state && r is Ok && (r->Ok_0).1@ == old_state.prep->0.branch->0@ && (r->Ok_0).0@
            == old_state.prep->0.worktree_path->0@,
        old_state.prep is None || old_state.prep->0.branch is None ==> exists|one: Git<R>|
            #![trigger came_to(one)]
            {
                &&& issued(
                    before,
                    one,
                    seq!["-C"@, main_repo@, "fetch"@, "--prune"@, "origin"@],
                )
                &&& !went(came_to(one)) ==> after == one && r is Err
                &&& went(came_to(one)) && answered.calls().last().1 is Err ==> after == one
                    && r is Err
                &&& went(came_to(one)) && answered.calls().last().1 is Ok ==> issued(
                    one,
                    after,
                    seq![
                        "-C"@,
                        main_repo@,
                        "worktree"@,
                        "add"@,
                        "-b"@,
                        branch@,
                        text::below(worktrees_dir@, branch@),
                        "origin/"@ + answered.calls().last().1->Ok_0@,
                    ],
                ) && (r is Ok <==> went(came_to(after)))
            },
        r is Ok ==> new_state.prep is Some && new_state.prep->0.branch is Some
            && new_state.prep->0.worktree_path is Some && new_state.prep->0.branch->0@
            == (r->Ok_0).1@ && new_state.prep->0.worktree_path->0@ == (r->Ok_0).0@,
        r is Err ==> new_state.prep is Some && new_state.prep->0.branch is None,
        r is Ok && (old_state.prep is None || old_state.prep->0.branch is None) ==> (r->Ok_0).1@
            == branch@ && (r->Ok_0).0@ == text::below(worktrees_dir@, branch@),
{
    if old_state.prep is None || old_state.prep->0.branch is None {
        let path = text::below(worktrees_dir@, branch@);
        let unrecorded = prep::prepared(old_state.prep);
        let repo = main_repo@;
        let (one, f) = choose|one: Git<R>, f: Result<(), String>| #[trigger]
            git::fetched(before, one, repo, f) && match f {
                Err(e) => after == one && answered == asked && new_state.prep->0 == unrecorded && r
                    == Err::<(String, String), String>(e),
                Ok(_) => answered.calls().len() == asked.calls().len() + 1 && answered.calls()
                    == asked.calls().push(
                    answered.calls().last(),
                ) && match answered.calls().last().1 {
                    Err(e) => after == one && new_state.prep->0 == unrecorded && r == Err::<
                        (String, String),
                        String,
                    >(e),
                    Ok(default) => exists|a: Result<(), String>| #[trigger]
                        prep::started(one, after, repo, path, branch@, default@, a) && match a {
                            Err(e) => new_state.prep->0 == unrecorded && r == Err::<
                                (String, String),
                                String,
                            >(e),
                            Ok(_) => r is Ok && (r->Ok_0).0@ == path && (r->Ok_0).1@ == branch@
                                && new_state.prep->0 == (PrepState {
                                branch: new_state.prep->0.branch,
                                worktree_path: new_state.prep->0.worktree_path,
                                ..unrecorded
                            }) && new_state.prep->0.branch is Some && new_state.prep->0.branch->0@
                                == branch@ && new_state.prep->0.worktree_path is Some
                                && new_state.prep->0.worktree_path->0@ == path,
                        },
                },
            };
        let words = seq!["fetch"@, "--prune"@, "origin"@];
        lemma_did(before, one, repo, words, f);
        assert(seq!["-C"@, repo] + words =~= seq![
            "-C"@,
            repo,
            "fetch"@,
            "--prune"@,
            "origin"@,
        ]);
        assert(came_to(one) == came_to(one));
        if f is Ok && answered.calls().last().1 is Ok {
            let default = answered.calls().last().1->Ok_0;
            let a = choose|a: Result<(), String>| #[trigger]
                prep::started(one, after, repo, path, branch@, default@, a) && match a {
                    Err(e) => new_state.prep->0 == unrecorded && r == Err::<
                        (String, String),
                        String,
                    >(e),
                    Ok(_) => r is Ok,
                };
            let add = seq![
                "worktree"@,
                "add"@,
                "-b"@,
                branch@,
                path,
                "origin/"@ + default@,
            ];
            lemma_did(one, after, repo, add, a);
            assert(seq!["-C"@, repo] + add =~= seq![
                "-C"@,
                repo,
                "worktree"@,
                "add"@,
                "-b"@,
                branch@,
                path,
                "origin/"@ + default@,
            ]);
        }
    }
}

/// Entering the phase decides once whether there is a branch, and asks to be told where a
/// later wish for none comes too late.
pub proof fn the_branch_is_decided_once(before: IssueState, no_branch: bool, after: IssueState, r: bool)
    requires
        exists|g: &mut IssueState| #[trigger]
            call_ensures(prep::enter, (g, no_branch), r) && *g == before && *final(g) == after,
    ensures
        before.prep is Some ==> after == before && (r <==> no_branch
            && !before.prep->0.no_branch),
        before.prep is None ==> !r && after.prep is Some && after.prep->0.no_branch == no_branch
            && after.prep->0.branch is None && after.prep->0.worktree_path is None
            && after.prep->0.worktree_session_id is None && after.prep->0.pr_number is None
            && after == (IssueState { prep: after.prep, ..before }),
{
}

/// The phase goes on where it stands: a plan that is missing stops it, what is not
/// committed is committed, what is not pushed is pushed, and a PR is opened where there
/// is none.
pub proof fn prep_does_what_is_missing(step: PrepStep, yes: bool, pr_known: bool, r: PrepStep)
    requires
        call_ensures(prep::run, (step, yes, pr_known), r),
    ensures
        step == PrepStep::CheckPlan && yes ==> r == PrepStep::CheckCommitted,
        step == PrepStep::CheckPlan && !yes ==> r == PrepStep::PlanNeeded,
        step == PrepStep::CheckCommitted && yes ==> r == PrepStep::CheckPushed,
        step == PrepStep::CheckCommitted && !yes ==> r == PrepStep::Commit,
        step == PrepStep::Commit ==> r == PrepStep::CheckPushed,
        step == PrepStep::CheckPushed && !yes ==> r == PrepStep::Push,
        (step == PrepStep::CheckPushed && yes) || step == PrepStep::Push ==> (pr_known ==> r
            == PrepStep::Complete) && (!pr_known ==> r == PrepStep::FindPr),
        step == PrepStep::FindPr && yes ==> r == PrepStep::Complete,
        step == PrepStep::FindPr && !yes ==> r == PrepStep::OpenPr,
        step == PrepStep::OpenPr || step == PrepStep::Complete ==> r == PrepStep::Complete,
        step == PrepStep::PlanNeeded ==> r == PrepStep::PlanNeeded,
{
}

/// The plan's commit and its draft PR name the issue.
pub proof fn plans_name_their_issue(
    number: u64,
    title: &str,
    url: &str,
    message: String,
    body: String,
)
    requires
        call_ensures(prep::commit_message, (number, title), message),
        call_ensures(prep::draft_body, (number, url), body),
    ensures
        message@ == "Add plan for #"@ + text::decimal(number as nat) + ": "@ + title@,
        body@ == "Plan for #"@ + text::decimal(number as nat) + ".\n\n## Issue\n\n"@ + url@,
{
}

/// What the agent is told of the phase names the place, the branch, the plan and the PR.
pub proof fn prep_is_described(
    agent: &str,
    worktree: &str,
    branch: &str,
    plan: &str,
    url: &str,
    number: u64,
    needed: String,
    complete: String,
    alone: String,
)
    requires
        call_ensures(prep::plan_needed_body, (agent, worktree, branch, plan, number), needed),
        call_ensures(prep::complete_body, (worktree, branch, url, number), complete),
        call_ensures(prep::no_branch_body, (agent, plan), alone),
    ensures
        text::starts_with(
            needed@,
            "Prep-and-plan: worktree ready at `"@ + worktree@ + "` on branch `"@ + branch@
                + "`.\n\nWrite the plan to `"@ + plan@ + "` as a file (do not use "@ + agent@,
        ),
        text::starts_with(
            complete@,
            "Prep-and-plan complete.\n\n- Worktree: `"@ + worktree@ + "`\n- Branch: `"@ + branch@
                + "`\n- Draft PR: "@ + url@,
        ),
        text::starts_with(
            alone@,
            "Prep-and-plan (--no-branch).\n\nWrite the plan to `"@ + plan@
                + "` as a file (do not use "@ + agent@,
        ),
{
    let v = text::decimal(number as nat);
    let a = "Prep-and-plan: worktree ready at `"@ + worktree@ + "` on branch `"@ + branch@
        + "`.\n\nWrite the plan to `"@ + plan@ + "` as a file (do not use "@ + agent@;
    crate::laws::texts::lemma_within(Seq::empty(), a, text::fill(prep::PLAN_NEEDED_TASK@, v));
    let b = "Prep-and-plan complete.\n\n- Worktree: `"@ + worktree@ + "`\n- Branch: `"@ + branch@
        + "`\n- Draft PR: "@ + url@;
    let b1 = text::fill(prep::COMPLETE_TASK@, v);
    let b2 = text::fill(crate::render::WAIT@, v);
    crate::laws::texts::lemma_within(Seq::empty(), b, b1 + b2);
    assert(b + b1 + b2 =~= b + (b1 + b2));
    let c = prep::NO_BRANCH_INTRO@ + plan@ + "` as a file (do not use "@ + agent@;
    crate::laws::texts::lemma_within(Seq::empty(), c, prep::NO_BRANCH_TASK@);
}

} // verus!
