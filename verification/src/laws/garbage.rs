//! What garbage collection deletes.

use vstd::prelude::*;

use crate::collect_garbage::{
    self, Action, BranchFacts, Order, Progress, TreeStatus, Verdict, WorktreeFacts,
};
use crate::config::Config;
use crate::git::{self, Git, Ran};
use crate::laws::commands::{
    blank, came_to, exits, issued, lemma_answered, lemma_found, lemma_probed, lemma_resolved,
    lemma_trim, nth, out, spells, went,
};
use crate::models::BranchPr;
use crate::text;

verus! {

/// A line of a status listing names an untracked file.
pub open spec fn names_untracked(status: Seq<char>) -> bool {
    exists|i: int|
        #![trigger text::lines(status)[i]]
        0 <= i < text::lines(status).len() && text::starts_with(text::lines(status)[i], "??"@)
}

/// From the `n`th command on, a worktree's status was asked for: of tracked files first
/// and, where nothing is changed among them, of all. It is clean only where the first
/// prints nothing and the second names no untracked file.
pub open spec fn status_asked<R: Fn(Vec<String>) -> Ran>(
    after: Git<R>,
    n: int,
    path: Seq<char>,
    s: Result<TreeStatus, String>,
) -> bool {
    &&& n < after.calls().len() <= n + 2
    &&& spells(
        nth(after, n).0,
        seq!["-C"@, path, "status"@, "--porcelain"@, "--untracked-files=no"@],
    )
    &&& !went(nth(after, n).1) ==> s is Err
    &&& went(nth(after, n).1) && !blank(out(nth(after, n).1)) ==> s == Ok::<TreeStatus, String>(
        TreeStatus::TrackedChanges,
    )
    &&& went(nth(after, n).1) && blank(out(nth(after, n).1)) ==> {
        &&& after.calls().len() == n + 2
        &&& spells(nth(after, n + 1).0, seq!["-C"@, path, "status"@, "--porcelain"@])
        &&& !went(nth(after, n + 1).1) ==> s is Err
        &&& went(nth(after, n + 1).1) && names_untracked(out(nth(after, n + 1).1)) ==> s == Ok::<
            TreeStatus,
            String,
        >(TreeStatus::UntrackedOnly)
        &&& went(nth(after, n + 1).1) && !names_untracked(out(nth(after, n + 1).1)) ==> s == Ok::<
            TreeStatus,
            String,
        >(TreeStatus::Clean)
    }
}

proof fn lemma_status<R: Fn(Vec<String>) -> Ran>(
    before: Git<R>,
    after: Git<R>,
    path: Seq<char>,
    s: Result<TreeStatus, String>,
)
    requires
        collect_garbage::status_at(before, after, path, s),
    ensures
        before.calls().is_prefix_of(after.calls()),
        after.function() == before.function(),
        status_asked(after, before.calls().len() as int, path, s),
{
    let (mid, c) = choose|mid: Git<R>, c: Result<bool, String>| #[trigger]
        git::clean_at(before, mid, path, c) && match c {
            Err(e) => after == mid && s == Err::<TreeStatus, String>(e),
            Ok(false) => after == mid && s == Ok::<TreeStatus, String>(TreeStatus::TrackedChanges),
            Ok(true) => exists|u: Result<bool, String>| #[trigger]
                collect_garbage::untracked_at(mid, after, path, u) && match u {
                    Err(e) => s == Err::<TreeStatus, String>(e),
                    Ok(u) => s == Ok::<TreeStatus, String>(collect_garbage::status_of(true, u)),
                },
        };
    let known = seq!["status"@, "--porcelain"@, "--untracked-files=no"@];
    lemma_found(before, mid, path, known, |out: Seq<char>| text::trim(out).len() == 0, c);
    assert(seq!["-C"@, path] + known =~= seq![
        "-C"@,
        path,
        "status"@,
        "--porcelain"@,
        "--untracked-files=no"@,
    ]);
    assert(mid.calls() =~= before.calls().push(mid.calls().last()));
    if went(came_to(mid)) {
        lemma_trim(out(came_to(mid)));
    }
    if c == Ok::<bool, String>(true) {
        let u = choose|u: Result<bool, String>| #[trigger]
            collect_garbage::untracked_at(mid, after, path, u) && match u {
                Err(e) => s == Err::<TreeStatus, String>(e),
                Ok(u) => s == Ok::<TreeStatus, String>(collect_garbage::status_of(true, u)),
            };
        let all = seq!["status"@, "--porcelain"@];
        lemma_found(
            mid,
            after,
            path,
            all,
            |out: Seq<char>| git::any_untracked(text::lines(out)),
            u,
        );
        assert(seq!["-C"@, path] + all =~= seq!["-C"@, path, "status"@, "--porcelain"@]);
        assert(after.calls() =~= mid.calls().push(after.calls().last()));
    }
}

/// What is known of a branch is what git says: its two tips are what its names resolve
/// to, and a worktree that is called clean is one in which both status commands went,
/// the one over tracked files printed nothing, and the other named no untracked file.
pub proof fn a_worktree_is_clean_where_git_says_so<
    R: Fn(Vec<String>) -> Ran,
    P: Fn(String) -> (bool, bool),
>(
    before: Git<R>,
    place: &P,
    repo: &str,
    branch: &str,
    after: Git<R>,
    r: Result<BranchFacts, String>,
)
    requires
        exists|g: &mut Git<R>| #[trigger]
            call_ensures(collect_garbage::gather::<R, P>, (g, place, repo, branch), r) && *g
                == before && *final(g) == after,
    ensures
        ({
            let n = before.calls().len() as int;
            &&& before.calls().is_prefix_of(after.calls())
            &&& n + 1 < after.calls().len()
            &&& spells(
                nth(after, n).0,
                seq![
                    "-C"@,
                    repo@,
                    "rev-parse"@,
                    "--verify"@,
                    "--quiet"@,
                    "refs/heads/"@ + branch@,
                ],
            )
            &&& spells(
                nth(after, n + 1).0,
                seq![
                    "-C"@,
                    repo@,
                    "rev-parse"@,
                    "--verify"@,
                    "--quiet"@,
                    "refs/remotes/origin/"@ + branch@,
                ],
            )
            &&& r is Ok ==> {
                let f = r->Ok_0;
                &&& f.local_tip is Some <==> went(nth(after, n).1)
                &&& f.local_tip is Some ==> f.local_tip->0@ == text::trim(out(nth(after, n).1))
                &&& f.remote_tip is Some <==> went(nth(after, n + 1).1)
                &&& f.remote_tip is Some ==> f.remote_tip->0@ == text::trim(
                    out(nth(after, n + 1).1),
                )
                &&& f.local_tip is None ==> f.worktree is None
                &&& f.local_tip is Some ==> {
                    &&& n + 2 < after.calls().len()
                    &&& spells(
                        nth(after, n + 2).0,
                        seq!["-C"@, repo@, "worktree"@, "list"@, "--porcelain"@],
                    )
                    &&& went(nth(after, n + 2).1)
                }
                &&& f.worktree is Some ==> {
                    let wt = f.worktree->0;
                    &&& git::worktree_of(out(nth(after, n + 2).1), branch@) == Some(wt.path@)
                    &&& status_asked(after, n + 3, wt.path@, Ok(wt.status))
                    &&& wt.status == TreeStatus::Clean ==> after.calls().len() == n + 5 && went(
                        nth(after, n + 3).1,
                    ) && blank(out(nth(after, n + 3).1)) && went(nth(after, n + 4).1)
                        && !names_untracked(out(nth(after, n + 4).1))
                    &&& collect_garbage::is_placed(
                        place,
                        wt.path@,
                        wt.is_main,
                        wt.contains_cwd,
                    )
                }
                &&& f.local_tip is Some && f.worktree is None ==> git::worktree_of(
                    out(nth(after, n + 2).1),
                    branch@,
                ) is None
            }
        }),
{
    let n = before.calls().len() as int;
    let heads = "refs/heads/"@;
    let remotes = "refs/remotes/origin/"@;
    let (one, local, two, remote, w) = choose|
        one: Git<R>,
        local: Option<Seq<char>>,
        two: Git<R>,
        remote: Option<Seq<char>>,
        w: Result<Option<WorktreeFacts>, String>,
    |
        #![trigger
            collect_garbage::tip_of(before, one, repo@, heads, branch@, local),
            collect_garbage::tip_of(one, two, repo@, remotes, branch@, remote),
            collect_garbage::looked_for(two, after, place, repo@, branch@, local, w)]
        {
            &&& collect_garbage::tip_of(before, one, repo@, heads, branch@, local)
            &&& collect_garbage::tip_of(one, two, repo@, remotes, branch@, remote)
            &&& collect_garbage::looked_for(two, after, place, repo@, branch@, local, w)
            &&& match w {
                Ok(worktree) => r is Ok && r->Ok_0.worktree == worktree && git::sha_seen(
                    r->Ok_0.local_tip,
                ) == local && git::sha_seen(r->Ok_0.remote_tip) == remote,
                Err(e) => r == Err::<BranchFacts, String>(e),
            }
        };
    lemma_resolved(before, one, repo@, heads + branch@, local);
    assert(one.calls() =~= before.calls().push(one.calls().last()));
    lemma_resolved(one, two, repo@, remotes + branch@, remote);
    assert(two.calls() =~= one.calls().push(two.calls().last()));
    if local is Some {
        let (mid, at) = choose|mid: Git<R>, at: Result<Option<String>, String>| #[trigger]
            git::checked_out_at(two, mid, repo@, branch@, at) && match at {
                Err(e) => after == mid && w == Err::<Option<WorktreeFacts>, String>(e),
                Ok(None) => after == mid && w == Ok::<Option<WorktreeFacts>, String>(None),
                Ok(Some(path)) => exists|s: Result<TreeStatus, String>| #[trigger]
                    collect_garbage::status_at(mid, after, path@, s) && match s {
                        Err(e) => w == Err::<Option<WorktreeFacts>, String>(e),
                        Ok(status) => w is Ok && w->Ok_0 is Some && w->Ok_0->0.path@ == path@
                            && w->Ok_0->0.status == status && collect_garbage::is_placed(
                            place,
                            path@,
                            w->Ok_0->0.is_main,
                            w->Ok_0->0.contains_cwd,
                        ),
                    },
            };
        let list = seq!["worktree"@, "list"@, "--porcelain"@];
        let a = lemma_answered(
            two,
            mid,
            repo@,
            list,
            |a: Result<Seq<char>, Seq<char>>|
                git::optional(a, |out: Seq<char>| git::worktree_of(out, branch@), at),
        );
        assert(seq!["-C"@, repo@] + list =~= seq![
            "-C"@,
            repo@,
            "worktree"@,
            "list"@,
            "--porcelain"@,
        ]);
        assert(mid.calls() =~= two.calls().push(mid.calls().last()));
        if at is Ok && at->Ok_0 is Some {
            let path = at->Ok_0->0;
            let s = choose|s: Result<TreeStatus, String>| #[trigger]
                collect_garbage::status_at(mid, after, path@, s) && match s {
                    Err(e) => w == Err::<Option<WorktreeFacts>, String>(e),
                    Ok(status) => w is Ok && w->Ok_0 is Some && w->Ok_0->0.path@ == path@
                        && w->Ok_0->0.status == status && collect_garbage::is_placed(
                        place,
                        path@,
                        w->Ok_0->0.is_main,
                        w->Ok_0->0.contains_cwd,
                    ),
                };
            lemma_status(mid, after, path@, s);
            assert(nth(after, n) == nth(mid, n));
            assert(nth(after, n + 1) == nth(mid, n + 1));
            assert(nth(after, n + 2) == nth(mid, n + 2));
            if w is Ok {
                assert(s == Ok::<TreeStatus, String>(w->Ok_0->0.status));
            }
        }
    }
}

/// Nothing is deleted that could be lost. A side of the branch goes only where the
/// merge has landed and its tip is the one that was merged; a worktree only with its
/// branch, and only where it is clean, is not the main one, and does not hold the
/// current directory; and a branch stays while its worktree does. What can go goes.
pub proof fn only_merged_and_clean_work_goes(
    branch: &str,
    facts: &BranchFacts,
    merged_tip: &str,
    landed: bool,
    v: Verdict,
)
    requires
        call_ensures(collect_garbage::classify, (branch, facts, merged_tip, landed), v),
    ensures
        v.delete_remote <==> landed && facts.remote_tip is Some && facts.remote_tip->0@
            == merged_tip@,
        v.delete_local ==> landed && facts.local_tip is Some && facts.local_tip->0@ == merged_tip@,
        v.remove_worktree ==> v.delete_local && facts.worktree is Some && facts.worktree->0.status
            == TreeStatus::Clean && !facts.worktree->0.is_main && !facts.worktree->0.contains_cwd,
        v.delete_local && facts.worktree is Some ==> v.remove_worktree,
        landed && facts.local_tip is Some && facts.local_tip->0@ == merged_tip@ && (
        facts.worktree is None || (facts.worktree->0.status == TreeStatus::Clean
            && !facts.worktree->0.is_main && !facts.worktree->0.contains_cwd)) ==> v.delete_local,
        v.delete_state ==> landed && (facts.local_tip is Some ==> v.delete_local) && (
        facts.remote_tip is Some ==> v.delete_remote) && (facts.worktree is Some
            ==> v.remove_worktree),
        landed && (facts.local_tip is Some ==> v.delete_local) && (facts.remote_tip is Some
            ==> v.delete_remote) && (facts.worktree is Some ==> v.remove_worktree)
            ==> v.delete_state,
        !landed ==> v.warnings@.len() == 1,
        landed && facts.remote_tip is Some && !v.delete_remote ==> v.warnings@.len() > 0,
        landed && facts.local_tip is Some && !v.delete_local ==> v.warnings@.len() > 0,
        landed && (facts.remote_tip is Some ==> v.delete_remote) && (facts.local_tip is Some
            ==> v.delete_local) ==> v.warnings@.len() == 0,
{
    assert(text::views(v.warnings@).len() == v.warnings@.len());
}

/// The warning about a branch that stays says why: the merge has not landed, a side
/// differs from what was merged, or its worktree is the main one, holds the current
/// directory, has untracked files or has changes.
pub proof fn what_stays_is_explained(
    branch: &str,
    facts: &BranchFacts,
    merged_tip: &str,
    landed: bool,
    v: Verdict,
)
    requires
        call_ensures(collect_garbage::classify, (branch, facts, merged_tip, landed), v),
        landed,
        facts.remote_tip is None,
        facts.local_tip is Some,
    ensures
        facts.local_tip->0@ == merged_tip@ && facts.worktree is Some && !facts.worktree->0.is_main
            && !facts.worktree->0.contains_cwd && facts.worktree->0.status
            == TreeStatus::TrackedChanges ==> v.warnings@.len() == 1 && v.warnings@[0]@
            == "worktree `"@ + facts.worktree->0.path@
            + "` has working tree changes; keeping the worktree and branch `"@ + branch@ + "`"@,
        facts.local_tip->0@ == merged_tip@ && facts.worktree is Some && !facts.worktree->0.is_main
            && !facts.worktree->0.contains_cwd && facts.worktree->0.status
            == TreeStatus::UntrackedOnly ==> v.warnings@.len() == 1 && v.warnings@[0]@
            == "worktree `"@ + facts.worktree->0.path@
            + "` has untracked files; keeping the worktree and branch `"@ + branch@ + "`"@,
{
    assert(text::views(v.warnings@).len() == v.warnings@.len());
    if v.warnings@.len() > 0 {
        assert(text::views(v.warnings@)[0] == v.warnings@[0]@);
    }
    let none = Seq::<Seq<char>>::empty();
    assert(collect_garbage::remote_warnings(branch@, *facts, merged_tip@) =~= none);
}

/// A PR has landed where its merge commit is on the default branch, as origin has it.
pub proof fn a_merge_has_landed_on_the_remote_default<R: Fn(Vec<String>) -> Ran>(
    before: Git<R>,
    repo: &str,
    pr: &BranchPr,
    default: &str,
    after: Git<R>,
    r: bool,
)
    requires
        exists|g: &mut Git<R>| #[trigger]
            call_ensures(collect_garbage::merge_landed::<R>, (g, repo, pr, default), r) && *g
                == before && *final(g) == after,
    ensures
        pr.merge_commit is None ==> !r && after == before,
        pr.merge_commit is Some ==> issued(
            before,
            after,
            seq![
                "-C"@,
                repo@,
                "merge-base"@,
                "--is-ancestor"@,
                pr.merge_commit->0.oid@,
                "refs/remotes/origin/"@ + default@,
            ],
        ) && (r <==> exits(came_to(after), 0)),
{
    if pr.merge_commit is Some {
        let words = seq![
            "merge-base"@,
            "--is-ancestor"@,
            pr.merge_commit->0.oid@,
            "refs/remotes/origin/"@ + default@,
        ];
        lemma_probed(before, after, repo@, words, r);
        assert(seq!["-C"@, repo@] + words =~= seq![
            "-C"@,
            repo@,
            "merge-base"@,
            "--is-ancestor"@,
            pr.merge_commit->0.oid@,
            "refs/remotes/origin/"@ + default@,
        ]);
    }
}

proof fn lemma_latest(prs: Seq<BranchPr>, count: int)
    requires
        0 <= count <= prs.len(),
    ensures
        ({
            let at = collect_garbage::latest_merged(prs, count);
            &&& at < count
            &&& at < 0 ==> forall|i: int|
                0 <= i < count ==> (#[trigger] prs[i]).state@ != "MERGED"@
            &&& at >= 0 ==> prs[at].state@ == "MERGED"@ && forall|i: int|
                0 <= i < count && (#[trigger] prs[i]).state@ == "MERGED"@ ==> prs[i].number
                    <= prs[at].number
        }),
    decreases count,
{
    if count > 0 {
        lemma_latest(prs, count - 1);
    }
}

/// A branch is judged by its merged PR of the largest number, and not at all while one
/// of its PRs is open.
pub proof fn a_branch_is_judged_by_its_latest_merged_pr(
    prs: &[BranchPr],
    r: Option<&BranchPr>,
    k: int,
)
    requires
        call_ensures(collect_garbage::pick_merged_pr, (prs,), r),
        0 <= k < prs@.len(),
    ensures
        prs@[k].state@ == "OPEN"@ ==> r is None,
        r is Some ==> prs@.contains(*r->0) && r->0.state@ == "MERGED"@,
        r is Some && prs@[k].state@ == "MERGED"@ ==> prs@[k].number <= r->0.number,
        prs@[k].state@ == "MERGED"@ && r is None ==> exists|i: int|
            0 <= i < prs@.len() && (#[trigger] prs@[i]).state@ == "OPEN"@,
{
    lemma_latest(prs@, prs@.len() as int);
    let at = collect_garbage::latest_merged(prs@, prs@.len() as int);
    if r is Some {
        assert(prs@[at] == *r->0);
    }
}

/// Deletions come in this order: the worktree, the local branch, the remote branch, the
/// recorded state. One that failed keeps what depends on it: the branch of a worktree
/// that is still there, and the state of a branch of which anything is. Each is tried
/// once, and under a dry run none is carried out.
pub proof fn deletions_depend_on_one_another(
    v: &Verdict,
    p: Progress,
    dry_run: bool,
    r: Option<Order>,
)
    requires
        call_ensures(collect_garbage::execute, (v, p, dry_run), r),
    ensures
        v.remove_worktree && p.worktree is None ==> r == Some(
            if dry_run {
                Order::Describe(Action::RemoveWorktree)
            } else {
                Order::CarryOut(Action::RemoveWorktree)
            },
        ),
        r matches Some(Order::CarryOut(_)) ==> !dry_run,
        r matches Some(Order::Describe(_)) ==> dry_run,
        r matches Some(o) ==> {
            let action = match o {
                Order::Describe(a) => a,
                Order::CarryOut(a) => a,
            };
            &&& action == Action::RemoveWorktree ==> v.remove_worktree && p.worktree is None
            &&& action == Action::DeleteLocal ==> v.delete_local && p.local is None && p.worktree
                != Some(false) && !(v.remove_worktree && p.worktree is None)
            &&& action == Action::DeleteRemote ==> v.delete_remote && p.remote is None
            &&& action == Action::DeleteState ==> v.delete_state && p.state is None && p.worktree
                != Some(false) && p.local != Some(false) && p.remote != Some(false)
                && !(v.delete_local && p.local is None) && !(v.delete_remote && p.remote is None)
                && !(v.remove_worktree && p.worktree is None)
        },
        r is None ==> !(v.remove_worktree && p.worktree is None) && !(v.delete_remote
            && p.remote is None) && !(v.delete_local && p.local is None && p.worktree != Some(
            false,
        )) && !(v.delete_state && p.state is None && p.worktree != Some(false) && p.local != Some(
            false,
        ) && p.remote != Some(false)),
{
}

/// What was tried is noted, and nothing else.
pub proof fn tries_are_noted(p: Progress, action: Action, ok: bool, r: Progress)
    requires
        call_ensures(Progress::note, (p, action, ok), r),
    ensures
        r.worktree == (if action == Action::RemoveWorktree {
            Some(ok)
        } else {
            p.worktree
        }),
        r.local == (if action == Action::DeleteLocal {
            Some(ok)
        } else {
            p.local
        }),
        r.remote == (if action == Action::DeleteRemote {
            Some(ok)
        } else {
            p.remote
        }),
        r.state == (if action == Action::DeleteState {
            Some(ok)
        } else {
            p.state
        }),
{
}

/// A run by itself is due where none was made yet, or the interval has passed; a clock
/// that went back makes none due.
pub proof fn runs_are_due_after_the_interval(
    config: &Config,
    last: Option<u64>,
    now: u64,
    secs: u64,
    due: bool,
    r: bool,
)
    requires
        call_ensures(collect_garbage::is_due, (last, now, secs), due),
        call_ensures(collect_garbage::run_periodic, (config, last, now), r),
    ensures
        last is None ==> due,
        last is Some ==> (due <==> last->0 + secs <= now),
        !config.auto_collect_garbage ==> !r,
        config.auto_collect_garbage && last is None ==> r,
        r && last is Some ==> now >= last->0,
        config.auto_collect_garbage && last is Some
            && config.auto_collect_garbage_interval_hours * 3600 <= u64::MAX ==> (r <==> last->0
            + config.auto_collect_garbage_interval_hours * 3600 <= now),
{
}

/// The branches that are judged are the local ones and those of origin, but for the
/// default branch, each once.
pub proof fn every_branch_but_the_default_is_judged(
    local: &Vec<String>,
    remote: &Vec<String>,
    default: &str,
    r: Vec<String>,
    name: Seq<char>,
)
    requires
        call_ensures(collect_garbage::candidates, (local, remote, default), r),
    ensures
        (exists|i: int| 0 <= i < r@.len() && (#[trigger] r@[i])@ == name) <==> name != default@ && (
        (exists|i: int| 0 <= i < local@.len() && (#[trigger] local@[i])@ == name) || (exists|
            i: int,
        |
            0 <= i < remote@.len() && (#[trigger] remote@[i])@ == name)),
        forall|i: int, j: int|
            0 <= i < j < r@.len() ==> (#[trigger] r@[i])@ != (#[trigger] r@[j])@,
{
    assert(text::listed(r@, name) == ((text::listed(local@, name) || text::listed(remote@, name))
        && name != default@));
}

/// The time of the last run is read back as it was written.
pub proof fn the_last_run_is_read_back(now: u64, written: String, content: &str, r: Option<u64>)
    requires
        call_ensures(collect_garbage::stamp_last_run, (now,), written),
        content@ == written@,
        call_ensures(collect_garbage::read_last_run, (content,), r),
    ensures
        r == Some(now),
{
    crate::laws::texts::lemma_decimal_solid(now as nat);
    crate::laws::texts::lemma_parse_decimal(now);
}

/// Every deletion is told by what it was of; a dry run says what would be done, and a
/// failure that it was not.
pub proof fn deletions_are_told(
    action: Action,
    branch: &str,
    path: &str,
    number: u64,
    dry_run: bool,
    told: String,
    failed: String,
)
    requires
        call_ensures(collect_garbage::describe, (action, branch, path, number, dry_run), told),
        call_ensures(collect_garbage::describe_failure, (action, branch, path, number), failed),
    ensures
        action is RemoveWorktree ==> told@ == (if dry_run {
            "would remove "@
        } else {
            "removed "@
        }) + ("worktree `"@ + path@ + "`"@) && failed@ == "warning: failed to remove "@ + (
        "worktree `"@ + path@ + "`"@),
        action is DeleteLocal ==> told@ == (if dry_run {
            "would delete "@
        } else {
            "deleted "@
        }) + ("local branch `"@ + branch@ + "`"@) && failed@ == "warning: failed to delete "@ + (
        "local branch `"@ + branch@ + "`"@),
        action is DeleteRemote ==> told@ == (if dry_run {
            "would delete "@
        } else {
            "deleted "@
        }) + ("remote branch `origin/"@ + branch@ + "`"@) && failed@
            == "warning: failed to delete "@ + ("remote branch `origin/"@ + branch@ + "`"@),
        action is DeleteState ==> told@ == (if dry_run {
            "would remove "@
        } else {
            "removed "@
        }) + ("ghwf state for issue #"@ + text::decimal(number as nat)) && failed@
            == "warning: failed to remove "@ + ("ghwf state for issue #"@ + text::decimal(
            number as nat,
        )),
{
}

/// Nothing is said only where nothing is deleted and nothing is warned of. A tree is
/// clean only where git finds neither a change nor an untracked file. The time of the
/// last run is kept for each repository.
pub proof fn only_nothing_is_passed_over(
    verdict: &Verdict,
    quiet: bool,
    tracked_clean: bool,
    has_untracked: bool,
    status: TreeStatus,
    data: &str,
    owner: &str,
    repo: &str,
    path: String,
)
    requires
        call_ensures(collect_garbage::is_quiet, (verdict,), quiet),
        call_ensures(collect_garbage::tree_status, (tracked_clean, has_untracked), status),
        call_ensures(collect_garbage::last_run_path, (data, owner, repo), path),
    ensures
        quiet <==> !verdict.remove_worktree && !verdict.delete_local && !verdict.delete_remote
            && verdict.warnings@.len() == 0,
        status is Clean <==> tracked_clean && !has_untracked,
        status is TrackedChanges <==> !tracked_clean,
        path@ == data@ + "/gc/"@ + owner@ + "/"@ + repo@ + "/last-run"@,
{
}

} // verus!
