//! Deleting the branches and worktrees that merged PRs leave behind.

use vstd::prelude::*;

use crate::config::Config;
use crate::git::{self, Git, Ran};
use crate::models::BranchPr;
use crate::text;

verus! {

/// Whether an automatic run is due.
pub open spec fn due(last_run: Option<u64>, now: u64, interval_secs: u64) -> bool {
    match last_run {
        None => true,
        Some(last) => now >= last && now - last >= interval_secs,
    }
}

/// Whether an automatic garbage collection is due, given the last run time, the
/// current time, and the minimum gap. Never run: due. Clock skew (`now` before
/// the last run): not due.
pub fn is_due(last_run: Option<u64>, now: u64, interval_secs: u64) -> (r: bool)
    ensures
        r == due(last_run, now, interval_secs),
{
    match last_run {
        None => true,
        Some(last) => now >= last && now - last >= interval_secs,
    }
}

/// The minimum gap between two automatic runs, in seconds.
pub open spec fn interval(hours: u64) -> u64 {
    if hours * 3600 <= u64::MAX {
        (hours * 3600) as u64
    } else {
        u64::MAX
    }
}

/// Whether garbage is to be collected automatically now: the repo has opted in,
/// and at least the configured interval has elapsed since the last automatic run.
pub fn run_periodic(config: &Config, last_run: Option<u64>, now: u64) -> (r: bool)
    ensures
        r == (config.auto_collect_garbage && due(
            last_run,
            now,
            interval(config.auto_collect_garbage_interval_hours),
        )),
{
    if !config.auto_collect_garbage {
        return false;
    }
    let hours: u64 = config.auto_collect_garbage_interval_hours;
    let secs: u64 = match hours.checked_mul(3600) {
        Some(secs) => secs,
        None => u64::MAX,
    };
    is_due(last_run, now, secs)
}

/// The path to the per-repo timestamp recording the last automatic run.
pub fn last_run_path(data_dir: &str, owner: &str, repo: &str) -> (r: String)
    ensures
        r@ == data_dir@ + "/gc/"@ + owner@ + "/"@ + repo@ + "/last-run"@,
{
    let mut out = text::copy(data_dir);
    out.append("/gc/");
    out.append(owner);
    out.append("/");
    out.append(repo);
    out.append("/last-run");
    out
}

/// The timestamp of the last automatic run, from what its file holds; `None`
/// where that is garbled.
pub fn read_last_run(content: &str) -> (r: Option<u64>)
    ensures
        r == text::parse(text::trim(content@)),
{
    text::parse_number(text::trimmed(content).as_str())
}

/// What the file holds that records a run.
pub fn stamp_last_run(now: u64) -> (r: String)
    ensures
        r@ == text::decimal(now as nat),
{
    text::number(now)
}

/// Put each name in its place, but for the default branch.
fn put_all(names: &mut Vec<String>, more: &Vec<String>, default: &str)
    requires
        text::rising(old(names)@),
    ensures
        text::rising(final(names)@),
        forall|s: Seq<char>| #[trigger]
            text::listed(final(names)@, s) == (text::listed(old(names)@, s) || (text::listed(
                more@,
                s,
            ) && s != default@)),
{
    let ghost before = names@;
    let mut i: usize = 0;
    while i < more.len()
        invariant
            i <= more.len(),
            text::rising(names@),
            forall|s: Seq<char>| #[trigger]
                text::listed(names@, s) == (text::listed(before, s) || (text::listed(
                    more@.take(i as int),
                    s,
                ) && s != default@)),
        decreases more.len() - i,
    {
        let ghost held = names@;
        if !text::same(more[i].as_str(), default) {
            text::put_in_order(names, more[i].as_str());
        }
        proof {
            let now = more@.take(i + 1);
            let past = more@.take(i as int);
            assert forall|s: Seq<char>| #[trigger] text::listed(names@, s) == (text::listed(
                before,
                s,
            ) || (text::listed(now, s) && s != default@)) by {
                assert(text::listed(held, s) == (text::listed(before, s) || (text::listed(past, s)
                    && s != default@)));
                assert(now[i as int]@ == more@[i as int]@);
                if text::listed(past, s) {
                    let k = choose|k: int| 0 <= k < past.len() && (#[trigger] past[k])@ == s;
                    assert(now[k]@ == s);
                }
                if text::listed(now, s) && s != more@[i as int]@ {
                    let k = choose|k: int| 0 <= k < now.len() && (#[trigger] now[k])@ == s;
                    assert(past[k]@ == s);
                }
            }
        }
        i = i + 1;
    }
    assert(more@.take(more@.len() as int) =~= more@);
}

/// The branches to judge: every local and origin branch except the default
/// branch, each once, in order.
pub fn candidates(local: &Vec<String>, remote: &Vec<String>, default: &str) -> (r: Vec<String>)
    ensures
        text::rising(r@),
        forall|s: Seq<char>| #[trigger]
            text::listed(r@, s) == ((text::listed(local@, s) || text::listed(remote@, s)) && s
                != default@),
{
    let mut out: Vec<String> = Vec::new();
    put_all(&mut out, local, default);
    put_all(&mut out, remote, default);
    out
}

/// Some PR is still open.
pub open spec fn any_open(prs: Seq<BranchPr>) -> bool {
    exists|i: int| 0 <= i < prs.len() && (#[trigger] prs[i]).state@ == "OPEN"@
}

/// The position of the last merged PR with the largest number, or -1.
pub open spec fn latest_merged(prs: Seq<BranchPr>, count: int) -> int
    decreases count,
{
    if count <= 0 {
        -1
    } else {
        let before = latest_merged(prs, count - 1);
        if prs[count - 1].state@ == "MERGED"@ && (before < 0 || prs[count - 1].number
            >= prs[before].number) {
            count - 1
        } else {
            before
        }
    }
}

/// The merged PR to judge a branch against: the latest-numbered merged one.
/// `None` when any PR is still open (the branch is active work, not garbage) or
/// when none was ever merged.
pub fn pick_merged_pr<'a>(prs: &'a [BranchPr]) -> (r: Option<&'a BranchPr>)
    ensures
        match r {
            Some(pr) => !any_open(prs@) && 0 <= latest_merged(prs@, prs@.len() as int)
                < prs@.len() && *pr == prs@[latest_merged(prs@, prs@.len() as int)],
            None => any_open(prs@) || latest_merged(prs@, prs@.len() as int) < 0,
        },
{
    let mut best: Option<usize> = None;
    let mut i: usize = 0;
    while i < prs.len()
        invariant
            i <= prs.len(),
            forall|k: int| 0 <= k < i ==> (#[trigger] prs@[k]).state@ != "OPEN"@,
            match best {
                Some(at) => at < i && at == latest_merged(prs@, i as int),
                None => latest_merged(prs@, i as int) < 0,
            },
        decreases prs.len() - i,
    {
        if text::same(prs[i].state.as_str(), "OPEN") {
            assert(prs@[i as int].state@ == "OPEN"@);
            return None;
        }
        if text::same(prs[i].state.as_str(), "MERGED") {
            let better = match best {
                Some(at) => prs[i].number >= prs[at].number,
                None => true,
            };
            if better {
                best = Some(i);
            }
        }
        i = i + 1;
    }
    match best {
        Some(at) => Some(&prs[at]),
        None => None,
    }
}

/// The observed state of one candidate branch, gathered up front so the
/// decision in [`classify`] is pure data-in, data-out.
pub struct BranchFacts {
    pub local_tip: Option<String>,
    pub remote_tip: Option<String>,
    pub worktree: Option<WorktreeFacts>,
}

/// The observed state of a candidate branch's worktree.
pub struct WorktreeFacts {
    pub path: String,
    pub status: TreeStatus,
    /// The main worktree (the main repo's own checkout) is never removed.
    pub is_main: bool,
    /// Neither is the worktree this command is running inside.
    pub contains_cwd: bool,
}

/// A working tree's cleanliness, as far as removal safety cares.
#[derive(Clone, Copy, Debug, PartialEq, Eq, Structural)]
pub enum TreeStatus {
    Clean,
    /// No changes to tracked files, but untracked files present: git would
    /// refuse the removal, and they may be unsaved work.
    UntrackedOnly,
    TrackedChanges,
}

/// A working tree's status, from what git says of its tracked files and of
/// untracked ones.
pub open spec fn status_of(tracked_clean: bool, has_untracked: bool) -> TreeStatus {
    if !tracked_clean {
        TreeStatus::TrackedChanges
    } else if has_untracked {
        TreeStatus::UntrackedOnly
    } else {
        TreeStatus::Clean
    }
}

/// A working tree's status, from what git says of its tracked files and of
/// untracked ones.
pub fn tree_status(tracked_clean: bool, has_untracked: bool) -> (r: TreeStatus)
    ensures
        r == status_of(tracked_clean, has_untracked),
{
    if !tracked_clean {
        TreeStatus::TrackedChanges
    } else if has_untracked {
        TreeStatus::UntrackedOnly
    } else {
        TreeStatus::Clean
    }
}

/// The tip of a branch under `prefix`, where there is one.
pub open spec fn tip_of<R: Fn(Vec<String>) -> Ran>(
    before: Git<R>,
    after: Git<R>,
    repo: Seq<char>,
    prefix: Seq<char>,
    branch: Seq<char>,
    tip: Option<Seq<char>>,
) -> bool {
    git::resolved(before, after, repo, prefix + branch, tip)
}

/// `u` says whether there are untracked files at `path`.
pub open spec fn untracked_at<R: Fn(Vec<String>) -> Ran>(
    before: Git<R>,
    after: Git<R>,
    path: Seq<char>,
    u: Result<bool, String>,
) -> bool {
    git::found(
        before,
        after,
        path,
        seq!["status"@, "--porcelain"@],
        |out: Seq<char>| git::any_untracked(text::lines(out)),
        u,
    )
}

/// `s` is how clean the working tree at `path` is. Untracked files are looked for
/// only where nothing tracked has changed.
pub open spec fn status_at<R: Fn(Vec<String>) -> Ran>(
    before: Git<R>,
    after: Git<R>,
    path: Seq<char>,
    s: Result<TreeStatus, String>,
) -> bool {
    exists|mid: Git<R>, c: Result<bool, String>| #[trigger]
        git::clean_at(before, mid, path, c) && match c {
            Err(e) => after == mid && s == Err::<TreeStatus, String>(e),
            Ok(false) => after == mid && s == Ok::<TreeStatus, String>(TreeStatus::TrackedChanges),
            Ok(true) => exists|u: Result<bool, String>| #[trigger]
                untracked_at(mid, after, path, u) && match u {
                    Err(e) => s == Err::<TreeStatus, String>(e),
                    Ok(u) => s == Ok::<TreeStatus, String>(status_of(true, u)),
                },
        }
}

/// How clean the working tree at `path` is.
fn inspect<R: Fn(Vec<String>) -> Ran>(git: &mut Git<R>, path: &str) -> (r: Result<
    TreeStatus,
    String,
>)
    requires
        old(git).ready(),
    ensures
        status_at(*old(git), *final(git), path@, r),
{
    let clean = git::is_tree_clean(git, path);
    let ghost mid = *git;
    assert(git::clean_at(*old(git), mid, path@, clean));
    match clean {
        Err(e) => Err(e),
        Ok(false) => Ok(TreeStatus::TrackedChanges),
        Ok(true) => {
            let untracked = git::has_untracked_files(git, path);
            assert(untracked_at(mid, *git, path@, untracked));
            match untracked {
                Err(e) => Err(e),
                Ok(has_untracked) => Ok(tree_status(true, has_untracked)),
            }
        },
    }
}

/// `r` holds what is known of the branch's worktree, if it has one.
pub open spec fn worktree_gathered<R: Fn(Vec<String>) -> Ran, P: Fn(String) -> (bool, bool)>(
    before: Git<R>,
    after: Git<R>,
    place: &P,
    repo: Seq<char>,
    branch: Seq<char>,
    r: Result<Option<WorktreeFacts>, String>,
) -> bool {
    exists|mid: Git<R>, w: Result<Option<String>, String>| #[trigger]
        git::checked_out_at(before, mid, repo, branch, w) && match w {
            Err(e) => after == mid && r == Err::<Option<WorktreeFacts>, String>(e),
            Ok(None) => after == mid && r == Ok::<Option<WorktreeFacts>, String>(None),
            Ok(Some(path)) => exists|s: Result<TreeStatus, String>| #[trigger]
                status_at(mid, after, path@, s) && match s {
                    Err(e) => r == Err::<Option<WorktreeFacts>, String>(e),
                    Ok(status) => r is Ok && r->Ok_0 is Some && r->Ok_0->0.path@ == path@
                        && r->Ok_0->0.status == status && is_placed(
                        place,
                        path@,
                        r->Ok_0->0.is_main,
                        r->Ok_0->0.contains_cwd,
                    ),
                },
        }
}

/// What can be said of where a worktree is: whether it is the main one, and whether
/// it contains the current directory.
pub open spec fn is_placed<P: Fn(String) -> (bool, bool)>(
    place: &P,
    path: Seq<char>,
    is_main: bool,
    contains_cwd: bool,
) -> bool {
    exists|p: String|
        p@ == path && #[trigger] call_ensures(place, (p,), (is_main, contains_cwd))
}

/// What is known of the branch's worktree, if it has one.
fn gather_worktree<R: Fn(Vec<String>) -> Ran, P: Fn(String) -> (bool, bool)>(
    git: &mut Git<R>,
    place: &P,
    repo: &str,
    branch: &str,
) -> (r: Result<Option<WorktreeFacts>, String>)
    requires
        old(git).ready(),
        forall|p: String| #[trigger] call_requires(place, (p,)),
    ensures
        worktree_gathered(*old(git), *final(git), place, repo@, branch@, r),
{
    let at = git::branch_worktree(git, repo, branch);
    let ghost mid = *git;
    assert(git::checked_out_at(*old(git), mid, repo@, branch@, at));
    let path = match at {
        Err(e) => {
            let failed: Result<Option<WorktreeFacts>, String> = Err(e);
            assert(at == Err::<Option<String>, String>(e));
            return failed;
        },
        Ok(None) => {
            return Ok(None);
        },
        Ok(Some(path)) => path,
    };
    let status = inspect(git, path.as_str());
    assert(status_at(mid, *git, path@, status));
    match status {
        Err(e) => Err(e),
        Ok(status) => {
            let copy = text::copy(path.as_str());
            let ghost asked = copy;
            let (is_main, contains_cwd) = place(copy);
            assert(asked@ == path@);
            assert(call_ensures(place, (asked,), (is_main, contains_cwd)));
            Ok(Some(WorktreeFacts { path, status, is_main, contains_cwd }))
        },
    }
}

/// `w` holds what is known of the worktree: only a local branch can be checked out
/// somewhere.
pub open spec fn looked_for<R: Fn(Vec<String>) -> Ran, P: Fn(String) -> (bool, bool)>(
    before: Git<R>,
    after: Git<R>,
    place: &P,
    repo: Seq<char>,
    branch: Seq<char>,
    local: Option<Seq<char>>,
    w: Result<Option<WorktreeFacts>, String>,
) -> bool {
    if local is None {
        after == before && w == Ok::<Option<WorktreeFacts>, String>(None)
    } else {
        worktree_gathered(before, after, place, repo, branch, w)
    }
}

/// Collect a branch's local tip, remote tip, and worktree state. Only a local branch
/// can be checked out somewhere. `place` tells of a worktree's path whether it is the
/// main one, and whether it contains the current directory.
pub fn gather<R: Fn(Vec<String>) -> Ran, P: Fn(String) -> (bool, bool)>(
    git: &mut Git<R>,
    place: &P,
    repo: &str,
    branch: &str,
) -> (r: Result<BranchFacts, String>)
    requires
        old(git).ready(),
        forall|p: String| #[trigger] call_requires(place, (p,)),
    ensures
        exists|
            one: Git<R>,
            local: Option<Seq<char>>,
            two: Git<R>,
            remote: Option<Seq<char>>,
            w: Result<Option<WorktreeFacts>, String>,
        |
            #![trigger
                tip_of(*old(git), one, repo@, "refs/heads/"@, branch@, local),
                tip_of(one, two, repo@, "refs/remotes/origin/"@, branch@, remote),
                looked_for(two, *final(git), place, repo@, branch@, local, w)]
            {
                &&& tip_of(*old(git), one, repo@, "refs/heads/"@, branch@, local)
                &&& tip_of(one, two, repo@, "refs/remotes/origin/"@, branch@, remote)
                &&& looked_for(two, *final(git), place, repo@, branch@, local, w)
                &&& match w {
                    Ok(worktree) => r is Ok && r->Ok_0.worktree == worktree && git::sha_seen(
                        r->Ok_0.local_tip,
                    ) == local && git::sha_seen(r->Ok_0.remote_tip) == remote,
                    Err(e) => r == Err::<BranchFacts, String>(e),
                }
            },
{
    let mut local_ref = text::copy("refs/heads/");
    local_ref.append(branch);
    let local_tip = git::rev_parse_ok(git, repo, local_ref.as_str());
    let ghost one = *git;
    let ghost local = git::sha_seen(local_tip);
    assert(tip_of(*old(git), one, repo@, "refs/heads/"@, branch@, local));
    let mut remote_ref = text::copy("refs/remotes/origin/");
    remote_ref.append(branch);
    let remote_tip = git::rev_parse_ok(git, repo, remote_ref.as_str());
    let ghost two = *git;
    let ghost remote = git::sha_seen(remote_tip);
    assert(tip_of(one, two, repo@, "refs/remotes/origin/"@, branch@, remote));
    let found: Result<Option<WorktreeFacts>, String> = if local_tip.is_none() {
        Ok(None)
    } else {
        gather_worktree(git, place, repo, branch)
    };
    assert(looked_for(two, *git, place, repo@, branch@, local, found));
    let r: Result<BranchFacts, String> = match found {
        Ok(worktree) => {
            assert(found == Ok::<Option<WorktreeFacts>, String>(worktree));
            Ok(BranchFacts { local_tip, remote_tip, worktree })
        },
        Err(e) => {
            assert(found == Err::<Option<WorktreeFacts>, String>(e));
            Err(e)
        },
    };
    r
}

/// What to do about one branch with a merged PR: the deletions that are safe,
/// and the warnings explaining everything kept.
pub struct Verdict {
    pub remove_worktree: bool,
    pub delete_local: bool,
    pub delete_remote: bool,
    /// Set when nothing of the branch will remain, so the issue state file that
    /// recorded it can go too.
    pub delete_state: bool,
    pub warnings: Vec<String>,
}

impl Default for Verdict {
    fn default() -> (r: Self)
        ensures
            !r.remove_worktree && !r.delete_local && !r.delete_remote && !r.delete_state,
            r.warnings@.len() == 0,
    {
        Verdict {
            remove_worktree: false,
            delete_local: false,
            delete_remote: false,
            delete_state: false,
            warnings: Vec::new(),
        }
    }
}

pub const NOT_LANDED: &'static str =
    "branch `%` has a merged PR, but the merge is not on the default branch; \
     leaving it alone";

pub const REMOTE_DIFFERS: &'static str =
    "`origin/%` has different/extra content than what was merged; keeping it";

pub const LOCAL_DIFFERS: &'static str =
    "local branch `%` has different/extra content than what was merged; \
     keeping it";

pub const IN_MAIN: &'static str = "branch `%` is checked out in the main worktree; keeping it";

pub const HOLDS_CWD: &'static str =
    "branch `%`'s worktree contains the current directory; \
     keeping the worktree and branch";

pub const UNTRACKED: &'static str = "` has untracked files; keeping the worktree and branch `";

pub const CHANGED: &'static str = "` has working tree changes; keeping the worktree and branch `";

/// The remote branch is exactly what was merged.
pub open spec fn remote_matches(facts: BranchFacts, tip: Seq<char>) -> bool {
    facts.remote_tip is Some && facts.remote_tip->0@ == tip
}

/// The local branch is exactly what was merged.
pub open spec fn local_matches(facts: BranchFacts, tip: Seq<char>) -> bool {
    facts.local_tip is Some && facts.local_tip->0@ == tip
}

/// The worktree can be removed without losing anything.
pub open spec fn removable(wt: WorktreeFacts) -> bool {
    !wt.is_main && !wt.contains_cwd && wt.status == TreeStatus::Clean
}

/// The warning about a local branch that was merged, for the worktree it is
/// checked out in, if there is one.
pub open spec fn worktree_warning(branch: Seq<char>, wt: WorktreeFacts) -> Option<Seq<char>> {
    if wt.is_main {
        Some(text::fill(IN_MAIN@, branch))
    } else if wt.contains_cwd {
        Some(text::fill(HOLDS_CWD@, branch))
    } else {
        match wt.status {
            TreeStatus::Clean => None,
            TreeStatus::UntrackedOnly => Some(
                "worktree `"@ + wt.path@ + UNTRACKED@ + branch + "`"@,
            ),
            TreeStatus::TrackedChanges => Some(
                "worktree `"@ + wt.path@ + CHANGED@ + branch + "`"@,
            ),
        }
    }
}

/// The warning about the remote branch.
pub open spec fn remote_warnings(
    branch: Seq<char>,
    facts: BranchFacts,
    tip: Seq<char>,
) -> Seq<Seq<char>> {
    if facts.remote_tip is Some && !remote_matches(facts, tip) {
        seq![text::fill(REMOTE_DIFFERS@, branch)]
    } else {
        seq![]
    }
}

/// The warning about the local branch.
pub open spec fn local_warnings(
    branch: Seq<char>,
    facts: BranchFacts,
    tip: Seq<char>,
) -> Seq<Seq<char>> {
    if facts.local_tip is None {
        seq![]
    } else if !local_matches(facts, tip) {
        seq![text::fill(LOCAL_DIFFERS@, branch)]
    } else {
        match facts.worktree {
            None => seq![],
            Some(wt) => match worktree_warning(branch, wt) {
                Some(w) => seq![w],
                None => seq![],
            },
        }
    }
}

/// The verdict that [`classify`] gives.
pub open spec fn is_verdict(
    branch: Seq<char>,
    facts: BranchFacts,
    tip: Seq<char>,
    landed: bool,
    v: Verdict,
) -> bool {
    &&& v.delete_remote == (landed && remote_matches(facts, tip))
    &&& v.delete_local == (landed && local_matches(facts, tip) && (facts.worktree is None
        || removable(facts.worktree->0)))
    &&& v.remove_worktree == (landed && local_matches(facts, tip) && facts.worktree is Some
        && removable(facts.worktree->0))
    &&& v.delete_state == (landed && (facts.local_tip is None || v.delete_local) && (
    facts.remote_tip is None || v.delete_remote) && (facts.worktree is None || v.remove_worktree))
    &&& text::views(v.warnings@) == if landed {
        remote_warnings(branch, facts, tip) + local_warnings(branch, facts, tip)
    } else {
        seq![text::fill(NOT_LANDED@, branch)]
    }
}

/// Whether a PR's merge commit is on the default branch, as the remote has it. One
/// without a merge commit has not landed.
pub fn merge_landed<R: Fn(Vec<String>) -> Ran>(
    git: &mut Git<R>,
    repo: &str,
    pr: &BranchPr,
    default: &str,
) -> (r: bool)
    requires
        old(git).ready(),
    ensures
        match pr.merge_commit {
            Some(commit) => git::probed(
                *old(git),
                *final(git),
                repo@,
                seq![
                    "merge-base"@,
                    "--is-ancestor"@,
                    commit.oid@,
                    "refs/remotes/origin/"@ + default@,
                ],
                r,
            ),
            None => *final(git) == *old(git) && !r,
        },
{
    match &pr.merge_commit {
        Some(commit) => {
            let mut landed_on = text::copy("refs/remotes/origin/");
            landed_on.append(default);
            git::is_ancestor(git, repo, commit.oid.as_str(), landed_on.as_str())
        },
        None => false,
    }
}

/// Decide a branch's fate. `merged_tip` is the head commit GitHub merged;
/// `merge_landed` is whether the PR's merge commit is an ancestor of the default
/// branch.
///
/// Local and remote are judged independently: whichever side still matches the
/// merged tip is deleted, and whichever diverged is kept (it holds the extra
/// content) with a warning.
pub fn classify(
    branch: &str,
    facts: &BranchFacts,
    merged_tip: &str,
    merge_landed: bool,
) -> (r: Verdict)
    ensures
        is_verdict(branch@, *facts, merged_tip@, merge_landed, r),
{
    let mut verdict = Verdict::default();
    if !merge_landed {
        verdict.warnings.push(text::filled(NOT_LANDED, branch));
        assert(text::views(verdict.warnings@) =~= seq![text::fill(NOT_LANDED@, branch@)]);
        return verdict;
    }
    match &facts.remote_tip {
        Some(remote) => {
            if text::same(remote.as_str(), merged_tip) {
                verdict.delete_remote = true;
            } else {
                verdict.warnings.push(text::filled(REMOTE_DIFFERS, branch));
            }
        },
        None => {},
    }
    assert(text::views(verdict.warnings@) =~= remote_warnings(branch@, *facts, merged_tip@));
    match &facts.local_tip {
        Some(local) => {
            if !text::same(local.as_str(), merged_tip) {
                verdict.warnings.push(text::filled(LOCAL_DIFFERS, branch));
            } else {
                match &facts.worktree {
                    None => {
                        verdict.delete_local = true;
                    },
                    Some(wt) => {
                        if wt.is_main {
                            verdict.warnings.push(text::filled(IN_MAIN, branch));
                        } else if wt.contains_cwd {
                            verdict.warnings.push(text::filled(HOLDS_CWD, branch));
                        } else {
                            match wt.status {
                                TreeStatus::Clean => {
                                    verdict.remove_worktree = true;
                                    verdict.delete_local = true;
                                },
                                TreeStatus::UntrackedOnly => {
                                    verdict.warnings.push(
                                        kept(wt.path.as_str(), UNTRACKED, branch),
                                    );
                                },
                                TreeStatus::TrackedChanges => {
                                    verdict.warnings.push(kept(wt.path.as_str(), CHANGED, branch));
                                },
                            }
                        }
                    },
                }
            }
        },
        None => {},
    }
    // The state file goes only when this run leaves nothing of the branch.
    verdict.delete_state = (facts.local_tip.is_none() || verdict.delete_local) && (
    facts.remote_tip.is_none() || verdict.delete_remote) && (facts.worktree.is_none()
        || verdict.remove_worktree);
    assert(text::views(verdict.warnings@) =~= remote_warnings(branch@, *facts, merged_tip@)
        + local_warnings(branch@, *facts, merged_tip@));
    verdict
}

/// The warning that a worktree is kept, and why.
fn kept(path: &str, why: &str, branch: &str) -> (r: String)
    ensures
        r@ == "worktree `"@ + path@ + why@ + branch@ + "`"@,
{
    let mut out = text::copy("worktree `");
    out.append(path);
    out.append(why);
    out.append(branch);
    out.append("`");
    out
}

/// A deletion.
#[derive(Clone, Copy, Debug, PartialEq, Eq, Structural)]
pub enum Action {
    RemoveWorktree,
    DeleteLocal,
    DeleteRemote,
    DeleteState,
}

/// The deletions tried so far, and whether each succeeded.
#[derive(Clone, Copy, Debug, PartialEq, Eq, Structural)]
pub struct Progress {
    pub worktree: Option<bool>,
    pub local: Option<bool>,
    pub remote: Option<bool>,
    pub state: Option<bool>,
}

impl Default for Progress {
    fn default() -> (r: Self)
        ensures
            r == (Progress { worktree: None, local: None, remote: None, state: None }),
    {
        Progress { worktree: None, local: None, remote: None, state: None }
    }
}

/// Some deletion failed.
pub open spec fn any_failed(progress: Progress) -> bool {
    progress.worktree == Some(false) || progress.local == Some(false) || progress.remote == Some(
        false,
    )
}

/// The next deletion.
pub open spec fn next_action(verdict: Verdict, progress: Progress) -> Option<Action> {
    if verdict.remove_worktree && progress.worktree is None {
        Some(Action::RemoveWorktree)
    } else if verdict.delete_local && progress.worktree != Some(false) && progress.local is None {
        Some(Action::DeleteLocal)
    } else if verdict.delete_remote && progress.remote is None {
        Some(Action::DeleteRemote)
    } else if verdict.delete_state && !any_failed(progress) && progress.state is None {
        Some(Action::DeleteState)
    } else {
        None
    }
}

/// What is to be done about a deletion: under a dry run it is only described.
#[derive(Clone, Copy, Debug, PartialEq, Eq, Structural)]
pub enum Order {
    Describe(Action),
    CarryOut(Action),
}

/// The order for a deletion.
pub open spec fn order(action: Action, dry_run: bool) -> Order {
    if dry_run {
        Order::Describe(action)
    } else {
        Order::CarryOut(action)
    }
}

/// The next deletion to carry out (or, under a dry run, to describe). A failed step
/// keeps everything that depends on it (a branch is still checked out in a worktree
/// that was not removed), and blocks the state-file cleanup.
pub fn execute(verdict: &Verdict, progress: Progress, dry_run: bool) -> (r: Option<Order>)
    ensures
        r == match next_action(*verdict, progress) {
            Some(action) => Some(order(action, dry_run)),
            None => None,
        },
        dry_run ==> !(r matches Some(Order::CarryOut(_))),
{
    let worktree_failed = match progress.worktree {
        Some(ok) => !ok,
        None => false,
    };
    let local_failed = match progress.local {
        Some(ok) => !ok,
        None => false,
    };
    let remote_failed = match progress.remote {
        Some(ok) => !ok,
        None => false,
    };
    let action = if verdict.remove_worktree && progress.worktree.is_none() {
        Action::RemoveWorktree
    } else if verdict.delete_local && !worktree_failed && progress.local.is_none() {
        Action::DeleteLocal
    } else if verdict.delete_remote && progress.remote.is_none() {
        Action::DeleteRemote
    } else if verdict.delete_state && !worktree_failed && !local_failed && !remote_failed
        && progress.state.is_none() {
        Action::DeleteState
    } else {
        return None;
    };
    if dry_run {
        Some(Order::Describe(action))
    } else {
        Some(Order::CarryOut(action))
    }
}

/// The progress once a deletion has been tried.
pub open spec fn tried(progress: Progress, action: Action, ok: bool) -> Progress {
    match action {
        Action::RemoveWorktree => Progress { worktree: Some(ok), ..progress },
        Action::DeleteLocal => Progress { local: Some(ok), ..progress },
        Action::DeleteRemote => Progress { remote: Some(ok), ..progress },
        Action::DeleteState => Progress { state: Some(ok), ..progress },
    }
}

impl Progress {
    /// Note that a deletion has been tried.
    pub fn note(self, action: Action, ok: bool) -> (r: Progress)
        ensures
            r == tried(self, action, ok),
    {
        match action {
            Action::RemoveWorktree => Progress { worktree: Some(ok), ..self },
            Action::DeleteLocal => Progress { local: Some(ok), ..self },
            Action::DeleteRemote => Progress { remote: Some(ok), ..self },
            Action::DeleteState => Progress { state: Some(ok), ..self },
        }
    }
}

/// What a deletion is of, in words.
pub open spec fn object_of(action: Action, branch: Seq<char>, path: Seq<char>, number: u64) -> Seq<
    char,
> {
    match action {
        Action::RemoveWorktree => "worktree `"@ + path + "`"@,
        Action::DeleteLocal => "local branch `"@ + branch + "`"@,
        Action::DeleteRemote => "remote branch `origin/"@ + branch + "`"@,
        Action::DeleteState => "ghwf state for issue #"@ + text::decimal(number as nat),
    }
}

/// The verb for a deletion that is only described, and for one that was carried
/// out.
pub open spec fn verb_of(action: Action, dry_run: bool) -> Seq<char> {
    match action {
        Action::RemoveWorktree | Action::DeleteState => if dry_run {
            "would remove "@
        } else {
            "removed "@
        },
        Action::DeleteLocal | Action::DeleteRemote => if dry_run {
            "would delete "@
        } else {
            "deleted "@
        },
    }
}

/// What a deletion is of, in words.
fn object(action: Action, branch: &str, path: &str, number: u64) -> (r: String)
    ensures
        r@ == object_of(action, branch@, path@, number),
{
    match action {
        Action::RemoveWorktree => {
            let mut s = text::copy("worktree `");
            s.append(path);
            s.append("`");
            s
        },
        Action::DeleteLocal => {
            let mut s = text::copy("local branch `");
            s.append(branch);
            s.append("`");
            s
        },
        Action::DeleteRemote => {
            let mut s = text::copy("remote branch `origin/");
            s.append(branch);
            s.append("`");
            s
        },
        Action::DeleteState => {
            let mut s = text::copy("ghwf state for issue #");
            s.append(text::number(number).as_str());
            s
        },
    }
}

/// The line printed for a deletion that succeeded, or for one that a dry run
/// only describes.
pub fn describe(action: Action, branch: &str, path: &str, number: u64, dry_run: bool) -> (r: String)
    ensures
        r@ == verb_of(action, dry_run) + object_of(action, branch@, path@, number),
{
    let removes = match action {
        Action::RemoveWorktree => true,
        Action::DeleteState => true,
        _ => false,
    };
    let mut out = text::copy(
        if removes {
            if dry_run {
                "would remove "
            } else {
                "removed "
            }
        } else if dry_run {
            "would delete "
        } else {
            "deleted "
        },
    );
    out.append(object(action, branch, path, number).as_str());
    out
}

/// The warning printed for a deletion that failed.
pub fn describe_failure(action: Action, branch: &str, path: &str, number: u64) -> (r: String)
    ensures
        r@ == (if action == Action::RemoveWorktree || action == Action::DeleteState {
            "warning: failed to remove "@
        } else {
            "warning: failed to delete "@
        }) + object_of(action, branch@, path@, number),
{
    let mut out = text::copy(
        match action {
            Action::RemoveWorktree => "warning: failed to remove ",
            Action::DeleteState => "warning: failed to remove ",
            _ => "warning: failed to delete ",
        },
    );
    out.append(object(action, branch, path, number).as_str());
    out
}

/// Whether nothing is said of a branch: nothing is deleted, and nothing warned
/// about.
pub fn is_quiet(verdict: &Verdict) -> (r: bool)
    ensures
        r == (!verdict.remove_worktree && !verdict.delete_local && !verdict.delete_remote
            && verdict.warnings@.len() == 0),
{
    !(verdict.remove_worktree || verdict.delete_local || verdict.delete_remote)
        && verdict.warnings.len() == 0
}

/// Only what was merged, and landed, is ever deleted: each side of the branch
/// only where its tip is the merged one, a worktree only where it is clean, is
/// not the main one and does not hold the current directory, and the local
/// branch only together with its worktree.
pub proof fn only_merged_work_is_deleted(
    branch: Seq<char>,
    facts: BranchFacts,
    tip: Seq<char>,
    landed: bool,
    v: Verdict,
    progress: Progress,
)
    requires
        is_verdict(branch, facts, tip, landed, v),
    ensures
        match next_action(v, progress) {
            Some(Action::RemoveWorktree) => landed && local_matches(facts, tip)
                && facts.worktree is Some && removable(facts.worktree->0),
            Some(Action::DeleteLocal) => landed && local_matches(facts, tip) && (
            facts.worktree is None || progress.worktree == Some(true)),
            Some(Action::DeleteRemote) => landed && remote_matches(facts, tip),
            Some(Action::DeleteState) => landed && (facts.local_tip is Some ==> progress.local
                == Some(true)) && (facts.remote_tip is Some ==> progress.remote == Some(true)) && (
            facts.worktree is Some ==> progress.worktree == Some(true)),
            None => true,
        },
{
}

/// What is kept of a branch with a merged PR is warned about: where no warning
/// is given, everything that there is of the branch is to be deleted.
pub proof fn whatever_is_kept_is_warned_about(
    branch: Seq<char>,
    facts: BranchFacts,
    tip: Seq<char>,
    landed: bool,
    v: Verdict,
)
    requires
        is_verdict(branch, facts, tip, landed, v),
        v.warnings@.len() == 0,
        facts.local_tip is None ==> facts.worktree is None,
    ensures
        landed,
        facts.remote_tip is Some ==> v.delete_remote,
        facts.local_tip is Some ==> v.delete_local,
        facts.worktree is Some ==> v.remove_worktree,
        v.delete_state,
{
    assert(text::views(v.warnings@).len() == 0);
    assert((remote_warnings(branch, facts, tip) + local_warnings(branch, facts, tip)).len()
        == remote_warnings(branch, facts, tip).len() + local_warnings(branch, facts, tip).len());
}

/// Each deletion is tried at most once: the steps end.
pub proof fn every_deletion_is_tried_once(v: Verdict, progress: Progress, ok: bool)
    ensures
        match next_action(v, progress) {
            Some(action) => next_action(v, tried(progress, action, ok)) != Some(action),
            None => true,
        },
{
}

} // verus!
