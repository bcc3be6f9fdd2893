//! Which issue to work on next.

use std::collections::BTreeSet;
use vstd::prelude::*;

use crate::access::AccessList;
use crate::access::Policy;
use crate::models::IssueListing;
use crate::record;
use crate::state::IssueState;
use crate::store;
use crate::text;

verus! {

/// Direct polling starts here, in seconds…
pub const BACKOFF_FLOOR: u64 = 5;

/// …doubles while idle, and caps here.
pub const BACKOFF_CAP: u64 = 60;

/// This many consecutive failed polls aborts the wait: a pool worker runs
/// unattended, so a transient network blip shouldn't kill it.
pub const MAX_CONSECUTIVE_FAILURES: u32 = 30;

/// An issue's status for selection, derived from its recorded state and session
/// lease. `Fresh` and `Resumable` are both workable (one starts, the other
/// resumes); `Live` and `Done` are not.
#[derive(Clone, Copy, Debug, PartialEq, Eq, Structural)]
pub enum IssueStatus {
    /// No recorded state: start it.
    Fresh,
    /// Recorded state, not concluded, no live session: resume it.
    Resumable,
    /// A live session is running it: a worker is on it.
    Live,
    /// Recorded state, concluded: nothing left to do.
    Done,
}

/// What reading an issue's recorded state gave.
pub enum Recorded<'a> {
    /// There is none.
    Nothing,
    State(&'a IssueState),
    /// It is there, and cannot be read.
    Unreadable,
}

/// Classify an issue for selection from its recorded state and lease. State that
/// cannot be read counts as live: the conservative choice, never barging into
/// something we can't read.
pub fn issue_status(recorded: Recorded, live: bool) -> (r: IssueStatus)
    ensures
        r == (match recorded {
            Recorded::Nothing => IssueStatus::Fresh,
            Recorded::State(state) => if state.concluded() {
                IssueStatus::Done
            } else if live {
                IssueStatus::Live
            } else {
                IssueStatus::Resumable
            },
            Recorded::Unreadable => IssueStatus::Live,
        }),
{
    match recorded {
        Recorded::Nothing => IssueStatus::Fresh,
        Recorded::State(state) => {
            if state.is_concluded() {
                IssueStatus::Done
            } else if live {
                IssueStatus::Live
            } else {
                IssueStatus::Resumable
            }
        },
        Recorded::Unreadable => IssueStatus::Live,
    }
}

/// Whether an issue's work is already underway (started and not concluded).
pub fn is_underway(status: IssueStatus) -> (r: bool)
    ensures
        r == (status == IssueStatus::Resumable || status == IssueStatus::Live),
{
    match status {
        IssueStatus::Resumable => true,
        IssueStatus::Live => true,
        _ => false,
    }
}

/// Some assignee of the issue is `me`, ignoring case.
pub open spec fn assigned(issue: IssueListing, me: Seq<char>) -> bool {
    exists|i: int|
        0 <= i < issue.assignees@.len() && text::lower(#[trigger] issue.assignees@[i].login@)
            == text::lower(me)
}

/// Whether `me` is among the issue's assignees. GitHub logins are
/// case-insensitive.
pub fn assigned_to(issue: &IssueListing, me: &str) -> (r: bool)
    ensures
        r == assigned(*issue, me@),
{
    let mut i: usize = 0;
    while i < issue.assignees.len()
        invariant
            i <= issue.assignees.len(),
            forall|j: int|
                0 <= j < i ==> text::lower(#[trigger] issue.assignees@[j].login@) != text::lower(
                    me@,
                ),
        decreases issue.assignees.len() - i,
    {
        if text::same_ignoring_case(issue.assignees[i].login.as_str(), me) {
            assert(text::lower(issue.assignees@[i as int].login@) == text::lower(me@));
            return true;
        }
        i = i + 1;
    }
    false
}

/// The first position of a label among the priority labels, ignoring case; the
/// largest number where it is none of them.
pub open spec fn label_position(name: Seq<char>, priority: Seq<String>) -> usize
    decreases priority.len(),
{
    if priority.len() == 0 {
        usize::MAX
    } else if label_position(name, priority.drop_last()) != usize::MAX {
        label_position(name, priority.drop_last())
    } else if text::lower(priority.last()@) == text::lower(name) {
        (priority.len() - 1) as usize
    } else {
        usize::MAX
    }
}

/// The best position of an issue's labels among the priority labels.
pub open spec fn best_label(issue: IssueListing, priority: Seq<String>, count: int) -> usize
    decreases count,
{
    if count <= 0 || count > issue.labels@.len() {
        usize::MAX
    } else {
        let before = best_label(issue, priority, count - 1);
        let this = label_position(issue.labels@[count - 1].name@, priority);
        if this < before {
            this
        } else {
            before
        }
    }
}

pub open spec fn rank(issue: IssueListing, priority: Seq<String>) -> usize {
    best_label(issue, priority, issue.labels@.len() as int)
}

/// The first position of a label among the priority labels.
fn position_of(name: &str, priority: &[String]) -> (r: usize)
    ensures
        r == label_position(name@, priority@),
        r == usize::MAX || r < priority.len(),
{
    let mut i: usize = 0;
    assert(priority@.take(0) =~= seq![]);
    while i < priority.len()
        invariant
            i <= priority.len(),
            label_position(name@, priority@.take(i as int)) == usize::MAX,
        decreases priority.len() - i,
    {
        assert(priority@.take(i + 1).drop_last() =~= priority@.take(i as int));
        assert(priority@.take(i + 1).last() == priority@[i as int]);
        if text::same_ignoring_case(priority[i].as_str(), name) {
            proof {
                lemma_position_stays(name@, priority@, i + 1);
            }
            return i;
        }
        i = i + 1;
    }
    assert(priority@.take(priority@.len() as int) =~= priority@);
    usize::MAX
}

proof fn lemma_position_stays(name: Seq<char>, priority: Seq<String>, k: int)
    requires
        0 <= k <= priority.len(),
        label_position(name, priority.take(k)) != usize::MAX,
    ensures
        label_position(name, priority) == label_position(name, priority.take(k)),
    decreases priority.len(),
{
    if k < priority.len() {
        assert(priority.drop_last().take(k) =~= priority.take(k));
        lemma_position_stays(name, priority.drop_last(), k);
    } else {
        assert(priority.take(k) =~= priority);
    }
}

/// The index into the priority labels of the issue's best (earliest-in-list)
/// one; the largest number when it carries none, so unlabelled issues sort after
/// all labelled ones. Label names compare case-insensitively.
pub fn label_rank(issue: &IssueListing, priority_labels: &[String]) -> (r: usize)
    ensures
        r == rank(*issue, priority_labels@),
        r == usize::MAX || r < priority_labels.len(),
{
    let mut best: usize = usize::MAX;
    let mut i: usize = 0;
    while i < issue.labels.len()
        invariant
            i <= issue.labels.len(),
            best == best_label(*issue, priority_labels@, i as int),
            best == usize::MAX || best < priority_labels.len(),
        decreases issue.labels.len() - i,
    {
        let this: usize = position_of(issue.labels[i].name.as_str(), priority_labels);
        if this < best {
            best = this;
        }
        i = i + 1;
    }
    best
}

/// What issues are ordered by, ascending: assigned to the user first, then the
/// best priority label, then the lowest number.
#[derive(Clone, Copy, Debug, PartialEq, Eq, Structural)]
pub struct SortKey {
    pub unassigned: bool,
    pub rank: usize,
    pub number: u64,
}

pub open spec fn key_of(issue: IssueListing, me: Seq<char>, priority: Seq<String>) -> SortKey {
    SortKey {
        unassigned: !assigned(issue, me),
        rank: rank(issue, priority),
        number: issue.number,
    }
}

/// Whether one key comes before another.
pub open spec fn key_lt(a: SortKey, b: SortKey) -> bool {
    if a.unassigned != b.unassigned {
        b.unassigned
    } else if a.rank != b.rank {
        a.rank < b.rank
    } else {
        a.number < b.number
    }
}

/// The ascending sort key shared by selection and the tracking-issue redirect.
pub fn sort_key(issue: &IssueListing, me: &str, priority_labels: &[String]) -> (r: SortKey)
    ensures
        r == key_of(*issue, me@, priority_labels@),
{
    SortKey {
        unassigned: !assigned_to(issue, me),
        rank: label_rank(issue, priority_labels),
        number: issue.number,
    }
}

/// Whether one key comes before another.
fn comes_before(a: SortKey, b: SortKey) -> (r: bool)
    ensures
        r == key_lt(a, b),
{
    if a.unassigned != b.unassigned {
        b.unassigned
    } else if a.rank != b.rank {
        a.rank < b.rank
    } else {
        a.number < b.number
    }
}

/// Whether an issue is in the pool at all: no PR, not assigned to someone else
/// only (nor unassigned, where only the user's own issues count), and not given
/// up on.
pub open spec fn in_pool(
    issue: IssueListing,
    me: Seq<char>,
    only_mine: bool,
    excluded: Set<u64>,
) -> bool {
    &&& !issue.pull_request
    &&& assigned(issue, me) || (!only_mine && issue.assignees@.len() == 0)
    &&& !excluded.contains(issue.number)
}

/// Whether an issue can be worked on: one that is underway whatever its block,
/// a fresh one unless it is blocked or a tracking issue.
pub open spec fn workable(issue: IssueListing, status: IssueStatus) -> bool {
    ||| status == IssueStatus::Resumable
    ||| status == IssueStatus::Fresh && !issue.blocked() && !issue.tracking()
}

/// What selection goes by.
pub struct Pool {
    pub issues: Seq<IssueListing>,
    pub statuses: Seq<IssueStatus>,
    pub me: Seq<char>,
    pub priority: Seq<String>,
    pub only_mine: bool,
    pub excluded: Set<u64>,
}

impl Pool {
    pub open spec fn holds(self, i: int) -> bool {
        in_pool(self.issues[i], self.me, self.only_mine, self.excluded)
    }

    pub open spec fn candidate(self, i: int) -> bool {
        self.holds(i) && workable(self.issues[i], self.statuses[i])
    }

    /// The pool with these statuses.
    pub open spec fn reading(self, statuses: Seq<IssueStatus>) -> Pool {
        Pool { statuses, ..self }
    }

    /// The pool without these issues.
    pub open spec fn without(self, numbers: Set<u64>) -> Pool {
        Pool { excluded: self.excluded.union(numbers), ..self }
    }

    /// The best candidate is this issue, and fresh.
    pub open spec fn picks_fresh(self, number: u64) -> bool {
        let at = self.best(self.issues.len() as int);
        &&& 0 <= at < self.issues.len()
        &&& self.issues[at].number == number
        &&& self.statuses[at] == IssueStatus::Fresh
    }

    pub open spec fn key(self, i: int) -> SortKey {
        key_of(self.issues[i], self.me, self.priority)
    }

    /// The position of the first candidate with the least key among the first
    /// `count` issues, or -1.
    pub open spec fn best(self, count: int) -> int
        decreases count,
    {
        if count <= 0 {
            -1
        } else {
            let before = self.best(count - 1);
            if self.candidate(count - 1) && (before < 0 || key_lt(
                self.key(count - 1),
                self.key(before),
            )) {
                count - 1
            } else {
                before
            }
        }
    }

    /// The numbers of the first `count` issues that a live session holds.
    pub open spec fn live(self, count: int) -> Seq<u64>
        decreases count,
    {
        if count <= 0 {
            seq![]
        } else if self.holds(count - 1) && self.statuses[count - 1] == IssueStatus::Live {
            self.live(count - 1).push(self.issues[count - 1].number)
        } else {
            self.live(count - 1)
        }
    }

    /// The numbers of the first `count` issues that are fresh and blocked.
    pub open spec fn blocked(self, count: int) -> Seq<u64>
        decreases count,
    {
        if count <= 0 {
            seq![]
        } else if self.holds(count - 1) && self.statuses[count - 1] == IssueStatus::Fresh
            && self.issues[count - 1].blocked() {
            self.blocked(count - 1).push(self.issues[count - 1].number)
        } else {
            self.blocked(count - 1)
        }
    }

    /// The numbers of the first `count` issues that are fresh tracking issues,
    /// and not blocked.
    pub open spec fn tracking(self, count: int) -> Seq<u64>
        decreases count,
    {
        if count <= 0 {
            seq![]
        } else if self.holds(count - 1) && self.statuses[count - 1] == IssueStatus::Fresh
            && !self.issues[count - 1].blocked() && self.issues[count - 1].tracking() {
            self.tracking(count - 1).push(self.issues[count - 1].number)
        } else {
            self.tracking(count - 1)
        }
    }
}

/// The outcome of [`select`]: the winning issue, if any, its status (so callers
/// know whether the pick is a start or a resume), and the issues passed over for
/// a reportable reason (each in listing order).
pub struct Selection<'a> {
    pub picked: Option<&'a IssueListing>,
    pub picked_status: Option<IssueStatus>,
    pub skipped_live: Vec<u64>,
    pub skipped_blocked: Vec<u64>,
    pub skipped_tracking: Vec<u64>,
}

/// `s` is the selection from `pool`.
pub open spec fn is_selection(pool: Pool, s: Selection) -> bool {
    let n = pool.issues.len() as int;
    let at = pool.best(n);
    &&& match s.picked {
        Some(issue) => 0 <= at < n && *issue == pool.issues[at] && s.picked_status == Some(
            pool.statuses[at],
        ),
        None => at < 0 && s.picked_status is None,
    }
    &&& s.skipped_live@ == pool.live(n)
    &&& s.skipped_blocked@ == pool.blocked(n)
    &&& s.skipped_tracking@ == pool.tracking(n)
}

/// Whether an issue may be considered, whatever its status: no PR, and not
/// assigned to someone else. Its status needs to be read only then.
pub fn considered(issue: &IssueListing, me: &str, only_assigned_to_me: bool) -> (r: bool)
    ensures
        r == in_pool(*issue, me@, only_assigned_to_me, Set::empty()),
{
    if issue.pull_request {
        return false;
    }
    assigned_to(issue, me) || (!only_assigned_to_me && issue.assignees.len() == 0)
}

/// [`select`], with the issues lost to other workers left out as well.
fn select_among<'a>(
    issues: &'a [IssueListing],
    me: &str,
    priority_labels: &[String],
    only_assigned_to_me: bool,
    excluded: &BTreeSet<u64>,
    lost: &BTreeSet<u64>,
    statuses: &[IssueStatus],
) -> (r: Selection<'a>)
    requires
        statuses@.len() == issues@.len(),
    ensures
        is_selection(
            (Pool {
                issues: issues@,
                statuses: statuses@,
                me: me@,
                priority: priority_labels@,
                only_mine: only_assigned_to_me,
                excluded: excluded@.union(lost@),
            }),
            r,
        ),
{
    let ghost pool = Pool {
        issues: issues@,
        statuses: statuses@,
        me: me@,
        priority: priority_labels@,
        only_mine: only_assigned_to_me,
        excluded: excluded@.union(lost@),
    };
    let mut skipped_live: Vec<u64> = Vec::new();
    let mut skipped_blocked: Vec<u64> = Vec::new();
    let mut skipped_tracking: Vec<u64> = Vec::new();
    let mut best: Option<usize> = None;
    let mut i: usize = 0;
    while i < issues.len()
        invariant
            i <= issues.len(),
            statuses@.len() == issues@.len(),
            pool == (Pool {
                issues: issues@,
                statuses: statuses@,
                me: me@,
                priority: priority_labels@,
                only_mine: only_assigned_to_me,
                excluded: excluded@.union(lost@),
            }),
            match best {
                Some(at) => at < i && at == pool.best(i as int),
                None => pool.best(i as int) < 0,
            },
            skipped_live@ == pool.live(i as int),
            skipped_blocked@ == pool.blocked(i as int),
            skipped_tracking@ == pool.tracking(i as int),
        decreases issues.len() - i,
    {
        let issue = &issues[i];
        if considered(issue, me, only_assigned_to_me) && !store::holds(excluded, issue.number)
            && !store::holds(lost, issue.number) {
            assert(pool.holds(i as int));
            let takes = match statuses[i] {
                // A worker is on it; note it so it's reported.
                IssueStatus::Live => {
                    skipped_live.push(issue.number);
                    false
                },
                // Concluded: nothing to do, and not worth a line.
                IssueStatus::Done => false,
                // Work is underway: resume it whatever its block or tracking state.
                IssueStatus::Resumable => true,
                IssueStatus::Fresh => {
                    if issue.is_blocked() {
                        skipped_blocked.push(issue.number);
                        false
                    } else if issue.is_tracking() {
                        skipped_tracking.push(issue.number);
                        false
                    } else {
                        true
                    }
                },
            };
            assert(takes == pool.candidate(i as int));
            if takes {
                let key = sort_key(issue, me, priority_labels);
                let better = match best {
                    Some(at) => comes_before(key, sort_key(&issues[at], me, priority_labels)),
                    None => true,
                };
                if better {
                    best = Some(i);
                }
            }
        } else {
            assert(!pool.holds(i as int));
        }
        i = i + 1;
    }
    match best {
        Some(at) => Selection {
            picked: Some(&issues[at]),
            picked_status: Some(statuses[at]),
            skipped_live,
            skipped_blocked,
            skipped_tracking,
        },
        None => Selection {
            picked: None,
            picked_status: None,
            skipped_live,
            skipped_blocked,
            skipped_tracking,
        },
    }
}

/// Choose the most important workable issue. `statuses` holds the status of each
/// issue, in order.
///
/// Sort key, ascending, first wins: issues assigned to `me` before unassigned
/// ones, then the best (earliest-in-list) priority label, then the lowest issue
/// number. PRs, issues assigned to someone else, and issues excluded by the
/// caller are dropped outright. Of the rest, live issues are skipped and
/// reported, done ones skipped silently, and resumable ones are workable
/// regardless of block or tracking state (their work is already underway). A
/// fresh issue that is currently blocked or a tracking issue (has sub-issues) is
/// skipped and reported instead; when it qualifies for both, as blocked.
///
/// When `only_assigned_to_me` is set, unassigned issues are dropped silently too.
pub fn select<'a>(
    issues: &'a [IssueListing],
    me: &str,
    priority_labels: &[String],
    only_assigned_to_me: bool,
    excluded: &BTreeSet<u64>,
    statuses: &[IssueStatus],
) -> (r: Selection<'a>)
    requires
        statuses@.len() == issues@.len(),
    ensures
        is_selection(
            (Pool {
                issues: issues@,
                statuses: statuses@,
                me: me@,
                priority: priority_labels@,
                only_mine: only_assigned_to_me,
                excluded: excluded@,
            }),
            r,
        ),
{
    let lost: BTreeSet<u64> = BTreeSet::new();
    assert(excluded@.union(lost@) =~= excluded@);
    select_among(issues, me, priority_labels, only_assigned_to_me, excluded, &lost, statuses)
}

proof fn lemma_key_order(a: SortKey, b: SortKey, c: SortKey)
    ensures
        key_lt(a, b) && key_lt(b, c) ==> key_lt(a, c),
        !key_lt(a, b) && !key_lt(b, c) ==> !key_lt(a, c),
        !key_lt(a, a),
        key_lt(a, b) ==> !key_lt(b, a),
{
}

pub proof fn lemma_best(pool: Pool, count: int)
    requires
        0 <= count <= pool.issues.len(),
    ensures
        -1 <= pool.best(count) < count,
        pool.best(count) >= 0 ==> pool.candidate(pool.best(count)),
        forall|k: int|
            0 <= k < count && #[trigger] pool.candidate(k) ==> pool.best(count) >= 0 && !key_lt(
                pool.key(k),
                pool.key(pool.best(count)),
            ),
    decreases count,
{
    if count > 0 {
        lemma_best(pool, count - 1);
        let before = pool.best(count - 1);
        let now = pool.best(count);
        assert forall|k: int| 0 <= k < count && #[trigger] pool.candidate(k) implies now >= 0
            && !key_lt(pool.key(k), pool.key(now)) by {
            if k < count - 1 {
                assert(!key_lt(pool.key(k), pool.key(before)));
                lemma_key_order(pool.key(k), pool.key(before), pool.key(now));
                lemma_key_order(pool.key(now), pool.key(before), pool.key(k));
            }
            lemma_key_order(pool.key(k), pool.key(k), pool.key(k));
        }
    }
}

/// The picked issue can be worked on, and none that can comes before it. It is
/// no PR, not someone else's, not held by a live session or concluded, and not
/// blocked or a tracking issue unless its work is underway. Where nothing is
/// picked, nothing can be worked on.
pub proof fn the_pick_is_the_first_workable_issue(pool: Pool, k: int)
    requires
        0 <= k < pool.issues.len(),
        pool.candidate(k),
    ensures
        0 <= pool.best(pool.issues.len() as int) < pool.issues.len(),
        pool.candidate(pool.best(pool.issues.len() as int)),
        !key_lt(pool.key(k), pool.key(pool.best(pool.issues.len() as int))),
{
    lemma_best(pool, pool.issues.len() as int);
}

/// Every issue in the pool that is not workable, and not concluded, is reported
/// in one of the lists.
pub proof fn passed_over_issues_are_reported(pool: Pool, count: int, k: int)
    requires
        0 <= k < count <= pool.issues.len(),
        pool.holds(k),
        !pool.candidate(k),
        pool.statuses[k] != IssueStatus::Done,
    ensures
        pool.live(count).contains(pool.issues[k].number) || pool.blocked(count).contains(
            pool.issues[k].number,
        ) || pool.tracking(count).contains(pool.issues[k].number),
    decreases count,
{
    let n = pool.issues[k].number;
    if k < count - 1 {
        passed_over_issues_are_reported(pool, count - 1, k);
        lemma_contains_grows(pool.live(count - 1), pool.live(count), n);
        lemma_contains_grows(pool.blocked(count - 1), pool.blocked(count), n);
        lemma_contains_grows(pool.tracking(count - 1), pool.tracking(count), n);
    } else {
        if pool.statuses[k] == IssueStatus::Live {
            assert(pool.live(count).last() == n);
        } else if pool.issues[k].blocked() {
            assert(pool.blocked(count).last() == n);
        } else {
            assert(pool.tracking(count).last() == n);
        }
    }
}

proof fn lemma_contains_grows(a: Seq<u64>, b: Seq<u64>, n: u64)
    requires
        a.len() <= b.len(),
        forall|i: int| 0 <= i < a.len() ==> b[i] == #[trigger] a[i],
    ensures
        a.contains(n) ==> b.contains(n),
{
    if a.contains(n) {
        let i = choose|i: int| 0 <= i < a.len() && a[i] == n;
        assert(b[i] == n);
    }
}

/// How many of the first `count` issues are not in `lost`.
pub open spec fn remaining(issues: Seq<IssueListing>, lost: Set<u64>, count: int) -> nat
    decreases count,
{
    if count <= 0 {
        0
    } else {
        remaining(issues, lost, count - 1) + if lost.contains(issues[count - 1].number) {
            0nat
        } else {
            1nat
        }
    }
}

proof fn lemma_remaining_shrinks(issues: Seq<IssueListing>, lost: Set<u64>, count: int, k: int)
    requires
        0 <= count <= issues.len(),
        0 <= k < issues.len(),
        !lost.contains(issues[k].number),
    ensures
        remaining(issues, lost.insert(issues[k].number), count) <= remaining(issues, lost, count),
        k < count ==> remaining(issues, lost.insert(issues[k].number), count) < remaining(
            issues,
            lost,
            count,
        ),
    decreases count,
{
    if count > 0 {
        lemma_remaining_shrinks(issues, lost, count - 1, k);
    }
}

/// Each issue's status, in order.
fn statuses_of<S: Fn(u64) -> IssueStatus>(issues: &[IssueListing], status: &S) -> (r: Vec<
    IssueStatus,
>)
    requires
        forall|n: u64| #[trigger] call_requires(status, (n,)),
    ensures
        r@.len() == issues@.len(),
        forall|i: int|
            0 <= i < issues@.len() ==> call_ensures(status, (issues@[i].number,), #[trigger] r@[i]),
{
    let mut out: Vec<IssueStatus> = Vec::new();
    let mut i: usize = 0;
    while i < issues.len()
        invariant
            i <= issues.len(),
            out@.len() == i,
            forall|n: u64| #[trigger] call_requires(status, (n,)),
            forall|j: int|
                0 <= j < i ==> call_ensures(status, (issues@[j].number,), #[trigger] out@[j]),
        decreases issues.len() - i,
    {
        let s = status(issues[i].number);
        out.push(s);
        i = i + 1;
    }
    out
}

/// The function that claims an issue (true when this caller won it, false when another
/// session already holds it), with the claims it has made.
pub type Claims<C> = record::Recorded<C, u64, Result<bool, String>>;

/// The statuses that were read.
pub open spec fn read_as<S: Fn(u64) -> IssueStatus>(
    issues: Seq<IssueListing>,
    status: &S,
    statuses: Seq<IssueStatus>,
) -> bool {
    &&& statuses.len() == issues.len()
    &&& forall|i: int|
        0 <= i < issues.len() ==> call_ensures(
            status,
            (issues[i].number,),
            #[trigger] statuses[i],
        )
}

/// The issues that were claimed.
pub open spec fn claimed(calls: Seq<(u64, Result<bool, String>)>) -> Set<u64>
    decreases calls.len(),
{
    if calls.len() == 0 {
        Set::empty()
    } else {
        claimed(calls.drop_last()).insert(calls.last().0)
    }
}

/// After these claims it is the turn of `n`: it is the best of the issues that were
/// not claimed yet, and was read as fresh.
pub open spec fn is_turn<S: Fn(u64) -> IssueStatus>(
    pool: Pool,
    status: &S,
    calls: Seq<(u64, Result<bool, String>)>,
    n: u64,
) -> bool {
    exists|statuses: Seq<IssueStatus>| #[trigger]
        read_as(pool.issues, status, statuses) && pool.reading(statuses).without(
            claimed(calls),
        ).picks_fresh(n)
}

/// These are the claims made: each in its turn, and none after one that did not come
/// back as lost.
pub open spec fn is_claiming<S: Fn(u64) -> IssueStatus>(
    pool: Pool,
    status: &S,
    calls: Seq<(u64, Result<bool, String>)>,
) -> bool {
    &&& forall|j: int|
        0 <= j < calls.len() ==> is_turn(pool, status, calls.take(j), (#[trigger] calls[j]).0)
    &&& forall|j: int|
        0 <= j < calls.len() - 1 ==> (#[trigger] calls[j]).1 == Ok::<bool, String>(false)
}

/// The claims that were lost: all but the one of a fresh pick.
pub open spec fn lost_claims(
    fresh: bool,
    calls: Seq<(u64, Result<bool, String>)>,
) -> Seq<(u64, Result<bool, String>)> {
    if fresh {
        calls.drop_last()
    } else {
        calls
    }
}

/// `s` was selected, with the statuses as they were read last, from the issues whose
/// claims were not lost. A fresh pick was claimed last, and won; any other is handed
/// back unclaimed.
pub open spec fn is_claimed<S: Fn(u64) -> IssueStatus>(
    pool: Pool,
    statuses: Seq<IssueStatus>,
    status: &S,
    calls: Seq<(u64, Result<bool, String>)>,
    s: Selection,
) -> bool {
    let fresh = s.picked_status == Some(IssueStatus::Fresh);
    let lost = lost_claims(fresh, calls);
    &&& read_as(pool.issues, status, statuses)
    &&& is_claiming(pool, status, calls)
    &&& fresh ==> calls.len() > 0 && calls.last() == (
        s.picked->0.number,
        Ok::<bool, String>(true),
    )
    &&& forall|j: int| 0 <= j < lost.len() ==> (#[trigger] lost[j]).1 == Ok::<bool, String>(false)
    &&& is_selection(pool.reading(statuses).without(claimed(lost)), s)
}

/// What is selected from, whatever the statuses.
pub open spec fn pool_of(
    issues: Seq<IssueListing>,
    me: Seq<char>,
    priority: Seq<String>,
    only_mine: bool,
    excluded: Set<u64>,
) -> Pool {
    Pool { issues, statuses: seq![], me, priority, only_mine, excluded }
}

/// Select the best workable issue and, for a fresh one, claim it, selecting
/// again when a claim is lost to a concurrent worker. Returns the selection
/// whose picked issue is ours to launch, or one that picks nothing when nothing
/// remains.
///
/// A fresh pick is claimed with `claims`. A resumable pick is returned without
/// claiming: its single flight is the launcher's lease. `excluded` holds the
/// issues the caller has already given up on this run.
pub fn claim_pick<'a, S: Fn(u64) -> IssueStatus, C: Fn(u64) -> Result<bool, String>>(
    issues: &'a [IssueListing],
    me: &str,
    priority_labels: &[String],
    only_assigned_to_me: bool,
    excluded: &BTreeSet<u64>,
    status: &S,
    claims: &mut Claims<C>,
) -> (r: Result<Selection<'a>, String>)
    requires
        forall|n: u64| #[trigger] call_requires(status, (n,)),
        old(claims).ready(),
    ensures
        final(claims).continues(*old(claims)),
        match r {
            Ok(s) => exists|statuses: Seq<IssueStatus>| #[trigger]
                is_claimed(
                    pool_of(issues@, me@, priority_labels@, only_assigned_to_me, excluded@),
                    statuses,
                    status,
                    final(claims).since(*old(claims)),
                    s,
                ),
            Err(e) => is_claiming(
                pool_of(issues@, me@, priority_labels@, only_assigned_to_me, excluded@),
                status,
                final(claims).since(*old(claims)),
            ) && final(claims).since(*old(claims)).len() > 0 && final(claims).since(
                *old(claims),
            ).last().1 == Err::<bool, String>(e),
        },
{
    let ghost pool = pool_of(issues@, me@, priority_labels@, only_assigned_to_me, excluded@);
    let ghost start = *claims;
    // Issues lost to other workers this call, left out on top of those the
    // caller excludes.
    let mut lost: BTreeSet<u64> = BTreeSet::new();
    assert(claims.since(start) =~= seq![]);
    assert(lost@ =~= claimed(claims.since(start)));
    loop
        invariant
            forall|n: u64| #[trigger] call_requires(status, (n,)),
            claims.ready(),
            claims.continues(start),
            start == *old(claims),
            pool == pool_of(issues@, me@, priority_labels@, only_assigned_to_me, excluded@),
            lost@ == claimed(claims.since(start)),
            is_claiming(pool, status, claims.since(start)),
            forall|j: int|
                0 <= j < claims.since(start).len() ==> (#[trigger] claims.since(start)[j]).1 == Ok::<
                    bool,
                    String,
                >(false),
        decreases remaining(issues@, lost@, issues@.len() as int),
    {
        let ghost before = claims.since(start);
        let statuses = statuses_of(issues, status);
        let selection = select_among(
            issues,
            me,
            priority_labels,
            only_assigned_to_me,
            excluded,
            &lost,
            statuses.as_slice(),
        );
        let ghost whole = pool.reading(statuses@).without(lost@);
        assert(read_as(pool.issues, status, statuses@));
        assert(is_selection(whole, selection));
        let fresh = match selection.picked_status {
            Some(IssueStatus::Fresh) => true,
            _ => false,
        };
        let picked = match selection.picked {
            Some(picked) => picked,
            None => {
                assert(is_claimed(pool, statuses@, status, before, selection));
                return Ok(selection);
            },
        };
        // Only fresh picks are claimed here.
        if !fresh {
            assert(is_claimed(pool, statuses@, status, before, selection));
            return Ok(selection);
        }
        let number: u64 = picked.number;
        assert(whole.picks_fresh(number));
        assert(is_turn(pool, status, before, number));
        let answer = claims.call(number);
        let ghost after = claims.since(start);
        proof {
            assert(after =~= before.push((number, answer)));
            assert(after.drop_last() =~= before);
            assert forall|j: int| 0 <= j < after.len() implies is_turn(
                pool,
                status,
                after.take(j),
                (#[trigger] after[j]).0,
            ) by {
                assert(after.take(j) =~= before.take(j));
                if j == before.len() {
                    assert(before.take(j) =~= before);
                } else {
                    assert(before[j] == after[j]);
                }
            }
            assert forall|j: int| 0 <= j < after.len() - 1 implies (#[trigger] after[j]).1 == Ok::<
                bool,
                String,
            >(false) by {
                assert(before[j] == after[j]);
            }
            assert(is_claiming(pool, status, after));
        }
        match answer {
            Err(e) => {
                assert(answer == Err::<bool, String>(e));
                let failed: Result<Selection<'a>, String> = Err(e);
                assert(after.last().1 == Err::<bool, String>(failed->Err_0));
                return failed;
            },
            Ok(true) => {
                assert(is_claimed(pool, statuses@, status, after, selection));
                return Ok(selection);
            },
            Ok(false) => {
                proof {
                    lemma_best(whole, issues@.len() as int);
                    let at = whole.best(issues@.len() as int);
                    assert(whole.candidate(at));
                    assert(issues@[at].number == picked.number);
                    lemma_remaining_shrinks(issues@, lost@, issues@.len() as int, at);
                }
                store::put(&mut lost, picked.number);
            },
        }
    }
}

/// Whatever is claimed is in the pool and was read as fresh.
pub proof fn only_fresh_issues_are_claimed<S: Fn(u64) -> IssueStatus>(
    pool: Pool,
    status: &S,
    calls: Seq<(u64, Result<bool, String>)>,
    j: int,
)
    requires
        is_claiming(pool, status, calls),
        0 <= j < calls.len(),
    ensures
        exists|statuses: Seq<IssueStatus>, i: int|
            #![trigger read_as(pool.issues, status, statuses), pool.issues[i]]
            {
                &&& read_as(pool.issues, status, statuses)
                &&& 0 <= i < pool.issues.len()
                &&& pool.issues[i].number == calls[j].0
                &&& statuses[i] == IssueStatus::Fresh
                &&& pool.holds(i)
            },
{
    assert(is_turn(pool, status, calls.take(j), calls[j].0));
    let statuses = choose|statuses: Seq<IssueStatus>| #[trigger]
        read_as(pool.issues, status, statuses) && pool.reading(statuses).without(
            claimed(calls.take(j)),
        ).picks_fresh(calls[j].0);
    let whole = pool.reading(statuses).without(claimed(calls.take(j)));
    let n = pool.issues.len() as int;
    lemma_best(whole, n);
    let at = whole.best(n);
    assert(whole.candidate(at));
    assert(pool.holds(at));
    assert(pool.issues[at].number == calls[j].0);
}

/// No issue is claimed twice.
pub proof fn no_issue_is_claimed_twice<S: Fn(u64) -> IssueStatus>(
    pool: Pool,
    status: &S,
    calls: Seq<(u64, Result<bool, String>)>,
    i: int,
    j: int,
)
    requires
        is_claiming(pool, status, calls),
        0 <= i < j < calls.len(),
    ensures
        calls[i].0 != calls[j].0,
{
    assert(is_turn(pool, status, calls.take(j), calls[j].0));
    let statuses = choose|statuses: Seq<IssueStatus>| #[trigger]
        read_as(pool.issues, status, statuses) && pool.reading(statuses).without(
            claimed(calls.take(j)),
        ).picks_fresh(calls[j].0);
    let whole = pool.reading(statuses).without(claimed(calls.take(j)));
    lemma_best(whole, pool.issues.len() as int);
    assert(whole.candidate(whole.best(pool.issues.len() as int)));
    lemma_claimed_holds(calls.take(j), i);
}

pub proof fn lemma_claimed_holds(calls: Seq<(u64, Result<bool, String>)>, i: int)
    requires
        0 <= i < calls.len(),
    ensures
        claimed(calls).contains(calls[i].0),
    decreases calls.len(),
{
    if i < calls.len() - 1 {
        lemma_claimed_holds(calls.drop_last(), i);
    }
}

/// A pick that is resumed was not claimed, and no claim succeeded before it.
pub proof fn resumed_picks_are_not_claimed<S: Fn(u64) -> IssueStatus>(
    pool: Pool,
    statuses: Seq<IssueStatus>,
    status: &S,
    calls: Seq<(u64, Result<bool, String>)>,
    s: Selection,
    j: int,
)
    requires
        is_claimed(pool, statuses, status, calls, s),
        s.picked_status == Some(IssueStatus::Resumable),
        0 <= j < calls.len(),
    ensures
        calls[j].0 != s.picked->0.number,
        calls[j].1 == Ok::<bool, String>(false),
{
    let whole = pool.reading(statuses).without(claimed(calls));
    assert(is_selection(whole, s));
    assert(s.picked is Some);
    lemma_best(whole, pool.issues.len() as int);
    assert(whole.candidate(whole.best(pool.issues.len() as int)));
    lemma_claimed_holds(calls, j);
    assert(lost_claims(false, calls)[j].1 == Ok::<bool, String>(false));
}

/// Why an issue won.
pub open spec fn reason(issue: IssueListing, me: Seq<char>, priority: Seq<String>) -> Seq<char> {
    let mine = "assigned to "@ + me;
    let label = "priority label `"@ + priority[rank(issue, priority) as int]@ + "`"@;
    if assigned(issue, me) {
        if rank(issue, priority) != usize::MAX {
            mine + ", "@ + label
        } else {
            mine
        }
    } else if rank(issue, priority) != usize::MAX {
        label
    } else {
        "the earliest eligible open issue"@
    }
}

/// A one-line explanation of why the issue won.
pub fn rationale(issue: &IssueListing, me: &str, priority_labels: &[String]) -> (r: String)
    ensures
        r@ == reason(*issue, me@, priority_labels@),
{
    let mine = assigned_to(issue, me);
    let rank: usize = label_rank(issue, priority_labels);
    if !mine && rank == usize::MAX {
        return text::copy("the earliest eligible open issue");
    }
    let label = if rank != usize::MAX {
        let mut s = text::copy("priority label `");
        s.append(priority_labels[rank].as_str());
        s.append("`");
        s
    } else {
        String::new()
    };
    if !mine {
        return label;
    }
    let mut out = text::copy("assigned to ");
    out.append(me);
    if rank != usize::MAX {
        out.append(", ");
        out.append(label.as_str());
    }
    out
}

pub const LIVE_END: &'static str = " — a session is currently running it.\n";

pub const BLOCKED_END: &'static str = " — blocked by an open issue.\n";

pub const TRACKING_END: &'static str =
    " — a tracking issue (has sub-issues); \
     work a sub-issue with `ghwf work-on %` or `ghwf work-on <sub>`.\n";

/// A line for each issue that was skipped: `end` says why, with the number in
/// the place of each `%`.
pub open spec fn skip_lines(numbers: Seq<u64>, end: Seq<char>) -> Seq<char>
    decreases numbers.len(),
{
    if numbers.len() == 0 {
        seq![]
    } else {
        let n = text::decimal(numbers.last() as nat);
        skip_lines(numbers.drop_last(), end) + "Skipping #"@ + n + text::fill(end, n)
    }
}

/// A line for each issue that was skipped.
fn skip_report(numbers: &Vec<u64>, end: &str) -> (r: String)
    ensures
        r@ == skip_lines(numbers@, end@),
{
    let mut out = String::new();
    let mut i: usize = 0;
    assert(numbers@.take(0) =~= seq![]);
    while i < numbers.len()
        invariant
            i <= numbers.len(),
            out@ == skip_lines(numbers@.take(i as int), end@),
        decreases numbers.len() - i,
    {
        out.append("Skipping #");
        out.append(text::number(numbers[i]).as_str());
        out.append(text::filled_number(end, numbers[i]).as_str());
        assert(numbers@.take(i + 1).drop_last() =~= numbers@.take(i as int));
        i = i + 1;
    }
    assert(numbers@.take(numbers@.len() as int) =~= numbers@);
    out
}

/// What is announced of a selection.
pub open spec fn announcement(
    s: Selection,
    me: Seq<char>,
    priority: Seq<String>,
) -> Seq<char> {
    skip_lines(s.skipped_live@, LIVE_END@) + skip_lines(s.skipped_blocked@, BLOCKED_END@)
        + skip_lines(s.skipped_tracking@, TRACKING_END@) + (match s.picked {
        Some(issue) => (if s.picked_status == Some(IssueStatus::Resumable) {
            "Resuming"@
        } else {
            "Picked"@
        }) + " #"@ + text::decimal(issue.number as nat) + " \""@ + issue.title@ + "\" — "@
            + reason(*issue, me, priority) + "."@,
        None => seq![],
    })
}

/// Announce a selection: the skipped issues, then the pick and its rationale. A
/// resumable pick is in-progress work being re-entered, not a new start.
pub fn announce_pick(selection: &Selection, me: &str, priority_labels: &[String]) -> (r: String)
    ensures
        r@ == announcement(*selection, me@, priority_labels@),
{
    let pick = match selection.picked {
        Some(issue) => {
            let resumes = match selection.picked_status {
                Some(IssueStatus::Resumable) => true,
                _ => false,
            };
            let mut s = text::copy(
                if resumes {
                    "Resuming"
                } else {
                    "Picked"
                },
            );
            s.append(" #");
            s.append(text::number(issue.number).as_str());
            s.append(" \"");
            s.append(issue.title.as_str());
            s.append("\" — ");
            s.append(rationale(issue, me, priority_labels).as_str());
            s.append(".");
            s
        },
        None => String::new(),
    };
    let mut out = skip_report(&selection.skipped_live, LIVE_END);
    out.append(skip_report(&selection.skipped_blocked, BLOCKED_END).as_str());
    out.append(skip_report(&selection.skipped_tracking, TRACKING_END).as_str());
    out.append(pick.as_str());
    out
}

/// A walk through the sub-issues of a tracking issue: the issues that were
/// reached, in order, and the sub-issues each tracking one was found to have.
pub struct Walk {
    pub parent: u64,
    pub children: Seq<IssueListing>,
    pub nodes: Seq<IssueListing>,
    pub answers: Map<u64, Seq<IssueListing>>,
}

impl Walk {
    /// The number is the parent's or that of an issue that was reached.
    pub open spec fn reached(self, n: u64) -> bool {
        n == self.parent || exists|i: int|
            0 <= i < self.nodes.len() && (#[trigger] self.nodes[i]).number == n
    }

    /// An open issue, and a child of the parent or of one of the first `upto`
    /// issues reached, a tracking issue.
    pub open spec fn leads_to(self, x: IssueListing, upto: int) -> bool {
        x.opened() && (self.children.contains(x) || exists|j: int|
            0 <= j < upto && (#[trigger] self.nodes[j]).tracking()
                && self.answers[self.nodes[j].number].contains(x))
    }

    /// No issue is reached twice, nor the parent, and each only through an open
    /// issue's parent that was reached before.
    pub open spec fn sound(self) -> bool {
        &&& forall|i: int, j: int|
            0 <= i < j < self.nodes.len() ==> (#[trigger] self.nodes[i]).number != (
            #[trigger] self.nodes[j]).number
        &&& forall|i: int|
            0 <= i < self.nodes.len() ==> (#[trigger] self.nodes[i]).number != self.parent
        &&& forall|i: int|
            0 <= i < self.nodes.len() ==> self.leads_to(#[trigger] self.nodes[i], i)
    }

    /// Every open child of the parent, and of each tracking issue reached, is
    /// reached.
    pub open spec fn complete(self) -> bool {
        forall|x: IssueListing| #[trigger]
            self.leads_to(x, self.nodes.len() as int) ==> self.reached(x.number)
    }

    /// These are the listings made: one for each tracking issue reached, in order, and
    /// none besides.
    pub open spec fn heard(
        self,
        calls: Seq<(u64, Result<Vec<IssueListing>, String>)>,
    ) -> bool {
        heard(self.nodes, self.answers, calls)
    }

    /// The issues reached that have no sub-issues, in order.
    pub open spec fn leaves(self) -> Seq<IssueListing> {
        untracked(self.nodes)
    }
}

/// The issues that are no tracking issues, in order.
pub open spec fn untracked(nodes: Seq<IssueListing>) -> Seq<IssueListing>
    decreases nodes.len(),
{
    if nodes.len() == 0 {
        seq![]
    } else if nodes.last().tracking() {
        untracked(nodes.drop_last())
    } else {
        untracked(nodes.drop_last()).push(nodes.last())
    }
}

/// The function that lists an issue's children, with the listings it has made.
pub type Listings<L> = record::Recorded<L, u64, Result<Vec<IssueListing>, String>>;

/// One listing was made for each tracking issue, in order, and gave its sub-issues.
pub open spec fn heard(
    nodes: Seq<IssueListing>,
    answers: Map<u64, Seq<IssueListing>>,
    calls: Seq<(u64, Result<Vec<IssueListing>, String>)>,
) -> bool
    decreases nodes.len(),
{
    if nodes.len() == 0 {
        calls.len() == 0
    } else if nodes.last().tracking() {
        &&& calls.len() > 0
        &&& calls.last().0 == nodes.last().number
        &&& calls.last().1 is Ok
        &&& calls.last().1->Ok_0@ == answers[nodes.last().number]
        &&& heard(nodes.drop_last(), answers, calls.drop_last())
    } else {
        heard(nodes.drop_last(), answers, calls)
    }
}

/// What was listed of other issues is not touched by one more answer.
proof fn lemma_heard_insert(
    nodes: Seq<IssueListing>,
    answers: Map<u64, Seq<IssueListing>>,
    calls: Seq<(u64, Result<Vec<IssueListing>, String>)>,
    n: u64,
    kids: Seq<IssueListing>,
)
    requires
        heard(nodes, answers, calls),
        forall|i: int| 0 <= i < nodes.len() ==> (#[trigger] nodes[i]).number != n,
    ensures
        heard(nodes, answers.insert(n, kids), calls),
    decreases nodes.len(),
{
    if nodes.len() > 0 {
        assert(nodes[nodes.len() - 1] == nodes.last());
        assert forall|i: int| 0 <= i < nodes.drop_last().len() implies (
        #[trigger] nodes.drop_last()[i]).number != n by {
            assert(nodes[i] == nodes.drop_last()[i]);
        }
        if nodes.last().tracking() {
            lemma_heard_insert(nodes.drop_last(), answers, calls.drop_last(), n, kids);
        } else {
            lemma_heard_insert(nodes.drop_last(), answers, calls, n, kids);
        }
    }
}

/// The walk came to a tracking issue whose sub-issues could not be listed: the last
/// listing made is that, and failed with `e`.
pub open spec fn walk_fails(
    w: Walk,
    node: IssueListing,
    calls: Seq<(u64, Result<Vec<IssueListing>, String>)>,
    e: String,
) -> bool {
    &&& w.sound()
    &&& w.leads_to(node, w.nodes.len() as int)
    &&& !w.reached(node.number)
    &&& node.tracking()
    &&& calls.len() > 0
    &&& calls.last() == (node.number, Err::<Vec<IssueListing>, String>(e))
    &&& w.heard(calls.drop_last())
}

/// Every listing made is of an issue that was reached.
proof fn lemma_listed(
    nodes: Seq<IssueListing>,
    answers: Map<u64, Seq<IssueListing>>,
    calls: Seq<(u64, Result<Vec<IssueListing>, String>)>,
    i: int,
)
    requires
        heard(nodes, answers, calls),
        0 <= i < calls.len(),
    ensures
        exists|k: int| 0 <= k < nodes.len() && (#[trigger] nodes[k]).number == calls[i].0,
    decreases nodes.len(),
{
    if nodes.last().tracking() && i == calls.len() - 1 {
        assert(nodes[nodes.len() - 1].number == calls[i].0);
    } else {
        let others = nodes.drop_last();
        let earlier = if nodes.last().tracking() {
            calls.drop_last()
        } else {
            calls
        };
        lemma_listed(others, answers, earlier, i);
        let k = choose|k: int| 0 <= k < others.len() && (#[trigger] others[k]).number == calls[i].0;
        assert(nodes[k].number == calls[i].0);
    }
}

/// Where no issue is reached twice, none is listed twice.
proof fn lemma_listed_once(
    nodes: Seq<IssueListing>,
    answers: Map<u64, Seq<IssueListing>>,
    calls: Seq<(u64, Result<Vec<IssueListing>, String>)>,
    i: int,
    j: int,
)
    requires
        heard(nodes, answers, calls),
        forall|a: int, b: int|
            0 <= a < b < nodes.len() ==> (#[trigger] nodes[a]).number != (
            #[trigger] nodes[b]).number,
        0 <= i < j < calls.len(),
    ensures
        calls[i].0 != calls[j].0,
    decreases nodes.len(),
{
    let others = nodes.drop_last();
    if nodes.last().tracking() && j == calls.len() - 1 {
        lemma_listed(others, answers, calls.drop_last(), i);
        let k = choose|k: int| 0 <= k < others.len() && (#[trigger] others[k]).number == calls[i].0;
        assert(nodes[k].number != nodes[nodes.len() - 1].number);
    } else {
        let earlier = if nodes.last().tracking() {
            calls.drop_last()
        } else {
            calls
        };
        assert forall|a: int, b: int| 0 <= a < b < others.len() implies (
        #[trigger] others[a]).number != (#[trigger] others[b]).number by {
            assert(nodes[a].number != nodes[b].number);
        }
        lemma_listed_once(others, answers, earlier, i, j);
    }
}

/// A walk lists the sub-issues of no issue twice, and of the parent not at all,
/// whether it ends or a listing fails: issues that are each other's sub-issues
/// cannot keep it going.
pub proof fn no_issue_is_listed_twice(
    w: Walk,
    calls: Seq<(u64, Result<Vec<IssueListing>, String>)>,
    i: int,
    j: int,
)
    requires
        w.sound(),
        w.heard(calls) || exists|node: IssueListing, e: String| walk_fails(w, node, calls, e),
        0 <= i < calls.len(),
        0 <= j < calls.len(),
    ensures
        i != j ==> calls[i].0 != calls[j].0,
        calls[i].0 != w.parent,
{
    let ended = if w.heard(calls) {
        calls
    } else {
        calls.drop_last()
    };
    if i < ended.len() {
        lemma_listed(w.nodes, w.answers, ended, i);
    }
    if j < ended.len() {
        lemma_listed(w.nodes, w.answers, ended, j);
    }
    if i < j < ended.len() {
        lemma_listed_once(w.nodes, w.answers, ended, i, j);
    } else if j < i < ended.len() {
        lemma_listed_once(w.nodes, w.answers, ended, j, i);
    }
}

/// The number stands on the stack.
spec fn pending(stack: Seq<IssueListing>, n: u64) -> bool {
    exists|k: int| 0 <= k < stack.len() && (#[trigger] stack[k]).number == n
}

/// Put the open ones of `children` on the stack, the first on top.
fn push_open(stack: &mut Vec<IssueListing>, children: Vec<IssueListing>)
    ensures
        final(stack)@.len() >= old(stack)@.len(),
        forall|k: int|
            0 <= k < old(stack)@.len() ==> #[trigger] final(stack)@[k] == old(stack)@[k],
        forall|k: int|
            old(stack)@.len() <= k < final(stack)@.len() ==> children@.contains(
                #[trigger] final(stack)@[k],
            ) && final(stack)@[k].opened(),
        forall|x: IssueListing| #[trigger]
            children@.contains(x) && x.opened() ==> final(stack)@.contains(x),
{
    let ghost all = children@;
    let ghost before = stack@;
    let mut rest = children;
    assert(rest@ == all.take(rest@.len() as int));
    while rest.len() > 0
        invariant
            rest@.len() <= all.len(),
            rest@ == all.take(rest@.len() as int),
            stack@.len() >= before.len(),
            forall|k: int| 0 <= k < before.len() ==> #[trigger] stack@[k] == before[k],
            forall|k: int|
                before.len() <= k < stack@.len() ==> all.contains(#[trigger] stack@[k])
                    && stack@[k].opened(),
            forall|i: int|
                rest@.len() <= i < all.len() && (#[trigger] all[i]).opened()
                    ==> stack@.contains(all[i]),
        decreases rest.len(),
    {
        let ghost last = rest@.len() - 1;
        let ghost held = stack@;
        assert(rest@.last() == all[last]);
        match rest.pop() {
            Some(child) => {
                assert(child == all[last]);
                if child.is_open() {
                    stack.push(child);
                    assert forall|i: int|
                        last <= i < all.len() && (#[trigger] all[i]).opened() implies stack@.contains(
                        all[i],
                    ) by {
                        if i == last {
                            assert(stack@[held.len() as int] == all[i]);
                        } else {
                            assert(held.contains(all[i]));
                            let k = choose|k: int| 0 <= k < held.len() && held[k] == all[i];
                            assert(stack@[k] == all[i]);
                        }
                    }
                }
            },
            None => {},
        }
        assert(rest@ =~= all.take(last));
    }
    assert forall|x: IssueListing| #[trigger] all.contains(x) && x.opened() implies stack@.contains(
        x,
    ) by {
        let i = choose|i: int| 0 <= i < all.len() && all[i] == x;
        assert(stack@.contains(all[i]));
    }
}

proof fn lemma_fewer_unvisited(visited: Set<u64>, n: u64)
    requires
        !visited.contains(n),
    ensures
        Set::<u64>::full().difference(visited.insert(n)).len() < Set::<u64>::full().difference(
            visited,
        ).len(),
{
    broadcast use vstd::set_lib::full_set_properties;

    let all = Set::<u64>::full();
    vstd::set_lib::lemma_len_subset(all.difference(visited), all);
    assert(all.difference(visited.insert(n)) =~= all.difference(visited).remove(n));
}

/// The walk with one more issue reached, and its children where it is a
/// tracking issue.
spec fn stepped(w: Walk, node: IssueListing, kids: Seq<IssueListing>) -> Walk {
    Walk {
        nodes: w.nodes.push(node),
        answers: if node.tracking() {
            w.answers.insert(node.number, kids)
        } else {
            w.answers
        },
        ..w
    }
}

proof fn lemma_stepped_leads(w: Walk, node: IssueListing, kids: Seq<IssueListing>, x: IssueListing)
    requires
        w.sound(),
        !w.reached(node.number),
    ensures
        forall|upto: int|
            0 <= upto <= w.nodes.len() ==> #[trigger] stepped(w, node, kids).leads_to(x, upto)
                == w.leads_to(x, upto),
        stepped(w, node, kids).leads_to(x, w.nodes.len() as int + 1) == (w.leads_to(
            x,
            w.nodes.len() as int,
        ) || (x.opened() && node.tracking() && kids.contains(x))),
{
    let next = stepped(w, node, kids);
    let n = w.nodes.len() as int;
    assert forall|j: int| 0 <= j < n implies (#[trigger] next.nodes[j]) == w.nodes[j]
        && next.answers[w.nodes[j].number] == w.answers[w.nodes[j].number] by {
        assert(w.nodes[j].number != node.number);
    }
    assert(next.nodes[n] == node);
    assert forall|upto: int| 0 <= upto <= n implies #[trigger] next.leads_to(x, upto)
        == w.leads_to(x, upto) by {
        if w.leads_to(x, upto) && !w.children.contains(x) {
            let j = choose|j: int|
                0 <= j < upto && (#[trigger] w.nodes[j]).tracking()
                    && w.answers[w.nodes[j].number].contains(x);
            assert(next.nodes[j].tracking());
        }
    }
    if w.leads_to(x, n) && !w.children.contains(x) {
        let j = choose|j: int|
            0 <= j < n && (#[trigger] w.nodes[j]).tracking()
                && w.answers[w.nodes[j].number].contains(x);
        assert(next.nodes[j].tracking());
    }
    if x.opened() && node.tracking() && kids.contains(x) {
        assert(next.nodes[n].tracking());
    }
}

proof fn lemma_stepped_sound(w: Walk, node: IssueListing, kids: Seq<IssueListing>)
    requires
        w.sound(),
        !w.reached(node.number),
        w.leads_to(node, w.nodes.len() as int),
    ensures
        stepped(w, node, kids).sound(),
        forall|m: u64| #[trigger]
            stepped(w, node, kids).reached(m) == (w.reached(m) || m == node.number),
        stepped(w, node, kids).leaves() == if node.tracking() {
            w.leaves()
        } else {
            w.leaves().push(node)
        },
{
    let next = stepped(w, node, kids);
    let n = w.nodes.len() as int;
    assert(next.nodes.drop_last() =~= w.nodes);
    assert forall|i: int| 0 <= i < next.nodes.len() implies next.leads_to(
        #[trigger] next.nodes[i],
        i,
    ) by {
        lemma_stepped_leads(w, node, kids, next.nodes[i]);
        if i < n {
            assert(w.leads_to(w.nodes[i], i));
        }
    }
    assert forall|m: u64| #[trigger] next.reached(m) == (w.reached(m) || m == node.number) by {
        if w.reached(m) && m != w.parent {
            let i = choose|i: int| 0 <= i < n && (#[trigger] w.nodes[i]).number == m;
            assert(next.nodes[i].number == m);
        }
        assert(next.nodes[n].number == node.number);
        if next.reached(m) && m != w.parent && m != node.number {
            let i = choose|i: int| 0 <= i <= n && (#[trigger] next.nodes[i]).number == m;
            assert(w.nodes[i].number == m);
        }
    }
    assert forall|i: int, j: int| 0 <= i < j < next.nodes.len() implies (
    #[trigger] next.nodes[i]).number != (#[trigger] next.nodes[j]).number by {
        if j == n {
            assert(w.nodes[i].number != node.number);
        }
    }
}

/// Walk depth-first from the open `children` of `parent`, gathering each open
/// issue that is no tracking issue. Tracking issues are descended into, their
/// children fetched with `list_children`. An issue reached twice counts once,
/// so a cycle in the sub-issue graph does no harm.
pub fn collect_leaves<L: Fn(u64) -> Result<Vec<IssueListing>, String>>(
    parent: u64,
    children: Vec<IssueListing>,
    list_children: &mut Listings<L>,
) -> (r: Result<Vec<IssueListing>, String>)
    requires
        old(list_children).ready(),
    ensures
        final(list_children).continues(*old(list_children)),
        match r {
            Ok(leaves) => exists|w: Walk|
                w.parent == parent && w.children == children@ && #[trigger] w.sound()
                    && w.complete() && w.heard(final(list_children).since(*old(list_children)))
                    && leaves@ == w.leaves(),
            Err(e) => exists|w: Walk, node: IssueListing|
                w.parent == parent && w.children == children@ && #[trigger] walk_fails(
                    w,
                    node,
                    final(list_children).since(*old(list_children)),
                    e,
                ),
        },
{
    let ghost start = *list_children;
    assert(list_children.since(start) =~= seq![]);
    let ghost mut w = Walk {
        parent,
        children: children@,
        nodes: seq![],
        answers: Map::empty(),
    };
    let mut visited: BTreeSet<u64> = BTreeSet::new();
    store::put(&mut visited, parent);
    let mut leaves: Vec<IssueListing> = Vec::new();
    let mut stack: Vec<IssueListing> = Vec::new();
    push_open(&mut stack, children);
    proof {
        assert forall|x: IssueListing| #[trigger] w.leads_to(x, 0) implies pending(
            stack@,
            x.number,
        ) by {
            let k = choose|k: int| 0 <= k < stack@.len() && stack@[k] == x;
            assert(stack@[k].number == x.number);
        }
    }
    while stack.len() > 0
        invariant
            list_children.ready(),
            list_children.continues(start),
            start == *old(list_children),
            w.parent == parent,
            w.children == children@,
            w.sound(),
            w.heard(list_children.since(start)),
            leaves@ == w.leaves(),
            forall|m: u64| #[trigger] visited@.contains(m) == w.reached(m),
            forall|k: int|
                0 <= k < stack@.len() ==> w.leads_to(#[trigger] stack@[k], w.nodes.len() as int),
            forall|x: IssueListing| #[trigger]
                w.leads_to(x, w.nodes.len() as int) ==> w.reached(x.number) || pending(
                    stack@,
                    x.number,
                ),
        decreases Set::<u64>::full().difference(visited@).len(), stack.len(),
    {
        let ghost full_stack = stack@;
        let node = match stack.pop() {
            Some(node) => node,
            None => {
                return Ok(leaves);
            },
        };
        let number: u64 = node.number;
        assert(full_stack[full_stack.len() - 1] == node);
        proof {
            assert forall|m: u64| pending(full_stack, m) implies m == number || pending(stack@, m) by {
                let k = choose|k: int| 0 <= k < full_stack.len() && (
                #[trigger] full_stack[k]).number == m;
                if k < stack@.len() {
                    assert(stack@[k].number == m);
                }
            }
            assert forall|k: int| 0 <= k < stack@.len() implies w.leads_to(
                #[trigger] stack@[k],
                w.nodes.len() as int,
            ) by {
                assert(full_stack[k] == stack@[k]);
            }
        }
        if !store::holds(&visited, number) {
            proof {
                lemma_fewer_unvisited(visited@, number);
            }
            store::put(&mut visited, number);
            let tracking = node.is_tracking();
            let ghost before = w;
            let ghost held = stack@;
            let ghost mut kids: Seq<IssueListing> = seq![];
            if tracking {
                let ghost earlier = list_children.since(start);
                let listed = list_children.call(number);
                let ghost answer = listed;
                let ghost calls = list_children.since(start);
                assert(calls =~= earlier.push((number, answer)));
                assert(calls.drop_last() =~= earlier);
                match listed {
                    Ok(found) => {
                        proof {
                            kids = found@;
                            assert(answer == Ok::<Vec<IssueListing>, String>(found));
                            lemma_heard_insert(before.nodes, before.answers, earlier, number, kids);
                        }
                        push_open(&mut stack, found);
                    },
                    Err(e) => {
                        let failed: Result<Vec<IssueListing>, String> = Err(e);
                        assert(answer == Err::<Vec<IssueListing>, String>(e));
                        assert(walk_fails(before, node, calls, failed->Err_0));
                        return failed;
                    },
                }
            }
            proof {
                w = stepped(before, node, kids);
                lemma_stepped_sound(before, node, kids);
                assert forall|k: int| 0 <= k < stack@.len() implies w.leads_to(
                    #[trigger] stack@[k],
                    w.nodes.len() as int,
                ) by {
                    lemma_stepped_leads(before, node, kids, stack@[k]);
                    if k < held.len() {
                        assert(stack@[k] == held[k]);
                    }
                }
                assert forall|x: IssueListing| #[trigger]
                    w.leads_to(x, w.nodes.len() as int) implies w.reached(x.number) || pending(
                    stack@,
                    x.number,
                ) by {
                    lemma_stepped_leads(before, node, kids, x);
                    if before.leads_to(x, before.nodes.len() as int) {
                        if !before.reached(x.number) && x.number != number {
                            assert(pending(full_stack, x.number));
                            assert(pending(held, x.number));
                            let k = choose|k: int| 0 <= k < held.len() && (
                            #[trigger] held[k]).number == x.number;
                            assert(stack@[k].number == x.number);
                        }
                    } else {
                        let k = choose|k: int| 0 <= k < stack@.len() && stack@[k] == x;
                        assert(stack@[k].number == x.number);
                    }
                }
                assert(w.nodes.drop_last() =~= before.nodes);
                assert(w.heard(list_children.since(start)));
            }
            if !tracking {
                leaves.push(node);
            }
        }
    }
    proof {
        assert forall|x: IssueListing| #[trigger]
            w.leads_to(x, w.nodes.len() as int) implies w.reached(x.number) by {
            assert(!pending(stack@, x.number));
        }
        assert(w.complete());
    }
    Ok(leaves)
}

/// The position of the first allowed issue with the least key among the first
/// `count`, or -1.
pub open spec fn least(
    issues: Seq<IssueListing>,
    allowed: Seq<bool>,
    me: Seq<char>,
    priority: Seq<String>,
    count: int,
) -> int
    decreases count,
{
    if count <= 0 {
        -1
    } else {
        let before = least(issues, allowed, me, priority, count - 1);
        if allowed[count - 1] && (before < 0 || key_lt(
            key_of(issues[count - 1], me, priority),
            key_of(issues[before], me, priority),
        )) {
            count - 1
        } else {
            before
        }
    }
}

/// Whether each issue is not blocked.
pub open spec fn unblocked(issues: Seq<IssueListing>) -> Seq<bool> {
    Seq::new(issues.len(), |i: int| !issues[i].blocked())
}

/// The position of the leaf to work on, or -1: the first by key of those that
/// are underway, else of those that are not blocked.
pub open spec fn leaf_choice(
    leaves: Seq<IssueListing>,
    underway: Seq<bool>,
    me: Seq<char>,
    priority: Seq<String>,
) -> int {
    let n = leaves.len() as int;
    let started = least(leaves, underway, me, priority, n);
    if started >= 0 {
        started
    } else {
        least(leaves, unblocked(leaves), me, priority, n)
    }
}

/// The first allowed leaf by key.
fn least_of(
    issues: &Vec<IssueListing>,
    allowed: &Vec<bool>,
    me: &str,
    priority_labels: &[String],
) -> (r: Option<usize>)
    requires
        allowed@.len() == issues@.len(),
    ensures
        match r {
            Some(at) => at < issues@.len() && at == least(
                issues@,
                allowed@,
                me@,
                priority_labels@,
                issues@.len() as int,
            ),
            None => least(issues@, allowed@, me@, priority_labels@, issues@.len() as int) < 0,
        },
{
    let mut best: Option<usize> = None;
    let mut i: usize = 0;
    while i < issues.len()
        invariant
            i <= issues.len(),
            allowed@.len() == issues@.len(),
            match best {
                Some(at) => at < i && at == least(
                    issues@,
                    allowed@,
                    me@,
                    priority_labels@,
                    i as int,
                ),
                None => least(issues@, allowed@, me@, priority_labels@, i as int) < 0,
            },
        decreases issues.len() - i,
    {
        if allowed[i] {
            let key = sort_key(&issues[i], me, priority_labels);
            let better = match best {
                Some(at) => comes_before(key, sort_key(&issues[at], me, priority_labels)),
                None => true,
            };
            if better {
                best = Some(i);
            }
        }
        i = i + 1;
    }
    best
}

/// Choose the leaf to work on: an underway one (resumed, even if now blocked,
/// since work is underway) before the best fresh, non-blocked one.
pub fn choose_leaf(
    leaves: &Vec<IssueListing>,
    underway: &Vec<bool>,
    me: &str,
    priority_labels: &[String],
) -> (r: Option<usize>)
    requires
        underway@.len() == leaves@.len(),
    ensures
        match r {
            Some(at) => at < leaves@.len() && at == leaf_choice(
                leaves@,
                underway@,
                me@,
                priority_labels@,
            ),
            None => leaf_choice(leaves@, underway@, me@, priority_labels@) < 0,
        },
{
    match least_of(leaves, underway, me, priority_labels) {
        Some(at) => Some(at),
        None => {
            let mut open: Vec<bool> = Vec::new();
            let mut i: usize = 0;
            while i < leaves.len()
                invariant
                    i <= leaves.len(),
                    open@ == unblocked(leaves@).take(i as int),
                decreases leaves.len() - i,
            {
                open.push(!leaves[i].is_blocked());
                i = i + 1;
                assert(open@ =~= unblocked(leaves@).take(i as int));
            }
            assert(open@ =~= unblocked(leaves@));
            least_of(leaves, &open, me, priority_labels)
        },
    }
}

pub proof fn lemma_least(
    issues: Seq<IssueListing>,
    allowed: Seq<bool>,
    me: Seq<char>,
    priority: Seq<String>,
    count: int,
)
    requires
        0 <= count <= issues.len(),
    ensures
        -1 <= least(issues, allowed, me, priority, count) < count,
        least(issues, allowed, me, priority, count) >= 0 ==> allowed[least(
            issues,
            allowed,
            me,
            priority,
            count,
        )],
        forall|k: int|
            0 <= k < count && #[trigger] allowed[k] ==> least(issues, allowed, me, priority, count)
                >= 0 && !key_lt(
                key_of(issues[k], me, priority),
                key_of(issues[least(issues, allowed, me, priority, count)], me, priority),
            ),
    decreases count,
{
    if count > 0 {
        lemma_least(issues, allowed, me, priority, count - 1);
        let before = least(issues, allowed, me, priority, count - 1);
        let now = least(issues, allowed, me, priority, count);
        assert forall|k: int| 0 <= k < count && #[trigger] allowed[k] implies now >= 0 && !key_lt(
            key_of(issues[k], me, priority),
            key_of(issues[now], me, priority),
        ) by {
            let key = key_of(issues[k], me, priority);
            if k < count - 1 {
                lemma_key_order(
                    key_of(issues[now], me, priority),
                    key_of(issues[before], me, priority),
                    key,
                );
                lemma_key_order(
                    key,
                    key_of(issues[before], me, priority),
                    key_of(issues[now], me, priority),
                );
            }
        }
    }
}

/// A leaf that is underway is resumed before any fresh one is started, and a
/// blocked leaf is never started. Of the leaves of its kind, the chosen one
/// comes first. Where there is a leaf that is underway or not blocked, one is
/// chosen.
pub proof fn underway_leaves_come_first(
    leaves: Seq<IssueListing>,
    underway: Seq<bool>,
    me: Seq<char>,
    priority: Seq<String>,
    k: int,
)
    requires
        underway.len() == leaves.len(),
        0 <= k < leaves.len(),
        underway[k] || !leaves[k].blocked(),
    ensures
        0 <= leaf_choice(leaves, underway, me, priority) < leaves.len(),
        underway[k] ==> underway[leaf_choice(leaves, underway, me, priority)],
        underway[leaf_choice(leaves, underway, me, priority)] || !leaves[leaf_choice(
            leaves,
            underway,
            me,
            priority,
        )].blocked(),
        underway[k] == underway[leaf_choice(leaves, underway, me, priority)] ==> !key_lt(
            key_of(leaves[k], me, priority),
            key_of(leaves[leaf_choice(leaves, underway, me, priority)], me, priority),
        ),
{
    let n = leaves.len() as int;
    lemma_least(leaves, underway, me, priority, n);
    lemma_least(leaves, unblocked(leaves), me, priority, n);
    if least(leaves, underway, me, priority, n) < 0 {
        assert(!underway[k]);
        assert(unblocked(leaves)[k]);
        let at = least(leaves, unblocked(leaves), me, priority, n);
        assert(unblocked(leaves)[at]);
    }
}

pub const NOTHING_WORKABLE: &'static str =
    "#% is a tracking issue, but none of its sub-issues are workable \
     (all are blocked, closed, or already complete); pick a specific sub-issue \
     with `ghwf work-on <sub>`.";

/// The leaves that a walk reaches and whether each is underway decide on `n`;
/// `None` stands for no leaf.
pub open spec fn leads_to_choice<U: Fn(u64) -> bool>(
    w: Walk,
    started: Seq<bool>,
    me: Seq<char>,
    priority: Seq<String>,
    listings: Seq<(u64, Result<Vec<IssueListing>, String>)>,
    underway: &U,
    n: Option<u64>,
) -> bool {
    let leaves = w.leaves();
    let at = leaf_choice(leaves, started, me, priority);
    &&& w.sound() && w.complete() && w.heard(listings)
    &&& started.len() == leaves.len()
    &&& forall|i: int|
        0 <= i < leaves.len() ==> call_ensures(underway, (leaves[i].number,), #[trigger] started[i])
    &&& match n {
        Some(n) => 0 <= at < leaves.len() && leaves[at].number == n,
        None => at < 0,
    }
}

/// Whether each leaf is underway.
fn underway_of<U: Fn(u64) -> bool>(leaves: &Vec<IssueListing>, underway: &U) -> (r: Vec<bool>)
    requires
        forall|n: u64| #[trigger] call_requires(underway, (n,)),
    ensures
        r@.len() == leaves@.len(),
        forall|i: int|
            0 <= i < leaves@.len() ==> call_ensures(underway, (leaves@[i].number,), #[trigger] r@[i]),
{
    let mut out: Vec<bool> = Vec::new();
    let mut i: usize = 0;
    while i < leaves.len()
        invariant
            i <= leaves.len(),
            out@.len() == i,
            forall|n: u64| #[trigger] call_requires(underway, (n,)),
            forall|j: int|
                0 <= j < i ==> call_ensures(underway, (leaves@[j].number,), #[trigger] out@[j]),
        decreases leaves.len() - i,
    {
        let started = underway(leaves[i].number);
        out.push(started);
        i = i + 1;
    }
    out
}

/// Choose a workable descendant leaf of the tracking issue `parent`, whose
/// direct `children` have already been fetched. Descends into tracking children
/// with `list_children`; `underway` reports whether a leaf's work has already
/// begun (started and not concluded). Fails when a listing fails, or when no
/// descendant is workable.
pub fn pick_workable_leaf<
    L: Fn(u64) -> Result<Vec<IssueListing>, String>,
    U: Fn(u64) -> bool,
>(
    parent: u64,
    children: Vec<IssueListing>,
    me: &str,
    priority_labels: &[String],
    list_children: &mut Listings<L>,
    underway: &U,
) -> (r: Result<u64, String>)
    requires
        old(list_children).ready(),
        forall|n: u64| #[trigger] call_requires(underway, (n,)),
    ensures
        final(list_children).continues(*old(list_children)),
        match r {
            Ok(n) => exists|w: Walk, started: Seq<bool>|
                w.parent == parent && w.children == children@ && #[trigger] leads_to_choice(
                    w,
                    started,
                    me@,
                    priority_labels@,
                    final(list_children).since(*old(list_children)),
                    underway,
                    Some(n),
                ),
            Err(e) => (exists|w: Walk, node: IssueListing|
                w.parent == parent && w.children == children@ && #[trigger] walk_fails(
                    w,
                    node,
                    final(list_children).since(*old(list_children)),
                    e,
                )) || (e@
                == text::fill(NOTHING_WORKABLE@, text::decimal(parent as nat)) && exists|
                w: Walk,
                started: Seq<bool>,
            |
                w.parent == parent && w.children == children@ && #[trigger] leads_to_choice(
                    w,
                    started,
                    me@,
                    priority_labels@,
                    final(list_children).since(*old(list_children)),
                    underway,
                    None,
                )),
        },
{
    let ghost all = children@;
    let leaves = match collect_leaves(parent, children, list_children) {
        Ok(leaves) => leaves,
        Err(e) => {
            let failed: Result<u64, String> = Err(e);
            assert(failed->Err_0 == e);
            return failed;
        },
    };
    let ghost listings = list_children.since(*old(list_children));
    let ghost w = choose|w: Walk|
        w.parent == parent && w.children == all && #[trigger] w.sound() && w.complete()
            && w.heard(listings) && leaves@ == w.leaves();
    let started = underway_of(&leaves, underway);
    match choose_leaf(&leaves, &started, me, priority_labels) {
        Some(at) => {
            let number: u64 = leaves[at].number;
            let found: Result<u64, String> = Ok(number);
            assert(leads_to_choice(
                w,
                started@,
                me@,
                priority_labels@,
                listings,
                underway,
                Some(found->Ok_0),
            ));
            found
        },
        None => {
            assert(leads_to_choice(
                w,
                started@,
                me@,
                priority_labels@,
                listings,
                underway,
                None,
            ));
            Err(text::filled_number(NOTHING_WORKABLE, parent))
        },
    }
}

/// What a launch should work on.
pub enum Resolution {
    /// This issue.
    Issue(u64),
    /// A leaf below a tracking issue, whose children these are.
    Below(Vec<IssueListing>),
}

/// Resolve the issue a launch should actually work on. For a normal issue this
/// is `number` itself. For a tracking issue (one with sub-issues) it is a
/// workable descendant (see [`pick_workable_leaf`]). Where the first lookup of
/// sub-issues fails (offline, or the feature is unavailable), it is `number`
/// unchanged.
pub fn resolve_workable(number: u64, listed: Result<Vec<IssueListing>, String>) -> (r: Resolution)
    ensures
        r == (match listed {
            Ok(children) if children@.len() > 0 => Resolution::Below(children),
            _ => Resolution::Issue(number),
        }),
{
    match listed {
        Ok(children) => {
            if children.len() > 0 {
                Resolution::Below(children)
            } else {
                Resolution::Issue(number)
            }
        },
        Err(_) => Resolution::Issue(number),
    }
}

/// An issue picked to be worked on.
pub struct Pick {
    pub number: u64,
    /// Whether it is still to be assigned to the user.
    pub assign: bool,
}

/// What picking came to: what to print, and the issue picked, if any.
pub struct Picked {
    pub report: String,
    pub pick: Option<Pick>,
}

/// What a selection comes to.
pub open spec fn is_picked(s: Selection, me: Seq<char>, priority: Seq<String>, p: Picked) -> bool {
    &&& p.report@ == announcement(s, me, priority)
    &&& match s.picked {
        Some(issue) => p.pick == Some(
            Pick { number: issue.number, assign: !assigned(*issue, me) },
        ),
        None => p.pick is None,
    }
}

/// `p` is what came of picking: a selection that was claimed, reported.
pub open spec fn is_pick<S: Fn(u64) -> IssueStatus>(
    pool: Pool,
    status: &S,
    calls: Seq<(u64, Result<bool, String>)>,
    p: Picked,
) -> bool {
    exists|statuses: Seq<IssueStatus>, s: Selection|
        is_picked(s, pool.me, pool.priority, p) && #[trigger] is_claimed(
            pool,
            statuses,
            status,
            calls,
            s,
        )
}

/// Picking failed with `e`: the last claim made, in its turn, did.
pub open spec fn fails_to_claim<S: Fn(u64) -> IssueStatus>(
    pool: Pool,
    status: &S,
    calls: Seq<(u64, Result<bool, String>)>,
    e: String,
) -> bool {
    is_claiming(pool, status, calls) && calls.len() > 0 && calls.last().1 == Err::<bool, String>(e)
}

/// Select and claim an issue with [`claim_pick`], and report it.
fn select_and_report<S: Fn(u64) -> IssueStatus, C: Fn(u64) -> Result<bool, String>>(
    issues: &[IssueListing],
    me: &str,
    priority_labels: &[String],
    only_assigned_to_me: bool,
    excluded: &BTreeSet<u64>,
    status: &S,
    claims: &mut Claims<C>,
) -> (r: Result<Picked, String>)
    requires
        forall|n: u64| #[trigger] call_requires(status, (n,)),
        old(claims).ready(),
    ensures
        final(claims).continues(*old(claims)),
        match r {
            Ok(p) => is_pick(
                pool_of(issues@, me@, priority_labels@, only_assigned_to_me, excluded@),
                status,
                final(claims).since(*old(claims)),
                p,
            ),
            Err(e) => fails_to_claim(
                pool_of(issues@, me@, priority_labels@, only_assigned_to_me, excluded@),
                status,
                final(claims).since(*old(claims)),
                e,
            ),
        },
{
    let ghost pool = pool_of(issues@, me@, priority_labels@, only_assigned_to_me, excluded@);
    let selection = match claim_pick(
        issues,
        me,
        priority_labels,
        only_assigned_to_me,
        excluded,
        status,
        claims,
    ) {
        Ok(selection) => selection,
        Err(e) => {
            let failed: Result<Picked, String> = Err(e);
            assert(failed->Err_0 == e);
            return failed;
        },
    };
    let ghost calls = claims.since(*old(claims));
    let ghost statuses = choose|statuses: Seq<IssueStatus>| #[trigger]
        is_claimed(pool, statuses, status, calls, selection);
    let report = announce_pick(&selection, me, priority_labels);
    let pick = match selection.picked {
        Some(issue) => Some(Pick { number: issue.number, assign: !assigned_to(issue, me) }),
        None => None,
    };
    let picked = Picked { report, pick };
    assert(is_picked(selection, pool.me, pool.priority, picked));
    assert(is_claimed(pool, statuses, status, calls, selection));
    assert(is_pick(pool, status, calls, picked));
    Ok(picked)
}

/// An open issue as listed, with who opened it.
pub struct Listed {
    pub issue: IssueListing,
    pub author: String,
    /// How the author stands to the repo, in GitHub's words.
    pub association: String,
}

/// The issues of a listing, from `from` on, whose authors the policy accepts.
pub open spec fn welcome(listed: Seq<Listed>, policy: Policy, from: int) -> Seq<IssueListing>
    decreases listed.len() - from,
{
    if from >= listed.len() {
        Seq::empty()
    } else if policy.comment(listed[from].author@, listed[from].association@) {
        seq![listed[from].issue] + welcome(listed, policy, from + 1)
    } else {
        welcome(listed, policy, from + 1)
    }
}

/// Keep the issues that may be picked automatically: those opened by the
/// operator, an allow-listed user or a collaborator. Strangers cannot get the
/// issues they open on a public repo worked on; such an issue can still be worked
/// deliberately.
pub fn auto_pickable(listed: Vec<Listed>, access: &AccessList) -> (r: Vec<IssueListing>)
    ensures
        r@ == welcome(listed@, access@, 0),
{
    let ghost all = listed@;
    let mut rest = listed;
    let mut kept: Vec<IssueListing> = Vec::new();
    while rest.len() > 0
        invariant
            rest@ == all.take(rest@.len() as int),
            rest@.len() <= all.len(),
            kept@ == welcome(all, access@, rest@.len() as int),
        decreases rest@.len(),
    {
        let ghost before = kept@;
        let ghost k = rest@.len() - 1;
        match rest.pop() {
            Some(entry) => {
                assert(entry == all[k]);
                if access.accepts_issue(entry.author.as_str(), entry.association.as_str()) {
                    kept.insert(0, entry.issue);
                    assert(kept@ =~= seq![all[k].issue] + before);
                }
            },
            None => {},
        }
        assert(rest@ =~= all.take(k));
    }
    kept
}

/// An issue that may be picked automatically was opened by someone the policy
/// accepts.
pub proof fn lemma_welcome(
    listed: Seq<Listed>,
    policy: Policy,
    from: int,
    i: int,
)
    requires
        0 <= from,
        0 <= i < welcome(listed, policy, from).len(),
    ensures
        exists|k: int|
            0 <= k < listed.len() && #[trigger] listed[k].issue == welcome(
                listed,
                policy,
                from,
            )[i] && policy.comment(listed[k].author@, listed[k].association@),
    decreases listed.len() - from,
{
    let later = welcome(listed, policy, from + 1);
    if policy.comment(listed[from].author@, listed[from].association@) {
        if i == 0 {
            assert(listed[from].issue == welcome(listed, policy, from)[0]);
        } else {
            assert(welcome(listed, policy, from)[i] == later[i - 1]);
            lemma_welcome(listed, policy, from + 1, i - 1);
        }
    } else {
        lemma_welcome(listed, policy, from + 1, i);
    }
}

/// An issue that is picked was opened by someone the policy accepts.
pub proof fn strangers_issues_are_never_picked<S: Fn(u64) -> IssueStatus>(
    listed: Seq<Listed>,
    policy: Policy,
    pool: Pool,
    status: &S,
    calls: Seq<(u64, Result<bool, String>)>,
    p: Picked,
)
    requires
        pool.issues == welcome(listed, policy, 0),
        is_pick(pool, status, calls, p),
        p.pick is Some,
    ensures
        exists|k: int|
            0 <= k < listed.len() && (#[trigger] listed[k]).issue.number == p.pick->0.number
                && policy.comment(listed[k].author@, listed[k].association@),
{
    let (statuses, s) = choose|statuses: Seq<IssueStatus>, s: Selection|
        is_picked(s, pool.me, pool.priority, p) && #[trigger] is_claimed(
            pool,
            statuses,
            status,
            calls,
            s,
        );
    let lost = lost_claims(s.picked_status == Some(IssueStatus::Fresh), calls);
    let at = pool.reading(statuses).without(claimed(lost)).best(pool.issues.len() as int);
    lemma_welcome(listed, policy, 0, at);
}

/// Every issue opened by someone the policy accepts stays in the running.
pub proof fn accepted_issues_stay_pickable(
    listed: Seq<Listed>,
    policy: Policy,
    from: int,
    k: int,
)
    requires
        0 <= from <= k < listed.len(),
        policy.comment(listed[k].author@, listed[k].association@),
    ensures
        welcome(listed, policy, from).contains(listed[k].issue),
    decreases k - from,
{
    let here = welcome(listed, policy, from);
    if from == k {
        assert(here[0] == listed[k].issue);
    } else {
        accepted_issues_stay_pickable(listed, policy, from + 1, k);
        let later = welcome(listed, policy, from + 1);
        let j = choose|j: int| 0 <= j < later.len() && later[j] == listed[k].issue;
        if policy.comment(listed[from].author@, listed[from].association@) {
            assert(here[j + 1] == later[j]);
        } else {
            assert(here[j] == later[j]);
        }
    }
}

/// Pick the next issue to work on, claim it, and report the pick and its
/// rationale.
///
/// Eligible issues are the repo's open issues that were opened by the operator, an
/// allow-listed user or a collaborator, excluding PRs and issues assigned to someone
/// other than the user. An issue with a live session is skipped (a
/// worker is on it); one that was started and then stopped is resumed rather
/// than skipped; a concluded one is left alone. A fresh issue that is blocked by
/// an open dependency, or is a tracking issue, is also skipped. Claiming a fresh
/// winner reserves it against concurrent runs.
pub fn pick<S: Fn(u64) -> IssueStatus, C: Fn(u64) -> Result<bool, String>>(
    listed: Vec<Listed>,
    access: &AccessList,
    me: &str,
    priority_labels: &[String],
    only_assigned_to_me: bool,
    status: &S,
    claims: &mut Claims<C>,
) -> (r: Result<Picked, String>)
    requires
        forall|n: u64| #[trigger] call_requires(status, (n,)),
        old(claims).ready(),
    ensures
        final(claims).continues(*old(claims)),
        match r {
            Ok(p) => is_pick(
                pool_of(
                    welcome(listed@, access@, 0),
                    me@,
                    priority_labels@,
                    only_assigned_to_me,
                    Set::empty(),
                ),
                status,
                final(claims).since(*old(claims)),
                p,
            ),
            Err(e) => fails_to_claim(
                pool_of(
                    welcome(listed@, access@, 0),
                    me@,
                    priority_labels@,
                    only_assigned_to_me,
                    Set::empty(),
                ),
                status,
                final(claims).since(*old(claims)),
                e,
            ),
        },
{
    let excluded: BTreeSet<u64> = BTreeSet::new();
    assert(excluded@ =~= Set::<u64>::empty());
    let issues = auto_pickable(listed, access);
    select_and_report(
        issues.as_slice(),
        me,
        priority_labels,
        only_assigned_to_me,
        &excluded,
        status,
        claims,
    )
}

pub const NOTHING_ELIGIBLE: &'static str =
    ": every open issue is a PR, is assigned \
     to someone else, already has a live session, or is complete.";

/// What is said when nothing can be picked.
pub fn nothing_eligible(owner: &str, repo: &str) -> (r: String)
    ensures
        r@ == "no eligible open issues in "@ + owner@ + "/"@ + repo@ + NOTHING_ELIGIBLE@,
{
    let mut out = text::copy("no eligible open issues in ");
    out.append(owner);
    out.append("/");
    out.append(repo);
    out.append(NOTHING_ELIGIBLE);
    out
}

/// The pace at which the open issues are polled, in seconds, and how many polls
/// have failed in a row.
#[derive(Clone, Copy, Debug, PartialEq, Eq, Structural)]
pub struct Poll {
    pub backoff: u64,
    pub failures: u32,
}

impl Poll {
    pub open spec fn wf(self) -> bool {
        BACKOFF_FLOOR <= self.backoff <= BACKOFF_CAP && self.failures < MAX_CONSECUTIVE_FAILURES
    }

    /// The poll after the next rest: the pace doubles up to the cap.
    pub open spec fn rested(self) -> Poll {
        Poll {
            backoff: if self.backoff * 2 < BACKOFF_CAP {
                (self.backoff * 2) as u64
            } else {
                BACKOFF_CAP
            },
            ..self
        }
    }
}

impl Default for Poll {
    fn default() -> (r: Self)
        ensures
            r == (Poll { backoff: BACKOFF_FLOOR, failures: 0 }),
            r.wf(),
    {
        Poll { backoff: BACKOFF_FLOOR, failures: 0 }
    }
}

/// The answer to a poll of the open issues.
pub enum Listing {
    /// Nothing changed since the last one.
    NotModified,
    Fresh(Vec<Listed>),
    RateLimited,
    Failed,
}

/// What follows a poll.
pub enum AfterPoll {
    /// An issue was claimed.
    Found(Picked),
    /// Rest this many seconds, and poll again.
    Rest { report: String, pace: u64 },
    /// Too many polls failed in a row.
    GiveUp,
}

/// The poll's state once an answer without an issue to claim has come.
pub open spec fn polled(poll: Poll, listing: Listing) -> Poll {
    match listing {
        Listing::NotModified => Poll { failures: 0, ..poll },
        Listing::Fresh(_) => Poll { failures: 0, backoff: BACKOFF_FLOOR },
        Listing::RateLimited => Poll { backoff: BACKOFF_CAP, ..poll },
        Listing::Failed => Poll { failures: (poll.failures + 1) as u32, ..poll },
    }
}

/// One round of waiting until an eligible issue can be claimed. A fresh listing
/// is picked from; where it holds nothing to claim, polling is eager again in
/// case more lands. Otherwise the pace doubles up to the cap, and goes to the
/// cap at once where GitHub limits the rate. Too many failures in a row end the
/// wait. `excluded` holds the issues the caller has already given up on.
pub fn wait_for_pick<S: Fn(u64) -> IssueStatus, C: Fn(u64) -> Result<bool, String>>(
    poll: &mut Poll,
    listing: Listing,
    access: &AccessList,
    me: &str,
    priority_labels: &[String],
    only_assigned_to_me: bool,
    excluded: &BTreeSet<u64>,
    status: &S,
    claims: &mut Claims<C>,
) -> (r: Result<AfterPoll, String>)
    requires
        old(poll).wf(),
        forall|n: u64| #[trigger] call_requires(status, (n,)),
        old(claims).ready(),
    ensures
        final(claims).continues(*old(claims)),
        !(listing is Fresh) ==> *final(claims) == *old(claims),
        match r {
            Ok(AfterPoll::Found(p)) => listing is Fresh && p.pick is Some && is_pick(
                pool_of(
                    welcome(listing->0@, access@, 0),
                    me@,
                    priority_labels@,
                    only_assigned_to_me,
                    excluded@,
                ),
                status,
                final(claims).since(*old(claims)),
                p,
            ),
            Ok(AfterPoll::Rest { report, pace }) => {
                &&& final(poll).wf()
                &&& *final(poll) == polled(*old(poll), listing).rested()
                &&& pace == polled(*old(poll), listing).backoff
                &&& listing is Failed ==> old(poll).failures + 1 < MAX_CONSECUTIVE_FAILURES
                &&& match listing {
                    Listing::Fresh(listed) => is_pick(
                        pool_of(
                            welcome(listed@, access@, 0),
                            me@,
                            priority_labels@,
                            only_assigned_to_me,
                            excluded@,
                        ),
                        status,
                        final(claims).since(*old(claims)),
                        (Picked { report, pick: None }),
                    ),
                    _ => report@ == ""@,
                }
            },
            Ok(AfterPoll::GiveUp) => listing is Failed && old(poll).failures + 1
                >= MAX_CONSECUTIVE_FAILURES,
            Err(e) => listing is Fresh && fails_to_claim(
                pool_of(
                    welcome(listing->0@, access@, 0),
                    me@,
                    priority_labels@,
                    only_assigned_to_me,
                    excluded@,
                ),
                status,
                final(claims).since(*old(claims)),
                e,
            ),
        },
{
    let mut report = text::copy("");
    match listing {
        Listing::NotModified => {
            poll.failures = 0;
        },
        Listing::Fresh(listed) => {
            poll.failures = 0;
            let issues = auto_pickable(listed, access);
            let picked = match select_and_report(
                issues.as_slice(),
                me,
                priority_labels,
                only_assigned_to_me,
                excluded,
                status,
                claims,
            ) {
                Ok(picked) => picked,
                Err(e) => {
                    let failed: Result<AfterPoll, String> = Err(e);
                    assert(failed->Err_0 == e);
                    return failed;
                },
            };
            if picked.pick.is_some() {
                return Ok(AfterPoll::Found(picked));
            }
            assert(picked == (Picked { report: picked.report, pick: None }));
            report = picked.report;
            poll.backoff = BACKOFF_FLOOR;
        },
        Listing::RateLimited => {
            poll.backoff = BACKOFF_CAP;
        },
        Listing::Failed => {
            poll.failures = poll.failures + 1;
            if poll.failures >= MAX_CONSECUTIVE_FAILURES {
                return Ok(AfterPoll::GiveUp);
            }
        },
    }
    let pace: u64 = poll.backoff;
    poll.backoff = if poll.backoff * 2 < BACKOFF_CAP {
        poll.backoff * 2
    } else {
        BACKOFF_CAP
    };
    Ok(AfterPoll::Rest { report, pace })
}

pub const NANOS: u128 = 1000000000;

/// How many nanoseconds to rest at this pace (in seconds), given those that
/// remain until the deadline, if there is one. `None` once it has passed.
pub fn rest(pace: u64, remaining: Option<u128>) -> (r: Option<u128>)
    ensures
        r == (match remaining {
            Some(left) => if left == 0 {
                None
            } else if left < pace * NANOS {
                Some(left)
            } else {
                Some((pace * NANOS) as u128)
            },
            None => Some((pace * NANOS) as u128),
        }),
{
    assert(pace as u128 * NANOS <= u64::MAX as u128 * 1000000000u128) by (nonlinear_arith)
        requires
            pace <= u64::MAX,
            NANOS == 1000000000u128,
    ;
    let whole: u128 = pace as u128 * NANOS;
    match remaining {
        Some(left) => {
            if left == 0 {
                None
            } else if left < whole {
                Some(left)
            } else {
                Some(whole)
            }
        },
        None => Some(whole),
    }
}

/// What is printed when a wait begins.
pub fn waiting_line(owner: &str, repo: &str, timeout_secs: Option<u64>) -> (r: String)
    ensures
        r@ == "Waiting for an eligible issue to claim in "@ + owner@ + "/"@ + repo@ + (
        match timeout_secs {
            Some(secs) => " (timeout "@ + text::decimal(secs as nat) + " s)…"@,
            None => "…"@,
        }),
{
    let end = match timeout_secs {
        Some(secs) => {
            let mut s = text::copy(" (timeout ");
            s.append(text::number(secs).as_str());
            s.append(" s)…");
            s
        },
        None => text::copy("…"),
    };
    let mut out = text::copy("Waiting for an eligible issue to claim in ");
    out.append(owner);
    out.append("/");
    out.append(repo);
    out.append(end.as_str());
    out
}

pub const TIMED_OUT: &'static str =
    "No eligible issue to claim within % s. Run `ghwf next --wait` again to keep waiting.";

/// What is printed when a wait's time is up.
pub fn timed_out(secs: u64) -> (r: String)
    ensures
        r@ == text::fill(TIMED_OUT@, text::decimal(secs as nat)),
{
    text::filled_number(TIMED_OUT, secs)
}

/// How a round of a forever worker went.
#[derive(Clone, Copy, Debug, PartialEq, Eq, Structural)]
pub enum Round {
    /// A live session already holds the issue (leased between selection and now).
    Held,
    /// The session could not be started.
    NotStarted,
    /// The issue's workflow concluded.
    Completed,
    /// The user quit the session before the workflow concluded.
    UserQuit,
}

/// What a forever worker does after a round.
pub struct AfterRound {
    /// Whether it picks again.
    pub again: bool,
    /// Whether a bare claim on the issue is to be given back to the pool.
    pub release: bool,
    /// What it prints.
    pub message: String,
}

pub const STOPPING: &'static str =
    "The session for issue #% ended before its workflow concluded, \
     so the forever worker is stopping. Re-run `ghwf forever` to resume.";

pub const CONCLUDED: &'static str = "Issue #% concluded; looking for the next one.";

pub const NOT_STARTED: &'static str = "warning: couldn't start #%, leaving it for the pool";

/// Work issues one after another as a supervised pool worker. The worker stops
/// only when the user quits a session before its workflow concludes. A launch
/// failure never stops it or locks the issue: the issue is not picked again in
/// this run, and a bare claim on it is released. A pick that another worker has
/// leased in the meantime is passed over.
pub fn run_forever(skip: &mut BTreeSet<u64>, number: u64, round: Round) -> (r: AfterRound)
    ensures
        final(skip)@ == (if round == Round::NotStarted {
            old(skip)@.insert(number)
        } else {
            old(skip)@
        }),
        r.again == (round != Round::UserQuit),
        r.release == (round == Round::NotStarted),
        r.message@ == (match round {
            Round::Held => ""@,
            Round::NotStarted => text::fill(NOT_STARTED@, text::decimal(number as nat)),
            Round::Completed => text::fill(CONCLUDED@, text::decimal(number as nat)),
            Round::UserQuit => text::fill(STOPPING@, text::decimal(number as nat)),
        }),
{
    match round {
        Round::Held => AfterRound { again: true, release: false, message: text::copy("") },
        Round::NotStarted => {
            store::put(skip, number);
            AfterRound {
                again: true,
                release: true,
                message: text::filled_number(NOT_STARTED, number),
            }
        },
        Round::Completed => AfterRound {
            again: true,
            release: false,
            message: text::filled_number(CONCLUDED, number),
        },
        Round::UserQuit => AfterRound {
            again: false,
            release: false,
            message: text::filled_number(STOPPING, number),
        },
    }
}

/// Whether a request to stop reaches a worker, given when it was made and when the
/// worker was started (in nanoseconds): a worker that is started afterwards ignores it.
pub fn stop_reaches(requested: Option<u128>, started: u128) -> (r: bool)
    ensures
        r == (requested is Some && requested->0 >= started),
{
    match requested {
        Some(at) => at >= started,
        None => false,
    }
}

/// Whether the program was replaced since the worker was started, by the hashes of its
/// file. One that could not be read is taken for unchanged.
pub fn was_replaced(at_start: Option<&str>, now: Option<&str>) -> (r: bool)
    ensures
        r == (at_start is Some && now is Some && at_start->0@ != now->0@),
{
    match (at_start, now) {
        (Some(before), Some(after)) => !text::same(before, after),
        _ => false,
    }
}

/// What a forever worker does between two workflows.
#[derive(Clone, Copy, Debug, PartialEq, Eq, Structural)]
pub enum Next {
    /// Exit instead of picking another issue.
    Stop,
    /// Start the replaced program in its own place.
    Relaunch,
    /// Pick the next issue.
    Pick,
}

/// What a forever worker does between two workflows: it winds down where that was
/// requested, and takes up a new program where the last one has concluded. A request to
/// stop takes precedence.
pub fn after_conclusion(stop_requested: bool, binary_changed: bool) -> (r: Next)
    ensures
        r == (if stop_requested {
            Next::Stop
        } else if binary_changed {
            Next::Relaunch
        } else {
            Next::Pick
        }),
{
    if stop_requested {
        Next::Stop
    } else if binary_changed {
        Next::Relaunch
    } else {
        Next::Pick
    }
}

} // verus!
