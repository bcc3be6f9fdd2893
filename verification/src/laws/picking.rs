//! Which issue is picked to be worked on.

use std::collections::BTreeSet;
use vstd::prelude::*;

use crate::access::AccessList;
use crate::laws::who;
use crate::models::IssueListing;
use crate::next::{
    self, AfterPoll, AfterRound, Claims, IssueStatus, Listed, Listing, Next, Picked, Poll, Pool,
    Recorded, Resolution, Round, Selection, SortKey,
};
use crate::text;

verus! {

/// The issue is assigned to `me`, whatever the case of the letters.
pub open spec fn mine(i: IssueListing, me: Seq<char>) -> bool {
    exists|k: int|
        #![trigger i.assignees@[k]]
        0 <= k < i.assignees@.len() && text::lower(i.assignees@[k].login@) == text::lower(me)
}

/// The issue has a label of this name, whatever the case of the letters.
pub open spec fn carries(i: IssueListing, name: Seq<char>) -> bool {
    exists|k: int|
        #![trigger i.labels@[k]]
        0 <= k < i.labels@.len() && text::lower(i.labels@[k].name@) == text::lower(name)
}

/// The first of the priority labels that the issue has is at `p`.
pub open spec fn first_label(i: IssueListing, priority: Seq<String>, p: int) -> bool {
    &&& 0 <= p < priority.len()
    &&& carries(i, priority[p]@)
    &&& forall|q: int| 0 <= q < p ==> !carries(i, #[trigger] priority[q]@)
}

/// One issue has a priority label that is more urgent than all that the other has.
pub open spec fn more_urgent(a: IssueListing, b: IssueListing, priority: Seq<String>) -> bool {
    exists|p: int|
        #![trigger priority[p]]
        0 <= p < priority.len() && carries(a, priority[p]@) && (forall|q: int|
            0 <= q <= p ==> !carries(b, #[trigger] priority[q]@))
}

/// One issue is to be worked on before the other: my own before the rest, then by the
/// most urgent label, then by number.
pub open spec fn sooner(
    a: IssueListing,
    b: IssueListing,
    me: Seq<char>,
    priority: Seq<String>,
) -> bool {
    ||| mine(a, me) && !mine(b, me)
    ||| mine(a, me) == mine(b, me) && more_urgent(a, b, priority)
    ||| mine(a, me) == mine(b, me) && !more_urgent(b, a, priority) && a.number < b.number
}

/// The issue may be picked at all: no PR, mine or, unless only mine count, nobody's, and
/// not given up on.
pub open spec fn eligible(
    i: IssueListing,
    me: Seq<char>,
    only_mine: bool,
    excluded: Set<u64>,
) -> bool {
    &&& !i.pull_request
    &&& mine(i, me) || (!only_mine && i.assignees@.len() == 0)
    &&& !excluded.contains(i.number)
}

/// Work on it can begin or go on: it was started and stopped, or it is new, and nothing
/// blocks it, and it has no sub-issues.
pub open spec fn can_go_on(i: IssueListing, s: IssueStatus) -> bool {
    s == IssueStatus::Resumable || (s == IssueStatus::Fresh
        && i.issue_dependencies_summary.blocked_by == 0 && i.sub_issues_summary.total == 0)
}

proof fn lemma_position(name: Seq<char>, priority: Seq<String>)
    requires
        priority.len() <= usize::MAX,
    ensures
        ({
            let p = next::label_position(name, priority);
            &&& p == usize::MAX ==> forall|q: int|
                #![trigger priority[q]]
                0 <= q < priority.len() ==> text::lower(priority[q]@) != text::lower(name)
            &&& p != usize::MAX ==> p < priority.len() && text::lower(priority[p as int]@)
                == text::lower(name) && forall|q: int|
                #![trigger priority[q]]
                0 <= q < p ==> text::lower(priority[q]@) != text::lower(name)
        }),
    decreases priority.len(),
{
    if priority.len() > 0 {
        let init = priority.drop_last();
        lemma_position(name, init);
        let p = next::label_position(name, priority);
        let before = next::label_position(name, init);
        assert forall|q: int| #![trigger priority[q]] 0 <= q < init.len() implies init[q]
            == priority[q] by {}
        if before == usize::MAX {
            assert forall|q: int| #![trigger priority[q]] 0 <= q < init.len() implies text::lower(
                priority[q]@,
            ) != text::lower(name) by {
                assert(init[q] == priority[q]);
            }
        } else {
            assert(init[before as int] == priority[before as int]);
            assert forall|q: int| #![trigger priority[q]] 0 <= q < before implies text::lower(
                priority[q]@,
            ) != text::lower(name) by {
                assert(init[q] == priority[q]);
            }
        }
    }
}

/// The best rank among the first `count` labels.
proof fn lemma_best_label(i: IssueListing, priority: Seq<String>, count: int)
    requires
        priority.len() <= usize::MAX,
        0 <= count <= i.labels@.len(),
    ensures
        ({
            let b = next::best_label(i, priority, count);
            &&& b != usize::MAX ==> exists|k: int|
                #![trigger i.labels@[k]]
                0 <= k < count && next::label_position(i.labels@[k].name@, priority) == b
            &&& forall|k: int|
                #![trigger i.labels@[k]]
                0 <= k < count ==> b <= next::label_position(i.labels@[k].name@, priority)
        }),
    decreases count,
{
    if count > 0 {
        lemma_best_label(i, priority, count - 1);
        let b = next::best_label(i, priority, count);
        let before = next::best_label(i, priority, count - 1);
        if b != usize::MAX {
            if b == before {
                let k = choose|k: int|
                    #![trigger i.labels@[k]]
                    0 <= k < count - 1 && next::label_position(i.labels@[k].name@, priority) == b;
                assert(next::label_position(i.labels@[k].name@, priority) == b);
            } else {
                assert(next::label_position(i.labels@[count - 1].name@, priority) == b);
            }
        }
    }
}

pub proof fn lemma_rank(i: IssueListing, priority: Seq<String>)
    requires
        priority.len() <= usize::MAX,
    ensures
        next::rank(i, priority) != usize::MAX ==> first_label(
            i,
            priority,
            next::rank(i, priority) as int,
        ),
        next::rank(i, priority) == usize::MAX ==> forall|q: int|
            0 <= q < priority.len() ==> !carries(i, #[trigger] priority[q]@),
{
    let n = i.labels@.len() as int;
    lemma_best_label(i, priority, n);
    let b = next::rank(i, priority);
    if b != usize::MAX {
        let k = choose|k: int|
            #![trigger i.labels@[k]]
            0 <= k < n && next::label_position(i.labels@[k].name@, priority) == b;
        lemma_position(i.labels@[k].name@, priority);
        assert(carries(i, priority[b as int]@));
    }
    assert forall|q: int| 0 <= q < priority.len() && q < b implies !carries(
        i,
        #[trigger] priority[q]@,
    ) by {
        if carries(i, priority[q]@) {
            let k = choose|k: int|
                #![trigger i.labels@[k]]
                0 <= k < n && text::lower(i.labels@[k].name@) == text::lower(priority[q]@);
            lemma_position(i.labels@[k].name@, priority);
            let p = next::label_position(i.labels@[k].name@, priority);
            assert(b <= p);
            assert(text::lower(priority[q]@) == text::lower(i.labels@[k].name@));
        }
    }
}

proof fn lemma_mine(i: IssueListing, me: Seq<char>)
    ensures
        mine(i, me) == next::assigned(i, me),
{
    if mine(i, me) {
        let k = choose|k: int|
            #![trigger i.assignees@[k]]
            0 <= k < i.assignees@.len() && text::lower(i.assignees@[k].login@) == text::lower(me);
        assert(text::lower(i.assignees@[k].login@) == text::lower(me));
    }
    if next::assigned(i, me) {
        let k = choose|k: int|
            0 <= k < i.assignees@.len() && text::lower(#[trigger] i.assignees@[k].login@)
                == text::lower(me);
        assert(text::lower(i.assignees@[k].login@) == text::lower(me));
    }
}

proof fn lemma_more_urgent(a: IssueListing, b: IssueListing, priority: Seq<String>)
    requires
        priority.len() <= usize::MAX,
    ensures
        more_urgent(a, b, priority) <==> next::rank(a, priority) < next::rank(b, priority),
{
    lemma_rank(a, priority);
    lemma_rank(b, priority);
    let ra = next::rank(a, priority);
    let rb = next::rank(b, priority);
    if more_urgent(a, b, priority) {
        let p = choose|p: int|
            #![trigger priority[p]]
            0 <= p < priority.len() && carries(a, priority[p]@) && (forall|q: int|
                0 <= q <= p ==> !carries(b, #[trigger] priority[q]@));
        assert(carries(a, priority[p]@));
        if rb != usize::MAX && rb <= p {
            assert(!carries(b, priority[rb as int]@));
        }
    }
    if ra < rb {
        assert(priority[ra as int] == priority[ra as int]);
        assert forall|q: int| 0 <= q <= ra implies !carries(b, #[trigger] priority[q]@) by {}
    }
}

pub proof fn lemma_sooner(
    a: IssueListing,
    b: IssueListing,
    me: Seq<char>,
    priority: Seq<String>,
)
    requires
        priority.len() <= usize::MAX,
    ensures
        sooner(a, b, me, priority) <==> next::key_lt(
            next::key_of(a, me, priority),
            next::key_of(b, me, priority),
        ),
{
    lemma_mine(a, me);
    lemma_mine(b, me);
    lemma_more_urgent(a, b, priority);
    lemma_more_urgent(b, a, priority);
}

/// An issue is assigned to the user where an assignee is, whatever the case of the
/// letters, and its rank is that of its most urgent label.
pub proof fn issues_are_ranked_by_their_labels(
    i: &IssueListing,
    me: &str,
    priority: &[String],
    assigned: bool,
    rank: usize,
    key: SortKey,
)
    requires
        call_ensures(next::assigned_to, (i, me), assigned),
        call_ensures(next::label_rank, (i, priority), rank),
        call_ensures(next::sort_key, (i, me, priority), key),
    ensures
        assigned <==> mine(*i, me@),
        rank != usize::MAX ==> first_label(*i, priority@, rank as int),
        rank == usize::MAX ==> forall|q: int|
            0 <= q < priority@.len() ==> !carries(*i, #[trigger] priority@[q]@),
        key.unassigned <==> !mine(*i, me@),
        key.rank == rank,
        key.number == i.number,
{
    assert(priority.len() == priority@.len());
    lemma_rank(*i, priority@);
    lemma_mine(*i, me@);
}

/// What is picked can go on, and nothing that can is to be worked on sooner; where
/// anything can, something is picked. Issues that a live session holds, and new ones
/// that are blocked or have sub-issues, are passed over and reported, and no others.
pub proof fn the_soonest_issue_is_picked<'a>(
    issues: &'a [IssueListing],
    me: &str,
    priority: &[String],
    only_mine: bool,
    excluded: &BTreeSet<u64>,
    statuses: &[IssueStatus],
    r: Selection<'a>,
    k: int,
)
    requires
        statuses@.len() == issues@.len(),
        call_ensures(
            next::select,
            (issues, me, priority, only_mine, excluded, statuses),
            r,
        ),
        0 <= k < issues@.len(),
    ensures
        r.picked is Some ==> exists|at: int|
            #![trigger issues@[at]]
            0 <= at < issues@.len() && *r.picked->0 == issues@[at] && r.picked_status == Some(
                statuses@[at],
            ) && eligible(issues@[at], me@, only_mine, excluded@) && can_go_on(
                issues@[at],
                statuses@[at],
            ),
        r.picked is None <==> r.picked_status is None,
        eligible(issues@[k], me@, only_mine, excluded@) && can_go_on(issues@[k], statuses@[k])
            ==> r.picked is Some && !sooner(issues@[k], *r.picked->0, me@, priority@),
        eligible(issues@[k], me@, only_mine, excluded@) && statuses@[k] == IssueStatus::Live
            ==> r.skipped_live@.contains(issues@[k].number),
        eligible(issues@[k], me@, only_mine, excluded@) && statuses@[k] == IssueStatus::Fresh
            && issues@[k].issue_dependencies_summary.blocked_by > 0 ==> r.skipped_blocked@.contains(
            issues@[k].number,
        ),
        eligible(issues@[k], me@, only_mine, excluded@) && statuses@[k] == IssueStatus::Fresh
            && issues@[k].issue_dependencies_summary.blocked_by == 0
            && issues@[k].sub_issues_summary.total > 0 ==> r.skipped_tracking@.contains(
            issues@[k].number,
        ),
{
    let pool = Pool {
        issues: issues@,
        statuses: statuses@,
        me: me@,
        priority: priority@,
        only_mine,
        excluded: excluded@,
    };
    let n = issues@.len() as int;
    assert(priority.len() == priority@.len());
    next::lemma_best(pool, n);
    lemma_mine(issues@[k], me@);
    let at = pool.best(n);
    if r.picked is Some {
        lemma_mine(issues@[at], me@);
        lemma_sooner(issues@[k], issues@[at], me@, priority@);
        assert(issues@[at] == *r.picked->0);
        assert(pool.candidate(at));
    }
    if eligible(issues@[k], me@, only_mine, excluded@) && can_go_on(issues@[k], statuses@[k]) {
        assert(pool.candidate(k));
    }
    lemma_reported(pool, n, k);
}

proof fn lemma_reported(pool: Pool, count: int, k: int)
    requires
        0 <= k < pool.issues.len(),
        0 <= count <= pool.issues.len(),
    ensures
        k < count && pool.holds(k) && pool.statuses[k] == IssueStatus::Live ==> pool.live(
            count,
        ).contains(pool.issues[k].number),
        k < count && pool.holds(k) && pool.statuses[k] == IssueStatus::Fresh
            && pool.issues[k].blocked() ==> pool.blocked(count).contains(pool.issues[k].number),
        k < count && pool.holds(k) && pool.statuses[k] == IssueStatus::Fresh
            && !pool.issues[k].blocked() && pool.issues[k].tracking() ==> pool.tracking(
            count,
        ).contains(pool.issues[k].number),
    decreases count,
{
    if count > 0 {
        lemma_reported(pool, count - 1, k);
        let n = pool.issues[k].number;
        lemma_grows(pool.live(count - 1), pool.live(count), n);
        lemma_grows(pool.blocked(count - 1), pool.blocked(count), n);
        lemma_grows(pool.tracking(count - 1), pool.tracking(count), n);
        if k == count - 1 {
            if pool.holds(k) && pool.statuses[k] == IssueStatus::Live {
                assert(pool.live(count).last() == n);
            }
            if pool.holds(k) && pool.statuses[k] == IssueStatus::Fresh && pool.issues[k].blocked() {
                assert(pool.blocked(count).last() == n);
            }
            if pool.holds(k) && pool.statuses[k] == IssueStatus::Fresh && !pool.issues[k].blocked()
                && pool.issues[k].tracking() {
                assert(pool.tracking(count).last() == n);
            }
        }
    }
}

proof fn lemma_grows(a: Seq<u64>, b: Seq<u64>, n: u64)
    requires
        a.len() <= b.len(),
        forall|i: int| 0 <= i < a.len() ==> b[i] == #[trigger] a[i],
    ensures
        a.contains(n) ==> b.contains(n),
{
    if a.contains(n) {
        let i = choose|i: int| 0 <= i < a.len() && a[i] == n;
        assert(b[i] == n);
    }
}

/// An issue without a record is new; one with a record is done once it has ended, held
/// while a session lives, and to be resumed otherwise. A record that cannot be read is
/// left to whoever holds it.
pub proof fn the_record_says_how_an_issue_stands(
    recorded: Recorded,
    live: bool,
    r: IssueStatus,
    underway: bool,
)
    requires
        call_ensures(next::issue_status, (recorded, live), r),
        call_ensures(next::is_underway, (r,), underway),
    ensures
        recorded is Nothing <==> r == IssueStatus::Fresh,
        recorded is Unreadable ==> r == IssueStatus::Live,
        recorded matches Recorded::State(s) ==> {
            let over = s.issue_closed || s.pr_outcome is Some;
            &&& over <==> r == IssueStatus::Done
            &&& !over && live <==> r == IssueStatus::Live
            &&& !over && !live <==> r == IssueStatus::Resumable
        },
        underway <==> r == IssueStatus::Live || r == IssueStatus::Resumable,
{
}

/// Whether an issue is looked at: no PR, and mine or, unless only mine count, nobody's.
pub proof fn others_issues_are_left_alone(i: &IssueListing, me: &str, only_mine: bool, r: bool)
    requires
        call_ensures(next::considered, (i, me, only_mine), r),
    ensures
        r <==> !i.pull_request && (mine(*i, me@) || (!only_mine && i.assignees@.len() == 0)),
{
    lemma_mine(*i, me@);
}

/// Every claim is of an issue that is eligible and was new.
proof fn lemma_claim<S: Fn(u64) -> IssueStatus>(
    issues: Seq<IssueListing>,
    me: Seq<char>,
    priority: Seq<String>,
    only_mine: bool,
    excluded: Set<u64>,
    status: &S,
    calls: Seq<(u64, Result<bool, String>)>,
    j: int,
)
    requires
        0 <= j < calls.len(),
        next::is_claiming(
            next::pool_of(issues, me, priority, only_mine, excluded),
            status,
            calls,
        ),
    ensures
        exists|i: int|
            #![trigger issues[i]]
            0 <= i < issues.len() && issues[i].number == calls[j].0 && eligible(
                issues[i],
                me,
                only_mine,
                excluded,
            ) && call_ensures(status, (issues[i].number,), IssueStatus::Fresh),
{
    let pool = next::pool_of(issues, me, priority, only_mine, excluded);
    next::only_fresh_issues_are_claimed(pool, status, calls, j);
    let (read, i) = choose|read: Seq<IssueStatus>, i: int|
        #![trigger next::read_as(pool.issues, status, read), pool.issues[i]]
        {
            &&& next::read_as(pool.issues, status, read)
            &&& 0 <= i < pool.issues.len()
            &&& pool.issues[i].number == calls[j].0
            &&& read[i] == IssueStatus::Fresh
            &&& pool.holds(i)
        };
    assert(call_ensures(status, (issues[i].number,), read[i]));
    lemma_mine(issues[i], me);
}

/// A new issue that is picked was claimed, last of all claims, and won; one that is
/// resumed was not claimed. Claims that were lost came before, each of an issue that is
/// eligible and was new, and no issue is claimed twice.
#[verifier::rlimit(40)]
pub proof fn new_picks_are_claimed<
    'a,
    S: Fn(u64) -> IssueStatus,
    C: Fn(u64) -> Result<bool, String>,
>(
    issues: &'a [IssueListing],
    me: &str,
    priority: &[String],
    only_mine: bool,
    excluded: &BTreeSet<u64>,
    status: &S,
    before: Claims<C>,
    after: Claims<C>,
    s: Selection<'a>,
    k: int,
)
    requires
        exists|g: &mut Claims<C>| #[trigger]
            call_ensures(
                next::claim_pick::<S, C>,
                (issues, me, priority, only_mine, excluded, status, g),
                Ok(s),
            ) && *g == before && *final(g) == after,
    ensures
        before.calls().is_prefix_of(after.calls()),
        s.picked_status == Some(IssueStatus::Fresh) ==> after.calls().len() > before.calls().len()
            && after.calls().last() == (s.picked->0.number, Ok::<bool, String>(true)),
        before.calls().len() <= k < after.calls().len() && (k + 1 < after.calls().len()
            || s.picked_status != Some(IssueStatus::Fresh)) ==> after.calls()[k].1 == Ok::<
            bool,
            String,
        >(false) && (s.picked is Some ==> s.picked->0.number != after.calls()[k].0),
        before.calls().len() <= k < after.calls().len() ==> exists|i: int|
            #![trigger issues@[i]]
            0 <= i < issues@.len() && issues@[i].number == after.calls()[k].0 && eligible(
                issues@[i],
                me@,
                only_mine,
                excluded@,
            ) && call_ensures(status, (issues@[i].number,), IssueStatus::Fresh),
        s.picked is Some ==> exists|i: int|
            #![trigger issues@[i]]
            0 <= i < issues@.len() && issues@[i] == *s.picked->0 && eligible(
                issues@[i],
                me@,
                only_mine,
                excluded@,
            ) && s.picked_status is Some && can_go_on(issues@[i], s.picked_status->0)
                && call_ensures(status, (issues@[i].number,), s.picked_status->0),
{
    let pool = next::pool_of(issues@, me@, priority@, only_mine, excluded@);
    let calls = after.since(before);
    let statuses = choose|statuses: Seq<IssueStatus>| #[trigger]
        next::is_claimed(pool, statuses, status, calls, s);
    let fresh = s.picked_status == Some(IssueStatus::Fresh);
    let lost = next::lost_claims(fresh, calls);
    let n = issues@.len() as int;
    let whole = pool.reading(statuses).without(next::claimed(lost));
    next::lemma_best(whole, n);
    if s.picked is Some {
        let at = whole.best(n);
        assert(whole.candidate(at));
        assert(issues@[at] == *s.picked->0);
        lemma_mine(issues@[at], me@);
        assert(call_ensures(status, (issues@[at].number,), statuses[at]));
    }
    let base = before.calls().len() as int;
    if base <= k < after.calls().len() {
        let j = k - base;
        assert(calls[j] == after.calls()[k]);
        lemma_claim(issues@, me@, priority@, only_mine, excluded@, status, calls, j);
        if k + 1 < after.calls().len() || !fresh {
            assert(lost[j] == calls[j]);
            assert(lost[j].1 == Ok::<bool, String>(false));
            next::lemma_claimed_holds(lost, j);
            if s.picked is Some {
                let at = whole.best(n);
                assert(whole.holds(at));
            }
        }
    }
    if fresh {
        assert(calls.last() == after.calls().last());
    }
}

/// A listing keeps, in order, the issues that were opened by someone who may drive the
/// workflow, and no others.
pub proof fn strangers_issues_are_left_out(
    listed: Vec<Listed>,
    access: &AccessList,
    r: Vec<IssueListing>,
    k: int,
)
    requires
        call_ensures(next::auto_pickable, (listed, access), r),
    ensures
        0 <= k < listed@.len() && who::welcome(
            *access,
            listed@[k].author@,
            listed@[k].association@,
        ) ==> r@.contains(listed@[k].issue),
        0 <= k < r@.len() ==> exists|i: int|
            #![trigger listed@[i]]
            0 <= i < listed@.len() && listed@[i].issue == r@[k] && who::welcome(
                *access,
                listed@[i].author@,
                listed@[i].association@,
            ),
{
    if 0 <= k < listed@.len() && who::welcome(
        *access,
        listed@[k].author@,
        listed@[k].association@,
    ) {
        next::accepted_issues_stay_pickable(listed@, access@, 0, k);
    }
    if 0 <= k < r@.len() {
        lemma_kept(listed@, *access, 0, k);
    }
}

proof fn lemma_kept(listed: Seq<Listed>, access: AccessList, from: int, k: int)
    requires
        0 <= from,
        0 <= k < next::welcome(listed, access@, from).len(),
    ensures
        exists|i: int|
            #![trigger listed[i]]
            0 <= i < listed.len() && listed[i].issue == next::welcome(listed, access@, from)[k]
                && who::welcome(access, listed[i].author@, listed[i].association@),
    decreases listed.len() - from,
{
    if from < listed.len() {
        let here = next::welcome(listed, access@, from);
        let later = next::welcome(listed, access@, from + 1);
        if access@.comment(listed[from].author@, listed[from].association@) {
            if k == 0 {
                assert(here[0] == listed[from].issue);
            } else {
                lemma_kept(listed, access, from + 1, k - 1);
                assert(here[k] == later[k - 1]);
            }
        } else {
            lemma_kept(listed, access, from + 1, k);
        }
    }
}

/// What comes of picking is an issue of the listing by someone who may drive the
/// workflow, eligible, that can go on; it is to be assigned where it is not the user's
/// yet. A new one was claimed and won.
pub proof fn a_pick_is_welcome_and_claimed<
    S: Fn(u64) -> IssueStatus,
    C: Fn(u64) -> Result<bool, String>,
>(
    listed: Vec<Listed>,
    access: &AccessList,
    me: &str,
    priority: &[String],
    only_mine: bool,
    status: &S,
    before: Claims<C>,
    after: Claims<C>,
    p: Picked,
)
    requires
        exists|g: &mut Claims<C>| #[trigger]
            call_ensures(
                next::pick::<S, C>,
                (listed, access, me, priority, only_mine, status, g),
                Ok(p),
            ) && *g == before && *final(g) == after,
        p.pick is Some,
    ensures
        exists|i: int, st: IssueStatus|
            #![trigger listed@[i], call_ensures(status, (listed@[i].issue.number,), st)]
            {
                &&& 0 <= i < listed@.len()
                &&& listed@[i].issue.number == p.pick->0.number
                &&& who::welcome(*access, listed@[i].author@, listed@[i].association@)
                &&& eligible(listed@[i].issue, me@, only_mine, Set::empty())
                &&& call_ensures(status, (listed@[i].issue.number,), st)
                &&& can_go_on(listed@[i].issue, st)
                &&& p.pick->0.assign <==> !mine(listed@[i].issue, me@)
                &&& st == IssueStatus::Fresh ==> after.calls().len() > before.calls().len()
                    && after.calls().last() == (p.pick->0.number, Ok::<bool, String>(true))
            },
{
    let pool = next::pool_of(
        next::welcome(listed@, access@, 0),
        me@,
        priority@,
        only_mine,
        Set::empty(),
    );
    let calls = after.since(before);
    let (statuses, s) = choose|statuses: Seq<IssueStatus>, s: Selection|
        next::is_picked(s, pool.me, pool.priority, p) && #[trigger] next::is_claimed(
            pool,
            statuses,
            status,
            calls,
            s,
        );
    let fresh = s.picked_status == Some(IssueStatus::Fresh);
    let lost = next::lost_claims(fresh, calls);
    let n = pool.issues.len() as int;
    let whole = pool.reading(statuses).without(next::claimed(lost));
    next::lemma_best(whole, n);
    let at = whole.best(n);
    assert(whole.candidate(at));
    lemma_kept(listed@, *access, 0, at);
    let i = choose|i: int|
        #![trigger listed@[i]]
        0 <= i < listed@.len() && listed@[i].issue == pool.issues[at] && who::welcome(
            *access,
            listed@[i].author@,
            listed@[i].association@,
        );
    lemma_mine(listed@[i].issue, me@);
    assert(call_ensures(status, (pool.issues[at].number,), statuses[at]));
    assert(call_ensures(status, (listed@[i].issue.number,), statuses[at]));
    if fresh {
        assert(calls.last() == after.calls().last());
    }
}

/// Waiting for an issue polls on: what a fresh listing gives is picked from, failures
/// end the wait only at the limit, and the pace doubles up to a minute, goes to that at
/// once where the rate is limited, and starts again after a fresh listing.
pub proof fn waiting_for_an_issue_polls_on<
    S: Fn(u64) -> IssueStatus,
    C: Fn(u64) -> Result<bool, String>,
>(
    before: Poll,
    listing: Listing,
    access: &AccessList,
    me: &str,
    priority: &[String],
    only_mine: bool,
    excluded: &BTreeSet<u64>,
    status: &S,
    claims: Claims<C>,
    after: Poll,
    claimed: Claims<C>,
    r: AfterPoll,
)
    requires
        5 <= before.backoff <= 60,
        before.failures < 30,
        exists|p: &mut Poll, g: &mut Claims<C>| #[trigger]
            call_ensures(
                next::wait_for_pick::<S, C>,
                (p, listing, access, me, priority, only_mine, excluded, status, g),
                Ok(r),
            ) && *p == before && *final(p) == after && *g == claims && *final(g) == claimed,
    ensures
        r is GiveUp <==> listing is Failed && before.failures + 1 == 30,
        r matches AfterPoll::Found(p) ==> listing is Fresh && p.pick is Some,
        !(listing is Fresh) ==> claimed == claims,
        r matches AfterPoll::Rest { pace, .. } ==> {
            &&& listing is Fresh ==> pace == 5 && after.backoff == 10 && after.failures == 0
            &&& listing is RateLimited ==> pace == 60 && after.backoff == 60 && after.failures
                == before.failures
            &&& listing is NotModified ==> pace == before.backoff && after.failures == 0
            &&& listing is Failed ==> pace == before.backoff && after.failures == before.failures
                + 1
            &&& listing is NotModified || listing is Failed ==> after.backoff == (if before.backoff
                * 2 < 60 {
                before.backoff * 2
            } else {
                60
            })
        },
{
}

/// A rest never goes beyond the deadline, and there is none once that has passed.
pub proof fn rests_end_at_the_deadline(pace: u64, remaining: Option<u128>, r: Option<u128>)
    requires
        call_ensures(next::rest, (pace, remaining), r),
    ensures
        remaining == Some(0u128) <==> r is None,
        r is Some ==> r->0 <= pace * 1000000000,
        r is Some && remaining is Some ==> r->0 <= remaining->0 && (r->0 == remaining->0 || r->0
            == pace * 1000000000),
        remaining is None ==> r is Some && r->0 == pace * 1000000000,
{
}

/// A forever worker goes on after every round but one that the user quit; an issue that
/// could not be started is given back and not picked again.
pub proof fn a_worker_goes_on_until_the_user_quits(
    before: BTreeSet<u64>,
    number: u64,
    round: Round,
    after: BTreeSet<u64>,
    r: AfterRound,
)
    requires
        exists|g: &mut BTreeSet<u64>| #[trigger]
            call_ensures(next::run_forever, (g, number, round), r) && *g == before && *final(g)
                == after,
    ensures
        r.again <==> round != Round::UserQuit,
        r.release <==> round == Round::NotStarted,
        round == Round::NotStarted ==> after@ == before@.insert(number),
        round != Round::NotStarted ==> after@ == before@,
        round == Round::Held <==> r.message@.len() == 0,
{
    reveal_strlit("");
    crate::laws::texts::lemma_fill_keeps(next::NOT_STARTED@, text::decimal(number as nat));
    crate::laws::texts::lemma_fill_keeps(next::CONCLUDED@, text::decimal(number as nat));
    crate::laws::texts::lemma_fill_keeps(next::STOPPING@, text::decimal(number as nat));
    reveal_strlit("warning: couldn't start #%, leaving it for the pool");
    reveal_strlit("Issue #% concluded; looking for the next one.");
    reveal_strlit("The session for issue #% ended before its workflow concluded, \
     so the forever worker is stopping. Re-run `ghwf forever` to resume.");
}

/// Between two workflows a request to stop that came after the start ends the worker,
/// and a program that was replaced is taken up, the request first.
pub proof fn stops_come_before_relaunches(
    requested: Option<u128>,
    started: u128,
    stop: bool,
    at_start: Option<&str>,
    now: Option<&str>,
    replaced: bool,
    r: Next,
)
    requires
        call_ensures(next::stop_reaches, (requested, started), stop),
        call_ensures(next::was_replaced, (at_start, now), replaced),
        call_ensures(next::after_conclusion, (stop, replaced), r),
    ensures
        requested is Some && requested->0 >= started ==> r == Next::Stop,
        !(requested is Some && requested->0 >= started) && at_start is Some && now is Some
            && at_start->0@ != now->0@ ==> r == Next::Relaunch,
        !(requested is Some && requested->0 >= started) && !(at_start is Some && now is Some
            && at_start->0@ != now->0@) ==> r == Next::Pick,
{
}

/// A launch goes below an issue that is found to have sub-issues, and works on any other
/// itself, also where they could not be listed.
pub proof fn issues_with_children_are_gone_below(
    number: u64,
    listed: Result<Vec<IssueListing>, String>,
    r: Resolution,
)
    requires
        call_ensures(next::resolve_workable, (number, listed), r),
    ensures
        listed is Ok && listed->Ok_0@.len() > 0 ==> r == Resolution::Below(listed->Ok_0),
        listed is Err || listed->Ok_0@.len() == 0 ==> r == Resolution::Issue(number),
{
}

/// Of the leaves below an issue, one that is underway is resumed before a new one is
/// started, a blocked one is never started, and of its kind the soonest is chosen.
pub proof fn the_soonest_leaf_is_chosen(
    leaves: &Vec<IssueListing>,
    underway: &Vec<bool>,
    me: &str,
    priority: &[String],
    r: Option<usize>,
    k: int,
)
    requires
        underway@.len() == leaves@.len(),
        call_ensures(next::choose_leaf, (leaves, underway, me, priority), r),
        0 <= k < leaves@.len(),
    ensures
        r is Some ==> r->0 < leaves@.len() && (underway@[r->0 as int]
            || leaves@[r->0 as int].issue_dependencies_summary.blocked_by == 0),
        underway@[k] || leaves@[k].issue_dependencies_summary.blocked_by == 0 ==> r is Some,
        underway@[k] ==> r is Some && underway@[r->0 as int],
        r is Some && underway@[k] && underway@[r->0 as int] ==> !sooner(
            leaves@[k],
            leaves@[r->0 as int],
            me@,
            priority@,
        ),
        r is Some && !underway@[k] && !underway@[r->0 as int]
            && leaves@[k].issue_dependencies_summary.blocked_by == 0 ==> !sooner(
            leaves@[k],
            leaves@[r->0 as int],
            me@,
            priority@,
        ),
{
    assert(priority.len() == priority@.len());
    let n = leaves@.len() as int;
    next::lemma_least(leaves@, underway@, me@, priority@, n);
    next::lemma_least(leaves@, next::unblocked(leaves@), me@, priority@, n);
    if underway@[k] || leaves@[k].issue_dependencies_summary.blocked_by == 0 {
        next::underway_leaves_come_first(leaves@, underway@, me@, priority@, k);
    }
    if r is Some {
        lemma_sooner(leaves@[k], leaves@[r->0 as int], me@, priority@);
        let at = r->0 as int;
        if next::least(leaves@, underway@, me@, priority@, n) < 0 {
            assert(next::unblocked(leaves@)[at]);
        }
    }
}

} // verus!
