//! The leaves below an issue that only tracks others.

use vstd::prelude::*;

use crate::models::IssueListing;
use crate::next::{self, Listings, Walk};

verus! {

/// The issue is open.
pub open spec fn is_open(i: IssueListing) -> bool {
    i.state@ == ""@ || i.state@ == "open"@
}

/// The issue was listed: as a child of the first, or of another that was asked about.
pub open spec fn is_below(
    x: IssueListing,
    children: Seq<IssueListing>,
    calls: Seq<(u64, Result<Vec<IssueListing>, String>)>,
) -> bool {
    children.contains(x) || exists|m: int|
        #![trigger calls[m]]
        0 <= m < calls.len() && calls[m].1 is Ok && calls[m].1->Ok_0@.contains(x)
}

/// Someone was asked about the sub-issues of this one.
pub open spec fn is_asked(calls: Seq<(u64, Result<Vec<IssueListing>, String>)>, n: u64) -> bool {
    exists|m: int| #![trigger calls[m]] 0 <= m < calls.len() && calls[m].0 == n
}

proof fn lemma_heard(
    nodes: Seq<IssueListing>,
    answers: Map<u64, Seq<IssueListing>>,
    calls: Seq<(u64, Result<Vec<IssueListing>, String>)>,
)
    requires
        next::heard(nodes, answers, calls),
    ensures
        forall|j: int|
            #![trigger nodes[j]]
            0 <= j < nodes.len() && nodes[j].tracking() ==> exists|m: int|
                #![trigger calls[m]]
                0 <= m < calls.len() && calls[m].0 == nodes[j].number && calls[m].1 is Ok
                    && calls[m].1->Ok_0@ == answers[nodes[j].number],
        forall|m: int|
            #![trigger calls[m]]
            0 <= m < calls.len() ==> calls[m].1 is Ok && exists|j: int|
                #![trigger nodes[j]]
                0 <= j < nodes.len() && nodes[j].tracking() && nodes[j].number == calls[m].0
                    && calls[m].1->Ok_0@ == answers[nodes[j].number],
    decreases nodes.len(),
{
    if nodes.len() > 0 {
        let front = nodes.drop_last();
        let last = nodes.len() - 1;
        assert(nodes[last] == nodes.last());
        let earlier = if nodes.last().tracking() {
            calls.drop_last()
        } else {
            calls
        };
        lemma_heard(front, answers, earlier);
        assert forall|j: int|
            #![trigger nodes[j]]
            0 <= j < nodes.len() && nodes[j].tracking() implies exists|m: int|
            #![trigger calls[m]]
            0 <= m < calls.len() && calls[m].0 == nodes[j].number && calls[m].1 is Ok
                && calls[m].1->Ok_0@ == answers[nodes[j].number] by {
            if j < front.len() {
                assert(front[j] == nodes[j]);
                let m = choose|m: int|
                    #![trigger earlier[m]]
                    0 <= m < earlier.len() && earlier[m].0 == front[j].number && earlier[m].1 is Ok
                        && earlier[m].1->Ok_0@ == answers[front[j].number];
                assert(calls[m] == earlier[m]);
            } else {
                let m = calls.len() - 1;
                assert(calls[m] == calls.last());
            }
        }
        assert forall|m: int| #![trigger calls[m]] 0 <= m < calls.len() implies calls[m].1 is Ok
            && exists|j: int|
            #![trigger nodes[j]]
            0 <= j < nodes.len() && nodes[j].tracking() && nodes[j].number == calls[m].0
                && calls[m].1->Ok_0@ == answers[nodes[j].number] by {
            if m < earlier.len() {
                assert(calls[m] == earlier[m]);
                let j = choose|j: int|
                    #![trigger front[j]]
                    0 <= j < front.len() && front[j].tracking() && front[j].number == earlier[m].0
                        && earlier[m].1->Ok_0@ == answers[front[j].number];
                assert(nodes[j] == front[j]);
            } else {
                assert(calls[m] == calls.last());
                assert(nodes[last].tracking());
            }
        }
    }
}

proof fn lemma_untracked(nodes: Seq<IssueListing>, x: IssueListing)
    ensures
        next::untracked(nodes).contains(x) <==> nodes.contains(x) && !x.tracking(),
    decreases nodes.len(),
{
    let all = next::untracked(nodes);
    if nodes.len() > 0 {
        let front = nodes.drop_last();
        lemma_untracked(front, x);
        let before = next::untracked(front);
        if all.contains(x) {
            let m = choose|m: int| 0 <= m < all.len() && all[m] == x;
            if m < before.len() {
                assert(before[m] == x);
                let k = choose|k: int| 0 <= k < front.len() && front[k] == x;
                assert(nodes[k] == x);
            } else {
                assert(nodes[nodes.len() - 1] == x);
            }
        }
        if nodes.contains(x) && !x.tracking() {
            let k = choose|k: int| 0 <= k < nodes.len() && nodes[k] == x;
            if k < front.len() {
                assert(front[k] == x);
                let m = choose|m: int| 0 <= m < before.len() && before[m] == x;
                assert(all[m] == x);
            } else {
                assert(all[before.len() as int] == x);
            }
        }
    }
}

proof fn lemma_leaf(
    w: Walk,
    calls: Seq<(u64, Result<Vec<IssueListing>, String>)>,
    x: IssueListing,
)
    requires
        w.sound(),
        w.heard(calls),
        w.leaves().contains(x),
    ensures
        is_open(x),
        x.sub_issues_summary.total == 0,
        x.number != w.parent,
        is_below(x, w.children, calls),
{
    lemma_untracked(w.nodes, x);
    lemma_heard(w.nodes, w.answers, calls);
    let k = choose|k: int| 0 <= k < w.nodes.len() && w.nodes[k] == x;
    assert(w.leads_to(w.nodes[k], k));
    if !w.children.contains(x) {
        let j = choose|j: int|
            0 <= j < k && (#[trigger] w.nodes[j]).tracking()
                && w.answers[w.nodes[j].number].contains(x);
        let m = choose|m: int|
            #![trigger calls[m]]
            0 <= m < calls.len() && calls[m].0 == w.nodes[j].number && calls[m].1 is Ok
                && calls[m].1->Ok_0@ == w.answers[w.nodes[j].number];
        assert(calls[m].1->Ok_0@.contains(x));
    }
}

proof fn lemma_reached(
    w: Walk,
    calls: Seq<(u64, Result<Vec<IssueListing>, String>)>,
    x: IssueListing,
)
    requires
        w.sound(),
        w.complete(),
        w.heard(calls),
        is_open(x),
        is_below(x, w.children, calls),
        x.number != w.parent,
    ensures
        is_asked(calls, x.number) || exists|leaf: IssueListing|
            #![trigger w.leaves().contains(leaf)]
            w.leaves().contains(leaf) && leaf.number == x.number,
{
    lemma_heard(w.nodes, w.answers, calls);
    let n = w.nodes.len() as int;
    assert(w.leads_to(x, n)) by {
        if !w.children.contains(x) {
            let m = choose|m: int|
                #![trigger calls[m]]
                0 <= m < calls.len() && calls[m].1 is Ok && calls[m].1->Ok_0@.contains(x);
            let j = choose|j: int|
                #![trigger w.nodes[j]]
                0 <= j < w.nodes.len() && w.nodes[j].tracking() && w.nodes[j].number == calls[m].0
                    && calls[m].1->Ok_0@ == w.answers[w.nodes[j].number];
            assert(w.nodes[j].tracking());
            assert(w.answers[w.nodes[j].number].contains(x));
        }
    }
    assert(w.reached(x.number));
    let i = choose|i: int| 0 <= i < w.nodes.len() && (#[trigger] w.nodes[i]).number == x.number;
    if w.nodes[i].tracking() {
        let m = choose|m: int|
            #![trigger calls[m]]
            0 <= m < calls.len() && calls[m].0 == w.nodes[i].number && calls[m].1 is Ok
                && calls[m].1->Ok_0@ == w.answers[w.nodes[i].number];
        assert(is_asked(calls, x.number));
    } else {
        lemma_untracked(w.nodes, w.nodes[i]);
        assert(w.nodes.contains(w.nodes[i]));
        assert(w.leaves().contains(w.nodes[i]));
    }
}

/// The leaves are the open issues below that have no sub-issues, each once: every one is
/// listed as a child of the first issue or of another below it, and every open child that
/// was listed is a leaf or was itself asked about.
pub proof fn every_open_leaf_is_found<L: Fn(u64) -> Result<Vec<IssueListing>, String>>(
    parent: u64,
    children: Vec<IssueListing>,
    before: Listings<L>,
    after: Listings<L>,
    leaves: Vec<IssueListing>,
    k: int,
    j: int,
    x: IssueListing,
)
    requires
        exists|g: &mut Listings<L>| #[trigger]
            call_ensures(next::collect_leaves::<L>, (parent, children, g), Ok(leaves)) && *g
                == before && *final(g) == after,
    ensures
        before.calls().is_prefix_of(after.calls()),
        0 <= k < leaves@.len() ==> is_open(leaves@[k]) && leaves@[k].sub_issues_summary.total == 0
            && leaves@[k].number != parent && is_below(
            leaves@[k],
            children@,
            after.since(before),
        ),
        is_open(x) && x.number != parent && is_below(x, children@, after.since(before)) ==> is_asked(
            after.since(before),
            x.number,
        ) || exists|i: int|
            #![trigger leaves@[i]]
            0 <= i < leaves@.len() && leaves@[i].number == x.number,
        0 <= k < after.since(before).len() ==> after.since(before)[k].1 is Ok,
{
    let calls = after.since(before);
    let w = choose|w: Walk|
        w.parent == parent && w.children == children@ && #[trigger] w.sound() && w.complete()
            && w.heard(calls) && leaves@ == w.leaves();
    lemma_heard(w.nodes, w.answers, calls);
    if 0 <= k < leaves@.len() {
        assert(w.leaves().contains(leaves@[k]));
        lemma_leaf(w, calls, leaves@[k]);
    }
    if is_open(x) && x.number != parent && is_below(x, children@, calls) {
        lemma_reached(w, calls, x);
        if !is_asked(calls, x.number) {
            let leaf = choose|leaf: IssueListing|
                #![trigger w.leaves().contains(leaf)]
                w.leaves().contains(leaf) && leaf.number == x.number;
            let i = choose|i: int| 0 <= i < leaves@.len() && leaves@[i] == leaf;
            assert(leaves@[i].number == x.number);
        }
    }
}

/// Where a listing fails, the walk ends with that failure.
pub proof fn failed_listings_end_the_walk<L: Fn(u64) -> Result<Vec<IssueListing>, String>>(
    parent: u64,
    children: Vec<IssueListing>,
    before: Listings<L>,
    after: Listings<L>,
    e: String,
)
    requires
        exists|g: &mut Listings<L>| #[trigger]
            call_ensures(
                next::collect_leaves::<L>,
                (parent, children, g),
                Err::<Vec<IssueListing>, String>(e),
            ) && *g == before && *final(g) == after,
    ensures
        after.calls().len() > before.calls().len(),
        after.calls().last().1 == Err::<Vec<IssueListing>, String>(e),
{
    let calls = after.since(before);
    let (w, node) = choose|w: Walk, node: IssueListing|
        w.parent == parent && w.children == children@ && #[trigger] next::walk_fails(
            w,
            node,
            calls,
            e,
        );
    assert(calls.len() > 0);
    assert(calls.last() == after.calls().last());
}

/// The leaf that is worked on is an open issue below without sub-issues; it is underway,
/// or nothing blocks it.
pub proof fn workable_leaves_are_worked_on<
    L: Fn(u64) -> Result<Vec<IssueListing>, String>,
    U: Fn(u64) -> bool,
>(
    parent: u64,
    children: Vec<IssueListing>,
    me: &str,
    priority: &[String],
    before: Listings<L>,
    underway: &U,
    after: Listings<L>,
    n: u64,
)
    requires
        exists|g: &mut Listings<L>| #[trigger]
            call_ensures(
                next::pick_workable_leaf::<L, U>,
                (parent, children, me, priority, g, underway),
                Ok::<u64, String>(n),
            ) && *g == before && *final(g) == after,
    ensures
        exists|x: IssueListing|
            #![trigger is_below(x, children@, after.since(before))]
            {
                &&& x.number == n
                &&& is_below(x, children@, after.since(before))
                &&& is_open(x)
                &&& x.sub_issues_summary.total == 0
                &&& x.number != parent
                &&& x.issue_dependencies_summary.blocked_by == 0 || call_ensures(
                    underway,
                    (n,),
                    true,
                )
            },
{
    let calls = after.since(before);
    let (w, started) = choose|w: Walk, started: Seq<bool>|
        w.parent == parent && w.children == children@ && #[trigger] next::leads_to_choice(
            w,
            started,
            me@,
            priority@,
            calls,
            underway,
            Some(n),
        );
    let leaves = w.leaves();
    let at = next::leaf_choice(leaves, started, me@, priority@);
    let x = leaves[at];
    assert(leaves.contains(x));
    lemma_leaf(w, calls, x);
    next::lemma_least(leaves, started, me@, priority@, leaves.len() as int);
    next::lemma_least(leaves, next::unblocked(leaves), me@, priority@, leaves.len() as int);
    assert(call_ensures(underway, (leaves[at].number,), started[at]));
    if next::least(leaves, started, me@, priority@, leaves.len() as int) < 0 {
        assert(next::unblocked(leaves)[at]);
    } else {
        assert(started[at]);
    }
    assert(is_below(x, children@, calls));
}

} // verus!
