//! How approvals move an issue along.

use vstd::prelude::*;

use crate::access::AccessList;
use crate::github::RepoRef;
use crate::laws::who::{welcome, welcome_thumb};
use crate::models::{Comment, Reaction};
use crate::render::{self, IgnoredKind, NoteKind, Transition, Trigger};
use crate::state::{self, Directive, IssueState, Phase};
use crate::text;
use crate::workflow::{
    self, all_events, comment_events, comments_of, in_order, reaction_events, run, standing, step,
    thumb_events, AdvanceOutcome, ApprovalEvent, Progress, PromptThumbs,
};

verus! {

/// The comments of both threads.
pub open spec fn both(issue_comments: &[Comment], pr_comments: Option<&[Comment]>) -> Seq<Comment> {
    issue_comments@ + comments_of(pr_comments)
}

/// A user's comment that gives a command; a posted one gives none.
pub open spec fn commands(c: Comment, d: Directive) -> bool {
    render::marker_of(c.body@) is None && state::given_directive(c.body@) == Some(d)
}

/// The phase that a command approves, with the one that follows it.
pub open spec fn moves(d: Directive, from: Phase, to: Phase) -> bool {
    ||| d == Directive::ApprovePrePlan && from == Phase::PrePlan && to == Phase::PrepAndPlan
    ||| d == Directive::ApprovePlan && from == Phase::PrepAndPlan && to == Phase::Implement
}

/// How far along a phase is.
pub open spec fn rank(p: Phase) -> int {
    match p {
        Phase::PrePlan => 0,
        Phase::PrepAndPlan => 1,
        Phase::Implement => 2,
        Phase::Review => 3,
        Phase::Finished => 4,
    }
}

/// How a command is written.
pub open spec fn written(d: Directive) -> Seq<char> {
    match d {
        Directive::ApprovePrePlan => "/approve-pre-plan"@,
        Directive::ApprovePlan => "/approve-plan"@,
        Directive::ApproveImplementation => "/approve-implementation"@,
        Directive::Proceed => "/proceed"@,
    }
}

/// A transition that this command fired, as the report has it.
pub open spec fn fired(t: Transition, d: Directive, by: String, via_reaction: bool) -> bool {
    moves(d, t.from, t.to) && match t.trigger {
        Trigger::Directive { command, by: name, via_reaction: via } => command@ == written(d)
            && name == by && via == via_reaction,
        _ => false,
    }
}

/// The reaction is a 👍.
pub open spec fn is_thumb(r: Reaction) -> bool {
    r.content@ == "+1"@
}

/// The repository of the thread that a prompt is on.
pub open spec fn home(p: PromptThumbs, issue_repo: RepoRef, code_repo: RepoRef) -> RepoRef {
    if p.source@ == "PR"@ {
        code_repo
    } else {
        issue_repo
    }
}

/// No other 👍 on any prompt has the id of this one.
pub open spec fn sole_thumb(prompts: Seq<PromptThumbs>, i: int, j: int) -> bool {
    forall|k: int, l: int|
        #![trigger prompts[k].reactions@[l]]
        0 <= k < prompts.len() && 0 <= l < prompts[k].reactions@.len() && (k != i || l != j)
            && is_thumb(prompts[k].reactions@[l]) ==> prompts[k].reactions@[l].id
            != prompts[i].reactions@[j].id
}

proof fn lemma_run_joined(p: Progress, a: Seq<ApprovalEvent>, b: Seq<ApprovalEvent>)
    ensures
        run(p, a + b) == run(run(p, a), b),
    decreases b.len(),
{
    if b.len() == 0 {
        assert(a + b =~= a);
    } else {
        lemma_run_joined(p, a, b.drop_last());
        assert((a + b).drop_last() =~= a + b.drop_last());
        assert((a + b).last() == b.last());
    }
}

proof fn lemma_run_grows(p: Progress, events: Seq<ApprovalEvent>)
    ensures
        p.transitions.is_prefix_of(run(p, events).transitions),
        p.notes.is_prefix_of(run(p, events).notes),
        p.ignored.is_prefix_of(run(p, events).ignored),
        rank(p.phase) <= rank(run(p, events).phase),
        p.directives.subset_of(run(p, events).directives),
        p.reactions.subset_of(run(p, events).reactions),
    decreases events.len(),
{
    if events.len() > 0 {
        lemma_run_grows(p, events.drop_last());
        let q = run(p, events.drop_last());
        let s = step(q, events.last());
        assert(q.transitions.is_prefix_of(s.transitions));
        assert(q.notes.is_prefix_of(s.notes));
        assert(q.ignored.is_prefix_of(s.ignored));
        assert(p.transitions.is_prefix_of(s.transitions));
        assert(p.notes.is_prefix_of(s.notes));
        assert(p.ignored.is_prefix_of(s.ignored));
    }
}

/// An event's id is not taken before it, where no other event has it.
proof fn lemma_not_taken(p: Progress, events: Seq<ApprovalEvent>, e: ApprovalEvent)
    requires
        !workflow::is_consumed(p, e),
        forall|j: int|
            0 <= j < events.len() && (#[trigger] events[j]).directive is Some ==> events[j].id
                != e.id || events[j].via_reaction != e.via_reaction,
    ensures
        !workflow::is_consumed(run(p, events), e),
    decreases events.len(),
{
    if events.len() > 0 {
        let init = events.drop_last();
        assert forall|j: int| 0 <= j < init.len() && (#[trigger] init[j]).directive is Some implies
            init[j].id != e.id || init[j].via_reaction != e.via_reaction by {
            assert(init[j] == events[j]);
        }
        lemma_not_taken(p, init, e);
        assert(events[events.len() - 1] == events.last());
    }
}

/// What the run was when it reached an event, and what it was after it.
proof fn lemma_reached(p: Progress, events: Seq<ApprovalEvent>, k: int) -> (q: Progress)
    requires
        0 <= k < events.len(),
        events[k].directive is Some,
        !workflow::is_consumed(p, events[k]),
        forall|j: int| 0 <= j < k ==> !same_key(#[trigger] events[j], events[k]),
    ensures
        q == run(p, events.take(k)),
        !workflow::is_consumed(q, events[k]),
        run(p, events) == run(step(q, events[k]), events.skip(k + 1)),
        rank(p.phase) <= rank(q.phase),
        p.transitions.is_prefix_of(q.transitions),
        step(q, events[k]).transitions.is_prefix_of(run(p, events).transitions),
        step(q, events[k]).notes.is_prefix_of(run(p, events).notes),
        step(q, events[k]).ignored.is_prefix_of(run(p, events).ignored),
        rank(step(q, events[k]).phase) <= rank(run(p, events).phase),
{
    let before = events.take(k);
    let after = events.skip(k + 1);
    let q = run(p, before);
    assert(events =~= before.push(events[k]) + after);
    lemma_run_joined(p, before.push(events[k]), after);
    assert(before.push(events[k]).drop_last() =~= before);
    lemma_run_grows(p, before);
    assert forall|j: int| 0 <= j < before.len() && (#[trigger] before[j]).directive is Some implies
        before[j].id != events[k].id || before[j].via_reaction != events[k].via_reaction by {
        assert(before[j] == events[j]);
        assert(!same_key(events[j], events[k]));
    }
    lemma_not_taken(p, before, events[k]);
    lemma_run_grows(step(q, events[k]), after);
    q
}

/// Two events are one to the record of what was taken.
pub open spec fn same_key(a: ApprovalEvent, b: ApprovalEvent) -> bool {
    a.directive is Some && b.directive is Some && a.id == b.id && a.via_reaction == b.via_reaction
}

/// The first event of its key, once the events are in order, is this one where every
/// event of that key is.
proof fn lemma_in_order(events: Seq<ApprovalEvent>, k: int) -> (at: int)
    requires
        0 <= k < events.len(),
        events[k].directive is Some,
        forall|j: int|
            0 <= j < events.len() && same_key(#[trigger] events[j], events[k]) ==> events[j]
                == events[k],
    ensures
        0 <= at < in_order(events).len(),
        in_order(events)[at] == events[k],
        forall|j: int| 0 <= j < at ==> !same_key(#[trigger] in_order(events)[j], events[k]),
{
    lemma_same_events(events);
    let sorted = in_order(events);
    let e = events[k];
    let some = choose|at: int| 0 <= at < sorted.len() && sorted[at] == e;
    assert(same_key(sorted[some], e));
    let at = lemma_first_of_key(sorted, e, some);
    let i = choose|i: int| 0 <= i < events.len() && events[i] == sorted[at];
    assert(events.contains(sorted[at]));
    assert(same_key(events[i], e));
    at
}

proof fn lemma_first_of_key(events: Seq<ApprovalEvent>, e: ApprovalEvent, some: int) -> (at: int)
    requires
        0 <= some < events.len(),
        same_key(events[some], e),
    ensures
        0 <= at <= some,
        same_key(events[at], e),
        forall|j: int| 0 <= j < at ==> !same_key(#[trigger] events[j], e),
    decreases some,
{
    if exists|j: int| 0 <= j < some && same_key(#[trigger] events[j], e) {
        let j = choose|j: int| 0 <= j < some && same_key(#[trigger] events[j], e);
        lemma_first_of_key(events, e, j)
    } else {
        some
    }
}

/// The event that a comment of either thread is.
proof fn lemma_comment_event(
    issue_comments: Seq<Comment>,
    pr_comments: Seq<Comment>,
    prompts: Seq<PromptThumbs>,
    access: AccessList,
    issue_repo: RepoRef,
    code_repo: RepoRef,
    k: int,
)
    requires
        0 <= k < (issue_comments + pr_comments).len(),
    ensures
        ({
            let c = (issue_comments + pr_comments)[k];
            let all = all_events(
                issue_comments,
                pr_comments,
                prompts,
                access,
                issue_repo,
                code_repo,
            );
            let e = all[k];
            &&& k < all.len()
            &&& e.id == c.id && e.at == c.created_at && e.by == c.user.login && !e.via_reaction
            &&& e.source@ == (if k < issue_comments.len() {
                "issue"@
            } else {
                "PR"@
            })
            &&& e.accepted == welcome(access, c.user.login@, c.author_association@)
            &&& forall|d: Directive| e.directive == Some(d) <==> #[trigger] commands(c, d)
        }),
{
    let on_issue = comment_events(issue_comments, "issue", access);
    let on_pr = comment_events(pr_comments, "PR", access);
    if k < issue_comments.len() {
        assert((on_issue + on_pr)[k] == on_issue[k]);
    } else {
        assert((on_issue + on_pr)[k] == on_pr[k - issue_comments.len()]);
    }
}

/// The event that a 👍 is.
pub open spec fn thumb_at(
    e: ApprovalEvent,
    prompts: Seq<PromptThumbs>,
    access: AccessList,
    issue_repo: RepoRef,
    code_repo: RepoRef,
    i: int,
    j: int,
) -> bool {
    let q = prompts[i].reactions@[j];
    &&& 0 <= i < prompts.len()
    &&& 0 <= j < prompts[i].reactions@.len()
    &&& is_thumb(q)
    &&& e.id == q.id && e.at == q.created_at && e.by == q.user.login && e.via_reaction
    &&& e.source == prompts[i].source
    &&& e.accepted == welcome_thumb(access, home(prompts[i], issue_repo, code_repo), q.user.login@)
    &&& e.directive == Some(prompts[i].directive)
}

proof fn lemma_reaction_event(
    reactions: Seq<Reaction>,
    directive: Directive,
    source: &'static str,
    access: AccessList,
    repo: RepoRef,
    j: int,
) -> (at: int)
    requires
        0 <= j < reactions.len(),
        is_thumb(reactions[j]),
    ensures
        0 <= at < reaction_events(reactions, directive, source, access, repo).len(),
        reaction_events(reactions, directive, source, access, repo)[at] == workflow::thumb_event(
            reactions[j],
            directive,
            source,
            access,
            repo,
        ),
    decreases reactions.len(),
{
    let init = reactions.drop_last();
    if j == reactions.len() - 1 {
        reaction_events(init, directive, source, access, repo).len() as int
    } else {
        assert(init[j] == reactions[j]);
        lemma_reaction_event(init, directive, source, access, repo, j)
    }
}

proof fn lemma_reaction_origin(
    reactions: Seq<Reaction>,
    directive: Directive,
    source: &'static str,
    access: AccessList,
    repo: RepoRef,
    at: int,
) -> (j: int)
    requires
        0 <= at < reaction_events(reactions, directive, source, access, repo).len(),
    ensures
        0 <= j < reactions.len(),
        is_thumb(reactions[j]),
        reaction_events(reactions, directive, source, access, repo)[at] == workflow::thumb_event(
            reactions[j],
            directive,
            source,
            access,
            repo,
        ),
    decreases reactions.len(),
{
    let init = reactions.drop_last();
    if at < reaction_events(init, directive, source, access, repo).len() {
        let j = lemma_reaction_origin(init, directive, source, access, repo, at);
        assert(init[j] == reactions[j]);
        j
    } else {
        reactions.len() - 1
    }
}

proof fn lemma_thumb_event(
    prompts: Seq<PromptThumbs>,
    access: AccessList,
    issue_repo: RepoRef,
    code_repo: RepoRef,
    i: int,
    j: int,
) -> (at: int)
    requires
        0 <= i < prompts.len(),
        0 <= j < prompts[i].reactions@.len(),
        is_thumb(prompts[i].reactions@[j]),
    ensures
        0 <= at < thumb_events(prompts, access, issue_repo, code_repo).len(),
        thumb_at(
            thumb_events(prompts, access, issue_repo, code_repo)[at],
            prompts,
            access,
            issue_repo,
            code_repo,
            i,
            j,
        ),
    decreases prompts.len(),
{
    let init = prompts.drop_last();
    let before = thumb_events(init, access, issue_repo, code_repo);
    let p = prompts.last();
    let repo = workflow::thread_repo(p.source, issue_repo, code_repo);
    let last = reaction_events(p.reactions@, p.directive, p.source, access, repo);
    if i == prompts.len() - 1 {
        let at = lemma_reaction_event(p.reactions@, p.directive, p.source, access, repo, j);
        assert((before + last)[before.len() + at] == last[at]);
        before.len() + at
    } else {
        assert(init[i] == prompts[i]);
        let at = lemma_thumb_event(init, access, issue_repo, code_repo, i, j);
        assert((before + last)[at] == before[at]);
        at
    }
}

proof fn lemma_thumb_origin(
    prompts: Seq<PromptThumbs>,
    access: AccessList,
    issue_repo: RepoRef,
    code_repo: RepoRef,
    at: int,
) -> (ij: (int, int))
    requires
        0 <= at < thumb_events(prompts, access, issue_repo, code_repo).len(),
    ensures
        thumb_at(
            thumb_events(prompts, access, issue_repo, code_repo)[at],
            prompts,
            access,
            issue_repo,
            code_repo,
            ij.0,
            ij.1,
        ),
    decreases prompts.len(),
{
    if prompts.len() == 0 {
        (0, 0)
    } else {
        let init = prompts.drop_last();
        let before = thumb_events(init, access, issue_repo, code_repo);
        let p = prompts.last();
        let repo = workflow::thread_repo(p.source, issue_repo, code_repo);
        let last = reaction_events(p.reactions@, p.directive, p.source, access, repo);
        if at < before.len() {
            assert((before + last)[at] == before[at]);
            let ij = lemma_thumb_origin(init, access, issue_repo, code_repo, at);
            assert(init[ij.0] == prompts[ij.0]);
            ij
        } else {
            assert((before + last)[at] == last[at - before.len()]);
            let j = lemma_reaction_origin(
                p.reactions@,
                p.directive,
                p.source,
                access,
                repo,
                at - before.len(),
            );
            (prompts.len() - 1, j)
        }
    }
}

/// What an event is: a comment, or a 👍.
proof fn lemma_origin(
    issue_comments: Seq<Comment>,
    pr_comments: Seq<Comment>,
    prompts: Seq<PromptThumbs>,
    access: AccessList,
    issue_repo: RepoRef,
    code_repo: RepoRef,
    at: int,
) -> (ij: (int, int))
    requires
        0 <= at < all_events(
            issue_comments,
            pr_comments,
            prompts,
            access,
            issue_repo,
            code_repo,
        ).len(),
    ensures
        at < (issue_comments + pr_comments).len() || thumb_at(
            all_events(issue_comments, pr_comments, prompts, access, issue_repo, code_repo)[at],
            prompts,
            access,
            issue_repo,
            code_repo,
            ij.0,
            ij.1,
        ),
{
    let n = (issue_comments + pr_comments).len();
    if at < n {
        (0, 0)
    } else {
        lemma_thumb_origin(prompts, access, issue_repo, code_repo, at - n)
    }
}

/// The phase stays while nobody who may drive the workflow approves it anew.
pub proof fn lemma_phase_stays(p: Progress, events: Seq<ApprovalEvent>)
    requires
        forall|j: int|
            0 <= j < events.len() && (#[trigger] events[j]).accepted && events[j].directive is Some
                && events[j].directive->0.approved() == Some(p.phase) ==> workflow::is_consumed(
                p,
                events[j],
            ),
    ensures
        run(p, events).phase == p.phase,
        run(p, events).transitions == p.transitions,
        p.directives.subset_of(run(p, events).directives),
        p.reactions.subset_of(run(p, events).reactions),
    decreases events.len(),
{
    if events.len() > 0 {
        let init = events.drop_last();
        assert forall|j: int|
            0 <= j < init.len() && (#[trigger] init[j]).accepted && init[j].directive is Some
                && init[j].directive->0.approved() == Some(p.phase) implies workflow::is_consumed(
            p,
            init[j],
        ) by {
            assert(init[j] == events[j]);
        }
        lemma_phase_stays(p, init);
        assert(events[events.len() - 1] == events.last());
    }
}

/// An event is in the run's order exactly where it is among the events.
proof fn lemma_same_events(events: Seq<ApprovalEvent>)
    ensures
        in_order(events).len() == events.len(),
        forall|k: int|
            0 <= k < events.len() ==> in_order(events).contains(#[trigger] events[k]),
        forall|k: int|
            0 <= k < in_order(events).len() ==> events.contains(#[trigger] in_order(events)[k]),
{
    broadcast use vstd::seq_lib::group_to_multiset_ensures;

    workflow::events_are_taken_in_order(events);
    let sorted = in_order(events);
    assert(sorted.len() == sorted.to_multiset().len());
    assert(events.len() == events.to_multiset().len());
    assert forall|k: int| 0 <= k < events.len() implies sorted.contains(#[trigger] events[k]) by {
        assert(events.to_multiset().count(events[k]) > 0);
    }
    assert forall|k: int| 0 <= k < sorted.len() implies events.contains(#[trigger] sorted[k]) by {
        assert(sorted.to_multiset().count(sorted[k]) > 0);
    }
}

/// An event of a comment's key is that comment, where the comments' ids differ.
proof fn lemma_sole_comment(
    issue_comments: Seq<Comment>,
    pr_comments: Seq<Comment>,
    prompts: Seq<PromptThumbs>,
    access: AccessList,
    issue_repo: RepoRef,
    code_repo: RepoRef,
    k: int,
)
    requires
        0 <= k < (issue_comments + pr_comments).len(),
        crate::seen::distinct_ids(issue_comments + pr_comments),
    ensures
        ({
            let all = all_events(
                issue_comments,
                pr_comments,
                prompts,
                access,
                issue_repo,
                code_repo,
            );
            forall|j: int|
                0 <= j < all.len() && same_key(#[trigger] all[j], all[k]) ==> all[j] == all[k]
        }),
{
    let both = issue_comments + pr_comments;
    let all = all_events(issue_comments, pr_comments, prompts, access, issue_repo, code_repo);
    lemma_comment_event(issue_comments, pr_comments, prompts, access, issue_repo, code_repo, k);
    assert forall|j: int| 0 <= j < all.len() && same_key(#[trigger] all[j], all[k]) implies all[j]
        == all[k] by {
        if j < both.len() {
            lemma_comment_event(
                issue_comments,
                pr_comments,
                prompts,
                access,
                issue_repo,
                code_repo,
                j,
            );
            assert(both[j].id == both[k].id);
        } else {
            let ij = lemma_origin(
                issue_comments,
                pr_comments,
                prompts,
                access,
                issue_repo,
                code_repo,
                j,
            );
        }
    }
}

/// A command that someone who may drive the workflow gives, and that was not taken
/// before, moves the issue on where it approves the current phase, and is reported as
/// stale, premature or retired where it does not. Whoever gave it, it is taken.
pub proof fn accepted_commands_take_effect(
    before: IssueState,
    issue_comments: &[Comment],
    pr_comments: Option<&[Comment]>,
    prompts: &[PromptThumbs],
    access: &AccessList,
    issue_repo: &RepoRef,
    code_repo: &RepoRef,
    after: IssueState,
    r: AdvanceOutcome,
    k: int,
    d: Directive,
)
    requires
        exists|g: &mut IssueState| #[trigger]
            call_ensures(
                workflow::advance_phase,
                (g, issue_comments, pr_comments, prompts, access, issue_repo, code_repo),
                r,
            ) && *g == before && *final(g) == after,
        0 <= k < both(issue_comments, pr_comments).len(),
        crate::seen::distinct_ids(both(issue_comments, pr_comments)),
        commands(both(issue_comments, pr_comments)[k], d),
        welcome(
            *access,
            both(issue_comments, pr_comments)[k].user.login@,
            both(issue_comments, pr_comments)[k].author_association@,
        ),
        !before.consumed_directives@.contains(both(issue_comments, pr_comments)[k].id),
    ensures
        after.consumed_directives@.contains(both(issue_comments, pr_comments)[k].id),
        d == Directive::ApprovePrePlan && before.phase == Phase::PrePlan ==> rank(after.phase) >= 1
            && r.transitions@.len() > 0 && r.transitions@[0].from == Phase::PrePlan
            && r.transitions@[0].to == Phase::PrepAndPlan,
        d == Directive::ApprovePlan && before.phase == Phase::PrepAndPlan ==> rank(after.phase) >= 2
            && r.transitions@.len() > 0 && r.transitions@[0].from == Phase::PrepAndPlan
            && r.transitions@[0].to == Phase::Implement,
        (exists|i: int|
            #![trigger r.transitions@[i]]
            0 <= i < r.transitions@.len() && fired(
                r.transitions@[i],
                d,
                both(issue_comments, pr_comments)[k].user.login,
                false,
            )) || (
        exists|i: int|
            #![trigger r.notes@[i]]
            0 <= i < r.notes@.len() && r.notes@[i].command@ == written(d) && r.notes@[i].by == both(
                issue_comments,
                pr_comments,
            )[k].user.login && !r.notes@[i].via_reaction && r.notes@[i].source@ == (if k
                < issue_comments@.len() {
                "issue"@
            } else {
                "PR"@
            }) && rank(before.phase) <= rank(r.notes@[i].phase_at) <= rank(after.phase)
                && match r.notes@[i].kind {
                NoteKind::Retired => d == Directive::ApproveImplementation || d
                    == Directive::Proceed,
                NoteKind::Stale => (d == Directive::ApprovePrePlan && rank(r.notes@[i].phase_at)
                    > 0) || (d == Directive::ApprovePlan && rank(r.notes@[i].phase_at) > 1),
                NoteKind::Premature => d == Directive::ApprovePlan && r.notes@[i].phase_at
                    == Phase::PrePlan,
            }),
{
    lemma_accepted_commands_take_effect(
        before,
        issue_comments,
        pr_comments,
        prompts,
        access,
        issue_repo,
        code_repo,
        run(
            standing(before),
            in_order(
                all_events(
                    issue_comments@,
                    comments_of(pr_comments),
                    prompts@,
                    *access,
                    *issue_repo,
                    *code_repo,
                ),
            ),
        ),
        k,
        d,
    );
}

pub proof fn lemma_accepted_commands_take_effect(
    before: IssueState,
    issue_comments: &[Comment],
    pr_comments: Option<&[Comment]>,
    prompts: &[PromptThumbs],
    access: &AccessList,
    issue_repo: &RepoRef,
    code_repo: &RepoRef,
    end: Progress,
    k: int,
    d: Directive,
)
    requires
        end == run(
            standing(before),
            in_order(
                all_events(
                    issue_comments@,
                    comments_of(pr_comments),
                    prompts@,
                    *access,
                    *issue_repo,
                    *code_repo,
                ),
            ),
        ),
        0 <= k < both(issue_comments, pr_comments).len(),
        crate::seen::distinct_ids(both(issue_comments, pr_comments)),
        commands(both(issue_comments, pr_comments)[k], d),
        welcome(
            *access,
            both(issue_comments, pr_comments)[k].user.login@,
            both(issue_comments, pr_comments)[k].author_association@,
        ),
        !before.consumed_directives@.contains(both(issue_comments, pr_comments)[k].id),
    ensures
        end.directives.contains(both(issue_comments, pr_comments)[k].id),
        d == Directive::ApprovePrePlan && before.phase == Phase::PrePlan ==> rank(end.phase) >= 1
            && end.transitions.len() > 0 && end.transitions[0].from == Phase::PrePlan
            && end.transitions[0].to == Phase::PrepAndPlan,
        d == Directive::ApprovePlan && before.phase == Phase::PrepAndPlan ==> rank(end.phase) >= 2
            && end.transitions.len() > 0 && end.transitions[0].from == Phase::PrepAndPlan
            && end.transitions[0].to == Phase::Implement,
        (exists|i: int|
            #![trigger end.transitions[i]]
            0 <= i < end.transitions.len() && fired(
                end.transitions[i],
                d,
                both(issue_comments, pr_comments)[k].user.login,
                false,
            )) || (
        exists|i: int|
            #![trigger end.notes[i]]
            0 <= i < end.notes.len() && end.notes[i].command@ == written(d) && end.notes[i].by == both(
                issue_comments,
                pr_comments,
            )[k].user.login && !end.notes[i].via_reaction && end.notes[i].source@ == (if k
                < issue_comments@.len() {
                "issue"@
            } else {
                "PR"@
            }) && rank(before.phase) <= rank(end.notes[i].phase_at) <= rank(end.phase)
                && match end.notes[i].kind {
                NoteKind::Retired => d == Directive::ApproveImplementation || d
                    == Directive::Proceed,
                NoteKind::Stale => (d == Directive::ApprovePrePlan && rank(end.notes[i].phase_at)
                    > 0) || (d == Directive::ApprovePlan && rank(end.notes[i].phase_at) > 1),
                NoteKind::Premature => d == Directive::ApprovePlan && end.notes[i].phase_at
                    == Phase::PrePlan,
            }),
{
    let p = standing(before);
    let all = all_events(
        issue_comments@,
        comments_of(pr_comments),
        prompts@,
        *access,
        *issue_repo,
        *code_repo,
    );
    let c = both(issue_comments, pr_comments)[k];
    lemma_comment_event(
        issue_comments@,
        comments_of(pr_comments),
        prompts@,
        *access,
        *issue_repo,
        *code_repo,
        k,
    );
    lemma_sole_comment(
        issue_comments@,
        comments_of(pr_comments),
        prompts@,
        *access,
        *issue_repo,
        *code_repo,
        k,
    );
    let e = all[k];
    assert(e.directive == Some(d));
    let at = lemma_in_order(all, k);
    let q = lemma_reached(p, in_order(all), at);
    let s = step(q, e);
    workflow::phases_advance_step_by_step(p, in_order(all));
    workflow::every_approval_is_consumed(p, in_order(all), at);
    if s.transitions.len() > q.transitions.len() {
        let i = q.transitions.len() as int;
        assert(end.transitions[i] == s.transitions[i]);
    } else {
        let i = q.notes.len() as int;
        assert(s.notes.len() == q.notes.len() + 1);
        assert(end.notes[i] == s.notes[i]);
    }
}

/// A 👍 on a prompt from someone who may drive the workflow on that thread's
/// repository counts as the command that the prompt asks for.
pub proof fn accepted_thumbs_take_effect(
    before: IssueState,
    issue_comments: &[Comment],
    pr_comments: Option<&[Comment]>,
    prompts: &[PromptThumbs],
    access: &AccessList,
    issue_repo: &RepoRef,
    code_repo: &RepoRef,
    after: IssueState,
    r: AdvanceOutcome,
    i: int,
    j: int,
)
    requires
        exists|g: &mut IssueState| #[trigger]
            call_ensures(
                workflow::advance_phase,
                (g, issue_comments, pr_comments, prompts, access, issue_repo, code_repo),
                r,
            ) && *g == before && *final(g) == after,
        0 <= i < prompts@.len(),
        0 <= j < prompts@[i].reactions@.len(),
        is_thumb(prompts@[i].reactions@[j]),
        sole_thumb(prompts@, i, j),
        welcome_thumb(
            *access,
            home(prompts@[i], *issue_repo, *code_repo),
            prompts@[i].reactions@[j].user.login@,
        ),
        !before.consumed_reactions@.contains(prompts@[i].reactions@[j].id),
    ensures
        after.consumed_reactions@.contains(prompts@[i].reactions@[j].id),
        prompts@[i].directive == Directive::ApprovePrePlan && before.phase == Phase::PrePlan
            ==> rank(after.phase) >= 1 && r.transitions@.len() > 0 && r.transitions@[0].from
            == Phase::PrePlan && r.transitions@[0].to == Phase::PrepAndPlan,
        prompts@[i].directive == Directive::ApprovePlan && before.phase == Phase::PrepAndPlan
            ==> rank(after.phase) >= 2 && r.transitions@.len() > 0 && r.transitions@[0].from
            == Phase::PrepAndPlan && r.transitions@[0].to == Phase::Implement,
        (exists|n: int|
            #![trigger r.transitions@[n]]
            0 <= n < r.transitions@.len() && fired(
                r.transitions@[n],
                prompts@[i].directive,
                prompts@[i].reactions@[j].user.login,
                true,
            )) || (exists|n: int|
            #![trigger r.notes@[n]]
            0 <= n < r.notes@.len() && r.notes@[n].command@ == written(prompts@[i].directive)
                && r.notes@[n].by == prompts@[i].reactions@[j].user.login
                && r.notes@[n].via_reaction && r.notes@[n].source == prompts@[i].source
                && match r.notes@[n].kind {
                NoteKind::Retired => prompts@[i].directive == Directive::ApproveImplementation
                    || prompts@[i].directive == Directive::Proceed,
                NoteKind::Stale => (prompts@[i].directive == Directive::ApprovePrePlan && rank(
                    r.notes@[n].phase_at,
                ) > 0) || (prompts@[i].directive == Directive::ApprovePlan && rank(
                    r.notes@[n].phase_at,
                ) > 1),
                NoteKind::Premature => prompts@[i].directive == Directive::ApprovePlan
                    && r.notes@[n].phase_at == Phase::PrePlan,
            }),
{
    lemma_accepted_thumbs_take_effect(
        before,
        issue_comments,
        pr_comments,
        prompts,
        access,
        issue_repo,
        code_repo,
        run(
            standing(before),
            in_order(
                all_events(
                    issue_comments@,
                    comments_of(pr_comments),
                    prompts@,
                    *access,
                    *issue_repo,
                    *code_repo,
                ),
            ),
        ),
        i,
        j,
    );
}

pub proof fn lemma_accepted_thumbs_take_effect(
    before: IssueState,
    issue_comments: &[Comment],
    pr_comments: Option<&[Comment]>,
    prompts: &[PromptThumbs],
    access: &AccessList,
    issue_repo: &RepoRef,
    code_repo: &RepoRef,
    end: Progress,
    i: int,
    j: int,
)
    requires
        end == run(
            standing(before),
            in_order(
                all_events(
                    issue_comments@,
                    comments_of(pr_comments),
                    prompts@,
                    *access,
                    *issue_repo,
                    *code_repo,
                ),
            ),
        ),
        0 <= i < prompts@.len(),
        0 <= j < prompts@[i].reactions@.len(),
        is_thumb(prompts@[i].reactions@[j]),
        sole_thumb(prompts@, i, j),
        welcome_thumb(
            *access,
            home(prompts@[i], *issue_repo, *code_repo),
            prompts@[i].reactions@[j].user.login@,
        ),
        !before.consumed_reactions@.contains(prompts@[i].reactions@[j].id),
    ensures
        end.reactions.contains(prompts@[i].reactions@[j].id),
        prompts@[i].directive == Directive::ApprovePrePlan && before.phase == Phase::PrePlan
            ==> rank(end.phase) >= 1 && end.transitions.len() > 0 && end.transitions[0].from
            == Phase::PrePlan && end.transitions[0].to == Phase::PrepAndPlan,
        prompts@[i].directive == Directive::ApprovePlan && before.phase == Phase::PrepAndPlan
            ==> rank(end.phase) >= 2 && end.transitions.len() > 0 && end.transitions[0].from
            == Phase::PrepAndPlan && end.transitions[0].to == Phase::Implement,
        (exists|n: int|
            #![trigger end.transitions[n]]
            0 <= n < end.transitions.len() && fired(
                end.transitions[n],
                prompts@[i].directive,
                prompts@[i].reactions@[j].user.login,
                true,
            )) || (exists|n: int|
            #![trigger end.notes[n]]
            0 <= n < end.notes.len() && end.notes[n].command@ == written(prompts@[i].directive)
                && end.notes[n].by == prompts@[i].reactions@[j].user.login
                && end.notes[n].via_reaction && end.notes[n].source == prompts@[i].source
                && match end.notes[n].kind {
                NoteKind::Retired => prompts@[i].directive == Directive::ApproveImplementation
                    || prompts@[i].directive == Directive::Proceed,
                NoteKind::Stale => (prompts@[i].directive == Directive::ApprovePrePlan && rank(
                    end.notes[n].phase_at,
                ) > 0) || (prompts@[i].directive == Directive::ApprovePlan && rank(
                    end.notes[n].phase_at,
                ) > 1),
                NoteKind::Premature => prompts@[i].directive == Directive::ApprovePlan
                    && end.notes[n].phase_at == Phase::PrePlan,
            }),
{
    let p = standing(before);
    let all = all_events(
        issue_comments@,
        comments_of(pr_comments),
        prompts@,
        *access,
        *issue_repo,
        *code_repo,
    );
    let typed = both(issue_comments, pr_comments).len() as int;
    let within = lemma_thumb_event(prompts@, *access, *issue_repo, *code_repo, i, j);
    let k = typed + within;
    assert(all[k] == thumb_events(prompts@, *access, *issue_repo, *code_repo)[within]);
    lemma_sole_thumb(
        issue_comments@,
        comments_of(pr_comments),
        prompts@,
        *access,
        *issue_repo,
        *code_repo,
        i,
        j,
        k,
    );
    let e = all[k];
    let at = lemma_in_order(all, k);
    let q = lemma_reached(p, in_order(all), at);
    let s = step(q, e);
    workflow::phases_advance_step_by_step(p, in_order(all));
    workflow::every_approval_is_consumed(p, in_order(all), at);
    if s.transitions.len() > q.transitions.len() {
        let n = q.transitions.len() as int;
        assert(end.transitions[n] == s.transitions[n]);
    } else {
        let n = q.notes.len() as int;
        assert(s.notes.len() == q.notes.len() + 1);
        assert(end.notes[n] == s.notes[n]);
    }
}

/// An event of a 👍's key is that 👍, where no other has its id.
proof fn lemma_sole_thumb(
    issue_comments: Seq<Comment>,
    pr_comments: Seq<Comment>,
    prompts: Seq<PromptThumbs>,
    access: AccessList,
    issue_repo: RepoRef,
    code_repo: RepoRef,
    i: int,
    j: int,
    k: int,
)
    requires
        sole_thumb(prompts, i, j),
        0 <= k < all_events(
            issue_comments,
            pr_comments,
            prompts,
            access,
            issue_repo,
            code_repo,
        ).len(),
        thumb_at(
            all_events(issue_comments, pr_comments, prompts, access, issue_repo, code_repo)[k],
            prompts,
            access,
            issue_repo,
            code_repo,
            i,
            j,
        ),
    ensures
        ({
            let all = all_events(
                issue_comments,
                pr_comments,
                prompts,
                access,
                issue_repo,
                code_repo,
            );
            forall|m: int|
                0 <= m < all.len() && same_key(#[trigger] all[m], all[k]) ==> all[m] == all[k]
        }),
{
    let both = issue_comments + pr_comments;
    let all = all_events(issue_comments, pr_comments, prompts, access, issue_repo, code_repo);
    assert forall|m: int| 0 <= m < all.len() && same_key(#[trigger] all[m], all[k]) implies all[m]
        == all[k] by {
        if m < both.len() {
            lemma_comment_event(
                issue_comments,
                pr_comments,
                prompts,
                access,
                issue_repo,
                code_repo,
                m,
            );
        } else {
            let at = lemma_origin(
                issue_comments,
                pr_comments,
                prompts,
                access,
                issue_repo,
                code_repo,
                m,
            );
            assert(prompts[at.0].reactions@[at.1].id == prompts[i].reactions@[j].id);
            assert(at.0 == i && at.1 == j);
        }
    }
}

/// The event that first fired a transition had not been taken before the run.
proof fn lemma_fired_by(p: Progress, events: Seq<ApprovalEvent>, n: int) -> (i: int)
    requires
        p.transitions.len() <= n < run(p, events).transitions.len(),
    ensures
        0 <= i < events.len(),
        events[i].accepted,
        events[i].directive is Some,
        !workflow::is_consumed(p, events[i]),
        fired(
            run(p, events).transitions[n],
            events[i].directive->0,
            events[i].by,
            events[i].via_reaction,
        ),
    decreases events.len(),
{
    let init = events.drop_last();
    let before = run(p, init);
    let e = events.last();
    if n < before.transitions.len() {
        let i = lemma_fired_by(p, init, n);
        assert(init[i] == events[i]);
        assert(run(p, events).transitions[n] == before.transitions[n]);
        i
    } else {
        lemma_run_grows(p, init);
        assert(events[events.len() - 1] == e);
        assert(e.directive is Some);
        assert(!workflow::is_consumed(before, e));
        events.len() - 1
    }
}

/// Nothing moves by itself: each transition was fired by a command of someone who may
/// drive the workflow, or by their 👍 on a prompt for it, that was not taken before.
pub proof fn every_transition_was_approved(
    before: IssueState,
    issue_comments: &[Comment],
    pr_comments: Option<&[Comment]>,
    prompts: &[PromptThumbs],
    access: &AccessList,
    issue_repo: &RepoRef,
    code_repo: &RepoRef,
    after: IssueState,
    r: AdvanceOutcome,
    n: int,
)
    requires
        exists|g: &mut IssueState| #[trigger]
            call_ensures(
                workflow::advance_phase,
                (g, issue_comments, pr_comments, prompts, access, issue_repo, code_repo),
                r,
            ) && *g == before && *final(g) == after,
        0 <= n < r.transitions@.len(),
    ensures
        (exists|k: int, d: Directive|
            0 <= k < both(issue_comments, pr_comments).len() && #[trigger] commands(
                both(issue_comments, pr_comments)[k],
                d,
            ) && welcome(
                *access,
                both(issue_comments, pr_comments)[k].user.login@,
                both(issue_comments, pr_comments)[k].author_association@,
            ) && !before.consumed_directives@.contains(both(issue_comments, pr_comments)[k].id)
                && fired(
                r.transitions@[n],
                d,
                both(issue_comments, pr_comments)[k].user.login,
                false,
            )) || (exists|i: int, j: int|
            #![trigger prompts@[i].reactions@[j]]
            0 <= i < prompts@.len() && 0 <= j < prompts@[i].reactions@.len() && is_thumb(
                prompts@[i].reactions@[j],
            ) && welcome_thumb(
                *access,
                home(prompts@[i], *issue_repo, *code_repo),
                prompts@[i].reactions@[j].user.login@,
            ) && !before.consumed_reactions@.contains(prompts@[i].reactions@[j].id) && fired(
                r.transitions@[n],
                prompts@[i].directive,
                prompts@[i].reactions@[j].user.login,
                true,
            )),
{
    lemma_every_transition_was_approved(
        before,
        issue_comments,
        pr_comments,
        prompts,
        access,
        issue_repo,
        code_repo,
        run(
            standing(before),
            in_order(
                all_events(
                    issue_comments@,
                    comments_of(pr_comments),
                    prompts@,
                    *access,
                    *issue_repo,
                    *code_repo,
                ),
            ),
        ),
        n,
    );
}

pub proof fn lemma_every_transition_was_approved(
    before: IssueState,
    issue_comments: &[Comment],
    pr_comments: Option<&[Comment]>,
    prompts: &[PromptThumbs],
    access: &AccessList,
    issue_repo: &RepoRef,
    code_repo: &RepoRef,
    end: Progress,
    n: int,
)
    requires
        end == run(
            standing(before),
            in_order(
                all_events(
                    issue_comments@,
                    comments_of(pr_comments),
                    prompts@,
                    *access,
                    *issue_repo,
                    *code_repo,
                ),
            ),
        ),
        0 <= n < end.transitions.len(),
    ensures
        (exists|k: int, d: Directive|
            0 <= k < both(issue_comments, pr_comments).len() && #[trigger] commands(
                both(issue_comments, pr_comments)[k],
                d,
            ) && welcome(
                *access,
                both(issue_comments, pr_comments)[k].user.login@,
                both(issue_comments, pr_comments)[k].author_association@,
            ) && !before.consumed_directives@.contains(both(issue_comments, pr_comments)[k].id)
                && fired(
                end.transitions[n],
                d,
                both(issue_comments, pr_comments)[k].user.login,
                false,
            )) || (exists|i: int, j: int|
            #![trigger prompts@[i].reactions@[j]]
            0 <= i < prompts@.len() && 0 <= j < prompts@[i].reactions@.len() && is_thumb(
                prompts@[i].reactions@[j],
            ) && welcome_thumb(
                *access,
                home(prompts@[i], *issue_repo, *code_repo),
                prompts@[i].reactions@[j].user.login@,
            ) && !before.consumed_reactions@.contains(prompts@[i].reactions@[j].id) && fired(
                end.transitions[n],
                prompts@[i].directive,
                prompts@[i].reactions@[j].user.login,
                true,
            )),
{
    let p = standing(before);
    let all = all_events(
        issue_comments@,
        comments_of(pr_comments),
        prompts@,
        *access,
        *issue_repo,
        *code_repo,
    );
    let at = lemma_fired_by(p, in_order(all), n);
    lemma_same_events(all);
    assert(all.contains(in_order(all)[at]));
    let k = choose|k: int| 0 <= k < all.len() && all[k] == in_order(all)[at];
    let ij = lemma_origin(
        issue_comments@,
        comments_of(pr_comments),
        prompts@,
        *access,
        *issue_repo,
        *code_repo,
        k,
    );
    if k < both(issue_comments, pr_comments).len() {
        lemma_comment_event(
            issue_comments@,
            comments_of(pr_comments),
            prompts@,
            *access,
            *issue_repo,
            *code_repo,
            k,
        );
        let d = all[k].directive->0;
        assert(commands(both(issue_comments, pr_comments)[k], d));
    } else {
        assert(prompts@[ij.0].reactions@[ij.1].id == all[k].id);
    }
}

/// The reports follow one another: each transition starts where the one before it
/// ended, the first at the phase before the run, and the last ends at the phase after
/// it. Without one the phase stays. What else is recorded of the issue is untouched.
pub proof fn the_phase_is_where_the_transitions_lead(
    before: IssueState,
    issue_comments: &[Comment],
    pr_comments: Option<&[Comment]>,
    prompts: &[PromptThumbs],
    access: &AccessList,
    issue_repo: &RepoRef,
    code_repo: &RepoRef,
    after: IssueState,
    r: AdvanceOutcome,
)
    requires
        exists|g: &mut IssueState| #[trigger]
            call_ensures(
                workflow::advance_phase,
                (g, issue_comments, pr_comments, prompts, access, issue_repo, code_repo),
                r,
            ) && *g == before && *final(g) == after,
    ensures
        r.transitions@.len() == 0 ==> after.phase == before.phase,
        r.transitions@.len() > 0 ==> r.transitions@[0].from == before.phase
            && r.transitions@[r.transitions@.len() - 1].to == after.phase,
        forall|n: int, m: int|
            0 <= n && m == n + 1 && m < r.transitions@.len() ==> (#[trigger] r.transitions@[n]).to
                == (#[trigger] r.transitions@[m]).from,
        rank(after.phase) == rank(before.phase) + r.transitions@.len(),
        after.prep == before.prep,
        after.issue_closed == before.issue_closed,
        after.pr_outcome == before.pr_outcome,
        after.intro_posted == before.intro_posted,
        after.last_posted == before.last_posted,
        after.attention == before.attention,
        after.stop_nudges == before.stop_nudges,
        after.session_alert == before.session_alert,
        after.labels_synced == before.labels_synced,
        after.wait == before.wait,
{
    let p = standing(before);
    let all = all_events(
        issue_comments@,
        comments_of(pr_comments),
        prompts@,
        *access,
        *issue_repo,
        *code_repo,
    );
    workflow::phases_advance_step_by_step(p, in_order(all));
}

/// The earliest approval of the current phase is the one that fires.
pub proof fn the_earliest_approval_fires(
    before: IssueState,
    issue_comments: &[Comment],
    pr_comments: Option<&[Comment]>,
    prompts: &[PromptThumbs],
    access: &AccessList,
    issue_repo: &RepoRef,
    code_repo: &RepoRef,
    after: IssueState,
    r: AdvanceOutcome,
    k: int,
    d: Directive,
    to: Phase,
)
    requires
        exists|g: &mut IssueState| #[trigger]
            call_ensures(
                workflow::advance_phase,
                (g, issue_comments, pr_comments, prompts, access, issue_repo, code_repo),
                r,
            ) && *g == before && *final(g) == after,
        0 <= k < both(issue_comments, pr_comments).len(),
        crate::seen::distinct_ids(both(issue_comments, pr_comments)),
        commands(both(issue_comments, pr_comments)[k], d),
        moves(d, before.phase, to),
        welcome(
            *access,
            both(issue_comments, pr_comments)[k].user.login@,
            both(issue_comments, pr_comments)[k].author_association@,
        ),
        !before.consumed_directives@.contains(both(issue_comments, pr_comments)[k].id),
        forall|m: int|
            0 <= m < both(issue_comments, pr_comments).len() && m != k && commands(
                #[trigger] both(issue_comments, pr_comments)[m],
                d,
            ) ==> !text::le(
                both(issue_comments, pr_comments)[m].created_at@,
                both(issue_comments, pr_comments)[k].created_at@,
            ),
        forall|i: int, j: int|
            #![trigger prompts@[i].reactions@[j]]
            0 <= i < prompts@.len() && 0 <= j < prompts@[i].reactions@.len() && is_thumb(
                prompts@[i].reactions@[j],
            ) && prompts@[i].directive == d ==> !text::le(
                prompts@[i].reactions@[j].created_at@,
                both(issue_comments, pr_comments)[k].created_at@,
            ),
    ensures
        r.transitions@.len() > 0,
        r.transitions@[0].from == before.phase,
        r.transitions@[0].to == to,
        fired(r.transitions@[0], d, both(issue_comments, pr_comments)[k].user.login, false),
{
    let p = standing(before);
    let all = all_events(
        issue_comments@,
        comments_of(pr_comments),
        prompts@,
        *access,
        *issue_repo,
        *code_repo,
    );
    let c = both(issue_comments, pr_comments)[k];
    lemma_comment_event(
        issue_comments@,
        comments_of(pr_comments),
        prompts@,
        *access,
        *issue_repo,
        *code_repo,
        k,
    );
    lemma_sole_comment(
        issue_comments@,
        comments_of(pr_comments),
        prompts@,
        *access,
        *issue_repo,
        *code_repo,
        k,
    );
    let e = all[k];
    assert(e.directive == Some(d));
    let sorted = in_order(all);
    let at = lemma_in_order(all, k);
    workflow::events_are_taken_in_order(all);
    lemma_same_events(all);
    let q = lemma_reached(p, sorted, at);
    let first = sorted.take(at);
    assert forall|m: int|
        0 <= m < first.len() && (#[trigger] first[m]).accepted && first[m].directive is Some
            && first[m].directive->0.approved() == Some(p.phase) implies workflow::is_consumed(
        p,
        first[m],
    ) by {
        assert(first[m] == sorted[m]);
        assert(text::le(sorted[m].at@, sorted[at].at@));
        assert(!same_key(sorted[m], e));
        assert(all.contains(sorted[m]));
        let o = choose|o: int| 0 <= o < all.len() && all[o] == sorted[m];
        assert(first[m].directive == Some(d));
        let ij = lemma_origin(
            issue_comments@,
            comments_of(pr_comments),
            prompts@,
            *access,
            *issue_repo,
            *code_repo,
            o,
        );
        if o < both(issue_comments, pr_comments).len() {
            lemma_comment_event(
                issue_comments@,
                comments_of(pr_comments),
                prompts@,
                *access,
                *issue_repo,
                *code_repo,
                o,
            );
            assert(commands(both(issue_comments, pr_comments)[o], d));
        } else {
            assert(is_thumb(prompts@[ij.0].reactions@[ij.1]));
        }
    }
    lemma_phase_stays(p, first);
    let s = step(q, e);
    assert(s.transitions.len() == 1);
    assert(r.transitions@[0] == s.transitions[0]);
}

/// Every command and every 👍 on a prompt is taken, whoever gave it, and nothing else:
/// none of them counts in a later run.
pub proof fn every_approval_is_taken(
    before: IssueState,
    issue_comments: &[Comment],
    pr_comments: Option<&[Comment]>,
    prompts: &[PromptThumbs],
    access: &AccessList,
    issue_repo: &RepoRef,
    code_repo: &RepoRef,
    after: IssueState,
    r: AdvanceOutcome,
    id: u64,
)
    requires
        exists|g: &mut IssueState| #[trigger]
            call_ensures(
                workflow::advance_phase,
                (g, issue_comments, pr_comments, prompts, access, issue_repo, code_repo),
                r,
            ) && *g == before && *final(g) == after,
    ensures
        after.consumed_directives@.contains(id) <==> (before.consumed_directives@.contains(id) || (
        exists|k: int, d: Directive|
            0 <= k < both(issue_comments, pr_comments).len() && #[trigger] commands(
                both(issue_comments, pr_comments)[k],
                d,
            ) && both(issue_comments, pr_comments)[k].id == id)),
        after.consumed_reactions@.contains(id) <==> (before.consumed_reactions@.contains(id) || (
        exists|i: int, j: int|
            #![trigger prompts@[i].reactions@[j]]
            0 <= i < prompts@.len() && 0 <= j < prompts@[i].reactions@.len() && is_thumb(
                prompts@[i].reactions@[j],
            ) && prompts@[i].reactions@[j].id == id)),
{
    let p = standing(before);
    let all = all_events(
        issue_comments@,
        comments_of(pr_comments),
        prompts@,
        *access,
        *issue_repo,
        *code_repo,
    );
    let sorted = in_order(all);
    lemma_same_events(all);
    lemma_run_grows(p, sorted);
    if exists|k: int, d: Directive|
        0 <= k < both(issue_comments, pr_comments).len() && #[trigger] commands(
            both(issue_comments, pr_comments)[k],
            d,
        ) && both(issue_comments, pr_comments)[k].id == id {
        let (k, d) = choose|k: int, d: Directive|
            0 <= k < both(issue_comments, pr_comments).len() && #[trigger] commands(
                both(issue_comments, pr_comments)[k],
                d,
            ) && both(issue_comments, pr_comments)[k].id == id;
        lemma_comment_event(
            issue_comments@,
            comments_of(pr_comments),
            prompts@,
            *access,
            *issue_repo,
            *code_repo,
            k,
        );
        assert(sorted.contains(all[k]));
        let at = choose|at: int| 0 <= at < sorted.len() && sorted[at] == all[k];
        workflow::every_approval_is_consumed(p, sorted, at);
    }
    if exists|i: int, j: int|
        #![trigger prompts@[i].reactions@[j]]
        0 <= i < prompts@.len() && 0 <= j < prompts@[i].reactions@.len() && is_thumb(
            prompts@[i].reactions@[j],
        ) && prompts@[i].reactions@[j].id == id {
        let (i, j) = choose|i: int, j: int|
            #![trigger prompts@[i].reactions@[j]]
            0 <= i < prompts@.len() && 0 <= j < prompts@[i].reactions@.len() && is_thumb(
                prompts@[i].reactions@[j],
            ) && prompts@[i].reactions@[j].id == id;
        let within = lemma_thumb_event(prompts@, *access, *issue_repo, *code_repo, i, j);
        let k = both(issue_comments, pr_comments).len() + within;
        assert(all[k] == thumb_events(prompts@, *access, *issue_repo, *code_repo)[within]);
        assert(sorted.contains(all[k]));
        let at = choose|at: int| 0 <= at < sorted.len() && sorted[at] == all[k];
        workflow::every_approval_is_consumed(p, sorted, at);
    }
    if after.consumed_directives@.contains(id) && !before.consumed_directives@.contains(id) {
        let at = lemma_taken_by(p, sorted, id, false);
        assert(all.contains(sorted[at]));
        let k = choose|k: int| 0 <= k < all.len() && all[k] == sorted[at];
        let ij = lemma_origin(
            issue_comments@,
            comments_of(pr_comments),
            prompts@,
            *access,
            *issue_repo,
            *code_repo,
            k,
        );
        if k < both(issue_comments, pr_comments).len() {
            lemma_comment_event(
                issue_comments@,
                comments_of(pr_comments),
                prompts@,
                *access,
                *issue_repo,
                *code_repo,
                k,
            );
            assert(commands(both(issue_comments, pr_comments)[k], all[k].directive->0));
        }
    }
    if after.consumed_reactions@.contains(id) && !before.consumed_reactions@.contains(id) {
        let at = lemma_taken_by(p, sorted, id, true);
        assert(all.contains(sorted[at]));
        let k = choose|k: int| 0 <= k < all.len() && all[k] == sorted[at];
        let ij = lemma_origin(
            issue_comments@,
            comments_of(pr_comments),
            prompts@,
            *access,
            *issue_repo,
            *code_repo,
            k,
        );
        if k < both(issue_comments, pr_comments).len() {
            lemma_comment_event(
                issue_comments@,
                comments_of(pr_comments),
                prompts@,
                *access,
                *issue_repo,
                *code_repo,
                k,
            );
        } else {
            assert(prompts@[ij.0].reactions@[ij.1].id == id);
        }
    }
}

proof fn lemma_taken_by(p: Progress, events: Seq<ApprovalEvent>, id: u64, via: bool) -> (at: int)
    requires
        if via {
            run(p, events).reactions.contains(id) && !p.reactions.contains(id)
        } else {
            run(p, events).directives.contains(id) && !p.directives.contains(id)
        },
    ensures
        0 <= at < events.len(),
        events[at].id == id,
        events[at].via_reaction == via,
        events[at].directive is Some,
    decreases events.len(),
{
    if events.len() == 0 {
        0
    } else {
        let init = events.drop_last();
        let before = run(p, init);
        if (via && before.reactions.contains(id)) || (!via && before.directives.contains(id)) {
            let at = lemma_taken_by(p, init, id, via);
            assert(init[at] == events[at]);
            at
        } else {
            assert(events[events.len() - 1] == events.last());
            events.len() - 1
        }
    }
}

/// A 👍 from someone who may not drive the workflow is reported as ignored, and only
/// such a 👍 is; it fires nothing.
pub proof fn strangers_thumbs_are_reported(
    before: IssueState,
    issue_comments: &[Comment],
    pr_comments: Option<&[Comment]>,
    prompts: &[PromptThumbs],
    access: &AccessList,
    issue_repo: &RepoRef,
    code_repo: &RepoRef,
    after: IssueState,
    r: AdvanceOutcome,
    i: int,
    j: int,
)
    requires
        exists|g: &mut IssueState| #[trigger]
            call_ensures(
                workflow::advance_phase,
                (g, issue_comments, pr_comments, prompts, access, issue_repo, code_repo),
                r,
            ) && *g == before && *final(g) == after,
        0 <= i < prompts@.len(),
        0 <= j < prompts@[i].reactions@.len(),
        is_thumb(prompts@[i].reactions@[j]),
        sole_thumb(prompts@, i, j),
        !welcome_thumb(
            *access,
            home(prompts@[i], *issue_repo, *code_repo),
            prompts@[i].reactions@[j].user.login@,
        ),
        !before.consumed_reactions@.contains(prompts@[i].reactions@[j].id),
    ensures
        exists|n: int|
            #![trigger r.ignored@[n]]
            0 <= n < r.ignored@.len() && r.ignored@[n].by == prompts@[i].reactions@[j].user.login
                && r.ignored@[n].source == prompts@[i].source && r.ignored@[n].kind
                == IgnoredKind::Reaction,
{
    let p = standing(before);
    let all = all_events(
        issue_comments@,
        comments_of(pr_comments),
        prompts@,
        *access,
        *issue_repo,
        *code_repo,
    );
    let typed = both(issue_comments, pr_comments).len() as int;
    let within = lemma_thumb_event(prompts@, *access, *issue_repo, *code_repo, i, j);
    let k = typed + within;
    assert(all[k] == thumb_events(prompts@, *access, *issue_repo, *code_repo)[within]);
    lemma_sole_thumb(
        issue_comments@,
        comments_of(pr_comments),
        prompts@,
        *access,
        *issue_repo,
        *code_repo,
        i,
        j,
        k,
    );
    let at = lemma_in_order(all, k);
    let q = lemma_reached(p, in_order(all), at);
    let s = step(q, all[k]);
    assert(s.ignored.len() == q.ignored.len() + 1);
    let n = q.ignored.len() as int;
    assert(run(p, in_order(all)).ignored[n] == s.ignored[n]);
    assert(r.ignored@[n] == s.ignored[n]);
}

proof fn lemma_ignored_by(p: Progress, events: Seq<ApprovalEvent>, n: int) -> (at: int)
    requires
        p.ignored.len() <= n < run(p, events).ignored.len(),
    ensures
        0 <= at < events.len(),
        !events[at].accepted,
        events[at].via_reaction,
        run(p, events).ignored[n].by == events[at].by,
        run(p, events).ignored[n].source == events[at].source,
        run(p, events).ignored[n].kind == IgnoredKind::Reaction,
    decreases events.len(),
{
    let init = events.drop_last();
    if n < run(p, init).ignored.len() {
        let at = lemma_ignored_by(p, init, n);
        assert(init[at] == events[at]);
        assert(run(p, events).ignored[n] == run(p, init).ignored[n]);
        at
    } else {
        assert(events[events.len() - 1] == events.last());
        events.len() - 1
    }
}

proof fn lemma_noted_by(p: Progress, events: Seq<ApprovalEvent>, n: int) -> (at: int)
    requires
        p.notes.len() <= n < run(p, events).notes.len(),
    ensures
        0 <= at < events.len(),
        events[at].accepted,
        events[at].directive is Some,
        !workflow::is_consumed(p, events[at]),
        run(p, events).notes[n].by == events[at].by,
        run(p, events).notes[n].source == events[at].source,
        run(p, events).notes[n].via_reaction == events[at].via_reaction,
        run(p, events).notes[n].command@ == written(events[at].directive->0),
    decreases events.len(),
{
    let init = events.drop_last();
    if n < run(p, init).notes.len() {
        let at = lemma_noted_by(p, init, n);
        assert(init[at] == events[at]);
        assert(run(p, events).notes[n] == run(p, init).notes[n]);
        at
    } else {
        lemma_run_grows(p, init);
        assert(events[events.len() - 1] == events.last());
        events.len() - 1
    }
}

/// Where nobody who may drive the workflow commented or reacted, whatever strangers
/// wrote, nothing moves and nothing is noted.
pub proof fn strangers_move_nothing(
    before: IssueState,
    issue_comments: &[Comment],
    pr_comments: Option<&[Comment]>,
    prompts: &[PromptThumbs],
    access: &AccessList,
    issue_repo: &RepoRef,
    code_repo: &RepoRef,
    after: IssueState,
    r: AdvanceOutcome,
)
    requires
        exists|g: &mut IssueState| #[trigger]
            call_ensures(
                workflow::advance_phase,
                (g, issue_comments, pr_comments, prompts, access, issue_repo, code_repo),
                r,
            ) && *g == before && *final(g) == after,
        forall|k: int|
            0 <= k < both(issue_comments, pr_comments).len() ==> !welcome(
                *access,
                (#[trigger] both(issue_comments, pr_comments)[k]).user.login@,
                both(issue_comments, pr_comments)[k].author_association@,
            ),
        forall|i: int, j: int|
            #![trigger prompts@[i].reactions@[j]]
            0 <= i < prompts@.len() && 0 <= j < prompts@[i].reactions@.len() ==> !welcome_thumb(
                *access,
                home(prompts@[i], *issue_repo, *code_repo),
                prompts@[i].reactions@[j].user.login@,
            ),
    ensures
        after.phase == before.phase,
        r.transitions@.len() == 0,
        r.notes@.len() == 0,
{
    let p = standing(before);
    let all = all_events(
        issue_comments@,
        comments_of(pr_comments),
        prompts@,
        *access,
        *issue_repo,
        *code_repo,
    );
    if r.notes@.len() > 0 {
        let at = lemma_noted_by(p, in_order(all), 0);
        lemma_same_events(all);
        assert(all.contains(in_order(all)[at]));
        let k = choose|k: int| 0 <= k < all.len() && all[k] == in_order(all)[at];
        let ij = lemma_origin(
            issue_comments@,
            comments_of(pr_comments),
            prompts@,
            *access,
            *issue_repo,
            *code_repo,
            k,
        );
        if k < both(issue_comments, pr_comments).len() {
            lemma_comment_event(
                issue_comments@,
                comments_of(pr_comments),
                prompts@,
                *access,
                *issue_repo,
                *code_repo,
                k,
            );
            assert(both(issue_comments, pr_comments)[k].id == all[k].id);
        } else {
            assert(prompts@[ij.0].reactions@[ij.1].id == all[k].id);
        }
    }
    workflow::phases_advance_step_by_step(p, in_order(all));
    if r.transitions@.len() > 0 {
        every_transition_was_approved(
            before,
            issue_comments,
            pr_comments,
            prompts,
            access,
            issue_repo,
            code_repo,
            after,
            r,
            0,
        );
    }
}

/// Nothing is reported as ignored but the 👍s of those who may not drive the workflow.
pub proof fn only_strangers_are_ignored(
    before: IssueState,
    issue_comments: &[Comment],
    pr_comments: Option<&[Comment]>,
    prompts: &[PromptThumbs],
    access: &AccessList,
    issue_repo: &RepoRef,
    code_repo: &RepoRef,
    after: IssueState,
    r: AdvanceOutcome,
    n: int,
)
    requires
        exists|g: &mut IssueState| #[trigger]
            call_ensures(
                workflow::advance_phase,
                (g, issue_comments, pr_comments, prompts, access, issue_repo, code_repo),
                r,
            ) && *g == before && *final(g) == after,
        0 <= n < r.ignored@.len(),
    ensures
        r.ignored@[n].kind == IgnoredKind::Reaction,
        exists|i: int, j: int|
            #![trigger prompts@[i].reactions@[j]]
            0 <= i < prompts@.len() && 0 <= j < prompts@[i].reactions@.len() && is_thumb(
                prompts@[i].reactions@[j],
            ) && !welcome_thumb(
                *access,
                home(prompts@[i], *issue_repo, *code_repo),
                prompts@[i].reactions@[j].user.login@,
            ) && r.ignored@[n].by == prompts@[i].reactions@[j].user.login && r.ignored@[n].source
                == prompts@[i].source,
{
    let p = standing(before);
    let all = all_events(
        issue_comments@,
        comments_of(pr_comments),
        prompts@,
        *access,
        *issue_repo,
        *code_repo,
    );
    let at = lemma_ignored_by(p, in_order(all), n);
    lemma_same_events(all);
    assert(all.contains(in_order(all)[at]));
    let k = choose|k: int| 0 <= k < all.len() && all[k] == in_order(all)[at];
    let ij = lemma_origin(
        issue_comments@,
        comments_of(pr_comments),
        prompts@,
        *access,
        *issue_repo,
        *code_repo,
        k,
    );
    if k < both(issue_comments, pr_comments).len() {
        lemma_comment_event(
            issue_comments@,
            comments_of(pr_comments),
            prompts@,
            *access,
            *issue_repo,
            *code_repo,
            k,
        );
    } else {
        assert(prompts@[ij.0].reactions@[ij.1].id == all[k].id);
    }
}

} // verus!
