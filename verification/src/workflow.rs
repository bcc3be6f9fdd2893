//! How approvals advance an issue's phase, and what of the conversation is new.

use vstd::prelude::*;

use crate::access::AccessList;
use crate::github::RepoRef;
use crate::models::{Comment, PullRequest, Reaction};
use crate::render::{
    self, DirectiveNote, IgnoredInput, IgnoredKind, NoteKind, Transition, Trigger,
};
use crate::state::{self, Directive, IssueState, Phase};
use crate::store;
use crate::text;

verus! {

/// What directive processing did this run: phase transitions that fired, and
/// consumed directives that didn't (with why).
pub struct AdvanceOutcome {
    pub transitions: Vec<Transition>,
    pub notes: Vec<DirectiveNote>,
    /// 👍 reactions that were ignored because of who gave them.
    pub ignored: Vec<IgnoredInput>,
}

impl Default for AdvanceOutcome {
    fn default() -> (r: Self)
        ensures
            r.transitions@.len() == 0,
            r.notes@.len() == 0,
            r.ignored@.len() == 0,
    {
        AdvanceOutcome { transitions: Vec::new(), notes: Vec::new(), ignored: Vec::new() }
    }
}

/// An approval prompt comment with the reactions currently on it.
pub struct PromptThumbs {
    pub comment_id: u64,
    /// The approval the prompt's body asks for.
    pub directive: Directive,
    /// Which conversation thread the prompt is on ("issue" / "PR").
    pub source: &'static str,
    pub reactions: Vec<Reaction>,
}

/// One approval event awaiting classification: a typed directive comment, or a
/// 👍 reaction on a prompt comment.
pub struct ApprovalEvent {
    /// The comment's id, or the reaction's.
    pub id: u64,
    /// When the event happened, for the chronological merge.
    pub at: String,
    pub by: String,
    /// The conversation thread ("issue" / "PR").
    pub source: &'static str,
    pub via_reaction: bool,
    /// The approval given; absent where a comment gives none.
    pub directive: Option<Directive>,
    /// Whether the author may drive the workflow.
    pub accepted: bool,
}

/// The event that a comment is. Only a user's comment gives a directive: a
/// marked one may mention approval commands in its prose.
pub open spec fn comment_event(
    comment: Comment,
    source: &'static str,
    access: AccessList,
) -> ApprovalEvent {
    ApprovalEvent {
        id: comment.id,
        at: comment.created_at,
        by: comment.user.login,
        source,
        via_reaction: false,
        directive: if render::marker_of(comment.body@) is Some {
            None
        } else {
            state::given_directive(comment.body@)
        },
        accepted: access@.comment(comment.user.login@, comment.author_association@),
    }
}

pub open spec fn comment_events(
    comments: Seq<Comment>,
    source: &'static str,
    access: AccessList,
) -> Seq<ApprovalEvent> {
    Seq::new(comments.len(), |i: int| comment_event(comments[i], source, access))
}

/// The repository of a thread.
pub open spec fn thread_repo(
    source: &'static str,
    issue_repo: RepoRef,
    code_repo: RepoRef,
) -> RepoRef {
    if source@ == "PR"@ {
        code_repo
    } else {
        issue_repo
    }
}

/// The event that a 👍 is.
pub open spec fn thumb_event(
    reaction: Reaction,
    directive: Directive,
    source: &'static str,
    access: AccessList,
    repo: RepoRef,
) -> ApprovalEvent {
    ApprovalEvent {
        id: reaction.id,
        at: reaction.created_at,
        by: reaction.user.login,
        source,
        via_reaction: true,
        directive: Some(directive),
        accepted: access@.reaction(crate::access::repo_of(repo), reaction.user.login@),
    }
}

/// The 👍s among the reactions on one prompt.
pub open spec fn reaction_events(
    reactions: Seq<Reaction>,
    directive: Directive,
    source: &'static str,
    access: AccessList,
    repo: RepoRef,
) -> Seq<ApprovalEvent>
    decreases reactions.len(),
{
    if reactions.len() == 0 {
        seq![]
    } else {
        let before = reaction_events(reactions.drop_last(), directive, source, access, repo);
        if reactions.last().thumbs_up() {
            before.push(thumb_event(reactions.last(), directive, source, access, repo))
        } else {
            before
        }
    }
}

/// The 👍s on all prompts.
pub open spec fn thumb_events(
    prompts: Seq<PromptThumbs>,
    access: AccessList,
    issue_repo: RepoRef,
    code_repo: RepoRef,
) -> Seq<ApprovalEvent>
    decreases prompts.len(),
{
    if prompts.len() == 0 {
        seq![]
    } else {
        let p = prompts.last();
        thumb_events(prompts.drop_last(), access, issue_repo, code_repo) + reaction_events(
            p.reactions@,
            p.directive,
            p.source,
            access,
            thread_repo(p.source, issue_repo, code_repo),
        )
    }
}

/// Every approval event: the issue's comments, the PR's, and the 👍s.
pub open spec fn all_events(
    issue_comments: Seq<Comment>,
    pr_comments: Seq<Comment>,
    prompts: Seq<PromptThumbs>,
    access: AccessList,
    issue_repo: RepoRef,
    code_repo: RepoRef,
) -> Seq<ApprovalEvent> {
    comment_events(issue_comments, "issue", access) + comment_events(pr_comments, "PR", access)
        + thumb_events(prompts, access, issue_repo, code_repo)
}

/// `sorted` with `e` behind every event that is not later than it.
pub open spec fn insert_event(sorted: Seq<ApprovalEvent>, e: ApprovalEvent) -> Seq<ApprovalEvent>
    decreases sorted.len(),
{
    if sorted.len() == 0 || text::le(sorted.last().at@, e.at@) {
        sorted.push(e)
    } else {
        insert_event(sorted.drop_last(), e).push(sorted.last())
    }
}

/// The events in the order they happened; those of one moment stay in order.
pub open spec fn in_order(events: Seq<ApprovalEvent>) -> Seq<ApprovalEvent>
    decreases events.len(),
{
    if events.len() == 0 {
        seq![]
    } else {
        insert_event(in_order(events.drop_last()), events.last())
    }
}

/// What approvals change, and what they report.
pub struct Progress {
    pub phase: Phase,
    pub directives: Set<u64>,
    pub reactions: Set<u64>,
    pub transitions: Seq<Transition>,
    pub notes: Seq<DirectiveNote>,
    pub ignored: Seq<IgnoredInput>,
}

/// Whether an event has been processed before.
pub open spec fn is_consumed(p: Progress, e: ApprovalEvent) -> bool {
    if e.via_reaction {
        p.reactions.contains(e.id)
    } else {
        p.directives.contains(e.id)
    }
}

pub open spec fn consume(p: Progress, e: ApprovalEvent) -> Progress {
    if e.via_reaction {
        Progress { reactions: p.reactions.insert(e.id), ..p }
    } else {
        Progress { directives: p.directives.insert(e.id), ..p }
    }
}

/// What an approval from an accepted author does: one for the current phase
/// advances it, any other is noted.
pub open spec fn approve(p: Progress, e: ApprovalEvent, directive: Directive) -> Progress {
    if directive.approved() == Some(p.phase) {
        let to = p.phase.successor()->0;
        Progress {
            phase: to,
            transitions: p.transitions.push(
                Transition {
                    from: p.phase,
                    to,
                    trigger: Trigger::Directive {
                        command: directive.spelling(),
                        by: e.by,
                        via_reaction: e.via_reaction,
                    },
                },
            ),
            ..p
        }
    } else {
        let kind = match directive.approved() {
            Some(approved) => if approved.order() < p.phase.order() {
                NoteKind::Stale
            } else {
                NoteKind::Premature
            },
            None => NoteKind::Retired,
        };
        Progress {
            notes: p.notes.push(
                DirectiveNote {
                    kind,
                    command: directive.spelling(),
                    by: e.by,
                    source: e.source,
                    phase_at: p.phase,
                    via_reaction: e.via_reaction,
                },
            ),
            ..p
        }
    }
}

/// What one event does. An event without a directive, and one processed before,
/// does nothing; every other is consumed, whatever else happens.
pub open spec fn step(p: Progress, e: ApprovalEvent) -> Progress {
    match e.directive {
        None => p,
        Some(directive) => if is_consumed(p, e) {
            p
        } else if e.accepted {
            approve(consume(p, e), e, directive)
        } else if e.via_reaction {
            // A 👍 has no other surfacing path, so it is noted here.
            Progress {
                ignored: p.ignored.push(
                    IgnoredInput { by: e.by, source: e.source, kind: IgnoredKind::Reaction },
                ),
                ..consume(p, e)
            }
        } else {
            consume(p, e)
        },
    }
}

/// What a sequence of events does.
pub open spec fn run(p: Progress, events: Seq<ApprovalEvent>) -> Progress
    decreases events.len(),
{
    if events.len() == 0 {
        p
    } else {
        step(run(p, events.drop_last()), events.last())
    }
}

/// Where `state` stands, before anything is reported.
pub open spec fn standing(state: IssueState) -> Progress {
    Progress {
        phase: state.phase,
        directives: state.consumed_directives@,
        reactions: state.consumed_reactions@,
        transitions: seq![],
        notes: seq![],
        ignored: seq![],
    }
}

/// The state's other fields are the same.
pub open spec fn same_otherwise(a: IssueState, b: IssueState) -> bool {
    &&& a.prep == b.prep
    &&& a.issue_closed == b.issue_closed
    &&& a.pr_outcome == b.pr_outcome
    &&& a.intro_posted == b.intro_posted
    &&& a.last_posted == b.last_posted
    &&& a.attention == b.attention
    &&& a.stop_nudges == b.stop_nudges
    &&& a.session_alert == b.session_alert
    &&& a.labels_synced == b.labels_synced
    &&& a.wait == b.wait
}

/// Put `e` behind every event that is not later than it.
fn add_event(events: &mut Vec<ApprovalEvent>, e: ApprovalEvent)
    ensures
        final(events)@ == insert_event(old(events)@, e),
{
    let ghost s = events@;
    let mut i: usize = events.len();
    assert(s.take(i as int) =~= s);
    assert(s.skip(i as int) =~= seq![]);
    assert(insert_event(s, e) =~= insert_event(s.take(i as int), e) + s.skip(i as int));
    while i > 0 && !text::at_most(events[i - 1].at.as_str(), e.at.as_str())
        invariant
            i <= events.len(),
            s == events@,
            insert_event(s, e) == insert_event(s.take(i as int), e) + s.skip(i as int),
        decreases i,
    {
        proof {
            let t = s.take(i as int);
            assert(t.last() == s[i - 1]);
            assert(t.drop_last() =~= s.take(i - 1));
            assert(insert_event(t, e) + s.skip(i as int) =~= insert_event(s.take(i - 1), e)
                + s.skip(i - 1));
        }
        i = i - 1;
    }
    proof {
        let t = s.take(i as int);
        if i > 0 {
            assert(t.last() == s[i - 1]);
        }
        assert(insert_event(t, e) == t.push(e));
        assert(s.insert(i as int, e) =~= t.push(e) + s.skip(i as int));
    }
    events.insert(i, e);
}

/// Add a thread's comments to the events.
fn add_comments(
    events: &mut Vec<ApprovalEvent>,
    Ghost(all): Ghost<Seq<ApprovalEvent>>,
    comments: &[Comment],
    source: &'static str,
    access: &AccessList,
)
    requires
        old(events)@ == in_order(all),
    ensures
        final(events)@ == in_order(all + comment_events(comments@, source, *access)),
{
    let mut i: usize = 0;
    let ghost new = comment_events(comments@, source, *access);
    assert(all + new.take(0) =~= all);
    while i < comments.len()
        invariant
            i <= comments.len(),
            new == comment_events(comments@, source, *access),
            events@ == in_order(all + new.take(i as int)),
        decreases comments.len() - i,
    {
        let c = &comments[i];
        let directive = if render::extract_marker(c.body.as_str()).is_some() {
            None
        } else {
            state::parse_directive(c.body.as_str())
        };
        let e = ApprovalEvent {
            id: c.id,
            at: c.created_at.clone(),
            by: c.user.login.clone(),
            source,
            via_reaction: false,
            directive,
            accepted: access.accepts_comment(
                c.user.login.as_str(),
                c.author_association.as_str(),
            ),
        };
        assert(e == new[i as int]);
        add_event(events, e);
        proof {
            let now = all + new.take(i + 1);
            assert(now.drop_last() =~= all + new.take(i as int));
            assert(now.last() == e);
        }
        i = i + 1;
    }
    assert(new.take(new.len() as int) =~= new);
}

/// Add the 👍s on one prompt to the events.
fn add_reactions(
    events: &mut Vec<ApprovalEvent>,
    Ghost(all): Ghost<Seq<ApprovalEvent>>,
    prompt: &PromptThumbs,
    access: &AccessList,
    repo: &RepoRef,
)
    requires
        old(events)@ == in_order(all),
    ensures
        final(events)@ == in_order(
            all + reaction_events(
                prompt.reactions@,
                prompt.directive,
                prompt.source,
                *access,
                *repo,
            ),
        ),
{
    let mut i: usize = 0;
    let ghost rs = prompt.reactions@;
    assert(rs.take(0) =~= seq![]);
    assert(all + reaction_events(rs.take(0), prompt.directive, prompt.source, *access, *repo)
        =~= all);
    while i < prompt.reactions.len()
        invariant
            i <= prompt.reactions.len(),
            rs == prompt.reactions@,
            events@ == in_order(
                all + reaction_events(
                    rs.take(i as int),
                    prompt.directive,
                    prompt.source,
                    *access,
                    *repo,
                ),
            ),
        decreases prompt.reactions.len() - i,
    {
        let r = &prompt.reactions[i];
        assert(rs.take(i + 1).drop_last() =~= rs.take(i as int));
        assert(rs.take(i + 1).last() == rs[i as int]);
        if r.is_thumbs_up() {
            let e = ApprovalEvent {
                id: r.id,
                at: r.created_at.clone(),
                by: r.user.login.clone(),
                source: prompt.source,
                via_reaction: true,
                directive: Some(prompt.directive),
                accepted: access.accepts_reaction(repo, r.user.login.as_str()),
            };
            proof {
                let before = reaction_events(
                    rs.take(i as int),
                    prompt.directive,
                    prompt.source,
                    *access,
                    *repo,
                );
                let now = all + before.push(e);
                assert(now.drop_last() =~= all + before);
                assert(now.last() == e);
            }
            add_event(events, e);
        }
        i = i + 1;
    }
    assert(rs.take(rs.len() as int) =~= rs);
}

/// Every approval event, in the order they happened.
fn collect_events(
    issue_comments: &[Comment],
    pr_comments: Option<&[Comment]>,
    prompt_thumbs: &[PromptThumbs],
    access: &AccessList,
    issue_repo: &RepoRef,
    code_repo: &RepoRef,
) -> (r: Vec<ApprovalEvent>)
    ensures
        r@ == in_order(
            all_events(
                issue_comments@,
                comments_of(pr_comments),
                prompt_thumbs@,
                *access,
                *issue_repo,
                *code_repo,
            ),
        ),
{
    let mut events: Vec<ApprovalEvent> = Vec::new();
    let ghost none = Seq::<ApprovalEvent>::empty();
    let ghost on_issue = comment_events(issue_comments@, "issue", *access);
    let ghost on_pr = comment_events(comments_of(pr_comments), "PR", *access);
    assert(in_order(none) =~= none);
    add_comments(&mut events, Ghost(none), issue_comments, "issue", access);
    assert(none + on_issue =~= on_issue);
    match pr_comments {
        Some(comments) => {
            add_comments(&mut events, Ghost(on_issue), comments, "PR", access);
        },
        None => {
            assert(on_issue + on_pr =~= on_issue);
        },
    }
    let ghost typed = on_issue + on_pr;
    let mut i: usize = 0;
    assert(prompt_thumbs@.take(0) =~= seq![]);
    assert(typed + thumb_events(prompt_thumbs@.take(0), *access, *issue_repo, *code_repo)
        =~= typed);
    while i < prompt_thumbs.len()
        invariant
            i <= prompt_thumbs.len(),
            events@ == in_order(
                typed + thumb_events(
                    prompt_thumbs@.take(i as int),
                    *access,
                    *issue_repo,
                    *code_repo,
                ),
            ),
        decreases prompt_thumbs.len() - i,
    {
        let prompt = &prompt_thumbs[i];
        let ghost before = thumb_events(
            prompt_thumbs@.take(i as int),
            *access,
            *issue_repo,
            *code_repo,
        );
        let repo = if text::same(prompt.source, "PR") {
            code_repo
        } else {
            issue_repo
        };
        add_reactions(&mut events, Ghost(typed + before), prompt, access, repo);
        proof {
            let now = prompt_thumbs@.take(i + 1);
            assert(now.drop_last() =~= prompt_thumbs@.take(i as int));
            assert(now.last() == prompt_thumbs@[i as int]);
            let new = reaction_events(
                prompt.reactions@,
                prompt.directive,
                prompt.source,
                *access,
                *repo,
            );
            assert((typed + before) + new =~= typed + (before + new));
        }
        i = i + 1;
    }
    assert(prompt_thumbs@.take(prompt_thumbs@.len() as int) =~= prompt_thumbs@);
    events
}

/// The comments of a thread that may not exist yet.
pub open spec fn comments_of(comments: Option<&[Comment]>) -> Seq<Comment> {
    match comments {
        Some(comments) => comments@,
        None => seq![],
    }
}

/// `state` and `outcome` stand where `p` says.
pub open spec fn reached(state: IssueState, outcome: AdvanceOutcome, p: Progress) -> bool {
    &&& state.phase == p.phase
    &&& state.consumed_directives@ == p.directives
    &&& state.consumed_reactions@ == p.reactions
    &&& outcome.transitions@ == p.transitions
    &&& outcome.notes@ == p.notes
    &&& outcome.ignored@ == p.ignored
}

/// Process one event.
fn process_event(issue_state: &mut IssueState, outcome: &mut AdvanceOutcome, e: &ApprovalEvent, Ghost(
    p,
): Ghost<Progress>)
    requires
        reached(*old(issue_state), *old(outcome), p),
    ensures
        reached(*final(issue_state), *final(outcome), step(p, *e)),
        same_otherwise(*final(issue_state), *old(issue_state)),
{
    let directive = match e.directive {
        Some(directive) => directive,
        None => {
            return ;
        },
    };
    // Consume the event whatever happens next, so it never fires again, also
    // once its author is allow-listed later.
    if e.via_reaction {
        if store::holds(&issue_state.consumed_reactions, e.id) {
            return ;
        }
        store::put(&mut issue_state.consumed_reactions, e.id);
    } else {
        if store::holds(&issue_state.consumed_directives, e.id) {
            return ;
        }
        store::put(&mut issue_state.consumed_directives, e.id);
    }
    if !e.accepted {
        if e.via_reaction {
            outcome.ignored.push(
                IgnoredInput {
                    by: e.by.clone(),
                    source: e.source,
                    kind: IgnoredKind::Reaction,
                },
            );
        }
        return ;
    }
    let phase = issue_state.phase;
    let kind = match directive.approves() {
        Some(approved) => {
            if approved == phase {
                if let Some(to) = phase.next() {
                    issue_state.phase = to;
                    outcome.transitions.push(
                        Transition {
                            from: phase,
                            to,
                            trigger: Trigger::Directive {
                                command: directive.command(),
                                by: e.by.clone(),
                                via_reaction: e.via_reaction,
                            },
                        },
                    );
                }
                return ;
            }
            if approved.precedes(phase) {
                NoteKind::Stale
            } else {
                NoteKind::Premature
            }
        },
        None => NoteKind::Retired,
    };
    outcome.notes.push(
        DirectiveNote {
            kind,
            command: directive.command(),
            by: e.by.clone(),
            source: e.source,
            phase_at: phase,
            via_reaction: e.via_reaction,
        },
    );
}

/// Process any new approval events (typed directives on the issue and PR
/// conversation threads, and 👍 reactions on prompt comments), advancing the
/// issue's phase in `issue_state`.
///
/// Both threads and both kinds are merged chronologically, so successive
/// approvals fire in the order they were given. Every event is consumed exactly
/// once (by comment id or reaction id); one that doesn't approve the current
/// phase is recorded as a note (stale, premature or retired) instead of firing.
pub fn advance_phase(
    issue_state: &mut IssueState,
    issue_comments: &[Comment],
    pr_comments: Option<&[Comment]>,
    prompt_thumbs: &[PromptThumbs],
    access: &AccessList,
    issue_repo: &RepoRef,
    code_repo: &RepoRef,
) -> (r: AdvanceOutcome)
    ensures
        reached(
            *final(issue_state),
            r,
            run(
                standing(*old(issue_state)),
                in_order(
                    all_events(
                        issue_comments@,
                        comments_of(pr_comments),
                        prompt_thumbs@,
                        *access,
                        *issue_repo,
                        *code_repo,
                    ),
                ),
            ),
        ),
        same_otherwise(*final(issue_state), *old(issue_state)),
{
    let events = collect_events(
        issue_comments,
        pr_comments,
        prompt_thumbs,
        access,
        issue_repo,
        code_repo,
    );
    let ghost start = standing(*issue_state);
    let mut outcome = AdvanceOutcome::default();
    let mut i: usize = 0;
    assert(events@.take(0) =~= seq![]);
    assert(outcome.transitions@ =~= seq![]);
    assert(outcome.notes@ =~= seq![]);
    assert(outcome.ignored@ =~= seq![]);
    while i < events.len()
        invariant
            i <= events.len(),
            reached(*issue_state, outcome, run(start, events@.take(i as int))),
            same_otherwise(*issue_state, *old(issue_state)),
        decreases events.len() - i,
    {
        let ghost p = run(start, events@.take(i as int));
        process_event(issue_state, &mut outcome, &events[i], Ghost(p));
        assert(events@.take(i + 1).drop_last() =~= events@.take(i as int));
        assert(events@.take(i + 1).last() == events@[i as int]);
        i = i + 1;
    }
    assert(events@.take(events@.len() as int) =~= events@);
    outcome
}

/// Whether marking the PR ready for review advances the workflow: from the
/// implement phase only, and only while the PR is open.
pub open spec fn ready_fires(state: IssueState, pr: Option<&PullRequest>) -> bool {
    &&& state.phase == Phase::Implement
    &&& state.pr_outcome is None
    &&& pr is Some
    &&& !pr->0.draft
}

/// Advance implement → review when the user has marked the draft PR ready for
/// review. Only an open PR counts: a concluded workflow runs no phase work, and
/// a merged or closed PR that is no draft means nothing.
pub fn advance_on_pr_ready(
    issue_state: &mut IssueState,
    pr: Option<&PullRequest>,
    outcome: &mut AdvanceOutcome,
)
    ensures
        same_otherwise(*final(issue_state), *old(issue_state)),
        final(issue_state).consumed_directives == old(issue_state).consumed_directives,
        final(issue_state).consumed_reactions == old(issue_state).consumed_reactions,
        final(outcome).notes == old(outcome).notes,
        final(outcome).ignored == old(outcome).ignored,
        ready_fires(*old(issue_state), pr) ==> {
            &&& final(issue_state).phase == Phase::Review
            &&& final(outcome).transitions@ == old(outcome).transitions@.push(
                Transition { from: Phase::Implement, to: Phase::Review, trigger: Trigger::PrReady },
            )
        },
        !ready_fires(*old(issue_state), pr) ==> final(issue_state).phase == old(issue_state).phase
            && final(outcome).transitions == old(outcome).transitions,
{
    if issue_state.phase != Phase::Implement || issue_state.pr_outcome.is_some() {
        return ;
    }
    match pr {
        None => {},
        Some(pr) => {
            if !pr.draft {
                issue_state.phase = Phase::Review;
                outcome.transitions.push(
                    Transition {
                        from: Phase::Implement,
                        to: Phase::Review,
                        trigger: Trigger::PrReady,
                    },
                );
            }
        },
    }
}

/// Recompute how (or whether) the PR left the open state, and whether the issue
/// is closed. A conclusion that was not recorded before is returned, so it is
/// announced exactly once; recomputing rather than latching lets a
/// closed-then-reopened PR resume the workflow.
pub fn note_conclusion(
    issue_state: &mut IssueState,
    issue_is: &str,
    pr: Option<&PullRequest>,
) -> (r: Option<state::PrOutcome>)
    ensures
        final(issue_state).issue_closed == (issue_is@ != "open"@),
        final(issue_state).pr_outcome == (match pr {
            Some(pr) => state::outcome_of(*pr),
            None => None,
        }),
        r == (if final(issue_state).pr_outcome != old(issue_state).pr_outcome {
            final(issue_state).pr_outcome
        } else {
            None
        }),
        final(issue_state).phase == old(issue_state).phase,
        final(issue_state).consumed_directives == old(issue_state).consumed_directives,
        final(issue_state).consumed_reactions == old(issue_state).consumed_reactions,
        same_otherwise(
            (IssueState {
                issue_closed: old(issue_state).issue_closed,
                pr_outcome: old(issue_state).pr_outcome,
                ..*final(issue_state)
            }),
            *old(issue_state),
        ),
{
    issue_state.issue_closed = !text::same(issue_is, "open");
    let prior = issue_state.pr_outcome;
    let now = match pr {
        Some(pr) => state::pr_outcome(pr),
        None => None,
    };
    issue_state.pr_outcome = now;
    match (prior, now) {
        (None, Some(outcome)) => Some(outcome),
        (Some(before), Some(outcome)) => if before == outcome {
            None
        } else {
            Some(outcome)
        },
        (_, None) => None,
    }
}

/// A merged PR is terminal: the phase becomes finished. Closed without merging
/// is not finished; it keeps its phase as a record of how far the work got.
pub fn finish_if_merged(issue_state: &mut IssueState)
    ensures
        final(issue_state).phase == (if old(issue_state).pr_outcome == Some(
            state::PrOutcome::Merged,
        ) {
            Phase::Finished
        } else {
            old(issue_state).phase
        }),
        final(issue_state).consumed_directives == old(issue_state).consumed_directives,
        final(issue_state).consumed_reactions == old(issue_state).consumed_reactions,
        same_otherwise(*final(issue_state), *old(issue_state)),
{
    match issue_state.pr_outcome {
        Some(state::PrOutcome::Merged) => {
            issue_state.phase = Phase::Finished;
        },
        _ => {},
    }
}

/// Whether this phase requires the agent to be inside the issue's worktree.
pub open spec fn guarded(phase: Phase, state: IssueState) -> bool {
    &&& state.pr_outcome is None
    &&& state.prep is Some
    &&& !state.prep->0.no_branch
    &&& state.prep->0.worktree_path is Some
    &&& phase == Phase::PrepAndPlan || phase == Phase::Implement
}

/// Whether this phase requires the agent to be inside the issue's worktree.
///
/// Only branch-mode phases that operate on a created worktree qualify:
/// prep-and-plan (the agent must write the plan there) and implement (the agent codes
/// there). Pre-plan, review, work without a branch, and a concluded workflow
/// (merged or closed PR) don't need it.
pub fn needs_worktree_guard(phase: Phase, issue_state: &IssueState) -> (r: bool)
    ensures
        r == guarded(phase, *issue_state),
{
    if issue_state.pr_outcome.is_some() {
        return false;
    }
    match &issue_state.prep {
        None => false,
        Some(prep) => {
            if prep.no_branch || prep.worktree_path.is_none() {
                return false;
            }
            phase == Phase::PrepAndPlan || phase == Phase::Implement
        },
    }
}

/// What is consumed stays consumed.
proof fn lemma_consumed_grows(p: Progress, events: Seq<ApprovalEvent>, e: ApprovalEvent)
    requires
        is_consumed(p, e),
    ensures
        is_consumed(run(p, events), e),
    decreases events.len(),
{
    if events.len() > 0 {
        lemma_consumed_grows(p, events.drop_last(), e);
    }
}

/// Every event with a directive is consumed by the run.
pub proof fn every_approval_is_consumed(p: Progress, events: Seq<ApprovalEvent>, k: int)
    requires
        0 <= k < events.len(),
        events[k].directive is Some,
    ensures
        is_consumed(run(p, events), events[k]),
    decreases events.len(),
{
    let before = run(p, events.drop_last());
    if k < events.len() - 1 {
        every_approval_is_consumed(p, events.drop_last(), k);
        assert(events.drop_last()[k] == events[k]);
    }
}

pub proof fn lemma_consumed_do_nothing(p: Progress, events: Seq<ApprovalEvent>)
    requires
        forall|i: int|
            0 <= i < events.len() && events[i].directive is Some ==> is_consumed(
                p,
                #[trigger] events[i],
            ),
    ensures
        run(p, events) == p,
    decreases events.len(),
{
    if events.len() > 0 {
        assert forall|i: int|
            0 <= i < events.drop_last().len() && events.drop_last()[i].directive is Some implies is_consumed(
            p,
            #[trigger] events.drop_last()[i],
        ) by {
            assert(events.drop_last()[i] == events[i]);
        }
        lemma_consumed_do_nothing(p, events.drop_last());
        assert(events.last() == events[events.len() - 1]);
    }
}

/// `p` with nothing reported yet: where a later run starts.
pub open spec fn settled(p: Progress) -> Progress {
    Progress { transitions: seq![], notes: seq![], ignored: seq![], ..p }
}

/// The same event, whether or not its author is accepted.
pub open spec fn alike(a: ApprovalEvent, b: ApprovalEvent) -> bool {
    a == (ApprovalEvent { accepted: a.accepted, ..b })
}

/// The same events, in the same order, whoever is accepted.
pub open spec fn all_alike(a: Seq<ApprovalEvent>, b: Seq<ApprovalEvent>) -> bool {
    a.len() == b.len() && forall|i: int| 0 <= i < a.len() ==> alike(#[trigger] a[i], b[i])
}

proof fn lemma_insert_alike(
    a: Seq<ApprovalEvent>,
    b: Seq<ApprovalEvent>,
    e: ApprovalEvent,
    f: ApprovalEvent,
)
    requires
        all_alike(a, b),
        alike(e, f),
    ensures
        all_alike(insert_event(a, e), insert_event(b, f)),
    decreases a.len(),
{
    if a.len() > 0 {
        assert(alike(a[a.len() - 1], b[b.len() - 1]));
        assert forall|i: int| 0 <= i < a.drop_last().len() implies alike(
            #[trigger] a.drop_last()[i],
            b.drop_last()[i],
        ) by {
            assert(alike(a[i], b[i]));
        }
        lemma_insert_alike(a.drop_last(), b.drop_last(), e, f);
        if !text::le(a.last().at@, e.at@) {
            let inner_a = insert_event(a.drop_last(), e);
            let inner_b = insert_event(b.drop_last(), f);
            assert forall|i: int| 0 <= i < inner_a.push(a.last()).len() implies alike(
                #[trigger] inner_a.push(a.last())[i],
                inner_b.push(b.last())[i],
            ) by {
                if i < inner_a.len() {
                    assert(alike(inner_a[i], inner_b[i]));
                }
            }
        }
    }
}

/// Whoever is accepted, the events come in the same order.
pub proof fn lemma_order_alike(a: Seq<ApprovalEvent>, b: Seq<ApprovalEvent>)
    requires
        all_alike(a, b),
    ensures
        all_alike(in_order(a), in_order(b)),
    decreases a.len(),
{
    if a.len() > 0 {
        assert(alike(a[a.len() - 1], b[b.len() - 1]));
        assert forall|i: int| 0 <= i < a.drop_last().len() implies alike(
            #[trigger] a.drop_last()[i],
            b.drop_last()[i],
        ) by {
            assert(alike(a[i], b[i]));
        }
        lemma_order_alike(a.drop_last(), b.drop_last());
        lemma_insert_alike(in_order(a.drop_last()), in_order(b.drop_last()), a.last(), b.last());
    }
}

proof fn lemma_joined_alike(
    a: Seq<ApprovalEvent>,
    b: Seq<ApprovalEvent>,
    c: Seq<ApprovalEvent>,
    d: Seq<ApprovalEvent>,
)
    requires
        all_alike(a, b),
        all_alike(c, d),
    ensures
        all_alike(a + c, b + d),
{
    assert forall|i: int| 0 <= i < (a + c).len() implies alike(
        #[trigger] (a + c)[i],
        (b + d)[i],
    ) by {
        if i < a.len() {
            assert(alike(a[i], b[i]));
        } else {
            assert(alike(c[i - a.len()], d[i - a.len()]));
        }
    }
}

proof fn lemma_reactions_alike(
    reactions: Seq<Reaction>,
    directive: Directive,
    source: &'static str,
    one: AccessList,
    other: AccessList,
    repo: RepoRef,
)
    ensures
        all_alike(
            reaction_events(reactions, directive, source, one, repo),
            reaction_events(reactions, directive, source, other, repo),
        ),
    decreases reactions.len(),
{
    if reactions.len() > 0 {
        lemma_reactions_alike(reactions.drop_last(), directive, source, one, other, repo);
    }
}

proof fn lemma_thumbs_alike(
    prompts: Seq<PromptThumbs>,
    one: AccessList,
    other: AccessList,
    issue_repo: RepoRef,
    code_repo: RepoRef,
)
    ensures
        all_alike(
            thumb_events(prompts, one, issue_repo, code_repo),
            thumb_events(prompts, other, issue_repo, code_repo),
        ),
    decreases prompts.len(),
{
    if prompts.len() > 0 {
        let p = prompts.last();
        let repo = thread_repo(p.source, issue_repo, code_repo);
        lemma_thumbs_alike(prompts.drop_last(), one, other, issue_repo, code_repo);
        lemma_reactions_alike(p.reactions@, p.directive, p.source, one, other, repo);
        lemma_joined_alike(
            thumb_events(prompts.drop_last(), one, issue_repo, code_repo),
            thumb_events(prompts.drop_last(), other, issue_repo, code_repo),
            reaction_events(p.reactions@, p.directive, p.source, one, repo),
            reaction_events(p.reactions@, p.directive, p.source, other, repo),
        );
    }
}

/// The same comments and reactions make the same events, whoever is accepted.
pub proof fn lemma_events_alike(
    issue_comments: Seq<Comment>,
    pr_comments: Seq<Comment>,
    prompts: Seq<PromptThumbs>,
    one: AccessList,
    other: AccessList,
    issue_repo: RepoRef,
    code_repo: RepoRef,
)
    ensures
        all_alike(
            all_events(issue_comments, pr_comments, prompts, one, issue_repo, code_repo),
            all_events(issue_comments, pr_comments, prompts, other, issue_repo, code_repo),
        ),
{
    lemma_thumbs_alike(prompts, one, other, issue_repo, code_repo);
    lemma_joined_alike(
        comment_events(issue_comments, "issue", one),
        comment_events(issue_comments, "issue", other),
        comment_events(pr_comments, "PR", one),
        comment_events(pr_comments, "PR", other),
    );
    lemma_joined_alike(
        comment_events(issue_comments, "issue", one) + comment_events(pr_comments, "PR", one),
        comment_events(issue_comments, "issue", other) + comment_events(pr_comments, "PR", other),
        thumb_events(prompts, one, issue_repo, code_repo),
        thumb_events(prompts, other, issue_repo, code_repo),
    );
}

/// Every approval is taken once: running again over the same events changes
/// nothing and reports nothing, even where others are accepted by then.
pub proof fn running_again_does_nothing(
    p: Progress,
    events: Seq<ApprovalEvent>,
    again: Seq<ApprovalEvent>,
)
    requires
        all_alike(again, events),
    ensures
        run(settled(run(p, events)), again) == settled(run(p, events)),
{
    let q = settled(run(p, events));
    assert forall|i: int|
        0 <= i < again.len() && again[i].directive is Some implies is_consumed(
        q,
        #[trigger] again[i],
    ) by {
        assert(alike(again[i], events[i]));
        every_approval_is_consumed(p, events, i);
    }
    lemma_consumed_do_nothing(q, again);
}

/// The transitions of `p` form a chain of single steps that ends at its phase.
pub open spec fn chained(start: Phase, transitions: Seq<Transition>, end: Phase) -> bool {
    &&& forall|i: int|
        0 <= i < transitions.len() ==> (#[trigger] transitions[i]).from.successor() == Some(
            transitions[i].to,
        )
    &&& forall|i: int, j: int|
        0 <= i && j == i + 1 && j < transitions.len() ==> (#[trigger] transitions[i]).to == (
        #[trigger] transitions[j]).from
    &&& transitions.len() > 0 ==> transitions.first().from == start && transitions.last().to == end
    &&& transitions.len() == 0 ==> start == end
    &&& end.order() == start.order() + transitions.len()
}

/// One event leaves the phase, or moves it one step and says so.
proof fn lemma_step_moves_once(p: Progress, e: ApprovalEvent)
    ensures
        (step(p, e).phase == p.phase && step(p, e).transitions == p.transitions) || (exists|
            t: Transition,
        |
            #![trigger p.transitions.push(t)]
            step(p, e).transitions == p.transitions.push(t) && t.from == p.phase
                && t.from.successor() == Some(t.to) && step(p, e).phase == t.to),
{
}

proof fn lemma_chain_push(start: Phase, transitions: Seq<Transition>, end: Phase, t: Transition)
    requires
        chained(start, transitions, end),
        t.from == end,
        t.from.successor() == Some(t.to),
    ensures
        chained(start, transitions.push(t), t.to),
{
    let now = transitions.push(t);
    assert forall|i: int| 0 <= i < now.len() implies (#[trigger] now[i]).from.successor() == Some(
        now[i].to,
    ) by {
        if i < transitions.len() {
            assert(now[i] == transitions[i]);
        }
    }
    assert forall|i: int, j: int| 0 <= i && j == i + 1 && j < now.len() implies (
    #[trigger] now[i]).to == (#[trigger] now[j]).from by {
        assert(now[i] == transitions[i]);
        if j < transitions.len() {
            assert(now[j] == transitions[j]);
        }
    }
}

/// Approvals move the phase forwards, one step at a time: each transition goes
/// from where the one before it ended to the phase that follows.
pub proof fn phases_advance_step_by_step(p: Progress, events: Seq<ApprovalEvent>)
    requires
        p.transitions.len() == 0,
    ensures
        chained(p.phase, run(p, events).transitions, run(p, events).phase),
    decreases events.len(),
{
    if events.len() > 0 {
        phases_advance_step_by_step(p, events.drop_last());
        let before = run(p, events.drop_last());
        lemma_step_moves_once(before, events.last());
        let now = step(before, events.last());
        if now.transitions != before.transitions || now.phase != before.phase {
            let t = choose|t: Transition|
                #![trigger before.transitions.push(t)]
                now.transitions == before.transitions.push(t) && t.from == before.phase
                    && t.from.successor() == Some(t.to) && now.phase == t.to;
            lemma_chain_push(p.phase, before.transitions, before.phase, t);
        }
    }
}

/// A 👍 on a prompt is equivalent to posting the command that the prompt asks for:
/// both advance the same phase, or are noted in the same way.
pub proof fn a_thumb_counts_as_the_command(p: Progress, posted: ApprovalEvent, thumb: ApprovalEvent)
    requires
        !posted.via_reaction && thumb.via_reaction,
        posted.directive is Some && thumb.directive == posted.directive,
        posted.accepted && thumb.accepted,
        !is_consumed(p, posted) && !is_consumed(p, thumb),
    ensures
        step(p, thumb).phase == step(p, posted).phase,
        step(p, thumb).transitions.len() == step(p, posted).transitions.len(),
        step(p, thumb).notes.len() == step(p, posted).notes.len(),
        step(p, thumb).notes.len() > p.notes.len() ==> {
            &&& step(p, thumb).notes.last().kind == step(p, posted).notes.last().kind
            &&& step(p, thumb).notes.last().command == step(p, posted).notes.last().command
        },
        is_consumed(step(p, posted), posted) && is_consumed(step(p, thumb), thumb),
{
}

/// A command that does not match the current phase, or one that is retired, is
/// consumed without advancing anything, and reported.
pub proof fn mismatched_commands_are_consumed_and_noted(p: Progress, e: ApprovalEvent)
    requires
        e.directive is Some && e.accepted && !is_consumed(p, e),
        e.directive->0.approved() != Some(p.phase),
    ensures
        step(p, e).phase == p.phase,
        step(p, e).transitions == p.transitions,
        is_consumed(step(p, e), e),
        step(p, e).notes.len() == p.notes.len() + 1,
        step(p, e).notes.last().command == e.directive->0.spelling(),
        step(p, e).notes.last().phase_at == p.phase,
        step(p, e).notes.last().kind == NoteKind::Retired <==> e.directive->0.approved() is None,
{
}

/// Nobody who may not drive the workflow moves it: where no author is accepted,
/// the phase stays, and nothing fires or is noted.
pub proof fn strangers_change_nothing(p: Progress, events: Seq<ApprovalEvent>)
    requires
        forall|i: int| 0 <= i < events.len() ==> !(#[trigger] events[i]).accepted,
    ensures
        run(p, events).phase == p.phase,
        run(p, events).transitions == p.transitions,
        run(p, events).notes == p.notes,
    decreases events.len(),
{
    if events.len() > 0 {
        assert forall|i: int| 0 <= i < events.drop_last().len() implies !(
        #[trigger] events.drop_last()[i]).accepted by {
            assert(events.drop_last()[i] == events[i]);
        }
        strangers_change_nothing(p, events.drop_last());
        assert(events.last() == events[events.len() - 1]);
    }
}

/// Each transition was fired by an accepted approval of the phase it left.
pub proof fn transitions_have_an_accepted_approval(p: Progress, events: Seq<ApprovalEvent>, k: int)
    requires
        p.transitions.len() == 0,
        0 <= k < run(p, events).transitions.len(),
    ensures
        exists|i: int|
            #![trigger events[i]]
            0 <= i < events.len() && events[i].accepted && events[i].directive is Some
                && events[i].directive->0.approved() == Some(run(p, events).transitions[k].from)
                && run(p, events).transitions[k].trigger == (Trigger::Directive {
                command: events[i].directive->0.spelling(),
                by: events[i].by,
                via_reaction: events[i].via_reaction,
            }),
    decreases events.len(),
{
    if events.len() > 0 {
        let before = run(p, events.drop_last());
        let now = run(p, events);
        if k < before.transitions.len() {
            transitions_have_an_accepted_approval(p, events.drop_last(), k);
            assert(now.transitions[k] == before.transitions[k]);
            let i = choose|i: int|
                #![trigger events.drop_last()[i]]
                0 <= i < events.drop_last().len() && events.drop_last()[i].accepted
                    && events.drop_last()[i].directive is Some
                    && events.drop_last()[i].directive->0.approved() == Some(
                    before.transitions[k].from,
                ) && before.transitions[k].trigger == (Trigger::Directive {
                    command: events.drop_last()[i].directive->0.spelling(),
                    by: events.drop_last()[i].by,
                    via_reaction: events.drop_last()[i].via_reaction,
                });
            assert(events[i] == events.drop_last()[i]);
        } else {
            assert(events[events.len() - 1] == events.last());
        }
    }
}

proof fn lemma_insert_keeps(sorted: Seq<ApprovalEvent>, e: ApprovalEvent)
    ensures
        insert_event(sorted, e).to_multiset() == sorted.to_multiset().insert(e),
        insert_event(sorted, e).len() == sorted.len() + 1,
    decreases sorted.len(),
{
    broadcast use vstd::seq_lib::group_to_multiset_ensures;

    if !(sorted.len() == 0 || text::le(sorted.last().at@, e.at@)) {
        lemma_insert_keeps(sorted.drop_last(), e);
        assert(sorted =~= sorted.drop_last().push(sorted.last()));
        assert(insert_event(sorted, e).to_multiset() =~= sorted.to_multiset().insert(e));
    }
}

/// Events stand in the order they happened.
pub open spec fn ordered(events: Seq<ApprovalEvent>) -> bool {
    forall|i: int, j: int|
        0 <= i <= j < events.len() ==> text::le(
            (#[trigger] events[i]).at@,
            (#[trigger] events[j]).at@,
        )
}

proof fn lemma_insert_ordered(sorted: Seq<ApprovalEvent>, e: ApprovalEvent)
    requires
        ordered(sorted),
    ensures
        ordered(insert_event(sorted, e)),
        forall|k: int|
            0 <= k < insert_event(sorted, e).len() ==> (#[trigger] insert_event(sorted, e)[k]) == e
                || sorted.contains(insert_event(sorted, e)[k]),
    decreases sorted.len(),
{
    let now = insert_event(sorted, e);
    if sorted.len() == 0 || text::le(sorted.last().at@, e.at@) {
        assert forall|i: int, j: int| 0 <= i <= j < now.len() implies text::le(
            (#[trigger] now[i]).at@,
            (#[trigger] now[j]).at@,
        ) by {
            if j == sorted.len() {
                if i == j {
                    text::lemma_le_reflexive(e.at@);
                } else {
                    assert(text::le(sorted[i].at@, sorted[sorted.len() - 1].at@));
                    text::lemma_le_transitive(now[i].at@, sorted.last().at@, e.at@);
                }
            } else {
                assert(now[i] == sorted[i] && now[j] == sorted[j]);
            }
        }
        assert forall|k: int| 0 <= k < now.len() implies (#[trigger] now[k]) == e
            || sorted.contains(now[k]) by {
            if k < sorted.len() {
                assert(sorted[k] == now[k]);
            }
        }
    } else {
        let init = sorted.drop_last();
        assert forall|i: int, j: int| 0 <= i <= j < init.len() implies text::le(
            (#[trigger] init[i]).at@,
            (#[trigger] init[j]).at@,
        ) by {
            assert(init[i] == sorted[i] && init[j] == sorted[j]);
        }
        lemma_insert_ordered(init, e);
        text::lemma_le_total(sorted.last().at@, e.at@);
        let head = insert_event(init, e);
        lemma_insert_keeps(init, e);
        assert forall|k: int| 0 <= k < head.len() implies text::le(
            (#[trigger] head[k]).at@,
            sorted.last().at@,
        ) by {
            if head[k] != e {
                let m = choose|m: int| 0 <= m < init.len() && init[m] == head[k];
                assert(text::le(sorted[m].at@, sorted[sorted.len() - 1].at@));
            }
        }
        assert forall|i: int, j: int| 0 <= i <= j < now.len() implies text::le(
            (#[trigger] now[i]).at@,
            (#[trigger] now[j]).at@,
        ) by {
            if j == head.len() {
                if i == j {
                    text::lemma_le_reflexive(now[j].at@);
                } else {
                    assert(now[i] == head[i]);
                }
            } else {
                assert(now[i] == head[i] && now[j] == head[j]);
            }
        }
        assert forall|k: int| 0 <= k < now.len() implies (#[trigger] now[k]) == e
            || sorted.contains(now[k]) by {
            if k < head.len() {
                assert(now[k] == head[k]);
                if head[k] != e {
                    let m = choose|m: int| 0 <= m < init.len() && init[m] == head[k];
                    assert(sorted[m] == now[k]);
                }
            } else {
                assert(sorted[sorted.len() - 1] == now[k]);
            }
        }
    }
}

/// Approvals are taken in the order they happened, each of them once.
pub proof fn events_are_taken_in_order(events: Seq<ApprovalEvent>)
    ensures
        ordered(in_order(events)),
        in_order(events).to_multiset() == events.to_multiset(),
    decreases events.len(),
{
    broadcast use vstd::seq_lib::group_to_multiset_ensures;

    if events.len() > 0 {
        events_are_taken_in_order(events.drop_last());
        lemma_insert_ordered(in_order(events.drop_last()), events.last());
        lemma_insert_keeps(in_order(events.drop_last()), events.last());
        assert(events =~= events.drop_last().push(events.last()));
    } else {
        assert(in_order(events) =~= events);
    }
}

} // verus!
