//! One run over an issue: which collaborators to look up, which phase work to
//! do, where to post, what to remember, and whose turn it is afterwards.

use std::collections::BTreeMap;
use vstd::prelude::*;

use crate::access::AccessList;
use crate::models::{Comment, Issue, PullRequest, ReviewComment};
use crate::render::{self, Transition, Trigger};
use crate::seen;
use crate::state::{
    self, Attention, IssueState, Phase, PostedRef, PrOutcome, PrepState, ThreadWatch, WaitState,
};
use crate::store;
use crate::text;
use crate::workflow::PromptThumbs;

verus! {

/// Whether a 👍 among `reactions` hinges on its author being a collaborator: it
/// was not processed before, and its author is not accepted anyway.
pub open spec fn hinges(state: IssueState, access: AccessList, p: PromptThumbs, k: int) -> bool {
    &&& 0 <= k < p.reactions@.len()
    &&& p.reactions@[k].thumbs_up()
    &&& !state.consumed_reactions@.contains(p.reactions@[k].id)
    &&& !access@.trusts(p.reactions@[k].user.login@)
}

/// Whether the prompts of one thread (the PR's, or the issue's) need the
/// collaborators of its repository.
pub open spec fn needs_collaborators(
    state: IssueState,
    access: AccessList,
    prompts: Seq<PromptThumbs>,
    on_pr: bool,
) -> bool {
    exists|i: int, k: int|
        0 <= i < prompts.len() && (prompts[i].source@ == "PR"@) == on_pr && #[trigger] hinges(
            state,
            access,
            prompts[i],
            k,
        )
}

/// Whether some 👍 on a prompt hinges on its author being a collaborator.
fn prompt_hinges(state: &IssueState, access: &AccessList, p: &PromptThumbs) -> (r: bool)
    ensures
        r == exists|k: int| hinges(*state, *access, *p, k),
{
    let mut k: usize = 0;
    while k < p.reactions.len()
        invariant
            k <= p.reactions.len(),
            forall|j: int| 0 <= j < k ==> !hinges(*state, *access, *p, j),
        decreases p.reactions.len() - k,
    {
        let reaction = &p.reactions[k];
        if reaction.is_thumbs_up() && !store::holds(&state.consumed_reactions, reaction.id)
            && access.reaction_needs_collaborators(reaction.user.login.as_str()) {
            assert(hinges(*state, *access, *p, k as int));
            return true;
        }
        k = k + 1;
    }
    assert forall|j: int| !hinges(*state, *access, *p, j) by {}
    false
}

/// Which repositories' collaborators are needed to judge the 👍s: the issue's,
/// and the PR's. A 👍's author carries no association, so the lookup is made
/// only when an unconsumed 👍 from a not-already-accepted user hinges on it.
pub fn collaborators_needed(
    state: &IssueState,
    access: &AccessList,
    prompts: &[PromptThumbs],
) -> (r: (bool, bool))
    ensures
        r.0 == needs_collaborators(*state, *access, prompts@, false),
        r.1 == needs_collaborators(*state, *access, prompts@, true),
{
    let mut on_issue = false;
    let mut on_pr = false;
    let mut i: usize = 0;
    while i < prompts.len()
        invariant
            i <= prompts.len(),
            on_issue == exists|j: int, k: int|
                0 <= j < i && prompts@[j].source@ != "PR"@ && #[trigger] hinges(
                    *state,
                    *access,
                    prompts@[j],
                    k,
                ),
            on_pr == exists|j: int, k: int|
                0 <= j < i && prompts@[j].source@ == "PR"@ && #[trigger] hinges(
                    *state,
                    *access,
                    prompts@[j],
                    k,
                ),
        decreases prompts.len() - i,
    {
        if prompt_hinges(state, access, &prompts[i]) {
            proof {
                let k = choose|k: int| hinges(*state, *access, prompts@[i as int], k);
                assert(hinges(*state, *access, prompts@[i as int], k));
            }
            if text::same(prompts[i].source, "PR") {
                on_pr = true;
            } else {
                on_issue = true;
            }
        }
        i = i + 1;
    }
    (on_issue, on_pr)
}

/// A transition was fired by the PR being marked ready.
pub open spec fn became_ready(transitions: Seq<Transition>) -> bool {
    exists|i: int| 0 <= i < transitions.len() && (#[trigger] transitions[i]).trigger is PrReady
}

/// Whether the plan commit is erased now: where it is configured, and the PR was
/// marked ready for review this run. It fires at most once, because the
/// transition does not recur.
pub fn deletes_plan(configured: bool, transitions: &[Transition]) -> (r: bool)
    ensures
        r == (configured && became_ready(transitions@)),
{
    if !configured {
        return false;
    }
    let mut i: usize = 0;
    while i < transitions.len()
        invariant
            i <= transitions.len(),
            configured,
            forall|j: int| 0 <= j < i ==> (#[trigger] transitions@[j]).trigger !is PrReady,
        decreases transitions.len() - i,
    {
        match &transitions[i].trigger {
            Trigger::PrReady => {
                assert(transitions@[i as int].trigger is PrReady);
                return true;
            },
            _ => {},
        }
        i = i + 1;
    }
    false
}

/// The worktree and the branch that a plan is removed from: in branch mode, and
/// once both are recorded.
pub open spec fn plan_home(state: IssueState) -> Option<(Seq<char>, Seq<char>)> {
    match state.prep {
        Some(prep) => if prep.no_branch {
            None
        } else {
            match (prep.worktree_path, prep.branch) {
                (Some(w), Some(b)) => Some((w@, b@)),
                _ => None,
            }
        },
        None => None,
    }
}

/// The worktree and the branch that a plan is removed from.
pub fn maybe_delete_plan(state: &IssueState) -> (r: Option<(String, String)>)
    ensures
        match r {
            Some((w, b)) => plan_home(*state) == Some((w@, b@)),
            None => plan_home(*state) is None,
        },
{
    match &state.prep {
        None => None,
        Some(prep) => {
            if prep.no_branch {
                return None;
            }
            match (&prep.worktree_path, &prep.branch) {
                (Some(w), Some(b)) => Some((text::copy(w.as_str()), text::copy(b.as_str()))),
                _ => None,
            }
        },
    }
}

/// The work that a run does for the phase.
#[derive(Clone, Copy, Debug, PartialEq, Eq, Structural)]
pub enum PhaseWork {
    /// The PR has left the open state: the workflow is over, and no phase work
    /// runs.
    Concluded(PrOutcome),
    PrePlan,
    PrepAndPlan,
    Implement,
    Review,
}

/// The work that a run does for the phase. The finished phase implies a merged
/// PR, which concludes.
pub fn phase_work(state: &IssueState) -> (r: PhaseWork)
    requires
        state.phase == Phase::Finished ==> state.pr_outcome is Some,
    ensures
        r == (match state.pr_outcome {
            Some(outcome) => PhaseWork::Concluded(outcome),
            None => match state.phase {
                Phase::PrePlan => PhaseWork::PrePlan,
                Phase::PrepAndPlan => PhaseWork::PrepAndPlan,
                Phase::Implement => PhaseWork::Implement,
                _ => PhaseWork::Review,
            },
        }),
{
    match state.pr_outcome {
        Some(outcome) => PhaseWork::Concluded(outcome),
        None => match state.phase {
            Phase::PrePlan => PhaseWork::PrePlan,
            Phase::PrepAndPlan => PhaseWork::PrepAndPlan,
            Phase::Implement => PhaseWork::Implement,
            _ => PhaseWork::Review,
        },
    }
}

/// Whether a worktree is about to be created: slow work of the machinery's own,
/// which the labels say while it runs.
pub fn creates_worktree(no_branch: bool, state: &IssueState) -> (r: bool)
    ensures
        r == (!no_branch && (match state.prep {
            Some(prep) => !prep.no_branch && prep.branch is None,
            None => true,
        })),
{
    if no_branch {
        return false;
    }
    match &state.prep {
        Some(prep) => !prep.no_branch && prep.branch.is_none(),
        None => true,
    }
}

/// Whether the branch is checked against its base: for the implement and review
/// phases of an open PR.
pub fn checks_base(state: &IssueState, phase: Phase) -> (r: bool)
    ensures
        r == (state.pr_outcome is None && (phase == Phase::Implement || phase == Phase::Review)),
{
    state.pr_outcome.is_none() && (phase == Phase::Implement || phase == Phase::Review)
}

/// A banner's body behind a notice that leads it.
pub fn led_by(notice: Option<String>, body: String) -> (r: String)
    ensures
        r@ == (match notice {
            Some(n) => n@ + "\n\n"@ + body@,
            None => body@,
        }),
{
    match notice {
        Some(notice) => {
            let mut out = text::copy(notice.as_str());
            out.append("\n\n");
            out.append(body.as_str());
            out
        },
        None => body,
    }
}

/// Record a session as the worktree's when it runs inside it, so that it can be
/// resumed by id later.
pub fn record_session(prep: &mut PrepState, inside_worktree: bool, session_id: &str)
    ensures
        inside_worktree && old(prep).worktree_path is Some ==> {
            &&& final(prep).worktree_session_id is Some
            &&& final(prep).worktree_session_id->0@ == session_id@
        },
        !(inside_worktree && old(prep).worktree_path is Some) ==> final(prep).worktree_session_id
            == old(prep).worktree_session_id,
        *final(prep) == (PrepState {
            worktree_session_id: final(prep).worktree_session_id,
            ..*old(prep)
        }),
{
    if inside_worktree && prep.worktree_path.is_some() {
        prep.worktree_session_id = Some(text::copy(session_id));
    }
}

/// A conversation thread.
#[derive(Clone, Copy, Debug, PartialEq, Eq, Structural)]
pub enum Thread {
    Issue,
    Pr,
}

impl Thread {
    pub open spec fn named(self) -> &'static str {
        match self {
            Thread::Issue => "issue",
            Thread::Pr => "PR",
        }
    }

    /// What the thread is called.
    pub fn noun(self) -> (r: &'static str)
        ensures
            r == self.named(),
    {
        match self {
            Thread::Issue => "issue",
            Thread::Pr => "PR",
        }
    }
}

/// Where a status update goes: in full to one thread, and as a stub to the
/// other, once there is one.
pub struct StatusThreads {
    pub primary: Thread,
    pub secondary: Option<Thread>,
}

/// Where a status update goes. With no PR yet, the issue is the only thread.
pub fn status_threads(phase: Phase, has_pr: bool) -> (r: StatusThreads)
    ensures
        r.primary == (if has_pr && render::primary_is_pr(phase) {
            Thread::Pr
        } else {
            Thread::Issue
        }),
        r.secondary == (if has_pr {
            Some(
                if r.primary == Thread::Pr {
                    Thread::Issue
                } else {
                    Thread::Pr
                },
            )
        } else {
            None
        }),
{
    if !has_pr {
        StatusThreads { primary: Thread::Issue, secondary: None }
    } else if render::status_primary_is_pr(phase) {
        StatusThreads { primary: Thread::Pr, secondary: Some(Thread::Issue) }
    } else {
        StatusThreads { primary: Thread::Issue, secondary: Some(Thread::Pr) }
    }
}

/// How a thread is addressed: the issue by its full URL, so that an issue of
/// another repository resolves to its own; the PR by its bare number, which
/// resolves against the code repository.
pub fn subject(thread: Thread, issue_url: &str, pr: u64) -> (r: String)
    ensures
        r@ == (match thread {
            Thread::Issue => issue_url@,
            Thread::Pr => text::decimal(pr as nat),
        }),
{
    match thread {
        Thread::Issue => text::copy(issue_url),
        Thread::Pr => text::number(pr),
    }
}

/// What the secondary thread is told: a stub that links to the full update, or
/// the full body when that could not be posted, so nothing is lost.
pub fn secondary_body(
    full_url: Option<&str>,
    transitions: &[Transition],
    primary: Thread,
    status_body: String,
) -> (r: String)
    ensures
        r@ == (match full_url {
            Some(url) => render::status_body(
                render::stub(transitions@, primary.named()@, url@),
            ),
            None => status_body@,
        }),
{
    match full_url {
        Some(url) => {
            let stub = render::render_status_stub(transitions, primary.noun(), url);
            render::build_status_comment_body(stub.as_str())
        },
        None => status_body,
    }
}

/// The newest of the posts; of two posted at once, the one on the issue.
pub open spec fn newest(on_issue: Option<&Comment>, on_pr: Option<&Comment>) -> Option<PostedRef> {
    match (on_issue, on_pr) {
        (Some(a), Some(b)) => Some(
            if text::le(b.created_at@, a.created_at@) {
                PostedRef { id: a.id, created_at: a.created_at }
            } else {
                PostedRef { id: b.id, created_at: b.created_at }
            },
        ),
        (Some(a), None) => Some(PostedRef { id: a.id, created_at: a.created_at }),
        (None, Some(b)) => Some(PostedRef { id: b.id, created_at: b.created_at }),
        (None, None) => None,
    }
}

/// The newest of the posts made this run, to be remembered: the issue's where
/// both were made at one moment.
pub fn newest_post(on_issue: Option<&Comment>, on_pr: Option<&Comment>) -> (r: Option<PostedRef>)
    ensures
        r == newest(on_issue, on_pr),
{
    match (on_issue, on_pr) {
        (Some(a), Some(b)) => {
            if text::at_most(b.created_at.as_str(), a.created_at.as_str()) {
                Some(PostedRef { id: a.id, created_at: a.created_at.clone() })
            } else {
                Some(PostedRef { id: b.id, created_at: b.created_at.clone() })
            }
        },
        (Some(a), None) => Some(PostedRef { id: a.id, created_at: a.created_at.clone() }),
        (None, Some(b)) => Some(PostedRef { id: b.id, created_at: b.created_at.clone() }),
        (None, None) => None,
    }
}

/// The fingerprint of an issue's title, body and state.
pub open spec fn fingerprint(issue: Issue) -> Seq<char> {
    store::hash_of(
        state::fingerprint_text(
            issue.title@,
            match issue.body {
                Some(b) => b@,
                None => ""@,
            },
            issue.state@,
        ),
    )
}

/// Start the wait baseline from the issue and the PR as they were fetched. A PR
/// opened during this run has no fetched object yet: it was just created as a
/// draft, so no flip can be missed.
pub fn start_baseline(issue: &Issue, pr: Option<&PullRequest>) -> (r: WaitState)
    ensures
        r.since@ == issue.updated_at@,
        r.issue_fingerprint@ == fingerprint(*issue),
        r.pr_draft == (match pr {
            Some(pr) => Some(pr.draft),
            None => None,
        }),
        r.comments@ == Map::<u64, String>::empty(),
        r.review_comments@ == Map::<u64, String>::empty(),
        r.issue.reactions is None && r.issue.options is None,
        r.pr.reactions is None && r.pr.options is None,
        r.etags@.len() == 0,
{
    let issue_fingerprint = match &issue.body {
        Some(body) => state::issue_fingerprint(
            issue.title.as_str(),
            Some(body.as_str()),
            issue.state.as_str(),
        ),
        None => state::issue_fingerprint(issue.title.as_str(), None, issue.state.as_str()),
    };
    WaitState {
        since: text::copy(issue.updated_at.as_str()),
        issue_fingerprint,
        pr_draft: match pr {
            Some(pr) => Some(pr.draft),
            None => None,
        },
        comments: BTreeMap::new(),
        review_comments: BTreeMap::new(),
        issue: ThreadWatch::default(),
        pr: ThreadWatch::default(),
        etags: Vec::new(),
    }
}

/// The latest of `since` and the comments' updates.
pub open spec fn latest_update(since: Seq<char>, comments: Seq<Comment>) -> Seq<char>
    decreases comments.len(),
{
    if comments.len() == 0 {
        since
    } else {
        state::later(latest_update(since, comments.drop_last()), comments.last().updated_at@)
    }
}

/// The latest of `since` and the review comments' updates.
pub open spec fn latest_review(since: Seq<char>, comments: Seq<ReviewComment>) -> Seq<char>
    decreases comments.len(),
{
    if comments.len() == 0 {
        since
    } else {
        state::later(latest_review(since, comments.drop_last()), comments.last().updated_at@)
    }
}

/// The latest of `since` and the comments' updates.
fn fold_updates(since: String, comments: &[Comment]) -> (r: String)
    ensures
        r@ == latest_update(since@, comments@),
{
    let ghost start = since@;
    let mut since = since;
    let mut i: usize = 0;
    assert(comments@.take(0) =~= seq![]);
    while i < comments.len()
        invariant
            i <= comments.len(),
            since@ == latest_update(start, comments@.take(i as int)),
        decreases comments.len() - i,
    {
        state::fold_since(&mut since, comments[i].updated_at.as_str());
        assert(comments@.take(i + 1).drop_last() =~= comments@.take(i as int));
        i = i + 1;
    }
    assert(comments@.take(comments@.len() as int) =~= comments@);
    since
}

/// The latest of `since` and the review comments' updates.
fn fold_review_updates(since: String, comments: &[ReviewComment]) -> (r: String)
    ensures
        r@ == latest_review(since@, comments@),
{
    let ghost start = since@;
    let mut since = since;
    let mut i: usize = 0;
    assert(comments@.take(0) =~= seq![]);
    while i < comments.len()
        invariant
            i <= comments.len(),
            since@ == latest_review(start, comments@.take(i as int)),
        decreases comments.len() - i,
    {
        state::fold_since(&mut since, comments[i].updated_at.as_str());
        assert(comments@.take(i + 1).drop_last() =~= comments@.take(i as int));
        i = i + 1;
    }
    assert(comments@.take(comments@.len() as int) =~= comments@);
    since
}

/// What folding comments in leaves as it is.
pub open spec fn same_watches(a: WaitState, b: WaitState) -> bool {
    &&& a.issue_fingerprint == b.issue_fingerprint
    &&& a.pr_draft == b.pr_draft
    &&& a.issue == b.issue
    &&& a.pr == b.pr
    &&& a.etags == b.etags
}

/// Fold a thread's comments into the baseline.
pub fn fold_comments(wait: WaitState, comments: &[Comment]) -> (r: WaitState)
    ensures
        same_watches(r, wait),
        r.review_comments == wait.review_comments,
        seen::hashes(r.comments@) == seen::with_comments(seen::hashes(wait.comments@), comments@),
        r.since@ == latest_update(wait.since@, comments@),
{
    let mut wait = wait;
    seen::add_comments(&mut wait.comments, comments);
    let mut since = String::new();
    std::mem::swap(&mut since, &mut wait.since);
    wait.since = fold_updates(since, comments);
    wait
}

/// Fold the inline review comments into the baseline.
pub fn fold_reviews(wait: WaitState, comments: &[ReviewComment]) -> (r: WaitState)
    ensures
        same_watches(r, wait),
        r.comments == wait.comments,
        seen::hashes(r.review_comments@) == seen::with_reviews(
            seen::hashes(wait.review_comments@),
            comments@,
        ),
        r.since@ == latest_review(wait.since@, comments@),
{
    let mut wait = wait;
    seen::add_reviews(&mut wait.review_comments, comments);
    let mut since = String::new();
    std::mem::swap(&mut since, &mut wait.since);
    wait.since = fold_review_updates(since, comments);
    wait
}

proof fn lemma_latest_is_latest(since: Seq<char>, comments: Seq<Comment>)
    ensures
        text::le(since, latest_update(since, comments)),
        forall|k: int|
            0 <= k < comments.len() ==> text::le(
                (#[trigger] comments[k]).updated_at@,
                latest_update(since, comments),
            ),
    decreases comments.len(),
{
    if comments.len() == 0 {
        text::lemma_le_reflexive(since);
    } else {
        let init = comments.drop_last();
        lemma_latest_is_latest(since, init);
        let before = latest_update(since, init);
        let last = comments.last().updated_at@;
        let now = latest_update(since, comments);
        text::lemma_le_total(before, last);
        text::lemma_le_reflexive(before);
        text::lemma_le_reflexive(last);
        text::lemma_le_transitive(since, before, now);
        assert forall|k: int| 0 <= k < comments.len() implies text::le(
            (#[trigger] comments[k]).updated_at@,
            now,
        ) by {
            if k < init.len() {
                assert(init[k] == comments[k]);
                text::lemma_le_transitive(comments[k].updated_at@, before, now);
            }
        }
    }
}

/// The baseline is no earlier than any update it was made from.
pub proof fn the_baseline_covers_every_update(since: Seq<char>, comments: Seq<Comment>, k: int)
    requires
        0 <= k < comments.len(),
    ensures
        text::le(comments[k].updated_at@, latest_update(since, comments)),
        text::le(since, latest_update(since, comments)),
{
    lemma_latest_is_latest(since, comments);
}

/// What a run found that is new.
pub struct Found {
    pub transitions: bool,
    pub notes: bool,
    pub body_changed: bool,
    pub issue_comments: bool,
    pub pr_comments: bool,
    pub review_comments: bool,
    pub submissions: bool,
    /// A standing conflict keeps the ball with the agent until it's resolved.
    pub conflict: bool,
}

impl Found {
    pub open spec fn any(&self) -> bool {
        self.transitions || self.notes || self.body_changed || self.issue_comments
            || self.pr_comments || self.review_comments || self.submissions || self.conflict
    }

    /// Whether anything is new. Ignored input does not count: it must not hand
    /// the ball back to the agent.
    pub fn activity(&self) -> (r: bool)
        ensures
            r == self.any(),
    {
        self.transitions || self.notes || self.body_changed || self.issue_comments
            || self.pr_comments || self.review_comments || self.submissions || self.conflict
    }
}

/// Whose turn it is after a run.
pub open spec fn turn_after(state: IssueState, activity: bool) -> Attention {
    if state.pr_outcome is None && state.phase == Phase::Review {
        Attention::WaitingOnUser
    } else if state.pr_outcome is None && activity {
        Attention::WaitingOnClaude
    } else {
        state.attention
    }
}

/// Settle a run. Activity resets the count of nudges and clears an alert: the
/// session is working again. Review leaves nothing for the agent; otherwise
/// activity puts the ball in the agent's court. A quiet run changes nothing: it
/// must not steal the ball back from the user after a hand-off. A concluded
/// workflow waits on nobody.
pub fn settle(state: &mut IssueState, activity: bool)
    ensures
        *final(state) == (IssueState {
            stop_nudges: if activity {
                0
            } else {
                old(state).stop_nudges
            },
            session_alert: if activity {
                None
            } else {
                old(state).session_alert
            },
            attention: turn_after(*old(state), activity),
            ..*old(state)
        }),
{
    if activity {
        state.stop_nudges = 0;
        state.session_alert = None;
    }
    if state.pr_outcome.is_none() {
        if state.phase == Phase::Review {
            state.attention = Attention::WaitingOnUser;
        } else if activity {
            state.attention = Attention::WaitingOnClaude;
        }
    }
}

/// After a hand-off the ball stays with the user until something is new.
pub proof fn quiet_runs_keep_the_turn(state: IssueState)
    requires
        state.attention == Attention::WaitingOnUser,
    ensures
        turn_after(state, false) == Attention::WaitingOnUser,
{
}

} // verus!
