//! What the commands that post decide: hand-offs, questions, follow-up issues.

use std::collections::BTreeSet;
use vstd::prelude::*;

use crate::models::Comment;
use crate::options;
use crate::render;
use crate::state::{
    self, Attention, IssueState, OptionsWatch, Phase, PostedRef, ReactionWatch, ThreadWatch,
    WaitState,
};
use crate::text;

verus! {

/// The number of the workflow's PR.
pub open spec fn pr_of(state: IssueState) -> Option<u64> {
    match state.prep {
        Some(prep) => prep.pr_number,
        None => None,
    }
}

/// The number of the workflow's PR, once one exists.
pub fn pr_number(issue_state: &IssueState) -> (r: Option<u64>)
    ensures
        r == pr_of(*issue_state),
{
    match &issue_state.prep {
        Some(prep) => prep.pr_number,
        None => None,
    }
}

/// Whether a post goes to the PR's thread: the issue's while planning, the PR's
/// once there is one and code is in motion.
pub open spec fn posts_on_pr(state: IssueState) -> bool {
    pr_of(state) is Some && render::primary_is_pr(state.phase)
}

/// Whether a post goes to the PR's thread.
pub fn primary_is_pr(issue_state: &IssueState) -> (r: bool)
    ensures
        r == posts_on_pr(*issue_state),
{
    pr_number(issue_state).is_some() && render::status_primary_is_pr(issue_state.phase)
}

pub open spec fn without_branch(state: IssueState) -> bool {
    state.prep is Some && state.prep->0.no_branch
}

/// Why nothing is handed off.
#[derive(Clone, Copy, Debug, PartialEq, Eq, Structural)]
pub enum HandOffError {
    /// No comment body was provided.
    NoBody,
    /// The PR was merged or closed.
    Concluded,
    /// The PR is already with the user.
    NothingToHandOff,
    /// The PR's branch conflicts with its base, so it is not ready for review.
    Conflict,
}

/// How a hand-off is posted: on which thread, and with which prompt.
pub struct HandOffPlan {
    pub primary_is_pr: bool,
    pub prompt: Option<String>,
}

/// A conflict with the base blocks the hand-off for review.
pub open spec fn blocked(state: IssueState, question: bool, conflict: bool) -> bool {
    !question && conflict && state.phase == Phase::Implement
}

/// Decide on a hand-off.
///
/// In `question` mode the comment is a blocking question rather than an
/// end-of-phase hand-off: it carries no advance prompt, so it's allowed in any
/// phase. A normal hand-off needs the phase's prompt; the review phase has none.
/// A branch that is known to conflict with its base is never announced as ready:
/// `conflict` blocks the hand-off of the implement phase.
pub fn hand_off(
    agent: &str,
    issue_state: &IssueState,
    user_body: &str,
    question: bool,
    conflict: bool,
) -> (r: Result<HandOffPlan, HandOffError>)
    ensures
        match r {
            Ok(plan) => {
                &&& !blocked(*issue_state, question, conflict)
                &&& text::trim(user_body@).len() > 0
                &&& issue_state.pr_outcome is None
                &&& plan.primary_is_pr == posts_on_pr(*issue_state)
                &&& render::text_seen(plan.prompt) == (if question {
                    None
                } else {
                    render::prompt(agent@, issue_state.phase, without_branch(*issue_state))
                })
                &&& question || plan.prompt is Some
            },
            Err(HandOffError::NoBody) => text::trim(user_body@).len() == 0,
            Err(HandOffError::Concluded) => text::trim(user_body@).len() > 0
                && issue_state.pr_outcome is Some,
            Err(HandOffError::NothingToHandOff) => text::trim(user_body@).len() > 0
                && issue_state.pr_outcome is None && !question && render::prompt(
                agent@,
                issue_state.phase,
                without_branch(*issue_state),
            ) is None,
            Err(HandOffError::Conflict) => text::trim(user_body@).len() > 0
                && issue_state.pr_outcome is None && blocked(*issue_state, question, conflict),
        },
{
    if text::is_blank(user_body) {
        return Err(HandOffError::NoBody);
    }
    if issue_state.pr_outcome.is_some() {
        return Err(HandOffError::Concluded);
    }
    let no_branch = match &issue_state.prep {
        Some(prep) => prep.no_branch,
        None => false,
    };
    let prompt = render::hand_off_prompt(agent, issue_state.phase, no_branch);
    if !question && prompt.is_none() {
        return Err(HandOffError::NothingToHandOff);
    }
    if !question && conflict && issue_state.phase == Phase::Implement {
        return Err(HandOffError::Conflict);
    }
    Ok(
        HandOffPlan {
            primary_is_pr: primary_is_pr(issue_state),
            prompt: if question {
                None
            } else {
                prompt
            },
        },
    )
}

/// What the user wrote, with the attachments' trailer behind it.
pub open spec fn with_trailer(user_body: Seq<char>, trailer: Option<Seq<char>>) -> Seq<char> {
    match trailer {
        Some(trailer) => text::trim(user_body) + "\n\n"@ + trailer,
        None => user_body,
    }
}

/// Append the attachments' markdown trailer to a comment's body. With no
/// attachments the body is returned unchanged.
pub fn append_attachments(user_body: &str, trailer: Option<String>) -> (r: String)
    ensures
        r@ == with_trailer(
            user_body@,
            match trailer {
                Some(t) => Some(t@),
                None => None,
            },
        ),
{
    match trailer {
        Some(trailer) => {
            let mut out = text::trimmed(user_body);
            out.append("\n\n");
            out.append(trailer.as_str());
            out
        },
        None => text::copy(user_body),
    }
}

/// What a session's token is, for a text that carries one.
pub open spec fn token_view(token: Option<&str>) -> Option<Seq<char>> {
    match token {
        Some(t) => Some(t@),
        None => None,
    }
}

/// The body of a hand-off comment: what was written, and the prompt behind it,
/// which makes the comment its own 👍 target.
pub fn hand_off_body(
    agent: &str,
    user_body: &str,
    plan: &HandOffPlan,
    token: Option<&str>,
) -> (r: String)
    ensures
        r@ == (match plan.prompt {
            Some(prompt) => render::comment_body(
                agent@,
                text::trim(user_body@) + "\n\n"@ + prompt@,
                token_view(token),
            ),
            None => render::comment_body(agent@, user_body@, token_view(token)),
        }),
{
    match &plan.prompt {
        Some(prompt) => {
            let mut body = text::trimmed(user_body);
            body.append("\n\n");
            body.append(prompt.as_str());
            render::build_comment_body(agent, body.as_str(), token)
        },
        None => render::build_comment_body(agent, user_body, token),
    }
}

/// The stub that tells the other thread where a comment was posted.
pub open spec fn post_stub(question: bool, primary_is_pr: bool, url: Seq<char>) -> Seq<char> {
    (if question {
        "Question"@
    } else {
        "Hand-off"@
    }) + " posted on the "@ + (if primary_is_pr {
        "PR"@
    } else {
        "issue"@
    }) + ": "@ + url
}

/// The status comment that tells the other thread where a comment was posted.
pub fn hand_off_stub(question: bool, primary_is_pr: bool, url: &str) -> (r: String)
    ensures
        r@ == render::status_body(post_stub(question, primary_is_pr, url@)),
{
    let mut s = text::copy(
        if question {
            "Question"
        } else {
            "Hand-off"
        },
    );
    s.append(" posted on the ");
    s.append(
        if primary_is_pr {
            "PR"
        } else {
            "issue"
        },
    );
    s.append(": ");
    s.append(url);
    render::build_status_comment_body(s.as_str())
}

/// The poll key of a thread's watch.
pub open spec fn poll_key(reactions: bool, on_pr: bool) -> Seq<char> {
    if reactions {
        if on_pr {
            "reactions_pr"@
        } else {
            "reactions_issue"@
        }
    } else {
        if on_pr {
            "options_pr"@
        } else {
            "options_issue"@
        }
    }
}

/// `w` watches exactly the 👍s on comment `id` that come after now.
pub open spec fn watches_from_now(w: ThreadWatch, id: u64, before: ThreadWatch) -> bool {
    w.reactions is Some && w.reactions->0.comment_id == id && w.reactions->0.plus_one_ids@
        == Set::<u64>::empty() && w.options == before.options
}

/// `now` is `before` with a fresh reaction watch on one thread.
pub open spec fn reaction_watch_set(
    now: WaitState,
    before: WaitState,
    on_pr: bool,
    id: u64,
) -> bool {
    &&& now.since == before.since
    &&& now.issue_fingerprint == before.issue_fingerprint
    &&& now.pr_draft == before.pr_draft
    &&& now.comments == before.comments
    &&& now.review_comments == before.review_comments
    &&& now.etags@ == state::etags_without(before.etags@, poll_key(true, on_pr))
    &&& if on_pr {
        watches_from_now(now.pr, id, before.pr) && now.issue == before.issue
    } else {
        watches_from_now(now.issue, id, before.issue) && now.pr == before.pr
    }
}

/// `now` is `before` with a fresh options watch on one thread.
pub open spec fn options_watch_set(
    now: WaitState,
    before: WaitState,
    on_pr: bool,
    id: u64,
) -> bool {
    &&& now.since == before.since
    &&& now.issue_fingerprint == before.issue_fingerprint
    &&& now.pr_draft == before.pr_draft
    &&& now.comments == before.comments
    &&& now.review_comments == before.review_comments
    &&& now.etags@ == state::etags_without(before.etags@, poll_key(false, on_pr))
    &&& if on_pr {
        now.pr == (ThreadWatch { options: Some(OptionsWatch { comment_id: id }), ..before.pr })
            && now.issue == before.issue
    } else {
        now.issue == (ThreadWatch { options: Some(OptionsWatch { comment_id: id }), ..before.issue })
            && now.pr == before.pr
    }
}

/// Watch a comment for new 👍s. The watch endpoint's URL changes with it, so
/// the stale tag is dropped.
fn watch_reactions(wait: WaitState, on_pr: bool, id: u64) -> (r: WaitState)
    ensures
        reaction_watch_set(r, wait, on_pr, id),
{
    let mut wait = wait;
    let watch = ReactionWatch { comment_id: id, plus_one_ids: BTreeSet::new() };
    let mut etags: Vec<state::Etag> = Vec::new();
    std::mem::swap(&mut etags, &mut wait.etags);
    if on_pr {
        wait.pr.reactions = Some(watch);
        wait.etags = state::drop_etag(etags, "reactions_pr");
    } else {
        wait.issue.reactions = Some(watch);
        wait.etags = state::drop_etag(etags, "reactions_issue");
    }
    wait
}

/// Watch a question's submit box.
fn watch_options(wait: WaitState, on_pr: bool, id: u64) -> (r: WaitState)
    ensures
        options_watch_set(r, wait, on_pr, id),
{
    let mut wait = wait;
    let watch = OptionsWatch { comment_id: id };
    let mut etags: Vec<state::Etag> = Vec::new();
    std::mem::swap(&mut etags, &mut wait.etags);
    if on_pr {
        wait.pr.options = Some(watch);
        wait.etags = state::drop_etag(etags, "options_pr");
    } else {
        wait.issue.options = Some(watch);
        wait.etags = state::drop_etag(etags, "options_issue");
    }
    wait
}

/// What posting leaves as it is.
pub open spec fn kept_by_posting(now: IssueState, before: IssueState) -> bool {
    &&& now.phase == before.phase
    &&& now.prep == before.prep
    &&& now.issue_closed == before.issue_closed
    &&& now.pr_outcome == before.pr_outcome
    &&& now.consumed_directives == before.consumed_directives
    &&& now.consumed_reactions == before.consumed_reactions
    &&& now.intro_posted == before.intro_posted
    &&& now.stop_nudges == before.stop_nudges
    &&& now.session_alert == before.session_alert
    &&& now.labels_synced == before.labels_synced
}

/// The state remembers `comment` as the last post.
pub open spec fn remembers(state: IssueState, comment: Comment) -> bool {
    state.last_posted == Some(PostedRef { id: comment.id, created_at: comment.created_at })
}

/// Record a posted hand-off: the ball is with the user. The post is remembered,
/// and watched for 👍s when its prompt maps one. A question never advances the
/// phase, so it arms no watch even if its body mentions an approval command.
pub fn record_hand_off(
    issue_state: &mut IssueState,
    comment: &Comment,
    full_body: &str,
    question: bool,
    on_pr: bool,
)
    ensures
        kept_by_posting(*final(issue_state), *old(issue_state)),
        final(issue_state).attention == Attention::WaitingOnUser,
        remembers(*final(issue_state), *comment),
        ({
            let arms = !question && state::prompted_directive(full_body@) is Some;
            match old(issue_state).wait {
                Some(wait) => final(issue_state).wait is Some && if arms {
                    reaction_watch_set(final(issue_state).wait->0, wait, on_pr, comment.id)
                } else {
                    final(issue_state).wait->0 == wait
                },
                None => final(issue_state).wait is None,
            }
        }),
{
    issue_state.attention = Attention::WaitingOnUser;
    issue_state.last_posted = Some(
        PostedRef { id: comment.id, created_at: comment.created_at.clone() },
    );
    if !question && state::parse_prompted_directive(full_body).is_some() {
        let wait = issue_state.wait.take();
        issue_state.wait =
        match wait {
            Some(wait) => Some(watch_reactions(wait, on_pr, comment.id)),
            None => None,
        };
    }
}

/// Remember a post. When it prompts for an approval it becomes its thread's
/// reaction watch: it is now the newest prompt there.
pub fn record_last_posted(issue_state: &mut IssueState, comment: &Comment, on_pr: bool)
    ensures
        kept_by_posting(*final(issue_state), *old(issue_state)),
        final(issue_state).attention == old(issue_state).attention,
        remembers(*final(issue_state), *comment),
        match old(issue_state).wait {
            Some(wait) => final(issue_state).wait is Some && if state::prompted_directive(
                comment.body@,
            ) is Some {
                reaction_watch_set(final(issue_state).wait->0, wait, on_pr, comment.id)
            } else {
                final(issue_state).wait->0 == wait
            },
            None => final(issue_state).wait is None,
        },
{
    issue_state.last_posted = Some(
        PostedRef { id: comment.id, created_at: comment.created_at.clone() },
    );
    if state::parse_prompted_directive(comment.body.as_str()).is_some() {
        let wait = issue_state.wait.take();
        issue_state.wait =
        match wait {
            Some(wait) => Some(watch_reactions(wait, on_pr, comment.id)),
            None => None,
        };
    }
}

/// Why nothing is asked.
#[derive(Clone, Copy, Debug, PartialEq, Eq, Structural)]
pub enum AskError {
    NoQuestion,
    NoOptions,
    Concluded,
}

/// How a question is posted: its options, and on which thread.
pub struct AskPlan {
    pub options: Vec<String>,
    pub primary_is_pr: bool,
}

/// The options as they are posted: trimmed, without the empty ones.
pub open spec fn clean_options(options: Seq<Seq<char>>) -> Seq<Seq<char>>
    decreases options.len(),
{
    if options.len() == 0 {
        seq![]
    } else {
        let before = clean_options(options.drop_last());
        let o = text::trim(options.last());
        if o.len() == 0 {
            before
        } else {
            before.push(o)
        }
    }
}

/// The options as they are posted.
fn cleaned(options: &[String]) -> (r: Vec<String>)
    ensures
        text::views(r@) == clean_options(text::views(options@)),
{
    let mut out: Vec<String> = Vec::new();
    let ghost all = text::views(options@);
    let mut i: usize = 0;
    assert(all.take(0) =~= seq![]);
    assert(text::views(out@) =~= seq![]);
    while i < options.len()
        invariant
            i <= options.len(),
            all == text::views(options@),
            text::views(out@) == clean_options(all.take(i as int)),
        decreases options.len() - i,
    {
        assert(all.take(i + 1).drop_last() =~= all.take(i as int));
        assert(all.take(i + 1).last() == options@[i as int]@);
        let o = text::trimmed(options[i].as_str());
        if !o.as_str().is_empty() {
            let ghost before = out@;
            out.push(o);
            proof {
                text::lemma_views_push(before, o);
            }
        }
        i = i + 1;
    }
    assert(all.take(all.len() as int) =~= all);
    out
}

/// Decide on a question with options: it needs a question, at least one option
/// that is not blank, and a workflow that is still going. The phase never
/// advances by it.
pub fn ask(issue_state: &IssueState, question: &str, options: &[String]) -> (r: Result<
    AskPlan,
    AskError,
>)
    ensures
        match r {
            Ok(plan) => {
                &&& text::trim(question@).len() > 0
                &&& issue_state.pr_outcome is None
                &&& text::views(plan.options@) == clean_options(text::views(options@))
                &&& plan.options@.len() > 0
                &&& plan.primary_is_pr == posts_on_pr(*issue_state)
            },
            Err(AskError::NoQuestion) => text::trim(question@).len() == 0,
            Err(AskError::NoOptions) => text::trim(question@).len() > 0 && clean_options(
                text::views(options@),
            ).len() == 0,
            Err(AskError::Concluded) => text::trim(question@).len() > 0 && clean_options(
                text::views(options@),
            ).len() > 0 && issue_state.pr_outcome is Some,
        },
{
    if text::is_blank(question) {
        return Err(AskError::NoQuestion);
    }
    let options = cleaned(options);
    assert(text::views(options@).len() == options@.len());
    if options.len() == 0 {
        return Err(AskError::NoOptions);
    }
    if issue_state.pr_outcome.is_some() {
        return Err(AskError::Concluded);
    }
    Ok(AskPlan { options, primary_is_pr: primary_is_pr(issue_state) })
}

/// The body of a question with options.
pub fn ask_body(agent: &str, question: &str, plan: &AskPlan, token: Option<&str>) -> (r: String)
    ensures
        r@ == render::comment_body(
            agent@,
            options::options_text(question@, options::unticked(plan.options@), false),
            token_view(token),
        ),
{
    let body = options::build_options_body(question, plan.options.as_slice());
    render::build_comment_body(agent, body.as_str(), token)
}

/// Record a posted question: the ball is with the user, and its submit box is
/// watched.
pub fn record_ask(issue_state: &mut IssueState, comment: &Comment, on_pr: bool)
    ensures
        kept_by_posting(*final(issue_state), *old(issue_state)),
        final(issue_state).attention == Attention::WaitingOnUser,
        remembers(*final(issue_state), *comment),
        match old(issue_state).wait {
            Some(wait) => final(issue_state).wait is Some && options_watch_set(
                final(issue_state).wait->0,
                wait,
                on_pr,
                comment.id,
            ),
            None => final(issue_state).wait is None,
        },
{
    issue_state.attention = Attention::WaitingOnUser;
    issue_state.last_posted = Some(
        PostedRef { id: comment.id, created_at: comment.created_at.clone() },
    );
    let wait = issue_state.wait.take();
    issue_state.wait =
    match wait {
        Some(wait) => Some(watch_options(wait, on_pr, comment.id)),
        None => None,
    };
}

/// Where the issue that blocks a follow-up comes from.
#[derive(Clone, Copy, Debug, PartialEq, Eq, Structural)]
pub enum BlockerSource {
    /// The follow-up is not to be blocked.
    NotWanted,
    /// The argument: it must resolve.
    Given,
    /// The session's own issue: a failure to resolve it is no error.
    Inferred,
    /// There is none, so the follow-up is filed unblocked.
    Missing,
}

/// Decide on filing a follow-up issue, which is blocked by the originating issue
/// by default: the title must not be blank. `None` where it is.
pub fn create_issue(title: &str, no_block: bool, given: bool, inferred: bool) -> (r: Option<
    BlockerSource,
>)
    ensures
        r is None <==> text::trim(title@).len() == 0,
        r matches Some(source) ==> source == (if no_block {
            BlockerSource::NotWanted
        } else if given {
            BlockerSource::Given
        } else if inferred {
            BlockerSource::Inferred
        } else {
            BlockerSource::Missing
        }),
{
    if text::is_blank(title) {
        return None;
    }
    if no_block {
        Some(BlockerSource::NotWanted)
    } else if given {
        Some(BlockerSource::Given)
    } else if inferred {
        Some(BlockerSource::Inferred)
    } else {
        Some(BlockerSource::Missing)
    }
}

/// The label that guards a blocked follow-up until its dependency is set.
pub open spec fn guard(blocked: bool, blocked_label: Seq<char>) -> Option<Seq<char>> {
    if blocked && text::trim(blocked_label).len() > 0 {
        Some(text::trim(blocked_label))
    } else {
        None
    }
}

/// The label that guards a blocked follow-up: it is in the create payload, so
/// the issue carries it from the instant it exists. A blank configured label
/// disables the guard, but not the dependency.
pub fn guard_label(blocked: bool, blocked_label: &str) -> (r: Option<String>)
    ensures
        match r {
            Some(label) => guard(blocked, blocked_label@) == Some(label@),
            None => guard(blocked, blocked_label@) is None,
        },
{
    if !blocked {
        return None;
    }
    let label = text::trimmed(blocked_label);
    if label.as_str().is_empty() {
        None
    } else {
        Some(label)
    }
}

/// A step of filing a follow-up issue.
#[derive(Clone, Copy, Debug, PartialEq, Eq, Structural)]
pub enum FilingStep {
    /// Make sure that the guard label exists: GitHub drops unknown labels silently.
    EnsureGuard,
    /// Create the issue, with its labels.
    File,
    /// Make the originating issue block it.
    SetDependency,
    /// Take the guard label off again.
    RemoveGuard,
}

/// What follows in filing a follow-up issue.
#[derive(Clone, Copy, Debug, PartialEq, Eq, Structural)]
pub enum Filing {
    Take(FilingStep),
    /// The issue is filed.
    Filed,
    /// The issue cannot be filed: the last step's failure says why.
    NotFiled,
}

/// What follows the step taken last, if any, and whether it succeeded.
pub open spec fn filing(
    blocked: bool,
    guarded: bool,
    taken: Option<(FilingStep, bool)>,
) -> Filing {
    match taken {
        None => Filing::Take(
            if guarded {
                FilingStep::EnsureGuard
            } else {
                FilingStep::File
            },
        ),
        Some((FilingStep::EnsureGuard, ok)) => if ok {
            Filing::Take(FilingStep::File)
        } else {
            Filing::NotFiled
        },
        Some((FilingStep::File, ok)) => if !ok {
            Filing::NotFiled
        } else if blocked {
            Filing::Take(FilingStep::SetDependency)
        } else {
            Filing::Filed
        },
        Some((FilingStep::SetDependency, ok)) => if ok && guarded {
            Filing::Take(FilingStep::RemoveGuard)
        } else {
            Filing::Filed
        },
        Some((FilingStep::RemoveGuard, _)) => Filing::Filed,
    }
}

/// The next step of filing a follow-up issue. `blocked` says whether the originating
/// issue is to block it, and `guarded` whether it carries the guard label until then.
///
/// The dependency is set once the issue is there. Where that succeeds the guard label
/// has served its one purpose, and goes; where it fails the label stays, so that a
/// worker still won't pick the issue up. Neither failure undoes the filing.
pub fn next_filing(blocked: bool, guarded: bool, taken: Option<(FilingStep, bool)>) -> (r: Filing)
    ensures
        r == filing(blocked, guarded, taken),
{
    match taken {
        None => {
            if guarded {
                Filing::Take(FilingStep::EnsureGuard)
            } else {
                Filing::Take(FilingStep::File)
            }
        },
        Some((FilingStep::EnsureGuard, ok)) => {
            if ok {
                Filing::Take(FilingStep::File)
            } else {
                Filing::NotFiled
            }
        },
        Some((FilingStep::File, ok)) => {
            if !ok {
                Filing::NotFiled
            } else if blocked {
                Filing::Take(FilingStep::SetDependency)
            } else {
                Filing::Filed
            }
        },
        Some((FilingStep::SetDependency, ok)) => {
            if ok && guarded {
                Filing::Take(FilingStep::RemoveGuard)
            } else {
                Filing::Filed
            }
        },
        Some((FilingStep::RemoveGuard, _)) => Filing::Filed,
    }
}

/// The step taken last.
pub open spec fn last_step(steps: Seq<(FilingStep, bool)>) -> Option<(FilingStep, bool)> {
    if steps.len() == 0 {
        None
    } else {
        Some(steps.last())
    }
}

/// The steps are those of filing a follow-up issue, each with its outcome.
pub open spec fn is_filing(blocked: bool, guarded: bool, steps: Seq<(FilingStep, bool)>) -> bool {
    forall|j: int|
        0 <= j < steps.len() ==> Filing::Take((#[trigger] steps[j]).0) == filing(
            blocked,
            guarded,
            last_step(steps.take(j)),
        )
}

/// The guard label goes only directly after the dependency was set, and a guarded issue
/// is filed only once its label is sure to exist.
pub proof fn a_follow_up_is_never_unguarded(
    blocked: bool,
    guarded: bool,
    steps: Seq<(FilingStep, bool)>,
    j: int,
)
    requires
        is_filing(blocked, guarded, steps),
        0 <= j < steps.len(),
    ensures
        steps[j].0 == FilingStep::RemoveGuard ==> j > 0 && steps[j - 1] == (
            FilingStep::SetDependency,
            true,
        ),
        steps[j].0 == FilingStep::File && guarded ==> j > 0 && steps[j - 1] == (
            FilingStep::EnsureGuard,
            true,
        ),
{
    let before = steps.take(j);
    assert(Filing::Take(steps[j].0) == filing(blocked, guarded, last_step(before)));
    if j > 0 {
        assert(before.last() == steps[j - 1]);
    }
}

/// Where the dependency could not be set, the filing ends there: the guard label stays.
pub proof fn a_failed_dependency_keeps_the_guard(
    blocked: bool,
    guarded: bool,
    steps: Seq<(FilingStep, bool)>,
    j: int,
)
    requires
        is_filing(blocked, guarded, steps),
        0 <= j < steps.len(),
        steps[j] == (FilingStep::SetDependency, false),
    ensures
        j == steps.len() - 1,
        filing(blocked, guarded, last_step(steps)) == Filing::Filed,
{
    if j < steps.len() - 1 {
        assert(steps.take(j + 1).last() == steps[j]);
        assert(Filing::Take(steps[j + 1].0) == filing(
            blocked,
            guarded,
            last_step(steps.take(j + 1)),
        ));
    }
}

/// Some text of `seen` agrees with `label`, but for case.
pub open spec fn listed_ignoring_case(seen: Seq<Seq<char>>, label: Seq<char>) -> bool {
    exists|i: int| 0 <= i < seen.len() && text::lower(#[trigger] seen[i]) == text::lower(label)
}

/// The labels of a new issue.
pub open spec fn labels_from(start: Seq<Seq<char>>, extra: Seq<Seq<char>>) -> Seq<Seq<char>>
    decreases extra.len(),
{
    if extra.len() == 0 {
        start
    } else {
        let before = labels_from(start, extra.drop_last());
        let label = text::trim(extra.last());
        if label.len() == 0 || listed_ignoring_case(before, label) {
            before
        } else {
            before.push(label)
        }
    }
}

/// The first label of a new issue, where it is to be blocked.
pub open spec fn first_labels(blocked: Option<&str>) -> Seq<Seq<char>> {
    match blocked {
        Some(b) => seq![b@],
        None => seq![],
    }
}

/// Whether some string of `seen` agrees with `label`, but for case.
fn seen_ignoring_case(seen: &Vec<String>, label: &str) -> (r: bool)
    ensures
        r == listed_ignoring_case(text::views(seen@), label@),
{
    let mut i: usize = 0;
    while i < seen.len()
        invariant
            i <= seen.len(),
            forall|j: int|
                0 <= j < i ==> text::lower(#[trigger] text::views(seen@)[j]) != text::lower(label@),
        decreases seen.len() - i,
    {
        if text::same_ignoring_case(seen[i].as_str(), label) {
            assert(text::lower(text::views(seen@)[i as int]) == text::lower(label@));
            return true;
        }
        i = i + 1;
    }
    false
}

/// The labels for a new follow-up issue: the blocked label first (when
/// blocking), then any extras, trimmed, with empties and case-insensitive
/// duplicates dropped.
pub fn assemble_labels(blocked: Option<&str>, extra: &[String]) -> (r: Vec<String>)
    ensures
        text::views(r@) == labels_from(first_labels(blocked), text::views(extra@)),
{
    let mut out: Vec<String> = Vec::new();
    if let Some(blocked) = blocked {
        out.push(text::copy(blocked));
    }
    let ghost start = first_labels(blocked);
    assert(text::views(out@) =~= start);
    let ghost all = text::views(extra@);
    let mut i: usize = 0;
    assert(all.take(0) =~= seq![]);
    while i < extra.len()
        invariant
            i <= extra.len(),
            all == text::views(extra@),
            text::views(out@) == labels_from(start, all.take(i as int)),
        decreases extra.len() - i,
    {
        assert(all.take(i + 1).drop_last() =~= all.take(i as int));
        assert(all.take(i + 1).last() == extra@[i as int]@);
        let label = text::trimmed(extra[i].as_str());
        if !label.as_str().is_empty() && !seen_ignoring_case(&out, label.as_str()) {
            let ghost before = out@;
            out.push(label);
            proof {
                text::lemma_views_push(before, label);
            }
        }
        i = i + 1;
    }
    assert(all.take(all.len() as int) =~= all);
    out
}

/// The labels of a new issue begin with its guard, and no two of them agree but
/// for case.
pub proof fn labels_are_distinct(start: Seq<Seq<char>>, extra: Seq<Seq<char>>)
    requires
        start.len() <= 1,
    ensures
        start.len() == 1 ==> labels_from(start, extra).len() > 0 && labels_from(start, extra)[0]
            == start[0],
        forall|i: int, j: int|
            0 <= i < j < labels_from(start, extra).len() ==> text::lower(
                #[trigger] labels_from(start, extra)[i],
            ) != text::lower(#[trigger] labels_from(start, extra)[j]),
    decreases extra.len(),
{
    if extra.len() > 0 {
        labels_are_distinct(start, extra.drop_last());
        let before = labels_from(start, extra.drop_last());
        let now = labels_from(start, extra);
        assert forall|i: int, j: int| 0 <= i < j < now.len() implies text::lower(#[trigger] now[i])
            != text::lower(#[trigger] now[j]) by {
            assert(now[i] == before[i]);
            if j < before.len() {
                assert(now[j] == before[j]);
            }
        }
    }
}

/// What an update of the PR changes.
pub struct PrUpdate {
    /// The new body, where one was provided.
    pub body: Option<String>,
    /// What the command reports.
    pub report: String,
}

/// Decide on updating the PR's title and body: the body is what was provided,
/// without white space at its ends. `None` where there is nothing to update.
pub fn update_pr(pr: u64, provided: &str, title: bool) -> (r: Option<PrUpdate>)
    ensures
        r is None <==> text::trim(provided@).len() == 0 && !title,
        r matches Some(update) ==> {
            &&& match update.body {
                Some(body) => body@ == text::trim(provided@) && body@.len() > 0,
                None => text::trim(provided@).len() == 0,
            }
            &&& update.report@ == "Updated PR #"@ + text::decimal(pr as nat) + " "@ + (if title {
                if update.body is Some {
                    "title and body"@
                } else {
                    "title"@
                }
            } else {
                "body"@
            }) + "."@
        },
{
    let body = text::trimmed(provided);
    let has_body = !body.as_str().is_empty();
    if !has_body && !title {
        return None;
    }
    let changed = if title {
        if has_body {
            "title and body"
        } else {
            "title"
        }
    } else {
        "body"
    };
    let mut report = text::copy("Updated PR #");
    report.append(text::number(pr).as_str());
    report.append(" ");
    report.append(changed);
    report.append(".");
    Some(
        PrUpdate {
            body: if has_body {
                Some(body)
            } else {
                None
            },
            report,
        },
    )
}

/// What posting a comment does not do: change the phase.
pub proof fn posting_keeps_the_phase(now: IssueState, before: IssueState)
    requires
        kept_by_posting(now, before),
    ensures
        now.phase == before.phase,
        now.consumed_directives == before.consumed_directives,
        now.consumed_reactions == before.consumed_reactions,
{
}

} // verus!
