//! Posting: what is handed off, asked and filed, and what is remembered of it.

use vstd::prelude::*;

use crate::models::Comment;
use crate::posting::{
    self, AskError, AskPlan, BlockerSource, Filing, FilingStep, HandOffError, HandOffPlan, PrUpdate,
};
use crate::state::{Attention, Etag, IssueState, Phase, WaitState};
use crate::text;

verus! {

/// The workflow has a PR.
pub open spec fn has_pr(s: IssueState) -> bool {
    s.prep is Some && s.prep->0.pr_number is Some
}

/// Posts go to the PR from the implement phase on, where there is one.
pub open spec fn on_the_pr(s: IssueState) -> bool {
    has_pr(s) && (s.phase == Phase::Implement || s.phase == Phase::Review || s.phase
        == Phase::Finished)
}

/// Posts go to the PR once there is one and it is being worked on, to the issue before.
pub proof fn posts_go_where_the_work_is(state: &IssueState, pr: Option<u64>, r: bool)
    requires
        call_ensures(posting::pr_number, (state,), pr),
        call_ensures(posting::primary_is_pr, (state,), r),
    ensures
        r <==> on_the_pr(*state),
        pr is Some <==> has_pr(*state),
        pr is Some ==> pr == state.prep->0.pr_number,
{
}

/// What each phase's hand-off asks for.
pub open spec fn asks_for(agent: Seq<char>, s: IssueState, prompt: Seq<char>) -> bool {
    match s.phase {
        Phase::PrePlan => text::contains(prompt, "Next: comment `/approve-pre-plan`"@)
            && text::contains(prompt, agent),
        Phase::PrepAndPlan => text::contains(prompt, "Next: comment `/approve-plan`"@)
            && text::contains(prompt, agent),
        Phase::Implement => if s.prep is Some && s.prep->0.no_branch {
            text::starts_with(prompt, "The work is complete."@)
        } else {
            text::starts_with(prompt, "Next: when you're happy with the change, mark"@)
        },
        _ => false,
    }
}

/// A hand-off needs a text and an open workflow, and from the implement phase a branch
/// without conflicts; a question can be asked at any time. A hand-off ends with what the
/// phase asks of the user, a question does not.
pub proof fn hand_offs_ask_for_the_next_step(
    agent: &str,
    state: &IssueState,
    body: &str,
    question: bool,
    conflict: bool,
    r: Result<HandOffPlan, HandOffError>,
)
    requires
        call_ensures(posting::hand_off, (agent, state, body, question, conflict), r),
    ensures
        r is Ok <==> text::trim(body@).len() > 0 && state.pr_outcome is None && (question || (
        !(conflict && state.phase == Phase::Implement) && (state.phase == Phase::PrePlan
            || state.phase == Phase::PrepAndPlan || state.phase == Phase::Implement))),
        r == Err::<HandOffPlan, HandOffError>(HandOffError::NoBody) <==> text::trim(body@).len()
            == 0,
        r == Err::<HandOffPlan, HandOffError>(HandOffError::Concluded) <==> text::trim(body@).len()
            > 0 && state.pr_outcome is Some,
        r == Err::<HandOffPlan, HandOffError>(HandOffError::NothingToHandOff) ==> !question && (
        state.phase == Phase::Review || state.phase == Phase::Finished),
        r == Err::<HandOffPlan, HandOffError>(HandOffError::Conflict) ==> !question && conflict
            && state.phase == Phase::Implement,
        r matches Ok(plan) ==> {
            &&& plan.primary_is_pr <==> on_the_pr(*state)
            &&& plan.prompt is None <==> question
            &&& plan.prompt is Some ==> asks_for(agent@, *state, plan.prompt->0@)
        },
{
    if r is Ok && r->Ok_0.prompt is Some {
        lemma_prompt(agent@, *state, r->Ok_0.prompt->0@);
    }
}

proof fn lemma_prompt(agent: Seq<char>, s: IssueState, prompt: Seq<char>)
    requires
        crate::render::prompt(agent, s.phase, posting::without_branch(s)) == Some(prompt),
    ensures
        asks_for(agent, s, prompt),
{
    match s.phase {
        Phase::PrePlan => {
            let a = crate::render::PRE_PLAN_PROMPT@;
            let c = crate::render::PRE_PLAN_PROMPT_END@;
            crate::laws::texts::lemma_within(a, agent, c);
            reveal_strlit("Next: comment `/approve-pre-plan`");
            reveal_strlit(
                "Next: comment `/approve-pre-plan` (alias `/approve-preplan`) — or react 👍 \
     to this comment — to advance to prep-and-plan, where a branch and worktree \
     are created and ",
            );
            let p = "Next: comment `/approve-pre-plan`"@;
            assert(a.subrange(0, p.len() as int) =~= p);
            assert(text::at(a, p, 0));
            crate::laws::texts::lemma_wider(Seq::empty(), a, agent + c, p);
            assert(a + (agent + c) =~= a + agent + c);
        },
        Phase::PrepAndPlan => {
            let a = crate::render::PLAN_PROMPT@;
            let c = crate::render::PLAN_PROMPT_END@;
            crate::laws::texts::lemma_within(a, agent, c);
            reveal_strlit("Next: comment `/approve-plan`");
            reveal_strlit(
                "Next: comment `/approve-plan` (on the issue or the PR) — or react 👍 to \
     this comment — to advance to implement, where ",
            );
            let p = "Next: comment `/approve-plan`"@;
            assert(a.subrange(0, p.len() as int) =~= p);
            assert(text::at(a, p, 0));
            crate::laws::texts::lemma_wider(Seq::empty(), a, agent + c, p);
            assert(a + (agent + c) =~= a + agent + c);
        },
        Phase::Implement => {
            reveal_strlit("The work is complete.");
            reveal_strlit("Next: when you're happy with the change, mark");
            reveal_strlit(
                "Next: when you're happy with the change, mark the draft PR ready for \
     review (the \"Ready for review\" button) to advance to the review phase.",
            );
            reveal_strlit(
                "The work is complete. With `--no-branch` there is no draft PR to mark \
     ready; review the change and close the issue (or merge it yourself) to \
     wrap up.",
            );
            if posting::without_branch(s) {
                let p = "The work is complete."@;
                assert(prompt.subrange(0, p.len() as int) =~= p);
            } else {
                let p = "Next: when you're happy with the change, mark"@;
                assert(prompt.subrange(0, p.len() as int) =~= p);
            }
        },
        _ => {},
    }
}

/// The text that is posted: the header, what the user is told, the phase's prompt, and
/// the session's mark, in this order.
pub proof fn hand_offs_are_worded(
    agent: &str,
    body: &str,
    plan: &HandOffPlan,
    token: Option<&str>,
    r: String,
)
    requires
        call_ensures(posting::hand_off_body, (agent, body, plan, token), r),
    ensures
        plan.prompt is Some && token is Some ==> r@ == "**"@ + agent@ + " says:**\n<hr>\n\n"@
            + text::trim(text::trim(body@) + "\n\n"@ + plan.prompt->0@) + "\n\n"@
            + "<!-- ghwf:v1 session="@ + token->0@ + " -->"@,
        plan.prompt is Some && token is None ==> r@ == "**"@ + agent@ + " says:**\n<hr>\n\n"@
            + text::trim(text::trim(body@) + "\n\n"@ + plan.prompt->0@),
        plan.prompt is None && token is Some ==> r@ == "**"@ + agent@ + " says:**\n<hr>\n\n"@
            + text::trim(body@) + "\n\n"@ + "<!-- ghwf:v1 session="@ + token->0@ + " -->"@,
        plan.prompt is None && token is None ==> r@ == "**"@ + agent@ + " says:**\n<hr>\n\n"@
            + text::trim(body@),
{
}

/// Attachments go below the text.
pub proof fn attachments_go_below_the_text(body: &str, trailer: Option<String>, r: String)
    requires
        call_ensures(posting::append_attachments, (body, trailer), r),
    ensures
        trailer is None ==> r@ == body@,
        trailer is Some ==> r@ == text::trim(body@) + "\n\n"@ + trailer->0@,
{
}

/// The other thread is told where the post is.
pub proof fn stubs_link_to_the_post(question: bool, on_pr: bool, url: &str, r: String)
    requires
        call_ensures(posting::hand_off_stub, (question, on_pr, url), r),
    ensures
        question && on_pr ==> r@ == "**ghwf:**\n<hr>\n\n"@ + text::trim(
            "Question"@ + " posted on the "@ + "PR"@ + ": "@ + url@,
        ) + "\n\n"@ + "<!-- ghwf:v1 status -->"@,
        question && !on_pr ==> r@ == "**ghwf:**\n<hr>\n\n"@ + text::trim(
            "Question"@ + " posted on the "@ + "issue"@ + ": "@ + url@,
        ) + "\n\n"@ + "<!-- ghwf:v1 status -->"@,
        !question && on_pr ==> r@ == "**ghwf:**\n<hr>\n\n"@ + text::trim(
            "Hand-off"@ + " posted on the "@ + "PR"@ + ": "@ + url@,
        ) + "\n\n"@ + "<!-- ghwf:v1 status -->"@,
        !question && !on_pr ==> r@ == "**ghwf:**\n<hr>\n\n"@ + text::trim(
            "Hand-off"@ + " posted on the "@ + "issue"@ + ": "@ + url@,
        ) + "\n\n"@ + "<!-- ghwf:v1 status -->"@,
{
}

/// The cached answers lose one key's, and keep all others, in order.
pub open spec fn forgets(now: Seq<Etag>, before: Seq<Etag>, key: Seq<char>) -> bool {
    &&& forall|i: int|
        #![trigger now[i]]
        0 <= i < now.len() ==> now[i].key@ != key && before.contains(now[i])
    &&& forall|i: int|
        #![trigger before[i]]
        0 <= i < before.len() && before[i].key@ != key ==> now.contains(before[i])
}

pub proof fn lemma_forgets(etags: Seq<Etag>, key: Seq<char>)
    ensures
        forgets(crate::state::etags_without(etags, key), etags, key),
    decreases etags.len(),
{
    if etags.len() > 0 {
        let init = etags.drop_last();
        lemma_forgets(init, key);
        let now = crate::state::etags_without(etags, key);
        let before = crate::state::etags_without(init, key);
        assert forall|i: int| #![trigger now[i]] 0 <= i < now.len() implies now[i].key@ != key
            && etags.contains(now[i]) by {
            if i < before.len() {
                assert(before[i] == now[i]);
                assert(init.contains(before[i]));
                let k = choose|k: int| 0 <= k < init.len() && init[k] == before[i];
                assert(etags[k] == now[i]);
            } else {
                assert(etags[etags.len() - 1] == now[i]);
            }
        }
        assert forall|i: int|
            #![trigger etags[i]]
            0 <= i < etags.len() && etags[i].key@ != key implies now.contains(etags[i]) by {
            if i < init.len() {
                assert(init[i] == etags[i]);
                assert(before.contains(init[i]));
                let k = choose|k: int| 0 <= k < before.len() && before[k] == init[i];
                assert(now[k] == etags[i]);
            } else {
                assert(now[before.len() as int] == etags[i]);
            }
        }
    }
}

/// A post leaves the workflow itself as it is.
pub open spec fn still(now: IssueState, before: IssueState) -> bool {
    &&& now.phase == before.phase
    &&& now.prep == before.prep
    &&& now.issue_closed == before.issue_closed
    &&& now.pr_outcome == before.pr_outcome
    &&& now.consumed_directives == before.consumed_directives
    &&& now.consumed_reactions == before.consumed_reactions
    &&& now.intro_posted == before.intro_posted
    &&& now.stop_nudges == before.stop_nudges
    &&& now.session_alert == before.session_alert
    &&& now.labels_synced == before.labels_synced
}

/// What is waited for stays, but for the two watches and the cached answers.
pub open spec fn waits_on(now: WaitState, before: WaitState) -> bool {
    &&& now.since == before.since
    &&& now.issue_fingerprint == before.issue_fingerprint
    &&& now.pr_draft == before.pr_draft
    &&& now.comments == before.comments
    &&& now.review_comments == before.review_comments
}

/// A comment asks for an approval.
pub open spec fn is_asking(body: Seq<char>) -> bool {
    text::contains(body, "Next: comment `/approve-pre-plan`"@) || text::contains(
        body,
        "Next: comment `/approve-plan`"@,
    )
}

/// A new prompt is watched for thumbs on its own thread, from none on, and nothing cached
/// is trusted for it.
pub open spec fn thumbs_are_awaited(
    now: WaitState,
    before: WaitState,
    on_pr: bool,
    id: u64,
) -> bool {
    &&& waits_on(now, before)
    &&& if on_pr {
        &&& now.pr.reactions is Some
        &&& now.pr.reactions->0.comment_id == id
        &&& now.pr.reactions->0.plus_one_ids@ == Set::<u64>::empty()
        &&& now.pr.options == before.pr.options
        &&& now.issue == before.issue
        &&& forgets(now.etags@, before.etags@, "reactions_pr"@)
    } else {
        &&& now.issue.reactions is Some
        &&& now.issue.reactions->0.comment_id == id
        &&& now.issue.reactions->0.plus_one_ids@ == Set::<u64>::empty()
        &&& now.issue.options == before.issue.options
        &&& now.pr == before.pr
        &&& forgets(now.etags@, before.etags@, "reactions_issue"@)
    }
}

/// After a hand-off it is the user's turn, the post is remembered, and a hand-off that
/// asks for an approval is watched for thumbs; a question is not.
pub proof fn hand_offs_pass_the_turn(
    before: IssueState,
    after: IssueState,
    comment: &Comment,
    body: &str,
    question: bool,
    on_pr: bool,
)
    requires
        exists|g: &mut IssueState| #[trigger]
            call_ensures(posting::record_hand_off, (g, comment, body, question, on_pr), ()) && *g
                == before && *final(g) == after,
    ensures
        still(after, before),
        after.attention == Attention::WaitingOnUser,
        after.last_posted is Some && after.last_posted->0.id == comment.id
            && after.last_posted->0.created_at == comment.created_at,
        after.wait is Some <==> before.wait is Some,
        before.wait is Some && !question && is_asking(body@) ==> thumbs_are_awaited(
            after.wait->0,
            before.wait->0,
            on_pr,
            comment.id,
        ),
        before.wait is Some && (question || !is_asking(body@)) ==> after.wait == before.wait,
{
    if before.wait is Some {
        lemma_forgets(before.wait->0.etags@, "reactions_pr"@);
        lemma_forgets(before.wait->0.etags@, "reactions_issue"@);
    }
}

/// Any other post is remembered, keeps the turn, and is watched for thumbs where it asks
/// for an approval.
pub proof fn posts_are_remembered(
    before: IssueState,
    after: IssueState,
    comment: &Comment,
    on_pr: bool,
)
    requires
        exists|g: &mut IssueState| #[trigger]
            call_ensures(posting::record_last_posted, (g, comment, on_pr), ()) && *g == before
                && *final(g) == after,
    ensures
        still(after, before),
        after.attention == before.attention,
        after.last_posted is Some && after.last_posted->0.id == comment.id
            && after.last_posted->0.created_at == comment.created_at,
        after.wait is Some <==> before.wait is Some,
        before.wait is Some && is_asking(comment.body@) ==> thumbs_are_awaited(
            after.wait->0,
            before.wait->0,
            on_pr,
            comment.id,
        ),
        before.wait is Some && !is_asking(comment.body@) ==> after.wait == before.wait,
{
    if before.wait is Some {
        lemma_forgets(before.wait->0.etags@, "reactions_pr"@);
        lemma_forgets(before.wait->0.etags@, "reactions_issue"@);
    }
}

/// After a question with options it is the user's turn, and its thread is watched for
/// the answer.
pub proof fn questions_are_awaited(
    before: IssueState,
    after: IssueState,
    comment: &Comment,
    on_pr: bool,
)
    requires
        exists|g: &mut IssueState| #[trigger]
            call_ensures(posting::record_ask, (g, comment, on_pr), ()) && *g == before && *final(g)
                == after,
    ensures
        still(after, before),
        after.attention == Attention::WaitingOnUser,
        after.last_posted is Some && after.last_posted->0.id == comment.id
            && after.last_posted->0.created_at == comment.created_at,
        after.wait is Some <==> before.wait is Some,
        before.wait is Some ==> waits_on(after.wait->0, before.wait->0),
        before.wait is Some && on_pr ==> {
            &&& after.wait->0.pr.options is Some
            &&& after.wait->0.pr.options->0.comment_id == comment.id
            &&& after.wait->0.pr.reactions == before.wait->0.pr.reactions
            &&& after.wait->0.issue == before.wait->0.issue
            &&& forgets(after.wait->0.etags@, before.wait->0.etags@, "options_pr"@)
        },
        before.wait is Some && !on_pr ==> {
            &&& after.wait->0.issue.options is Some
            &&& after.wait->0.issue.options->0.comment_id == comment.id
            &&& after.wait->0.issue.reactions == before.wait->0.issue.reactions
            &&& after.wait->0.pr == before.wait->0.pr
            &&& forgets(after.wait->0.etags@, before.wait->0.etags@, "options_issue"@)
        },
{
    if before.wait is Some {
        lemma_forgets(before.wait->0.etags@, "options_pr"@);
        lemma_forgets(before.wait->0.etags@, "options_issue"@);
    }
}

proof fn lemma_clean(options: Seq<Seq<char>>, label: Seq<char>)
    ensures
        posting::clean_options(options).contains(label) <==> label.len() > 0 && exists|k: int|
            #![trigger options[k]]
            0 <= k < options.len() && text::trim(options[k]) == label,
        posting::clean_options(options).len() <= options.len(),
        (forall|k: int|
            #![trigger options[k]]
            0 <= k < options.len() ==> text::trim(options[k]).len() > 0)
            ==> posting::clean_options(options) == options.map(
            |k: int, o: Seq<char>| text::trim(o),
        ),
    decreases options.len(),
{
    if options.len() > 0 {
        let init = options.drop_last();
        lemma_clean(init, label);
        let all = posting::clean_options(options);
        let before = posting::clean_options(init);
        let last = options.len() - 1;
        assert(options[last] == options.last());
        if all.contains(label) {
            let m = choose|m: int| 0 <= m < all.len() && all[m] == label;
            if m < before.len() {
                assert(before[m] == label);
                let k = choose|k: int|
                    #![trigger init[k]]
                    0 <= k < init.len() && text::trim(init[k]) == label;
                assert(text::trim(options[k]) == label);
            } else {
                assert(text::trim(options[last]) == label);
            }
        }
        if label.len() > 0 && exists|k: int|
            #![trigger options[k]]
            0 <= k < options.len() && text::trim(options[k]) == label {
            let k = choose|k: int|
                #![trigger options[k]]
                0 <= k < options.len() && text::trim(options[k]) == label;
            if k < init.len() {
                assert(init[k] == options[k]);
                let m = choose|m: int| 0 <= m < before.len() && before[m] == label;
                assert(all[m] == label);
            } else {
                assert(all[before.len() as int] == label);
            }
        }
        if forall|k: int|
            #![trigger options[k]]
            0 <= k < options.len() ==> text::trim(options[k]).len() > 0 {
            assert forall|k: int| #![trigger init[k]] 0 <= k < init.len() implies text::trim(
                init[k],
            ).len() > 0 by {
                assert(init[k] == options[k]);
            }
            let f = |k: int, o: Seq<char>| text::trim(o);
            assert(options.map(f).drop_last() =~= init.map(f));
            assert(all =~= options.map(f));
        }
    } else {
        let f = |k: int, o: Seq<char>| text::trim(o);
        assert(posting::clean_options(options) =~= options.map(f));
    }
}

/// A question needs a text, an option that is not blank and an open workflow; the options
/// are those given, trimmed, without the blank ones.
pub proof fn questions_need_options(
    state: &IssueState,
    question: &str,
    options: &[String],
    r: Result<AskPlan, AskError>,
    k: int,
    label: Seq<char>,
)
    requires
        call_ensures(posting::ask, (state, question, options), r),
    ensures
        r == Err::<AskPlan, AskError>(AskError::NoQuestion) <==> text::trim(question@).len() == 0,
        r == Err::<AskPlan, AskError>(AskError::Concluded) ==> state.pr_outcome is Some,
        r is Ok ==> state.pr_outcome is None && r->Ok_0.options@.len() > 0
            && text::trim(question@).len() > 0,
        r is Ok ==> (r->Ok_0.primary_is_pr <==> on_the_pr(*state)),
        text::trim(question@).len() > 0 && state.pr_outcome is None && 0 <= k < options@.len()
            && text::trim(options@[k]@).len() > 0 ==> r is Ok && exists|j: int|
            #![trigger r->Ok_0.options@[j]]
            0 <= j < r->Ok_0.options@.len() && r->Ok_0.options@[j]@ == text::trim(options@[k]@),
        r is Ok && 0 <= k < r->Ok_0.options@.len() ==> r->Ok_0.options@[k]@.len() > 0 && exists|
            j: int,
        |
            #![trigger options@[j]]
            0 <= j < options@.len() && text::trim(options@[j]@) == r->Ok_0.options@[k]@,
        r == Err::<AskPlan, AskError>(AskError::NoOptions) && 0 <= k < options@.len()
            ==> text::trim(options@[k]@).len() == 0,
        r is Ok && (forall|j: int|
            #![trigger options@[j]]
            0 <= j < options@.len() ==> text::trim(options@[j]@).len() > 0) ==> {
            &&& r->Ok_0.options@.len() == options@.len()
            &&& 0 <= k < options@.len() ==> r->Ok_0.options@[k]@ == text::trim(options@[k]@)
        },
{
    let views = text::views(options@);
    if 0 <= k < options@.len() {
        let t = text::trim(options@[k]@);
        lemma_clean(views, t);
        assert(views[k] == options@[k]@);
        if t.len() > 0 {
            assert(posting::clean_options(views).contains(t));
            let m = choose|m: int|
                0 <= m < posting::clean_options(views).len() && posting::clean_options(views)[m]
                    == t;
            if r is Ok {
                assert(text::views(r->Ok_0.options@)[m] == t);
                assert(r->Ok_0.options@[m]@ == t);
            }
        }
    }
    if r is Ok {
        let out = text::views(r->Ok_0.options@);
        assert(out.len() == r->Ok_0.options@.len());
        if 0 <= k < out.len() {
            lemma_clean(views, out[k]);
            assert(posting::clean_options(views).contains(out[k]));
            let j = choose|j: int|
                #![trigger views[j]]
                0 <= j < views.len() && text::trim(views[j]) == out[k];
            assert(text::trim(options@[j]@) == r->Ok_0.options@[k]@);
        }
        if forall|j: int|
            #![trigger options@[j]]
            0 <= j < options@.len() ==> text::trim(options@[j]@).len() > 0 {
            assert forall|j: int| #![trigger views[j]] 0 <= j < views.len() implies text::trim(
                views[j],
            ).len() > 0 by {
                assert(options@[j]@ == views[j]);
            }
            lemma_clean(views, Seq::empty());
            let f = |i: int, o: Seq<char>| text::trim(o);
            assert(out == views.map(f));
            if 0 <= k < options@.len() {
                assert(out[k] == text::trim(views[k]));
            }
        }
    }
}

/// The text of a question that is posted: the header, the question with its options, and
/// the session's mark.
pub proof fn questions_are_posted_in_full(
    agent: &str,
    question: &str,
    plan: &AskPlan,
    token: Option<&str>,
    options: &[String],
    body: String,
    r: String,
)
    requires
        call_ensures(posting::ask_body, (agent, question, plan, token), r),
        options@ == plan.options@,
        call_ensures(crate::options::build_options_body, (question, options), body),
    ensures
        token is Some ==> r@ == "**"@ + agent@ + " says:**\n<hr>\n\n"@ + text::trim(body@)
            + "\n\n"@ + "<!-- ghwf:v1 session="@ + token->0@ + " -->"@,
        token is None ==> r@ == "**"@ + agent@ + " says:**\n<hr>\n\n"@ + text::trim(body@),
{
}

/// A follow-up needs a title; what blocks it is the issue given, else the session's own,
/// unless it is not to be blocked.
pub proof fn follow_ups_are_blocked_by_their_origin(
    title: &str,
    no_block: bool,
    given: bool,
    inferred: bool,
    r: Option<BlockerSource>,
)
    requires
        call_ensures(posting::create_issue, (title, no_block, given, inferred), r),
    ensures
        r is None <==> text::trim(title@).len() == 0,
        r is Some && no_block ==> r == Some(BlockerSource::NotWanted),
        r is Some && !no_block && given ==> r == Some(BlockerSource::Given),
        r is Some && !no_block && !given && inferred ==> r == Some(BlockerSource::Inferred),
        r is Some && !no_block && !given && !inferred ==> r == Some(BlockerSource::Missing),
{
}

/// Only a blocked follow-up is guarded, and only where a label for it is configured.
pub proof fn blocked_follow_ups_are_guarded(blocked: bool, label: &str, r: Option<String>)
    requires
        call_ensures(posting::guard_label, (blocked, label), r),
    ensures
        r is Some <==> blocked && text::trim(label@).len() > 0,
        r is Some ==> r->0@ == text::trim(label@),
{
}

/// The steps of filing: the guard label first, where there is one; then the issue; then,
/// for a blocked one, the dependency; and the guard goes only once that is set.
pub proof fn filing_goes_step_by_step(
    blocked: bool,
    guarded: bool,
    taken: Option<(FilingStep, bool)>,
    r: Filing,
)
    requires
        call_ensures(posting::next_filing, (blocked, guarded, taken), r),
    ensures
        taken is None && guarded ==> r == Filing::Take(FilingStep::EnsureGuard),
        taken is None && !guarded ==> r == Filing::Take(FilingStep::File),
        taken == Some((FilingStep::EnsureGuard, true)) ==> r == Filing::Take(FilingStep::File),
        taken == Some((FilingStep::EnsureGuard, false)) ==> r == Filing::NotFiled,
        taken == Some((FilingStep::File, false)) ==> r == Filing::NotFiled,
        taken == Some((FilingStep::File, true)) && blocked ==> r == Filing::Take(
            FilingStep::SetDependency,
        ),
        taken == Some((FilingStep::File, true)) && !blocked ==> r == Filing::Filed,
        taken == Some((FilingStep::SetDependency, true)) && guarded ==> r == Filing::Take(
            FilingStep::RemoveGuard,
        ),
        taken == Some((FilingStep::SetDependency, true)) && !guarded ==> r == Filing::Filed,
        taken == Some((FilingStep::SetDependency, false)) ==> r == Filing::Filed,
        taken is Some && (taken->0).0 == FilingStep::RemoveGuard ==> r == Filing::Filed,
{
}

proof fn lemma_labels(start: Seq<Seq<char>>, extra: Seq<Seq<char>>, label: Seq<char>)
    ensures
        ({
            let all = posting::labels_from(start, extra);
            &&& start.is_prefix_of(all)
            &&& (exists|k: int|
                #![trigger extra[k]]
                0 <= k < extra.len() && text::trim(extra[k]).len() > 0 && text::lower(
                    text::trim(extra[k]),
                ) == text::lower(label)) ==> posting::listed_ignoring_case(all, label)
            &&& forall|j: int|
                #![trigger all[j]]
                start.len() <= j < all.len() ==> all[j].len() > 0 && exists|k: int|
                    #![trigger extra[k]]
                    0 <= k < extra.len() && text::trim(extra[k]) == all[j]
        }),
    decreases extra.len(),
{
    if extra.len() > 0 {
        let init = extra.drop_last();
        lemma_labels(start, init, label);
        let all = posting::labels_from(start, extra);
        let before = posting::labels_from(start, init);
        let last = extra.len() - 1;
        assert(extra[last] == extra.last());
        if exists|k: int|
            #![trigger extra[k]]
            0 <= k < extra.len() && text::trim(extra[k]).len() > 0 && text::lower(
                text::trim(extra[k]),
            ) == text::lower(label) {
            let k = choose|k: int|
                #![trigger extra[k]]
                0 <= k < extra.len() && text::trim(extra[k]).len() > 0 && text::lower(
                    text::trim(extra[k]),
                ) == text::lower(label);
            if k < init.len() {
                assert(init[k] == extra[k]);
                assert(posting::listed_ignoring_case(before, label));
                let m = choose|m: int|
                    0 <= m < before.len() && text::lower(#[trigger] before[m]) == text::lower(
                        label,
                    );
                assert(text::lower(all[m]) == text::lower(label));
            } else if posting::listed_ignoring_case(before, text::trim(extra[k])) {
                let m = choose|m: int|
                    0 <= m < before.len() && text::lower(#[trigger] before[m]) == text::lower(
                        text::trim(extra[k]),
                    );
                assert(text::lower(all[m]) == text::lower(label));
            } else {
                assert(text::lower(all[before.len() as int]) == text::lower(label));
            }
        }
        assert forall|j: int| #![trigger all[j]] start.len() <= j < all.len() implies all[j].len()
            > 0 && exists|k: int|
            #![trigger extra[k]]
            0 <= k < extra.len() && text::trim(extra[k]) == all[j] by {
            if j < before.len() {
                assert(before[j] == all[j]);
                let k = choose|k: int|
                    #![trigger init[k]]
                    0 <= k < init.len() && text::trim(init[k]) == before[j];
                assert(text::trim(extra[k]) == all[j]);
            } else {
                assert(text::trim(extra[last]) == all[j]);
            }
        }
    }
}

/// The labels of a new issue: the guard first, then each given label, trimmed, once,
/// whatever the case of its letters, and no other.
pub proof fn labels_are_listed_once(
    blocked: Option<&str>,
    extra: &[String],
    r: Vec<String>,
    k: int,
    j: int,
)
    requires
        call_ensures(posting::assemble_labels, (blocked, extra), r),
    ensures
        blocked is Some ==> r@.len() > 0 && r@[0]@ == blocked->0@,
        0 <= k < extra@.len() && text::trim(extra@[k]@).len() > 0 ==> exists|i: int|
            #![trigger r@[i]]
            0 <= i < r@.len() && text::lower(r@[i]@) == text::lower(text::trim(extra@[k]@)),
        0 <= k < j < r@.len() ==> text::lower(r@[k]@) != text::lower(r@[j]@),
        0 <= k < r@.len() && (k > 0 || blocked is None) ==> exists|i: int|
            #![trigger extra@[i]]
            0 <= i < extra@.len() && text::trim(extra@[i]@) == r@[k]@,
{
    let start = posting::first_labels(blocked);
    let views = text::views(extra@);
    let out = text::views(r@);
    assert(out.len() == r@.len());
    posting::labels_are_distinct(start, views);
    if blocked is Some {
        assert(out[0] == start[0]);
        assert(r@[0]@ == out[0]);
    }
    if 0 <= k < j < r@.len() {
        assert(out[k] == r@[k]@ && out[j] == r@[j]@);
    }
    if 0 <= k < extra@.len() && text::trim(extra@[k]@).len() > 0 {
        let t = text::trim(extra@[k]@);
        lemma_labels(start, views, t);
        assert(views[k] == extra@[k]@);
        assert(posting::listed_ignoring_case(out, t));
        let i = choose|i: int|
            0 <= i < out.len() && text::lower(#[trigger] out[i]) == text::lower(t);
        assert(r@[i]@ == out[i]);
    }
    if 0 <= k < r@.len() && (k > 0 || blocked is None) {
        lemma_labels(start, views, Seq::empty());
        assert(out[k] == r@[k]@);
        let i = choose|i: int|
            #![trigger views[i]]
            0 <= i < views.len() && text::trim(views[i]) == out[k];
        assert(text::trim(extra@[i]@) == r@[k]@);
    }
}

/// A PR is updated where there is a body or a title; the body is the given text, trimmed,
/// and the report says what changed.
pub proof fn pr_updates_say_what_changed(pr: u64, provided: &str, title: bool, r: Option<PrUpdate>)
    requires
        call_ensures(posting::update_pr, (pr, provided, title), r),
    ensures
        r is None <==> text::trim(provided@).len() == 0 && !title,
        r is Some ==> (r->0.body is Some <==> text::trim(provided@).len() > 0),
        r is Some && r->0.body is Some ==> r->0.body->0@ == text::trim(provided@),
        r is Some && title && r->0.body is Some ==> r->0.report@ == "Updated PR #"@ + text::decimal(
            pr as nat,
        ) + " "@ + "title and body"@ + "."@,
        r is Some && title && r->0.body is None ==> r->0.report@ == "Updated PR #"@ + text::decimal(
            pr as nat,
        ) + " "@ + "title"@ + "."@,
        r is Some && !title ==> r->0.report@ == "Updated PR #"@ + text::decimal(pr as nat) + " "@
            + "body"@ + "."@,
{
}

} // verus!
