//! What one run over an issue does.

use vstd::prelude::*;

use crate::access::AccessList;
use crate::github::RepoRef;
use crate::laws::approvals::{
    self, both, commands, fired, home, is_thumb, rank, sole_thumb,
};
use crate::laws::digest;
use crate::laws::waiting::ended;
use crate::laws::who::{trusted, welcome, welcome_thumb};
use crate::models::{Comment, Issue};
use crate::render::{self, Transition, Trigger};
use crate::run::{self, Advanced, Baseline, Fetched, News};
use crate::seen;
use crate::state::{
    Attention, Directive, IssueState, Phase, PrepState, ReactionWatch, WaitState,
};
use crate::store;
use crate::text;
use crate::threads::{self, PendingSubmission, PromptRef};
use crate::work_on::{self, Found, PhaseWork, StatusThreads, Thread};
use crate::workflow::{self, comments_of, PromptThumbs};

verus! {

/// A run takes over how the issue and the PR stand, processes the commands that were
/// given, and then moves on where the PR was marked ready. A merged PR finishes the
/// workflow, and none of this run's approvals is lost over that.
pub proof fn a_run_takes_the_commands(
    before: IssueState,
    f: &Fetched,
    access: &AccessList,
    issue_repo: &RepoRef,
    code_repo: &RepoRef,
    after: IssueState,
    r: Advanced,
    k: int,
    d: Directive,
)
    requires
        exists|g: &mut IssueState| #[trigger]
            call_ensures(run::advance, (g, f, access, issue_repo, code_repo), r) && *g == before
                && *final(g) == after,
        0 <= k < both(f.issue_comments, f.pr_comments).len(),
        seen::distinct_ids(both(f.issue_comments, f.pr_comments)),
        commands(both(f.issue_comments, f.pr_comments)[k], d),
        welcome(
            *access,
            both(f.issue_comments, f.pr_comments)[k].user.login@,
            both(f.issue_comments, f.pr_comments)[k].author_association@,
        ),
        !before.consumed_directives@.contains(both(f.issue_comments, f.pr_comments)[k].id),
    ensures
        after.consumed_directives@.contains(both(f.issue_comments, f.pr_comments)[k].id),
        d == Directive::ApprovePrePlan && before.phase == Phase::PrePlan ==> rank(after.phase) >= 1
            && r.outcome.transitions@.len() > 0 && r.outcome.transitions@[0].from == Phase::PrePlan
            && r.outcome.transitions@[0].to == Phase::PrepAndPlan,
        d == Directive::ApprovePlan && before.phase == Phase::PrepAndPlan ==> rank(after.phase) >= 2
            && r.outcome.transitions@.len() > 0 && r.outcome.transitions@[0].from
            == Phase::PrepAndPlan && r.outcome.transitions@[0].to == Phase::Implement,
        (exists|i: int|
            #![trigger r.outcome.transitions@[i]]
            0 <= i < r.outcome.transitions@.len() && fired(
                r.outcome.transitions@[i],
                d,
                both(f.issue_comments, f.pr_comments)[k].user.login,
                false,
            )) || (exists|i: int|
            #![trigger r.outcome.notes@[i]]
            0 <= i < r.outcome.notes@.len() && r.outcome.notes@[i].by == both(
                f.issue_comments,
                f.pr_comments,
            )[k].user.login && r.outcome.notes@[i].command@ == approvals::written(d)),
{
    let mid = run::observed(before, *f);
    let end = run::approved(mid, *f, *access, *issue_repo, *code_repo);
    approvals::lemma_accepted_commands_take_effect(
        mid,
        f.issue_comments,
        f.pr_comments,
        f.thumbs,
        access,
        issue_repo,
        code_repo,
        end,
        k,
        d,
    );
    let login = both(f.issue_comments, f.pr_comments)[k].user.login;
    if exists|i: int|
        #![trigger end.transitions[i]]
        0 <= i < end.transitions.len() && fired(end.transitions[i], d, login, false) {
        let i = choose|i: int|
            #![trigger end.transitions[i]]
            0 <= i < end.transitions.len() && fired(end.transitions[i], d, login, false);
        assert(r.outcome.transitions@[i] == end.transitions[i]);
    } else {
        let i = choose|i: int|
            #![trigger end.notes[i]]
            0 <= i < end.notes.len() && end.notes[i].by == login && end.notes[i].command@
                == approvals::written(d);
        assert(r.outcome.notes@[i] == end.notes[i]);
    }
    if end.transitions.len() > 0 {
        assert(r.outcome.transitions@[0] == end.transitions[0]);
    }
}

/// A run takes the 👍s on prompts in the same way.
pub proof fn a_run_takes_the_thumbs(
    before: IssueState,
    f: &Fetched,
    access: &AccessList,
    issue_repo: &RepoRef,
    code_repo: &RepoRef,
    after: IssueState,
    r: Advanced,
    i: int,
    j: int,
)
    requires
        exists|g: &mut IssueState| #[trigger]
            call_ensures(run::advance, (g, f, access, issue_repo, code_repo), r) && *g == before
                && *final(g) == after,
        0 <= i < f.thumbs@.len(),
        0 <= j < f.thumbs@[i].reactions@.len(),
        is_thumb(f.thumbs@[i].reactions@[j]),
        sole_thumb(f.thumbs@, i, j),
        welcome_thumb(
            *access,
            home(f.thumbs@[i], *issue_repo, *code_repo),
            f.thumbs@[i].reactions@[j].user.login@,
        ),
        !before.consumed_reactions@.contains(f.thumbs@[i].reactions@[j].id),
    ensures
        after.consumed_reactions@.contains(f.thumbs@[i].reactions@[j].id),
        f.thumbs@[i].directive == Directive::ApprovePrePlan && before.phase == Phase::PrePlan
            ==> rank(after.phase) >= 1 && r.outcome.transitions@.len() > 0,
        f.thumbs@[i].directive == Directive::ApprovePlan && before.phase == Phase::PrepAndPlan
            ==> rank(after.phase) >= 2 && r.outcome.transitions@.len() > 0,
{
    let mid = run::observed(before, *f);
    let end = run::approved(mid, *f, *access, *issue_repo, *code_repo);
    approvals::lemma_accepted_thumbs_take_effect(
        mid,
        f.issue_comments,
        f.pr_comments,
        f.thumbs,
        access,
        issue_repo,
        code_repo,
        end,
        i,
        j,
    );
}

/// What a run reports beyond its approvals is that the PR was marked ready: a PR that is
/// open and no draft moves an issue that is being implemented to review. How the PR
/// ended is reported where it is news, and a merged one finishes the workflow.
pub proof fn a_run_follows_the_pr(
    before: IssueState,
    f: &Fetched,
    access: &AccessList,
    issue_repo: &RepoRef,
    code_repo: &RepoRef,
    after: IssueState,
    r: Advanced,
)
    requires
        exists|g: &mut IssueState| #[trigger]
            call_ensures(run::advance, (g, f, access, issue_repo, code_repo), r) && *g == before
                && *final(g) == after,
    ensures
        after.issue_closed <==> f.issue.state@ != "open"@,
        f.pr is None ==> after.pr_outcome is None,
        f.pr is Some ==> after.pr_outcome == ended(*f.pr->0),
        r.new_conclusion == (if after.pr_outcome != before.pr_outcome {
            after.pr_outcome
        } else {
            None
        }),
        f.pr is Some && f.pr->0.merged ==> after.phase == Phase::Finished,
        before.phase == Phase::Implement && f.pr is Some && ended(*f.pr->0) is None
            && !f.pr->0.draft ==> after.phase == Phase::Review && r.outcome.transitions@.len() == 1
            && r.outcome.transitions@[0].trigger == Trigger::PrReady
            && r.outcome.transitions@[0].from == Phase::Implement && r.outcome.transitions@[0].to
            == Phase::Review,
        before.phase == Phase::Implement && (f.pr is None || f.pr->0.draft) && !(f.pr is Some
            && f.pr->0.merged) ==> after.phase == Phase::Implement
            && r.outcome.transitions@.len() == 0,
        before.phase == Phase::Review && !(f.pr is Some && f.pr->0.merged) ==> after.phase
            == Phase::Review && r.outcome.transitions@.len() == 0,
        after.prep == before.prep,
        after.intro_posted == before.intro_posted,
        after.last_posted == before.last_posted,
        after.attention == before.attention,
        after.stop_nudges == before.stop_nudges,
        after.session_alert == before.session_alert,
        after.labels_synced == before.labels_synced,
        after.wait == before.wait,
{
    let mid = run::observed(before, *f);
    let events = workflow::in_order(
        workflow::all_events(
            f.issue_comments@,
            comments_of(f.pr_comments),
            f.thumbs@,
            *access,
            *issue_repo,
            *code_repo,
        ),
    );
    if before.phase == Phase::Implement || before.phase == Phase::Review {
        approvals::lemma_phase_stays(workflow::standing(mid), events);
    }
}

/// `w` holds the hash of every comment's text under its id.
pub open spec fn holds_all(w: WaitState, comments: Seq<Comment>) -> bool {
    forall|k: int|
        #![trigger comments[k]]
        0 <= k < comments.len() ==> w.comments@.contains_key(comments[k].id)
            && w.comments@[comments[k].id]@ == store::hash_of(comments[k].body@)
}

/// A comment asks for an approval: a posted one that names the next command.
pub open spec fn is_prompt(c: Comment) -> bool {
    render::marker_of(c.body@) is Some && (text::contains(
        c.body@,
        "Next: comment `/approve-pre-plan`"@,
    ) || text::contains(c.body@, "Next: comment `/approve-plan`"@))
}

proof fn lemma_latest_prompt(comments: Seq<Comment>)
    ensures
        ({
            let at = threads::latest_prompt(comments);
            &&& at < comments.len()
            &&& at < 0 ==> forall|k: int|
                #![trigger comments[k]]
                0 <= k < comments.len() ==> !is_prompt(comments[k])
            &&& at >= 0 ==> is_prompt(comments[at]) && forall|k: int|
                #![trigger comments[k]]
                0 <= k < comments.len() && is_prompt(comments[k]) ==> text::le(
                    comments[k].created_at@,
                    comments[at].created_at@,
                )
        }),
    decreases comments.len(),
{
    if comments.len() > 0 {
        let init = comments.drop_last();
        lemma_latest_prompt(init);
        let before = threads::latest_prompt(init);
        let at = threads::latest_prompt(comments);
        let c = comments.last();
        text::lemma_le_reflexive(c.created_at@);
        if before >= 0 {
            assert(init[before] == comments[before]);
            text::lemma_le_total(comments[before].created_at@, c.created_at@);
        }
        assert forall|k: int|
            #![trigger comments[k]]
            0 <= k < comments.len() && is_prompt(comments[k]) implies at >= 0 && text::le(
            comments[k].created_at@,
            comments[at].created_at@,
        ) by {
            if k < init.len() {
                assert(init[k] == comments[k]);
                if before >= 0 && at != before {
                    text::lemma_le_transitive(
                        comments[k].created_at@,
                        comments[before].created_at@,
                        c.created_at@,
                    );
                }
            }
        }
        if at < 0 {
            assert forall|k: int| #![trigger comments[k]] 0 <= k < comments.len() implies !is_prompt(
                comments[k],
            ) by {
                if k < init.len() {
                    assert(init[k] == comments[k]);
                }
            }
        }
    }
}

/// What is watched on a thread for a 👍 is its latest prompt, the one just posted among
/// them, and the 👍s that were fetched for it are known.
pub proof fn the_latest_prompt_is_watched(
    comments: &[Comment],
    posted: Option<&Comment>,
    thumbs: &[PromptThumbs],
    r: Option<ReactionWatch>,
    all: Seq<Comment>,
)
    requires
        call_ensures(threads::latest_prompt_watch, (comments, posted, thumbs), r),
        posted is Some ==> all == comments@.push(*posted->0),
        posted is None ==> all == comments@,
    ensures
        ({
            &&& r is None ==> forall|k: int|
                #![trigger all[k]]
                0 <= k < all.len() ==> !is_prompt(all[k])
            &&& r is Some ==> exists|at: int|
                #![trigger all[at]]
                0 <= at < all.len() && is_prompt(all[at]) && r->0.comment_id == all[at].id && (
                forall|k: int|
                    #![trigger all[k]]
                    0 <= k < all.len() && is_prompt(all[k]) ==> text::le(
                        all[k].created_at@,
                        all[at].created_at@,
                    ))
            &&& r is Some ==> forall|id: u64| #[trigger]
                r->0.plus_one_ids@.contains(id) ==> exists|i: int, j: int|
                    #![trigger thumbs@[i].reactions@[j]]
                    0 <= i < thumbs@.len() && thumbs@[i].comment_id == r->0.comment_id && 0 <= j
                        < thumbs@[i].reactions@.len() && thumbs@[i].reactions@[j].content@ == "+1"@
                        && thumbs@[i].reactions@[j].id == id
            &&& r is Some ==> forall|i: int, j: int|
                #![trigger thumbs@[i].reactions@[j]]
                0 <= i < thumbs@.len() && thumbs@[i].comment_id == r->0.comment_id && (forall|
                    h: int,
                |
                    0 <= h < i ==> (#[trigger] thumbs@[h]).comment_id != r->0.comment_id) && 0 <= j
                    < thumbs@[i].reactions@.len() && thumbs@[i].reactions@[j].content@ == "+1"@
                    ==> r->0.plus_one_ids@.contains(thumbs@[i].reactions@[j].id)
        }),
{
    assert(all == threads::with_posted(comments@, posted));
    lemma_latest_prompt(all);
    if r is Some {
        lemma_baseline(thumbs@, r->0.comment_id);
        let at = threads::latest_prompt(all);
        assert(is_prompt(all[at]));
    }
}

proof fn lemma_baseline(thumbs: Seq<PromptThumbs>, id: u64)
    ensures
        forall|n: u64| #[trigger]
            threads::baseline(thumbs, id).contains(n) ==> exists|i: int, j: int|
                #![trigger thumbs[i].reactions@[j]]
                0 <= i < thumbs.len() && thumbs[i].comment_id == id && 0 <= j
                    < thumbs[i].reactions@.len() && thumbs[i].reactions@[j].content@ == "+1"@
                    && thumbs[i].reactions@[j].id == n,
        forall|i: int, j: int|
            #![trigger thumbs[i].reactions@[j]]
            0 <= i < thumbs.len() && thumbs[i].comment_id == id && (forall|h: int|
                0 <= h < i ==> (#[trigger] thumbs[h]).comment_id != id) && 0 <= j
                < thumbs[i].reactions@.len() && thumbs[i].reactions@[j].content@ == "+1"@
                ==> threads::baseline(thumbs, id).contains(thumbs[i].reactions@[j].id),
    decreases thumbs.len(),
{
    if thumbs.len() > 0 {
        if thumbs[0].comment_id == id {
            assert forall|n: u64| #[trigger]
                threads::baseline(thumbs, id).contains(n) implies exists|i: int, j: int|
                #![trigger thumbs[i].reactions@[j]]
                0 <= i < thumbs.len() && thumbs[i].comment_id == id && 0 <= j
                    < thumbs[i].reactions@.len() && thumbs[i].reactions@[j].content@ == "+1"@
                    && thumbs[i].reactions@[j].id == n by {
                let j = choose|j: int|
                    0 <= j < thumbs[0].reactions@.len() && (
                    #[trigger] thumbs[0].reactions@[j]).thumbs_up() && thumbs[0].reactions@[j].id
                        == n;
                assert(thumbs[0].reactions@[j].id == n);
            }
            assert forall|i: int, j: int|
                #![trigger thumbs[i].reactions@[j]]
                0 <= i < thumbs.len() && thumbs[i].comment_id == id && (forall|h: int|
                    0 <= h < i ==> (#[trigger] thumbs[h]).comment_id != id) && 0 <= j
                    < thumbs[i].reactions@.len() && thumbs[i].reactions@[j].content@
                    == "+1"@ implies threads::baseline(thumbs, id).contains(
                thumbs[i].reactions@[j].id,
            ) by {
                if i > 0 {
                    assert(thumbs[0].comment_id != id);
                }
                assert(thumbs[0].reactions@[j].thumbs_up());
            }
        } else {
            let rest = thumbs.skip(1);
            lemma_baseline(rest, id);
            assert forall|n: u64| #[trigger]
                threads::baseline(thumbs, id).contains(n) implies exists|i: int, j: int|
                #![trigger thumbs[i].reactions@[j]]
                0 <= i < thumbs.len() && thumbs[i].comment_id == id && 0 <= j
                    < thumbs[i].reactions@.len() && thumbs[i].reactions@[j].content@ == "+1"@
                    && thumbs[i].reactions@[j].id == n by {
                assert(threads::baseline(rest, id).contains(n));
                let (i, j) = choose|i: int, j: int|
                    #![trigger rest[i].reactions@[j]]
                    0 <= i < rest.len() && rest[i].comment_id == id && 0 <= j
                        < rest[i].reactions@.len() && rest[i].reactions@[j].content@ == "+1"@
                        && rest[i].reactions@[j].id == n;
                assert(thumbs[i + 1].reactions@[j].id == n);
            }
            assert forall|i: int, j: int|
                #![trigger thumbs[i].reactions@[j]]
                0 <= i < thumbs.len() && thumbs[i].comment_id == id && (forall|h: int|
                    0 <= h < i ==> (#[trigger] thumbs[h]).comment_id != id) && 0 <= j
                    < thumbs[i].reactions@.len() && thumbs[i].reactions@[j].content@
                    == "+1"@ implies threads::baseline(thumbs, id).contains(
                thumbs[i].reactions@[j].id,
            ) by {
                assert(rest[i - 1] == thumbs[i]);
                assert forall|h: int| 0 <= h < i - 1 implies (#[trigger] rest[h]).comment_id
                    != id by {
                    assert(thumbs[h + 1].comment_id != id);
                }
                assert(rest[i - 1].reactions@[j].content@ == "+1"@);
            }
        }
    }
}

/// A 👍 is fetched for exactly the prompts that show one.
pub proof fn thumbed_prompts_are_fetched(comments: &[Comment], r: Vec<PromptRef>, k: int)
    requires
        call_ensures(threads::collect_prompt_thumbs, (comments,), r),
    ensures
        0 <= k < comments@.len() && is_prompt(comments@[k]) && comments@[k].reactions is Some
            && comments@[k].reactions->0.plus_one > 0 ==> exists|i: int|
            #![trigger r@[i]]
            0 <= i < r@.len() && r@[i].comment_id == comments@[k].id && r@[i].directive == (
            if text::contains(comments@[k].body@, "Next: comment `/approve-pre-plan`"@) {
                Directive::ApprovePrePlan
            } else {
                Directive::ApprovePlan
            }),
        0 <= k < r@.len() ==> exists|i: int|
            #![trigger comments@[i]]
            0 <= i < comments@.len() && is_prompt(comments@[i]) && comments@[i].reactions is Some
                && comments@[i].reactions->0.plus_one > 0 && r@[k].comment_id == comments@[i].id,
{
    lemma_thumbed(comments@, k);
}

proof fn lemma_thumbed(comments: Seq<Comment>, k: int)
    ensures
        0 <= k < comments.len() && is_prompt(comments[k]) && comments[k].reactions is Some
            && comments[k].reactions->0.plus_one > 0 ==> exists|i: int|
            #![trigger threads::thumbed_prompts(comments)[i]]
            0 <= i < threads::thumbed_prompts(comments).len() && threads::thumbed_prompts(
                comments,
            )[i].comment_id == comments[k].id && threads::thumbed_prompts(comments)[i].directive
                == (if text::contains(comments[k].body@, "Next: comment `/approve-pre-plan`"@) {
                Directive::ApprovePrePlan
            } else {
                Directive::ApprovePlan
            }),
        0 <= k < threads::thumbed_prompts(comments).len() ==> exists|i: int|
            #![trigger comments[i]]
            0 <= i < comments.len() && is_prompt(comments[i]) && comments[i].reactions is Some
                && comments[i].reactions->0.plus_one > 0 && threads::thumbed_prompts(
                comments,
            )[k].comment_id == comments[i].id,
    decreases comments.len(),
{
    if comments.len() > 0 {
        let init = comments.drop_last();
        lemma_thumbed(init, k);
        let before = threads::thumbed_prompts(init);
        let now = threads::thumbed_prompts(comments);
        let c = comments.last();
        if 0 <= k < comments.len() && is_prompt(comments[k]) && comments[k].reactions is Some
            && comments[k].reactions->0.plus_one > 0 {
            if k < init.len() {
                assert(init[k] == comments[k]);
                let i = choose|i: int|
                    #![trigger before[i]]
                    0 <= i < before.len() && before[i].comment_id == init[k].id
                        && before[i].directive == (if text::contains(
                        init[k].body@,
                        "Next: comment `/approve-pre-plan`"@,
                    ) {
                        Directive::ApprovePrePlan
                    } else {
                        Directive::ApprovePlan
                    });
                assert(now[i] == before[i]);
            } else {
                assert(now[now.len() - 1].comment_id == c.id);
            }
        }
        if 0 <= k < now.len() {
            if k < before.len() {
                let i = choose|i: int|
                    #![trigger init[i]]
                    0 <= i < init.len() && is_prompt(init[i]) && init[i].reactions is Some
                        && init[i].reactions->0.plus_one > 0 && before[k].comment_id == init[i].id;
                assert(comments[i] == init[i]);
                assert(now[k] == before[k]);
            } else {
                assert(comments[comments.len() - 1] == c);
            }
        }
    }
}

proof fn lemma_latest_update(since: Seq<char>, comments: Seq<Comment>)
    ensures
        text::le(since, work_on::latest_update(since, comments)),
        forall|k: int|
            #![trigger comments[k]]
            0 <= k < comments.len() ==> text::le(
                comments[k].updated_at@,
                work_on::latest_update(since, comments),
            ),
    decreases comments.len(),
{
    text::lemma_le_reflexive(since);
    if comments.len() > 0 {
        let init = comments.drop_last();
        lemma_latest_update(since, init);
        let before = work_on::latest_update(since, init);
        let u = comments.last().updated_at@;
        let now = work_on::latest_update(since, comments);
        text::lemma_le_total(u, before);
        text::lemma_le_reflexive(u);
        text::lemma_le_reflexive(before);
        assert(text::le(before, now) && text::le(u, now));
        text::lemma_le_transitive(since, before, now);
        assert forall|k: int| #![trigger comments[k]] 0 <= k < comments.len() implies text::le(
            comments[k].updated_at@,
            now,
        ) by {
            if k < init.len() {
                assert(init[k] == comments[k]);
                text::lemma_le_transitive(comments[k].updated_at@, before, now);
            }
        }
    }
}

/// A run leaves a baseline that holds what it saw: the issue, whether the PR is a draft,
/// the text of every comment on both threads and of every inline review, and no earlier
/// moment than the last update of any comment.
pub proof fn the_baseline_holds_what_was_seen(
    f: &Fetched,
    posted_issue: Option<&Comment>,
    posted_pr: Option<&Comment>,
    my_token: &str,
    issue_repo: &RepoRef,
    code_repo: &RepoRef,
    r: Baseline,
    k: int,
)
    requires
        call_ensures(
            run::baseline,
            (f, posted_issue, posted_pr, my_token, issue_repo, code_repo),
            r,
        ),
        seen::distinct_ids(f.issue_comments@ + comments_of(f.pr_comments)),
        seen::distinct_review_ids(run::reviews_of(f.review_comments)),
    ensures
        holds_all(r.wait, f.issue_comments@),
        f.pr_comments is Some ==> holds_all(r.wait, f.pr_comments->0@),
        f.review_comments is Some && 0 <= k < f.review_comments->0@.len()
            ==> r.wait.review_comments@.contains_key(f.review_comments->0@[k].id)
            && r.wait.review_comments@[f.review_comments->0@[k].id]@ == store::hash_of(
            f.review_comments->0@[k].body@,
        ),
        r.wait.issue_fingerprint@ == store::hash_of(
            f.issue.title@ + "\n\u{0}"@ + (match f.issue.body {
                Some(body) => body@,
                None => ""@,
            }) + "\n\u{0}"@ + f.issue.state@,
        ),
        f.pr is Some ==> r.wait.pr_draft == Some(f.pr->0.draft),
        f.pr is None ==> r.wait.pr_draft is None,
        r.wait.etags@.len() == 0,
{
    let first = f.issue_comments@;
    let second = comments_of(f.pr_comments);
    let all = first + second;
    seen::lemma_with_comments_joined(Map::empty(), first, second);
    assert forall|i: int| #![trigger first[i]] 0 <= i < first.len() implies r.wait.comments@.contains_key(
        first[i].id,
    ) && r.wait.comments@[first[i].id]@ == store::hash_of(first[i].body@) by {
        assert(all[i] == first[i]);
        digest::lemma_recorded(all, r.wait.comments@, i);
    }
    assert forall|i: int| #![trigger second[i]] 0 <= i < second.len() implies r.wait.comments@.contains_key(
        second[i].id,
    ) && r.wait.comments@[second[i].id]@ == store::hash_of(second[i].body@) by {
        assert(all[first.len() + i] == second[i]);
        digest::lemma_recorded(all, r.wait.comments@, first.len() + i);
    }
    if f.review_comments is Some && 0 <= k < f.review_comments->0@.len() {
        digest::lemma_review_recorded(f.review_comments->0@, r.wait.review_comments@, k);
    }
}

/// After a run it is the user's turn in review and, while the PR is open, the agent's
/// turn wherever anything is new; nothing new leaves it as it was. Something new clears
/// what was counted against the session. The baseline is what the next wait goes by.
pub proof fn a_run_hands_the_turn_on(
    before: IssueState,
    advanced: &Advanced,
    n: &News,
    made: Baseline,
    conflict: bool,
    after: IssueState,
    r: Vec<PendingSubmission>,
)
    requires
        exists|g: &mut IssueState| #[trigger]
            call_ensures(run::settle_run, (g, advanced, n, made, conflict), r) && *g == before
                && *final(g) == after,
    ensures
        r@ == made.submissions@,
        after.wait == Some(made.wait),
        ({
            let news = advanced.outcome.transitions@.len() > 0 || advanced.outcome.notes@.len() > 0
                || n.body_changed || n.issue_comments@.len() > 0 || n.pr_comments@.len() > 0
                || n.review_comments@.len() > 0 || made.submissions@.len() > 0 || conflict;
            &&& news ==> after.stop_nudges == 0 && after.session_alert is None
            &&& !news ==> after.stop_nudges == before.stop_nudges && after.session_alert
                == before.session_alert
            &&& before.pr_outcome is None && before.phase == Phase::Review ==> after.attention
                == Attention::WaitingOnUser
            &&& before.pr_outcome is None && before.phase != Phase::Review && news
                ==> after.attention == Attention::WaitingOnClaude
            &&& before.pr_outcome is None && before.phase != Phase::Review && !news
                ==> after.attention == before.attention
            &&& before.pr_outcome is Some ==> after.attention == before.attention
        }),
        after.phase == before.phase,
        after.prep == before.prep,
        after.consumed_directives == before.consumed_directives,
        after.consumed_reactions == before.consumed_reactions,
        after.intro_posted == before.intro_posted,
        after.last_posted == before.last_posted,
{
}

/// What counts as news is everything but ignored input.
pub proof fn ignored_input_is_no_news(found: &Found, r: bool)
    requires
        call_ensures(Found::activity, (found,), r),
    ensures
        found.transitions || found.notes || found.body_changed || found.issue_comments
            || found.pr_comments || found.review_comments || found.submissions || found.conflict
            <==> r,
{
}

/// The newest of the posts is remembered, and that the issue was introduced; nothing
/// that was posted keeps what was remembered.
pub proof fn the_newest_post_is_remembered(
    before: IssueState,
    on_issue: Option<&Comment>,
    on_pr: Option<&Comment>,
    after: IssueState,
)
    requires
        exists|g: &mut IssueState| #[trigger]
            call_ensures(run::record_posts, (g, on_issue, on_pr), ()) && *g == before && *final(g)
                == after,
    ensures
        after.intro_posted,
        on_issue is None && on_pr is None ==> after.last_posted == before.last_posted,
        on_issue is Some && on_pr is None ==> after.last_posted is Some && after.last_posted->0.id
            == on_issue->0.id && after.last_posted->0.created_at == on_issue->0.created_at,
        on_issue is None && on_pr is Some ==> after.last_posted is Some && after.last_posted->0.id
            == on_pr->0.id && after.last_posted->0.created_at == on_pr->0.created_at,
        on_issue is Some && on_pr is Some ==> after.last_posted is Some && (after.last_posted->0.id
            == on_issue->0.id || after.last_posted->0.id == on_pr->0.id) && text::le(
            on_issue->0.created_at@,
            after.last_posted->0.created_at@,
        ) && text::le(on_pr->0.created_at@, after.last_posted->0.created_at@),
        after.phase == before.phase,
        after.attention == before.attention,
        after.wait == before.wait,
{
    if on_issue is Some && on_pr is Some {
        let a = on_issue->0.created_at@;
        let b = on_pr->0.created_at@;
        text::lemma_le_total(a, b);
        text::lemma_le_reflexive(a);
        text::lemma_le_reflexive(b);
    }
}

/// The work of a run is that of its phase, and none once the PR has ended.
pub proof fn phase_work_follows_the_phase(state: &IssueState, r: PhaseWork, checked: bool)
    requires
        state.phase == Phase::Finished ==> state.pr_outcome is Some,
        call_ensures(work_on::phase_work, (state,), r),
        call_ensures(work_on::checks_base, (state, state.phase), checked),
    ensures
        state.pr_outcome is Some <==> r is Concluded,
        r matches PhaseWork::Concluded(o) ==> state.pr_outcome == Some(o),
        state.pr_outcome is None && state.phase == Phase::PrePlan ==> r is PrePlan && !checked,
        state.pr_outcome is None && state.phase == Phase::PrepAndPlan ==> r is PrepAndPlan
            && !checked,
        state.pr_outcome is None && state.phase == Phase::Implement ==> r is Implement && checked,
        state.pr_outcome is None && state.phase == Phase::Review ==> r is Review && checked,
        state.pr_outcome is Some ==> !checked,
{
}

/// A worktree is made for an issue that is worked on a branch and has none yet.
pub proof fn a_branch_gets_one_worktree(no_branch: bool, state: &IssueState, r: bool)
    requires
        call_ensures(work_on::creates_worktree, (no_branch, state), r),
    ensures
        no_branch ==> !r,
        !no_branch && state.prep is None ==> r,
        state.prep is Some && state.prep->0.no_branch ==> !r,
        state.prep is Some && state.prep->0.branch is Some ==> !r,
        !no_branch && state.prep is Some && !state.prep->0.no_branch && state.prep->0.branch is None
            ==> r,
{
}

/// The plan goes where that is configured and the PR was just marked ready, from the
/// worktree and branch on record.
pub proof fn the_plan_goes_when_the_pr_is_ready(
    configured: bool,
    transitions: &[Transition],
    r: bool,
    state: &IssueState,
    at: Option<(String, String)>,
)
    requires
        call_ensures(work_on::deletes_plan, (configured, transitions), r),
        call_ensures(work_on::maybe_delete_plan, (state,), at),
    ensures
        r <==> configured && exists|i: int|
            0 <= i < transitions@.len() && (#[trigger] transitions@[i]).trigger is PrReady,
        at is Some <==> state.prep is Some && !state.prep->0.no_branch
            && state.prep->0.worktree_path is Some && state.prep->0.branch is Some,
        at is Some ==> (at->0).0@ == state.prep->0.worktree_path->0@ && (at->0).1@
            == state.prep->0.branch->0@,
{
}

/// The session that works in the worktree is the one to resume there.
pub proof fn the_worktrees_session_is_recorded(
    before: PrepState,
    inside: bool,
    session_id: &str,
    after: PrepState,
)
    requires
        exists|g: &mut PrepState| #[trigger]
            call_ensures(work_on::record_session, (g, inside, session_id), ()) && *g == before
                && *final(g) == after,
    ensures
        inside && before.worktree_path is Some ==> after.worktree_session_id is Some
            && after.worktree_session_id->0@ == session_id@,
        !inside || before.worktree_path is None ==> after.worktree_session_id
            == before.worktree_session_id,
        after.branch == before.branch,
        after.worktree_path == before.worktree_path,
        after.pr_number == before.pr_number,
        after.no_branch == before.no_branch,
{
}

/// The full status update goes to the issue while planning and to the PR once there is
/// code, and the other thread, where there is a PR, gets a pointer to it.
pub proof fn updates_go_to_the_thread_of_the_phase(phase: Phase, has_pr: bool, r: StatusThreads)
    requires
        call_ensures(work_on::status_threads, (phase, has_pr), r),
    ensures
        !has_pr ==> r.primary == Thread::Issue && r.secondary is None,
        has_pr && (phase == Phase::PrePlan || phase == Phase::PrepAndPlan) ==> r.primary
            == Thread::Issue && r.secondary == Some(Thread::Pr),
        has_pr && !(phase == Phase::PrePlan || phase == Phase::PrepAndPlan) ==> r.primary
            == Thread::Pr && r.secondary == Some(Thread::Issue),
{
}

/// A notice leads a body, with a blank line between them.
pub proof fn notices_lead(notice: Option<String>, body: String, r: String)
    requires
        call_ensures(work_on::led_by, (notice, body), r),
    ensures
        notice is None ==> r@ == body@,
        notice is Some ==> r@ == notice->0@ + "\n\n"@ + body@,
{
}

/// A lookup of collaborators is needed on a thread where a 👍 that was not taken yet is
/// from someone who is neither the operator nor allowed.
pub proof fn collaborators_are_looked_up_for_thumbs(
    state: &IssueState,
    access: &AccessList,
    prompts: &[PromptThumbs],
    r: (bool, bool),
    i: int,
    j: int,
)
    requires
        call_ensures(work_on::collaborators_needed, (state, access, prompts), r),
        0 <= i < prompts@.len(),
        0 <= j < prompts@[i].reactions@.len(),
        prompts@[i].reactions@[j].content@ == "+1"@,
        !state.consumed_reactions@.contains(prompts@[i].reactions@[j].id),
        !trusted(*access, prompts@[i].reactions@[j].user.login@),
    ensures
        prompts@[i].source@ == "PR"@ ==> r.1,
        prompts@[i].source@ != "PR"@ ==> r.0,
{
    assert(work_on::hinges(*state, *access, prompts@[i], j));
}

} // verus!
