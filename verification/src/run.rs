//! One run over an issue, from what was fetched to what is printed and
//! remembered.

use vstd::prelude::*;

use crate::access::AccessList;
use crate::github::RepoRef;
use crate::models::{Comment, Issue, PullRequest, ReviewComment};
use crate::render::{self, CommentView, IgnoredInput, ReviewCommentView, Transition, Trigger};
use crate::seen::{self, SeenRecord};
use crate::state::{self, IssueState, Phase, PrOutcome, WaitState};
use crate::text;
use crate::threads::{self, OptionSubmission, PendingSubmission};
use crate::work_on::{self, Found, StatusThreads};
use crate::workflow::{self, AdvanceOutcome, PromptThumbs};

verus! {

/// What was fetched for a run. The PR's parts are absent while there is no PR.
pub struct Fetched<'a> {
    pub issue: &'a Issue,
    pub issue_comments: &'a [Comment],
    pub pr: Option<&'a PullRequest>,
    pub pr_comments: Option<&'a [Comment]>,
    pub review_comments: Option<&'a [ReviewComment]>,
    pub thumbs: &'a [PromptThumbs],
}

/// What the approvals and the PR's state did.
pub struct Advanced {
    pub outcome: AdvanceOutcome,
    /// How the PR left the open state, where it did so since the last run.
    pub new_conclusion: Option<PrOutcome>,
}

/// The state with the issue's and the PR's own state taken over.
pub open spec fn observed(state: IssueState, f: Fetched) -> IssueState {
    IssueState {
        issue_closed: f.issue.state@ != "open"@,
        pr_outcome: match f.pr {
            Some(pr) => state::outcome_of(*pr),
            None => None,
        },
        ..state
    }
}

/// Where the approvals lead from a state.
pub open spec fn approved(
    state: IssueState,
    f: Fetched,
    access: AccessList,
    issue_repo: RepoRef,
    code_repo: RepoRef,
) -> workflow::Progress {
    workflow::run(
        workflow::standing(state),
        workflow::in_order(
            workflow::all_events(
                f.issue_comments@,
                workflow::comments_of(f.pr_comments),
                f.thumbs@,
                access,
                issue_repo,
                code_repo,
            ),
        ),
    )
}

/// The PR was marked ready while its branch was being implemented.
pub open spec fn became_ready(phase: Phase, outcome: Option<PrOutcome>, f: Fetched) -> bool {
    phase == Phase::Implement && outcome is None && f.pr is Some && !f.pr->0.draft
}

/// `state` and `r` are where a run leads from `before`.
pub open spec fn is_advanced(
    before: IssueState,
    f: Fetched,
    access: AccessList,
    issue_repo: RepoRef,
    code_repo: RepoRef,
    after: IssueState,
    r: Advanced,
) -> bool {
    let mid = observed(before, f);
    let p = approved(mid, f, access, issue_repo, code_repo);
    let ready = became_ready(p.phase, mid.pr_outcome, f);
    &&& after.phase == (if mid.pr_outcome == Some(PrOutcome::Merged) {
        Phase::Finished
    } else if ready {
        Phase::Review
    } else {
        p.phase
    })
    &&& after.consumed_directives@ == p.directives
    &&& after.consumed_reactions@ == p.reactions
    &&& workflow::same_otherwise(after, mid)
    &&& r.outcome.transitions@ == (if ready {
        p.transitions.push(
            Transition { from: Phase::Implement, to: Phase::Review, trigger: Trigger::PrReady },
        )
    } else {
        p.transitions
    })
    &&& r.outcome.notes@ == p.notes
    &&& r.outcome.ignored@ == p.ignored
    &&& r.new_conclusion == (if mid.pr_outcome != before.pr_outcome {
        mid.pr_outcome
    } else {
        None
    })
}

/// Take over the issue's and the PR's own state, process the approvals, and
/// advance where the PR was marked ready. A merged PR finishes the workflow, after
/// directive processing, so a merge never suppresses a transition of this run.
pub fn advance(
    state: &mut IssueState,
    f: &Fetched,
    access: &AccessList,
    issue_repo: &RepoRef,
    code_repo: &RepoRef,
) -> (r: Advanced)
    ensures
        is_advanced(*old(state), *f, *access, *issue_repo, *code_repo, *final(state), r),
{
    let ghost before = *state;
    let new_conclusion = workflow::note_conclusion(state, f.issue.state.as_str(), f.pr);
    assert(*state == observed(before, *f));
    let mut outcome = workflow::advance_phase(
        state,
        f.issue_comments,
        f.pr_comments,
        f.thumbs,
        access,
        issue_repo,
        code_repo,
    );
    workflow::advance_on_pr_ready(state, f.pr, &mut outcome);
    workflow::finish_if_merged(state);
    Advanced { outcome, new_conclusion }
}

/// Running again over the same input changes nothing and reports nothing, even where
/// the access list has changed by then: every approval was taken once, and the PR's
/// readiness and conclusion were noted.
pub proof fn repeated_runs_report_nothing(
    before: IssueState,
    f: Fetched,
    access: AccessList,
    later_access: AccessList,
    issue_repo: RepoRef,
    code_repo: RepoRef,
    after: IssueState,
    r: Advanced,
    again: IssueState,
    r_again: Advanced,
)
    requires
        is_advanced(before, f, access, issue_repo, code_repo, after, r),
        is_advanced(after, f, later_access, issue_repo, code_repo, again, r_again),
    ensures
        again.phase == after.phase,
        again.consumed_directives@ == after.consumed_directives@,
        again.consumed_reactions@ == after.consumed_reactions@,
        r_again.outcome.transitions@.len() == 0,
        r_again.outcome.notes@.len() == 0,
        r_again.outcome.ignored@.len() == 0,
        r_again.new_conclusion is None,
{
    let made = workflow::all_events(
        f.issue_comments@,
        workflow::comments_of(f.pr_comments),
        f.thumbs@,
        access,
        issue_repo,
        code_repo,
    );
    let remade = workflow::all_events(
        f.issue_comments@,
        workflow::comments_of(f.pr_comments),
        f.thumbs@,
        later_access,
        issue_repo,
        code_repo,
    );
    workflow::lemma_events_alike(
        f.issue_comments@,
        workflow::comments_of(f.pr_comments),
        f.thumbs@,
        later_access,
        access,
        issue_repo,
        code_repo,
    );
    workflow::lemma_order_alike(remade, made);
    let events = workflow::in_order(made);
    let later = workflow::in_order(remade);
    let start = workflow::standing(observed(before, f));
    let q = workflow::standing(observed(after, f));
    assert forall|i: int|
        0 <= i < later.len() && later[i].directive is Some implies workflow::is_consumed(
        q,
        #[trigger] later[i],
    ) by {
        assert(workflow::alike(later[i], events[i]));
        workflow::every_approval_is_consumed(start, events, i);
    }
    workflow::lemma_consumed_do_nothing(q, later);
}

/// The status update of a run: its body, and where it goes.
pub struct StatusUpdate {
    pub body: String,
    pub threads: StatusThreads,
}

/// The URL in its mathematical form.
pub open spec fn url_seen(url: Option<&str>) -> Option<Seq<char>> {
    match url {
        Some(url) => Some(url@),
        None => None,
    }
}

/// The status update to post when something user-visible happened: first
/// engagement, a phase transition, a misfired directive, or a conclusion. Nothing
/// otherwise.
pub fn status_update(
    agent: &str,
    state: &IssueState,
    advanced: &Advanced,
    pr_url: Option<&str>,
    has_pr: bool,
) -> (r: Option<StatusUpdate>)
    ensures
        ({
            let text = render::status_text(
                agent@,
                state.phase,
                advanced.outcome.transitions@,
                advanced.outcome.notes@,
                !state.intro_posted,
                url_seen(pr_url),
                advanced.new_conclusion,
            );
            match r {
                Some(update) => {
                    &&& text is Some && update.body@ == render::status_body(text->0)
                    &&& update.threads.primary == (if has_pr && render::primary_is_pr(
                        state.phase,
                    ) {
                        work_on::Thread::Pr
                    } else {
                        work_on::Thread::Issue
                    })
                    &&& update.threads.secondary is Some == has_pr
                    &&& has_pr ==> update.threads.secondary != Some(update.threads.primary)
                },
                None => text is None,
            }
        }),
{
    let prose = render::render_status_comment(
        agent,
        state.phase,
        advanced.outcome.transitions.as_slice(),
        advanced.outcome.notes.as_slice(),
        !state.intro_posted,
        pr_url,
        advanced.new_conclusion,
    );
    match prose {
        Some(prose) => Some(
            StatusUpdate {
                body: render::build_status_comment_body(prose.as_str()),
                threads: work_on::status_threads(state.phase, has_pr),
            },
        ),
        None => None,
    }
}

/// Remember the status update that was posted: the newest of its posts, and that
/// the issue has been introduced.
pub fn record_posts(
    state: &mut IssueState,
    on_issue: Option<&Comment>,
    on_pr: Option<&Comment>,
)
    ensures
        *final(state) == (IssueState {
            intro_posted: true,
            last_posted: match work_on::newest(on_issue, on_pr) {
                Some(post) => Some(post),
                None => old(state).last_posted,
            },
            ..*old(state)
        }),
{
    match work_on::newest_post(on_issue, on_pr) {
        Some(post) => {
            state.last_posted = Some(post);
        },
        None => {},
    }
    state.intro_posted = true;
}

/// The review comments that may not have been fetched.
pub open spec fn reviews_of(comments: Option<&[ReviewComment]>) -> Seq<ReviewComment> {
    match comments {
        Some(comments) => comments@,
        None => seq![],
    }
}

/// A thread's watches are those for its comments.
pub open spec fn watches(
    watch: state::ThreadWatch,
    comments: Seq<Comment>,
    posted: Option<&Comment>,
    thumbs: Seq<PromptThumbs>,
    my_token: Seq<char>,
) -> bool {
    let all = threads::with_posted(comments, posted);
    let prompt = threads::latest_prompt(all);
    let question = threads::open_question(comments, my_token);
    &&& match watch.reactions {
        Some(w) => 0 <= prompt < all.len() && w.comment_id == all[prompt].id && w.plus_one_ids@
            == threads::baseline(thumbs, all[prompt].id),
        None => prompt < 0,
    }
    &&& match watch.options {
        Some(w) => 0 <= question < comments.len() && w.comment_id == comments[question].id,
        None => question < 0,
    }
}

/// The baseline of a run: what it saw of the issue and of every comment, the latest
/// moment among them, and what is watched on each thread.
pub open spec fn is_baseline(
    f: Fetched,
    posted_issue: Option<&Comment>,
    posted_pr: Option<&Comment>,
    my_token: Seq<char>,
    w: WaitState,
) -> bool {
    let pr_comments = workflow::comments_of(f.pr_comments);
    &&& w.since@ == work_on::latest_review(
        work_on::latest_update(
            work_on::latest_update(f.issue.updated_at@, f.issue_comments@),
            pr_comments,
        ),
        reviews_of(f.review_comments),
    )
    &&& seen::hashes(w.comments@) == seen::with_comments(
        seen::with_comments(Map::empty(), f.issue_comments@),
        pr_comments,
    )
    &&& seen::hashes(w.review_comments@) == seen::with_reviews(
        Map::empty(),
        reviews_of(f.review_comments),
    )
    &&& w.issue_fingerprint@ == work_on::fingerprint(*f.issue)
    &&& w.pr_draft == (match f.pr {
        Some(pr) => Some(pr.draft),
        None => None,
    })
    &&& watches(w.issue, f.issue_comments@, posted_issue, f.thumbs@, my_token)
    &&& watches(w.pr, pr_comments, posted_pr, f.thumbs@, my_token)
    &&& w.etags@.len() == 0
}

/// The watches of a thread.
fn watch_thread(
    comments: &[Comment],
    posted: Option<&Comment>,
    thumbs: &[PromptThumbs],
    my_token: &str,
    noun: &'static str,
    repo: &RepoRef,
) -> (r: (state::ThreadWatch, Vec<PendingSubmission>))
    ensures
        watches(r.0, comments@, posted, thumbs@, my_token@),
        threads::submission_views(r.1@) == threads::submissions_in(
            comments@,
            my_token@,
            noun,
            *repo,
        ),
{
    let reactions = threads::latest_prompt_watch(comments, posted, thumbs);
    let (submissions, options) = threads::scan_options(comments, my_token, noun, repo);
    (state::ThreadWatch { reactions, options }, submissions)
}

/// A baseline, and the answers that were submitted.
pub struct Baseline {
    pub wait: WaitState,
    pub submissions: Vec<PendingSubmission>,
}

/// Make the wait baseline of a run from everything it fetched, and find the answers
/// the user has just submitted. A status comment posted this run is the newest
/// prompt on its thread.
pub fn baseline(
    f: &Fetched,
    posted_issue: Option<&Comment>,
    posted_pr: Option<&Comment>,
    my_token: &str,
    issue_repo: &RepoRef,
    code_repo: &RepoRef,
) -> (r: Baseline)
    ensures
        is_baseline(*f, posted_issue, posted_pr, my_token@, r.wait),
        threads::submission_views(r.submissions@) == threads::submissions_in(
            f.issue_comments@,
            my_token@,
            "issue thread",
            *issue_repo,
        ) + threads::submissions_in(
            workflow::comments_of(f.pr_comments),
            my_token@,
            "PR thread",
            *code_repo,
        ),
{
    let empty: Vec<Comment> = Vec::new();
    let pr_comments: &[Comment] = match f.pr_comments {
        Some(comments) => comments,
        None => empty.as_slice(),
    };
    assert(pr_comments@ =~= workflow::comments_of(f.pr_comments));
    let no_reviews: Vec<ReviewComment> = Vec::new();
    let reviews: &[ReviewComment] = match f.review_comments {
        Some(comments) => comments,
        None => no_reviews.as_slice(),
    };
    assert(reviews@ =~= reviews_of(f.review_comments));
    let start = work_on::start_baseline(f.issue, f.pr);
    assert(seen::hashes(start.comments@) =~= Map::<u64, Seq<char>>::empty());
    assert(seen::hashes(start.review_comments@) =~= Map::<u64, Seq<char>>::empty());
    let with_issue = work_on::fold_comments(start, f.issue_comments);
    let with_pr = work_on::fold_comments(with_issue, pr_comments);
    let mut wait = work_on::fold_reviews(with_pr, reviews);
    let (issue_watch, issue_answers) = watch_thread(
        f.issue_comments,
        posted_issue,
        f.thumbs,
        my_token,
        "issue thread",
        issue_repo,
    );
    let (pr_watch, pr_answers) = watch_thread(
        pr_comments,
        posted_pr,
        f.thumbs,
        my_token,
        "PR thread",
        code_repo,
    );
    wait.issue = issue_watch;
    wait.pr = pr_watch;
    let mut submissions = issue_answers;
    let mut more = pr_answers;
    let ghost first = submissions@;
    let ghost second = more@;
    submissions.append(&mut more);
    assert(threads::submission_views(submissions@) =~= threads::submission_views(first)
        + threads::submission_views(second));
    Baseline { wait, submissions }
}

/// What is new to a session.
pub struct News<'a> {
    pub body_changed: bool,
    pub issue_comments: Vec<CommentView<'a>>,
    pub pr_comments: Vec<CommentView<'a>>,
    pub review_comments: Vec<ReviewCommentView<'a>>,
    /// Input of authors who may not feed the session.
    pub ignored: Vec<IgnoredInput>,
}

/// What is new to a session that has seen what the record says.
pub open spec fn is_news(
    f: Fetched,
    record: SeenRecord,
    my_token: Seq<char>,
    access: AccessList,
    n: News,
) -> bool {
    let pr_comments = workflow::comments_of(f.pr_comments);
    let reviews = reviews_of(f.review_comments);
    &&& n.body_changed == !(record.issue_body_hash is Some && record.issue_body_hash->0@
        == seen::body_hash(f.issue.body))
    &&& threads::new_comment_views(n.issue_comments@) == threads::new_comments(
        f.issue_comments@,
        record.comments@,
        my_token,
        access,
    )
    &&& threads::new_comment_views(n.pr_comments@) == threads::new_comments(
        pr_comments,
        record.comments@,
        my_token,
        access,
    )
    &&& threads::new_review_views(n.review_comments@) == threads::new_reviews(
        reviews,
        record.review_comments@,
        my_token,
        access,
    )
    &&& n.ignored@ == threads::ignored_comments(
        f.issue_comments@,
        record.comments@,
        my_token,
        access,
        "issue",
    ) + threads::ignored_comments(pr_comments, record.comments@, my_token, access, "PR")
        + threads::ignored_reviews(reviews, record.review_comments@, my_token, access)
}

/// The record holds everything that `f` does.
pub open spec fn is_recorded(f: Fetched, record: SeenRecord) -> bool {
    &&& record.issue_body_hash is Some && record.issue_body_hash->0@ == seen::body_hash(
        f.issue.body,
    )
    &&& seen::hashes(record.comments@) == seen::with_comments(
        seen::with_comments(Map::empty(), f.issue_comments@),
        workflow::comments_of(f.pr_comments),
    )
    &&& f.review_comments is Some ==> seen::hashes(record.review_comments@) == seen::with_reviews(
        Map::empty(),
        f.review_comments->0@,
    )
}

/// No thread that was recorded holds news.
pub proof fn lemma_recorded_threads_are_silent(
    first: Seq<Comment>,
    second: Seq<Comment>,
    seen: Map<u64, String>,
    my_token: Seq<char>,
    access: AccessList,
    noun: &'static str,
)
    requires
        seen::distinct_ids(first + second),
        seen::hashes(seen) == seen::with_comments(
            seen::with_comments(Map::empty(), first),
            second,
        ),
    ensures
        threads::new_comments(first, seen, my_token, access).len() == 0,
        threads::new_comments(second, seen, my_token, access).len() == 0,
        threads::ignored_comments(first, seen, my_token, access, noun).len() == 0,
        threads::ignored_comments(second, seen, my_token, access, noun).len() == 0,
{
    let all = first + second;
    seen::lemma_with_comments_joined(Map::empty(), first, second);
    assert forall|k: int| 0 <= k < first.len() implies !threads::is_news(
        seen,
        my_token,
        (#[trigger] first[k]).id,
        first[k].body@,
    ) by {
        assert(all[k] == first[k]);
        seen::recorded_comments_are_not_news(Map::empty(), all, seen, my_token, k);
    }
    assert forall|k: int| 0 <= k < second.len() implies !threads::is_news(
        seen,
        my_token,
        (#[trigger] second[k]).id,
        second[k].body@,
    ) by {
        assert(all[first.len() + k] == second[k]);
        seen::recorded_comments_are_not_news(Map::empty(), all, seen, my_token, first.len() + k);
    }
    threads::a_thread_without_news_is_silent(first, seen, my_token, access, noun);
    threads::a_thread_without_news_is_silent(second, seen, my_token, access, noun);
}

/// No inline review comment that was recorded is news.
pub proof fn lemma_recorded_reviews_are_silent(
    reviews: Seq<ReviewComment>,
    seen: Map<u64, String>,
    my_token: Seq<char>,
    access: AccessList,
)
    requires
        seen::distinct_review_ids(reviews),
        seen::hashes(seen) == seen::with_reviews(Map::empty(), reviews),
    ensures
        threads::new_reviews(reviews, seen, my_token, access).len() == 0,
        threads::ignored_reviews(reviews, seen, my_token, access).len() == 0,
{
    assert forall|k: int| 0 <= k < reviews.len() implies !threads::is_news(
        seen,
        my_token,
        (#[trigger] reviews[k]).id,
        reviews[k].body@,
    ) by {
        seen::recorded_reviews_are_not_news(Map::empty(), reviews, seen, my_token, k);
    }
    threads::reviews_without_news_are_silent(reviews, seen, my_token, access);
}

/// What a run has shown and recorded is not news to the next.
pub proof fn a_second_look_has_no_news(
    f: Fetched,
    record: SeenRecord,
    my_token: Seq<char>,
    access: AccessList,
    n: News,
)
    requires
        seen::distinct_ids(f.issue_comments@ + workflow::comments_of(f.pr_comments)),
        seen::distinct_review_ids(reviews_of(f.review_comments)),
        is_recorded(f, record),
        is_news(f, record, my_token, access, n),
    ensures
        !n.body_changed,
        n.issue_comments@.len() == 0,
        n.pr_comments@.len() == 0,
        n.review_comments@.len() == 0,
        n.ignored@.len() == 0,
{
    let pr_comments = workflow::comments_of(f.pr_comments);
    let reviews = reviews_of(f.review_comments);
    lemma_recorded_threads_are_silent(
        f.issue_comments@,
        pr_comments,
        record.comments@,
        my_token,
        access,
        "issue",
    );
    lemma_recorded_threads_are_silent(
        f.issue_comments@,
        pr_comments,
        record.comments@,
        my_token,
        access,
        "PR",
    );
    if f.review_comments is Some {
        lemma_recorded_reviews_are_silent(reviews, record.review_comments@, my_token, access);
    } else {
        threads::reviews_without_news_are_silent(
            reviews,
            record.review_comments@,
            my_token,
            access,
        );
    }
    assert(threads::new_comment_views(n.issue_comments@).len() == n.issue_comments@.len());
    assert(threads::new_comment_views(n.pr_comments@).len() == n.pr_comments@.len());
    assert(threads::new_review_views(n.review_comments@).len() == n.review_comments@.len());
}

/// Find what is new to a session that has seen what the record says.
pub fn news<'a>(
    f: &Fetched<'a>,
    record: &SeenRecord,
    my_token: &str,
    access: &AccessList,
) -> (r: News<'a>)
    ensures
        is_news(*f, *record, my_token@, *access, r),
{
    let body_changed = seen::body_changed(record, &f.issue.body);
    let (issue_comments, issue_ignored) = threads::collect_new_comments(
        f.issue_comments,
        &record.comments,
        my_token,
        access,
        "issue",
    );
    let (pr_comments, pr_ignored) = match f.pr_comments {
        Some(comments) => threads::collect_new_comments(
            comments,
            &record.comments,
            my_token,
            access,
            "PR",
        ),
        None => (Vec::new(), Vec::new()),
    };
    proof {
        if f.pr_comments is None {
            assert(threads::new_comment_views(pr_comments@) =~= seq![]);
            assert(pr_ignored@ =~= seq![]);
        }
    }
    let (review_comments, review_ignored) = match f.review_comments {
        Some(comments) => threads::collect_new_reviews(
            comments,
            &record.review_comments,
            my_token,
            access,
        ),
        None => (Vec::new(), Vec::new()),
    };
    proof {
        if f.review_comments is None {
            assert(threads::new_review_views(review_comments@) =~= seq![]);
            assert(review_ignored@ =~= seq![]);
        }
    }
    let mut ignored = issue_ignored;
    let mut of_pr = pr_ignored;
    let mut of_reviews = review_ignored;
    ignored.append(&mut of_pr);
    ignored.append(&mut of_reviews);
    News { body_changed, issue_comments, pr_comments, review_comments, ignored }
}

/// Something is new: an approval (fired or noted), the issue's body, a comment, an
/// answer, or a standing conflict. Ignored input does not count.
pub open spec fn anything_new(advanced: Advanced, n: News, answers: nat, conflict: bool) -> bool {
    advanced.outcome.transitions@.len() > 0 || advanced.outcome.notes@.len() > 0 || n.body_changed
        || n.issue_comments@.len() > 0 || n.pr_comments@.len() > 0 || n.review_comments@.len() > 0
        || answers > 0 || conflict
}

/// Settle the state after a run: whose turn it is, and the baseline to wait from.
pub fn settle_run(
    state: &mut IssueState,
    advanced: &Advanced,
    n: &News,
    made: Baseline,
    conflict: bool,
) -> (r: Vec<PendingSubmission>)
    ensures
        r@ == made.submissions@,
        ({
            let activity = anything_new(*advanced, *n, made.submissions@.len(), conflict);
            *final(state) == (IssueState {
                stop_nudges: if activity {
                    0
                } else {
                    old(state).stop_nudges
                },
                session_alert: if activity {
                    None
                } else {
                    old(state).session_alert
                },
                attention: work_on::turn_after(*old(state), activity),
                wait: Some(made.wait),
                ..*old(state)
            })
        }),
{
    let found = Found {
        transitions: advanced.outcome.transitions.len() > 0,
        notes: advanced.outcome.notes.len() > 0,
        body_changed: n.body_changed,
        issue_comments: n.issue_comments.len() > 0,
        pr_comments: n.pr_comments.len() > 0,
        review_comments: n.review_comments.len() > 0,
        submissions: made.submissions.len() > 0,
        conflict,
    };
    work_on::settle(state, found.activity());
    state.wait = Some(made.wait);
    made.submissions
}

/// The labels, each on a line of its own behind a box.
pub open spec fn boxes(labels: Seq<Seq<char>>, mark: Seq<char>) -> Seq<char>
    decreases labels.len(),
{
    if labels.len() == 0 {
        seq![]
    } else {
        boxes(labels.drop_last(), mark) + mark + labels.last() + "\n"@
    }
}

/// The labels, each on a line of its own behind a box.
fn box_lines(labels: &Vec<String>, mark: &str) -> (r: String)
    ensures
        r@ == boxes(text::views(labels@), mark@),
{
    let ghost all = text::views(labels@);
    let mut out = String::new();
    let mut i: usize = 0;
    assert(all.take(0) =~= seq![]);
    while i < labels.len()
        invariant
            i <= labels.len(),
            all == text::views(labels@),
            out@ == boxes(all.take(i as int), mark@),
        decreases labels.len() - i,
    {
        assert(all.take(i + 1).drop_last() =~= all.take(i as int));
        assert(all.take(i + 1).last() == labels@[i as int]@);
        out.append(mark);
        out.append(labels[i].as_str());
        out.append("\n");
        i = i + 1;
    }
    assert(all.take(all.len() as int) =~= all);
    out
}

/// What is said of an answer.
pub open spec fn answer_text(s: OptionSubmission) -> Seq<char> {
    "Submitted answer on the "@ + s.thread_noun@ + " ("@ + s.url@ + "):\n"@ + boxes(
        text::views(s.selected@),
        "- [x] "@,
    ) + boxes(text::views(s.unselected@), "- [ ] "@)
}

/// Show an answer that the user has submitted.
pub fn render_answer(s: &OptionSubmission) -> (r: String)
    ensures
        r@ == answer_text(*s),
{
    let mut out = text::copy("Submitted answer on the ");
    out.append(s.thread_noun);
    out.append(" (");
    out.append(s.url.as_str());
    out.append("):\n");
    out.append(box_lines(&s.selected, "- [x] ").as_str());
    out.append(box_lines(&s.unselected, "- [ ] ").as_str());
    out
}

/// The answers, one after another.
pub open spec fn answer_texts(answers: Seq<PendingSubmission>) -> Seq<char>
    decreases answers.len(),
{
    if answers.len() == 0 {
        seq![]
    } else {
        answer_texts(answers.drop_last()) + answer_text(answers.last().view) + "\n"@
    }
}

/// Show the answers that the user has submitted.
fn render_answers(answers: &[PendingSubmission]) -> (r: String)
    ensures
        r@ == answer_texts(answers@),
{
    let mut out = String::new();
    let mut i: usize = 0;
    assert(answers@.take(0) =~= seq![]);
    while i < answers.len()
        invariant
            i <= answers.len(),
            out@ == answer_texts(answers@.take(i as int)),
        decreases answers.len() - i,
    {
        assert(answers@.take(i + 1).drop_last() =~= answers@.take(i as int));
        assert(answers@.take(i + 1).last() == answers@[i as int]);
        out.append(render_answer(&answers[i].view).as_str());
        out.append("\n");
        i = i + 1;
    }
    assert(answers@.take(answers@.len() as int) =~= answers@);
    out
}

/// The session has something new to read.
pub open spec fn has_news(n: News) -> bool {
    n.body_changed || n.issue_comments@.len() > 0 || n.pr_comments@.len() > 0
        || n.review_comments@.len() > 0
}

/// What a run prints: the banner, the input that was passed over, the answers, and
/// the digest of what is new. That nothing is new is said only where there is no
/// answer either.
pub open spec fn report_text(
    phase: Phase,
    advanced: Advanced,
    status_posted: bool,
    body: Seq<char>,
    f: Fetched,
    pr_number: Option<u64>,
    n: News,
    answers: Seq<PendingSubmission>,
) -> Seq<char> {
    render::banner(
        phase,
        advanced.outcome.transitions@,
        advanced.outcome.notes@,
        status_posted,
        body,
    ) + "\n\n"@ + render::ignored_lines(advanced.outcome.ignored@) + render::ignored_lines(
        n.ignored@,
    ) + answer_texts(answers) + (if answers.len() > 0 && !has_news(n) {
        seq![]
    } else {
        render::digest(
            *f.issue,
            n.body_changed,
            n.issue_comments@,
            pr_number,
            n.pr_comments@,
            n.review_comments@,
        )
    })
}

/// What a run prints.
pub fn report(
    phase: Phase,
    advanced: &Advanced,
    status_posted: bool,
    body: &str,
    f: &Fetched,
    pr_number: Option<u64>,
    n: &News,
    answers: &[PendingSubmission],
) -> (r: String)
    ensures
        r@ == report_text(
            phase,
            *advanced,
            status_posted,
            body@,
            *f,
            pr_number,
            *n,
            answers@,
        ),
{
    let mut out = render::render_phase_banner(
        phase,
        advanced.outcome.transitions.as_slice(),
        advanced.outcome.notes.as_slice(),
        status_posted,
        body,
    );
    out.append("\n\n");
    out.append(render::render_ignored(advanced.outcome.ignored.as_slice()).as_str());
    out.append(render::render_ignored(n.ignored.as_slice()).as_str());
    out.append(render_answers(answers).as_str());
    let quiet = !n.body_changed && n.issue_comments.len() == 0 && n.pr_comments.len() == 0
        && n.review_comments.len() == 0;
    if answers.len() == 0 || !quiet {
        out.append(
            render::render_work_on(
                f.issue,
                n.body_changed,
                n.issue_comments.as_slice(),
                pr_number,
                n.pr_comments.as_slice(),
                n.review_comments.as_slice(),
            ).as_str(),
        );
    }
    assert(out@ =~= report_text(
        phase,
        *advanced,
        status_posted,
        body@,
        *f,
        pr_number,
        *n,
        answers@,
    ));
    out
}

} // verus!
