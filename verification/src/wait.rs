//! Waiting until something happens on an issue or its PR.

use vstd::prelude::*;

use crate::access::AccessList;
use crate::implement::BaseSync;
use crate::models::{Comment, Issue, PullRequest, Reaction, ReviewComment};
use crate::next::BACKOFF_CAP;
use crate::options;
use crate::render;
use crate::run;
use crate::seen;
use crate::state::{self, OptionsWatch, Phase, PrOutcome, ReactionWatch, WaitState};
use crate::store;
use crate::text;
use crate::threads;
use crate::work_on;
use crate::workflow;

verus! {

/// What a poll saw of an issue and its PR.
pub struct Polled<'a> {
    pub issue: &'a Issue,
    pub issue_comments: &'a [Comment],
    pub pr: Option<&'a PullRequest>,
    pub pr_comments: &'a [Comment],
    pub review_comments: &'a [ReviewComment],
    /// The reactions to the prompt watched on each thread.
    pub issue_reactions: &'a [Reaction],
    pub pr_reactions: &'a [Reaction],
}

/// A 👍 that was not there before approves the watched prompt.
pub open spec fn thumbed(
    watch: Option<ReactionWatch>,
    reactions: Seq<Reaction>,
    access: AccessList,
) -> bool {
    watch is Some && exists|i: int|
        0 <= i < reactions.len() && (#[trigger] reactions[i]).thumbs_up()
            && !watch->0.plus_one_ids@.contains(reactions[i].id) && access@.reaction_any(
            reactions[i].user.login@,
        )
}

/// The answers to the watched question were submitted.
pub open spec fn submitted(watch: Option<OptionsWatch>, comments: Seq<Comment>) -> bool {
    watch is Some && exists|i: int|
        0 <= i < comments.len() && (#[trigger] comments[i]).id == watch->0.comment_id
            && options::submit_in(text::lines(comments[i].body@)) == Some(true)
}

/// The PR was concluded or reopened, or its draft state flipped.
pub open spec fn pr_changed(
    pr: Option<&PullRequest>,
    draft: Option<bool>,
    outcome: Option<PrOutcome>,
) -> bool {
    pr is Some && (state::outcome_of(*pr->0) != outcome || (draft is Some && draft->0
        != pr->0.draft))
}

/// Something happened since the baseline: the issue was edited, closed or
/// reopened, the PR changed, someone who may feed the session commented, or a
/// watched prompt or question was answered.
pub open spec fn wakes(
    wait: WaitState,
    outcome: Option<PrOutcome>,
    p: Polled,
    my_token: Seq<char>,
    access: AccessList,
) -> bool {
    ||| work_on::fingerprint(*p.issue) != wait.issue_fingerprint@
    ||| pr_changed(p.pr, wait.pr_draft, outcome)
    ||| threads::new_comments(p.issue_comments@, wait.comments@, my_token, access).len() > 0
    ||| threads::new_comments(p.pr_comments@, wait.comments@, my_token, access).len() > 0
    ||| threads::new_reviews(p.review_comments@, wait.review_comments@, my_token, access).len() > 0
    ||| thumbed(wait.issue.reactions, p.issue_reactions@, access)
    ||| thumbed(wait.pr.reactions, p.pr_reactions@, access)
    ||| submitted(wait.issue.options, p.issue_comments@)
    ||| submitted(wait.pr.options, p.pr_comments@)
}

/// Whether a new 👍 approves the watched prompt.
fn is_thumbed(
    watch: &Option<ReactionWatch>,
    reactions: &[Reaction],
    access: &AccessList,
) -> (r: bool)
    ensures
        r == thumbed(*watch, reactions@, *access),
{
    let watched = match watch {
        Some(watched) => watched,
        None => {
            return false;
        },
    };
    let mut i: usize = 0;
    while i < reactions.len()
        invariant
            i <= reactions.len(),
            *watch == Some(*watched),
            forall|k: int|
                0 <= k < i ==> !((#[trigger] reactions@[k]).thumbs_up()
                    && !watched.plus_one_ids@.contains(reactions@[k].id) && access@.reaction_any(
                    reactions@[k].user.login@,
                )),
        decreases reactions.len() - i,
    {
        let reaction = &reactions[i];
        if reaction.is_thumbs_up() && !store::holds(&watched.plus_one_ids, reaction.id)
            && access.accepts_reaction_any(reaction.user.login.as_str()) {
            assert(reactions@[i as int].thumbs_up());
            return true;
        }
        i = i + 1;
    }
    false
}

/// Whether the answers to the watched question were submitted.
fn is_submitted(watch: &Option<OptionsWatch>, comments: &[Comment]) -> (r: bool)
    ensures
        r == submitted(*watch, comments@),
{
    let watched = match watch {
        Some(watched) => watched,
        None => {
            return false;
        },
    };
    let mut i: usize = 0;
    while i < comments.len()
        invariant
            i <= comments.len(),
            *watch == Some(*watched),
            forall|k: int|
                0 <= k < i ==> !((#[trigger] comments@[k]).id == watched.comment_id
                    && options::submit_in(text::lines(comments@[k].body@)) == Some(true)),
        decreases comments.len() - i,
    {
        let comment = &comments[i];
        if comment.id == watched.comment_id {
            let parsed = options::parse_options_comment(comment.body.as_str());
            if parsed.submit == Some(true) {
                assert(comments@[i as int].id == watched.comment_id);
                return true;
            }
        }
        i = i + 1;
    }
    false
}

/// Whether something happened since the baseline. Status updates and the
/// session's own comments never count, nor does what strangers write. `outcome`
/// is how the PR stood at the baseline.
pub fn woken(
    wait: &WaitState,
    outcome: Option<PrOutcome>,
    p: &Polled,
    my_token: &str,
    access: &AccessList,
) -> (r: bool)
    ensures
        r == wakes(*wait, outcome, *p, my_token@, *access),
{
    let body = match &p.issue.body {
        Some(body) => Some(body.as_str()),
        None => None,
    };
    let fingerprint = state::issue_fingerprint(
        p.issue.title.as_str(),
        body,
        p.issue.state.as_str(),
    );
    if !text::same(fingerprint.as_str(), wait.issue_fingerprint.as_str()) {
        return true;
    }
    match p.pr {
        Some(pr) => {
            let flipped = match wait.pr_draft {
                Some(draft) => draft != pr.draft,
                None => false,
            };
            if state::pr_outcome(pr) != outcome || flipped {
                return true;
            }
        },
        None => {},
    }
    let (on_issue, _) = threads::collect_new_comments(
        p.issue_comments,
        &wait.comments,
        my_token,
        access,
        "issue",
    );
    let (on_pr, _) = threads::collect_new_comments(
        p.pr_comments,
        &wait.comments,
        my_token,
        access,
        "PR",
    );
    let (inline, _) = threads::collect_new_reviews(
        p.review_comments,
        &wait.review_comments,
        my_token,
        access,
    );
    assert(threads::new_comment_views(on_issue@).len() == on_issue@.len());
    assert(threads::new_comment_views(on_pr@).len() == on_pr@.len());
    assert(threads::new_review_views(inline@).len() == inline@.len());
    if on_issue.len() > 0 || on_pr.len() > 0 || inline.len() > 0 {
        return true;
    }
    is_thumbed(&wait.issue.reactions, p.issue_reactions, access) || is_thumbed(
        &wait.pr.reactions,
        p.pr_reactions,
        access,
    ) || is_submitted(&wait.issue.options, p.issue_comments) || is_submitted(
        &wait.pr.options,
        p.pr_comments,
    )
}

/// The pace of the next poll, in seconds: polling slows down while idle.
pub fn slower(pace: u64) -> (r: u64)
    ensures
        r == (if pace * 2 < BACKOFF_CAP {
            (pace * 2) as u64
        } else {
            BACKOFF_CAP
        }),
{
    if pace < BACKOFF_CAP / 2 {
        pace * 2
    } else {
        BACKOFF_CAP
    }
}

/// Whether the base moving under an open PR wakes the session: it does in review, the
/// moment the branch is found to be behind where it was not, or to conflict where it did
/// not, and for no other change.
pub fn base_wakes(phase: Phase, recorded: BaseSync, now: BaseSync) -> (r: bool)
    ensures
        r == (phase == Phase::Review && now != recorded && (now == BaseSync::BehindClean || now
            == BaseSync::Conflict)),
{
    match (phase, now) {
        (Phase::Review, BaseSync::BehindClean) => recorded != BaseSync::BehindClean,
        (Phase::Review, BaseSync::Conflict) => recorded != BaseSync::Conflict,
        _ => false,
    }
}

/// The seconds between two looks at the base: much slower than the polls.
pub const BASE_PROBE_SECS: u64 = 300;

/// Whether it is time to look at the base again.
pub fn base_probe_due(phase: Phase, elapsed_secs: u64) -> (r: bool)
    ensures
        r == (phase == Phase::Review && elapsed_secs >= BASE_PROBE_SECS),
{
    match phase {
        Phase::Review => elapsed_secs >= BASE_PROBE_SECS,
        _ => false,
    }
}

/// This many consecutive failed polls end a wait.
pub const MAX_FAILURES: u32 = 5;

/// The pace of a wait, in seconds, and how many polls have failed in a row.
#[derive(Clone, Copy, Debug, PartialEq, Eq, Structural)]
pub struct Pace {
    pub secs: u64,
    pub failures: u32,
}

/// What a poll came to.
#[derive(Clone, Copy, Debug, PartialEq, Eq, Structural)]
pub enum Seen {
    /// Something happened.
    News,
    Quiet,
    Failed,
}

/// What follows a poll.
#[derive(Clone, Copy, Debug, PartialEq, Eq, Structural)]
pub enum Turn {
    /// End the wait: there is something to process.
    Wake,
    /// Rest this many seconds, and poll again.
    Rest(u64),
    /// End the wait with an error: too many polls failed in a row.
    GiveUp,
}

/// What follows a poll of a wait. Polling slows down while idle, and too many failures
/// in a row end the wait.
pub fn after_poll(pace: &mut Pace, seen: Seen) -> (r: Turn)
    requires
        old(pace).failures < MAX_FAILURES,
    ensures
        r == (match seen {
            Seen::News => Turn::Wake,
            Seen::Quiet => Turn::Rest(old(pace).secs),
            Seen::Failed => if old(pace).failures + 1 >= MAX_FAILURES {
                Turn::GiveUp
            } else {
                Turn::Rest(old(pace).secs)
            },
        }),
        r is Rest ==> final(pace).failures < MAX_FAILURES && *final(pace) == (Pace {
            secs: if old(pace).secs * 2 < BACKOFF_CAP {
                (old(pace).secs * 2) as u64
            } else {
                BACKOFF_CAP
            },
            failures: if seen == Seen::Failed {
                (old(pace).failures + 1) as u32
            } else {
                0
            },
        }),
{
    match seen {
        Seen::News => {
            return Turn::Wake;
        },
        Seen::Quiet => {
            pace.failures = 0;
        },
        Seen::Failed => {
            if pace.failures + 1 >= MAX_FAILURES {
                return Turn::GiveUp;
            }
            pace.failures = pace.failures + 1;
        },
    }
    let secs: u64 = pace.secs;
    pace.secs = slower(secs);
    Turn::Rest(secs)
}

/// Status updates and the session's own comments never wake it: a thread that
/// holds nothing else has no new comments.
pub proof fn own_posts_do_not_wake(
    comments: Seq<Comment>,
    seen: Map<u64, String>,
    my_token: Seq<char>,
    access: AccessList,
)
    requires
        forall|k: int|
            0 <= k < comments.len() ==> render::hidden(
                (#[trigger] comments[k]).body@,
                Some(my_token),
            ),
    ensures
        threads::new_comments(comments, seen, my_token, access).len() == 0,
{
    threads::a_thread_without_news_is_silent(comments, seen, my_token, access, "issue");
}

/// An open question's submit box is not ticked.
proof fn lemma_open_question_is_open(comments: Seq<Comment>, my_token: Seq<char>)
    ensures
        threads::open_question(comments, my_token) < comments.len(),
        threads::open_question(comments, my_token) >= 0 ==> threads::asked(
            comments[threads::open_question(comments, my_token)],
            my_token,
        ) == Some(false),
    decreases comments.len(),
{
    if comments.len() > 0 {
        let init = comments.drop_last();
        lemma_open_question_is_open(init, my_token);
        let before = threads::open_question(init, my_token);
        if before >= 0 {
            assert(init[before] == comments[before]);
        }
    }
}

/// The question a thread is watched for was not submitted when the watch was set.
proof fn lemma_watched_question_is_open(
    watch: state::ThreadWatch,
    comments: Seq<Comment>,
    posted: Option<&Comment>,
    thumbs: Seq<workflow::PromptThumbs>,
    my_token: Seq<char>,
)
    requires
        seen::distinct_ids(comments),
        run::watches(watch, comments, posted, thumbs, my_token),
    ensures
        !submitted(watch.options, comments),
{
    if watch.options is Some {
        let q = threads::open_question(comments, my_token);
        lemma_open_question_is_open(comments, my_token);
        assert forall|i: int|
            0 <= i < comments.len() && (#[trigger] comments[i]).id
                == watch.options->0.comment_id implies options::submit_in(
            text::lines(comments[i].body@),
        ) != Some(true) by {
            assert(comments[q].id == comments[i].id);
            assert(i == q);
        }
    }
}

/// No 👍 arrived since the watch was set.
pub open spec fn no_new_thumbs(watch: Option<ReactionWatch>, reactions: Seq<Reaction>) -> bool {
    watch is Some ==> threads::thumb_ids(reactions).subset_of(watch->0.plus_one_ids@)
}

/// What a run saw does not wake the wait that follows it: polling finds nothing
/// until something changes.
pub proof fn what_a_run_saw_does_not_wake(
    f: run::Fetched,
    posted_issue: Option<&Comment>,
    posted_pr: Option<&Comment>,
    my_token: Seq<char>,
    access: AccessList,
    wait: WaitState,
    outcome: Option<PrOutcome>,
    p: Polled,
)
    requires
        run::is_baseline(f, posted_issue, posted_pr, my_token, wait),
        seen::distinct_ids(f.issue_comments@ + workflow::comments_of(f.pr_comments)),
        seen::distinct_review_ids(run::reviews_of(f.review_comments)),
        p.issue == f.issue,
        p.issue_comments@ == f.issue_comments@,
        p.pr == f.pr,
        f.pr is Some ==> outcome == state::outcome_of(*f.pr->0),
        p.pr_comments@ == workflow::comments_of(f.pr_comments),
        p.review_comments@ == run::reviews_of(f.review_comments),
        no_new_thumbs(wait.issue.reactions, p.issue_reactions@),
        no_new_thumbs(wait.pr.reactions, p.pr_reactions@),
    ensures
        !wakes(wait, outcome, p, my_token, access),
{
    let first = f.issue_comments@;
    let second = workflow::comments_of(f.pr_comments);
    let all = first + second;
    assert(seen::distinct_ids(first)) by {
        assert forall|i: int, j: int| 0 <= i < j < first.len() implies (#[trigger] first[i]).id
            != (#[trigger] first[j]).id by {
            assert(all[i] == first[i] && all[j] == first[j]);
        }
    }
    assert(seen::distinct_ids(second)) by {
        assert forall|i: int, j: int| 0 <= i < j < second.len() implies (#[trigger] second[i]).id
            != (#[trigger] second[j]).id by {
            assert(all[first.len() + i] == second[i] && all[first.len() + j] == second[j]);
        }
    }
    run::lemma_recorded_threads_are_silent(
        first,
        second,
        wait.comments@,
        my_token,
        access,
        "issue",
    );
    run::lemma_recorded_reviews_are_silent(
        p.review_comments@,
        wait.review_comments@,
        my_token,
        access,
    );
    lemma_watched_question_is_open(wait.issue, first, posted_issue, f.thumbs@, my_token);
    lemma_watched_question_is_open(wait.pr, second, posted_pr, f.thumbs@, my_token);
    assert(!thumbed(wait.issue.reactions, p.issue_reactions@, access)) by {
        assert forall|i: int|
            0 <= i < p.issue_reactions@.len() && (
            #[trigger] p.issue_reactions@[i]).thumbs_up() implies threads::thumb_ids(
            p.issue_reactions@,
        ).contains(p.issue_reactions@[i].id) by {}
    }
    assert(!thumbed(wait.pr.reactions, p.pr_reactions@, access)) by {
        assert forall|i: int|
            0 <= i < p.pr_reactions@.len() && (
            #[trigger] p.pr_reactions@[i]).thumbs_up() implies threads::thumb_ids(
            p.pr_reactions@,
        ).contains(p.pr_reactions@[i].id) by {}
    }
}

} // verus!
