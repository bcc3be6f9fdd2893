//! What ends a wait, and what it waits from.

use vstd::prelude::*;

use crate::access::AccessList;
use crate::implement::BaseSync;
use crate::laws::digest::{self, fresh};
use crate::laws::who::{trusted, welcome};
use crate::models::{Comment, Issue, PullRequest, Reaction, ReviewComment};
use crate::options;
use crate::state::{self, OptionsWatch, Phase, PrOutcome, ReactionWatch, WaitState};
use crate::store;
use crate::text;
use crate::wait::{self, Pace, Polled, Seen, Turn};

verus! {

/// Someone whose 👍 may wake a session: trusted, or some repository's collaborator.
pub open spec fn welcome_anywhere(list: AccessList, login: Seq<char>) -> bool {
    trusted(list, login) || exists|repo: (Seq<char>, Seq<char>)|
        list@.collaborators.dom().contains(repo) && #[trigger] list@.collaborators[repo].contains(
            text::lower(login),
        )
}

/// A 👍 of such a person came to the watched prompt since the watch was set.
pub open spec fn new_thumb(
    watch: Option<ReactionWatch>,
    reactions: Seq<Reaction>,
    access: AccessList,
    k: int,
) -> bool {
    &&& watch is Some
    &&& 0 <= k < reactions.len()
    &&& reactions[k].content@ == "+1"@
    &&& !watch->0.plus_one_ids@.contains(reactions[k].id)
    &&& welcome_anywhere(access, reactions[k].user.login@)
}

/// The watched question's submit box is ticked.
pub open spec fn answered(watch: Option<OptionsWatch>, comments: Seq<Comment>, k: int) -> bool {
    &&& watch is Some
    &&& 0 <= k < comments.len()
    &&& comments[k].id == watch->0.comment_id
    &&& options::submit_in(text::lines(comments[k].body@)) == Some(true)
}

/// The issue's title, body or state is not what it was.
pub open spec fn edited(i: Issue, fingerprint: Seq<char>) -> bool {
    store::hash_of(
        i.title@ + "\n\u{0}"@ + (match i.body {
            Some(body) => body@,
            None => ""@,
        }) + "\n\u{0}"@ + i.state@,
    ) != fingerprint
}

/// How a PR has ended.
pub open spec fn ended(pr: PullRequest) -> Option<PrOutcome> {
    if pr.merged {
        Some(PrOutcome::Merged)
    } else if pr.state@ == "closed"@ {
        Some(PrOutcome::Closed)
    } else {
        None
    }
}

/// The `k`th comment of a thread is new to the session, by someone who may feed it.
pub open spec fn new_comment(
    comments: Seq<Comment>,
    wait: WaitState,
    my_token: Seq<char>,
    access: AccessList,
    k: int,
) -> bool {
    &&& 0 <= k < comments.len()
    &&& fresh(wait.comments@, my_token, comments[k].id, comments[k].body@)
    &&& welcome(access, comments[k].user.login@, comments[k].author_association@)
}

/// The same of an inline review comment.
pub open spec fn new_review(
    comments: Seq<ReviewComment>,
    wait: WaitState,
    my_token: Seq<char>,
    access: AccessList,
    k: int,
) -> bool {
    &&& 0 <= k < comments.len()
    &&& fresh(wait.review_comments@, my_token, comments[k].id, comments[k].body@)
    &&& welcome(access, comments[k].user.login@, comments[k].author_association@)
}

/// Everything that happens on the issue or its PR ends a wait: an edit of the issue, a
/// PR that ended, was reopened or changed between draft and ready, a comment on either
/// thread or on the code by someone who may feed the session, a 👍 on a prompt, and an
/// answer that was submitted.
pub proof fn everything_new_wakes(
    wait: &WaitState,
    outcome: Option<PrOutcome>,
    p: &Polled,
    my_token: &str,
    access: &AccessList,
    r: bool,
    k: int,
)
    requires
        call_ensures(wait::woken, (wait, outcome, p, my_token, access), r),
    ensures
        new_comment(p.issue_comments@, *wait, my_token@, *access, k) ==> r,
        new_comment(p.pr_comments@, *wait, my_token@, *access, k) ==> r,
        new_review(p.review_comments@, *wait, my_token@, *access, k) ==> r,
        edited(*p.issue, wait.issue_fingerprint@) ==> r,
        p.pr is Some && ended(*p.pr->0) != outcome ==> r,
        p.pr is Some && wait.pr_draft is Some && wait.pr_draft->0 != p.pr->0.draft ==> r,
        new_thumb(wait.issue.reactions, p.issue_reactions@, *access, k) ==> r,
        new_thumb(wait.pr.reactions, p.pr_reactions@, *access, k) ==> r,
        answered(wait.issue.options, p.issue_comments@, k) ==> r,
        answered(wait.pr.options, p.pr_comments@, k) ==> r,
{
    let a = digest::lemma_new_comments(p.issue_comments@, wait.comments@, my_token@, *access);
    let b = digest::lemma_new_comments(p.pr_comments@, wait.comments@, my_token@, *access);
    let c = digest::lemma_new_reviews(
        p.review_comments@,
        wait.review_comments@,
        my_token@,
        *access,
    );
    if new_comment(p.issue_comments@, *wait, my_token@, *access, k) {
        assert(a.contains(k));
    }
    if new_comment(p.pr_comments@, *wait, my_token@, *access, k) {
        assert(b.contains(k));
    }
    if new_review(p.review_comments@, *wait, my_token@, *access, k) {
        assert(c.contains(k));
    }
    if new_thumb(wait.issue.reactions, p.issue_reactions@, *access, k) {
        assert(p.issue_reactions@[k].thumbs_up());
    }
    if new_thumb(wait.pr.reactions, p.pr_reactions@, *access, k) {
        assert(p.pr_reactions@[k].thumbs_up());
    }
    if answered(wait.issue.options, p.issue_comments@, k) {
        assert(p.issue_comments@[k].id == wait.issue.options->0.comment_id);
    }
    if answered(wait.pr.options, p.pr_comments@, k) {
        assert(p.pr_comments@[k].id == wait.pr.options->0.comment_id);
    }
}

/// Nothing else does: status updates, the session's own comments, what strangers write
/// and what was there before leave it waiting.
pub proof fn nothing_else_wakes(
    wait: &WaitState,
    outcome: Option<PrOutcome>,
    p: &Polled,
    my_token: &str,
    access: &AccessList,
    r: bool,
)
    requires
        call_ensures(wait::woken, (wait, outcome, p, my_token, access), r),
        !edited(*p.issue, wait.issue_fingerprint@),
        p.pr is Some ==> ended(*p.pr->0) == outcome && (wait.pr_draft is Some ==> wait.pr_draft->0
            == p.pr->0.draft),
        forall|k: int| !#[trigger] new_comment(p.issue_comments@, *wait, my_token@, *access, k),
        forall|k: int| !#[trigger] new_comment(p.pr_comments@, *wait, my_token@, *access, k),
        forall|k: int| !#[trigger] new_review(p.review_comments@, *wait, my_token@, *access, k),
        forall|k: int|
            !#[trigger] new_thumb(wait.issue.reactions, p.issue_reactions@, *access, k),
        forall|k: int| !#[trigger] new_thumb(wait.pr.reactions, p.pr_reactions@, *access, k),
        forall|k: int| !#[trigger] answered(wait.issue.options, p.issue_comments@, k),
        forall|k: int| !#[trigger] answered(wait.pr.options, p.pr_comments@, k),
    ensures
        !r,
{
    let a = digest::lemma_new_comments(p.issue_comments@, wait.comments@, my_token@, *access);
    let b = digest::lemma_new_comments(p.pr_comments@, wait.comments@, my_token@, *access);
    let c = digest::lemma_new_reviews(
        p.review_comments@,
        wait.review_comments@,
        my_token@,
        *access,
    );
    if a.len() > 0 {
        assert(new_comment(p.issue_comments@, *wait, my_token@, *access, a[0]));
    }
    if b.len() > 0 {
        assert(new_comment(p.pr_comments@, *wait, my_token@, *access, b[0]));
    }
    if c.len() > 0 {
        assert(new_review(p.review_comments@, *wait, my_token@, *access, c[0]));
    }
    if wait::thumbed(wait.issue.reactions, p.issue_reactions@, *access) {
        let i = choose|i: int|
            0 <= i < p.issue_reactions@.len() && (#[trigger] p.issue_reactions@[i]).thumbs_up()
                && !wait.issue.reactions->0.plus_one_ids@.contains(p.issue_reactions@[i].id)
                && access@.reaction_any(p.issue_reactions@[i].user.login@);
        assert(new_thumb(wait.issue.reactions, p.issue_reactions@, *access, i));
    }
    if wait::thumbed(wait.pr.reactions, p.pr_reactions@, *access) {
        let i = choose|i: int|
            0 <= i < p.pr_reactions@.len() && (#[trigger] p.pr_reactions@[i]).thumbs_up()
                && !wait.pr.reactions->0.plus_one_ids@.contains(p.pr_reactions@[i].id)
                && access@.reaction_any(p.pr_reactions@[i].user.login@);
        assert(new_thumb(wait.pr.reactions, p.pr_reactions@, *access, i));
    }
    if wait::submitted(wait.issue.options, p.issue_comments@) {
        let i = choose|i: int|
            0 <= i < p.issue_comments@.len() && (#[trigger] p.issue_comments@[i]).id
                == wait.issue.options->0.comment_id && options::submit_in(
                text::lines(p.issue_comments@[i].body@),
            ) == Some(true);
        assert(answered(wait.issue.options, p.issue_comments@, i));
    }
    if wait::submitted(wait.pr.options, p.pr_comments@) {
        let i = choose|i: int|
            0 <= i < p.pr_comments@.len() && (#[trigger] p.pr_comments@[i]).id
                == wait.pr.options->0.comment_id && options::submit_in(
                text::lines(p.pr_comments@[i].body@),
            ) == Some(true);
        assert(answered(wait.pr.options, p.pr_comments@, i));
    }
}

/// The base wakes a session in review when the branch falls behind it or comes to
/// conflict with it, and only on the change.
pub proof fn a_moving_base_wakes_a_review(phase: Phase, recorded: BaseSync, now: BaseSync, r: bool)
    requires
        call_ensures(wait::base_wakes, (phase, recorded, now), r),
    ensures
        phase != Phase::Review ==> !r,
        now == recorded ==> !r,
        now == BaseSync::UpToDate ==> !r,
        phase == Phase::Review && now == BaseSync::Conflict && recorded != BaseSync::Conflict ==> r,
        phase == Phase::Review && now == BaseSync::BehindClean && recorded != BaseSync::BehindClean
            ==> r,
{
}

/// Polling slows down while nothing happens, doubling up to a minute; a failure more
/// than the limit in a row ends the wait, and any poll that works starts the count anew.
pub proof fn polling_backs_off(
    before: Pace,
    seen: Seen,
    after: Pace,
    r: Turn,
    pace: u64,
    slow: u64,
)
    requires
        before.failures < 5,
        exists|g: &mut Pace| #[trigger]
            call_ensures(wait::after_poll, (g, seen), r) && *g == before && *final(g) == after,
        call_ensures(wait::slower, (pace,), slow),
    ensures
        seen == Seen::News <==> r == Turn::Wake,
        r == Turn::GiveUp <==> seen == Seen::Failed && before.failures + 1 == 5,
        r is Rest ==> r->Rest_0 == before.secs && after.secs == (if before.secs * 2 < 60 {
            before.secs * 2
        } else {
            60
        }),
        r is Rest && seen == Seen::Quiet ==> after.failures == 0,
        r is Rest && seen == Seen::Failed ==> after.failures == before.failures + 1,
        slow <= 60,
        slow == pace * 2 || slow == 60,
        pace < 30 ==> slow == pace * 2,
{
}

} // verus!
