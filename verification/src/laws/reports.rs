//! What a run reports, and what is said about picking.

use vstd::prelude::*;

use crate::laws::picking::{carries, first_label, lemma_rank};
use crate::laws::texts::{lemma_fill_one, lemma_wider, lemma_within};
use crate::models::{IssueListing, Reaction, ReviewComment};
use crate::next::{self, IssueStatus, Selection};
use crate::render;
use crate::run::{self, Advanced, StatusUpdate};
use crate::seen;
use crate::state::{IssueState, Phase};
use crate::store;
use crate::text;
use crate::threads::OptionSubmission;
use crate::wait;
use crate::work_on::{self, Thread};

verus! {

/// A status update goes to the thread of the phase, the other thread being told where;
/// its text is the status comment for what happened, the first one with an introduction.
pub proof fn status_updates_are_posted(
    agent: &str,
    state: &IssueState,
    advanced: &Advanced,
    url: Option<&str>,
    has_pr: bool,
    r: Option<StatusUpdate>,
    ts: &[render::Transition],
    ns: &[render::DirectiveNote],
    told: Option<String>,
    whole: &str,
    body: String,
)
    requires
        call_ensures(run::status_update, (agent, state, advanced, url, has_pr), r),
        ts@ == advanced.outcome.transitions@,
        ns@ == advanced.outcome.notes@,
        call_ensures(
            render::render_status_comment,
            (agent, state.phase, ts, ns, !state.intro_posted, url, advanced.new_conclusion),
            told,
        ),
        told is Some ==> whole@ == told->0@,
        call_ensures(render::build_status_comment_body, (whole,), body),
    ensures
        r is Some <==> told is Some,
        r is Some ==> r->0.body@ == body@,
        r is Some ==> (r->0.threads.primary == Thread::Pr <==> has_pr && (state.phase
            == Phase::Implement || state.phase == Phase::Review || state.phase == Phase::Finished)),
        r is Some ==> (r->0.threads.secondary is Some <==> has_pr),
        r is Some && has_pr ==> r->0.threads.secondary->0 != r->0.threads.primary,
{
}

/// What the other thread is told, and how threads are named.
pub proof fn the_other_thread_is_told(
    url: Option<&str>,
    ts: &[render::Transition],
    primary: Thread,
    full: String,
    r: String,
    issue_url: &str,
    pr: u64,
    named: String,
    noun: &'static str,
    at: &str,
    stub: String,
    stubbed: &str,
    body: String,
)
    requires
        call_ensures(work_on::secondary_body, (url, ts, primary, full), r),
        call_ensures(work_on::subject, (primary, issue_url, pr), named),
        call_ensures(Thread::noun, (primary,), noun),
        url is Some ==> at@ == url->0@,
        call_ensures(render::render_status_stub, (ts, noun, at), stub),
        stubbed@ == stub@,
        call_ensures(render::build_status_comment_body, (stubbed,), body),
    ensures
        url is None ==> r@ == full@,
        url is Some ==> r@ == body@,
        primary == Thread::Issue ==> named@ == issue_url@ && noun@ == "issue"@,
        primary == Thread::Pr ==> named@ == text::decimal(pr as nat) && noun@ == "PR"@,
{
}

proof fn lemma_boxes(labels: Seq<Seq<char>>, mark: Seq<char>, k: int)
    requires
        0 <= k < labels.len(),
    ensures
        text::contains(run::boxes(labels, mark), mark + labels[k] + "\n"@),
    decreases labels.len(),
{
    let front = labels.drop_last();
    let row = mark + labels.last() + "\n"@;
    assert(run::boxes(labels, mark) =~= run::boxes(front, mark) + row);
    if k < front.len() {
        lemma_boxes(front, mark, k);
        assert(front[k] == labels[k]);
        lemma_wider(Seq::empty(), run::boxes(front, mark), row, mark + labels[k] + "\n"@);
    } else {
        lemma_within(run::boxes(front, mark), row, Seq::empty());
    }
}

/// A submitted answer is told with where it was given, each option with its tick.
pub proof fn answers_are_told_with_their_ticks(s: &OptionSubmission, r: String, k: int)
    requires
        call_ensures(run::render_answer, (s,), r),
    ensures
        text::starts_with(
            r@,
            "Submitted answer on the "@ + s.thread_noun@ + " ("@ + s.url@ + "):\n"@,
        ),
        0 <= k < s.selected@.len() ==> text::contains(r@, "- [x] "@ + s.selected@[k]@ + "\n"@),
        0 <= k < s.unselected@.len() ==> text::contains(
            r@,
            "- [ ] "@ + s.unselected@[k]@ + "\n"@,
        ),
{
    let head = "Submitted answer on the "@ + s.thread_noun@ + " ("@ + s.url@ + "):\n"@;
    let yes = run::boxes(text::views(s.selected@), "- [x] "@);
    let no = run::boxes(text::views(s.unselected@), "- [ ] "@);
    assert(r@ =~= head + (yes + no));
    lemma_within(Seq::empty(), head, yes + no);
    if 0 <= k < s.selected@.len() {
        lemma_boxes(text::views(s.selected@), "- [x] "@, k);
        assert(text::views(s.selected@)[k] == s.selected@[k]@);
        lemma_wider(head, yes, no, "- [x] "@ + s.selected@[k]@ + "\n"@);
    }
    if 0 <= k < s.unselected@.len() {
        lemma_boxes(text::views(s.unselected@), "- [ ] "@, k);
        assert(text::views(s.unselected@)[k] == s.unselected@[k]@);
        lemma_wider(head + yes, no, Seq::empty(), "- [ ] "@ + s.unselected@[k]@ + "\n"@);
    }
}

/// A run's report begins with the phase's banner and ends with the digest; between them
/// stand what was ignored and the answers. Where answers are all there is, the digest
/// is left out.
pub proof fn reports_tell_phase_answers_and_news(
    phase: Phase,
    advanced: &Advanced,
    posted: bool,
    body: &str,
    f: &run::Fetched,
    pr: Option<u64>,
    n: &run::News,
    answers: &[crate::threads::PendingSubmission],
    r: String,
    ts: &[render::Transition],
    ns: &[render::DirectiveNote],
    banner: String,
    on_issue: &[render::CommentView],
    on_pr: &[render::CommentView],
    reviews: &[render::ReviewCommentView],
    digest: String,
    k: int,
    answer: String,
)
    requires
        call_ensures(run::report, (phase, advanced, posted, body, f, pr, n, answers), r),
        ts@ == advanced.outcome.transitions@,
        ns@ == advanced.outcome.notes@,
        call_ensures(render::render_phase_banner, (phase, ts, ns, posted, body), banner),
        on_issue@ == n.issue_comments@,
        on_pr@ == n.pr_comments@,
        reviews@ == n.review_comments@,
        call_ensures(
            render::render_work_on,
            (f.issue, n.body_changed, on_issue, pr, on_pr, reviews),
            digest,
        ),
        0 <= k < answers@.len() ==> call_ensures(
            run::render_answer,
            (&answers@[k].view,),
            answer,
        ),
    ensures
        text::starts_with(r@, banner@ + "\n\n"@),
        answers@.len() == 0 || n.body_changed || n.issue_comments@.len() > 0
            || n.pr_comments@.len() > 0 || n.review_comments@.len() > 0 ==> text::ends_with(
            r@,
            digest@,
        ),
        0 <= k < answers@.len() ==> text::contains(r@, answer@ + "\n"@),
{
    let head = banner@ + "\n\n"@;
    let a = render::ignored_lines(advanced.outcome.ignored@);
    let b = render::ignored_lines(n.ignored@);
    let c = run::answer_texts(answers@);
    let d: Seq<char> = if answers@.len() > 0 && !run::has_news(*n) {
        seq![]
    } else {
        digest@
    };
    assert(r@ == head + a + b + c + d);
    lemma_regroup(head, a, b, c, d);
    lemma_within(Seq::empty(), head, a + b + c + d);
    lemma_within(head + a + b + c, d, Seq::empty());
    if 0 <= k < answers@.len() {
        lemma_answers(answers@, k);
        lemma_wider(head + a + b, c, d, answer@ + "\n"@);
    }
}

proof fn lemma_regroup(h: Seq<char>, a: Seq<char>, b: Seq<char>, c: Seq<char>, d: Seq<char>)
    ensures
        h + a + b + c + d == h + (a + b + c + d),
{
    assert(h + a + b + c + d =~= h + (a + b + c + d));
}

proof fn lemma_answers(answers: Seq<crate::threads::PendingSubmission>, k: int)
    requires
        0 <= k < answers.len(),
    ensures
        text::contains(run::answer_texts(answers), run::answer_text(answers[k].view) + "\n"@),
    decreases answers.len(),
{
    let front = answers.drop_last();
    let row = run::answer_text(answers.last().view) + "\n"@;
    assert(run::answer_texts(answers) =~= run::answer_texts(front) + row);
    if k < front.len() {
        lemma_answers(front, k);
        assert(front[k] == answers[k]);
        lemma_wider(
            Seq::empty(),
            run::answer_texts(front),
            row,
            run::answer_text(answers[k].view) + "\n"@,
        );
    } else {
        lemma_within(run::answer_texts(front), row, Seq::empty());
    }
}

/// Why an issue was picked: because it is the user's, because of its most urgent label, or
/// for both; else because it is the earliest.
pub proof fn picks_are_explained(
    i: &IssueListing,
    me: &str,
    priority: &[String],
    p: int,
    assigned: bool,
    r: String,
)
    requires
        call_ensures(next::rationale, (i, me, priority), r),
        call_ensures(next::assigned_to, (i, me), assigned),
    ensures
        assigned && first_label(*i, priority@, p) ==> r@ == "assigned to "@ + me@ + ", "@ + (
        "priority label `"@ + priority@[p]@ + "`"@),
        !assigned && first_label(*i, priority@, p) ==> r@ == "priority label `"@ + priority@[p]@
            + "`"@,
        assigned && (forall|q: int|
            0 <= q < priority@.len() ==> !carries(*i, #[trigger] priority@[q]@)) ==> r@
            == "assigned to "@ + me@,
        !assigned && (forall|q: int|
            0 <= q < priority@.len() ==> !carries(*i, #[trigger] priority@[q]@)) ==> r@
            == "the earliest eligible open issue"@,
{
    assert(priority.len() == priority@.len());
    lemma_rank(*i, priority@);
    let k = next::rank(*i, priority@);
    if first_label(*i, priority@, p) {
        if k == usize::MAX {
            assert(!carries(*i, priority@[p]@));
        } else {
            if k < p {
                assert(!carries(*i, priority@[k as int]@));
            }
            if p < k {
                assert(!carries(*i, priority@[p]@));
            }
        }
    }
    if forall|q: int| 0 <= q < priority@.len() ==> !carries(*i, #[trigger] priority@[q]@) {
        if k != usize::MAX {
            assert(!carries(*i, priority@[k as int]@));
        }
    }
}

/// The pick is announced last, as resumed or picked, with its number, its title and why.
pub proof fn picks_are_announced(
    s: &Selection,
    me: &str,
    priority: &[String],
    r: String,
    i: &IssueListing,
    why: String,
)
    requires
        call_ensures(next::announce_pick, (s, me, priority), r),
        s.picked is Some ==> *i == *s.picked->0,
        call_ensures(next::rationale, (i, me, priority), why),
    ensures
        s.picked is Some && s.picked_status == Some(IssueStatus::Resumable) ==> text::ends_with(
            r@,
            "Resuming"@ + " #"@ + text::decimal(i.number as nat) + " \""@ + i.title@ + "\" — "@
                + why@ + "."@,
        ),
        s.picked is Some && s.picked_status != Some(IssueStatus::Resumable) ==> text::ends_with(
            r@,
            "Picked"@ + " #"@ + text::decimal(i.number as nat) + " \""@ + i.title@ + "\" — "@
                + why@ + "."@,
        ),
{
    let a = next::skip_lines(s.skipped_live@, next::LIVE_END@);
    let b = next::skip_lines(s.skipped_blocked@, next::BLOCKED_END@);
    let c = next::skip_lines(s.skipped_tracking@, next::TRACKING_END@);
    if s.picked is Some {
        let word = if s.picked_status == Some(IssueStatus::Resumable) {
            "Resuming"@
        } else {
            "Picked"@
        };
        let d = word + " #"@ + text::decimal(i.number as nat) + " \""@ + i.title@ + "\" — "@ + why@
            + "."@;
        assert(r@ == a + b + c + d);
        lemma_within(a + b + c, d, Seq::empty());
    }
}

/// What is said while there is nothing to pick.
pub proof fn waiting_for_issues_is_told(
    owner: &str,
    repo: &str,
    secs: Option<u64>,
    waiting: String,
    nothing: String,
)
    requires
        call_ensures(next::waiting_line, (owner, repo, secs), waiting),
        call_ensures(next::nothing_eligible, (owner, repo), nothing),
    ensures
        secs is None ==> waiting@ == "Waiting for an eligible issue to claim in "@ + owner@ + "/"@
            + repo@ + "…"@,
        secs is Some ==> waiting@ == "Waiting for an eligible issue to claim in "@ + owner@ + "/"@
            + repo@ + (" (timeout "@ + text::decimal(secs->0 as nat) + " s)…"@),
        text::starts_with(nothing@, "no eligible open issues in "@ + owner@ + "/"@ + repo@),
{
    lemma_within(
        Seq::empty(),
        "no eligible open issues in "@ + owner@ + "/"@ + repo@,
        next::NOTHING_ELIGIBLE@,
    );
}

/// A wait whose time is up says how long it was.
pub proof fn waits_end_with_their_length(secs: u64, r: String)
    requires
        call_ensures(next::timed_out, (secs,), r),
    ensures
        r@ == "No eligible issue to claim within "@ + text::decimal(secs as nat)
            + " s. Run `ghwf next --wait` again to keep waiting."@,
{
    reveal_strlit("No eligible issue to claim within ");
    reveal_strlit(" s. Run `ghwf next --wait` again to keep waiting.");
    reveal_strlit(
        "No eligible issue to claim within % s. Run `ghwf next --wait` again to keep waiting.",
    );
    let a = "No eligible issue to claim within "@;
    let b = " s. Run `ghwf next --wait` again to keep waiting."@;
    assert(next::TIMED_OUT@ =~= a.push('%') + b);
    lemma_fill_one(a, b, text::decimal(secs as nat));
}

/// The marks of an issue and of a reaction, and where a review comment stands.
pub proof fn listings_are_read(
    i: &IssueListing,
    blocked: bool,
    tracks: bool,
    open: bool,
    reaction: &Reaction,
    thumb: bool,
    c: &ReviewComment,
    place: String,
)
    requires
        call_ensures(IssueListing::is_blocked, (i,), blocked),
        call_ensures(IssueListing::is_tracking, (i,), tracks),
        call_ensures(IssueListing::is_open, (i,), open),
        call_ensures(Reaction::is_thumbs_up, (reaction,), thumb),
        call_ensures(ReviewComment::location, (c,), place),
    ensures
        blocked <==> i.issue_dependencies_summary.blocked_by > 0,
        tracks <==> i.sub_issues_summary.total > 0,
        open <==> i.state@ == ""@ || i.state@ == "open"@,
        thumb <==> reaction.content@ == "+1"@,
        c.line is Some ==> place@ == c.path@ + ":"@ + text::decimal(c.line->0 as nat),
        c.line is None && c.original_line is Some ==> place@ == c.path@ + ":"@ + text::decimal(
            c.original_line->0 as nat,
        ),
        c.line is None && c.original_line is None ==> place@ == c.path@,
{
}

/// The base is probed while a PR is under review, once the probes' interval is over.
pub proof fn bases_are_probed_under_review(phase: Phase, elapsed: u64, r: bool)
    requires
        call_ensures(wait::base_probe_due, (phase, elapsed), r),
    ensures
        r <==> phase == Phase::Review && elapsed >= 300,
{
}

/// A session's record of an issue lies below the data directory, by session, owner,
/// repository and number; a body's hash is that of its text, a missing one's that of none.
pub proof fn records_lie_by_session_and_issue(
    dir: &str,
    session: &str,
    owner: &str,
    repo: &str,
    number: u64,
    r: String,
    body: &Option<String>,
    hash: String,
    s: &str,
    plain: String,
)
    requires
        call_ensures(seen::record_path, (dir, session, owner, repo, number), r),
        call_ensures(seen::hash_body, (body,), hash),
        *body is Some ==> s@ == body->0@,
        *body is None ==> s@ == ""@,
        call_ensures(store::content_hash, (s,), plain),
    ensures
        r@ == text::below(
            text::below(
                text::below(text::below(text::below(dir@, "seen"@), session@), owner@),
                repo@,
            ),
            text::decimal(number as nat) + ".json"@,
        ),
        hash@ == plain@,
{
}

} // verus!
