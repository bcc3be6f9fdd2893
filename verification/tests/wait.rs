use ghwf::access::AccessList;
use ghwf::implement::BaseSync;
use ghwf::launch::NUDGE_CAP;
use ghwf::models::{Comment, Head, Issue, PullRequest, Reaction, ReviewComment, User};
use ghwf::next::{BACKOFF_CAP, BACKOFF_FLOOR};
use ghwf::render::{build_comment_body, build_status_comment_body};
use ghwf::run::{baseline, Fetched};
use ghwf::state::{
    AlertKind, IssueState, OptionsWatch, Phase, PrOutcome, ReactionWatch, SessionAlert, WaitState,
};
use ghwf::stop_hook::nudge;
use ghwf::wait::{
    after_poll, base_probe_due, base_wakes, slower, woken, Pace, Polled, Seen, Turn,
    BASE_PROBE_SECS, MAX_FAILURES,
};
use ghwf::work_on::settle;

/// The agent's name: what the workflow waits on, by the field of the label config.
fn agent() -> String {
    let word = "waiting_on_claude".rsplit('_').next().unwrap();
    word[..1].to_uppercase() + &word[1..]
}

fn user(login: &str) -> User {
    User { login: login.to_string() }
}

fn issue(title: &str) -> Issue {
    Issue {
        number: 7,
        title: title.to_string(),
        state: "open".to_string(),
        user: user("me"),
        body: Some("body".to_string()),
        created_at: "2026-01-01T00:00:00Z".to_string(),
        updated_at: "2026-01-01T00:00:00Z".to_string(),
        html_url: "https://github.com/o/r/issues/7".to_string(),
        author_association: "OWNER".to_string(),
    }
}

fn comment(id: u64, login: &str, association: &str, body: &str) -> Comment {
    Comment {
        id,
        user: user(login),
        body: body.to_string(),
        created_at: "2026-01-01T00:01:00Z".to_string(),
        updated_at: "2026-01-01T00:01:00Z".to_string(),
        html_url: "u".to_string(),
        author_association: association.to_string(),
        reactions: None,
    }
}

fn review(id: u64, body: &str) -> ReviewComment {
    ReviewComment {
        id,
        user: user("me"),
        body: body.to_string(),
        created_at: "2026-01-01T00:01:00Z".to_string(),
        updated_at: "2026-01-01T00:01:00Z".to_string(),
        html_url: "u".to_string(),
        author_association: "OWNER".to_string(),
        path: "a.rs".to_string(),
        line: None,
        original_line: None,
    }
}

fn pull(state: &str, merged: bool, draft: bool) -> PullRequest {
    PullRequest {
        number: 9,
        title: "PR".to_string(),
        state: state.to_string(),
        merged,
        draft,
        body: None,
        html_url: "https://github.com/o/r/pull/9".to_string(),
        head: Head { ref_name: "b".to_string(), sha: "s".to_string() },
    }
}

fn thumb(id: u64, login: &str) -> Reaction {
    Reaction {
        id,
        user: user(login),
        content: "+1".to_string(),
        created_at: "2026-01-01T00:02:00Z".to_string(),
    }
}

fn repo() -> (String, String) {
    ("o".to_string(), "r".to_string())
}

/// The baseline of a run that saw one comment, a draft PR and one review comment.
fn waiting() -> WaitState {
    let issue = issue("T");
    let comments = [comment(1, "me", "OWNER", "hello")];
    let pr = pull("open", false, true);
    let reviews = [review(4, "nit")];
    let fetched = Fetched {
        issue: &issue,
        issue_comments: &comments,
        pr: Some(&pr),
        pr_comments: Some(&[]),
        review_comments: Some(&reviews),
        thumbs: &[],
    };
    baseline(&fetched, None, None, "tok", &repo(), &repo()).wait
}

struct World {
    issue: Issue,
    comments: Vec<Comment>,
    pr: PullRequest,
    reviews: Vec<ReviewComment>,
    reactions: Vec<Reaction>,
}

fn world() -> World {
    World {
        issue: issue("T"),
        comments: vec![comment(1, "me", "OWNER", "hello")],
        pr: pull("open", false, true),
        reviews: vec![review(4, "nit")],
        reactions: Vec::new(),
    }
}

fn wakes(wait: &WaitState, outcome: Option<PrOutcome>, world: &World) -> bool {
    let polled = Polled {
        issue: &world.issue,
        issue_comments: &world.comments,
        pr: Some(&world.pr),
        pr_comments: &[],
        review_comments: &world.reviews,
        issue_reactions: &world.reactions,
        pr_reactions: &[],
    };
    woken(wait, outcome, &polled, "tok", &AccessList::new("me", &[]))
}

#[test]
fn what_a_run_saw_wakes_nothing() {
    assert!(!wakes(&waiting(), None, &world()));
}

#[test]
fn edits_comments_and_reviews_wake() {
    let mut w = world();
    w.issue = issue("Retitled");
    assert!(wakes(&waiting(), None, &w));
    let mut w = world();
    w.comments[0].body = "hello, edited".to_string();
    assert!(wakes(&waiting(), None, &w));
    let mut w = world();
    w.comments.push(comment(2, "me", "OWNER", "new"));
    assert!(wakes(&waiting(), None, &w));
    let mut w = world();
    w.reviews.push(review(5, "another"));
    assert!(wakes(&waiting(), None, &w));
}

#[test]
fn own_posts_and_strangers_do_not_wake() {
    let mut w = world();
    w.comments.push(comment(2, "me", "OWNER", &build_status_comment_body("status")));
    w.comments.push(comment(3, "me", "OWNER", &build_comment_body(&agent(), "mine", Some("tok"))));
    w.comments.push(comment(4, "stranger", "NONE", "hi"));
    assert!(!wakes(&waiting(), None, &w));
    let theirs = build_comment_body(&agent(), "theirs", Some("other"));
    w.comments.push(comment(5, "me", "OWNER", &theirs));
    assert!(wakes(&waiting(), None, &w));
}

#[test]
fn pr_changes_wake() {
    let mut w = world();
    w.pr = pull("open", false, false);
    assert!(wakes(&waiting(), None, &w));
    w.pr = pull("closed", true, true);
    assert!(wakes(&waiting(), None, &w));
    // The outcome was known already.
    assert!(!wakes(&waiting(), Some(PrOutcome::Merged), &w));
    w.pr = pull("open", false, true);
    assert!(wakes(&waiting(), Some(PrOutcome::Closed), &w));
}

#[test]
fn a_new_thumb_wakes_unless_a_stranger_gives_it() {
    let mut wait = waiting();
    wait.issue.reactions =
        Some(ReactionWatch { comment_id: 1, plus_one_ids: [10].into_iter().collect() });
    let mut w = world();
    w.reactions = vec![thumb(10, "me"), thumb(11, "stranger")];
    assert!(!wakes(&wait, None, &w));
    w.reactions.push(thumb(12, "me"));
    assert!(wakes(&wait, None, &w));
}

#[test]
fn submitting_answers_wakes() {
    let mut wait = waiting();
    wait.issue.options = Some(OptionsWatch { comment_id: 2 });
    let body = ghwf::options::build_options_body("Which?", &["A".to_string(), "B".to_string()]);
    let mut w = world();
    w.comments.push(comment(2, "me", "OWNER", &build_comment_body(&agent(), &body, Some("tok"))));
    assert!(!wakes(&wait, None, &w));
    let ticked = w.comments[1].body.replace(
        "- [ ] **Submit my answers**",
        "- [x] **Submit my answers**",
    );
    w.comments[1].body = ticked;
    assert!(wakes(&wait, None, &w));
}

#[test]
fn polling_slows_down_to_the_cap() {
    assert_eq!(slower(BACKOFF_FLOOR), 10);
    assert_eq!(slower(20), 40);
    assert_eq!(slower(40), BACKOFF_CAP);
    assert_eq!(slower(u64::MAX), BACKOFF_CAP);
}

#[test]
fn the_stop_hook_nudges_until_the_cap() {
    let mut state = IssueState::default();
    for nudges in 0..NUDGE_CAP {
        assert_eq!(state.stop_nudges, nudges);
        let message = nudge(&mut state, 12).unwrap();
        assert!(message.contains("issue #12"));
        assert!(message.contains("`ghwf wait`"));
    }
    assert!(nudge(&mut state, 12).is_none());
    assert_eq!(state.stop_nudges, NUDGE_CAP);
    // New activity starts the count again, and clears the alert.
    state.session_alert =
        Some(SessionAlert { kind: AlertKind::Idle, session_id: "s".to_string(), at: 1 });
    settle(&mut state, true);
    assert!(state.session_alert.is_none());
    assert!(nudge(&mut state, 12).is_some());
}

#[test]
fn the_stop_hook_lets_go_of_a_concluded_workflow() {
    let mut state = IssueState { issue_closed: true, ..Default::default() };
    assert!(nudge(&mut state, 12).is_none());
    let mut state =
        IssueState { pr_outcome: Some(PrOutcome::Closed), ..Default::default() };
    assert!(nudge(&mut state, 12).is_none());
    assert_eq!(state.stop_nudges, 0);
}

#[test]
fn a_base_that_moves_wakes_a_session_in_review() {
    let (level, behind, conflict) =
        (BaseSync::UpToDate, BaseSync::BehindClean, BaseSync::Conflict);
    assert!(base_wakes(Phase::Review, level, behind));
    assert!(base_wakes(Phase::Review, level, conflict));
    assert!(base_wakes(Phase::Review, behind, conflict));
    assert!(!base_wakes(Phase::Review, behind, behind));
    assert!(!base_wakes(Phase::Review, conflict, level));
    assert!(!base_wakes(Phase::Implement, level, conflict));
    assert!(base_probe_due(Phase::Review, BASE_PROBE_SECS));
    assert!(!base_probe_due(Phase::Review, BASE_PROBE_SECS - 1));
    assert!(!base_probe_due(Phase::Implement, u64::MAX));
}

#[test]
fn a_wait_slows_down_and_gives_up_on_repeated_failures() {
    let mut pace = Pace { secs: BACKOFF_FLOOR, failures: 0 };
    assert_eq!(after_poll(&mut pace, Seen::Quiet), Turn::Rest(BACKOFF_FLOOR));
    assert_eq!(pace, Pace { secs: 10, failures: 0 });
    for failed in 1..MAX_FAILURES {
        assert!(matches!(after_poll(&mut pace, Seen::Failed), Turn::Rest(_)));
        assert_eq!(pace.failures, failed);
    }
    assert_eq!(pace.secs, BACKOFF_CAP);
    // One that works in between starts the count anew.
    let mut spared = pace;
    assert_eq!(after_poll(&mut spared, Seen::Quiet), Turn::Rest(BACKOFF_CAP));
    assert_eq!(spared.failures, 0);
    assert_eq!(after_poll(&mut pace, Seen::Failed), Turn::GiveUp);
    assert_eq!(after_poll(&mut spared, Seen::News), Turn::Wake);
}
