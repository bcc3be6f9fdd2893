use ghwf::access::AccessList;
use ghwf::models::{Comment, Head, Issue, PullRequest, ReviewComment, User};
use ghwf::run::{
    advance, baseline, news, record_posts, render_answer, report, settle_run, status_update,
    Fetched,
};
use ghwf::seen::{record_path, updated_record, SeenRecord};
use ghwf::session_binding::{bound_from_path, find_bound_issue, is_bound, StateFile};
use ghwf::state::{parse_directive, Attention, Directive, IssueState, Phase, PrOutcome, PrepState};
use ghwf::store::content_hash;
use ghwf::threads::OptionSubmission;
use ghwf::work_on::{phase_work, status_threads, PhaseWork, Thread};

/// The agent's name: what the workflow waits on, by the field of the label config.
fn agent() -> String {
    let word = "waiting_on_claude".rsplit('_').next().unwrap();
    word[..1].to_uppercase() + &word[1..]
}

fn user(login: &str) -> User {
    User { login: login.to_string() }
}

fn issue() -> Issue {
    Issue {
        number: 7,
        title: "T".to_string(),
        state: "open".to_string(),
        user: user("me"),
        body: Some("body".to_string()),
        created_at: "2026-01-01T00:00:00Z".to_string(),
        updated_at: "2026-01-01T00:00:00Z".to_string(),
        html_url: "https://github.com/o/r/issues/7".to_string(),
        author_association: "OWNER".to_string(),
    }
}

fn comment(id: u64, body: &str, at: &str) -> Comment {
    Comment {
        id,
        user: user("me"),
        body: body.to_string(),
        created_at: at.to_string(),
        updated_at: at.to_string(),
        html_url: format!("https://github.com/o/r/issues/7#issuecomment-{id}"),
        author_association: "OWNER".to_string(),
        reactions: None,
    }
}

fn review(id: u64, body: &str, at: &str) -> ReviewComment {
    ReviewComment {
        id,
        user: user("me"),
        body: body.to_string(),
        created_at: at.to_string(),
        updated_at: at.to_string(),
        html_url: "u".to_string(),
        author_association: "OWNER".to_string(),
        path: "a.rs".to_string(),
        line: Some(1),
        original_line: None,
    }
}

fn pull(state: &str, merged: bool, draft: bool) -> PullRequest {
    PullRequest {
        number: 9,
        title: "PR".to_string(),
        state: state.to_string(),
        merged,
        draft,
        body: None,
        html_url: "https://github.com/o/r/pull/9".to_string(),
        head: Head { ref_name: "b".to_string(), sha: "s".to_string() },
    }
}

fn repo() -> (String, String) {
    ("o".to_string(), "r".to_string())
}

#[test]
fn a_second_run_has_nothing_to_say() {
    let access = AccessList::new("me", &[]);
    let issue = issue();
    let comments = [
        comment(1, "/approve-pre-plan", "2026-01-01T00:01:00Z"),
        comment(2, "hello", "2026-01-01T00:02:00Z"),
    ];
    let fetched = Fetched {
        issue: &issue,
        issue_comments: &comments,
        pr: None,
        pr_comments: None,
        review_comments: None,
        thumbs: &[],
    };
    let mut state = IssueState::default();
    let advanced = advance(&mut state, &fetched, &access, &repo(), &repo());
    assert_eq!(state.phase, Phase::PrepAndPlan);
    assert_eq!(advanced.outcome.transitions.len(), 1);
    let update = status_update(&agent(), &state, &advanced, None, false).unwrap();
    assert_eq!(update.threads.primary, Thread::Issue);
    assert!(update.body.contains("Phase advanced: pre-plan → prep-and-plan"));
    let posted = comment(3, &update.body, "2026-01-01T00:03:00Z");
    record_posts(&mut state, Some(&posted), None);
    assert!(state.intro_posted);
    assert_eq!(state.last_posted.as_ref().unwrap().id, 3);

    let record = SeenRecord::default();
    let n = news(&fetched, &record, "tok", &access);
    assert!(n.body_changed);
    assert_eq!(n.issue_comments.len(), 2);
    let made = baseline(&fetched, Some(&posted), None, "tok", &repo(), &repo());
    assert_eq!(made.wait.since, "2026-01-01T00:02:00Z");
    assert_eq!(made.wait.comments[&2], content_hash("hello"));
    let text = report(state.phase, &advanced, true, "Do it.", &fetched, None, &n, &[]);
    assert!(text.contains("Do it."));
    assert!(text.contains("> hello"));
    state.stop_nudges = 2;
    assert!(settle_run(&mut state, &advanced, &n, made, false).is_empty());
    assert_eq!(state.attention, Attention::WaitingOnClaude);
    assert_eq!(state.stop_nudges, 0);

    let record = updated_record(record, &issue.body, &comments, None, None);
    let again = advance(&mut state, &fetched, &access, &repo(), &repo());
    assert!(again.outcome.transitions.is_empty());
    assert!(again.outcome.notes.is_empty());
    assert!(status_update(&agent(), &state, &again, None, false).is_none());
    let n = news(&fetched, &record, "tok", &access);
    assert!(!n.body_changed);
    assert!(n.issue_comments.is_empty());
    let text = report(state.phase, &again, false, "", &fetched, None, &n, &[]);
    assert!(text.contains("No new activity"));

    // Who may speak does not matter to what was already handled.
    let stricter = AccessList::new("somebody-else", &[]);
    let again = advance(&mut state, &fetched, &stricter, &repo(), &repo());
    assert!(again.outcome.transitions.is_empty() && again.outcome.notes.is_empty());
}

#[test]
fn a_merge_finishes_the_workflow_once() {
    let access = AccessList::new("me", &[]);
    let issue = issue();
    let merged = pull("closed", true, false);
    let reviews = [review(4, "nit", "2026-01-01T00:09:00Z")];
    let fetched = Fetched {
        issue: &issue,
        issue_comments: &[],
        pr: Some(&merged),
        pr_comments: Some(&[]),
        review_comments: Some(&reviews),
        thumbs: &[],
    };
    let mut state = IssueState { phase: Phase::Review, ..Default::default() };
    let advanced = advance(&mut state, &fetched, &access, &repo(), &repo());
    assert_eq!(state.phase, Phase::Finished);
    assert_eq!(advanced.new_conclusion, Some(PrOutcome::Merged));
    assert_eq!(phase_work(&state), PhaseWork::Concluded(PrOutcome::Merged));
    let made = baseline(&fetched, None, None, "tok", &repo(), &repo());
    assert_eq!(made.wait.since, "2026-01-01T00:09:00Z");
    assert_eq!(made.wait.pr_draft, Some(false));
    let again = advance(&mut state, &fetched, &access, &repo(), &repo());
    assert_eq!(again.new_conclusion, None);
    let threads = status_threads(Phase::Review, true);
    assert_eq!(threads.primary, Thread::Pr);
    assert_eq!(threads.secondary, Some(Thread::Issue));
}

#[test]
fn a_ready_pr_moves_on_to_review() {
    let access = AccessList::new("me", &[]);
    let issue = issue();
    let ready = pull("open", false, false);
    let fetched = Fetched {
        issue: &issue,
        issue_comments: &[],
        pr: Some(&ready),
        pr_comments: Some(&[]),
        review_comments: None,
        thumbs: &[],
    };
    let mut state = IssueState { phase: Phase::Implement, ..Default::default() };
    let advanced = advance(&mut state, &fetched, &access, &repo(), &repo());
    assert_eq!(state.phase, Phase::Review);
    assert_eq!(advanced.outcome.transitions.len(), 1);
}

#[test]
fn a_stranger_is_reported_and_not_quoted() {
    let access = AccessList::new("me", &[]);
    let issue = issue();
    let mut stranger = comment(8, "let me in", "2026-01-01T00:01:00Z");
    stranger.user = user("stranger");
    stranger.author_association = "NONE".to_string();
    let comments = [stranger];
    let fetched = Fetched {
        issue: &issue,
        issue_comments: &comments,
        pr: None,
        pr_comments: None,
        review_comments: None,
        thumbs: &[],
    };
    let mut state = IssueState::default();
    let advanced = advance(&mut state, &fetched, &access, &repo(), &repo());
    let n = news(&fetched, &SeenRecord::default(), "tok", &access);
    assert!(n.issue_comments.is_empty());
    let text = report(state.phase, &advanced, false, "", &fetched, None, &n, &[]);
    assert!(text.contains("Ignored a comment on the issue from stranger"));
    assert!(!text.contains("let me in"));
}

#[test]
fn answers_are_shown_as_ticked() {
    let answer = OptionSubmission {
        thread_noun: "issue thread",
        url: "u".to_string(),
        selected: vec!["A".to_string()],
        unselected: vec!["B".to_string()],
    };
    assert_eq!(
        render_answer(&answer),
        "Submitted answer on the issue thread (u):\n- [x] A\n- [ ] B\n"
    );
}

#[test]
fn directives_lead_their_comment() {
    assert_eq!(parse_directive("/approve-plan"), Some(Directive::ApprovePlan));
    assert_eq!(parse_directive("/approve-pre-plan looks good"), Some(Directive::ApprovePrePlan));
    assert_eq!(parse_directive("/proceed"), Some(Directive::Proceed));
    assert_eq!(parse_directive("I would /approve-plan"), None);
    assert_eq!(parse_directive("/approve-planning"), None);
}

#[test]
fn records_are_kept_per_session_and_issue() {
    assert_eq!(
        record_path("/data", "sess", "o", "r", 7),
        "/data/seen/sess/o/r/7.json"
    );
    // An edited comment is recorded anew.
    let first = [comment(1, "a", "t")];
    let second = [comment(1, "b", "t")];
    let record = updated_record(SeenRecord::default(), &None, &first, None, None);
    assert_eq!(record.comments[&1], content_hash("a"));
    let record = updated_record(record, &None, &second, None, None);
    assert_eq!(record.comments[&1], content_hash("b"));
    assert_eq!(
        content_hash("abc"),
        "ba7816bf8f01cfea414140de5dae2223b00361a396177a9cb410ff61f20015ad"
    );
}

fn bound(session: &str, modified: u64, path: &str) -> StateFile {
    StateFile {
        path: path.to_string(),
        modified,
        state: IssueState {
            prep: Some(PrepState {
                worktree_session_id: Some(session.to_string()),
                ..Default::default()
            }),
            ..Default::default()
        },
    }
}

#[test]
fn a_session_is_bound_to_its_latest_issue() {
    let files = vec![
        bound("s", 5, "/data/state/o/r/1.json"),
        bound("s", 9, "/data/state/o/r/2.json"),
        bound("other", 12, "/data/state/o/r/3.json"),
        bound("s", 20, "/elsewhere/4.json"),
    ];
    assert!(is_bound(&files[0].state, "s"));
    assert!(!is_bound(&files[2].state, "s"));
    let found = find_bound_issue(files, "/data/state", "s").unwrap();
    assert_eq!((found.owner.as_str(), found.repo.as_str(), found.number), ("o", "r", 2));
    assert!(is_bound(&found.state, "s"));
    let files = vec![bound("s", 5, "/data/state/o/r/1.json"), bound("s", 20, "/elsewhere/4.json")];
    assert!(find_bound_issue(files, "/data/state", "nobody").is_none());
    assert_eq!(
        bound_from_path("/data/state", "/data/state/o/r/2.json"),
        Some(("o".to_string(), "r".to_string(), 2))
    );
    assert_eq!(bound_from_path("/data/state", "/data/state/o/r/x.json"), None);
}
