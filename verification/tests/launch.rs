use ghwf::launch::{
    classify_alert, claude_args, clear_alert, current_alert, leave_with_user, monitor_child, munge,
    mode_note, parked_notice, parse_model, prepare, recompute_resume, refuse_to_start,
    resumable_session, shutdown, starting_line, stuck_notice, supervise_once, supervision_line,
    transcript_path, worktree_session, AlertAction, Disposition, Launch, LaunchError,
    ModelProblem, ModelSelection, Outcome, Place, Reason, ShutdownStep, Supervision,
    MAX_AUTO_RESTARTS, NUDGE_CAP, RECOVERY_GRACE,
};
use ghwf::state::{AlertKind, Attention, IssueState, PrepState, SessionAlert};

/// The agent's name: what the workflow waits on, by the field of the label config.
fn agent() -> String {
    let word = "waiting_on_claude".rsplit('_').next().unwrap();
    word[..1].to_uppercase() + &word[1..]
}

/// The agent's executable.
fn command() -> String {
    agent().to_lowercase()
}

const GRACE: u64 = RECOVERY_GRACE;

#[test]
fn unambiguous_idle_recovers_immediately() {
    // Stop hook exhausted and the session is idle: the loop is definitively
    // broken, so recover at once — no grace wait.
    assert_eq!(
        classify_alert(AlertKind::Idle, NUDGE_CAP, 0),
        AlertAction::Recover
    );
}

#[test]
fn ambiguous_idle_waits_out_the_grace() {
    // Idle but the Stop hook hasn't given up: hold off until the grace passes.
    assert_eq!(
        classify_alert(AlertKind::Idle, NUDGE_CAP - 1, 0),
        AlertAction::Wait
    );
    assert_eq!(
        classify_alert(AlertKind::Idle, NUDGE_CAP - 1, GRACE - 1),
        AlertAction::Wait
    );
    assert_eq!(
        classify_alert(AlertKind::Idle, NUDGE_CAP - 1, GRACE),
        AlertAction::Recover
    );
}

#[test]
fn permission_is_always_ambiguous() {
    // A permission prompt never counts as an unambiguous lockup, even with
    // the Stop hook exhausted — a human may be about to clear it.
    assert_eq!(
        classify_alert(AlertKind::Permission, NUDGE_CAP, 0),
        AlertAction::Wait
    );
    assert_eq!(
        classify_alert(AlertKind::Permission, NUDGE_CAP, GRACE),
        AlertAction::Recover
    );
}

/// Issue state carrying an alert for `alert_session`, recorded against
/// `recorded_session` as the worktree's live session.
fn state_with_alert(recorded_session: &str, alert_session: &str) -> IssueState {
    IssueState {
        prep: Some(PrepState {
            worktree_session_id: Some(recorded_session.to_string()),
            ..Default::default()
        }),
        session_alert: Some(SessionAlert {
            kind: AlertKind::Idle,
            session_id: alert_session.to_string(),
            at: 0,
        }),
        ..Default::default()
    }
}

#[test]
fn current_alert_matches_the_running_session() {
    let state = state_with_alert("live", "live");
    assert!(current_alert(&state).is_some());
}

#[test]
fn current_alert_ignores_a_stale_session() {
    // An alert left by a prior session (different id) isn't acted on.
    let state = state_with_alert("live", "old");
    assert!(current_alert(&state).is_none());
    // No alert, or no recorded session, is also nothing to act on.
    assert!(current_alert(&IssueState::default()).is_none());
}

#[test]
fn no_model_line_is_default() {
    assert!(matches!(parse_model(None), ModelSelection::Default));
    assert!(matches!(
        parse_model(Some("Just a normal issue body.\nNo model here.")),
        ModelSelection::Default
    ));
}

#[test]
fn single_model_line_selects_the_value() {
    // Alias, full name, case-insensitive key, and surrounding whitespace all
    // resolve to the verbatim trimmed value.
    for (body, want) in [
        ("Model: opus", "opus"),
        ("model: sonnet", "sonnet"),
        ("MODEL: fable", "fable"),
        (
            format!("Fix the thing.\n\n  Model:  {}-fable-5  \n\nThanks.", command()).as_str(),
            format!("{}-fable-5", command()).as_str(),
        ),
    ] {
        match parse_model(Some(body)) {
            ModelSelection::Selected(value) => assert_eq!(value, want, "body: {body:?}"),
            other => panic!("expected Selected for {body:?}, got {other:?}"),
        }
    }
}

#[test]
fn value_is_taken_verbatim_including_inner_colons() {
    // Only the first colon splits key from value; the rest is passed through.
    match parse_model(Some("Model: vendor:model-x")) {
        ModelSelection::Selected(value) => assert_eq!(value, "vendor:model-x"),
        other => panic!("expected Selected, got {other:?}"),
    }
}

#[test]
fn empty_value_is_a_problem() {
    assert!(matches!(
        parse_model(Some("Model:")),
        ModelSelection::Problem(ModelProblem::Empty)
    ));
    assert!(matches!(
        parse_model(Some("Model:   ")),
        ModelSelection::Problem(ModelProblem::Empty)
    ));
}

#[test]
fn multiple_model_lines_are_a_problem() {
    match parse_model(Some("Model: opus\nModel: sonnet")) {
        ModelSelection::Problem(ModelProblem::Multiple(lines)) => {
            assert_eq!(lines, ["Model: opus", "Model: sonnet"]);
        }
        other => panic!("expected Multiple, got {other:?}"),
    }
}

#[test]
fn decorated_lines_do_not_qualify() {
    // The whole trimmed line must be the key, so list items and markdown
    // emphasis around it don't false-positive as a selection.
    assert!(matches!(
        parse_model(Some("- Model: opus\n**Model:** sonnet")),
        ModelSelection::Default
    ));
}

#[test]
fn claude_args_includes_flags_only_when_set() {
    // Nothing set: just the initial prompt.
    assert_eq!(claude_args(None, None, None), ["/work-on"]);
    // Model only.
    assert_eq!(
        claude_args(None, None, Some("opus")),
        ["--model", "opus", "/work-on"]
    );
    // All three, in resume / permission-mode / model order, prompt last.
    assert_eq!(
        claude_args(Some("sess-1"), Some("auto"), Some(&format!("{}-fable-5", command()))),
        [
            "--resume",
            "sess-1",
            "--permission-mode",
            "auto",
            "--model",
            &format!("{}-fable-5", command()),
            "/work-on"
        ]
    );
}

#[test]
fn munge_replaces_non_alphanumerics() {
    // Mirrors real entries under the agent's projects directory: `/`, `.`, and `_` all
    // become `-`.
    assert_eq!(
        munge("/Users/jeff/Projects/ghwf/repo.git"),
        "-Users-jeff-Projects-ghwf-repo-git"
    );
    assert_eq!(
        munge("/tmp/worktrees/issue_2_foo"),
        "-tmp-worktrees-issue-2-foo"
    );
}

#[test]
fn transcript_path_layout() {
    // A nonexistent dir can't canonicalize, so the path is munged as-is.
    let path = transcript_path(
        &format!("/home/u/.{}", command()),
        "/nonexistent/wt_1",
        "abc-123",
    );
    assert_eq!(
        path,
        format!("/home/u/.{}/projects/-nonexistent-wt-1/abc-123.jsonl", command())
    );
}

/// Issue state recording `session` for a worktree.
fn state_with_session(worktree: &str, session: &str) -> IssueState {
    IssueState {
        prep: Some(PrepState {
            worktree_path: Some(worktree.to_string()),
            worktree_session_id: Some(session.to_string()),
            ..Default::default()
        }),
        ..Default::default()
    }
}

#[test]
fn a_session_resumes_only_with_its_transcript() {
    let state = state_with_session("/wt", "sess-1");
    assert_eq!(worktree_session(&state).as_deref(), Some("sess-1"));
    assert_eq!(resumable_session(&state, true).as_deref(), Some("sess-1"));
    assert_eq!(resumable_session(&state, false), None);
    assert_eq!(resumable_session(&IssueState::default(), true), None);
}

#[test]
fn model_problems_are_reported_and_hand_over() {
    let mut state = IssueState { attention: Attention::WaitingOnClaude, ..Default::default() };
    let refusal = refuse_to_start(&mut state, 7, &ModelProblem::Empty);
    assert_eq!(state.attention, Attention::WaitingOnUser);
    assert_eq!(
        refusal.error,
        "issue #7 has a `Model:` line with no value; set a model or remove the line, then relaunch."
    );
    assert!(refusal.comment.contains("Its `Model:` line has no value."));
    let lines = vec!["Model: a".to_string(), "Model: b".to_string()];
    let refusal = refuse_to_start(&mut state, 7, &ModelProblem::Multiple(lines));
    assert!(refusal.comment.contains("> Model: a\n> Model: b"));
    assert!(refusal.error.contains("more than one `Model:` line"));
}

#[test]
fn a_launch_finds_its_place() {
    let mut state = state_with_session("/wt", "s");
    let plan = prepare(&mut state, 7, true, Some(Some("Model: opus")), true).ok().unwrap();
    assert!(matches!(plan.place, Place::Worktree(p) if p == "/wt"));
    assert_eq!(plan.model.as_deref(), Some("opus"));
    assert!(plan.flag_ignored);
    match prepare(&mut state, 7, false, None, false) {
        Err(LaunchError::WorktreeGone(e)) => assert!(e.starts_with(
            "the worktree recorded for issue #7, `/wt`, no longer exists on disk"
        )),
        _ => panic!("expected the worktree to be missed"),
    }
    let mut state = IssueState::default();
    let plan = prepare(&mut state, 7, false, Some(None), false).ok().unwrap();
    assert!(matches!(plan.place, Place::New));
    assert!(state.prep.is_none());
    let plan = prepare(&mut state, 7, true, None, false).ok().unwrap();
    assert!(matches!(plan.place, Place::Here));
    assert!(state.prep.unwrap().no_branch);
    let mut state = IssueState::default();
    assert!(matches!(
        prepare(&mut state, 7, true, Some(Some("Model:")), true),
        Err(LaunchError::Model(ModelProblem::Empty))
    ));
    assert!(state.prep.is_none());
}

#[test]
fn starts_are_announced() {
    assert_eq!(
        starting_line(&agent(), None, "/wt", Some("auto")),
        format!("Starting a fresh {} session in `/wt` with `--permission-mode auto`.", agent())
    );
    assert_eq!(
        starting_line(&agent(), Some("s"), "/wt", None),
        format!(
            "Resuming this worktree's previous {} session: launching `{} --resume s` in `/wt`.",
            agent(),
            command()
        )
    );
    assert_eq!(mode_note(None), "");
}

#[test]
fn a_watched_session_is_announced_once_per_episode() {
    let mut state = state_with_alert("live", "live");
    let mut announced = false;
    let look = monitor_child(None, Some(&state), &mut announced, 10);
    assert_eq!(look.announce, Some(AlertKind::Idle));
    assert_eq!(look.disposition, None);
    let look = monitor_child(None, Some(&state), &mut announced, 20);
    assert_eq!(look.announce, None);
    let look = monitor_child(None, Some(&state), &mut announced, GRACE);
    assert_eq!(look.disposition, Some(Disposition::Recover(Reason::Stuck)));
    // The alert passes, and the next one is news again.
    assert!(clear_alert(&mut state));
    assert!(!clear_alert(&mut state));
    monitor_child(None, Some(&state), &mut announced, 30);
    assert!(!announced);
}

#[test]
fn a_child_that_leaves_is_told_apart() {
    let state = IssueState { issue_closed: true, ..Default::default() };
    let mut announced = false;
    let look = monitor_child(None, Some(&state), &mut announced, 0);
    assert_eq!(look.disposition, Some(Disposition::Concluded));
    let look = monitor_child(Some(true), None, &mut announced, 0);
    assert_eq!(look.disposition, Some(Disposition::UserQuit));
    let look = monitor_child(Some(false), None, &mut announced, 0);
    assert_eq!(look.disposition, Some(Disposition::Recover(Reason::Crashed)));
    let look = monitor_child(None, None, &mut announced, 0);
    assert_eq!(look.disposition, None);
}

#[test]
fn recoveries_run_out() {
    let crash = Disposition::Recover(Reason::Crashed);
    let mut restarts = 0;
    for attempt in 1..=MAX_AUTO_RESTARTS {
        assert_eq!(supervise_once(&mut restarts, crash), Supervision::Resume);
        assert_eq!(restarts, attempt);
    }
    assert_eq!(
        supervision_line(7, Supervision::Resume, crash, 2),
        "Issue #7: the session crashed; resuming (attempt 2/2)."
    );
    assert_eq!(supervise_once(&mut restarts, crash), Supervision::Park);
    assert_eq!(
        supervision_line(7, Supervision::Park, crash, 3),
        "Issue #7: auto-recovery exhausted after 2 attempt(s); leaving the session with the user."
    );
    let mut restarts = 0;
    assert_eq!(supervise_once(&mut restarts, Disposition::Concluded), Supervision::BringDown);
    assert_eq!(supervise_once(&mut restarts, Disposition::UserQuit), Supervision::Leave);
    assert_eq!(Supervision::BringDown.outcome(), Some(Outcome::Completed));
    assert_eq!(Supervision::Leave.outcome(), Some(Outcome::UserQuit));
    assert_eq!(Supervision::Resume.outcome(), None);
}

#[test]
fn a_relaunch_resumes_what_is_recorded_now() {
    let mut launch = Launch {
        owner: "o".to_string(),
        repo: "r".to_string(),
        code_owner: "o".to_string(),
        code_repo: "r".to_string(),
        number: 7,
        issue_url: "u".to_string(),
        permission_mode: None,
        model: None,
        dir: Some("/wt".to_string()),
        resume: Some("old".to_string()),
    };
    let state = state_with_session("/wt", "new");
    recompute_resume(&mut launch, None, true);
    assert_eq!(launch.resume.as_deref(), Some("old"));
    recompute_resume(&mut launch, Some(&state), true);
    assert_eq!(launch.resume.as_deref(), Some("new"));
    recompute_resume(&mut launch, Some(&state), false);
    assert_eq!(launch.resume, None);
}

#[test]
fn notices_tell_the_user() {
    let notice = stuck_notice(&agent(), AlertKind::Permission);
    assert!(notice.contains("is parked on a permission prompt."));
    assert!(stuck_notice(&agent(), AlertKind::Idle).contains("appears to have gone idle"));
    assert!(parked_notice(&agent(), 3).contains("session 3 time(s) but"));
    let mut state = IssueState::default();
    leave_with_user(&mut state);
    assert_eq!(state.attention, Attention::WaitingOnUser);
}

#[test]
fn shutdown_escalates_until_the_child_is_gone() {
    let mut steps = Vec::new();
    let mut last = None;
    loop {
        let step = shutdown(last, false);
        steps.push(step);
        if step == ShutdownStep::Reap {
            break;
        }
        last = Some(step);
    }
    assert_eq!(
        steps,
        [
            ShutdownStep::DoubleInterrupt,
            ShutdownStep::Terminate,
            ShutdownStep::Kill,
            ShutdownStep::Reap
        ]
    );
    assert_eq!(shutdown(Some(ShutdownStep::DoubleInterrupt), true), ShutdownStep::Reap);
}
