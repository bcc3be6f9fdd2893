use ghwf::notification_hook::{episode_start, note_alert};
use ghwf::onboarding::{run as onboarding, CONTENT};
use ghwf::prep::{commit_message, complete_body, no_branch_body, plan_needed_body, PrepStep};
use ghwf::priority_labels::{
    colour_for, configure, create_in_repo, description_for, digest_colour, labels_to_create,
};
use ghwf::resync::{repos_to_sweep, reset_if_abandoned, should_reset_attention};
use ghwf::state::{AlertKind, Attention, IssueState, PrepState, SessionAlert};

/// The agent's name: what the workflow waits on, by the field of the label config.
fn agent() -> String {
    let word = "waiting_on_claude".rsplit('_').next().unwrap();
    word[..1].to_uppercase() + &word[1..]
}

fn alert(kind: AlertKind, session_id: &str, at: u64) -> SessionAlert {
    SessionAlert { kind, session_id: session_id.to_string(), at }
}

#[test]
fn fresh_episode_when_no_prior_alert() {
    assert_eq!(episode_start(None, AlertKind::Idle, "s1", 100), 100);
}

#[test]
fn same_kind_and_session_keeps_start_time() {
    let prev = alert(AlertKind::Idle, "s1", 100);
    assert_eq!(episode_start(Some(&prev), AlertKind::Idle, "s1", 250), 100);
}

#[test]
fn changed_kind_or_session_restarts_episode() {
    let prev = alert(AlertKind::Idle, "s1", 100);
    // Different kind.
    assert_eq!(episode_start(Some(&prev), AlertKind::Permission, "s1", 250), 250);
    // Different session.
    assert_eq!(episode_start(Some(&prev), AlertKind::Idle, "s2", 250), 250);
}

#[test]
fn repeated_alerts_keep_the_time_they_began() {
    let mut state = IssueState::default();
    note_alert(&mut state, AlertKind::Idle, "s1", 100);
    note_alert(&mut state, AlertKind::Idle, "s1", 300);
    assert_eq!(state.session_alert.unwrap().at, 100);
}

#[test]
fn names_the_authorised_participant_boundary() {
    // The framing must point trust at the already-authenticated allow-list /
    // collaborator channel, not at "anything on the internet".
    assert!(CONTENT.contains("authorised"));
    assert!(CONTENT.contains("allow-list"));
    assert!(CONTENT.contains("collaborators"));
}

#[test]
fn trust_is_explicitly_bounded() {
    // It must say the trust does NOT extend to arbitrary/other sources, so a
    // reword can't quietly turn it into a blanket "trust everything".
    assert!(CONTENT.contains("bounded"));
    assert!(CONTENT.contains("does NOT extend"));
    assert!(CONTENT.contains("web pages"));
    assert!(CONTENT.contains("unauthenticated"));
}

#[test]
fn is_not_a_safety_bypass() {
    // The framing must keep the agent's judgement about whether an action is
    // safe, and disclaim being a safety bypass.
    assert!(CONTENT.contains("judgement"));
    assert!(CONTENT.contains("safe"));
    assert!(CONTENT.contains("bypass legitimate safety behaviour"));
}

#[test]
fn onboarding_prints_the_content() {
    assert!(onboarding().starts_with(CONTENT.trim_end()));
}

#[test]
fn complete_body_includes_wait_instruction() {
    let body = complete_body("/wt", "b", "https://github.com/o/r/pull/18", 7);
    assert!(body.contains("`ghwf wait 7`"));
}

#[test]
fn plans_are_files() {
    assert_eq!(commit_message(12, "Fix it"), "Add plan for #12: Fix it");
    let body = no_branch_body(&agent(), "plans/7-x.md");
    assert!(body.contains(&format!("(do not use {} Code plan mode)", agent())));
    let body = plan_needed_body(&agent(), "/wt", "b", "/wt/plans/7-x.md", 7);
    assert!(body.contains(&format!("(do not use {} Code plan mode), then re-run", agent())));
    assert!(body.contains("`ghwf work-on 7`"));
}

/// The steps that a preparation takes until it stops, where `yes` answers each.
fn prepare(yes: impl Fn(&PrepStep) -> bool, pr_known: bool) -> Vec<PrepStep> {
    let mut steps = vec![PrepStep::CheckPlan];
    loop {
        let step = steps[steps.len() - 1];
        if matches!(step, PrepStep::Complete | PrepStep::PlanNeeded) {
            return steps;
        }
        assert!(steps.len() < 9);
        steps.push(ghwf::prep::run(step, yes(&step), pr_known));
    }
}

#[test]
fn a_preparation_does_only_what_remains() {
    let steps = prepare(|_| true, true);
    assert_eq!(steps.len(), 4);
    assert!(!steps.iter().any(|step| matches!(step, PrepStep::Commit | PrepStep::Push)));
    // With nothing done but the plan, every step is taken.
    let steps = prepare(|step| matches!(step, PrepStep::CheckPlan), false);
    assert_eq!(steps.len(), 8);
    assert!(matches!(steps[2], PrepStep::Commit));
    assert!(matches!(steps[4], PrepStep::Push));
    assert!(matches!(steps[6], PrepStep::OpenPr));
    assert!(matches!(prepare(|_| false, false)[..], [_, PrepStep::PlanNeeded]));
}

#[test]
fn a_finished_preparation_stays_finished() {
    assert!(matches!(
        ghwf::prep::run(PrepStep::Complete, true, true),
        PrepStep::Complete
    ));
}

#[test]
fn recognised_colours_are_case_insensitive() {
    assert_eq!(colour_for("high-priority"), "fbca04");
    assert_eq!(colour_for("High-Priority"), "fbca04");
    assert_eq!(colour_for("medium-priority"), "fef2c0");
}

#[test]
fn digest_colour_is_deterministic_and_valid() {
    let first = digest_colour("soon");
    assert_eq!(first, digest_colour("soon"));
    assert_eq!(first.len(), 6);
    assert!(first.chars().all(|c| c.is_ascii_hexdigit() && !c.is_ascii_uppercase()));
    // Case-insensitive, like the recognised lookup.
    assert_eq!(digest_colour("Soon"), first);
    // Different names generally land on different colours.
    assert_ne!(digest_colour("soon"), digest_colour("later"));
}

#[test]
fn labels_to_create_skips_existing_case_insensitively() {
    let labels = vec!["high-priority".to_string(), "soon".to_string()];
    let existing = vec!["High-Priority".to_ascii_lowercase()];
    let to_create = labels_to_create(&labels, &existing);
    // Only `soon` is missing; it gets its digest colour and empty description.
    assert_eq!(to_create.len(), 1);
    assert_eq!(to_create[0].name, "soon");
    assert_eq!(to_create[0].color, digest_colour("soon"));
    assert_eq!(to_create[0].description, "");
    assert_eq!(description_for("soon"), "");
}

#[test]
fn empty_priority_labels_creates_nothing() {
    let labels: Vec<String> = Vec::new();
    let to_create = labels_to_create(&labels, &Vec::new());
    assert!(to_create.is_empty());
    assert!(configure(0, 0).is_some());
    assert!(configure(2, 1).is_none());
}

#[test]
fn resets_only_unconcluded_machine_states() {
    // The "machine is working" states on unconcluded work are the crash
    // signature: reset them.
    assert!(should_reset_attention(false, Attention::WaitingOnGhwf));
    assert!(should_reset_attention(false, Attention::WaitingOnClaude));

    // An issue already resting on the user is already correct — never reset.
    assert!(!should_reset_attention(false, Attention::WaitingOnUser));

    // A concluded workflow waits on nobody, whatever the attention.
    assert!(!should_reset_attention(true, Attention::WaitingOnGhwf));
    assert!(!should_reset_attention(true, Attention::WaitingOnClaude));
    assert!(!should_reset_attention(true, Attention::WaitingOnUser));
}

#[test]
fn abandoned_issues_are_handed_to_the_user_once() {
    let mut state = IssueState { attention: Attention::WaitingOnClaude, ..IssueState::default() };
    assert!(!reset_if_abandoned(&mut state, false));
    assert!(reset_if_abandoned(&mut state, true));
    assert!(matches!(state.attention, Attention::WaitingOnUser));
    assert!(!reset_if_abandoned(&mut state, true));
}

#[test]
fn each_repo_is_swept_once() {
    let repo = |o: &str, r: &str| (o.to_string(), r.to_string());
    let swept = repos_to_sweep(repo("o", "code"), vec![repo("o", "docs"), repo("o", "code")]);
    assert_eq!(swept, [repo("o", "code"), repo("o", "docs")]);
}

#[test]
fn a_session_is_recorded_for_its_worktree() {
    let mut prep = PrepState { worktree_path: Some("/wt".to_string()), ..PrepState::default() };
    ghwf::work_on::record_session(&mut prep, false, "s1");
    assert!(prep.worktree_session_id.is_none());
    ghwf::work_on::record_session(&mut prep, true, "s1");
    assert_eq!(prep.worktree_session_id.as_deref(), Some("s1"));
}

#[test]
fn creating_priority_labels_twice_creates_nothing_more() {
    let labels = vec!["High-Priority".to_string(), "soon".to_string()];
    let mut listed = vec!["high-priority".to_string(), "Bug".to_string()];
    let created = create_in_repo(&labels, &listed);
    assert_eq!(created.len(), 1);
    assert_eq!(created[0].name, "soon");
    assert_eq!(created[0].color, digest_colour("soon"));
    listed.push("Soon".to_string());
    assert!(create_in_repo(&labels, &listed).is_empty());
}
