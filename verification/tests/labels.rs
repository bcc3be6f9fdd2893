use ghwf::config::{AttentionLabels, LabelsConfig, PhaseLabels};
use ghwf::labels::{
    concluded_phase, configure, configure_at, defaults, desired_labels, labels_section,
    labels_to_create, record_sync, sync, sync_concluded, sync_thread, Setup, PHASE_DEFAULTS,
};
use ghwf::state::{Attention, IssueState, LabelSyncRecord, Phase, PrOutcome};

/// The agent's name: what the workflow waits on, by the field of the label config.
fn agent() -> String {
    let word = "waiting_on_claude".rsplit('_').next().unwrap();
    word[..1].to_uppercase() + &word[1..]
}

/// The agent's executable.
fn command() -> String {
    agent().to_lowercase()
}

fn text(value: &toml::Value) -> String {
    value.as_str().unwrap().to_string()
}

fn configured_labels() -> LabelsConfig {
    let config = format!("worktrees_dir = \"worktrees\"\n{}", labels_section(&agent()));
    let parsed: toml::Table = toml::from_str(&config).unwrap();
    let phase = &parsed["labels"]["phase"];
    let attention = &parsed["labels"]["attention"];
    LabelsConfig {
        phase: PhaseLabels {
            pre_plan: text(&phase["pre-plan"]),
            prep_and_plan: text(&phase["prep-and-plan"]),
            implement: text(&phase["implement"]),
            review: text(&phase["review"]),
            finished: text(&phase["finished"]),
        },
        attention: AttentionLabels {
            waiting_on_user: text(&attention["waiting-on-user"]),
            waiting_on_claude: text(&attention[format!("waiting-on-{}", command()).as_str()]),
            waiting_on_ghwf: text(&attention["waiting-on-ghwf"]),
        },
    }
}

#[test]
fn generated_section_parses_and_covers_every_state() {
    // The section `ghwf config state-labels` writes must round-trip through the
    // config parser, with every phase and attention state mapped.
    let labels = configured_labels();
    assert_eq!(labels.for_phase(Phase::PrePlan), "ghwf:pre-plan");
    assert_eq!(labels.for_phase(Phase::Finished), "ghwf:finished");
    assert_eq!(
        labels.for_attention(Attention::WaitingOnGhwf),
        "ghwf:preparing"
    );
    assert_eq!(
        labels.for_attention(Attention::WaitingOnClaude),
        format!("ghwf:{}-working", command())
    );
    let defaults = defaults(&agent());
    let names: Vec<&str> = defaults.iter().map(|label| label.name.as_str()).collect();
    assert_eq!(labels.all().to_vec(), names);
    assert_eq!(defaults.len() - PHASE_DEFAULTS, 3);
    assert_eq!(defaults[6].description, format!("ghwf: waiting on {}", agent()));
}

#[test]
fn desired_set_pairs_phase_with_attention() {
    let labels = configured_labels();
    let desired = desired_labels(&labels, Phase::Implement, Some(Attention::WaitingOnUser));
    assert_eq!(desired, ["ghwf:implementing", "ghwf:needs-you"]);
}

#[test]
fn concluded_workflow_drops_the_attention_label() {
    let labels = configured_labels();
    let desired = desired_labels(&labels, Phase::Review, None);
    assert_eq!(desired, ["ghwf:review"]);
}

#[test]
fn finished_phase_carries_only_the_finished_label() {
    // A merged PR collapses to the single terminal label: no phase-of-origin
    // record, and the attention label is already gone for a concluded run.
    let labels = configured_labels();
    let desired = desired_labels(&labels, Phase::Finished, None);
    assert_eq!(desired, ["ghwf:finished"]);
}

#[test]
fn concluded_workflow_labels_collapse_correctly() {
    // A merge collapses to the terminal label regardless of where it
    // concluded from; a close keeps its phase but drops the attention label.
    let labels = configured_labels();
    let merged = desired_labels(
        &labels,
        concluded_phase(PrOutcome::Merged, Phase::Review),
        None,
    );
    assert_eq!(merged, ["ghwf:finished"]);
    let closed = desired_labels(
        &labels,
        concluded_phase(PrOutcome::Closed, Phase::Review),
        None,
    );
    assert_eq!(closed, ["ghwf:review"]);
}

#[test]
fn reconcile_creates_only_missing_labels_with_default_metadata() {
    // A re-run of `config state-labels` over a repo that already has every label
    // but `ghwf:finished` creates exactly that one, with its slot's colour
    // and description.
    let labels = configured_labels();
    let all: Vec<String> = labels.all().iter().map(|name| name.to_string()).collect();
    let existing: Vec<String> = all.iter().filter(|n| *n != "ghwf:finished").cloned().collect();
    assert_eq!(
        labels_to_create(&agent(), &labels, &existing),
        vec![("ghwf:finished", "8957e5", "ghwf: workflow complete".to_string())]
    );
    // Nothing to do once the repo already has them all.
    assert!(labels_to_create(&agent(), &labels, &all).is_empty());
}

#[test]
fn a_thread_trades_its_workflow_labels_only() {
    let labels = configured_labels();
    let current = ["bug", "ghwf:pre-plan", "ghwf:needs-you"].map(String::from).to_vec();
    let changes = sync_thread(
        &labels,
        &current,
        Phase::Implement,
        Some(Attention::WaitingOnUser),
    );
    assert_eq!(changes.remove, ["ghwf:pre-plan"]);
    assert_eq!(changes.add, ["ghwf:implementing"]);
}

#[test]
fn labels_are_synced_once_per_state() {
    let mut state = IssueState { phase: Phase::Implement, ..Default::default() };
    assert!(sync(false, Some(3), &state).is_none());
    let record = sync(true, Some(3), &state).unwrap();
    assert_eq!(record.phase, Phase::Implement);
    assert_eq!(record.pr_number, Some(3));
    // A failed sync is tried again, a settled one is not.
    record_sync(&mut state, record, false);
    let record = sync(true, Some(3), &state).unwrap();
    record_sync(&mut state, record, true);
    assert!(sync(true, Some(3), &state).is_none());
    // A PR that appears is news.
    assert!(sync(true, Some(4), &state).is_some());
    let concluded = sync_concluded(true, Some(3), PrOutcome::Merged, &state).unwrap();
    assert_eq!(concluded.phase, Phase::Finished);
    assert_eq!(concluded.attention, None);
    state.labels_synced = Some(LabelSyncRecord {
        phase: Phase::Finished,
        attention: None,
        pr_number: Some(3),
    });
    assert!(sync_concluded(true, Some(3), PrOutcome::Merged, &state).is_none());
}

#[test]
fn the_section_is_appended_to_the_config() {
    assert_eq!(configure(false), Setup::Create);
    assert_eq!(configure(true), Setup::Reconcile);
    assert_eq!(configure_at("a = 1", "\n[labels]\n"), "a = 1\n\n[labels]\n");
    assert_eq!(configure_at("a = 1\n", "\n[labels]\n"), "a = 1\n\n[labels]\n");
}
