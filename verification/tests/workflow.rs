use ghwf::access::AccessList;
use ghwf::github::RepoRef;
use ghwf::models::{Comment, Head, PullRequest, Reaction, User};
use ghwf::options::build_options_body;
use ghwf::render::{
    build_comment_body, build_status_comment_body, hidden_from_digest, NoteKind, Transition,
    Trigger,
};
use ghwf::state::{Directive, IssueState, Phase, PrOutcome, PrepState};
use ghwf::store::content_hash;
use ghwf::threads::{collect_new_comments, latest_prompt_watch, scan_options};
use ghwf::workflow::{
    advance_on_pr_ready, advance_phase, needs_worktree_guard, AdvanceOutcome, PromptThumbs,
};
use std::collections::BTreeMap;

/// The agent's name: what the workflow waits on, by the field of the label config.
fn agent() -> String {
    let word = "waiting_on_claude".rsplit('_').next().unwrap();
    word[..1].to_uppercase() + &word[1..]
}

/// Unpack a directive-fired transition, panicking on a PR-ready one.
fn directive_parts(transition: &Transition) -> (&'static str, &str, bool) {
    match &transition.trigger {
        Trigger::Directive {
            command,
            by,
            via_reaction,
        } => (command, by.as_str(), *via_reaction),
        Trigger::PrReady => panic!("expected a directive trigger"),
    }
}

// An accept-all policy for the existing advance_phase tests: the comment
// helper's author ("user") is the authenticated user, and the reaction
// helper's author ("reactor") is allow-listed.
fn access_all() -> AccessList {
    AccessList::new("user", &["reactor".to_string()])
}

fn repo_ref() -> RepoRef {
    ("o".to_string(), "r".to_string())
}

fn comment(id: u64, body: &str, created_at: &str) -> Comment {
    Comment {
        id,
        user: User {
            login: "user".to_string(),
        },
        body: body.to_string(),
        created_at: created_at.to_string(),
        updated_at: created_at.to_string(),
        html_url: format!("https://github.com/o/r/issues/1#issuecomment-{id}"),
        author_association: "OWNER".to_string(),
        reactions: None,
    }
}

fn reaction(id: u64, content: &str, created_at: &str) -> Reaction {
    Reaction {
        id,
        user: User {
            login: "reactor".to_string(),
        },
        content: content.to_string(),
        created_at: created_at.to_string(),
    }
}

fn thumbs(comment_id: u64, directive: Directive, reactions: Vec<Reaction>) -> PromptThumbs {
    PromptThumbs {
        comment_id,
        directive,
        source: "issue",
        reactions,
    }
}

fn state_in(phase: Phase) -> IssueState {
    IssueState {
        phase,
        ..Default::default()
    }
}

#[test]
fn worktree_guard_skipped_once_pr_concluded() {
    let mut state = IssueState {
        phase: Phase::Implement,
        prep: Some(PrepState {
            worktree_path: Some("/wt".into()),
            ..Default::default()
        }),
        ..Default::default()
    };
    assert!(needs_worktree_guard(Phase::Implement, &state));
    state.pr_outcome = Some(PrOutcome::Merged);
    assert!(!needs_worktree_guard(Phase::Implement, &state));
}

#[test]
fn matching_directive_advances_and_consumes() {
    let mut state = state_in(Phase::PrePlan);
    let comments = [comment(1, "/approve-pre-plan", "2026-01-01T00:00:00Z")];
    let outcome = advance_phase(
        &mut state,
        &comments,
        None,
        &[],
        &access_all(),
        &repo_ref(),
        &repo_ref(),
    );
    assert_eq!(state.phase, Phase::PrepAndPlan);
    assert_eq!(outcome.transitions.len(), 1);
    assert_eq!(
        directive_parts(&outcome.transitions[0]).0,
        "/approve-pre-plan"
    );
    assert!(state.consumed_directives.contains(&1));
    assert!(outcome.notes.is_empty());
}

#[test]
fn pr_thread_directive_advances() {
    let mut state = state_in(Phase::PrepAndPlan);
    let pr = [comment(2, "/approve-plan", "2026-01-01T00:00:00Z")];
    let outcome = advance_phase(
        &mut state,
        &[],
        Some(&pr),
        &[],
        &access_all(),
        &repo_ref(),
        &repo_ref(),
    );
    assert_eq!(state.phase, Phase::Implement);
    assert_eq!(outcome.transitions.len(), 1);
    assert_eq!(directive_parts(&outcome.transitions[0]).1, "user");
}

#[test]
fn duplicate_across_threads_is_stale() {
    let mut state = state_in(Phase::PrepAndPlan);
    let issue = [comment(1, "/approve-plan", "2026-01-01T00:00:00Z")];
    let pr = [comment(2, "/approve-plan", "2026-01-01T00:01:00Z")];
    let outcome = advance_phase(
        &mut state,
        &issue,
        Some(&pr),
        &[],
        &access_all(),
        &repo_ref(),
        &repo_ref(),
    );
    assert_eq!(state.phase, Phase::Implement);
    assert_eq!(outcome.transitions.len(), 1);
    assert_eq!(outcome.notes.len(), 1);
    assert!(matches!(outcome.notes[0].kind, NoteKind::Stale));
    assert_eq!(outcome.notes[0].source, "PR");
    assert!(state.consumed_directives.contains(&2));
}

#[test]
fn premature_directive_is_noted_not_fired() {
    let mut state = state_in(Phase::PrePlan);
    let comments = [comment(1, "/approve-plan", "2026-01-01T00:00:00Z")];
    let outcome = advance_phase(
        &mut state,
        &comments,
        None,
        &[],
        &access_all(),
        &repo_ref(),
        &repo_ref(),
    );
    assert_eq!(state.phase, Phase::PrePlan);
    assert!(outcome.transitions.is_empty());
    assert!(matches!(outcome.notes[0].kind, NoteKind::Premature));
    // Consumed: it must never fire later once the phase catches up.
    assert!(state.consumed_directives.contains(&1));
}

#[test]
fn retired_commands_are_noted_not_fired() {
    for command in ["/proceed", "/approve-implementation"] {
        let mut state = state_in(Phase::PrePlan);
        let comments = [comment(1, command, "2026-01-01T00:00:00Z")];
        let outcome = advance_phase(
            &mut state,
            &comments,
            None,
            &[],
            &access_all(),
            &repo_ref(),
            &repo_ref(),
        );
        assert_eq!(state.phase, Phase::PrePlan);
        assert!(outcome.transitions.is_empty());
        assert!(matches!(outcome.notes[0].kind, NoteKind::Retired));
        assert!(state.consumed_directives.contains(&1));
    }
}

fn pull_request(draft: bool, state: &str, merged: bool) -> PullRequest {
    PullRequest {
        number: 18,
        title: "PR".to_string(),
        state: state.to_string(),
        merged,
        draft,
        body: None,
        html_url: "https://github.com/o/r/pull/18".to_string(),
        head: Head {
            ref_name: "branch".to_string(),
            sha: "sha".to_string(),
        },
    }
}

#[test]
fn pr_ready_advances_implement_to_review() {
    let mut state = state_in(Phase::Implement);
    let mut outcome = AdvanceOutcome::default();
    advance_on_pr_ready(
        &mut state,
        Some(&pull_request(false, "open", false)),
        &mut outcome,
    );
    assert_eq!(state.phase, Phase::Review);
    assert_eq!(outcome.transitions.len(), 1);
    assert!(matches!(outcome.transitions[0].trigger, Trigger::PrReady));
}

#[test]
fn draft_pr_does_not_advance_implement() {
    let mut state = state_in(Phase::Implement);
    let mut outcome = AdvanceOutcome::default();
    advance_on_pr_ready(
        &mut state,
        Some(&pull_request(true, "open", false)),
        &mut outcome,
    );
    assert_eq!(state.phase, Phase::Implement);
    assert!(outcome.transitions.is_empty());
    // No PR recorded at all: likewise nothing fires.
    advance_on_pr_ready(&mut state, None, &mut outcome);
    assert_eq!(state.phase, Phase::Implement);
}

#[test]
fn pr_ready_fires_only_from_implement_and_only_while_open() {
    // Other phases: a ready PR means nothing (it is ready throughout review).
    for phase in [Phase::PrePlan, Phase::PrepAndPlan, Phase::Review] {
        let mut state = state_in(phase);
        let mut outcome = AdvanceOutcome::default();
        advance_on_pr_ready(
            &mut state,
            Some(&pull_request(false, "open", false)),
            &mut outcome,
        );
        assert_eq!(state.phase, phase);
        assert!(outcome.transitions.is_empty());
    }
    // A concluded workflow runs no transition either.
    let mut state = state_in(Phase::Implement);
    state.pr_outcome = Some(PrOutcome::Merged);
    let mut outcome = AdvanceOutcome::default();
    advance_on_pr_ready(
        &mut state,
        Some(&pull_request(false, "closed", true)),
        &mut outcome,
    );
    assert_eq!(state.phase, Phase::Implement);
    assert!(outcome.transitions.is_empty());
}

#[test]
fn status_comments_are_not_directives() {
    let mut state = state_in(Phase::PrePlan);
    // A status comment may mention an approval command at line start.
    let body = build_status_comment_body("/approve-pre-plan");
    let comments = [comment(1, &body, "2026-01-01T00:00:00Z")];
    let outcome = advance_phase(
        &mut state,
        &comments,
        None,
        &[],
        &access_all(),
        &repo_ref(),
        &repo_ref(),
    );
    assert_eq!(state.phase, Phase::PrePlan);
    assert!(outcome.transitions.is_empty());
    assert!(outcome.notes.is_empty());
    assert!(!state.consumed_directives.contains(&1));
}

#[test]
fn collect_new_comments_diffs_against_seen_map() {
    let comments = [
        comment(1, "already seen", "2026-01-01T00:00:00Z"),
        comment(2, "now edited", "2026-01-01T00:01:00Z"),
        comment(3, "brand new", "2026-01-01T00:02:00Z"),
        comment(
            4,
            &build_status_comment_body("machinery"),
            "2026-01-01T00:03:00Z",
        ),
        comment(
            5,
            &build_comment_body(&agent(), "mine", Some("mine")),
            "2026-01-01T00:04:00Z",
        ),
    ];

    let seen: BTreeMap<u64, String> = [
        (1, content_hash("already seen")),
        (2, content_hash("original")),
    ]
    .into();

    let (new, ignored) = collect_new_comments(&comments, &seen, "mine", &access_all(), "issue");
    assert_eq!(new.len(), 2);
    assert_eq!(new[0].comment.id, 2);
    assert!(new[0].updated);
    assert_eq!(new[1].comment.id, 3);
    assert!(!new[1].updated);
    // The comment helper's author is the authenticated user, so nothing is
    // ignored on acceptance grounds here.
    assert!(ignored.is_empty());
}

#[test]
fn collect_new_comments_filters_non_allow_listed_authors() {
    let mut stranger = comment(1, "drive-by", "2026-01-01T00:00:00Z");
    stranger.user.login = "stranger".to_string();
    stranger.author_association = "NONE".to_string();
    let mine = comment(2, "from me", "2026-01-01T00:01:00Z");
    let comments = [stranger, mine];
    let seen: BTreeMap<u64, String> = BTreeMap::new();

    // "user" is the authenticated user; "stranger" (NONE) is not allowed.
    let access = AccessList::new("user", &[]);
    let (new, ignored) = collect_new_comments(&comments, &seen, "tok", &access, "issue");
    assert_eq!(new.len(), 1);
    assert_eq!(new[0].comment.id, 2);
    assert_eq!(ignored.len(), 1);
    assert_eq!(ignored[0].by, "stranger");
}

#[test]
fn digest_hides_status_always_and_own_session_comments_only() {
    let status = build_status_comment_body("update");
    assert!(hidden_from_digest(&status, Some("mine")));
    let mine = build_comment_body(&agent(), "hi", Some("mine"));
    let theirs = build_comment_body(&agent(), "hi", Some("theirs"));
    assert!(hidden_from_digest(&mine, Some("mine")));
    assert!(!hidden_from_digest(&theirs, Some("mine")));
    assert!(!hidden_from_digest("plain user comment", Some("mine")));
    // Outside an agent session only status comments hide.
    assert!(hidden_from_digest(&status, None));
    assert!(!hidden_from_digest(&mine, None));
}

#[test]
fn consumed_and_claude_comments_are_skipped() {
    let mut state = state_in(Phase::PrePlan);
    state.consumed_directives.insert(1);
    let claude_body = build_comment_body(&agent(), "/approve-pre-plan", Some("tok"));
    let comments = [
        comment(1, "/approve-pre-plan", "2026-01-01T00:00:00Z"),
        comment(2, &claude_body, "2026-01-01T00:01:00Z"),
    ];
    let outcome = advance_phase(
        &mut state,
        &comments,
        None,
        &[],
        &access_all(),
        &repo_ref(),
        &repo_ref(),
    );
    assert_eq!(state.phase, Phase::PrePlan);
    assert!(outcome.transitions.is_empty());
    assert!(outcome.notes.is_empty());
    assert!(!state.consumed_directives.contains(&2));
}

#[test]
fn successive_approvals_advance_twice_in_chronological_order() {
    let mut state = state_in(Phase::PrePlan);
    // The earlier approval arrives via the PR slice and the later via the
    // issue slice: the chronological merge must fire pre-plan's first.
    let issue = [comment(2, "/approve-plan", "2026-01-01T00:01:00Z")];
    let pr = [comment(1, "/approve-pre-plan", "2026-01-01T00:00:00Z")];
    let outcome = advance_phase(
        &mut state,
        &issue,
        Some(&pr),
        &[],
        &access_all(),
        &repo_ref(),
        &repo_ref(),
    );
    assert_eq!(state.phase, Phase::Implement);
    assert_eq!(outcome.transitions.len(), 2);
    assert_eq!(
        directive_parts(&outcome.transitions[0]).0,
        "/approve-pre-plan"
    );
    assert_eq!(directive_parts(&outcome.transitions[1]).0, "/approve-plan");
    assert!(outcome.notes.is_empty());
}

#[test]
fn thumbs_up_advances_and_consumes_by_reaction_id() {
    let mut state = state_in(Phase::PrePlan);
    let prompts = [thumbs(
        10,
        Directive::ApprovePrePlan,
        vec![reaction(100, "+1", "2026-01-01T00:00:00Z")],
    )];
    let outcome = advance_phase(
        &mut state,
        &[],
        None,
        &prompts,
        &access_all(),
        &repo_ref(),
        &repo_ref(),
    );
    assert_eq!(state.phase, Phase::PrepAndPlan);
    assert_eq!(outcome.transitions.len(), 1);
    let (command, by, via_reaction) = directive_parts(&outcome.transitions[0]);
    assert!(via_reaction);
    assert_eq!(command, "/approve-pre-plan");
    assert_eq!(by, "reactor");
    assert!(state.consumed_reactions.contains(&100));
    // Re-running with the same reaction is a no-op.
    let outcome = advance_phase(
        &mut state,
        &[],
        None,
        &prompts,
        &access_all(),
        &repo_ref(),
        &repo_ref(),
    );
    assert_eq!(state.phase, Phase::PrepAndPlan);
    assert!(outcome.transitions.is_empty());
    assert!(outcome.notes.is_empty());
}

#[test]
fn thumbs_up_after_equivalent_directive_is_stale() {
    let mut state = state_in(Phase::PrePlan);
    let comments = [comment(1, "/approve-pre-plan", "2026-01-01T00:00:00Z")];
    let prompts = [thumbs(
        10,
        Directive::ApprovePrePlan,
        vec![reaction(100, "+1", "2026-01-01T00:01:00Z")],
    )];
    let outcome = advance_phase(
        &mut state,
        &comments,
        None,
        &prompts,
        &access_all(),
        &repo_ref(),
        &repo_ref(),
    );
    assert_eq!(state.phase, Phase::PrepAndPlan);
    assert_eq!(outcome.transitions.len(), 1);
    assert!(!directive_parts(&outcome.transitions[0]).2);
    assert_eq!(outcome.notes.len(), 1);
    assert!(matches!(outcome.notes[0].kind, NoteKind::Stale));
    assert!(outcome.notes[0].via_reaction);
    assert!(state.consumed_reactions.contains(&100));
}

#[test]
fn non_allow_listed_directive_does_not_advance_but_is_consumed() {
    let mut state = state_in(Phase::PrePlan);
    let mut stranger = comment(1, "/approve-pre-plan", "2026-01-01T00:00:00Z");
    stranger.user.login = "stranger".to_string();
    stranger.author_association = "NONE".to_string();
    // Only "user" is accepted; "stranger" (NONE) is not.
    let access = AccessList::new("user", &[]);
    let outcome = advance_phase(
        &mut state,
        &[stranger],
        None,
        &[],
        &access,
        &repo_ref(),
        &repo_ref(),
    );
    assert_eq!(state.phase, Phase::PrePlan);
    assert!(outcome.transitions.is_empty());
    // Consumed, so adding the author to the allow-list later can't make this
    // old comment fire retroactively.
    assert!(state.consumed_directives.contains(&1));
}

#[test]
fn non_allow_listed_thumbs_up_does_not_advance_and_is_noted() {
    let mut state = state_in(Phase::PrePlan);
    let prompts = [thumbs(
        10,
        Directive::ApprovePrePlan,
        vec![reaction(100, "+1", "2026-01-01T00:00:00Z")],
    )];
    // The reaction author "reactor" is not accepted (no collaborators set).
    let access = AccessList::new("user", &[]);
    let outcome = advance_phase(
        &mut state,
        &[],
        None,
        &prompts,
        &access,
        &repo_ref(),
        &repo_ref(),
    );
    assert_eq!(state.phase, Phase::PrePlan);
    assert!(outcome.transitions.is_empty());
    assert_eq!(outcome.ignored.len(), 1);
    assert_eq!(outcome.ignored[0].by, "reactor");
    assert!(state.consumed_reactions.contains(&100));
}

#[test]
fn premature_thumbs_up_is_noted_not_fired() {
    let mut state = state_in(Phase::PrePlan);
    let prompts = [thumbs(
        10,
        Directive::ApprovePlan,
        vec![reaction(100, "+1", "2026-01-01T00:00:00Z")],
    )];
    let outcome = advance_phase(
        &mut state,
        &[],
        None,
        &prompts,
        &access_all(),
        &repo_ref(),
        &repo_ref(),
    );
    assert_eq!(state.phase, Phase::PrePlan);
    assert!(outcome.transitions.is_empty());
    assert!(matches!(outcome.notes[0].kind, NoteKind::Premature));
    assert!(state.consumed_reactions.contains(&100));
}

#[test]
fn non_thumbs_up_reactions_are_ignored() {
    let mut state = state_in(Phase::PrePlan);
    let prompts = [thumbs(
        10,
        Directive::ApprovePrePlan,
        vec![
            reaction(100, "heart", "2026-01-01T00:00:00Z"),
            reaction(101, "-1", "2026-01-01T00:01:00Z"),
        ],
    )];
    let outcome = advance_phase(
        &mut state,
        &[],
        None,
        &prompts,
        &access_all(),
        &repo_ref(),
        &repo_ref(),
    );
    assert_eq!(state.phase, Phase::PrePlan);
    assert!(outcome.transitions.is_empty());
    assert!(outcome.notes.is_empty());
    assert!(state.consumed_reactions.is_empty());
}

#[test]
fn thumbs_up_and_directive_interleave_chronologically() {
    let mut state = state_in(Phase::PrePlan);
    // A 👍 approves pre-plan first; a later typed command approves the
    // plan. Both must fire, in written order.
    let comments = [comment(1, "/approve-plan", "2026-01-01T00:01:00Z")];
    let prompts = [thumbs(
        10,
        Directive::ApprovePrePlan,
        vec![reaction(100, "+1", "2026-01-01T00:00:00Z")],
    )];
    let outcome = advance_phase(
        &mut state,
        &comments,
        None,
        &prompts,
        &access_all(),
        &repo_ref(),
        &repo_ref(),
    );
    assert_eq!(state.phase, Phase::Implement);
    assert_eq!(outcome.transitions.len(), 2);
    let (command, _, via_reaction) = directive_parts(&outcome.transitions[0]);
    assert!(via_reaction);
    assert_eq!(command, "/approve-pre-plan");
    let (command, _, via_reaction) = directive_parts(&outcome.transitions[1]);
    assert!(!via_reaction);
    assert_eq!(command, "/approve-plan");
}

#[test]
fn latest_prompt_watch_picks_newest_prompt_with_baseline() {
    let status_old = build_status_comment_body(
        "Next: comment `/approve-pre-plan` to advance.",
    );
    let status_new =
        build_status_comment_body("Next: comment `/approve-plan` to advance.");
    // A non-prompt ghwf comment and a plain user comment never qualify.
    let status_terminal =
        build_status_comment_body("There is no further approval command.");
    let comments = [
        comment(1, &status_old, "2026-01-01T00:00:00Z"),
        comment(2, &status_new, "2026-01-01T00:01:00Z"),
        comment(3, &status_terminal, "2026-01-01T00:02:00Z"),
        comment(4, "/approve-plan", "2026-01-01T00:03:00Z"),
    ];
    let prompts = [thumbs(
        2,
        Directive::ApprovePlan,
        vec![
            reaction(100, "+1", "2026-01-01T00:02:00Z"),
            reaction(101, "heart", "2026-01-01T00:02:30Z"),
        ],
    )];
    let watch = latest_prompt_watch(&comments, None, &prompts).unwrap();
    assert_eq!(watch.comment_id, 2);
    // Baseline holds only the 👍 ids.
    assert!(watch.plus_one_ids.contains(&100));
    assert!(!watch.plus_one_ids.contains(&101));
    // A just-posted status comment outranks everything on the thread.
    let posted = comment(5, &status_new, "2026-01-01T00:04:00Z");
    let watch = latest_prompt_watch(&comments, Some(&posted), &prompts).unwrap();
    assert_eq!(watch.comment_id, 5);
    assert!(watch.plus_one_ids.is_empty());
    // No prompts at all: nothing to watch.
    assert!(latest_prompt_watch(&comments[3..], None, &[]).is_none());
}

#[test]
fn scan_options_surfaces_submission_and_arms_no_watch() {
    let body = build_comment_body(
        &agent(), &build_options_body("Pick", &["A".into(), "B".into()]),
        Some("tok"),
    )
    .replacen("- [ ] A", "- [x] A", 1)
    .replace("- [ ] **Submit", "- [x] **Submit");
    let comments = vec![comment(9, &body, "2026-06-06T12:00:00Z")];
    let (subs, watch) = scan_options(
        &comments,
        "tok",
        "issue thread",
        &("Org".to_string(), "repo".to_string()),
    );
    assert_eq!(subs.len(), 1);
    assert_eq!(subs[0].comment_id, 9);
    assert_eq!(subs[0].view.selected, vec!["A".to_string()]);
    assert_eq!(subs[0].view.unselected, vec!["B".to_string()]);
    assert!(subs[0].rewritten_body.contains("_Answers submitted at"));
    // A submitted comment isn't re-watched.
    assert!(watch.is_none());
}

#[test]
fn scan_options_watches_latest_outstanding() {
    let body = |q: &str| {
        build_comment_body(&agent(), &build_options_body(q, &["A".into()]), Some("tok"))
    };
    let comments = vec![
        comment(9, &body("Old"), "2026-06-06T12:00:00Z"),
        comment(10, &body("New"), "2026-06-06T13:00:00Z"),
    ];
    let (subs, watch) = scan_options(
        &comments,
        "tok",
        "issue thread",
        &("Org".to_string(), "repo".to_string()),
    );
    assert!(subs.is_empty());
    assert_eq!(watch.unwrap().comment_id, 10);
}

#[test]
fn scan_options_ignores_foreign_comments() {
    // Another session's options comment and a plain user comment: neither
    // is ours to act on.
    let options = build_options_body("Pick", &["A".into()]);
    let other = build_comment_body(&agent(), &options, Some("other"));
    let comments = vec![
        comment(9, &other, "2026-06-06T12:00:00Z"),
        comment(10, "just talking", "2026-06-06T12:30:00Z"),
    ];
    let (subs, watch) = scan_options(
        &comments,
        "tok",
        "issue thread",
        &("Org".to_string(), "repo".to_string()),
    );
    assert!(subs.is_empty());
    assert!(watch.is_none());
}
