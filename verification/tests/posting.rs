use ghwf::models::{Comment, User};
use ghwf::options::{build_options_body, parse_options_comment, rewrite_submitted_body};
use ghwf::posting::{
    append_attachments, ask, ask_body, hand_off, hand_off_body, hand_off_stub, next_filing,
    pr_number, primary_is_pr, record_ask, record_hand_off, record_last_posted, update_pr,
    AskError, Filing, FilingStep, HandOffError,
};
use ghwf::render::{extract_marker, strip_ghwf_marker, Marker};
use ghwf::state::{
    parse_prompted_directive, Attention, Directive, Etag, IssueState, Phase, PrOutcome, PrepState,
    ThreadWatch, WaitState,
};
use std::collections::BTreeMap;

/// The agent's name: what the workflow waits on, by the field of the label config.
fn agent() -> String {
    let word = "waiting_on_claude".rsplit('_').next().unwrap();
    word[..1].to_uppercase() + &word[1..]
}

fn comment(id: u64, body: &str) -> Comment {
    Comment {
        id,
        user: User { login: "me".to_string() },
        body: body.to_string(),
        created_at: "2026-01-01T00:00:00Z".to_string(),
        updated_at: "2026-01-01T00:00:00Z".to_string(),
        html_url: "u".to_string(),
        author_association: "OWNER".to_string(),
        reactions: None,
    }
}

fn waiting(phase: Phase, pr: Option<u64>) -> IssueState {
    IssueState {
        phase,
        prep: Some(PrepState { pr_number: pr, ..Default::default() }),
        wait: Some(WaitState {
            since: "s".to_string(),
            issue_fingerprint: "f".to_string(),
            pr_draft: None,
            comments: BTreeMap::new(),
            review_comments: BTreeMap::new(),
            issue: ThreadWatch::default(),
            pr: ThreadWatch::default(),
            etags: ["reactions_issue", "reactions_pr", "options_pr", "issue"]
                .map(|key| Etag { key: key.to_string(), value: "v".to_string() })
                .into_iter()
                .collect(),
        }),
        ..Default::default()
    }
}

fn etag_keys(state: &IssueState) -> Vec<String> {
    state.wait.as_ref().unwrap().etags.iter().map(|e| e.key.clone()).collect()
}

#[test]
fn hand_offs_go_to_the_phase_thread() {
    let state = waiting(Phase::PrePlan, Some(9));
    assert_eq!(pr_number(&state), Some(9));
    assert!(!primary_is_pr(&state));
    assert!(primary_is_pr(&waiting(Phase::Implement, Some(9))));
    assert!(!primary_is_pr(&waiting(Phase::Implement, None)));
    let plan = hand_off(&agent(), &state, "done", false, false).ok().unwrap();
    let body = hand_off_body(&agent(), "done", &plan, Some("tok"));
    assert_eq!(parse_prompted_directive(&body), Some(Directive::ApprovePrePlan));
    assert!(matches!(extract_marker(&body), Some(Marker::Session(t)) if t == "tok"));
    // A question prompts nothing.
    let plan = hand_off(&agent(), &state, "which?", true, false).ok().unwrap();
    assert!(parse_prompted_directive(&hand_off_body(&agent(), "which?", &plan, None)).is_none());
}

#[test]
fn hand_offs_are_refused_with_a_reason() {
    let mut state = waiting(Phase::Review, Some(9));
    assert_eq!(hand_off(&agent(), &state, " \n", false, false).err(), Some(HandOffError::NoBody));
    assert_eq!(
        hand_off(&agent(), &state, "x", false, false).err(),
        Some(HandOffError::NothingToHandOff)
    );
    assert!(hand_off(&agent(), &state, "x", true, false).is_ok());
    state.pr_outcome = Some(PrOutcome::Closed);
    assert_eq!(hand_off(&agent(), &state, "x", true, false).err(), Some(HandOffError::Concluded));
    // A branch that conflicts with its base is not handed off for review.
    let state = IssueState { phase: Phase::Implement, ..Default::default() };
    assert_eq!(hand_off(&agent(), &state, "x", false, true).err(), Some(HandOffError::Conflict));
    assert!(hand_off(&agent(), &state, "x", true, true).is_ok());
    assert!(hand_off(&agent(), &state, "x", false, false).is_ok());
    let state = IssueState { phase: Phase::PrePlan, ..Default::default() };
    assert!(hand_off(&agent(), &state, "x", false, true).is_ok());
}

#[test]
fn a_hand_off_watches_for_its_thumbs() {
    let mut state = waiting(Phase::PrePlan, None);
    let plan = hand_off(&agent(), &state, "done", false, false).ok().unwrap();
    let body = hand_off_body(&agent(), "done", &plan, None);
    record_hand_off(&mut state, &comment(5, &body), &body, false, false);
    assert_eq!(state.attention, Attention::WaitingOnUser);
    assert_eq!(state.last_posted.as_ref().unwrap().id, 5);
    let wait = state.wait.as_ref().unwrap();
    assert_eq!(wait.issue.reactions.as_ref().unwrap().comment_id, 5);
    assert!(wait.pr.reactions.is_none());
    // The watched comment changed, so its validator is stale.
    assert_eq!(etag_keys(&state), ["reactions_pr", "options_pr", "issue"]);
    // A question watches nothing.
    let mut state = waiting(Phase::PrePlan, None);
    record_hand_off(&mut state, &comment(6, &body), &body, true, false);
    assert!(state.wait.unwrap().issue.reactions.is_none());
}

#[test]
fn any_post_that_prompts_is_watched() {
    let mut state = waiting(Phase::PrepAndPlan, Some(9));
    let before = state.attention;
    record_last_posted(&mut state, &comment(7, "Next: comment `/approve-plan`."), true);
    assert_eq!(state.attention, before);
    assert_eq!(state.wait.as_ref().unwrap().pr.reactions.as_ref().unwrap().comment_id, 7);
    record_last_posted(&mut state, &comment(8, "all quiet"), true);
    assert_eq!(state.last_posted.as_ref().unwrap().id, 8);
    assert_eq!(state.wait.as_ref().unwrap().pr.reactions.as_ref().unwrap().comment_id, 7);
}

#[test]
fn questions_need_options() {
    let mut state = waiting(Phase::Implement, Some(9));
    let options = [" A ".to_string(), "  ".to_string(), "B".to_string()];
    assert_eq!(ask(&state, "", &options).err(), Some(AskError::NoQuestion));
    assert_eq!(ask(&state, "q", &options[1..2]).err(), Some(AskError::NoOptions));
    let plan = ask(&state, "Pick", &options).ok().unwrap();
    assert_eq!(plan.options, ["A", "B"]);
    assert!(plan.primary_is_pr);
    let body = ask_body(&agent(), "Pick", &plan, Some("tok"));
    let parsed = parse_options_comment(&strip_ghwf_marker(&body));
    assert_eq!(parsed.options.len(), 2);
    assert_eq!(parsed.options[1].label, "B");
    assert_eq!(parsed.submit, Some(false));
    record_ask(&mut state, &comment(4, &body), true);
    assert_eq!(state.attention, Attention::WaitingOnUser);
    assert_eq!(state.wait.as_ref().unwrap().pr.options.as_ref().unwrap().comment_id, 4);
    assert_eq!(etag_keys(&state), ["reactions_issue", "reactions_pr", "issue"]);
    state.pr_outcome = Some(PrOutcome::Merged);
    assert_eq!(ask(&state, "q", &options).err(), Some(AskError::Concluded));
}

#[test]
fn options_read_back_what_was_written() {
    let labels = ["first".to_string(), "second <b>".to_string()];
    let body = build_options_body("Which one?", &labels);
    let parsed = parse_options_comment(&body);
    let read: Vec<&str> = parsed.options.iter().map(|o| o.label.as_str()).collect();
    assert_eq!(read, ["first", "second <b>"]);
    assert!(parsed.options.iter().all(|o| !o.checked));
    let ticked = body.replace("- [ ] second", "- [X] second");
    assert!(parse_options_comment(&ticked).options[1].checked);
    assert!(parse_options_comment("no options here").submit.is_none());
    // A submitted form cannot be submitted again.
    let submitted = body.replace("- [ ] **Submit", "- [x] **Submit");
    assert_eq!(parse_options_comment(&submitted).submit, Some(true));
    let rewritten = rewrite_submitted_body(&submitted, "noon");
    assert_eq!(parse_options_comment(&rewritten).submit, None);
    assert!(rewritten.contains("noon"));
}

#[test]
fn attachments_follow_the_body() {
    assert_eq!(append_attachments(" hi\n", None), " hi\n");
    assert_eq!(append_attachments("text", Some("files".to_string())), "text\n\nfiles");
    assert!(hand_off_stub(true, true, "url").contains("Question posted on the PR: url"));
    assert!(hand_off_stub(false, false, "url").contains("Hand-off posted on the issue: url"));
}

#[test]
fn pr_updates_say_what_changed() {
    assert!(update_pr(3, "  ", false).is_none());
    let update = update_pr(3, " body ", true).unwrap();
    assert_eq!(update.body.as_deref(), Some("body"));
    assert_eq!(update.report, "Updated PR #3 title and body.");
    assert_eq!(update_pr(3, "", true).unwrap().report, "Updated PR #3 title.");
    assert_eq!(update_pr(3, "b", false).unwrap().report, "Updated PR #3 body.");
}

/// The steps of filing a follow-up issue, where this one fails.
fn filing(blocked: bool, guarded: bool, failing: Option<FilingStep>) -> (Vec<FilingStep>, Filing) {
    let mut steps = Vec::new();
    let mut taken = None;
    loop {
        match next_filing(blocked, guarded, taken) {
            Filing::Take(step) => {
                steps.push(step);
                taken = Some((step, Some(step) != failing));
            }
            end => return (steps, end),
        }
    }
}

#[test]
fn a_follow_up_is_guarded_until_its_dependency_is_set() {
    let all = [
        FilingStep::EnsureGuard,
        FilingStep::File,
        FilingStep::SetDependency,
        FilingStep::RemoveGuard,
    ];
    assert_eq!(filing(true, true, None), (all.to_vec(), Filing::Filed));
    // Without its dependency the issue keeps the label, and is filed all the same.
    let failing = Some(FilingStep::SetDependency);
    assert_eq!(filing(true, true, failing), (all[..3].to_vec(), Filing::Filed));
    // Without the label it is not filed at all.
    let failing = Some(FilingStep::EnsureGuard);
    assert_eq!(filing(true, true, failing), (all[..1].to_vec(), Filing::NotFiled));
    assert_eq!(filing(true, false, None), (all[1..3].to_vec(), Filing::Filed));
    assert_eq!(filing(false, false, None), (all[1..2].to_vec(), Filing::Filed));
    let failing = Some(FilingStep::File);
    assert_eq!(filing(false, false, failing), (all[1..2].to_vec(), Filing::NotFiled));
}
