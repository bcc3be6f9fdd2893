use ghwf::models::{Comment, Issue, ReviewComment, User};
use ghwf::render::{
    advance_hint, blockquote, build_comment_body, build_status_comment_body, concluded_body,
    extract_marker, hand_off_prompt, hidden_from_digest, pre_plan_body, question_instruction,
    render_ignored, render_phase_banner, render_status_comment, render_status_stub,
    render_work_on, status_primary_is_pr, strip_ghwf_marker, CommentView, DirectiveNote,
    IgnoredInput, IgnoredKind, Marker, NoteKind, ReviewCommentView, Transition, Trigger,
};
use ghwf::state::{Directive, Phase, PrOutcome};

/// The agent's name: what the workflow waits on, by the field of the label config.
fn agent() -> String {
    let word = "waiting_on_claude".rsplit('_').next().unwrap();
    word[..1].to_uppercase() + &word[1..]
}

fn note(kind: NoteKind, command: &'static str, phase_at: Phase) -> DirectiveNote {
    DirectiveNote {
        kind,
        command,
        by: "user".to_string(),
        source: "PR",
        phase_at,
        via_reaction: false,
    }
}

fn transition(from: Phase, to: Phase, command: &'static str) -> Transition {
    Transition {
        from,
        to,
        trigger: Trigger::Directive {
            command,
            by: "user".to_string(),
            via_reaction: false,
        },
    }
}

#[test]
fn marker_session_round_trips() {
    let body = build_comment_body(&agent(), "hello", Some("tok"));
    assert!(matches!(extract_marker(&body), Some(Marker::Session(t)) if t == "tok"));
}

#[test]
fn a_posted_comment_names_its_author_and_session() {
    assert_eq!(
        build_comment_body(&agent(), "  hello\n", Some("tok")),
        format!("**{} says:**\n<hr>\n\nhello\n\n<!-- ghwf:v1 session=tok -->", agent())
    );
    assert_eq!(
        build_comment_body(&agent(), "hello", None),
        format!("**{} says:**\n<hr>\n\nhello", agent())
    );
}

#[test]
fn a_token_with_white_space_reads_back() {
    let body = build_comment_body(&agent(), "hi", Some("two words"));
    assert!(matches!(extract_marker(&body), Some(Marker::Session(token)) if token == "two words"));
}

#[test]
fn marker_status_round_trips_and_strips() {
    let body = build_status_comment_body("update");
    assert!(matches!(extract_marker(&body), Some(Marker::Status)));
    assert!(body.starts_with("**ghwf:**\n<hr>\n\nupdate"));
    assert_eq!(strip_ghwf_marker(&body), "**ghwf:**\n<hr>\n\nupdate");
}

#[test]
fn unmarked_body_has_no_marker() {
    assert!(extract_marker("just text").is_none());
}

#[test]
fn pre_plan_body_includes_wait_instruction() {
    let body = pre_plan_body(7);
    assert!(body.contains("`ghwf wait 7`"));
    assert!(body.contains("`ghwf work-on 7`"));
}

#[test]
fn question_instruction_names_the_command_and_number() {
    let out = question_instruction(7);
    assert!(out.contains("`ghwf hand-off 7 --question`"));
    assert!(out.contains("`ghwf wait 7`"));
    assert!(out.contains("AskUserQuestion"));
}

#[test]
fn pre_plan_body_steers_questions_off_interactive_prompts() {
    let body = pre_plan_body(7);
    assert!(body.contains("`ghwf hand-off 7 --question`"));
    assert!(body.contains("AskUserQuestion"));
}

#[test]
fn banner_transition_names_command_and_author() {
    let transitions = [transition(
        Phase::PrepAndPlan,
        Phase::Implement,
        "/approve-plan",
    )];
    let out = render_phase_banner(Phase::Implement, &transitions, &[], false, "body");
    assert!(out.contains(
        "Phase advanced: prep-and-plan → implement (triggered by `/approve-plan` from user)."
    ));
}

#[test]
fn banner_premature_note_suggests_current_command() {
    let notes = [note(NoteKind::Premature, "/approve-plan", Phase::PrePlan)];
    let out = render_phase_banner(Phase::PrePlan, &[], &notes, false, "body");
    assert!(out.contains("`/approve-plan` from user (on the PR) was ignored"));
    assert!(out.contains("only in the pre-plan phase"));
    assert!(out.contains("the command that advances it is `/approve-pre-plan`"));
}

#[test]
fn banner_retired_note_in_terminal_phase() {
    let notes = [note(NoteKind::Retired, "/proceed", Phase::Review)];
    let out = render_phase_banner(Phase::Review, &[], &notes, false, "body");
    assert!(out.contains("`/proceed` is retired"));
    assert!(out.contains("there is nothing further to approve"));
}

#[test]
fn banner_retired_approve_implementation_names_the_button() {
    let notes = [note(
        NoteKind::Retired,
        "/approve-implementation",
        Phase::Implement,
    )];
    let out = render_phase_banner(Phase::Implement, &[], &notes, false, "body");
    assert!(out.contains("`/approve-implementation` is retired"));
    assert!(out.contains("marking the draft PR ready for review advances it"));
}

#[test]
fn banner_pr_ready_transition_names_the_trigger() {
    let transitions = [Transition {
        from: Phase::Implement,
        to: Phase::Review,
        trigger: Trigger::PrReady,
    }];
    let out = render_phase_banner(Phase::Review, &transitions, &[], false, "body");
    assert!(out.contains(
        "Phase advanced: implement → review (triggered by the PR being marked ready \
         for review)."
    ));
}

#[test]
fn banner_status_posted_line_only_when_posted() {
    let out = render_phase_banner(Phase::Implement, &[], &[], true, "body");
    assert!(out.contains("posted a status update"));
    let out = render_phase_banner(Phase::Implement, &[], &[], false, "body");
    assert!(!out.contains("posted a status update"));
}

#[test]
fn banner_reaction_transition_names_reactor_and_command() {
    let transitions = [Transition {
        from: Phase::PrePlan,
        to: Phase::PrepAndPlan,
        trigger: Trigger::Directive {
            command: "/approve-pre-plan",
            by: "user".to_string(),
            via_reaction: true,
        },
    }];
    let out = render_phase_banner(Phase::PrepAndPlan, &transitions, &[], false, "body");
    assert!(out.contains(
        "Phase advanced: pre-plan → prep-and-plan (triggered by a 👍 reaction from user, \
         equivalent to `/approve-pre-plan`)."
    ));
}

#[test]
fn banner_reaction_note_names_reactor_and_command() {
    let mut notes = [note(
        NoteKind::Stale,
        "/approve-pre-plan",
        Phase::PrepAndPlan,
    )];
    notes[0].via_reaction = true;
    let out = render_phase_banner(Phase::PrepAndPlan, &[], &notes, false, "body");
    assert!(out.contains(
        "Note: A 👍 reaction (equivalent to `/approve-pre-plan`) from user (on the PR) \
         was ignored"
    ));
}

#[test]
fn status_prose_never_prompts_an_approval() {
    // The prompt belongs on the hand-off comment; a status update must
    // never be a 👍 target.
    for phase in [
        Phase::PrePlan,
        Phase::PrepAndPlan,
        Phase::Implement,
        Phase::Review,
    ] {
        let out = render_status_comment(&agent(), phase, &[], &[], true, None, None).unwrap();
        assert!(
            ghwf::state::parse_prompted_directive(&out).is_none(),
            "{} prose mentions an approval command",
            phase.label()
        );
    }
}

#[test]
fn hand_off_prompt_maps_thumbs_to_the_phase_approval() {
    // Pre-plan and prep-and-plan prompts are 👍 targets for their phase's
    // approval; the implement prompt names the button and maps nothing.
    let out = hand_off_prompt(&agent(), Phase::PrePlan, false).unwrap();
    assert_eq!(
        ghwf::state::parse_prompted_directive(&out).unwrap(),
        Directive::ApprovePrePlan
    );
    let out = hand_off_prompt(&agent(), Phase::PrepAndPlan, false).unwrap();
    assert_eq!(
        ghwf::state::parse_prompted_directive(&out).unwrap(),
        Directive::ApprovePlan
    );
    let out = hand_off_prompt(&agent(), Phase::Implement, false).unwrap();
    assert!(out.contains("ready for review"));
    assert!(ghwf::state::parse_prompted_directive(&out).is_none());
    assert!(hand_off_prompt(&agent(), Phase::Review, false).is_none());
}

#[test]
fn no_branch_implement_hand_off_skips_the_pr_button() {
    let out = hand_off_prompt(&agent(), Phase::Implement, true).unwrap();
    assert!(out.contains("--no-branch"));
    assert!(!out.contains("button"));
    assert!(ghwf::state::parse_prompted_directive(&out).is_none());
    // Earlier phases are unaffected by the mode.
    assert_eq!(
        hand_off_prompt(&agent(), Phase::PrePlan, true),
        hand_off_prompt(&agent(), Phase::PrePlan, false)
    );
}

#[test]
fn status_nothing_to_report_is_none() {
    assert!(render_status_comment(&agent(), Phase::PrePlan, &[], &[], false, None, None).is_none());
}

#[test]
fn status_transition_names_command_and_next_step() {
    let transitions = [transition(
        Phase::PrepAndPlan,
        Phase::Implement,
        "/approve-plan",
    )];
    let out = render_status_comment(&agent(), Phase::Implement, &transitions, &[], false, None, None)
        .unwrap();
    assert!(out.contains(
        "Phase advanced: prep-and-plan → implement (triggered by `/approve-plan` from user)."
    ));
    assert!(out.contains("**implement** phase"));
    assert!(out.contains("mark it ready for review"));
}

#[test]
fn status_intro_renders_for_every_phase() {
    for phase in [
        Phase::PrePlan,
        Phase::PrepAndPlan,
        Phase::Implement,
        Phase::Review,
    ] {
        let out = render_status_comment(&agent(), phase, &[], &[], true, None, None).unwrap();
        assert!(out.contains("ghwf is tracking this issue"));
        assert!(out.contains(&format!("**{}** phase", phase.label())));
    }
}

#[test]
fn status_premature_note_names_correct_command() {
    let notes = [note(NoteKind::Premature, "/approve-plan", Phase::PrePlan)];
    let out = render_status_comment(&agent(), Phase::PrePlan, &[], &notes, false, None, None)
        .unwrap();
    assert!(out.contains("was ignored"));
    assert!(out.contains("the command that advances it is `/approve-pre-plan`"));
}

#[test]
fn status_same_run_duplicate_stale_is_skipped() {
    let transitions = [transition(
        Phase::PrepAndPlan,
        Phase::Implement,
        "/approve-plan",
    )];
    let stale = [note(NoteKind::Stale, "/approve-plan", Phase::Implement)];
    let out = render_status_comment(&agent(), Phase::Implement, &transitions, &stale, false, None, None)
        .unwrap();
    assert!(!out.contains("was ignored"));
    // Alone — a genuinely late approval, not a same-run echo — it is reported.
    let out = render_status_comment(&agent(), Phase::Implement, &[], &stale, false, None, None)
        .unwrap();
    assert!(out.contains("was ignored"));
}

#[test]
fn status_review_names_pr_and_terminality() {
    let url = "https://github.com/o/r/pull/9";
    let out = render_status_comment(&agent(), Phase::Review, &[], &[], true, Some(url), None)
        .unwrap();
    assert!(out.contains(url));
    assert!(out.contains("Merging or closing the PR concludes the workflow."));
    // Without a PR the prose still closes the workflow out.
    let out = render_status_comment(&agent(), Phase::Review, &[], &[], true, None, None).unwrap();
    assert!(out.contains("awaiting human review"));
}

#[test]
fn concluded_bodies_name_outcome_and_stop_the_loop() {
    let url = "https://github.com/o/r/pull/9";
    let merged = concluded_body(PrOutcome::Merged, Some(url), 7);
    assert!(merged.contains(url));
    assert!(merged.contains("has been merged"));
    assert!(merged.contains("complete"));
    let closed = concluded_body(PrOutcome::Closed, Some(url), 7);
    assert!(closed.contains("closed without being merged"));
    assert!(closed.contains("halted"));
    // Neither body tells the agent to keep waiting.
    for body in [&merged, &closed] {
        assert!(body.contains("Stop the wait/work-on loop") || body.contains("stop the wait"));
        assert!(!body.contains("Once you have posted"));
    }
    // Without a recorded PR URL the prose still reads naturally.
    let bare = concluded_body(PrOutcome::Merged, None, 7);
    assert!(bare.starts_with("The PR has been merged"));
}

#[test]
fn status_conclusion_posts_alone_and_prompts_nothing() {
    // A conclusion is worth posting even with no transitions or notes.
    let out = render_status_comment(
        &agent(), Phase::Review,
        &[],
        &[],
        false,
        None,
        Some(PrOutcome::Merged),
    )
    .unwrap();
    assert!(out.contains("**complete**"));
    assert!(ghwf::state::parse_prompted_directive(&out).is_none());
    let out = render_status_comment(
        &agent(), Phase::Review,
        &[],
        &[],
        false,
        None,
        Some(PrOutcome::Closed),
    )
    .unwrap();
    assert!(out.contains("**halted**"));
    assert!(out.contains("Reopening the PR resumes it."));
    assert!(ghwf::state::parse_prompted_directive(&out).is_none());
}

#[test]
fn status_primary_thread_follows_phase() {
    assert!(!status_primary_is_pr(Phase::PrePlan));
    assert!(!status_primary_is_pr(Phase::PrepAndPlan));
    assert!(status_primary_is_pr(Phase::Implement));
    assert!(status_primary_is_pr(Phase::Review));
}

#[test]
fn stub_with_transitions_names_endpoints_and_url() {
    let url = "https://github.com/o/r/pull/9#issuecomment-1";
    let transitions = [
        transition(Phase::PrePlan, Phase::PrepAndPlan, "/approve-pre-plan"),
        transition(Phase::PrepAndPlan, Phase::Implement, "/approve-plan"),
    ];
    let out = render_status_stub(&transitions, "PR", url);
    assert_eq!(
        out,
        format!("Phase advanced: pre-plan → implement — full update: {url}")
    );
}

#[test]
fn stub_without_transitions_names_primary_and_url() {
    let url = "https://github.com/o/r/issues/9#issuecomment-1";
    let out = render_status_stub(&[], "issue", url);
    assert_eq!(out, format!("Status update posted on the issue: {url}"));
}

#[test]
fn stub_comment_body_stays_hidden_from_digest() {
    let body = build_status_comment_body(&render_status_stub(&[], "issue", "url"));
    assert!(hidden_from_digest(&body, None));
}

fn issue() -> Issue {
    Issue {
        number: 9,
        title: "A PR".to_string(),
        state: "open".to_string(),
        user: User {
            login: "author".to_string(),
        },
        body: Some("body".to_string()),
        created_at: "2026-01-01T00:00:00Z".to_string(),
        updated_at: "2026-01-01T00:00:00Z".to_string(),
        html_url: "https://github.com/o/r/pull/9".to_string(),
        author_association: "OWNER".to_string(),
    }
}

fn comment() -> Comment {
    Comment {
        id: 1,
        user: User {
            login: "colleague".to_string(),
        },
        body: "looks good".to_string(),
        created_at: "2026-01-02T00:00:00Z".to_string(),
        updated_at: "2026-01-02T00:00:00Z".to_string(),
        html_url: "https://github.com/o/r/pull/9#issuecomment-1".to_string(),
        author_association: "OWNER".to_string(),
        reactions: None,
    }
}

fn review_comment() -> ReviewComment {
    ReviewComment {
        id: 2,
        user: User {
            login: "colleague".to_string(),
        },
        body: "rename this".to_string(),
        created_at: "2026-01-02T00:00:00Z".to_string(),
        updated_at: "2026-01-02T00:00:00Z".to_string(),
        html_url: "https://github.com/o/r/pull/9#discussion_r2".to_string(),
        author_association: "OWNER".to_string(),
        path: "src/main.rs".to_string(),
        line: Some(42),
        original_line: Some(42),
    }
}

fn review_view(comment: &ReviewComment) -> ReviewCommentView<'_> {
    ReviewCommentView {
        comment,
        body: comment.body.clone(),
        location: comment.location(),
        updated: false,
    }
}

fn comment_view(comment: &Comment) -> CommentView<'_> {
    CommentView {
        comment,
        body: comment.body.clone(),
        updated: false,
    }
}

#[test]
fn no_activity_requires_all_inputs_empty() {
    let out = render_work_on(&issue(), false, &[], None, &[], &[]);
    assert!(out.starts_with("No new activity on issue #9 \"A PR\" since"));
}

#[test]
fn no_activity_names_both_threads_with_pr() {
    let out = render_work_on(&issue(), false, &[], Some(20), &[], &[]);
    assert!(out.starts_with("No new activity on issue #9 \"A PR\" or PR #20 since"));
}

#[test]
fn review_comments_alone_are_activity() {
    let review = review_comment();
    let out = render_work_on(&issue(), false, &[], Some(20), &[], &[review_view(&review)]);
    assert!(out.contains("New inline review comments since you last ran `ghwf work-on`:"));
    assert!(out.contains("**colleague** at 2026-01-02T00:00:00Z said on `src/main.rs:42`:"));
    assert!(out.contains("> rename this"));
}

#[test]
fn issue_pr_and_review_sections_compose_in_order() {
    let issue_comment = comment();
    let pr_comment = comment();
    let review = review_comment();
    let out = render_work_on(
        &issue(),
        false,
        &[comment_view(&issue_comment)],
        Some(20),
        &[comment_view(&pr_comment)],
        &[review_view(&review)],
    );
    let issue_at = out
        .find("New comments on the issue thread since")
        .expect("issue section present");
    let pr_at = out
        .find("New comments on the PR (#20) conversation thread since")
        .expect("PR section present");
    let review_at = out
        .find("New inline review comments since")
        .expect("review section present");
    assert!(issue_at < pr_at);
    assert!(pr_at < review_at);
    assert!(out[issue_at..pr_at].contains("<hr>"));
    assert!(out[pr_at..review_at].contains("<hr>"));
}

#[test]
fn body_section_is_always_the_issues() {
    let out = render_work_on(&issue(), true, &[], Some(20), &[], &[]);
    assert!(out.contains("Issue body by author:"));
    assert!(out.contains("> body"));
}

#[test]
fn updated_review_comment_is_tagged() {
    let review = review_comment();
    let mut view = review_view(&review);
    view.updated = true;
    let out = render_work_on(&issue(), false, &[], Some(20), &[], &[view]);
    assert!(out.contains("said on `src/main.rs:42` (updated):"));
}

#[test]
fn ignored_input_is_told_apart() {
    let inputs = [
        IgnoredInput { by: "a".to_string(), source: "issue", kind: IgnoredKind::Comment },
        IgnoredInput { by: "b".to_string(), source: "PR", kind: IgnoredKind::Reaction },
    ];
    let out = render_ignored(&inputs);
    assert!(out.contains("a"));
    assert!(out.contains("b"));
    assert_eq!(render_ignored(&[]), "");
}

#[test]
fn quotes_mark_every_line() {
    assert_eq!(blockquote("a\n\nb"), "> a\n>\n> b");
    assert_eq!(blockquote("  \n"), ">");
}

#[test]
fn hints_name_what_advances_the_phase() {
    assert!(advance_hint(Phase::PrepAndPlan).contains("`/approve-plan`"));
    assert!(advance_hint(Phase::Implement).contains("ready for review"));
}
