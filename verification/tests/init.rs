use ghwf::init::{
    actions, append_line, child_repos, document_text, first_stage, ignore_line, lay_out,
    needs_essentials, next_stage, take_reply, Reply, Stage,
    needs_ignoring, new_layout, offers, open_document, parse_issue_repos, parse_priority_labels,
    repaired_layout, set_blocked_label, set_delete_plan_on_approval, set_essentials,
    set_issue_repos, set_permission_mode, set_priority_labels, MainRepo, Outcome, pr_stub,
};
use toml_edit::DocumentMut;

/// The agent's name: what the workflow waits on, by the field of the label config.
fn agent() -> String {
    let word = "waiting_on_claude".rsplit('_').next().unwrap();
    word[..1].to_uppercase() + &word[1..]
}

fn parsed(doc: &DocumentMut) -> toml::Table {
    toml::from_str(&document_text(doc)).unwrap()
}

#[test]
fn fresh_essentials_parse_in_both_layouts() {
    // Parent-dir layout: main_repo written.
    let mut doc = DocumentMut::new();
    set_essentials(&mut doc, Some("repo.git"), "worktrees");
    let config = parsed(&doc);
    assert_eq!(config["main_repo"].as_str(), Some("repo.git"));
    assert_eq!(config["worktrees_dir"].as_str(), Some("worktrees"));

    // Repo-root layout: main_repo omitted.
    let mut doc = DocumentMut::new();
    set_essentials(&mut doc, None, "wt");
    let config = parsed(&doc);
    assert!(config.get("main_repo").is_none());
    assert_eq!(config["worktrees_dir"].as_str(), Some("wt"));
}

#[test]
fn fresh_file_starts_with_a_comment_not_a_blank_line() {
    let mut doc = DocumentMut::new();
    set_essentials(&mut doc, None, "worktrees");
    assert!(document_text(&doc).starts_with("# Directory under which"));
}

#[test]
fn editing_preserves_existing_bytes() {
    let original = "# Hand-written comment.\nworktrees_dir = \"worktrees\"  # trailing\n";
    let mut doc = open_document("ghwf.toml", Some(original)).unwrap();
    set_priority_labels(&mut doc, &["urgent".to_string(), "soon".to_string()]);
    let out = document_text(&doc);
    assert!(
        out.starts_with(original),
        "existing content was rewritten:\n{out}"
    );
    let config = parsed(&doc);
    let labels: Vec<&str> = config["priority_labels"]
        .as_array()
        .unwrap()
        .iter()
        .map(|l| l.as_str().unwrap())
        .collect();
    assert_eq!(labels, ["urgent", "soon"]);
}

#[test]
fn insertion_lands_before_subtables() {
    // A key added to the root table must render before any [section]
    // header, or it would change meaning entirely.
    let original = "\
worktrees_dir = \"worktrees\"

# A section comment that must survive.
[labels.phase]
pre-plan = \"a\"
";
    let mut doc = open_document("ghwf.toml", Some(original)).unwrap();
    set_priority_labels(&mut doc, &["urgent".to_string()]);
    let out = document_text(&doc);
    assert!(out.find("priority_labels").unwrap() < out.find("[labels.phase]").unwrap());
    assert!(out.contains("# A section comment that must survive."));
    let reparsed: DocumentMut = out.parse().unwrap();
    assert!(reparsed.contains_key("priority_labels"));
}

#[test]
fn permission_mode_round_trips() {
    let mut doc = DocumentMut::new();
    set_essentials(&mut doc, None, "worktrees");
    set_permission_mode(&agent(), &mut doc, "auto");
    assert_eq!(parsed(&doc)["permission_mode"].as_str(), Some("auto"));
}

#[test]
fn delete_plan_on_approval_round_trips() {
    let mut doc = DocumentMut::new();
    set_essentials(&mut doc, None, "worktrees");
    set_delete_plan_on_approval(&mut doc);
    assert_eq!(parsed(&doc)["delete_plan_on_approval"].as_bool(), Some(true));
}

#[test]
fn blocked_label_round_trips() {
    let mut doc = DocumentMut::new();
    set_essentials(&mut doc, None, "worktrees");
    set_blocked_label(&mut doc, "needs-unblock");
    assert_eq!(parsed(&doc)["blocked_label"].as_str(), Some("needs-unblock"));
}

#[test]
fn priority_labels_answer_parses_loosely() {
    assert_eq!(
        parse_priority_labels(" urgent , soon ,, "),
        ["urgent", "soon"]
    );
    assert!(parse_priority_labels("  ").is_empty());
}

#[test]
fn issue_repos_answer_parses_loosely() {
    assert_eq!(
        parse_issue_repos(" Org/docs , Org/wiki ,, "),
        ["Org/docs", "Org/wiki"]
    );
    assert!(parse_issue_repos("  ").is_empty());
}

#[test]
fn set_issue_repos_writes_plain_string_array() {
    let mut doc = "worktrees_dir = \"worktrees\"\n"
        .parse::<DocumentMut>()
        .unwrap();
    set_issue_repos(&mut doc, &["Org/docs".to_string()]);
    let config = parsed(&doc);
    let repos = config["issue_repos"].as_array().unwrap();
    assert_eq!(repos.len(), 1);
    assert_eq!(repos[0].as_str(), Some("Org/docs"));
}

#[test]
fn pr_stub_is_nonempty_prose() {
    let stub = pr_stub(&agent());
    assert!(stub.lines().count() > 1);
    assert!(stub.contains(&format!("read by {} whenever", agent())));
}

#[test]
fn a_broken_config_is_not_touched() {
    let err = open_document("ghwf.toml", Some("a = = 1")).err().unwrap();
    assert!(err.contains("ghwf.toml"), "{err}");
    assert!(needs_essentials(&open_document("ghwf.toml", None).unwrap()));
    let doc = open_document("ghwf.toml", Some("worktrees_dir = \"w\"\n")).unwrap();
    assert!(!needs_essentials(&doc));
}

#[test]
fn settings_already_made_are_not_offered() {
    let doc = open_document("ghwf.toml", Some("blocked_label = \"b\"\n[labels]\n")).unwrap();
    let offered = offers(&doc, true);
    assert!(!offered.blocked_label);
    assert!(!offered.labels);
    assert!(!offered.pr_stub);
    assert!(offered.priority_labels);
    assert!(offered.permission_mode);
    assert!(offers(&doc, false).pr_stub);
}

#[test]
fn the_layout_settles_where_the_main_repo_is() {
    assert_eq!(new_layout(true, true), MainRepo::Around);
    assert_eq!(new_layout(true, false), MainRepo::NotInRepo);
    assert_eq!(new_layout(false, true), MainRepo::Asked);
    let with = open_document("f", Some("main_repo = \"r\"\n")).unwrap();
    let without = open_document("f", None).unwrap();
    assert_eq!(repaired_layout(&with, false), MainRepo::Around);
    assert_eq!(repaired_layout(&without, false), MainRepo::Asked);
    assert_eq!(repaired_layout(&without, true), MainRepo::Around);
    assert!(needs_ignoring(&without, true, false));
    assert!(!needs_ignoring(&without, true, true));
    assert!(!needs_ignoring(&with, true, false));
}

#[test]
fn lines_are_appended_whole() {
    assert_eq!(ignore_line("worktrees"), "/worktrees/");
    assert_eq!(append_line("a", "/worktrees/"), "a\n/worktrees/\n");
    assert_eq!(append_line("a\n", "/worktrees/"), "a\n/worktrees/\n");
    assert_eq!(append_line("", "/worktrees/"), "/worktrees/\n");
}

#[test]
fn child_repos_are_listed_in_order() {
    let names = ["z", "notes", "a.git"].map(String::from).to_vec();
    assert_eq!(child_repos(&names, &vec![true, false, true]), ["a.git", "z"]);
}

#[test]
fn the_actions_are_spelled_out() {
    let outcome = Outcome {
        existing: false,
        doc_changed: true,
        config_path: "/p/ghwf.toml".to_string(),
        create_worktrees_dir: Some("/p/worktrees".to_string()),
        gitignore_line: Some("/worktrees/".to_string()),
        gitignore_path: "/p/.gitignore".to_string(),
        pr_stub: Some("/p/pull-request.md".to_string()),
        run_labels: true,
    };
    let lines = actions(&outcome);
    assert_eq!(lines.len(), 5);
    assert!(lines[0].contains("/p/ghwf.toml"));
    let nothing = Outcome {
        existing: true,
        doc_changed: false,
        create_worktrees_dir: None,
        gitignore_line: None,
        pr_stub: None,
        run_labels: false,
        ..outcome
    };
    assert!(actions(&nothing).is_empty());
}

/// An outcome in which nothing is to be done yet.
fn untouched() -> Outcome {
    Outcome {
        existing: true,
        doc_changed: false,
        config_path: "/p/ghwf.toml".to_string(),
        create_worktrees_dir: None,
        gitignore_line: None,
        gitignore_path: "/p/.gitignore".to_string(),
        pr_stub: None,
        run_labels: false,
    }
}

/// Answer every stage of the wizard with `reply`: the stages gone through, and what
/// came of them.
fn answered(text: &str, reply: impl Fn(Stage) -> Reply) -> (Vec<Stage>, Outcome, String) {
    let mut doc = open_document("f", Some(text)).unwrap();
    let mut outcome = untouched();
    let offered = offers(&doc, false);
    let mut stage = first_stage(&offered, &outcome);
    let mut stages = vec![stage];
    while !matches!(stage, Stage::Write | Stage::Nothing | Stage::Abort) {
        let reply = reply(stage);
        take_reply(&agent(), &mut doc, &mut outcome, stage, &reply, "/p/pull-request.md");
        stage = next_stage(&offered, stage, &reply, &outcome);
        stages.push(stage);
    }
    (stages, outcome, document_text(&doc))
}

/// Yes to every offer, and an answer to every question.
fn agreeing(stage: Stage) -> Reply {
    match stage {
        Stage::PriorityLabels => Reply::Text("urgent, soon".to_string()),
        Stage::Mode => Reply::Text(" auto ".to_string()),
        Stage::BlockedLabel => Reply::Text("stuck".to_string()),
        Stage::IssueRepos => Reply::Text("Org/docs".to_string()),
        _ => Reply::Yes,
    }
}

#[test]
fn an_agreeing_user_gets_every_extra() {
    let (stages, outcome, text) = answered("worktrees_dir = \"w\"\n", agreeing);
    assert_eq!(stages.last(), Some(&Stage::Write));
    assert_eq!(stages[stages.len() - 2], Stage::Proceed);
    assert!(outcome.doc_changed && outcome.run_labels);
    assert_eq!(outcome.pr_stub.as_deref(), Some("/p/pull-request.md"));
    let config: toml::Table = toml::from_str(&text).unwrap();
    assert_eq!(config["worktrees_dir"].as_str(), Some("w"));
    assert_eq!(config["permission_mode"].as_str(), Some("auto"));
    assert_eq!(config["blocked_label"].as_str(), Some("stuck"));
    assert_eq!(config["issue_repos"][0].as_str(), Some("Org/docs"));
    assert_eq!(config["delete_plan_on_approval"].as_bool(), Some(true));
    assert_eq!(config["priority_labels"][1].as_str(), Some("soon"));
}

#[test]
fn declined_and_blank_answers_change_nothing() {
    let text = "worktrees_dir = \"w\"\n";
    let (stages, outcome, out) = answered(text, |_| Reply::No);
    assert_eq!(stages.last(), Some(&Stage::Nothing));
    assert!(!stages.contains(&Stage::Proceed) && !outcome.doc_changed);
    assert_eq!(out, text);
    // Every question is reached, and none of them answered.
    let blank = |stage| match stage {
        Stage::OfferStub | Stage::OfferPlanDeletion | Stage::OfferStateLabels => Reply::No,
        Stage::PriorityLabels | Stage::Mode | Stage::BlockedLabel | Stage::IssueRepos => {
            Reply::Text("  ".to_string())
        }
        _ => Reply::Yes,
    };
    let (stages, outcome, out) = answered(text, blank);
    assert!(stages.contains(&Stage::IssueRepos));
    assert_eq!(stages.last(), Some(&Stage::Nothing));
    assert!(!outcome.doc_changed);
    assert_eq!(out, text);
}

#[test]
fn nothing_is_written_without_confirmation() {
    let hesitant = |stage| if stage == Stage::Proceed { Reply::No } else { agreeing(stage) };
    let (stages, _, _) = answered("", hesitant);
    assert_eq!(stages.last(), Some(&Stage::Abort));
    assert!(!stages.contains(&Stage::Write));
    // Cancelling ends the wizard wherever it stands.
    let asked: Vec<Stage> = answered("", agreeing).0;
    for cancelled in &asked[..asked.len() - 1] {
        let reply = |stage| if stage == *cancelled { Reply::Cancelled } else { agreeing(stage) };
        let (stages, _, _) = answered("", reply);
        assert_eq!(stages[stages.len() - 2..], [*cancelled, Stage::Abort]);
    }
}

#[test]
fn laying_out_counts_as_a_change() {
    let mut doc = open_document("f", None).unwrap();
    let mut outcome = untouched();
    lay_out(&mut doc, &mut outcome, Some("repo.git"), "worktrees");
    assert!(outcome.doc_changed);
    // What was written reads back, and is not asked for again.
    let again = open_document("f", Some(&document_text(&doc))).unwrap();
    assert!(!needs_essentials(&again));
    assert_eq!(parsed(&again)["main_repo"].as_str(), Some("repo.git"));
}

#[test]
fn any_text_reads_back_as_a_setting() {
    for odd in ["", "a\"b", "c\\d", "e\nf\r\n", "'''\"\"\"", "\u{0}\u{7f}\u{85}", "tab\there", "é🙂"] {
        let mut doc = open_document("f", Some("# lead\nkept = 1 # behind\n# end")).unwrap();
        set_blocked_label(&mut doc, odd);
        set_priority_labels(&mut doc, &[odd.to_string(), "x".to_string()]);
        let config = parsed(&doc);
        assert_eq!(config["blocked_label"].as_str(), Some(odd));
        assert_eq!(config["priority_labels"][0].as_str(), Some(odd));
        assert_eq!(config["kept"].as_integer(), Some(1));
        assert_eq!(config.len(), 3);
    }
}
