use ghwf::git::{Git, Ran};
use ghwf::implement::{
    base_banner, base_heading, base_sync, branch_body, check_base, detect_conflict, no_branch_body, plan_path,
    review_body, review_no_branch_body, BaseSync,
};
use ghwf::record::Recorded;
use ghwf::state::PrepState;
use std::cell::RefCell;

fn exited(code: i32, out: &str) -> Ran {
    Ran::Exited {
        code: Some(code),
        stdout: Some(out.to_string()),
        stdout_empty: out.is_empty(),
        stderr: "no".to_string(),
    }
}

/// What a repo whose default branch is `main` answers: whether HEAD contains it, and
/// how the trial merge exits.
fn answers(contains: bool, trial: i32) -> impl Fn(Vec<String>) -> Ran {
    move |args| match args[2].as_str() {
        "fetch" | "merge" | "push" => exited(0, ""),
        "rev-parse" if args[3] == "--abbrev-ref" => exited(0, "origin/main\n"),
        "rev-parse" => exited(0, "sha\n"),
        "merge-base" => exited(if contains { 0 } else { 1 }, ""),
        "merge-tree" => exited(trial, "tree\n"),
        "log" => exited(0, "abc Rework the parser\ndef Drop the old flag\n"),
        other => panic!("unexpected git {other}"),
    }
}

fn repo(contains: bool, trial: i32) -> Git<impl Fn(Vec<String>) -> Ran> {
    Recorded::new(answers(contains, trial))
}

fn open_pr() -> PrepState {
    PrepState {
        pr_number: Some(1),
        worktree_path: Some("/wt".to_string()),
        branch: Some("b".to_string()),
        ..Default::default()
    }
}

#[test]
fn detect_conflict_skips_when_preconditions_unmet() {
    // --no-branch: nothing to check.
    let no_branch = PrepState {
        no_branch: true,
        pr_number: Some(1),
        worktree_path: Some("/wt".into()),
        ..Default::default()
    };
    assert!(detect_conflict(&mut repo(false, 1), &no_branch, true).is_none());

    // No PR recorded yet.
    let no_pr = PrepState {
        worktree_path: Some("/wt".into()),
        ..Default::default()
    };
    assert!(detect_conflict(&mut repo(false, 1), &no_pr, true).is_none());

    // PR recorded but no worktree path.
    let no_worktree = PrepState {
        pr_number: Some(1),
        ..Default::default()
    };
    assert!(detect_conflict(&mut repo(false, 1), &no_worktree, true).is_none());

    // Worktree path that doesn't exist on disk: skipped, not an error.
    let missing = PrepState {
        pr_number: Some(1),
        worktree_path: Some("/nonexistent/ghwf/worktree".into()),
        ..Default::default()
    };
    assert!(detect_conflict(&mut repo(false, 1), &missing, false).is_none());
}

#[test]
fn waiting_bodies_include_wait_instruction() {
    for body in [
        branch_body("/wt", "plans/7-x.md", None, None),
        no_branch_body("plans/7-x.md"),
        review_body("https://github.com/o/r/pull/18", None),
        review_no_branch_body(),
    ] {
        assert!(body.contains("`ghwf wait`"), "missing in: {body}");
    }
}

#[test]
fn waiting_bodies_route_questions_off_interactive_prompts() {
    for body in [
        branch_body("/wt", "plans/7-x.md", None, None),
        no_branch_body("plans/7-x.md"),
        review_body("https://github.com/o/r/pull/18", None),
        review_no_branch_body(),
    ] {
        assert!(
            body.contains("`ghwf hand-off --question`"),
            "missing in: {body}"
        );
    }
}

#[test]
fn pr_bodies_steer_replies_to_where_asked() {
    for body in [
        branch_body("/wt", "plans/7-x.md", None, None),
        review_body("https://github.com/o/r/pull/18", None),
    ] {
        assert!(
            body.contains("Answer each question in the place it was asked"),
            "missing in: {body}"
        );
        assert!(
            body.contains("`ghwf reply-review-comment --id <id>`"),
            "missing in: {body}"
        );
    }
}

#[test]
fn implement_bodies_hand_off_without_retired_command() {
    for body in [
        branch_body("/wt", "plans/7-x.md", None, None),
        no_branch_body("plans/7-x.md"),
    ] {
        assert!(body.contains("`ghwf hand-off`"), "missing in: {body}");
        assert!(
            !body.contains("/approve-implementation"),
            "retired in: {body}"
        );
    }
}

#[test]
fn pr_bodies_name_the_instructions_file_when_present() {
    let path = "/base/pull-request.md";
    for body in [
        branch_body("/wt", "plans/7-x.md", None, Some(path)),
        review_body("https://github.com/o/r/pull/18", Some(path)),
    ] {
        assert!(
            body.contains("`/base/pull-request.md`"),
            "missing in: {body}"
        );
        assert!(
            body.contains("Finish each round of work"),
            "missing in: {body}"
        );
    }
}

#[test]
fn pr_bodies_fall_back_to_generic_instruction() {
    for body in [
        branch_body("/wt", "plans/7-x.md", None, None),
        review_body("https://github.com/o/r/pull/18", None),
    ] {
        assert!(
            body.contains("keep them accurate, concise, and current"),
            "missing in: {body}"
        );
    }
}

#[test]
fn a_standing_conflict_is_detected() {
    let prep = open_pr();
    assert_eq!(detect_conflict(&mut repo(false, 1), &prep, true).as_deref(), Some("main"));
    assert!(detect_conflict(&mut repo(false, 0), &prep, true).is_none());
    assert!(detect_conflict(&mut repo(true, 1), &prep, true).is_none());
    assert_eq!(
        check_base(&mut repo(false, 0), &prep, true),
        Ok(Some(("main".to_string(), BaseSync::BehindClean)))
    );
    let offline = |_: Vec<String>| exited(128, "");
    assert_eq!(
        check_base(&mut Recorded::new(&offline), &prep, true),
        Err("could not check the branch against its base: \
             `git fetch --prune origin` failed:\nno"
            .to_string())
    );
    assert!(detect_conflict(&mut Recorded::new(&offline), &prep, true).is_none());
}

#[test]
fn a_branch_is_classified_against_its_base() {
    let sync = |contains, trial| base_sync(&mut repo(contains, trial), "/wt").unwrap().1;
    assert_eq!(sync(true, 1), BaseSync::UpToDate);
    assert_eq!(sync(false, 1), BaseSync::Conflict);
    assert_eq!(sync(false, 0), BaseSync::BehindClean);
    assert_eq!(
        base_sync(&mut repo(false, 2), "/wt").unwrap_err(),
        "`git merge-tree` failed:\nno"
    );
}

#[test]
fn a_base_that_moved_on_is_merged_only_when_asked() {
    let prep = open_pr();
    let banner = base_banner(&mut repo(false, 1), &prep, true, 7, true).ok().unwrap().unwrap();
    assert!(banner.is_conflict());
    let start = "Merge conflict: the PR's branch conflicts with `origin/main`";
    assert!(banner.text().starts_with(start));
    let banner = base_banner(&mut repo(false, 0), &prep, true, 7, true).ok().unwrap().unwrap();
    assert!(!banner.is_conflict());
    assert!(banner.text().contains("issue #7"));
    assert!(base_banner(&mut repo(false, 0), &prep, true, 7, false).ok().unwrap().is_none());
    assert!(base_banner(&mut repo(true, 0), &prep, true, 7, true).ok().unwrap().is_none());
    // A failed merge leaves no banner, and says why.
    let refusing = |args: Vec<String>| {
        if args[2] == "merge" { exited(1, "") } else { answers(false, 0)(args) }
    };
    assert_eq!(
        base_banner(&mut Recorded::new(&refusing), &prep, true, 7, true).err().unwrap(),
        "auto-merge of `origin/main` failed: `git merge --no-edit origin/main` failed:\nno"
    );
    assert_eq!(plan_path(7, "fix-it"), "plans/7-fix-it.md");
}

#[test]
fn nothing_is_merged_or_pushed_unasked() {
    let log: RefCell<Vec<String>> = RefCell::new(Vec::new());
    let behind = answers(false, 0);
    let run = |args: Vec<String>| {
        log.borrow_mut().push(args[2].clone());
        behind(args)
    };
    let prep = open_pr();
    let banner = base_banner(&mut Recorded::new(&run), &prep, true, 7, false);
    assert!(banner.ok().unwrap().is_none());
    assert!(!log.borrow().iter().any(|verb| verb == "merge" || verb == "push"));
    // Asked to, the merge comes before the push, and both after the trial.
    log.borrow_mut().clear();
    let banner = base_banner(&mut Recorded::new(&run), &prep, true, 7, true);
    assert!(banner.ok().unwrap().is_some());
    let verbs = log.borrow().clone();
    let at = |verb: &str| verbs.iter().position(|v| v == verb).unwrap();
    assert!(at("merge-tree") < at("merge") && at("merge") < at("push"));
}

#[test]
fn a_moved_base_is_headed_by_its_new_commits() {
    let prep = open_pr();
    let told = base_heading(&mut repo(false, 0), &prep, true, 7, false).ok().unwrap().unwrap();
    assert!(!told.is_conflict());
    let text = told.text();
    assert!(text.starts_with("Heads-up: `origin/main` has moved on"), "{text}");
    assert!(text.contains("- abc Rework the parser\n- def Drop the old flag"), "{text}");
    // Merged in, the confirmation names them too.
    let told = base_heading(&mut repo(false, 0), &prep, true, 7, true).ok().unwrap().unwrap();
    assert!(told.text().starts_with("ghwf merged `origin/main` into the branch of issue #7"));
    assert!(told.text().contains("- def Drop the old flag"));
    // A conflict is told as ever, and nothing where the base has not moved.
    let told = base_heading(&mut repo(false, 1), &prep, true, 7, false).ok().unwrap().unwrap();
    assert!(told.is_conflict());
    assert!(base_heading(&mut repo(true, 0), &prep, true, 7, false).ok().unwrap().is_none());
}

#[test]
fn a_heads_up_merges_and_pushes_nothing() {
    let log: RefCell<Vec<String>> = RefCell::new(Vec::new());
    let behind = answers(false, 0);
    let run = |args: Vec<String>| {
        log.borrow_mut().push(args[2].clone());
        behind(args)
    };
    let told = base_heading(&mut Recorded::new(&run), &open_pr(), true, 7, false);
    assert!(told.ok().unwrap().is_some());
    assert!(!log.borrow().iter().any(|verb| verb == "merge" || verb == "push"));
}
