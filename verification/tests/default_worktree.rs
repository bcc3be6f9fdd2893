use ghwf::git::Ran;
use ghwf::prep::{ensure_worktree, update_default_worktree, Update};
use ghwf::state::{branch_and_slug, IssueState};
use ghwf::store::{content_hash, session_token};
use ghwf::record::Recorded;
use std::cell::RefCell;

fn exited(code: i32, out: &str) -> Ran {
    Ran::Exited {
        code: Some(code),
        stdout: Some(out.to_string()),
        stdout_empty: out.is_empty(),
        stderr: "refused".to_string(),
    }
}

const CHECKED_OUT: &str = "worktree /main\nbare\n\nworktree /wt\nHEAD 1\nbranch refs/heads/main\n";

/// What comes of the update, and the commands that were run.
fn update(
    listing: &str,
    status: &str,
    current: bool,
    behind: bool,
    merges: bool,
) -> (Result<Update, String>, Vec<String>) {
    let log: RefCell<Vec<String>> = RefCell::new(Vec::new());
    let run = |args: Vec<String>| {
        let words = args[1..].join(" ");
        log.borrow_mut().push(words.clone());
        match words.as_str() {
            "/main worktree list --porcelain" => exited(0, listing),
            "/wt status --porcelain --untracked-files=no" => exited(0, status),
            "/wt merge-base --is-ancestor origin/main HEAD" => exited(if current { 0 } else { 1 }, ""),
            "/wt merge-base --is-ancestor HEAD origin/main" => exited(if behind { 0 } else { 1 }, ""),
            "/wt merge --ff-only origin/main" => exited(if merges { 0 } else { 1 }, ""),
            other => panic!("unexpected command: {other}"),
        }
    };
    let result = update_default_worktree(&mut Recorded::new(&run), "/main", "main");
    let ran = log.borrow().clone();
    (result, ran)
}

fn merged(ran: &[String]) -> bool {
    ran.iter().any(|words| words.contains("--ff-only"))
}

#[test]
fn a_worktree_that_is_behind_is_forwarded() {
    let (result, ran) = update(CHECKED_OUT, "", false, true, true);
    assert!(matches!(result, Ok(Update::Forwarded(w)) if w == "/wt"));
    assert!(merged(&ran));
}

#[test]
fn a_worktree_with_changes_is_left_alone() {
    let (result, ran) = update(CHECKED_OUT, " M a.rs\n", false, true, true);
    assert!(matches!(result, Ok(Update::Changed(w)) if w == "/wt"));
    assert!(!merged(&ran));
}

#[test]
fn a_current_worktree_is_left_alone() {
    let (result, ran) = update(CHECKED_OUT, "", true, true, true);
    assert!(matches!(result, Ok(Update::Current(w)) if w == "/wt"));
    assert!(!merged(&ran));
}

#[test]
fn a_diverged_worktree_is_left_alone() {
    let (result, ran) = update(CHECKED_OUT, "", false, false, true);
    assert!(matches!(result, Ok(Update::Diverged(w)) if w == "/wt"));
    assert!(!merged(&ran));
}

#[test]
fn without_a_checkout_there_is_nothing_to_update() {
    let (result, ran) = update("worktree /main\nbare\n", "", false, true, true);
    assert!(matches!(result, Ok(Update::NoWorktree)));
    assert_eq!(ran.len(), 1);
}

#[test]
fn a_failing_merge_is_reported() {
    let (result, _) = update(CHECKED_OUT, "", false, true, false);
    assert!(matches!(result, Err(message) if message.contains("refused")));
}

#[test]
fn a_branch_is_named_after_its_issue() {
    let (branch, slug) = branch_and_slug(None, 42, "Fix: the *Parser*  drops CRLF (again)!");
    assert_eq!(slug, "fix-the-parser-drops-crlf-again");
    assert_eq!(branch, "42-fix-the-parser-drops-crlf-again");
}

#[test]
fn a_slug_has_a_few_words_at_most() {
    let (_, slug) = branch_and_slug(None, 1, "one two three four five six seven eight");
    assert_eq!(slug, "one-two-three-four-five-six");
}

#[test]
fn a_foreign_issue_gets_its_prefix_and_the_same_slug() {
    let (branch, slug) = branch_and_slug(Some("wiki"), 7, "Add a page");
    assert_eq!(branch, "wiki-7-add-a-page");
    assert_eq!(slug, branch_and_slug(None, 7, "Add a page").1);
    assert_eq!(branch_and_slug(Some(""), 7, "Add a page").0, "7-add-a-page");
}

#[test]
fn a_session_is_marked_by_the_beginning_of_its_hash() {
    let token = session_token("abc");
    assert_eq!(token, "ba7816bf8f01cfea");
    assert!(content_hash("abc").starts_with(&token));
}

/// What comes of ensuring the worktree of a fresh issue, where the step with this
/// word fails; the commands that were run; and what is recorded.
fn ensure(failing: &str) -> (Result<(String, String), String>, Vec<String>, IssueState) {
    let log: RefCell<Vec<String>> = RefCell::new(Vec::new());
    let run = |args: Vec<String>| {
        log.borrow_mut().push(args[1..].join(" "));
        exited(if args[2] == failing { 1 } else { 0 }, "")
    };
    let named = |_: ()| {
        log.borrow_mut().push("default".to_string());
        if failing == "default" { Err("offline".to_string()) } else { Ok("main".to_string()) }
    };
    let mut state = IssueState::default();
    let mut git = Recorded::new(&run);
    let mut default = Recorded::new(&named);
    let branch = "12-fix-it";
    let r = ensure_worktree(&mut git, &mut default, &mut state, "/main", "/wts", branch);
    if r.is_ok() {
        // What is recorded stands, and no command is run again.
        let again = ensure_worktree(&mut git, &mut default, &mut state, "/main", "/wts", "other");
        assert_eq!(again, r);
    }
    let ran = log.borrow().clone();
    (r, ran, state)
}

#[test]
fn a_worktree_starts_at_the_fetched_default_branch() {
    let (result, ran, state) = ensure("");
    assert_eq!(result, Ok(("/wts/12-fix-it".to_string(), "12-fix-it".to_string())));
    assert_eq!(
        ran,
        [
            "/main fetch --prune origin",
            "default",
            "/main worktree add -b 12-fix-it /wts/12-fix-it origin/main",
        ]
    );
    let prep = state.prep.unwrap();
    assert_eq!(prep.branch.as_deref(), Some("12-fix-it"));
    assert_eq!(prep.worktree_path.as_deref(), Some("/wts/12-fix-it"));
}

#[test]
fn a_worktree_that_could_not_be_created_is_not_recorded() {
    for (failing, steps) in [("fetch", 1), ("default", 2), ("worktree", 3)] {
        let (result, ran, state) = ensure(failing);
        assert!(result.is_err());
        assert_eq!(ran.len(), steps);
        let prep = state.prep.unwrap();
        assert!(prep.branch.is_none() && prep.worktree_path.is_none());
    }
}
