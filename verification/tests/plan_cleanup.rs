use ghwf::git::Ran;
use ghwf::plan_cleanup::{remove_plan_commit, Removal};
use ghwf::record::Recorded;
use std::cell::RefCell;

fn exited(code: i32, out: &str, err: &str) -> Ran {
    Ran::Exited {
        code: Some(code),
        stdout: Some(out.to_string()),
        stdout_empty: out.is_empty(),
        stderr: err.to_string(),
    }
}

/// A branch with one plan commit `p` on top of `b`.
struct Branch {
    dirty: bool,
    added: &'static str,
    parent: bool,
    merges: &'static str,
    touched: &'static str,
    rebases: bool,
    pushes: bool,
}

const LINEAR: Branch = Branch {
    dirty: false,
    added: "p\n",
    parent: true,
    merges: "",
    touched: "",
    rebases: true,
    pushes: true,
};

/// What comes of removing the plan commit, and the commands that were run.
fn remove(branch: Branch) -> (Result<Removal, String>, Vec<String>) {
    let log: RefCell<Vec<String>> = RefCell::new(Vec::new());
    let run = |args: Vec<String>| {
        assert_eq!(args[..2], ["-C".to_string(), "/wt".to_string()]);
        let words = args[2..].join(" ");
        log.borrow_mut().push(words.clone());
        match words.as_str() {
            "status --porcelain --untracked-files=no" => {
                exited(0, if branch.dirty { " M a.rs\n" } else { "" }, "")
            }
            "log --diff-filter=A --format=%H -- plans/7-x.md" => exited(0, branch.added, ""),
            "rev-parse --verify --quiet p^" => {
                if branch.parent {
                    exited(0, "b\n", "")
                } else {
                    exited(1, "", "")
                }
            }
            "rev-list --merges b..HEAD" => exited(0, branch.merges, ""),
            "rev-list p..HEAD -- plans/7-x.md" => exited(0, branch.touched, ""),
            "rebase --onto b p" => exited(if branch.rebases { 0 } else { 1 }, "", "conflict"),
            "rebase --abort" => exited(0, "", ""),
            "push --force-with-lease origin work" => {
                exited(if branch.pushes { 0 } else { 1 }, "", "stale")
            }
            other => panic!("unexpected git {other}"),
        }
    };
    let removal = remove_plan_commit(&mut Recorded::new(&run), "/wt", "work", "plans/7-x.md");
    (removal, log.into_inner())
}

fn reason(branch: Branch) -> String {
    match remove(branch).0 {
        Ok(Removal::Skipped(why)) => why,
        _ => panic!("expected a skip"),
    }
}

#[test]
fn a_clean_history_is_rewritten_and_pushed() {
    let (removal, log) = remove(LINEAR);
    assert!(matches!(removal, Ok(Removal::Removed)));
    // Every check comes before the rewrite, and the push after it.
    assert_eq!(
        log,
        [
            "status --porcelain --untracked-files=no",
            "log --diff-filter=A --format=%H -- plans/7-x.md",
            "rev-parse --verify --quiet p^",
            "rev-list --merges b..HEAD",
            "rev-list p..HEAD -- plans/7-x.md",
            "rebase --onto b p",
            "push --force-with-lease origin work",
        ]
    );
}

#[test]
fn an_unsafe_rewrite_is_skipped() {
    assert_eq!(
        reason(Branch { dirty: true, ..LINEAR }),
        "the worktree has uncommitted changes"
    );
    assert_eq!(
        reason(Branch { added: "", ..LINEAR }),
        "no commit adds `plans/7-x.md` on this branch"
    );
    assert_eq!(
        reason(Branch { parent: false, ..LINEAR }),
        "the plan commit has no parent to rebase onto"
    );
    assert_eq!(
        reason(Branch { merges: "m\n", ..LINEAR }),
        "the branch contains merge commits"
    );
    assert_eq!(
        reason(Branch { touched: "t\n", ..LINEAR }),
        "`plans/7-x.md` is modified by a later commit"
    );
    let (_, log) = remove(Branch { touched: "t\n", ..LINEAR });
    assert!(!log.iter().any(|words| words.starts_with("rebase")));
}

#[test]
fn the_oldest_adding_commit_is_dropped() {
    let (removal, log) = remove(Branch { added: "later\np\n", ..LINEAR });
    assert!(matches!(removal, Ok(Removal::Removed)));
    assert!(log.contains(&"rebase --onto b p".to_string()));
}

#[test]
fn a_failed_rebase_is_aborted() {
    let (removal, log) = remove(Branch { rebases: false, ..LINEAR });
    assert!(matches!(
        removal,
        Ok(Removal::Skipped(why))
            if why == "the rebase failed: `git rebase --onto b p` failed:\nconflict"
    ));
    assert_eq!(log.last().unwrap(), "rebase --abort");
}

#[test]
fn a_rejected_push_is_told() {
    assert_eq!(
        reason(Branch { pushes: false, ..LINEAR }),
        "the plan commit was dropped locally but the force-push was rejected (\
         `git push --force-with-lease origin work` failed:\nstale); the remote branch still has \
         the plan"
    );
}

#[test]
fn a_failing_probe_is_an_error() {
    let run = |_args: Vec<String>| Ran::NotRun("gone".to_string());
    assert!(remove_plan_commit(&mut Recorded::new(&run), "/wt", "work", "plans/7-x.md").is_err());
}
