use ghwf::git::{
    add_worktree, branch_worktree, clone_bare, commit_file, commit_that_added,
    default_remote_branch, delete_local_branch, delete_remote_branch, fetch, force_push_with_lease,
    git_path, has_untracked_files, is_ancestor, is_clean, is_inside_work_tree, is_repo, is_tracked,
    is_tree_clean, list_local_branches, list_remote_branches, merge, merge_ff_only,
    new_commits,
    parse_worktree_list, path_touched_in_range, push, range_has_merges, rebase_abort, rebase_onto,
    remote_branch_matches, remote_url, remove_worktree, repair_worktree, rev_parse_ok, toplevel,
    would_conflict, Ran,
};
use ghwf::record::Recorded;
use std::cell::RefCell;

#[test]
fn parse_worktree_list_finds_branch_checkout() {
    // Real porcelain shape: a bare block, a branch checkout, a detached
    // checkout.
    let output = "worktree /repos/repo.git\n\
                  bare\n\
                  \n\
                  worktree /repos/worktrees/main\n\
                  HEAD 1111111111111111111111111111111111111111\n\
                  branch refs/heads/main\n\
                  \n\
                  worktree /repos/worktrees/detached\n\
                  HEAD 2222222222222222222222222222222222222222\n\
                  detached\n";
    assert_eq!(
        parse_worktree_list(output, "main"),
        Some("/repos/worktrees/main".to_string())
    );
    // Neither the bare block nor the detached block matches anything.
    assert_eq!(parse_worktree_list(output, "master"), None);
}

#[test]
fn parse_worktree_list_requires_exact_branch() {
    let output = "worktree /repos/worktrees/main-2\n\
                  HEAD 1111111111111111111111111111111111111111\n\
                  branch refs/heads/main-2\n";
    assert_eq!(parse_worktree_list(output, "main"), None);
    assert_eq!(
        parse_worktree_list(output, "main-2"),
        Some("/repos/worktrees/main-2".to_string())
    );
}

fn printed(out: &str) -> Ran {
    Ran::Exited {
        code: Some(0),
        stdout: Some(out.to_string()),
        stdout_empty: out.is_empty(),
        stderr: String::new(),
    }
}

fn failed(code: i32, out: &str) -> Ran {
    Ran::Exited {
        code: Some(code),
        stdout: Some(out.to_string()),
        stdout_empty: out.is_empty(),
        stderr: " bad \n".to_string(),
    }
}

#[test]
fn commands_run_in_their_directory() {
    let calls: RefCell<Vec<String>> = RefCell::new(Vec::new());
    let run = |args: Vec<String>| {
        calls.borrow_mut().push(args.join(" "));
        printed("")
    };
    fetch(&mut Recorded::new(&run), "/r").unwrap();
    add_worktree(&mut Recorded::new(&run), "/r", "/w", "b", "origin/main").unwrap();
    repair_worktree(&mut Recorded::new(&run), "/r", "/w").unwrap();
    remove_worktree(&mut Recorded::new(&run), "/r", "/w").unwrap();
    merge_ff_only(&mut Recorded::new(&run), "/r", "origin/main").unwrap();
    commit_file(&mut Recorded::new(&run), "/r", "p.md", "msg").unwrap();
    push(&mut Recorded::new(&run), "/r", "b").unwrap();
    delete_local_branch(&mut Recorded::new(&run), "/r", "b").unwrap();
    delete_remote_branch(&mut Recorded::new(&run), "/r", "b").unwrap();
    rebase_onto(&mut Recorded::new(&run), "/r", "o", "u").unwrap();
    rebase_abort(&mut Recorded::new(&run), "/r").unwrap();
    force_push_with_lease(&mut Recorded::new(&run), "/r", "b").unwrap();
    clone_bare(&mut Recorded::new(&run), "u", "/d", None).unwrap();
    assert_eq!(
        *calls.borrow(),
        [
            "-C /r fetch --prune origin",
            "-C /r worktree add -b b /w origin/main",
            "-C /r worktree repair /w",
            "-C /r worktree remove /w",
            "-C /r merge --ff-only origin/main",
            "-C /r add -- p.md",
            "-C /r commit -m msg -- p.md",
            "-C /r push -u origin b",
            "-C /r branch -D b",
            "-C /r push origin --delete b",
            "-C /r rebase --onto o u",
            "-C /r rebase --abort",
            "-C /r push --force-with-lease origin b",
            "-C . clone --bare --single-branch u /d",
        ]
    );
}

#[test]
fn failures_carry_the_command_and_its_stderr() {
    let run = |_args: Vec<String>| failed(1, "");
    assert_eq!(
        fetch(&mut Recorded::new(&run), "/r").unwrap_err(),
        "`git fetch --prune origin` failed:\nbad"
    );
    let run = |_args: Vec<String>| Ran::NotRun("gone".to_string());
    assert_eq!(
        fetch(&mut Recorded::new(&run), "/r").unwrap_err(),
        "failed to run `git` — is it installed and on PATH?: gone"
    );
    let run = |_args: Vec<String>| Ran::Exited {
        code: Some(0),
        stdout: None,
        stdout_empty: false,
        stderr: String::new(),
    };
    assert_eq!(
        toplevel(&mut Recorded::new(&run), "/r").unwrap_err(),
        "`git` returned non-UTF-8 output"
    );
}

#[test]
fn an_unstaged_file_is_not_committed() {
    let calls: RefCell<usize> = RefCell::new(0);
    let run = |_args: Vec<String>| {
        *calls.borrow_mut() += 1;
        failed(1, "")
    };
    assert!(commit_file(&mut Recorded::new(&run), "/r", "p.md", "msg").is_err());
    assert_eq!(*calls.borrow(), 1);
}

#[test]
fn answers_are_read_from_the_output() {
    let run = |_args: Vec<String>| printed(" /top \n");
    assert_eq!(toplevel(&mut Recorded::new(&run), "/r").unwrap(), "/top");
    assert_eq!(remote_url(&mut Recorded::new(&run), "/r").unwrap(), "/top");
    assert_eq!(rev_parse_ok(&mut Recorded::new(&run), "/r", "HEAD").unwrap(), "/top");
    assert_eq!(git_path(&mut Recorded::new(&run), "/here", "/r", "info/exclude").unwrap(), "/top");
    let run = |_args: Vec<String>| printed(".git/info/exclude\n");
    assert_eq!(
        git_path(&mut Recorded::new(&run), "/here", "/r", "info/exclude").unwrap(),
        "/r/.git/info/exclude"
    );
    // The path is absolute, whatever the directory.
    assert_eq!(
        git_path(&mut Recorded::new(&run), "/here", ".", "info/exclude").unwrap(),
        "/here/./.git/info/exclude"
    );
    let run = |_args: Vec<String>| printed("true\n");
    assert!(is_inside_work_tree(&mut Recorded::new(&run), "/r"));
    assert!(is_repo(&mut Recorded::new(&run), "/r", true));
    assert!(!is_repo(&mut Recorded::new(&run), "/r", false));
    let run = |_args: Vec<String>| failed(128, "");
    assert!(!is_inside_work_tree(&mut Recorded::new(&run), "/r"));
    assert!(!is_tracked(&mut Recorded::new(&run), "/r", "f"));
    assert!(!is_ancestor(&mut Recorded::new(&run), "/r", "a", "b"));
    assert!(rev_parse_ok(&mut Recorded::new(&run), "/r", "nope").is_none());
}

#[test]
fn statuses_are_read_from_the_output() {
    let run = |_args: Vec<String>| printed("");
    assert!(is_tree_clean(&mut Recorded::new(&run), "/r").unwrap());
    assert!(is_clean(&mut Recorded::new(&run), "/r", "f").unwrap());
    assert!(!has_untracked_files(&mut Recorded::new(&run), "/r").unwrap());
    assert!(!range_has_merges(&mut Recorded::new(&run), "/r", "a..b").unwrap());
    assert!(!path_touched_in_range(&mut Recorded::new(&run), "/r", "a..b", "f").unwrap());
    assert!(commit_that_added(&mut Recorded::new(&run), "/r", "f").unwrap().is_none());
    let run = |_args: Vec<String>| printed(" M f\n?? new\n");
    assert!(!is_tree_clean(&mut Recorded::new(&run), "/r").unwrap());
    assert!(has_untracked_files(&mut Recorded::new(&run), "/r").unwrap());
    assert!(range_has_merges(&mut Recorded::new(&run), "/r", "a..b").unwrap());
    let run = |_args: Vec<String>| printed("newest\noldest\n");
    assert_eq!(
        commit_that_added(&mut Recorded::new(&run), "/r", "f").unwrap().as_deref(),
        Some("oldest")
    );
}

#[test]
fn branches_are_listed_without_their_prefix() {
    let run = |args: Vec<String>| {
        if args[3] == "refs/heads" {
            printed("refs/heads/main\nrefs/heads/feat/x\nother\n")
        } else {
            printed("refs/remotes/origin/HEAD\nrefs/remotes/origin/main\n")
        }
    };
    assert_eq!(list_local_branches(&mut Recorded::new(&run), "/r").unwrap(), ["main", "feat/x"]);
    assert_eq!(list_remote_branches(&mut Recorded::new(&run), "/r").unwrap(), ["main"]);
    let run = |_args: Vec<String>| printed("origin/main\n");
    assert_eq!(default_remote_branch(&mut Recorded::new(&run), "/r").unwrap(), "main");
    let run = |_args: Vec<String>| printed("main\n");
    assert_eq!(
        default_remote_branch(&mut Recorded::new(&run), "/r").unwrap_err(),
        "unexpected origin/HEAD form: `main`"
    );
    let run = |_args: Vec<String>| printed("worktree /w\nbranch refs/heads/b\n");
    assert_eq!(
        branch_worktree(&mut Recorded::new(&run), "/r", "b").unwrap().as_deref(),
        Some("/w")
    );
}

#[test]
fn a_failed_merge_is_aborted() {
    let calls: RefCell<Vec<String>> = RefCell::new(Vec::new());
    let run = |args: Vec<String>| {
        calls.borrow_mut().push(args[2..].join(" "));
        failed(1, "")
    };
    assert_eq!(
        merge(&mut Recorded::new(&run), "/r", "origin/main").unwrap_err(),
        "`git merge --no-edit origin/main` failed:\nbad"
    );
    assert_eq!(*calls.borrow(), ["merge --no-edit origin/main", "merge --abort"]);
}

#[test]
fn a_branch_matches_its_remote_only_at_the_same_tip() {
    let at = |local: &'static str, remote: &'static str| {
        move |args: Vec<String>| {
            if args.last().unwrap() == "origin/b" {
                printed(remote)
            } else {
                printed(local)
            }
        }
    };
    assert!(remote_branch_matches(&mut Recorded::new(&at("x\n", "x\n")), "/r", "b").unwrap());
    assert!(!remote_branch_matches(&mut Recorded::new(&at("x\n", "y\n")), "/r", "b").unwrap());
    // No such remote branch.
    let run = |args: Vec<String>| {
        if args.len() == 5 {
            failed(128, "")
        } else {
            printed("x\n")
        }
    };
    assert!(!remote_branch_matches(&mut Recorded::new(&run), "/r", "b").unwrap());
}

#[test]
fn a_trial_merge_tells_conflicts_from_errors() {
    let trial = |code: i32, out: &'static str| {
        move |args: Vec<String>| {
            if args[2] == "rev-parse" {
                printed("sha\n")
            } else {
                failed(code, out)
            }
        }
    };
    assert!(!would_conflict(&mut Recorded::new(&trial(0, "tree")), "/r", "origin/main").unwrap());
    assert!(would_conflict(&mut Recorded::new(&trial(1, "tree")), "/r", "origin/main").unwrap());
    // Nothing printed means an error, not a conflict.
    assert_eq!(
        would_conflict(&mut Recorded::new(&trial(1, "")), "/r", "origin/main").unwrap_err(),
        "`git merge-tree` failed:\nbad"
    );
    let run = |_args: Vec<String>| failed(1, "");
    assert_eq!(
        would_conflict(&mut Recorded::new(&run), "/r", "origin/main").unwrap_err(),
        "HEAD does not resolve in /r"
    );
}

#[test]
fn new_commits_are_listed_by_line() {
    let run = |args: Vec<String>| {
        assert_eq!(args, ["-C", "/wt", "log", "--format=%h %s", "HEAD..origin/main"]);
        printed("abc One\ndef Two words\n")
    };
    assert_eq!(
        new_commits(&mut Recorded::new(&run), "/wt", "origin/main").unwrap(),
        ["abc One", "def Two words"]
    );
    let none = |_args: Vec<String>| printed("");
    assert!(new_commits(&mut Recorded::new(&none), "/wt", "origin/main").unwrap().is_empty());
    let broken = |_args: Vec<String>| failed(128, "");
    assert!(new_commits(&mut Recorded::new(&broken), "/wt", "origin/main").is_err());
}
