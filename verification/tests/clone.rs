use ghwf::clone::{
    bare_path, config_text, create_container, populate, removes_container, report, resolve,
    shorthand_url, try_create_default_worktree, worktree_path, Container,
};
use ghwf::git::Ran;
use ghwf::record::Recorded;
use std::cell::RefCell;

#[test]
fn shorthand_urls_follow_protocol() {
    assert_eq!(
        shorthand_url("https", "owner", "repo"),
        "https://github.com/owner/repo.git"
    );
    assert_eq!(
        shorthand_url("ssh", "owner", "repo"),
        "git@github.com:owner/repo.git"
    );
    // Anything unrecognized falls back to HTTPS.
    assert_eq!(
        shorthand_url("", "owner", "repo"),
        "https://github.com/owner/repo.git"
    );
}

#[test]
fn resolve_passes_urls_through_and_derives_the_name() {
    for (arg, name) in [
        ("https://github.com/owner/repo", "repo"),
        ("https://github.com/owner/repo.git", "repo"),
        ("git@github.com:owner/repo.git", "repo"),
    ] {
        let (url, derived) = resolve(arg, "https").unwrap();
        assert_eq!(url, arg);
        assert_eq!(derived, name);
    }
}

#[test]
fn resolve_expands_shorthand() {
    let (url, name) = resolve("owner/repo", "ssh").unwrap();
    assert_eq!(url, "git@github.com:owner/repo.git");
    assert_eq!(name, "repo");
    // A `.git` suffix on the shorthand is tolerated, not doubled.
    let (url, name) = resolve("owner/repo.git", "https").unwrap();
    assert_eq!(url, "https://github.com/owner/repo.git");
    assert_eq!(name, "repo");
}

#[test]
fn resolve_rejects_garbage() {
    for arg in ["no-slash", "/repo", "owner/", "owner/extra/repo", ""] {
        assert!(resolve(arg, "https").is_err(), "`{arg}` should not resolve");
    }
    // A non-GitHub URL errors rather than cloning somewhere surprising.
    assert!(resolve("https://gitlab.com/owner/repo", "https").is_err());
}

#[test]
fn generated_config_parses_as_a_ghwf_config() {
    let config: toml::Table = toml::from_str(&config_text("repo")).unwrap();
    assert_eq!(config["main_repo"].as_str(), Some("repo.git"));
    assert_eq!(config["worktrees_dir"].as_str(), Some("worktrees"));
}

fn printed(out: &str) -> Ran {
    Ran::Exited {
        code: Some(0),
        stdout: Some(out.to_string()),
        stdout_empty: out.is_empty(),
        stderr: String::new(),
    }
}

#[test]
fn the_bare_repo_is_cloned_then_its_remote_set_up() {
    let calls: RefCell<Vec<String>> = RefCell::new(Vec::new());
    let run = |args: Vec<String>| {
        calls.borrow_mut().push(args.join(" "));
        printed("")
    };
    let url = "https://github.com/o/x.git";
    assert!(populate(&mut Recorded::new(&run), "/p/x.git", url, Some("/old")).is_ok());
    assert_eq!(
        *calls.borrow(),
        [
            "-C . clone --bare --single-branch --reference /old --dissociate https://github.com/o/x.git /p/x.git",
            "-C /p/x.git config remote.origin.fetch +refs/heads/*:refs/remotes/origin/*",
            "-C /p/x.git fetch --prune origin",
            "-C /p/x.git remote set-head origin --auto",
        ]
    );
}

#[test]
fn a_failed_clone_stops_there() {
    let calls: RefCell<usize> = RefCell::new(0);
    let run = |_args: Vec<String>| {
        *calls.borrow_mut() += 1;
        Ran::Exited {
            code: Some(128),
            stdout: Some(String::new()),
            stdout_empty: true,
            stderr: "fatal: no\n".to_string(),
        }
    };
    let err = populate(&mut Recorded::new(&run), "/p/x.git", "u", None).unwrap_err();
    assert_eq!(err, "`git clone --bare --single-branch u /p/x.git` failed:\nfatal: no");
    assert_eq!(*calls.borrow(), 1);
}

#[test]
fn the_default_branch_is_checked_out() {
    let calls: RefCell<Vec<String>> = RefCell::new(Vec::new());
    let run = |args: Vec<String>| {
        calls.borrow_mut().push(args.join(" "));
        printed("origin/main\n")
    };
    let default = try_create_default_worktree(&mut Recorded::new(&run), "/p", "/p/x.git").unwrap();
    assert_eq!(default, "main");
    assert_eq!(calls.borrow()[1], "-C /p/x.git worktree add /p/worktrees/main main");
    assert_eq!(worktree_path("/p", "main"), "/p/worktrees/main");
    assert_eq!(bare_path("/p", "x"), "/p/x.git");
}

#[test]
fn only_an_empty_directory_is_taken_over() {
    assert_eq!(create_container("d", Container::Created), Ok(true));
    assert_eq!(create_container("d", Container::Exists { empty: true }), Ok(false));
    assert!(create_container("d", Container::Exists { empty: false })
        .unwrap_err()
        .contains("is not an empty directory"));
    assert!(removes_container(true, true));
    assert!(!removes_container(false, true));
    assert!(!removes_container(true, false));
}

#[test]
fn the_report_names_the_layout() {
    let text = report("proj", "x", Some("main"));
    assert!(text.starts_with("Created ghwf's preferred layout in `proj`:\n- `x.git` — the bare repo\n"));
    assert!(text.contains("  - `main/` — a checkout of the default branch, ready to use\n"));
    assert!(!report("proj", "x", None).contains("a checkout of the default branch"));
}
