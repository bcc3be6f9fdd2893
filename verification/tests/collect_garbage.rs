use ghwf::collect_garbage::{
    candidates, classify, describe, describe_failure, execute, gather, is_due, is_quiet,
    last_run_path, merge_landed, pick_merged_pr, read_last_run, run_periodic, stamp_last_run, Action,
    BranchFacts, Order, Progress, TreeStatus, Verdict, WorktreeFacts,
};
use ghwf::config::Config;
use ghwf::git::Ran;
use ghwf::models::{BranchPr, Oid};
use ghwf::record::Recorded;

const MERGED_TIP: &str = "aaa111";
const OTHER_TIP: &str = "bbb222";

fn pr(number: u64, state: &str, merged: bool) -> BranchPr {
    BranchPr {
        number,
        state: state.to_string(),
        head_ref_oid: MERGED_TIP.to_string(),
        merge_commit: merged.then(|| Oid {
            oid: "ccc333".to_string(),
        }),
    }
}

fn worktree(status: TreeStatus) -> WorktreeFacts {
    WorktreeFacts {
        path: "/repos/worktrees/branch".to_string(),
        status,
        is_main: false,
        contains_cwd: false,
    }
}

fn facts(
    local_tip: Option<&str>,
    remote_tip: Option<&str>,
    worktree: Option<WorktreeFacts>,
) -> BranchFacts {
    BranchFacts {
        local_tip: local_tip.map(str::to_string),
        remote_tip: remote_tip.map(str::to_string),
        worktree,
    }
}

fn run_classify(facts: &BranchFacts, merge_landed: bool) -> Verdict {
    classify("branch", facts, MERGED_TIP, merge_landed)
}

#[test]
fn is_due_honours_the_interval() {
    // Never run before: always due.
    assert!(is_due(None, 1_000, 3600));
    // Less than the interval has passed: not due.
    assert!(!is_due(Some(1_000), 1_000 + 3599, 3600));
    // Exactly at the interval: due.
    assert!(is_due(Some(1_000), 1_000 + 3600, 3600));
    // A zero interval disables the throttle.
    assert!(is_due(Some(1_000), 1_000, 0));
    // Clock skew (now before last): not due, never panics.
    assert!(!is_due(Some(2_000), 1_000, 3600));
}

#[test]
fn clock_skew_is_never_due() {
    assert!(!is_due(Some(10), 5, 0));
}

#[test]
fn pick_merged_pr_skips_active_and_unmerged_branches() {
    // An open PR blocks collection even alongside an older merged one.
    let open = [pr(1, "MERGED", true), pr(2, "OPEN", false)];
    assert!(pick_merged_pr(&open).is_none());
    // Closed-without-merge is not garbage either.
    let closed = [pr(1, "CLOSED", false)];
    assert!(pick_merged_pr(&closed).is_none());
    assert!(pick_merged_pr(&[]).is_none());
    // The latest merged PR wins.
    let merged = [
        pr(1, "MERGED", true),
        pr(3, "MERGED", true),
        pr(2, "CLOSED", false),
    ];
    assert_eq!(pick_merged_pr(&merged).unwrap().number, 3);
}

#[test]
fn fully_matching_branch_collects_everything() {
    let facts = facts(
        Some(MERGED_TIP),
        Some(MERGED_TIP),
        Some(worktree(TreeStatus::Clean)),
    );
    let verdict = run_classify(&facts, true);
    assert!(verdict.remove_worktree);
    assert!(verdict.delete_local);
    assert!(verdict.delete_remote);
    assert!(verdict.delete_state);
    assert!(verdict.warnings.is_empty());
}

#[test]
fn squash_merge_shape_still_collects() {
    // For squash/rebase merges the tip never lands on main itself, but
    // tip == headRefOid and a landed merge commit suffice; classify takes
    // exactly those facts, so this is the same as the plain case.
    let facts = facts(Some(MERGED_TIP), Some(MERGED_TIP), None);
    let verdict = run_classify(&facts, true);
    assert!(verdict.delete_local);
    assert!(verdict.delete_remote);
    assert!(verdict.delete_state);
}

#[test]
fn diverged_local_is_kept_with_a_warning() {
    let facts = facts(Some(OTHER_TIP), Some(MERGED_TIP), None);
    let verdict = run_classify(&facts, true);
    assert!(!verdict.delete_local);
    // The matching remote side still goes.
    assert!(verdict.delete_remote);
    assert!(!verdict.delete_state);
    assert_eq!(verdict.warnings.len(), 1);
    assert!(verdict.warnings[0].contains("local branch `branch`"));
}

#[test]
fn diverged_remote_is_kept_with_a_warning() {
    let facts = facts(Some(MERGED_TIP), Some(OTHER_TIP), None);
    let verdict = run_classify(&facts, true);
    assert!(verdict.delete_local);
    assert!(!verdict.delete_remote);
    assert!(!verdict.delete_state);
    assert_eq!(verdict.warnings.len(), 1);
    assert!(verdict.warnings[0].contains("origin/branch"));
}

#[test]
fn unlanded_merge_keeps_everything() {
    // A merged PR whose merge commit isn't on the default branch (e.g.
    // merged into some other base) is suspicious: warn, touch nothing.
    let facts = facts(
        Some(MERGED_TIP),
        Some(MERGED_TIP),
        Some(worktree(TreeStatus::Clean)),
    );
    let verdict = run_classify(&facts, false);
    assert!(!verdict.remove_worktree);
    assert!(!verdict.delete_local);
    assert!(!verdict.delete_remote);
    assert!(!verdict.delete_state);
    assert_eq!(verdict.warnings.len(), 1);
    assert!(verdict.warnings[0].contains("not on the default branch"));
}

#[test]
fn dirty_worktree_keeps_worktree_and_local_branch() {
    let facts = facts(
        Some(MERGED_TIP),
        Some(MERGED_TIP),
        Some(worktree(TreeStatus::TrackedChanges)),
    );
    let verdict = run_classify(&facts, true);
    assert!(!verdict.remove_worktree);
    assert!(!verdict.delete_local);
    // The merged remote branch is independent of local unsaved work.
    assert!(verdict.delete_remote);
    assert!(!verdict.delete_state);
    assert!(verdict.warnings[0].contains("working tree changes"));
}

#[test]
fn untracked_files_keep_the_worktree_too() {
    let facts = facts(
        Some(MERGED_TIP),
        None,
        Some(worktree(TreeStatus::UntrackedOnly)),
    );
    let verdict = run_classify(&facts, true);
    assert!(!verdict.remove_worktree);
    assert!(!verdict.delete_local);
    assert!(!verdict.delete_state);
    assert!(verdict.warnings[0].contains("untracked files"));
}

#[test]
fn main_worktree_is_never_removed() {
    let mut wt = worktree(TreeStatus::Clean);
    wt.is_main = true;
    let facts = facts(Some(MERGED_TIP), None, Some(wt));
    let verdict = run_classify(&facts, true);
    assert!(!verdict.remove_worktree);
    assert!(!verdict.delete_local);
    assert!(verdict.warnings[0].contains("main worktree"));
}

#[test]
fn cwd_worktree_is_never_removed() {
    let mut wt = worktree(TreeStatus::Clean);
    wt.contains_cwd = true;
    let facts = facts(Some(MERGED_TIP), None, Some(wt));
    let verdict = run_classify(&facts, true);
    assert!(!verdict.remove_worktree);
    assert!(!verdict.delete_local);
    assert!(verdict.warnings[0].contains("current directory"));
}

#[test]
fn remote_only_branch_collects_remote_and_state() {
    let facts = facts(None, Some(MERGED_TIP), None);
    let verdict = run_classify(&facts, true);
    assert!(!verdict.delete_local);
    assert!(verdict.delete_remote);
    assert!(verdict.delete_state);
    assert!(verdict.warnings.is_empty());
}

#[test]
fn local_only_branch_collects_local_and_state() {
    let facts = facts(Some(MERGED_TIP), None, None);
    let verdict = run_classify(&facts, true);
    assert!(verdict.delete_local);
    assert!(!verdict.delete_remote);
    assert!(verdict.delete_state);
}

#[test]
fn candidates_are_sorted_without_the_default_branch() {
    let names = |v: &[&str]| v.iter().map(|s| s.to_string()).collect::<Vec<String>>();
    let got = candidates(&names(&["main", "b", "a"]), &names(&["c", "b", "main"]), "main");
    assert_eq!(got, ["a", "b", "c"]);
}

#[test]
fn a_failed_step_keeps_what_depends_on_it() {
    let verdict = Verdict {
        remove_worktree: true,
        delete_local: true,
        delete_remote: true,
        delete_state: true,
        warnings: Vec::new(),
    };
    let progress = Progress::default();
    assert_eq!(execute(&verdict, progress, false), Some(Order::CarryOut(Action::RemoveWorktree)));
    // The branch is still checked out in a worktree that was not removed.
    let failed = progress.note(Action::RemoveWorktree, false);
    assert_eq!(execute(&verdict, failed, false), Some(Order::CarryOut(Action::DeleteRemote)));
    assert_eq!(execute(&verdict, failed.note(Action::DeleteRemote, true), false), None);
    // When all goes well, the state file goes last.
    let mut done = progress;
    for action in [Action::RemoveWorktree, Action::DeleteLocal, Action::DeleteRemote, Action::DeleteState] {
        assert_eq!(execute(&verdict, done, false), Some(Order::CarryOut(action)));
        done = done.note(action, true);
    }
    assert_eq!(execute(&verdict, done, false), None);
    assert!(!is_quiet(&verdict));
    assert!(is_quiet(&Verdict::default()));
}

#[test]
fn a_dry_run_only_describes() {
    let verdict = Verdict {
        remove_worktree: true,
        delete_local: true,
        delete_remote: true,
        delete_state: true,
        warnings: Vec::new(),
    };
    let mut progress = Progress::default();
    let mut described = Vec::new();
    while let Some(order) = execute(&verdict, progress, true) {
        match order {
            Order::Describe(action) => {
                described.push(action);
                progress = progress.note(action, true);
            }
            Order::CarryOut(action) => panic!("{action:?} was ordered"),
        }
    }
    assert_eq!(described.len(), 4);
}

#[test]
fn deletions_are_described() {
    assert_eq!(describe(Action::RemoveWorktree, "b", "/wt", 0, true), "would remove worktree `/wt`");
    assert_eq!(describe(Action::DeleteLocal, "b", "/wt", 0, false), "deleted local branch `b`");
    assert_eq!(
        describe(Action::DeleteRemote, "b", "/wt", 0, false),
        "deleted remote branch `origin/b`"
    );
    assert_eq!(
        describe(Action::DeleteState, "b", "/wt", 7, false),
        "removed ghwf state for issue #7"
    );
    assert_eq!(
        describe_failure(Action::DeleteLocal, "b", "/wt", 0),
        "warning: failed to delete local branch `b`"
    );
}

#[test]
fn runs_are_stamped_and_read_back() {
    assert_eq!(last_run_path("/data", "o", "r"), "/data/gc/o/r/last-run");
    assert_eq!(read_last_run(&stamp_last_run(1234)), Some(1234));
    assert_eq!(read_last_run(" 99\n"), Some(99));
    assert_eq!(read_last_run("soon"), None);
}

#[test]
fn periodic_collection_needs_opting_in() {
    let mut config = Config {
        main_repo: None,
        worktrees_dir: "worktrees".to_string(),
        priority_labels: Vec::new(),
        pr_instructions: None,
        labels: None,
        permission_mode: None,
        delete_plan_on_approval: false,
        auto_collect_garbage: false,
        auto_collect_garbage_interval_hours: 24,
        auto_merge_base: false,
        only_assigned_to_me: false,
        blocked_label: "blocked".to_string(),
        issue_repos: Vec::new(),
        allowed_users: Vec::new(),
    };
    assert!(!run_periodic(&config, None, 100));
    config.auto_collect_garbage = true;
    config.auto_collect_garbage_interval_hours = 1;
    assert!(run_periodic(&config, None, 100));
    assert!(!run_periodic(&config, Some(100), 3699));
    assert!(run_periodic(&config, Some(100), 3700));
    // An interval beyond the clock is capped, not wrapped.
    config.auto_collect_garbage_interval_hours = u64::MAX;
    assert!(!run_periodic(&config, Some(0), 1000000));
}

#[test]
fn branches_sort_by_their_own_rule() {
    let prs = [pr(3, "MERGED", true), pr(9, "MERGED", true), pr(4, "MERGED", true)];
    assert_eq!(pick_merged_pr(&prs).unwrap().number, 9);
}

#[test]
fn facts_are_gathered_from_git() {
    let said = |out: &str| Ran::Exited {
        code: Some(0),
        stdout: Some(out.to_string()),
        stdout_empty: out.is_empty(),
        stderr: String::new(),
    };
    let failed = || Ran::Exited {
        code: Some(1),
        stdout: Some(String::new()),
        stdout_empty: true,
        stderr: "gone".to_string(),
    };
    let repo = |args: Vec<String>| match args[2].as_str() {
        "rev-parse" if args[5] == "refs/heads/b" => said("tip\n"),
        "rev-parse" => failed(),
        "worktree" => said("worktree /wt\nHEAD tip\nbranch refs/heads/b\n"),
        "status" if args.len() == 5 => said(""),
        "status" => said("?? notes\n"),
        other => panic!("unexpected git {other}"),
    };
    let places = |path: String| (path == "/main", path == "/wt");
    let facts = gather(&mut Recorded::new(&repo), &places, "/main", "b").ok().unwrap();
    assert_eq!(facts.local_tip.as_deref(), Some("tip"));
    assert_eq!(facts.remote_tip, None);
    let worktree = facts.worktree.unwrap();
    assert_eq!(worktree.path, "/wt");
    assert_eq!(worktree.status, TreeStatus::UntrackedOnly);
    assert!(!worktree.is_main);
    assert!(worktree.contains_cwd);
    // A branch that is only remote is checked out nowhere.
    let facts = gather(&mut Recorded::new(&repo), &|_| (false, false), "/main", "other").ok().unwrap();
    assert!(facts.local_tip.is_none());
    assert!(facts.worktree.is_none());
    // What git cannot tell is an error.
    let broken = |args: Vec<String>| if args[2] == "worktree" { failed() } else { said("tip\n") };
    assert_eq!(
        gather(&mut Recorded::new(&broken), &|_| (false, false), "/main", "b").err().unwrap(),
        "`git worktree list --porcelain` failed:\ngone"
    );
}

#[test]
fn a_merge_has_landed_once_the_remote_default_branch_holds_it() {
    let said = |code: i32| Ran::Exited {
        code: Some(code),
        stdout: Some(String::new()),
        stdout_empty: true,
        stderr: String::new(),
    };
    let asks = |args: Vec<String>| {
        let expected =
            ["-C", "/repo", "merge-base", "--is-ancestor", "ccc333", "refs/remotes/origin/main"];
        assert_eq!(args, expected);
        said(0)
    };
    assert!(merge_landed(&mut Recorded::new(&asks), "/repo", &pr(1, "MERGED", true), "main"));
    let not_yet = |_args: Vec<String>| said(1);
    assert!(!merge_landed(&mut Recorded::new(&not_yet), "/repo", &pr(1, "MERGED", true), "main"));
    // Without a merge commit nothing is asked.
    let never = |_args: Vec<String>| -> Ran { panic!("no command is expected") };
    assert!(!merge_landed(&mut Recorded::new(&never), "/repo", &pr(1, "CLOSED", false), "main"));
}
