use ghwf::access::AccessList;
use ghwf::models::{IssueDependenciesSummary, IssueListing, Label, SubIssuesSummary, User};
use ghwf::next::{
    self, after_conclusion, announce_pick, auto_pickable, is_underway, issue_status, nothing_eligible,
    resolve_workable, rest, run_forever, stop_reaches, timed_out, wait_for_pick,
    waiting_line, was_replaced, AfterPoll, IssueStatus, Listed, Listing, Next, Poll, Recorded, Resolution, Round,
    Selection, BACKOFF_CAP, BACKOFF_FLOOR, MAX_CONSECUTIVE_FAILURES,
};
use ghwf::record;
use ghwf::state::{IssueState, PrOutcome};
use ghwf::store::bytes_hash;
use std::cell::RefCell;
use std::collections::BTreeSet;

/// An open issue with the given assignees and labels, not blocked and not a
/// tracking issue.
fn issue(number: u64, assignees: &[&str], labels: &[&str]) -> IssueListing {
    IssueListing {
        number,
        title: format!("issue {number}"),
        state: String::new(),
        assignees: assignees
            .iter()
            .map(|login| User {
                login: login.to_string(),
            })
            .collect(),
        labels: labels
            .iter()
            .map(|name| Label {
                name: name.to_string(),
            })
            .collect(),
        pull_request: false,
        issue_dependencies_summary: IssueDependenciesSummary::default(),
        sub_issues_summary: SubIssuesSummary::default(),
    }
}

/// A PR entry, as the issues listing reports one.
fn pr(number: u64) -> IssueListing {
    IssueListing {
        pull_request: true,
        ..issue(number, &[], &[])
    }
}

/// An issue blocked by `n` open issues.
fn blocked(number: u64, n: u64) -> IssueListing {
    IssueListing {
        issue_dependencies_summary: IssueDependenciesSummary { blocked_by: n },
        ..issue(number, &[], &[])
    }
}

/// A tracking issue: one carrying `n` sub-issues.
fn tracking(number: u64, n: u64) -> IssueListing {
    IssueListing {
        sub_issues_summary: SubIssuesSummary { total: n },
        ..issue(number, &[], &[])
    }
}

/// Set a non-open state on an issue (sub-issue children can be closed).
fn closed(mut issue: IssueListing) -> IssueListing {
    issue.state = "closed".to_string();
    issue
}

fn labels(names: &[&str]) -> Vec<String> {
    names.iter().map(|n| n.to_string()).collect()
}

/// Run `select`, asking `excluded` and `status` about each issue.
fn select<'a>(
    issues: &'a [IssueListing],
    me: &str,
    priority_labels: &[String],
    only_assigned_to_me: bool,
    excluded: impl Fn(u64) -> bool,
    status: impl Fn(u64) -> IssueStatus,
) -> Selection<'a> {
    let numbers = issues.iter().map(|i| i.number);
    let out: BTreeSet<u64> = numbers.clone().filter(|n| excluded(*n)).collect();
    let statuses: Vec<IssueStatus> = numbers.map(status).collect();
    next::select(issues, me, priority_labels, only_assigned_to_me, &out, &statuses)
}

/// Run `pick_workable_leaf`, listing children with `list`.
fn pick_workable_leaf(
    parent: u64,
    children: Vec<IssueListing>,
    me: &str,
    priority_labels: &[String],
    list: impl Fn(u64) -> Result<Vec<IssueListing>, String>,
    started: impl Fn(u64) -> bool,
) -> Result<u64, String> {
    let listings = &mut record::Recorded::new(&list);
    next::pick_workable_leaf(parent, children, me, priority_labels, listings, &started)
}

/// Run `claim_pick`, asking `excluded` about each issue.
fn claim_pick<'a>(
    issues: &'a [IssueListing],
    me: &str,
    priority_labels: &[String],
    only_assigned_to_me: bool,
    excluded: impl Fn(u64) -> bool,
    status: impl Fn(u64) -> IssueStatus,
    claim: impl Fn(u64) -> Result<bool, String>,
) -> Result<Selection<'a>, String> {
    let out: BTreeSet<u64> = issues.iter().map(|i| i.number).filter(|n| excluded(*n)).collect();
    let claims = &mut record::Recorded::new(&claim);
    next::claim_pick(issues, me, priority_labels, only_assigned_to_me, &out, &status, claims)
}

/// Run `select` with every issue fresh and nothing excluded.
fn pick<'a>(issues: &'a [IssueListing], me: &str, priority_labels: &[String]) -> Selection<'a> {
    select(
        issues,
        me,
        priority_labels,
        false,
        |_| false,
        |_| IssueStatus::Fresh,
    )
}

#[test]
fn assignment_beats_labels() {
    let issues = [issue(1, &[], &["urgent"]), issue(2, &["me"], &[])];
    let picked = pick(&issues, "me", &labels(&["urgent"])).picked.unwrap();
    assert_eq!(picked.number, 2);
}

#[test]
fn earlier_label_beats_later() {
    let issues = [issue(1, &[], &["soon"]), issue(2, &[], &["urgent"])];
    let picked = pick(&issues, "me", &labels(&["urgent", "soon"]))
        .picked
        .unwrap();
    assert_eq!(picked.number, 2);
}

#[test]
fn any_priority_label_beats_none() {
    let issues = [issue(1, &[], &[]), issue(2, &[], &["soon"])];
    let picked = pick(&issues, "me", &labels(&["urgent", "soon"]))
        .picked
        .unwrap();
    assert_eq!(picked.number, 2);
}

#[test]
fn best_label_counts() {
    // An issue's smallest-index label is what ranks it.
    let issues = [issue(1, &[], &["soon"]), issue(2, &[], &["soon", "urgent"])];
    let picked = pick(&issues, "me", &labels(&["urgent", "soon"]))
        .picked
        .unwrap();
    assert_eq!(picked.number, 2);
}

#[test]
fn labels_rank_within_assigned_group_too() {
    let issues = [issue(1, &["me"], &[]), issue(2, &["me"], &["urgent"])];
    let picked = pick(&issues, "me", &labels(&["urgent"])).picked.unwrap();
    assert_eq!(picked.number, 2);
}

#[test]
fn number_breaks_ties() {
    let issues = [issue(7, &[], &[]), issue(3, &[], &[]), issue(5, &[], &[])];
    let picked = pick(&issues, "me", &[]).picked.unwrap();
    assert_eq!(picked.number, 3);
}

#[test]
fn assigned_to_someone_else_is_excluded() {
    // Even a top-priority label doesn't make someone else's issue mine.
    let issues = [issue(1, &["other"], &["urgent"]), issue(2, &[], &[])];
    let picked = pick(&issues, "me", &labels(&["urgent"])).picked.unwrap();
    assert_eq!(picked.number, 2);
}

#[test]
fn co_assignment_counts_as_mine() {
    let issues = [issue(1, &["other", "me"], &[]), issue(2, &[], &[])];
    let picked = pick(&issues, "me", &[]).picked.unwrap();
    assert_eq!(picked.number, 1);
}

#[test]
fn login_compares_case_insensitively() {
    let issues = [issue(1, &["Me"], &[]), issue(2, &[], &[])];
    let picked = pick(&issues, "me", &[]).picked.unwrap();
    assert_eq!(picked.number, 1);
}

#[test]
fn only_assigned_to_me_excludes_unassigned() {
    // With the option on, an unassigned issue is ignored even when it would
    // otherwise outrank the assigned one; the assigned-to-me issue wins.
    let issues = [issue(1, &[], &["urgent"]), issue(2, &["me"], &[])];
    let selection = select(
        &issues,
        "me",
        &labels(&["urgent"]),
        true,
        |_| false,
        |_| IssueStatus::Fresh,
    );
    assert_eq!(selection.picked.unwrap().number, 2);
}

#[test]
fn only_assigned_to_me_drops_unassigned_silently() {
    // An unassigned-only pool yields nothing, and the dropped issue isn't
    // reported as a skip (it's not noteworthy when the option is on).
    let issues = [issue(1, &[], &["urgent"])];
    let selection = select(
        &issues,
        "me",
        &labels(&["urgent"]),
        true,
        |_| false,
        |_| IssueStatus::Fresh,
    );
    assert!(selection.picked.is_none());
    assert!(selection.skipped_live.is_empty());
    assert!(selection.skipped_blocked.is_empty());
    assert!(selection.skipped_tracking.is_empty());
}

#[test]
fn unassigned_eligible_when_option_off() {
    // Guard the default: with the option off, an unassigned issue is still
    // picked (today's behaviour) rather than being filtered out.
    let issues = [issue(1, &[], &[])];
    let selection = select(&issues, "me", &[], false, |_| false, |_| IssueStatus::Fresh);
    assert_eq!(selection.picked.unwrap().number, 1);
}

#[test]
fn prs_are_excluded() {
    let issues = [pr(1), issue(2, &[], &[])];
    let picked = pick(&issues, "me", &[]).picked.unwrap();
    assert_eq!(picked.number, 2);
}

#[test]
fn live_issues_are_skipped_and_reported() {
    let issues = [
        issue(1, &["me"], &[]),
        // Excluded outright, so not reported as skipped.
        issue(2, &["other"], &[]),
        issue(3, &[], &[]),
    ];
    let selection = select(
        &issues,
        "me",
        &[],
        false,
        |_| false,
        |n| {
            if n == 1 {
                IssueStatus::Live
            } else {
                IssueStatus::Fresh
            }
        },
    );
    assert_eq!(selection.picked.unwrap().number, 3);
    assert_eq!(selection.skipped_live, [1]);
}

#[test]
fn resumable_issue_is_selected_as_a_resume() {
    // A resumable issue (work underway, no live session) is a candidate, and
    // a winning resumable pick is flagged so it's announced as a resume.
    let issues = [issue(1, &[], &[])];
    let selection = select(
        &issues,
        "me",
        &[],
        false,
        |_| false,
        |_| IssueStatus::Resumable,
    );
    assert_eq!(selection.picked.unwrap().number, 1);
    assert_eq!(selection.picked_status, Some(IssueStatus::Resumable));
}

#[test]
fn resumable_issue_is_workable_even_when_blocked() {
    // A resumable issue is resumed regardless of a block — its work is
    // already underway — unlike a fresh one, which a block would skip.
    let issues = [blocked(1, 1)];
    let selection = select(
        &issues,
        "me",
        &[],
        false,
        |_| false,
        |_| IssueStatus::Resumable,
    );
    assert_eq!(selection.picked.unwrap().number, 1);
    assert!(selection.skipped_blocked.is_empty());
}

#[test]
fn done_issue_is_skipped_silently() {
    // A concluded issue is neither picked nor reported in any skip bucket.
    let issues = [issue(1, &[], &[])];
    let selection = select(&issues, "me", &[], false, |_| false, |_| IssueStatus::Done);
    assert!(selection.picked.is_none());
    assert!(selection.skipped_live.is_empty());
    assert!(selection.skipped_blocked.is_empty());
    assert!(selection.skipped_tracking.is_empty());
}

#[test]
fn no_priority_labels_degrades_to_assigned_then_number() {
    let issues = [
        issue(1, &[], &["urgent"]),
        issue(2, &[], &[]),
        issue(3, &["me"], &[]),
    ];
    let selection = pick(&issues, "me", &[]);
    assert_eq!(selection.picked.unwrap().number, 3);
}

#[test]
fn empty_pool_picks_nothing() {
    let issues = [pr(1), issue(2, &["other"], &[])];
    let selection = pick(&issues, "me", &[]);
    assert!(selection.picked.is_none());
    assert!(selection.skipped_live.is_empty());
}

/// Run `claim_pick` with every issue fresh, claiming the numbers in `won`
/// and losing every other. Records the claim attempts in order.
fn claim_with<'a>(
    issues: &'a [IssueListing],
    won: &[u64],
    attempts: &RefCell<Vec<u64>>,
) -> Selection<'a> {
    let won: BTreeSet<u64> = won.iter().copied().collect();
    claim_pick(
        issues,
        "me",
        &[],
        false,
        |_| false,
        |_| IssueStatus::Fresh,
        |n| {
            attempts.borrow_mut().push(n);
            Ok(won.contains(&n))
        },
    )
    .unwrap()
}

#[test]
fn claim_pick_returns_the_first_claimable() {
    let issues = [issue(3, &[], &[]), issue(5, &[], &[])];
    let attempts = RefCell::new(Vec::new());
    // #3 sorts first and is claimed on the first try.
    let selection = claim_with(&issues, &[3, 5], &attempts);
    assert_eq!(selection.picked.unwrap().number, 3);
    assert_eq!(*attempts.borrow(), [3]);
}

#[test]
fn claim_pick_falls_through_lost_races() {
    let issues = [issue(3, &[], &[]), issue(5, &[], &[])];
    let attempts = RefCell::new(Vec::new());
    // #3 is lost to another worker, so the next candidate is claimed.
    let selection = claim_with(&issues, &[5], &attempts);
    assert_eq!(selection.picked.unwrap().number, 5);
    assert_eq!(*attempts.borrow(), [3, 5]);
}

#[test]
fn claim_pick_none_when_every_candidate_lost() {
    let issues = [issue(3, &[], &[]), issue(5, &[], &[])];
    let attempts = RefCell::new(Vec::new());
    let selection = claim_with(&issues, &[], &attempts);
    assert!(selection.picked.is_none());
    // Every candidate was tried exactly once.
    assert_eq!(*attempts.borrow(), [3, 5]);
}

#[test]
fn claim_pick_does_not_claim_a_resumable_pick() {
    // A resumable winner is returned without claiming — its single-flight is
    // the launcher's lease, not the state-file claim.
    let issues = [issue(3, &[], &[])];
    let attempts = RefCell::new(Vec::new());
    let selection = claim_pick(
        &issues,
        "me",
        &[],
        false,
        |_| false,
        |_| IssueStatus::Resumable,
        |n| {
            attempts.borrow_mut().push(n);
            Ok(true)
        },
    )
    .unwrap();
    assert_eq!(selection.picked.unwrap().number, 3);
    assert!(attempts.borrow().is_empty());
}

#[test]
fn claim_pick_skips_caller_excluded_issues() {
    // #3 sorts first but the caller has given up on it this run, so #5 is
    // claimed instead and #3 is never attempted.
    let issues = [issue(3, &[], &[]), issue(5, &[], &[])];
    let attempts = RefCell::new(Vec::new());
    let selection = claim_pick(
        &issues,
        "me",
        &[],
        false,
        |n| n == 3,
        |_| IssueStatus::Fresh,
        |n| {
            attempts.borrow_mut().push(n);
            Ok(true)
        },
    )
    .unwrap();
    assert_eq!(selection.picked.unwrap().number, 5);
    assert_eq!(*attempts.borrow(), [5]);
}

#[test]
fn blocked_issue_is_skipped_and_reported() {
    // #1 would sort first but is blocked, so #2 wins.
    let issues = [blocked(1, 1), issue(2, &[], &[])];
    let selection = pick(&issues, "me", &[]);
    assert_eq!(selection.picked.unwrap().number, 2);
    assert_eq!(selection.skipped_blocked, [1]);
}

#[test]
fn tracking_issue_is_skipped_and_reported() {
    let issues = [tracking(1, 2), issue(2, &[], &[])];
    let selection = pick(&issues, "me", &[]);
    assert_eq!(selection.picked.unwrap().number, 2);
    assert_eq!(selection.skipped_tracking, [1]);
}

#[test]
fn closed_only_blockers_stay_pickable() {
    // `blocked_by` counts open blockers; closed-only blockers leave it at 0,
    // so the issue is not currently blocked.
    let issues = [blocked(1, 0)];
    let selection = pick(&issues, "me", &[]);
    assert_eq!(selection.picked.unwrap().number, 1);
    assert!(selection.skipped_blocked.is_empty());
}

#[test]
fn live_takes_precedence_over_blocked_and_tracking() {
    // An issue that is live, blocked, and tracking is reported as live only.
    let mut both = blocked(1, 1);
    both.sub_issues_summary = SubIssuesSummary { total: 2 };
    let issues = [both, issue(2, &[], &[])];
    let selection = select(
        &issues,
        "me",
        &[],
        false,
        |_| false,
        |n| {
            if n == 1 {
                IssueStatus::Live
            } else {
                IssueStatus::Fresh
            }
        },
    );
    assert_eq!(selection.picked.unwrap().number, 2);
    assert_eq!(selection.skipped_live, [1]);
    assert!(selection.skipped_blocked.is_empty());
    assert!(selection.skipped_tracking.is_empty());
}

#[test]
fn blocked_takes_precedence_over_tracking() {
    let mut both = blocked(1, 1);
    both.sub_issues_summary = SubIssuesSummary { total: 2 };
    let issues = [both];
    let selection = select(&issues, "me", &[], false, |_| false, |_| IssueStatus::Fresh);
    assert_eq!(selection.skipped_blocked, [1]);
    assert!(selection.skipped_tracking.is_empty());
}

/// `list_children` that returns nothing — for leaf-only child sets.
fn no_children(_: u64) -> Result<Vec<IssueListing>, String> {
    Ok(Vec::new())
}

#[test]
fn redirect_picks_best_ordered_child() {
    // Two leaf children; the lower number wins.
    let children = vec![issue(5, &[], &[]), issue(3, &[], &[])];
    let n = pick_workable_leaf(1, children, "me", &[], &no_children, &|_| false).unwrap();
    assert_eq!(n, 3);
}

#[test]
fn redirect_recurses_through_tracking_child() {
    // #1 → tracking child #2 → leaf grandchild #7.
    let top = vec![tracking(2, 1)];
    let list = |n: u64| {
        if n == 2 {
            Ok(vec![issue(7, &[], &[])])
        } else {
            Ok(Vec::new())
        }
    };
    let n = pick_workable_leaf(1, top, "me", &[], &list, &|_| false).unwrap();
    assert_eq!(n, 7);
}

#[test]
fn redirect_prefers_a_started_child() {
    // #3 sorts first, but #5 is already started, so it is resumed.
    let children = vec![issue(3, &[], &[]), issue(5, &[], &[])];
    let n = pick_workable_leaf(1, children, "me", &[], &no_children, &|x| x == 5).unwrap();
    assert_eq!(n, 5);
}

#[test]
fn redirect_resumes_a_started_child_even_if_blocked() {
    // A started leaf is resumed regardless of its block — work is underway.
    let children = vec![blocked(3, 1)];
    let n = pick_workable_leaf(1, children, "me", &[], &no_children, &|x| x == 3).unwrap();
    assert_eq!(n, 3);
}

#[test]
fn redirect_skips_blocked_fresh_children() {
    let children = vec![blocked(3, 1), issue(5, &[], &[])];
    let n = pick_workable_leaf(1, children, "me", &[], &no_children, &|_| false).unwrap();
    assert_eq!(n, 5);
}

#[test]
fn redirect_ignores_closed_children() {
    // #3 is blocked and #5 is closed, so nothing is workable.
    let children = vec![blocked(3, 1), closed(issue(5, &[], &[]))];
    let result = pick_workable_leaf(1, children, "me", &[], &no_children, &|_| false);
    assert!(result.is_err());
}

#[test]
fn redirect_errors_when_no_descendant_is_workable() {
    let children = vec![blocked(3, 1), blocked(4, 2)];
    let result = pick_workable_leaf(1, children, "me", &[], &no_children, &|_| false);
    assert!(result.is_err());
}

#[test]
fn recorded_issues_have_a_status() {
    let mut state = IssueState::default();
    assert_eq!(issue_status(Recorded::Nothing, true), IssueStatus::Fresh);
    assert_eq!(issue_status(Recorded::State(&state), true), IssueStatus::Live);
    assert_eq!(issue_status(Recorded::State(&state), false), IssueStatus::Resumable);
    assert_eq!(issue_status(Recorded::Unreadable, false), IssueStatus::Live);
    state.pr_outcome = Some(PrOutcome::Merged);
    assert_eq!(issue_status(Recorded::State(&state), true), IssueStatus::Done);
    assert!(is_underway(IssueStatus::Live));
    assert!(is_underway(IssueStatus::Resumable));
    assert!(!is_underway(IssueStatus::Fresh));
    assert!(!is_underway(IssueStatus::Done));
}

#[test]
fn announcements_name_the_pick_and_every_skip() {
    let issues = [
        blocked(1, 1),
        tracking(2, 3),
        issue(3, &["me"], &["urgent"]),
        issue(4, &[], &[]),
    ];
    let status = |n: u64| if n == 4 { IssueStatus::Live } else { IssueStatus::Fresh };
    let selection = select(&issues, "me", &labels(&["urgent"]), false, |_| false, status);
    assert_eq!(
        announce_pick(&selection, "me", &labels(&["urgent"])),
        "Skipping #4 — a session is currently running it.\n\
         Skipping #1 — blocked by an open issue.\n\
         Skipping #2 — a tracking issue (has sub-issues); \
         work a sub-issue with `ghwf work-on 2` or `ghwf work-on <sub>`.\n\
         Picked #3 \"issue 3\" — assigned to me, priority label `urgent`."
    );
    let selection = pick(&issues[3..], "me", &[]);
    assert_eq!(
        announce_pick(&selection, "me", &[]),
        "Picked #4 \"issue 4\" — the earliest eligible open issue."
    );
    let selection = select(&issues[3..], "me", &[], false, |_| false, |_| IssueStatus::Resumable);
    assert!(announce_pick(&selection, "me", &[]).starts_with("Resuming #4"));
}

#[test]
fn a_failed_claim_ends_the_pick() {
    let issues = [issue(3, &[], &[])];
    let result = claim_pick(
        &issues,
        "me",
        &[],
        false,
        |_| false,
        |_| IssueStatus::Fresh,
        |_| Err("disk full".to_string()),
    );
    assert_eq!(result.err().as_deref(), Some("disk full"));
}

/// An issue as listed, opened by `author`.
fn by(author: &str, issue: IssueListing) -> Listed {
    Listed { issue, author: author.to_string(), association: "NONE".to_string() }
}

/// Pick from a listing, with every issue fresh and every claim won.
fn pick_listed(listed: Vec<Listed>) -> next::Picked {
    let access = AccessList::new("me", &[]);
    let claims = &mut record::Recorded::new(|_: u64| Ok(true));
    next::pick(listed, &access, "me", &[], false, &|_| IssueStatus::Fresh, claims).unwrap()
}

#[test]
fn an_issue_of_a_stranger_is_not_picked() {
    let listed = vec![by("stranger", issue(1, &[], &[])), by("me", issue(2, &[], &[]))];
    assert_eq!(pick_listed(listed).pick.unwrap().number, 2);
    assert!(pick_listed(vec![by("stranger", issue(1, &[], &[]))]).pick.is_none());
}

#[test]
fn picks_say_whether_to_assign() {
    let picked = pick_listed(vec![by("me", issue(3, &[], &[]))]);
    let pick = picked.pick.unwrap();
    assert_eq!(pick.number, 3);
    assert!(pick.assign);
    let picked = pick_listed(vec![by("me", issue(4, &["me"], &[]))]);
    assert!(!picked.pick.unwrap().assign);
}

#[test]
fn sub_issues_redirect_and_failed_listings_do_not() {
    assert!(matches!(resolve_workable(7, Ok(Vec::new())), Resolution::Issue(7)));
    assert!(matches!(resolve_workable(7, Err("x".to_string())), Resolution::Issue(7)));
    match resolve_workable(7, Ok(vec![issue(8, &[], &[])])) {
        Resolution::Below(children) => assert_eq!(children[0].number, 8),
        Resolution::Issue(_) => panic!("expected the sub-issues"),
    }
}

#[test]
fn cycles_among_sub_issues_end() {
    // #2 and #4 list each other.
    let asked = RefCell::new(Vec::new());
    let list = |n: u64| {
        asked.borrow_mut().push(n);
        Ok(if n == 2 {
            vec![tracking(4, 1), issue(9, &[], &[])]
        } else {
            vec![tracking(2, 1)]
        })
    };
    let n = pick_workable_leaf(1, vec![tracking(2, 2)], "me", &[], &list, &|_| false).unwrap();
    assert_eq!(n, 9);
    // Each is listed once.
    assert_eq!(*asked.borrow(), [2, 4]);
    let failing = |_: u64| Err("offline".to_string());
    let result = pick_workable_leaf(1, vec![tracking(2, 2)], "me", &[], &failing, &|_| false);
    assert_eq!(result, Err("offline".to_string()));
    let result = pick_workable_leaf(1, vec![blocked(2, 2)], "me", &[], &failing, &|_| false);
    assert!(result.unwrap_err().starts_with("#1 is a tracking issue, but none of its sub-issues"));
}

fn poll_once(poll: &mut Poll, listing: Listing) -> AfterPoll {
    let none = BTreeSet::new();
    let fresh = |_: u64| IssueStatus::Fresh;
    let access = AccessList::new("me", &[]);
    let claims = &mut record::Recorded::new(|_: u64| Ok(true));
    wait_for_pick(poll, listing, &access, "me", &[], false, &none, &fresh, claims).unwrap()
}

#[test]
fn polling_backs_off_while_nothing_changes() {
    let mut poll = Poll::default();
    let mut paces = Vec::new();
    for _ in 0..6 {
        match poll_once(&mut poll, Listing::NotModified) {
            AfterPoll::Rest { pace, report } => {
                assert_eq!(report, "");
                paces.push(pace);
            }
            _ => panic!("expected a rest"),
        }
    }
    assert_eq!(paces, [5, 10, 20, 40, 60, 60]);
    assert_eq!(BACKOFF_CAP, 60);
    // A change of the listing starts over.
    match poll_once(&mut poll, Listing::Fresh(vec![by("me", blocked(1, 1))])) {
        AfterPoll::Rest { pace, report } => {
            assert_eq!(pace, BACKOFF_FLOOR);
            assert_eq!(report, "Skipping #1 — blocked by an open issue.\n");
        }
        _ => panic!("expected a rest"),
    }
    match poll_once(&mut poll, Listing::Fresh(vec![by("me", issue(2, &[], &[]))])) {
        AfterPoll::Found(picked) => assert_eq!(picked.pick.unwrap().number, 2),
        _ => panic!("expected a pick"),
    }
}

#[test]
fn polling_gives_up_after_too_many_failures() {
    let mut poll = Poll::default();
    for _ in 1..MAX_CONSECUTIVE_FAILURES {
        assert!(matches!(poll_once(&mut poll, Listing::Failed), AfterPoll::Rest { .. }));
    }
    assert!(matches!(poll_once(&mut poll, Listing::Failed), AfterPoll::GiveUp));
    // An answer in between starts the count over; a rate limit slows down.
    let mut poll = Poll::default();
    poll_once(&mut poll, Listing::Failed);
    poll_once(&mut poll, Listing::NotModified);
    assert_eq!(poll.failures, 0);
    match poll_once(&mut poll, Listing::RateLimited) {
        AfterPoll::Rest { pace, .. } => assert_eq!(pace, BACKOFF_CAP),
        _ => panic!("expected a rest"),
    }
}

#[test]
fn rests_never_outlast_the_deadline() {
    let second: u128 = 1_000_000_000;
    assert_eq!(rest(5, None), Some(5 * second));
    assert_eq!(rest(5, Some(9 * second)), Some(5 * second));
    assert_eq!(rest(5, Some(2 * second)), Some(2 * second));
    assert_eq!(rest(5, Some(0)), None);
}

#[test]
fn waits_are_announced() {
    assert_eq!(
        waiting_line("o", "r", Some(30)),
        "Waiting for an eligible issue to claim in o/r (timeout 30 s)…"
    );
    assert_eq!(waiting_line("o", "r", None), "Waiting for an eligible issue to claim in o/r…");
    assert!(timed_out(30).starts_with("No eligible issue to claim within 30 s."));
    assert!(nothing_eligible("o", "r").starts_with("no eligible open issues in o/r: every"));
}

#[test]
fn forever_stops_only_on_a_quit() {
    let mut skip = BTreeSet::new();
    let after = run_forever(&mut skip, 3, Round::NotStarted);
    assert!(after.again && after.release);
    assert_eq!(after.message, "warning: couldn't start #3, leaving it for the pool");
    assert!(skip.contains(&3));
    let after = run_forever(&mut skip, 4, Round::Completed);
    assert!(after.again && !after.release);
    assert_eq!(after.message, "Issue #4 concluded; looking for the next one.");
    assert!(run_forever(&mut skip, 5, Round::Held).again);
    let after = run_forever(&mut skip, 6, Round::UserQuit);
    assert!(!after.again);
    assert!(after.message.contains("#6 ended before its workflow concluded"));
    assert_eq!(skip.len(), 1);
}

#[test]
fn strangers_issues_are_left_out_of_automatic_picks() {
    let access = AccessList::new("me", &["Friend".to_string()]);
    let listed = |number: u64, author: &str, association: &str| Listed {
        issue: issue(number, &[], &[]),
        author: author.to_string(),
        association: association.to_string(),
    };
    let kept = auto_pickable(
        vec![
            listed(1, "stranger", "NONE"),
            listed(2, "ME", "NONE"),
            listed(3, "drive-by", "CONTRIBUTOR"),
            listed(4, "friend", "NONE"),
            listed(5, "someone", "COLLABORATOR"),
        ],
        &access,
    );
    let numbers: Vec<u64> = kept.iter().map(|issue| issue.number).collect();
    assert_eq!(numbers, vec![2, 4, 5]);
    assert!(auto_pickable(Vec::new(), &access).is_empty());
}

#[test]
fn a_forever_worker_stops_or_relaunches_between_issues() {
    assert_eq!(after_conclusion(false, false), Next::Pick);
    assert_eq!(after_conclusion(false, true), Next::Relaunch);
    assert_eq!(after_conclusion(true, false), Next::Stop);
    // A request to stop takes precedence.
    assert_eq!(after_conclusion(true, true), Next::Stop);
    // A worker that was started after the request ignores it.
    assert!(stop_reaches(Some(7), 5));
    assert!(!stop_reaches(Some(7), 8));
    assert!(!stop_reaches(None, 0));
    let (old, new) = (bytes_hash(b"one"), bytes_hash(b"two"));
    assert!(was_replaced(Some(&old), Some(&new)));
    assert!(!was_replaced(Some(&old), Some(&bytes_hash(b"one"))));
    assert!(!was_replaced(None, Some(&new)));
    assert!(!was_replaced(Some(&old), None));
}

#[test]
fn a_program_is_known_by_the_sha256_of_its_file() {
    assert_eq!(
        bytes_hash(b"abc"),
        "ba7816bf8f01cfea414140de5dae2223b00361a396177a9cb410ff61f20015ad"
    );
}
