use ghwf::github::{
    issue_endpoint, parse_issue_url, parse_owner_repo, parse_remote_url, url_of_issue, url_of_pr,
    EndpointError,
};
use ghwf::posting::{assemble_labels, create_issue, guard_label, BlockerSource};
use ghwf::target::{
    choose_issue_arg, ensure_target_matches_bound, format_target_line, qualify_bare_number,
};

#[test]
fn bare_number_anchors_to_the_bound_issue_repo() {
    // The session is bound to repo A; a bare number must resolve there, not
    // against whatever repo the cwd happens to be a checkout of.
    let bound = "https://github.com/owner-a/repo-a/issues/100";
    assert_eq!(
        qualify_bare_number("42", Some(bound)).as_deref(),
        Some("https://github.com/owner-a/repo-a/issues/42")
    );
}

#[test]
fn bare_number_without_a_bound_issue_is_left_alone() {
    // No bound issue: fall back to today's behaviour (config repo, then cwd).
    assert_eq!(qualify_bare_number("42", None), None);
}

#[test]
fn explicit_url_argument_is_never_rewritten() {
    // A URL is unambiguous and must override the bound issue's repo.
    let bound = "https://github.com/owner-a/repo-a/issues/100";
    assert_eq!(
        qualify_bare_number("https://github.com/owner-b/repo-b/issues/42", Some(bound)),
        None
    );
}

#[test]
fn unparseable_bound_value_falls_back_to_passthrough() {
    // A bound value we can't read an owner/repo from must not crash the
    // command — leave the argument as the caller gave it.
    assert_eq!(qualify_bare_number("42", Some("not-a-url")), None);
}

#[test]
fn parse_issue_url_reads_owner_repo_and_number() {
    // Both the issue and PR URL shapes yield all three parts…
    assert_eq!(
        parse_issue_url("https://github.com/owner-a/repo-a/issues/100"),
        Some(("owner-a".to_string(), "repo-a".to_string(), 100))
    );
    assert_eq!(
        parse_issue_url("https://github.com/owner-a/repo-a/pull/7"),
        Some(("owner-a".to_string(), "repo-a".to_string(), 7))
    );
    // …and a value we can't read all three from yields None rather than panicking.
    assert_eq!(parse_issue_url("not-a-url"), None);
}

#[test]
fn target_matching_the_bound_issue_is_allowed() {
    // The resolved workflow issue names the same issue as the bound URL.
    let bound = "https://github.com/owner-a/repo-a/issues/100";
    assert!(ensure_target_matches_bound(Some(("owner-a", "repo-a", 100)), Some(bound)).is_ok());
}

#[test]
fn target_in_a_different_repo_is_refused() {
    // The report's bug: a same-numbered object in another repo must not pass.
    let bound = "https://github.com/owner-a/repo-a/issues/100";
    assert!(
        ensure_target_matches_bound(Some(("owner-b", "repo-b", 100)), Some(bound)).is_err()
    );
}

#[test]
fn target_with_a_different_number_is_refused() {
    // Same repo, wrong issue — a sibling issue is still a misroute.
    let bound = "https://github.com/owner-a/repo-a/issues/100";
    assert!(ensure_target_matches_bound(Some(("owner-a", "repo-a", 42)), Some(bound)).is_err());
}

#[test]
fn target_with_no_recorded_workflow_is_refused() {
    // A bound issue exists but the named thread isn't a tracked workflow
    // (the closed dependabot PR in the report) — refuse.
    let bound = "https://github.com/owner-a/repo-a/issues/100";
    assert!(ensure_target_matches_bound(None, Some(bound)).is_err());
}

#[test]
fn no_bound_issue_skips_validation() {
    // Nothing to compare against (e.g. a standalone, non-session command):
    // any target — even none — is allowed.
    assert!(ensure_target_matches_bound(Some(("owner-b", "repo-b", 7)), None).is_ok());
    assert!(ensure_target_matches_bound(None, None).is_ok());
}

#[test]
fn unparseable_bound_skips_validation() {
    // An unreadable bound value stays lenient, matching qualify_bare_number.
    assert!(
        ensure_target_matches_bound(Some(("owner-b", "repo-b", 7)), Some("not-a-url")).is_ok()
    );
}

#[test]
fn target_line_includes_title_and_state_when_known() {
    assert_eq!(
        format_target_line("owner-a", "repo-a", 100, Some(("Fix the thing", "open"))),
        "→ owner-a/repo-a#100 \"Fix the thing\" (OPEN)"
    );
}

#[test]
fn target_line_degrades_to_identity_without_a_fetch() {
    assert_eq!(
        format_target_line("owner-a", "repo-a", 100, None),
        "→ owner-a/repo-a#100"
    );
}

#[test]
fn assemble_labels_puts_blocked_first_and_dedupes() {
    // Blocked label leads; extras follow; a case-insensitive duplicate of
    // the blocked label and empty entries are dropped.
    assert_eq!(
        assemble_labels(
            Some("blocked"),
            &["foo".into(), "Blocked".into(), "  ".into()]
        ),
        vec!["blocked", "foo"]
    );
    // No blocker: just the (trimmed, de-duplicated) extras.
    assert_eq!(
        assemble_labels(None, &[" foo ".into(), "foo".into()]),
        vec!["foo"]
    );
    // No blocker, no extras: empty.
    assert!(assemble_labels(None, &[]).is_empty());
}

#[test]
fn remotes_of_either_form_are_read() {
    let want = Some(("owner".to_string(), "repo".to_string()));
    assert_eq!(parse_remote_url("https://github.com/owner/repo.git"), want);
    assert_eq!(parse_remote_url("https://github.com/owner/repo"), want);
    assert_eq!(parse_remote_url("git@github.com:owner/repo.git"), want);
    assert_eq!(parse_remote_url("ssh://git@github.com/owner/repo.git"), want);
    assert_eq!(parse_remote_url("/local/path"), None);
    assert_eq!(
        parse_owner_repo("https://github.com/owner/repo/issues/3"),
        want
    );
}

#[test]
fn endpoints_come_from_numbers_and_urls() {
    assert_eq!(
        issue_endpoint("https://github.com/o/r/issues/3").ok().as_deref(),
        Some("repos/o/r/issues/3")
    );
    assert_eq!(issue_endpoint("12").ok().as_deref(), Some("repos/{owner}/{repo}/issues/12"));
    assert_eq!(issue_endpoint("https://github.com/o/r/pull/4"), Err(EndpointError::OtherForm));
    assert_eq!(issue_endpoint("not-a-url"), Err(EndpointError::NotAUrl));
    assert_eq!(issue_endpoint("https://example.com/o/r/issues/3"), Err(EndpointError::OtherHost));
    assert_eq!(issue_endpoint("https://github.com/o/r/wiki/3"), Err(EndpointError::OtherForm));
    assert_eq!(url_of_issue("o", "r", 3), "https://github.com/o/r/issues/3");
    assert_eq!(url_of_pr("o", "r", 3), "https://github.com/o/r/pull/3");
}

#[test]
fn a_given_argument_beats_the_inferred_one() {
    let some = |s: &str| Some(s.to_string());
    assert_eq!(choose_issue_arg(some("1"), some("2")), some("1"));
    assert_eq!(choose_issue_arg(None, some("2")), some("2"));
    assert_eq!(choose_issue_arg(None, None), None);
}

#[test]
fn follow_ups_are_blocked_by_default() {
    assert_eq!(create_issue(" ", false, true, true), None);
    assert_eq!(create_issue("t", true, true, true), Some(BlockerSource::NotWanted));
    assert_eq!(create_issue("t", false, true, true), Some(BlockerSource::Given));
    assert_eq!(create_issue("t", false, false, true), Some(BlockerSource::Inferred));
    assert_eq!(create_issue("t", false, false, false), Some(BlockerSource::Missing));
    assert_eq!(guard_label(true, " blocked "), Some("blocked".to_string()));
    assert_eq!(guard_label(true, " "), None);
    assert_eq!(guard_label(false, "blocked"), None);
}
