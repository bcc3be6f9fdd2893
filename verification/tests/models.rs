use ghwf::models::{
    IssueDependenciesSummary, IssueListing, Reaction, ReviewComment, SubIssuesSummary, User,
};

/// The listing entry in a JSON text, with what is missing defaulted.
fn listing(json: &str) -> IssueListing {
    let v: serde_json::Value = serde_json::from_str(json).unwrap();
    let mut listing = IssueListing {
        number: v["number"].as_u64().unwrap(),
        title: v["title"].as_str().unwrap().to_string(),
        state: v["state"].as_str().unwrap_or("").to_string(),
        assignees: Vec::new(),
        labels: Vec::new(),
        pull_request: v.get("pull_request").is_some(),
        issue_dependencies_summary: IssueDependenciesSummary::default(),
        sub_issues_summary: SubIssuesSummary::default(),
    };
    if let Some(n) = v["issue_dependencies_summary"]["blocked_by"].as_u64() {
        listing.issue_dependencies_summary.blocked_by = n;
    }
    if let Some(n) = v["sub_issues_summary"]["total"].as_u64() {
        listing.sub_issues_summary.total = n;
    }
    listing
}

#[test]
fn listing_without_summaries_reads_as_eligible() {
    // A repo (or GitHub version) without the dependencies/sub-issues
    // features omits both summaries (and `state`); they default such that
    // the issue is open, not blocked, and not a tracking issue.
    let listing = listing(r#"{"number":1,"title":"t"}"#);
    assert!(listing.is_open());
    assert!(!listing.is_blocked());
    assert!(!listing.is_tracking());
}

#[test]
fn blocked_by_open_counts_as_blocked() {
    let listing = listing(
        r#"{"number":1,"title":"t","issue_dependencies_summary":{"blocked_by":1,"total_blocked_by":1}}"#,
    );
    assert!(listing.is_blocked());
}

#[test]
fn closed_only_blockers_are_not_blocked() {
    // Closed blockers live in `total_blocked_by`; `blocked_by` stays 0.
    let listing = listing(
        r#"{"number":1,"title":"t","issue_dependencies_summary":{"blocked_by":0,"total_blocked_by":2}}"#,
    );
    assert!(!listing.is_blocked());
}

#[test]
fn sub_issues_total_marks_a_tracking_issue() {
    let listing =
        listing(r#"{"number":1,"title":"t","sub_issues_summary":{"total":3,"completed":1}}"#);
    assert!(listing.is_tracking());
}

#[test]
fn explicit_closed_state_is_not_open() {
    let listing = listing(r#"{"number":1,"title":"t","state":"closed"}"#);
    assert!(!listing.is_open());
}

fn review_comment(line: Option<u64>, original_line: Option<u64>) -> ReviewComment {
    ReviewComment {
        id: 1,
        user: User { login: "colleague".to_string() },
        body: "body".to_string(),
        created_at: "2026-01-01T00:00:00Z".to_string(),
        updated_at: "2026-01-01T00:00:00Z".to_string(),
        html_url: "https://github.com/o/r/pull/1#discussion_r1".to_string(),
        author_association: "OWNER".to_string(),
        path: "src/main.rs".to_string(),
        line,
        original_line,
    }
}

#[test]
fn location_prefers_current_line() {
    assert_eq!(review_comment(Some(42), Some(7)).location(), "src/main.rs:42");
}

#[test]
fn location_falls_back_to_original_line() {
    assert_eq!(review_comment(None, Some(7)).location(), "src/main.rs:7");
}

#[test]
fn location_falls_back_to_bare_path() {
    assert_eq!(review_comment(None, None).location(), "src/main.rs");
}

#[test]
fn only_plus_one_is_a_thumbs_up() {
    let reaction = |content: &str| Reaction {
        id: 1,
        user: User { login: "u".to_string() },
        content: content.to_string(),
        created_at: "2026-01-01T00:00:00Z".to_string(),
    };
    assert!(reaction("+1").is_thumbs_up());
    assert!(!reaction("heart").is_thumbs_up());
}
