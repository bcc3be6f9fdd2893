use ghwf::access::AccessList;
use ghwf::github::RepoRef;

fn repo() -> RepoRef {
    ("octo".to_string(), "repo".to_string())
}

#[test]
fn authenticated_user_always_accepted() {
    let access = AccessList::new("Me", &[]);
    // Case-insensitive, and regardless of association.
    assert!(access.accepts_comment("me", "NONE"));
    assert!(access.accepts_reaction(&repo(), "ME"));
}

#[test]
fn allowed_users_accepted_case_insensitively() {
    let access = AccessList::new("me", &["OctoCat".to_string()]);
    assert!(access.accepts_comment("octocat", "NONE"));
    assert!(access.accepts_reaction(&repo(), "OCTOCAT"));
    assert!(!access.accepts_comment("stranger", "NONE"));
}

#[test]
fn collaborator_associations_accepted_for_comments() {
    let access = AccessList::new("me", &[]);
    for assoc in ["OWNER", "MEMBER", "COLLABORATOR"] {
        assert!(access.accepts_comment("someone", assoc), "{assoc}");
    }
    for assoc in ["CONTRIBUTOR", "FIRST_TIME_CONTRIBUTOR", "NONE", ""] {
        assert!(!access.accepts_comment("someone", assoc), "{assoc}");
    }
}

#[test]
fn issues_accept_operator_allowed_and_collaborator_authors() {
    let access = AccessList::new("me", &["friend".to_string()]);
    // Operator and allow-listed authors, regardless of association.
    assert!(access.accepts_issue("me", "NONE"));
    assert!(access.accepts_issue("Friend", "NONE"));
    // Collaborator associations are accepted with no list fetch.
    for assoc in ["OWNER", "MEMBER", "COLLABORATOR"] {
        assert!(access.accepts_issue("someone", assoc), "{assoc}");
    }
    // A stranger with no qualifying association is rejected.
    for assoc in ["CONTRIBUTOR", "FIRST_TIME_CONTRIBUTOR", "NONE", ""] {
        assert!(!access.accepts_issue("stranger", assoc), "{assoc}");
    }
}

#[test]
fn reactions_need_the_collaborator_set() {
    let mut access = AccessList::new("me", &[]);
    // Without the set fetched, a stranger's 👍 is rejected.
    assert!(!access.accepts_reaction(&repo(), "collab"));
    assert!(access.reaction_needs_collaborators("collab"));
    assert!(!access.has_collaborators(&repo()));
    // Hand in a collaborator set (stands in for the API fetch).
    access.ensure_collaborators(&repo(), &["collab".to_string()]);
    assert!(access.has_collaborators(&repo()));
    assert!(access.accepts_reaction(&repo(), "Collab"));
    assert!(!access.accepts_reaction(&repo(), "stranger"));
}

#[test]
fn self_and_allowed_skip_the_collaborator_lookup() {
    let access = AccessList::new("me", &["friend".to_string()]);
    assert!(!access.reaction_needs_collaborators("me"));
    assert!(!access.reaction_needs_collaborators("Friend"));
    assert!(access.reaction_needs_collaborators("stranger"));
}

#[test]
fn collaborators_count_for_their_own_repo_only() {
    let mut access = AccessList::new("me", &[]);
    access.ensure_collaborators(&repo(), &["Collab".to_string()]);
    let other = ("octo".to_string(), "other".to_string());
    assert!(!access.accepts_reaction(&other, "collab"));
    assert!(access.accepts_reaction_any("collab"));
    assert!(!access.accepts_reaction_any("stranger"));
    // A set that was fetched is kept.
    access.ensure_collaborators(&repo(), &[]);
    assert!(access.accepts_reaction(&repo(), "collab"));
}

#[test]
fn an_unknown_operator_is_an_error() {
    assert!(matches!(AccessList::resolve(Err("no login".to_string()), &[]), Err(e) if e == "no login"));
    let access = AccessList::resolve(Ok("Me".to_string()), &[]).ok().unwrap();
    assert!(access.accepts_comment("ME", "NONE"));
}
