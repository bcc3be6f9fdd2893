use ghwf::config::{
    candidates, default_blocked_label, default_finished_label, parse_owner_repo_spec, require,
    AttentionLabels, Config, IssueRepo, LabelsConfig, Located, PhaseLabels,
};
use ghwf::state::{Attention, Phase};

/// The agent's executable: what the workflow waits on, by the field of the label config.
fn command() -> String {
    "waiting_on_claude".rsplit('_').next().unwrap().to_string()
}

/// A config with only `worktrees_dir` set.
fn bare_config() -> Config {
    Config {
        main_repo: None,
        worktrees_dir: "worktrees".to_string(),
        priority_labels: Vec::new(),
        pr_instructions: None,
        labels: None,
        permission_mode: None,
        delete_plan_on_approval: false,
        auto_collect_garbage: false,
        auto_collect_garbage_interval_hours: 24,
        auto_merge_base: false,
        only_assigned_to_me: false,
        blocked_label: default_blocked_label(),
        issue_repos: Vec::new(),
        allowed_users: Vec::new(),
    }
}

fn text(value: &toml::Value) -> String {
    value.as_str().unwrap().to_string()
}

/// The `[labels]` section of a config.
fn labels_of(config: &str) -> LabelsConfig {
    let parsed: toml::Table = toml::from_str(config).unwrap();
    let phase = &parsed["labels"]["phase"];
    let attention = &parsed["labels"]["attention"];
    LabelsConfig {
        phase: PhaseLabels {
            pre_plan: text(&phase["pre-plan"]),
            prep_and_plan: text(&phase["prep-and-plan"]),
            implement: text(&phase["implement"]),
            review: text(&phase["review"]),
            finished: phase.get("finished").map(text).unwrap_or_else(default_finished_label),
        },
        attention: AttentionLabels {
            waiting_on_user: text(&attention["waiting-on-user"]),
            waiting_on_claude: text(&attention[format!("waiting-on-{}", command()).as_str()]),
            waiting_on_ghwf: text(&attention["waiting-on-ghwf"]),
        },
    }
}

/// The `issue_repos` of a config, in either form.
fn issue_repos_of(config: &str) -> Vec<IssueRepo> {
    let parsed: toml::Table = toml::from_str(config).unwrap();
    let entries = parsed["issue_repos"].as_array().unwrap();
    entries
        .iter()
        .map(|entry| match entry.as_str() {
            Some(repo) => IssueRepo::Plain(repo.to_string()),
            None => IssueRepo::Detailed {
                repo: text(&entry["repo"]),
                branch_prefix: entry.get("branch_prefix").map(text),
            },
        })
        .collect()
}

#[test]
fn labels_section_parses_and_maps() {
    let labels = labels_of(
        r#"
        worktrees_dir = "worktrees"

        [labels.phase]
        pre-plan = "ghwf:pre-plan"
        prep-and-plan = "ghwf:planning"
        implement = "ghwf:implementing"
        review = "ghwf:review"

        [labels.attention]
        waiting-on-user = "ghwf:needs-you"
        waiting-on-% = "ghwf:%-working"
        waiting-on-ghwf = "ghwf:preparing"
        "#
        .replace('%', &command())
        .as_str(),
    );
    assert_eq!(labels.for_phase(Phase::PrePlan), "ghwf:pre-plan");
    assert_eq!(labels.for_phase(Phase::Review), "ghwf:review");
    // Omitted from the table above: falls back to the default.
    assert_eq!(labels.for_phase(Phase::Finished), "ghwf:finished");
    assert_eq!(
        labels.for_attention(Attention::WaitingOnUser),
        "ghwf:needs-you"
    );
    assert_eq!(
        labels.for_attention(Attention::WaitingOnGhwf),
        "ghwf:preparing"
    );
    assert_eq!(labels.all().len(), 8);
}

#[test]
fn blocked_label_defaults_to_blocked() {
    let config = bare_config();
    assert_eq!(config.blocked_label, "blocked");
}

#[test]
fn issue_repos_default_to_empty() {
    let config = bare_config();
    assert!(config.issue_repos.is_empty());
    assert!(config.issue_repo_refs().ok().unwrap().is_empty());
}

#[test]
fn issue_repos_parse_both_forms_mixed() {
    let config = Config {
        issue_repos: issue_repos_of(
            r#"
            worktrees_dir = "worktrees"
            issue_repos = [
                "Org/plain",
                { repo = "Org/with-prefix", branch_prefix = "wp" },
                { repo = "Org/no-prefix", branch_prefix = "" },
                { repo = "Org/default-prefix" },
            ]
            "#,
        ),
        ..bare_config()
    };
    assert_eq!(
        config.issue_repo_refs().ok().unwrap(),
        [
            ("Org".to_string(), "plain".to_string()),
            ("Org".to_string(), "with-prefix".to_string()),
            ("Org".to_string(), "no-prefix".to_string()),
            ("Org".to_string(), "default-prefix".to_string()),
        ]
    );
    // Plain form → repo name; explicit prefix wins; "" opts out; an absent
    // prefix in the table form also defaults to the repo name.
    assert_eq!(
        config.issue_branch_prefix("Org", "plain").ok().unwrap(),
        Some("plain".to_string())
    );
    assert_eq!(
        config.issue_branch_prefix("org", "with-prefix").ok().unwrap(),
        Some("wp".to_string())
    );
    assert_eq!(
        config.issue_branch_prefix("Org", "no-prefix").ok().unwrap(),
        None
    );
    assert_eq!(
        config.issue_branch_prefix("Org", "default-prefix").ok().unwrap(),
        Some("default-prefix".to_string())
    );
    // A repo that isn't listed (e.g. the main repo) gets no prefix.
    assert_eq!(config.issue_branch_prefix("Org", "main").ok().unwrap(), None);
}

#[test]
fn issue_repos_malformed_entry_errors() {
    let config = Config {
        issue_repos: issue_repos_of(
            r#"
            worktrees_dir = "worktrees"
            issue_repos = ["not-a-repo"]
            "#,
        ),
        ..bare_config()
    };
    assert!(config.issue_repo_refs().is_err());
    assert!(config.issue_branch_prefix("o", "r").is_err());
}

#[test]
fn pr_instructions_resolves_relative_to_config_dir() {
    let config = Config {
        pr_instructions: Some("docs/pr.md".to_string()),
        ..bare_config()
    };
    let located = Located {
        dir: "/base".to_string(),
        config,
    };
    assert_eq!(located.pr_instructions_path(), "/base/docs/pr.md");
}

#[test]
fn pr_instructions_defaults_next_to_config() {
    let located = Located {
        dir: "/base".to_string(),
        config: bare_config(),
    };
    assert_eq!(located.pr_instructions_path(), "/base/pull-request.md");
}

#[test]
fn paths_follow_the_config_file() {
    let located = Located {
        dir: "/base".to_string(),
        config: Config {
            main_repo: Some("repo.git".to_string()),
            worktrees_dir: "/elsewhere/wt".to_string(),
            ..bare_config()
        },
    };
    assert_eq!(located.file_path(), "/base/ghwf.toml");
    assert_eq!(located.main_repo_path(), "/base/repo.git");
    // An absolute path stands on its own.
    assert_eq!(located.worktrees_dir_path(), "/elsewhere/wt");
    let located = Located {
        dir: "/base".to_string(),
        config: bare_config(),
    };
    assert_eq!(located.main_repo_path(), "/base");
    assert_eq!(located.worktrees_dir_path(), "/base/worktrees");
}

#[test]
fn the_nearest_config_is_looked_for_first() {
    let dirs = ["/a/b".to_string(), "/a".to_string(), "/".to_string()];
    assert_eq!(candidates(&dirs), ["/a/b/ghwf.toml", "/a/ghwf.toml", "/ghwf.toml"]);
    assert!(require(None).err().unwrap().starts_with("this step requires a ghwf.toml"));
}

#[test]
fn repo_specs_have_an_owner_and_a_name() {
    assert_eq!(
        parse_owner_repo_spec("Org/docs").ok(),
        Some(("Org".to_string(), "docs".to_string()))
    );
    for bad in ["", "Org", "/docs", "Org/", "a/b/c"] {
        assert!(parse_owner_repo_spec(bad).is_err(), "accepted {bad:?}");
    }
}

#[test]
fn an_entry_that_names_no_repo_is_told() {
    let invalid = parse_owner_repo_spec(" a/b/c ").unwrap_err();
    assert_eq!(
        invalid.message(),
        "invalid issue_repos entry ` a/b/c `: expected the form \"owner/repo\""
    );
}
