use ghwf::config_schema::{
    config_comment, doc_summary, field_doc, info, ls, render_example, resolve_field, type_label,
    wire_name, Field, Wrapper,
};

/// The agent's name: what the workflow waits on, by the field of the label config.
fn agent() -> String {
    let word = "waiting_on_claude".rsplit('_').next().unwrap();
    word[..1].to_uppercase() + &word[1..]
}

/// The agent's executable.
fn command() -> String {
    agent().to_lowercase()
}

fn field(key: &str, wrapper: Wrapper, inner: &str, doc: &str, fields: Option<Vec<Field>>) -> Field {
    Field {
        key: key.to_string(),
        wrapper,
        inner: inner.to_string(),
        doc: doc.lines().map(|line| format!(" {line}")).collect(),
        fields,
    }
}

fn label(name: &str, doc: &str) -> Field {
    field(name, Wrapper::Plain, "String", doc, None)
}

fn phase_labels() -> Vec<Field> {
    vec![
        label("pre-plan", "Label for the pre-plan phase."),
        label("prep-and-plan", "Label for the prep-and-plan phase."),
        label("implement", "Label for the implement phase."),
        label("review", "Label for the review phase."),
        label("finished", "Label for the terminal finished phase."),
    ]
}

fn attention_labels() -> Vec<Field> {
    vec![
        label("waiting-on-user", "Label for when it is the user's turn."),
        label(&format!("waiting-on-{}", command()), "Label for when it is the agent's turn."),
        label("waiting-on-ghwf", "Label for when ghwf is at work."),
    ]
}

fn options() -> Vec<Field> {
    let labels = vec![
        field("phase", Wrapper::Plain, "PhaseLabels", "", Some(phase_labels())),
        field("attention", Wrapper::Plain, "AttentionLabels", "", Some(attention_labels())),
    ];
    vec![
        field("main_repo", Wrapper::Optional, "PathBuf", "Path to the main git repo.", None),
        field("worktrees_dir", Wrapper::Plain, "PathBuf", "Where worktrees are created.", None),
        field("priority_labels", Wrapper::List, "String", "Urgent first.\nThen the rest.", None),
        field("pr_instructions", Wrapper::Optional, "PathBuf", "How to write PRs.", None),
        field("labels", Wrapper::Optional, "LabelsConfig", "Workflow status labels.", Some(labels)),
        field("permission_mode", Wrapper::Optional, "String", "Permission mode.", None),
        field("delete_plan_on_approval", Wrapper::Plain, "bool", "Drop the plan.", None),
        field("auto_collect_garbage", Wrapper::Plain, "bool", "Collect now and then.", None),
        field("auto_collect_garbage_interval_hours", Wrapper::Plain, "u64", "How often.", None),
        field("auto_merge_base", Wrapper::Plain, "bool", "Merge the base.", None),
        field("only_assigned_to_me", Wrapper::Plain, "bool", "Mine only.", None),
        field("blocked_label", Wrapper::Plain, "String", "The blocked label.", None),
        field("issue_repos", Wrapper::List, "IssueRepo", "More repos.", None),
        field("allowed_users", Wrapper::List, "String", "Who is heard.", None),
    ]
}

fn example() -> String {
    render_example(&agent(), &options(), &phase_labels(), &attention_labels())
}

#[test]
fn example_round_trips_into_config() {
    let text = example();
    let config: toml::Table = match toml::from_str(&text) {
        Ok(config) => config,
        Err(err) => panic!("example did not parse:\n{text}\n{err}"),
    };
    assert_eq!(config["main_repo"].as_str(), Some("repo.git"));
    assert_eq!(config["worktrees_dir"].as_str(), Some("worktrees"));
    assert_eq!(config["auto_collect_garbage_interval_hours"].as_integer(), Some(24));
    assert_eq!(config["delete_plan_on_approval"].as_bool(), Some(true));
    assert_eq!(config["priority_labels"][1].as_str(), Some("soon"));
    assert_eq!(config["issue_repos"][1]["branch_prefix"].as_str(), Some("wiki"));
    assert_eq!(config["labels"]["attention"]["waiting-on-ghwf"].as_str(), Some("ghwf:preparing"));
}

#[test]
fn example_covers_every_top_level_option() {
    let text = example();
    let parsed: toml::Value = toml::from_str(&text).unwrap();
    let table = parsed.as_table().unwrap();
    for field in options() {
        let key = wire_name(&field.key, None);
        assert!(table.contains_key(key), "example is missing `{key}`");
    }
}

#[test]
fn example_labels_keys_match_reflection() {
    let text = example();
    let parsed: toml::Value = toml::from_str(&text).unwrap();
    let phase = parsed["labels"]["phase"].as_table().unwrap();
    for field in phase_labels() {
        assert!(phase.contains_key(wire_name(&field.key, None)));
    }
}

#[test]
fn resolve_walks_nested_paths() {
    let root = options();
    assert_eq!(
        resolve_field(&root, "worktrees_dir").ok().unwrap().key,
        "worktrees_dir"
    );
    assert_eq!(
        resolve_field(&root, "labels.phase.pre-plan").ok().unwrap().key,
        "pre-plan"
    );
    assert!(resolve_field(&root, "labels.nope").is_err());
    assert!(resolve_field(&root, "nope").is_err());
    // A scalar has no sub-options.
    assert!(resolve_field(&root, "worktrees_dir.deeper").is_err());
}

#[test]
fn failed_lookups_say_where() {
    let root = options();
    assert_eq!(
        resolve_field(&root, "labels.nope.deeper").err().unwrap(),
        "unknown config option `labels.nope`"
    );
    assert_eq!(
        resolve_field(&root, "worktrees_dir.deeper").err().unwrap(),
        "`worktrees_dir` is not a table, so `deeper` has no sub-options"
    );
    assert_eq!(
        ls(&root, Some("worktrees_dir")).unwrap_err(),
        "`worktrees_dir` is a PathBuf, not a table with sub-options"
    );
}

#[test]
fn the_example_is_annotated() {
    let text = example();
    assert!(text.starts_with("# Path to the main git repo.\nmain_repo = \"repo.git\"\n"));
    assert!(text.contains("\n# Urgent first.\n# Then the rest.\npriority_labels = "));
    assert!(text.contains("[labels.phase]\n"));
    assert_eq!(config_comment(&options(), "priority_labels"), "Urgent first.\nThen the rest.");
    assert_eq!(config_comment(&options(), "nope"), "");
}

#[test]
fn listings_are_aligned() {
    assert_eq!(
        ls(&options(), Some("labels")).unwrap(),
        "Options in labels:\n\n  phase/\n  attention/\n"
    );
    let attention = ls(&options(), Some("labels.attention")).unwrap();
    assert_eq!(
        attention,
        format!(
            "Options in labels.attention:\n\n\
             \x20 waiting-on-user    Label for when it is the user's turn.\n\
             \x20 waiting-on-{}  Label for when it is the agent's turn.\n\
             \x20 waiting-on-ghwf    Label for when ghwf is at work.\n",
            command()
        )
    );
    assert!(ls(&options(), None).unwrap().starts_with("Options in ghwf.toml:\n\n  main_repo "));
}

#[test]
fn an_option_is_described_with_its_type() {
    let root = options();
    assert_eq!(
        info(&root, "priority_labels").unwrap(),
        "priority_labels\n  type: array of String\n\n  Urgent first.\n  Then the rest.\n"
    );
    assert_eq!(
        info(&root, "labels.phase").unwrap(),
        "labels.phase\n  type: PhaseLabels\n\n  (undocumented)\n\n  \
         A table — run `ghwf config ls labels.phase` to list its options.\n"
    );
    assert_eq!(type_label(&root[0]), "PathBuf (optional)");
    assert_eq!(doc_summary(&root[2]), "Urgent first.");
    assert_eq!(field_doc(&root[2]), "Urgent first.\nThen the rest.");
    assert_eq!(wire_name("pre_plan", Some("pre-plan")), "pre-plan");
}

#[test]
fn the_example_keeps_the_order_of_the_settings() {
    let text = example();
    let at = |needle: &str| match text.find(needle) {
        Some(at) => at,
        None => panic!("no {needle} in:\n{text}"),
    };
    assert!(at("main_repo = ") < at("worktrees_dir = "));
    assert!(at("permission_mode = ") < at("phase]"));
    assert!(at("phase]") < at("attention]"));
    assert!(at("pre-plan = ") < at("prep-and-plan = "));
}
