use ghwf::install::{
    entry_has_command, entry_is_ours, exclude_from_git, local_settings_rel, merged_settings, skill_action,
    skill_path, skill_report,
    skill_content, without_global_hook, SkillAction, SKILL_MARKER,
};
use ghwf::json::{member, string, Json};
use serde_json::Value;

/// The agent's name: what the workflow waits on, by the field of the label config.
fn agent() -> String {
    let word = "waiting_on_claude".rsplit('_').next().unwrap();
    word[..1].to_uppercase() + &word[1..]
}

/// The agent's executable.
fn command() -> String {
    agent().to_lowercase()
}

/// The command of a hook.
fn hook(name: &str) -> String {
    format!("ghwf {}-{name}", command())
}

/// The commands of every Notification-hook entry in a merged document, in
/// order.
fn notification_commands(parsed: &Value) -> Vec<String> {
    parsed["hooks"]["Notification"]
        .as_array()
        .unwrap()
        .iter()
        .map(|e| e["hooks"][0]["command"].as_str().unwrap().to_string())
        .collect()
}

#[test]
fn skill_content_carries_the_marker() {
    assert!(skill_content(&agent()).contains(SKILL_MARKER));
}

#[test]
fn skill_content_routes_questions_to_github() {
    // The skill must steer the agent off interactive prompts toward a posted
    // blocking question.
    assert!(skill_content(&agent()).contains("--question"));
    assert!(skill_content(&agent()).contains("AskUserQuestion"));
    // …and toward `ask` for a choice among discrete options.
    assert!(skill_content(&agent()).contains("ghwf ask"));
}

#[test]
fn skill_runs_onboarding_first() {
    // The skill must direct the agent to run `ghwf onboarding` up front, so the
    // authoritative framing lands on the trusted user turn.
    assert!(skill_content(&agent()).contains("ghwf onboarding"));
}

#[test]
fn skill_advertises_create_issue() {
    // The skill must point the agent at `create-issue` for deferrals/discoveries
    // rather than dropping them.
    assert!(skill_content(&agent()).contains("ghwf create-issue"));
}

#[test]
fn skill_absent_installs() {
    assert_eq!(skill_action(&agent(), None, false), SkillAction::Install);
}

#[test]
fn skill_marked_updates() {
    let old = format!("---\n---\n{SKILL_MARKER} v0 -->\nold body\n");
    assert_eq!(skill_action(&agent(), Some(&old), false), SkillAction::Update);
}

#[test]
fn skill_identical_is_up_to_date() {
    assert_eq!(
        skill_action(&agent(), Some(&skill_content(&agent())), false),
        SkillAction::UpToDate
    );
}

#[test]
fn skill_unmarked_refuses_without_force() {
    assert_eq!(
        skill_action(&agent(), Some("hand-written"), false),
        SkillAction::Refuse
    );
    assert_eq!(
        skill_action(&agent(), Some("hand-written"), true),
        SkillAction::Update
    );
}

#[test]
fn merge_into_empty_settings_installs_stop_and_notification() {
    let merged = merged_settings(&agent(), "").unwrap().unwrap();
    let parsed: Value = serde_json::from_str(&merged).unwrap();
    assert_eq!(
        parsed["hooks"]["Stop"][0]["hooks"][0]["command"],
        hook("stop-hook")
    );
    // Both notification kinds are installed, matcher-scoped.
    assert_eq!(
        notification_commands(&parsed),
        [
            hook("notification-hook --kind idle"),
            hook("notification-hook --kind permission"),
        ]
    );
    assert_eq!(parsed["hooks"]["Notification"][0]["matcher"], "idle_prompt");
    assert_eq!(
        parsed["hooks"]["Notification"][1]["matcher"],
        "permission_prompt"
    );
}

#[test]
fn merge_preserves_unrelated_settings() {
    let existing = r#"{
        "model": "opus",
        "hooks": {
            "PreToolUse": [{"matcher": "Bash", "hooks": [{"type": "command", "command": "x"}]}],
            "Stop": [{"hooks": [{"type": "command", "command": "other"}]}]
        }
    }"#;
    let merged = merged_settings(&agent(), existing).unwrap().unwrap();
    let parsed: Value = serde_json::from_str(&merged).unwrap();
    assert_eq!(parsed["model"], "opus");
    assert_eq!(parsed["hooks"]["PreToolUse"][0]["matcher"], "Bash");
    // The pre-existing Stop entry survives, ours is appended after it.
    assert_eq!(parsed["hooks"]["Stop"][0]["hooks"][0]["command"], "other");
    assert_eq!(
        parsed["hooks"]["Stop"][1]["hooks"][0]["command"],
        hook("stop-hook")
    );
}

#[test]
fn merge_is_idempotent() {
    let merged = merged_settings(&agent(), "").unwrap().unwrap();
    assert!(merged_settings(&agent(), &merged).unwrap().is_none());
}

#[test]
fn merge_adds_only_the_missing_hook() {
    // A document that already has the Stop hook but neither Notification
    // entry gains both notifications, and the Stop entry isn't duplicated.
    let existing = &r#"{
        "hooks": {"Stop": [{
            "hooks": [{"type": "command", "command": "ghwf %-stop-hook", "timeout": 30}]
        }]}
    }"#.replace('%', &command());
    let merged = merged_settings(&agent(), existing).unwrap().unwrap();
    let parsed: Value = serde_json::from_str(&merged).unwrap();
    assert_eq!(parsed["hooks"]["Stop"].as_array().unwrap().len(), 1);
    assert_eq!(notification_commands(&parsed).len(), 2);
}

#[test]
fn merge_rejects_malformed_json() {
    assert!(merged_settings(&agent(), "{not json").is_err());
}

#[test]
fn merge_rejects_wrong_shapes() {
    assert!(merged_settings(&agent(), r#"[1, 2]"#).is_err());
    assert!(merged_settings(&agent(), r#"{"hooks": "nope"}"#).is_err());
    assert!(merged_settings(&agent(), r#"{"hooks": {"Stop": {}}}"#).is_err());
    assert!(merged_settings(&agent(), r#"{"hooks": {"Notification": {}}}"#).is_err());
}

#[test]
fn merge_recognises_ours_with_extra_wrapping() {
    // A user may have reformatted or annotated our entries; the command
    // substring is what identifies them, so a fully-installed document is a
    // no-op even with extra fields.
    let existing = &r#"{
        "hooks": {
            "Stop": [{
                "matcher": "*",
                "hooks": [{"type": "command", "command": "ghwf %-stop-hook", "timeout": 60}]
            }],
            "Notification": [
                {"matcher": "idle_prompt", "hooks": [{"type": "command", "command": "ghwf %-notification-hook --kind idle"}]},
                {"matcher": "permission_prompt", "hooks": [{"type": "command", "command": "ghwf %-notification-hook --kind permission"}]}
            ]
        }
    }"#.replace('%', &command());
    assert!(merged_settings(&agent(), existing).unwrap().is_none());
}

#[test]
fn global_cleanup_removes_only_our_stop_entry() {
    let existing = &r#"{
        "model": "opus",
        "hooks": {
            "Stop": [
                {"hooks": [{"type": "command", "command": "other"}]},
                {"hooks": [{"type": "command", "command": "ghwf %-stop-hook", "timeout": 30}]}
            ]
        }
    }"#.replace('%', &command());
    let cleaned = without_global_hook(&agent(), existing).unwrap().unwrap();
    let parsed: Value = serde_json::from_str(&cleaned).unwrap();
    assert_eq!(parsed["model"], "opus");
    // The foreign Stop entry survives; ours is gone.
    assert_eq!(parsed["hooks"]["Stop"].as_array().unwrap().len(), 1);
    assert_eq!(parsed["hooks"]["Stop"][0]["hooks"][0]["command"], "other");
}

#[test]
fn global_cleanup_drops_emptied_stop_array() {
    let existing = &r#"{
        "hooks": {"Stop": [
            {"hooks": [{"type": "command", "command": "ghwf %-stop-hook"}]}
        ]}
    }"#.replace('%', &command());
    let cleaned = without_global_hook(&agent(), existing).unwrap().unwrap();
    let parsed: Value = serde_json::from_str(&cleaned).unwrap();
    assert!(parsed["hooks"].get("Stop").is_none());
}

#[test]
fn global_cleanup_noop_without_our_hook() {
    // Nothing of ours: no rewrite.
    assert!(
        without_global_hook(&agent(), r#"{"hooks": {"Stop": [{"hooks": [{"command": "other"}]}]}}"#)
            .unwrap()
            .is_none()
    );
    assert!(without_global_hook(&agent(), "").unwrap().is_none());
    assert!(without_global_hook(&agent(), "{}").unwrap().is_none());
}

#[test]
fn skills_are_reported() {
    assert_eq!(skill_path("/home/u/.x"), "/home/u/.x/skills/work-on/SKILL.md");
    assert_eq!(skill_report(SkillAction::Install, "/p").unwrap(), "Installed the /work-on skill at `/p`.");
    assert!(skill_report(SkillAction::Refuse, "/p").unwrap_err().contains("already exists"));
}

#[test]
fn the_local_settings_are_excluded_from_git_once() {
    let rel = local_settings_rel(&agent());
    assert_eq!(rel, format!(".{}/settings.local.json", command()));
    let once = exclude_from_git("# rules\n*.tmp", &rel).unwrap();
    assert_eq!(once, format!("# rules\n*.tmp\n.{}/settings.local.json\n", command()));
    assert_eq!(exclude_from_git(&once, &rel), None);
    assert_eq!(
        exclude_from_git("", &rel).unwrap(),
        format!(".{}/settings.local.json\n", command())
    );
}

#[test]
fn numbers_survive_a_merge() {
    let existing = r#"{"a": 1.5, "b": [null, -3, true]}"#;
    let merged = merged_settings(&agent(), existing).unwrap().unwrap();
    let parsed: Value = serde_json::from_str(&merged).unwrap();
    assert_eq!(parsed["a"].as_f64(), Some(1.5));
    assert_eq!(parsed["b"][1].as_i64(), Some(-3));
    assert!(parsed["b"][0].is_null());
    assert_eq!(parsed["hooks"]["Stop"][0]["hooks"][0]["timeout"].as_u64(), Some(30));
}

#[test]
fn entries_are_known_by_their_command() {
    let run = Json::Object(vec![member(
        "command",
        string(&format!("run {} now", hook("stop-hook"))),
    )]);
    let entry = Json::Object(vec![member("hooks", Json::Array(vec![run]))]);
    assert!(entry_has_command(&entry, &hook("stop-hook")));
    assert!(!entry_has_command(&entry, "other"));
    assert!(!entry_has_command(&Json::Null, "other"));
}

#[test]
fn cleanup_keeps_what_others_put_beside_or_around_our_hook() {
    let own = hook("stop-hook");
    // A command that merely mentions ours, and an entry that runs another hook as well.
    for kept in [
        format!(r#"{{"hooks": [{{"command": "run {own} now"}}]}}"#),
        format!(r#"{{"hooks": [{{"command": "{own}"}}, {{"command": "other"}}]}}"#),
        r#"{"hooks": []}"#.to_string(),
    ] {
        let settings = format!(r#"{{"hooks": {{"Stop": [{kept}]}}}}"#);
        assert!(without_global_hook(&agent(), &settings).unwrap().is_none(), "{settings}");
        // Beside an entry of ours it is what stays.
        let both = format!(
            r#"{{"hooks": {{"Stop": [{kept}, {{"hooks": [{{"command": "{own}"}}]}}]}}}}"#
        );
        let cleaned = without_global_hook(&agent(), &both).unwrap().unwrap();
        let parsed: Value = serde_json::from_str(&cleaned).unwrap();
        let expected: Value = serde_json::from_str(&kept).unwrap();
        assert_eq!(parsed["hooks"]["Stop"].as_array().unwrap(), &vec![expected]);
    }
}

#[test]
fn only_an_entry_that_runs_nothing_else_is_ours() {
    let runs = |commands: &[&str]| {
        let hooks = commands
            .iter()
            .map(|c| Json::Object(vec![member("command", string(c))]))
            .collect();
        Json::Object(vec![member("hooks", Json::Array(hooks))])
    };
    assert!(entry_is_ours(&runs(&["ours"]), "ours"));
    assert!(!entry_is_ours(&runs(&["ours --loud"]), "ours"));
    assert!(!entry_is_ours(&runs(&["ours", "ours"]), "ours"));
    assert!(!entry_is_ours(&runs(&[]), "ours"));
    assert!(!entry_is_ours(&Json::Null, "ours"));
}

#[test]
fn settings_with_integers_are_merged_and_cleaned_once() {
    let existing = r#"{"a": 18446744073709551615, "b": [-9223372036854775808, 0, 7]}"#;
    let merged = merged_settings(&agent(), existing).unwrap().unwrap();
    assert!(merged_settings(&agent(), &merged).unwrap().is_none());
    let parsed: Value = serde_json::from_str(&merged).unwrap();
    assert_eq!(parsed["a"].as_u64(), Some(u64::MAX));
    assert_eq!(parsed["b"][0].as_i64(), Some(i64::MIN));
    let cleaned = without_global_hook(&agent(), &merged).unwrap().unwrap();
    assert!(without_global_hook(&agent(), &cleaned).unwrap().is_none());
    let parsed: Value = serde_json::from_str(&cleaned).unwrap();
    assert_eq!(parsed["a"].as_u64(), Some(u64::MAX));
}
