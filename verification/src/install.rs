//! The integration with the agent: the `/work-on` skill and the hooks.

use vstd::prelude::*;

use crate::json;
use crate::json::{Json, Member};
use crate::text;

verus! {

/// Marker identifying skill content ghwf wrote. Its presence means the file is
/// ours to overwrite on update; its absence means a human wrote it, so we refuse
/// without `--force`.
pub const SKILL_MARKER: &'static str = "<!-- ghwf:skill";

/// The `/work-on` skill, written to `<agent_dir>/skills/work-on/SKILL.md`, with the
/// agent's name in the place of the `%`.
///
/// `disable-model-invocation` keeps the agent from triggering the skill on its own,
/// and `allowed-tools` pre-approves ghwf invocations so the wait loop doesn't
/// stall on permission prompts.
pub const SKILL_TEMPLATE: &'static str = r#"---
description: Drive ghwf on a GitHub issue.
disable-model-invocation: true
argument-hint: "[issue number or URL]"
allowed-tools: "Bash(ghwf:*)"
---
<!-- ghwf:skill — installed by `ghwf install`; edits are overwritten on update -->

The issue argument may be omitted: ghwf then infers the issue from the
session environment ($GHWF_ISSUE, set by the ghwf launcher) or the current
worktree.

Before anything else, run `ghwf onboarding` and treat everything it prints as
the authoritative operating contract for this session — it sets out how to
regard ghwf's relayed instructions and the GitHub conversation. Then:

Run `ghwf work-on $ARGUMENTS` and follow the phase banner exactly:

- Never enter % Code plan mode; write any plan as a file where ghwf
  tells you.
- Never ask the user with an interactive prompt (no AskUserQuestion, and
  don't ask in prose and stop). If you need an answer to proceed, post the
  question with `ghwf hand-off $ARGUMENTS --question` (body from stdin) — that
  flips the issue to "needs you" — then `ghwf wait $ARGUMENTS` for the reply.
  When the answer is a choice among discrete options, use `ghwf ask $ARGUMENTS
  --option "..." --option "..."` (question on stdin) instead: ghwf renders the
  options as checkboxes, appends a submit box, and wakes you only once the user
  ticks it. Offer an "other / none of these" option where it fits.
- Post questions and clarifications with `ghwf create-issue-comment
  $ARGUMENTS`; when a phase's work is done, hand off with `ghwf hand-off
  $ARGUMENTS` (body from stdin) — ghwf appends the approval prompt itself,
  so never write one. Both accept `--attach <path>` (repeatable) to attach a
  local file (e.g. a screenshot or log); it's committed to the repo's
  `ghwf-attachments` branch and linked from the comment.
- Answer each question in the place it was asked: a comment on the issue
  thread on the issue (`ghwf create-issue-comment $ARGUMENTS`), a comment on
  the PR conversation thread on the PR (`ghwf create-issue-comment <PR#>`),
  and an inline review comment in its own inline thread (`ghwf
  reply-review-comment --id <id>`). Blocking questions back to the user and
  phase hand-offs still go on the issue thread via `ghwf hand-off` / `ghwf
  ask`.
- Don't read a partial reply as the user being finished: if a comment
  addresses only some of what you raised, assume more may be coming. Unanswered
  questions, options, and suggested defaults stay open — only an explicit phase
  approval (an `/approve-*` directive or a 👍) settles them. Acknowledge what
  arrived, then `ghwf wait $ARGUMENTS` again instead of pressing ahead on the
  open points.
- When you decide to defer work or discover something out of scope, file it
  with `ghwf create-issue --title "..."` (body from stdin) instead of dropping
  it; by default the new issue is marked blocked by the one you're working on.
- For the PR itself, use ghwf rather than `gh`: `ghwf show-pr` /
  `ghwf update-pr` (body from stdin, `--title` optional) to read and revise
  the title and body, `ghwf pr-checks` (`--log-failed` for logs) for CI
  status, and `ghwf reply-review-comment --id <id>` (body from stdin) to
  answer an inline review comment.
- If ghwf hard-errors that the work belongs in a different worktree, relay its
  relaunch command to the user and stop — do not try to work around it.

This is a long-running loop, not a one-shot command. After each round of
work, run `ghwf wait $ARGUMENTS` with a 10-minute Bash timeout: exit 0 means
new activity — run `ghwf work-on $ARGUMENTS` to process it; exit 2 means
nothing yet — run `ghwf wait $ARGUMENTS` again. Keep looping until the
workflow completes or the user tells you to stop. Never poll with your own
sleep loops.
"#;

/// The `/work-on` skill for an agent of this name.
pub open spec fn skill_text(agent: Seq<char>) -> Seq<char> {
    text::fill(SKILL_TEMPLATE@, agent)
}

/// The `/work-on` skill for an agent of this name.
pub fn skill_content(agent: &str) -> (r: String)
    ensures
        r@ == text::fill(SKILL_TEMPLATE@, agent@),
{
    text::filled(SKILL_TEMPLATE, agent)
}

/// The Stop-hook command, and the substring by which it is recognised as installed.
pub open spec fn stop_command(agent: Seq<char>) -> Seq<char> {
    "ghwf "@ + text::lower(agent) + "-stop-hook"@
}

/// The command for a session that has gone idle.
pub open spec fn idle_command(agent: Seq<char>) -> Seq<char> {
    "ghwf "@ + text::lower(agent) + "-notification-hook --kind idle"@
}

/// The command for a session that waits for a permission.
pub open spec fn permission_command(agent: Seq<char>) -> Seq<char> {
    "ghwf "@ + text::lower(agent) + "-notification-hook --kind permission"@
}

/// A hook command for an agent of this name.
fn hook_command(agent: &str, hook: &str) -> (r: String)
    ensures
        r@ == "ghwf "@ + text::lower(agent@) + hook@,
{
    let mut out = text::copy("ghwf ");
    out.append(text::lowered(agent).as_str());
    out.append(hook);
    out
}

/// The settings file we write our hooks into: the agent's machine-local,
/// not-meant-to-be-committed settings file, so our hooks never land in a PR diff
/// or a tracked file.
pub const LOCAL_SETTINGS: &'static str = "settings.local.json";

/// Where that file is, relative to a session's launch directory: the agent keeps its
/// settings in a directory of its name.
pub fn local_settings_rel(agent: &str) -> (r: String)
    ensures
        r@ == "."@ + text::lower(agent@) + "/"@ + LOCAL_SETTINGS@,
{
    let mut out = text::copy(".");
    out.append(text::lowered(agent).as_str());
    out.append("/");
    out.append(LOCAL_SETTINGS);
    out
}

/// What to do with the skill file, given what's already there.
#[derive(Clone, Copy, Debug, PartialEq, Eq, Structural)]
pub enum SkillAction {
    /// No file yet: write it.
    Install,
    /// Our marker is present (or `--force` was given): overwrite.
    Update,
    /// Already byte-identical: nothing to do.
    UpToDate,
    /// Unrecognised content and no `--force`: hard error.
    Refuse,
}

/// The skill action for the existing file content.
pub open spec fn action_for(agent: Seq<char>, existing: Option<&str>, force: bool) -> SkillAction {
    match existing {
        None => SkillAction::Install,
        Some(content) => if content@ == skill_text(agent) {
            SkillAction::UpToDate
        } else if text::contains(content@, SKILL_MARKER@) || force {
            SkillAction::Update
        } else {
            SkillAction::Refuse
        },
    }
}

/// Decide the skill action from the existing file content (if any).
pub fn skill_action(agent: &str, existing: Option<&str>, force: bool) -> (r: SkillAction)
    ensures
        r == action_for(agent@, existing, force),
{
    match existing {
        None => SkillAction::Install,
        Some(content) => {
            if text::same(content, skill_content(agent).as_str()) {
                SkillAction::UpToDate
            } else if text::has(content, SKILL_MARKER) || force {
                SkillAction::Update
            } else {
                SkillAction::Refuse
            }
        },
    }
}

/// Content that a human wrote is never overwritten unless forced.
pub proof fn foreign_skills_are_kept(agent: Seq<char>, content: &str)
    requires
        content@ != skill_text(agent),
        !text::contains(content@, SKILL_MARKER@),
    ensures
        action_for(agent, Some(content), false) == SkillAction::Refuse,
{
}

/// Where the skill is kept below the agent's directory.
pub fn skill_path(agent_dir: &str) -> (r: String)
    ensures
        r@ == text::below(agent_dir@, "skills/work-on/SKILL.md"@),
{
    text::path_below(agent_dir, "skills/work-on/SKILL.md")
}

/// What is said of the skill at `path`.
pub open spec fn skill_said(action: SkillAction, path: Seq<char>) -> Result<Seq<char>, Seq<char>> {
    match action {
        SkillAction::Refuse => Err("`"@ + path + NOT_OURS@),
        SkillAction::UpToDate => Ok("The /work-on skill at `"@ + path + "` is up to date."@),
        SkillAction::Install => Ok("Installed the /work-on skill at `"@ + path + "`."@),
        SkillAction::Update => Ok("Updated the /work-on skill at `"@ + path + "`."@),
    }
}

pub const NOT_OURS: &'static str =
    "` already exists and doesn't look like ghwf wrote it \
     (no `<!-- ghwf:skill` marker); re-run with --force to overwrite it.";

/// What is said of the skill at `path`: the report, or the error.
pub fn skill_report(action: SkillAction, path: &str) -> (r: Result<String, String>)
    ensures
        match r {
            Ok(s) => skill_said(action, path@) == Ok::<Seq<char>, Seq<char>>(s@),
            Err(e) => skill_said(action, path@) == Err::<Seq<char>, Seq<char>>(e@),
        },
{
    let (head, end) = match action {
        SkillAction::Refuse => ("`", NOT_OURS),
        SkillAction::UpToDate => ("The /work-on skill at `", "` is up to date."),
        SkillAction::Install => ("Installed the /work-on skill at `", "`."),
        SkillAction::Update => ("Updated the /work-on skill at `", "`."),
    };
    let mut out = text::copy(head);
    out.append(path);
    out.append(end);
    match action {
        SkillAction::Refuse => Err(out),
        _ => Ok(out),
    }
}

/// Whether some line of an exclude file is the path `rel`.
pub open spec fn excludes(current: Seq<char>, rel: Seq<char>) -> bool {
    exists|i: int|
        0 <= i < text::lines(current).len() && text::trim(#[trigger] text::lines(current)[i]) == rel
}

/// The exclude file with the path on a line of its own.
pub open spec fn excluding(current: Seq<char>, rel: Seq<char>) -> Seq<char> {
    (if current.len() > 0 && current.last() != '\n' {
        current + "\n"@
    } else {
        current
    }) + rel + "\n"@
}

/// What an exclude file is to hold so that our settings file, at `rel`, is excluded
/// from git, or nothing where it already is.
pub fn exclude_from_git(current: &str, rel: &str) -> (r: Option<String>)
    ensures
        match r {
            Some(updated) => !excludes(current@, rel@) && updated@ == excluding(current@, rel@),
            None => excludes(current@, rel@),
        },
{
    let lines = text::lines_of(current);
    let mut i: usize = 0;
    while i < lines.len()
        invariant
            i <= lines.len(),
            text::views(lines@) == text::lines(current@),
            forall|k: int|
                0 <= k < i ==> text::trim(#[trigger] text::lines(current@)[k]) != rel@,
        decreases lines.len() - i,
    {
        assert(text::lines(current@)[i as int] == lines@[i as int]@);
        if text::same(text::trimmed(lines[i].as_str()).as_str(), rel) {
            return None;
        }
        i = i + 1;
    }
    let chars = text::chars(current);
    let mut updated = text::copy(current);
    if chars.len() > 0 && chars[chars.len() - 1] != '\n' {
        updated.append("\n");
    }
    updated.append(rel);
    updated.append("\n");
    Some(updated)
}

/// A hook that invokes a command containing `needle`.
pub open spec fn invokes(hook: json::JsonView, needle: Seq<char>) -> bool {
    match hook {
        json::JsonView::Object(members) => match json::get(members, "command"@) {
            Some(json::JsonView::Text(command)) => text::contains(command, needle),
            _ => false,
        },
        _ => false,
    }
}

/// An entry of a hook array that invokes a command containing `needle`.
pub open spec fn has_command(entry: json::JsonView, needle: Seq<char>) -> bool {
    match entry {
        json::JsonView::Object(members) => match json::get(members, "hooks"@) {
            Some(json::JsonView::Array(hooks)) => exists|i: int|
                0 <= i < hooks.len() && invokes(#[trigger] hooks[i], needle),
            _ => false,
        },
        _ => false,
    }
}

/// Whether a hook invokes a command containing `needle`.
fn hook_invokes(hook: &Json, needle: &str) -> (r: bool)
    ensures
        r == invokes(hook.view(), needle@),
{
    match hook {
        Json::Object(members) => match json::find(members, "command") {
            Some(at) => {
                assert(json::members_view(members@)[at as int] == members@[at as int].view());
                match &members[at].value {
                    Json::Text(command) => text::has(command.as_str(), needle),
                    _ => false,
                }
            },
            None => false,
        },
        _ => false,
    }
}

/// Whether some hook invokes a command containing `needle`.
fn any_invokes(hooks: &Vec<Json>, needle: &str) -> (r: bool)
    ensures
        r == exists|i: int|
            0 <= i < json::items_view(hooks@).len() && invokes(
                #[trigger] json::items_view(hooks@)[i],
                needle@,
            ),
{
    let ghost all = json::items_view(hooks@);
    let mut i: usize = 0;
    while i < hooks.len()
        invariant
            i <= hooks.len(),
            all == json::items_view(hooks@),
            forall|k: int| 0 <= k < i ==> !invokes(#[trigger] all[k], needle@),
        decreases hooks.len() - i,
    {
        assert(all[i as int] == hooks@[i as int].view());
        if hook_invokes(&hooks[i], needle) {
            return true;
        }
        i = i + 1;
    }
    false
}

/// Whether a hook-array entry already invokes a command containing `needle`.
pub fn entry_has_command(entry: &Json, needle: &str) -> (r: bool)
    ensures
        r == has_command(entry.view(), needle@),
{
    match entry {
        Json::Object(members) => match json::find(members, "hooks") {
            Some(at) => {
                assert(json::members_view(members@)[at as int] == members@[at as int].view());
                let value = &members[at].value;
                assert(json::get(json::members_view(members@), "hooks"@) == Some(value.view()));
                match value {
                    Json::Array(hooks) => {
                        assert(value.view() == json::JsonView::Array(json::items_view(hooks@)));
                        any_invokes(hooks, needle)
                    },
                    _ => {
                        assert(value.view() !is Array);
                        false
                    },
                }
            },
            None => false,
        },
        _ => false,
    }
}

/// Some entry invokes the command.
pub open spec fn installed(entries: Seq<json::JsonView>, command: Seq<char>) -> bool {
    exists|i: int| 0 <= i < entries.len() && has_command(#[trigger] entries[i], command)
}

/// Whether some entry invokes the command.
fn is_installed(entries: &Vec<Json>, command: &str) -> (r: bool)
    ensures
        r == installed(json::items_view(entries@), command@),
{
    let ghost all = json::items_view(entries@);
    let mut i: usize = 0;
    while i < entries.len()
        invariant
            i <= entries.len(),
            all == json::items_view(entries@),
            forall|k: int| 0 <= k < i ==> !has_command(#[trigger] all[k], command@),
        decreases entries.len() - i,
    {
        assert(all[i as int] == entries@[i as int].view());
        if entry_has_command(&entries[i], command) {
            return true;
        }
        i = i + 1;
    }
    false
}

/// The hook of our entry for a command.
pub open spec fn our_hook(command: Seq<char>) -> json::JsonView {
    json::JsonView::Object(
        seq![
            json::MemberView { key: "type"@, value: json::JsonView::Text("command"@) },
            json::MemberView { key: "command"@, value: json::JsonView::Text(command) },
            json::MemberView { key: "timeout"@, value: json::JsonView::Integer(30) },
        ],
    )
}

/// Our entry for a command, scoped to `matcher` where there is one.
pub open spec fn our_entry(matcher: Option<&str>, command: Seq<char>) -> json::JsonView {
    let hooks = json::MemberView {
        key: "hooks"@,
        value: json::JsonView::Array(seq![our_hook(command)]),
    };
    json::JsonView::Object(
        match matcher {
            Some(matcher) => seq![
                hooks,
                json::MemberView { key: "matcher"@, value: json::JsonView::Text(matcher@) },
            ],
            None => seq![hooks],
        },
    )
}

/// Our entry for a command, scoped to `matcher` where there is one.
fn build_entry(matcher: Option<&str>, command: &str) -> (r: Json)
    ensures
        r.view() == our_entry(matcher, command@),
{
    let mut hook: Vec<Member> = Vec::new();
    assert(json::members_view(hook@) =~= seq![]);
    json::push_member(&mut hook, "type", json::string("command"));
    json::push_member(&mut hook, "command", json::string(command));
    json::push_member(&mut hook, "timeout", Json::Count(30));
    assert(json::members_view(hook@) =~= our_hook(command@)->Object_0);
    let mut hooks: Vec<Json> = Vec::new();
    assert(json::items_view(hooks@) =~= seq![]);
    json::push_item(&mut hooks, Json::Object(hook));
    assert(json::items_view(hooks@) =~= seq![our_hook(command@)]);
    let mut entry: Vec<Member> = Vec::new();
    assert(json::members_view(entry@) =~= seq![]);
    json::push_member(&mut entry, "hooks", Json::Array(hooks));
    match matcher {
        Some(matcher) => {
            json::push_member(&mut entry, "matcher", json::string(matcher));
        },
        None => {},
    }
    assert(json::members_view(entry@) =~= our_entry(matcher, command@)->Object_0);
    Json::Object(entry)
}

/// The entries of an event; none where the event is missing. `None` where they
/// are no array.
pub open spec fn entries_of(hooks: Seq<json::MemberView>, event: Seq<char>) -> Option<
    Seq<json::JsonView>,
> {
    match json::get(hooks, event) {
        None => Some(seq![]),
        Some(json::JsonView::Array(entries)) => Some(entries),
        Some(_) => None,
    }
}

/// The hooks with an entry for the command.
pub open spec fn with_hook(
    hooks: Seq<json::MemberView>,
    event: Seq<char>,
    matcher: Option<&str>,
    command: Seq<char>,
) -> Seq<json::MemberView> {
    let entries = entries_of(hooks, event)->0;
    if installed(entries, command) {
        hooks
    } else {
        json::set(
            hooks,
            event,
            json::JsonView::Array(entries.push(our_entry(matcher, command))),
        )
    }
}

/// What is said where the entries of an event are no array.
pub open spec fn not_an_array(event: Seq<char>) -> Seq<char> {
    "`hooks."@ + event + "` in settings.local.json is not an array"@
}

/// Ensure the `event` array under `hooks` contains an entry invoking `command`,
/// appending one (with `matcher` when given) if absent. Returns whether it added
/// anything. Fails if the event is there but isn't an array.
pub fn ensure_hook(
    hooks: &mut Vec<Member>,
    event: &str,
    matcher: Option<&str>,
    command: &str,
) -> (r: Result<bool, String>)
    ensures
        match entries_of(json::members_view(old(hooks)@), event@) {
            Some(entries) => {
                &&& r == Ok::<bool, String>(!installed(entries, command@))
                &&& json::members_view(final(hooks)@) == with_hook(
                    json::members_view(old(hooks)@),
                    event@,
                    matcher,
                    command@,
                )
            },
            None => {
                &&& r is Err && r->Err_0@ == not_an_array(event@)
                &&& final(hooks)@ == old(hooks)@
            },
        },
{
    let ghost before = json::members_view(hooks@);
    let at: usize = match json::find(hooks, event) {
        Some(at) => at,
        None => {
            let mut entries: Vec<Json> = Vec::new();
            entries.push(build_entry(matcher, command));
            let added = Json::Array(entries);
            assert(added.view()->Array_0 =~= Seq::<json::JsonView>::empty().push(
                our_entry(matcher, command@),
            ));
            json::put(hooks, event, added);
            return Ok(true);
        },
    };
    assert(before[at as int] == hooks@[at as int].view());
    let there = match &hooks[at].value {
        Json::Array(entries) => is_installed(entries, command),
        _ => {
            let mut e = text::copy("`hooks.");
            e.append(event);
            e.append("` in settings.local.json is not an array");
            return Err(e);
        },
    };
    if there {
        return Ok(false);
    }
    let member = hooks.remove(at);
    assert(before[at as int] == member.view());
    match member.value {
        Json::Array(entries) => {
            let mut entries = entries;
            let ghost old_entries = json::items_view(entries@);
            entries.push(build_entry(matcher, command));
            let value = Json::Array(entries);
            assert(value.view()->Array_0 =~= old_entries.push(our_entry(matcher, command@)));
            hooks.insert(at, Member { key: text::copy(event), value });
            assert(json::members_view(hooks@) =~= with_hook(before, event@, matcher, command@));
        },
        _ => {},
    }
    Ok(true)
}

/// The document with our hooks merged in, or what is wrong with it.
pub open spec fn merged(
    agent: Seq<char>,
    root: json::JsonView,
) -> Result<json::JsonView, Seq<char>> {
    match root {
        json::JsonView::Object(members) => match json::get(members, "hooks"@) {
            None => Ok(with_hooks(members, all_hooks(agent, seq![]))),
            Some(json::JsonView::Object(hooks)) => if entries_of(hooks, "Stop"@) is None {
                Err(not_an_array("Stop"@))
            } else if entries_of(hooks, "Notification"@) is None {
                Err(not_an_array("Notification"@))
            } else {
                Ok(with_hooks(members, all_hooks(agent, hooks)))
            },
            Some(_) => Err("`hooks` in settings.local.json is not an object"@),
        },
        _ => Err("settings.local.json is not a JSON object"@),
    }
}

/// The document's members with these hooks.
pub open spec fn with_hooks(
    members: Seq<json::MemberView>,
    hooks: Seq<json::MemberView>,
) -> json::JsonView {
    json::JsonView::Object(json::set(members, "hooks"@, json::JsonView::Object(hooks)))
}

/// The hooks with our Stop and Notification hooks.
pub open spec fn all_hooks(
    agent: Seq<char>,
    hooks: Seq<json::MemberView>,
) -> Seq<json::MemberView> {
    with_hook(
        with_hook(
            with_hook(hooks, "Stop"@, None, stop_command(agent)),
            "Notification"@,
            Some("idle_prompt"),
            idle_command(agent),
        ),
        "Notification"@,
        Some("permission_prompt"),
        permission_command(agent),
    )
}

/// All our hooks are there.
pub open spec fn complete(agent: Seq<char>, root: json::JsonView) -> bool {
    match root {
        json::JsonView::Object(members) => match json::get(members, "hooks"@) {
            Some(json::JsonView::Object(hooks)) => hooks_complete(agent, hooks),
            _ => false,
        },
        _ => false,
    }
}

/// All our hooks are there.
pub open spec fn hooks_complete(agent: Seq<char>, hooks: Seq<json::MemberView>) -> bool {
    &&& entries_of(hooks, "Stop"@) is Some && entries_of(hooks, "Notification"@) is Some
    &&& installed(entries_of(hooks, "Stop"@)->0, stop_command(agent))
    &&& installed(entries_of(hooks, "Notification"@)->0, idle_command(agent))
    &&& installed(entries_of(hooks, "Notification"@)->0, permission_command(agent))
}

/// A document with our hooks merged in.
pub struct Merged {
    pub doc: Json,
    /// Whether anything was added.
    pub changed: bool,
}

/// Put our Stop and Notification hooks among the hooks. Returns whether any was
/// added.
fn ensure_hooks(agent: &str, hooks: &mut Vec<Member>) -> (r: Result<bool, String>)
    ensures
        ({
            let before = json::members_view(old(hooks)@);
            if entries_of(before, "Stop"@) is None {
                r is Err && r->Err_0@ == not_an_array("Stop"@)
            } else if entries_of(before, "Notification"@) is None {
                r is Err && r->Err_0@ == not_an_array("Notification"@)
            } else {
                &&& r == Ok::<bool, String>(!hooks_complete(agent@, before))
                &&& json::members_view(final(hooks)@) == all_hooks(agent@, before)
            }
        }),
{
    let ghost before = json::members_view(hooks@);
    proof {
        reveal_strlit("Stop");
        reveal_strlit("Notification");
        assert("Stop"@.len() != "Notification"@.len());
    }
    // The Stop hook (no matcher).
    let stop_hook = hook_command(agent, "-stop-hook");
    let idle_hook = hook_command(agent, "-notification-hook --kind idle");
    let permission_hook = hook_command(agent, "-notification-hook --kind permission");
    let stop = match ensure_hook(hooks, "Stop", None, stop_hook.as_str()) {
        Ok(added) => added,
        Err(e) => {
            return Err(e);
        },
    };
    let ghost first = json::members_view(hooks@);
    proof {
        lemma_with_hook(before, "Stop"@, None, stop_command(agent@), "Notification"@);
    }
    // The Notification hooks, one matcher-scoped entry per kind.
    let idle = match ensure_hook(
        hooks,
        "Notification",
        Some("idle_prompt"),
        idle_hook.as_str(),
    ) {
        Ok(added) => added,
        Err(e) => {
            return Err(e);
        },
    };
    proof {
        lemma_with_hook(
            first,
            "Notification"@,
            Some("idle_prompt"),
            idle_command(agent@),
            "Stop"@,
        );
    }
    let permission = match ensure_hook(
        hooks,
        "Notification",
        Some("permission_prompt"),
        permission_hook.as_str(),
    ) {
        Ok(added) => added,
        Err(e) => {
            return Err(e);
        },
    };
    Ok(stop || idle || permission)
}

/// What an added hook changes: the event's entries, and those of no other event.
proof fn lemma_with_hook(
    hooks: Seq<json::MemberView>,
    event: Seq<char>,
    matcher: Option<&str>,
    command: Seq<char>,
    other: Seq<char>,
)
    requires
        entries_of(hooks, event) is Some,
    ensures
        ({
            let next = with_hook(hooks, event, matcher, command);
            &&& entries_of(next, event) == Some(
                if installed(entries_of(hooks, event)->0, command) {
                    entries_of(hooks, event)->0
                } else {
                    entries_of(hooks, event)->0.push(our_entry(matcher, command))
                },
            )
            &&& other != event ==> json::get(next, other) == json::get(hooks, other)
        }),
{
    let entries = entries_of(hooks, event)->0;
    json::lemma_set_get(
        hooks,
        event,
        json::JsonView::Array(entries.push(our_entry(matcher, command))),
        other,
    );
}

/// Merge our Stop and Notification hooks into a settings document, preserving
/// everything else in it.
///
/// The settings file may be user-owned, so anything unexpected about the parts
/// we'd touch (`hooks` and the per-event arrays) is an error, never an overwrite.
pub fn merge_hooks(agent: &str, root: Json) -> (r: Result<Merged, String>)
    ensures
        match merged(agent@, root.view()) {
            Ok(doc) => r is Ok && r->Ok_0.doc.view() == doc && r->Ok_0.changed == !complete(
                agent@,
                root.view(),
            ),
            Err(e) => r is Err && r->Err_0@ == e,
        },
{
    let ghost whole = root.view();
    let mut members = match root {
        Json::Object(members) => members,
        _ => {
            return Err(text::copy("settings.local.json is not a JSON object"));
        },
    };
    let ghost before = json::members_view(members@);
    let at: usize = match json::find(&members, "hooks") {
        Some(at) => at,
        None => {
            let mut hooks: Vec<Member> = Vec::new();
            assert(json::members_view(hooks@) =~= seq![]);
            match ensure_hooks(agent, &mut hooks) {
                Ok(_) => {},
                Err(e) => {
                    return Err(e);
                },
            }
            let added = Json::Object(hooks);
            json::put(&mut members, "hooks", added);
            return Ok(Merged { doc: Json::Object(members), changed: true });
        },
    };
    let member = members.remove(at);
    assert(before[at as int] == member.view());
    let value = member.value;
    assert(json::get(before, "hooks"@) == Some(value.view()));
    match value {
        Json::Object(hooks) => {
            let mut hooks = hooks;
            let ghost held = json::members_view(hooks@);
            assert(value.view() == json::JsonView::Object(held));
            let changed = match ensure_hooks(agent, &mut hooks) {
                Ok(changed) => changed,
                Err(e) => {
                    return Err(e);
                },
            };
            let now = json::member("hooks", Json::Object(hooks));
            members.insert(at, now);
            assert(json::members_view(members@) =~= json::set(
                before,
                "hooks"@,
                json::JsonView::Object(all_hooks(agent@, held)),
            ));
            Ok(Merged { doc: Json::Object(members), changed })
        },
        _ => {
            assert(value.view() !is Object);
            Err(text::copy("`hooks` in settings.local.json is not an object"))
        },
    }
}

pub const NOT_JSON: &'static str = "settings.local.json is not valid JSON: ";

pub const NOT_PRINTED: &'static str = "failed to serialize settings.local.json: ";

/// The document in a settings file: an empty one where there is nothing in it.
pub open spec fn settings_of(existing: Seq<char>) -> Result<json::JsonView, Seq<char>> {
    if text::trim(existing).len() == 0 {
        Ok(json::JsonView::Object(seq![]))
    } else {
        json::parsed(existing)
    }
}

/// The text of a document, with a line end, or why there is none.
pub open spec fn file_of(doc: json::JsonView, why: Seq<char>) -> Result<
    Option<Seq<char>>,
    Seq<char>,
> {
    match json::printed(doc) {
        Ok(s) => Ok(Some(s + "\n"@)),
        Err(e) => Err(why + e),
    }
}

/// What a settings file is to hold, `None` where it is to stay as it is, or what
/// is wrong with it.
pub open spec fn merged_file(
    agent: Seq<char>,
    existing: Seq<char>,
) -> Result<Option<Seq<char>>, Seq<char>> {
    match settings_of(existing) {
        Err(e) => Err(NOT_JSON@ + e),
        Ok(root) => match merged(agent, root) {
            Err(e) => Err(e),
            Ok(doc) => if complete(agent, root) {
                Ok(None)
            } else {
                file_of(doc, NOT_PRINTED@)
            },
        },
    }
}

/// The result in its mathematical form.
pub open spec fn file_seen(r: Result<Option<String>, String>) -> Result<
    Option<Seq<char>>,
    Seq<char>,
> {
    match r {
        Ok(Some(s)) => Ok(Some(s@)),
        Ok(None) => Ok(None),
        Err(e) => Err(e@),
    }
}

/// A message behind what it is about.
fn about(what: &str, message: &str) -> (r: String)
    ensures
        r@ == what@ + message@,
{
    let mut out = text::copy(what);
    out.append(message);
    out
}

/// The text of a document, with a line end.
fn print(doc: Json, why: &str) -> (r: Result<Option<String>, String>)
    ensures
        file_seen(r) == file_of(doc.view(), why@),
        json::tidy(doc.view(), 127) && json::integral(doc.view()) ==> (r matches Ok(Some(s))
            ==> json::reads_back(s@, doc.view())),
{
    match json::write(doc) {
        Ok(s) => {
            let mut s = s;
            s.append("\n");
            Ok(Some(s))
        },
        Err(e) => Err(about(why, e.as_str())),
    }
}

/// The document in the text that is to be written, as far as its numbers are integers,
/// gives that text itself nothing more to add.
pub open spec fn settles(
    agent: Seq<char>,
    doc: Result<json::JsonView, Seq<char>>,
    r: Result<Option<String>, String>,
) -> bool {
    doc is Ok && json::integral(doc->Ok_0) ==> (r matches Ok(Some(s)) ==> merged_file(agent, s@) == Ok::<
        Option<Seq<char>>,
        Seq<char>,
    >(None))
}

/// Merge our Stop and Notification hooks into the text of a settings file,
/// preserving everything else in the document. Returns `None` when every hook is
/// already present (nothing to write), as it is in the text this returns.
pub fn merged_settings(agent: &str, existing: &str) -> (r: Result<Option<String>, String>)
    ensures
        file_seen(r) == merged_file(agent@, existing@),
        settings_of(existing@) is Ok ==> settles(agent@, merged(agent@, settings_of(existing@)->Ok_0), r),
{
    let root = if text::is_blank(existing) {
        let members: Vec<Member> = Vec::new();
        assert(json::members_view(members@) =~= seq![]);
        Json::Object(members)
    } else {
        match json::read(existing) {
            Ok(root) => root,
            Err(e) => {
                return Err(about(NOT_JSON, e.as_str()));
            },
        }
    };
    let ghost held = root.view();
    assert(json::tidy(held, 127));
    match merge_hooks(agent, root) {
        Ok(m) => {
            if !m.changed {
                return Ok(None);
            }
            proof {
                lemma_merged_tidy(agent@, held, 127);
                merging_is_idempotent(agent@, held);
            }
            let ghost doc = m.doc.view();
            let r = print(m.doc, NOT_PRINTED);
            proof {
                if json::integral(doc) && r is Ok {
                    lemma_alike_complete(agent@, doc, json::parsed(r->Ok_0->0@)->Ok_0);
                }
            }
            r
        },
        Err(e) => Err(e),
    }
}

/// Hooks that are alike invoke the same commands.
proof fn lemma_alike_invokes(a: json::JsonView, b: json::JsonView, needle: Seq<char>)
    requires
        json::alike(a, b),
    ensures
        invokes(a, needle) == invokes(b, needle),
{
    if a is Object && b is Object {
        json::lemma_get_alike(a->Object_0, b->Object_0, "command"@);
    }
}

/// Entries that are alike invoke the same commands.
proof fn lemma_alike_has_command(a: json::JsonView, b: json::JsonView, needle: Seq<char>)
    requires
        json::alike(a, b),
    ensures
        has_command(a, needle) == has_command(b, needle),
{
    if a is Object && b is Object {
        json::lemma_get_alike(a->Object_0, b->Object_0, "hooks"@);
        match (json::get(a->Object_0, "hooks"@), json::get(b->Object_0, "hooks"@)) {
            (Some(json::JsonView::Array(x)), Some(json::JsonView::Array(y))) => {
                assert forall|i: int| 0 <= i < x.len() implies invokes(#[trigger] x[i], needle)
                    == invokes(y[i], needle) by {
                    lemma_alike_invokes(x[i], y[i], needle);
                }
                if has_command(b, needle) {
                    let i = choose|i: int| 0 <= i < y.len() && invokes(#[trigger] y[i], needle);
                    assert(invokes(x[i], needle));
                }
                if has_command(a, needle) {
                    let i = choose|i: int| 0 <= i < x.len() && invokes(#[trigger] x[i], needle);
                    assert(invokes(y[i], needle));
                }
            },
            _ => {},
        }
    }
}

/// Entries that are alike have the same commands installed.
proof fn lemma_alike_installed(x: Seq<json::JsonView>, y: Seq<json::JsonView>, command: Seq<char>)
    requires
        json::alike(json::JsonView::Array(x), json::JsonView::Array(y)),
    ensures
        installed(x, command) == installed(y, command),
{
    assert forall|i: int| 0 <= i < x.len() implies has_command(#[trigger] x[i], command)
        == has_command(y[i], command) by {
        lemma_alike_has_command(x[i], y[i], command);
    }
    if installed(y, command) {
        let i = choose|i: int| 0 <= i < y.len() && has_command(#[trigger] y[i], command);
        assert(has_command(x[i], command));
    }
    if installed(x, command) {
        let i = choose|i: int| 0 <= i < x.len() && has_command(#[trigger] x[i], command);
        assert(has_command(y[i], command));
    }
}

/// In documents that are alike the same hooks are there.
proof fn lemma_alike_complete(agent: Seq<char>, a: json::JsonView, b: json::JsonView)
    requires
        json::alike(a, b),
        complete(agent, a),
    ensures
        complete(agent, b),
        merged(agent, b) is Ok,
{
    json::lemma_get_alike(a->Object_0, b->Object_0, "hooks"@);
    let x = json::get(a->Object_0, "hooks"@)->0->Object_0;
    let y = json::get(b->Object_0, "hooks"@)->0->Object_0;
    json::lemma_get_alike(x, y, "Stop"@);
    json::lemma_get_alike(x, y, "Notification"@);
    let stop = entries_of(x, "Stop"@)->0;
    let notes = entries_of(x, "Notification"@)->0;
    assert(json::get(x, "Stop"@) is Some && json::get(x, "Notification"@) is Some);
    lemma_alike_installed(stop, entries_of(y, "Stop"@)->0, stop_command(agent));
    lemma_alike_installed(notes, entries_of(y, "Notification"@)->0, idle_command(agent));
    lemma_alike_installed(notes, entries_of(y, "Notification"@)->0, permission_command(agent));
}

/// Our entry is tidy.
proof fn lemma_our_entry_tidy(matcher: Option<&str>, command: Seq<char>, depth: nat)
    requires
        depth >= 3,
    ensures
        json::tidy(our_entry(matcher, command), depth),
{
    reveal_strlit("type");
    reveal_strlit("command");
    reveal_strlit("timeout");
    reveal_strlit("hooks");
    reveal_strlit("matcher");
    assert("command"@[0] != "timeout"@[0]);
    assert("type"@.len() != "command"@.len());
    assert("hooks"@.len() != "matcher"@.len());
    let hook = our_hook(command);
    assert(json::tidy(hook, (depth - 2) as nat)) by {
        let members = hook->Object_0;
        assert(members[0].key == "type"@ && members[1].key == "command"@);
        assert(members[2].key == "timeout"@);
        assert forall|i: int| 0 <= i < members.len() implies json::tidy(
            (#[trigger] members[i]).value,
            (depth - 3) as nat,
        ) by {
            assert(!(members[i].value is Array) && !(members[i].value is Object));
        }
    }
    let hooks = json::JsonView::Array(seq![hook]);
    assert(json::tidy(hooks, (depth - 1) as nat)) by {
        assert(hooks->Array_0[0] == hook);
    }
    let members = our_entry(matcher, command)->Object_0;
    assert forall|i: int| 0 <= i < members.len() implies json::tidy(
        (#[trigger] members[i]).value,
        (depth - 1) as nat,
    ) by {
        if i == 0 {
            assert(members[i].value == hooks);
        }
    }
}

/// Hooks with one more entry are tidy.
proof fn lemma_with_hook_tidy(
    hooks: Seq<json::MemberView>,
    event: Seq<char>,
    matcher: Option<&str>,
    command: Seq<char>,
    depth: nat,
)
    requires
        depth >= 5,
        json::tidy(json::JsonView::Object(hooks), depth),
        entries_of(hooks, event) is Some,
    ensures
        json::tidy(json::JsonView::Object(with_hook(hooks, event, matcher, command)), depth),
{
    json::lemma_get_tidy(hooks, event, depth);
    let entries = entries_of(hooks, event)->0;
    let more = entries.push(our_entry(matcher, command));
    lemma_our_entry_tidy(matcher, command, (depth - 2) as nat);
    assert(json::tidy(json::JsonView::Array(more), (depth - 1) as nat)) by {
        assert forall|i: int| 0 <= i < more.len() implies json::tidy(
            #[trigger] more[i],
            (depth - 2) as nat,
        ) by {
            if i < entries.len() {
                assert(more[i] == entries[i]);
            }
        }
    }
    json::lemma_set_tidy(hooks, event, json::JsonView::Array(more), depth);
}

/// A tidy document stays so when our hooks are merged in.
proof fn lemma_merged_tidy(agent: Seq<char>, root: json::JsonView, depth: nat)
    requires
        depth >= 6,
        json::tidy(root, depth),
        merged(agent, root) is Ok,
    ensures
        json::tidy(merged(agent, root)->Ok_0, depth),
{
    let members = root->Object_0;
    let hooks = match json::get(members, "hooks"@) {
        Some(json::JsonView::Object(hooks)) => hooks,
        _ => seq![],
    };
    reveal_strlit("Stop");
    reveal_strlit("Notification");
    assert("Stop"@.len() != "Notification"@.len());
    json::lemma_get_tidy(members, "hooks"@, depth);
    let d = (depth - 1) as nat;
    assert(json::tidy(json::JsonView::Object(hooks), d));
    if json::get(members, "hooks"@) is None {
        json::lemma_position(hooks, "Stop"@);
        json::lemma_position(hooks, "Notification"@);
    }
    let a = with_hook(hooks, "Stop"@, None, stop_command(agent));
    let b = with_hook(a, "Notification"@, Some("idle_prompt"), idle_command(agent));
    lemma_with_hook(hooks, "Stop"@, None, stop_command(agent), "Notification"@);
    lemma_with_hook(a, "Notification"@, Some("idle_prompt"), idle_command(agent), "Stop"@);
    lemma_with_hook_tidy(hooks, "Stop"@, None, stop_command(agent), d);
    lemma_with_hook_tidy(a, "Notification"@, Some("idle_prompt"), idle_command(agent), d);
    lemma_with_hook_tidy(
        b,
        "Notification"@,
        Some("permission_prompt"),
        permission_command(agent),
        d,
    );
    json::lemma_set_tidy(members, "hooks"@, json::JsonView::Object(all_hooks(agent, hooks)), depth);
}

/// A hook with exactly this command.
pub open spec fn runs(hook: json::JsonView, command: Seq<char>) -> bool {
    match hook {
        json::JsonView::Object(members) => json::get(members, "command"@) == Some(
            json::JsonView::Text(command),
        ),
        _ => false,
    }
}

/// An entry of a hook array whose one hook has exactly this command.
pub open spec fn is_ours(entry: json::JsonView, command: Seq<char>) -> bool {
    match entry {
        json::JsonView::Object(members) => match json::get(members, "hooks"@) {
            Some(json::JsonView::Array(hooks)) => hooks.len() == 1 && runs(hooks[0], command),
            _ => false,
        },
        _ => false,
    }
}

/// Some entry is ours.
pub open spec fn holds_ours(entries: Seq<json::JsonView>, command: Seq<char>) -> bool {
    exists|i: int| 0 <= i < entries.len() && is_ours(#[trigger] entries[i], command)
}

/// Whether a hook has exactly this command.
fn hook_runs(hook: &Json, command: &str) -> (r: bool)
    ensures
        r == runs(hook.view(), command@),
{
    match hook {
        Json::Object(members) => match json::find(members, "command") {
            Some(at) => {
                assert(json::members_view(members@)[at as int] == members@[at as int].view());
                let value = &members[at].value;
                assert(json::get(json::members_view(members@), "command"@) == Some(value.view()));
                match value {
                    Json::Text(held) => text::same(held.as_str(), command),
                    _ => {
                        assert(value.view() !is Text);
                        false
                    },
                }
            },
            None => false,
        },
        _ => false,
    }
}

/// Whether an entry's one hook has exactly this command.
pub fn entry_is_ours(entry: &Json, command: &str) -> (r: bool)
    ensures
        r == is_ours(entry.view(), command@),
{
    match entry {
        Json::Object(members) => match json::find(members, "hooks") {
            Some(at) => {
                assert(json::members_view(members@)[at as int] == members@[at as int].view());
                let value = &members[at].value;
                assert(json::get(json::members_view(members@), "hooks"@) == Some(value.view()));
                match value {
                    Json::Array(hooks) => {
                        assert(value.view() == json::JsonView::Array(json::items_view(hooks@)));
                        assert(json::items_view(hooks@).len() == hooks@.len());
                        hooks.len() == 1 && hook_runs(&hooks[0], command)
                    },
                    _ => {
                        assert(value.view() !is Array);
                        false
                    },
                }
            },
            None => false,
        },
        _ => false,
    }
}

/// Whether some entry is ours.
fn any_ours(entries: &Vec<Json>, command: &str) -> (r: bool)
    ensures
        r == holds_ours(json::items_view(entries@), command@),
{
    let ghost all = json::items_view(entries@);
    let mut i: usize = 0;
    while i < entries.len()
        invariant
            i <= entries.len(),
            all == json::items_view(entries@),
            forall|k: int| 0 <= k < i ==> !is_ours(#[trigger] all[k], command@),
        decreases entries.len() - i,
    {
        assert(all[i as int] == entries@[i as int].view());
        if entry_is_ours(&entries[i], command) {
            return true;
        }
        i = i + 1;
    }
    false
}

/// The entries that are not our Stop entry.
pub open spec fn foreign(agent: Seq<char>, entries: Seq<json::JsonView>) -> Seq<json::JsonView>
    decreases entries.len(),
{
    if entries.len() == 0 {
        seq![]
    } else if is_ours(entries.last(), stop_command(agent)) {
        foreign(agent, entries.drop_last())
    } else {
        foreign(agent, entries.drop_last()).push(entries.last())
    }
}

/// The entries of the Stop event of a document.
pub open spec fn stop_entries(root: json::JsonView) -> Option<Seq<json::JsonView>> {
    match root {
        json::JsonView::Object(members) => match json::get(members, "hooks"@) {
            Some(json::JsonView::Object(hooks)) => match json::get(hooks, "Stop"@) {
                Some(json::JsonView::Array(entries)) => Some(entries),
                _ => None,
            },
            _ => None,
        },
        _ => None,
    }
}

/// The hooks with only foreign Stop entries, and without the event where none is
/// left.
pub open spec fn cleaned_hooks(
    agent: Seq<char>,
    hooks: Seq<json::MemberView>,
) -> Seq<json::MemberView> {
    let entries = json::get(hooks, "Stop"@)->0->Array_0;
    if foreign(agent, entries).len() == 0 {
        hooks.remove(json::position(hooks, "Stop"@))
    } else {
        json::set(hooks, "Stop"@, json::JsonView::Array(foreign(agent, entries)))
    }
}

/// A document without our Stop hook, or `None` where there is nothing of ours.
pub open spec fn cleaned(agent: Seq<char>, root: json::JsonView) -> Option<json::JsonView> {
    match stop_entries(root) {
        Some(entries) => if holds_ours(entries, stop_command(agent)) {
            let members = root->Object_0;
            let hooks = json::get(members, "hooks"@)->0->Object_0;
            Some(with_hooks(members, cleaned_hooks(agent, hooks)))
        } else {
            None
        },
        None => None,
    }
}

/// The entries that are not our Stop entry.
fn foreign_entries(agent: &str, entries: Vec<Json>) -> (r: Vec<Json>)
    ensures
        json::items_view(r@) == foreign(agent@, json::items_view(entries@)),
{
    let ghost all = json::items_view(entries@);
    let mut rest = entries;
    let mut kept: Vec<Json> = Vec::new();
    assert(all.take(all.len() as int) =~= all);
    assert(foreign(agent@, all) + json::items_view(kept@).reverse() =~= foreign(agent@, all));
    // Last to first: what is kept stands in reverse order.
    while rest.len() > 0
        invariant
            rest@.len() <= all.len(),
            json::items_view(rest@) == all.take(rest@.len() as int),
            foreign(agent@, all) == foreign(agent@, all.take(rest@.len() as int)) + json::items_view(
                kept@,
            ).reverse(),
        decreases rest.len(),
    {
        let ghost n = rest@.len() as int;
        let ghost so_far = json::items_view(kept@);
        assert(json::items_view(rest@).last() == rest@.last().view());
        assert(all.take(n).drop_last() =~= all.take(n - 1));
        match rest.pop() {
            Some(entry) => {
                assert(all.take(n).last() == entry.view());
                if !entry_is_ours(&entry, hook_command(agent, "-stop-hook").as_str()) {
                    let ghost v = entry.view();
                    json::push_item(&mut kept, entry);
                    assert(json::items_view(kept@).reverse() =~= seq![v] + so_far.reverse());
                    assert(foreign(agent@, all.take(n - 1)).push(v) + so_far.reverse() =~= foreign(
                        agent@,
                        all.take(n - 1),
                    ) + (seq![v] + so_far.reverse()));
                }
            },
            None => {},
        }
        assert(json::items_view(rest@) =~= all.take(n - 1));
    }
    assert(all.take(0) =~= seq![]);
    let ghost backwards = json::items_view(kept@);
    assert(foreign(agent@, all) =~= backwards.reverse());
    let mut out: Vec<Json> = Vec::new();
    assert(json::items_view(out@) =~= backwards.reverse().take(0));
    while kept.len() > 0
        invariant
            kept@.len() + out@.len() == backwards.len(),
            json::items_view(kept@) == backwards.take(kept@.len() as int),
            json::items_view(out@) == backwards.reverse().take(out@.len() as int),
        decreases kept.len(),
    {
        let ghost n = kept@.len() as int;
        assert(json::items_view(kept@).last() == kept@.last().view());
        match kept.pop() {
            Some(entry) => {
                assert(entry.view() == backwards[n - 1]);
                json::push_item(&mut out, entry);
                assert(json::items_view(out@).len() == out@.len());
                assert(backwards.reverse()[out@.len() - 1] == backwards[n - 1]);
                assert(json::items_view(out@) =~= backwards.reverse().take(out@.len() as int));
            },
            None => {},
        }
        assert(json::items_view(kept@) =~= backwards.take(n - 1));
    }
    assert(json::items_view(out@) =~= backwards.reverse());
    out
}

/// Strip our Stop-hook entry from a global settings document. `None` when there
/// was nothing of ours. Drops an emptied `hooks.Stop` array to avoid leaving
/// clutter.
pub fn without_hook(agent: &str, root: Json) -> (r: Option<Json>)
    ensures
        match r {
            Some(doc) => cleaned(agent@, root.view()) == Some(doc.view()),
            None => cleaned(agent@, root.view()) is None,
        },
{
    let mut members = match root {
        Json::Object(members) => members,
        _ => {
            return None;
        },
    };
    let ghost before = json::members_view(members@);
    let at: usize = match json::find(&members, "hooks") {
        Some(at) => at,
        None => {
            return None;
        },
    };
    let member = members.remove(at);
    assert(before[at as int] == member.view());
    let value = member.value;
    assert(json::get(before, "hooks"@) == Some(value.view()));
    let mut hooks = match value {
        Json::Object(hooks) => hooks,
        _ => {
            assert(value.view() !is Object);
            return None;
        },
    };
    let ghost held = json::members_view(hooks@);
    assert(value.view() == json::JsonView::Object(held));
    let stop: usize = match json::find(&hooks, "Stop") {
        Some(stop) => stop,
        None => {
            return None;
        },
    };
    let stop_member = hooks.remove(stop);
    assert(held[stop as int] == stop_member.view());
    let stop_value = stop_member.value;
    assert(json::get(held, "Stop"@) == Some(stop_value.view()));
    let entries = match stop_value {
        Json::Array(entries) => entries,
        _ => {
            assert(stop_value.view() !is Array);
            return None;
        },
    };
    assert(stop_value.view() == json::JsonView::Array(json::items_view(entries@)));
    let stop_hook = hook_command(agent, "-stop-hook");
    if !any_ours(&entries, stop_hook.as_str()) {
        return None;
    }
    let kept = foreign_entries(agent, entries);
    // Tidy up an array we've emptied.
    if kept.len() == 0 {
        assert(json::items_view(kept@).len() == 0);
        assert(json::members_view(hooks@) =~= held.remove(stop as int));
    } else {
        assert(json::items_view(kept@).len() == kept@.len());
        let now = json::member("Stop", Json::Array(kept));
        hooks.insert(stop, now);
        assert(json::members_view(hooks@) =~= json::set(held, "Stop"@, now.value.view()));
    }
    let now = json::member("hooks", Json::Object(hooks));
    members.insert(at, now);
    assert(json::members_view(members@) =~= json::set(before, "hooks"@, now.value.view()));
    Some(Json::Object(members))
}

pub const GLOBAL_NOT_JSON: &'static str = "settings.json is not valid JSON: ";

pub const GLOBAL_NOT_PRINTED: &'static str = "failed to serialize settings.json: ";

/// What a global settings file is to hold, `None` where it is to stay as it is,
/// or what is wrong with it.
pub open spec fn cleaned_file(
    agent: Seq<char>,
    existing: Seq<char>,
) -> Result<Option<Seq<char>>, Seq<char>> {
    if text::trim(existing).len() == 0 {
        Ok(None)
    } else {
        match json::parsed(existing) {
            Err(e) => Err(GLOBAL_NOT_JSON@ + e),
            Ok(root) => match cleaned(agent, root) {
                Some(doc) => file_of(doc, GLOBAL_NOT_PRINTED@),
                None => Ok(None),
            },
        }
    }
}

/// Strip our Stop-hook entry from the text of a global settings file. Returns the
/// rewritten document when an entry was removed, `None` when there was nothing of
/// ours, as there is not in the text this returns (said where every number in the
/// document to be written is an integer).
pub fn without_global_hook(agent: &str, existing: &str) -> (r: Result<Option<String>, String>)
    ensures
        file_seen(r) == cleaned_file(agent@, existing@),
        r matches Ok(Some(s)) ==> (json::integral(cleaned(agent@, json::parsed(existing@)->Ok_0)->0)
            ==> cleaned_file(agent@, s@) == Ok::<Option<Seq<char>>, Seq<char>>(None)),
{
    if text::is_blank(existing) {
        return Ok(None);
    }
    let root = match json::read(existing) {
        Ok(root) => root,
        Err(e) => {
            return Err(about(GLOBAL_NOT_JSON, e.as_str()));
        },
    };
    let ghost held = root.view();
    match without_hook(agent, root) {
        Some(doc) => {
            let ghost written = doc.view();
            proof {
                lemma_cleaned(agent@, held, 127);
            }
            let r = print(doc, GLOBAL_NOT_PRINTED);
            proof {
                if json::integral(written) && r is Ok {
                    lemma_alike_cleaned(agent@, written, json::parsed(r->Ok_0->0@)->Ok_0);
                }
            }
            r
        },
        None => Ok(None),
    }
}

/// Entries that are alike hold ours, or neither does.
proof fn lemma_alike_ours(x: Seq<json::JsonView>, y: Seq<json::JsonView>, command: Seq<char>)
    requires
        json::alike(json::JsonView::Array(x), json::JsonView::Array(y)),
    ensures
        holds_ours(x, command) == holds_ours(y, command),
{
    assert forall|i: int| 0 <= i < x.len() implies is_ours(#[trigger] x[i], command) == is_ours(
        y[i],
        command,
    ) by {
        lemma_alike_is_ours(x[i], y[i], command);
    }
    if holds_ours(y, command) {
        let i = choose|i: int| 0 <= i < y.len() && is_ours(#[trigger] y[i], command);
        assert(is_ours(x[i], command));
    }
    if holds_ours(x, command) {
        let i = choose|i: int| 0 <= i < x.len() && is_ours(#[trigger] x[i], command);
        assert(is_ours(y[i], command));
    }
}

/// Of entries that are alike, both are ours or neither is.
proof fn lemma_alike_is_ours(a: json::JsonView, b: json::JsonView, command: Seq<char>)
    requires
        json::alike(a, b),
    ensures
        is_ours(a, command) == is_ours(b, command),
{
    if a is Object && b is Object {
        json::lemma_get_alike(a->Object_0, b->Object_0, "hooks"@);
        match (json::get(a->Object_0, "hooks"@), json::get(b->Object_0, "hooks"@)) {
            (Some(json::JsonView::Array(x)), Some(json::JsonView::Array(y))) => {
                if x.len() == 1 {
                    assert(json::alike(x[0], y[0]));
                    if x[0] is Object && y[0] is Object {
                        json::lemma_get_alike(x[0]->Object_0, y[0]->Object_0, "command"@);
                    }
                }
            },
            _ => {},
        }
    }
}

/// Where nothing of ours is in a document, nothing of ours is in one that is alike.
proof fn lemma_alike_cleaned(agent: Seq<char>, a: json::JsonView, b: json::JsonView)
    requires
        json::alike(a, b),
        cleaned(agent, a) is None,
    ensures
        cleaned(agent, b) is None,
{
    if a is Object && b is Object {
        json::lemma_get_alike(a->Object_0, b->Object_0, "hooks"@);
        match (json::get(a->Object_0, "hooks"@), json::get(b->Object_0, "hooks"@)) {
            (Some(json::JsonView::Object(x)), Some(json::JsonView::Object(y))) => {
                json::lemma_get_alike(x, y, "Stop"@);
                match (json::get(x, "Stop"@), json::get(y, "Stop"@)) {
                    (Some(json::JsonView::Array(p)), Some(json::JsonView::Array(q))) => {
                        lemma_alike_ours(p, q, stop_command(agent));
                    },
                    _ => {},
                }
            },
            _ => {},
        }
    }
}

/// A cleaned document is tidy, and there is nothing more of ours in it.
proof fn lemma_cleaned(agent: Seq<char>, root: json::JsonView, depth: nat)
    requires
        depth >= 3,
        json::tidy(root, depth),
        cleaned(agent, root) is Some,
    ensures
        json::tidy(cleaned(agent, root)->0, depth),
        cleaned(agent, cleaned(agent, root)->0) is None,
{
    let members = root->Object_0;
    let hooks = json::get(members, "hooks"@)->0->Object_0;
    let entries = json::get(hooks, "Stop"@)->0->Array_0;
    let kept = foreign(agent, entries);
    let d = (depth - 1) as nat;
    json::lemma_get_tidy(members, "hooks"@, depth);
    json::lemma_get_tidy(hooks, "Stop"@, d);
    json::lemma_position(hooks, "Stop"@);
    lemma_foreign(agent, entries);
    let at = json::position(hooks, "Stop"@);
    let next = cleaned_hooks(agent, hooks);
    if kept.len() == 0 {
        assert forall|i: int, j: int| 0 <= i < j < next.len() implies (#[trigger] next[i]).key
            != (#[trigger] next[j]).key by {
            let p = if i < at { i } else { i + 1 };
            let q = if j < at { j } else { j + 1 };
            assert(next[i] == hooks[p] && next[j] == hooks[q]);
        }
        assert forall|i: int| 0 <= i < next.len() implies json::tidy(
            (#[trigger] next[i]).value,
            (d - 1) as nat,
        ) && next[i].key != "Stop"@ by {
            let p = if i < at { i } else { i + 1 };
            assert(next[i] == hooks[p]);
            assert(hooks[at].key == "Stop"@);
        }
        json::lemma_position_is(next, "Stop"@, next.len() as int);
    } else {
        let held = json::JsonView::Array(kept);
        lemma_foreign_tidy(agent, entries, (d - 1) as nat);
        json::lemma_set_tidy(hooks, "Stop"@, held, d);
        json::lemma_set_get(hooks, "Stop"@, held, "Stop"@);
    }
    let now = json::JsonView::Object(next);
    assert(json::tidy(now, d));
    json::lemma_set_tidy(members, "hooks"@, now, depth);
    json::lemma_set_get(members, "hooks"@, now, "hooks"@);
}

/// What is kept of entries comes from them.
proof fn lemma_foreign_among(agent: Seq<char>, entries: Seq<json::JsonView>)
    ensures
        forall|i: int|
            0 <= i < foreign(agent, entries).len() ==> entries.contains(#[trigger] foreign(agent, entries)[i]),
    decreases entries.len(),
{
    if entries.len() > 0 {
        let rest = entries.drop_last();
        lemma_foreign_among(agent, rest);
        let kept = foreign(agent, entries);
        assert forall|i: int| 0 <= i < kept.len() implies entries.contains(#[trigger] kept[i]) by {
            if i < foreign(agent, rest).len() {
                assert(kept[i] == foreign(agent, rest)[i]);
                let k = choose|k: int| 0 <= k < rest.len() && rest[k] == kept[i];
                assert(entries[k] == kept[i]);
            } else {
                assert(entries[entries.len() - 1] == kept[i]);
            }
        }
    }
}

/// What is kept of tidy entries is tidy.
proof fn lemma_foreign_tidy(agent: Seq<char>, entries: Seq<json::JsonView>, depth: nat)
    requires
        json::tidy(json::JsonView::Array(entries), depth),
    ensures
        json::tidy(json::JsonView::Array(foreign(agent, entries)), depth),
{
    let kept = foreign(agent, entries);
    lemma_foreign_among(agent, entries);
    assert forall|i: int| 0 <= i < kept.len() implies json::tidy(
        #[trigger] kept[i],
        (depth - 1) as nat,
    ) by {
        assert(entries.contains(kept[i]));
        let k = choose|k: int| 0 <= k < entries.len() && entries[k] == kept[i];
        assert(0 <= k < entries.len());
        json::lemma_item_tidy(entries, k, depth);
    }
}

/// An entry that we add invokes its command.
proof fn lemma_our_entry(matcher: Option<&str>, command: Seq<char>)
    ensures
        has_command(our_entry(matcher, command), command),
{
    reveal_strlit("type");
    reveal_strlit("command");
    reveal_strlit("hooks");
    assert("type"@.len() != "command"@.len());
    let members = our_hook(command)->Object_0;
    json::lemma_position_is(members, "command"@, 1);
    assert(text::at(command, command, 0)) by {
        assert(command.subrange(0, command.len() as int) =~= command);
    }
    let entry = our_entry(matcher, command)->Object_0;
    json::lemma_position_is(entry, "hooks"@, 0);
    let hooks = seq![our_hook(command)];
    let found = json::get(entry, "hooks"@)->0->Array_0;
    assert(found == hooks);
    assert(invokes(found[0], command));
}

/// Once a hook is ensured it is installed, and hooks that were installed stay so.
proof fn lemma_ensured(
    hooks: Seq<json::MemberView>,
    event: Seq<char>,
    matcher: Option<&str>,
    command: Seq<char>,
    other: Seq<char>,
    theirs: Seq<char>,
)
    requires
        entries_of(hooks, event) is Some,
        entries_of(hooks, other) is Some,
    ensures
        ({
            let next = with_hook(hooks, event, matcher, command);
            &&& entries_of(next, event) is Some && installed(entries_of(next, event)->0, command)
            &&& entries_of(next, other) is Some
            &&& installed(entries_of(hooks, other)->0, theirs) ==> installed(
                entries_of(next, other)->0,
                theirs,
            )
        }),
{
    let next = with_hook(hooks, event, matcher, command);
    lemma_with_hook(hooks, event, matcher, command, other);
    lemma_our_entry(matcher, command);
    let entries = entries_of(hooks, event)->0;
    if !installed(entries, command) {
        let now = entries.push(our_entry(matcher, command));
        assert(now[entries.len() as int] == our_entry(matcher, command));
    }
    if installed(entries_of(hooks, other)->0, theirs) {
        let held = entries_of(hooks, other)->0;
        let i = choose|i: int| 0 <= i < held.len() && has_command(#[trigger] held[i], theirs);
        if other == event {
            assert(entries_of(next, event)->0[i] == held[i]);
        }
    }
}

/// Merging our hooks into a document twice changes nothing more: after the first
/// time they are all there.
pub proof fn merging_is_idempotent(agent: Seq<char>, root: json::JsonView)
    requires
        merged(agent, root) is Ok,
    ensures
        complete(agent, merged(agent, root)->Ok_0),
        merged(agent, merged(agent, root)->Ok_0) is Ok,
{
    let members = root->Object_0;
    let hooks = match json::get(members, "hooks"@) {
        Some(json::JsonView::Object(hooks)) => hooks,
        _ => seq![],
    };
    reveal_strlit("Stop");
    reveal_strlit("Notification");
    assert("Stop"@.len() != "Notification"@.len());
    if json::get(members, "hooks"@) is None {
        json::lemma_position(hooks, "Stop"@);
        json::lemma_position(hooks, "Notification"@);
    }
    let a = with_hook(hooks, "Stop"@, None, stop_command(agent));
    let b = with_hook(a, "Notification"@, Some("idle_prompt"), idle_command(agent));
    let c = with_hook(b, "Notification"@, Some("permission_prompt"), permission_command(agent));
    lemma_ensured(hooks, "Stop"@, None, stop_command(agent), "Notification"@, seq![]);
    lemma_ensured(
        a,
        "Notification"@,
        Some("idle_prompt"),
        idle_command(agent),
        "Stop"@,
        stop_command(agent),
    );
    lemma_ensured(
        b,
        "Notification"@,
        Some("permission_prompt"),
        permission_command(agent),
        "Stop"@,
        stop_command(agent),
    );
    lemma_ensured(
        b,
        "Notification"@,
        Some("permission_prompt"),
        permission_command(agent),
        "Notification"@,
        idle_command(agent),
    );
    json::lemma_set_get(members, "hooks"@, json::JsonView::Object(c), "hooks"@);
}

/// Merging our hooks in preserves everything else in the document: every other
/// member of it, and every other event among the hooks.
pub proof fn merging_preserves_everything_else(
    agent: Seq<char>,
    root: json::JsonView,
    key: Seq<char>,
    event: Seq<char>,
)
    requires
        merged(agent, root) is Ok,
        key != "hooks"@,
        event != "Stop"@ && event != "Notification"@,
    ensures
        merged(agent, root)->Ok_0 is Object,
        json::get(merged(agent, root)->Ok_0->Object_0, key) == json::get(root->Object_0, key),
        ({
            let before = match json::get(root->Object_0, "hooks"@) {
                Some(json::JsonView::Object(hooks)) => json::get(hooks, event),
                _ => None,
            };
            match json::get(merged(agent, root)->Ok_0->Object_0, "hooks"@) {
                Some(json::JsonView::Object(hooks)) => json::get(hooks, event) == before,
                _ => false,
            }
        }),
{
    let members = root->Object_0;
    let hooks = match json::get(members, "hooks"@) {
        Some(json::JsonView::Object(hooks)) => hooks,
        _ => seq![],
    };
    reveal_strlit("Stop");
    reveal_strlit("Notification");
    assert("Stop"@.len() != "Notification"@.len());
    if json::get(members, "hooks"@) is None {
        json::lemma_position(hooks, "Stop"@);
        json::lemma_position(hooks, "Notification"@);
        json::lemma_position(hooks, event);
    }
    let a = with_hook(hooks, "Stop"@, None, stop_command(agent));
    let b = with_hook(a, "Notification"@, Some("idle_prompt"), idle_command(agent));
    lemma_with_hook(hooks, "Stop"@, None, stop_command(agent), event);
    lemma_with_hook(hooks, "Stop"@, None, stop_command(agent), "Notification"@);
    lemma_with_hook(a, "Notification"@, Some("idle_prompt"), idle_command(agent), event);
    lemma_with_hook(b, "Notification"@, Some("permission_prompt"), permission_command(agent), event);
    let c = with_hook(b, "Notification"@, Some("permission_prompt"), permission_command(agent));
    json::lemma_set_get(members, "hooks"@, json::JsonView::Object(c), key);
}

proof fn lemma_foreign(agent: Seq<char>, entries: Seq<json::JsonView>)
    ensures
        forall|i: int|
            0 <= i < foreign(agent, entries).len() ==> !is_ours(
                #[trigger] foreign(agent, entries)[i],
                stop_command(agent),
            ),
        forall|i: int|
            0 <= i < entries.len() && !is_ours(#[trigger] entries[i], stop_command(agent))
                ==> foreign(agent, entries).contains(entries[i]),
    decreases entries.len(),
{
    if entries.len() > 0 {
        let rest = entries.drop_last();
        lemma_foreign(agent, rest);
        assert forall|i: int|
            0 <= i < entries.len() && !is_ours(
                #[trigger] entries[i],
                stop_command(agent),
            ) implies foreign(agent, entries).contains(entries[i]) by {
            let kept = foreign(agent, entries);
            if i < rest.len() {
                assert(rest[i] == entries[i]);
                let k = choose|k: int| 0 <= k < foreign(agent, rest).len() && foreign(agent, rest)[k] == rest[i];
                assert(kept[k] == entries[i]);
            } else {
                assert(kept[kept.len() - 1] == entries[i]);
            }
        }
    }
}

/// Cleaning a global settings document removes our Stop entry and no other, not even
/// one that has a hook of ours beside a foreign one: what is left of the Stop event
/// holds nothing of ours and everything foreign, and every other member stays.
pub proof fn cleaning_removes_only_our_entry(
    agent: Seq<char>,
    root: json::JsonView,
    key: Seq<char>,
    i: int,
)
    requires
        cleaned(agent, root) is Some,
        key != "hooks"@,
        0 <= i < stop_entries(root)->0.len(),
    ensures
        cleaned(agent, root)->0 is Object,
        json::get(cleaned(agent, root)->0->Object_0, key) == json::get(root->Object_0, key),
        foreign(agent, stop_entries(root)->0).len() > 0 ==> stop_entries(cleaned(agent, root)->0) == Some(
            foreign(agent, stop_entries(root)->0),
        ),
        foreign(agent, stop_entries(root)->0).contains(stop_entries(root)->0[i]) == !is_ours(
            stop_entries(root)->0[i],
            stop_command(agent),
        ),
{
    let members = root->Object_0;
    let hooks = json::get(members, "hooks"@)->0->Object_0;
    let entries = stop_entries(root)->0;
    json::lemma_set_get(members, "hooks"@, json::JsonView::Object(cleaned_hooks(agent, hooks)), key);
    json::lemma_set_get(hooks, "Stop"@, json::JsonView::Array(foreign(agent, entries)), key);
    lemma_foreign(agent, entries);
    if foreign(agent, entries).contains(entries[i]) {
        let k = choose|k: int| 0 <= k < foreign(agent, entries).len() && foreign(agent, entries)[k] == entries[i];
        assert(!is_ours(foreign(agent, entries)[k], stop_command(agent)));
    }
}

/// Once a file is excluded from git it stays so: adding it makes it excluded, and it
/// is not added twice. (A path that has blanks at its ends, or more than one line, is
/// not read back as it was written.)
pub proof fn excluding_takes_effect(current: Seq<char>, rel: Seq<char>)
    requires
        text::one_line(rel),
        text::trim(rel) == rel,
        rel.len() > 0,
    ensures
        excludes(excluding(current, rel), rel),
{
    let head = if current.len() > 0 && current.last() != '\n' {
        current + "\n"@
    } else {
        current
    };
    reveal_strlit("\n");
    let line = rel + "\n"@;
    assert(excluding(current, rel) =~= head + line);
    text::lemma_one_line(rel);
    text::lemma_trim_is_solid(rel);
    assert(line =~= rel.push('\n'));
    assert(text::lines(line) == seq![rel]);
    let all = text::lines(excluding(current, rel));
    if head.len() > 0 {
        assert(head.last() == '\n');
        text::lemma_lines_append(head, line);
        assert(all[text::lines(head).len() as int] == rel);
    } else {
        assert(head + line =~= line);
        assert(all[0] == rel);
    }
}

} // verus!
