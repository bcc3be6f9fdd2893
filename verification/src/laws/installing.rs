//! The skill and the hooks: what is installed, kept and taken out.

use vstd::prelude::*;

use crate::install::{self, Merged, SkillAction};
use crate::json::{self, Json, JsonView, Member, MemberView};
use crate::text;

verus! {

/// The first member of this key has this value.
pub open spec fn has(members: Seq<MemberView>, key: Seq<char>, value: JsonView) -> bool {
    exists|i: int|
        #![trigger members[i]]
        0 <= i < members.len() && members[i].key == key && members[i].value == value && (forall|
            j: int,
        |
            0 <= j < i ==> (#[trigger] members[j]).key != key)
}

/// No member has this key.
pub open spec fn lacks(members: Seq<MemberView>, key: Seq<char>) -> bool {
    forall|j: int| 0 <= j < members.len() ==> (#[trigger] members[j]).key != key
}

pub proof fn lemma_has(members: Seq<MemberView>, key: Seq<char>, value: JsonView)
    ensures
        has(members, key, value) <==> json::get(members, key) == Some(value),
        lacks(members, key) <==> json::get(members, key) is None,
{
    json::lemma_position(members, key);
    let at = json::position(members, key);
    if has(members, key, value) {
        let i = choose|i: int|
            #![trigger members[i]]
            0 <= i < members.len() && members[i].key == key && members[i].value == value && (
            forall|j: int| 0 <= j < i ==> (#[trigger] members[j]).key != key);
        json::lemma_position_is(members, key, i);
    }
    if lacks(members, key) {
        json::lemma_position_is(members, key, members.len() as int);
    }
    if at < members.len() {
        assert(members[at].key == key);
    } else {
        assert forall|j: int| 0 <= j < members.len() implies (#[trigger] members[j]).key != key by {}
    }
}

/// The entry calls a command that holds this text.
pub open spec fn calls(entry: JsonView, needle: Seq<char>) -> bool {
    exists|hooks: Seq<JsonView>, k: int, command: Seq<char>|
        #![trigger called(entry, hooks, k, command)]
        called(entry, hooks, k, command) && text::contains(command, needle)
}

/// The entry's hooks are these, and the `k`th runs this command.
pub open spec fn called(
    entry: JsonView,
    hooks: Seq<JsonView>,
    k: int,
    command: Seq<char>,
) -> bool {
    &&& entry is Object
    &&& has(entry->Object_0, "hooks"@, JsonView::Array(hooks))
    &&& 0 <= k < hooks.len()
    &&& hooks[k] is Object
    &&& has(hooks[k]->Object_0, "command"@, JsonView::Text(command))
}

proof fn lemma_calls(entry: JsonView, needle: Seq<char>)
    ensures
        calls(entry, needle) <==> install::has_command(entry, needle),
{
    if calls(entry, needle) {
        let (hooks, k, command) = choose|hooks: Seq<JsonView>, k: int, command: Seq<char>|
            #![trigger called(entry, hooks, k, command)]
            called(entry, hooks, k, command) && text::contains(command, needle);
        lemma_has(entry->Object_0, "hooks"@, JsonView::Array(hooks));
        lemma_has(hooks[k]->Object_0, "command"@, JsonView::Text(command));
        assert(install::invokes(hooks[k], needle));
    }
    if install::has_command(entry, needle) {
        let hooks = json::get(entry->Object_0, "hooks"@)->0->Array_0;
        let k = choose|k: int| 0 <= k < hooks.len() && install::invokes(#[trigger] hooks[k], needle);
        let command = json::get(hooks[k]->Object_0, "command"@)->0->Text_0;
        lemma_has(entry->Object_0, "hooks"@, JsonView::Array(hooks));
        lemma_has(hooks[k]->Object_0, "command"@, JsonView::Text(command));
        assert(called(entry, hooks, k, command));
    }
}

/// An entry has a command where one of its hooks runs one that holds it; it is ours where
/// its only hook runs exactly that.
pub proof fn entries_are_told_by_their_commands(
    entry: &Json,
    needle: &str,
    r: bool,
    command: &str,
    ours: bool,
)
    requires
        call_ensures(install::entry_has_command, (entry, needle), r),
        call_ensures(install::entry_is_ours, (entry, command), ours),
    ensures
        r <==> calls(entry.view(), needle@),
        ours <==> exists|hooks: Seq<JsonView>| #[trigger]
            called(entry.view(), hooks, 0, command@) && hooks.len() == 1,
{
    let e = entry.view();
    lemma_calls(e, needle@);
    if ours {
        let hooks = json::get(e->Object_0, "hooks"@)->0->Array_0;
        lemma_has(e->Object_0, "hooks"@, JsonView::Array(hooks));
        lemma_has(hooks[0]->Object_0, "command"@, JsonView::Text(command@));
        assert(called(e, hooks, 0, command@));
    }
    if exists|hooks: Seq<JsonView>| #[trigger] called(e, hooks, 0, command@) && hooks.len() == 1 {
        let hooks = choose|hooks: Seq<JsonView>| #[trigger]
            called(e, hooks, 0, command@) && hooks.len() == 1;
        lemma_has(e->Object_0, "hooks"@, JsonView::Array(hooks));
        lemma_has(hooks[0]->Object_0, "command"@, JsonView::Text(command@));
    }
}

/// An event's entries call a command that holds this text.
pub open spec fn hooked(hooks: Seq<MemberView>, event: Seq<char>, needle: Seq<char>) -> bool {
    exists|entries: Seq<JsonView>, k: int|
        #![trigger has(hooks, event, JsonView::Array(entries)), entries[k]]
        has(hooks, event, JsonView::Array(entries)) && 0 <= k < entries.len() && calls(
            entries[k],
            needle,
        )
}

proof fn lemma_hooked(hooks: Seq<MemberView>, event: Seq<char>, needle: Seq<char>)
    requires
        install::entries_of(hooks, event) is Some,
    ensures
        hooked(hooks, event, needle) <==> install::installed(
            install::entries_of(hooks, event)->0,
            needle,
        ),
{
    let entries = install::entries_of(hooks, event)->0;
    if hooked(hooks, event, needle) {
        let (es, k) = choose|es: Seq<JsonView>, k: int|
            #![trigger has(hooks, event, JsonView::Array(es)), es[k]]
            has(hooks, event, JsonView::Array(es)) && 0 <= k < es.len() && calls(es[k], needle);
        lemma_has(hooks, event, JsonView::Array(es));
        lemma_calls(es[k], needle);
        assert(install::has_command(entries[k], needle));
    }
    if install::installed(entries, needle) {
        let k = choose|k: int|
            0 <= k < entries.len() && install::has_command(#[trigger] entries[k], needle);
        lemma_has(hooks, event, JsonView::Array(entries));
        lemma_calls(entries[k], needle);
        assert(has(hooks, event, JsonView::Array(entries)) && calls(entries[k], needle));
    }
}

/// The three hooks are there.
pub open spec fn all_hooked(agent: Seq<char>, hooks: Seq<MemberView>) -> bool {
    &&& hooked(hooks, "Stop"@, "ghwf "@ + text::lower(agent) + "-stop-hook"@)
    &&& hooked(
        hooks,
        "Notification"@,
        "ghwf "@ + text::lower(agent) + "-notification-hook --kind idle"@,
    )
    &&& hooked(
        hooks,
        "Notification"@,
        "ghwf "@ + text::lower(agent) + "-notification-hook --kind permission"@,
    )
}

proof fn lemma_all_hooked(agent: Seq<char>, hooks: Seq<MemberView>)
    requires
        install::hooks_complete(agent, hooks),
    ensures
        all_hooked(agent, hooks),
{
    lemma_hooked(hooks, "Stop"@, install::stop_command(agent));
    lemma_hooked(hooks, "Notification"@, install::idle_command(agent));
    lemma_hooked(hooks, "Notification"@, install::permission_command(agent));
}

/// After a merge the three hooks are there, and everything else is as it was: the other
/// settings, and the hooks of other events. It is told whether one was missing.
pub proof fn merging_adds_the_missing_hooks(
    agent: &str,
    root: Json,
    r: Result<Merged, String>,
    key: Seq<char>,
    value: JsonView,
    event: Seq<char>,
    entry: JsonView,
)
    requires
        call_ensures(install::merge_hooks, (agent, root), r),
        r is Ok,
        key != "hooks"@,
        event != "Stop"@ && event != "Notification"@,
    ensures
        root.view() is Object,
        r->Ok_0.doc.view() is Object,
        has(r->Ok_0.doc.view()->Object_0, key, value) <==> has(
            root.view()->Object_0,
            key,
            value,
        ),
        exists|hooks: Seq<MemberView>|
            #![trigger has(r->Ok_0.doc.view()->Object_0, "hooks"@, JsonView::Object(hooks))]
            {
                &&& has(r->Ok_0.doc.view()->Object_0, "hooks"@, JsonView::Object(hooks))
                &&& all_hooked(agent@, hooks)
                &&& forall|old_hooks: Seq<MemberView>|
                    #![trigger has(root.view()->Object_0, "hooks"@, JsonView::Object(old_hooks))]
                    has(root.view()->Object_0, "hooks"@, JsonView::Object(old_hooks)) ==> (has(
                        hooks,
                        event,
                        entry,
                    ) <==> has(old_hooks, event, entry))
            },
        !r->Ok_0.changed ==> exists|hooks: Seq<MemberView>| #[trigger]
            has(root.view()->Object_0, "hooks"@, JsonView::Object(hooks)) && all_hooked(
                agent@,
                hooks,
            ),
        r->Ok_0.changed ==> forall|hooks: Seq<MemberView>|
            #![trigger has(root.view()->Object_0, "hooks"@, JsonView::Object(hooks))]
            has(root.view()->Object_0, "hooks"@, JsonView::Object(hooks)) ==> !all_hooked(
                agent@,
                hooks,
            ),
{
    let before = root.view();
    let after = r->Ok_0.doc.view();
    install::merging_preserves_everything_else(agent@, before, key, event);
    install::merging_is_idempotent(agent@, before);
    lemma_has(after->Object_0, key, value);
    lemma_has(before->Object_0, key, value);
    let hooks = json::get(after->Object_0, "hooks"@)->0->Object_0;
    lemma_has(after->Object_0, "hooks"@, JsonView::Object(hooks));
    lemma_all_hooked(agent@, hooks);
    lemma_has(hooks, event, entry);
    assert forall|old_hooks: Seq<MemberView>|
        #![trigger has(before->Object_0, "hooks"@, JsonView::Object(old_hooks))]
        has(before->Object_0, "hooks"@, JsonView::Object(old_hooks)) implies (has(
        hooks,
        event,
        entry,
    ) <==> has(old_hooks, event, entry)) by {
        lemma_has(before->Object_0, "hooks"@, JsonView::Object(old_hooks));
        lemma_has(old_hooks, event, entry);
    }
    if !r->Ok_0.changed {
        let own = json::get(before->Object_0, "hooks"@)->0->Object_0;
        lemma_has(before->Object_0, "hooks"@, JsonView::Object(own));
        lemma_all_hooked(agent@, own);
        assert(has(before->Object_0, "hooks"@, JsonView::Object(own)));
    } else {
        assert forall|own: Seq<MemberView>|
            #![trigger has(before->Object_0, "hooks"@, JsonView::Object(own))]
            has(before->Object_0, "hooks"@, JsonView::Object(own)) implies !all_hooked(
            agent@,
            own,
        ) by {
            lemma_has(before->Object_0, "hooks"@, JsonView::Object(own));
            lemma_hooked(own, "Stop"@, install::stop_command(agent@));
            lemma_hooked(own, "Notification"@, install::idle_command(agent@));
            lemma_hooked(own, "Notification"@, install::permission_command(agent@));
        }
    }
}

/// Settings of another form are refused, not overwritten.
pub proof fn settings_of_another_form_are_refused(
    agent: &str,
    root: Json,
    r: Result<Merged, String>,
)
    requires
        call_ensures(install::merge_hooks, (agent, root), r),
    ensures
        !(root.view() is Object) ==> r is Err,
        root.view() is Object && lacks(root.view()->Object_0, "hooks"@) ==> r is Ok,
        forall|v: JsonView|
            root.view() is Object && #[trigger] has(root.view()->Object_0, "hooks"@, v)
                && !(v is Object) ==> r is Err,
        forall|hooks: Seq<MemberView>, v: JsonView|
            #![trigger has(root.view()->Object_0, "hooks"@, JsonView::Object(hooks)), has(hooks, "Stop"@, v)]
            root.view() is Object && has(root.view()->Object_0, "hooks"@, JsonView::Object(hooks))
                && has(hooks, "Stop"@, v) && !(v is Array) ==> r is Err,
        forall|hooks: Seq<MemberView>, v: JsonView|
            #![trigger has(root.view()->Object_0, "hooks"@, JsonView::Object(hooks)), has(hooks, "Notification"@, v)]
            root.view() is Object && has(root.view()->Object_0, "hooks"@, JsonView::Object(hooks))
                && has(hooks, "Notification"@, v) && !(v is Array) ==> r is Err,
{
    let before = root.view();
    if before is Object {
        let members = before->Object_0;
        lemma_has(members, "hooks"@, JsonView::Null);
        assert forall|v: JsonView|
            #[trigger] has(members, "hooks"@, v) && !(v is Object) implies r is Err by {
            lemma_has(members, "hooks"@, v);
        }
        assert forall|hooks: Seq<MemberView>, v: JsonView|
            #![trigger has(members, "hooks"@, JsonView::Object(hooks)), has(hooks, "Stop"@, v)]
            has(members, "hooks"@, JsonView::Object(hooks)) && has(hooks, "Stop"@, v) && !(
            v is Array) implies r is Err by {
            lemma_has(members, "hooks"@, JsonView::Object(hooks));
            lemma_has(hooks, "Stop"@, v);
        }
        assert forall|hooks: Seq<MemberView>, v: JsonView|
            #![trigger has(members, "hooks"@, JsonView::Object(hooks)), has(hooks, "Notification"@, v)]
            has(members, "hooks"@, JsonView::Object(hooks)) && has(hooks, "Notification"@, v) && !(
            v is Array) implies r is Err by {
            lemma_has(members, "hooks"@, JsonView::Object(hooks));
            lemma_has(hooks, "Notification"@, v);
        }
    }
}

/// The entry is our stop hook alone.
pub open spec fn is_our_stop(agent: Seq<char>, entry: JsonView) -> bool {
    exists|hooks: Seq<JsonView>| #[trigger]
        called(entry, hooks, 0, "ghwf "@ + text::lower(agent) + "-stop-hook"@) && hooks.len() == 1
}

proof fn lemma_our_stop(agent: Seq<char>, e: JsonView)
    ensures
        is_our_stop(agent, e) <==> install::is_ours(e, install::stop_command(agent)),
{
    let command = "ghwf "@ + text::lower(agent) + "-stop-hook"@;
    if install::is_ours(e, command) {
        let hooks = json::get(e->Object_0, "hooks"@)->0->Array_0;
        lemma_has(e->Object_0, "hooks"@, JsonView::Array(hooks));
        lemma_has(hooks[0]->Object_0, "command"@, JsonView::Text(command));
        assert(called(e, hooks, 0, command));
    }
    if is_our_stop(agent, e) {
        let hooks = choose|hooks: Seq<JsonView>| #[trigger]
            called(e, hooks, 0, command) && hooks.len() == 1;
        lemma_has(e->Object_0, "hooks"@, JsonView::Array(hooks));
        lemma_has(hooks[0]->Object_0, "command"@, JsonView::Text(command));
    }
}

/// The stop entries of settings.
pub open spec fn stops(root: JsonView, entries: Seq<JsonView>) -> bool {
    root is Object && exists|hooks: Seq<MemberView>| #[trigger]
        has(root->Object_0, "hooks"@, JsonView::Object(hooks)) && has(
            hooks,
            "Stop"@,
            JsonView::Array(entries),
        )
}

proof fn lemma_stops(root: JsonView, entries: Seq<JsonView>)
    ensures
        stops(root, entries) <==> install::stop_entries(root) == Some(entries),
{
    if stops(root, entries) {
        let hooks = choose|hooks: Seq<MemberView>| #[trigger]
            has(root->Object_0, "hooks"@, JsonView::Object(hooks)) && has(
                hooks,
                "Stop"@,
                JsonView::Array(entries),
            );
        lemma_has(root->Object_0, "hooks"@, JsonView::Object(hooks));
        lemma_has(hooks, "Stop"@, JsonView::Array(entries));
    }
    if install::stop_entries(root) == Some(entries) {
        let hooks = json::get(root->Object_0, "hooks"@)->0->Object_0;
        lemma_has(root->Object_0, "hooks"@, JsonView::Object(hooks));
        lemma_has(hooks, "Stop"@, JsonView::Array(entries));
        assert(has(root->Object_0, "hooks"@, JsonView::Object(hooks)));
    }
}

/// The global stop hook is taken out where it is, and nothing else: the other settings
/// stay, and so do the stop hooks of others. No event may be there twice.
pub proof fn only_our_stop_hook_is_taken_out(
    agent: &str,
    root: Json,
    r: Option<Json>,
    entries: Seq<JsonView>,
    i: int,
    key: Seq<char>,
    value: JsonView,
)
    requires
        call_ensures(install::without_hook, (agent, root), r),
        stops(root.view(), entries),
        0 <= i < entries.len(),
        key != "hooks"@,
        forall|hooks: Seq<MemberView>, j: int, k: int|
            #![trigger has(root.view()->Object_0, "hooks"@, JsonView::Object(hooks)), hooks[j], hooks[k]]
            has(root.view()->Object_0, "hooks"@, JsonView::Object(hooks)) && 0 <= j < k
                < hooks.len() ==> hooks[j].key != hooks[k].key,
    ensures
        is_our_stop(agent@, entries[i]) ==> r is Some,
        (forall|j: int|
            0 <= j < entries.len() ==> !is_our_stop(agent@, #[trigger] entries[j])) ==> r is None,
        r is Some ==> r->0.view() is Object && (has(r->0.view()->Object_0, key, value) <==> has(
            root.view()->Object_0,
            key,
            value,
        )),
        r is Some && !is_our_stop(agent@, entries[i]) ==> exists|kept: Seq<JsonView>| #[trigger]
            stops(r->0.view(), kept) && kept.contains(entries[i]),
        r is Some ==> forall|kept: Seq<JsonView>, j: int|
            #![trigger stops(r->0.view(), kept), kept[j]]
            stops(r->0.view(), kept) && 0 <= j < kept.len() ==> !is_our_stop(agent@, kept[j]),
{
    let command = install::stop_command(agent@);
    let before = root.view();
    lemma_stops(before, entries);
    lemma_our_stop(agent@, entries[i]);
    if forall|j: int| 0 <= j < entries.len() ==> !is_our_stop(agent@, #[trigger] entries[j]) {
        assert forall|j: int| 0 <= j < entries.len() implies !install::is_ours(
            #[trigger] entries[j],
            command,
        ) by {
            lemma_our_stop(agent@, entries[j]);
            assert(!is_our_stop(agent@, entries[j]));
        }
    }
    if r is Some {
        let after = r->0.view();
        install::cleaning_removes_only_our_entry(agent@, before, key, i);
        lemma_has(after->Object_0, key, value);
        lemma_has(before->Object_0, key, value);
        let kept = install::foreign(agent@, entries);
        if !is_our_stop(agent@, entries[i]) {
            assert(kept.contains(entries[i]));
            lemma_stops(after, kept);
            assert(stops(after, kept));
        }
        assert forall|other: Seq<JsonView>, j: int|
            #![trigger stops(after, other), other[j]]
            stops(after, other) && 0 <= j < other.len() implies !is_our_stop(agent@, other[j]) by {
            lemma_stops(after, other);
            lemma_our_stop(agent@, other[j]);
            if kept.len() > 0 {
                lemma_foreign(agent@, entries, j);
            } else {
                let own = json::get(before->Object_0, "hooks"@)->0->Object_0;
                lemma_has(before->Object_0, "hooks"@, JsonView::Object(own));
                lemma_removed(agent@, before, after);
            }
        }
    }
}

proof fn lemma_foreign(agent: Seq<char>, entries: Seq<JsonView>, j: int)
    requires
        0 <= j < install::foreign(agent, entries).len(),
    ensures
        !install::is_ours(install::foreign(agent, entries)[j], install::stop_command(agent)),
    decreases entries.len(),
{
    let init = entries.drop_last();
    let all = install::foreign(agent, entries);
    let before = install::foreign(agent, init);
    if j < before.len() {
        lemma_foreign(agent, init, j);
        assert(all[j] == before[j]);
    }
}

/// Where all stop entries were ours, none are left.
proof fn lemma_removed(agent: Seq<char>, before: JsonView, after: JsonView)
    requires
        install::cleaned(agent, before) == Some(after),
        install::foreign(agent, install::stop_entries(before)->0).len() == 0,
        forall|i: int, j: int|
            0 <= i < j < json::get(before->Object_0, "hooks"@)->0->Object_0.len() ==> (
            #[trigger] json::get(before->Object_0, "hooks"@)->0->Object_0[i]).key != (
            #[trigger] json::get(before->Object_0, "hooks"@)->0->Object_0[j]).key,
    ensures
        install::stop_entries(after) is None,
{
    let members = before->Object_0;
    let hooks = json::get(members, "hooks"@)->0->Object_0;
    json::lemma_position(hooks, "Stop"@);
    let at = json::position(hooks, "Stop"@);
    let rest = hooks.remove(at);
    assert forall|j: int| 0 <= j < rest.len() implies rest[j].key != "Stop"@ by {
        if j < at {
            assert(rest[j] == hooks[j]);
        } else {
            assert(rest[j] == hooks[j + 1]);
            assert(hooks[at].key != hooks[j + 1].key);
        }
    }
    json::lemma_position_is(rest, "Stop"@, rest.len() as int);
    json::lemma_set_get(
        members,
        "hooks"@,
        JsonView::Object(install::cleaned_hooks(agent, hooks)),
        "hooks"@,
    );
}

/// The skill is written where there is none, left where it is up to date, and written over
/// where it is ours or the user forces it; a foreign one is refused.
pub proof fn foreign_skills_are_not_overwritten(
    agent: &str,
    existing: Option<&str>,
    force: bool,
    r: SkillAction,
    content: String,
)
    requires
        call_ensures(install::skill_action, (agent, existing, force), r),
        call_ensures(install::skill_content, (agent,), content),
    ensures
        existing is None <==> r == SkillAction::Install,
        existing is Some && existing->0@ == content@ ==> r == SkillAction::UpToDate,
        existing is Some && existing->0@ != content@ && (text::contains(
            existing->0@,
            "<!-- ghwf:skill"@,
        ) || force) ==> r == SkillAction::Update,
        existing is Some && existing->0@ != content@ && !text::contains(
            existing->0@,
            "<!-- ghwf:skill"@,
        ) && !force ==> r == SkillAction::Refuse,
{
}

/// Where things are installed, and what is said of it.
pub proof fn installations_are_reported(
    agent: &str,
    settings: String,
    dir: &str,
    skill: String,
    action: SkillAction,
    path: &str,
    r: Result<String, String>,
)
    requires
        call_ensures(install::local_settings_rel, (agent,), settings),
        call_ensures(install::skill_path, (dir,), skill),
        call_ensures(install::skill_report, (action, path), r),
    ensures
        settings@ == "."@ + text::lower(agent@) + "/"@ + "settings.local.json"@,
        skill@ == text::below(dir@, "skills/work-on/SKILL.md"@),
        r is Err <==> action == SkillAction::Refuse,
        action == SkillAction::UpToDate ==> r->Ok_0@ == "The /work-on skill at `"@ + path@
            + "` is up to date."@,
        action == SkillAction::Install ==> r->Ok_0@ == "Installed the /work-on skill at `"@ + path@
            + "`."@,
        action == SkillAction::Update ==> r->Ok_0@ == "Updated the /work-on skill at `"@ + path@
            + "`."@,
        action == SkillAction::Refuse ==> text::starts_with(r->Err_0@, "`"@ + path@),
{
    crate::laws::texts::lemma_within(Seq::empty(), "`"@ + path@, install::NOT_OURS@);
}

/// A path is excluded from git by a line of its own, below the others, and once.
pub proof fn paths_are_excluded_once(current: &str, rel: &str, r: Option<String>)
    requires
        call_ensures(install::exclude_from_git, (current, rel), r),
    ensures
        r is None <==> exists|i: int|
            #![trigger text::lines(current@)[i]]
            0 <= i < text::lines(current@).len() && text::trim(text::lines(current@)[i]) == rel@,
        r is Some && current@.len() > 0 && current@.last() != '\n' ==> r->0@ == current@ + "\n"@
            + rel@ + "\n"@,
        r is Some && (current@.len() == 0 || current@.last() == '\n') ==> r->0@ == current@ + rel@
            + "\n"@,
{
    let lines = text::lines(current@);
    if exists|i: int|
        #![trigger lines[i]]
        0 <= i < lines.len() && text::trim(lines[i]) == rel@ {
        let i = choose|i: int|
            #![trigger lines[i]]
            0 <= i < lines.len() && text::trim(lines[i]) == rel@;
        assert(text::trim(text::lines(current@)[i]) == rel@);
    }
}

/// Settings are merged once: what a merge wrote is found complete, whatever whole numbers
/// it holds.
pub proof fn merged_settings_are_settled(
    agent: &str,
    existing: &str,
    r: Result<Option<String>, String>,
    written: &str,
    again: Result<Option<String>, String>,
)
    requires
        call_ensures(install::merged_settings, (agent, existing), r),
        r is Ok && r->Ok_0 is Some,
        written@ == r->Ok_0->0@,
        call_ensures(install::merged_settings, (agent, written), again),
        json::integral(
            install::merged(agent@, install::settings_of(existing@)->Ok_0)->Ok_0,
        ),
    ensures
        again is Ok && again->Ok_0 is None,
{
}

/// Global settings without anything in them are left alone; a hook that was taken out is
/// not found again.
pub proof fn cleaned_settings_are_settled(
    agent: &str,
    existing: &str,
    r: Result<Option<String>, String>,
    written: &str,
    again: Result<Option<String>, String>,
)
    requires
        call_ensures(install::without_global_hook, (agent, existing), r),
        r is Ok && r->Ok_0 is Some,
        written@ == r->Ok_0->0@,
        call_ensures(install::without_global_hook, (agent, written), again),
        json::integral(install::cleaned(agent@, json::parsed(existing@)->Ok_0)->0),
    ensures
        text::trim(existing@).len() > 0,
        again is Ok && again->Ok_0 is None,
{
}

/// A member that is put is found under its key, where it was or at the end; the others
/// stay as they are.
pub proof fn members_are_put_under_their_key(
    before: Vec<Member>,
    key: &str,
    value: Json,
    after: Vec<Member>,
    other: Seq<char>,
    v: JsonView,
)
    requires
        exists|g: &mut Vec<Member>| #[trigger]
            call_ensures(json::put, (g, key, value), ()) && *g == before && *final(g) == after,
    ensures
        has(json::members_view(after@), key@, value.view()),
        other != key@ ==> (has(json::members_view(after@), other, v) <==> has(
            json::members_view(before@),
            other,
            v,
        )),
        lacks(json::members_view(before@), key@) ==> after@.len() == before@.len() + 1,
        !lacks(json::members_view(before@), key@) ==> after@.len() == before@.len(),
{
    let b = json::members_view(before@);
    let a = json::members_view(after@);
    json::lemma_set_get(b, key@, value.view(), other);
    lemma_has(a, key@, value.view());
    lemma_has(a, other, v);
    lemma_has(b, other, v);
    lemma_has(b, key@, v);
    assert(a.len() == after@.len());
    assert(b.len() == before@.len());
    json::lemma_position(b, key@);
}

/// Members and items are added at the end.
pub proof fn members_are_added_at_the_end(
    key: &str,
    value: Json,
    m: Member,
    s: &str,
    t: Json,
    before: Vec<Member>,
    after: Vec<Member>,
    items: Vec<Json>,
    more: Vec<Json>,
)
    requires
        call_ensures(json::member, (key, value), m),
        call_ensures(json::string, (s,), t),
        exists|g: &mut Vec<Member>| #[trigger]
            call_ensures(json::push_member, (g, key, value), ()) && *g == before && *final(g)
                == after,
        exists|g: &mut Vec<Json>| #[trigger]
            call_ensures(json::push_item, (g, value), ()) && *g == items && *final(g) == more,
    ensures
        m.view().key == key@ && m.view().value == value.view(),
        t.view() == JsonView::Text(s@),
        json::members_view(after@) == json::members_view(before@).push(
            MemberView { key: key@, value: value.view() },
        ),
        json::items_view(more@) == json::items_view(items@).push(value.view()),
{
}

/// A member is found at its first place.
pub proof fn members_are_found_by_key(members: &Vec<Member>, key: &str, r: Option<usize>)
    requires
        call_ensures(json::find, (members, key), r),
    ensures
        r is None <==> forall|j: int|
            0 <= j < members@.len() ==> (#[trigger] members@[j]).key@ != key@,
        r is Some ==> r->0 < members@.len() && members@[r->0 as int].key@ == key@ && forall|j: int|
            0 <= j < r->0 ==> (#[trigger] members@[j]).key@ != key@,
{
    let v = json::members_view(members@);
    json::lemma_position(v, key@);
    assert(v.len() == members@.len());
    assert forall|j: int| 0 <= j < members@.len() implies v[j].key == (#[trigger] members@[j]).key@ by {}
}

} // verus!
