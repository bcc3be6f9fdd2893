//! The `ghwf config` helpers that show what can be configured: `ls`, `info`, and
//! `example`.
//!
//! They work on a description of the options (their keys, types and
//! documentation), so that the documentation has a single source.

use vstd::prelude::*;

use crate::init;
use crate::labels;
use crate::text;
use crate::toml_doc;
use crate::toml_doc::{Pair, Section, Toml};

verus! {

/// What an option's type wraps.
#[derive(Clone, Copy, Debug, PartialEq, Eq, Structural)]
pub enum Wrapper {
    Plain,
    Optional,
    List,
}

/// An option.
pub struct Field {
    /// Its TOML key.
    pub key: String,
    pub wrapper: Wrapper,
    /// The name of the type that is wrapped.
    pub inner: String,
    /// The lines of its documentation.
    pub doc: Vec<String>,
    /// The options below it, where it is a table.
    pub fields: Option<Vec<Field>>,
}

/// The TOML key for a field: its rename when present (e.g. the kebab-cased
/// `[labels]` keys), else the field's name.
pub fn wire_name<'a>(name: &'a str, rename: Option<&'a str>) -> (r: &'a str)
    ensures
        r@ == (match rename {
            Some(rename) => rename@,
            None => name@,
        }),
{
    match rename {
        Some(rename) => rename,
        None => name,
    }
}

/// A human-readable type.
pub open spec fn label_of(wrapper: Wrapper, inner: Seq<char>) -> Seq<char> {
    match wrapper {
        Wrapper::Plain => inner,
        Wrapper::Optional => inner + " (optional)"@,
        Wrapper::List => "array of "@ + inner,
    }
}

/// A human-readable type for `info`: optional values and lists are unwrapped one
/// level so the inner type is visible.
pub fn type_label(field: &Field) -> (r: String)
    ensures
        r@ == label_of(field.wrapper, field.inner@),
{
    match field.wrapper {
        Wrapper::Plain => text::copy(field.inner.as_str()),
        Wrapper::Optional => {
            let mut s = text::copy(field.inner.as_str());
            s.append(" (optional)");
            s
        },
        Wrapper::List => {
            let mut s = text::copy("array of ");
            s.append(field.inner.as_str());
            s
        },
    }
}

/// Each line, trimmed.
pub open spec fn trimmed_lines(lines: Seq<String>) -> Seq<Seq<char>> {
    Seq::new(lines.len(), |i: int| text::trim(lines[i]@))
}

/// The documentation of an option as joined, trimmed lines.
pub open spec fn doc_of(field: Field) -> Seq<char> {
    text::join(trimmed_lines(field.doc@), "\n"@)
}

/// The documentation of an option as joined, trimmed lines (empty when
/// undocumented).
pub fn field_doc(field: &Field) -> (r: String)
    ensures
        r@ == doc_of(*field),
{
    let mut out: Vec<String> = Vec::new();
    let mut i: usize = 0;
    while i < field.doc.len()
        invariant
            i <= field.doc.len(),
            out@.len() == i,
            forall|k: int| 0 <= k < i ==> (#[trigger] out@[k])@ == text::trim(field.doc@[k]@),
        decreases field.doc.len() - i,
    {
        out.push(text::trimmed(field.doc[i].as_str()));
        i = i + 1;
    }
    assert(text::views(out@) =~= trimmed_lines(field.doc@));
    text::joined(&out, "\n")
}

/// The first line of an option's documentation.
pub open spec fn summary_of(field: Field) -> Seq<char> {
    if field.doc@.len() == 0 {
        ""@
    } else {
        text::trim(field.doc@[0]@)
    }
}

/// The first line of an option's documentation, for one-line listings.
pub fn doc_summary(field: &Field) -> (r: String)
    ensures
        r@ == summary_of(*field),
{
    if field.doc.len() == 0 {
        text::copy("")
    } else {
        text::trimmed(field.doc[0].as_str())
    }
}

/// The position of the first option with this key, or the number of options.
pub open spec fn position(fields: Seq<Field>, key: Seq<char>) -> int
    decreases fields.len(),
{
    if fields.len() == 0 || fields[0].key@ == key {
        0
    } else {
        1 + position(fields.skip(1), key)
    }
}

proof fn lemma_position_is(fields: Seq<Field>, key: Seq<char>, at: int)
    requires
        0 <= at <= fields.len(),
        forall|j: int| 0 <= j < at ==> (#[trigger] fields[j]).key@ != key,
        at == fields.len() || fields[at].key@ == key,
    ensures
        position(fields, key) == at,
    decreases fields.len(),
{
    if fields.len() > 0 && at > 0 {
        assert(fields[0].key@ != key);
        let rest = fields.skip(1);
        assert forall|j: int| 0 <= j < at - 1 implies (#[trigger] rest[j]).key@ != key by {
            assert(rest[j] == fields[j + 1]);
        }
        lemma_position_is(rest, key, at - 1);
    }
}

/// The first option with this key.
fn find<'a>(fields: &'a Vec<Field>, key: &str) -> (r: Option<&'a Field>)
    ensures
        match r {
            Some(field) => 0 <= position(fields@, key@) < fields@.len() && *field
                == fields@[position(fields@, key@)],
            None => position(fields@, key@) >= fields@.len(),
        },
{
    let mut i: usize = 0;
    while i < fields.len()
        invariant
            i <= fields.len(),
            forall|j: int| 0 <= j < i ==> (#[trigger] fields@[j]).key@ != key@,
        decreases fields.len() - i,
    {
        if text::same(fields[i].key.as_str(), key) {
            proof {
                lemma_position_is(fields@, key@, i as int);
            }
            return Some(&fields[i]);
        }
        i = i + 1;
    }
    proof {
        lemma_position_is(fields@, key@, fields@.len() as int);
    }
    None
}

/// Where a path leads.
pub enum Lookup {
    Found(Field),
    /// Its first segments name no table, so the next has no sub-options.
    NotATable(int),
    /// No option has this many first segments for its path.
    Unknown(int),
}

/// Where a path leads that begins with `segments[i]` at `fields`, the options of a
/// table or nothing.
pub open spec fn walk(fields: Option<Vec<Field>>, segments: Seq<Seq<char>>, i: int) -> Lookup
    decreases segments.len() - i,
{
    match fields {
        None => Lookup::NotATable(i),
        Some(fields) => {
            let at = position(fields@, segments[i]);
            if !(0 <= at < fields@.len()) {
                Lookup::Unknown(i + 1)
            } else if i + 1 < segments.len() {
                walk(fields@[at].fields, segments, i + 1)
            } else {
                Lookup::Found(fields@[at])
            }
        },
    }
}

/// Where a dotted path leads.
pub open spec fn lookup(root: Seq<Field>, path: Seq<char>) -> Lookup {
    let segments = text::split(path, '.');
    let at = position(root, segments[0]);
    if !(0 <= at < root.len()) {
        Lookup::Unknown(1)
    } else if segments.len() > 1 {
        walk(root[at].fields, segments, 1)
    } else {
        Lookup::Found(root[at])
    }
}

/// What is said where a path leads nowhere.
pub open spec fn lookup_error(path: Seq<char>, l: Lookup) -> Seq<char> {
    let segments = text::split(path, '.');
    match l {
        Lookup::Found(_) => ""@,
        Lookup::NotATable(i) => "`"@ + text::join(segments.take(i), "."@)
            + "` is not a table, so `"@ + segments[i] + "` has no sub-options"@,
        Lookup::Unknown(i) => "unknown config option `"@ + text::join(segments.take(i), "."@)
            + "`"@,
    }
}

/// The first `n` parts, with dots between them.
fn dotted(parts: &Vec<String>, n: usize) -> (r: String)
    requires
        n <= parts@.len(),
    ensures
        r@ == text::join(text::views(parts@).take(n as int), "."@),
{
    let mut out: Vec<String> = Vec::new();
    let mut i: usize = 0;
    while i < n
        invariant
            i <= n <= parts@.len(),
            out@.len() == i,
            forall|k: int| 0 <= k < i ==> (#[trigger] out@[k])@ == parts@[k]@,
        decreases n - i,
    {
        out.push(text::copy(parts[i].as_str()));
        i = i + 1;
    }
    assert(text::views(out@) =~= text::views(parts@).take(n as int));
    text::joined(&out, ".")
}

/// Walk a dotted path (e.g. `labels.phase.pre-plan`) from the top-level options,
/// returning the option it names. Each step matches a child by its TOML key.
pub fn resolve_field<'a>(root: &'a Vec<Field>, path: &str) -> (r: Result<&'a Field, String>)
    ensures
        match r {
            Ok(field) => lookup(root@, path@) == Lookup::Found(*field),
            Err(e) => !(lookup(root@, path@) is Found) && e@ == lookup_error(
                path@,
                lookup(root@, path@),
            ),
        },
{
    let segments = text::split_on(path, '.');
    let ghost all = text::split(path@, '.');
    proof {
        text::lemma_index_of_bounds(path@, '.');
        assert(all.len() > 0);
    }
    assert(all[0] == segments@[0]@);
    let mut field: &'a Field = match find(root, segments[0].as_str()) {
        Some(field) => field,
        None => {
            let mut e = text::copy("unknown config option `");
            e.append(dotted(&segments, 1).as_str());
            e.append("`");
            return Err(e);
        },
    };
    let mut i: usize = 1;
    while i < segments.len()
        invariant
            1 <= i <= segments.len(),
            all == text::views(segments@),
            all == text::split(path@, '.'),
            lookup(root@, path@) == (if i < all.len() {
                walk(field.fields, all, i as int)
            } else {
                Lookup::Found(*field)
            }),
        decreases segments.len() - i,
    {
        assert(all[i as int] == segments@[i as int]@);
        match &field.fields {
            None => {
                let mut e = text::copy("`");
                e.append(dotted(&segments, i).as_str());
                e.append("` is not a table, so `");
                e.append(segments[i].as_str());
                e.append("` has no sub-options");
                return Err(e);
            },
            Some(fields) => match find(fields, segments[i].as_str()) {
                Some(child) => {
                    field = child;
                },
                None => {
                    let mut e = text::copy("unknown config option `");
                    e.append(dotted(&segments, i + 1).as_str());
                    e.append("`");
                    return Err(e);
                },
            },
        }
        i = i + 1;
    }
    Ok(field)
}

/// An option's name in a listing: a trailing `/` marks a nested table.
pub open spec fn listed_name(field: Field) -> Seq<char> {
    if field.fields is Some {
        field.key@ + "/"@
    } else {
        field.key@
    }
}

/// An option's name in a listing.
fn list_name(field: &Field) -> (r: String)
    ensures
        r@ == listed_name(*field),
{
    let mut s = text::copy(field.key.as_str());
    if field.fields.is_some() {
        s.append("/");
    }
    s
}

/// The length of the longest name.
pub open spec fn width(fields: Seq<Field>) -> nat
    decreases fields.len(),
{
    if fields.len() == 0 {
        0
    } else {
        let before = width(fields.drop_last());
        let this = listed_name(fields.last()).len();
        if this > before {
            this
        } else {
            before
        }
    }
}

/// This many spaces.
pub open spec fn spaces(n: int) -> Seq<char>
    decreases n,
{
    if n <= 0 {
        seq![]
    } else {
        spaces(n - 1).push(' ')
    }
}

/// The line for an option in a listing whose names are `width` wide.
pub open spec fn listing_line(field: Field, width: nat) -> Seq<char> {
    let name = listed_name(field);
    if summary_of(field).len() == 0 {
        "  "@ + name + "\n"@
    } else {
        "  "@ + name + spaces(width - name.len()) + "  "@ + summary_of(field) + "\n"@
    }
}

/// The lines for these options.
pub open spec fn listing(fields: Seq<Field>, width: nat) -> Seq<char>
    decreases fields.len(),
{
    if fields.len() == 0 {
        seq![]
    } else {
        listing(fields.drop_last(), width) + listing_line(fields.last(), width)
    }
}

/// The length of the longest name.
fn name_width(fields: &Vec<Field>) -> (r: usize)
    ensures
        r == width(fields@),
{
    let mut widest: usize = 0;
    let mut i: usize = 0;
    assert(fields@.take(0) =~= seq![]);
    while i < fields.len()
        invariant
            i <= fields.len(),
            widest == width(fields@.take(i as int)),
        decreases fields.len() - i,
    {
        assert(fields@.take(i + 1).drop_last() =~= fields@.take(i as int));
        let n: usize = text::chars(list_name(&fields[i]).as_str()).len();
        if n > widest {
            widest = n;
        }
        i = i + 1;
    }
    assert(fields@.take(fields@.len() as int) =~= fields@);
    widest
}

/// The line for an option in a listing.
fn field_line(field: &Field, width: usize) -> (r: String)
    ensures
        r@ == listing_line(*field, width as nat),
{
    let name = list_name(field);
    let summary = doc_summary(field);
    let mut out = text::copy("  ");
    out.append(name.as_str());
    if summary.as_str().is_empty() {
        out.append("\n");
        return out;
    }
    let used: usize = text::chars(name.as_str()).len();
    let mut pad = String::new();
    let mut i: usize = used;
    while i < width
        invariant
            used <= i,
            i <= width || i == used,
            pad@ == spaces(i - used),
        decreases width - i,
    {
        pad.push(' ');
        i = i + 1;
    }
    out.append(pad.as_str());
    out.append("  ");
    out.append(summary.as_str());
    out.append("\n");
    out
}

/// The options at the top level, or within the nested table named by `path`.
pub open spec fn listed(root: Vec<Field>, path: Option<&str>) -> Result<Seq<char>, Seq<char>> {
    match path {
        None => Ok("Options in ghwf.toml:\n\n"@ + listing(root@, width(root@))),
        Some(path) => match lookup(root@, path@) {
            Lookup::Found(field) => match field.fields {
                Some(fields) => Ok(
                    "Options in "@ + path@ + ":\n\n"@ + listing(fields@, width(fields@)),
                ),
                None => Err(
                    "`"@ + path@ + "` is a "@ + field.inner@
                        + ", not a table with sub-options"@,
                ),
            },
            l => Err(lookup_error(path@, l)),
        },
    }
}

/// The lines for these options.
fn list_fields(fields: &Vec<Field>) -> (r: String)
    ensures
        r@ == listing(fields@, width(fields@)),
{
    let w: usize = name_width(fields);
    let mut out = String::new();
    let mut i: usize = 0;
    assert(fields@.take(0) =~= seq![]);
    while i < fields.len()
        invariant
            i <= fields.len(),
            out@ == listing(fields@.take(i as int), w as nat),
        decreases fields.len() - i,
    {
        assert(fields@.take(i + 1).drop_last() =~= fields@.take(i as int));
        out.append(field_line(&fields[i], w).as_str());
        i = i + 1;
    }
    assert(fields@.take(fields@.len() as int) =~= fields@);
    out
}

/// `ghwf config ls [path]`: list the options at the top level, or within the
/// nested table named by `path`.
pub fn ls(root: &Vec<Field>, path: Option<&str>) -> (r: Result<String, String>)
    ensures
        match r {
            Ok(s) => listed(*root, path) == Ok::<Seq<char>, Seq<char>>(s@),
            Err(e) => listed(*root, path) == Err::<Seq<char>, Seq<char>>(e@),
        },
{
    let path = match path {
        None => {
            let mut out = text::copy("Options in ghwf.toml:\n\n");
            out.append(list_fields(root).as_str());
            return Ok(out);
        },
        Some(path) => path,
    };
    let field = match resolve_field(root, path) {
        Ok(field) => field,
        Err(e) => {
            return Err(e);
        },
    };
    match &field.fields {
        Some(fields) => {
            let mut out = text::copy("Options in ");
            out.append(path);
            out.append(":\n\n");
            out.append(list_fields(fields).as_str());
            Ok(out)
        },
        None => {
            let mut e = text::copy("`");
            e.append(path);
            e.append("` is a ");
            e.append(field.inner.as_str());
            e.append(", not a table with sub-options");
            Err(e)
        },
    }
}

/// The lines, each indented and ended.
pub open spec fn indented(lines: Seq<Seq<char>>) -> Seq<char>
    decreases lines.len(),
{
    if lines.len() == 0 {
        seq![]
    } else {
        indented(lines.drop_last()) + "  "@ + lines.last() + "\n"@
    }
}

/// The full documentation and type of an option.
pub open spec fn described(key: Seq<char>, field: Field) -> Seq<char> {
    key + "\n  type: "@ + label_of(field.wrapper, field.inner@) + "\n"@ + (if doc_of(
        field,
    ).len() == 0 {
        "\n  (undocumented)\n"@
    } else {
        "\n"@ + indented(text::lines(doc_of(field)))
    }) + (if field.fields is Some {
        "\n  A table — run `ghwf config ls "@ + key + "` to list its options.\n"@
    } else {
        ""@
    })
}

/// The lines of a text, each indented and ended.
fn indent(s: &str) -> (r: String)
    ensures
        r@ == indented(text::lines(s@)),
{
    let lines = text::lines_of(s);
    let ghost all = text::lines(s@);
    let mut out = String::new();
    let mut i: usize = 0;
    assert(all.take(0) =~= seq![]);
    while i < lines.len()
        invariant
            i <= lines.len(),
            all == text::views(lines@),
            out@ == indented(all.take(i as int)),
        decreases lines.len() - i,
    {
        assert(all.take(i + 1).drop_last() =~= all.take(i as int));
        assert(all.take(i + 1).last() == lines@[i as int]@);
        out.append("  ");
        out.append(lines[i].as_str());
        out.append("\n");
        i = i + 1;
    }
    assert(all.take(all.len() as int) =~= all);
    out
}

/// `ghwf config info <key>`: the full documentation and type of one option.
pub fn info(root: &Vec<Field>, key: &str) -> (r: Result<String, String>)
    ensures
        match r {
            Ok(s) => match lookup(root@, key@) {
                Lookup::Found(field) => s@ == described(key@, field),
                _ => false,
            },
            Err(e) => !(lookup(root@, key@) is Found) && e@ == lookup_error(
                key@,
                lookup(root@, key@),
            ),
        },
{
    let field = match resolve_field(root, key) {
        Ok(field) => field,
        Err(e) => {
            return Err(e);
        },
    };
    let doc = field_doc(field);
    let mut out = text::copy(key);
    out.append("\n  type: ");
    out.append(type_label(field).as_str());
    out.append("\n");
    let body = if doc.as_str().is_empty() {
        text::copy("\n  (undocumented)\n")
    } else {
        let mut s = text::copy("\n");
        s.append(indent(doc.as_str()).as_str());
        s
    };
    out.append(body.as_str());
    let table = if field.fields.is_some() {
        let mut s = text::copy("\n  A table — run `ghwf config ls ");
        s.append(key);
        s.append("` to list its options.\n");
        s
    } else {
        text::copy("")
    };
    out.append(table.as_str());
    Ok(out)
}

/// The documentation of a top-level option.
pub open spec fn comment_of(root: Seq<Field>, key: Seq<char>) -> Seq<char> {
    let at = position(root, key);
    if 0 <= at < root.len() {
        doc_of(root[at])
    } else {
        ""@
    }
}

/// The documentation of a top-level option, by TOML key; empty where there is no
/// such option.
pub fn config_comment(root: &Vec<Field>, key: &str) -> (r: String)
    ensures
        r@ == comment_of(root@, key@),
{
    match find(root, key) {
        Some(field) => field_doc(field),
        None => text::copy(""),
    }
}

/// The table form of a repo that the example shows.
pub open spec fn table_form() -> Seq<toml_doc::PairView> {
    seq![
        toml_doc::PairView {
            key: "repo"@,
            value: toml_doc::Setting::Text("StileEducation/wiki"@),
        },
        toml_doc::PairView { key: "branch_prefix"@, value: toml_doc::Setting::Text("wiki"@) },
    ]
}

/// The settings that the example shows, but for the labels.
pub open spec fn example_entries() -> Seq<toml_doc::PairView> {
    seq![
        toml_doc::PairView { key: "main_repo"@, value: toml_doc::Setting::Text("repo.git"@) },
        toml_doc::PairView { key: "worktrees_dir"@, value: toml_doc::Setting::Text("worktrees"@) },
        toml_doc::PairView {
            key: "priority_labels"@,
            value: toml_doc::Setting::List(
                seq![toml_doc::Setting::Text("urgent"@), toml_doc::Setting::Text("soon"@)],
            ),
        },
        toml_doc::PairView {
            key: "pr_instructions"@,
            value: toml_doc::Setting::Text("pull-request.md"@),
        },
        toml_doc::PairView { key: "permission_mode"@, value: toml_doc::Setting::Text("auto"@) },
        toml_doc::PairView {
            key: "delete_plan_on_approval"@,
            value: toml_doc::Setting::Flag(true),
        },
        toml_doc::PairView { key: "auto_collect_garbage"@, value: toml_doc::Setting::Flag(true) },
        toml_doc::PairView {
            key: "auto_collect_garbage_interval_hours"@,
            value: toml_doc::Setting::Count(24),
        },
        toml_doc::PairView { key: "auto_merge_base"@, value: toml_doc::Setting::Flag(true) },
        toml_doc::PairView { key: "only_assigned_to_me"@, value: toml_doc::Setting::Flag(true) },
        toml_doc::PairView { key: "blocked_label"@, value: toml_doc::Setting::Text("blocked"@) },
        toml_doc::PairView {
            key: "issue_repos"@,
            value: toml_doc::Setting::List(
                seq![
                    toml_doc::Setting::Text("StileEducation/documentation"@),
                    toml_doc::Setting::Inline(toml_doc::entered(table_form())),
                ],
            ),
        },
        toml_doc::PairView {
            key: "allowed_users"@,
            value: toml_doc::Setting::List(seq![toml_doc::Setting::Text("octocat"@)]),
        },
    ]
}

/// The labels of the phases and of the attention that the example shows.
pub open spec fn phase_values() -> Seq<Seq<char>> {
    seq![
        "ghwf:pre-plan"@,
        "ghwf:planning"@,
        "ghwf:implementing"@,
        "ghwf:review"@,
        "ghwf:finished"@,
    ]
}

pub open spec fn attention_values(agent: Seq<char>) -> Seq<Seq<char>> {
    seq!["ghwf:needs-you"@, labels::working_label(agent), "ghwf:preparing"@]
}

/// Each option's key with its value, as far as there are both.
pub open spec fn zipped(fields: Seq<Field>, values: Seq<Seq<char>>) -> Seq<toml_doc::PairView> {
    Seq::new(
        if fields.len() < values.len() {
            fields.len()
        } else {
            values.len()
        },
        |i: int|
            toml_doc::PairView {
                key: fields[i].key@,
                value: toml_doc::Setting::Text(values[i]),
            },
    )
}

/// The `[labels]` tables that the example shows.
pub open spec fn example_labels(agent: Seq<char>, phase: Seq<Field>, attention: Seq<Field>) -> Seq<
    toml_doc::SectionView,
> {
    seq![
        toml_doc::SectionView { name: "phase"@, entries: zipped(phase, phase_values()) },
        toml_doc::SectionView {
            name: "attention"@,
            entries: zipped(attention, attention_values(agent)),
        },
    ]
}

/// What is printed before each of these entries: its option's documentation.
pub open spec fn led(root: Seq<Field>, entries: Seq<toml_doc::PairView>) -> Map<
    Seq<char>,
    Seq<char>,
>
    decreases entries.len(),
{
    if entries.len() == 0 {
        Map::empty()
    } else {
        let key = entries.last().key;
        led(root, entries.drop_last()).insert(
            key,
            init::prefix_of(comment_of(root, key), entries.len() == 1),
        )
    }
}

/// The settings that the example shows.
pub open spec fn example_settings(
    agent: Seq<char>,
    phase: Seq<Field>,
    attention: Seq<Field>,
) -> Map<Seq<char>, toml_doc::Setting> {
    toml_doc::held(example_entries()).insert(
        "labels"@,
        toml_doc::Setting::Sections(
            toml_doc::entered_sections(example_labels(agent, phase, attention)),
        ),
    )
}

/// There is no control character in the documentation of an option.
pub open spec fn clearly_documented(root: Seq<Field>) -> bool {
    forall|i: int| 0 <= i < root.len() ==> toml_doc::is_clear(doc_of(#[trigger] root[i]))
}

proof fn lemma_comment_clear(root: Seq<Field>, key: Seq<char>)
    requires
        clearly_documented(root),
    ensures
        toml_doc::is_clear(comment_of(root, key)),
{
    reveal_strlit("");
    let at = position(root, key);
    if 0 <= at < root.len() {
        assert(toml_doc::is_clear(doc_of(root[at])));
    }
}

/// Every setting that the example shows is simple.
proof fn lemma_example_simple(agent: Seq<char>, phase: Seq<Field>, attention: Seq<Field>)
    ensures
        toml_doc::all_simple(example_settings(agent, phase, attention)),
{
    let e = example_entries();
    let form = table_form();
    assert(toml_doc::all_scalar(form)) by {
        assert(form.len() == 2);
        assert(toml_doc::is_scalar(form[0].value) && toml_doc::is_scalar(form[1].value));
    }
    toml_doc::lemma_entered_scalar(form);
    assert(toml_doc::is_simple(e[11].value)) by {
        let items = e[11].value->List_0;
        assert(items.len() == 2);
        assert(toml_doc::is_item(items[0]) && toml_doc::is_item(items[1]));
    }
    assert(toml_doc::simple_upto(e, 13)) by {
        reveal_with_fuel(toml_doc::simple_upto, 14);
    }
    toml_doc::lemma_held_simple(e, 13);
    assert(e.take(13) =~= e);
    let sections = example_labels(agent, phase, attention);
    assert(toml_doc::all_scalar(sections[0].entries));
    assert(toml_doc::all_scalar(sections[1].entries));
    toml_doc::lemma_entered_sections_simple(sections);
}

/// The example document: a value for every option in turn, each led by its
/// documentation, with the labels at the end.
pub open spec fn is_example(
    agent: Seq<char>,
    doc: toml_edit::DocumentMut,
    root: Seq<Field>,
    phase: Seq<Field>,
    attention: Seq<Field>,
) -> bool {
    &&& toml_doc::settings(doc) == example_settings(agent, phase, attention)
    &&& toml_doc::prefixes(doc) == led(root, example_entries()).insert(
        "labels"@,
        init::prefix_of(comment_of(root, "labels"@), false),
    )
    &&& toml_doc::keys(doc) == toml_doc::with_key(
        toml_doc::ordered(example_entries()),
        "labels"@,
    )
}

/// Put a text under a key behind the others.
fn push_text(pairs: &mut Vec<Pair>, key: &str, value: &str)
    ensures
        toml_doc::pairs_view(final(pairs)@) == toml_doc::pairs_view(old(pairs)@).push(
            toml_doc::PairView { key: key@, value: toml_doc::Setting::Text(value@) },
        ),
{
    let value = Toml::Text(text::copy(value));
    push_value(pairs, key, value);
}

/// Put a value under a key behind the others.
fn push_value(pairs: &mut Vec<Pair>, key: &str, value: Toml)
    ensures
        toml_doc::pairs_view(final(pairs)@) == toml_doc::pairs_view(old(pairs)@).push(
            toml_doc::PairView { key: key@, value: value.view() },
        ),
{
    let ghost before = toml_doc::pairs_view(pairs@);
    let ghost v = value.view();
    let pair = Pair { key: text::copy(key), value };
    assert(pair.view() == toml_doc::PairView { key: key@, value: v });
    pairs.push(pair);
    assert(toml_doc::pairs_view(pairs@) =~= before.push(pair.view()));
}

/// These texts, as a list.
fn texts(items: &Vec<&str>) -> (r: Toml)
    ensures
        r.view() == toml_doc::Setting::List(toml_doc::texts(text::str_views(items@))),
{
    let mut out: Vec<Toml> = Vec::new();
    let mut i: usize = 0;
    while i < items.len()
        invariant
            i <= items.len(),
            out@.len() == i,
            forall|k: int|
                0 <= k < i ==> (#[trigger] out@[k]).view() == toml_doc::Setting::Text(items@[k]@),
        decreases items.len() - i,
    {
        out.push(Toml::Text(text::copy(items[i])));
        i = i + 1;
    }
    assert(toml_doc::list_view(out@) =~= toml_doc::texts(text::str_views(items@)));
    Toml::List(out)
}

/// The repos that the example shows: both accepted forms, a plain `owner/repo`
/// and the table form carrying a branch prefix.
fn example_repos() -> (r: Toml)
    ensures
        r.view() == example_entries()[11].value,
{
    let mut detailed: Vec<Pair> = Vec::new();
    assert(toml_doc::pairs_view(detailed@) =~= seq![]);
    push_text(&mut detailed, "repo", "StileEducation/wiki");
    push_text(&mut detailed, "branch_prefix", "wiki");
    assert(toml_doc::pairs_view(detailed@) =~= table_form());
    let table = Toml::Inline(detailed);
    assert(table.view() == toml_doc::Setting::Inline(toml_doc::entered(table_form())));
    let plain = Toml::Text(text::copy("StileEducation/documentation"));
    assert(plain.view() == toml_doc::Setting::Text("StileEducation/documentation"@));
    let mut items: Vec<Toml> = Vec::new();
    items.push(plain);
    items.push(table);
    assert(toml_doc::list_view(items@) =~= example_entries()[11].value->List_0);
    Toml::List(items)
}

/// The settings that the example shows, but for the labels.
fn build_entries() -> (r: Vec<Pair>)
    ensures
        toml_doc::pairs_view(r@) == example_entries(),
{
    let mut out: Vec<Pair> = Vec::new();
    assert(toml_doc::pairs_view(out@) =~= seq![]);
    push_text(&mut out, "main_repo", "repo.git");
    push_text(&mut out, "worktrees_dir", "worktrees");
    let priorities = vec!["urgent", "soon"];
    let priorities = texts(&priorities);
    assert(priorities.view()->List_0 =~= example_entries()[2].value->List_0);
    push_value(&mut out, "priority_labels", priorities);
    push_text(&mut out, "pr_instructions", "pull-request.md");
    push_text(&mut out, "permission_mode", "auto");
    push_value(&mut out, "delete_plan_on_approval", Toml::Flag(true));
    push_value(&mut out, "auto_collect_garbage", Toml::Flag(true));
    push_value(&mut out, "auto_collect_garbage_interval_hours", Toml::Count(24));
    push_value(&mut out, "auto_merge_base", Toml::Flag(true));
    push_value(&mut out, "only_assigned_to_me", Toml::Flag(true));
    push_text(&mut out, "blocked_label", "blocked");
    push_value(&mut out, "issue_repos", example_repos());
    let users = vec!["octocat"];
    let users = texts(&users);
    assert(users.view()->List_0 =~= example_entries()[12].value->List_0);
    push_value(&mut out, "allowed_users", users);
    assert(toml_doc::pairs_view(out@) =~= example_entries());
    out
}

/// Build a `[labels.*]` sub-table, pairing each option's key with the matching
/// example value (the values are in option order).
pub fn label_subtable(fields: &Vec<Field>, values: &Vec<&str>) -> (r: Vec<Pair>)
    ensures
        toml_doc::pairs_view(r@) == zipped(fields@, text::str_views(values@)),
{
    let ghost all = zipped(fields@, text::str_views(values@));
    let mut out: Vec<Pair> = Vec::new();
    let mut i: usize = 0;
    assert(toml_doc::pairs_view(out@) =~= all.take(0));
    while i < fields.len() && i < values.len()
        invariant
            i <= fields.len() && i <= values.len(),
            all == zipped(fields@, text::str_views(values@)),
            toml_doc::pairs_view(out@) == all.take(i as int),
        decreases fields.len() - i,
    {
        push_text(&mut out, fields[i].key.as_str(), values[i]);
        assert(all.take(i + 1) =~= all.take(i as int).push(all[i as int]));
        i = i + 1;
    }
    assert(all.take(i as int) =~= all);
    out
}

/// Build the annotated example document. Comments are the options' own
/// documentation; values are illustrative. The `[labels]` table comes last so it
/// renders after the root keys. The text reads back as the settings that it shows.
pub fn render_example(
    agent: &str,
    root: &Vec<Field>,
    phase: &Vec<Field>,
    attention: &Vec<Field>,
) -> (r: String)
    ensures
        exists|doc: toml_edit::DocumentMut| #[trigger]
            is_example(agent@, doc, root@, phase@, attention@) && r@ == toml_doc::text_of(doc),
        clearly_documented(root@) ==> toml_doc::reads_as(
            r@,
            example_settings(agent@, phase@, attention@),
        ),
{
    let ghost all = example_entries();
    let mut rest = build_entries();
    let mut doc = toml_doc::new();
    let ghost mut done: int = 0;
    proof {
        assert(all.skip(0) =~= all);
        assert(all.take(0) =~= seq![]);
        assert(toml_doc::settings(doc) =~= toml_doc::held(all.take(0)));
        assert(toml_doc::prefixes(doc) =~= led(root@, all.take(0)));
        assert(toml_doc::keys(doc) =~= toml_doc::ordered(all.take(0)));
    }
    while rest.len() > 0
        invariant
            0 <= done <= all.len(),
            toml_doc::pairs_view(rest@) == all.skip(done),
            toml_doc::settings(doc) == toml_doc::held(all.take(done)),
            toml_doc::prefixes(doc) == led(root@, all.take(done)),
            toml_doc::keys(doc) == toml_doc::ordered(all.take(done)),
            clearly_documented(root@) ==> toml_doc::readable(doc),
        decreases rest.len(),
    {
        proof {
            assert(toml_doc::pairs_view(rest@).len() == rest@.len());
            assert(all.skip(done).len() == all.len() - done);
            assert(all.take(done + 1).drop_last() =~= all.take(done));
            assert(all.take(done + 1).last() == all[done]);
            assert(toml_doc::pairs_view(rest@)[0] == all[done]);
            if done > 0 {
                let last = all.take(done).last().key;
                assert(toml_doc::settings(doc).dom().contains(last));
            } else {
                assert(toml_doc::settings(doc).dom() =~= Set::empty());
            }
        }
        let ghost pairs = rest@;
        let pair = rest.remove(0);
        assert(pair.view() == all[done]);
        let comment = config_comment(root, pair.key.as_str());
        proof {
            if clearly_documented(root@) {
                lemma_comment_clear(root@, pair.key@);
            }
        }
        init::insert_with_comment(&mut doc, pair.key.as_str(), pair.value, comment.as_str());
        proof {
            assert(toml_doc::pairs_view(rest@) =~= all.skip(done + 1)) by {
                assert forall|k: int| 0 <= k < rest@.len() implies toml_doc::pairs_view(rest@)[k]
                    == all.skip(done + 1)[k] by {
                    assert(rest@[k] == pairs[k + 1]);
                    assert(toml_doc::pairs_view(pairs)[k + 1] == all.skip(done)[k + 1]);
                }
            }
            done = done + 1;
        }
    }
    assert(toml_doc::pairs_view(rest@).len() == 0);
    assert(all.take(done) =~= all);
    let phases = vec![
        "ghwf:pre-plan",
        "ghwf:planning",
        "ghwf:implementing",
        "ghwf:review",
        "ghwf:finished",
    ];
    assert(text::str_views(phases@) =~= phase_values());
    let command = text::lowered(agent);
    let mut working = text::copy("ghwf:");
    working.append(command.as_str());
    working.append("-working");
    let attentions = vec!["ghwf:needs-you", working.as_str(), "ghwf:preparing"];
    assert(text::str_views(attentions@) =~= attention_values(agent@));
    let mut sections: Vec<Section> = Vec::new();
    sections.push(Section { name: text::copy("phase"), entries: label_subtable(phase, &phases) });
    sections.push(
        Section { name: text::copy("attention"), entries: label_subtable(attention, &attentions) },
    );
    assert(toml_doc::sections_view(sections@) =~= example_labels(agent@, phase@, attention@));
    let prefix = init::comment_prefix(config_comment(root, "labels").as_str(), false);
    toml_doc::insert_sections(&mut doc, "labels", sections, prefix.as_str());
    proof {
        if clearly_documented(root@) {
            lemma_comment_clear(root@, "labels"@);
            init::lemma_prefix_is_comment(comment_of(root@, "labels"@), false);
        }
        lemma_example_simple(agent@, phase@, attention@);
    }
    assert(is_example(agent@, doc, root@, phase@, attention@));
    toml_doc::print(&doc)
}

proof fn lemma_walk_key(fields: Option<Vec<Field>>, segments: Seq<Seq<char>>, i: int)
    requires
        0 <= i < segments.len(),
    ensures
        match walk(fields, segments, i) {
            Lookup::Found(field) => field.key@ == segments.last(),
            _ => true,
        },
    decreases segments.len() - i,
{
    match fields {
        None => {},
        Some(fields) => {
            let at = position(fields@, segments[i]);
            if 0 <= at < fields@.len() {
                lemma_position_key(fields@, segments[i]);
                if i + 1 < segments.len() {
                    lemma_walk_key(fields@[at].fields, segments, i + 1);
                }
            }
        },
    }
}

proof fn lemma_position_key(fields: Seq<Field>, key: Seq<char>)
    ensures
        0 <= position(fields, key),
        position(fields, key) < fields.len() ==> fields[position(fields, key)].key@ == key,
    decreases fields.len(),
{
    if fields.len() > 0 && fields[0].key@ != key {
        lemma_position_key(fields.skip(1), key);
    }
}

/// The option that a path leads to is named by the path's last segment.
pub proof fn paths_end_in_the_options_key(root: Seq<Field>, path: Seq<char>)
    ensures
        match lookup(root, path) {
            Lookup::Found(field) => field.key@ == text::split(path, '.').last(),
            _ => true,
        },
{
    let segments = text::split(path, '.');
    text::lemma_index_of_bounds(path, '.');
    let at = position(root, segments[0]);
    if 0 <= at < root.len() {
        lemma_position_key(root, segments[0]);
        if segments.len() > 1 {
            lemma_walk_key(root[at].fields, segments, 1);
        }
    }
}

} // verus!
