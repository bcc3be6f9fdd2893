//! The wizard that creates or extends `ghwf.toml`.

use vstd::prelude::*;

use crate::text;
use crate::toml_doc;

verus! {

/// The two `ghwf.toml` placements the wizard offers.
pub const REPO_ROOT_LAYOUT: &'static str =
    "Repo root — ghwf.toml at the root of this git repo; worktrees in a gitignored directory under it";

pub const PARENT_DIR_LAYOUT: &'static str =
    "Parent dir — ghwf.toml in the current directory, alongside the repo and the worktrees directory";

pub const PR_STUB_INTRO: &'static str =
    "Instructions for writing this project's pull request titles and bodies.\nFree-form prose, read by ";

pub const PR_STUB_END: &'static str =
    " whenever it creates or updates a PR;\nreplace these examples with your own conventions.\n\n- Keep the title short and imperative.\n- Describe what the change does and why, not a file-by-file how.\n";

/// Stub written when the wizard creates a `pull-request.md`.
pub fn pr_stub(agent: &str) -> (r: String)
    ensures
        r@ == PR_STUB_INTRO@ + agent@ + PR_STUB_END@,
{
    let mut out = text::copy(PR_STUB_INTRO);
    out.append(agent);
    out.append(PR_STUB_END);
    out
}

/// The non-empty parts of a comma-separated answer, trimmed.
pub open spec fn answered(parts: Seq<Seq<char>>) -> Seq<Seq<char>>
    decreases parts.len(),
{
    if parts.len() == 0 {
        seq![]
    } else {
        let before = answered(parts.drop_last());
        let part = text::trim(parts.last());
        if part.len() == 0 {
            before
        } else {
            before.push(part)
        }
    }
}

/// The non-empty parts of a comma-separated answer, trimmed.
fn parse_answer(input: &str) -> (r: Vec<String>)
    ensures
        text::views(r@) == answered(text::split(input@, ',')),
{
    let parts = text::split_on(input, ',');
    let ghost all = text::split(input@, ',');
    let mut out: Vec<String> = Vec::new();
    let mut i: usize = 0;
    assert(all.take(0) =~= seq![]);
    assert(text::views(out@) =~= seq![]);
    while i < parts.len()
        invariant
            i <= parts.len(),
            all == text::views(parts@),
            text::views(out@) == answered(all.take(i as int)),
        decreases parts.len() - i,
    {
        assert(all.take(i + 1).drop_last() =~= all.take(i as int));
        assert(all.take(i + 1).last() == parts@[i as int]@);
        let part = text::trimmed(parts[i].as_str());
        if !part.as_str().is_empty() {
            proof {
                text::lemma_views_push(out@, part);
            }
            out.push(part);
        }
        i = i + 1;
    }
    assert(all.take(all.len() as int) =~= all);
    out
}

/// Parse the comma-separated priority-labels answer: trimmed, empties dropped.
pub fn parse_priority_labels(input: &str) -> (r: Vec<String>)
    ensures
        text::views(r@) == answered(text::split(input@, ',')),
{
    parse_answer(input)
}

/// Parse the comma-separated issue-repos answer: trimmed, empties dropped.
pub fn parse_issue_repos(input: &str) -> (r: Vec<String>)
    ensures
        text::views(r@) == answered(text::split(input@, ',')),
{
    parse_answer(input)
}

/// The lines, each behind a comment mark and ended.
pub open spec fn commented(lines: Seq<Seq<char>>) -> Seq<char>
    decreases lines.len(),
{
    if lines.len() == 0 {
        seq![]
    } else {
        commented(lines.drop_last()) + "# "@ + lines.last() + "\n"@
    }
}

/// What is printed before a key with this comment: a separating blank line unless
/// it's the first thing in the file, and the comment.
pub open spec fn prefix_of(comment: Seq<char>, first: bool) -> Seq<char> {
    (if first {
        ""@
    } else {
        "\n"@
    }) + commented(text::lines(comment))
}

/// What is printed before a key with this comment.
pub fn comment_prefix(comment: &str, first: bool) -> (r: String)
    ensures
        r@ == prefix_of(comment@, first),
{
    let lines = text::lines_of(comment);
    let ghost all = text::lines(comment@);
    let mut body = text::copy("");
    let mut i: usize = 0;
    proof {
        reveal_strlit("");
        assert(all.take(0) =~= seq![]);
        assert(body@ =~= seq![]);
    }
    while i < lines.len()
        invariant
            i <= lines.len(),
            all == text::views(lines@),
            body@ == commented(all.take(i as int)),
        decreases lines.len() - i,
    {
        assert(all.take(i + 1).drop_last() =~= all.take(i as int));
        assert(all.take(i + 1).last() == lines@[i as int]@);
        body.append("# ");
        body.append(lines[i].as_str());
        body.append("\n");
        i = i + 1;
    }
    assert(all.take(all.len() as int) =~= all);
    let mut out = text::copy(
        if first {
            ""
        } else {
            "\n"
        },
    );
    out.append(body.as_str());
    out
}

/// The lines of a clear text are clear lines.
proof fn lemma_lines_clear(s: Seq<char>)
    requires
        toml_doc::is_clear(s),
    ensures
        forall|k: int|
            0 <= k < text::lines(s).len() ==> toml_doc::is_clear(#[trigger] text::lines(s)[k]),
    decreases s.len(),
{
    text::lemma_index_of_bounds(s, '\n');
    let i = text::index_of(s, '\n');
    if s.len() > 0 && i < s.len() {
        let rest = s.skip(i + 1);
        assert forall|j: int| 0 <= j < rest.len() implies (#[trigger] rest[j]) == '\n'
            || toml_doc::is_plain(rest[j]) by {
            assert(rest[j] == s[i + 1 + j]);
        }
        lemma_lines_clear(rest);
        let first = text::strip_cr(s.take(i));
        assert(toml_doc::is_clear(first)) by {
            assert forall|j: int| 0 <= j < first.len() implies (#[trigger] first[j]) == '\n'
                || toml_doc::is_plain(first[j]) by {
                assert(first[j] == s[j]);
            }
        }
        assert forall|k: int| 0 <= k < text::lines(s).len() implies toml_doc::is_clear(
            #[trigger] text::lines(s)[k],
        ) by {
            if k > 0 {
                assert(text::lines(s)[k] == text::lines(rest)[k - 1]);
            }
        }
    }
}

/// Clear lines behind comment marks are comments.
proof fn lemma_commented_is_comment(lines: Seq<Seq<char>>)
    requires
        forall|k: int|
            0 <= k < lines.len() ==> toml_doc::is_clear(#[trigger] lines[k]) && text::one_line(
                lines[k],
            ),
    ensures
        toml_doc::comment_lines(commented(lines)),
    decreases lines.len(),
{
    if lines.len() > 0 {
        let rest = lines.drop_last();
        assert forall|k: int| 0 <= k < rest.len() implies toml_doc::is_clear(#[trigger] rest[k])
            && text::one_line(rest[k]) by {
            assert(rest[k] == lines[k]);
        }
        lemma_commented_is_comment(rest);
        let line = lines[lines.len() - 1];
        assert(toml_doc::is_clear(line) && text::one_line(line));
        reveal_strlit("# ");
        reveal_strlit("\n");
        let own = "# "@ + line + "\n"@;
        assert forall|i: int| 0 <= i < own.len() implies ((#[trigger] own[i]) == '\n'
            || toml_doc::is_plain(own[i])) && ((i == 0 || own[i - 1] == '\n') ==> own[i] == '\n'
            || own[i] == '#') by {
            if 2 <= i < own.len() - 1 {
                assert(own[i] == line[i - 2]);
            }
            if 3 <= i < own.len() {
                assert(own[i - 1] == line[i - 3]);
            }
        }
        toml_doc::lemma_comments_append(commented(rest), own);
        assert(commented(lines) =~= commented(rest) + own);
    }
}

/// What is printed before a key with a clear comment are blank lines and comments.
pub proof fn lemma_prefix_is_comment(comment: Seq<char>, first: bool)
    requires
        toml_doc::is_clear(comment),
    ensures
        toml_doc::comment_lines(prefix_of(comment, first)),
{
    lemma_lines_clear(comment);
    text::lemma_lines_are_lines(comment);
    lemma_commented_is_comment(text::lines(comment));
    reveal_strlit("");
    reveal_strlit("\n");
    let lead = if first {
        ""@
    } else {
        "\n"@
    };
    assert(toml_doc::comment_lines(lead));
    toml_doc::lemma_comments_append(lead, commented(text::lines(comment)));
}

/// Whether nothing stands in the document.
pub open spec fn fresh(doc: toml_edit::DocumentMut) -> bool {
    toml_doc::settings(doc).dom().is_empty()
}

/// The document `after` is `before` with this setting under a key, and an
/// explanatory comment above it. Nothing else in the root table changes.
pub open spec fn is_set(
    before: toml_edit::DocumentMut,
    after: toml_edit::DocumentMut,
    key: Seq<char>,
    value: toml_doc::Setting,
    comment: Seq<char>,
) -> bool {
    &&& toml_doc::settings(after) == toml_doc::settings(before).insert(key, value)
    &&& toml_doc::keys(after) == toml_doc::with_key(toml_doc::keys(before), key)
    &&& toml_doc::readable(before) && toml_doc::is_clear(comment) ==> toml_doc::readable(after)
    &&& toml_doc::prefixes(after) == toml_doc::prefixes(before).insert(
        key,
        prefix_of(comment, fresh(before)),
    )
}

/// Insert a key-value at the end of the document's root table (before any
/// sub-tables, per TOML semantics) with an explanatory `# comment` above it, and a
/// separating blank line unless it's the first thing in the file.
pub fn insert_with_comment(
    doc: &mut toml_edit::DocumentMut,
    key: &str,
    value: toml_doc::Toml,
    comment: &str,
)
    ensures
        is_set(*old(doc), *final(doc), key@, value.view(), comment@),
{
    let first = toml_doc::is_empty(doc);
    let prefix = comment_prefix(comment, first);
    toml_doc::insert(doc, key, value);
    toml_doc::set_prefix(doc, key, prefix.as_str());
    proof {
        if toml_doc::is_clear(comment@) {
            lemma_prefix_is_comment(comment@, first);
        }
    }
    assert(toml_doc::prefixes(*doc) =~= toml_doc::prefixes(*old(doc)).insert(
        key@,
        prefix_of(comment@, first),
    ));
}

/// Insert a text, with an explanatory comment above it.
fn set_text(doc: &mut toml_edit::DocumentMut, key: &str, value: &str, comment: &str)
    ensures
        is_set(*old(doc), *final(doc), key@, toml_doc::Setting::Text(value@), comment@),
{
    insert_with_comment(doc, key, toml_doc::Toml::Text(text::copy(value)), comment);
}

/// Insert a list of texts, with an explanatory comment above it.
fn set_list(doc: &mut toml_edit::DocumentMut, key: &str, items: &[String], comment: &str)
    ensures
        is_set(
            *old(doc),
            *final(doc),
            key@,
            toml_doc::Setting::List(toml_doc::texts(text::views(items@))),
            comment@,
        ),
{
    insert_with_comment(doc, key, toml_doc::text_list(items), comment);
}

pub const MAIN_REPO_COMMENT: &'static str =
    "Path to the main git repo, relative to this file's directory.";

pub const WORKTREES_COMMENT: &'static str =
    "Directory under which ghwf creates per-issue worktrees.";

/// The document `after` is `before` with the essential keys: `main_repo` (where the
/// layout calls for it) and `worktrees_dir`.
pub open spec fn is_laid_out(
    before: toml_edit::DocumentMut,
    after: toml_edit::DocumentMut,
    main_repo: Option<Seq<char>>,
    worktrees_dir: Seq<char>,
) -> bool {
    let dir = toml_doc::Setting::Text(worktrees_dir);
    match main_repo {
        Some(main_repo) => exists|mid: toml_edit::DocumentMut|
            is_set(
                before,
                mid,
                "main_repo"@,
                toml_doc::Setting::Text(main_repo),
                MAIN_REPO_COMMENT@,
            ) && #[trigger] is_set(mid, after, "worktrees_dir"@, dir, WORKTREES_COMMENT@),
        None => is_set(before, after, "worktrees_dir"@, dir, WORKTREES_COMMENT@),
    }
}

/// A config that is made of the essentials alone is readable, and holds them: its text
/// reads back.
pub proof fn fresh_essentials_read_back(
    before: toml_edit::DocumentMut,
    after: toml_edit::DocumentMut,
    main_repo: Option<Seq<char>>,
    worktrees_dir: Seq<char>,
)
    requires
        fresh(before),
        toml_doc::readable(before),
        is_laid_out(before, after, main_repo, worktrees_dir),
    ensures
        toml_doc::readable(after),
        toml_doc::all_simple(toml_doc::settings(after)),
        toml_doc::settings(after) == (match main_repo {
            Some(main_repo) => Map::empty().insert(
                "main_repo"@,
                toml_doc::Setting::Text(main_repo),
            ),
            None => Map::empty(),
        }).insert("worktrees_dir"@, toml_doc::Setting::Text(worktrees_dir)),
{
    assert(toml_doc::is_clear(MAIN_REPO_COMMENT@)) by {
        reveal_strlit("Path to the main git repo, relative to this file's directory.");
        reveal_with_fuel(toml_doc::clear_upto, 62);
        assert(MAIN_REPO_COMMENT@.len() == 61);
        assert(toml_doc::clear_upto(MAIN_REPO_COMMENT@, 61));
        toml_doc::lemma_clear(MAIN_REPO_COMMENT@, 61);
    }
    assert(toml_doc::is_clear(WORKTREES_COMMENT@)) by {
        reveal_strlit("Directory under which ghwf creates per-issue worktrees.");
        reveal_with_fuel(toml_doc::clear_upto, 56);
        assert(WORKTREES_COMMENT@.len() == 55);
        assert(toml_doc::clear_upto(WORKTREES_COMMENT@, 55));
        toml_doc::lemma_clear(WORKTREES_COMMENT@, 55);
    }
    assert(toml_doc::settings(before) =~= Map::empty());
}

/// Write the essential keys: `main_repo` (when the layout calls for it) and
/// `worktrees_dir`.
pub fn set_essentials(
    doc: &mut toml_edit::DocumentMut,
    main_repo: Option<&str>,
    worktrees_dir: &str,
)
    ensures
        is_laid_out(
            *old(doc),
            *final(doc),
            match main_repo {
                Some(main_repo) => Some(main_repo@),
                None => None,
            },
            worktrees_dir@,
        ),
{
    match main_repo {
        Some(main_repo) => {
            set_text(doc, "main_repo", main_repo, MAIN_REPO_COMMENT);
        },
        None => {},
    }
    let ghost mid = *doc;
    set_text(doc, "worktrees_dir", worktrees_dir, WORKTREES_COMMENT);
    assert(is_set(
        mid,
        *doc,
        "worktrees_dir"@,
        toml_doc::Setting::Text(worktrees_dir@),
        WORKTREES_COMMENT@,
    ));
}

pub const PRIORITY_COMMENT: &'static str =
    "Labels marking an issue as urgent, most urgent first (used by `ghwf next`).";

/// Write the `priority_labels` array.
pub fn set_priority_labels(doc: &mut toml_edit::DocumentMut, priority_labels: &[String])
    ensures
        is_set(
            *old(doc),
            *final(doc),
            "priority_labels"@,
            toml_doc::Setting::List(toml_doc::texts(text::views(priority_labels@))),
            PRIORITY_COMMENT@,
        ),
{
    set_list(doc, "priority_labels", priority_labels, PRIORITY_COMMENT);
}

/// What is said of the `permission_mode` key.
pub open spec fn mode_comment(agent: Seq<char>) -> Seq<char> {
    "Permission mode for the "@ + agent + " sessions ghwf launches, passed through\nas `"@
        + text::lower(agent) + " --permission-mode <value>`."@
}

/// Write the `permission_mode` key.
pub fn set_permission_mode(agent: &str, doc: &mut toml_edit::DocumentMut, mode: &str)
    ensures
        is_set(
            *old(doc),
            *final(doc),
            "permission_mode"@,
            toml_doc::Setting::Text(mode@),
            mode_comment(agent@),
        ),
{
    let mut comment = text::copy("Permission mode for the ");
    comment.append(agent);
    comment.append(" sessions ghwf launches, passed through\nas `");
    comment.append(text::lowered(agent).as_str());
    comment.append(" --permission-mode <value>`.");
    set_text(doc, "permission_mode", mode, comment.as_str());
}

pub const DELETE_PLAN_COMMENT: &'static str =
    "When true, ghwf rewrites the plan commit out of the branch's history\n\
     once the implementation is approved (the draft PR is marked ready for\n\
     review), then force-pushes the branch. Skipped with a warning when it\n\
     can't be done safely; a no-op in --no-branch mode.";

/// Write the `delete_plan_on_approval` key (only ever set to `true`: the wizard
/// offers it only when absent, and the default is `false`).
pub fn set_delete_plan_on_approval(doc: &mut toml_edit::DocumentMut)
    ensures
        is_set(
            *old(doc),
            *final(doc),
            "delete_plan_on_approval"@,
            toml_doc::Setting::Flag(true),
            DELETE_PLAN_COMMENT@,
        ),
{
    insert_with_comment(
        doc,
        "delete_plan_on_approval",
        toml_doc::Toml::Flag(true),
        DELETE_PLAN_COMMENT,
    );
}

pub const BLOCKED_COMMENT: &'static str =
    "Label `ghwf create-issue` applies to a follow-up to mark it blocked by\n\
     the issue it was filed from (default `blocked`).";

/// Write the `blocked_label` key.
pub fn set_blocked_label(doc: &mut toml_edit::DocumentMut, label: &str)
    ensures
        is_set(
            *old(doc),
            *final(doc),
            "blocked_label"@,
            toml_doc::Setting::Text(label@),
            BLOCKED_COMMENT@,
        ),
{
    set_text(doc, "blocked_label", label, BLOCKED_COMMENT);
}

pub const ISSUE_REPOS_COMMENT: &'static str =
    "Repos whose issues may be worked on while the code, worktree, and PR\n\
     stay in this repo. Each entry is \"owner/repo\", or a table\n\
     { repo = \"owner/repo\", branch_prefix = \"…\" } to set the branch prefix.";

/// Write the `issue_repos` key as an array of plain `"owner/repo"` strings. The
/// richer table form is a documented hand-edit.
pub fn set_issue_repos(doc: &mut toml_edit::DocumentMut, issue_repos: &[String])
    ensures
        is_set(
            *old(doc),
            *final(doc),
            "issue_repos"@,
            toml_doc::Setting::List(toml_doc::texts(text::views(issue_repos@))),
            ISSUE_REPOS_COMMENT@,
        ),
{
    set_list(doc, "issue_repos", issue_repos, ISSUE_REPOS_COMMENT);
}

/// Editing a document leaves every other setting as it was, what is printed before
/// its key, and the order of the keys.
pub proof fn edits_keep_other_settings(
    before: toml_edit::DocumentMut,
    after: toml_edit::DocumentMut,
    key: Seq<char>,
    value: toml_doc::Setting,
    comment: Seq<char>,
    other: Seq<char>,
)
    requires
        is_set(before, after, key, value, comment),
        other != key,
    ensures
        toml_doc::settings(after).contains_key(other) == toml_doc::settings(before).contains_key(
            other,
        ),
        toml_doc::settings(before).contains_key(other) ==> toml_doc::settings(after)[other]
            == toml_doc::settings(before)[other],
        toml_doc::prefixes(before).contains_key(other) ==> toml_doc::prefixes(after).contains_key(
            other,
        ) && toml_doc::prefixes(after)[other] == toml_doc::prefixes(before)[other],
        toml_doc::keys(before).is_prefix_of(toml_doc::keys(after)),
{
}

/// Every setting that is written is led by a comment; in a fresh file the comment
/// comes first, and elsewhere a blank line precedes it.
pub proof fn settings_are_commented(comment: Seq<char>, line: Seq<char>, first: bool)
    requires
        text::lines(comment).len() > 0,
        line == text::lines(comment)[0],
    ensures
        text::starts_with(
            prefix_of(comment, first),
            (if first {
                ""@
            } else {
                "\n"@
            }) + "# "@ + line + "\n"@,
        ),
{
    let lines = text::lines(comment);
    lemma_commented_starts(lines);
    let lead = if first {
        ""@
    } else {
        "\n"@
    };
    let own = "# "@ + line + "\n"@;
    let whole = prefix_of(comment, first);
    assert(commented(lines).take(own.len() as int) =~= own);
    assert(whole.subrange(0, (lead + "# "@ + line + "\n"@).len() as int) =~= lead + "# "@ + line
        + "\n"@) by {
        assert(lead + "# "@ + line + "\n"@ =~= lead + own);
        assert forall|i: int| 0 <= i < lead.len() + own.len() implies whole[i] == (lead + own)[i] by {
            if i >= lead.len() {
                assert(whole[i] == commented(lines)[i - lead.len()]);
                assert(commented(lines)[i - lead.len()] == commented(lines).take(
                    own.len() as int,
                )[i - lead.len()]);
            }
        }
    }
}

proof fn lemma_commented_starts(lines: Seq<Seq<char>>)
    requires
        lines.len() > 0,
    ensures
        commented(lines).len() >= ("# "@ + lines[0] + "\n"@).len(),
        commented(lines).take(("# "@ + lines[0] + "\n"@).len() as int) == "# "@ + lines[0] + "\n"@,
    decreases lines.len(),
{
    let own = "# "@ + lines[0] + "\n"@;
    if lines.len() == 1 {
        assert(commented(lines.drop_last()) =~= seq![]);
        assert(commented(lines) =~= own);
        assert(own.take(own.len() as int) =~= own);
    } else {
        let rest = lines.drop_last();
        lemma_commented_starts(rest);
        assert(rest[0] == lines[0]);
        assert(commented(lines).take(own.len() as int) =~= commented(rest).take(own.len() as int));
    }
}

/// The document to edit: the existing config's, or an empty one. The raw text is
/// kept as it is rather than read into settings: a half-written file is exactly
/// what the wizard is here to repair, and edits must preserve the user's
/// formatting and comments.
pub fn open_document(path: &str, existing: Option<&str>) -> (r: Result<
    toml_edit::DocumentMut,
    String,
>)
    ensures
        match existing {
            None => r is Ok && fresh(r->Ok_0) && toml_doc::readable(r->Ok_0),
            Some(content) => match toml_doc::parsed(content@) {
                Ok(settings) => r is Ok && toml_doc::settings(r->Ok_0) == settings
                    && toml_doc::readable(r->Ok_0),
                Err(e) => r is Err && r->Err_0@ == path@
                    + " is not valid TOML; fix it by hand and re-run: "@ + e,
            },
        },
{
    match existing {
        None => Ok(toml_doc::new()),
        Some(content) => match toml_doc::parse(content) {
            Ok(doc) => Ok(doc),
            Err(e) => {
                let mut s = text::copy(path);
                s.append(" is not valid TOML; fix it by hand and re-run: ");
                s.append(e.as_str());
                Err(s)
            },
        },
    }
}

/// The text of the edited config, which reads back as the settings it was made of.
pub fn document_text(doc: &toml_edit::DocumentMut) -> (r: String)
    ensures
        r@ == toml_doc::text_of(*doc),
        toml_doc::readable(*doc) && toml_doc::all_simple(toml_doc::settings(*doc))
            ==> toml_doc::reads_as(r@, toml_doc::settings(*doc)),
{
    toml_doc::print(doc)
}

/// Whether the essentials are missing: `worktrees_dir` is the one required key.
pub fn needs_essentials(doc: &toml_edit::DocumentMut) -> (r: bool)
    ensures
        r == !toml_doc::settings(*doc).contains_key("worktrees_dir"@),
{
    !toml_doc::contains_key(doc, "worktrees_dir")
}

/// Where the main repo comes from.
#[derive(Clone, Copy, Debug, PartialEq, Eq, Structural)]
pub enum MainRepo {
    /// The repo that holds the config.
    Around,
    /// It is asked for.
    Asked,
    /// The repo-root layout was chosen outside a git work tree.
    NotInRepo,
}

/// Where the main repo comes from when a new config is laid out, given the layout
/// chosen and whether the current directory is inside a work tree.
pub fn new_layout(repo_root: bool, in_repo: bool) -> (r: MainRepo)
    ensures
        r == (if !repo_root {
            MainRepo::Asked
        } else if in_repo {
            MainRepo::Around
        } else {
            MainRepo::NotInRepo
        }),
{
    if !repo_root {
        MainRepo::Asked
    } else if in_repo {
        MainRepo::Around
    } else {
        MainRepo::NotInRepo
    }
}

/// Where the main repo comes from when an existing config is repaired: its
/// location is fixed, and either the repo is already configured or the config
/// sits inside one, or it is asked for.
pub fn repaired_layout(doc: &toml_edit::DocumentMut, in_repo: bool) -> (r: MainRepo)
    ensures
        r == (if toml_doc::settings(*doc).contains_key("main_repo"@) || in_repo {
            MainRepo::Around
        } else {
            MainRepo::Asked
        }),
{
    if toml_doc::contains_key(doc, "main_repo") || in_repo {
        MainRepo::Around
    } else {
        MainRepo::Asked
    }
}

/// Whether the worktrees directory is to be ignored by git: it lies inside the
/// repo's work tree, so it would otherwise pollute every git status.
pub fn needs_ignoring(doc: &toml_edit::DocumentMut, in_repo: bool, ignored: bool) -> (r: bool)
    ensures
        r == (!toml_doc::settings(*doc).contains_key("main_repo"@) && in_repo && !ignored),
{
    !toml_doc::contains_key(doc, "main_repo") && in_repo && !ignored
}

/// The text without leading slashes.
pub open spec fn unlead(s: Seq<char>) -> Seq<char>
    decreases s.len(),
{
    if s.len() > 0 && s[0] == '/' {
        unlead(s.skip(1))
    } else {
        s
    }
}

/// The text without trailing slashes.
pub open spec fn untrail(s: Seq<char>) -> Seq<char>
    decreases s.len(),
{
    if s.len() > 0 && s.last() == '/' {
        untrail(s.drop_last())
    } else {
        s
    }
}

/// The `.gitignore` line for the worktrees directory.
pub fn ignore_line(worktrees_dir: &str) -> (r: String)
    ensures
        r@ == "/"@ + untrail(unlead(worktrees_dir@)) + "/"@,
{
    let v = text::chars(worktrees_dir);
    let ghost all = worktrees_dir@;
    let mut from: usize = 0;
    assert(all.skip(0) =~= all);
    while from < v.len() && v[from] == '/'
        invariant
            from <= v.len(),
            v@ == all,
            unlead(all) == unlead(all.skip(from as int)),
        decreases v.len() - from,
    {
        assert(all.skip(from as int).skip(1) =~= all.skip(from + 1));
        from = from + 1;
    }
    let ghost rest = all.skip(from as int);
    assert(unlead(all) == rest);
    let mut to: usize = v.len();
    assert(rest =~= all.subrange(from as int, to as int));
    while to > from && v[to - 1] == '/'
        invariant
            from <= to <= v.len(),
            v@ == all,
            untrail(rest) == untrail(all.subrange(from as int, to as int)),
        decreases to,
    {
        assert(all.subrange(from as int, to as int).drop_last() =~= all.subrange(
            from as int,
            to - 1,
        ));
        to = to - 1;
    }
    let kept = text::slice(&v, from, to);
    assert(kept@ =~= all.subrange(from as int, to as int));
    let mut out = text::copy("/");
    out.append(kept.as_str());
    out.append("/");
    out
}

/// A text with a line put behind it, once the text's own last line is ended.
pub fn append_line(content: &str, line: &str) -> (r: String)
    ensures
        r@ == (if content@.len() > 0 && content@.last() != '\n' {
            content@ + "\n"@
        } else {
            content@
        }) + line@ + "\n"@,
{
    let v = text::chars(content);
    let mut out = text::copy(content);
    if v.len() > 0 && v[v.len() - 1] != '\n' {
        out.append("\n");
    }
    out.append(line);
    out.append("\n");
    out
}

/// Whether the child directory `name` is offered as the main repo.
pub open spec fn offered(name: Seq<char>, is_repo: bool) -> bool {
    is_repo && !text::starts_with(name, "."@)
}

/// A child directory of this name is offered as the main repo.
pub open spec fn is_offered(names: Seq<String>, is_repo: Seq<bool>, s: Seq<char>) -> bool {
    exists|i: int| 0 <= i < names.len() && (#[trigger] names[i])@ == s && offered(s, is_repo[i])
}

/// The git repos (bare ones included) among a directory's children, sorted by
/// name. Dot-directories are skipped.
pub fn child_repos(names: &Vec<String>, is_repo: &Vec<bool>) -> (r: Vec<String>)
    requires
        is_repo@.len() == names@.len(),
    ensures
        text::rising(r@),
        forall|s: Seq<char>| #[trigger]
            text::listed(r@, s) == exists|i: int|
                0 <= i < names@.len() && (#[trigger] names@[i])@ == s && offered(s, is_repo@[i]),
        forall|s: Seq<char>| #[trigger]
            text::listed(r@, s) == is_offered(names@, is_repo@, s),
{
    let mut out: Vec<String> = Vec::new();
    let mut i: usize = 0;
    while i < names.len()
        invariant
            i <= names.len(),
            is_repo@.len() == names@.len(),
            text::rising(out@),
            forall|s: Seq<char>| #[trigger]
                text::listed(out@, s) == exists|k: int|
                    0 <= k < i && (#[trigger] names@[k])@ == s && offered(s, is_repo@[k]),
        decreases names.len() - i,
    {
        let ghost before = out@;
        let takes = is_repo[i] && !text::has_prefix(names[i].as_str(), ".");
        if takes {
            text::put_in_order(&mut out, names[i].as_str());
        }
        proof {
            let now = out@;
            assert forall|s: Seq<char>| #[trigger]
                text::listed(now, s) == exists|k: int|
                    0 <= k < i + 1 && (#[trigger] names@[k])@ == s && offered(s, is_repo@[k]) by {
                assert(takes == offered(names@[i as int]@, is_repo@[i as int]));
                if text::listed(before, s) {
                    let k = choose|k: int|
                        0 <= k < i && (#[trigger] names@[k])@ == s && offered(s, is_repo@[k]);
                    assert(names@[k]@ == s);
                }
                if takes && s == names@[i as int]@ {
                    assert(names@[i as int]@ == s);
                }
                if exists|k: int|
                    0 <= k < i + 1 && (#[trigger] names@[k])@ == s && offered(s, is_repo@[k]) {
                    let k = choose|k: int|
                        0 <= k < i + 1 && (#[trigger] names@[k])@ == s && offered(s, is_repo@[k]);
                    if k < i {
                        assert(text::listed(before, s));
                    }
                }
            }
        }
        i = i + 1;
    }
    assert forall|s: Seq<char>| #[trigger]
        text::listed(out@, s) == is_offered(names@, is_repo@, s) by {}
    out
}

/// The optional extras that are offered, each only when not already configured.
#[derive(Clone, Copy, Debug, PartialEq, Eq, Structural)]
pub struct Offers {
    pub priority_labels: bool,
    pub pr_stub: bool,
    pub permission_mode: bool,
    pub delete_plan_on_approval: bool,
    pub blocked_label: bool,
    pub issue_repos: bool,
    pub labels: bool,
}

/// The optional extras that are offered. `pr_file` says whether the default file
/// for PR instructions exists.
pub fn offers(doc: &toml_edit::DocumentMut, pr_file: bool) -> (r: Offers)
    ensures
        ({
            let present = |key: Seq<char>| toml_doc::settings(*doc).contains_key(key);
            r == (Offers {
                priority_labels: !present("priority_labels"@),
                pr_stub: !present("pr_instructions"@) && !pr_file,
                permission_mode: !present("permission_mode"@),
                delete_plan_on_approval: !present("delete_plan_on_approval"@),
                blocked_label: !present("blocked_label"@),
                issue_repos: !present("issue_repos"@),
                labels: !present("labels"@),
            })
        }),
{
    Offers {
        priority_labels: !toml_doc::contains_key(doc, "priority_labels"),
        pr_stub: !toml_doc::contains_key(doc, "pr_instructions") && !pr_file,
        permission_mode: !toml_doc::contains_key(doc, "permission_mode"),
        delete_plan_on_approval: !toml_doc::contains_key(doc, "delete_plan_on_approval"),
        blocked_label: !toml_doc::contains_key(doc, "blocked_label"),
        issue_repos: !toml_doc::contains_key(doc, "issue_repos"),
        labels: !toml_doc::contains_key(doc, "labels"),
    }
}

/// What the wizard is about to do.
pub struct Outcome {
    pub existing: bool,
    pub doc_changed: bool,
    pub config_path: String,
    pub create_worktrees_dir: Option<String>,
    pub gitignore_line: Option<String>,
    pub gitignore_path: String,
    pub pr_stub: Option<String>,
    pub run_labels: bool,
}

pub const LABELS_ACTION: &'static str =
    "create the workflow status labels in the GitHub repo and add a [labels] section to ";

/// One action, where it is taken.
pub open spec fn when(taken: bool, action: Seq<char>) -> Seq<Seq<char>> {
    if taken {
        seq![action]
    } else {
        seq![]
    }
}

/// What the wizard is about to do, in words.
pub open spec fn action_list(o: Outcome) -> Seq<Seq<char>> {
    when(
        o.doc_changed,
        (if o.existing {
            "update "@
        } else {
            "write "@
        }) + o.config_path@,
    ) + when(
        o.create_worktrees_dir is Some,
        "create directory "@ + o.create_worktrees_dir->0@,
    ) + when(
        o.gitignore_line is Some,
        "append `"@ + o.gitignore_line->0@ + "` to "@ + o.gitignore_path@,
    ) + when(o.pr_stub is Some, "create a stub "@ + o.pr_stub->0@) + when(
        o.run_labels,
        LABELS_ACTION@ + o.config_path@,
    )
}

/// Put an action behind the others.
fn push_action(actions: &mut Vec<String>, what: &str, object: &str)
    ensures
        text::views(final(actions)@) == text::views(old(actions)@) + seq![what@ + object@],
{
    let mut s = text::copy(what);
    s.append(object);
    actions.push(s);
    assert(text::views(actions@) =~= text::views(old(actions)@) + seq![what@ + object@]);
}

/// What the wizard is about to do, in words: shown before anything is written.
pub fn actions(o: &Outcome) -> (r: Vec<String>)
    ensures
        text::views(r@) == action_list(*o),
{
    let mut out: Vec<String> = Vec::new();
    assert(text::views(out@) =~= seq![]);
    if o.doc_changed {
        let verb = if o.existing {
            "update "
        } else {
            "write "
        };
        push_action(&mut out, verb, o.config_path.as_str());
    }
    match &o.create_worktrees_dir {
        Some(path) => {
            push_action(&mut out, "create directory ", path.as_str());
        },
        None => {},
    }
    match &o.gitignore_line {
        Some(line) => {
            let mut what = text::copy("append `");
            what.append(line.as_str());
            what.append("` to ");
            push_action(&mut out, what.as_str(), o.gitignore_path.as_str());
        },
        None => {},
    }
    match &o.pr_stub {
        Some(path) => {
            push_action(&mut out, "create a stub ", path.as_str());
        },
        None => {},
    }
    if o.run_labels {
        push_action(&mut out, LABELS_ACTION, o.config_path.as_str());
    }
    assert(text::views(out@) =~= action_list(*o));
    out
}

/// Write the essential keys: the document counts as changed.
pub fn lay_out(
    doc: &mut toml_edit::DocumentMut,
    outcome: &mut Outcome,
    main_repo: Option<&str>,
    worktrees_dir: &str,
)
    ensures
        is_laid_out(
            *old(doc),
            *final(doc),
            match main_repo {
                Some(main_repo) => Some(main_repo@),
                None => None,
            },
            worktrees_dir@,
        ),
        *final(outcome) == (Outcome { doc_changed: true, ..*old(outcome) }),
{
    set_essentials(doc, main_repo, worktrees_dir);
    outcome.doc_changed = true;
}

/// What the wizard asks about the optional extras, and what it does in the end.
#[derive(Clone, Copy, Debug, PartialEq, Eq, Structural)]
pub enum Stage {
    OfferPriorityLabels,
    PriorityLabels,
    OfferStub,
    OfferMode,
    Mode,
    OfferPlanDeletion,
    OfferBlockedLabel,
    BlockedLabel,
    OfferIssueRepos,
    IssueRepos,
    OfferStateLabels,
    /// Show what is about to be done, and ask whether to proceed.
    Proceed,
    /// Do it.
    Write,
    /// End: there is nothing to do.
    Nothing,
    /// End without having written anything.
    Abort,
}

/// The answer to a question of the wizard.
pub enum Reply {
    Yes,
    No,
    Text(String),
    /// The prompt was cancelled or interrupted.
    Cancelled,
}

/// The first of the offers from the `k`-th on, or what comes behind them.
pub open spec fn offer_from(offers: Offers, k: int, end: Stage) -> Stage {
    if k <= 0 && offers.priority_labels {
        Stage::OfferPriorityLabels
    } else if k <= 1 && offers.pr_stub {
        Stage::OfferStub
    } else if k <= 2 && offers.permission_mode {
        Stage::OfferMode
    } else if k <= 3 && offers.delete_plan_on_approval {
        Stage::OfferPlanDeletion
    } else if k <= 4 && offers.blocked_label {
        Stage::OfferBlockedLabel
    } else if k <= 5 && offers.issue_repos {
        Stage::OfferIssueRepos
    } else if k <= 6 && offers.labels {
        Stage::OfferStateLabels
    } else {
        end
    }
}

/// What comes behind the offers: the confirmation, where there is anything to do.
pub open spec fn closing(outcome: Outcome) -> Stage {
    if action_list(outcome).len() > 0 {
        Stage::Proceed
    } else {
        Stage::Nothing
    }
}

/// The stage is an end.
pub open spec fn is_end(stage: Stage) -> bool {
    stage == Stage::Write || stage == Stage::Nothing || stage == Stage::Abort
}

/// The stage that follows one with this reply. Each extra is offered once, one that needs
/// an answer is asked for only once it was accepted, and a cancelled prompt ends it all.
pub open spec fn stage_after(
    offers: Offers,
    stage: Stage,
    reply: Reply,
    outcome: Outcome,
) -> Stage {
    let end = closing(outcome);
    if is_end(stage) {
        stage
    } else if reply is Cancelled {
        Stage::Abort
    } else {
        match stage {
            Stage::OfferPriorityLabels => if reply is Yes {
                Stage::PriorityLabels
            } else {
                offer_from(offers, 1, end)
            },
            Stage::PriorityLabels => offer_from(offers, 1, end),
            Stage::OfferStub => offer_from(offers, 2, end),
            Stage::OfferMode => if reply is Yes {
                Stage::Mode
            } else {
                offer_from(offers, 3, end)
            },
            Stage::Mode => offer_from(offers, 3, end),
            Stage::OfferPlanDeletion => offer_from(offers, 4, end),
            Stage::OfferBlockedLabel => if reply is Yes {
                Stage::BlockedLabel
            } else {
                offer_from(offers, 5, end)
            },
            Stage::BlockedLabel => offer_from(offers, 5, end),
            Stage::OfferIssueRepos => if reply is Yes {
                Stage::IssueRepos
            } else {
                offer_from(offers, 6, end)
            },
            Stage::IssueRepos => offer_from(offers, 6, end),
            Stage::OfferStateLabels => end,
            Stage::Proceed => if reply is Yes {
                Stage::Write
            } else {
                Stage::Abort
            },
            _ => stage,
        }
    }
}

/// The first of the offers from the `k`-th on, or what comes behind them.
fn next_offer(offers: &Offers, k: usize, end: Stage) -> (r: Stage)
    ensures
        r == offer_from(*offers, k as int, end),
{
    if k == 0 && offers.priority_labels {
        Stage::OfferPriorityLabels
    } else if k <= 1 && offers.pr_stub {
        Stage::OfferStub
    } else if k <= 2 && offers.permission_mode {
        Stage::OfferMode
    } else if k <= 3 && offers.delete_plan_on_approval {
        Stage::OfferPlanDeletion
    } else if k <= 4 && offers.blocked_label {
        Stage::OfferBlockedLabel
    } else if k <= 5 && offers.issue_repos {
        Stage::OfferIssueRepos
    } else if k <= 6 && offers.labels {
        Stage::OfferStateLabels
    } else {
        end
    }
}

/// What comes behind the offers.
fn close(outcome: &Outcome) -> (r: Stage)
    ensures
        r == closing(*outcome),
{
    let list = actions(outcome);
    assert(text::views(list@).len() == list@.len());
    if list.len() > 0 {
        Stage::Proceed
    } else {
        Stage::Nothing
    }
}

/// The stage that the extras begin with.
pub fn first_stage(offers: &Offers, outcome: &Outcome) -> (r: Stage)
    ensures
        r == offer_from(*offers, 0, closing(*outcome)),
{
    next_offer(offers, 0, close(outcome))
}

/// The stage that follows one with this reply, once the reply was taken.
pub fn next_stage(offers: &Offers, stage: Stage, reply: &Reply, outcome: &Outcome) -> (r: Stage)
    ensures
        r == stage_after(*offers, stage, *reply, *outcome),
{
    let yes = match reply {
        Reply::Yes => true,
        _ => false,
    };
    let cancelled = match reply {
        Reply::Cancelled => true,
        _ => false,
    };
    let end = close(outcome);
    match stage {
        Stage::Write | Stage::Nothing | Stage::Abort => {
            return stage;
        },
        _ => {},
    }
    if cancelled {
        return Stage::Abort;
    }
    match stage {
        Stage::OfferPriorityLabels => if yes {
            Stage::PriorityLabels
        } else {
            next_offer(offers, 1, end)
        },
        Stage::PriorityLabels => next_offer(offers, 1, end),
        Stage::OfferStub => next_offer(offers, 2, end),
        Stage::OfferMode => if yes {
            Stage::Mode
        } else {
            next_offer(offers, 3, end)
        },
        Stage::Mode => next_offer(offers, 3, end),
        Stage::OfferPlanDeletion => next_offer(offers, 4, end),
        Stage::OfferBlockedLabel => if yes {
            Stage::BlockedLabel
        } else {
            next_offer(offers, 5, end)
        },
        Stage::BlockedLabel => next_offer(offers, 5, end),
        Stage::OfferIssueRepos => if yes {
            Stage::IssueRepos
        } else {
            next_offer(offers, 6, end)
        },
        Stage::IssueRepos => next_offer(offers, 6, end),
        Stage::OfferStateLabels => end,
        Stage::Proceed => if yes {
            Stage::Write
        } else {
            Stage::Abort
        },
        _ => stage,
    }
}

/// The document was edited, and counts as changed.
pub open spec fn is_edited(
    before: (toml_edit::DocumentMut, Outcome),
    after: (toml_edit::DocumentMut, Outcome),
    key: Seq<char>,
    value: toml_doc::Setting,
    comment: Seq<char>,
) -> bool {
    is_set(before.0, after.0, key, value, comment) && after.1 == (Outcome {
        doc_changed: true,
        ..before.1
    })
}

/// What a reply changes, and `taken` whether it changes anything: a blank answer, or one
/// to a question that was not asked, is skipped.
pub open spec fn is_taken(
    agent: Seq<char>,
    before: (toml_edit::DocumentMut, Outcome),
    after: (toml_edit::DocumentMut, Outcome),
    stage: Stage,
    reply: Reply,
    stub: Seq<char>,
    taken: bool,
) -> bool {
    match (stage, reply) {
        (Stage::PriorityLabels, Reply::Text(answer)) => {
            let names = answered(text::split(answer@, ','));
            let value = toml_doc::Setting::List(toml_doc::texts(names));
            taken == (names.len() > 0) && if taken {
                is_edited(before, after, "priority_labels"@, value, PRIORITY_COMMENT@)
            } else {
                after == before
            }
        },
        (Stage::OfferStub, Reply::Yes) => taken && after.0 == before.0 && after.1 == (Outcome {
            pr_stub: after.1.pr_stub,
            ..before.1
        }) && after.1.pr_stub is Some && after.1.pr_stub->0@ == stub,
        (Stage::Mode, Reply::Text(answer)) => {
            let value = toml_doc::Setting::Text(text::trim(answer@));
            taken == (text::trim(answer@).len() > 0) && if taken {
                is_edited(before, after, "permission_mode"@, value, mode_comment(agent))
            } else {
                after == before
            }
        },
        (Stage::OfferPlanDeletion, Reply::Yes) => taken && is_edited(
            before,
            after,
            "delete_plan_on_approval"@,
            toml_doc::Setting::Flag(true),
            DELETE_PLAN_COMMENT@,
        ),
        (Stage::BlockedLabel, Reply::Text(answer)) => {
            let value = toml_doc::Setting::Text(text::trim(answer@));
            taken == (text::trim(answer@).len() > 0) && if taken {
                is_edited(before, after, "blocked_label"@, value, BLOCKED_COMMENT@)
            } else {
                after == before
            }
        },
        (Stage::IssueRepos, Reply::Text(answer)) => {
            let repos = answered(text::split(answer@, ','));
            let value = toml_doc::Setting::List(toml_doc::texts(repos));
            taken == (repos.len() > 0) && if taken {
                is_edited(before, after, "issue_repos"@, value, ISSUE_REPOS_COMMENT@)
            } else {
                after == before
            }
        },
        (Stage::OfferStateLabels, Reply::Yes) => taken && after.0 == before.0 && after.1 == (
        Outcome { run_labels: true, ..before.1 }),
        _ => !taken && after == before,
    }
}

/// Take a reply: into the document, which then counts as changed, or into what is to be
/// done. Returns whether there was anything to take; a blank answer is skipped.
pub fn take_reply(
    agent: &str,
    doc: &mut toml_edit::DocumentMut,
    outcome: &mut Outcome,
    stage: Stage,
    reply: &Reply,
    stub_path: &str,
) -> (r: bool)
    ensures
        is_taken(
            agent@,
            (*old(doc), *old(outcome)),
            (*final(doc), *final(outcome)),
            stage,
            *reply,
            stub_path@,
            r,
        ),
{
    match (stage, reply) {
        (Stage::PriorityLabels, Reply::Text(answer)) => {
            let names = parse_priority_labels(answer.as_str());
            assert(text::views(names@).len() == names@.len());
            if names.len() == 0 {
                return false;
            }
            set_priority_labels(doc, names.as_slice());
            outcome.doc_changed = true;
            true
        },
        (Stage::OfferStub, Reply::Yes) => {
            outcome.pr_stub = Some(text::copy(stub_path));
            true
        },
        (Stage::Mode, Reply::Text(answer)) => {
            let mode = text::trimmed(answer.as_str());
            if mode.as_str().is_empty() {
                return false;
            }
            set_permission_mode(agent, doc, mode.as_str());
            outcome.doc_changed = true;
            true
        },
        (Stage::OfferPlanDeletion, Reply::Yes) => {
            set_delete_plan_on_approval(doc);
            outcome.doc_changed = true;
            true
        },
        (Stage::BlockedLabel, Reply::Text(answer)) => {
            let label = text::trimmed(answer.as_str());
            if label.as_str().is_empty() {
                return false;
            }
            set_blocked_label(doc, label.as_str());
            outcome.doc_changed = true;
            true
        },
        (Stage::IssueRepos, Reply::Text(answer)) => {
            let repos = parse_issue_repos(answer.as_str());
            assert(text::views(repos@).len() == repos@.len());
            if repos.len() == 0 {
                return false;
            }
            set_issue_repos(doc, repos.as_slice());
            outcome.doc_changed = true;
            true
        },
        (Stage::OfferStateLabels, Reply::Yes) => {
            outcome.run_labels = true;
            true
        },
        _ => false,
    }
}

/// Nothing is written before what is about to be done was shown and confirmed, and there
/// is something to confirm only where there is something to do.
pub proof fn nothing_is_written_unconfirmed(
    offers: Offers,
    stage: Stage,
    reply: Reply,
    outcome: Outcome,
)
    requires
        !is_end(stage),
    ensures
        stage_after(offers, stage, reply, outcome) == Stage::Write ==> stage == Stage::Proceed
            && reply is Yes,
        stage_after(offers, stage, reply, outcome) == Stage::Proceed ==> action_list(outcome).len()
            > 0,
{
}

/// Cancelling any prompt ends the wizard with nothing written.
pub proof fn cancelling_writes_nothing(offers: Offers, stage: Stage, outcome: Outcome)
    requires
        !is_end(stage),
    ensures
        stage_after(offers, stage, Reply::Cancelled, outcome) == Stage::Abort,
{
}

/// The document counts as changed exactly from the first reply on that edits it.
pub proof fn only_edits_count_as_changes(
    agent: Seq<char>,
    before: (toml_edit::DocumentMut, Outcome),
    after: (toml_edit::DocumentMut, Outcome),
    stage: Stage,
    reply: Reply,
    stub: Seq<char>,
    taken: bool,
)
    requires
        is_taken(agent, before, after, stage, reply, stub, taken),
    ensures
        before.1.doc_changed ==> after.1.doc_changed,
        after.1.doc_changed == before.1.doc_changed || (!before.1.doc_changed && taken),
        !after.1.doc_changed ==> after.0 == before.0,
{
}

/// Where a stage stands among the others.
pub open spec fn rank(stage: Stage) -> nat {
    match stage {
        Stage::OfferPriorityLabels => 0,
        Stage::PriorityLabels => 1,
        Stage::OfferStub => 2,
        Stage::OfferMode => 3,
        Stage::Mode => 4,
        Stage::OfferPlanDeletion => 5,
        Stage::OfferBlockedLabel => 6,
        Stage::BlockedLabel => 7,
        Stage::OfferIssueRepos => 8,
        Stage::IssueRepos => 9,
        Stage::OfferStateLabels => 10,
        Stage::Proceed => 11,
        _ => 12,
    }
}

/// No question is asked twice: each stage is followed by a later one, so that the wizard
/// comes to an end.
pub proof fn the_wizard_moves_on(offers: Offers, stage: Stage, reply: Reply, outcome: Outcome)
    requires
        !is_end(stage),
    ensures
        rank(stage_after(offers, stage, reply, outcome)) > rank(stage),
{
}

} // verus!
