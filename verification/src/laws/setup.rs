//! The wizard: what it offers, asks and writes.

use vstd::prelude::*;

use crate::init::{self, MainRepo, Offers, Outcome, Reply, Stage};
use crate::laws::texts::lemma_within;
use crate::text;
use crate::toml_doc::{self, Setting, Toml};

verus! {

/// One setting has this value now, and all others are as they were.
pub open spec fn sets(
    before: toml_edit::DocumentMut,
    after: toml_edit::DocumentMut,
    key: Seq<char>,
    value: Setting,
) -> bool {
    &&& toml_doc::settings(after).contains_key(key)
    &&& toml_doc::settings(after)[key] == value
    &&& forall|other: Seq<char>| #[trigger]
        toml_doc::settings(after).contains_key(other) <==> other == key || toml_doc::settings(
            before,
        ).contains_key(other)
    &&& forall|other: Seq<char>|
        #![trigger toml_doc::settings(after)[other]]
        other != key && toml_doc::settings(before).contains_key(other) ==> toml_doc::settings(
            after,
        )[other] == toml_doc::settings(before)[other]
}

/// A list of texts.
pub open spec fn list_of(names: Seq<Seq<char>>, value: Setting) -> bool {
    value is List && value->List_0.len() == names.len() && forall|i: int|
        0 <= i < names.len() ==> #[trigger] value->List_0[i] == Setting::Text(names[i])
}

proof fn lemma_sets(
    before: toml_edit::DocumentMut,
    after: toml_edit::DocumentMut,
    key: Seq<char>,
    value: Setting,
    comment: Seq<char>,
)
    requires
        init::is_set(before, after, key, value, comment),
    ensures
        sets(before, after, key, value),
{
}

/// A setting that is inserted is there, and the others are as they were.
pub proof fn inserted_settings_are_there(
    before: toml_edit::DocumentMut,
    key: &str,
    value: Toml,
    comment: &str,
    after: toml_edit::DocumentMut,
    prefix: String,
    first: bool,
)
    requires
        exists|g: &mut toml_edit::DocumentMut| #[trigger]
            call_ensures(init::insert_with_comment, (g, key, value, comment), ()) && *g == before
                && *final(g) == after,
        first == (forall|other: Seq<char>| !#[trigger] toml_doc::settings(before).contains_key(
            other,
        )),
        call_ensures(init::comment_prefix, (comment, first), prefix),
    ensures
        sets(before, after, key@, value.view()),
        toml_doc::prefixes(after).contains_key(key@) && toml_doc::prefixes(after)[key@] == prefix@,
{
    lemma_sets(before, after, key@, value.view(), comment@);
    let dom = toml_doc::settings(before).dom();
    if first {
        assert(dom =~= Set::empty());
    } else {
        let other = choose|other: Seq<char>| #[trigger]
            toml_doc::settings(before).contains_key(other);
        assert(dom.contains(other));
    }
}

/// Each line of a comment stands behind `# `, and a comment that is not the first has an
/// empty line before it.
pub proof fn comments_are_marked(comment: &str, first: bool, r: String, i: int)
    requires
        call_ensures(init::comment_prefix, (comment, first), r),
    ensures
        !first ==> text::starts_with(r@, "\n"@),
        0 <= i < text::lines(comment@).len() ==> text::contains(
            r@,
            "# "@ + text::lines(comment@)[i] + "\n"@,
        ),
        text::lines(comment@).len() == 0 && first ==> r@.len() == 0,
{
    reveal_strlit("");
    let head = if first {
        ""@
    } else {
        "\n"@
    };
    let lines = text::lines(comment@);
    let body = init::commented(lines);
    lemma_within(Seq::empty(), head, body);
    if 0 <= i < lines.len() {
        lemma_commented(lines, i);
        crate::laws::texts::lemma_wider(head, body, Seq::empty(), "# "@ + lines[i] + "\n"@);
    }
}

proof fn lemma_commented(lines: Seq<Seq<char>>, i: int)
    requires
        0 <= i < lines.len(),
    ensures
        text::contains(init::commented(lines), "# "@ + lines[i] + "\n"@),
    decreases lines.len(),
{
    let front = lines.drop_last();
    let row = "# "@ + lines.last() + "\n"@;
    assert(init::commented(lines) =~= init::commented(front) + row);
    if i < front.len() {
        lemma_commented(front, i);
        assert(front[i] == lines[i]);
        crate::laws::texts::lemma_wider(
            Seq::empty(),
            init::commented(front),
            row,
            "# "@ + lines[i] + "\n"@,
        );
    } else {
        lemma_within(init::commented(front), row, Seq::empty());
    }
}

/// The essentials are the repository, where it is not the one around, and the directory
/// of the worktrees.
pub proof fn essentials_are_set(
    before: toml_edit::DocumentMut,
    main_repo: Option<&str>,
    worktrees: &str,
    after: toml_edit::DocumentMut,
)
    requires
        exists|g: &mut toml_edit::DocumentMut| #[trigger]
            call_ensures(init::set_essentials, (g, main_repo, worktrees), ()) && *g == before
                && *final(g) == after,
    ensures
        toml_doc::settings(after).contains_key("worktrees_dir"@) && toml_doc::settings(
            after,
        )["worktrees_dir"@] == Setting::Text(worktrees@),
        main_repo is Some ==> toml_doc::settings(after).contains_key("main_repo"@)
            && toml_doc::settings(after)["main_repo"@] == Setting::Text(main_repo->0@),
        main_repo is None ==> (toml_doc::settings(after).contains_key("main_repo"@)
            <==> toml_doc::settings(before).contains_key("main_repo"@)),
        forall|other: Seq<char>|
            #![trigger toml_doc::settings(after)[other]]
            other != "main_repo"@ && other != "worktrees_dir"@ && toml_doc::settings(
                before,
            ).contains_key(other) ==> toml_doc::settings(after)[other] == toml_doc::settings(
                before,
            )[other],
{
    lemma_essentials(before, after, main_repo, worktrees@);
}

proof fn lemma_essentials(
    before: toml_edit::DocumentMut,
    after: toml_edit::DocumentMut,
    main_repo: Option<&str>,
    worktrees: Seq<char>,
)
    requires
        init::is_laid_out(
            before,
            after,
            match main_repo {
                Some(main_repo) => Some(main_repo@),
                None => None,
            },
            worktrees,
        ),
    ensures
        toml_doc::settings(after).contains_key("worktrees_dir"@) && toml_doc::settings(
            after,
        )["worktrees_dir"@] == Setting::Text(worktrees),
        main_repo is Some ==> toml_doc::settings(after).contains_key("main_repo"@)
            && toml_doc::settings(after)["main_repo"@] == Setting::Text(main_repo->0@),
        main_repo is None ==> (toml_doc::settings(after).contains_key("main_repo"@)
            <==> toml_doc::settings(before).contains_key("main_repo"@)),
        forall|other: Seq<char>|
            #![trigger toml_doc::settings(after)[other]]
            other != "main_repo"@ && other != "worktrees_dir"@ && toml_doc::settings(
                before,
            ).contains_key(other) ==> toml_doc::settings(after)[other] == toml_doc::settings(
                before,
            )[other],
{
    reveal_strlit("main_repo");
    reveal_strlit("worktrees_dir");
    assert("main_repo"@.len() != "worktrees_dir"@.len());
    if main_repo is Some {
        let mid = choose|mid: toml_edit::DocumentMut|
            init::is_set(
                before,
                mid,
                "main_repo"@,
                Setting::Text(main_repo->0@),
                init::MAIN_REPO_COMMENT@,
            ) && #[trigger] init::is_set(
                mid,
                after,
                "worktrees_dir"@,
                Setting::Text(worktrees),
                init::WORKTREES_COMMENT@,
            );
        assert(toml_doc::settings(mid).contains_key("main_repo"@));
    }
}

/// Laying a project out sets the essentials, and counts as a change.
pub proof fn laying_out_is_a_change(
    before: toml_edit::DocumentMut,
    old_outcome: Outcome,
    main_repo: Option<&str>,
    worktrees: &str,
    after: toml_edit::DocumentMut,
    new_outcome: Outcome,
)
    requires
        exists|g: &mut toml_edit::DocumentMut, o: &mut Outcome| #[trigger]
            call_ensures(init::lay_out, (g, o, main_repo, worktrees), ()) && *g == before
                && *final(g) == after && *o == old_outcome && *final(o) == new_outcome,
    ensures
        toml_doc::settings(after).contains_key("worktrees_dir"@) && toml_doc::settings(
            after,
        )["worktrees_dir"@] == Setting::Text(worktrees@),
        main_repo is Some ==> toml_doc::settings(after).contains_key("main_repo"@)
            && toml_doc::settings(after)["main_repo"@] == Setting::Text(main_repo->0@),
        new_outcome == (Outcome { doc_changed: true, ..old_outcome }),
{
    lemma_essentials(before, after, main_repo, worktrees@);
}

/// Each answer is set under its own key.
pub proof fn answers_are_set_under_their_key(
    before: toml_edit::DocumentMut,
    agent: &str,
    labels: &[String],
    with_labels: toml_edit::DocumentMut,
    mode: &str,
    with_mode: toml_edit::DocumentMut,
    with_deletion: toml_edit::DocumentMut,
    label: &str,
    with_blocked: toml_edit::DocumentMut,
    repos: &[String],
    with_repos: toml_edit::DocumentMut,
)
    requires
        exists|g: &mut toml_edit::DocumentMut| #[trigger]
            call_ensures(init::set_priority_labels, (g, labels), ()) && *g == before && *final(g)
                == with_labels,
        exists|g: &mut toml_edit::DocumentMut| #[trigger]
            call_ensures(init::set_permission_mode, (agent, g, mode), ()) && *g == before
                && *final(g) == with_mode,
        exists|g: &mut toml_edit::DocumentMut| #[trigger]
            call_ensures(init::set_delete_plan_on_approval, (g,), ()) && *g == before && *final(g)
                == with_deletion,
        exists|g: &mut toml_edit::DocumentMut| #[trigger]
            call_ensures(init::set_blocked_label, (g, label), ()) && *g == before && *final(g)
                == with_blocked,
        exists|g: &mut toml_edit::DocumentMut| #[trigger]
            call_ensures(init::set_issue_repos, (g, repos), ()) && *g == before && *final(g)
                == with_repos,
    ensures
        exists|v: Setting| #[trigger]
            sets(before, with_labels, "priority_labels"@, v) && list_of(text::views(labels@), v),
        sets(before, with_mode, "permission_mode"@, Setting::Text(mode@)),
        sets(before, with_deletion, "delete_plan_on_approval"@, Setting::Flag(true)),
        sets(before, with_blocked, "blocked_label"@, Setting::Text(label@)),
        exists|v: Setting| #[trigger]
            sets(before, with_repos, "issue_repos"@, v) && list_of(text::views(repos@), v),
{
    let v = Setting::List(toml_doc::texts(text::views(labels@)));
    lemma_sets(before, with_labels, "priority_labels"@, v, init::PRIORITY_COMMENT@);
    assert(list_of(text::views(labels@), v));
    let w = Setting::List(toml_doc::texts(text::views(repos@)));
    lemma_sets(before, with_repos, "issue_repos"@, w, init::ISSUE_REPOS_COMMENT@);
    assert(list_of(text::views(repos@), w));
}

proof fn lemma_answered(parts: Seq<Seq<char>>, s: Seq<char>)
    ensures
        init::answered(parts).contains(s) <==> s.len() > 0 && exists|k: int|
            #![trigger parts[k]]
            0 <= k < parts.len() && text::trim(parts[k]) == s,
    decreases parts.len(),
{
    if parts.len() > 0 {
        let front = parts.drop_last();
        lemma_answered(front, s);
        let all = init::answered(parts);
        let before = init::answered(front);
        let last = parts.len() - 1;
        assert(parts[last] == parts.last());
        if all.contains(s) {
            let m = choose|m: int| 0 <= m < all.len() && all[m] == s;
            if m < before.len() {
                assert(before[m] == s);
                let k = choose|k: int|
                    #![trigger front[k]]
                    0 <= k < front.len() && text::trim(front[k]) == s;
                assert(text::trim(parts[k]) == s);
            } else {
                assert(text::trim(parts[last]) == s);
            }
        }
        if s.len() > 0 && exists|k: int|
            #![trigger parts[k]]
            0 <= k < parts.len() && text::trim(parts[k]) == s {
            let k = choose|k: int|
                #![trigger parts[k]]
                0 <= k < parts.len() && text::trim(parts[k]) == s;
            if k < front.len() {
                assert(front[k] == parts[k]);
                let m = choose|m: int| 0 <= m < before.len() && before[m] == s;
                assert(all[m] == s);
            } else {
                assert(all[before.len() as int] == s);
            }
        }
    }
}

/// A list is answered with commas between: the parts, trimmed, without the blank ones.
pub proof fn lists_are_answered_with_commas(
    input: &str,
    labels: Vec<String>,
    repos: Vec<String>,
    s: Seq<char>,
)
    requires
        call_ensures(init::parse_priority_labels, (input,), labels),
        call_ensures(init::parse_issue_repos, (input,), repos),
    ensures
        (exists|i: int| #![trigger labels@[i]] 0 <= i < labels@.len() && labels@[i]@ == s) <==> s.len()
            > 0 && exists|k: int|
            #![trigger text::split(input@, ',')[k]]
            0 <= k < text::split(input@, ',').len() && text::trim(text::split(input@, ',')[k]) == s,
        (exists|i: int| #![trigger repos@[i]] 0 <= i < repos@.len() && repos@[i]@ == s) <==> s.len()
            > 0 && exists|k: int|
            #![trigger text::split(input@, ',')[k]]
            0 <= k < text::split(input@, ',').len() && text::trim(text::split(input@, ',')[k]) == s,
{
    lemma_answered(text::split(input@, ','), s);
    lemma_listed(labels@, s);
    lemma_listed(repos@, s);
}

proof fn lemma_listed(v: Seq<String>, s: Seq<char>)
    ensures
        text::views(v).contains(s) <==> exists|i: int|
            #![trigger v[i]]
            0 <= i < v.len() && v[i]@ == s,
{
    if text::views(v).contains(s) {
        let i = choose|i: int| 0 <= i < text::views(v).len() && text::views(v)[i] == s;
        assert(v[i]@ == s);
    }
    if exists|i: int| #![trigger v[i]] 0 <= i < v.len() && v[i]@ == s {
        let i = choose|i: int| #![trigger v[i]] 0 <= i < v.len() && v[i]@ == s;
        assert(text::views(v)[i] == s);
    }
}

/// What is missing decides what is needed and where the repository is.
pub proof fn what_is_missing_is_needed(
    doc: &toml_edit::DocumentMut,
    needs: bool,
    at_root: bool,
    in_repo: bool,
    fresh: MainRepo,
    repaired: MainRepo,
    ignored: bool,
    ignoring: bool,
)
    requires
        call_ensures(init::needs_essentials, (doc,), needs),
        call_ensures(init::new_layout, (at_root, in_repo), fresh),
        call_ensures(init::repaired_layout, (doc, in_repo), repaired),
        call_ensures(init::needs_ignoring, (doc, in_repo, ignored), ignoring),
    ensures
        needs <==> !toml_doc::settings(*doc).contains_key("worktrees_dir"@),
        !at_root ==> fresh == MainRepo::Asked,
        at_root && in_repo ==> fresh == MainRepo::Around,
        at_root && !in_repo ==> fresh == MainRepo::NotInRepo,
        toml_doc::settings(*doc).contains_key("main_repo"@) || in_repo ==> repaired
            == MainRepo::Around,
        !toml_doc::settings(*doc).contains_key("main_repo"@) && !in_repo ==> repaired
            == MainRepo::Asked,
        ignoring <==> in_repo && !ignored && !toml_doc::settings(*doc).contains_key("main_repo"@),
{
}

/// Nothing but slashes.
pub open spec fn all_slashes(s: Seq<char>) -> bool {
    forall|i: int| 0 <= i < s.len() ==> #[trigger] s[i] == '/'
}

proof fn lemma_unlead(s: Seq<char>) -> (a: int)
    ensures
        0 <= a <= s.len(),
        init::unlead(s) == s.skip(a),
        all_slashes(s.take(a)),
        a < s.len() ==> s[a] != '/',
    decreases s.len(),
{
    if s.len() > 0 && s[0] == '/' {
        let a = lemma_unlead(s.skip(1));
        assert(s.skip(1).skip(a) =~= s.skip(a + 1));
        assert forall|i: int| 0 <= i < a + 1 implies #[trigger] s.take(a + 1)[i] == '/' by {
            if i > 0 {
                assert(s.skip(1).take(a)[i - 1] == s[i]);
            }
        }
        a + 1
    } else {
        assert(s.skip(0) =~= s);
        0
    }
}

proof fn lemma_untrail(s: Seq<char>) -> (b: int)
    ensures
        0 <= b <= s.len(),
        init::untrail(s) == s.take(b),
        all_slashes(s.skip(b)),
        b > 0 ==> s[b - 1] != '/',
    decreases s.len(),
{
    if s.len() > 0 && s.last() == '/' {
        let front = s.drop_last();
        let b = lemma_untrail(front);
        assert(front.take(b) =~= s.take(b));
        assert forall|i: int| 0 <= i < s.skip(b).len() implies #[trigger] s.skip(b)[i] == '/' by {
            if b + i < front.len() {
                assert(front.skip(b)[i] == s[b + i]);
            }
        }
        b
    } else {
        assert(s.take(s.len() as int) =~= s);
        s.len() as int
    }
}

/// The line that ignores the worktrees has one slash before and one behind the directory;
/// a line is added below the others.
pub proof fn ignored_directories_stand_between_slashes(
    dir: &str,
    r: String,
    content: &str,
    line: &str,
    added: String,
)
    requires
        call_ensures(init::ignore_line, (dir,), r),
        call_ensures(init::append_line, (content, line), added),
    ensures
        exists|a: int, b: int|
            #![trigger dir@.subrange(a, b)]
            0 <= a <= b <= dir@.len() && r@ == "/"@ + dir@.subrange(a, b) + "/"@ && all_slashes(
                dir@.take(a),
            ) && all_slashes(dir@.skip(b)) && (a < b ==> dir@[a] != '/' && dir@[b - 1] != '/'),
        content@.len() > 0 && content@.last() != '\n' ==> added@ == content@ + "\n"@ + line@
            + "\n"@,
        content@.len() == 0 || content@.last() == '\n' ==> added@ == content@ + line@ + "\n"@,
{
    let a = lemma_unlead(dir@);
    let rest = dir@.skip(a);
    let n = lemma_untrail(rest);
    let b = a + n;
    assert(rest.take(n) =~= dir@.subrange(a, b));
    assert(rest.skip(n) =~= dir@.skip(b));
    if a < b {
        assert(rest[n - 1] == dir@[b - 1]);
    }
    assert(r@ == "/"@ + dir@.subrange(a, b) + "/"@);
}

/// Offered as the repository are the directories that are one, without the hidden ones,
/// in order.
pub proof fn repositories_are_offered(
    names: &Vec<String>,
    is_repo: &Vec<bool>,
    r: Vec<String>,
    k: int,
)
    requires
        is_repo@.len() == names@.len(),
        call_ensures(init::child_repos, (names, is_repo), r),
    ensures
        0 <= k < names@.len() && is_repo@[k] && !text::starts_with(names@[k]@, "."@) ==> exists|
            i: int,
        |
            #![trigger r@[i]]
            0 <= i < r@.len() && r@[i]@ == names@[k]@,
        0 <= k < r@.len() ==> exists|i: int|
            #![trigger names@[i]]
            0 <= i < names@.len() && names@[i]@ == r@[k]@ && is_repo@[i] && !text::starts_with(
                names@[i]@,
                "."@,
            ),
        0 <= k < r@.len() - 1 ==> text::le(r@[k]@, r@[k + 1]@),
{
    if 0 <= k < names@.len() && is_repo@[k] && !text::starts_with(names@[k]@, "."@) {
        let s = names@[k]@;
        assert(names@[k]@ == s && init::offered(s, is_repo@[k]));
        assert(init::is_offered(names@, is_repo@, s));
        assert(text::listed(r@, s));
        let i = choose|i: int| 0 <= i < r@.len() && #[trigger] r@[i]@ == s;
        assert(r@[i]@ == s);
    }
    if 0 <= k < r@.len() {
        let s = r@[k]@;
        assert(r@[k]@ == s);
        assert(text::listed(r@, s));
        assert(init::is_offered(names@, is_repo@, s));
        let i = choose|i: int|
            0 <= i < names@.len() && (#[trigger] names@[i])@ == s && init::offered(s, is_repo@[i]);
        assert(names@[i]@ == s);
    }
}

/// Offered is what is not set yet.
pub proof fn what_is_not_set_is_offered(doc: &toml_edit::DocumentMut, pr_file: bool, r: Offers)
    requires
        call_ensures(init::offers, (doc, pr_file), r),
    ensures
        r.priority_labels <==> !toml_doc::settings(*doc).contains_key("priority_labels"@),
        r.pr_stub <==> !toml_doc::settings(*doc).contains_key("pr_instructions"@) && !pr_file,
        r.permission_mode <==> !toml_doc::settings(*doc).contains_key("permission_mode"@),
        r.delete_plan_on_approval <==> !toml_doc::settings(*doc).contains_key(
            "delete_plan_on_approval"@,
        ),
        r.blocked_label <==> !toml_doc::settings(*doc).contains_key("blocked_label"@),
        r.issue_repos <==> !toml_doc::settings(*doc).contains_key("issue_repos"@),
        r.labels <==> !toml_doc::settings(*doc).contains_key("labels"@),
{
}

/// The list has this text.
pub open spec fn tells(v: Seq<String>, s: Seq<char>) -> bool {
    exists|i: int| #![trigger v[i]] 0 <= i < v.len() && v[i]@ == s
}

/// Everything that is about to be done is listed, and nothing else.
pub proof fn everything_to_be_done_is_listed(o: &Outcome, r: Vec<String>)
    requires
        call_ensures(init::actions, (o,), r),
    ensures
        r@.len() == (if o.doc_changed {
            1int
        } else {
            0
        }) + (if o.create_worktrees_dir is Some {
            1int
        } else {
            0
        }) + (if o.gitignore_line is Some {
            1int
        } else {
            0
        }) + (if o.pr_stub is Some {
            1int
        } else {
            0
        }) + (if o.run_labels {
            1int
        } else {
            0
        }),
        o.doc_changed && o.existing ==> tells(r@, "update "@ + o.config_path@),
        o.doc_changed && !o.existing ==> tells(r@, "write "@ + o.config_path@),
        o.create_worktrees_dir is Some ==> tells(
            r@,
            "create directory "@ + o.create_worktrees_dir->0@,
        ),
        o.gitignore_line is Some ==> tells(
            r@,
            "append `"@ + o.gitignore_line->0@ + "` to "@ + o.gitignore_path@,
        ),
        o.pr_stub is Some ==> tells(r@, "create a stub "@ + o.pr_stub->0@),
        o.run_labels ==> tells(
            r@,
            "create the workflow status labels in the GitHub repo and add a [labels] section to "@
                + o.config_path@,
        ),
{
    let v = text::views(r@);
    let all = init::action_list(*o);
    assert(v.len() == r@.len());
    let a = init::when(
        o.doc_changed,
        (if o.existing {
            "update "@
        } else {
            "write "@
        }) + o.config_path@,
    );
    let b = init::when(
        o.create_worktrees_dir is Some,
        "create directory "@ + o.create_worktrees_dir->0@,
    );
    let c = init::when(
        o.gitignore_line is Some,
        "append `"@ + o.gitignore_line->0@ + "` to "@ + o.gitignore_path@,
    );
    let d = init::when(o.pr_stub is Some, "create a stub "@ + o.pr_stub->0@);
    let e = init::when(o.run_labels, init::LABELS_ACTION@ + o.config_path@);
    assert(all == a + b + c + d + e);
    if o.doc_changed {
        assert(v[0] == a[0]);
        assert(r@[0]@ == v[0]);
    }
    if o.create_worktrees_dir is Some {
        let i = a.len() as int;
        assert(v[i] == b[0]);
        assert(r@[i]@ == v[i]);
    }
    if o.gitignore_line is Some {
        let i = (a + b).len() as int;
        assert(v[i] == c[0]);
        assert(r@[i]@ == v[i]);
    }
    if o.pr_stub is Some {
        let i = (a + b + c).len() as int;
        assert(v[i] == d[0]);
        assert(r@[i]@ == v[i]);
    }
    if o.run_labels {
        let i = (a + b + c + d).len() as int;
        assert(v[i] == e[0]);
        assert(r@[i]@ == v[i]);
    }
}

/// There is something to be done.
pub open spec fn is_due(o: Outcome) -> bool {
    o.doc_changed || o.create_worktrees_dir is Some || o.gitignore_line is Some || o.pr_stub is Some
        || o.run_labels
}

/// Where the wizard goes when the offers are through.
pub open spec fn ends(o: Outcome, r: Stage) -> bool {
    if is_due(o) {
        r == Stage::Proceed
    } else {
        r == Stage::Nothing
    }
}

/// The next offer from the fourth on.
pub open spec fn late_offer(f: Offers, o: Outcome, r: Stage) -> bool {
    if f.blocked_label {
        r == Stage::OfferBlockedLabel
    } else {
        last_offers(f, o, r)
    }
}

/// The last two offers.
pub open spec fn last_offers(f: Offers, o: Outcome, r: Stage) -> bool {
    if f.issue_repos {
        r == Stage::OfferIssueRepos
    } else {
        last_offer(f, o, r)
    }
}

/// The last offer.
pub open spec fn last_offer(f: Offers, o: Outcome, r: Stage) -> bool {
    if f.labels {
        r == Stage::OfferStateLabels
    } else {
        ends(o, r)
    }
}

/// The next offer from the mode on.
pub open spec fn mid_offer(f: Offers, o: Outcome, r: Stage) -> bool {
    if f.permission_mode {
        r == Stage::OfferMode
    } else {
        deletion_offer(f, o, r)
    }
}

/// The next offer from the plan's deletion on.
pub open spec fn deletion_offer(f: Offers, o: Outcome, r: Stage) -> bool {
    if f.delete_plan_on_approval {
        r == Stage::OfferPlanDeletion
    } else {
        late_offer(f, o, r)
    }
}

/// The next offer from the stub on.
pub open spec fn early_offer(f: Offers, o: Outcome, r: Stage) -> bool {
    if f.pr_stub {
        r == Stage::OfferStub
    } else {
        mid_offer(f, o, r)
    }
}

/// The wizard makes its offers in order, asks for what is wanted, and writes only where
/// there is something to do and the user says yes; a cancelled prompt ends it.
pub proof fn the_wizard_offers_in_order(
    f: &Offers,
    o: &Outcome,
    first: Stage,
    stage: Stage,
    reply: &Reply,
    r: Stage,
)
    requires
        call_ensures(init::first_stage, (f, o), first),
        call_ensures(init::next_stage, (f, stage, reply, o), r),
    ensures
        f.priority_labels ==> first == Stage::OfferPriorityLabels,
        !f.priority_labels ==> early_offer(*f, *o, first),
        stage == Stage::Write || stage == Stage::Nothing || stage == Stage::Abort ==> r == stage,
        *reply is Cancelled && stage != Stage::Write && stage != Stage::Nothing ==> r
            == Stage::Abort,
        !(*reply is Cancelled) ==> {
            &&& stage == Stage::OfferPriorityLabels && *reply is Yes ==> r == Stage::PriorityLabels
            &&& stage == Stage::OfferPriorityLabels && !(*reply is Yes) || stage
                == Stage::PriorityLabels ==> early_offer(*f, *o, r)
            &&& stage == Stage::OfferStub ==> mid_offer(*f, *o, r)
            &&& stage == Stage::OfferMode && *reply is Yes ==> r == Stage::Mode
            &&& stage == Stage::OfferMode && !(*reply is Yes) || stage == Stage::Mode
                ==> deletion_offer(*f, *o, r)
            &&& stage == Stage::OfferPlanDeletion ==> late_offer(*f, *o, r)
            &&& stage == Stage::OfferBlockedLabel && *reply is Yes ==> r == Stage::BlockedLabel
            &&& stage == Stage::OfferBlockedLabel && !(*reply is Yes) || stage
                == Stage::BlockedLabel ==> last_offers(*f, *o, r)
            &&& stage == Stage::OfferIssueRepos && *reply is Yes ==> r == Stage::IssueRepos
            &&& stage == Stage::OfferIssueRepos && !(*reply is Yes) || stage == Stage::IssueRepos
                ==> last_offer(*f, *o, r)
            &&& stage == Stage::OfferStateLabels ==> ends(*o, r)
            &&& stage == Stage::Proceed && *reply is Yes ==> r == Stage::Write
            &&& stage == Stage::Proceed && !(*reply is Yes) ==> r == Stage::Abort
        },
{
    assert(init::action_list(*o).len() > 0 <==> is_due(*o));
}

/// An answer is taken where it was asked for and says something: it is set under its own
/// key, trimmed, and counts as a change; nothing else changes.
pub proof fn answers_are_taken_where_asked(
    agent: &str,
    before: toml_edit::DocumentMut,
    old_outcome: Outcome,
    stage: Stage,
    reply: &Reply,
    stub: &str,
    after: toml_edit::DocumentMut,
    new_outcome: Outcome,
    r: bool,
)
    requires
        exists|g: &mut toml_edit::DocumentMut, o: &mut Outcome| #[trigger]
            call_ensures(init::take_reply, (agent, g, o, stage, reply, stub), r) && *g == before
                && *final(g) == after && *o == old_outcome && *final(o) == new_outcome,
    ensures
        stage == Stage::Mode && *reply is Text ==> (r <==> text::trim(reply->Text_0@).len() > 0),
        stage == Stage::Mode && r ==> sets(
            before,
            after,
            "permission_mode"@,
            Setting::Text(text::trim(reply->Text_0@)),
        ),
        stage == Stage::BlockedLabel && *reply is Text ==> (r <==> text::trim(
            reply->Text_0@,
        ).len() > 0),
        stage == Stage::BlockedLabel && r ==> sets(
            before,
            after,
            "blocked_label"@,
            Setting::Text(text::trim(reply->Text_0@)),
        ),
        stage == Stage::OfferPlanDeletion ==> (r <==> *reply is Yes),
        stage == Stage::OfferPlanDeletion && r ==> sets(
            before,
            after,
            "delete_plan_on_approval"@,
            Setting::Flag(true),
        ),
        stage == Stage::PriorityLabels && r ==> exists|v: Setting| #[trigger]
            sets(before, after, "priority_labels"@, v) && v is List && v->List_0.len() > 0,
        stage == Stage::IssueRepos && r ==> exists|v: Setting| #[trigger]
            sets(before, after, "issue_repos"@, v) && v is List && v->List_0.len() > 0,
        stage == Stage::OfferStub ==> (r <==> *reply is Yes) && after == before,
        stage == Stage::OfferStub && r ==> new_outcome.pr_stub is Some && new_outcome.pr_stub->0@
            == stub@ && new_outcome.doc_changed == old_outcome.doc_changed,
        stage == Stage::OfferStateLabels ==> (r <==> *reply is Yes) && after == before,
        stage == Stage::OfferStateLabels && r ==> new_outcome == (Outcome {
            run_labels: true,
            ..old_outcome
        }),
        r && stage != Stage::OfferStub && stage != Stage::OfferStateLabels ==> new_outcome == (
        Outcome { doc_changed: true, ..old_outcome }),
        !r ==> after == before && new_outcome == old_outcome,
{
    if stage == Stage::PriorityLabels && r {
        let names = init::answered(text::split(reply->Text_0@, ','));
        let v = Setting::List(toml_doc::texts(names));
        lemma_sets(before, after, "priority_labels"@, v, init::PRIORITY_COMMENT@);
        assert(v->List_0.len() == names.len());
    }
    if stage == Stage::IssueRepos && r {
        let names = init::answered(text::split(reply->Text_0@, ','));
        let v = Setting::List(toml_doc::texts(names));
        lemma_sets(before, after, "issue_repos"@, v, init::ISSUE_REPOS_COMMENT@);
        assert(v->List_0.len() == names.len());
    }
}

/// The stub of the instructions is for the agent.
pub proof fn stubs_are_for_the_agent(agent: &str, r: String)
    requires
        call_ensures(init::pr_stub, (agent,), r),
    ensures
        text::starts_with(
            r@,
            "Instructions for writing this project's pull request titles and bodies.\nFree-form prose, read by "@
                + agent@,
        ),
{
    lemma_within(Seq::empty(), init::PR_STUB_INTRO@ + agent@, init::PR_STUB_END@);
}

/// A new document is empty, and an existing one has what its text says.
pub proof fn documents_hold_what_their_text_says(
    path: &str,
    existing: Option<&str>,
    r: Result<toml_edit::DocumentMut, String>,
    key: Seq<char>,
)
    requires
        call_ensures(init::open_document, (path, existing), r),
    ensures
        existing is None ==> r is Ok && !toml_doc::settings(r->Ok_0).contains_key(key),
        existing is Some ==> (r is Ok <==> toml_doc::parsed(existing->0@) is Ok),
        existing is Some && r is Ok ==> toml_doc::settings(r->Ok_0) == toml_doc::parsed(
            existing->0@,
        )->Ok_0,
        r is Err ==> text::starts_with(r->Err_0@, path@),
{
    if existing is None {
        assert(toml_doc::settings(r->Ok_0).dom() =~= Set::empty());
        assert(!toml_doc::settings(r->Ok_0).dom().contains(key));
    }
    if r is Err {
        let e = toml_doc::parsed(existing->0@)->Err_0;
        let tail = " is not valid TOML; fix it by hand and re-run: "@ + e;
        assert(r->Err_0@ =~= path@ + tail);
        lemma_within(Seq::empty(), path@, tail);
    }
}

} // verus!
