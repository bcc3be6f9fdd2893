//! Which git commands are run, and how what they came to is read.

use vstd::prelude::*;

use crate::git::{self, Git, Ran};
use crate::text;

verus! {

/// The arguments are these words.
pub open spec fn spells(args: Vec<String>, words: Seq<Seq<char>>) -> bool {
    &&& args@.len() == words.len()
    &&& forall|i: int| 0 <= i < words.len() ==> (#[trigger] args@[i])@ == words[i]
}

/// One command more was run: `git` with these words.
pub open spec fn issued<R: Fn(Vec<String>) -> Ran>(
    before: Git<R>,
    after: Git<R>,
    words: Seq<Seq<char>>,
) -> bool {
    &&& after.function() == before.function()
    &&& after.calls().len() == before.calls().len() + 1
    &&& after.calls().drop_last() == before.calls()
    &&& spells(after.calls().last().0, words)
    &&& call_ensures(
        before.function(),
        (after.calls().last().0,),
        after.calls().last().1,
    )
}

/// What the last command came to.
pub open spec fn came_to<R: Fn(Vec<String>) -> Ran>(after: Git<R>) -> Ran {
    after.calls().last().1
}

/// The command exited with this code.
pub open spec fn exits(o: Ran, code: int) -> bool {
    o is Exited && o->code is Some && o->code->0 == code
}

/// The command succeeded, and what it printed is text.
pub open spec fn went(o: Ran) -> bool {
    exits(o, 0) && o->stdout is Some
}

/// What the command printed.
pub open spec fn out(o: Ran) -> Seq<char> {
    o->stdout->0@
}

/// There is nothing but white space.
pub open spec fn blank(s: Seq<char>) -> bool {
    forall|i: int| 0 <= i < s.len() ==> text::is_space(#[trigger] s[i])
}

/// `r` is `s` without the white space at its two ends.
pub open spec fn is_trimmed(s: Seq<char>, r: Seq<char>) -> bool {
    exists|a: int, b: int|
        0 <= a <= b <= s.len() && r == #[trigger] s.subrange(a, b) && blank(s.take(a)) && blank(
            s.skip(b),
        ) && (r.len() > 0 ==> !text::is_space(r[0]) && !text::is_space(r.last()))
}

proof fn lemma_trim_start(s: Seq<char>) -> (a: int)
    ensures
        0 <= a <= s.len(),
        text::trim_start(s) == s.skip(a),
        blank(s.take(a)),
        a < s.len() ==> !text::is_space(s[a]),
    decreases s.len(),
{
    if s.len() > 0 && text::is_space(s[0]) {
        let a = lemma_trim_start(s.skip(1));
        assert(s.skip(1).skip(a) =~= s.skip(a + 1));
        assert forall|i: int| 0 <= i < a + 1 implies text::is_space(#[trigger] s.take(a + 1)[i]) by {
            if i > 0 {
                assert(s.skip(1).take(a)[i - 1] == s[i]);
            }
        }
        a + 1
    } else {
        assert(s.skip(0) =~= s);
        0
    }
}

pub proof fn lemma_trim_end(s: Seq<char>) -> (b: int)
    ensures
        0 <= b <= s.len(),
        text::trim_end(s) == s.take(b),
        blank(s.skip(b)),
        b > 0 ==> !text::is_space(s[b - 1]),
    decreases s.len(),
{
    if s.len() > 0 && text::is_space(s.last()) {
        let init = s.drop_last();
        let b = lemma_trim_end(init);
        assert(init.take(b) =~= s.take(b));
        assert forall|i: int| 0 <= i < s.skip(b).len() implies text::is_space(
            #[trigger] s.skip(b)[i],
        ) by {
            if b + i < init.len() {
                assert(init.skip(b)[i] == s[b + i]);
            }
        }
        b
    } else {
        assert(s.take(s.len() as int) =~= s);
        s.len() as int
    }
}

pub proof fn lemma_trim(s: Seq<char>)
    ensures
        is_trimmed(s, text::trim(s)),
        text::trim(s).len() == 0 <==> blank(s),
{
    let a = lemma_trim_start(s);
    let rest = s.skip(a);
    let b = lemma_trim_end(rest);
    let r = rest.take(b);
    assert(r =~= s.subrange(a, a + b));
    assert(s.skip(a + b) =~= rest.skip(b));
    if r.len() > 0 {
        assert(r[0] == s[a]);
        assert(r.last() == rest[b - 1]);
        assert(s[a] == rest[0]);
        assert(!text::is_space(s[a]));
    } else {
        assert forall|i: int| 0 <= i < s.len() implies text::is_space(#[trigger] s[i]) by {
            if i < a {
                assert(s.take(a)[i] == s[i]);
            } else {
                assert(s.skip(a + b)[i - a - b] == s[i]);
            }
        }
    }
}

pub proof fn lemma_issued<R: Fn(Vec<String>) -> Ran>(
    before: Git<R>,
    after: Git<R>,
    dir: Seq<char>,
    words: Seq<Seq<char>>,
    o: Ran,
)
    requires
        git::ran(before, after, dir, words, o),
    ensures
        issued(before, after, seq!["-C"@, dir] + words),
        came_to(after) == o,
        git::answer(words, o) is Ok <==> went(o),
        went(o) ==> git::answer(words, o) == Ok::<Seq<char>, Seq<char>>(out(o)),
{
    let full = seq!["-C"@, dir] + words;
    let args = choose|args: Vec<String>|
        {
            &&& text::views(args@) == git::command(dir, words)
            &&& #[trigger] call_ensures(before.function(), (args,), o)
            &&& after.calls() == before.calls().push((args, o))
        };
    assert(text::views(args@).len() == args@.len());
    assert forall|i: int| 0 <= i < full.len() implies (#[trigger] args@[i])@ == full[i] by {
        assert(text::views(args@)[i] == args@[i]@);
    }
    assert(after.calls().drop_last() =~= before.calls());
}

/// Fetching asks origin for everything, and drops what is gone there.
pub proof fn fetching_updates_and_prunes<R: Fn(Vec<String>) -> Ran>(
    before: Git<R>,
    repo: &str,
    after: Git<R>,
    r: Result<(), String>,
)
    requires
        exists|g: &mut Git<R>| #[trigger]
            call_ensures(git::fetch::<R>, (g, repo), r) && *g == before && *final(g) == after,
    ensures
        issued(before, after, seq!["-C"@, repo@, "fetch"@, "--prune"@, "origin"@]),
        r is Ok <==> went(came_to(after)),
{
    let words = seq!["fetch"@, "--prune"@, "origin"@];
    let a = choose|a: Result<Seq<char>, Seq<char>>| #[trigger]
        git::told(before, after, repo@, words, a) && git::finished(a, r);
    let o = choose|o: Ran| #[trigger]
        git::ran(before, after, repo@, words, o) && git::answer(words, o) == a;
    lemma_issued(before, after, repo@, words, o);
    assert(seq!["-C"@, repo@] + words =~= seq!["-C"@, repo@, "fetch"@, "--prune"@, "origin"@]);
}

/// A worktree is added at its path, with a new branch that starts where it was told to.
pub proof fn worktrees_are_added_with_a_new_branch<R: Fn(Vec<String>) -> Ran>(
    before: Git<R>,
    repo: &str,
    path: &str,
    branch: &str,
    start_at: &str,
    after: Git<R>,
    r: Result<(), String>,
)
    requires
        exists|g: &mut Git<R>| #[trigger]
            call_ensures(git::add_worktree::<R>, (g, repo, path, branch, start_at), r) && *g == before && *final(g) == after,
    ensures
        issued(before, after, seq!["-C"@, repo@, "worktree"@, "add"@, "-b"@, branch@, path@, start_at@]),
        r is Ok <==> went(came_to(after)),
{
    let words = seq!["worktree"@, "add"@, "-b"@, branch@, path@, start_at@];
    let a = choose|a: Result<Seq<char>, Seq<char>>| #[trigger]
        git::told(before, after, repo@, words, a) && git::finished(a, r);
    let o = choose|o: Ran| #[trigger]
        git::ran(before, after, repo@, words, o) && git::answer(words, o) == a;
    lemma_issued(before, after, repo@, words, o);
    assert(seq!["-C"@, repo@] + words =~= seq!["-C"@, repo@, "worktree"@, "add"@, "-b"@, branch@, path@, start_at@]);
}

/// A worktree is added at its path for a branch that is there.
pub proof fn worktrees_are_added_for_a_branch<R: Fn(Vec<String>) -> Ran>(
    before: Git<R>,
    repo: &str,
    path: &str,
    branch: &str,
    after: Git<R>,
    r: Result<(), String>,
)
    requires
        exists|g: &mut Git<R>| #[trigger]
            call_ensures(git::add_worktree_for_branch::<R>, (g, repo, path, branch), r) && *g == before && *final(g) == after,
    ensures
        issued(before, after, seq!["-C"@, repo@, "worktree"@, "add"@, path@, branch@]),
        r is Ok <==> went(came_to(after)),
{
    let words = seq!["worktree"@, "add"@, path@, branch@];
    let a = choose|a: Result<Seq<char>, Seq<char>>| #[trigger]
        git::told(before, after, repo@, words, a) && git::finished(a, r);
    let o = choose|o: Ran| #[trigger]
        git::ran(before, after, repo@, words, o) && git::answer(words, o) == a;
    lemma_issued(before, after, repo@, words, o);
    assert(seq!["-C"@, repo@] + words =~= seq!["-C"@, repo@, "worktree"@, "add"@, path@, branch@]);
}

/// A worktree that was moved is linked up again.
pub proof fn worktrees_are_repaired<R: Fn(Vec<String>) -> Ran>(
    before: Git<R>,
    repo: &str,
    path: &str,
    after: Git<R>,
    r: Result<(), String>,
)
    requires
        exists|g: &mut Git<R>| #[trigger]
            call_ensures(git::repair_worktree::<R>, (g, repo, path), r) && *g == before && *final(g) == after,
    ensures
        issued(before, after, seq!["-C"@, repo@, "worktree"@, "repair"@, path@]),
        r is Ok <==> went(came_to(after)),
{
    let words = seq!["worktree"@, "repair"@, path@];
    let a = choose|a: Result<Seq<char>, Seq<char>>| #[trigger]
        git::told(before, after, repo@, words, a) && git::finished(a, r);
    let o = choose|o: Ran| #[trigger]
        git::ran(before, after, repo@, words, o) && git::answer(words, o) == a;
    lemma_issued(before, after, repo@, words, o);
    assert(seq!["-C"@, repo@] + words =~= seq!["-C"@, repo@, "worktree"@, "repair"@, path@]);
}

/// A fast-forward never makes a merge.
pub proof fn fast_forwards_never_merge<R: Fn(Vec<String>) -> Ran>(
    before: Git<R>,
    dir: &str,
    target: &str,
    after: Git<R>,
    r: Result<(), String>,
)
    requires
        exists|g: &mut Git<R>| #[trigger]
            call_ensures(git::merge_ff_only::<R>, (g, dir, target), r) && *g == before && *final(g) == after,
    ensures
        issued(before, after, seq!["-C"@, dir@, "merge"@, "--ff-only"@, target@]),
        r is Ok <==> went(came_to(after)),
{
    let words = seq!["merge"@, "--ff-only"@, target@];
    let a = choose|a: Result<Seq<char>, Seq<char>>| #[trigger]
        git::told(before, after, dir@, words, a) && git::finished(a, r);
    let o = choose|o: Ran| #[trigger]
        git::ran(before, after, dir@, words, o) && git::answer(words, o) == a;
    lemma_issued(before, after, dir@, words, o);
    assert(seq!["-C"@, dir@] + words =~= seq!["-C"@, dir@, "merge"@, "--ff-only"@, target@]);
}

/// A branch is pushed to origin under its own name, without force.
pub proof fn pushes_go_to_origin<R: Fn(Vec<String>) -> Ran>(
    before: Git<R>,
    dir: &str,
    branch: &str,
    after: Git<R>,
    r: Result<(), String>,
)
    requires
        exists|g: &mut Git<R>| #[trigger]
            call_ensures(git::push::<R>, (g, dir, branch), r) && *g == before && *final(g) == after,
    ensures
        issued(before, after, seq!["-C"@, dir@, "push"@, "-u"@, "origin"@, branch@]),
        r is Ok <==> went(came_to(after)),
{
    let words = seq!["push"@, "-u"@, "origin"@, branch@];
    let a = choose|a: Result<Seq<char>, Seq<char>>| #[trigger]
        git::told(before, after, dir@, words, a) && git::finished(a, r);
    let o = choose|o: Ran| #[trigger]
        git::ran(before, after, dir@, words, o) && git::answer(words, o) == a;
    lemma_issued(before, after, dir@, words, o);
    assert(seq!["-C"@, dir@] + words =~= seq!["-C"@, dir@, "push"@, "-u"@, "origin"@, branch@]);
}

/// The branch that is named is deleted.
pub proof fn local_branches_are_deleted_by_name<R: Fn(Vec<String>) -> Ran>(
    before: Git<R>,
    repo: &str,
    branch: &str,
    after: Git<R>,
    r: Result<(), String>,
)
    requires
        exists|g: &mut Git<R>| #[trigger]
            call_ensures(git::delete_local_branch::<R>, (g, repo, branch), r) && *g == before && *final(g) == after,
    ensures
        issued(before, after, seq!["-C"@, repo@, "branch"@, "-D"@, branch@]),
        r is Ok <==> went(came_to(after)),
{
    let words = seq!["branch"@, "-D"@, branch@];
    let a = choose|a: Result<Seq<char>, Seq<char>>| #[trigger]
        git::told(before, after, repo@, words, a) && git::finished(a, r);
    let o = choose|o: Ran| #[trigger]
        git::ran(before, after, repo@, words, o) && git::answer(words, o) == a;
    lemma_issued(before, after, repo@, words, o);
    assert(seq!["-C"@, repo@] + words =~= seq!["-C"@, repo@, "branch"@, "-D"@, branch@]);
}

/// The branch of origin that is named is deleted.
pub proof fn remote_branches_are_deleted_by_name<R: Fn(Vec<String>) -> Ran>(
    before: Git<R>,
    repo: &str,
    branch: &str,
    after: Git<R>,
    r: Result<(), String>,
)
    requires
        exists|g: &mut Git<R>| #[trigger]
            call_ensures(git::delete_remote_branch::<R>, (g, repo, branch), r) && *g == before && *final(g) == after,
    ensures
        issued(before, after, seq!["-C"@, repo@, "push"@, "origin"@, "--delete"@, branch@]),
        r is Ok <==> went(came_to(after)),
{
    let words = seq!["push"@, "origin"@, "--delete"@, branch@];
    let a = choose|a: Result<Seq<char>, Seq<char>>| #[trigger]
        git::told(before, after, repo@, words, a) && git::finished(a, r);
    let o = choose|o: Ran| #[trigger]
        git::ran(before, after, repo@, words, o) && git::answer(words, o) == a;
    lemma_issued(before, after, repo@, words, o);
    assert(seq!["-C"@, repo@] + words =~= seq!["-C"@, repo@, "push"@, "origin"@, "--delete"@, branch@]);
}

/// A worktree is removed without force: git refuses where something would be lost.
pub proof fn worktrees_are_removed_without_force<R: Fn(Vec<String>) -> Ran>(
    before: Git<R>,
    repo: &str,
    path: &str,
    after: Git<R>,
    r: Result<(), String>,
)
    requires
        exists|g: &mut Git<R>| #[trigger]
            call_ensures(git::remove_worktree::<R>, (g, repo, path), r) && *g == before && *final(g) == after,
    ensures
        issued(before, after, seq!["-C"@, repo@, "worktree"@, "remove"@, path@]),
        r is Ok <==> went(came_to(after)),
{
    let words = seq!["worktree"@, "remove"@, path@];
    let a = choose|a: Result<Seq<char>, Seq<char>>| #[trigger]
        git::told(before, after, repo@, words, a) && git::finished(a, r);
    let o = choose|o: Ran| #[trigger]
        git::ran(before, after, repo@, words, o) && git::answer(words, o) == a;
    lemma_issued(before, after, repo@, words, o);
    assert(seq!["-C"@, repo@] + words =~= seq!["-C"@, repo@, "worktree"@, "remove"@, path@]);
}

/// What follows `upstream` is replayed onto `onto`.
pub proof fn rebasing_drops_the_upstream_commit<R: Fn(Vec<String>) -> Ran>(
    before: Git<R>,
    dir: &str,
    onto: &str,
    upstream: &str,
    after: Git<R>,
    r: Result<(), String>,
)
    requires
        exists|g: &mut Git<R>| #[trigger]
            call_ensures(git::rebase_onto::<R>, (g, dir, onto, upstream), r) && *g == before && *final(g) == after,
    ensures
        issued(before, after, seq!["-C"@, dir@, "rebase"@, "--onto"@, onto@, upstream@]),
        r is Ok <==> went(came_to(after)),
{
    let words = seq!["rebase"@, "--onto"@, onto@, upstream@];
    let a = choose|a: Result<Seq<char>, Seq<char>>| #[trigger]
        git::told(before, after, dir@, words, a) && git::finished(a, r);
    let o = choose|o: Ran| #[trigger]
        git::ran(before, after, dir@, words, o) && git::answer(words, o) == a;
    lemma_issued(before, after, dir@, words, o);
    assert(seq!["-C"@, dir@] + words =~= seq!["-C"@, dir@, "rebase"@, "--onto"@, onto@, upstream@]);
}

/// A rebase under way is aborted.
pub proof fn rebases_are_aborted<R: Fn(Vec<String>) -> Ran>(
    before: Git<R>,
    dir: &str,
    after: Git<R>,
    r: Result<(), String>,
)
    requires
        exists|g: &mut Git<R>| #[trigger]
            call_ensures(git::rebase_abort::<R>, (g, dir), r) && *g == before && *final(g) == after,
    ensures
        issued(before, after, seq!["-C"@, dir@, "rebase"@, "--abort"@]),
        r is Ok <==> went(came_to(after)),
{
    let words = seq!["rebase"@, "--abort"@];
    let a = choose|a: Result<Seq<char>, Seq<char>>| #[trigger]
        git::told(before, after, dir@, words, a) && git::finished(a, r);
    let o = choose|o: Ran| #[trigger]
        git::ran(before, after, dir@, words, o) && git::answer(words, o) == a;
    lemma_issued(before, after, dir@, words, o);
    assert(seq!["-C"@, dir@] + words =~= seq!["-C"@, dir@, "rebase"@, "--abort"@]);
}

/// A rewritten branch is pushed only over what was seen of it.
pub proof fn forced_pushes_hold_a_lease<R: Fn(Vec<String>) -> Ran>(
    before: Git<R>,
    dir: &str,
    branch: &str,
    after: Git<R>,
    r: Result<(), String>,
)
    requires
        exists|g: &mut Git<R>| #[trigger]
            call_ensures(git::force_push_with_lease::<R>, (g, dir, branch), r) && *g == before && *final(g) == after,
    ensures
        issued(before, after, seq!["-C"@, dir@, "push"@, "--force-with-lease"@, "origin"@, branch@]),
        r is Ok <==> went(came_to(after)),
{
    let words = seq!["push"@, "--force-with-lease"@, "origin"@, branch@];
    let a = choose|a: Result<Seq<char>, Seq<char>>| #[trigger]
        git::told(before, after, dir@, words, a) && git::finished(a, r);
    let o = choose|o: Ran| #[trigger]
        git::ran(before, after, dir@, words, o) && git::answer(words, o) == a;
    lemma_issued(before, after, dir@, words, o);
    assert(seq!["-C"@, dir@] + words =~= seq!["-C"@, dir@, "push"@, "--force-with-lease"@, "origin"@, branch@]);
}

/// A path is ignored where git says so.
pub proof fn git_says_what_is_ignored<R: Fn(Vec<String>) -> Ran>(
    before: Git<R>,
    repo: &str,
    relpath: &str,
    after: Git<R>,
    r: bool,
)
    requires
        exists|g: &mut Git<R>| #[trigger]
            call_ensures(git::is_ignored::<R>, (g, repo, relpath), r) && *g == before && *final(g) == after,
    ensures
        issued(before, after, seq!["-C"@, repo@, "check-ignore"@, "-q"@, relpath@]),
        r <==> exits(came_to(after), 0),
{
    let words = seq!["check-ignore"@, "-q"@, relpath@];
    let o = choose|o: Ran| #[trigger]
        git::ran(before, after, repo@, words, o) && git::succeeded(o) == r;
    lemma_issued(before, after, repo@, words, o);
    assert(seq!["-C"@, repo@] + words =~= seq!["-C"@, repo@, "check-ignore"@, "-q"@, relpath@]);
}

/// A path is tracked where git lists it.
pub proof fn git_says_what_is_tracked<R: Fn(Vec<String>) -> Ran>(
    before: Git<R>,
    dir: &str,
    relpath: &str,
    after: Git<R>,
    r: bool,
)
    requires
        exists|g: &mut Git<R>| #[trigger]
            call_ensures(git::is_tracked::<R>, (g, dir, relpath), r) && *g == before && *final(g) == after,
    ensures
        issued(before, after, seq!["-C"@, dir@, "ls-files"@, "--error-unmatch"@, relpath@]),
        r <==> exits(came_to(after), 0),
{
    let words = seq!["ls-files"@, "--error-unmatch"@, relpath@];
    let o = choose|o: Ran| #[trigger]
        git::ran(before, after, dir@, words, o) && git::succeeded(o) == r;
    lemma_issued(before, after, dir@, words, o);
    assert(seq!["-C"@, dir@] + words =~= seq!["-C"@, dir@, "ls-files"@, "--error-unmatch"@, relpath@]);
}

/// Ancestry is asked of the two commits in their order, and any failure reads as no.
pub proof fn ancestors_come_first<R: Fn(Vec<String>) -> Ran>(
    before: Git<R>,
    repo: &str,
    ancestor: &str,
    descendant: &str,
    after: Git<R>,
    r: bool,
)
    requires
        exists|g: &mut Git<R>| #[trigger]
            call_ensures(git::is_ancestor::<R>, (g, repo, ancestor, descendant), r) && *g == before && *final(g) == after,
    ensures
        issued(before, after, seq!["-C"@, repo@, "merge-base"@, "--is-ancestor"@, ancestor@, descendant@]),
        r <==> exits(came_to(after), 0),
{
    let words = seq!["merge-base"@, "--is-ancestor"@, ancestor@, descendant@];
    let o = choose|o: Ran| #[trigger]
        git::ran(before, after, repo@, words, o) && git::succeeded(o) == r;
    lemma_issued(before, after, repo@, words, o);
    assert(seq!["-C"@, repo@] + words =~= seq!["-C"@, repo@, "merge-base"@, "--is-ancestor"@, ancestor@, descendant@]);
}

/// A working tree is clean where git lists no change to tracked files.
pub proof fn a_tree_is_clean_where_git_lists_no_change<R: Fn(Vec<String>) -> Ran>(
    before: Git<R>,
    dir: &str,
    after: Git<R>,
    r: Result<bool, String>,
)
    requires
        exists|g: &mut Git<R>| #[trigger]
            call_ensures(git::is_tree_clean::<R>, (g, dir), r) && *g == before && *final(g) == after,
    ensures
        issued(before, after, seq!["-C"@, dir@, "status"@, "--porcelain"@, "--untracked-files=no"@]),
        r is Ok <==> went(came_to(after)),
        r is Ok ==> (r->Ok_0 <==> (blank(out(came_to(after))))),
{
    let words = seq!["status"@, "--porcelain"@, "--untracked-files=no"@];
    let holds = |out: Seq<char>| text::trim(out).len() == 0;
    let a = choose|a: Result<Seq<char>, Seq<char>>| #[trigger]
        git::told(before, after, dir@, words, a) && git::judged(a, holds, r);
    let o = choose|o: Ran| #[trigger]
        git::ran(before, after, dir@, words, o) && git::answer(words, o) == a;
    lemma_issued(before, after, dir@, words, o);
    assert(seq!["-C"@, dir@] + words =~= seq!["-C"@, dir@, "status"@, "--porcelain"@, "--untracked-files=no"@]);
    if went(o) {
        lemma_trim(out(o));
    }
}

/// A path is clean where git lists no change to it.
pub proof fn a_path_is_clean_where_git_lists_no_change<R: Fn(Vec<String>) -> Ran>(
    before: Git<R>,
    dir: &str,
    relpath: &str,
    after: Git<R>,
    r: Result<bool, String>,
)
    requires
        exists|g: &mut Git<R>| #[trigger]
            call_ensures(git::is_clean::<R>, (g, dir, relpath), r) && *g == before && *final(g) == after,
    ensures
        issued(before, after, seq!["-C"@, dir@, "status"@, "--porcelain"@, "--"@, relpath@]),
        r is Ok <==> went(came_to(after)),
        r is Ok ==> (r->Ok_0 <==> (blank(out(came_to(after))))),
{
    let words = seq!["status"@, "--porcelain"@, "--"@, relpath@];
    let holds = |out: Seq<char>| text::trim(out).len() == 0;
    let a = choose|a: Result<Seq<char>, Seq<char>>| #[trigger]
        git::told(before, after, dir@, words, a) && git::judged(a, holds, r);
    let o = choose|o: Ran| #[trigger]
        git::ran(before, after, dir@, words, o) && git::answer(words, o) == a;
    lemma_issued(before, after, dir@, words, o);
    assert(seq!["-C"@, dir@] + words =~= seq!["-C"@, dir@, "status"@, "--porcelain"@, "--"@, relpath@]);
    if went(o) {
        lemma_trim(out(o));
    }
}

/// There are untracked files where a line of the status begins with two question marks.
pub proof fn untracked_files_are_marked<R: Fn(Vec<String>) -> Ran>(
    before: Git<R>,
    dir: &str,
    after: Git<R>,
    r: Result<bool, String>,
)
    requires
        exists|g: &mut Git<R>| #[trigger]
            call_ensures(git::has_untracked_files::<R>, (g, dir), r) && *g == before && *final(g) == after,
    ensures
        issued(before, after, seq!["-C"@, dir@, "status"@, "--porcelain"@]),
        r is Ok <==> went(came_to(after)),
        r is Ok ==> (r->Ok_0 <==> (exists|i: int| #![trigger text::lines(out(came_to(after)))[i]] 0 <= i < text::lines(out(came_to(after))).len() && text::starts_with(text::lines(out(came_to(after)))[i], "??"@))),
{
    let words = seq!["status"@, "--porcelain"@];
    let holds = |out: Seq<char>| git::any_untracked(text::lines(out));
    let a = choose|a: Result<Seq<char>, Seq<char>>| #[trigger]
        git::told(before, after, dir@, words, a) && git::judged(a, holds, r);
    let o = choose|o: Ran| #[trigger]
        git::ran(before, after, dir@, words, o) && git::answer(words, o) == a;
    lemma_issued(before, after, dir@, words, o);
    assert(seq!["-C"@, dir@] + words =~= seq!["-C"@, dir@, "status"@, "--porcelain"@]);
    if went(o) {
        lemma_trim(out(o));
    }
}

/// A range has merges where git lists one.
pub proof fn merges_are_listed<R: Fn(Vec<String>) -> Ran>(
    before: Git<R>,
    dir: &str,
    range: &str,
    after: Git<R>,
    r: Result<bool, String>,
)
    requires
        exists|g: &mut Git<R>| #[trigger]
            call_ensures(git::range_has_merges::<R>, (g, dir, range), r) && *g == before && *final(g) == after,
    ensures
        issued(before, after, seq!["-C"@, dir@, "rev-list"@, "--merges"@, range@]),
        r is Ok <==> went(came_to(after)),
        r is Ok ==> (r->Ok_0 <==> (!blank(out(came_to(after))))),
{
    let words = seq!["rev-list"@, "--merges"@, range@];
    let holds = |out: Seq<char>| text::trim(out).len() > 0;
    let a = choose|a: Result<Seq<char>, Seq<char>>| #[trigger]
        git::told(before, after, dir@, words, a) && git::judged(a, holds, r);
    let o = choose|o: Ran| #[trigger]
        git::ran(before, after, dir@, words, o) && git::answer(words, o) == a;
    lemma_issued(before, after, dir@, words, o);
    assert(seq!["-C"@, dir@] + words =~= seq!["-C"@, dir@, "rev-list"@, "--merges"@, range@]);
    if went(o) {
        lemma_trim(out(o));
    }
}

/// A range touches a path where git lists a commit that does.
pub proof fn touching_commits_are_listed<R: Fn(Vec<String>) -> Ran>(
    before: Git<R>,
    dir: &str,
    range: &str,
    relpath: &str,
    after: Git<R>,
    r: Result<bool, String>,
)
    requires
        exists|g: &mut Git<R>| #[trigger]
            call_ensures(git::path_touched_in_range::<R>, (g, dir, range, relpath), r) && *g == before && *final(g) == after,
    ensures
        issued(before, after, seq!["-C"@, dir@, "rev-list"@, range@, "--"@, relpath@]),
        r is Ok <==> went(came_to(after)),
        r is Ok ==> (r->Ok_0 <==> (!blank(out(came_to(after))))),
{
    let words = seq!["rev-list"@, range@, "--"@, relpath@];
    let holds = |out: Seq<char>| text::trim(out).len() > 0;
    let a = choose|a: Result<Seq<char>, Seq<char>>| #[trigger]
        git::told(before, after, dir@, words, a) && git::judged(a, holds, r);
    let o = choose|o: Ran| #[trigger]
        git::ran(before, after, dir@, words, o) && git::answer(words, o) == a;
    lemma_issued(before, after, dir@, words, o);
    assert(seq!["-C"@, dir@] + words =~= seq!["-C"@, dir@, "rev-list"@, range@, "--"@, relpath@]);
    if went(o) {
        lemma_trim(out(o));
    }
}

/// A directory is in a work tree where git prints that it is.
pub proof fn work_trees_say_so<R: Fn(Vec<String>) -> Ran>(
    before: Git<R>,
    dir: &str,
    after: Git<R>,
    r: bool,
)
    requires
        exists|g: &mut Git<R>| #[trigger]
            call_ensures(git::is_inside_work_tree::<R>, (g, dir), r) && *g == before && *final(g) == after,
    ensures
        issued(before, after, seq!["-C"@, dir@, "rev-parse"@, "--is-inside-work-tree"@]),
        (r <==> went(came_to(after)) && text::trim(out(came_to(after))) == "true"@),
{
    let words = seq!["rev-parse"@, "--is-inside-work-tree"@];
    let fits = |a: Result<Seq<char>, Seq<char>>| r == (git::trimmed(a) == Ok::<Seq<char>, Seq<char>>("true"@));
    let a = choose|a: Result<Seq<char>, Seq<char>>| #[trigger]
        git::told(before, after, dir@, words, a) && fits(a);
    let o = choose|o: Ran| #[trigger]
        git::ran(before, after, dir@, words, o) && git::answer(words, o) == a;
    lemma_issued(before, after, dir@, words, o);
    assert(seq!["-C"@, dir@] + words =~= seq!["-C"@, dir@, "rev-parse"@, "--is-inside-work-tree"@]);
    if went(o) {
        lemma_trim(out(o));
    }
}

/// The top of a work tree is what git prints, without the white space around it.
pub proof fn the_top_is_what_git_prints<R: Fn(Vec<String>) -> Ran>(
    before: Git<R>,
    dir: &str,
    after: Git<R>,
    r: Result<String, String>,
)
    requires
        exists|g: &mut Git<R>| #[trigger]
            call_ensures(git::toplevel::<R>, (g, dir), r) && *g == before && *final(g) == after,
    ensures
        issued(before, after, seq!["-C"@, dir@, "rev-parse"@, "--show-toplevel"@]),
        (r is Ok <==> went(came_to(after))) && (r is Ok ==> is_trimmed(out(came_to(after)), r->Ok_0@)),
{
    let words = seq!["rev-parse"@, "--show-toplevel"@];
    let fits = |a: Result<Seq<char>, Seq<char>>| git::seen(r) == git::trimmed(a);
    let a = choose|a: Result<Seq<char>, Seq<char>>| #[trigger]
        git::told(before, after, dir@, words, a) && fits(a);
    let o = choose|o: Ran| #[trigger]
        git::ran(before, after, dir@, words, o) && git::answer(words, o) == a;
    lemma_issued(before, after, dir@, words, o);
    assert(seq!["-C"@, dir@] + words =~= seq!["-C"@, dir@, "rev-parse"@, "--show-toplevel"@]);
    if went(o) {
        lemma_trim(out(o));
    }
}

/// The URL of origin is what git prints, without the white space around it.
pub proof fn the_url_is_what_git_prints<R: Fn(Vec<String>) -> Ran>(
    before: Git<R>,
    repo: &str,
    after: Git<R>,
    r: Result<String, String>,
)
    requires
        exists|g: &mut Git<R>| #[trigger]
            call_ensures(git::remote_url::<R>, (g, repo), r) && *g == before && *final(g) == after,
    ensures
        issued(before, after, seq!["-C"@, repo@, "remote"@, "get-url"@, "origin"@]),
        (r is Ok <==> went(came_to(after))) && (r is Ok ==> is_trimmed(out(came_to(after)), r->Ok_0@)),
{
    let words = seq!["remote"@, "get-url"@, "origin"@];
    let fits = |a: Result<Seq<char>, Seq<char>>| git::seen(r) == git::trimmed(a);
    let a = choose|a: Result<Seq<char>, Seq<char>>| #[trigger]
        git::told(before, after, repo@, words, a) && fits(a);
    let o = choose|o: Ran| #[trigger]
        git::ran(before, after, repo@, words, o) && git::answer(words, o) == a;
    lemma_issued(before, after, repo@, words, o);
    assert(seq!["-C"@, repo@] + words =~= seq!["-C"@, repo@, "remote"@, "get-url"@, "origin"@]);
    if went(o) {
        lemma_trim(out(o));
    }
}

/// A rev resolves to what git prints for it, and to nothing where that fails.
pub proof fn revs_resolve_to_what_git_prints<R: Fn(Vec<String>) -> Ran>(
    before: Git<R>,
    repo: &str,
    rev: &str,
    after: Git<R>,
    r: Option<String>,
)
    requires
        exists|g: &mut Git<R>| #[trigger]
            call_ensures(git::rev_parse_ok::<R>, (g, repo, rev), r) && *g == before && *final(g) == after,
    ensures
        issued(before, after, seq!["-C"@, repo@, "rev-parse"@, "--verify"@, "--quiet"@, rev@]),
        (r is Some <==> went(came_to(after))) && (r is Some ==> is_trimmed(out(came_to(after)), r->0@)),
{
    let words = seq!["rev-parse"@, "--verify"@, "--quiet"@, rev@];
    let fits = |a: Result<Seq<char>, Seq<char>>| git::sha_seen(r) == match a { Ok(out) => Some(text::trim(out)), Err(_) => None };
    let a = choose|a: Result<Seq<char>, Seq<char>>| #[trigger]
        git::told(before, after, repo@, words, a) && fits(a);
    let o = choose|o: Ran| #[trigger]
        git::ran(before, after, repo@, words, o) && git::answer(words, o) == a;
    lemma_issued(before, after, repo@, words, o);
    assert(seq!["-C"@, repo@] + words =~= seq!["-C"@, repo@, "rev-parse"@, "--verify"@, "--quiet"@, rev@]);
    if went(o) {
        lemma_trim(out(o));
    }
}

/// The default branch is the one that the HEAD of origin names.
pub proof fn the_default_branch_is_origins<R: Fn(Vec<String>) -> Ran>(
    before: Git<R>,
    dir: &str,
    after: Git<R>,
    r: Result<String, String>,
)
    requires
        exists|g: &mut Git<R>| #[trigger]
            call_ensures(git::default_remote_branch::<R>, (g, dir), r) && *g == before && *final(g) == after,
    ensures
        issued(before, after, seq!["-C"@, dir@, "rev-parse"@, "--abbrev-ref"@, "origin/HEAD"@]),
        (r is Ok <==> went(came_to(after)) && text::starts_with(text::trim(out(came_to(after))), "origin/"@)) && (r is Ok ==> "origin/"@ + r->Ok_0@ == text::trim(out(came_to(after)))),
{
    let words = seq!["rev-parse"@, "--abbrev-ref"@, "origin/HEAD"@];
    let fits = |a: Result<Seq<char>, Seq<char>>| git::seen(r) == git::default_of(a);
    let a = choose|a: Result<Seq<char>, Seq<char>>| #[trigger]
        git::told(before, after, dir@, words, a) && fits(a);
    let o = choose|o: Ran| #[trigger]
        git::ran(before, after, dir@, words, o) && git::answer(words, o) == a;
    lemma_issued(before, after, dir@, words, o);
    assert(seq!["-C"@, dir@] + words =~= seq!["-C"@, dir@, "rev-parse"@, "--abbrev-ref"@, "origin/HEAD"@]);
    if went(o) {
        lemma_trim(out(o));
    }
    if went(o) && text::starts_with(text::trim(out(o)), "origin/"@) {
        let s = text::trim(out(o));
        let p = "origin/"@;
        assert(s.subrange(0, p.len() as int) == p);
        assert(p + s.skip(p.len() as int) =~= s.subrange(0, p.len() as int) + s.skip(
            p.len() as int,
        ));
        assert(s.subrange(0, p.len() as int) + s.skip(p.len() as int) =~= s);
    }
}

pub proof fn lemma_did<R: Fn(Vec<String>) -> Ran>(
    before: Git<R>,
    after: Git<R>,
    dir: Seq<char>,
    words: Seq<Seq<char>>,
    r: Result<(), String>,
)
    requires
        git::did(before, after, dir, words, r),
    ensures
        issued(before, after, seq!["-C"@, dir] + words),
        r is Ok <==> went(came_to(after)),
{
    let a = choose|a: Result<Seq<char>, Seq<char>>| #[trigger]
        git::told(before, after, dir, words, a) && git::finished(a, r);
    let o = choose|o: Ran| #[trigger]
        git::ran(before, after, dir, words, o) && git::answer(words, o) == a;
    lemma_issued(before, after, dir, words, o);
}

pub proof fn lemma_probed<R: Fn(Vec<String>) -> Ran>(
    before: Git<R>,
    after: Git<R>,
    dir: Seq<char>,
    words: Seq<Seq<char>>,
    ok: bool,
)
    requires
        git::probed(before, after, dir, words, ok),
    ensures
        issued(before, after, seq!["-C"@, dir] + words),
        ok <==> exits(came_to(after), 0),
{
    let o = choose|o: Ran| #[trigger]
        git::ran(before, after, dir, words, o) && git::succeeded(o) == ok;
    lemma_issued(before, after, dir, words, o);
}

/// What the answer was that fits.
pub proof fn lemma_answered<R: Fn(Vec<String>) -> Ran>(
    before: Git<R>,
    after: Git<R>,
    dir: Seq<char>,
    words: Seq<Seq<char>>,
    fits: spec_fn(Result<Seq<char>, Seq<char>>) -> bool,
) -> (a: Result<Seq<char>, Seq<char>>)
    requires
        git::answered(before, after, dir, words, fits),
    ensures
        fits(a),
        issued(before, after, seq!["-C"@, dir] + words),
        a is Ok <==> went(came_to(after)),
        a is Ok ==> a->Ok_0 == out(came_to(after)),
{
    let a = choose|a: Result<Seq<char>, Seq<char>>| #[trigger]
        git::told(before, after, dir, words, a) && fits(a);
    let o = choose|o: Ran| #[trigger]
        git::ran(before, after, dir, words, o) && git::answer(words, o) == a;
    lemma_issued(before, after, dir, words, o);
    a
}

pub proof fn lemma_found<R: Fn(Vec<String>) -> Ran>(
    before: Git<R>,
    after: Git<R>,
    dir: Seq<char>,
    words: Seq<Seq<char>>,
    holds: spec_fn(Seq<char>) -> bool,
    r: Result<bool, String>,
)
    requires
        git::found(before, after, dir, words, holds, r),
    ensures
        issued(before, after, seq!["-C"@, dir] + words),
        r is Ok <==> went(came_to(after)),
        r is Ok ==> r->Ok_0 == holds(out(came_to(after))),
{
    let a = choose|a: Result<Seq<char>, Seq<char>>| #[trigger]
        git::told(before, after, dir, words, a) && git::judged(a, holds, r);
    let o = choose|o: Ran| #[trigger]
        git::ran(before, after, dir, words, o) && git::answer(words, o) == a;
    lemma_issued(before, after, dir, words, o);
}

pub proof fn lemma_resolved<R: Fn(Vec<String>) -> Ran>(
    before: Git<R>,
    after: Git<R>,
    dir: Seq<char>,
    rev: Seq<char>,
    commit: Option<Seq<char>>,
)
    requires
        git::resolved(before, after, dir, rev, commit),
    ensures
        issued(before, after, seq!["-C"@, dir, "rev-parse"@, "--verify"@, "--quiet"@, rev]),
        commit is Some <==> went(came_to(after)),
        commit is Some ==> commit->0 == text::trim(out(came_to(after))),
{
    let words = seq!["rev-parse"@, "--verify"@, "--quiet"@, rev];
    let a = lemma_answered(
        before,
        after,
        dir,
        words,
        |a: Result<Seq<char>, Seq<char>>|
            commit == match a {
                Ok(out) => Some(text::trim(out)),
                Err(_) => None,
            },
    );
    assert(seq!["-C"@, dir] + words =~= seq![
        "-C"@,
        dir,
        "rev-parse"@,
        "--verify"@,
        "--quiet"@,
        rev,
    ]);
}

/// The `n`th command of all, and what it came to.
pub open spec fn nth<R: Fn(Vec<String>) -> Ran>(git: Git<R>, n: int) -> (Vec<String>, Ran) {
    git.calls()[n]
}

/// A trial merge of a base into HEAD.
pub open spec fn trial(dir: Seq<char>, base: Seq<char>) -> Seq<Seq<char>> {
    seq!["-C"@, dir, "merge-tree"@, "--write-tree"@, "HEAD"@, base]
}

/// The trial merge found a conflict.
pub open spec fn collides(o: Ran) -> bool {
    exits(o, 1) && !o->stdout_empty
}

/// From the `n`th command on, the two revs were resolved, HEAD first, and then merged
/// on trial; what the merge came to decides.
pub open spec fn merged_on_trial<R: Fn(Vec<String>) -> Ran>(
    after: Git<R>,
    n: int,
    dir: Seq<char>,
    base: Seq<char>,
    r: Result<bool, String>,
) -> bool {
    &&& n < after.calls().len() <= n + 3
    &&& spells(
        nth(after, n).0,
        seq!["-C"@, dir, "rev-parse"@, "--verify"@, "--quiet"@, "HEAD"@],
    )
    &&& after.calls().len() == n + 1 <==> !went(nth(after, n).1)
    &&& after.calls().len() > n + 1 ==> spells(
        nth(after, n + 1).0,
        seq!["-C"@, dir, "rev-parse"@, "--verify"@, "--quiet"@, base],
    )
    &&& after.calls().len() == n + 2 ==> !went(nth(after, n + 1).1)
    &&& after.calls().len() < n + 3 ==> r is Err
    &&& after.calls().len() == n + 3 ==> {
        &&& went(nth(after, n + 1).1)
        &&& spells(nth(after, n + 2).0, trial(dir, base))
        &&& r == Ok::<bool, String>(true) <==> collides(nth(after, n + 2).1)
        &&& r == Ok::<bool, String>(false) <==> exits(nth(after, n + 2).1, 0)
    }
}

pub proof fn lemma_tried<R: Fn(Vec<String>) -> Ran>(
    before: Git<R>,
    after: Git<R>,
    dir: Seq<char>,
    base: Seq<char>,
    r: Result<bool, String>,
)
    requires
        git::tried(before, after, dir, base, r),
    ensures
        before.calls().is_prefix_of(after.calls()),
        after.function() == before.function(),
        merged_on_trial(after, before.calls().len() as int, dir, base, r),
{
    let n = before.calls().len() as int;
    let words = seq!["merge-tree"@, "--write-tree"@, "HEAD"@, base];
    let fits = |o: Ran|
        match git::conflicts(o) {
            Ok(b) => r == Ok::<bool, String>(b),
            Err(e) => r is Err && r->Err_0@ == e,
        };
    let (one, head) = choose|one: Git<R>, head: Option<Seq<char>>| #[trigger]
        git::resolved(before, one, dir, "HEAD"@, head) && (if head is None {
            r is Err && r->Err_0@ == "HEAD does not resolve in "@ + dir && after == one
        } else {
            exists|two: Git<R>, tip: Option<Seq<char>>| #[trigger]
                git::resolved(one, two, dir, base, tip) && (if tip is None {
                    r is Err && r->Err_0@ == "`"@ + base + "` does not resolve in "@ + dir && after
                        == two
                } else {
                    git::ended(two, after, dir, words, fits)
                })
        });
    lemma_resolved(before, one, dir, "HEAD"@, head);
    assert(one.calls() =~= before.calls().push(one.calls().last()));
    if head is Some {
        let (two, tip) = choose|two: Git<R>, tip: Option<Seq<char>>| #[trigger]
            git::resolved(one, two, dir, base, tip) && (if tip is None {
                r is Err && r->Err_0@ == "`"@ + base + "` does not resolve in "@ + dir && after
                    == two
            } else {
                git::ended(two, after, dir, words, fits)
            });
        lemma_resolved(one, two, dir, base, tip);
        assert(two.calls() =~= one.calls().push(two.calls().last()));
        if tip is Some {
            let o = choose|o: Ran| #[trigger] git::ran(two, after, dir, words, o) && fits(o);
            lemma_issued(two, after, dir, words, o);
            assert(seq!["-C"@, dir] + words =~= trial(dir, base));
            assert(after.calls() =~= two.calls().push(after.calls().last()));
        }
    }
}

/// Whether a base conflicts is read from a trial merge of exactly that base into HEAD,
/// the last command that is run, once both revs resolved: it conflicts where the merge
/// exits with one and prints what it made, and does not where it exits with zero.
pub proof fn conflicts_are_found_by_a_trial_merge<R: Fn(Vec<String>) -> Ran>(
    before: Git<R>,
    dir: &str,
    base: &str,
    after: Git<R>,
    r: Result<bool, String>,
)
    requires
        exists|g: &mut Git<R>| #[trigger]
            call_ensures(git::would_conflict::<R>, (g, dir, base), r) && *g == before && *final(g)
                == after,
    ensures
        before.calls().is_prefix_of(after.calls()),
        merged_on_trial(after, before.calls().len() as int, dir@, base@, r),
        r is Ok ==> spells(
            after.calls().last().0,
            seq!["-C"@, dir@, "merge-tree"@, "--write-tree"@, "HEAD"@, base@],
        ),
        r == Ok::<bool, String>(true) ==> collides(came_to(after)),
        r == Ok::<bool, String>(false) ==> exits(came_to(after), 0),
{
    lemma_tried(before, after, dir@, base@, r);
}

/// A merge that fails is aborted, and nothing else is run; the error is the merge's.
pub proof fn failed_merges_are_aborted<R: Fn(Vec<String>) -> Ran>(
    before: Git<R>,
    dir: &str,
    target: &str,
    after: Git<R>,
    r: Result<(), String>,
)
    requires
        exists|g: &mut Git<R>| #[trigger]
            call_ensures(git::merge::<R>, (g, dir, target), r) && *g == before && *final(g)
                == after,
    ensures
        ({
            let n = before.calls().len() as int;
            &&& before.calls().is_prefix_of(after.calls())
            &&& n < after.calls().len()
            &&& spells(
                nth(after, n).0,
                seq!["-C"@, dir@, "merge"@, "--no-edit"@, target@],
            )
            &&& r is Ok <==> went(nth(after, n).1)
            &&& r is Ok ==> after.calls().len() == n + 1
            &&& r is Err ==> after.calls().len() == n + 2 && spells(
                nth(after, n + 1).0,
                seq!["-C"@, dir@, "merge"@, "--abort"@],
            )
        }),
{
    lemma_merged(before, after, dir@, target@, r);
}

pub proof fn lemma_merged<R: Fn(Vec<String>) -> Ran>(
    before: Git<R>,
    after: Git<R>,
    dir: Seq<char>,
    target: Seq<char>,
    r: Result<(), String>,
)
    requires
        git::merged(before, after, dir, target, r),
    ensures
        ({
            let n = before.calls().len() as int;
            &&& before.calls().is_prefix_of(after.calls())
            &&& after.function() == before.function()
            &&& n < after.calls().len()
            &&& spells(nth(after, n).0, seq!["-C"@, dir, "merge"@, "--no-edit"@, target])
            &&& r is Ok <==> went(nth(after, n).1)
            &&& r is Ok ==> after.calls().len() == n + 1
            &&& r is Err ==> after.calls().len() == n + 2 && spells(
                nth(after, n + 1).0,
                seq!["-C"@, dir, "merge"@, "--abort"@],
            )
        }),
{
    let words = seq!["merge"@, "--no-edit"@, target];
    let full = seq!["-C"@, dir, "merge"@, "--no-edit"@, target];
    assert(seq!["-C"@, dir] + words =~= full);
    if r is Ok {
        lemma_did(before, after, dir, words, r);
        assert(after.calls() =~= before.calls().push(after.calls().last()));
    } else {
        let abort = seq!["merge"@, "--abort"@];
        let mid = choose|mid: Git<R>| #[trigger]
            git::did(before, mid, dir, words, r) && git::attempted(mid, after, dir, abort);
        lemma_did(before, mid, dir, words, r);
        assert(mid.calls() =~= before.calls().push(mid.calls().last()));
        let o = choose|o: Ran| #[trigger] git::ran(mid, after, dir, abort, o);
        lemma_issued(mid, after, dir, abort, o);
        assert(seq!["-C"@, dir] + abort =~= seq!["-C"@, dir, "merge"@, "--abort"@]);
        assert(after.calls() =~= mid.calls().push(after.calls().last()));
    }
}

/// A file is committed by its own path alone, once it was staged.
pub proof fn files_are_staged_and_committed<R: Fn(Vec<String>) -> Ran>(
    before: Git<R>,
    dir: &str,
    relpath: &str,
    message: &str,
    after: Git<R>,
    r: Result<(), String>,
)
    requires
        exists|g: &mut Git<R>| #[trigger]
            call_ensures(git::commit_file::<R>, (g, dir, relpath, message), r) && *g == before
                && *final(g) == after,
    ensures
        ({
            let n = before.calls().len() as int;
            &&& before.calls().is_prefix_of(after.calls())
            &&& n < after.calls().len()
            &&& spells(nth(after, n).0, seq!["-C"@, dir@, "add"@, "--"@, relpath@])
            &&& !went(nth(after, n).1) ==> r is Err && after.calls().len() == n + 1
            &&& went(nth(after, n).1) ==> after.calls().len() == n + 2 && spells(
                nth(after, n + 1).0,
                seq!["-C"@, dir@, "commit"@, "-m"@, message@, "--"@, relpath@],
            ) && (r is Ok <==> went(nth(after, n + 1).1))
        }),
{
    let words = seq!["add"@, "--"@, relpath@];
    let commit = seq!["commit"@, "-m"@, message@, "--"@, relpath@];
    let (mid, s) = choose|mid: Git<R>, s: Result<(), String>| #[trigger]
        git::did(before, mid, dir@, words, s) && match s {
            Err(e) => after == mid && r == Err::<(), String>(e),
            Ok(_) => git::did(mid, after, dir@, commit, r),
        };
    lemma_did(before, mid, dir@, words, s);
    assert(seq!["-C"@, dir@] + words =~= seq!["-C"@, dir@, "add"@, "--"@, relpath@]);
    assert(mid.calls() =~= before.calls().push(mid.calls().last()));
    if s is Ok {
        lemma_did(mid, after, dir@, commit, r);
        assert(seq!["-C"@, dir@] + commit =~= seq![
            "-C"@,
            dir@,
            "commit"@,
            "-m"@,
            message@,
            "--"@,
            relpath@,
        ]);
        assert(after.calls() =~= mid.calls().push(after.calls().last()));
    }
}

} // verus!
