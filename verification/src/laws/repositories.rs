//! Setting repositories up, and listing what they hold.

use vstd::prelude::*;

use crate::git::{self, Git, Ran};
use crate::laws::commands::{came_to, exits, issued, lemma_issued, lemma_probed, out, went};
use crate::text;

verus! {

pub proof fn lemma_told<R: Fn(Vec<String>) -> Ran>(
    before: Git<R>,
    after: Git<R>,
    dir: Seq<char>,
    words: Seq<Seq<char>>,
    full: Seq<Seq<char>>,
    a: Result<Seq<char>, Seq<char>>,
)
    requires
        git::told(before, after, dir, words, a),
        full =~= seq!["-C"@, dir] + words,
    ensures
        issued(before, after, full),
        a is Ok <==> went(came_to(after)),
        a is Ok ==> a->Ok_0 == out(came_to(after)),
{
    let o = choose|o: Ran| #[trigger]
        git::ran(before, after, dir, words, o) && git::answer(words, o) == a;
    lemma_issued(before, after, dir, words, o);
}

/// A clone is bare, of one branch, from the address given to the place given; where there
/// is a repository to borrow from, it is borrowed from and let go.
pub proof fn clones_are_bare_and_whole<R: Fn(Vec<String>) -> Ran>(
    before: Git<R>,
    url: &str,
    dest: &str,
    reference: Option<&str>,
    after: Git<R>,
    r: Result<(), String>,
)
    requires
        exists|g: &mut Git<R>| #[trigger]
            call_ensures(git::clone_bare::<R>, (g, url, dest, reference), r) && *g == before
                && *final(g) == after,
    ensures
        reference is None ==> issued(
            before,
            after,
            seq!["-C"@, "."@, "clone"@, "--bare"@, "--single-branch"@, url@, dest@],
        ),
        reference is Some ==> issued(
            before,
            after,
            seq![
                "-C"@,
                "."@,
                "clone"@,
                "--bare"@,
                "--single-branch"@,
                "--reference"@,
                reference->0@,
                "--dissociate"@,
                url@,
                dest@,
            ],
        ),
        r is Ok <==> went(came_to(after)),
{
    let words = match reference {
        Some(path) => seq![
            "clone"@,
            "--bare"@,
            "--single-branch"@,
            "--reference"@,
            path@,
            "--dissociate"@,
            url@,
            dest@,
        ],
        None => seq!["clone"@, "--bare"@, "--single-branch"@, url@, dest@],
    };
    let a = choose|a: Result<Seq<char>, Seq<char>>| #[trigger]
        git::told(before, after, "."@, words, a) && git::finished(a, r);
    lemma_told(before, after, "."@, words, seq!["-C"@, "."@] + words, a);
    if reference is Some {
        assert(seq!["-C"@, "."@] + words =~= seq![
            "-C"@,
            "."@,
            "clone"@,
            "--bare"@,
            "--single-branch"@,
            "--reference"@,
            reference->0@,
            "--dissociate"@,
            url@,
            dest@,
        ]);
    } else {
        assert(seq!["-C"@, "."@] + words =~= seq![
            "-C"@,
            "."@,
            "clone"@,
            "--bare"@,
            "--single-branch"@,
            url@,
            dest@,
        ]);
    }
}

/// A remote is set up: all branches are mapped, fetched, and origin's default is noted, each
/// only where the one before succeeded.
pub open spec fn sets_up<R: Fn(Vec<String>) -> Ran>(
    before: Git<R>,
    after: Git<R>,
    repo: Seq<char>,
    r: Result<(), String>,
) -> bool {
    exists|one: Git<R>|
        #![trigger came_to(one)]
        {
            &&& issued(
                before,
                one,
                seq![
                    "-C"@,
                    repo,
                    "config"@,
                    "remote.origin.fetch"@,
                    "+refs/heads/*:refs/remotes/origin/*"@,
                ],
            )
            &&& !went(came_to(one)) ==> after == one && r is Err
            &&& went(came_to(one)) ==> exists|two: Git<R>|
                #![trigger came_to(two)]
                {
                    &&& issued(
                        one,
                        two,
                        seq!["-C"@, repo, "fetch"@, "--prune"@, "origin"@],
                    )
                    &&& !went(came_to(two)) ==> after == two && r is Err
                    &&& went(came_to(two)) ==> issued(
                        two,
                        after,
                        seq!["-C"@, repo, "remote"@, "set-head"@, "origin"@, "--auto"@],
                    ) && (r is Ok <==> went(came_to(after)))
                }
        }
}

/// A remote is set up by three commands in turn, the next one only where the one before
/// succeeded: all branches are mapped, fetched, and origin's default is noted.
pub proof fn remotes_are_mapped_fetched_and_noted<R: Fn(Vec<String>) -> Ran>(
    before: Git<R>,
    repo: &str,
    after: Git<R>,
    r: Result<(), String>,
)
    requires
        exists|g: &mut Git<R>| #[trigger]
            call_ensures(git::setup_conventional_remote::<R>, (g, repo), r) && *g == before
                && *final(g) == after,
    ensures
        sets_up(before, after, repo@, r),
{
    lemma_set_up(before, repo@, after, r);
}

pub proof fn lemma_set_up<R: Fn(Vec<String>) -> Ran>(
    before: Git<R>,
    repo: Seq<char>,
    after: Git<R>,
    r: Result<(), String>,
)
    requires
        git::set_up(before, after, repo, r),
    ensures
        sets_up(before, after, repo, r),
{
    let words = seq!["config"@, "remote.origin.fetch"@, git::REFSPEC@];
    let (one, c) = choose|one: Git<R>, c: Result<(), String>| #[trigger]
        git::did(before, one, repo, words, c) && match c {
            Err(e) => after == one && r == Err::<(), String>(e),
            Ok(_) => git::refs_set_up(one, after, repo, r),
        };
    let a = choose|a: Result<Seq<char>, Seq<char>>| #[trigger]
        git::told(before, one, repo, words, a) && git::finished(a, c);
    lemma_told(
        before,
        one,
        repo,
        words,
        seq![
            "-C"@,
            repo,
            "config"@,
            "remote.origin.fetch"@,
            "+refs/heads/*:refs/remotes/origin/*"@,
        ],
        a,
    );
    assert(came_to(one) == came_to(one));
    if went(came_to(one)) {
        let (two, f) = choose|two: Git<R>, f: Result<(), String>| #[trigger]
            git::fetched(one, two, repo, f) && match f {
                Err(e) => after == two && r == Err::<(), String>(e),
                Ok(_) => git::did(
                    two,
                    after,
                    repo,
                    seq!["remote"@, "set-head"@, "origin"@, "--auto"@],
                    r,
                ),
            };
        let fetch = seq!["fetch"@, "--prune"@, "origin"@];
        let b = choose|b: Result<Seq<char>, Seq<char>>| #[trigger]
            git::told(one, two, repo, fetch, b) && git::finished(b, f);
        lemma_told(
            one,
            two,
            repo,
            fetch,
            seq!["-C"@, repo, "fetch"@, "--prune"@, "origin"@],
            b,
        );
        assert(came_to(two) == came_to(two));
        if went(came_to(two)) {
            let head = seq!["remote"@, "set-head"@, "origin"@, "--auto"@];
            let d = choose|d: Result<Seq<char>, Seq<char>>| #[trigger]
                git::told(two, after, repo, head, d) && git::finished(d, r);
            lemma_told(
                two,
                after,
                repo,
                head,
                seq!["-C"@, repo, "remote"@, "set-head"@, "origin"@, "--auto"@],
                d,
            );
        }
    }
}

/// A directory is a repository where git says so; what is no directory is not asked about.
pub proof fn repositories_are_recognised<R: Fn(Vec<String>) -> Ran>(
    before: Git<R>,
    dir: &str,
    is_dir: bool,
    after: Git<R>,
    r: bool,
)
    requires
        exists|g: &mut Git<R>| #[trigger]
            call_ensures(git::is_repo::<R>, (g, dir, is_dir), r) && *g == before && *final(g)
                == after,
    ensures
        !is_dir ==> !r && after == before,
        is_dir ==> issued(before, after, seq!["-C"@, dir@, "rev-parse"@, "--git-dir"@]) && (r
            <==> exits(came_to(after), 0)),
{
    if is_dir {
        let words = seq!["rev-parse"@, "--git-dir"@];
        lemma_probed(before, after, dir@, words, r);
        assert(seq!["-C"@, dir@] + words =~= seq!["-C"@, dir@, "rev-parse"@, "--git-dir"@]);
    }
}

/// The name is listed.
pub open spec fn lists(names: Seq<String>, name: Seq<char>) -> bool {
    exists|i: int| #![trigger names[i]] 0 <= i < names.len() && names[i]@ == name
}

/// A line of the output is this text.
pub open spec fn has_line(output: Seq<char>, line: Seq<char>) -> bool {
    exists|i: int|
        #![trigger text::lines(output)[i]]
        0 <= i < text::lines(output).len() && text::lines(output)[i] == line
}

proof fn lemma_behind(
    lines: Seq<Seq<char>>,
    prefix: Seq<char>,
    except: Option<Seq<char>>,
    name: Seq<char>,
)
    ensures
        git::all_behind(lines, prefix, except).contains(name) <==> except != Some(name) && exists|
            i: int,
        |
            #![trigger lines[i]]
            0 <= i < lines.len() && lines[i] == prefix + name,
    decreases lines.len(),
{
    let all = git::all_behind(lines, prefix, except);
    if lines.len() > 0 {
        let init = lines.drop_last();
        lemma_behind(init, prefix, except, name);
        let before = git::all_behind(init, prefix, except);
        let last = lines.last();
        let at = lines.len() - 1;
        assert(lines[at] == last);
        lemma_after_prefix(last, prefix, name);
        if all.contains(name) {
            let m = choose|m: int| 0 <= m < all.len() && all[m] == name;
            if m < before.len() {
                assert(before[m] == name);
                let i = choose|i: int|
                    #![trigger init[i]]
                    0 <= i < init.len() && init[i] == prefix + name;
                assert(lines[i] == prefix + name);
            } else {
                assert(lines[at] == prefix + name);
            }
        }
        if except != Some(name) && exists|i: int|
            #![trigger lines[i]]
            0 <= i < lines.len() && lines[i] == prefix + name {
            let i = choose|i: int|
                #![trigger lines[i]]
                0 <= i < lines.len() && lines[i] == prefix + name;
            if i < init.len() {
                assert(init[i] == prefix + name);
                let m = choose|m: int| 0 <= m < before.len() && before[m] == name;
                assert(all[m] == name);
            } else {
                assert(all[before.len() as int] == name);
            }
        }
    }
}

proof fn lemma_after_prefix(s: Seq<char>, p: Seq<char>, name: Seq<char>)
    ensures
        text::after_prefix(s, p) == Some(name) <==> s == p + name,
{
    if s == p + name {
        assert(s.subrange(0, p.len() as int) =~= p);
        assert(s.skip(p.len() as int) =~= name);
    }
    if text::after_prefix(s, p) == Some(name) {
        assert(s.subrange(0, p.len() as int) == p);
        assert(s =~= s.subrange(0, p.len() as int) + s.skip(p.len() as int));
    }
}

proof fn lemma_lists(names: Seq<String>, name: Seq<char>)
    ensures
        lists(names, name) <==> text::views(names).contains(name),
{
    if lists(names, name) {
        let i = choose|i: int| #![trigger names[i]] 0 <= i < names.len() && names[i]@ == name;
        assert(text::views(names)[i] == name);
    }
    if text::views(names).contains(name) {
        let i = choose|i: int| 0 <= i < text::views(names).len() && text::views(names)[i] == name;
        assert(names[i]@ == name);
    }
}

/// The local branches are those that git has refs for, and no others.
pub proof fn local_branches_are_listed<R: Fn(Vec<String>) -> Ran>(
    before: Git<R>,
    repo: &str,
    after: Git<R>,
    r: Result<Vec<String>, String>,
    name: Seq<char>,
)
    requires
        exists|g: &mut Git<R>| #[trigger]
            call_ensures(git::list_local_branches::<R>, (g, repo), r) && *g == before && *final(g)
                == after,
    ensures
        issued(
            before,
            after,
            seq!["-C"@, repo@, "for-each-ref"@, "refs/heads"@, "--format=%(refname)"@],
        ),
        r is Ok <==> went(came_to(after)),
        r is Ok ==> (lists(r->Ok_0@, name) <==> has_line(
            out(came_to(after)),
            "refs/heads/"@ + name,
        )),
{
    let words = seq!["for-each-ref"@, "refs/heads"@, "--format=%(refname)"@];
    let fits = |a: Result<Seq<char>, Seq<char>>| git::named(a, "refs/heads/"@, None, r);
    let a = choose|a: Result<Seq<char>, Seq<char>>| #[trigger]
        git::told(before, after, repo@, words, a) && fits(a);
    lemma_told(
        before,
        after,
        repo@,
        words,
        seq!["-C"@, repo@, "for-each-ref"@, "refs/heads"@, "--format=%(refname)"@],
        a,
    );
    if r is Ok {
        lemma_lists(r->Ok_0@, name);
        lemma_behind(text::lines(a->Ok_0), "refs/heads/"@, None, name);
    }
}

/// The remote's branches are those that git has refs of origin for, without its head.
pub proof fn remote_branches_are_listed<R: Fn(Vec<String>) -> Ran>(
    before: Git<R>,
    repo: &str,
    after: Git<R>,
    r: Result<Vec<String>, String>,
    name: Seq<char>,
)
    requires
        exists|g: &mut Git<R>| #[trigger]
            call_ensures(git::list_remote_branches::<R>, (g, repo), r) && *g == before && *final(g)
                == after,
    ensures
        issued(
            before,
            after,
            seq!["-C"@, repo@, "for-each-ref"@, "refs/remotes/origin"@, "--format=%(refname)"@],
        ),
        r is Ok <==> went(came_to(after)),
        r is Ok ==> (lists(r->Ok_0@, name) <==> name != "HEAD"@ && has_line(
            out(came_to(after)),
            "refs/remotes/origin/"@ + name,
        )),
{
    let words = seq!["for-each-ref"@, "refs/remotes/origin"@, "--format=%(refname)"@];
    let fits = |a: Result<Seq<char>, Seq<char>>|
        git::named(a, "refs/remotes/origin/"@, Some("HEAD"@), r);
    let a = choose|a: Result<Seq<char>, Seq<char>>| #[trigger]
        git::told(before, after, repo@, words, a) && fits(a);
    lemma_told(
        before,
        after,
        repo@,
        words,
        seq!["-C"@, repo@, "for-each-ref"@, "refs/remotes/origin"@, "--format=%(refname)"@],
        a,
    );
    if r is Ok {
        lemma_lists(r->Ok_0@, name);
        lemma_behind(text::lines(a->Ok_0), "refs/remotes/origin/"@, Some("HEAD"@), name);
    }
}

/// New commits are those of the target that the head does not have, a line each.
pub proof fn new_commits_are_the_targets<R: Fn(Vec<String>) -> Ran>(
    before: Git<R>,
    dir: &str,
    target: &str,
    after: Git<R>,
    r: Result<Vec<String>, String>,
    i: int,
)
    requires
        exists|g: &mut Git<R>| #[trigger]
            call_ensures(git::new_commits::<R>, (g, dir, target), r) && *g == before && *final(g)
                == after,
    ensures
        issued(
            before,
            after,
            seq!["-C"@, dir@, "log"@, "--format=%h %s"@, "HEAD.."@ + target@],
        ),
        r is Ok <==> went(came_to(after)),
        r is Ok ==> r->Ok_0@.len() == text::lines(out(came_to(after))).len(),
        r is Ok && 0 <= i < r->Ok_0@.len() ==> r->Ok_0@[i]@ == text::lines(
            out(came_to(after)),
        )[i],
{
    let words = seq!["log"@, "--format=%h %s"@, "HEAD.."@ + target@];
    let fits = |a: Result<Seq<char>, Seq<char>>| git::listed(a, r);
    let a = choose|a: Result<Seq<char>, Seq<char>>| #[trigger]
        git::told(before, after, dir@, words, a) && fits(a);
    lemma_told(
        before,
        after,
        dir@,
        words,
        seq!["-C"@, dir@, "log"@, "--format=%h %s"@, "HEAD.."@ + target@],
        a,
    );
    if r is Ok {
        assert(text::views(r->Ok_0@).len() == r->Ok_0@.len());
        if 0 <= i < r->Ok_0@.len() {
            assert(text::views(r->Ok_0@)[i] == r->Ok_0@[i]@);
        }
    }
}

/// The commit that added a file is the last that git lists as adding it.
pub proof fn the_adding_commit_is_the_oldest<R: Fn(Vec<String>) -> Ran>(
    before: Git<R>,
    dir: &str,
    path: &str,
    after: Git<R>,
    r: Result<Option<String>, String>,
)
    requires
        exists|g: &mut Git<R>| #[trigger]
            call_ensures(git::commit_that_added::<R>, (g, dir, path), r) && *g == before
                && *final(g) == after,
    ensures
        issued(
            before,
            after,
            seq!["-C"@, dir@, "log"@, "--diff-filter=A"@, "--format=%H"@, "--"@, path@],
        ),
        r is Ok <==> went(came_to(after)),
        r is Ok ==> {
            let lines = text::lines(out(came_to(after)));
            &&& r->Ok_0 is Some <==> lines.len() > 0
            &&& r->Ok_0 is Some ==> r->Ok_0->0@ == text::trim(lines[lines.len() - 1])
        },
{
    let words = seq!["log"@, "--diff-filter=A"@, "--format=%H"@, "--"@, path@];
    let fits = |a: Result<Seq<char>, Seq<char>>|
        git::optional(a, |o: Seq<char>| git::last_line(o), r);
    let a = choose|a: Result<Seq<char>, Seq<char>>| #[trigger]
        git::told(before, after, dir@, words, a) && fits(a);
    lemma_told(
        before,
        after,
        dir@,
        words,
        seq!["-C"@, dir@, "log"@, "--diff-filter=A"@, "--format=%H"@, "--"@, path@],
        a,
    );
}

/// A branch is held against what was fetched of it: one that was not fetched does not
/// match, and else they match where both names come to the same commit.
pub proof fn branches_match_their_remote<R: Fn(Vec<String>) -> Ran>(
    before: Git<R>,
    dir: &str,
    branch: &str,
    after: Git<R>,
    r: Result<bool, String>,
)
    requires
        exists|g: &mut Git<R>| #[trigger]
            call_ensures(git::remote_branch_matches::<R>, (g, dir, branch), r) && *g == before
                && *final(g) == after,
    ensures
        exists|one: Git<R>|
            #![trigger came_to(one)]
            {
                &&& issued(before, one, seq!["-C"@, dir@, "rev-parse"@, branch@])
                &&& !went(came_to(one)) ==> r is Err && after == one
                &&& went(came_to(one)) ==> exists|two: Git<R>|
                    #![trigger came_to(two)]
                    {
                        &&& issued(
                            one,
                            two,
                            seq!["-C"@, dir@, "rev-parse"@, "--verify"@, "origin/"@ + branch@],
                        )
                        &&& !exits(came_to(two), 0) ==> r == Ok::<bool, String>(false) && after
                            == two
                        &&& exits(came_to(two), 0) ==> {
                            &&& issued(
                                two,
                                after,
                                seq!["-C"@, dir@, "rev-parse"@, "origin/"@ + branch@],
                            )
                            &&& r is Ok <==> went(came_to(after))
                            &&& r is Ok ==> (r->Ok_0 <==> text::trim(out(came_to(after)))
                                == text::trim(out(came_to(one))))
                        }
                    }
            },
{
    let words = seq!["rev-parse"@, branch@];
    let remote = "origin/"@ + branch@;
    let (one, local) = choose|one: Git<R>, local: Result<Seq<char>, Seq<char>>| #[trigger]
        git::told(before, one, dir@, words, local) && match local {
            Err(e) => r is Err && r->Err_0@ == e && after == one,
            Ok(tip) => git::matches_tip(one, after, dir@, remote, tip, r),
        };
    lemma_told(before, one, dir@, words, seq!["-C"@, dir@, "rev-parse"@, branch@], local);
    assert(came_to(one) == came_to(one));
    if local is Ok {
        let tip = local->Ok_0;
        let verify = seq!["rev-parse"@, "--verify"@, remote];
        let full = seq!["-C"@, dir@, "rev-parse"@, "--verify"@, remote];
        assert(seq!["-C"@, dir@] + verify =~= full);
        if git::probed(one, after, dir@, verify, false) && r == Ok::<bool, String>(false) {
            lemma_probed(one, after, dir@, verify, false);
            assert(!exits(came_to(after), 0));
        } else {
            let holds = |o: Seq<char>| text::trim(o) == text::trim(tip);
            let second = seq!["rev-parse"@, remote];
            let two = choose|two: Git<R>| #[trigger]
                git::probed(one, two, dir@, verify, true) && git::found(
                    two,
                    after,
                    dir@,
                    second,
                    holds,
                    r,
                );
            lemma_probed(one, two, dir@, verify, true);
            assert(exits(came_to(two), 0));
            let b = choose|b: Result<Seq<char>, Seq<char>>| #[trigger]
                git::told(two, after, dir@, second, b) && git::judged(b, holds, r);
            lemma_told(
                two,
                after,
                dir@,
                second,
                seq!["-C"@, dir@, "rev-parse"@, "origin/"@ + branch@],
                b,
            );
        }
    }
}

/// The block of a worktree list is the branch's, and says where it is.
pub open spec fn places(block: Seq<char>, branch: Seq<char>, path: Seq<char>) -> bool {
    has_line(block, "branch refs/heads/"@ + branch) && exists|j: int|
        #![trigger text::lines(block)[j]]
        0 <= j < text::lines(block).len() && text::lines(block)[j] == "worktree "@ + path && (
        forall|k: int|
            0 <= k < j ==> !text::starts_with(#[trigger] text::lines(block)[k], "worktree "@))
}

proof fn lemma_first_behind(lines: Seq<Seq<char>>, p: Seq<char>)
    ensures
        git::first_behind(lines, p) is None <==> forall|i: int|
            #![trigger lines[i]]
            0 <= i < lines.len() ==> !text::starts_with(lines[i], p),
        git::first_behind(lines, p) is Some ==> exists|j: int|
            #![trigger lines[j]]
            0 <= j < lines.len() && lines[j] == p + git::first_behind(lines, p)->0 && (forall|
                k: int,
            |
                0 <= k < j ==> !text::starts_with(#[trigger] lines[k], p)),
    decreases lines.len(),
{
    if lines.len() > 0 {
        if text::starts_with(lines[0], p) {
            lemma_after_prefix(lines[0], p, git::first_behind(lines, p)->0);
        } else {
            let rest = lines.skip(1);
            lemma_first_behind(rest, p);
            if git::first_behind(lines, p) is Some {
                let j = choose|j: int|
                    #![trigger rest[j]]
                    0 <= j < rest.len() && rest[j] == p + git::first_behind(rest, p)->0 && (forall|
                        k: int,
                    |
                        0 <= k < j ==> !text::starts_with(#[trigger] rest[k], p));
                assert(lines[j + 1] == rest[j]);
                assert forall|k: int| 0 <= k < j + 1 implies !text::starts_with(
                    #[trigger] lines[k],
                    p,
                ) by {
                    if k > 0 {
                        assert(rest[k - 1] == lines[k]);
                    }
                }
            } else {
                assert forall|i: int|
                    #![trigger lines[i]]
                    0 <= i < lines.len() implies !text::starts_with(lines[i], p) by {
                    if i > 0 {
                        assert(rest[i - 1] == lines[i]);
                    }
                }
            }
            if forall|i: int|
                #![trigger lines[i]]
                0 <= i < lines.len() ==> !text::starts_with(lines[i], p) {
                assert forall|i: int|
                    #![trigger rest[i]]
                    0 <= i < rest.len() implies !text::starts_with(rest[i], p) by {
                    assert(lines[i + 1] == rest[i]);
                }
            }
        }
    }
}

proof fn lemma_places(block: Seq<char>, branch: Seq<char>, path: Seq<char>)
    ensures
        places(block, branch, path) <==> git::block_worktree(
            block,
            "branch refs/heads/"@ + branch,
        ) == Some(path),
{
    let lines = text::lines(block);
    let want = "branch refs/heads/"@ + branch;
    let p = "worktree "@;
    lemma_first_behind(lines, p);
    if lines.contains(want) {
        let i = choose|i: int| 0 <= i < lines.len() && lines[i] == want;
        assert(has_line(block, want));
    }
    if has_line(block, want) {
        let i = choose|i: int| #![trigger lines[i]] 0 <= i < lines.len() && lines[i] == want;
        assert(lines.contains(want));
    }
    if places(block, branch, path) {
        let j = choose|j: int|
            #![trigger lines[j]]
            0 <= j < lines.len() && lines[j] == p + path && (forall|k: int|
                0 <= k < j ==> !text::starts_with(#[trigger] lines[k], p));
        crate::laws::texts::lemma_within(Seq::empty(), p, path);
        assert(text::starts_with(lines[j], p));
        let found = git::first_behind(lines, p)->0;
        let m = choose|m: int|
            #![trigger lines[m]]
            0 <= m < lines.len() && lines[m] == p + found && (forall|k: int|
                0 <= k < m ==> !text::starts_with(#[trigger] lines[k], p));
        crate::laws::texts::lemma_within(Seq::empty(), p, found);
        assert(text::starts_with(lines[m], p));
        assert(m == j);
        assert((p + path).skip(p.len() as int) =~= path);
        assert((p + found).skip(p.len() as int) =~= found);
    }
}

/// A worktree list is read block by block: the first block that names the branch and
/// says where it is gives the place.
pub proof fn worktrees_are_read_block_by_block(
    output: &str,
    branch: &str,
    r: Option<String>,
    i: int,
    rest: &str,
    later: Option<String>,
    path: Seq<char>,
)
    requires
        call_ensures(git::parse_worktree_list, (output, branch), r),
        text::is_first(output@, "\n\n"@, i),
        rest@ == output@.skip(i + 2),
        call_ensures(git::parse_worktree_list, (rest, branch), later),
    ensures
        places(output@.take(i), branch@, path) ==> r is Some && r->0@ == path,
        (forall|p: Seq<char>| !#[trigger] places(output@.take(i), branch@, p)) ==> (r is Some
            <==> later is Some) && (r is Some ==> r->0@ == later->0@),
{
    reveal_strlit("\n\n");
    text::lemma_find(output@, "\n\n"@, i);
    let want = "branch refs/heads/"@ + branch@;
    let block = output@.take(i);
    let more = git::blocks(rest@);
    assert(git::blocks(output@) == seq![block] + more);
    assert((seq![block] + more)[0] == block);
    assert((seq![block] + more).skip(1) =~= more);
    lemma_places(block, branch@, path);
    if forall|p: Seq<char>| !#[trigger] places(block, branch@, p) {
        if git::block_worktree(block, want) is Some {
            let p = git::block_worktree(block, want)->0;
            lemma_places(block, branch@, p);
            assert(places(block, branch@, p));
        }
    }
}

/// The last block of a worktree list is all there is of it.
pub proof fn the_last_worktree_is_read(output: &str, branch: &str, r: Option<String>, path: Seq<char>)
    requires
        call_ensures(git::parse_worktree_list, (output, branch), r),
        !text::contains(output@, "\n\n"@),
    ensures
        places(output@, branch@, path) <==> r is Some && r->0@ == path,
{
    let want = "branch refs/heads/"@ + branch@;
    lemma_places(output@, branch@, path);
    let all = git::blocks(output@);
    assert(all == seq![output@]);
    assert(all.skip(1) =~= seq![]);
    assert(git::first_worktree(all.skip(1), want) is None);
}

/// Where a branch is checked out is read from git's list of worktrees.
pub proof fn checkouts_are_looked_up<R: Fn(Vec<String>) -> Ran>(
    before: Git<R>,
    repo: &str,
    branch: &str,
    after: Git<R>,
    r: Result<Option<String>, String>,
    output: &str,
    listed: Option<String>,
)
    requires
        exists|g: &mut Git<R>| #[trigger]
            call_ensures(git::branch_worktree::<R>, (g, repo, branch), r) && *g == before
                && *final(g) == after,
        went(came_to(after)) ==> output@ == out(came_to(after)),
        call_ensures(git::parse_worktree_list, (output, branch), listed),
    ensures
        issued(before, after, seq!["-C"@, repo@, "worktree"@, "list"@, "--porcelain"@]),
        r is Ok <==> went(came_to(after)),
        r is Ok ==> (r->Ok_0 is Some <==> listed is Some),
        r is Ok && r->Ok_0 is Some ==> r->Ok_0->0@ == listed->0@,
{
    let words = seq!["worktree"@, "list"@, "--porcelain"@];
    let fits = |a: Result<Seq<char>, Seq<char>>|
        git::optional(a, |o: Seq<char>| git::worktree_of(o, branch@), r);
    let a = choose|a: Result<Seq<char>, Seq<char>>| #[trigger]
        git::told(before, after, repo@, words, a) && fits(a);
    lemma_told(
        before,
        after,
        repo@,
        words,
        seq!["-C"@, repo@, "worktree"@, "list"@, "--porcelain"@],
        a,
    );
}

/// A file of git's own directory lies where git says, below the directory it was asked
/// in, unless what it says is absolute.
pub proof fn git_files_are_found<R: Fn(Vec<String>) -> Ran>(
    before: Git<R>,
    cwd: &str,
    dir: &str,
    relative: &str,
    after: Git<R>,
    r: Result<String, String>,
)
    requires
        exists|g: &mut Git<R>| #[trigger]
            call_ensures(git::git_path::<R>, (g, cwd, dir, relative), r) && *g == before
                && *final(g) == after,
    ensures
        issued(before, after, seq!["-C"@, dir@, "rev-parse"@, "--git-path"@, relative@]),
        r is Ok <==> went(came_to(after)),
        r is Ok && text::starts_with(text::trim(out(came_to(after))), "/"@) ==> r->Ok_0@
            == text::trim(out(came_to(after))),
        r is Ok && !text::starts_with(text::trim(out(came_to(after))), "/"@) ==> text::ends_with(
            r->Ok_0@,
            text::trim(out(came_to(after))),
        ),
{
    let words = seq!["rev-parse"@, "--git-path"@, relative@];
    let fits = |a: Result<Seq<char>, Seq<char>>| git::seen(r) == git::placed(cwd@, dir@, a);
    let a = choose|a: Result<Seq<char>, Seq<char>>| #[trigger]
        git::told(before, after, dir@, words, a) && fits(a);
    lemma_told(
        before,
        after,
        dir@,
        words,
        seq!["-C"@, dir@, "rev-parse"@, "--git-path"@, relative@],
        a,
    );
    if r is Ok {
        let t = text::trim(out(came_to(after)));
        lemma_below(text::below(cwd@, dir@), t);
    }
}

/// A path below another: itself where it is absolute, else behind the other.
pub proof fn lemma_below(base: Seq<char>, t: Seq<char>)
    ensures
        text::starts_with(t, "/"@) ==> text::below(base, t) == t,
        text::ends_with(text::below(base, t), t),
{
    reveal_strlit("/");
    assert(t.subrange(0, t.len() as int) =~= t);
    if t.len() > 0 {
        assert(text::starts_with(t, "/"@) <==> t[0] == '/') by {
            if text::starts_with(t, "/"@) {
                assert(t.subrange(0, 1)[0] == '/');
            }
            if t[0] == '/' {
                assert(t.subrange(0, 1) =~= "/"@);
            }
        }
    }
    let b = text::below(base, t);
    assert(b.subrange(b.len() - t.len(), b.len() as int) =~= t);
}

} // verus!
