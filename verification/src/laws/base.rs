//! How a PR's branch is held against its base.

use vstd::prelude::*;

use crate::git::{self, Git, Ran};
use crate::implement::{self, BaseBanner, BaseSync};
use crate::laws::bodies::{lead, lemma_listed, weighed};
use crate::laws::commands::{
    came_to, collides, exits, issued, lemma_answered, lemma_did, lemma_merged, lemma_probed,
    lemma_tried, merged_on_trial, nth, out, spells, trial, went,
};
use crate::laws::repositories::lemma_told;
use crate::state::PrepState;
use crate::text;

verus! {

/// From the `n`th command on, the branch checked out at `dir` was held against its base:
/// everything is fetched first, the base is the remote's default branch, the branch is
/// up to date where it contains that, and in conflict where a trial merge of it is.
pub open spec fn compared<R: Fn(Vec<String>) -> Ran>(
    after: Git<R>,
    n: int,
    dir: Seq<char>,
    r: Result<(Seq<char>, BaseSync), ()>,
) -> bool {
    &&& n < after.calls().len() <= n + 6
    &&& spells(nth(after, n).0, seq!["-C"@, dir, "fetch"@, "--prune"@, "origin"@])
    &&& !went(nth(after, n).1) ==> r is Err && after.calls().len() == n + 1
    &&& went(nth(after, n).1) ==> {
        let named = text::trim(out(nth(after, n + 1).1));
        &&& n + 1 < after.calls().len()
        &&& spells(
            nth(after, n + 1).0,
            seq!["-C"@, dir, "rev-parse"@, "--abbrev-ref"@, "origin/HEAD"@],
        )
        &&& !(went(nth(after, n + 1).1) && text::starts_with(named, "origin/"@)) ==> r is Err
            && after.calls().len() == n + 2
        &&& went(nth(after, n + 1).1) && text::starts_with(named, "origin/"@) ==> {
            &&& n + 2 < after.calls().len()
            &&& spells(
                nth(after, n + 2).0,
                seq!["-C"@, dir, "merge-base"@, "--is-ancestor"@, named, "HEAD"@],
            )
            &&& r is Ok ==> "origin/"@ + r->Ok_0.0 == named
            &&& exits(nth(after, n + 2).1, 0) ==> r is Ok && r->Ok_0.1 == BaseSync::UpToDate
                && after.calls().len() == n + 3
            &&& !exits(nth(after, n + 2).1, 0) ==> {
                &&& n + 3 < after.calls().len()
                &&& r is Ok ==> {
                    &&& after.calls().len() == n + 6
                    &&& spells(nth(after, n + 5).0, trial(dir, named))
                }
                &&& r is Ok && r->Ok_0.1 == BaseSync::Conflict <==> after.calls().len() == n + 6
                    && collides(nth(after, n + 5).1)
                &&& r is Ok && r->Ok_0.1 == BaseSync::BehindClean <==> after.calls().len() == n + 6
                    && exits(nth(after, n + 5).1, 0)
                &&& r is Ok ==> r->Ok_0.1 != BaseSync::UpToDate
            }
        }
    }
}

/// What a check says, without the message of a failure.
pub open spec fn plain(r: Result<(String, BaseSync), String>) -> Result<(Seq<char>, BaseSync), ()> {
    match r {
        Ok((base, sync)) => Ok((base@, sync)),
        Err(_) => Err(()),
    }
}

pub proof fn lemma_synced<R: Fn(Vec<String>) -> Ran>(
    before: Git<R>,
    after: Git<R>,
    dir: Seq<char>,
    r: Result<(String, BaseSync), String>,
)
    requires
        implement::is_synced(before, after, dir, r),
    ensures
        before.calls().is_prefix_of(after.calls()),
        after.function() == before.function(),
        compared(after, before.calls().len() as int, dir, plain(r)),
{
    let n = before.calls().len() as int;
    let (one, f) = choose|mid: Git<R>, f: Result<(), String>| #[trigger]
        git::fetched(before, mid, dir, f) && match f {
            Err(e) => after == mid && r == Err::<(String, BaseSync), String>(e),
            Ok(_) => implement::is_compared(mid, after, dir, r),
        };
    let fetch = seq!["fetch"@, "--prune"@, "origin"@];
    lemma_did(before, one, dir, fetch, f);
    assert(seq!["-C"@, dir] + fetch =~= seq!["-C"@, dir, "fetch"@, "--prune"@, "origin"@]);
    assert(one.calls() =~= before.calls().push(one.calls().last()));
    if f is Ok {
        let (two, d) = choose|mid: Git<R>, d: Result<Seq<char>, Seq<char>>| #[trigger]
            git::default_named(one, mid, dir, d) && match d {
                Err(e) => after == mid && r is Err && r->Err_0@ == e,
                Ok(base) => implement::classified(mid, after, dir, base, r),
            };
        let head = seq!["rev-parse"@, "--abbrev-ref"@, "origin/HEAD"@];
        let a = lemma_answered(
            one,
            two,
            dir,
            head,
            |a: Result<Seq<char>, Seq<char>>| d == git::default_of(a),
        );
        assert(seq!["-C"@, dir] + head =~= seq![
            "-C"@,
            dir,
            "rev-parse"@,
            "--abbrev-ref"@,
            "origin/HEAD"@,
        ]);
        assert(two.calls() =~= one.calls().push(two.calls().last()));
        if d is Ok {
            let base = d->Ok_0;
            let named = text::trim(out(came_to(two)));
            let p = "origin/"@;
            assert(named.subrange(0, p.len() as int) == p);
            assert(named =~= named.subrange(0, p.len() as int) + named.skip(p.len() as int));
            assert(named == implement::remote_name(base));
            let (three, contains) = choose|mid: Git<R>, contains: bool| #[trigger]
                implement::base_contained(two, mid, dir, base, contains) && if contains {
                    after == mid && implement::is_at(base, BaseSync::UpToDate, r)
                } else {
                    exists|c: Result<bool, String>| #[trigger]
                        git::tried(mid, after, dir, implement::remote_name(base), c) && match c {
                            Ok(conflicts) => implement::is_at(
                                base,
                                implement::standing(false, conflicts),
                                r,
                            ),
                            Err(e) => r == Err::<(String, BaseSync), String>(e),
                        }
                };
            let held = seq!["merge-base"@, "--is-ancestor"@, named, "HEAD"@];
            lemma_probed(two, three, dir, held, contains);
            assert(seq!["-C"@, dir] + held =~= seq![
                "-C"@,
                dir,
                "merge-base"@,
                "--is-ancestor"@,
                named,
                "HEAD"@,
            ]);
            assert(three.calls() =~= two.calls().push(three.calls().last()));
            if !contains {
                let c = choose|c: Result<bool, String>| #[trigger]
                    git::tried(three, after, dir, implement::remote_name(base), c) && match c {
                        Ok(conflicts) => implement::is_at(
                            base,
                            implement::standing(false, conflicts),
                            r,
                        ),
                        Err(e) => r == Err::<(String, BaseSync), String>(e),
                    };
                lemma_tried(three, after, dir, named, c);
                assert(merged_on_trial(after, n + 3, dir, named, c));
                assert(after.calls().len() >= n + 4);
                assert(nth(after, n + 2) == nth(three, n + 2));
                assert(nth(after, n + 1) == nth(three, n + 1));
                assert(nth(after, n) == nth(three, n));
                assert(before.calls().is_prefix_of(after.calls()));
            }
        }
    }
}

/// A branch is held against its base by what the commands say, the base freshly
/// fetched.
pub proof fn a_branch_is_held_against_the_fetched_base<R: Fn(Vec<String>) -> Ran>(
    before: Git<R>,
    worktree: &str,
    after: Git<R>,
    r: Result<(String, BaseSync), String>,
)
    requires
        exists|g: &mut Git<R>| #[trigger]
            call_ensures(implement::base_sync::<R>, (g, worktree), r) && *g == before && *final(g)
                == after,
    ensures
        before.calls().is_prefix_of(after.calls()),
        compared(after, before.calls().len() as int, worktree@, plain(r)),
{
    lemma_synced(before, after, worktree@, r);
}

/// There is a branch to check: the issue is worked on a branch, with a PR and a
/// worktree that is there.
pub open spec fn has_branch(prep: PrepState, on_disk: bool) -> bool {
    !prep.no_branch && prep.pr_number is Some && prep.worktree_path is Some && on_disk
}

/// What is checked is the recorded worktree; where there is none, nothing is run.
pub proof fn only_an_open_pr_is_checked<R: Fn(Vec<String>) -> Ran>(
    before: Git<R>,
    prep: &PrepState,
    on_disk: bool,
    after: Git<R>,
    r: Result<Option<(String, BaseSync)>, String>,
)
    requires
        exists|g: &mut Git<R>| #[trigger]
            call_ensures(implement::check_base::<R>, (g, prep, on_disk), r) && *g == before
                && *final(g) == after,
    ensures
        !has_branch(*prep, on_disk) ==> r is Ok && r->Ok_0 is None && after == before,
        has_branch(*prep, on_disk) ==> before.calls().is_prefix_of(after.calls()) && compared(
            after,
            before.calls().len() as int,
            prep.worktree_path->0@,
            match r {
                Ok(Some((base, sync))) => Ok((base@, sync)),
                _ => Err(()),
            },
        ) && (r is Ok ==> r->Ok_0 is Some),
{
    if has_branch(*prep, on_disk) {
        let s = choose|s: Result<(String, BaseSync), String>| #[trigger]
            implement::is_synced(before, after, prep.worktree_path->0@, s) && match s {
                Ok(found) => r == Ok::<Option<(String, BaseSync)>, String>(Some(found)),
                Err(e) => r is Err && r->Err_0@ == implement::UNCHECKED@ + e@,
            };
        lemma_synced(before, after, prep.worktree_path->0@, s);
    }
}

/// A conflict is reported exactly where the last command, a trial merge of the remote's
/// default branch into HEAD, found one; it blocks what follows.
pub proof fn conflicts_are_reported<R: Fn(Vec<String>) -> Ran>(
    before: Git<R>,
    prep: &PrepState,
    on_disk: bool,
    after: Git<R>,
    r: Option<String>,
)
    requires
        exists|g: &mut Git<R>| #[trigger]
            call_ensures(implement::detect_conflict::<R>, (g, prep, on_disk), r) && *g == before
                && *final(g) == after,
    ensures
        !has_branch(*prep, on_disk) ==> r is None && after == before,
        has_branch(*prep, on_disk) ==> {
            let n = before.calls().len() as int;
            let dir = prep.worktree_path->0@;
            &&& exists|c: Result<(Seq<char>, BaseSync), ()>| #[trigger]
                compared(after, n, dir, c) && (match r {
                    Some(base) => c == Ok::<(Seq<char>, BaseSync), ()>((base@, BaseSync::Conflict)),
                    None => c is Ok ==> c->Ok_0.1 != BaseSync::Conflict,
                })
            &&& r is Some ==> after.calls().len() == n + 6 && spells(
                after.calls().last().0,
                seq!["-C"@, dir, "merge-tree"@, "--write-tree"@, "HEAD"@, "origin/"@ + r->0@],
            ) && collides(came_to(after))
            &&& after.calls().len() == n + 6 && collides(came_to(after)) ==> r is Some
        },
{
    if has_branch(*prep, on_disk) {
        let s = choose|s: Result<(String, BaseSync), String>| #[trigger]
            implement::is_synced(before, after, prep.worktree_path->0@, s) && r
                == implement::conflict_in(s);
        lemma_synced(before, after, prep.worktree_path->0@, s);
        assert(compared(
            after,
            before.calls().len() as int,
            prep.worktree_path->0@,
            plain(s),
        ));
    }
}

/// The banner is led by a conflict where there is one, whether or not merging is on.
/// A branch that is behind is merged up and pushed only where that is on: first the
/// merge of the base into the worktree, then, once that went, the push of the branch;
/// otherwise nothing is merged or pushed.
pub proof fn the_banner_says_how_the_base_stands<R: Fn(Vec<String>) -> Ran>(
    before: Git<R>,
    prep: &PrepState,
    on_disk: bool,
    number: u64,
    auto_merge: bool,
    after: Git<R>,
    r: Result<Option<BaseBanner>, String>,
) -> (m: (Git<R>, Result<(Seq<char>, BaseSync), ()>))
    requires
        exists|g: &mut Git<R>| #[trigger]
            call_ensures(
                implement::base_banner::<R>,
                (g, prep, on_disk, number, auto_merge),
                r,
            ) && *g == before && *final(g) == after,
    ensures
        !has_branch(*prep, on_disk) ==> r is Ok && r->Ok_0 is None && after == before,
        has_branch(*prep, on_disk) ==> {
            let n = before.calls().len() as int;
            let dir = prep.worktree_path->0@;
            &&& compared(m.0, n, dir, m.1)
            &&& m.0.calls().is_prefix_of(after.calls())
            &&& m.1 is Err ==> r is Err && after == m.0
            &&& m.1 is Ok && m.1->Ok_0.1 == BaseSync::UpToDate ==> r is Ok && r->Ok_0 is None
                && after == m.0
            &&& r is Ok && r->Ok_0 is Some && r->Ok_0->0 is Conflict <==> m.1 is Ok && m.1->Ok_0.1
                == BaseSync::Conflict
            &&& m.1 is Ok && m.1->Ok_0.1 == BaseSync::Conflict ==> after == m.0
            &&& m.1 is Ok && m.1->Ok_0.1 == BaseSync::BehindClean && !auto_merge ==> r is Ok
                && r->Ok_0 is None && after == m.0
            &&& r is Ok && r->Ok_0 is Some && r->Ok_0->0 is Merged ==> {
                let k = m.0.calls().len() as int;
                &&& auto_merge && m.1 is Ok && m.1->Ok_0.1 == BaseSync::BehindClean
                &&& prep.branch is Some
                &&& after.calls().len() == k + 2
                &&& spells(
                    nth(after, k).0,
                    seq!["-C"@, dir, "merge"@, "--no-edit"@, "origin/"@ + m.1->Ok_0.0],
                )
                &&& went(nth(after, k).1)
                &&& spells(
                    nth(after, k + 1).0,
                    seq!["-C"@, dir, "push"@, "-u"@, "origin"@, prep.branch->0@],
                )
                &&& went(nth(after, k + 1).1)
            }
            &&& m.1 is Ok && m.1->Ok_0.1 == BaseSync::BehindClean && auto_merge ==> r is Err || (
            r->Ok_0 is Some && r->Ok_0->0 is Merged)
        },
{
    if has_branch(*prep, on_disk) {
        let dir = prep.worktree_path->0@;
        let (mid, s) = choose|mid: Git<R>, s: Result<(String, BaseSync), String>| #[trigger]
            implement::is_synced(before, mid, dir, s) && implement::is_banner(
                mid,
                after,
                *prep,
                number,
                auto_merge,
                s,
                r,
            );
        lemma_synced(before, mid, dir, s);
        if s is Ok && s->Ok_0.1 == BaseSync::BehindClean && auto_merge {
            let base = s->Ok_0.0;
            let m = choose|m: Result<(), String>| #[trigger]
                implement::merged_in(mid, after, *prep, base@, m) && match m {
                    Ok(_) => r is Ok && r->Ok_0 is Some && r->Ok_0->0 is Merged
                        && r->Ok_0->0.told() == implement::MERGED_INTRO@ + base@ + text::fill(
                        implement::MERGED_TASK@,
                        text::decimal(number as nat),
                    ),
                    Err(e) => r is Err && r->Err_0@ == "auto-merge of `origin/"@ + base@
                        + "` failed: "@ + e@,
                };
            lemma_merged_in(mid, after, *prep, base@, m);
        }
        (mid, plain(s))
    } else {
        (before, Err(()))
    }
}

proof fn lemma_merged_in<R: Fn(Vec<String>) -> Ran>(
    before: Git<R>,
    after: Git<R>,
    prep: PrepState,
    base: Seq<char>,
    m: Result<(), String>,
)
    requires
        implement::merged_in(before, after, prep, base, m),
        prep.worktree_path is Some,
    ensures
        before.calls().is_prefix_of(after.calls()),
        m is Ok ==> {
            let dir = prep.worktree_path->0@;
            let k = before.calls().len() as int;
            &&& prep.branch is Some
            &&& after.calls().len() == k + 2
            &&& spells(
                nth(after, k).0,
                seq!["-C"@, dir, "merge"@, "--no-edit"@, "origin/"@ + base],
            )
            &&& went(nth(after, k).1)
            &&& spells(
                nth(after, k + 1).0,
                seq!["-C"@, dir, "push"@, "-u"@, "origin"@, prep.branch->0@],
            )
            &&& went(nth(after, k + 1).1)
        },
{
    if prep.branch is Some {
        let dir = prep.worktree_path->0@;
        let push = seq!["push"@, "-u"@, "origin"@, prep.branch->0@];
        let (mid, g) = choose|mid: Git<R>, g: Result<(), String>| #[trigger]
            git::merged(before, mid, dir, implement::remote_name(base), g) && match g {
                Err(e) => after == mid && m == Err::<(), String>(e),
                Ok(_) => git::did(mid, after, dir, push, m),
            };
        lemma_merged(before, mid, dir, implement::remote_name(base), g);
        if g is Ok {
            lemma_did(mid, after, dir, push, m);
            assert(seq!["-C"@, dir] + push =~= seq![
                "-C"@,
                dir,
                "push"@,
                "-u"@,
                "origin"@,
                prep.branch->0@,
            ]);
            assert(after.calls() =~= mid.calls().push(after.calls().last()));
        }
    }
}

/// A banner's text is what it was made with, and only a conflict is one.
pub proof fn banners_are_told_apart(b: &BaseBanner, text: &str, conflict: bool)
    requires
        call_ensures(BaseBanner::text, (b,), text),
        call_ensures(BaseBanner::is_conflict, (b,), conflict),
    ensures
        *b matches BaseBanner::Conflict(t) ==> text@ == t@ && conflict,
        *b matches BaseBanner::Merged(t) ==> text@ == t@ && !conflict,
        *b matches BaseBanner::Moved(t) ==> text@ == t@ && !conflict,
{
}

/// A conflict's notice names the base and the command to run once it is resolved, and a
/// merge's names the base and the issue.
pub proof fn notices_name_the_base(base: &str, number: u64, conflict: String, merged: String)
    requires
        call_ensures(implement::conflict_notice, (base, number), conflict),
        call_ensures(implement::base_merged_notice, (base, number), merged),
    ensures
        text::starts_with(
            conflict@,
            "Merge conflict: the PR's branch conflicts with `origin/"@ + base@,
        ),
        text::starts_with(merged@, "ghwf merged `origin/"@ + base@),
{
    let a = implement::CONFLICT_INTRO@ + base@;
    assert(conflict@.subrange(0, a.len() as int) =~= a);
    let b = implement::MERGED_INTRO@ + base@;
    assert(merged@.subrange(0, b.len() as int) =~= b);
}

proof fn lemma_new_listed<R: Fn(Vec<String>) -> Ran>(
    before: Git<R>,
    after: Git<R>,
    dir: Seq<char>,
    target: Seq<char>,
    c: Result<Vec<String>, String>,
)
    requires
        git::new_listed(before, after, dir, target, c),
    ensures
        issued(before, after, seq!["-C"@, dir, "log"@, "--format=%h %s"@, "HEAD.."@ + target]),
        c is Ok <==> went(came_to(after)),
        c is Ok ==> text::views(c->Ok_0@) == text::lines(out(came_to(after))),
{
    let words = seq!["log"@, "--format=%h %s"@, "HEAD.."@ + target];
    let fits = |a: Result<Seq<char>, Seq<char>>| git::listed(a, c);
    let a = choose|a: Result<Seq<char>, Seq<char>>| #[trigger]
        git::told(before, after, dir, words, a) && fits(a);
    lemma_told(
        before,
        after,
        dir,
        words,
        seq!["-C"@, dir, "log"@, "--format=%h %s"@, "HEAD.."@ + target],
        a,
    );
}

/// A heading leads with a conflict where there is one. Where the base has moved on, the
/// commits that HEAD has not are listed: the notice of them is the heading, or they are
/// named behind the notice of the merge, once that and the push went.
pub proof fn the_heading_lists_what_is_new<R: Fn(Vec<String>) -> Ran>(
    before: Git<R>,
    prep: &PrepState,
    on_disk: bool,
    number: u64,
    auto_merge: bool,
    after: Git<R>,
    r: Result<Option<BaseBanner>, String>,
    base: &str,
    commits: &Vec<String>,
    notice: String,
    merged: String,
) -> (m: (Git<R>, Result<(Seq<char>, BaseSync), ()>, Git<R>))
    requires
        exists|g: &mut Git<R>| #[trigger]
            call_ensures(
                implement::base_heading::<R>,
                (g, prep, on_disk, number, auto_merge),
                r,
            ) && *g == before && *final(g) == after,
        call_ensures(implement::base_moved_notice, (base, number, commits), notice),
        call_ensures(implement::base_merged_notice, (base, number), merged),
    ensures
        !has_branch(*prep, on_disk) ==> r is Ok && r->Ok_0 is None && after == before,
        has_branch(*prep, on_disk) ==> {
            let dir = prep.worktree_path->0@;
            let behind = m.1 is Ok && m.1->Ok_0.1 == BaseSync::BehindClean;
            &&& compared(m.0, before.calls().len() as int, dir, m.1)
            &&& m.0.calls().is_prefix_of(after.calls())
            &&& m.1 is Err ==> r is Err && after == m.0
            &&& m.1 is Ok && m.1->Ok_0.1 == BaseSync::UpToDate ==> r is Ok && r->Ok_0 is None
                && after == m.0
            &&& r is Ok && r->Ok_0 is Some && r->Ok_0->0 is Conflict <==> m.1 is Ok && m.1->Ok_0.1
                == BaseSync::Conflict
            &&& m.1 is Ok && m.1->Ok_0.1 == BaseSync::Conflict ==> after == m.0
            &&& behind ==> issued(
                m.0,
                m.2,
                seq![
                    "-C"@,
                    dir,
                    "log"@,
                    "--format=%h %s"@,
                    "HEAD.."@ + ("origin/"@ + m.1->Ok_0.0),
                ],
            )
            &&& behind && !auto_merge ==> after == m.2 && (r is Ok <==> went(came_to(m.2)))
            &&& behind && !auto_merge && r is Ok ==> r->Ok_0 is Some && r->Ok_0->0 is Moved
            &&& behind && !auto_merge && r is Ok && base@ == m.1->Ok_0.0 && text::views(commits@)
                == text::lines(out(came_to(m.2))) ==> r->Ok_0->0->Moved_0@ == notice@
            &&& behind && auto_merge && r is Ok ==> r->Ok_0 is Some && r->Ok_0->0 is Merged
            &&& r is Ok && r->Ok_0 is Some && r->Ok_0->0 is Merged ==> {
                let k = m.2.calls().len() as int;
                &&& auto_merge && behind
                &&& prep.branch is Some
                &&& after.calls().len() == k + 2
                &&& spells(
                    nth(after, k).0,
                    seq!["-C"@, dir, "merge"@, "--no-edit"@, "origin/"@ + m.1->Ok_0.0],
                )
                &&& went(nth(after, k).1)
                &&& spells(
                    nth(after, k + 1).0,
                    seq!["-C"@, dir, "push"@, "-u"@, "origin"@, prep.branch->0@],
                )
                &&& went(nth(after, k + 1).1)
                &&& base@ == m.1->Ok_0.0 && !went(came_to(m.2)) ==> r->Ok_0->0->Merged_0@ == merged@
                &&& base@ == m.1->Ok_0.0 && went(came_to(m.2)) && text::views(commits@)
                    == text::lines(out(came_to(m.2))) ==> exists|list: Seq<char>|
                    #![trigger list.len()]
                    notice@ == lead(base@, number as nat) + list + weighed()
                        && r->Ok_0->0->Merged_0@ == merged@ + ("\n\nThe commits it brought in:\n"@
                        + list)
            }
        },
{
    if has_branch(*prep, on_disk) {
        let dir = prep.worktree_path->0@;
        let (mid, s) = choose|mid: Git<R>, s: Result<(String, BaseSync), String>| #[trigger]
            implement::is_synced(before, mid, dir, s) && implement::is_lead(
                mid,
                after,
                *prep,
                number,
                auto_merge,
                s,
                r,
            );
        lemma_synced(before, mid, dir, s);
        if s is Ok && s->Ok_0.1 == BaseSync::BehindClean {
            let found = (s->Ok_0).0@;
            let (next, c) = choose|next: Git<R>, c: Result<Vec<String>, String>| #[trigger]
                git::new_listed(mid, next, dir, implement::remote_name(found), c)
                    && if auto_merge {
                    implement::is_merge(next, after, *prep, number, found, c, r)
                } else {
                    after == next && match c {
                        Ok(commits) => r is Ok && r->Ok_0 is Some && r->Ok_0->0 is Moved
                            && r->Ok_0->0.told() == implement::moved_text(
                            found,
                            number as nat,
                            text::views(commits@),
                        ),
                        Err(e) => r is Err && r->Err_0@ == implement::UNLISTED@ + found + "`: "@
                            + e@,
                    }
                };
            lemma_new_listed(mid, next, dir, implement::remote_name(found), c);
            if auto_merge {
                let done = choose|done: Result<(), String>| #[trigger]
                    implement::merged_in(next, after, *prep, found, done) && match done {
                        Ok(_) => r is Ok && r->Ok_0 is Some && r->Ok_0->0 is Merged
                            && r->Ok_0->0.told() == implement::MERGED_INTRO@ + found + text::fill(
                            implement::MERGED_TASK@,
                            text::decimal(number as nat),
                        ) + implement::brought_in(c),
                        Err(e) => r is Err && r->Err_0@ == "auto-merge of `origin/"@ + found
                            + "` failed: "@ + e@,
                    };
                lemma_merged_in(next, after, *prep, found, done);
                let list = implement::bulleted(text::views(commits@));
                lemma_listed(base, number, commits, notice);
                reveal_strlit("");
                if base@ == found && done is Ok {
                    if c is Err {
                        assert(r->Ok_0->0->Merged_0@ =~= merged@);
                    } else if text::views(commits@) == text::lines(out(came_to(next))) {
                        assert(list.len() >= 0);
                        assert(r->Ok_0->0->Merged_0@ =~= merged@ + (
                        "\n\nThe commits it brought in:\n"@ + list));
                    }
                }
            }
            (mid, plain(s), next)
        } else {
            (mid, plain(s), mid)
        }
    } else {
        (before, Err(()), before)
    }
}

} // verus!
