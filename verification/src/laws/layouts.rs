//! The preferred layout: made by a clone, or out of one.

use vstd::prelude::*;

use crate::clone::{self, Container};
use crate::convert::{self, Facts, Plan, Siblings, Step};
use crate::git::{self, Git, Ran};
use crate::github::{self, RepoRef};
use crate::laws::commands::{came_to, issued, lemma_answered, lemma_did, out, went};
use crate::laws::repositories::{lemma_set_up, sets_up};
use crate::laws::targets::is_part;
use crate::laws::texts::lemma_within;
use crate::text;

verus! {

/// A repository's address for git goes by the protocol.
pub proof fn addresses_go_by_the_protocol(protocol: &str, owner: &str, repo: &str, r: String)
    requires
        call_ensures(clone::shorthand_url, (protocol, owner, repo), r),
    ensures
        protocol@ == "ssh"@ ==> r@ == "git@github.com:"@ + owner@ + "/"@ + repo@ + ".git"@,
        protocol@ != "ssh"@ ==> r@ == "https://github.com/"@ + owner@ + "/"@ + repo@ + ".git"@,
{
}

/// What is cloned is an address of github.com as it stands, or an owner and a name; the
/// name has no `.git` at its end. Anything else is refused.
pub proof fn clones_are_named_by_address_or_shorthand(
    repo: &str,
    protocol: &str,
    remote: Option<(String, String)>,
    r: Result<(String, String), String>,
    owner: &str,
    full: &str,
    stem: String,
    bare: &str,
    url: String,
)
    requires
        call_ensures(clone::resolve_with, (repo, protocol, remote), r),
        is_part(owner@),
        is_part(full@),
        call_ensures(github::without_suffix, (full,), stem),
        bare@ == stem@,
        call_ensures(clone::shorthand_url, (protocol, owner, bare), url),
    ensures
        text::contains(repo@, "://"@) || text::starts_with(repo@, "git@"@) ==> (r is Ok
            <==> remote is Some),
        (text::contains(repo@, "://"@) || text::starts_with(repo@, "git@"@)) && r is Ok ==> (
        r->Ok_0).0@ == repo@ && (r->Ok_0).1@ == (remote->0).1@,
        !text::contains(repo@, "://"@) && !text::starts_with(repo@, "git@"@) && repo@ == owner@
            + "/"@ + full@ ==> r is Ok && (r->Ok_0).0@ == url@ && (r->Ok_0).1@ == stem@,
        !text::contains(repo@, "://"@) && !text::starts_with(repo@, "git@"@) && r is Ok
            ==> exists|i: int|
            #![trigger repo@[i]]
            0 < i < repo@.len() - 1 && repo@[i] == '/',
{
    reveal_strlit("/");
    text::lemma_index_of_bounds(repo@, '/');
    if repo@ == owner@ + "/"@ + full@ {
        let n = owner@.len() as int;
        assert(repo@[n] == '/');
        assert forall|j: int| 0 <= j < n implies repo@[j] != '/' by {
            assert(repo@[j] == owner@[j]);
        }
        text::lemma_index_of(repo@, '/', n);
        assert(repo@.take(n) =~= owner@);
        assert(repo@.skip(n + 1) =~= full@);
        text::lemma_index_of(full@, '/', full@.len() as int);
    }
    if r is Ok && !text::contains(repo@, "://"@) && !text::starts_with(repo@, "git@"@) {
        let at = text::index_of(repo@, '/');
        assert(repo@[at] == '/');
        assert(repo@.skip(at + 1).len() > 0);
    }
}

/// The repository of an address is read from it.
pub proof fn clone_addresses_are_read(
    repo: &str,
    protocol: &str,
    remote: Option<RepoRef>,
    plain: Result<(String, String), String>,
    r: Result<(String, String), String>,
)
    requires
        call_ensures(github::parse_remote_url, (repo,), remote),
        call_ensures(clone::resolve_with, (repo, protocol, remote), plain),
        call_ensures(clone::resolve, (repo, protocol), r),
    ensures
        r is Ok <==> plain is Ok,
        r is Ok ==> (r->Ok_0).0@ == (plain->Ok_0).0@ && (r->Ok_0).1@ == (plain->Ok_0).1@,
{
}

/// The container is made, or an empty directory is used; what is in use is refused. Only
/// one that was made here is removed after a failure.
pub proof fn containers_are_made_or_empty(
    container: &str,
    found: Container,
    r: Result<bool, String>,
    created: bool,
    failed: bool,
    removed: bool,
)
    requires
        call_ensures(clone::create_container, (container, found), r),
        call_ensures(clone::removes_container, (created, failed), removed),
    ensures
        found == Container::Created ==> r == Ok::<bool, String>(true),
        found == (Container::Exists { empty: true }) ==> r == Ok::<bool, String>(false),
        found == (Container::Exists { empty: false }) ==> r is Err,
        removed <==> created && failed,
{
}

/// Where things lie in the layout, and what its configuration says.
pub proof fn the_layout_has_its_places(
    container: &str,
    name: &str,
    branch: &str,
    bare: String,
    worktree: String,
    config: String,
)
    requires
        call_ensures(clone::bare_path, (container, name), bare),
        call_ensures(clone::worktree_path, (container, branch), worktree),
        call_ensures(clone::config_text, (name,), config),
    ensures
        bare@ == text::below(container@, name@ + ".git"@),
        worktree@ == text::below(text::below(container@, "worktrees"@), branch@),
        config@ == "main_repo = \""@ + name@ + ".git\"\nworktrees_dir = \"worktrees\"\n"@,
{
}

/// The layout is filled by a bare clone, borrowing where it can, and, once that worked,
/// by setting its remote up.
pub proof fn layouts_are_filled_by_a_clone<R: Fn(Vec<String>) -> Ran>(
    before: Git<R>,
    bare: &str,
    url: &str,
    reference: Option<&str>,
    after: Git<R>,
    r: Result<(), String>,
)
    requires
        exists|g: &mut Git<R>| #[trigger]
            call_ensures(clone::populate::<R>, (g, bare, url, reference), r) && *g == before
                && *final(g) == after,
    ensures
        exists|one: Git<R>|
            #![trigger came_to(one)]
            {
                &&& reference is None ==> issued(
                    before,
                    one,
                    seq!["-C"@, "."@, "clone"@, "--bare"@, "--single-branch"@, url@, bare@],
                )
                &&& reference is Some ==> issued(
                    before,
                    one,
                    seq![
                        "-C"@,
                        "."@,
                        "clone"@,
                        "--bare"@,
                        "--single-branch"@,
                        "--reference"@,
                        reference->0@,
                        "--dissociate"@,
                        url@,
                        bare@,
                    ],
                )
                &&& !went(came_to(one)) ==> after == one && r is Err
                &&& went(came_to(one)) ==> sets_up(one, after, bare@, r)
            },
{
    let (one, c) = choose|one: Git<R>, c: Result<(), String>| #[trigger]
        clone::cloned(before, one, bare@, url@, reference, c) && match c {
            Err(e) => after == one && r == Err::<(), String>(e),
            Ok(_) => git::set_up(one, after, bare@, r),
        };
    let words = clone::clone_words(url@, bare@, reference);
    lemma_did(before, one, "."@, words, c);
    if reference is Some {
        assert(seq!["-C"@, "."@] + words =~= seq![
            "-C"@,
            "."@,
            "clone"@,
            "--bare"@,
            "--single-branch"@,
            "--reference"@,
            reference->0@,
            "--dissociate"@,
            url@,
            bare@,
        ]);
    } else {
        assert(seq!["-C"@, "."@] + words =~= seq![
            "-C"@,
            "."@,
            "clone"@,
            "--bare"@,
            "--single-branch"@,
            url@,
            bare@,
        ]);
    }
    assert(came_to(one) == came_to(one));
    if c is Ok {
        lemma_set_up(one, bare@, after, r);
    }
}

/// The default branch gets a worktree named like it, where origin's default is known.
pub proof fn the_default_branch_is_checked_out<R: Fn(Vec<String>) -> Ran>(
    before: Git<R>,
    container: &str,
    bare: &str,
    after: Git<R>,
    r: Result<String, String>,
)
    requires
        exists|g: &mut Git<R>| #[trigger]
            call_ensures(clone::try_create_default_worktree::<R>, (g, container, bare), r) && *g
                == before && *final(g) == after,
    ensures
        exists|one: Git<R>|
            #![trigger came_to(one)]
            {
                let named = text::trim(out(came_to(one)));
                &&& issued(
                    before,
                    one,
                    seq!["-C"@, bare@, "rev-parse"@, "--abbrev-ref"@, "origin/HEAD"@],
                )
                &&& !went(came_to(one)) || !text::starts_with(named, "origin/"@) ==> after == one
                    && r is Err
                &&& went(came_to(one)) && text::starts_with(named, "origin/"@) ==> {
                    let default = named.skip("origin/"@.len() as int);
                    &&& issued(
                        one,
                        after,
                        seq![
                            "-C"@,
                            bare@,
                            "worktree"@,
                            "add"@,
                            text::below(text::below(container@, "worktrees"@), default),
                            default,
                        ],
                    )
                    &&& r is Ok <==> went(came_to(after))
                    &&& r is Ok ==> r->Ok_0@ == default
                }
            },
{
    let (one, default) = choose|one: Git<R>, default: Result<Seq<char>, Seq<char>>| #[trigger]
        git::default_named(before, one, bare@, default) && clone::checked_out(
            one,
            after,
            container@,
            bare@,
            default,
            r,
        );
    let words = seq!["rev-parse"@, "--abbrev-ref"@, "origin/HEAD"@];
    let a = lemma_answered(
        before,
        one,
        bare@,
        words,
        |a: Result<Seq<char>, Seq<char>>| default == git::default_of(a),
    );
    assert(seq!["-C"@, bare@] + words =~= seq![
        "-C"@,
        bare@,
        "rev-parse"@,
        "--abbrev-ref"@,
        "origin/HEAD"@,
    ]);
    assert(came_to(one) == came_to(one));
    if default is Ok {
        let d = default->Ok_0;
        let add = seq!["worktree"@, "add"@, clone::worktree_in(container@, d), d];
        if r is Ok {
            lemma_did(one, after, bare@, add, Ok::<(), String>(()));
        } else {
            lemma_did(one, after, bare@, add, Err::<(), String>(r->Err_0));
        }
        assert(seq!["-C"@, bare@] + add =~= seq![
            "-C"@,
            bare@,
            "worktree"@,
            "add"@,
            text::below(text::below(container@, "worktrees"@), d),
            d,
        ]);
    }
}

/// What was made is reported with its places.
pub proof fn layouts_are_reported(
    container: &str,
    name: &str,
    default: Option<&str>,
    line: String,
    r: String,
    plan: &Plan,
    converted: String,
)
    requires
        call_ensures(clone::describe_default, (default,), line),
        call_ensures(clone::report, (container, name, default), r),
        call_ensures(convert::report, (plan, default), converted),
    ensures
        default is Some ==> line@ == "  - `"@ + default->0@
            + "/` — a checkout of the default branch, ready to use\n"@,
        default is None ==> line@ == ""@,
        text::starts_with(
            r@,
            "Created ghwf's preferred layout in `"@ + container@ + "`:\n- `"@ + name@
                + ".git` — the bare repo\n"@,
        ),
        text::contains(r@, line@ + "\nNext steps:\n- `cd "@ + container@),
        text::starts_with(
            converted@,
            "Converted `"@ + plan.top@ + "` into ghwf's preferred layout:\n- `"@ + plan.name@,
        ),
        text::contains(
            converted@,
            line@ + "\nYour original clone is preserved at `"@ + plan.backup@,
        ),
{
    let a = "Created ghwf's preferred layout in `"@ + container@ + "`:\n- `"@ + name@
        + ".git` — the bare repo\n"@;
    let b = line@ + "\nNext steps:\n- `cd "@ + container@;
    let end = clone::NEXT_STEPS@;
    let l = clone::LAYOUT@;
    assert(r@ =~= a + (l + b + end));
    lemma_within(Seq::empty(), a, l + b + end);
    assert(r@ =~= (a + l) + b + end);
    lemma_within(a + l, b, end);
    lemma_converted(*plan, line@, converted@, default);
}

proof fn lemma_converted(plan: Plan, line: Seq<char>, r: Seq<char>, default: Option<&str>)
    requires
        line == clone::default_line(default),
        r == "Converted `"@ + plan.top@ + "` into ghwf's preferred layout:\n- `"@ + plan.name@
            + ".git` — the bare repo (a fresh single-branch clone)\n"@ + clone::LAYOUT@
            + clone::default_line(default) + "\nYour original clone is preserved at `"@
            + plan.backup@ + convert::KEPT@ + plan.top@ + clone::NEXT_STEPS@,
    ensures
        text::starts_with(
            r,
            "Converted `"@ + plan.top@ + "` into ghwf's preferred layout:\n- `"@ + plan.name@,
        ),
        text::contains(r, line + "\nYour original clone is preserved at `"@ + plan.backup@),
{
    let a = "Converted `"@ + plan.top@ + "` into ghwf's preferred layout:\n- `"@ + plan.name@;
    let m = ".git` — the bare repo (a fresh single-branch clone)\n"@ + clone::LAYOUT@;
    let b = line + "\nYour original clone is preserved at `"@ + plan.backup@;
    let end = convert::KEPT@ + plan.top@ + clone::NEXT_STEPS@;
    assert(r =~= a + (m + b + end));
    lemma_within(Seq::empty(), a, m + b + end);
    assert(r =~= (a + m) + b + end);
    lemma_within(a + m, b, end);
}

proof fn lemma_last_slash(dir: Seq<char>, name: Seq<char>)
    requires
        forall|i: int| 0 <= i < name.len() ==> #[trigger] name[i] != '/',
    ensures
        convert::last_slash(dir + "/"@ + name) == dir.len(),
    decreases name.len(),
{
    reveal_strlit("/");
    let s = dir + "/"@ + name;
    if name.len() == 0 {
        assert(s.last() == '/');
    } else {
        let init = name.drop_last();
        assert(s.last() == name[name.len() - 1]);
        assert forall|i: int| 0 <= i < init.len() implies #[trigger] init[i] != '/' by {
            assert(name[i] != '/');
        }
        lemma_last_slash(dir, init);
        assert(s.drop_last() =~= dir + "/"@ + init);
    }
}

/// The backup and the scratch directory of a clone lie beside it, and are named after it.
pub proof fn backups_lie_beside_the_clone(
    top: &str,
    r: Option<Siblings>,
    dir: Seq<char>,
    name: Seq<char>,
)
    requires
        call_ensures(convert::siblings, (top,), r),
        top@ == dir + "/"@ + name,
        dir.len() > 0,
        is_part(name),
    ensures
        r is Some,
        r->0.name@ == name,
        r->0.backup@ == text::below(dir, name + ".pre-ghwf"@),
        r->0.temp@ == text::below(dir, name + ".ghwf-converting"@),
{
    reveal_strlit("/");
    lemma_last_slash(dir, name);
    assert(top@.take(dir.len() as int) =~= dir);
    assert(top@.skip(dir.len() + 1int) =~= name);
}

/// A conversion starts only from an ordinary clone with a name and an origin, and where
/// neither the backup nor the scratch directory is in the way.
pub proof fn only_ordinary_clones_are_converted(
    start: &str,
    facts: &Facts,
    r: Result<Plan, String>,
    top: &str,
    beside: Option<Siblings>,
)
    requires
        call_ensures(convert::resolve, (start, facts), r),
        top@ == facts.top@,
        call_ensures(convert::siblings, (top,), beside),
    ensures
        r is Ok <==> facts.inside && !facts.git_is_file && beside is Some && !facts.backup_exists
            && !facts.temp_exists && facts.url is Ok,
        r matches Ok(plan) ==> {
            &&& plan.top@ == facts.top@
            &&& plan.url@ == facts.url->Ok_0@
            &&& plan.name@ == beside->0.name@
            &&& plan.backup@ == beside->0.backup@
            &&& plan.temp@ == beside->0.temp@
        },
{
}

/// The steps of a conversion: the new layout is built aside, the original is moved away,
/// and only then does the layout take its place; a failure is undone.
pub proof fn conversions_go_step_by_step(step: Step, ok: bool, relinks: bool, r: Step)
    requires
        call_ensures(convert::build_and_swap, (step, ok, relinks), r),
    ensures
        step == Step::CreateScratch ==> r == (if ok {
            Step::Build
        } else {
            Step::Failed
        }),
        step == Step::Build ==> r == (if ok {
            Step::MoveAside
        } else {
            Step::ClearScratch
        }),
        step == Step::MoveAside ==> r == (if ok {
            Step::MoveIn
        } else {
            Step::Failed
        }),
        step == Step::MoveIn && ok ==> r == (if relinks {
            Step::Relink
        } else {
            Step::Done
        }),
        step == Step::MoveIn && !ok ==> r == Step::PutBack,
        step == Step::PutBack ==> r == Step::ClearScratch,
        step == Step::ClearScratch || step == Step::Failed ==> r == Step::Failed,
        step == Step::Relink ==> r == (if ok {
            Step::Done
        } else {
            Step::Failed
        }),
        step == Step::Done ==> r == Step::Done,
{
}

} // verus!
