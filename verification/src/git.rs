//! The git commands, and what their output says.
//!
//! A command is run by a function that the caller hands in: it gets the
//! arguments to `git` and returns what came of running it. The contracts say
//! which commands are run, in which order, and that no other is.

use vstd::prelude::*;

use crate::record::Recorded;
use crate::text;

verus! {

/// What came of running `git`.
pub enum Ran {
    /// It could not be run, for this reason.
    NotRun(String),
    /// It ran. `stdout` is absent where it is not valid UTF-8, and
    /// `stdout_empty` says whether nothing was printed there.
    Exited { code: Option<i32>, stdout: Option<String>, stdout_empty: bool, stderr: String },
}

/// The function that runs `git`, with the commands it has run.
pub type Git<R> = Recorded<R, Vec<String>, Ran>;

/// It ran, and reported success.
pub open spec fn succeeded(o: Ran) -> bool {
    match o {
        Ran::NotRun(_) => false,
        Ran::Exited { code, .. } => code == Some(0i32),
    }
}

pub const NOT_RUN: &'static str = "failed to run `git` — is it installed and on PATH?: ";

pub const NOT_UTF8: &'static str = "`git` returned non-UTF-8 output";

/// What a command printed, or why it failed.
pub open spec fn answer(words: Seq<Seq<char>>, o: Ran) -> Result<Seq<char>, Seq<char>> {
    match o {
        Ran::NotRun(e) => Err(NOT_RUN@ + e@),
        Ran::Exited { code, stdout, stderr, .. } => if code != Some(0i32) {
            Err("`git "@ + text::join(words, " "@) + "` failed:\n"@ + text::trim(stderr@))
        } else {
            match stdout {
                Some(out) => Ok(out@),
                None => Err(NOT_UTF8@),
            }
        },
    }
}

/// The arguments of a command that runs in `dir`.
pub open spec fn command(dir: Seq<char>, words: Seq<Seq<char>>) -> Seq<Seq<char>> {
    seq!["-C"@, dir] + words
}

/// This command was run in `dir`, and no other, and came to `o`.
pub open spec fn ran<R: Fn(Vec<String>) -> Ran>(
    before: Git<R>,
    after: Git<R>,
    dir: Seq<char>,
    words: Seq<Seq<char>>,
    o: Ran,
) -> bool {
    &&& after.function() == before.function()
    &&& exists|args: Vec<String>|
        {
            &&& text::views(args@) == command(dir, words)
            &&& #[trigger] call_ensures(before.function(), (args,), o)
            &&& after.calls() == before.calls().push((args, o))
        }
}

/// This command was run in `dir`, and no other, and was answered by `a`.
pub open spec fn told<R: Fn(Vec<String>) -> Ran>(
    before: Git<R>,
    after: Git<R>,
    dir: Seq<char>,
    words: Seq<Seq<char>>,
    a: Result<Seq<char>, Seq<char>>,
) -> bool {
    exists|o: Ran| #[trigger] ran(before, after, dir, words, o) && answer(words, o) == a
}

/// This command was run in `dir`, and no other, and `ok` says whether it succeeded.
pub open spec fn probed<R: Fn(Vec<String>) -> Ran>(
    before: Git<R>,
    after: Git<R>,
    dir: Seq<char>,
    words: Seq<Seq<char>>,
    ok: bool,
) -> bool {
    exists|o: Ran| #[trigger] ran(before, after, dir, words, o) && succeeded(o) == ok
}

/// The result in its mathematical form.
pub open spec fn seen(r: Result<String, String>) -> Result<Seq<char>, Seq<char>> {
    match r {
        Ok(s) => Ok(s@),
        Err(e) => Err(e@),
    }
}

/// `r` says whether the command succeeded, and why not.
pub open spec fn finished(a: Result<Seq<char>, Seq<char>>, r: Result<(), String>) -> bool {
    match a {
        Ok(_) => r is Ok,
        Err(e) => r is Err && r->Err_0@ == e,
    }
}

/// `r` says whether the command's output has a property, or why the command
/// failed.
pub open spec fn judged(
    a: Result<Seq<char>, Seq<char>>,
    holds: spec_fn(Seq<char>) -> bool,
    r: Result<bool, String>,
) -> bool {
    match a {
        Ok(out) => r is Ok && r->Ok_0 == holds(out),
        Err(e) => r is Err && r->Err_0@ == e,
    }
}

/// This command was run in `dir`, and no other, and its answer fits.
pub open spec fn answered<R: Fn(Vec<String>) -> Ran>(
    before: Git<R>,
    after: Git<R>,
    dir: Seq<char>,
    words: Seq<Seq<char>>,
    fits: spec_fn(Result<Seq<char>, Seq<char>>) -> bool,
) -> bool {
    exists|a: Result<Seq<char>, Seq<char>>| #[trigger] told(before, after, dir, words, a) && fits(a)
}

/// This command was run in `dir`, and no other, and what it came to fits.
pub open spec fn ended<R: Fn(Vec<String>) -> Ran>(
    before: Git<R>,
    after: Git<R>,
    dir: Seq<char>,
    words: Seq<Seq<char>>,
    fits: spec_fn(Ran) -> bool,
) -> bool {
    exists|o: Ran| #[trigger] ran(before, after, dir, words, o) && fits(o)
}

/// The command was run in `dir`, and no other, whatever came of it.
pub open spec fn attempted<R: Fn(Vec<String>) -> Ran>(
    before: Git<R>,
    after: Git<R>,
    dir: Seq<char>,
    words: Seq<Seq<char>>,
) -> bool {
    exists|o: Ran| #[trigger] ran(before, after, dir, words, o)
}

/// `r` is what a command's output gives, if anything, or why the command failed.
pub open spec fn optional(
    a: Result<Seq<char>, Seq<char>>,
    gives: spec_fn(Seq<char>) -> Option<Seq<char>>,
    r: Result<Option<String>, String>,
) -> bool {
    match a {
        Ok(out) => r is Ok && match r->Ok_0 {
            Some(s) => gives(out) == Some(s@),
            None => gives(out) is None,
        },
        Err(e) => r is Err && r->Err_0@ == e,
    }
}

/// The command was run in `dir`, and no other, and `r` is how it went.
pub open spec fn did<R: Fn(Vec<String>) -> Ran>(
    before: Git<R>,
    after: Git<R>,
    dir: Seq<char>,
    words: Seq<Seq<char>>,
    r: Result<(), String>,
) -> bool {
    exists|a: Result<Seq<char>, Seq<char>>| #[trigger] told(before, after, dir, words, a) && finished(a, r)
}

/// A command of which is known how it went was run.
pub proof fn lemma_did_is_attempted<R: Fn(Vec<String>) -> Ran>(
    before: Git<R>,
    after: Git<R>,
    dir: Seq<char>,
    words: Seq<Seq<char>>,
    r: Result<(), String>,
)
    requires
        did(before, after, dir, words, r),
    ensures
        attempted(before, after, dir, words),
{
    let a = choose|a: Result<Seq<char>, Seq<char>>| #[trigger]
        told(before, after, dir, words, a) && finished(a, r);
    let o = choose|o: Ran| #[trigger] ran(before, after, dir, words, o) && answer(words, o) == a;
    assert(ran(before, after, dir, words, o));
}

/// The command was run in `dir`, and no other, and `r` says whether its output has a
/// property.
pub open spec fn found<R: Fn(Vec<String>) -> Ran>(
    before: Git<R>,
    after: Git<R>,
    dir: Seq<char>,
    words: Seq<Seq<char>>,
    holds: spec_fn(Seq<char>) -> bool,
    r: Result<bool, String>,
) -> bool {
    exists|a: Result<Seq<char>, Seq<char>>| #[trigger]
        told(before, after, dir, words, a) && judged(a, holds, r)
}

/// The git subcommand that the arguments name.
pub open spec fn verb(args: Vec<String>) -> Seq<char> {
    if args@.len() > 2 {
        args@[2]@
    } else {
        seq![]
    }
}

/// The commands run since `before`, if any, name other subcommands than this.
pub open spec fn spared<R: Fn(Vec<String>) -> Ran>(
    before: Git<R>,
    after: Git<R>,
    unused: Seq<char>,
) -> bool {
    &&& before.calls().is_prefix_of(after.calls())
    &&& forall|i: int|
        before.calls().len() <= i < after.calls().len() ==> verb(
            (#[trigger] after.calls()[i]).0,
        ) != unused
}

/// A command was run that names another subcommand.
pub proof fn lemma_ran_spares<R: Fn(Vec<String>) -> Ran>(
    before: Git<R>,
    after: Git<R>,
    dir: Seq<char>,
    words: Seq<Seq<char>>,
    o: Ran,
    unused: Seq<char>,
)
    requires
        ran(before, after, dir, words, o),
        words.len() > 0,
        words[0] != unused,
    ensures
        spared(before, after, unused),
        after.function() == before.function(),
        after.calls().len() == before.calls().len() + 1,
        verb(after.calls().last().0) == words[0],
        after.calls().last().1 == o,
{
    let args = choose|args: Vec<String>|
        {
            &&& text::views(args@) == command(dir, words)
            &&& #[trigger] call_ensures(before.function(), (args,), o)
            &&& after.calls() == before.calls().push((args, o))
        };
    assert(text::views(args@).len() == args@.len());
    assert(text::views(args@)[2] == words[0]);
    assert(verb(args) == words[0]);
    assert(before.calls().is_prefix_of(after.calls()));
}

/// The same, where it is known how the command went.
pub proof fn lemma_did_spares<R: Fn(Vec<String>) -> Ran>(
    before: Git<R>,
    after: Git<R>,
    dir: Seq<char>,
    words: Seq<Seq<char>>,
    r: Result<(), String>,
    unused: Seq<char>,
)
    requires
        did(before, after, dir, words, r),
        words.len() > 0,
        words[0] != unused,
    ensures
        spared(before, after, unused),
        after.function() == before.function(),
        after.calls().len() == before.calls().len() + 1,
        verb(after.calls().last().0) == words[0],
{
    lemma_did_is_attempted(before, after, dir, words, r);
    let o = choose|o: Ran| #[trigger] ran(before, after, dir, words, o);
    lemma_ran_spares(before, after, dir, words, o, unused);
}

/// The same, where the command's answer fits.
pub proof fn lemma_answered_spares<R: Fn(Vec<String>) -> Ran>(
    before: Git<R>,
    after: Git<R>,
    dir: Seq<char>,
    words: Seq<Seq<char>>,
    fits: spec_fn(Result<Seq<char>, Seq<char>>) -> bool,
    unused: Seq<char>,
)
    requires
        answered(before, after, dir, words, fits),
        words.len() > 0,
        words[0] != unused,
    ensures
        spared(before, after, unused),
        after.function() == before.function(),
        after.calls().len() == before.calls().len() + 1,
{
    let a = choose|a: Result<Seq<char>, Seq<char>>| #[trigger]
        told(before, after, dir, words, a) && fits(a);
    let o = choose|o: Ran| #[trigger] ran(before, after, dir, words, o) && answer(words, o) == a;
    lemma_ran_spares(before, after, dir, words, o, unused);
}

/// The same, where the command was a probe.
pub proof fn lemma_probed_spares<R: Fn(Vec<String>) -> Ran>(
    before: Git<R>,
    after: Git<R>,
    dir: Seq<char>,
    words: Seq<Seq<char>>,
    ok: bool,
    unused: Seq<char>,
)
    requires
        probed(before, after, dir, words, ok),
        words.len() > 0,
        words[0] != unused,
    ensures
        spared(before, after, unused),
        after.function() == before.function(),
        after.calls().len() == before.calls().len() + 1,
{
    let o = choose|o: Ran| #[trigger] ran(before, after, dir, words, o) && succeeded(o) == ok;
    lemma_ran_spares(before, after, dir, words, o, unused);
}

/// The same, where the command's output was judged.
pub proof fn lemma_found_spares<R: Fn(Vec<String>) -> Ran>(
    before: Git<R>,
    after: Git<R>,
    dir: Seq<char>,
    words: Seq<Seq<char>>,
    holds: spec_fn(Seq<char>) -> bool,
    r: Result<bool, String>,
    unused: Seq<char>,
)
    requires
        found(before, after, dir, words, holds, r),
        words.len() > 0,
        words[0] != unused,
    ensures
        spared(before, after, unused),
        after.function() == before.function(),
        after.calls().len() == before.calls().len() + 1,
{
    let a = choose|a: Result<Seq<char>, Seq<char>>| #[trigger]
        told(before, after, dir, words, a) && judged(a, holds, r);
    let o = choose|o: Ran| #[trigger] ran(before, after, dir, words, o) && answer(words, o) == a;
    lemma_ran_spares(before, after, dir, words, o, unused);
}

/// What neither of two stretches runs, the two together do not run.
pub proof fn lemma_spared_joined<R: Fn(Vec<String>) -> Ran>(
    before: Git<R>,
    mid: Git<R>,
    after: Git<R>,
    unused: Seq<char>,
)
    requires
        spared(before, mid, unused),
        spared(mid, after, unused),
    ensures
        spared(before, after, unused),
{
    assert forall|i: int| before.calls().len() <= i < after.calls().len() implies verb(
        (#[trigger] after.calls()[i]).0,
    ) != unused by {
        if i < mid.calls().len() {
            assert(after.calls()[i] == mid.calls()[i]);
        }
    }
}

/// Run a git command in `dir`.
fn start<R: Fn(Vec<String>) -> Ran>(git: &mut Git<R>, dir: &str, args: &Vec<&str>) -> (r: Ran)
    requires
        old(git).ready(),
    ensures
        ran(*old(git), *final(git), dir@, text::str_views(args@), r),
{
    let mut all: Vec<String> = Vec::new();
    all.push(text::copy("-C"));
    all.push(text::copy(dir));
    let mut i: usize = 0;
    while i < args.len()
        invariant
            i <= args.len(),
            all@.len() == i + 2,
            all@[0]@ == "-C"@,
            all@[1]@ == dir@,
            forall|k: int| 0 <= k < i ==> all@[k + 2]@ == (#[trigger] args@[k])@,
        decreases args.len() - i,
    {
        all.push(text::copy(args[i]));
        i = i + 1;
    }
    let ghost words = text::str_views(args@);
    assert forall|k: int| 0 <= k < all@.len() implies (#[trigger] text::views(all@)[k]) == command(
        dir@,
        words,
    )[k] by {
        if k >= 2 {
            assert(all@[(k - 2) + 2]@ == args@[k - 2]@);
        }
    }
    assert(text::views(all@) =~= command(dir@, words));
    git.call(all)
}

/// The words with spaces between them.
fn spaced(words: &Vec<&str>) -> (r: String)
    ensures
        r@ == text::join(text::str_views(words@), " "@),
{
    let mut out: Vec<String> = Vec::new();
    let mut i: usize = 0;
    while i < words.len()
        invariant
            i <= words.len(),
            out@.len() == i,
            forall|k: int| 0 <= k < i ==> (#[trigger] out@[k])@ == words@[k]@,
        decreases words.len() - i,
    {
        out.push(text::copy(words[i]));
        i = i + 1;
    }
    assert(text::views(out@) =~= text::str_views(words@));
    text::joined(&out, " ")
}

/// Run a git command in `dir` and return its stdout, or an error with its stderr
/// on a non-zero exit.
fn output<R: Fn(Vec<String>) -> Ran>(git: &mut Git<R>, dir: &str, args: &Vec<&str>) -> (r: Result<
    String,
    String,
>)
    requires
        old(git).ready(),
    ensures
        told(*old(git), *final(git), dir@, text::str_views(args@), seen(r)),
{
    let o = start(git, dir, args);
    let ghost outcome = o;
    let r: Result<String, String> = match o {
        Ran::NotRun(e) => {
            let mut s = text::copy(NOT_RUN);
            s.append(e.as_str());
            Err(s)
        },
        Ran::Exited { code, stdout, stdout_empty: _, stderr } => {
            if is_zero(code) {
                match stdout {
                    Some(out) => Ok(out),
                    None => Err(text::copy(NOT_UTF8)),
                }
            } else {
                let mut s = text::copy("`git ");
                s.append(spaced(args).as_str());
                s.append("` failed:\n");
                s.append(text::trimmed(stderr.as_str()).as_str());
                Err(s)
            }
        },
    };
    assert(answer(text::str_views(args@), outcome) == seen(r));
    r
}

/// Whether an exit code reports success.
fn is_zero(code: Option<i32>) -> (r: bool)
    ensures
        r == (code == Some(0i32)),
{
    match code {
        Some(c) => c == 0,
        None => false,
    }
}

/// Like [`output`], but only reports success or failure (for probe commands that
/// are expected to fail in the normal course of things).
fn git_ok<R: Fn(Vec<String>) -> Ran>(git: &mut Git<R>, dir: &str, args: &Vec<&str>) -> (r: bool)
    requires
        old(git).ready(),
    ensures
        probed(*old(git), *final(git), dir@, text::str_views(args@), r),
{
    let o = start(git, dir, args);
    let ok = match &o {
        Ran::NotRun(_) => false,
        Ran::Exited { code, .. } => is_zero(*code),
    };
    assert(succeeded(o) == ok);
    ok
}

/// Run a git command in `dir` for its effect.
fn perform<R: Fn(Vec<String>) -> Ran>(git: &mut Git<R>, dir: &str, args: &Vec<&str>) -> (r: Result<
    (),
    String,
>)
    requires
        old(git).ready(),
    ensures
        did(*old(git), *final(git), dir@, text::str_views(args@), r),
{
    let out = output(git, dir, args);
    let ghost a = seen(out);
    let r: Result<(), String> = match out {
        Ok(_) => Ok(()),
        Err(e) => Err(e),
    };
    assert(finished(a, r));
    r
}

/// Whether a git command in `dir` prints nothing but white space.
fn prints_nothing<R: Fn(Vec<String>) -> Ran>(
    git: &mut Git<R>,
    dir: &str,
    args: &Vec<&str>,
) -> (r: Result<bool, String>)
    requires
        old(git).ready(),
    ensures
        found(*old(git), *final(git), dir@, text::str_views(args@), |out: Seq<char>| text::trim(out).len() == 0, r),
{
    let out = output(git, dir, args);
    let ghost a = seen(out);
    let r: Result<bool, String> = match out {
        Ok(out) => Ok(text::is_blank(out.as_str())),
        Err(e) => Err(e),
    };
    assert(judged(a, |out: Seq<char>| text::trim(out).len() == 0, r));
    r
}

/// Whether a git command in `dir` prints something but white space.
fn prints_something<R: Fn(Vec<String>) -> Ran>(
    git: &mut Git<R>,
    dir: &str,
    args: &Vec<&str>,
) -> (r: Result<bool, String>)
    requires
        old(git).ready(),
    ensures
        found(*old(git), *final(git), dir@, text::str_views(args@), |out: Seq<char>| text::trim(out).len() > 0, r),
{
    let out = output(git, dir, args);
    let ghost a = seen(out);
    let r: Result<bool, String> = match out {
        Ok(out) => Ok(!text::is_blank(out.as_str())),
        Err(e) => Err(e),
    };
    assert(judged(a, |out: Seq<char>| text::trim(out).len() > 0, r));
    r
}

/// A result whose text is trimmed.
pub open spec fn trimmed(a: Result<Seq<char>, Seq<char>>) -> Result<Seq<char>, Seq<char>> {
    match a {
        Ok(out) => Ok(text::trim(out)),
        Err(e) => Err(e),
    }
}

/// What a git command in `dir` prints, trimmed.
fn ask<R: Fn(Vec<String>) -> Ran>(git: &mut Git<R>, dir: &str, args: &Vec<&str>) -> (r: Result<
    String,
    String,
>)
    requires
        old(git).ready(),
    ensures
        answered(
            *old(git),
            *final(git),
            dir@,
            text::str_views(args@),
            |a: Result<Seq<char>, Seq<char>>| seen(r) == trimmed(a),
        ),
{
    let out = output(git, dir, args);
    let ghost a = seen(out);
    let r: Result<String, String> = match out {
        Ok(out) => Ok(text::trimmed(out.as_str())),
        Err(e) => Err(e),
    };
    assert(seen(r) == trimmed(a));
    r
}

/// Clone `url` as a bare repo at `dest`, optionally borrowing objects from a
/// local `reference` repo (an absolute path) instead of fetching them over the
/// network.
///
/// `--single-branch` keeps the bare repo's `refs/heads/*` down to just the
/// default branch: a plain `--bare` clone mirrors every remote branch there,
/// where they would sit frozen forever and pollute [`list_local_branches`].
///
/// A reference clone is always dissociated: the reference repo is exactly what a
/// migrating user is likely to delete, so the new repo must never keep depending
/// on it.
pub fn clone_bare<R: Fn(Vec<String>) -> Ran>(
    git: &mut Git<R>,
    url: &str,
    dest: &str,
    reference: Option<&str>,
) -> (r: Result<(), String>)
    requires
        old(git).ready(),
    ensures
        did(
            *old(git),
            *final(git),
            "."@,
            match reference {
                Some(path) => seq![
                    "clone"@,
                    "--bare"@,
                    "--single-branch"@,
                    "--reference"@,
                    path@,
                    "--dissociate"@,
                    url@,
                    dest@,
                ],
                None => seq!["clone"@, "--bare"@, "--single-branch"@, url@, dest@],
            },
            r,
        ),
{
    match reference {
        Some(path) => {
            let args = vec![
                "clone",
                "--bare",
                "--single-branch",
                "--reference",
                path,
                "--dissociate",
                url,
                dest,
            ];
            assert(text::str_views(args@) =~= seq![
                "clone"@,
                "--bare"@,
                "--single-branch"@,
                "--reference"@,
                path@,
                "--dissociate"@,
                url@,
                dest@,
            ]);
            perform(git, ".", &args)
        },
        None => {
            let args = vec!["clone", "--bare", "--single-branch", url, dest];
            assert(text::str_views(args@) =~= seq![
                "clone"@,
                "--bare"@,
                "--single-branch"@,
                url@,
                dest@,
            ]);
            perform(git, ".", &args)
        },
    }
}

pub const REFSPEC: &'static str = "+refs/heads/*:refs/remotes/origin/*";

/// The remote-tracking refs were fetched and, once they were, `origin/HEAD` set, and
/// `r` is how it went.
pub open spec fn refs_set_up<R: Fn(Vec<String>) -> Ran>(
    before: Git<R>,
    after: Git<R>,
    repo: Seq<char>,
    r: Result<(), String>,
) -> bool {
    exists|mid: Git<R>, f: Result<(), String>| #[trigger]
        fetched(before, mid, repo, f) && match f {
            Err(e) => after == mid && r == Err::<(), String>(e),
            Ok(_) => did(
                mid,
                after,
                repo,
                seq!["remote"@, "set-head"@, "origin"@, "--auto"@],
                r,
            ),
        }
}

/// Origin was set up step by step, each step taken once the one before has
/// succeeded, and `r` is how it went.
pub open spec fn set_up<R: Fn(Vec<String>) -> Ran>(
    before: Git<R>,
    after: Git<R>,
    repo: Seq<char>,
    r: Result<(), String>,
) -> bool {
    let words = seq!["config"@, "remote.origin.fetch"@, REFSPEC@];
    exists|mid: Git<R>, c: Result<(), String>| #[trigger]
        did(before, mid, repo, words, c) && match c {
            Err(e) => after == mid && r == Err::<(), String>(e),
            Ok(_) => refs_set_up(mid, after, repo, r),
        }
}

/// Configure `repo`'s origin to behave like a normal (working-copy) clone's:
/// the conventional fetch refspec, populated remote-tracking refs, and
/// `origin/HEAD` pointing at the default branch. A bare clone sets none of these
/// up. Each step is taken once the one before has succeeded.
pub fn setup_conventional_remote<R: Fn(Vec<String>) -> Ran>(
    git: &mut Git<R>,
    repo: &str,
) -> (r: Result<(), String>)
    requires
        old(git).ready(),
    ensures
        set_up(*old(git), *final(git), repo@, r),
{
    let config = vec!["config", "remote.origin.fetch", REFSPEC];
    assert(text::str_views(config@) =~= seq!["config"@, "remote.origin.fetch"@, REFSPEC@]);
    let configured = perform(git, repo, &config);
    let ghost one = *git;
    assert(did(
        *old(git),
        one,
        repo@,
        seq!["config"@, "remote.origin.fetch"@, REFSPEC@],
        configured,
    ));
    if configured.is_err() {
        return configured;
    }
    let got = fetch(git, repo);
    let ghost two = *git;
    assert(fetched(one, two, repo@, got));
    if got.is_err() {
        assert(refs_set_up(one, *git, repo@, got));
        return got;
    }
    let head = vec!["remote", "set-head", "origin", "--auto"];
    assert(text::str_views(head@) =~= seq!["remote"@, "set-head"@, "origin"@, "--auto"@]);
    let r = perform(git, repo, &head);
    assert(refs_set_up(one, *git, repo@, r));
    r
}

/// Whether `dir` is inside a git work tree (false in a bare repo or outside git
/// entirely).
pub fn is_inside_work_tree<R: Fn(Vec<String>) -> Ran>(git: &mut Git<R>, dir: &str) -> (r: bool)
    requires
        old(git).ready(),
    ensures
        answered(
            *old(git),
            *final(git),
            dir@,
            seq!["rev-parse"@, "--is-inside-work-tree"@],
            |a: Result<Seq<char>, Seq<char>>|
                r == (trimmed(a) == Ok::<Seq<char>, Seq<char>>("true"@)),
        ),
{
    let args = vec!["rev-parse", "--is-inside-work-tree"];
    assert(text::str_views(args@) =~= seq!["rev-parse"@, "--is-inside-work-tree"@]);
    match ask(git, dir, &args) {
        Ok(out) => text::same(out.as_str(), "true"),
        Err(_) => false,
    }
}

/// The root of the work tree containing `dir`.
pub fn toplevel<R: Fn(Vec<String>) -> Ran>(
    git: &mut Git<R>,
    dir: &str,
) -> (r: Result<String, String>)
    requires
        old(git).ready(),
    ensures
        answered(
            *old(git),
            *final(git),
            dir@,
            seq!["rev-parse"@, "--show-toplevel"@],
            |a: Result<Seq<char>, Seq<char>>| seen(r) == trimmed(a),
        ),
{
    let args = vec!["rev-parse", "--show-toplevel"];
    assert(text::str_views(args@) =~= seq!["rev-parse"@, "--show-toplevel"@]);
    ask(git, dir, &args)
}

/// Whether `dir` is (or is inside) a git repository, bare or not. `is_dir` says
/// whether it is a directory at all.
pub fn is_repo<R: Fn(Vec<String>) -> Ran>(git: &mut Git<R>, dir: &str, is_dir: bool) -> (r: bool)
    requires
        old(git).ready(),
    ensures
        if is_dir {
            probed(*old(git), *final(git), dir@, seq!["rev-parse"@, "--git-dir"@], r)
        } else {
            !r && *final(git) == *old(git)
        },
{
    let args = vec!["rev-parse", "--git-dir"];
    assert(text::str_views(args@) =~= seq!["rev-parse"@, "--git-dir"@]);
    is_dir && git_ok(git, dir, &args)
}

/// Whether `relpath` is already ignored by the repo's gitignore rules.
pub fn is_ignored<R: Fn(Vec<String>) -> Ran>(
    git: &mut Git<R>,
    repo: &str,
    relpath: &str,
) -> (r: bool)
    requires
        old(git).ready(),
    ensures
        probed(*old(git), *final(git), repo@, seq!["check-ignore"@, "-q"@, relpath@], r),
{
    let args = vec!["check-ignore", "-q", relpath];
    assert(text::str_views(args@) =~= seq!["check-ignore"@, "-q"@, relpath@]);
    git_ok(git, repo, &args)
}

/// Where `dir` is, seen from the absolute path `cwd`, and the answer below it.
pub open spec fn placed(
    cwd: Seq<char>,
    dir: Seq<char>,
    a: Result<Seq<char>, Seq<char>>,
) -> Result<Seq<char>, Seq<char>> {
    match a {
        Ok(out) => Ok(text::below(text::below(cwd, dir), text::trim(out))),
        Err(e) => Err(e),
    }
}

/// Resolve a path within the git metadata directory for `dir`, e.g.
/// `info/exclude`. Handles linked worktrees correctly (where `.git` is a file),
/// returning an absolute path: a relative answer is below `dir`, and a relative
/// `dir` below the current directory `cwd`.
pub fn git_path<R: Fn(Vec<String>) -> Ran>(
    git: &mut Git<R>,
    cwd: &str,
    dir: &str,
    relative: &str,
) -> (r: Result<String, String>)
    requires
        old(git).ready(),
        text::is_absolute(cwd@),
    ensures
        r is Ok ==> text::is_absolute(r->Ok_0@),
        answered(
            *old(git),
            *final(git),
            dir@,
            seq!["rev-parse"@, "--git-path"@, relative@],
            |a: Result<Seq<char>, Seq<char>>| seen(r) == placed(cwd@, dir@, a),
        ),
{
    let args = vec!["rev-parse", "--git-path", relative];
    assert(text::str_views(args@) =~= seq!["rev-parse"@, "--git-path"@, relative@]);
    match ask(git, dir, &args) {
        Ok(path) => {
            let here = text::path_below(cwd, dir);
            Ok(text::path_below(here.as_str(), path.as_str()))
        },
        Err(e) => Err(e),
    }
}

/// The URL of the repo's `origin` remote.
pub fn remote_url<R: Fn(Vec<String>) -> Ran>(
    git: &mut Git<R>,
    repo: &str,
) -> (r: Result<String, String>)
    requires
        old(git).ready(),
    ensures
        answered(
            *old(git),
            *final(git),
            repo@,
            seq!["remote"@, "get-url"@, "origin"@],
            |a: Result<Seq<char>, Seq<char>>| seen(r) == trimmed(a),
        ),
{
    let args = vec!["remote", "get-url", "origin"];
    assert(text::str_views(args@) =~= seq!["remote"@, "get-url"@, "origin"@]);
    ask(git, repo, &args)
}

/// The remote was fetched in `dir`, and `f` is how it went.
pub open spec fn fetched<R: Fn(Vec<String>) -> Ran>(
    before: Git<R>,
    after: Git<R>,
    dir: Seq<char>,
    f: Result<(), String>,
) -> bool {
    did(before, after, dir, seq!["fetch"@, "--prune"@, "origin"@], f)
}

/// Fetch the latest refs from origin, pruning remote-tracking refs whose remote
/// branch is gone.
pub fn fetch<R: Fn(Vec<String>) -> Ran>(git: &mut Git<R>, repo: &str) -> (r: Result<(), String>)
    requires
        old(git).ready(),
    ensures
        did(*old(git), *final(git), repo@, seq!["fetch"@, "--prune"@, "origin"@], r),
{
    let args = vec!["fetch", "--prune", "origin"];
    assert(text::str_views(args@) =~= seq!["fetch"@, "--prune"@, "origin"@]);
    perform(git, repo, &args)
}

/// Create a new worktree at `path` on a new `branch` starting from `start` (e.g.
/// `origin/main`).
pub fn add_worktree<R: Fn(Vec<String>) -> Ran>(
    git: &mut Git<R>,
    repo: &str,
    path: &str,
    branch: &str,
    start_at: &str,
) -> (r: Result<(), String>)
    requires
        old(git).ready(),
    ensures
        did(*old(git), *final(git), repo@, seq!["worktree"@, "add"@, "-b"@, branch@, path@, start_at@], r),
{
    let args = vec!["worktree", "add", "-b", branch, path, start_at];
    assert(text::str_views(args@) =~= seq!["worktree"@, "add"@, "-b"@, branch@, path@, start_at@]);
    perform(git, repo, &args)
}

/// Create a worktree at `path` checked out on the existing local `branch` (unlike
/// [`add_worktree`], which creates a new branch).
pub fn add_worktree_for_branch<R: Fn(Vec<String>) -> Ran>(
    git: &mut Git<R>,
    repo: &str,
    path: &str,
    branch: &str,
) -> (r: Result<(), String>)
    requires
        old(git).ready(),
    ensures
        did(*old(git), *final(git), repo@, seq!["worktree"@, "add"@, path@, branch@], r),
{
    let args = vec!["worktree", "add", path, branch];
    assert(text::str_views(args@) =~= seq!["worktree"@, "add"@, path@, branch@]);
    perform(git, repo, &args)
}

/// Repair the administrative files linking the worktree at `path` to `repo` (and
/// back), after the worktree or the repo has moved on disk. `git worktree add`
/// records absolute paths, so a layout that is built in one directory and then
/// renamed needs this to relink.
pub fn repair_worktree<R: Fn(Vec<String>) -> Ran>(
    git: &mut Git<R>,
    repo: &str,
    path: &str,
) -> (r: Result<(), String>)
    requires
        old(git).ready(),
    ensures
        did(*old(git), *final(git), repo@, seq!["worktree"@, "repair"@, path@], r),
{
    let args = vec!["worktree", "repair", path];
    assert(text::str_views(args@) =~= seq!["worktree"@, "repair"@, path@]);
    perform(git, repo, &args)
}

/// The blocks of `s`, between blank lines.
pub open spec fn blocks(s: Seq<char>) -> Seq<Seq<char>>
    decreases s.len(),
{
    match text::find(s, "\n\n"@) {
        Some(i) => if 0 <= i && i + 2 <= s.len() {
            seq![s.take(i)] + blocks(s.skip(i + 2))
        } else {
            seq![s]
        },
        None => seq![s],
    }
}

/// What stands behind `prefix` on the first line that has it.
pub open spec fn first_behind(lines: Seq<Seq<char>>, prefix: Seq<char>) -> Option<Seq<char>>
    decreases lines.len(),
{
    if lines.len() == 0 {
        None
    } else if text::starts_with(lines[0], prefix) {
        text::after_prefix(lines[0], prefix)
    } else {
        first_behind(lines.skip(1), prefix)
    }
}

/// The worktree of a block, where the block is about `want`.
pub open spec fn block_worktree(block: Seq<char>, want: Seq<char>) -> Option<Seq<char>> {
    if text::lines(block).contains(want) {
        first_behind(text::lines(block), "worktree "@)
    } else {
        None
    }
}

/// The worktree of the first block that is about `want`.
pub open spec fn first_worktree(blocks: Seq<Seq<char>>, want: Seq<char>) -> Option<Seq<char>>
    decreases blocks.len(),
{
    if blocks.len() == 0 {
        None
    } else if block_worktree(blocks[0], want) is Some {
        block_worktree(blocks[0], want)
    } else {
        first_worktree(blocks.skip(1), want)
    }
}

/// Where `branch` is checked out, in `git worktree list --porcelain` output.
pub open spec fn worktree_of(output: Seq<char>, branch: Seq<char>) -> Option<Seq<char>> {
    first_worktree(blocks(output), "branch refs/heads/"@ + branch)
}

/// What stands behind `prefix` on the first line that has it.
fn line_behind(lines: &Vec<String>, prefix: &str) -> (r: Option<String>)
    ensures
        match r {
            Some(s) => first_behind(text::views(lines@), prefix@) == Some(s@),
            None => first_behind(text::views(lines@), prefix@) is None,
        },
{
    let ghost all = text::views(lines@);
    let mut i: usize = 0;
    assert(all.skip(0) =~= all);
    while i < lines.len()
        invariant
            i <= lines.len(),
            all == text::views(lines@),
            first_behind(all, prefix@) == first_behind(all.skip(i as int), prefix@),
        decreases lines.len() - i,
    {
        assert(all.skip(i as int)[0] == lines@[i as int]@);
        assert(all.skip(i as int).skip(1) =~= all.skip(i + 1));
        match text::strip_prefix(lines[i].as_str(), prefix) {
            Some(rest) => {
                return Some(rest);
            },
            None => {},
        }
        i = i + 1;
    }
    assert(all.skip(i as int).len() == 0);
    None
}

/// The worktree of a block, where the block is about `want`.
fn worktree_in_block(block: &str, want: &str) -> (r: Option<String>)
    ensures
        match r {
            Some(s) => block_worktree(block@, want@) == Some(s@),
            None => block_worktree(block@, want@) is None,
        },
{
    let lines = text::lines_of(block);
    if text::member(&lines, want) {
        assert(text::lines(block@).contains(want@)) by {
            let k = choose|k: int| 0 <= k < lines@.len() && (#[trigger] lines@[k])@ == want@;
            assert(text::views(lines@)[k] == want@);
        }
        line_behind(&lines, "worktree ")
    } else {
        assert(!text::lines(block@).contains(want@)) by {
            if text::lines(block@).contains(want@) {
                let k = choose|k: int|
                    0 <= k < text::lines(block@).len() && text::lines(block@)[k] == want@;
                assert(lines@[k]@ == want@);
            }
        }
        None
    }
}

/// Find `branch`'s worktree in `git worktree list --porcelain` output. Blocks are
/// blank-line-separated; the match pairs a `worktree <path>` line with
/// `branch refs/heads/<branch>`. Bare and detached blocks carry no `branch` line
/// and never match.
pub fn parse_worktree_list(output: &str, branch: &str) -> (r: Option<String>)
    ensures
        match r {
            Some(path) => worktree_of(output@, branch@) == Some(path@),
            None => worktree_of(output@, branch@) is None,
        },
{
    let mut want = text::copy("branch refs/heads/");
    want.append(branch);
    let gap = text::chars("\n\n");
    proof {
        reveal_strlit("\n\n");
    }
    let all = text::chars(output);
    let mut from: usize = 0;
    assert(all@.skip(0) =~= output@);
    loop
        invariant
            from <= all@.len(),
            gap@ == "\n\n"@,
            gap@.len() == 2,
            want@ == "branch refs/heads/"@ + branch@,
            worktree_of(output@, branch@) == first_worktree(
                blocks(all@.skip(from as int)),
                want@,
            ),
        decreases all@.len() - from,
    {
        let ghost rest = all@.skip(from as int);
        let rest_text = text::slice(&all, from, all.len());
        assert(rest_text@ =~= rest);
        let rest_chars = text::chars(rest_text.as_str());
        match text::find_chars(&rest_chars, &gap) {
            Some(i) => {
                let block = text::slice(&all, from, from + i);
                assert(block@ =~= rest.take(i as int));
                let ghost tail = blocks(rest.skip(i + 2));
                assert(blocks(rest) == seq![block@] + tail);
                assert((seq![block@] + tail).skip(1) =~= tail);
                match worktree_in_block(block.as_str(), want.as_str()) {
                    Some(path) => {
                        return Some(path);
                    },
                    None => {},
                }
                from = from + i + 2;
                assert(all@.skip(from as int) =~= rest.skip(i + 2));
            },
            None => {
                assert(blocks(rest) =~= seq![rest]);
                let found = worktree_in_block(rest_text.as_str(), want.as_str());
                assert(first_worktree(seq![rest].skip(1), want@) is None);
                assert(blocks(rest)[0] == rest_text@);
                return found;
            },
        }
    }
}

/// `w` is where the branch is checked out, if anywhere, or why that is not known.
pub open spec fn checked_out_at<R: Fn(Vec<String>) -> Ran>(
    before: Git<R>,
    after: Git<R>,
    repo: Seq<char>,
    branch: Seq<char>,
    w: Result<Option<String>, String>,
) -> bool {
    answered(
        before,
        after,
        repo,
        seq!["worktree"@, "list"@, "--porcelain"@],
        |a: Result<Seq<char>, Seq<char>>|
            optional(a, |out: Seq<char>| worktree_of(out, branch), w),
    )
}

/// The path of the worktree (main or linked) that has `branch` checked out, if
/// any. Git allows at most one worktree per branch.
pub fn branch_worktree<R: Fn(Vec<String>) -> Ran>(
    git: &mut Git<R>,
    repo: &str,
    branch: &str,
) -> (r: Result<Option<String>, String>)
    requires
        old(git).ready(),
    ensures
        checked_out_at(*old(git), *final(git), repo@, branch@, r),
{
    let args = vec!["worktree", "list", "--porcelain"];
    assert(text::str_views(args@) =~= seq!["worktree"@, "list"@, "--porcelain"@]);
    let out = output(git, repo, &args);
    let ghost a = seen(out);
    let r: Result<Option<String>, String> = match out {
        Ok(out) => Ok(parse_worktree_list(out.as_str(), branch)),
        Err(e) => Err(e),
    };
    assert(optional(a, |out: Seq<char>| worktree_of(out, branch@), r));
    r
}

/// `c` says whether there are no changes to tracked files in `dir`.
pub open spec fn clean_at<R: Fn(Vec<String>) -> Ran>(
    before: Git<R>,
    after: Git<R>,
    dir: Seq<char>,
    c: Result<bool, String>,
) -> bool {
    found(
        before,
        after,
        dir,
        seq!["status"@, "--porcelain"@, "--untracked-files=no"@],
        |out: Seq<char>| text::trim(out).len() == 0,
        c,
    )
}

/// True if `dir`'s working tree has no staged or unstaged changes to tracked
/// files. Untracked files are ignored, unlike [`is_clean`].
pub fn is_tree_clean<R: Fn(Vec<String>) -> Ran>(
    git: &mut Git<R>,
    dir: &str,
) -> (r: Result<bool, String>)
    requires
        old(git).ready(),
    ensures
        clean_at(*old(git), *final(git), dir@, r),
{
    let args = vec!["status", "--porcelain", "--untracked-files=no"];
    assert(text::str_views(args@) =~= seq!["status"@, "--porcelain"@, "--untracked-files=no"@]);
    prints_nothing(git, dir, &args)
}

/// Fast-forward `dir`'s checked-out branch to `target` (e.g. `origin/main`),
/// failing if a real merge would be needed.
pub fn merge_ff_only<R: Fn(Vec<String>) -> Ran>(
    git: &mut Git<R>,
    dir: &str,
    target: &str,
) -> (r: Result<(), String>)
    requires
        old(git).ready(),
    ensures
        did(*old(git), *final(git), dir@, seq!["merge"@, "--ff-only"@, target@], r),
{
    let args = vec!["merge", "--ff-only", target];
    assert(text::str_views(args@) =~= seq!["merge"@, "--ff-only"@, target@]);
    perform(git, dir, &args)
}

/// `target` was merged into what is checked out in `dir`, and `r` is how that went. A
/// failed merge, and no other, was aborted.
pub open spec fn merged<R: Fn(Vec<String>) -> Ran>(
    before: Git<R>,
    after: Git<R>,
    dir: Seq<char>,
    target: Seq<char>,
    r: Result<(), String>,
) -> bool {
    let words = seq!["merge"@, "--no-edit"@, target];
    if r is Ok {
        did(before, after, dir, words, r)
    } else {
        exists|mid: Git<R>| #[trigger]
            did(before, mid, dir, words, r) && attempted(
                mid,
                after,
                dir,
                seq!["merge"@, "--abort"@],
            )
    }
}

/// Merge `target` (e.g. `origin/main`) into `dir`'s checked-out branch, creating
/// a merge commit. On failure (including a conflicted merge) the merge is aborted
/// so the working tree is left clean, and the error of the merge is returned.
pub fn merge<R: Fn(Vec<String>) -> Ran>(
    git: &mut Git<R>,
    dir: &str,
    target: &str,
) -> (r: Result<(), String>)
    requires
        old(git).ready(),
    ensures
        merged(*old(git), *final(git), dir@, target@, r),
{
    let args = vec!["merge", "--no-edit", target];
    assert(text::str_views(args@) =~= seq!["merge"@, "--no-edit"@, target@]);
    let tried = perform(git, dir, &args);
    let ghost mid = *git;
    assert(did(*old(git), mid, dir@, seq!["merge"@, "--no-edit"@, target@], tried));
    if tried.is_err() {
        // Best-effort: undo a half-applied or conflicted merge.
        let abort = vec!["merge", "--abort"];
        assert(text::str_views(abort@) =~= seq!["merge"@, "--abort"@]);
        let aborted = git_ok(git, dir, &abort);
        assert(probed(mid, *git, dir@, seq!["merge"@, "--abort"@], aborted));
        assert(attempted(mid, *git, dir@, seq!["merge"@, "--abort"@]));
    }
    tried
}

/// True if `relpath` has no pending changes (committed or absent).
pub fn is_clean<R: Fn(Vec<String>) -> Ran>(
    git: &mut Git<R>,
    dir: &str,
    relpath: &str,
) -> (r: Result<bool, String>)
    requires
        old(git).ready(),
    ensures
        found(
            *old(git),
            *final(git),
            dir@,
            seq!["status"@, "--porcelain"@, "--"@, relpath@],
            |out: Seq<char>| text::trim(out).len() == 0,
            r,
        ),
{
    let args = vec!["status", "--porcelain", "--", relpath];
    assert(text::str_views(args@) =~= seq!["status"@, "--porcelain"@, "--"@, relpath@]);
    prints_nothing(git, dir, &args)
}

/// True if `relpath` is tracked by git.
pub fn is_tracked<R: Fn(Vec<String>) -> Ran>(
    git: &mut Git<R>,
    dir: &str,
    relpath: &str,
) -> (r: bool)
    requires
        old(git).ready(),
    ensures
        probed(*old(git), *final(git), dir@, seq!["ls-files"@, "--error-unmatch"@, relpath@], r),
{
    let args = vec!["ls-files", "--error-unmatch", relpath];
    assert(text::str_views(args@) =~= seq!["ls-files"@, "--error-unmatch"@, relpath@]);
    git_ok(git, dir, &args)
}

/// The file was staged and, once it was, committed, and `r` is how it went.
pub open spec fn committed<R: Fn(Vec<String>) -> Ran>(
    before: Git<R>,
    after: Git<R>,
    dir: Seq<char>,
    relpath: Seq<char>,
    message: Seq<char>,
    r: Result<(), String>,
) -> bool {
    let words = seq!["add"@, "--"@, relpath];
    exists|mid: Git<R>, s: Result<(), String>| #[trigger]
        did(before, mid, dir, words, s) && match s {
            Err(e) => after == mid && r == Err::<(), String>(e),
            Ok(_) => did(
                mid,
                after,
                dir,
                seq!["commit"@, "-m"@, message, "--"@, relpath],
                r,
            ),
        }
}

/// Stage and commit a single file. It is committed once it has been staged.
pub fn commit_file<R: Fn(Vec<String>) -> Ran>(
    git: &mut Git<R>,
    dir: &str,
    relpath: &str,
    message: &str,
) -> (r: Result<(), String>)
    requires
        old(git).ready(),
    ensures
        committed(*old(git), *final(git), dir@, relpath@, message@, r),
{
    let stage = vec!["add", "--", relpath];
    assert(text::str_views(stage@) =~= seq!["add"@, "--"@, relpath@]);
    let staged = perform(git, dir, &stage);
    assert(did(*old(git), *git, dir@, seq!["add"@, "--"@, relpath@], staged));
    if staged.is_err() {
        return staged;
    }
    let commit = vec!["commit", "-m", message, "--", relpath];
    assert(text::str_views(commit@) =~= seq!["commit"@, "-m"@, message@, "--"@, relpath@]);
    perform(git, dir, &commit)
}

/// `r` says whether the remote branch is at `tip`: false where there is no such
/// branch.
pub open spec fn matches_tip<R: Fn(Vec<String>) -> Ran>(
    before: Git<R>,
    after: Git<R>,
    dir: Seq<char>,
    remote: Seq<char>,
    tip: Seq<char>,
    r: Result<bool, String>,
) -> bool {
    let verify = seq!["rev-parse"@, "--verify"@, remote];
    ||| probed(before, after, dir, verify, false) && r == Ok::<bool, String>(false)
    ||| exists|mid: Git<R>| #[trigger]
        probed(before, mid, dir, verify, true) && found(
            mid,
            after,
            dir,
            seq!["rev-parse"@, remote],
            |out: Seq<char>| text::trim(out) == text::trim(tip),
            r,
        )
}

/// `r` says whether `branch` is at the same commit here and on origin.
pub open spec fn matches_remote<R: Fn(Vec<String>) -> Ran>(
    before: Git<R>,
    after: Git<R>,
    dir: Seq<char>,
    branch: Seq<char>,
    r: Result<bool, String>,
) -> bool {
    let words = seq!["rev-parse"@, branch];
    exists|mid: Git<R>, local: Result<Seq<char>, Seq<char>>| #[trigger]
        told(before, mid, dir, words, local) && match local {
            Err(e) => r is Err && r->Err_0@ == e && after == mid,
            Ok(tip) => matches_tip(mid, after, dir, "origin/"@ + branch, tip, r),
        }
}

/// True if `branch`'s local tip matches `origin/<branch>` (i.e. it is pushed and
/// up to date). False where there is no such remote branch.
pub fn remote_branch_matches<R: Fn(Vec<String>) -> Ran>(
    git: &mut Git<R>,
    dir: &str,
    branch: &str,
) -> (r: Result<bool, String>)
    requires
        old(git).ready(),
    ensures
        matches_remote(*old(git), *final(git), dir@, branch@, r),
{
    let here = vec!["rev-parse", branch];
    assert(text::str_views(here@) =~= seq!["rev-parse"@, branch@]);
    let local = output(git, dir, &here);
    let ghost a = seen(local);
    let ghost one = *git;
    assert(told(*old(git), one, dir@, seq!["rev-parse"@, branch@], a));
    let tip = match local {
        Ok(tip) => tip,
        Err(e) => {
            let failed: Result<bool, String> = Err(e);
            assert(failed->Err_0@ == a->Err_0);
            return failed;
        },
    };
    let mut remote_ref = text::copy("origin/");
    remote_ref.append(branch);
    let verify = vec!["rev-parse", "--verify", remote_ref.as_str()];
    assert(text::str_views(verify@) =~= seq!["rev-parse"@, "--verify"@, "origin/"@ + branch@]);
    let there = git_ok(git, dir, &verify);
    let ghost two = *git;
    assert(probed(one, two, dir@, seq!["rev-parse"@, "--verify"@, "origin/"@ + branch@], there));
    if !there {
        let missing: Result<bool, String> = Ok(false);
        assert(matches_tip(one, *git, dir@, "origin/"@ + branch@, tip@, missing));
        return missing;
    }
    let remote = vec!["rev-parse", remote_ref.as_str()];
    assert(text::str_views(remote@) =~= seq!["rev-parse"@, "origin/"@ + branch@]);
    let out = output(git, dir, &remote);
    let ghost b = seen(out);
    let r: Result<bool, String> = match out {
        Ok(out) => Ok(
            text::same(
                text::trimmed(out.as_str()).as_str(),
                text::trimmed(tip.as_str()).as_str(),
            ),
        ),
        Err(e) => Err(e),
    };
    assert(judged(b, |out: Seq<char>| text::trim(out) == text::trim(tip@), r));
    assert(found(
        two,
        *git,
        dir@,
        seq!["rev-parse"@, "origin/"@ + branch@],
        |out: Seq<char>| text::trim(out) == text::trim(tip@),
        r,
    ));
    assert(matches_tip(one, *git, dir@, "origin/"@ + branch@, tip@, r));
    r
}

/// Push `branch` to origin, setting upstream tracking.
pub fn push<R: Fn(Vec<String>) -> Ran>(
    git: &mut Git<R>,
    dir: &str,
    branch: &str,
) -> (r: Result<(), String>)
    requires
        old(git).ready(),
    ensures
        did(*old(git), *final(git), dir@, seq!["push"@, "-u"@, "origin"@, branch@], r),
{
    let args = vec!["push", "-u", "origin", branch];
    assert(text::str_views(args@) =~= seq!["push"@, "-u"@, "origin"@, branch@]);
    perform(git, dir, &args)
}

/// What stands behind `prefix` on each line that has it, but for `except`.
pub open spec fn all_behind(
    lines: Seq<Seq<char>>,
    prefix: Seq<char>,
    except: Option<Seq<char>>,
) -> Seq<Seq<char>>
    decreases lines.len(),
{
    if lines.len() == 0 {
        seq![]
    } else {
        let before = all_behind(lines.drop_last(), prefix, except);
        match text::after_prefix(lines.last(), prefix) {
            Some(name) => if except == Some(name) {
                before
            } else {
                before.push(name)
            },
            None => before,
        }
    }
}

/// What stands behind `prefix` on each line of `output` that has it, but for
/// `except`.
fn names_behind(output: &str, prefix: &str, except: Option<&str>) -> (r: Vec<String>)
    ensures
        text::views(r@) == all_behind(
            text::lines(output@),
            prefix@,
            match except {
                Some(s) => Some(s@),
                None => None,
            },
        ),
{
    let ghost skipped = match except {
        Some(s) => Some(s@),
        None => None::<Seq<char>>,
    };
    let lines = text::lines_of(output);
    let ghost all = text::views(lines@);
    let mut out: Vec<String> = Vec::new();
    let mut i: usize = 0;
    assert(all.take(0) =~= seq![]);
    assert(text::views(out@) =~= seq![]);
    while i < lines.len()
        invariant
            i <= lines.len(),
            all == text::views(lines@),
            skipped == (match except {
                Some(s) => Some(s@),
                None => None,
            }),
            text::views(out@) == all_behind(all.take(i as int), prefix@, skipped),
        decreases lines.len() - i,
    {
        assert(all.take(i + 1).drop_last() =~= all.take(i as int));
        assert(all.take(i + 1).last() == lines@[i as int]@);
        match text::strip_prefix(lines[i].as_str(), prefix) {
            Some(name) => {
                let skip = match except {
                    Some(s) => text::same(name.as_str(), s),
                    None => false,
                };
                if !skip {
                    proof {
                        text::lemma_views_push(out@, name);
                    }
                    out.push(name);
                }
            },
            None => {},
        }
        i = i + 1;
    }
    assert(all.take(all.len() as int) =~= all);
    out
}

/// `r` holds the names that stand behind a prefix in a command's output.
pub open spec fn named(
    a: Result<Seq<char>, Seq<char>>,
    prefix: Seq<char>,
    except: Option<Seq<char>>,
    r: Result<Vec<String>, String>,
) -> bool {
    match a {
        Ok(out) => r is Ok && text::views(r->Ok_0@) == all_behind(text::lines(out), prefix, except),
        Err(e) => r is Err && r->Err_0@ == e,
    }
}

/// `r` holds the lines of a command's output.
pub open spec fn listed(a: Result<Seq<char>, Seq<char>>, r: Result<Vec<String>, String>) -> bool {
    match a {
        Ok(out) => r is Ok && text::views(r->Ok_0@) == text::lines(out),
        Err(e) => r is Err && r->Err_0@ == e,
    }
}

/// The commits that `target` has and `dir`'s HEAD has not were listed, newest first,
/// and are `r`.
pub open spec fn new_listed<R: Fn(Vec<String>) -> Ran>(
    before: Git<R>,
    after: Git<R>,
    dir: Seq<char>,
    target: Seq<char>,
    r: Result<Vec<String>, String>,
) -> bool {
    answered(
        before,
        after,
        dir,
        seq!["log"@, "--format=%h %s"@, "HEAD.."@ + target],
        |a: Result<Seq<char>, Seq<char>>| listed(a, r),
    )
}

/// The commits that `target` (e.g. `origin/main`) has and `dir`'s HEAD has not: the
/// short name and the subject of each, newest first.
pub fn new_commits<R: Fn(Vec<String>) -> Ran>(
    git: &mut Git<R>,
    dir: &str,
    target: &str,
) -> (r: Result<Vec<String>, String>)
    requires
        old(git).ready(),
    ensures
        new_listed(*old(git), *final(git), dir@, target@, r),
{
    let mut range = text::copy("HEAD..");
    range.append(target);
    let args = vec!["log", "--format=%h %s", range.as_str()];
    assert(text::str_views(args@) =~= seq!["log"@, "--format=%h %s"@, "HEAD.."@ + target@]);
    let out = output(git, dir, &args);
    let ghost a = seen(out);
    let r: Result<Vec<String>, String> = match out {
        Ok(out) => Ok(text::lines_of(out.as_str())),
        Err(e) => Err(e),
    };
    assert(listed(a, r));
    r
}

/// All local branch names.
pub fn list_local_branches<R: Fn(Vec<String>) -> Ran>(git: &mut Git<R>, repo: &str) -> (r: Result<
    Vec<String>,
    String,
>)
    requires
        old(git).ready(),
    ensures
        answered(
            *old(git),
            *final(git),
            repo@,
            seq!["for-each-ref"@, "refs/heads"@, "--format=%(refname)"@],
            |a: Result<Seq<char>, Seq<char>>| named(a, "refs/heads/"@, None, r),
        ),
{
    let args = vec!["for-each-ref", "refs/heads", "--format=%(refname)"];
    assert(text::str_views(args@) =~= seq![
        "for-each-ref"@,
        "refs/heads"@,
        "--format=%(refname)"@,
    ]);
    let out = output(git, repo, &args);
    let ghost a = seen(out);
    let r: Result<Vec<String>, String> = match out {
        Ok(out) => Ok(names_behind(out.as_str(), "refs/heads/", None)),
        Err(e) => Err(e),
    };
    assert(named(a, "refs/heads/"@, None, r));
    r
}

/// All branch names on origin, with the `origin/` prefix stripped and the
/// symbolic `origin/HEAD` skipped.
pub fn list_remote_branches<R: Fn(Vec<String>) -> Ran>(git: &mut Git<R>, repo: &str) -> (r: Result<
    Vec<String>,
    String,
>)
    requires
        old(git).ready(),
    ensures
        answered(
            *old(git),
            *final(git),
            repo@,
            seq!["for-each-ref"@, "refs/remotes/origin"@, "--format=%(refname)"@],
            |a: Result<Seq<char>, Seq<char>>| named(a, "refs/remotes/origin/"@, Some("HEAD"@), r),
        ),
{
    let args = vec!["for-each-ref", "refs/remotes/origin", "--format=%(refname)"];
    assert(text::str_views(args@) =~= seq![
        "for-each-ref"@,
        "refs/remotes/origin"@,
        "--format=%(refname)"@,
    ]);
    let out = output(git, repo, &args);
    let ghost a = seen(out);
    let r: Result<Vec<String>, String> = match out {
        Ok(out) => Ok(names_behind(out.as_str(), "refs/remotes/origin/", Some("HEAD"))),
        Err(e) => Err(e),
    };
    assert(named(a, "refs/remotes/origin/"@, Some("HEAD"@), r));
    r
}

/// The default branch, from what `origin/HEAD` stands for.
pub open spec fn default_of(a: Result<Seq<char>, Seq<char>>) -> Result<Seq<char>, Seq<char>> {
    match a {
        Ok(out) => match text::after_prefix(text::trim(out), "origin/"@) {
            Some(name) => Ok(name),
            None => Err("unexpected origin/HEAD form: `"@ + text::trim(out) + "`"@),
        },
        Err(e) => Err(e),
    }
}

/// The remote's default branch in `dir`, or why it is not known.
pub open spec fn default_named<R: Fn(Vec<String>) -> Ran>(
    before: Git<R>,
    after: Git<R>,
    dir: Seq<char>,
    d: Result<Seq<char>, Seq<char>>,
) -> bool {
    answered(
        before,
        after,
        dir,
        seq!["rev-parse"@, "--abbrev-ref"@, "origin/HEAD"@],
        |a: Result<Seq<char>, Seq<char>>| d == default_of(a),
    )
}

/// The default branch as `dir`'s remote knows it, derived from the `origin/HEAD`
/// symref (e.g. `main`). Local-only: no network, no GitHub API.
pub fn default_remote_branch<R: Fn(Vec<String>) -> Ran>(git: &mut Git<R>, dir: &str) -> (r: Result<
    String,
    String,
>)
    requires
        old(git).ready(),
    ensures
        default_named(*old(git), *final(git), dir@, seen(r)),
{
    let args = vec!["rev-parse", "--abbrev-ref", "origin/HEAD"];
    assert(text::str_views(args@) =~= seq!["rev-parse"@, "--abbrev-ref"@, "origin/HEAD"@]);
    let out = output(git, dir, &args);
    let ghost a = seen(out);
    let r: Result<String, String> = match out {
        Ok(out) => {
            let head = text::trimmed(out.as_str());
            match text::strip_prefix(head.as_str(), "origin/") {
                Some(name) => Ok(name),
                None => {
                    let mut s = text::copy("unexpected origin/HEAD form: `");
                    s.append(head.as_str());
                    s.append("`");
                    Err(s)
                },
            }
        },
        Err(e) => Err(e),
    };
    assert(seen(r) == default_of(a));
    r
}

/// Whether a trial merge conflicts. An exit of one with nothing printed means an
/// error, not a conflict.
pub open spec fn conflicts(o: Ran) -> Result<bool, Seq<char>> {
    match o {
        Ran::NotRun(e) => Err(NO_MERGE_TREE@ + e@),
        Ran::Exited { code, stdout_empty, stderr, .. } => if code == Some(0i32) {
            Ok(false)
        } else if code == Some(1i32) && !stdout_empty {
            Ok(true)
        } else {
            Err("`git merge-tree` failed:\n"@ + text::trim(stderr@))
        },
    }
}

pub const NO_MERGE_TREE: &'static str =
    "failed to run `git merge-tree` — is git installed and on PATH?: ";

/// A trial merge of `base` into HEAD was made in `dir`, and `r` says whether it
/// conflicts.
pub open spec fn tried<R: Fn(Vec<String>) -> Ran>(
    before: Git<R>,
    after: Git<R>,
    dir: Seq<char>,
    base: Seq<char>,
    r: Result<bool, String>,
) -> bool {
    exists|one: Git<R>, head: Option<Seq<char>>| #[trigger]
        resolved(before, one, dir, "HEAD"@, head) && (if head is None {
            r is Err && r->Err_0@ == "HEAD does not resolve in "@ + dir && after == one
        } else {
            exists|two: Git<R>, tip: Option<Seq<char>>| #[trigger]
                resolved(one, two, dir, base, tip) && (if tip is None {
                    r is Err && r->Err_0@ == "`"@ + base + "` does not resolve in "@ + dir && after
                        == two
                } else {
                    ended(
                        two,
                        after,
                        dir,
                        seq!["merge-tree"@, "--write-tree"@, "HEAD"@, base],
                        |o: Ran|
                            match conflicts(o) {
                                Ok(b) => r == Ok::<bool, String>(b),
                                Err(e) => r is Err && r->Err_0@ == e,
                            },
                    )
                })
        })
}

/// Whether merging `base` into the commit at `dir`'s HEAD would conflict. A
/// read-only trial merge: `git merge-tree --write-tree` writes a tree object but
/// never touches the index or working tree. Both revs are resolved first: the
/// trial exits alike for a conflict and for a rev that doesn't resolve.
pub fn would_conflict<R: Fn(Vec<String>) -> Ran>(
    git: &mut Git<R>,
    dir: &str,
    base: &str,
) -> (r: Result<bool, String>)
    requires
        old(git).ready(),
    ensures
        tried(*old(git), *final(git), dir@, base@, r),
{
    let head = rev_parse_ok(git, dir, "HEAD");
    let ghost head_seen = sha_seen(head);
    let ghost one = *git;
    assert(resolved(*old(git), one, dir@, "HEAD"@, head_seen));
    if head.is_none() {
        let mut s = text::copy("HEAD does not resolve in ");
        s.append(dir);
        return Err(s);
    }
    let tip = rev_parse_ok(git, dir, base);
    let ghost tip_seen = sha_seen(tip);
    let ghost two = *git;
    assert(resolved(one, two, dir@, base@, tip_seen));
    if tip.is_none() {
        let mut s = text::copy("`");
        s.append(base);
        s.append("` does not resolve in ");
        s.append(dir);
        return Err(s);
    }
    let args = vec!["merge-tree", "--write-tree", "HEAD", base];
    assert(text::str_views(args@) =~= seq!["merge-tree"@, "--write-tree"@, "HEAD"@, base@]);
    let o = start(git, dir, &args);
    let ghost outcome = o;
    assert(ran(two, *git, dir@, seq!["merge-tree"@, "--write-tree"@, "HEAD"@, base@], outcome));
    match o {
        Ran::NotRun(e) => {
            let mut s = text::copy(NO_MERGE_TREE);
            s.append(e.as_str());
            Err(s)
        },
        Ran::Exited { code, stdout: _, stdout_empty, stderr } => {
            let is_one = match code {
                Some(c) => c == 1,
                None => false,
            };
            if is_zero(code) {
                Ok(false)
            } else if is_one && !stdout_empty {
                Ok(true)
            } else {
                let mut s = text::copy("`git merge-tree` failed:\n");
                s.append(text::trimmed(stderr.as_str()).as_str());
                Err(s)
            }
        },
    }
}

/// A trial merge resolves the two revs and merges in memory.
pub proof fn lemma_tried_spares<R: Fn(Vec<String>) -> Ran>(
    before: Git<R>,
    after: Git<R>,
    dir: Seq<char>,
    base: Seq<char>,
    r: Result<bool, String>,
    unused: Seq<char>,
)
    requires
        tried(before, after, dir, base, r),
        unused != "rev-parse"@,
        unused != "merge-tree"@,
    ensures
        spared(before, after, unused),
        after.function() == before.function(),
{
    let (one, head) = choose|one: Git<R>, head: Option<Seq<char>>| #[trigger]
        resolved(before, one, dir, "HEAD"@, head) && (if head is None {
            r is Err && r->Err_0@ == "HEAD does not resolve in "@ + dir && after == one
        } else {
            exists|two: Git<R>, tip: Option<Seq<char>>| #[trigger]
                resolved(one, two, dir, base, tip) && (if tip is None {
                    r is Err && r->Err_0@ == "`"@ + base + "` does not resolve in "@ + dir && after
                        == two
                } else {
                    ended(
                        two,
                        after,
                        dir,
                        seq!["merge-tree"@, "--write-tree"@, "HEAD"@, base],
                        |o: Ran|
                            match conflicts(o) {
                                Ok(b) => r == Ok::<bool, String>(b),
                                Err(e) => r is Err && r->Err_0@ == e,
                            },
                    )
                })
        });
    lemma_resolved_spares(before, one, dir, "HEAD"@, head, unused);
    if head is Some {
        let (two, tip) = choose|two: Git<R>, tip: Option<Seq<char>>| #[trigger]
            resolved(one, two, dir, base, tip) && (if tip is None {
                r is Err && r->Err_0@ == "`"@ + base + "` does not resolve in "@ + dir && after
                    == two
            } else {
                ended(
                    two,
                    after,
                    dir,
                    seq!["merge-tree"@, "--write-tree"@, "HEAD"@, base],
                    |o: Ran|
                        match conflicts(o) {
                            Ok(b) => r == Ok::<bool, String>(b),
                            Err(e) => r is Err && r->Err_0@ == e,
                        },
                )
            });
        lemma_resolved_spares(one, two, dir, base, tip, unused);
        lemma_spared_joined(before, one, two, unused);
        if tip is Some {
            let words = seq!["merge-tree"@, "--write-tree"@, "HEAD"@, base];
            assert(words[0] == "merge-tree"@);
            let o = choose|o: Ran| #[trigger] ran(two, after, dir, words, o);
            lemma_ran_spares(two, after, dir, words, o, unused);
            lemma_spared_joined(before, two, after, unused);
        }
    }
}

/// Resolving a rev runs one command.
pub proof fn lemma_resolved_spares<R: Fn(Vec<String>) -> Ran>(
    before: Git<R>,
    after: Git<R>,
    dir: Seq<char>,
    rev: Seq<char>,
    commit: Option<Seq<char>>,
    unused: Seq<char>,
)
    requires
        resolved(before, after, dir, rev, commit),
        unused != "rev-parse"@,
    ensures
        spared(before, after, unused),
        after.function() == before.function(),
        after.calls().len() == before.calls().len() + 1,
{
    let words = seq!["rev-parse"@, "--verify"@, "--quiet"@, rev];
    assert(words[0] == "rev-parse"@);
    lemma_answered_spares(
        before,
        after,
        dir,
        words,
        |a: Result<Seq<char>, Seq<char>>|
            commit == match a {
                Ok(out) => Some(text::trim(out)),
                Err(_) => None,
            },
        unused,
    );
}

/// The commit in its mathematical form.
pub open spec fn sha_seen(r: Option<String>) -> Option<Seq<char>> {
    match r {
        Some(s) => Some(s@),
        None => None,
    }
}

/// `rev` was resolved in `dir`, and gave this commit.
pub open spec fn resolved<R: Fn(Vec<String>) -> Ran>(
    before: Git<R>,
    after: Git<R>,
    dir: Seq<char>,
    rev: Seq<char>,
    commit: Option<Seq<char>>,
) -> bool {
    answered(
        before, after,
        dir,
        seq!["rev-parse"@, "--verify"@, "--quiet"@, rev],
        |a: Result<Seq<char>, Seq<char>>|
            commit == match a {
                Ok(out) => Some(text::trim(out)),
                Err(_) => None,
            },
    )
}

/// The commit a rev points at, or `None` when it doesn't resolve.
pub fn rev_parse_ok<R: Fn(Vec<String>) -> Ran>(
    git: &mut Git<R>,
    repo: &str,
    rev: &str,
) -> (r: Option<String>)
    requires
        old(git).ready(),
    ensures
        resolved(*old(git), *final(git), repo@, rev@, sha_seen(r)),
{
    let args = vec!["rev-parse", "--verify", "--quiet", rev];
    assert(text::str_views(args@) =~= seq!["rev-parse"@, "--verify"@, "--quiet"@, rev@]);
    match output(git, repo, &args) {
        Ok(sha) => Some(text::trimmed(sha.as_str())),
        Err(_) => None,
    }
}

/// True if `ancestor` is an ancestor of (or equal to) `descendant`. Any failure
/// to prove ancestry (e.g. an unknown commit) reads as "no".
pub fn is_ancestor<R: Fn(Vec<String>) -> Ran>(
    git: &mut Git<R>,
    repo: &str,
    ancestor: &str,
    descendant: &str,
) -> (r: bool)
    requires
        old(git).ready(),
    ensures
        probed(*old(git), *final(git), repo@, seq!["merge-base"@, "--is-ancestor"@, ancestor@, descendant@], r),
{
    let args = vec!["merge-base", "--is-ancestor", ancestor, descendant];
    assert(text::str_views(args@) =~= seq![
        "merge-base"@,
        "--is-ancestor"@,
        ancestor@,
        descendant@,
    ]);
    git_ok(git, repo, &args)
}

/// Some line begins with two question marks.
pub open spec fn any_untracked(lines: Seq<Seq<char>>) -> bool {
    exists|i: int| 0 <= i < lines.len() && text::starts_with(#[trigger] lines[i], "??"@)
}

/// True if `dir`'s working tree contains untracked (and unignored) files.
pub fn has_untracked_files<R: Fn(Vec<String>) -> Ran>(git: &mut Git<R>, dir: &str) -> (r: Result<
    bool,
    String,
>)
    requires
        old(git).ready(),
    ensures
        found(
            *old(git),
            *final(git),
            dir@,
            seq!["status"@, "--porcelain"@],
            |out: Seq<char>| any_untracked(text::lines(out)),
            r,
        ),
{
    let args = vec!["status", "--porcelain"];
    assert(text::str_views(args@) =~= seq!["status"@, "--porcelain"@]);
    let out = output(git, dir, &args);
    let ghost a = seen(out);
    let r: Result<bool, String> = match out {
        Ok(out) => Ok(lists_untracked(out.as_str())),
        Err(e) => Err(e),
    };
    assert(judged(a, |out: Seq<char>| any_untracked(text::lines(out)), r));
    r
}

/// Whether `git status --porcelain` output lists untracked files.
fn lists_untracked(output: &str) -> (r: bool)
    ensures
        r == any_untracked(text::lines(output@)),
{
    let lines = text::lines_of(output);
    let mut i: usize = 0;
    while i < lines.len()
        invariant
            i <= lines.len(),
            text::views(lines@) == text::lines(output@),
            forall|k: int|
                0 <= k < i ==> !text::starts_with(#[trigger] text::lines(output@)[k], "??"@),
        decreases lines.len() - i,
    {
        assert(text::lines(output@)[i as int] == lines@[i as int]@);
        if text::has_prefix(lines[i].as_str(), "??") {
            return true;
        }
        i = i + 1;
    }
    false
}

/// Delete a local branch. The branch must not be checked out anywhere.
///
/// Uses `-D`: callers have already proven the content is merged, and `-d`'s own
/// merged-into-HEAD check doesn't understand squash merges.
pub fn delete_local_branch<R: Fn(Vec<String>) -> Ran>(
    git: &mut Git<R>,
    repo: &str,
    branch: &str,
) -> (r: Result<(), String>)
    requires
        old(git).ready(),
    ensures
        did(*old(git), *final(git), repo@, seq!["branch"@, "-D"@, branch@], r),
{
    let args = vec!["branch", "-D", branch];
    assert(text::str_views(args@) =~= seq!["branch"@, "-D"@, branch@]);
    perform(git, repo, &args)
}

/// Delete `branch` on origin.
pub fn delete_remote_branch<R: Fn(Vec<String>) -> Ran>(
    git: &mut Git<R>,
    repo: &str,
    branch: &str,
) -> (r: Result<(), String>)
    requires
        old(git).ready(),
    ensures
        did(*old(git), *final(git), repo@, seq!["push"@, "origin"@, "--delete"@, branch@], r),
{
    let args = vec!["push", "origin", "--delete", branch];
    assert(text::str_views(args@) =~= seq!["push"@, "origin"@, "--delete"@, branch@]);
    perform(git, repo, &args)
}

/// Remove a worktree. Git refuses when the worktree has tracked changes or
/// untracked files; this never forces.
pub fn remove_worktree<R: Fn(Vec<String>) -> Ran>(
    git: &mut Git<R>,
    repo: &str,
    path: &str,
) -> (r: Result<(), String>)
    requires
        old(git).ready(),
    ensures
        did(*old(git), *final(git), repo@, seq!["worktree"@, "remove"@, path@], r),
{
    let args = vec!["worktree", "remove", path];
    assert(text::str_views(args@) =~= seq!["worktree"@, "remove"@, path@]);
    perform(git, repo, &args)
}

/// The last line of a command's output, trimmed.
pub open spec fn last_line(out: Seq<char>) -> Option<Seq<char>> {
    if text::lines(out).len() == 0 {
        None
    } else {
        Some(text::trim(text::lines(out).last()))
    }
}

/// The commit that added `relpath` on the current history, or `None` when the
/// path was never added. When the path was added more than once (added, removed,
/// re-added), the oldest such commit is returned.
pub fn commit_that_added<R: Fn(Vec<String>) -> Ran>(
    git: &mut Git<R>,
    dir: &str,
    relpath: &str,
) -> (r: Result<Option<String>, String>)
    requires
        old(git).ready(),
    ensures
        answered(
            *old(git),
            *final(git),
            dir@,
            seq!["log"@, "--diff-filter=A"@, "--format=%H"@, "--"@, relpath@],
            |a: Result<Seq<char>, Seq<char>>| optional(a, |out: Seq<char>| last_line(out), r),
        ),
{
    let args = vec!["log", "--diff-filter=A", "--format=%H", "--", relpath];
    assert(text::str_views(args@) =~= seq![
        "log"@,
        "--diff-filter=A"@,
        "--format=%H"@,
        "--"@,
        relpath@,
    ]);
    let out = output(git, dir, &args);
    let ghost a = seen(out);
    let r: Result<Option<String>, String> = match out {
        Ok(out) => {
            let lines = text::lines_of(out.as_str());
            if lines.len() == 0 {
                assert(text::views(lines@).len() == 0);
                Ok(None)
            } else {
                assert(text::views(lines@).last() == lines@.last()@);
                Ok(Some(text::trimmed(lines[lines.len() - 1].as_str())))
            }
        },
        Err(e) => Err(e),
    };
    assert(optional(a, |out: Seq<char>| last_line(out), r));
    r
}

/// True if `range` (e.g. `A..HEAD`) contains any merge commit.
pub fn range_has_merges<R: Fn(Vec<String>) -> Ran>(
    git: &mut Git<R>,
    dir: &str,
    range: &str,
) -> (r: Result<bool, String>)
    requires
        old(git).ready(),
    ensures
        found(
            *old(git),
            *final(git),
            dir@,
            seq!["rev-list"@, "--merges"@, range@],
            |out: Seq<char>| text::trim(out).len() > 0,
            r,
        ),
{
    let args = vec!["rev-list", "--merges", range];
    assert(text::str_views(args@) =~= seq!["rev-list"@, "--merges"@, range@]);
    prints_something(git, dir, &args)
}

/// True if any commit in `range` touched `relpath`.
pub fn path_touched_in_range<R: Fn(Vec<String>) -> Ran>(
    git: &mut Git<R>,
    dir: &str,
    range: &str,
    relpath: &str,
) -> (r: Result<bool, String>)
    requires
        old(git).ready(),
    ensures
        found(
            *old(git),
            *final(git),
            dir@,
            seq!["rev-list"@, range@, "--"@, relpath@],
            |out: Seq<char>| text::trim(out).len() > 0,
            r,
        ),
{
    let args = vec!["rev-list", range, "--", relpath];
    assert(text::str_views(args@) =~= seq!["rev-list"@, range@, "--"@, relpath@]);
    prints_something(git, dir, &args)
}

/// Replay the commits after `upstream` onto `onto`, dropping `upstream` itself.
/// The caller is responsible for aborting on failure.
pub fn rebase_onto<R: Fn(Vec<String>) -> Ran>(
    git: &mut Git<R>,
    dir: &str,
    onto: &str,
    upstream: &str,
) -> (r: Result<(), String>)
    requires
        old(git).ready(),
    ensures
        did(*old(git), *final(git), dir@, seq!["rebase"@, "--onto"@, onto@, upstream@], r),
{
    let args = vec!["rebase", "--onto", onto, upstream];
    assert(text::str_views(args@) =~= seq!["rebase"@, "--onto"@, onto@, upstream@]);
    perform(git, dir, &args)
}

/// Abort an in-progress rebase, best-effort (used to clean up after a failed
/// [`rebase_onto`]).
pub fn rebase_abort<R: Fn(Vec<String>) -> Ran>(
    git: &mut Git<R>,
    dir: &str,
) -> (r: Result<(), String>)
    requires
        old(git).ready(),
    ensures
        did(*old(git), *final(git), dir@, seq!["rebase"@, "--abort"@], r),
{
    let args = vec!["rebase", "--abort"];
    assert(text::str_views(args@) =~= seq!["rebase"@, "--abort"@]);
    perform(git, dir, &args)
}

/// Force-push `branch` to origin, refusing to clobber unseen remote work.
pub fn force_push_with_lease<R: Fn(Vec<String>) -> Ran>(
    git: &mut Git<R>,
    dir: &str,
    branch: &str,
) -> (r: Result<(), String>)
    requires
        old(git).ready(),
    ensures
        did(*old(git), *final(git), dir@, seq!["push"@, "--force-with-lease"@, "origin"@, branch@], r),
{
    let args = vec!["push", "--force-with-lease", "origin", branch];
    assert(text::str_views(args@) =~= seq!["push"@, "--force-with-lease"@, "origin"@, branch@]);
    perform(git, dir, &args)
}

} // verus!
