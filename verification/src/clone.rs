//! Setting up the preferred layout by cloning: a container directory that holds
//! the bare repo, a generated config, and the worktrees.

use vstd::prelude::*;

use crate::git;
use crate::git::{Git, Ran};
use crate::github;
use crate::text;

verus! {

/// The clone URL for an `owner/repo` shorthand.
pub open spec fn url_of(protocol: Seq<char>, owner: Seq<char>, repo: Seq<char>) -> Seq<char> {
    (if protocol == "ssh"@ {
        "git@github.com:"@
    } else {
        "https://github.com/"@
    }) + owner + "/"@ + repo + ".git"@
}

/// The clone URL for an `owner/repo` shorthand: SSH when that's the user's
/// preferred protocol, HTTPS otherwise.
pub fn shorthand_url(protocol: &str, owner: &str, repo: &str) -> (r: String)
    ensures
        r@ == url_of(protocol@, owner@, repo@),
{
    let mut out = if text::same(protocol, "ssh") {
        text::copy("git@github.com:")
    } else {
        text::copy("https://github.com/")
    };
    out.append(owner);
    out.append("/");
    out.append(repo);
    out.append(".git");
    out
}

/// A URL-shaped argument.
pub open spec fn is_url(repo: Seq<char>) -> bool {
    text::contains(repo, "://"@) || text::starts_with(repo, "git@"@)
}

/// The owner and the name of an `owner/repo` shorthand, as it is written.
pub open spec fn shorthand(repo: Seq<char>) -> Option<(Seq<char>, Seq<char>)> {
    let at = text::index_of(repo, '/');
    let name = repo.skip(at + 1);
    if 0 < at < repo.len() && name.len() > 0 && text::index_of(name, '/') == name.len() {
        Some((repo.take(at), name))
    } else {
        None
    }
}

/// The clone URL and the repo's name, from the repository that the argument names
/// as a remote URL, if it does.
pub open spec fn resolved(
    repo: Seq<char>,
    protocol: Seq<char>,
    remote: Option<(Seq<char>, Seq<char>)>,
) -> Option<(Seq<char>, Seq<char>)> {
    if is_url(repo) {
        match remote {
            Some((_, name)) => Some((repo, name)),
            None => None,
        }
    } else {
        match shorthand(repo) {
            Some((owner, name)) => Some(
                (
                    url_of(protocol, owner, github::unsuffixed(name)),
                    github::unsuffixed(name),
                ),
            ),
            None => None,
        }
    }
}

/// What is said where an argument names no repo.
pub open spec fn unresolved(repo: Seq<char>) -> Seq<char> {
    if is_url(repo) {
        "`"@ + repo + "` is not a GitHub repository URL"@
    } else {
        "`"@ + repo + "` is not an `owner/repo` shorthand or a GitHub URL"@
    }
}

/// The clone URL and the repo's name, from the repository that the argument names
/// as a remote URL, if it does.
pub fn resolve_with(
    repo: &str,
    protocol: &str,
    remote: Option<(String, String)>,
) -> (r: Result<(String, String), String>)
    ensures
        ({
            let named = match remote {
                Some(found) => Some((found.0@, found.1@)),
                None => None,
            };
            match r {
                Ok(pair) => resolved(repo@, protocol@, named) == Some((pair.0@, pair.1@)),
                Err(e) => resolved(repo@, protocol@, named) is None && e@ == unresolved(repo@),
            }
        }),
{
    let mut e = text::copy("`");
    e.append(repo);
    if text::has(repo, "://") || text::has_prefix(repo, "git@") {
        return match remote {
            Some((_, name)) => Ok((text::copy(repo), name)),
            None => {
                e.append("` is not a GitHub repository URL");
                Err(e)
            },
        };
    }
    e.append("` is not an `owner/repo` shorthand or a GitHub URL");
    let v = text::chars(repo);
    assert(v@.skip(0) =~= v@);
    let at: usize = text::next_index(&v, '/', 0);
    if at == 0 || at == v.len() || at + 1 == v.len() {
        assert(at + 1 == v.len() ==> repo@.skip(at + 1).len() == 0);
        return Err(e);
    }
    let next: usize = text::next_index(&v, '/', at + 1);
    if next != v.len() {
        return Err(e);
    }
    let owner = text::slice(&v, 0, at);
    let name = text::slice(&v, at + 1, v.len());
    assert(owner@ =~= repo@.take(at as int));
    assert(name@ =~= repo@.skip(at + 1));
    let name = github::without_suffix(name.as_str());
    Ok((shorthand_url(protocol, owner.as_str(), name.as_str()), name))
}

/// Resolve the repo argument to a clone URL and the repo's name. A URL-shaped
/// argument is used verbatim; anything else is treated as `owner/repo` shorthand
/// and expanded with the given protocol.
pub fn resolve(repo: &str, protocol: &str) -> (r: Result<(String, String), String>)
    ensures
        ({
            let named = github::remote_of(repo@, github::parsed_url(repo@));
            match r {
                Ok(pair) => resolved(repo@, protocol@, named) == Some((pair.0@, pair.1@)),
                Err(e) => resolved(repo@, protocol@, named) is None && e@ == unresolved(repo@),
            }
        }),
{
    resolve_with(repo, protocol, github::parse_remote_url(repo))
}

/// What came of creating the container directory.
#[derive(Clone, Copy, Debug, PartialEq, Eq, Structural)]
pub enum Container {
    Created,
    /// It was there already: whether it is an empty directory.
    Exists { empty: bool },
}

/// Whether this run created the container directory, accepting an existing empty
/// directory (matching `git clone`'s rule).
pub fn create_container(container: &str, found: Container) -> (r: Result<bool, String>)
    ensures
        match found {
            Container::Created => r == Ok::<bool, String>(true),
            Container::Exists { empty: true } => r == Ok::<bool, String>(false),
            Container::Exists { empty: false } => r is Err && r->Err_0@ == "`"@ + container@
                + "` already exists and is not an empty directory"@,
        },
{
    match found {
        Container::Created => Ok(true),
        Container::Exists { empty } => {
            if empty {
                Ok(false)
            } else {
                let mut e = text::copy("`");
                e.append(container);
                e.append("` already exists and is not an empty directory");
                Err(e)
            }
        },
    }
}

/// Whether a failed run removes the container: only one that this run created, so
/// that a failed run leaves nothing half-built behind and takes nothing that was
/// there.
pub fn removes_container(created: bool, failed: bool) -> (r: bool)
    ensures
        r == (created && failed),
{
    created && failed
}

/// The path of the bare repo in its container.
pub fn bare_path(container: &str, name: &str) -> (r: String)
    ensures
        r@ == text::below(container@, name@ + ".git"@),
{
    let mut file = text::copy(name);
    file.append(".git");
    text::path_below(container, file.as_str())
}

/// The worktree of a branch in its container.
pub open spec fn worktree_in(container: Seq<char>, branch: Seq<char>) -> Seq<char> {
    text::below(text::below(container, "worktrees"@), branch)
}

/// The worktree of a branch in its container.
pub fn worktree_path(container: &str, branch: &str) -> (r: String)
    ensures
        r@ == worktree_in(container@, branch@),
{
    let worktrees = text::path_below(container, "worktrees");
    text::path_below(worktrees.as_str(), branch)
}

/// The arguments that clone a bare repo.
pub open spec fn clone_words(
    url: Seq<char>,
    dest: Seq<char>,
    reference: Option<&str>,
) -> Seq<Seq<char>> {
    match reference {
        Some(path) => seq![
            "clone"@,
            "--bare"@,
            "--single-branch"@,
            "--reference"@,
            path@,
            "--dissociate"@,
            url,
            dest,
        ],
        None => seq!["clone"@, "--bare"@, "--single-branch"@, url, dest],
    }
}

/// The bare repo was cloned, and `c` is how it went.
pub open spec fn cloned<R: Fn(Vec<String>) -> Ran>(
    before: Git<R>,
    after: Git<R>,
    bare: Seq<char>,
    url: Seq<char>,
    reference: Option<&str>,
    c: Result<(), String>,
) -> bool {
    git::did(before, after, "."@, clone_words(url, bare, reference), c)
}

/// Clone the bare repo, and once it is there make its remote behave like a normal
/// clone's.
pub fn populate<R: Fn(Vec<String>) -> Ran>(
    git: &mut Git<R>,
    bare: &str,
    url: &str,
    reference: Option<&str>,
) -> (r: Result<(), String>)
    requires
        old(git).ready(),
    ensures
        exists|mid: Git<R>, c: Result<(), String>| #[trigger]
            cloned(*old(git), mid, bare@, url@, reference, c) && match c {
                Err(e) => *final(git) == mid && r == Err::<(), String>(e),
                Ok(_) => git::set_up(mid, *final(git), bare@, r),
            },
{
    let made = git::clone_bare(git, url, bare, reference);
    assert(cloned(*old(git), *git, bare@, url@, reference, made));
    if made.is_err() {
        return made;
    }
    git::setup_conventional_remote(git, bare)
}

/// The default branch was checked out, where it could be told.
pub open spec fn checked_out<R: Fn(Vec<String>) -> Ran>(
    before: Git<R>,
    after: Git<R>,
    container: Seq<char>,
    bare: Seq<char>,
    default: Result<Seq<char>, Seq<char>>,
    r: Result<String, String>,
) -> bool {
    match default {
        Err(e) => r is Err && r->Err_0@ == e && after == before,
        Ok(default) => {
            let words = seq!["worktree"@, "add"@, worktree_in(container, default), default];
            match r {
                Ok(branch) => branch@ == default && git::did(
                    before,
                    after,
                    bare,
                    words,
                    Ok::<(), String>(()),
                ),
                Err(e) => git::did(before, after, bare, words, Err::<(), String>(e)),
            }
        },
    }
}

/// Check out the default branch into `worktrees/<default>`, so a fresh clone has a
/// ready place to view and update the default branch. Returns the default branch.
pub fn try_create_default_worktree<R: Fn(Vec<String>) -> Ran>(
    git: &mut Git<R>,
    container: &str,
    bare: &str,
) -> (r: Result<String, String>)
    requires
        old(git).ready(),
    ensures
        exists|mid: Git<R>, default: Result<Seq<char>, Seq<char>>| #[trigger]
            git::default_named(*old(git), mid, bare@, default) && checked_out(
                mid,
                *final(git),
                container@,
                bare@,
                default,
                r,
            ),
{
    let found = git::default_remote_branch(git, bare);
    let ghost mid = *git;
    let ghost named = git::seen(found);
    assert(git::default_named(*old(git), mid, bare@, named));
    let default = match found {
        Ok(default) => default,
        Err(e) => {
            let failed: Result<String, String> = Err(e);
            assert(checked_out(mid, *git, container@, bare@, named, failed));
            return failed;
        },
    };
    let path = worktree_path(container, default.as_str());
    let added = git::add_worktree_for_branch(git, bare, path.as_str(), default.as_str());
    let ghost outcome = added;
    let r: Result<String, String> = match added {
        Ok(_) => {
            assert(outcome->Ok_0 == ());
            Ok(default)
        },
        Err(e) => {
            assert(outcome == Err::<(), String>(e));
            Err(e)
        },
    };
    assert(checked_out(mid, *git, container@, bare@, named, r));
    r
}

/// The generated `ghwf.toml`: essentials only. `ghwf config init` offers the
/// extras.
pub fn config_text(name: &str) -> (r: String)
    ensures
        r@ == "main_repo = \""@ + name@ + ".git\"\nworktrees_dir = \"worktrees\"\n"@,
{
    let mut out = text::copy("main_repo = \"");
    out.append(name);
    out.append(".git\"\nworktrees_dir = \"worktrees\"\n");
    out
}

pub const LAYOUT: &'static str =
    "- `ghwf.toml` — the essentials (`main_repo`, `worktrees_dir`)\n- `worktrees/` — per-issue worktrees are created here\n";

pub const NEXT_STEPS: &'static str =
    "`\n- `ghwf config init` to set up the optional extras (priority labels, PR instructions, workflow status labels)\n- `ghwf work-on <issue>` (or `ghwf next`) to start working\n";

/// The line for the checkout of the default branch, where there is one.
pub open spec fn default_line(default: Option<&str>) -> Seq<char> {
    match default {
        Some(default) => "  - `"@ + default@
            + "/` — a checkout of the default branch, ready to use\n"@,
        None => ""@,
    }
}

/// The line for the checkout of the default branch, where there is one.
pub fn describe_default(default: Option<&str>) -> (r: String)
    ensures
        r@ == default_line(default),
{
    match default {
        Some(default) => {
            let mut s = text::copy("  - `");
            s.append(default);
            s.append("/` — a checkout of the default branch, ready to use\n");
            s
        },
        None => text::copy(""),
    }
}

/// Describe the created layout and what to do next. `default_worktree` is the
/// default branch when its worktree was created under `worktrees/`.
pub fn report(container: &str, name: &str, default_worktree: Option<&str>) -> (r: String)
    ensures
        r@ == "Created ghwf's preferred layout in `"@ + container@ + "`:\n- `"@ + name@
            + ".git` — the bare repo\n"@ + LAYOUT@ + default_line(default_worktree)
            + "\nNext steps:\n- `cd "@ + container@ + NEXT_STEPS@,
{
    let mut out = text::copy("Created ghwf's preferred layout in `");
    out.append(container);
    out.append("`:\n- `");
    out.append(name);
    out.append(".git` — the bare repo\n");
    out.append(LAYOUT);
    out.append(describe_default(default_worktree).as_str());
    out.append("\nNext steps:\n- `cd ");
    out.append(container);
    out.append(NEXT_STEPS);
    out
}

} // verus!
