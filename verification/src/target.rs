//! Which issue a command acts on: the argument given, the session's own issue,
//! and the guard between them.

use vstd::prelude::*;

use crate::github::{self, RepoRef};
use crate::text;

verus! {

/// A bare number anchored to the repository of the bound issue.
pub open spec fn anchored(
    arg: Seq<char>,
    bound: Option<(Seq<char>, Seq<char>)>,
) -> Option<Seq<char>> {
    match bound {
        Some((owner, repo)) => if text::parse(arg) is Some {
            Some(github::issue_url(owner, repo, arg))
        } else {
            None
        },
        None => None,
    }
}

/// What is bound, as the URL crate makes of it.
pub open spec fn bound_repo(bound: Option<Seq<char>>) -> Option<(Seq<char>, Seq<char>)> {
    match bound {
        Some(url) => github::owner_repo(github::parsed_url(url)),
        None => None,
    }
}

/// Anchor a bare issue number to a repository.
pub fn anchor_number(arg: &str, bound: Option<RepoRef>) -> (r: Option<String>)
    ensures
        match r {
            Some(url) => anchored(
                arg@,
                match bound {
                    Some(repo) => Some((repo.0@, repo.1@)),
                    None => None,
                },
            ) == Some(url@),
            None => anchored(
                arg@,
                match bound {
                    Some(repo) => Some((repo.0@, repo.1@)),
                    None => None,
                },
            ) is None,
        },
{
    if text::parse_number(arg).is_none() {
        return None;
    }
    match bound {
        None => None,
        Some((owner, repo)) => {
            let mut out = text::copy("https://github.com/");
            out.append(owner.as_str());
            out.append("/");
            out.append(repo.as_str());
            out.append("/issues/");
            out.append(arg);
            Some(out)
        },
    }
}

/// Anchor a bare issue number to the bound issue's repo.
///
/// Given the bound issue (`bound`, a URL), rewrite a bare number into that
/// repo's issue URL so it can't resolve against the repository the working
/// directory happens to be a checkout of. Returns `None`, which leaves the
/// argument untouched, when it isn't a bare number, there's no bound issue, or
/// the bound value can't be parsed.
pub fn qualify_bare_number(arg: &str, bound: Option<&str>) -> (r: Option<String>)
    ensures
        match r {
            Some(url) => anchored(
                arg@,
                bound_repo(
                    match bound {
                        Some(b) => Some(b@),
                        None => None,
                    },
                ),
            ) == Some(url@),
            None => anchored(
                arg@,
                bound_repo(
                    match bound {
                        Some(b) => Some(b@),
                        None => None,
                    },
                ),
            ) is None,
        },
{
    let repo = match bound {
        Some(b) => github::parse_owner_repo(b),
        None => None,
    };
    anchor_number(arg, repo)
}

/// A URL, and any other text that is no number, is never rewritten.
pub proof fn only_numbers_are_anchored(arg: Seq<char>, bound: Option<(Seq<char>, Seq<char>)>)
    requires
        text::parse(arg) is None,
    ensures
        anchored(arg, bound) is None,
{
}

/// Which issue argument a command uses: the one given, with a bare number
/// anchored to the inferred issue's repo; else the inferred one; else none.
pub fn choose_issue_arg(arg: Option<String>, inferred: Option<String>) -> (r: Option<String>)
    ensures
        match arg {
            Some(given) => r is Some && match anchored(
                given@,
                bound_repo(
                    match inferred {
                        Some(b) => Some(b@),
                        None => None,
                    },
                ),
            ) {
                Some(url) => r->0@ == url,
                None => r->0@ == given@,
            },
            None => r == inferred,
        },
{
    match arg {
        Some(arg) => {
            let qualified = match &inferred {
                Some(b) => qualify_bare_number(arg.as_str(), Some(b.as_str())),
                None => qualify_bare_number(arg.as_str(), None),
            };
            match qualified {
                Some(url) => Some(url),
                None => Some(arg),
            }
        },
        None => inferred,
    }
}

/// Whether a command may act on `target`: it is the bound issue, or there is
/// nothing to compare it with.
pub open spec fn allowed(
    target: Option<(Seq<char>, Seq<char>, u64)>,
    bound: Option<(Seq<char>, Seq<char>, u64)>,
) -> bool {
    bound is None || target == bound
}

/// Why a command is refused.
pub open spec fn refusal(
    target: Option<(Seq<char>, Seq<char>, u64)>,
    bound: (Seq<char>, Seq<char>, u64),
) -> Seq<char> {
    "explicit target "@ + (match target {
        Some((owner, repo, number)) => "`"@ + owner + "/"@ + repo + "#"@ + text::decimal(
            number as nat,
        ) + "`"@,
        None => "a thread with no recorded ghwf workflow"@,
    }) + " does not match this session's issue `"@ + bound.0 + "/"@ + bound.1 + "#"@
        + text::decimal(bound.2 as nat) + REFUSAL_END@
}

pub const REFUSAL_END: &'static str =
    "`; in-session commands act on the bound \
     issue — omit the argument, or pass the bound issue's URL or number.";

pub open spec fn target_view(target: Option<(&str, &str, u64)>) -> Option<
    (Seq<char>, Seq<char>, u64),
> {
    match target {
        Some((owner, repo, number)) => Some((owner@, repo@, number)),
        None => None,
    }
}

pub open spec fn bound_view(bound: Option<(String, String, u64)>) -> Option<
    (Seq<char>, Seq<char>, u64),
> {
    match bound {
        Some((owner, repo, number)) => Some((owner@, repo@, number)),
        None => None,
    }
}

/// Compare the target with the bound issue.
pub fn check_target(target: Option<(&str, &str, u64)>, bound: Option<(String, String, u64)>) -> (r:
    Result<(), String>)
    ensures
        r is Ok <==> allowed(target_view(target), bound_view(bound)),
        r matches Err(e) ==> bound is Some && e@ == refusal(
            target_view(target),
            bound_view(bound)->0,
        ),
{
    match bound {
        None => Ok(()),
        Some((b_owner, b_repo, b_number)) => {
            let desc = match target {
                Some((owner, repo, number)) => {
                    if text::same(owner, b_owner.as_str()) && text::same(repo, b_repo.as_str())
                        && number == b_number {
                        return Ok(());
                    }
                    let mut s = text::copy("`");
                    s.append(owner);
                    s.append("/");
                    s.append(repo);
                    s.append("#");
                    s.append(text::number(number).as_str());
                    s.append("`");
                    s
                },
                None => text::copy("a thread with no recorded ghwf workflow"),
            };
            let mut out = text::copy("explicit target ");
            out.append(desc.as_str());
            out.append(" does not match this session's issue `");
            out.append(b_owner.as_str());
            out.append("/");
            out.append(b_repo.as_str());
            out.append("#");
            out.append(text::number(b_number).as_str());
            out.append(REFUSAL_END);
            Err(out)
        },
    }
}

/// The issue that is bound, as the URL crate makes of it.
pub open spec fn bound_issue(bound: Option<Seq<char>>) -> Option<(Seq<char>, Seq<char>, u64)> {
    match bound {
        Some(url) => github::issue_of(url, github::parsed_url(url)),
        None => None,
    }
}

/// Guard against an in-session command acting on a thread outside the bound
/// issue's workflow.
///
/// `target` is the workflow issue the command resolved to act on (a PR thread is
/// already mapped back to its issue), or `None` when the named thread is not a
/// tracked workflow at all. `bound` is the bound issue's URL. A no-op when there
/// is no bound issue or it can't be parsed; otherwise the two must name the same
/// issue or the command is refused.
pub fn ensure_target_matches_bound(
    target: Option<(&str, &str, u64)>,
    bound: Option<&str>,
) -> (r: Result<(), String>)
    ensures
        r is Ok <==> allowed(
            target_view(target),
            bound_issue(
                match bound {
                    Some(b) => Some(b@),
                    None => None,
                },
            ),
        ),
        r matches Err(e) ==> bound is Some && e@ == refusal(
            target_view(target),
            bound_issue(Some(bound->0@))->0,
        ),
{
    let parsed = match bound {
        Some(b) => github::parse_issue_url(b),
        None => None,
    };
    check_target(target, parsed)
}

/// `s` in upper case, as `str::to_uppercase` writes it.
pub uninterp spec fn uppercase(s: Seq<char>) -> Seq<char>;

/// `str::to_uppercase`: the result is determined by the text alone. The case
/// mapping itself is Unicode's, and is left to std.
#[verifier::external_body]
fn upper(s: &str) -> (r: String)
    ensures
        r@ == uppercase(s@),
{
    s.to_uppercase()
}

/// The line that names a target, with its title and its state in capitals where
/// they are known.
pub open spec fn target_text(
    owner: Seq<char>,
    repo: Seq<char>,
    number: nat,
    title_state: Option<(Seq<char>, Seq<char>)>,
) -> Seq<char> {
    let identity = "→ "@ + owner + "/"@ + repo + "#"@ + text::decimal(number);
    match title_state {
        Some((title, capitals)) => identity + " \""@ + title + "\" ("@ + capitals + ")"@,
        None => identity,
    }
}

/// The line that names a target. The state is given in capitals.
pub fn target_line(owner: &str, repo: &str, number: u64, title_state: Option<(&str, &str)>) -> (r:
    String)
    ensures
        r@ == target_text(
            owner@,
            repo@,
            number as nat,
            match title_state {
                Some((title, capitals)) => Some((title@, capitals@)),
                None => None,
            },
        ),
{
    let mut out = text::copy("→ ");
    out.append(owner);
    out.append("/");
    out.append(repo);
    out.append("#");
    out.append(text::number(number).as_str());
    if let Some((title, capitals)) = title_state {
        out.append(" \"");
        out.append(title);
        out.append("\" (");
        out.append(capitals);
        out.append(")");
    }
    out
}

/// Format the one-line resolved-target banner printed before a mutation.
/// `title_state` carries the issue's title and state when a fetch succeeded;
/// absent, the line degrades to just the identity.
pub fn format_target_line(
    owner: &str,
    repo: &str,
    number: u64,
    title_state: Option<(&str, &str)>,
) -> (r: String)
    ensures
        r@ == target_text(
            owner@,
            repo@,
            number as nat,
            match title_state {
                Some((title, state)) => Some((title@, uppercase(state@))),
                None => None,
            },
        ),
{
    match title_state {
        Some((title, state)) => {
            let capitals = upper(state);
            target_line(owner, repo, number, Some((title, capitals.as_str())))
        },
        None => target_line(owner, repo, number, None),
    }
}

} // verus!
