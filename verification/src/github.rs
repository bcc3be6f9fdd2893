//! Where an issue lives: issue arguments, GitHub URLs and API endpoints.

use vstd::prelude::*;

use crate::text;

verus! {

/// A repository: its owner and its name.
pub type RepoRef = (String, String);

/// What is read of a URL: its host, where it has one, and its path.
pub struct UrlParts {
    pub host: Option<String>,
    pub path: String,
}

/// The host and the path of a URL text, as the `url` crate parses it; nothing
/// where it does not.
pub uninterp spec fn parsed_url(input: Seq<char>) -> Option<(Option<Seq<char>>, Seq<char>)>;

/// What [`UrlParts`] say.
pub open spec fn parts_view(parts: Option<UrlParts>) -> Option<(Option<Seq<char>>, Seq<char>)> {
    match parts {
        Some(parts) => Some(
            (
                match parts.host {
                    Some(host) => Some(host@),
                    None => None,
                },
                parts.path@,
            ),
        ),
        None => None,
    }
}

/// `url::Url::parse`, with the parsed URL read by `host_str` and `path`: the
/// outcome is determined by the text alone. Which texts parse, and to what, is
/// left to the crate.
#[verifier::external_body]
fn parse_url(input: &str) -> (r: Option<UrlParts>)
    ensures
        parts_view(r) == parsed_url(input@),
{
    match url::Url::parse(input) {
        Ok(url) => Some(UrlParts {
            host: url.host_str().map(str::to_owned),
            path: url.path().to_owned(),
        }),
        Err(_) => None,
    }
}

/// Why an argument names no issue.
#[derive(Clone, Copy, Debug, PartialEq, Eq, Structural)]
pub enum EndpointError {
    /// Neither an issue number nor a valid URL.
    NotAUrl,
    /// Not a URL of github.com.
    OtherHost,
    /// A URL without a path.
    NoPath,
    /// Not of the form `owner/repo/issues/number`.
    OtherForm,
}

/// The parts of `s` that are not empty.
pub open spec fn non_empty(parts: Seq<Seq<char>>) -> Seq<Seq<char>>
    decreases parts.len(),
{
    if parts.len() == 0 {
        seq![]
    } else {
        let before = non_empty(parts.drop_last());
        if parts.last().len() == 0 {
            before
        } else {
            before.push(parts.last())
        }
    }
}

/// The segments of a path that begins with a slash, without the empty ones.
pub open spec fn segments(path: Seq<char>) -> Option<Seq<Seq<char>>> {
    match text::after_prefix(path, "/"@) {
        Some(rest) => Some(non_empty(text::split(rest, '/'))),
        None => None,
    }
}

/// The segments of a path.
fn segments_of(path: &str) -> (r: Option<Vec<String>>)
    ensures
        match r {
            Some(v) => segments(path@) == Some(text::views(v@)),
            None => segments(path@) is None,
        },
{
    match text::strip_prefix(path, "/") {
        None => None,
        Some(rest) => {
            let parts = text::split_on(rest.as_str(), '/');
            let ghost all = text::views(parts@);
            let mut out: Vec<String> = Vec::new();
            let mut i: usize = 0;
            assert(all.take(0) =~= seq![]);
            assert(text::views(out@) =~= seq![]);
            while i < parts.len()
                invariant
                    i <= parts.len(),
                    all == text::views(parts@),
                    text::views(out@) == non_empty(all.take(i as int)),
                decreases parts.len() - i,
            {
                assert(all.take(i + 1).drop_last() =~= all.take(i as int));
                assert(all.take(i + 1).last() == parts@[i as int]@);
                if !parts[i].as_str().is_empty() {
                    let ghost before = out@;
                    let part = text::copy(parts[i].as_str());
                    out.push(part);
                    proof {
                        text::lemma_views_push(before, part);
                    }
                }
                i = i + 1;
            }
            assert(all.take(all.len() as int) =~= all);
            Some(out)
        },
    }
}

/// The endpoint of an issue, from what the URL crate makes of the argument.
pub open spec fn endpoint(
    arg: Seq<char>,
    url: Option<(Option<Seq<char>>, Seq<char>)>,
) -> Result<Seq<char>, EndpointError> {
    if text::parse(arg) is Some {
        Ok("repos/{owner}/{repo}/issues/"@ + arg)
    } else {
        match url {
            None => Err(EndpointError::NotAUrl),
            Some((host, path)) => if host != Some("github.com"@) {
                Err(EndpointError::OtherHost)
            } else {
                match segments(path) {
                    None => Err(EndpointError::NoPath),
                    Some(s) => if s.len() == 4 && s[2] == "issues"@ && text::parse(s[3]) is Some {
                        Ok("repos/"@ + s[0] + "/"@ + s[1] + "/issues/"@ + s[3])
                    } else {
                        Err(EndpointError::OtherForm)
                    },
                }
            },
        }
    }
}

/// Whether the host is github.com.
fn on_github(host: &Option<String>) -> (r: bool)
    ensures
        r == (host is Some && host->0@ == "github.com"@),
{
    match host {
        Some(host) => text::same(host.as_str(), "github.com"),
        None => false,
    }
}

/// The endpoint of an issue, from what the URL crate makes of the argument.
pub fn endpoint_of(arg: &str, url: Option<UrlParts>) -> (r: Result<String, EndpointError>)
    ensures
        match r {
            Ok(path) => endpoint(arg@, parts_view(url)) == Ok::<Seq<char>, EndpointError>(path@),
            Err(e) => endpoint(arg@, parts_view(url)) == Err::<Seq<char>, EndpointError>(e),
        },
{
    if text::parse_number(arg).is_some() {
        let mut out = text::copy("repos/{owner}/{repo}/issues/");
        out.append(arg);
        return Ok(out);
    }
    match url {
        None => Err(EndpointError::NotAUrl),
        Some(parts) => {
            if !on_github(&parts.host) {
                return Err(EndpointError::OtherHost);
            }
            match segments_of(parts.path.as_str()) {
                None => Err(EndpointError::NoPath),
                Some(s) => {
                    assert(text::views(s@).len() == s@.len());
                    if s.len() == 4 && text::same(s[2].as_str(), "issues") && text::parse_number(
                        s[3].as_str(),
                    ).is_some() {
                        let mut out = text::copy("repos/");
                        out.append(s[0].as_str());
                        out.append("/");
                        out.append(s[1].as_str());
                        out.append("/issues/");
                        out.append(s[3].as_str());
                        Ok(out)
                    } else {
                        Err(EndpointError::OtherForm)
                    }
                },
            }
        },
    }
}

/// Resolve an issue argument to an issues endpoint path.
///
/// A bare number is left to be resolved against the current repo by the
/// `{owner}`/`{repo}` placeholders; a full URL is parsed into owner, repo and
/// number.
pub fn issue_endpoint(arg: &str) -> (r: Result<String, EndpointError>)
    ensures
        match r {
            Ok(path) => endpoint(arg@, parsed_url(arg@)) == Ok::<Seq<char>, EndpointError>(path@),
            Err(e) => endpoint(arg@, parsed_url(arg@)) == Err::<Seq<char>, EndpointError>(e),
        },
{
    let url = parse_url(arg);
    endpoint_of(arg, url)
}

/// The owner and the repository of a GitHub URL, from what the URL crate makes
/// of it.
pub open spec fn owner_repo(
    url: Option<(Option<Seq<char>>, Seq<char>)>,
) -> Option<(Seq<char>, Seq<char>)> {
    match url {
        Some((Some(host), path)) => match segments(path) {
            Some(s) => if host == "github.com"@ && s.len() >= 2 {
                Some((s[0], s[1]))
            } else {
                None
            },
            None => None,
        },
        _ => None,
    }
}

/// The owner and the repository of a GitHub URL, from what the URL crate makes
/// of it.
pub fn owner_repo_of(url: Option<UrlParts>) -> (r: Option<RepoRef>)
    ensures
        match r {
            Some(repo) => owner_repo(parts_view(url)) == Some((repo.0@, repo.1@)),
            None => owner_repo(parts_view(url)) is None,
        },
{
    match url {
        None => None,
        Some(parts) => {
            if !on_github(&parts.host) {
                return None;
            }
            match segments_of(parts.path.as_str()) {
                None => None,
                Some(s) => {
                    assert(text::views(s@).len() == s@.len());
                    if s.len() >= 2 {
                        Some((text::copy(s[0].as_str()), text::copy(s[1].as_str())))
                    } else {
                        None
                    }
                },
            }
        },
    }
}

/// The owner and the repository that a GitHub URL names.
pub fn parse_owner_repo(url: &str) -> (r: Option<RepoRef>)
    ensures
        match r {
            Some(repo) => owner_repo(parsed_url(url@)) == Some((repo.0@, repo.1@)),
            None => owner_repo(parsed_url(url@)) is None,
        },
{
    owner_repo_of(parse_url(url))
}

/// The last segment of `s`: what follows its last slash.
pub open spec fn last_segment(s: Seq<char>) -> Seq<char> {
    text::split(s, '/').last()
}

/// The owner, the repository and the number of an issue URL, from what the URL
/// crate makes of it.
pub open spec fn issue_of(
    text: Seq<char>,
    url: Option<(Option<Seq<char>>, Seq<char>)>,
) -> Option<(Seq<char>, Seq<char>, u64)> {
    match (owner_repo(url), text::parse(last_segment(text))) {
        (Some((owner, repo)), Some(number)) => Some((owner, repo, number)),
        _ => None,
    }
}

/// The owner, the repository and the number of an issue URL, from what the URL
/// crate makes of it.
pub fn issue_named(text: &str, url: Option<UrlParts>) -> (r: Option<(String, String, u64)>)
    ensures
        match r {
            Some(named) => issue_of(text@, parts_view(url)) == Some((named.0@, named.1@, named.2)),
            None => issue_of(text@, parts_view(url)) is None,
        },
{
    let parts = text::split_on(text, '/');
    proof {
        text::lemma_index_of_bounds(text@, '/');
        assert(text::views(parts@).len() > 0);
        assert(text::views(parts@).last() == parts@.last()@);
    }
    let number = text::parse_number(parts[parts.len() - 1].as_str());
    match (owner_repo_of(url), number) {
        (Some((owner, repo)), Some(number)) => Some((owner, repo, number)),
        _ => None,
    }
}

/// Parse an issue (or PR) URL into its owner, repository and number: the number
/// is the final path segment. Returns `None` when the value isn't a URL all
/// three can be read from.
pub fn parse_issue_url(url: &str) -> (r: Option<(String, String, u64)>)
    ensures
        match r {
            Some(named) => issue_of(url@, parsed_url(url@)) == Some(
                (named.0@, named.1@, named.2),
            ),
            None => issue_of(url@, parsed_url(url@)) is None,
        },
{
    issue_named(url, parse_url(url))
}

/// The URL of an issue.
pub open spec fn issue_url(owner: Seq<char>, repo: Seq<char>, number: Seq<char>) -> Seq<char> {
    "https://github.com/"@ + owner + "/"@ + repo + "/issues/"@ + number
}

/// The URL of issue `number` of a repository.
pub fn url_of_issue(owner: &str, repo: &str, number: u64) -> (r: String)
    ensures
        r@ == issue_url(owner@, repo@, text::decimal(number as nat)),
{
    let mut out = text::copy("https://github.com/");
    out.append(owner);
    out.append("/");
    out.append(repo);
    out.append("/issues/");
    out.append(text::number(number).as_str());
    out
}

/// The URL of a PR.
pub open spec fn pr_url(owner: Seq<char>, repo: Seq<char>, number: nat) -> Seq<char> {
    "https://github.com/"@ + owner + "/"@ + repo + "/pull/"@ + text::decimal(number)
}

/// The URL of PR `number` of a repository.
pub fn url_of_pr(owner: &str, repo: &str, number: u64) -> (r: String)
    ensures
        r@ == pr_url(owner@, repo@, number as nat),
{
    let mut out = text::copy("https://github.com/");
    out.append(owner);
    out.append("/");
    out.append(repo);
    out.append("/pull/");
    out.append(text::number(number).as_str());
    out
}

/// The repository that a remote URL names: the short SSH form or a URL of
/// github.com, from what the URL crate makes of it. A `.git` suffix is not part of
/// the name.
pub open spec fn remote_of(
    remote: Seq<char>,
    url: Option<(Option<Seq<char>>, Seq<char>)>,
) -> Option<(Seq<char>, Seq<char>)> {
    let parts = match text::after_prefix(remote, "git@github.com:"@) {
        Some(rest) => Some(non_empty(text::split(rest, '/'))),
        None => match url {
            Some((Some(host), path)) => if host == "github.com"@ {
                segments(path)
            } else {
                None
            },
            _ => None,
        },
    };
    match parts {
        Some(s) => if s.len() == 2 && unsuffixed(s[1]).len() > 0 {
            Some((s[0], unsuffixed(s[1])))
        } else {
            None
        },
        None => None,
    }
}

/// The name without a `.git` suffix.
pub open spec fn unsuffixed(name: Seq<char>) -> Seq<char> {
    match text::before_suffix(name, ".git"@) {
        Some(stem) => stem,
        None => name,
    }
}

/// The name without a `.git` suffix.
pub fn without_suffix(name: &str) -> (r: String)
    ensures
        r@ == unsuffixed(name@),
{
    match text::strip_suffix(name, ".git") {
        Some(stem) => stem,
        None => text::copy(name),
    }
}

/// The repository that a remote URL names, from what the URL crate makes of it.
pub fn remote_repo(remote: &str, url: Option<UrlParts>) -> (r: Option<RepoRef>)
    ensures
        match r {
            Some(repo) => remote_of(remote@, parts_view(url)) == Some((repo.0@, repo.1@)),
            None => remote_of(remote@, parts_view(url)) is None,
        },
{
    let parts = match text::strip_prefix(remote, "git@github.com:") {
        Some(rest) => {
            let mut path = text::copy("/");
            path.append(rest.as_str());
            proof {
                reveal_strlit("/");
                assert(text::starts_with(path@, "/"@)) by {
                    assert(path@.subrange(0, 1) =~= "/"@);
                }
                assert(path@.skip(1) =~= rest@);
            }
            segments_of(path.as_str())
        },
        None => match url {
            Some(parts) => {
                if on_github(&parts.host) {
                    segments_of(parts.path.as_str())
                } else {
                    None
                }
            },
            None => None,
        },
    };
    match parts {
        Some(s) => {
            assert(text::views(s@).len() == s@.len());
            if s.len() != 2 {
                return None;
            }
            let name = without_suffix(s[1].as_str());
            if name.as_str().is_empty() {
                return None;
            }
            Some((text::copy(s[0].as_str()), name))
        },
        None => None,
    }
}

/// The repository that a remote URL names.
pub fn parse_remote_url(remote: &str) -> (r: Option<RepoRef>)
    ensures
        match r {
            Some(repo) => remote_of(remote@, parsed_url(remote@)) == Some((repo.0@, repo.1@)),
            None => remote_of(remote@, parsed_url(remote@)) is None,
        },
{
    remote_repo(remote, parse_url(remote))
}

} // verus!
