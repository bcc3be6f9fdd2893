//! Which issue, repository and branch is meant.

use std::collections::{BTreeMap, BTreeSet};
use vstd::prelude::*;

use crate::config::{self, Config, InvalidRepo, IssueRepo, Located};
use crate::github::{self, EndpointError, RepoRef, UrlParts};
use crate::laws::posts::forgets;
use crate::laws::texts::lemma_within;
use crate::state::{self, Etag};
use crate::store;
use crate::target;
use crate::text;

verus! {

/// A part of a path: not empty, without a slash.
pub open spec fn is_part(s: Seq<char>) -> bool {
    s.len() > 0 && forall|i: int| 0 <= i < s.len() ==> #[trigger] s[i] != '/'
}

proof fn lemma_cut(a: Seq<char>, b: Seq<char>)
    requires
        forall|i: int| 0 <= i < a.len() ==> #[trigger] a[i] != '/',
    ensures
        text::split(a + "/"@ + b, '/') == seq![a] + text::split(b, '/'),
        text::index_of(a + "/"@ + b, '/') == a.len(),
{
    reveal_strlit("/");
    let s = a + "/"@ + b;
    let n = a.len() as int;
    assert(s[n] == '/');
    assert forall|j: int| 0 <= j < n implies s[j] != '/' by {
        assert(s[j] == a[j]);
    }
    text::lemma_index_of(s, '/', n);
    text::lemma_split_step(s, '/');
    assert(s.take(n) =~= a);
    assert(s.skip(n + 1) =~= b);
}

proof fn lemma_uncut(a: Seq<char>)
    requires
        forall|i: int| 0 <= i < a.len() ==> #[trigger] a[i] != '/',
    ensures
        text::split(a, '/') == seq![a],
        text::index_of(a, '/') == a.len(),
{
    text::lemma_index_of(a, '/', a.len() as int);
    text::lemma_split_step(a, '/');
}

proof fn lemma_non_empty_first(a: Seq<char>, parts: Seq<Seq<char>>)
    ensures
        a.len() > 0 ==> github::non_empty(seq![a] + parts) == seq![a] + github::non_empty(parts),
    decreases parts.len(),
{
    let all = seq![a] + parts;
    if parts.len() == 0 {
        assert(all.drop_last() =~= seq![]);
        assert(all.last() == a);
        assert(github::non_empty(Seq::<Seq<char>>::empty()) =~= seq![]);
        if a.len() > 0 {
            assert(github::non_empty(all) =~= seq![a] + github::non_empty(parts));
        }
    } else {
        lemma_non_empty_first(a, parts.drop_last());
        assert(all.drop_last() =~= seq![a] + parts.drop_last());
        assert(all.last() == parts.last());
        if a.len() > 0 {
            assert(github::non_empty(all) =~= seq![a] + github::non_empty(parts));
        }
    }
}

proof fn lemma_rooted(a: Seq<char>)
    ensures
        github::segments("/"@ + a) == Some(github::non_empty(text::split(a, '/'))),
{
    reveal_strlit("/");
    lemma_within(Seq::empty(), "/"@, a);
    assert(("/"@ + a).skip("/"@.len() as int) =~= a);
}

proof fn lemma_last_part(a: Seq<char>)
    requires
        is_part(a),
    ensures
        github::non_empty(text::split(a, '/')) == seq![a],
{
    lemma_uncut(a);
    lemma_non_empty_first(a, Seq::empty());
    assert(seq![a] + Seq::<Seq<char>>::empty() =~= seq![a]);
    assert(github::non_empty(Seq::<Seq<char>>::empty()) =~= seq![]);
}

proof fn lemma_first_part(a: Seq<char>, rest: Seq<char>)
    requires
        is_part(a),
    ensures
        github::non_empty(text::split(a + "/"@ + rest, '/')) == seq![a] + github::non_empty(
            text::split(rest, '/'),
        ),
{
    lemma_cut(a, rest);
    lemma_non_empty_first(a, text::split(rest, '/'));
}

proof fn lemma_regrouped(a: Seq<char>, b: Seq<char>, c: Seq<char>)
    ensures
        a + b + c == a + (b + c),
{
    assert(a + b + c =~= a + (b + c));
}

/// The segments of `/owner/repo` and of what follows.
proof fn lemma_segments(owner: Seq<char>, repo: Seq<char>, rest: Seq<char>)
    requires
        is_part(owner),
        is_part(repo),
    ensures
        github::segments("/"@ + owner + "/"@ + repo) == Some(seq![owner, repo]),
        github::segments("/"@ + owner + "/"@ + repo + "/"@ + rest) == Some(
            seq![owner, repo] + github::non_empty(text::split(rest, '/')),
        ),
{
    let slash = "/"@;
    lemma_first_part(owner, repo);
    lemma_last_part(repo);
    lemma_rooted(owner + slash + repo);
    lemma_regrouped(slash, owner, slash);
    lemma_regrouped(slash, owner + slash, repo);
    assert(seq![owner] + seq![repo] =~= seq![owner, repo]);
    let more = repo + slash + rest;
    lemma_first_part(owner, more);
    lemma_first_part(repo, rest);
    lemma_rooted(owner + slash + more);
    lemma_regrouped(slash, owner + slash, more);
    lemma_regrouped(slash + owner + slash, repo, slash);
    lemma_regrouped(slash + owner + slash, repo + slash, rest);
    let tail = github::non_empty(text::split(rest, '/'));
    assert(seq![owner] + (seq![repo] + tail) =~= seq![owner, repo] + tail);
}

/// An issue is named by its number, or by its address on github.com.
pub proof fn issues_are_named_by_number_or_address(
    arg: &str,
    url: Option<UrlParts>,
    r: Result<String, EndpointError>,
    owner: Seq<char>,
    repo: Seq<char>,
    number: Seq<char>,
)
    requires
        call_ensures(github::endpoint_of, (arg, url), r),
        is_part(owner),
        is_part(repo),
        is_part(number),
    ensures
        text::parse(arg@) is Some ==> r is Ok && r->Ok_0@ == "repos/{owner}/{repo}/issues/"@ + arg@,
        text::parse(arg@) is None && url is None ==> r == Err::<String, EndpointError>(
            EndpointError::NotAUrl,
        ),
        text::parse(arg@) is None && url is Some && (url->0.host is None || url->0.host->0@
            != "github.com"@) ==> r == Err::<String, EndpointError>(EndpointError::OtherHost),
        text::parse(arg@) is None && url is Some && url->0.host is Some && url->0.host->0@
            == "github.com"@ && url->0.path@ == "/"@ + owner + "/"@ + repo + "/"@ + ("issues"@
            + "/"@ + number) && text::parse(number) is Some ==> r is Ok && r->Ok_0@ == "repos/"@
            + owner + "/"@ + repo + "/issues/"@ + number,
        text::parse(arg@) is None && url is Some && url->0.host is Some && url->0.host->0@
            == "github.com"@ && url->0.path@ == "/"@ + owner + "/"@ + repo ==> r == Err::<
            String,
            EndpointError,
        >(EndpointError::OtherForm),
        text::parse(arg@) is None && url is Some && url->0.host is Some && url->0.host->0@
            == "github.com"@ && url->0.path@ == "/"@ + owner + "/"@ + repo + "/"@ + ("issues"@
            + "/"@ + number) && text::parse(number) is None ==> r == Err::<String, EndpointError>(
            EndpointError::OtherForm,
        ),
{
    lemma_segments(owner, repo, "issues"@ + "/"@ + number);
    reveal_strlit("issues");
    lemma_cut("issues"@, number);
    lemma_uncut(number);
    lemma_non_empty_first("issues"@, seq![number]);
    lemma_non_empty_first(number, Seq::empty());
    assert(seq![number] + Seq::<Seq<char>>::empty() =~= seq![number]);
    assert(github::non_empty(Seq::<Seq<char>>::empty()) =~= seq![]);
    assert(seq![owner, repo] + github::non_empty(
        text::split("issues"@ + "/"@ + number, '/'),
    ) =~= seq![owner, repo, "issues"@, number]);
}

/// An address that is not of an issue is refused: one of something else, and one with
/// more behind the number.
pub proof fn other_addresses_are_refused(
    arg: &str,
    url: Option<UrlParts>,
    r: Result<String, EndpointError>,
    owner: Seq<char>,
    repo: Seq<char>,
    what: Seq<char>,
    number: Seq<char>,
    more: Seq<char>,
)
    requires
        call_ensures(github::endpoint_of, (arg, url), r),
        is_part(owner),
        is_part(repo),
        is_part(what),
        is_part(number),
        is_part(more),
        text::parse(arg@) is None,
        url is Some && url->0.host is Some && url->0.host->0@ == "github.com"@,
    ensures
        url->0.path@ == "/"@ + owner + "/"@ + repo + "/"@ + (what + "/"@ + number) && what
            != "issues"@ ==> r == Err::<String, EndpointError>(EndpointError::OtherForm),
        url->0.path@ == "/"@ + owner + "/"@ + repo + "/"@ + (what + "/"@ + (number + "/"@ + more))
            ==> r == Err::<String, EndpointError>(EndpointError::OtherForm),
{
    assert(github::non_empty(Seq::<Seq<char>>::empty()) =~= seq![]);
    lemma_cut(what, number);
    lemma_cut(what, number + "/"@ + more);
    lemma_cut(number, more);
    lemma_uncut(number);
    lemma_uncut(more);
    lemma_non_empty_first(what, seq![number]);
    lemma_non_empty_first(what, text::split(number + "/"@ + more, '/'));
    lemma_non_empty_first(number, seq![more]);
    lemma_non_empty_first(number, Seq::empty());
    lemma_non_empty_first(more, Seq::empty());
    assert(seq![number] + Seq::<Seq<char>>::empty() =~= seq![number]);
    assert(seq![more] + Seq::<Seq<char>>::empty() =~= seq![more]);
    if url->0.path@ == "/"@ + owner + "/"@ + repo + "/"@ + (what + "/"@ + number) {
        lemma_segments(owner, repo, what + "/"@ + number);
        assert(seq![owner, repo] + (seq![what] + seq![number]) =~= seq![
            owner,
            repo,
            what,
            number,
        ]);
    }
    if url->0.path@ == "/"@ + owner + "/"@ + repo + "/"@ + (what + "/"@ + (number + "/"@ + more)) {
        lemma_segments(owner, repo, what + "/"@ + (number + "/"@ + more));
        assert((seq![owner, repo] + (seq![what] + (seq![number] + seq![more]))).len() == 5);
    }
}

/// An argument is resolved by what it is, and by what it reads as where it is an address.
pub proof fn arguments_are_read_as_addresses(
    arg: &str,
    url: Option<UrlParts>,
    r: Result<String, EndpointError>,
    of_parts: Result<String, EndpointError>,
)
    requires
        call_ensures(github::issue_endpoint, (arg,), r),
        github::parts_view(url) == github::parsed_url(arg@),
        call_ensures(github::endpoint_of, (arg, url), of_parts),
    ensures
        r is Ok <==> of_parts is Ok,
        r is Ok ==> r->Ok_0@ == of_parts->Ok_0@,
        r is Err ==> r->Err_0 == of_parts->Err_0,
{
}

/// The repository of an address on github.com is its first two segments, whatever
/// follows; any other address has none.
pub proof fn repositories_are_read_from_addresses(
    url: Option<UrlParts>,
    r: Option<RepoRef>,
    owner: Seq<char>,
    repo: Seq<char>,
    rest: Seq<char>,
)
    requires
        call_ensures(github::owner_repo_of, (url,), r),
        is_part(owner),
        is_part(repo),
    ensures
        r is Some ==> url is Some && url->0.host is Some && url->0.host->0@ == "github.com"@,
        url is Some && url->0.host is Some && url->0.host->0@ == "github.com"@ && (url->0.path@
            == "/"@ + owner + "/"@ + repo || url->0.path@ == "/"@ + owner + "/"@ + repo + "/"@
            + rest) ==> r is Some && (r->0).0@ == owner && (r->0).1@ == repo,
{
    lemma_segments(owner, repo, rest);
    let more = github::non_empty(text::split(rest, '/'));
    assert((seq![owner, repo] + more)[0] == owner);
    assert((seq![owner, repo] + more)[1] == repo);
}

/// An issue's address names its repository and, behind the last slash, its number.
pub proof fn issue_addresses_are_read(
    s: &str,
    url: Option<UrlParts>,
    r: Option<(String, String, u64)>,
    front: Seq<char>,
    last: Seq<char>,
    parts: Option<UrlParts>,
    repo: Option<RepoRef>,
)
    requires
        call_ensures(github::issue_named, (s, url), r),
        s@ == front + "/"@ + last,
        is_part(last),
        github::parts_view(parts) == github::parts_view(url),
        call_ensures(github::owner_repo_of, (parts,), repo),
    ensures
        r is Some <==> repo is Some && text::parse(last) is Some,
        r is Some ==> (r->0).0@ == (repo->0).0@ && (r->0).1@ == (repo->0).1@ && Some((r->0).2)
            == text::parse(last),
{
    lemma_last_segment(front, last);
}

proof fn lemma_last_segment(front: Seq<char>, last: Seq<char>)
    requires
        is_part(last),
    ensures
        github::last_segment(front + "/"@ + last) == last,
    decreases front.len(),
{
    reveal_strlit("/");
    let s = front + "/"@ + last;
    text::lemma_index_of_bounds(front, '/');
    let i = text::index_of(front, '/');
    if i < front.len() {
        let a = front.take(i);
        let rest = front.skip(i + 1);
        assert(s =~= a + "/"@ + (rest + "/"@ + last));
        lemma_cut(a, rest + "/"@ + last);
        lemma_last_segment(rest, last);
        let later = text::split(rest + "/"@ + last, '/');
        lemma_split_some(rest + "/"@ + last);
        assert((seq![a] + later).last() == later.last());
    } else {
        lemma_cut(front, last);
        lemma_uncut(last);
        assert((seq![front] + seq![last]).last() == last);
    }
}

proof fn lemma_split_some(s: Seq<char>)
    ensures
        text::split(s, '/').len() > 0,
{
    text::lemma_split_step(s, '/');
}

/// The addresses of issues and PRs.
pub proof fn addresses_are_written(
    owner: &str,
    repo: &str,
    number: u64,
    issue: String,
    pr: String,
)
    requires
        call_ensures(github::url_of_issue, (owner, repo, number), issue),
        call_ensures(github::url_of_pr, (owner, repo, number), pr),
    ensures
        issue@ == "https://github.com/"@ + owner@ + "/"@ + repo@ + "/issues/"@ + text::decimal(
            number as nat,
        ),
        pr@ == "https://github.com/"@ + owner@ + "/"@ + repo@ + "/pull/"@ + text::decimal(
            number as nat,
        ),
{
}

/// A remote names its repository by an address for git, or by one of github.com; a
/// `.git` at its end is not part of the name.
pub proof fn remotes_name_their_repository(
    remote: &str,
    url: Option<UrlParts>,
    r: Option<RepoRef>,
    owner: Seq<char>,
    repo: Seq<char>,
    name: &str,
    stem: String,
)
    requires
        call_ensures(github::remote_repo, (remote, url), r),
        is_part(owner),
        is_part(repo),
        name@ == repo,
        call_ensures(github::without_suffix, (name,), stem),
    ensures
        text::ends_with(repo, ".git"@) ==> stem@ + ".git"@ == repo,
        !text::ends_with(repo, ".git"@) ==> stem@ == repo,
        remote@ == "git@github.com:"@ + (owner + "/"@ + repo) && stem@.len() > 0 ==> r is Some && (
        r->0).0@ == owner && (r->0).1@ == stem@,
        !text::starts_with(remote@, "git@github.com:"@) && url is Some && url->0.host is Some
            && url->0.host->0@ == "github.com"@ && url->0.path@ == "/"@ + owner + "/"@ + repo
            && stem@.len() > 0 ==> r is Some && (r->0).0@ == owner && (r->0).1@ == stem@,
        !text::starts_with(remote@, "git@github.com:"@) && (url is None || url->0.host is None
            || url->0.host->0@ != "github.com"@) ==> r is None,
{
    reveal_strlit(".git");
    if text::ends_with(repo, ".git"@) {
        let n = repo.len() - 4;
        assert(repo.subrange(n, repo.len() as int) == ".git"@);
        assert(stem@ + ".git"@ =~= repo.take(n) + repo.subrange(n, repo.len() as int));
        assert(repo =~= repo.take(n) + repo.subrange(n, repo.len() as int));
    }
    let p = "git@github.com:"@;
    let tail = owner + "/"@ + repo;
    lemma_within(Seq::empty(), p, tail);
    assert((p + tail).skip(p.len() as int) =~= tail);
    lemma_cut(owner, repo);
    lemma_uncut(repo);
    lemma_non_empty_first(owner, seq![repo]);
    lemma_non_empty_first(repo, Seq::empty());
    assert(seq![repo] + Seq::<Seq<char>>::empty() =~= seq![repo]);
    assert(github::non_empty(Seq::<Seq<char>>::empty()) =~= seq![]);
    assert(github::non_empty(text::split(tail, '/')) =~= seq![owner, repo]);
    lemma_segments(owner, repo, Seq::empty());
}

/// A bare number means the issue of that number in the bound issue's repository; anything
/// else is taken as it is.
pub proof fn numbers_mean_the_bound_repository(arg: &str, bound: Option<RepoRef>, r: Option<String>)
    requires
        call_ensures(target::anchor_number, (arg, bound), r),
    ensures
        r is Some <==> bound is Some && text::parse(arg@) is Some,
        r is Some ==> r->0@ == "https://github.com/"@ + (bound->0).0@ + "/"@ + (bound->0).1@
            + "/issues/"@ + arg@,
{
}

/// The bound repository is that of the bound issue's address; an argument goes before
/// what is inferred.
pub proof fn arguments_go_before_what_is_inferred(
    arg: &str,
    url: &str,
    repo: Option<RepoRef>,
    anchored: Option<String>,
    r: Option<String>,
    given: Option<String>,
    inferred: Option<String>,
    chosen: Option<String>,
)
    requires
        call_ensures(github::parse_owner_repo, (url,), repo),
        call_ensures(target::anchor_number, (arg, repo), anchored),
        call_ensures(target::qualify_bare_number, (arg, Some(url)), r),
        call_ensures(target::choose_issue_arg, (given, inferred), chosen),
        given is Some ==> given->0@ == arg@,
        inferred is Some ==> inferred->0@ == url@,
    ensures
        r is Some <==> anchored is Some,
        r is Some ==> r->0@ == anchored->0@,
        given is None ==> chosen == inferred,
        given is Some ==> chosen is Some,
        given is Some && inferred is Some && r is Some ==> chosen->0@ == r->0@,
        given is Some && (inferred is None || r is None) ==> chosen->0@ == arg@,
{
}

/// Without a bound issue no number is anchored.
pub proof fn nothing_bound_anchors_nothing(arg: &str, r: Option<String>)
    requires
        call_ensures(target::qualify_bare_number, (arg, None::<&str>), r),
    ensures
        r is None,
{
}

/// A session acts on its own issue alone: another target is refused, and the refusal
/// names both.
pub proof fn sessions_act_on_their_own_issue(
    t: Option<(&str, &str, u64)>,
    bound: Option<(String, String, u64)>,
    r: Result<(), String>,
)
    requires
        call_ensures(target::check_target, (t, bound), r),
    ensures
        r is Ok <==> bound is None || (t is Some && (t->0).0@ == (bound->0).0@ && (t->0).1@ == (
        bound->0).1@ && (t->0).2 == (bound->0).2),
        r is Err && t is Some ==> text::starts_with(
            r->Err_0@,
            "explicit target "@ + ("`"@ + (t->0).0@ + "/"@ + (t->0).1@ + "#"@ + text::decimal(
                (t->0).2 as nat,
            ) + "`"@) + " does not match this session's issue `"@ + (bound->0).0@ + "/"@ + (
            bound->0).1@ + "#"@ + text::decimal((bound->0).2 as nat),
        ),
        r is Err && t is None ==> text::starts_with(
            r->Err_0@,
            "explicit target "@ + "a thread with no recorded ghwf workflow"@
                + " does not match this session's issue `"@ + (bound->0).0@ + "/"@ + (bound->0).1@
                + "#"@ + text::decimal((bound->0).2 as nat),
        ),
{
    if r is Err {
        let what = match t {
            Some((owner, repo, number)) => "`"@ + owner@ + "/"@ + repo@ + "#"@ + text::decimal(
                number as nat,
            ) + "`"@,
            None => "a thread with no recorded ghwf workflow"@,
        };
        let head = "explicit target "@ + what + " does not match this session's issue `"@ + (
        bound->0).0@ + "/"@ + (bound->0).1@ + "#"@ + text::decimal((bound->0).2 as nat);
        assert(r->Err_0@ == head + target::REFUSAL_END@);
        lemma_within(Seq::empty(), head, target::REFUSAL_END@);
    }
}

/// The bound issue is read from its address.
pub proof fn the_bound_issue_is_read_from_its_address(
    t: Option<(&str, &str, u64)>,
    url: &str,
    bound: Option<(String, String, u64)>,
    plain: Result<(), String>,
    r: Result<(), String>,
    none: Result<(), String>,
)
    requires
        call_ensures(github::parse_issue_url, (url,), bound),
        call_ensures(target::check_target, (t, bound), plain),
        call_ensures(target::ensure_target_matches_bound, (t, Some(url)), r),
        call_ensures(target::ensure_target_matches_bound, (t, None::<&str>), none),
    ensures
        r is Ok <==> plain is Ok,
        r is Err ==> r->Err_0@ == plain->Err_0@,
        none is Ok,
{
}

/// The line that names a target.
pub proof fn targets_are_named(
    owner: &str,
    repo: &str,
    number: u64,
    known: Option<(&str, &str)>,
    r: String,
)
    requires
        call_ensures(target::target_line, (owner, repo, number, known), r),
    ensures
        known is Some ==> r@ == "→ "@ + owner@ + "/"@ + repo@ + "#"@ + text::decimal(
            number as nat,
        ) + " \""@ + (known->0).0@ + "\" ("@ + (known->0).1@ + ")"@,
        known is None ==> r@ == "→ "@ + owner@ + "/"@ + repo@ + "#"@ + text::decimal(
            number as nat,
        ),
{
}

/// A repository is written as its owner and its name with one slash between, white space
/// around it aside; anything else is refused, and the refusal gives it back.
pub proof fn repositories_are_owner_and_name(
    spec: &str,
    r: Result<RepoRef, InvalidRepo>,
    owner: Seq<char>,
    repo: Seq<char>,
)
    requires
        call_ensures(config::parse_owner_repo_spec, (spec,), r),
    ensures
        text::trim(spec@) == owner + "/"@ + repo && is_part(owner) && is_part(repo) ==> r is Ok && (
        r->Ok_0).0@ == owner && (r->Ok_0).1@ == repo,
        r is Ok ==> text::trim(spec@) == (r->Ok_0).0@ + "/"@ + (r->Ok_0).1@ && is_part(
            (r->Ok_0).0@,
        ) && is_part((r->Ok_0).1@),
        r is Err ==> r->Err_0.entry@ == spec@,
{
    reveal_strlit("/");
    let s = text::trim(spec@);
    if s == owner + "/"@ + repo && is_part(owner) && is_part(repo) {
        lemma_cut(owner, repo);
        lemma_uncut(repo);
        assert(s.take(owner.len() as int) =~= owner);
        assert(s.skip(owner.len() + 1int) =~= repo);
    }
    if r is Ok {
        text::lemma_index_of_bounds(s, '/');
        let i = text::index_of(s, '/');
        let a = s.take(i);
        let b = s.skip(i + 1);
        text::lemma_index_of_bounds(b, '/');
        assert(s =~= a + "/"@ + b);
        assert forall|j: int| 0 <= j < a.len() implies #[trigger] a[j] != '/' by {
            assert(s[j] == a[j]);
        }
    }
}

/// An entry of the issue repositories is read like a repository, whichever way it is
/// written, and the refusal says what was expected.
pub proof fn issue_repositories_are_read(
    entry: &IssueRepo,
    r: Result<RepoRef, InvalidRepo>,
    spec: &str,
    plain: Result<RepoRef, InvalidRepo>,
    bad: &InvalidRepo,
    message: String,
)
    requires
        call_ensures(IssueRepo::repo_ref, (entry,), r),
        *entry matches IssueRepo::Plain(s) ==> s@ == spec@,
        *entry matches IssueRepo::Detailed { repo, .. } ==> repo@ == spec@,
        call_ensures(config::parse_owner_repo_spec, (spec,), plain),
        call_ensures(InvalidRepo::message, (bad,), message),
    ensures
        r is Ok <==> plain is Ok,
        r is Ok ==> (r->Ok_0).0@ == (plain->Ok_0).0@ && (r->Ok_0).1@ == (plain->Ok_0).1@,
        message@ == "invalid issue_repos entry `"@ + bad.entry@
            + "`: expected the form \"owner/repo\""@,
{
}

/// Every entry is read, in order, or the first one that cannot be is refused.
pub proof fn all_issue_repositories_are_read(
    c: &Config,
    r: Result<Vec<RepoRef>, InvalidRepo>,
    k: int,
    entry: &IssueRepo,
    one: Result<RepoRef, InvalidRepo>,
)
    requires
        call_ensures(Config::issue_repo_refs, (c,), r),
        0 <= k < c.issue_repos@.len(),
        *entry == c.issue_repos@[k],
        call_ensures(IssueRepo::repo_ref, (entry,), one),
    ensures
        r is Ok ==> one is Ok && r->Ok_0@.len() == c.issue_repos@.len() && r->Ok_0@[k].0@ == (
        one->Ok_0).0@ && r->Ok_0@[k].1@ == (one->Ok_0).1@,
        one is Err ==> r is Err,
{
    if r is Ok {
        assert(config::spec_repo(c.issue_repos@[k].named()) is Some);
        assert(config::repo_views(r->Ok_0@)[k] == (r->Ok_0@[k].0@, r->Ok_0@[k].1@));
    }
}

/// The branches of an issue's repository have the prefix that is configured for it, an
/// empty one standing for none, and else the repository's name; those of a repository
/// that is not listed have none. Names are held against each other without the case of
/// their letters, and the first entry that fits counts.
pub proof fn branches_carry_the_repositorys_prefix(
    c: &Config,
    later: &Config,
    owner: &str,
    repo: &str,
    r: Result<Option<String>, InvalidRepo>,
    rest: Result<Option<String>, InvalidRepo>,
    entry: &IssueRepo,
    first: Result<RepoRef, InvalidRepo>,
)
    requires
        call_ensures(Config::issue_branch_prefix, (c, owner, repo), r),
        c.issue_repos@.len() > 0,
        *entry == c.issue_repos@[0],
        call_ensures(IssueRepo::repo_ref, (entry,), first),
        later.issue_repos@ == c.issue_repos@.skip(1),
        call_ensures(Config::issue_branch_prefix, (later, owner, repo), rest),
    ensures
        first is Err ==> r is Err,
        first is Ok ==> {
            let fits = text::lower((first->Ok_0).0@) == text::lower(owner@) && text::lower(
                (first->Ok_0).1@,
            ) == text::lower(repo@);
            &&& fits ==> r is Ok
            &&& fits && *entry is Plain ==> r->Ok_0 is Some && r->Ok_0->0@ == (first->Ok_0).1@
            &&& fits && *entry is Detailed && entry->branch_prefix is None ==> r->Ok_0 is Some
                && r->Ok_0->0@ == (first->Ok_0).1@
            &&& fits && *entry is Detailed && entry->branch_prefix is Some ==> (
            entry->branch_prefix->0@.len() == 0 ==> r->Ok_0 is None) && (
            entry->branch_prefix->0@.len() > 0 ==> r->Ok_0 is Some && r->Ok_0->0@
                == entry->branch_prefix->0@)
            &&& !fits ==> (r is Ok <==> rest is Ok) && (r is Ok ==> (r->Ok_0 is Some
                <==> rest->Ok_0 is Some) && (r->Ok_0 is Some ==> r->Ok_0->0@ == rest->Ok_0->0@))
        },
{
}

/// A repository that is not listed has no prefix.
pub proof fn unlisted_repositories_have_no_prefix(
    c: &Config,
    owner: &str,
    repo: &str,
    r: Result<Option<String>, InvalidRepo>,
)
    requires
        call_ensures(Config::issue_branch_prefix, (c, owner, repo), r),
        c.issue_repos@.len() == 0,
    ensures
        r is Ok && r->Ok_0 is None,
{
}

/// The paths of a project lie below the directory of its configuration; what is not set
/// is the directory itself for the repository, and `pull-request.md` for the instructions.
pub proof fn paths_lie_below_the_configuration(
    l: &Located,
    file: String,
    repo: String,
    worktrees: String,
    instructions: String,
)
    requires
        call_ensures(Located::file_path, (l,), file),
        call_ensures(Located::main_repo_path, (l,), repo),
        call_ensures(Located::worktrees_dir_path, (l,), worktrees),
        call_ensures(Located::pr_instructions_path, (l,), instructions),
    ensures
        file@ == text::below(l.dir@, "ghwf.toml"@),
        l.config.main_repo is Some ==> repo@ == text::below(l.dir@, l.config.main_repo->0@),
        l.config.main_repo is None ==> repo@ == l.dir@,
        worktrees@ == text::below(l.dir@, l.config.worktrees_dir@),
        l.config.pr_instructions is Some ==> instructions@ == text::below(
            l.dir@,
            l.config.pr_instructions->0@,
        ),
        l.config.pr_instructions is None ==> instructions@ == text::below(
            l.dir@,
            "pull-request.md"@,
        ),
{
}

/// The configuration is looked for in each directory in turn, and needed.
pub proof fn the_configuration_is_looked_for(
    dirs: &[String],
    r: Vec<String>,
    k: int,
    found: Option<Located>,
    needed: Result<Located, String>,
    blocked: String,
    finished: String,
)
    requires
        call_ensures(config::candidates, (dirs,), r),
        call_ensures(config::require, (found,), needed),
        call_ensures(config::default_blocked_label, (), blocked),
        call_ensures(config::default_finished_label, (), finished),
    ensures
        r@.len() == dirs@.len(),
        0 <= k < dirs@.len() ==> r@[k]@ == text::below(dirs@[k]@, "ghwf.toml"@),
        needed is Ok <==> found is Some,
        needed is Ok ==> Some(needed->Ok_0) == found,
        blocked@ == "blocked"@,
        finished@ == "ghwf:finished"@,
{
    let v = text::views(r@);
    assert(v.len() == r@.len());
    if 0 <= k < dirs@.len() {
        assert(v[k] == r@[k]@);
    }
}

/// A path below a directory: itself where it begins with a slash, else behind the
/// directory, with one slash between.
pub proof fn paths_are_put_below(dir: &str, path: &str, r: String)
    requires
        call_ensures(text::path_below, (dir, path), r),
    ensures
        text::starts_with(path@, "/"@) ==> r@ == path@,
        !text::starts_with(path@, "/"@) && dir@.len() > 0 && dir@.last() != '/' ==> r@ == dir@
            + "/"@ + path@,
        !text::starts_with(path@, "/"@) && (dir@.len() == 0 || dir@.last() == '/') ==> r@ == dir@
            + path@,
{
    reveal_strlit("/");
    if path@.len() > 0 {
        if text::starts_with(path@, "/"@) {
            assert(path@.subrange(0, 1)[0] == '/');
        }
        if path@[0] == '/' {
            assert(path@.subrange(0, 1) =~= "/"@);
        }
    }
}

/// A cached answer that is dropped is gone, and no other.
pub proof fn dropped_answers_are_gone(etags: Vec<Etag>, key: &str, r: Vec<Etag>)
    requires
        call_ensures(state::drop_etag, (etags, key), r),
    ensures
        forgets(r@, etags@, key@),
{
    crate::laws::posts::lemma_forgets(etags@, key@);
}

/// The latest of two moments is kept.
pub proof fn the_later_moment_is_kept(before: String, at: &str, after: String)
    requires
        exists|g: &mut String| #[trigger]
            call_ensures(state::fold_since, (g, at), ()) && *g == before && *final(g) == after,
    ensures
        text::le(before@, after@),
        text::le(at@, after@),
        after@ == before@ || after@ == at@,
{
    text::lemma_le_reflexive(before@);
    text::lemma_le_reflexive(at@);
    text::lemma_le_total(before@, at@);
}

/// An issue's fingerprint is made of its title, its text and its state.
pub proof fn fingerprints_cover_the_issue(
    title: &str,
    body: Option<&str>,
    status: &str,
    r: String,
    whole: &str,
    hash: String,
)
    requires
        call_ensures(state::issue_fingerprint, (title, body, status), r),
        body is Some ==> whole@ == title@ + "\n\u{0}"@ + body->0@ + "\n\u{0}"@ + status@,
        body is None ==> whole@ == title@ + "\n\u{0}"@ + ""@ + "\n\u{0}"@ + status@,
        call_ensures(store::content_hash, (whole,), hash),
    ensures
        r@ == hash@,
{
}

/// A branch is named by the prefix, the number and the slug, with dashes between.
pub proof fn branches_are_named_after_the_issue(
    prefix: Option<&str>,
    number: u64,
    title: &str,
    r: (String, String),
)
    requires
        call_ensures(state::branch_and_slug, (prefix, number, title), r),
    ensures
        prefix is Some && prefix->0@.len() > 0 ==> r.0@ == prefix->0@ + "-"@ + (text::decimal(
            number as nat,
        ) + "-"@ + r.1@),
        prefix is None || prefix->0@.len() == 0 ==> r.0@ == text::decimal(number as nat) + "-"@
            + r.1@,
{
}

/// The character is a small letter or a digit.
pub open spec fn is_word(c: char) -> bool {
    ('a' <= c && c <= 'z') || ('0' <= c && c <= '9')
}

proof fn lemma_words_among(parts: Seq<Seq<char>>, k: int)
    ensures
        ({
            let all = state::words_among(parts);
            0 <= k < all.len() ==> all[k].len() > 0 && exists|i: int|
                #![trigger parts[i]]
                0 <= i < parts.len() && parts[i] == all[k]
        }),
    decreases parts.len(),
{
    if parts.len() > 0 {
        let init = parts.drop_last();
        lemma_words_among(init, k);
        let all = state::words_among(parts);
        let before = state::words_among(init);
        if 0 <= k < all.len() {
            if k < before.len() {
                assert(before[k] == all[k]);
                let i = choose|i: int|
                    #![trigger init[i]]
                    0 <= i < init.len() && init[i] == before[k];
                assert(parts[i] == all[k]);
            } else {
                assert(parts[parts.len() - 1] == all[k]);
            }
        }
    }
}

proof fn lemma_split_within(s: Seq<char>, sep: char, k: int, j: int)
    requires
        0 <= k < text::split(s, sep).len(),
        0 <= j < text::split(s, sep)[k].len(),
    ensures
        exists|i: int| #![trigger s[i]] 0 <= i < s.len() && s[i] == text::split(s, sep)[k][j],
        text::split(s, sep)[k][j] != sep,
    decreases s.len(),
{
    text::lemma_split_step(s, sep);
    text::lemma_index_of_bounds(s, sep);
    let i = text::index_of(s, sep);
    let parts = text::split(s, sep);
    if i < s.len() {
        let rest = s.skip(i + 1);
        if k == 0 {
            assert(parts[0] == s.take(i));
            assert(s[j] == parts[0][j]);
        } else {
            assert(parts[k] == text::split(rest, sep)[k - 1]);
            lemma_split_within(rest, sep, k - 1, j);
            let m = choose|m: int|
                #![trigger rest[m]]
                0 <= m < rest.len() && rest[m] == text::split(rest, sep)[k - 1][j];
            assert(s[m + i + 1] == rest[m]);
        }
    } else {
        assert(parts[0] == s);
        assert(s[j] == parts[k][j]);
    }
}

/// The characters of joined words are theirs, or the dash between.
proof fn lemma_joined_chars(words: Seq<Seq<char>>, j: int)
    requires
        forall|k: int, m: int|
            0 <= k < words.len() && 0 <= m < words[k].len() ==> is_word(#[trigger] words[k][m]),
    ensures
        0 <= j < text::join(words, "-"@).len() ==> is_word(text::join(words, "-"@)[j])
            || text::join(words, "-"@)[j] == '-',
    decreases words.len(),
{
    reveal_strlit("-");
    if words.len() == 1 {
        if 0 <= j < words[0].len() {
            assert(is_word(words[0][j]));
        }
    } else if words.len() > 1 {
        let init = words.drop_last();
        assert forall|k: int, m: int|
            0 <= k < init.len() && 0 <= m < init[k].len() implies is_word(
            #[trigger] init[k][m],
        ) by {
            assert(is_word(words[k][m]));
        }
        lemma_joined_chars(init, j);
        let a = text::join(init, "-"@);
        let all = text::join(words, "-"@);
        if a.len() < j < all.len() {
            assert(all[j] == words[words.len() - 1][j - a.len() - 1]);
        }
    }
}

proof fn lemma_joined_count(words: Seq<Seq<char>>)
    requires
        forall|k: int, m: int|
            0 <= k < words.len() && 0 <= m < words[k].len() ==> is_word(#[trigger] words[k][m]),
    ensures
        dashes(text::join(words, "-"@)) <= words.len(),
        words.len() > 0 ==> dashes(text::join(words, "-"@)) == words.len() - 1,
    decreases words.len(),
{
    reveal_strlit("-");
    if words.len() == 1 {
        lemma_no_dashes(words[0]);
    } else if words.len() > 1 {
        let init = words.drop_last();
        assert forall|k: int, m: int|
            0 <= k < init.len() && 0 <= m < init[k].len() implies is_word(
            #[trigger] init[k][m],
        ) by {
            assert(is_word(words[k][m]));
        }
        lemma_joined_count(init);
        let last = words[words.len() - 1];
        assert forall|m: int| 0 <= m < last.len() implies is_word(#[trigger] last[m]) by {
            assert(is_word(words[words.len() - 1][m]));
        }
        lemma_no_dashes(last);
        let a = text::join(init, "-"@);
        lemma_dashes_append(a, "-"@);
        lemma_dashes_append(a + "-"@, last);
        assert("-"@.drop_last() =~= seq![]);
        assert(dashes(Seq::<char>::empty()) == 0);
        assert("-"@.last() == '-');
        assert(dashes("-"@) == 1);
    }
}

/// How many dashes there are.
pub open spec fn dashes(s: Seq<char>) -> int
    decreases s.len(),
{
    if s.len() == 0 {
        0
    } else {
        dashes(s.drop_last()) + (if s.last() == '-' {
            1int
        } else {
            0
        })
    }
}

proof fn lemma_no_dashes(s: Seq<char>)
    requires
        forall|m: int| 0 <= m < s.len() ==> is_word(#[trigger] s[m]),
    ensures
        dashes(s) == 0,
    decreases s.len(),
{
    if s.len() > 0 {
        assert(is_word(s[s.len() - 1]));
        assert forall|m: int| 0 <= m < s.drop_last().len() implies is_word(
            #[trigger] s.drop_last()[m],
        ) by {
            assert(is_word(s[m]));
        }
        lemma_no_dashes(s.drop_last());
    }
}

proof fn lemma_dashes_append(a: Seq<char>, b: Seq<char>)
    ensures
        dashes(a + b) == dashes(a) + dashes(b),
    decreases b.len(),
{
    if b.len() == 0 {
        assert(a + b =~= a);
    } else {
        assert((a + b).drop_last() =~= a + b.drop_last());
        lemma_dashes_append(a, b.drop_last());
    }
}

/// A slug is made of small letters, digits and dashes, and of six words at most; a title
/// of one word is its own slug, in small letters.
pub proof fn slugs_are_a_few_plain_words(
    number: u64,
    title: &str,
    r: (String, String),
    j: int,
)
    requires
        call_ensures(state::branch_and_slug, (None::<&str>, number, title), r),
    ensures
        0 <= j < r.1@.len() ==> is_word(r.1@[j]) || r.1@[j] == '-',
        dashes(r.1@) <= 5,
        title@.len() > 0 && (forall|i: int|
            0 <= i < title@.len() ==> is_word(#[trigger] text::lower(title@)[i])) ==> r.1@
            == text::lower(title@),
        (forall|i: int| 0 <= i < title@.len() ==> !is_word(#[trigger] text::lower(title@)[i]))
            ==> r.1@.len() == 0,
{
    let spaced = state::spaced(title@);
    let parts = text::split(spaced, ' ');
    let words = state::words_among(parts);
    let few = state::first_few(words);
    assert forall|k: int, m: int| 0 <= k < few.len() && 0 <= m < few[k].len() implies is_word(
        #[trigger] few[k][m],
    ) by {
        lemma_words_among(parts, k);
        assert(few[k] == words[k]);
        let i = choose|i: int| #![trigger parts[i]] 0 <= i < parts.len() && parts[i] == words[k];
        lemma_split_within(spaced, ' ', i, m);
        let at = choose|at: int|
            #![trigger spaced[at]]
            0 <= at < spaced.len() && spaced[at] == parts[i][m];
        assert(spaced[at] != ' ');
    }
    lemma_joined_chars(few, j);
    lemma_joined_count(few);
    if title@.len() > 0 && (forall|i: int|
        0 <= i < title@.len() ==> is_word(#[trigger] text::lower(title@)[i])) {
        assert forall|i: int| 0 <= i < title@.len() implies spaced[i] == text::lower(title@)[i]
            && spaced[i] != ' ' by {
            assert(is_word(text::lower(title@)[i]));
        }
        assert(spaced =~= text::lower(title@));
        text::lemma_index_of(spaced, ' ', spaced.len() as int);
        text::lemma_split_step(spaced, ' ');
        assert(parts.drop_last() =~= seq![]);
        assert(state::words_among(Seq::<Seq<char>>::empty()) =~= seq![]);
        assert(words =~= seq![spaced]);
    }
    if forall|i: int| 0 <= i < title@.len() ==> !is_word(#[trigger] text::lower(title@)[i]) {
        if few.len() > 0 {
            lemma_words_among(parts, 0);
            assert(few[0] == words[0]);
            assert(is_word(few[0][0]));
            let i = choose|i: int| #![trigger parts[i]] 0 <= i < parts.len() && parts[i] == words[0];
            lemma_split_within(spaced, ' ', i, 0);
            let at = choose|at: int|
                #![trigger spaced[at]]
                0 <= at < spaced.len() && spaced[at] == parts[i][0];
            assert(!is_word(text::lower(title@)[at]));
        }
    }
}

proof fn lemma_words_after(first: Seq<char>, parts: Seq<Seq<char>>)
    ensures
        state::words_among(seq![first] + parts) == (if first.len() > 0 {
            seq![first]
        } else {
            seq![]
        }) + state::words_among(parts),
    decreases parts.len(),
{
    let all = seq![first] + parts;
    if parts.len() == 0 {
        assert(all.drop_last() =~= seq![]);
        assert(state::words_among(Seq::<Seq<char>>::empty()) =~= seq![]);
    } else {
        assert(all.drop_last() =~= seq![first] + parts.drop_last());
        assert(all.last() == parts.last());
        lemma_words_after(first, parts.drop_last());
    }
}

proof fn lemma_join_after(first: Seq<char>, parts: Seq<Seq<char>>)
    requires
        parts.len() > 0,
    ensures
        text::join(seq![first] + parts, "-"@) == first + "-"@ + text::join(parts, "-"@),
    decreases parts.len(),
{
    let all = seq![first] + parts;
    assert(all.drop_last() =~= seq![first] + parts.drop_last());
    assert(all.last() == parts.last());
    if parts.len() > 1 {
        let init = parts.drop_last();
        lemma_join_after(first, init);
        assert(text::join(all, "-"@) =~= first + "-"@ + (text::join(init, "-"@) + "-"@
            + parts.last()));
    } else {
        assert(all.drop_last() =~= seq![first]);
        assert(text::join(seq![first], "-"@) == first);
        assert(text::join(parts, "-"@) == parts[0]);
    }
}

/// The words that a slug is made of are plain and not empty, and it has one dash fewer.
proof fn lemma_few(title: Seq<char>) -> (few: Seq<Seq<char>>)
    ensures
        few == state::first_few(state::words_among(text::split(state::spaced(title), ' '))),
        forall|k: int, m: int|
            0 <= k < few.len() && 0 <= m < few[k].len() ==> is_word(#[trigger] few[k][m]),
        few.len() > 0 ==> dashes(text::join(few, "-"@)) == few.len() - 1 && text::join(
            few,
            "-"@,
        ).len() > 0,
{
    let spaced = state::spaced(title);
    let parts = text::split(spaced, ' ');
    let words = state::words_among(parts);
    let few = state::first_few(words);
    assert forall|k: int, m: int| 0 <= k < few.len() && 0 <= m < few[k].len() implies is_word(
        #[trigger] few[k][m],
    ) by {
        lemma_words_among(parts, k);
        assert(few[k] == words[k]);
        let i = choose|i: int| #![trigger parts[i]] 0 <= i < parts.len() && parts[i] == words[k];
        lemma_split_within(spaced, ' ', i, m);
        let at = choose|at: int|
            #![trigger spaced[at]]
            0 <= at < spaced.len() && spaced[at] == parts[i][m];
        assert(spaced[at] != ' ');
    }
    lemma_joined_count(few);
    if few.len() > 0 {
        lemma_words_among(parts, few.len() - 1);
        assert(few.last() == words[few.len() - 1]);
    }
    few
}

/// A slug takes the words of its title in order, from the first on: behind the first word
/// and a dash comes the slug of the rest, without its last word where it has six.
pub proof fn slugs_take_the_first_words(
    number: u64,
    title: &str,
    r: (String, String),
    word: Seq<char>,
    gap: char,
    rest: &str,
    s: (String, String),
)
    requires
        call_ensures(state::branch_and_slug, (None::<&str>, number, title), r),
        call_ensures(state::branch_and_slug, (None::<&str>, number, rest), s),
        title@ == word.push(gap) + rest@,
        forall|i: int| 0 <= i < word.len() ==> is_word(#[trigger] text::lower(word)[i]),
        !is_word(text::lower_char(gap)),
    ensures
        word.len() == 0 ==> r.1@ == s.1@,
        word.len() > 0 && s.1@.len() == 0 ==> r.1@ == text::lower(word),
        word.len() > 0 && s.1@.len() > 0 && dashes(s.1@) < 5 ==> r.1@ == text::lower(word) + "-"@
            + s.1@,
        word.len() > 0 && dashes(s.1@) == 5 ==> exists|p: Seq<char>, last: Seq<char>|
            #![trigger dashes(p), dashes(last)]
            s.1@ == p + "-"@ + last && dashes(last) == 0 && r.1@ == text::lower(word) + "-"@ + p,
{
    let low = text::lower(word);
    let whole = state::spaced(title@);
    let tail = state::spaced(rest@);
    let n = word.len() as int;
    assert forall|i: int| 0 <= i < n implies whole[i] == low[i] && whole[i] != ' ' by {
        assert(is_word(low[i]));
        assert(title@[i] == word[i]);
    }
    assert(title@[n] == gap);
    assert(whole[n] == ' ');
    text::lemma_index_of(whole, ' ', n);
    text::lemma_split_step(whole, ' ');
    assert(whole.take(n) =~= low);
    assert(whole.skip(n + 1) =~= tail);
    let parts = text::split(tail, ' ');
    lemma_words_after(low, parts);
    let words = state::words_among(parts);
    let few = lemma_few(rest@);
    let mine = lemma_few(title@);
    if n == 0 {
        assert(Seq::<Seq<char>>::empty() + words =~= words);
    } else {
        let all = seq![low] + words;
        assert(state::words_among(text::split(whole, ' ')) == all);
        if words.len() == 0 {
            assert(all =~= seq![low]);
            assert(few =~= seq![]);
            assert(s.1@ =~= seq![]);
            assert(dashes(s.1@) == 0);
        } else if words.len() <= 5 {
            lemma_join_after(low, words);
            assert(dashes(s.1@) < 5);
        } else {
            let five = words.take(5);
            assert(all.take(6) =~= seq![low] + five);
            lemma_join_after(low, five);
            assert(few =~= words.take(6));
            assert(few.drop_last() =~= five);
            let p = text::join(five, "-"@);
            let last = few.last();
            assert forall|m: int| 0 <= m < last.len() implies is_word(#[trigger] last[m]) by {
                assert(is_word(few[few.len() - 1][m]));
            }
            lemma_no_dashes(last);
            assert(s.1@ == p + "-"@ + last);
            assert(mine =~= all.take(6));
            assert(r.1@ == low + "-"@ + p);
            lemma_dashes_append(p, "-"@);
        }
    }
}

/// A set holds what was put into it and what it held before; a map gives what it has.
pub proof fn sets_hold_what_was_put(
    before: BTreeSet<u64>,
    id: u64,
    after: BTreeSet<u64>,
    set: &BTreeSet<u64>,
    other: u64,
    held: bool,
    map: &BTreeMap<u64, String>,
    found: Option<&String>,
)
    requires
        exists|g: &mut BTreeSet<u64>| #[trigger]
            call_ensures(store::put, (g, id), ()) && *g == before && *final(g) == after,
        set@ == after@,
        call_ensures(store::holds, (set, other), held),
        call_ensures(store::lookup, (map, id), found),
    ensures
        held <==> other == id || before@.contains(other),
        found is Some <==> map@.contains_key(id),
        found is Some ==> *found->0 == map@[id],
{
}

/// The value of a hexadecimal digit.
pub open spec fn digit_value(c: char) -> int {
    if '0' <= c && c <= '9' {
        c as int - '0' as int
    } else if 'a' <= c && c <= 'f' {
        c as int - 'a' as int + 10
    } else {
        -1
    }
}

pub proof fn lemma_hex(bytes: Seq<u8>, i: int)
    requires
        0 <= i < bytes.len(),
    ensures
        store::hex_of(bytes).len() == 2 * bytes.len(),
        digit_value(store::hex_of(bytes)[2 * i]) * 16 + digit_value(
            store::hex_of(bytes)[2 * i + 1],
        ) == bytes[i],
        digit_value(store::hex_of(bytes)[2 * i]) >= 0,
        digit_value(store::hex_of(bytes)[2 * i + 1]) >= 0,
    decreases bytes.len(),
{
    store::lemma_hex_length(bytes);
    let init = bytes.drop_last();
    store::lemma_hex_length(init);
    if i < init.len() {
        lemma_hex(init, i);
        assert(store::hex_of(bytes)[2 * i] == store::hex_of(init)[2 * i]);
        assert(store::hex_of(bytes)[2 * i + 1] == store::hex_of(init)[2 * i + 1]);
    } else {
        let b = bytes.last();
        assert(store::hex_of(bytes)[2 * i] == store::hex_digit((b / 16) as nat));
        assert(store::hex_of(bytes)[2 * i + 1] == store::hex_digit((b % 16) as nat));
        assert(b / 16 < 16 && b % 16 < 16);
    }
}

/// Bytes are written as two hexadecimal digits each, high one first; a hash has sixty-four,
/// and a session's token is the first sixteen of its name's.
pub proof fn hashes_are_written_in_hexadecimal(
    bytes: &[u8],
    r: String,
    i: int,
    s: &str,
    hash: String,
    token: String,
)
    requires
        call_ensures(store::hex, (bytes,), r),
        call_ensures(store::content_hash, (s,), hash),
        call_ensures(store::session_token, (s,), token),
    ensures
        r@.len() == 2 * bytes@.len(),
        0 <= i < bytes@.len() ==> digit_value(r@[2 * i]) * 16 + digit_value(r@[2 * i + 1])
            == bytes@[i],
        hash@.len() == 64,
        token@ == hash@.take(16),
{
    store::lemma_hex_length(bytes@);
    if 0 <= i < bytes@.len() {
        lemma_hex(bytes@, i);
    }
}

} // verus!
