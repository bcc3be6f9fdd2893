//! Issues whose session crashed: their labels must not claim for ever that the
//! machine is at work.

use vstd::prelude::*;

use crate::github::RepoRef;
use crate::state::{Attention, IssueState, LabelSyncRecord};
use crate::text;

verus! {

pub open spec fn resets(concluded: bool, attention: Attention) -> bool {
    !concluded && (attention == Attention::WaitingOnGhwf || attention == Attention::WaitingOnClaude)
}

/// Whether an issue's attention should be reset to waiting on the user: it has
/// unconcluded work whose attention still claims the machine is on it. A
/// concluded workflow waits on nobody, and an issue already waiting on the user
/// is already correct.
pub fn should_reset_attention(concluded: bool, attention: Attention) -> (r: bool)
    ensures
        r == resets(concluded, attention),
{
    match attention {
        Attention::WaitingOnUser => false,
        _ => !concluded,
    }
}

/// Reset an issue that bears the crash signature: unconcluded work, still
/// showing the machine at work, with a stale lease left behind by a dead
/// session. Returns whether it did.
pub fn reset_if_abandoned(state: &mut IssueState, lease_is_stale: bool) -> (r: bool)
    ensures
        r == (resets(old(state).concluded(), old(state).attention) && lease_is_stale),
        *final(state) == (IssueState {
            attention: if r {
                Attention::WaitingOnUser
            } else {
                old(state).attention
            },
            ..*old(state)
        }),
{
    if should_reset_attention(state.is_concluded(), state.attention) && lease_is_stale {
        state.attention = Attention::WaitingOnUser;
        true
    } else {
        false
    }
}

/// Whether a reset is kept: only where the label sync landed, which changes the
/// record. Otherwise a later sweep tries again.
pub fn reset_landed(before: &Option<LabelSyncRecord>, after: &Option<LabelSyncRecord>) -> (r: bool)
    ensures
        r == (*before != *after),
{
    match (before, after) {
        (None, None) => false,
        (Some(a), Some(b)) => !crate::labels::same_record(a, b),
        _ => true,
    }
}

/// A reset issue is left alone by later sweeps.
pub proof fn resetting_is_idempotent(concluded: bool)
    ensures
        !resets(concluded, Attention::WaitingOnUser),
{
}

/// Whether a repository comes before another in the sweep, or is the same.
pub open spec fn repo_le(a: (Seq<char>, Seq<char>), b: (Seq<char>, Seq<char>)) -> bool {
    if a.0 == b.0 {
        text::le(a.1, b.1)
    } else {
        text::le(a.0, b.0)
    }
}

/// Whether a repository comes before another, or is the same.
fn repo_at_most(a: &RepoRef, b: &RepoRef) -> (r: bool)
    ensures
        r == repo_le((a.0@, a.1@), (b.0@, b.1@)),
{
    if text::same(a.0.as_str(), b.0.as_str()) {
        text::at_most(a.1.as_str(), b.1.as_str())
    } else {
        text::at_most(a.0.as_str(), b.0.as_str())
    }
}

/// `sorted` with `repo` in its place, unless it is there already.
pub open spec fn with_repo(
    sorted: Seq<(Seq<char>, Seq<char>)>,
    repo: (Seq<char>, Seq<char>),
) -> Seq<(Seq<char>, Seq<char>)>
    decreases sorted.len(),
{
    if sorted.len() == 0 {
        seq![repo]
    } else if sorted.last() == repo {
        sorted
    } else if repo_le(sorted.last(), repo) {
        sorted.push(repo)
    } else {
        with_repo(sorted.drop_last(), repo).push(sorted.last())
    }
}

/// The repositories in order, each once.
pub open spec fn sweep_order(repos: Seq<(Seq<char>, Seq<char>)>) -> Seq<(Seq<char>, Seq<char>)>
    decreases repos.len(),
{
    if repos.len() == 0 {
        seq![]
    } else {
        with_repo(sweep_order(repos.drop_last()), repos.last())
    }
}

/// Put `repo` in its place, unless it is there already.
fn add_repo(sorted: &mut Vec<RepoRef>, repo: RepoRef)
    ensures
        crate::config::repo_views(final(sorted)@) == with_repo(
            crate::config::repo_views(old(sorted)@),
            (repo.0@, repo.1@),
        ),
{
    let ghost s = crate::config::repo_views(sorted@);
    let ghost key = (repo.0@, repo.1@);
    let mut i: usize = sorted.len();
    assert(s.take(i as int) =~= s);
    assert(with_repo(s, key) =~= with_repo(s.take(i as int), key) + s.skip(i as int));
    while i > 0
        invariant
            i <= sorted.len(),
            s == crate::config::repo_views(sorted@),
            sorted@ == old(sorted)@,
            key == (repo.0@, repo.1@),
            with_repo(s, key) == with_repo(s.take(i as int), key) + s.skip(i as int),
        decreases i,
    {
        let ghost t = s.take(i as int);
        assert(t.last() == s[i - 1]);
        assert(t.drop_last() =~= s.take(i - 1));
        if text::same(sorted[i - 1].0.as_str(), repo.0.as_str()) && text::same(
            sorted[i - 1].1.as_str(),
            repo.1.as_str(),
        ) {
            assert(t + s.skip(i as int) =~= s);
            return ;
        }
        if repo_at_most(&sorted[i - 1], &repo) {
            let ghost before = sorted@;
            sorted.insert(i, repo);
            proof {
                assert(crate::config::repo_views(sorted@) =~= t.push(key) + s.skip(i as int));
            }
            return ;
        }
        proof {
            assert(with_repo(s.take(i - 1), key).push(s[i - 1]) + s.skip(i as int) =~= with_repo(
                s.take(i - 1),
                key,
            ) + s.skip(i - 1));
        }
        i = i - 1;
    }
    sorted.insert(0, repo);
    proof {
        assert(s.take(0) =~= seq![]);
        assert(crate::config::repo_views(sorted@) =~= seq![key] + s.skip(0));
    }
}

/// The repositories whose issues a sweep covers: the code repo plus every
/// foreign issue repo, in order, each once.
pub fn repos_to_sweep(code_repo: RepoRef, issue_repos: Vec<RepoRef>) -> (r: Vec<RepoRef>)
    ensures
        crate::config::repo_views(r@) == sweep_order(
            seq![(code_repo.0@, code_repo.1@)] + crate::config::repo_views(issue_repos@),
        ),
{
    let mut out: Vec<RepoRef> = Vec::new();
    let ghost foreign = crate::config::repo_views(issue_repos@);
    let ghost first = seq![(code_repo.0@, code_repo.1@)];
    proof {
        assert(crate::config::repo_views(out@) =~= seq![]);
        assert(first.drop_last() =~= seq![]);
        assert(sweep_order(first.drop_last()) =~= seq![]);
    }
    add_repo(&mut out, code_repo);
    assert(first + foreign.take(0) =~= first);
    let mut i: usize = 0;
    while i < issue_repos.len()
        invariant
            i <= issue_repos.len(),
            foreign == crate::config::repo_views(issue_repos@),
            crate::config::repo_views(out@) == sweep_order(first + foreign.take(i as int)),
        decreases issue_repos.len() - i,
    {
        let repo = (
            text::copy(issue_repos[i].0.as_str()),
            text::copy(issue_repos[i].1.as_str()),
        );
        add_repo(&mut out, repo);
        proof {
            let now = first + foreign.take(i + 1);
            assert(now.drop_last() =~= first + foreign.take(i as int));
            assert(now.last() == foreign[i as int]);
        }
        i = i + 1;
    }
    assert(foreign.take(foreign.len() as int) =~= foreign);
    out
}

} // verus!
