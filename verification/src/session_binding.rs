//! The issue that a session works on.

use vstd::prelude::*;

use crate::attach;
use crate::state::IssueState;
use crate::text;

verus! {

/// An issue bound to a session, located by its recorded worktree session id.
pub struct BoundIssue {
    pub owner: String,
    pub repo: String,
    pub number: u64,
    pub state: IssueState,
}

/// Whether a state was recorded by a session: no-branch issues record none.
pub open spec fn belongs(state: IssueState, session_id: Seq<char>) -> bool {
    state.prep is Some && state.prep->0.worktree_session_id is Some
        && state.prep->0.worktree_session_id->0@ == session_id
}

/// Whether a state was recorded by a session.
pub fn is_bound(state: &IssueState, session_id: &str) -> (r: bool)
    ensures
        r == belongs(*state, session_id@),
{
    match &state.prep {
        Some(prep) => match &prep.worktree_session_id {
            Some(id) => text::same(id.as_str(), session_id),
            None => false,
        },
        None => false,
    }
}

/// A state file that was read: where it is, when it was written, and what it
/// holds.
pub struct StateFile {
    pub path: String,
    pub modified: u64,
    pub state: IssueState,
}

/// The stem of a file name: what precedes its last dot, unless nothing does.
pub open spec fn stem(name: Seq<char>) -> Seq<char> {
    if attach::last_dot(name) <= 0 {
        name
    } else {
        name.take(attach::last_dot(name))
    }
}

/// The owner, the repository and the number that a state file's path below the
/// root of all states names.
pub open spec fn issue_at(root: Seq<char>, path: Seq<char>) -> Option<(Seq<char>, Seq<char>, u64)> {
    match text::after_prefix(path, root + "/"@) {
        None => None,
        Some(rest) => {
            let parts = text::split(rest, '/');
            if parts.len() < 3 {
                None
            } else {
                match text::parse(stem(parts.last())) {
                    Some(number) => Some((parts[0], parts[1], number)),
                    None => None,
                }
            }
        },
    }
}

/// The stem of a file name.
fn stem_of(name: &str) -> (r: String)
    ensures
        r@ == stem(name@),
{
    let v = text::chars(name);
    let mut i: usize = v.len();
    assert(v@.take(v@.len() as int) =~= v@);
    while i > 0
        invariant
            i <= v.len(),
            v@ == name@,
            attach::last_dot(name@) == attach::last_dot(v@.take(i as int)),
        decreases i,
    {
        assert(v@.take(i as int).last() == v@[i - 1]);
        assert(v@.take(i as int).drop_last() =~= v@.take(i - 1));
        if v[i - 1] == '.' {
            if i == 1 {
                return text::copy(name);
            }
            let s = text::slice(&v, 0, i - 1);
            assert(s@ =~= name@.take(i - 1));
            return s;
        }
        i = i - 1;
    }
    text::copy(name)
}

/// Recover the owner, the repository and the number from a state file's path,
/// which is `<root>/<owner>/<repo>/<number>.json`.
pub fn bound_from_path(root: &str, path: &str) -> (r: Option<(String, String, u64)>)
    ensures
        match r {
            Some(named) => issue_at(root@, path@) == Some((named.0@, named.1@, named.2)),
            None => issue_at(root@, path@) is None,
        },
{
    let mut base = text::copy(root);
    base.append("/");
    match text::strip_prefix(path, base.as_str()) {
        None => None,
        Some(rest) => {
            let parts = text::split_on(rest.as_str(), '/');
            assert(text::views(parts@).len() == parts@.len());
            if parts.len() < 3 {
                return None;
            }
            assert(text::views(parts@).last() == parts@.last()@);
            let file = stem_of(parts[parts.len() - 1].as_str());
            match text::parse_number(file.as_str()) {
                Some(number) => Some(
                    (text::copy(parts[0].as_str()), text::copy(parts[1].as_str()), number),
                ),
                None => None,
            }
        },
    }
}

/// Whether a state file counts for a session: it recorded it, and names an issue.
pub open spec fn counts(file: StateFile, root: Seq<char>, session_id: Seq<char>) -> bool {
    belongs(file.state, session_id) && issue_at(root, file.path@) is Some
}

/// The position of the file that was written last, of those that count; the
/// first of several; -1 where none counts.
pub open spec fn latest(files: Seq<StateFile>, root: Seq<char>, session_id: Seq<char>) -> int
    decreases files.len(),
{
    if files.len() == 0 {
        -1
    } else {
        let before = latest(files.drop_last(), root, session_id);
        let f = files.last();
        if counts(f, root, session_id) && (before < 0 || f.modified > files[before].modified) {
            files.len() - 1
        } else {
            before
        }
    }
}

/// The position of the file that was written last, of those that count.
fn latest_file(files: &Vec<StateFile>, root: &str, session_id: &str) -> (r: Option<usize>)
    ensures
        match r {
            Some(at) => at < files@.len() && at == latest(files@, root@, session_id@),
            None => latest(files@, root@, session_id@) < 0,
        },
{
    let mut best: Option<usize> = None;
    let mut i: usize = 0;
    assert(files@.take(0) =~= seq![]);
    while i < files.len()
        invariant
            i <= files.len(),
            match best {
                Some(at) => at < i && at == latest(files@.take(i as int), root@, session_id@),
                None => latest(files@.take(i as int), root@, session_id@) < 0,
            },
        decreases files.len() - i,
    {
        proof {
            let now = files@.take(i + 1);
            assert(now.drop_last() =~= files@.take(i as int));
            assert(now.last() == files@[i as int]);
        }
        let f = &files[i];
        if is_bound(&f.state, session_id) && bound_from_path(root, f.path.as_str()).is_some() {
            let newer = match best {
                Some(at) => f.modified > files[at].modified,
                None => true,
            };
            if newer {
                best = Some(i);
            }
        }
        i = i + 1;
    }
    assert(files@.take(files@.len() as int) =~= files@);
    best
}

/// The issue whose worktree most recently ran under a session. Several matches
/// (one session having driven several issues) resolve to the most recently
/// modified state file.
pub fn find_bound_issue(files: Vec<StateFile>, root: &str, session_id: &str) -> (r: Option<
    BoundIssue,
>)
    ensures
        match r {
            Some(bound) => {
                let at = latest(files@, root@, session_id@);
                &&& 0 <= at < files@.len()
                &&& issue_at(root@, files@[at].path@) == Some(
                    (bound.owner@, bound.repo@, bound.number),
                )
                &&& bound.state == files@[at].state
            },
            None => latest(files@, root@, session_id@) < 0,
        },
{
    let at: usize = match latest_file(&files, root, session_id) {
        Some(at) => at,
        None => {
            return None;
        },
    };
    proof {
        lemma_latest_counts(files@, root@, session_id@);
    }
    let mut files = files;
    let file = files.swap_remove(at);
    match bound_from_path(root, file.path.as_str()) {
        Some((owner, repo, number)) => Some(BoundIssue { owner, repo, number, state: file.state }),
        None => None,
    }
}

proof fn lemma_latest_bounds(files: Seq<StateFile>, root: Seq<char>, session_id: Seq<char>)
    ensures
        -1 <= latest(files, root, session_id) < files.len(),
    decreases files.len(),
{
    if files.len() > 0 {
        lemma_latest_bounds(files.drop_last(), root, session_id);
    }
}

/// The issue found belongs to the session, and no other of its issues was
/// written later.
pub proof fn the_bound_issue_is_the_latest(
    files: Seq<StateFile>,
    root: Seq<char>,
    session_id: Seq<char>,
    k: int,
)
    requires
        0 <= k < files.len(),
        counts(files[k], root, session_id),
    ensures
        0 <= latest(files, root, session_id) < files.len(),
        counts(files[latest(files, root, session_id)], root, session_id),
        files[latest(files, root, session_id)].modified >= files[k].modified,
    decreases files.len(),
{
    let init = files.drop_last();
    let before = latest(init, root, session_id);
    lemma_latest_bounds(init, root, session_id);
    if k < init.len() {
        assert(init[k] == files[k]);
        the_bound_issue_is_the_latest(init, root, session_id, k);
        assert(init[before] == files[before]);
    } else if before >= 0 {
        lemma_latest_counts(init, root, session_id);
        assert(init[before] == files[before]);
    }
}

proof fn lemma_latest_counts(files: Seq<StateFile>, root: Seq<char>, session_id: Seq<char>)
    requires
        latest(files, root, session_id) >= 0,
    ensures
        latest(files, root, session_id) < files.len(),
        counts(files[latest(files, root, session_id)], root, session_id),
    decreases files.len(),
{
    let init = files.drop_last();
    let before = latest(init, root, session_id);
    lemma_latest_bounds(init, root, session_id);
    if before >= 0 {
        lemma_latest_counts(init, root, session_id);
        assert(init[before] == files[before]);
    }
}

} // verus!
