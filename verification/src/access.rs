//! Who may drive the workflow: the acceptance policy for third-party comments
//! and 👍 reactions.
//!
//! On a public repo anyone can comment or react, so only input counts whose
//! author is the authenticated operator, an explicitly allow-listed user, or a
//! repo collaborator. Comments carry an author association, so the collaborator
//! check is free for them; reactions don't, so collaborator status for a 👍 is
//! resolved against the repo's collaborator list.

use vstd::prelude::*;

use crate::github::RepoRef;
use crate::text;

verus! {

/// The repository that `repo` names.
pub open spec fn repo_of(repo: RepoRef) -> (Seq<char>, Seq<char>) {
    (repo.0@, repo.1@)
}

/// What an [`AccessList`] stands for: logins in lower case.
pub struct Policy {
    pub me: Seq<char>,
    pub allowed: Set<Seq<char>>,
    pub collaborators: Map<(Seq<char>, Seq<char>), Set<Seq<char>>>,
}

impl Policy {
    /// The operator, or explicitly allow-listed.
    pub open spec fn trusts(self, login: Seq<char>) -> bool {
        text::lower(login) == self.me || self.allowed.contains(text::lower(login))
    }

    pub open spec fn comment(self, login: Seq<char>, association: Seq<char>) -> bool {
        self.trusts(login) || is_collaborator(association)
    }

    pub open spec fn reaction(self, repo: (Seq<char>, Seq<char>), login: Seq<char>) -> bool {
        self.trusts(login) || (self.collaborators.dom().contains(repo)
            && self.collaborators[repo].contains(text::lower(login)))
    }

    pub open spec fn reaction_any(self, login: Seq<char>) -> bool {
        self.trusts(login) || exists|repo: (Seq<char>, Seq<char>)|
            self.collaborators.dom().contains(repo)
                && #[trigger] self.collaborators[repo].contains(text::lower(login))
    }
}

/// Comment associations that count as "repo collaborator" for acceptance.
pub open spec fn is_collaborator(association: Seq<char>) -> bool {
    association == "OWNER"@ || association == "MEMBER"@ || association == "COLLABORATOR"@
}

/// The logins of a list, in lower case.
pub open spec fn login_set(logins: Seq<String>) -> Set<Seq<char>> {
    Set::new(|l: Seq<char>| exists|i: int| 0 <= i < logins.len() && l == #[trigger] text::lower(logins[i]@))
}

/// The collaborators of one repository, in lower case.
struct RepoCollaborators {
    repo: RepoRef,
    logins: Vec<String>,
}

/// A resolved acceptance policy. Construct once per process; the decision
/// methods read it only (collaborator sets are recorded up front with
/// [`AccessList::ensure_collaborators`]).
pub struct AccessList {
    me: String,
    allowed: Vec<String>,
    collaborators: Vec<RepoCollaborators>,
}

spec fn has_repo(entries: Seq<RepoCollaborators>, repo: (Seq<char>, Seq<char>)) -> bool {
    exists|i: int| 0 <= i < entries.len() && #[trigger] repo_of(entries[i].repo) == repo
}

spec fn entry_of(entries: Seq<RepoCollaborators>, repo: (Seq<char>, Seq<char>)) -> int {
    choose|i: int| 0 <= i < entries.len() && #[trigger] repo_of(entries[i].repo) == repo
}

spec fn exact_set(logins: Seq<String>) -> Set<Seq<char>> {
    Set::new(|l: Seq<char>| text::listed(logins, l))
}

impl View for AccessList {
    type V = Policy;

    closed spec fn view(&self) -> Policy {
        Policy {
            me: self.me@,
            allowed: exact_set(self.allowed@),
            collaborators: Map::new(
                |repo: (Seq<char>, Seq<char>)| has_repo(self.collaborators@, repo),
                |repo: (Seq<char>, Seq<char>)|
                    exact_set(
                        self.collaborators@[entry_of(self.collaborators@, repo)].logins@,
                    ),
            ),
        }
    }
}

/// `logins` in lower case.
fn lowered_all(logins: &[String]) -> (r: Vec<String>)
    ensures
        exact_set(r@) == login_set(logins@),
{
    let mut out: Vec<String> = Vec::new();
    let mut i: usize = 0;
    while i < logins.len()
        invariant
            i <= logins.len(),
            out.len() == i,
            forall|j: int| 0 <= j < i ==> #[trigger] out@[j]@ == text::lower(logins@[j]@),
        decreases logins.len() - i,
    {
        out.push(text::lowered(logins[i].as_str()));
        i = i + 1;
    }
    proof {
        assert forall|l: Seq<char>| exact_set(out@).contains(l) implies login_set(
            logins@,
        ).contains(l) by {
            let j = choose|j: int| 0 <= j < out@.len() && #[trigger] out@[j]@ == l;
            assert(text::lower(logins@[j]@) == l);
        }
        assert forall|l: Seq<char>| login_set(logins@).contains(l) implies exact_set(
            out@,
        ).contains(l) by {
            let j = choose|j: int|
                0 <= j < logins@.len() && l == #[trigger] text::lower(logins@[j]@);
            assert(out@[j]@ == l);
        }
        assert(exact_set(out@) =~= login_set(logins@));
    }
    out
}

impl AccessList {
    /// No repository has two entries.
    #[verifier::type_invariant]
    spec fn distinct(self) -> bool {
        forall|i: int, j: int|
            0 <= i < j < self.collaborators@.len() ==> #[trigger] repo_of(
                self.collaborators@[i].repo,
            ) != #[trigger] repo_of(self.collaborators@[j].repo)
    }

    /// Resolve from the reply to the authenticated-user lookup plus
    /// `allowed_users`. A failed lookup is passed on.
    pub fn resolve(
        me: Result<String, String>,
        allowed_users: &[String],
    ) -> (r: Result<Self, String>)
        ensures
            match r {
                Ok(list) => me is Ok && list@ == (Policy {
                    me: text::lower(me->Ok_0@),
                    allowed: login_set(allowed_users@),
                    collaborators: Map::empty(),
                }),
                Err(e) => me == Err::<String, String>(e),
            },
    {
        match me {
            Ok(me) => Ok(Self::new(me.as_str(), allowed_users)),
            Err(e) => Err(e),
        }
    }

    /// Build a policy from the authenticated login and `allowed_users`, with no
    /// collaborator sets recorded.
    pub fn new(me: &str, allowed_users: &[String]) -> (r: Self)
        ensures
            r@ == (Policy {
                me: text::lower(me@),
                allowed: login_set(allowed_users@),
                collaborators: Map::empty(),
            }),
    {
        let r = AccessList {
            me: text::lowered(me),
            allowed: lowered_all(allowed_users),
            collaborators: Vec::new(),
        };
        assert(r@.collaborators =~= Map::empty());
        r
    }

    /// The position of `repo`'s collaborator set.
    fn position(&self, repo: &RepoRef) -> (r: Option<usize>)
        ensures
            match r {
                Some(i) => i < self.collaborators.len() && has_repo(
                    self.collaborators@,
                    repo_of(*repo),
                ) && i == entry_of(self.collaborators@, repo_of(*repo)),
                None => !has_repo(self.collaborators@, repo_of(*repo)),
            },
    {
        proof {
            use_type_invariant(self);
        }
        let mut i: usize = 0;
        while i < self.collaborators.len()
            invariant
                i <= self.collaborators.len(),
                self.distinct(),
                forall|j: int|
                    0 <= j < i ==> #[trigger] repo_of(self.collaborators@[j].repo) != repo_of(*repo),
            decreases self.collaborators.len() - i,
        {
            let entry = &self.collaborators[i];
            if text::same(entry.repo.0.as_str(), repo.0.as_str()) && text::same(
                entry.repo.1.as_str(),
                repo.1.as_str(),
            ) {
                assert(repo_of(self.collaborators@[i as int].repo) == repo_of(*repo));
                return Some(i);
            }
            assert(repo_of(self.collaborators@[i as int].repo) != repo_of(*repo));
            i = i + 1;
        }
        None
    }

    /// Whether the collaborators of `repo` are recorded: the fetch is needed
    /// only where they are not.
    pub fn has_collaborators(&self, repo: &RepoRef) -> (r: bool)
        ensures
            r == self@.collaborators.dom().contains(repo_of(*repo)),
    {
        self.position(repo).is_some()
    }

    /// Record the collaborator logins of `repo`. What is already recorded stays.
    pub fn ensure_collaborators(&mut self, repo: &RepoRef, logins: &[String])
        ensures
            final(self)@ == (Policy {
                collaborators: if old(self)@.collaborators.dom().contains(repo_of(*repo)) {
                    old(self)@.collaborators
                } else {
                    old(self)@.collaborators.insert(repo_of(*repo), login_set(logins@))
                },
                ..old(self)@
            }),
    {
        if self.position(repo).is_some() {
            return ;
        }
        proof {
            use_type_invariant(&*self);
        }
        let entry = RepoCollaborators {
            repo: (text::copy(repo.0.as_str()), text::copy(repo.1.as_str())),
            logins: lowered_all(logins),
        };
        let mut entries: Vec<RepoCollaborators> = Vec::new();
        std::mem::swap(&mut entries, &mut self.collaborators);
        let ghost before = entries@;
        entries.push(entry);
        let ghost key = repo_of(*repo);
        proof {
            assert(repo_of(entry.repo) == key);
            assert forall|i: int, j: int|
                0 <= i < j < entries@.len() implies #[trigger] repo_of(entries@[i].repo)
                != #[trigger] repo_of(entries@[j].repo) by {
                assert(repo_of(before[i].repo) != key);
                if j < before.len() {
                    assert(repo_of(before[i].repo) != repo_of(before[j].repo));
                }
            }
        }
        self.collaborators = entries;
        proof {
            let now = self.collaborators@;
            let expected = old(self)@.collaborators.insert(key, login_set(logins@));
            assert forall|k: (Seq<char>, Seq<char>)| has_repo(now, k) == expected.dom().contains(
                k,
            ) by {
                if has_repo(before, k) {
                    let i = entry_of(before, k);
                    assert(repo_of(now[i].repo) == k);
                }
                if k == key {
                    assert(repo_of(now[before.len() as int].repo) == k);
                }
                if has_repo(now, k) && k != key {
                    let i = entry_of(now, k);
                    assert(repo_of(before[i].repo) == k);
                }
            }
            assert forall|k: (Seq<char>, Seq<char>)| has_repo(now, k) implies exact_set(
                now[entry_of(now, k)].logins@,
            ) == #[trigger] expected[k] by {
                let i = entry_of(now, k);
                assert(repo_of(now[i].repo) == k);
                if k == key {
                    if i < before.len() {
                        assert(repo_of(before[i].repo) == key);
                    }
                } else {
                    assert(repo_of(before[i].repo) == k);
                    let b = entry_of(before, k);
                    assert(repo_of(before[b].repo) == k);
                    assert(repo_of(now[b].repo) == k);
                    assert(i == b);
                }
            }
            assert(self@.collaborators =~= expected);
        }
    }

    /// Whether `login` is the operator or explicitly allow-listed.
    fn is_self_or_allowed(&self, login: &str) -> (r: bool)
        ensures
            r == self@.trusts(login@),
    {
        let login = text::lowered(login);
        text::same(login.as_str(), self.me.as_str()) || text::member(&self.allowed, login.as_str())
    }

    /// Accept a comment by its author login and its author association.
    pub fn accepts_comment(&self, login: &str, association: &str) -> (r: bool)
        ensures
            r == self@.comment(login@, association@),
    {
        self.is_self_or_allowed(login) || text::same(association, "OWNER") || text::same(
            association,
            "MEMBER",
        ) || text::same(association, "COLLABORATOR")
    }

    /// Accept an issue for *automatic* selection by its author, so a public
    /// repo's strangers can't get the issues they open picked. Same rule as
    /// [`AccessList::accepts_comment`].
    pub fn accepts_issue(&self, login: &str, association: &str) -> (r: bool)
        ensures
            r == self@.comment(login@, association@),
    {
        self.accepts_comment(login, association)
    }

    /// Accept a 👍 reaction by its author login, against the collaborator set
    /// recorded for `repo`.
    pub fn accepts_reaction(&self, repo: &RepoRef, login: &str) -> (r: bool)
        ensures
            r == self@.reaction(repo_of(*repo), login@),
    {
        if self.is_self_or_allowed(login) {
            return true;
        }
        match self.position(repo) {
            Some(i) => {
                let login = text::lowered(login);
                text::member(&self.collaborators[i].logins, login.as_str())
            },
            None => false,
        }
    }

    /// Accept a 👍 by author against *any* recorded collaborator set, ignoring
    /// which repo it's on: for the wake gate, where an extra wake is harmless.
    pub fn accepts_reaction_any(&self, login: &str) -> (r: bool)
        ensures
            r == self@.reaction_any(login@),
    {
        if self.is_self_or_allowed(login) {
            return true;
        }
        proof {
            use_type_invariant(self);
        }
        let low = text::lowered(login);
        let mut i: usize = 0;
        while i < self.collaborators.len()
            invariant
                i <= self.collaborators.len(),
                self.distinct(),
                low@ == text::lower(login@),
                forall|j: int|
                    0 <= j < i ==> !text::listed(#[trigger] self.collaborators@[j].logins@, low@),
            decreases self.collaborators.len() - i,
        {
            if text::member(&self.collaborators[i].logins, low.as_str()) {
                proof {
                    let k = repo_of(self.collaborators@[i as int].repo);
                    assert(has_repo(self.collaborators@, k));
                    let e = entry_of(self.collaborators@, k);
                    assert(repo_of(self.collaborators@[e].repo) == k);
                    assert(e == i);
                    assert(self@.collaborators[k].contains(low@));
                }
                return true;
            }
            i = i + 1;
        }
        proof {
            assert forall|k: (Seq<char>, Seq<char>)|
                self@.collaborators.dom().contains(k) implies !#[trigger] self@.collaborators[k].contains(
                low@,
            ) by {
                let e = entry_of(self.collaborators@, k);
                assert(repo_of(self.collaborators@[e].repo) == k);
                assert(!text::listed(self.collaborators@[e].logins@, low@));
            }
        }
        false
    }

    /// Whether a 👍 from `login` still needs a collaborator lookup to decide.
    pub fn reaction_needs_collaborators(&self, login: &str) -> (r: bool)
        ensures
            r == !self@.trusts(login@),
    {
        !self.is_self_or_allowed(login)
    }
}

/// A policy looks at a login without regard to the case of its letters.
pub proof fn policy_ignores_login_case(
    p: Policy,
    a: Seq<char>,
    b: Seq<char>,
    association: Seq<char>,
    repo: (Seq<char>, Seq<char>),
)
    requires
        text::lower(a) == text::lower(b),
    ensures
        p.comment(a, association) == p.comment(b, association),
        p.reaction(repo, a) == p.reaction(repo, b),
        p.reaction_any(a) == p.reaction_any(b),
{
}

/// Whoever needs no collaborator lookup is accepted everywhere.
pub proof fn trusted_logins_are_always_accepted(
    p: Policy,
    login: Seq<char>,
    association: Seq<char>,
    repo: (Seq<char>, Seq<char>),
)
    requires
        p.trusts(login),
    ensures
        p.comment(login, association),
        p.reaction(repo, login),
        p.reaction_any(login),
{
}

/// A reaction that some repository's policy accepts passes the wake gate.
pub proof fn accepted_reactions_pass_the_wake_gate(
    p: Policy,
    repo: (Seq<char>, Seq<char>),
    login: Seq<char>,
)
    requires
        p.reaction(repo, login),
    ensures
        p.reaction_any(login),
{
}

} // verus!
