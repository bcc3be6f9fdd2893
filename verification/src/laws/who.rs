//! Who may drive the workflow.

use vstd::prelude::*;

use crate::access::AccessList;
use crate::github::RepoRef;
use crate::text;

verus! {

/// The operator, or on the list of allowed users.
pub open spec fn trusted(list: AccessList, login: Seq<char>) -> bool {
    text::lower(login) == list@.me || list@.allowed.contains(text::lower(login))
}

/// The author of a comment may drive the workflow: the operator, an allowed user, or
/// someone whom GitHub calls owner, member or collaborator.
pub open spec fn welcome(list: AccessList, login: Seq<char>, association: Seq<char>) -> bool {
    ||| trusted(list, login)
    ||| association == "OWNER"@
    ||| association == "MEMBER"@
    ||| association == "COLLABORATOR"@
}

/// Someone who reacts on `repo` may drive the workflow: the operator, an allowed user,
/// or one of the repository's collaborators.
pub open spec fn welcome_thumb(list: AccessList, repo: RepoRef, login: Seq<char>) -> bool {
    ||| trusted(list, login)
    ||| (list@.collaborators.dom().contains((repo.0@, repo.1@))
        && list@.collaborators[(repo.0@, repo.1@)].contains(text::lower(login)))
}

/// One of these logins is `login`, whatever the case of its letters.
pub open spec fn named(logins: Seq<String>, login: Seq<char>) -> bool {
    exists|i: int| 0 <= i < logins.len() && text::lower(#[trigger] logins[i]@) == text::lower(login)
}

/// A comment, and an issue, is accepted from the operator, from allowed users, and from
/// owners, members and collaborators, and from nobody else.
pub proof fn comments_are_accepted_from(
    me: &str,
    allowed: &[String],
    list: AccessList,
    login: &str,
    association: &str,
    r: bool,
)
    requires
        call_ensures(AccessList::new, (me, allowed), list),
        call_ensures(AccessList::accepts_comment, (&list, login, association), r)
            || call_ensures(AccessList::accepts_issue, (&list, login, association), r),
    ensures
        r <==> {
            ||| text::lower(login@) == text::lower(me@)
            ||| named(allowed@, login@)
            ||| association@ == "OWNER"@
            ||| association@ == "MEMBER"@
            ||| association@ == "COLLABORATOR"@
        },
{
    if crate::access::login_set(allowed@).contains(text::lower(login@)) {
        let i = choose|i: int|
            0 <= i < allowed@.len() && text::lower(login@) == #[trigger] text::lower(allowed@[i]@);
        assert(text::lower(allowed@[i]@) == text::lower(login@));
    }
    if named(allowed@, login@) {
        let i = choose|i: int|
            0 <= i < allowed@.len() && text::lower(#[trigger] allowed@[i]@) == text::lower(login@);
        assert(crate::access::login_set(allowed@).contains(text::lower(login@)));
    }
}

/// What the lookup of the operator gave is the operator, and a failed one is passed on.
pub proof fn the_operator_is_looked_up(
    me: Result<String, String>,
    allowed: &[String],
    login: &str,
    association: &str,
    list: Result<AccessList, String>,
    r: bool,
)
    requires
        call_ensures(AccessList::resolve, (me, allowed), list),
        list is Ok ==> call_ensures(
            AccessList::accepts_comment,
            (&list->Ok_0, login, association),
            r,
        ),
    ensures
        list is Ok <==> me is Ok,
        me is Err ==> list->Err_0 == me->Err_0,
        me is Ok ==> (r <==> {
            ||| text::lower(login@) == text::lower(me->Ok_0@)
            ||| named(allowed@, login@)
            ||| association@ == "OWNER"@
            ||| association@ == "MEMBER"@
            ||| association@ == "COLLABORATOR"@
        }),
{
    if me is Ok {
        if crate::access::login_set(allowed@).contains(text::lower(login@)) {
            let i = choose|i: int|
                0 <= i < allowed@.len() && text::lower(login@) == #[trigger] text::lower(
                    allowed@[i]@,
                );
            assert(text::lower(allowed@[i]@) == text::lower(login@));
        }
        if named(allowed@, login@) {
            let i = choose|i: int|
                0 <= i < allowed@.len() && text::lower(#[trigger] allowed@[i]@) == text::lower(
                    login@,
                );
            assert(crate::access::login_set(allowed@).contains(text::lower(login@)));
        }
    }
}

/// A reaction on a repository is accepted from the operator, from allowed users, and
/// from the collaborators recorded for that repository; another repository's are not
/// taken for it, and what is recorded first stays.
pub proof fn reactions_are_accepted_from(
    me: &str,
    allowed: &[String],
    fresh: AccessList,
    repo: &RepoRef,
    logins: &[String],
    list: AccessList,
    other: &RepoRef,
    login: &str,
    here: bool,
    there: bool,
    anywhere: bool,
)
    requires
        call_ensures(AccessList::new, (me, allowed), fresh),
        exists|g: &mut AccessList| #[trigger]
            call_ensures(AccessList::ensure_collaborators, (g, repo, logins), ()) && *g == fresh
                && *final(g) == list,
        call_ensures(AccessList::accepts_reaction, (&list, repo, login), here),
        other.0@ != repo.0@ || other.1@ != repo.1@,
        call_ensures(AccessList::accepts_reaction, (&list, other, login), there),
        call_ensures(AccessList::accepts_reaction_any, (&list, login), anywhere),
    ensures
        here <==> (text::lower(login@) == text::lower(me@) || named(allowed@, login@) || named(
            logins@,
            login@,
        )),
        there <==> (text::lower(login@) == text::lower(me@) || named(allowed@, login@)),
        anywhere <==> here,
{
    let key = (repo.0@, repo.1@);
    assert(crate::access::repo_of(*repo) == key);
    assert(crate::access::repo_of(*other) != key);
    lemma_named(allowed@, login@);
    lemma_named(logins@, login@);
    assert(list@.collaborators =~= Map::empty().insert(
        key,
        crate::access::login_set(logins@),
    ));
    if here && !fresh@.trusts(login@) {
        assert(list@.collaborators[key].contains(text::lower(login@)));
    }
}

proof fn lemma_named(logins: Seq<String>, login: Seq<char>)
    ensures
        crate::access::login_set(logins).contains(text::lower(login)) == named(logins, login),
{
    if crate::access::login_set(logins).contains(text::lower(login)) {
        let i = choose|i: int|
            0 <= i < logins.len() && text::lower(login) == #[trigger] text::lower(logins[i]@);
        assert(text::lower(logins[i]@) == text::lower(login));
    }
    if named(logins, login) {
        let i = choose|i: int|
            0 <= i < logins.len() && text::lower(#[trigger] logins[i]@) == text::lower(login);
        assert(text::lower(login) == text::lower(logins[i]@));
    }
}

/// Only someone who is neither the operator nor allowed needs looking up among the
/// collaborators, and only where that repository's are not recorded yet.
pub proof fn lookups_are_spared(
    list: AccessList,
    repo: &RepoRef,
    login: &str,
    needed: bool,
    recorded: bool,
    r: bool,
)
    requires
        call_ensures(AccessList::reaction_needs_collaborators, (&list, login), needed),
        call_ensures(AccessList::has_collaborators, (&list, repo), recorded),
        call_ensures(AccessList::accepts_reaction, (&list, repo, login), r),
    ensures
        !needed ==> r,
        needed && !recorded ==> !r,
        needed <==> !trusted(list, login@),
{
}

} // verus!
