//! What a session is told of the conversation.

use std::collections::BTreeMap;
use vstd::prelude::*;

use crate::access::AccessList;
use crate::laws::who::welcome;
use crate::models::{Comment, ReviewComment};
use crate::render::{self, CommentView, IgnoredInput, IgnoredKind, Marker, ReviewCommentView};
use crate::run::{self, Fetched, News};
use crate::seen::{self, SeenRecord};
use crate::store;
use crate::text;
use crate::threads::{
    self, ignored_comments, ignored_reviews, new_comments, new_reviews,
};
use crate::workflow;

verus! {

/// A text is new to a session: it is neither hidden from it, nor what it has seen
/// under this id.
pub open spec fn fresh(
    seen: Map<u64, String>,
    my_token: Seq<char>,
    id: u64,
    body: Seq<char>,
) -> bool {
    &&& !render::hidden(body, Some(my_token))
    &&& !(seen.contains_key(id) && seen[id]@ == store::hash_of(body))
}

/// Positions among `n`, each behind the one before it.
pub open spec fn rising(idx: Seq<int>, n: int) -> bool {
    &&& forall|v: int| 0 <= v < idx.len() ==> 0 <= #[trigger] idx[v] < n
    &&& forall|v: int, w: int| 0 <= v < w < idx.len() ==> #[trigger] idx[v] < #[trigger] idx[w]
}

/// `r` is what is shown of a text: all of it where it holds no hidden marker, else what
/// stands before the first, without the white space that it ends with.
pub open spec fn is_shown(body: Seq<char>, r: Seq<char>) -> bool {
    &&& !text::contains(body, "<!-- ghwf:v1 "@) ==> r == body
    &&& text::contains(body, "<!-- ghwf:v1 "@) ==> exists|at: int| #[trigger]
        text::is_first(body, "<!-- ghwf:v1 "@, at) && r.len() <= at && r == body.take(
            r.len() as int,
        ) && (forall|i: int| r.len() <= i < at ==> text::is_space(#[trigger] body[i])) && (r.len()
            > 0 ==> !text::is_space(r.last()))
}

proof fn lemma_trim_end(s: Seq<char>)
    ensures
        text::trim_end(s).len() <= s.len(),
        text::trim_end(s) == s.take(text::trim_end(s).len() as int),
        forall|i: int| text::trim_end(s).len() <= i < s.len() ==> text::is_space(#[trigger] s[i]),
        text::trim_end(s).len() > 0 ==> !text::is_space(text::trim_end(s).last()),
    decreases s.len(),
{
    if s.len() > 0 && text::is_space(s.last()) {
        let init = s.drop_last();
        lemma_trim_end(init);
        let n = text::trim_end(init).len() as int;
        assert(init.take(n) =~= s.take(n));
        assert forall|i: int| n <= i < s.len() implies text::is_space(#[trigger] s[i]) by {
            if i < init.len() {
                assert(init[i] == s[i]);
            }
        }
    } else {
        assert(s.take(s.len() as int) =~= s);
    }
}

proof fn lemma_found(s: Seq<char>, p: Seq<char>)
    requires
        text::contains(s, p),
    ensures
        text::find(s, p) is Some,
        text::is_first(s, p, text::find(s, p)->0),
{
    let i = choose|i: int| text::at(s, p, i);
    lemma_some_first(s, p, i);
}

proof fn lemma_some_first(s: Seq<char>, p: Seq<char>, i: int)
    requires
        text::at(s, p, i),
    ensures
        exists|j: int| text::is_first(s, p, j),
    decreases i,
{
    if exists|j: int| 0 <= j < i && text::at(s, p, j) {
        let j = choose|j: int| 0 <= j < i && text::at(s, p, j);
        lemma_some_first(s, p, j);
    } else {
        assert(text::is_first(s, p, i));
    }
}

proof fn lemma_shown(body: Seq<char>)
    ensures
        is_shown(body, render::shown(body)),
{
    if text::contains(body, "<!-- ghwf:v1 "@) {
        lemma_found(body, "<!-- ghwf:v1 "@);
        let at = text::find(body, "<!-- ghwf:v1 "@)->0;
        let head = body.take(at);
        lemma_trim_end(head);
        let n = text::trim_end(head).len() as int;
        assert(head.take(n) =~= body.take(n));
        assert forall|i: int| n <= i < at implies text::is_space(#[trigger] body[i]) by {
            assert(head[i] == body[i]);
        }
    }
}

/// What is shown of a comment is what its author wrote, up to the hidden marker.
pub proof fn markers_are_not_shown(body: &str, r: String)
    requires
        call_ensures(render::strip_ghwf_marker, (body,), r),
    ensures
        is_shown(body@, r@),
{
    lemma_shown(body@);
}

/// A comment is a status update where it holds that marker, a session's where it holds
/// that session's and no status marker, and a user's where it holds neither.
pub proof fn markers_tell_who_wrote(body: &str, r: Option<Marker>)
    requires
        call_ensures(render::extract_marker, (body,), r),
    ensures
        text::contains(body@, "<!-- ghwf:v1 status -->"@) <==> r matches Some(Marker::Status),
        r matches Some(Marker::Session(token)) ==> text::contains(
            body@,
            "<!-- ghwf:v1 session="@ + token@ + " -->"@,
        ),
        !text::contains(body@, "<!-- ghwf:v1 status -->"@) && !text::contains(
            body@,
            "<!-- ghwf:v1 session="@,
        ) ==> r is None,
        forall|at: int, end: int|
            #![trigger body@.subrange(at, end)]
            text::is_first(body@, "<!-- ghwf:v1 session="@, at) && at + 21 <= end
                && text::is_first(body@.skip(at + 21), " -->"@, end - at - 21) && !text::contains(
                body@,
                "<!-- ghwf:v1 status -->"@,
            ) ==> r is Some && r->0 is Session && r->0->Session_0@ == body@.subrange(at + 21, end),
{
    let prefix = "<!-- ghwf:v1 session="@;
    reveal_strlit("<!-- ghwf:v1 session=");
    assert(prefix.len() == 21);
    if r is Some && r->0 is Session {
        let token = r->0->Session_0;
        assert(text::contains(body@, prefix));
        lemma_found(body@, prefix);
        let at = text::find(body@, prefix)->0;
        let rest = body@.skip(at + 21);
        assert(text::contains(rest, " -->"@));
        lemma_found(rest, " -->"@);
        let end = text::find(rest, " -->"@)->0;
        let whole = prefix + token@ + " -->"@;
        reveal_strlit(" -->");
        assert(body@.subrange(at, at + 21) == prefix);
        assert(rest.subrange(end, end + 4) == " -->"@);
        assert forall|i: int| 0 <= i < whole.len() implies whole[i] == body@[at + i] by {
            if i < 21 {
                assert(body@.subrange(at, at + 21)[i] == body@[at + i]);
            } else if i < 21 + end {
                assert(token@[i - 21] == rest[i - 21]);
            } else {
                assert(rest.subrange(end, end + 4)[i - 21 - end] == rest[i - 21]);
            }
        }
        assert(body@.subrange(at, at + whole.len()) =~= whole);
        assert(text::at(body@, whole, at));
    }
    assert forall|at: int, end: int|
        #![trigger body@.subrange(at, end)]
        text::is_first(body@, prefix, at) && at + 21 <= end && text::is_first(
            body@.skip(at + 21),
            " -->"@,
            end - at - 21,
        ) && !text::contains(body@, "<!-- ghwf:v1 status -->"@) implies r is Some && r->0 is Session
        && r->0->Session_0@ == body@.subrange(at + 21, end) by {
        text::lemma_find(body@, prefix, at);
        text::lemma_find(body@.skip(at + 21), " -->"@, end - at - 21);
        assert(body@.skip(at + 21).take(end - at - 21) =~= body@.subrange(at + 21, end));
    }
}

/// A session is not told of status updates, whoever posted them, nor of what it wrote
/// itself; it is told of everything else, another session's comments among it.
pub proof fn only_machinery_and_own_posts_are_hidden(
    body: &str,
    my_token: Option<&str>,
    marker: Option<Marker>,
    r: bool,
)
    requires
        call_ensures(render::extract_marker, (body,), marker),
        call_ensures(render::hidden_from_digest, (body, my_token), r),
    ensures
        marker is None ==> !r,
        marker matches Some(Marker::Status) ==> r,
        marker matches Some(Marker::Session(token)) ==> (r <==> my_token is Some && my_token->0@
            == token@),
        my_token is Some ==> (r <==> render::hidden(body@, Some(my_token->0@))),
{
}

pub proof fn lemma_new_comments(
    comments: Seq<Comment>,
    seen: Map<u64, String>,
    my_token: Seq<char>,
    access: AccessList,
) -> (idx: Seq<int>)
    ensures
        rising(idx, comments.len() as int),
        idx.len() == new_comments(comments, seen, my_token, access).len(),
        forall|v: int|
            #![trigger idx[v]]
            0 <= v < idx.len() ==> {
                let n = new_comments(comments, seen, my_token, access)[v];
                let c = comments[idx[v]];
                &&& fresh(seen, my_token, c.id, c.body@)
                &&& welcome(access, c.user.login@, c.author_association@)
                &&& n.comment == c && is_shown(c.body@, n.body)
                &&& n.updated == seen.contains_key(c.id)
            },
        forall|k: int|
            #![trigger comments[k]]
            0 <= k < comments.len() && fresh(seen, my_token, comments[k].id, comments[k].body@)
                && welcome(
                access,
                comments[k].user.login@,
                comments[k].author_association@,
            ) ==> idx.contains(k),
    decreases comments.len(),
{
    if comments.len() == 0 {
        seq![]
    } else {
        let init = comments.drop_last();
        let before = lemma_new_comments(init, seen, my_token, access);
        let c = comments.last();
        let n = comments.len() - 1;
        assert(comments[n] == c);
        lemma_shown(c.body@);
        let news = fresh(seen, my_token, c.id, c.body@) && welcome(
            access,
            c.user.login@,
            c.author_association@,
        );
        let idx = if news {
            before.push(n)
        } else {
            before
        };
        let made = new_comments(comments, seen, my_token, access);
        let old = new_comments(init, seen, my_token, access);
        assert forall|v: int| #![trigger idx[v]] 0 <= v < idx.len() implies {
            let n = made[v];
            let c = comments[idx[v]];
            &&& fresh(seen, my_token, c.id, c.body@)
            &&& welcome(access, c.user.login@, c.author_association@)
            &&& n.comment == c && is_shown(c.body@, n.body)
                &&& n.updated == seen.contains_key(c.id)
        } by {
            if v < before.len() {
                assert(idx[v] == before[v]);
                assert(made[v] == old[v]);
                assert(comments[before[v]] == init[before[v]]);
            }
        }
        assert forall|k: int|
            #![trigger comments[k]]
            0 <= k < comments.len() && fresh(seen, my_token, comments[k].id, comments[k].body@)
                && welcome(
                access,
                comments[k].user.login@,
                comments[k].author_association@,
            ) implies idx.contains(k) by {
            if k < n {
                assert(init[k] == comments[k]);
                let v = choose|v: int| 0 <= v < before.len() && before[v] == k;
                assert(before.contains(k));
                assert(idx[v] == k);
            } else {
                assert(idx[idx.len() - 1] == k);
            }
        }
        idx
    }
}

pub proof fn lemma_new_reviews(
    comments: Seq<ReviewComment>,
    seen: Map<u64, String>,
    my_token: Seq<char>,
    access: AccessList,
) -> (idx: Seq<int>)
    ensures
        rising(idx, comments.len() as int),
        idx.len() == new_reviews(comments, seen, my_token, access).len(),
        forall|v: int|
            #![trigger idx[v]]
            0 <= v < idx.len() ==> {
                let n = new_reviews(comments, seen, my_token, access)[v];
                let c = comments[idx[v]];
                &&& fresh(seen, my_token, c.id, c.body@)
                &&& welcome(access, c.user.login@, c.author_association@)
                &&& n.comment == c && is_shown(c.body@, n.body)
                &&& n.location == c.place()
                &&& n.updated == seen.contains_key(c.id)
            },
        forall|k: int|
            #![trigger comments[k]]
            0 <= k < comments.len() && fresh(seen, my_token, comments[k].id, comments[k].body@)
                && welcome(
                access,
                comments[k].user.login@,
                comments[k].author_association@,
            ) ==> idx.contains(k),
    decreases comments.len(),
{
    if comments.len() == 0 {
        seq![]
    } else {
        let init = comments.drop_last();
        let before = lemma_new_reviews(init, seen, my_token, access);
        let c = comments.last();
        let n = comments.len() - 1;
        assert(comments[n] == c);
        lemma_shown(c.body@);
        let news = fresh(seen, my_token, c.id, c.body@) && welcome(
            access,
            c.user.login@,
            c.author_association@,
        );
        let idx = if news {
            before.push(n)
        } else {
            before
        };
        let made = new_reviews(comments, seen, my_token, access);
        let old = new_reviews(init, seen, my_token, access);
        assert forall|v: int| #![trigger idx[v]] 0 <= v < idx.len() implies {
            let n = made[v];
            let c = comments[idx[v]];
            &&& fresh(seen, my_token, c.id, c.body@)
            &&& welcome(access, c.user.login@, c.author_association@)
            &&& n.comment == c && is_shown(c.body@, n.body)
                &&& n.location == c.place()
                &&& n.updated == seen.contains_key(c.id)
        } by {
            if v < before.len() {
                assert(idx[v] == before[v]);
                assert(made[v] == old[v]);
                assert(comments[before[v]] == init[before[v]]);
            }
        }
        assert forall|k: int|
            #![trigger comments[k]]
            0 <= k < comments.len() && fresh(seen, my_token, comments[k].id, comments[k].body@)
                && welcome(
                access,
                comments[k].user.login@,
                comments[k].author_association@,
            ) implies idx.contains(k) by {
            if k < n {
                assert(init[k] == comments[k]);
                let v = choose|v: int| 0 <= v < before.len() && before[v] == k;
                assert(before.contains(k));
                assert(idx[v] == k);
            } else {
                assert(idx[idx.len() - 1] == k);
            }
        }
        idx
    }
}

proof fn lemma_ignored_comments(
    comments: Seq<Comment>,
    seen: Map<u64, String>,
    my_token: Seq<char>,
    access: AccessList,
    source: &'static str,
) -> (idx: Seq<int>)
    ensures
        rising(idx, comments.len() as int),
        idx.len() == ignored_comments(comments, seen, my_token, access, source).len(),
        forall|v: int|
            #![trigger idx[v]]
            0 <= v < idx.len() ==> {
                let n = ignored_comments(comments, seen, my_token, access, source)[v];
                let c = comments[idx[v]];
                &&& fresh(seen, my_token, c.id, c.body@)
                &&& !welcome(access, c.user.login@, c.author_association@)
                &&& n.by == c.user.login && n.source == source && n.kind == IgnoredKind::Comment
            },
        forall|k: int|
            #![trigger comments[k]]
            0 <= k < comments.len() && fresh(seen, my_token, comments[k].id, comments[k].body@)
                && !welcome(
                access,
                comments[k].user.login@,
                comments[k].author_association@,
            ) ==> idx.contains(k),
    decreases comments.len(),
{
    if comments.len() == 0 {
        seq![]
    } else {
        let init = comments.drop_last();
        let before = lemma_ignored_comments(init, seen, my_token, access, source);
        let c = comments.last();
        let n = comments.len() - 1;
        assert(comments[n] == c);
        let news = fresh(seen, my_token, c.id, c.body@) && !welcome(
            access,
            c.user.login@,
            c.author_association@,
        );
        let idx = if news {
            before.push(n)
        } else {
            before
        };
        let made = ignored_comments(comments, seen, my_token, access, source);
        let old = ignored_comments(init, seen, my_token, access, source);
        assert forall|v: int| #![trigger idx[v]] 0 <= v < idx.len() implies {
            let n = made[v];
            let c = comments[idx[v]];
            &&& fresh(seen, my_token, c.id, c.body@)
            &&& !welcome(access, c.user.login@, c.author_association@)
            &&& n.by == c.user.login && n.source == source && n.kind == IgnoredKind::Comment
        } by {
            if v < before.len() {
                assert(idx[v] == before[v]);
                assert(made[v] == old[v]);
                assert(comments[before[v]] == init[before[v]]);
            }
        }
        assert forall|k: int|
            #![trigger comments[k]]
            0 <= k < comments.len() && fresh(seen, my_token, comments[k].id, comments[k].body@)
                && !welcome(
                access,
                comments[k].user.login@,
                comments[k].author_association@,
            ) implies idx.contains(k) by {
            if k < n {
                assert(init[k] == comments[k]);
                let v = choose|v: int| 0 <= v < before.len() && before[v] == k;
                assert(before.contains(k));
                assert(idx[v] == k);
            } else {
                assert(idx[idx.len() - 1] == k);
            }
        }
        idx
    }
}

proof fn lemma_ignored_reviews(
    comments: Seq<ReviewComment>,
    seen: Map<u64, String>,
    my_token: Seq<char>,
    access: AccessList,
) -> (idx: Seq<int>)
    ensures
        rising(idx, comments.len() as int),
        idx.len() == ignored_reviews(comments, seen, my_token, access).len(),
        forall|v: int|
            #![trigger idx[v]]
            0 <= v < idx.len() ==> {
                let n = ignored_reviews(comments, seen, my_token, access)[v];
                let c = comments[idx[v]];
                &&& fresh(seen, my_token, c.id, c.body@)
                &&& !welcome(access, c.user.login@, c.author_association@)
                &&& n.by == c.user.login && n.source@ == "PR"@ && n.kind == IgnoredKind::Comment
            },
        forall|k: int|
            #![trigger comments[k]]
            0 <= k < comments.len() && fresh(seen, my_token, comments[k].id, comments[k].body@)
                && !welcome(
                access,
                comments[k].user.login@,
                comments[k].author_association@,
            ) ==> idx.contains(k),
    decreases comments.len(),
{
    if comments.len() == 0 {
        seq![]
    } else {
        let init = comments.drop_last();
        let before = lemma_ignored_reviews(init, seen, my_token, access);
        let c = comments.last();
        let n = comments.len() - 1;
        assert(comments[n] == c);
        let news = fresh(seen, my_token, c.id, c.body@) && !welcome(
            access,
            c.user.login@,
            c.author_association@,
        );
        let idx = if news {
            before.push(n)
        } else {
            before
        };
        let made = ignored_reviews(comments, seen, my_token, access);
        let old = ignored_reviews(init, seen, my_token, access);
        assert forall|v: int| #![trigger idx[v]] 0 <= v < idx.len() implies {
            let n = made[v];
            let c = comments[idx[v]];
            &&& fresh(seen, my_token, c.id, c.body@)
            &&& !welcome(access, c.user.login@, c.author_association@)
            &&& n.by == c.user.login && n.source@ == "PR"@ && n.kind == IgnoredKind::Comment
        } by {
            if v < before.len() {
                assert(idx[v] == before[v]);
                assert(made[v] == old[v]);
                assert(comments[before[v]] == init[before[v]]);
            }
        }
        assert forall|k: int|
            #![trigger comments[k]]
            0 <= k < comments.len() && fresh(seen, my_token, comments[k].id, comments[k].body@)
                && !welcome(
                access,
                comments[k].user.login@,
                comments[k].author_association@,
            ) implies idx.contains(k) by {
            if k < n {
                assert(init[k] == comments[k]);
                let v = choose|v: int| 0 <= v < before.len() && before[v] == k;
                assert(before.contains(k));
                assert(idx[v] == k);
            } else {
                assert(idx[idx.len() - 1] == k);
            }
        }
        idx
    }
}

/// A session is told of every comment on a thread that is new to it, by someone who may
/// feed it, and of no other: each once, in order, with what its author wrote. Others'
/// new comments are reported as ignored, with the thread they are on.
pub proof fn new_comments_are_told<'a>(
    comments: &'a [Comment],
    seen: &BTreeMap<u64, String>,
    my_token: &str,
    access: &AccessList,
    source: &'static str,
    r: (Vec<CommentView<'a>>, Vec<IgnoredInput>),
)
    requires
        call_ensures(threads::collect_new_comments, (comments, seen, my_token, access, source), r),
    ensures
        exists|idx: Seq<int>| #[trigger]
            rising(idx, comments@.len() as int) && idx.len() == r.0@.len() && (forall|v: int|
                #![trigger r.0@[v]]
                0 <= v < idx.len() ==> {
                    let c = comments@[idx[v]];
                    &&& *r.0@[v].comment == c
                    &&& is_shown(c.body@, r.0@[v].body@)
                    &&& r.0@[v].updated == seen@.contains_key(c.id)
                }) && (forall|k: int|
                #![trigger comments@[k]]
                0 <= k < comments@.len() ==> (idx.contains(k) <==> fresh(
                    seen@,
                    my_token@,
                    comments@[k].id,
                    comments@[k].body@,
                ) && welcome(
                    *access,
                    comments@[k].user.login@,
                    comments@[k].author_association@,
                ))),
        exists|idx: Seq<int>| #[trigger]
            rising(idx, comments@.len() as int) && idx.len() == r.1@.len() && (forall|v: int|
                #![trigger r.1@[v]]
                0 <= v < idx.len() ==> r.1@[v].by == comments@[idx[v]].user.login && r.1@[v].source == source
                    && r.1@[v].kind == IgnoredKind::Comment) && (forall|k: int|
                #![trigger comments@[k]]
                0 <= k < comments@.len() ==> (idx.contains(k) <==> fresh(
                    seen@,
                    my_token@,
                    comments@[k].id,
                    comments@[k].body@,
                ) && !welcome(
                    *access,
                    comments@[k].user.login@,
                    comments@[k].author_association@,
                ))),
{
    let shown = lemma_new_comments(comments@, seen@, my_token@, *access);
    let passed = lemma_ignored_comments(comments@, seen@, my_token@, *access, source);
    let made = threads::new_comment_views(r.0@);
    assert forall|k: int| #![trigger comments@[k]] 0 <= k < comments@.len() implies (
    shown.contains(k) <==> fresh(seen@, my_token@, comments@[k].id, comments@[k].body@)
        && welcome(
        *access,
        comments@[k].user.login@,
        comments@[k].author_association@,
    )) by {
        if shown.contains(k) {
            let v = choose|v: int| 0 <= v < shown.len() && shown[v] == k;
            assert(shown[v] == k);
        }
    }
    assert forall|k: int| #![trigger comments@[k]] 0 <= k < comments@.len() implies (
    passed.contains(k) <==> fresh(seen@, my_token@, comments@[k].id, comments@[k].body@)
        && !welcome(
        *access,
        comments@[k].user.login@,
        comments@[k].author_association@,
    )) by {
        if passed.contains(k) {
            let v = choose|v: int| 0 <= v < passed.len() && passed[v] == k;
            assert(passed[v] == k);
        }
    }
    assert forall|v: int| #![trigger r.0@[v]] 0 <= v < shown.len() implies {
        let c = comments@[shown[v]];
        &&& *r.0@[v].comment == c
        &&& is_shown(c.body@, r.0@[v].body@)
        &&& r.0@[v].updated == seen@.contains_key(c.id)
    } by {
        let at = shown[v];
        assert(made[v].comment == *r.0@[v].comment);
        assert(made[v].body == r.0@[v].body@);
        assert(made[v].updated == r.0@[v].updated);
    }
    assert forall|v: int| #![trigger r.1@[v]] 0 <= v < passed.len() implies r.1@[v].by
        == comments@[passed[v]].user.login && r.1@[v].source == source && r.1@[v].kind
        == IgnoredKind::Comment by {
        let at = passed[v];
    }
    assert(rising(shown, comments@.len() as int));
    assert(rising(passed, comments@.len() as int));
}

/// A session is told of every inline review comment that is new to it, by someone who
/// may feed it, and of no other: each once, in order, with what its author wrote, and
/// where in the code. Others' are reported as ignored.
pub proof fn new_reviews_are_told<'a>(
    comments: &'a [ReviewComment],
    seen: &BTreeMap<u64, String>,
    my_token: &str,
    access: &AccessList,
    r: (Vec<ReviewCommentView<'a>>, Vec<IgnoredInput>),
)
    requires
        call_ensures(threads::collect_new_reviews, (comments, seen, my_token, access), r),
    ensures
        exists|idx: Seq<int>| #[trigger]
            rising(idx, comments@.len() as int) && idx.len() == r.0@.len() && (forall|v: int|
                #![trigger r.0@[v]]
                0 <= v < idx.len() ==> {
                    let c = comments@[idx[v]];
                    &&& *r.0@[v].comment == c
                    &&& is_shown(c.body@, r.0@[v].body@)
                    &&& c.line is Some ==> r.0@[v].location@ == c.path@ + ":"@ + text::decimal(
                        c.line->0 as nat,
                    )
                    &&& c.line is None && c.original_line is Some ==> r.0@[v].location@ == c.path@
                        + ":"@ + text::decimal(c.original_line->0 as nat)
                    &&& c.line is None && c.original_line is None ==> r.0@[v].location@ == c.path@
                    &&& r.0@[v].updated == seen@.contains_key(c.id)
                }) && (forall|k: int|
                #![trigger comments@[k]]
                0 <= k < comments@.len() ==> (idx.contains(k) <==> fresh(
                    seen@,
                    my_token@,
                    comments@[k].id,
                    comments@[k].body@,
                ) && welcome(
                    *access,
                    comments@[k].user.login@,
                    comments@[k].author_association@,
                ))),
        exists|idx: Seq<int>| #[trigger]
            rising(idx, comments@.len() as int) && idx.len() == r.1@.len() && (forall|v: int|
                #![trigger r.1@[v]]
                0 <= v < idx.len() ==> r.1@[v].by == comments@[idx[v]].user.login && r.1@[v].source@ == "PR"@
                    && r.1@[v].kind == IgnoredKind::Comment) && (forall|k: int|
                #![trigger comments@[k]]
                0 <= k < comments@.len() ==> (idx.contains(k) <==> fresh(
                    seen@,
                    my_token@,
                    comments@[k].id,
                    comments@[k].body@,
                ) && !welcome(
                    *access,
                    comments@[k].user.login@,
                    comments@[k].author_association@,
                ))),
{
    let shown = lemma_new_reviews(comments@, seen@, my_token@, *access);
    let passed = lemma_ignored_reviews(comments@, seen@, my_token@, *access);
    let made = threads::new_review_views(r.0@);
    assert forall|k: int| #![trigger comments@[k]] 0 <= k < comments@.len() implies (
    shown.contains(k) <==> fresh(seen@, my_token@, comments@[k].id, comments@[k].body@)
        && welcome(
        *access,
        comments@[k].user.login@,
        comments@[k].author_association@,
    )) by {
        if shown.contains(k) {
            let v = choose|v: int| 0 <= v < shown.len() && shown[v] == k;
            assert(shown[v] == k);
        }
    }
    assert forall|k: int| #![trigger comments@[k]] 0 <= k < comments@.len() implies (
    passed.contains(k) <==> fresh(seen@, my_token@, comments@[k].id, comments@[k].body@)
        && !welcome(
        *access,
        comments@[k].user.login@,
        comments@[k].author_association@,
    )) by {
        if passed.contains(k) {
            let v = choose|v: int| 0 <= v < passed.len() && passed[v] == k;
            assert(passed[v] == k);
        }
    }
    assert forall|v: int| #![trigger r.0@[v]] 0 <= v < shown.len() implies {
        let c = comments@[shown[v]];
        &&& *r.0@[v].comment == c
        &&& is_shown(c.body@, r.0@[v].body@)
        &&& c.line is Some ==> r.0@[v].location@ == c.path@ + ":"@ + text::decimal(
            c.line->0 as nat,
        )
        &&& c.line is None && c.original_line is Some ==> r.0@[v].location@ == c.path@
            + ":"@ + text::decimal(c.original_line->0 as nat)
        &&& c.line is None && c.original_line is None ==> r.0@[v].location@ == c.path@
        &&& r.0@[v].updated == seen@.contains_key(c.id)
    } by {
        let at = shown[v];
        assert(made[v].comment == *r.0@[v].comment);
        assert(made[v].body == r.0@[v].body@);
        assert(made[v].updated == r.0@[v].updated);
    }
    assert forall|v: int| #![trigger r.1@[v]] 0 <= v < passed.len() implies r.1@[v].by
        == comments@[passed[v]].user.login && r.1@[v].source@ == "PR"@ && r.1@[v].kind
        == IgnoredKind::Comment by {
        let at = passed[v];
    }
    assert(rising(shown, comments@.len() as int));
    assert(rising(passed, comments@.len() as int));
}

/// The text of a comment that carries no hidden marker is shown as it is.
pub proof fn plain_reviews_are_shown_as_written<'a>(
    comments: &'a [ReviewComment],
    seen: &BTreeMap<u64, String>,
    my_token: &str,
    access: &AccessList,
    r: (Vec<ReviewCommentView<'a>>, Vec<IgnoredInput>),
    v: int,
)
    requires
        call_ensures(threads::collect_new_reviews, (comments, seen, my_token, access), r),
        0 <= v < r.0@.len(),
        !text::contains(r.0@[v].comment.body@, "<!-- ghwf:v1 "@),
    ensures
        r.0@[v].body@ == r.0@[v].comment.body@,
{
    let shown = lemma_new_reviews(comments@, seen@, my_token@, *access);
    let made = threads::new_review_views(r.0@);
    let at = shown[v];
    assert(made[v].comment == *r.0@[v].comment);
    assert(made[v].body == r.0@[v].body@);
}

/// The text of a comment that carries no hidden marker is shown as it is.
pub proof fn plain_comments_are_shown_as_written<'a>(
    comments: &'a [Comment],
    seen: &BTreeMap<u64, String>,
    my_token: &str,
    access: &AccessList,
    source: &'static str,
    r: (Vec<CommentView<'a>>, Vec<IgnoredInput>),
    v: int,
)
    requires
        call_ensures(threads::collect_new_comments, (comments, seen, my_token, access, source), r),
        0 <= v < r.0@.len(),
        !text::contains(r.0@[v].comment.body@, "<!-- ghwf:v1 "@),
    ensures
        r.0@[v].body@ == r.0@[v].comment.body@,
{
    let shown = lemma_new_comments(comments@, seen@, my_token@, *access);
    let made = threads::new_comment_views(r.0@);
    let at = shown[v];
    assert(made[v].comment == *r.0@[v].comment);
    assert(made[v].body == r.0@[v].body@);
}

/// What a run finds new is what each thread's collection gives: the issue's comments,
/// the PR's and its inline reviews, each against the record of what was shown.
pub proof fn a_run_finds_the_news_of_every_thread<'a>(
    f: &Fetched<'a>,
    record: &SeenRecord,
    my_token: &str,
    access: &AccessList,
    r: News<'a>,
    k: int,
)
    requires
        call_ensures(run::news, (f, record, my_token, access), r),
    ensures
        r.body_changed <==> !(record.issue_body_hash is Some && record.issue_body_hash->0@
            == store::hash_of(
            match f.issue.body {
                Some(body) => body@,
                None => ""@,
            },
        )),
        0 <= k < f.issue_comments@.len() ==> (told(r.issue_comments@, f.issue_comments@[k]) <== (
        fresh(
            record.comments@,
            my_token@,
            f.issue_comments@[k].id,
            f.issue_comments@[k].body@,
        ) && welcome(
            *access,
            f.issue_comments@[k].user.login@,
            f.issue_comments@[k].author_association@,
        ))),
        f.pr_comments is Some && 0 <= k < f.pr_comments->0@.len() ==> (told(
            r.pr_comments@,
            f.pr_comments->0@[k],
        ) <== (fresh(
            record.comments@,
            my_token@,
            f.pr_comments->0@[k].id,
            f.pr_comments->0@[k].body@,
        ) && welcome(
            *access,
            f.pr_comments->0@[k].user.login@,
            f.pr_comments->0@[k].author_association@,
        ))),
        f.review_comments is Some && 0 <= k < f.review_comments->0@.len() ==> (told_review(
            r.review_comments@,
            f.review_comments->0@[k],
        ) <== (fresh(
            record.review_comments@,
            my_token@,
            f.review_comments->0@[k].id,
            f.review_comments->0@[k].body@,
        ) && welcome(
            *access,
            f.review_comments->0@[k].user.login@,
            f.review_comments->0@[k].author_association@,
        ))),
        0 <= k < r.issue_comments@.len() ==> f.issue_comments@.contains(
            *r.issue_comments@[k].comment,
        ) && is_shown(r.issue_comments@[k].comment.body@, r.issue_comments@[k].body@) && fresh(
            record.comments@,
            my_token@,
            r.issue_comments@[k].comment.id,
            r.issue_comments@[k].comment.body@,
        ) && welcome(
            *access,
            r.issue_comments@[k].comment.user.login@,
            r.issue_comments@[k].comment.author_association@,
        ),
        0 <= k < r.pr_comments@.len() ==> f.pr_comments is Some && f.pr_comments->0@.contains(
            *r.pr_comments@[k].comment,
        ) && is_shown(r.pr_comments@[k].comment.body@, r.pr_comments@[k].body@) && fresh(
            record.comments@,
            my_token@,
            r.pr_comments@[k].comment.id,
            r.pr_comments@[k].comment.body@,
        ) && welcome(
            *access,
            r.pr_comments@[k].comment.user.login@,
            r.pr_comments@[k].comment.author_association@,
        ),
        0 <= k < r.review_comments@.len() ==> f.review_comments is Some
            && f.review_comments->0@.contains(*r.review_comments@[k].comment) && is_shown(
            r.review_comments@[k].comment.body@,
            r.review_comments@[k].body@,
        ) && fresh(
            record.review_comments@,
            my_token@,
            r.review_comments@[k].comment.id,
            r.review_comments@[k].comment.body@,
        ) && welcome(
            *access,
            r.review_comments@[k].comment.user.login@,
            r.review_comments@[k].comment.author_association@,
        ),
        0 <= k < f.issue_comments@.len() && fresh(
            record.comments@,
            my_token@,
            f.issue_comments@[k].id,
            f.issue_comments@[k].body@,
        ) && !welcome(
            *access,
            f.issue_comments@[k].user.login@,
            f.issue_comments@[k].author_association@,
        ) ==> passed_over(r.ignored@, f.issue_comments@[k].user.login, "issue"@),
        f.pr_comments is Some && 0 <= k < f.pr_comments->0@.len() && fresh(
            record.comments@,
            my_token@,
            f.pr_comments->0@[k].id,
            f.pr_comments->0@[k].body@,
        ) && !welcome(
            *access,
            f.pr_comments->0@[k].user.login@,
            f.pr_comments->0@[k].author_association@,
        ) ==> passed_over(r.ignored@, f.pr_comments->0@[k].user.login, "PR"@),
        f.review_comments is Some && 0 <= k < f.review_comments->0@.len() && fresh(
            record.review_comments@,
            my_token@,
            f.review_comments->0@[k].id,
            f.review_comments->0@[k].body@,
        ) && !welcome(
            *access,
            f.review_comments->0@[k].user.login@,
            f.review_comments->0@[k].author_association@,
        ) ==> passed_over(r.ignored@, f.review_comments->0@[k].user.login, "PR"@),
{
    let first = lemma_ignored_comments(
        f.issue_comments@,
        record.comments@,
        my_token@,
        *access,
        "issue",
    );
    let second = lemma_ignored_comments(
        workflow::comments_of(f.pr_comments),
        record.comments@,
        my_token@,
        *access,
        "PR",
    );
    let third = lemma_ignored_reviews(
        run::reviews_of(f.review_comments),
        record.review_comments@,
        my_token@,
        *access,
    );
    if first.contains(k) {
        let v = choose|v: int| 0 <= v < first.len() && first[v] == k;
        assert(r.ignored@[v].by == f.issue_comments@[k].user.login);
    }
    if second.contains(k) {
        let v = choose|v: int| 0 <= v < second.len() && second[v] == k;
        assert(r.ignored@[first.len() + v].by == workflow::comments_of(
            f.pr_comments,
        )[k].user.login);
    }
    if third.contains(k) {
        let v = choose|v: int| 0 <= v < third.len() && third[v] == k;
        assert(r.ignored@[first.len() + second.len() + v].by == run::reviews_of(
            f.review_comments,
        )[k].user.login);
    }
    let on_issue = lemma_new_comments(f.issue_comments@, record.comments@, my_token@, *access);
    let on_pr = lemma_new_comments(
        workflow::comments_of(f.pr_comments),
        record.comments@,
        my_token@,
        *access,
    );
    let inline = lemma_new_reviews(
        run::reviews_of(f.review_comments),
        record.review_comments@,
        my_token@,
        *access,
    );
    let a = threads::new_comment_views(r.issue_comments@);
    let b = threads::new_comment_views(r.pr_comments@);
    let c = threads::new_review_views(r.review_comments@);
    assert(a.len() == r.issue_comments@.len());
    assert(b.len() == r.pr_comments@.len());
    assert(c.len() == r.review_comments@.len());
    if 0 <= k < f.issue_comments@.len() && on_issue.contains(k) {
        let v = choose|v: int| 0 <= v < on_issue.len() && on_issue[v] == k;
        assert(a[v].comment == *r.issue_comments@[v].comment);
    }
    if 0 <= k < workflow::comments_of(f.pr_comments).len() && on_pr.contains(k) {
        let v = choose|v: int| 0 <= v < on_pr.len() && on_pr[v] == k;
        assert(b[v].comment == *r.pr_comments@[v].comment);
    }
    if 0 <= k < run::reviews_of(f.review_comments).len() && inline.contains(k) {
        let v = choose|v: int| 0 <= v < inline.len() && inline[v] == k;
        assert(c[v].comment == *r.review_comments@[v].comment);
    }
    if 0 <= k < r.issue_comments@.len() {
        assert(a[k].comment == *r.issue_comments@[k].comment && a[k].body
            == r.issue_comments@[k].body@);
        assert(f.issue_comments@[on_issue[k]] == *r.issue_comments@[k].comment);
    }
    if 0 <= k < r.pr_comments@.len() {
        assert(b[k].comment == *r.pr_comments@[k].comment && b[k].body == r.pr_comments@[k].body@);
        assert(workflow::comments_of(f.pr_comments)[on_pr[k]] == *r.pr_comments@[k].comment);
    }
    if 0 <= k < r.review_comments@.len() {
        assert(c[k].comment == *r.review_comments@[k].comment && c[k].body
            == r.review_comments@[k].body@);
        assert(run::reviews_of(f.review_comments)[inline[k]] == *r.review_comments@[k].comment);
    }
}

/// A comment of this author, on this thread, is reported as ignored.
pub open spec fn passed_over(ignored: Seq<IgnoredInput>, by: String, source: Seq<char>) -> bool {
    exists|v: int|
        0 <= v < ignored.len() && (#[trigger] ignored[v]).by == by && ignored[v].source@ == source
            && ignored[v].kind == IgnoredKind::Comment
}

/// The comment is among those that are shown.
pub open spec fn told(views: Seq<CommentView>, c: Comment) -> bool {
    exists|v: int| 0 <= v < views.len() && *(#[trigger] views[v]).comment == c
}

/// The review comment is among those that are shown.
pub open spec fn told_review(views: Seq<ReviewCommentView>, c: ReviewComment) -> bool {
    exists|v: int| 0 <= v < views.len() && *(#[trigger] views[v]).comment == c
}

/// An issue's body is new where it differs from what was shown; an absent one counts as
/// empty.
pub proof fn edited_bodies_are_new(record: &SeenRecord, body: &Option<String>, r: bool)
    requires
        call_ensures(seen::body_changed, (record, body), r),
    ensures
        record.issue_body_hash is None ==> r,
        record.issue_body_hash is Some ==> (r <==> record.issue_body_hash->0@ != store::hash_of(
            match *body {
                Some(body) => body@,
                None => ""@,
            },
        )),
{
}

/// What a run records as shown is the body, every comment of both threads and every
/// inline review comment, each by the hash of its text; a review that was not fetched
/// keeps its record.
pub proof fn everything_shown_is_recorded(
    record: SeenRecord,
    body: &Option<String>,
    issue_comments: &[Comment],
    pr_comments: Option<&[Comment]>,
    review_comments: Option<&[ReviewComment]>,
    r: SeenRecord,
    k: int,
)
    requires
        call_ensures(
            seen::updated_record,
            (record, body, issue_comments, pr_comments, review_comments),
            r,
        ),
        seen::distinct_ids(issue_comments@ + workflow::comments_of(pr_comments)),
        review_comments is Some ==> seen::distinct_review_ids(review_comments->0@),
    ensures
        r.issue_body_hash is Some && r.issue_body_hash->0@ == store::hash_of(
            match *body {
                Some(body) => body@,
                None => ""@,
            },
        ),
        0 <= k < issue_comments@.len() ==> r.comments@.contains_key(issue_comments@[k].id)
            && r.comments@[issue_comments@[k].id]@ == store::hash_of(issue_comments@[k].body@),
        pr_comments is Some && 0 <= k < pr_comments->0@.len() ==> r.comments@.contains_key(
            pr_comments->0@[k].id,
        ) && r.comments@[pr_comments->0@[k].id]@ == store::hash_of(pr_comments->0@[k].body@),
        review_comments is Some && 0 <= k < review_comments->0@.len()
            ==> r.review_comments@.contains_key(review_comments->0@[k].id)
            && r.review_comments@[review_comments->0@[k].id]@ == store::hash_of(
            review_comments->0@[k].body@,
        ),
        review_comments is None ==> r.review_comments == record.review_comments,
{
    let second = workflow::comments_of(pr_comments);
    let all = issue_comments@ + second;
    seen::lemma_with_comments_joined(Map::empty(), issue_comments@, second);
    if 0 <= k < issue_comments@.len() {
        assert(all[k] == issue_comments@[k]);
        lemma_recorded(all, r.comments@, k);
    }
    if 0 <= k < second.len() {
        assert(all[issue_comments@.len() + k] == second[k]);
        lemma_recorded(all, r.comments@, issue_comments@.len() + k);
    }
    if review_comments is Some && 0 <= k < review_comments->0@.len() {
        lemma_review_recorded(review_comments->0@, r.review_comments@, k);
    }
}

pub proof fn lemma_recorded(comments: Seq<Comment>, seen: Map<u64, String>, k: int)
    requires
        seen::distinct_ids(comments),
        0 <= k < comments.len(),
        seen::hashes(seen) == seen::with_comments(Map::empty(), comments),
    ensures
        seen.contains_key(comments[k].id),
        seen[comments[k].id]@ == store::hash_of(comments[k].body@),
{
    lemma_held(comments, k);
    assert(seen::hashes(seen).contains_key(comments[k].id));
    assert(seen::hashes(seen)[comments[k].id] == seen[comments[k].id]@);
}

proof fn lemma_held(comments: Seq<Comment>, k: int)
    requires
        seen::distinct_ids(comments),
        0 <= k < comments.len(),
    ensures
        seen::with_comments(Map::empty(), comments).contains_key(comments[k].id),
        seen::with_comments(Map::empty(), comments)[comments[k].id] == store::hash_of(
            comments[k].body@,
        ),
    decreases comments.len(),
{
    if k < comments.len() - 1 {
        let init = comments.drop_last();
        assert forall|i: int, j: int| 0 <= i < j < init.len() implies (#[trigger] init[i]).id != (
        #[trigger] init[j]).id by {
            assert(comments[i].id != comments[j].id);
        }
        assert(init[k] == comments[k]);
        lemma_held(init, k);
        assert(comments[k].id != comments[comments.len() - 1].id);
    }
}

pub proof fn lemma_review_recorded(comments: Seq<ReviewComment>, seen: Map<u64, String>, k: int)
    requires
        seen::distinct_review_ids(comments),
        0 <= k < comments.len(),
        seen::hashes(seen) == seen::with_reviews(Map::empty(), comments),
    ensures
        seen.contains_key(comments[k].id),
        seen[comments[k].id]@ == store::hash_of(comments[k].body@),
{
    lemma_review_held(comments, k);
    assert(seen::hashes(seen).contains_key(comments[k].id));
    assert(seen::hashes(seen)[comments[k].id] == seen[comments[k].id]@);
}

proof fn lemma_review_held(comments: Seq<ReviewComment>, k: int)
    requires
        seen::distinct_review_ids(comments),
        0 <= k < comments.len(),
    ensures
        seen::with_reviews(Map::empty(), comments).contains_key(comments[k].id),
        seen::with_reviews(Map::empty(), comments)[comments[k].id] == store::hash_of(
            comments[k].body@,
        ),
    decreases comments.len(),
{
    if k < comments.len() - 1 {
        let init = comments.drop_last();
        assert forall|i: int, j: int| 0 <= i < j < init.len() implies (#[trigger] init[i]).id != (
        #[trigger] init[j]).id by {
            assert(comments[i].id != comments[j].id);
        }
        assert(init[k] == comments[k]);
        lemma_review_held(init, k);
        assert(comments[k].id != comments[comments.len() - 1].id);
    }
}

} // verus!
