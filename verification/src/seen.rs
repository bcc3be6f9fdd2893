//! What a session has already been shown.

use std::collections::BTreeMap;
use vstd::prelude::*;

use crate::models::{Comment, ReviewComment};
use crate::store;
use crate::text;

verus! {

/// What a given agent session has already been shown for one issue.
///
/// Content hashes (not timestamps) drive change detection, so an edited issue
/// body or comment is re-surfaced.
pub struct SeenRecord {
    pub issue_body_hash: Option<String>,
    /// Conversation comment id to content hash of its body, for the issue
    /// thread and the PR's: their ids share one namespace.
    pub comments: BTreeMap<u64, String>,
    /// Inline review comment id to content hash of its body.
    pub review_comments: BTreeMap<u64, String>,
}

impl Default for SeenRecord {
    fn default() -> (r: Self)
        ensures
            r.issue_body_hash is None,
            r.comments@ == Map::<u64, String>::empty(),
            r.review_comments@ == Map::<u64, String>::empty(),
    {
        SeenRecord {
            issue_body_hash: None,
            comments: BTreeMap::new(),
            review_comments: BTreeMap::new(),
        }
    }
}

/// The hashes that `m` holds.
pub open spec fn hashes(m: Map<u64, String>) -> Map<u64, Seq<char>> {
    Map::new(|k: u64| m.contains_key(k), |k: u64| m[k]@)
}

/// `start` with the hash of each comment's body under its id.
pub open spec fn with_comments(
    start: Map<u64, Seq<char>>,
    comments: Seq<Comment>,
) -> Map<u64, Seq<char>>
    decreases comments.len(),
{
    if comments.len() == 0 {
        start
    } else {
        with_comments(start, comments.drop_last()).insert(
            comments.last().id,
            store::hash_of(comments.last().body@),
        )
    }
}

/// `start` with the hash of each review comment's body under its id.
pub open spec fn with_reviews(
    start: Map<u64, Seq<char>>,
    comments: Seq<ReviewComment>,
) -> Map<u64, Seq<char>>
    decreases comments.len(),
{
    if comments.len() == 0 {
        start
    } else {
        with_reviews(start, comments.drop_last()).insert(
            comments.last().id,
            store::hash_of(comments.last().body@),
        )
    }
}

/// Put the hash of a body under an id.
fn put_hash(map: &mut BTreeMap<u64, String>, id: u64, body: &str)
    ensures
        hashes(final(map)@) == hashes(old(map)@).insert(id, store::hash_of(body@)),
{
    broadcast use {vstd::std_specs::btree::group_btree_axioms, vstd::laws_cmp::group_laws_cmp};

    let hash = store::content_hash(body);
    let ghost h = hash;
    map.insert(id, hash);
    assert(hashes(map@) =~= hashes(old(map)@).insert(id, h@));
}

/// Put the hashes of comments in `map`.
pub fn add_comments(map: &mut BTreeMap<u64, String>, comments: &[Comment])
    ensures
        hashes(final(map)@) == with_comments(hashes(old(map)@), comments@),
{
    let ghost start = hashes(map@);
    let mut i: usize = 0;
    assert(comments@.take(0) =~= seq![]);
    while i < comments.len()
        invariant
            i <= comments.len(),
            hashes(map@) == with_comments(start, comments@.take(i as int)),
        decreases comments.len() - i,
    {
        put_hash(map, comments[i].id, comments[i].body.as_str());
        assert(comments@.take(i + 1).drop_last() =~= comments@.take(i as int));
        i = i + 1;
    }
    assert(comments@.take(comments@.len() as int) =~= comments@);
}

/// Put the hashes of review comments in `map`.
pub fn add_reviews(map: &mut BTreeMap<u64, String>, comments: &[ReviewComment])
    ensures
        hashes(final(map)@) == with_reviews(hashes(old(map)@), comments@),
{
    let ghost start = hashes(map@);
    let mut i: usize = 0;
    assert(comments@.take(0) =~= seq![]);
    while i < comments.len()
        invariant
            i <= comments.len(),
            hashes(map@) == with_reviews(start, comments@.take(i as int)),
        decreases comments.len() - i,
    {
        put_hash(map, comments[i].id, comments[i].body.as_str());
        assert(comments@.take(i + 1).drop_last() =~= comments@.take(i as int));
        i = i + 1;
    }
    assert(comments@.take(comments@.len() as int) =~= comments@);
}

/// The hash of an issue's body; an absent one counts as empty.
pub open spec fn body_hash(body: Option<String>) -> Seq<char> {
    store::hash_of(
        match body {
            Some(b) => b@,
            None => ""@,
        },
    )
}

/// The hash of an issue's body; an absent one counts as empty.
pub fn hash_body(body: &Option<String>) -> (r: String)
    ensures
        r@ == body_hash(*body),
{
    match body {
        Some(b) => store::content_hash(b.as_str()),
        None => store::content_hash(""),
    }
}

/// Whether an issue's body differs from what was shown.
pub fn body_changed(record: &SeenRecord, body: &Option<String>) -> (r: bool)
    ensures
        r == !(record.issue_body_hash is Some && record.issue_body_hash->0@ == body_hash(*body)),
{
    let hash = hash_body(body);
    match &record.issue_body_hash {
        Some(shown) => !text::same(shown.as_str(), hash.as_str()),
        None => true,
    }
}

/// Record what this run showed, so the next only surfaces later changes. With
/// no PR the review comments were not fetched, and their record stays.
pub fn updated_record(
    record: SeenRecord,
    body: &Option<String>,
    issue_comments: &[Comment],
    pr_comments: Option<&[Comment]>,
    review_comments: Option<&[ReviewComment]>,
) -> (r: SeenRecord)
    ensures
        r.issue_body_hash is Some && r.issue_body_hash->0@ == body_hash(*body),
        hashes(r.comments@) == with_comments(
            with_comments(Map::empty(), issue_comments@),
            match pr_comments {
                Some(c) => c@,
                None => seq![],
            },
        ),
        match review_comments {
            Some(c) => hashes(r.review_comments@) == with_reviews(Map::empty(), c@),
            None => r.review_comments == record.review_comments,
        },
{
    let mut comments: BTreeMap<u64, String> = BTreeMap::new();
    assert(hashes(comments@) =~= Map::empty());
    add_comments(&mut comments, issue_comments);
    match pr_comments {
        Some(c) => {
            add_comments(&mut comments, c);
        },
        None => {},
    }
    let review = match review_comments {
        Some(c) => {
            let mut review: BTreeMap<u64, String> = BTreeMap::new();
            assert(hashes(review@) =~= Map::empty());
            add_reviews(&mut review, c);
            review
        },
        None => record.review_comments,
    };
    SeenRecord {
        issue_body_hash: Some(hash_body(body)),
        comments,
        review_comments: review,
    }
}

/// Ids name one comment each.
pub open spec fn distinct_ids(comments: Seq<Comment>) -> bool {
    forall|i: int, j: int|
        0 <= i < j < comments.len() ==> (#[trigger] comments[i]).id != (#[trigger] comments[j]).id
}

/// What was recorded of a thread is not news again.
pub proof fn recorded_comments_are_not_news(
    start: Map<u64, Seq<char>>,
    comments: Seq<Comment>,
    seen: Map<u64, String>,
    my_token: Seq<char>,
    k: int,
)
    requires
        distinct_ids(comments),
        0 <= k < comments.len(),
        hashes(seen) == with_comments(start, comments),
    ensures
        !crate::threads::is_news(seen, my_token, comments[k].id, comments[k].body@),
{
    lemma_with_comments_holds(start, comments, k);
    assert(hashes(seen).contains_key(comments[k].id));
    assert(hashes(seen)[comments[k].id] == seen[comments[k].id]@);
}

proof fn lemma_with_comments_holds(start: Map<u64, Seq<char>>, comments: Seq<Comment>, k: int)
    requires
        distinct_ids(comments),
        0 <= k < comments.len(),
    ensures
        with_comments(start, comments).contains_key(comments[k].id),
        with_comments(start, comments)[comments[k].id] == store::hash_of(comments[k].body@),
    decreases comments.len(),
{
    if k < comments.len() - 1 {
        let init = comments.drop_last();
        assert forall|i: int, j: int| 0 <= i < j < init.len() implies (#[trigger] init[i]).id != (
        #[trigger] init[j]).id by {
            assert(comments[i].id != comments[j].id);
        }
        assert(init[k] == comments[k]);
        lemma_with_comments_holds(start, init, k);
        assert(comments[k].id != comments[comments.len() - 1].id);
    }
}

/// Recording one thread's comments behind another's is recording all of them.
pub proof fn lemma_with_comments_joined(
    start: Map<u64, Seq<char>>,
    first: Seq<Comment>,
    second: Seq<Comment>,
)
    ensures
        with_comments(with_comments(start, first), second) == with_comments(start, first + second),
    decreases second.len(),
{
    if second.len() == 0 {
        assert(first + second =~= first);
    } else {
        assert((first + second).drop_last() =~= first + second.drop_last());
        assert((first + second).last() == second.last());
        lemma_with_comments_joined(start, first, second.drop_last());
    }
}

/// Ids name one review comment each.
pub open spec fn distinct_review_ids(comments: Seq<ReviewComment>) -> bool {
    forall|i: int, j: int|
        0 <= i < j < comments.len() ==> (#[trigger] comments[i]).id != (#[trigger] comments[j]).id
}

/// What was recorded of the inline review comments is not news again.
pub proof fn recorded_reviews_are_not_news(
    start: Map<u64, Seq<char>>,
    comments: Seq<ReviewComment>,
    seen: Map<u64, String>,
    my_token: Seq<char>,
    k: int,
)
    requires
        distinct_review_ids(comments),
        0 <= k < comments.len(),
        hashes(seen) == with_reviews(start, comments),
    ensures
        !crate::threads::is_news(seen, my_token, comments[k].id, comments[k].body@),
{
    lemma_with_reviews_holds(start, comments, k);
    assert(hashes(seen).contains_key(comments[k].id));
    assert(hashes(seen)[comments[k].id] == seen[comments[k].id]@);
}

proof fn lemma_with_reviews_holds(start: Map<u64, Seq<char>>, comments: Seq<ReviewComment>, k: int)
    requires
        distinct_review_ids(comments),
        0 <= k < comments.len(),
    ensures
        with_reviews(start, comments).contains_key(comments[k].id),
        with_reviews(start, comments)[comments[k].id] == store::hash_of(comments[k].body@),
    decreases comments.len(),
{
    if k < comments.len() - 1 {
        let init = comments.drop_last();
        assert forall|i: int, j: int| 0 <= i < j < init.len() implies (#[trigger] init[i]).id != (
        #[trigger] init[j]).id by {
            assert(comments[i].id != comments[j].id);
        }
        assert(init[k] == comments[k]);
        lemma_with_reviews_holds(start, init, k);
        assert(comments[k].id != comments[comments.len() - 1].id);
    }
}

/// Where the record of a session and an issue is, under the data directory.
pub open spec fn record_file(
    data_dir: Seq<char>,
    session_id: Seq<char>,
    owner: Seq<char>,
    repo: Seq<char>,
    number: nat,
) -> Seq<char> {
    text::below(
        text::below(
            text::below(text::below(text::below(data_dir, "seen"@), session_id), owner),
            repo,
        ),
        text::decimal(number) + ".json"@,
    )
}

/// Path to the record for a session and an issue, under the data directory.
pub fn record_path(data_dir: &str, session_id: &str, owner: &str, repo: &str, number: u64) -> (r:
    String)
    ensures
        r@ == record_file(data_dir@, session_id@, owner@, repo@, number as nat),
{
    let mut file = text::number(number);
    file.append(".json");
    let seen = text::path_below(data_dir, "seen");
    let session = text::path_below(seen.as_str(), session_id);
    let owned = text::path_below(session.as_str(), owner);
    let dir = text::path_below(owned.as_str(), repo);
    text::path_below(dir.as_str(), file.as_str())
}

} // verus!
