//! What the conversation threads hold: new comments, submitted answers, open
//! questions and approval prompts.

use std::collections::{BTreeMap, BTreeSet};
use vstd::prelude::*;

use crate::access::AccessList;
use crate::github::RepoRef;
use crate::models::{Comment, Reaction, ReviewComment};
use crate::options;
use crate::render::{self, CommentView, IgnoredInput, IgnoredKind, ReviewCommentView};
use crate::state::{self, Directive, OptionsWatch, ReactionWatch};
use crate::store;
use crate::text;
use crate::workflow::PromptThumbs;

verus! {

/// Whether a text is what was seen under `id`.
pub open spec fn already_seen(seen: Map<u64, String>, id: u64, body: Seq<char>) -> bool {
    seen.contains_key(id) && seen[id]@ == store::hash_of(body)
}

/// Whether a comment is news: neither hidden nor seen with this content.
pub open spec fn is_news(
    seen: Map<u64, String>,
    my_token: Seq<char>,
    id: u64,
    body: Seq<char>,
) -> bool {
    !render::hidden(body, Some(my_token)) && !already_seen(seen, id, body)
}

/// Whether a comment is news.
fn news(seen: &BTreeMap<u64, String>, my_token: &str, id: u64, body: &str) -> (r: bool)
    ensures
        r == is_news(seen@, my_token@, id, body@),
{
    if render::hidden_from_digest(body, Some(my_token)) {
        return false;
    }
    let hash = store::content_hash(body);
    match store::lookup(seen, id) {
        Some(previous) => !text::same(previous.as_str(), hash.as_str()),
        None => true,
    }
}

/// A comment of the digest.
pub struct NewComment {
    pub comment: Comment,
    pub body: Seq<char>,
    pub updated: bool,
}

pub open spec fn new_comment_views(v: Seq<CommentView>) -> Seq<NewComment> {
    Seq::new(
        v.len(),
        |i: int| NewComment { comment: *v[i].comment, body: v[i].body@, updated: v[i].updated },
    )
}

/// The comments that are news, by authors who may feed the session.
pub open spec fn new_comments(
    comments: Seq<Comment>,
    seen: Map<u64, String>,
    my_token: Seq<char>,
    access: AccessList,
) -> Seq<NewComment>
    decreases comments.len(),
{
    if comments.len() == 0 {
        seq![]
    } else {
        let before = new_comments(comments.drop_last(), seen, my_token, access);
        let c = comments.last();
        if is_news(seen, my_token, c.id, c.body@) && access@.comment(
            c.user.login@,
            c.author_association@,
        ) {
            before.push(
                NewComment {
                    comment: c,
                    body: render::shown(c.body@),
                    updated: seen.contains_key(c.id),
                },
            )
        } else {
            before
        }
    }
}

/// The comments that are news, by anyone else.
pub open spec fn ignored_comments(
    comments: Seq<Comment>,
    seen: Map<u64, String>,
    my_token: Seq<char>,
    access: AccessList,
    source: &'static str,
) -> Seq<IgnoredInput>
    decreases comments.len(),
{
    if comments.len() == 0 {
        seq![]
    } else {
        let before = ignored_comments(comments.drop_last(), seen, my_token, access, source);
        let c = comments.last();
        if is_news(seen, my_token, c.id, c.body@) && !access@.comment(
            c.user.login@,
            c.author_association@,
        ) {
            before.push(IgnoredInput { by: c.user.login, source, kind: IgnoredKind::Comment })
        } else {
            before
        }
    }
}

/// Collect one thread's new-or-changed conversation comments, diffed against
/// the comments seen before by content hash. Hidden comments (status updates,
/// this session's own posts) are skipped. Comments from authors who aren't
/// allow-listed are not surfaced; each is reported as an ignored input instead.
/// `source` is the thread the comments belong to ("issue" / "PR").
pub fn collect_new_comments<'a>(
    comments: &'a [Comment],
    seen: &BTreeMap<u64, String>,
    my_token: &str,
    access: &AccessList,
    source: &'static str,
) -> (r: (Vec<CommentView<'a>>, Vec<IgnoredInput>))
    ensures
        new_comment_views(r.0@) == new_comments(comments@, seen@, my_token@, *access),
        r.1@ == ignored_comments(comments@, seen@, my_token@, *access, source),
{
    let mut new: Vec<CommentView<'a>> = Vec::new();
    let mut ignored: Vec<IgnoredInput> = Vec::new();
    let mut i: usize = 0;
    assert(comments@.take(0) =~= seq![]);
    assert(new_comment_views(new@) =~= seq![]);
    assert(ignored@ =~= seq![]);
    while i < comments.len()
        invariant
            i <= comments.len(),
            new_comment_views(new@) == new_comments(
                comments@.take(i as int),
                seen@,
                my_token@,
                *access,
            ),
            ignored@ == ignored_comments(
                comments@.take(i as int),
                seen@,
                my_token@,
                *access,
                source,
            ),
        decreases comments.len() - i,
    {
        let comment = &comments[i];
        assert(comments@.take(i + 1).drop_last() =~= comments@.take(i as int));
        assert(comments@.take(i + 1).last() == comments@[i as int]);
        if news(seen, my_token, comment.id, comment.body.as_str()) {
            if access.accepts_comment(
                comment.user.login.as_str(),
                comment.author_association.as_str(),
            ) {
                let ghost before = new@;
                let view = CommentView {
                    comment,
                    body: render::strip_ghwf_marker(comment.body.as_str()),
                    updated: store::lookup(seen, comment.id).is_some(),
                };
                new.push(view);
                assert(new_comment_views(new@) =~= new_comment_views(before).push(
                    NewComment { comment: *comment, body: view.body@, updated: view.updated },
                ));
            } else {
                ignored.push(
                    IgnoredInput {
                        by: comment.user.login.clone(),
                        source,
                        kind: IgnoredKind::Comment,
                    },
                );
            }
        }
        i = i + 1;
    }
    assert(comments@.take(comments@.len() as int) =~= comments@);
    (new, ignored)
}

/// An inline review comment of the digest.
pub struct NewReview {
    pub comment: ReviewComment,
    pub body: Seq<char>,
    pub location: Seq<char>,
    pub updated: bool,
}

pub open spec fn new_review_views(v: Seq<ReviewCommentView>) -> Seq<NewReview> {
    Seq::new(
        v.len(),
        |i: int|
            NewReview {
                comment: *v[i].comment,
                body: v[i].body@,
                location: v[i].location@,
                updated: v[i].updated,
            },
    )
}

/// The inline review comments that are news, by authors who may feed the session.
pub open spec fn new_reviews(
    comments: Seq<ReviewComment>,
    seen: Map<u64, String>,
    my_token: Seq<char>,
    access: AccessList,
) -> Seq<NewReview>
    decreases comments.len(),
{
    if comments.len() == 0 {
        seq![]
    } else {
        let before = new_reviews(comments.drop_last(), seen, my_token, access);
        let c = comments.last();
        if is_news(seen, my_token, c.id, c.body@) && access@.comment(
            c.user.login@,
            c.author_association@,
        ) {
            before.push(
                NewReview {
                    comment: c,
                    body: render::shown(c.body@),
                    location: c.place(),
                    updated: seen.contains_key(c.id),
                },
            )
        } else {
            before
        }
    }
}

/// The inline review comments that are news, by anyone else.
pub open spec fn ignored_reviews(
    comments: Seq<ReviewComment>,
    seen: Map<u64, String>,
    my_token: Seq<char>,
    access: AccessList,
) -> Seq<IgnoredInput>
    decreases comments.len(),
{
    if comments.len() == 0 {
        seq![]
    } else {
        let before = ignored_reviews(comments.drop_last(), seen, my_token, access);
        let c = comments.last();
        if is_news(seen, my_token, c.id, c.body@) && !access@.comment(
            c.user.login@,
            c.author_association@,
        ) {
            before.push(IgnoredInput { by: c.user.login, source: "PR", kind: IgnoredKind::Comment })
        } else {
            before
        }
    }
}

/// Collect the PR's new-or-changed inline review comments. Anyone can leave an
/// inline review on a public PR, so these are gated like conversation comments.
pub fn collect_new_reviews<'a>(
    comments: &'a [ReviewComment],
    seen: &BTreeMap<u64, String>,
    my_token: &str,
    access: &AccessList,
) -> (r: (Vec<ReviewCommentView<'a>>, Vec<IgnoredInput>))
    ensures
        new_review_views(r.0@) == new_reviews(comments@, seen@, my_token@, *access),
        r.1@ == ignored_reviews(comments@, seen@, my_token@, *access),
{
    let mut new: Vec<ReviewCommentView<'a>> = Vec::new();
    let mut ignored: Vec<IgnoredInput> = Vec::new();
    let mut i: usize = 0;
    assert(comments@.take(0) =~= seq![]);
    assert(new_review_views(new@) =~= seq![]);
    assert(ignored@ =~= seq![]);
    while i < comments.len()
        invariant
            i <= comments.len(),
            new_review_views(new@) == new_reviews(
                comments@.take(i as int),
                seen@,
                my_token@,
                *access,
            ),
            ignored@ == ignored_reviews(comments@.take(i as int), seen@, my_token@, *access),
        decreases comments.len() - i,
    {
        let comment = &comments[i];
        assert(comments@.take(i + 1).drop_last() =~= comments@.take(i as int));
        assert(comments@.take(i + 1).last() == comments@[i as int]);
        if news(seen, my_token, comment.id, comment.body.as_str()) {
            if access.accepts_comment(
                comment.user.login.as_str(),
                comment.author_association.as_str(),
            ) {
                let ghost before = new@;
                let view = ReviewCommentView {
                    comment,
                    body: render::strip_ghwf_marker(comment.body.as_str()),
                    location: comment.location(),
                    updated: store::lookup(seen, comment.id).is_some(),
                };
                new.push(view);
                assert(new_review_views(new@) =~= new_review_views(before).push(
                    NewReview {
                        comment: *comment,
                        body: view.body@,
                        location: view.location@,
                        updated: view.updated,
                    },
                ));
            } else {
                ignored.push(
                    IgnoredInput {
                        by: comment.user.login.clone(),
                        source: "PR",
                        kind: IgnoredKind::Comment,
                    },
                );
            }
        }
        i = i + 1;
    }
    assert(comments@.take(comments@.len() as int) =~= comments@);
    (new, ignored)
}

/// A comment that was seen with this content is not surfaced again.
pub proof fn seen_comments_are_not_news(
    seen: Map<u64, String>,
    my_token: Seq<char>,
    id: u64,
    body: Seq<char>,
)
    requires
        seen.contains_key(id),
        seen[id]@ == store::hash_of(body),
    ensures
        !is_news(seen, my_token, id, body),
{
}

/// A thread without news surfaces nothing.
pub proof fn a_thread_without_news_is_silent(
    comments: Seq<Comment>,
    seen: Map<u64, String>,
    my_token: Seq<char>,
    access: AccessList,
    source: &'static str,
)
    requires
        forall|k: int|
            0 <= k < comments.len() ==> !is_news(
                seen,
                my_token,
                (#[trigger] comments[k]).id,
                comments[k].body@,
            ),
    ensures
        new_comments(comments, seen, my_token, access).len() == 0,
        ignored_comments(comments, seen, my_token, access, source).len() == 0,
    decreases comments.len(),
{
    if comments.len() > 0 {
        let init = comments.drop_last();
        assert forall|k: int| 0 <= k < init.len() implies !is_news(
            seen,
            my_token,
            (#[trigger] init[k]).id,
            init[k].body@,
        ) by {
            assert(init[k] == comments[k]);
        }
        a_thread_without_news_is_silent(init, seen, my_token, access, source);
        assert(comments[comments.len() - 1] == comments.last());
    }
}

/// Inline review comments without news surface nothing.
pub proof fn reviews_without_news_are_silent(
    comments: Seq<ReviewComment>,
    seen: Map<u64, String>,
    my_token: Seq<char>,
    access: AccessList,
)
    requires
        forall|k: int|
            0 <= k < comments.len() ==> !is_news(
                seen,
                my_token,
                (#[trigger] comments[k]).id,
                comments[k].body@,
            ),
    ensures
        new_reviews(comments, seen, my_token, access).len() == 0,
        ignored_reviews(comments, seen, my_token, access).len() == 0,
    decreases comments.len(),
{
    if comments.len() > 0 {
        let init = comments.drop_last();
        assert forall|k: int| 0 <= k < init.len() implies !is_news(
            seen,
            my_token,
            (#[trigger] init[k]).id,
            init[k].body@,
        ) by {
            assert(init[k] == comments[k]);
        }
        reviews_without_news_are_silent(init, seen, my_token, access);
        assert(comments[comments.len() - 1] == comments.last());
    }
}

/// A submitted answer, ready to surface.
pub struct OptionSubmission {
    /// Where the question was asked ("issue thread" / "PR thread").
    pub thread_noun: &'static str,
    pub url: String,
    pub selected: Vec<String>,
    pub unselected: Vec<String>,
}

/// An answer the user has just submitted, ready to surface (`view`) and to
/// consume (`comment_id` and `rewritten_body`, used to mark the comment done).
/// `repo` is where the options comment lives.
pub struct PendingSubmission {
    pub repo: RepoRef,
    pub comment_id: u64,
    pub rewritten_body: String,
    pub view: OptionSubmission,
}

/// What a [`PendingSubmission`] says.
pub struct Submission {
    pub repo: (Seq<char>, Seq<char>),
    pub comment_id: u64,
    pub rewritten_body: Seq<char>,
    pub thread_noun: Seq<char>,
    pub url: Seq<char>,
    pub selected: Seq<Seq<char>>,
    pub unselected: Seq<Seq<char>>,
}

impl View for PendingSubmission {
    type V = Submission;

    open spec fn view(&self) -> Submission {
        Submission {
            repo: crate::access::repo_of(self.repo),
            comment_id: self.comment_id,
            rewritten_body: self.rewritten_body@,
            thread_noun: self.view.thread_noun@,
            url: self.view.url@,
            selected: text::views(self.view.selected@),
            unselected: text::views(self.view.unselected@),
        }
    }
}

pub open spec fn submission_views(v: Seq<PendingSubmission>) -> Seq<Submission> {
    Seq::new(v.len(), |i: int| v[i]@)
}

/// The labels of the options whose box is `ticked`.
pub open spec fn labels_where(options: Seq<(Seq<char>, bool)>, ticked: bool) -> Seq<Seq<char>>
    decreases options.len(),
{
    if options.len() == 0 {
        seq![]
    } else {
        let before = labels_where(options.drop_last(), ticked);
        if options.last().1 == ticked {
            before.push(options.last().0)
        } else {
            before
        }
    }
}

/// The submit box of a comment that this session asked with.
pub open spec fn asked(c: Comment, my_token: Seq<char>) -> Option<bool> {
    if render::hidden(c.body@, Some(my_token)) {
        options::submit_in(text::lines(c.body@))
    } else {
        None
    }
}

/// The answer that a comment submits.
pub open spec fn submission_of(
    c: Comment,
    thread_noun: &'static str,
    repo: RepoRef,
) -> Submission {
    let opts = options::options_in(text::lines(c.body@));
    Submission {
        repo: crate::access::repo_of(repo),
        comment_id: c.id,
        rewritten_body: text::join(
            options::taken_lines(text::lines(c.body@), c.updated_at@),
            "\n"@,
        ),
        thread_noun: thread_noun@,
        url: c.html_url@,
        selected: labels_where(opts, true),
        unselected: labels_where(opts, false),
    }
}

/// The answers submitted on a thread.
pub open spec fn submissions_in(
    comments: Seq<Comment>,
    my_token: Seq<char>,
    thread_noun: &'static str,
    repo: RepoRef,
) -> Seq<Submission>
    decreases comments.len(),
{
    if comments.len() == 0 {
        seq![]
    } else {
        let before = submissions_in(comments.drop_last(), my_token, thread_noun, repo);
        if asked(comments.last(), my_token) == Some(true) {
            before.push(submission_of(comments.last(), thread_noun, repo))
        } else {
            before
        }
    }
}

/// The position of the latest question on a thread that is still open, or -1;
/// of those asked at one moment, the first.
pub open spec fn open_question(comments: Seq<Comment>, my_token: Seq<char>) -> int
    decreases comments.len(),
{
    if comments.len() == 0 {
        -1
    } else {
        let before = open_question(comments.drop_last(), my_token);
        let c = comments.last();
        if asked(c, my_token) == Some(false) && (before < 0 || !text::le(
            c.created_at@,
            comments[before].created_at@,
        )) {
            comments.len() - 1
        } else {
            before
        }
    }
}

/// The labels of the options whose box is `ticked`.
fn labels_of(opts: &Vec<options::ParsedOption>, ticked: bool) -> (r: Vec<String>)
    ensures
        text::views(r@) == labels_where(options::option_views(opts@), ticked),
{
    let mut out: Vec<String> = Vec::new();
    let ghost all = options::option_views(opts@);
    let mut i: usize = 0;
    assert(all.take(0) =~= seq![]);
    assert(text::views(out@) =~= seq![]);
    while i < opts.len()
        invariant
            i <= opts.len(),
            all == options::option_views(opts@),
            text::views(out@) == labels_where(all.take(i as int), ticked),
        decreases opts.len() - i,
    {
        assert(all.take(i + 1).drop_last() =~= all.take(i as int));
        assert(all.take(i + 1).last() == all[i as int]);
        if opts[i].checked == ticked {
            let ghost before = out@;
            let label = text::copy(opts[i].label.as_str());
            out.push(label);
            proof {
                text::lemma_views_push(before, label);
            }
        }
        i = i + 1;
    }
    assert(all.take(all.len() as int) =~= all);
    out
}

/// Scan one thread's comments for this session's questions. Returns the answers
/// whose submit box is now ticked, each with the rewritten body that marks it
/// consumed, and the latest still-open question on the thread, to keep
/// watching. `repo` is the thread's repo, recorded on each submission so it's
/// consumed in the right place.
pub fn scan_options(
    comments: &[Comment],
    my_token: &str,
    thread_noun: &'static str,
    repo: &RepoRef,
) -> (r: (Vec<PendingSubmission>, Option<OptionsWatch>))
    ensures
        submission_views(r.0@) == submissions_in(comments@, my_token@, thread_noun, *repo),
        match r.1 {
            Some(watch) => {
                let at = open_question(comments@, my_token@);
                0 <= at < comments@.len() && watch.comment_id == comments@[at].id
            },
            None => open_question(comments@, my_token@) < 0,
        },
{
    let mut submissions: Vec<PendingSubmission> = Vec::new();
    let mut outstanding: Option<usize> = None;
    let mut i: usize = 0;
    assert(comments@.take(0) =~= seq![]);
    assert(submission_views(submissions@) =~= seq![]);
    while i < comments.len()
        invariant
            i <= comments.len(),
            submission_views(submissions@) == submissions_in(
                comments@.take(i as int),
                my_token@,
                thread_noun,
                *repo,
            ),
            match outstanding {
                Some(at) => at < i && at == open_question(comments@.take(i as int), my_token@),
                None => open_question(comments@.take(i as int), my_token@) < 0,
            },
        decreases comments.len() - i,
    {
        let comment = &comments[i];
        proof {
            let now = comments@.take(i + 1);
            assert(now.drop_last() =~= comments@.take(i as int));
            assert(now.last() == comments@[i as int]);
        }
        // Only this session's own (hidden) comments ask; status comments and
        // user prose can't be questions.
        if render::hidden_from_digest(comment.body.as_str(), Some(my_token)) {
            let parsed = options::parse_options_comment(comment.body.as_str());
            match parsed.submit {
                Some(true) => {
                    let ghost before = submissions@;
                    let sub = PendingSubmission {
                        repo: (text::copy(repo.0.as_str()), text::copy(repo.1.as_str())),
                        comment_id: comment.id,
                        rewritten_body: options::rewrite_submitted_body(
                            comment.body.as_str(),
                            comment.updated_at.as_str(),
                        ),
                        view: OptionSubmission {
                            thread_noun,
                            url: text::copy(comment.html_url.as_str()),
                            selected: labels_of(&parsed.options, true),
                            unselected: labels_of(&parsed.options, false),
                        },
                    };
                    submissions.push(sub);
                    assert(submission_views(submissions@) =~= submission_views(before).push(sub@));
                },
                Some(false) => {
                    outstanding =
                    match outstanding {
                        Some(at) => {
                            if text::at_most(
                                comment.created_at.as_str(),
                                comments[at].created_at.as_str(),
                            ) {
                                Some(at)
                            } else {
                                Some(i)
                            }
                        },
                        None => Some(i),
                    };
                },
                None => {},
            }
        }
        i = i + 1;
    }
    assert(comments@.take(comments@.len() as int) =~= comments@);
    let watch = match outstanding {
        Some(at) => Some(OptionsWatch { comment_id: comments[at].id }),
        None => None,
    };
    (submissions, watch)
}

/// Whether a comment prompts for an approval: a posted one that asks for it.
pub open spec fn prompts(c: Comment) -> bool {
    render::marker_of(c.body@) is Some && state::prompted_directive(c.body@) is Some
}

/// The position of the latest approval prompt, or -1; of those posted at one
/// moment, the last.
pub open spec fn latest_prompt(comments: Seq<Comment>) -> int
    decreases comments.len(),
{
    if comments.len() == 0 {
        -1
    } else {
        let before = latest_prompt(comments.drop_last());
        let c = comments.last();
        if prompts(c) && (before < 0 || text::le(comments[before].created_at@, c.created_at@)) {
            comments.len() - 1
        } else {
            before
        }
    }
}

/// The comments of a thread, and the one that was just posted on it.
pub open spec fn with_posted(comments: Seq<Comment>, posted: Option<&Comment>) -> Seq<Comment> {
    match posted {
        Some(c) => comments.push(*c),
        None => comments,
    }
}

/// The ids of the 👍s among `reactions`.
pub open spec fn thumb_ids(reactions: Seq<Reaction>) -> Set<u64> {
    Set::new(
        |id: u64|
            exists|i: int|
                0 <= i < reactions.len() && (#[trigger] reactions[i]).thumbs_up()
                    && reactions[i].id == id,
    )
}

/// The 👍s that the first record of a prompt holds.
pub open spec fn baseline(prompt_thumbs: Seq<PromptThumbs>, id: u64) -> Set<u64>
    decreases prompt_thumbs.len(),
{
    if prompt_thumbs.len() == 0 {
        Set::empty()
    } else if prompt_thumbs[0].comment_id == id {
        thumb_ids(prompt_thumbs[0].reactions@)
    } else {
        baseline(prompt_thumbs.skip(1), id)
    }
}

/// The ids of the 👍s among `reactions`.
fn thumbs_among(reactions: &Vec<Reaction>) -> (r: BTreeSet<u64>)
    ensures
        r@ == thumb_ids(reactions@),
{
    let mut ids: BTreeSet<u64> = BTreeSet::new();
    let mut i: usize = 0;
    assert(ids@ =~= thumb_ids(reactions@.take(0)));
    while i < reactions.len()
        invariant
            i <= reactions.len(),
            ids@ == thumb_ids(reactions@.take(i as int)),
        decreases reactions.len() - i,
    {
        let ghost before = reactions@.take(i as int);
        let ghost now = reactions@.take(i + 1);
        let r = &reactions[i];
        let ghost had = ids@;
        if r.is_thumbs_up() {
            store::put(&mut ids, r.id);
        }
        proof {
            assert forall|id: u64| ids@.contains(id) == thumb_ids(now).contains(id) by {
                if thumb_ids(before).contains(id) {
                    let k = choose|k: int|
                        0 <= k < before.len() && (#[trigger] before[k]).thumbs_up() && before[k].id
                            == id;
                    assert(now[k] == before[k]);
                }
                if r.thumbs_up() && r.id == id {
                    assert(now[i as int].thumbs_up() && now[i as int].id == id);
                }
                if thumb_ids(now).contains(id) {
                    let k = choose|k: int|
                        0 <= k < now.len() && (#[trigger] now[k]).thumbs_up() && now[k].id == id;
                    if k < i {
                        assert(before[k] == now[k]);
                    }
                }
            }
            assert(ids@ =~= thumb_ids(now));
        }
        i = i + 1;
    }
    assert(reactions@.take(reactions@.len() as int) =~= reactions@);
    ids
}

/// The 👍s that the first record of a prompt holds.
fn baseline_of(prompt_thumbs: &[PromptThumbs], id: u64) -> (r: BTreeSet<u64>)
    ensures
        r@ == baseline(prompt_thumbs@, id),
{
    let mut i: usize = 0;
    assert(prompt_thumbs@.skip(0) =~= prompt_thumbs@);
    while i < prompt_thumbs.len()
        invariant
            i <= prompt_thumbs.len(),
            baseline(prompt_thumbs@, id) == baseline(prompt_thumbs@.skip(i as int), id),
        decreases prompt_thumbs.len() - i,
    {
        if prompt_thumbs[i].comment_id == id {
            return thumbs_among(&prompt_thumbs[i].reactions);
        }
        assert(prompt_thumbs@.skip(i as int).skip(1) =~= prompt_thumbs@.skip(i + 1));
        i = i + 1;
    }
    BTreeSet::new()
}

/// Whether a comment prompts for an approval.
fn is_prompt(c: &Comment) -> (r: bool)
    ensures
        r == prompts(*c),
{
    render::extract_marker(c.body.as_str()).is_some() && state::parse_prompted_directive(
        c.body.as_str(),
    ).is_some()
}

/// The reaction watch for one thread: its latest approval prompt, baselined
/// with the 👍 reaction ids already fetched this run (a just-posted prompt has
/// none).
pub fn latest_prompt_watch(
    comments: &[Comment],
    posted: Option<&Comment>,
    prompt_thumbs: &[PromptThumbs],
) -> (r: Option<ReactionWatch>)
    ensures
        match r {
            Some(watch) => {
                let all = with_posted(comments@, posted);
                let at = latest_prompt(all);
                0 <= at < all.len() && watch.comment_id == all[at].id && watch.plus_one_ids@
                    == baseline(prompt_thumbs@, all[at].id)
            },
            None => latest_prompt(with_posted(comments@, posted)) < 0,
        },
{
    let mut latest: Option<usize> = None;
    let mut i: usize = 0;
    assert(comments@.take(0) =~= seq![]);
    while i < comments.len()
        invariant
            i <= comments.len(),
            match latest {
                Some(at) => at < i && at == latest_prompt(comments@.take(i as int)),
                None => latest_prompt(comments@.take(i as int)) < 0,
            },
        decreases comments.len() - i,
    {
        proof {
            let now = comments@.take(i + 1);
            assert(now.drop_last() =~= comments@.take(i as int));
            assert(now.last() == comments@[i as int]);
        }
        if is_prompt(&comments[i]) {
            latest =
            match latest {
                Some(at) => {
                    if text::at_most(
                        comments[at].created_at.as_str(),
                        comments[i].created_at.as_str(),
                    ) {
                        Some(i)
                    } else {
                        Some(at)
                    }
                },
                None => Some(i),
            };
        }
        i = i + 1;
    }
    assert(comments@.take(comments@.len() as int) =~= comments@);
    let chosen: Option<u64> = match posted {
        Some(c) => {
            let ghost all = with_posted(comments@, posted);
            assert(all.drop_last() =~= comments@);
            assert(all.last() == *c);
            let newer = match latest {
                Some(at) => text::at_most(comments[at].created_at.as_str(), c.created_at.as_str()),
                None => true,
            };
            if is_prompt(c) && newer {
                Some(c.id)
            } else {
                match latest {
                    Some(at) => Some(comments[at].id),
                    None => None,
                }
            }
        },
        None => match latest {
            Some(at) => Some(comments[at].id),
            None => None,
        },
    };
    match chosen {
        Some(id) => Some(
            ReactionWatch { comment_id: id, plus_one_ids: baseline_of(prompt_thumbs, id) },
        ),
        None => None,
    }
}

/// A prompt whose reactions are worth fetching: the comment, and what a 👍 on
/// it approves.
pub struct PromptRef {
    pub comment_id: u64,
    pub directive: Directive,
}

/// Whether a comment's summary of reactions shows a 👍.
pub open spec fn shows_thumbs(c: Comment) -> bool {
    c.reactions is Some && c.reactions->0.plus_one > 0
}

/// The prompts of a thread that carry a 👍.
pub open spec fn thumbed_prompts(comments: Seq<Comment>) -> Seq<PromptRef>
    decreases comments.len(),
{
    if comments.len() == 0 {
        seq![]
    } else {
        let before = thumbed_prompts(comments.drop_last());
        let c = comments.last();
        if prompts(c) && shows_thumbs(c) {
            before.push(
                PromptRef { comment_id: c.id, directive: state::prompted_directive(c.body@)->0 },
            )
        } else {
            before
        }
    }
}

/// Collect one thread's approval prompts that carry 👍 reactions: marked
/// comments whose body prompts for an approval and whose reaction summary shows
/// at least one 👍. Only those warrant fetching the reactions themselves.
pub fn collect_prompt_thumbs(comments: &[Comment]) -> (r: Vec<PromptRef>)
    ensures
        r@ == thumbed_prompts(comments@),
{
    let mut out: Vec<PromptRef> = Vec::new();
    let mut i: usize = 0;
    assert(comments@.take(0) =~= seq![]);
    assert(out@ =~= seq![]);
    while i < comments.len()
        invariant
            i <= comments.len(),
            out@ == thumbed_prompts(comments@.take(i as int)),
        decreases comments.len() - i,
    {
        let c = &comments[i];
        assert(comments@.take(i + 1).drop_last() =~= comments@.take(i as int));
        assert(comments@.take(i + 1).last() == comments@[i as int]);
        let thumbed = match &c.reactions {
            Some(rollup) => rollup.plus_one > 0,
            None => false,
        };
        if thumbed && render::extract_marker(c.body.as_str()).is_some() {
            if let Some(directive) = state::parse_prompted_directive(c.body.as_str()) {
                out.push(PromptRef { comment_id: c.id, directive });
            }
        }
        i = i + 1;
    }
    assert(comments@.take(comments@.len() as int) =~= comments@);
    out
}

} // verus!
