//! Questions with tick boxes: how they are written, and what is read from them.

use vstd::prelude::*;

use crate::github::RepoRef;
use crate::models::Comment;
use crate::options::{self, ParsedOptions};
use crate::render;
use crate::state::OptionsWatch;
use crate::text;
use crate::threads::{self, PendingSubmission, Submission};

verus! {

/// The line begins with a tick box, ticked or not.
pub open spec fn boxed(line: Seq<char>, ticked: bool) -> bool {
    if ticked {
        text::starts_with(line, "- [x] "@) || text::starts_with(line, "- [X] "@)
    } else {
        text::starts_with(line, "- [ ] "@)
    }
}

/// The line is an option: a tick box, the label, and the mark of an option behind it.
pub open spec fn is_option(line: Seq<char>, label: Seq<char>, ticked: bool) -> bool {
    boxed(line, ticked) && exists|at: int| #[trigger]
        text::is_first(line.skip(6), "<!-- ghwf-option:"@, at) && label == text::trim(
            line.skip(6).take(at),
        )
}

/// The line is the submit box.
pub open spec fn is_submit(line: Seq<char>, ticked: bool) -> bool {
    boxed(line, ticked) && text::starts_with(
        line.skip(6),
        "**Submit my answers** <!-- ghwf-submit -->"@,
    )
}

/// The first submit box of a text, ticked or not.
pub open spec fn submits(body: Seq<char>, ticked: bool) -> bool {
    exists|i: int|
        #![trigger text::lines(body)[i]]
        0 <= i < text::lines(body).len() && is_submit(text::lines(body)[i], ticked) && (forall|
            j: int,
        |
            0 <= j < i ==> !is_submit(#[trigger] text::lines(body)[j], true) && !is_submit(
                text::lines(body)[j],
                false,
            ))
}

/// A text has an option with this label, ticked or not.
pub open spec fn offers(body: Seq<char>, label: Seq<char>, ticked: bool) -> bool {
    exists|i: int|
        #![trigger text::lines(body)[i]]
        0 <= i < text::lines(body).len() && is_option(text::lines(body)[i], label, ticked)
}

proof fn lemma_boxed(line: Seq<char>, ticked: bool)
    ensures
        boxed(line, ticked) <==> options::checkbox(line) == Some(ticked),
{
    reveal_strlit("- [ ] ");
    reveal_strlit("- [x] ");
    reveal_strlit("- [X] ");
    if text::starts_with(line, "- [ ] "@) {
        assert(line.subrange(0, 6)[3] == ' ');
    }
    if text::starts_with(line, "- [x] "@) {
        assert(line.subrange(0, 6)[3] == 'x');
    }
    if text::starts_with(line, "- [X] "@) {
        assert(line.subrange(0, 6)[3] == 'X');
    }
}

proof fn lemma_found(s: Seq<char>, p: Seq<char>)
    ensures
        text::find(s, p) is Some ==> text::is_first(s, p, text::find(s, p)->0),
{
    if text::contains(s, p) {
        let i = choose|i: int| text::at(s, p, i);
        lemma_first(s, p, i);
        let at = choose|at: int| text::is_first(s, p, at);
        text::lemma_find(s, p, at);
    }
}

proof fn lemma_first(s: Seq<char>, p: Seq<char>, i: int)
    requires
        text::at(s, p, i),
    ensures
        exists|at: int| text::is_first(s, p, at),
    decreases i,
{
    if forall|j: int| 0 <= j < i ==> !text::at(s, p, j) {
        assert(text::is_first(s, p, i));
    } else {
        let j = choose|j: int| 0 <= j < i && text::at(s, p, j);
        lemma_first(s, p, j);
    }
}

proof fn lemma_option(line: Seq<char>, label: Seq<char>, ticked: bool)
    ensures
        is_option(line, label, ticked) <==> options::option_of(line) == Some((label, ticked)),
{
    lemma_boxed(line, ticked);
    let rest = line.skip(6);
    lemma_found(rest, "<!-- ghwf-option:"@);
    if is_option(line, label, ticked) {
        let at = choose|at: int| #[trigger]
            text::is_first(rest, "<!-- ghwf-option:"@, at) && label == text::trim(rest.take(at));
        text::lemma_find(rest, "<!-- ghwf-option:"@, at);
    }
    if options::option_of(line) == Some((label, ticked)) {
        let at = text::find(rest, "<!-- ghwf-option:"@)->0;
        assert(text::is_first(rest, "<!-- ghwf-option:"@, at));
        assert(label == text::trim(rest.take(at)));
    }
}

proof fn lemma_submit(line: Seq<char>, ticked: bool)
    ensures
        is_submit(line, ticked) <==> options::submit_of(line) == Some(ticked),
{
    lemma_boxed(line, ticked);
}

/// Where the options stand.
pub open spec fn option_places(lines: Seq<Seq<char>>) -> Seq<int>
    decreases lines.len(),
{
    if lines.len() == 0 {
        seq![]
    } else {
        let before = option_places(lines.drop_last());
        if options::option_of(lines.last()) is Some {
            before.push(lines.len() - 1)
        } else {
            before
        }
    }
}

proof fn lemma_places(lines: Seq<Seq<char>>)
    ensures
        ({
            let places = option_places(lines);
            let found = options::options_in(lines);
            &&& places.len() == found.len()
            &&& forall|k: int|
                #![trigger places[k]]
                0 <= k < places.len() ==> 0 <= places[k] < lines.len() && options::option_of(
                    lines[places[k]],
                ) == Some(found[k])
            &&& forall|j: int, k: int| 0 <= j < k < places.len() ==> places[j] < places[k]
            &&& forall|i: int|
                #![trigger lines[i]]
                0 <= i < lines.len() && options::option_of(lines[i]) is Some ==> places.contains(i)
        }),
    decreases lines.len(),
{
    if lines.len() > 0 {
        let init = lines.drop_last();
        lemma_places(init);
        let places = option_places(lines);
        let before = option_places(init);
        let found = options::options_in(lines);
        assert forall|k: int| #![trigger places[k]] 0 <= k < places.len() implies 0 <= places[k]
            < lines.len() && options::option_of(lines[places[k]]) == Some(found[k]) by {
            if k < before.len() {
                assert(before[k] == places[k]);
                assert(init[before[k]] == lines[before[k]]);
            }
        }
        assert forall|j: int, k: int| 0 <= j < k < places.len() implies places[j] < places[k] by {
            assert(places[j] == before[j]);
            if k < before.len() {
                assert(places[k] == before[k]);
            }
        }
        assert forall|i: int|
            #![trigger lines[i]]
            0 <= i < lines.len() && options::option_of(
                lines[i],
            ) is Some implies places.contains(i) by {
            if i < init.len() {
                assert(init[i] == lines[i]);
                assert(before.contains(i));
                let k = choose|k: int| 0 <= k < before.len() && before[k] == i;
                assert(places[k] == i);
            } else {
                assert(places[before.len() as int] == i);
            }
        }
    }
}

proof fn lemma_submits(lines: Seq<Seq<char>>)
    ensures
        options::submit_in(lines) is None <==> forall|i: int|
            #![trigger lines[i]]
            0 <= i < lines.len() ==> options::submit_of(lines[i]) is None,
        options::submit_in(lines) is Some ==> exists|i: int|
            #![trigger lines[i]]
            0 <= i < lines.len() && options::submit_of(lines[i]) == options::submit_in(lines) && (
            forall|j: int| 0 <= j < i ==> options::submit_of(#[trigger] lines[j]) is None),
    decreases lines.len(),
{
    if lines.len() > 0 {
        let init = lines.drop_last();
        lemma_submits(init);
        if options::submit_in(init) is Some {
            let i = choose|i: int|
                #![trigger init[i]]
                0 <= i < init.len() && options::submit_of(init[i]) == options::submit_in(init) && (
                forall|j: int| 0 <= j < i ==> options::submit_of(#[trigger] init[j]) is None);
            assert(lines[i] == init[i]);
            assert forall|j: int| 0 <= j < i implies options::submit_of(
                #[trigger] lines[j],
            ) is None by {
                assert(init[j] == lines[j]);
            }
        } else {
            assert forall|j: int| 0 <= j < init.len() implies options::submit_of(
                #[trigger] lines[j],
            ) is None by {
                assert(init[j] == lines[j]);
            }
            let i = lines.len() - 1;
            assert(lines[i] == lines.last());
        }
    }
}

pub proof fn lemma_submits_body(body: Seq<char>, ticked: bool)
    ensures
        submits(body, ticked) <==> options::submit_in(text::lines(body)) == Some(ticked),
{
    let lines = text::lines(body);
    lemma_submits(lines);
    if options::submit_in(lines) is Some {
        let i = choose|i: int|
            #![trigger lines[i]]
            0 <= i < lines.len() && options::submit_of(lines[i]) == options::submit_in(lines) && (
            forall|j: int| 0 <= j < i ==> options::submit_of(#[trigger] lines[j]) is None);
        lemma_submit(lines[i], true);
        lemma_submit(lines[i], false);
        assert forall|j: int| 0 <= j < i implies !is_submit(#[trigger] lines[j], true)
            && !is_submit(lines[j], false) by {
            lemma_submit(lines[j], true);
            lemma_submit(lines[j], false);
        }
        if submits(body, ticked) {
            let k = choose|k: int|
                #![trigger lines[k]]
                0 <= k < lines.len() && is_submit(lines[k], ticked) && (forall|j: int|
                    0 <= j < k ==> !is_submit(#[trigger] lines[j], true) && !is_submit(
                        lines[j],
                        false,
                    ));
            lemma_submit(lines[k], ticked);
            if k < i {
                assert(options::submit_of(lines[k]) is None);
            }
            if i < k {
                assert(!is_submit(lines[i], true));
            }
        }
    } else if submits(body, ticked) {
        let k = choose|k: int|
            #![trigger lines[k]]
            0 <= k < lines.len() && is_submit(lines[k], ticked) && (forall|j: int|
                0 <= j < k ==> !is_submit(#[trigger] lines[j], true) && !is_submit(
                    lines[j],
                    false,
                ));
        lemma_submit(lines[k], ticked);
    }
}

/// The options of a comment are its option lines, in order, each with its label and
/// tick; it is submitted where the first submit box is ticked.
pub proof fn ticks_are_read_from_the_boxes(body: &str, r: ParsedOptions)
    requires
        call_ensures(options::parse_options_comment, (body,), r),
    ensures
        exists|places: Seq<int>|
            {
                &&& #[trigger] places.len() == r.options@.len()
                &&& forall|k: int|
                    #![trigger places[k]]
                    0 <= k < places.len() ==> 0 <= places[k] < text::lines(body@).len()
                        && is_option(
                        text::lines(body@)[places[k]],
                        r.options@[k].label@,
                        r.options@[k].checked,
                    )
                &&& forall|j: int, k: int| 0 <= j < k < places.len() ==> places[j] < places[k]
                &&& forall|i: int, label: Seq<char>, ticked: bool|
                    0 <= i < text::lines(body@).len() && #[trigger] is_option(
                        text::lines(body@)[i],
                        label,
                        ticked,
                    ) ==> places.contains(i)
            },
        r.submit == Some(true) <==> submits(body@, true),
        r.submit == Some(false) <==> submits(body@, false),
{
    let lines = text::lines(body@);
    lemma_places(lines);
    lemma_submits_body(body@, true);
    lemma_submits_body(body@, false);
    let places = option_places(lines);
    let found = options::options_in(lines);
    assert(options::option_views(r.options@).len() == r.options@.len());
    assert forall|k: int| #![trigger places[k]] 0 <= k < places.len() implies 0 <= places[k]
        < lines.len() && is_option(lines[places[k]], r.options@[k].label@, r.options@[k].checked) by {
        assert(options::option_views(r.options@)[k] == found[k]);
        lemma_option(lines[places[k]], r.options@[k].label@, r.options@[k].checked);
    }
    assert forall|i: int, label: Seq<char>, ticked: bool|
        0 <= i < lines.len() && #[trigger] is_option(
            lines[i],
            label,
            ticked,
        ) implies places.contains(i) by {
        lemma_option(lines[i], label, ticked);
    }
    assert(places.len() == r.options@.len());
}

/// The text of a question: the question, then a line per option with an open box, its
/// label and its number, counted from one, then the open submit box.
pub proof fn questions_list_their_options(question: &str, labels: &[String], r: String, i: int)
    requires
        call_ensures(options::build_options_body, (question, labels), r),
    ensures
        text::starts_with(r@, text::trim(question@) + "\n\n"@),
        text::ends_with(r@, "\n- [ ] **Submit my answers** <!-- ghwf-submit -->"@),
        0 <= i < labels@.len() ==> text::contains(
            r@,
            "- [ ] "@ + labels@[i]@ + " <!-- ghwf-option:"@ + text::decimal((i + 1) as nat)
                + " -->\n"@,
        ),
{
    reveal_strlit("\n- [ ] **Submit my answers** <!-- ghwf-submit -->");
    reveal_strlit("**Submit my answers** <!-- ghwf-submit -->");
    reveal_strlit("- [ ] ");
    reveal_strlit("\n\n");
    reveal_strlit("\n");
    let head = text::trim(question@) + "\n\n"@;
    let items = options::unticked(labels@);
    let rows = options::option_lines(items);
    assert(r@.subrange(0, head.len() as int) =~= head);
    let tail = "\n- [ ] **Submit my answers** <!-- ghwf-submit -->"@;
    assert(r@.subrange(r@.len() - tail.len(), r@.len() as int) =~= tail);
    if 0 <= i < labels@.len() {
        lemma_row(items, i);
        let row = options::option_line(items[i].0, items[i].1, (i + 1) as nat).push('\n');
        let at = choose|at: int| text::at(rows, row, at);
        let want = "- [ ] "@ + labels@[i]@ + " <!-- ghwf-option:"@ + text::decimal((i + 1) as nat)
            + " -->\n"@;
        reveal_strlit(" <!-- ghwf-option:");
        reveal_strlit(" ");
        reveal_strlit("<!-- ghwf-option:");
        reveal_strlit(" -->\n");
        reveal_strlit(" -->");
        assert(want =~= row);
        assert(r@.subrange(head.len() + at, head.len() + at + row.len()) =~= rows.subrange(
            at,
            at + row.len(),
        ));
        assert(text::at(r@, want, head.len() + at));
    }
}

proof fn lemma_row(items: Seq<(Seq<char>, bool)>, i: int)
    requires
        0 <= i < items.len(),
    ensures
        text::contains(
            options::option_lines(items),
            options::option_line(items[i].0, items[i].1, (i + 1) as nat).push('\n'),
        ),
    decreases items.len(),
{
    let init = items.drop_last();
    let rows = options::option_lines(items);
    let before = options::option_lines(init);
    let row = options::option_line(items[i].0, items[i].1, (i + 1) as nat).push('\n');
    if i < init.len() {
        lemma_row(init, i);
        assert(init[i] == items[i]);
        let at = choose|at: int| text::at(before, row, at);
        assert(rows.subrange(at, at + row.len()) =~= before.subrange(at, at + row.len()));
        assert(text::at(rows, row, at));
    } else {
        let at = before.len() as int;
        assert(rows.subrange(at, at + row.len()) =~= row);
        assert(text::at(rows, row, at));
    }
}

/// What is asked is read back: the labels in order, none ticked, not submitted. The
/// question's own lines must not begin like a tick box, and a label must be a plain one.
pub proof fn questions_are_read_back(
    question: &str,
    labels: &[String],
    body: String,
    posted: &str,
    r: ParsedOptions,
    i: int,
)
    requires
        call_ensures(options::build_options_body, (question, labels), body),
        posted@ == body@,
        call_ensures(options::parse_options_comment, (posted,), r),
        forall|k: int|
            0 <= k < text::lines(text::trim(question@) + "\n\n"@).len() ==> !text::starts_with(
                #[trigger] text::lines(text::trim(question@) + "\n\n"@)[k],
                "- ["@,
            ),
        forall|k: int|
            #![trigger labels@[k]]
            0 <= k < labels@.len() ==> {
                &&& text::one_line(labels@[k]@)
                &&& text::trim(labels@[k]@) == labels@[k]@
                &&& !text::contains(labels@[k]@, "<!-- ghwf-option:"@)
                &&& !text::starts_with(labels@[k]@, "**Submit my answers**"@)
            },
    ensures
        r.options@.len() == labels@.len(),
        0 <= i < labels@.len() ==> r.options@[i].label@ == labels@[i]@ && !r.options@[i].checked,
        r.submit == Some(false),
{
    let own = text::lines(text::trim(question@) + "\n\n"@);
    lemma_quiet(own);
    let items = options::unticked(labels@);
    assert forall|k: int| 0 <= k < items.len() implies options::plain_label(
        #[trigger] items[k].0,
    ) by {
        assert(labels@[k]@ == items[k].0);
    }
    options::reading_gives_back_the_ticks(question@, items, false);
    let views = options::option_views(r.options@);
    assert(views.len() == r.options@.len());
    if 0 <= i < labels@.len() {
        assert(views[i] == items[i]);
    }
}

proof fn lemma_quiet(lines: Seq<Seq<char>>)
    requires
        forall|k: int| 0 <= k < lines.len() ==> !text::starts_with(#[trigger] lines[k], "- ["@),
    ensures
        options::options_in(lines) == Seq::<(Seq<char>, bool)>::empty(),
        options::submit_in(lines) is None,
    decreases lines.len(),
{
    if lines.len() > 0 {
        let init = lines.drop_last();
        assert forall|k: int| 0 <= k < init.len() implies !text::starts_with(
            #[trigger] init[k],
            "- ["@,
        ) by {
            assert(init[k] == lines[k]);
        }
        lemma_quiet(init);
        let line = lines[lines.len() - 1];
        assert(!text::starts_with(line, "- ["@));
        reveal_strlit("- [");
        reveal_strlit("- [ ] ");
        reveal_strlit("- [x] ");
        reveal_strlit("- [X] ");
        if options::checkbox(line) is Some {
            let p = line.subrange(0, 6);
            assert(p[0] == '-' && p[1] == ' ' && p[2] == '[');
            assert(line.subrange(0, 3) =~= "- ["@);
        }
    }
}

/// Taking an answer replaces each submit box by a line that says when, and leaves every
/// other line as it is; what is left cannot be submitted again.
pub proof fn taken_answers_say_when(body: &str, at: &str, r: String, again: &str, q: ParsedOptions)
    requires
        call_ensures(options::rewrite_submitted_body, (body, at), r),
        text::one_line(at@),
        again@ == r@,
        call_ensures(options::parse_options_comment, (again,), q),
    ensures
        exists|out: Seq<Seq<char>>|
            {
                &&& r@ == #[trigger] text::join(out, "\n"@)
                &&& out.len() == text::lines(body@).len()
                &&& forall|i: int|
                    #![trigger out[i]]
                    0 <= i < out.len() ==> if is_submit(text::lines(body@)[i], true) || is_submit(
                        text::lines(body@)[i],
                        false,
                    ) {
                        out[i] == "_Answers submitted at "@ + at@ + "_"@
                    } else {
                        out[i] == text::lines(body@)[i]
                    }
            },
        q.submit is None,
{
    let lines = text::lines(body@);
    let out = options::taken_lines(lines, at@);
    options::taken_answers_do_not_submit_again(body@, at@);
    assert forall|i: int| #![trigger out[i]] 0 <= i < out.len() implies if is_submit(lines[i], true)
        || is_submit(lines[i], false) {
        out[i] == "_Answers submitted at "@ + at@ + "_"@
    } else {
        out[i] == lines[i]
    } by {
        lemma_submit(lines[i], true);
        lemma_submit(lines[i], false);
    }
    assert(r@ == text::join(out, "\n"@));
}

/// The comment is a question of this session: one of its own posts, with a submit box.
pub open spec fn is_question(c: Comment, my_token: Seq<char>, ticked: bool) -> bool {
    render::hidden(c.body@, Some(my_token)) && submits(c.body@, ticked)
}

proof fn lemma_labels(items: Seq<(Seq<char>, bool)>, ticked: bool, label: Seq<char>)
    ensures
        threads::labels_where(items, ticked).contains(label) <==> items.contains((label, ticked)),
    decreases items.len(),
{
    if items.len() > 0 {
        let init = items.drop_last();
        lemma_labels(init, ticked, label);
        let all = threads::labels_where(items, ticked);
        let before = threads::labels_where(init, ticked);
        if items.contains((label, ticked)) {
            let k = choose|k: int| 0 <= k < items.len() && items[k] == (label, ticked);
            if k < init.len() {
                assert(init[k] == items[k]);
                let m = choose|m: int| 0 <= m < before.len() && before[m] == label;
                assert(all[m] == label);
            } else {
                assert(all[before.len() as int] == label);
            }
        }
        if all.contains(label) {
            let m = choose|m: int| 0 <= m < all.len() && all[m] == label;
            if m < before.len() {
                assert(before[m] == label);
                let k = choose|k: int| 0 <= k < init.len() && init[k] == (label, ticked);
                assert(items[k] == (label, ticked));
            } else {
                assert(items[items.len() - 1] == (label, ticked));
            }
        }
    } else {
        assert(threads::labels_where(items, ticked).len() == 0);
    }
}

proof fn lemma_offers(body: Seq<char>, label: Seq<char>, ticked: bool)
    ensures
        offers(body, label, ticked) <==> threads::labels_where(
            options::options_in(text::lines(body)),
            ticked,
        ).contains(label),
{
    let lines = text::lines(body);
    let found = options::options_in(lines);
    lemma_labels(found, ticked, label);
    lemma_places(lines);
    let places = option_places(lines);
    if offers(body, label, ticked) {
        let i = choose|i: int|
            #![trigger lines[i]]
            0 <= i < lines.len() && is_option(lines[i], label, ticked);
        lemma_option(lines[i], label, ticked);
        let k = choose|k: int| 0 <= k < places.len() && places[k] == i;
        assert(found[k] == (label, ticked));
    }
    if found.contains((label, ticked)) {
        let k = choose|k: int| 0 <= k < found.len() && found[k] == (label, ticked);
        let i = places[k];
        lemma_option(lines[i], label, ticked);
        assert(is_option(lines[i], label, ticked));
    }
}

spec fn is_taken(
    comments: Seq<Comment>,
    my_token: Seq<char>,
    noun: &'static str,
    repo: RepoRef,
    s: Submission,
) -> bool {
    exists|k: int|
        #![trigger comments[k]]
        0 <= k < comments.len() && threads::asked(comments[k], my_token) == Some(true) && s
            == threads::submission_of(comments[k], noun, repo)
}

proof fn lemma_submissions(
    comments: Seq<Comment>,
    my_token: Seq<char>,
    noun: &'static str,
    repo: RepoRef,
)
    ensures
        forall|k: int|
            #![trigger comments[k]]
            0 <= k < comments.len() && threads::asked(comments[k], my_token) == Some(true)
                ==> threads::submissions_in(comments, my_token, noun, repo).contains(
                threads::submission_of(comments[k], noun, repo),
            ),
        forall|j: int|
            #![trigger threads::submissions_in(comments, my_token, noun, repo)[j]]
            0 <= j < threads::submissions_in(comments, my_token, noun, repo).len() ==> is_taken(
                comments,
                my_token,
                noun,
                repo,
                threads::submissions_in(comments, my_token, noun, repo)[j],
            ),
    decreases comments.len(),
{
    if comments.len() > 0 {
        let init = comments.drop_last();
        lemma_submissions(init, my_token, noun, repo);
        let all = threads::submissions_in(comments, my_token, noun, repo);
        let before = threads::submissions_in(init, my_token, noun, repo);
        assert forall|k: int|
            #![trigger comments[k]]
            0 <= k < comments.len() && threads::asked(comments[k], my_token) == Some(
                true,
            ) implies all.contains(threads::submission_of(comments[k], noun, repo)) by {
            let s = threads::submission_of(comments[k], noun, repo);
            if k < init.len() {
                assert(init[k] == comments[k]);
                assert(before.contains(s));
                let j = choose|j: int| 0 <= j < before.len() && before[j] == s;
                assert(all[j] == s);
            } else {
                assert(all[before.len() as int] == s);
            }
        }
        assert forall|j: int| #![trigger all[j]] 0 <= j < all.len() implies is_taken(
            comments,
            my_token,
            noun,
            repo,
            all[j],
        ) by {
            if j < before.len() {
                assert(before[j] == all[j]);
                assert(is_taken(init, my_token, noun, repo, before[j]));
                let k = choose|k: int|
                    #![trigger init[k]]
                    0 <= k < init.len() && threads::asked(init[k], my_token) == Some(true)
                        && before[j] == threads::submission_of(init[k], noun, repo);
                assert(comments[k] == init[k]);
            } else {
                let k = comments.len() - 1;
                assert(threads::asked(comments[k], my_token) == Some(true));
            }
        }
    }
}

/// A submitted answer says where it was given, and which options were ticked.
pub open spec fn answers(s: PendingSubmission, c: Comment, noun: &'static str, repo: RepoRef) -> bool {
    &&& s.comment_id == c.id
    &&& s.repo.0@ == repo.0@
    &&& s.repo.1@ == repo.1@
    &&& s.view.thread_noun@ == noun@
    &&& s.view.url@ == c.html_url@
    &&& forall|label: Seq<char>| #[trigger]
        offers(c.body@, label, true) <==> exists|k: int|
            #![trigger s.view.selected@[k]]
            0 <= k < s.view.selected@.len() && s.view.selected@[k]@ == label
    &&& forall|label: Seq<char>| #[trigger]
        offers(c.body@, label, false) <==> exists|k: int|
            #![trigger s.view.unselected@[k]]
            0 <= k < s.view.unselected@.len() && s.view.unselected@[k]@ == label
}

proof fn lemma_listed(v: Seq<String>, label: Seq<char>)
    ensures
        text::views(v).contains(label) <==> exists|k: int|
            #![trigger v[k]]
            0 <= k < v.len() && v[k]@ == label,
{
    if text::views(v).contains(label) {
        let k = choose|k: int| 0 <= k < text::views(v).len() && text::views(v)[k] == label;
        assert(v[k]@ == label);
    }
    if exists|k: int| #![trigger v[k]] 0 <= k < v.len() && v[k]@ == label {
        let k = choose|k: int| #![trigger v[k]] 0 <= k < v.len() && v[k]@ == label;
        assert(text::views(v)[k] == label);
    }
}

proof fn lemma_answers(s: PendingSubmission, c: Comment, noun: &'static str, repo: RepoRef)
    requires
        s@ == threads::submission_of(c, noun, repo),
    ensures
        answers(s, c, noun, repo),
{
    assert forall|label: Seq<char>| #[trigger]
        offers(c.body@, label, true) <==> exists|k: int|
            #![trigger s.view.selected@[k]]
            0 <= k < s.view.selected@.len() && s.view.selected@[k]@ == label by {
        lemma_offers(c.body@, label, true);
        lemma_listed(s.view.selected@, label);
    }
    assert forall|label: Seq<char>| #[trigger]
        offers(c.body@, label, false) <==> exists|k: int|
            #![trigger s.view.unselected@[k]]
            0 <= k < s.view.unselected@.len() && s.view.unselected@[k]@ == label by {
        lemma_offers(c.body@, label, false);
        lemma_listed(s.view.unselected@, label);
    }
}

proof fn lemma_open(comments: Seq<Comment>, my_token: Seq<char>)
    ensures
        ({
            let at = threads::open_question(comments, my_token);
            &&& -1 <= at < comments.len()
            &&& at >= 0 ==> threads::asked(comments[at], my_token) == Some(false)
            &&& forall|k: int|
                #![trigger comments[k]]
                0 <= k < comments.len() && threads::asked(comments[k], my_token) == Some(false)
                    ==> at >= 0 && text::le(comments[k].created_at@, comments[at].created_at@)
        }),
    decreases comments.len(),
{
    if comments.len() > 0 {
        let init = comments.drop_last();
        lemma_open(init, my_token);
        let at = threads::open_question(comments, my_token);
        let before = threads::open_question(init, my_token);
        let c = comments.last();
        if before >= 0 {
            assert(init[before] == comments[before]);
        }
        assert forall|k: int|
            #![trigger comments[k]]
            0 <= k < comments.len() && threads::asked(comments[k], my_token) == Some(
                false,
            ) implies at >= 0 && text::le(comments[k].created_at@, comments[at].created_at@) by {
            text::lemma_le_reflexive(c.created_at@);
            if k < init.len() {
                assert(init[k] == comments[k]);
                if at == comments.len() - 1 {
                    text::lemma_le_total(c.created_at@, comments[before].created_at@);
                    text::lemma_le_transitive(
                        comments[k].created_at@,
                        comments[before].created_at@,
                        c.created_at@,
                    );
                }
            }
        }
    }
}

/// Every question of this session whose submit box is ticked is taken, with its ticked
/// and its open options; nothing else is; the latest one still open is watched.
pub proof fn submitted_answers_are_taken(
    comments: &[Comment],
    my_token: &str,
    noun: &'static str,
    repo: &RepoRef,
    r: (Vec<PendingSubmission>, Option<OptionsWatch>),
    k: int,
)
    requires
        call_ensures(threads::scan_options, (comments, my_token, noun, repo), r),
    ensures
        0 <= k < comments@.len() && is_question(comments@[k], my_token@, true) ==> exists|j: int|
            #![trigger r.0@[j]]
            0 <= j < r.0@.len() && answers(r.0@[j], comments@[k], noun, *repo),
        0 <= k < r.0@.len() ==> exists|i: int|
            #![trigger comments@[i]]
            0 <= i < comments@.len() && is_question(comments@[i], my_token@, true) && answers(
                r.0@[k],
                comments@[i],
                noun,
                *repo,
            ),
        0 <= k < comments@.len() && is_question(comments@[k], my_token@, false) ==> r.1 is Some,
        r.1 matches Some(w) ==> exists|i: int|
            #![trigger comments@[i]]
            0 <= i < comments@.len() && w.comment_id == comments@[i].id && is_question(
                comments@[i],
                my_token@,
                false,
            ) && (0 <= k < comments@.len() && is_question(comments@[k], my_token@, false)
                ==> text::le(comments@[k].created_at@, comments@[i].created_at@)),
{
    lemma_submissions(comments@, my_token@, noun, *repo);
    lemma_open(comments@, my_token@);
    let all = threads::submissions_in(comments@, my_token@, noun, *repo);
    let views = threads::submission_views(r.0@);
    assert(views.len() == r.0@.len());
    if 0 <= k < comments@.len() {
        lemma_submits_body(comments@[k].body@, true);
        lemma_submits_body(comments@[k].body@, false);
        if is_question(comments@[k], my_token@, true) {
            let s = threads::submission_of(comments@[k], noun, *repo);
            let j = choose|j: int| 0 <= j < all.len() && all[j] == s;
            assert(views[j] == s);
            lemma_answers(r.0@[j], comments@[k], noun, *repo);
        }
    }
    if 0 <= k < r.0@.len() {
        assert(views[k] == all[k]);
        assert(is_taken(comments@, my_token@, noun, *repo, all[k]));
        let i = choose|i: int|
            #![trigger comments@[i]]
            0 <= i < comments@.len() && threads::asked(comments@[i], my_token@) == Some(true)
                && all[k] == threads::submission_of(comments@[i], noun, *repo);
        lemma_submits_body(comments@[i].body@, true);
        lemma_answers(r.0@[k], comments@[i], noun, *repo);
    }
    if r.1 is Some {
        let at = threads::open_question(comments@, my_token@);
        lemma_submits_body(comments@[at].body@, false);
        assert(is_question(comments@[at], my_token@, false));
    }
}

} // verus!
