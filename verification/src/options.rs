//! Questions with options: a comment whose checkboxes the user ticks, and whose
//! last box submits the answer.

use vstd::prelude::*;

use crate::text;

verus! {

/// The box in front of an option that is not ticked.
pub const OPEN_BOX: &'static str = "- [ ] ";

/// The box in front of an option that is ticked.
pub const TICKED_BOX: &'static str = "- [x] ";

/// The same, as GitHub also accepts it.
pub const TICKED_BOX_CAPITAL: &'static str = "- [X] ";

/// Opening of the hidden id behind an option.
pub const OPTION_MARKER: &'static str = "<!-- ghwf-option:";

/// What follows the box that submits.
pub const SUBMIT: &'static str = "**Submit my answers** <!-- ghwf-submit -->";

/// An option of a question, and whether it is ticked.
pub struct ParsedOption {
    pub label: String,
    pub checked: bool,
}

/// What a comment's checkboxes say. `submit` is absent where the comment holds
/// no box that submits: it is no question, or its answer has been taken.
pub struct ParsedOptions {
    pub options: Vec<ParsedOption>,
    pub submit: Option<bool>,
}

/// The labels of options, and which are ticked.
pub open spec fn option_views(v: Seq<ParsedOption>) -> Seq<(Seq<char>, bool)> {
    Seq::new(v.len(), |i: int| (v[i].label@, v[i].checked))
}

/// Whether a line's box is ticked; nothing where it has none.
pub open spec fn checkbox(line: Seq<char>) -> Option<bool> {
    if text::starts_with(line, OPEN_BOX@) {
        Some(false)
    } else if text::starts_with(line, TICKED_BOX@) || text::starts_with(line, TICKED_BOX_CAPITAL@) {
        Some(true)
    } else {
        None
    }
}

/// What a line holds behind its box.
pub open spec fn behind_box(line: Seq<char>) -> Seq<char> {
    line.skip(6)
}

/// Whether the box of a submit line is ticked; nothing on any other line.
pub open spec fn submit_of(line: Seq<char>) -> Option<bool> {
    if checkbox(line) is Some && text::starts_with(behind_box(line), SUBMIT@) {
        checkbox(line)
    } else {
        None
    }
}

/// The label and the box of an option's line; nothing on any other line.
pub open spec fn option_of(line: Seq<char>) -> Option<(Seq<char>, bool)> {
    match (checkbox(line), text::find(behind_box(line), OPTION_MARKER@)) {
        (Some(checked), Some(at)) => Some((text::trim(behind_box(line).take(at)), checked)),
        _ => None,
    }
}

/// The options of a comment's lines, in order.
pub open spec fn options_in(lines: Seq<Seq<char>>) -> Seq<(Seq<char>, bool)>
    decreases lines.len(),
{
    if lines.len() == 0 {
        seq![]
    } else {
        let before = options_in(lines.drop_last());
        match option_of(lines.last()) {
            Some(option) => before.push(option),
            None => before,
        }
    }
}

/// The submit box of a comment's lines: the first one counts.
pub open spec fn submit_in(lines: Seq<Seq<char>>) -> Option<bool>
    decreases lines.len(),
{
    if lines.len() == 0 {
        None
    } else {
        match submit_in(lines.drop_last()) {
            Some(b) => Some(b),
            None => submit_of(lines.last()),
        }
    }
}

proof fn lemma_box_length(line: Seq<char>)
    ensures
        checkbox(line) is Some ==> line.len() >= 6,
        OPEN_BOX@.len() == 6,
        TICKED_BOX@.len() == 6,
{
    reveal_strlit("- [ ] ");
    reveal_strlit("- [x] ");
    reveal_strlit("- [X] ");
}

/// Whether the line's box is ticked.
fn box_of(line: &str) -> (r: Option<bool>)
    ensures
        r == checkbox(line@),
{
    if text::has_prefix(line, OPEN_BOX) {
        Some(false)
    } else if text::has_prefix(line, TICKED_BOX) || text::has_prefix(line, TICKED_BOX_CAPITAL) {
        Some(true)
    } else {
        None
    }
}

/// What the line holds behind its box.
fn rest_of(line: &str) -> (r: String)
    requires
        checkbox(line@) is Some,
    ensures
        r@ == behind_box(line@),
{
    proof {
        lemma_box_length(line@);
    }
    let v = text::chars(line);
    let r = text::slice(&v, 6, v.len());
    assert(r@ =~= line@.skip(6));
    r
}

/// The label and the box of an option's line.
fn option_on(line: &str) -> (r: Option<ParsedOption>)
    ensures
        match r {
            Some(o) => option_of(line@) == Some((o.label@, o.checked)),
            None => option_of(line@) is None,
        },
{
    match box_of(line) {
        None => None,
        Some(checked) => {
            let rest = text::chars(rest_of(line).as_str());
            let marker = text::chars(OPTION_MARKER);
            match text::find_chars(&rest, &marker) {
                None => None,
                Some(at) => {
                    let raw = text::slice(&rest, 0, at);
                    assert(raw@ =~= rest@.take(at as int));
                    Some(ParsedOption { label: text::trimmed(raw.as_str()), checked })
                },
            }
        },
    }
}

/// The box of a submit line.
fn submit_on(line: &str) -> (r: Option<bool>)
    ensures
        r == submit_of(line@),
{
    match box_of(line) {
        None => None,
        Some(checked) => {
            if text::has_prefix(rest_of(line).as_str(), SUBMIT) {
                Some(checked)
            } else {
                None
            }
        },
    }
}

/// Read the checkboxes of a comment.
pub fn parse_options_comment(body: &str) -> (r: ParsedOptions)
    ensures
        option_views(r.options@) == options_in(text::lines(body@)),
        r.submit == submit_in(text::lines(body@)),
{
    let lines = text::lines_of(body);
    let ghost all = text::views(lines@);
    let mut options: Vec<ParsedOption> = Vec::new();
    let mut submit: Option<bool> = None;
    let mut i: usize = 0;
    assert(all.take(0) =~= seq![]);
    assert(option_views(options@) =~= seq![]);
    while i < lines.len()
        invariant
            i <= lines.len(),
            all == text::views(lines@),
            option_views(options@) == options_in(all.take(i as int)),
            submit == submit_in(all.take(i as int)),
        decreases lines.len() - i,
    {
        let line = lines[i].as_str();
        let ghost before = options@;
        assert(all.take(i + 1).drop_last() =~= all.take(i as int));
        assert(all.take(i + 1).last() == line@);
        if let Some(option) = option_on(line) {
            options.push(option);
            assert(option_views(options@) =~= option_views(before).push(
                (option.label@, option.checked),
            ));
        }
        if submit.is_none() {
            submit = submit_on(line);
        }
        i = i + 1;
    }
    assert(all.take(all.len() as int) =~= all);
    ParsedOptions { options, submit }
}

/// The line of an option.
pub open spec fn option_line(label: Seq<char>, checked: bool, id: nat) -> Seq<char> {
    (if checked {
        TICKED_BOX@
    } else {
        OPEN_BOX@
    }) + label + " "@ + OPTION_MARKER@ + text::decimal(id) + " -->"@
}

/// The options' lines, each ended. Ids count from one.
pub open spec fn option_lines(options: Seq<(Seq<char>, bool)>) -> Seq<char>
    decreases options.len(),
{
    if options.len() == 0 {
        seq![]
    } else {
        option_lines(options.drop_last()) + option_line(
            options.last().0,
            options.last().1,
            options.len(),
        ).push('\n')
    }
}

/// The line that submits.
pub open spec fn submit_line(submitted: bool) -> Seq<char> {
    (if submitted {
        TICKED_BOX@
    } else {
        OPEN_BOX@
    }) + SUBMIT@
}

/// A question with its options, ticked as `options` says.
pub open spec fn options_text(
    question: Seq<char>,
    options: Seq<(Seq<char>, bool)>,
    submitted: bool,
) -> Seq<char> {
    text::trim(question) + "\n\n"@ + option_lines(options) + "\n"@ + submit_line(submitted)
}

/// The options of a new question: none is ticked.
pub open spec fn unticked(labels: Seq<String>) -> Seq<(Seq<char>, bool)> {
    Seq::new(labels.len(), |i: int| (labels[i]@, false))
}

/// Render a question with one checkbox for each option, each with a hidden id,
/// and a last box that submits.
pub fn build_options_body(question: &str, options: &[String]) -> (r: String)
    ensures
        r@ == options_text(question@, unticked(options@), false),
{
    let mut lines = String::new();
    let mut i: usize = 0;
    let ghost all = unticked(options@);
    assert(all.take(0) =~= seq![]);
    while i < options.len()
        invariant
            i <= options.len(),
            all == unticked(options@),
            lines@ == option_lines(all.take(i as int)),
        decreases options.len() - i,
    {
        let mut line = text::copy(OPEN_BOX);
        line.append(options[i].as_str());
        line.append(" ");
        line.append(OPTION_MARKER);
        line.append(text::number(i as u64 + 1).as_str());
        line.append(" -->");
        line.push('\n');
        lines.append(line.as_str());
        assert(all.take(i + 1).drop_last() =~= all.take(i as int));
        i = i + 1;
    }
    assert(all.take(all.len() as int) =~= all);
    let mut out = text::trimmed(question);
    out.append("\n\n");
    out.append(lines.as_str());
    out.append("\n");
    let mut submit = text::copy(OPEN_BOX);
    submit.append(SUBMIT);
    out.append(submit.as_str());
    out
}

/// What replaces the line that submits, once the answer is taken.
pub open spec fn taken_line(at: Seq<char>) -> Seq<char> {
    "_Answers submitted at "@ + at + "_"@
}

/// The lines of a comment whose answer has been taken.
pub open spec fn taken_lines(lines: Seq<Seq<char>>, at: Seq<char>) -> Seq<Seq<char>> {
    Seq::new(
        lines.len(),
        |i: int|
            if submit_of(lines[i]) is Some {
                taken_line(at)
            } else {
                lines[i]
            },
    )
}

/// Mark a question as answered: the line that submits gives way to a note of
/// when it did, so the answer is not taken twice.
pub fn rewrite_submitted_body(body: &str, at: &str) -> (r: String)
    ensures
        r@ == text::join(taken_lines(text::lines(body@), at@), "\n"@),
{
    let lines = text::lines_of(body);
    let ghost all = text::views(lines@);
    let mut out: Vec<String> = Vec::new();
    let mut i: usize = 0;
    while i < lines.len()
        invariant
            i <= lines.len(),
            all == text::views(lines@),
            out.len() == i,
            forall|j: int| 0 <= j < i ==> #[trigger] out@[j]@ == taken_lines(all, at@)[j],
        decreases lines.len() - i,
    {
        assert(all[i as int] == lines@[i as int]@);
        let line = if submit_on(lines[i].as_str()).is_some() {
            let mut s = text::copy("_Answers submitted at ");
            s.append(at);
            s.append("_");
            s
        } else {
            text::copy(lines[i].as_str())
        };
        out.push(line);
        i = i + 1;
    }
    assert(text::views(out@) =~= taken_lines(all, at@));
    text::joined(&out, "\n")
}

/// A label that can stand in an option's line: one line, with no white space at
/// its ends, that holds no option's id and does not look like the submit line.
pub open spec fn plain_label(label: Seq<char>) -> bool {
    &&& text::one_line(label)
    &&& text::trim(label) == label
    &&& !text::contains(label, OPTION_MARKER@)
    &&& !text::starts_with(label, "**Submit my answers**"@)
}

/// A question whose own lines are no options and do not submit.
pub open spec fn plain_question(question: Seq<char>) -> bool {
    let own = text::lines(text::trim(question) + "\n\n"@);
    options_in(own) == Seq::<(Seq<char>, bool)>::empty() && submit_in(own) is None
}

proof fn lemma_box(checked: bool, rest: Seq<char>)
    ensures
        checkbox((if checked {
            TICKED_BOX@
        } else {
            OPEN_BOX@
        }) + rest) == Some(checked),
        behind_box((if checked {
            TICKED_BOX@
        } else {
            OPEN_BOX@
        }) + rest) == rest,
{
    reveal_strlit("- [ ] ");
    reveal_strlit("- [x] ");
    reveal_strlit("- [X] ");
    let b = if checked {
        TICKED_BOX@
    } else {
        OPEN_BOX@
    };
    let line = b + rest;
    assert(line.subrange(0, 6) =~= b);
    if checked {
        assert(line.subrange(0, 6)[3] == 'x');
        assert(OPEN_BOX@[3] == ' ');
    }
    assert(line.skip(6) =~= rest);
}

proof fn lemma_option_found(label: Seq<char>, tail: Seq<char>)
    requires
        plain_label(label),
    ensures
        text::find(label + " "@ + OPTION_MARKER@ + tail, OPTION_MARKER@) == Some(
            label.len() as int + 1,
        ),
        (label + " "@ + OPTION_MARKER@ + tail).take(label.len() as int + 1) == label.push(' '),
{
    let rest = label + " "@ + OPTION_MARKER@ + tail;
    reveal_strlit("<!-- ghwf-option:");
    reveal_strlit(" ");
    let m = OPTION_MARKER@;
    let n = label.len() as int;
    assert(m.len() == 17);
    assert(rest[n] == ' ');
    assert(rest[n + 1] == '<');
    assert(text::at(rest, m, n + 1)) by {
        assert(rest.subrange(n + 1, n + 1 + 17) =~= m);
    }
    assert forall|j: int| 0 <= j < n + 1 implies !text::at(rest, m, j) by {
        if text::at(rest, m, j) {
            let w = rest.subrange(j, j + 17);
            assert(w == m);
            if j + 17 <= n {
                assert(label.subrange(j, j + 17) =~= w);
                assert(text::at(label, m, j));
            } else {
                assert(w[n - j] == rest[n]);
                assert(m[n - j] == ' ');
                assert(n - j == 4);
                assert(w[5] == rest[n + 1]);
                assert(m[5] == 'g');
            }
        }
    }
    text::lemma_find(rest, m, n + 1);
    assert(rest.take(n + 1) =~= label.push(' '));
}

proof fn lemma_label_trims(label: Seq<char>)
    requires
        text::trim(label) == label,
    ensures
        text::trim(label.push(' ')) == label,
{
    text::lemma_trim_is_solid(label);
    if label.len() == 0 {
        let none = Seq::<char>::empty();
        assert(label =~= none);
        assert(text::is_space(' '));
        assert(label.push(' ').skip(1) =~= none);
        assert(text::trim_start(none) == none);
        assert(text::trim_start(label.push(' ')) == none);
        assert(text::trim_end(none) == none);
    } else {
        assert(!text::is_space(label[0]));
        assert(label.push(' ')[0] == label[0]);
        text::lemma_trim_end_push(label, ' ');
        text::lemma_trim_end_solid(label);
    }
}

proof fn lemma_label_does_not_submit(label: Seq<char>, tail: Seq<char>)
    requires
        plain_label(label),
    ensures
        !text::starts_with(label + " "@ + OPTION_MARKER@ + tail, SUBMIT@),
{
    let rest = label + " "@ + OPTION_MARKER@ + tail;
    reveal_strlit("<!-- ghwf-option:");
    reveal_strlit(" ");
    let n = label.len() as int;
    assert(rest[n] == ' ');
    assert(rest[n + 1] == '<');
    reveal_strlit("**Submit my answers** <!-- ghwf-submit -->");
    reveal_strlit("**Submit my answers**");
    let p = "**Submit my answers**"@;
    if text::starts_with(rest, SUBMIT@) {
        let w = rest.subrange(0, SUBMIT@.len() as int);
        assert(w == SUBMIT@);
        if n >= 21 {
            assert forall|k: int| 0 <= k < 21 implies label[k] == p[k] by {
                assert(w[k] == rest[k]);
            }
            assert(label.subrange(0, 21) =~= p);
            assert(false);
        } else {
            assert(w[n] == rest[n]);
            assert(w[n + 1] == rest[n + 1]);
            assert(false);
        }
    }
}

proof fn lemma_option_line(label: Seq<char>, checked: bool, id: nat)
    requires
        plain_label(label),
    ensures
        option_of(option_line(label, checked, id)) == Some((label, checked)),
        submit_of(option_line(label, checked, id)) is None,
{
    let b = if checked {
        TICKED_BOX@
    } else {
        OPEN_BOX@
    };
    let tail = text::decimal(id) + " -->"@;
    let rest = label + " "@ + OPTION_MARKER@ + tail;
    let line = option_line(label, checked, id);
    assert(line =~= b + rest);
    lemma_box(checked, rest);
    lemma_option_found(label, tail);
    lemma_label_trims(label);
    lemma_label_does_not_submit(label, tail);
}

proof fn lemma_submit_line(submitted: bool)
    ensures
        submit_of(submit_line(submitted)) == Some(submitted),
        option_of(submit_line(submitted)) is None,
        text::one_line(submit_line(submitted)),
        submit_line(submitted).len() > 0,
{
    lemma_box(submitted, SUBMIT@);
    reveal_strlit("- [ ] ");
    reveal_strlit("- [x] ");
    reveal_strlit("**Submit my answers** <!-- ghwf-submit -->");
    reveal_strlit("<!-- ghwf-option:");
    let t = SUBMIT@;
    assert(t.subrange(0, t.len() as int) =~= t);
    assert forall|j: int| !text::at(t, OPTION_MARKER@, j) by {
        if text::at(t, OPTION_MARKER@, j) {
            let w = t.subrange(j, j + 17);
            assert(w == OPTION_MARKER@);
            assert(w[0] == t[j]);
            assert(w[10] == t[j + 10]);
        }
    }
    assert(!text::contains(t, OPTION_MARKER@));
}

/// The boxes of a single line.
proof fn lemma_boxes_one(line: Seq<char>)
    ensures
        options_in(seq![line]) == (match option_of(line) {
            Some(option) => seq![option],
            None => seq![],
        }),
        submit_in(seq![line]) == submit_of(line),
{
    let one = seq![line];
    let none = Seq::<Seq<char>>::empty();
    assert(one.drop_last() =~= none);
    assert(one.last() == line);
    assert(options_in(none) == Seq::<(Seq<char>, bool)>::empty());
    assert(submit_in(none) is None);
    match option_of(line) {
        Some(option) => {
            assert(options_in(one) =~= seq![option]);
        },
        None => {},
    }
}

/// The boxes of lines put together.
proof fn lemma_boxes_append(a: Seq<Seq<char>>, b: Seq<Seq<char>>)
    ensures
        options_in(a + b) == options_in(a) + options_in(b),
        submit_in(a + b) == (if submit_in(a) is Some {
            submit_in(a)
        } else {
            submit_in(b)
        }),
    decreases b.len(),
{
    if b.len() == 0 {
        assert(a + b =~= a);
        assert(options_in(a) + options_in(b) =~= options_in(a));
    } else {
        lemma_boxes_append(a, b.drop_last());
        assert((a + b).drop_last() =~= a + b.drop_last());
        assert((a + b).last() == b.last());
        match option_of(b.last()) {
            Some(o) => {
                assert(options_in(a) + options_in(b.drop_last()).push(o) =~= (options_in(a)
                    + options_in(b.drop_last())).push(o));
            },
            None => {},
        }
    }
}

proof fn lemma_decimal_one_line(n: nat)
    ensures
        text::one_line(text::decimal(n)),
    decreases n,
{
    if n >= 10 {
        lemma_decimal_one_line(n / 10);
    }
}

proof fn lemma_option_line_is_line(label: Seq<char>, checked: bool, id: nat)
    requires
        text::one_line(label),
    ensures
        text::one_line(option_line(label, checked, id)),
        option_line(label, checked, id).last() == '>',
        option_line(label, checked, id).len() > 0,
{
    lemma_decimal_one_line(id);
    reveal_strlit("- [ ] ");
    reveal_strlit("- [x] ");
    reveal_strlit("<!-- ghwf-option:");
    reveal_strlit(" ");
    reveal_strlit(" -->");
    let b = if checked {
        TICKED_BOX@
    } else {
        OPEN_BOX@
    };
    assert(text::one_line(b));
    assert(text::one_line(b + label));
    assert(text::one_line(b + label + " "@));
    assert(text::one_line(b + label + " "@ + OPTION_MARKER@));
    assert(text::one_line(b + label + " "@ + OPTION_MARKER@ + text::decimal(id)));
}

/// The lines of the options, and what they say.
proof fn lemma_option_lines(options: Seq<(Seq<char>, bool)>)
    requires
        forall|i: int| 0 <= i < options.len() ==> plain_label(#[trigger] options[i].0),
    ensures
        options_in(text::lines(option_lines(options))) == options,
        submit_in(text::lines(option_lines(options))) is None,
        options.len() > 0 ==> option_lines(options).len() > 0 && option_lines(options).last()
            == '\n',
    decreases options.len(),
{
    if options.len() == 0 {
        assert(text::lines(option_lines(options)) =~= seq![]);
        assert(options =~= seq![]);
    } else {
        let before = options.drop_last();
        assert forall|i: int| 0 <= i < before.len() implies plain_label(
            #[trigger] before[i].0,
        ) by {
            assert(plain_label(options[i].0));
        }
        lemma_option_lines(before);
        let last = options.last();
        assert(plain_label(options[options.len() - 1].0));
        let line = option_line(last.0, last.1, options.len());
        lemma_option_line(last.0, last.1, options.len());
        lemma_option_line_is_line(last.0, last.1, options.len());
        text::lemma_one_line(line);
        let a = text::lines(option_lines(before));
        let b = seq![line];
        assert(text::lines(line.push('\n')) =~= b);
        if before.len() > 0 {
            text::lemma_lines_append(option_lines(before), line.push('\n'));
        } else {
            assert(option_lines(before) + line.push('\n') =~= line.push('\n'));
            assert(a =~= seq![]);
            assert(a + b =~= b);
        }
        lemma_boxes_append(a, b);
        lemma_boxes_one(line);
        assert(before + seq![last] =~= options);
    }
}

/// Reading a question gives back its options, which of them are ticked, and
/// whether the answer was submitted.
pub proof fn reading_gives_back_the_ticks(
    question: Seq<char>,
    options: Seq<(Seq<char>, bool)>,
    submitted: bool,
)
    requires
        plain_question(question),
        forall|i: int| 0 <= i < options.len() ==> plain_label(#[trigger] options[i].0),
    ensures
        options_in(text::lines(options_text(question, options, submitted))) == options,
        submit_in(text::lines(options_text(question, options, submitted))) == Some(submitted),
{
    reveal_strlit("\n\n");
    reveal_strlit("\n");
    let head = text::trim(question) + "\n\n"@;
    let body = option_lines(options);
    let end = submit_line(submitted);
    let tail = "\n"@ + end;
    lemma_option_lines(options);
    lemma_submit_line(submitted);
    text::lemma_one_line(end);
    text::lemma_lines_append("\n"@, end);
    let blank = text::lines("\n"@);
    assert(blank == seq![Seq::<char>::empty()]) by {
        text::lemma_one_line(Seq::<char>::empty());
        assert(Seq::<char>::empty().push('\n') =~= "\n"@);
    }
    assert(text::lines(tail) == blank + seq![end]);
    assert(options_text(question, options, submitted) =~= head + (body + tail));
    text::lemma_lines_append(head, body + tail);
    if options.len() > 0 {
        text::lemma_lines_append(body, tail);
    } else {
        assert(body + tail =~= tail);
        assert(text::lines(body) =~= seq![]);
        assert(text::lines(body) + text::lines(tail) =~= text::lines(tail));
    }
    let a = text::lines(head);
    let b = text::lines(body);
    let c = text::lines(tail);
    lemma_boxes_append(blank, seq![end]);
    lemma_boxes_append(b, c);
    lemma_boxes_append(a, b + c);
    lemma_boxes_one(end);
    lemma_boxes_one(Seq::<char>::empty());
    lemma_box_length(Seq::<char>::empty());
    assert(text::lines(options_text(question, options, submitted)) == a + (b + c));
    assert(options_in(c) =~= seq![]);
    assert(options_in(a + (b + c)) =~= options);
}

proof fn lemma_starts_grows(s: Seq<char>, p: Seq<char>, c: char)
    requires
        text::starts_with(s, p),
    ensures
        text::starts_with(s.push(c), p),
{
    assert(s.push(c).subrange(0, p.len() as int) =~= s.subrange(0, p.len() as int));
}

/// A line that does not submit does not do so without its carriage return.
proof fn lemma_submit_cr(line: Seq<char>)
    requires
        submit_of(line) is None,
    ensures
        submit_of(text::strip_cr(line)) is None,
{
    let s = text::strip_cr(line);
    if s != line && submit_of(s) is Some {
        assert(line =~= s.push('\r'));
        lemma_box_length(s);
        if text::starts_with(s, OPEN_BOX@) {
            lemma_starts_grows(s, OPEN_BOX@, '\r');
        }
        if text::starts_with(s, TICKED_BOX@) {
            lemma_starts_grows(s, TICKED_BOX@, '\r');
        }
        if text::starts_with(s, TICKED_BOX_CAPITAL@) {
            lemma_starts_grows(s, TICKED_BOX_CAPITAL@, '\r');
        }
        assert(line.skip(6) =~= s.skip(6).push('\r'));
        lemma_starts_grows(s.skip(6), SUBMIT@, '\r');
    }
}

proof fn lemma_no_submit(lines: Seq<Seq<char>>)
    requires
        forall|i: int| 0 <= i < lines.len() ==> submit_of(#[trigger] lines[i]) is None,
    ensures
        submit_in(lines) is None,
    decreases lines.len(),
{
    if lines.len() > 0 {
        assert(submit_of(lines[lines.len() - 1]) is None);
        lemma_no_submit(lines.drop_last());
    }
}

/// The lines of lines put together again, but for carriage returns.
proof fn lemma_joined_lines(parts: Seq<Seq<char>>)
    requires
        forall|i: int| 0 <= i < parts.len() ==> text::one_line(#[trigger] parts[i]) && submit_of(
            parts[i],
        ) is None,
    ensures
        forall|k: int|
            0 <= k < text::lines(text::join(parts, "\n"@)).len() ==> submit_of(
                #[trigger] text::lines(text::join(parts, "\n"@))[k],
            ) is None,
        parts.len() > 0 ==> forall|k: int|
            0 <= k < text::lines(text::join(parts, "\n"@) + "\n"@).len() ==> submit_of(
                #[trigger] text::lines(text::join(parts, "\n"@) + "\n"@)[k],
            ) is None,
    decreases parts.len(),
{
    reveal_strlit("\n");
    let whole = text::join(parts, "\n"@);
    if parts.len() == 0 {
        assert(text::lines(whole) =~= seq![]);
    } else {
        let last = parts.last();
        assert(text::one_line(parts[parts.len() - 1]));
        text::lemma_one_line(last);
        lemma_submit_cr(last);
        assert(last + "\n"@ =~= last.push('\n'));
        if last.len() == 0 {
            assert(text::lines(last) =~= seq![]);
        }
        if parts.len() == 1 {
        } else {
            let before = parts.drop_last();
            assert forall|i: int| 0 <= i < before.len() implies text::one_line(
                #[trigger] before[i],
            ) && submit_of(before[i]) is None by {
                assert(text::one_line(parts[i]));
            }
            lemma_joined_lines(before);
            let head = text::join(before, "\n"@) + "\n"@;
            assert(whole =~= head + last);
            assert(whole + "\n"@ =~= head + last.push('\n'));
            text::lemma_lines_append(head, last);
            text::lemma_lines_append(head, last.push('\n'));
        }
    }
}

proof fn lemma_taken_line_is_no_box(at: Seq<char>)
    ensures
        submit_of(taken_line(at)) is None,
{
    reveal_strlit("_Answers submitted at ");
    reveal_strlit("- [ ] ");
    reveal_strlit("- [x] ");
    reveal_strlit("- [X] ");
    let line = taken_line(at);
    assert(line[0] == '_');
    assert forall|p: Seq<char>| p.len() > 0 && p[0] == '-' implies !text::starts_with(line, p) by {
        if text::starts_with(line, p) {
            assert(line.subrange(0, p.len() as int)[0] == '_');
        }
    }
}

/// Once an answer is marked as taken, its comment submits no more.
pub proof fn taken_answers_do_not_submit_again(body: Seq<char>, at: Seq<char>)
    requires
        text::one_line(at),
    ensures
        submit_in(text::lines(text::join(taken_lines(text::lines(body), at), "\n"@))) is None,
{
    let parts = taken_lines(text::lines(body), at);
    text::lemma_lines_are_lines(body);
    lemma_taken_line_is_no_box(at);
    reveal_strlit("_Answers submitted at ");
    reveal_strlit("_");
    assert(text::one_line(taken_line(at)));
    assert forall|i: int| 0 <= i < parts.len() implies text::one_line(#[trigger] parts[i])
        && submit_of(parts[i]) is None by {
        assert(text::one_line(text::lines(body)[i]));
    }
    lemma_joined_lines(parts);
    lemma_no_submit(text::lines(text::join(parts, "\n"@)));
}

} // verus!
