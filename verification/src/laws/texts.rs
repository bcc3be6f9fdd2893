//! What the text functions do, character by character.

use vstd::prelude::*;

use crate::laws::commands::{blank, is_trimmed, lemma_trim, lemma_trim_end};
use crate::text;

verus! {

proof fn lemma_digits(n: nat)
    ensures
        text::decimal(n).len() > 0,
        text::all_digits(text::decimal(n)),
        text::value_of(text::decimal(n)) == n,
        n > 0 ==> text::decimal(n)[0] != '0',
    decreases n,
{
    if n < 10 {
        let d = text::decimal(n);
        assert(d =~= seq![text::digit(n)]);
        assert(d.drop_last() =~= seq![]);
        assert(text::value_of(seq![]) == 0);
    } else {
        lemma_digits(n / 10);
        let d = text::decimal(n);
        let init = text::decimal(n / 10);
        assert(d.drop_last() =~= init);
        assert(d.last() == text::digit(n % 10));
        assert forall|i: int| 0 <= i < d.len() implies text::is_digit(#[trigger] d[i]) by {
            if i < init.len() {
                assert(d[i] == init[i]);
            }
        }
        assert(d[0] == init[0]);
    }
}

/// A text without white space is trimmed already.
pub proof fn lemma_solid(d: Seq<char>)
    requires
        forall|i: int| 0 <= i < d.len() ==> !text::is_space(#[trigger] d[i]),
    ensures
        text::trim(d) == d,
{
    lemma_trim(d);
    let (a, b) = choose|a: int, b: int|
        0 <= a <= b <= d.len() && text::trim(d) == #[trigger] d.subrange(a, b) && blank(d.take(a))
            && blank(d.skip(b));
    if a > 0 {
        assert(text::is_space(d.take(a)[0]));
        assert(!text::is_space(d[0]));
    }
    if b < d.len() {
        assert(text::is_space(d.skip(b)[0]));
        assert(!text::is_space(d[b]));
    }
    assert(d.subrange(0, d.len() as int) =~= d);
}

/// A number's digits have no white space around them.
pub proof fn lemma_decimal_solid(n: nat)
    ensures
        text::trim(text::decimal(n)) == text::decimal(n),
{
    lemma_digits(n);
    let d = text::decimal(n);
    assert forall|i: int| 0 <= i < d.len() implies !text::is_space(#[trigger] d[i]) by {
        assert(text::is_digit(d[i]));
    }
    lemma_solid(d);
}

/// A number is read back from its digits.
pub proof fn lemma_parse_decimal(n: u64)
    ensures
        text::parse(text::decimal(n as nat)) == Some(n),
{
    lemma_digits(n as nat);
    let d = text::decimal(n as nat);
    assert(text::is_digit(d[0]));
    assert(text::digits_of(d) == d);
}

/// A number is written in decimal digits, without leading zeros, and read back.
pub proof fn numbers_are_read_back(n: u64, written: String, s: &str, r: Option<u64>)
    requires
        call_ensures(text::number, (n,), written),
        s@ == written@,
        call_ensures(text::parse_number, (s,), r),
    ensures
        r == Some(n),
        written@.len() > 0,
        forall|i: int| 0 <= i < written@.len() ==> '0' <= (#[trigger] written@[i]) <= '9',
        n > 0 ==> written@[0] != '0',
{
    lemma_digits(n as nat);
    lemma_parse_decimal(n);
    assert forall|i: int| 0 <= i < written@.len() implies '0' <= (#[trigger] written@[i]) <= '9' by {
        assert(text::is_digit(written@[i]));
    }
}

/// Lower case changes the ASCII capital letters, and nothing else.
pub proof fn lower_case_changes_capitals_only(s: &str, r: String, i: int)
    requires
        call_ensures(text::lowered, (s,), r),
        0 <= i < s@.len(),
    ensures
        r@.len() == s@.len(),
        'A' <= s@[i] <= 'Z' ==> 'a' <= r@[i] <= 'z' && r@[i] as u32 == s@[i] as u32 + 32,
        !('A' <= s@[i] <= 'Z') ==> r@[i] == s@[i],
{
}

/// What is trimmed is the white space at the two ends, and nothing else.
pub proof fn trimming_takes_the_ends_off(s: &str, r: String, blank_r: bool)
    requires
        call_ensures(text::trimmed, (s,), r),
        call_ensures(text::is_blank, (s,), blank_r),
    ensures
        is_trimmed(s@, r@),
        blank_r <==> blank(s@),
{
    lemma_trim(s@);
}

/// Two texts are the same where their characters are.
pub proof fn texts_are_compared_by_character(a: &str, b: &str, r: bool, nocase: bool)
    requires
        call_ensures(text::same, (a, b), r),
        call_ensures(text::same_ignoring_case, (a, b), nocase),
    ensures
        r <==> a@ =~= b@,
        r ==> nocase,
        nocase ==> a@.len() == b@.len(),
{
    if nocase {
        assert(text::lower(a@).len() == text::lower(b@).len());
    }
}

/// A text has another where that stands somewhere in it, begins with it where it stands
/// at the start, and ends with it where it stands at the end.
pub proof fn parts_are_found(
    s: &str,
    p: &str,
    inside: bool,
    first: bool,
    last: bool,
    rest: Option<String>,
    head: Option<String>,
)
    requires
        call_ensures(text::has, (s, p), inside),
        call_ensures(text::has_prefix, (s, p), first),
        call_ensures(text::has_suffix, (s, p), last),
        call_ensures(text::strip_prefix, (s, p), rest),
        call_ensures(text::strip_suffix, (s, p), head),
    ensures
        inside <==> exists|a: int|
            0 <= a && a + p@.len() <= s@.len() && #[trigger] s@.subrange(a, a + p@.len()) == p@,
        first <==> rest is Some,
        last <==> head is Some,
        rest is Some ==> p@ + rest->0@ == s@,
        head is Some ==> head->0@ + p@ == s@,
        first || last ==> inside,
{
    if inside {
        let a = choose|a: int| text::at(s@, p@, a);
        assert(s@.subrange(a, a + p@.len()) == p@);
    }
    if exists|a: int|
        0 <= a && a + p@.len() <= s@.len() && #[trigger] s@.subrange(a, a + p@.len()) == p@ {
        let a = choose|a: int|
            0 <= a && a + p@.len() <= s@.len() && #[trigger] s@.subrange(a, a + p@.len()) == p@;
        assert(text::at(s@, p@, a));
    }
    if first {
        assert(text::at(s@, p@, 0));
        assert(s@.subrange(0, p@.len() as int) + s@.skip(p@.len() as int) =~= s@);
    }
    if last {
        let a = s@.len() - p@.len();
        assert(text::at(s@, p@, a));
        assert(s@.take(a) + s@.subrange(a, a + p@.len()) =~= s@);
    }
}

/// Parts joined by a character that none of them holds are split into these parts.
pub proof fn texts_are_split_and_joined(s: &str, c: char, parts: Vec<String>, again: String, sep: &str)
    requires
        call_ensures(text::split_on, (s, c), parts),
        sep@ == seq![c],
        call_ensures(text::joined, (&parts, sep), again),
    ensures
        again@ == s@,
        parts@.len() > 0,
        forall|i: int, j: int|
            #![trigger parts@[i]@[j]]
            0 <= i < parts@.len() && 0 <= j < parts@[i]@.len() ==> parts@[i]@[j] != c,
{
    lemma_split(s@, c);
    assert(text::views(parts@).len() == parts@.len());
    assert forall|i: int, j: int|
        #![trigger parts@[i]@[j]]
        0 <= i < parts@.len() && 0 <= j < parts@[i]@.len() implies parts@[i]@[j] != c by {
        assert(text::views(parts@)[i] == parts@[i]@);
        assert(text::split(s@, c)[i][j] != c);
    }
}

proof fn lemma_split(s: Seq<char>, c: char)
    ensures
        text::split(s, c).len() > 0,
        text::join(text::split(s, c), seq![c]) == s,
        forall|i: int, j: int|
            #![trigger text::split(s, c)[i][j]]
            0 <= i < text::split(s, c).len() && 0 <= j < text::split(s, c)[i].len()
                ==> text::split(s, c)[i][j] != c,
    decreases s.len(),
{
    text::lemma_index_of_bounds(s, c);
    let i = text::index_of(s, c);
    if i >= s.len() {
        assert(text::split(s, c) =~= seq![s]);
    } else {
        let rest = text::split(s.skip(i + 1), c);
        lemma_split(s.skip(i + 1), c);
        let head = s.take(i);
        let all = text::split(s, c);
        assert(all =~= seq![head] + rest);
        lemma_join_front(head, rest, seq![c]);
        assert(s =~= head + seq![c] + s.skip(i + 1));
        assert forall|k: int, j: int|
            #![trigger all[k][j]]
            0 <= k < all.len() && 0 <= j < all[k].len() implies all[k][j] != c by {
            if k > 0 {
                assert(all[k] == rest[k - 1]);
                assert(rest[k - 1][j] != c);
            }
        }
    }
}

proof fn lemma_join_front(head: Seq<char>, rest: Seq<Seq<char>>, sep: Seq<char>)
    requires
        rest.len() > 0,
    ensures
        text::join(seq![head] + rest, sep) == head + sep + text::join(rest, sep),
    decreases rest.len(),
{
    let all = seq![head] + rest;
    if rest.len() == 1 {
        assert(all.drop_last() =~= seq![head]);
        assert(all.last() == rest[0]);
        assert(text::join(seq![head], sep) == head);
    } else {
        lemma_join_front(head, rest.drop_last(), sep);
        assert(all.drop_last() =~= seq![head] + rest.drop_last());
        assert(all.last() == rest.last());
        assert(text::join(all, sep) =~= head + sep + text::join(rest, sep));
    }
}

/// What a template holds apart from its gaps stays.
pub proof fn lemma_fill_keeps(template: Seq<char>, value: Seq<char>)
    ensures
        (exists|i: int| 0 <= i < template.len() && template[i] != '%') ==> text::fill(
            template,
            value,
        ).len() > 0,
        template.len() > 0 && template[0] != '%' ==> text::fill(template, value).len() > 0
            && text::fill(template, value)[0] == template[0],
    decreases template.len(),
{
    if template.len() > 0 {
        let init = template.drop_last();
        lemma_fill_keeps(init, value);
        if exists|i: int| 0 <= i < template.len() && template[i] != '%' {
            let i = choose|i: int| 0 <= i < template.len() && template[i] != '%';
            if i < init.len() {
                assert(init[i] != '%');
            }
        }
        if template[0] != '%' && init.len() > 0 {
            assert(init[0] == template[0]);
        }
    }
}

/// A part of a text stands in it.
pub proof fn lemma_within(a: Seq<char>, b: Seq<char>, c: Seq<char>)
    ensures
        text::contains(a + b + c, b),
        text::contains(a + b, b),
        text::contains(b + c, b),
        text::starts_with(b + c, b),
        text::ends_with(a + b, b),
{
    assert((a + b + c).subrange(a.len() as int, (a.len() + b.len()) as int) =~= b);
    assert(text::at(a + b + c, b, a.len() as int));
    assert((a + b).subrange(a.len() as int, (a.len() + b.len()) as int) =~= b);
    assert(text::at(a + b, b, a.len() as int));
    assert((b + c).subrange(0, b.len() as int) =~= b);
    assert(text::at(b + c, b, 0));
}

/// What stands in a part of a text stands in the text.
pub proof fn lemma_wider(a: Seq<char>, x: Seq<char>, c: Seq<char>, p: Seq<char>)
    requires
        text::contains(x, p),
    ensures
        text::contains(a + x + c, p),
        text::contains(a + x, p),
        text::contains(x + c, p),
{
    let i = choose|i: int| text::at(x, p, i);
    let n = a.len() as int;
    assert((a + x + c).subrange(n + i, n + i + p.len()) =~= x.subrange(i, i + p.len()));
    assert(text::at(a + x + c, p, n + i));
    assert((a + x).subrange(n + i, n + i + p.len()) =~= x.subrange(i, i + p.len()));
    assert(text::at(a + x, p, n + i));
    assert((x + c).subrange(i, i + p.len()) =~= x.subrange(i, i + p.len()));
    assert(text::at(x + c, p, i));
}

/// Trimming a text's end takes nothing away that ends in something else than white space.
pub proof fn lemma_trim_end_keeps(x: Seq<char>, p: Seq<char>)
    requires
        p.len() > 0,
        !text::is_space(p.last()),
        text::contains(x, p),
    ensures
        text::contains(text::trim_end(x), p),
    decreases x.len(),
{
    if x.len() > 0 && text::is_space(x.last()) {
        let init = x.drop_last();
        let i = choose|i: int| text::at(x, p, i);
        let n = i + p.len();
        if n == x.len() {
            assert(x.subrange(i, n).last() == x.last());
        }
        assert(init.subrange(i, n) =~= x.subrange(i, n));
        assert(text::at(init, p, i));
        lemma_trim_end_keeps(init, p);
    }
}

/// Every part that was joined stands in the text.
pub proof fn lemma_joined(parts: Seq<Seq<char>>, sep: Seq<char>, k: int)
    requires
        0 <= k < parts.len(),
    ensures
        text::contains(text::join(parts, sep), parts[k]),
    decreases parts.len(),
{
    if parts.len() == 1 {
        assert(parts[0].subrange(0, parts[0].len() as int) =~= parts[0]);
        assert(text::at(parts[0], parts[0], 0));
    } else {
        let init = parts.drop_last();
        if k < init.len() {
            lemma_joined(init, sep, k);
            assert(init[k] == parts[k]);
            assert(text::join(init, sep) + sep + parts.last() =~= text::join(init, sep) + (sep
                + parts.last()));
            lemma_wider(Seq::empty(), text::join(init, sep), sep + parts.last(), parts[k]);
        } else {
            lemma_within(text::join(init, sep) + sep, parts[k], Seq::empty());
        }
    }
}

proof fn lemma_fill_append(a: Seq<char>, b: Seq<char>, value: Seq<char>)
    ensures
        text::fill(a + b, value) == text::fill(a, value) + text::fill(b, value),
    decreases b.len(),
{
    if b.len() == 0 {
        assert(a + b =~= a);
    } else {
        let c = b.drop_last();
        lemma_fill_append(a, c, value);
        assert((a + b).drop_last() =~= a + c);
        assert(text::fill(a + b, value) =~= text::fill(a, value) + text::fill(b, value));
    }
}

/// What stands in a template stands, filled in, in the filled template.
pub proof fn lemma_fill_within(template: Seq<char>, part: Seq<char>, value: Seq<char>, at: int)
    requires
        text::at(template, part, at),
    ensures
        text::contains(text::fill(template, value), text::fill(part, value)),
{
    let a = template.take(at);
    let c = template.skip(at + part.len());
    assert(template =~= a + part + c);
    lemma_fill_append(a + part, c, value);
    lemma_fill_append(a, part, value);
    lemma_within(text::fill(a, value), text::fill(part, value), text::fill(c, value));
}

/// A text without a gap is filled by leaving it as it is.
pub proof fn lemma_fill_plain(s: Seq<char>, value: Seq<char>)
    requires
        forall|i: int| 0 <= i < s.len() ==> s[i] != '%',
    ensures
        text::fill(s, value) == s,
    decreases s.len(),
{
    if s.len() > 0 {
        lemma_fill_plain(s.drop_last(), value);
        assert(s.drop_last().push(s.last()) =~= s);
    }
}

/// A text with one gap is filled by putting the value there.
pub proof fn lemma_fill_one(a: Seq<char>, b: Seq<char>, value: Seq<char>)
    requires
        forall|i: int| 0 <= i < a.len() ==> a[i] != '%',
        forall|i: int| 0 <= i < b.len() ==> b[i] != '%',
    ensures
        text::fill(a.push('%') + b, value) == a + value + b,
{
    lemma_fill_append(a.push('%'), b, value);
    lemma_fill_plain(a, value);
    lemma_fill_plain(b, value);
    assert(a.push('%').drop_last() =~= a);
}

/// A letter without its case.
pub open spec fn small(c: char) -> int {
    if 'A' <= c <= 'Z' {
        c as int + 32
    } else {
        c as int
    }
}

/// Two texts are the same but for the case of their letters where each character is.
pub proof fn case_is_ignored_by_character(a: &str, b: &str, r: bool, i: int)
    requires
        call_ensures(text::same_ignoring_case, (a, b), r),
    ensures
        r && 0 <= i < a@.len() ==> i < b@.len() && small(a@[i]) == small(b@[i]),
        a@.len() == b@.len() && (forall|j: int|
            0 <= j < a@.len() ==> #[trigger] small(a@[j]) == small(b@[j])) ==> r,
{
    if r {
        assert(text::lower(a@).len() == text::lower(b@).len());
        if 0 <= i < a@.len() {
            assert(text::lower(a@)[i] == text::lower(b@)[i]);
        }
    }
    if a@.len() == b@.len() && (forall|j: int|
        0 <= j < a@.len() ==> #[trigger] small(a@[j]) == small(b@[j])) {
        assert forall|j: int| 0 <= j < a@.len() implies text::lower(a@)[j] == text::lower(b@)[j] by {
            assert(small(a@[j]) == small(b@[j]));
        }
        assert(text::lower(a@) =~= text::lower(b@));
    }
}

/// The white space characters.
pub proof fn white_space_is_known(c: char, r: bool)
    requires
        call_ensures(text::space, (c,), r),
    ensures
        c == ' ' || c == '\t' || c == '\n' || c == '\r' ==> r,
        0x21 <= c as u32 <= 0x7e ==> !r,
{
}

/// Lines end at a line feed, or a carriage return and a line feed; what follows the last
/// one is a line where it is not empty.
pub proof fn lines_end_at_line_feeds(
    s: &str,
    r: Vec<String>,
    line: Seq<char>,
    rest: &str,
    later: Vec<String>,
    k: int,
)
    requires
        call_ensures(text::lines_of, (s,), r),
        call_ensures(text::lines_of, (rest,), later),
        forall|i: int| 0 <= i < line.len() ==> #[trigger] line[i] != '\n',
    ensures
        s@.len() == 0 ==> r@.len() == 0,
        s@ == line && line.len() > 0 ==> r@.len() == 1 && r@[0]@ == line,
        s@ == line + "\n"@ + rest@ ==> r@.len() == later@.len() + 1 && (0 <= k < later@.len() ==> r@[k
            + 1]@ == later@[k]@),
        s@ == line + "\n"@ + rest@ && (line.len() == 0 || line.last() != '\r') ==> r@[0]@ == line,
        s@ == line + "\n"@ + rest@ && line.len() > 0 && line.last() == '\r' ==> r@[0]@
            == line.drop_last(),
{
    reveal_strlit("\n");
    let v = text::views(r@);
    let w = text::views(later@);
    assert(v.len() == r@.len());
    assert(w.len() == later@.len());
    let n = line.len() as int;
    if s@ == line && line.len() > 0 {
        text::lemma_index_of(s@, '\n', n);
        assert(v =~= seq![line]);
        assert(r@[0]@ == v[0]);
    }
    if s@ == line + "\n"@ + rest@ {
        assert(s@[n] == '\n');
        assert forall|j: int| 0 <= j < n implies #[trigger] s@[j] != '\n' by {
            assert(s@[j] == line[j]);
        }
        text::lemma_lines_step(s@, n);
        assert(s@.take(n) =~= line);
        assert(s@.skip(n + 1) =~= rest@);
        assert(r@[0]@ == v[0]);
        assert(v[0] == text::strip_cr(line));
        if 0 <= k < later@.len() {
            assert(r@[k + 1]@ == v[k + 1]);
            assert(v[k + 1] == w[k]);
            assert(later@[k]@ == w[k]);
        }
    }
}

/// Texts are in order by their first characters that differ; the beginning of a text is
/// before it.
pub proof fn texts_are_ordered_by_character(a: &str, b: &str, r: bool, i: int)
    requires
        call_ensures(text::at_most, (a, b), r),
        0 <= i <= a@.len(),
        i <= b@.len(),
        a@.take(i) == b@.take(i),
    ensures
        i == a@.len() ==> r,
        i < a@.len() && i == b@.len() ==> !r,
        i < a@.len() && i < b@.len() && a@[i] != b@[i] ==> (r <==> a@[i] < b@[i]),
{
    lemma_order(a@, b@, i);
}

proof fn lemma_order(a: Seq<char>, b: Seq<char>, i: int)
    requires
        0 <= i <= a.len(),
        i <= b.len(),
        a.take(i) == b.take(i),
    ensures
        i == a.len() ==> text::le(a, b),
        i < a.len() && i == b.len() ==> !text::le(a, b),
        i < a.len() && i < b.len() && a[i] != b[i] ==> (text::le(a, b) <==> a[i] < b[i]),
    decreases i,
{
    if i > 0 {
        assert(a.take(i)[0] == a[0] && b.take(i)[0] == b[0]);
        let x = a.skip(1);
        let y = b.skip(1);
        assert(x.take(i - 1) =~= a.take(i).skip(1));
        assert(y.take(i - 1) =~= b.take(i).skip(1));
        lemma_order(x, y, i - 1);
        if i < a.len() {
            assert(x[i - 1] == a[i]);
        }
        if i < b.len() {
            assert(y[i - 1] == b[i]);
        }
    }
}

/// A list has what is one of its texts; a name that is put in order is there once.
pub proof fn names_are_put_in_order(
    v: &Vec<String>,
    s: &str,
    r: bool,
    before: Vec<String>,
    name: &str,
    after: Vec<String>,
    i: int,
    j: int,
)
    requires
        call_ensures(text::member, (v, s), r),
        exists|g: &mut Vec<String>| #[trigger]
            call_ensures(text::put_in_order, (g, name), ()) && *g == before && *final(g) == after,
        v@ == after@,
    ensures
        r <==> s@ == name@ || exists|k: int|
            #![trigger before@[k]]
            0 <= k < before@.len() && before@[k]@ == s@,
        0 <= i < j < after@.len() ==> text::le(after@[i]@, after@[j]@) && after@[i]@ != after@[j]@,
{
    assert(text::listed(after@, s@) == (text::listed(before@, s@) || s@ == name@));
    if text::listed(before@, s@) {
        let k = choose|k: int| 0 <= k < before@.len() && #[trigger] before@[k]@ == s@;
        assert(before@[k]@ == s@);
    }
    if exists|k: int| #![trigger before@[k]] 0 <= k < before@.len() && before@[k]@ == s@ {
        let k = choose|k: int| #![trigger before@[k]] 0 <= k < before@.len() && before@[k]@ == s@;
        assert(before@[k]@ == s@);
        assert(text::listed(before@, s@));
    }
}

/// A template is filled at its gap, and a number goes there in digits.
pub proof fn templates_are_filled_at_the_gap(
    template: &str,
    value: &str,
    r: String,
    n: u64,
    number: String,
    a: Seq<char>,
    b: Seq<char>,
)
    requires
        call_ensures(text::filled, (template, value), r),
        call_ensures(text::filled_number, (template, n), number),
        template@ == a.push('%') + b,
        forall|i: int| 0 <= i < a.len() ==> a[i] != '%',
        forall|i: int| 0 <= i < b.len() ==> b[i] != '%',
    ensures
        r@ == a + value@ + b,
        number@ == a + text::decimal(n as nat) + b,
{
    lemma_fill_one(a, b, value@);
    lemma_fill_one(a, b, text::decimal(n as nat));
}

/// Copies and slices hold what they are taken from, and what is looked for is found at its
/// first place.
pub proof fn characters_are_found_and_taken(
    s: &str,
    cs: Vec<char>,
    same: String,
    v: &Vec<char>,
    from: usize,
    to: usize,
    part: String,
    p: &Vec<char>,
    at: Option<usize>,
    c: char,
    next: usize,
    c2: char,
    low: char,
    end: String,
)
    requires
        call_ensures(text::chars, (s,), cs),
        call_ensures(text::copy, (s,), same),
        from <= to <= v@.len(),
        call_ensures(text::slice, (v, from, to), part),
        call_ensures(text::find_chars, (v, p), at),
        call_ensures(text::next_index, (v, c, from), next),
        call_ensures(text::lowered_char, (c2,), low),
        call_ensures(text::trimmed_end, (s,), end),
    ensures
        cs@ == s@ && same@ == s@,
        part@ == v@.subrange(from as int, to as int),
        at is Some ==> v@.subrange(at->0 as int, at->0 + p@.len()) == p@ && forall|j: int|
            0 <= j < at->0 ==> #[trigger] v@.subrange(j, j + p@.len()) != p@,
        at is None ==> forall|j: int|
            0 <= j && j + p@.len() <= v@.len() ==> #[trigger] v@.subrange(j, j + p@.len()) != p@,
        from <= next <= v@.len(),
        next < v@.len() ==> v@[next as int] == c,
        forall|j: int| from <= j < next ==> #[trigger] v@[j] != c,
        small(c2) == low as int,
        exists|b: int|
            #![trigger s@.take(b)]
            0 <= b <= s@.len() && end@ == s@.take(b) && blank(s@.skip(b)) && (b > 0
                ==> !text::is_space(s@[b - 1])),
{
    text::lemma_index_of_bounds(v@.skip(from as int), c);
    assert forall|j: int| from <= j < next implies #[trigger] v@[j] != c by {
        assert(v@.skip(from as int)[j - from] == v@[j]);
    }
    if at is Some {
        assert forall|j: int| 0 <= j < at->0 implies #[trigger] v@.subrange(j, j + p@.len())
            != p@ by {
            assert(!text::at(v@, p@, j));
        }
    } else {
        assert forall|j: int| 0 <= j && j + p@.len() <= v@.len() implies #[trigger] v@.subrange(
            j,
            j + p@.len(),
        ) != p@ by {
            assert(!text::at(v@, p@, j));
        }
    }
    let b = lemma_trim_end(s@);
    assert(end@ == s@.take(b));
}

} // verus!
