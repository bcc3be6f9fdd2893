//! Text as sequences of characters: searching, splitting, trimming, joining and
//! decimal notation, each function proved against a short definition.

use vstd::prelude::*;

verus! {

/// `String::push` appends one character.
pub assume_specification[ String::push ](s: &mut String, ch: char)
    ensures
        final(s)@ == old(s)@.push(ch),
;

/// The texts of a list of strings.
pub open spec fn views(v: Seq<String>) -> Seq<Seq<char>> {
    Seq::new(v.len(), |i: int| v[i]@)
}

/// The texts of a list of string slices.
pub open spec fn str_views(v: Seq<&str>) -> Seq<Seq<char>> {
    Seq::new(v.len(), |i: int| v[i]@)
}

pub proof fn lemma_views_push(v: Seq<String>, s: String)
    ensures
        views(v.push(s)) == views(v).push(s@),
{
    assert(views(v.push(s)) =~= views(v).push(s@));
}

/// The characters of `s`.
pub fn chars(s: &str) -> (r: Vec<char>)
    ensures
        r@ == s@,
{
    let mut v: Vec<char> = Vec::new();
    for c in it: s.chars()
        invariant
            v@ =~= it.seq().take(it.index() as int),
            it.seq() == s@,
    {
        v.push(c);
    }
    v
}

/// The text made of `v[from..to]`.
pub fn slice(v: &Vec<char>, from: usize, to: usize) -> (r: String)
    requires
        from <= to <= v.len(),
    ensures
        r@ == v@.subrange(from as int, to as int),
{
    let mut s = String::new();
    let mut i: usize = from;
    while i < to
        invariant
            from <= i <= to <= v.len(),
            s@ =~= v@.subrange(from as int, i as int),
        decreases to - i,
    {
        s.push(v[i]);
        i = i + 1;
    }
    s
}

/// A copy of `s`.
pub fn copy(s: &str) -> (r: String)
    ensures
        r@ == s@,
{
    s.to_owned()
}

/// `p` stands in `s` at position `i`.
pub open spec fn at(s: Seq<char>, p: Seq<char>, i: int) -> bool {
    0 <= i && i + p.len() <= s.len() && s.subrange(i, i + p.len()) == p
}

pub open spec fn starts_with(s: Seq<char>, p: Seq<char>) -> bool {
    at(s, p, 0)
}

pub open spec fn ends_with(s: Seq<char>, p: Seq<char>) -> bool {
    at(s, p, s.len() - p.len())
}

pub open spec fn contains(s: Seq<char>, p: Seq<char>) -> bool {
    exists|i: int| at(s, p, i)
}

/// `i` is the first position at which `p` stands in `s`.
pub open spec fn is_first(s: Seq<char>, p: Seq<char>, i: int) -> bool {
    at(s, p, i) && forall|j: int| 0 <= j < i ==> !at(s, p, j)
}

/// The first position of `p` in `s`, if it occurs.
pub open spec fn find(s: Seq<char>, p: Seq<char>) -> Option<int> {
    if contains(s, p) {
        Some(choose|i: int| is_first(s, p, i))
    } else {
        None
    }
}

pub proof fn lemma_find(s: Seq<char>, p: Seq<char>, i: int)
    requires
        is_first(s, p, i),
    ensures
        find(s, p) == Some(i),
{
    assert(at(s, p, i));
    let k = choose|k: int| is_first(s, p, k);
    assert(is_first(s, p, k));
    assert(!(k < i) && !(i < k));
}

/// Whether `p` stands in `s` at position `i`.
fn at_exec(s: &Vec<char>, p: &Vec<char>, i: usize) -> (r: bool)
    requires
        i <= s.len(),
    ensures
        r == at(s@, p@, i as int),
{
    if s.len() - i < p.len() {
        return false;
    }
    let mut k: usize = 0;
    while k < p.len()
        invariant
            k <= p.len(),
            i + p.len() <= s.len(),
            forall|j: int| 0 <= j < k ==> s@[i + j] == p@[j],
        decreases p.len() - k,
    {
        if s[i + k] != p[k] {
            assert(s@.subrange(i as int, i + p@.len())[k as int] != p@[k as int]);
            return false;
        }
        k = k + 1;
    }
    assert(s@.subrange(i as int, i + p@.len()) =~= p@);
    true
}

/// The first position of `p` in `s`.
pub fn find_chars(s: &Vec<char>, p: &Vec<char>) -> (r: Option<usize>)
    ensures
        match r {
            Some(i) => i + p.len() <= s.len() && is_first(s@, p@, i as int) && find(s@, p@)
                == Some(i as int),
            None => find(s@, p@) is None,
        },
{
    let mut i: usize = 0;
    while i <= s.len()
        invariant
            i <= s.len() + 1,
            forall|j: int| 0 <= j < i ==> !at(s@, p@, j),
        decreases s.len() + 1 - i,
    {
        if at_exec(s, p, i) {
            proof {
                lemma_find(s@, p@, i as int);
            }
            return Some(i);
        }
        if i == s.len() {
            assert forall|j: int| !at(s@, p@, j) by {}
            return None;
        }
        i = i + 1;
    }
    None
}

/// Whether `s` begins with `p`.
pub fn has_prefix(s: &str, p: &str) -> (r: bool)
    ensures
        r == starts_with(s@, p@),
{
    let a = chars(s);
    let b = chars(p);
    at_exec(&a, &b, 0)
}

/// Whether `s` ends with `p`.
pub fn has_suffix(s: &str, p: &str) -> (r: bool)
    ensures
        r == ends_with(s@, p@),
{
    let a = chars(s);
    let b = chars(p);
    if a.len() < b.len() {
        return false;
    }
    at_exec(&a, &b, a.len() - b.len())
}

/// Whether `p` occurs in `s`.
pub fn has(s: &str, p: &str) -> (r: bool)
    ensures
        r == contains(s@, p@),
{
    let a = chars(s);
    let b = chars(p);
    match find_chars(&a, &b) {
        Some(_) => true,
        None => false,
    }
}

/// What is left of `s` once the prefix `p` is taken off it.
pub open spec fn after_prefix(s: Seq<char>, p: Seq<char>) -> Option<Seq<char>> {
    if starts_with(s, p) {
        Some(s.skip(p.len() as int))
    } else {
        None
    }
}

/// `s` without the prefix `p`.
pub fn strip_prefix(s: &str, p: &str) -> (r: Option<String>)
    ensures
        match r {
            Some(t) => after_prefix(s@, p@) == Some(t@),
            None => after_prefix(s@, p@) is None,
        },
{
    let a = chars(s);
    let b = chars(p);
    if at_exec(&a, &b, 0) {
        let t = slice(&a, b.len(), a.len());
        assert(t@ =~= s@.skip(p@.len() as int));
        Some(t)
    } else {
        None
    }
}

/// What is left of `s` once the suffix `p` is taken off it.
pub open spec fn before_suffix(s: Seq<char>, p: Seq<char>) -> Option<Seq<char>> {
    if ends_with(s, p) {
        Some(s.take(s.len() - p.len()))
    } else {
        None
    }
}

/// `s` without the suffix `p`.
pub fn strip_suffix(s: &str, p: &str) -> (r: Option<String>)
    ensures
        match r {
            Some(t) => before_suffix(s@, p@) == Some(t@),
            None => before_suffix(s@, p@) is None,
        },
{
    let a = chars(s);
    let b = chars(p);
    if a.len() >= b.len() && at_exec(&a, &b, a.len() - b.len()) {
        let t = slice(&a, 0, a.len() - b.len());
        assert(t@ =~= s@.take(s@.len() - p@.len()));
        Some(t)
    } else {
        None
    }
}

/// The characters with the Unicode property `White_Space`.
pub open spec fn is_space(c: char) -> bool {
    let n = c as u32;
    ||| 0x9 <= n <= 0xd
    ||| n == 0x20
    ||| n == 0x85
    ||| n == 0xa0
    ||| n == 0x1680
    ||| 0x2000 <= n <= 0x200a
    ||| n == 0x2028
    ||| n == 0x2029
    ||| n == 0x202f
    ||| n == 0x205f
    ||| n == 0x3000
}

/// Whether `c` is white space.
pub fn space(c: char) -> (r: bool)
    ensures
        r == is_space(c),
{
    let n: u32 = c as u32;
    (0x9 <= n && n <= 0xd) || n == 0x20 || n == 0x85 || n == 0xa0 || n == 0x1680 || (0x2000 <= n
        && n <= 0x200a) || n == 0x2028 || n == 0x2029 || n == 0x202f || n == 0x205f || n == 0x3000
}

/// `s` without the white space it begins with.
pub open spec fn trim_start(s: Seq<char>) -> Seq<char>
    decreases s.len(),
{
    if s.len() > 0 && is_space(s[0]) {
        trim_start(s.skip(1))
    } else {
        s
    }
}

/// `s` without the white space it ends with.
pub open spec fn trim_end(s: Seq<char>) -> Seq<char>
    decreases s.len(),
{
    if s.len() > 0 && is_space(s.last()) {
        trim_end(s.drop_last())
    } else {
        s
    }
}

/// `s` without the white space at its two ends.
pub open spec fn trim(s: Seq<char>) -> Seq<char> {
    trim_end(trim_start(s))
}

/// Where the text of `v` begins, once the white space before it is skipped.
fn start_of(v: &Vec<char>) -> (r: usize)
    ensures
        r <= v.len(),
        trim_start(v@) == v@.skip(r as int),
{
    let mut i: usize = 0;
    assert(v@.skip(0) =~= v@);
    while i < v.len() && space(v[i])
        invariant
            i <= v.len(),
            trim_start(v@) == trim_start(v@.skip(i as int)),
        decreases v.len() - i,
    {
        assert(v@.skip(i as int).skip(1) =~= v@.skip(i + 1));
        i = i + 1;
    }
    i
}

/// Where the text of `v[from..]` ends, once the white space after it is cut.
fn end_of(v: &Vec<char>, from: usize) -> (r: usize)
    requires
        from <= v.len(),
    ensures
        from <= r <= v.len(),
        trim_end(v@.skip(from as int)) == v@.subrange(from as int, r as int),
{
    let mut j: usize = v.len();
    assert(v@.skip(from as int) =~= v@.subrange(from as int, j as int));
    while j > from && space(v[j - 1])
        invariant
            from <= j <= v.len(),
            trim_end(v@.skip(from as int)) == trim_end(v@.subrange(from as int, j as int)),
        decreases j,
    {
        assert(v@.subrange(from as int, j as int).drop_last() =~= v@.subrange(
            from as int,
            j - 1,
        ));
        j = j - 1;
    }
    j
}

/// `s` without the white space at its two ends.
pub fn trimmed(s: &str) -> (r: String)
    ensures
        r@ == trim(s@),
{
    let v = chars(s);
    let a = start_of(&v);
    let b = end_of(&v, a);
    slice(&v, a, b)
}

/// `s` without the white space it ends with.
pub fn trimmed_end(s: &str) -> (r: String)
    ensures
        r@ == trim_end(s@),
{
    let v = chars(s);
    let b = end_of(&v, 0);
    assert(v@.skip(0) =~= v@);
    slice(&v, 0, b)
}

/// Whether nothing but white space is in `s`.
pub fn is_blank(s: &str) -> (r: bool)
    ensures
        r == (trim(s@).len() == 0),
{
    let t = trimmed(s);
    t.as_str().is_empty()
}

/// The first position of the character `c` in `s`, or the length of `s`.
pub open spec fn index_of(s: Seq<char>, c: char) -> int
    decreases s.len(),
{
    if s.len() == 0 || s[0] == c {
        0
    } else {
        1 + index_of(s.skip(1), c)
    }
}

pub proof fn lemma_index_of(s: Seq<char>, c: char, i: int)
    requires
        0 <= i <= s.len(),
        forall|j: int| 0 <= j < i ==> s[j] != c,
        i == s.len() || s[i] == c,
    ensures
        index_of(s, c) == i,
    decreases s.len(),
{
    if s.len() > 0 && i > 0 {
        assert forall|j: int| 0 <= j < i - 1 implies s.skip(1)[j] != c by {
            assert(s[j + 1] != c);
        }
        lemma_index_of(s.skip(1), c, i - 1);
    }
}

pub proof fn lemma_index_of_bounds(s: Seq<char>, c: char)
    ensures
        0 <= index_of(s, c) <= s.len(),
        index_of(s, c) < s.len() ==> s[index_of(s, c)] == c,
        forall|j: int| 0 <= j < index_of(s, c) ==> s[j] != c,
    decreases s.len(),
{
    if s.len() > 0 && s[0] != c {
        lemma_index_of_bounds(s.skip(1), c);
        assert forall|j: int| 0 <= j < index_of(s, c) implies s[j] != c by {
            if j > 0 {
                assert(s.skip(1)[j - 1] == s[j]);
            }
        }
    }
}

/// The first position at or after `from` at which `v` holds `c`, or its length.
pub fn next_index(v: &Vec<char>, c: char, from: usize) -> (r: usize)
    requires
        from <= v.len(),
    ensures
        from <= r <= v.len(),
        r == from + index_of(v@.skip(from as int), c),
        r < v.len() ==> v@[r as int] == c,
{
    let mut i: usize = from;
    while i < v.len() && v[i] != c
        invariant
            from <= i <= v.len(),
            forall|j: int| from <= j < i ==> v@[j] != c,
        decreases v.len() - i,
    {
        i = i + 1;
    }
    proof {
        assert forall|j: int| 0 <= j < i - from implies v@.skip(from as int)[j] != c by {
            assert(v@[from + j] != c);
        }
        lemma_index_of(v@.skip(from as int), c, i - from);
    }
    i
}

/// The parts of `s` between the occurrences of `c`.
pub open spec fn split(s: Seq<char>, c: char) -> Seq<Seq<char>>
    decreases s.len(),
    via split_decreases
{
    let i = index_of(s, c);
    if i >= s.len() {
        seq![s]
    } else {
        seq![s.take(i)] + split(s.skip(i + 1), c)
    }
}

#[via_fn]
proof fn split_decreases(s: Seq<char>, c: char) {
    lemma_index_of_bounds(s, c);
}

/// The first part of a text, and the rest of it.
pub proof fn lemma_split_step(s: Seq<char>, c: char)
    ensures
        index_of(s, c) < s.len() ==> split(s, c) == seq![s.take(index_of(s, c))] + split(
            s.skip(index_of(s, c) + 1),
            c,
        ),
        index_of(s, c) >= s.len() ==> split(s, c) == seq![s],
{
}

/// The parts of `s` between the occurrences of `c`.
pub fn split_on(s: &str, c: char) -> (r: Vec<String>)
    ensures
        views(r@) == split(s@, c),
{
    let v = chars(s);
    let mut out: Vec<String> = Vec::new();
    let mut pos: usize = 0;
    assert(v@.skip(0) =~= v@);
    assert(views(out@) + split(v@, c) =~= split(v@, c));
    loop
        invariant
            pos <= v.len(),
            v@ == s@,
            views(out@) + split(v@.skip(pos as int), c) == split(s@, c),
        decreases v.len() - pos,
    {
        let i = next_index(&v, c, pos);
        let part = slice(&v, pos, i);
        let ghost before = views(out@);
        let ghost rest = v@.skip(pos as int);
        proof {
            lemma_views_push(out@, part);
            lemma_split_step(rest, c);
        }
        out.push(part);
        if i >= v.len() {
            assert(part@ =~= rest);
            assert(before.push(rest) =~= before + seq![rest]);
            return out;
        }
        proof {
            let next = split(v@.skip(i + 1), c);
            assert(part@ =~= rest.take(i - pos));
            assert(rest.skip(i - pos + 1) =~= v@.skip(i + 1));
            assert(before.push(part@) + next =~= before + (seq![part@] + next));
        }
        pos = i + 1;
    }
}

/// `line` without the carriage return it ends with.
pub open spec fn strip_cr(line: Seq<char>) -> Seq<char> {
    if line.len() > 0 && line.last() == '\r' {
        line.drop_last()
    } else {
        line
    }
}

/// The lines of `s`: each ends at a line feed, or a carriage return and a line
/// feed, or at the end of `s`.
pub open spec fn lines(s: Seq<char>) -> Seq<Seq<char>>
    decreases s.len(),
    via lines_decreases
{
    let i = index_of(s, '\n');
    if s.len() == 0 {
        seq![]
    } else if i >= s.len() {
        seq![s]
    } else {
        seq![strip_cr(s.take(i))] + lines(s.skip(i + 1))
    }
}

#[via_fn]
proof fn lines_decreases(s: Seq<char>) {
    lemma_index_of_bounds(s, '\n');
}

/// The lines of `s`.
pub fn lines_of(s: &str) -> (r: Vec<String>)
    ensures
        views(r@) == lines(s@),
{
    let v = chars(s);
    let mut out: Vec<String> = Vec::new();
    let mut pos: usize = 0;
    assert(v@.skip(0) =~= v@);
    assert(views(out@) + lines(v@) =~= lines(v@));
    while pos < v.len()
        invariant
            pos <= v.len(),
            v@ == s@,
            views(out@) + lines(v@.skip(pos as int)) == lines(s@),
        decreases v.len() - pos,
    {
        let i = next_index(&v, '\n', pos);
        let ghost rest = v@.skip(pos as int);
        let ghost before = out@;
        if i >= v.len() {
            let line = slice(&v, pos, i);
            out.push(line);
            proof {
                lemma_views_push(before, line);
                assert(line@ =~= rest);
                assert(views(out@) =~= views(before) + seq![rest]);
            }
            return out;
        }
        let end: usize = if i > pos && v[i - 1] == '\r' {
            i - 1
        } else {
            i
        };
        let line = slice(&v, pos, end);
        out.push(line);
        proof {
            lemma_views_push(before, line);
            let whole = rest.take(i - pos);
            if i > pos {
                assert(whole.last() == v@[i - 1]);
            }
            assert(line@ =~= strip_cr(whole));
            assert(rest.skip(i - pos + 1) =~= v@.skip(i + 1));
            assert(views(out@) + lines(v@.skip(i + 1)) =~= views(before) + (seq![
                strip_cr(whole),
            ] + lines(rest.skip(i - pos + 1))));
        }
        pos = i + 1;
    }
    proof {
        assert(v@.skip(pos as int) =~= seq![]);
        assert(views(out@) =~= lines(s@));
    }
    out
}

/// The parts with `sep` between each two neighbours.
pub open spec fn join(parts: Seq<Seq<char>>, sep: Seq<char>) -> Seq<char>
    decreases parts.len(),
{
    if parts.len() == 0 {
        seq![]
    } else if parts.len() == 1 {
        parts[0]
    } else {
        join(parts.drop_last(), sep) + sep + parts.last()
    }
}

/// The strings of `parts` with `sep` between each two neighbours.
pub fn joined(parts: &Vec<String>, sep: &str) -> (r: String)
    ensures
        r@ == join(views(parts@), sep@),
{
    let mut s = String::new();
    let mut i: usize = 0;
    assert(views(parts@).take(0) =~= seq![]);
    while i < parts.len()
        invariant
            i <= parts.len(),
            s@ == join(views(parts@).take(i as int), sep@),
        decreases parts.len() - i,
    {
        if i > 0 {
            s.append(sep);
        }
        s.append(parts[i].as_str());
        proof {
            let next = views(parts@).take(i + 1);
            assert(next.drop_last() =~= views(parts@).take(i as int));
            assert(next.last() == parts@[i as int]@);
            if i == 0 {
                assert(s@ =~= parts@[0]@);
            }
        }
        i = i + 1;
    }
    assert(views(parts@).take(parts@.len() as int) =~= views(parts@));
    s
}

/// The ASCII capital letters, in lower case.
pub open spec fn lower_char(c: char) -> char {
    if 'A' <= c && c <= 'Z' {
        ((c as u32) + 32) as char
    } else {
        c
    }
}

/// `s` with its ASCII capital letters in lower case.
pub open spec fn lower(s: Seq<char>) -> Seq<char> {
    Seq::new(s.len(), |i: int| lower_char(s[i]))
}

/// `c` in lower case, where it is an ASCII capital letter.
pub fn lowered_char(c: char) -> (r: char)
    ensures
        r == lower_char(c),
{
    if 'A' <= c && c <= 'Z' {
        ((c as u8) + 32) as char
    } else {
        c
    }
}

/// `s` with its ASCII capital letters in lower case.
pub fn lowered(s: &str) -> (r: String)
    ensures
        r@ == lower(s@),
{
    let v = chars(s);
    let mut out = String::new();
    let mut i: usize = 0;
    while i < v.len()
        invariant
            i <= v.len(),
            v@ == s@,
            out@ =~= lower(v@).take(i as int),
        decreases v.len() - i,
    {
        out.push(lowered_char(v[i]));
        i = i + 1;
    }
    assert(lower(v@).take(v@.len() as int) =~= lower(v@));
    out
}

/// Whether two texts agree but for the case of ASCII letters.
pub fn same_ignoring_case(a: &str, b: &str) -> (r: bool)
    ensures
        r == (lower(a@) == lower(b@)),
{
    let x = lowered(a);
    let y = lowered(b);
    x == y
}

/// Whether two texts agree.
pub fn same(a: &str, b: &str) -> (r: bool)
    ensures
        r == (a@ == b@),
{
    let x = copy(a);
    let y = copy(b);
    x == y
}

/// The digit that stands for `n`.
pub open spec fn digit(n: nat) -> char {
    (48 + n) as char
}

/// `n` in decimal notation.
pub open spec fn decimal(n: nat) -> Seq<char>
    decreases n,
{
    if n < 10 {
        seq![digit(n)]
    } else {
        decimal(n / 10).push(digit(n % 10))
    }
}

/// `n` in decimal notation.
pub fn number(n: u64) -> (r: String)
    ensures
        r@ == decimal(n as nat),
    decreases n,
{
    if n < 10 {
        let mut s = String::new();
        s.push((48u8 + n as u8) as char);
        assert(s@ =~= seq![digit(n as nat)]);
        s
    } else {
        let mut s = number(n / 10);
        s.push((48u8 + (n % 10) as u8) as char);
        s
    }
}

pub open spec fn is_digit(c: char) -> bool {
    '0' <= c && c <= '9'
}

pub open spec fn all_digits(s: Seq<char>) -> bool {
    forall|i: int| 0 <= i < s.len() ==> is_digit(#[trigger] s[i])
}

/// The number that the digits of `s` stand for.
pub open spec fn value_of(s: Seq<char>) -> nat
    decreases s.len(),
{
    if s.len() == 0 {
        0
    } else {
        (10 * value_of(s.drop_last()) + (s.last() as u32 - 48)) as nat
    }
}

/// The digits of a number text: what follows the one `+` that may stand first.
pub open spec fn digits_of(s: Seq<char>) -> Seq<char> {
    if s.len() > 1 && s[0] == '+' {
        s.skip(1)
    } else {
        s
    }
}

/// The 64-bit number that `s` denotes: decimal digits after an optional `+`.
pub open spec fn parse(s: Seq<char>) -> Option<u64> {
    let d = digits_of(s);
    if d.len() > 0 && all_digits(d) && value_of(d) <= u64::MAX {
        Some(value_of(d) as u64)
    } else {
        None
    }
}

proof fn lemma_value_grows(s: Seq<char>, k: int)
    requires
        all_digits(s),
        0 <= k <= s.len(),
    ensures
        value_of(s.take(k)) <= value_of(s),
    decreases s.len(),
{
    if k < s.len() {
        assert(s.drop_last().take(k) =~= s.take(k));
        assert(all_digits(s.drop_last()));
        lemma_value_grows(s.drop_last(), k);
        assert(is_digit(s[s.len() - 1]));
    } else {
        assert(s.take(k) =~= s);
    }
}

/// The 64-bit number that `s` denotes.
pub fn parse_number(s: &str) -> (r: Option<u64>)
    ensures
        r == parse(s@),
{
    let v = chars(s);
    let from: usize = if v.len() > 1 && v[0] == '+' {
        1
    } else {
        0
    };
    let ghost d = digits_of(s@);
    assert(d =~= v@.skip(from as int));
    if v.len() == from {
        return None;
    }
    let mut n: u64 = 0;
    let mut i: usize = from;
    while i < v.len()
        invariant
            from <= i <= v.len(),
            d == v@.skip(from as int),
            d == digits_of(s@),
            d.len() > 0,
            all_digits(d.take(i - from)),
            n == value_of(d.take(i - from)),
        decreases v.len() - i,
    {
        let c = v[i];
        assert(d[i - from] == c);
        if !('0' <= c && c <= '9') {
            return None;
        }
        let k: u64 = (c as u8 - 48) as u64;
        proof {
            let next = d.take(i - from + 1);
            assert(next.drop_last() =~= d.take(i - from));
            assert(next.last() == c);
            assert forall|j: int| 0 <= j < next.len() implies is_digit(#[trigger] next[j]) by {
                if j < i - from {
                    assert(next[j] == d.take(i - from)[j]);
                }
            }
            assert(value_of(next) == 10 * n + k);
        }
        if n > (u64::MAX - k) / 10 {
            proof {
                if all_digits(d) {
                    lemma_value_grows(d, i - from + 1);
                }
            }
            return None;
        }
        n = 10 * n + k;
        i = i + 1;
    }
    assert(d.take(i - from) =~= d);
    Some(n)
}

/// Some string of `v` has the text `s`.
pub open spec fn listed(v: Seq<String>, s: Seq<char>) -> bool {
    exists|i: int| 0 <= i < v.len() && #[trigger] v[i]@ == s
}

/// Whether `s` is one of the strings of `v`.
pub fn member(v: &Vec<String>, s: &str) -> (r: bool)
    ensures
        r == listed(v@, s@),
{
    let mut i: usize = 0;
    while i < v.len()
        invariant
            i <= v.len(),
            forall|j: int| 0 <= j < i ==> #[trigger] v@[j]@ != s@,
        decreases v.len() - i,
    {
        if same(v[i].as_str(), s) {
            return true;
        }
        i = i + 1;
    }
    false
}

/// `template` with `value` in the place of each `%`.
pub open spec fn fill(template: Seq<char>, value: Seq<char>) -> Seq<char>
    decreases template.len(),
{
    if template.len() == 0 {
        seq![]
    } else if template.last() == '%' {
        fill(template.drop_last(), value) + value
    } else {
        fill(template.drop_last(), value).push(template.last())
    }
}

/// `template` with `value` in the place of each `%`.
pub fn filled(template: &str, value: &str) -> (r: String)
    ensures
        r@ == fill(template@, value@),
{
    let t = chars(template);
    let mut out = String::new();
    let mut i: usize = 0;
    assert(t@.take(0) =~= seq![]);
    while i < t.len()
        invariant
            i <= t.len(),
            t@ == template@,
            out@ == fill(t@.take(i as int), value@),
        decreases t.len() - i,
    {
        assert(t@.take(i + 1).drop_last() =~= t@.take(i as int));
        assert(t@.take(i + 1).last() == t@[i as int]);
        if t[i] == '%' {
            out.append(value);
        } else {
            out.push(t[i]);
        }
        i = i + 1;
    }
    assert(t@.take(t@.len() as int) =~= t@);
    out
}

/// `template` with the decimal notation of `n` in the place of each `%`.
pub fn filled_number(template: &str, n: u64) -> (r: String)
    ensures
        r@ == fill(template@, decimal(n as nat)),
{
    filled(template, number(n).as_str())
}

/// The order of texts by their characters, as dictionaries have it.
pub open spec fn le(a: Seq<char>, b: Seq<char>) -> bool
    decreases a.len(),
{
    if a.len() == 0 {
        true
    } else if b.len() == 0 {
        false
    } else if a[0] != b[0] {
        a[0] < b[0]
    } else {
        le(a.skip(1), b.skip(1))
    }
}

pub proof fn lemma_le_total(a: Seq<char>, b: Seq<char>)
    ensures
        le(a, b) || le(b, a),
    decreases a.len(),
{
    if a.len() > 0 && b.len() > 0 && a[0] == b[0] {
        lemma_le_total(a.skip(1), b.skip(1));
    }
}

pub proof fn lemma_le_reflexive(a: Seq<char>)
    ensures
        le(a, a),
    decreases a.len(),
{
    if a.len() > 0 {
        lemma_le_reflexive(a.skip(1));
    }
}

pub proof fn lemma_le_transitive(a: Seq<char>, b: Seq<char>, c: Seq<char>)
    requires
        le(a, b),
        le(b, c),
    ensures
        le(a, c),
    decreases a.len(),
{
    if a.len() > 0 && b.len() > 0 && c.len() > 0 && a[0] == b[0] && b[0] == c[0] {
        lemma_le_transitive(a.skip(1), b.skip(1), c.skip(1));
    }
}

pub proof fn lemma_le_antisymmetric(a: Seq<char>, b: Seq<char>)
    requires
        le(a, b),
        le(b, a),
    ensures
        a == b,
    decreases a.len(),
{
    if a.len() > 0 && b.len() > 0 {
        lemma_le_antisymmetric(a.skip(1), b.skip(1));
        assert(a =~= seq![a[0]] + a.skip(1));
        assert(b =~= seq![b[0]] + b.skip(1));
        assert(a =~= b);
    } else {
        assert(a =~= b);
    }
}

/// Whether `a` comes before `b` or equals it, in the order of texts.
pub fn at_most(a: &str, b: &str) -> (r: bool)
    ensures
        r == le(a@, b@),
{
    let x = chars(a);
    let y = chars(b);
    let mut i: usize = 0;
    assert(x@.skip(0) =~= x@);
    assert(y@.skip(0) =~= y@);
    while i < x.len()
        invariant
            i <= x.len(),
            i <= y.len(),
            le(a@, b@) == le(x@.skip(i as int), y@.skip(i as int)),
        decreases x.len() - i,
    {
        if i == y.len() {
            return false;
        }
        if x[i] != y[i] {
            return x[i] < y[i];
        }
        assert(x@.skip(i as int).skip(1) =~= x@.skip(i + 1));
        assert(y@.skip(i as int).skip(1) =~= y@.skip(i + 1));
        i = i + 1;
    }
    true
}

/// The first line of a text, and the rest of it.
pub proof fn lemma_lines_step(s: Seq<char>, i: int)
    requires
        0 <= i < s.len(),
        s[i] == '\n',
        forall|j: int| 0 <= j < i ==> #[trigger] s[j] != '\n',
    ensures
        lines(s) == seq![strip_cr(s.take(i))] + lines(s.skip(i + 1)),
{
    lemma_index_of(s, '\n', i);
}

/// The lines of two texts put together, where the first ends a line.
pub proof fn lemma_lines_append(a: Seq<char>, b: Seq<char>)
    requires
        a.len() > 0,
        a.last() == '\n',
    ensures
        lines(a + b) == lines(a) + lines(b),
    decreases a.len(),
{
    lemma_index_of_bounds(a, '\n');
    let i = index_of(a, '\n');
    assert(a[a.len() - 1] == '\n');
    assert(i < a.len());
    let ab = a + b;
    let rest = a.skip(i + 1);
    let head = seq![strip_cr(a.take(i))];
    lemma_lines_step(a, i);
    assert(lines(ab) == head + lines(rest + b)) by {
        assert(ab.take(i) =~= a.take(i));
        assert(ab.skip(i + 1) =~= rest + b);
        lemma_lines_step(ab, i);
    }
    if rest.len() > 0 {
        assert(rest.last() == a.last());
        lemma_lines_append(rest, b);
    } else {
        assert(rest + b =~= b);
        assert(lines(rest) =~= seq![]);
    }
    assert(head + (lines(rest) + lines(b)) =~= (head + lines(rest)) + lines(b));
}

/// No character of `s` is a line feed.
pub open spec fn one_line(s: Seq<char>) -> bool {
    forall|i: int| 0 <= i < s.len() ==> #[trigger] s[i] != '\n'
}

/// A line that is ended is the one line of its text.
pub proof fn lemma_one_line(s: Seq<char>)
    requires
        one_line(s),
    ensures
        lines(s.push('\n')) == seq![strip_cr(s)],
        s.len() > 0 ==> lines(s) == seq![s],
{
    let t = s.push('\n');
    assert forall|j: int| 0 <= j < s.len() implies t[j] != '\n' by {
        assert(t[j] == s[j]);
    }
    lemma_index_of(t, '\n', s.len() as int);
    assert(t.take(s.len() as int) =~= s);
    assert(t.skip(s.len() as int + 1) =~= seq![]);
    assert(lines(t.skip(s.len() as int + 1)) =~= seq![]);
    assert(lines(t) =~= seq![strip_cr(s)]);
    lemma_index_of(s, '\n', s.len() as int);
}

/// No line of a text holds a line feed.
pub proof fn lemma_lines_are_lines(s: Seq<char>)
    ensures
        forall|k: int| 0 <= k < lines(s).len() ==> one_line(#[trigger] lines(s)[k]),
    decreases s.len(),
{
    lemma_index_of_bounds(s, '\n');
    let i = index_of(s, '\n');
    if s.len() == 0 {
    } else if i >= s.len() {
        assert(one_line(s));
    } else {
        lemma_lines_are_lines(s.skip(i + 1));
        let first = strip_cr(s.take(i));
        assert(one_line(first)) by {
            assert forall|j: int| 0 <= j < first.len() implies #[trigger] first[j] != '\n' by {
                assert(first[j] == s[j]);
            }
        }
        assert forall|k: int| 0 <= k < lines(s).len() implies one_line(#[trigger] lines(s)[k]) by {
            if k > 0 {
                assert(lines(s)[k] == lines(s.skip(i + 1))[k - 1]);
            }
        }
    }
}

/// White space at the end does not change what trimming leaves.
pub proof fn lemma_trim_end_push(s: Seq<char>, c: char)
    requires
        is_space(c),
    ensures
        trim_end(s.push(c)) == trim_end(s),
{
    assert(s.push(c).drop_last() =~= s);
}

/// A text that ends otherwise than in white space is left as it is.
pub proof fn lemma_trim_end_solid(s: Seq<char>)
    requires
        s.len() == 0 || !is_space(s.last()),
    ensures
        trim_end(s) == s,
{
}

/// What trimming leaves neither begins nor ends with white space.
pub proof fn lemma_trim_is_solid(s: Seq<char>)
    ensures
        trim(s).len() > 0 ==> !is_space(trim(s)[0]) && !is_space(trim(s).last()),
        trim(trim(s)) == trim(s),
{
    lemma_trim_start_head(s);
    lemma_trim_end_tail(trim_start(s));
    let t = trim(s);
    if t.len() > 0 {
        assert(t[0] == trim_start(s)[0]);
    }
}

proof fn lemma_trim_start_head(s: Seq<char>)
    ensures
        trim_start(s).len() > 0 ==> !is_space(trim_start(s)[0]),
    decreases s.len(),
{
    if s.len() > 0 && is_space(s[0]) {
        lemma_trim_start_head(s.skip(1));
    }
}

proof fn lemma_trim_end_tail(s: Seq<char>)
    ensures
        trim_end(s).len() > 0 ==> !is_space(trim_end(s).last()),
        trim_end(s).len() <= s.len(),
        trim_end(s) == s.take(trim_end(s).len() as int),
    decreases s.len(),
{
    if s.len() > 0 && is_space(s.last()) {
        lemma_trim_end_tail(s.drop_last());
        assert(s.drop_last().take(trim_end(s).len() as int) =~= s.take(trim_end(s).len() as int));
    } else {
        assert(s.take(s.len() as int) =~= s);
    }
}

/// What is on one line of two, and holds no line feed, is on one of them.
pub proof fn lemma_at_in_line(a: Seq<char>, b: Seq<char>, p: Seq<char>, i: int)
    requires
        one_line(p),
        p.len() > 0,
        at(a + "\n"@ + b, p, i),
    ensures
        at(a, p, i) || at(b, p, i - a.len() - 1),
{
    reveal_strlit("\n");
    let s = a + "\n"@ + b;
    let n = a.len() as int;
    let w = s.subrange(i, i + p.len());
    assert(w == p);
    if i <= n < i + p.len() {
        assert(s[n] == '\n');
        assert(w[n - i] == s[n]);
        assert(p[n - i] != '\n');
    } else if i + p.len() <= n {
        assert(a.subrange(i, i + p.len()) =~= w);
    } else {
        assert(b.subrange(i - n - 1, i - n - 1 + p.len()) =~= w);
    }
}

/// What is on neither of two lines is on neither line of their text.
pub proof fn lemma_not_on_lines(a: Seq<char>, b: Seq<char>, p: Seq<char>)
    requires
        one_line(p),
        p.len() > 0,
        !contains(a, p),
        !contains(b, p),
    ensures
        !contains(a + "\n"@ + b, p),
{
    assert forall|i: int| !at(a + "\n"@ + b, p, i) by {
        if at(a + "\n"@ + b, p, i) {
            lemma_at_in_line(a, b, p, i);
        }
    }
}

/// What is not on the first line is first where it is first behind it.
pub proof fn lemma_first_behind_line(a: Seq<char>, b: Seq<char>, p: Seq<char>, k: int)
    requires
        one_line(p),
        p.len() > 0,
        !contains(a, p),
        is_first(b, p, k),
    ensures
        is_first(a + "\n"@ + b, p, a.len() + 1 + k),
{
    reveal_strlit("\n");
    let s = a + "\n"@ + b;
    let n = a.len() as int + 1;
    assert(s.subrange(n + k, n + k + p.len()) =~= b.subrange(k, k + p.len()));
    assert forall|j: int| 0 <= j < n + k implies !at(s, p, j) by {
        if at(s, p, j) {
            lemma_at_in_line(a, b, p, j);
            assert(!at(a, p, j));
            assert(at(b, p, j - n));
            assert(j - n < k);
        }
    }
}

/// What is longer than a text does not occur in it.
pub proof fn lemma_too_long(s: Seq<char>, p: Seq<char>)
    requires
        p.len() > s.len(),
    ensures
        !contains(s, p),
{
}

/// A path from the root.
pub open spec fn is_absolute(path: Seq<char>) -> bool {
    path.len() > 0 && path[0] == '/'
}

/// A path below a directory: an absolute one stands for itself.
pub open spec fn below(dir: Seq<char>, path: Seq<char>) -> Seq<char> {
    if is_absolute(path) {
        path
    } else if dir.len() == 0 || dir.last() == '/' {
        dir + path
    } else {
        dir + "/"@ + path
    }
}

/// A path below a directory: an absolute one stands for itself.
pub fn path_below(dir: &str, path: &str) -> (r: String)
    ensures
        r@ == below(dir@, path@),
{
    let d = chars(dir);
    let p = chars(path);
    if p.len() > 0 && p[0] == '/' {
        return copy(path);
    }
    let mut out = copy(dir);
    if d.len() > 0 && d[d.len() - 1] != '/' {
        out.append("/");
    }
    out.append(path);
    out
}

/// The names rise strictly.
pub open spec fn rising(names: Seq<String>) -> bool {
    forall|i: int, j: int|
        0 <= i < j < names.len() ==> le((#[trigger] names[i])@, (#[trigger] names[j])@)
            && names[i]@ != names[j]@
}

/// Put a name in its place, unless it is there already.
pub fn put_in_order(names: &mut Vec<String>, name: &str)
    requires
        rising(old(names)@),
    ensures
        rising(final(names)@),
        forall|s: Seq<char>| #[trigger]
            listed(final(names)@, s) == (listed(old(names)@, s) || s == name@),
{
    let mut i: usize = 0;
    while i < names.len() && !at_most(name, names[i].as_str())
        invariant
            i <= names.len(),
            names@ == old(names)@,
            forall|k: int| 0 <= k < i ==> !le(name@, (#[trigger] names@[k])@),
        decreases names.len() - i,
    {
        i = i + 1;
    }
    let ghost before = names@;
    if i < names.len() && same(names[i].as_str(), name) {
        assert(before[i as int]@ == name@);
        return;
    }
    let copied = copy(name);
    names.insert(i, copied);
    let ghost after = names@;
    proof {
        assert(after == before.insert(i as int, copied));
        assert forall|a: int, b: int| 0 <= a < b < after.len() implies le(
            (#[trigger] after[a])@,
            (#[trigger] after[b])@,
        ) && after[a]@ != after[b]@ by {
            let pa = if a < i { a } else { a - 1 };
            let pb = if b < i { b } else { b - 1 };
            if a != i {
                assert(after[a] == before[pa]);
            }
            if b != i {
                assert(after[b] == before[pb]);
            }
            if b == i {
                lemma_le_total(after[a]@, name@);
                lemma_le_reflexive(name@);
            } else if a == i {
                assert(before[i as int]@ != name@);
                if pb > i {
                    assert(le(before[i as int]@, before[pb]@));
                    lemma_le_transitive(name@, before[i as int]@, before[pb]@);
                    if before[pb]@ == name@ {
                        lemma_le_antisymmetric(before[i as int]@, before[pb]@);
                    }
                }
            }
        }
        assert forall|s: Seq<char>| #[trigger] listed(after, s) == (listed(before, s)
            || s == name@) by {
            if listed(before, s) {
                let k = choose|k: int| 0 <= k < before.len() && (#[trigger] before[k])@ == s;
                if k < i {
                    assert(after[k]@ == s);
                } else {
                    assert(after[k + 1]@ == s);
                }
            }
            assert(after[i as int]@ == name@);
            if listed(after, s) && s != name@ {
                let k = choose|k: int| 0 <= k < after.len() && (#[trigger] after[k])@ == s;
                if k < i {
                    assert(before[k]@ == s);
                } else {
                    assert(before[k - 1]@ == s);
                }
            }
        }
    }
}

} // verus!
