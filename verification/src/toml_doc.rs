//! TOML documents that keep their formatting and comments when edited.

use vstd::prelude::*;

use crate::text;

verus! {

/// A TOML document as `toml_edit` holds it, with its formatting and comments.
#[verifier::external_type_specification]
#[verifier::external_body]
pub struct ExDocumentMut(toml_edit::DocumentMut);

/// A TOML value as `toml_edit` holds it. [`Toml`] stands for it.
#[verifier::external_type_specification]
#[verifier::external_body]
pub struct ExValue(toml_edit::Value);

/// A value that is put into a document.
pub enum Toml {
    Text(String),
    Flag(bool),
    Count(i64),
    List(Vec<Toml>),
    /// An inline table.
    Inline(Vec<Pair>),
}

/// A value under a key.
pub struct Pair {
    pub key: String,
    pub value: Toml,
}

/// A table that is put into a document.
pub struct Section {
    pub name: String,
    pub entries: Vec<Pair>,
}

/// What stands under a key of a document's root table.
pub enum Setting {
    Text(Seq<char>),
    Flag(bool),
    Count(i64),
    List(Seq<Setting>),
    /// An inline table: its keys in order, with what stands under each.
    Inline(Seq<PairView>),
    /// A table of tables, in order, with the keys of each.
    Sections(Seq<SectionView>),
    /// Anything else.
    Other,
}

pub struct PairView {
    pub key: Seq<char>,
    pub value: Setting,
}

pub struct SectionView {
    pub name: Seq<char>,
    pub entries: Seq<PairView>,
}

/// What a table holds that these entries were put into in turn.
pub open spec fn held(entries: Seq<PairView>) -> Map<Seq<char>, Setting>
    decreases entries.len(),
{
    if entries.len() == 0 {
        Map::empty()
    } else {
        held(entries.drop_last()).insert(entries.last().key, entries.last().value)
    }
}

/// The keys of a table once something was put under `key`: a new one goes behind
/// the others.
pub open spec fn with_key(keys: Seq<Seq<char>>, key: Seq<char>) -> Seq<Seq<char>> {
    if keys.contains(key) {
        keys
    } else {
        keys.push(key)
    }
}

/// The keys of a table that these entries were put into in turn.
pub open spec fn ordered(entries: Seq<PairView>) -> Seq<Seq<char>>
    decreases entries.len(),
{
    if entries.len() == 0 {
        seq![]
    } else {
        with_key(ordered(entries.drop_last()), entries.last().key)
    }
}

/// The position of the first pair with this key, or the number of pairs.
pub open spec fn slot(pairs: Seq<PairView>, key: Seq<char>) -> int
    decreases pairs.len(),
{
    if pairs.len() == 0 || pairs[0].key == key {
        0
    } else {
        1 + slot(pairs.skip(1), key)
    }
}

/// A table once this pair was put into it: in the place of the one with its key, or
/// behind the others.
pub open spec fn with_pair(pairs: Seq<PairView>, pair: PairView) -> Seq<PairView> {
    let at = slot(pairs, pair.key);
    if at < pairs.len() {
        pairs.update(at, pair)
    } else {
        pairs.push(pair)
    }
}

/// A table that these pairs were put into in turn.
pub open spec fn entered(pairs: Seq<PairView>) -> Seq<PairView>
    decreases pairs.len(),
{
    if pairs.len() == 0 {
        seq![]
    } else {
        with_pair(entered(pairs.drop_last()), pairs.last())
    }
}

/// The position of the first section of this name, or the number of sections.
pub open spec fn section_slot(sections: Seq<SectionView>, name: Seq<char>) -> int
    decreases sections.len(),
{
    if sections.len() == 0 || sections[0].name == name {
        0
    } else {
        1 + section_slot(sections.skip(1), name)
    }
}

/// A table once this section was put into it: in the place of the one of its name, or
/// behind the others.
pub open spec fn with_section(sections: Seq<SectionView>, section: SectionView) -> Seq<
    SectionView,
> {
    let at = section_slot(sections, section.name);
    if at < sections.len() {
        sections.update(at, section)
    } else {
        sections.push(section)
    }
}

/// A table that these sections were put into in turn, and into each its entries.
pub open spec fn entered_sections(sections: Seq<SectionView>) -> Seq<SectionView>
    decreases sections.len(),
{
    if sections.len() == 0 {
        seq![]
    } else {
        let last = sections.last();
        with_section(
            entered_sections(sections.drop_last()),
            SectionView { name: last.name, entries: entered(last.entries) },
        )
    }
}

/// A text, a flag or a count.
pub open spec fn is_scalar(value: Setting) -> bool {
    value is Text || value is Flag || value is Count
}

/// Under every key stands a text, a flag or a count.
pub open spec fn all_scalar(pairs: Seq<PairView>) -> bool {
    forall|i: int| 0 <= i < pairs.len() ==> is_scalar((#[trigger] pairs[i]).value)
}

/// A text, a flag or a count, or an inline table of them.
pub open spec fn is_item(value: Setting) -> bool {
    is_scalar(value) || (value is Inline && all_scalar(value->Inline_0))
}

/// A setting of one of the known kinds that is nested no deeper than an inline table
/// in a list.
pub open spec fn is_simple(value: Setting) -> bool {
    match value {
        Setting::List(items) => forall|i: int| 0 <= i < items.len() ==> is_item(#[trigger] items[i]),
        Setting::Sections(sections) => forall|i: int|
            0 <= i < sections.len() ==> all_scalar((#[trigger] sections[i]).entries),
        Setting::Other => false,
        _ => is_item(value),
    }
}

/// Every setting is simple.
pub open spec fn all_simple(settings: Map<Seq<char>, Setting>) -> bool {
    forall|key: Seq<char>| #[trigger] settings.contains_key(key) ==> is_simple(settings[key])
}

/// The first `n` entries are simple.
pub open spec fn simple_upto(entries: Seq<PairView>, n: int) -> bool
    decreases n,
{
    n <= 0 || (is_simple(entries[n - 1].value) && simple_upto(entries, n - 1))
}

/// A table that simple entries were put into is simple.
pub proof fn lemma_held_simple(entries: Seq<PairView>, n: int)
    requires
        0 <= n <= entries.len(),
        simple_upto(entries, n),
    ensures
        all_simple(held(entries.take(n))),
    decreases n,
{
    if n > 0 {
        lemma_held_simple(entries, n - 1);
        assert(entries.take(n).drop_last() =~= entries.take(n - 1));
        assert(entries.take(n).last() == entries[n - 1]);
    } else {
        assert(entries.take(n) =~= seq![]);
    }
}

/// A comment may hold the character.
pub open spec fn is_plain(c: char) -> bool {
    c == '\t' || (c as u32 >= 32 && c as u32 != 127)
}

/// There is no control character in the text but for tabs and line feeds.
pub open spec fn is_clear(s: Seq<char>) -> bool {
    forall|i: int| 0 <= i < s.len() ==> (#[trigger] s[i]) == '\n' || is_plain(s[i])
}

/// There is none among the first `n` characters.
pub open spec fn clear_upto(s: Seq<char>, n: int) -> bool
    decreases n,
{
    n <= 0 || ((s[n - 1] == '\n' || is_plain(s[n - 1])) && clear_upto(s, n - 1))
}

pub proof fn lemma_clear(s: Seq<char>, n: int)
    requires
        clear_upto(s, n),
    ensures
        forall|i: int| 0 <= i < n ==> (#[trigger] s[i]) == '\n' || is_plain(s[i]),
    decreases n,
{
    if n > 0 {
        lemma_clear(s, n - 1);
    }
}

/// Blank lines and comments, each line ended.
pub open spec fn comment_lines(s: Seq<char>) -> bool {
    &&& is_clear(s)
    &&& s.len() > 0 ==> s.last() == '\n'
    &&& forall|i: int|
        0 <= i < s.len() && (i == 0 || s[i - 1] == '\n') ==> (#[trigger] s[i]) == '\n' || s[i]
            == '#'
}

/// Comments behind comments are comments.
pub proof fn lemma_comments_append(a: Seq<char>, b: Seq<char>)
    requires
        comment_lines(a),
        comment_lines(b),
    ensures
        comment_lines(a + b),
{
    let s = a + b;
    assert forall|i: int| 0 <= i < s.len() implies ((#[trigger] s[i]) == '\n' || is_plain(s[i])) && (
    (i == 0 || s[i - 1] == '\n') ==> s[i] == '\n' || s[i] == '#') by {
        if i < a.len() {
            assert(s[i] == a[i]);
            if i > 0 {
                assert(s[i - 1] == a[i - 1]);
            }
        } else {
            let j = i - a.len();
            assert(s[i] == b[j]);
            if j > 0 {
                assert(s[i - 1] == b[j - 1]);
            } else {
                assert(b[0] == '\n' || b[0] == '#');
            }
        }
    }
}

proof fn lemma_slot(pairs: Seq<PairView>, key: Seq<char>)
    ensures
        0 <= slot(pairs, key) <= pairs.len(),
    decreases pairs.len(),
{
    if pairs.len() > 0 {
        lemma_slot(pairs.skip(1), key);
    }
}

proof fn lemma_section_slot(sections: Seq<SectionView>, name: Seq<char>)
    ensures
        0 <= section_slot(sections, name) <= sections.len(),
    decreases sections.len(),
{
    if sections.len() > 0 {
        lemma_section_slot(sections.skip(1), name);
    }
}

/// Putting a pair in keeps a table of scalars one.
proof fn lemma_with_pair_scalar(pairs: Seq<PairView>, pair: PairView)
    requires
        all_scalar(pairs),
        is_scalar(pair.value),
    ensures
        all_scalar(with_pair(pairs, pair)),
{
    let next = with_pair(pairs, pair);
    lemma_slot(pairs, pair.key);
    assert forall|i: int| 0 <= i < next.len() implies is_scalar((#[trigger] next[i]).value) by {
        if i < pairs.len() && next[i] != pair {
            assert(next[i] == pairs[i]);
        }
    }
}

/// A table of scalars is made of scalars.
pub proof fn lemma_entered_scalar(pairs: Seq<PairView>)
    requires
        all_scalar(pairs),
    ensures
        all_scalar(entered(pairs)),
    decreases pairs.len(),
{
    if pairs.len() > 0 {
        let rest = pairs.drop_last();
        assert forall|i: int| 0 <= i < rest.len() implies is_scalar((#[trigger] rest[i]).value) by {
            assert(rest[i] == pairs[i]);
        }
        lemma_entered_scalar(rest);
        assert(is_scalar(pairs[pairs.len() - 1].value));
        lemma_with_pair_scalar(entered(rest), pairs.last());
    }
}

/// Sections of scalars make a simple table.
pub proof fn lemma_entered_sections_simple(sections: Seq<SectionView>)
    requires
        forall|i: int| 0 <= i < sections.len() ==> all_scalar((#[trigger] sections[i]).entries),
    ensures
        is_simple(Setting::Sections(entered_sections(sections))),
    decreases sections.len(),
{
    if sections.len() > 0 {
        let rest = sections.drop_last();
        assert forall|i: int| 0 <= i < rest.len() implies all_scalar(
            (#[trigger] rest[i]).entries,
        ) by {
            assert(rest[i] == sections[i]);
        }
        lemma_entered_sections_simple(rest);
        let before = entered_sections(rest);
        let last = SectionView {
            name: sections.last().name,
            entries: entered(sections.last().entries),
        };
        assert(all_scalar(sections[sections.len() - 1].entries));
        lemma_entered_scalar(sections.last().entries);
        let next = with_section(before, last);
        lemma_section_slot(before, last.name);
        assert(all_scalar(last.entries));
        assert forall|i: int| 0 <= i < before.len() implies all_scalar(
            (#[trigger] before[i]).entries,
        ) by {
            let simple = Setting::Sections(before);
            assert(is_simple(simple) && simple->Sections_0[i] == before[i]);
        }
        assert forall|i: int| 0 <= i < next.len() implies all_scalar(
            (#[trigger] next[i]).entries,
        ) by {
            if i < before.len() && next[i] != last {
                assert(next[i] == before[i]);
            }
        }
        assert(entered_sections(sections) == next);
    }
}

impl Toml {
    pub open spec fn view(self) -> Setting
        decreases self,
    {
        match self {
            Toml::Text(s) => Setting::Text(s@),
            Toml::Flag(b) => Setting::Flag(b),
            Toml::Count(n) => Setting::Count(n),
            Toml::List(items) => Setting::List(list_view(items@)),
            Toml::Inline(pairs) => Setting::Inline(entered(pairs_view(pairs@))),
        }
    }
}

impl Pair {
    pub open spec fn view(self) -> PairView
        decreases self,
    {
        PairView { key: self.key@, value: self.value.view() }
    }
}

impl Section {
    pub open spec fn view(self) -> SectionView {
        SectionView { name: self.name@, entries: pairs_view(self.entries@) }
    }
}

pub open spec fn list_view(items: Seq<Toml>) -> Seq<Setting>
    decreases items,
{
    Seq::new(
        items.len(),
        |i: int|
            if 0 <= i < items.len() {
                items[i].view()
            } else {
                Setting::Other
            },
    )
}

pub open spec fn pairs_view(pairs: Seq<Pair>) -> Seq<PairView>
    decreases pairs,
{
    Seq::new(
        pairs.len(),
        |i: int|
            if 0 <= i < pairs.len() {
                pairs[i].view()
            } else {
                PairView { key: seq![], value: Setting::Other }
            },
    )
}

pub open spec fn sections_view(sections: Seq<Section>) -> Seq<SectionView> {
    Seq::new(sections.len(), |i: int| sections[i].view())
}

/// A text for each of these.
pub open spec fn texts(items: Seq<Seq<char>>) -> Seq<Setting> {
    Seq::new(items.len(), |i: int| Setting::Text(items[i]))
}

/// What a document's root table holds under each of its keys.
pub uninterp spec fn settings(doc: toml_edit::DocumentMut) -> Map<Seq<char>, Setting>;

/// What is printed before each key of a document's root table that has something
/// printed before it.
pub uninterp spec fn prefixes(doc: toml_edit::DocumentMut) -> Map<Seq<char>, Seq<char>>;

/// The keys of a document's root table, in their order.
pub uninterp spec fn keys(doc: toml_edit::DocumentMut) -> Seq<Seq<char>>;

/// The document's layout and what is printed between its settings (white space, line
/// ends and comments) are such that its text is a document with these settings.
pub uninterp spec fn readable(doc: toml_edit::DocumentMut) -> bool;

/// A document's text.
pub uninterp spec fn text_of(doc: toml_edit::DocumentMut) -> Seq<char>;

/// What the root table of the document holds that `toml_edit` makes of a text, or
/// the error's message.
pub uninterp spec fn parsed(text: Seq<char>) -> Result<Map<Seq<char>, Setting>, Seq<char>>;

/// The text is a document with these settings.
pub open spec fn reads_as(text: Seq<char>, settings: Map<Seq<char>, Setting>) -> bool {
    parsed(text) is Ok && parsed(text)->Ok_0 == settings
}

/// `toml_edit::DocumentMut::new`: an empty document.
#[verifier::external_body]
pub(crate) fn new() -> (r: toml_edit::DocumentMut)
    ensures
        settings(r).dom().is_empty(),
        prefixes(r).dom().is_empty(),
        keys(r).len() == 0,
        readable(r),
{
    toml_edit::DocumentMut::new()
}

/// `toml_edit::DocumentMut`'s `FromStr`: the document, or the error's message.
/// Which texts are documents, and what they hold, is determined by the text alone
/// and left to the crate. A document that was read is readable.
#[verifier::external_body]
pub(crate) fn parse(text: &str) -> (r: Result<toml_edit::DocumentMut, String>)
    ensures
        match r {
            Ok(doc) => parsed(text@) is Ok && parsed(text@)->Ok_0 == settings(doc) && readable(doc),
            Err(e) => parsed(text@) is Err && parsed(text@)->Err_0 == e@,
        },
{
    text.parse::<toml_edit::DocumentMut>().map_err(|e| e.to_string())
}

/// `toml_edit::DocumentMut`'s `Display`: the document's text. The text of a readable
/// document reads back, where its settings are of the known kinds; it is not said of
/// others, since lists and inline tables may be nested deeper than the crate reads.
#[verifier::external_body]
pub(crate) fn print(doc: &toml_edit::DocumentMut) -> (r: String)
    ensures
        r@ == text_of(*doc),
        readable(*doc) && all_simple(settings(*doc)) ==> reads_as(r@, settings(*doc)),
{
    doc.to_string()
}

/// `toml_edit::Table::contains_key` on the root table: whether something stands
/// under the key.
#[verifier::external_body]
pub(crate) fn contains_key(doc: &toml_edit::DocumentMut, key: &str) -> (r: bool)
    ensures
        r == settings(*doc).contains_key(key@),
{
    doc.as_table().contains_key(key)
}

/// `toml_edit::Table::is_empty` on the root table: whether nothing stands in it.
#[verifier::external_body]
pub(crate) fn is_empty(doc: &toml_edit::DocumentMut) -> (r: bool)
    ensures
        r == settings(*doc).dom().is_empty(),
{
    doc.as_table().is_empty()
}

/// The `toml_edit::Value` for a value, one for one, items and pairs in their
/// order; of several values under one key of an inline table, the last stays.
#[verifier::external_body]
fn into_value(value: Toml) -> (r: toml_edit::Value) {
    match value {
        Toml::Text(s) => s.into(),
        Toml::Flag(b) => b.into(),
        Toml::Count(n) => n.into(),
        Toml::List(items) => items.into_iter().map(into_value).collect(),
        Toml::Inline(pairs) => pairs.into_iter().map(|p| (p.key, into_value(p.value))).collect(),
    }
}

/// `toml_edit::Table::insert` on the root table, with a value: the value stands
/// under the key, nothing is printed before the key, and nothing else changes in
/// what stands under the keys and before them. A key that was there keeps its
/// place; a new one goes behind the others. A readable document stays so.
#[verifier::external_body]
pub(crate) fn insert(doc: &mut toml_edit::DocumentMut, key: &str, value: Toml)
    ensures
        settings(*final(doc)) == settings(*old(doc)).insert(key@, value.view()),
        prefixes(*final(doc)) == prefixes(*old(doc)).remove(key@),
        keys(*final(doc)) == with_key(keys(*old(doc)), key@),
        readable(*old(doc)) ==> readable(*final(doc)),
{
    doc.as_table_mut().insert(key, toml_edit::Item::Value(into_value(value)));
}

/// `toml_edit::Table::insert` on the root table, with a table of tables whose
/// decoration is set by `toml_edit::Decor::set_prefix`: the tables stand under the
/// key, `prefix` is printed before their header, and nothing else changes in what
/// stands under the keys and before them. A key that was there keeps its place; a
/// new one goes behind the others. The tables are put in in turn, and into each its
/// entries. Behind blank lines and comments a readable document stays so.
#[verifier::external_body]
pub(crate) fn insert_sections(
    doc: &mut toml_edit::DocumentMut,
    key: &str,
    sections: Vec<Section>,
    prefix: &str,
)
    ensures
        settings(*final(doc)) == settings(*old(doc)).insert(
            key@,
            Setting::Sections(entered_sections(sections_view(sections@))),
        ),
        prefixes(*final(doc)) == prefixes(*old(doc)).insert(key@, prefix@),
        keys(*final(doc)) == with_key(keys(*old(doc)), key@),
        readable(*old(doc)) && comment_lines(prefix@) ==> readable(*final(doc)),
{
    let mut table = toml_edit::Table::new();
    for section in sections {
        let entries = section.entries.into_iter().map(|p| (p.key, into_value(p.value)));
        let inner: toml_edit::Table = entries.collect();
        table.insert(&section.name, toml_edit::Item::Table(inner));
    }
    table.decor_mut().set_prefix(prefix);
    doc.as_table_mut().insert(key, toml_edit::Item::Table(table));
}

/// `toml_edit::Decor::set_prefix` on a key of the root table that has a value:
/// what is printed before the key. With blank lines and comments there, a readable
/// document stays so.
#[verifier::external_body]
pub(crate) fn set_prefix(doc: &mut toml_edit::DocumentMut, key: &str, prefix: &str)
    requires
        settings(*old(doc)).contains_key(key@),
        !(settings(*old(doc))[key@] is Sections) && !(settings(*old(doc))[key@] is Other),
    ensures
        settings(*final(doc)) == settings(*old(doc)),
        prefixes(*final(doc)) == prefixes(*old(doc)).insert(key@, prefix@),
        keys(*final(doc)) == keys(*old(doc)),
        readable(*old(doc)) && comment_lines(prefix@) ==> readable(*final(doc)),
{
    doc.as_table_mut().key_mut(key).unwrap().leaf_decor_mut().set_prefix(prefix);
}

/// A list of texts.
pub fn text_list(items: &[String]) -> (r: Toml)
    ensures
        r.view() == Setting::List(texts(text::views(items@))),
{
    let mut out: Vec<Toml> = Vec::new();
    let mut i: usize = 0;
    while i < items.len()
        invariant
            i <= items.len(),
            out@.len() == i,
            forall|k: int|
                0 <= k < i ==> (#[trigger] out@[k]).view() == Setting::Text(items@[k]@),
        decreases items.len() - i,
    {
        out.push(Toml::Text(text::copy(items[i].as_str())));
        i = i + 1;
    }
    assert(list_view(out@) =~= texts(text::views(items@)));
    Toml::List(out)
}

} // verus!
