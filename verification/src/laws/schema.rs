//! The options of the configuration: how they are found, listed and described.

use vstd::prelude::*;

use crate::config_schema::{self, Field, Lookup, Wrapper};
use crate::laws::texts::{lemma_wider, lemma_within};
use crate::text;
use crate::toml_doc::{self, Pair};

verus! {

/// The first option of this key.
pub open spec fn is_named(fields: Seq<Field>, key: Seq<char>, field: Field) -> bool {
    exists|i: int|
        #![trigger fields[i]]
        0 <= i < fields.len() && fields[i] == field && field.key@ == key && (forall|j: int|
            0 <= j < i ==> (#[trigger] fields[j]).key@ != key)
}

proof fn lemma_named(fields: Seq<Field>, key: Seq<char>)
    ensures
        0 <= config_schema::position(fields, key) <= fields.len(),
        config_schema::position(fields, key) < fields.len() ==> is_named(
            fields,
            key,
            fields[config_schema::position(fields, key)],
        ),
        forall|j: int|
            0 <= j < config_schema::position(fields, key) ==> (#[trigger] fields[j]).key@ != key,
    decreases fields.len(),
{
    if fields.len() > 0 && fields[0].key@ != key {
        let rest = fields.skip(1);
        lemma_named(rest, key);
        let p = config_schema::position(rest, key);
        assert forall|j: int| 0 <= j < p + 1 implies (#[trigger] fields[j]).key@ != key by {
            if j > 0 {
                assert(rest[j - 1] == fields[j]);
            }
        }
        if p < rest.len() {
            assert(rest[p] == fields[p + 1]);
        }
    } else if fields.len() > 0 {
        assert(fields[0].key@ == key);
    }
}

proof fn lemma_is_named(fields: Seq<Field>, key: Seq<char>, field: Field)
    requires
        is_named(fields, key, field),
    ensures
        0 <= config_schema::position(fields, key) < fields.len(),
        fields[config_schema::position(fields, key)] == field,
{
    lemma_named(fields, key);
    let i = choose|i: int|
        #![trigger fields[i]]
        0 <= i < fields.len() && fields[i] == field && field.key@ == key && (forall|j: int|
            0 <= j < i ==> (#[trigger] fields[j]).key@ != key);
    let p = config_schema::position(fields, key);
    if p < i {
        if p < fields.len() {
            assert(fields[p].key@ != key);
        }
    }
    if i < p {
        assert(fields[i].key@ != key);
    }
}

proof fn lemma_undotted(s: Seq<char>)
    requires
        forall|i: int| 0 <= i < s.len() ==> #[trigger] s[i] != '.',
    ensures
        text::split(s, '.') == seq![s],
{
    text::lemma_index_of(s, '.', s.len() as int);
    text::lemma_split_step(s, '.');
}

proof fn lemma_dotted(a: Seq<char>, rest: Seq<char>)
    requires
        forall|i: int| 0 <= i < a.len() ==> #[trigger] a[i] != '.',
    ensures
        text::split(a + "."@ + rest, '.') == seq![a] + text::split(rest, '.'),
{
    reveal_strlit(".");
    let s = a + "."@ + rest;
    let n = a.len() as int;
    assert(s[n] == '.');
    assert forall|j: int| 0 <= j < n implies s[j] != '.' by {
        assert(s[j] == a[j]);
    }
    text::lemma_index_of(s, '.', n);
    text::lemma_split_step(s, '.');
    assert(s.take(n) =~= a);
    assert(s.skip(n + 1) =~= rest);
}

/// Walking on from a later segment is walking the rest.
proof fn lemma_walk(
    fields: Option<Vec<Field>>,
    a: Seq<char>,
    segments: Seq<Seq<char>>,
    i: int,
    field: Field,
)
    requires
        0 <= i < segments.len(),
    ensures
        config_schema::walk(fields, seq![a] + segments, i + 1) == Lookup::Found(field)
            <==> config_schema::walk(fields, segments, i) == Lookup::Found(field),
    decreases segments.len() - i,
{
    let all = seq![a] + segments;
    assert(all[i + 1] == segments[i]);
    if fields is Some {
        let at = config_schema::position(fields->0@, segments[i]);
        if 0 <= at < fields->0@.len() && i + 1 < segments.len() {
            lemma_walk(fields->0@[at].fields, a, segments, i + 1, field);
        }
    }
}

/// An option is found by its key, and one of a table by the table's path, a dot and its
/// key.
pub proof fn options_are_found_by_their_path<'a>(
    root: &'a Vec<Field>,
    path: &str,
    r: Result<&'a Field, String>,
    key: Seq<char>,
    field: Field,
    sub: &'a Vec<Field>,
    rest: &str,
    below: Result<&'a Field, String>,
    found: Field,
)
    requires
        call_ensures(config_schema::resolve_field, (root, path), r),
        call_ensures(config_schema::resolve_field, (sub, rest), below),
        forall|i: int| 0 <= i < key.len() ==> #[trigger] key[i] != '.',
        is_named(root@, key, field),
    ensures
        path@ == key ==> r is Ok && *r->Ok_0 == field,
        path@ == key + "."@ + rest@ && field.fields is None ==> r is Err,
        path@ == key + "."@ + rest@ && field.fields is Some && field.fields->0@ == sub@ && below is Ok
            ==> r is Ok && *r->Ok_0 == *below->Ok_0,
        path@ == key + "."@ + rest@ && field.fields is Some && field.fields->0@ == sub@
            && below is Err ==> r is Err,
{
    lemma_is_named(root@, key, field);
    lemma_undotted(key);
    lemma_dotted(key, rest@);
    let segments = text::split(rest@, '.');
    text::lemma_split_step(rest@, '.');
    assert(segments.len() > 0);
    let all = seq![key] + segments;
    assert(all[0] == key);
    if path@ == key + "."@ + rest@ && field.fields is Some && field.fields->0@ == sub@ {
        assert(text::split(path@, '.') == all);
        let at = config_schema::position(sub@, segments[0]);
        lemma_named(sub@, segments[0]);
        assert(all[1] == segments[0]);
        if below is Ok {
            lemma_walk(field.fields, key, segments, 0, *below->Ok_0);
            if segments.len() == 1 {
                assert(config_schema::walk(field.fields, segments, 0) == Lookup::Found(
                    *below->Ok_0,
                ));
            } else {
                assert(config_schema::walk(field.fields, segments, 0) == config_schema::walk(
                    sub@[at].fields,
                    segments,
                    1,
                ));
            }
        }
        if r is Ok {
            lemma_walk(field.fields, key, segments, 0, *r->Ok_0);
            assert(config_schema::walk(field.fields, segments, 0) == Lookup::Found(*r->Ok_0));
        }
    }
}

/// A key that no option has is refused.
pub proof fn unknown_options_are_refused<'a>(
    root: &'a Vec<Field>,
    path: &str,
    r: Result<&'a Field, String>,
)
    requires
        call_ensures(config_schema::resolve_field, (root, path), r),
        forall|i: int| 0 <= i < path@.len() ==> #[trigger] path@[i] != '.',
        forall|j: int| 0 <= j < root@.len() ==> (#[trigger] root@[j]).key@ != path@,
    ensures
        r is Err && r->Err_0@ == "unknown config option `"@ + path@ + "`"@,
{
    lemma_undotted(path@);
    lemma_named(root@, path@);
    let segments = text::split(path@, '.');
    assert(segments.take(1) =~= seq![path@]);
    assert(text::join(seq![path@], "."@) == path@);
}

/// What an option is called, of which type it is, and what is said of it.
pub proof fn options_are_described(
    field: &Field,
    label: String,
    doc: String,
    summary: String,
    name: &str,
    rename: Option<&str>,
    wire: &str,
    i: int,
)
    requires
        call_ensures(config_schema::type_label, (field,), label),
        call_ensures(config_schema::field_doc, (field,), doc),
        call_ensures(config_schema::doc_summary, (field,), summary),
        call_ensures(config_schema::wire_name, (name, rename), wire),
    ensures
        field.wrapper == Wrapper::Plain ==> label@ == field.inner@,
        field.wrapper == Wrapper::Optional ==> label@ == field.inner@ + " (optional)"@,
        field.wrapper == Wrapper::List ==> label@ == "array of "@ + field.inner@,
        0 <= i < field.doc@.len() ==> text::contains(doc@, text::trim(field.doc@[i]@)),
        field.doc@.len() == 0 ==> doc@.len() == 0 && summary@ == ""@,
        field.doc@.len() > 0 ==> summary@ == text::trim(field.doc@[0]@),
        rename is Some ==> wire@ == rename->0@,
        rename is None ==> wire@ == name@,
{
    let lines = config_schema::trimmed_lines(field.doc@);
    if 0 <= i < field.doc@.len() {
        crate::laws::texts::lemma_joined(lines, "\n"@, i);
    }
}

proof fn lemma_listing(fields: Seq<Field>, width: nat, k: int)
    requires
        0 <= k < fields.len(),
    ensures
        text::contains(
            config_schema::listing(fields, width),
            config_schema::listing_line(fields[k], width),
        ),
    decreases fields.len(),
{
    let front = fields.drop_last();
    let row = config_schema::listing_line(fields.last(), width);
    if k < front.len() {
        lemma_listing(front, width, k);
        assert(front[k] == fields[k]);
        lemma_wider(
            Seq::empty(),
            config_schema::listing(front, width),
            row,
            config_schema::listing_line(fields[k], width),
        );
    } else {
        lemma_within(config_schema::listing(front, width), row, Seq::empty());
    }
}

/// The line of an option begins with its key, a slash behind that of a table, and ends
/// with what is said of it.
proof fn lemma_line(field: Field, width: nat, listing: Seq<char>)
    requires
        text::contains(listing, config_schema::listing_line(field, width)),
    ensures
        field.fields is Some ==> text::contains(listing, "  "@ + (field.key@ + "/"@)),
        field.fields is None ==> text::contains(listing, "  "@ + field.key@),
        field.doc@.len() > 0 && text::trim(field.doc@[0]@).len() > 0 ==> text::contains(
            listing,
            "  "@ + text::trim(field.doc@[0]@) + "\n"@,
        ),
{
    let line = config_schema::listing_line(field, width);
    let name = config_schema::listed_name(field);
    let summary = config_schema::summary_of(field);
    let head = "  "@ + name;
    if summary.len() == 0 {
        lemma_within(Seq::empty(), head, "\n"@);
        lemma_inside(listing, line, head);
    } else {
        let pad = config_schema::spaces(width - name.len());
        let tail = "  "@ + summary + "\n"@;
        assert(line =~= head + (pad + tail));
        lemma_within(Seq::empty(), head, pad + tail);
        lemma_inside(listing, line, head);
        assert(line =~= (head + pad) + tail);
        lemma_within(head + pad, tail, Seq::empty());
        lemma_inside(listing, line, tail);
    }
    if field.doc@.len() == 0 {
        reveal_strlit("");
    }
}

proof fn lemma_inside(x: Seq<char>, y: Seq<char>, p: Seq<char>)
    requires
        text::contains(x, y),
        text::contains(y, p),
    ensures
        text::contains(x, p),
{
    let i = choose|i: int| text::at(x, y, i);
    let j = choose|j: int| text::at(y, p, j);
    assert(x.subrange(i, i + y.len()).subrange(j, j + p.len()) =~= x.subrange(
        i + j,
        i + j + p.len(),
    ));
    assert(text::at(x, p, i + j));
}

/// A listing has every option of the file or of the table that is named, each with what
/// is said of it; what is no table has none.
pub proof fn every_option_is_listed(
    root: &Vec<Field>,
    path: &str,
    field: &Field,
    r: Result<String, String>,
    all: Result<String, String>,
    k: int,
)
    requires
        call_ensures(config_schema::resolve_field, (root, path), Ok::<&Field, String>(field)),
        call_ensures(config_schema::ls, (root, Some(path)), r),
        call_ensures(config_schema::ls, (root, None::<&str>), all),
    ensures
        all is Ok && text::starts_with(all->Ok_0@, "Options in ghwf.toml:\n\n"@),
        r is Ok <==> field.fields is Some,
        r is Ok ==> text::starts_with(r->Ok_0@, "Options in "@ + path@ + ":\n\n"@),
        0 <= k < root@.len() && root@[k].fields is Some ==> text::contains(
            all->Ok_0@,
            "  "@ + (root@[k].key@ + "/"@),
        ),
        0 <= k < root@.len() && root@[k].fields is None ==> text::contains(
            all->Ok_0@,
            "  "@ + root@[k].key@,
        ),
        0 <= k < root@.len() && root@[k].doc@.len() > 0 && text::trim(root@[k].doc@[0]@).len() > 0
            ==> text::contains(all->Ok_0@, "  "@ + text::trim(root@[k].doc@[0]@) + "\n"@),
        r is Ok && 0 <= k < field.fields->0@.len() && field.fields->0@[k].fields is None
            ==> text::contains(r->Ok_0@, "  "@ + field.fields->0@[k].key@),
{
    let head = "Options in ghwf.toml:\n\n"@;
    let rows = config_schema::listing(root@, config_schema::width(root@));
    lemma_within(Seq::empty(), head, rows);
    if 0 <= k < root@.len() {
        lemma_listing(root@, config_schema::width(root@), k);
        let line = config_schema::listing_line(root@[k], config_schema::width(root@));
        lemma_wider(head, rows, Seq::empty(), line);
        lemma_line(root@[k], config_schema::width(root@), all->Ok_0@);
    }
    if r is Ok {
        let fields = field.fields->0@;
        let top = "Options in "@ + path@ + ":\n\n"@;
        let w = config_schema::width(fields);
        let under = config_schema::listing(fields, w);
        lemma_within(Seq::empty(), top, under);
        if 0 <= k < fields.len() {
            lemma_listing(fields, w, k);
            lemma_wider(top, under, Seq::empty(), config_schema::listing_line(fields[k], w));
            lemma_line(fields[k], w, r->Ok_0@);
        }
    }
}

/// What is shown of one option: its path, its type, and whether it is a table.
pub proof fn one_option_is_shown(
    root: &Vec<Field>,
    key: &str,
    field: &Field,
    label: String,
    r: Result<String, String>,
)
    requires
        call_ensures(config_schema::resolve_field, (root, key), Ok::<&Field, String>(field)),
        call_ensures(config_schema::type_label, (field,), label),
        call_ensures(config_schema::info, (root, key), r),
    ensures
        r is Ok,
        text::starts_with(r->Ok_0@, key@ + "\n  type: "@ + label@ + "\n"@),
        field.fields is Some ==> text::ends_with(
            r->Ok_0@,
            "\n  A table — run `ghwf config ls "@ + key@ + "` to list its options.\n"@,
        ),
{
    let head = key@ + "\n  type: "@ + label@ + "\n"@;
    let doc = if config_schema::doc_of(*field).len() == 0 {
        "\n  (undocumented)\n"@
    } else {
        "\n"@ + config_schema::indented(text::lines(config_schema::doc_of(*field)))
    };
    let tail = if field.fields is Some {
        "\n  A table — run `ghwf config ls "@ + key@ + "` to list its options.\n"@
    } else {
        ""@
    };
    assert(r->Ok_0@ == head + doc + tail);
    assert(head + doc + tail =~= head + (doc + tail));
    lemma_within(Seq::empty(), head, doc + tail);
    lemma_within(head + doc, tail, Seq::empty());
}

/// An option's comment is what is said of it.
pub proof fn comments_are_the_documentation(
    root: &Vec<Field>,
    key: &str,
    r: String,
    field: &Field,
    doc: String,
)
    requires
        call_ensures(config_schema::config_comment, (root, key), r),
        is_named(root@, key@, *field),
        call_ensures(config_schema::field_doc, (field,), doc),
    ensures
        r@ == doc@,
{
    lemma_is_named(root@, key@, *field);
}

/// A table of labels has each option's key with the value in its place.
pub proof fn labels_are_paired_with_their_options(
    fields: &Vec<Field>,
    values: &Vec<&str>,
    r: Vec<Pair>,
    k: int,
)
    requires
        call_ensures(config_schema::label_subtable, (fields, values), r),
        fields@.len() == values@.len(),
    ensures
        toml_doc::pairs_view(r@).len() == fields@.len(),
        0 <= k < fields@.len() ==> toml_doc::pairs_view(r@)[k].key == fields@[k].key@
            && toml_doc::pairs_view(r@)[k].value == toml_doc::Setting::Text(values@[k]@),
{
    let v = text::str_views(values@);
    if 0 <= k < fields@.len() {
        assert(v[k] == values@[k]@);
    }
}

} // verus!
