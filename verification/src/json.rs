//! JSON documents.

use vstd::prelude::*;

use crate::text;

verus! {

/// A number of a JSON document that is no integer, as `serde_json` holds it. It is
/// carried through unread.
#[verifier::external_type_specification]
#[verifier::external_body]
pub struct ExNumber(serde_json::Number);

/// A JSON document as `serde_json` holds it. [`Json`] stands for it.
#[verifier::external_type_specification]
#[verifier::external_body]
pub struct ExValue(serde_json::Value);

/// A JSON document.
pub enum Json {
    Null,
    Bool(bool),
    /// An integer that is not negative.
    Count(u64),
    /// An integer below zero.
    Negative(i64),
    /// Any other number.
    Number(serde_json::Number),
    Text(String),
    Array(Vec<Json>),
    Object(Vec<Member>),
}

/// A member of an object.
pub struct Member {
    pub key: String,
    pub value: Json,
}

/// A JSON document in its mathematical form.
pub enum JsonView {
    Null,
    Bool(bool),
    Integer(int),
    /// A number that is no integer.
    Number(serde_json::Number),
    Text(Seq<char>),
    Array(Seq<JsonView>),
    Object(Seq<MemberView>),
}

pub struct MemberView {
    pub key: Seq<char>,
    pub value: JsonView,
}

impl Json {
    pub open spec fn view(self) -> JsonView
        decreases self,
    {
        match self {
            Json::Null => JsonView::Null,
            Json::Bool(b) => JsonView::Bool(b),
            Json::Count(n) => JsonView::Integer(n as int),
            Json::Negative(n) => JsonView::Integer(n as int),
            Json::Number(n) => JsonView::Number(n),
            Json::Text(s) => JsonView::Text(s@),
            Json::Array(items) => JsonView::Array(items_view(items@)),
            Json::Object(members) => JsonView::Object(members_view(members@)),
        }
    }
}

pub open spec fn items_view(items: Seq<Json>) -> Seq<JsonView>
    decreases items,
{
    Seq::new(
        items.len(),
        |i: int|
            if 0 <= i < items.len() {
                items[i].view()
            } else {
                JsonView::Null
            },
    )
}

pub open spec fn members_view(members: Seq<Member>) -> Seq<MemberView>
    decreases members,
{
    Seq::new(
        members.len(),
        |i: int|
            if 0 <= i < members.len() {
                members[i].view()
            } else {
                MemberView { key: seq![], value: JsonView::Null }
            },
    )
}

impl Member {
    pub open spec fn view(self) -> MemberView
        decreases self,
    {
        MemberView { key: self.key@, value: self.value.view() }
    }
}

/// What `serde_json::from_str` makes of a text: a document, or an error message.
pub uninterp spec fn parsed(text: Seq<char>) -> Result<JsonView, Seq<char>>;

/// What `serde_json::to_string_pretty` makes of a document: its text, or an error
/// message.
pub uninterp spec fn printed(doc: JsonView) -> Result<Seq<char>, Seq<char>>;

/// A `serde_json::Value`, taken over one for one: each kind of value becomes the
/// variant of the same name, each of the three kinds of number (`as_u64` and `as_i64`
/// tell them apart) a variant of its own, and the items of arrays and objects are
/// taken over in their order.
#[verifier::external_body]
fn from_value(value: serde_json::Value) -> (r: Json) {
    match value {
        serde_json::Value::Null => Json::Null,
        serde_json::Value::Bool(b) => Json::Bool(b),
        serde_json::Value::Number(n) => match (n.as_u64(), n.as_i64()) {
            (Some(count), _) => Json::Count(count),
            (None, Some(negative)) => Json::Negative(negative),
            (None, None) => Json::Number(n),
        },
        serde_json::Value::String(s) => Json::Text(s),
        serde_json::Value::Array(items) => Json::Array(items.into_iter().map(from_value).collect()),
        serde_json::Value::Object(members) => Json::Object(
            members.into_iter().map(|(key, v)| Member { key, value: from_value(v) }).collect(),
        ),
    }
}

/// The `serde_json::Value` for a document, one for one: the reverse of
/// [`from_value`].
#[verifier::external_body]
fn into_value(doc: Json) -> (r: serde_json::Value) {
    match doc {
        Json::Null => serde_json::Value::Null,
        Json::Bool(b) => serde_json::Value::Bool(b),
        Json::Count(n) => serde_json::Value::from(n),
        Json::Negative(n) => serde_json::Value::from(n),
        Json::Number(n) => serde_json::Value::Number(n),
        Json::Text(s) => serde_json::Value::String(s),
        Json::Array(items) => serde_json::Value::Array(items.into_iter().map(into_value).collect()),
        Json::Object(members) => serde_json::Value::Object(
            members.into_iter().map(|m| (m.key, into_value(m.value))).collect(),
        ),
    }
}

/// No two members have the same key.
pub open spec fn distinct(members: Seq<MemberView>) -> bool {
    forall|i: int, j: int|
        0 <= i < j < members.len() ==> (#[trigger] members[i]).key != (#[trigger] members[j]).key
}

/// The keys of every object are distinct, and arrays and objects are nested at most
/// `depth` deep.
pub open spec fn tidy(v: JsonView, depth: nat) -> bool
    decreases v,
{
    match v {
        JsonView::Array(items) => depth > 0 && forall|i: int|
            0 <= i < items.len() ==> tidy(#[trigger] items[i], (depth - 1) as nat),
        JsonView::Object(members) => depth > 0 && distinct(members) && forall|i: int|
            0 <= i < members.len() ==> tidy((#[trigger] members[i]).value, (depth - 1) as nat),
        _ => true,
    }
}

/// Every number in the document is an integer.
pub open spec fn integral(v: JsonView) -> bool
    decreases v,
{
    match v {
        JsonView::Number(_) => false,
        JsonView::Array(items) => forall|i: int|
            0 <= i < items.len() ==> integral(#[trigger] items[i]),
        JsonView::Object(members) => forall|i: int|
            0 <= i < members.len() ==> integral((#[trigger] members[i]).value),
        _ => true,
    }
}

/// The documents are the same but for the order of members.
pub open spec fn alike(a: JsonView, b: JsonView) -> bool
    decreases a,
{
    match (a, b) {
        (JsonView::Null, JsonView::Null) => true,
        (JsonView::Bool(x), JsonView::Bool(y)) => x == y,
        (JsonView::Integer(x), JsonView::Integer(y)) => x == y,
        (JsonView::Number(x), JsonView::Number(y)) => x == y,
        (JsonView::Text(x), JsonView::Text(y)) => x == y,
        (JsonView::Array(x), JsonView::Array(y)) => x.len() == y.len() && forall|i: int|
            #![trigger x[i], y[i]]
            0 <= i < x.len() ==> alike(x[i], y[i]),
        (JsonView::Object(x), JsonView::Object(y)) => {
            &&& distinct(x) && distinct(y)
            &&& forall|key: Seq<char>| #[trigger] keyed(x, key) == keyed(y, key)
            &&& forall|i: int, j: int|
                #![trigger x[i], y[j]]
                0 <= i < x.len() && 0 <= j < y.len() && x[i].key == y[j].key ==> alike(
                    x[i].value,
                    y[j].value,
                )
        },
        _ => false,
    }
}

/// There is a member with this key.
pub open spec fn keyed(members: Seq<MemberView>, key: Seq<char>) -> bool {
    exists|i: int| 0 <= i < members.len() && (#[trigger] members[i]).key == key
}

/// The text is not blank, and what is read from it is like the document.
pub open spec fn reads_back(text: Seq<char>, doc: JsonView) -> bool {
    text::trim(text).len() > 0 && parsed(text) is Ok && alike(doc, parsed(text)->Ok_0)
}

/// `serde_json::from_str`: the document, or the error's message. Which texts are
/// documents, and which documents they are, is determined by the text alone and
/// left to the crate. A key occurs once in an object, and arrays and objects are
/// nested less than 128 deep, which is the crate's limit.
#[verifier::external_body]
pub(crate) fn read(text: &str) -> (r: Result<Json, String>)
    ensures
        match r {
            Ok(doc) => parsed(text@) == Ok::<JsonView, Seq<char>>(doc.view()) && tidy(
                doc.view(),
                127,
            ),
            Err(e) => parsed(text@) == Err::<JsonView, Seq<char>>(e@),
        },
{
    serde_json::from_str::<serde_json::Value>(text).map(from_value).map_err(|e| e.to_string())
}

/// `serde_json::to_string_pretty`: the document's text, determined by the
/// document alone. How it is laid out is left to the crate. With a line end behind
/// it the text reads back, where the document is nested within the limit, no key
/// occurs twice and every number is an integer. It is not said of documents with other
/// numbers: one that is no integer may be read back as its neighbour.
#[verifier::external_body]
pub(crate) fn write(doc: Json) -> (r: Result<String, String>)
    ensures
        match r {
            Ok(s) => printed(doc.view()) == Ok::<Seq<char>, Seq<char>>(s@) && (tidy(
                doc.view(),
                127,
            ) && integral(doc.view()) ==> reads_back(s@ + "\n"@, doc.view())),
            Err(e) => printed(doc.view()) == Err::<Seq<char>, Seq<char>>(e@),
        },
{
    serde_json::to_string_pretty(&into_value(doc)).map_err(|e| e.to_string())
}

/// The position of the first member with this key, or the number of members.
pub open spec fn position(members: Seq<MemberView>, key: Seq<char>) -> int
    decreases members.len(),
{
    if members.len() == 0 || members[0].key == key {
        0
    } else {
        1 + position(members.skip(1), key)
    }
}

/// The value under a key.
pub open spec fn get(members: Seq<MemberView>, key: Seq<char>) -> Option<JsonView> {
    let at = position(members, key);
    if at < members.len() {
        Some(members[at].value)
    } else {
        None
    }
}

/// The members with this value under a key.
pub open spec fn set(members: Seq<MemberView>, key: Seq<char>, value: JsonView) -> Seq<MemberView> {
    let at = position(members, key);
    if at < members.len() {
        members.update(at, MemberView { key, value })
    } else {
        members.push(MemberView { key, value })
    }
}

pub proof fn lemma_position(members: Seq<MemberView>, key: Seq<char>)
    ensures
        0 <= position(members, key) <= members.len(),
        position(members, key) < members.len() ==> members[position(members, key)].key == key,
        forall|j: int| 0 <= j < position(members, key) ==> members[j].key != key,
    decreases members.len(),
{
    if members.len() > 0 && members[0].key != key {
        let rest = members.skip(1);
        lemma_position(rest, key);
        assert forall|j: int| 0 <= j < position(members, key) implies members[j].key != key by {
            if j > 0 {
                assert(rest[j - 1] == members[j]);
            }
        }
    }
}

pub proof fn lemma_position_is(members: Seq<MemberView>, key: Seq<char>, at: int)
    requires
        0 <= at <= members.len(),
        forall|j: int| 0 <= j < at ==> members[j].key != key,
        at == members.len() || members[at].key == key,
    ensures
        position(members, key) == at,
{
    lemma_position(members, key);
}

/// What was put under a key is found there, and nothing else changes.
pub proof fn lemma_set_get(
    members: Seq<MemberView>,
    key: Seq<char>,
    value: JsonView,
    other: Seq<char>,
)
    ensures
        get(set(members, key, value), key) == Some(value),
        other != key ==> get(set(members, key, value), other) == get(members, other),
{
    lemma_position(members, key);
    let next = set(members, key, value);
    let at = position(members, key);
    lemma_position_is(next, key, at);
    if other != key {
        lemma_position(members, other);
        let o = position(members, other);
        if o < members.len() {
            lemma_position_is(next, other, o);
        } else {
            lemma_position_is(next, other, next.len() as int);
        }
    }
}

/// A member with the key is found under it.
proof fn lemma_get_keyed(members: Seq<MemberView>, key: Seq<char>)
    ensures
        get(members, key) is Some == keyed(members, key),
        distinct(members) ==> forall|i: int|
            0 <= i < members.len() && (#[trigger] members[i]).key == key ==> get(members, key)
                == Some(members[i].value),
{
    lemma_position(members, key);
    let at = position(members, key);
    if at < members.len() {
        assert(members[at].key == key);
    }
}

/// Objects that are alike hold values that are alike under every key.
pub proof fn lemma_get_alike(x: Seq<MemberView>, y: Seq<MemberView>, key: Seq<char>)
    requires
        alike(JsonView::Object(x), JsonView::Object(y)),
    ensures
        match (get(x, key), get(y, key)) {
            (Some(a), Some(b)) => alike(a, b),
            (None, None) => true,
            _ => false,
        },
{
    lemma_get_keyed(x, key);
    lemma_get_keyed(y, key);
    lemma_position(x, key);
    lemma_position(y, key);
    assert(keyed(x, key) == keyed(y, key));
    let i = position(x, key);
    let j = position(y, key);
    if i < x.len() && j < y.len() {
        assert(x[i].key == y[j].key);
    }
}

/// Putting a tidy value under a key keeps an object tidy.
pub proof fn lemma_set_tidy(members: Seq<MemberView>, key: Seq<char>, value: JsonView, depth: nat)
    requires
        tidy(JsonView::Object(members), depth),
        tidy(value, (depth - 1) as nat),
    ensures
        tidy(JsonView::Object(set(members, key, value)), depth),
{
    lemma_position(members, key);
    let next = set(members, key, value);
    let at = position(members, key);
    assert forall|i: int, j: int| 0 <= i < j < next.len() implies (#[trigger] next[i]).key
        != (#[trigger] next[j]).key by {
        if i < members.len() && j < members.len() {
            assert(members[i].key != members[j].key);
        }
    }
    assert forall|i: int| 0 <= i < next.len() implies tidy(
        (#[trigger] next[i]).value,
        (depth - 1) as nat,
    ) by {
        if i != at {
            assert(next[i] == members[i]);
        }
    }
}

/// What is under a key of a tidy object is tidy.
pub proof fn lemma_get_tidy(members: Seq<MemberView>, key: Seq<char>, depth: nat)
    requires
        tidy(JsonView::Object(members), depth),
    ensures
        get(members, key) matches Some(v) ==> tidy(v, (depth - 1) as nat),
{
    lemma_position(members, key);
    let at = position(members, key);
    if at < members.len() {
        assert(tidy(members[at].value, (depth - 1) as nat));
    }
}

/// The items of a tidy array are tidy.
pub proof fn lemma_item_tidy(items: Seq<JsonView>, k: int, depth: nat)
    requires
        tidy(JsonView::Array(items), depth),
        0 <= k < items.len(),
    ensures
        tidy(items[k], (depth - 1) as nat),
{
    let v = JsonView::Array(items);
    assert(v->Array_0[k] == items[k]);
}

pub proof fn lemma_members_push(members: Seq<Member>, m: Member)
    ensures
        members_view(members.push(m)) == members_view(members).push(m.view()),
{
    assert(members_view(members.push(m)) =~= members_view(members).push(m.view()));
}

pub proof fn lemma_items_push(items: Seq<Json>, item: Json)
    ensures
        items_view(items.push(item)) == items_view(items).push(item.view()),
{
    assert(items_view(items.push(item)) =~= items_view(items).push(item.view()));
}

/// A member with this key and value.
pub fn member(key: &str, value: Json) -> (r: Member)
    ensures
        r.view() == (MemberView { key: key@, value: value.view() }),
{
    Member { key: text::copy(key), value }
}

/// A text.
pub fn string(s: &str) -> (r: Json)
    ensures
        r.view() == JsonView::Text(s@),
{
    Json::Text(text::copy(s))
}

/// Put a member behind the others.
pub fn push_member(members: &mut Vec<Member>, key: &str, value: Json)
    ensures
        members_view(final(members)@) == members_view(old(members)@).push(
            MemberView { key: key@, value: value.view() },
        ),
{
    let m = member(key, value);
    proof {
        lemma_members_push(members@, m);
    }
    members.push(m);
}

/// Put an item behind the others.
pub fn push_item(items: &mut Vec<Json>, item: Json)
    ensures
        items_view(final(items)@) == items_view(old(items)@).push(item.view()),
{
    proof {
        lemma_items_push(items@, item);
    }
    items.push(item);
}

/// The position of the first member with this key.
pub fn find(members: &Vec<Member>, key: &str) -> (r: Option<usize>)
    ensures
        match r {
            Some(i) => i < members@.len() && i == position(members_view(members@), key@)
                && members@[i as int].key@ == key@,
            None => position(members_view(members@), key@) == members@.len(),
        },
{
    let ghost all = members_view(members@);
    let mut i: usize = 0;
    while i < members.len()
        invariant
            i <= members.len(),
            all == members_view(members@),
            forall|j: int| 0 <= j < i ==> (#[trigger] all[j]).key != key@,
        decreases members.len() - i,
    {
        assert(all[i as int].key == members@[i as int].key@);
        if text::same(members[i].key.as_str(), key) {
            proof {
                lemma_position_is(all, key@, i as int);
            }
            return Some(i);
        }
        i = i + 1;
    }
    proof {
        lemma_position_is(all, key@, all.len() as int);
    }
    None
}

/// Put a value under a key: in the place of the one that stands there, or behind
/// the others.
pub fn put(members: &mut Vec<Member>, key: &str, value: Json)
    ensures
        members_view(final(members)@) == set(members_view(old(members)@), key@, value.view()),
{
    let ghost before = members_view(members@);
    let ghost v = value.view();
    match find(members, key) {
        Some(i) => {
            let copied = text::copy(key);
            let _ = members.remove(i);
            members.insert(i, Member { key: copied, value });
            assert(members_view(members@) =~= before.update(
                i as int,
                MemberView { key: key@, value: v },
            ));
        },
        None => {
            push_member(members, key, value);
        },
    }
}

} // verus!
