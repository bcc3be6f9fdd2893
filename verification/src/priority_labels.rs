//! Priority labels and their colours.

use vstd::prelude::*;
use vstd::utf8::*;

use crate::store;
use crate::text;

verus! {

/// The colour and description of a recognised name, in lower case. The amber is
/// GitHub's bright one, and the pale one a step down from it.
pub open spec fn known(name: Seq<char>) -> Option<(&'static str, &'static str)> {
    if text::lower(name) == text::lower("high-priority"@) {
        Some(("fbca04", "High priority"))
    } else if text::lower(name) == text::lower("medium-priority"@) {
        Some(("fef2c0", "Medium priority"))
    } else {
        None
    }
}

/// The recognised colour and description for `name` (case-insensitive), if any.
pub fn recognised(name: &str) -> (r: Option<(&'static str, &'static str)>)
    ensures
        r == known(name@),
{
    if text::same_ignoring_case(name, "high-priority") {
        Some(("fbca04", "High priority"))
    } else if text::same_ignoring_case(name, "medium-priority") {
        Some(("fef2c0", "Medium priority"))
    } else {
        None
    }
}

/// Where the FNV-1a hash starts.
pub const FNV_START: u64 = 0xcbf2_9ce4_8422_2325;

/// What the FNV-1a hash multiplies by.
pub const FNV_PRIME: u64 = 0x0000_0100_0000_01b3;

/// The 64-bit FNV-1a hash of `bytes`.
pub open spec fn fnv1a(bytes: Seq<u8>) -> u64
    decreases bytes.len(),
{
    if bytes.len() == 0 {
        FNV_START
    } else {
        (fnv1a(bytes.drop_last()) ^ (bytes.last() as u64)).wrapping_mul(FNV_PRIME)
    }
}

/// The 64-bit FNV-1a hash of `bytes`.
fn hash_bytes(bytes: &[u8]) -> (r: u64)
    ensures
        r == fnv1a(bytes@),
{
    let mut hash: u64 = FNV_START;
    let mut i: usize = 0;
    assert(bytes@.take(0) =~= seq![]);
    while i < bytes.len()
        invariant
            i <= bytes.len(),
            hash == fnv1a(bytes@.take(i as int)),
        decreases bytes.len() - i,
    {
        assert(bytes@.take(i + 1).drop_last() =~= bytes@.take(i as int));
        assert(bytes@.take(i + 1).last() == bytes@[i as int]);
        hash = (hash ^ (bytes[i] as u64)).wrapping_mul(FNV_PRIME);
        i = i + 1;
    }
    assert(bytes@.take(bytes@.len() as int) =~= bytes@);
    hash
}

/// The low 24 bits of `n` as three bytes, the highest first.
pub open spec fn low_bytes(n: u64) -> Seq<u8> {
    seq![(n / 0x1_0000 % 0x100) as u8, (n / 0x100 % 0x100) as u8, (n % 0x100) as u8]
}

/// The colour that a name's hash gives: its low 24 bits, in six hexadecimal
/// digits.
pub open spec fn hashed_colour(name: Seq<char>) -> Seq<char> {
    store::hex_of(low_bytes(fnv1a(encode_utf8(text::lower(name)))))
}

/// Deterministic six-digit colour from a label name, so a given name always
/// lands on the same colour across runs.
pub fn digest_colour(name: &str) -> (r: String)
    ensures
        r@ == hashed_colour(name@),
        r@.len() == 6,
{
    let low = text::lowered(name);
    let hash: u64 = hash_bytes(low.as_str().as_bytes());
    let mut bytes: Vec<u8> = Vec::new();
    bytes.push((hash / 0x1_0000 % 0x100) as u8);
    bytes.push((hash / 0x100 % 0x100) as u8);
    bytes.push((hash % 0x100) as u8);
    assert(bytes@ =~= low_bytes(hash));
    proof {
        store::lemma_hex_length(bytes@);
    }
    store::hex(bytes.as_slice())
}

/// A name's colour does not depend on the case of its letters.
pub proof fn colours_ignore_case(a: Seq<char>, b: Seq<char>)
    requires
        text::lower(a) == text::lower(b),
    ensures
        colour(a) == colour(b),
        description(a) == description(b),
{
}

/// The colour of a label.
pub open spec fn colour(name: Seq<char>) -> Seq<char> {
    match known(name) {
        Some((color, _)) => color@,
        None => hashed_colour(name),
    }
}

/// The description of a label.
pub open spec fn description(name: Seq<char>) -> Seq<char> {
    match known(name) {
        Some((_, description)) => description@,
        None => ""@,
    }
}

/// The colour to create `name` with: its recognised colour if we know the name,
/// otherwise a colour derived deterministically from the name.
pub fn colour_for(name: &str) -> (r: String)
    ensures
        r@ == colour(name@),
{
    match recognised(name) {
        Some((color, _)) => text::copy(color),
        None => digest_colour(name),
    }
}

/// The description to create `name` with: the recognised one, else empty.
pub fn description_for(name: &str) -> (r: &'static str)
    ensures
        r@ == description(name@),
{
    match recognised(name) {
        Some((_, description)) => description,
        None => "",
    }
}

/// A label to create.
pub struct NewLabel {
    pub name: String,
    pub color: String,
    pub description: &'static str,
}

pub open spec fn new_label_views(v: Seq<NewLabel>) -> Seq<(Seq<char>, Seq<char>, Seq<char>)> {
    Seq::new(v.len(), |i: int| (v[i].name@, v[i].color@, v[i].description@))
}

/// The names of `labels` that are not, in lower case, in `existing`, each with
/// its colour and description.
pub open spec fn absent(labels: Seq<String>, existing: Seq<String>) -> Seq<
    (Seq<char>, Seq<char>, Seq<char>),
>
    decreases labels.len(),
{
    if labels.len() == 0 {
        seq![]
    } else {
        let before = absent(labels.drop_last(), existing);
        let name = labels.last()@;
        if text::listed(existing, text::lower(name)) {
            before
        } else {
            before.push((name, colour(name), description(name)))
        }
    }
}

/// The configured labels absent from `existing` (a list of lower-cased names),
/// each paired with the colour and description to create it with. GitHub label
/// names are unique case-insensitively, so a case-only difference counts as
/// already present.
pub fn labels_to_create(labels: &[String], existing: &Vec<String>) -> (r: Vec<NewLabel>)
    ensures
        new_label_views(r@) == absent(labels@, existing@),
{
    let mut out: Vec<NewLabel> = Vec::new();
    let mut i: usize = 0;
    assert(labels@.take(0) =~= seq![]);
    assert(new_label_views(out@) =~= seq![]);
    while i < labels.len()
        invariant
            i <= labels.len(),
            new_label_views(out@) == absent(labels@.take(i as int), existing@),
        decreases labels.len() - i,
    {
        assert(labels@.take(i + 1).drop_last() =~= labels@.take(i as int));
        assert(labels@.take(i + 1).last() == labels@[i as int]);
        let name = labels[i].as_str();
        let low = text::lowered(name);
        if !text::member(existing, low.as_str()) {
            let ghost before = out@;
            let label = NewLabel {
                name: text::copy(name),
                color: colour_for(name),
                description: description_for(name),
            };
            out.push(label);
            assert(new_label_views(out@) =~= new_label_views(before).push(
                (label.name@, label.color@, label.description@),
            ));
        }
        i = i + 1;
    }
    assert(labels@.take(labels@.len() as int) =~= labels@);
    out
}

/// A label of this name is listed, up to case.
pub open spec fn is_listed(listed: Seq<String>, name: Seq<char>) -> bool {
    exists|i: int|
        0 <= i < listed.len() && text::lower((#[trigger] listed[i])@) == text::lower(name)
}

/// The names of `labels` that are not listed, each with its colour and description.
pub open spec fn missing(labels: Seq<String>, listed: Seq<String>) -> Seq<
    (Seq<char>, Seq<char>, Seq<char>),
>
    decreases labels.len(),
{
    if labels.len() == 0 {
        seq![]
    } else {
        let before = missing(labels.drop_last(), listed);
        let name = labels.last()@;
        if is_listed(listed, name) {
            before
        } else {
            before.push((name, colour(name), description(name)))
        }
    }
}

/// The lower-cased names are those listed.
spec fn lowers(existing: Seq<String>, listed: Seq<String>) -> bool {
    &&& existing.len() == listed.len()
    &&& forall|i: int| 0 <= i < listed.len() ==> (#[trigger] existing[i])@ == text::lower(listed[i]@)
}

proof fn lemma_absent_is_missing(labels: Seq<String>, existing: Seq<String>, listed: Seq<String>)
    requires
        lowers(existing, listed),
    ensures
        absent(labels, existing) == missing(labels, listed),
    decreases labels.len(),
{
    if labels.len() > 0 {
        lemma_absent_is_missing(labels.drop_last(), existing, listed);
        let low = text::lower(labels.last()@);
        if text::listed(existing, low) {
            let i = choose|i: int| 0 <= i < existing.len() && (#[trigger] existing[i])@ == low;
            assert(text::lower(listed[i]@) == low);
        }
        if is_listed(listed, labels.last()@) {
            let i = choose|i: int|
                0 <= i < listed.len() && text::lower((#[trigger] listed[i])@) == low;
            assert(existing[i]@ == low);
        }
    }
}

/// The configured labels to create in a repo that lists these: an existing label of
/// the same name, up to case, is adopted and never recoloured.
pub fn create_in_repo(labels: &[String], listed: &[String]) -> (r: Vec<NewLabel>)
    ensures
        new_label_views(r@) == missing(labels@, listed@),
{
    let mut existing: Vec<String> = Vec::new();
    let mut i: usize = 0;
    while i < listed.len()
        invariant
            i <= listed.len(),
            existing@.len() == i,
            forall|k: int|
                0 <= k < i ==> (#[trigger] existing@[k])@ == text::lower(listed@[k]@),
        decreases listed.len() - i,
    {
        existing.push(text::lowered(listed[i].as_str()));
        i = i + 1;
    }
    proof {
        lemma_absent_is_missing(labels@, existing@, listed@);
    }
    labels_to_create(labels, &existing)
}

/// Creating the labels is idempotent: once what was missing is listed too, nothing
/// is left to create.
pub proof fn creating_labels_is_idempotent(
    labels: Seq<String>,
    listed: Seq<String>,
    after: Seq<String>,
)
    requires
        forall|i: int| 0 <= i < listed.len() ==> is_listed(after, (#[trigger] listed[i])@),
        forall|i: int|
            0 <= i < missing(labels, listed).len() ==> is_listed(
                after,
                (#[trigger] missing(labels, listed)[i]).0,
            ),
    ensures
        missing(labels, after).len() == 0,
    decreases labels.len(),
{
    if labels.len() > 0 {
        let init = labels.drop_last();
        let name = labels.last()@;
        let all = missing(labels, listed);
        let before = missing(init, listed);
        assert forall|i: int| 0 <= i < before.len() implies is_listed(after, (#[trigger] before[i]).0) by {
            assert(all[i] == before[i]);
        }
        creating_labels_is_idempotent(init, listed, after);
        if is_listed(listed, name) {
            let i = choose|i: int|
                0 <= i < listed.len() && text::lower((#[trigger] listed[i])@) == text::lower(name);
            assert(is_listed(after, listed[i]@));
        } else {
            assert(all.last().0 == name);
            assert(all[all.len() - 1] == all.last());
        }
    }
}

pub const NOTHING_CONFIGURED: &'static str =
    "No `priority_labels` configured; nothing to create. \
     Set some (e.g. via `ghwf config init`) first.";

pub const NOTHING_TO_CREATE: &'static str =
    "All configured priority labels already exist; nothing to create.";

/// What `config priority-labels` reports where it creates nothing: that none is
/// configured, or that all exist.
pub fn configure(configured: usize, created: usize) -> (r: Option<&'static str>)
    ensures
        r == (if configured == 0 {
            Some(NOTHING_CONFIGURED)
        } else if created == 0 {
            Some(NOTHING_TO_CREATE)
        } else {
            None
        }),
{
    if configured == 0 {
        Some(NOTHING_CONFIGURED)
    } else if created == 0 {
        Some(NOTHING_TO_CREATE)
    } else {
        None
    }
}

} // verus!
