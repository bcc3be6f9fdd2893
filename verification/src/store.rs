//! Hashes of content, and sets of ids.

use std::collections::{BTreeMap, BTreeSet};
use vstd::prelude::*;
use vstd::utf8::*;

use crate::text;

verus! {

/// Whether `ids` holds `id`.
pub fn holds(ids: &BTreeSet<u64>, id: u64) -> (r: bool)
    ensures
        r == ids@.contains(id),
{
    broadcast use {vstd::std_specs::btree::group_btree_axioms, vstd::laws_cmp::group_laws_cmp};

    ids.contains(&id)
}

/// Put `id` in `ids`.
pub fn put(ids: &mut BTreeSet<u64>, id: u64)
    ensures
        final(ids)@ == old(ids)@.insert(id),
{
    broadcast use {vstd::std_specs::btree::group_btree_axioms, vstd::laws_cmp::group_laws_cmp};

    ids.insert(id);
}

/// What `map` holds under `id`.
pub fn lookup<'a>(map: &'a BTreeMap<u64, String>, id: u64) -> (r: Option<&'a String>)
    ensures
        match r {
            Some(s) => map@.contains_key(id) && *s == map@[id],
            None => !map@.contains_key(id),
        },
{
    broadcast use {vstd::std_specs::btree::group_btree_axioms, vstd::laws_cmp::group_laws_cmp};

    map.get(&id)
}

/// The SHA-256 digest of `data`, as `sha2::Sha256` computes it.
pub uninterp spec fn sha256(data: Seq<u8>) -> Seq<u8>;

/// `sha2::Sha256::digest`: the digest is determined by the data alone and has
/// 32 bytes. Which bytes they are is left to the crate.
#[verifier::external_body]
pub(crate) fn digest(data: &[u8]) -> (r: Vec<u8>)
    ensures
        r@ == sha256(data@),
        r@.len() == 32,
{
    <sha2::Sha256 as sha2::Digest>::digest(data).to_vec()
}

/// The hexadecimal digit that stands for `n`.
pub open spec fn hex_digit(n: nat) -> char {
    if n < 10 {
        (48 + n) as char
    } else {
        (87 + n) as char
    }
}

/// `bytes` in lower-case hexadecimal notation, two digits for each.
pub open spec fn hex_of(bytes: Seq<u8>) -> Seq<char>
    decreases bytes.len(),
{
    if bytes.len() == 0 {
        seq![]
    } else {
        hex_of(bytes.drop_last()).push(hex_digit((bytes.last() / 16) as nat)).push(
            hex_digit((bytes.last() % 16) as nat),
        )
    }
}

pub proof fn lemma_hex_length(bytes: Seq<u8>)
    ensures
        hex_of(bytes).len() == 2 * bytes.len(),
    decreases bytes.len(),
{
    if bytes.len() > 0 {
        lemma_hex_length(bytes.drop_last());
    }
}

/// The hexadecimal digit that stands for `n`.
fn hex_char(n: u8) -> (r: char)
    requires
        n < 16,
    ensures
        r == hex_digit(n as nat),
{
    if n < 10 {
        (48 + n) as char
    } else {
        (87 + n) as char
    }
}

/// Lower-case hex encoding of a byte slice.
pub fn hex(bytes: &[u8]) -> (r: String)
    ensures
        r@ == hex_of(bytes@),
{
    let mut s = String::new();
    let mut i: usize = 0;
    assert(bytes@.take(0) =~= seq![]);
    while i < bytes.len()
        invariant
            i <= bytes.len(),
            s@ == hex_of(bytes@.take(i as int)),
        decreases bytes.len() - i,
    {
        let b: u8 = bytes[i];
        s.push(hex_char(b / 16));
        s.push(hex_char(b % 16));
        assert(bytes@.take(i + 1).drop_last() =~= bytes@.take(i as int));
        i = i + 1;
    }
    assert(bytes@.take(bytes@.len() as int) =~= bytes@);
    s
}

/// The hash by which a text is recognised again.
pub open spec fn hash_of(content: Seq<char>) -> Seq<char> {
    hex_of(sha256(encode_utf8(content)))
}

/// The hash by which a text is recognised again: the SHA-256 digest of its
/// bytes, in hexadecimal notation.
pub fn content_hash(content: &str) -> (r: String)
    ensures
        r@ == hash_of(content@),
        r@.len() == 64,
{
    let d = digest(content.as_bytes());
    proof {
        lemma_hex_length(d@);
    }
    hex(d.as_slice())
}

/// The hash by which a file is recognised again: the SHA-256 digest of its bytes, in
/// hexadecimal notation.
pub fn bytes_hash(bytes: &[u8]) -> (r: String)
    ensures
        r@ == hex_of(sha256(bytes@)),
{
    let d = digest(bytes);
    hex(d.as_slice())
}

/// How many digits of a session's hash mark what it writes.
pub const TOKEN_DIGITS: usize = 16;

/// What marks a comment as written by a session: the beginning of its id's hash, so
/// that the id itself is not published.
pub fn session_token(session_id: &str) -> (r: String)
    ensures
        r@ == hash_of(session_id@).take(TOKEN_DIGITS as int),
{
    let hash = content_hash(session_id);
    let digits = text::chars(hash.as_str());
    let token = text::slice(&digits, 0, TOKEN_DIGITS);
    assert(token@ =~= hash@.take(TOKEN_DIGITS as int));
    token
}

} // verus!
