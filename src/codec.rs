//! Encodings of values into bytes: the big-endian keys of the log
//! namespace, decimal text, and the JSON forms of strings and key-value maps.
use crate::assoc::{keys_unique, text_map};
use byteorder::{BigEndian, ByteOrder};
use std::collections::BTreeMap;
use vstd::prelude::*;

verus! {

#[verifier::external_type_specification]
#[verifier::external_body]
pub struct ExJsonError(serde_json::Error);

/// The eight bytes of `n`, most significant first.
pub open spec fn u64_be_bytes(n: u64) -> Seq<u8> {
    seq![
        ((n >> 56u64) as u8),
        ((n >> 48u64) as u8),
        ((n >> 40u64) as u8),
        ((n >> 32u64) as u8),
        ((n >> 24u64) as u8),
        ((n >> 16u64) as u8),
        ((n >> 8u64) as u8),
        (n as u8),
    ]
}

/// `s` sorts strictly before `t` in the byte order of the storage engine.
pub open spec fn bytes_less(s: Seq<u8>, t: Seq<u8>) -> bool {
    exists|i: int|
        0 <= i < s.len() && i < t.len() && s.subrange(0, i) == t.subrange(0, i) && #[trigger] s[i]
            < t[i]
}

proof fn lemma_bytes_less_at(s: Seq<u8>, t: Seq<u8>, i: int)
    requires
        0 <= i < s.len(),
        i < t.len(),
        forall|j: int| 0 <= j < i ==> s[j] == t[j],
        s[i] < t[i],
    ensures
        bytes_less(s, t),
{
    assert(s.subrange(0, i) =~= t.subrange(0, i));
}

/// Relies on byteorder's `BigEndian::write_u64`, which stores `n.to_be_bytes()`.
#[verifier::external_body]
fn id_to_bin(id: u64) -> (r: Vec<u8>)
    ensures
        r@ == u64_be_bytes(id),
{
    let mut buf = [0u8; 8];
    BigEndian::write_u64(&mut buf, id);
    buf.to_vec()
}

/// Relies on byteorder's `BigEndian::read_u64`: `u64::from_be_bytes` of the
/// first eight bytes; it panics on fewer.
#[verifier::external_body]
fn bin_to_id(buf: &[u8]) -> (r: u64)
    requires
        buf@.len() >= 8,
    ensures
        u64_be_bytes(r) == buf@.subrange(0, 8),
{
    BigEndian::read_u64(buf)
}

/// The character of the decimal digit `d`.
pub open spec fn digit_char(d: nat) -> char {
    if d == 0 {
        '0'
    } else if d == 1 {
        '1'
    } else if d == 2 {
        '2'
    } else if d == 3 {
        '3'
    } else if d == 4 {
        '4'
    } else if d == 5 {
        '5'
    } else if d == 6 {
        '6'
    } else if d == 7 {
        '7'
    } else if d == 8 {
        '8'
    } else {
        '9'
    }
}

/// The decimal digits of `n`, without sign or leading zeros.
pub open spec fn decimal(n: nat) -> Seq<char>
    decreases n,
{
    if n < 10 {
        seq![digit_char(n)]
    } else {
        decimal(n / 10).push(digit_char(n % 10))
    }
}

/// Relies on the `Display` impl of `u64` (through `to_string`), which writes
/// the decimal digits of the number.
#[verifier::external_body]
pub(crate) fn u64_to_decimal(n: u64) -> (r: String)
    ensures
        r@ == decimal(n as nat),
{
    n.to_string()
}

/// The bytes that `serde_json::to_vec` writes for a string.
pub uninterp spec fn json_of_str(s: Seq<char>) -> Seq<u8>;

/// The bytes that `serde_json::to_vec` writes for a map of strings to strings.
pub uninterp spec fn json_of_kvs(m: Map<Seq<char>, Seq<char>>) -> Seq<u8>;

/// Relies on `serde_json::to_vec` on a `String`: the JSON text of the
/// string, which depends on its characters alone. It cannot fail: it fails
/// only where a `Serialize` impl fails or a map key is not a string, and it
/// writes into a `Vec`.
#[verifier::external_body]
pub(crate) fn str_to_json(s: &String) -> (r: Result<Vec<u8>, serde_json::Error>)
    ensures
        r is Ok,
        r matches Ok(b) ==> b@ == json_of_str(s@),
{
    serde_json::to_vec(s)
}

/// Relies on `serde_json::from_slice` into a `String`: it reads back the
/// string that `serde_json::to_vec` wrote.
#[verifier::external_body]
pub(crate) fn str_from_json(b: &[u8]) -> (r: Result<String, serde_json::Error>)
    ensures
        forall|s: Seq<char>| #[trigger] json_of_str(s) == b@ ==> r is Ok && r->Ok_0@ == s,
{
    serde_json::from_slice(b)
}

/// Relies on `serde_json::to_vec` on a `BTreeMap<String, String>` built from
/// the pairs: the JSON object of the map, which depends on the map alone. It
/// cannot fail, for the reasons given for strings: the keys are strings.
#[verifier::external_body]
pub(crate) fn kvs_to_json(kvs: &Vec<(String, String)>) -> (r: Result<Vec<u8>, serde_json::Error>)
    requires
        keys_unique(kvs@),
    ensures
        r is Ok,
        r matches Ok(b) ==> b@ == json_of_kvs(text_map(kvs@)),
{
    let m: BTreeMap<String, String> = kvs.iter().cloned().collect();
    serde_json::to_vec(&m)
}

/// Relies on `serde_json::from_slice` into a `BTreeMap<String, String>`,
/// whose keys are unique: it reads back the map that `serde_json::to_vec`
/// wrote. The pairs come out in key order.
#[verifier::external_body]
pub(crate) fn kvs_from_json(b: &[u8]) -> (r: Result<Vec<(String, String)>, serde_json::Error>)
    ensures
        r matches Ok(v) ==> keys_unique(v@),
        forall|m: Map<Seq<char>, Seq<char>>|
            m.dom().finite() && #[trigger] json_of_kvs(m) == b@ ==> r is Ok && text_map(r->Ok_0@)
                == m,
{
    serde_json::from_slice::<BTreeMap<String, String>>(b).map(|m| m.into_iter().collect())
}

/// Relies on the `Display` impl of `serde_json::Error` (through
/// `to_string`): the text of the error.
#[verifier::external_body]
pub(crate) fn json_error_text(e: &serde_json::Error) -> (r: String) {
    e.to_string()
}

/// Key of the log entry at `index` in the log namespace.
pub fn log_key(index: u64) -> (r: Vec<u8>)
    ensures
        r@ == u64_be_bytes(index),
{
    id_to_bin(index)
}

/// Index of the log entry stored under `key`; `None` for a key that is not
/// eight bytes long.
pub fn log_index(key: &Vec<u8>) -> (r: Option<u64>)
    ensures
        key@.len() == 8 <==> r is Some,
        r matches Some(n) ==> u64_be_bytes(n) == key@,
{
    if key.len() == 8 {
        let n = bin_to_id(key.as_slice());
        assert(key@.subrange(0, 8) =~= key@);
        Some(n)
    } else {
        None
    }
}

/// Distinct indexes have distinct keys: reading back the key of an index
/// gives the index.
pub proof fn lemma_log_key_round_trip(a: u64, b: u64)
    requires
        u64_be_bytes(a) == u64_be_bytes(b),
    ensures
        a == b,
{
    let sa = u64_be_bytes(a);
    let sb = u64_be_bytes(b);
    assert(sa[0] == sb[0] && sa[1] == sb[1] && sa[2] == sb[2] && sa[3] == sb[3]);
    assert(sa[4] == sb[4] && sa[5] == sb[5] && sa[6] == sb[6] && sa[7] == sb[7]);
    assert(a == b) by (bit_vector)
        requires
            ((a >> 56u64) as u8) == ((b >> 56u64) as u8),
            ((a >> 48u64) as u8) == ((b >> 48u64) as u8),
            ((a >> 40u64) as u8) == ((b >> 40u64) as u8),
            ((a >> 32u64) as u8) == ((b >> 32u64) as u8),
            ((a >> 24u64) as u8) == ((b >> 24u64) as u8),
            ((a >> 16u64) as u8) == ((b >> 16u64) as u8),
            ((a >> 8u64) as u8) == ((b >> 8u64) as u8),
            (a as u8) == (b as u8),
    ;
}

/// The key encoding keeps numeric order: a smaller index has a key that
/// sorts first under the engine's byte order.
pub proof fn lemma_log_key_order(a: u64, b: u64)
    requires
        a < b,
    ensures
        bytes_less(u64_be_bytes(a), u64_be_bytes(b)),
{
    if ((a >> 56u64) as u8) != ((b >> 56u64) as u8) {
        assert(((a >> 56u64) as u8) < ((b >> 56u64) as u8)) by (bit_vector)
            requires
                a < b,
                ((a >> 56u64) as u8) != ((b >> 56u64) as u8),
        ;
        lemma_bytes_less_at(u64_be_bytes(a), u64_be_bytes(b), 0);
    } else if ((a >> 48u64) as u8) != ((b >> 48u64) as u8) {
        assert(((a >> 48u64) as u8) < ((b >> 48u64) as u8)) by (bit_vector)
            requires
                a < b,
                ((a >> 56u64) as u8) == ((b >> 56u64) as u8),
                ((a >> 48u64) as u8) != ((b >> 48u64) as u8),
        ;
        lemma_bytes_less_at(u64_be_bytes(a), u64_be_bytes(b), 1);
    } else if ((a >> 40u64) as u8) != ((b >> 40u64) as u8) {
        assert(((a >> 40u64) as u8) < ((b >> 40u64) as u8)) by (bit_vector)
            requires
                a < b,
                ((a >> 56u64) as u8) == ((b >> 56u64) as u8),
                ((a >> 48u64) as u8) == ((b >> 48u64) as u8),
                ((a >> 40u64) as u8) != ((b >> 40u64) as u8),
        ;
        lemma_bytes_less_at(u64_be_bytes(a), u64_be_bytes(b), 2);
    } else if ((a >> 32u64) as u8) != ((b >> 32u64) as u8) {
        assert(((a >> 32u64) as u8) < ((b >> 32u64) as u8)) by (bit_vector)
            requires
                a < b,
                ((a >> 56u64) as u8) == ((b >> 56u64) as u8),
                ((a >> 48u64) as u8) == ((b >> 48u64) as u8),
                ((a >> 40u64) as u8) == ((b >> 40u64) as u8),
                ((a >> 32u64) as u8) != ((b >> 32u64) as u8),
        ;
        lemma_bytes_less_at(u64_be_bytes(a), u64_be_bytes(b), 3);
    } else if ((a >> 24u64) as u8) != ((b >> 24u64) as u8) {
        assert(((a >> 24u64) as u8) < ((b >> 24u64) as u8)) by (bit_vector)
            requires
                a < b,
                ((a >> 56u64) as u8) == ((b >> 56u64) as u8),
                ((a >> 48u64) as u8) == ((b >> 48u64) as u8),
                ((a >> 40u64) as u8) == ((b >> 40u64) as u8),
                ((a >> 32u64) as u8) == ((b >> 32u64) as u8),
                ((a >> 24u64) as u8) != ((b >> 24u64) as u8),
        ;
        lemma_bytes_less_at(u64_be_bytes(a), u64_be_bytes(b), 4);
    } else if ((a >> 16u64) as u8) != ((b >> 16u64) as u8) {
        assert(((a >> 16u64) as u8) < ((b >> 16u64) as u8)) by (bit_vector)
            requires
                a < b,
                ((a >> 56u64) as u8) == ((b >> 56u64) as u8),
                ((a >> 48u64) as u8) == ((b >> 48u64) as u8),
                ((a >> 40u64) as u8) == ((b >> 40u64) as u8),
                ((a >> 32u64) as u8) == ((b >> 32u64) as u8),
                ((a >> 24u64) as u8) == ((b >> 24u64) as u8),
                ((a >> 16u64) as u8) != ((b >> 16u64) as u8),
        ;
        lemma_bytes_less_at(u64_be_bytes(a), u64_be_bytes(b), 5);
    } else if ((a >> 8u64) as u8) != ((b >> 8u64) as u8) {
        assert(((a >> 8u64) as u8) < ((b >> 8u64) as u8)) by (bit_vector)
            requires
                a < b,
                ((a >> 56u64) as u8) == ((b >> 56u64) as u8),
                ((a >> 48u64) as u8) == ((b >> 48u64) as u8),
                ((a >> 40u64) as u8) == ((b >> 40u64) as u8),
                ((a >> 32u64) as u8) == ((b >> 32u64) as u8),
                ((a >> 24u64) as u8) == ((b >> 24u64) as u8),
                ((a >> 16u64) as u8) == ((b >> 16u64) as u8),
                ((a >> 8u64) as u8) != ((b >> 8u64) as u8),
        ;
        lemma_bytes_less_at(u64_be_bytes(a), u64_be_bytes(b), 6);
    } else {
        assert((a as u8) != (b as u8)) by (bit_vector)
            requires
                a < b,
                ((a >> 56u64) as u8) == ((b >> 56u64) as u8),
                ((a >> 48u64) as u8) == ((b >> 48u64) as u8),
                ((a >> 40u64) as u8) == ((b >> 40u64) as u8),
                ((a >> 32u64) as u8) == ((b >> 32u64) as u8),
                ((a >> 24u64) as u8) == ((b >> 24u64) as u8),
                ((a >> 16u64) as u8) == ((b >> 16u64) as u8),
                ((a >> 8u64) as u8) == ((b >> 8u64) as u8),
        ;
        assert((a as u8) < (b as u8)) by (bit_vector)
            requires
                a < b,
                ((a >> 56u64) as u8) == ((b >> 56u64) as u8),
                ((a >> 48u64) as u8) == ((b >> 48u64) as u8),
                ((a >> 40u64) as u8) == ((b >> 40u64) as u8),
                ((a >> 32u64) as u8) == ((b >> 32u64) as u8),
                ((a >> 24u64) as u8) == ((b >> 24u64) as u8),
                ((a >> 16u64) as u8) == ((b >> 16u64) as u8),
                ((a >> 8u64) as u8) == ((b >> 8u64) as u8),
                (a as u8) != (b as u8),
        ;
        lemma_bytes_less_at(u64_be_bytes(a), u64_be_bytes(b), 7);
    }
}

} // verus!
