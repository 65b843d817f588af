//! A rolling-key substitution cipher over bytes.
//!
//! Each byte is shifted by one of the first five bytes of the key, chosen by
//! the byte's position modulo five, with wrap-around at 256. The cipher hides
//! content from a casual look; it protects nothing.

use crate::text::{lemma_text_of_bytes, string_from_utf8, text_of, text_view};
use vstd::prelude::*;
use vstd::string::StringSliceAdditionalSpecFns;

verus! {

/// The number of key bytes that the cipher uses.
pub const KEY_LEN: usize = 5;

/// A key is usable when it has at least `KEY_LEN` bytes.
pub open spec fn valid_key(key: Seq<u8>) -> bool {
    key.len() >= KEY_LEN
}

/// A content byte shifted up by a key byte, modulo 256.
pub open spec fn shift_up(b: u8, k: u8) -> u8 {
    ((b + k) % 256) as u8
}

/// A content byte shifted down by a key byte, modulo 256.
pub open spec fn shift_down(b: u8, k: u8) -> u8 {
    ((b - k + 256) % 256) as u8
}

/// The encoded form of `data`: byte `i` is shifted up by key byte `i mod 5`.
pub open spec fn encoded(data: Seq<u8>, key: Seq<u8>) -> Seq<u8> {
    Seq::new(data.len(), |i: int| shift_up(data[i], key[i % 5]))
}

/// The decoded form of `data`: byte `i` is shifted down by key byte `i mod 5`.
pub open spec fn decoded(data: Seq<u8>, key: Seq<u8>) -> Seq<u8> {
    Seq::new(data.len(), |i: int| shift_down(data[i], key[i % 5]))
}

/// The text that `data` decodes to under `key`, if it decodes to text at all.
pub open spec fn decoded_text(data: Seq<u8>, key: Seq<u8>) -> Option<Seq<char>> {
    text_of(decoded(data, key))
}

/// Decoding undoes encoding, whatever the content and the key.
pub proof fn lemma_decode_encode(data: Seq<u8>, key: Seq<u8>)
    requires
        valid_key(key),
    ensures
        decoded(encoded(data, key), key) == data,
{
    assert(decoded(encoded(data, key), key) =~= data);
}

/// Encoding undoes decoding, whatever the content and the key.
pub proof fn lemma_encode_decode(data: Seq<u8>, key: Seq<u8>)
    requires
        valid_key(key),
    ensures
        encoded(decoded(data, key), key) == data,
{
    assert(encoded(decoded(data, key), key) =~= data);
}

/// Encoding and decoding depend on the content and on the first five bytes
/// of the key, and on nothing else: keys that agree in those five bytes give
/// the same output for the same content.
pub proof fn lemma_key_prefix(data: Seq<u8>, key1: Seq<u8>, key2: Seq<u8>)
    requires
        valid_key(key1),
        valid_key(key2),
        key1.take(5) == key2.take(5),
    ensures
        encoded(data, key1) == encoded(data, key2),
        decoded(data, key1) == decoded(data, key2),
{
    assert forall|j: int| 0 <= j < 5 implies key1[j] == key2[j] by {
        assert(key1.take(5)[j] == key1[j]);
        assert(key2.take(5)[j] == key2[j]);
    }
    assert(encoded(data, key1) =~= encoded(data, key2));
    assert(decoded(data, key1) =~= decoded(data, key2));
}

/// Encoded text decodes to the same text under the same key.
pub proof fn lemma_text_round_trip(text: Seq<char>, key: Seq<u8>)
    requires
        valid_key(key),
    ensures
        decoded_text(encoded(vstd::utf8::encode_utf8(text), key), key) == Some(text),
{
    lemma_decode_encode(vstd::utf8::encode_utf8(text), key);
    lemma_text_of_bytes(text);
}

/// Shifts the byte `c` up by the key byte at `count`.
pub fn crypt_add(c: u8, count: usize, key: &[u8]) -> (r: u8)
    requires
        count < key@.len(),
    ensures
        r == shift_up(c, key@[count as int]),
{
    let sum: u16 = c as u16 + key[count] as u16;
    (sum % 256) as u8
}

/// Shifts the byte `c` down by the key byte at `count`.
pub fn crypt_rm(c: u8, count: usize, key: &[u8]) -> (r: u8)
    requires
        count < key@.len(),
    ensures
        r == shift_down(c, key@[count as int]),
{
    let k: u8 = key[count];
    if c < k {
        (c as u16 + 256 - k as u16) as u8
    } else {
        c - k
    }
}

/// Encodes `data` under `key`.
pub fn encode(data: &[u8], key: &[u8]) -> (out: Vec<u8>)
    requires
        valid_key(key@),
    ensures
        out@ == encoded(data@, key@),
{
    let mut out: Vec<u8> = Vec::new();
    let mut count: usize = 0;
    let mut i: usize = 0;
    while i < data.len()
        invariant
            valid_key(key@),
            i <= data@.len(),
            count == i % 5,
            out@ == encoded(data@.take(i as int), key@),
        decreases data@.len() - i,
    {
        out.push(crypt_add(data[i], count, key));
        count = (count + 1) % 5;
        i += 1;
        assert(out@ =~= encoded(data@.take(i as int), key@));
    }
    assert(data@.take(i as int) =~= data@);
    out
}

/// Decodes `data` under `key`.
pub fn decode(data: &[u8], key: &[u8]) -> (out: Vec<u8>)
    requires
        valid_key(key@),
    ensures
        out@ == decoded(data@, key@),
{
    let mut out: Vec<u8> = Vec::new();
    let mut count: usize = 0;
    let mut i: usize = 0;
    while i < data.len()
        invariant
            valid_key(key@),
            i <= data@.len(),
            count == i % 5,
            out@ == decoded(data@.take(i as int), key@),
        decreases data@.len() - i,
    {
        out.push(crypt_rm(data[i], count, key));
        count = (count + 1) % 5;
        i += 1;
        assert(out@ =~= decoded(data@.take(i as int), key@));
    }
    assert(data@.take(i as int) =~= data@);
    out
}

/// Encodes the bytes of `text` under the bytes of `key`.
pub fn encrypt_string(text: &str, key: &str) -> (out: Vec<u8>)
    requires
        valid_key(key.spec_bytes()),
    ensures
        out@ == encoded(text.spec_bytes(), key.spec_bytes()),
{
    encode(text.as_bytes(), key.as_bytes())
}

/// Decodes `bin` under the bytes of `key` and reads the outcome as text.
/// Returns nothing when the decoded bytes are not well-formed UTF-8.
pub fn decrypt_binary(bin: &[u8], key: &str) -> (text: Option<String>)
    requires
        valid_key(key.spec_bytes()),
    ensures
        text_view(text) == decoded_text(bin@, key.spec_bytes()),
{
    match string_from_utf8(decode(bin, key.as_bytes())) {
        Ok(s) => Some(s),
        Err(_) => None,
    }
}

} // verus!
