//! Bytes and text: the one place where the library asks the standard library
//! whether bytes are well-formed UTF-8.

use vstd::prelude::*;
use vstd::utf8::*;

verus! {

/// What `bytes` say as text: their characters when they are well-formed UTF-8,
/// nothing otherwise.
pub open spec fn text_of(bytes: Seq<u8>) -> Option<Seq<char>> {
    if valid_utf8(bytes) {
        Some(decode_utf8(bytes))
    } else {
        None
    }
}

/// An optional string by its characters.
pub open spec fn text_view(text: Option<String>) -> Option<Seq<char>> {
    match text {
        Some(s) => Some(s@),
        None => None,
    }
}

/// Calls `String::from_utf8`. Trusted: on well-formed UTF-8 the call returns
/// the string of the characters that the bytes encode; on anything else it
/// fails, and the error gives the same bytes back.
#[verifier::external_body]
pub(crate) fn string_from_utf8(bytes: Vec<u8>) -> (r: Result<String, Vec<u8>>)
    ensures
        match r {
            Ok(s) => valid_utf8(bytes@) && s@ == decode_utf8(bytes@),
            Err(b) => !valid_utf8(bytes@) && b@ == bytes@,
        },
{
    String::from_utf8(bytes).map_err(|e| e.into_bytes())
}

/// Text always reads back from its own bytes.
pub proof fn lemma_text_of_bytes(chars: Seq<char>)
    ensures
        text_of(encode_utf8(chars)) == Some(chars),
{
    encode_utf8_valid_utf8(chars);
    encode_utf8_decode_utf8(chars);
}

} // verus!
