//! Text encodings at the vault boundary: standard base64 and UTF-8.

use base64::prelude::BASE64_STANDARD;
use base64::Engine;
use vstd::prelude::*;

verus! {

use vstd::utf8::{decode_utf8, valid_utf8};

/// What standard base64 encoding returns for a byte sequence.
pub uninterp spec fn b64_encoding(bytes: Seq<u8>) -> Seq<char>;

/// What standard base64 decoding returns for a character sequence: the
/// decoded bytes, or nothing when the text is not canonical base64.
pub uninterp spec fn b64_decoding(text: Seq<char>) -> Option<Seq<u8>>;

/// True of the characters that standard base64 output is made of.
pub open spec fn is_b64_char(c: char) -> bool {
    ('A' <= c <= 'Z') || ('a' <= c <= 'z') || ('0' <= c <= '9') || c == '+' || c == '/' || c
        == '='
}

/// True when every character of `text` is a base64 character.
pub open spec fn is_b64_text(text: Seq<char>) -> bool {
    forall|i: int| 0 <= i < text.len() ==> is_b64_char(#[trigger] text[i])
}

/// Relies on base64::prelude::BASE64_STANDARD.encode (standard alphabet,
/// padded): the output decodes back to the input, consists of base64
/// characters only, and is four characters for every three bytes begun.
/// The length bound keeps the internal output-size computation from
/// overflowing.
#[verifier::external_body]
pub(crate) fn b64_encode(bytes: &[u8]) -> (text: String)
    requires
        bytes@.len() <= usize::MAX / 4,
    ensures
        text@ == b64_encoding(bytes@),
        b64_decoding(text@) == Some(bytes@),
        is_b64_text(text@),
        text@.len() == (bytes@.len() + 2) / 3 * 4,
{
    BASE64_STANDARD.encode(bytes)
}

/// Relies on BASE64_STANDARD.decode: a pure function of the text that never
/// returns more bytes than the length of its input.
#[verifier::external_body]
pub(crate) fn b64_decode(text: &str) -> (bytes: Option<Vec<u8>>)
    ensures
        match bytes {
            Some(b) => b64_decoding(text@) == Some(b@) && b@.len() <= text@.len(),
            None => b64_decoding(text@) is None,
        },
{
    BASE64_STANDARD.decode(text).ok()
}

/// Relies on String::from_utf8: succeeds exactly on valid UTF-8 input and
/// returns the text those bytes encode.
#[verifier::external_body]
pub(crate) fn bytes_to_string(bytes: Vec<u8>) -> (text: Option<String>)
    ensures
        match text {
            Some(s) => valid_utf8(bytes@) && s@ == decode_utf8(bytes@),
            None => !valid_utf8(bytes@),
        },
{
    String::from_utf8(bytes).ok()
}

} // verus!
