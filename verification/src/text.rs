//! From bytes to text. Bytes that are valid UTF-8 stand for the characters
//! they encode; for any others the standard library's lossy decoder decides.

use vstd::prelude::*;
use vstd::utf8::{
    decode_utf8,
    encode_utf8,
    encode_utf8_decode_utf8,
    encode_utf8_valid_utf8,
    is_ascii_chars,
    is_ascii_chars_encode_utf8,
    valid_utf8,
};
use crate::chars::chars_of;

verus! {

/// The text that `String::from_utf8_lossy` makes of `bytes`. The contracts
/// apply it only to bytes that are not valid UTF-8, where each invalid
/// sequence comes out as a replacement character.
pub uninterp spec fn utf8_lossy(bytes: Seq<u8>) -> Seq<char>;

/// The text that `bytes` stand for: the characters they encode where they are
/// valid UTF-8, else what the lossy decoder makes of them.
pub open spec fn decoded(bytes: Seq<u8>) -> Seq<char> {
    if valid_utf8(bytes) {
        decode_utf8(bytes)
    } else {
        utf8_lossy(bytes)
    }
}

/// Whether every byte of `bytes` is an ASCII code.
pub open spec fn is_ascii(bytes: Seq<u8>) -> bool {
    forall|i: int| 0 <= i < bytes.len() ==> #[trigger] bytes[i] < 128
}

/// The characters with the codes `bytes`, one for each byte.
pub open spec fn ascii_text(bytes: Seq<u8>) -> Seq<char> {
    Seq::new(bytes.len(), |i: int| bytes[i] as char)
}

/// The character that stands in for what could not be decoded.
pub open spec fn replacement() -> char {
    '\u{FFFD}'
}

/// Calls `String::from_utf8_lossy`. Trusted, as the standard library
/// documents it: valid UTF-8 decodes to the characters it encodes; in the
/// text made of any other bytes a replacement character stands for each
/// invalid sequence, so there is at least one; and that text depends on the
/// bytes alone.
#[verifier::external_body]
fn from_utf8_lossy(bytes: &[u8]) -> (text: String)
    ensures
        valid_utf8(bytes@) ==> text@ == decode_utf8(bytes@),
        !valid_utf8(bytes@) ==> text@ == utf8_lossy(bytes@),
        !valid_utf8(bytes@) ==> text@.contains(replacement()),
{
    String::from_utf8_lossy(bytes).into_owned()
}

/// Decodes `bytes` as UTF-8, replacing what is invalid instead of failing.
pub fn decode(bytes: &[u8]) -> (text: Vec<char>)
    ensures
        text@ == decoded(bytes@),
        !valid_utf8(bytes@) ==> text@.contains(replacement()),
{
    let text = from_utf8_lossy(bytes);
    chars_of(text.as_str())
}

/// ASCII bytes decode to the characters with the same codes.
pub proof fn lemma_decoded_ascii(bytes: Seq<u8>)
    requires
        is_ascii(bytes),
    ensures
        valid_utf8(bytes),
        decoded(bytes) == ascii_text(bytes),
{
    let text = ascii_text(bytes);
    assert(is_ascii_chars(text)) by {
        assert forall|i: int| 0 <= i < text.len() implies '\0' <= #[trigger] text[i]
            <= '\u{7f}' by {
            assert(bytes[i] < 128);
        }
    }
    is_ascii_chars_encode_utf8(text);
    assert(encode_utf8(text) =~= bytes) by {
        assert forall|i: int| 0 <= i < bytes.len() implies encode_utf8(text)[i] == bytes[i] by {
            assert(text[i] as u8 == encode_utf8(text)[i]);
            assert(bytes[i] < 128);
        }
    }
    encode_utf8_valid_utf8(text);
    encode_utf8_decode_utf8(text);
}

} // verus!
