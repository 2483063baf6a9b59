//! The text form in which the image of an icon is handed on.

use vstd::prelude::*;

verus! {

/// The base64 text of bytes: standard alphabet, padded.
pub uninterp spec fn base64_text(bytes: Seq<u8>) -> Seq<char>;

/// A character that base64 text is made of.
pub open spec fn is_base64_char(c: char) -> bool {
    ('A' <= c <= 'Z') || ('a' <= c <= 'z') || ('0' <= c <= '9') || c == '+' || c == '/' || c == '='
}

/// The longest input that [`encode`] takes.
pub open spec fn max_encodable() -> int {
    (usize::MAX / 2) as int
}

/// Encodes with `base64::Engine::encode` on the `STANDARD` engine: the
/// alphabet of RFC 4648 with `+` and `/`, padded with `=`. The engine panics
/// where the length of the text does not fit in `usize`; the bound keeps
/// far from that.
///
/// Taken on trust: the text depends on the bytes alone, and is made of the
/// alphabet and the padding.
#[verifier::external_body]
pub(crate) fn encode(bytes: &[u8]) -> (r: String)
    requires
        bytes@.len() <= max_encodable(),
    ensures
        r@ == base64_text(bytes@),
        forall|i: int| 0 <= i < r@.len() ==> is_base64_char(#[trigger] r@[i]),
{
    base64::Engine::encode(&base64::engine::general_purpose::STANDARD, bytes)
}

/// The base64 text of `bytes`; `None` where they are more than
/// [`max_encodable`].
pub fn encode_checked(bytes: &Vec<u8>) -> (r: Option<String>)
    ensures
        match r {
            Some(text) => bytes@.len() <= max_encodable() && text@ == base64_text(bytes@)
                && forall|i: int| 0 <= i < text@.len() ==> is_base64_char(#[trigger] text@[i]),
            None => bytes@.len() > max_encodable(),
        },
{
    if bytes.len() <= usize::MAX / 2 {
        Some(encode(bytes.as_slice()))
    } else {
        None
    }
}

} // verus!
