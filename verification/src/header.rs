//! The values of HTTP headers.

use vstd::prelude::*;

verus! {

/// Whether a text can stand in a header: it holds no control characters but
/// tabs.
pub open spec fn is_header_text(s: Seq<char>) -> bool {
    forall|i: int| 0 <= i < s.len() ==> is_header_char(#[trigger] s[i])
}

/// Whether a character can stand in a header.
pub open spec fn is_header_char(c: char) -> bool {
    c as u32 >= 32 && c as u32 != 127 || c as u32 == 9
}

/// The text of a header, if all of its bytes are visible ASCII characters,
/// spaces or tabs.
pub open spec fn visible(bytes: Seq<u8>) -> Option<Seq<char>> {
    if forall|i: int|
        0 <= i < bytes.len() ==> 32 <= #[trigger] bytes[i] < 127 || bytes[i] == 9 {
        Some(bytes.map_values(|b: u8| b as char))
    } else {
        None
    }
}

/// The text of a header that a request may have.
pub open spec fn text_in(value: Option<&[u8]>) -> Option<Seq<char>> {
    match value {
        Some(bytes) => visible(bytes@),
        None => None,
    }
}

/// `axum::http::HeaderValue::from_str`: it accepts a text whose bytes are none
/// of the control characters but the tab. A byte of a character that is not
/// ASCII is none of them.
#[verifier::external_body]
pub(crate) fn header_accepts(text: &str) -> (r: bool)
    ensures
        r == is_header_text(text@),
{
    axum::http::HeaderValue::from_str(text).is_ok()
}

/// `axum::http::HeaderValue::to_str` on the value that `from_bytes` makes of the
/// bytes: the text of the value, if all of it is visible ASCII, spaces or tabs.
/// What `from_bytes` refuses is not.
#[verifier::external_body]
fn to_str(bytes: &[u8]) -> (r: Option<String>)
    ensures
        r.deep_view() == visible(bytes@),
{
    let value = axum::http::HeaderValue::from_bytes(bytes).ok()?;
    value.to_str().ok().map(str::to_owned)
}

/// The text of a header that a request may have.
pub fn header_text(value: Option<&[u8]>) -> (r: Option<String>)
    ensures
        r.deep_view() == text_in(value),
{
    match value {
        Some(bytes) => to_str(bytes),
        None => None,
    }
}

/// A header that is read is read byte by byte: as many characters as bytes, each
/// the character of its byte. One with a byte that is no visible ASCII character,
/// no space and no tab is not read, and neither is one that is not there.
pub proof fn law_headers_are_read_byte_by_byte(value: Option<&[u8]>)
    ensures
        value is None ==> text_in(value) is None,
        value matches Some(bytes) ==> match text_in(value) {
            Some(text) => text.len() == bytes@.len() && forall|i: int|
                0 <= i < text.len() ==> #[trigger] text[i] as u32 == bytes@[i] as u32,
            None => exists|i: int|
                0 <= i < bytes@.len() && !(32 <= #[trigger] bytes@[i] < 127 || bytes@[i] == 9),
        },
{
}

} // verus!
