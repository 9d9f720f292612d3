//! Byte encodings done by outside crates: Base64 (`base64`) and JSON (`serde_json`).
use base64::Engine;
use vstd::prelude::*;

verus! {

/// The character of a six-bit value in the standard Base64 alphabet (RFC 4648).
pub open spec fn base64_char(v: int) -> char {
    if v < 26 {
        (65 + v) as char
    } else if v < 52 {
        (97 + v - 26) as char
    } else if v < 62 {
        (48 + v - 52) as char
    } else if v == 62 {
        '+'
    } else {
        '/'
    }
}

/// Standard Base64 with `=` padding (RFC 4648, section 4): every three bytes become
/// four characters; a final one or two bytes become four characters ending in `==` or
/// `=`.
pub open spec fn base64_standard(b: Seq<u8>) -> Seq<char>
    decreases b.len(),
{
    if b.len() == 0 {
        Seq::empty()
    } else if b.len() == 1 {
        seq![base64_char((b[0] / 4) as int), base64_char((b[0] % 4) as int * 16), '=', '=']
    } else if b.len() == 2 {
        seq![
            base64_char((b[0] / 4) as int),
            base64_char((b[0] % 4) * 16 + b[1] / 16),
            base64_char((b[1] % 16) * 4),
            '=',
        ]
    } else {
        seq![
            base64_char((b[0] / 4) as int),
            base64_char((b[0] % 4) * 16 + b[1] / 16),
            base64_char((b[1] % 16) * 4 + b[2] / 64),
            base64_char((b[2] % 64) as int),
        ] + base64_standard(b.skip(3))
    }
}

/// `base64::engine::general_purpose::STANDARD.encode`: claimed to return the standard,
/// padded Base64 text of the bytes. The crate panics when the length of the text would
/// not fit in `usize`; that input is excluded.
#[verifier::external_body]
pub(crate) fn base64_encode(bytes: &[u8]) -> (r: String)
    requires
        bytes@.len() / 3 * 4 + 4 <= usize::MAX,
    ensures
        r@ == base64_standard(bytes@),
{
    base64::engine::general_purpose::STANDARD.encode(bytes)
}

/// What `serde_json` reads as the string under `key` of the JSON object in `bytes`
/// (`None` when the bytes are not JSON, not an object, lack the key, or hold something
/// other than a string there).
pub uninterp spec fn json_string_member(bytes: Seq<u8>, key: Seq<char>) -> Option<Seq<char>>;

/// `serde_json::from_slice::<Value>`, then `get(key)` and `as_str`: claimed to return
/// `json_string_member` of the bytes and key.
#[verifier::external_body]
pub(crate) fn json_string_field(bytes: &[u8], key: &str) -> (r: Option<String>)
    ensures
        match r {
            Some(s) => json_string_member(bytes@, key@) == Some(s@),
            None => json_string_member(bytes@, key@) is None,
        },
{
    serde_json::from_slice::<serde_json::Value>(bytes).ok()?.get(key)?.as_str().map(String::from)
}

} // verus!
