//! Unicode case mapping and classification, and lossy UTF-8 decoding, as std performs
//! them. Their tables are std's; the library names their results, and states what std
//! documents for ASCII text: ASCII letters map to the other case, other ASCII characters
//! are unchanged, and the ASCII alphanumerics are the letters and digits.
use vstd::prelude::*;
use vstd::utf8::{decode_utf8, valid_utf8};

use crate::text::{
    ascii_lower, ascii_upper, is_ascii_alphanumeric, is_ascii_char, is_ascii_text,
};

verus! {

/// What `str::to_lowercase` returns for a string.
pub uninterp spec fn std_lowercase(s: Seq<char>) -> Seq<char>;

/// What `str::to_uppercase` returns for a string.
pub uninterp spec fn std_uppercase(s: Seq<char>) -> Seq<char>;

/// The characters that `char::to_uppercase` yields for one character.
pub uninterp spec fn std_char_uppercase(c: char) -> Seq<char>;

/// What `char::is_alphanumeric` answers for a character.
pub uninterp spec fn std_alphanumeric(c: char) -> bool;

/// What `String::from_utf8_lossy` makes of a byte sequence.
pub uninterp spec fn lossy_utf8(bytes: Seq<u8>) -> Seq<char>;

/// The lowercase form of a string: each character's ASCII lowercase for ASCII text,
/// std's Unicode mapping otherwise.
pub open spec fn lowercase(s: Seq<char>) -> Seq<char> {
    if is_ascii_text(s) {
        s.map_values(|c: char| ascii_lower(c))
    } else {
        std_lowercase(s)
    }
}

/// The uppercase form of a string, as `lowercase`.
pub open spec fn uppercase(s: Seq<char>) -> Seq<char> {
    if is_ascii_text(s) {
        s.map_values(|c: char| ascii_upper(c))
    } else {
        std_uppercase(s)
    }
}

/// The uppercase form of one character.
pub open spec fn char_uppercase(c: char) -> Seq<char> {
    if is_ascii_char(c) {
        seq![ascii_upper(c)]
    } else {
        std_char_uppercase(c)
    }
}

/// Whether a character is alphanumeric.
pub open spec fn alphanumeric(c: char) -> bool {
    if is_ascii_char(c) {
        is_ascii_alphanumeric(c)
    } else {
        std_alphanumeric(c)
    }
}

/// `str::to_lowercase`: claimed to return `std_lowercase` of its argument (Unicode
/// lowercase mapping, a function of the string alone), which for ASCII text lowercases
/// each ASCII letter and keeps every other character.
#[verifier::external_body]
pub(crate) fn to_lowercase(s: &str) -> (r: String)
    ensures
        r@ == std_lowercase(s@),
        is_ascii_text(s@) ==> r@ == s@.map_values(|c: char| ascii_lower(c)),
{
    s.to_lowercase()
}

/// `str::to_uppercase`: claimed to return `std_uppercase` of its argument, which for
/// ASCII text uppercases each ASCII letter and keeps every other character.
#[verifier::external_body]
pub(crate) fn to_uppercase(s: &str) -> (r: String)
    ensures
        r@ == std_uppercase(s@),
        is_ascii_text(s@) ==> r@ == s@.map_values(|c: char| ascii_upper(c)),
{
    s.to_uppercase()
}

/// `char::to_uppercase`, collected: claimed to be `std_char_uppercase` of the
/// character, which for an ASCII character is that one character, uppercased if it is a
/// letter.
#[verifier::external_body]
pub(crate) fn char_to_uppercase(c: char) -> (r: Vec<char>)
    ensures
        r@ == std_char_uppercase(c),
        is_ascii_char(c) ==> r@ == seq![ascii_upper(c)],
{
    c.to_uppercase().collect()
}

/// `char::is_alphanumeric`: claimed to answer `std_alphanumeric` of the character,
/// which for an ASCII character holds exactly of letters and digits.
#[verifier::external_body]
pub(crate) fn is_alphanumeric(c: char) -> (r: bool)
    ensures
        r == std_alphanumeric(c),
        is_ascii_char(c) ==> r == is_ascii_alphanumeric(c),
{
    c.is_alphanumeric()
}

/// `String::from_utf8_lossy`: claimed to return `lossy_utf8` of the bytes, which is the
/// decoded text when the bytes are valid UTF-8 (std documents that valid input comes
/// back unchanged); what replaces invalid sequences is left unsaid.
#[verifier::external_body]
pub(crate) fn utf8_lossy(bytes: &[u8]) -> (r: String)
    ensures
        r@ == lossy_utf8(bytes@),
        valid_utf8(bytes@) ==> r@ == decode_utf8(bytes@),
{
    String::from_utf8_lossy(bytes).into_owned()
}

} // verus!
