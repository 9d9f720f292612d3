//! Dates and times of a given instant, formatted by `chrono`. The instant is handed in
//! (seconds and nanoseconds since the Unix epoch, read by the caller), so nothing here
//! reads the clock.
use vstd::prelude::*;

use crate::text::is_ascii_digit;

verus! {

/// The seconds since the Unix epoch up to which every instant is representable (a bit
/// over four thousand years on).
pub const SECS_IN_RANGE: i64 = 137_438_953_472;

/// What `DateTime::from_timestamp(secs, nanos)` formatted with `%Y%m%d_%H%M%S` gives,
/// or `None` when chrono cannot represent the instant.
pub uninterp spec fn utc_stamp_text(secs: i64, nanos: u32) -> Option<Seq<char>>;

/// What `DateTime::from_timestamp(secs, nanos)`, moved to the fixed offset of
/// `offset` seconds east of UTC and formatted with `%Y-%m-%d`, gives, or `None` when
/// chrono cannot represent the instant or the offset.
pub uninterp spec fn local_date_text(secs: i64, nanos: u32, offset: i32) -> Option<Seq<char>>;

/// An instant every calendar computation handles: from the epoch up to
/// `SECS_IN_RANGE`, with the nanoseconds of a second.
pub open spec fn instant_in_range(secs: i64, nanos: u32) -> bool {
    0 <= secs <= SECS_IN_RANGE && nanos < 1_000_000_000
}

/// An offset from UTC that `FixedOffset::east_opt` accepts: less than a day either way.
pub open spec fn offset_in_range(offset: i32) -> bool {
    -86_400 < offset < 86_400
}

/// Digits, or at the front the sign chrono writes before a year outside 0 to 9999.
pub open spec fn stamp_char(s: Seq<char>, i: int) -> bool {
    is_ascii_digit(s[i]) || (i == 0 && (s[i] == '+' || s[i] == '-'))
}

/// The shape of a `%Y%m%d_%H%M%S` stamp: at least fifteen characters, `_` before the
/// last six, digits otherwise (the year may carry a sign in front).
pub open spec fn stamp_shaped(s: Seq<char>) -> bool {
    &&& s.len() >= 15
    &&& s[s.len() - 7] == '_'
    &&& forall|i: int| 0 <= i < s.len() && i != s.len() - 7 ==> #[trigger] stamp_char(s, i)
}

/// The shape of a `%Y-%m-%d` date: at least ten characters, `-` before the month and
/// the day, digits otherwise (the year may carry a sign in front).
pub open spec fn date_shaped(s: Seq<char>) -> bool {
    &&& s.len() >= 10
    &&& s[s.len() - 3] == '-'
    &&& s[s.len() - 6] == '-'
    &&& forall|i: int|
        0 <= i < s.len() && i != s.len() - 3 && i != s.len() - 6 ==> #[trigger] stamp_char(s, i)
}

pub open spec fn opt_string_view(o: Option<String>) -> Option<Seq<char>> {
    match o {
        Some(s) => Some(s@),
        None => None,
    }
}

/// `DateTime::from_timestamp(secs, nanos)` then `format("%Y%m%d_%H%M%S")`: claimed to
/// give `utc_stamp_text`. chrono documents `None` only for an out-of-range second or an
/// invalid nanosecond, so an instant in range gives a stamp; chrono writes the year
/// with at least four digits (a sign in front outside 0 to 9999) and every other field
/// with two, which gives the shape. Neither call panics.
#[verifier::external_body]
pub(crate) fn utc_stamp_at(secs: i64, nanos: u32) -> (r: Option<String>)
    ensures
        opt_string_view(r) == utc_stamp_text(secs, nanos),
        instant_in_range(secs, nanos) ==> r is Some,
        r matches Some(s) ==> stamp_shaped(s@),
{
    match chrono::DateTime::from_timestamp(secs, nanos) {
        Some(d) => Some(d.format("%Y%m%d_%H%M%S").to_string()),
        None => None,
    }
}

/// `FixedOffset::east_opt(offset)`, `DateTime::from_timestamp(secs, nanos)`,
/// `with_timezone` and `format("%Y-%m-%d")`: claimed to give `local_date_text`. An
/// offset of less than a day and an instant in range give a date of the shape chrono
/// writes. A fixed offset is used so that no time-zone database is consulted.
#[verifier::external_body]
pub(crate) fn local_date_at(secs: i64, nanos: u32, offset: i32) -> (r: Option<String>)
    ensures
        opt_string_view(r) == local_date_text(secs, nanos, offset),
        instant_in_range(secs, nanos) && offset_in_range(offset) ==> r is Some,
        r matches Some(s) ==> date_shaped(s@),
{
    match (chrono::FixedOffset::east_opt(offset), chrono::DateTime::from_timestamp(secs, nanos)) {
        (Some(east), Some(d)) => Some(d.with_timezone(&east).format("%Y-%m-%d").to_string()),
        _ => None,
    }
}

} // verus!
