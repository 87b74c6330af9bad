//! The calls into the `chrono` crate: parsing an API timestamp string
//! into epoch seconds, and formatting epoch seconds as an RFC 2822 date
//! string. Both are functions of their argument alone.

use vstd::prelude::*;

verus! {

/// What parsing a timestamp string yields: the epoch seconds of the
/// instant the string denotes, or nothing when the string is not a
/// well-formed timestamp.
pub uninterp spec fn timestamp_of(s: Seq<char>) -> Option<i64>;

/// The RFC 2822 rendering of an instant given as epoch seconds, or
/// nothing when the instant is out of the representable range.
pub uninterp spec fn rfc2822_of(t: i64) -> Option<Seq<char>>;

/// Relies on chrono's `str::parse::<DateTime<Utc>>` (RFC 3339 parsing)
/// and `DateTime::timestamp`: the epoch seconds of the parsed instant,
/// absent exactly when the string does not parse. Sub-second precision
/// is dropped; RFC 2822 output never shows it.
#[verifier::external_body]
pub(crate) fn parse_timestamp(s: &str) -> (r: Option<i64>)
    ensures
        r == timestamp_of(s@),
{
    match s.parse::<chrono::DateTime<chrono::Utc>>() {
        Ok(d) => Some(d.timestamp()),
        Err(_) => None,
    }
}

/// Relies on chrono's `DateTime::from_timestamp` and
/// `DateTime::to_rfc2822`: the RFC 2822 rendering of the instant, absent
/// exactly when the epoch seconds are outside chrono's representable
/// range or outside the years 0 through 9999, on which alone RFC 2822
/// is defined (`to_rfc2822` panics there, so the guard runs first).
#[verifier::external_body]
pub(crate) fn format_rfc2822(t: i64) -> (r: Option<String>)
    ensures
        r is Some <==> rfc2822_of(t) is Some,
        r matches Some(s) ==> rfc2822_of(t) == Some(s@),
{
    match chrono::DateTime::from_timestamp(t, 0) {
        Some(d) if (0..=9999).contains(&chrono::Datelike::year(&d)) => Some(d.to_rfc2822()),
        _ => None,
    }
}

/// The display form of a raw API timestamp: parsed to an instant, then
/// rendered as RFC 2822. Absent when the timestamp is malformed or out
/// of range.
pub open spec fn spec_display_date(d: Seq<char>) -> Option<Seq<char>> {
    match timestamp_of(d) {
        Option::None => Option::None,
        Option::Some(t) => rfc2822_of(t),
    }
}

/// Reformats a raw API timestamp for display: RFC 2822, or nothing when
/// the timestamp is malformed or out of range. Callers treat nothing as
/// fatal; there is no fallback rendering.
pub fn display_date(d: &str) -> (r: Option<String>)
    ensures
        r is Some <==> spec_display_date(d@) is Some,
        r matches Some(s) ==> spec_display_date(d@) == Some(s@),
{
    match parse_timestamp(d) {
        None => None,
        Some(t) => format_rfc2822(t),
    }
}

} // verus!
