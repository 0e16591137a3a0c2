//! Calendar-time formatting and parsing, delegated to chrono.
//!
//! Timestamps are carried through the engine as RFC 3339 strings or
//! Unix epoch seconds; only the conversions below touch the calendar.

use vstd::prelude::*;

verus! {

use crate::row::oint;

/// The Unix epoch second an RFC 3339 string denotes, or nothing when
/// the string is not valid RFC 3339. A function of the string alone.
pub uninterp spec fn rfc3339_epoch(s: Seq<char>) -> Option<int>;

/// Relies on chrono's `DateTime::parse_from_rfc3339` and
/// `DateTime::timestamp`: both are deterministic functions of the
/// input string, independent of clock, locale and machine.
#[verifier::external_body]
pub(crate) fn parse_rfc3339_epoch(s: &str) -> (r: Option<i64>)
    ensures
        oint(r) == rfc3339_epoch(s@),
{
    chrono::DateTime::parse_from_rfc3339(s).ok().map(|dt| dt.timestamp())
}

/// Relies on chrono's `Utc::now` and `DateTime::to_rfc3339`. The
/// result depends on the wall clock, so nothing is promised beyond the
/// call returning; callers treat the string as an opaque timestamp.
#[verifier::external_body]
pub(crate) fn now_rfc3339() -> (r: String)
    ensures
        r@.len() > 0,
{
    chrono::Utc::now().to_rfc3339()
}

/// Relies on chrono's `Utc::now` and `DateTime::timestamp`. The result
/// depends on the wall clock; nothing is promised of its value.
#[verifier::external_body]
pub(crate) fn now_epoch() -> (r: i64)
{
    chrono::Utc::now().timestamp()
}

} // verus!
