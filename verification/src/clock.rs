//! The wall clock, read through `chrono`.
//!
//! Instants are carried through the library as milliseconds since the Unix
//! epoch, so the rules that compare them stay plain integer arithmetic.

use vstd::prelude::*;

verus! {

/// The current time, in milliseconds since the Unix epoch.
///
/// Calls `chrono::Utc::now` and `DateTime::timestamp_millis`. The value
/// depends on the clock, so nothing ties it to any argument; `Utc::now`
/// panics rather than return an instant before the epoch, so it is never
/// negative.
#[verifier::external_body]
pub(crate) fn now_millis() -> (t: i64)
    ensures
        t >= 0,
{
    chrono::Utc::now().timestamp_millis()
}

/// The current time as an RFC 3339 timestamp (`2024-01-01T00:00:00.123+00:00`).
///
/// Calls `chrono::Utc::now` and `DateTime::to_rfc3339`. The text depends on
/// the clock, so nothing is stated of it.
#[verifier::external_body]
pub(crate) fn now_rfc3339() -> (s: String) {
    chrono::Utc::now().to_rfc3339()
}

} // verus!
