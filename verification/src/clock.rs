//! Access to the wall clock and calendar rendering of timestamps.
//!
//! Timestamps are carried through the library as plain Unix seconds; only
//! the two items below touch the outside world.

use vstd::prelude::*;

verus! {

/// The `%Y-%m-%d` rendering of a Unix timestamp in UTC.  The result is a
/// function of the timestamp alone; its characters are left unspecified.
pub uninterp spec fn date_string_of(ts: int) -> Seq<char>;

/// Relies on `chrono::DateTime::from_timestamp` and `DateTime::format` with
/// `%Y-%m-%d`: the rendering depends on the timestamp alone (UTC, no locale
/// or environment input).  A timestamp outside chrono's range renders as the
/// empty string.
#[verifier::external_body]
pub(crate) fn date_string(ts: i64) -> (r: String)
    ensures
        r@ == date_string_of(ts as int),
{
    match chrono::DateTime::from_timestamp(ts, 0) {
        Some(dt) => dt.format("%Y-%m-%d").to_string(),
        None => String::new(),
    }
}

/// Relies on `chrono::Utc::now`: the current time, about which nothing is
/// promised.
#[verifier::external_body]
pub(crate) fn now_unix() -> i64 {
    chrono::Utc::now().timestamp()
}

} // verus!
