//! Timestamps: epoch milliseconds reduced to whole seconds, and the calendar
//! text chrono renders for them.

use vstd::prelude::*;

verus! {

/// The calendar text chrono renders, in UTC and in the form
/// `YYYY-MM-DD HH:MM:SS`, for a count of seconds since the Unix epoch — or
/// nothing, when chrono puts the count out of its representable range.
pub uninterp spec fn timestamp_text(secs: int) -> Option<Seq<char>>;

/// Epoch milliseconds reduced to whole epoch seconds, the fractional second
/// truncated toward zero.
pub open spec fn secs_of_millis(ms: int) -> int {
    if ms >= 0 {
        ms / 1000
    } else {
        -((-ms) / 1000)
    }
}

/// Reduce a millisecond timestamp to whole seconds, truncating toward zero.
pub fn millis_to_secs(ms: i64) -> (s: i64)
    ensures
        s as int == secs_of_millis(ms as int),
{
    if ms >= 0 {
        let q: u64 = (ms as u64) / 1000;
        q as i64
    } else {
        let neg: u128 = (-(ms as i128)) as u128;
        let q: u64 = (neg / 1000) as u64;
        -(q as i64)
    }
}

/// Relies on chrono's `DateTime::<Utc>::from_timestamp` and its
/// `%Y-%m-%d %H:%M:%S` formatting: renders the UTC calendar timestamp for a
/// count of epoch seconds, and yields `None` exactly when chrono reports the
/// count out of range (more than about 262,000 years from the common era).
#[verifier::external_body]
pub(crate) fn format_timestamp(secs: i64) -> (r: Option<String>)
    ensures
        r is Some <==> timestamp_text(secs as int) is Some,
        r matches Some(t) ==> timestamp_text(secs as int) == Some(t@),
{
    chrono::DateTime::<chrono::Utc>::from_timestamp(secs, 0).map(
        |t| t.format("%Y-%m-%d %H:%M:%S").to_string(),
    )
}

} // verus!
