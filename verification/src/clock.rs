//! Access to the wall clock and to the timestamp label used in recording
//! ids. Timestamps are milliseconds since the Unix epoch, UTC.

use vstd::prelude::*;

verus! {

/// The `YYYY-MM-DD_HH-MM-SS` label of a timestamp, a pure function of the
/// millisecond value alone.
pub uninterp spec fn time_label(ms: int) -> Seq<char>;

/// Relies on chrono's `Utc::now` and `timestamp_millis`: the current wall
/// clock as milliseconds since the Unix epoch. Nothing is promised of the
/// value.
#[verifier::external_body]
pub(crate) fn now_millis() -> i64 {
    chrono::Utc::now().timestamp_millis()
}

/// Relies on chrono's `DateTime::format` with `%Y-%m-%d_%H-%M-%S`: a UTC
/// timestamp formats to a label that depends on the millisecond value alone.
#[verifier::external_body]
pub(crate) fn format_timestamp(ms: i64) -> (r: String)
    ensures
        r@ == time_label(ms as int),
{
    match chrono::DateTime::<chrono::Utc>::from_timestamp_millis(ms) {
        Some(t) => format!("{}", t.format("%Y-%m-%d_%H-%M-%S")),
        None => String::new(),
    }
}

} // verus!
