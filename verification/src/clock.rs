//! Wall-clock readings and RFC 3339 text, through chrono.
//!
//! Timestamps are carried as plain UNIX seconds; only the readings and the
//! text rendering come from chrono, behind trusted items.

use vstd::prelude::*;

verus! {

/// One second past the last representable status timestamp:
/// 10000-01-01T00:00:00Z as UNIX seconds.
pub const TIMESTAMP_BOUND: i64 = 253402300800;

/// A timestamp the service is willing to record: non-negative and before
/// the year 10000, so chrono can always render it.
pub open spec fn ts_in_range(t: i64) -> bool {
    0 <= t < TIMESTAMP_BOUND
}

/// The RFC 3339 text of a UTC timestamp, as chrono renders it.
pub uninterp spec fn rfc3339_of(t: i64) -> Seq<char>;

/// Relies on chrono's `DateTime::from_timestamp` and `to_rfc3339`: the
/// RFC 3339 text of a UTC timestamp depends on the timestamp alone, and
/// every in-range timestamp can be rendered.
#[verifier::external_body]
pub fn format_rfc3339(t: i64) -> (s: String)
    requires
        ts_in_range(t),
    ensures
        s@ == rfc3339_of(t),
{
    chrono::DateTime::from_timestamp(t, 0).unwrap().to_rfc3339()
}

/// Relies on chrono's `Utc::now`: the current UNIX timestamp, of which
/// nothing is promised.
#[verifier::external_body]
fn system_timestamp() -> (t: i64) {
    chrono::Utc::now().timestamp()
}

/// The current UNIX timestamp, clamped into the recordable range.
pub fn current_timestamp() -> (t: i64)
    ensures
        ts_in_range(t),
{
    let raw = system_timestamp();
    if 0 <= raw && raw < TIMESTAMP_BOUND {
        raw
    } else {
        0
    }
}

/// Relies on chrono's `Local::now` and `to_rfc3339`: the current local
/// time as RFC 3339 text. The value depends on the clock and the
/// machine's time zone, so nothing is promised of it.
#[verifier::external_body]
pub fn now_local_rfc3339() -> (s: String) {
    chrono::Local::now().to_rfc3339()
}

} // verus!
