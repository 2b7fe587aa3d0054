//! Wall-clock time as milliseconds since the Unix epoch.
//!
//! Times in this library are `i64` milliseconds. The range that `chrono`
//! can represent bounds them; adding a duration beyond it makes `chrono`
//! panic, so the functions that add durations require their results to stay
//! in range.

use vstd::prelude::*;

verus! {

/// Milliseconds of `chrono::DateTime::<Utc>::MIN_UTC`.
pub const MIN_TIMESTAMP_MS: i64 = -8_334_601_228_800_000;

/// Milliseconds of `chrono::DateTime::<Utc>::MAX_UTC`, rounded down.
pub const MAX_TIMESTAMP_MS: i64 = 8_210_266_876_799_999;

/// The largest number of seconds `chrono::TimeDelta::seconds` accepts in
/// either direction.
pub const MAX_DELTA_SECS: i64 = 9_223_372_036_854_775;

/// Whether `t` milliseconds since the epoch is a time `chrono` can represent.
pub open spec fn representable(t: int) -> bool {
    MIN_TIMESTAMP_MS <= t <= MAX_TIMESTAMP_MS
}

/// The current time (`chrono::Utc::now().timestamp_millis()`).
///
/// The value depends on the clock, so nothing fixes it. `Utc::now` panics on
/// a clock set before the epoch, so every value it returns is at least zero,
/// and it is a `DateTime<Utc>`, so it is at most `MAX_UTC`.
#[verifier::external_body]
pub(crate) fn now_millis() -> (t: i64)
    ensures
        0 <= t <= MAX_TIMESTAMP_MS,
{
    chrono::Utc::now().timestamp_millis()
}

} // verus!
