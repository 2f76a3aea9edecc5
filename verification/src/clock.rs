//! Wall-clock access. The engine's own logic takes timestamps as plain
//! arguments; this is the one place a current time is read.

use vstd::prelude::*;

verus! {

/// Relies on chrono::Utc::now: the current time in milliseconds since the
/// Unix epoch. Nothing is promised of the value.
#[verifier::external_body]
fn now_epoch_ms_raw() -> i64 {
    chrono::Utc::now().timestamp_millis()
}

/// The current time in non-negative milliseconds since the Unix epoch;
/// times before the epoch are clamped to zero.
pub fn current_time_ms() -> u64 {
    let raw = now_epoch_ms_raw();
    if raw < 0 {
        0
    } else {
        raw as u64
    }
}

} // verus!
