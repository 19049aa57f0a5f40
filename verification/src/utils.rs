//! The clock.

use vstd::prelude::*;

verus! {

/// Calls `std::time::SystemTime::elapsed` on `std::time::UNIX_EPOCH` and
/// converts the duration to whole milliseconds, cut to 64 bits. `None` when the
/// system clock reads a moment before the epoch. Nothing is claimed of the
/// value: it depends on when the call is made.
#[verifier::external_body]
fn unix_epoch_elapsed_ms() -> Option<u64> {
    match std::time::UNIX_EPOCH.elapsed() {
        Ok(d) => Some(d.as_millis() as u64),
        Err(_) => None,
    }
}

/// Wall-clock time in milliseconds since the Unix epoch, or nothing when the
/// clock reads a moment before the epoch: no time is made up for a clock that
/// cannot be read. The value depends on when the call is made, so nothing is
/// promised of it.
pub fn current_time_ms() -> Option<u64> {
    unix_epoch_elapsed_ms()
}

} // verus!
