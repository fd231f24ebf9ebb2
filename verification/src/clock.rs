//! The wall clock, as the collector and the API read it.

use vstd::prelude::*;

verus! {

/// Reads the system clock through `SystemTime::elapsed` on the Unix epoch:
/// whole seconds since the epoch, `None` when the clock is before the epoch.
/// Nothing is promised of the value.
#[verifier::external_body]
fn unix_seconds() -> (r: Option<u64>) {
    std::time::UNIX_EPOCH.elapsed().ok().map(|d| d.as_secs())
}

/// A clock reading in whole seconds since the Unix epoch, truncated to `u32`
/// as `as u32` truncates (the low 32 bits); 0 when the clock is before the epoch.
pub fn epoch_from(secs: Option<u64>) -> (t: u32)
    ensures
        t == match secs {
            Some(s) => s as u32,
            None => 0u32,
        },
{
    match secs {
        Some(s) => s as u32,
        None => 0,
    }
}

/// Seconds since the Unix epoch, truncated to `u32` (0 when the clock is
/// before the epoch). The value is the clock's; nothing holds of every reading.
pub fn now_epoch() -> (t: u32) {
    epoch_from(unix_seconds())
}

} // verus!
