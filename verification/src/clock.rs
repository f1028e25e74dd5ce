//! Readings of the system clock.

use vstd::prelude::*;

verus! {

/// Nanoseconds in a second.
pub const NANOS_PER_SEC: u64 = 1_000_000_000;

/// Nanoseconds in a millisecond.
pub const NANOS_PER_MILLI: u64 = 1_000_000;

/// Wall-clock time in nanoseconds since the Unix epoch, read with
/// `std::time::SystemTime::now`. A clock set before the epoch reads as 0 and a
/// reading beyond `u64` is cut to its low 64 bits. Nothing is promised of the
/// value: two readings may differ in either direction.
#[verifier::external_body]
pub(crate) fn unix_nanos() -> (now: u64) {
    std::time::SystemTime::now()
        .duration_since(std::time::UNIX_EPOCH)
        .unwrap_or_default()
        .as_nanos() as u64
}

/// Milliseconds since the Unix epoch for a reading in nanoseconds.
pub open spec fn spec_millis(nanos: u64) -> u64 {
    nanos / NANOS_PER_MILLI
}

/// Milliseconds since the Unix epoch for a reading in nanoseconds.
pub fn millis(nanos: u64) -> (ms: u64)
    ensures
        ms == spec_millis(nanos),
{
    nanos / NANOS_PER_MILLI
}

} // verus!
