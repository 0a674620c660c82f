//! Node time: microseconds since boot, as counted by `embassy-time` at its
//! 1 MHz tick rate.
use vstd::prelude::*;

verus! {

/// Calls `embassy_time::Instant::now().as_micros()`: the current time in
/// microseconds since boot. Nothing is claimed of the value; it is the clock.
#[verifier::external_body]
pub(crate) fn now_micros() -> u64 {
    embassy_time::Instant::now().as_micros()
}

/// Whole milliseconds of a time in microseconds.
pub open spec fn millis_of(t_us: u64) -> u64 {
    t_us / 1000
}

/// Whole seconds of a time in microseconds.
pub open spec fn secs_of(t_us: u64) -> u64 {
    t_us / 1_000_000
}

} // verus!
