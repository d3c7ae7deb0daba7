//! The clock behind the animation engine: a monotone high-resolution
//! counter read from the host. Everything the engine decides from a
//! reading is done by verified functions that take the reading as a plain
//! number; this module only fetches it.

use vstd::prelude::*;

verus! {

/// What a host tells a clock-driven worker loop.
#[derive(Debug, PartialEq, Eq, Structural, Copy, Clone)]
pub enum ClockMsg {
    Stop,
}

/// Relies on `time::precise_time_ns`: the current value of a
/// high-resolution performance counter in nanoseconds since an
/// unspecified epoch. Nothing further is assumed of the value.
#[verifier::external_body]
pub fn now_ns() -> u64 {
    time::precise_time_ns()
}

/// The counter reading in whole milliseconds.
pub fn now_ms() -> u64 {
    now_ns() / 1000000
}

} // verus!
