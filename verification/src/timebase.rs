use vstd::prelude::*;

verus! {

/// Bound on the magnitude of any input timestamp, duration or threshold,
/// in microseconds. Keeping inputs inside this bound lets every timestamp
/// computation in the pipeline stay well inside `i64`.
pub const TS_LIMIT_MICROS: i64 = 0x1000_0000_0000_0000;

/// An input timestamp (or duration, or threshold) is in range.
pub open spec fn ts_ok(t: int) -> bool {
    -(TS_LIMIT_MICROS as int) < t && t < TS_LIMIT_MICROS as int
}

/// The free-running moment clock may pace a few nominal frame durations
/// past the last input frame, so it lives in a slightly wider range.
pub open spec fn clock_ok(t: int) -> bool {
    -(TS_LIMIT_MICROS as int) < t && t < 4 * (TS_LIMIT_MICROS as int)
}

/// Absolute distance between two instants.
pub open spec fn time_dist(a: int, b: int) -> int {
    if a >= b {
        a - b
    } else {
        b - a
    }
}

/// Absolute distance between two instants, in microseconds.
pub fn dist_micros(a: i64, b: i64) -> (r: i64)
    requires
        time_dist(a as int, b as int) <= i64::MAX,
    ensures
        r == time_dist(a as int, b as int),
{
    if a >= b {
        a - b
    } else {
        b - a
    }
}

} // verus!
