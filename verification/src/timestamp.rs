//! Day-granularity timestamp truncation.
//!
//! The store records creation times that the host clock supplies as a
//! nanosecond counter; the recorded value is truncated to the start of the
//! current day and re-expressed in milliseconds.

use vstd::prelude::*;

verus! {

/// Nanoseconds in one day.
pub const NANOS_PER_DAY: u64 = 86400 * 1000000000;

/// Milliseconds in one day.
pub const MILLIS_PER_DAY: u64 = 86400 * 1000;

/// Truncates a nanosecond timestamp to the start of its day, expressed in
/// milliseconds.  The result is non-negative and fits in `i64` for every
/// `u64` input.
pub fn day_truncated_millis(now_nanos: u64) -> (r: i64)
    ensures
        r == (now_nanos as int / NANOS_PER_DAY as int) * (MILLIS_PER_DAY as int),
        0 <= r,
{
    let days: u64 = now_nanos / NANOS_PER_DAY;
    proof {
        assert(days <= u64::MAX as int / NANOS_PER_DAY as int) by (nonlinear_arith)
            requires
                days == now_nanos as int / NANOS_PER_DAY as int,
                now_nanos <= u64::MAX,
                NANOS_PER_DAY == 86400 * 1000000000u64,
        ;
        assert(days * MILLIS_PER_DAY as int <= 213503 * (86400 * 1000)) by (nonlinear_arith)
            requires
                days <= 213503,
                MILLIS_PER_DAY == 86400 * 1000u64,
        ;
    }
    (days as i64) * (MILLIS_PER_DAY as i64)
}

} // verus!
