//! Verified core of an iron-condor options backtesting engine.
//!
//! Money amounts are fixed-point integers in cents, timestamps are seconds
//! since the Unix epoch, and rate-like quantities are in basis points, so
//! that every computation in this crate is exact integer arithmetic.

pub mod iron_condor;
pub mod iron_condor_position;
pub mod metrics;
pub mod options_data;
pub mod ratio;
pub mod runner;
pub mod strike_table;

use vstd::prelude::*;

verus! {

/// Number of seconds in one calendar day.
pub const SECS_PER_DAY: i64 = 86400;

/// Largest timestamp magnitude, in seconds, that the engine accepts.
/// Generous for any market data, and small enough that timestamp
/// differences and day counts stay well inside `i64` and `u32`.
pub const TIME_LIMIT: i64 = 100_000_000_000_000;

/// A timestamp the engine can do arithmetic on.
pub open spec fn wf_time(t: i64) -> bool {
    -TIME_LIMIT <= t <= TIME_LIMIT
}

/// Whole-day difference between two timestamps in seconds, truncated
/// toward zero, as chronology libraries report day spans.
pub open spec fn spec_days_between(later: int, earlier: int) -> int {
    if later >= earlier {
        (later - earlier) / (SECS_PER_DAY as int)
    } else {
        -((earlier - later) / (SECS_PER_DAY as int))
    }
}

/// Bound on a product from bounds on its factors: a factor of magnitude
/// at most `xb` times a factor in `[0, yb]` stays within `xb * yb`.
pub proof fn lemma_mul_abs_bound(x: int, xb: int, y: int, yb: int)
    requires
        -xb <= x <= xb,
        0 <= y <= yb,
    ensures
        -(xb * yb) <= x * y <= xb * yb,
{
    assert(-(xb * yb) <= x * y <= xb * yb) by (nonlinear_arith)
        requires
            -xb <= x <= xb,
            0 <= y <= yb,
    ;
}

/// Whole days from `earlier` to `later`, truncated toward zero.
pub fn days_between(later: i64, earlier: i64) -> (r: i64)
    requires
        wf_time(later),
        wf_time(earlier),
    ensures
        r == spec_days_between(later as int, earlier as int),
{
    if later >= earlier {
        (later - earlier) / SECS_PER_DAY
    } else {
        -((earlier - later) / SECS_PER_DAY)
    }
}

} // verus!
