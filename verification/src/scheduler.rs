//! The fixed-cadence schedule of the sampling loop.
//!
//! The loop alternates between sampling and sleeping.  After a pass that
//! took `elapsed` of the period, the loop sleeps for the remaining budget,
//! so consecutive passes start one period apart while sampling is fast; a
//! pass that overruns the period is followed immediately by the next one.
use vstd::prelude::*;

verus! {

/// The sampling period the loop aims for, in milliseconds.
pub const DEFAULT_PERIOD_MS: u64 = 1000;

/// Sleep budget left in a period after a pass of `elapsed_ms`.
pub open spec fn spec_sleep_budget(period_ms: nat, elapsed_ms: nat) -> nat {
    if elapsed_ms >= period_ms {
        0
    } else {
        (period_ms - elapsed_ms) as nat
    }
}

/// Remaining sleep budget for a fixed-cadence loop: the time left in the
/// period after a pass that took `elapsed_ms`, saturating at zero when the
/// pass ran over the period.
pub fn sleep_budget_ms(period_ms: u64, elapsed_ms: u64) -> (r: u64)
    ensures
        r == spec_sleep_budget(period_ms as nat, elapsed_ms as nat),
{
    if elapsed_ms >= period_ms {
        0
    } else {
        period_ms - elapsed_ms
    }
}

/// Cadence of the schedule.  A pass starts at `start`, works for `elapsed`,
/// then sleeps for the computed budget, so the next pass starts at
/// `start + elapsed + budget`.  While work fits in the period, consecutive
/// starts are exactly one period apart — never closer; once work overruns
/// the period, the next pass starts immediately, with no artificial delay.
pub proof fn lemma_cadence(start: nat, elapsed: nat, period_ms: nat)
    ensures
        elapsed <= period_ms ==> start + elapsed + spec_sleep_budget(period_ms, elapsed) == start
            + period_ms,
        elapsed > period_ms ==> spec_sleep_budget(period_ms, elapsed) == 0,
        start + elapsed + spec_sleep_budget(period_ms, elapsed) >= start + period_ms || elapsed
            > period_ms,
{
}

} // verus!
