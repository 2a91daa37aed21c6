//! Deadlines over the driver's free-running 32-bit microsecond tick.
//!
//! The tick wraps about every 71 minutes, so a deadline is kept as the tick at
//! which a phase began plus a microsecond budget, and expiry is decided on the
//! wrapping difference of ticks, never on a raw comparison.

use crate::error::MdbError;
use vstd::arithmetic::div_mod::{lemma_fundamental_div_mod, lemma_mod_bound};
use vstd::arithmetic::mul::lemma_mul_inequality;
use vstd::prelude::*;

verus! {

/// An absolute deadline: a phase that began at tick `start` may run for
/// `budget_us` microseconds.
#[derive(Debug, Clone, Copy, PartialEq, Eq, Structural)]
pub struct Deadline {
    pub start: u32,
    pub budget_us: u32,
}

/// Microseconds elapsed from tick `start` to tick `now`, as long as fewer
/// than 2^32 of them have passed.
pub open spec fn elapsed(now: u32, start: u32) -> int {
    now.wrapping_sub(start) as int
}

impl Deadline {
    /// Whether the deadline has passed at tick `now`.
    pub open spec fn expired_at(self, now: u32) -> bool {
        elapsed(now, self.start) > self.budget_us
    }

    /// Decides expiry by wrapping subtraction, so that a phase straddling a
    /// tick wrap is still measured correctly.
    pub fn expired(&self, now: u32) -> (r: bool)
        ensures
            r == self.expired_at(now),
    {
        now.wrapping_sub(self.start) > self.budget_us
    }
}

/// The number of the first poll at which a deadline check fails, when polls
/// are numbered from 0 and the check before poll `k` sees `e0 + k * step`
/// microseconds elapsed.
pub open spec fn first_late(e0: int, step: int, budget: int) -> int {
    if e0 > budget {
        0
    } else {
        (budget - e0) / step + 1
    }
}

/// `first_late` is exactly the first poll index whose deadline check fails.
pub proof fn lemma_first_late(e0: int, step: int, budget: int)
    requires
        step >= 1,
        0 <= e0,
        0 <= budget,
    ensures
        first_late(e0, step, budget) >= 0,
        e0 + first_late(e0, step, budget) * step > budget,
        forall|k: int| 0 <= k < first_late(e0, step, budget) ==> e0 + #[trigger] (k * step)
            <= budget,
        first_late(e0, step, budget) * step <= budget + step,
{
    if e0 > budget {
        assert(first_late(e0, step, budget) * step == 0);
    } else {
        let d = budget - e0;
        let q = d / step;
        lemma_fundamental_div_mod(d, step);
        lemma_mod_bound(d, step);
        let r = d % step;
        assert(d == step * q + r);
        if q < 0 {
            lemma_mul_inequality(q, -1, step);
            assert(q * step <= -1 * step);
        }
        assert(q >= 0);
        assert(q * step == d - r);
        assert((q + 1) * step == q * step + step) by (nonlinear_arith);
        assert((q + 1) * step == d - r + step);
        assert(e0 + (q + 1) * step > budget);
        assert forall|k: int| 0 <= k < q + 1 implies e0 + #[trigger] (k * step) <= budget by {
            lemma_mul_inequality(k, q, step);
            assert(k * step <= q * step);
        }
    }
}

/// Advancing a tick advances its elapsed time from any start by the same
/// amount, as long as the total stays inside one tick wrap.
pub proof fn lemma_elapsed_advance(start: u32, now: u32, d: u32)
    requires
        elapsed(now, start) + d < 0x1_0000_0000,
    ensures
        elapsed(now.wrapping_add(d), start) == elapsed(now, start) + d,
{
}

/// Elapsed times add up across an intermediate tick, as long as the total
/// stays inside one tick wrap.
pub proof fn lemma_elapsed_trans(a: u32, b: u32, c: u32)
    requires
        elapsed(b, a) + elapsed(c, b) < 0x1_0000_0000,
    ensures
        elapsed(c, a) == elapsed(b, a) + elapsed(c, b),
{
}

/// Two ticks at the same elapsed time from one start are the same tick.
pub proof fn lemma_elapsed_inj(start: u32, a: u32, b: u32)
    requires
        elapsed(a, start) == elapsed(b, start),
    ensures
        a == b,
{
}

/// Converts a duration given as whole seconds and sub-second microseconds to
/// the driver's 32-bit microsecond count; durations of a tick wrap or more
/// are refused.
pub fn duration_as_micros32(secs: u64, subsec_micros: u32) -> (r: Result<u32, MdbError>)
    ensures
        secs * 1_000_000 + subsec_micros < u32::MAX ==> r == Ok::<u32, MdbError>(
            (secs * 1_000_000 + subsec_micros) as u32,
        ),
        secs * 1_000_000 + subsec_micros >= u32::MAX ==> r == Err::<u32, MdbError>(
            MdbError::DurationOverflow,
        ),
{
    match secs.checked_mul(1_000_000) {
        None => Err(MdbError::DurationOverflow),
        Some(s_us) => match s_us.checked_add(subsec_micros as u64) {
            None => Err(MdbError::DurationOverflow),
            Some(x) => {
                if x >= 0xffff_ffffu64 {
                    Err(MdbError::DurationOverflow)
                } else {
                    Ok(x as u32)
                }
            },
        },
    }
}

} // verus!
