//! How long to wait before a height is skipped.

use crate::clock::Instant;
use crate::duration::{span_factor, span_in_range, Duration};
use crate::model::{BlockHeight, BlockHeightDelta};
use vstd::prelude::*;

verus! {

/// How many delay steps are added for `n` heights since the last final block: none for the first
/// two, one for each further one, as far as they can be counted.
pub open spec fn delay_steps(n: BlockHeightDelta) -> u32 {
    if n <= 2 {
        0
    } else if n <= u32::MAX {
        (n - 2) as u32
    } else {
        (u32::MAX - 2) as u32
    }
}

/// A timer. Times and delays are in nanoseconds.
#[verifier::ext_equal]
pub ghost struct TimerState {
    /// When the wait for the current height began.
    pub started: int,
    /// When an endorsement was last due.
    pub last_endorsement_sent: int,
    /// The height that is waited for.
    pub height: BlockHeight,
    pub endorsement_delay: int,
    pub min_delay: int,
    pub delay_step: int,
    pub max_delay: int,
}

impl TimerState {
    /// What is added to the minimum delay for `n` heights since the last final block.
    pub open spec fn extra_delay(self, n: BlockHeightDelta) -> int {
        if delay_steps(n) == 0 {
            0
        } else {
            self.delay_step * span_factor(delay_steps(n))
        }
    }

    /// The delay for `n` heights since the last final block, were there no maximum.
    pub open spec fn uncapped_delay(self, n: BlockHeightDelta) -> int {
        self.min_delay + self.extra_delay(n)
    }

    /// The delay for `n` heights since the last final block.
    pub open spec fn delay(self, n: BlockHeightDelta) -> int {
        if self.max_delay <= self.uncapped_delay(n) {
            self.max_delay
        } else {
            self.uncapped_delay(n)
        }
    }

    /// Whether the delay for `n` heights can be calculated without going out of range.
    pub open spec fn delay_fits(self, n: BlockHeightDelta) -> bool {
        &&& span_in_range(self.extra_delay(n))
        &&& span_in_range(self.uncapped_delay(n))
    }
}

/// The delay never exceeds the maximum, and for the first two heights it is the minimum delay, or
/// the maximum if that is shorter.
pub proof fn law_delay_bounds(t: TimerState, n: BlockHeightDelta)
    ensures
        t.delay(n) <= t.max_delay,
        n <= 2 ==> t.delay(n) == (if t.max_delay <= t.min_delay {
            t.max_delay
        } else {
            t.min_delay
        }),
{
}

/// The delay does not get shorter with more heights since the last final block, as long as the
/// number of steps can be represented as an `i32`.
pub proof fn law_delay_is_monotone(t: TimerState, n1: BlockHeightDelta, n2: BlockHeightDelta)
    requires
        t.delay_step >= 0,
        n1 <= n2,
        delay_steps(n2) <= i32::MAX,
    ensures
        t.delay(n1) <= t.delay(n2),
{
    let k1 = delay_steps(n1) as int;
    let k2 = delay_steps(n2) as int;
    assert(0 <= t.delay_step * k1 <= t.delay_step * k2) by (nonlinear_arith)
        requires
            t.delay_step >= 0,
            0 <= k1 <= k2,
    ;
}

/// Information to track the timer.
#[derive(Clone, Copy)]
pub struct DoomslugTimer {
    pub started: Instant,
    pub last_endorsement_sent: Instant,
    pub height: BlockHeight,
    pub endorsement_delay: Duration,
    pub min_delay: Duration,
    pub delay_step: Duration,
    pub max_delay: Duration,
}

impl View for DoomslugTimer {
    type V = TimerState;

    open spec fn view(&self) -> TimerState {
        TimerState {
            started: self.started@,
            last_endorsement_sent: self.last_endorsement_sent@,
            height: self.height,
            endorsement_delay: self.endorsement_delay@,
            min_delay: self.min_delay@,
            delay_step: self.delay_step@,
            max_delay: self.max_delay@,
        }
    }
}

/// The number of delay steps for `n` heights.
fn count_delay_steps(n: BlockHeightDelta) -> (steps: u32)
    ensures
        steps == delay_steps(n),
{
    let n32: u32 = if n <= u32::MAX as u64 {
        n as u32
    } else {
        u32::MAX
    };
    n32.saturating_sub(2)
}

impl DoomslugTimer {
    /// Computes the delay to sleep given the number of heights from the last final block
    /// This is what `T` represents in the paper.
    ///
    /// # Arguments
    /// * `n` - number of heights since the last block with doomslug finality
    ///
    /// # Returns
    /// Duration to sleep
    pub fn get_delay(&self, n: BlockHeightDelta) -> (d: Duration)
        requires
            self@.delay_fits(n),
        ensures
            d@ == self@.delay(n),
    {
        assert(self@.delay_step * 0 == 0) by (nonlinear_arith);
        let extra = self.delay_step.times(count_delay_steps(n));
        match self.min_delay.checked_add(extra) {
            Some(delay) => self.max_delay.min(delay),
            None => self.max_delay,
        }
    }

    /// The delay for `n` heights since the last final block, or `None` where it cannot be calculated
    /// without going out of range.
    pub fn checked_delay(&self, n: BlockHeightDelta) -> (r: Option<Duration>)
        ensures
            match r {
                Some(d) => self@.delay_fits(n) && d@ == self@.delay(n),
                None => !self@.delay_fits(n),
            },
    {
        let steps: u32 = count_delay_steps(n);
        let factor: i128 = if steps <= i32::MAX as u32 {
            steps as i128
        } else {
            steps as i128 - 0x1_0000_0000
        };
        let step: i128 = self.delay_step.whole_nanoseconds();
        assert(-0x1_0000_0000_0000_0000_0000_0000_0000_0000 < step * factor * 2
            < 0x1_0000_0000_0000_0000_0000_0000_0000_0000) by (nonlinear_arith)
            requires
                -0x4000_0000_0000_0000_0000_0000 < step < 0x4000_0000_0000_0000_0000_0000,
                -0x8000_0000 <= factor < 0x8000_0000,
        ;
        assert(step * 0 == 0) by (nonlinear_arith);
        let extra: i128 = step * factor;
        if !in_span_range(extra) {
            return None;
        }
        let sum: i128 = self.min_delay.whole_nanoseconds() + extra;
        if in_span_range(sum) {
            Some(self.get_delay(n))
        } else {
            None
        }
    }
}

/// Whether a span of `nanos` nanoseconds can be represented.
fn in_span_range(nanos: i128) -> (b: bool)
    ensures
        b == span_in_range(nanos as int),
{
    -9_223_372_036_854_775_808_999_999_999 <= nanos && nanos
        <= 9_223_372_036_854_775_807_999_999_999
}

/// The delay for `n` heights since the last final block, in terms of the delays that were set: the
/// minimum delay and one step for each height after the second, but no more than the maximum. From
/// where the number of steps exceeds an `i32` on it counts as negative, and from where the number of
/// heights exceeds a `u32` on it stays the same.
pub proof fn law_delay_is_exact(t: TimerState, n: BlockHeightDelta, steps: int)
    requires
        steps == (if n < 2 {
            0
        } else if n < 0x8000_0002 {
            n - 2
        } else if n < 0x1_0000_0000 {
            n - 2 - 0x1_0000_0000
        } else {
            -3
        }),
    ensures
        t.min_delay + steps * t.delay_step <= t.max_delay ==> t.delay(n) == t.min_delay + steps
            * t.delay_step,
        t.min_delay + steps * t.delay_step > t.max_delay ==> t.delay(n) == t.max_delay,
        t.delay_fits(n) <==> {
            &&& span_in_range(steps * t.delay_step)
            &&& span_in_range(t.min_delay + steps * t.delay_step)
        },
{
    assert(steps * t.delay_step == t.delay_step * steps) by (nonlinear_arith);
    assert(t.delay_step * 0 == 0) by (nonlinear_arith);
}

/// One more height since the last final block makes the delay one step longer, until the maximum cuts
/// it.
pub proof fn law_delay_grows_by_steps(t: TimerState, n: BlockHeightDelta)
    requires
        2 <= n <= i32::MAX,
        t.delay_step >= 0,
    ensures
        t.delay((n + 1) as u64) < t.max_delay ==> t.delay((n + 1) as u64) == t.delay(n)
            + t.delay_step,
        t.delay(n) == t.max_delay ==> t.delay((n + 1) as u64) == t.max_delay,
{
    law_delay_is_exact(t, n, n - 2);
    law_delay_is_exact(t, (n + 1) as u64, n - 1);
    assert((n - 1) * t.delay_step == (n - 2) * t.delay_step + t.delay_step) by (nonlinear_arith);
}

} // verus!
