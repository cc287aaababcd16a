//! The variable-rate step clock gating how often a generation advances.

use vstd::prelude::*;

verus! {

/// Slowest allowed step rate, in steps per second.
pub const MIN_RATE: u64 = 1;

/// Fastest allowed step rate, in steps per second.
pub const MAX_RATE: u64 = 500;

/// Milliseconds in one second; the clock period is `1000 / rate`.
pub const MILLIS_PER_SECOND: u64 = 1000;

/// A step rate forced into the valid `[MIN_RATE, MAX_RATE]` range.
pub open spec fn clamped_rate(r: int) -> int {
    if r < MIN_RATE as int {
        MIN_RATE as int
    } else if r > MAX_RATE as int {
        MAX_RATE as int
    } else {
        r
    }
}

/// The rate after a speed-up command: doubled, but never past `MAX_RATE`.
pub open spec fn incremented_rate(r: int) -> int {
    if 2 * r <= MAX_RATE as int {
        2 * r
    } else {
        MAX_RATE as int
    }
}

/// The rate after a slow-down command: halved (rounding down), but never
/// below `MIN_RATE`.
pub open spec fn decremented_rate(r: int) -> int {
    if r / 2 >= MIN_RATE as int {
        r / 2
    } else {
        MIN_RATE as int
    }
}

/// A monotonically accumulating timer with a mutable period derived from a
/// bounded steps-per-second rate.
pub struct StepTimer {
    steps_per_second: u64,
    period_ms: u64,
    elapsed_ms: u64,
}

impl StepTimer {
    /// The rate stays in `[MIN_RATE, MAX_RATE]`, the period is derived from
    /// it as `1000 / rate`, and the accumulator never reaches a full second.
    pub closed spec fn wf(&self) -> bool {
        &&& MIN_RATE <= self.steps_per_second <= MAX_RATE
        &&& self.period_ms == MILLIS_PER_SECOND as int / self.steps_per_second as int
        &&& self.elapsed_ms < MILLIS_PER_SECOND
    }

    /// The current step rate, in steps per second.
    pub closed spec fn spec_rate(&self) -> int {
        self.steps_per_second as int
    }

    /// The current period, in milliseconds.
    pub closed spec fn spec_period(&self) -> int {
        self.period_ms as int
    }

    /// Milliseconds accumulated since the last firing.
    pub closed spec fn spec_elapsed(&self) -> int {
        self.elapsed_ms as int
    }

    /// A fresh timer at the given rate; a rate outside the valid range is
    /// clamped to the nearest bound rather than rejected.
    pub fn new(steps_per_second: u64) -> (t: StepTimer)
        ensures
            t.wf(),
            t.spec_rate() == clamped_rate(steps_per_second as int),
            t.spec_elapsed() == 0,
    {
        let rate = if steps_per_second < MIN_RATE {
            MIN_RATE
        } else if steps_per_second > MAX_RATE {
            MAX_RATE
        } else {
            steps_per_second
        };
        StepTimer { steps_per_second: rate, period_ms: MILLIS_PER_SECOND / rate, elapsed_ms: 0 }
    }

    /// The current step rate, in steps per second.
    pub fn steps_per_second(&self) -> (r: u64)
        ensures
            r as int == self.spec_rate(),
    {
        self.steps_per_second
    }

    /// Advance the accumulator by the elapsed milliseconds. Returns true
    /// exactly when a full period has elapsed, and then resets the
    /// accumulator: several elapsed periods in one call still fire only
    /// once, so a slow frame cannot skip generations.
    pub fn tick(&mut self, delta_ms: u64) -> (fired: bool)
        requires
            old(self).wf(),
            delta_ms <= u64::MAX - MILLIS_PER_SECOND,
        ensures
            final(self).wf(),
            final(self).spec_rate() == old(self).spec_rate(),
            final(self).spec_period() == old(self).spec_period(),
            fired == (old(self).spec_elapsed() + delta_ms >= old(self).spec_period()),
            fired ==> final(self).spec_elapsed() == 0,
            !fired ==> final(self).spec_elapsed() == old(self).spec_elapsed() + delta_ms,
    {
        let total = self.elapsed_ms + delta_ms;
        if total >= self.period_ms {
            self.elapsed_ms = 0;
            true
        } else {
            self.elapsed_ms = total;
            false
        }
    }

    /// Double the step rate, clamped to `MAX_RATE`; the accumulator and a
    /// pending tick are unaffected.
    pub fn inc(&mut self)
        requires
            old(self).wf(),
        ensures
            final(self).wf(),
            final(self).spec_rate() == incremented_rate(old(self).spec_rate()),
            final(self).spec_elapsed() == old(self).spec_elapsed(),
    {
        if self.steps_per_second * 2 <= MAX_RATE {
            self.steps_per_second = self.steps_per_second * 2;
        } else {
            self.steps_per_second = MAX_RATE;
        }
        self.update_duration();
    }

    /// Halve the step rate (rounding down), clamped to `MIN_RATE`; the
    /// accumulator and a pending tick are unaffected.
    pub fn dec(&mut self)
        requires
            old(self).wf(),
        ensures
            final(self).wf(),
            final(self).spec_rate() == decremented_rate(old(self).spec_rate()),
            final(self).spec_elapsed() == old(self).spec_elapsed(),
    {
        if self.steps_per_second > MIN_RATE {
            self.steps_per_second = self.steps_per_second / 2;
        }
        self.update_duration();
    }

    /// Recompute the period from the current rate.
    fn update_duration(&mut self)
        requires
            MIN_RATE <= old(self).steps_per_second <= MAX_RATE,
            old(self).elapsed_ms < MILLIS_PER_SECOND,
        ensures
            final(self).wf(),
            final(self).steps_per_second == old(self).steps_per_second,
            final(self).elapsed_ms == old(self).elapsed_ms,
    {
        self.period_ms = MILLIS_PER_SECOND / self.steps_per_second;
    }
}

/// What a well-formed timer guarantees: the rate is in range, the period is
/// derived from it as `1000 / rate`, and the accumulator is under a second.
pub proof fn lemma_timer_invariant(t: &StepTimer)
    requires
        t.wf(),
    ensures
        MIN_RATE as int <= t.spec_rate() <= MAX_RATE as int,
        t.spec_period() == MILLIS_PER_SECOND as int / t.spec_rate(),
        0 <= t.spec_elapsed() < MILLIS_PER_SECOND as int,
{
}

/// Rate commands respect the configured bounds: starting anywhere in the
/// valid range, speeding up or slowing down lands in the valid range again,
/// speeding up at the ceiling stays at the ceiling, and slowing down at the
/// floor stays at the floor.
pub proof fn lemma_rate_bounds(r: int)
    requires
        MIN_RATE as int <= r <= MAX_RATE as int,
    ensures
        MIN_RATE as int <= incremented_rate(r) <= MAX_RATE as int,
        MIN_RATE as int <= decremented_rate(r) <= MAX_RATE as int,
        incremented_rate(MAX_RATE as int) == MAX_RATE as int,
        decremented_rate(MIN_RATE as int) == MIN_RATE as int,
        r < MAX_RATE as int ==> incremented_rate(r) > r,
        r > MIN_RATE as int ==> decremented_rate(r) < r,
{
}

} // verus!
