//! A per-tick countdown timer: elapsed time advances by each tick's delta,
//! clamped at the configured duration, and never goes backwards except by
//! an explicit reset. It backs the attack cooldown gate and the hitbox
//! time-to-live.

use vstd::prelude::*;

verus! {

/// A timer measuring elapsed tick-time toward a fixed duration, both in
/// milliseconds.
#[derive(Clone, Copy, PartialEq, Eq, Structural, Debug)]
pub struct TickTimer {
    pub elapsed_ms: u64,
    pub duration_ms: u64,
}

/// One tick of a timer: elapsed time grows by the delta, clamped at the
/// duration so it never exceeds it.
pub open spec fn spec_timer_tick(elapsed: int, duration: int, dt: int) -> int {
    if elapsed + dt >= duration {
        duration
    } else {
        elapsed + dt
    }
}

/// The sum of a sequence of tick deltas.
pub open spec fn total_time(dts: Seq<int>) -> int
    decreases dts.len(),
{
    if dts.len() == 0 {
        0
    } else {
        dts[0] + total_time(dts.drop_first())
    }
}

/// A timer's elapsed time after a sequence of ticks.
pub open spec fn timer_fold(elapsed: int, duration: int, dts: Seq<int>) -> int
    decreases dts.len(),
{
    if dts.len() == 0 {
        elapsed
    } else {
        timer_fold(spec_timer_tick(elapsed, duration, dts[0]), duration, dts.drop_first())
    }
}

/// A sum of non-negative deltas is non-negative.
pub proof fn lemma_total_time_nonneg(dts: Seq<int>)
    requires
        forall|i: int| 0 <= i < dts.len() ==> dts[i] >= 0,
    ensures
        total_time(dts) >= 0,
    decreases dts.len(),
{
    if dts.len() > 0 {
        lemma_total_time_nonneg(dts.drop_first());
    }
}

/// Ticking a timer through any delta sequence accumulates exactly the
/// total elapsed time, clamped at the duration.
pub proof fn lemma_timer_fold(elapsed: int, duration: int, dts: Seq<int>)
    requires
        0 <= elapsed <= duration,
        forall|i: int| 0 <= i < dts.len() ==> dts[i] >= 0,
    ensures
        timer_fold(elapsed, duration, dts) == (if elapsed + total_time(dts) >= duration {
            duration
        } else {
            elapsed + total_time(dts)
        }),
    decreases dts.len(),
{
    if dts.len() > 0 {
        lemma_total_time_nonneg(dts.drop_first());
        lemma_timer_fold(spec_timer_tick(elapsed, duration, dts[0]), duration, dts.drop_first());
    }
}

impl TickTimer {
    /// Elapsed time never exceeds the duration.
    pub open spec fn wf(self) -> bool {
        self.elapsed_ms <= self.duration_ms
    }

    /// A fresh timer: nothing elapsed yet toward the given duration.
    pub fn from_millis(duration_ms: u64) -> (t: TickTimer)
        ensures
            t == (TickTimer { elapsed_ms: 0, duration_ms }),
            t.wf(),
    {
        TickTimer { elapsed_ms: 0, duration_ms }
    }

    /// Advances elapsed time by this tick's delta, clamped at the duration.
    pub fn tick(&mut self, dt_ms: u64)
        requires
            old(self).wf(),
        ensures
            final(self).elapsed_ms == spec_timer_tick(
                old(self).elapsed_ms as int,
                old(self).duration_ms as int,
                dt_ms as int,
            ),
            final(self).duration_ms == old(self).duration_ms,
            final(self).wf(),
    {
        if dt_ms >= self.duration_ms - self.elapsed_ms {
            self.elapsed_ms = self.duration_ms;
        } else {
            self.elapsed_ms = self.elapsed_ms + dt_ms;
        }
    }

    /// Has the full duration elapsed?
    pub fn finished(&self) -> (r: bool)
        ensures
            r == (self.elapsed_ms >= self.duration_ms),
    {
        self.elapsed_ms >= self.duration_ms
    }

    /// Starts the timer over: elapsed time returns to zero.
    pub fn reset(&mut self)
        ensures
            final(self).elapsed_ms == 0,
            final(self).duration_ms == old(self).duration_ms,
            final(self).wf(),
    {
        self.elapsed_ms = 0;
    }
}

} // verus!
