//! The tick clock: elapsed time advances by one fixed period per tick
//! while running, and freezes while paused. Reset returns to idle at
//! zero. Elapsed seconds exposed to the mapper are derived from the tick
//! count alone.

use vstd::prelude::*;

verus! {

/// Length of one clock tick, in milliseconds.
pub const TICK_PERIOD_MS: u64 = 25;

/// The largest tick count whose elapsed milliseconds still fit in `u64`.
pub const MAX_TICKS: u64 = u64::MAX / TICK_PERIOD_MS;

/// Drives elapsed time forward on a periodic tick while running.
pub struct TimerClock {
    pub elapsed_ticks: u64,
    pub running: bool,
}

impl TimerClock {
    /// The tick count stays low enough that the elapsed milliseconds fit
    /// in a `u64`.
    pub open spec fn wf(&self) -> bool {
        self.elapsed_ticks <= MAX_TICKS
    }

    /// Elapsed milliseconds derived from the tick count.
    pub open spec fn spec_elapsed_ms(&self) -> int {
        self.elapsed_ticks * TICK_PERIOD_MS
    }

    /// Idle at zero elapsed time.
    pub fn new() -> (r: TimerClock)
        ensures
            r.elapsed_ticks == 0,
            !r.running,
            r.wf(),
    {
        TimerClock { elapsed_ticks: 0, running: false }
    }

    /// Starts or resumes: ticks accumulate from the current count on.
    pub fn resume(&mut self)
        ensures
            final(self).running,
            final(self).elapsed_ticks == old(self).elapsed_ticks,
    {
        self.running = true;
    }

    /// Freezes the elapsed count at its current value.
    pub fn pause(&mut self)
        ensures
            !final(self).running,
            final(self).elapsed_ticks == old(self).elapsed_ticks,
    {
        self.running = false;
    }

    /// Back to idle at exactly zero elapsed time.
    pub fn reset(&mut self)
        ensures
            !final(self).running,
            final(self).elapsed_ticks == 0,
            final(self).wf(),
    {
        self.running = false;
        self.elapsed_ticks = 0;
    }

    /// One period of the tick source: advances the count by one while
    /// running, and does nothing while idle.
    pub fn tick(&mut self)
        requires
            old(self).elapsed_ticks < MAX_TICKS,
        ensures
            final(self).running == old(self).running,
            final(self).elapsed_ticks == if old(self).running {
                old(self).elapsed_ticks + 1
            } else {
                old(self).elapsed_ticks as int
            },
            final(self).wf(),
    {
        if self.running {
            self.elapsed_ticks = self.elapsed_ticks + 1;
        }
    }

    /// Elapsed milliseconds: the tick count times the tick period.
    pub fn elapsed_ms(&self) -> (r: u64)
        requires
            self.wf(),
        ensures
            r == self.spec_elapsed_ms(),
    {
        self.elapsed_ticks * TICK_PERIOD_MS
    }
}

} // verus!
