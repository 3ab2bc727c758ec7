//! One workout attempt: the tick clock and the announcement scheduler,
//! driven together. Each tick advances the clock, rebuilds the timeline
//! from the current settings snapshot, maps the new elapsed time onto it,
//! and decides the announcements. Resetting the clock to zero is the one
//! event that clears the announcement memory.

use vstd::prelude::*;
use crate::clock::MAX_TICKS;
use crate::clock::TimerClock;
use crate::mapper::mapping_ok;
use crate::routine::Routine;
use crate::routine::Stage;
use crate::routine::spec_timeline;
use crate::routine::spec_total_secs;
use crate::routine::sum_durations;
use crate::scheduler::AnnouncementScheduler;
use crate::scheduler::announcement_keys;
use crate::scheduler::process_candidates;
use crate::scheduler::spec_candidates;
use crate::settings::WorkoutSettings;

verus! {

/// What one tick reports to the caller: the announcements to speak, the
/// mapper result to render, the remaining time, and whether a completion
/// is due to be recorded.
pub struct TickReport {
    pub announcements: Vec<(usize, String)>,
    pub mapped: Option<(usize, Stage, Option<Stage>, u64)>,
    pub time_left_ms: u64,
    pub completion_due: bool,
}

/// The per-workout state: clock plus announcement memory.
pub struct WorkoutSession {
    pub clock: TimerClock,
    pub scheduler: AnnouncementScheduler,
}

impl WorkoutSession {
    pub open spec fn wf(&self) -> bool {
        self.clock.wf()
    }

    /// Idle at zero elapsed time, with no remembered announcements.
    pub fn new() -> (r: WorkoutSession)
        ensures
            r.clock.elapsed_ticks == 0,
            !r.clock.running,
            r.scheduler@ == Seq::<(int, Seq<char>)>::empty(),
            r.wf(),
    {
        WorkoutSession { clock: TimerClock::new(), scheduler: AnnouncementScheduler::new() }
    }

    /// Starts or resumes the clock. The announcement memory is kept.
    pub fn resume(&mut self)
        ensures
            final(self).clock.running,
            final(self).clock.elapsed_ticks == old(self).clock.elapsed_ticks,
            final(self).scheduler@ == old(self).scheduler@,
    {
        self.clock.resume();
    }

    /// Pauses the clock. The announcement memory is kept.
    pub fn pause(&mut self)
        ensures
            !final(self).clock.running,
            final(self).clock.elapsed_ticks == old(self).clock.elapsed_ticks,
            final(self).scheduler@ == old(self).scheduler@,
    {
        self.clock.pause();
    }

    /// Resets the clock to zero and clears the announcement memory: the
    /// sole trigger that re-arms every announcement.
    pub fn reset(&mut self)
        ensures
            !final(self).clock.running,
            final(self).clock.elapsed_ticks == 0,
            final(self).scheduler@ == Seq::<(int, Seq<char>)>::empty(),
            final(self).wf(),
    {
        self.clock.reset();
        self.scheduler.reset();
    }

    pub fn is_running(&self) -> (r: bool)
        ensures
            r == self.clock.running,
    {
        self.clock.running
    }

    /// One tick of the whole core: the clock advances (while running),
    /// the timeline is rebuilt from the current settings snapshot, the
    /// new elapsed time is mapped onto it, and the due announcements are
    /// emitted at most once per run. A completion is due exactly when the
    /// remaining time has reached zero while the clock is running; the
    /// caller records it against the settings, which applies the
    /// debounce.
    pub fn on_tick(&mut self, routine: &Routine, settings: &WorkoutSettings) -> (r: TickReport)
        requires
            old(self).wf(),
            old(self).clock.elapsed_ticks < MAX_TICKS,
            1000 * spec_total_secs(routine@.exercises, settings@) <= u64::MAX,
        ensures
            final(self).wf(),
            final(self).clock.running == old(self).clock.running,
            final(self).clock.elapsed_ticks == if old(self).clock.running {
                old(self).clock.elapsed_ticks + 1
            } else {
                old(self).clock.elapsed_ticks as int
            },
            ({
                let t = final(self).clock.spec_elapsed_ms();
                let tl = spec_timeline(routine@.exercises, settings@);
                let total_ms = 1000 * sum_durations(tl);
                let step = process_candidates(
                    old(self).scheduler@,
                    spec_candidates(final(self).clock.running, r.mapped),
                );
                &&& mapping_ok(tl, t, r.mapped)
                &&& announcement_keys(r.announcements@) == step.0
                &&& final(self).scheduler@ == step.1
                &&& r.time_left_ms == if t >= total_ms {
                    0int
                } else {
                    total_ms - t
                }
                &&& r.completion_due == (final(self).clock.running && t >= total_ms)
            }),
    {
        self.clock.tick();
        let t = self.clock.elapsed_ms();
        let mapped = routine.stage_at_t(settings, t);
        let announcements = self.scheduler.on_tick(self.clock.running, &mapped);
        let total_ms = 1000 * routine.duration(settings);
        let time_left_ms = if t >= total_ms {
            0
        } else {
            total_ms - t
        };
        let completion_due = self.clock.running && t >= total_ms;
        TickReport { announcements, mapped, time_left_ms, completion_due }
    }
}

} // verus!
