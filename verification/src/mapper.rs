//! Mapping elapsed time onto the timeline: which stage is active, how far
//! into it the clock is, and what comes next. Times are whole
//! milliseconds; the boundary policy is strict: a stage is active for
//! `start <= t < end`, so a zero-duration stage is never selected.

use vstd::prelude::*;
use crate::routine::Routine;
use crate::routine::Stage;
use crate::routine::StageView;
use crate::routine::lemma_sum_nonneg;
use crate::routine::lemma_sum_take_bounds;
use crate::routine::lemma_sum_take_step;
use crate::routine::spec_timeline;
use crate::routine::spec_total_secs;
use crate::routine::stages_view;
use crate::routine::sum_durations;
use crate::settings::WorkoutSettings;

verus! {

/// Milliseconds from the timeline start to the start of stage `i`.
pub open spec fn start_ms(tl: Seq<StageView>, i: int) -> int {
    1000 * sum_durations(tl.take(i))
}

/// Milliseconds from the timeline start to the end of stage `i`.
pub open spec fn end_ms(tl: Seq<StageView>, i: int) -> int {
    start_ms(tl, i) + 1000 * tl[i].duration_secs
}

/// Stage `i` is the one an elapsed time of `t` milliseconds falls in:
/// the first stage whose cumulative end strictly exceeds `t`. Under the
/// strict bound a zero-duration stage is never active.
pub open spec fn stage_active_at(tl: Seq<StageView>, t: int, i: int) -> bool {
    &&& 0 <= i < tl.len()
    &&& start_ms(tl, i) <= t
    &&& t < end_ms(tl, i)
}

/// The view of an optional stage.
pub open spec fn opt_stage_view(o: Option<Stage>) -> Option<StageView> {
    match o {
        None => None,
        Some(s) => Some(s@),
    }
}

/// What a correct mapping of elapsed time `t` (ms) onto timeline `tl`
/// returns: `None` exactly once the whole timeline has elapsed, else the
/// active stage's index, the stage itself, the following stage if any,
/// and the time spent within the active stage.
pub open spec fn mapping_ok(
    tl: Seq<StageView>,
    t: int,
    r: Option<(usize, Stage, Option<Stage>, u64)>,
) -> bool {
    &&& (r is None <==> t >= 1000 * sum_durations(tl))
    &&& match r {
        None => true,
        Some((i, stage, next, t_in)) => {
            &&& stage_active_at(tl, t, i as int)
            &&& stage@ == tl[i as int]
            &&& opt_stage_view(next) == (if i + 1 < tl.len() {
                Some(tl[i as int + 1])
            } else {
                None::<StageView>
            })
            &&& t_in == t - start_ms(tl, i as int)
        },
    }
}

/// Prefix totals only grow along the timeline.
pub proof fn lemma_sum_take_mono(tl: Seq<StageView>, a: int, b: int)
    requires
        0 <= a <= b <= tl.len(),
    ensures
        sum_durations(tl.take(a)) <= sum_durations(tl.take(b)),
    decreases b - a,
{
    if a < b {
        lemma_sum_take_mono(tl, a + 1, b);
        lemma_sum_take_step(tl, a);
    }
}

/// The mapping is a function of the timeline and the elapsed time alone:
/// at most one stage is active at any time, so two calls on identical
/// inputs describe the same stage.
pub proof fn lemma_active_stage_unique(tl: Seq<StageView>, t: int, i: int, j: int)
    requires
        stage_active_at(tl, t, i),
        stage_active_at(tl, t, j),
    ensures
        i == j,
{
    if i < j {
        lemma_sum_take_step(tl, i);
        lemma_sum_take_mono(tl, i + 1, j);
    } else if j < i {
        lemma_sum_take_step(tl, j);
        lemma_sum_take_mono(tl, j + 1, i);
    }
}

/// Purity law: the mapping relation admits one outcome per input, so two
/// mapper calls on an identical timeline and elapsed time agree in every
/// observable part — and the mapper takes the routine and settings by
/// shared reference, so it cannot have changed them.
pub proof fn lemma_mapping_deterministic(
    tl: Seq<StageView>,
    t: int,
    r1: Option<(usize, Stage, Option<Stage>, u64)>,
    r2: Option<(usize, Stage, Option<Stage>, u64)>,
)
    requires
        mapping_ok(tl, t, r1),
        mapping_ok(tl, t, r2),
    ensures
        r1 is Some <==> r2 is Some,
        match (r1, r2) {
            (Some((i1, s1, n1, t1)), Some((i2, s2, n2, t2))) => {
                &&& i1 == i2
                &&& s1@ == s2@
                &&& opt_stage_view(n1) == opt_stage_view(n2)
                &&& t1 == t2
            },
            _ => true,
        },
{
    if r1 is Some && r2 is Some {
        let (i1, s1, n1, t1) = r1->Some_0;
        let (i2, s2, n2, t2) = r2->Some_0;
        lemma_active_stage_unique(tl, t, i1 as int, i2 as int);
    }
}

/// Boundary law: at exactly the cumulative boundary between stage `i` and
/// stage `i + 1`, stage `i` is never the active one; if the following
/// stage has positive duration, it is.
pub proof fn lemma_boundary_selects_next(tl: Seq<StageView>, i: int)
    requires
        0 <= i,
        i + 1 < tl.len(),
        tl[i + 1].duration_secs > 0,
    ensures
        !stage_active_at(tl, end_ms(tl, i), i),
        stage_active_at(tl, end_ms(tl, i), i + 1),
{
    lemma_sum_take_step(tl, i);
    lemma_sum_take_step(tl, i + 1);
}

impl Routine {
    /// Maps an elapsed time (milliseconds) onto the timeline built from
    /// the current settings snapshot. Returns the active stage's index,
    /// the stage, the following stage if any, and the time already spent
    /// within the active stage — or `None` once the whole timeline has
    /// elapsed. The boundary check is strictly `<`, so at an exact stage
    /// boundary the later stage is selected and zero-duration stages are
    /// skipped.
    pub fn stage_at_t(&self, settings: &WorkoutSettings, t_ms: u64) -> (r: Option<
        (usize, Stage, Option<Stage>, u64),
    >)
        requires
            1000 * spec_total_secs(self@.exercises, settings@) <= u64::MAX,
        ensures
            mapping_ok(spec_timeline(self@.exercises, settings@), t_ms as int, r),
    {
        let stages = self.stages(settings);
        let ghost tl = stages_view(stages@);
        let n = stages.len();
        let mut cum: u64 = 0;
        proof {
            lemma_sum_nonneg(tl);
        }
        for i in 0..n
            invariant
                n == stages.len(),
                tl == stages_view(stages@),
                tl == spec_timeline(self@.exercises, settings@),
                1000 * sum_durations(tl) <= u64::MAX,
                cum == 1000 * sum_durations(tl.take(i as int)),
                cum <= t_ms,
        {
            proof {
                lemma_sum_take_step(tl, i as int);
                lemma_sum_take_bounds(tl, i + 1);
                assert(tl[i as int] == stages@[i as int]@);
            }
            let end = cum + 1000 * (stages[i].duration_secs as u64);
            if t_ms < end {
                let stage = stages[i].duplicate();
                let next = if i + 1 < n {
                    proof {
                        assert(tl[i as int + 1] == stages@[i as int + 1]@);
                    }
                    Some(stages[i + 1].duplicate())
                } else {
                    None
                };
                return Some((i, stage, next, t_ms - cum));
            }
            cum = end;
        }
        proof {
            assert(tl.take(n as int) =~= tl);
        }
        None
    }
}

} // verus!
