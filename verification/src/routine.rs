//! Stages, routines, and the timeline builder: a routine and a settings
//! snapshot determine an ordered sequence of named stages, starting with a
//! fixed prepare stage, with rests between exercises and breaks between
//! sets.

use vstd::prelude::*;
use vstd::string::StringExecFns;
use crate::settings::SettingsView;
use crate::settings::WorkoutSettings;

verus! {

/// Mathematical image of a `Stage`.
#[verifier::ext_equal]
pub struct StageView {
    pub duration_secs: u32,
    pub is_high_intensity: bool,
    pub label: Seq<char>,
}

/// One labeled, fixed-duration segment of a workout.
pub struct Stage {
    pub duration_secs: u32,
    pub is_high_intensity: bool,
    pub label: String,
}

impl View for Stage {
    type V = StageView;

    open spec fn view(&self) -> StageView {
        StageView {
            duration_secs: self.duration_secs,
            is_high_intensity: self.is_high_intensity,
            label: self.label@,
        }
    }
}

impl Stage {
    /// A field-for-field copy.
    pub fn duplicate(&self) -> (r: Stage)
        ensures
            r@ == self@,
    {
        Stage {
            duration_secs: self.duration_secs,
            is_high_intensity: self.is_high_intensity,
            label: self.label.clone(),
        }
    }
}

/// Mathematical image of a `Routine`.
#[verifier::ext_equal]
pub struct RoutineView {
    pub id: Seq<char>,
    pub name: Seq<char>,
    pub exercises: Seq<Seq<char>>,
}

/// A named, ordered list of exercises.
pub struct Routine {
    pub id: String,
    pub name: String,
    pub exercises: Vec<String>,
}

/// The views of a list of exercise names.
pub open spec fn names_view(s: Seq<String>) -> Seq<Seq<char>> {
    s.map_values(|e: String| e@)
}

impl View for Routine {
    type V = RoutineView;

    open spec fn view(&self) -> RoutineView {
        RoutineView { id: self.id@, name: self.name@, exercises: names_view(self.exercises@) }
    }
}

impl Routine {
    /// A field-for-field copy.
    pub fn duplicate(&self) -> (r: Routine)
        ensures
            r@ == self@,
    {
        let mut exercises: Vec<String> = Vec::new();
        let n = self.exercises.len();
        for i in 0..n
            invariant
                n == self.exercises.len(),
                names_view(exercises@) == self@.exercises.take(i as int),
        {
            let ghost pre = exercises@;
            proof {
                assert(names_view(pre).len() == pre.len());
            }
            exercises.push(self.exercises[i].clone());
            proof {
                assert(self@.exercises[i as int] == self.exercises@[i as int]@);
                assert(exercises@.len() == i + 1);
                assert(names_view(exercises@) =~~= self@.exercises.take(i + 1));
            }
        }
        proof {
            assert(self@.exercises.take(n as int) =~= self@.exercises);
        }
        let r = Routine { id: self.id.clone(), name: self.name.clone(), exercises };
        proof {
            assert(r@ =~~= self@);
        }
        r
    }
}

/// The views of a built stage list.
pub open spec fn stages_view(s: Seq<Stage>) -> Seq<StageView> {
    s.map_values(|st: Stage| st@)
}

/// The fixed 10 second preparation stage every timeline starts with.
pub open spec fn prepare_stage() -> StageView {
    StageView { duration_secs: 10, is_high_intensity: false, label: "Prepare"@ }
}

/// A work stage: labeled with the exercise name, high intensity.
pub open spec fn work_stage(label: Seq<char>, s: SettingsView) -> StageView {
    StageView { duration_secs: s.high_intensity_duration_secs, is_high_intensity: true, label }
}

/// The rest stage between consecutive exercises of one set.
pub open spec fn rest_stage(s: SettingsView) -> StageView {
    StageView { duration_secs: s.rest_exercise_duration_secs, is_high_intensity: false, label: "Rest"@ }
}

/// The break stage between consecutive sets.
pub open spec fn set_break_stage(s: SettingsView) -> StageView {
    StageView { duration_secs: s.rest_set_duration_secs, is_high_intensity: false, label: "Set Break"@ }
}

/// One pass through all exercises, with a rest between consecutive
/// exercises only (none after the last).
pub open spec fn set_block(exs: Seq<Seq<char>>, s: SettingsView) -> Seq<StageView>
    decreases exs.len(),
{
    if exs.len() == 0 {
        Seq::empty()
    } else if exs.len() == 1 {
        seq![work_stage(exs[0], s)]
    } else {
        set_block(exs.drop_last(), s) + seq![rest_stage(s), work_stage(exs.last(), s)]
    }
}

/// The first `k` set blocks, with one set break between consecutive
/// blocks only (none after the last).
pub open spec fn set_blocks(exs: Seq<Seq<char>>, s: SettingsView, k: nat) -> Seq<StageView>
    decreases k,
{
    if k == 0 {
        Seq::empty()
    } else if k == 1 {
        set_block(exs, s)
    } else {
        set_blocks(exs, s, (k - 1) as nat) + seq![set_break_stage(s)] + set_block(exs, s)
    }
}

/// The full timeline for an exercise list under a settings snapshot:
/// prepare stage, then the set blocks.
pub open spec fn spec_timeline(exs: Seq<Seq<char>>, s: SettingsView) -> Seq<StageView> {
    seq![prepare_stage()] + set_blocks(exs, s, s.sets as nat)
}

/// The exercise names joined with ", ".
pub open spec fn spec_description(names: Seq<Seq<char>>) -> Seq<char>
    decreases names.len(),
{
    if names.len() == 0 {
        Seq::empty()
    } else if names.len() == 1 {
        names[0]
    } else {
        spec_description(names.drop_last()) + ", "@ + names.last()
    }
}

impl Routine {
    /// The exercise names joined with ", ".
    pub fn description(&self) -> (r: String)
        ensures
            r@ == spec_description(self@.exercises),
    {
        let ghost exs = self@.exercises;
        let mut r = String::new();
        let n = self.exercises.len();
        for i in 0..n
            invariant
                n == self.exercises.len(),
                exs == self@.exercises,
                r@ == spec_description(exs.take(i as int)),
        {
            proof {
                assert(exs[i as int] == self.exercises@[i as int]@);
            }
            if i > 0 {
                r.append(", ");
            }
            r.append(self.exercises[i].as_str());
            proof {
                if i == 0 {
                    assert(exs.take(1)[0] == exs[0]);
                    assert(r@ =~= spec_description(exs.take(1)));
                } else {
                    assert(exs.take(i + 1).drop_last() =~= exs.take(i as int));
                    assert(exs.take(i + 1).last() == exs[i as int]);
                    assert(r@ =~= spec_description(exs.take(i + 1)));
                }
            }
        }
        proof {
            assert(exs.take(n as int) =~= exs);
        }
        r
    }

    /// Builds the timeline from the current settings snapshot: the
    /// prepare stage, then for each set one work stage per exercise with
    /// rests between consecutive exercises, and a set break between
    /// consecutive sets. Rebuilt from scratch on every call.
    pub fn stages(&self, settings: &WorkoutSettings) -> (r: Vec<Stage>)
        ensures
            stages_view(r@) == spec_timeline(self@.exercises, settings@),
    {
        let ghost exs = self@.exercises;
        let ghost sv = settings@;
        let mut r: Vec<Stage> = Vec::new();
        r.push(Stage { duration_secs: 10, is_high_intensity: false, label: "Prepare".to_owned() });
        proof {
            assert(stages_view(r@) =~~= seq![prepare_stage()] + set_blocks(exs, sv, 0));
        }
        let sets = settings.sets;
        let n = self.exercises.len();
        for set_i in 0..sets
            invariant
                n == self.exercises.len(),
                exs == self@.exercises,
                sv == settings@,
                sets == settings@.sets,
                stages_view(r@) == seq![prepare_stage()] + set_blocks(exs, sv, set_i as nat),
        {
            if set_i > 0 {
                r.push(
                    Stage {
                        duration_secs: settings.rest_set_duration_secs,
                        is_high_intensity: false,
                        label: "Set Break".to_owned(),
                    },
                );
            }
            let ghost base = stages_view(r@);
            proof {
                assert(base =~~= seq![prepare_stage()] + set_blocks(exs, sv, set_i as nat) + if set_i
                    > 0 {
                    seq![set_break_stage(sv)]
                } else {
                    Seq::<StageView>::empty()
                });
            }
            for e in 0..n
                invariant
                    n == self.exercises.len(),
                    exs == self@.exercises,
                    sv == settings@,
                    stages_view(r@) == base + set_block(exs.take(e as int), sv),
            {
                proof {
                    assert(exs[e as int] == self.exercises@[e as int]@);
                }
                if e > 0 {
                    r.push(
                        Stage {
                            duration_secs: settings.rest_exercise_duration_secs,
                            is_high_intensity: false,
                            label: "Rest".to_owned(),
                        },
                    );
                }
                r.push(
                    Stage {
                        duration_secs: settings.high_intensity_duration_secs,
                        is_high_intensity: true,
                        label: self.exercises[e].clone(),
                    },
                );
                proof {
                    if e == 0 {
                        assert(exs.take(1)[0] == exs[0]);
                        assert(stages_view(r@) =~~= base + set_block(exs.take(1), sv));
                    } else {
                        assert(exs.take(e + 1).drop_last() =~= exs.take(e as int));
                        assert(exs.take(e + 1).last() == exs[e as int]);
                        let pair = seq![rest_stage(sv), work_stage(exs[e as int], sv)];
                        assert(set_block(exs.take(e + 1), sv) == set_block(exs.take(e as int), sv)
                            + pair);
                        assert(stages_view(r@) =~~= (base + set_block(exs.take(e as int), sv))
                            + pair);
                        assert((base + set_block(exs.take(e as int), sv)) + pair =~~= base
                            + set_block(exs.take(e + 1), sv));
                        assert(stages_view(r@) == base + set_block(exs.take(e + 1), sv));
                    }
                }
            }
            proof {
                assert(exs.take(n as int) =~= exs);
                if set_i == 0 {
                    assert(stages_view(r@) =~~= seq![prepare_stage()] + set_blocks(exs, sv, 1));
                } else {
                    assert(stages_view(r@) =~~= seq![prepare_stage()] + set_blocks(
                        exs,
                        sv,
                        (set_i + 1) as nat,
                    ));
                }
            }
        }
        r
    }

    /// The total timeline duration in milliseconds, when it fits in a
    /// `u64`: the guard a caller checks before driving a session.
    pub fn checked_total_ms(&self, settings: &WorkoutSettings) -> (r: Option<u64>)
        ensures
            match r {
                Some(v) => v == 1000 * spec_total_secs(self@.exercises, settings@),
                None => 1000 * spec_total_secs(self@.exercises, settings@) > u64::MAX,
            },
    {
        let stages = self.stages(settings);
        let ghost tl = stages_view(stages@);
        let mut total: u128 = 0;
        let m = stages.len();
        for i in 0..m
            invariant
                m == stages.len(),
                tl == stages_view(stages@),
                tl == spec_timeline(self@.exercises, settings@),
                total == sum_durations(tl.take(i as int)),
                total <= 0x1_0000_0000u128 * (i as u128),
        {
            proof {
                lemma_sum_take_step(tl, i as int);
                assert(tl[i as int] == stages@[i as int]@);
            }
            total = total + (stages[i].duration_secs as u128);
        }
        proof {
            assert(tl.take(m as int) =~= tl);
        }
        if total <= u64::MAX as u128 / 1000 {
            Some((total as u64) * 1000)
        } else {
            None
        }
    }

    /// Total workout duration in seconds under the given settings: the
    /// sum of all stage durations of the built timeline.
    pub fn duration(&self, settings: &WorkoutSettings) -> (r: u64)
        requires
            spec_total_secs(self@.exercises, settings@) <= u64::MAX,
        ensures
            r == spec_total_secs(self@.exercises, settings@),
    {
        let stages = self.stages(settings);
        let ghost tl = stages_view(stages@);
        let mut total: u64 = 0;
        let m = stages.len();
        for i in 0..m
            invariant
                m == stages.len(),
                tl == stages_view(stages@),
                tl == spec_timeline(self@.exercises, settings@),
                sum_durations(tl) <= u64::MAX,
                total == sum_durations(tl.take(i as int)),
        {
            proof {
                lemma_sum_take_step(tl, i as int);
                lemma_sum_take_bounds(tl, i + 1);
                assert(tl[i as int] == stages@[i as int]@);
            }
            total = total + (stages[i].duration_secs as u64);
        }
        proof {
            assert(tl.take(m as int) =~= tl);
        }
        total
    }
}

/// Total of the stage durations, in seconds.
pub open spec fn sum_durations(tl: Seq<StageView>) -> int
    decreases tl.len(),
{
    if tl.len() == 0 {
        0
    } else {
        sum_durations(tl.drop_last()) + tl.last().duration_secs
    }
}

/// The routine's total duration under a settings snapshot, in seconds.
pub open spec fn spec_total_secs(exs: Seq<Seq<char>>, s: SettingsView) -> int {
    sum_durations(spec_timeline(exs, s))
}

pub proof fn lemma_sum_concat(a: Seq<StageView>, b: Seq<StageView>)
    ensures
        sum_durations(a + b) == sum_durations(a) + sum_durations(b),
    decreases b.len(),
{
    if b.len() == 0 {
        assert(a + b =~= a);
    } else {
        lemma_sum_concat(a, b.drop_last());
        assert((a + b).drop_last() =~= a + b.drop_last());
        assert((a + b).last() == b.last());
    }
}

/// Every stage duration is non-negative, so prefix totals never exceed
/// the whole and never fall below zero.
pub proof fn lemma_sum_take_bounds(tl: Seq<StageView>, i: int)
    requires
        0 <= i <= tl.len(),
    ensures
        0 <= sum_durations(tl.take(i)) <= sum_durations(tl),
    decreases tl.len() - i,
{
    if i == tl.len() {
        assert(tl.take(i) =~= tl);
        lemma_sum_nonneg(tl);
    } else {
        lemma_sum_take_bounds(tl, i + 1);
        lemma_sum_nonneg(tl.take(i));
        assert(tl.take(i + 1).drop_last() =~= tl.take(i));
        assert(tl.take(i + 1).last() == tl[i]);
    }
}

proof fn lemma_sum_singleton(x: StageView)
    ensures
        sum_durations(seq![x]) == x.duration_secs,
{
    assert(seq![x].drop_last() =~= Seq::<StageView>::empty());
    assert(sum_durations(Seq::<StageView>::empty()) == 0);
    assert(seq![x].last() == x);
}

proof fn lemma_sum_pair(x: StageView, y: StageView)
    ensures
        sum_durations(seq![x, y]) == x.duration_secs + y.duration_secs,
{
    lemma_sum_singleton(x);
    assert(seq![x, y].drop_last() =~= seq![x]);
    assert(seq![x, y].last() == y);
}

pub proof fn lemma_sum_nonneg(tl: Seq<StageView>)
    ensures
        sum_durations(tl) >= 0,
    decreases tl.len(),
{
    if tl.len() > 0 {
        lemma_sum_nonneg(tl.drop_last());
    }
}

/// Adding one stage to a prefix adds its duration to the prefix total.
pub proof fn lemma_sum_take_step(tl: Seq<StageView>, i: int)
    requires
        0 <= i < tl.len(),
    ensures
        sum_durations(tl.take(i + 1)) == sum_durations(tl.take(i)) + tl[i].duration_secs,
{
    assert(tl.take(i + 1).drop_last() =~= tl.take(i));
    assert(tl.take(i + 1).last() == tl[i]);
}

/// Stage-count law: with at least one exercise and at least one set, the
/// timeline holds one prepare stage, then per set one work stage per
/// exercise with a rest between consecutive exercises, and one set break
/// between consecutive sets.
pub proof fn lemma_timeline_length(exs: Seq<Seq<char>>, s: SettingsView)
    requires
        exs.len() >= 1,
        s.sets >= 1,
    ensures
        spec_timeline(exs, s).len() == 1 + s.sets * (2 * exs.len() - 1) + (s.sets - 1),
{
    lemma_set_blocks_len(exs, s, s.sets as nat);
}

proof fn lemma_set_block_len(exs: Seq<Seq<char>>, s: SettingsView)
    ensures
        set_block(exs, s).len() == if exs.len() == 0 {
            0int
        } else {
            2 * exs.len() - 1
        },
    decreases exs.len(),
{
    if exs.len() > 1 {
        lemma_set_block_len(exs.drop_last(), s);
    }
}

proof fn lemma_set_blocks_len(exs: Seq<Seq<char>>, s: SettingsView, k: nat)
    requires
        exs.len() >= 1,
        k >= 1,
    ensures
        set_blocks(exs, s, k).len() == k * (2 * exs.len() - 1) + (k - 1),
    decreases k,
{
    let b = 2 * exs.len() - 1;
    lemma_set_block_len(exs, s);
    if k == 1 {
        assert(1 * b == b) by (nonlinear_arith);
    } else {
        lemma_set_blocks_len(exs, s, (k - 1) as nat);
        assert((k - 1) * b + b == k * b) by (nonlinear_arith);
    }
}

/// Total-duration law: the sum of the stage durations equals the closed
/// formula for the routine total used for progress and completion.
pub proof fn lemma_timeline_total(exs: Seq<Seq<char>>, s: SettingsView)
    requires
        exs.len() >= 1,
        s.sets >= 1,
    ensures
        spec_total_secs(exs, s) == 10 + s.sets * (exs.len() * s.high_intensity_duration_secs + (
        exs.len() - 1) * s.rest_exercise_duration_secs) + (s.sets - 1) * s.rest_set_duration_secs,
{
    let blocks = set_blocks(exs, s, s.sets as nat);
    lemma_sum_concat(seq![prepare_stage()], blocks);
    assert(seq![prepare_stage()] + blocks == spec_timeline(exs, s));
    lemma_sum_singleton(prepare_stage());
    lemma_set_blocks_sum(exs, s, s.sets as nat);
}

proof fn lemma_set_block_sum(exs: Seq<Seq<char>>, s: SettingsView)
    requires
        exs.len() >= 1,
    ensures
        sum_durations(set_block(exs, s)) == exs.len() * s.high_intensity_duration_secs + (exs.len()
            - 1) * s.rest_exercise_duration_secs,
    decreases exs.len(),
{
    let n = exs.len() as int;
    let w = s.high_intensity_duration_secs as int;
    let r = s.rest_exercise_duration_secs as int;
    if exs.len() == 1 {
        lemma_sum_singleton(work_stage(exs[0], s));
        assert(1 * w + 0 * r == w) by (nonlinear_arith);
    } else {
        lemma_set_block_sum(exs.drop_last(), s);
        let head = set_block(exs.drop_last(), s);
        let tail = seq![rest_stage(s), work_stage(exs.last(), s)];
        lemma_sum_concat(head, tail);
        lemma_sum_pair(rest_stage(s), work_stage(exs.last(), s));
        assert((n - 1) * w + (n - 2) * r + (r + w) == n * w + (n - 1) * r) by (nonlinear_arith);
    }
}

proof fn lemma_set_blocks_sum(exs: Seq<Seq<char>>, s: SettingsView, k: nat)
    requires
        exs.len() >= 1,
        k >= 1,
    ensures
        sum_durations(set_blocks(exs, s, k)) == k * (exs.len() * s.high_intensity_duration_secs + (
        exs.len() - 1) * s.rest_exercise_duration_secs) + (k - 1) * s.rest_set_duration_secs,
    decreases k,
{
    let b = exs.len() * s.high_intensity_duration_secs as int + (exs.len() - 1)
        * s.rest_exercise_duration_secs as int;
    let p = s.rest_set_duration_secs as int;
    lemma_set_block_sum(exs, s);
    if k == 1 {
        assert(1 * b + 0 * p == b) by (nonlinear_arith);
    } else {
        lemma_set_blocks_sum(exs, s, (k - 1) as nat);
        let head = set_blocks(exs, s, (k - 1) as nat);
        let brk = seq![set_break_stage(s)];
        lemma_sum_concat(head + brk, set_block(exs, s));
        lemma_sum_concat(head, brk);
        lemma_sum_singleton(set_break_stage(s));
        assert((k - 1) * b + (k - 2) * p + p + b == k * b + (k - 1) * p) by (nonlinear_arith);
    }
}

} // verus!
