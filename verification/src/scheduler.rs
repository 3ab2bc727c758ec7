//! One-shot announcement scheduling: per tick, decide which texts to
//! speak from the mapper result, and remember each emitted
//! `(stage index, text)` key so that no key ever fires twice within one
//! run. The memory is cleared only when the clock is reset.

use vstd::prelude::*;
use crate::routine::Stage;

verus! {

/// The keys of remembered or emitted announcements.
pub open spec fn announcement_keys(s: Seq<(usize, String)>) -> Seq<(int, Seq<char>)> {
    s.map_values(|e: (usize, String)| (e.0 as int, e.1@))
}

/// Processes announcement candidates in order against a memory of keys:
/// a candidate not yet remembered is emitted and remembered, one already
/// remembered is dropped.
pub open spec fn process_candidates(
    mem: Seq<(int, Seq<char>)>,
    cands: Seq<(int, Seq<char>)>,
) -> (Seq<(int, Seq<char>)>, Seq<(int, Seq<char>)>)
    decreases cands.len(),
{
    if cands.len() == 0 {
        (Seq::empty(), mem)
    } else {
        let k = cands[0];
        if mem.contains(k) {
            process_candidates(mem, cands.drop_first())
        } else {
            let rest = process_candidates(mem.push(k), cands.drop_first());
            (seq![k] + rest.0, rest.1)
        }
    }
}

/// The announcements due for one tick: nothing while the clock is not
/// running; the fixed completion text once the timeline has elapsed; the
/// stage label within the first second of a stage; and the countdown text
/// once at most 2.5 seconds of the stage remain.
pub open spec fn spec_candidates(
    running: bool,
    mapped: Option<(usize, Stage, Option<Stage>, u64)>,
) -> Seq<(int, Seq<char>)> {
    if !running {
        Seq::empty()
    } else {
        match mapped {
            None => seq![(0int, "Workout Complete"@)],
            Some((i, stage, next, t_in)) => (if t_in < 1000 {
                seq![(i as int, stage@.label)]
            } else {
                Seq::empty()
            }) + (if 1000 * (stage@.duration_secs as int) <= t_in + 2500 {
                seq![(i as int, "three two one"@)]
            } else {
                Seq::empty()
            }),
        }
    }
}

proof fn lemma_contains_push(s: Seq<(int, Seq<char>)>, k: (int, Seq<char>), x: (int, Seq<char>))
    ensures
        s.push(k).contains(x) <==> (s.contains(x) || x == k),
{
    if s.contains(x) {
        let i = choose|i: int| 0 <= i < s.len() && s[i] == x;
        assert(s.push(k)[i] == x);
    }
    if x == k {
        assert(s.push(k)[s.len() as int] == x);
    }
    if s.push(k).contains(x) {
        let i = choose|i: int| 0 <= i < s.push(k).len() && s.push(k)[i] == x;
        if i < s.len() {
            assert(s[i] == x);
        }
    }
}

proof fn lemma_contains_concat(a: Seq<(int, Seq<char>)>, b: Seq<(int, Seq<char>)>, x: (int, Seq<char>))
    ensures
        (a + b).contains(x) <==> (a.contains(x) || b.contains(x)),
{
    if a.contains(x) {
        let i = choose|i: int| 0 <= i < a.len() && a[i] == x;
        assert((a + b)[i] == x);
    }
    if b.contains(x) {
        let i = choose|i: int| 0 <= i < b.len() && b[i] == x;
        assert((a + b)[a.len() + i] == x);
    }
    if (a + b).contains(x) {
        let i = choose|i: int| 0 <= i < (a + b).len() && (a + b)[i] == x;
        if i < a.len() {
            assert(a[i] == x);
        } else {
            assert(b[i - a.len()] == x);
        }
    }
}

/// What a processing step emits was not remembered before the step, and
/// the memory after the step holds exactly the keys remembered before
/// plus the keys emitted.
pub proof fn lemma_process_step_props(mem: Seq<(int, Seq<char>)>, cands: Seq<(int, Seq<char>)>)
    ensures
        forall|k: (int, Seq<char>)| #[trigger] process_candidates(mem, cands).0.contains(k)
            ==> !mem.contains(k),
        forall|k: (int, Seq<char>)| #[trigger] process_candidates(mem, cands).1.contains(k)
            <==> (mem.contains(k) || process_candidates(mem, cands).0.contains(k)),
    decreases cands.len(),
{
    let step = process_candidates(mem, cands);
    if cands.len() == 0 {
        assert forall|k: (int, Seq<char>)| #[trigger] step.0.contains(k) implies !mem.contains(
            k,
        ) by {}
        assert forall|k: (int, Seq<char>)| #[trigger] step.1.contains(k) <==> (mem.contains(k)
            || step.0.contains(k)) by {}
    } else {
        let k0 = cands[0];
        if mem.contains(k0) {
            lemma_process_step_props(mem, cands.drop_first());
            let p = process_candidates(mem, cands.drop_first());
            assert(step == p);
            assert forall|k: (int, Seq<char>)| #[trigger] step.0.contains(k)
                implies !mem.contains(k) by {
                assert(p.0.contains(k));
            }
            assert forall|k: (int, Seq<char>)| #[trigger] step.1.contains(k) <==> (mem.contains(
                k,
            ) || step.0.contains(k)) by {
                if step.1.contains(k) {
                    assert(p.1.contains(k));
                }
                if step.0.contains(k) {
                    assert(p.0.contains(k));
                }
                if mem.contains(k) || p.0.contains(k) {
                    assert(p.1.contains(k));
                }
            }
        } else {
            lemma_process_step_props(mem.push(k0), cands.drop_first());
            let rest = process_candidates(mem.push(k0), cands.drop_first());
            let emitted = seq![k0] + rest.0;
            assert(step.0 == emitted);
            assert(step.1 == rest.1);
            assert(seq![k0].contains(k0)) by {
                assert(seq![k0][0] == k0);
            }
            assert forall|k: (int, Seq<char>)| #[trigger] step.0.contains(k)
                implies !mem.contains(k) by {
                assert(emitted.contains(k));
                lemma_contains_concat(seq![k0], rest.0, k);
                lemma_contains_push(mem, k0, k);
                if seq![k0].contains(k) {
                    let i = choose|i: int| 0 <= i < seq![k0].len() && seq![k0][i] == k;
                    assert(k == k0);
                } else {
                    assert(rest.0.contains(k));
                }
            }
            assert forall|k: (int, Seq<char>)| #[trigger] step.1.contains(k) <==> (mem.contains(
                k,
            ) || step.0.contains(k)) by {
                lemma_contains_concat(seq![k0], rest.0, k);
                lemma_contains_push(mem, k0, k);
                if seq![k0].contains(k) {
                    let i = choose|i: int| 0 <= i < seq![k0].len() && seq![k0][i] == k;
                    assert(k == k0);
                }
                assert(rest.1.contains(k) <==> (mem.push(k0).contains(k) || rest.0.contains(k)));
            }
        }
    }
}

/// The memory grows by at most one key per candidate, so it stays
/// bounded by the keys the ticks of one run can propose.
pub proof fn lemma_process_step_len(mem: Seq<(int, Seq<char>)>, cands: Seq<(int, Seq<char>)>)
    ensures
        process_candidates(mem, cands).1.len() <= mem.len() + cands.len(),
    decreases cands.len(),
{
    if cands.len() > 0 {
        let k0 = cands[0];
        if mem.contains(k0) {
            lemma_process_step_len(mem, cands.drop_first());
        } else {
            lemma_process_step_len(mem.push(k0), cands.drop_first());
        }
    }
}

/// Within one tick too, each key is emitted at most once.
pub proof fn lemma_process_step_no_dup(
    mem: Seq<(int, Seq<char>)>,
    cands: Seq<(int, Seq<char>)>,
    a: int,
    b: int,
)
    requires
        0 <= a < b < process_candidates(mem, cands).0.len(),
    ensures
        process_candidates(mem, cands).0[a] != process_candidates(mem, cands).0[b],
    decreases cands.len(),
{
    let step = process_candidates(mem, cands);
    let k0 = cands[0];
    if mem.contains(k0) {
        lemma_process_step_no_dup(mem, cands.drop_first(), a, b);
    } else {
        let rest = process_candidates(mem.push(k0), cands.drop_first());
        assert(step.0 == seq![k0] + rest.0);
        if a == 0 {
            assert(step.0[a] == k0);
            assert(step.0[b] == rest.0[b - 1]);
            lemma_process_step_props(mem.push(k0), cands.drop_first());
            assert(rest.0.contains(rest.0[b - 1]));
            assert(mem.push(k0)[mem.len() as int] == k0);
        } else {
            assert(step.0[a] == rest.0[a - 1]);
            assert(step.0[b] == rest.0[b - 1]);
            lemma_process_step_no_dup(mem.push(k0), cands.drop_first(), a - 1, b - 1);
        }
    }
}

/// The per-tick emissions of one run: the memory starts at `mem` and is
/// carried from tick to tick; each tick's candidate keys are processed in
/// order.
pub open spec fn run_emissions(
    mem: Seq<(int, Seq<char>)>,
    ticks: Seq<Seq<(int, Seq<char>)>>,
) -> (Seq<Seq<(int, Seq<char>)>>, Seq<(int, Seq<char>)>)
    decreases ticks.len(),
{
    if ticks.len() == 0 {
        (Seq::empty(), mem)
    } else {
        let step = process_candidates(mem, ticks[0]);
        let rest = run_emissions(step.1, ticks.drop_first());
        (seq![step.0] + rest.0, rest.1)
    }
}

proof fn lemma_run_emissions_len(mem: Seq<(int, Seq<char>)>, ticks: Seq<Seq<(int, Seq<char>)>>)
    ensures
        run_emissions(mem, ticks).0.len() == ticks.len(),
    decreases ticks.len(),
{
    if ticks.len() > 0 {
        let step = process_candidates(mem, ticks[0]);
        lemma_run_emissions_len(step.1, ticks.drop_first());
    }
}

proof fn lemma_run_never_reemits_remembered(
    mem: Seq<(int, Seq<char>)>,
    ticks: Seq<Seq<(int, Seq<char>)>>,
    k: (int, Seq<char>),
)
    requires
        mem.contains(k),
    ensures
        forall|b: int|
            0 <= b < run_emissions(mem, ticks).0.len() ==> !(#[trigger] run_emissions(
                mem,
                ticks,
            ).0[b].contains(k)),
    decreases ticks.len(),
{
    if ticks.len() > 0 {
        let step = process_candidates(mem, ticks[0]);
        let rest = run_emissions(step.1, ticks.drop_first());
        lemma_process_step_props(mem, ticks[0]);
        lemma_run_never_reemits_remembered(step.1, ticks.drop_first(), k);
        assert forall|b: int|
            0 <= b < run_emissions(mem, ticks).0.len() implies !(#[trigger] run_emissions(
            mem,
            ticks,
        ).0[b].contains(k)) by {
            if b == 0 {
                assert(run_emissions(mem, ticks).0[b] == step.0);
            } else {
                assert(run_emissions(mem, ticks).0[b] == rest.0[b - 1]);
            }
        }
    }
}

/// One-shot law: within one run, with no reset in between, a key emitted
/// at one tick is never emitted again at any later tick; clearing the
/// memory starts a fresh run.
pub proof fn lemma_no_repeat_within_run(
    mem: Seq<(int, Seq<char>)>,
    ticks: Seq<Seq<(int, Seq<char>)>>,
    a: int,
    b: int,
    k: (int, Seq<char>),
)
    requires
        0 <= a < b < run_emissions(mem, ticks).0.len(),
        run_emissions(mem, ticks).0[a].contains(k),
    ensures
        !run_emissions(mem, ticks).0[b].contains(k),
    decreases a + 1,
{
    lemma_run_emissions_len(mem, ticks);
    let step = process_candidates(mem, ticks[0]);
    let rest = run_emissions(step.1, ticks.drop_first());
    if a == 0 {
        assert(run_emissions(mem, ticks).0[a] == step.0);
        lemma_process_step_props(mem, ticks[0]);
        lemma_run_never_reemits_remembered(step.1, ticks.drop_first(), k);
        assert(run_emissions(mem, ticks).0[b] == rest.0[b - 1]);
        lemma_run_emissions_len(step.1, ticks.drop_first());
    } else {
        lemma_no_repeat_within_run(step.1, ticks.drop_first(), a - 1, b - 1, k);
        assert(run_emissions(mem, ticks).0[a] == rest.0[a - 1]);
        assert(run_emissions(mem, ticks).0[b] == rest.0[b - 1]);
    }
}

/// Decides announcements and remembers what it has already emitted.
pub struct AnnouncementScheduler {
    memory: Vec<(usize, String)>,
}

impl View for AnnouncementScheduler {
    type V = Seq<(int, Seq<char>)>;

    closed spec fn view(&self) -> Seq<(int, Seq<char>)> {
        announcement_keys(self.memory@)
    }
}

impl AnnouncementScheduler {
    pub fn new() -> (r: AnnouncementScheduler)
        ensures
            r@ == Seq::<(int, Seq<char>)>::empty(),
    {
        let r = AnnouncementScheduler { memory: Vec::new() };
        proof {
            assert(r@ =~= Seq::<(int, Seq<char>)>::empty());
        }
        r
    }

    /// Forgets every remembered key, re-arming all announcements.
    pub fn reset(&mut self)
        ensures
            final(self)@ == Seq::<(int, Seq<char>)>::empty(),
    {
        self.memory = Vec::new();
        proof {
            assert(self@ =~= Seq::<(int, Seq<char>)>::empty());
        }
    }

    /// How many keys are remembered.
    pub fn len(&self) -> (n: usize)
        ensures
            n == self@.len(),
    {
        self.memory.len()
    }

    /// Whether `(idx, text)` has already been emitted this run.
    pub fn contains_key(&self, idx: usize, text: &String) -> (r: bool)
        ensures
            r == self@.contains((idx as int, text@)),
    {
        let n = self.memory.len();
        for i in 0..n
            invariant
                n == self.memory.len(),
                forall|j: int| 0 <= j < i ==> self@[j] != (idx as int, text@),
        {
            let hit = self.memory[i].0 == idx && self.memory[i].1.eq(text);
            proof {
                assert(self@[i as int] == (self.memory@[i as int].0 as int, self.memory@[i as int].1@));
            }
            if hit {
                return true;
            }
        }
        proof {
            if self@.contains((idx as int, text@)) {
                let j = choose|j: int| 0 <= j < self@.len() && self@[j] == (idx as int, text@);
                assert(self@[j] != (idx as int, text@));
            }
        }
        false
    }

    /// Emits `(idx, text)` unless it is already remembered: the key and
    /// text are appended to `emitted` and to the memory.
    fn emit_once(&mut self, idx: usize, text: String, emitted: &mut Vec<(usize, String)>)
        ensures
            ({
                let k = (idx as int, text@);
                if old(self)@.contains(k) {
                    final(self)@ == old(self)@ && final(emitted)@ == old(emitted)@
                } else {
                    final(self)@ == old(self)@.push(k) && announcement_keys(final(emitted)@)
                        == announcement_keys(old(emitted)@).push(k)
                }
            }),
    {
        let ghost k = (idx as int, text@);
        let known = self.contains_key(idx, &text);
        if !known {
            self.memory.push((idx, text.clone()));
            emitted.push((idx, text));
            proof {
                assert(self@ =~= old(self)@.push(k));
                assert(announcement_keys(emitted@) =~= announcement_keys(old(emitted)@).push(k));
            }
        }
    }

    /// One tick of the scheduler: decides the due announcements from the
    /// running flag and the mapper result, emits each at most once per
    /// run, and remembers what it emitted. Returns the `(stage index,
    /// text)` pairs to hand to the audio output, in order.
    pub fn on_tick(
        &mut self,
        running: bool,
        mapped: &Option<(usize, Stage, Option<Stage>, u64)>,
    ) -> (emitted: Vec<(usize, String)>)
        ensures
            ({
                let step = process_candidates(old(self)@, spec_candidates(running, *mapped));
                announcement_keys(emitted@) == step.0 && final(self)@ == step.1
            }),
    {
        let mut emitted: Vec<(usize, String)> = Vec::new();
        proof {
            assert(announcement_keys(emitted@) =~= Seq::<(int, Seq<char>)>::empty());
        }
        if !running {
            return emitted;
        }
        match mapped {
            None => {
                let ghost k = (0int, "Workout Complete"@);
                let ghost mem0 = self@;
                self.emit_once(0, "Workout Complete".to_owned(), &mut emitted);
                proof {
                    reveal_with_fuel(process_candidates, 3);
                    let cands = spec_candidates(running, *mapped);
                    assert(cands == seq![k]);
                    assert(cands.drop_first() =~= Seq::<(int, Seq<char>)>::empty());
                    if !mem0.contains(k) {
                        assert(Seq::<(int, Seq<char>)>::empty().push(k) =~= seq![k]);
                        assert(seq![k] + Seq::<(int, Seq<char>)>::empty() =~= seq![k]);
                    }
                }
            },
            Some((i, stage, _next, t_in)) => {
                let ghost mem0 = self@;
                let ghost k_label = (*i as int, stage@.label);
                let ghost k_count = (*i as int, "three two one"@);
                let due_label = *t_in < 1000;
                let due_count = 1000u128 * (stage.duration_secs as u128) <= (*t_in as u128)
                    + 2500;
                if due_label {
                    self.emit_once(*i, stage.label.clone(), &mut emitted);
                }
                let ghost mem1 = self@;
                let ghost e1 = announcement_keys(emitted@);
                if due_count {
                    self.emit_once(*i, "three two one".to_owned(), &mut emitted);
                }
                proof {
                    reveal_with_fuel(process_candidates, 4);
                    let cands = spec_candidates(running, *mapped);
                    let empty = Seq::<(int, Seq<char>)>::empty();
                    assert(empty.push(k_label) =~= seq![k_label]);
                    assert(empty.push(k_count) =~= seq![k_count]);
                    assert(seq![k_label].push(k_count) =~= seq![k_label, k_count]);
                    assert(seq![k_label] + seq![k_count] =~= seq![k_label, k_count]);
                    assert(seq![k_count] + empty =~= seq![k_count]);
                    assert(seq![k_label] + empty =~= seq![k_label]);
                    if due_label && due_count {
                        assert(cands =~= seq![k_label, k_count]);
                        assert(cands.drop_first() =~= seq![k_count]);
                        assert(seq![k_count].drop_first() =~= empty);
                        if !mem0.contains(k_label) {
                            assert(e1 == empty.push(k_label));
                            if !mem1.contains(k_count) {
                                assert(seq![k_label] + (seq![k_count] + empty) =~= seq![k_label, k_count]);
                            }
                        }
                    } else if due_label {
                        assert(cands =~= seq![k_label]);
                        assert(cands.drop_first() =~= empty);
                    } else if due_count {
                        assert(cands =~= seq![k_count]);
                        assert(cands.drop_first() =~= empty);
                    } else {
                        assert(cands =~= empty);
                    }
                }
            },
        }
        emitted
    }
}

} // verus!
