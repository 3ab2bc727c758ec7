//! Workout settings: the four duration parameters, the completion history,
//! and the rules for filling missing fields with defaults and for recording
//! a routine completion with a debounce.

use vstd::prelude::*;

verus! {

/// Looks a name up in a completion list, scanning from position `i`:
/// the first entry whose name matches wins.
pub open spec fn log_lookup_from(entries: Seq<(Seq<char>, i64)>, name: Seq<char>, i: int) -> Option<i64>
    decreases entries.len() - i,
{
    if i < 0 || i >= entries.len() {
        None
    } else if entries[i].0 == name {
        Some(entries[i].1)
    } else {
        log_lookup_from(entries, name, i + 1)
    }
}

/// The timestamp recorded for `name`, if any.
pub open spec fn log_lookup(entries: Seq<(Seq<char>, i64)>, name: Seq<char>) -> Option<i64> {
    log_lookup_from(entries, name, 0)
}

/// Whether a completion is recorded for `name`.
pub open spec fn log_contains(entries: Seq<(Seq<char>, i64)>, name: Seq<char>) -> bool {
    log_lookup(entries, name) is Some
}

/// No two entries share a name.
pub open spec fn log_names_unique(entries: Seq<(Seq<char>, i64)>) -> bool {
    forall|p: int, q: int| 0 <= p < q < entries.len() ==> entries[p].0 != entries[q].0
}

/// History of routine completions: for each routine name, the Unix
/// timestamp (in seconds) of the last recorded completion.
pub struct CompletionLog {
    entries: Vec<(String, i64)>,
}

/// The views of a list of completion entries.
pub open spec fn log_view(s: Seq<(String, i64)>) -> Seq<(Seq<char>, i64)> {
    s.map_values(|e: (String, i64)| (e.0@, e.1))
}

impl View for CompletionLog {
    type V = Seq<(Seq<char>, i64)>;

    closed spec fn view(&self) -> Seq<(Seq<char>, i64)> {
        log_view(self.entries@)
    }
}

impl CompletionLog {
    /// Each name appears at most once.
    pub open spec fn wf(&self) -> bool {
        log_names_unique(self@)
    }

    pub fn new() -> (r: CompletionLog)
        ensures
            r@ == Seq::<(Seq<char>, i64)>::empty(),
            r.wf(),
    {
        let r = CompletionLog { entries: Vec::new() };
        proof {
            assert(r@ =~= Seq::<(Seq<char>, i64)>::empty());
        }
        r
    }

    pub fn len(&self) -> (n: usize)
        ensures
            n == self@.len(),
    {
        self.entries.len()
    }

    /// The recorded entries, in insertion order.
    pub fn as_entries(&self) -> (r: &Vec<(String, i64)>)
        ensures
            log_view(r@) == self@,
    {
        &self.entries
    }

    pub fn is_empty(&self) -> (r: bool)
        ensures
            r == (self@.len() == 0),
    {
        self.entries.len() == 0
    }

    pub fn contains(&self, name: &String) -> (r: bool)
        ensures
            r == log_contains(self@, name@),
    {
        self.get(name).is_some()
    }

    /// The recorded timestamp for `name`, or `None`.
    pub fn get(&self, name: &String) -> (r: Option<i64>)
        ensures
            r == log_lookup(self@, name@),
    {
        let n = self.entries.len();
        for i in 0..n
            invariant
                n == self.entries.len(),
                log_lookup(self@, name@) == log_lookup_from(self@, name@, i as int),
        {
            let hit = self.entries[i].0.eq(name);
            proof {
                assert(self@[i as int] == (self.entries@[i as int].0@, self.entries@[i as int].1));
            }
            if hit {
                return Some(self.entries[i].1);
            }
        }
        None
    }

    /// Inserts or replaces the timestamp recorded for `name`.
    pub fn insert(&mut self, name: &String, ts: i64)
        requires
            old(self).wf(),
        ensures
            final(self).wf(),
            log_lookup(final(self)@, name@) == Some(ts),
            forall|n: Seq<char>| n != name@ ==> log_lookup(final(self)@, n) == log_lookup(old(self)@, n),
            final(self)@.len() == if log_contains(old(self)@, name@) {
                old(self)@.len() as int
            } else {
                old(self)@.len() + 1 as int
            },
    {
        let ghost s0 = self@;
        let n_entries = self.entries.len();
        for i in 0..n_entries
            invariant
                n_entries == self.entries.len(),
                self@ == s0,
                s0 == old(self)@,
                log_names_unique(s0),
                forall|j: int| 0 <= j < i ==> s0[j].0 != name@,
        {
            let hit = self.entries[i].0.eq(name);
            proof {
                assert(self@[i as int] == (self.entries@[i as int].0@, self.entries@[i as int].1));
            }
            if hit {
                proof {
                    lemma_prefix_miss(s0, name@, i as int);
                    assert(log_lookup(s0, name@) == Some(s0[i as int].1));
                }
                self.entries.set(i, (name.clone(), ts));
                proof {
                    assert(self@ =~= s0.update(i as int, (name@, ts)));
                    let e = (name@, ts);
                    assert forall|p: int, q: int| 0 <= p < q < self@.len() implies self@[p].0 != self@[q].0 by {
                        assert(s0[p].0 != s0[q].0);
                    }
                    lemma_lookup_update(s0, i as int, e, name@, 0);
                    assert forall|n: Seq<char>| n != name@ implies log_lookup(self@, n) == log_lookup(s0, n) by {
                        lemma_lookup_update(s0, i as int, e, n, 0);
                    }
                }
                return;
            }
        }
        self.entries.push((name.clone(), ts));
        proof {
            assert(self@ =~= s0.push((name@, ts)));
            let e = (name@, ts);
            lemma_no_match_lookup_none(s0, name@, 0);
            assert forall|p: int, q: int| 0 <= p < q < self@.len() implies self@[p].0 != self@[q].0 by {
                if q < s0.len() {
                    assert(s0[p].0 != s0[q].0);
                }
            }
            lemma_lookup_push(s0, e, name@, 0);
            assert forall|n: Seq<char>| n != name@ implies log_lookup(self@, n) == log_lookup(s0, n) by {
                lemma_lookup_push(s0, e, n, 0);
            }
        }
    }
}

/// Mathematical image of a `WorkoutSettings` snapshot.
#[verifier::ext_equal]
pub struct SettingsView {
    pub high_intensity_duration_secs: u32,
    pub rest_exercise_duration_secs: u32,
    pub rest_set_duration_secs: u32,
    pub sets: u32,
    pub routine_completions: Seq<(Seq<char>, i64)>,
}

/// The four duration parameters that drive the timeline, plus the
/// completion history. Treated as an immutable snapshot per read.
pub struct WorkoutSettings {
    pub high_intensity_duration_secs: u32,
    pub rest_exercise_duration_secs: u32,
    pub rest_set_duration_secs: u32,
    pub sets: u32,
    pub routine_completions: CompletionLog,
}

impl View for WorkoutSettings {
    type V = SettingsView;

    open spec fn view(&self) -> SettingsView {
        SettingsView {
            high_intensity_duration_secs: self.high_intensity_duration_secs,
            rest_exercise_duration_secs: self.rest_exercise_duration_secs,
            rest_set_duration_secs: self.rest_set_duration_secs,
            sets: self.sets,
            routine_completions: self.routine_completions@,
        }
    }
}

pub open spec fn default_high_intensity_duration() -> u32 {
    30
}

pub open spec fn default_rest_exercise_duration() -> u32 {
    15
}

pub open spec fn default_rest_set_duration() -> u32 {
    30
}

pub open spec fn default_sets() -> u32 {
    3
}

impl Default for WorkoutSettings {
    /// The documented defaults: 30 s work, 15 s exercise rest, 30 s set
    /// rest, 3 sets, and no completions.
    fn default() -> (r: WorkoutSettings)
        ensures
            r@.high_intensity_duration_secs == default_high_intensity_duration(),
            r@.rest_exercise_duration_secs == default_rest_exercise_duration(),
            r@.rest_set_duration_secs == default_rest_set_duration(),
            r@.sets == default_sets(),
            r@.routine_completions == Seq::<(Seq<char>, i64)>::empty(),
            r.wf(),
    {
        WorkoutSettings {
            high_intensity_duration_secs: 30,
            rest_exercise_duration_secs: 15,
            rest_set_duration_secs: 30,
            sets: 3,
            routine_completions: CompletionLog::new(),
        }
    }
}

/// Whether a new completion of `name` at time `now` may be recorded:
/// either none is on record, or the last one is more than 10 seconds old.
pub open spec fn completion_debounce_ok(entries: Seq<(Seq<char>, i64)>, name: Seq<char>, now: i64) -> bool {
    match log_lookup(entries, name) {
        None => true,
        Some(last) => now - last > 10,
    }
}

impl WorkoutSettings {
    /// Each routine name appears at most once in the completion history.
    pub open spec fn wf(&self) -> bool {
        log_names_unique(self@.routine_completions)
    }

    /// Builds a settings value from independently loaded fields: each
    /// missing field falls back to its documented default.
    pub fn from_parts(
        high_intensity_duration_secs: Option<u32>,
        rest_exercise_duration_secs: Option<u32>,
        rest_set_duration_secs: Option<u32>,
        sets: Option<u32>,
        routine_completions: Option<CompletionLog>,
    ) -> (r: WorkoutSettings)
        requires
            match routine_completions {
                Some(c) => c.wf(),
                None => true,
            },
        ensures
            r@.high_intensity_duration_secs == match high_intensity_duration_secs {
                Some(v) => v,
                None => default_high_intensity_duration(),
            },
            r@.rest_exercise_duration_secs == match rest_exercise_duration_secs {
                Some(v) => v,
                None => default_rest_exercise_duration(),
            },
            r@.rest_set_duration_secs == match rest_set_duration_secs {
                Some(v) => v,
                None => default_rest_set_duration(),
            },
            r@.sets == match sets {
                Some(v) => v,
                None => default_sets(),
            },
            r@.routine_completions == match routine_completions {
                Some(c) => c@,
                None => Seq::<(Seq<char>, i64)>::empty(),
            },
            r.wf(),
    {
        let completions = match routine_completions {
            Some(c) => c,
            None => CompletionLog::new(),
        };
        WorkoutSettings {
            high_intensity_duration_secs: match high_intensity_duration_secs {
                Some(v) => v,
                None => 30,
            },
            rest_exercise_duration_secs: match rest_exercise_duration_secs {
                Some(v) => v,
                None => 15,
            },
            rest_set_duration_secs: match rest_set_duration_secs {
                Some(v) => v,
                None => 30,
            },
            sets: match sets {
                Some(v) => v,
                None => 3,
            },
            routine_completions: completions,
        }
    }

    /// Records a completion of `name` at time `now`, unless one is already
    /// on record from within the last 10 seconds.
    pub fn record_completion(&mut self, name: &String, now: i64) -> (recorded: bool)
        requires
            old(self).wf(),
        ensures
            final(self).wf(),
            recorded == completion_debounce_ok(old(self)@.routine_completions, name@, now),
            final(self)@.high_intensity_duration_secs == old(self)@.high_intensity_duration_secs,
            final(self)@.rest_exercise_duration_secs == old(self)@.rest_exercise_duration_secs,
            final(self)@.rest_set_duration_secs == old(self)@.rest_set_duration_secs,
            final(self)@.sets == old(self)@.sets,
            recorded ==> log_lookup(final(self)@.routine_completions, name@) == Some(now),
            recorded ==> forall|n: Seq<char>|
                n != name@ ==> log_lookup(final(self)@.routine_completions, n) == log_lookup(
                    old(self)@.routine_completions,
                    n,
                ),
            !recorded ==> final(self)@ == old(self)@,
    {
        let last = self.routine_completions.get(name);
        let recorded = match last {
            None => true,
            Some(l) => (now as i128) - (l as i128) > 10,
        };
        if recorded {
            self.routine_completions.insert(name, now);
        }
        recorded
    }

    /// Records a completion of `name` at the current wall-clock time,
    /// with the same 10 second debounce as `record_completion`. Returns
    /// whether it recorded, and the timestamp it used.
    pub fn record_completion_now(&mut self, name: &String) -> (r: (bool, i64))
        requires
            old(self).wf(),
        ensures
            final(self).wf(),
            r.0 == completion_debounce_ok(old(self)@.routine_completions, name@, r.1),
            final(self)@.high_intensity_duration_secs == old(self)@.high_intensity_duration_secs,
            final(self)@.rest_exercise_duration_secs == old(self)@.rest_exercise_duration_secs,
            final(self)@.rest_set_duration_secs == old(self)@.rest_set_duration_secs,
            final(self)@.sets == old(self)@.sets,
            r.0 ==> log_lookup(final(self)@.routine_completions, name@) == Some(r.1),
            r.0 ==> forall|n: Seq<char>|
                n != name@ ==> log_lookup(final(self)@.routine_completions, n) == log_lookup(
                    old(self)@.routine_completions,
                    n,
                ),
            !r.0 ==> final(self)@ == old(self)@,
    {
        let now = now_timestamp();
        let recorded = self.record_completion(name, now);
        (recorded, now)
    }

    /// Overwrites the four duration parameters at once, keeping the
    /// completion history.
    pub fn apply_preset(
        &mut self,
        high_intensity_duration_secs: u32,
        rest_exercise_duration_secs: u32,
        rest_set_duration_secs: u32,
        sets: u32,
    )
        ensures
            final(self)@ == (SettingsView {
                high_intensity_duration_secs,
                rest_exercise_duration_secs,
                rest_set_duration_secs,
                sets,
                routine_completions: old(self)@.routine_completions,
            }),
    {
        self.high_intensity_duration_secs = high_intensity_duration_secs;
        self.rest_exercise_duration_secs = rest_exercise_duration_secs;
        self.rest_set_duration_secs = rest_set_duration_secs;
        self.sets = sets;
    }

    pub fn is_low_preset(&self) -> (r: bool)
        ensures
            r == (self@.high_intensity_duration_secs == 30 && self@.rest_exercise_duration_secs
                == 15 && self@.rest_set_duration_secs == 30 && self@.sets == 3),
    {
        self.high_intensity_duration_secs == 30 && self.rest_exercise_duration_secs == 15
            && self.rest_set_duration_secs == 30 && self.sets == 3
    }

    pub fn is_mid_preset(&self) -> (r: bool)
        ensures
            r == (self@.high_intensity_duration_secs == 45 && self@.rest_exercise_duration_secs
                == 10 && self@.rest_set_duration_secs == 15 && self@.sets == 4),
    {
        self.high_intensity_duration_secs == 45 && self.rest_exercise_duration_secs == 10
            && self.rest_set_duration_secs == 15 && self.sets == 4
    }

    pub fn is_high_preset(&self) -> (r: bool)
        ensures
            r == (self@.high_intensity_duration_secs == 60 && self@.rest_exercise_duration_secs
                == 0 && self@.rest_set_duration_secs == 15 && self@.sets == 6),
    {
        self.high_intensity_duration_secs == 60 && self.rest_exercise_duration_secs == 0
            && self.rest_set_duration_secs == 15 && self.sets == 6
    }
}

/// Relies on chrono::Utc::now for the current wall-clock time. Nothing is
/// assumed about the value it returns.
#[verifier::external_body]
fn now_timestamp() -> i64 {
    chrono::Utc::now().timestamp()
}

proof fn lemma_lookup_update(s: Seq<(Seq<char>, i64)>, k: int, e: (Seq<char>, i64), n: Seq<char>, i: int)
    requires
        0 <= i <= s.len(),
        0 <= k < s.len(),
        s[k].0 == e.0,
        log_names_unique(s),
    ensures
        log_lookup_from(s.update(k, e), n, i) == if n == e.0 && i <= k {
            Some(e.1)
        } else {
            log_lookup_from(s, n, i)
        },
    decreases s.len() - i,
{
    if i < s.len() {
        if i < k {
            assert(s[i].0 != s[k].0);
        }
        lemma_lookup_update(s, k, e, n, i + 1);
    }
}

proof fn lemma_lookup_push(s: Seq<(Seq<char>, i64)>, e: (Seq<char>, i64), n: Seq<char>, i: int)
    requires
        0 <= i <= s.len(),
    ensures
        log_lookup_from(s.push(e), n, i) == match log_lookup_from(s, n, i) {
            Some(v) => Some(v),
            None => if n == e.0 {
                Some(e.1)
            } else {
                None
            },
        },
    decreases s.len() - i,
{
    if i < s.len() {
        lemma_lookup_push(s, e, n, i + 1);
    } else {
        assert(s.push(e)[i] == e);
        if n != e.0 {
            assert(log_lookup_from(s.push(e), n, i + 1) is None);
        }
    }
}

proof fn lemma_prefix_miss(s: Seq<(Seq<char>, i64)>, n: Seq<char>, i: int)
    requires
        0 <= i <= s.len(),
        forall|j: int| 0 <= j < i ==> s[j].0 != n,
    ensures
        log_lookup(s, n) == log_lookup_from(s, n, i),
    decreases i,
{
    if i > 0 {
        lemma_prefix_miss(s, n, i - 1);
    }
}

proof fn lemma_no_match_lookup_none(s: Seq<(Seq<char>, i64)>, n: Seq<char>, i: int)
    requires
        0 <= i <= s.len(),
        forall|j: int| i <= j < s.len() ==> s[j].0 != n,
    ensures
        log_lookup_from(s, n, i) is None,
    decreases s.len() - i,
{
    if i < s.len() {
        lemma_no_match_lookup_none(s, n, i + 1);
    }
}

} // verus!
