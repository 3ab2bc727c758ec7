use hiit_timer::routine::Routine;
use hiit_timer::session::WorkoutSession;
use hiit_timer::settings::{CompletionLog, WorkoutSettings};

fn settings(work: u32, exercise_rest: u32, set_rest: u32, sets: u32) -> WorkoutSettings {
    WorkoutSettings {
        high_intensity_duration_secs: work,
        rest_exercise_duration_secs: exercise_rest,
        rest_set_duration_secs: set_rest,
        sets,
        routine_completions: CompletionLog::new(),
    }
}

fn routine_ab() -> Routine {
    Routine {
        id: "x".to_string(),
        name: "AB".to_string(),
        exercises: vec!["A".to_string(), "B".to_string()],
    }
}

#[test]
fn test_prepare_announced_once_over_forty_ticks() {
    // Tick period 25 ms: after 40 ticks one second has elapsed. The
    // "Prepare" label must have been spoken exactly once (on the first
    // tick) and not again on tick 41.
    let s = settings(30, 15, 30, 3);
    let r = routine_ab();
    let mut session = WorkoutSession::new();
    session.resume();
    let mut prepare_count = 0;
    for tick in 1..=41 {
        let report = session.on_tick(&r, &s);
        if tick == 40 {
            assert_eq!(session.clock.elapsed_ticks, 40);
        }
        let here: Vec<_> = report
            .announcements
            .iter()
            .filter(|(i, text)| *i == 0 && text == "Prepare")
            .collect();
        if tick == 1 {
            assert_eq!(here.len(), 1);
        } else {
            assert_eq!(here.len(), 0);
        }
        prepare_count += here.len();
    }
    assert_eq!(prepare_count, 1);
}

#[test]
fn test_countdown_announced_once_per_stage() {
    // Remaining time in the prepare stage crosses 2.5 s at 7.5 s; the
    // countdown is spoken exactly once however many ticks fall in the
    // window.
    let s = settings(30, 15, 30, 3);
    let r = routine_ab();
    let mut session = WorkoutSession::new();
    session.resume();
    let mut countdown_count = 0;
    // 399 ticks: up to 9.975 s, still inside the prepare stage.
    for _ in 0..399 {
        let report = session.on_tick(&r, &s);
        countdown_count += report
            .announcements
            .iter()
            .filter(|(i, text)| *i == 0 && text == "three two one")
            .count();
    }
    assert_eq!(countdown_count, 1);
}

#[test]
fn test_reset_rearms_announcements() {
    // A reset mid-run clears the announcement memory: the next run
    // announces "Prepare" for stage 0 again.
    let s = settings(30, 15, 30, 3);
    let r = routine_ab();
    let mut session = WorkoutSession::new();
    session.resume();
    let first = session.on_tick(&r, &s);
    assert!(first.announcements.iter().any(|(i, t)| *i == 0 && t == "Prepare"));
    for _ in 0..99 {
        session.on_tick(&r, &s);
    }
    session.reset();
    assert_eq!(session.clock.elapsed_ticks, 0);
    session.resume();
    let again = session.on_tick(&r, &s);
    assert!(again.announcements.iter().any(|(i, t)| *i == 0 && t == "Prepare"));
}

#[test]
fn test_no_announcements_while_paused() {
    let s = settings(30, 15, 30, 3);
    let r = routine_ab();
    let mut session = WorkoutSession::new();
    // Never resumed: the clock does not advance and the scheduler is a
    // no-op.
    for _ in 0..10 {
        let report = session.on_tick(&r, &s);
        assert!(report.announcements.is_empty());
        assert!(!report.completion_due);
    }
    assert_eq!(session.clock.elapsed_ticks, 0);
}

#[test]
fn test_pause_freezes_elapsed_time() {
    let s = settings(30, 15, 30, 3);
    let r = routine_ab();
    let mut session = WorkoutSession::new();
    session.resume();
    for _ in 0..10 {
        session.on_tick(&r, &s);
    }
    assert_eq!(session.clock.elapsed_ticks, 10);
    session.pause();
    for _ in 0..10 {
        session.on_tick(&r, &s);
    }
    assert_eq!(session.clock.elapsed_ticks, 10);
    session.resume();
    session.on_tick(&r, &s);
    assert_eq!(session.clock.elapsed_ticks, 11);
}

#[test]
fn test_workout_complete_announced_once() {
    // 1 set of one 1-second exercise: total 11 s = 440 ticks.
    let s = settings(1, 15, 30, 1);
    let r = Routine {
        id: "1".to_string(),
        name: "Short".to_string(),
        exercises: vec!["Only".to_string()],
    };
    let mut session = WorkoutSession::new();
    session.resume();
    let mut complete_count = 0;
    let mut first_due_tick = None;
    for tick in 1..=460 {
        let report = session.on_tick(&r, &s);
        complete_count += report
            .announcements
            .iter()
            .filter(|(i, text)| *i == 0 && text == "Workout Complete")
            .count();
        if report.completion_due && first_due_tick.is_none() {
            first_due_tick = Some(tick);
        }
        if tick < 440 {
            assert!(!report.completion_due);
            assert!(report.time_left_ms > 0);
        } else {
            assert_eq!(report.time_left_ms, 0);
            assert!(report.mapped.is_none());
        }
    }
    assert_eq!(first_due_tick, Some(440));
    assert_eq!(complete_count, 1);
}

#[test]
fn test_time_left_counts_down() {
    let s = settings(30, 15, 30, 3);
    let r = routine_ab();
    let mut session = WorkoutSession::new();
    session.resume();
    let report = session.on_tick(&r, &s);
    assert_eq!(report.time_left_ms, 295_000 - 25);
    let report = session.on_tick(&r, &s);
    assert_eq!(report.time_left_ms, 295_000 - 50);
}

#[test]
fn test_completion_recording_debounce() {
    // A second completion within 10 seconds is suppressed; a later one
    // is recorded.
    let mut s = settings(30, 15, 30, 3);
    let name = "AB".to_string();
    assert!(s.record_completion(&name, 1_000));
    assert_eq!(s.routine_completions.get(&name), Some(1_000));
    assert!(!s.record_completion(&name, 1_005));
    assert_eq!(s.routine_completions.get(&name), Some(1_000));
    assert!(!s.record_completion(&name, 1_010));
    assert!(s.record_completion(&name, 1_011));
    assert_eq!(s.routine_completions.get(&name), Some(1_011));
    assert_eq!(s.routine_completions.len(), 1);
}

#[test]
fn test_completion_recorded_at_wall_clock() {
    let mut s = settings(30, 15, 30, 3);
    let name = "AB".to_string();
    let (recorded, now) = s.record_completion_now(&name);
    assert!(recorded);
    assert_eq!(s.routine_completions.get(&name), Some(now));
    // Immediately afterwards the debounce suppresses a second record.
    let (recorded_again, _) = s.record_completion_now(&name);
    assert!(!recorded_again);
}
