use hiit_timer::clock::TimerClock;
use hiit_timer::routine::Stage;
use hiit_timer::scheduler::AnnouncementScheduler;

fn stage(label: &str, duration_secs: u32) -> Stage {
    Stage { duration_secs, is_high_intensity: true, label: label.to_string() }
}

#[test]
fn test_no_op_while_not_running() {
    let mut sched = AnnouncementScheduler::new();
    let mapped = Some((0, stage("Prepare", 10), None, 0));
    let emitted = sched.on_tick(false, &mapped);
    assert!(emitted.is_empty());
    assert_eq!(sched.len(), 0);
}

#[test]
fn test_label_emitted_once_per_key() {
    let mut sched = AnnouncementScheduler::new();
    let mapped = Some((2, stage("A", 30), None, 100));
    let first = sched.on_tick(true, &mapped);
    assert_eq!(first, vec![(2, "A".to_string())]);
    let second = sched.on_tick(true, &mapped);
    assert!(second.is_empty());
    assert!(sched.contains_key(2, &"A".to_string()));
    assert!(!sched.contains_key(1, &"A".to_string()));
}

#[test]
fn test_same_text_at_other_stage_is_a_new_key() {
    // The key is (stage index, text): the same label at another index is
    // announced again.
    let mut sched = AnnouncementScheduler::new();
    sched.on_tick(true, &Some((1, stage("Rest", 15), None, 0)));
    let emitted = sched.on_tick(true, &Some((3, stage("Rest", 15), None, 0)));
    assert_eq!(emitted, vec![(3, "Rest".to_string())]);
}

#[test]
fn test_label_and_countdown_together() {
    // A one-second stage is both freshly entered and nearly over: label
    // first, countdown second, in one tick.
    let mut sched = AnnouncementScheduler::new();
    let mapped = Some((4, stage("Only", 1), None, 0));
    let emitted = sched.on_tick(true, &mapped);
    assert_eq!(emitted, vec![(4, "Only".to_string()), (4, "three two one".to_string())]);
}

#[test]
fn test_countdown_window_boundary() {
    // duration 30 s: the countdown is due once no more than 2.5 s remain,
    // that is from 27.5 s into the stage on.
    let mut sched = AnnouncementScheduler::new();
    let early = sched.on_tick(true, &Some((0, stage("A", 30), None, 27_499)));
    assert!(early.is_empty());
    let at_edge = sched.on_tick(true, &Some((0, stage("A", 30), None, 27_500)));
    assert_eq!(at_edge, vec![(0, "three two one".to_string())]);
}

#[test]
fn test_workout_complete_key() {
    let mut sched = AnnouncementScheduler::new();
    let first = sched.on_tick(true, &None);
    assert_eq!(first, vec![(0, "Workout Complete".to_string())]);
    let second = sched.on_tick(true, &None);
    assert!(second.is_empty());
}

#[test]
fn test_reset_forgets_keys() {
    let mut sched = AnnouncementScheduler::new();
    sched.on_tick(true, &Some((0, stage("Prepare", 10), None, 0)));
    assert_eq!(sched.len(), 1);
    sched.reset();
    assert_eq!(sched.len(), 0);
    let again = sched.on_tick(true, &Some((0, stage("Prepare", 10), None, 0)));
    assert_eq!(again, vec![(0, "Prepare".to_string())]);
}

#[test]
fn test_label_equal_to_countdown_text_emitted_once() {
    // An exercise literally named like the countdown line shares its key:
    // it is spoken only once in the tick that makes both due.
    let mut sched = AnnouncementScheduler::new();
    let mapped = Some((1, stage("three two one", 1), None, 0));
    let emitted = sched.on_tick(true, &mapped);
    assert_eq!(emitted, vec![(1, "three two one".to_string())]);
}

#[test]
fn test_clock_tick_and_elapsed() {
    let mut clock = TimerClock::new();
    assert_eq!(clock.elapsed_ms(), 0);
    clock.tick();
    assert_eq!(clock.elapsed_ms(), 0);
    clock.resume();
    for _ in 0..40 {
        clock.tick();
    }
    assert_eq!(clock.elapsed_ticks, 40);
    assert_eq!(clock.elapsed_ms(), 1_000);
    clock.pause();
    clock.tick();
    assert_eq!(clock.elapsed_ms(), 1_000);
    clock.reset();
    assert_eq!(clock.elapsed_ms(), 0);
    assert!(!clock.running);
}
