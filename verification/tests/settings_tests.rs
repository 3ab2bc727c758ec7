use hiit_timer::settings::{CompletionLog, WorkoutSettings};
use hiit_timer::text::format_duration;
use hiit_timer::text::u64_to_dec;

#[test]
fn test_default_settings() {
    let s = WorkoutSettings::default();
    assert_eq!(s.high_intensity_duration_secs, 30);
    assert_eq!(s.rest_exercise_duration_secs, 15);
    assert_eq!(s.rest_set_duration_secs, 30);
    assert_eq!(s.sets, 3);
    assert!(s.routine_completions.is_empty());
}

#[test]
fn test_from_parts_all_present() {
    let s = WorkoutSettings::from_parts(Some(60), Some(20), Some(45), Some(5), None);
    assert_eq!(s.high_intensity_duration_secs, 60);
    assert_eq!(s.rest_exercise_duration_secs, 20);
    assert_eq!(s.rest_set_duration_secs, 45);
    assert_eq!(s.sets, 5);
    assert!(s.routine_completions.is_empty());
}

#[test]
fn test_from_parts_missing_fields_fall_back() {
    // Each missing field independently falls back to its documented
    // default.
    let s = WorkoutSettings::from_parts(Some(30), Some(15), None, None, None);
    assert_eq!(s.high_intensity_duration_secs, 30);
    assert_eq!(s.rest_exercise_duration_secs, 15);
    assert_eq!(s.rest_set_duration_secs, WorkoutSettings::default().rest_set_duration_secs);
    assert_eq!(s.sets, WorkoutSettings::default().sets);
    assert!(s.routine_completions.is_empty());
}

#[test]
fn test_from_parts_nothing_present() {
    let s = WorkoutSettings::from_parts(None, None, None, None, None);
    let d = WorkoutSettings::default();
    assert_eq!(s.high_intensity_duration_secs, d.high_intensity_duration_secs);
    assert_eq!(s.rest_exercise_duration_secs, d.rest_exercise_duration_secs);
    assert_eq!(s.rest_set_duration_secs, d.rest_set_duration_secs);
    assert_eq!(s.sets, d.sets);
    assert!(s.routine_completions.is_empty());
}

#[test]
fn test_from_parts_keeps_completions() {
    let mut log = CompletionLog::new();
    log.insert(&"routine1".to_string(), 1_684_146_600);
    log.insert(&"routine2".to_string(), 1_684_146_600);
    let s = WorkoutSettings::from_parts(Some(30), None, None, None, Some(log));
    assert_eq!(s.routine_completions.len(), 2);
    assert!(s.routine_completions.contains(&"routine1".to_string()));
    assert!(s.routine_completions.contains(&"routine2".to_string()));
    assert_eq!(s.routine_completions.get(&"routine1".to_string()), Some(1_684_146_600));
}

#[test]
fn test_completion_log_insert_replaces() {
    let mut log = CompletionLog::new();
    let name = "a".to_string();
    log.insert(&name, 100);
    log.insert(&name, 200);
    assert_eq!(log.len(), 1);
    assert_eq!(log.get(&name), Some(200));
    assert_eq!(log.get(&"b".to_string()), None);
    log.insert(&"b".to_string(), 300);
    assert_eq!(log.len(), 2);
    assert_eq!(log.get(&name), Some(200));
    assert_eq!(log.get(&"b".to_string()), Some(300));
}

#[test]
fn test_presets() {
    let mut s = WorkoutSettings::default();
    assert!(s.is_low_preset());
    assert!(!s.is_mid_preset());
    assert!(!s.is_high_preset());

    s.apply_preset(45, 10, 15, 4);
    assert!(!s.is_low_preset());
    assert!(s.is_mid_preset());
    assert_eq!(s.high_intensity_duration_secs, 45);

    s.apply_preset(60, 0, 15, 6);
    assert!(s.is_high_preset());

    s.apply_preset(30, 15, 30, 3);
    assert!(s.is_low_preset());
}

#[test]
fn test_presets_keep_completion_history() {
    let mut s = WorkoutSettings::default();
    s.record_completion(&"r".to_string(), 500);
    s.apply_preset(45, 10, 15, 4);
    assert_eq!(s.routine_completions.get(&"r".to_string()), Some(500));
}

#[test]
fn test_format_duration_values() {
    assert_eq!(format_duration(0), "00:00");
    assert_eq!(format_duration(5), "00:05");
    assert_eq!(format_duration(65), "01:05");
    assert_eq!(format_duration(295), "04:55");
    assert_eq!(format_duration(600), "10:00");
    assert_eq!(format_duration(3_605), "60:05");
    assert_eq!(format_duration(6_000), "100:00");
}

#[test]
fn test_decimal_formatting() {
    assert_eq!(u64_to_dec(0), "0");
    assert_eq!(u64_to_dec(7), "7");
    assert_eq!(u64_to_dec(10), "10");
    assert_eq!(u64_to_dec(12_345), "12345");
    assert_eq!(u64_to_dec(u64::MAX), "18446744073709551615");
}
