use hiit_timer::catalog::{find_routine, get_routines};
use hiit_timer::routine::Routine;
use hiit_timer::settings::{CompletionLog, WorkoutSettings};

fn settings(work: u32, exercise_rest: u32, set_rest: u32, sets: u32) -> WorkoutSettings {
    WorkoutSettings {
        high_intensity_duration_secs: work,
        rest_exercise_duration_secs: exercise_rest,
        rest_set_duration_secs: set_rest,
        sets,
        routine_completions: CompletionLog::new(),
    }
}

fn routine_ab() -> Routine {
    Routine {
        id: "x".to_string(),
        name: "AB".to_string(),
        exercises: vec!["A".to_string(), "B".to_string()],
    }
}

#[test]
fn test_stage_count_scenario() {
    // work 30, exercise rest 15, set rest 30, 3 sets, exercises ["A", "B"]:
    // 1 prepare + 3 * (2*2 - 1) + 2 set breaks = 12 stages.
    let s = settings(30, 15, 30, 3);
    let stages = routine_ab().stages(&s);
    assert_eq!(stages.len(), 12);
}

#[test]
fn test_total_duration_scenario() {
    // 10 + 3*(30+15+30) + 2*30 = 295 seconds.
    let s = settings(30, 15, 30, 3);
    let r = routine_ab();
    assert_eq!(r.duration(&s), 295);
    assert_eq!(r.checked_total_ms(&s), Some(295_000));
}

#[test]
fn test_stage_order_and_labels() {
    let s = settings(30, 15, 30, 3);
    let stages = routine_ab().stages(&s);
    let labels: Vec<&str> = stages.iter().map(|st| st.label.as_str()).collect();
    assert_eq!(
        labels,
        vec![
            "Prepare", "A", "Rest", "B", "Set Break", "A", "Rest", "B", "Set Break", "A", "Rest",
            "B",
        ]
    );
    assert_eq!(stages[0].duration_secs, 10);
    assert!(!stages[0].is_high_intensity);
    assert_eq!(stages[1].duration_secs, 30);
    assert!(stages[1].is_high_intensity);
    assert_eq!(stages[2].duration_secs, 15);
    assert!(!stages[2].is_high_intensity);
    assert_eq!(stages[4].duration_secs, 30);
    assert!(!stages[4].is_high_intensity);
}

#[test]
fn test_timeline_without_exercises() {
    // A set block with zero exercises degenerates to an empty list:
    // prepare plus the set breaks between the (empty) blocks.
    let s = settings(30, 15, 30, 3);
    let r = Routine { id: "e".to_string(), name: "Empty".to_string(), exercises: vec![] };
    let stages = r.stages(&s);
    let labels: Vec<&str> = stages.iter().map(|st| st.label.as_str()).collect();
    assert_eq!(labels, vec!["Prepare", "Set Break", "Set Break"]);
    assert_eq!(r.duration(&s), 10 + 2 * 30);
}

#[test]
fn test_timeline_single_set_single_exercise() {
    let s = settings(45, 15, 30, 1);
    let r = Routine {
        id: "1".to_string(),
        name: "One".to_string(),
        exercises: vec!["Only".to_string()],
    };
    let stages = r.stages(&s);
    let labels: Vec<&str> = stages.iter().map(|st| st.label.as_str()).collect();
    assert_eq!(labels, vec!["Prepare", "Only"]);
    assert_eq!(r.duration(&s), 55);
}

#[test]
fn test_timeline_rebuilt_from_new_settings() {
    // The timeline is a pure function of (exercises, settings): a changed
    // snapshot yields a different build, the old snapshot the old one.
    let r = routine_ab();
    let s1 = settings(30, 15, 30, 3);
    let s2 = settings(30, 15, 30, 2);
    assert_eq!(r.stages(&s1).len(), 12);
    assert_eq!(r.stages(&s2).len(), 8);
    assert_eq!(r.stages(&s1).len(), 12);
}

#[test]
fn test_description_joins_names() {
    let r = routine_ab();
    assert_eq!(r.description(), "A, B");
    let one = Routine {
        id: "1".to_string(),
        name: "One".to_string(),
        exercises: vec!["Only".to_string()],
    };
    assert_eq!(one.description(), "Only");
    let none = Routine { id: "0".to_string(), name: "None".to_string(), exercises: vec![] };
    assert_eq!(none.description(), "");
}

#[test]
fn test_catalog_contents() {
    let routines = get_routines();
    assert_eq!(routines.len(), 5);
    let names: Vec<&str> = routines.iter().map(|r| r.name.as_str()).collect();
    assert_eq!(names, vec!["Upper Body", "Core", "Lower Body", "Full Body", "Mobility"]);
    assert_eq!(routines[0].id, "2");
    assert_eq!(
        routines[0].exercises,
        vec!["Push ups", "Overhead triceps", "Hammer curls", "Skull crushers"]
    );
    assert_eq!(routines[4].exercises.len(), 4);
}

#[test]
fn test_find_routine_by_id() {
    let routines = get_routines();
    let found = find_routine(&routines, &"4".to_string());
    assert!(found.is_some());
    assert_eq!(found.unwrap().name, "Lower Body");
}

#[test]
fn test_find_routine_unknown_id() {
    let routines = get_routines();
    assert!(find_routine(&routines, &"99".to_string()).is_none());
}
