//! The built-in routine catalog, and lookup by routine id. An unknown id
//! yields `None`: the "routine not found" condition, on which no timeline
//! is built and no clock starts.

use vstd::prelude::*;
use crate::routine::Routine;
use crate::routine::RoutineView;
use crate::routine::names_view;

verus! {

/// The views of a routine list.
pub open spec fn routines_view(s: Seq<Routine>) -> Seq<RoutineView> {
    s.map_values(|r: Routine| r@)
}

/// The five built-in routines.
pub open spec fn spec_catalog() -> Seq<RoutineView> {
    seq![
        RoutineView {
            id: "2"@,
            name: "Upper Body"@,
            exercises: seq!["Push ups"@, "Overhead triceps"@, "Hammer curls"@, "Skull crushers"@],
        },
        RoutineView {
            id: "3"@,
            name: "Core"@,
            exercises: seq!["Low plank"@, "Crunches"@, "Russian twists"@, "Bicycle crunches"@],
        },
        RoutineView {
            id: "4"@,
            name: "Lower Body"@,
            exercises: seq!["Squats"@, "Lunges"@, "Calf raises"@, "Froggy glute lifts"@],
        },
        RoutineView {
            id: "5"@,
            name: "Full Body"@,
            exercises: seq!["Mountain climber"@, "Superman"@, "Inchworm"@, "Burpees"@],
        },
        RoutineView {
            id: "6"@,
            name: "Mobility"@,
            exercises: seq![
                "Squat to Toe Touch"@,
                "Downward to Upward Dog"@,
                "Lunge and Reach"@,
                "Modified Butterfly Sit"@,
            ],
        },
    ]
}

/// Builds one catalog routine of four exercises.
fn routine4(id: &str, name: &str, e1: &str, e2: &str, e3: &str, e4: &str) -> (r: Routine)
    ensures
        r@ == (RoutineView { id: id@, name: name@, exercises: seq![e1@, e2@, e3@, e4@] }),
{
    let mut exercises: Vec<String> = Vec::new();
    exercises.push(e1.to_owned());
    exercises.push(e2.to_owned());
    exercises.push(e3.to_owned());
    exercises.push(e4.to_owned());
    let r = Routine { id: id.to_owned(), name: name.to_owned(), exercises };
    proof {
        assert(names_view(r.exercises@) =~= seq![e1@, e2@, e3@, e4@]);
        assert(r@ =~~= (RoutineView { id: id@, name: name@, exercises: seq![e1@, e2@, e3@, e4@] }));
    }
    r
}

/// The static list of routines offered by the application.
pub fn get_routines() -> (r: Vec<Routine>)
    ensures
        routines_view(r@) == spec_catalog(),
{
    let mut r: Vec<Routine> = Vec::new();
    r.push(
        routine4("2", "Upper Body", "Push ups", "Overhead triceps", "Hammer curls", "Skull crushers"),
    );
    r.push(routine4("3", "Core", "Low plank", "Crunches", "Russian twists", "Bicycle crunches"));
    r.push(routine4("4", "Lower Body", "Squats", "Lunges", "Calf raises", "Froggy glute lifts"));
    r.push(routine4("5", "Full Body", "Mountain climber", "Superman", "Inchworm", "Burpees"));
    r.push(
        routine4(
            "6",
            "Mobility",
            "Squat to Toe Touch",
            "Downward to Upward Dog",
            "Lunge and Reach",
            "Modified Butterfly Sit",
        ),
    );
    proof {
        assert(routines_view(r@) =~~= spec_catalog());
    }
    r
}

/// The first routine whose id matches, scanning from position `i`.
pub open spec fn spec_find_from(rs: Seq<RoutineView>, id: Seq<char>, i: int) -> Option<RoutineView>
    decreases rs.len() - i,
{
    if i < 0 || i >= rs.len() {
        None
    } else if rs[i].id == id {
        Some(rs[i])
    } else {
        spec_find_from(rs, id, i + 1)
    }
}

/// The first routine with the given id, if any.
pub open spec fn spec_find_routine(rs: Seq<RoutineView>, id: Seq<char>) -> Option<RoutineView> {
    spec_find_from(rs, id, 0)
}

/// Looks a routine up by id: the first with a matching id, or `None` for
/// an unknown id.
pub fn find_routine(routines: &Vec<Routine>, id: &String) -> (r: Option<Routine>)
    ensures
        match r {
            None => spec_find_routine(routines_view(routines@), id@) is None,
            Some(rt) => spec_find_routine(routines_view(routines@), id@) == Some(rt@),
        },
{
    let n = routines.len();
    for i in 0..n
        invariant
            n == routines.len(),
            spec_find_routine(routines_view(routines@), id@) == spec_find_from(
                routines_view(routines@),
                id@,
                i as int,
            ),
    {
        let hit = routines[i].id.eq(id);
        proof {
            assert(routines_view(routines@)[i as int] == routines@[i as int]@);
        }
        if hit {
            return Some(routines[i].duplicate());
        }
    }
    None
}

} // verus!
