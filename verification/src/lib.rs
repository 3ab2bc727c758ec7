//! Core of a timed, multi-stage interval workout: building the stage
//! timeline from a routine and the current settings, mapping elapsed time
//! onto the active stage, scheduling one-shot audio announcements, and
//! driving the tick clock.

pub mod catalog;
pub mod clock;
pub mod mapper;
pub mod routine;
pub mod scheduler;
pub mod session;
pub mod settings;
pub mod text;
