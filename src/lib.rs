//! A client library for a university scheduling service: it turns the
//! service's JSON replies into typed records, searches them by name, and
//! builds the time periods that schedule queries ask about.

pub mod errors;
pub mod json;
pub mod groups;
pub mod lecture_rooms;
pub mod teachers;
pub mod utils;
pub mod clock;
pub mod period;
pub mod schedule;
