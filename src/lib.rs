//! Personal calendar feeds of a cinema's volunteer sessions: the show rows of the
//! booking system's listing page become show records, and the records of one
//! venue become an iCalendar document that flags the viewer's own sessions.
use vstd::prelude::*;

pub mod calendar;
pub mod cinegestion;
pub mod config;
pub mod datetime;
pub mod error;
pub mod html;
pub mod text;

verus! {

} // verus!
