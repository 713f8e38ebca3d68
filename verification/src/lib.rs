//! Reads small calendar documents, and tells which of their events belong on
//! the agenda at a given moment, in the order in which to show them.
//!
//! A document opens with a header, a block of `key: value` lines between two
//! lines of three dashes. [`parse_header`] reads the header into its fields,
//! [`build_event`] builds the event that the fields describe, and
//! [`parse_cal_file`] does both. [`Event::is_active`] tells whether an event
//! belongs on the agenda at a moment, [`get_valid_events`] keeps those that
//! do and puts them in order, and [`Event::render`] writes the line that
//! shows one of them.

pub mod agenda;
pub mod clock;
pub mod display;
pub mod error;
pub mod event;
pub mod header;
pub mod text;

pub use agenda::get_valid_events;
pub use clock::{Date, Moment, ParseFailure, TimeOfDay, Weekday};
pub use error::{BuildError, CalError, Field, HeaderError};
pub use event::{build_event, parse_cal_file, parse_events, DocumentError, Event};
pub use header::{parse_header, FieldMapping, HeaderValue};

use vstd::prelude::*;

verus! {

/// Whether two texts hold the same characters: what std's `==` on `str`
/// computes.
pub assume_specification[ <str as PartialEq>::eq ](a: &str, b: &str) -> (r: bool)
    ensures
        r == (a@ == b@),
;

} // verus!
