//! Points in time and how they are written in a record.

use crate::text::option_text;
use chrono::DateTime;
use chrono::Utc;
use vstd::prelude::*;

verus! {

/// A point in time: whole seconds since 1970-01-01 00:00:00 UTC, and the
/// nanoseconds past that second.
#[derive(Clone, Copy, Debug, PartialEq, Eq)]
pub struct Timestamp {
    pub secs: i64,
    pub nanos: u32,
}

/// The instant `secs` seconds and `nanos` nanoseconds after the epoch,
/// written in UTC as day, month, year and time of day
/// (`DD/MM/YYYY HH:MM:SS`), as the `chrono` crate writes it; `None` where
/// `chrono` has no date for the instant.
pub uninterp spec fn utc_text(secs: int, nanos: int) -> Option<Seq<char>>;

/// Calls `chrono::DateTime::<Utc>::from_timestamp`, which gives no date for
/// seconds out of range or nanoseconds that are not valid, and writes the
/// date it gives with `DateTime::format` and the pattern `%d/%m/%Y %T`.
/// The result is the named text of the two numbers.
#[verifier::external_body]
fn render_utc(secs: i64, nanos: u32) -> (text: Option<String>)
    ensures
        option_text(text) == utc_text(secs as int, nanos as int),
{
    match DateTime::<Utc>::from_timestamp(secs, nanos) {
        Some(date) => Some(date.format("%d/%m/%Y %T").to_string()),
        None => None,
    }
}

impl Timestamp {
    /// The text of this instant, see [`utc_text`].
    pub open spec fn text(self) -> Option<Seq<char>> {
        utc_text(self.secs as int, self.nanos as int)
    }

    /// Writes this instant in UTC as `DD/MM/YYYY HH:MM:SS`, if it has a date.
    pub fn render(&self) -> (text: Option<String>)
        ensures
            option_text(text) == self.text(),
    {
        render_utc(self.secs, self.nanos)
    }
}

} // verus!
