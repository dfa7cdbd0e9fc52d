//! Why an entry cannot be indexed.

use vstd::prelude::*;

verus! {

/// Why an entry cannot be indexed.
#[derive(Clone, Copy, Debug, PartialEq, Eq, Structural)]
pub enum IndexError {
    /// A file's content is not valid UTF-8 text.
    Encoding,
    /// A file's creation or modification time lies outside the calendar
    /// that dates are written in.
    Timestamp,
}

} // verus!
