//! The failures that the core reports to its caller.

use vstd::prelude::*;

verus! {

/// Why an operation of the core did not complete.
#[derive(Debug, Clone, Copy, PartialEq, Eq, Structural)]
pub enum CoreError {
    /// The store has no identifier left to give to a new record.
    StoreUnavailable,
    /// A summary could not be produced: the moment of writing or the
    /// statistics could not be written.
    GenerationFailed,
    /// The clock reading names no moment that the calendar can write.
    UnknownMoment,
}

} // verus!
