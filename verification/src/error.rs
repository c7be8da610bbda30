//! The single error kind of the pipeline: a descriptive, human-readable
//! failure naming the operation, definition or value that broke a pass's
//! assumption.

use vstd::prelude::*;

verus! {

/// A descriptive fixup failure.  Every failure aborts its pass and, by the
/// driver's contract, the whole pipeline.
#[derive(Debug, PartialEq)]
pub struct FixupError {
    pub message: String,
}

impl FixupError {
    /// A failure with a fixed message.
    pub fn new(message: &str) -> (e: FixupError)
        ensures
            e.message@ == message@,
    {
        FixupError { message: crate::text::str_copy(message) }
    }
}

} // verus!
