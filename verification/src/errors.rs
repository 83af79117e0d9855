//! The error taxonomy shared by every layer operation.
//!
//! Failure to *recognize* a template is not an error: recognition returns an
//! absent result so a caller can probe other layer kinds. These variants are
//! the hard failures: a matched template whose embedded values are wrong, a
//! value that cannot be encoded or decoded, or missing construction data.

use vstd::prelude::*;

verus! {

/// A hard failure from constructing or parsing a puzzle layer.
#[derive(Debug, Clone, Copy, PartialEq, Eq)]
pub enum DriverError {
    /// A tree could not be serialized, or a value could not be encoded.
    ToClvm,
    /// A matched template's arguments or a solution did not decode.
    FromClvm,
    /// A matched identity-layer template whose embedded protocol constants
    /// disagree with the expected ones.
    InvalidSingletonStruct,
    /// A layer was asked to build its puzzle without holding the full inner
    /// puzzle needed to do so.
    MissingPuzzle,
}

} // verus!
