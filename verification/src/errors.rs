//! The error kinds shared by the guard, the date folder resolver and the
//! snapshot engine.

use vstd::prelude::*;

verus! {

/// Everything that can go wrong during a snapshot run.
///
/// The surrounding process treats any of these as fatal: no error is retried
/// or downgraded, and a half-written snapshot directory is left on disk for
/// the operator to inspect.
#[derive(Clone, Copy, Debug, PartialEq, Eq, Structural)]
pub enum SnapError {
    /// A supplied path is not absolute, does not exist, or is not a directory.
    InvalidInput,
    /// The destination directory is already bound to a different source.
    DestinationConflict,
    /// A first-time binding was attempted against a non-empty destination.
    DestinationNotEmpty,
    /// Calendar arithmetic could not produce the previous day.
    DateComputationError,
    /// Today's dated directory already exists, so it cannot be created anew.
    AlreadyExists,
    /// An underlying read, write, create or readdir operation failed.
    IoError,
    /// A content-hashing unit of work failed or was aborted.
    TaskFailure,
}

} // verus!
