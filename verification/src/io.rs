//! Failures of system calls, as plain values.

use vstd::prelude::*;

verus! {

/// The kinds of failure that decisions depend on.
#[derive(Clone, Copy, Debug, Eq, PartialEq, Structural)]
pub enum IoErrorKind {
    NotFound,
    WouldBlock,
    TimedOut,
    Interrupted,
    InvalidInput,
    InvalidData,
    UnexpectedEof,
    Other,
}

/// A failed operation: its kind, and the error number of the system call that
/// failed. A failure that no system call reported has no number.
#[derive(Clone, Copy, Debug, Eq, PartialEq, Structural)]
pub struct IoError {
    pub kind: IoErrorKind,
    pub code: Option<i32>,
}

impl IoError {
    /// A failure that no system call reported.
    pub fn of_kind(kind: IoErrorKind) -> (error: IoError)
        ensures
            error == (IoError { kind, code: None }),
    {
        IoError { kind, code: None }
    }
}

} // verus!
