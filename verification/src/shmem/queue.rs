//! Failures of the shared queues, and what they say about a request.

use vstd::prelude::*;

verus! {

/// What was asked of a queue.
#[derive(Clone, Copy, Debug, Eq, PartialEq, Structural)]
pub enum SvmQueueOperation {
    Add,
    Sub,
}

/// A failed queue operation.
#[derive(Clone, Copy, Debug, Eq, PartialEq, Structural)]
pub enum SvmQueueError {
    /// There is nothing to take.
    Empty,
    /// The queue does not fit into an allocation.
    LayoutOverflow,
    /// The operation took effect, but waking the other side failed.
    SignalAfterCommit { operation: SvmQueueOperation },
    /// The operation took effect, but raising the event failed.
    EventSignalAfterCommit { operation: SvmQueueOperation },
    /// Any other failure, before the operation took effect.
    Failed { code: i32 },
}

/// Whether the operation took effect despite the failure.
pub open spec fn took_effect(source: SvmQueueError, operation: SvmQueueOperation) -> bool {
    match source {
        SvmQueueError::SignalAfterCommit { operation: reported } => reported == operation,
        SvmQueueError::EventSignalAfterCommit { operation: reported } => reported == operation,
        _ => false,
    }
}

/// Whether the operation took effect despite the failure.
pub fn committed(source: &SvmQueueError, operation: SvmQueueOperation) -> (done: bool)
    ensures
        done == took_effect(*source, operation),
{
    match *source {
        SvmQueueError::SignalAfterCommit { operation: reported } => reported == operation,
        SvmQueueError::EventSignalAfterCommit { operation: reported } => reported == operation,
        _ => false,
    }
}

/// A failure leaves its operation in effect exactly where waking the other side
/// of that operation was all that failed.
pub proof fn law_committed(source: &SvmQueueError, operation: SvmQueueOperation, done: bool)
    requires
        call_ensures(committed, (source, operation), done),
    ensures
        *source == (SvmQueueError::SignalAfterCommit { operation }) ==> done,
        *source == (SvmQueueError::EventSignalAfterCommit { operation }) ==> done,
        done ==> *source == (SvmQueueError::SignalAfterCommit { operation }) || *source == (
        SvmQueueError::EventSignalAfterCommit { operation }),
{
}

} // verus!
