//! Failures of the stats client, its mapping, and its family projections.

use crate::io::IoError;
use crate::stats::protocol;
use crate::stats::protocol::{ProtocolError, ProtocolErrorView};
use crate::text;
use vstd::prelude::*;

verus! {

/// A path is held as its bytes, since a path need not be text.
#[derive(Clone, Debug, Eq, PartialEq)]
pub enum Error {
    Connect { path: Vec<u8>, source: IoError },
    SocketPathTooLong { path: Vec<u8>, max: usize },
    AncillaryData { received_fds: usize, truncated: bool },
    Receive { source: IoError },
    HandoffTimeout { waited_seconds: u64 },
    Fstat { source: IoError },
    InvalidSegmentSize { size: i64 },
    Mapping { source: IoError },
    Protocol { source: ProtocolError },
    RetryExhausted { operation: &'static str, attempts: usize },
    MetricNotFound { name: String },
    UnsupportedDirectoryType { name: String, directory_type: &'static str },
    UnexpectedMetricType { name: String, expected: &'static str, actual: &'static str },
    UnexpectedRowCount { name: String, expected: usize, actual: usize },
    UnexpectedColumnCount { name: String, expected: usize, actual: usize },
    WorkerCountMismatch { name: String, worker_thread_count: u64, columns: usize },
    SymlinkCycle { name: String, depth: usize },
}

/// The view of an [`Error`].
pub enum ErrorView {
    Connect { path: Seq<u8>, source: IoError },
    SocketPathTooLong { path: Seq<u8>, max: int },
    AncillaryData { received_fds: int, truncated: bool },
    Receive { source: IoError },
    HandoffTimeout { waited_seconds: u64 },
    Fstat { source: IoError },
    InvalidSegmentSize { size: i64 },
    Mapping { source: IoError },
    Protocol { source: ProtocolErrorView },
    RetryExhausted { operation: Seq<char>, attempts: int },
    MetricNotFound { name: Seq<char> },
    UnsupportedDirectoryType { name: Seq<char>, directory_type: Seq<char> },
    UnexpectedMetricType { name: Seq<char>, expected: Seq<char>, actual: Seq<char> },
    UnexpectedRowCount { name: Seq<char>, expected: int, actual: int },
    UnexpectedColumnCount { name: Seq<char>, expected: int, actual: int },
    WorkerCountMismatch { name: Seq<char>, worker_thread_count: u64, columns: int },
    SymlinkCycle { name: Seq<char>, depth: int },
}

impl View for Error {
    type V = ErrorView;

    open spec fn view(&self) -> ErrorView {
        match *self {
            Error::Connect { path, source } => ErrorView::Connect { path: path@, source },
            Error::SocketPathTooLong { path, max } => ErrorView::SocketPathTooLong {
                path: path@,
                max: max as int,
            },
            Error::AncillaryData { received_fds, truncated } => ErrorView::AncillaryData {
                received_fds: received_fds as int,
                truncated,
            },
            Error::Receive { source } => ErrorView::Receive { source },
            Error::HandoffTimeout { waited_seconds } => ErrorView::HandoffTimeout {
                waited_seconds,
            },
            Error::Fstat { source } => ErrorView::Fstat { source },
            Error::InvalidSegmentSize { size } => ErrorView::InvalidSegmentSize { size },
            Error::Mapping { source } => ErrorView::Mapping { source },
            Error::Protocol { source } => ErrorView::Protocol { source: source@ },
            Error::RetryExhausted { operation, attempts } => ErrorView::RetryExhausted {
                operation: operation@,
                attempts: attempts as int,
            },
            Error::MetricNotFound { name } => ErrorView::MetricNotFound { name: name@ },
            Error::UnsupportedDirectoryType {
                name,
                directory_type,
            } => ErrorView::UnsupportedDirectoryType {
                name: name@,
                directory_type: directory_type@,
            },
            Error::UnexpectedMetricType {
                name,
                expected,
                actual,
            } => ErrorView::UnexpectedMetricType {
                name: name@,
                expected: expected@,
                actual: actual@,
            },
            Error::UnexpectedRowCount { name, expected, actual } => ErrorView::UnexpectedRowCount {
                name: name@,
                expected: expected as int,
                actual: actual as int,
            },
            Error::UnexpectedColumnCount {
                name,
                expected,
                actual,
            } => ErrorView::UnexpectedColumnCount {
                name: name@,
                expected: expected as int,
                actual: actual as int,
            },
            Error::WorkerCountMismatch {
                name,
                worker_thread_count,
                columns,
            } => ErrorView::WorkerCountMismatch {
                name: name@,
                worker_thread_count,
                columns: columns as int,
            },
            Error::SymlinkCycle { name, depth } => ErrorView::SymlinkCycle {
                name: name@,
                depth: depth as int,
            },
        }
    }
}

impl From<ProtocolError> for Error {
    fn from(source: ProtocolError) -> (error: Error) {
        Error::Protocol { source }
    }
}

impl vstd::std_specs::convert::FromSpecImpl<ProtocolError> for Error {
    open spec fn obeys_from_spec() -> bool {
        true
    }

    open spec fn from_spec(source: ProtocolError) -> Error {
        Error::Protocol { source }
    }
}

/// The view of a fallible result.
pub open spec fn outcome<T: View>(result: Result<T, Error>) -> Result<T::V, ErrorView> {
    match result {
        Ok(value) => Ok(value@),
        Err(error) => Err(error@),
    }
}

/// The view of a list of names, or of the failure to list them.
pub open spec fn listing(result: Result<Vec<String>, Error>) -> Result<Seq<Seq<char>>, ErrorView> {
    match result {
        Ok(names) => Ok(text::texts(names@)),
        Err(error) => Err(error@),
    }
}

/// A layout failure as a failure of the client.
pub open spec fn of_layout<T>(result: Result<T, ProtocolErrorView>) -> Result<T, ErrorView> {
    match result {
        Ok(value) => Ok(value),
        Err(source) => Err(ErrorView::Protocol { source }),
    }
}

/// Turns a layout failure into a failure of the client.
pub fn checked<T: View>(result: Result<T, ProtocolError>) -> (lifted: Result<T, Error>)
    ensures
        outcome(lifted) == of_layout(protocol::outcome(result)),
        lifted matches Ok(value) ==> result == Ok::<T, ProtocolError>(value),
{
    match result {
        Ok(value) => Ok(value),
        Err(source) => Err(Error::from(source)),
    }
}

} // verus!
