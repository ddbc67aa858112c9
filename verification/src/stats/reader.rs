//! The read capability every family projection depends on.

use crate::stats::error;
use crate::stats::error::{Error, ErrorView};
use crate::stats::protocol::{DirectoryType, MetricValue, MetricView};
use vstd::prelude::*;

verus! {

/// The whole capability a provider may use: list names, read one value.
///
/// [`StatsClient`](crate::stats::client::StatsClient) is the production
/// implementation; tests implement it over an in-memory fixture, so a
/// projection never needs a socket or a mapping. Nothing is presumed of an
/// implementation: two calls may answer differently.
pub trait StatsReader {
    fn names(&self) -> (names: Result<Vec<String>, Error>);

    fn read(&self, name: &str) -> (value: Result<MetricValue, Error>);
}

/// What one read gave: a value, or a failure.
pub type Reading = Result<MetricView, ErrorView>;

/// Whether `names` is what the reader may answer to a listing.
pub open spec fn lists<R: StatsReader>(
    reader: &R,
    names: Result<Seq<Seq<char>>, ErrorView>,
) -> bool {
    exists|answer: Result<Vec<String>, Error>| #[trigger]
        call_ensures(R::names, (reader,), answer) && error::listing(answer) == names
}

/// Whether `reading` is what the reader may answer when asked for `name`.
pub open spec fn reads<R: StatsReader>(reader: &R, name: Seq<char>, reading: Reading) -> bool {
    exists|asked: &str, answer: Result<MetricValue, Error>| #[trigger]
        call_ensures(R::read, (reader, asked), answer) && asked@ == name && error::outcome(answer)
            == reading
}

/// Whether the reader has one answer to a listing, and one to every name.
pub open spec fn steady<R: StatsReader>(reader: &R) -> bool {
    &&& forall|
        left: Result<Seq<Seq<char>>, ErrorView>,
        right: Result<Seq<Seq<char>>, ErrorView>,
    | #[trigger] lists(reader, left) && #[trigger] lists(reader, right) ==> left == right
    &&& forall|name: Seq<char>, left: Reading, right: Reading| #[trigger]
        reads(reader, name, left) && #[trigger] reads(reader, name, right) ==> left == right
}

/// The name diagnostics use for the kind of a value.
pub open spec fn kind_text(value: MetricView) -> Seq<char> {
    match value {
        MetricView::Scalar(_) => "scalar_index"@,
        MetricView::Gauge(_) => "gauge"@,
        MetricView::Simple(_) => "counter_vector_simple"@,
        MetricView::Combined(_) => "counter_vector_combined"@,
        MetricView::Names(_) => "name_vector"@,
        MetricView::Histogram(_) => "histogram_log2"@,
        MetricView::Ring(_) => "ring_buffer"@,
    }
}

/// The failure to find a value of the expected kind.
pub open spec fn unexpected(name: Seq<char>, expected: Seq<char>, value: MetricView) -> ErrorView {
    ErrorView::UnexpectedMetricType { name, expected, actual: kind_text(value) }
}

/// The name diagnostics use for the kind of a value.
pub fn metric_type_name(value: &MetricValue) -> (name: &'static str)
    ensures
        name@ == kind_text(value@),
{
    match value {
        MetricValue::Scalar(_) => "scalar_index",
        MetricValue::Gauge(_) => "gauge",
        MetricValue::Simple(_) => "counter_vector_simple",
        MetricValue::Combined(_) => "counter_vector_combined",
        MetricValue::Names(_) => "name_vector",
        MetricValue::Histogram(_) => "histogram_log2",
        MetricValue::Ring(_) => "ring_buffer",
    }
}

/// Reports a value of another kind than the expected one.
pub fn unexpected_type(name: &str, expected: &'static str, value: &MetricValue) -> (error: Error)
    ensures
        error@ == unexpected(name@, expected@, value@),
{
    Error::UnexpectedMetricType {
        name: name.to_owned(),
        expected,
        actual: metric_type_name(value),
    }
}

/// Every kind of value has the name of the directory type that publishes it.
pub proof fn law_kind_names(value: &MetricValue, name: &'static str)
    requires
        call_ensures(metric_type_name, (value,), name),
    ensures
        value@ is Scalar ==> name@ == DirectoryType::ScalarIndex.spec_label()@,
        value@ is Gauge ==> name@ == DirectoryType::Gauge.spec_label()@,
        value@ is Simple ==> name@ == DirectoryType::CounterVectorSimple.spec_label()@,
        value@ is Combined ==> name@ == DirectoryType::CounterVectorCombined.spec_label()@,
        value@ is Names ==> name@ == DirectoryType::NameVector.spec_label()@,
        value@ is Histogram ==> name@ == DirectoryType::HistogramLog2.spec_label()@,
        value@ is Ring ==> name@ == DirectoryType::RingBuffer.spec_label()@,
{
}

/// A value of an unexpected kind is reported by the name it was read under, with
/// what was expected and what it is.
pub proof fn law_unexpected_type(
    name: &str,
    expected: &'static str,
    value: &MetricValue,
    error: Error,
    actual: &'static str,
)
    requires
        call_ensures(unexpected_type, (name, expected, value), error),
        call_ensures(metric_type_name, (value,), actual),
    ensures
        error@ == (ErrorView::UnexpectedMetricType {
            name: name@,
            expected: expected@,
            actual: actual@,
        }),
{
}

} // verus!
