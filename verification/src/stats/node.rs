//! `/sys/node` projection: the node-name vector plus the four per-thread
//! counter vectors, one column per graph node.
//!
//! This family exists only when the server's `per_node_counters` switch is on,
//! so the report is an `Option`: an absent family is an ordinary result, a
//! malformed one is an error. The counters are the server's per-thread cells
//! (`calls`, `vectors`, `clocks` in raw CPU counter ticks) plus the suspend
//! count of process nodes; only thread zero's row has `suspends`, and a process
//! node's dispatch counters stay zero.

use crate::list;
use crate::stats::clock;
use crate::stats::error;
use crate::stats::error::{Error, ErrorView};
use crate::stats::protocol;
use crate::stats::protocol::{MetricValue, MetricView};
use crate::stats::provider::StatsProvider;
use crate::stats::questions;
use crate::stats::questions::{Exchange, Questions};
use crate::stats::reader;
use crate::stats::reader::{Reading, StatsReader};
use crate::stats::system;
use crate::text;
use std::time::Instant;
use vstd::prelude::*;
use vstd::string::*;

verus! {

pub const NAMES: &'static str = "/sys/node/names";

pub const CLOCKS: &'static str = "/sys/node/clocks";

pub const VECTORS: &'static str = "/sys/node/vectors";

pub const CALLS: &'static str = "/sys/node/calls";

pub const SUSPENDS: &'static str = "/sys/node/suspends";

pub const WORKER_THREAD_COUNT: &'static str = "/sys/num_worker_threads";

/// One of the four counters the family publishes.
#[derive(Clone, Copy, Debug, Eq, PartialEq, Structural)]
pub enum NodeCounter {
    Clocks,
    Vectors,
    Calls,
    Suspends,
}

impl NodeCounter {
    /// The counter's name in the directory and in its `/nodes/<node>/<name>`
    /// alias.
    pub fn name(self) -> (name: &'static str)
        ensures
            name@ == (match self {
                NodeCounter::Clocks => "clocks"@,
                NodeCounter::Vectors => "vectors"@,
                NodeCounter::Calls => "calls"@,
                NodeCounter::Suspends => "suspends"@,
            }),
    {
        match self {
            NodeCounter::Clocks => "clocks",
            NodeCounter::Vectors => "vectors",
            NodeCounter::Calls => "calls",
            NodeCounter::Suspends => "suspends",
        }
    }
}

/// One node's four counters, one value per thread in thread order.
#[derive(Clone, Debug, Eq, PartialEq)]
pub struct NodeUsage {
    pub name: String,
    /// Raw CPU counter ticks; not seconds, and only comparable on this host.
    pub clocks: Vec<u64>,
    pub vectors: Vec<u64>,
    pub calls: Vec<u64>,
    pub suspends: Vec<u64>,
}

/// The view of a [`NodeUsage`].
pub struct UsageView {
    pub name: Seq<char>,
    pub clocks: Seq<u64>,
    pub vectors: Seq<u64>,
    pub calls: Seq<u64>,
    pub suspends: Seq<u64>,
}

impl View for NodeUsage {
    type V = UsageView;

    open spec fn view(&self) -> UsageView {
        UsageView {
            name: self.name@,
            clocks: self.clocks@,
            vectors: self.vectors@,
            calls: self.calls@,
            suspends: self.suspends@,
        }
    }
}

impl UsageView {
    /// The values of one counter, in thread order.
    pub open spec fn counter(self, counter: NodeCounter) -> Seq<u64> {
        match counter {
            NodeCounter::Clocks => self.clocks,
            NodeCounter::Vectors => self.vectors,
            NodeCounter::Calls => self.calls,
            NodeCounter::Suspends => self.suspends,
        }
    }
}

impl NodeUsage {
    /// The values of one counter, in thread order.
    pub fn counter(&self, counter: NodeCounter) -> (values: &[u64])
        ensures
            values@ == self@.counter(counter),
    {
        match counter {
            NodeCounter::Clocks => self.clocks.as_slice(),
            NodeCounter::Vectors => self.vectors.as_slice(),
            NodeCounter::Calls => self.calls.as_slice(),
            NodeCounter::Suspends => self.suspends.as_slice(),
        }
    }
}

/// One reading of the whole family: row = thread, column = node slot.
///
/// The five entries are five independent reads, not one instant: the server
/// deliberately does not stop its Data Workers to sample them.
#[derive(Debug, Eq, PartialEq)]
pub struct NodeStats {
    /// Node names by slot; the column order of every counter vector.
    pub names: Vec<String>,
    pub clocks: Vec<Vec<u64>>,
    pub vectors: Vec<Vec<u64>>,
    pub calls: Vec<Vec<u64>>,
    pub suspends: Vec<Vec<u64>>,
    /// When this report was produced, from the client's monotonic clock.
    pub sampled_at: Instant,
}

/// The view of a [`NodeStats`]: everything but the time of its sampling.
pub struct NodeStatsView {
    pub names: Seq<Seq<char>>,
    pub clocks: Seq<Seq<u64>>,
    pub vectors: Seq<Seq<u64>>,
    pub calls: Seq<Seq<u64>>,
    pub suspends: Seq<Seq<u64>>,
}

impl View for NodeStats {
    type V = NodeStatsView;

    open spec fn view(&self) -> NodeStatsView {
        NodeStatsView {
            names: text::texts(self.names@),
            clocks: protocol::rows_view(self.clocks@),
            vectors: protocol::rows_view(self.vectors@),
            calls: protocol::rows_view(self.calls@),
            suspends: protocol::rows_view(self.suspends@),
        }
    }
}

impl Clone for NodeStats {
    fn clone(&self) -> (copy: Self)
        ensures
            copy@ == self@,
            copy.sampled_at == self.sampled_at,
    {
        let names = self.names.clone();
        assert(text::texts(names@) =~= text::texts(self.names@));
        NodeStats {
            names,
            clocks: copy_rows(&self.clocks),
            vectors: copy_rows(&self.vectors),
            calls: copy_rows(&self.calls),
            suspends: copy_rows(&self.suspends),
            sampled_at: self.sampled_at,
        }
    }
}

fn copy_rows(rows: &Vec<Vec<u64>>) -> (copy: Vec<Vec<u64>>)
    ensures
        protocol::rows_view(copy@) == protocol::rows_view(rows@),
{
    let copy = rows.clone();
    assert(protocol::rows_view(copy@) =~~= protocol::rows_view(rows@));
    copy
}

/// Whether a published name is `name`.
pub open spec fn is_name(name: Seq<char>) -> spec_fn(Seq<char>) -> bool {
    |published: Seq<char>| published == name
}

/// The one slot a name occupies; a name that is absent or occurs twice has none.
pub open spec fn slot_of(names: Seq<Seq<char>>, name: Seq<char>) -> Option<int> {
    match list::first_where(names, is_name(name)) {
        None => None,
        Some(slot) => if names.skip(slot + 1).contains(name) {
            None
        } else {
            Some(slot)
        },
    }
}

/// Whether every row of a counter has the column.
pub open spec fn has_column(counter: Seq<Seq<u64>>, slot: int) -> bool {
    forall|row: int| 0 <= row < counter.len() ==> slot < (#[trigger] counter[row]).len()
}

/// One column across every row.
pub open spec fn column_values(counter: Seq<Seq<u64>>, slot: int) -> Seq<u64> {
    Seq::new(counter.len(), |row: int| counter[row][slot])
}

impl NodeStatsView {
    /// The counter vector of one counter.
    pub open spec fn counter(self, counter: NodeCounter) -> Seq<Seq<u64>> {
        match counter {
            NodeCounter::Clocks => self.clocks,
            NodeCounter::Vectors => self.vectors,
            NodeCounter::Calls => self.calls,
            NodeCounter::Suspends => self.suspends,
        }
    }

    /// Whether the four counters have one row per thread, and every row has one
    /// column per node.
    pub open spec fn well_formed(self) -> bool {
        forall|counter: NodeCounter|
            {
                &&& (#[trigger] self.counter(counter)).len() == self.clocks.len()
                &&& forall|row: int|
                    0 <= row < self.counter(counter).len() ==> (#[trigger] self.counter(
                        counter,
                    )[row]).len() == self.names.len()
            }
    }

    /// The four counters of the node at a slot.
    pub open spec fn usage_at(self, slot: int) -> UsageView {
        UsageView {
            name: self.names[slot],
            clocks: column_values(self.clocks, slot),
            vectors: column_values(self.vectors, slot),
            calls: column_values(self.calls, slot),
            suspends: column_values(self.suspends, slot),
        }
    }
}

impl NodeStats {
    /// The number of rows: thread zero plus the Data Workers.
    pub fn thread_count(&self) -> (count: usize)
        ensures
            count == self@.clocks.len(),
    {
        self.clocks.len()
    }

    /// The counter vector of one counter, row by column.
    pub fn counter(&self, counter: NodeCounter) -> (rows: &[Vec<u64>])
        ensures
            protocol::rows_view(rows@) == self@.counter(counter),
    {
        match counter {
            NodeCounter::Clocks => self.clocks.as_slice(),
            NodeCounter::Vectors => self.vectors.as_slice(),
            NodeCounter::Calls => self.calls.as_slice(),
            NodeCounter::Suspends => self.suspends.as_slice(),
        }
    }

    /// One node's four counters, taken from the column its name occupies.
    ///
    /// A name the vector does not carry, or one it carries twice, has no single
    /// column, so it yields `None` rather than an arbitrary pick.
    pub fn node(&self, name: &str) -> (usage: Option<NodeUsage>)
        requires
            slot_of(self@.names, name@) matches Some(slot) ==> has_column(self@.clocks, slot)
                && has_column(self@.vectors, slot) && has_column(self@.calls, slot) && has_column(
                self@.suspends,
                slot,
            ),
        ensures
            match slot_of(self@.names, name@) {
                Some(slot) => usage is Some && usage->Some_0@ == self@.usage_at(slot),
                None => usage is None,
            },
    {
        match find_slot(&self.names, name) {
            Some(slot) => {
                assert(self@.names[slot as int] == name@);
                Some(
                    NodeUsage {
                        name: name.to_owned(),
                        clocks: column(&self.clocks, slot),
                        vectors: column(&self.vectors, slot),
                        calls: column(&self.calls, slot),
                        suspends: column(&self.suspends, slot),
                    },
                )
            },
            None => None,
        }
    }
}

/// The one slot a name occupies.
fn find_slot(names: &Vec<String>, name: &str) -> (slot: Option<usize>)
    ensures
        match slot_of(text::texts(names@), name@) {
            Some(at) => slot is Some && slot->Some_0 == at && 0 <= at < names@.len()
                && text::texts(names@)[at] == name@,
            None => slot is None,
        },
{
    let ghost listed = text::texts(names@);
    let ghost named = is_name(name@);
    let mut i: usize = 0;
    while i < names.len()
        invariant
            i <= names@.len(),
            listed == text::texts(names@),
            named == is_name(name@),
            forall|j: int| 0 <= j < i ==> !named(#[trigger] listed[j]),
        decreases names@.len() - i,
    {
        if text::same_text(names[i].as_str(), name) {
            proof {
                list::lemma_first_where_is(listed, named, i as int);
            }
            let mut k: usize = i + 1;
            while k < names.len()
                invariant
                    i < k <= names@.len(),
                    listed == text::texts(names@),
                    named == is_name(name@),
                    list::first_where(listed, named) == Some(i as int),
                    listed[i as int] == name@,
                    forall|j: int| i < j < k ==> #[trigger] listed[j] != name@,
                decreases names@.len() - k,
            {
                if text::same_text(names[k].as_str(), name) {
                    assert(listed.skip(i + 1)[k - i - 1] == name@);
                    return None;
                }
                k = k + 1;
            }
            proof {
                let rest = listed.skip(i + 1);
                if rest.contains(name@) {
                    let at = choose|at: int| 0 <= at < rest.len() && rest[at] == name@;
                    assert(listed[i + 1 + at] == name@);
                }
            }
            return Some(i);
        }
        i = i + 1;
    }
    proof {
        list::lemma_first_where(listed, named);
    }
    None
}

/// One node's column across every thread.
fn column(counter: &Vec<Vec<u64>>, slot: usize) -> (values: Vec<u64>)
    requires
        has_column(protocol::rows_view(counter@), slot as int),
    ensures
        values@ == column_values(protocol::rows_view(counter@), slot as int),
{
    let ghost rows = protocol::rows_view(counter@);
    let mut values: Vec<u64> = Vec::new();
    let mut i: usize = 0;
    while i < counter.len()
        invariant
            i <= counter@.len(),
            rows == protocol::rows_view(counter@),
            has_column(rows, slot as int),
            values@ == column_values(rows, slot as int).take(i as int),
        decreases counter@.len() - i,
    {
        assert(slot < rows[i as int].len());
        values.push(counter[i][slot]);
        assert(values@ =~= column_values(rows, slot as int).take(i + 1));
        i = i + 1;
    }
    assert(column_values(rows, slot as int).take(i as int) =~= column_values(rows, slot as int));
    values
}

/// The names a report reads, in the order of its reads.
pub open spec fn node_entries() -> Seq<Seq<char>> {
    seq![NAMES@, CLOCKS@, VECTORS@, CALLS@, SUSPENDS@, WORKER_THREAD_COUNT@]
}

/// The node names of a reading.
pub open spec fn names_of(name: Seq<char>, reading: Reading) -> Result<Seq<Seq<char>>, ErrorView> {
    match reading {
        Err(error) => Err(error),
        Ok(MetricView::Names(names)) => Ok(names),
        Ok(value) => Err(reader::unexpected(name, "name_vector"@, value)),
    }
}

/// The rows of a counter reading.
pub open spec fn rows_of(name: Seq<char>, reading: Reading) -> Result<Seq<Seq<u64>>, ErrorView> {
    match reading {
        Err(error) => Err(error),
        Ok(MetricView::Simple(rows)) => Ok(rows),
        Ok(value) => Err(reader::unexpected(name, "counter_vector_simple"@, value)),
    }
}

/// The failure of a counter that has another number of rows.
pub open spec fn row_failure(name: Seq<char>, rows: int, counter: Seq<Seq<u64>>) -> Option<
    ErrorView,
> {
    if counter.len() == rows {
        None
    } else {
        Some(
            ErrorView::UnexpectedRowCount { name, expected: rows, actual: counter.len() as int },
        )
    }
}

/// The failure of the first row that has another number of columns.
pub open spec fn column_failure(name: Seq<char>, columns: int, counter: Seq<Seq<u64>>) -> Option<
    ErrorView,
> {
    match list::first_where(counter, |row: Seq<u64>| row.len() != columns) {
        None => None,
        Some(row) => Some(
            ErrorView::UnexpectedColumnCount {
                name: text::row_label(name, row as nat),
                expected: columns,
                actual: counter[row].len() as int,
            },
        ),
    }
}

/// The first of several failures.
pub open spec fn first_failure(failures: Seq<Option<ErrorView>>) -> Option<ErrorView>
    decreases failures.len(),
{
    if failures.len() == 0 {
        None
    } else if failures[0] is Some {
        failures[0]
    } else {
        first_failure(failures.drop_first())
    }
}

/// The first check that the counters of a reading fail: their rows first, and
/// their columns next.
pub open spec fn shape_failure(stats: NodeStatsView) -> Option<ErrorView> {
    let rows = stats.clocks.len() as int;
    let columns = stats.names.len() as int;
    first_failure(
        seq![
            row_failure(VECTORS@, rows, stats.vectors),
            row_failure(CALLS@, rows, stats.calls),
            row_failure(SUSPENDS@, rows, stats.suspends),
            column_failure(CLOCKS@, columns, stats.clocks),
            column_failure(VECTORS@, columns, stats.vectors),
            column_failure(CALLS@, columns, stats.calls),
            column_failure(SUSPENDS@, columns, stats.suspends),
        ],
    )
}

/// The counters hold thread zero and one row per worker.
pub open spec fn thread_failure(rows: int, workers: u64) -> Option<ErrorView> {
    if rows == workers + 1 {
        None
    } else {
        Some(
            ErrorView::WorkerCountMismatch {
                name: CLOCKS@,
                worker_thread_count: workers,
                columns: rows,
            },
        )
    }
}

/// What the first of the six readings make of a report: `None` when the next
/// reading is needed.
pub open spec fn node_of(readings: Seq<Reading>) -> Option<Result<NodeStatsView, ErrorView>> {
    if readings.len() < 1 {
        None
    } else if names_of(NAMES@, readings[0]) is Err {
        Some(Err(names_of(NAMES@, readings[0])->Err_0))
    } else if readings.len() < 2 {
        None
    } else if rows_of(CLOCKS@, readings[1]) is Err {
        Some(Err(rows_of(CLOCKS@, readings[1])->Err_0))
    } else if readings.len() < 3 {
        None
    } else if rows_of(VECTORS@, readings[2]) is Err {
        Some(Err(rows_of(VECTORS@, readings[2])->Err_0))
    } else if readings.len() < 4 {
        None
    } else if rows_of(CALLS@, readings[3]) is Err {
        Some(Err(rows_of(CALLS@, readings[3])->Err_0))
    } else if readings.len() < 5 {
        None
    } else if rows_of(SUSPENDS@, readings[4]) is Err {
        Some(Err(rows_of(SUSPENDS@, readings[4])->Err_0))
    } else {
        let stats = NodeStatsView {
            names: names_of(NAMES@, readings[0])->Ok_0,
            clocks: rows_of(CLOCKS@, readings[1])->Ok_0,
            vectors: rows_of(VECTORS@, readings[2])->Ok_0,
            calls: rows_of(CALLS@, readings[3])->Ok_0,
            suspends: rows_of(SUSPENDS@, readings[4])->Ok_0,
        };
        if shape_failure(stats) is Some {
            Some(Err(shape_failure(stats)->Some_0))
        } else if readings.len() < 6 {
            None
        } else {
            match system::cell_of(WORKER_THREAD_COUNT@, readings[5]) {
                Err(error) => Some(Err(error)),
                Ok(workers) => match thread_failure(stats.clocks.len() as int, workers) {
                    Some(error) => Some(Err(error)),
                    None => Some(Ok(stats)),
                },
            }
        }
    }
}

/// What the readings make of a report, as a script.
pub open spec fn node_script() -> spec_fn(Seq<Reading>) -> Option<
    Result<NodeStatsView, ErrorView>,
> {
    |readings: Seq<Reading>| node_of(readings)
}

/// Whether `history` is the whole of a read of the family that ends in `result`:
/// it reads the six entries in order, as far as they are needed.
pub open spec fn told_family(
    history: Seq<Exchange>,
    result: Result<NodeStatsView, ErrorView>,
) -> bool {
    questions::scripted(history, node_entries(), node_script(), result)
}

/// Whether `history` is the whole of a report that ends in `result`: it lists
/// the names once. A family whose names are not listed is absent, and nothing
/// of it is read.
pub open spec fn told(
    history: Seq<Exchange>,
    result: Result<Option<NodeStatsView>, ErrorView>,
) -> bool {
    history.len() > 0 && match history[0] {
        Exchange::Listed(Err(error)) => history.len() == 1 && result == Err::<
            Option<NodeStatsView>,
            _,
        >(error),
        Exchange::Listed(Ok(listed)) => if listed.contains(NAMES@) {
            match result {
                Err(error) => told_family(history.skip(1), Err(error)),
                Ok(stats) => stats is Some && told_family(history.skip(1), Ok(stats->Some_0)),
            }
        } else {
            history.len() == 1 && result == Ok::<Option<NodeStatsView>, ErrorView>(None)
        },
        Exchange::Read(..) => false,
    }
}

/// A report that needs one more reading has needed more all along.
proof fn lemma_patient()
    ensures
        questions::patient(node_script()),
{
    let made = node_script();
    assert forall|readings: Seq<Reading>, count: int|
        0 <= count <= readings.len() && made(readings) is None implies made(
        #[trigger] readings.take(count),
    ) is None by {
        let part = readings.take(count);
        assert forall|i: int| 0 <= i < count implies #[trigger] part[i] == readings[i] by {
        }
    }
}

/// The view of a report.
pub open spec fn report_view(report: Result<Option<NodeStats>, Error>) -> Result<
    Option<NodeStatsView>,
    ErrorView,
> {
    match report {
        Ok(Some(stats)) => Ok(Some(stats@)),
        Ok(None) => Ok(None),
        Err(error) => Err(error@),
    }
}

/// Projects `/sys/node` into `Option<NodeStats>`.
pub struct NodeStatsProvider;

impl StatsProvider for NodeStatsProvider {
    const PREFIX: &'static str = "/sys/node";

    type Report = Option<NodeStats>;

    open spec fn may_report(
        history: Seq<Exchange>,
        report: Result<Option<NodeStats>, Error>,
    ) -> bool {
        told(history, report_view(report))
    }

    open spec fn alike(
        left: Result<Option<NodeStats>, Error>,
        right: Result<Option<NodeStats>, Error>,
    ) -> bool {
        report_view(left) == report_view(right)
    }

    proof fn lemma_one_report(
        first: Seq<Exchange>,
        second: Seq<Exchange>,
        left: Result<Option<NodeStats>, Error>,
        right: Result<Option<NodeStats>, Error>,
    ) {
        questions::lemma_agreeing_rest(first, second);
        if let Exchange::Listed(Ok(listed)) = first[0] {
            if listed.contains(NAMES@) {
                questions::lemma_one_script(
                    first.skip(1),
                    second.skip(1),
                    node_entries(),
                    node_script(),
                    family_result(report_view(left)),
                    family_result(report_view(right)),
                );
            }
        }
    }

    fn report<R: StatsReader>(reader: &R) -> (report: Result<Option<NodeStats>, Error>) {
        let mut questions = Questions::new(reader);
        let ghost before = questions;
        let report = read_nodes(&mut questions);
        proof {
            let history = choose|history: Seq<Exchange>| #[trigger]
                questions::continues(before, questions, history) && told(
                    history,
                    report_view(report),
                );
            questions::lemma_may_ask(before, questions, history);
        }
        report
    }
}

/// A report that is not absent, as the result of reading the family.
spec fn family_result(result: Result<Option<NodeStatsView>, ErrorView>) -> Result<
    NodeStatsView,
    ErrorView,
> {
    match result {
        Ok(stats) => Ok(stats->Some_0),
        Err(error) => Err(error),
    }
}

/// Lists the names, and reads the family when it is published.
pub fn read_nodes<R: StatsReader>(questions: &mut Questions<R>) -> (report: Result<
    Option<NodeStats>,
    Error,
>)
    ensures
        exists|history: Seq<Exchange>| #[trigger]
            questions::continues(*old(questions), *final(questions), history) && told(
                history,
                report_view(report),
            ),
{
    let listing = questions.names();
    let ghost listed = seq![Exchange::Listed(error::listing(listing))];
    let names = match listing {
        Ok(names) => names,
        Err(error) => {
            return Err(error);
        },
    };
    if !text::list_contains(&names, NAMES) {
        return Ok(None);
    }
    let sampled_at = clock::now();
    let ghost middle = *questions;
    let family = read_family(questions, sampled_at);
    proof {
        let reads = choose|reads: Seq<Exchange>| #[trigger]
            questions::continues(middle, *questions, reads) && told_family(
                reads,
                error::outcome(family),
            );
        questions::lemma_continues(*old(questions), middle, *questions, listed, reads);
        assert((listed + reads).skip(1) =~= reads);
    }
    match family {
        Ok(stats) => Ok(Some(stats)),
        Err(error) => Err(error),
    }
}

/// Reads and checks the whole family for a report of the time `sampled_at`.
pub fn read_family<R: StatsReader>(questions: &mut Questions<R>, sampled_at: Instant) -> (stats:
    Result<NodeStats, Error>)
    ensures
        exists|history: Seq<Exchange>| #[trigger]
            questions::continues(*old(questions), *final(questions), history) && told_family(
                history,
                error::outcome(stats),
            ),
        stats matches Ok(read) ==> read.sampled_at == sampled_at,
{
    let ghost mut history: Seq<Exchange> = Seq::empty();
    proof {
        questions::lemma_continues_none(*questions);
        lemma_patient();
    }
    let ghost middle = *questions;
    let (names, Ghost(exchange)) = read_node_names(questions, NAMES);
    proof {
        questions::lemma_one_more(*old(questions), middle, *questions, history, exchange);
        history = history.push(exchange);
    }
    let names = match names {
        Ok(names) => names,
        Err(error) => {
            proof {
                questions::lemma_scripted(history, node_entries(), node_script(), Err(error@));
            }
            return Err(error);
        },
    };
    let ghost middle = *questions;
    let (clocks, Ghost(exchange)) = read_counter(questions, CLOCKS);
    proof {
        questions::lemma_one_more(*old(questions), middle, *questions, history, exchange);
        history = history.push(exchange);
    }
    let clocks = match clocks {
        Ok(rows) => rows,
        Err(error) => {
            proof {
                questions::lemma_scripted(history, node_entries(), node_script(), Err(error@));
            }
            return Err(error);
        },
    };
    let ghost middle = *questions;
    let (vectors, Ghost(exchange)) = read_counter(questions, VECTORS);
    proof {
        questions::lemma_one_more(*old(questions), middle, *questions, history, exchange);
        history = history.push(exchange);
    }
    let vectors = match vectors {
        Ok(rows) => rows,
        Err(error) => {
            proof {
                questions::lemma_scripted(history, node_entries(), node_script(), Err(error@));
            }
            return Err(error);
        },
    };
    let ghost middle = *questions;
    let (calls, Ghost(exchange)) = read_counter(questions, CALLS);
    proof {
        questions::lemma_one_more(*old(questions), middle, *questions, history, exchange);
        history = history.push(exchange);
    }
    let calls = match calls {
        Ok(rows) => rows,
        Err(error) => {
            proof {
                questions::lemma_scripted(history, node_entries(), node_script(), Err(error@));
            }
            return Err(error);
        },
    };
    let ghost middle = *questions;
    let (suspends, Ghost(exchange)) = read_counter(questions, SUSPENDS);
    proof {
        questions::lemma_one_more(*old(questions), middle, *questions, history, exchange);
        history = history.push(exchange);
    }
    let suspends = match suspends {
        Ok(rows) => rows,
        Err(error) => {
            proof {
                questions::lemma_scripted(history, node_entries(), node_script(), Err(error@));
            }
            return Err(error);
        },
    };
    let stats = NodeStats { names, clocks, vectors, calls, suspends, sampled_at };
    match check_shape(&stats) {
        None => {},
        Some(error) => {
            proof {
                questions::lemma_scripted(history, node_entries(), node_script(), Err(error@));
            }
            return Err(error);
        },
    }
    let ghost middle = *questions;
    let (worker_thread_count, Ghost(exchange)) = system::read_u64(questions, WORKER_THREAD_COUNT);
    proof {
        questions::lemma_one_more(*old(questions), middle, *questions, history, exchange);
        history = history.push(exchange);
    }
    let worker_thread_count = match worker_thread_count {
        Ok(value) => value,
        Err(error) => {
            proof {
                questions::lemma_scripted(history, node_entries(), node_script(), Err(error@));
            }
            return Err(error);
        },
    };
    match check_threads(stats.thread_count(), worker_thread_count) {
        None => {
            proof {
                questions::lemma_scripted(history, node_entries(), node_script(), Ok(stats@));
            }
            Ok(stats)
        },
        Some(error) => {
            proof {
                questions::lemma_scripted(history, node_entries(), node_script(), Err(error@));
            }
            Err(error)
        },
    }
}

/// Checks that the counters hold thread zero and one row per worker.
pub fn check_threads(rows: usize, worker_thread_count: u64) -> (failure: Option<Error>)
    ensures
        failure is Some <==> thread_failure(rows as int, worker_thread_count) is Some,
        failure matches Some(error) ==> Some(error@) == thread_failure(
            rows as int,
            worker_thread_count,
        ),
{
    if rows as u128 == worker_thread_count as u128 + 1 {
        None
    } else {
        Some(
            Error::WorkerCountMismatch {
                name: CLOCKS.to_owned(),
                worker_thread_count,
                columns: rows,
            },
        )
    }
}

/// Checks that the counters have equal rows, and a column per node in each.
pub fn check_shape(stats: &NodeStats) -> (failure: Option<Error>)
    ensures
        failure is Some <==> shape_failure(stats@) is Some,
        failure matches Some(error) ==> Some(error@) == shape_failure(stats@),
{
    proof {
        reveal_with_fuel(first_failure, 8);
    }
    let rows: usize = stats.clocks.len();
    let columns: usize = stats.names.len();
    let failure = check_rows(VECTORS, rows, &stats.vectors);
    if failure.is_some() {
        return failure;
    }
    let failure = check_rows(CALLS, rows, &stats.calls);
    if failure.is_some() {
        return failure;
    }
    let failure = check_rows(SUSPENDS, rows, &stats.suspends);
    if failure.is_some() {
        return failure;
    }
    let failure = check_columns(CLOCKS, columns, &stats.clocks);
    if failure.is_some() {
        return failure;
    }
    let failure = check_columns(VECTORS, columns, &stats.vectors);
    if failure.is_some() {
        return failure;
    }
    let failure = check_columns(CALLS, columns, &stats.calls);
    if failure.is_some() {
        return failure;
    }
    check_columns(SUSPENDS, columns, &stats.suspends)
}

fn check_rows(name: &str, rows: usize, counter: &Vec<Vec<u64>>) -> (failure: Option<Error>)
    ensures
        failure is Some <==> row_failure(
            name@,
            rows as int,
            protocol::rows_view(counter@),
        ) is Some,
        failure matches Some(error) ==> Some(error@) == row_failure(
            name@,
            rows as int,
            protocol::rows_view(counter@),
        ),
{
    if counter.len() != rows {
        Some(
            Error::UnexpectedRowCount {
                name: name.to_owned(),
                expected: rows,
                actual: counter.len(),
            },
        )
    } else {
        None
    }
}

fn check_columns(name: &str, columns: usize, counter: &Vec<Vec<u64>>) -> (failure: Option<Error>)
    ensures
        failure is Some <==> column_failure(
            name@,
            columns as int,
            protocol::rows_view(counter@),
        ) is Some,
        failure matches Some(error) ==> Some(error@) == column_failure(
            name@,
            columns as int,
            protocol::rows_view(counter@),
        ),
{
    let ghost rows = protocol::rows_view(counter@);
    let ghost odd = |row: Seq<u64>| row.len() != columns as int;
    let mut i: usize = 0;
    while i < counter.len()
        invariant
            i <= counter@.len(),
            rows == protocol::rows_view(counter@),
            odd == (|row: Seq<u64>| row.len() != columns as int),
            forall|j: int| 0 <= j < i ==> !odd(#[trigger] rows[j]),
        decreases counter@.len() - i,
    {
        if counter[i].len() != columns {
            proof {
                list::lemma_first_where_is(rows, odd, i as int);
            }
            return Some(
                Error::UnexpectedColumnCount {
                    name: text::row_name(name, i),
                    expected: columns,
                    actual: counter[i].len(),
                },
            );
        }
        i = i + 1;
    }
    proof {
        list::lemma_first_where(rows, odd);
    }
    None
}

/// The node-name vector, which publishes one name per node slot.
fn read_node_names<R: StatsReader>(questions: &mut Questions<R>, name: &str) -> (names: (
    Result<Vec<String>, Error>,
    Ghost<Exchange>,
))
    ensures
        questions::continues(*old(questions), *final(questions), seq![names.1@]),
        names.1@ is Read,
        names.1@->Read_0 == name@,
        error::listing(names.0) == names_of(name@, names.1@->Read_1),
{
    let answer = questions.read(name);
    let ghost exchange = Exchange::Read(name@, error::outcome(answer));
    let names = match answer {
        Ok(MetricValue::Names(names)) => Ok(names),
        Ok(other) => Err(reader::unexpected_type(name, "name_vector", &other)),
        Err(error) => Err(error),
    };
    (names, Ghost(exchange))
}

/// One counter vector, row by column.
fn read_counter<R: StatsReader>(questions: &mut Questions<R>, name: &str) -> (rows: (
    Result<Vec<Vec<u64>>, Error>,
    Ghost<Exchange>,
))
    ensures
        questions::continues(*old(questions), *final(questions), seq![rows.1@]),
        rows.1@ is Read,
        rows.1@->Read_0 == name@,
        match rows.0 {
            Ok(found) => rows_of(name@, rows.1@->Read_1) == Ok::<_, ErrorView>(
                protocol::rows_view(found@),
            ),
            Err(error) => rows_of(name@, rows.1@->Read_1) == Err::<Seq<Seq<u64>>, _>(error@),
        },
{
    let answer = questions.read(name);
    let ghost exchange = Exchange::Read(name@, error::outcome(answer));
    let rows = match answer {
        Ok(MetricValue::Simple(rows)) => Ok(rows),
        Ok(other) => Err(reader::unexpected_type(name, "counter_vector_simple", &other)),
        Err(error) => Err(error),
    };
    (rows, Ghost(exchange))
}

/// Counters that pass the shape check are well formed, and conversely.
pub proof fn law_checked_shape(stats: NodeStatsView)
    ensures
        shape_failure(stats) is None <==> stats.well_formed(),
{
    reveal_with_fuel(first_failure, 8);
    let columns = stats.names.len() as int;
    let odd = |row: Seq<u64>| row.len() != columns;
    list::lemma_first_where(stats.clocks, odd);
    list::lemma_first_where(stats.vectors, odd);
    list::lemma_first_where(stats.calls, odd);
    list::lemma_first_where(stats.suspends, odd);
    assert(stats.counter(NodeCounter::Clocks) == stats.clocks);
    assert(stats.counter(NodeCounter::Vectors) == stats.vectors);
    assert(stats.counter(NodeCounter::Calls) == stats.calls);
    assert(stats.counter(NodeCounter::Suspends) == stats.suspends);
}

/// A report is well formed, so every node that it names once can be looked up.
pub proof fn law_report_is_well_formed(
    history: Seq<Exchange>,
    stats: NodeStatsView,
    name: Seq<char>,
)
    requires
        told(history, Ok(Some(stats))),
    ensures
        stats.well_formed(),
        slot_of(stats.names, name) matches Some(slot) ==> forall|counter: NodeCounter|
            has_column(#[trigger] stats.counter(counter), slot),
{
    law_checked_shape(stats);
    law_slot(stats.names, name);
}

/// A family is absent exactly when its names are not listed, and then nothing
/// is read.
pub proof fn law_absent_family(history: Seq<Exchange>, listed: Seq<Seq<char>>)
    requires
        history.len() > 0,
        history[0] == Exchange::Listed(Ok(listed)),
    ensures
        told(history, Ok(None)) <==> !listed.contains(NAMES@) && history.len() == 1,
{
}

/// The slot of a name is the one place where the name occurs.
pub proof fn law_slot(names: Seq<Seq<char>>, name: Seq<char>)
    ensures
        match slot_of(names, name) {
            Some(slot) => 0 <= slot < names.len() && forall|i: int|
                0 <= i < names.len() ==> (#[trigger] names[i] == name <==> i == slot),
            None => forall|slot: int|
                0 <= slot < names.len() && names[slot] == name ==> exists|other: int|
                    0 <= other < names.len() && other != slot && #[trigger] names[other] == name,
        },
{
    let named = is_name(name);
    list::lemma_first_where(names, named);
    if list::first_where(names, named) is None {
        assert(slot_of(names, name) is None);
        assert forall|slot: int| 0 <= slot < names.len() implies #[trigger] names[slot]
            != name by {
            assert(!named(names[slot]));
        }
    } else {
        let first = list::first_where(names, named)->Some_0;
        let rest = names.skip(first + 1);
        assert(named(names[first]));
        if rest.contains(name) {
            assert(slot_of(names, name) is None);
            let at = choose|at: int| 0 <= at < rest.len() && rest[at] == name;
            assert(names[first + 1 + at] == name);
            assert(names[first] == name);
            assert forall|slot: int| 0 <= slot < names.len() && names[slot] == name implies exists|
                other: int,
            |
                0 <= other < names.len() && other != slot && #[trigger] names[other] == name by {
                if slot == first {
                    assert(names[first + 1 + at] == name);
                } else {
                    assert(names[first] == name);
                }
            }
        } else {
            assert(slot_of(names, name) == Some(first));
            assert forall|i: int| 0 <= i < names.len() implies (#[trigger] names[i] == name <==> i
                == first) by {
                if i < first {
                    assert(!named(names[i]));
                } else if i > first {
                    assert(rest[i - first - 1] == names[i]);
                }
            }
        }
    }
}

/// The rows of a counter are those of the field with the counter's name.
pub proof fn law_counters_are_their_fields(
    stats: &NodeStats,
    usage: &NodeUsage,
    counter: NodeCounter,
    rows: &[Vec<u64>],
    values: &[u64],
)
    requires
        call_ensures(NodeStats::counter, (stats, counter), rows),
        call_ensures(NodeUsage::counter, (usage, counter), values),
    ensures
        counter is Clocks ==> protocol::rows_view(rows@) == protocol::rows_view(stats.clocks@)
            && values@ == usage.clocks@,
        counter is Vectors ==> protocol::rows_view(rows@) == protocol::rows_view(stats.vectors@)
            && values@ == usage.vectors@,
        counter is Calls ==> protocol::rows_view(rows@) == protocol::rows_view(stats.calls@)
            && values@ == usage.calls@,
        counter is Suspends ==> protocol::rows_view(rows@) == protocol::rows_view(stats.suspends@)
            && values@ == usage.suspends@,
{
}

/// The rows that a report gives for a counter are the rows that were read from
/// the entry with the counter's name, and its node names are those of the name
/// entry; it has a row for thread zero and one for every worker that was read.
pub proof fn law_counters_are_read_from_their_entries(
    history: Seq<Exchange>,
    stats: &NodeStats,
    counter: NodeCounter,
    name: &'static str,
    rows: &[Vec<u64>],
    threads: usize,
)
    requires
        told(history, Ok(Some(stats@))),
        call_ensures(NodeCounter::name, (counter,), name),
        call_ensures(NodeStats::counter, (stats, counter), rows),
        call_ensures(NodeStats::thread_count, (stats,), threads),
    ensures
        history.contains(
            Exchange::Read(
                "/sys/node/"@ + name@,
                Ok(MetricView::Simple(protocol::rows_view(rows@))),
            ),
        ),
        history.contains(
            Exchange::Read("/sys/node/names"@, Ok(MetricView::Names(text::texts(stats.names@)))),
        ),
        rows@.len() == threads,
        exists|workers: u64|
            threads == workers + 1 && (history.contains(
                #[trigger] worker_reading(MetricView::Scalar(workers)),
            ) || history.contains(worker_reading(MetricView::Gauge(workers)))),
{
    let reads = history.skip(1);
    let readings = questions::readings(reads);
    let view = stats@;
    assert(node_of(readings) == Some(Ok::<_, ErrorView>(view)));
    assert forall|i: int| 0 <= i < reads.len() implies #[trigger] reads[i] == history[1 + i] by {
    }
    assert(readings.len() == 6 && reads.len() == 6);
    assert forall|i: int| 0 <= i < 6 implies reads[i] == Exchange::Read(
        node_entries()[i],
        #[trigger] readings[i],
    ) by {
        assert(reads[i] is Read);
    }
    assert(history[1] == Exchange::Read(NAMES@, readings[0]));
    assert(history[2] == Exchange::Read(CLOCKS@, readings[1]));
    assert(history[3] == Exchange::Read(VECTORS@, readings[2]));
    assert(history[4] == Exchange::Read(CALLS@, readings[3]));
    assert(history[5] == Exchange::Read(SUSPENDS@, readings[4]));
    assert(history[6] == Exchange::Read(WORKER_THREAD_COUNT@, readings[5]));
    lemma_entry_names();
    law_checked_shape(view);
    assert(view.counter(counter).len() == view.clocks.len());
    let workers = system::cell_of(WORKER_THREAD_COUNT@, readings[5])->Ok_0;
    assert(threads == workers + 1);
    if readings[5]->Ok_0 is Scalar {
        assert(history[6] == worker_reading(MetricView::Scalar(workers)));
    } else {
        assert(history[6] == worker_reading(MetricView::Gauge(workers)));
    }
}

/// One reading of the number of workers.
pub open spec fn worker_reading(value: MetricView) -> Exchange {
    Exchange::Read("/sys/num_worker_threads"@, Ok(value))
}

proof fn lemma_entry_names()
    ensures
        CLOCKS@ == "/sys/node/"@ + "clocks"@,
        VECTORS@ == "/sys/node/"@ + "vectors"@,
        CALLS@ == "/sys/node/"@ + "calls"@,
        SUSPENDS@ == "/sys/node/"@ + "suspends"@,
{
    reveal_strlit("/sys/node/");
    reveal_strlit("clocks");
    reveal_strlit("vectors");
    reveal_strlit("calls");
    reveal_strlit("suspends");
    reveal_strlit("/sys/node/clocks");
    reveal_strlit("/sys/node/vectors");
    reveal_strlit("/sys/node/calls");
    reveal_strlit("/sys/node/suspends");
    assert("/sys/node/clocks"@ =~= "/sys/node/"@ + "clocks"@);
    assert("/sys/node/vectors"@ =~= "/sys/node/"@ + "vectors"@);
    assert("/sys/node/calls"@ =~= "/sys/node/"@ + "calls"@);
    assert("/sys/node/suspends"@ =~= "/sys/node/"@ + "suspends"@);
}

/// A node that is looked up by name has, for every counter and thread, the cell
/// of that counter in the thread's row and the one column that has the name.
pub proof fn law_node_cells(
    stats: &NodeStats,
    name: &str,
    usage: Option<NodeUsage>,
    slot: int,
    counter: NodeCounter,
    rows: &[Vec<u64>],
    values: &[u64],
)
    requires
        call_ensures(NodeStats::node, (stats, name), usage),
        call_ensures(NodeStats::counter, (stats, counter), rows),
        usage is Some,
        call_ensures(NodeUsage::counter, (&usage->Some_0, counter), values),
        0 <= slot < stats.names@.len(),
        stats.names@[slot]@ == name@,
    ensures
        usage->Some_0.name@ == name@,
        values@.len() == rows@.len(),
        forall|row: int| 0 <= row < rows@.len() ==> values@[row] == #[trigger] rows@[row]@[slot],
{
    let view = stats@;
    law_slot(view.names, name@);
    assert(view.names[slot] == name@);
    assert(slot_of(view.names, name@) == Some(slot));
    let shown = protocol::rows_view(rows@);
    assert forall|row: int| 0 <= row < rows@.len() implies values@[row]
        == #[trigger] rows@[row]@[slot] by {
        assert(shown[row] == rows@[row]@);
    }
}

/// A name is looked up successfully exactly where one slot has it.
pub proof fn law_nodes_with_one_slot(stats: &NodeStats, name: &str, usage: Option<NodeUsage>)
    requires
        call_ensures(NodeStats::node, (stats, name), usage),
    ensures
        usage is Some <==> exists|slot: int|
            0 <= slot < stats.names@.len() && is_only(text::texts(stats.names@), name@, slot),
{
    let names = text::texts(stats.names@);
    law_slot(names, name@);
    if usage is Some {
        assert(is_only(names, name@, slot_of(names, name@)->Some_0));
    }
    if exists|slot: int| 0 <= slot < stats.names@.len() && is_only(names, name@, slot) {
        let slot = choose|slot: int|
            0 <= slot < stats.names@.len() && is_only(names, name@, slot);
        assert(names[slot] == name@);
    }
}

/// Whether a name occurs at the slot and nowhere else.
pub open spec fn is_only(names: Seq<Seq<char>>, name: Seq<char>, slot: int) -> bool {
    forall|i: int| 0 <= i < names.len() ==> (#[trigger] names[i] == name <==> i == slot)
}

/// A report whose rows do not count thread zero and the workers is refused with
/// both numbers; so is one whose counters differ in rows, by the counter and the
/// rows of the clocks.
pub proof fn law_refused_shapes(stats: NodeStatsView, workers: u64)
    ensures
        thread_failure(stats.clocks.len() as int, workers) is None <==> stats.clocks.len() - 1
            == workers,
        thread_failure(stats.clocks.len() as int, workers) matches Some(error) ==> error == (
        ErrorView::WorkerCountMismatch {
            name: "/sys/node/clocks"@,
            worker_thread_count: workers,
            columns: stats.clocks.len() as int,
        }),
        stats.vectors.len() != stats.clocks.len() ==> shape_failure(stats) == Some(
            (ErrorView::UnexpectedRowCount {
                name: "/sys/node/vectors"@,
                expected: stats.clocks.len() as int,
                actual: stats.vectors.len() as int,
            }),
        ),
        stats.vectors.len() == stats.clocks.len() && stats.calls.len() != stats.clocks.len()
            ==> shape_failure(stats) == Some(
            (ErrorView::UnexpectedRowCount {
                name: "/sys/node/calls"@,
                expected: stats.clocks.len() as int,
                actual: stats.calls.len() as int,
            }),
        ),
        stats.vectors.len() == stats.clocks.len() && stats.calls.len() == stats.clocks.len()
            && stats.suspends.len() != stats.clocks.len() ==> shape_failure(stats) == Some(
            (ErrorView::UnexpectedRowCount {
                name: "/sys/node/suspends"@,
                expected: stats.clocks.len() as int,
                actual: stats.suspends.len() as int,
            }),
        ),
{
    reveal_with_fuel(first_failure, 4);
}

/// A row with another number of columns than there are names is refused by its
/// place, and the first such row of a counter is the one that is named.
pub proof fn law_odd_row(name: Seq<char>, columns: int, counter: Seq<Seq<u64>>, row: int)
    requires
        0 <= row < counter.len(),
        counter[row].len() != columns,
        forall|i: int| 0 <= i < row ==> (#[trigger] counter[i]).len() == columns,
    ensures
        column_failure(name, columns, counter) == Some(
            (ErrorView::UnexpectedColumnCount {
                name: name + " row "@ + text::decimal(row as nat),
                expected: columns,
                actual: counter[row].len() as int,
            }),
        ),
{
    list::lemma_first_where_is(counter, |row: Seq<u64>| row.len() != columns, row);
}

/// A reading of the wrong kind is refused by its entry, with the kind that was
/// expected and the one that was found.
pub proof fn law_refused_readings(name: Seq<char>, value: MetricView, error: ErrorView)
    ensures
        names_of(name, Err(error)) == Err::<Seq<Seq<char>>, _>(error),
        rows_of(name, Err(error)) == Err::<Seq<Seq<u64>>, _>(error),
        !(value is Names) ==> names_of(name, Ok(value)) == Err::<Seq<Seq<char>>, _>(
            (ErrorView::UnexpectedMetricType {
                name,
                expected: "name_vector"@,
                actual: reader::kind_text(value),
            }),
        ),
        !(value is Simple) ==> rows_of(name, Ok(value)) == Err::<Seq<Seq<u64>>, _>(
            (ErrorView::UnexpectedMetricType {
                name,
                expected: "counter_vector_simple"@,
                actual: reader::kind_text(value),
            }),
        ),
{
}

/// Where the rows agree, the columns are checked: those of the clocks first, then
/// those of the vectors, of the calls and of the suspends.
pub proof fn law_refused_columns(stats: NodeStatsView)
    requires
        stats.vectors.len() == stats.clocks.len(),
        stats.calls.len() == stats.clocks.len(),
        stats.suspends.len() == stats.clocks.len(),
    ensures
        ({
            let columns = stats.names.len() as int;
            let clocks = column_failure("/sys/node/clocks"@, columns, stats.clocks);
            let vectors = column_failure("/sys/node/vectors"@, columns, stats.vectors);
            let calls = column_failure("/sys/node/calls"@, columns, stats.calls);
            let suspends = column_failure("/sys/node/suspends"@, columns, stats.suspends);
            &&& clocks is Some ==> shape_failure(stats) == clocks
            &&& clocks is None && vectors is Some ==> shape_failure(stats) == vectors
            &&& clocks is None && vectors is None && calls is Some ==> shape_failure(stats)
                == calls
            &&& clocks is None && vectors is None && calls is None ==> shape_failure(stats)
                == suspends
        }),
{
    reveal_with_fuel(first_failure, 8);
}

/// A listing that fails is the failure of the report, and nothing is read then.
pub proof fn law_failed_listing(
    history: Seq<Exchange>,
    error: ErrorView,
    result: Result<Option<NodeStatsView>, ErrorView>,
)
    requires
        history.len() > 0,
        history[0] == Exchange::Listed(Err(error)),
        told(history, result),
    ensures
        history.len() == 1,
        result == Err::<Option<NodeStatsView>, _>(error),
{
}

} // verus!
