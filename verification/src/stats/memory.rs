//! `/mem` projection: one entry per memory heap, seven columns each.
//!
//! The column order is the server's `mem` family contract: `total`, `used`,
//! `free`, `used_mmap`, `max_allocated`, `free_chunk_count`, `releasable`.

use crate::list;
use crate::stats::error;
use crate::stats::error::{Error, ErrorView};
use crate::stats::protocol::{MetricValue, MetricView};
use crate::stats::provider::StatsProvider;
use crate::stats::questions;
use crate::stats::questions::{Exchange, Questions};
use crate::stats::reader;
use crate::stats::reader::{Reading, StatsReader};
use crate::text;
use vstd::prelude::*;
use vstd::string::*;

verus! {

/// One memory heap as the server last sampled it.
#[derive(Clone, Debug, Eq, PartialEq)]
pub struct MemoryHeapUsage {
    pub name: String,
    pub total_bytes: u64,
    pub used_bytes: u64,
    pub free_bytes: u64,
    pub used_mmap_bytes: u64,
    pub max_allocated_bytes: u64,
    pub free_chunk_count: u64,
    pub releasable_bytes: u64,
}

/// The view of a [`MemoryHeapUsage`].
pub struct HeapView {
    pub name: Seq<char>,
    pub total_bytes: u64,
    pub used_bytes: u64,
    pub free_bytes: u64,
    pub used_mmap_bytes: u64,
    pub max_allocated_bytes: u64,
    pub free_chunk_count: u64,
    pub releasable_bytes: u64,
}

impl View for MemoryHeapUsage {
    type V = HeapView;

    open spec fn view(&self) -> HeapView {
        HeapView {
            name: self.name@,
            total_bytes: self.total_bytes,
            used_bytes: self.used_bytes,
            free_bytes: self.free_bytes,
            used_mmap_bytes: self.used_mmap_bytes,
            max_allocated_bytes: self.max_allocated_bytes,
            free_chunk_count: self.free_chunk_count,
            releasable_bytes: self.releasable_bytes,
        }
    }
}

/// Every heap the segment publishes.
#[derive(Clone, Debug, Eq, PartialEq)]
pub struct MemoryStats {
    pub heaps: Vec<MemoryHeapUsage>,
}

impl View for MemoryStats {
    type V = Seq<HeapView>;

    open spec fn view(&self) -> Seq<HeapView> {
        list::views(self.heaps@)
    }
}

/// The position of the first heap with the name.
pub open spec fn heap_position(heaps: Seq<HeapView>, name: Seq<char>) -> Option<int> {
    list::first_where(heaps, |heap: HeapView| heap.name == name)
}

impl MemoryStats {
    /// Looks one heap up by its name without the `/mem/` prefix.
    pub fn heap(&self, name: &str) -> (found: Option<&MemoryHeapUsage>)
        ensures
            match heap_position(self@, name@) {
                Some(at) => 0 <= at < self.heaps@.len() && found == Some(&self.heaps@[at]),
                None => found is None,
            },
    {
        let ghost named = |heap: HeapView| heap.name == name@;
        let mut i: usize = 0;
        while i < self.heaps.len()
            invariant
                i <= self.heaps@.len(),
                named == (|heap: HeapView| heap.name == name@),
                forall|j: int| 0 <= j < i ==> !named(#[trigger] self@[j]),
            decreases self.heaps@.len() - i,
        {
            if text::same_text(self.heaps[i].name.as_str(), name) {
                proof {
                    list::lemma_first_where_is(self@, named, i as int);
                }
                return Some(&self.heaps[i]);
            }
            i = i + 1;
        }
        proof {
            list::lemma_first_where(self@, named);
        }
        None
    }
}

/// The heap a directory name stands for: `/mem/<heap>` names carry the heap,
/// `/mem/<heap>/<alias>` names do not.
pub open spec fn heap_of_entry(name: Seq<char>) -> Option<Seq<char>> {
    match text::after_prefix(name, "/mem/"@) {
        Some(heap) => if heap.len() > 0 && !heap.contains('/') {
            Some(heap)
        } else {
            None
        },
        None => None,
    }
}

/// The directory names that stand for heaps, in directory order.
pub open spec fn heap_entries(names: Seq<Seq<char>>) -> Seq<Seq<char>> {
    names.filter(|name: Seq<char>| heap_of_entry(name) is Some)
}

/// The heap that one reading of rows describes: one row of seven columns.
pub open spec fn heap_of_rows(name: Seq<char>, heap: Seq<char>, rows: Seq<Seq<u64>>) -> Result<
    HeapView,
    ErrorView,
> {
    if rows.len() != 1 {
        Err(ErrorView::UnexpectedRowCount { name, expected: 1, actual: rows.len() as int })
    } else if rows[0].len() != 7 {
        Err(ErrorView::UnexpectedColumnCount { name, expected: 7, actual: rows[0].len() as int })
    } else {
        Ok(
            HeapView {
                name: heap,
                total_bytes: rows[0][0],
                used_bytes: rows[0][1],
                free_bytes: rows[0][2],
                used_mmap_bytes: rows[0][3],
                max_allocated_bytes: rows[0][4],
                free_chunk_count: rows[0][5],
                releasable_bytes: rows[0][6],
            },
        )
    }
}

/// The heap that the reading of an entry describes.
pub open spec fn heap_of_reading(name: Seq<char>, reading: Reading) -> Result<
    HeapView,
    ErrorView,
> {
    match reading {
        Err(error) => Err(error),
        Ok(MetricView::Simple(rows)) => heap_of_rows(name, heap_of_entry(name)->Some_0, rows),
        Ok(value) => Err(reader::unexpected(name, "counter_vector_simple"@, value)),
    }
}

/// The heap that the reading of an entry describes, as a step of a pass.
pub open spec fn heap_item() -> spec_fn(Seq<char>, Reading) -> Result<HeapView, ErrorView> {
    |name: Seq<char>, reading: Reading| heap_of_reading(name, reading)
}

/// Whether `history` is the whole of a report that ends in `result`: it lists
/// the names once, and reads every heap entry once, in directory order and up
/// to the first failure.
pub open spec fn told(history: Seq<Exchange>, result: Result<Seq<HeapView>, ErrorView>) -> bool {
    history.len() > 0 && match history[0] {
        Exchange::Listed(Err(error)) => history.len() == 1 && result == Err::<Seq<HeapView>, _>(
            error,
        ),
        Exchange::Listed(Ok(listed)) => questions::passes(
            history.skip(1),
            heap_entries(listed),
            heap_item(),
            result,
        ),
        Exchange::Read(..) => false,
    }
}

/// Projects `/mem` into [`MemoryStats`].
pub struct MemoryStatsProvider;

impl StatsProvider for MemoryStatsProvider {
    const PREFIX: &'static str = "/mem";

    type Report = MemoryStats;

    open spec fn may_report(history: Seq<Exchange>, report: Result<MemoryStats, Error>) -> bool {
        told(history, error::outcome(report))
    }

    open spec fn alike(
        left: Result<MemoryStats, Error>,
        right: Result<MemoryStats, Error>,
    ) -> bool {
        error::outcome(left) == error::outcome(right)
    }

    proof fn lemma_one_report(
        first: Seq<Exchange>,
        second: Seq<Exchange>,
        left: Result<MemoryStats, Error>,
        right: Result<MemoryStats, Error>,
    ) {
        questions::lemma_agreeing_rest(first, second);
        if let Exchange::Listed(Ok(listed)) = first[0] {
            questions::lemma_one_pass(
                first.skip(1),
                second.skip(1),
                heap_entries(listed),
                heap_item(),
                error::outcome(left),
                error::outcome(right),
            );
        }
    }

    fn report<R: StatsReader>(reader: &R) -> (report: Result<MemoryStats, Error>) {
        let mut questions = Questions::new(reader);
        let ghost before = questions;
        let report = read_memory(&mut questions);
        proof {
            let history = choose|history: Seq<Exchange>| #[trigger]
                questions::continues(before, questions, history) && told(
                    history,
                    error::outcome(report),
                );
            questions::lemma_may_ask(before, questions, history);
        }
        report
    }
}

/// Lists the heaps and reads each of them.
pub fn read_memory<R: StatsReader>(questions: &mut Questions<R>) -> (report: Result<
    MemoryStats,
    Error,
>)
    ensures
        exists|history: Seq<Exchange>| #[trigger]
            questions::continues(*old(questions), *final(questions), history) && told(
                history,
                error::outcome(report),
            ),
{
    let listing = questions.names();
    let ghost listed = seq![Exchange::Listed(error::listing(listing))];
    let names = match listing {
        Ok(names) => names,
        Err(error) => {
            return Err(error);
        },
    };
    let entries = list_heap_entries(&names);
    let ghost asked = text::texts(entries@);
    let ghost mut reads: Seq<Exchange> = Seq::empty();
    let mut heaps: Vec<MemoryHeapUsage> = Vec::new();
    let mut i: usize = 0;
    proof {
        assert(list::views(heaps@) =~= Seq::empty());
        assert(listed + reads =~= listed);
    }
    while i < entries.len()
        invariant
            i <= entries@.len(),
            asked == text::texts(entries@),
            forall|j: int| 0 <= j < asked.len() ==> heap_of_entry(#[trigger] asked[j]) is Some,
            listed == seq![Exchange::Listed(Ok::<_, ErrorView>(text::texts(names@)))],
            heap_entries(text::texts(names@)) == asked,
            reads.len() == i,
            questions::continues(*old(questions), *questions, listed + reads),
            questions::reads_in_order(reads, asked),
            questions::readout(asked, reads, heap_item()) == Ok::<_, ErrorView>(
                list::views(heaps@),
            ),
        decreases entries@.len() - i,
    {
        let name = entries[i].as_str();
        let ghost middle = *questions;
        let ghost done = reads;
        let answer = questions.read(name);
        proof {
            let reading = error::outcome(answer);
            let exchange = Exchange::Read(name@, reading);
            assert(asked[i as int] == name@);
            questions::lemma_readout_push(asked, done, reading, heap_item());
            questions::lemma_continues(
                *old(questions),
                middle,
                *questions,
                listed + done,
                seq![exchange],
            );
            reads = done.push(exchange);
            assert((listed + done) + seq![exchange] =~= listed + reads);
            assert((listed + reads).skip(1) =~= reads);
        }
        let heap = match answer {
            Ok(value) => heap_reading(name, value),
            Err(error) => Err(error),
        };
        match heap {
            Ok(heap) => {
                assert(list::views(heaps@.push(heap)) =~= list::views(heaps@).push(heap@));
                heaps.push(heap);
            },
            Err(error) => {
                return Err(error);
            },
        }
        i = i + 1;
    }
    assert((listed + reads).skip(1) =~= reads);
    Ok(MemoryStats { heaps })
}

/// The heap a directory name stands for.
fn heap_name(name: &str) -> (heap: Option<&str>)
    ensures
        heap is Some <==> heap_of_entry(name@) is Some,
        heap matches Some(found) ==> Some(found@) == heap_of_entry(name@),
{
    let heap = match text::strip_prefix(name, "/mem/") {
        Some(heap) => heap,
        None => {
            return None;
        },
    };
    if heap.unicode_len() > 0 && !text::contains_char(heap, '/') {
        Some(heap)
    } else {
        None
    }
}

/// The directory names that stand for heaps, in directory order.
fn list_heap_entries(names: &Vec<String>) -> (entries: Vec<String>)
    ensures
        text::texts(entries@) == heap_entries(text::texts(names@)),
        forall|j: int|
            0 <= j < entries@.len() ==> heap_of_entry(#[trigger] text::texts(entries@)[j]) is Some,
{
    let ghost listed = text::texts(names@);
    let ghost is_heap = |name: Seq<char>| heap_of_entry(name) is Some;
    let mut entries: Vec<String> = Vec::new();
    let mut i: usize = 0;
    proof {
        reveal(Seq::filter);
        assert(text::texts(entries@) =~= listed.take(0).filter(is_heap));
    }
    while i < names.len()
        invariant
            i <= names@.len(),
            listed == text::texts(names@),
            is_heap == (|name: Seq<char>| heap_of_entry(name) is Some),
            text::texts(entries@) == listed.take(i as int).filter(is_heap),
            forall|j: int|
                0 <= j < entries@.len() ==> heap_of_entry(
                    #[trigger] text::texts(entries@)[j],
                ) is Some,
        decreases names@.len() - i,
    {
        proof {
            reveal(Seq::filter);
            assert(listed.take(i + 1).drop_last() =~= listed.take(i as int));
        }
        let name = names[i].as_str();
        if heap_name(name).is_some() {
            let entry = name.to_owned();
            assert(text::texts(entries@.push(entry)) =~= text::texts(entries@).push(entry@));
            entries.push(entry);
        }
        i = i + 1;
    }
    assert(listed.take(i as int) =~= listed);
    entries
}

/// Maps the reading of one heap entry into its heap value.
pub fn heap_reading(name: &str, value: MetricValue) -> (heap: Result<MemoryHeapUsage, Error>)
    requires
        heap_of_entry(name@) is Some,
    ensures
        error::outcome(heap) == heap_of_reading(name@, Ok(value@)),
{
    match value {
        MetricValue::Simple(rows) => match heap_name(name) {
            Some(heap) => heap_usage(name, heap.to_owned(), rows),
            None => {
                assert(false);
                heap_usage(name, String::new(), rows)
            },
        },
        other => Err(reader::unexpected_type(name, "counter_vector_simple", &other)),
    }
}

/// Maps one 1-row, 7-column reading into its heap value.
pub fn heap_usage(name: &str, heap_name: String, rows: Vec<Vec<u64>>) -> (heap: Result<
    MemoryHeapUsage,
    Error,
>)
    ensures
        error::outcome(heap) == heap_of_rows(
            name@,
            heap_name@,
            crate::stats::protocol::rows_view(rows@),
        ),
{
    if rows.len() != 1 {
        return Err(
            Error::UnexpectedRowCount { name: name.to_owned(), expected: 1, actual: rows.len() },
        );
    }
    let columns = &rows[0];
    if columns.len() != 7 {
        return Err(
            Error::UnexpectedColumnCount {
                name: name.to_owned(),
                expected: 7,
                actual: columns.len(),
            },
        );
    }
    Ok(
        MemoryHeapUsage {
            name: heap_name,
            total_bytes: columns[0],
            used_bytes: columns[1],
            free_bytes: columns[2],
            used_mmap_bytes: columns[3],
            max_allocated_bytes: columns[4],
            free_chunk_count: columns[5],
            releasable_bytes: columns[6],
        },
    )
}

/// A report that succeeds has read every heap entry of its listing exactly once,
/// in order, and nothing else, and holds one heap for each of them.
pub proof fn law_every_heap_is_read_once(
    history: Seq<Exchange>,
    listed: Seq<Seq<char>>,
    heaps: Seq<HeapView>,
)
    requires
        told(history, Ok(heaps)),
        history[0] == Exchange::Listed(Ok(listed)),
    ensures
        history.len() == 1 + heap_entries(listed).len(),
        heaps.len() == heap_entries(listed).len(),
        forall|i: int|
            #![trigger heaps[i]]
            0 <= i < heaps.len() ==> {
                let entry = heap_entries(listed)[i];
                &&& history[1 + i] is Read
                &&& history[1 + i]->Read_0 == entry
                &&& heap_of_entry(entry) == Some(heaps[i].name)
                &&& history[1 + i]->Read_1 matches Ok(MetricView::Simple(rows))
                    && heap_of_rows(entry, heaps[i].name, rows) == Ok::<_, ErrorView>(heaps[i])
            },
{
    let asked = heap_entries(listed);
    let reads = history.skip(1);
    let item = heap_item();
    let step = |i: int| item(asked[i], reads[i]->Read_1);
    list::lemma_collected_ok(reads.len(), step);
    assert forall|i: int| 0 <= i < heaps.len() implies ({
        let entry = asked[i];
        &&& history[1 + i] is Read
        &&& history[1 + i]->Read_0 == entry
        &&& heap_of_entry(entry) == Some(#[trigger] heaps[i].name)
        &&& history[1 + i]->Read_1 matches Ok(MetricView::Simple(rows)) && heap_of_rows(
            entry,
            heaps[i].name,
            rows,
        ) == Ok::<_, ErrorView>(heaps[i])
    }) by {
        assert(reads[i] == history[1 + i]);
        assert(step(i) == Ok::<_, ErrorView>(heaps[i]));
        listed.lemma_filter_pred(|name: Seq<char>| heap_of_entry(name) is Some, i);
    }
}

/// The aliases of a heap are not heaps.
pub proof fn law_aliases_are_not_heaps(heap: Seq<char>, alias: Seq<char>)
    ensures
        heap_of_entry("/mem/"@ + heap + seq!['/'] + alias) is None,
{
    let name = "/mem/"@ + heap + seq!['/'] + alias;
    let rest = name.skip("/mem/"@.len() as int);
    assert(name.subrange(0, "/mem/"@.len() as int) =~= "/mem/"@);
    assert(rest[heap.len() as int] == '/');
    assert(rest.contains('/'));
}

/// A name that is not empty and holds no slash is the heap of its entry.
pub proof fn law_heap_entry(heap: Seq<char>)
    requires
        heap.len() > 0,
        !heap.contains('/'),
    ensures
        heap_of_entry("/mem/"@ + heap) == Some(heap),
{
    let name = "/mem/"@ + heap;
    assert(name.subrange(0, "/mem/"@.len() as int) =~= "/mem/"@);
    assert(name.skip("/mem/"@.len() as int) =~= heap);
}

/// A heap has the seven columns of the row that was read, each in its own field
/// and in this order: total, used, free, used by mappings, largest allocation,
/// free chunks, and releasable. Any other number of rows or columns is refused.
pub proof fn law_heap_columns(
    name: &str,
    heap_name: String,
    rows: Vec<Vec<u64>>,
    result: Result<MemoryHeapUsage, Error>,
)
    requires
        call_ensures(heap_usage, (name, heap_name, rows), result),
    ensures
        result is Ok <==> rows@.len() == 1 && rows@[0]@.len() == 7,
        result matches Ok(heap) ==> is_row(rows@[0]@, heap) && heap.name@ == heap_name@,
        result matches Err(error) ==> error@ == (if rows@.len() == 1 {
            ErrorView::UnexpectedColumnCount {
                name: name@,
                expected: 7,
                actual: rows@[0]@.len() as int,
            }
        } else {
            ErrorView::UnexpectedRowCount { name: name@, expected: 1, actual: rows@.len() as int }
        }),
{
    if rows@.len() == 1 {
        assert(crate::stats::protocol::rows_view(rows@)[0] == rows@[0]@);
    }
}

/// Whether a heap is what a row of seven columns says.
pub open spec fn is_row(row: Seq<u64>, heap: MemoryHeapUsage) -> bool {
    row =~= seq![
        heap.total_bytes,
        heap.used_bytes,
        heap.free_bytes,
        heap.used_mmap_bytes,
        heap.max_allocated_bytes,
        heap.free_chunk_count,
        heap.releasable_bytes,
    ]
}

/// Every heap of a report has the columns of the one row that was read from its
/// own entry, and the entry is `/mem/` and the name of the heap.
pub proof fn law_heaps_are_read_from_their_entries(
    history: Seq<Exchange>,
    report: MemoryStats,
    at: int,
    row: Seq<u64>,
)
    requires
        told(history, Ok(report@)),
        0 <= at < report.heaps@.len(),
        is_row(row, report.heaps@[at]),
    ensures
        history.contains(
            Exchange::Read(
                "/mem/"@ + report.heaps@[at].name@,
                Ok(MetricView::Simple(seq![row])),
            ),
        ),
{
    let heaps = report@;
    let listed = history[0]->Listed_0->Ok_0;
    law_every_heap_is_read_once(history, listed, heaps);
    assert(heaps[at] == report.heaps@[at]@);
    let entry = heap_entries(listed)[at];
    let read = history[1 + at];
    let rows = read->Read_1->Ok_0->Simple_0;
    assert(rows[0] =~= row);
    assert(rows =~= seq![row]);
    assert(entry =~= "/mem/"@ + heaps[at].name) by {
        let lead = "/mem/"@;
        assert(entry.subrange(0, lead.len() as int) == lead);
        assert(entry =~= entry.subrange(0, lead.len() as int) + entry.skip(lead.len() as int));
    }
}

/// A heap that is looked up has the name, and is the first one that has it; a
/// name without a heap is that of none.
pub proof fn law_heap_lookup(report: &MemoryStats, name: &str, found: Option<&MemoryHeapUsage>)
    requires
        call_ensures(MemoryStats::heap, (report, name), found),
    ensures
        found is None ==> forall|i: int|
            0 <= i < report.heaps@.len() ==> (#[trigger] report.heaps@[i]).name@ != name@,
        found matches Some(heap) ==> exists|i: int|
            0 <= i < report.heaps@.len() && #[trigger] report.heaps@[i] == *heap && heap.name@
                == name@ && forall|j: int|
                0 <= j < i ==> (#[trigger] report.heaps@[j]).name@ != name@,
{
    let named = |heap: HeapView| heap.name == name@;
    list::lemma_first_where(report@, named);
    assert forall|i: int| 0 <= i < report.heaps@.len() implies #[trigger] report.heaps@[i]@
        == report@[i] by {
    }
    match heap_position(report@, name@) {
        Some(at) => {
            assert(named(report@[at]));
            assert forall|j: int| 0 <= j < at implies (#[trigger] report.heaps@[j]).name@
                != name@ by {
                assert(!named(report@[j]));
            }
        },
        None => {
            assert forall|i: int| 0 <= i < report.heaps@.len() implies (
            #[trigger] report.heaps@[i]).name@ != name@ by {
                assert(!named(report@[i]));
            }
        },
    }
}

/// A reading of the wrong kind, or a failed one, is the failure of its heap.
pub proof fn law_refused_readings(name: Seq<char>, value: MetricView, error: ErrorView)
    ensures
        heap_of_reading(name, Err(error)) == Err::<HeapView, _>(error),
        !(value is Simple) ==> heap_of_reading(name, Ok(value)) == Err::<HeapView, _>(
            (ErrorView::UnexpectedMetricType {
                name,
                expected: "counter_vector_simple"@,
                actual: reader::kind_text(value),
            }),
        ),
{
}

/// A name is the entry of a heap exactly where it is the prefix and the name of
/// the heap, which is not empty and holds no slash.
pub proof fn law_heap_entries(name: Seq<char>, heap: Seq<char>)
    ensures
        heap_of_entry(name) == Some(heap) <==> name == "/mem/"@ + heap && heap.len() > 0
            && !heap.contains('/'),
{
    text::law_prefix(name, "/mem/"@, heap);
    if text::after_prefix(name, "/mem/"@) is Some {
        text::law_prefix(name, "/mem/"@, text::after_prefix(name, "/mem/"@)->Some_0);
    }
}

/// A listing that fails is the failure of the report, and nothing is read then.
pub proof fn law_failed_listing(
    history: Seq<Exchange>,
    error: ErrorView,
    result: Result<Seq<HeapView>, ErrorView>,
)
    requires
        history.len() > 0,
        history[0] == Exchange::Listed(Err(error)),
        told(history, result),
    ensures
        history.len() == 1,
        result == Err::<Seq<HeapView>, _>(error),
{
}

} // verus!
