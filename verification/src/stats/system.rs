//! `/sys` projection: worker count, per-worker main-loop counters, and the
//! fixed process scalars.

use crate::stats::clock;
use crate::stats::error;
use crate::stats::error::{Error, ErrorView};
use crate::stats::protocol::{MetricValue, MetricView};
use crate::stats::provider::StatsProvider;
use crate::stats::questions;
use crate::stats::questions::{Exchange, Questions};
use crate::stats::reader;
use crate::stats::reader::{Reading, StatsReader};
use std::time::Instant;
use vstd::prelude::*;
use vstd::string::*;

verus! {

/// One process reading of the `/sys` family.
#[derive(Debug, Eq, PartialEq)]
pub struct SystemStats {
    pub worker_thread_count: u64,
    /// `/sys/main_loop_count_per_worker`: the cumulative count, the authority
    /// for deriving rates over any window.
    pub main_loop_counts: Vec<u64>,
    /// `/sys/loops_per_worker`: the server's damped loops per second, a current
    /// value that must not be differenced.
    pub loop_rates_per_second: Vec<u64>,
    pub heartbeat: u64,
    pub boottime_unix_seconds: u64,
    /// Zero (no clear baseline yet) is mapped to `None`, so no caller subtracts
    /// a value the server has not published.
    pub last_stats_clear_unix_seconds: Option<u64>,
    /// When this report was produced, from the client's monotonic clock.
    pub sampled_at: Instant,
}

/// The view of a [`SystemStats`]: everything but the time of its sampling.
pub struct SystemView {
    pub worker_thread_count: u64,
    pub main_loop_counts: Seq<u64>,
    pub loop_rates_per_second: Seq<u64>,
    pub heartbeat: u64,
    pub boottime_unix_seconds: u64,
    pub last_stats_clear_unix_seconds: Option<u64>,
}

impl View for SystemStats {
    type V = SystemView;

    open spec fn view(&self) -> SystemView {
        SystemView {
            worker_thread_count: self.worker_thread_count,
            main_loop_counts: self.main_loop_counts@,
            loop_rates_per_second: self.loop_rates_per_second@,
            heartbeat: self.heartbeat,
            boottime_unix_seconds: self.boottime_unix_seconds,
            last_stats_clear_unix_seconds: self.last_stats_clear_unix_seconds,
        }
    }
}

impl Clone for SystemStats {
    fn clone(&self) -> (copy: Self)
        ensures
            copy@ == self@,
            copy.sampled_at == self.sampled_at,
    {
        let main_loop_counts = self.main_loop_counts.clone();
        let loop_rates_per_second = self.loop_rates_per_second.clone();
        assert(main_loop_counts@ =~= self.main_loop_counts@);
        assert(loop_rates_per_second@ =~= self.loop_rates_per_second@);
        SystemStats {
            worker_thread_count: self.worker_thread_count,
            main_loop_counts,
            loop_rates_per_second,
            heartbeat: self.heartbeat,
            boottime_unix_seconds: self.boottime_unix_seconds,
            last_stats_clear_unix_seconds: self.last_stats_clear_unix_seconds,
            sampled_at: self.sampled_at,
        }
    }
}

/// The growth of the main-loop counters between two samples.
#[derive(Clone, Debug, Eq, PartialEq)]
pub struct MainLoopGrowth {
    /// Loops every worker ran in between.
    pub loops: Vec<u64>,
    /// Nanoseconds between the samples, never zero.
    pub elapsed_nanos: u128,
}

/// Whether two rows of counters can be differenced.
pub open spec fn differencable(current: Seq<u64>, previous: Seq<u64>) -> bool {
    current.len() == previous.len() && forall|i: int|
        0 <= i < current.len() ==> previous[i] <= #[trigger] current[i]
}

/// The differences of two rows of counters.
pub open spec fn differences(current: Seq<u64>, previous: Seq<u64>) -> Seq<u64> {
    Seq::new(current.len(), |i: int| (current[i] - previous[i]) as u64)
}

/// Derives the growth of the main-loop counters over `elapsed` nanoseconds.
///
/// Returns `None` when the two samples cannot be differenced: the earlier
/// sample is not older, elapsed time is zero, the column counts differ, or a
/// counter went backwards.
pub fn main_loop_growth(current: &[u64], previous: &[u64], elapsed: Option<u128>) -> (growth:
    Option<MainLoopGrowth>)
    ensures
        growth is Some <==> elapsed is Some && elapsed->Some_0 > 0 && differencable(
            current@,
            previous@,
        ),
        growth matches Some(found) ==> found.loops@ == differences(current@, previous@) && Some(
            found.elapsed_nanos,
        ) == elapsed,
{
    let elapsed_nanos: u128 = match elapsed {
        Some(elapsed_nanos) => elapsed_nanos,
        None => {
            return None;
        },
    };
    if elapsed_nanos == 0 || current.len() != previous.len() {
        return None;
    }
    let mut loops: Vec<u64> = Vec::new();
    let mut i: usize = 0;
    while i < current.len()
        invariant
            i <= current@.len(),
            current@.len() == previous@.len(),
            loops@ == differences(current@, previous@).take(i as int),
            forall|j: int| 0 <= j < i ==> previous@[j] <= #[trigger] current@[j],
        decreases current@.len() - i,
    {
        if current[i] < previous[i] {
            assert(!differencable(current@, previous@));
            return None;
        }
        let delta: u64 = current[i] - previous[i];
        loops.push(delta);
        assert(loops@ =~= differences(current@, previous@).take(i + 1));
        i = i + 1;
    }
    assert(differences(current@, previous@).take(i as int) =~= differences(current@, previous@));
    Some(MainLoopGrowth { loops, elapsed_nanos })
}

impl SystemStats {
    /// The growth of the main-loop counters since an earlier sample, from which
    /// the per-worker main-loop rate derives. The server's rate column is not
    /// involved.
    pub fn main_loop_growth_since(&self, earlier: &SystemStats) -> (growth: Option<MainLoopGrowth>)
        ensures
            ({
                let elapsed = clock::elapsed_between(self.sampled_at, earlier.sampled_at);
                &&& growth is Some <==> elapsed is Some && elapsed->Some_0 > 0 && differencable(
                    self.main_loop_counts@,
                    earlier.main_loop_counts@,
                )
                &&& growth matches Some(found) ==> found.loops@ == differences(
                    self.main_loop_counts@,
                    earlier.main_loop_counts@,
                ) && Some(found.elapsed_nanos) == elapsed
            }),
    {
        let elapsed = clock::elapsed_nanos(&self.sampled_at, &earlier.sampled_at);
        main_loop_growth(
            self.main_loop_counts.as_slice(),
            earlier.main_loop_counts.as_slice(),
            elapsed,
        )
    }
}

/// The names a report reads, in the order of its reads.
pub open spec fn system_entries() -> Seq<Seq<char>> {
    seq![
        "/sys/num_worker_threads"@,
        "/sys/main_loop_count_per_worker"@,
        "/sys/loops_per_worker"@,
        "/sys/last_stats_clear"@,
        "/sys/heartbeat"@,
        "/sys/boottime"@,
    ]
}

/// The cell of a scalar or gauge reading.
pub open spec fn cell_of(name: Seq<char>, reading: Reading) -> Result<u64, ErrorView> {
    match reading {
        Err(error) => Err(error),
        Ok(MetricView::Scalar(value)) => Ok(value),
        Ok(MetricView::Gauge(value)) => Ok(value),
        Ok(value) => Err(reader::unexpected(name, "scalar_index or gauge"@, value)),
    }
}

/// The one row of a per-worker reading.
pub open spec fn row_of(name: Seq<char>, reading: Reading) -> Result<Seq<u64>, ErrorView> {
    match reading {
        Err(error) => Err(error),
        Ok(MetricView::Simple(rows)) => if rows.len() == 1 {
            Ok(rows[0])
        } else {
            Err(ErrorView::UnexpectedRowCount { name, expected: 1, actual: rows.len() as int })
        },
        Ok(value) => Err(reader::unexpected(name, "counter_vector_simple"@, value)),
    }
}

/// A row that has a column for every worker.
pub open spec fn worker_row(name: Seq<char>, workers: u64, row: Seq<u64>) -> Result<
    Seq<u64>,
    ErrorView,
> {
    if row.len() == workers {
        Ok(row)
    } else {
        Err(
            ErrorView::WorkerCountMismatch {
                name,
                worker_thread_count: workers,
                columns: row.len() as int,
            },
        )
    }
}

/// What the first of the six readings make of a report: `None` when the next
/// reading is needed.
pub open spec fn system_of(readings: Seq<Reading>) -> Option<Result<SystemView, ErrorView>> {
    let names = system_entries();
    if readings.len() < 1 {
        None
    } else if cell_of(names[0], readings[0]) is Err {
        Some(Err(cell_of(names[0], readings[0])->Err_0))
    } else if readings.len() < 2 {
        None
    } else if row_of(names[1], readings[1]) is Err {
        Some(Err(row_of(names[1], readings[1])->Err_0))
    } else if readings.len() < 3 {
        None
    } else if row_of(names[2], readings[2]) is Err {
        Some(Err(row_of(names[2], readings[2])->Err_0))
    } else {
        let workers = cell_of(names[0], readings[0])->Ok_0;
        let counts = row_of(names[1], readings[1])->Ok_0;
        let rates = row_of(names[2], readings[2])->Ok_0;
        if worker_row(names[1], workers, counts) is Err {
            Some(Err(worker_row(names[1], workers, counts)->Err_0))
        } else if worker_row(names[2], workers, rates) is Err {
            Some(Err(worker_row(names[2], workers, rates)->Err_0))
        } else if readings.len() < 4 {
            None
        } else if cell_of(names[3], readings[3]) is Err {
            Some(Err(cell_of(names[3], readings[3])->Err_0))
        } else if readings.len() < 5 {
            None
        } else if cell_of(names[4], readings[4]) is Err {
            Some(Err(cell_of(names[4], readings[4])->Err_0))
        } else if readings.len() < 6 {
            None
        } else if cell_of(names[5], readings[5]) is Err {
            Some(Err(cell_of(names[5], readings[5])->Err_0))
        } else {
            let cleared = cell_of(names[3], readings[3])->Ok_0;
            Some(
                Ok(
                    SystemView {
                        worker_thread_count: workers,
                        main_loop_counts: counts,
                        loop_rates_per_second: rates,
                        heartbeat: cell_of(names[4], readings[4])->Ok_0,
                        boottime_unix_seconds: cell_of(names[5], readings[5])->Ok_0,
                        last_stats_clear_unix_seconds: if cleared == 0 {
                            None
                        } else {
                            Some(cleared)
                        },
                    },
                ),
            )
        }
    }
}

/// What the readings make of a report, as a script.
pub open spec fn system_script() -> spec_fn(Seq<Reading>) -> Option<
    Result<SystemView, ErrorView>,
> {
    |readings: Seq<Reading>| system_of(readings)
}

/// Whether `history` is the whole of a report that ends in `result`: it reads
/// the six entries in order, as far as they are needed.
pub open spec fn told(history: Seq<Exchange>, result: Result<SystemView, ErrorView>) -> bool {
    questions::scripted(history, system_entries(), system_script(), result)
}

/// A report that needs one more reading has needed more all along.
proof fn lemma_patient()
    ensures
        questions::patient(system_script()),
{
    let made = system_script();
    assert forall|readings: Seq<Reading>, count: int|
        0 <= count <= readings.len() && made(readings) is None implies made(
        #[trigger] readings.take(count),
    ) is None by {
        let part = readings.take(count);
        assert forall|i: int| 0 <= i < count implies #[trigger] part[i] == readings[i] by {
        }
    }
}

/// Projects `/sys` into [`SystemStats`].
pub struct SystemStatsProvider;

impl StatsProvider for SystemStatsProvider {
    const PREFIX: &'static str = "/sys";

    type Report = SystemStats;

    open spec fn may_report(history: Seq<Exchange>, report: Result<SystemStats, Error>) -> bool {
        told(history, error::outcome(report))
    }

    open spec fn alike(
        left: Result<SystemStats, Error>,
        right: Result<SystemStats, Error>,
    ) -> bool {
        error::outcome(left) == error::outcome(right)
    }

    proof fn lemma_one_report(
        first: Seq<Exchange>,
        second: Seq<Exchange>,
        left: Result<SystemStats, Error>,
        right: Result<SystemStats, Error>,
    ) {
        questions::lemma_one_script(
            first,
            second,
            system_entries(),
            system_script(),
            error::outcome(left),
            error::outcome(right),
        );
    }

    fn report<R: StatsReader>(reader: &R) -> (report: Result<SystemStats, Error>) {
        let mut questions = Questions::new(reader);
        let ghost before = questions;
        let report = read_system(&mut questions);
        proof {
            let history = choose|history: Seq<Exchange>| #[trigger]
                questions::continues(before, questions, history) && told(
                    history,
                    error::outcome(report),
                );
            questions::lemma_may_ask(before, questions, history);
        }
        report
    }
}

/// Notes the time, and then reads the six entries.
pub fn read_system<R: StatsReader>(questions: &mut Questions<R>) -> (report: Result<
    SystemStats,
    Error,
>)
    ensures
        exists|history: Seq<Exchange>| #[trigger]
            questions::continues(*old(questions), *final(questions), history) && told(
                history,
                error::outcome(report),
            ),
{
    let sampled_at = clock::now();
    read_system_at(questions, sampled_at)
}

/// Reads the six entries for a report of the time `sampled_at`.
pub fn read_system_at<R: StatsReader>(questions: &mut Questions<R>, sampled_at: Instant) -> (report:
    Result<SystemStats, Error>)
    ensures
        exists|history: Seq<Exchange>| #[trigger]
            questions::continues(*old(questions), *final(questions), history) && told(
                history,
                error::outcome(report),
            ),
        report matches Ok(stats) ==> stats.sampled_at == sampled_at,
{
    let ghost mut history: Seq<Exchange> = Seq::empty();
    proof {
        questions::lemma_continues_none(*questions);
        lemma_patient();
    }
    let ghost middle = *questions;
    let (worker_thread_count, Ghost(exchange)) = read_u64(questions, "/sys/num_worker_threads");
    proof {
        questions::lemma_one_more(*old(questions), middle, *questions, history, exchange);
        history = history.push(exchange);
    }
    let worker_thread_count = match worker_thread_count {
        Ok(value) => value,
        Err(error) => {
            proof {
                questions::lemma_scripted(history, system_entries(), system_script(), Err(error@));
            }
            return Err(error);
        },
    };
    let ghost middle = *questions;
    let (main_loop_counts, Ghost(exchange)) = read_row(
        questions,
        "/sys/main_loop_count_per_worker",
    );
    proof {
        questions::lemma_one_more(*old(questions), middle, *questions, history, exchange);
        history = history.push(exchange);
    }
    let main_loop_counts = match main_loop_counts {
        Ok(row) => row,
        Err(error) => {
            proof {
                questions::lemma_scripted(history, system_entries(), system_script(), Err(error@));
            }
            return Err(error);
        },
    };
    let ghost middle = *questions;
    let (loop_rates_per_second, Ghost(exchange)) = read_row(questions, "/sys/loops_per_worker");
    proof {
        questions::lemma_one_more(*old(questions), middle, *questions, history, exchange);
        history = history.push(exchange);
    }
    let loop_rates_per_second = match loop_rates_per_second {
        Ok(row) => row,
        Err(error) => {
            proof {
                questions::lemma_scripted(history, system_entries(), system_script(), Err(error@));
            }
            return Err(error);
        },
    };
    match check_columns(
        "/sys/main_loop_count_per_worker",
        worker_thread_count,
        main_loop_counts.as_slice(),
    ) {
        Ok(_) => {},
        Err(error) => {
            proof {
                questions::lemma_scripted(history, system_entries(), system_script(), Err(error@));
            }
            return Err(error);
        },
    }
    match check_columns(
        "/sys/loops_per_worker",
        worker_thread_count,
        loop_rates_per_second.as_slice(),
    ) {
        Ok(_) => {},
        Err(error) => {
            proof {
                questions::lemma_scripted(history, system_entries(), system_script(), Err(error@));
            }
            return Err(error);
        },
    }
    let ghost middle = *questions;
    let (last_stats_clear, Ghost(exchange)) = read_u64(questions, "/sys/last_stats_clear");
    proof {
        questions::lemma_one_more(*old(questions), middle, *questions, history, exchange);
        history = history.push(exchange);
    }
    let last_stats_clear = match last_stats_clear {
        Ok(value) => value,
        Err(error) => {
            proof {
                questions::lemma_scripted(history, system_entries(), system_script(), Err(error@));
            }
            return Err(error);
        },
    };
    let ghost middle = *questions;
    let (heartbeat, Ghost(exchange)) = read_u64(questions, "/sys/heartbeat");
    proof {
        questions::lemma_one_more(*old(questions), middle, *questions, history, exchange);
        history = history.push(exchange);
    }
    let heartbeat = match heartbeat {
        Ok(value) => value,
        Err(error) => {
            proof {
                questions::lemma_scripted(history, system_entries(), system_script(), Err(error@));
            }
            return Err(error);
        },
    };
    let ghost middle = *questions;
    let (boottime_unix_seconds, Ghost(exchange)) = read_u64(questions, "/sys/boottime");
    proof {
        questions::lemma_one_more(*old(questions), middle, *questions, history, exchange);
        history = history.push(exchange);
    }
    let boottime_unix_seconds = match boottime_unix_seconds {
        Ok(value) => value,
        Err(error) => {
            proof {
                questions::lemma_scripted(history, system_entries(), system_script(), Err(error@));
            }
            return Err(error);
        },
    };
    let stats = SystemStats {
        worker_thread_count,
        main_loop_counts,
        loop_rates_per_second,
        heartbeat,
        boottime_unix_seconds,
        last_stats_clear_unix_seconds: clear_baseline(last_stats_clear),
        sampled_at,
    };
    proof {
        questions::lemma_scripted(history, system_entries(), system_script(), Ok(stats@));
    }
    Ok(stats)
}

/// A zero clear time stands for no clear yet.
pub fn clear_baseline(last_stats_clear: u64) -> (baseline: Option<u64>)
    ensures
        baseline == (if last_stats_clear == 0 {
            None
        } else {
            Some(last_stats_clear)
        }),
{
    if last_stats_clear == 0 {
        None
    } else {
        Some(last_stats_clear)
    }
}

/// Checks that a row has a column for every worker.
pub fn check_columns(name: &str, worker_thread_count: u64, row: &[u64]) -> (checked: Result<
    (),
    Error,
>)
    ensures
        checked is Ok <==> worker_row(name@, worker_thread_count, row@) is Ok,
        checked matches Err(error) ==> worker_row(name@, worker_thread_count, row@) == Err::<
            Seq<u64>,
            _,
        >(error@),
{
    if row.len() as u64 != worker_thread_count {
        Err(
            Error::WorkerCountMismatch {
                name: name.to_owned(),
                worker_thread_count,
                columns: row.len(),
            },
        )
    } else {
        Ok(())
    }
}

/// One scalar entry as a `u64`.
pub(crate) fn read_u64<R: StatsReader>(questions: &mut Questions<R>, name: &str) -> (cell: (
    Result<u64, Error>,
    Ghost<Exchange>,
))
    ensures
        questions::continues(*old(questions), *final(questions), seq![cell.1@]),
        cell.1@ is Read,
        cell.1@->Read_0 == name@,
        error::outcome(cell.0) == cell_of(name@, cell.1@->Read_1),
{
    let answer = questions.read(name);
    let ghost exchange = Exchange::Read(name@, error::outcome(answer));
    let cell = match answer {
        Ok(value) => scalar_cell(name, value),
        Err(error) => Err(error),
    };
    (cell, Ghost(exchange))
}

/// The cell of a scalar or gauge value.
pub fn scalar_cell(name: &str, value: MetricValue) -> (cell: Result<u64, Error>)
    ensures
        error::outcome(cell) == cell_of(name@, Ok(value@)),
{
    match value {
        MetricValue::Scalar(cell) | MetricValue::Gauge(cell) => Ok(cell),
        other => Err(reader::unexpected_type(name, "scalar_index or gauge", &other)),
    }
}

/// The single row of one per-worker vector.
fn read_row<R: StatsReader>(questions: &mut Questions<R>, name: &str) -> (row: (
    Result<Vec<u64>, Error>,
    Ghost<Exchange>,
))
    ensures
        questions::continues(*old(questions), *final(questions), seq![row.1@]),
        row.1@ is Read,
        row.1@->Read_0 == name@,
        error::outcome(row.0) == row_of(name@, row.1@->Read_1),
{
    let answer = questions.read(name);
    let ghost exchange = Exchange::Read(name@, error::outcome(answer));
    let row = match answer {
        Ok(value) => single_row(name, value),
        Err(error) => Err(error),
    };
    (row, Ghost(exchange))
}

/// The one row of a simple counter value.
pub fn single_row(name: &str, value: MetricValue) -> (row: Result<Vec<u64>, Error>)
    ensures
        error::outcome(row) == row_of(name@, Ok(value@)),
{
    match value {
        MetricValue::Simple(rows) => {
            let mut rows = rows;
            if rows.len() != 1 {
                return Err(
                    Error::UnexpectedRowCount {
                        name: name.to_owned(),
                        expected: 1,
                        actual: rows.len(),
                    },
                );
            }
            let row = rows.swap_remove(0);
            Ok(row)
        },
        other => Err(reader::unexpected_type(name, "counter_vector_simple", &other)),
    }
}

/// Whether a history holds a read of the name that gave the cell.
pub open spec fn gave_cell(history: Seq<Exchange>, name: Seq<char>, cell: u64) -> bool {
    ||| history.contains(Exchange::Read(name, Ok(MetricView::Scalar(cell))))
    ||| history.contains(Exchange::Read(name, Ok(MetricView::Gauge(cell))))
}

/// Whether a history holds a read of the name that gave the one row.
pub open spec fn gave_row(history: Seq<Exchange>, name: Seq<char>, row: Seq<u64>) -> bool {
    history.contains(Exchange::Read(name, Ok(MetricView::Simple(seq![row]))))
}

/// Every field of a report is what was read from its own entry; a clear time of
/// zero is no clear time; and both rows have a column for every worker.
pub proof fn law_fields_are_read_from_their_entries(history: Seq<Exchange>, stats: &SystemStats)
    requires
        told(history, Ok(stats@)),
    ensures
        gave_cell(history, "/sys/num_worker_threads"@, stats.worker_thread_count),
        gave_row(history, "/sys/main_loop_count_per_worker"@, stats.main_loop_counts@),
        gave_row(history, "/sys/loops_per_worker"@, stats.loop_rates_per_second@),
        gave_cell(history, "/sys/heartbeat"@, stats.heartbeat),
        gave_cell(history, "/sys/boottime"@, stats.boottime_unix_seconds),
        stats.last_stats_clear_unix_seconds matches Some(cleared) ==> cleared > 0 && gave_cell(
            history,
            "/sys/last_stats_clear"@,
            cleared,
        ),
        stats.last_stats_clear_unix_seconds is None ==> gave_cell(
            history,
            "/sys/last_stats_clear"@,
            0,
        ),
        stats.main_loop_counts@.len() == stats.worker_thread_count,
        stats.loop_rates_per_second@.len() == stats.worker_thread_count,
        history.len() == 6,
{
    let readings = questions::readings(history);
    let names = system_entries();
    assert(system_of(readings) == Some(Ok::<_, ErrorView>(stats@)));
    assert(readings.len() == 6);
    assert forall|i: int| 0 <= i < 6 implies #[trigger] history[i] == Exchange::Read(
        names[i],
        readings[i],
    ) by {
        assert(history[i] is Read);
    }
    let counts = readings[1]->Ok_0->Simple_0;
    let rates = readings[2]->Ok_0->Simple_0;
    assert(counts =~= seq![stats.main_loop_counts@]);
    assert(rates =~= seq![stats.loop_rates_per_second@]);
    assert(history[0] == Exchange::Read("/sys/num_worker_threads"@, readings[0]));
    assert(history[1] == Exchange::Read("/sys/main_loop_count_per_worker"@, readings[1]));
    assert(history[2] == Exchange::Read("/sys/loops_per_worker"@, readings[2]));
    assert(history[3] == Exchange::Read("/sys/last_stats_clear"@, readings[3]));
    assert(history[4] == Exchange::Read("/sys/heartbeat"@, readings[4]));
    assert(history[5] == Exchange::Read("/sys/boottime"@, readings[5]));
}

/// The loops of a growth, added to the earlier counts, give the later counts, and
/// a growth is told exactly where time has passed and no count went backwards.
pub proof fn law_growth_leads_from_one_sample_to_the_next(
    current: &[u64],
    previous: &[u64],
    elapsed: Option<u128>,
    growth: Option<MainLoopGrowth>,
)
    requires
        call_ensures(main_loop_growth, (current, previous, elapsed), growth),
    ensures
        growth matches Some(found) ==> {
            &&& elapsed == Some(found.elapsed_nanos)
            &&& found.elapsed_nanos >= 1
            &&& found.loops@.len() == current@.len()
            &&& previous@.len() == current@.len()
            &&& forall|i: int|
                0 <= i < current@.len() ==> previous@[i] + #[trigger] found.loops@[i]
                    == current@[i]
        },
        growth is None ==> elapsed is None || elapsed == Some(0u128) || current@.len()
            != previous@.len() || exists|i: int|
            0 <= i < current@.len() && #[trigger] current@[i] < previous@[i],
{
}

/// A growth between two samples is that of their counts over the time between
/// them.
pub proof fn law_growth_between_samples(
    later: &SystemStats,
    earlier: &SystemStats,
    growth: Option<MainLoopGrowth>,
)
    requires
        call_ensures(SystemStats::main_loop_growth_since, (later, earlier), growth),
    ensures
        growth matches Some(found) ==> {
            &&& clock::elapsed_between(later.sampled_at, earlier.sampled_at) == Some(
                found.elapsed_nanos,
            )
            &&& found.loops@.len() == later.main_loop_counts@.len()
            &&& forall|i: int|
                0 <= i < found.loops@.len() ==> earlier.main_loop_counts@[i]
                    + #[trigger] found.loops@[i] == later.main_loop_counts@[i]
        },
{
}

/// A reading of the wrong kind, a reading with other than one row, and a row with
/// other than one column per worker are refused, each with what was found.
pub proof fn law_refused_readings(
    name: Seq<char>,
    value: MetricView,
    workers: u64,
    row: Seq<u64>,
)
    ensures
        !(value is Scalar) && !(value is Gauge) ==> cell_of(name, Ok(value)) == Err::<u64, _>(
            (ErrorView::UnexpectedMetricType {
                name,
                expected: "scalar_index or gauge"@,
                actual: reader::kind_text(value),
            }),
        ),
        value matches MetricView::Simple(rows) ==> rows.len() != 1 ==> row_of(name, Ok(value))
            == Err::<Seq<u64>, _>(
            (ErrorView::UnexpectedRowCount { name, expected: 1, actual: rows.len() as int }),
        ),
        !(value is Simple) ==> row_of(name, Ok(value)) == Err::<Seq<u64>, _>(
            (ErrorView::UnexpectedMetricType {
                name,
                expected: "counter_vector_simple"@,
                actual: reader::kind_text(value),
            }),
        ),
        row.len() != workers ==> worker_row(name, workers, row) == Err::<Seq<u64>, _>(
            (ErrorView::WorkerCountMismatch {
                name,
                worker_thread_count: workers,
                columns: row.len() as int,
            }),
        ),
        row.len() == workers ==> worker_row(name, workers, row) == Ok::<_, ErrorView>(row),
{
}

/// A clear time of zero is none, and any other is itself.
pub proof fn law_clear_baseline(last_stats_clear: u64, baseline: Option<u64>)
    requires
        call_ensures(clear_baseline, (last_stats_clear,), baseline),
    ensures
        last_stats_clear == 0 <==> baseline is None,
        baseline matches Some(cleared) ==> cleared == last_stats_clear,
{
}

} // verus!
