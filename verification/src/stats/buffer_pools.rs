//! `/buffer-pools` projection: one entry per Buffer Pool, three gauges each.
//!
//! The gauges are the server's buffer family contract: `cached` (buffers held
//! by the Worker thread caches), `used` (buffers handed out), and `available`
//! (buffers on the Pool free list). Pools are named after the NUMA node whose
//! Data Worker they serve, such as `default-numa-0`.

use crate::list;
use crate::order;
use crate::order::Ranked;
use crate::stats::error;
use crate::stats::error::{Error, ErrorView};
use crate::stats::protocol::{MetricValue, MetricView};
use crate::stats::provider::StatsProvider;
use crate::stats::questions;
use crate::stats::questions::{Exchange, Questions};
use crate::stats::reader;
use crate::stats::reader::{Reading, StatsReader};
use crate::text;
use vstd::prelude::*;
use vstd::string::*;

verus! {

/// One Buffer Pool as the server last sampled it.
///
/// The three gauges are three independent reads, exactly like the server's
/// sampler: they are not one atomic snapshot.
#[derive(Clone, Debug, Eq, PartialEq)]
pub struct BufferPoolUsage {
    /// The Pool name without the `/buffer-pools/` prefix.
    pub name: String,
    pub cached: u64,
    pub used: u64,
    pub available: u64,
}

/// The view of a [`BufferPoolUsage`].
pub struct PoolView {
    pub name: Seq<char>,
    pub cached: u64,
    pub used: u64,
    pub available: u64,
}

impl View for BufferPoolUsage {
    type V = PoolView;

    open spec fn view(&self) -> PoolView {
        PoolView {
            name: self.name@,
            cached: self.cached,
            used: self.used,
            available: self.available,
        }
    }
}

impl BufferPoolUsage {
    /// The Pool's buffer count: VPP publishes `used` as
    /// `n_buffers - n_avail - sum of n_cached` of the same reading, so the three
    /// gauges add up to the count the Pool was created with.
    pub fn buffer_count(&self) -> (count: u64)
        requires
            self.cached + self.used + self.available <= u64::MAX,
        ensures
            count == self.cached + self.used + self.available,
    {
        self.cached + self.used + self.available
    }
}

impl Ranked for BufferPoolUsage {
    open spec fn ranks_before(left: PoolView, right: PoolView) -> bool {
        text::text_before(left.name, right.name)
    }

    fn is_before(&self, other: &Self) -> (before: bool) {
        text::comes_before(self.name.as_str(), other.name.as_str())
    }
}

/// Every Buffer Pool the segment publishes, ordered by name.
#[derive(Clone, Debug, Eq, PartialEq)]
pub struct BufferPoolStats {
    pub pools: Vec<BufferPoolUsage>,
}

impl View for BufferPoolStats {
    type V = Seq<PoolView>;

    open spec fn view(&self) -> Seq<PoolView> {
        list::views(self.pools@)
    }
}

/// The position of the first Pool with the name.
pub open spec fn pool_position(pools: Seq<PoolView>, name: Seq<char>) -> Option<int> {
    list::first_where(pools, |pool: PoolView| pool.name == name)
}

impl BufferPoolStats {
    /// Looks one Pool up by its name without the `/buffer-pools/` prefix.
    pub fn pool(&self, name: &str) -> (found: Option<&BufferPoolUsage>)
        ensures
            match pool_position(self@, name@) {
                Some(at) => 0 <= at < self.pools@.len() && found == Some(&self.pools@[at]),
                None => found is None,
            },
    {
        let ghost named = |pool: PoolView| pool.name == name@;
        let mut i: usize = 0;
        while i < self.pools.len()
            invariant
                i <= self.pools@.len(),
                named == (|pool: PoolView| pool.name == name@),
                forall|j: int| 0 <= j < i ==> !named(#[trigger] self@[j]),
            decreases self.pools@.len() - i,
        {
            if text::same_text(self.pools[i].name.as_str(), name) {
                proof {
                    list::lemma_first_where_is(self@, named, i as int);
                }
                return Some(&self.pools[i]);
            }
            i = i + 1;
        }
        proof {
            list::lemma_first_where(self@, named);
        }
        None
    }
}

/// The Pool name a `/buffer-pools/<pool>/<gauge>` entry belongs to.
///
/// A metric this family does not publish is not a Pool, and a Pool is not
/// invented from a name that carries something else after the gauge.
pub open spec fn pool_of_entry(name: Seq<char>) -> Option<Seq<char>> {
    match text::after_prefix(name, "/buffer-pools/"@) {
        None => None,
        Some(rest) => match text::split_first(rest, '/') {
            None => None,
            Some((pool, gauge)) => if pool.len() > 0 && (gauge == "cached"@ || gauge == "used"@
                || gauge == "available"@) {
                Some(pool)
            } else {
                None
            },
        },
    }
}

/// The Pools a listing names, each once, in the order of their first entries.
pub open spec fn listed_pools(names: Seq<Seq<char>>) -> Seq<Seq<char>>
    decreases names.len(),
{
    if names.len() == 0 {
        Seq::empty()
    } else {
        let pools = listed_pools(names.drop_last());
        match pool_of_entry(names.last()) {
            Some(pool) => if pools.contains(pool) {
                pools
            } else {
                pools.push(pool)
            },
            None => pools,
        }
    }
}

/// The entry of one gauge of a Pool.
pub open spec fn gauge_entry(pool: Seq<char>, gauge: int) -> Seq<char> {
    "/buffer-pools/"@ + pool + (if gauge == 0 {
        "/cached"@
    } else if gauge == 1 {
        "/used"@
    } else {
        "/available"@
    })
}

/// The entries a report reads: the three gauges of every Pool, Pool by Pool.
pub open spec fn gauge_entries(pools: Seq<Seq<char>>) -> Seq<Seq<char>> {
    Seq::new(3 * pools.len(), |i: int| gauge_entry(pools[i / 3], i % 3))
}

/// The value of a gauge reading; a missing gauge is the server's defect, not a
/// zero.
pub open spec fn gauge_of(name: Seq<char>, reading: Reading) -> Result<u64, ErrorView> {
    match reading {
        Err(error) => Err(error),
        Ok(MetricView::Gauge(value)) => Ok(value),
        Ok(value) => Err(reader::unexpected(name, "gauge"@, value)),
    }
}

/// The Pools that the values of their gauges describe.
pub open spec fn pools_of(pools: Seq<Seq<char>>, values: Seq<u64>) -> Seq<PoolView> {
    Seq::new(
        pools.len(),
        |i: int|
            PoolView {
                name: pools[i],
                cached: values[3 * i],
                used: values[3 * i + 1],
                available: values[3 * i + 2],
            },
    )
}

/// What a pass over the gauges of `pools` reports: the Pools in name order.
pub open spec fn pool_report(
    pools: Seq<Seq<char>>,
    values: Result<Seq<u64>, ErrorView>,
) -> Result<Seq<PoolView>, ErrorView> {
    match values {
        Err(error) => Err(error),
        Ok(values) => Ok(
            order::in_order(pools_of(pools, values), order::rank::<BufferPoolUsage>()),
        ),
    }
}

/// The value of a gauge reading, as a step of a pass.
pub open spec fn gauge_item() -> spec_fn(Seq<char>, Reading) -> Result<u64, ErrorView> {
    |name: Seq<char>, reading: Reading| gauge_of(name, reading)
}

/// What a pass over the gauges of `pools` gives.
pub open spec fn gauge_values(pools: Seq<Seq<char>>, reads: Seq<Exchange>) -> Result<
    Seq<u64>,
    ErrorView,
> {
    questions::readout(gauge_entries(pools), reads, gauge_item())
}

/// Whether `history` is the whole of a report that ends in `result`: it lists
/// the names once, and reads the gauges of every listed Pool once, in order and
/// up to the first failure.
pub open spec fn told(history: Seq<Exchange>, result: Result<Seq<PoolView>, ErrorView>) -> bool {
    history.len() > 0 && match history[0] {
        Exchange::Listed(Err(error)) => history.len() == 1 && result == Err::<Seq<PoolView>, _>(
            error,
        ),
        Exchange::Listed(Ok(listed)) => {
            let pools = listed_pools(listed);
            let values = gauge_values(pools, history.skip(1));
            &&& questions::passes(history.skip(1), gauge_entries(pools), gauge_item(), values)
            &&& result == pool_report(pools, values)
        },
        Exchange::Read(..) => false,
    }
}

/// Projects `/buffer-pools` into [`BufferPoolStats`].
pub struct BufferPoolStatsProvider;

impl StatsProvider for BufferPoolStatsProvider {
    const PREFIX: &'static str = "/buffer-pools";

    type Report = BufferPoolStats;

    open spec fn may_report(
        history: Seq<Exchange>,
        report: Result<BufferPoolStats, Error>,
    ) -> bool {
        told(history, error::outcome(report))
    }

    open spec fn alike(
        left: Result<BufferPoolStats, Error>,
        right: Result<BufferPoolStats, Error>,
    ) -> bool {
        error::outcome(left) == error::outcome(right)
    }

    proof fn lemma_one_report(
        first: Seq<Exchange>,
        second: Seq<Exchange>,
        left: Result<BufferPoolStats, Error>,
        right: Result<BufferPoolStats, Error>,
    ) {
        questions::lemma_agreeing_rest(first, second);
        if let Exchange::Listed(Ok(listed)) = first[0] {
            let pools = listed_pools(listed);
            questions::lemma_one_pass(
                first.skip(1),
                second.skip(1),
                gauge_entries(pools),
                gauge_item(),
                gauge_values(pools, first.skip(1)),
                gauge_values(pools, second.skip(1)),
            );
        }
    }

    fn report<R: StatsReader>(reader: &R) -> (report: Result<BufferPoolStats, Error>) {
        let mut questions = Questions::new(reader);
        let ghost before = questions;
        let report = read_pools(&mut questions);
        proof {
            let history = choose|history: Seq<Exchange>| #[trigger]
                questions::continues(before, questions, history) && told(
                    history,
                    error::outcome(report),
                );
            questions::lemma_may_ask(before, questions, history);
        }
        report
    }
}

/// Lists the Pools and reads the gauges of each of them.
pub fn read_pools<R: StatsReader>(questions: &mut Questions<R>) -> (report: Result<
    BufferPoolStats,
    Error,
>)
    ensures
        exists|history: Seq<Exchange>| #[trigger]
            questions::continues(*old(questions), *final(questions), history) && told(
                history,
                error::outcome(report),
            ),
{
    let listing = questions.names();
    let ghost listed = seq![Exchange::Listed(error::listing(listing))];
    let names = match listing {
        Ok(names) => names,
        Err(error) => {
            return Err(error);
        },
    };
    // The directory publishes no bare `/buffer-pools/<pool>` entry, so the Pool
    // set is read off the gauge names themselves.
    let pool_names = list_pools(&names);
    let ghost pools = text::texts(pool_names@);
    let ghost asked = gauge_entries(pools);
    let ghost mut reads: Seq<Exchange> = Seq::empty();
    let ghost mut values: Seq<u64> = Seq::empty();
    let mut usages: Vec<BufferPoolUsage> = Vec::new();
    let mut i: usize = 0;
    proof {
        assert(list::views(usages@) =~= pools_of(pools.take(0), values));
        assert(listed + reads =~= listed);
    }
    while i < pool_names.len()
        invariant
            i <= pool_names@.len(),
            listed == seq![Exchange::Listed(Ok::<_, ErrorView>(text::texts(names@)))],
            pools == text::texts(pool_names@),
            pools == listed_pools(text::texts(names@)),
            asked == gauge_entries(pools),
            reads.len() == 3 * i,
            values.len() == 3 * i,
            questions::continues(*old(questions), *questions, listed + reads),
            questions::reads_in_order(reads, asked),
            questions::readout(asked, reads, gauge_item()) == Ok::<_, ErrorView>(values),
            list::views(usages@) == pools_of(pools.take(i as int), values),
        decreases pool_names@.len() - i,
    {
        let name = pool_names[i].as_str();
        let mut gauges: [u64; 3] = [0; 3];
        let mut k: usize = 0;
        let ghost before = values;
        while k < 3
            invariant
                i < pool_names@.len(),
                k <= 3,
                listed == seq![Exchange::Listed(Ok::<_, ErrorView>(text::texts(names@)))],
                pools == text::texts(pool_names@),
                pools == listed_pools(text::texts(names@)),
                name@ == pools[i as int],
                asked == gauge_entries(pools),
                reads.len() == 3 * i + k,
                questions::continues(*old(questions), *questions, listed + reads),
                questions::reads_in_order(reads, asked),
                questions::readout(asked, reads, gauge_item()) == Ok::<_, ErrorView>(values),
                values == before + gauges@.take(k as int),
            decreases 3 - k,
        {
            let entry = gauge_name(name, k);
            proof {
                let at = 3 * i + k;
                assert(at / 3 == i && at % 3 == k);
                assert(asked[at] == entry@);
            }
            let ghost middle = *questions;
            let ghost done = reads;
            let answer = questions.read(entry.as_str());
            proof {
                let reading = error::outcome(answer);
                let exchange = Exchange::Read(entry@, reading);
                questions::lemma_readout_push(asked, done, reading, gauge_item());
                questions::lemma_continues(
                    *old(questions),
                    middle,
                    *questions,
                    listed + done,
                    seq![exchange],
                );
                reads = done.push(exchange);
                assert((listed + done) + seq![exchange] =~= listed + reads);
                assert((listed + reads).skip(1) =~= reads);
            }
            let gauge = match answer {
                Ok(value) => gauge_value(entry.as_str(), value),
                Err(error) => Err(error),
            };
            match gauge {
                Ok(value) => {
                    let ghost kept = gauges@;
                    gauges[k] = value;
                    proof {
                        values = values.push(value);
                        assert(gauges@.take(k + 1) =~= kept.take(k as int).push(value));
                        assert(values =~= before + gauges@.take(k + 1));
                    }
                },
                Err(error) => {
                    return Err(error);
                },
            }
            k = k + 1;
        }
        let usage = BufferPoolUsage {
            name: name.to_owned(),
            cached: gauges[0],
            used: gauges[1],
            available: gauges[2],
        };
        proof {
            assert(gauges@.take(3) =~= gauges@);
            let last = pools_of(pools.take(i + 1), values);
            assert(list::views(usages@.push(usage)) =~= list::views(usages@).push(usage@));
            assert(list::views(usages@.push(usage)) =~= last);
        }
        usages.push(usage);
        i = i + 1;
    }
    proof {
        assert(pools.take(i as int) =~= pools);
        assert((listed + reads).skip(1) =~= reads);
    }
    Ok(BufferPoolStats { pools: order::sort(usages) })
}

/// The Pool name a gauge entry belongs to.
fn pool_of_gauge_entry(name: &str) -> (pool: Option<&str>)
    ensures
        pool is Some <==> pool_of_entry(name@) is Some,
        pool matches Some(found) ==> Some(found@) == pool_of_entry(name@),
{
    let rest = match text::strip_prefix(name, "/buffer-pools/") {
        Some(rest) => rest,
        None => {
            return None;
        },
    };
    let (pool, gauge) = match text::split_once(rest, '/') {
        Some(parts) => parts,
        None => {
            return None;
        },
    };
    let published = text::same_text(gauge, "cached") || text::same_text(gauge, "used")
        || text::same_text(gauge, "available");
    if published && pool.unicode_len() > 0 {
        Some(pool)
    } else {
        None
    }
}

/// The Pools a listing names, each once.
fn list_pools(names: &Vec<String>) -> (pools: Vec<String>)
    ensures
        text::texts(pools@) == listed_pools(text::texts(names@)),
{
    let ghost listed = text::texts(names@);
    let mut pools: Vec<String> = Vec::new();
    let mut i: usize = 0;
    assert(text::texts(pools@) =~= listed_pools(listed.take(0)));
    while i < names.len()
        invariant
            i <= names@.len(),
            listed == text::texts(names@),
            text::texts(pools@) == listed_pools(listed.take(i as int)),
        decreases names@.len() - i,
    {
        assert(listed.take(i + 1).drop_last() =~= listed.take(i as int));
        match pool_of_gauge_entry(names[i].as_str()) {
            Some(pool) => {
                if !text::list_contains(&pools, pool) {
                    let name = pool.to_owned();
                    assert(text::texts(pools@.push(name)) =~= text::texts(pools@).push(name@));
                    pools.push(name);
                }
            },
            None => {},
        }
        i = i + 1;
    }
    assert(listed.take(i as int) =~= listed);
    pools
}

/// The entry of one gauge of a Pool.
fn gauge_name(pool: &str, gauge: usize) -> (entry: String)
    requires
        gauge < 3,
    ensures
        entry@ == gauge_entry(pool@, gauge as int),
{
    let mut entry = text::joined("/buffer-pools/", pool);
    if gauge == 0 {
        entry.append("/cached");
    } else if gauge == 1 {
        entry.append("/used");
    } else {
        entry.append("/available");
    }
    entry
}

/// The value of one gauge reading.
pub fn gauge_value(name: &str, value: MetricValue) -> (gauge: Result<u64, Error>)
    ensures
        error::outcome(gauge) == gauge_of(name@, Ok(value@)),
{
    match value {
        MetricValue::Gauge(gauge) => Ok(gauge),
        other => Err(reader::unexpected_type(name, "gauge", &other)),
    }
}

/// The listed Pools are distinct.
pub proof fn law_listed_pools_distinct(names: Seq<Seq<char>>)
    ensures
        listed_pools(names).no_duplicates(),
    decreases names.len(),
{
    if names.len() > 0 {
        law_listed_pools_distinct(names.drop_last());
    }
}

/// A listing names a Pool exactly when it holds one of the Pool's gauges.
pub proof fn law_listed_pools(names: Seq<Seq<char>>, pool: Seq<char>)
    ensures
        listed_pools(names).contains(pool) <==> exists|i: int|
            0 <= i < names.len() && pool_of_entry(#[trigger] names[i]) == Some(pool),
    decreases names.len(),
{
    if names.len() > 0 {
        let lead = names.drop_last();
        law_listed_pools(lead, pool);
        let pools = listed_pools(lead);
        if pools.contains(pool) {
            let i = choose|i: int|
                0 <= i < lead.len() && pool_of_entry(#[trigger] lead[i]) == Some(pool);
            assert(names[i] == lead[i]);
            let at = choose|at: int| 0 <= at < pools.len() && pools[at] == pool;
            assert(listed_pools(names)[at] == pool);
        } else if pool_of_entry(names.last()) == Some(pool) {
            assert(listed_pools(names) == pools.push(pool));
            assert(listed_pools(names)[pools.len() as int] == pool);
            assert(names[names.len() - 1] == names.last());
        } else {
            if listed_pools(names).contains(pool) {
                let at = choose|at: int|
                    0 <= at < listed_pools(names).len() && listed_pools(names)[at] == pool;
                assert(at < pools.len() ==> pools[at] == pool);
            }
            assert forall|i: int| 0 <= i < names.len() implies pool_of_entry(#[trigger] names[i])
                != Some(pool) by {
                if i < lead.len() {
                    assert(names[i] == lead[i]);
                }
            }
        }
    }
}

/// The Pools of a report are in strict name order, so no name occurs twice.
pub proof fn law_pools_in_name_order(names: Seq<Seq<char>>, values: Seq<u64>)
    ensures
        ({
            let pools = order::in_order(
                pools_of(listed_pools(names), values),
                order::rank::<BufferPoolUsage>(),
            );
            forall|i: int, j: int|
                0 <= i < j < pools.len() ==> text::text_before(
                    #[trigger] pools[i].name,
                    #[trigger] pools[j].name,
                )
        }),
{
    let before = order::rank::<BufferPoolUsage>();
    let listed = listed_pools(names);
    let items = pools_of(listed, values);
    let pools = order::in_order(items, before);
    lemma_pool_ranking();
    order::law_in_order(items, before);
    law_listed_pools_distinct(names);
    assert forall|i: int, j: int| 0 <= i < j < pools.len() implies text::text_before(
        #[trigger] pools[i].name,
        #[trigger] pools[j].name,
    ) by {
        assert(!before(pools[j], pools[i]));
        if pools[i].name == pools[j].name {
            order::lemma_distinct_keys(
                items,
                before,
                |pool: PoolView| pool.name,
                i,
                j,
            );
        }
        text::lemma_text_before_total(pools[i].name, pools[j].name);
    }
}

proof fn lemma_pool_ranking()
    ensures
        order::is_ranking(order::rank::<BufferPoolUsage>()),
{
    let before = order::rank::<BufferPoolUsage>();
    let names = |left: Seq<char>, right: Seq<char>| text::text_before(left, right);
    order::lemma_text_ranking();
    assert forall|a: PoolView, b: PoolView| #[trigger] before(a, b) implies !before(b, a) by {
        assert(names(a.name, b.name));
    }
    assert forall|a: PoolView, b: PoolView, c: PoolView|
        #![trigger before(a, b), before(b, c)]
        !before(a, b) && !before(b, c) implies !before(a, c) by {
        assert(!names(a.name, b.name) && !names(b.name, c.name));
        assert(!names(a.name, c.name));
    }
}

/// Every Pool of a report has the three values that were read from its own three
/// gauges, each in the field with the gauge's name.
pub proof fn law_gauges_are_read_from_their_entries(
    history: Seq<Exchange>,
    report: &BufferPoolStats,
    at: int,
)
    requires
        told(history, Ok(report@)),
        0 <= at < report.pools@.len(),
    ensures
        ({
            let pool = report.pools@[at];
            let lead = "/buffer-pools/"@ + pool.name@;
            &&& history.contains(
                Exchange::Read(lead + "/cached"@, Ok(MetricView::Gauge(pool.cached))),
            )
            &&& history.contains(Exchange::Read(lead + "/used"@, Ok(MetricView::Gauge(pool.used))))
            &&& history.contains(
                Exchange::Read(lead + "/available"@, Ok(MetricView::Gauge(pool.available))),
            )
        }),
{
    let listed = history[0]->Listed_0->Ok_0;
    let pools = listed_pools(listed);
    let reads = history.skip(1);
    let values = gauge_values(pools, reads)->Ok_0;
    let items = pools_of(pools, values);
    let before = order::rank::<BufferPoolUsage>();
    lemma_pool_ranking();
    order::law_in_order(items, before);
    let pool = report@[at];
    assert(pool == report.pools@[at]@);
    assert(order::in_order(items, before).contains(pool));
    order::law_in_order_keeps_items(items, before, pool);
    let i = choose|i: int| 0 <= i < items.len() && items[i] == pool;
    lemma_gauge_read(history, pools, values, i, 0);
    lemma_gauge_read(history, pools, values, i, 1);
    lemma_gauge_read(history, pools, values, i, 2);
}

proof fn lemma_gauge_read(
    history: Seq<Exchange>,
    pools: Seq<Seq<char>>,
    values: Seq<u64>,
    pool: int,
    gauge: int,
)
    requires
        0 <= pool < pools.len(),
        0 <= gauge < 3,
        history.len() > 0,
        gauge_values(pools, history.skip(1)) == Ok::<_, ErrorView>(values),
        questions::passes(
            history.skip(1),
            gauge_entries(pools),
            gauge_item(),
            gauge_values(pools, history.skip(1)),
        ),
    ensures
        history.contains(
            Exchange::Read(
                gauge_entry(pools[pool], gauge),
                Ok(MetricView::Gauge(values[3 * pool + gauge])),
            ),
        ),
{
    let reads = history.skip(1);
    let asked = gauge_entries(pools);
    let item = gauge_item();
    let step = |i: int| item(asked[i], reads[i]->Read_1);
    let at = 3 * pool + gauge;
    list::lemma_collected_ok(reads.len(), step);
    assert(at / 3 == pool && at % 3 == gauge);
    assert(step(at) == Ok::<_, ErrorView>(values[at]));
    assert(reads[at] is Read);
    assert(history[1 + at] == reads[at]);
    assert(asked[at] == gauge_entry(pools[pool], gauge));
    assert(history[1 + at] == Exchange::Read(
        gauge_entry(pools[pool], gauge),
        Ok(MetricView::Gauge(values[at])),
    ));
}

/// A report has exactly the Pools that the listing names.
pub proof fn law_every_listed_pool_is_reported(
    history: Seq<Exchange>,
    listed: Seq<Seq<char>>,
    report: Seq<PoolView>,
    name: Seq<char>,
)
    requires
        told(history, Ok(report)),
        history[0] == Exchange::Listed(Ok(listed)),
    ensures
        history.len() == 1 + 3 * report.len(),
        (exists|at: int| 0 <= at < report.len() && (#[trigger] report[at]).name == name) <==> (
        exists|i: int|
            0 <= i < listed.len() && pool_of_entry(#[trigger] listed[i]) == Some(name)),
{
    let pools = listed_pools(listed);
    let values = gauge_values(pools, history.skip(1))->Ok_0;
    let items = pools_of(pools, values);
    let before = order::rank::<BufferPoolUsage>();
    lemma_pool_ranking();
    order::law_in_order(items, before);
    law_listed_pools(listed, name);
    if exists|at: int| 0 <= at < report.len() && (#[trigger] report[at]).name == name {
        let at = choose|at: int| 0 <= at < report.len() && (#[trigger] report[at]).name == name;
        assert(report.contains(report[at]));
        order::law_in_order_keeps_items(items, before, report[at]);
        let i = choose|i: int| 0 <= i < items.len() && items[i] == report[at];
        assert(pools[i] == name);
        assert(pools.contains(name));
    }
    if pools.contains(name) {
        let i = choose|i: int| 0 <= i < pools.len() && pools[i] == name;
        assert(items.contains(items[i]));
        order::law_in_order_keeps_items(items, before, items[i]);
        let at = choose|at: int| 0 <= at < report.len() && report[at] == items[i];
        assert(report[at].name == name);
    }
}

/// The entries of a Pool are its name between the prefix and one of the three
/// gauges, and no other entry is that of a Pool.
pub proof fn law_pool_entries(name: Seq<char>, pool: Seq<char>)
    ensures
        pool.len() > 0 && !pool.contains('/') && (name == "/buffer-pools/"@ + pool + "/cached"@
            || name == "/buffer-pools/"@ + pool + "/used"@ || name == "/buffer-pools/"@ + pool
            + "/available"@) <==> pool_of_entry(name) == Some(pool),
{
    reveal_strlit("/cached");
    reveal_strlit("/used");
    reveal_strlit("/available");
    reveal_strlit("cached");
    reveal_strlit("used");
    reveal_strlit("available");
    assert("/cached"@ =~= seq!['/'] + "cached"@);
    assert("/used"@ =~= seq!['/'] + "used"@);
    assert("/available"@ =~= seq!['/'] + "available"@);
    lemma_pool_entry(name, pool, "cached"@);
    lemma_pool_entry(name, pool, "used"@);
    lemma_pool_entry(name, pool, "available"@);
}

proof fn lemma_pool_entry(name: Seq<char>, pool: Seq<char>, gauge: Seq<char>)
    ensures
        !pool.contains('/') && name == "/buffer-pools/"@ + pool + (seq!['/'] + gauge)
            <==> text::after_prefix(name, "/buffer-pools/"@) is Some && text::split_first(
            text::after_prefix(name, "/buffer-pools/"@)->Some_0,
            '/',
        ) == Some((pool, gauge)),
{
    let lead = "/buffer-pools/"@;
    if name == lead + pool + (seq!['/'] + gauge) {
        assert(name =~= lead + (pool + (seq!['/'] + gauge)));
        text::law_prefix(name, lead, pool + (seq!['/'] + gauge));
        if !pool.contains('/') {
            text::law_split(pool + (seq!['/'] + gauge), '/', pool, gauge);
            assert(pool + (seq!['/'] + gauge) =~= pool + seq!['/'] + gauge);
        }
    }
    if text::after_prefix(name, lead) is Some {
        let rest = text::after_prefix(name, lead)->Some_0;
        text::law_prefix(name, lead, rest);
        text::law_split(rest, '/', pool, gauge);
        assert(lead + (pool + seq!['/'] + gauge) =~= lead + pool + (seq!['/'] + gauge));
    }
}

/// The three gauges of a Pool add up to its buffers: taking the available and the
/// cached ones away leaves the used ones.
pub proof fn law_buffer_count(pool: &BufferPoolUsage, count: u64)
    requires
        pool.cached + pool.used + pool.available <= u64::MAX,
        call_ensures(BufferPoolUsage::buffer_count, (pool,), count),
    ensures
        count - pool.available - pool.cached == pool.used,
{
}

/// A Pool that is looked up has the name, and a name without a Pool is that of
/// none.
pub proof fn law_pool_lookup(
    report: &BufferPoolStats,
    name: &str,
    found: Option<&BufferPoolUsage>,
)
    requires
        call_ensures(BufferPoolStats::pool, (report, name), found),
    ensures
        found is None ==> forall|i: int|
            0 <= i < report.pools@.len() ==> (#[trigger] report.pools@[i]).name@ != name@,
        found matches Some(pool) ==> pool.name@ == name@ && report.pools@.contains(*pool),
{
    let named = |pool: PoolView| pool.name == name@;
    list::lemma_first_where(report@, named);
    match pool_position(report@, name@) {
        Some(at) => {
            assert(named(report@[at]));
            assert(report@[at] == report.pools@[at]@);
        },
        None => {
            assert forall|i: int| 0 <= i < report.pools@.len() implies (
            #[trigger] report.pools@[i]).name@ != name@ by {
                assert(report@[i] == report.pools@[i]@);
                assert(!named(report@[i]));
            }
        },
    }
}

/// A reading that is no gauge is refused, and a gauge gives its value.
pub proof fn law_gauge_reading(name: Seq<char>, value: MetricView)
    ensures
        value matches MetricView::Gauge(cell) ==> gauge_of(name, Ok(value)) == Ok::<_, ErrorView>(
            cell,
        ),
        !(value is Gauge) ==> gauge_of(name, Ok(value)) == Err::<u64, _>(
            (ErrorView::UnexpectedMetricType {
                name,
                expected: "gauge"@,
                actual: reader::kind_text(value),
            }),
        ),
{
}

/// A listing that fails is the failure of the report, and nothing is read then.
pub proof fn law_failed_listing(
    history: Seq<Exchange>,
    error: ErrorView,
    result: Result<Seq<PoolView>, ErrorView>,
)
    requires
        history.len() > 0,
        history[0] == Exchange::Listed(Err(error)),
        told(history, result),
    ensures
        history.len() == 1,
        result == Err::<Seq<PoolView>, _>(error),
{
}

} // verus!
