//! `/err/<node>/<error>` projection: one alias per registered node error,
//! pointing at that error's column of the server's `/node/errors` counter
//! vector.
//!
//! The server publishes the vector and its aliases under the names VPP's
//! `vlib_register_errors` uses. VPP's own client reads the aliases and nothing
//! else: `set_errors` filters the directory by the `/err/` prefix, so this
//! projection does the same: list the names once, read every alias, and treat
//! an alias that vanishes between the listing and the read as an ordinary
//! absence. Names the server never publishes (`/err/<node>` without an error
//! segment) are skipped, not reported as a failure.
//!
//! Unlike the `/sys/*` families, records are visible immediately: the server's
//! record point writes the cell, so the next read sees it without waiting for a
//! collector round.
//!
//! An absent family is `None`: no server node declared errors, which is the
//! state VPP expresses by never creating the entry.

use crate::list;
use crate::order;
use crate::order::Ranked;
use crate::stats::clock;
use crate::stats::error;
use crate::stats::error::{Error, ErrorView};
use crate::stats::protocol;
use crate::stats::protocol::{MetricValue, MetricView};
use crate::stats::provider::StatsProvider;
use crate::stats::questions;
use crate::stats::questions::{Exchange, Questions};
use crate::stats::reader;
use crate::stats::reader::{Reading, StatsReader};
use crate::text;
use std::time::Instant;
use vstd::prelude::*;
use vstd::string::*;

verus! {

/// One node error's counters, one value per runtime thread.
#[derive(Clone, Debug, Eq, PartialEq)]
pub struct NodeErrorCounters {
    /// The node the error belongs to, from `/err/<node>/<error>`.
    pub node: String,
    /// The error's name inside that node.
    pub error: String,
    /// Counts in thread order, thread zero first; the length is the thread
    /// count the server published.
    pub counts: Vec<u64>,
}

/// The view of a [`NodeErrorCounters`].
pub struct CountersView {
    pub node: Seq<char>,
    pub error: Seq<char>,
    pub counts: Seq<u64>,
}

impl View for NodeErrorCounters {
    type V = CountersView;

    open spec fn view(&self) -> CountersView {
        CountersView { node: self.node@, error: self.error@, counts: self.counts@ }
    }
}

/// The sum of a list of counts.
pub open spec fn total_of(counts: Seq<u64>) -> nat
    decreases counts.len(),
{
    if counts.len() == 0 {
        0
    } else {
        total_of(counts.drop_last()) + counts.last() as nat
    }
}

/// The sum of the counts of every error.
pub open spec fn grand_total(errors: Seq<CountersView>) -> nat
    decreases errors.len(),
{
    if errors.len() == 0 {
        0
    } else {
        grand_total(errors.drop_last()) + total_of(errors.last().counts)
    }
}

proof fn lemma_total_grows(counts: Seq<u64>, part: int)
    requires
        0 <= part <= counts.len(),
    ensures
        total_of(counts.take(part)) <= total_of(counts),
    decreases counts.len(),
{
    if part < counts.len() {
        lemma_total_grows(counts.drop_last(), part);
        assert(counts.drop_last().take(part) =~= counts.take(part));
    } else {
        assert(counts.take(part) =~= counts);
    }
}

proof fn lemma_grand_total_grows(errors: Seq<CountersView>, part: int)
    requires
        0 <= part <= errors.len(),
    ensures
        grand_total(errors.take(part)) <= grand_total(errors),
    decreases errors.len(),
{
    if part < errors.len() {
        lemma_grand_total_grows(errors.drop_last(), part);
        assert(errors.drop_last().take(part) =~= errors.take(part));
    } else {
        assert(errors.take(part) =~= errors);
    }
}

impl NodeErrorCounters {
    /// The error's total across every thread.
    pub fn total(&self) -> (total: u64)
        requires
            total_of(self.counts@) <= u64::MAX,
        ensures
            total == total_of(self.counts@),
    {
        let mut total: u64 = 0;
        let mut i: usize = 0;
        while i < self.counts.len()
            invariant
                i <= self.counts@.len(),
                total_of(self.counts@) <= u64::MAX,
                total == total_of(self.counts@.take(i as int)),
            decreases self.counts@.len() - i,
        {
            proof {
                lemma_total_grows(self.counts@, i + 1);
                assert(self.counts@.take(i + 1).drop_last() =~= self.counts@.take(i as int));
            }
            total = total + self.counts[i];
            i = i + 1;
        }
        assert(self.counts@.take(i as int) =~= self.counts@);
        total
    }
}

impl Ranked for NodeErrorCounters {
    open spec fn ranks_before(left: CountersView, right: CountersView) -> bool {
        text::text_before(left.node, right.node) || (left.node == right.node && text::text_before(
            left.error,
            right.error,
        ))
    }

    fn is_before(&self, other: &Self) -> (before: bool) {
        if text::same_text(self.node.as_str(), other.node.as_str()) {
            proof {
                text::lemma_text_before_irreflexive(self.node@);
            }
            text::comes_before(self.error.as_str(), other.error.as_str())
        } else {
            text::comes_before(self.node.as_str(), other.node.as_str())
        }
    }
}

/// Every node error the segment published, ordered by `(node, error)`.
#[derive(Debug, Eq, PartialEq)]
pub struct NodeErrorStats {
    pub errors: Vec<NodeErrorCounters>,
    /// When this report was produced, from the client's monotonic clock. The
    /// entries are independent reads, not one instant.
    pub sampled_at: Instant,
}

impl View for NodeErrorStats {
    type V = Seq<CountersView>;

    /// The errors, without the time of their sampling.
    open spec fn view(&self) -> Seq<CountersView> {
        list::views(self.errors@)
    }
}

impl Clone for NodeErrorStats {
    fn clone(&self) -> (copy: Self)
        ensures
            copy@ == self@,
            copy.sampled_at == self.sampled_at,
    {
        let mut errors: Vec<NodeErrorCounters> = Vec::new();
        let mut i: usize = 0;
        assert(list::views(errors@) =~= self@.take(0));
        while i < self.errors.len()
            invariant
                i <= self.errors@.len(),
                list::views(errors@) == self@.take(i as int),
            decreases self.errors@.len() - i,
        {
            let counters = &self.errors[i];
            let counts = counters.counts.clone();
            assert(counts@ =~= counters.counts@);
            let copied = NodeErrorCounters {
                node: counters.node.clone(),
                error: counters.error.clone(),
                counts,
            };
            assert(copied@ == counters@);
            proof {
                assert(list::views(errors@.push(copied)) =~= list::views(errors@).push(copied@));
                assert(self@.take(i + 1) =~= self@.take(i as int).push(self@[i as int]));
            }
            errors.push(copied);
            i = i + 1;
        }
        assert(self@.take(i as int) =~= self@);
        NodeErrorStats { errors, sampled_at: self.sampled_at }
    }
}

/// Whether counters belong to a `(node, error)` pair.
pub open spec fn is_pair(node: Seq<char>, error: Seq<char>) -> spec_fn(CountersView) -> bool {
    |counters: CountersView| counters.node == node && counters.error == error
}

/// Whether counters belong to a node.
pub open spec fn is_of_node(node: Seq<char>) -> spec_fn(CountersView) -> bool {
    |counters: CountersView| counters.node == node
}

impl NodeErrorStats {
    /// The counters of one `(node, error)` pair.
    pub fn error(&self, node: &str, error: &str) -> (found: Option<&NodeErrorCounters>)
        ensures
            match list::first_where(self@, is_pair(node@, error@)) {
                Some(at) => 0 <= at < self.errors@.len() && found == Some(&self.errors@[at]),
                None => found is None,
            },
    {
        let ghost wanted = is_pair(node@, error@);
        let mut i: usize = 0;
        while i < self.errors.len()
            invariant
                i <= self.errors@.len(),
                wanted == is_pair(node@, error@),
                forall|j: int| 0 <= j < i ==> !wanted(#[trigger] self@[j]),
            decreases self.errors@.len() - i,
        {
            let counters = &self.errors[i];
            if text::same_text(counters.node.as_str(), node) && text::same_text(
                counters.error.as_str(),
                error,
            ) {
                proof {
                    list::lemma_first_where_is(self@, wanted, i as int);
                }
                return Some(counters);
            }
            i = i + 1;
        }
        proof {
            list::lemma_first_where(self@, wanted);
        }
        None
    }

    /// Every error one node published, in the report's order.
    pub fn node<'a>(&'a self, name: &str) -> (found: Vec<&'a NodeErrorCounters>)
        ensures
            list::views(found@) == self@.filter(is_of_node(name@)),
    {
        let ghost wanted = is_of_node(name@);
        let mut found: Vec<&'a NodeErrorCounters> = Vec::new();
        let mut i: usize = 0;
        proof {
            reveal(Seq::filter);
            assert(list::views(found@) =~= self@.take(0).filter(wanted));
        }
        while i < self.errors.len()
            invariant
                i <= self.errors@.len(),
                wanted == is_of_node(name@),
                list::views(found@) == self@.take(i as int).filter(wanted),
            decreases self.errors@.len() - i,
        {
            proof {
                reveal(Seq::filter);
                assert(self@.take(i + 1).drop_last() =~= self@.take(i as int));
            }
            let counters = &self.errors[i];
            if text::same_text(counters.node.as_str(), name) {
                assert(list::views(found@.push(counters)) =~= list::views(found@).push(counters@));
                found.push(counters);
            }
            i = i + 1;
        }
        assert(self@.take(i as int) =~= self@);
        found
    }

    /// The total across every published error and thread.
    pub fn total(&self) -> (total: u64)
        requires
            grand_total(self@) <= u64::MAX,
        ensures
            total == grand_total(self@),
    {
        let mut total: u64 = 0;
        let mut i: usize = 0;
        while i < self.errors.len()
            invariant
                i <= self.errors@.len(),
                grand_total(self@) <= u64::MAX,
                total == grand_total(self@.take(i as int)),
            decreases self.errors@.len() - i,
        {
            proof {
                lemma_grand_total_grows(self@, i + 1);
                assert(self@.take(i + 1).drop_last() =~= self@.take(i as int));
                assert(self@.take(i + 1).last() == self.errors@[i as int]@);
            }
            total = total + self.errors[i].total();
            i = i + 1;
        }
        assert(self@.take(i as int) =~= self@);
        total
    }
}

/// Whether a directory name belongs to the family.
pub open spec fn is_alias() -> spec_fn(Seq<char>) -> bool {
    |name: Seq<char>| text::after_prefix(name, "/err/"@) is Some
}

/// The node and the error of a name `/err/<node>/<error>`; a name without both
/// segments is not a published alias.
pub open spec fn alias_pair(name: Seq<char>) -> Option<(Seq<char>, Seq<char>)> {
    match text::after_prefix(name, "/err/"@) {
        None => None,
        Some(rest) => match text::split_first(rest, '/') {
            None => None,
            Some((node, error)) => if node.len() > 0 && error.len() > 0 {
                Some((node, error))
            } else {
                None
            },
        },
    }
}

/// Whether a name is a published alias.
pub open spec fn is_published() -> spec_fn(Seq<char>) -> bool {
    |name: Seq<char>| alias_pair(name) is Some
}

/// The entries a report reads: the published aliases, in name order.
pub open spec fn alias_entries(names: Seq<Seq<char>>) -> Seq<Seq<char>> {
    order::in_order(names.filter(is_alias()), order::rank::<String>()).filter(is_published())
}

/// Whether a row has other than one cell.
pub open spec fn is_odd_row() -> spec_fn(Seq<u64>) -> bool {
    |row: Seq<u64>| row.len() != 1
}

/// The counts of an alias: the one cell of every row.
pub open spec fn counts_of(name: Seq<char>, rows: Seq<Seq<u64>>) -> Result<Seq<u64>, ErrorView> {
    match list::first_where(rows, is_odd_row()) {
        Some(row) => Err(
            ErrorView::UnexpectedColumnCount {
                name: text::row_label(name, row as nat),
                expected: 1,
                actual: rows[row].len() as int,
            },
        ),
        None => Ok(Seq::new(rows.len(), |row: int| rows[row][0])),
    }
}

/// The counters that the reading of an alias gives; an alias that vanished
/// since the listing gives none.
pub open spec fn counters_of(name: Seq<char>, reading: Reading) -> Result<
    Option<CountersView>,
    ErrorView,
> {
    match reading {
        Err(ErrorView::MetricNotFound { .. }) => Ok(None),
        Err(error) => Err(error),
        Ok(MetricView::Simple(rows)) => match counts_of(name, rows) {
            Err(error) => Err(error),
            Ok(counts) => {
                let pair = alias_pair(name)->Some_0;
                Ok(Some(CountersView { node: pair.0, error: pair.1, counts }))
            },
        },
        Ok(value) => Err(reader::unexpected(name, "counter_vector_simple"@, value)),
    }
}

/// The counters that are present.
pub open spec fn present(found: Seq<Option<CountersView>>) -> Seq<CountersView> {
    found.filter_map(|counters: Option<CountersView>| counters)
}

/// The counters that the reading of an alias gives, as a step of a pass.
pub open spec fn alias_item() -> spec_fn(Seq<char>, Reading) -> Result<
    Option<CountersView>,
    ErrorView,
> {
    |name: Seq<char>, reading: Reading| counters_of(name, reading)
}

/// What a pass over the aliases reports: what is present, ordered by node and
/// error.
pub open spec fn error_report(found: Result<Seq<Option<CountersView>>, ErrorView>) -> Result<
    Seq<CountersView>,
    ErrorView,
> {
    match found {
        Err(error) => Err(error),
        Ok(found) => Ok(order::in_order(present(found), order::rank::<NodeErrorCounters>())),
    }
}

/// What a pass over the aliases `asked` gives.
pub open spec fn alias_values(asked: Seq<Seq<char>>, reads: Seq<Exchange>) -> Result<
    Seq<Option<CountersView>>,
    ErrorView,
> {
    questions::readout(asked, reads, alias_item())
}

/// Whether `reads` is the whole of a read of the aliases `asked` that ends in
/// `result`: each alias is read once, in order and up to the first failure.
pub open spec fn told_aliases(
    reads: Seq<Exchange>,
    asked: Seq<Seq<char>>,
    result: Result<Seq<CountersView>, ErrorView>,
) -> bool {
    &&& questions::passes(reads, asked, alias_item(), alias_values(asked, reads))
    &&& result == error_report(alias_values(asked, reads))
}

/// Whether `history` is the whole of a report that ends in `result`: it lists
/// the names once. A family without a listed name is absent, and nothing of it
/// is read.
pub open spec fn told(
    history: Seq<Exchange>,
    result: Result<Option<Seq<CountersView>>, ErrorView>,
) -> bool {
    history.len() > 0 && match history[0] {
        Exchange::Listed(Err(error)) => history.len() == 1 && result == Err::<
            Option<Seq<CountersView>>,
            _,
        >(error),
        Exchange::Listed(Ok(listed)) => if listed.filter(is_alias()).len() == 0 {
            history.len() == 1 && result == Ok::<Option<Seq<CountersView>>, ErrorView>(None)
        } else {
            match result {
                Err(error) => told_aliases(history.skip(1), alias_entries(listed), Err(error)),
                Ok(errors) => errors is Some && told_aliases(
                    history.skip(1),
                    alias_entries(listed),
                    Ok(errors->Some_0),
                ),
            }
        },
        Exchange::Read(..) => false,
    }
}

/// The view of a report.
pub open spec fn report_view(report: Result<Option<NodeErrorStats>, Error>) -> Result<
    Option<Seq<CountersView>>,
    ErrorView,
> {
    match report {
        Ok(Some(stats)) => Ok(Some(stats@)),
        Ok(None) => Ok(None),
        Err(error) => Err(error@),
    }
}

/// Projects `/err` into `Option<NodeErrorStats>`.
pub struct NodeErrorStatsProvider;

impl StatsProvider for NodeErrorStatsProvider {
    const PREFIX: &'static str = "/err";

    type Report = Option<NodeErrorStats>;

    open spec fn may_report(
        history: Seq<Exchange>,
        report: Result<Option<NodeErrorStats>, Error>,
    ) -> bool {
        told(history, report_view(report))
    }

    open spec fn alike(
        left: Result<Option<NodeErrorStats>, Error>,
        right: Result<Option<NodeErrorStats>, Error>,
    ) -> bool {
        report_view(left) == report_view(right)
    }

    proof fn lemma_one_report(
        first: Seq<Exchange>,
        second: Seq<Exchange>,
        left: Result<Option<NodeErrorStats>, Error>,
        right: Result<Option<NodeErrorStats>, Error>,
    ) {
        questions::lemma_agreeing_rest(first, second);
        if let Exchange::Listed(Ok(listed)) = first[0] {
            if listed.filter(is_alias()).len() > 0 {
                let asked = alias_entries(listed);
                questions::lemma_one_pass(
                    first.skip(1),
                    second.skip(1),
                    asked,
                    alias_item(),
                    alias_values(asked, first.skip(1)),
                    alias_values(asked, second.skip(1)),
                );
            }
        }
    }

    fn report<R: StatsReader>(reader: &R) -> (report: Result<Option<NodeErrorStats>, Error>) {
        let mut questions = Questions::new(reader);
        let ghost before = questions;
        let report = read_node_errors(&mut questions);
        proof {
            let history = choose|history: Seq<Exchange>| #[trigger]
                questions::continues(before, questions, history) && told(
                    history,
                    report_view(report),
                );
            questions::lemma_may_ask(before, questions, history);
        }
        report
    }
}

/// Lists the aliases and reads each of them, when there are any.
pub fn read_node_errors<R: StatsReader>(questions: &mut Questions<R>) -> (report: Result<
    Option<NodeErrorStats>,
    Error,
>)
    ensures
        exists|history: Seq<Exchange>| #[trigger]
            questions::continues(*old(questions), *final(questions), history) && told(
                history,
                report_view(report),
            ),
{
    let listing = questions.names();
    let ghost listed = seq![Exchange::Listed(error::listing(listing))];
    let names = match listing {
        Ok(names) => names,
        Err(error) => {
            return Err(error);
        },
    };
    let aliases = list_aliases(&names);
    if aliases.len() == 0 {
        return Ok(None);
    }
    let sorted = order::sort(aliases);
    let entries = keep_published(&sorted);
    let sampled_at = clock::now();
    let ghost middle = *questions;
    let found = read_aliases(questions, &entries, sampled_at);
    proof {
        let asked = text::texts(entries@);
        let reads = choose|reads: Seq<Exchange>| #[trigger]
            questions::continues(middle, *questions, reads) && told_aliases(
                reads,
                asked,
                error::outcome(found),
            );
        questions::lemma_continues(*old(questions), middle, *questions, listed, reads);
        assert((listed + reads).skip(1) =~= reads);
    }
    match found {
        Ok(stats) => Ok(Some(stats)),
        Err(error) => Err(error),
    }
}

/// Reads the aliases for a report of the time `sampled_at`.
pub fn read_aliases<R: StatsReader>(
    questions: &mut Questions<R>,
    entries: &Vec<String>,
    sampled_at: Instant,
) -> (stats: Result<NodeErrorStats, Error>)
    requires
        forall|j: int|
            0 <= j < entries@.len() ==> alias_pair(#[trigger] text::texts(entries@)[j]) is Some,
    ensures
        exists|reads: Seq<Exchange>| #[trigger]
            questions::continues(*old(questions), *final(questions), reads) && told_aliases(
                reads,
                text::texts(entries@),
                error::outcome(stats),
            ),
        stats matches Ok(read) ==> read.sampled_at == sampled_at,
{
    match read_errors(questions, entries) {
        Ok(errors) => Ok(NodeErrorStats { errors, sampled_at }),
        Err(error) => Err(error),
    }
}

/// The view of the counters that were read.
spec fn errors_view(errors: Result<Vec<NodeErrorCounters>, Error>) -> Result<
    Seq<CountersView>,
    ErrorView,
> {
    match errors {
        Ok(found) => Ok(list::views(found@)),
        Err(error) => Err(error@),
    }
}

/// Reads every alias and orders what it finds.
fn read_errors<R: StatsReader>(questions: &mut Questions<R>, entries: &Vec<String>) -> (errors:
    Result<Vec<NodeErrorCounters>, Error>)
    requires
        forall|j: int|
            0 <= j < entries@.len() ==> alias_pair(#[trigger] text::texts(entries@)[j]) is Some,
    ensures
        exists|reads: Seq<Exchange>| #[trigger]
            questions::continues(*old(questions), *final(questions), reads) && told_aliases(
                reads,
                text::texts(entries@),
                errors_view(errors),
            ),
{
    let ghost asked = text::texts(entries@);
    let ghost mut reads: Seq<Exchange> = Seq::empty();
    let ghost mut found: Seq<Option<CountersView>> = Seq::empty();
    let mut errors: Vec<NodeErrorCounters> = Vec::new();
    let mut i: usize = 0;
    proof {
        questions::lemma_continues_none(*questions);
        assert(list::views(errors@) =~= present(found));
    }
    while i < entries.len()
        invariant
            i <= entries@.len(),
            asked == text::texts(entries@),
            forall|j: int| 0 <= j < asked.len() ==> alias_pair(#[trigger] asked[j]) is Some,
            reads.len() == i,
            questions::continues(*old(questions), *questions, reads),
            questions::reads_in_order(reads, asked),
            questions::readout(asked, reads, alias_item()) == Ok::<_, ErrorView>(found),
            list::views(errors@) == present(found),
        decreases entries@.len() - i,
    {
        let name = entries[i].as_str();
        let ghost middle = *questions;
        let ghost done = reads;
        let answer = questions.read(name);
        proof {
            let reading = error::outcome(answer);
            let exchange = Exchange::Read(name@, reading);
            assert(asked[i as int] == name@);
            questions::lemma_readout_push(asked, done, reading, alias_item());
            questions::lemma_continues(*old(questions), middle, *questions, done, seq![exchange]);
            reads = done.push(exchange);
            assert(done + seq![exchange] =~= reads);
        }
        match alias_counters(name, answer) {
            Ok(Some(counters)) => {
                proof {
                    let next = found.push(Some(counters@));
                    assert(next.drop_last() =~= found);
                    assert(list::views(errors@.push(counters)) =~= list::views(errors@).push(
                        counters@,
                    ));
                    assert(present(next) =~= present(found).push(counters@));
                    found = next;
                }
                errors.push(counters);
            },
            // The alias disappeared between the listing and the read; VPP's
            // client swallows the same `KeyError`.
            Ok(None) => {
                proof {
                    let next = found.push(None);
                    assert(next.drop_last() =~= found);
                    found = next;
                }
            },
            Err(error) => {
                return Err(error);
            },
        }
        i = i + 1;
    }
    Ok(order::sort(errors))
}

/// Splits `/err/<node>/<error>` into its two names; a name without both
/// segments is not a published alias and is skipped.
fn alias_parts(name: &str) -> (parts: Option<(&str, &str)>)
    ensures
        parts is Some <==> alias_pair(name@) is Some,
        parts matches Some(found) ==> Some((found.0@, found.1@)) == alias_pair(name@),
{
    let rest = match text::strip_prefix(name, "/err/") {
        Some(rest) => rest,
        None => {
            return None;
        },
    };
    let (node, error) = match text::split_once(rest, '/') {
        Some(parts) => parts,
        None => {
            return None;
        },
    };
    if node.unicode_len() > 0 && error.unicode_len() > 0 {
        Some((node, error))
    } else {
        None
    }
}

/// The directory names of the family, in directory order.
fn list_aliases(names: &Vec<String>) -> (aliases: Vec<String>)
    ensures
        list::views(aliases@) == text::texts(names@).filter(is_alias()),
{
    let ghost listed = text::texts(names@);
    let mut aliases: Vec<String> = Vec::new();
    let mut i: usize = 0;
    proof {
        reveal(Seq::filter);
        assert(list::views(aliases@) =~= listed.take(0).filter(is_alias()));
    }
    while i < names.len()
        invariant
            i <= names@.len(),
            listed == text::texts(names@),
            list::views(aliases@) == listed.take(i as int).filter(is_alias()),
        decreases names@.len() - i,
    {
        proof {
            reveal(Seq::filter);
            assert(listed.take(i + 1).drop_last() =~= listed.take(i as int));
        }
        let name = names[i].as_str();
        if text::strip_prefix(name, "/err/").is_some() {
            let alias = name.to_owned();
            assert(list::views(aliases@.push(alias)) =~= list::views(aliases@).push(alias@));
            aliases.push(alias);
        }
        i = i + 1;
    }
    assert(listed.take(i as int) =~= listed);
    aliases
}

/// The names that are published aliases.
fn keep_published(names: &Vec<String>) -> (aliases: Vec<String>)
    ensures
        text::texts(aliases@) == list::views(names@).filter(is_published()),
        forall|j: int|
            0 <= j < aliases@.len() ==> alias_pair(#[trigger] text::texts(aliases@)[j]) is Some,
{
    let ghost listed = list::views(names@);
    let mut aliases: Vec<String> = Vec::new();
    let mut i: usize = 0;
    proof {
        reveal(Seq::filter);
        assert(text::texts(aliases@) =~= listed.take(0).filter(is_published()));
    }
    while i < names.len()
        invariant
            i <= names@.len(),
            listed == list::views(names@),
            text::texts(aliases@) == listed.take(i as int).filter(is_published()),
            forall|j: int|
                0 <= j < aliases@.len() ==> alias_pair(#[trigger] text::texts(aliases@)[j]) is Some,
        decreases names@.len() - i,
    {
        proof {
            reveal(Seq::filter);
            assert(listed.take(i + 1).drop_last() =~= listed.take(i as int));
        }
        let name = names[i].as_str();
        if alias_parts(name).is_some() {
            let alias = name.to_owned();
            assert(text::texts(aliases@.push(alias)) =~= text::texts(aliases@).push(alias@));
            aliases.push(alias);
        }
        i = i + 1;
    }
    assert(listed.take(i as int) =~= listed);
    aliases
}

/// The counters that the reading of an alias gives.
pub fn alias_counters(name: &str, answer: Result<MetricValue, Error>) -> (counters: Result<
    Option<NodeErrorCounters>,
    Error,
>)
    requires
        alias_pair(name@) is Some,
    ensures
        match counters {
            Ok(Some(found)) => counters_of(name@, error::outcome(answer)) == Ok::<
                Option<CountersView>,
                ErrorView,
            >(Some(found@)),
            Ok(None) => counters_of(name@, error::outcome(answer)) == Ok::<
                Option<CountersView>,
                ErrorView,
            >(None),
            Err(error) => counters_of(name@, error::outcome(answer)) == Err::<
                Option<CountersView>,
                _,
            >(error@),
        },
{
    let value = match answer {
        Ok(value) => value,
        Err(Error::MetricNotFound { .. }) => {
            return Ok(None);
        },
        Err(error) => {
            return Err(error);
        },
    };
    let counts = match value {
        MetricValue::Simple(rows) => match row_counts(name, &rows) {
            Ok(counts) => counts,
            Err(error) => {
                return Err(error);
            },
        },
        other => {
            return Err(reader::unexpected_type(name, "counter_vector_simple", &other));
        },
    };
    match alias_parts(name) {
        Some((node, error)) => Ok(
            Some(NodeErrorCounters { node: node.to_owned(), error: error.to_owned(), counts }),
        ),
        None => {
            assert(false);
            Ok(None)
        },
    }
}

/// One alias's value: one cell per runtime thread, in thread order.
fn row_counts(name: &str, rows: &Vec<Vec<u64>>) -> (counts: Result<Vec<u64>, Error>)
    ensures
        error::outcome(counts) == counts_of(name@, protocol::rows_view(rows@)),
{
    let ghost all = protocol::rows_view(rows@);
    let mut counts: Vec<u64> = Vec::new();
    let mut i: usize = 0;
    while i < rows.len()
        invariant
            i <= rows@.len(),
            all == protocol::rows_view(rows@),
            counts@.len() == i,
            forall|j: int| 0 <= j < i ==> !(is_odd_row())(#[trigger] all[j]),
            forall|j: int| 0 <= j < i ==> #[trigger] counts@[j] == all[j][0],
        decreases rows@.len() - i,
    {
        if rows[i].len() != 1 {
            proof {
                list::lemma_first_where_is(all, is_odd_row(), i as int);
            }
            return Err(
                Error::UnexpectedColumnCount {
                    name: text::row_name(name, i),
                    expected: 1,
                    actual: rows[i].len(),
                },
            );
        }
        counts.push(rows[i][0]);
        i = i + 1;
    }
    proof {
        list::lemma_first_where(all, is_odd_row());
        assert(counts@ =~= Seq::new(all.len(), |row: int| all[row][0]));
    }
    Ok(counts)
}

/// The order of `(node, error)` pairs ranks the counters, so a report is in
/// order.
pub proof fn law_errors_in_order(found: Seq<Option<CountersView>>)
    ensures
        order::is_ranking(order::rank::<NodeErrorCounters>()),
        order::is_ordered(
            error_report(Ok(found))->Ok_0,
            order::rank::<NodeErrorCounters>(),
        ),
        error_report(Ok(found))->Ok_0.to_multiset() =~= present(found).to_multiset(),
{
    let before = order::rank::<NodeErrorCounters>();
    assert forall|a: CountersView, b: CountersView| #[trigger] before(a, b) implies !before(
        b,
        a,
    ) by {
        lemma_text_asymmetric(a.node, b.node);
        lemma_text_asymmetric(a.error, b.error);
    }
    assert forall|a: CountersView, b: CountersView, c: CountersView|
        #![trigger before(a, b), before(b, c)]
        !before(a, b) && !before(b, c) implies !before(a, c) by {
        lemma_text_negative(a.node, b.node, c.node);
        lemma_text_negative(a.error, b.error, c.error);
        text::lemma_text_before_total(a.node, b.node);
        text::lemma_text_before_total(b.node, c.node);
        lemma_text_asymmetric(a.node, b.node);
        if text::text_before(b.node, a.node) && text::text_before(a.node, c.node) {
            text::lemma_text_before_transitive(b.node, a.node, c.node);
        }
        if text::text_before(c.node, b.node) && text::text_before(b.node, a.node) {
            text::lemma_text_before_transitive(c.node, b.node, a.node);
        }
        lemma_text_asymmetric(a.node, c.node);
        text::lemma_text_before_irreflexive(a.node);
    }
    order::law_in_order(present(found), before);
}

proof fn lemma_text_asymmetric(left: Seq<char>, right: Seq<char>)
    ensures
        text::text_before(left, right) ==> !text::text_before(right, left),
{
    if text::text_before(left, right) && text::text_before(right, left) {
        text::lemma_text_before_transitive(left, right, left);
        text::lemma_text_before_irreflexive(left);
    }
}

proof fn lemma_text_negative(a: Seq<char>, b: Seq<char>, c: Seq<char>)
    ensures
        !text::text_before(a, b) && !text::text_before(b, c) ==> !text::text_before(a, c),
{
    if text::text_before(a, c) && !text::text_before(a, b) {
        text::lemma_text_before_total(b, a);
        if b != a {
            text::lemma_text_before_transitive(b, a, c);
        }
    }
}

/// A family is absent exactly when no listed name starts with its prefix, and
/// then nothing is read.
pub proof fn law_absent_family(history: Seq<Exchange>, listed: Seq<Seq<char>>)
    requires
        history.len() > 0,
        history[0] == Exchange::Listed(Ok(listed)),
    ensures
        told(history, Ok(None)) <==> history.len() == 1 && forall|i: int|
            0 <= i < listed.len() ==> text::after_prefix(#[trigger] listed[i], "/err/"@) is None,
{
    let wanted = is_alias();
    let aliases = listed.filter(wanted);
    assert forall|i: int|
        0 <= i < listed.len() && wanted(#[trigger] listed[i]) implies aliases.len() > 0 by {
        listed.lemma_filter_contains(wanted, i);
    }
    if aliases.len() > 0 {
        listed.lemma_filter_pred(wanted, 0);
        listed.lemma_filter_contains_rev(wanted, aliases[0]);
        let i = choose|i: int| 0 <= i < listed.len() && listed[i] == aliases[0];
        assert(text::after_prefix(listed[i], "/err/"@) is Some);
    } else {
        assert forall|i: int| 0 <= i < listed.len() implies text::after_prefix(
            #[trigger] listed[i],
            "/err/"@,
        ) is None by {
            assert(!wanted(listed[i]));
        }
    }
}

/// A node and an error that are not empty, the node without a slash, are the
/// pair of their alias.
pub proof fn law_alias_pair(node: Seq<char>, error: Seq<char>)
    requires
        node.len() > 0,
        !node.contains('/'),
        error.len() > 0,
    ensures
        alias_pair("/err/"@ + node + seq!['/'] + error) == Some((node, error)),
{
    let name = "/err/"@ + node + seq!['/'] + error;
    let lead = "/err/"@.len() as int;
    assert(name.subrange(0, lead) =~= "/err/"@);
    let rest = name.skip(lead);
    rest.index_of_first_ensures('/');
    assert(rest[node.len() as int] == '/');
    assert(rest.contains('/'));
    let at = rest.index_of_first('/')->Some_0;
    if at < node.len() {
        assert(node[at] == '/');
        assert(node.contains('/'));
    }
    assert(at == node.len());
    assert(rest.take(at) =~= node);
    assert(rest.skip(at + 1) =~= error);
}

/// The rows that give the counts: one cell in each.
pub open spec fn one_cell_rows(counts: Seq<u64>) -> Seq<Seq<u64>> {
    Seq::new(counts.len(), |i: int| seq![counts[i]])
}

/// Every error of a report has the counts that were read from its own alias, one
/// from each row and in the order of the rows.
pub proof fn law_counts_are_read_from_their_aliases(
    history: Seq<Exchange>,
    report: &NodeErrorStats,
    at: int,
)
    requires
        told(history, Ok(Some(report@))),
        0 <= at < report.errors@.len(),
    ensures
        history.contains(
            Exchange::Read(
                "/err/"@ + report.errors@[at].node@ + seq!['/'] + report.errors@[at].error@,
                Ok(MetricView::Simple(one_cell_rows(report.errors@[at].counts@))),
            ),
        ),
        report.errors@[at].node@.len() > 0,
        report.errors@[at].error@.len() > 0,
        !report.errors@[at].node@.contains('/'),
{
    let errors = report@;
    assert(errors[at] == report.errors@[at]@);
    let listed = history[0]->Listed_0->Ok_0;
    let asked = alias_entries(listed);
    let reads = history.skip(1);
    let item = alias_item();
    let step = |i: int| item(asked[i], reads[i]->Read_1);
    let found = alias_values(asked, reads)->Ok_0;
    let before = order::rank::<NodeErrorCounters>();
    let counters = errors[at];
    list::lemma_collected_ok(reads.len(), step);
    law_errors_in_order(found);
    assert(errors.contains(counters));
    order::law_in_order_keeps_items(present(found), before, counters);
    found.lemma_filter_map_contains(|counters: Option<CountersView>| counters, counters);
    let i = choose|i: int| 0 <= i < found.len() && found[i] == Some(counters);
    assert(step(i) == Ok::<_, ErrorView>(found[i]));
    assert(reads[i] is Read);
    assert(history[1 + i] == reads[i]);
    let name = asked[i];
    lemma_asked_is_published(listed, i);
    let rows = reads[i]->Read_1->Ok_0->Simple_0;
    list::lemma_first_where(rows, is_odd_row());
    let laid = one_cell_rows(counters.counts);
    assert forall|row: int| 0 <= row < rows.len() implies rows[row] == #[trigger] laid[row] by {
        assert(!is_odd_row()(rows[row]));
        assert(rows[row] =~= laid[row]);
    }
    assert(rows =~= laid);
    let rest = text::after_prefix(name, "/err/"@)->Some_0;
    text::law_prefix(name, "/err/"@, rest);
    text::law_split(rest, '/', counters.node, counters.error);
    assert("/err/"@ + (counters.node + seq!['/'] + counters.error) =~= "/err/"@ + counters.node
        + seq!['/'] + counters.error);
}

proof fn lemma_asked_is_published(listed: Seq<Seq<char>>, at: int)
    requires
        0 <= at < alias_entries(listed).len(),
    ensures
        alias_pair(alias_entries(listed)[at]) is Some,
{
    let sorted = order::in_order(listed.filter(is_alias()), order::rank::<String>());
    sorted.lemma_filter_pred(is_published(), at);
}

/// A row of an alias that has other than one cell is refused by its place, and
/// rows of one cell each give their cells.
pub proof fn law_rows_of_one_cell(name: Seq<char>, counts: Seq<u64>, rows: Seq<Seq<u64>>, row: int)
    ensures
        counts_of(name, one_cell_rows(counts)) == Ok::<_, ErrorView>(counts),
        0 <= row < rows.len() && rows[row].len() != 1 && (forall|i: int|
            0 <= i < row ==> (#[trigger] rows[i]).len() == 1) ==> counts_of(name, rows) == Err::<
            Seq<u64>,
            _,
        >(
            (ErrorView::UnexpectedColumnCount {
                name: name + " row "@ + text::decimal(row as nat),
                expected: 1,
                actual: rows[row].len() as int,
            }),
        ),
{
    let laid = one_cell_rows(counts);
    list::lemma_first_where(laid, is_odd_row());
    if list::first_where(laid, is_odd_row()) is Some {
        assert(is_odd_row()(laid[list::first_where(laid, is_odd_row())->Some_0]));
    }
    assert(counts_of(name, laid)->Ok_0 =~= counts);
    if 0 <= row < rows.len() && rows[row].len() != 1 && (forall|i: int|
        0 <= i < row ==> (#[trigger] rows[i]).len() == 1) {
        list::lemma_first_where_is(rows, is_odd_row(), row);
    }
}

/// An alias that vanished since the listing is left out, and any other failure is
/// the failure of the report.
pub proof fn law_vanished_aliases(name: Seq<char>, error: ErrorView)
    ensures
        error is MetricNotFound ==> counters_of(name, Err(error)) == Ok::<_, ErrorView>(
            None::<CountersView>,
        ),
        !(error is MetricNotFound) ==> counters_of(name, Err(error)) == Err::<
            Option<CountersView>,
            _,
        >(error),
{
}

/// The total of two lists of counts is the sum of their totals, and that of one
/// count is the count.
pub proof fn law_totals_add_up(left: Seq<u64>, right: Seq<u64>, count: u64)
    ensures
        total_of(left + right) == total_of(left) + total_of(right),
        total_of(seq![count]) == count,
    decreases right.len(),
{
    reveal_with_fuel(total_of, 2);
    assert(seq![count].drop_last() =~= Seq::empty());
    if right.len() == 0 {
        assert(left + right =~= left);
    } else {
        law_totals_add_up(left, right.drop_last(), count);
        assert((left + right).drop_last() =~= left + right.drop_last());
        assert((left + right).last() == right.last());
    }
}

/// The grand total of two lists of errors is the sum of their grand totals, and
/// that of one error is the total of its counts.
pub proof fn law_grand_totals_add_up(
    left: Seq<CountersView>,
    right: Seq<CountersView>,
    counters: CountersView,
)
    ensures
        grand_total(left + right) == grand_total(left) + grand_total(right),
        grand_total(seq![counters]) == total_of(counters.counts),
    decreases right.len(),
{
    reveal_with_fuel(grand_total, 2);
    assert(seq![counters].drop_last() =~= Seq::empty());
    if right.len() == 0 {
        assert(left + right =~= left);
    } else {
        law_grand_totals_add_up(left, right.drop_last(), counters);
        assert((left + right).drop_last() =~= left + right.drop_last());
        assert((left + right).last() == right.last());
    }
}

/// Counters that are looked up belong to the pair, and a pair without counters is
/// that of no error.
pub proof fn law_error_lookup(
    report: &NodeErrorStats,
    node: &str,
    error: &str,
    found: Option<&NodeErrorCounters>,
)
    requires
        call_ensures(NodeErrorStats::error, (report, node, error), found),
    ensures
        found is None ==> forall|i: int|
            0 <= i < report.errors@.len() ==> (#[trigger] report.errors@[i]).node@ != node@
                || report.errors@[i].error@ != error@,
        found matches Some(counters) ==> counters.node@ == node@ && counters.error@ == error@
            && report.errors@.contains(*counters),
{
    let wanted = is_pair(node@, error@);
    list::lemma_first_where(report@, wanted);
    match list::first_where(report@, wanted) {
        Some(at) => {
            assert(wanted(report@[at]));
            assert(report@[at] == report.errors@[at]@);
        },
        None => {
            assert forall|i: int| 0 <= i < report.errors@.len() implies (
            #[trigger] report.errors@[i]).node@ != node@ || report.errors@[i].error@
                != error@ by {
                assert(report@[i] == report.errors@[i]@);
                assert(!wanted(report@[i]));
            }
        },
    }
}

/// The errors of a node are all of the report's that belong to it, and no others.
pub proof fn law_errors_of_a_node(
    report: &NodeErrorStats,
    name: &str,
    found: Vec<&NodeErrorCounters>,
    counters: CountersView,
)
    requires
        call_ensures(NodeErrorStats::node, (report, name), found),
    ensures
        list::views(found@).contains(counters) <==> counters.node == name@ && report@.contains(
            counters,
        ),
{
    let wanted = is_of_node(name@);
    let kept = report@.filter(wanted);
    if kept.contains(counters) {
        let i = choose|i: int| 0 <= i < kept.len() && kept[i] == counters;
        report@.lemma_filter_pred(wanted, i);
        report@.lemma_filter_contains_rev(wanted, counters);
    }
    if counters.node == name@ && report@.contains(counters) {
        let i = choose|i: int| 0 <= i < report@.len() && report@[i] == counters;
        report@.lemma_filter_contains(wanted, i);
    }
}

/// Every listed alias with a node and an error is read, the aliases in the order
/// of their names, and nothing else is.
pub proof fn law_every_alias_is_read(
    history: Seq<Exchange>,
    listed: Seq<Seq<char>>,
    errors: Seq<CountersView>,
    name: Seq<char>,
)
    requires
        told(history, Ok(Some(errors))),
        history[0] == Exchange::Listed(Ok(listed)),
    ensures
        (exists|i: int|
            1 <= i < history.len() && (#[trigger] history[i]) is Read && history[i]->Read_0 == name)
            <==> listed.contains(name) && alias_pair(name) is Some,
        forall|i: int, j: int|
            1 <= i < j < history.len() ==> !text::text_before(
                (#[trigger] history[j])->Read_0,
                (#[trigger] history[i])->Read_0,
            ),
{
    let asked = alias_entries(listed);
    let reads = history.skip(1);
    let aliases = listed.filter(is_alias());
    let rank = order::rank::<String>();
    let sorted = order::in_order(aliases, rank);
    order::lemma_text_ranking();
    assert(rank =~= (|left: Seq<char>, right: Seq<char>| text::text_before(left, right)));
    order::law_in_order_keeps_items(aliases, rank, name);
    assert forall|i: int| 0 <= i < reads.len() implies #[trigger] reads[i] == history[1 + i] by {
    }
    order::law_in_order(aliases, rank);
    order::lemma_filter_keeps_order(sorted, rank, is_published());
    assert forall|i: int, j: int| 1 <= i < j < history.len() implies !text::text_before(
        (#[trigger] history[j])->Read_0,
        (#[trigger] history[i])->Read_0,
    ) by {
        assert(reads[i - 1] == history[i] && reads[j - 1] == history[j]);
        assert(!rank(asked[j - 1], asked[i - 1]));
    }
    if exists|i: int|
        1 <= i < history.len() && (#[trigger] history[i]) is Read && history[i]->Read_0 == name {
        let i = choose|i: int|
            1 <= i < history.len() && (#[trigger] history[i]) is Read && history[i]->Read_0
                == name;
        assert(reads[i - 1] == history[i]);
        assert(asked[i - 1] == name);
        sorted.lemma_filter_pred(is_published(), i - 1);
        sorted.lemma_filter_contains_rev(is_published(), name);
        listed.lemma_filter_contains_rev(is_alias(), name);
    }
    if listed.contains(name) && alias_pair(name) is Some {
        let j = choose|j: int| 0 <= j < listed.len() && listed[j] == name;
        listed.lemma_filter_contains(is_alias(), j);
        let k = choose|k: int| 0 <= k < sorted.len() && sorted[k] == name;
        sorted.lemma_filter_contains(is_published(), k);
        let i = choose|i: int| 0 <= i < asked.len() && asked[i] == name;
        assert(reads[i] is Read);
        assert(history[1 + i] == reads[i]);
    }
}

/// A reading of the wrong kind is refused by its alias.
pub proof fn law_refused_readings(name: Seq<char>, value: MetricView)
    requires
        !(value is Simple),
    ensures
        counters_of(name, Ok(value)) == Err::<Option<CountersView>, _>(
            (ErrorView::UnexpectedMetricType {
                name,
                expected: "counter_vector_simple"@,
                actual: reader::kind_text(value),
            }),
        ),
{
}

/// The errors of a report are in the order of their nodes, and those of one node
/// in the order of their own names.
pub proof fn law_errors_in_name_order(
    history: Seq<Exchange>,
    report: &NodeErrorStats,
    i: int,
    j: int,
)
    requires
        told(history, Ok(Some(report@))),
        0 <= i < j < report.errors@.len(),
    ensures
        ({
            let first = report.errors@[i];
            let second = report.errors@[j];
            &&& first.node@ == second.node@ || text::text_before(first.node@, second.node@)
            &&& first.node@ == second.node@ ==> first.error@ == second.error@
                || text::text_before(first.error@, second.error@)
        }),
{
    let listed = history[0]->Listed_0->Ok_0;
    let found = alias_values(alias_entries(listed), history.skip(1))->Ok_0;
    law_errors_in_order(found);
    let errors = report@;
    assert(errors[i] == report.errors@[i]@ && errors[j] == report.errors@[j]@);
    assert(!order::rank::<NodeErrorCounters>()(errors[j], errors[i]));
    text::lemma_text_before_total(errors[i].node, errors[j].node);
    text::lemma_text_before_total(errors[i].error, errors[j].error);
}

/// A listing that fails is the failure of the report, and nothing is read then.
pub proof fn law_failed_listing(
    history: Seq<Exchange>,
    error: ErrorView,
    result: Result<Option<Seq<CountersView>>, ErrorView>,
)
    requires
        history.len() > 0,
        history[0] == Exchange::Listed(Err(error)),
        told(history, result),
    ensures
        history.len() == 1,
        result == Err::<Option<Seq<CountersView>>, _>(error),
{
}

} // verus!
