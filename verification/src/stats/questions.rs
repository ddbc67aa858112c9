//! Questions to a reader, and what a report makes of their answers.

use crate::list;
use crate::stats::error;
use crate::stats::error::{Error, ErrorView};
use crate::stats::protocol::MetricValue;
use crate::stats::reader;
use crate::stats::reader::{Reading, StatsReader};
use vstd::prelude::*;

verus! {

/// One question to a reader, with its answer.
pub enum Exchange {
    /// The names were listed.
    Listed(Result<Seq<Seq<char>>, ErrorView>),
    /// A name was read.
    Read(Seq<char>, Reading),
}

/// Whether the exchange is one that the reader may have taken part in.
pub open spec fn answered<R: StatsReader>(reader: &R, exchange: Exchange) -> bool {
    match exchange {
        Exchange::Listed(names) => reader::lists(reader, names),
        Exchange::Read(name, reading) => reader::reads(reader, name, reading),
    }
}

/// A reader together with every question it was asked, in order.
///
/// The only way to the reader is [`Questions::names`] and [`Questions::read`],
/// which record the question and its answer, so whoever is given the questions
/// alone can neither ask unrecorded nor record what was not asked.
pub struct Questions<'a, R> {
    reader: &'a R,
    asked: Ghost<Seq<Exchange>>,
}

/// Whether the questions `after` are the questions `before` and then `history`.
pub open spec fn continues<R: StatsReader>(
    before: Questions<R>,
    after: Questions<R>,
    history: Seq<Exchange>,
) -> bool {
    &&& after.over() == before.over()
    &&& after.asked() == before.asked() + history
    &&& forall|i: int| 0 <= i < history.len() ==> answered(&before.over(), #[trigger] history[i])
}

/// Whether the questions of `history` may be all that one [`Questions`] asks the
/// reader, and be answered so.
pub open spec fn may_ask<R: StatsReader>(reader: &R, history: Seq<Exchange>) -> bool {
    &&& exists|questions: Questions<R>| #[trigger]
        questions.over() == *reader && questions.asked() == history
    &&& forall|i: int| 0 <= i < history.len() ==> answered(reader, #[trigger] history[i])
}

impl<'a, R: StatsReader> Questions<'a, R> {
    /// The reader that is asked.
    pub closed spec fn over(&self) -> R {
        *self.reader
    }

    /// The questions that were asked, the first one first.
    pub closed spec fn asked(&self) -> Seq<Exchange> {
        self.asked@
    }

    /// A reader that was asked nothing yet.
    pub fn new(reader: &'a R) -> (questions: Self)
        ensures
            questions.over() == *reader,
            questions.asked() == Seq::<Exchange>::empty(),
    {
        Questions { reader, asked: Ghost(Seq::empty()) }
    }

    /// Lists the names.
    pub fn names(&mut self) -> (names: Result<Vec<String>, Error>)
        ensures
            continues(*old(self), *final(self), seq![Exchange::Listed(error::listing(names))]),
    {
        let names = self.reader.names();
        let ghost exchange = Exchange::Listed(error::listing(names));
        assert(answered(self.reader, exchange));
        self.asked = Ghost(self.asked@ + seq![exchange]);
        names
    }

    /// Reads one name.
    pub fn read(&mut self, name: &str) -> (value: Result<MetricValue, Error>)
        ensures
            continues(
                *old(self),
                *final(self),
                seq![Exchange::Read(name@, error::outcome(value))],
            ),
    {
        let value = self.reader.read(name);
        let ghost exchange = Exchange::Read(name@, error::outcome(value));
        assert(answered(self.reader, exchange));
        self.asked = Ghost(self.asked@ + seq![exchange]);
        value
    }
}

/// Nothing was asked between questions and themselves.
pub proof fn lemma_continues_none<R: StatsReader>(questions: Questions<R>)
    ensures
        continues(questions, questions, Seq::empty()),
{
    assert(questions.asked() + Seq::empty() =~= questions.asked());
}

/// What was asked in two steps was asked in one.
pub proof fn lemma_continues<R: StatsReader>(
    before: Questions<R>,
    middle: Questions<R>,
    after: Questions<R>,
    first: Seq<Exchange>,
    second: Seq<Exchange>,
)
    requires
        continues(before, middle, first),
        continues(middle, after, second),
    ensures
        continues(before, after, first + second),
{
    let both = first + second;
    assert(before.asked() + both =~= (before.asked() + first) + second);
    assert forall|i: int| 0 <= i < both.len() implies answered(
        &before.over(),
        #[trigger] both[i],
    ) by {
        if i < first.len() {
            assert(both[i] == first[i]);
        } else {
            assert(both[i] == second[i - first.len()]);
        }
    }
}

/// One more question is asked behind those that were asked.
pub proof fn lemma_one_more<R: StatsReader>(
    before: Questions<R>,
    middle: Questions<R>,
    after: Questions<R>,
    history: Seq<Exchange>,
    exchange: Exchange,
)
    requires
        continues(before, middle, history),
        continues(middle, after, seq![exchange]),
    ensures
        continues(before, after, history.push(exchange)),
        history.push(exchange).drop_last() == history,
{
    lemma_continues(before, middle, after, history, seq![exchange]);
    assert(history + seq![exchange] =~= history.push(exchange));
    assert(history.push(exchange).drop_last() =~= history);
}

/// Questions that begin with none are all that the reader was asked.
pub proof fn lemma_may_ask<R: StatsReader>(
    before: Questions<R>,
    after: Questions<R>,
    history: Seq<Exchange>,
)
    requires
        before.asked() == Seq::<Exchange>::empty(),
        continues(before, after, history),
    ensures
        may_ask(&before.over(), history),
{
    assert(after.asked() =~= history);
}

/// Whether two exchanges agree: the same question has the same answer.
pub open spec fn agree(left: Exchange, right: Exchange) -> bool {
    match (left, right) {
        (Exchange::Listed(a), Exchange::Listed(b)) => a == b,
        (Exchange::Read(name, a), Exchange::Read(other, b)) => name == other ==> a == b,
        _ => true,
    }
}

/// Whether no question has one answer in `left` and another in `right`.
pub open spec fn agreeing(left: Seq<Exchange>, right: Seq<Exchange>) -> bool {
    forall|i: int, j: int|
        0 <= i < left.len() && 0 <= j < right.len() ==> agree(
            #[trigger] left[i],
            #[trigger] right[j],
        )
}

/// Whether a history is reads of the first of the names `asked`, in order.
pub open spec fn reads_in_order(history: Seq<Exchange>, asked: Seq<Seq<char>>) -> bool {
    &&& history.len() <= asked.len()
    &&& forall|i: int|
        0 <= i < history.len() ==> (#[trigger] history[i]) is Read && history[i]->Read_0
            == asked[i]
}

/// What the reads of a history gave.
pub open spec fn readings(history: Seq<Exchange>) -> Seq<Reading> {
    Seq::new(history.len(), |i: int| history[i]->Read_1)
}

/// What a pass of reads makes of the readings: `item` of every name and its
/// reading, or the first failure among them.
pub open spec fn readout<T>(
    asked: Seq<Seq<char>>,
    history: Seq<Exchange>,
    item: spec_fn(Seq<char>, Reading) -> Result<T, ErrorView>,
) -> Result<Seq<T>, ErrorView> {
    list::collected(history.len(), |i: int| item(asked[i], history[i]->Read_1))
}

/// Whether a history is a pass that ends in `result`: every name `asked` is read
/// once, in order and up to the first failure, and nothing else is asked.
pub open spec fn passes<T>(
    history: Seq<Exchange>,
    asked: Seq<Seq<char>>,
    item: spec_fn(Seq<char>, Reading) -> Result<T, ErrorView>,
    result: Result<Seq<T>, ErrorView>,
) -> bool {
    &&& reads_in_order(history, asked)
    &&& result == readout(asked, history, item)
    &&& result is Ok ==> history.len() == asked.len()
    &&& result is Err ==> history.len() > 0 && readout(asked, history.drop_last(), item) is Ok
}

/// One more read adds its item, or is the failure of the pass.
pub proof fn lemma_readout_push<T>(
    asked: Seq<Seq<char>>,
    history: Seq<Exchange>,
    reading: Reading,
    item: spec_fn(Seq<char>, Reading) -> Result<T, ErrorView>,
)
    requires
        history.len() < asked.len(),
        reads_in_order(history, asked),
    ensures
        ({
            let more = history.push(Exchange::Read(asked[history.len() as int], reading));
            &&& reads_in_order(more, asked)
            &&& more.drop_last() == history
            &&& readout(asked, more, item) == (match readout(asked, history, item) {
                Err(error) => Err(error),
                Ok(done) => match item(asked[history.len() as int], reading) {
                    Err(error) => Err(error),
                    Ok(value) => Ok(done.push(value)),
                },
            })
        }),
{
    let count = history.len();
    let more = history.push(Exchange::Read(asked[count as int], reading));
    let left = |i: int| item(asked[i], more[i]->Read_1);
    let right = |i: int| item(asked[i], history[i]->Read_1);
    assert forall|i: int| 0 <= i < count implies #[trigger] left(i) == right(i) by {
        assert(more[i] == history[i]);
    }
    list::lemma_collected_agree(count, left, right);
    assert(left(count as int) == item(asked[count as int], reading));
    assert(more.drop_last() =~= history);
}

/// Two passes over the same names that agree are the same.
pub proof fn lemma_one_pass<T>(
    first: Seq<Exchange>,
    second: Seq<Exchange>,
    asked: Seq<Seq<char>>,
    item: spec_fn(Seq<char>, Reading) -> Result<T, ErrorView>,
    left: Result<Seq<T>, ErrorView>,
    right: Result<Seq<T>, ErrorView>,
)
    requires
        passes(first, asked, item, left),
        passes(second, asked, item, right),
        agreeing(first, second),
    ensures
        first == second,
        left == right,
{
    assert forall|i: int| 0 <= i < first.len() && i < second.len() implies #[trigger] first[i]
        == second[i] by {
        assert(agree(first[i], second[i]));
    }
    if first.len() <= second.len() {
        lemma_pass_stops(first, second, asked, item, left, right);
    } else {
        lemma_pass_stops(second, first, asked, item, right, left);
    }
    assert(first =~= second);
}

/// A pass does not go on where another one has stopped.
proof fn lemma_pass_stops<T>(
    short: Seq<Exchange>,
    long: Seq<Exchange>,
    asked: Seq<Seq<char>>,
    item: spec_fn(Seq<char>, Reading) -> Result<T, ErrorView>,
    left: Result<Seq<T>, ErrorView>,
    right: Result<Seq<T>, ErrorView>,
)
    requires
        short.len() <= long.len(),
        passes(short, asked, item, left),
        passes(long, asked, item, right),
        forall|i: int| 0 <= i < short.len() ==> #[trigger] short[i] == long[i],
    ensures
        short.len() == long.len(),
{
    if short.len() < long.len() {
        let lead = long.drop_last();
        let a = |i: int| item(asked[i], short[i]->Read_1);
        let b = |i: int| item(asked[i], lead[i]->Read_1);
        let c = |i: int| item(asked[i], long[i]->Read_1);
        assert forall|i: int| 0 <= i < short.len() implies #[trigger] a(i) == b(i) by {
            assert(short[i] == long[i]);
            assert(lead[i] == long[i]);
        }
        list::lemma_collected_agree(short.len(), a, b);
        list::lemma_collected_error(short.len(), lead.len(), b);
        assert forall|i: int| 0 <= i < lead.len() implies #[trigger] b(i) == c(i) by {
            assert(lead[i] == long[i]);
        }
        list::lemma_collected_agree(lead.len(), b, c);
    }
}

/// Whether a history is a script that ends in `result`: the names `asked` are
/// read in order, as far as `made` needs them, and nothing else is asked.
/// `made` gives `None` as long as it needs the next reading.
pub open spec fn scripted<T>(
    history: Seq<Exchange>,
    asked: Seq<Seq<char>>,
    made: spec_fn(Seq<Reading>) -> Option<Result<T, ErrorView>>,
    result: Result<T, ErrorView>,
) -> bool {
    &&& reads_in_order(history, asked)
    &&& made(readings(history)) == Some(result)
    &&& forall|count: int|
        0 <= count < history.len() ==> made(#[trigger] readings(history).take(count)) is None
}

/// Whether a script that needs one more reading has needed more all along.
pub open spec fn patient<T>(made: spec_fn(Seq<Reading>) -> Option<Result<T, ErrorView>>) -> bool {
    forall|readings: Seq<Reading>, count: int|
        0 <= count <= readings.len() && made(readings) is None ==> made(
            #[trigger] readings.take(count),
        ) is None
}

/// Reads that decide a script, the last of them not in vain, end it.
pub proof fn lemma_scripted<T>(
    history: Seq<Exchange>,
    asked: Seq<Seq<char>>,
    made: spec_fn(Seq<Reading>) -> Option<Result<T, ErrorView>>,
    result: Result<T, ErrorView>,
)
    requires
        patient(made),
        history.len() > 0,
        reads_in_order(history, asked),
        made(readings(history)) == Some(result),
        made(readings(history.drop_last())) is None,
    ensures
        scripted(history, asked, made, result),
{
    let all = readings(history);
    let lead = readings(history.drop_last());
    assert forall|count: int| 0 <= count < history.len() implies made(
        #[trigger] all.take(count),
    ) is None by {
        assert(all.take(count) =~= lead.take(count));
    }
}

/// Two scripts over the same names that agree are the same.
pub proof fn lemma_one_script<T>(
    first: Seq<Exchange>,
    second: Seq<Exchange>,
    asked: Seq<Seq<char>>,
    made: spec_fn(Seq<Reading>) -> Option<Result<T, ErrorView>>,
    left: Result<T, ErrorView>,
    right: Result<T, ErrorView>,
)
    requires
        scripted(first, asked, made, left),
        scripted(second, asked, made, right),
        agreeing(first, second),
    ensures
        first == second,
        left == right,
{
    assert forall|i: int| 0 <= i < first.len() && i < second.len() implies #[trigger] first[i]
        == second[i] by {
        assert(agree(first[i], second[i]));
    }
    if first.len() < second.len() {
        assert(readings(second).take(first.len() as int) =~= readings(first));
    }
    if second.len() < first.len() {
        assert(readings(first).take(second.len() as int) =~= readings(second));
    }
    assert(first =~= second);
}

/// Histories that one steady reader answered agree.
pub proof fn lemma_steady_histories<R: StatsReader>(
    reader: &R,
    first: Seq<Exchange>,
    second: Seq<Exchange>,
)
    requires
        reader::steady(reader),
        may_ask(reader, first),
        may_ask(reader, second),
    ensures
        agreeing(first, second),
{
    assert forall|i: int, j: int| 0 <= i < first.len() && 0 <= j < second.len() implies agree(
        #[trigger] first[i],
        #[trigger] second[j],
    ) by {
        assert(answered(reader, first[i]));
        assert(answered(reader, second[j]));
    }
}

/// Histories that agree agree behind their first exchange too.
pub proof fn lemma_agreeing_rest(first: Seq<Exchange>, second: Seq<Exchange>)
    requires
        agreeing(first, second),
        first.len() > 0,
        second.len() > 0,
    ensures
        agree(first[0], second[0]),
        agreeing(first.skip(1), second.skip(1)),
{
    assert forall|i: int, j: int|
        0 <= i < first.skip(1).len() && 0 <= j < second.skip(1).len() implies agree(
        #[trigger] first.skip(1)[i],
        #[trigger] second.skip(1)[j],
    ) by {
        assert(agree(first[i + 1], second[j + 1]));
    }
}

} // verus!
