//! Read-only stats segment client: raw reads of a segment that its publisher
//! may rewrite at any moment.
//!
//! The client knows the segment layout and nothing about any metric family: it
//! lists directory names and returns raw [`MetricValue`]s. Family projections
//! live in their own provider modules.

use crate::bytes;
use crate::stats::directory;
use crate::stats::error;
use crate::stats::error::{Error, ErrorView};
use crate::stats::looks;
use crate::stats::looks::{Looks, SegmentMapping};
use crate::stats::protocol;
use crate::stats::protocol::{
    HeaderView, MetricValue, MetricView, ProtocolErrorView, PublishedVector, SharedHeader,
    DIRECTORY_ENTRY_BYTES,
};
use crate::stats::provider;
use crate::stats::provider::StatsProvider;
use crate::stats::reader;
use crate::stats::reader::{Reading, StatsReader};
use crate::text;
use vstd::prelude::*;

verus! {

/// Directory re-reads allowed while writers keep publishing epochs.
pub const RETRY_LIMIT: usize = 16;

/// Seconds a connection waits for the descriptor handoff.
pub const HANDOFF_TIMEOUT_SECONDS: u64 = 10;

/// A question to the published directory.
pub enum Query<'a> {
    /// Every directory name.
    Names,
    /// The value of one name.
    Value(&'a str),
}

/// The view of a [`Query`].
pub enum QueryView {
    Names,
    Value(Seq<char>),
}

impl<'a> View for Query<'a> {
    type V = QueryView;

    open spec fn view(&self) -> QueryView {
        match *self {
            Query::Names => QueryView::Names,
            Query::Value(name) => QueryView::Value(name@),
        }
    }
}

/// The answer to a [`Query`].
pub enum Answer {
    Names(Vec<String>),
    Value(MetricValue),
}

/// The view of an [`Answer`].
pub enum AnswerView {
    Names(Seq<Seq<char>>),
    Value(MetricView),
}

impl View for Answer {
    type V = AnswerView;

    open spec fn view(&self) -> AnswerView {
        match *self {
            Answer::Names(names) => AnswerView::Names(text::texts(names@)),
            Answer::Value(value) => AnswerView::Value(value@),
        }
    }
}

/// A header of the supported version at the front of the mapping.
pub open spec fn checked_header(image: Seq<u8>) -> Result<HeaderView, ErrorView> {
    match protocol::header_of(image) {
        Err(source) => Err(ErrorView::Protocol { source }),
        Ok(header) => match protocol::version_check(header) {
            Err(source) => Err(ErrorView::Protocol { source }),
            Ok(_) => Ok(header),
        },
    }
}

/// What the directory that `header` names answers in one image of the segment.
pub open spec fn answer_in(image: Seq<u8>, header: HeaderView, query: QueryView) -> Result<
    AnswerView,
    ErrorView,
> {
    match protocol::resolved(
        image,
        header.base,
        header.directory_vector,
        DIRECTORY_ENTRY_BYTES as nat,
    ) {
        Err(source) => Err(ErrorView::Protocol { source }),
        Ok(found) => match query {
            QueryView::Names => match directory::directory_names(found, image) {
                Err(source) => Err(ErrorView::Protocol { source }),
                Ok(names) => Ok(AnswerView::Names(names)),
            },
            QueryView::Value(name) => match directory::named_value(
                image,
                header.base,
                found,
                name,
            ) {
                Err(error) => Err(error),
                Ok(value) => Ok(AnswerView::Value(value)),
            },
        },
    }
}

/// Whether a header names a directory that nobody is writing.
pub open spec fn settled(header: HeaderView) -> bool {
    header.in_progress == 0
}

/// What a second look says about the directory that `header` names: whether it
/// is still the published one, that is nobody writes it and the epoch is the
/// same.
pub open spec fn still_published(header: HeaderView, end: Seq<u8>) -> Result<bool, ErrorView> {
    match checked_header(end) {
        Err(error) => Err(error),
        Ok(last) => Ok(settled(last) && last.epoch == header.epoch),
    }
}

/// A result that is reached with exactly `count` looks.
pub open spec fn reached(
    seen: Seq<Seq<u8>>,
    count: nat,
    result: Result<AnswerView, ErrorView>,
) -> Option<Result<AnswerView, ErrorView>> {
    if seen.len() == count {
        Some(result)
    } else {
        None
    }
}

/// What the looks `seen` make of a query that has `left` attempts left.
///
/// An attempt looks at the header. When a writer is at work, the attempt is
/// spent. Otherwise the next look answers the query, and the look behind that
/// one re-checks the header: a directory that is still the published one gives
/// the answer, and another one spends the attempt. A failure ends the query at
/// the look that shows it. `None` stands for looks that no query takes: too few
/// of them, or too many.
#[verifier::opaque]
pub open spec fn run(
    seen: Seq<Seq<u8>>,
    query: QueryView,
    operation: Seq<char>,
    left: nat,
) -> Option<Result<AnswerView, ErrorView>>
    decreases left,
{
    if left == 0 {
        reached(
            seen,
            0,
            Err(ErrorView::RetryExhausted { operation, attempts: RETRY_LIMIT as int }),
        )
    } else if seen.len() < 1 {
        None
    } else {
        match checked_header(seen[0]) {
            Err(error) => reached(seen, 1, Err(error)),
            Ok(header) => if !settled(header) {
                run(seen.skip(1), query, operation, (left - 1) as nat)
            } else if seen.len() < 2 {
                None
            } else {
                match answer_in(seen[1], header, query) {
                    Err(error) => reached(seen, 2, Err(error)),
                    Ok(answer) => if seen.len() < 3 {
                        None
                    } else {
                        match still_published(header, seen[2]) {
                            Err(error) => reached(seen, 3, Err(error)),
                            Ok(true) => reached(seen, 3, Ok(answer)),
                            Ok(false) => run(seen.skip(3), query, operation, (left - 1) as nat),
                        }
                    },
                }
            },
        }
    }
}

/// A listing as the answer to a query for names.
pub open spec fn as_names_answer(names: Result<Seq<Seq<char>>, ErrorView>) -> Result<
    AnswerView,
    ErrorView,
> {
    match names {
        Ok(found) => Ok(AnswerView::Names(found)),
        Err(error) => Err(error),
    }
}

/// A reading as the answer to a query for a value.
pub open spec fn as_value_answer(value: Result<MetricView, ErrorView>) -> Result<
    AnswerView,
    ErrorView,
> {
    match value {
        Ok(found) => Ok(AnswerView::Value(found)),
        Err(error) => Err(error),
    }
}

/// Whether the looks `taken` list the names as `names`.
pub open spec fn lists(taken: Seq<Seq<u8>>, names: Result<Seq<Seq<char>>, ErrorView>) -> bool {
    run(taken, QueryView::Names, "names"@, RETRY_LIMIT as nat) == Some(as_names_answer(names))
}

/// Whether the looks `taken` read `name` as `value`.
pub open spec fn reads(
    taken: Seq<Seq<u8>>,
    name: Seq<char>,
    value: Result<MetricView, ErrorView>,
) -> bool {
    run(taken, QueryView::Value(name), "read"@, RETRY_LIMIT as nat) == Some(as_value_answer(value))
}

/// Whether a client of `mapping` may list its names as `names`.
pub open spec fn may_list<M: SegmentMapping>(
    mapping: &M,
    names: Result<Seq<Seq<char>>, ErrorView>,
) -> bool {
    exists|taken: Seq<Seq<u8>>| #[trigger] looks::may_see(mapping, taken) && lists(taken, names)
}

/// Whether a client of `mapping` may read `name` as `value`.
pub open spec fn may_read<M: SegmentMapping>(
    mapping: &M,
    name: Seq<char>,
    value: Result<MetricView, ErrorView>,
) -> bool {
    exists|taken: Seq<Seq<u8>>| #[trigger]
        looks::may_see(mapping, taken) && reads(taken, name, value)
}

/// An attempt that sees a writer is spent on one look.
proof fn lemma_writer_seen(
    seen: Seq<Seq<u8>>,
    query: QueryView,
    operation: Seq<char>,
    left: nat,
    start: Seq<u8>,
)
    requires
        left > 0,
        checked_header(start) is Ok,
        !settled(checked_header(start)->Ok_0),
    ensures
        run(seq![start] + seen, query, operation, left) == run(
            seen,
            query,
            operation,
            (left - 1) as nat,
        ),
{
    reveal(run);
    assert((seq![start] + seen).skip(1) =~= seen);
}

/// An attempt whose directory is no longer the published one is spent on three
/// looks.
proof fn lemma_republished(
    seen: Seq<Seq<u8>>,
    query: QueryView,
    operation: Seq<char>,
    left: nat,
    start: Seq<u8>,
    image: Seq<u8>,
    end: Seq<u8>,
)
    requires
        left > 0,
        checked_header(start) is Ok,
        settled(checked_header(start)->Ok_0),
        answer_in(image, checked_header(start)->Ok_0, query) is Ok,
        still_published(checked_header(start)->Ok_0, end) == Ok::<bool, ErrorView>(false),
    ensures
        run(seq![start, image, end] + seen, query, operation, left) == run(
            seen,
            query,
            operation,
            (left - 1) as nat,
        ),
{
    reveal(run);
    assert((seq![start, image, end] + seen).skip(3) =~= seen);
}

/// How one attempt ends a query: at the header, at the answer, or at the second
/// look at the header.
spec fn ends(
    round: Seq<Seq<u8>>,
    query: QueryView,
    result: Result<AnswerView, ErrorView>,
) -> bool {
    let start = checked_header(round[0]);
    if round.len() == 1 {
        start is Err && result == Err::<AnswerView, _>(start->Err_0)
    } else if round.len() == 2 {
        &&& start is Ok && settled(start->Ok_0)
        &&& answer_in(round[1], start->Ok_0, query) is Err
        &&& result == answer_in(round[1], start->Ok_0, query)
    } else {
        &&& round.len() == 3
        &&& start is Ok && settled(start->Ok_0)
        &&& answer_in(round[1], start->Ok_0, query) is Ok
        &&& match still_published(start->Ok_0, round[2]) {
            Err(error) => result == Err::<AnswerView, _>(error),
            Ok(same) => same && result == answer_in(round[1], start->Ok_0, query),
        }
    }
}

/// An attempt that ends a query gives its result, however many are left.
proof fn lemma_ended(
    round: Seq<Seq<u8>>,
    query: QueryView,
    operation: Seq<char>,
    left: nat,
    result: Result<AnswerView, ErrorView>,
)
    requires
        left > 0,
        ends(round, query, result),
    ensures
        run(round, query, operation, left) == Some(result),
{
    reveal(run);
}

/// A query without attempts is exhausted without a look.
proof fn lemma_exhausted(query: QueryView, operation: Seq<char>)
    ensures
        run(Seq::empty(), query, operation, 0) == Some(
            Err::<AnswerView, _>(
                ErrorView::RetryExhausted { operation, attempts: RETRY_LIMIT as int },
            ),
        ),
{
    reveal(run);
}

/// An answer is decoded between two looks at the header that agree: the last
/// three looks of a query that is answered are one at a header of the supported
/// version that nobody is writing, the one that is decoded, and one at a header
/// of the supported version that nobody is writing and that has the same epoch.
pub proof fn law_answers_are_settled(
    seen: Seq<Seq<u8>>,
    query: QueryView,
    operation: Seq<char>,
    left: nat,
    answer: AnswerView,
)
    requires
        run(seen, query, operation, left) == Some(Ok::<_, ErrorView>(answer)),
    ensures
        seen.len() >= 3,
        ({
            let start = checked_header(seen[seen.len() - 3]);
            let end = checked_header(seen[seen.len() - 1]);
            &&& start is Ok && end is Ok
            &&& settled(start->Ok_0) && settled(end->Ok_0)
            &&& start->Ok_0.epoch == end->Ok_0.epoch
            &&& answer_in(seen[seen.len() - 2], start->Ok_0, query) == Ok::<_, ErrorView>(answer)
        }),
    decreases left,
{
    reveal(run);
    if left > 0 && checked_header(seen[0]) is Ok {
        let header = checked_header(seen[0])->Ok_0;
        let spent = if !settled(header) {
            1int
        } else if still_published(header, seen[2]) == Ok::<bool, ErrorView>(false) {
            3int
        } else {
            0int
        };
        if spent > 0 {
            let rest = seen.skip(spent);
            law_answers_are_settled(rest, query, operation, (left - 1) as nat, answer);
            assert(rest[rest.len() - 3] == seen[seen.len() - 3]);
            assert(rest[rest.len() - 2] == seen[seen.len() - 2]);
            assert(rest[rest.len() - 1] == seen[seen.len() - 1]);
        }
    }
}

/// A query takes at least one look, and no more than three for every attempt.
pub proof fn law_looks_are_bounded(
    seen: Seq<Seq<u8>>,
    query: QueryView,
    operation: Seq<char>,
    left: nat,
)
    requires
        left > 0,
        run(seen, query, operation, left) is Some,
    ensures
        1 <= seen.len() <= 3 * left,
    decreases left,
{
    reveal(run);
    if checked_header(seen[0]) is Ok {
        let header = checked_header(seen[0])->Ok_0;
        if !settled(header) {
            if left > 1 {
                law_looks_are_bounded(seen.skip(1), query, operation, (left - 1) as nat);
            }
        } else if seen.len() >= 3 && answer_in(seen[1], header, query) is Ok && still_published(
            header,
            seen[2],
        ) == Ok::<bool, ErrorView>(false) {
            if left > 1 {
                law_looks_are_bounded(seen.skip(3), query, operation, (left - 1) as nat);
            }
        }
    }
}

/// A query gives up only when it has spent every attempt, each of them on a look
/// at least.
pub proof fn law_retries_are_exhausted(
    seen: Seq<Seq<u8>>,
    query: QueryView,
    operation: Seq<char>,
    left: nat,
)
    requires
        run(seen, query, operation, left) == Some(
            Err::<AnswerView, _>(
                ErrorView::RetryExhausted { operation, attempts: RETRY_LIMIT as int },
            ),
        ),
    ensures
        seen.len() >= left,
    decreases left,
{
    reveal(run);
    if left > 0 && checked_header(seen[0]) is Ok {
        let header = checked_header(seen[0])->Ok_0;
        if !settled(header) {
            law_retries_are_exhausted(seen.skip(1), query, operation, (left - 1) as nat);
        } else {
            lemma_answer_is_not_exhausted(seen[1], header, query);
            law_retries_are_exhausted(seen.skip(3), query, operation, (left - 1) as nat);
        }
    }
}

proof fn lemma_answer_is_not_exhausted(image: Seq<u8>, header: HeaderView, query: QueryView)
    ensures
        !(answer_in(image, header, query) matches Err(ErrorView::RetryExhausted { .. })),
{
    let found = protocol::resolved(
        image,
        header.base,
        header.directory_vector,
        DIRECTORY_ENTRY_BYTES as nat,
    );
    if let QueryView::Value(name) = query {
        if found is Ok {
            let named = directory::first_named(found->Ok_0, image, name, 0);
            if named is Ok && named->Ok_0 is Some {
                directory::lemma_value_failure(
                    image,
                    header.base,
                    found->Ok_0,
                    named->Ok_0->Some_0,
                    name,
                    0,
                );
            }
        }
    }
}

/// Whether the mapping always shows `image`.
pub open spec fn unchanging<M: SegmentMapping>(mapping: &M, image: Seq<u8>) -> bool {
    forall|shown: Seq<u8>| #[trigger] looks::shows(mapping, shown) ==> shown == image
}

/// What a query for which every look shows `image` ends in.
pub open spec fn steady_result(image: Seq<u8>, query: QueryView, operation: Seq<char>) -> Result<
    AnswerView,
    ErrorView,
> {
    match checked_header(image) {
        Err(error) => Err(error),
        Ok(header) => if settled(header) {
            answer_in(image, header, query)
        } else {
            Err(ErrorView::RetryExhausted { operation, attempts: RETRY_LIMIT as int })
        },
    }
}

proof fn lemma_steady_run(
    seen: Seq<Seq<u8>>,
    query: QueryView,
    operation: Seq<char>,
    left: nat,
    image: Seq<u8>,
    result: Result<AnswerView, ErrorView>,
)
    requires
        forall|i: int| 0 <= i < seen.len() ==> #[trigger] seen[i] == image,
        run(seen, query, operation, left) == Some(result),
    ensures
        left > 0 ==> result == steady_result(image, query, operation),
        left == 0 ==> result == Err::<AnswerView, _>(
            ErrorView::RetryExhausted { operation, attempts: RETRY_LIMIT as int },
        ),
    decreases left,
{
    reveal(run);
    if left > 0 && checked_header(image) is Ok && !settled(checked_header(image)->Ok_0) {
        let rest = seen.skip(1);
        assert forall|i: int| 0 <= i < rest.len() implies #[trigger] rest[i] == image by {
            assert(rest[i] == seen[i + 1]);
        }
        lemma_steady_run(rest, query, operation, (left - 1) as nat, image, result);
    }
}

/// A segment that does not change is listed and read as its bytes determine.
pub proof fn law_unchanging_segment<M: SegmentMapping>(
    mapping: &M,
    image: Seq<u8>,
    name: Seq<char>,
)
    requires
        unchanging(mapping, image),
    ensures
        forall|names: Result<Seq<Seq<char>>, ErrorView>| #[trigger]
            may_list(mapping, names) ==> as_names_answer(names) == steady_result(
                image,
                QueryView::Names,
                "names"@,
            ),
        forall|value: Result<MetricView, ErrorView>| #[trigger]
            may_read(mapping, name, value) ==> as_value_answer(value) == steady_result(
                image,
                QueryView::Value(name),
                "read"@,
            ),
{
    assert forall|names: Result<Seq<Seq<char>>, ErrorView>| #[trigger]
        may_list(mapping, names) implies as_names_answer(names) == steady_result(
        image,
        QueryView::Names,
        "names"@,
    ) by {
        let taken = choose|taken: Seq<Seq<u8>>| #[trigger]
            looks::may_see(mapping, taken) && lists(taken, names);
        lemma_steady_run(
            taken,
            QueryView::Names,
            "names"@,
            RETRY_LIMIT as nat,
            image,
            as_names_answer(names),
        );
    }
    assert forall|value: Result<MetricView, ErrorView>| #[trigger]
        may_read(mapping, name, value) implies as_value_answer(value) == steady_result(
        image,
        QueryView::Value(name),
        "read"@,
    ) by {
        let taken = choose|taken: Seq<Seq<u8>>| #[trigger]
            looks::may_see(mapping, taken) && reads(taken, name, value);
        lemma_steady_run(
            taken,
            QueryView::Value(name),
            "read"@,
            RETRY_LIMIT as nat,
            image,
            as_value_answer(value),
        );
    }
}

/// Whether the mapping always shows `image`, and nobody is writing it.
pub open spec fn quiet<M: SegmentMapping>(mapping: &M, image: Seq<u8>) -> bool {
    &&& unchanging(mapping, image)
    &&& checked_header(image) matches Ok(header) && settled(header)
}

/// A segment that nobody writes is listed and read as its directory says.
pub proof fn law_quiet_segment<M: SegmentMapping>(mapping: &M, image: Seq<u8>, name: Seq<char>)
    requires
        quiet(mapping, image),
    ensures
        ({
            let header = checked_header(image)->Ok_0;
            let found = protocol::resolved(
                image,
                header.base,
                header.directory_vector,
                DIRECTORY_ENTRY_BYTES as nat,
            );
            &&& forall|names: Result<Seq<Seq<char>>, ErrorView>| #[trigger]
                may_list(mapping, names) ==> names == (match found {
                    Ok(directory) => error::of_layout(
                        directory::directory_names(directory, image),
                    ),
                    Err(source) => Err(ErrorView::Protocol { source }),
                })
            &&& forall|value: Result<MetricView, ErrorView>| #[trigger]
                may_read(mapping, name, value) ==> value == (match found {
                    Ok(directory) => directory::named_value(image, header.base, directory, name),
                    Err(source) => Err(ErrorView::Protocol { source }),
                })
        }),
{
    law_unchanging_segment(mapping, image, name);
}

/// An answer stands between two looks at one publication: both show version 2 and
/// no write under way, and the same epoch.
pub proof fn law_answers_come_from_one_publication(
    seen: Seq<Seq<u8>>,
    query: QueryView,
    operation: Seq<char>,
    left: nat,
    answer: AnswerView,
)
    requires
        run(seen, query, operation, left) == Some(Ok::<_, ErrorView>(answer)),
    ensures
        ({
            let start = seen[seen.len() - 3];
            let end = seen[seen.len() - 1];
            &&& seen.len() >= 3 && start.len() >= 40 && end.len() >= 40
            &&& bytes::le_u64(start, 0) == 2 && bytes::le_u64(end, 0) == 2
            &&& bytes::le_u64(start, 24) == 0 && bytes::le_u64(end, 24) == 0
            &&& bytes::le_u64(start, 16) == bytes::le_u64(end, 16)
        }),
{
    law_answers_are_settled(seen, query, operation, left, answer);
}

/// A header is taken exactly where it is whole and of version 2, and otherwise
/// refused with the version it has.
pub proof fn law_checked_headers(image: Seq<u8>)
    ensures
        checked_header(image) is Ok <==> image.len() >= 40 && bytes::le_u64(image, 0) == 2,
        image.len() >= 40 && bytes::le_u64(image, 0) != 2 ==> checked_header(image) == Err::<
            HeaderView,
            _,
        >(
            (ErrorView::Protocol {
                source: ProtocolErrorView::VersionMismatch {
                    actual: bytes::le_u64(image, 0) as u64,
                    expected: 2,
                },
            }),
        ),
{
}

/// An attempt that no write disturbs gives what the middle look shows, a value or
/// a failure.
pub proof fn law_undisturbed_attempts(
    start: Seq<u8>,
    image: Seq<u8>,
    end: Seq<u8>,
    query: QueryView,
    operation: Seq<char>,
    left: nat,
)
    requires
        left > 0,
        checked_header(start) is Ok,
        checked_header(end) is Ok,
        checked_header(start)->Ok_0.in_progress == 0,
        checked_header(end)->Ok_0.in_progress == 0,
        checked_header(start)->Ok_0.epoch == checked_header(end)->Ok_0.epoch,
    ensures
        ({
            let answer = answer_in(image, checked_header(start)->Ok_0, query);
            &&& answer is Ok ==> run(seq![start, image, end], query, operation, left) == Some(
                answer,
            )
            &&& answer is Err ==> run(seq![start, image], query, operation, left) == Some(answer)
        }),
{
    reveal(run);
}

/// An attempt that a write disturbs is repeated, with one attempt less left: one
/// that begins while a write is under way, and one that ends with a write under
/// way or in another epoch.
pub proof fn law_disturbed_attempts(
    start: Seq<u8>,
    image: Seq<u8>,
    end: Seq<u8>,
    seen: Seq<Seq<u8>>,
    query: QueryView,
    operation: Seq<char>,
    left: nat,
)
    requires
        left > 0,
        checked_header(start) is Ok,
    ensures
        checked_header(start)->Ok_0.in_progress != 0 ==> run(
            seq![start] + seen,
            query,
            operation,
            left,
        ) == run(seen, query, operation, (left - 1) as nat),
        checked_header(start)->Ok_0.in_progress == 0 && answer_in(
            image,
            checked_header(start)->Ok_0,
            query,
        ) is Ok && checked_header(end) is Ok && (checked_header(end)->Ok_0.in_progress != 0
            || checked_header(end)->Ok_0.epoch != checked_header(start)->Ok_0.epoch) ==> run(
            seq![start, image, end] + seen,
            query,
            operation,
            left,
        ) == run(seen, query, operation, (left - 1) as nat),
{
    if checked_header(start)->Ok_0.in_progress != 0 {
        lemma_writer_seen(seen, query, operation, left, start);
    } else if answer_in(image, checked_header(start)->Ok_0, query) is Ok && checked_header(end)
        is Ok && (checked_header(end)->Ok_0.in_progress != 0 || checked_header(end)->Ok_0.epoch
        != checked_header(start)->Ok_0.epoch) {
        lemma_republished(seen, query, operation, left, start, image, end);
    }
}

/// A listing and a read are each tried sixteen times, and then say so by their own
/// name.
pub proof fn law_sixteen_attempts(
    seen: Seq<Seq<u8>>,
    name: Seq<char>,
    names: Result<Seq<Seq<char>>, ErrorView>,
    value: Result<MetricView, ErrorView>,
)
    requires
        forall|i: int|
            0 <= i < seen.len() ==> checked_header(#[trigger] seen[i]) is Ok && checked_header(
                seen[i],
            )->Ok_0.in_progress != 0,
    ensures
        lists(seen, names) ==> seen.len() == 16 && names == Err::<Seq<Seq<char>>, _>(
            (ErrorView::RetryExhausted { operation: "names"@, attempts: 16 }),
        ),
        reads(seen, name, value) ==> seen.len() == 16 && value == Err::<MetricView, _>(
            (ErrorView::RetryExhausted { operation: "read"@, attempts: 16 }),
        ),
{
    if lists(seen, names) {
        law_busy_segment(seen, QueryView::Names, "names"@, 16, as_names_answer(names));
    }
    if reads(seen, name, value) {
        law_busy_segment(seen, QueryView::Value(name), "read"@, 16, as_value_answer(value));
    }
}

/// On a segment that nobody writes, a name is listed exactly when reading it
/// does not answer that it is missing.
pub proof fn law_listed_names_are_readable<M: SegmentMapping>(
    mapping: &M,
    image: Seq<u8>,
    name: Seq<char>,
    names: Seq<Seq<char>>,
    value: Result<MetricView, ErrorView>,
)
    requires
        quiet(mapping, image),
        may_list(mapping, Ok(names)),
        may_read(mapping, name, value),
    ensures
        names.contains(name) <==> value != Err::<MetricView, _>(
            ErrorView::MetricNotFound { name },
        ),
{
    law_quiet_segment(mapping, image, name);
    let header = checked_header(image)->Ok_0;
    let found = protocol::resolved(
        image,
        header.base,
        header.directory_vector,
        DIRECTORY_ENTRY_BYTES as nat,
    )->Ok_0;
    directory::law_listed_names_are_found(found, image, name);
    if names.contains(name) {
        let index = directory::first_named(found, image, name, 0)->Ok_0->Some_0;
        directory::lemma_value_failure(image, header.base, found, index, name, 0);
    }
}

/// A query that is shown a writer at every look takes one look for each of its
/// attempts and then gives up.
pub proof fn law_busy_segment(
    seen: Seq<Seq<u8>>,
    query: QueryView,
    operation: Seq<char>,
    left: nat,
    result: Result<AnswerView, ErrorView>,
)
    requires
        forall|i: int|
            0 <= i < seen.len() ==> checked_header(#[trigger] seen[i]) is Ok && !settled(
                checked_header(seen[i])->Ok_0,
            ),
        run(seen, query, operation, left) == Some(result),
    ensures
        seen.len() == left,
        result == Err::<AnswerView, _>(
            ErrorView::RetryExhausted { operation, attempts: RETRY_LIMIT as int },
        ),
    decreases left,
{
    reveal(run);
    if left > 0 {
        let rest = seen.skip(1);
        assert forall|i: int| 0 <= i < rest.len() implies checked_header(#[trigger] rest[i]) is Ok
            && !settled(checked_header(rest[i])->Ok_0) by {
            assert(rest[i] == seen[i + 1]);
        }
        law_busy_segment(rest, query, operation, (left - 1) as nat, result);
    }
}

/// Reads a header of the supported version at the front of the mapping.
pub fn read_header(image: &[u8]) -> (header: Result<SharedHeader, Error>)
    ensures
        error::outcome(header) == checked_header(image@),
{
    let header = match SharedHeader::read(image) {
        Ok(header) => header,
        Err(source) => {
            return Err(Error::from(source));
        },
    };
    match header.validate_version() {
        Ok(_) => Ok(header),
        Err(source) => Err(Error::from(source)),
    }
}

/// Asks the directory that `header` names in one image of the segment.
pub fn answer(image: &[u8], header: &SharedHeader, query: &Query) -> (result: Result<
    Answer,
    Error,
>)
    ensures
        error::outcome(result) == answer_in(image@, header@, query@),
{
    let found = match PublishedVector::resolve(
        image,
        header.base(),
        header.directory_vector(),
        DIRECTORY_ENTRY_BYTES,
    ) {
        Ok(found) => found,
        Err(source) => {
            return Err(Error::from(source));
        },
    };
    match query {
        Query::Names => match directory::read_names(&found, image) {
            Ok(names) => Ok(Answer::Names(names)),
            Err(error) => Err(error),
        },
        Query::Value(name) => match directory::read_value(&found, image, header.base(), name) {
            Ok(value) => Ok(Answer::Value(value)),
            Err(error) => Err(error),
        },
    }
}

/// Looks at the header again: whether the directory that `header` names is
/// still the published one.
pub fn recheck(header: &SharedHeader, end: &[u8]) -> (same: Result<bool, Error>)
    ensures
        error::outcome(same) == still_published(header@, end@),
{
    match read_header(end) {
        Ok(last) => Ok(!last.is_write_in_progress() && last.epoch() == header.epoch()),
        Err(error) => Err(error),
    }
}

/// Whether an answer is one to the query.
pub open spec fn suits(query: QueryView, answer: AnswerView) -> bool {
    match query {
        QueryView::Names => answer is Names,
        QueryView::Value(_) => answer is Value,
    }
}

/// Re-reads the published directory until two header reads observe the same
/// epoch, so a projection never decodes a half-published directory.
pub fn published_answer<M: SegmentMapping>(
    looks: &mut Looks<M>,
    operation: &'static str,
    query: &Query,
) -> (result: Result<Answer, Error>)
    ensures
        exists|taken: Seq<Seq<u8>>| #[trigger]
            looks::looked(*old(looks), *final(looks), taken) && run(
                taken,
                query@,
                operation@,
                RETRY_LIMIT as nat,
            ) == Some(error::outcome(result)),
        result matches Ok(found) ==> suits(query@, found@),
{
    let ghost mut taken: Seq<Seq<u8>> = Seq::empty();
    proof {
        assert(looks.seen() + taken =~= looks.seen());
        assert forall|rest: Seq<Seq<u8>>| #[trigger] (taken + rest) == rest by {
            assert(taken + rest =~= rest);
        }
    }
    let mut attempts: usize = 0;
    while attempts < RETRY_LIMIT
        invariant
            attempts <= RETRY_LIMIT,
            looks::looked(*old(looks), *looks, taken),
            forall|rest: Seq<Seq<u8>>|
                run(#[trigger] (taken + rest), query@, operation@, RETRY_LIMIT as nat) == run(
                    rest,
                    query@,
                    operation@,
                    (RETRY_LIMIT - attempts) as nat,
                ),
        decreases RETRY_LIMIT - attempts,
    {
        let ghost left = (RETRY_LIMIT - attempts) as nat;
        let ghost before = taken;
        let ghost at_start = *looks;
        let start = looks.next();
        let ghost at_image = *looks;
        proof {
            looks::lemma_looked(*old(looks), at_start, at_image, taken, start@);
            taken = taken.push(start@);
            assert(taken =~= before + seq![start@]);
        }
        let header = match read_header(start) {
            Ok(header) => header,
            Err(error) => {
                proof {
                    lemma_ended(seq![start@], query@, operation@, left, Err(error@));
                }
                return Err(error);
            },
        };
        if header.is_write_in_progress() {
            proof {
                assert forall|rest: Seq<Seq<u8>>|
                    run(#[trigger] (taken + rest), query@, operation@, RETRY_LIMIT as nat) == run(
                    rest,
                    query@,
                    operation@,
                    (left - 1) as nat,
                ) by {
                    assert(taken + rest =~= before + (seq![start@] + rest));
                    lemma_writer_seen(rest, query@, operation@, left, start@);
                }
            }
        } else {
            let image = looks.next();
            let ghost at_end = *looks;
            proof {
                looks::lemma_looked(*old(looks), at_image, at_end, taken, image@);
                taken = taken.push(image@);
                assert(taken =~= before + seq![start@, image@]);
            }
            let found = match answer(image, &header, query) {
                Ok(found) => found,
                Err(error) => {
                    proof {
                        lemma_ended(seq![start@, image@], query@, operation@, left, Err(error@));
                    }
                    return Err(error);
                },
            };
            let end = looks.next();
            proof {
                looks::lemma_looked(*old(looks), at_end, *looks, taken, end@);
                taken = taken.push(end@);
                assert(taken =~= before + seq![start@, image@, end@]);
            }
            match recheck(&header, end) {
                Ok(true) => {
                    proof {
                        let round = seq![start@, image@, end@];
                        lemma_ended(round, query@, operation@, left, Ok(found@));
                    }
                    return Ok(found);
                },
                Ok(false) => {
                    proof {
                        assert forall|rest: Seq<Seq<u8>>|
                            run(
                                #[trigger] (taken + rest),
                                query@,
                                operation@,
                                RETRY_LIMIT as nat,
                            ) == run(rest, query@, operation@, (left - 1) as nat) by {
                            let round = seq![start@, image@, end@];
                            assert(taken + rest =~= before + (round + rest));
                            lemma_republished(
                                rest,
                                query@,
                                operation@,
                                left,
                                start@,
                                image@,
                                end@,
                            );
                        }
                    }
                },
                Err(error) => {
                    proof {
                        let round = seq![start@, image@, end@];
                        lemma_ended(round, query@, operation@, left, Err(error@));
                    }
                    return Err(error);
                },
            }
        }
        attempts = attempts + 1;
    }
    proof {
        lemma_exhausted(query@, operation@);
        assert(taken + Seq::empty() =~= taken);
    }
    Err(Error::RetryExhausted { operation, attempts: RETRY_LIMIT })
}

/// One read-only client of the shared stats segment.
pub struct StatsClient<M> {
    mapping: M,
}

impl<M: SegmentMapping> StatsClient<M> {
    /// The mapping the client reads.
    pub closed spec fn mapping(&self) -> M {
        self.mapping
    }

    /// Takes over the mapping of a segment whose descriptor was handed over,
    /// once one look shows a header of the supported version.
    pub fn connect(mapping: M) -> (client: Result<Self, Error>)
        ensures
            exists|taken: Seq<Seq<u8>>| #[trigger]
                looks::may_see(&mapping, taken) && taken.len() == 1 && match client {
                    Ok(made) => made.mapping() == mapping && checked_header(taken[0]) is Ok,
                    Err(error) => checked_header(taken[0]) == Err::<HeaderView, _>(error@),
                },
    {
        let mut looks = Looks::new(&mapping);
        let image = looks.next();
        proof {
            let taken = seq![image@];
            assert(looks.seen() =~= taken);
            assert(looks::may_see(&mapping, taken));
        }
        match read_header(image) {
            Ok(_) => Ok(StatsClient { mapping }),
            Err(error) => Err(error),
        }
    }

    /// Generic projection entry: `P` is monomorphized, so there is no
    /// registry, no `dyn`, and no runtime lookup.
    pub fn report<P: StatsProvider>(&self) -> (report: Result<P::Report, Error>)
        ensures
            provider::reported::<P, Self>(self, report),
    {
        P::report(self)
    }

    /// Every directory name, including free slots and symlinks.
    pub fn names(&self) -> (names: Result<Vec<String>, Error>)
        ensures
            may_list(&self.mapping(), error::listing(names)),
    {
        let result = self.with_published_directory("names", &Query::Names);
        let ghost outcome = error::outcome(result);
        let names = match result {
            Ok(Answer::Names(names)) => Ok(names),
            Ok(Answer::Value(_)) => {
                assert(false);
                Ok(Vec::new())
            },
            Err(error) => Err(error),
        };
        assert(outcome == as_names_answer(error::listing(names)));
        names
    }

    /// The raw value a directory name publishes.
    ///
    /// A symlink is resolved to its target and cropped to the symlink's
    /// column, like VPP's `copy_data`; it is never returned as a scalar.
    pub fn read(&self, name: &str) -> (value: Result<MetricValue, Error>)
        ensures
            may_read(&self.mapping(), name@, error::outcome(value)),
    {
        let result = self.with_published_directory("read", &Query::Value(name));
        let ghost outcome = error::outcome(result);
        let value = match result {
            Ok(Answer::Value(value)) => Ok(value),
            Ok(Answer::Names(_)) => {
                assert(false);
                Ok(MetricValue::Scalar(0))
            },
            Err(error) => Err(error),
        };
        assert(outcome == as_value_answer(error::outcome(value)));
        value
    }

    /// Asks the published directory, with looks at the mapping that nobody else
    /// counts.
    fn with_published_directory(&self, operation: &'static str, query: &Query) -> (result: Result<
        Answer,
        Error,
    >)
        ensures
            exists|taken: Seq<Seq<u8>>| #[trigger]
                looks::may_see(&self.mapping(), taken) && run(
                    taken,
                    query@,
                    operation@,
                    RETRY_LIMIT as nat,
                ) == Some(error::outcome(result)),
            result matches Ok(found) ==> suits(query@, found@),
    {
        let mut looks = Looks::new(&self.mapping);
        let ghost before = looks;
        let result = published_answer(&mut looks, operation, query);
        proof {
            let taken = choose|taken: Seq<Seq<u8>>| #[trigger]
                looks::looked(before, looks, taken) && run(
                    taken,
                    query@,
                    operation@,
                    RETRY_LIMIT as nat,
                ) == Some(error::outcome(result));
            assert(looks.seen() =~= taken);
            assert(looks::may_see(&self.mapping(), taken));
        }
        result
    }
}

impl<M: SegmentMapping> StatsReader for StatsClient<M> {
    fn names(&self) -> (names: Result<Vec<String>, Error>)
        ensures
            may_list(&self.mapping(), error::listing(names)),
    {
        StatsClient::names(self)
    }

    fn read(&self, name: &str) -> (value: Result<MetricValue, Error>)
        ensures
            may_read(&self.mapping(), name@, error::outcome(value)),
    {
        StatsClient::read(self, name)
    }
}

/// What a client answers as a reader is what it may list and read of its
/// mapping.
pub proof fn law_client_answers<M: SegmentMapping>(client: &StatsClient<M>)
    ensures
        forall|names: Result<Seq<Seq<char>>, ErrorView>| #[trigger]
            reader::lists(client, names) ==> may_list(&client.mapping(), names),
        forall|name: Seq<char>, reading: Reading| #[trigger]
            reader::reads(client, name, reading) ==> may_read(&client.mapping(), name, reading),
{
}

/// On a segment that does not change, a report through the client is what the
/// provider reports when it is given the client: both have the one contract of
/// [`StatsProvider::report`] over the client, and any two reports that meet it
/// are alike.
pub proof fn law_report_through_client<M: SegmentMapping, P: StatsProvider>(
    client: &StatsClient<M>,
    image: Seq<u8>,
    through: Result<P::Report, Error>,
    direct: Result<P::Report, Error>,
)
    requires
        unchanging(&client.mapping(), image),
        provider::reported::<P, StatsClient<M>>(client, through),
        provider::reported::<P, StatsClient<M>>(client, direct),
    ensures
        P::alike(through, direct),
{
    law_client_answers(client);
    assert forall|name: Seq<char>, left: Reading, right: Reading|
        #![trigger reader::reads(client, name, left), reader::reads(client, name, right)]
        reader::reads(client, name, left) && reader::reads(client, name, right) implies left
        == right by {
        law_unchanging_segment(&client.mapping(), image, name);
        assert(may_read(&client.mapping(), name, left));
        assert(may_read(&client.mapping(), name, right));
    }
    law_unchanging_segment(&client.mapping(), image, Seq::empty());
    assert(reader::steady(client));
    provider::law_steady_reader::<P, StatsClient<M>>(client, through, direct);
}

} // verus!
