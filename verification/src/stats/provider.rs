//! The family-projection contract.
//!
//! A provider turns raw directory reads into one typed report. It depends on
//! [`StatsReader`] only, holds no connection or mapping, caches no directory
//! index, and keeps no baseline between reports.

use crate::stats::error::Error;
use crate::stats::questions;
use crate::stats::questions::Exchange;
use crate::stats::reader;
use crate::stats::reader::StatsReader;
use vstd::prelude::*;

verus! {

pub trait StatsProvider {
    /// The family directory prefix, such as `"/mem"` or `"/sys"`.
    const PREFIX: &'static str;

    /// The result of one complete read of that family.
    type Report;

    /// Whether the questions of `history`, with their answers, are the whole of
    /// one complete read that ends in `report`.
    ///
    /// That a reader is asked nothing else is stated where it cannot be reached
    /// otherwise: by the functions that are given its `Questions` in place of
    /// the reader itself.
    spec fn may_report(history: Seq<Exchange>, report: Result<Self::Report, Error>) -> bool;

    /// Whether two reports say the same, up to the times they were taken.
    spec fn alike(left: Result<Self::Report, Error>, right: Result<Self::Report, Error>) -> bool;

    /// Where no question is answered in two ways, there is one report.
    proof fn lemma_one_report(
        first: Seq<Exchange>,
        second: Seq<Exchange>,
        left: Result<Self::Report, Error>,
        right: Result<Self::Report, Error>,
    )
        requires
            questions::agreeing(first, second),
            Self::may_report(first, left),
            Self::may_report(second, right),
        ensures
            Self::alike(left, right),
    ;

    fn report<R: StatsReader>(reader: &R) -> (report: Result<Self::Report, Error>)
        ensures
            exists|history: Seq<Exchange>| #[trigger]
                questions::may_ask(reader, history) && Self::may_report(history, report),
    ;
}

/// Whether a provider that is given the reader may end in `report`.
pub open spec fn reported<P: StatsProvider, R: StatsReader>(
    reader: &R,
    report: Result<P::Report, Error>,
) -> bool {
    exists|history: Seq<Exchange>| #[trigger]
        questions::may_ask(reader, history) && P::may_report(history, report)
}

/// A reader that has one answer to every question is reported in one way.
pub proof fn law_steady_reader<P: StatsProvider, R: StatsReader>(
    reader: &R,
    left: Result<P::Report, Error>,
    right: Result<P::Report, Error>,
)
    requires
        reader::steady(reader),
        reported::<P, R>(reader, left),
        reported::<P, R>(reader, right),
    ensures
        P::alike(left, right),
{
    let first = choose|history: Seq<Exchange>| #[trigger]
        questions::may_ask(reader, history) && P::may_report(history, left);
    let second = choose|history: Seq<Exchange>| #[trigger]
        questions::may_ask(reader, history) && P::may_report(history, right);
    questions::lemma_steady_histories(reader, first, second);
    P::lemma_one_report(first, second, left, right);
}

} // verus!
