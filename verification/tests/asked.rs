//! Which questions a report asks its reader.

use std::cell::RefCell;
use std::time::Instant;

use netsystem_client::stats::buffer_pools::{read_pools, BufferPoolStatsProvider};
use netsystem_client::stats::error::Error;
use netsystem_client::stats::memory::{read_memory, MemoryStatsProvider};
use netsystem_client::stats::node::{read_family, read_nodes, NodeStatsProvider};
use netsystem_client::stats::node_error::{
    read_aliases, read_node_errors, NodeErrorStatsProvider,
};
use netsystem_client::stats::protocol::MetricValue;
use netsystem_client::stats::provider::StatsProvider;
use netsystem_client::stats::questions::Questions;
use netsystem_client::stats::reader::StatsReader;
use netsystem_client::stats::system::{read_system, read_system_at, SystemStatsProvider};

/// A directory that notes every question.
struct Noting {
    entries: Vec<(&'static str, MetricValue)>,
    asked: RefCell<Vec<String>>,
}

impl Noting {
    fn new(entries: Vec<(&'static str, MetricValue)>) -> Self {
        Noting {
            entries,
            asked: RefCell::new(Vec::new()),
        }
    }

    /// The questions since the last call; a listing is an asterisk.
    fn asked(&self) -> Vec<String> {
        self.asked.borrow_mut().drain(..).collect()
    }
}

impl StatsReader for Noting {
    fn names(&self) -> Result<Vec<String>, Error> {
        self.asked.borrow_mut().push("*".to_owned());
        Ok(self.entries.iter().map(|entry| entry.0.to_owned()).collect())
    }

    fn read(&self, name: &str) -> Result<MetricValue, Error> {
        self.asked.borrow_mut().push(name.to_owned());
        for entry in &self.entries {
            if entry.0 == name {
                return Ok(entry.1.clone());
            }
        }
        Err(Error::MetricNotFound {
            name: name.to_owned(),
        })
    }
}

fn row(cells: &[u64]) -> MetricValue {
    MetricValue::Simple(vec![cells.to_vec()])
}

#[test]
fn a_memory_report_reads_every_heap_once() {
    let reader = Noting::new(vec![
        ("/mem/b", row(&[1, 2, 3, 4, 5, 6, 7])),
        ("/mem/b/used", row(&[2])),
        ("/sys/heartbeat", MetricValue::Scalar(1)),
        ("/mem/a", row(&[1, 2, 3, 4, 5, 6, 7])),
    ]);
    let report = MemoryStatsProvider::report(&reader).expect("the heaps are well formed");
    assert_eq!(report.heaps.len(), 2);
    assert_eq!(reader.asked(), ["*", "/mem/b", "/mem/a"]);
    let mut questions = Questions::new(&reader);
    assert_eq!(read_memory(&mut questions), Ok(report));
    assert_eq!(reader.asked(), ["*", "/mem/b", "/mem/a"]);
}

#[test]
fn a_memory_report_stops_at_the_first_failure() {
    let reader = Noting::new(vec![
        ("/mem/a", row(&[1])),
        ("/mem/b", row(&[1, 2, 3, 4, 5, 6, 7])),
    ]);
    assert!(MemoryStatsProvider::report(&reader).is_err());
    assert_eq!(reader.asked(), ["*", "/mem/a"]);
}

#[test]
fn an_absent_node_family_is_not_read() {
    let reader = Noting::new(vec![("/sys/node/clocks", row(&[1]))]);
    assert_eq!(NodeStatsProvider::report(&reader), Ok(None));
    assert_eq!(reader.asked(), ["*"]);
    let mut questions = Questions::new(&reader);
    assert_eq!(read_nodes(&mut questions), Ok(None));
    assert_eq!(reader.asked(), ["*"]);
}

#[test]
fn a_node_report_reads_its_entries_in_order() {
    let reader = Noting::new(vec![
        ("/sys/node/names", MetricValue::Names(vec!["drop".to_owned()])),
        ("/sys/node/clocks", row(&[1])),
        ("/sys/node/vectors", row(&[2])),
        ("/sys/node/calls", row(&[3])),
        ("/sys/node/suspends", row(&[4])),
        ("/sys/num_worker_threads", MetricValue::Gauge(0)),
    ]);
    assert!(matches!(NodeStatsProvider::report(&reader), Ok(Some(_))));
    assert_eq!(
        reader.asked(),
        [
            "*",
            "/sys/node/names",
            "/sys/node/clocks",
            "/sys/node/vectors",
            "/sys/node/calls",
            "/sys/node/suspends",
            "/sys/num_worker_threads",
        ]
    );
}

#[test]
fn an_absent_error_family_is_not_read() {
    let reader = Noting::new(vec![("/error/x/y", row(&[1])), ("/err", row(&[1]))]);
    assert_eq!(NodeErrorStatsProvider::report(&reader), Ok(None));
    assert_eq!(reader.asked(), ["*"]);
    let mut questions = Questions::new(&reader);
    assert_eq!(read_node_errors(&mut questions), Ok(None));
    assert_eq!(reader.asked(), ["*"]);
}

#[test]
fn an_error_report_reads_every_alias_once_in_name_order() {
    let reader = Noting::new(vec![
        ("/err/b/x", row(&[1])),
        ("/err/lonely", row(&[1])),
        ("/err/a/y", row(&[2])),
    ]);
    assert!(matches!(NodeErrorStatsProvider::report(&reader), Ok(Some(_))));
    assert_eq!(reader.asked(), ["*", "/err/a/y", "/err/b/x"]);
}

#[test]
fn a_pool_report_reads_three_gauges_a_pool() {
    let reader = Noting::new(vec![
        ("/buffer-pools/b/used", MetricValue::Gauge(1)),
        ("/buffer-pools/b/cached", MetricValue::Gauge(2)),
        ("/buffer-pools/b/available", MetricValue::Gauge(3)),
    ]);
    let report = BufferPoolStatsProvider::report(&reader).expect("the gauges are there");
    assert_eq!(
        reader.asked(),
        [
            "*",
            "/buffer-pools/b/cached",
            "/buffer-pools/b/used",
            "/buffer-pools/b/available",
        ]
    );
    let mut questions = Questions::new(&reader);
    assert_eq!(read_pools(&mut questions), Ok(report));
}

#[test]
fn a_system_report_lists_nothing_and_stops_at_a_mismatch() {
    let reader = Noting::new(vec![
        ("/sys/num_worker_threads", MetricValue::Gauge(2)),
        ("/sys/main_loop_count_per_worker", row(&[1])),
        ("/sys/loops_per_worker", row(&[1, 2])),
    ]);
    assert!(SystemStatsProvider::report(&reader).is_err());
    let asked = [
        "/sys/num_worker_threads",
        "/sys/main_loop_count_per_worker",
        "/sys/loops_per_worker",
    ];
    assert_eq!(reader.asked(), asked);
    let mut questions = Questions::new(&reader);
    assert!(read_system(&mut questions).is_err());
    assert_eq!(reader.asked(), asked);
}

#[test]
fn a_report_carries_the_time_it_is_given() {
    let reader = Noting::new(vec![
        ("/sys/node/names", MetricValue::Names(vec!["drop".to_owned()])),
        ("/sys/node/clocks", row(&[1])),
        ("/sys/node/vectors", row(&[2])),
        ("/sys/node/calls", row(&[3])),
        ("/sys/node/suspends", row(&[4])),
        ("/sys/num_worker_threads", MetricValue::Gauge(0)),
        ("/sys/main_loop_count_per_worker", row(&[])),
        ("/sys/loops_per_worker", row(&[])),
        ("/sys/last_stats_clear", MetricValue::Scalar(0)),
        ("/sys/heartbeat", MetricValue::Scalar(1)),
        ("/sys/boottime", MetricValue::Scalar(2)),
        ("/err/a/b", row(&[5])),
    ]);
    let drawn = Instant::now();
    let mut questions = Questions::new(&reader);
    let nodes = read_family(&mut questions, drawn).expect("the family is well formed");
    assert_eq!(nodes.sampled_at, drawn);
    let system = read_system_at(&mut questions, drawn).expect("the entries are well formed");
    assert_eq!(system.sampled_at, drawn);
    let entries = vec!["/err/a/b".to_owned()];
    let errors = read_aliases(&mut questions, &entries, drawn).expect("the alias is a column");
    assert_eq!(errors.sampled_at, drawn);
    assert_eq!(errors.errors[0].counts, [5]);
}
