//! The `/sys/node` and `/err` projections over an in-memory directory.

use std::time::Instant;

use netsystem_client::stats::error::Error;
use netsystem_client::stats::node::{
    check_threads, NodeCounter, NodeStats, NodeStatsProvider, NodeUsage,
};
use netsystem_client::stats::node_error::{
    NodeErrorCounters, NodeErrorStats, NodeErrorStatsProvider,
};
use netsystem_client::stats::protocol::MetricValue;
use netsystem_client::stats::provider::StatsProvider;
use netsystem_client::stats::reader::StatsReader;

/// Names and values in directory order; a name may be listed without a value.
struct Directory {
    entries: Vec<(&'static str, Option<MetricValue>)>,
}

impl Directory {
    fn without(mut self, name: &str) -> Self {
        self.entries.retain(|entry| entry.0 != name);
        self
    }

    fn with(mut self, name: &'static str, value: MetricValue) -> Self {
        self = self.without(name);
        self.entries.push((name, Some(value)));
        self
    }
}

impl StatsReader for Directory {
    fn names(&self) -> Result<Vec<String>, Error> {
        Ok(self.entries.iter().map(|entry| entry.0.to_owned()).collect())
    }

    fn read(&self, name: &str) -> Result<MetricValue, Error> {
        for entry in &self.entries {
            if entry.0 == name {
                if let Some(value) = &entry.1 {
                    return Ok(value.clone());
                }
            }
        }
        Err(Error::MetricNotFound {
            name: name.to_owned(),
        })
    }
}

fn node_directory() -> Directory {
    let simple = |rows: &[[u64; 2]; 2]| {
        Some(MetricValue::Simple(
            rows.iter().map(|row| row.to_vec()).collect(),
        ))
    };
    Directory {
        entries: vec![
            (
                "/sys/node/names",
                Some(MetricValue::Names(vec![
                    "ethernet-input".to_owned(),
                    "ip4-lookup".to_owned(),
                ])),
            ),
            ("/sys/node/clocks", simple(&[[1, 2], [3, 4]])),
            ("/sys/node/vectors", simple(&[[5, 6], [7, 8]])),
            ("/sys/node/calls", simple(&[[9, 10], [11, 12]])),
            ("/sys/node/suspends", simple(&[[13, 14], [15, 16]])),
            ("/sys/num_worker_threads", Some(MetricValue::Gauge(1))),
        ],
    }
}

fn node_report(directory: &Directory) -> Result<Option<NodeStats>, Error> {
    NodeStatsProvider::report(directory)
}

#[test]
fn node_report_gives_one_column_per_node() {
    let report = node_report(&node_directory())
        .expect("the directory is well formed")
        .expect("the family is published");
    assert_eq!(report.thread_count(), 2);
    assert_eq!(report.counter(NodeCounter::Calls), [vec![9, 10], vec![11, 12]]);
    let lookup = report.node("ip4-lookup").expect("the node is named once");
    assert_eq!(
        lookup,
        NodeUsage {
            name: "ip4-lookup".to_owned(),
            clocks: vec![2, 4],
            vectors: vec![6, 8],
            calls: vec![10, 12],
            suspends: vec![14, 16],
        }
    );
    assert_eq!(lookup.counter(NodeCounter::Suspends), [14, 16]);
    assert_eq!(lookup.counter(NodeCounter::Vectors), [6, 8]);
    assert!(report.node("ip6-lookup").is_none());
    let copy = report.clone();
    assert_eq!(copy, report);
}

#[test]
fn node_that_is_named_twice_has_no_column() {
    let directory = node_directory().with(
        "/sys/node/names",
        MetricValue::Names(vec!["drop".to_owned(), "drop".to_owned()]),
    );
    let report = node_report(&directory)
        .expect("the directory is well formed")
        .expect("the family is published");
    assert!(report.node("drop").is_none());
}

#[test]
fn absent_node_family_is_none() {
    let directory = node_directory().without("/sys/node/names");
    assert_eq!(node_report(&directory), Ok(None));
}

#[test]
fn node_report_rejects_unequal_rows() {
    let directory = node_directory().with(
        "/sys/node/calls",
        MetricValue::Simple(vec![vec![1, 2]]),
    );
    assert_eq!(
        node_report(&directory),
        Err(Error::UnexpectedRowCount {
            name: "/sys/node/calls".to_owned(),
            expected: 2,
            actual: 1,
        })
    );
}

#[test]
fn node_report_rejects_unequal_columns() {
    let directory = node_directory().with(
        "/sys/node/vectors",
        MetricValue::Simple(vec![vec![1, 2], vec![3]]),
    );
    assert_eq!(
        node_report(&directory),
        Err(Error::UnexpectedColumnCount {
            name: "/sys/node/vectors row 1".to_owned(),
            expected: 2,
            actual: 1,
        })
    );
}

#[test]
fn node_report_labels_rows_in_decimal() {
    let mut rows = vec![vec![0, 0]; 12];
    rows[11] = vec![0];
    let directory = node_directory()
        .with("/sys/node/clocks", MetricValue::Simple(rows))
        .with("/sys/node/vectors", MetricValue::Simple(vec![vec![0, 0]; 12]))
        .with("/sys/node/calls", MetricValue::Simple(vec![vec![0, 0]; 12]))
        .with("/sys/node/suspends", MetricValue::Simple(vec![vec![0, 0]; 12]));
    assert_eq!(
        node_report(&directory),
        Err(Error::UnexpectedColumnCount {
            name: "/sys/node/clocks row 11".to_owned(),
            expected: 2,
            actual: 1,
        })
    );
}

#[test]
fn node_report_rejects_other_thread_counts() {
    let directory = node_directory().with("/sys/num_worker_threads", MetricValue::Scalar(2));
    assert_eq!(
        node_report(&directory),
        Err(Error::WorkerCountMismatch {
            name: "/sys/node/clocks".to_owned(),
            worker_thread_count: 2,
            columns: 2,
        })
    );
    assert!(check_threads(0, u64::MAX).is_some());
    assert!(check_threads(1, 0).is_none());
}

#[test]
fn node_report_rejects_other_kinds() {
    let directory = node_directory().with("/sys/node/names", MetricValue::Gauge(1));
    assert_eq!(
        node_report(&directory),
        Err(Error::UnexpectedMetricType {
            name: "/sys/node/names".to_owned(),
            expected: "name_vector",
            actual: "gauge",
        })
    );
}

#[test]
fn node_counters_have_their_published_names() {
    let names = [
        NodeCounter::Clocks.name(),
        NodeCounter::Vectors.name(),
        NodeCounter::Calls.name(),
        NodeCounter::Suspends.name(),
    ];
    assert_eq!(names, ["clocks", "vectors", "calls", "suspends"]);
    assert_eq!(NodeStatsProvider::PREFIX, "/sys/node");
    assert_eq!(NodeErrorStatsProvider::PREFIX, "/err");
}

fn column(cells: &[u64]) -> Option<MetricValue> {
    Some(MetricValue::Simple(
        cells.iter().map(|cell| vec![*cell]).collect(),
    ))
}

fn error_report(directory: &Directory) -> Result<Option<NodeErrorStats>, Error> {
    NodeErrorStatsProvider::report(directory)
}

#[test]
fn error_report_is_ordered_by_node_and_error() {
    let directory = Directory {
        entries: vec![
            ("/err/ip4-input/bad checksum", column(&[1, 2])),
            ("/err/arp/zz", column(&[3, 4])),
            ("/err/arp/aa", column(&[5, 6])),
            ("/err/arp-input/x", column(&[7, 8])),
            ("/error", column(&[9])),
        ],
    };
    let report = error_report(&directory)
        .expect("every alias is well formed")
        .expect("the family is published");
    let pairs: Vec<(&str, &str)> = report
        .errors
        .iter()
        .map(|counters| (counters.node.as_str(), counters.error.as_str()))
        .collect();
    assert_eq!(
        pairs,
        [
            ("arp", "aa"),
            ("arp", "zz"),
            ("arp-input", "x"),
            ("ip4-input", "bad checksum"),
        ]
    );
    assert_eq!(report.total(), 36);
    let found = report.error("arp", "zz").expect("the pair is published");
    assert_eq!(found.counts, vec![3, 4]);
    assert_eq!(found.total(), 7);
    assert!(report.error("arp", "x").is_none());
    let of_node: Vec<&str> = report
        .node("arp")
        .into_iter()
        .map(|counters| counters.error.as_str())
        .collect();
    assert_eq!(of_node, ["aa", "zz"]);
    assert!(report.node("tcp").is_empty());
    let copy = report.clone();
    assert_eq!(copy, report);
}

#[test]
fn absent_error_family_is_none() {
    let directory = Directory {
        entries: vec![("/errors/a/b", column(&[1])), ("/err", column(&[1]))],
    };
    assert_eq!(error_report(&directory), Ok(None));
}

#[test]
fn error_names_without_both_segments_are_skipped() {
    let directory = Directory {
        entries: vec![
            ("/err/node", column(&[1])),
            ("/err//error", column(&[1])),
            ("/err/node/", column(&[1])),
        ],
    };
    let report = error_report(&directory)
        .expect("nothing is read")
        .expect("the family is listed");
    assert!(report.errors.is_empty());
    assert_eq!(report.total(), 0);
}

#[test]
fn error_alias_that_vanished_is_absent() {
    let directory = Directory {
        entries: vec![("/err/a/gone", None), ("/err/a/here", column(&[2]))],
    };
    let report = error_report(&directory)
        .expect("a vanished alias is no failure")
        .expect("the family is published");
    assert_eq!(
        report.errors,
        vec![NodeErrorCounters {
            node: "a".to_owned(),
            error: "here".to_owned(),
            counts: vec![2],
        }]
    );
}

#[test]
fn error_slashes_belong_to_the_error() {
    let directory = Directory {
        entries: vec![("/err/a/b/c", column(&[1]))],
    };
    let report = error_report(&directory)
        .expect("the alias is well formed")
        .expect("the family is published");
    assert!(report.error("a", "b/c").is_some());
}

#[test]
fn error_rows_have_one_cell() {
    let directory = Directory {
        entries: vec![(
            "/err/a/b",
            Some(MetricValue::Simple(vec![vec![1], vec![1, 2]])),
        )],
    };
    assert_eq!(
        error_report(&directory),
        Err(Error::UnexpectedColumnCount {
            name: "/err/a/b row 1".to_owned(),
            expected: 1,
            actual: 2,
        })
    );
    let scalar = Directory {
        entries: vec![("/err/a/b", Some(MetricValue::Scalar(1)))],
    };
    assert_eq!(
        error_report(&scalar),
        Err(Error::UnexpectedMetricType {
            name: "/err/a/b".to_owned(),
            expected: "counter_vector_simple",
            actual: "scalar_index",
        })
    );
}

#[test]
fn errors_that_rank_alike_keep_their_order() {
    let sampled_at = Instant::now();
    let stats = NodeErrorStats {
        errors: vec![
            NodeErrorCounters {
                node: "a".to_owned(),
                error: "b".to_owned(),
                counts: vec![1],
            },
            NodeErrorCounters {
                node: "a".to_owned(),
                error: "b".to_owned(),
                counts: vec![2],
            },
        ],
        sampled_at,
    };
    let first = stats.error("a", "b").expect("the pair is there");
    assert_eq!(first.counts, vec![1]);
    let sorted = netsystem_client::order::sort(stats.errors);
    assert_eq!(sorted[0].counts, vec![1]);
    assert_eq!(sorted[1].counts, vec![2]);
}
