//! Raw reads of a stats segment built in memory.

use std::cell::RefCell;

use netsystem_client::stats::client::{
    published_answer, read_header, recheck, Answer, Query, StatsClient, RETRY_LIMIT,
};
use netsystem_client::stats::error::Error;
use netsystem_client::stats::looks::{Looks, SegmentMapping};
use netsystem_client::stats::memory::MemoryStatsProvider;
use netsystem_client::stats::protocol::{Counter, MetricValue, ProtocolError};
use netsystem_client::stats::provider::StatsProvider;

const BASE: u64 = 0x7000_0000_0000;
const SIZE: usize = 16384;

/// Writes a segment as its publisher lays it out.
struct Segment {
    bytes: Vec<u8>,
    top: usize,
    entries: Vec<(String, u32, u64)>,
}

impl Segment {
    fn new() -> Self {
        Segment {
            bytes: vec![0; SIZE],
            top: 64,
            entries: Vec::new(),
        }
    }

    fn put(&mut self, at: usize, value: u64) {
        self.bytes[at..at + 8].copy_from_slice(&value.to_le_bytes());
    }

    /// Reserves a vector with its header and gives the offset of its data.
    fn vector(&mut self, length: u32, bytes: usize) -> usize {
        let header = self.top;
        self.bytes[header..header + 4].copy_from_slice(&length.to_le_bytes());
        let data = header + 8;
        self.top = (data + bytes + 7) / 8 * 8;
        data
    }

    fn words(&mut self, values: &[u64]) -> u64 {
        let data = self.vector(values.len() as u32, values.len() * 8);
        for (index, value) in values.iter().enumerate() {
            self.put(data + index * 8, *value);
        }
        BASE + data as u64
    }

    fn rows(&mut self, rows: &[&[u64]]) -> u64 {
        let pointers: Vec<u64> = rows.iter().map(|row| self.words(row)).collect();
        self.words(&pointers)
    }

    fn combined(&mut self, rows: &[&[(u64, u64)]]) -> u64 {
        let mut pointers = Vec::new();
        for row in rows {
            let data = self.vector(row.len() as u32, row.len() * 16);
            for (index, cell) in row.iter().enumerate() {
                self.put(data + index * 16, cell.0);
                self.put(data + index * 16 + 8, cell.1);
            }
            pointers.push(BASE + data as u64);
        }
        self.words(&pointers)
    }

    fn text(&mut self, text: &[u8]) -> u64 {
        let at = self.top;
        self.bytes[at..at + text.len()].copy_from_slice(text);
        self.top = (at + text.len() + 8) / 8 * 8;
        BASE + at as u64
    }

    fn entry(&mut self, name: &str, code: u32, data: u64) {
        self.entries.push((name.to_owned(), code, data));
    }

    /// Writes the directory and the header.
    fn publish(mut self, epoch: u64) -> Vec<u8> {
        let entries = std::mem::take(&mut self.entries);
        let data = self.vector(entries.len() as u32, entries.len() * 144);
        for (index, entry) in entries.iter().enumerate() {
            let at = data + index * 144;
            self.bytes[at..at + 4].copy_from_slice(&entry.1.to_le_bytes());
            self.put(at + 8, entry.2);
            let name = entry.0.as_bytes();
            self.bytes[at + 16..at + 16 + name.len()].copy_from_slice(name);
        }
        self.put(0, 2);
        self.put(8, BASE);
        self.put(16, epoch);
        self.put(24, 0);
        self.put(32, BASE + data as u64);
        self.bytes
    }
}

/// Always shows the same bytes.
struct Quiet(Vec<u8>);

impl SegmentMapping for Quiet {
    fn bytes(&self) -> &[u8] {
        &self.0
    }
}

/// Shows one image after another, and the last one for ever.
struct Changing {
    images: Vec<Vec<u8>>,
    shown: RefCell<usize>,
}

impl Changing {
    fn new(images: Vec<Vec<u8>>) -> Self {
        Changing {
            images,
            shown: RefCell::new(0),
        }
    }
}

impl SegmentMapping for Changing {
    fn bytes(&self) -> &[u8] {
        let mut shown = self.shown.borrow_mut();
        let index = (*shown).min(self.images.len() - 1);
        *shown += 1;
        &self.images[index]
    }
}

fn sample() -> Segment {
    let mut segment = Segment::new();
    let simple = segment.rows(&[&[1, 2, 3], &[4, 5, 6]]);
    let combined = segment.combined(&[&[(1, 10), (2, 20)], &[(3, 30), (4, 40)]]);
    let first = segment.text(b"ethernet-input\0");
    let second = segment.text(b"drop\0");
    let names = segment.words(&[first, second]);
    let holes = segment.words(&[0, 0]);
    segment.entry("/sys/heartbeat", 1, 77);
    segment.entry("/if/rx", 2, simple);
    segment.entry("/if/tx", 3, combined);
    segment.entry("/sys/node/names", 4, names);
    segment.entry("", 5, 0);
    segment.entry("/interfaces/eth1/rx", 6, (1 << 32) | 1);
    segment.entry("/hist", 7, simple);
    segment.entry("/ring", 8, simple);
    segment.entry("/gauge", 9, 5);
    segment.entry("/illegal", 0, 0);
    segment.entry("/if/none", 2, holes);
    segment.entry("/interfaces/eth1/tx", 6, (1 << 32) | 2);
    segment.entry("/alias/gauge", 6, (9 << 32) | 8);
    segment
}

fn client() -> StatsClient<Quiet> {
    StatsClient::connect(Quiet(sample().publish(3))).expect("the segment is of the version")
}

fn layout(source: ProtocolError) -> Error {
    Error::Protocol { source }
}

#[test]
fn names_are_listed_in_directory_order() {
    let names = client().names().expect("every name is well formed");
    assert_eq!(names.len(), 13);
    assert_eq!(names[0], "/sys/heartbeat");
    assert_eq!(names[4], "", "a free slot keeps its place");
    assert_eq!(names[12], "/alias/gauge");
}

#[test]
fn every_decoded_kind_reads_back() {
    let client = client();
    assert_eq!(client.read("/sys/heartbeat"), Ok(MetricValue::Scalar(77)));
    assert_eq!(client.read("/gauge"), Ok(MetricValue::Gauge(5)));
    assert_eq!(
        client.read("/if/rx"),
        Ok(MetricValue::Simple(vec![vec![1, 2, 3], vec![4, 5, 6]]))
    );
    assert_eq!(
        client.read("/if/tx"),
        Ok(MetricValue::Combined(vec![
            vec![
                Counter { packets: 1, bytes: 10 },
                Counter { packets: 2, bytes: 20 },
            ],
            vec![
                Counter { packets: 3, bytes: 30 },
                Counter { packets: 4, bytes: 40 },
            ],
        ]))
    );
    assert_eq!(
        client.read("/sys/node/names"),
        Ok(MetricValue::Names(vec![
            "ethernet-input".to_owned(),
            "drop".to_owned(),
        ]))
    );
    assert_eq!(
        client.read("/if/none"),
        Ok(MetricValue::Simple(vec![vec![], vec![]])),
        "a null row is empty"
    );
}

#[test]
fn symlinks_give_one_column_of_their_target() {
    let client = client();
    assert_eq!(
        client.read("/interfaces/eth1/rx"),
        Ok(MetricValue::Simple(vec![vec![2], vec![5]]))
    );
    assert_eq!(
        client.read("/interfaces/eth1/tx"),
        Ok(MetricValue::Combined(vec![
            vec![Counter { packets: 2, bytes: 20 }],
            vec![Counter { packets: 4, bytes: 40 }],
        ]))
    );
    assert_eq!(
        client.read("/alias/gauge"),
        Ok(MetricValue::Gauge(5)),
        "a gauge has no columns"
    );
}

#[test]
fn kinds_without_a_decoder_are_reported() {
    let client = client();
    for (name, kind) in [
        ("/hist", "histogram_log2"),
        ("/ring", "ring_buffer"),
        ("/illegal", "illegal"),
        ("", "empty"),
    ] {
        assert_eq!(
            client.read(name),
            Err(Error::UnsupportedDirectoryType {
                name: name.to_owned(),
                directory_type: kind,
            })
        );
    }
}

#[test]
fn listed_names_are_readable_and_others_are_missing() {
    let client = client();
    for name in client.names().expect("the listing succeeds") {
        let missing = Err(Error::MetricNotFound { name: name.clone() });
        assert_ne!(client.read(&name), missing);
    }
    assert_eq!(
        client.read("/nowhere"),
        Err(Error::MetricNotFound {
            name: "/nowhere".to_owned(),
        })
    );
}

#[test]
fn symlink_cycles_end() {
    let mut segment = Segment::new();
    segment.entry("/a", 6, 1);
    segment.entry("/b", 6, 0);
    let client = StatsClient::connect(Quiet(segment.publish(1))).expect("the header is fine");
    assert_eq!(
        client.read("/a"),
        Err(Error::SymlinkCycle {
            name: "/a".to_owned(),
            depth: 16,
        })
    );
}

#[test]
fn long_symlink_chains_end_too() {
    let mut segment = Segment::new();
    for index in 0..15u64 {
        segment.entry(&format!("/{index}"), 6, index + 1);
    }
    segment.entry("/15", 9, 4);
    let client = StatsClient::connect(Quiet(segment.publish(1))).expect("the header is fine");
    assert_eq!(client.read("/0"), Ok(MetricValue::Gauge(4)), "fifteen hops");
    let mut segment = Segment::new();
    for index in 0..16u64 {
        segment.entry(&format!("/{index}"), 6, index + 1);
    }
    segment.entry("/16", 9, 4);
    let client = StatsClient::connect(Quiet(segment.publish(1))).expect("the header is fine");
    assert_eq!(
        client.read("/0"),
        Err(Error::SymlinkCycle {
            name: "/0".to_owned(),
            depth: 16,
        }),
        "sixteen hops are too many"
    );
}

#[test]
fn symlink_columns_are_bounded() {
    let mut segment = Segment::new();
    let simple = segment.rows(&[&[1, 2], &[3]]);
    segment.entry("/simple", 2, simple);
    segment.entry("/link", 6, 1 << 32);
    let client = StatsClient::connect(Quiet(segment.publish(1))).expect("the header is fine");
    assert_eq!(
        client.read("/link"),
        Err(layout(ProtocolError::ElementOutOfBounds {
            index: 1,
            length: 1,
        }))
    );
}

#[test]
fn malformed_entries_are_reported() {
    let mut segment = Segment::new();
    segment.entry("/unknown", 11, 0);
    let client = StatsClient::connect(Quiet(segment.publish(1))).expect("the header is fine");
    assert_eq!(
        client.read("/unknown"),
        Err(layout(ProtocolError::UnknownDirectoryType { raw: 11 }))
    );
    let mut segment = Segment::new();
    segment.entry(&"x".repeat(127), 9, 0);
    let client = StatsClient::connect(Quiet(segment.publish(1))).expect("the header is fine");
    assert_eq!(
        client.names(),
        Err(layout(ProtocolError::NameTooLong { length: 127 }))
    );
    let mut segment = Segment::new();
    segment.entry(&"x".repeat(128), 9, 0);
    let client = StatsClient::connect(Quiet(segment.publish(1))).expect("the header is fine");
    assert_eq!(
        client.names(),
        Err(layout(ProtocolError::MissingNameTerminator))
    );
    let mut segment = Segment::new();
    segment.entry("a\0b", 9, 0);
    let client = StatsClient::connect(Quiet(segment.publish(1))).expect("the header is fine");
    assert_eq!(
        client.read("a"),
        Err(layout(ProtocolError::InvalidNamePadding))
    );
    let mut segment = Segment::new();
    segment.entry(&"x".repeat(126), 9, 3);
    let client = StatsClient::connect(Quiet(segment.publish(1))).expect("the header is fine");
    assert_eq!(
        client.read(&"x".repeat(126)),
        Ok(MetricValue::Gauge(3)),
        "the longest name fits"
    );
}

#[test]
fn a_malformed_name_in_front_fails_the_search() {
    let mut segment = Segment::new();
    segment.entry("/first", 9, 1);
    segment.entry("bad\0name", 9, 2);
    segment.entry("/last", 9, 3);
    let client = StatsClient::connect(Quiet(segment.publish(1))).expect("the header is fine");
    assert_eq!(client.read("/first"), Ok(MetricValue::Gauge(1)));
    assert_eq!(
        client.read("/last"),
        Err(layout(ProtocolError::InvalidNamePadding))
    );
}

#[test]
fn published_pointers_are_bounded() {
    let mut segment = Segment::new();
    segment.entry("/before", 2, BASE - 8);
    segment.entry("/behind", 2, BASE + SIZE as u64 + 8);
    segment.entry("/front", 2, BASE + 4);
    let text_before = segment.words(&[BASE - 1]);
    segment.entry("/names/before", 4, text_before);
    let text_behind = segment.words(&[BASE + SIZE as u64 + 1]);
    segment.entry("/names/behind", 4, text_behind);
    let text_end = segment.words(&[BASE + SIZE as u64]);
    segment.entry("/names/end", 4, text_end);
    let broken = segment.text(b"\xff\xfe\0");
    let text_broken = segment.words(&[broken]);
    segment.entry("/names/broken", 4, text_broken);
    let client = StatsClient::connect(Quiet(segment.publish(1))).expect("the header is fine");
    assert_eq!(
        client.read("/before"),
        Err(layout(ProtocolError::PointerBeforeBase {
            pointer: (BASE - 8) as usize,
            base: BASE as usize,
        }))
    );
    let outside = layout(ProtocolError::VectorOutOfBounds { length: SIZE });
    assert_eq!(client.read("/behind"), Err(outside.clone()));
    assert_eq!(client.read("/front"), Err(outside.clone()));
    assert_eq!(
        client.read("/names/before"),
        Err(layout(ProtocolError::PointerBeforeBase {
            pointer: (BASE - 1) as usize,
            base: BASE as usize,
        }))
    );
    assert_eq!(client.read("/names/behind"), Err(outside));
    assert_eq!(
        client.read("/names/end"),
        Err(layout(ProtocolError::MissingNameTerminator))
    );
    assert_eq!(
        client.read("/names/broken"),
        Err(layout(ProtocolError::InvalidNameEncoding))
    );
}

#[test]
fn connect_checks_the_header() {
    let short = StatsClient::connect(Quiet(vec![0; 39]));
    assert_eq!(
        short.err(),
        Some(layout(ProtocolError::InvalidMapping))
    );
    let mut bytes = sample().publish(1);
    bytes[0] = 3;
    assert_eq!(
        StatsClient::connect(Quiet(bytes)).err(),
        Some(layout(ProtocolError::VersionMismatch {
            actual: 3,
            expected: 2,
        }))
    );
}

fn at_work(mut image: Vec<u8>) -> Vec<u8> {
    image[24] = 1;
    image
}

#[test]
fn a_segment_that_is_always_written_exhausts_the_retries() {
    let client =
        StatsClient::connect(Quiet(at_work(sample().publish(1)))).expect("the version is right");
    assert_eq!(
        client.names(),
        Err(Error::RetryExhausted {
            operation: "names",
            attempts: 16,
        })
    );
    assert_eq!(
        client.read("/gauge"),
        Err(Error::RetryExhausted {
            operation: "read",
            attempts: 16,
        })
    );
}

#[test]
fn a_round_that_saw_a_writer_is_read_again() {
    let quiet = sample().publish(1);
    // Connect, a busy start, and a quiet round.
    let mapping = Changing::new(vec![
        quiet.clone(),
        at_work(quiet.clone()),
        quiet.clone(),
    ]);
    let client = StatsClient::connect(mapping).expect("the version is right");
    assert_eq!(client.read("/gauge"), Ok(MetricValue::Gauge(5)));
}

#[test]
fn an_epoch_that_changes_during_a_round_discards_it() {
    let mut later = sample();
    later.entry("/new", 9, 9);
    let before = sample().publish(1);
    let after = later.publish(2);
    // Connect; start and image of the old epoch; end of the new one. What the
    // first round decoded is dropped, and the second round sees the new epoch.
    let mapping = Changing::new(vec![
        before.clone(),
        before.clone(),
        before,
        after,
    ]);
    let client = StatsClient::connect(mapping).expect("the version is right");
    assert_eq!(client.read("/new"), Err(Error::MetricNotFound { name: "/new".to_owned() }));
    let mapping = Changing::new(vec![
        sample().publish(1),
        sample().publish(1),
        sample().publish(1),
        {
            let mut later = sample();
            later.entry("/gauge2", 9, 9);
            later.publish(2)
        },
    ]);
    let client = StatsClient::connect(mapping).expect("the version is right");
    assert_eq!(
        client.names().expect("the second round is quiet").len(),
        14,
        "the names are those of the new epoch"
    );
}

#[test]
fn a_header_that_breaks_during_a_round_fails_it() {
    let quiet = sample().publish(1);
    let mut broken = quiet.clone();
    broken[0] = 9;
    let mapping = Changing::new(vec![quiet.clone(), quiet.clone(), quiet, broken]);
    let client = StatsClient::connect(mapping).expect("the version is right");
    assert_eq!(
        client.names(),
        Err(layout(ProtocolError::VersionMismatch {
            actual: 9,
            expected: 2,
        }))
    );
}

#[test]
fn reports_run_over_a_client() {
    let mut segment = Segment::new();
    let heap = segment.rows(&[&[1, 2, 3, 4, 5, 6, 7]]);
    segment.entry("/mem/main", 2, heap);
    segment.entry("/mem/main/used", 6, 1 << 32);
    let client = StatsClient::connect(Quiet(segment.publish(1))).expect("the header is fine");
    let report = client
        .report::<MemoryStatsProvider>()
        .expect("the heap is well formed");
    assert_eq!(report.heaps.len(), 1);
    assert_eq!(report.heaps[0].name, "main");
    assert_eq!(report.heaps[0].releasable_bytes, 7);
    assert_eq!(
        client.read("/mem/main/used"),
        Ok(MetricValue::Simple(vec![vec![2]]))
    );
}

/// A mapping that somebody else keeps.
struct Shared<'a>(&'a Changing);

impl<'a> SegmentMapping for Shared<'a> {
    fn bytes(&self) -> &[u8] {
        self.0.bytes()
    }
}

/// How often a mapping was looked at.
fn looks_at(mapping: &Changing) -> usize {
    *mapping.shown.borrow()
}

#[test]
fn a_quiet_answer_takes_three_looks() {
    let mapping = Changing::new(vec![sample().publish(1)]);
    let mut looks = Looks::new(&mapping);
    match published_answer(&mut looks, "read", &Query::Value("/gauge")) {
        Ok(Answer::Value(value)) => assert_eq!(value, MetricValue::Gauge(5)),
        _ => panic!("the gauge is published"),
    }
    assert_eq!(looks_at(&mapping), 3, "header, directory, header");
}

#[test]
fn a_failure_ends_at_the_look_that_shows_it() {
    let mapping = Changing::new(vec![vec![0; 39]]);
    let mut looks = Looks::new(&mapping);
    let result = published_answer(&mut looks, "names", &Query::Names);
    assert_eq!(result.err(), Some(layout(ProtocolError::InvalidMapping)));
    assert_eq!(looks_at(&mapping), 1, "the header");
    let mapping = Changing::new(vec![sample().publish(1)]);
    let mut looks = Looks::new(&mapping);
    let result = published_answer(&mut looks, "read", &Query::Value("/nowhere"));
    assert_eq!(
        result.err(),
        Some(Error::MetricNotFound {
            name: "/nowhere".to_owned(),
        })
    );
    assert_eq!(looks_at(&mapping), 2, "the header and the directory");
}

#[test]
fn a_writer_at_every_look_takes_one_look_an_attempt() {
    let mapping = Changing::new(vec![at_work(sample().publish(1))]);
    let mut looks = Looks::new(&mapping);
    let result = published_answer(&mut looks, "names", &Query::Names);
    assert_eq!(
        result.err(),
        Some(Error::RetryExhausted {
            operation: "names",
            attempts: 16,
        })
    );
    assert_eq!(looks_at(&mapping), RETRY_LIMIT);
}

#[test]
fn a_new_epoch_at_every_re_check_takes_three_looks_an_attempt() {
    // The epoch grows from look to look, so no two looks agree.
    let images = (1..=48).map(|epoch| sample().publish(epoch)).collect();
    let mapping = Changing::new(images);
    let mut looks = Looks::new(&mapping);
    let result = published_answer(&mut looks, "names", &Query::Names);
    assert_eq!(
        result.err(),
        Some(Error::RetryExhausted {
            operation: "names",
            attempts: 16,
        })
    );
    assert_eq!(looks_at(&mapping), 48);
}

#[test]
fn the_last_attempt_still_answers() {
    let quiet = sample().publish(1);
    let mut images = vec![at_work(quiet.clone()); 15];
    images.push(quiet);
    let mapping = Changing::new(images);
    let mut looks = Looks::new(&mapping);
    let result = published_answer(&mut looks, "names", &Query::Names);
    assert!(result.is_ok());
    assert_eq!(looks_at(&mapping), 18, "fifteen writers and one quiet attempt");
}

#[test]
fn the_answer_is_that_of_the_middle_look() {
    let image_of = |name: &str| {
        let mut segment = Segment::new();
        segment.entry(name, 9, 1);
        segment.publish(1)
    };
    let images = vec![image_of("/first"), image_of("/second"), image_of("/third")];
    let mapping = Changing::new(images);
    let mut looks = Looks::new(&mapping);
    match published_answer(&mut looks, "names", &Query::Names) {
        Ok(Answer::Names(names)) => assert_eq!(names, vec!["/second".to_owned()]),
        _ => panic!("the epochs agree"),
    }
}

#[test]
fn a_re_check_compares_the_epochs() {
    let first = sample().publish(1);
    let header = match read_header(&first) {
        Ok(header) => header,
        Err(_) => panic!("the header is fine"),
    };
    assert_eq!(recheck(&header, &first), Ok(true));
    assert_eq!(recheck(&header, &sample().publish(2)), Ok(false));
    assert_eq!(recheck(&header, &at_work(first)), Ok(false));
    assert_eq!(
        recheck(&header, &[0; 39]),
        Err(layout(ProtocolError::InvalidMapping))
    );
}

#[test]
fn connecting_takes_one_look() {
    let mapping = Changing::new(vec![sample().publish(1)]);
    let client = StatsClient::connect(Shared(&mapping)).expect("the version is right");
    assert_eq!(looks_at(&mapping), 1);
    assert_eq!(client.names().expect("the listing succeeds").len(), 13);
    assert_eq!(looks_at(&mapping), 4);
}

#[test]
fn a_report_through_the_client_is_the_providers_own() {
    let mut segment = Segment::new();
    let heap = segment.rows(&[&[1, 2, 3, 4, 5, 6, 7]]);
    segment.entry("/mem/main", 2, heap);
    let client = StatsClient::connect(Quiet(segment.publish(1))).expect("the header is fine");
    assert_eq!(
        client.report::<MemoryStatsProvider>(),
        MemoryStatsProvider::report(&client)
    );
    let busy = StatsClient::connect(Quiet(at_work(sample().publish(1)))).expect("the version");
    assert_eq!(
        busy.report::<MemoryStatsProvider>(),
        MemoryStatsProvider::report(&busy)
    );
    assert_eq!(
        busy.report::<MemoryStatsProvider>(),
        Err(Error::RetryExhausted {
            operation: "names",
            attempts: 16,
        })
    );
}
