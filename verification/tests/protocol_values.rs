//! The layout types of the stats segment.

use netsystem_client::stats::protocol::{
    Counter, DirectoryEntry, DirectoryType, MetricValue, ProtocolError, PublishedVector,
    SharedHeader, MAX_NAME_BYTES, MAX_NAME_LENGTH, STAT_SEGMENT_VERSION,
};

fn slot(code: u32, data: u64, name: &[u8]) -> Vec<u8> {
    let mut bytes = vec![0; 144];
    bytes[..4].copy_from_slice(&code.to_le_bytes());
    bytes[8..16].copy_from_slice(&data.to_le_bytes());
    bytes[16..16 + name.len()].copy_from_slice(name);
    bytes
}

#[test]
fn type_numbers_and_labels_agree() {
    let labels = [
        "illegal",
        "scalar_index",
        "counter_vector_simple",
        "counter_vector_combined",
        "name_vector",
        "empty",
        "symlink",
        "histogram_log2",
        "ring_buffer",
        "gauge",
    ];
    for (raw, label) in labels.iter().enumerate() {
        let found = DirectoryType::try_from(raw as u32).expect("the number is known");
        assert_eq!(found.label(), *label);
        assert_eq!(<&'static str>::from(found), *label);
    }
    assert_eq!(
        DirectoryType::try_from(10),
        Err(ProtocolError::UnknownDirectoryType { raw: 10 })
    );
    assert_eq!(
        DirectoryType::try_from(u32::MAX),
        Err(ProtocolError::UnknownDirectoryType { raw: u32::MAX })
    );
}

#[test]
fn header_fields_lie_where_they_are_published() {
    let mut bytes = Vec::new();
    for field in [2u64, 0x1000, 7, 0, 0x2000] {
        bytes.extend_from_slice(&field.to_le_bytes());
    }
    let header = SharedHeader::read(&bytes).expect("forty bytes are a header");
    assert_eq!(header.version(), STAT_SEGMENT_VERSION);
    assert_eq!(header.base(), 0x1000);
    assert_eq!(header.epoch(), 7);
    assert!(!header.is_write_in_progress());
    assert_eq!(header.directory_vector(), 0x2000);
    assert_eq!(header.validate_version(), Ok(()));
    bytes[24] = 1;
    bytes[0] = 1;
    let header = SharedHeader::read(&bytes).expect("forty bytes are a header");
    assert!(header.is_write_in_progress());
    assert_eq!(
        header.validate_version(),
        Err(ProtocolError::VersionMismatch {
            actual: 1,
            expected: 2,
        })
    );
    assert!(SharedHeader::read(&bytes[..39]).is_err());
}

#[test]
fn entries_give_what_their_type_allows() {
    let scalar = DirectoryEntry::read(&slot(1, 9, b"/a"));
    assert_eq!(scalar.directory_type(), Ok(DirectoryType::ScalarIndex));
    assert_eq!(scalar.name(), Ok("/a"));
    assert_eq!(scalar.scalar(), Ok(9));
    assert_eq!(
        scalar.data_pointer(),
        Err(ProtocolError::DirectoryTypeMismatch {
            name: "/a".to_owned(),
            expected: "counter_vector_simple",
            actual: "scalar_index",
        })
    );
    let gauge = DirectoryEntry::read(&slot(9, 10, b"/g"));
    assert_eq!(gauge.scalar(), Ok(10));
    for code in [2, 3, 7, 8] {
        let vector = DirectoryEntry::read(&slot(code, 0x5000, b"/v"));
        assert_eq!(vector.data_pointer(), Ok(0x5000));
    }
    let names = DirectoryEntry::read(&slot(4, 0x6000, b"/n"));
    assert_eq!(names.name_vector_pointer(), Ok(0x6000));
    assert_eq!(
        names.scalar(),
        Err(ProtocolError::DirectoryTypeMismatch {
            name: "/n".to_owned(),
            expected: "scalar_index or gauge",
            actual: "name_vector",
        })
    );
    let link = DirectoryEntry::read(&slot(6, 0xffff_fffe_0000_0003, b"/l"));
    assert_eq!(link.symlink(), Ok((3, 0xffff_fffe)));
    assert_eq!(
        link.name_vector_pointer(),
        Err(ProtocolError::DirectoryTypeMismatch {
            name: "/l".to_owned(),
            expected: "name_vector",
            actual: "symlink",
        })
    );
    let unknown = DirectoryEntry::read(&slot(12, 0, b"/u"));
    assert_eq!(
        unknown.symlink(),
        Err(ProtocolError::UnknownDirectoryType { raw: 12 })
    );
}

#[test]
fn diagnostics_name_entries_with_stand_ins() {
    let entry = DirectoryEntry::read(&slot(1, 0, b"a\xffb"));
    assert_eq!(entry.name(), Err(ProtocolError::InvalidNameEncoding));
    assert_eq!(
        entry.symlink(),
        Err(ProtocolError::DirectoryTypeMismatch {
            name: "a\u{fffd}b".to_owned(),
            expected: "symlink",
            actual: "scalar_index",
        })
    );
    let full = DirectoryEntry::read(&slot(1, 0, &[b'x'; 128]));
    assert_eq!(full.name(), Err(ProtocolError::MissingNameTerminator));
    assert_eq!(
        full.symlink(),
        Err(ProtocolError::DirectoryTypeMismatch {
            name: "x".repeat(MAX_NAME_BYTES),
            expected: "symlink",
            actual: "scalar_index",
        })
    );
    assert_eq!(MAX_NAME_LENGTH, 126);
}

#[test]
fn names_are_utf8() {
    let entry = DirectoryEntry::read(&slot(1, 0, "/größe".as_bytes()));
    assert_eq!(entry.name(), Ok("/größe"));
}

#[test]
fn columns_are_kept_per_row() {
    let simple = MetricValue::Simple(vec![vec![1, 2], vec![3, 4]]);
    assert_eq!(
        simple.column(1),
        Ok(MetricValue::Simple(vec![vec![2], vec![4]]))
    );
    assert_eq!(
        simple.column(2),
        Err(ProtocolError::ElementOutOfBounds {
            index: 2,
            length: 2,
        })
    );
    let cell = Counter { packets: 1, bytes: 2 };
    assert_eq!(
        MetricValue::Combined(vec![vec![cell]]).column(0),
        Ok(MetricValue::Combined(vec![vec![cell]]))
    );
    assert_eq!(
        MetricValue::Histogram(vec![vec![5, 6]]).column(1),
        Ok(MetricValue::Histogram(vec![vec![6]]))
    );
    for rowless in [
        MetricValue::Scalar(1),
        MetricValue::Gauge(2),
        MetricValue::Names(vec!["a".to_owned()]),
        MetricValue::Ring(vec![vec![1, 2, 3]]),
    ] {
        assert_eq!(rowless.column(9), Ok(rowless.clone()));
    }
    assert_eq!(Counter::default(), Counter { packets: 0, bytes: 0 });
}

#[test]
fn vectors_check_every_bound() {
    let base = 0x1000;
    let mut mapping = vec![0u8; 64];
    mapping[8] = 3;
    mapping[13] = 0x82;
    mapping[16] = 0x11;
    mapping[24] = 0x22;
    let vector =
        PublishedVector::resolve(&mapping, base, base + 16, 8).expect("the vector is inside");
    assert_eq!(vector.len(), 3);
    assert!(!vector.is_empty());
    assert_eq!(vector.alignment(), 32);
    assert_eq!(vector.u64(&mapping, 0), Ok(0x11));
    assert_eq!(vector.pointer(&mapping, 1), Ok(0x22));
    assert_eq!(
        vector.u64(&mapping, 3),
        Err(ProtocolError::ElementOutOfBounds {
            index: 3,
            length: 3,
        })
    );
    assert_eq!(
        vector.u64(&mapping[..32], 2),
        Err(ProtocolError::VectorOutOfBounds { length: 32 })
    );
    let small = PublishedVector::resolve(&mapping, base, base + 16, 4).expect("it is inside");
    assert_eq!(small.element(&mapping, 2), Ok(&mapping[24..28]));
    assert_eq!(
        small.u64(&mapping, 0),
        Err(ProtocolError::ElementTooSmall {
            expected: 8,
            actual: 4,
        })
    );
    assert_eq!(
        small.pointer(&mapping, 0),
        Err(ProtocolError::ElementTooSmall {
            expected: 8,
            actual: 4,
        })
    );
    assert_eq!(
        PublishedVector::resolve(&mapping, base, base - 1, 8).err(),
        Some(ProtocolError::PointerBeforeBase {
            pointer: base - 1,
            base,
        })
    );
    assert_eq!(
        PublishedVector::resolve(&mapping, base, base + 7, 8).err(),
        Some(ProtocolError::VectorOutOfBounds { length: 64 })
    );
    assert_eq!(
        PublishedVector::resolve(&mapping, base, base + 65, 8).err(),
        Some(ProtocolError::VectorOutOfBounds { length: 64 })
    );
    let huge = PublishedVector::resolve(&mapping, base, base + 16, usize::MAX)
        .expect("the header is inside");
    assert_eq!(
        huge.element(&mapping, 2),
        Err(ProtocolError::VectorOutOfBounds { length: 64 })
    );
    let end = PublishedVector::resolve(&mapping, base, base + 64, 8).expect("the header is inside");
    assert!(end.is_empty());
}
