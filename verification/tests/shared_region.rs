//! The shared region, its heap, and the messages in it.

use netsystem_client::api::codec::CodecError;
use netsystem_client::api::memory::{
    check_consumed, check_element_size, room_from, MemoryError, MsgBuf, Release, ShmemHeader,
};
use netsystem_client::io::{IoError, IoErrorKind};
use netsystem_client::shmem::heap::{
    heap_layout, moved_bytes, plan_reallocation, BlockLayout, MemHeap, Reallocation,
};
use netsystem_client::shmem::queue::{committed, SvmQueueError, SvmQueueOperation};
use netsystem_client::shmem::region::{
    check_reservation, mapping_offset, probe_backing, probe_size, reservation_failure, retryable,
    SvmRegion, SvmRegionError, SvmRegionFlags, SvmRegionHeader, SVM_PVT_HEAP_SIZE,
    SVM_REGION_VERSION,
};

const PAGE: usize = 4096;
const BASE: usize = 0x1_3000_0000;
const SIZE: usize = 64 * PAGE;

fn put(bytes: &mut [u8], at: usize, value: u64) {
    bytes[at..at + 8].copy_from_slice(&value.to_le_bytes());
}

/// The first page of a region that is ready.
fn first_page() -> Vec<u8> {
    let mut page = vec![0; PAGE];
    put(&mut page, 0, SVM_REGION_VERSION);
    put(&mut page, 104, 1);
    put(&mut page, 112, BASE as u64);
    put(&mut page, 120, SIZE as u64);
    put(&mut page, 128, 0x10);
    put(&mut page, 144, 0x20);
    put(&mut page, 152, 0x30);
    page
}

fn heap(base: usize, size: usize) -> MemHeap {
    let mut bytes = vec![0; 28];
    put(&mut bytes, 0, base as u64);
    put(&mut bytes, 8, 0xabc0);
    put(&mut bytes, 16, size as u64);
    MemHeap::read(&bytes)
}

fn other(kind: IoErrorKind) -> IoError {
    IoError { kind, code: None }
}

#[test]
fn constants_are_the_published_ones() {
    assert_eq!(SVM_REGION_VERSION, (2 << 16) | 2);
    assert_eq!(SVM_PVT_HEAP_SIZE, 128 << 10);
}

#[test]
fn flags_contain_their_parts() {
    let both = SvmRegionFlags::from_bits(5);
    assert!(both.contains(SvmRegionFlags::data_heap()));
    assert!(both.contains(SvmRegionFlags::nodata()));
    assert!(both.contains(SvmRegionFlags::none()));
    assert!(!SvmRegionFlags::none().contains(SvmRegionFlags::nodata()));
    assert_eq!(SvmRegionFlags::data_heap().bits(), 1);
    assert_eq!(SvmRegionFlags::nodata().bits(), 4);
}

#[test]
fn backing_sizes_are_checked() {
    assert_eq!(probe_size(SIZE as i64, PAGE), Ok(SIZE));
    assert_eq!(probe_size(PAGE as i64 - 1, PAGE), Err(SvmRegionError::NotReady));
    assert_eq!(
        probe_size(-1, PAGE),
        Err(SvmRegionError::BackingMetadata {
            source: other(IoErrorKind::InvalidData),
        })
    );
}

#[test]
fn first_pages_declare_an_extent() {
    let page = first_page();
    assert_eq!(probe_backing(&page, SIZE, PAGE), Ok((BASE, SIZE)));
    assert_eq!(
        probe_backing(&page[..255], SIZE, PAGE),
        Err(SvmRegionError::NotReady)
    );
    assert_eq!(
        probe_backing(&page, SIZE - 1, PAGE),
        Err(SvmRegionError::BackingMetadata {
            source: other(IoErrorKind::UnexpectedEof),
        })
    );
    let mut fresh = page.clone();
    put(&mut fresh, 0, 0);
    assert_eq!(
        probe_backing(&fresh, SIZE, PAGE),
        Err(SvmRegionError::NotReady)
    );
    put(&mut fresh, 0, 7);
    assert_eq!(
        probe_backing(&fresh, SIZE, PAGE),
        Err(SvmRegionError::UnsupportedVersion {
            found: 7,
            expected: SVM_REGION_VERSION,
        })
    );
    for (at, value) in [
        (112, 0),
        (120, PAGE as u64 - 1),
        (120, PAGE as u64 + 1),
    ] {
        let mut odd = page.clone();
        put(&mut odd, at, value);
        assert_eq!(
            probe_backing(&odd, SIZE, PAGE),
            Err(SvmRegionError::NotReady)
        );
    }
}

#[test]
fn a_backing_without_a_whole_page_is_not_ready() {
    let mut page = first_page();
    assert_eq!(
        probe_backing(&page, PAGE - 1, PAGE),
        Err(SvmRegionError::NotReady),
        "whatever the extent is"
    );
    put(&mut page, 0, 7);
    assert_eq!(
        probe_backing(&page, PAGE - 1, PAGE),
        Err(SvmRegionError::NotReady),
        "whatever the version is"
    );
    assert!(retryable(&SvmRegionError::NotReady));
}

#[test]
fn headers_name_the_context_once_it_is_there() {
    let mut page = first_page();
    assert_eq!(SvmRegionHeader::read(&page).user_context(), Some(0x30));
    put(&mut page, 152, 0);
    assert_eq!(SvmRegionHeader::read(&page).user_context(), None);
}

#[test]
fn ranges_are_inside_or_not() {
    let region = SvmRegion::mapped_at(BASE, SIZE);
    assert_eq!(region.base(), BASE);
    assert_eq!(region.size(), SIZE);
    assert!(region.contains_range(BASE, SIZE));
    assert!(region.contains_range(BASE + SIZE, 0));
    assert!(!region.contains_range(BASE, SIZE + 1));
    assert!(!region.contains_range(BASE - 1, 1));
    assert!(!region.contains_range(BASE + 1, usize::MAX));
    let edge = SvmRegion::mapped_at(usize::MAX - 10, 20);
    assert!(!edge.contains_range(usize::MAX - 5, 1));
    assert_eq!(room_from(&region, BASE + 100), SIZE - 100);
}

#[test]
fn remaining_bytes_start_at_the_address() {
    let region = SvmRegion::mapped_at(BASE, 8);
    let image = [0, 1, 2, 3, 4, 5, 6, 7];
    assert_eq!(
        region.remaining_from(&image, BASE + 6),
        Some(&[6, 7][..])
    );
    assert_eq!(region.remaining_from(&image, BASE + 8), Some(&[][..]));
    assert_eq!(region.remaining_from(&image, BASE + 9), None);
    assert_eq!(region.remaining_from(&image, BASE - 1), None);
}

#[test]
fn regions_are_validated() {
    let region = SvmRegion::mapped_at(BASE, SIZE);
    let header = SvmRegionHeader::read(&first_page());
    let pvt = heap(BASE + PAGE, 2 * PAGE);
    let data = heap(BASE + 3 * PAGE, SIZE - 3 * PAGE);
    let check = |header: &SvmRegionHeader, data| {
        region.validate(header, Some(pvt), data, PAGE)
    };
    assert_eq!(check(&header, Some(data)), Ok(()));
    assert_eq!(
        check(&SvmRegionHeader { version: 0, ..header }, Some(data)),
        Err(SvmRegionError::NotReady)
    );
    assert_eq!(
        check(&SvmRegionHeader { version: 1, ..header }, Some(data)),
        Err(SvmRegionError::UnsupportedVersion {
            found: 1,
            expected: SVM_REGION_VERSION,
        })
    );
    assert_eq!(
        check(
            &SvmRegionHeader {
                virtual_base: 1,
                ..header
            },
            Some(data)
        ),
        Err(SvmRegionError::VirtualBaseMismatch {
            found: BASE,
            expected: 1,
        })
    );
    assert_eq!(
        check(
            &SvmRegionHeader {
                virtual_size: 1,
                ..header
            },
            Some(data)
        ),
        Err(SvmRegionError::VirtualSizeMismatch {
            mapped: SIZE,
            declared: 1,
        })
    );
    for bits in [2, 5, 8] {
        assert_eq!(
            check(&SvmRegionHeader { flags: bits, ..header }, Some(data)),
            Err(SvmRegionError::InvalidFlags { bits })
        );
    }
    assert_eq!(check(&header, None), Err(SvmRegionError::MissingDataHeap));
    for bits in [0, 4] {
        assert_eq!(
            check(&SvmRegionHeader { flags: bits, ..header }, Some(data)),
            Err(SvmRegionError::DataHeapLayout)
        );
    }
    assert_eq!(
        check(&header, Some(heap(BASE + 2 * PAGE, SIZE - 3 * PAGE))),
        Err(SvmRegionError::DataHeapLayout)
    );
    assert_eq!(
        check(&header, Some(heap(BASE + 3 * PAGE, SIZE))),
        Err(SvmRegionError::DataHeapLayout)
    );
}

#[test]
fn reservations_are_told_apart() {
    let occupied = IoError {
        kind: IoErrorKind::Other,
        code: Some(17),
    };
    let denied = IoError {
        kind: IoErrorKind::Other,
        code: Some(1),
    };
    assert_eq!(
        reservation_failure(BASE, SIZE, occupied, 17),
        SvmRegionError::AddressRangeOccupied {
            base: BASE,
            size: SIZE,
        }
    );
    assert_eq!(
        reservation_failure(BASE, SIZE, denied, 17),
        SvmRegionError::FixedMapping {
            base: BASE,
            size: SIZE,
            source: denied,
        }
    );
    assert_eq!(check_reservation(BASE, SIZE, BASE), Ok(()));
    assert_eq!(
        check_reservation(BASE, SIZE, BASE + PAGE),
        Err(SvmRegionError::AddressRangeOccupied {
            base: BASE,
            size: SIZE,
        })
    );
    assert_eq!(mapping_offset(BASE, SIZE, 0), Ok(0));
    assert_eq!(mapping_offset(BASE, SIZE, i64::MAX as u64), Ok(i64::MAX));
    assert_eq!(
        mapping_offset(BASE, SIZE, 1 << 63),
        Err(SvmRegionError::FixedMapping {
            base: BASE,
            size: SIZE,
            source: other(IoErrorKind::InvalidInput),
        })
    );
}

#[test]
fn missing_and_unready_regions_are_tried_again() {
    let open = |kind| SvmRegionError::Open {
        path: b"/dev/shm/x".to_vec(),
        source: IoError {
            kind,
            code: Some(2),
        },
    };
    assert!(retryable(&open(IoErrorKind::NotFound)));
    assert!(retryable(&open(IoErrorKind::WouldBlock)));
    assert!(retryable(&SvmRegionError::NotReady));
    assert!(!retryable(&open(IoErrorKind::Other)));
    assert!(!retryable(&SvmRegionError::MissingDataHeap));
}

#[test]
fn heaps_are_read_and_raise_alignments() {
    let heap = heap(0x5000, 0x1000);
    assert_eq!(heap.base(), 0x5000);
    assert_eq!(heap.mspace(), 0xabc0);
    assert_eq!(heap.size(), 0x1000);
    let layout = |align| BlockLayout { size: 100, align };
    assert_eq!(heap_layout(layout(1)), layout(8));
    assert_eq!(heap_layout(layout(64)), layout(64));
}

#[test]
fn reallocations_are_planned() {
    let asked = BlockLayout {
        size: 100,
        align: 16,
    };
    assert_eq!(
        plan_reallocation(false, 50, 32, asked),
        Reallocation::Refuse
    );
    assert_eq!(plan_reallocation(true, 100, 33, asked), Reallocation::Keep);
    assert_eq!(
        plan_reallocation(true, 50, 32, asked),
        Reallocation::InPlace
    );
    assert_eq!(plan_reallocation(true, 50, 40, asked), Reallocation::Move);
    assert_eq!(moved_bytes(50, asked), 50);
    assert_eq!(moved_bytes(200, asked), 100);
}

#[test]
fn commits_are_told_from_failures() {
    let add = SvmQueueOperation::Add;
    assert!(committed(
        &SvmQueueError::SignalAfterCommit { operation: add },
        add
    ));
    assert!(committed(
        &SvmQueueError::EventSignalAfterCommit { operation: add },
        add
    ));
    assert!(!committed(
        &SvmQueueError::SignalAfterCommit {
            operation: SvmQueueOperation::Sub,
        },
        add
    ));
    assert!(!committed(&SvmQueueError::Empty, add));
    assert!(!committed(&SvmQueueError::LayoutOverflow, add));
}

/// A region image with a message block at offset 64.
fn image_with(payload: &[u8]) -> Vec<u8> {
    let mut image = vec![0; 256];
    let prefix = MsgBuf::prefix(payload.len());
    image[64..80].copy_from_slice(&prefix);
    image[80..80 + payload.len()].copy_from_slice(payload);
    image
}

#[test]
fn messages_are_found_again_by_their_address() {
    let region = SvmRegion::mapped_at(BASE, 256);
    let image = image_with(b"hello");
    assert_eq!(
        &image[64..80],
        [0, 0, 0, 0, 0, 0, 0, 0, 0, 0, 0, 5, 0, 0, 0, 0]
    );
    let message =
        MsgBuf::from_address(&region, &image, BASE + 80).expect("the block is in the region");
    assert_eq!(message.len(), 5);
    assert_eq!(message.address(), BASE + 80);
    assert_eq!(message.as_bytes(&region, &image), Ok(&b"hello"[..]));
    let layout = BlockLayout { size: 21, align: 8 };
    assert_eq!(
        message.release(0),
        Release::ToHeap {
            base: BASE + 64,
            layout,
        }
    );
    assert_eq!(message.release(0x77), Release::ToRing);
    assert_eq!(MsgBuf::layout(5), (layout, 16));
}

#[test]
fn addresses_that_hold_no_message_are_refused() {
    let region = SvmRegion::mapped_at(BASE, 256);
    let image = image_with(&[1; 100]);
    for address in [
        0,
        16,
        BASE,
        BASE + 81,
        BASE + 256 + 16,
    ] {
        assert_eq!(
            MsgBuf::from_address(&region, &image, address),
            Err(MemoryError::InvalidHeader)
        );
    }
    let image = image_with(b"");
    assert!(MsgBuf::from_address(&region, &image, BASE + 80).is_ok());
    let mut image = image_with(&[1; 176]);
    assert!(MsgBuf::from_address(&region, &image, BASE + 80).is_ok());
    image[75] += 1;
    assert_eq!(
        MsgBuf::from_address(&region, &image, BASE + 80),
        Err(MemoryError::InvalidHeader),
        "the payload ends behind the region"
    );
}

#[test]
fn fresh_messages_are_not_readable_until_written() {
    let region = SvmRegion::mapped_at(BASE, 256);
    let image = image_with(&[9; 10]);
    let mut message = MsgBuf::allocated(Some(BASE + 64), 10).expect("the heap gave a block");
    assert_eq!(message.len(), 10);
    assert_eq!(
        message.as_bytes(&region, &image),
        Err(CodecError::UninitializedPayload)
    );
    message.record_written(9);
    message.record_written(4);
    assert_eq!(
        message.as_bytes(&region, &image),
        Err(CodecError::UninitializedPayload)
    );
    message.record_written(10);
    assert_eq!(message.as_bytes(&region, &image), Ok(&[9; 10][..]));
    assert_eq!(
        MsgBuf::allocated(None, 10),
        Err(MemoryError::AllocationFailed { bytes: 26 })
    );
    assert_eq!(check_consumed(0), Ok(()));
    assert_eq!(check_consumed(1), Err(CodecError::TrailingBytes));
}

#[test]
fn shared_headers_are_validated() {
    let region = SvmRegion::mapped_at(BASE, 512);
    let mut image = vec![0; 512];
    image[64..68].copy_from_slice(&2u32.to_le_bytes());
    image[68..72].copy_from_slice(&(-5i32).to_le_bytes());
    put(&mut image, 72, BASE as u64 + 256);
    let header =
        ShmemHeader::validate(&region, &image, BASE + 64, 128).expect("the header is valid");
    assert_eq!(header.server_pid(), -5);
    assert_eq!(header.input_queue(), BASE + 256);
    let invalid = Err(MemoryError::InvalidHeader);
    assert_eq!(ShmemHeader::validate(&region, &image, BASE + 68, 128), invalid);
    assert_eq!(ShmemHeader::validate(&region, &image, BASE + 440, 128), invalid);
    assert_eq!(ShmemHeader::validate(&region, &image, BASE + 64, 257), invalid);
    image[64] = 3;
    assert_eq!(
        ShmemHeader::validate(&region, &image, BASE + 64, 128),
        Err(MemoryError::UnsupportedVersion {
            found: 3,
            expected: 2,
        })
    );
    assert_eq!(check_element_size(8), Ok(()));
    assert_eq!(
        check_element_size(4),
        Err(MemoryError::ElementSizeMismatch {
            requested: 8,
            stored: 4,
        })
    );
}
