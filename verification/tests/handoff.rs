//! Decisions of the descriptor handoff.

use netsystem_client::io::{IoError, IoErrorKind};
use netsystem_client::stats::error::Error;
use netsystem_client::stats::handoff::{
    carries_descriptor, owned_descriptor, receive_failure, segment_length, select_descriptor,
    socket_address, ControlHeader,
};

#[test]
fn socket_addresses_hold_the_path_and_a_nul() {
    let address = socket_address(b"/run/stats.sock", 2, 108).expect("the path fits");
    assert_eq!(address.length, 2 + 15 + 1);
    assert_eq!(address.sun_path.len(), 108);
    assert_eq!(&address.sun_path[..15], b"/run/stats.sock");
    assert!(address.sun_path[15..].iter().all(|byte| *byte == 0));
    let longest = vec![b'x'; 107];
    assert!(socket_address(&longest, 2, 108).is_ok());
    let long = vec![b'x'; 108];
    assert_eq!(
        socket_address(&long, 2, 108).err(),
        Some(Error::SocketPathTooLong {
            path: long.clone(),
            max: 107,
        })
    );
}

#[test]
fn failed_receives_are_told_apart() {
    let failure = |kind| IoError {
        kind,
        code: Some(11),
    };
    assert_eq!(receive_failure(failure(IoErrorKind::Interrupted)), None);
    let timeout = Some(Error::HandoffTimeout { waited_seconds: 10 });
    assert_eq!(receive_failure(failure(IoErrorKind::WouldBlock)), timeout);
    assert_eq!(receive_failure(failure(IoErrorKind::TimedOut)), timeout);
    assert_eq!(
        receive_failure(failure(IoErrorKind::Other)),
        Some(Error::Receive {
            source: failure(IoErrorKind::Other),
        })
    );
}

#[test]
fn exactly_one_descriptor_is_kept() {
    assert_eq!(select_descriptor(&[7], false), Ok(7));
    for (descriptors, truncated) in [
        (vec![], false),
        (vec![7, 8], false),
        (vec![7], true),
        (vec![-1], false),
    ] {
        assert_eq!(
            select_descriptor(&descriptors, truncated),
            Err(Error::AncillaryData {
                received_fds: descriptors.len(),
                truncated,
            })
        );
    }
}

#[test]
fn the_first_usable_descriptor_is_owned() {
    assert_eq!(owned_descriptor(&[7]), Some(7));
    assert_eq!(owned_descriptor(&[-1, 8, 9]), Some(8));
    assert_eq!(owned_descriptor(&[-1]), None);
    assert_eq!(owned_descriptor(&[]), None);
}

#[test]
fn control_messages_need_room_for_a_descriptor() {
    let message = |level, kind, length| ControlHeader {
        level,
        kind,
        length,
    };
    assert!(carries_descriptor(&message(1, 1, 20), 1, 1, 16));
    assert!(!carries_descriptor(&message(1, 1, 19), 1, 1, 16));
    assert!(!carries_descriptor(&message(2, 1, 20), 1, 1, 16));
    assert!(!carries_descriptor(&message(1, 2, 20), 1, 1, 16));
}

#[test]
fn segments_have_a_positive_length() {
    assert_eq!(segment_length(4096), Ok(4096));
    assert_eq!(segment_length(1), Ok(1));
    for size in [0, -1, i64::MIN] {
        assert_eq!(segment_length(size), Err(Error::InvalidSegmentSize { size }));
    }
}
