//! Decisions of the descriptor handoff: the address of the listener, what a
//! failed receive means, which descriptor to keep, and how much to map.

use crate::io::{IoError, IoErrorKind};
use crate::stats::client::HANDOFF_TIMEOUT_SECONDS;
use crate::stats::error::{Error, ErrorView};
use vstd::prelude::*;
use vstd::slice::*;

verus! {

/// The address of a filesystem socket: the whole path field, and the length of
/// the part of the address that counts.
pub struct SocketAddress {
    pub sun_path: Vec<u8>,
    pub length: usize,
}

/// The path field of an address: the path, padded with nuls.
pub open spec fn path_field(path: Seq<u8>, capacity: nat) -> Seq<u8> {
    Seq::new(
        capacity,
        |i: int|
            if i < path.len() {
                path[i]
            } else {
                0u8
            },
    )
}

/// Builds the address of one filesystem socket path.
///
/// `family_bytes` is the size of the address family in front of the path field
/// and `capacity` the size of that field.
pub fn socket_address(path: &[u8], family_bytes: usize, capacity: usize) -> (address: Result<
    SocketAddress,
    Error,
>)
    requires
        0 < capacity,
        family_bytes + capacity <= usize::MAX,
    ensures
        address is Ok <==> path@.len() < capacity,
        address matches Ok(made) ==> made.sun_path@ == path_field(path@, capacity as nat)
            && made.length == family_bytes + path@.len() + 1,
        address matches Err(error) ==> error@ == (ErrorView::SocketPathTooLong {
            path: path@,
            max: capacity - 1,
        }),
{
    if path.len() >= capacity {
        return Err(Error::SocketPathTooLong { path: slice_to_vec(path), max: capacity - 1 });
    }
    let mut sun_path: Vec<u8> = Vec::new();
    let mut i: usize = 0;
    while i < capacity
        invariant
            i <= capacity,
            path@.len() < capacity,
            sun_path@.len() == i,
            forall|j: int|
                0 <= j < i ==> sun_path@[j] == path_field(path@, capacity as nat)[j],
        decreases capacity - i,
    {
        if i < path.len() {
            sun_path.push(path[i]);
        } else {
            sun_path.push(0);
        }
        i = i + 1;
    }
    assert(sun_path@ =~= path_field(path@, capacity as nat));
    Ok(SocketAddress { sun_path, length: family_bytes + path.len() + 1 })
}

/// The failure that ends a handoff; an interrupted receive is tried again.
pub open spec fn receive_error(source: IoError) -> Option<ErrorView> {
    match source.kind {
        IoErrorKind::Interrupted => None,
        IoErrorKind::WouldBlock | IoErrorKind::TimedOut => Some(
            ErrorView::HandoffTimeout { waited_seconds: HANDOFF_TIMEOUT_SECONDS },
        ),
        _ => Some(ErrorView::Receive { source }),
    }
}

/// Decides about a failed receive: `None` is to receive again.
pub fn receive_failure(source: IoError) -> (error: Option<Error>)
    ensures
        error is None <==> receive_error(source) is None,
        error matches Some(found) ==> Some(found@) == receive_error(source),
{
    match source.kind {
        IoErrorKind::Interrupted => None,
        IoErrorKind::WouldBlock | IoErrorKind::TimedOut => Some(
            Error::HandoffTimeout { waited_seconds: HANDOFF_TIMEOUT_SECONDS },
        ),
        _ => Some(Error::Receive { source }),
    }
}

/// Bytes of one descriptor.
pub const DESCRIPTOR_BYTES: usize = 4;

/// The level and type of a control message, and its length with its header.
#[derive(Clone, Copy, Debug, Eq, PartialEq, Structural)]
pub struct ControlHeader {
    pub level: i32,
    pub kind: i32,
    pub length: usize,
}

/// Whether a control message hands a descriptor over: it has the level and type
/// of one that does, and room for a descriptor behind its header.
pub fn carries_descriptor(
    message: &ControlHeader,
    socket_level: i32,
    rights_kind: i32,
    header_bytes: usize,
) -> (carries: bool)
    requires
        header_bytes + DESCRIPTOR_BYTES <= usize::MAX,
    ensures
        carries == (message.level == socket_level && message.kind == rights_kind && message.length
            >= header_bytes + DESCRIPTOR_BYTES),
{
    message.level == socket_level && message.kind == rights_kind && message.length >= header_bytes
        + DESCRIPTOR_BYTES
}

/// Whether a message handed over exactly one usable descriptor, whole.
pub open spec fn handed_over(descriptors: Seq<i32>, truncated: bool) -> bool {
    descriptors.len() == 1 && descriptors[0] >= 0 && !truncated
}

/// Selects the descriptor of a handoff: the message must carry exactly one, and
/// all of its control data must have arrived.
pub fn select_descriptor(descriptors: &[i32], truncated: bool) -> (selected: Result<i32, Error>)
    ensures
        selected is Ok <==> handed_over(descriptors@, truncated),
        selected matches Ok(descriptor) ==> descriptor == descriptors@[0],
        selected matches Err(error) ==> error@ == (ErrorView::AncillaryData {
            received_fds: descriptors@.len() as int,
            truncated,
        }),
{
    if descriptors.len() == 1 && descriptors[0] >= 0 && !truncated {
        Ok(descriptors[0])
    } else {
        Err(Error::AncillaryData { received_fds: descriptors.len(), truncated })
    }
}

/// The first usable descriptor of a message.
pub open spec fn first_usable(descriptors: Seq<i32>) -> Option<i32>
    decreases descriptors.len(),
{
    if descriptors.len() == 0 {
        None
    } else if descriptors[0] >= 0 {
        Some(descriptors[0])
    } else {
        first_usable(descriptors.drop_first())
    }
}

/// The descriptor the receiver of a message owns, and has to close when the
/// handoff is refused.
pub fn owned_descriptor(descriptors: &[i32]) -> (owned: Option<i32>)
    ensures
        owned == first_usable(descriptors@),
{
    let mut i: usize = 0;
    assert(descriptors@.skip(0) =~= descriptors@);
    while i < descriptors.len()
        invariant
            i <= descriptors@.len(),
            first_usable(descriptors@) == first_usable(descriptors@.skip(i as int)),
        decreases descriptors@.len() - i,
    {
        if descriptors[i] >= 0 {
            return Some(descriptors[i]);
        }
        assert(descriptors@.skip(i as int).drop_first() =~= descriptors@.skip(i + 1));
        i = i + 1;
    }
    None
}

/// The length to map of a segment whose descriptor reports `size`.
pub fn segment_length(size: i64) -> (length: Result<usize, Error>)
    ensures
        length is Ok <==> 0 < size <= usize::MAX,
        length matches Ok(found) ==> found == size,
        length matches Err(error) ==> error@ == (ErrorView::InvalidSegmentSize { size }),
{
    if size <= 0 {
        return Err(Error::InvalidSegmentSize { size });
    }
    let wide: u64 = size as u64;
    let length: usize = wide as usize;
    if length as u64 != wide {
        return Err(Error::InvalidSegmentSize { size });
    }
    Ok(length)
}

/// A descriptor that is selected is the one its receiver owns, so only a
/// refused handoff has a descriptor to close.
pub proof fn law_selected_descriptor_is_owned(descriptors: Seq<i32>, truncated: bool)
    requires
        handed_over(descriptors, truncated),
    ensures
        first_usable(descriptors) == Some(descriptors[0]),
{
}

/// The address of a path is its bytes and then nuls in a field of the whole
/// capacity, and what counts of it ends with the first nul; a path that leaves no
/// room for one is refused with the longest that would.
pub proof fn law_socket_addresses(
    path: &[u8],
    family_bytes: usize,
    capacity: usize,
    address: Result<SocketAddress, Error>,
)
    requires
        0 < capacity,
        family_bytes + capacity <= usize::MAX,
        call_ensures(socket_address, (path, family_bytes, capacity), address),
    ensures
        path@.len() + 1 <= capacity ==> address is Ok,
        path@.len() + 1 > capacity ==> address is Err && address->Err_0@ == (
        ErrorView::SocketPathTooLong { path: path@, max: capacity - 1 }),
        address matches Ok(made) ==> {
            &&& made.sun_path@.len() == capacity
            &&& made.sun_path@.take(path@.len() as int) =~= path@
            &&& forall|i: int| path@.len() <= i < capacity ==> #[trigger] made.sun_path@[i] == 0
            &&& made.length - family_bytes - 1 == path@.len()
        },
{
}

/// An interrupted receive is tried again, one that took too long is a timeout of
/// ten seconds, and any other failure is the failure of the handoff.
pub proof fn law_failed_receives(source: IoError, error: Option<Error>)
    requires
        call_ensures(receive_failure, (source,), error),
    ensures
        source.kind is Interrupted <==> error is None,
        source.kind is WouldBlock || source.kind is TimedOut ==> error is Some
            && error->Some_0@ == (ErrorView::HandoffTimeout { waited_seconds: 10 }),
        !(source.kind is Interrupted) && !(source.kind is WouldBlock) && !(source.kind is TimedOut)
            ==> error is Some && error->Some_0@ == (ErrorView::Receive { source }),
{
}

/// A control message hands a descriptor over exactly where it has the level and
/// the type, and four bytes behind its header.
pub proof fn law_carried_descriptors(
    message: &ControlHeader,
    socket_level: i32,
    rights_kind: i32,
    header_bytes: usize,
    carries: bool,
)
    requires
        header_bytes + 4 <= usize::MAX,
        call_ensures(
            carries_descriptor,
            (message, socket_level, rights_kind, header_bytes),
            carries,
        ),
    ensures
        carries ==> message.level == socket_level && message.kind == rights_kind
            && message.length - header_bytes >= 4,
        !carries ==> message.level != socket_level || message.kind != rights_kind
            || message.length < header_bytes + 4,
{
}

/// A descriptor is selected exactly where it came alone, whole and usable, and
/// what is refused is told with the number that came; the descriptor to close is
/// the first usable one.
pub proof fn law_selected_descriptors(
    descriptors: &[i32],
    truncated: bool,
    selected: Result<i32, Error>,
    owned: Option<i32>,
)
    requires
        call_ensures(select_descriptor, (descriptors, truncated), selected),
        call_ensures(owned_descriptor, (descriptors,), owned),
    ensures
        selected is Ok <==> !truncated && descriptors@.len() == 1 && descriptors@[0] >= 0,
        selected matches Ok(descriptor) ==> owned == Some(descriptor),
        selected matches Err(error) ==> error@ == (ErrorView::AncillaryData {
            received_fds: descriptors@.len() as int,
            truncated,
        }),
        owned is None ==> forall|i: int|
            0 <= i < descriptors@.len() ==> #[trigger] descriptors@[i] < 0,
        owned matches Some(descriptor) ==> descriptor >= 0 && exists|i: int|
            0 <= i < descriptors@.len() && #[trigger] descriptors@[i] == descriptor && forall|
                j: int,
            |
                0 <= j < i ==> #[trigger] descriptors@[j] < 0,
{
    lemma_first_usable(descriptors@);
}

proof fn lemma_first_usable(descriptors: Seq<i32>)
    ensures
        match first_usable(descriptors) {
            None => forall|i: int| 0 <= i < descriptors.len() ==> #[trigger] descriptors[i] < 0,
            Some(found) => found >= 0 && exists|i: int|
                0 <= i < descriptors.len() && #[trigger] descriptors[i] == found && forall|j: int|
                    0 <= j < i ==> #[trigger] descriptors[j] < 0,
        },
    decreases descriptors.len(),
{
    if descriptors.len() > 0 && descriptors[0] < 0 {
        let rest = descriptors.drop_first();
        lemma_first_usable(rest);
        match first_usable(descriptors) {
            None => {
                assert forall|i: int| 0 <= i < descriptors.len() implies #[trigger] descriptors[i]
                    < 0 by {
                    if i > 0 {
                        assert(rest[i - 1] < 0);
                    }
                }
            },
            Some(found) => {
                let i = choose|i: int|
                    0 <= i < rest.len() && #[trigger] rest[i] == found && forall|j: int|
                        0 <= j < i ==> #[trigger] rest[j] < 0;
                assert(descriptors[i + 1] == found);
                assert forall|j: int| 0 <= j < i + 1 implies #[trigger] descriptors[j] < 0 by {
                    if j > 0 {
                        assert(rest[j - 1] < 0);
                    }
                }
            },
        }
    } else if descriptors.len() > 0 {
        assert(descriptors[0] == first_usable(descriptors)->Some_0);
    }
}

/// A segment is mapped over the whole size that its descriptor reports, and a
/// size that is none is refused with it.
pub proof fn law_segment_lengths(size: i64, length: Result<usize, Error>)
    requires
        call_ensures(segment_length, (size,), length),
    ensures
        1 <= size <= usize::MAX ==> length is Ok && length->Ok_0 == size,
        size < 1 || size > usize::MAX ==> length is Err && length->Err_0@ == (
        ErrorView::InvalidSegmentSize { size }),
{
}

} // verus!
