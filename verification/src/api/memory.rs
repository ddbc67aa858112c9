//! Shared Binary API region layout and message storage.
//!
//! An address `a` of a region that is mapped at `base` stands for the byte
//! `a - base` of an image of the region.

use crate::api::codec::CodecError;
use crate::bytes;
use crate::shmem::heap;
use crate::shmem::heap::BlockLayout;
use crate::shmem::queue::SvmQueueError;
use crate::shmem::region::{RegionExtent, SvmRegion};
use vstd::prelude::*;
use vstd::slice::*;

verus! {

pub const SHMEM_VERSION: u32 = 2;

/// Bytes of the shared API header.
pub const SHMEM_HEADER_BYTES: usize = 80;

/// Alignment of the shared API header.
pub const SHMEM_HEADER_ALIGN: usize = 8;

/// Bytes of one queue element: the address of a message.
pub const ELEMENT_BYTES: usize = 8;

/// Bytes in front of a message payload: the address of the ring it came from,
/// the length of the payload, and a timestamp.
pub const PREFIX_BYTES: usize = 16;

/// Where the prefix holds the length.
pub const LENGTH_OFFSET: usize = 8;

/// Where the prefix holds the timestamp.
pub const TIMESTAMP_OFFSET: usize = 12;

/// Alignment of the prefix.
pub const PREFIX_ALIGN: usize = 8;

#[derive(Clone, Copy, Debug, Eq, PartialEq, Structural)]
pub enum MemoryError {
    InvalidHeader,
    UnsupportedVersion { found: u32, expected: u32 },
    ElementSizeMismatch { requested: usize, stored: usize },
    Queue(SvmQueueError),
    AllocationFailed { bytes: usize },
    Codec(CodecError),
}

/// The shared API header, as far as a client reads it. Server-only ring vectors
/// and lifecycle counters stay opaque behind `input_queue`.
#[derive(Clone, Copy, Debug, Eq, PartialEq, Structural)]
pub struct ShmemHeader {
    version: u32,
    server_pid: i32,
    input_queue: usize,
}

/// The view of a [`ShmemHeader`].
pub struct ShmemHeaderView {
    pub version: u32,
    pub server_pid: i32,
    pub input_queue: usize,
}

impl View for ShmemHeader {
    type V = ShmemHeaderView;

    closed spec fn view(&self) -> ShmemHeaderView {
        ShmemHeaderView {
            version: self.version,
            server_pid: self.server_pid,
            input_queue: self.input_queue,
        }
    }
}

/// The header at byte `at` of an image.
pub open spec fn header_at(image: Seq<u8>, at: int) -> ShmemHeaderView {
    ShmemHeaderView {
        version: bytes::le_u32(image, at) as u32,
        server_pid: (bytes::le_u32(image, at + 4) as u32) as i32,
        input_queue: (bytes::le_u64(image, at + 8) as u64) as usize,
    }
}

/// The header at an address: aligned, inside the region, of the supported
/// version, and with a queue of `queue_bytes` that lies inside the region too.
pub open spec fn shared_header(
    region: RegionExtent,
    image: Seq<u8>,
    address: usize,
    queue_bytes: usize,
) -> Result<ShmemHeaderView, MemoryError> {
    let header = header_at(image, address - region.base);
    if address % SHMEM_HEADER_ALIGN != 0 || !region.holds(
        address as int,
        SHMEM_HEADER_BYTES as int,
    ) {
        Err(MemoryError::InvalidHeader)
    } else if header.version != SHMEM_VERSION {
        Err(
            MemoryError::UnsupportedVersion { found: header.version, expected: SHMEM_VERSION },
        )
    } else if !region.holds(header.input_queue as int, queue_bytes as int) {
        Err(MemoryError::InvalidHeader)
    } else {
        Ok(header)
    }
}

impl ShmemHeader {
    /// Checks and copies the header at an address of the region. `queue_bytes`
    /// is the size of a queue without its elements.
    pub fn validate(
        region: &SvmRegion,
        image: &[u8],
        address: usize,
        queue_bytes: usize,
    ) -> (header: Result<ShmemHeader, MemoryError>)
        requires
            image@.len() == region@.size,
        ensures
            match header {
                Ok(found) => shared_header(region@, image@, address, queue_bytes) == Ok::<
                    _,
                    MemoryError,
                >(found@),
                Err(error) => shared_header(region@, image@, address, queue_bytes) == Err::<
                    ShmemHeaderView,
                    _,
                >(error),
            },
    {
        if address % SHMEM_HEADER_ALIGN != 0 || !region.contains_range(
            address,
            SHMEM_HEADER_BYTES,
        ) {
            return Err(MemoryError::InvalidHeader);
        }
        let at: usize = address - region.base();
        let header = ShmemHeader {
            version: bytes::read_le_u32(image, at),
            server_pid: bytes::read_le_u32(image, at + 4) as i32,
            input_queue: bytes::read_le_u64(image, at + 8) as usize,
        };
        if header.version != SHMEM_VERSION {
            return Err(
                MemoryError::UnsupportedVersion { found: header.version, expected: SHMEM_VERSION },
            );
        }
        if !region.contains_range(header.input_queue, queue_bytes) {
            return Err(MemoryError::InvalidHeader);
        }
        Ok(header)
    }

    pub fn server_pid(&self) -> (pid: i32)
        ensures
            pid == self@.server_pid,
    {
        self.server_pid
    }

    /// The address of the queue the server takes requests from.
    pub fn input_queue(&self) -> (queue: usize)
        ensures
            queue == self@.input_queue,
    {
        self.input_queue
    }
}

/// The bytes of the region from an address inside it to its end.
pub fn room_from(region: &SvmRegion, address: usize) -> (room: usize)
    requires
        region@.holds(address as int, 0),
    ensures
        room == region@.base + region@.size - address,
{
    region.base() + region.size() - address
}

/// Checks that the elements of a queue are addresses.
pub fn check_element_size(stored: usize) -> (checked: Result<(), MemoryError>)
    ensures
        checked == (if stored == ELEMENT_BYTES {
            Ok(())
        } else {
            Err(MemoryError::ElementSizeMismatch { requested: ELEMENT_BYTES, stored })
        }),
{
    if stored != ELEMENT_BYTES {
        Err(MemoryError::ElementSizeMismatch { requested: ELEMENT_BYTES, stored })
    } else {
        Ok(())
    }
}

/// A message in the region: where its payload lies, and how much of it is
/// written.
#[derive(Clone, Copy, Debug, Eq, PartialEq, Structural)]
pub struct MsgBuf {
    payload: usize,
    payload_len: usize,
    initialized_len: usize,
}

/// The view of a [`MsgBuf`].
pub struct MessageView {
    pub payload: usize,
    pub payload_len: usize,
    pub initialized_len: usize,
}

impl View for MsgBuf {
    type V = MessageView;

    closed spec fn view(&self) -> MessageView {
        MessageView {
            payload: self.payload,
            payload_len: self.payload_len,
            initialized_len: self.initialized_len,
        }
    }
}

/// The prefix of a payload of `payload_len` bytes: no ring, the length in
/// network order, and no timestamp.
pub open spec fn prefix_of(payload_len: usize) -> Seq<u8> {
    Seq::new(8, |i: int| 0u8) + bytes::be_bytes((payload_len as u32) as int) + Seq::new(
        4,
        |i: int| 0u8,
    )
}

/// The message whose payload lies at an address.
pub open spec fn message_at(region: RegionExtent, image: Seq<u8>, address: usize) -> Option<
    MessageView,
> {
    let prefix = address - PREFIX_BYTES;
    let length = bytes::be_u32(image, prefix + LENGTH_OFFSET - region.base);
    if prefix > 0 && prefix % PREFIX_ALIGN as int == 0 && region.holds(prefix, PREFIX_BYTES as int)
        && region.holds(address as int, length) {
        Some(
            MessageView {
                payload: address,
                payload_len: length as usize,
                initialized_len: length as usize,
            },
        )
    } else {
        None
    }
}

/// What becomes of a message that is no longer needed.
#[derive(Clone, Copy, Debug, Eq, PartialEq, Structural)]
pub enum Release {
    /// It came from a ring: its marker and timestamp are cleared.
    ToRing,
    /// It was allocated: its block goes back to the Data Heap.
    ToHeap { base: usize, layout: BlockLayout },
}

/// Whether a payload of the length can be laid out behind a prefix.
pub open spec fn fits(payload_len: usize) -> bool {
    PREFIX_BYTES + payload_len + PREFIX_ALIGN - 1 <= isize::MAX
}

/// The block of a payload of the length.
pub open spec fn block_of(payload_len: usize) -> BlockLayout {
    BlockLayout { size: (PREFIX_BYTES + payload_len) as usize, align: PREFIX_ALIGN }
}

impl MsgBuf {
    /// The block that holds a payload of `payload_len` bytes, and the place of
    /// the payload in it.
    pub fn layout(payload_len: usize) -> (layout: (BlockLayout, usize))
        requires
            fits(payload_len),
        ensures
            layout.0 == block_of(payload_len),
            layout.1 == PREFIX_BYTES,
            heap::is_valid(layout.0),
    {
        proof {
            vstd::arithmetic::power2::lemma2_to64();
            assert(PREFIX_ALIGN == vstd::arithmetic::power2::pow2(3));
        }
        (BlockLayout { size: PREFIX_BYTES + payload_len, align: PREFIX_ALIGN }, PREFIX_BYTES)
    }

    /// The prefix to write in front of a payload of `payload_len` bytes.
    pub fn prefix(payload_len: usize) -> (prefix: Vec<u8>)
        ensures
            prefix@ == prefix_of(payload_len),
            prefix@.len() == PREFIX_BYTES,
    {
        let length: u32 = payload_len as u32;
        let mut prefix: Vec<u8> = Vec::new();
        let mut i: usize = 0;
        while i < LENGTH_OFFSET
            invariant
                i <= LENGTH_OFFSET,
                prefix@ == Seq::new(i as nat, |j: int| 0u8),
            decreases LENGTH_OFFSET - i,
        {
            prefix.push(0);
            assert(prefix@ =~= Seq::new((i + 1) as nat, |j: int| 0u8));
            i = i + 1;
        }
        prefix.push((length / 0x100_0000) as u8);
        prefix.push((length / 0x1_0000 % 0x100) as u8);
        prefix.push((length / 0x100 % 0x100) as u8);
        prefix.push((length % 0x100) as u8);
        prefix.push(0);
        prefix.push(0);
        prefix.push(0);
        prefix.push(0);
        assert(prefix@ =~= prefix_of(payload_len));
        prefix
    }

    /// The message in a block that was allocated for `payload_len` bytes, or
    /// the failure to allocate one.
    pub fn allocated(base: Option<usize>, payload_len: usize) -> (message: Result<
        Self,
        MemoryError,
    >)
        requires
            fits(payload_len),
            base matches Some(address) ==> address + PREFIX_BYTES <= usize::MAX,
        ensures
            match base {
                Some(address) => message matches Ok(made) && made@ == (MessageView {
                    payload: (address + PREFIX_BYTES) as usize,
                    payload_len,
                    initialized_len: 0,
                }),
                None => message == Err::<MsgBuf, _>(
                    MemoryError::AllocationFailed { bytes: block_of(payload_len).size },
                ),
            },
    {
        match base {
            Some(address) => Ok(
                MsgBuf { payload: address + PREFIX_BYTES, payload_len, initialized_len: 0 },
            ),
            None => Err(MemoryError::AllocationFailed { bytes: PREFIX_BYTES + payload_len }),
        }
    }

    pub fn len(&self) -> (length: usize)
        ensures
            length == self@.payload_len,
    {
        self.payload_len
    }

    /// The address of the payload, which stands for the message in a queue.
    pub fn address(&self) -> (address: usize)
        ensures
            address == self@.payload,
    {
        self.payload
    }

    /// The message that an address from a queue stands for.
    pub fn from_address(region: &SvmRegion, image: &[u8], address: usize) -> (message: Result<
        Self,
        MemoryError,
    >)
        requires
            image@.len() == region@.size,
        ensures
            match message_at(region@, image@, address) {
                Some(found) => message matches Ok(made) && made@ == found,
                None => message == Err::<MsgBuf, _>(MemoryError::InvalidHeader),
            },
    {
        if address <= PREFIX_BYTES {
            return Err(MemoryError::InvalidHeader);
        }
        let prefix: usize = address - PREFIX_BYTES;
        if prefix % PREFIX_ALIGN != 0 || !region.contains_range(prefix, PREFIX_BYTES) {
            return Err(MemoryError::InvalidHeader);
        }
        let at: usize = prefix - region.base() + LENGTH_OFFSET;
        let payload_len: usize = bytes::read_be_u32(image, at) as usize;
        if !region.contains_range(address, payload_len) {
            return Err(MemoryError::InvalidHeader);
        }
        Ok(MsgBuf { payload: address, payload_len, initialized_len: payload_len })
    }

    /// The payload, out of an image of the region.
    pub fn as_bytes<'a>(&self, region: &SvmRegion, image: &'a [u8]) -> (payload: Result<
        &'a [u8],
        CodecError,
    >)
        requires
            image@.len() == region@.size,
            region@.holds(self@.payload as int, self@.payload_len as int),
        ensures
            payload is Ok <==> self@.payload_len <= self@.initialized_len,
            payload matches Ok(found) ==> found@ == image@.subrange(
                self@.payload - region@.base,
                self@.payload - region@.base + self@.payload_len,
            ),
            payload matches Err(error) ==> error == CodecError::UninitializedPayload,
    {
        if self.initialized_len < self.payload_len {
            return Err(CodecError::UninitializedPayload);
        }
        let at: usize = self.payload - region.base();
        Ok(slice_subrange(image, at, at + self.payload_len))
    }

    /// Notes that the first `written` bytes of the payload were written.
    pub fn record_written(&mut self, written: usize)
        ensures
            final(self)@ == (MessageView {
                initialized_len: if written > old(self)@.initialized_len {
                    written
                } else {
                    old(self)@.initialized_len
                },
                ..old(self)@
            }),
    {
        if written > self.initialized_len {
            self.initialized_len = written;
        }
    }

    /// Decides what becomes of a message whose marker holds the address of a
    /// ring, or zero.
    pub fn release(&self, marker: usize) -> (release: Release)
        requires
            PREFIX_BYTES <= self@.payload,
            fits(self@.payload_len),
        ensures
            release == (if marker != 0 {
                Release::ToRing
            } else {
                Release::ToHeap {
                    base: (self@.payload - PREFIX_BYTES) as usize,
                    layout: block_of(self@.payload_len),
                }
            }),
    {
        if marker != 0 {
            return Release::ToRing;
        }
        let (layout, offset) = MsgBuf::layout(self.payload_len);
        Release::ToHeap { base: self.payload - offset, layout }
    }
}

/// Checks that decoding left nothing of a payload.
pub fn check_consumed(remaining: usize) -> (checked: Result<(), CodecError>)
    ensures
        checked == (if remaining == 0 {
            Ok(())
        } else {
            Err(CodecError::TrailingBytes)
        }),
{
    if remaining != 0 {
        Err(CodecError::TrailingBytes)
    } else {
        Ok(())
    }
}

/// A message whose prefix was written into an aligned block of the region is
/// found again by the address of its payload, with the length it had.
pub proof fn law_message_round_trip(
    region: RegionExtent,
    image: Seq<u8>,
    block: usize,
    payload_len: usize,
)
    requires
        image.len() == region.size,
        payload_len <= u32::MAX,
        0 < block,
        block % PREFIX_ALIGN == 0,
        region.holds(block as int, PREFIX_BYTES + payload_len),
        image.subrange(block - region.base, block - region.base + PREFIX_BYTES) == prefix_of(
            payload_len,
        ),
    ensures
        message_at(region, image, (block + PREFIX_BYTES) as usize) == Some(
            MessageView {
                payload: (block + PREFIX_BYTES) as usize,
                payload_len,
                initialized_len: payload_len,
            },
        ),
{
    let at = block - region.base;
    let prefix = image.subrange(at, at + PREFIX_BYTES);
    let length = bytes::be_bytes((payload_len as u32) as int);
    assert(prefix[8] == length[0] && prefix[9] == length[1] && prefix[10] == length[2]
        && prefix[11] == length[3]);
    assert(image[at + 8] == prefix[8] && image[at + 9] == prefix[9] && image[at + 10]
        == prefix[10] && image[at + 11] == prefix[11]);
    bytes::law_big_endian_round_trip(payload_len as u32);
}

/// A message that was found by its address lies inside the region with its
/// prefix, and is wholly written.
pub proof fn law_found_message(region: RegionExtent, image: Seq<u8>, address: usize)
    requires
        image.len() == region.size,
        message_at(region, image, address) is Some,
    ensures
        ({
            let found = message_at(region, image, address)->Some_0;
            &&& found.payload == address
            &&& found.initialized_len == found.payload_len
            &&& region.holds(address - PREFIX_BYTES, PREFIX_BYTES + found.payload_len)
            &&& PREFIX_BYTES < address
        }),
{
    let at = address - PREFIX_BYTES - region.base + LENGTH_OFFSET;
    assert(0 <= bytes::be_u32(image, at) <= u32::MAX);
}

/// A shared header that was laid out at an aligned address inside the region, of
/// version 2 and with its queue inside the region, is read back: the process of
/// the server, and the queue.
pub proof fn law_shared_header_reads_back(
    region: &SvmRegion,
    image: &[u8],
    address: usize,
    queue_bytes: usize,
    version: u32,
    server_pid: u32,
    input_queue: usize,
    result: Result<ShmemHeader, MemoryError>,
)
    requires
        image@.len() == region@.size,
        region@.holds(address as int, 80),
        bytes::lies_at(image@, address - region@.base, bytes::half(version as int)),
        bytes::lies_at(image@, address - region@.base + 4, bytes::half(server_pid as int)),
        bytes::lies_at(image@, address - region@.base + 8, bytes::word(input_queue as int)),
        call_ensures(ShmemHeader::validate, (region, image, address, queue_bytes), result),
    ensures
        result is Ok <==> address % 8 == 0 && version == 2 && region@.holds(
            input_queue as int,
            queue_bytes as int,
        ),
        address % 8 == 0 && version != 2 ==> result == Err::<ShmemHeader, _>(
            (MemoryError::UnsupportedVersion { found: version, expected: 2 }),
        ),
        address % 8 != 0 || (version == 2 && !region@.holds(
            input_queue as int,
            queue_bytes as int,
        )) ==> result == Err::<ShmemHeader, _>(MemoryError::InvalidHeader),
        result matches Ok(header) ==> {
            &&& forall|pid: i32|
                call_ensures(ShmemHeader::server_pid, (&header,), pid) ==> pid
                    == server_pid as i32
            &&& forall|queue: usize|
                call_ensures(ShmemHeader::input_queue, (&header,), queue) ==> queue == input_queue
        },
{
    let at = address - region@.base;
    bytes::law_half_reads_back(image@, at, version);
    bytes::law_half_reads_back(image@, at + 4, server_pid);
    bytes::law_word_reads_back(image@, at + 8, input_queue as u64);
}

/// The prefix of a message is sixteen bytes: zeros, but for the length in bytes
/// eight to eleven, the most significant byte first.
pub proof fn law_prefix_bytes(payload_len: usize, prefix: Vec<u8>)
    requires
        payload_len <= u32::MAX,
        call_ensures(MsgBuf::prefix, (payload_len,), prefix),
    ensures
        prefix@.len() == 16,
        forall|i: int| 0 <= i < 8 || 12 <= i < 16 ==> prefix@[i] == 0,
        256 * (256 * (256 * prefix@[8] + prefix@[9]) + prefix@[10]) + prefix@[11] == payload_len,
{
    let length = bytes::be_bytes((payload_len as u32) as int);
    bytes::law_big_endian_round_trip(payload_len as u32);
    assert(prefix@[8] == length[0] && prefix@[9] == length[1] && prefix@[10] == length[2]
        && prefix@[11] == length[3]);
}

/// A message is found by the address of its payload exactly where its prefix is
/// aligned and both lie inside the region, and its length is what the four bytes
/// in front of the timestamp say.
pub proof fn law_messages_are_found(
    region: &SvmRegion,
    image: &[u8],
    address: usize,
    length: int,
    result: Result<MsgBuf, MemoryError>,
)
    requires
        image@.len() == region@.size,
        16 < address,
        address % 8 == 0,
        region@.holds(address - 16, 16),
        length == ({
            let at = address - 8 - region@.base;
            256 * (256 * (256 * image@[at] + image@[at + 1]) + image@[at + 2]) + image@[at + 3]
        }),
        call_ensures(MsgBuf::from_address, (region, image, address), result),
    ensures
        result is Ok <==> address + length <= region@.base + region@.size,
        result matches Err(error) ==> error is InvalidHeader,
        result matches Ok(message) ==> {
            &&& forall|found: usize|
                call_ensures(MsgBuf::len, (&message,), found) ==> found == length
            &&& forall|found: usize|
                call_ensures(MsgBuf::address, (&message,), found) ==> found == address
            &&& message@.initialized_len == length
        },
{
    bytes::law_big_endian_weights(image@, address - 8 - region@.base);
    assert((address - 16) % 8 == 0);
}

/// An address too low for a prefix, or with a prefix out of line, stands for no
/// message.
pub proof fn law_addresses_without_a_message(
    region: &SvmRegion,
    image: &[u8],
    address: usize,
    result: Result<MsgBuf, MemoryError>,
)
    requires
        image@.len() == region@.size,
        address <= 16 || address % 8 != 0 || !region@.holds(address - 16, 16),
        call_ensures(MsgBuf::from_address, (region, image, address), result),
    ensures
        result == Err::<MsgBuf, _>(MemoryError::InvalidHeader),
{
    if address > 16 && address % 8 != 0 {
        assert((address - 16) % 8 != 0);
    }
}

/// A message is laid out in a block sixteen bytes larger than its payload, whose
/// payload lies behind those bytes; releasing it gives that block back.
pub proof fn law_allocated_messages(
    block: usize,
    payload_len: usize,
    layout: (BlockLayout, usize),
    made: Result<MsgBuf, MemoryError>,
    missing: Result<MsgBuf, MemoryError>,
    release: Release,
    marker: usize,
)
    requires
        fits(payload_len),
        block + 16 <= usize::MAX,
        call_ensures(MsgBuf::layout, (payload_len,), layout),
        call_ensures(MsgBuf::allocated, (Some(block), payload_len), made),
        call_ensures(MsgBuf::allocated, (None, payload_len), missing),
        made is Ok ==> call_ensures(MsgBuf::release, (&made->Ok_0, marker), release),
    ensures
        layout.0.size == payload_len + 16,
        layout.0.align == 8,
        layout.1 == 16,
        made is Ok,
        made->Ok_0@.payload == block + 16,
        made->Ok_0@.payload_len == payload_len,
        made->Ok_0@.initialized_len == 0,
        missing == Err::<MsgBuf, _>(
            (MemoryError::AllocationFailed { bytes: (payload_len + 16) as usize }),
        ),
        marker != 0 ==> release is ToRing,
        marker == 0 ==> release == (Release::ToHeap { base: block, layout: layout.0 }),
{
}

/// The payload of a message that is wholly written is its bytes in the region,
/// and one that is not is refused.
pub proof fn law_payload_bytes(
    message: &MsgBuf,
    region: &SvmRegion,
    image: &[u8],
    payload: Result<&[u8], CodecError>,
)
    requires
        image@.len() == region@.size,
        region@.holds(message@.payload as int, message@.payload_len as int),
        call_ensures(MsgBuf::as_bytes, (message, region, image), payload),
    ensures
        message@.initialized_len < message@.payload_len ==> payload == Err::<&[u8], _>(
            CodecError::UninitializedPayload,
        ),
        message@.initialized_len >= message@.payload_len ==> payload is Ok
            && payload->Ok_0@.len() == message@.payload_len && forall|i: int|
            0 <= i < message@.payload_len ==> #[trigger] payload->Ok_0@[i]
                == image@[message@.payload - region@.base + i],
{
}

/// The room behind an address ends with the region; the elements of a queue have
/// eight bytes; and a payload is decoded to its end.
pub proof fn law_room_and_sizes(
    region: &SvmRegion,
    address: usize,
    room: usize,
    stored: usize,
    sized: Result<(), MemoryError>,
    remaining: usize,
    consumed: Result<(), CodecError>,
)
    requires
        region@.holds(address as int, 0),
        call_ensures(room_from, (region, address), room),
        call_ensures(check_element_size, (stored,), sized),
        call_ensures(check_consumed, (remaining,), consumed),
    ensures
        address + room == region@.base + region@.size,
        sized is Ok <==> stored == 8,
        sized matches Err(error) ==> error == (MemoryError::ElementSizeMismatch {
            requested: 8,
            stored,
        }),
        consumed is Ok <==> remaining == 0,
        consumed matches Err(error) ==> error is TrailingBytes,
{
}

/// Noting what was written never takes back what was noted before, and leaves the
/// message where it is.
pub proof fn law_written_bytes(written: usize)
    ensures
        forall|message: &mut MsgBuf| #[trigger]
            call_ensures(MsgBuf::record_written, (message, written), ()) ==> {
                &&& final(message)@.payload == (*message)@.payload
                &&& final(message)@.payload_len == (*message)@.payload_len
                &&& final(message)@.initialized_len >= written
                &&& final(message)@.initialized_len >= (*message)@.initialized_len
                &&& final(message)@.initialized_len == written
                    || final(message)@.initialized_len == (*message)@.initialized_len
            },
{
}

/// A shared header of eighty bytes that does not lie inside the region is refused,
/// whatever it holds.
pub proof fn law_headers_outside_the_region(
    region: &SvmRegion,
    image: &[u8],
    address: usize,
    queue_bytes: usize,
    result: Result<ShmemHeader, MemoryError>,
)
    requires
        image@.len() == region@.size,
        address < region@.base || address + 80 > region@.base + region@.size,
        call_ensures(ShmemHeader::validate, (region, image, address, queue_bytes), result),
    ensures
        result == Err::<ShmemHeader, _>(MemoryError::InvalidHeader),
{
}

} // verus!
