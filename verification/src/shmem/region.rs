//! Layout and checks of an existing VPP-style SVM region.

use crate::bytes;
use crate::io::{IoError, IoErrorKind};
use crate::shmem::heap::{HeapExtent, MemHeap};
use vstd::prelude::*;
use vstd::slice::*;

verus! {

/// Version the region publishes in its header, major in the upper half.
pub const SVM_REGION_VERSION: u64 = 0x2_0002;

/// Bytes of the region's private heap.
pub const SVM_PVT_HEAP_SIZE: usize = 0x2_0000;

/// Bytes of the region header.
pub const REGION_HEADER_BYTES: usize = 256;

/// The flag of a region with a Data Heap.
pub const DATA_HEAP_FLAG: u64 = 1;

/// The flag of a region without data.
pub const NODATA_FLAG: u64 = 4;

#[derive(Debug, Clone, Copy, PartialEq, Eq, Structural)]
pub struct SvmRegionFlags(u64);

impl SvmRegionFlags {
    /// The flags as one number.
    pub closed spec fn spec_bits(self) -> u64 {
        self.0
    }

    /// No flag.
    pub fn none() -> (flags: Self)
        ensures
            flags.spec_bits() == 0,
    {
        SvmRegionFlags(0)
    }

    /// The region has a Data Heap.
    pub fn data_heap() -> (flags: Self)
        ensures
            flags.spec_bits() == DATA_HEAP_FLAG,
    {
        SvmRegionFlags(DATA_HEAP_FLAG)
    }

    /// The region has no data.
    pub fn nodata() -> (flags: Self)
        ensures
            flags.spec_bits() == NODATA_FLAG,
    {
        SvmRegionFlags(NODATA_FLAG)
    }

    /// The flags that a number holds.
    pub fn from_bits(bits: u64) -> (flags: Self)
        ensures
            flags.spec_bits() == bits,
    {
        SvmRegionFlags(bits)
    }

    /// Whether all of `flag` is set.
    pub fn contains(self, flag: Self) -> (set: bool)
        ensures
            set == (self.spec_bits() & flag.spec_bits() == flag.spec_bits()),
    {
        self.0 & flag.0 == flag.0
    }

    pub fn bits(self) -> (bits: u64)
        ensures
            bits == self.spec_bits(),
    {
        self.0
    }
}

/// A path is held as its bytes, since a path need not be text.
#[derive(Clone, Debug, Eq, PartialEq)]
pub enum SvmRegionError {
    Open { path: Vec<u8>, source: IoError },
    BackingMetadata { source: IoError },
    NotReady,
    UnsupportedVersion { found: u64, expected: u64 },
    VirtualBaseMismatch { found: usize, expected: usize },
    VirtualSizeMismatch { mapped: usize, declared: usize },
    InvalidFlags { bits: u64 },
    MissingDataHeap,
    PvtHeapLayout,
    DataHeapLayout,
    FixedMapping { base: usize, size: usize, source: IoError },
    AddressRangeOccupied { base: usize, size: usize },
    Unmapping { base: usize, size: usize, source: IoError },
}

/// The header fields a client reads.
#[derive(Clone, Copy, Debug, Eq, PartialEq, Structural)]
pub struct SvmRegionHeader {
    pub version: u64,
    pub flags: u64,
    pub virtual_base: usize,
    pub virtual_size: usize,
    pub pvt_heap: usize,
    pub data_heap: usize,
    pub user_ctx: usize,
}

/// The header in the first bytes of a region.
pub open spec fn header_of(image: Seq<u8>) -> SvmRegionHeader {
    SvmRegionHeader {
        version: bytes::le_u64(image, 0) as u64,
        flags: bytes::le_u64(image, 104) as u64,
        virtual_base: (bytes::le_u64(image, 112) as u64) as usize,
        virtual_size: (bytes::le_u64(image, 120) as u64) as usize,
        pvt_heap: (bytes::le_u64(image, 128) as u64) as usize,
        data_heap: (bytes::le_u64(image, 144) as u64) as usize,
        user_ctx: (bytes::le_u64(image, 152) as u64) as usize,
    }
}

impl SvmRegionHeader {
    /// Copies the header out of the first bytes of a region.
    pub fn read(image: &[u8]) -> (header: SvmRegionHeader)
        requires
            REGION_HEADER_BYTES <= image.len(),
        ensures
            header == header_of(image@),
    {
        SvmRegionHeader {
            version: bytes::read_le_u64(image, 0),
            flags: bytes::read_le_u64(image, 104),
            virtual_base: bytes::read_le_u64(image, 112) as usize,
            virtual_size: bytes::read_le_u64(image, 120) as usize,
            pvt_heap: bytes::read_le_u64(image, 128) as usize,
            data_heap: bytes::read_le_u64(image, 144) as usize,
            user_ctx: bytes::read_le_u64(image, 152) as usize,
        }
    }

    /// The address the server left for clients, once it has left one.
    pub fn user_context(&self) -> (context: Option<usize>)
        ensures
            context == (if self.user_ctx == 0 {
                None
            } else {
                Some(self.user_ctx)
            }),
    {
        if self.user_ctx == 0 {
            None
        } else {
            Some(self.user_ctx)
        }
    }
}

/// The failure of a version that is not the supported one.
pub open spec fn version_failure(version: u64) -> Option<SvmRegionError> {
    if version == 0 {
        Some(SvmRegionError::NotReady)
    } else if version != SVM_REGION_VERSION {
        Some(
            SvmRegionError::UnsupportedVersion { found: version, expected: SVM_REGION_VERSION },
        )
    } else {
        None
    }
}

fn check_version(version: u64) -> (failure: Option<SvmRegionError>)
    ensures
        failure == version_failure(version),
{
    if version == 0 {
        return Some(SvmRegionError::NotReady);
    }
    if version != SVM_REGION_VERSION {
        return Some(
            SvmRegionError::UnsupportedVersion { found: version, expected: SVM_REGION_VERSION },
        );
    }
    None
}

/// Whether a set of flags is one that a region may publish: nothing unknown,
/// and not both a Data Heap and no data.
pub open spec fn publishable(flags: u64) -> bool {
    flags == 0 || flags == DATA_HEAP_FLAG || flags == NODATA_FLAG
}

/// A mapped region: where it lies.
#[derive(Clone, Copy, Debug, Eq, PartialEq, Structural)]
pub struct SvmRegion {
    base: usize,
    size: usize,
}

/// The view of an [`SvmRegion`].
pub struct RegionExtent {
    pub base: usize,
    pub size: usize,
}

impl View for SvmRegion {
    type V = RegionExtent;

    closed spec fn view(&self) -> RegionExtent {
        RegionExtent { base: self.base, size: self.size }
    }
}

impl RegionExtent {
    /// Whether the bytes `start..start + count` lie inside the region.
    pub open spec fn holds(self, start: int, count: int) -> bool {
        &&& self.base + self.size <= usize::MAX
        &&& self.base <= start
        &&& start + count <= self.base + self.size
    }
}

/// The first failure of a header that does not describe the mapped region.
pub open spec fn header_failure(region: RegionExtent, header: SvmRegionHeader) -> Option<
    SvmRegionError,
> {
    if version_failure(header.version) is Some {
        version_failure(header.version)
    } else if header.virtual_base != region.base {
        Some(
            SvmRegionError::VirtualBaseMismatch {
                found: region.base,
                expected: header.virtual_base,
            },
        )
    } else if header.virtual_size != region.size {
        Some(
            SvmRegionError::VirtualSizeMismatch {
                mapped: region.size,
                declared: header.virtual_size,
            },
        )
    } else if !publishable(header.flags) {
        Some(SvmRegionError::InvalidFlags { bits: header.flags })
    } else {
        None
    }
}

/// Bytes in front of the Data Heap: the header page and the private heap.
pub open spec fn lead_bytes(pvt_heap: Option<HeapExtent>, page_size: usize) -> int {
    page_size + match pvt_heap {
        Some(heap) => heap.size as int,
        None => 0,
    }
}

/// Whether the Data Heap fills the region behind the private heap.
pub open spec fn fills(
    region: RegionExtent,
    flags: u64,
    pvt_heap: Option<HeapExtent>,
    data_heap: HeapExtent,
    page_size: usize,
) -> bool {
    let lead = lead_bytes(pvt_heap, page_size);
    &&& flags == DATA_HEAP_FLAG
    &&& data_heap.base == region.base + lead
    &&& data_heap.size == if lead <= region.size {
        region.size - lead
    } else {
        0
    }
}

/// The first failure of a region: its header, and the place of its Data Heap.
pub open spec fn region_failure(
    region: RegionExtent,
    header: SvmRegionHeader,
    pvt_heap: Option<HeapExtent>,
    data_heap: Option<HeapExtent>,
    page_size: usize,
) -> Option<SvmRegionError> {
    match header_failure(region, header) {
        Some(error) => Some(error),
        None => match data_heap {
            None => Some(SvmRegionError::MissingDataHeap),
            Some(heap) => if fills(region, header.flags, pvt_heap, heap, page_size) {
                None
            } else {
                Some(SvmRegionError::DataHeapLayout)
            },
        },
    }
}

/// Whether the place of the Data Heap can be told: the addresses in front of it
/// do not overflow, and a Data Heap in that place has a private heap in front.
pub open spec fn has_place(
    region: RegionExtent,
    header: SvmRegionHeader,
    pvt_heap: Option<HeapExtent>,
    data_heap: Option<HeapExtent>,
    page_size: usize,
) -> bool {
    &&& region.base + lead_bytes(pvt_heap, page_size) <= usize::MAX
    &&& pvt_heap is None ==> data_heap is None || header.flags != DATA_HEAP_FLAG
        || data_heap->Some_0.base != region.base + page_size
}

/// The view of an optional heap.
pub open spec fn heap_view(heap: Option<MemHeap>) -> Option<HeapExtent> {
    match heap {
        Some(found) => Some(found@),
        None => None,
    }
}

impl SvmRegion {
    /// The region that is mapped at `base` over `size` bytes.
    pub fn mapped_at(base: usize, size: usize) -> (region: SvmRegion)
        ensures
            region@ == (RegionExtent { base, size }),
    {
        SvmRegion { base, size }
    }

    pub fn base(&self) -> (base: usize)
        ensures
            base == self@.base,
    {
        self.base
    }

    pub fn size(&self) -> (size: usize)
        ensures
            size == self@.size,
    {
        self.size
    }

    /// Whether the `count` bytes at `start` lie inside the region.
    pub fn contains_range(&self, start: usize, count: usize) -> (contained: bool)
        ensures
            contained == self@.holds(start as int, count as int),
    {
        let end: usize = match self.base.checked_add(self.size) {
            Some(end) => end,
            None => {
                return false;
            },
        };
        match start.checked_add(count) {
            Some(end_of_range) => start >= self.base && end_of_range <= end,
            None => false,
        }
    }

    /// The bytes of the region from `address` to its end, out of an image of
    /// the whole region.
    pub fn remaining_from<'a>(&self, image: &'a [u8], address: usize) -> (rest: Option<&'a [u8]>)
        requires
            image@.len() == self@.size,
        ensures
            rest is Some <==> self@.holds(address as int, 0),
            rest matches Some(found) ==> found@ == image@.skip(address - self@.base),
    {
        if !self.contains_range(address, 0) {
            return None;
        }
        let rest = slice_subrange(image, address - self.base, image.len());
        assert(rest@ =~= image@.skip(address - self@.base));
        Some(rest)
    }

    /// Checks that the header describes this mapping.
    pub fn check_header(&self, header: &SvmRegionHeader) -> (failure: Option<SvmRegionError>)
        ensures
            failure == header_failure(self@, *header),
    {
        match check_version(header.version) {
            Some(error) => {
                return Some(error);
            },
            None => {},
        }
        if header.virtual_base != self.base {
            return Some(
                SvmRegionError::VirtualBaseMismatch {
                    found: self.base,
                    expected: header.virtual_base,
                },
            );
        }
        if header.virtual_size != self.size {
            return Some(
                SvmRegionError::VirtualSizeMismatch {
                    mapped: self.size,
                    declared: header.virtual_size,
                },
            );
        }
        let flags = SvmRegionFlags::from_bits(header.flags);
        if !flags_are_public(flags) {
            return Some(SvmRegionError::InvalidFlags { bits: flags.bits() });
        }
        None
    }

    /// Checks that the header and the heaps it names describe this mapping.
    pub fn validate(
        &self,
        header: &SvmRegionHeader,
        pvt_heap: Option<MemHeap>,
        data_heap: Option<MemHeap>,
        page_size: usize,
    ) -> (checked: Result<(), SvmRegionError>)
        requires
            header_failure(self@, *header) is None ==> has_place(
                self@,
                *header,
                heap_view(pvt_heap),
                heap_view(data_heap),
                page_size,
            ),
        ensures
            checked == (match region_failure(
                self@,
                *header,
                heap_view(pvt_heap),
                heap_view(data_heap),
                page_size,
            ) {
                Some(error) => Err(error),
                None => Ok(()),
            }),
    {
        match self.check_header(header) {
            Some(error) => {
                return Err(error);
            },
            None => {},
        }
        let lead: usize = match pvt_heap {
            Some(heap) => page_size + heap.size(),
            None => page_size,
        };
        let heap = match data_heap {
            Some(heap) => heap,
            None => {
                return Err(SvmRegionError::MissingDataHeap);
            },
        };
        let room: usize = if lead <= self.size {
            self.size - lead
        } else {
            0
        };
        if header.flags != DATA_HEAP_FLAG || heap.base() != self.base + lead || heap.size()
            != room {
            return Err(SvmRegionError::DataHeapLayout);
        }
        Ok(())
    }
}

/// Whether a region may publish the flags.
pub fn flags_are_public(flags: SvmRegionFlags) -> (public: bool)
    ensures
        public == publishable(flags.spec_bits()),
{
    let bits: u64 = flags.bits();
    let unknown: bool = bits & !(DATA_HEAP_FLAG | NODATA_FLAG) != 0;
    let both: bool = flags.contains(SvmRegionFlags::data_heap()) && flags.contains(
        SvmRegionFlags::nodata(),
    );
    proof {
        assert((bits & !(1u64 | 4u64) != 0) || (bits & 1 == 1 && bits & 4 == 4) <==> !(bits == 0
            || bits == 1 || bits == 4)) by (bit_vector);
    }
    !unknown && !both
}

/// The size of a backing file that reports `reported`, if it holds a page.
pub open spec fn backing_size(reported: i64, page_size: usize) -> Result<int, SvmRegionError> {
    if reported < 0 || reported > usize::MAX {
        Err(
            SvmRegionError::BackingMetadata {
                source: IoError { kind: IoErrorKind::InvalidData, code: None },
            },
        )
    } else if reported < page_size {
        Err(SvmRegionError::NotReady)
    } else {
        Ok(reported as int)
    }
}

/// Checks the size that a backing file reports.
pub fn probe_size(reported: i64, page_size: usize) -> (available: Result<usize, SvmRegionError>)
    ensures
        match available {
            Ok(found) => backing_size(reported, page_size) == Ok::<_, SvmRegionError>(
                found as int,
            ),
            Err(error) => backing_size(reported, page_size) == Err::<int, _>(error),
        },
{
    let source = IoError::of_kind(IoErrorKind::InvalidData);
    if reported < 0 {
        return Err(SvmRegionError::BackingMetadata { source });
    }
    let wide: u64 = reported as u64;
    let available: usize = wide as usize;
    if available as u64 != wide {
        return Err(SvmRegionError::BackingMetadata { source });
    }
    if available < page_size {
        return Err(SvmRegionError::NotReady);
    }
    Ok(available)
}

/// The base and size that the first bytes of a backing file declare. A file that
/// does not hold a page yet is not ready, whatever its first bytes are.
pub open spec fn declared_extent(first: Seq<u8>, available: usize, page_size: usize) -> Result<
    (usize, usize),
    SvmRegionError,
> {
    let header = header_of(first);
    if available < page_size || first.len() < REGION_HEADER_BYTES {
        Err(SvmRegionError::NotReady)
    } else if version_failure(header.version) is Some {
        Err(version_failure(header.version)->Some_0)
    } else if header.virtual_base == 0 || header.virtual_size < page_size
        || header.virtual_size as int % page_size as int != 0 {
        Err(SvmRegionError::NotReady)
    } else if available < header.virtual_size {
        Err(
            SvmRegionError::BackingMetadata {
                source: IoError { kind: IoErrorKind::UnexpectedEof, code: None },
            },
        )
    } else {
        Ok((header.virtual_base, header.virtual_size))
    }
}

/// Checks what was read of the first page of a backing file that holds
/// `available` bytes.
pub fn probe_backing(first: &[u8], available: usize, page_size: usize) -> (extent: Result<
    (usize, usize),
    SvmRegionError,
>)
    requires
        0 < page_size,
    ensures
        extent == declared_extent(first@, available, page_size),
{
    if available < page_size || first.len() < REGION_HEADER_BYTES {
        return Err(SvmRegionError::NotReady);
    }
    let header = SvmRegionHeader::read(first);
    match check_version(header.version) {
        Some(error) => {
            return Err(error);
        },
        None => {},
    }
    let base: usize = header.virtual_base;
    let size: usize = header.virtual_size;
    if base == 0 || size < page_size || size % page_size != 0 {
        return Err(SvmRegionError::NotReady);
    }
    if available < size {
        return Err(
            SvmRegionError::BackingMetadata {
                source: IoError::of_kind(IoErrorKind::UnexpectedEof),
            },
        );
    }
    Ok((base, size))
}

/// The failure to reserve the addresses of a region. `occupied` is the error
/// number of a range that is taken.
pub fn reservation_failure(base: usize, size: usize, source: IoError, occupied: i32) -> (error:
    SvmRegionError)
    ensures
        error == (if source.code == Some(occupied) {
            SvmRegionError::AddressRangeOccupied { base, size }
        } else {
            SvmRegionError::FixedMapping { base, size, source }
        }),
{
    match source.code {
        Some(code) => if code == occupied {
            SvmRegionError::AddressRangeOccupied { base, size }
        } else {
            SvmRegionError::FixedMapping { base, size, source }
        },
        None => SvmRegionError::FixedMapping { base, size, source },
    }
}

/// Checks that a reservation lies where it was asked for.
pub fn check_reservation(base: usize, size: usize, reserved: usize) -> (checked: Result<
    (),
    SvmRegionError,
>)
    ensures
        checked == (if reserved == base {
            Ok(())
        } else {
            Err(SvmRegionError::AddressRangeOccupied { base, size })
        }),
{
    if reserved != base {
        Err(SvmRegionError::AddressRangeOccupied { base, size })
    } else {
        Ok(())
    }
}

/// The file offset of a mapping, as the signed number a system call takes.
pub fn mapping_offset(base: usize, size: usize, offset: u64) -> (converted: Result<
    i64,
    SvmRegionError,
>)
    ensures
        converted == (if offset <= i64::MAX {
            Ok(offset as i64)
        } else {
            Err(
                SvmRegionError::FixedMapping {
                    base,
                    size,
                    source: IoError { kind: IoErrorKind::InvalidInput, code: None },
                },
            )
        }),
{
    if offset <= 0x7fff_ffff_ffff_ffff {
        Ok(offset as i64)
    } else {
        Err(
            SvmRegionError::FixedMapping {
                base,
                size,
                source: IoError::of_kind(IoErrorKind::InvalidInput),
            },
        )
    }
}

/// Whether attaching may succeed later: the backing file is missing or busy, or
/// its region is not ready.
pub open spec fn may_come(error: SvmRegionError) -> bool {
    match error {
        SvmRegionError::Open { source, .. } => source.kind is NotFound || source.kind
            is WouldBlock,
        SvmRegionError::NotReady => true,
        _ => false,
    }
}

/// Whether attaching is worth another try.
pub fn retryable(error: &SvmRegionError) -> (again: bool)
    ensures
        again == may_come(*error),
{
    match error {
        SvmRegionError::Open { source, .. } => source.kind == IoErrorKind::NotFound || source.kind
            == IoErrorKind::WouldBlock,
        SvmRegionError::NotReady => true,
        _ => false,
    }
}

/// A region that passes validation holds its Data Heap: the heap lies inside
/// the mapping and ends where the mapping ends.
pub proof fn law_valid_region_holds_data_heap(
    region: RegionExtent,
    header: SvmRegionHeader,
    pvt_heap: Option<HeapExtent>,
    data_heap: Option<HeapExtent>,
    page_size: usize,
)
    requires
        region.base + region.size <= usize::MAX,
        lead_bytes(pvt_heap, page_size) <= region.size,
        region_failure(region, header, pvt_heap, data_heap, page_size) is None,
    ensures
        data_heap is Some,
        region.holds(data_heap->Some_0.base as int, data_heap->Some_0.size as int),
        data_heap->Some_0.base + data_heap->Some_0.size == region.base + region.size,
{
}

/// A declared extent fits the backing file and is made of whole pages.
pub proof fn law_declared_extent(first: Seq<u8>, available: usize, page_size: usize)
    requires
        0 < page_size,
        declared_extent(first, available, page_size) is Ok,
    ensures
        ({
            let (base, size) = declared_extent(first, available, page_size)->Ok_0;
            &&& 0 < base
            &&& page_size <= size <= available
            &&& size as int % page_size as int == 0
        }),
{
}

/// A part of a range inside the region lies inside the region too.
pub proof fn law_part_of_range(
    region: RegionExtent,
    start: int,
    count: int,
    inner: int,
    inner_count: int,
)
    requires
        region.holds(start, count),
        start <= inner,
        0 <= inner_count,
        inner + inner_count <= start + count,
    ensures
        region.holds(inner, inner_count),
{
}

/// Whether an image begins with a header of these fields, in the published
/// order: the version first, and from byte 104 on the flags and six words, of
/// which the fourth, the base of the data, is not read.
pub open spec fn header_at(
    image: Seq<u8>,
    version: u64,
    flags: u64,
    words: RegionWords,
) -> bool {
    &&& 256 <= image.len()
    &&& bytes::lies_at(image, 0, bytes::word(version as int))
    &&& bytes::lies_at(image, 104, bytes::word(flags as int))
    &&& bytes::lies_at(image, 112, bytes::word(words.virtual_base as int))
    &&& bytes::lies_at(image, 120, bytes::word(words.virtual_size as int))
    &&& bytes::lies_at(image, 128, bytes::word(words.pvt_heap as int))
    &&& bytes::lies_at(image, 136, bytes::word(words.data_base as int))
    &&& bytes::lies_at(image, 144, bytes::word(words.data_heap as int))
    &&& bytes::lies_at(image, 152, bytes::word(words.user_ctx as int))
}

/// The address-sized words of a region header, in the published order.
pub struct RegionWords {
    pub virtual_base: usize,
    pub virtual_size: usize,
    pub pvt_heap: usize,
    pub data_base: usize,
    pub data_heap: usize,
    pub user_ctx: usize,
}

/// A header that was laid out is read back, each field with its own value.
pub proof fn law_header_reads_back(
    image: &[u8],
    version: u64,
    flags: u64,
    words: RegionWords,
    header: SvmRegionHeader,
)
    requires
        header_at(image@, version, flags, words),
        call_ensures(SvmRegionHeader::read, (image,), header),
    ensures
        header.version == version,
        header.flags == flags,
        header.virtual_base == words.virtual_base,
        header.virtual_size == words.virtual_size,
        header.pvt_heap == words.pvt_heap,
        header.data_heap == words.data_heap,
        header.user_ctx == words.user_ctx,
        header_of(image@) == header,
{
    bytes::law_word_reads_back(image@, 0, version);
    bytes::law_word_reads_back(image@, 104, flags);
    bytes::law_word_reads_back(image@, 112, words.virtual_base as u64);
    bytes::law_word_reads_back(image@, 120, words.virtual_size as u64);
    bytes::law_word_reads_back(image@, 128, words.pvt_heap as u64);
    bytes::law_word_reads_back(image@, 144, words.data_heap as u64);
    bytes::law_word_reads_back(image@, 152, words.user_ctx as u64);
}

/// The address for clients is there exactly once it is not zero.
pub proof fn law_user_context(header: &SvmRegionHeader, context: Option<usize>)
    requires
        call_ensures(SvmRegionHeader::user_context, (header,), context),
    ensures
        header.user_ctx == 0 <==> context is None,
        context matches Some(address) ==> address == header.user_ctx,
{
}

/// A backing file is probed by the header that was laid out in it: it gives the
/// base and the size of that header where it is ready and whole, and otherwise
/// the first reason why not.
pub proof fn law_probe_reads_the_header(
    first: &[u8],
    version: u64,
    flags: u64,
    words: RegionWords,
    available: usize,
    page_size: usize,
    extent: Result<(usize, usize), SvmRegionError>,
)
    requires
        0 < page_size,
        header_at(first@, version, flags, words),
        call_ensures(probe_backing, (first, available, page_size), extent),
    ensures
        ({
            let pages = words.virtual_base != 0 && page_size <= words.virtual_size && exists|
                count: int,
            |
                words.virtual_size == #[trigger] (count * page_size as int);
            &&& available < page_size || version == 0 ==> extent == Err::<(usize, usize), _>(
                SvmRegionError::NotReady,
            )
            &&& available >= page_size && version != 0 && version != 0x2_0002 ==> extent == Err::<
                (usize, usize),
                _,
            >((SvmRegionError::UnsupportedVersion { found: version, expected: 0x2_0002 }))
            &&& available >= page_size && version == 0x2_0002 && !pages ==> extent == Err::<
                (usize, usize),
                _,
            >(SvmRegionError::NotReady)
            &&& available >= page_size && version == 0x2_0002 && pages && available
                < words.virtual_size ==> extent == Err::<(usize, usize), _>(
                (SvmRegionError::BackingMetadata {
                    source: IoError { kind: IoErrorKind::UnexpectedEof, code: None },
                }),
            )
            &&& available >= page_size && version == 0x2_0002 && pages && available
                >= words.virtual_size ==> extent == Ok::<_, SvmRegionError>(
                (words.virtual_base, words.virtual_size),
            )
        }),
{
    bytes::law_word_reads_back(first@, 0, version);
    bytes::law_word_reads_back(first@, 112, words.virtual_base as u64);
    bytes::law_word_reads_back(first@, 120, words.virtual_size as u64);
    lemma_whole_pages(words.virtual_size as int, page_size as int);
}

/// A size is made of whole pages exactly where nothing is left of it.
proof fn lemma_whole_pages(size: int, page_size: int)
    requires
        0 < page_size,
        0 <= size,
    ensures
        size % page_size == 0 <==> exists|count: int| size == #[trigger] (count * page_size),
{
    vstd::arithmetic::div_mod::lemma_fundamental_div_mod(size, page_size);
    if size % page_size == 0 {
        vstd::arithmetic::mul::lemma_mul_is_commutative(page_size, size / page_size);
        assert(size == (size / page_size) * page_size);
    }
    if exists|count: int| size == #[trigger] (count * page_size) {
        let count = choose|count: int| size == #[trigger] (count * page_size);
        vstd::arithmetic::div_mod::lemma_mod_multiples_basic(count, page_size);
    }
}

/// A first page that is too short for a header is not ready.
pub proof fn law_short_first_page(first: Seq<u8>, available: usize, page_size: usize)
    requires
        first.len() < 256,
    ensures
        declared_extent(first, available, page_size) == Err::<(usize, usize), _>(
            SvmRegionError::NotReady,
        ),
{
}

/// A backing file has the size that it reports, where that is a size and holds a
/// page.
pub proof fn law_probe_size(
    reported: i64,
    page_size: usize,
    available: Result<usize, SvmRegionError>,
)
    requires
        call_ensures(probe_size, (reported, page_size), available),
    ensures
        page_size <= reported <= usize::MAX ==> available is Ok && available->Ok_0 == reported,
        0 <= reported < page_size ==> available == Err::<usize, _>(SvmRegionError::NotReady),
        reported < 0 || usize::MAX < reported ==> available == Err::<usize, _>(
            (SvmRegionError::BackingMetadata {
                source: IoError { kind: IoErrorKind::InvalidData, code: None },
            }),
        ),
{
}

/// A header is refused for the first of its fields that does not describe the
/// mapping, and both sides of a mismatch are named; one whose fields all do is
/// not refused.
pub proof fn law_refused_headers(
    region: &SvmRegion,
    header: &SvmRegionHeader,
    failure: Option<SvmRegionError>,
)
    requires
        call_ensures(SvmRegion::check_header, (region, header), failure),
    ensures
        header.version == 0 ==> failure == Some(SvmRegionError::NotReady),
        header.version != 0 && header.version != 0x2_0002 ==> failure == Some(
            (SvmRegionError::UnsupportedVersion { found: header.version, expected: 0x2_0002 }),
        ),
        header.version == 0x2_0002 && header.virtual_base != region@.base ==> failure == Some(
            (SvmRegionError::VirtualBaseMismatch {
                found: region@.base,
                expected: header.virtual_base,
            }),
        ),
        header.version == 0x2_0002 && header.virtual_base == region@.base && header.virtual_size
            != region@.size ==> failure == Some(
            (SvmRegionError::VirtualSizeMismatch {
                mapped: region@.size,
                declared: header.virtual_size,
            }),
        ),
        header.version == 0x2_0002 && header.virtual_base == region@.base && header.virtual_size
            == region@.size ==> failure == (if header.flags == 0 || header.flags == 1
            || header.flags == 4 {
            None
        } else {
            Some((SvmRegionError::InvalidFlags { bits: header.flags }))
        }),
{
}

/// A region passes exactly where its header describes the mapping, its only flag
/// is that of a Data Heap, and the Data Heap begins behind the header page and
/// the private heap and ends where the mapping ends.
pub proof fn law_valid_regions(
    region: &SvmRegion,
    header: &SvmRegionHeader,
    pvt_heap: Option<MemHeap>,
    data_heap: Option<MemHeap>,
    page_size: usize,
    checked: Result<(), SvmRegionError>,
)
    requires
        call_ensures(
            SvmRegion::validate,
            (region, header, pvt_heap, data_heap, page_size),
            checked,
        ),
        pvt_heap is Some,
        page_size + pvt_heap->Some_0@.size <= region@.size,
    ensures
        ({
            let first = region@.base + page_size + pvt_heap->Some_0@.size;
            let heap = data_heap->Some_0@;
            let described = header.version == 0x2_0002 && header.virtual_base == region@.base
                && header.virtual_size == region@.size && (header.flags == 0 || header.flags == 1
                || header.flags == 4);
            let placed = header.flags == 1 && heap.base == first && heap.base + heap.size
                == region@.base + region@.size;
            &&& checked is Ok <==> described && data_heap is Some && placed
            &&& described && data_heap is None ==> checked == Err::<(), _>(
                SvmRegionError::MissingDataHeap,
            )
            &&& described && data_heap is Some && !placed ==> checked == Err::<(), _>(
                SvmRegionError::DataHeapLayout,
            )
        }),
{
}

/// A mapping is where it was put.
pub proof fn law_mapped_region(base: usize, size: usize, region: SvmRegion)
    requires
        call_ensures(SvmRegion::mapped_at, (base, size), region),
    ensures
        forall|found: usize| call_ensures(SvmRegion::base, (&region,), found) ==> found == base,
        forall|found: usize| call_ensures(SvmRegion::size, (&region,), found) ==> found == size,
{
}

/// A range lies inside a region exactly where each of its addresses does, and an
/// empty one where it touches the region.
pub proof fn law_contained_ranges(region: &SvmRegion, start: usize, count: usize, contained: bool)
    requires
        region@.base + region@.size <= usize::MAX,
        call_ensures(SvmRegion::contains_range, (region, start, count), contained),
    ensures
        count > 0 ==> (contained <==> forall|address: int|
            start <= address < start + count ==> region@.base <= address
                && #[trigger] inside(region@, address)),
        count == 0 ==> contained == (region@.base <= start <= region@.base + region@.size),
{
    if count > 0 {
        assert(inside(region@, start as int) ==> region@.base <= start);
        assert(inside(region@, start + count - 1) ==> start + count <= region@.base
            + region@.size);
    }
}

/// Whether a region has a byte at an address.
pub open spec fn inside(region: RegionExtent, address: int) -> bool {
    region.base <= address < region.base + region.size
}

/// The rest of a region begins with the byte at the address and ends with the
/// region.
pub proof fn law_remaining_bytes(
    region: &SvmRegion,
    image: &[u8],
    address: usize,
    rest: Option<&[u8]>,
)
    requires
        region@.base + region@.size <= usize::MAX,
        image@.len() == region@.size,
        call_ensures(SvmRegion::remaining_from, (region, image, address), rest),
    ensures
        rest is Some <==> region@.base <= address <= region@.base + region@.size,
        rest matches Some(found) ==> found@.len() == region@.base + region@.size - address
            && forall|i: int|
            0 <= i < found@.len() ==> found@[i] == #[trigger] image@[address - region@.base + i],
{
    if rest is Some {
        let found = rest->Some_0;
        assert forall|i: int| 0 <= i < found@.len() implies found@[i]
            == #[trigger] image@[address - region@.base + i] by {
        }
    }
}

/// The flag of a Data Heap is the lowest bit and the flag of no data the third
/// one; flags may be published exactly where none or one of these is set alone.
pub proof fn law_flags(
    flags: SvmRegionFlags,
    data: SvmRegionFlags,
    nodata: SvmRegionFlags,
    public: bool,
    has_data: bool,
    has_none: bool,
)
    requires
        call_ensures(SvmRegionFlags::data_heap, (), data),
        call_ensures(SvmRegionFlags::nodata, (), nodata),
        call_ensures(SvmRegionFlags::contains, (flags, data), has_data),
        call_ensures(SvmRegionFlags::contains, (flags, nodata), has_none),
        call_ensures(flags_are_public, (flags,), public),
    ensures
        has_data == (flags.spec_bits() % 2 == 1),
        has_none == (flags.spec_bits() / 4 % 2 == 1),
        public ==> !(has_data && has_none),
        public <==> flags.spec_bits() == 0 || flags.spec_bits() == 1 || flags.spec_bits() == 4,
{
    let bits = flags.spec_bits();
    assert((bits & 1 == 1) == (bits % 2 == 1)) by (bit_vector);
    assert((bits & 4 == 4) == (bits / 4 % 2 == 1)) by (bit_vector);
}

/// The bits of flags are the bits they were made of.
pub proof fn law_flag_bits(bits: u64, flags: SvmRegionFlags, found: u64)
    requires
        call_ensures(SvmRegionFlags::from_bits, (bits,), flags),
        call_ensures(SvmRegionFlags::bits, (flags,), found),
    ensures
        found == bits,
{
}

/// A reservation fails as occupied where the system says so or gave another
/// place, and names the range that was asked for.
pub proof fn law_reservations(
    base: usize,
    size: usize,
    source: IoError,
    occupied: i32,
    reserved: usize,
    error: SvmRegionError,
    checked: Result<(), SvmRegionError>,
)
    requires
        call_ensures(reservation_failure, (base, size, source, occupied), error),
        call_ensures(check_reservation, (base, size, reserved), checked),
    ensures
        source.code == Some(occupied) <==> error == (SvmRegionError::AddressRangeOccupied {
            base,
            size,
        }),
        source.code != Some(occupied) ==> error == (SvmRegionError::FixedMapping {
            base,
            size,
            source,
        }),
        checked is Ok <==> reserved == base,
        checked matches Err(refused) ==> refused == (SvmRegionError::AddressRangeOccupied {
            base,
            size,
        }),
{
}

/// An offset that a system call can take is kept, and a larger one is refused
/// with the range it was for.
pub proof fn law_mapping_offset(
    base: usize,
    size: usize,
    offset: u64,
    converted: Result<i64, SvmRegionError>,
)
    requires
        call_ensures(mapping_offset, (base, size, offset), converted),
    ensures
        converted is Ok <==> offset < 0x8000_0000_0000_0000,
        converted matches Ok(found) ==> found == offset,
        converted matches Err(error) ==> error == (SvmRegionError::FixedMapping {
            base,
            size,
            source: IoError { kind: IoErrorKind::InvalidInput, code: None },
        }),
{
}

/// Attaching is worth another try exactly where the backing file is missing or
/// busy, or its region is not ready.
pub proof fn law_retryable(error: &SvmRegionError, again: bool)
    requires
        call_ensures(retryable, (error,), again),
    ensures
        *error is NotReady ==> again,
        *error matches SvmRegionError::Open { source, .. } ==> again == (source.kind is NotFound
            || source.kind is WouldBlock),
        !(*error is NotReady) && !(*error is Open) ==> !again,
{
}

} // verus!
