//! Layout of the shared stats segment as a read-only reader sees it.
//!
//! A reader receives the segment descriptor over the stats socket and maps the
//! segment read-only. Every pointer the segment publishes is a virtual address
//! in the server process, so a reader converts each published pointer into an
//! offset from the segment base before touching the mapping. All bounds checks
//! happen before any byte is read.
//!
//! Integers are little-endian and a pointer takes eight bytes, as on the 64-bit
//! hosts that publish the segment.

use crate::bytes;
use crate::list;
use crate::text;
use vstd::prelude::*;
use vstd::slice::*;
use vstd::string::*;
use vstd::utf8::*;

verus! {

/// Version the segment publishes in its shared header.
pub const STAT_SEGMENT_VERSION: u64 = 2;

/// Fixed name capacity of one directory entry.
pub const MAX_NAME_BYTES: usize = 128;

/// Longest usable metric name; the segment keeps two nul bytes of slack.
pub const MAX_NAME_LENGTH: usize = 126;

/// Bytes of the vector header that sits in front of every vector data pointer.
pub const VECTOR_HEADER_BYTES: usize = 8;

/// Minimum alignment of a vector data pointer.
pub const VECTOR_MIN_ALIGN: usize = 8;

/// Directory index of the fixed heartbeat slot.
pub const STAT_COUNTER_HEARTBEAT: u32 = 0;

/// Directory index of the fixed last-clear slot.
pub const STAT_COUNTER_LAST_STATS_CLEAR: u32 = 1;

/// Directory index of the fixed boot-time slot.
pub const STAT_COUNTER_BOOTTIME: u32 = 2;

/// Bytes of one published pointer.
pub const POINTER_BYTES: usize = 8;

/// Bytes of the shared header.
pub const SHARED_HEADER_BYTES: usize = 40;

/// Bytes of one directory entry.
pub const DIRECTORY_ENTRY_BYTES: usize = 144;

/// Bytes of one combined counter cell.
pub const COUNTER_BYTES: usize = 16;

/// A malformed or unsupported segment layout.
///
/// Every variant states which published fact failed the check.
#[derive(Clone, Debug, PartialEq, Eq)]
pub enum ProtocolError {
    VersionMismatch { actual: u64, expected: u64 },
    InvalidMapping,
    PointerBeforeBase { pointer: usize, base: usize },
    VectorOutOfBounds { length: usize },
    ElementOutOfBounds { index: usize, length: usize },
    ElementTooSmall { expected: usize, actual: usize },
    UnknownDirectoryType { raw: u32 },
    DirectoryTypeMismatch { name: String, expected: &'static str, actual: &'static str },
    MissingNameTerminator,
    NameTooLong { length: usize },
    InvalidNamePadding,
    InvalidNameEncoding,
    SymlinkCycle { depth: usize },
}

/// The view of a [`ProtocolError`].
pub enum ProtocolErrorView {
    VersionMismatch { actual: u64, expected: u64 },
    InvalidMapping,
    PointerBeforeBase { pointer: usize, base: usize },
    VectorOutOfBounds { length: int },
    ElementOutOfBounds { index: int, length: int },
    ElementTooSmall { expected: usize, actual: usize },
    UnknownDirectoryType { raw: u32 },
    DirectoryTypeMismatch { name: Seq<char>, expected: Seq<char>, actual: Seq<char> },
    MissingNameTerminator,
    NameTooLong { length: int },
    InvalidNamePadding,
    InvalidNameEncoding,
    SymlinkCycle { depth: usize },
}

impl View for ProtocolError {
    type V = ProtocolErrorView;

    open spec fn view(&self) -> ProtocolErrorView {
        match *self {
            ProtocolError::VersionMismatch { actual, expected } => {
                ProtocolErrorView::VersionMismatch { actual, expected }
            },
            ProtocolError::InvalidMapping => ProtocolErrorView::InvalidMapping,
            ProtocolError::PointerBeforeBase { pointer, base } => {
                ProtocolErrorView::PointerBeforeBase { pointer, base }
            },
            ProtocolError::VectorOutOfBounds { length } => ProtocolErrorView::VectorOutOfBounds {
                length: length as int,
            },
            ProtocolError::ElementOutOfBounds {
                index,
                length,
            } => ProtocolErrorView::ElementOutOfBounds {
                index: index as int,
                length: length as int,
            },
            ProtocolError::ElementTooSmall { expected, actual } => {
                ProtocolErrorView::ElementTooSmall { expected, actual }
            },
            ProtocolError::UnknownDirectoryType { raw } => {
                ProtocolErrorView::UnknownDirectoryType { raw }
            },
            ProtocolError::DirectoryTypeMismatch {
                name,
                expected,
                actual,
            } => ProtocolErrorView::DirectoryTypeMismatch {
                name: name@,
                expected: expected@,
                actual: actual@,
            },
            ProtocolError::MissingNameTerminator => ProtocolErrorView::MissingNameTerminator,
            ProtocolError::NameTooLong { length } => ProtocolErrorView::NameTooLong {
                length: length as int,
            },
            ProtocolError::InvalidNamePadding => ProtocolErrorView::InvalidNamePadding,
            ProtocolError::InvalidNameEncoding => ProtocolErrorView::InvalidNameEncoding,
            ProtocolError::SymlinkCycle { depth } => ProtocolErrorView::SymlinkCycle { depth },
        }
    }
}

/// The view of a fallible result.
pub open spec fn outcome<T: View>(result: Result<T, ProtocolError>) -> Result<
    T::V,
    ProtocolErrorView,
> {
    match result {
        Ok(value) => Ok(value@),
        Err(error) => Err(error@),
    }
}

/// Directory entry type codes, in the order of their numbers.
#[derive(Clone, Copy, Debug, Eq, Hash, Ord, PartialEq, PartialOrd, Structural)]
pub enum DirectoryType {
    Illegal,
    ScalarIndex,
    CounterVectorSimple,
    CounterVectorCombined,
    NameVector,
    Empty,
    Symlink,
    HistogramLog2,
    RingBuffer,
    Gauge,
}

impl DirectoryType {
    /// The number the segment publishes for the type.
    pub open spec fn code(self) -> u32 {
        match self {
            DirectoryType::Illegal => 0,
            DirectoryType::ScalarIndex => 1,
            DirectoryType::CounterVectorSimple => 2,
            DirectoryType::CounterVectorCombined => 3,
            DirectoryType::NameVector => 4,
            DirectoryType::Empty => 5,
            DirectoryType::Symlink => 6,
            DirectoryType::HistogramLog2 => 7,
            DirectoryType::RingBuffer => 8,
            DirectoryType::Gauge => 9,
        }
    }

    /// The name diagnostics use for the type.
    pub open spec fn spec_label(self) -> &'static str {
        match self {
            DirectoryType::Illegal => "illegal",
            DirectoryType::ScalarIndex => "scalar_index",
            DirectoryType::CounterVectorSimple => "counter_vector_simple",
            DirectoryType::CounterVectorCombined => "counter_vector_combined",
            DirectoryType::NameVector => "name_vector",
            DirectoryType::Empty => "empty",
            DirectoryType::Symlink => "symlink",
            DirectoryType::HistogramLog2 => "histogram_log2",
            DirectoryType::RingBuffer => "ring_buffer",
            DirectoryType::Gauge => "gauge",
        }
    }

    /// The name diagnostics use for the type.
    pub fn label(self) -> (text: &'static str)
        ensures
            text == self.spec_label(),
    {
        match self {
            DirectoryType::Illegal => "illegal",
            DirectoryType::ScalarIndex => "scalar_index",
            DirectoryType::CounterVectorSimple => "counter_vector_simple",
            DirectoryType::CounterVectorCombined => "counter_vector_combined",
            DirectoryType::NameVector => "name_vector",
            DirectoryType::Empty => "empty",
            DirectoryType::Symlink => "symlink",
            DirectoryType::HistogramLog2 => "histogram_log2",
            DirectoryType::RingBuffer => "ring_buffer",
            DirectoryType::Gauge => "gauge",
        }
    }
}

/// The type whose number is `raw`.
pub open spec fn type_of_code(raw: u32) -> Result<DirectoryType, ProtocolError> {
    if raw == 0 {
        Ok(DirectoryType::Illegal)
    } else if raw == 1 {
        Ok(DirectoryType::ScalarIndex)
    } else if raw == 2 {
        Ok(DirectoryType::CounterVectorSimple)
    } else if raw == 3 {
        Ok(DirectoryType::CounterVectorCombined)
    } else if raw == 4 {
        Ok(DirectoryType::NameVector)
    } else if raw == 5 {
        Ok(DirectoryType::Empty)
    } else if raw == 6 {
        Ok(DirectoryType::Symlink)
    } else if raw == 7 {
        Ok(DirectoryType::HistogramLog2)
    } else if raw == 8 {
        Ok(DirectoryType::RingBuffer)
    } else if raw == 9 {
        Ok(DirectoryType::Gauge)
    } else {
        Err(ProtocolError::UnknownDirectoryType { raw })
    }
}

impl TryFrom<u32> for DirectoryType {
    type Error = ProtocolError;

    fn try_from(raw: u32) -> (found: Result<Self, ProtocolError>) {
        match raw {
            0 => Ok(DirectoryType::Illegal),
            1 => Ok(DirectoryType::ScalarIndex),
            2 => Ok(DirectoryType::CounterVectorSimple),
            3 => Ok(DirectoryType::CounterVectorCombined),
            4 => Ok(DirectoryType::NameVector),
            5 => Ok(DirectoryType::Empty),
            6 => Ok(DirectoryType::Symlink),
            7 => Ok(DirectoryType::HistogramLog2),
            8 => Ok(DirectoryType::RingBuffer),
            9 => Ok(DirectoryType::Gauge),
            raw => Err(ProtocolError::UnknownDirectoryType { raw }),
        }
    }
}

impl vstd::std_specs::convert::TryFromSpecImpl<u32> for DirectoryType {
    open spec fn obeys_try_from_spec() -> bool {
        true
    }

    open spec fn try_from_spec(raw: u32) -> Result<Self, ProtocolError> {
        type_of_code(raw)
    }
}

/// A number names the type whose code it is, and an unknown number names none.
pub proof fn law_type_codes(raw: u32)
    ensures
        type_of_code(raw) matches Ok(found) ==> found.code() == raw,
        type_of_code(raw) is Ok <==> raw <= 9,
        forall|known: DirectoryType|
            #[trigger] known.code() == raw ==> type_of_code(raw) == Ok::<_, ProtocolError>(known),
{
}

impl From<DirectoryType> for &'static str {
    fn from(directory_type: DirectoryType) -> (text: &'static str) {
        directory_type.label()
    }
}

impl vstd::std_specs::convert::FromSpecImpl<DirectoryType> for &'static str {
    open spec fn obeys_from_spec() -> bool {
        true
    }

    open spec fn from_spec(directory_type: DirectoryType) -> &'static str {
        directory_type.spec_label()
    }
}

/// One combined counter cell, two `u64` values.
#[derive(Clone, Copy, Debug, Eq, PartialEq, Structural)]
pub struct Counter {
    pub packets: u64,
    pub bytes: u64,
}

impl Default for Counter {
    fn default() -> (zero: Self)
        ensures
            zero == (Counter { packets: 0, bytes: 0 }),
    {
        Counter { packets: 0, bytes: 0 }
    }
}

/// The combined counter cell at `at`.
pub open spec fn counter_at(bytes: Seq<u8>, at: int) -> Counter {
    Counter { packets: bytes::le_u64(bytes, at) as u64, bytes: bytes::le_u64(bytes, at + 8) as u64 }
}

/// The segment header the reader starts from.
#[derive(Clone, Copy, Debug)]
pub struct SharedHeader {
    version: u64,
    base: usize,
    epoch: u64,
    in_progress: u64,
    directory_vector: usize,
}

/// The view of a [`SharedHeader`].
pub struct HeaderView {
    pub version: u64,
    pub base: usize,
    pub epoch: u64,
    pub in_progress: u64,
    pub directory_vector: usize,
}

impl View for SharedHeader {
    type V = HeaderView;

    closed spec fn view(&self) -> HeaderView {
        HeaderView {
            version: self.version,
            base: self.base,
            epoch: self.epoch,
            in_progress: self.in_progress,
            directory_vector: self.directory_vector,
        }
    }
}

/// The header in the first bytes of a mapping.
pub open spec fn header_of(mapping: Seq<u8>) -> Result<HeaderView, ProtocolErrorView> {
    if mapping.len() < SHARED_HEADER_BYTES {
        Err(ProtocolErrorView::InvalidMapping)
    } else {
        Ok(
            HeaderView {
                version: bytes::le_u64(mapping, 0) as u64,
                base: (bytes::le_u64(mapping, 8) as u64) as usize,
                epoch: bytes::le_u64(mapping, 16) as u64,
                in_progress: bytes::le_u64(mapping, 24) as u64,
                directory_vector: (bytes::le_u64(mapping, 32) as u64) as usize,
            },
        )
    }
}

/// Whether the header carries the supported version.
pub open spec fn version_check(header: HeaderView) -> Result<(), ProtocolErrorView> {
    if header.version == STAT_SEGMENT_VERSION {
        Ok(())
    } else {
        Err(
            ProtocolErrorView::VersionMismatch {
                actual: header.version,
                expected: STAT_SEGMENT_VERSION,
            },
        )
    }
}

impl SharedHeader {
    /// Copies the header out of the first bytes of the mapping.
    pub fn read(mapping: &[u8]) -> (header: Result<SharedHeader, ProtocolError>)
        ensures
            outcome(header) == header_of(mapping@),
    {
        if mapping.len() < SHARED_HEADER_BYTES {
            return Err(ProtocolError::InvalidMapping);
        }
        Ok(
            SharedHeader {
                version: bytes::read_le_u64(mapping, 0),
                base: bytes::read_le_u64(mapping, 8) as usize,
                epoch: bytes::read_le_u64(mapping, 16),
                in_progress: bytes::read_le_u64(mapping, 24),
                directory_vector: bytes::read_le_u64(mapping, 32) as usize,
            },
        )
    }

    pub fn version(&self) -> (version: u64)
        ensures
            version == self@.version,
    {
        self.version
    }

    pub fn base(&self) -> (base: usize)
        ensures
            base == self@.base,
    {
        self.base
    }

    pub fn epoch(&self) -> (epoch: u64)
        ensures
            epoch == self@.epoch,
    {
        self.epoch
    }

    pub fn is_write_in_progress(&self) -> (writing: bool)
        ensures
            writing == (self@.in_progress != 0),
    {
        self.in_progress != 0
    }

    pub fn directory_vector(&self) -> (pointer: usize)
        ensures
            pointer == self@.directory_vector,
    {
        self.directory_vector
    }

    pub fn validate_version(&self) -> (check: Result<(), ProtocolError>)
        ensures
            outcome(check) == version_check(self@),
    {
        let actual = self.version();
        if actual == STAT_SEGMENT_VERSION {
            Ok(())
        } else {
            Err(ProtocolError::VersionMismatch { actual, expected: STAT_SEGMENT_VERSION })
        }
    }
}

/// One directory entry, copied out of the read-only mapping.
#[derive(Clone, Copy, Debug)]
pub struct DirectoryEntry {
    directory_type: u32,
    data: u64,
    name: [u8; 128],
}

/// The view of a [`DirectoryEntry`].
pub struct EntryView {
    pub directory_type: u32,
    pub data: u64,
    pub name: Seq<u8>,
}

impl View for DirectoryEntry {
    type V = EntryView;

    closed spec fn view(&self) -> EntryView {
        EntryView { directory_type: self.directory_type, data: self.data, name: self.name@ }
    }
}

/// The entry that the bytes of one directory slot hold.
pub open spec fn entry_of(slot: Seq<u8>) -> EntryView {
    EntryView {
        directory_type: bytes::le_u32(slot, 0) as u32,
        data: bytes::le_u64(slot, 8) as u64,
        name: slot.subrange(16, 144),
    }
}

/// The name of an entry: the text in front of the first nul, if it is short
/// enough, padded with nuls only, and valid UTF-8.
pub open spec fn entry_name(name: Seq<u8>) -> Result<Seq<char>, ProtocolErrorView> {
    match name.index_of_first(0u8) {
        None => Err(ProtocolErrorView::MissingNameTerminator),
        Some(nul) => if nul > MAX_NAME_LENGTH {
            Err(ProtocolErrorView::NameTooLong { length: nul })
        } else if exists|i: int| nul < i < name.len() && name[i] != 0 {
            Err(ProtocolErrorView::InvalidNamePadding)
        } else {
            match text::decoded_text(name.take(nul)) {
                Some(found) => Ok(found),
                None => Err(ProtocolErrorView::InvalidNameEncoding),
            }
        },
    }
}

/// The bytes in front of the first nul, or all of them.
pub open spec fn before_nul(name: Seq<u8>) -> Seq<u8> {
    match name.index_of_first(0u8) {
        Some(nul) => name.take(nul),
        None => name,
    }
}

/// The error for an entry that is not of the type its reader expects.
pub open spec fn mismatch(
    entry: EntryView,
    expected: Seq<char>,
    actual: DirectoryType,
) -> ProtocolErrorView {
    ProtocolErrorView::DirectoryTypeMismatch {
        name: text::lossy_text(before_nul(entry.name)),
        expected,
        actual: actual.spec_label()@,
    }
}

/// The type an entry publishes.
pub open spec fn entry_type(entry: EntryView) -> Result<DirectoryType, ProtocolErrorView> {
    match type_of_code(entry.directory_type) {
        Ok(found) => Ok(found),
        Err(error) => Err(error@),
    }
}

/// The cell of a scalar or gauge entry.
pub open spec fn entry_scalar(entry: EntryView) -> Result<u64, ProtocolErrorView> {
    match entry_type(entry) {
        Err(error) => Err(error),
        Ok(found) => if found is ScalarIndex || found is Gauge {
            Ok(entry.data)
        } else {
            Err(mismatch(entry, "scalar_index or gauge"@, found))
        },
    }
}

/// The vector pointer of a vector-bearing entry.
pub open spec fn entry_data_pointer(entry: EntryView) -> Result<usize, ProtocolErrorView> {
    match entry_type(entry) {
        Err(error) => Err(error),
        Ok(found) => if found is CounterVectorSimple || found is CounterVectorCombined
            || found is HistogramLog2 || found is RingBuffer {
            Ok(entry.data as usize)
        } else {
            Err(mismatch(entry, "counter_vector_simple"@, found))
        },
    }
}

/// The vector pointer of a name vector.
pub open spec fn entry_name_vector_pointer(entry: EntryView) -> Result<usize, ProtocolErrorView> {
    match entry_type(entry) {
        Err(error) => Err(error),
        Ok(found) => if found is NameVector {
            Ok(entry.data as usize)
        } else {
            Err(mismatch(entry, "name_vector"@, found))
        },
    }
}

/// The target index and the column of a symlink: the low and the high half of
/// its cell.
pub open spec fn entry_symlink(entry: EntryView) -> Result<(u32, u32), ProtocolErrorView> {
    match entry_type(entry) {
        Err(error) => Err(error),
        Ok(found) => if found is Symlink {
            Ok(((entry.data % 0x1_0000_0000) as u32, (entry.data / 0x1_0000_0000) as u32))
        } else {
            Err(mismatch(entry, "symlink"@, found))
        },
    }
}

impl DirectoryEntry {
    /// Copies the entry out of the bytes of one directory slot.
    pub fn read(slot: &[u8]) -> (entry: DirectoryEntry)
        requires
            slot@.len() == DIRECTORY_ENTRY_BYTES,
        ensures
            entry@ == entry_of(slot@),
    {
        let mut name: [u8; 128] = [0; 128];
        let mut i: usize = 0;
        while i < 128
            invariant
                i <= 128,
                slot@.len() == DIRECTORY_ENTRY_BYTES,
                forall|j: int| 0 <= j < i ==> name@[j] == slot@[16 + j],
            decreases 128 - i,
        {
            name[i] = slot[16 + i];
            i = i + 1;
        }
        assert(name@ =~= slot@.subrange(16, 144));
        DirectoryEntry {
            directory_type: bytes::read_le_u32(slot, 0),
            data: bytes::read_le_u64(slot, 8),
            name,
        }
    }

    pub fn directory_type(&self) -> (found: Result<DirectoryType, ProtocolError>)
        ensures
            found == type_of_code(self@.directory_type),
    {
        DirectoryType::try_from(self.directory_type)
    }

    /// The entry name, validated as a nul-terminated UTF-8 string.
    pub fn name(&self) -> (name: Result<&str, ProtocolError>)
        ensures
            outcome(name) == entry_name(self@.name),
    {
        let whole = self.name.as_slice();
        let nul = match bytes::nul_position(whole) {
            Some(nul) => nul,
            None => {
                return Err(ProtocolError::MissingNameTerminator);
            },
        };
        if nul > MAX_NAME_LENGTH {
            return Err(ProtocolError::NameTooLong { length: nul });
        }
        let mut i: usize = nul + 1;
        while i < whole.len()
            invariant
                whole@ == self@.name,
                whole@.len() == 128,
                nul < i <= whole@.len(),
                nul <= MAX_NAME_LENGTH,
                whole@.index_of_first(0u8) == Some(nul as int),
                forall|j: int| nul < j < i ==> whole@[j] == 0,
            decreases whole@.len() - i,
        {
            if whole[i] != 0 {
                return Err(ProtocolError::InvalidNamePadding);
            }
            i = i + 1;
        }
        let lead = slice_subrange(whole, 0, nul);
        assert(lead@ =~= whole@.take(nul as int));
        match text::decode_text(lead) {
            Some(found) => Ok(found),
            None => Err(ProtocolError::InvalidNameEncoding),
        }
    }

    /// The scalar cell of a scalar or gauge entry.
    pub fn scalar(&self) -> (cell: Result<u64, ProtocolError>)
        ensures
            outcome(cell) == entry_scalar(self@),
    {
        match self.directory_type()? {
            DirectoryType::ScalarIndex | DirectoryType::Gauge => Ok(self.data),
            actual => Err(self.type_mismatch("scalar_index or gauge", actual)),
        }
    }

    /// The published vector pointer of a vector-bearing entry.
    pub fn data_pointer(&self) -> (pointer: Result<usize, ProtocolError>)
        ensures
            outcome(pointer) == entry_data_pointer(self@),
    {
        match self.directory_type()? {
            DirectoryType::CounterVectorSimple
            | DirectoryType::CounterVectorCombined
            | DirectoryType::HistogramLog2
            | DirectoryType::RingBuffer => Ok(self.data as usize),
            actual => Err(self.type_mismatch("counter_vector_simple", actual)),
        }
    }

    /// The published pointer of a name vector.
    pub fn name_vector_pointer(&self) -> (pointer: Result<usize, ProtocolError>)
        ensures
            outcome(pointer) == entry_name_vector_pointer(self@),
    {
        match self.directory_type()? {
            DirectoryType::NameVector => Ok(self.data as usize),
            actual => Err(self.type_mismatch("name_vector", actual)),
        }
    }

    /// The target entry index and column of a symlink.
    pub fn symlink(&self) -> (link: Result<(u32, u32), ProtocolError>)
        ensures
            outcome(link) == entry_symlink(self@),
    {
        match self.directory_type()? {
            DirectoryType::Symlink => {
                Ok(((self.data % 0x1_0000_0000) as u32, (self.data / 0x1_0000_0000) as u32))
            },
            actual => Err(self.type_mismatch("symlink", actual)),
        }
    }

    fn type_mismatch(&self, expected: &'static str, actual: DirectoryType) -> (error: ProtocolError)
        ensures
            error@ == mismatch(self@, expected@, actual),
    {
        ProtocolError::DirectoryTypeMismatch {
            name: self.entry_name(),
            expected,
            actual: actual.label(),
        }
    }

    /// Best-effort label for diagnostics; [`DirectoryEntry::name`] is the
    /// validating path callers use when the name itself is the result.
    fn entry_name(&self) -> (label: String)
        ensures
            label@ == text::lossy_text(before_nul(self@.name)),
    {
        let whole = self.name.as_slice();
        let end = match bytes::nul_position(whole) {
            Some(nul) => nul,
            None => MAX_NAME_BYTES,
        };
        let lead = slice_subrange(whole, 0, end);
        assert(lead@ =~= before_nul(self@.name));
        text::from_utf8_lossy(lead)
    }
}

/// One decoded metric value, identity preserved by the caller's name.
#[derive(Clone, Debug, Eq, PartialEq)]
pub enum MetricValue {
    /// `ScalarIndex`: a raw `u64` cell.
    Scalar(u64),
    /// `Gauge`: a `u64` cell.
    Gauge(u64),
    /// `CounterVectorSimple`: one `u64` vector per row.
    Simple(Vec<Vec<u64>>),
    /// `CounterVectorCombined`: one `Counter` vector per row.
    Combined(Vec<Vec<Counter>>),
    /// `NameVector`: one name per element.
    Names(Vec<String>),
    /// `HistogramLog2`: one `u64` vector per row.
    Histogram(Vec<Vec<u64>>),
    /// `RingBuffer`: the raw entry bytes of every thread slot.
    Ring(Vec<Vec<u8>>),
}

/// The view of a [`MetricValue`].
pub enum MetricView {
    Scalar(u64),
    Gauge(u64),
    Simple(Seq<Seq<u64>>),
    Combined(Seq<Seq<Counter>>),
    Names(Seq<Seq<char>>),
    Histogram(Seq<Seq<u64>>),
    Ring(Seq<Seq<u8>>),
}

/// The views of a list of rows.
pub open spec fn rows_view<T>(rows: Seq<Vec<T>>) -> Seq<Seq<T>> {
    rows.map_values(|row: Vec<T>| row@)
}

impl View for MetricValue {
    type V = MetricView;

    open spec fn view(&self) -> MetricView {
        match *self {
            MetricValue::Scalar(value) => MetricView::Scalar(value),
            MetricValue::Gauge(value) => MetricView::Gauge(value),
            MetricValue::Simple(rows) => MetricView::Simple(rows_view(rows@)),
            MetricValue::Combined(rows) => MetricView::Combined(rows_view(rows@)),
            MetricValue::Names(names) => MetricView::Names(text::texts(names@)),
            MetricValue::Histogram(rows) => MetricView::Histogram(rows_view(rows@)),
            MetricValue::Ring(rows) => MetricView::Ring(rows_view(rows@)),
        }
    }
}

/// Column `column` of one row, as a row of its own.
pub open spec fn cropped_row<T>(row: Seq<T>, column: int) -> Result<Seq<T>, ProtocolErrorView> {
    if column < row.len() {
        Ok(seq![row[column]])
    } else {
        Err(ProtocolErrorView::ElementOutOfBounds { index: column, length: row.len() as int })
    }
}

/// Column `column` of every row.
pub open spec fn cropped<T>(rows: Seq<Seq<T>>, column: int) -> Result<
    Seq<Seq<T>>,
    ProtocolErrorView,
> {
    list::collected(rows.len(), |i: int| cropped_row(rows[i], column))
}

/// Column `column` of a value; a value without rows is kept whole.
pub open spec fn column_of(value: MetricView, column: int) -> Result<
    MetricView,
    ProtocolErrorView,
> {
    match value {
        MetricView::Simple(rows) => match cropped(rows, column) {
            Ok(rows) => Ok(MetricView::Simple(rows)),
            Err(error) => Err(error),
        },
        MetricView::Combined(rows) => match cropped(rows, column) {
            Ok(rows) => Ok(MetricView::Combined(rows)),
            Err(error) => Err(error),
        },
        MetricView::Histogram(rows) => match cropped(rows, column) {
            Ok(rows) => Ok(MetricView::Histogram(rows)),
            Err(error) => Err(error),
        },
        _ => Ok(value),
    }
}

impl MetricValue {
    /// Keeps column `column` of every row, like VPP's single-column symlink
    /// read. Scalar values ignore the column, as they have no rows.
    pub fn column(&self, column: usize) -> (value: Result<Self, ProtocolError>)
        ensures
            outcome(value) == column_of(self@, column as int),
    {
        match self {
            MetricValue::Simple(rows) => Ok(MetricValue::Simple(crop_rows(rows, column)?)),
            MetricValue::Combined(rows) => Ok(MetricValue::Combined(crop_rows(rows, column)?)),
            MetricValue::Histogram(rows) => Ok(MetricValue::Histogram(crop_rows(rows, column)?)),
            MetricValue::Names(names) => {
                let kept = names.clone();
                assert(text::texts(kept@) =~= text::texts(names@));
                Ok(MetricValue::Names(kept))
            },
            MetricValue::Ring(values) => {
                let kept = values.clone();
                assert(rows_view(kept@) =~~= rows_view(values@));
                Ok(MetricValue::Ring(kept))
            },
            MetricValue::Scalar(value) => Ok(MetricValue::Scalar(*value)),
            MetricValue::Gauge(value) => Ok(MetricValue::Gauge(*value)),
        }
    }
}

fn crop_rows<T: Copy>(rows: &Vec<Vec<T>>, column: usize) -> (kept: Result<
    Vec<Vec<T>>,
    ProtocolError,
>)
    ensures
        kept matches Ok(found) ==> cropped(rows_view(rows@), column as int) == Ok::<
            _,
            ProtocolErrorView,
        >(rows_view(found@)),
        kept matches Err(error) ==> cropped(rows_view(rows@), column as int) == Err::<
            Seq<Seq<T>>,
            _,
        >(error@),
{
    let ghost item = |i: int| cropped_row(rows_view(rows@)[i], column as int);
    let mut found: Vec<Vec<T>> = Vec::new();
    let mut i: usize = 0;
    proof {
        assert(rows_view(found@) =~= Seq::empty());
    }
    while i < rows.len()
        invariant
            i <= rows@.len(),
            item == (|i: int| cropped_row(rows_view(rows@)[i], column as int)),
            list::collected(i as nat, item) == Ok::<_, ProtocolErrorView>(rows_view(found@)),
        decreases rows@.len() - i,
    {
        let row = &rows[i];
        if column >= row.len() {
            proof {
                assert(item(i as int) is Err);
                list::lemma_collected_error((i + 1) as nat, rows@.len(), item);
            }
            return Err(ProtocolError::ElementOutOfBounds { index: column, length: row.len() });
        }
        let mut single: Vec<T> = Vec::new();
        single.push(row[column]);
        proof {
            assert(single@ =~= seq![row@[column as int]]);
            assert(rows_view(found@.push(single)) =~= rows_view(found@).push(single@));
        }
        found.push(single);
        i = i + 1;
    }
    Ok(found)
}

/// One published vector, resolved into offsets inside the reader's mapping.
///
/// Resolution reads the vector header in front of the published data pointer
/// and checks that the header lies inside the mapping; element access checks
/// the element range on every call.
#[derive(Clone, Copy, Debug)]
pub struct PublishedVector {
    data_offset: usize,
    length: usize,
    alignment: usize,
    element_size: usize,
}

/// The view of a [`PublishedVector`].
pub struct VectorView {
    pub data_offset: nat,
    pub length: nat,
    pub alignment: usize,
    pub element_size: nat,
}

impl View for PublishedVector {
    type V = VectorView;

    closed spec fn view(&self) -> VectorView {
        VectorView {
            data_offset: self.data_offset as nat,
            length: self.length as nat,
            alignment: self.alignment,
            element_size: self.element_size as nat,
        }
    }
}

/// The data-pointer alignment a vector header declares in its flag byte.
pub open spec fn declared_alignment(flags: u8) -> usize {
    VECTOR_MIN_ALIGN.wrapping_shl((flags % 0x80) as u32)
}

/// The vector whose data pointer `published` names in a segment that publishes
/// its base as `base`.
pub open spec fn resolved(
    mapping: Seq<u8>,
    base: usize,
    published: usize,
    element_size: nat,
) -> Result<VectorView, ProtocolErrorView> {
    let offset = published - base;
    if published < base {
        Err(ProtocolErrorView::PointerBeforeBase { pointer: published, base })
    } else if offset < VECTOR_HEADER_BYTES || offset > mapping.len() {
        Err(ProtocolErrorView::VectorOutOfBounds { length: mapping.len() as int })
    } else {
        Ok(
            VectorView {
                data_offset: offset as nat,
                length: bytes::le_u32(mapping, offset - VECTOR_HEADER_BYTES) as nat,
                alignment: declared_alignment(mapping[offset - VECTOR_HEADER_BYTES + 5]),
                element_size,
            },
        )
    }
}

/// The bytes of element `index`.
pub open spec fn element_of(vector: VectorView, mapping: Seq<u8>, index: int) -> Result<
    Seq<u8>,
    ProtocolErrorView,
> {
    let start = vector.data_offset + index * vector.element_size;
    if index >= vector.length {
        Err(ProtocolErrorView::ElementOutOfBounds { index, length: vector.length as int })
    } else if start + vector.element_size > mapping.len() {
        Err(ProtocolErrorView::VectorOutOfBounds { length: mapping.len() as int })
    } else {
        Ok(mapping.subrange(start, start + vector.element_size))
    }
}

/// Element `index` as one `u64`.
pub open spec fn u64_of(vector: VectorView, mapping: Seq<u8>, index: int) -> Result<
    u64,
    ProtocolErrorView,
> {
    if vector.element_size < 8 {
        Err(
            ProtocolErrorView::ElementTooSmall {
                expected: 8,
                actual: vector.element_size as usize,
            },
        )
    } else {
        match element_of(vector, mapping, index) {
            Ok(element) => Ok(bytes::le_u64(element, 0) as u64),
            Err(error) => Err(error),
        }
    }
}

/// Element `index` as one published address.
pub open spec fn pointer_of(vector: VectorView, mapping: Seq<u8>, index: int) -> Result<
    usize,
    ProtocolErrorView,
> {
    match u64_of(vector, mapping, index) {
        Ok(value) => Ok(value as usize),
        Err(error) => Err(error),
    }
}

impl PublishedVector {
    /// Resolves the vector whose data pointer `published` names.
    ///
    /// `mapping` is the reader's whole segment mapping and `base` is the base
    /// the segment publishes. Fails before reading any header byte when the
    /// pointer or header lies outside the mapping.
    pub fn resolve(
        mapping: &[u8],
        base: usize,
        published: usize,
        element_size: usize,
    ) -> (vector: Result<Self, ProtocolError>)
        ensures
            outcome(vector) == resolved(mapping@, base, published, element_size as nat),
    {
        if published < base {
            return Err(ProtocolError::PointerBeforeBase { pointer: published, base });
        }
        let data_offset: usize = published - base;
        if data_offset < VECTOR_HEADER_BYTES || data_offset > mapping.len() {
            return Err(ProtocolError::VectorOutOfBounds { length: mapping.len() });
        }
        let header_offset: usize = data_offset - VECTOR_HEADER_BYTES;
        let length: usize = bytes::read_le_u32(mapping, header_offset) as usize;
        let shift: u32 = (mapping[header_offset + 5] % 0x80) as u32;
        let alignment: usize = VECTOR_MIN_ALIGN.wrapping_shl(shift);
        Ok(PublishedVector { data_offset, length, alignment, element_size })
    }

    pub fn len(&self) -> (length: usize)
        ensures
            length == self@.length,
    {
        self.length
    }

    pub fn is_empty(&self) -> (empty: bool)
        ensures
            empty == (self@.length == 0),
    {
        self.length == 0
    }

    /// Element `index` as raw bytes.
    pub fn element<'mapping>(&self, mapping: &'mapping [u8], index: usize) -> (element: Result<
        &'mapping [u8],
        ProtocolError,
    >)
        ensures
            outcome(element) == element_of(self@, mapping@, index as int),
            element matches Ok(found) ==> found@.len() == self@.element_size,
    {
        if index >= self.length {
            return Err(ProtocolError::ElementOutOfBounds { index, length: self.length });
        }
        let delta: usize = match index.checked_mul(self.element_size) {
            Some(delta) => delta,
            None => {
                return Err(ProtocolError::VectorOutOfBounds { length: mapping.len() });
            },
        };
        let start: usize = match self.data_offset.checked_add(delta) {
            Some(start) => start,
            None => {
                return Err(ProtocolError::VectorOutOfBounds { length: mapping.len() });
            },
        };
        let end: usize = match start.checked_add(self.element_size) {
            Some(end) => end,
            None => {
                return Err(ProtocolError::VectorOutOfBounds { length: mapping.len() });
            },
        };
        if end > mapping.len() {
            return Err(ProtocolError::VectorOutOfBounds { length: mapping.len() });
        }
        Ok(slice_subrange(mapping, start, end))
    }

    /// Element `index` as one `u64`.
    pub fn u64(&self, mapping: &[u8], index: usize) -> (value: Result<u64, ProtocolError>)
        ensures
            outcome(value) == u64_of(self@, mapping@, index as int),
    {
        if self.element_size < 8 {
            return Err(ProtocolError::ElementTooSmall { expected: 8, actual: self.element_size });
        }
        let element = self.element(mapping, index)?;
        Ok(bytes::read_le_u64(element, 0))
    }

    /// Element `index` as one pointer-sized published address.
    pub fn pointer(&self, mapping: &[u8], index: usize) -> (value: Result<usize, ProtocolError>)
        ensures
            outcome(value) == pointer_of(self@, mapping@, index as int),
    {
        if self.element_size < POINTER_BYTES {
            return Err(
                ProtocolError::ElementTooSmall {
                    expected: POINTER_BYTES,
                    actual: self.element_size,
                },
            );
        }
        let element = self.element(mapping, index)?;
        Ok(bytes::read_le_u64(element, 0) as usize)
    }

    /// Data-pointer alignment the vector header declares.
    pub fn alignment(&self) -> (alignment: usize)
        ensures
            alignment == self@.alignment,
    {
        self.alignment
    }
}

/// The name field that holds `name`: its UTF-8 bytes, padded with nuls.
pub open spec fn name_field(name: Seq<char>) -> Seq<u8> {
    Seq::new(
        MAX_NAME_BYTES as nat,
        |i: int|
            if i < encode_utf8(name).len() {
                encode_utf8(name)[i]
            } else {
                0u8
            },
    )
}

/// A published name that fits and holds no nul reads back as it was written.
pub proof fn law_entry_name_round_trip(name: Seq<char>)
    requires
        encode_utf8(name).len() <= MAX_NAME_LENGTH,
        !encode_utf8(name).contains(0u8),
    ensures
        entry_name(name_field(name)) == Ok::<_, ProtocolErrorView>(name),
{
    let field = name_field(name);
    let length = encode_utf8(name).len() as int;
    field.index_of_first_ensures(0u8);
    assert(field[length] == 0);
    assert(field.contains(0u8));
    let nul = field.index_of_first(0u8)->Some_0;
    if nul < length {
        assert(encode_utf8(name)[nul] == 0);
        assert(encode_utf8(name).contains(0u8));
    }
    assert(nul == length);
    assert(field.take(nul) =~= encode_utf8(name));
    encode_utf8_valid_utf8(name);
    encode_utf8_decode_utf8(name);
}

/// Every element that can be read lies inside the mapping, behind a vector
/// header that lies inside it too.
pub proof fn law_elements_inside_mapping(
    mapping: Seq<u8>,
    base: usize,
    published: usize,
    element_size: nat,
    index: int,
)
    requires
        0 <= index,
        resolved(mapping, base, published, element_size) is Ok,
        element_of(resolved(mapping, base, published, element_size)->Ok_0, mapping, index) is Ok,
    ensures
        VECTOR_HEADER_BYTES <= published - base <= mapping.len(),
        published - base + (index + 1) * element_size <= mapping.len(),
        element_of(resolved(mapping, base, published, element_size)->Ok_0, mapping, index)->Ok_0
            == mapping.subrange(
            published - base + index * element_size,
            published - base + (index + 1) * element_size,
        ),
{
    assert((index + 1) * element_size == index * element_size + element_size) by (nonlinear_arith);
}

/// A value without rows is the same in every column.
pub proof fn law_column_of_rowless_value(value: MetricView, column: int)
    requires
        value is Scalar || value is Gauge || value is Names || value is Ring,
    ensures
        column_of(value, column) == Ok::<_, ProtocolErrorView>(value),
{
}

/// Cropping keeps one row per row, with the one cell of the chosen column.
pub proof fn law_cropped_rows<T>(rows: Seq<Seq<T>>, column: int)
    requires
        0 <= column,
    ensures
        cropped(rows, column) is Ok <==> forall|i: int|
            0 <= i < rows.len() ==> column < (#[trigger] rows[i]).len(),
        cropped(rows, column) matches Ok(kept) ==> kept.len() == rows.len() && forall|i: int|
            0 <= i < rows.len() ==> #[trigger] kept[i] == seq![rows[i][column]],
{
    let item = |i: int| cropped_row(rows[i], column);
    if cropped(rows, column) is Ok {
        list::lemma_collected_ok(rows.len(), item);
        assert forall|i: int| 0 <= i < rows.len() implies column < (#[trigger] rows[i]).len() by {
            let kept = list::collected(rows.len(), item)->Ok_0;
            assert(item(i) == Ok::<_, ProtocolErrorView>(kept[i]));
        }
    } else {
        list::lemma_collected_fails(rows.len(), item);
        let i = choose|i: int| 0 <= i < rows.len() && #[trigger] item(i) is Err;
        assert(rows[i].len() <= column);
    }
}

/// The types have the numbers zero to nine, in the order of their listing, and
/// each is called by its own name.
pub proof fn law_published_types(kind: DirectoryType, label: &'static str)
    requires
        call_ensures(DirectoryType::label, (kind,), label),
    ensures
        type_of_code(0) == Ok::<_, ProtocolError>(DirectoryType::Illegal),
        type_of_code(1) == Ok::<_, ProtocolError>(DirectoryType::ScalarIndex),
        type_of_code(2) == Ok::<_, ProtocolError>(DirectoryType::CounterVectorSimple),
        type_of_code(3) == Ok::<_, ProtocolError>(DirectoryType::CounterVectorCombined),
        type_of_code(4) == Ok::<_, ProtocolError>(DirectoryType::NameVector),
        type_of_code(5) == Ok::<_, ProtocolError>(DirectoryType::Empty),
        type_of_code(6) == Ok::<_, ProtocolError>(DirectoryType::Symlink),
        type_of_code(7) == Ok::<_, ProtocolError>(DirectoryType::HistogramLog2),
        type_of_code(8) == Ok::<_, ProtocolError>(DirectoryType::RingBuffer),
        type_of_code(9) == Ok::<_, ProtocolError>(DirectoryType::Gauge),
        kind is Illegal ==> label@ == "illegal"@,
        kind is ScalarIndex ==> label@ == "scalar_index"@,
        kind is CounterVectorSimple ==> label@ == "counter_vector_simple"@,
        kind is CounterVectorCombined ==> label@ == "counter_vector_combined"@,
        kind is NameVector ==> label@ == "name_vector"@,
        kind is Empty ==> label@ == "empty"@,
        kind is Symlink ==> label@ == "symlink"@,
        kind is HistogramLog2 ==> label@ == "histogram_log2"@,
        kind is RingBuffer ==> label@ == "ring_buffer"@,
        kind is Gauge ==> label@ == "gauge"@,
{
}

/// A number above nine names no type, and is told.
pub proof fn law_unknown_types(raw: u32)
    requires
        raw > 9,
    ensures
        type_of_code(raw) == Err::<DirectoryType, _>((ProtocolError::UnknownDirectoryType { raw })),
{
}

/// Only a scalar and a gauge give their cell as a number, and only the vectors of
/// counters, histograms and rings give it as a pointer; a name vector and a
/// symlink each have an accessor of their own.
pub proof fn law_entry_accessors(
    entry: &DirectoryEntry,
    scalar: Result<u64, ProtocolError>,
    pointer: Result<usize, ProtocolError>,
    names: Result<usize, ProtocolError>,
    link: Result<(u32, u32), ProtocolError>,
)
    requires
        call_ensures(DirectoryEntry::scalar, (entry,), scalar),
        call_ensures(DirectoryEntry::data_pointer, (entry,), pointer),
        call_ensures(DirectoryEntry::name_vector_pointer, (entry,), names),
        call_ensures(DirectoryEntry::symlink, (entry,), link),
    ensures
        ({
            let code = entry@.directory_type;
            &&& scalar is Ok <==> code == 1 || code == 9
            &&& scalar matches Ok(cell) ==> cell == entry@.data
            &&& pointer is Ok <==> code == 2 || code == 3 || code == 7 || code == 8
            &&& pointer matches Ok(found) ==> entry@.data <= usize::MAX ==> found == entry@.data
            &&& names is Ok <==> code == 4
            &&& names matches Ok(found) ==> entry@.data <= usize::MAX ==> found == entry@.data
            &&& link is Ok <==> code == 6
            &&& link matches Ok(found) ==> found.0 + 0x1_0000_0000 * found.1 == entry@.data
        }),
{
}

/// An accessor refuses an entry of another type with the types that were expected
/// and found, and an entry of no type with its number.
pub proof fn law_refused_entries(entry: EntryView)
    ensures
        entry.directory_type > 9 ==> ({
            let error = ProtocolErrorView::UnknownDirectoryType { raw: entry.directory_type };
            &&& entry_scalar(entry) == Err::<u64, _>(error)
            &&& entry_data_pointer(entry) == Err::<usize, _>(error)
            &&& entry_name_vector_pointer(entry) == Err::<usize, _>(error)
            &&& entry_symlink(entry) == Err::<(u32, u32), _>(error)
        }),
        entry.directory_type <= 9 ==> ({
            let actual = type_of_code(entry.directory_type)->Ok_0.spec_label()@;
            &&& entry_scalar(entry) matches Err(error) ==> is_mismatch(
                error,
                "scalar_index or gauge"@,
                actual,
            )
            &&& entry_data_pointer(entry) matches Err(error) ==> is_mismatch(
                error,
                "counter_vector_simple"@,
                actual,
            )
            &&& entry_name_vector_pointer(entry) matches Err(error) ==> is_mismatch(
                error,
                "name_vector"@,
                actual,
            )
            &&& entry_symlink(entry) matches Err(error) ==> is_mismatch(
                error,
                "symlink"@,
                actual,
            )
        }),
{
}

/// Whether an error says that one type was expected and another found.
pub open spec fn is_mismatch(
    error: ProtocolErrorView,
    expected: Seq<char>,
    actual: Seq<char>,
) -> bool {
    error matches ProtocolErrorView::DirectoryTypeMismatch { expected: wanted, actual: found, .. }
        && wanted == expected && found == actual
}

/// A name field that cannot be read says why: no nul at all, a name that is too
/// long, something behind the nul, or bytes that are no text.
pub proof fn law_refused_names(name: Seq<u8>, end: int)
    requires
        0 <= end <= name.len(),
        forall|i: int| 0 <= i < end ==> #[trigger] name[i] != 0,
        end < name.len() ==> name[end] == 0,
    ensures
        end == name.len() ==> entry_name(name) == Err::<Seq<char>, _>(
            ProtocolErrorView::MissingNameTerminator,
        ),
        126 < end < name.len() ==> entry_name(name) == Err::<Seq<char>, _>(
            (ProtocolErrorView::NameTooLong { length: end }),
        ),
        end <= 126 && end < name.len() && (exists|i: int| end < i < name.len() && name[i] != 0)
            ==> entry_name(name) == Err::<Seq<char>, _>(ProtocolErrorView::InvalidNamePadding),
        end <= 126 && end < name.len() && (forall|i: int|
            end < i < name.len() ==> #[trigger] name[i] == 0) && !valid_utf8(name.take(end))
            ==> entry_name(name) == Err::<Seq<char>, _>(ProtocolErrorView::InvalidNameEncoding),
{
    name.index_of_first_ensures(0u8);
    if end < name.len() {
        assert(name.contains(0u8));
        let nul = name.index_of_first(0u8)->Some_0;
        if nul < end {
            assert(name[nul] != 0);
        }
        assert(nul == end);
    } else if name.contains(0u8) {
        let i = choose|i: int| 0 <= i < name.len() && name[i] == 0;
        assert(name[i] != 0);
    }
}

/// A pointer in front of the base is refused with both, and one without room for
/// a header, or behind the mapping, with the length of the mapping.
pub proof fn law_refused_vectors(mapping: Seq<u8>, base: usize, published: usize, size: nat)
    ensures
        published < base ==> resolved(mapping, base, published, size) == Err::<VectorView, _>(
            (ProtocolErrorView::PointerBeforeBase { pointer: published, base }),
        ),
        base <= published < base + 8 || base <= published && published - base > mapping.len()
            ==> resolved(mapping, base, published, size) == Err::<VectorView, _>(
            (ProtocolErrorView::VectorOutOfBounds { length: mapping.len() as int }),
        ),
        base + 8 <= published && published - base <= mapping.len() ==> resolved(
            mapping,
            base,
            published,
            size,
        ) is Ok,
{
}

/// An element is read exactly where the vector has it and it lies inside the
/// mapping; what is refused is told with the index and the length of the vector,
/// or with the length of the mapping.
pub proof fn law_read_elements(
    vector: &PublishedVector,
    mapping: &[u8],
    index: usize,
    element: Result<&[u8], ProtocolError>,
)
    requires
        call_ensures(PublishedVector::element, (vector, mapping, index), element),
    ensures
        ({
            let size = vector@.element_size;
            let end = vector@.data_offset + index * size + size;
            &&& element is Ok <==> index < vector@.length && end <= mapping@.len()
            &&& index >= vector@.length ==> element is Err && element->Err_0@ == (
            ProtocolErrorView::ElementOutOfBounds {
                index: index as int,
                length: vector@.length as int,
            })
            &&& index < vector@.length && end > mapping@.len() ==> element is Err
                && element->Err_0@ == (ProtocolErrorView::VectorOutOfBounds {
                length: mapping@.len() as int,
            })
            &&& element matches Ok(found) ==> found@.len() == size && forall|i: int|
                0 <= i < size ==> #[trigger] found@[i] == mapping@[end - size + i]
        }),
{
    assert(0 <= index * vector@.element_size) by (nonlinear_arith);
}

/// A vector of elements too small for a word gives none, and says how large they
/// are.
pub proof fn law_small_elements(
    vector: &PublishedVector,
    mapping: &[u8],
    index: usize,
    word: Result<u64, ProtocolError>,
    pointer: Result<usize, ProtocolError>,
)
    requires
        vector@.element_size < 8,
        call_ensures(PublishedVector::u64, (vector, mapping, index), word),
        call_ensures(PublishedVector::pointer, (vector, mapping, index), pointer),
    ensures
        ({
            let error = ProtocolErrorView::ElementTooSmall {
                expected: 8,
                actual: vector@.element_size as usize,
            };
            &&& word is Err && word->Err_0@ == error
            &&& pointer is Err && pointer->Err_0@ == error
        }),
{
}

/// The length of a vector is told, and it is empty exactly where that is zero.
pub proof fn law_vector_length(vector: &PublishedVector, length: usize, empty: bool)
    requires
        call_ensures(PublishedVector::len, (vector,), length),
        call_ensures(PublishedVector::is_empty, (vector,), empty),
    ensures
        length == vector@.length,
        empty <==> length == 0,
{
}

/// The declared alignment is eight bytes, doubled once for every step of the low
/// seven bits of the flag byte, as far as an address is wide.
pub proof fn law_declared_alignment(flags: u8)
    requires
        flags % 0x80 < 29,
    ensures
        declared_alignment(flags) == 8 * vstd::arithmetic::power2::pow2((flags % 0x80) as nat),
{
    let steps = (flags % 0x80) as u32;
    let eight: usize = 8;
    assert(steps < usize::BITS);
    vstd::arithmetic::power2::lemma2_to64();
    assert(vstd::arithmetic::power2::pow2(steps as nat) <= 0x1000_0000) by {
        if steps < 28 {
            vstd::arithmetic::power2::lemma_pow2_strictly_increases(steps as nat, 28);
        }
    }
    vstd::bits::lemma_usize_shl_is_mul(eight, steps as usize);
}

/// A row that is too short for a column is refused with the column and its own
/// length, and the first such row is the one that is told.
pub proof fn law_short_row<T>(rows: Seq<Seq<T>>, column: int, at: int)
    requires
        0 <= at < rows.len(),
        rows[at].len() <= column,
        forall|i: int| 0 <= i < at ==> column < (#[trigger] rows[i]).len(),
    ensures
        cropped(rows, column) == Err::<Seq<Seq<T>>, _>(
            (ProtocolErrorView::ElementOutOfBounds {
                index: column,
                length: rows[at].len() as int,
            }),
        ),
{
    let item = |i: int| cropped_row(rows[i], column);
    let lead = Seq::new(at as nat, |i: int| seq![rows[i][column]]);
    assert forall|i: int| 0 <= i < at implies #[trigger] item(i) == Ok::<_, ProtocolErrorView>(
        lead[i],
    ) by {
        assert(column < rows[i].len());
    }
    list::lemma_collected_is(at as nat, item, lead);
    assert(item(at) is Err);
    list::lemma_collected_error((at + 1) as nat, rows.len(), item);
}

} // verus!
