//! The locked dlmalloc heap embedded in a shared region, and the decisions
//! about allocations in it.

use crate::bytes;
use vstd::prelude::*;

verus! {

/// The smallest alignment the heap hands out.
pub const MIN_HEAP_ALIGNMENT: usize = 8;

/// Bytes of the heap's metadata up to its name.
pub const MEM_HEAP_BYTES: usize = 28;

/// The published metadata of the heap.
///
/// The heap and its `mspace` are created by the server. The client only uses
/// the allocation methods; it never creates, activates, or destroys the heap.
#[derive(Clone, Copy, Debug, Eq, PartialEq, Structural)]
pub struct MemHeap {
    base: usize,
    mspace: usize,
    size: usize,
}

/// The view of a [`MemHeap`].
pub struct HeapExtent {
    pub base: usize,
    pub mspace: usize,
    pub size: usize,
}

impl View for MemHeap {
    type V = HeapExtent;

    closed spec fn view(&self) -> HeapExtent {
        HeapExtent { base: self.base, mspace: self.mspace, size: self.size }
    }
}

impl MemHeap {
    /// Copies the metadata out of the bytes at the published heap address.
    pub fn read(image: &[u8]) -> (heap: MemHeap)
        requires
            MEM_HEAP_BYTES <= image.len(),
        ensures
            heap@ == (HeapExtent {
                base: (bytes::le_u64(image@, 0) as u64) as usize,
                mspace: (bytes::le_u64(image@, 8) as u64) as usize,
                size: (bytes::le_u64(image@, 16) as u64) as usize,
            }),
    {
        MemHeap {
            base: bytes::read_le_u64(image, 0) as usize,
            mspace: bytes::read_le_u64(image, 8) as usize,
            size: bytes::read_le_u64(image, 16) as usize,
        }
    }

    /// The first address the heap manages.
    pub fn base(&self) -> (base: usize)
        ensures
            base == self@.base,
    {
        self.base
    }

    /// The allocator state of the heap.
    pub fn mspace(&self) -> (mspace: usize)
        ensures
            mspace == self@.mspace,
    {
        self.mspace
    }

    /// The bytes the heap manages.
    pub fn size(&self) -> (size: usize)
        ensures
            size == self@.size,
    {
        self.size
    }
}

/// The size and alignment of a block.
#[derive(Clone, Copy, Debug, Eq, PartialEq, Structural)]
pub struct BlockLayout {
    pub size: usize,
    pub align: usize,
}

/// Whether a block of the layout can exist: the alignment is a power of two,
/// and the size rounded up to it is no larger than an `isize` can count.
pub open spec fn is_valid(layout: BlockLayout) -> bool {
    &&& exists|shift: nat| layout.align == #[trigger] vstd::arithmetic::power2::pow2(shift)
    &&& layout.size + layout.align - 1 <= isize::MAX
}

/// The layout the heap is asked for.
pub open spec fn raised(layout: BlockLayout) -> BlockLayout {
    BlockLayout {
        size: layout.size,
        align: if layout.align < MIN_HEAP_ALIGNMENT {
            MIN_HEAP_ALIGNMENT
        } else {
            layout.align
        },
    }
}

/// Raises the alignment of a layout to the heap's smallest one.
pub fn heap_layout(layout: BlockLayout) -> (asked: BlockLayout)
    requires
        is_valid(raised(layout)),
    ensures
        asked == raised(layout),
        is_valid(asked),
{
    let align: usize = if layout.align < MIN_HEAP_ALIGNMENT {
        MIN_HEAP_ALIGNMENT
    } else {
        layout.align
    };
    BlockLayout { size: layout.size, align }
}

/// What to do with a live block that is to get a new layout.
#[derive(Clone, Copy, Debug, Eq, PartialEq, Structural)]
pub enum Reallocation {
    /// The block is not one of the heap's.
    Refuse,
    /// The block already has the size.
    Keep,
    /// The block has the alignment, so growing it in place comes first.
    InPlace,
    /// A new block is needed, and the content has to move.
    Move,
}

/// The first step of a reallocation. `usable` is what the block can hold now,
/// which only a block of the heap has.
pub open spec fn first_step(
    is_heap_object: bool,
    usable: usize,
    address: usize,
    asked: BlockLayout,
) -> Reallocation {
    if !is_heap_object {
        Reallocation::Refuse
    } else if asked.size == usable {
        Reallocation::Keep
    } else if address as int % asked.align as int == 0 {
        Reallocation::InPlace
    } else {
        Reallocation::Move
    }
}

/// Decides the first step of a reallocation.
pub fn plan_reallocation(
    is_heap_object: bool,
    usable: usize,
    address: usize,
    asked: BlockLayout,
) -> (step: Reallocation)
    requires
        0 < asked.align,
    ensures
        step == first_step(is_heap_object, usable, address, asked),
{
    if !is_heap_object {
        return Reallocation::Refuse;
    }
    if asked.size == usable {
        return Reallocation::Keep;
    }
    if address % asked.align == 0 {
        Reallocation::InPlace
    } else {
        Reallocation::Move
    }
}

/// The bytes a moved block keeps: as many as both blocks hold.
pub fn moved_bytes(usable: usize, asked: BlockLayout) -> (kept: usize)
    ensures
        kept <= usable,
        kept <= asked.size,
        kept == usable || kept == asked.size,
{
    if usable < asked.size {
        usable
    } else {
        asked.size
    }
}

/// Raising an alignment a second time changes nothing.
pub proof fn law_raised_is_idempotent(layout: BlockLayout)
    ensures
        raised(raised(layout)) == raised(layout),
        MIN_HEAP_ALIGNMENT <= raised(layout).align,
        layout.align <= raised(layout).align,
{
}

/// Heap metadata that was laid out, three words in a row, is read back, each word
/// by its own name.
pub proof fn law_heap_reads_back(
    image: &[u8],
    base: usize,
    mspace: usize,
    size: usize,
    heap: MemHeap,
)
    requires
        bytes::lies_at(image@, 0, bytes::word(base as int)),
        bytes::lies_at(image@, 8, bytes::word(mspace as int)),
        bytes::lies_at(image@, 16, bytes::word(size as int)),
        call_ensures(MemHeap::read, (image,), heap),
    ensures
        heap@.base == base,
        heap@.mspace == mspace,
        heap@.size == size,
        forall|found: usize| call_ensures(MemHeap::base, (&heap,), found) ==> found == base,
        forall|found: usize| call_ensures(MemHeap::mspace, (&heap,), found) ==> found == mspace,
        forall|found: usize| call_ensures(MemHeap::size, (&heap,), found) ==> found == size,
{
    bytes::law_word_reads_back(image@, 0, base as u64);
    bytes::law_word_reads_back(image@, 8, mspace as u64);
    bytes::law_word_reads_back(image@, 16, size as u64);
}

/// The heap is asked for the size of the block, on a border of eight bytes or of
/// the block's own alignment, whichever is larger.
pub proof fn law_heap_layout(layout: BlockLayout, asked: BlockLayout)
    requires
        call_ensures(heap_layout, (layout,), asked),
    ensures
        asked.size == layout.size,
        asked.align >= 8,
        asked.align >= layout.align,
        asked.align == 8 || asked.align == layout.align,
{
}

/// Only a block of the heap is reallocated. It stays where it has the size, grows
/// in place where its address has the alignment, and moves otherwise.
pub proof fn law_reallocation(
    is_heap_object: bool,
    usable: usize,
    address: usize,
    asked: BlockLayout,
    step: Reallocation,
)
    requires
        0 < asked.align,
        call_ensures(plan_reallocation, (is_heap_object, usable, address, asked), step),
    ensures
        step is Refuse <==> !is_heap_object,
        step is Keep <==> is_heap_object && usable == asked.size,
        step is InPlace <==> is_heap_object && usable != asked.size && exists|count: int|
            address == #[trigger] (count * asked.align as int),
{
    let size = address as int;
    let align = asked.align as int;
    vstd::arithmetic::div_mod::lemma_fundamental_div_mod(size, align);
    if size % align == 0 {
        vstd::arithmetic::mul::lemma_mul_is_commutative(align, size / align);
        assert(address == (size / align) * asked.align as int);
    }
    if exists|count: int| address == #[trigger] (count * asked.align as int) {
        let count = choose|count: int| address == #[trigger] (count * asked.align as int);
        vstd::arithmetic::div_mod::lemma_mod_multiples_basic(count, align);
    }
}

/// A moved block keeps what both blocks hold, and no byte less.
pub proof fn law_moved_bytes(usable: usize, asked: BlockLayout, kept: usize)
    requires
        call_ensures(moved_bytes, (usable, asked), kept),
    ensures
        usable <= asked.size ==> kept == usable,
        asked.size <= usable ==> kept == asked.size,
{
}

} // verus!
