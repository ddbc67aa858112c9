//! Fixed-width integers and terminators in byte buffers.

use vstd::prelude::*;
use vstd::slice::*;

verus! {

/// The little-endian `u16` at `at`.
pub open spec fn le_u16(bytes: Seq<u8>, at: int) -> int {
    bytes[at] + 0x100 * bytes[at + 1]
}

/// The little-endian `u32` at `at`.
pub open spec fn le_u32(bytes: Seq<u8>, at: int) -> int {
    le_u16(bytes, at) + 0x1_0000 * le_u16(bytes, at + 2)
}

/// The little-endian `u64` at `at`.
pub open spec fn le_u64(bytes: Seq<u8>, at: int) -> int {
    le_u32(bytes, at) + 0x1_0000_0000 * le_u32(bytes, at + 4)
}

/// The big-endian `u32` at `at`.
pub open spec fn be_u32(bytes: Seq<u8>, at: int) -> int {
    0x100_0000 * bytes[at] + 0x1_0000 * bytes[at + 1] + 0x100 * bytes[at + 2] + bytes[at + 3]
}

/// The four big-endian bytes of `value`.
pub open spec fn be_bytes(value: int) -> Seq<u8> {
    seq![
        (value / 0x100_0000 % 0x100) as u8,
        (value / 0x1_0000 % 0x100) as u8,
        (value / 0x100 % 0x100) as u8,
        (value % 0x100) as u8,
    ]
}

/// Reads the little-endian `u16` at `at`.
pub fn read_le_u16(bytes: &[u8], at: usize) -> (value: u16)
    requires
        at + 2 <= bytes.len(),
    ensures
        value == le_u16(bytes@, at as int),
{
    bytes[at] as u16 + 0x100 * (bytes[at + 1] as u16)
}

/// Reads the little-endian `u32` at `at`.
pub fn read_le_u32(bytes: &[u8], at: usize) -> (value: u32)
    requires
        at + 4 <= bytes.len(),
    ensures
        value == le_u32(bytes@, at as int),
{
    read_le_u16(bytes, at) as u32 + 0x1_0000 * (read_le_u16(bytes, at + 2) as u32)
}

/// Reads the little-endian `u64` at `at`.
pub fn read_le_u64(bytes: &[u8], at: usize) -> (value: u64)
    requires
        at + 8 <= bytes.len(),
    ensures
        value == le_u64(bytes@, at as int),
{
    read_le_u32(bytes, at) as u64 + 0x1_0000_0000 * (read_le_u32(bytes, at + 4) as u64)
}

/// Reads the big-endian `u32` at `at`.
pub fn read_be_u32(bytes: &[u8], at: usize) -> (value: u32)
    requires
        at + 4 <= bytes.len(),
    ensures
        value == be_u32(bytes@, at as int),
{
    0x100_0000 * (bytes[at] as u32) + 0x1_0000 * (bytes[at + 1] as u32) + 0x100 * (bytes[at
        + 2] as u32) + bytes[at + 3] as u32
}

/// Reading back four written bytes gives the value that was written.
pub proof fn law_big_endian_round_trip(value: u32)
    ensures
        be_u32(be_bytes(value as int), 0) == value,
{
}

/// The four little-endian bytes of `value`, the least significant one first.
#[verifier::opaque]
pub open spec fn half(value: int) -> Seq<u8> {
    seq![
        (value % 0x100) as u8,
        (value / 0x100 % 0x100) as u8,
        (value / 0x1_0000 % 0x100) as u8,
        (value / 0x100_0000 % 0x100) as u8,
    ]
}

/// The eight little-endian bytes of `value`, the least significant one first.
#[verifier::opaque]
pub open spec fn word(value: int) -> Seq<u8> {
    half(value % 0x1_0000_0000) + half(value / 0x1_0000_0000)
}

/// Whether the bytes of `part` lie in `buffer` from `at` on.
pub open spec fn lies_at(buffer: Seq<u8>, at: int, part: Seq<u8>) -> bool {
    &&& 0 <= at
    &&& at + part.len() <= buffer.len()
    &&& forall|i: int| 0 <= i < part.len() ==> buffer[at + i] == #[trigger] part[i]
}

/// The number a buffer holds in two bytes, four bytes and eight bytes is the sum
/// of its bytes, each 256 times the weight of the one in front of it.
pub proof fn law_little_endian_weights(buffer: Seq<u8>, at: int)
    ensures
        le_u16(buffer, at) == buffer[at] + 256 * buffer[at + 1],
        le_u32(buffer, at) == buffer[at] + 256 * (buffer[at + 1] + 256 * (buffer[at + 2] + 256
            * buffer[at + 3])),
        le_u64(buffer, at) == buffer[at] + 256 * (buffer[at + 1] + 256 * (buffer[at + 2] + 256 * (
        buffer[at + 3] + 256 * (buffer[at + 4] + 256 * (buffer[at + 5] + 256 * (buffer[at + 6]
            + 256 * buffer[at + 7])))))),
{
}

/// The bytes of a number are as many as its width asks for.
pub proof fn lemma_widths(value: int)
    ensures
        half(value).len() == 4,
        word(value).len() == 8,
{
    reveal(half);
    reveal(word);
}

/// Every `u32` whose four bytes lie in a buffer is read back from there.
pub proof fn law_half_reads_back(buffer: Seq<u8>, at: int, value: u32)
    requires
        lies_at(buffer, at, half(value as int)),
    ensures
        le_u32(buffer, at) == value,
{
    reveal(half);
    let part = half(value as int);
    assert(buffer[at + 0] == part[0]);
    assert(buffer[at + 1] == part[1]);
    assert(buffer[at + 2] == part[2]);
    assert(buffer[at + 3] == part[3]);
}

/// Every `u64` whose eight bytes lie in a buffer is read back from there.
pub proof fn law_word_reads_back(buffer: Seq<u8>, at: int, value: u64)
    requires
        lies_at(buffer, at, word(value as int)),
    ensures
        le_u64(buffer, at) == value,
{
    reveal(word);
    let low = (value as int % 0x1_0000_0000) as u32;
    let high = (value as int / 0x1_0000_0000) as u32;
    let part = word(value as int);
    lemma_widths(low as int);
    lemma_widths(high as int);
    assert forall|i: int| 0 <= i < 4 implies buffer[at + i] == #[trigger] half(low as int)[i] by {
        assert(part[i] == half(low as int)[i]);
    }
    assert forall|i: int| 0 <= i < 4 implies buffer[at + 4 + i] == #[trigger] half(
        high as int,
    )[i] by {
        assert(part[4 + i] == half(high as int)[i]);
    }
    law_half_reads_back(buffer, at, low);
    law_half_reads_back(buffer, at + 4, high);
}

/// The most significant byte of a big-endian number lies first.
pub proof fn law_big_endian_weights(buffer: Seq<u8>, at: int)
    ensures
        be_u32(buffer, at) == 256 * (256 * (256 * buffer[at] + buffer[at + 1]) + buffer[at + 2])
            + buffer[at + 3],
{
}

/// The big-endian bytes of a number are its little-endian bytes, last one first.
pub proof fn law_big_endian_bytes(value: u32)
    ensures
        be_bytes(value as int) =~= half(value as int).reverse(),
{
    reveal(half);
}

/// What lies in a buffer lies in a part of the buffer that holds it.
pub proof fn lemma_lies_in_part(buffer: Seq<u8>, start: int, end: int, at: int, part: Seq<u8>)
    requires
        0 <= start <= at,
        at + part.len() <= end <= buffer.len(),
        lies_at(buffer, at, part),
    ensures
        lies_at(buffer.subrange(start, end), at - start, part),
{
    let inner = buffer.subrange(start, end);
    assert forall|i: int| 0 <= i < part.len() implies inner[at - start + i]
        == #[trigger] part[i] by {
        assert(buffer[at + i] == part[i]);
    }
}

/// The position of the first zero byte.
pub fn nul_position(bytes: &[u8]) -> (position: Option<usize>)
    ensures
        position is Some <==> bytes@.index_of_first(0u8) is Some,
        position matches Some(at) ==> bytes@.index_of_first(0u8) == Some(at as int) && at
            < bytes@.len(),
{
    proof {
        bytes@.index_of_first_ensures(0u8);
    }
    let mut i: usize = 0;
    while i < bytes.len()
        invariant
            i <= bytes@.len(),
            forall|j: int| 0 <= j < i ==> bytes@[j] != 0,
        decreases bytes@.len() - i,
    {
        if bytes[i] == 0 {
            proof {
                bytes@.index_of_first_ensures(0u8);
                assert(bytes@.contains(0u8));
            }
            return Some(i);
        }
        i = i + 1;
    }
    None
}

} // verus!
