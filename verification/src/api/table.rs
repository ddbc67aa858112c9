//! The server's compact shared-memory message-table encoding.

use crate::api::codec::CodecError;
use crate::bytes;
use crate::text;
use vstd::prelude::*;
use vstd::slice::*;
use vstd::string::*;
use vstd::utf8::*;

verus! {

/// What a reader made of the front of its input, and the input behind it.
pub type Parsed<T> = Result<(T, Seq<u8>), CodecError>;

/// The first `length` bytes of the input.
pub open spec fn taken(input: Seq<u8>, length: int) -> Parsed<Seq<u8>> {
    if input.len() < length {
        Err(CodecError::TruncatedTable)
    } else {
        Ok((input.take(length), input.skip(length)))
    }
}

/// The compact integer at the front of the input.
///
/// The lowest set bit among the first three tells the form: one byte with
/// seven bits of value, two bytes with fourteen, four bytes with twenty-nine.
/// Without any of them, eight more bytes hold the value whole. Each form
/// counts on from where the one before it ends.
#[verifier::opaque]
pub open spec fn integer_of(input: Seq<u8>) -> Parsed<u64> {
    if input.len() < 1 {
        Err(CodecError::TruncatedTable)
    } else {
        let first = input[0] as int;
        if first % 2 == 1 {
            Ok(((first / 2) as u64, input.skip(1)))
        } else if first % 4 == 2 {
            if input.len() < 2 {
                Err(CodecError::TruncatedTable)
            } else {
                Ok(((128 + bytes::le_u16(input, 0) / 4) as u64, input.skip(2)))
            }
        } else if first % 8 == 4 {
            if input.len() < 4 {
                Err(CodecError::TruncatedTable)
            } else {
                Ok(((128 + 16384 + bytes::le_u32(input, 0) / 8) as u64, input.skip(4)))
            }
        } else if input.len() < 9 {
            Err(CodecError::TruncatedTable)
        } else {
            Ok((bytes::le_u64(input, 1) as u64, input.skip(9)))
        }
    }
}

/// The text at the front of the input: its length, and its bytes.
pub open spec fn text_of(input: Seq<u8>) -> Parsed<Seq<char>> {
    match integer_of(input) {
        Err(error) => Err(error),
        Ok((length, behind_length)) => if length > usize::MAX {
            Err(CodecError::LengthOutOfRange)
        } else {
            match taken(behind_length, length as int) {
                Err(error) => Err(error),
                Ok((name, rest)) => match text::decoded_text(name) {
                    None => Err(CodecError::InvalidText),
                    Some(found) => Ok((found, rest)),
                },
            }
        },
    }
}

/// One entry of the table: the number of a message, and its name.
pub open spec fn entry_of(input: Seq<u8>) -> Parsed<(Seq<char>, u16)> {
    match integer_of(input) {
        Err(error) => Err(error),
        Ok((id, behind_id)) => if id > u16::MAX {
            Err(CodecError::MessageIdOutOfRange)
        } else {
            match text_of(behind_id) {
                Err(error) => Err(error),
                Ok((name, rest)) => Ok(((name, id as u16), rest)),
            }
        },
    }
}

/// The first `count` entries at the front of the input.
pub open spec fn entries_of(input: Seq<u8>, count: nat) -> Parsed<Seq<(Seq<char>, u16)>>
    decreases count,
{
    if count == 0 {
        Ok((Seq::empty(), input))
    } else {
        match entries_of(input, (count - 1) as nat) {
            Err(error) => Err(error),
            Ok((entries, rest)) => match entry_of(rest) {
                Err(error) => Err(error),
                Ok((entry, behind)) => Ok((entries.push(entry), behind)),
            },
        }
    }
}

/// The table at the front of the input: a big-endian count, and the entries.
pub open spec fn table_of(input: Seq<u8>) -> Result<Seq<(Seq<char>, u16)>, CodecError> {
    if input.len() < 4 {
        Err(CodecError::TruncatedTable)
    } else {
        match entries_of(input.skip(4), bytes::be_u32(input, 0) as nat) {
            Err(error) => Err(error),
            Ok((entries, _)) => Ok(entries),
        }
    }
}

/// The view of a list of entries.
pub open spec fn entries_view(entries: Seq<(String, u16)>) -> Seq<(Seq<char>, u16)> {
    entries.map_values(|entry: (String, u16)| (entry.0@, entry.1))
}

/// Reads the whole table; what follows it is left alone.
pub fn deserialize_message_table(input: &[u8]) -> (table: Result<Vec<(String, u16)>, CodecError>)
    ensures
        match table {
            Ok(entries) => table_of(input@) == Ok::<_, CodecError>(entries_view(entries@)),
            Err(error) => table_of(input@) == Err::<Seq<(Seq<char>, u16)>, _>(error),
        },
{
    if input.len() < 4 {
        return Err(CodecError::TruncatedTable);
    }
    let count: u32 = bytes::read_be_u32(input, 0);
    let mut rest = slice_subrange(input, 4, input.len());
    let ghost body = input@.skip(4);
    let mut entries: Vec<(String, u16)> = Vec::new();
    let mut done: u32 = 0;
    proof {
        assert(rest@ =~= body);
        assert(entries_view(entries@) =~= Seq::empty());
    }
    while done < count
        invariant
            done <= count,
            body == input@.skip(4),
            count == bytes::be_u32(input@, 0),
            input@.len() >= 4,
            entries_of(body, done as nat) == Ok::<_, CodecError>((entries_view(entries@), rest@)),
        decreases count - done,
    {
        match read_entry(rest) {
            Ok((entry, behind)) => {
                proof {
                    assert(entries_view(entries@.push(entry)) =~= entries_view(entries@).push(
                        (entry.0@, entry.1),
                    ));
                }
                entries.push(entry);
                rest = behind;
            },
            Err(error) => {
                proof {
                    lemma_entries_error(body, (done + 1) as nat, count as nat);
                }
                return Err(error);
            },
        }
        done = done + 1;
    }
    Ok(entries)
}

proof fn lemma_entries_error(input: Seq<u8>, count: nat, total: nat)
    requires
        count <= total,
        entries_of(input, count) is Err,
    ensures
        entries_of(input, total) is Err,
        entries_of(input, total)->Err_0 == entries_of(input, count)->Err_0,
    decreases total,
{
    if count < total {
        lemma_entries_error(input, count, (total - 1) as nat);
    }
}

/// Reads one entry.
fn read_entry(input: &[u8]) -> (entry: Result<((String, u16), &[u8]), CodecError>)
    ensures
        match entry {
            Ok((found, rest)) => entry_of(input@) == Ok::<_, CodecError>(
                ((found.0@, found.1), rest@),
            ),
            Err(error) => entry_of(input@) == Err::<((Seq<char>, u16), Seq<u8>), _>(error),
        },
{
    let (id, behind_id) = read_integer(input)?;
    if id > 0xffff {
        return Err(CodecError::MessageIdOutOfRange);
    }
    let (name, rest) = read_text(behind_id)?;
    Ok(((name, id as u16), rest))
}

/// Reads one text.
fn read_text(input: &[u8]) -> (read: Result<(String, &[u8]), CodecError>)
    ensures
        match read {
            Ok((found, rest)) => text_of(input@) == Ok::<_, CodecError>((found@, rest@)),
            Err(error) => text_of(input@) == Err::<(Seq<char>, Seq<u8>), _>(error),
        },
{
    let (length, behind_length) = read_integer(input)?;
    let size: usize = length as usize;
    if size as u64 != length {
        return Err(CodecError::LengthOutOfRange);
    }
    let (name, rest) = take(behind_length, size)?;
    match text::decode_text(name) {
        Some(found) => Ok((found.to_owned(), rest)),
        None => Err(CodecError::InvalidText),
    }
}

/// Takes the first `length` bytes.
fn take(input: &[u8], length: usize) -> (parts: Result<(&[u8], &[u8]), CodecError>)
    ensures
        match parts {
            Ok((lead, rest)) => taken(input@, length as int) == Ok::<_, CodecError>(
                (lead@, rest@),
            ),
            Err(error) => taken(input@, length as int) == Err::<(Seq<u8>, Seq<u8>), _>(error),
        },
{
    if input.len() < length {
        return Err(CodecError::TruncatedTable);
    }
    let lead = slice_subrange(input, 0, length);
    let rest = slice_subrange(input, length, input.len());
    assert(lead@ =~= input@.take(length as int));
    assert(rest@ =~= input@.skip(length as int));
    Ok((lead, rest))
}

/// Reads one compact integer.
fn read_integer(input: &[u8]) -> (value: Result<(u64, &[u8]), CodecError>)
    ensures
        match value {
            Ok((found, rest)) => integer_of(input@) == Ok::<_, CodecError>((found, rest@)),
            Err(error) => integer_of(input@) == Err::<(u64, Seq<u8>), _>(error),
        },
{
    reveal(integer_of);
    if input.len() < 1 {
        return Err(CodecError::TruncatedTable);
    }
    let first: u8 = input[0];
    if first % 2 == 1 {
        let (_, rest) = take(input, 1)?;
        return Ok(((first / 2) as u64, rest));
    }
    if first % 4 == 2 {
        let (lead, rest) = take(input, 2)?;
        assert(bytes::le_u16(lead@, 0) == bytes::le_u16(input@, 0));
        return Ok((128 + (bytes::read_le_u16(lead, 0) / 4) as u64, rest));
    }
    if first % 8 == 4 {
        let (lead, rest) = take(input, 4)?;
        assert(bytes::le_u32(lead@, 0) == bytes::le_u32(input@, 0));
        return Ok((128 + 16384 + (bytes::read_le_u32(lead, 0) / 8) as u64, rest));
    }
    let (lead, rest) = take(input, 9)?;
    assert(bytes::le_u64(lead@, 1) == bytes::le_u64(input@, 1));
    Ok((bytes::read_le_u64(lead, 1), rest))
}

/// The two little-endian bytes of `value`.
pub open spec fn two_bytes(value: int) -> Seq<u8> {
    seq![(value % 0x100) as u8, (value / 0x100 % 0x100) as u8]
}

/// The four little-endian bytes of `value`.
pub open spec fn four_bytes(value: int) -> Seq<u8> {
    two_bytes(value % 0x1_0000) + two_bytes(value / 0x1_0000)
}

/// The compact form of an integer: the shortest form that reaches it.
#[verifier::opaque]
pub open spec fn encoded_integer(value: u64) -> Seq<u8> {
    if value < 128 {
        seq![(2 * value + 1) as u8]
    } else if value < 128 + 16384 {
        two_bytes(4 * (value - 128) + 2)
    } else if value < 128 + 16384 + 0x2000_0000 {
        four_bytes(8 * (value - 128 - 16384) + 4)
    } else {
        seq![0u8] + four_bytes(value as int % 0x1_0000_0000) + four_bytes(
            value as int / 0x1_0000_0000,
        )
    }
}

/// The form of a text.
pub open spec fn encoded_text(value: Seq<char>) -> Seq<u8> {
    encoded_integer(encode_utf8(value).len() as u64) + encode_utf8(value)
}

/// The form of one entry.
pub open spec fn encoded_entry(entry: (Seq<char>, u16)) -> Seq<u8> {
    encoded_integer(entry.1 as u64) + encoded_text(entry.0)
}

/// The form of a list of entries.
pub open spec fn encoded_entries(entries: Seq<(Seq<char>, u16)>) -> Seq<u8>
    decreases entries.len(),
{
    if entries.len() == 0 {
        Seq::empty()
    } else {
        encoded_entries(entries.drop_last()) + encoded_entry(entries.last())
    }
}

/// The form of a whole table.
pub open spec fn encoded_table(entries: Seq<(Seq<char>, u16)>) -> Seq<u8> {
    bytes::be_bytes(entries.len() as int) + encoded_entries(entries)
}

proof fn lemma_two_bytes(value: int)
    requires
        0 <= value < 0x1_0000,
    ensures
        two_bytes(value).len() == 2,
        two_bytes(value)[0] == value % 0x100,
        bytes::le_u16(two_bytes(value), 0) == value,
{
}

proof fn lemma_four_bytes(value: int)
    requires
        0 <= value < 0x1_0000_0000,
    ensures
        four_bytes(value).len() == 4,
        four_bytes(value)[0] == value % 0x100,
        bytes::le_u32(four_bytes(value), 0) == value,
{
    let low = two_bytes(value % 0x1_0000);
    let high = two_bytes(value / 0x1_0000);
    lemma_two_bytes(value % 0x1_0000);
    lemma_two_bytes(value / 0x1_0000);
    assert(four_bytes(value)[0] == low[0] && four_bytes(value)[1] == low[1]);
    assert(four_bytes(value)[2] == high[0] && four_bytes(value)[3] == high[1]);
    assert(value % 0x1_0000 % 0x100 == value % 0x100);
}

proof fn lemma_one_byte_integer(value: u64, rest: Seq<u8>)
    requires
        value < 128,
    ensures
        integer_of(encoded_integer(value) + rest) == Ok::<_, CodecError>((value, rest)),
{
    reveal(encoded_integer);
    reveal(integer_of);
    let input = encoded_integer(value) + rest;
    assert(input[0] == 2 * value + 1);
    assert(input.skip(1) =~= rest);
}

proof fn lemma_two_byte_integer(value: u64, rest: Seq<u8>)
    requires
        128 <= value < 128 + 16384,
    ensures
        integer_of(encoded_integer(value) + rest) == Ok::<_, CodecError>((value, rest)),
{
    reveal(encoded_integer);
    reveal(integer_of);
    let form = encoded_integer(value);
    let input = form + rest;
    let shifted = 4 * (value - 128) + 2;
    lemma_two_bytes(shifted);
    assert(input[0] == form[0] && input[1] == form[1]);
    assert(bytes::le_u16(input, 0) == shifted);
    assert(input[0] as int % 4 == 2);
    assert(input.skip(2) =~= rest);
}

proof fn lemma_four_byte_integer(value: u64, rest: Seq<u8>)
    requires
        128 + 16384 <= value < 128 + 16384 + 0x2000_0000,
    ensures
        integer_of(encoded_integer(value) + rest) == Ok::<_, CodecError>((value, rest)),
{
    reveal(encoded_integer);
    reveal(integer_of);
    let form = encoded_integer(value);
    let input = form + rest;
    let shifted = 8 * (value - 128 - 16384) + 4;
    lemma_four_bytes(shifted);
    assert(input[0] == form[0] && input[1] == form[1] && input[2] == form[2] && input[3]
        == form[3]);
    assert(bytes::le_u32(input, 0) == bytes::le_u32(form, 0));
    assert(input[0] as int % 8 == 4);
    assert(input.skip(4) =~= rest);
}

proof fn lemma_long_integer(value: u64, rest: Seq<u8>)
    requires
        128 + 16384 + 0x2000_0000 <= value,
    ensures
        integer_of(encoded_integer(value) + rest) == Ok::<_, CodecError>((value, rest)),
{
    reveal(encoded_integer);
    reveal(integer_of);
    let low = four_bytes(value as int % 0x1_0000_0000);
    let high = four_bytes(value as int / 0x1_0000_0000);
    let input = encoded_integer(value) + rest;
    lemma_four_bytes(value as int % 0x1_0000_0000);
    lemma_four_bytes(value as int / 0x1_0000_0000);
    assert(input[0] == 0);
    assert(input[1] == low[0] && input[2] == low[1] && input[3] == low[2] && input[4] == low[3]);
    assert(input[5] == high[0] && input[6] == high[1] && input[7] == high[2] && input[8]
        == high[3]);
    assert(bytes::le_u32(input, 1) == bytes::le_u32(low, 0));
    assert(bytes::le_u32(input, 5) == bytes::le_u32(high, 0));
    assert(input.skip(9) =~= rest);
}

/// Every integer reads back from its compact form, whatever follows it.
pub proof fn law_integer_round_trip(value: u64, rest: Seq<u8>)
    ensures
        integer_of(encoded_integer(value) + rest) == Ok::<_, CodecError>((value, rest)),
{
    if value < 128 {
        lemma_one_byte_integer(value, rest);
    } else if value < 128 + 16384 {
        lemma_two_byte_integer(value, rest);
    } else if value < 128 + 16384 + 0x2000_0000 {
        lemma_four_byte_integer(value, rest);
    } else {
        lemma_long_integer(value, rest);
    }
}

proof fn lemma_text_round_trip(value: Seq<char>, rest: Seq<u8>)
    requires
        encode_utf8(value).len() <= usize::MAX,
    ensures
        text_of(encoded_text(value) + rest) == Ok::<_, CodecError>((value, rest)),
{
    let form = encode_utf8(value);
    let length = encoded_integer(form.len() as u64);
    let behind = form + rest;
    law_integer_round_trip(form.len() as u64, behind);
    assert(encoded_text(value) + rest =~= length + behind);
    assert(behind.take(form.len() as int) =~= form);
    assert(behind.skip(form.len() as int) =~= rest);
    encode_utf8_valid_utf8(value);
    encode_utf8_decode_utf8(value);
}

/// Every entry reads back from its form, whatever follows it.
pub proof fn law_entry_round_trip(entry: (Seq<char>, u16), rest: Seq<u8>)
    requires
        encode_utf8(entry.0).len() <= usize::MAX,
    ensures
        entry_of(encoded_entry(entry) + rest) == Ok::<_, CodecError>((entry, rest)),
{
    let id = encoded_integer(entry.1 as u64);
    let behind = encoded_text(entry.0) + rest;
    assert(encoded_entry(entry) + rest =~= id + behind);
    law_integer_round_trip(entry.1 as u64, behind);
    lemma_text_round_trip(entry.0, rest);
}

/// Every table reads back from its form, whatever follows it.
pub proof fn law_table_round_trip(entries: Seq<(Seq<char>, u16)>, rest: Seq<u8>)
    requires
        entries.len() <= u32::MAX,
        forall|i: int|
            0 <= i < entries.len() ==> encode_utf8((#[trigger] entries[i]).0).len() <= usize::MAX,
    ensures
        table_of(encoded_table(entries) + rest) == Ok::<_, CodecError>(entries),
{
    let input = encoded_table(entries) + rest;
    lemma_entries_round_trip(entries, rest);
    bytes::law_big_endian_round_trip(entries.len() as u32);
    assert(bytes::be_u32(input, 0) == bytes::be_u32(bytes::be_bytes(entries.len() as int), 0));
    assert(input.skip(4) =~= encoded_entries(entries) + rest);
}

proof fn lemma_entries_round_trip(entries: Seq<(Seq<char>, u16)>, rest: Seq<u8>)
    requires
        forall|i: int|
            0 <= i < entries.len() ==> encode_utf8((#[trigger] entries[i]).0).len() <= usize::MAX,
    ensures
        entries_of(encoded_entries(entries) + rest, entries.len()) == Ok::<_, CodecError>(
            (entries, rest),
        ),
    decreases entries.len(),
{
    if entries.len() > 0 {
        let lead = entries.drop_last();
        let last = encoded_entry(entries.last());
        assert forall|i: int| 0 <= i < lead.len() implies encode_utf8(
            (#[trigger] lead[i]).0,
        ).len() <= usize::MAX by {
            assert(lead[i] == entries[i]);
        }
        assert(entries[entries.len() - 1] == entries.last());
        lemma_entries_round_trip(lead, last + rest);
        law_entry_round_trip(entries.last(), rest);
        assert(encoded_entries(entries) + rest =~= encoded_entries(lead) + (last + rest));
        assert(lead.push(entries.last()) =~= entries);
    } else {
        assert(encoded_entries(entries) + rest =~= rest);
        assert(entries =~= Seq::empty());
    }
}

/// The longest form reads back with every value, also one that a shorter form
/// would hold: a byte without its three lowest bits, and the eight bytes of the
/// value.
pub proof fn law_long_form(lead: u8, value: u64, input: Seq<u8>)
    requires
        lead % 8 == 0,
        input.len() >= 9,
        input[0] == lead,
        bytes::lies_at(input, 1, bytes::word(value as int)),
    ensures
        integer_of(input) == Ok::<_, CodecError>((value, input.skip(9))),
{
    reveal(integer_of);
    bytes::law_word_reads_back(input, 1, value);
}

/// An entry whose number is too large for a message, one whose name is cut off,
/// and one whose name is no text are refused.
pub proof fn law_refused_entries(id: u64, length: u64, rest: Seq<u8>)
    ensures
        id > 0xffff ==> entry_of(encoded_integer(id) + rest) == Err::<
            ((Seq<char>, u16), Seq<u8>),
            _,
        >(CodecError::MessageIdOutOfRange),
        id <= 0xffff && length <= usize::MAX && rest.len() < length ==> entry_of(
            encoded_integer(id) + (encoded_integer(length) + rest),
        ) == Err::<((Seq<char>, u16), Seq<u8>), _>(CodecError::TruncatedTable),
        id <= 0xffff && length <= usize::MAX && rest.len() >= length && !valid_utf8(
            rest.take(length as int),
        ) ==> entry_of(encoded_integer(id) + (encoded_integer(length) + rest)) == Err::<
            ((Seq<char>, u16), Seq<u8>),
            _,
        >(CodecError::InvalidText),
{
    law_integer_round_trip(id, rest);
    law_integer_round_trip(id, encoded_integer(length) + rest);
    law_integer_round_trip(length, rest);
}

/// A table that is too short for its count, and an integer that is cut off, are
/// refused.
pub proof fn law_truncated_tables(input: Seq<u8>)
    ensures
        input.len() < 4 ==> table_of(input) == Err::<Seq<(Seq<char>, u16)>, _>(
            CodecError::TruncatedTable,
        ),
        input.len() == 0 || (input.len() == 1 && input[0] % 4 == 2) || (input.len() < 4
            && input[0] % 8 == 4) || (input.len() < 9 && input[0] % 8 == 0) ==> integer_of(input)
            == Err::<(u64, Seq<u8>), _>(CodecError::TruncatedTable),
{
    reveal(integer_of);
}

} // verus!
