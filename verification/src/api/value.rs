//! Fixed-size protocol string values.

use crate::bytes;
use crate::text;
use core::str::Utf8Error;
use vstd::prelude::*;
use vstd::slice::*;
use vstd::string::*;
use vstd::utf8::*;

verus! {

#[derive(Clone, Copy, Debug, PartialEq, Eq)]
pub struct FixedString<const N: usize> {
    bytes: [u8; N],
}

impl<const N: usize> View for FixedString<N> {
    type V = Seq<u8>;

    closed spec fn view(&self) -> Seq<u8> {
        self.bytes@
    }
}

/// The bytes that count: those in front of the first nul, or all of them.
pub open spec fn content(field: Seq<u8>) -> Seq<u8> {
    match field.index_of_first(0u8) {
        Some(nul) => field.take(nul),
        None => field,
    }
}

/// The field of `size` bytes that holds `written`: as many of its bytes as
/// leave room for a nul, and nuls behind them.
pub open spec fn field_of(written: Seq<u8>, size: nat) -> Seq<u8> {
    Seq::new(
        size,
        |i: int|
            if i < written.len() && i < size - 1 {
                written[i]
            } else {
                0u8
            },
    )
}

impl<const N: usize> FixedString<N> {
    /// The field of nuls.
    pub fn empty() -> (value: Self)
        ensures
            value@ == Seq::new(N as nat, |i: int| 0u8),
    {
        let bytes: [u8; N] = [0; N];
        assert(bytes@ =~= Seq::new(N as nat, |i: int| 0u8));
        FixedString { bytes }
    }

    /// The field with exactly these bytes.
    pub fn from_bytes(bytes: [u8; N]) -> (value: Self)
        ensures
            value@ == bytes@,
    {
        FixedString { bytes }
    }

    /// The field that holds `value`, cut to leave room for a nul.
    pub fn from_str(value: &str) -> (field: Self)
        ensures
            field@ == field_of(encode_utf8(value@), N as nat),
    {
        let source = value.as_bytes();
        let mut bytes: [u8; N] = [0; N];
        let mut i: usize = 0;
        while i < N
            invariant
                i <= N,
                source@ == encode_utf8(value@),
                forall|j: int|
                    0 <= j < i ==> bytes@[j] == field_of(source@, N as nat)[j],
                forall|j: int| i <= j < N ==> bytes@[j] == 0,
            decreases N - i,
        {
            if i < source.len() && i < N - 1 {
                bytes[i] = source[i];
            }
            i = i + 1;
        }
        assert(bytes@ =~= field_of(source@, N as nat));
        FixedString { bytes }
    }

    pub fn as_bytes(&self) -> (bytes: &[u8])
        ensures
            bytes@ == self@,
    {
        self.bytes.as_slice()
    }

    /// The part of the field that counts.
    fn lead(&self) -> (lead: &[u8])
        ensures
            lead@ == content(self@),
    {
        let whole = self.bytes.as_slice();
        match bytes::nul_position(whole) {
            Some(end) => {
                let lead = slice_subrange(whole, 0, end);
                assert(lead@ =~= content(self@));
                lead
            },
            None => whole,
        }
    }

    /// The text of the field.
    pub fn as_str(&self) -> (value: Result<&str, Utf8Error>)
        ensures
            value is Ok <==> text::decoded_text(content(self@)) is Some,
            value matches Ok(found) ==> Some(found@) == text::decoded_text(content(self@)),
    {
        let decoded = core::str::from_utf8(self.lead());
        proof {
            if decoded is Ok {
                encode_utf8_decode_utf8(decoded->Ok_0@);
            }
        }
        decoded
    }

    /// The text of the field, with stand-ins for what is not valid UTF-8.
    pub fn into_string(self) -> (value: String)
        ensures
            value@ == text::lossy_text(content(self@)),
            text::decoded_text(content(self@)) matches Some(found) ==> value@ == found,
    {
        text::from_utf8_lossy(self.lead())
    }
}

impl<const N: usize> Default for FixedString<N> {
    fn default() -> (value: Self)
        ensures
            value@ == Seq::new(N as nat, |i: int| 0u8),
    {
        Self::empty()
    }
}

/// A text that fits, and holds no nul, reads back as it was written.
pub proof fn law_fixed_string_round_trip(value: Seq<char>, size: nat)
    requires
        encode_utf8(value).len() < size,
        !encode_utf8(value).contains(0u8),
    ensures
        content(field_of(encode_utf8(value), size)) == encode_utf8(value),
        text::decoded_text(content(field_of(encode_utf8(value), size))) == Some(value),
{
    let written = encode_utf8(value);
    let field = field_of(written, size);
    field.index_of_first_ensures(0u8);
    assert(field[written.len() as int] == 0);
    assert(field.contains(0u8));
    let nul = field.index_of_first(0u8)->Some_0;
    if nul < written.len() {
        assert(written[nul] == 0);
        assert(written.contains(0u8));
    }
    assert(field.take(nul) =~= written);
    encode_utf8_valid_utf8(value);
    encode_utf8_decode_utf8(value);
}

/// A field that was written from a text always ends in a nul.
pub proof fn law_fixed_string_is_terminated(written: Seq<u8>, size: nat)
    requires
        0 < size,
    ensures
        field_of(written, size)[size - 1] == 0,
        content(field_of(written, size)).len() < size,
{
    let field = field_of(written, size);
    field.index_of_first_ensures(0u8);
    assert(field[size - 1] == 0);
    assert(field.contains(0u8));
}

/// A field holds the text byte by byte as far as it fits, and nuls behind it; the
/// last byte is always a nul.
pub proof fn law_fixed_string_bytes<const N: usize>(value: &str, field: FixedString<N>)
    requires
        call_ensures(FixedString::<N>::from_str, (value,), field),
    ensures
        field@.len() == N,
        forall|i: int|
            0 <= i < N - 1 && i < encode_utf8(value@).len() ==> #[trigger] field@[i]
                == encode_utf8(value@)[i],
        forall|i: int|
            0 <= i < N && (i == N - 1 || i >= encode_utf8(value@).len()) ==> #[trigger] field@[i]
                == 0,
{
}

/// A text that fits and holds no nul is read back from its field, as text and as
/// a string.
pub proof fn law_fixed_string_reads_back<const N: usize>(
    value: &str,
    field: FixedString<N>,
    text: Result<&str, Utf8Error>,
    owned: String,
)
    requires
        encode_utf8(value@).len() < N,
        !encode_utf8(value@).contains(0u8),
        call_ensures(FixedString::<N>::from_str, (value,), field),
        call_ensures(FixedString::<N>::as_str, (&field,), text),
        call_ensures(FixedString::<N>::into_string, (field,), owned),
    ensures
        text is Ok,
        text->Ok_0@ == value@,
        owned@ == value@,
{
    law_fixed_string_round_trip(value@, N as nat);
}

/// What counts of a field is what lies in front of its first nul, and all of it
/// where it has none.
pub proof fn law_content(field: Seq<u8>, end: int)
    requires
        0 <= end <= field.len(),
        forall|i: int| 0 <= i < end ==> #[trigger] field[i] != 0,
        end < field.len() ==> field[end] == 0,
    ensures
        content(field) == field.take(end),
{
    field.index_of_first_ensures(0u8);
    if end < field.len() {
        assert(field.contains(0u8));
        let nul = field.index_of_first(0u8)->Some_0;
        if nul < end {
            assert(field[nul] != 0);
        }
        assert(nul == end);
    } else {
        if field.contains(0u8) {
            let i = choose|i: int| 0 <= i < field.len() && field[i] == 0;
            assert(field[i] != 0);
        }
        assert(field.take(end) =~= field);
    }
}

/// A field gives back the bytes it was made of, and an empty one is all nuls.
pub proof fn law_field_bytes<const N: usize>(
    bytes: [u8; N],
    field: FixedString<N>,
    shown: &[u8],
    blank: FixedString<N>,
)
    requires
        call_ensures(FixedString::<N>::from_bytes, (bytes,), field),
        call_ensures(FixedString::<N>::as_bytes, (&field,), shown),
        call_ensures(FixedString::<N>::empty, (), blank),
    ensures
        shown@ == bytes@,
        blank@.len() == N,
        forall|i: int| 0 <= i < N ==> #[trigger] blank@[i] == 0,
{
}

} // verus!
