//! What a published segment holds, byte by byte, and that the reader gives back
//! what was laid out.

use crate::bytes;
use crate::list;
use crate::stats::client;
use crate::stats::directory;
use crate::stats::error;
use crate::stats::error::{Error, ErrorView};
use crate::stats::looks::SegmentMapping;
use crate::stats::protocol;
use crate::stats::protocol::{
    Counter, DirectoryEntry, DirectoryType, MetricValue, MetricView, ProtocolError,
    ProtocolErrorView, PublishedVector, SharedHeader, VectorView,
};
use crate::text;
use vstd::prelude::*;
use vstd::utf8::*;

verus! {

/// Whether the words of `values` lie side by side from `at` on.
pub open spec fn words_at(mapping: Seq<u8>, at: int, values: Seq<u64>) -> bool {
    forall|i: int|
        0 <= i < values.len() ==> bytes::lies_at(
            mapping,
            at + 8 * i,
            bytes::word(#[trigger] values[i] as int),
        )
}

/// Whether the cells of a combined row lie side by side from `at` on, the
/// packets of each in front of its bytes.
pub open spec fn cells_at(mapping: Seq<u8>, at: int, cells: Seq<Counter>) -> bool {
    forall|i: int|
        0 <= i < cells.len() ==> {
            &&& bytes::lies_at(
                mapping,
                at + 16 * i,
                bytes::word(#[trigger] cells[i].packets as int),
            )
            &&& bytes::lies_at(mapping, at + 16 * i + 8, bytes::word(cells[i].bytes as int))
        }
}

/// Whether a segment that publishes its base as `base` has a vector of `length`
/// elements of `size` bytes at `pointer`: its length lies eight bytes in front.
pub open spec fn vector_at(
    mapping: Seq<u8>,
    base: usize,
    pointer: usize,
    length: nat,
    size: nat,
) -> bool {
    &&& length <= u32::MAX
    &&& base + 8 <= pointer
    &&& pointer - base + length * size <= mapping.len()
    &&& bytes::lies_at(mapping, pointer - base - 8, bytes::half(length as int))
}

/// Whether a segment has a vector of pointers at `pointer`.
pub open spec fn pointers_at(
    mapping: Seq<u8>,
    base: usize,
    pointer: usize,
    pointers: Seq<usize>,
) -> bool {
    &&& vector_at(mapping, base, pointer, pointers.len(), 8)
    &&& forall|i: int|
        0 <= i < pointers.len() ==> bytes::lies_at(
            mapping,
            pointer - base + 8 * i,
            bytes::word(#[trigger] pointers[i] as int),
        )
}

/// Whether a segment has the row at `pointer`; an empty row may be a null pointer.
pub open spec fn simple_row_at(
    mapping: Seq<u8>,
    base: usize,
    pointer: usize,
    row: Seq<u64>,
) -> bool {
    if pointer == 0 {
        row.len() == 0
    } else {
        &&& vector_at(mapping, base, pointer, row.len(), 8)
        &&& words_at(mapping, pointer - base, row)
    }
}

/// Whether a segment has the combined row at `pointer`; an empty row may be a
/// null pointer.
pub open spec fn combined_row_at(
    mapping: Seq<u8>,
    base: usize,
    pointer: usize,
    row: Seq<Counter>,
) -> bool {
    if pointer == 0 {
        row.len() == 0
    } else {
        &&& vector_at(mapping, base, pointer, row.len(), 16)
        &&& cells_at(mapping, pointer - base, row)
    }
}

/// Whether a segment has the text at `pointer`, with a nul behind it.
pub open spec fn text_at(mapping: Seq<u8>, base: usize, pointer: usize, name: Seq<char>) -> bool {
    &&& base <= pointer
    &&& !encode_utf8(name).contains(0u8)
    &&& bytes::lies_at(mapping, pointer - base, encode_utf8(name).push(0u8))
}

/// What one directory slot holds: the number of its type, its cell, and its name.
pub struct Slot {
    pub code: u32,
    pub data: u64,
    pub name: Seq<char>,
}

/// Whether a name can be published: it holds no nul, and leaves two bytes of the
/// name field for nuls.
pub open spec fn publishable(name: Seq<char>) -> bool {
    &&& encode_utf8(name).len() <= 126
    &&& !encode_utf8(name).contains(0u8)
}

/// Whether the slot lies at `at`: the number in four bytes, the cell eight bytes
/// behind it, and then a field of 128 bytes that begins with the name and is
/// filled with nuls.
pub open spec fn slot_at(mapping: Seq<u8>, at: int, slot: Slot) -> bool {
    &&& publishable(slot.name)
    &&& at + 144 <= mapping.len()
    &&& bytes::lies_at(mapping, at, bytes::half(slot.code as int))
    &&& bytes::lies_at(mapping, at + 8, bytes::word(slot.data as int))
    &&& bytes::lies_at(mapping, at + 16, encode_utf8(slot.name))
    &&& forall|i: int|
        at + 16 + encode_utf8(slot.name).len() <= i < at + 144 ==> #[trigger] mapping[i] == 0
}

/// Whether a segment has the directory at `pointer`.
pub open spec fn directory_at(
    mapping: Seq<u8>,
    base: usize,
    pointer: usize,
    slots: Seq<Slot>,
) -> bool {
    &&& vector_at(mapping, base, pointer, slots.len(), 144)
    &&& forall|i: int|
        0 <= i < slots.len() ==> slot_at(mapping, pointer - base + 144 * i, #[trigger] slots[i])
}

/// A vector that was laid out resolves to its length and its place.
pub proof fn law_vector_reads_back(
    mapping: Seq<u8>,
    base: usize,
    pointer: usize,
    length: nat,
    size: nat,
)
    requires
        vector_at(mapping, base, pointer, length, size),
    ensures
        protocol::resolved(mapping, base, pointer, size) matches Ok(vector) && vector.length
            == length && vector.data_offset == pointer - base && vector.element_size == size,
{
    assert(0 <= length * size) by (nonlinear_arith);
    bytes::law_half_reads_back(mapping, pointer - base - 8, length as u32);
}

/// Every word of a vector of words is read back, whatever its value.
pub proof fn law_word_element_reads_back(
    vector: VectorView,
    mapping: Seq<u8>,
    index: int,
    value: u64,
)
    requires
        vector.element_size == 8,
        0 <= index < vector.length,
        bytes::lies_at(mapping, vector.data_offset + 8 * index, bytes::word(value as int)),
    ensures
        protocol::u64_of(vector, mapping, index) == Ok::<_, ProtocolErrorView>(value),
        value <= usize::MAX ==> protocol::pointer_of(vector, mapping, index) == Ok::<
            _,
            ProtocolErrorView,
        >(value as usize),
{
    let start = vector.data_offset + 8 * index;
    assert(index * vector.element_size == 8 * index) by (nonlinear_arith)
        requires
            vector.element_size == 8,
    ;
    bytes::lemma_widths(value as int);
    bytes::lemma_lies_in_part(mapping, start, start + 8, start, bytes::word(value as int));
    bytes::law_word_reads_back(mapping.subrange(start, start + 8), 0, value);
}

/// Every cell of a combined row is read back, packets and bytes each in their
/// own field, whatever their values.
pub proof fn law_cell_reads_back(vector: VectorView, mapping: Seq<u8>, index: int, cell: Counter)
    requires
        vector.element_size == 16,
        0 <= index < vector.length,
        bytes::lies_at(mapping, vector.data_offset + 16 * index, bytes::word(cell.packets as int)),
        bytes::lies_at(
            mapping,
            vector.data_offset + 16 * index + 8,
            bytes::word(cell.bytes as int),
        ),
    ensures
        directory::counter_of(vector, mapping, index) == Ok::<_, ProtocolErrorView>(cell),
{
    let start = vector.data_offset + 16 * index;
    let element = mapping.subrange(start, start + 16);
    assert(index * vector.element_size == 16 * index) by (nonlinear_arith)
        requires
            vector.element_size == 16,
    ;
    bytes::lemma_widths(cell.packets as int);
    bytes::lemma_widths(cell.bytes as int);
    let packets = bytes::word(cell.packets as int);
    let octets = bytes::word(cell.bytes as int);
    bytes::lemma_lies_in_part(mapping, start, start + 16, start, packets);
    bytes::lemma_lies_in_part(mapping, start, start + 16, start + 8, octets);
    bytes::law_word_reads_back(element, 0, cell.packets);
    bytes::law_word_reads_back(element, 8, cell.bytes);
}

/// A row of any `u64` values that was laid out is read back as exactly those
/// values.
pub proof fn law_simple_row_reads_back(
    mapping: Seq<u8>,
    base: usize,
    outer: VectorView,
    index: int,
    pointer: usize,
    row: Seq<u64>,
)
    requires
        outer.element_size == 8,
        0 <= index < outer.length,
        bytes::lies_at(mapping, outer.data_offset + 8 * index, bytes::word(pointer as int)),
        simple_row_at(mapping, base, pointer, row),
    ensures
        directory::simple_row(mapping, base, outer, index) == Ok::<_, ProtocolErrorView>(row),
{
    law_word_element_reads_back(outer, mapping, index, pointer as u64);
    if pointer == 0 {
        assert(row =~= Seq::empty());
    } else {
        law_vector_reads_back(mapping, base, pointer, row.len(), 8);
        let inner = protocol::resolved(mapping, base, pointer, 8)->Ok_0;
        let item = |i: int| protocol::u64_of(inner, mapping, i);
        assert forall|i: int| 0 <= i < row.len() implies #[trigger] item(i) == Ok::<
            _,
            ProtocolErrorView,
        >(row[i]) by {
            law_word_element_reads_back(inner, mapping, i, row[i]);
        }
        list::lemma_collected_is(row.len(), item, row);
    }
}

/// A row of any counters that was laid out is read back as exactly those
/// counters.
pub proof fn law_combined_row_reads_back(
    mapping: Seq<u8>,
    base: usize,
    outer: VectorView,
    index: int,
    pointer: usize,
    row: Seq<Counter>,
)
    requires
        outer.element_size == 8,
        0 <= index < outer.length,
        bytes::lies_at(mapping, outer.data_offset + 8 * index, bytes::word(pointer as int)),
        combined_row_at(mapping, base, pointer, row),
    ensures
        directory::combined_row(mapping, base, outer, index) == Ok::<_, ProtocolErrorView>(row),
{
    law_word_element_reads_back(outer, mapping, index, pointer as u64);
    if pointer == 0 {
        assert(row =~= Seq::empty());
    } else {
        law_vector_reads_back(mapping, base, pointer, row.len(), 16);
        let inner = protocol::resolved(mapping, base, pointer, 16)->Ok_0;
        let item = |i: int| directory::counter_of(inner, mapping, i);
        assert forall|i: int| 0 <= i < row.len() implies #[trigger] item(i) == Ok::<
            _,
            ProtocolErrorView,
        >(row[i]) by {
            assert(row[i].packets == row[i].packets);
            law_cell_reads_back(inner, mapping, i, row[i]);
        }
        list::lemma_collected_is(row.len(), item, row);
    }
}

/// A text that was laid out is read back as it was, up to its nul.
pub proof fn law_text_reads_back(
    mapping: Seq<u8>,
    base: usize,
    outer: VectorView,
    index: int,
    pointer: usize,
    name: Seq<char>,
)
    requires
        outer.element_size == 8,
        0 <= index < outer.length,
        bytes::lies_at(mapping, outer.data_offset + 8 * index, bytes::word(pointer as int)),
        text_at(mapping, base, pointer, name),
    ensures
        directory::published_text(mapping, base, outer, index) == Ok::<_, ProtocolErrorView>(name),
{
    law_word_element_reads_back(outer, mapping, index, pointer as u64);
    let written = encode_utf8(name);
    let part = written.push(0u8);
    let rest = mapping.skip(pointer - base);
    assert forall|i: int| 0 <= i < part.len() implies rest[i] == #[trigger] part[i] by {
        assert(mapping[pointer - base + i] == part[i]);
    }
    rest.index_of_first_ensures(0u8);
    assert(rest[written.len() as int] == part[written.len() as int]);
    assert(rest.contains(0u8));
    let end = rest.index_of_first(0u8)->Some_0;
    if end < written.len() {
        assert(rest[end] == part[end]);
        assert(written[end] == 0);
        assert(written.contains(0u8));
    }
    assert(rest.take(end) =~= written) by {
        assert forall|i: int| 0 <= i < end implies rest[i] == written[i] by {
            assert(rest[i] == part[i]);
        }
    }
    encode_utf8_valid_utf8(name);
    encode_utf8_decode_utf8(name);
}

/// Whether a segment lays the value out behind the slot: the type of the slot
/// tells the kind of the value, and its cell holds it or points at it.
pub open spec fn value_at(mapping: Seq<u8>, base: usize, slot: Slot, value: MetricView) -> bool {
    let pointer = slot.data as usize;
    match value {
        MetricView::Scalar(cell) => slot.code == 1 && slot.data == cell,
        MetricView::Gauge(cell) => slot.code == 9 && slot.data == cell,
        MetricView::Simple(rows) => {
            &&& slot.code == 2
            &&& slot.data <= usize::MAX
            &&& exists|pointers: Seq<usize>| #[trigger]
                pointers_at(mapping, base, pointer, pointers) && pointers.len() == rows.len()
                    && forall|i: int|
                    0 <= i < rows.len() ==> simple_row_at(
                        mapping,
                        base,
                        #[trigger] pointers[i],
                        rows[i],
                    )
        },
        MetricView::Combined(rows) => {
            &&& slot.code == 3
            &&& slot.data <= usize::MAX
            &&& exists|pointers: Seq<usize>| #[trigger]
                pointers_at(mapping, base, pointer, pointers) && pointers.len() == rows.len()
                    && forall|i: int|
                    0 <= i < rows.len() ==> combined_row_at(
                        mapping,
                        base,
                        #[trigger] pointers[i],
                        rows[i],
                    )
        },
        MetricView::Names(names) => {
            &&& slot.code == 4
            &&& slot.data <= usize::MAX
            &&& exists|pointers: Seq<usize>| #[trigger]
                pointers_at(mapping, base, pointer, pointers) && pointers.len() == names.len()
                    && forall|i: int|
                    0 <= i < names.len() ==> text_at(
                        mapping,
                        base,
                        #[trigger] pointers[i],
                        names[i],
                    )
        },
        _ => false,
    }
}

/// A slot that was laid out is read back: its type, its cell, and its name.
pub proof fn law_slot_reads_back(directory: VectorView, mapping: Seq<u8>, index: int, slot: Slot)
    requires
        directory.element_size == 144,
        0 <= index < directory.length,
        slot_at(mapping, directory.data_offset + 144 * index, slot),
    ensures
        directory::entry_at(directory, mapping, index) matches Ok(entry) && entry.directory_type
            == slot.code && entry.data == slot.data,
        directory::name_at(directory, mapping, index) == Ok::<_, ProtocolErrorView>(slot.name),
{
    let at = directory.data_offset + 144 * index;
    assert(index * directory.element_size == 144 * index) by (nonlinear_arith)
        requires
            directory.element_size == 144,
    ;
    let held = mapping.subrange(at, at + 144);
    bytes::lemma_widths(slot.code as int);
    bytes::lemma_widths(slot.data as int);
    bytes::lemma_lies_in_part(mapping, at, at + 144, at, bytes::half(slot.code as int));
    bytes::lemma_lies_in_part(mapping, at, at + 144, at + 8, bytes::word(slot.data as int));
    bytes::law_half_reads_back(held, 0, slot.code);
    bytes::law_word_reads_back(held, 8, slot.data);
    let written = encode_utf8(slot.name);
    let field = held.subrange(16, 144);
    assert forall|i: int| 0 <= i < 128 implies field[i] == #[trigger] protocol::name_field(
        slot.name,
    )[i] by {
        assert(field[i] == mapping[at + 16 + i]);
        if i < written.len() {
            assert(mapping[at + 16 + i] == written[i]);
        }
    }
    assert(field =~= protocol::name_field(slot.name));
    protocol::law_entry_name_round_trip(slot.name);
}

/// The bytes of a slot that was laid out make an entry with its type, its cell and
/// its name.
pub proof fn law_entry_reads_back(
    held: &[u8],
    slot: Slot,
    entry: DirectoryEntry,
    kind: Result<DirectoryType, ProtocolError>,
    name: Result<&str, ProtocolError>,
)
    requires
        held@.len() == 144,
        slot_at(held@, 0, slot),
        call_ensures(DirectoryEntry::read, (held,), entry),
        call_ensures(DirectoryEntry::directory_type, (&entry,), kind),
        call_ensures(DirectoryEntry::name, (&entry,), name),
    ensures
        entry@.directory_type == slot.code,
        entry@.data == slot.data,
        kind == protocol::type_of_code(slot.code),
        name is Ok,
        name->Ok_0@ == slot.name,
{
    let single = VectorView { data_offset: 0, length: 1, alignment: 8, element_size: 144 };
    assert(held@.subrange(0, 144) =~= held@);
    law_slot_reads_back(single, held@, 0, slot);
}

proof fn lemma_simple_rows(
    mapping: Seq<u8>,
    base: usize,
    pointer: usize,
    pointers: Seq<usize>,
    rows: Seq<Seq<u64>>,
    outer: VectorView,
)
    requires
        pointers_at(mapping, base, pointer, pointers),
        pointers.len() == rows.len(),
        forall|i: int|
            0 <= i < rows.len() ==> simple_row_at(mapping, base, #[trigger] pointers[i], rows[i]),
        protocol::resolved(mapping, base, pointer, 8) == Ok::<_, ProtocolErrorView>(outer),
    ensures
        list::collected(
            outer.length,
            |i: int| directory::simple_row(mapping, base, outer, i),
        ) == Ok::<_, ProtocolErrorView>(rows),
{
    law_vector_reads_back(mapping, base, pointer, pointers.len(), 8);
    let item = |i: int| directory::simple_row(mapping, base, outer, i);
    assert forall|i: int| 0 <= i < rows.len() implies #[trigger] item(i) == Ok::<
        _,
        ProtocolErrorView,
    >(rows[i]) by {
        law_simple_row_reads_back(mapping, base, outer, i, pointers[i], rows[i]);
    }
    list::lemma_collected_is(rows.len(), item, rows);
}

proof fn lemma_combined_rows(
    mapping: Seq<u8>,
    base: usize,
    pointer: usize,
    pointers: Seq<usize>,
    rows: Seq<Seq<Counter>>,
    outer: VectorView,
)
    requires
        pointers_at(mapping, base, pointer, pointers),
        pointers.len() == rows.len(),
        forall|i: int|
            0 <= i < rows.len() ==> combined_row_at(mapping, base, #[trigger] pointers[i], rows[i]),
        protocol::resolved(mapping, base, pointer, 8) == Ok::<_, ProtocolErrorView>(outer),
    ensures
        list::collected(
            outer.length,
            |i: int| directory::combined_row(mapping, base, outer, i),
        ) == Ok::<_, ProtocolErrorView>(rows),
{
    law_vector_reads_back(mapping, base, pointer, pointers.len(), 8);
    let item = |i: int| directory::combined_row(mapping, base, outer, i);
    assert forall|i: int| 0 <= i < rows.len() implies #[trigger] item(i) == Ok::<
        _,
        ProtocolErrorView,
    >(rows[i]) by {
        law_combined_row_reads_back(mapping, base, outer, i, pointers[i], rows[i]);
    }
    list::lemma_collected_is(rows.len(), item, rows);
}

proof fn lemma_texts(
    mapping: Seq<u8>,
    base: usize,
    pointer: usize,
    pointers: Seq<usize>,
    names: Seq<Seq<char>>,
    outer: VectorView,
)
    requires
        pointers_at(mapping, base, pointer, pointers),
        pointers.len() == names.len(),
        forall|i: int|
            0 <= i < names.len() ==> text_at(mapping, base, #[trigger] pointers[i], names[i]),
        protocol::resolved(mapping, base, pointer, 8) == Ok::<_, ProtocolErrorView>(outer),
    ensures
        list::collected(
            outer.length,
            |i: int| directory::published_text(mapping, base, outer, i),
        ) == Ok::<_, ProtocolErrorView>(names),
{
    law_vector_reads_back(mapping, base, pointer, pointers.len(), 8);
    let item = |i: int| directory::published_text(mapping, base, outer, i);
    assert forall|i: int| 0 <= i < names.len() implies #[trigger] item(i) == Ok::<
        _,
        ProtocolErrorView,
    >(names[i]) by {
        law_text_reads_back(mapping, base, outer, i, pointers[i], names[i]);
    }
    list::lemma_collected_is(names.len(), item, names);
}

/// A value that was laid out is read back as it was: a cell, rows of counters of
/// either kind, or names.
pub proof fn law_value_reads_back(
    mapping: Seq<u8>,
    base: usize,
    directory: VectorView,
    index: int,
    slot: Slot,
    value: MetricView,
    name: Seq<char>,
    depth: int,
)
    requires
        0 <= depth < 16,
        directory.element_size == 144,
        0 <= index < directory.length,
        slot_at(mapping, directory.data_offset + 144 * index, slot),
        value_at(mapping, base, slot, value),
    ensures
        directory::entry_value(mapping, base, directory, index, name, depth) == Ok::<
            _,
            ErrorView,
        >(value),
{
    law_slot_reads_back(directory, mapping, index, slot);
    let entry = directory::entry_at(directory, mapping, index)->Ok_0;
    let pointer = slot.data as usize;
    match value {
        MetricView::Simple(rows) => {
            let pointers = choose|pointers: Seq<usize>| #[trigger]
                pointers_at(mapping, base, pointer, pointers) && pointers.len() == rows.len()
                    && forall|i: int|
                    0 <= i < rows.len() ==> simple_row_at(
                        mapping,
                        base,
                        #[trigger] pointers[i],
                        rows[i],
                    );
            law_vector_reads_back(mapping, base, pointer, pointers.len(), 8);
            let outer = protocol::resolved(mapping, base, pointer, 8)->Ok_0;
            lemma_simple_rows(mapping, base, pointer, pointers, rows, outer);
            assert(directory::counter_vector(mapping, base, entry) == Ok::<_, ProtocolErrorView>(
                outer,
            ));
            let row = |outer: VectorView, i: int| directory::simple_row(mapping, base, outer, i);
            assert((|i: int| row(outer, i)) =~= (|i: int|
                directory::simple_row(mapping, base, outer, i)));
        },
        MetricView::Combined(rows) => {
            let pointers = choose|pointers: Seq<usize>| #[trigger]
                pointers_at(mapping, base, pointer, pointers) && pointers.len() == rows.len()
                    && forall|i: int|
                    0 <= i < rows.len() ==> combined_row_at(
                        mapping,
                        base,
                        #[trigger] pointers[i],
                        rows[i],
                    );
            law_vector_reads_back(mapping, base, pointer, pointers.len(), 8);
            let outer = protocol::resolved(mapping, base, pointer, 8)->Ok_0;
            lemma_combined_rows(mapping, base, pointer, pointers, rows, outer);
            assert(directory::counter_vector(mapping, base, entry) == Ok::<_, ProtocolErrorView>(
                outer,
            ));
            let row = |outer: VectorView, i: int| directory::combined_row(mapping, base, outer, i);
            assert((|i: int| row(outer, i)) =~= (|i: int|
                directory::combined_row(mapping, base, outer, i)));
        },
        MetricView::Names(names) => {
            let pointers = choose|pointers: Seq<usize>| #[trigger]
                pointers_at(mapping, base, pointer, pointers) && pointers.len() == names.len()
                    && forall|i: int|
                    0 <= i < names.len() ==> text_at(
                        mapping,
                        base,
                        #[trigger] pointers[i],
                        names[i],
                    );
            law_vector_reads_back(mapping, base, pointer, pointers.len(), 8);
            let outer = protocol::resolved(mapping, base, pointer, 8)->Ok_0;
            lemma_texts(mapping, base, pointer, pointers, names, outer);
            assert(directory::text_vector(mapping, base, entry) == Ok::<_, ProtocolErrorView>(
                outer,
            ));
            let row = |outer: VectorView, i: int|
                directory::published_text(mapping, base, outer, i);
            assert((|i: int| row(outer, i)) =~= (|i: int|
                directory::published_text(mapping, base, outer, i)));
        },
        _ => {},
    }
}

/// Whether `kept` is column `column` of `value`: a value with rows keeps one cell
/// of every row, and a value without rows is kept whole.
pub open spec fn is_column(value: MetricView, column: int, kept: MetricView) -> bool {
    match (value, kept) {
        (MetricView::Simple(rows), MetricView::Simple(cells)) => one_column(rows, column, cells),
        (MetricView::Combined(rows), MetricView::Combined(cells)) => one_column(
            rows,
            column,
            cells,
        ),
        (MetricView::Histogram(rows), MetricView::Histogram(cells)) => one_column(
            rows,
            column,
            cells,
        ),
        (MetricView::Scalar(cell), MetricView::Scalar(same)) => cell == same,
        (MetricView::Gauge(cell), MetricView::Gauge(same)) => cell == same,
        (MetricView::Names(names), MetricView::Names(same)) => names == same,
        (MetricView::Ring(rows), MetricView::Ring(same)) => rows == same,
        _ => false,
    }
}

/// Whether every row of `cells` is the one cell of its row in column `column`.
pub open spec fn one_column<T>(rows: Seq<Seq<T>>, column: int, cells: Seq<Seq<T>>) -> bool {
    &&& cells.len() == rows.len()
    &&& forall|i: int|
        0 <= i < rows.len() ==> 0 <= column < rows[i].len() && (#[trigger] cells[i]).len() == 1
            && cells[i][0] == rows[i][column]
}

proof fn lemma_one_column<T>(rows: Seq<Seq<T>>, column: int, cells: Seq<Seq<T>>)
    requires
        0 <= column,
    ensures
        one_column(rows, column, cells) <==> protocol::cropped(rows, column) == Ok::<
            _,
            ProtocolErrorView,
        >(cells),
{
    protocol::law_cropped_rows(rows, column);
    if one_column(rows, column, cells) {
        assert forall|i: int| 0 <= i < rows.len() implies column < (#[trigger] rows[i]).len() by {
            assert(cells[i].len() == 1);
        }
        let kept = protocol::cropped(rows, column)->Ok_0;
        assert forall|i: int| 0 <= i < rows.len() implies kept[i] == #[trigger] cells[i] by {
            assert(kept[i] == seq![rows[i][column]]);
            assert(kept[i] =~= cells[i]);
        }
        assert(kept =~= cells);
    } else if protocol::cropped(rows, column) == Ok::<_, ProtocolErrorView>(cells) {
        assert forall|i: int| 0 <= i < rows.len() implies 0 <= column < rows[i].len() && (
        #[trigger] cells[i]).len() == 1 && cells[i][0] == rows[i][column] by {
            assert(cells[i] == seq![rows[i][column]]);
        }
    }
}

/// A column of a value holds, of every row, the one cell in that column, and
/// nothing else is a column of it.
pub proof fn law_column(value: &MetricValue, column: usize, result: Result<
    MetricValue,
    ProtocolError,
>)
    requires
        call_ensures(MetricValue::column, (value, column), result),
    ensures
        result matches Ok(kept) ==> is_column(value@, column as int, kept@),
        result is Err ==> !exists|kept: MetricView| is_column(value@, column as int, kept),
{
    match value@ {
        MetricView::Simple(rows) => {
            assert forall|cells: Seq<Seq<u64>>| #[trigger]
                one_column(rows, column as int, cells) == (protocol::cropped(rows, column as int)
                    == Ok::<_, ProtocolErrorView>(cells)) by {
                lemma_one_column(rows, column as int, cells);
            }
        },
        MetricView::Combined(rows) => {
            assert forall|cells: Seq<Seq<Counter>>| #[trigger]
                one_column(rows, column as int, cells) == (protocol::cropped(rows, column as int)
                    == Ok::<_, ProtocolErrorView>(cells)) by {
                lemma_one_column(rows, column as int, cells);
            }
        },
        MetricView::Histogram(rows) => {
            assert forall|cells: Seq<Seq<u64>>| #[trigger]
                one_column(rows, column as int, cells) == (protocol::cropped(rows, column as int)
                    == Ok::<_, ProtocolErrorView>(cells)) by {
                lemma_one_column(rows, column as int, cells);
            }
        },
        _ => {},
    }
}

proof fn lemma_column_of(value: MetricView, column: int, kept: MetricView)
    requires
        0 <= column,
        is_column(value, column, kept),
    ensures
        protocol::column_of(value, column) == Ok::<_, ProtocolErrorView>(kept),
{
    match (value, kept) {
        (MetricView::Simple(rows), MetricView::Simple(cells)) => {
            lemma_one_column(rows, column, cells);
        },
        (MetricView::Combined(rows), MetricView::Combined(cells)) => {
            lemma_one_column(rows, column, cells);
        },
        (MetricView::Histogram(rows), MetricView::Histogram(cells)) => {
            lemma_one_column(rows, column, cells);
        },
        _ => {},
    }
}

/// A symlink, reached through any number of others below the limit, reads as the
/// column of what its target reads as one hop further: its cell is the index of
/// the target, and the column times two to the power of 32.
pub proof fn law_symlink_hop(
    mapping: Seq<u8>,
    base: usize,
    directory: VectorView,
    index: int,
    link: Slot,
    target: u32,
    column: u32,
    name: Seq<char>,
    depth: int,
)
    requires
        0 <= depth < 16,
        directory.element_size == 144,
        0 <= index < directory.length,
        slot_at(mapping, directory.data_offset + 144 * index, link),
        link.code == 6,
        link.data == target + column * 0x1_0000_0000,
    ensures
        directory::entry_value(mapping, base, directory, index, name, depth) == (
        match directory::entry_value(mapping, base, directory, target as int, name, depth + 1) {
            Err(error) => Err(error),
            Ok(value) => error::of_layout(protocol::column_of(value, column as int)),
        }),
{
    law_slot_reads_back(directory, mapping, index, link);
    lemma_link_halves(link.data, target, column);
    let entry = directory::entry_at(directory, mapping, index)->Ok_0;
    lemma_link(mapping, base, directory, index, entry, target, column, name, depth);
}

proof fn lemma_link_halves(data: u64, target: u32, column: u32)
    requires
        data == target + column * 0x1_0000_0000,
    ensures
        data % 0x1_0000_0000 == target,
        data / 0x1_0000_0000 == column,
{
}

proof fn lemma_link(
    mapping: Seq<u8>,
    base: usize,
    directory: VectorView,
    index: int,
    entry: protocol::EntryView,
    target: u32,
    column: u32,
    name: Seq<char>,
    depth: int,
)
    requires
        depth < 16,
        directory::entry_at(directory, mapping, index) == Ok::<_, ProtocolErrorView>(entry),
        entry.directory_type == 6,
        entry.data % 0x1_0000_0000 == target,
        entry.data / 0x1_0000_0000 == column,
    ensures
        directory::entry_value(mapping, base, directory, index, name, depth) == (
        match directory::entry_value(mapping, base, directory, target as int, name, depth + 1) {
            Err(error) => Err(error),
            Ok(value) => error::of_layout(protocol::column_of(value, column as int)),
        }),
{
}

/// A symlink that points at itself is a cycle of sixteen hops, whatever column it
/// names.
pub proof fn law_symlink_cycle(
    mapping: Seq<u8>,
    base: usize,
    directory: VectorView,
    index: u32,
    link: Slot,
    column: u32,
    name: Seq<char>,
    depth: int,
)
    requires
        0 <= depth <= 16,
        directory.element_size == 144,
        index < directory.length,
        slot_at(mapping, directory.data_offset + 144 * index, link),
        link.code == 6,
        link.data == index + column * 0x1_0000_0000,
    ensures
        directory::entry_value(mapping, base, directory, index as int, name, depth) == Err::<
            MetricView,
            _,
        >((ErrorView::SymlinkCycle { name, depth: 16 })),
    decreases 16 - depth,
{
    if depth < 16 {
        law_symlink_cycle(mapping, base, directory, index, link, column, name, depth + 1);
        law_symlink_hop(
            mapping,
            base,
            directory,
            index as int,
            link,
            index,
            column,
            name,
            depth,
        );
    }
}

/// A symlink reads as the column it names of the value it points at: its cell is
/// the index of the target, and the column times two to the power of 32.
pub proof fn law_symlink_reads_back(
    mapping: Seq<u8>,
    base: usize,
    directory: VectorView,
    index: int,
    link: Slot,
    target: u32,
    column: u32,
    slot: Slot,
    value: MetricView,
    kept: MetricView,
    name: Seq<char>,
)
    requires
        directory.element_size == 144,
        0 <= index < directory.length,
        target < directory.length,
        slot_at(mapping, directory.data_offset + 144 * index, link),
        link.code == 6,
        link.data == target + column * 0x1_0000_0000,
        slot_at(mapping, directory.data_offset + 144 * target, slot),
        value_at(mapping, base, slot, value),
        is_column(value, column as int, kept),
    ensures
        directory::entry_value(mapping, base, directory, index, name, 0) == Ok::<_, ErrorView>(
            kept,
        ),
{
    law_symlink_hop(mapping, base, directory, index, link, target, column, name, 0);
    law_value_reads_back(mapping, base, directory, target as int, slot, value, name, 1);
    lemma_column_of(value, column as int, kept);
}

/// A slot whose type has no reader is refused by the name of its type, and one
/// whose number names no type is refused by its number.
pub proof fn law_types_without_a_reader(
    mapping: Seq<u8>,
    base: usize,
    directory: VectorView,
    index: int,
    slot: Slot,
    name: Seq<char>,
    depth: int,
)
    requires
        0 <= depth < 16,
        directory.element_size == 144,
        0 <= index < directory.length,
        slot_at(mapping, directory.data_offset + 144 * index, slot),
    ensures
        ({
            let read = directory::entry_value(mapping, base, directory, index, name, depth);
            &&& slot.code == 0 ==> read == Err::<MetricView, _>(
                (ErrorView::UnsupportedDirectoryType { name, directory_type: "illegal"@ }),
            )
            &&& slot.code == 5 ==> read == Err::<MetricView, _>(
                (ErrorView::UnsupportedDirectoryType { name, directory_type: "empty"@ }),
            )
            &&& slot.code == 7 ==> read == Err::<MetricView, _>(
                (ErrorView::UnsupportedDirectoryType { name, directory_type: "histogram_log2"@ }),
            )
            &&& slot.code == 8 ==> read == Err::<MetricView, _>(
                (ErrorView::UnsupportedDirectoryType { name, directory_type: "ring_buffer"@ }),
            )
            &&& slot.code >= 10 ==> read == Err::<MetricView, _>(
                (ErrorView::Protocol {
                    source: ProtocolErrorView::UnknownDirectoryType { raw: slot.code },
                }),
            )
        }),
{
    law_slot_reads_back(directory, mapping, index, slot);
}

/// A directory that was laid out lists exactly its names, in order.
pub proof fn law_directory_names_read_back(
    mapping: Seq<u8>,
    base: usize,
    pointer: usize,
    slots: Seq<Slot>,
    directory: VectorView,
)
    requires
        directory_at(mapping, base, pointer, slots),
        protocol::resolved(mapping, base, pointer, 144) == Ok::<_, ProtocolErrorView>(directory),
    ensures
        directory::directory_names(directory, mapping) == Ok::<_, ProtocolErrorView>(
            slots.map_values(|slot: Slot| slot.name),
        ),
{
    law_vector_reads_back(mapping, base, pointer, slots.len(), 144);
    let names = slots.map_values(|slot: Slot| slot.name);
    let item = |i: int| directory::name_at(directory, mapping, i);
    assert forall|i: int| 0 <= i < slots.len() implies #[trigger] item(i) == Ok::<
        _,
        ProtocolErrorView,
    >(names[i]) by {
        law_slot_reads_back(directory, mapping, i, slots[i]);
    }
    list::lemma_collected_is(slots.len(), item, names);
}

proof fn lemma_search(
    mapping: Seq<u8>,
    base: usize,
    pointer: usize,
    slots: Seq<Slot>,
    directory: VectorView,
    name: Seq<char>,
    from: int,
)
    requires
        directory_at(mapping, base, pointer, slots),
        protocol::resolved(mapping, base, pointer, 144) == Ok::<_, ProtocolErrorView>(directory),
        0 <= from <= slots.len(),
    ensures
        directory::first_named(directory, mapping, name, from) is Ok,
    decreases slots.len() - from,
{
    law_vector_reads_back(mapping, base, pointer, slots.len(), 144);
    if from < slots.len() {
        law_slot_reads_back(directory, mapping, from, slots[from]);
        lemma_search(mapping, base, pointer, slots, directory, name, from + 1);
    }
}

/// Reading a name gives the value that was laid out behind the first slot with
/// that name, and a name that no slot has is not found.
pub proof fn law_named_value_reads_back(
    mapping: Seq<u8>,
    base: usize,
    pointer: usize,
    slots: Seq<Slot>,
    directory: VectorView,
    name: Seq<char>,
)
    requires
        directory_at(mapping, base, pointer, slots),
        protocol::resolved(mapping, base, pointer, 144) == Ok::<_, ProtocolErrorView>(directory),
    ensures
        forall|k: int, value: MetricView|
            #![trigger value_at(mapping, base, slots[k], value)]
            0 <= k < slots.len() && slots[k].name == name && (forall|j: int|
                0 <= j < k ==> (#[trigger] slots[j]).name != name) && value_at(
                mapping,
                base,
                slots[k],
                value,
            ) ==> directory::named_value(mapping, base, directory, name) == Ok::<_, ErrorView>(
                value,
            ),
        (forall|j: int| 0 <= j < slots.len() ==> (#[trigger] slots[j]).name != name)
            ==> directory::named_value(mapping, base, directory, name) == Err::<MetricView, _>(
            (ErrorView::MetricNotFound { name }),
        ),
{
    law_vector_reads_back(mapping, base, pointer, slots.len(), 144);
    lemma_search(mapping, base, pointer, slots, directory, name, 0);
    directory::law_first_named(directory, mapping, name, 0);
    assert forall|i: int| 0 <= i < slots.len() implies directory::name_at(
        directory,
        mapping,
        i,
    ) == Ok::<_, ProtocolErrorView>((#[trigger] slots[i]).name) by {
        law_slot_reads_back(directory, mapping, i, slots[i]);
    }
    let found = directory::first_named(directory, mapping, name, 0)->Ok_0;
    if found is Some {
        assert(slots[found->Some_0].name == name);
    }
    assert forall|k: int, value: MetricView|
        #![trigger value_at(mapping, base, slots[k], value)]
        0 <= k < slots.len() && slots[k].name == name && (forall|j: int|
            0 <= j < k ==> (#[trigger] slots[j]).name != name) && value_at(
            mapping,
            base,
            slots[k],
            value,
        ) implies directory::named_value(mapping, base, directory, name) == Ok::<_, ErrorView>(
        value,
    ) by {
        assert(directory::name_at(directory, mapping, k) == Ok::<_, ProtocolErrorView>(
            slots[k].name,
        ));
        assert(found is Some);
        let at = found->Some_0;
        if at > k {
            assert(directory::name_at(directory, mapping, k)->Ok_0 != name);
        }
        assert(at == k);
        law_value_reads_back(mapping, base, directory, k, slots[k], value, name, 0);
    }
}

/// Whether a value that was read is the one that was laid out: of the same kind,
/// and cell by cell the same.
pub open spec fn is_shown(laid: MetricView, value: MetricValue) -> bool {
    match (laid, value) {
        (MetricView::Scalar(cell), MetricValue::Scalar(shown)) => shown == cell,
        (MetricView::Gauge(cell), MetricValue::Gauge(shown)) => shown == cell,
        (MetricView::Simple(rows), MetricValue::Simple(shown)) => are_shown(rows, shown@),
        (MetricView::Combined(rows), MetricValue::Combined(shown)) => are_shown(rows, shown@),
        (MetricView::Names(names), MetricValue::Names(shown)) => shown@.len() == names.len()
            && forall|i: int| 0 <= i < names.len() ==> (#[trigger] shown@[i])@ == names[i],
        _ => false,
    }
}

/// Whether rows that were read are those that were laid out.
pub open spec fn are_shown<T>(rows: Seq<Seq<T>>, shown: Seq<Vec<T>>) -> bool {
    shown.len() == rows.len() && forall|i: int|
        0 <= i < rows.len() ==> (#[trigger] shown[i])@ == rows[i]
}

proof fn lemma_is_shown(value: MetricValue)
    requires
        !(value is Histogram),
        !(value is Ring),
    ensures
        is_shown(value@, value),
{
    match value {
        MetricValue::Simple(shown) => {
            assert forall|i: int| 0 <= i < shown@.len() implies (#[trigger] shown@[i])@
                == protocol::rows_view(shown@)[i] by {
            }
        },
        MetricValue::Combined(shown) => {
            assert forall|i: int| 0 <= i < shown@.len() implies (#[trigger] shown@[i])@
                == protocol::rows_view(shown@)[i] by {
            }
        },
        MetricValue::Names(shown) => {
            assert forall|i: int| 0 <= i < shown@.len() implies (#[trigger] shown@[i])@
                == text::texts(shown@)[i] by {
            }
        },
        _ => {},
    }
}

/// The functions that read a directory give back what was laid out: the names in
/// order, and under a name the value behind its first slot.
pub proof fn law_reading_gives_what_was_laid_out(
    mapping: &[u8],
    base: usize,
    pointer: usize,
    slots: Seq<Slot>,
    directory: PublishedVector,
    name: &str,
    names: Result<Vec<String>, Error>,
    value: Result<MetricValue, Error>,
)
    requires
        directory_at(mapping@, base, pointer, slots),
        call_ensures(PublishedVector::resolve, (mapping, base, pointer, 144), Ok(directory)),
        call_ensures(directory::read_names, (&directory, mapping), names),
        call_ensures(directory::read_value, (&directory, mapping, base, name), value),
    ensures
        names matches Ok(found) && text::texts(found@) == slots.map_values(
            |slot: Slot| slot.name,
        ),
        forall|k: int, laid: MetricView|
            #![trigger value_at(mapping@, base, slots[k], laid)]
            0 <= k < slots.len() && slots[k].name == name@ && (forall|j: int|
                0 <= j < k ==> (#[trigger] slots[j]).name != name@) && value_at(
                mapping@,
                base,
                slots[k],
                laid,
            ) ==> value is Ok && value->Ok_0@ == laid && is_shown(laid, value->Ok_0),
{
    law_directory_names_read_back(mapping@, base, pointer, slots, directory@);
    law_named_value_reads_back(mapping@, base, pointer, slots, directory@, name@);
    if value is Ok && !(value->Ok_0 is Histogram) && !(value->Ok_0 is Ring) {
        lemma_is_shown(value->Ok_0);
    }
}

/// A header that was laid out, five words in a row, is read back: the version,
/// the base, the epoch, whether a write is under way, and the directory.
pub proof fn law_header_reads_back(
    mapping: &[u8],
    version: u64,
    base: usize,
    epoch: u64,
    in_progress: u64,
    pointer: usize,
    result: Result<SharedHeader, ProtocolError>,
)
    requires
        bytes::lies_at(mapping@, 0, bytes::word(version as int)),
        bytes::lies_at(mapping@, 8, bytes::word(base as int)),
        bytes::lies_at(mapping@, 16, bytes::word(epoch as int)),
        bytes::lies_at(mapping@, 24, bytes::word(in_progress as int)),
        bytes::lies_at(mapping@, 32, bytes::word(pointer as int)),
        call_ensures(SharedHeader::read, (mapping,), result),
    ensures
        result is Ok,
        ({
            let header = result->Ok_0;
            &&& forall|found: u64|
                call_ensures(SharedHeader::version, (&header,), found) ==> found == version
            &&& forall|found: usize|
                call_ensures(SharedHeader::base, (&header,), found) ==> found == base
            &&& forall|found: u64|
                call_ensures(SharedHeader::epoch, (&header,), found) ==> found == epoch
            &&& forall|found: bool|
                call_ensures(SharedHeader::is_write_in_progress, (&header,), found) ==> found == (
                in_progress > 0)
            &&& forall|found: usize|
                call_ensures(SharedHeader::directory_vector, (&header,), found) ==> found
                    == pointer
            &&& forall|check: Result<(), ProtocolError>|
                call_ensures(SharedHeader::validate_version, (&header,), check) ==> (check is Ok
                    <==> version == 2) && (check matches Err(error) ==> error@ == (
                ProtocolErrorView::VersionMismatch { actual: version, expected: 2 }))
        }),
        protocol::header_of(mapping@) matches Ok(header) && header.version == version
            && header.base == base && header.epoch == epoch && header.in_progress == in_progress
            && header.directory_vector == pointer,
{
    bytes::lemma_widths(pointer as int);
    bytes::law_word_reads_back(mapping@, 0, version);
    bytes::law_word_reads_back(mapping@, 8, base as u64);
    bytes::law_word_reads_back(mapping@, 16, epoch);
    bytes::law_word_reads_back(mapping@, 24, in_progress);
    bytes::law_word_reads_back(mapping@, 32, pointer as u64);
}

/// Whether a segment begins with a header of version 2 that no write disturbs.
pub open spec fn settled_header_at(
    image: Seq<u8>,
    base: usize,
    epoch: u64,
    pointer: usize,
) -> bool {
    &&& bytes::lies_at(image, 0, bytes::word(2))
    &&& bytes::lies_at(image, 8, bytes::word(base as int))
    &&& bytes::lies_at(image, 16, bytes::word(epoch as int))
    &&& bytes::lies_at(image, 24, bytes::word(0))
    &&& bytes::lies_at(image, 32, bytes::word(pointer as int))
}

/// A segment that was laid out and that nobody writes is read back through its
/// mapping: the names of the directory, and the value behind each name.
pub proof fn law_segment_reads_back<M: SegmentMapping>(
    mapping: &M,
    image: Seq<u8>,
    base: usize,
    epoch: u64,
    pointer: usize,
    slots: Seq<Slot>,
    k: int,
    value: MetricView,
)
    requires
        client::unchanging(mapping, image),
        settled_header_at(image, base, epoch, pointer),
        directory_at(image, base, pointer, slots),
        0 <= k < slots.len(),
        forall|j: int| 0 <= j < k ==> (#[trigger] slots[j]).name != slots[k].name,
        value_at(image, base, slots[k], value),
    ensures
        forall|names: Result<Seq<Seq<char>>, ErrorView>| #[trigger]
            client::may_list(mapping, names) ==> names == Ok::<_, ErrorView>(
                slots.map_values(|slot: Slot| slot.name),
            ),
        forall|read: Result<MetricView, ErrorView>| #[trigger]
            client::may_read(mapping, slots[k].name, read) ==> read == Ok::<_, ErrorView>(value),
{
    bytes::lemma_widths(pointer as int);
    bytes::law_word_reads_back(image, 0, 2);
    bytes::law_word_reads_back(image, 8, base as u64);
    bytes::law_word_reads_back(image, 16, epoch);
    bytes::law_word_reads_back(image, 24, 0);
    bytes::law_word_reads_back(image, 32, pointer as u64);
    let header = client::checked_header(image)->Ok_0;
    assert(header.base == base && header.directory_vector == pointer);
    law_vector_reads_back(image, base, pointer, slots.len(), 144);
    let found = protocol::resolved(image, base, pointer, 144)->Ok_0;
    law_directory_names_read_back(image, base, pointer, slots, found);
    law_named_value_reads_back(image, base, pointer, slots, found, slots[k].name);
    client::law_quiet_segment(mapping, image, slots[k].name);
}

/// A mapping too small for a header is refused.
pub proof fn law_short_mapping(mapping: Seq<u8>)
    requires
        mapping.len() < 40,
    ensures
        protocol::header_of(mapping) == Err::<protocol::HeaderView, _>(
            ProtocolErrorView::InvalidMapping,
        ),
{
}

/// A row whose pointer does not resolve fails as its pointer does, and a row that
/// the mapping cuts off fails with the length of the mapping.
pub proof fn law_refused_rows(
    mapping: Seq<u8>,
    base: usize,
    outer: VectorView,
    index: int,
    pointer: usize,
    length: nat,
)
    requires
        outer.element_size == 8,
        0 <= index < outer.length,
        bytes::lies_at(mapping, outer.data_offset + 8 * index, bytes::word(pointer as int)),
        pointer != 0,
    ensures
        pointer < base ==> ({
            let error = ProtocolErrorView::PointerBeforeBase { pointer, base };
            &&& directory::simple_row(mapping, base, outer, index) == Err::<Seq<u64>, _>(error)
            &&& directory::combined_row(mapping, base, outer, index) == Err::<Seq<Counter>, _>(
                error,
            )
        }),
        base <= pointer < base + 8 || base <= pointer && pointer - base > mapping.len() ==> ({
            let error = ProtocolErrorView::VectorOutOfBounds { length: mapping.len() as int };
            &&& directory::simple_row(mapping, base, outer, index) == Err::<Seq<u64>, _>(error)
            &&& directory::combined_row(mapping, base, outer, index) == Err::<Seq<Counter>, _>(
                error,
            )
        }),
        base + 8 <= pointer && pointer - base <= mapping.len() && length <= u32::MAX
            && bytes::lies_at(mapping, pointer - base - 8, bytes::half(length as int)) ==> ({
            let error = ProtocolErrorView::VectorOutOfBounds { length: mapping.len() as int };
            &&& pointer - base + 8 * length > mapping.len() ==> directory::simple_row(
                mapping,
                base,
                outer,
                index,
            ) == Err::<Seq<u64>, _>(error)
            &&& pointer - base + 16 * length > mapping.len() ==> directory::combined_row(
                mapping,
                base,
                outer,
                index,
            ) == Err::<Seq<Counter>, _>(error)
        }),
{
    law_word_element_reads_back(outer, mapping, index, pointer as u64);
    if base + 8 <= pointer && pointer - base <= mapping.len() && length <= u32::MAX
        && bytes::lies_at(mapping, pointer - base - 8, bytes::half(length as int)) {
        bytes::law_half_reads_back(mapping, pointer - base - 8, length as u32);
        let words = protocol::resolved(mapping, base, pointer, 8)->Ok_0;
        let cells = protocol::resolved(mapping, base, pointer, 16)->Ok_0;
        let word = |i: int| protocol::u64_of(words, mapping, i);
        let cell = |i: int| directory::counter_of(cells, mapping, i);
        if pointer - base + 8 * length > mapping.len() {
            let error = ProtocolErrorView::VectorOutOfBounds { length: mapping.len() as int };
            assert forall|i: int| 0 <= i < length && (#[trigger] word(i)) is Err implies word(i)
                == Err::<u64, _>(error) by {
            }
            assert((length - 1) * words.element_size == 8 * (length - 1)) by (nonlinear_arith)
                requires
                    words.element_size == 8,
            ;
            assert(word(length - 1) is Err);
            lemma_only_failure(length, word, error, length - 1);
        }
        if pointer - base + 16 * length > mapping.len() {
            let error = ProtocolErrorView::VectorOutOfBounds { length: mapping.len() as int };
            assert forall|i: int| 0 <= i < length && (#[trigger] cell(i)) is Err implies cell(i)
                == Err::<Counter, _>(error) by {
            }
            assert((length - 1) * cells.element_size == 16 * (length - 1)) by (nonlinear_arith)
                requires
                    cells.element_size == 16,
            ;
            assert(cell(length - 1) is Err);
            lemma_only_failure(length, cell, error, length - 1);
        }
    }
}

/// A pass whose items can fail in one way only, and in which one fails, fails so.
proof fn lemma_only_failure<T, E>(
    count: nat,
    item: spec_fn(int) -> Result<T, E>,
    error: E,
    at: int,
)
    requires
        0 <= at < count,
        item(at) is Err,
        forall|i: int|
            0 <= i < count && (#[trigger] item(i)) is Err ==> item(i) == Err::<T, E>(error),
    ensures
        list::collected(count, item) == Err::<Seq<T>, E>(error),
    decreases count,
{
    if at < count - 1 {
        lemma_only_failure((count - 1) as nat, item, error, at);
    } else if list::collected((count - 1) as nat, item) is Err {
        list::lemma_collected_fails((count - 1) as nat, item);
        let i = choose|i: int| 0 <= i < count - 1 && #[trigger] item(i) is Err;
        lemma_only_failure((count - 1) as nat, item, error, i);
    }
}

/// A text whose pointer lies outside the mapping, one without a nul, and one that
/// is no text are refused, each for its reason.
pub proof fn law_refused_texts(
    mapping: Seq<u8>,
    base: usize,
    outer: VectorView,
    index: int,
    pointer: usize,
    end: int,
)
    requires
        outer.element_size == 8,
        0 <= index < outer.length,
        bytes::lies_at(mapping, outer.data_offset + 8 * index, bytes::word(pointer as int)),
    ensures
        ({
            let read = directory::published_text(mapping, base, outer, index);
            let at = pointer - base;
            &&& pointer < base ==> read == Err::<Seq<char>, _>(
                (ProtocolErrorView::PointerBeforeBase { pointer, base }),
            )
            &&& at > mapping.len() ==> read == Err::<Seq<char>, _>(
                (ProtocolErrorView::VectorOutOfBounds { length: mapping.len() as int }),
            )
            &&& 0 <= at <= mapping.len() && (forall|i: int|
                at <= i < mapping.len() ==> #[trigger] mapping[i] != 0) ==> read == Err::<
                Seq<char>,
                _,
            >(ProtocolErrorView::MissingNameTerminator)
            &&& 0 <= at <= end < mapping.len() && mapping[end] == 0 && (forall|i: int|
                at <= i < end ==> #[trigger] mapping[i] != 0) && !valid_utf8(
                mapping.subrange(at, end),
            ) ==> read == Err::<Seq<char>, _>(ProtocolErrorView::InvalidNameEncoding)
        }),
{
    law_word_element_reads_back(outer, mapping, index, pointer as u64);
    let at = pointer - base;
    if 0 <= at <= mapping.len() {
        let rest = mapping.skip(at);
        rest.index_of_first_ensures(0u8);
        assert forall|i: int| 0 <= i < rest.len() implies #[trigger] rest[i] == mapping[at + i] by {
        }
        if rest.contains(0u8) {
            let nul = rest.index_of_first(0u8)->Some_0;
            assert(mapping[at + nul] == 0);
            if at <= end < mapping.len() && mapping[end] == 0 && (forall|i: int|
                at <= i < end ==> #[trigger] mapping[i] != 0) {
                if nul > end - at {
                    assert(rest[end - at] == 0);
                }
                assert(nul == end - at);
                assert(rest.take(nul) =~= mapping.subrange(at, end));
            }
        } else if at <= end < mapping.len() && mapping[end] == 0 {
            assert(rest[end - at] == 0);
        }
    }
}

/// A counter whose rows can be read up to one that cannot fails as that row does.
pub proof fn law_first_failing_row(
    mapping: Seq<u8>,
    base: usize,
    entry: protocol::EntryView,
    outer: VectorView,
    at: int,
    name: Seq<char>,
)
    requires
        directory::counter_vector(mapping, base, entry) == Ok::<_, ProtocolErrorView>(outer),
        0 <= at < outer.length,
    ensures
        directory::simple_row(mapping, base, outer, at) is Err && (forall|i: int|
            0 <= i < at ==> (#[trigger] directory::simple_row(mapping, base, outer, i)) is Ok)
            ==> directory::plain_value(
            mapping,
            base,
            entry,
            DirectoryType::CounterVectorSimple,
            name,
        ) == Err::<MetricView, _>(
            (ErrorView::Protocol {
                source: directory::simple_row(mapping, base, outer, at)->Err_0,
            }),
        ),
        directory::combined_row(mapping, base, outer, at) is Err && (forall|i: int|
            0 <= i < at ==> (#[trigger] directory::combined_row(mapping, base, outer, i)) is Ok)
            ==> directory::plain_value(
            mapping,
            base,
            entry,
            DirectoryType::CounterVectorCombined,
            name,
        ) == Err::<MetricView, _>(
            (ErrorView::Protocol {
                source: directory::combined_row(mapping, base, outer, at)->Err_0,
            }),
        ),
{
    let simple = |i: int| directory::simple_row(mapping, base, outer, i);
    let combined = |i: int| directory::combined_row(mapping, base, outer, i);
    if directory::simple_row(mapping, base, outer, at) is Err && (forall|i: int|
        0 <= i < at ==> (#[trigger] directory::simple_row(mapping, base, outer, i)) is Ok) {
        list::lemma_collected_first_failure(outer.length, simple, at);
    }
    if directory::combined_row(mapping, base, outer, at) is Err && (forall|i: int|
        0 <= i < at ==> (#[trigger] directory::combined_row(mapping, base, outer, i)) is Ok) {
        list::lemma_collected_first_failure(outer.length, combined, at);
    }
    let row = |outer: VectorView, i: int| directory::simple_row(mapping, base, outer, i);
    assert((|i: int| row(outer, i)) =~= simple);
    let cells = |outer: VectorView, i: int| directory::combined_row(mapping, base, outer, i);
    assert((|i: int| cells(outer, i)) =~= combined);
}

/// A listing fails as the first name that cannot be read does.
pub proof fn law_first_failing_name(directory: VectorView, mapping: Seq<u8>, at: int)
    requires
        0 <= at < directory.length,
        directory::name_at(directory, mapping, at) is Err,
        forall|i: int|
            0 <= i < at ==> (#[trigger] directory::name_at(directory, mapping, i)) is Ok,
    ensures
        directory::directory_names(directory, mapping) == Err::<Seq<Seq<char>>, _>(
            directory::name_at(directory, mapping, at)->Err_0,
        ),
{
    let item = |i: int| directory::name_at(directory, mapping, i);
    list::lemma_collected_first_failure(directory.length, item, at);
}

/// A name that the directory gives to a symlink reads as the column that the link
/// names of the value that was laid out behind its target.
pub proof fn law_named_symlink_reads_back(
    mapping: Seq<u8>,
    base: usize,
    pointer: usize,
    slots: Seq<Slot>,
    directory: VectorView,
    k: int,
    target: u32,
    column: u32,
    value: MetricView,
    kept: MetricView,
)
    requires
        directory_at(mapping, base, pointer, slots),
        protocol::resolved(mapping, base, pointer, 144) == Ok::<_, ProtocolErrorView>(directory),
        0 <= k < slots.len(),
        forall|j: int| 0 <= j < k ==> (#[trigger] slots[j]).name != slots[k].name,
        slots[k].code == 6,
        slots[k].data == target + column * 0x1_0000_0000,
        target < slots.len(),
        value_at(mapping, base, slots[target as int], value),
        is_column(value, column as int, kept),
    ensures
        directory::named_value(mapping, base, directory, slots[k].name) == Ok::<_, ErrorView>(
            kept,
        ),
{
    let name = slots[k].name;
    law_vector_reads_back(mapping, base, pointer, slots.len(), 144);
    lemma_search(mapping, base, pointer, slots, directory, name, 0);
    directory::law_first_named(directory, mapping, name, 0);
    assert forall|i: int| 0 <= i < slots.len() implies directory::name_at(
        directory,
        mapping,
        i,
    ) == Ok::<_, ProtocolErrorView>((#[trigger] slots[i]).name) by {
        law_slot_reads_back(directory, mapping, i, slots[i]);
    }
    let found = directory::first_named(directory, mapping, name, 0)->Ok_0;
    assert(directory::name_at(directory, mapping, k) == Ok::<_, ProtocolErrorView>(slots[k].name));
    assert(found is Some);
    let at = found->Some_0;
    assert(slots[at].name == name);
    if at > k {
        assert(directory::name_at(directory, mapping, k)->Ok_0 != name);
    }
    assert(at == k);
    law_symlink_reads_back(
        mapping,
        base,
        directory,
        k,
        slots[k],
        target,
        column,
        slots[target as int],
        value,
        kept,
        name,
    );
}

} // verus!
