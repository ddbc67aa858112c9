//! Decoding of the published directory out of one image of the segment.

use crate::bytes;
use crate::list;
use crate::stats::error;
use crate::stats::error::{Error, ErrorView};
use crate::stats::protocol;
use crate::stats::protocol::{
    Counter, DirectoryEntry, DirectoryType, EntryView, MetricValue, MetricView, ProtocolError,
    ProtocolErrorView, PublishedVector, VectorView, COUNTER_BYTES, DIRECTORY_ENTRY_BYTES,
    POINTER_BYTES,
};
use crate::text;
use vstd::prelude::*;
use vstd::slice::*;

verus! {

/// Symlink hops allowed before the reader reports a cycle.
pub const SYMLINK_LIMIT: usize = 16;

/// The entry at `index` of the directory.
pub open spec fn entry_at(directory: VectorView, mapping: Seq<u8>, index: int) -> Result<
    EntryView,
    ProtocolErrorView,
> {
    match protocol::element_of(directory, mapping, index) {
        Ok(slot) => Ok(protocol::entry_of(slot)),
        Err(error) => Err(error),
    }
}

/// The name of the entry at `index` of the directory.
pub open spec fn name_at(directory: VectorView, mapping: Seq<u8>, index: int) -> Result<
    Seq<char>,
    ProtocolErrorView,
> {
    match entry_at(directory, mapping, index) {
        Ok(entry) => protocol::entry_name(entry.name),
        Err(error) => Err(error),
    }
}

/// Every directory name, in directory order.
pub open spec fn directory_names(directory: VectorView, mapping: Seq<u8>) -> Result<
    Seq<Seq<char>>,
    ProtocolErrorView,
> {
    list::collected(directory.length, |i: int| name_at(directory, mapping, i))
}

/// The first entry at `from` or behind it that owns `name`. A malformed entry
/// in front of it fails the search.
pub open spec fn first_named(
    directory: VectorView,
    mapping: Seq<u8>,
    name: Seq<char>,
    from: int,
) -> Result<Option<int>, ProtocolErrorView>
    decreases directory.length - from,
{
    if from >= directory.length {
        Ok(None)
    } else {
        match name_at(directory, mapping, from) {
            Err(error) => Err(error),
            Ok(found) => if found == name {
                Ok(Some(from))
            } else {
                first_named(directory, mapping, name, from + 1)
            },
        }
    }
}

/// One cell of a combined counter row.
pub open spec fn counter_of(vector: VectorView, mapping: Seq<u8>, index: int) -> Result<
    Counter,
    ProtocolErrorView,
> {
    match protocol::element_of(vector, mapping, index) {
        Ok(element) => Ok(protocol::counter_at(element, 0)),
        Err(error) => Err(error),
    }
}

/// The inner vector a row of an outer vector points at; a null row has none.
pub open spec fn inner_of(
    mapping: Seq<u8>,
    base: usize,
    outer: VectorView,
    row: int,
    element_size: nat,
) -> Result<Option<VectorView>, ProtocolErrorView> {
    match protocol::pointer_of(outer, mapping, row) {
        Err(error) => Err(error),
        Ok(published) => if published == 0 {
            Ok(None)
        } else {
            match protocol::resolved(mapping, base, published, element_size) {
                Ok(inner) => Ok(Some(inner)),
                Err(error) => Err(error),
            }
        },
    }
}

/// One row of a simple counter vector; a null row is empty.
pub open spec fn simple_row(mapping: Seq<u8>, base: usize, outer: VectorView, row: int) -> Result<
    Seq<u64>,
    ProtocolErrorView,
> {
    match inner_of(mapping, base, outer, row, 8) {
        Err(error) => Err(error),
        Ok(None) => Ok(Seq::empty()),
        Ok(Some(inner)) => list::collected(
            inner.length,
            |i: int| protocol::u64_of(inner, mapping, i),
        ),
    }
}

/// One row of a combined counter vector; a null row is empty.
pub open spec fn combined_row(
    mapping: Seq<u8>,
    base: usize,
    outer: VectorView,
    row: int,
) -> Result<Seq<Counter>, ProtocolErrorView> {
    match inner_of(mapping, base, outer, row, COUNTER_BYTES as nat) {
        Err(error) => Err(error),
        Ok(None) => Ok(Seq::empty()),
        Ok(Some(inner)) => list::collected(
            inner.length,
            |i: int| counter_of(inner, mapping, i),
        ),
    }
}

/// The text of one element of a name vector, up to its nul.
pub open spec fn published_text(
    mapping: Seq<u8>,
    base: usize,
    outer: VectorView,
    index: int,
) -> Result<Seq<char>, ProtocolErrorView> {
    match protocol::pointer_of(outer, mapping, index) {
        Err(error) => Err(error),
        Ok(published) => if published < base {
            Err(ProtocolErrorView::PointerBeforeBase { pointer: published, base })
        } else if published - base > mapping.len() {
            Err(ProtocolErrorView::VectorOutOfBounds { length: mapping.len() as int })
        } else {
            let rest = mapping.skip(published - base);
            match rest.index_of_first(0u8) {
                None => Err(ProtocolErrorView::MissingNameTerminator),
                Some(end) => match text::decoded_text(rest.take(end)) {
                    Some(found) => Ok(found),
                    None => Err(ProtocolErrorView::InvalidNameEncoding),
                },
            }
        },
    }
}

/// The rows of a vector, each read by `row`.
pub open spec fn vector_rows<T>(
    vector: Result<VectorView, ProtocolErrorView>,
    row: spec_fn(VectorView, int) -> Result<T, ProtocolErrorView>,
) -> Result<Seq<T>, ProtocolErrorView> {
    match vector {
        Err(error) => Err(error),
        Ok(outer) => list::collected(outer.length, |i: int| row(outer, i)),
    }
}

/// The outer vector a counter entry publishes.
pub open spec fn counter_vector(mapping: Seq<u8>, base: usize, entry: EntryView) -> Result<
    VectorView,
    ProtocolErrorView,
> {
    match protocol::entry_data_pointer(entry) {
        Err(error) => Err(error),
        Ok(published) => protocol::resolved(mapping, base, published, POINTER_BYTES as nat),
    }
}

/// The outer vector a name-vector entry publishes.
pub open spec fn text_vector(mapping: Seq<u8>, base: usize, entry: EntryView) -> Result<
    VectorView,
    ProtocolErrorView,
> {
    match protocol::entry_name_vector_pointer(entry) {
        Err(error) => Err(error),
        Ok(published) => protocol::resolved(mapping, base, published, POINTER_BYTES as nat),
    }
}

/// The rows of a simple counter entry.
pub open spec fn simple_rows(mapping: Seq<u8>, base: usize, entry: EntryView) -> Result<
    Seq<Seq<u64>>,
    ProtocolErrorView,
> {
    vector_rows(
        counter_vector(mapping, base, entry),
        |outer: VectorView, i: int| simple_row(mapping, base, outer, i),
    )
}

/// The rows of a combined counter entry.
pub open spec fn combined_rows(mapping: Seq<u8>, base: usize, entry: EntryView) -> Result<
    Seq<Seq<Counter>>,
    ProtocolErrorView,
> {
    vector_rows(
        counter_vector(mapping, base, entry),
        |outer: VectorView, i: int| combined_row(mapping, base, outer, i),
    )
}

/// The texts of a name-vector entry.
pub open spec fn entry_texts(mapping: Seq<u8>, base: usize, entry: EntryView) -> Result<
    Seq<Seq<char>>,
    ProtocolErrorView,
> {
    vector_rows(
        text_vector(mapping, base, entry),
        |outer: VectorView, i: int| published_text(mapping, base, outer, i),
    )
}

/// The value of an entry that is no symlink.
pub open spec fn plain_value(
    mapping: Seq<u8>,
    base: usize,
    entry: EntryView,
    kind: DirectoryType,
    name: Seq<char>,
) -> Result<MetricView, ErrorView> {
    match kind {
        DirectoryType::ScalarIndex => Ok(MetricView::Scalar(entry.data)),
        DirectoryType::Gauge => Ok(MetricView::Gauge(entry.data)),
        DirectoryType::CounterVectorSimple => match simple_rows(mapping, base, entry) {
            Ok(rows) => Ok(MetricView::Simple(rows)),
            Err(source) => Err(ErrorView::Protocol { source }),
        },
        DirectoryType::CounterVectorCombined => match combined_rows(mapping, base, entry) {
            Ok(rows) => Ok(MetricView::Combined(rows)),
            Err(source) => Err(ErrorView::Protocol { source }),
        },
        DirectoryType::NameVector => match entry_texts(mapping, base, entry) {
            Ok(names) => Ok(MetricView::Names(names)),
            Err(source) => Err(ErrorView::Protocol { source }),
        },
        _ => Err(
            ErrorView::UnsupportedDirectoryType { name, directory_type: kind.spec_label()@ },
        ),
    }
}

/// The value of the entry at `index`, reached through `depth` symlinks: the
/// value of a symlink is one column of the value of its target.
pub open spec fn entry_value(
    mapping: Seq<u8>,
    base: usize,
    directory: VectorView,
    index: int,
    name: Seq<char>,
    depth: int,
) -> Result<MetricView, ErrorView>
    decreases SYMLINK_LIMIT - depth,
{
    if depth >= SYMLINK_LIMIT {
        Err(ErrorView::SymlinkCycle { name, depth: SYMLINK_LIMIT as int })
    } else {
        match entry_at(directory, mapping, index) {
            Err(source) => Err(ErrorView::Protocol { source }),
            Ok(entry) => match protocol::entry_type(entry) {
                Err(source) => Err(ErrorView::Protocol { source }),
                Ok(DirectoryType::Symlink) => {
                    let target = entry.data % 0x1_0000_0000;
                    let column = entry.data / 0x1_0000_0000;
                    match entry_value(mapping, base, directory, target as int, name, depth + 1) {
                        Err(error) => Err(error),
                        Ok(value) => error::of_layout(protocol::column_of(value, column as int)),
                    }
                },
                Ok(kind) => plain_value(mapping, base, entry, kind, name),
            },
        }
    }
}

/// The value the directory publishes under `name`.
pub open spec fn named_value(
    mapping: Seq<u8>,
    base: usize,
    directory: VectorView,
    name: Seq<char>,
) -> Result<MetricView, ErrorView> {
    match first_named(directory, mapping, name, 0) {
        Err(source) => Err(ErrorView::Protocol { source }),
        Ok(None) => Err(ErrorView::MetricNotFound { name }),
        Ok(Some(index)) => entry_value(mapping, base, directory, index, name, 0),
    }
}

/// The entry at `index` of the published directory.
pub fn read_entry(directory: &PublishedVector, mapping: &[u8], index: usize) -> (entry: Result<
    DirectoryEntry,
    ProtocolError,
>)
    requires
        directory@.element_size == DIRECTORY_ENTRY_BYTES,
    ensures
        protocol::outcome(entry) == entry_at(directory@, mapping@, index as int),
{
    let element = directory.element(mapping, index)?;
    Ok(DirectoryEntry::read(element))
}

/// The name of the entry at `index` of the published directory.
fn read_name(directory: &PublishedVector, mapping: &[u8], index: usize) -> (name: Result<
    String,
    ProtocolError,
>)
    requires
        directory@.element_size == DIRECTORY_ENTRY_BYTES,
    ensures
        protocol::outcome(name) == name_at(directory@, mapping@, index as int),
{
    let entry = read_entry(directory, mapping, index)?;
    let name = entry.name()?;
    Ok(name.to_owned())
}

/// Every directory name, including free slots and symlinks.
pub fn read_names(directory: &PublishedVector, mapping: &[u8]) -> (names: Result<
    Vec<String>,
    Error,
>)
    requires
        directory@.element_size == DIRECTORY_ENTRY_BYTES,
    ensures
        error::listing(names) == error::of_layout(directory_names(directory@, mapping@)),
{
    let ghost item = |i: int| name_at(directory@, mapping@, i);
    let mut found: Vec<String> = Vec::new();
    let mut i: usize = 0;
    assert(text::texts(found@) =~= Seq::empty());
    while i < directory.len()
        invariant
            i <= directory@.length,
            directory@.element_size == DIRECTORY_ENTRY_BYTES,
            item == (|i: int| name_at(directory@, mapping@, i)),
            list::collected(i as nat, item) == Ok::<_, ProtocolErrorView>(text::texts(found@)),
        decreases directory@.length - i,
    {
        match read_name(directory, mapping, i) {
            Ok(name) => {
                assert(text::texts(found@.push(name)) =~= text::texts(found@).push(name@));
                found.push(name);
            },
            Err(source) => {
                proof {
                    assert(item(i as int) is Err);
                    list::lemma_collected_error((i + 1) as nat, directory@.length, item);
                }
                return Err(Error::from(source));
            },
        }
        i = i + 1;
    }
    Ok(found)
}

/// The directory index of `name`, or `None` when no entry owns that name.
pub fn find_entry(directory: &PublishedVector, mapping: &[u8], name: &str) -> (found: Result<
    Option<usize>,
    ProtocolError,
>)
    requires
        directory@.element_size == DIRECTORY_ENTRY_BYTES,
    ensures
        match found {
            Err(error) => first_named(directory@, mapping@, name@, 0) == Err::<Option<int>, _>(
                error@,
            ),
            Ok(None) => first_named(directory@, mapping@, name@, 0) == Ok::<
                Option<int>,
                ProtocolErrorView,
            >(None),
            Ok(Some(index)) => first_named(directory@, mapping@, name@, 0) == Ok::<
                Option<int>,
                ProtocolErrorView,
            >(Some(index as int)),
        },
{
    let mut i: usize = 0;
    while i < directory.len()
        invariant
            i <= directory@.length,
            directory@.element_size == DIRECTORY_ENTRY_BYTES,
            first_named(directory@, mapping@, name@, 0) == first_named(
                directory@,
                mapping@,
                name@,
                i as int,
            ),
        decreases directory@.length - i,
    {
        let found = read_name(directory, mapping, i)?;
        if text::same_text(found.as_str(), name) {
            return Ok(Some(i));
        }
        i = i + 1;
    }
    Ok(None)
}

/// The published vector one vector-bearing entry names.
fn vector_of(mapping: &[u8], base: usize, entry: &DirectoryEntry) -> (vector: Result<
    PublishedVector,
    ProtocolError,
>)
    ensures
        protocol::outcome(vector) == counter_vector(mapping@, base, entry@),
{
    let published = entry.data_pointer()?;
    PublishedVector::resolve(mapping, base, published, POINTER_BYTES)
}

/// Resolves one inner vector of an outer vector, or `None` for a null element.
fn inner_vector(
    mapping: &[u8],
    base: usize,
    outer: &PublishedVector,
    row: usize,
    element_size: usize,
) -> (inner: Result<Option<PublishedVector>, ProtocolError>)
    ensures
        match inner {
            Err(error) => inner_of(mapping@, base, outer@, row as int, element_size as nat)
                == Err::<Option<VectorView>, _>(error@),
            Ok(None) => inner_of(mapping@, base, outer@, row as int, element_size as nat) == Ok::<
                Option<VectorView>,
                ProtocolErrorView,
            >(None),
            Ok(Some(vector)) => inner_of(mapping@, base, outer@, row as int, element_size as nat)
                == Ok::<Option<VectorView>, ProtocolErrorView>(Some(vector@)),
        },
{
    let published = outer.pointer(mapping, row)?;
    if published == 0 {
        return Ok(None);
    }
    let inner = PublishedVector::resolve(mapping, base, published, element_size)?;
    Ok(Some(inner))
}

/// A simple counter row as a `u64` vector; a null row is empty.
fn inner_u64_vector(mapping: &[u8], base: usize, outer: &PublishedVector, row: usize) -> (values:
    Result<Vec<u64>, ProtocolError>)
    ensures
        protocol::outcome(values) == simple_row(mapping@, base, outer@, row as int),
{
    let inner = match inner_vector(mapping, base, outer, row, 8)? {
        Some(inner) => inner,
        None => {
            return Ok(Vec::new());
        },
    };
    let ghost item = |i: int| protocol::u64_of(inner@, mapping@, i);
    let mut values: Vec<u64> = Vec::new();
    let mut i: usize = 0;
    while i < inner.len()
        invariant
            i <= inner@.length,
            item == (|i: int| protocol::u64_of(inner@, mapping@, i)),
            list::collected(inner@.length, item) == simple_row(
                mapping@,
                base,
                outer@,
                row as int,
            ),
            list::collected(i as nat, item) == Ok::<_, ProtocolErrorView>(values@),
        decreases inner@.length - i,
    {
        match inner.u64(mapping, i) {
            Ok(value) => {
                values.push(value);
            },
            Err(error) => {
                proof {
                    assert(item(i as int) is Err);
                    list::lemma_collected_error((i + 1) as nat, inner@.length, item);
                }
                return Err(error);
            },
        }
        i = i + 1;
    }
    Ok(values)
}

/// One cell of a combined counter row.
fn read_counter(vector: &PublishedVector, mapping: &[u8], index: usize) -> (counter: Result<
    Counter,
    ProtocolError,
>)
    requires
        vector@.element_size == COUNTER_BYTES,
    ensures
        counter matches Ok(found) ==> counter_of(vector@, mapping@, index as int) == Ok::<
            _,
            ProtocolErrorView,
        >(found),
        counter matches Err(error) ==> counter_of(vector@, mapping@, index as int) == Err::<
            Counter,
            _,
        >(error@),
{
    let element = vector.element(mapping, index)?;
    Ok(Counter { packets: bytes::read_le_u64(element, 0), bytes: bytes::read_le_u64(element, 8) })
}

/// A combined counter row; a null row is empty.
fn inner_counter_vector(
    mapping: &[u8],
    base: usize,
    outer: &PublishedVector,
    row: usize,
) -> (values: Result<Vec<Counter>, ProtocolError>)
    ensures
        protocol::outcome(values) == combined_row(mapping@, base, outer@, row as int),
{
    let inner = match inner_vector(mapping, base, outer, row, COUNTER_BYTES)? {
        Some(inner) => inner,
        None => {
            return Ok(Vec::new());
        },
    };
    let ghost item = |i: int| counter_of(inner@, mapping@, i);
    let mut values: Vec<Counter> = Vec::new();
    let mut i: usize = 0;
    while i < inner.len()
        invariant
            i <= inner@.length,
            inner@.element_size == COUNTER_BYTES,
            item == (|i: int| counter_of(inner@, mapping@, i)),
            list::collected(inner@.length, item) == combined_row(
                mapping@,
                base,
                outer@,
                row as int,
            ),
            list::collected(i as nat, item) == Ok::<_, ProtocolErrorView>(values@),
        decreases inner@.length - i,
    {
        match read_counter(&inner, mapping, i) {
            Ok(value) => {
                values.push(value);
            },
            Err(error) => {
                proof {
                    assert(item(i as int) is Err);
                    list::lemma_collected_error((i + 1) as nat, inner@.length, item);
                }
                return Err(error);
            },
        }
        i = i + 1;
    }
    Ok(values)
}

/// The text one element of a name vector points at.
fn read_text(mapping: &[u8], base: usize, outer: &PublishedVector, index: usize) -> (found: Result<
    String,
    ProtocolError,
>)
    ensures
        protocol::outcome(found) == published_text(mapping@, base, outer@, index as int),
{
    let published = outer.pointer(mapping, index)?;
    if published < base {
        return Err(ProtocolError::PointerBeforeBase { pointer: published, base });
    }
    let offset: usize = published - base;
    if offset > mapping.len() {
        return Err(ProtocolError::VectorOutOfBounds { length: mapping.len() });
    }
    let rest = slice_subrange(mapping, offset, mapping.len());
    assert(rest@ =~= mapping@.skip(offset as int));
    let end = match bytes::nul_position(rest) {
        Some(end) => end,
        None => {
            return Err(ProtocolError::MissingNameTerminator);
        },
    };
    let lead = slice_subrange(rest, 0, end);
    assert(lead@ =~= rest@.take(end as int));
    match text::decode_text(lead) {
        Some(found) => Ok(found.to_owned()),
        None => Err(ProtocolError::InvalidNameEncoding),
    }
}

/// The names of a name vector.
fn name_vector(mapping: &[u8], base: usize, entry: &DirectoryEntry) -> (names: Result<
    Vec<String>,
    ProtocolError,
>)
    ensures
        names matches Ok(found) ==> entry_texts(mapping@, base, entry@) == Ok::<
            _,
            ProtocolErrorView,
        >(text::texts(found@)),
        names matches Err(error) ==> entry_texts(mapping@, base, entry@) == Err::<
            Seq<Seq<char>>,
            _,
        >(error@),
{
    let published = entry.name_vector_pointer()?;
    let outer = PublishedVector::resolve(mapping, base, published, POINTER_BYTES)?;
    let ghost item = |i: int| published_text(mapping@, base, outer@, i);
    proof {
        let row = |outer: VectorView, i: int| published_text(mapping@, base, outer, i);
        assert((|i: int| row(outer@, i)) =~= item);
    }
    let mut found: Vec<String> = Vec::new();
    let mut i: usize = 0;
    assert(text::texts(found@) =~= Seq::empty());
    while i < outer.len()
        invariant
            i <= outer@.length,
            item == (|i: int| published_text(mapping@, base, outer@, i)),
            list::collected(outer@.length, item) == entry_texts(mapping@, base, entry@),
            list::collected(i as nat, item) == Ok::<_, ProtocolErrorView>(text::texts(found@)),
        decreases outer@.length - i,
    {
        match read_text(mapping, base, &outer, i) {
            Ok(name) => {
                assert(text::texts(found@.push(name)) =~= text::texts(found@).push(name@));
                found.push(name);
            },
            Err(error) => {
                proof {
                    assert(item(i as int) is Err);
                    list::lemma_collected_error((i + 1) as nat, outer@.length, item);
                }
                return Err(error);
            },
        }
        i = i + 1;
    }
    Ok(found)
}

/// The rows of a simple counter vector.
fn simple_vector(mapping: &[u8], base: usize, entry: &DirectoryEntry) -> (rows: Result<
    Vec<Vec<u64>>,
    ProtocolError,
>)
    ensures
        rows matches Ok(found) ==> simple_rows(mapping@, base, entry@) == Ok::<
            _,
            ProtocolErrorView,
        >(protocol::rows_view(found@)),
        rows matches Err(error) ==> simple_rows(mapping@, base, entry@) == Err::<Seq<Seq<u64>>, _>(
            error@,
        ),
{
    let vector = vector_of(mapping, base, entry)?;
    let ghost item = |i: int| simple_row(mapping@, base, vector@, i);
    proof {
        let row = |outer: VectorView, i: int| simple_row(mapping@, base, outer, i);
        assert((|i: int| row(vector@, i)) =~= item);
    }
    let mut rows: Vec<Vec<u64>> = Vec::new();
    let mut i: usize = 0;
    assert(protocol::rows_view(rows@) =~= Seq::empty());
    while i < vector.len()
        invariant
            i <= vector@.length,
            item == (|i: int| simple_row(mapping@, base, vector@, i)),
            list::collected(vector@.length, item) == simple_rows(mapping@, base, entry@),
            list::collected(i as nat, item) == Ok::<_, ProtocolErrorView>(
                protocol::rows_view(rows@),
            ),
        decreases vector@.length - i,
    {
        match inner_u64_vector(mapping, base, &vector, i) {
            Ok(row) => {
                assert(protocol::rows_view(rows@.push(row)) =~= protocol::rows_view(rows@).push(
                    row@,
                ));
                rows.push(row);
            },
            Err(error) => {
                proof {
                    assert(item(i as int) is Err);
                    list::lemma_collected_error((i + 1) as nat, vector@.length, item);
                }
                return Err(error);
            },
        }
        i = i + 1;
    }
    Ok(rows)
}

/// The rows of a combined counter vector.
fn combined_vector(mapping: &[u8], base: usize, entry: &DirectoryEntry) -> (rows: Result<
    Vec<Vec<Counter>>,
    ProtocolError,
>)
    ensures
        rows matches Ok(found) ==> combined_rows(mapping@, base, entry@) == Ok::<
            _,
            ProtocolErrorView,
        >(protocol::rows_view(found@)),
        rows matches Err(error) ==> combined_rows(mapping@, base, entry@) == Err::<
            Seq<Seq<Counter>>,
            _,
        >(error@),
{
    let vector = vector_of(mapping, base, entry)?;
    let ghost item = |i: int| combined_row(mapping@, base, vector@, i);
    proof {
        let row = |outer: VectorView, i: int| combined_row(mapping@, base, outer, i);
        assert((|i: int| row(vector@, i)) =~= item);
    }
    let mut rows: Vec<Vec<Counter>> = Vec::new();
    let mut i: usize = 0;
    assert(protocol::rows_view(rows@) =~= Seq::empty());
    while i < vector.len()
        invariant
            i <= vector@.length,
            item == (|i: int| combined_row(mapping@, base, vector@, i)),
            list::collected(vector@.length, item) == combined_rows(mapping@, base, entry@),
            list::collected(i as nat, item) == Ok::<_, ProtocolErrorView>(
                protocol::rows_view(rows@),
            ),
        decreases vector@.length - i,
    {
        match inner_counter_vector(mapping, base, &vector, i) {
            Ok(row) => {
                assert(protocol::rows_view(rows@.push(row)) =~= protocol::rows_view(rows@).push(
                    row@,
                ));
                rows.push(row);
            },
            Err(error) => {
                proof {
                    assert(item(i as int) is Err);
                    list::lemma_collected_error((i + 1) as nat, vector@.length, item);
                }
                return Err(error);
            },
        }
        i = i + 1;
    }
    Ok(rows)
}

/// Resolves one directory entry through symlinks and decodes its value.
pub fn decode_entry(
    mapping: &[u8],
    base: usize,
    directory: &PublishedVector,
    index: usize,
    name: &str,
    depth: usize,
) -> (value: Result<MetricValue, Error>)
    requires
        directory@.element_size == DIRECTORY_ENTRY_BYTES,
    ensures
        error::outcome(value) == entry_value(
            mapping@,
            base,
            directory@,
            index as int,
            name@,
            depth as int,
        ),
    decreases SYMLINK_LIMIT - depth,
{
    if depth >= SYMLINK_LIMIT {
        return Err(Error::SymlinkCycle { name: name.to_owned(), depth: SYMLINK_LIMIT });
    }
    let entry = match read_entry(directory, mapping, index) {
        Ok(entry) => entry,
        Err(source) => {
            return Err(Error::from(source));
        },
    };
    let directory_type = match entry.directory_type() {
        Ok(directory_type) => directory_type,
        Err(source) => {
            return Err(Error::from(source));
        },
    };
    match directory_type {
        DirectoryType::Symlink => {
            let (target, column) = match entry.symlink() {
                Ok(link) => link,
                Err(source) => {
                    return Err(Error::from(source));
                },
            };
            match decode_entry(mapping, base, directory, target as usize, name, depth + 1) {
                Ok(value) => error::checked(value.column(column as usize)),
                Err(error) => Err(error),
            }
        },
        DirectoryType::ScalarIndex => match entry.scalar() {
            Ok(value) => Ok(MetricValue::Scalar(value)),
            Err(source) => Err(Error::from(source)),
        },
        DirectoryType::Gauge => match entry.scalar() {
            Ok(value) => Ok(MetricValue::Gauge(value)),
            Err(source) => Err(Error::from(source)),
        },
        DirectoryType::CounterVectorSimple => match simple_vector(mapping, base, &entry) {
            Ok(rows) => Ok(MetricValue::Simple(rows)),
            Err(source) => Err(Error::from(source)),
        },
        DirectoryType::CounterVectorCombined => match combined_vector(mapping, base, &entry) {
            Ok(rows) => Ok(MetricValue::Combined(rows)),
            Err(source) => Err(Error::from(source)),
        },
        DirectoryType::NameVector => match name_vector(mapping, base, &entry) {
            Ok(names) => Ok(MetricValue::Names(names)),
            Err(source) => Err(Error::from(source)),
        },
        DirectoryType::HistogramLog2
        | DirectoryType::RingBuffer
        | DirectoryType::Illegal
        | DirectoryType::Empty => Err(
            Error::UnsupportedDirectoryType {
                name: name.to_owned(),
                directory_type: directory_type.label(),
            },
        ),
    }
}

/// The raw value a directory name publishes.
pub fn read_value(directory: &PublishedVector, mapping: &[u8], base: usize, name: &str) -> (value:
    Result<MetricValue, Error>)
    requires
        directory@.element_size == DIRECTORY_ENTRY_BYTES,
    ensures
        error::outcome(value) == named_value(mapping@, base, directory@, name@),
{
    match find_entry(directory, mapping, name) {
        Err(source) => Err(Error::from(source)),
        Ok(None) => Err(Error::MetricNotFound { name: name.to_owned() }),
        Ok(Some(index)) => decode_entry(mapping, base, directory, index, name, 0),
    }
}

/// A found entry owns the name, and no entry in front of it does.
pub proof fn law_first_named(directory: VectorView, mapping: Seq<u8>, name: Seq<char>, from: int)
    requires
        0 <= from,
        first_named(directory, mapping, name, from) is Ok,
    ensures
        match first_named(directory, mapping, name, from)->Ok_0 {
            Some(index) => {
                &&& from <= index < directory.length
                &&& name_at(directory, mapping, index) == Ok::<_, ProtocolErrorView>(name)
                &&& forall|i: int|
                    from <= i < index ==> #[trigger] name_at(directory, mapping, i) is Ok
                        && name_at(directory, mapping, i)->Ok_0 != name
            },
            None => forall|i: int|
                from <= i < directory.length ==> #[trigger] name_at(directory, mapping, i) is Ok
                    && name_at(directory, mapping, i)->Ok_0 != name,
        },
    decreases directory.length - from,
{
    if from < directory.length && name_at(directory, mapping, from)->Ok_0 != name {
        law_first_named(directory, mapping, name, from + 1);
    }
}

/// Every name of a listing is found: looking it up ends at an entry that owns
/// it.
pub proof fn law_listed_names_are_found(directory: VectorView, mapping: Seq<u8>, name: Seq<char>)
    requires
        directory_names(directory, mapping) is Ok,
    ensures
        directory_names(directory, mapping)->Ok_0.contains(name) <==> first_named(
            directory,
            mapping,
            name,
            0,
        ) matches Ok(Some(_)),
        first_named(directory, mapping, name, 0) is Ok,
{
    let item = |i: int| name_at(directory, mapping, i);
    let names = directory_names(directory, mapping)->Ok_0;
    list::lemma_collected_ok(directory.length, item);
    assert forall|i: int| 0 <= i < directory.length implies name_at(directory, mapping, i) == Ok::<
        _,
        ProtocolErrorView,
    >(#[trigger] names[i]) by {
        assert(item(i) == Ok::<_, ProtocolErrorView>(names[i]));
    }
    lemma_search_succeeds(directory, mapping, name, names, 0);
    law_first_named(directory, mapping, name, 0);
    if names.contains(name) {
        let i = choose|i: int| 0 <= i < names.len() && names[i] == name;
        assert(name_at(directory, mapping, i) == Ok::<_, ProtocolErrorView>(names[i]));
    }
    if first_named(directory, mapping, name, 0)->Ok_0 is Some {
        let index = first_named(directory, mapping, name, 0)->Ok_0->Some_0;
        assert(names[index] == name);
    }
}

proof fn lemma_search_succeeds(
    directory: VectorView,
    mapping: Seq<u8>,
    name: Seq<char>,
    names: Seq<Seq<char>>,
    from: int,
)
    requires
        0 <= from,
        names.len() == directory.length,
        forall|i: int|
            0 <= i < directory.length ==> name_at(directory, mapping, i) == Ok::<
                _,
                ProtocolErrorView,
            >(#[trigger] names[i]),
    ensures
        first_named(directory, mapping, name, from) is Ok,
    decreases directory.length - from,
{
    if from < directory.length {
        assert(name_at(directory, mapping, from) == Ok::<_, ProtocolErrorView>(names[from]));
        if names[from] != name {
            lemma_search_succeeds(directory, mapping, name, names, from + 1);
        }
    }
}

/// A symlink never yields a value of its own: its value is one column of what
/// its target yields.
pub proof fn law_symlink_value(
    mapping: Seq<u8>,
    base: usize,
    directory: VectorView,
    index: int,
    name: Seq<char>,
    depth: int,
)
    requires
        0 <= depth < SYMLINK_LIMIT,
        entry_at(directory, mapping, index) is Ok,
        protocol::entry_type(entry_at(directory, mapping, index)->Ok_0) == Ok::<
            _,
            ProtocolErrorView,
        >(DirectoryType::Symlink),
        entry_value(mapping, base, directory, index, name, depth) is Ok,
    ensures
        ({
            let link = protocol::entry_symlink(entry_at(directory, mapping, index)->Ok_0)->Ok_0;
            let target = entry_value(mapping, base, directory, link.0 as int, name, depth + 1);
            &&& target is Ok
            &&& protocol::column_of(target->Ok_0, link.1 as int) == Ok::<_, ProtocolErrorView>(
                entry_value(mapping, base, directory, index, name, depth)->Ok_0,
            )
        }),
{
}

/// An entry that was found is never reported as a missing name, nor as one that
/// was retried too often.
pub proof fn lemma_value_failure(
    mapping: Seq<u8>,
    base: usize,
    directory: VectorView,
    index: int,
    name: Seq<char>,
    depth: int,
)
    ensures
        !(entry_value(mapping, base, directory, index, name, depth) matches Err(
            ErrorView::MetricNotFound { .. },
        )),
        !(entry_value(mapping, base, directory, index, name, depth) matches Err(
            ErrorView::RetryExhausted { .. },
        )),
    decreases SYMLINK_LIMIT - depth,
{
    if depth < SYMLINK_LIMIT && entry_at(directory, mapping, index) is Ok {
        let entry = entry_at(directory, mapping, index)->Ok_0;
        let target = entry.data % 0x1_0000_0000;
        lemma_value_failure(mapping, base, directory, target as int, name, depth + 1);
    }
}

} // verus!
