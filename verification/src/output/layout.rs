//! The layout of the records that the host reads in place.
//!
//! A record is a run of fields without gaps, in declaration order. The same
//! description drives the writer on this side and the generated reader on the
//! other, so the two cannot drift apart.

use crate::arena::Arena;
use crate::bytes::u32_bytes;
use vstd::prelude::*;

verus! {

/// How a field is read on the other side.
#[derive(Clone, Copy, PartialEq, Eq, Structural, Debug)]
pub enum FieldKind {
    /// An unsigned 32-bit number.
    Uint32,
    /// A number as wide as a pointer of this build: an offset, a size, a
    /// count or an address.
    Pointer,
    /// A 32-bit floating point number, carried as its bit pattern.
    Float32,
}

/// One field of a record. The items of an array are fields of one name that
/// follow each other.
#[derive(Clone, Copy, Debug)]
pub struct FieldDef {
    pub name: &'static str,
    pub kind: FieldKind,
}

/// The value of one field.
#[derive(Clone, Copy, Debug)]
pub enum FieldValue {
    Uint32(u32),
    Pointer(usize),
    Float32(u32),
}

/// The width of a pointer in bytes: 4 or 8.
pub open spec fn pointer_width() -> nat {
    (usize::BITS / 8) as nat
}

/// The size in bytes of a field of the given kind.
pub open spec fn kind_width(kind: FieldKind, pointer: nat) -> nat {
    match kind {
        FieldKind::Pointer => pointer,
        _ => 4,
    }
}

/// The size of a field in bytes.
pub open spec fn field_size(def: FieldDef, pointer: nat) -> nat {
    kind_width(def.kind, pointer)
}

/// The offset of field `i`: the sizes of the fields before it, added up.
pub open spec fn offset_of(defs: Seq<FieldDef>, i: nat, pointer: nat) -> nat
    decreases i,
{
    if i == 0 {
        0
    } else {
        offset_of(defs, (i - 1) as nat, pointer) + field_size(defs[i - 1], pointer)
    }
}

/// The size of a record in bytes.
pub open spec fn record_size(defs: Seq<FieldDef>, pointer: nat) -> nat {
    offset_of(defs, defs.len(), pointer)
}

/// A value fits a field when it is of the field's kind.
pub open spec fn value_matches(def: FieldDef, value: FieldValue) -> bool {
    match value {
        FieldValue::Uint32(_) => def.kind == FieldKind::Uint32,
        FieldValue::Pointer(_) => def.kind == FieldKind::Pointer,
        FieldValue::Float32(_) => def.kind == FieldKind::Float32,
    }
}

/// Each value fits the field at its place.
pub open spec fn values_match(defs: Seq<FieldDef>, values: Seq<FieldValue>) -> bool {
    &&& defs.len() == values.len()
    &&& forall|i: int| 0 <= i < defs.len() ==> value_matches(#[trigger] defs[i], values[i])
}

/// A pointer-wide number, least significant byte first.
pub open spec fn pointer_bytes(value: usize, pointer: nat) -> Seq<u8> {
    if pointer == 8 {
        u32_bytes((value as int % 0x1_0000_0000) as u32) + u32_bytes(
            (value as int / 0x1_0000_0000) as u32,
        )
    } else {
        u32_bytes(value as u32)
    }
}

/// The bytes of one field.
pub open spec fn value_bytes(value: FieldValue, pointer: nat) -> Seq<u8> {
    match value {
        FieldValue::Uint32(v) => u32_bytes(v),
        FieldValue::Pointer(v) => pointer_bytes(v, pointer),
        FieldValue::Float32(bits) => u32_bytes(bits),
    }
}

/// The bytes of the first `n` fields, one after the other.
pub open spec fn values_bytes(values: Seq<FieldValue>, n: nat, pointer: nat) -> Seq<u8>
    decreases n,
{
    if n == 0 {
        Seq::empty()
    } else {
        values_bytes(values, (n - 1) as nat, pointer) + value_bytes(values[n - 1], pointer)
    }
}

/// The bytes of a whole record.
pub open spec fn record_bytes(values: Seq<FieldValue>, pointer: nat) -> Seq<u8> {
    values_bytes(values, values.len(), pointer)
}

/// A value that fits its field takes as many bytes as the field is wide.
pub proof fn lemma_value_bytes_len(def: FieldDef, value: FieldValue, pointer: nat)
    requires
        value_matches(def, value),
        pointer == 4 || pointer == 8,
    ensures
        value_bytes(value, pointer).len() == field_size(def, pointer),
{
}

/// The bytes of the first `n` fields end where field `n` begins.
pub proof fn lemma_values_bytes_len(
    defs: Seq<FieldDef>,
    values: Seq<FieldValue>,
    n: nat,
    pointer: nat,
)
    requires
        values_match(defs, values),
        n <= defs.len(),
        pointer == 4 || pointer == 8,
    ensures
        values_bytes(values, n, pointer).len() == offset_of(defs, n, pointer),
    decreases n,
{
    if n > 0 {
        lemma_values_bytes_len(defs, values, (n - 1) as nat, pointer);
        lemma_value_bytes_len(defs[n - 1], values[n - 1], pointer);
    }
}

/// What is written is what is described: in the bytes of a record, field `i`
/// sits at `offset_of(defs, i)` and holds the bytes of value `i`. A reader
/// that goes by the description finds every field.
pub proof fn lemma_field_at_offset(
    defs: Seq<FieldDef>,
    values: Seq<FieldValue>,
    i: nat,
    pointer: nat,
)
    requires
        values_match(defs, values),
        i < defs.len(),
        pointer == 4 || pointer == 8,
    ensures
        record_bytes(values, pointer).len() == record_size(defs, pointer),
        offset_of(defs, i, pointer) + field_size(defs[i as int], pointer) <= record_size(
            defs,
            pointer,
        ),
        record_bytes(values, pointer).subrange(
            offset_of(defs, i, pointer) as int,
            (offset_of(defs, i, pointer) + field_size(defs[i as int], pointer)) as int,
        ) == value_bytes(values[i as int], pointer),
{
    lemma_values_bytes_len(defs, values, defs.len(), pointer);
    lemma_field_in_prefix(defs, values, i, defs.len(), pointer);
}

proof fn lemma_field_in_prefix(
    defs: Seq<FieldDef>,
    values: Seq<FieldValue>,
    i: nat,
    n: nat,
    pointer: nat,
)
    requires
        values_match(defs, values),
        i < n <= defs.len(),
        pointer == 4 || pointer == 8,
    ensures
        offset_of(defs, i, pointer) + field_size(defs[i as int], pointer) <= offset_of(
            defs,
            n,
            pointer,
        ),
        values_bytes(values, n, pointer).subrange(
            offset_of(defs, i, pointer) as int,
            (offset_of(defs, i, pointer) + field_size(defs[i as int], pointer)) as int,
        ) == value_bytes(values[i as int], pointer),
    decreases n,
{
    let before = values_bytes(values, (n - 1) as nat, pointer);
    let last = value_bytes(values[n - 1], pointer);
    lemma_values_bytes_len(defs, values, (n - 1) as nat, pointer);
    lemma_value_bytes_len(defs[n - 1], values[n - 1], pointer);
    let from = offset_of(defs, i, pointer) as int;
    let to = from + field_size(defs[i as int], pointer);
    if i == n - 1 {
        assert((before + last).subrange(from, to) =~= last);
    } else {
        lemma_field_in_prefix(defs, values, i, (n - 1) as nat, pointer);
        assert((before + last).subrange(from, to) =~= before.subrange(from, to));
    }
}

/// No field lies further in than eight bytes for each field before it.
pub proof fn lemma_offset_bound(defs: Seq<FieldDef>, i: nat, pointer: nat)
    requires
        pointer == 4 || pointer == 8,
    ensures
        offset_of(defs, i, pointer) <= 8 * i,
    decreases i,
{
    if i > 0 {
        lemma_offset_bound(defs, (i - 1) as nat, pointer);
    }
}

/// The width of a pointer of this build, in bytes.
pub fn pointer_size() -> (n: usize)
    ensures
        n == pointer_width(),
        n == 4 || n == 8,
{
    broadcast use vstd::layout::layout_of_primitives;

    core::mem::size_of::<usize>()
}

/// The size in bytes of a field of the given kind, in this build.
pub fn width_of(kind: FieldKind) -> (width: usize)
    ensures
        width == kind_width(kind, pointer_width()),
        width == 4 || width == 8,
{
    match kind {
        FieldKind::Pointer => pointer_size(),
        _ => 4,
    }
}

/// The size in bytes of a record with the given fields, in this build.
pub fn measure(defs: &[FieldDef]) -> (size: usize)
    requires
        8 * defs@.len() <= usize::MAX,
    ensures
        size == record_size(defs@, pointer_width()),
        size <= 8 * defs@.len(),
{
    let mut size: usize = 0;
    let mut i: usize = 0;
    while i < defs.len()
        invariant
            i <= defs.len(),
            8 * defs@.len() <= usize::MAX,
            size == offset_of(defs@, i as nat, pointer_width()),
            size <= 8 * i,
        decreases defs.len() - i,
    {
        size = size + width_of(defs[i].kind);
        i = i + 1;
    }
    size
}

/// Writes a pointer-wide number.
pub fn write_pointer(arena: &mut Arena, value: usize)
    requires
        old(arena).wf(),
    ensures
        final(arena).wf(),
        final(arena).spec_granularity() == old(arena).spec_granularity(),
        final(arena).written() == old(arena).written() + pointer_bytes(value, pointer_width()),
{
    if pointer_size() == 8 {
        let wide: u64 = value as u64;
        arena.write_u32((wide % 0x1_0000_0000) as u32);
        arena.write_u32((wide / 0x1_0000_0000) as u32);
        assert(arena.written() =~= old(arena).written() + pointer_bytes(value, pointer_width()));
    } else {
        arena.write_u32(value as u32);
    }
}

/// Writes the fields of a record, one after the other.
pub fn write_values(arena: &mut Arena, values: &[FieldValue])
    requires
        old(arena).wf(),
    ensures
        final(arena).wf(),
        final(arena).spec_granularity() == old(arena).spec_granularity(),
        final(arena).written() == old(arena).written() + record_bytes(values@, pointer_width()),
{
    let mut i: usize = 0;
    assert(arena.written() =~= old(arena).written() + values_bytes(values@, 0, pointer_width()));
    while i < values.len()
        invariant
            i <= values.len(),
            arena.wf(),
            arena.spec_granularity() == old(arena).spec_granularity(),
            arena.written() == old(arena).written() + values_bytes(
                values@,
                i as nat,
                pointer_width(),
            ),
        decreases values.len() - i,
    {
        match &values[i] {
            FieldValue::Uint32(v) => {
                arena.write_u32(*v);
            },
            FieldValue::Pointer(v) => {
                write_pointer(arena, *v);
            },
            FieldValue::Float32(bits) => {
                arena.write_u32(*bits);
            },
        }
        i = i + 1;
        assert(arena.written() =~= old(arena).written() + values_bytes(
            values@,
            i as nat,
            pointer_width(),
        ));
    }
}

} // verus!
