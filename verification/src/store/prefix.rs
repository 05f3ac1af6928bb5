//! A reader goes by what it has read: what it finds does not change when
//! more bytes follow, and it never reads past the end. So a snapshot that
//! was cut short is never read as a whole one.

use crate::bytes::u32_value;
use crate::record::Record;
use crate::store::{
    array_parse, bool_parse, byte_array_parse, bytes_entries_parse, bytes_map_parse, bytes_parse,
    entity_parse, option_parse, record_entries_parse, record_map_parse, record_parse,
    records_parse, records_size, str_parse, u32_parse, StoreLoad,
};
use vstd::prelude::*;

verus! {

/// The first bytes of a run do not change when more follow.
pub proof fn lemma_front_kept(bytes: Seq<u8>, rest: Seq<u8>, at: int, to: int)
    requires
        0 <= at <= to <= bytes.len(),
    ensures
        (bytes + rest).subrange(at, to) == bytes.subrange(at, to),
        (bytes + rest).skip(at) == bytes.skip(at) + rest,
        to - at >= 4 ==> u32_value((bytes + rest).skip(at)) == u32_value(bytes.skip(at)),
{
    assert((bytes + rest).subrange(at, to) =~= bytes.subrange(at, to));
    assert((bytes + rest).skip(at) =~= bytes.skip(at) + rest);
}

/// A word that was read stays as it is when more bytes follow.
pub proof fn lemma_u32_steady(bytes: Seq<u8>, rest: Seq<u8>)
    requires
        u32_parse(bytes) is Some,
    ensures
        u32_parse(bytes).unwrap().1 <= bytes.len(),
        u32_parse(bytes + rest) == u32_parse(bytes),
{
}

/// A truth value that was read stays as it is when more bytes follow.
pub proof fn lemma_bool_steady(bytes: Seq<u8>, rest: Seq<u8>)
    requires
        bool_parse(bytes) is Some,
    ensures
        bool_parse(bytes).unwrap().1 <= bytes.len(),
        bool_parse(bytes + rest) == bool_parse(bytes),
{
}

/// A record that was read stays as it is when more bytes follow.
pub proof fn lemma_record_steady<T: Record>(bytes: Seq<u8>, rest: Seq<u8>)
    requires
        record_parse::<T>(bytes) is Some,
    ensures
        record_parse::<T>(bytes).unwrap().1 <= bytes.len(),
        record_parse::<T>(bytes + rest) == record_parse::<T>(bytes),
{
    let size = 4 * T::spec_word_count();
    lemma_front_kept(bytes, rest, 0, size as int);
}

/// A value that may be absent, once read, stays as it is when more bytes
/// follow.
pub proof fn lemma_option_steady<T: Record>(bytes: Seq<u8>, rest: Seq<u8>)
    requires
        option_parse::<T>(bytes) is Some,
    ensures
        option_parse::<T>(bytes).unwrap().1 <= bytes.len(),
        option_parse::<T>(bytes + rest) == option_parse::<T>(bytes),
{
    lemma_front_kept(bytes, rest, 4, bytes.len() as int);
    if u32_value(bytes) > 0 {
        lemma_record_steady::<T>(bytes.skip(4), rest);
    }
}

/// A handle that may be absent, once read, stays as it is when more bytes
/// follow.
pub proof fn lemma_entity_steady(bytes: Seq<u8>, rest: Seq<u8>)
    requires
        entity_parse(bytes) is Some,
    ensures
        entity_parse(bytes).unwrap().1 <= bytes.len(),
        entity_parse(bytes + rest) == entity_parse(bytes),
{
    lemma_front_kept(bytes, rest, 4, bytes.len() as int);
}

/// Records that were read stay as they are when more bytes follow.
pub proof fn lemma_records_steady<T: Record>(bytes: Seq<u8>, rest: Seq<u8>, count: nat)
    requires
        records_size::<T>(count) <= bytes.len(),
    ensures
        records_parse::<T>(bytes + rest, count) == records_parse::<T>(bytes, count),
    decreases count,
{
    if count > 0 {
        let before = (count - 1) as nat;
        let at = 4 * T::spec_word_count() * before;
        assert(at + 4 * T::spec_word_count() == records_size::<T>(count)) by (nonlinear_arith)
            requires
                at == 4 * T::spec_word_count() * before,
                before == count - 1,
                records_size::<T>(count) == 4 * T::spec_word_count() * count,
        ;
        lemma_records_steady::<T>(bytes, rest, before);
        lemma_front_kept(bytes, rest, at as int, bytes.len() as int);
        let tail = bytes.skip(at as int);
        assert(tail.len() >= 4 * T::spec_word_count());
        lemma_front_kept(tail, rest, 0, (4 * T::spec_word_count()) as int);
    }
}

/// An array that was read stays as it is when more bytes follow.
pub proof fn lemma_array_steady<T: Record>(bytes: Seq<u8>, rest: Seq<u8>)
    requires
        array_parse::<T>(bytes) is Some,
    ensures
        array_parse::<T>(bytes).unwrap().1 <= bytes.len(),
        array_parse::<T>(bytes + rest) == array_parse::<T>(bytes),
{
    lemma_front_kept(bytes, rest, 4, bytes.len() as int);
    lemma_front_kept(bytes, rest, 8, bytes.len() as int);
    let count = u32_value(bytes) as nat;
    if count > 0 {
        lemma_records_steady::<T>(bytes.skip(8), rest, count);
    }
}

/// A run of bytes that was read stays as it is when more bytes follow.
pub proof fn lemma_bytes_steady(bytes: Seq<u8>, rest: Seq<u8>)
    requires
        bytes_parse(bytes) is Some,
    ensures
        bytes_parse(bytes).unwrap().1 <= bytes.len(),
        bytes_parse(bytes + rest) == bytes_parse(bytes),
{
    lemma_front_kept(bytes, rest, 4, bytes.len() as int);
    lemma_front_kept(bytes, rest, 8, bytes.len() as int);
    let length = u32_value(bytes) as int;
    lemma_front_kept(bytes.skip(8), rest, 0, length);
}

/// An array of bytes that was read stays as it is when more bytes follow.
pub proof fn lemma_byte_array_steady(bytes: Seq<u8>, rest: Seq<u8>)
    requires
        byte_array_parse(bytes) is Some,
    ensures
        byte_array_parse(bytes).unwrap().1 <= bytes.len(),
        byte_array_parse(bytes + rest) == byte_array_parse(bytes),
{
    if bytes.len() >= 8 && u32_value(bytes) == 0 {
    } else {
        lemma_bytes_steady(bytes, rest);
    }
}

/// A text that was read stays as it is when more bytes follow.
pub proof fn lemma_str_steady(bytes: Seq<u8>, rest: Seq<u8>)
    requires
        str_parse(bytes) is Some,
    ensures
        str_parse(bytes).unwrap().1 <= bytes.len(),
        str_parse(bytes + rest) == str_parse(bytes),
{
    lemma_bytes_steady(bytes, rest);
}

/// Entries of a map that were read stay as they are when more bytes follow.
pub proof fn lemma_record_entries_steady<T: Record>(bytes: Seq<u8>, rest: Seq<u8>, count: nat)
    requires
        record_entries_parse::<T>(bytes, count) is Some,
    ensures
        record_entries_parse::<T>(bytes, count).unwrap().1 <= bytes.len(),
        record_entries_parse::<T>(bytes + rest, count) == record_entries_parse::<T>(bytes, count),
    decreases count,
{
    if count > 0 {
        let before = (count - 1) as nat;
        lemma_record_entries_steady::<T>(bytes, rest, before);
        let used = record_entries_parse::<T>(bytes, before).unwrap().1;
        lemma_front_kept(bytes, rest, used as int, bytes.len() as int);
        lemma_str_steady(bytes.skip(used as int), rest);
        let key_used = str_parse(bytes.skip(used as int)).unwrap().1;
        lemma_front_kept(bytes, rest, (used + key_used) as int, bytes.len() as int);
        lemma_record_steady::<T>(bytes.skip((used + key_used) as int), rest);
    }
}

/// A map of records that was read stays as it is when more bytes follow.
pub proof fn lemma_record_map_steady<T: Record>(bytes: Seq<u8>, rest: Seq<u8>)
    requires
        record_map_parse::<T>(bytes) is Some,
    ensures
        record_map_parse::<T>(bytes).unwrap().1 <= bytes.len(),
        record_map_parse::<T>(bytes + rest) == record_map_parse::<T>(bytes),
{
    lemma_front_kept(bytes, rest, 4, bytes.len() as int);
    lemma_record_entries_steady::<T>(bytes.skip(4), rest, u32_value(bytes) as nat);
}

/// Entries of a map that were read stay as they are when more bytes follow.
pub proof fn lemma_bytes_entries_steady(bytes: Seq<u8>, rest: Seq<u8>, count: nat)
    requires
        bytes_entries_parse(bytes, count) is Some,
    ensures
        bytes_entries_parse(bytes, count).unwrap().1 <= bytes.len(),
        bytes_entries_parse(bytes + rest, count) == bytes_entries_parse(bytes, count),
    decreases count,
{
    if count > 0 {
        let before = (count - 1) as nat;
        lemma_bytes_entries_steady(bytes, rest, before);
        let used = bytes_entries_parse(bytes, before).unwrap().1;
        lemma_front_kept(bytes, rest, used as int, bytes.len() as int);
        lemma_str_steady(bytes.skip(used as int), rest);
        let key_used = str_parse(bytes.skip(used as int)).unwrap().1;
        lemma_front_kept(bytes, rest, (used + key_used) as int, bytes.len() as int);
        lemma_byte_array_steady(bytes.skip((used + key_used) as int), rest);
    }
}

/// A map of arrays of bytes that was read stays as it is when more bytes
/// follow.
pub proof fn lemma_bytes_map_steady(bytes: Seq<u8>, rest: Seq<u8>)
    requires
        bytes_map_parse(bytes) is Some,
    ensures
        bytes_map_parse(bytes).unwrap().1 <= bytes.len(),
        bytes_map_parse(bytes + rest) == bytes_map_parse(bytes),
{
    lemma_front_kept(bytes, rest, 4, bytes.len() as int);
    lemma_bytes_entries_steady(bytes.skip(4), rest, u32_value(bytes) as nat);
}

/// A stored value that was cut short is not read, wherever it was cut.
pub proof fn lemma_cut_short<T: StoreLoad>(value: T, n: int)
    requires
        value.storable(),
        0 <= n < value.stored().len(),
    ensures
        T::parse(value.stored().subrange(0, n)) is None,
{
    let whole = value.stored();
    let front = whole.subrange(0, n);
    let back = whole.subrange(n, whole.len() as int);
    if T::parse(front) is Some {
        T::lemma_steady(front, back);
        assert(front + back =~= whole);
        value.lemma_round_trip(Seq::empty());
        assert(whole + Seq::<u8>::empty() =~= whole);
    }
}

} // verus!
