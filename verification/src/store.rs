//! The snapshot codec: the whole state as one run of bytes, and back.
//!
//! A snapshot has no type tags. The reader asks for the same kinds of value,
//! in the same order, as the writer wrote them.

use crate::arena::Arena;
use crate::bytes::{
    bytes_words, get_u32, get_words, u32_bytes, u32_value, words_bytes, zeros,
};
use crate::entity::Entity;
use crate::error::{Error, ErrorKind};
use crate::record::Record;
use crate::shared::{align_up, lemma_round_up_bounds, round_up};
use crate::string_map::{pairs_map, StringMap};
use vstd::arithmetic::power2::is_pow2;
use vstd::prelude::*;
use vstd::string::StringSliceAdditionalSpecFns;
use vstd::utf8::{decode_utf8, encode_utf8, valid_utf8};

pub mod laws;
pub mod prefix;

verus! {

pub const U32_SIZE: usize = 4;

pub const MIN_ALIGN: usize = U32_SIZE;

/// The longest run of bytes that an array or a text may hold: its length,
/// rounded up to whole words, has to fit the 32-bit header.
pub const MAX_BYTES: usize = 0xFFFF_FFFC;

/// What is stored for a record: its words.
pub open spec fn record_stored<T: Record>(value: T) -> Seq<u8> {
    words_bytes(value.words(), value.words().len())
}

/// What is stored for a truth value: a word, 1 or 0.
pub open spec fn bool_stored(value: bool) -> Seq<u8> {
    u32_bytes(
        if value {
            1
        } else {
            0
        },
    )
}

/// What is stored for a value that may be absent: a word that says whether
/// it is there, and the value only if it is.
pub open spec fn option_stored<T: Record>(value: Option<T>) -> Seq<u8> {
    match value {
        Some(v) => u32_bytes(1) + record_stored(v),
        None => u32_bytes(0),
    }
}

/// The first `n` records, end to end.
pub open spec fn records_stored<T: Record>(values: Seq<T>, n: nat) -> Seq<u8>
    decreases n,
{
    if n == 0 {
        Seq::empty()
    } else {
        records_stored(values, (n - 1) as nat) + record_stored(values[n - 1])
    }
}

/// The size of `count` records in bytes.
pub open spec fn records_size<T: Record>(count: nat) -> nat {
    4 * T::spec_word_count() * count
}

/// What is stored for an array of records: the count, the size in bytes,
/// and the records.
pub open spec fn array_stored<T: Record>(values: Seq<T>) -> Seq<u8> {
    u32_bytes(values.len() as u32) + u32_bytes(records_size::<T>(values.len()) as u32)
        + records_stored(values, values.len())
}

/// The zeros that follow `len` bytes to fill the last word.
pub open spec fn padding(len: nat) -> nat {
    (round_up(len as int, 4) - len) as nat
}

/// What is stored for a run of bytes: its length, its length rounded up to
/// whole words, the bytes, and zeros to fill the last word.
pub open spec fn bytes_stored(bytes: Seq<u8>) -> Seq<u8> {
    u32_bytes(bytes.len() as u32) + u32_bytes(round_up(bytes.len() as int, 4) as u32) + bytes
        + zeros(padding(bytes.len()))
}

/// What is stored for a text: its UTF-8 bytes, as a run of bytes.
pub open spec fn str_stored(text: Seq<char>) -> Seq<u8> {
    bytes_stored(encode_utf8(text))
}

/// What is stored for a handle that may be absent: the index and the
/// generation, a word each. Two zeros stand for no handle.
pub open spec fn entity_stored(value: Option<Entity>) -> Seq<u8> {
    match value {
        Some(e) => u32_bytes(e.spec_id()) + u32_bytes(e.spec_generation()),
        None => u32_bytes(0) + u32_bytes(0),
    }
}

/// The first `n` entries of a map from text to records: each key as a text,
/// then its value.
pub open spec fn record_entries_stored<T: Record>(pairs: Seq<(Seq<char>, T)>, n: nat) -> Seq<u8>
    decreases n,
{
    if n == 0 {
        Seq::empty()
    } else {
        record_entries_stored(pairs, (n - 1) as nat) + str_stored(pairs[n - 1].0) + record_stored(
            pairs[n - 1].1,
        )
    }
}

/// What is stored for a map from text to records: the count and the entries.
pub open spec fn record_map_stored<T: Record>(pairs: Seq<(Seq<char>, T)>) -> Seq<u8> {
    u32_bytes(pairs.len() as u32) + record_entries_stored(pairs, pairs.len())
}

/// The first `n` entries of a map from text to runs of bytes.
pub open spec fn bytes_entries_stored(pairs: Seq<(Seq<char>, Vec<u8>)>, n: nat) -> Seq<u8>
    decreases n,
{
    if n == 0 {
        Seq::empty()
    } else {
        bytes_entries_stored(pairs, (n - 1) as nat) + str_stored(pairs[n - 1].0) + bytes_stored(
            pairs[n - 1].1@,
        )
    }
}

/// What is stored for a map from text to runs of bytes.
pub open spec fn bytes_map_stored(pairs: Seq<(Seq<char>, Vec<u8>)>) -> Seq<u8> {
    u32_bytes(pairs.len() as u32) + bytes_entries_stored(pairs, pairs.len())
}

/// Every key and every value of the first `n` entries fits a header.
pub open spec fn entries_fit(pairs: Seq<(Seq<char>, Vec<u8>)>, n: nat) -> bool {
    forall|i: int|
        0 <= i < n ==> encode_utf8((#[trigger] pairs[i]).0).len() <= MAX_BYTES
            && pairs[i].1@.len() <= MAX_BYTES
}

/// Every key of the first `n` entries fits a header.
pub open spec fn keys_fit<T>(pairs: Seq<(Seq<char>, T)>, n: nat) -> bool {
    forall|i: int| 0 <= i < n ==> encode_utf8((#[trigger] pairs[i]).0).len() <= MAX_BYTES
}

/// `length` rounded up to whole words.
pub fn pad_length(length: usize) -> (padded: usize)
    requires
        length <= MAX_BYTES,
    ensures
        padded == round_up(length as int, 4),
        padded % 4 == 0,
        length <= padded < length + 4,
        padded - length == padding(length as nat),
{
    proof {
        assert(is_pow2(4)) by {
            reveal_with_fuel(is_pow2, 3);
        }
        lemma_round_up_bounds(length as int, 4);
    }
    align_up(length, MIN_ALIGN)
}

/// A part of the state that goes into a snapshot and comes back from it.
pub trait StoreLoad: Sized {
    /// What a snapshot keeps of a value.
    type Kept;

    /// What a snapshot keeps of this value.
    spec fn kept(&self) -> Self::Kept;

    /// The value is in order.
    spec fn valid(&self) -> bool;

    /// The value is in order, and every array and text in it is short enough
    /// for the 32-bit headers of a snapshot.
    spec fn storable(&self) -> bool;

    /// The bytes that are written for this value.
    spec fn stored(&self) -> Seq<u8>;

    /// What a value that was just read holds in the parts that a snapshot
    /// does not keep: they are as in a value at its start.
    spec fn loaded(&self) -> bool;

    /// What a reader finds where a value of this type is due: what was kept,
    /// and how far it reads.
    spec fn parse(bytes: Seq<u8>) -> Option<(Self::Kept, nat)>;

    /// What was written is what is read: from the stored form of a value a
    /// reader gets what the snapshot keeps of it, whatever follows, and
    /// stops where the stored form ends.
    proof fn lemma_round_trip(&self, rest: Seq<u8>)
        requires
            self.storable(),
        ensures
            self.valid(),
            Self::parse(self.stored() + rest) == Some((self.kept(), self.stored().len())),
    ;

    /// What a reader has found stays as it is when more bytes follow, and
    /// lies within the bytes that were there.
    proof fn lemma_steady(bytes: Seq<u8>, rest: Seq<u8>)
        requires
            Self::parse(bytes) is Some,
        ensures
            Self::parse(bytes).unwrap().1 <= bytes.len(),
            Self::parse(bytes + rest) == Self::parse(bytes),
    ;

    /// Writes the value.
    fn store(&mut self, writer: &mut StoreWriter)
        requires
            old(self).storable(),
            old(writer).wf(),
        ensures
            final(writer).wf(),
            final(writer)@ == old(writer)@ + old(self).stored(),
            final(self).storable(),
            final(self).kept() == old(self).kept(),
            final(self).stored() == old(self).stored(),
    ;

    /// Reads a value, or finds the snapshot corrupt.
    fn load(reader: &mut StoreReader) -> (result: Result<Self, Error>)
        requires
            old(reader).wf(),
        ensures
            final(reader).wf(),
            final(reader).source() == old(reader).source(),
            advanced(
                old(reader).remaining(),
                final(reader).remaining(),
                Self::parse(old(reader).remaining()),
            ),
            match Self::parse(old(reader).remaining()) {
                Some((kept, _)) => result matches Ok(value) && value.valid() && value.kept()
                    == kept && value.loaded(),
                None => corrupt(result),
            },
    ;
}

proof fn lemma_run_written(
    start: Seq<u8>,
    length_word: Seq<u8>,
    padded_word: Seq<u8>,
    values: Seq<u8>,
    fill: Seq<u8>,
)
    ensures
        start + length_word + padded_word + values + fill == start + (length_word + padded_word
            + values + fill),
{
    assert(start + length_word + padded_word + values + fill =~= start + (length_word
        + padded_word + values + fill));
}

/// The length of the storage that a writer starts with: 1 MiB.
pub const FIRST_STORAGE: usize = 0x10_0000;

/// The step by which the storage of a writer grows: 64 KiB.
pub const GROWTH_STEP: usize = 0x1_0000;

/// Writes a snapshot. What has been written is a whole number of words at
/// any time.
pub struct StoreWriter {
    arena: Arena,
}

impl View for StoreWriter {
    type V = Seq<u8>;

    /// The bytes written so far.
    closed spec fn view(&self) -> Seq<u8> {
        self.arena.written()
    }
}

impl StoreWriter {
    /// The arena is in order, holds whole words, and grows by `GROWTH_STEP`.
    pub closed spec fn wf(&self) -> bool {
        &&& self.arena.wf()
        &&& self.arena.written().len() % 4 == 0
        &&& self.arena.spec_granularity() == GROWTH_STEP
    }

    /// The length of the storage: what is written, and the room that is
    /// left.
    pub closed spec fn spec_capacity(&self) -> nat {
        self.arena.spec_capacity()
    }

    /// The step by which the storage grows.
    pub closed spec fn spec_granularity(&self) -> nat {
        self.arena.spec_granularity()
    }

    /// What is written is a whole number of words and lies inside the
    /// storage, and the storage grows by `GROWTH_STEP`.
    pub proof fn lemma_cursor_inside(&self)
        requires
            self.wf(),
        ensures
            self@.len() % 4 == 0,
            self@.len() <= self.spec_capacity(),
            self.spec_granularity() == GROWTH_STEP,
    {
        self.arena.lemma_cursor_inside();
    }

    /// A writer that has written nothing.
    pub fn new() -> (writer: Self)
        ensures
            writer.wf(),
            writer@ == Seq::<u8>::empty(),
            writer.spec_capacity() == FIRST_STORAGE,
    {
        proof {
            reveal_with_fuel(is_pow2, 17);
        }
        StoreWriter { arena: Arena::new(FIRST_STORAGE, GROWTH_STEP) }
    }

    /// The snapshot: all that was written.
    pub fn data(self) -> (bytes: Vec<u8>)
        requires
            self.wf(),
        ensures
            bytes@ == self@,
    {
        vstd::slice::slice_to_vec(self.arena.as_slice())
    }

    /// The number of bytes written so far, a multiple of four.
    pub fn cursor(&self) -> (n: usize)
        requires
            self.wf(),
        ensures
            n == self@.len(),
            n % 4 == 0,
    {
        self.arena.cursor()
    }

    /// Writes a record.
    pub fn write<T: Record>(&mut self, value: &T)
        requires
            old(self).wf(),
        ensures
            final(self).wf(),
            final(self).spec_capacity() >= old(self).spec_capacity(),
            final(self)@ == old(self)@ + record_stored(*value),
    {
        let words = value.to_words();
        proof {
            crate::bytes::lemma_words_bytes_len(words@, words@.len());
        }
        self.arena.write_words(words.as_slice());
    }

    /// Writes a value that may be absent. An absent value takes one word.
    pub fn write_option<T: Record>(&mut self, op_value: &Option<T>)
        requires
            old(self).wf(),
        ensures
            final(self).wf(),
            final(self).spec_capacity() >= old(self).spec_capacity(),
            final(self)@ == old(self)@ + option_stored(*op_value),
    {
        match op_value {
            Some(value) => {
                self.write_u32(1);
                self.write(value);
                assert(self@ =~= old(self)@ + option_stored(*op_value));
            },
            None => {
                self.write_u32(0);
            },
        }
    }

    /// Writes an array of records. An empty array takes two words.
    pub fn write_array<T: Record>(&mut self, values: &[T])
        requires
            old(self).wf(),
            records_size::<T>(values@.len()) <= MAX_BYTES,
        ensures
            final(self).wf(),
            final(self).spec_capacity() >= old(self).spec_capacity(),
            final(self)@ == old(self)@ + array_stored(values@),
            final(self)@.len() % 4 == 0,
    {
        let values_count: usize = values.len();
        proof {
            T::lemma_word_count();
        }
        let record_size: usize = 4 * T::word_count();
        proof {
            assert(values_count <= record_size * values_count == records_size::<T>(
                values_count as nat,
            )) by (nonlinear_arith)
                requires
                    0 < T::spec_word_count(),
                    record_size == 4 * T::spec_word_count(),
            ;
        }
        let values_size: usize = record_size * values_count;
        self.write_u32(values_count as u32);
        self.write_u32(values_size as u32);
        let ghost head = self@;
        assert(head =~= old(self)@ + (u32_bytes(values_count as u32) + u32_bytes(
            values_size as u32,
        )));
        let mut i: usize = 0;
        assert(self@ =~= head + records_stored(values@, 0));
        while i < values_count
            invariant
                i <= values_count,
                values_count == values@.len(),
                self.wf(),
                self.spec_capacity() >= old(self).spec_capacity(),
                self@ == head + records_stored(values@, i as nat),
            decreases values_count - i,
        {
            self.write(&values[i]);
            i = i + 1;
            assert(self@ =~= head + records_stored(values@, i as nat));
        }
        assert(self@ =~= old(self)@ + array_stored(values@));
    }

    /// Writes a run of bytes, filled up with zeros to whole words.
    pub fn write_byte_array(&mut self, values: &[u8])
        requires
            old(self).wf(),
            values@.len() <= MAX_BYTES,
        ensures
            final(self).wf(),
            final(self).spec_capacity() >= old(self).spec_capacity(),
            final(self)@ == old(self)@ + bytes_stored(values@),
            final(self)@.len() % 4 == 0,
    {
        let length: usize = values.len();
        let padded_length: usize = pad_length(length);
        self.write_u32(length as u32);
        self.write_u32(padded_length as u32);
        self.write_padded(values, padded_length - length);
        proof {
            lemma_run_written(
                old(self)@,
                u32_bytes(length as u32),
                u32_bytes(padded_length as u32),
                values@,
                zeros((padded_length - length) as nat),
            );
        }
    }

    fn write_padded(&mut self, values: &[u8], fill: usize)
        requires
            old(self).wf(),
            (values@.len() + fill) % 4 == 0,
        ensures
            final(self).wf(),
            final(self).spec_capacity() >= old(self).spec_capacity(),
            final(self)@ == old(self)@ + values@ + zeros(fill as nat),
    {
        self.arena.write_bytes(values);
        self.arena.write_zeros(fill);
        assert(self.arena.written().len() == old(self).arena.written().len() + values@.len()
            + fill);
    }

    /// Writes a text: its UTF-8 bytes, filled up with zeros to whole words.
    pub fn write_str(&mut self, value: &str)
        requires
            old(self).wf(),
            encode_utf8(value@).len() <= MAX_BYTES,
        ensures
            final(self).wf(),
            final(self).spec_capacity() >= old(self).spec_capacity(),
            final(self)@ == old(self)@ + str_stored(value@),
            final(self)@.len() % 4 == 0,
    {
        self.write_byte_array(value.as_bytes());
    }

    /// Writes a map from text to records: the count, then each key with its
    /// value, in the order of the entries.
    pub fn write_string_hashmap<T: Record>(&mut self, values: &StringMap<T>)
        requires
            old(self).wf(),
            values.pairs().len() <= u32::MAX,
            keys_fit(values.pairs(), values.pairs().len()),
        ensures
            final(self).wf(),
            final(self).spec_capacity() >= old(self).spec_capacity(),
            final(self)@ == old(self)@ + record_map_stored(values.pairs()),
    {
        let values_count: usize = values.len();
        self.write_u32(values_count as u32);
        let ghost head = self@;
        let ghost pairs = values.pairs();
        let mut i: usize = 0;
        assert(self@ =~= head + record_entries_stored(pairs, 0));
        while i < values_count
            invariant
                i <= values_count,
                values_count == pairs.len(),
                pairs == values.pairs(),
                keys_fit(pairs, pairs.len()),
                self.wf(),
                self.spec_capacity() >= old(self).spec_capacity(),
                self@ == head + record_entries_stored(pairs, i as nat),
            decreases values_count - i,
        {
            assert(encode_utf8(pairs[i as int].0).len() <= MAX_BYTES);
            self.write_str(values.key(i));
            self.write(values.value(i));
            i = i + 1;
            assert(self@ =~= head + record_entries_stored(pairs, i as nat));
        }
        assert(self@ =~= old(self)@ + record_map_stored(pairs));
    }

    /// Writes a map from text to runs of bytes.
    pub fn write_string_array_hashmap(&mut self, values: &StringMap<Vec<u8>>)
        requires
            old(self).wf(),
            values.pairs().len() <= u32::MAX,
            entries_fit(values.pairs(), values.pairs().len()),
        ensures
            final(self).wf(),
            final(self).spec_capacity() >= old(self).spec_capacity(),
            final(self)@ == old(self)@ + bytes_map_stored(values.pairs()),
    {
        let values_count: usize = values.len();
        self.write_u32(values_count as u32);
        let ghost head = self@;
        let ghost pairs = values.pairs();
        let mut i: usize = 0;
        assert(self@ =~= head + bytes_entries_stored(pairs, 0));
        while i < values_count
            invariant
                i <= values_count,
                values_count == pairs.len(),
                pairs == values.pairs(),
                entries_fit(pairs, pairs.len()),
                self.wf(),
                self.spec_capacity() >= old(self).spec_capacity(),
                self@ == head + bytes_entries_stored(pairs, i as nat),
            decreases values_count - i,
        {
            assert(encode_utf8(pairs[i as int].0).len() <= MAX_BYTES);
            self.write_str(values.key(i));
            self.write_byte_array(values.value(i).as_slice());
            i = i + 1;
            assert(self@ =~= head + bytes_entries_stored(pairs, i as nat));
        }
        assert(self@ =~= old(self)@ + bytes_map_stored(pairs));
    }

    /// Writes a truth value as a word.
    pub fn write_bool(&mut self, value: bool)
        requires
            old(self).wf(),
        ensures
            final(self).wf(),
            final(self).spec_capacity() >= old(self).spec_capacity(),
            final(self)@ == old(self)@ + bool_stored(value),
    {
        self.write_u32(
            if value {
                1
            } else {
                0
            },
        )
    }

    /// Writes a handle that may be absent, as two words.
    pub fn write_entity_option(&mut self, value: Option<Entity>)
        requires
            old(self).wf(),
        ensures
            final(self).wf(),
            final(self).spec_capacity() >= old(self).spec_capacity(),
            final(self)@ == old(self)@ + entity_stored(value),
    {
        match value {
            Some(entity) => {
                self.write_u32(entity.id());
                self.write_u32(entity.generation());
            },
            None => {
                self.write_u32(0);
                self.write_u32(0);
            },
        }
        assert(self@ =~= old(self)@ + entity_stored(value));
    }

    fn write_u32(&mut self, value: u32)
        requires
            old(self).wf(),
        ensures
            final(self).wf(),
            final(self).spec_capacity() >= old(self).spec_capacity(),
            final(self)@ == old(self)@ + u32_bytes(value),
    {
        self.arena.write_u32(value);
    }
}

/// What a reader finds where a record is due: the record and its size, or
/// nothing if the bytes run out or are no legal pattern.
pub open spec fn record_parse<T: Record>(bytes: Seq<u8>) -> Option<(T, nat)> {
    let size = 4 * T::spec_word_count();
    if bytes.len() < size {
        None
    } else {
        match T::from_words(bytes_words(bytes.subrange(0, size as int))) {
            Some(value) => Some((value, size)),
            None => None,
        }
    }
}

/// What a reader finds where a word is due.
pub open spec fn u32_parse(bytes: Seq<u8>) -> Option<(u32, nat)> {
    if bytes.len() < 4 {
        None
    } else {
        Some((u32_value(bytes), 4))
    }
}

/// What a reader finds where a truth value is due: true for the word 1.
pub open spec fn bool_parse(bytes: Seq<u8>) -> Option<(bool, nat)> {
    if bytes.len() < 4 {
        None
    } else {
        Some((u32_value(bytes) == 1, 4))
    }
}

/// What a reader finds where a value that may be absent is due.
pub open spec fn option_parse<T: Record>(bytes: Seq<u8>) -> Option<(Option<T>, nat)> {
    if bytes.len() < 4 {
        None
    } else if u32_value(bytes) > 0 {
        match record_parse::<T>(bytes.skip(4)) {
            Some((value, used)) => Some((Some(value), 4 + used)),
            None => None,
        }
    } else {
        Some((None, 4))
    }
}

/// What a reader finds where a handle that may be absent is due: none for
/// two zeros, a handle where the generation is not zero, and nothing
/// otherwise.
pub open spec fn entity_parse(bytes: Seq<u8>) -> Option<(Option<(u32, u32)>, nat)> {
    if bytes.len() < 8 {
        None
    } else {
        let id = u32_value(bytes);
        let generation = u32_value(bytes.skip(4));
        if id == 0 && generation == 0 {
            Some((None, 8))
        } else if generation == 0 {
            None
        } else {
            Some((Some((id, generation)), 8))
        }
    }
}

/// The first `count` records that lie end to end in `bytes`, if there are
/// that many and each is a legal pattern.
pub open spec fn records_parse<T: Record>(bytes: Seq<u8>, count: nat) -> Option<Seq<T>>
    decreases count,
{
    if count == 0 {
        Some(Seq::empty())
    } else {
        match records_parse::<T>(bytes, (count - 1) as nat) {
            Some(values) => match record_parse::<T>(
                bytes.skip(4 * T::spec_word_count() * (count - 1)),
            ) {
                Some((value, _)) => Some(values.push(value)),
                None => None,
            },
            None => None,
        }
    }
}

/// What a reader finds where an array of records is due. It goes on after
/// as many bytes as the header gives as the size.
pub open spec fn array_parse<T: Record>(bytes: Seq<u8>) -> Option<(Seq<T>, nat)> {
    if bytes.len() < 8 {
        None
    } else {
        let count = u32_value(bytes) as nat;
        let padded = u32_value(bytes.skip(4)) as nat;
        let body = bytes.skip(8);
        if count == 0 {
            Some((Seq::empty(), 8))
        } else if records_size::<T>(count) > body.len() || padded > body.len() {
            None
        } else {
            match records_parse::<T>(body, count) {
                Some(values) => Some((values, 8 + padded)),
                None => None,
            }
        }
    }
}

/// What a reader finds where a run of bytes is due that is read as a text.
pub open spec fn bytes_parse(bytes: Seq<u8>) -> Option<(Seq<u8>, nat)> {
    if bytes.len() < 8 {
        None
    } else {
        let length = u32_value(bytes) as nat;
        let padded = u32_value(bytes.skip(4)) as nat;
        let body = bytes.skip(8);
        if length > body.len() || padded > body.len() {
            None
        } else {
            Some((body.subrange(0, length as int), 8 + padded))
        }
    }
}

/// What a reader finds where an array of bytes is due. An empty array ends
/// with its header.
pub open spec fn byte_array_parse(bytes: Seq<u8>) -> Option<(Seq<u8>, nat)> {
    if bytes.len() >= 8 && u32_value(bytes) == 0 {
        Some((Seq::empty(), 8))
    } else {
        bytes_parse(bytes)
    }
}

/// The text that bytes are read as: what they say in UTF-8, or a fixed text
/// in place of bytes that say nothing.
pub open spec fn text_of(bytes: Seq<u8>) -> Seq<char> {
    if valid_utf8(bytes) {
        decode_utf8(bytes)
    } else {
        "UTF8 DECODING ERROR"@
    }
}

/// What a reader finds where a text is due.
pub open spec fn str_parse(bytes: Seq<u8>) -> Option<(Seq<char>, nat)> {
    match bytes_parse(bytes) {
        Some((body, used)) => Some((text_of(body), used)),
        None => None,
    }
}

/// The first `count` entries of a map from text to records, and their size.
pub open spec fn record_entries_parse<T: Record>(bytes: Seq<u8>, count: nat) -> Option<
    (Seq<(Seq<char>, T)>, nat),
>
    decreases count,
{
    if count == 0 {
        Some((Seq::empty(), 0))
    } else {
        match record_entries_parse::<T>(bytes, (count - 1) as nat) {
            Some((pairs, used)) => if used > bytes.len() {
                None
            } else {
                match str_parse(bytes.skip(used as int)) {
                    Some((key, key_used)) => if used + key_used > bytes.len() {
                        None
                    } else {
                        match record_parse::<T>(bytes.skip((used + key_used) as int)) {
                            Some((value, value_used)) => Some(
                                (pairs.push((key, value)), used + key_used + value_used),
                            ),
                            None => None,
                        }
                    },
                    None => None,
                }
            },
            None => None,
        }
    }
}

/// What a reader finds where a map from text to records is due.
pub open spec fn record_map_parse<T: Record>(bytes: Seq<u8>) -> Option<
    (Seq<(Seq<char>, T)>, nat),
> {
    if bytes.len() < 4 {
        None
    } else {
        match record_entries_parse::<T>(bytes.skip(4), u32_value(bytes) as nat) {
            Some((pairs, used)) => Some((pairs, 4 + used)),
            None => None,
        }
    }
}

/// The first `count` entries of a map from text to arrays of bytes, and
/// their size.
pub open spec fn bytes_entries_parse(bytes: Seq<u8>, count: nat) -> Option<
    (Seq<(Seq<char>, Seq<u8>)>, nat),
>
    decreases count,
{
    if count == 0 {
        Some((Seq::empty(), 0))
    } else {
        match bytes_entries_parse(bytes, (count - 1) as nat) {
            Some((pairs, used)) => if used > bytes.len() {
                None
            } else {
                match str_parse(bytes.skip(used as int)) {
                    Some((key, key_used)) => if used + key_used > bytes.len() {
                        None
                    } else {
                        match byte_array_parse(bytes.skip((used + key_used) as int)) {
                            Some((value, value_used)) => Some(
                                (pairs.push((key, value)), used + key_used + value_used),
                            ),
                            None => None,
                        }
                    },
                    None => None,
                }
            },
            None => None,
        }
    }
}

/// What a reader finds where a map from text to arrays of bytes is due.
pub open spec fn bytes_map_parse(bytes: Seq<u8>) -> Option<(Seq<(Seq<char>, Seq<u8>)>, nat)> {
    if bytes.len() < 4 {
        None
    } else {
        match bytes_entries_parse(bytes.skip(4), u32_value(bytes) as nat) {
            Some((pairs, used)) => Some((pairs, 4 + used)),
            None => None,
        }
    }
}

/// Where the first records cannot be read, more of them cannot either.
pub proof fn lemma_records_parse_fails<T: Record>(bytes: Seq<u8>, n: nat, m: nat)
    requires
        n <= m,
        records_parse::<T>(bytes, n) is None,
    ensures
        records_parse::<T>(bytes, m) is None,
    decreases m,
{
    if n < m {
        lemma_records_parse_fails::<T>(bytes, n, (m - 1) as nat);
    }
}

/// Where the first entries cannot be read, more of them cannot either.
pub proof fn lemma_record_entries_parse_fails<T: Record>(bytes: Seq<u8>, n: nat, m: nat)
    requires
        n <= m,
        record_entries_parse::<T>(bytes, n) is None,
    ensures
        record_entries_parse::<T>(bytes, m) is None,
    decreases m,
{
    if n < m {
        lemma_record_entries_parse_fails::<T>(bytes, n, (m - 1) as nat);
    }
}

/// Where the first entries cannot be read, more of them cannot either.
pub proof fn lemma_bytes_entries_parse_fails(bytes: Seq<u8>, n: nat, m: nat)
    requires
        n <= m,
        bytes_entries_parse(bytes, n) is None,
    ensures
        bytes_entries_parse(bytes, m) is None,
    decreases m,
{
    if n < m {
        lemma_bytes_entries_parse_fails(bytes, n, (m - 1) as nat);
    }
}

/// The map from text to runs of bytes that a map from text to vectors
/// stands for.
pub open spec fn bytes_view(map: Map<Seq<char>, Vec<u8>>) -> Map<Seq<char>, Seq<u8>> {
    map.map_values(|v: Vec<u8>| v@)
}

/// To put a vector into the map is to put its bytes into the map's view.
pub proof fn lemma_bytes_view_insert(map: Map<Seq<char>, Vec<u8>>, key: Seq<char>, value: Vec<u8>)
    ensures
        bytes_view(map.insert(key, value)) == bytes_view(map).insert(key, value@),
{
    assert(bytes_view(map.insert(key, value)) =~= bytes_view(map).insert(key, value@));
}

/// Reads the text that `bytes` say in UTF-8, if they say any.
///
/// Trusted: `core::str::from_utf8` gives back the same bytes as a text if
/// they are well-formed UTF-8, and fails if they are not.
#[verifier::external_body]
fn utf8_text<'a>(bytes: &'a [u8]) -> (text: Option<&'a str>)
    ensures
        text is Some <==> valid_utf8(bytes@),
        text matches Some(s) ==> encode_utf8(s@) == bytes@,
{
    core::str::from_utf8(bytes).ok()
}

proof fn lemma_fits(count: int, size: int, room: int)
    requires
        count >= 0,
        size > 0,
        room >= 0,
    ensures
        count > room / size <==> count * size > room,
{
    vstd::arithmetic::div_mod::lemma_fundamental_div_mod(room, size);
    let q = room / size;
    if count > q {
        assert(count * size >= (q + 1) * size) by (nonlinear_arith)
            requires
                count >= q + 1,
                size > 0,
        ;
        assert((q + 1) * size == size * q + size) by (nonlinear_arith);
    } else {
        assert(count * size <= q * size) by (nonlinear_arith)
            requires
                count <= q,
                size > 0,
        ;
        assert(q * size == size * q) by (nonlinear_arith);
    }
}

/// A reader has stopped as the read asks for: past what `parsed` found,
/// where it found something.
pub open spec fn advanced<T>(before: Seq<u8>, after: Seq<u8>, parsed: Option<(T, nat)>) -> bool {
    parsed matches Some((_, used)) ==> used <= before.len() && after == before.skip(used as int)
}

/// A read has failed as a read fails: the snapshot is corrupt.
pub open spec fn corrupt<T>(result: Result<T, Error>) -> bool {
    result matches Err(e) && e.spec_kind() == ErrorKind::CorruptData
}

/// Reads a snapshot from its start.
pub struct StoreReader<'a> {
    data: &'a [u8],
    data_offset: usize,
}

impl<'a> StoreReader<'a> {
    /// The reader has not gone past the end.
    pub closed spec fn wf(&self) -> bool {
        self.data_offset <= self.data@.len()
    }

    /// The whole snapshot.
    pub closed spec fn source(&self) -> Seq<u8> {
        self.data@
    }

    /// What has not been read yet.
    pub closed spec fn remaining(&self) -> Seq<u8> {
        self.data@.skip(self.data_offset as int)
    }

    /// A reader at the start of `data`.
    pub fn new(data: &'a [u8]) -> (reader: Result<Self, Error>)
        ensures
            reader matches Ok(r) && r.wf() && r.source() == data@ && r.remaining() == data@,
    {
        let reader = StoreReader { data, data_offset: 0 };
        assert(reader.remaining() =~= data@);
        Ok(reader)
    }

    /// Reads a record.
    pub fn try_read<T: Record>(&mut self) -> (result: Result<T, Error>)
        requires
            old(self).wf(),
        ensures
            final(self).wf(),
            final(self).source() == old(self).source(),
            advanced(
                old(self).remaining(),
                final(self).remaining(),
                record_parse::<T>(old(self).remaining()),
            ),
            match record_parse::<T>(old(self).remaining()) {
                Some((value, _)) => result matches Ok(v) && v == value,
                None => corrupt(result) && final(self).remaining() == old(self).remaining(),
            },
    {
        proof {
            T::lemma_word_count();
        }
        let count: usize = T::word_count();
        let size: usize = 4 * count;
        if self.data.len() - self.data_offset < size {
            return Err(Error::corrupt_data("Failed to read data"));
        }
        let words = get_words(self.data, self.data_offset, count);
        assert(self.remaining().subrange(0, size as int) =~= self.data@.subrange(
            self.data_offset as int,
            self.data_offset + size,
        ));
        match T::try_from_words(words.as_slice()) {
            Some(value) => {
                self.data_offset = self.data_offset + size;
                assert(self.remaining() =~= old(self).remaining().skip(size as int));
                Ok(value)
            },
            None => Err(Error::corrupt_data("Failed to read data")),
        }
    }

    /// Reads a value that may be absent.
    pub fn try_read_option<T: Record>(&mut self) -> (result: Result<Option<T>, Error>)
        requires
            old(self).wf(),
        ensures
            final(self).wf(),
            final(self).source() == old(self).source(),
            advanced(
                old(self).remaining(),
                final(self).remaining(),
                option_parse::<T>(old(self).remaining()),
            ),
            match option_parse::<T>(old(self).remaining()) {
                Some((value, _)) => result matches Ok(v) && v == value,
                None => corrupt(result),
            },
    {
        let is_some: u32 = match self.read_u32() {
            Ok(word) => word,
            Err(e) => {
                return Err(e);
            },
        };
        if is_some > 0 {
            match self.try_read::<T>() {
                Ok(value) => {
                    assert(self.remaining() =~= old(self).remaining().skip(
                        4 + 4 * T::spec_word_count() as int,
                    ));
                    Ok(Some(value))
                },
                Err(e) => Err(e),
            }
        } else {
            Ok(None)
        }
    }

    /// Reads a truth value: true for the word 1.
    pub fn try_read_bool(&mut self) -> (result: Result<bool, Error>)
        requires
            old(self).wf(),
        ensures
            final(self).wf(),
            final(self).source() == old(self).source(),
            advanced(
                old(self).remaining(),
                final(self).remaining(),
                bool_parse(old(self).remaining()),
            ),
            match bool_parse(old(self).remaining()) {
                Some((value, _)) => result matches Ok(v) && v == value,
                None => corrupt(result) && final(self).remaining() == old(self).remaining(),
            },
    {
        match self.read_u32() {
            Ok(word) => Ok(word == 1),
            Err(e) => Err(e),
        }
    }

    /// Reads a handle that may be absent.
    pub fn try_read_entity_option(&mut self) -> (result: Result<Option<Entity>, Error>)
        requires
            old(self).wf(),
        ensures
            final(self).wf(),
            final(self).source() == old(self).source(),
            advanced(
                old(self).remaining(),
                final(self).remaining(),
                entity_parse(old(self).remaining()),
            ),
            match entity_parse(old(self).remaining()) {
                Some((Some((id, generation)), _)) => result matches Ok(Some(e)) && e.spec_id()
                    == id && e.spec_generation() == generation,
                Some((None, _)) => result matches Ok(None),
                None => corrupt(result),
            },
    {
        if self.data.len() - self.data_offset < 8 {
            return Err(Error::corrupt_data("Failed to read data"));
        }
        let id: u32 = get_u32(self.data, self.data_offset);
        let generation: u32 = get_u32(self.data, self.data_offset + 4);
        proof {
            let rest = self.remaining();
            crate::bytes::lemma_u32_value_prefix(rest);
            crate::bytes::lemma_u32_value_prefix(rest.skip(4));
            assert(rest.subrange(0, 4) =~= self.data@.subrange(
                self.data_offset as int,
                self.data_offset + 4,
            ));
            assert(rest.skip(4).subrange(0, 4) =~= self.data@.subrange(
                self.data_offset + 4,
                self.data_offset + 8,
            ));
        }
        if id == 0 && generation == 0 {
            self.data_offset = self.data_offset + 8;
            assert(self.remaining() =~= old(self).remaining().skip(8));
            return Ok(None);
        }
        match Entity::from_parts(id, generation) {
            Some(entity) => {
                self.data_offset = self.data_offset + 8;
                assert(self.remaining() =~= old(self).remaining().skip(8));
                Ok(Some(entity))
            },
            None => Err(Error::corrupt_data("Corrupted entity data")),
        }
    }

    /// Reads an array of records.
    pub fn read_array<T: Record>(&mut self) -> (result: Result<Vec<T>, Error>)
        requires
            old(self).wf(),
        ensures
            final(self).wf(),
            final(self).source() == old(self).source(),
            advanced(
                old(self).remaining(),
                final(self).remaining(),
                array_parse::<T>(old(self).remaining()),
            ),
            match array_parse::<T>(old(self).remaining()) {
                Some((values, _)) => result matches Ok(v) && v@ == values,
                None => corrupt(result),
            },
    {
        let offset: usize = self.data_offset;
        if self.data.len() - offset < 8 {
            return Err(Error::corrupt_data("Failed to read data"));
        }
        let count: usize = get_u32(self.data, offset) as usize;
        let padded: usize = get_u32(self.data, offset + 4) as usize;
        let ghost rest = self.remaining();
        let ghost body = rest.skip(8);
        proof {
            crate::bytes::lemma_u32_value_prefix(rest);
            crate::bytes::lemma_u32_value_prefix(rest.skip(4));
            assert(rest.subrange(0, 4) =~= self.data@.subrange(offset as int, offset + 4));
            assert(rest.skip(4).subrange(0, 4) =~= self.data@.subrange(offset + 4, offset + 8));
            assert(body =~= self.data@.skip(offset + 8));
            T::lemma_word_count();
        }
        if count == 0 {
            self.data_offset = offset + 8;
            assert(self.remaining() =~= rest.skip(8));
            return Ok(Vec::new());
        }
        let body_len: usize = self.data.len() - offset - 8;
        let words: usize = T::word_count();
        let size: usize = 4 * words;
        proof {
            lemma_fits(count as int, size as int, body_len as int);
            assert(records_size::<T>(count as nat) == count * size) by (nonlinear_arith)
                requires
                    size == 4 * T::spec_word_count(),
            ;
            assert(body.len() == body_len);
        }
        if count > body_len / size || padded > body_len {
            return Err(
                Error::corrupt_data("Malformed data. Reading array would go outside buffer"),
            );
        }
        let mut values: Vec<T> = Vec::new();
        let mut i: usize = 0;
        while i < count
            invariant
                i <= count,
                self.wf(),
                self.data_offset == offset,
                self.data == old(self).data,
                offset + 8 + body_len == self.data@.len() <= usize::MAX,
                rest == old(self).remaining(),
                rest.len() >= 8,
                count == u32_value(rest),
                body == rest.skip(8),
                body == self.data@.skip(offset + 8),
                words == T::spec_word_count(),
                size == 4 * words,
                0 < size <= 256,
                count * size <= body_len,
                records_parse::<T>(body, i as nat) == Some(values@),
            decreases count - i,
        {
            assert(i * size + size <= count * size) by (nonlinear_arith)
                requires
                    i < count,
                    size > 0,
            ;
            let at: usize = offset + 8 + i * size;
            let found = get_words(self.data, at, words);
            proof {
                assert(4 * T::spec_word_count() * i == i * size) by (nonlinear_arith)
                    requires
                        size == 4 * T::spec_word_count(),
                ;
                assert(body.skip(i * size).subrange(0, size as int) =~= self.data@.subrange(
                    at as int,
                    at + 4 * words,
                ));
            }
            match T::try_from_words(found.as_slice()) {
                Some(value) => {
                    values.push(value);
                },
                None => {
                    proof {
                        lemma_records_parse_fails::<T>(body, (i + 1) as nat, count as nat);
                    }
                    return Err(Error::corrupt_data("Failed to read data"));
                },
            }
            i = i + 1;
        }
        self.data_offset = offset + 8 + padded;
        assert(self.remaining() =~= rest.skip(8 + padded));
        Ok(values)
    }

    /// Reads a run of bytes from where its header begins, and leaves the
    /// reader past its header. What comes back is the place of the bytes and
    /// their number, and how far the reader has to go on.
    fn read_run(&mut self) -> (result: Result<(usize, usize, usize), Error>)
        requires
            old(self).wf(),
        ensures
            final(self).wf(),
            final(self).source() == old(self).source(),
            final(self).data == old(self).data,
            result is Ok <==> bytes_parse(old(self).remaining()) is Some,
            result is Err ==> corrupt(result),
            result matches Ok((at, length, padded)) ==> {
                let found = bytes_parse(old(self).remaining()).unwrap();
                &&& at + length <= final(self).data@.len() <= usize::MAX
                &&& at + padded <= final(self).data@.len()
                &&& final(self).data@.subrange(at as int, at + length) == found.0
                &&& final(self).data_offset == at
                &&& found.1 == 8 + padded
                &&& old(self).remaining().skip(8 + padded) == final(self).data@.skip(
                    at + padded,
                )
                &&& length == u32_value(old(self).remaining())
            },
    {
        let offset: usize = self.data_offset;
        if self.data.len() - offset < 8 {
            return Err(Error::corrupt_data("Failed to read data"));
        }
        let length: usize = get_u32(self.data, offset) as usize;
        let padded: usize = get_u32(self.data, offset + 4) as usize;
        let ghost rest = self.remaining();
        proof {
            crate::bytes::lemma_u32_value_prefix(rest);
            crate::bytes::lemma_u32_value_prefix(rest.skip(4));
            assert(rest.subrange(0, 4) =~= self.data@.subrange(offset as int, offset + 4));
            assert(rest.skip(4).subrange(0, 4) =~= self.data@.subrange(offset + 4, offset + 8));
        }
        let body_len: usize = self.data.len() - offset - 8;
        if length > body_len || padded > body_len {
            return Err(Error::corrupt_data("Malformed data. Reading would go outside buffer"));
        }
        self.data_offset = offset + 8;
        proof {
            let at = offset + 8;
            assert(self.data@.subrange(at, at + length) =~= rest.skip(8).subrange(
                0,
                length as int,
            ));
            assert(rest.skip(8 + padded) =~= self.data@.skip(at + padded));
        }
        Ok((offset + 8, length, padded))
    }

    /// Reads an array of bytes as it stands: nothing is asked of the bytes.
    pub fn read_array_transmute(&mut self) -> (result: Result<Vec<u8>, Error>)
        requires
            old(self).wf(),
        ensures
            final(self).wf(),
            final(self).source() == old(self).source(),
            advanced(
                old(self).remaining(),
                final(self).remaining(),
                byte_array_parse(old(self).remaining()),
            ),
            match byte_array_parse(old(self).remaining()) {
                Some((values, _)) => result matches Ok(v) && v@ == values,
                None => corrupt(result),
            },
    {
        let ghost rest = self.remaining();
        let offset: usize = self.data_offset;
        if self.data.len() - offset >= 8 && get_u32(self.data, offset) == 0 {
            proof {
                crate::bytes::lemma_u32_value_prefix(rest);
                assert(rest.subrange(0, 4) =~= self.data@.subrange(offset as int, offset + 4));
            }
            self.data_offset = offset + 8;
            assert(self.remaining() =~= rest.skip(8));
            return Ok(Vec::new());
        }
        proof {
            if rest.len() >= 8 {
                crate::bytes::lemma_u32_value_prefix(rest);
                assert(rest.subrange(0, 4) =~= self.data@.subrange(offset as int, offset + 4));
            }
        }
        match self.read_run() {
            Ok((at, length, padded)) => {
                let values = vstd::slice::slice_to_vec(
                    vstd::slice::slice_subrange(self.data, at, at + length),
                );
                self.data_offset = at + padded;
                Ok(values)
            },
            Err(e) => Err(e),
        }
    }

    /// Reads a text. Bytes that are no UTF-8 do not fail the read: a fixed
    /// text stands in for them.
    pub fn read_str(&mut self) -> (result: Result<&'a str, Error>)
        requires
            old(self).wf(),
        ensures
            final(self).wf(),
            final(self).source() == old(self).source(),
            advanced(
                old(self).remaining(),
                final(self).remaining(),
                str_parse(old(self).remaining()),
            ),
            match str_parse(old(self).remaining()) {
                Some((text, _)) => result matches Ok(s) && s@ == text,
                None => corrupt(result),
            },
    {
        match self.read_run() {
            Ok((at, length, padded)) => {
                let bytes = vstd::slice::slice_subrange(self.data, at, at + length);
                let text: &'a str = match utf8_text(bytes) {
                    Some(text) => {
                        proof {
                            vstd::utf8::encode_utf8_decode_utf8(text@);
                        }
                        text
                    },
                    None => "UTF8 DECODING ERROR",
                };
                self.data_offset = at + padded;
                Ok(text)
            },
            Err(e) => Err(e),
        }
    }

    /// Reads a map from text to records. Of two entries with one key the
    /// later one stays.
    pub fn read_string_hashmap<T: Record>(&mut self) -> (result: Result<StringMap<T>, Error>)
        requires
            old(self).wf(),
        ensures
            final(self).wf(),
            final(self).source() == old(self).source(),
            advanced(
                old(self).remaining(),
                final(self).remaining(),
                record_map_parse::<T>(old(self).remaining()),
            ),
            match record_map_parse::<T>(old(self).remaining()) {
                Some((pairs, _)) => result matches Ok(map) && map.wf() && map@ == pairs_map(
                    pairs,
                    pairs.len(),
                ),
                None => corrupt(result),
            },
    {
        let ghost rest = self.remaining();
        let count: usize = match self.read_u32() {
            Ok(word) => word as usize,
            Err(e) => {
                return Err(e);
            },
        };
        let ghost body = rest.skip(4);
        let ghost mut pairs: Seq<(Seq<char>, T)> = Seq::empty();
        let ghost mut used: nat = 0;
        let mut out: StringMap<T> = StringMap::new();
        let mut i: usize = 0;
        assert(body.skip(0) =~= body);
        while i < count
            invariant
                i <= count,
                self.wf(),
                self.source() == old(self).source(),
                rest == old(self).remaining(),
                rest.len() >= 4,
                count == u32_value(rest),
                body == rest.skip(4),
                out.wf(),
                record_entries_parse::<T>(body, i as nat) == Some((pairs, used)),
                pairs.len() == i,
                used <= body.len(),
                self.remaining() == body.skip(used as int),
                out@ == pairs_map(pairs, pairs.len()),
            decreases count - i,
        {
            let ghost before = self.remaining();
            let key: String = match self.read_str() {
                Ok(text) => text.to_owned(),
                Err(e) => {
                    proof {
                        lemma_record_entries_parse_fails::<T>(body, (i + 1) as nat, count as nat);
                    }
                    return Err(e);
                },
            };
            let ghost key_found = str_parse(before).unwrap();
            let ghost key_used = key_found.1;
            assert(self.remaining() =~= body.skip((used + key_used) as int));
            let value: T = match self.try_read::<T>() {
                Ok(value) => value,
                Err(e) => {
                    proof {
                        lemma_record_entries_parse_fails::<T>(body, (i + 1) as nat, count as nat);
                    }
                    return Err(e);
                },
            };
            let ghost value_used = 4 * T::spec_word_count();
            assert(self.remaining() =~= body.skip((used + key_used + value_used) as int));
            proof {
                let grown = pairs.push((key@, value));
                crate::string_map::lemma_pairs_map_prefix(pairs, grown, pairs.len());
                pairs = grown;
                used = used + key_used + value_used;
            }
            out.insert(key, value);
            i = i + 1;
        }
        assert(self.remaining() =~= rest.skip((4 + used) as int));
        Ok(out)
    }

    /// Reads a map from text to arrays of bytes. Of two entries with one key
    /// the later one stays.
    pub fn read_string_array_hashmap(&mut self) -> (result: Result<StringMap<Vec<u8>>, Error>)
        requires
            old(self).wf(),
        ensures
            final(self).wf(),
            final(self).source() == old(self).source(),
            advanced(
                old(self).remaining(),
                final(self).remaining(),
                bytes_map_parse(old(self).remaining()),
            ),
            match bytes_map_parse(old(self).remaining()) {
                Some((pairs, _)) => result matches Ok(map) && map.wf() && bytes_view(map@)
                    == pairs_map(pairs, pairs.len()),
                None => corrupt(result),
            },
    {
        let ghost rest = self.remaining();
        let count: usize = match self.read_u32() {
            Ok(word) => word as usize,
            Err(e) => {
                return Err(e);
            },
        };
        let ghost body = rest.skip(4);
        let ghost mut pairs: Seq<(Seq<char>, Seq<u8>)> = Seq::empty();
        let ghost mut used: nat = 0;
        let mut out: StringMap<Vec<u8>> = StringMap::new();
        let mut i: usize = 0;
        assert(body.skip(0) =~= body);
        assert(bytes_view(out@) =~= pairs_map(pairs, 0));
        while i < count
            invariant
                i <= count,
                self.wf(),
                self.source() == old(self).source(),
                rest == old(self).remaining(),
                rest.len() >= 4,
                count == u32_value(rest),
                body == rest.skip(4),
                out.wf(),
                bytes_entries_parse(body, i as nat) == Some((pairs, used)),
                pairs.len() == i,
                used <= body.len(),
                self.remaining() == body.skip(used as int),
                bytes_view(out@) == pairs_map(pairs, pairs.len()),
            decreases count - i,
        {
            let ghost before = self.remaining();
            let key: String = match self.read_str() {
                Ok(text) => text.to_owned(),
                Err(e) => {
                    proof {
                        lemma_bytes_entries_parse_fails(body, (i + 1) as nat, count as nat);
                    }
                    return Err(e);
                },
            };
            let ghost key_found = str_parse(before).unwrap();
            let ghost key_used = key_found.1;
            assert(self.remaining() =~= body.skip((used + key_used) as int));
            let ghost middle = self.remaining();
            let value: Vec<u8> = match self.read_array_transmute() {
                Ok(value) => value,
                Err(e) => {
                    proof {
                        lemma_bytes_entries_parse_fails(body, (i + 1) as nat, count as nat);
                    }
                    return Err(e);
                },
            };
            let ghost value_found = byte_array_parse(middle).unwrap();
            let ghost value_used = value_found.1;
            assert(self.remaining() =~= body.skip((used + key_used + value_used) as int));
            proof {
                let grown = pairs.push((key@, value@));
                crate::string_map::lemma_pairs_map_prefix(pairs, grown, pairs.len());
                lemma_bytes_view_insert(out@, key@, value);
                pairs = grown;
                used = used + key_used + value_used;
            }
            out.insert(key, value);
            i = i + 1;
        }
        assert(self.remaining() =~= rest.skip((4 + used) as int));
        Ok(out)
    }

    fn read_u32(&mut self) -> (result: Result<u32, Error>)
        requires
            old(self).wf(),
        ensures
            final(self).wf(),
            final(self).source() == old(self).source(),
            advanced(
                old(self).remaining(),
                final(self).remaining(),
                u32_parse(old(self).remaining()),
            ),
            match u32_parse(old(self).remaining()) {
                Some((value, _)) => result matches Ok(v) && v == value,
                None => corrupt(result) && final(self).remaining() == old(self).remaining(),
            },
    {
        if self.data.len() - self.data_offset < U32_SIZE {
            return Err(Error::corrupt_data("Failed to read data"));
        }
        let offset: usize = self.data_offset;
        let value: u32 = get_u32(self.data, offset);
        proof {
            let rest = self.remaining();
            crate::bytes::lemma_u32_value_prefix(rest);
            assert(rest.subrange(0, 4) =~= self.data@.subrange(offset as int, offset + 4));
        }
        self.data_offset = offset + U32_SIZE;
        assert(self.remaining() =~= old(self).remaining().skip(4));
        Ok(value)
    }

    /// The number of bytes that have not been read yet.
    pub fn remaining_size(&self) -> (n: usize)
        requires
            self.wf(),
        ensures
            n == self.remaining().len(),
    {
        self.data.len() - self.data_offset
    }
}

} // verus!
