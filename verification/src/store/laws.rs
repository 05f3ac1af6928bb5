//! What is written can be read: each kind of value comes back from its stored
//! form, whatever follows it in the snapshot.

use crate::bytes::{
    lemma_u32_value_of_bytes, lemma_u32_value_prefix, lemma_words_bytes_len,
    lemma_words_of_bytes, u32_bytes, u32_value, zeros,
};
use crate::entity::Entity;
use crate::record::Record;
use crate::shared::{lemma_round_up_bounds, lemma_round_up_unique, round_up};
use crate::string_map::pairs_map;
use crate::store::{
    bytes_view, lemma_bytes_view_insert,
    array_parse, array_stored, bool_parse, bool_stored, byte_array_parse, bytes_entries_parse,
    bytes_entries_stored, bytes_map_parse, bytes_map_stored, bytes_parse, bytes_stored,
    entity_parse, entity_stored, entries_fit, keys_fit, option_parse, option_stored, padding,
    record_entries_parse, record_entries_stored, record_map_parse, record_map_stored,
    record_parse, record_stored, records_parse, records_size, records_stored, str_parse,
    str_stored, u32_parse, MAX_BYTES,
};
use vstd::prelude::*;
use vstd::utf8::encode_utf8;

verus! {

/// A word is read back from its bytes, whatever follows them.
pub proof fn lemma_u32_round_trip(value: u32, rest: Seq<u8>)
    ensures
        u32_bytes(value).len() == 4,
        u32_value(u32_bytes(value) + rest) == value,
        (u32_bytes(value) + rest).skip(4) == rest,
        u32_parse(u32_bytes(value) + rest) == Some((value, 4nat)),
{
    let all = u32_bytes(value) + rest;
    lemma_u32_value_of_bytes(value);
    lemma_u32_value_prefix(all);
    assert(all.subrange(0, 4) =~= u32_bytes(value));
    assert(all.skip(4) =~= rest);
}

/// A record is read back from its stored form.
pub proof fn lemma_record_round_trip<T: Record>(value: T, rest: Seq<u8>)
    ensures
        record_stored(value).len() == 4 * T::spec_word_count(),
        record_parse::<T>(record_stored(value) + rest) == Some(
            (value, record_stored(value).len()),
        ),
        (record_stored(value) + rest).skip(record_stored(value).len() as int) == rest,
{
    value.lemma_words();
    lemma_words_of_bytes(value.words(), rest);
    assert((record_stored(value) + rest).skip(record_stored(value).len() as int) =~= rest);
}

/// A truth value is read back from its stored form.
pub proof fn lemma_bool_round_trip(value: bool, rest: Seq<u8>)
    ensures
        bool_stored(value).len() == 4,
        bool_parse(bool_stored(value) + rest) == Some((value, 4nat)),
        (bool_stored(value) + rest).skip(4) == rest,
{
    lemma_u32_round_trip(
        if value {
            1
        } else {
            0
        },
        rest,
    );
}

/// A value that may be absent is read back from its stored form.
pub proof fn lemma_option_round_trip<T: Record>(value: Option<T>, rest: Seq<u8>)
    ensures
        option_parse::<T>(option_stored(value) + rest) == Some(
            (value, option_stored(value).len()),
        ),
        (option_stored(value) + rest).skip(option_stored(value).len() as int) == rest,
{
    match value {
        Some(v) => {
            let all = option_stored(value) + rest;
            let tail = record_stored(v) + rest;
            assert(all =~= u32_bytes(1) + tail);
            lemma_u32_round_trip(1, tail);
            lemma_record_round_trip(v, rest);
            assert(all.skip(option_stored(value).len() as int) =~= rest);
        },
        None => {
            lemma_u32_round_trip(0, rest);
        },
    }
}

/// The parts of a handle that may be absent.
pub open spec fn handle_parts(value: Option<Entity>) -> Option<(u32, u32)> {
    match value {
        Some(e) => Some((e.spec_id(), e.spec_generation())),
        None => None,
    }
}

/// A handle that may be absent is read back from its stored form.
pub proof fn lemma_entity_round_trip(value: Option<Entity>, rest: Seq<u8>)
    requires
        value matches Some(e) ==> e.spec_generation() != 0,
    ensures
        entity_stored(value).len() == 8,
        entity_parse(entity_stored(value) + rest) == Some((handle_parts(value), 8nat)),
        (entity_stored(value) + rest).skip(8) == rest,
{
    let (id, generation): (u32, u32) = match value {
        Some(e) => (e.spec_id(), e.spec_generation()),
        None => (0u32, 0u32),
    };
    let all = entity_stored(value) + rest;
    let tail = u32_bytes(generation) + rest;
    assert(all =~= u32_bytes(id) + tail);
    lemma_u32_round_trip(id, tail);
    lemma_u32_round_trip(generation, rest);
    assert(all.skip(8) =~= rest);
}

/// The records of an array take as many bytes as their number says.
pub proof fn lemma_records_stored_len<T: Record>(values: Seq<T>, n: nat)
    requires
        n <= values.len(),
    ensures
        records_stored(values, n).len() == records_size::<T>(n),
    decreases n,
{
    if n > 0 {
        lemma_records_stored_len(values, (n - 1) as nat);
        values[n - 1].lemma_words();
        lemma_words_bytes_len(values[n - 1].words(), values[n - 1].words().len());
        assert(records_size::<T>(n) == records_size::<T>((n - 1) as nat) + 4
            * T::spec_word_count()) by (nonlinear_arith)
            requires
                n > 0,
        ;
    } else {
        assert(records_size::<T>(0) == 0) by (nonlinear_arith);
    }
}

/// Records that lie end to end are read back one by one.
#[verifier::rlimit(60)]
pub proof fn lemma_records_round_trip<T: Record>(values: Seq<T>, n: nat, m: nat, rest: Seq<u8>)
    requires
        n <= m <= values.len(),
    ensures
        records_parse::<T>(records_stored(values, m) + rest, n) == Some(
            values.subrange(0, n as int),
        ),
    decreases n,
{
    let all = records_stored(values, m) + rest;
    if n == 0 {
        assert(values.subrange(0, 0) =~= Seq::<T>::empty());
    } else {
        lemma_records_round_trip(values, (n - 1) as nat, m, rest);
        lemma_records_split(values, (n - 1) as nat, m);
        lemma_records_stored_len(values, (n - 1) as nat);
        let before = records_stored(values, (n - 1) as nat);
        let tail = records_tail(values, n, m) + rest;
        assert(all =~= before + (record_stored(values[n - 1]) + tail));
        assert(all.skip(before.len() as int) =~= record_stored(values[n - 1]) + tail);
        lemma_record_round_trip(values[n - 1], tail);
        assert(4 * T::spec_word_count() * (n - 1) == records_size::<T>((n - 1) as nat));
        assert(values.subrange(0, n as int) =~= values.subrange(0, n - 1).push(values[n - 1]));
    }
}

/// The records from `n` up to `m`, end to end.
pub open spec fn records_tail<T: Record>(values: Seq<T>, n: nat, m: nat) -> Seq<u8>
    decreases m,
{
    if m <= n {
        Seq::empty()
    } else {
        records_tail(values, n, (m - 1) as nat) + record_stored(values[m - 1])
    }
}

proof fn lemma_records_split<T: Record>(values: Seq<T>, n: nat, m: nat)
    requires
        n < m <= values.len(),
    ensures
        records_stored(values, m) == records_stored(values, n) + (record_stored(values[n as int])
            + records_tail(values, n + 1, m)),
    decreases m,
{
    if m == n + 1 {
        assert(records_stored(values, m) =~= records_stored(values, n) + (record_stored(
            values[n as int],
        ) + records_tail(values, n + 1, m)));
    } else {
        lemma_records_split(values, n, (m - 1) as nat);
        assert(records_stored(values, m) =~= records_stored(values, n) + (record_stored(
            values[n as int],
        ) + records_tail(values, n + 1, m)));
    }
}

/// An array of records is read back from its stored form.
#[verifier::rlimit(60)]
pub proof fn lemma_array_round_trip<T: Record>(values: Seq<T>, rest: Seq<u8>)
    requires
        records_size::<T>(values.len()) <= MAX_BYTES,
    ensures
        array_stored(values).len() == 8 + records_size::<T>(values.len()),
        array_parse::<T>(array_stored(values) + rest) == Some(
            (values, array_stored(values).len()),
        ),
        (array_stored(values) + rest).skip(array_stored(values).len() as int) == rest,
{
    let count = values.len();
    let size = records_size::<T>(count);
    T::lemma_word_count();
    assert(count <= size) by (nonlinear_arith)
        requires
            size == 4 * T::spec_word_count() * count,
            T::spec_word_count() > 0,
    ;
    let body = records_stored(values, count);
    lemma_records_stored_len(values, count);
    let all = array_stored(values) + rest;
    let after_count = u32_bytes(size as u32) + (body + rest);
    assert(all =~= u32_bytes(count as u32) + after_count);
    lemma_u32_round_trip(count as u32, after_count);
    lemma_u32_round_trip(size as u32, body + rest);
    assert(all.skip(8) =~= body + rest);
    lemma_records_round_trip(values, count, count, rest);
    assert(values.subrange(0, count as int) =~= values);
    assert(all.skip(array_stored(values).len() as int) =~= rest);
    if count == 0 {
        assert(values =~= Seq::<T>::empty());
    }
}

/// A run of bytes is read back from its stored form, as a text is read and
/// as an array of bytes is read.
#[verifier::rlimit(60)]
pub proof fn lemma_bytes_round_trip(bytes: Seq<u8>, rest: Seq<u8>)
    requires
        bytes.len() <= MAX_BYTES,
    ensures
        bytes_stored(bytes).len() == 8 + round_up(bytes.len() as int, 4),
        bytes_stored(bytes).len() % 4 == 0,
        bytes_parse(bytes_stored(bytes) + rest) == Some((bytes, bytes_stored(bytes).len())),
        byte_array_parse(bytes_stored(bytes) + rest) == Some(
            (bytes, bytes_stored(bytes).len()),
        ),
        (bytes_stored(bytes) + rest).skip(bytes_stored(bytes).len() as int) == rest,
{
    let length = bytes.len();
    lemma_round_up_bounds(length as int, 4);
    let padded = round_up(length as int, 4) as nat;
    let fill = zeros(padding(length));
    let length_word = u32_bytes(length as u32);
    let padded_word = u32_bytes(padded as u32);
    let all = bytes_stored(bytes) + rest;
    let body = bytes + (fill + rest);
    assert(bytes_stored(bytes) == length_word + padded_word + bytes + fill);
    lemma_join(length_word + padded_word + bytes, fill, rest);
    lemma_join(length_word + padded_word, bytes, fill + rest);
    lemma_join(length_word, padded_word, body);
    assert(all == length_word + (padded_word + body));
    lemma_u32_round_trip(length as u32, padded_word + body);
    lemma_u32_round_trip(padded as u32, body);
    lemma_skip_front(length_word + padded_word, body);
    lemma_join(length_word, padded_word, body);
    assert(all.skip(8) == body);
    assert(body.subrange(0, length as int) =~= bytes);
    assert(fill.len() == padded - length);
    assert(body.len() == padded + rest.len());
    lemma_skip_front(bytes_stored(bytes), rest);
    assert(bytes_stored(bytes).len() == 8 + padded);
    if length == 0 {
        assert(bytes =~= Seq::<u8>::empty());
    }
}

/// A text is read back from its stored form.
pub proof fn lemma_str_round_trip(text: Seq<char>, rest: Seq<u8>)
    requires
        encode_utf8(text).len() <= MAX_BYTES,
    ensures
        str_stored(text).len() % 4 == 0,
        str_parse(str_stored(text) + rest) == Some((text, str_stored(text).len())),
        (str_stored(text) + rest).skip(str_stored(text).len() as int) == rest,
{
    lemma_bytes_round_trip(encode_utf8(text), rest);
    vstd::utf8::encode_utf8_valid_utf8(text);
    vstd::utf8::encode_utf8_decode_utf8(text);
}

/// The entries of a map from text to records are read back one by one.
#[verifier::rlimit(60)]
pub proof fn lemma_record_entries_round_trip<T: Record>(
    pairs: Seq<(Seq<char>, T)>,
    n: nat,
    rest: Seq<u8>,
)
    requires
        n <= pairs.len(),
        keys_fit(pairs, n),
    ensures
        record_entries_parse::<T>(record_entries_stored(pairs, n) + rest, n) == Some(
            (pairs.subrange(0, n as int), record_entries_stored(pairs, n).len()),
        ),
    decreases n,
{
    let all = record_entries_stored(pairs, n) + rest;
    if n == 0 {
        assert(pairs.subrange(0, 0) =~= Seq::<(Seq<char>, T)>::empty());
    } else {
        let key = pairs[n - 1].0;
        let value = pairs[n - 1].1;
        let before = record_entries_stored(pairs, (n - 1) as nat);
        let value_on = record_stored(value) + rest;
        let key_on = str_stored(key) + value_on;
        assert(all =~= before + key_on);
        lemma_record_entries_round_trip(pairs, (n - 1) as nat, key_on);
        assert(all.skip(before.len() as int) =~= key_on);
        lemma_str_round_trip(key, value_on);
        assert(all.skip((before.len() + str_stored(key).len()) as int) =~= value_on);
        lemma_record_round_trip(value, rest);
        assert(pairs.subrange(0, n as int) =~= pairs.subrange(0, n - 1).push((key, value)));
    }
}

/// A map from text to records is read back, entry for entry, from its stored
/// form.
pub proof fn lemma_record_map_round_trip<T: Record>(pairs: Seq<(Seq<char>, T)>, rest: Seq<u8>)
    requires
        pairs.len() <= u32::MAX,
        keys_fit(pairs, pairs.len()),
    ensures
        record_map_parse::<T>(record_map_stored(pairs) + rest) == Some(
            (pairs, record_map_stored(pairs).len()),
        ),
        (record_map_stored(pairs) + rest).skip(record_map_stored(pairs).len() as int) == rest,
{
    let count = pairs.len();
    let body = record_entries_stored(pairs, count);
    let all = record_map_stored(pairs) + rest;
    assert(all =~= u32_bytes(count as u32) + (body + rest));
    lemma_u32_round_trip(count as u32, body + rest);
    lemma_record_entries_round_trip(pairs, count, rest);
    assert(pairs.subrange(0, count as int) =~= pairs);
    assert(all.skip(record_map_stored(pairs).len() as int) =~= rest);
}

/// The entries of a map from text to vectors, each vector as its bytes.
pub open spec fn entry_views(pairs: Seq<(Seq<char>, Vec<u8>)>) -> Seq<(Seq<char>, Seq<u8>)> {
    Seq::new(pairs.len(), |i: int| (pairs[i].0, pairs[i].1@))
}

/// What follows the front part of a run is the rest of it.
pub proof fn lemma_skip_front(front: Seq<u8>, back: Seq<u8>)
    ensures
        (front + back).skip(front.len() as int) == back,
        (front + back).len() == front.len() + back.len(),
{
    assert((front + back).skip(front.len() as int) =~= back);
}

/// To skip twice is to skip once as far.
pub proof fn lemma_skip_skip(s: Seq<u8>, a: int, b: int)
    requires
        0 <= a,
        0 <= b,
        a + b <= s.len(),
    ensures
        s.skip(a).skip(b) == s.skip(a + b),
{
    assert(s.skip(a).skip(b) =~= s.skip(a + b));
}

/// Three runs, joined either way, are one run.
pub proof fn lemma_join(a: Seq<u8>, b: Seq<u8>, c: Seq<u8>)
    ensures
        (a + b) + c == a + (b + c),
{
    assert((a + b) + c =~= a + (b + c));
}

proof fn lemma_bytes_entries_step(
    all: Seq<u8>,
    n: nat,
    found: Seq<(Seq<char>, Seq<u8>)>,
    used: nat,
    key: Seq<char>,
    key_used: nat,
    value: Seq<u8>,
    value_used: nat,
)
    requires
        n > 0,
        bytes_entries_parse(all, (n - 1) as nat) == Some((found, used)),
        used <= all.len(),
        str_parse(all.skip(used as int)) == Some((key, key_used)),
        used + key_used <= all.len(),
        byte_array_parse(all.skip((used + key_used) as int)) == Some((value, value_used)),
    ensures
        bytes_entries_parse(all, n) == Some(
            (found.push((key, value)), used + key_used + value_used),
        ),
{
}

/// The entries of a map from text to runs of bytes are read back one by one.
#[verifier::rlimit(60)]
pub proof fn lemma_bytes_entries_round_trip(
    pairs: Seq<(Seq<char>, Vec<u8>)>,
    n: nat,
    rest: Seq<u8>,
)
    requires
        n <= pairs.len(),
        entries_fit(pairs, n),
    ensures
        bytes_entries_parse(bytes_entries_stored(pairs, n) + rest, n) == Some(
            (entry_views(pairs).subrange(0, n as int), bytes_entries_stored(pairs, n).len()),
        ),
    decreases n,
{
    let all = bytes_entries_stored(pairs, n) + rest;
    if n == 0 {
        assert(entry_views(pairs).subrange(0, 0) =~= Seq::<(Seq<char>, Seq<u8>)>::empty());
    } else {
        let last = pairs[n - 1];
        let key = last.0;
        let value = last.1@;
        assert(encode_utf8(key).len() <= MAX_BYTES && value.len() <= MAX_BYTES);
        let before = bytes_entries_stored(pairs, (n - 1) as nat);
        let key_part = str_stored(key);
        let value_part = bytes_stored(value);
        let value_on = value_part + rest;
        let key_on = key_part + value_on;
        assert(bytes_entries_stored(pairs, n) == before + key_part + value_part);
        lemma_join(before + key_part, value_part, rest);
        lemma_join(before, key_part, value_on);
        assert(all == before + key_on);
        lemma_bytes_entries_round_trip(pairs, (n - 1) as nat, key_on);
        let found = entry_views(pairs).subrange(0, n - 1);
        lemma_skip_front(before, key_on);
        lemma_str_round_trip(key, value_on);
        lemma_skip_front(before + key_part, value_on);
        lemma_join(before, key_part, value_on);
        lemma_skip_front(before, key_part);
        lemma_bytes_round_trip(value, rest);
        lemma_skip_front(key_part, value_on);
        lemma_skip_front(value_part, rest);
        lemma_bytes_entries_step(
            all,
            n,
            found,
            before.len(),
            key,
            key_part.len(),
            value,
            value_part.len(),
        );
        assert(entry_views(pairs).subrange(0, n as int) =~= found.push((key, value)));
    }
}

/// A map from text to runs of bytes is read back, entry for entry, from its
/// stored form.
pub proof fn lemma_bytes_map_round_trip(pairs: Seq<(Seq<char>, Vec<u8>)>, rest: Seq<u8>)
    requires
        pairs.len() <= u32::MAX,
        entries_fit(pairs, pairs.len()),
    ensures
        bytes_map_parse(bytes_map_stored(pairs) + rest) == Some(
            (entry_views(pairs), bytes_map_stored(pairs).len()),
        ),
        (bytes_map_stored(pairs) + rest).skip(bytes_map_stored(pairs).len() as int) == rest,
{
    let count = pairs.len();
    let body = bytes_entries_stored(pairs, count);
    let all = bytes_map_stored(pairs) + rest;
    assert(all =~= u32_bytes(count as u32) + (body + rest));
    lemma_u32_round_trip(count as u32, body + rest);
    lemma_bytes_entries_round_trip(pairs, count, rest);
    assert(entry_views(pairs).subrange(0, count as int) =~= entry_views(pairs));
    assert(all.skip(bytes_map_stored(pairs).len() as int) =~= rest);
}

/// The map of the entries, each vector as its bytes, is the map of the
/// entries' views.
pub proof fn lemma_entry_views_map(pairs: Seq<(Seq<char>, Vec<u8>)>, n: nat)
    requires
        n <= pairs.len(),
    ensures
        bytes_view(pairs_map(pairs, n)) == pairs_map(entry_views(pairs), n),
    decreases n,
{
    if n == 0 {
        assert(bytes_view(pairs_map(pairs, 0)) =~= pairs_map(entry_views(pairs), 0));
    } else {
        lemma_entry_views_map(pairs, (n - 1) as nat);
        lemma_bytes_view_insert(pairs_map(pairs, (n - 1) as nat), pairs[n - 1].0, pairs[n - 1].1);
    }
}

/// Where the cursor is after an array: eight bytes of header and the
/// records, whose size is a whole number of words. A writer that stood on a
/// whole word stands on one again.
pub proof fn lemma_array_stored_len<T: Record>(values: Seq<T>)
    ensures
        array_stored(values).len() == 8 + records_size::<T>(values.len()),
        array_stored(values).len() == 8 + round_up(records_size::<T>(values.len()) as int, 4),
        array_stored(values).len() % 4 == 0,
{
    lemma_records_stored_len(values, values.len());
    let size = records_size::<T>(values.len()) as int;
    let words = T::spec_word_count() * values.len();
    assert(size == 4 * words) by (nonlinear_arith)
        requires
            size == 4 * T::spec_word_count() * values.len(),
            words == T::spec_word_count() * values.len(),
    ;
    assert(size % 4 == 0);
    lemma_round_up_unique(size, 4, size);
}

/// Where the cursor is after a run of bytes: eight bytes of header and the
/// length of the run, rounded up to whole words. A writer that stood on a
/// whole word stands on one again.
pub proof fn lemma_bytes_stored_len(bytes: Seq<u8>)
    ensures
        bytes_stored(bytes).len() == 8 + round_up(bytes.len() as int, 4),
        bytes_stored(bytes).len() % 4 == 0,
{
    lemma_round_up_bounds(bytes.len() as int, 4);
}

/// Where the cursor is after a text: eight bytes of header and the length
/// of the text in UTF-8, rounded up to whole words.
pub proof fn lemma_str_stored_len(text: Seq<char>)
    ensures
        str_stored(text).len() == 8 + round_up(encode_utf8(text).len() as int, 4),
        str_stored(text).len() % 4 == 0,
{
    lemma_bytes_stored_len(encode_utf8(text));
}

} // verus!
