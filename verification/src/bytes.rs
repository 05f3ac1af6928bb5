//! Fixed-width values as little-endian bytes.
//!
//! Every multi-byte value that crosses the guest/host boundary, or goes into a
//! snapshot, is laid out least significant byte first.

use vstd::prelude::*;

verus! {

/// The four bytes of `v`, least significant first.
pub open spec fn u32_bytes(v: u32) -> Seq<u8> {
    seq![
        (v % 256) as u8,
        ((v / 256) % 256) as u8,
        ((v / 65536) % 256) as u8,
        (v / 16777216) as u8,
    ]
}

/// The value whose bytes, least significant first, are the first four of `b`.
pub open spec fn u32_value(b: Seq<u8>) -> u32 {
    (b[0] + 256 * b[1] + 65536 * b[2] + 16777216 * b[3]) as u32
}

/// `s` with the bytes from `at` on overwritten by `part`.
pub open spec fn splice(s: Seq<u8>, at: int, part: Seq<u8>) -> Seq<u8> {
    s.subrange(0, at) + part + s.subrange(at + part.len(), s.len() as int)
}

/// `n` zero bytes.
pub open spec fn zeros(n: nat) -> Seq<u8> {
    Seq::new(n, |i: int| 0u8)
}

/// The first `n` words, each least significant byte first.
pub open spec fn words_bytes(words: Seq<u32>, n: nat) -> Seq<u8>
    decreases n,
{
    if n == 0 {
        Seq::empty()
    } else {
        words_bytes(words, (n - 1) as nat) + u32_bytes(words[n - 1])
    }
}

/// The words that a run of bytes holds, four bytes to a word.
pub open spec fn bytes_words(bytes: Seq<u8>) -> Seq<u32> {
    Seq::new(bytes.len() / 4, |i: int| u32_value(bytes.subrange(4 * i, 4 * i + 4)))
}

/// Two 16-bit numbers in one word, `low` in the two low bytes.
pub open spec fn spec_pack_u16(low: u16, high: u16) -> u32 {
    (low + 65536 * high) as u32
}

/// `n` words take `4 * n` bytes.
pub proof fn lemma_words_bytes_len(words: Seq<u32>, n: nat)
    ensures
        words_bytes(words, n).len() == 4 * n,
    decreases n,
{
    if n > 0 {
        lemma_words_bytes_len(words, (n - 1) as nat);
    }
}

/// Only the first `n` words count for `words_bytes(.., n)`.
pub proof fn lemma_words_bytes_prefix(a: Seq<u32>, b: Seq<u32>, n: nat)
    requires
        n <= a.len(),
        n <= b.len(),
        a.subrange(0, n as int) == b.subrange(0, n as int),
    ensures
        words_bytes(a, n) == words_bytes(b, n),
    decreases n,
{
    if n > 0 {
        assert(a.subrange(0, n - 1) =~= a.subrange(0, n as int).subrange(0, n - 1));
        assert(b.subrange(0, n - 1) =~= b.subrange(0, n as int).subrange(0, n - 1));
        lemma_words_bytes_prefix(a, b, (n - 1) as nat);
        assert(a[n - 1] == a.subrange(0, n as int)[n - 1]);
        assert(b[n - 1] == b.subrange(0, n as int)[n - 1]);
    }
}

/// In the bytes of `n` words, word `i` lies at `4 * i`.
pub proof fn lemma_word_at(words: Seq<u32>, n: nat, i: int)
    requires
        0 <= i < n,
    ensures
        words_bytes(words, n).len() == 4 * n,
        words_bytes(words, n).subrange(4 * i, 4 * i + 4) == u32_bytes(words[i]),
    decreases n,
{
    lemma_words_bytes_len(words, n);
    lemma_words_bytes_len(words, (n - 1) as nat);
    let before = words_bytes(words, (n - 1) as nat);
    let last = u32_bytes(words[n - 1]);
    if i == n - 1 {
        assert((before + last).subrange(4 * i, 4 * i + 4) =~= last);
    } else {
        lemma_word_at(words, (n - 1) as nat, i);
        assert((before + last).subrange(4 * i, 4 * i + 4) =~= before.subrange(4 * i, 4 * i + 4));
    }
}

/// Words come back from their bytes, whatever follows the bytes.
pub proof fn lemma_words_of_bytes(words: Seq<u32>, rest: Seq<u8>)
    ensures
        words_bytes(words, words.len()).len() == 4 * words.len(),
        bytes_words((words_bytes(words, words.len()) + rest).subrange(0, 4 * words.len() as int))
            == words,
{
    let n = words.len();
    let bytes = words_bytes(words, n);
    lemma_words_bytes_len(words, n);
    let front = (bytes + rest).subrange(0, 4 * n as int);
    assert(front =~= bytes);
    assert forall|i: int| 0 <= i < n implies bytes_words(front)[i] == words[i] by {
        lemma_word_at(words, n, i);
        lemma_u32_value_of_bytes(words[i]);
    }
    assert(bytes_words(front) =~= words);
}

/// Two 16-bit numbers come back from the word that packs them.
pub proof fn lemma_pack_u16(low: u16, high: u16)
    ensures
        spec_pack_u16(low, high) % 65536 == low,
        spec_pack_u16(low, high) / 65536 == high,
{
    let w: u32 = spec_pack_u16(low, high);
    assert(w % 65536 == low && w / 65536 == high) by (bit_vector)
        requires
            w == low + 65536 * high,
    ;
}

/// Reading back what was laid out gives the value again.
pub proof fn lemma_u32_value_of_bytes(v: u32)
    ensures
        u32_bytes(v).len() == 4,
        u32_value(u32_bytes(v)) == v,
{
    assert(v % 256 < 256 && (v / 256) % 256 < 256 && (v / 65536) % 256 < 256 && v / 16777216
        < 256) by (bit_vector);
    assert(v % 256 + 256 * ((v / 256) % 256) + 65536 * ((v / 65536) % 256) + 16777216 * (v
        / 16777216) == v) by (bit_vector);
}

/// Four bytes are the layout of the value they read as.
pub proof fn lemma_u32_bytes_of_value(b: Seq<u8>)
    requires
        b.len() == 4,
    ensures
        u32_bytes(u32_value(b)) == b,
{
    let b0: u32 = b[0] as u32;
    let b1: u32 = b[1] as u32;
    let b2: u32 = b[2] as u32;
    let b3: u32 = b[3] as u32;
    let v: u32 = u32_value(b);
    assert(v == b0 + 256 * b1 + 65536 * b2 + 16777216 * b3);
    assert(v % 256 == b0 && (v / 256) % 256 == b1 && (v / 65536) % 256 == b2 && v / 16777216
        == b3) by (bit_vector)
        requires
            b0 < 256,
            b1 < 256,
            b2 < 256,
            b3 < 256,
            v == b0 + 256 * b1 + 65536 * b2 + 16777216 * b3,
    ;
    assert(u32_bytes(v) =~= b);
}

/// Only the first four bytes count for `u32_value`.
pub proof fn lemma_u32_value_prefix(b: Seq<u8>)
    requires
        b.len() >= 4,
    ensures
        u32_value(b) == u32_value(b.subrange(0, 4)),
{
}

/// Writes `value` into `dst[at..at + 4]`.
///
/// Trusted: `zerocopy::little_endian::U32::new` holds the value as its
/// little-endian bytes, and `IntoBytes::write_to_prefix` copies exactly those
/// bytes to the front of the slice it is given, which is long enough here.
#[verifier::external_body]
pub(crate) fn put_u32(dst: &mut Vec<u8>, at: usize, value: u32)
    requires
        at + 4 <= old(dst).len(),
    ensures
        final(dst)@ == splice(old(dst)@, at as int, u32_bytes(value)),
{
    let word = zerocopy::little_endian::U32::new(value);
    zerocopy::IntoBytes::write_to_prefix(&word, &mut dst[at..]).unwrap();
}

/// Reads the value laid out in `src[at..at + 4]`.
///
/// Trusted: `FromBytes::read_from_bytes` on `zerocopy::little_endian::U32`
/// takes a slice of exactly four bytes, and `get` reads them as a
/// little-endian number.
#[verifier::external_body]
pub(crate) fn get_u32(src: &[u8], at: usize) -> (value: u32)
    requires
        at + 4 <= src.len(),
    ensures
        value == u32_value(src@.subrange(at as int, at + 4)),
{
    let word: zerocopy::little_endian::U32 = zerocopy::FromBytes::read_from_bytes(
        &src[at..at + 4],
    ).unwrap();
    word.get()
}

/// Copies `src` into `dst[at..at + src.len()]`.
///
/// Trusted: `IntoBytes::write_to_prefix` on a byte slice copies the slice,
/// byte for byte, to the front of the slice it is given, which is long enough
/// here.
#[verifier::external_body]
pub(crate) fn put_bytes(dst: &mut Vec<u8>, at: usize, src: &[u8])
    requires
        at + src.len() <= old(dst).len(),
    ensures
        final(dst)@ == splice(old(dst)@, at as int, src@),
{
    zerocopy::IntoBytes::write_to_prefix(src, &mut dst[at..]).unwrap();
}

/// Reads the `count` words laid out from `src[at]` on.
pub fn get_words(src: &[u8], at: usize, count: usize) -> (words: Vec<u32>)
    requires
        at + 4 * count <= src.len(),
    ensures
        words@ == bytes_words(src@.subrange(at as int, at + 4 * count)),
{
    let ghost part = src@.subrange(at as int, at + 4 * count);
    let mut words: Vec<u32> = Vec::new();
    let mut i: usize = 0;
    while i < count
        invariant
            i <= count,
            at + 4 * count <= src.len(),
            part == src@.subrange(at as int, at + 4 * count),
            words@.len() == i,
            forall|j: int| 0 <= j < i ==> words@[j] == bytes_words(part)[j],
        decreases count - i,
    {
        let word: u32 = get_u32(src, at + 4 * i);
        assert(part.subrange(4 * i, 4 * i + 4) =~= src@.subrange(at + 4 * i, at + 4 * i + 4));
        words.push(word);
        i = i + 1;
    }
    assert(words@ =~= bytes_words(part));
    words
}

/// Two 16-bit numbers in one word, `low` in the two low bytes.
pub fn pack_u16(low: u16, high: u16) -> (word: u32)
    ensures
        word == spec_pack_u16(low, high),
{
    low as u32 + 65536 * (high as u32)
}

} // verus!
