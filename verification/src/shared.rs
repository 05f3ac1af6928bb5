//! Helpers shared by the codec and the output queue.

use vstd::arithmetic::div_mod::*;
use vstd::arithmetic::power2::*;
use vstd::bits::*;
use crate::error::Error;
use crate::record::Record;
use vstd::prelude::*;
use vstd::string::{is_ascii, StrSliceExecFns, StringSliceAdditionalSpecFns};

verus! {

/// A point. Its coordinates are 32-bit floating point numbers, carried as
/// their bit patterns: nothing here does arithmetic on them.
#[derive(Default, Debug, Copy, Clone, PartialEq, Eq, Structural)]
pub struct PositionF32 {
    pub x: u32,
    pub y: u32,
}

impl Record for PositionF32 {
    open spec fn spec_word_count() -> nat {
        2
    }

    open spec fn words(&self) -> Seq<u32> {
        seq![
            self.x,
            self.y,
        ]
    }

    open spec fn from_words(words: Seq<u32>) -> Option<Self> {
        Some(
            PositionF32 { x: words[0], y: words[1] },
        )
    }

    proof fn lemma_words(&self) {
    }

    proof fn lemma_word_count() {
    }

    fn word_count() -> (n: usize) {
        2
    }

    fn to_words(&self) -> (words: Vec<u32>) {
        vec![
            self.x,
            self.y,
        ]
    }

    fn try_from_words(words: &[u32]) -> (value: Option<Self>) {
        Some(
            PositionF32 { x: words[0], y: words[1] },
        )
    }
}

/// A size, as the bit patterns of two floating point numbers.
#[derive(Default, Debug, Copy, Clone, PartialEq, Eq, Structural)]
pub struct SizeF32 {
    pub width: u32,
    pub height: u32,
}

impl Record for SizeF32 {
    open spec fn spec_word_count() -> nat {
        2
    }

    open spec fn words(&self) -> Seq<u32> {
        seq![
            self.width,
            self.height,
        ]
    }

    open spec fn from_words(words: Seq<u32>) -> Option<Self> {
        Some(
            SizeF32 { width: words[0], height: words[1] },
        )
    }

    proof fn lemma_words(&self) {
    }

    proof fn lemma_word_count() {
    }

    fn word_count() -> (n: usize) {
        2
    }

    fn to_words(&self) -> (words: Vec<u32>) {
        vec![
            self.width,
            self.height,
        ]
    }

    fn try_from_words(words: &[u32]) -> (value: Option<Self>) {
        Some(
            SizeF32 { width: words[0], height: words[1] },
        )
    }
}

/// A rectangle with its sides along the axes, as the bit patterns of four
/// floating point numbers.
#[derive(Default, Debug, Copy, Clone, PartialEq, Eq, Structural)]
pub struct AABB {
    pub left: u32,
    pub top: u32,
    pub right: u32,
    pub bottom: u32,
}

impl Record for AABB {
    open spec fn spec_word_count() -> nat {
        4
    }

    open spec fn words(&self) -> Seq<u32> {
        seq![
            self.left,
            self.top,
            self.right,
            self.bottom,
        ]
    }

    open spec fn from_words(words: Seq<u32>) -> Option<Self> {
        Some(
            AABB { left: words[0], top: words[1], right: words[2], bottom: words[3] },
        )
    }

    proof fn lemma_words(&self) {
    }

    proof fn lemma_word_count() {
    }

    fn word_count() -> (n: usize) {
        4
    }

    fn to_words(&self) -> (words: Vec<u32>) {
        vec![
            self.left,
            self.top,
            self.right,
            self.bottom,
        ]
    }

    fn try_from_words(words: &[u32]) -> (value: Option<Self>) {
        Some(
            AABB { left: words[0], top: words[1], right: words[2], bottom: words[3] },
        )
    }
}

/// The least multiple of `align` that is not below `value`.
#[verifier::opaque]
pub open spec fn round_up(value: int, align: int) -> int {
    if value % align == 0 {
        value
    } else {
        value + align - value % align
    }
}

/// `round_up(value, align)` is the only multiple of `align` in
/// `[value, value + align)`.
pub proof fn lemma_round_up_unique(value: int, align: int, r: int)
    requires
        align > 0,
        value >= 0,
        r % align == 0,
        value <= r < value + align,
    ensures
        round_up(value, align) == r,
{
    reveal(round_up);
    lemma_fundamental_div_mod(value, align);
    lemma_fundamental_div_mod(r, align);
    let qv = value / align;
    let qr = r / align;
    assert(qr == qv || qr == qv + 1) by (nonlinear_arith)
        requires
            align > 0,
            r == align * qr,
            value == align * qv + value % align,
            0 <= value % align < align,
            value <= r < value + align,
    ;
    assert(align * (qv + 1) == align * qv + align) by (nonlinear_arith);
}

/// `round_up` lands on a multiple of `align`, at most `align - 1` above `value`.
pub proof fn lemma_round_up_bounds(value: int, align: int)
    requires
        align > 0,
        value >= 0,
    ensures
        round_up(value, align) % align == 0,
        value <= round_up(value, align) < value + align,
{
    reveal(round_up);
    let m = value % align;
    if m != 0 {
        lemma_fundamental_div_mod(value, align);
        let q = value / align;
        assert(value + align - m == align * (q + 1)) by (nonlinear_arith)
            requires
                value == align * q + m,
        ;
        lemma_mod_multiples_basic(q + 1, align);
        assert((q + 1) * align == align * (q + 1)) by (nonlinear_arith);
    }
}

proof fn lemma_power_exponent(align: usize) -> (k: nat)
    requires
        is_pow2(align as int),
    ensures
        k < usize::BITS,
        pow2(k) == align,
        align > 0,
{
    is_pow2_equiv(align as int);
    let k = choose|i: nat| vstd::arithmetic::power::pow(2, i) == align as int;
    if k >= usize::BITS {
        lemma2_to64();
        lemma2_to64_rest();
        if k > usize::BITS {
            lemma_pow2_strictly_increases(usize::BITS as nat, k);
        }
    }
    lemma_pow2_pos(k);
    k
}

proof fn lemma_mask_rounds_up(value: usize, align: usize)
    requires
        is_pow2(align as int),
        value + align - 1 <= usize::MAX,
    ensures
        ((value + align - 1) as usize & !((align - 1) as usize)) as int == round_up(
            value as int,
            align as int,
        ),
{
    let k = lemma_power_exponent(align);
    lemma_pow2_pos(k);
    let top = (value + align - 1) as usize;
    let low = (align - 1) as usize;
    let r = top & !low;
    lemma_usize_low_bits_mask_is_mod(top, k);
    assert(top & low == top % align);
    assert(top & !low == top - (top & low)) by (bit_vector);
    lemma_fundamental_div_mod(top as int, align as int);
    let q = top as int / align as int;
    lemma_mod_multiples_basic(q, align as int);
    assert(q * align == align * q) by (nonlinear_arith);
    lemma_round_up_unique(value as int, align as int, r as int);
}

/// Rounds `value` up to the next multiple of `align`, by masking.
/// For an `align` that is no power of two the mask is all that is promised.
pub fn align_up(value: usize, align: usize) -> (r: usize)
    requires
        align >= 1,
        value + align - 1 <= usize::MAX,
    ensures
        r == (value + align - 1) as usize & !((align - 1) as usize),
        is_pow2(align as int) ==> r == round_up(value as int, align as int),
{
    proof {
        if is_pow2(align as int) {
            lemma_mask_rounds_up(value, align);
        }
    }
    let top: usize = value + (align - 1);
    top & !(align - 1)
}

impl PositionF32 {
    /// The coordinates as a pair.
    #[inline(always)]
    pub fn splat(&self) -> (pair: [u32; 2])
        ensures
            pair@ == seq![self.x, self.y],
    {
        let pair = [self.x, self.y];
        assert(pair@ =~= seq![self.x, self.y]);
        pair
    }
}

impl AABB {
    /// Left, top, right and bottom, in this order.
    pub fn splat(&self) -> (sides: [u32; 4])
        ensures
            sides@ == seq![self.left, self.top, self.right, self.bottom],
    {
        let sides = [self.left, self.top, self.right, self.bottom];
        assert(sides@ =~= seq![self.left, self.top, self.right, self.bottom]);
        sides
    }
}

/// The point with the given coordinates.
pub fn pos(x: u32, y: u32) -> (position: PositionF32)
    ensures
        position == (PositionF32 { x, y }),
{
    PositionF32 { x, y }
}

/// The size with the given width and height.
pub fn size(width: u32, height: u32) -> (size: SizeF32)
    ensures
        size == (SizeF32 { width, height }),
{
    SizeF32 { width, height }
}

/// Notes one more failure: the first failure stays, and each later one adds
/// its messages to it.
pub fn merge_error(err: &mut Option<Error>, new: Error)
    ensures
        (*final(err)) is Some,
        match *old(err) {
            Some(first) => {
                &&& (*final(err)).unwrap().spec_kind() == first.spec_kind()
                &&& (*final(err)).unwrap().texts() == first.texts() + new.texts()
            },
            None => (*final(err)).unwrap() == new,
        },
{
    match err.take() {
        Some(first) => {
            let mut merged = first;
            merged.merge(new);
            *err = Some(merged);
        },
        None => {
            *err = Some(new);
        },
    }
}

/// The place of the first `c` in `s`, or the length of `s` if there is none.
pub open spec fn first_index(s: Seq<char>, c: char) -> int
    decreases s.len(),
{
    if s.len() == 0 {
        0
    } else if s[0] == c {
        0
    } else {
        1 + first_index(s.skip(1), c)
    }
}

/// The place of the first `c` is the place before which there is none and at
/// which there is one, or the end.
pub proof fn lemma_first_index(s: Seq<char>, c: char, k: int)
    requires
        0 <= k <= s.len(),
        forall|j: int| 0 <= j < k ==> s[j] != c,
        k < s.len() ==> s[k] == c,
    ensures
        first_index(s, c) == k,
    decreases k,
{
    if k > 0 {
        lemma_first_index(s.skip(1), c, k - 1);
    }
}

/// The fields of a line: what lies between its semicolons.
pub open spec fn split_fields(line: Seq<char>) -> Seq<Seq<char>>
    decreases line.len(),
{
    let i = first_index(line, ';');
    if i < 0 || i >= line.len() {
        seq![line]
    } else {
        seq![line.subrange(0, i)] + split_fields(line.skip(i + 1))
    }
}

/// The first `max` of the items, or all of them if there are fewer.
pub open spec fn limit<A>(items: Seq<A>, max: nat) -> Seq<A> {
    if items.len() > max {
        items.subrange(0, max as int)
    } else {
        items
    }
}

/// The rows of a table: for each line that ends in a line feed, its fields,
/// the first `max` of them, the last with the line feed; a line with fewer
/// than two fields is left out, and so is what follows the last line feed.
pub open spec fn csv_rows(csv: Seq<char>, max: nat) -> Seq<Seq<Seq<char>>>
    decreases csv.len(),
{
    let i = first_index(csv, '\n');
    if i < 0 || i >= csv.len() {
        Seq::empty()
    } else {
        let args = limit(split_fields(csv.subrange(0, i + 1)), max);
        let rest = csv_rows(csv.skip(i + 1), max);
        if args.len() > 1 {
            seq![args] + rest
        } else {
            rest
        }
    }
}

/// The fields of a row as text.
pub open spec fn fields_text(fields: Seq<&str>) -> Seq<Seq<char>> {
    Seq::new(fields.len(), |i: int| fields[i]@)
}

/// The rows of a table as text.
pub open spec fn rows_text(rows: Seq<Vec<&str>>) -> Seq<Seq<Seq<char>>> {
    Seq::new(rows.len(), |i: int| fields_text(rows[i]@))
}

/// The fields of the line `csv[start..end]`, the first `max` of them.
fn split_line<'a>(csv: &'a str, start: usize, end: usize, max: usize) -> (fields: Vec<&'a str>)
    requires
        is_ascii(csv),
        start <= end <= csv@.len(),
    ensures
        fields_text(fields@) == limit(
            split_fields(csv@.subrange(start as int, end as int)),
            max as nat,
        ),
{
    let ghost line = csv@.subrange(start as int, end as int);
    let ghost mut found: Seq<Seq<char>> = Seq::empty();
    let mut fields: Vec<&'a str> = Vec::new();
    let mut from: usize = start;
    let mut at: usize = start;
    assert(line.skip(0) =~= line);
    assert(fields_text(fields@) =~= limit(found, max as nat));
    while at < end
        invariant
            is_ascii(csv),
            start <= from <= at <= end <= csv@.len(),
            line == csv@.subrange(start as int, end as int),
            forall|j: int| from <= j < at ==> csv@[j] != ';',
            found + split_fields(line.skip(from - start)) == split_fields(line),
            fields_text(fields@) == limit(found, max as nat),
        decreases end - at,
    {
        let byte: u8 = csv.get_ascii(at);
        if byte == 59 {
            let field: &'a str = csv.substring_ascii(from, at);
            proof {
                let rest = line.skip(from - start);
                assert(csv@[at as int] == ';');
                assert forall|j: int| 0 <= j < at - from implies rest[j] != ';' by {
                    assert(rest[j] == csv@[from + j]);
                }
                lemma_first_index(rest, ';', at - from);
                assert(rest.subrange(0, at - from) =~= field@);
                assert(rest.skip(at - from + 1) =~= line.skip(at + 1 - start));
                let grown = found.push(field@);
                assert(grown + split_fields(line.skip(at + 1 - start)) =~= found + (seq![field@]
                    + split_fields(line.skip(at + 1 - start))));
                assert(grown.drop_last() =~= found);
                found = grown;
            }
            let ghost listed = fields@;
            if fields.len() < max {
                fields.push(field);
            }
            proof {
                let before = found.drop_last();
                assert(before =~= found.subrange(0, found.len() - 1));
                assert(fields_text(listed).len() == listed.len());
                if listed.len() < max {
                    assert(limit(before, max as nat) == before);
                    assert(fields_text(fields@) =~= found);
                } else {
                    assert(limit(found, max as nat) =~= limit(before, max as nat));
                }
            }
            assert(fields_text(fields@) =~= limit(found, max as nat));
            from = at + 1;
        } else {
            assert(csv@[at as int] != ';');
        }
        at = at + 1;
    }
    let field: &'a str = csv.substring_ascii(from, end);
    proof {
        let rest = line.skip(from - start);
        assert forall|j: int| 0 <= j < end - from implies rest[j] != ';' by {
            assert(rest[j] == csv@[from + j]);
        }
        lemma_first_index(rest, ';', end - from);
        assert(rest =~= field@);
        assert(found.push(field@) =~= found + seq![rest]);
        assert(found.push(field@).drop_last() =~= found);
        found = found.push(field@);
    }
    let ghost listed = fields@;
    if fields.len() < max {
        fields.push(field);
    }
    proof {
        let before = found.drop_last();
        assert(fields_text(listed).len() == listed.len());
        if listed.len() < max {
            assert(limit(before, max as nat) == before);
            assert(fields_text(fields@) =~= found);
        } else {
            assert(limit(found, max as nat) =~= limit(before, max as nat));
        }
    }
    assert(fields_text(fields@) =~= limit(found, max as nat));
    fields
}

/// Splits a table into rows of up to `MAX_ARGS` fields. The text has to be
/// ASCII.
pub fn split_csv<'a, const MAX_ARGS: usize>(csv: &'a str) -> (rows: Vec<Vec<&'a str>>)
    requires
        is_ascii(csv),
    ensures
        rows_text(rows@) == csv_rows(csv@, MAX_ARGS as nat),
{
    broadcast use vstd::string::is_ascii_spec_bytes;

    let length: usize = csv.as_bytes().len();
    assert(csv.spec_bytes().len() == csv@.len());
    let mut rows: Vec<Vec<&'a str>> = Vec::new();
    let mut start: usize = 0;
    let mut end: usize = 0;
    assert(csv@.skip(0) =~= csv@);
    assert(rows_text(rows@) + csv_rows(csv@, MAX_ARGS as nat) =~= csv_rows(csv@, MAX_ARGS as nat));
    while end < length
        invariant
            is_ascii(csv),
            length == csv@.len(),
            start <= end <= length,
            forall|j: int| start <= j < end ==> csv@[j] != '\n',
            rows_text(rows@) + csv_rows(csv@.skip(start as int), MAX_ARGS as nat) == csv_rows(
                csv@,
                MAX_ARGS as nat,
            ),
        decreases length - end,
    {
        let byte: u8 = csv.get_ascii(end);
        end = end + 1;
        if byte == 10 {
            let args = split_line(csv, start, end, MAX_ARGS);
            let ghost before = rows_text(rows@);
            proof {
                let rest = csv@.skip(start as int);
                assert(csv@[end - 1] == '\n');
                assert forall|j: int| 0 <= j < end - 1 - start implies rest[j] != '\n' by {
                    assert(rest[j] == csv@[start + j]);
                }
                lemma_first_index(rest, '\n', end - 1 - start);
                assert(rest.subrange(0, end - start) =~= csv@.subrange(start as int, end as int));
                assert(rest.skip(end - start) =~= csv@.skip(end as int));
            }
            if args.len() > 1 {
                rows.push(args);
                assert(rows_text(rows@) =~= before + seq![fields_text(args@)]);
                assert(rows_text(rows@) + csv_rows(csv@.skip(end as int), MAX_ARGS as nat)
                    =~= before + (seq![fields_text(args@)] + csv_rows(
                    csv@.skip(end as int),
                    MAX_ARGS as nat,
                )));
            }
            start = end;
        } else {
            assert(csv@[end - 1] != '\n');
        }
    }
    proof {
        let rest = csv@.skip(start as int);
        assert forall|j: int| 0 <= j < rest.len() implies rest[j] != '\n' by {
            assert(rest[j] == csv@[start + j]);
        }
        lemma_first_index(rest, '\n', rest.len() as int);
        assert(rows_text(rows@) + Seq::<Seq<Seq<char>>>::empty() =~= rows_text(rows@));
    }
    rows
}

} // verus!
