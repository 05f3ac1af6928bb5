//! The drawing order: sprites sorted by depth, each behind those that were
//! listed before it with the same depth.

use crate::data::world::OrderedSprite;
use vstd::prelude::*;

verus! {

/// `order` tells for each place of `output` the place in `input` that its
/// sprite comes from, and uses each place of `input` once.
pub open spec fn is_ordering(
    input: Seq<OrderedSprite>,
    output: Seq<OrderedSprite>,
    order: Seq<int>,
) -> bool {
    &&& order.len() == input.len()
    &&& output.len() == input.len()
    &&& forall|i: int| 0 <= i < order.len() ==> 0 <= #[trigger] order[i] < input.len()
    &&& forall|i: int, j: int| 0 <= i < j < order.len() ==> order[i] != order[j]
    &&& forall|i: int| 0 <= i < order.len() ==> #[trigger] output[i] == input[order[i]]
}

/// The depth keys do not go down.
pub open spec fn sorted_by_depth(sprites: Seq<OrderedSprite>) -> bool {
    forall|i: int, j: int| 0 <= i < j < sprites.len() ==> sprites[i].y <= sprites[j].y
}

/// Of two sprites with one depth key, the one that was listed first comes
/// first.
pub open spec fn keeps_ties(output: Seq<OrderedSprite>, order: Seq<int>) -> bool {
    forall|i: int, j: int|
        0 <= i < j < output.len() && output[i].y == output[j].y ==> order[i] < order[j]
}

/// `output` holds the sprites of `input`, sorted by depth, ties in the order
/// of `input`.
pub open spec fn is_stable_sort(input: Seq<OrderedSprite>, output: Seq<OrderedSprite>) -> bool {
    exists|order: Seq<int>|
        is_ordering(input, output, order) && sorted_by_depth(output) && keeps_ties(output, order)
}

/// A sprite with the place at which it was listed.
#[derive(Copy, Clone)]
struct Placed {
    sprite: OrderedSprite,
    at: usize,
}

/// `a` is drawn before `b`: it has the smaller depth key, or the same and
/// was listed first.
spec fn goes_first(a: Placed, b: Placed) -> bool {
    a.sprite.y < b.sprite.y || (a.sprite.y == b.sprite.y && a.at < b.at)
}

/// Each sprite is drawn before those that follow it.
spec fn in_order(run: Seq<Placed>) -> bool {
    forall|i: int, j: int| 0 <= i < j < run.len() ==> goes_first(run[i], run[j])
}

/// Each sprite of the run is the one that `input` lists at its place, and
/// the places lie in `[lo, hi)`.
spec fn taken_from(run: Seq<Placed>, input: Seq<OrderedSprite>, lo: int, hi: int) -> bool {
    forall|i: int|
        0 <= i < run.len() ==> lo <= (#[trigger] run[i]).at < hi && run[i].sprite
            == input[run[i].at as int]
}

/// Merges two runs that are in order into one. The sprites of `left` were
/// listed at places `[lo, mid)`, those of `right` at places `[mid, hi)`, so
/// of two sprites with one depth key the one of `left` goes first.
fn merge(
    left: &Vec<Placed>,
    right: &Vec<Placed>,
    Ghost(input): Ghost<Seq<OrderedSprite>>,
    Ghost(lo): Ghost<int>,
    Ghost(mid): Ghost<int>,
    Ghost(hi): Ghost<int>,
) -> (out: Vec<Placed>)
    requires
        in_order(left@),
        in_order(right@),
        taken_from(left@, input, lo, mid),
        taken_from(right@, input, mid, hi),
        lo <= mid <= hi,
        left@.len() + right@.len() <= usize::MAX,
    ensures
        out@.len() == left@.len() + right@.len(),
        in_order(out@),
        taken_from(out@, input, lo, hi),
{
    let mut out: Vec<Placed> = Vec::new();
    let mut i: usize = 0;
    let mut j: usize = 0;
    while i < left.len() || j < right.len()
        invariant
            i <= left@.len(),
            j <= right@.len(),
            left@.len() + right@.len() <= usize::MAX,
            lo <= mid <= hi,
            out@.len() == i + j,
            in_order(left@),
            in_order(right@),
            taken_from(left@, input, lo, mid),
            taken_from(right@, input, mid, hi),
            in_order(out@),
            taken_from(out@, input, lo, hi),
            forall|k: int, p: int|
                0 <= k < out@.len() && i <= p < left@.len() ==> goes_first(
                    #[trigger] out@[k],
                    #[trigger] left@[p],
                ),
            forall|k: int, q: int|
                0 <= k < out@.len() && j <= q < right@.len() ==> goes_first(
                    #[trigger] out@[k],
                    #[trigger] right@[q],
                ),
        decreases left@.len() + right@.len() - i - j,
    {
        let ghost before = out@;
        let from_left: bool = if i < left.len() && j < right.len() {
            left[i].sprite.y <= right[j].sprite.y
        } else {
            i < left.len()
        };
        if from_left {
            let item: Placed = left[i];
            out.push(item);
            i = i + 1;
            proof {
                assert forall|a: int, b: int| 0 <= a < b < out@.len() implies goes_first(
                    out@[a],
                    out@[b],
                ) by {
                    if b == before.len() {
                        assert(out@[a] == before[a]);
                        assert(goes_first(before[a], left@[i - 1]));
                    } else {
                        assert(out@[a] == before[a] && out@[b] == before[b]);
                    }
                }
                assert forall|k: int, p: int|
                    0 <= k < out@.len() && i <= p < left@.len() implies goes_first(
                    #[trigger] out@[k],
                    #[trigger] left@[p],
                ) by {
                    if k == before.len() {
                        assert(goes_first(left@[i - 1], left@[p]));
                    } else {
                        assert(out@[k] == before[k]);
                    }
                }
                assert forall|k: int, q: int|
                    0 <= k < out@.len() && j <= q < right@.len() implies goes_first(
                    #[trigger] out@[k],
                    #[trigger] right@[q],
                ) by {
                    if k == before.len() {
                        assert(left@[i - 1].at < mid <= right@[q].at);
                        if q > j {
                            assert(goes_first(right@[j as int], right@[q]));
                        }
                    } else {
                        assert(out@[k] == before[k]);
                    }
                }
                assert forall|k: int| 0 <= k < out@.len() implies lo <= (#[trigger] out@[k]).at
                    < hi && out@[k].sprite == input[out@[k].at as int] by {
                    if k < before.len() {
                        assert(out@[k] == before[k]);
                    } else {
                        assert(out@[k] == left@[i - 1]);
                    }
                }
            }
        } else {
            let item: Placed = right[j];
            out.push(item);
            j = j + 1;
            proof {
                assert forall|a: int, b: int| 0 <= a < b < out@.len() implies goes_first(
                    out@[a],
                    out@[b],
                ) by {
                    if b == before.len() {
                        assert(out@[a] == before[a]);
                        assert(goes_first(before[a], right@[j - 1]));
                    } else {
                        assert(out@[a] == before[a] && out@[b] == before[b]);
                    }
                }
                assert forall|k: int, p: int|
                    0 <= k < out@.len() && i <= p < left@.len() implies goes_first(
                    #[trigger] out@[k],
                    #[trigger] left@[p],
                ) by {
                    if k == before.len() {
                        if p > i {
                            assert(goes_first(left@[i as int], left@[p]));
                        }
                    } else {
                        assert(out@[k] == before[k]);
                    }
                }
                assert forall|k: int, q: int|
                    0 <= k < out@.len() && j <= q < right@.len() implies goes_first(
                    #[trigger] out@[k],
                    #[trigger] right@[q],
                ) by {
                    if k == before.len() {
                        assert(goes_first(right@[j - 1], right@[q]));
                    } else {
                        assert(out@[k] == before[k]);
                    }
                }
                assert forall|k: int| 0 <= k < out@.len() implies lo <= (#[trigger] out@[k]).at
                    < hi && out@[k].sprite == input[out@[k].at as int] by {
                    if k < before.len() {
                        assert(out@[k] == before[k]);
                    } else {
                        assert(out@[k] == right@[j - 1]);
                    }
                }
            }
        }
    }
    out
}

/// The sprites that are listed at places `[lo, hi)`, in order.
fn sort_range(sprites: &Vec<OrderedSprite>, lo: usize, hi: usize) -> (run: Vec<Placed>)
    requires
        lo <= hi <= sprites@.len(),
    ensures
        run@.len() == hi - lo,
        in_order(run@),
        taken_from(run@, sprites@, lo as int, hi as int),
    decreases hi - lo,
{
    if hi - lo == 0 {
        Vec::new()
    } else if hi - lo == 1 {
        let mut run: Vec<Placed> = Vec::new();
        run.push(Placed { sprite: sprites[lo], at: lo });
        run
    } else {
        let mid: usize = lo + (hi - lo) / 2;
        let left = sort_range(sprites, lo, mid);
        let right = sort_range(sprites, mid, hi);
        merge(&left, &right, Ghost(sprites@), Ghost(lo as int), Ghost(mid as int), Ghost(hi as int))
    }
}

/// Sorts the sprites by depth. Sprites of one depth keep their order. The
/// number of steps grows as the number of sprites times its logarithm.
pub fn sort_by_depth(sprites: &mut Vec<OrderedSprite>)
    ensures
        is_stable_sort(old(sprites)@, final(sprites)@),
{
    let ghost input = sprites@;
    let run = sort_range(sprites, 0, sprites.len());
    let mut out: Vec<OrderedSprite> = Vec::new();
    let mut k: usize = 0;
    while k < run.len()
        invariant
            k <= run@.len(),
            out@.len() == k,
            forall|i: int| 0 <= i < k ==> #[trigger] out@[i] == run@[i].sprite,
        decreases run.len() - k,
    {
        out.push(run[k].sprite);
        k = k + 1;
    }
    proof {
        let order = Seq::new(run@.len(), |i: int| run@[i].at as int);
        assert forall|i: int, j: int| 0 <= i < j < order.len() implies order[i] != order[j] by {
            assert(goes_first(run@[i], run@[j]));
            assert(run@[i].sprite == input[run@[i].at as int]);
            assert(run@[j].sprite == input[run@[j].at as int]);
        }
        assert forall|i: int| 0 <= i < order.len() implies #[trigger] out@[i]
            == input[order[i]] by {
            assert(run@[i].sprite == input[run@[i].at as int]);
        }
        assert forall|i: int, j: int| 0 <= i < j < out@.len() implies out@[i].y <= out@[j].y by {
            assert(goes_first(run@[i], run@[j]));
        }
        assert forall|i: int, j: int|
            0 <= i < j < out@.len() && out@[i].y == out@[j].y implies order[i] < order[j] by {
            assert(goes_first(run@[i], run@[j]));
        }
        assert(is_ordering(input, out@, order));
        assert(sorted_by_depth(out@));
        assert(keeps_ties(out@, order));
    }
    *sprites = out;
}

/// The place of a floating point number among the others, as a whole
/// number. `bits` is the bit pattern of the number: the sign in the highest
/// bit, and below it the magnitude, which grows with its bit pattern. A
/// number without sign has its magnitude as its key, and a number with sign
/// the negative of it, so that both zeros have the key zero.
pub open spec fn spec_depth_key(bits: u32) -> int {
    if bits < 0x8000_0000 {
        bits as int
    } else {
        -(bits - 0x8000_0000)
    }
}

/// The depth key for the lower edge of a sprite, given as the bit pattern
/// of a floating point number. No two numbers share a key but the two
/// zeros, so no two sprites tie that do not stand at the same depth.
pub fn depth_key(bits: u32) -> (key: i64)
    ensures
        key == spec_depth_key(bits),
{
    if bits < 0x8000_0000 {
        bits as i64
    } else {
        -((bits - 0x8000_0000) as i64)
    }
}

/// The keys go as the numbers go. Of two numbers without sign the one with
/// the smaller magnitude has the smaller key; of two with sign, the one with
/// the greater magnitude; a number with sign never has a greater key than
/// one without; and two numbers have one key only if they are the same or
/// both are zero.
pub proof fn lemma_depth_key_order(a: u32, b: u32)
    ensures
        a < 0x8000_0000 && b < 0x8000_0000 ==> (spec_depth_key(a) <= spec_depth_key(b) <==> a
            <= b),
        a >= 0x8000_0000 && b >= 0x8000_0000 ==> (spec_depth_key(a) <= spec_depth_key(b) <==> a
            >= b),
        a >= 0x8000_0000 && b < 0x8000_0000 ==> spec_depth_key(a) <= spec_depth_key(b),
        spec_depth_key(a) == spec_depth_key(b) <==> (a == b || (a % 0x8000_0000 == 0 && b
            % 0x8000_0000 == 0)),
{
}

} // verus!
