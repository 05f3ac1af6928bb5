//! The debug overlay: shapes that are drawn over the scene for one frame.

use crate::output::gpu_shared::GpuDebugVertex;
use crate::shared::AABB;
use vstd::prelude::*;

verus! {

/// A shape of the debug overlay.
#[derive(Debug, Copy, Clone, PartialEq, Eq)]
pub enum DebugElement {
    /// The outline of a rectangle, `line_thickness` wide.
    Rect { base: AABB, line_thickness: u32, color: [u8; 4] },
}

/// The most shapes that the overlay holds: with more, the corners could not
/// be numbered with 16 bits.
pub const MAX_DEBUG_ELEMENTS: usize = 8192;

/// The indices of an outline. Its eight corners are numbered from `base` on:
///
/// ```text
/// 0-----4
/// | 1 5 |
/// | 3 7 |
/// 2-----6
/// ```
///
/// and the four sides are two triangles each: top, bottom, left, right.
pub open spec fn rect_indices(base: int) -> Seq<int> {
    seq![
        base + 0,
        base + 5,
        base + 4,
        base + 0,
        base + 1,
        base + 5,
        base + 3,
        base + 2,
        base + 7,
        base + 7,
        base + 2,
        base + 6,
        base + 0,
        base + 2,
        base + 1,
        base + 1,
        base + 2,
        base + 3,
        base + 4,
        base + 5,
        base + 6,
        base + 5,
        base + 7,
        base + 6,
    ]
}

/// The indices of the first `n` shapes: shape `k` has the corners from
/// `8 * k` on.
pub open spec fn mesh_indices(n: nat) -> Seq<int>
    decreases n,
{
    if n == 0 {
        Seq::empty()
    } else {
        mesh_indices((n - 1) as nat) + rect_indices(8 * (n - 1))
    }
}

/// The corners in `vertices` are those that `corners` gives for the first
/// `n` shapes, eight for each.
pub open spec fn mesh_vertices<F: Fn(&DebugElement) -> [GpuDebugVertex; 8]>(
    elements: Seq<DebugElement>,
    vertices: Seq<GpuDebugVertex>,
    n: nat,
    corners: F,
) -> bool {
    &&& vertices.len() == 8 * n
    &&& forall|k: int| 0 <= k < n ==> #[trigger] corners_at(elements, vertices, k, corners)
}

/// The eight corners from `8 * k` on are those that `corners` gives for
/// shape `k`.
pub open spec fn corners_at<F: Fn(&DebugElement) -> [GpuDebugVertex; 8]>(
    elements: Seq<DebugElement>,
    vertices: Seq<GpuDebugVertex>,
    k: int,
    corners: F,
) -> bool {
    exists|made: [GpuDebugVertex; 8]|
        corners.ensures((&elements[k],), made) && vertices.subrange(8 * k, 8 * k + 8) == made@
}

/// The shapes of the overlay.
#[derive(Debug)]
pub struct DebugState {
    elements: Vec<DebugElement>,
}

impl Default for DebugState {
    fn default() -> (state: DebugState)
        ensures
            state.elements() == Seq::<DebugElement>::empty(),
    {
        DebugState::new()
    }
}

impl DebugState {
    /// The shapes, in the order in which they were drawn.
    pub closed spec fn elements(&self) -> Seq<DebugElement> {
        self.elements@
    }

    /// An empty overlay.
    pub fn new() -> (state: DebugState)
        ensures
            state.elements() == Seq::<DebugElement>::empty(),
    {
        DebugState { elements: Vec::new() }
    }

    /// Whether there is anything to draw.
    pub fn any(&self) -> (any: bool)
        ensures
            any == (self.elements().len() > 0),
    {
        self.elements.len() > 0
    }

    /// The number of shapes.
    pub fn len(&self) -> (n: usize)
        ensures
            n == self.elements().len(),
    {
        self.elements.len()
    }

    /// Takes all shapes off.
    pub fn clear(&mut self)
        ensures
            final(self).elements() == Seq::<DebugElement>::empty(),
    {
        self.elements.clear();
    }

    /// Draws the outline of `rect`.
    pub fn draw_rect(&mut self, rect: AABB, line_thickness: u32, color: [u8; 4])
        ensures
            final(self).elements() == old(self).elements().push(
                DebugElement::Rect { base: rect, line_thickness, color },
            ),
    {
        self.elements.push(DebugElement::Rect { base: rect, line_thickness, color });
    }

    /// The number of indices, the size of the index block in bytes, and the
    /// size of the vertex block in bytes, that hold the mesh of the overlay.
    /// The sizes have to fit the machine's numbers.
    pub fn buffers_sizes(&self) -> (sizes: [usize; 3])
        requires
            96 * self.elements().len() <= usize::MAX,
        ensures
            sizes[0] == 24 * self.elements().len(),
            sizes[1] == 48 * self.elements().len(),
            sizes[2] == 96 * self.elements().len(),
    {
        let mut index_count: usize = 0;
        let mut vertex_count: usize = 0;
        let mut i: usize = 0;
        while i < self.elements.len()
            invariant
                i <= self.elements.len(),
                96 * self.elements.len() <= usize::MAX,
                index_count == 24 * i,
                vertex_count == 8 * i,
            decreases self.elements.len() - i,
        {
            match self.elements[i] {
                DebugElement::Rect { .. } => {
                    index_count = index_count + 24;
                    vertex_count = vertex_count + 8;
                },
            }
            i = i + 1;
        }
        proof {
            assert(vstd::arithmetic::power2::is_pow2(4)) by {
                reveal_with_fuel(vstd::arithmetic::power2::is_pow2, 3);
            }
            crate::shared::lemma_round_up_unique(2 * index_count as int, 4, 2 * index_count as int);
        }
        let sizes = [
            index_count,
            crate::shared::align_up(index_count * 2, 4),
            vertex_count * 12,
        ];
        sizes
    }

    /// Makes the mesh of the overlay: the indices of all shapes, and the
    /// corners that `corners` gives for each.
    pub fn generate_mesh<F: Fn(&DebugElement) -> [GpuDebugVertex; 8]>(
        &self,
        index: &mut Vec<u16>,
        vertex: &mut Vec<GpuDebugVertex>,
        corners: F,
    )
        requires
            self.elements().len() <= MAX_DEBUG_ELEMENTS,
            forall|element: &DebugElement| corners.requires((element,)),
        ensures
            final(index)@.len() == 24 * self.elements().len(),
            forall|i: int|
                0 <= i < final(index)@.len() ==> #[trigger] final(index)@[i] as int
                    == mesh_indices(self.elements().len())[i],
            mesh_vertices(self.elements(), final(vertex)@, self.elements().len(), corners),
    {
        index.clear();
        vertex.clear();
        let mut k: usize = 0;
        while k < self.elements.len()
            invariant
                k <= self.elements.len() <= MAX_DEBUG_ELEMENTS,
                forall|element: &DebugElement| corners.requires((element,)),
                index@.len() == 24 * k,
                mesh_indices(k as nat).len() == 24 * k,
                forall|i: int|
                    0 <= i < index@.len() ==> #[trigger] index@[i] as int == mesh_indices(
                        k as nat,
                    )[i],
                mesh_vertices(self.elements(), vertex@, k as nat, corners),
            decreases self.elements.len() - k,
        {
            let v: u16 = (8 * k) as u16;
            let ghost before = index@;
            index.push(v + 0);
            index.push(v + 5);
            index.push(v + 4);
            index.push(v + 0);
            index.push(v + 1);
            index.push(v + 5);
            index.push(v + 3);
            index.push(v + 2);
            index.push(v + 7);
            index.push(v + 7);
            index.push(v + 2);
            index.push(v + 6);
            index.push(v + 0);
            index.push(v + 2);
            index.push(v + 1);
            index.push(v + 1);
            index.push(v + 2);
            index.push(v + 3);
            index.push(v + 4);
            index.push(v + 5);
            index.push(v + 6);
            index.push(v + 5);
            index.push(v + 7);
            index.push(v + 6);
            let made: [GpuDebugVertex; 8] = corners(&self.elements[k]);
            let ghost old_vertex = vertex@;
            let mut c: usize = 0;
            while c < 8
                invariant
                    c <= 8,
                    vertex@ == old_vertex + made@.subrange(0, c as int),
                decreases 8 - c,
            {
                vertex.push(made[c]);
                c = c + 1;
                assert(vertex@ =~= old_vertex + made@.subrange(0, c as int));
            }
            proof {
                assert(made@.subrange(0, 8) =~= made@);
                let tail = rect_indices(8 * k);
                assert(mesh_indices((k + 1) as nat) == mesh_indices(k as nat) + tail);
                assert forall|i: int| 0 <= i < index@.len() implies #[trigger] index@[i] as int
                    == mesh_indices((k + 1) as nat)[i] by {
                    if i < 24 * k {
                        assert(index@[i] == before[i]);
                    } else {
                        assert(mesh_indices((k + 1) as nat)[i] == tail[i - 24 * k]);
                    }
                }
                assert forall|j: int| 0 <= j < k + 1 implies #[trigger] corners_at(
                    self.elements(),
                    vertex@,
                    j,
                    corners,
                ) by {
                    if j < k {
                        assert(corners_at(self.elements(), old_vertex, j, corners));
                        let m = choose|m: [GpuDebugVertex; 8]|
                            corners.ensures((&self.elements()[j],), m) && old_vertex.subrange(
                                8 * j,
                                8 * j + 8,
                            ) == m@;
                        assert(vertex@.subrange(8 * j, 8 * j + 8) =~= old_vertex.subrange(
                            8 * j,
                            8 * j + 8,
                        ));
                    } else {
                        assert(vertex@.subrange(8 * j, 8 * j + 8) =~= made@);
                    }
                }
            }
            k = k + 1;
        }
    }
}

} // verus!
