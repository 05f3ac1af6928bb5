//! The passes of a frame: each puts its data into the data arena and its
//! messages into the queue. A message that names data follows that data, or
//! comes with it, so that the host, which works through the messages in
//! order, finds what it needs.

use crate::bytes::{pack_u16, spec_pack_u16, words_bytes, zeros};
use crate::data::base::BaseSprite;
use crate::data::debug::{mesh_indices, mesh_vertices, DebugElement, DebugState, MAX_DEBUG_ELEMENTS};
use crate::data::terrain::Terrain;
use crate::data::world::InsertSprite;
use crate::output::gpu_shared::{
    GpuDebugVertex, GpuSpriteData, GpuTerrainSpriteData, InsertSpriteVertex,
};
use crate::output::message::{
    DrawDebugParams, DrawInsertSpriteParams, DrawSpritesParams, GuiMeshUpdateParams,
    GuiTextureUpdateParams, OutputMessage, OutputMessageParams, OutputMessageType,
    UpdateSpritesParams, UpdateTerrainParams,
};
use crate::output::GameOutput;
use crate::shared::{lemma_round_up_unique, round_up, PositionF32};
use crate::store::{record_stored, records_stored};
use vstd::prelude::*;

verus! {

/// What a frame holds so far: its messages and its data.
pub struct Frame {
    pub messages: Seq<OutputMessage>,
    pub data: Seq<u8>,
}

impl GameOutput {
    /// What the frame holds so far.
    pub open spec fn frame(&self) -> Frame {
        Frame { messages: self.messages(), data: self.data() }
    }
}

/// A texture of the panel, or a part of one, with its pixels.
#[derive(Debug)]
pub struct GuiTexture {
    pub id: u32,
    pub x: u32,
    pub y: u32,
    pub width: u32,
    pub height: u32,
    pub pixels: Vec<u8>,
}

/// A mesh of the panel. The corners are bytes as the host's shader takes
/// them; the clip rectangle is four floating point numbers, carried as their
/// bit patterns.
#[derive(Debug)]
pub struct GuiMesh {
    pub clip: [u32; 4],
    pub texture_id: u32,
    pub indices: Vec<u32>,
    pub vertices: Vec<u8>,
}

/// What the panel wants painted.
#[derive(Debug)]
pub struct GuiFrame {
    pub textures: Vec<GuiTexture>,
    pub meshes: Vec<GuiMesh>,
}

/// The size of a sprite record in bytes.
pub const SPRITE_SIZE: usize = 36;

/// The size of a terrain record in bytes.
pub const CELL_SIZE: usize = 16;

/// The size of a corner of the sprite that is about to be placed, in bytes.
pub const PREVIEW_VERTEX_SIZE: usize = 16;

/// The message that moves the view.
pub open spec fn view_offset_message(view_offset: PositionF32) -> OutputMessage {
    OutputMessage {
        ty: OutputMessageType::UpdateViewOffset,
        params: OutputMessageParams::UpdateViewOffset(view_offset),
    }
}

/// After the view offset pass: one more message, no more data.
pub open spec fn view_offset_passed(before: Frame, after: Frame, view_offset: PositionF32) -> bool {
    &&& after.messages == before.messages.push(view_offset_message(view_offset))
    &&& after.data == before.data
}

/// After the terrain pass: the message that names the cells, and then the
/// record of each cell, row by row, as `cell_at` gives it for the column
/// and the row.
pub open spec fn terrain_passed<C: Fn(u32, u32) -> GpuTerrainSpriteData>(
    before: Frame,
    after: Frame,
    width: u32,
    height: u32,
    cell_at: C,
) -> bool {
    &&& after.messages == before.messages.push(
        OutputMessage {
            ty: OutputMessageType::UpdateTerrain,
            params: OutputMessageParams::UpdateTerrain(
                UpdateTerrainParams {
                    offset_bytes: before.data.len() as usize,
                    size_bytes: (width * height * CELL_SIZE) as usize,
                    cell_count: (width * height) as usize,
                },
            ),
        },
    )
    &&& exists|cells: Seq<GpuTerrainSpriteData>|
        {
            &&& cells.len() == width * height
            &&& forall|i: int|
                0 <= i < cells.len() ==> cell_at.ensures(
                    ((i % width as int) as u32, (i / width as int) as u32),
                    #[trigger] cells[i],
                )
            &&& after.data == before.data + records_stored(cells, cells.len())
        }
}

/// After the sprite pass: the record of each sprite, in drawing order, as
/// `to_gpu` gives it; the message that names the records; and the message
/// that draws as many sprites as there are records.
pub open spec fn sprites_passed<G: Fn(&BaseSprite) -> GpuSpriteData>(
    before: Frame,
    after: Frame,
    sprites: Seq<BaseSprite>,
    texture_id: u32,
    to_gpu: G,
) -> bool {
    &&& after.messages == before.messages.push(
        OutputMessage {
            ty: OutputMessageType::UpdateSprites,
            params: OutputMessageParams::UpdateSprites(
                UpdateSpritesParams {
                    offset_bytes: before.data.len() as usize,
                    size_bytes: (sprites.len() * SPRITE_SIZE) as usize,
                },
            ),
        },
    ).push(
        OutputMessage {
            ty: OutputMessageType::DrawSprites,
            params: OutputMessageParams::DrawSprites(
                DrawSpritesParams {
                    instance_base: 0,
                    instance_count: sprites.len() as u32,
                    texture_id,
                },
            ),
        },
    )
    &&& exists|records: Seq<GpuSpriteData>|
        {
            &&& records.len() == sprites.len()
            &&& forall|i: int|
                0 <= i < records.len() ==> to_gpu.ensures((&sprites[i],), #[trigger] records[i])
            &&& after.data == before.data + records_stored(records, records.len())
        }
}

/// After the preview pass: the six corners that `preview` gives for the
/// sprite that is about to be placed, and the message that names them.
pub open spec fn preview_passed<V: Fn(&InsertSprite) -> [InsertSpriteVertex; 6]>(
    before: Frame,
    after: Frame,
    insert_sprite: InsertSprite,
    preview: V,
) -> bool {
    &&& after.messages == before.messages.push(
        OutputMessage {
            ty: OutputMessageType::DrawInsertSprite,
            params: OutputMessageParams::DrawInsertSprite(
                DrawInsertSpriteParams {
                    vertex_offset_bytes: before.data.len() as usize,
                    vertex_size_bytes: (6 * PREVIEW_VERTEX_SIZE) as usize,
                },
            ),
        },
    )
    &&& exists|corners: [InsertSpriteVertex; 6]|
        {
            &&& preview.ensures((&insert_sprite,), corners)
            &&& after.data == before.data + records_stored(corners@, 6)
        }
}

/// The indices, two to a word, the first in the two low bytes.
pub open spec fn packed_indices(indices: Seq<u16>) -> Seq<u32> {
    Seq::new(indices.len() / 2, |k: int| spec_pack_u16(indices[2 * k], indices[2 * k + 1]))
}

/// After the debug pass: the indices of the overlay from the next multiple
/// of four bytes on, the corners that `corners` gives right after them, and
/// the message that names both.
pub open spec fn debug_passed<K: Fn(&DebugElement) -> [GpuDebugVertex; 8]>(
    before: Frame,
    after: Frame,
    elements: Seq<DebugElement>,
    corners: K,
) -> bool {
    let n = elements.len();
    let index_offset = round_up(before.data.len() as int, 4);
    &&& after.messages == before.messages.push(
        OutputMessage {
            ty: OutputMessageType::DrawDebug,
            params: OutputMessageParams::DrawDebug(
                DrawDebugParams {
                    index_offset_bytes: index_offset as usize,
                    index_size_bytes: (48 * n) as usize,
                    vertex_offset_bytes: (index_offset + 48 * n) as usize,
                    vertex_size_bytes: (96 * n) as usize,
                    count: (24 * n) as usize,
                },
            ),
        },
    )
    &&& exists|indices: Seq<u16>, vertices: Seq<GpuDebugVertex>|
        {
            &&& indices.len() == 24 * n
            &&& forall|i: int|
                0 <= i < indices.len() ==> #[trigger] indices[i] as int == mesh_indices(n)[i]
            &&& mesh_vertices(elements, vertices, n, corners)
            &&& after.data == before.data + zeros((index_offset - before.data.len()) as nat)
                + words_bytes(packed_indices(indices), 12 * n) + records_stored(
                vertices,
                vertices.len(),
            )
        }
}

/// After one texture of the panel: its pixels, and the message that names
/// them.
pub open spec fn texture_passed(
    before: Frame,
    after: Frame,
    id: u32,
    x: u32,
    y: u32,
    width: u32,
    height: u32,
    pixels: Seq<u8>,
) -> bool {
    &&& after.data == before.data + pixels
    &&& after.messages == before.messages.push(
        OutputMessage {
            ty: OutputMessageType::GuiTextureUpdate,
            params: OutputMessageParams::GuiTextureUpdate(
                GuiTextureUpdateParams {
                    pixels_offset: before.data.len() as usize,
                    pixels_size: pixels.len() as usize,
                    x,
                    y,
                    width,
                    height,
                    id,
                },
            ),
        },
    )
}

/// After the first `n` textures of the panel, one after the other.
pub open spec fn textures_passed(
    before: Frame,
    after: Frame,
    textures: Seq<GuiTexture>,
    n: nat,
) -> bool
    decreases n,
{
    if n == 0 {
        after == before
    } else {
        exists|middle: Frame|
            textures_passed(before, middle, textures, (n - 1) as nat) && #[trigger] texture_passed(
                middle,
                after,
                textures[n - 1].id,
                textures[n - 1].x,
                textures[n - 1].y,
                textures[n - 1].width,
                textures[n - 1].height,
                textures[n - 1].pixels@,
            )
    }
}

/// After one mesh of the panel: its indices from the next multiple of four
/// bytes on, its corners from the next multiple of four bytes after them on,
/// and the message that names both.
pub open spec fn mesh_passed(
    before: Frame,
    after: Frame,
    clip: [u32; 4],
    texture_id: u32,
    indices: Seq<u32>,
    vertices: Seq<u8>,
) -> bool {
    let index_offset = round_up(before.data.len() as int, 4);
    let indexed = before.data + zeros((index_offset - before.data.len()) as nat) + words_bytes(
        indices,
        indices.len(),
    );
    let vertex_offset = round_up(indexed.len() as int, 4);
    &&& after.data == indexed + zeros((vertex_offset - indexed.len()) as nat) + vertices
    &&& after.messages == before.messages.push(
        OutputMessage {
            ty: OutputMessageType::GuiMeshUpdate,
            params: OutputMessageParams::GuiMeshUpdate(
                GuiMeshUpdateParams {
                    index_offset_bytes: index_offset as usize,
                    index_size_bytes: (4 * indices.len()) as usize,
                    vertex_offset_bytes: vertex_offset as usize,
                    vertex_size_bytes: vertices.len() as usize,
                    clip,
                    count: indices.len() as u32,
                    texture_id,
                },
            ),
        },
    )
}

/// After the first `n` meshes of the panel, one after the other.
pub open spec fn meshes_passed(before: Frame, after: Frame, meshes: Seq<GuiMesh>, n: nat) -> bool
    decreases n,
{
    if n == 0 {
        after == before
    } else {
        exists|middle: Frame|
            meshes_passed(before, middle, meshes, (n - 1) as nat) && #[trigger] mesh_passed(
                middle,
                after,
                meshes[n - 1].clip,
                meshes[n - 1].texture_id,
                meshes[n - 1].indices@,
                meshes[n - 1].vertices@,
            )
    }
}

/// No mesh has more indices than a message can count.
pub open spec fn meshes_fit(meshes: Seq<GuiMesh>) -> bool {
    forall|i: int| 0 <= i < meshes.len() ==> 4 * (#[trigger] meshes[i]).indices@.len() <= u32::MAX
}

/// The message that has the host forget the panel of the last frame.
pub open spec fn reset_gui_message() -> OutputMessage {
    OutputMessage { ty: OutputMessageType::ResetGui, params: OutputMessageParams::Empty }
}

/// After the panel pass: the message that resets the panel, the textures,
/// and the meshes.
pub open spec fn gui_passed(before: Frame, after: Frame, frame: GuiFrame) -> bool {
    exists|textured: Frame|
        {
            &&& textures_passed(
                Frame { messages: before.messages.push(reset_gui_message()), data: before.data },
                textured,
                frame.textures@,
                frame.textures@.len(),
            )
            &&& #[trigger] meshes_passed(textured, after, frame.meshes@, frame.meshes@.len())
        }
}

impl GameOutput {
    /// Hands the host the mesh of the debug overlay and has it draw it.
    pub fn render_debug<K: Fn(&DebugElement) -> [GpuDebugVertex; 8]>(
        &mut self,
        debug: &DebugState,
        corners: K,
    )
        requires
            old(self).wf(),
            debug.elements().len() <= MAX_DEBUG_ELEMENTS,
            forall|element: &DebugElement| corners.requires((element,)),
        ensures
            final(self).wf(),
            final(self).data_capacity() >= old(self).data_capacity(),
            debug_passed(old(self).frame(), final(self).frame(), debug.elements(), corners),
            final(self).index() == old(self).index(),
            final(self).index_bytes() == old(self).index_bytes(),
    {
        let sizes = debug.buffers_sizes();
        let index_count: usize = sizes[0];
        let index_size: usize = sizes[1];
        let vertex_size: usize = sizes[2];
        let mut index: Vec<u16> = Vec::new();
        let mut vertex: Vec<GpuDebugVertex> = Vec::new();
        debug.generate_mesh(&mut index, &mut vertex, corners);
        let no_bytes: Vec<u8> = Vec::new();
        proof {
            crate::shared::lemma_round_up_bounds(self.data().len() as int, 4);
        }
        let index_offset_base: usize = self.push_bytes(no_bytes.as_slice(), 4);
        let ghost start = self.data();
        assert(start =~= old(self).data() + zeros(
            (index_offset_base - old(self).data().len()) as nat,
        ));
        let ghost n = debug.elements().len();
        let words: usize = index_count / 2;
        let mut k: usize = 0;
        assert(self.data() =~= start + words_bytes(packed_indices(index@), 0));
        while k < words
            invariant
                k <= words,
                words == 12 * n,
                n <= MAX_DEBUG_ELEMENTS,
                index@.len() == 24 * n,
                self.wf(),
                self.data_capacity() >= old(self).data_capacity(),
                self.messages() == old(self).messages(),
                self.index() == old(self).index(),
                self.index_bytes() == old(self).index_bytes(),
                self.data() == start + words_bytes(packed_indices(index@), k as nat),
            decreases words - k,
        {
            let word: u32 = pack_u16(index[2 * k], index[2 * k + 1]);
            self.push_data(&word);
            proof {
                reveal_with_fuel(words_bytes, 2);
                assert(record_stored(word) =~= crate::bytes::u32_bytes(word));
                assert(packed_indices(index@)[k as int] == word);
                assert(self.data() =~= start + words_bytes(
                    packed_indices(index@),
                    (k + 1) as nat,
                ));
            }
            k = k + 1;
        }
        let ghost indexed = self.data();
        let vertex_offset_base: usize = self.data_offset();
        proof {
            crate::bytes::lemma_words_bytes_len(packed_indices(index@), (12 * n) as nat);
        }
        let mut c: usize = 0;
        assert(self.data() =~= indexed + records_stored(vertex@, 0));
        while c < vertex.len()
            invariant
                c <= vertex.len(),
                self.wf(),
                self.data_capacity() >= old(self).data_capacity(),
                self.messages() == old(self).messages(),
                self.index() == old(self).index(),
                self.index_bytes() == old(self).index_bytes(),
                self.data() == indexed + records_stored(vertex@, c as nat),
            decreases vertex.len() - c,
        {
            self.push_data(&vertex[c]);
            c = c + 1;
            assert(self.data() =~= indexed + records_stored(vertex@, c as nat));
        }
        let draw_debug = DrawDebugParams {
            index_offset_bytes: index_offset_base,
            index_size_bytes: index_size,
            vertex_offset_bytes: vertex_offset_base,
            vertex_size_bytes: vertex_size,
            count: index_count,
        };
        self.push_message(
            OutputMessage {
                ty: OutputMessageType::DrawDebug,
                params: OutputMessageParams::DrawDebug(draw_debug),
            },
        );
        proof {
            assert(start.len() == index_offset_base);
            assert(self.data() == old(self).data() + zeros(
                (index_offset_base - old(self).data().len()) as nat,
            ) + words_bytes(packed_indices(index@), 12 * n) + records_stored(
                vertex@,
                vertex@.len(),
            ));
        }
    }

    /// Hands the host the pixels of the textures of the panel.
    pub fn update_gui_textures(&mut self, textures: &Vec<GuiTexture>)
        requires
            old(self).wf(),
        ensures
            final(self).wf(),
            final(self).data_capacity() >= old(self).data_capacity(),
            textures_passed(
                old(self).frame(),
                final(self).frame(),
                textures@,
                textures@.len(),
            ),
            final(self).index() == old(self).index(),
            final(self).index_bytes() == old(self).index_bytes(),
    {
        let mut i: usize = 0;
        while i < textures.len()
            invariant
                i <= textures.len(),
                self.wf(),
                self.data_capacity() >= old(self).data_capacity(),
                textures_passed(old(self).frame(), self.frame(), textures@, i as nat),
                self.index() == old(self).index(),
                self.index_bytes() == old(self).index_bytes(),
            decreases textures.len() - i,
        {
            let texture = &textures[i];
            let ghost middle = self.frame();
            proof {
                lemma_round_up_unique(self.data().len() as int, 1, self.data().len() as int);
            }
            let pixels_size: usize = texture.pixels.len();
            let pixels_offset: usize = self.push_bytes(texture.pixels.as_slice(), 1);
            assert(self.data() =~= middle.data + texture.pixels@);
            let gui_texture_update = GuiTextureUpdateParams {
                pixels_offset,
                pixels_size,
                x: texture.x,
                y: texture.y,
                width: texture.width,
                height: texture.height,
                id: texture.id,
            };
            self.push_message(
                OutputMessage {
                    ty: OutputMessageType::GuiTextureUpdate,
                    params: OutputMessageParams::GuiTextureUpdate(gui_texture_update),
                },
            );
            assert(texture_passed(
                middle,
                self.frame(),
                textures@[i as int].id,
                textures@[i as int].x,
                textures@[i as int].y,
                textures@[i as int].width,
                textures@[i as int].height,
                textures@[i as int].pixels@,
            ));
            proof {
                lemma_texture_step(
                    old(self).frame(),
                    middle,
                    self.frame(),
                    textures@,
                    (i + 1) as nat,
                );
            }
            i = i + 1;
        }
    }

    /// Hands the host the meshes of the panel.
    pub fn update_gui_mesh(&mut self, mesh: &Vec<GuiMesh>)
        requires
            old(self).wf(),
            meshes_fit(mesh@),
        ensures
            final(self).wf(),
            final(self).data_capacity() >= old(self).data_capacity(),
            meshes_passed(old(self).frame(), final(self).frame(), mesh@, mesh@.len()),
            final(self).index() == old(self).index(),
            final(self).index_bytes() == old(self).index_bytes(),
    {
        let no_bytes: Vec<u8> = Vec::new();
        let mut i: usize = 0;
        while i < mesh.len()
            invariant
                i <= mesh.len(),
                meshes_fit(mesh@),
                no_bytes@ == Seq::<u8>::empty(),
                self.wf(),
                self.data_capacity() >= old(self).data_capacity(),
                meshes_passed(old(self).frame(), self.frame(), mesh@, i as nat),
                self.index() == old(self).index(),
                self.index_bytes() == old(self).index_bytes(),
            decreases mesh.len() - i,
        {
            let part = &mesh[i];
            let ghost middle = self.frame();
            assert(4 * part.indices@.len() <= u32::MAX);
            let index_offset_bytes: usize = self.push_bytes(no_bytes.as_slice(), 4);
            self.push_words(part.indices.as_slice());
            let ghost indexed = self.data();
            assert(indexed =~= middle.data + zeros(
                (index_offset_bytes - middle.data.len()) as nat,
            ) + words_bytes(part.indices@, part.indices@.len()));
            let vertex_offset_bytes: usize = self.push_bytes(part.vertices.as_slice(), 4);
            let gui_mesh_update = GuiMeshUpdateParams {
                index_offset_bytes,
                index_size_bytes: part.indices.len() * 4,
                vertex_offset_bytes,
                vertex_size_bytes: part.vertices.len(),
                clip: part.clip,
                count: part.indices.len() as u32,
                texture_id: part.texture_id,
            };
            self.push_message(
                OutputMessage {
                    ty: OutputMessageType::GuiMeshUpdate,
                    params: OutputMessageParams::GuiMeshUpdate(gui_mesh_update),
                },
            );
            assert(mesh_passed(
                middle,
                self.frame(),
                mesh@[i as int].clip,
                mesh@[i as int].texture_id,
                mesh@[i as int].indices@,
                mesh@[i as int].vertices@,
            ));
            proof {
                lemma_mesh_step(old(self).frame(), middle, self.frame(), mesh@, (i + 1) as nat);
            }
            i = i + 1;
        }
    }

    /// Has the host forget the panel of the last frame, and hands it the
    /// textures and the meshes of this one.
    pub fn render_gui(&mut self, frame: &GuiFrame)
        requires
            old(self).wf(),
            meshes_fit(frame.meshes@),
        ensures
            final(self).wf(),
            final(self).data_capacity() >= old(self).data_capacity(),
            gui_passed(old(self).frame(), final(self).frame(), *frame),
            final(self).index() == old(self).index(),
            final(self).index_bytes() == old(self).index_bytes(),
    {
        self.push_message(
            OutputMessage { ty: OutputMessageType::ResetGui, params: OutputMessageParams::Empty },
        );
        self.update_gui_textures(&frame.textures);
        let ghost textured = self.frame();
        self.update_gui_mesh(&frame.meshes);
        assert(meshes_passed(textured, self.frame(), frame.meshes@, frame.meshes@.len()));
    }
}

impl GameOutput {
    /// Tells the host where the view is.
    pub fn update_view_offset(&mut self, view_offset: PositionF32)
        requires
            old(self).wf(),
        ensures
            final(self).wf(),
            final(self).data_capacity() >= old(self).data_capacity(),
            view_offset_passed(old(self).frame(), final(self).frame(), view_offset),
            final(self).index() == old(self).index(),
            final(self).index_bytes() == old(self).index_bytes(),
    {
        self.push_message(
            OutputMessage {
                ty: OutputMessageType::UpdateViewOffset,
                params: OutputMessageParams::UpdateViewOffset(view_offset),
            },
        );
    }

    /// Hands the host the cells of the ground.
    pub fn update_terrain<C: Fn(u32, u32) -> GpuTerrainSpriteData>(
        &mut self,
        terrain: &Terrain,
        cell_at: C,
    )
        requires
            old(self).wf(),
            terrain.spec_width() * terrain.spec_height() * CELL_SIZE <= usize::MAX,
            forall|column: u32, row: u32| cell_at.requires((column, row)),
        ensures
            final(self).wf(),
            final(self).data_capacity() >= old(self).data_capacity(),
            terrain_passed(
                old(self).frame(),
                final(self).frame(),
                terrain.spec_width(),
                terrain.spec_height(),
                cell_at,
            ),
            final(self).index() == old(self).index(),
            final(self).index_bytes() == old(self).index_bytes(),
    {
        let width: u32 = terrain.width();
        let height: u32 = terrain.height();
        assert(width * height <= width * height * CELL_SIZE) by (nonlinear_arith);
        let cell_count: usize = terrain.cell_count();
        let update_terrain = UpdateTerrainParams {
            offset_bytes: self.data_offset(),
            size_bytes: cell_count * CELL_SIZE,
            cell_count,
        };
        self.push_message(
            OutputMessage {
                ty: OutputMessageType::UpdateTerrain,
                params: OutputMessageParams::UpdateTerrain(update_terrain),
            },
        );
        let ghost start = self.data();
        let ghost mut cells: Seq<GpuTerrainSpriteData> = Seq::empty();
        let mut i: usize = 0;
        assert(self.data() =~= start + records_stored(cells, 0));
        while i < cell_count
            invariant
                i <= cell_count,
                cell_count == width * height,
                self.wf(),
                self.data_capacity() >= old(self).data_capacity(),
                self.messages() == old(self).messages().push(
                    OutputMessage {
                        ty: OutputMessageType::UpdateTerrain,
                        params: OutputMessageParams::UpdateTerrain(update_terrain),
                    },
                ),
                self.index() == old(self).index(),
                self.index_bytes() == old(self).index_bytes(),
                forall|column: u32, row: u32| cell_at.requires((column, row)),
                cells.len() == i,
                forall|j: int|
                    0 <= j < i ==> cell_at.ensures(
                        ((j % width as int) as u32, (j / width as int) as u32),
                        #[trigger] cells[j],
                    ),
                self.data() == start + records_stored(cells, i as nat),
            decreases cell_count - i,
        {
            assert(width > 0) by (nonlinear_arith)
                requires
                    i < width * height,
            ;
            let column: u32 = (i % (width as usize)) as u32;
            let row: u32 = (i / (width as usize)) as u32;
            let sprite: GpuTerrainSpriteData = cell_at(column, row);
            self.push_data(&sprite);
            proof {
                let grown = cells.push(sprite);
                crate::output::passes::lemma_records_prefix(cells, grown, i as nat);
                cells = grown;
                assert(self.data() =~= start + records_stored(cells, (i + 1) as nat));
            }
            i = i + 1;
        }
    }

    /// Hands the host the sprites, in drawing order, and has it draw them.
    pub fn render_sprites<G: Fn(&BaseSprite) -> GpuSpriteData>(
        &mut self,
        sprites: &Vec<BaseSprite>,
        texture_id: u32,
        to_gpu: G,
    )
        requires
            old(self).wf(),
            sprites@.len() * SPRITE_SIZE <= u32::MAX,
            forall|sprite: &BaseSprite| to_gpu.requires((sprite,)),
        ensures
            final(self).wf(),
            final(self).data_capacity() >= old(self).data_capacity(),
            sprites_passed(old(self).frame(), final(self).frame(), sprites@, texture_id, to_gpu),
            final(self).index() == old(self).index(),
            final(self).index_bytes() == old(self).index_bytes(),
    {
        let mut update_sprites = UpdateSpritesParams {
            offset_bytes: self.data_offset(),
            size_bytes: 0,
        };
        let mut draw_sprites = DrawSpritesParams {
            instance_base: 0,
            instance_count: 0,
            texture_id,
        };
        let ghost start = self.data();
        let ghost mut records: Seq<GpuSpriteData> = Seq::empty();
        let mut i: usize = 0;
        assert(self.data() =~= start + records_stored(records, 0));
        while i < sprites.len()
            invariant
                i <= sprites.len(),
                sprites@.len() * SPRITE_SIZE <= u32::MAX,
                self.wf(),
                self.data_capacity() >= old(self).data_capacity(),
                self.messages() == old(self).messages(),
                self.index() == old(self).index(),
                self.index_bytes() == old(self).index_bytes(),
                forall|sprite: &BaseSprite| to_gpu.requires((sprite,)),
                update_sprites.offset_bytes == start.len(),
                update_sprites.size_bytes == i * SPRITE_SIZE,
                draw_sprites.instance_base == 0,
                draw_sprites.instance_count == i,
                draw_sprites.texture_id == texture_id,
                records.len() == i,
                forall|j: int|
                    0 <= j < i ==> to_gpu.ensures((&sprites@[j],), #[trigger] records[j]),
                self.data() == start + records_stored(records, i as nat),
            decreases sprites.len() - i,
        {
            let gpu_sprite: GpuSpriteData = to_gpu(&sprites[i]);
            self.push_data(&gpu_sprite);
            draw_sprites.instance_count = draw_sprites.instance_count + 1;
            update_sprites.size_bytes = update_sprites.size_bytes + SPRITE_SIZE;
            proof {
                let grown = records.push(gpu_sprite);
                crate::output::passes::lemma_records_prefix(records, grown, i as nat);
                records = grown;
                assert(self.data() =~= start + records_stored(records, (i + 1) as nat));
            }
            i = i + 1;
        }
        self.push_message(
            OutputMessage {
                ty: OutputMessageType::UpdateSprites,
                params: OutputMessageParams::UpdateSprites(update_sprites),
            },
        );
        self.push_message(
            OutputMessage {
                ty: OutputMessageType::DrawSprites,
                params: OutputMessageParams::DrawSprites(draw_sprites),
            },
        );
    }

    /// Has the host draw the sprite that is about to be placed.
    pub fn render_insert_sprite<V: Fn(&InsertSprite) -> [InsertSpriteVertex; 6]>(
        &mut self,
        insert_sprite: InsertSprite,
        preview: V,
    )
        requires
            old(self).wf(),
            forall|sprite: &InsertSprite| preview.requires((sprite,)),
        ensures
            final(self).wf(),
            final(self).data_capacity() >= old(self).data_capacity(),
            preview_passed(old(self).frame(), final(self).frame(), insert_sprite, preview),
            final(self).index() == old(self).index(),
            final(self).index_bytes() == old(self).index_bytes(),
    {
        let vertex_offset_bytes: usize = self.data_offset();
        let vertex_size_bytes: usize = PREVIEW_VERTEX_SIZE * 6;
        let corners: [InsertSpriteVertex; 6] = preview(&insert_sprite);
        let ghost start = self.data();
        let mut i: usize = 0;
        assert(self.data() =~= start + records_stored(corners@, 0));
        while i < 6
            invariant
                i <= 6,
                self.wf(),
                self.data_capacity() >= old(self).data_capacity(),
                self.messages() == old(self).messages(),
                self.index() == old(self).index(),
                self.index_bytes() == old(self).index_bytes(),
                self.data() == start + records_stored(corners@, i as nat),
            decreases 6 - i,
        {
            self.push_data(&corners[i]);
            i = i + 1;
            assert(self.data() =~= start + records_stored(corners@, i as nat));
        }
        let params = DrawInsertSpriteParams { vertex_offset_bytes, vertex_size_bytes };
        self.push_message(
            OutputMessage {
                ty: OutputMessageType::DrawInsertSprite,
                params: OutputMessageParams::DrawInsertSprite(params),
            },
        );
    }
}

proof fn lemma_texture_step(
    before: Frame,
    middle: Frame,
    after: Frame,
    textures: Seq<GuiTexture>,
    n: nat,
)
    requires
        n > 0,
        textures_passed(before, middle, textures, (n - 1) as nat),
        texture_passed(
            middle,
            after,
            textures[n - 1].id,
            textures[n - 1].x,
            textures[n - 1].y,
            textures[n - 1].width,
            textures[n - 1].height,
            textures[n - 1].pixels@,
        ),
    ensures
        textures_passed(before, after, textures, n),
{
}

proof fn lemma_mesh_step(before: Frame, middle: Frame, after: Frame, meshes: Seq<GuiMesh>, n: nat)
    requires
        n > 0,
        meshes_passed(before, middle, meshes, (n - 1) as nat),
        mesh_passed(
            middle,
            after,
            meshes[n - 1].clip,
            meshes[n - 1].texture_id,
            meshes[n - 1].indices@,
            meshes[n - 1].vertices@,
        ),
    ensures
        meshes_passed(before, after, meshes, n),
{
}

/// Only the first `n` records count for `records_stored(.., n)`.
pub proof fn lemma_records_prefix<T: crate::record::Record>(a: Seq<T>, b: Seq<T>, n: nat)
    requires
        n <= a.len(),
        n <= b.len(),
        forall|i: int| 0 <= i < n ==> a[i] == b[i],
    ensures
        records_stored(a, n) == records_stored(b, n),
    decreases n,
{
    if n > 0 {
        lemma_records_prefix(a, b, (n - 1) as nat);
    }
}

} // verus!
