//! The simulation as the host holds it: its data, its stage, and its output.

use crate::data::base::{AnimationState, BaseSprite, GameFlags};
use crate::data::debug::{DebugElement, MAX_DEBUG_ELEMENTS};
use crate::data::world::{listed_by, stepped, InsertSprite, OrderedSprite, World};
use crate::data::order::is_stable_sort;
use crate::data::GameData;
use crate::error::Error;
use crate::output::gpu_shared::{
    GpuDebugVertex, GpuSpriteData, GpuTerrainSpriteData, InsertSpriteVertex,
};
use crate::output::passes::{
    debug_passed, gui_passed, meshes_fit, preview_passed, sprites_passed, terrain_passed,
    view_offset_passed, Frame, GuiFrame, CELL_SIZE, SPRITE_SIZE,
};
use crate::output::layout::pointer_width;
use crate::output::message::{message_size, OutputMessage};
use crate::output::{GameOutput, OutputIndex, FIRST_DATA};
use crate::shared::{SizeF32, AABB};
use crate::string_map::StringMap;
use crate::state::GameState;
use crate::store::laws::{lemma_join, lemma_skip_front};
use crate::store::prefix::lemma_front_kept;
use crate::store::{corrupt, StoreLoad, StoreReader, StoreWriter};
use vstd::prelude::*;

verus! {

/// What the host hands over before the simulation starts: the asset index,
/// the assets by name, and the size of the view.
#[derive(Debug)]
pub struct GameClientInit {
    pub assets_bundle: String,
    pub text_assets: StringMap<String>,
    pub bin_assets: StringMap<Vec<u8>>,
    pub max_texture_size: u32,
    pub view_size: SizeF32,
}

/// The largest texture that the simulation asks for.
pub const MAX_TEXTURE_SIZE: u32 = 4096;

impl GameClientInit {
    /// Nothing handed over yet.
    pub fn new() -> (init: Self)
        ensures
            init.assets_bundle@ == Seq::<char>::empty(),
            init.text_assets.wf(),
            init.bin_assets.wf(),
            init.text_assets@ == Map::<Seq<char>, String>::empty(),
            init.bin_assets@ == Map::<Seq<char>, Vec<u8>>::empty(),
            init.max_texture_size == 2048,
            init.view_size == (SizeF32 { width: 0, height: 0 }),
    {
        GameClientInit {
            assets_bundle: String::new(),
            text_assets: StringMap::new(),
            bin_assets: StringMap::new(),
            max_texture_size: 2048,
            view_size: SizeF32 { width: 0, height: 0 },
        }
    }

    /// Hands the asset index over.
    pub fn set_assets_bundle(&mut self, text: String)
        ensures
            final(self).assets_bundle == text,
            final(self).text_assets == old(self).text_assets,
            final(self).bin_assets == old(self).bin_assets,
            final(self).max_texture_size == old(self).max_texture_size,
            final(self).view_size == old(self).view_size,
    {
        self.assets_bundle = text;
    }

    /// Hands a text asset over.
    pub fn upload_text_asset(&mut self, name: String, value: String)
        requires
            old(self).text_assets.wf(),
        ensures
            final(self).text_assets.wf(),
            final(self).text_assets@ == old(self).text_assets@.insert(name@, value),
            final(self).assets_bundle == old(self).assets_bundle,
            final(self).bin_assets == old(self).bin_assets,
            final(self).max_texture_size == old(self).max_texture_size,
            final(self).view_size == old(self).view_size,
    {
        self.text_assets.insert(name, value);
    }

    /// Hands a binary asset over.
    pub fn upload_bin_asset(&mut self, name: String, data: Vec<u8>)
        requires
            old(self).bin_assets.wf(),
        ensures
            final(self).bin_assets.wf(),
            final(self).bin_assets@ == old(self).bin_assets@.insert(name@, data),
            final(self).assets_bundle == old(self).assets_bundle,
            final(self).text_assets == old(self).text_assets,
            final(self).max_texture_size == old(self).max_texture_size,
            final(self).view_size == old(self).view_size,
    {
        self.bin_assets.insert(name, data);
    }

    /// Says how large a texture the host can take. More than
    /// `MAX_TEXTURE_SIZE` is not asked for.
    pub fn max_texture_size(&mut self, value: u32)
        ensures
            final(self).max_texture_size == if value < MAX_TEXTURE_SIZE {
                value
            } else {
                MAX_TEXTURE_SIZE
            },
            final(self).assets_bundle == old(self).assets_bundle,
            final(self).text_assets == old(self).text_assets,
            final(self).bin_assets == old(self).bin_assets,
            final(self).view_size == old(self).view_size,
    {
        self.max_texture_size = if value < MAX_TEXTURE_SIZE {
            value
        } else {
            MAX_TEXTURE_SIZE
        };
    }

    /// Says how large the view is, as the bit patterns of two floating point
    /// numbers.
    pub fn view_size(&mut self, width: u32, height: u32)
        ensures
            final(self).view_size == (SizeF32 { width, height }),
            final(self).assets_bundle == old(self).assets_bundle,
            final(self).text_assets == old(self).text_assets,
            final(self).bin_assets == old(self).bin_assets,
            final(self).max_texture_size == old(self).max_texture_size,
    {
        self.view_size.width = width;
        self.view_size.height = height;
    }
}

/// The data and the stage of the simulation, and what it hands to the host.
pub struct GameClient {
    pub data: GameData,
    pub state: GameState,
    pub output: GameOutput,
}

/// What a reader finds in a snapshot: what was kept of the data, what was
/// kept of the stage, and how far it reads.
#[verifier::opaque]
pub open spec fn client_parse(bytes: Seq<u8>) -> Option<
    ((<GameData as StoreLoad>::Kept, <GameState as StoreLoad>::Kept), nat),
> {
    match GameData::parse(bytes) {
        Some((data, used)) => match GameState::parse(bytes.skip(used as int)) {
            Some((state, more)) => Some(((data, state), used + more)),
            None => None,
        },
        None => None,
    }
}

/// The round trip: a snapshot of a simulation that can be stored is read
/// back as what the snapshot keeps of its data and of its stage, and is read
/// to its end.
pub proof fn lemma_save_load(data: GameData, state: GameState)
    requires
        data.storable(),
        state.storable(),
    ensures
        client_parse(data.stored() + state.stored()) == Some(
            ((data.kept(), state.kept()), (data.stored() + state.stored()).len()),
        ),
{
    reveal(client_parse);
    let empty = Seq::<u8>::empty();
    data.lemma_round_trip(state.stored());
    state.lemma_round_trip(empty);
    lemma_skip_front(data.stored(), state.stored());
    assert(state.stored() + empty =~= state.stored());
}

/// What was read of a snapshot stays as it is when more bytes follow, and
/// lies within the bytes that were there.
pub proof fn lemma_snapshot_steady(bytes: Seq<u8>, rest: Seq<u8>)
    requires
        client_parse(bytes) is Some,
    ensures
        client_parse(bytes).unwrap().1 <= bytes.len(),
        client_parse(bytes + rest) == client_parse(bytes),
{
    reveal(client_parse);
    GameData::lemma_steady(bytes, rest);
    let used = GameData::parse(bytes).unwrap().1;
    lemma_front_kept(bytes, rest, used as int, bytes.len() as int);
    GameState::lemma_steady(bytes.skip(used as int), rest);
}

/// Bytes that are read as a snapshot to their end are not read as one when
/// they are cut short.
pub proof fn lemma_cut_bytes(whole: Seq<u8>, n: int)
    requires
        client_parse(whole) is Some,
        client_parse(whole).unwrap().1 == whole.len(),
        0 <= n < whole.len(),
    ensures
        client_parse(whole.subrange(0, n)) is None,
{
    let front = whole.subrange(0, n);
    let back = whole.subrange(n, whole.len() as int);
    if client_parse(front) is Some {
        lemma_snapshot_steady(front, back);
        assert(front + back =~= whole);
    }
}

/// A snapshot that was cut short is corrupt, wherever it was cut: what is
/// left of it is not read as a snapshot.
pub proof fn lemma_cut_snapshot(data: GameData, state: GameState, n: int)
    requires
        data.storable(),
        state.storable(),
        0 <= n < (data.stored() + state.stored()).len(),
    ensures
        client_parse((data.stored() + state.stored()).subrange(0, n)) is None,
{
    lemma_save_load(data, state);
    lemma_cut_bytes(data.stored() + state.stored(), n);
}

/// A snapshot without its last byte is not read: it is found corrupt.
pub proof fn lemma_truncated_snapshot(data: GameData, state: GameState)
    requires
        data.storable(),
        state.storable(),
    ensures
        client_parse((data.stored() + state.stored()).drop_last()) is None,
{
    reveal(client_parse);
    let cut = state.stored().drop_last();
    lemma_state_stored_len(state);
    assert((data.stored() + state.stored()).drop_last() =~= data.stored() + cut);
    data.lemma_round_trip(cut);
    lemma_skip_front(data.stored(), cut);
    lemma_truncated_state(state);
}

/// The stored form of the stage takes twenty bytes.
pub proof fn lemma_state_stored_len(state: GameState)
    requires
        state.storable(),
    ensures
        state.stored().len() == 20,
{
    crate::store::laws::lemma_entity_round_trip(state.hovered_entity, Seq::<u8>::empty());
    crate::store::laws::lemma_record_round_trip(state.input_type, Seq::<u8>::empty());
    crate::store::laws::lemma_record_round_trip(state.value, Seq::<u8>::empty());
    crate::store::laws::lemma_bool_round_trip(state.scroll_view, Seq::<u8>::empty());
}

/// The stored form of the stage without its last byte is not read.
pub proof fn lemma_truncated_state(state: GameState)
    requires
        state.storable(),
    ensures
        GameState::parse(state.stored().drop_last()) is None,
{
    let s0 = crate::store::entity_stored(state.hovered_entity);
    let s1 = crate::store::record_stored(state.input_type);
    let s2 = crate::store::record_stored(state.value);
    let s3 = crate::store::bool_stored(state.scroll_view);
    let cut = s3.drop_last();
    lemma_state_stored_len(state);
    crate::store::laws::lemma_entity_round_trip(state.hovered_entity, Seq::<u8>::empty());
    crate::store::laws::lemma_record_round_trip(state.input_type, Seq::<u8>::empty());
    crate::store::laws::lemma_record_round_trip(state.value, Seq::<u8>::empty());
    crate::store::laws::lemma_bool_round_trip(state.scroll_view, Seq::<u8>::empty());
    assert(state.stored().drop_last() =~= s0 + s1 + s2 + cut);
    let t3 = cut;
    let t2 = s2 + t3;
    let t1 = s1 + t2;
    lemma_join(s0 + s1, s2, t3);
    lemma_join(s0, s1, t2);
    crate::store::laws::lemma_entity_round_trip(state.hovered_entity, t1);
    crate::store::laws::lemma_record_round_trip(state.input_type, t2);
    crate::store::laws::lemma_record_round_trip(state.value, t3);
    lemma_skip_front(s0, t1);
    lemma_skip_front(s0 + s1, t2);
    lemma_skip_front(s0 + s1 + s2, t3);
    lemma_skip_front(s0, s1);
    lemma_skip_front(s0 + s1, s2);
    assert(cut.len() == 3);
}

impl Default for GameClient {
    fn default() -> (client: GameClient)
        ensures
            client.fresh(),
    {
        GameClient::new()
    }
}

impl GameClient {
    /// A simulation at its start: fresh data, the first stage, and an output
    /// without messages and without data.
    pub open spec fn fresh(&self) -> bool {
        &&& self.data.fresh()
        &&& self.state == (GameState {
            hovered_entity: None,
            input_type: crate::state::GameInputType::Select,
            value: crate::state::GameStateValue::Uninitialized,
            scroll_view: false,
        })
        &&& self.output.wf()
        &&& self.output.messages() == Seq::<OutputMessage>::empty()
        &&& self.output.data() == Seq::<u8>::empty()
        &&& self.output.index().messages_count == 0
    }

    /// What a simulation that was just read holds in what a snapshot does
    /// not keep. The clock stands at zero and all buttons are up; no actor
    /// is selected and no drawing order is made; the debug overlay is empty;
    /// the panel shows the stage, the use of the mouse and the debug flags
    /// that were read, has raised no event and is yet to be painted; and the
    /// output is new.
    pub open spec fn reloaded(&self) -> bool {
        &&& self.data.globals.loaded()
        &&& self.data.world.loaded()
        &&& self.data.debug.elements() == Seq::<DebugElement>::empty()
        &&& self.data.gui.game_state == self.state.value
        &&& self.data.gui.game_input == self.state.input_type
        &&& self.data.gui.debug_flags == self.data.globals.debug_flags
        &&& self.data.gui.events@ == Seq::<crate::data::gui::GuiEvent>::empty()
        &&& self.data.gui.force_repaint
        &&& self.output.wf()
        &&& self.output.messages() == Seq::<OutputMessage>::empty()
        &&& self.output.data() == Seq::<u8>::empty()
        &&& self.output.index() == (OutputIndex {
            messages_count: 0,
            messages_size: message_size(pointer_width()) as usize,
            messages_ptr: 0,
            data_ptr: 0,
        })
        &&& self.output.data_capacity() == FIRST_DATA
    }

    /// A simulation at its start.
    pub fn new() -> (client: GameClient)
        ensures
            client.fresh(),
    {
        GameClient { data: GameData::new(), state: GameState::default(), output: GameOutput::new() }
    }

    /// Whether the simulation can go into a snapshot.
    pub open spec fn storable(&self) -> bool {
        self.data.storable() && self.state.storable()
    }

    /// Whether the simulation can go into a snapshot.
    pub fn can_save(&self) -> (fits: bool)
        requires
            self.data.valid(),
        ensures
            fits == self.storable(),
    {
        match self.state.hovered_entity {
            Some(entity) => {
                let _ = entity.generation();
            },
            None => {},
        }
        self.data.can_store()
    }

    /// Whether a frame of the simulation fits the output: the cells of the
    /// ground, the actors and the shapes of the debug overlay are few
    /// enough for what a message can say of them.
    pub open spec fn renderable(&self) -> bool {
        &&& self.data.terrain.spec_width() * self.data.terrain.spec_height() * CELL_SIZE
            <= usize::MAX
        &&& self.data.world.actors().len() * SPRITE_SIZE <= u32::MAX
        &&& self.data.debug.elements().len() <= MAX_DEBUG_ELEMENTS
    }

    /// Whether a frame of the simulation fits the output.
    pub fn can_render(&self) -> (fits: bool)
        ensures
            fits == self.renderable(),
    {
        let width: u64 = self.data.terrain.width() as u64;
        let height: u64 = self.data.terrain.height() as u64;
        assert(width * height <= 0xFFFF_FFFF * 0xFFFF_FFFF) by (nonlinear_arith)
            requires
                width <= 0xFFFF_FFFF,
                height <= 0xFFFF_FFFF,
        ;
        let cells: u64 = width * height;
        let room: u64 = (usize::MAX / CELL_SIZE) as u64;
        cells <= room && self.data.world.len() <= (0xFFFF_FFFF / SPRITE_SIZE)
            && self.data.debug.len() <= MAX_DEBUG_ELEMENTS
    }

    /// The snapshot of the simulation: its data, then its stage.
    pub fn as_bytes(&mut self) -> (bytes: Vec<u8>)
        requires
            old(self).storable(),
        ensures
            bytes@ == old(self).data.stored() + old(self).state.stored(),
            final(self).storable(),
            final(self).data.kept() == old(self).data.kept(),
            final(self).state.kept() == old(self).state.kept(),
            final(self).output == old(self).output,
    {
        let mut writer = StoreWriter::new();
        self.data.store(&mut writer);
        self.state.store(&mut writer);
        proof {
            lemma_join(Seq::<u8>::empty(), old(self).data.stored(), old(self).state.stored());
            assert(Seq::<u8>::empty() + (old(self).data.stored() + old(self).state.stored())
                =~= old(self).data.stored() + old(self).state.stored());
        }
        writer.data()
    }

    /// The simulation that a snapshot holds, with a fresh output; or the
    /// finding that the snapshot is corrupt.
    pub fn from_bytes(bytes: &[u8]) -> (result: Result<GameClient, Error>)
        ensures
            match client_parse(bytes@) {
                Some(((data, state), _)) => {
                    &&& result matches Ok(client)
                    &&& client.data.valid()
                    &&& client.state.valid()
                    &&& client.output.wf()
                    &&& client.data.kept() == data
                    &&& client.state.kept() == state
                    &&& client.reloaded()
                },
                None => corrupt(result),
            },
    {
        proof {
            reveal(client_parse);
        }
        let mut reader = match StoreReader::new(bytes) {
            Ok(reader) => reader,
            Err(e) => {
                return Err(e);
            },
        };
        let data = match GameData::load(&mut reader) {
            Ok(data) => data,
            Err(e) => {
                return Err(e);
            },
        };
        let state = match GameState::load(&mut reader) {
            Ok(state) => state,
            Err(e) => {
                return Err(e);
            },
        };
        let mut client = GameClient { data, state, output: GameOutput::new() };
        client.data.gui.set_state(client.state.value, client.state.input_type);
        client.data.gui.set_debug_flags(client.data.globals.debug_flags);
        Ok(client)
    }

    /// Whether the view has no width: one bit pattern for zero, and one for
    /// minus zero.
    pub fn hidden(&self) -> (hidden: bool)
        ensures
            hidden == (self.data.globals.view_size.width == 0
                || self.data.globals.view_size.width == 0x8000_0000),
    {
        let width: u32 = self.data.globals.view_size.width;
        width == 0 || width == 0x8000_0000
    }
}

/// The snapshot of a simulation.
pub fn save(client: GameClient) -> (bytes: Vec<u8>)
    requires
        client.storable(),
    ensures
        bytes@ == client.data.stored() + client.state.stored(),
{
    let mut client = client;
    client.as_bytes()
}

/// The simulation that a snapshot holds; or, where the snapshot is corrupt,
/// a simulation at its start.
pub fn load(bytes: Vec<u8>) -> (client: GameClient)
    ensures
        client.data.valid(),
        client.state.valid(),
        client.output.wf(),
        match client_parse(bytes@) {
            Some(((data, state), _)) => client.data.kept() == data && client.state.kept() == state
                && client.reloaded(),
            None => client.fresh(),
        },
{
    match GameClient::from_bytes(bytes.as_slice()) {
        Ok(client) => client,
        Err(_) => GameClient::new(),
    }
}

/// The decoder source for the host.
pub fn protocol() -> (source: String)
    ensures
        source@ == crate::output::protocol::protocol_text(
            crate::output::layout::pointer_width(),
        ),
{
    crate::output::protocol::compile()
}

/// The flags after a frame: what the frame brought up to date is no longer
/// due. The animations are brought up to date only where sprites are drawn.
pub open spec fn flags_after(flags: GameFlags, drawn: bool) -> GameFlags {
    let kept = flags.0 & !GameFlags::UPDATE_VIEW_OFFSET & !GameFlags::UPDATE_TERRAIN;
    let kept = if drawn {
        kept & !GameFlags::UPDATE_ANIMATIONS
    } else {
        kept
    };
    GameFlags(kept & !GameFlags::UPDATE_GUI)
}

/// The pass of the view offset: it is made if the view has moved.
pub open spec fn view_step(game: GameClient, before: Frame, after: Frame) -> bool {
    if game.data.globals.flags.has(GameFlags::UPDATE_VIEW_OFFSET) {
        view_offset_passed(before, after, game.data.globals.view_offset)
    } else {
        after == before
    }
}

/// The pass of the ground: it is made if the ground has changed.
pub open spec fn terrain_step<C: Fn(u32, u32) -> GpuTerrainSpriteData>(
    game: GameClient,
    before: Frame,
    after: Frame,
    cell_at: C,
) -> bool {
    if game.data.globals.flags.has(GameFlags::UPDATE_TERRAIN) {
        terrain_passed(
            before,
            after,
            game.data.terrain.spec_width(),
            game.data.terrain.spec_height(),
            cell_at,
        )
    } else {
        after == before
    }
}

/// The pass of the sprites: it is made if there are any.
pub open spec fn sprites_step<G: Fn(&BaseSprite) -> GpuSpriteData>(
    game: GameClient,
    before: Frame,
    after: Frame,
    sprites: Seq<BaseSprite>,
    to_gpu: G,
) -> bool {
    if game.data.globals.total_sprites > 0 {
        sprites_passed(before, after, sprites, game.data.assets.atlas.texture.id, to_gpu)
    } else {
        after == before
    }
}

/// The pass of the sprite that is about to be placed: it is made if there
/// is one.
pub open spec fn preview_step<V: Fn(&InsertSprite) -> [InsertSpriteVertex; 6]>(
    game: GameClient,
    before: Frame,
    after: Frame,
    preview: V,
) -> bool {
    match game.data.world.spec_insert_sprite() {
        Some(sprite) => preview_passed(before, after, sprite, preview),
        None => after == before,
    }
}

/// The pass of the debug overlay: it is made if the overlay holds a shape.
pub open spec fn debug_step<K: Fn(&DebugElement) -> [GpuDebugVertex; 8]>(
    game: GameClient,
    before: Frame,
    after: Frame,
    corners: K,
) -> bool {
    if game.data.debug.elements().len() > 0 {
        debug_passed(before, after, game.data.debug.elements(), corners)
    } else {
        after == before
    }
}

/// The pass of the panel: it is made if the panel was painted.
pub open spec fn gui_step(painted: Option<GuiFrame>, before: Frame, after: Frame) -> bool {
    match painted {
        Some(frame) => gui_passed(before, after, frame),
        None => after == before,
    }
}

/// The frame is made by the passes in their fixed order: the view offset,
/// the ground, the sprites, the sprite that is about to be placed, the debug
/// overlay, the panel. A pass that has nothing to do leaves the frame as it
/// is.
pub open spec fn frame_made<
    G: Fn(&BaseSprite) -> GpuSpriteData,
    C: Fn(u32, u32) -> GpuTerrainSpriteData,
    V: Fn(&InsertSprite) -> [InsertSpriteVertex; 6],
    K: Fn(&DebugElement) -> [GpuDebugVertex; 8],
>(
    before: GameClient,
    after: Frame,
    painted: Option<GuiFrame>,
    to_gpu: G,
    cell_at: C,
    preview: V,
    corners: K,
    sprites: Seq<BaseSprite>,
) -> bool {
    let start = Frame { messages: Seq::empty(), data: Seq::empty() };
    exists|a: Frame, b: Frame, c: Frame, d: Frame, e: Frame|
        {
            &&& #[trigger] view_step(before, start, a)
            &&& #[trigger] terrain_step(before, a, b, cell_at)
            &&& #[trigger] sprites_step(before, b, c, sprites, to_gpu)
            &&& #[trigger] preview_step(before, c, d, preview)
            &&& #[trigger] debug_step(before, d, e, corners)
            &&& gui_step(painted, e, after)
        }
}

/// What a frame does to the world: where sprites are drawn, the actors are
/// listed and ordered anew, and the animations step if they are due.
/// Otherwise the world stays as it is.
pub open spec fn world_ordered<R: Fn(&AnimationState) -> AABB, D: Fn(&BaseSprite) -> i64>(
    before: GameClient,
    after: World,
    frame_rect: R,
    depth: D,
) -> bool {
    if before.data.globals.total_sprites > 0 {
        &&& after.actors().len() == before.data.world.actors().len()
        &&& forall|i: int|
            0 <= i < after.actors().len() ==> stepped(
                before.data.world.actors()[i],
                #[trigger] after.actors()[i],
                before.data.globals.flags.has(GameFlags::UPDATE_ANIMATIONS),
                frame_rect,
            )
        &&& exists|listed: Seq<OrderedSprite>|
            listed_by(after.actors(), listed, depth) && is_stable_sort(listed, after.ordered())
    } else {
        after == before.data.world
    }
}

/// The sprites of the drawing order.
pub open spec fn ordered_sprites(ordered: Seq<OrderedSprite>) -> Seq<BaseSprite> {
    Seq::new(ordered.len(), |i: int| ordered[i].sprite)
}

impl GameOutput {
    /// Makes the output of a step: the frame is made by the passes in their
    /// fixed order, each only if it has something to do; the flags of what
    /// was brought up to date are cleared; and the index is written.
    ///
    /// The geometry is not done here. `frame_rect` gives the rectangle of
    /// the atlas for a frame of an animation, `depth` the depth key of a
    /// sprite, `to_gpu` the record of a sprite, `cell_at` the record of a
    /// cell of the ground, `preview` the corners of the sprite that is about
    /// to be placed, `corners` the corners of a shape of the debug overlay,
    /// and `paint` what the panel wants painted.
    pub fn update<
        R: Fn(&AnimationState) -> AABB,
        D: Fn(&BaseSprite) -> i64,
        G: Fn(&BaseSprite) -> GpuSpriteData,
        C: Fn(u32, u32) -> GpuTerrainSpriteData,
        V: Fn(&InsertSprite) -> [InsertSpriteVertex; 6],
        K: Fn(&DebugElement) -> [GpuDebugVertex; 8],
        P: FnOnce() -> GuiFrame,
    >(
        client: &mut GameClient,
        frame_rect: R,
        depth: D,
        to_gpu: G,
        cell_at: C,
        preview: V,
        corners: K,
        paint: P,
    )
        requires
            old(client).output.wf(),
            old(client).data.world.wf(),
            old(client).renderable(),
            forall|animation: &AnimationState| frame_rect.requires((animation,)),
            forall|sprite: &BaseSprite| depth.requires((sprite,)),
            forall|sprite: &BaseSprite| to_gpu.requires((sprite,)),
            forall|column: u32, row: u32| cell_at.requires((column, row)),
            forall|sprite: &InsertSprite| preview.requires((sprite,)),
            forall|element: &DebugElement| corners.requires((element,)),
            paint.requires(()),
            forall|frame: GuiFrame| paint.ensures((), frame) ==> meshes_fit(frame.meshes@),
        ensures
            final(client).output.wf(),
            final(client).output.data_capacity() >= old(client).output.data_capacity(),
            final(client).data.world.wf(),
            world_ordered(*old(client), final(client).data.world, frame_rect, depth),
            exists|painted: Option<GuiFrame>|
                {
                    &&& if old(client).data.globals.flags.has(GameFlags::UPDATE_GUI) {
                        painted matches Some(frame) && paint.ensures((), frame)
                    } else {
                        painted is None
                    }
                    &&& #[trigger] frame_made(
                        *old(client),
                        final(client).output.frame(),
                        painted,
                        to_gpu,
                        cell_at,
                        preview,
                        corners,
                        ordered_sprites(final(client).data.world.ordered()),
                    )
                },
            final(client).data.globals == (crate::data::GlobalParams {
                flags: flags_after(
                    old(client).data.globals.flags,
                    old(client).data.globals.total_sprites > 0,
                ),
                ..old(client).data.globals
            }),
            final(client).output.index().messages_count == final(client).output.messages().len(),
            final(client).data.world.spec_insert_sprite() == old(
                client,
            ).data.world.spec_insert_sprite(),
            final(client).data.world.selected() == old(client).data.world.selected(),
            final(client).data.terrain == old(client).data.terrain,
            final(client).data.assets == old(client).data.assets,
            final(client).data.debug == old(client).data.debug,
            final(client).data.gui == old(client).data.gui,
            final(client).state == old(client).state,
    {
        let mut flags: GameFlags = client.data.globals.flags;
        client.output.clear_index();
        let ghost start = client.output.frame();
        assert(start == Frame { messages: Seq::empty(), data: Seq::empty() });

        if flags.update_view_offset() {
            client.output.update_view_offset(client.data.globals.view_offset);
            flags.clear_update_view_offset();
        }
        let ghost a = client.output.frame();

        if flags.update_terrain() {
            client.output.update_terrain(&client.data.terrain, cell_at);
            flags.clear_update_terrain();
        }
        let ghost b = client.output.frame();

        if client.data.globals.total_sprites > 0 {
            let texture_id: u32 = client.data.assets.atlas.texture.id;
            let animate: bool = client.data.globals.flags.update_animations();
            client.data.world.order_sprites(animate, frame_rect, depth);
            let sprites = client.data.world.ordered_sprites();
            assert(sprites@ =~= ordered_sprites(client.data.world.ordered()));
            client.output.render_sprites(&sprites, texture_id, to_gpu);
            flags.clear_update_animations();
        }
        let ghost c = client.output.frame();

        match client.data.world.has_insert_sprite() {
            Some(sprite) => {
                client.output.render_insert_sprite(sprite, preview);
            },
            None => {},
        }
        let ghost d = client.output.frame();

        if client.data.debug.any() {
            client.output.render_debug(&client.data.debug, corners);
        }
        let ghost e = client.output.frame();

        let ghost mut painted: Option<GuiFrame> = None;
        if flags.update_gui() {
            let frame: GuiFrame = paint();
            client.output.render_gui(&frame);
            flags.clear_update_gui();
            proof {
                painted = Some(frame);
            }
        }

        client.data.globals.flags = flags;
        client.output.write_index();
        proof {
            lemma_flags(old(client).data.globals.flags.0);
            let sprites = ordered_sprites(client.data.world.ordered());
            assert(view_step(*old(client), start, a));
            assert(terrain_step(*old(client), a, b, cell_at));
            assert(sprites_step(*old(client), b, c, sprites, to_gpu));
            assert(preview_step(*old(client), c, d, preview));
            assert(debug_step(*old(client), d, e, corners));
            assert(gui_step(painted, e, client.output.frame()));
            assert(frame_made(
                *old(client),
                client.output.frame(),
                painted,
                to_gpu,
                cell_at,
                preview,
                corners,
                ordered_sprites(client.data.world.ordered()),
            ));
        }
    }
}

/// Clearing one flag leaves the others as they are.
proof fn lemma_flags(flags: u32)
    ensures
        (flags & !8u32) & 2u32 > 0 <==> flags & 2u32 > 0,
        (flags & !2u32) & 4u32 > 0 <==> flags & 4u32 > 0,
        (flags & !8u32) & 4u32 > 0 <==> flags & 4u32 > 0,
        ((flags & !8u32) & !2u32) & 4u32 > 0 <==> flags & 4u32 > 0,
        (((flags & !8u32) & !2u32) & !1u32) & 4u32 > 0 <==> flags & 4u32 > 0,
        ((flags & !8u32) & !1u32) & 4u32 > 0 <==> flags & 4u32 > 0,
        ((flags & !2u32) & !1u32) & 4u32 > 0 <==> flags & 4u32 > 0,
        (flags & !1u32) & 4u32 > 0 <==> flags & 4u32 > 0,
        flags & !8u32 == flags <==> !(flags & 8u32 > 0),
        flags & !2u32 == flags <==> !(flags & 2u32 > 0),
        flags & !4u32 == flags <==> !(flags & 4u32 > 0),
        forall|x: u32| x & !4u32 == x <==> !(#[trigger] (x & 4u32) > 0),
        forall|x: u32| x & !2u32 == x <==> !(#[trigger] (x & 2u32) > 0),
{
    assert((flags & !8u32) & 2u32 > 0 <==> flags & 2u32 > 0) by (bit_vector);
    assert((flags & !2u32) & 4u32 > 0 <==> flags & 4u32 > 0) by (bit_vector);
    assert((flags & !8u32) & 4u32 > 0 <==> flags & 4u32 > 0) by (bit_vector);
    assert(((flags & !8u32) & !2u32) & 4u32 > 0 <==> flags & 4u32 > 0) by (bit_vector);
    assert((((flags & !8u32) & !2u32) & !1u32) & 4u32 > 0 <==> flags & 4u32 > 0)
        by (bit_vector);
    assert(((flags & !8u32) & !1u32) & 4u32 > 0 <==> flags & 4u32 > 0) by (bit_vector);
    assert(((flags & !2u32) & !1u32) & 4u32 > 0 <==> flags & 4u32 > 0) by (bit_vector);
    assert((flags & !1u32) & 4u32 > 0 <==> flags & 4u32 > 0) by (bit_vector);
    assert(flags & !8u32 == flags <==> !(flags & 8u32 > 0)) by (bit_vector);
    assert(flags & !2u32 == flags <==> !(flags & 2u32 > 0)) by (bit_vector);
    assert(flags & !4u32 == flags <==> !(flags & 4u32 > 0)) by (bit_vector);
    assert forall|x: u32| x & !4u32 == x <==> !(#[trigger] (x & 4u32) > 0) by {
        assert(x & !4u32 == x <==> !(x & 4u32 > 0)) by (bit_vector);
    }
    assert forall|x: u32| x & !2u32 == x <==> !(#[trigger] (x & 2u32) > 0) by {
        assert(x & !2u32 == x <==> !(x & 2u32 > 0)) by (bit_vector);
    }
}

} // verus!
