//! The state of the simulation.

use crate::data::assets::Assets;
use crate::data::base::{
    AnimationState, BaseSprite, BaseSpriteFlags, ButtonState, DebugFlags, GameFlags, StaticSprite,
};
use crate::data::debug::DebugState;
use crate::data::gui::Gui;
use crate::data::terrain::Terrain;
use crate::data::world::{actor_added, has_actor, slot_taken, Actor, ActorKind, World};
use crate::entity::Entity;
use crate::error::Error;
use crate::record::Record;
use crate::shared::{PositionF32, SizeF32, AABB};
use crate::store::laws::{
    lemma_join, lemma_record_round_trip, lemma_skip_front, lemma_skip_skip,
};
use crate::store::{record_parse, record_stored, StoreLoad, StoreReader, StoreWriter};
use crate::store::prefix::{lemma_front_kept, lemma_record_steady};
use vstd::prelude::*;

pub mod assets;
pub mod base;
pub mod debug;
pub mod gui;
pub mod order;
pub mod terrain;
pub mod world;

verus! {

/// What the whole simulation shares: the clock, the flags, the mouse and the
/// view. Times and places are floating point numbers, carried as their bit
/// patterns.
#[derive(Debug, Copy, Clone)]
pub struct GlobalParams {
    pub time: u64,
    pub last_animation_tick: u64,
    pub time_delta: u32,
    pub flags: GameFlags,
    pub debug_flags: DebugFlags,
    pub mouse_position_old: PositionF32,
    pub mouse_position: PositionF32,
    pub view_offset: PositionF32,
    pub view_size: SizeF32,
    pub mouse_buttons: [ButtonState; 3],
    pub total_sprites: u32,
}

impl GlobalParams {
    /// The state at the start: all zero, all buttons up.
    pub fn new() -> (params: GlobalParams)
        ensures
            params.time == 0,
            params.last_animation_tick == 0,
            params.time_delta == 0,
            params.flags == GameFlags(0),
            params.debug_flags == DebugFlags(0),
            params.mouse_position_old == (PositionF32 { x: 0, y: 0 }),
            params.mouse_position == (PositionF32 { x: 0, y: 0 }),
            params.view_offset == (PositionF32 { x: 0, y: 0 }),
            params.view_size == (SizeF32 { width: 0, height: 0 }),
            params.mouse_buttons@ == seq![
                ButtonState::Released,
                ButtonState::Released,
                ButtonState::Released,
            ],
            params.total_sprites == 0,
    {
        let params = GlobalParams {
            time: 0,
            last_animation_tick: 0,
            time_delta: 0,
            flags: GameFlags(0),
            debug_flags: DebugFlags(0),
            mouse_position_old: PositionF32 { x: 0, y: 0 },
            mouse_position: PositionF32 { x: 0, y: 0 },
            view_offset: PositionF32 { x: 0, y: 0 },
            view_size: SizeF32 { width: 0, height: 0 },
            mouse_buttons: [ButtonState::Released, ButtonState::Released, ButtonState::Released],
            total_sprites: 0,
        };
        assert(params.mouse_buttons@ =~= seq![
            ButtonState::Released,
            ButtonState::Released,
            ButtonState::Released,
        ]);
        params
    }

    /// Whether the primary button went down in this frame.
    pub fn primary_mouse_just_pressed(&self) -> (pressed: bool)
        ensures
            pressed == (self.mouse_buttons[0] == ButtonState::JustPressed),
    {
        self.mouse_buttons[0].just_pressed()
    }

    /// Whether the middle button went down in this frame.
    pub fn middle_mouse_just_pressed(&self) -> (pressed: bool)
        ensures
            pressed == (self.mouse_buttons[2] == ButtonState::JustPressed),
    {
        self.mouse_buttons[2].just_pressed()
    }

    /// Whether the middle button is up.
    pub fn middle_mouse_released(&self) -> (released: bool)
        ensures
            released == (self.mouse_buttons[2] == ButtonState::JustReleased
                || self.mouse_buttons[2] == ButtonState::Released),
    {
        self.mouse_buttons[2].released()
    }
}

/// What a snapshot keeps of the shared state: the flags, the mouse and the
/// view. The clock starts anew after a load.
#[derive(Debug, Copy, Clone, PartialEq, Eq, Structural)]
pub struct StoredGlobals {
    pub flags: GameFlags,
    pub debug_flags: DebugFlags,
    pub mouse_position_old: PositionF32,
    pub mouse_position: PositionF32,
    pub view_offset: PositionF32,
    pub view_size: SizeF32,
    pub total_sprites: u32,
}

impl Record for StoredGlobals {
    open spec fn spec_word_count() -> nat {
        11
    }

    open spec fn words(&self) -> Seq<u32> {
        seq![
            self.flags.0,
            self.debug_flags.0,
            self.mouse_position_old.x,
            self.mouse_position_old.y,
            self.mouse_position.x,
            self.mouse_position.y,
            self.view_offset.x,
            self.view_offset.y,
            self.view_size.width,
            self.view_size.height,
            self.total_sprites,
        ]
    }

    open spec fn from_words(words: Seq<u32>) -> Option<Self> {
        Some(
            StoredGlobals {
                flags: GameFlags(words[0]),
                debug_flags: DebugFlags(words[1]),
                mouse_position_old: PositionF32 { x: words[2], y: words[3] },
                mouse_position: PositionF32 { x: words[4], y: words[5] },
                view_offset: PositionF32 { x: words[6], y: words[7] },
                view_size: SizeF32 { width: words[8], height: words[9] },
                total_sprites: words[10],
            },
        )
    }

    proof fn lemma_words(&self) {
    }

    proof fn lemma_word_count() {
    }

    fn word_count() -> (n: usize) {
        11
    }

    fn to_words(&self) -> (words: Vec<u32>) {
        vec![
            self.flags.0,
            self.debug_flags.0,
            self.mouse_position_old.x,
            self.mouse_position_old.y,
            self.mouse_position.x,
            self.mouse_position.y,
            self.view_offset.x,
            self.view_offset.y,
            self.view_size.width,
            self.view_size.height,
            self.total_sprites,
        ]
    }

    fn try_from_words(words: &[u32]) -> (value: Option<Self>) {
        Some(
            StoredGlobals {
                flags: GameFlags(words[0]),
                debug_flags: DebugFlags(words[1]),
                mouse_position_old: PositionF32 { x: words[2], y: words[3] },
                mouse_position: PositionF32 { x: words[4], y: words[5] },
                view_offset: PositionF32 { x: words[6], y: words[7] },
                view_size: SizeF32 { width: words[8], height: words[9] },
                total_sprites: words[10],
            },
        )
    }
}

impl GlobalParams {
    /// What a snapshot keeps of the shared state.
    pub open spec fn spec_stored_globals(&self) -> StoredGlobals {
        StoredGlobals {
            flags: self.flags,
            debug_flags: self.debug_flags,
            mouse_position_old: self.mouse_position_old,
            mouse_position: self.mouse_position,
            view_offset: self.view_offset,
            view_size: self.view_size,
            total_sprites: self.total_sprites,
        }
    }

    /// What a snapshot keeps of the shared state.
    pub fn stored_globals(&self) -> (kept: StoredGlobals)
        ensures
            kept == self.spec_stored_globals(),
    {
        StoredGlobals {
            flags: self.flags,
            debug_flags: self.debug_flags,
            mouse_position_old: self.mouse_position_old,
            mouse_position: self.mouse_position,
            view_offset: self.view_offset,
            view_size: self.view_size,
            total_sprites: self.total_sprites,
        }
    }
}

impl StoreLoad for GlobalParams {
    type Kept = StoredGlobals;

    open spec fn kept(&self) -> Self::Kept {
        self.spec_stored_globals()
    }

    open spec fn valid(&self) -> bool {
        true
    }

    open spec fn storable(&self) -> bool {
        true
    }

    open spec fn stored(&self) -> Seq<u8> {
        record_stored(self.spec_stored_globals())
    }

    /// The clock stands at zero, and all buttons are up.
    open spec fn loaded(&self) -> bool {
        &&& self.time == 0
        &&& self.last_animation_tick == 0
        &&& self.time_delta == 0
        &&& self.mouse_buttons@ == seq![
            ButtonState::Released,
            ButtonState::Released,
            ButtonState::Released,
        ]
    }

    open spec fn parse(bytes: Seq<u8>) -> Option<(Self::Kept, nat)> {
        record_parse::<StoredGlobals>(bytes)
    }

    proof fn lemma_steady(bytes: Seq<u8>, rest: Seq<u8>) {
        lemma_record_steady::<StoredGlobals>(bytes, rest);
    }

    proof fn lemma_round_trip(&self, rest: Seq<u8>) {
        lemma_record_round_trip(self.spec_stored_globals(), rest);
    }

    fn store(&mut self, writer: &mut StoreWriter) {
        writer.write(&self.stored_globals());
    }

    fn load(reader: &mut StoreReader) -> (result: Result<Self, Error>) {
        let kept = match reader.try_read::<StoredGlobals>() {
            Ok(kept) => kept,
            Err(e) => {
                return Err(e);
            },
        };
        let mut params = GlobalParams::new();
        params.flags = kept.flags;
        params.debug_flags = kept.debug_flags;
        params.mouse_position_old = kept.mouse_position_old;
        params.mouse_position = kept.mouse_position;
        params.view_offset = kept.view_offset;
        params.view_size = kept.view_size;
        params.total_sprites = kept.total_sprites;
        Ok(params)
    }
}

/// All the data of the simulation.
pub struct GameData {
    pub globals: GlobalParams,
    pub assets: Assets,
    pub world: World,
    pub terrain: Terrain,
    pub debug: DebugState,
    pub gui: Gui,
}

impl StoreLoad for GameData {
    type Kept = (
        <GlobalParams as StoreLoad>::Kept,
        <Assets as StoreLoad>::Kept,
        <World as StoreLoad>::Kept,
        <Terrain as StoreLoad>::Kept,
        <Gui as StoreLoad>::Kept,
    );

    open spec fn kept(&self) -> Self::Kept {
        (
            self.globals.kept(),
            self.assets.kept(),
            self.world.kept(),
            self.terrain.kept(),
            self.gui.kept(),
        )
    }

    /// Each part is as it is when it was just read, and the debug overlay
    /// is empty.
    open spec fn loaded(&self) -> bool {
        &&& self.globals.loaded()
        &&& self.assets.loaded()
        &&& self.world.loaded()
        &&& self.terrain.loaded()
        &&& self.gui.loaded()
        &&& self.debug.elements() == Seq::<crate::data::debug::DebugElement>::empty()
    }

    open spec fn valid(&self) -> bool {
        &&& self.globals.valid()
        &&& self.assets.valid()
        &&& self.world.valid()
        &&& self.terrain.valid()
        &&& self.gui.valid()
    }

    open spec fn storable(&self) -> bool {
        &&& self.globals.storable()
        &&& self.assets.storable()
        &&& self.world.storable()
        &&& self.terrain.storable()
        &&& self.gui.storable()
    }

    open spec fn stored(&self) -> Seq<u8> {
        self.globals.stored() + self.assets.stored() + self.world.stored()
            + self.terrain.stored() + self.gui.stored()
    }

    open spec fn parse(bytes: Seq<u8>) -> Option<(Self::Kept, nat)> {
        match GlobalParams::parse(bytes) {
            Some((k0, u0)) => match Assets::parse(bytes.skip((u0) as int)) {
                Some((k1, u1)) => match World::parse(bytes.skip((u0 + u1) as int)) {
                    Some((k2, u2)) => match Terrain::parse(bytes.skip((u0 + u1 + u2) as int)) {
                        Some((k3, u3)) => match Gui::parse(bytes.skip((u0 + u1 + u2 + u3) as int)) {
                            Some((k4, u4)) => Some(((k0, k1, k2, k3, k4), u0 + u1 + u2 + u3 + u4)),
                            None => None,
                        },
                        None => None,
                    },
                    None => None,
                },
                None => None,
            },
            None => None,
        }
    }

    proof fn lemma_steady(bytes: Seq<u8>, rest: Seq<u8>) {
        let n = bytes.len() as int;
        GlobalParams::lemma_steady(bytes, rest);
        let u0 = GlobalParams::parse(bytes).unwrap().1;
        lemma_front_kept(bytes, rest, (u0) as int, n);
        let b1 = bytes.skip((u0) as int);
        Assets::lemma_steady(b1, rest);
        let u1 = Assets::parse(b1).unwrap().1;
        lemma_front_kept(bytes, rest, (u0 + u1) as int, n);
        let b2 = bytes.skip((u0 + u1) as int);
        World::lemma_steady(b2, rest);
        let u2 = World::parse(b2).unwrap().1;
        lemma_front_kept(bytes, rest, (u0 + u1 + u2) as int, n);
        let b3 = bytes.skip((u0 + u1 + u2) as int);
        Terrain::lemma_steady(b3, rest);
        let u3 = Terrain::parse(b3).unwrap().1;
        lemma_front_kept(bytes, rest, (u0 + u1 + u2 + u3) as int, n);
        let b4 = bytes.skip((u0 + u1 + u2 + u3) as int);
        Gui::lemma_steady(b4, rest);
        let u4 = Gui::parse(b4).unwrap().1;
    }

    proof fn lemma_round_trip(&self, rest: Seq<u8>) {
        let s0 = self.globals.stored();
        let s1 = self.assets.stored();
        let s2 = self.world.stored();
        let s3 = self.terrain.stored();
        let s4 = self.gui.stored();
        let t5 = rest;
        let t4 = s4 + t5;
        let t3 = s3 + t4;
        let t2 = s2 + t3;
        let t1 = s1 + t2;
        lemma_join(s0 + s1 + s2 + s3, s4, t5);
        lemma_join(s0 + s1 + s2, s3, t4);
        lemma_join(s0 + s1, s2, t3);
        lemma_join(s0, s1, t2);
        self.globals.lemma_round_trip(t1);
        self.assets.lemma_round_trip(t2);
        self.world.lemma_round_trip(t3);
        self.terrain.lemma_round_trip(t4);
        self.gui.lemma_round_trip(t5);
        lemma_skip_front(s0, t1);
        lemma_skip_front(s0, s1);
        lemma_skip_front(s0 + s1, t2);
        lemma_skip_front(s0 + s1, s2);
        lemma_skip_front(s0 + s1 + s2, t3);
        lemma_skip_front(s0 + s1 + s2, s3);
        lemma_skip_front(s0 + s1 + s2 + s3, t4);
        lemma_skip_front(s0 + s1 + s2 + s3, s4);
        lemma_skip_front(s0 + s1 + s2 + s3 + s4, t5);
    }

    fn store(&mut self, writer: &mut StoreWriter) {
        let ghost start = writer@;
        let ghost s0 = self.globals.stored();
        let ghost s1 = self.assets.stored();
        let ghost s2 = self.world.stored();
        let ghost s3 = self.terrain.stored();
        let ghost s4 = self.gui.stored();
        self.globals.store(writer);
        self.assets.store(writer);
        self.world.store(writer);
        self.terrain.store(writer);
        self.gui.store(writer);
        proof {
            lemma_join(start, s0, s1);
            lemma_join(start, s0 + s1, s2);
            lemma_join(start, s0 + s1 + s2, s3);
            lemma_join(start, s0 + s1 + s2 + s3, s4);
        }
    }

    fn load(reader: &mut StoreReader) -> (result: Result<Self, Error>) {
        let ghost rest = reader.remaining();
        let ghost before0 = reader.remaining();
        let v0 = match GlobalParams::load(reader) {
            Ok(value) => value,
            Err(e) => {
                return Err(e);
            },
        };
        let ghost found_a = GlobalParams::parse(before0).unwrap();
        let ghost u0 = found_a.1;
        assert(reader.remaining() == rest.skip(u0 as int));
        let ghost before1 = reader.remaining();
        let v1 = match Assets::load(reader) {
            Ok(value) => value,
            Err(e) => {
                return Err(e);
            },
        };
        let ghost found_b = Assets::parse(before1).unwrap();
        let ghost u1 = found_b.1;
        proof {
            lemma_skip_skip(rest, (u0) as int, u1 as int);
        }
        assert(reader.remaining() == rest.skip((u0 + u1) as int));
        let ghost before2 = reader.remaining();
        let v2 = match World::load(reader) {
            Ok(value) => value,
            Err(e) => {
                return Err(e);
            },
        };
        let ghost found_c = World::parse(before2).unwrap();
        let ghost u2 = found_c.1;
        proof {
            lemma_skip_skip(rest, (u0 + u1) as int, u2 as int);
        }
        assert(reader.remaining() == rest.skip((u0 + u1 + u2) as int));
        let ghost before3 = reader.remaining();
        let v3 = match Terrain::load(reader) {
            Ok(value) => value,
            Err(e) => {
                return Err(e);
            },
        };
        let ghost found_d = Terrain::parse(before3).unwrap();
        let ghost u3 = found_d.1;
        proof {
            lemma_skip_skip(rest, (u0 + u1 + u2) as int, u3 as int);
        }
        assert(reader.remaining() == rest.skip((u0 + u1 + u2 + u3) as int));
        let ghost before4 = reader.remaining();
        let v4 = match Gui::load(reader) {
            Ok(value) => value,
            Err(e) => {
                return Err(e);
            },
        };
        let ghost found_e = Gui::parse(before4).unwrap();
        let ghost u4 = found_e.1;
        proof {
            lemma_skip_skip(rest, (u0 + u1 + u2 + u3) as int, u4 as int);
        }
        assert(reader.remaining() == rest.skip((u0 + u1 + u2 + u3 + u4) as int));
        Ok(
            GameData {
                globals: v0,
                assets: v1,
                world: v2,
                terrain: v3,
                debug: DebugState::new(),
                gui: v4,
            },
        )
    }
}

/// What the clock says at the start of a step. The times are floating point
/// numbers, carried as their bit patterns.
#[derive(Debug, Copy, Clone, PartialEq, Eq)]
pub struct Tick {
    /// The time of this step.
    pub time: u64,
    /// The time since the last step, or zero after a pause.
    pub time_delta: u32,
    /// The simulation was paused, or loaded again, since the last step.
    pub resumed: bool,
    /// The animations are due for a step.
    pub animation_due: bool,
}

impl Default for GlobalParams {
    fn default() -> (params: GlobalParams)
        ensures
            params.flags == GameFlags(0),
            params.debug_flags == DebugFlags(0),
            params.total_sprites == 0,
    {
        GlobalParams::new()
    }
}

impl Default for GameData {
    fn default() -> (data: GameData)
        ensures
            data.fresh(),
    {
        GameData::new()
    }
}

impl GameData {
    /// Whether the data can go into a snapshot.
    pub fn can_store(&self) -> (fits: bool)
        requires
            self.valid(),
        ensures
            fits == self.storable(),
    {
        self.assets.can_store() && self.world.can_store() && self.terrain.can_store()
    }

    /// The data at the start: nothing loaded, no actors, no ground, all
    /// numbers zero, and a panel that has shown nothing yet.
    pub open spec fn fresh(&self) -> bool {
        &&& self.valid()
        &&& self.world.actors() == Seq::<Actor>::empty()
        &&& self.world.selected() == Seq::<Entity>::empty()
        &&& self.world.ordered() == Seq::<crate::data::world::OrderedSprite>::empty()
        &&& self.world.spec_insert_sprite() is None
        &&& self.world.spec_slots() == 0
        &&& self.globals.time == 0
        &&& self.globals.last_animation_tick == 0
        &&& self.globals.time_delta == 0
        &&& self.globals.total_sprites == 0
        &&& self.globals.flags == GameFlags(0)
        &&& self.globals.debug_flags == DebugFlags(0)
        &&& self.globals.mouse_position == (PositionF32 { x: 0, y: 0 })
        &&& self.globals.mouse_position_old == (PositionF32 { x: 0, y: 0 })
        &&& self.globals.view_offset == (PositionF32 { x: 0, y: 0 })
        &&& self.globals.view_size == (SizeF32 { width: 0, height: 0 })
        &&& self.globals.mouse_buttons@ == seq![
            ButtonState::Released,
            ButtonState::Released,
            ButtonState::Released,
        ]
        &&& self.assets.textures@ == Map::<Seq<char>, crate::data::assets::Texture>::empty()
        &&& self.assets.fonts@ == Map::<Seq<char>, Vec<u8>>::empty()
        &&& self.assets.atlas == crate::data::assets::spec_zero_atlas()
        &&& self.debug.elements() == Seq::<crate::data::debug::DebugElement>::empty()
        &&& self.terrain.spec_width() == 0
        &&& self.terrain.spec_height() == 0
        &&& self.terrain.spec_cells() == Seq::<crate::data::terrain::TerrainCell>::empty()
        &&& self.gui.height == crate::data::gui::PANEL_HEIGHT
        &&& self.gui.pixel_per_point == crate::data::gui::ONE
        &&& self.gui.max_texture_size == 2048
        &&& self.gui.view@ == seq![0u32, 0u32, 0u32, 0u32]
        &&& self.gui.game_state == crate::state::GameStateValue::Uninitialized
        &&& self.gui.game_input == crate::state::GameInputType::Select
        &&& self.gui.debug_flags == DebugFlags(0)
        &&& self.gui.events@ == Seq::<crate::data::gui::GuiEvent>::empty()
        &&& self.gui.force_repaint
    }

    /// The data at the start.
    pub fn new() -> (data: GameData)
        ensures
            data.fresh(),
    {
        GameData {
            globals: GlobalParams::new(),
            assets: Assets::new(),
            world: World::new(),
            terrain: Terrain::default(),
            debug: DebugState::new(),
            gui: Gui::new(),
        }
    }

    /// Takes all actors and the ground away.
    pub fn reset(&mut self)
        ensures
            final(self).world.wf(),
            final(self).world.actors() == Seq::<Actor>::empty(),
            final(self).world.selected() == Seq::<Entity>::empty(),
            final(self).world.ordered() == Seq::<crate::data::world::OrderedSprite>::empty(),
            final(self).world.spec_insert_sprite() is None,
            final(self).world.spec_slots() == 0,
            final(self).terrain.spec_width() == 0,
            final(self).terrain.spec_cells() == Seq::<crate::data::terrain::TerrainCell>::empty(),
            final(self).terrain.spec_height() == 0,
            final(self).globals == (GlobalParams {
                flags: GameFlags(old(self).globals.flags.0 | GameFlags::UPDATE_TERRAIN),
                total_sprites: 0,
                ..old(self).globals
            }),
            final(self).assets == old(self).assets,
            final(self).debug == old(self).debug,
            final(self).gui == old(self).gui,
    {
        self.world = World::new();
        self.terrain = Terrain::default();
        self.globals.flags.set_update_terrain();
        self.globals.total_sprites = 0;
    }

    /// Takes all actors away.
    pub fn clear_sprites(&mut self)
        ensures
            final(self).world.wf(),
            final(self).world.actors() == Seq::<Actor>::empty(),
            final(self).world.selected() == Seq::<Entity>::empty(),
            final(self).world.ordered() == Seq::<crate::data::world::OrderedSprite>::empty(),
            final(self).world.spec_insert_sprite() is None,
            final(self).world.spec_slots() == 0,
            final(self).globals == (GlobalParams { total_sprites: 0, ..old(self).globals }),
            final(self).terrain == old(self).terrain,
            final(self).assets == old(self).assets,
            final(self).debug == old(self).debug,
            final(self).gui == old(self).gui,
    {
        self.world = World::new();
        self.globals.total_sprites = 0;
    }

    /// Lays out a ground of `width` by `height` cells of grass.
    pub fn initialize_terrain(&mut self, width: u32, height: u32)
        requires
            width * height <= u32::MAX,
        ensures
            final(self).terrain.spec_width() == width,
            final(self).terrain.spec_height() == height,
            final(self).terrain.spec_cells() == Seq::new(
                (width * height) as nat,
                |i: int| crate::data::terrain::TerrainCell::Grass,
            ),
            final(self).globals == (GlobalParams {
                flags: GameFlags(old(self).globals.flags.0 | GameFlags::UPDATE_TERRAIN),
                ..old(self).globals
            }),
            final(self).world == old(self).world,
            final(self).assets == old(self).assets,
            final(self).debug == old(self).debug,
            final(self).gui == old(self).gui,
    {
        self.terrain.init(width, height);
        self.globals.flags.set_update_terrain();
    }

    /// Begins a step: the debug overlay of the last step goes, and the clock
    /// goes on. After a pause the mouse has not moved and the animations
    /// start their interval anew.
    pub fn prepare_update(&mut self, tick: Tick)
        ensures
            final(self).debug.elements().len() == 0,
            final(self).globals == (GlobalParams {
                time: tick.time,
                time_delta: tick.time_delta,
                last_animation_tick: if tick.resumed || tick.animation_due {
                    tick.time
                } else {
                    old(self).globals.last_animation_tick
                },
                mouse_position_old: if tick.resumed {
                    old(self).globals.mouse_position
                } else {
                    old(self).globals.mouse_position_old
                },
                flags: if tick.animation_due {
                    GameFlags(old(self).globals.flags.0 | GameFlags::UPDATE_ANIMATIONS)
                } else {
                    old(self).globals.flags
                },
                ..old(self).globals
            }),
            final(self).world == old(self).world,
            final(self).terrain == old(self).terrain,
            final(self).assets == old(self).assets,
            final(self).gui == old(self).gui,
    {
        self.debug.clear();
        self.globals.time_delta = tick.time_delta;
        self.globals.time = tick.time;
        if tick.resumed {
            self.globals.last_animation_tick = tick.time;
            self.globals.mouse_position_old = self.globals.mouse_position;
        }
        if tick.animation_due {
            self.globals.flags.set_update_animations();
            self.globals.last_animation_tick = tick.time;
        }
    }

    /// Ends a step: a button that changed in this step has changed, and the
    /// mouse is where it is. `repaint` says that the panel wants to be
    /// painted again.
    pub fn finalize_update(&mut self, repaint: bool)
        ensures
            final(self).globals.mouse_buttons@ == seq![
                old(self).globals.mouse_buttons[0].flipped(),
                old(self).globals.mouse_buttons[1].flipped(),
                old(self).globals.mouse_buttons[2].flipped(),
            ],
            final(self).globals.mouse_position_old == old(self).globals.mouse_position,
            final(self).globals.flags == if repaint {
                GameFlags(old(self).globals.flags.0 | GameFlags::UPDATE_GUI)
            } else {
                old(self).globals.flags
            },
            final(self).globals.mouse_position == old(self).globals.mouse_position,
            final(self).globals.view_offset == old(self).globals.view_offset,
            final(self).globals.view_size == old(self).globals.view_size,
            final(self).globals.debug_flags == old(self).globals.debug_flags,
            final(self).globals.total_sprites == old(self).globals.total_sprites,
            final(self).globals.time == old(self).globals.time,
            final(self).globals.time_delta == old(self).globals.time_delta,
            final(self).globals.last_animation_tick == old(self).globals.last_animation_tick,
            final(self).world == old(self).world,
            final(self).terrain == old(self).terrain,
            final(self).assets == old(self).assets,
            final(self).debug == old(self).debug,
            final(self).gui == old(self).gui,
    {
        let mut first: ButtonState = self.globals.mouse_buttons[0];
        let mut second: ButtonState = self.globals.mouse_buttons[1];
        let mut third: ButtonState = self.globals.mouse_buttons[2];
        first.flip();
        second.flip();
        third.flip();
        self.globals.mouse_buttons = [first, second, third];
        self.globals.mouse_position_old = self.globals.mouse_position;
        if repaint {
            self.globals.flags.set_update_gui();
        }
        assert(self.globals.mouse_buttons@ =~= seq![
            old(self).globals.mouse_buttons[0].flipped(),
            old(self).globals.mouse_buttons[1].flipped(),
            old(self).globals.mouse_buttons[2].flipped(),
        ]);
    }

    /// Notes where the mouse is.
    pub fn update_mouse_position(&mut self, x: u32, y: u32)
        ensures
            final(self).globals == (GlobalParams {
                mouse_position: PositionF32 { x, y },
                ..old(self).globals
            }),
            final(self).world == old(self).world,
            final(self).terrain == old(self).terrain,
            final(self).assets == old(self).assets,
            final(self).debug == old(self).debug,
            final(self).gui == old(self).gui,
    {
        self.globals.mouse_position = PositionF32 { x, y };
    }

    /// Notes that a button of the mouse went down or up. A button that the
    /// simulation does not know changes nothing.
    pub fn update_mouse_buttons(&mut self, button: u8, pressed: bool)
        ensures
            final(self).globals.mouse_buttons@ == if button < 3 {
                old(self).globals.mouse_buttons@.update(
                    button as int,
                    if pressed {
                        ButtonState::JustPressed
                    } else {
                        ButtonState::JustReleased
                    },
                )
            } else {
                old(self).globals.mouse_buttons@
            },
            final(self).globals.flags == old(self).globals.flags,
            final(self).globals.mouse_position == old(self).globals.mouse_position,
            final(self).globals.mouse_position_old == old(self).globals.mouse_position_old,
            final(self).globals.view_offset == old(self).globals.view_offset,
            final(self).globals.view_size == old(self).globals.view_size,
            final(self).globals.debug_flags == old(self).globals.debug_flags,
            final(self).globals.total_sprites == old(self).globals.total_sprites,
            final(self).globals.time == old(self).globals.time,
            final(self).globals.time_delta == old(self).globals.time_delta,
            final(self).globals.last_animation_tick == old(self).globals.last_animation_tick,
            final(self).world == old(self).world,
            final(self).terrain == old(self).terrain,
            final(self).assets == old(self).assets,
            final(self).debug == old(self).debug,
            final(self).gui == old(self).gui,
    {
        let index: usize = button as usize;
        if index < 3 {
            let state: ButtonState = if pressed {
                ButtonState::JustPressed
            } else {
                ButtonState::JustReleased
            };
            let mut buttons: [ButtonState; 3] = self.globals.mouse_buttons;
            buttons[index] = state;
            self.globals.mouse_buttons = buttons;
        }
    }

    /// Whether another actor can be made.
    pub open spec fn has_room(&self) -> bool {
        self.world.has_room() && self.globals.total_sprites < u32::MAX
    }

    /// Whether another actor can be made.
    pub fn can_add(&self) -> (room: bool)
        ensures
            room == self.has_room(),
    {
        self.world.can_spawn() && self.globals.total_sprites < u32::MAX
    }

    /// Makes a pawn at `position` that shows the rectangle `texcoord` of the
    /// atlas, the frame at which `animate` stands.
    pub fn add_pawn(
        &mut self,
        position: PositionF32,
        texcoord: AABB,
        animate: AnimationState,
    ) -> (entity: Entity)
        requires
            old(self).world.wf(),
            old(self).has_room(),
        ensures
            actor_made(
                *old(self),
                *final(self),
                Actor {
                    entity,
                    kind: ActorKind::Pawn,
                    sprite: plain_sprite(position, texcoord),
                    animation: Some(animate),
                },
            ),
    {
        let entity = self.world.add_pawn(position, texcoord, animate);
        self.globals.total_sprites = self.globals.total_sprites + 1;
        entity
    }

    /// Makes a house at `position`, with the sprite that the atlas has for
    /// houses.
    pub fn add_house(&mut self, position: PositionF32) -> (entity: Entity)
        requires
            old(self).world.wf(),
            old(self).has_room(),
        ensures
            actor_made(
                *old(self),
                *final(self),
                Actor {
                    entity,
                    kind: ActorKind::House,
                    sprite: plain_sprite(position, old(self).assets.atlas.house.texcoord),
                    animation: None,
                },
            ),
    {
        let house: StaticSprite = self.assets.atlas.house;
        let entity = self.world.add_house(position, house);
        self.globals.total_sprites = self.globals.total_sprites + 1;
        entity
    }

    /// Makes a castle at `position`, with the sprite that the atlas has for
    /// castles.
    pub fn add_castle(&mut self, position: PositionF32) -> (entity: Entity)
        requires
            old(self).world.wf(),
            old(self).has_room(),
        ensures
            actor_made(
                *old(self),
                *final(self),
                Actor {
                    entity,
                    kind: ActorKind::Castle,
                    sprite: plain_sprite(position, old(self).assets.atlas.castle.texcoord),
                    animation: None,
                },
            ),
    {
        let castle: StaticSprite = self.assets.atlas.castle;
        let entity = self.world.add_castle(position, castle);
        self.globals.total_sprites = self.globals.total_sprites + 1;
        entity
    }
}

/// The sprite of an actor that was just made: it stands at `position`, shows
/// `texcoord`, and is not highlighted.
pub open spec fn plain_sprite(position: PositionF32, texcoord: AABB) -> BaseSprite {
    BaseSprite { position, texcoord, highlight_color: 0, flags: BaseSpriteFlags(0) }
}

/// `after` is `before` with one more actor, under a handle that no actor of
/// `before` has. Its index is one that was free, or that of a new slot. The
/// count of the sprites goes up by one; the selection, the drawing order and
/// all that is not the world stay.
pub open spec fn actor_made(before: GameData, after: GameData, actor: Actor) -> bool {
    &&& after.world.wf()
    &&& !has_actor(before.world.actors(), actor.entity)
    &&& actor_added(before.world.actors(), after.world.actors(), actor)
    &&& after.world.spec_insert_sprite() == before.world.spec_insert_sprite()
    &&& after.world.selected() == before.world.selected()
    &&& after.world.ordered() == before.world.ordered()
    &&& slot_taken(before.world.spec_slots(), after.world.spec_slots(), actor.entity.spec_id())
    &&& after.globals == (GlobalParams {
        total_sprites: (before.globals.total_sprites + 1) as u32,
        ..before.globals
    })
    &&& after.terrain == before.terrain
    &&& after.assets == before.assets
    &&& after.debug == before.debug
    &&& after.gui == before.gui
}

} // verus!
