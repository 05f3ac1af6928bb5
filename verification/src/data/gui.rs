//! The panel: what of it outlasts a frame, and the events that it raises.

use crate::data::base::DebugFlags;
use crate::error::Error;
use crate::record::Record;
use crate::state::{GameInputType, GameStateValue};
use crate::store::laws::{
    lemma_skip_skip,lemma_join, lemma_record_round_trip, lemma_skip_front};
use crate::store::{record_parse, record_stored, StoreLoad, StoreReader, StoreWriter};
use crate::store::prefix::{lemma_front_kept, lemma_record_steady};
use vstd::prelude::*;

verus! {

/// What the panel asks of the simulation.
#[derive(Debug, Copy, Clone, PartialEq, Eq)]
pub enum GuiEvent {
    GameStateValueChanged(GameStateValue),
    SetDebugFlags(DebugFlags),
    SetInputType(GameInputType),
    ResetWorld,
    ResetPawnPosition,
}

/// The state of the panel. Sizes are floating point numbers, carried as
/// their bit patterns.
#[derive(Debug)]
pub struct Gui {
    /// The height of the panel.
    pub height: u32,
    pub pixel_per_point: u32,
    pub max_texture_size: u32,
    /// Left, top, width and height of the panel in the view.
    pub view: [u32; 4],
    pub game_state: GameStateValue,
    pub game_input: GameInputType,
    pub debug_flags: DebugFlags,
    pub events: Vec<GuiEvent>,
    pub force_repaint: bool,
}

/// 300 as a floating point number: the height of a new panel.
pub const PANEL_HEIGHT: u32 = 0x4396_0000;

/// 1 as a floating point number.
pub const ONE: u32 = 0x3F80_0000;

impl Default for Gui {
    fn default() -> (gui: Gui)
        ensures
            gui.height == PANEL_HEIGHT,
            gui.pixel_per_point == ONE,
            gui.max_texture_size == 2048,
            gui.game_state == GameStateValue::Uninitialized,
            gui.game_input == GameInputType::Select,
            gui.events@ == Seq::<GuiEvent>::empty(),
            gui.force_repaint,
    {
        Gui::new()
    }
}

impl Gui {
    /// A panel of the usual height that has shown nothing yet.
    pub fn new() -> (gui: Gui)
        ensures
            gui.height == PANEL_HEIGHT,
            gui.pixel_per_point == ONE,
            gui.max_texture_size == 2048,
            gui.view@ == seq![0u32, 0u32, 0u32, 0u32],
            gui.game_state == GameStateValue::Uninitialized,
            gui.game_input == GameInputType::Select,
            gui.debug_flags == DebugFlags(0),
            gui.events@ == Seq::<GuiEvent>::empty(),
            gui.force_repaint,
    {
        let gui = Gui {
            height: PANEL_HEIGHT,
            pixel_per_point: ONE,
            max_texture_size: 2048,
            view: [0, 0, 0, 0],
            game_state: GameStateValue::Uninitialized,
            game_input: GameInputType::Select,
            debug_flags: DebugFlags(0),
            events: Vec::new(),
            force_repaint: true,
        };
        assert(gui.view@ =~= seq![0u32, 0u32, 0u32, 0u32]);
        gui
    }

    /// Shows the given stage and the given use of the mouse.
    pub fn set_state(&mut self, state: GameStateValue, input: GameInputType)
        ensures
            *final(self) == (Gui {
                game_state: state,
                game_input: input,
                force_repaint: true,
                ..*old(self)
            }),
    {
        self.game_state = state;
        self.game_input = input;
        self.force_repaint = true;
    }

    /// Shows the given debug flags.
    pub fn set_debug_flags(&mut self, flags: DebugFlags)
        ensures
            *final(self) == (Gui { debug_flags: flags, force_repaint: true, ..*old(self) }),
    {
        self.debug_flags = flags;
        self.force_repaint = true;
    }

    /// Hands out the events that the panel has raised, oldest first, and
    /// keeps none.
    pub fn events(&mut self) -> (events: Vec<GuiEvent>)
        ensures
            events@ == old(self).events@,
            final(self).events@ == Seq::<GuiEvent>::empty(),
            final(self).height == old(self).height,
            final(self).pixel_per_point == old(self).pixel_per_point,
            final(self).max_texture_size == old(self).max_texture_size,
            final(self).view == old(self).view,
            final(self).game_state == old(self).game_state,
            final(self).game_input == old(self).game_input,
            final(self).debug_flags == old(self).debug_flags,
            final(self).force_repaint == old(self).force_repaint,
    {
        let mut taken: Vec<GuiEvent> = Vec::new();
        core::mem::swap(&mut self.events, &mut taken);
        taken
    }

    /// Drops the events that the panel has raised.
    pub fn clear_events(&mut self)
        ensures
            final(self).events@ == Seq::<GuiEvent>::empty(),
            final(self).height == old(self).height,
            final(self).pixel_per_point == old(self).pixel_per_point,
            final(self).max_texture_size == old(self).max_texture_size,
            final(self).view == old(self).view,
            final(self).game_state == old(self).game_state,
            final(self).game_input == old(self).game_input,
            final(self).debug_flags == old(self).debug_flags,
            final(self).force_repaint == old(self).force_repaint,
    {
        self.events.clear();
    }

    /// Says whether the panel has to be painted although nothing in it
    /// asked for it, and forgets it.
    pub fn take_force_repaint(&mut self) -> (forced: bool)
        ensures
            forced == old(self).force_repaint,
            *final(self) == (Gui { force_repaint: false, ..*old(self) }),
    {
        let forced = self.force_repaint;
        self.force_repaint = false;
        forced
    }
}

impl StoreLoad for Gui {
    type Kept = (u32, u32, u32, [u32; 4]);

    open spec fn kept(&self) -> Self::Kept {
        (self.height, self.pixel_per_point, self.max_texture_size, self.view)
    }

    /// The panel shows no stage yet, the mouse selects, no debug flag is
    /// set, no event is raised, and the panel is yet to be painted.
    open spec fn loaded(&self) -> bool {
        &&& self.game_state == GameStateValue::Uninitialized
        &&& self.game_input == GameInputType::Select
        &&& self.debug_flags == DebugFlags(0)
        &&& self.events@ == Seq::<GuiEvent>::empty()
        &&& self.force_repaint
    }

    open spec fn valid(&self) -> bool {
        true
    }

    open spec fn storable(&self) -> bool {
        true
    }

    open spec fn stored(&self) -> Seq<u8> {
        record_stored(self.height) + record_stored(self.pixel_per_point) + record_stored(
            self.max_texture_size,
        ) + record_stored(self.view)
    }

    open spec fn parse(bytes: Seq<u8>) -> Option<(Self::Kept, nat)> {
        match record_parse::<u32>(bytes) {
            Some((k0, u0)) => match record_parse::<u32>(bytes.skip((u0) as int)) {
                Some((k1, u1)) => match record_parse::<u32>(bytes.skip((u0 + u1) as int)) {
                    Some((k2, u2)) => match record_parse::<[u32; 4]>(
                        bytes.skip((u0 + u1 + u2) as int),
                    ) {
                        Some((k3, u3)) => Some(((k0, k1, k2, k3), u0 + u1 + u2 + u3)),
                        None => None,
                    },
                    None => None,
                },
                None => None,
            },
            None => None,
        }
    }

    proof fn lemma_steady(bytes: Seq<u8>, rest: Seq<u8>) {
        let n = bytes.len() as int;
        lemma_record_steady::<u32>(bytes, rest);
        let u0 = record_parse::<u32>(bytes).unwrap().1;
        lemma_front_kept(bytes, rest, (u0) as int, n);
        let b1 = bytes.skip((u0) as int);
        lemma_record_steady::<u32>(b1, rest);
        let u1 = record_parse::<u32>(b1).unwrap().1;
        lemma_front_kept(bytes, rest, (u0 + u1) as int, n);
        let b2 = bytes.skip((u0 + u1) as int);
        lemma_record_steady::<u32>(b2, rest);
        let u2 = record_parse::<u32>(b2).unwrap().1;
        lemma_front_kept(bytes, rest, (u0 + u1 + u2) as int, n);
        let b3 = bytes.skip((u0 + u1 + u2) as int);
        lemma_record_steady::<[u32; 4]>(b3, rest);
        let u3 = record_parse::<[u32; 4]>(b3).unwrap().1;
    }

    proof fn lemma_round_trip(&self, rest: Seq<u8>) {
        let s0 = record_stored(self.height);
        let s1 = record_stored(self.pixel_per_point);
        let s2 = record_stored(self.max_texture_size);
        let s3 = record_stored(self.view);
        let t4 = rest;
        let t3 = s3 + t4;
        let t2 = s2 + t3;
        let t1 = s1 + t2;
        lemma_join(s0 + s1 + s2, s3, t4);
        lemma_join(s0 + s1, s2, t3);
        lemma_join(s0, s1, t2);
        lemma_record_round_trip(self.height, t1);
        lemma_record_round_trip(self.pixel_per_point, t2);
        lemma_record_round_trip(self.max_texture_size, t3);
        lemma_record_round_trip(self.view, t4);
        lemma_skip_front(s0, t1);
        lemma_skip_front(s0, s1);
        lemma_skip_front(s0 + s1, t2);
        lemma_skip_front(s0 + s1, s2);
        lemma_skip_front(s0 + s1 + s2, t3);
        lemma_skip_front(s0 + s1 + s2, s3);
        lemma_skip_front(s0 + s1 + s2 + s3, t4);
    }

    fn store(&mut self, writer: &mut StoreWriter) {
        let ghost start = writer@;
        let ghost s0 = record_stored(self.height);
        let ghost s1 = record_stored(self.pixel_per_point);
        let ghost s2 = record_stored(self.max_texture_size);
        let ghost s3 = record_stored(self.view);
        writer.write(&self.height);
        writer.write(&self.pixel_per_point);
        writer.write(&self.max_texture_size);
        writer.write(&self.view);
        proof {
            lemma_join(start, s0, s1);
            lemma_join(start, s0 + s1, s2);
            lemma_join(start, s0 + s1 + s2, s3);
        }
    }

    fn load(reader: &mut StoreReader) -> (result: Result<Self, Error>) {
        let ghost rest = reader.remaining();
        let ghost before0 = reader.remaining();
        let v0 = match reader.try_read::<u32>() {
            Ok(value) => value,
            Err(e) => {
                return Err(e);
            },
        };
        let ghost found_a = record_parse::<u32>(before0).unwrap();
        let ghost u0 = found_a.1;
        assert(reader.remaining() == rest.skip(u0 as int));
        let ghost before1 = reader.remaining();
        let v1 = match reader.try_read::<u32>() {
            Ok(value) => value,
            Err(e) => {
                return Err(e);
            },
        };
        let ghost found_b = record_parse::<u32>(before1).unwrap();
        let ghost u1 = found_b.1;
        proof {
            lemma_skip_skip(rest, (u0) as int, u1 as int);
        }
        assert(reader.remaining() == rest.skip((u0 + u1) as int));
        let ghost before2 = reader.remaining();
        let v2 = match reader.try_read::<u32>() {
            Ok(value) => value,
            Err(e) => {
                return Err(e);
            },
        };
        let ghost found_c = record_parse::<u32>(before2).unwrap();
        let ghost u2 = found_c.1;
        proof {
            lemma_skip_skip(rest, (u0 + u1) as int, u2 as int);
        }
        assert(reader.remaining() == rest.skip((u0 + u1 + u2) as int));
        let ghost before3 = reader.remaining();
        let v3 = match reader.try_read::<[u32; 4]>() {
            Ok(value) => value,
            Err(e) => {
                return Err(e);
            },
        };
        let ghost found_d = record_parse::<[u32; 4]>(before3).unwrap();
        let ghost u3 = found_d.1;
        proof {
            lemma_skip_skip(rest, (u0 + u1 + u2) as int, u3 as int);
        }
        assert(reader.remaining() == rest.skip((u0 + u1 + u2 + u3) as int));
        Ok(Gui {
            height: v0,
            pixel_per_point: v1,
            max_texture_size: v2,
            view: v3,
            game_state: GameStateValue::Uninitialized,
            game_input: GameInputType::Select,
            debug_flags: DebugFlags(0),
            events: Vec::new(),
            force_repaint: true,
        })
    }
}

} // verus!
