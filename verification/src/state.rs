//! Where the simulation stands: its stage, what the mouse does, and the
//! actor under the pointer.

use crate::client::GameClient;
use crate::data::base::{ButtonState, DebugFlags, GameFlags};
use crate::data::gui::GuiEvent;
use crate::data::world::{actors_unselected, Actor, InsertSprite, OrderedSprite};
use crate::data::GlobalParams;
use crate::shared::PositionF32;
use crate::entity::Entity;
use crate::error::Error;
use crate::record::Record;
use crate::store::laws::{
    lemma_skip_skip,
    handle_parts, lemma_bool_round_trip, lemma_entity_round_trip, lemma_join,
    lemma_record_round_trip, lemma_skip_front,
};
use crate::store::{
    bool_parse, bool_stored, entity_parse, entity_stored, record_parse, record_stored, StoreLoad,
    StoreReader, StoreWriter,
};
use crate::store::prefix::{
    lemma_bool_steady, lemma_entity_steady, lemma_front_kept, lemma_record_steady,
};
use vstd::prelude::*;

pub mod final_demo;
pub mod generation;
pub mod scene;

verus! {

/// The stage of the simulation.
#[derive(Debug, PartialEq, Eq, Copy, Clone, Structural)]
pub enum GameStateValue {
    Uninitialized,
    Generation,
    Navigation,
    Obstacles,
    FinalDemo,
}

impl Default for GameStateValue {
    fn default() -> (value: Self)
        ensures
            value == GameStateValue::Uninitialized,
    {
        GameStateValue::Uninitialized
    }
}

impl GameStateValue {
    /// The number that stands for the value in a snapshot.
    pub open spec fn spec_raw(self) -> u32 {
        match self {
            GameStateValue::Uninitialized => 0,
            GameStateValue::Generation => 1,
            GameStateValue::Navigation => 2,
            GameStateValue::Obstacles => 3,
            GameStateValue::FinalDemo => 4,
        }
    }

    /// The value that a number stands for, if it stands for one.
    pub open spec fn spec_from_raw(raw: u32) -> Option<Self> {
        if raw == 0 {
            Some(GameStateValue::Uninitialized)
        }         else if raw == 1 {
            Some(GameStateValue::Generation)
        }         else if raw == 2 {
            Some(GameStateValue::Navigation)
        }         else if raw == 3 {
            Some(GameStateValue::Obstacles)
        }         else if raw == 4 {
            Some(GameStateValue::FinalDemo)
        } else {
            None
        }
    }

    /// The number that stands for the value in a snapshot.
    pub fn raw(self) -> (raw: u32)
        ensures
            raw == self.spec_raw(),
    {
        match self {
            GameStateValue::Uninitialized => 0,
            GameStateValue::Generation => 1,
            GameStateValue::Navigation => 2,
            GameStateValue::Obstacles => 3,
            GameStateValue::FinalDemo => 4,
        }
    }

    /// The value that a number stands for, if it stands for one.
    pub fn from_raw(raw: u32) -> (value: Option<Self>)
        ensures
            value == Self::spec_from_raw(raw),
    {
        if raw == 0 {
            Some(GameStateValue::Uninitialized)
        }         else if raw == 1 {
            Some(GameStateValue::Generation)
        }         else if raw == 2 {
            Some(GameStateValue::Navigation)
        }         else if raw == 3 {
            Some(GameStateValue::Obstacles)
        }         else if raw == 4 {
            Some(GameStateValue::FinalDemo)
        } else {
            None
        }
    }
}

impl Record for GameStateValue {
    open spec fn spec_word_count() -> nat {
        1
    }

    open spec fn words(&self) -> Seq<u32> {
        seq![self.spec_raw()]
    }

    open spec fn from_words(words: Seq<u32>) -> Option<Self> {
        Self::spec_from_raw(words[0])
    }

    proof fn lemma_words(&self) {
    }

    proof fn lemma_word_count() {
    }

    fn word_count() -> (n: usize) {
        1
    }

    fn to_words(&self) -> (words: Vec<u32>) {
        vec![self.raw()]
    }

    fn try_from_words(words: &[u32]) -> (value: Option<Self>) {
        Self::from_raw(words[0])
    }
}

/// What a click of the mouse does.
#[derive(Debug, PartialEq, Eq, Copy, Clone, Structural)]
pub enum GameInputType {
    Select,
    Delete,
    PlaceCastle,
    PlaceHouse,
    PlacePawn,
}

impl Default for GameInputType {
    fn default() -> (value: Self)
        ensures
            value == GameInputType::Select,
    {
        GameInputType::Select
    }
}

impl GameInputType {
    /// The number that stands for the value in a snapshot.
    pub open spec fn spec_raw(self) -> u32 {
        match self {
            GameInputType::Select => 0,
            GameInputType::Delete => 1,
            GameInputType::PlaceCastle => 2,
            GameInputType::PlaceHouse => 3,
            GameInputType::PlacePawn => 4,
        }
    }

    /// The value that a number stands for, if it stands for one.
    pub open spec fn spec_from_raw(raw: u32) -> Option<Self> {
        if raw == 0 {
            Some(GameInputType::Select)
        }         else if raw == 1 {
            Some(GameInputType::Delete)
        }         else if raw == 2 {
            Some(GameInputType::PlaceCastle)
        }         else if raw == 3 {
            Some(GameInputType::PlaceHouse)
        }         else if raw == 4 {
            Some(GameInputType::PlacePawn)
        } else {
            None
        }
    }

    /// The number that stands for the value in a snapshot.
    pub fn raw(self) -> (raw: u32)
        ensures
            raw == self.spec_raw(),
    {
        match self {
            GameInputType::Select => 0,
            GameInputType::Delete => 1,
            GameInputType::PlaceCastle => 2,
            GameInputType::PlaceHouse => 3,
            GameInputType::PlacePawn => 4,
        }
    }

    /// The value that a number stands for, if it stands for one.
    pub fn from_raw(raw: u32) -> (value: Option<Self>)
        ensures
            value == Self::spec_from_raw(raw),
    {
        if raw == 0 {
            Some(GameInputType::Select)
        }         else if raw == 1 {
            Some(GameInputType::Delete)
        }         else if raw == 2 {
            Some(GameInputType::PlaceCastle)
        }         else if raw == 3 {
            Some(GameInputType::PlaceHouse)
        }         else if raw == 4 {
            Some(GameInputType::PlacePawn)
        } else {
            None
        }
    }
}

impl Record for GameInputType {
    open spec fn spec_word_count() -> nat {
        1
    }

    open spec fn words(&self) -> Seq<u32> {
        seq![self.spec_raw()]
    }

    open spec fn from_words(words: Seq<u32>) -> Option<Self> {
        Self::spec_from_raw(words[0])
    }

    proof fn lemma_words(&self) {
    }

    proof fn lemma_word_count() {
    }

    fn word_count() -> (n: usize) {
        1
    }

    fn to_words(&self) -> (words: Vec<u32>) {
        vec![self.raw()]
    }

    fn try_from_words(words: &[u32]) -> (value: Option<Self>) {
        Self::from_raw(words[0])
    }
}

/// Where the simulation stands.
#[derive(Debug, Copy, Clone, PartialEq, Eq)]
pub struct GameState {
    pub hovered_entity: Option<Entity>,
    pub input_type: GameInputType,
    pub value: GameStateValue,
    pub scroll_view: bool,
}

impl Default for GameState {
    fn default() -> (state: Self)
        ensures
            state.hovered_entity is None,
            state.input_type == GameInputType::Select,
            state.value == GameStateValue::Uninitialized,
            !state.scroll_view,
    {
        GameState {
            hovered_entity: None,
            input_type: GameInputType::Select,
            value: GameStateValue::Uninitialized,
            scroll_view: false,
        }
    }
}

impl StoreLoad for GameState {
    type Kept = (Option<(u32, u32)>, GameInputType, GameStateValue, bool);

    open spec fn kept(&self) -> Self::Kept {
        (handle_parts(self.hovered_entity), self.input_type, self.value, self.scroll_view)
    }

    /// A snapshot keeps all of it.
    open spec fn loaded(&self) -> bool {
        true
    }

    open spec fn valid(&self) -> bool {
        &&& (self.hovered_entity matches Some(e) ==> e.spec_generation() != 0)
    }

    open spec fn storable(&self) -> bool {
        &&& (self.hovered_entity matches Some(e) ==> e.spec_generation() != 0)
    }

    open spec fn stored(&self) -> Seq<u8> {
        entity_stored(self.hovered_entity) + record_stored(self.input_type) + record_stored(
            self.value,
        ) + bool_stored(self.scroll_view)
    }

    open spec fn parse(bytes: Seq<u8>) -> Option<(Self::Kept, nat)> {
        match entity_parse(bytes) {
            Some((k0, u0)) => match record_parse::<GameInputType>(bytes.skip((u0) as int)) {
                Some((k1, u1)) => match record_parse::<GameStateValue>(
                    bytes.skip((u0 + u1) as int),
                ) {
                    Some((k2, u2)) => match bool_parse(bytes.skip((u0 + u1 + u2) as int)) {
                        Some((k3, u3)) => Some(((k0, k1, k2, k3), u0 + u1 + u2 + u3)),
                        None => None,
                    },
                    None => None,
                },
                None => None,
            },
            None => None,
        }
    }

    proof fn lemma_steady(bytes: Seq<u8>, rest: Seq<u8>) {
        let n = bytes.len() as int;
        lemma_entity_steady(bytes, rest);
        let u0 = entity_parse(bytes).unwrap().1;
        lemma_front_kept(bytes, rest, (u0) as int, n);
        let b1 = bytes.skip((u0) as int);
        lemma_record_steady::<GameInputType>(b1, rest);
        let u1 = record_parse::<GameInputType>(b1).unwrap().1;
        lemma_front_kept(bytes, rest, (u0 + u1) as int, n);
        let b2 = bytes.skip((u0 + u1) as int);
        lemma_record_steady::<GameStateValue>(b2, rest);
        let u2 = record_parse::<GameStateValue>(b2).unwrap().1;
        lemma_front_kept(bytes, rest, (u0 + u1 + u2) as int, n);
        let b3 = bytes.skip((u0 + u1 + u2) as int);
        lemma_bool_steady(b3, rest);
        let u3 = bool_parse(b3).unwrap().1;
    }

    proof fn lemma_round_trip(&self, rest: Seq<u8>) {
        let s0 = entity_stored(self.hovered_entity);
        let s1 = record_stored(self.input_type);
        let s2 = record_stored(self.value);
        let s3 = bool_stored(self.scroll_view);
        let t4 = rest;
        let t3 = s3 + t4;
        let t2 = s2 + t3;
        let t1 = s1 + t2;
        lemma_join(s0 + s1 + s2, s3, t4);
        lemma_join(s0 + s1, s2, t3);
        lemma_join(s0, s1, t2);
        lemma_entity_round_trip(self.hovered_entity, t1);
        lemma_record_round_trip(self.input_type, t2);
        lemma_record_round_trip(self.value, t3);
        lemma_bool_round_trip(self.scroll_view, t4);
        lemma_skip_front(s0, t1);
        lemma_skip_front(s0, s1);
        lemma_skip_front(s0 + s1, t2);
        lemma_skip_front(s0 + s1, s2);
        lemma_skip_front(s0 + s1 + s2, t3);
        lemma_skip_front(s0 + s1 + s2, s3);
        lemma_skip_front(s0 + s1 + s2 + s3, t4);
    }

    fn store(&mut self, writer: &mut StoreWriter) {
        let ghost start = writer@;
        let ghost s0 = entity_stored(self.hovered_entity);
        let ghost s1 = record_stored(self.input_type);
        let ghost s2 = record_stored(self.value);
        let ghost s3 = bool_stored(self.scroll_view);
        writer.write_entity_option(self.hovered_entity);
        writer.write(&self.input_type);
        writer.write(&self.value);
        writer.write_bool(self.scroll_view);
        proof {
            lemma_join(start, s0, s1);
            lemma_join(start, s0 + s1, s2);
            lemma_join(start, s0 + s1 + s2, s3);
        }
    }

    fn load(reader: &mut StoreReader) -> (result: Result<Self, Error>) {
        let ghost rest = reader.remaining();
        let ghost before0 = reader.remaining();
        let v0 = match reader.try_read_entity_option() {
            Ok(value) => value,
            Err(e) => {
                return Err(e);
            },
        };
        let ghost found_a = entity_parse(before0).unwrap();
        let ghost u0 = found_a.1;
        assert(reader.remaining() == rest.skip(u0 as int));
        let ghost before1 = reader.remaining();
        let v1 = match reader.try_read::<GameInputType>() {
            Ok(value) => value,
            Err(e) => {
                return Err(e);
            },
        };
        let ghost found_b = record_parse::<GameInputType>(before1).unwrap();
        let ghost u1 = found_b.1;
        proof {
            lemma_skip_skip(rest, (u0) as int, u1 as int);
        }
        assert(reader.remaining() == rest.skip((u0 + u1) as int));
        let ghost before2 = reader.remaining();
        let v2 = match reader.try_read::<GameStateValue>() {
            Ok(value) => value,
            Err(e) => {
                return Err(e);
            },
        };
        let ghost found_c = record_parse::<GameStateValue>(before2).unwrap();
        let ghost u2 = found_c.1;
        proof {
            lemma_skip_skip(rest, (u0 + u1) as int, u2 as int);
        }
        assert(reader.remaining() == rest.skip((u0 + u1 + u2) as int));
        let ghost before3 = reader.remaining();
        let v3 = match reader.try_read_bool() {
            Ok(value) => value,
            Err(e) => {
                return Err(e);
            },
        };
        let ghost found_d = bool_parse(before3).unwrap();
        let ghost u3 = found_d.1;
        proof {
            lemma_skip_skip(rest, (u0 + u1 + u2) as int, u3 as int);
        }
        assert(reader.remaining() == rest.skip((u0 + u1 + u2 + u3) as int));
        Ok(GameState { hovered_entity: v0, input_type: v1, value: v2, scroll_view: v3 })
    }
}

/// What the events of the panel can change: the stage, the use of the
/// mouse, the debug flags, and the actors with their selection.
pub struct EventModel {
    pub value: GameStateValue,
    pub input_type: GameInputType,
    pub debug_flags: DebugFlags,
    pub total_sprites: u32,
    pub actors: Seq<Actor>,
    pub selected: Seq<Entity>,
    pub ordered: Seq<OrderedSprite>,
    pub insert_sprite: Option<InsertSprite>,
    pub slots: nat,
}

/// What the events of the panel can change, as it stands.
pub open spec fn event_model(client: GameClient) -> EventModel {
    EventModel {
        value: client.state.value,
        input_type: client.state.input_type,
        debug_flags: client.data.globals.debug_flags,
        total_sprites: client.data.globals.total_sprites,
        actors: client.data.world.actors(),
        selected: client.data.world.selected(),
        ordered: client.data.world.ordered(),
        insert_sprite: client.data.world.spec_insert_sprite(),
        slots: client.data.world.spec_slots(),
    }
}

/// What one event does. A new use of the mouse drops the selection; a reset
/// of the world takes all actors away.
pub open spec fn apply_event(model: EventModel, event: GuiEvent) -> EventModel {
    match event {
        GuiEvent::GameStateValueChanged(value) => EventModel { value, ..model },
        GuiEvent::SetInputType(input_type) => EventModel {
            input_type,
            actors: actors_unselected(model.actors, model.selected, model.selected.len()),
            selected: Seq::empty(),
            ..model
        },
        GuiEvent::SetDebugFlags(debug_flags) => EventModel { debug_flags, ..model },
        GuiEvent::ResetWorld => EventModel {
            total_sprites: 0,
            actors: Seq::empty(),
            selected: Seq::empty(),
            ordered: Seq::empty(),
            insert_sprite: None,
            slots: 0,
            ..model
        },
        GuiEvent::ResetPawnPosition => model,
    }
}

/// What the first `n` events do, one after the other.
pub open spec fn apply_events(model: EventModel, events: Seq<GuiEvent>, n: nat) -> EventModel
    decreases n,
{
    if n == 0 {
        model
    } else {
        apply_event(apply_events(model, events, (n - 1) as nat), events[n - 1])
    }
}

/// Takes the events that the panel has raised and does what they ask, in
/// the order in which they were raised.
pub fn handle_gui_events(client: &mut GameClient)
    requires
        old(client).data.world.wf(),
    ensures
        final(client).data.world.wf(),
        event_model(*final(client)) == apply_events(
            event_model(*old(client)),
            old(client).data.gui.events@,
            old(client).data.gui.events@.len(),
        ),
        final(client).data.gui.events@ == Seq::<GuiEvent>::empty(),
        final(client).state.hovered_entity == old(client).state.hovered_entity,
        final(client).state.scroll_view == old(client).state.scroll_view,
        final(client).output == old(client).output,
        final(client).data.terrain == old(client).data.terrain,
        final(client).data.assets == old(client).data.assets,
        final(client).data.debug == old(client).data.debug,
        final(client).data.globals.flags == old(client).data.globals.flags,
{
    let events = client.data.gui.events();
    let ghost start = event_model(*old(client));
    let mut i: usize = 0;
    while i < events.len()
        invariant
            i <= events.len(),
            events@ == old(client).data.gui.events@,
            client.data.world.wf(),
            event_model(*client) == apply_events(start, events@, i as nat),
            client.data.gui.events@ == Seq::<GuiEvent>::empty(),
            client.state.hovered_entity == old(client).state.hovered_entity,
            client.state.scroll_view == old(client).state.scroll_view,
            client.output == old(client).output,
            client.data.terrain == old(client).data.terrain,
            client.data.assets == old(client).data.assets,
            client.data.debug == old(client).data.debug,
            client.data.globals.flags == old(client).data.globals.flags,
        decreases events.len() - i,
    {
        match events[i] {
            GuiEvent::GameStateValueChanged(new_state) => {
                client.state.value = new_state;
            },
            GuiEvent::SetInputType(new_input) => {
                client.data.world.clear_selected_sprites();
                client.state.input_type = new_input;
            },
            GuiEvent::SetDebugFlags(new_flags) => {
                client.data.globals.debug_flags = new_flags;
            },
            GuiEvent::ResetWorld => {
                client.data.clear_sprites();
            },
            GuiEvent::ResetPawnPosition => {},
        }
        i = i + 1;
    }
}

/// What the mouse does to the view in any stage: the middle button takes
/// hold of the view and lets go of it, and while it holds, the view goes
/// where `scrolled` says, which says nothing while the mouse is at rest.
/// Nothing else changes.
pub open spec fn view_dragged<M: Fn(&GlobalParams) -> Option<PositionF32>>(
    before: GameClient,
    after: GameClient,
    scrolled: M,
) -> bool {
    let third = before.data.globals.mouse_buttons[2];
    let held = if third == ButtonState::JustPressed {
        true
    } else if third == ButtonState::JustReleased || third == ButtonState::Released {
        false
    } else {
        before.state.scroll_view
    };
    &&& after.state == (GameState { scroll_view: held, ..before.state })
    &&& if held {
        exists|moved: Option<PositionF32>|
            {
                &&& scrolled.ensures((&before.data.globals,), moved)
                &&& after.data.globals == match moved {
                    Some(view_offset) => GlobalParams {
                        view_offset,
                        flags: GameFlags(
                            before.data.globals.flags.0 | GameFlags::UPDATE_VIEW_OFFSET,
                        ),
                        ..before.data.globals
                    },
                    None => before.data.globals,
                }
            }
    } else {
        after.data.globals == before.data.globals
    }
    &&& after.output == before.output
    &&& after.data.world == before.data.world
    &&& after.data.terrain == before.data.terrain
    &&& after.data.assets == before.data.assets
    &&& after.data.debug == before.data.debug
    &&& after.data.gui == before.data.gui
}

/// Lets the mouse move the view, as every stage does.
pub fn common_inputs<M: Fn(&GlobalParams) -> Option<PositionF32>>(
    game: &mut GameClient,
    scrolled: M,
)
    requires
        scrolled.requires((&old(game).data.globals,)),
    ensures
        view_dragged(*old(game), *final(game), scrolled),
{
    if game.data.globals.middle_mouse_just_pressed() {
        game.state.scroll_view = true;
    } else if game.data.globals.middle_mouse_released() {
        game.state.scroll_view = false;
    }
    if game.state.scroll_view {
        let moved: Option<PositionF32> = scrolled(&game.data.globals);
        match moved {
            Some(view_offset) => {
                game.data.globals.view_offset = view_offset;
                game.data.globals.flags.set_update_view_offset();
            },
            None => {},
        }
    }
}

} // verus!
