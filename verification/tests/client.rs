use game_client::client::{load, save, GameClient};
use game_client::data::base::{AnimationState, ButtonState, GameFlags};
use game_client::data::gui::GuiEvent;
use game_client::data::world::ActorKind;
use game_client::data::Tick;
use game_client::error::ErrorKind;
use game_client::shared::{PositionF32, AABB};
use game_client::state::{common_inputs, handle_gui_events, GameInputType, GameStateValue};
use game_client::store::StoreLoad;

fn at(x: f32, y: f32) -> PositionF32 {
    PositionF32 { x: x.to_bits(), y: y.to_bits() }
}

fn scene() -> GameClient {
    let mut client = GameClient::new();
    client.data.reset();
    client.data.initialize_terrain(18, 16);
    client.data.add_house(at(606.0, 492.0));
    client.data.add_castle(at(253.0, 332.0));
    client.data.add_house(at(343.0, 690.0));
    client.state.value = GameStateValue::Generation;
    client
}

fn kinds(client: &GameClient) -> (usize, usize, usize) {
    let actors = client.data.world.list();
    let count = |kind: ActorKind| actors.iter().filter(|actor| actor.kind == kind).count();
    (count(ActorKind::Pawn), count(ActorKind::House), count(ActorKind::Castle))
}

#[test]
fn a_saved_scene_is_loaded_as_it_was() {
    let mut client = scene();
    let bytes = client.as_bytes();
    let loaded = GameClient::from_bytes(&bytes).unwrap();
    assert_eq!(loaded.data.terrain.width(), 18);
    assert_eq!(loaded.data.terrain.height(), 16);
    assert_eq!(loaded.data.terrain.len(), 18 * 16);
    assert_eq!(kinds(&loaded), (0, 2, 1));
    assert_eq!(loaded.data.world.len(), 3);
    assert_eq!(loaded.data.globals.total_sprites, 3);
    assert_eq!(loaded.state.value, GameStateValue::Generation);
    assert_eq!(loaded.data.gui.game_state, GameStateValue::Generation);
}

#[test]
fn the_order_of_making_does_not_change_what_is_loaded() {
    let mut client = GameClient::new();
    client.data.reset();
    client.data.initialize_terrain(18, 16);
    client.data.add_castle(at(253.0, 332.0));
    client.data.add_house(at(343.0, 690.0));
    client.data.add_house(at(606.0, 492.0));
    let loaded = GameClient::from_bytes(&client.as_bytes()).unwrap();
    assert_eq!(loaded.data.terrain.width(), 18);
    assert_eq!(loaded.data.terrain.height(), 16);
    assert_eq!(kinds(&loaded), (0, 2, 1));
}

#[test]
fn every_actor_comes_back_under_its_handle() {
    let mut client = scene();
    let pawn = client.data.add_pawn(
        at(151.0, 723.0),
        AABB { left: 0, top: 0, right: 10.0f32.to_bits(), bottom: 20.0f32.to_bits() },
        AnimationState { x: 0, y: 0, width: 10.0f32.to_bits(), height: 20.0f32.to_bits(), current_frame: 2, max_frame: 6 },
    );
    client.state.hovered_entity = Some(pawn);
    client.data.globals.view_offset = at(12.5, -3.0);
    let before = client.data.world.list();
    let bytes = client.as_bytes();
    let loaded = GameClient::from_bytes(&bytes).unwrap();
    assert_eq!(loaded.data.world.len(), before.len());
    for actor in before {
        assert_eq!(loaded.data.world.find(actor.entity), Some(actor));
    }
    assert_eq!(loaded.state.hovered_entity, Some(pawn));
    assert_eq!(loaded.data.globals.view_offset, at(12.5, -3.0));
    assert_eq!(loaded.data.globals.total_sprites, 4);
    let mut again = loaded;
    assert_eq!(again.as_bytes().len(), bytes.len());
}

#[test]
fn a_snapshot_without_its_last_byte_is_corrupt() {
    let mut client = scene();
    let bytes = client.as_bytes();
    let error = match GameClient::from_bytes(&bytes[..bytes.len() - 1]) {
        Ok(_) => panic!("a truncated snapshot was read"),
        Err(error) => error,
    };
    assert_eq!(error.kind(), ErrorKind::CorruptData);
    for cut in [0, 1, 4, 20, bytes.len() / 2] {
        assert!(GameClient::from_bytes(&bytes[..cut]).is_err());
    }
    assert!(GameClient::from_bytes(&bytes).is_ok());
}

#[test]
fn a_corrupt_snapshot_gives_a_fresh_simulation() {
    let client = scene();
    let mut bytes = save(client);
    let loaded = load(bytes.clone());
    assert_eq!(loaded.data.world.len(), 3);
    bytes.pop();
    let fresh = load(bytes);
    assert_eq!(fresh.data.world.len(), 0);
    assert_eq!(fresh.data.terrain.width(), 0);
    assert_eq!(fresh.state.value, GameStateValue::Uninitialized);
}

#[test]
fn data_round_trips_on_its_own() {
    let mut client = scene();
    let mut writer = game_client::store::StoreWriter::new();
    assert!(client.data.world.can_store());
    client.data.store(&mut writer);
    let bytes = writer.data();
    let mut reader = game_client::store::StoreReader::new(&bytes).unwrap();
    let data = game_client::data::GameData::load(&mut reader).unwrap();
    assert_eq!(reader.remaining_size(), 0);
    assert_eq!(data.gui.height, 300.0f32.to_bits());
    assert_eq!(data.gui.pixel_per_point, 1.0f32.to_bits());
    assert_eq!(data.gui.max_texture_size, 2048);
    assert_eq!(data.terrain.cell_count(), 288);
}

#[test]
fn a_view_without_width_is_hidden() {
    let mut client = GameClient::new();
    assert!(client.hidden());
    client.data.globals.view_size.width = 800.0f32.to_bits();
    assert!(!client.hidden());
    client.data.globals.view_size.width = (-0.0f32).to_bits();
    assert!(client.hidden());
}

#[test]
fn reset_and_clear() {
    let mut client = scene();
    assert!(client.data.globals.flags.update_terrain());
    client.data.globals.flags = GameFlags(0);
    client.data.clear_sprites();
    assert_eq!(client.data.world.len(), 0);
    assert_eq!(client.data.globals.total_sprites, 0);
    assert_eq!(client.data.terrain.width(), 18);
    assert_eq!(client.data.globals.flags, GameFlags(0));
    client.data.add_house(at(1.0, 1.0));
    client.data.reset();
    assert_eq!(client.data.world.len(), 0);
    assert_eq!(client.data.terrain.width(), 0);
    assert!(client.data.globals.flags.update_terrain());
    assert!(client.data.can_add());
}

#[test]
fn the_clock_and_the_mouse() {
    let mut client = GameClient::new();
    client.data.debug.draw_rect(AABB { left: 0, top: 0, right: 1, bottom: 1 }, 2, [255, 0, 0, 255]);
    client.data.update_mouse_position(5, 6);
    client.data.prepare_update(Tick { time: 99, time_delta: 7, resumed: false, animation_due: true });
    assert!(!client.data.debug.any());
    assert_eq!(client.data.globals.time, 99);
    assert_eq!(client.data.globals.time_delta, 7);
    assert_eq!(client.data.globals.last_animation_tick, 99);
    assert!(client.data.globals.flags.update_animations());
    assert_eq!(client.data.globals.mouse_position_old, PositionF32 { x: 0, y: 0 });
    client.data.prepare_update(Tick { time: 200, time_delta: 0, resumed: true, animation_due: false });
    assert_eq!(client.data.globals.mouse_position_old, PositionF32 { x: 5, y: 6 });
    assert_eq!(client.data.globals.last_animation_tick, 200);
    client.data.update_mouse_buttons(0, true);
    client.data.update_mouse_buttons(2, false);
    client.data.update_mouse_buttons(9, true);
    assert!(client.data.globals.primary_mouse_just_pressed());
    assert!(!client.data.globals.middle_mouse_just_pressed());
    assert!(client.data.globals.middle_mouse_released());
    assert_eq!(
        client.data.globals.mouse_buttons,
        [ButtonState::JustPressed, ButtonState::Released, ButtonState::JustReleased]
    );
    client.data.update_mouse_position(8, 9);
    client.data.finalize_update(true);
    assert_eq!(
        client.data.globals.mouse_buttons,
        [ButtonState::Pressed, ButtonState::Released, ButtonState::Released]
    );
    assert_eq!(client.data.globals.mouse_position_old, PositionF32 { x: 8, y: 9 });
    assert!(client.data.globals.flags.update_gui());
    assert!(!client.data.globals.primary_mouse_just_pressed());
}

#[test]
fn events_of_the_panel_are_done_in_order() {
    let mut client = scene();
    let house = client.data.world.list()[0].entity;
    client.data.world.select_sprite(house);
    client.data.gui.events.push(GuiEvent::GameStateValueChanged(GameStateValue::Navigation));
    client.data.gui.events.push(GuiEvent::SetInputType(GameInputType::Delete));
    client.data.gui.events.push(GuiEvent::SetDebugFlags(game_client::data::base::DebugFlags(3)));
    client.data.gui.events.push(GuiEvent::ResetPawnPosition);
    handle_gui_events(&mut client);
    assert_eq!(client.state.value, GameStateValue::Navigation);
    assert_eq!(client.state.input_type, GameInputType::Delete);
    assert_eq!(client.data.globals.debug_flags.0, 3);
    assert!(!client.data.world.find(house).unwrap().sprite.flags.highlighted());
    assert_eq!(client.data.world.len(), 3);
    assert!(client.data.gui.events.is_empty());
    client.data.gui.events.push(GuiEvent::ResetPawnPosition);
    client.data.gui.clear_events();
    assert!(client.data.gui.events().is_empty());
    client.data.gui.events.push(GuiEvent::ResetWorld);
    handle_gui_events(&mut client);
    assert_eq!(client.data.world.len(), 0);
    assert_eq!(client.data.globals.total_sprites, 0);
}

#[test]
fn the_middle_button_moves_the_view() {
    let mut client = GameClient::new();
    let scrolled = |globals: &game_client::data::GlobalParams| {
        let dx = f32::from_bits(globals.mouse_position_old.x) - f32::from_bits(globals.mouse_position.x);
        let dy = f32::from_bits(globals.mouse_position_old.y) - f32::from_bits(globals.mouse_position.y);
        if dx != 0.0 || dy != 0.0 {
            Some(PositionF32 {
                x: (f32::from_bits(globals.view_offset.x) - dx).to_bits(),
                y: (f32::from_bits(globals.view_offset.y) - dy).to_bits(),
            })
        } else {
            None
        }
    };
    client.data.update_mouse_position(10.0f32.to_bits(), 10.0f32.to_bits());
    common_inputs(&mut client, scrolled);
    assert!(!client.state.scroll_view);
    assert!(!client.data.globals.flags.update_view_offset());
    client.data.update_mouse_buttons(2, true);
    common_inputs(&mut client, scrolled);
    assert!(client.state.scroll_view);
    assert_eq!(client.data.globals.view_offset, at(10.0, 10.0));
    assert!(client.data.globals.flags.update_view_offset());
    client.data.finalize_update(false);
    client.data.globals.flags = GameFlags(0);
    common_inputs(&mut client, scrolled);
    assert!(client.state.scroll_view);
    assert!(!client.data.globals.flags.update_view_offset());
    client.data.update_mouse_buttons(2, false);
    common_inputs(&mut client, scrolled);
    assert!(!client.state.scroll_view);
}

#[test]
fn a_scene_can_be_saved_and_drawn() {
    let mut client = scene();
    assert!(client.can_save());
    assert!(client.can_render());
    assert!(client.data.can_store());
    assert!(client.data.assets.can_store());
    assert!(client.data.terrain.can_store());
    for _ in 0..8193 {
        client.data.debug.draw_rect(AABB { left: 0, top: 0, right: 0, bottom: 0 }, 0, [0; 4]);
    }
    assert!(!client.can_render());
    assert!(client.can_save());
}

#[test]
fn what_a_snapshot_does_not_keep_is_as_at_the_start() {
    let mut client = scene();
    client.data.prepare_update(Tick {
        time: 5000.0f64.to_bits(),
        time_delta: 16.0f32.to_bits(),
        resumed: false,
        animation_due: true,
    });
    client.data.update_mouse_buttons(0, true);
    client.data.update_mouse_buttons(2, true);
    client.data.debug.draw_rect(AABB { left: 0, top: 0, right: 0, bottom: 0 }, 0, [1, 2, 3, 4]);
    client.data.gui.events.push(GuiEvent::ResetWorld);
    let first = client.data.world.list()[0].entity;
    client.data.world.select_sprite(first);
    assert!(client.can_save());
    let bytes = client.as_bytes();

    let loaded = GameClient::from_bytes(&bytes).unwrap();
    assert_eq!(loaded.data.globals.time, 0);
    assert_eq!(loaded.data.globals.last_animation_tick, 0);
    assert_eq!(loaded.data.globals.time_delta, 0);
    assert_eq!(loaded.data.globals.mouse_buttons, [ButtonState::Released; 3]);
    assert_eq!(loaded.data.debug.len(), 0);
    assert!(loaded.data.gui.events.is_empty());
    assert!(loaded.data.gui.force_repaint);
    assert_eq!(loaded.data.gui.game_input, loaded.state.input_type);
    assert_eq!(loaded.data.gui.debug_flags, loaded.data.globals.debug_flags);
    assert!(loaded.data.world.ordered_sprites().is_empty());
    assert!(loaded.output.message_list().is_empty());
    assert!(loaded.output.data_block().is_empty());
    assert_eq!(loaded.output.output_index().messages_count, 0);
    // The flag that the animations are due is kept, and so is the highlight
    // of the actor that was selected.
    assert!(loaded.data.globals.flags.update_animations());
    assert!(loaded.data.world.find(first).unwrap().sprite.flags.highlighted());
}
