use game_client::client::GameClient;
use game_client::data::base::{AnimationState, BaseSprite, StaticSprite};
use game_client::data::world::{Actor, ActorKind, InsertSprite};
use game_client::data::GlobalParams;
use game_client::shared::{PositionF32, AABB};
use game_client::state::scene::{add_actor, clear, lay_out, PawnLook};
use game_client::state::{final_demo, generation, GameInputType, GameStateValue};

fn place(x: f32, y: f32) -> PositionF32 {
    PositionF32 { x: x.to_bits(), y: y.to_bits() }
}

fn area(left: f32, top: f32, right: f32, bottom: f32) -> AABB {
    AABB {
        left: left.to_bits(),
        top: top.to_bits(),
        right: right.to_bits(),
        bottom: bottom.to_bits(),
    }
}

fn look() -> PawnLook {
    PawnLook {
        preview: StaticSprite { texcoord: area(0.0, 0.0, 10.0, 20.0) },
        texcoord: area(0.0, 0.0, 10.0, 20.0),
        animation: AnimationState {
            x: 0.0f32.to_bits(),
            y: 0.0f32.to_bits(),
            width: 10.0f32.to_bits(),
            height: 20.0f32.to_bits(),
            current_frame: 0,
            max_frame: 6,
        },
    }
}

fn client() -> GameClient {
    let mut game = GameClient::new();
    game.data.assets.atlas.castle = StaticSprite { texcoord: area(0.0, 0.0, 60.0, 80.0) };
    game.data.assets.atlas.house = StaticSprite { texcoord: area(100.0, 0.0, 130.0, 40.0) };
    game
}

fn still(_globals: &GlobalParams) -> Option<PositionF32> {
    None
}

fn in_world(globals: &GlobalParams) -> PositionF32 {
    place(
        f32::from_bits(globals.mouse_position.x) - f32::from_bits(globals.view_offset.x),
        f32::from_bits(globals.mouse_position.y) - f32::from_bits(globals.view_offset.y),
    )
}

fn centered(point: PositionF32, rect: &AABB) -> PositionF32 {
    let width = f32::from_bits(rect.right) - f32::from_bits(rect.left);
    let height = f32::from_bits(rect.bottom) - f32::from_bits(rect.top);
    place(f32::from_bits(point.x) - width * 0.5, f32::from_bits(point.y) - height)
}

fn under(point: PositionF32) -> impl Fn(&BaseSprite) -> bool {
    move |sprite: &BaseSprite| {
        let x = f32::from_bits(point.x);
        let y = f32::from_bits(point.y);
        let left = f32::from_bits(sprite.position.x);
        let top = f32::from_bits(sprite.position.y);
        let width = f32::from_bits(sprite.texcoord.right) - f32::from_bits(sprite.texcoord.left);
        let height = f32::from_bits(sprite.texcoord.bottom) - f32::from_bits(sprite.texcoord.top);
        x >= left && x <= left + width && y >= top && y <= top + height
    }
}

fn frame_of(animation: &AnimationState) -> AABB {
    let x = f32::from_bits(animation.x)
        + f32::from_bits(animation.width) * animation.current_frame as f32;
    let y = f32::from_bits(animation.y);
    area(x, y, x + f32::from_bits(animation.width), y + f32::from_bits(animation.height))
}

fn depth_of(sprite: &BaseSprite) -> i64 {
    let bottom = f32::from_bits(sprite.position.y)
        + (f32::from_bits(sprite.texcoord.bottom) - f32::from_bits(sprite.texcoord.top));
    (bottom * 64.0) as i64
}

fn of_kind(actors: &[Actor], kind: ActorKind) -> Vec<Actor> {
    actors.iter().filter(|actor| actor.kind == kind).copied().collect()
}

/// One step of the first stage, with the mouse at `mouse`.
fn step(game: &mut GameClient, mouse: (f32, f32), outside_gui: bool, moved: bool) {
    game.data.update_mouse_position(mouse.0.to_bits(), mouse.1.to_bits());
    assert!(generation::can_update(game, outside_gui));
    generation::update(game, still, outside_gui, moved, in_world, centered, under, &look());
}

#[test]
fn the_first_stage_lays_out_its_scene() {
    let mut game = client();
    generation::init(&mut game, &look());

    assert_eq!(game.state.value, GameStateValue::Generation);
    assert_eq!(game.data.gui.game_state, GameStateValue::Generation);
    assert_eq!(game.data.gui.game_input, GameInputType::Select);
    assert!(game.data.gui.force_repaint);
    assert_eq!(game.data.terrain.width(), 18);
    assert_eq!(game.data.terrain.height(), 16);
    assert_eq!(game.data.terrain.cell_count(), 18 * 16);
    assert_eq!(game.data.globals.total_sprites, 8);
    assert!(game.data.globals.flags.update_terrain());

    let actors = game.data.world.list();
    assert_eq!(actors.len(), 8);
    let castles = of_kind(&actors, ActorKind::Castle);
    assert_eq!(castles.len(), 1);
    assert_eq!(castles[0].sprite.position, place(253.0, 332.0));
    assert_eq!(castles[0].sprite.texcoord, area(0.0, 0.0, 60.0, 80.0));
    assert_eq!(castles[0].animation, None);

    let mut houses: Vec<PositionF32> =
        of_kind(&actors, ActorKind::House).iter().map(|actor| actor.sprite.position).collect();
    houses.sort_by_key(|position| position.x);
    let mut expected = vec![
        place(606.0, 492.0),
        place(343.0, 690.0),
        place(82.0, 476.0),
        place(179.0, 56.0),
        place(602.0, 156.0),
    ];
    expected.sort_by_key(|position| position.x);
    assert_eq!(houses, expected);

    let pawns = of_kind(&actors, ActorKind::Pawn);
    assert_eq!(pawns.len(), 2);
    for pawn in pawns.iter() {
        assert_eq!(pawn.sprite.texcoord, look().texcoord);
        assert_eq!(pawn.animation, Some(look().animation));
        assert!(
            pawn.sprite.position == place(151.0, 723.0)
                || pawn.sprite.position == place(446.0, 128.0)
        );
    }
    assert_ne!(pawns[0].sprite.position, pawns[1].sprite.position);
}

#[test]
fn the_scene_has_eight_places() {
    let places = generation::scene_places();
    assert_eq!(places.len(), 8);
    assert_eq!(places[0], (ActorKind::Castle, place(253.0, 332.0)));
    assert_eq!(places[7], (ActorKind::Pawn, place(446.0, 128.0)));
}

#[test]
fn a_stage_starts_from_an_empty_world() {
    let mut game = client();
    generation::init(&mut game, &look());
    generation::init(&mut game, &look());
    assert_eq!(game.data.world.len(), 8);
    assert_eq!(game.data.globals.total_sprites, 8);
}

#[test]
fn the_last_stage_has_one_pawn() {
    let mut game = client();
    final_demo::init(&mut game, &look());

    assert_eq!(game.state.value, GameStateValue::FinalDemo);
    assert_eq!(game.data.gui.game_state, GameStateValue::FinalDemo);
    assert_eq!(game.data.terrain.width(), 32);
    assert_eq!(game.data.terrain.height(), 16);
    let actors = game.data.world.list();
    assert_eq!(actors.len(), 1);
    assert_eq!(actors[0].kind, ActorKind::Pawn);
    assert_eq!(actors[0].sprite.position, place(100.0, 100.0));
    assert_eq!(actors[0].animation, Some(look().animation));
}

#[test]
fn the_last_stage_only_moves_the_view() {
    let mut game = client();
    final_demo::init(&mut game, &look());
    game.data.update_mouse_buttons(2, true);
    final_demo::update(&mut game, |_: &GlobalParams| Some(place(5.0, 7.0)));
    assert!(game.state.scroll_view);
    assert_eq!(game.data.globals.view_offset, place(5.0, 7.0));
    assert!(game.data.globals.flags.update_view_offset());
    assert_eq!(game.data.world.len(), 1);
}

#[test]
fn a_scene_is_laid_out_in_its_order() {
    let mut game = client();
    let places = [(ActorKind::House, place(1.0, 2.0)), (ActorKind::Castle, place(3.0, 4.0))];
    lay_out(&mut game, 4, 3, &places, GameStateValue::Obstacles, &look());
    assert_eq!(game.state.value, GameStateValue::Obstacles);
    assert_eq!(game.data.terrain.cell_count(), 12);
    let actors = game.data.world.list();
    assert_eq!(actors.len(), 2);
    assert_eq!(of_kind(&actors, ActorKind::House)[0].sprite.position, place(1.0, 2.0));
    assert_eq!(of_kind(&actors, ActorKind::Castle)[0].sprite.position, place(3.0, 4.0));

    clear(&mut game.data, 2, 2);
    assert_eq!(game.data.world.len(), 0);
    assert_eq!(game.data.terrain.cell_count(), 4);
    let entity = add_actor(&mut game.data, ActorKind::Pawn, place(9.0, 9.0), &look());
    assert_eq!(game.data.world.find(entity).map(|actor| actor.kind), Some(ActorKind::Pawn));
}

#[test]
fn the_sprite_to_place_follows_the_mouse() {
    let mut game = client();
    game.state.input_type = GameInputType::PlaceHouse;
    step(&mut game, (200.0, 300.0), true, false);
    assert_eq!(
        game.data.world.has_insert_sprite(),
        Some(InsertSprite { position: place(185.0, 260.0), sprite: area(100.0, 0.0, 130.0, 40.0) })
    );
    assert_eq!(game.data.world.len(), 0);

    game.state.input_type = GameInputType::PlacePawn;
    step(&mut game, (200.0, 300.0), true, false);
    assert_eq!(
        game.data.world.has_insert_sprite(),
        Some(InsertSprite { position: place(195.0, 280.0), sprite: look().preview.texcoord })
    );

    step(&mut game, (200.0, 300.0), false, false);
    assert_eq!(game.data.world.has_insert_sprite(), None);

    game.state.input_type = GameInputType::Select;
    step(&mut game, (200.0, 300.0), true, false);
    assert_eq!(game.data.world.has_insert_sprite(), None);
}

#[test]
fn a_press_places_what_the_mouse_holds() {
    let mut game = client();
    game.data.globals.view_offset = place(10.0, 20.0);
    game.state.input_type = GameInputType::PlaceCastle;
    game.data.update_mouse_buttons(0, true);
    step(&mut game, (200.0, 300.0), true, false);

    let actors = game.data.world.list();
    assert_eq!(actors.len(), 1);
    assert_eq!(actors[0].kind, ActorKind::Castle);
    assert_eq!(actors[0].sprite.position, place(160.0, 200.0));
    assert_eq!(actors[0].sprite.texcoord, area(0.0, 0.0, 60.0, 80.0));
    assert_eq!(game.data.globals.total_sprites, 1);

    game.state.input_type = GameInputType::PlacePawn;
    step(&mut game, (200.0, 300.0), true, false);
    let pawns = of_kind(&game.data.world.list(), ActorKind::Pawn);
    assert_eq!(pawns.len(), 1);
    assert_eq!(pawns[0].sprite.position, place(185.0, 260.0));
    assert_eq!(pawns[0].animation, Some(look().animation));
    assert_eq!(game.data.globals.total_sprites, 2);
}

#[test]
fn a_press_over_the_panel_places_nothing() {
    let mut game = client();
    game.state.input_type = GameInputType::PlaceHouse;
    game.data.update_mouse_buttons(0, true);
    step(&mut game, (200.0, 300.0), false, false);
    assert_eq!(game.data.world.len(), 0);

    game.data.finalize_update(false);
    step(&mut game, (200.0, 300.0), true, false);
    assert_eq!(game.data.world.len(), 0);
}

#[test]
fn a_press_takes_the_actor_under_the_mouse_away() {
    let mut game = client();
    generation::init(&mut game, &look());
    game.data.world.order_sprites(false, frame_of, depth_of);
    game.state.input_type = GameInputType::Delete;
    game.data.update_mouse_buttons(0, true);

    step(&mut game, (5.0, 5.0), true, false);
    assert_eq!(game.data.world.len(), 8);

    step(&mut game, (260.0, 340.0), true, false);
    let actors = game.data.world.list();
    assert_eq!(actors.len(), 7);
    assert!(of_kind(&actors, ActorKind::Castle).is_empty());
}

#[test]
fn a_press_selects_the_actor_under_the_mouse_alone() {
    let mut game = client();
    generation::init(&mut game, &look());
    game.data.world.order_sprites(false, frame_of, depth_of);
    game.state.input_type = GameInputType::Select;
    game.data.update_mouse_buttons(0, true);

    step(&mut game, (260.0, 340.0), true, false);
    let lit: Vec<Actor> =
        game.data.world.list().into_iter().filter(|a| a.sprite.flags.highlighted()).collect();
    assert_eq!(lit.len(), 1);
    assert_eq!(lit[0].kind, ActorKind::Castle);
    assert_eq!(lit[0].sprite.highlight_color, 0xFF_FFFF);

    step(&mut game, (610.0, 500.0), true, false);
    let lit: Vec<Actor> =
        game.data.world.list().into_iter().filter(|a| a.sprite.flags.highlighted()).collect();
    assert_eq!(lit.len(), 1);
    assert_eq!(lit[0].kind, ActorKind::House);
    assert_eq!(lit[0].sprite.position, place(606.0, 492.0));

    step(&mut game, (5.0, 5.0), true, false);
    assert!(game.data.world.list().iter().all(|a| !a.sprite.flags.highlighted()));
}

#[test]
fn the_actor_that_is_about_to_go_is_lit_in_red() {
    let mut game = client();
    generation::init(&mut game, &look());
    game.data.world.order_sprites(false, frame_of, depth_of);
    game.state.input_type = GameInputType::Delete;

    step(&mut game, (260.0, 340.0), true, true);
    let castle = of_kind(&game.data.world.list(), ActorKind::Castle)[0];
    assert_eq!(game.state.hovered_entity, Some(castle.entity));
    assert!(castle.sprite.flags.highlighted());
    assert_eq!(castle.sprite.highlight_color, 0xFF);

    step(&mut game, (610.0, 500.0), true, true);
    let actors = game.data.world.list();
    let castle = of_kind(&actors, ActorKind::Castle)[0];
    assert!(!castle.sprite.flags.highlighted());
    assert_eq!(castle.sprite.highlight_color, 0);
    let lit: Vec<&Actor> = actors.iter().filter(|a| a.sprite.flags.highlighted()).collect();
    assert_eq!(lit.len(), 1);
    assert_eq!(lit[0].sprite.position, place(606.0, 492.0));
    assert_eq!(game.state.hovered_entity, Some(lit[0].entity));

    step(&mut game, (5.0, 5.0), true, true);
    assert_eq!(game.state.hovered_entity, None);
    assert!(game.data.world.list().iter().all(|a| !a.sprite.flags.highlighted()));
}

#[test]
fn a_mouse_at_rest_notes_nothing() {
    let mut game = client();
    generation::init(&mut game, &look());
    game.data.world.order_sprites(false, frame_of, depth_of);
    game.state.input_type = GameInputType::Delete;
    step(&mut game, (260.0, 340.0), true, false);
    assert_eq!(game.state.hovered_entity, None);
    assert!(game.data.world.list().iter().all(|a| !a.sprite.flags.highlighted()));

    game.state.input_type = GameInputType::Select;
    step(&mut game, (260.0, 340.0), true, true);
    assert_eq!(game.state.hovered_entity, None);
    assert!(game.data.world.list().iter().all(|a| !a.sprite.flags.highlighted()));
}

#[test]
fn the_view_is_dragged_before_the_press_acts() {
    let mut game = client();
    game.state.input_type = GameInputType::PlaceHouse;
    game.data.update_mouse_buttons(0, true);
    game.data.update_mouse_buttons(2, true);
    game.data.update_mouse_position(200.0f32.to_bits(), 300.0f32.to_bits());
    assert!(generation::can_update(&game, true));
    generation::update(
        &mut game,
        |_: &GlobalParams| Some(place(100.0, 100.0)),
        true,
        false,
        in_world,
        centered,
        under,
        &look(),
    );
    let actors = game.data.world.list();
    assert_eq!(actors.len(), 1);
    assert_eq!(actors[0].sprite.position, place(85.0, 160.0));
    assert_eq!(
        game.data.world.has_insert_sprite().map(|sprite| sprite.position),
        Some(place(185.0, 260.0))
    );
}
