//! The stage in which the scene is made: the mouse places castles, houses
//! and pawns, selects actors, and takes them away.

use crate::client::GameClient;
use crate::data::assets::AtlasData;
use crate::data::base::{BaseSprite, ButtonState, StaticSprite};
use crate::data::world::{
    actors_lit, actors_unlit, is_topmost, none_selected, rest_kept, top_removed, top_selected,
    Actor, ActorKind, InsertSprite, World,
};
use crate::data::{actor_made, GameData, GlobalParams};
use crate::entity::Entity;
use crate::shared::{PositionF32, AABB};
use crate::state::scene::{laid_out, lay_out, new_actor, PawnLook};
use crate::state::{common_inputs, view_dragged, GameInputType, GameState, GameStateValue};
use vstd::prelude::*;

verus! {

/// The width of the ground, in cells.
pub const WIDTH: u32 = 18;

/// The height of the ground, in cells.
pub const HEIGHT: u32 = 16;

/// The scene that the stage starts with: a castle, five houses and two
/// pawns, each with the place where it stands. The places are floating
/// point numbers, carried as their bit patterns.
pub open spec fn scene() -> Seq<(ActorKind, PositionF32)> {
    seq![
        // (253, 332)
        (ActorKind::Castle, PositionF32 { x: 0x437D_0000, y: 0x43A6_0000 }),
        // (606, 492)
        (ActorKind::House, PositionF32 { x: 0x4417_8000, y: 0x43F6_0000 }),
        // (343, 690)
        (ActorKind::House, PositionF32 { x: 0x43AB_8000, y: 0x442C_8000 }),
        // (82, 476)
        (ActorKind::House, PositionF32 { x: 0x42A4_0000, y: 0x43EE_0000 }),
        // (179, 56)
        (ActorKind::House, PositionF32 { x: 0x4333_0000, y: 0x4260_0000 }),
        // (602, 156)
        (ActorKind::House, PositionF32 { x: 0x4416_8000, y: 0x431C_0000 }),
        // (151, 723)
        (ActorKind::Pawn, PositionF32 { x: 0x4317_0000, y: 0x4434_C000 }),
        // (446, 128)
        (ActorKind::Pawn, PositionF32 { x: 0x43DF_0000, y: 0x4300_0000 }),
    ]
}

/// The scene that the stage starts with.
pub fn scene_places() -> (places: [(ActorKind, PositionF32); 8])
    ensures
        places@ == scene(),
{
    let places = [
        (ActorKind::Castle, PositionF32 { x: 0x437D_0000, y: 0x43A6_0000 }),
        (ActorKind::House, PositionF32 { x: 0x4417_8000, y: 0x43F6_0000 }),
        (ActorKind::House, PositionF32 { x: 0x43AB_8000, y: 0x442C_8000 }),
        (ActorKind::House, PositionF32 { x: 0x42A4_0000, y: 0x43EE_0000 }),
        (ActorKind::House, PositionF32 { x: 0x4333_0000, y: 0x4260_0000 }),
        (ActorKind::House, PositionF32 { x: 0x4416_8000, y: 0x431C_0000 }),
        (ActorKind::Pawn, PositionF32 { x: 0x4317_0000, y: 0x4434_C000 }),
        (ActorKind::Pawn, PositionF32 { x: 0x43DF_0000, y: 0x4300_0000 }),
    ];
    assert(places@ =~= scene());
    places
}

/// Starts the stage: the world that was there goes, and the scene is laid
/// out on a new ground.
pub fn init(game: &mut GameClient, pawn: &PawnLook)
    ensures
        laid_out(
            *old(game),
            *final(game),
            WIDTH,
            HEIGHT,
            scene(),
            GameStateValue::Generation,
            *pawn,
        ),
{
    let places = scene_places();
    lay_out(game, WIDTH, HEIGHT, places.as_slice(), GameStateValue::Generation, pawn);
}

/// The sprite that is shown before it is placed, where the mouse places
/// one.
pub open spec fn placed_sprite(input: GameInputType, atlas: AtlasData, pawn: PawnLook) -> Option<
    StaticSprite,
> {
    match input {
        GameInputType::PlaceCastle => Some(atlas.castle),
        GameInputType::PlaceHouse => Some(atlas.house),
        GameInputType::PlacePawn => Some(pawn.preview),
        GameInputType::Delete => None,
        GameInputType::Select => None,
    }
}

/// The kind of actor that the mouse places, where it places one.
pub open spec fn placed_kind(input: GameInputType) -> Option<ActorKind> {
    match input {
        GameInputType::PlaceCastle => Some(ActorKind::Castle),
        GameInputType::PlaceHouse => Some(ActorKind::House),
        GameInputType::PlacePawn => Some(ActorKind::Pawn),
        GameInputType::Delete => None,
        GameInputType::Select => None,
    }
}

/// All of the data but the world is as it was.
pub open spec fn around_kept(before: GameData, after: GameData) -> bool {
    &&& after.globals == before.globals
    &&& after.terrain == before.terrain
    &&& after.assets == before.assets
    &&& after.debug == before.debug
    &&& after.gui == before.gui
}

/// `after` is `before` with `shown` as the sprite that is about to be
/// placed: it stands where `center` puts a sprite of its size under the
/// mouse. Nothing is shown where there is nothing to show or the mouse is
/// over the panel. Nothing else changes.
pub open spec fn sprite_shown<C: Fn(PositionF32, &AABB) -> PositionF32>(
    before: GameClient,
    after: GameClient,
    shown: Option<StaticSprite>,
    outside_gui: bool,
    center: C,
) -> bool {
    &&& match shown {
        Some(sprite) if outside_gui => exists|position: PositionF32|
            {
                &&& center.ensures(
                    (before.data.globals.mouse_position, &sprite.texcoord),
                    position,
                )
                &&& after.data.world.spec_insert_sprite() == Some(
                    InsertSprite { position, sprite: sprite.texcoord },
                )
            },
        _ => after.data.world.spec_insert_sprite() is None,
    }
    &&& after.data.world.actors() == before.data.world.actors()
    &&& after.data.world.selected() == before.data.world.selected()
    &&& after.data.world.ordered() == before.data.world.ordered()
    &&& after.data.world.spec_slots() == before.data.world.spec_slots()
    &&& after.data.world.wf() == before.data.world.wf()
    &&& around_kept(before.data, after.data)
    &&& after.state == before.state
    &&& after.output == before.output
}

/// `after` is `before` with the sprite shown that the mouse is about to
/// place.
pub open spec fn previewed<C: Fn(PositionF32, &AABB) -> PositionF32>(
    before: GameClient,
    after: GameClient,
    outside_gui: bool,
    center: C,
    pawn: PawnLook,
) -> bool {
    sprite_shown(
        before,
        after,
        placed_sprite(before.state.input_type, before.data.assets.atlas, pawn),
        outside_gui,
        center,
    )
}

fn set_insert_sprite_value<C: Fn(PositionF32, &AABB) -> PositionF32>(
    game: &mut GameClient,
    sprite: StaticSprite,
    outside_gui: bool,
    center: &C,
)
    requires
        forall|p: PositionF32, r: &AABB| center.requires((p, r)),
    ensures
        sprite_shown(*old(game), *final(game), Some(sprite), outside_gui, *center),
{
    if outside_gui {
        let position = center(game.data.globals.mouse_position, &sprite.texcoord);
        game.data.world.set_insert_sprite(position, sprite);
    } else {
        game.data.world.clear_insert_sprite();
    }
}

/// Shows the sprite that the mouse is about to place, under the mouse.
/// `outside_gui` says that the mouse is not over the panel; `center` gives
/// the place at which a sprite with a given rectangle stands when it is
/// centred on a point.
pub fn set_insert_sprite<C: Fn(PositionF32, &AABB) -> PositionF32>(
    game: &mut GameClient,
    outside_gui: bool,
    center: &C,
    pawn: &PawnLook,
)
    requires
        forall|p: PositionF32, r: &AABB| center.requires((p, r)),
    ensures
        previewed(*old(game), *final(game), outside_gui, *center, *pawn),
{
    match game.state.input_type {
        GameInputType::PlaceCastle => {
            let sprite = game.data.assets.atlas.castle;
            set_insert_sprite_value(game, sprite, outside_gui, center);
        },
        GameInputType::PlaceHouse => {
            let sprite = game.data.assets.atlas.house;
            set_insert_sprite_value(game, sprite, outside_gui, center);
        },
        GameInputType::PlacePawn => {
            set_insert_sprite_value(game, pawn.preview, outside_gui, center);
        },
        GameInputType::Delete => {
            game.data.world.clear_insert_sprite();
        },
        GameInputType::Select => {
            game.data.world.clear_insert_sprite();
        },
    }
}

/// `after` is `before` with one more actor of the given kind. It stands
/// where `center` puts a sprite with the rectangle `rect` on `position`.
pub open spec fn placed<C: Fn(PositionF32, &AABB) -> PositionF32>(
    before: GameData,
    after: GameData,
    kind: ActorKind,
    rect: AABB,
    position: PositionF32,
    center: C,
    pawn: PawnLook,
) -> bool {
    exists|at: PositionF32, entity: Entity|
        {
            &&& center.ensures((position, &rect), at)
            &&& actor_made(
                before,
                after,
                #[trigger] new_actor(kind, at, entity, before.assets.atlas, pawn),
            )
        }
}

/// What the primary button does at `position`, a place in the world. Where
/// the mouse places, there is one more actor of its kind at the place.
/// Where it takes away, the actor on top among those that `hit` takes has
/// left. Where it selects, that actor is the one that is selected. The
/// stage and all that is not the world stay but for the count of the
/// sprites.
pub open spec fn acted<
    C: Fn(PositionF32, &AABB) -> PositionF32,
    H: Fn(&BaseSprite) -> bool,
>(
    before: GameClient,
    after: GameClient,
    position: PositionF32,
    center: C,
    hit: H,
    pawn: PawnLook,
) -> bool {
    let atlas = before.data.assets.atlas;
    &&& after.state == before.state
    &&& after.output == before.output
    &&& match before.state.input_type {
        GameInputType::PlaceCastle => placed(
            before.data,
            after.data,
            ActorKind::Castle,
            atlas.castle.texcoord,
            position,
            center,
            pawn,
        ),
        GameInputType::PlaceHouse => placed(
            before.data,
            after.data,
            ActorKind::House,
            atlas.house.texcoord,
            position,
            center,
            pawn,
        ),
        GameInputType::PlacePawn => placed(
            before.data,
            after.data,
            ActorKind::Pawn,
            pawn.preview.texcoord,
            position,
            center,
            pawn,
        ),
        GameInputType::Delete => {
            &&& top_removed(before.data.world, after.data.world, hit)
            &&& around_kept(before.data, after.data)
        },
        GameInputType::Select => {
            &&& exists|mid: World| #[trigger]
                none_selected(before.data.world, mid) && top_selected(
                    mid,
                    after.data.world,
                    hit,
                )
            &&& around_kept(before.data, after.data)
        },
    }
}

/// Does what the primary button does at `position`, a place in the world:
/// it places an actor, takes the one under the mouse away, or selects it.
/// `center` gives the place at which a sprite with a given rectangle stands
/// when it is centred on a point; `hit` takes the sprites under the mouse.
pub fn primary_mouse_actions<
    C: Fn(PositionF32, &AABB) -> PositionF32,
    H: Fn(&BaseSprite) -> bool,
>(game: &mut GameClient, position: PositionF32, center: &C, hit: H, pawn: &PawnLook)
    requires
        old(game).data.world.wf(),
        placed_kind(old(game).state.input_type) is Some ==> old(game).data.has_room(),
        forall|p: PositionF32, r: &AABB| center.requires((p, r)),
        forall|sprite: &BaseSprite| hit.requires((sprite,)),
    ensures
        final(game).data.world.wf(),
        acted(*old(game), *final(game), position, *center, hit, *pawn),
{
    match game.state.input_type {
        GameInputType::PlaceCastle => {
            let rect = game.data.assets.atlas.castle.texcoord;
            let at = center(position, &rect);
            let entity = game.data.add_castle(at);
            assert(actor_made(
                old(game).data,
                game.data,
                new_actor(ActorKind::Castle, at, entity, old(game).data.assets.atlas, *pawn),
            ));
        },
        GameInputType::PlaceHouse => {
            let rect = game.data.assets.atlas.house.texcoord;
            let at = center(position, &rect);
            let entity = game.data.add_house(at);
            assert(actor_made(
                old(game).data,
                game.data,
                new_actor(ActorKind::House, at, entity, old(game).data.assets.atlas, *pawn),
            ));
        },
        GameInputType::PlacePawn => {
            let at = center(position, &pawn.preview.texcoord);
            let entity = game.data.add_pawn(at, pawn.texcoord, pawn.animation);
            assert(actor_made(
                old(game).data,
                game.data,
                new_actor(ActorKind::Pawn, at, entity, old(game).data.assets.atlas, *pawn),
            ));
        },
        GameInputType::Delete => {
            game.data.world.delete_sprite_at_position(hit);
        },
        GameInputType::Select => {
            game.data.world.clear_selected_sprites();
            let ghost mid = game.data.world;
            game.data.world.select_sprite_at_position(hit);
            assert(none_selected(old(game).data.world, mid) && top_selected(
                mid,
                game.data.world,
                hit,
            ));
        },
    }
}

/// The colour in which the actor is lit that the mouse is about to take
/// away: red.
pub open spec fn hover_color() -> u32 {
    0xFF
}

/// The actors with the highlight of `from` off and the highlight of `to` on.
pub open spec fn relit(actors: Seq<Actor>, from: Option<Entity>, to: Option<Entity>) -> Seq<
    Actor,
> {
    let dark = match from {
        Some(entity) => actors_unlit(actors, entity),
        None => actors,
    };
    match to {
        Some(entity) => actors_lit(dark, entity, hover_color()),
        None => dark,
    }
}

/// What a move of the mouse does. Where the mouse takes away, the actor on
/// top among those that `hit` takes is lit up and noted as the one under
/// the mouse, and the one that was noted before is lit no more. Where the
/// same actor is under the mouse as before, and elsewhere, nothing
/// changes.
pub open spec fn hovered<H: Fn(&BaseSprite) -> bool>(
    before: GameClient,
    after: GameClient,
    hit: H,
) -> bool {
    &&& after.output == before.output
    &&& around_kept(before.data, after.data)
    &&& if before.state.input_type == GameInputType::Delete {
        exists|place: Option<int>|
            is_topmost(before.data.world.ordered(), place, hit) && {
                let under = match place {
                    Some(i) => Some(before.data.world.ordered()[i].e),
                    None => None,
                };
                &&& after.state == (GameState { hovered_entity: under, ..before.state })
                &&& if under == before.state.hovered_entity {
                    after.data.world == before.data.world
                } else {
                    &&& rest_kept(before.data.world, after.data.world)
                    &&& after.data.world.selected() == before.data.world.selected()
                    &&& after.data.world.actors() == relit(
                        before.data.world.actors(),
                        before.state.hovered_entity,
                        under,
                    )
                }
            }
    } else {
        &&& after.state == before.state
        &&& after.data.world == before.data.world
    }
}

fn same_entity(first: Option<Entity>, second: Option<Entity>) -> (same: bool)
    ensures
        same == (first == second),
{
    match (first, second) {
        (Some(a), Some(b)) => a == b,
        (None, None) => true,
        _ => false,
    }
}

/// Does what a move of the mouse does: where the mouse takes away, it
/// lights up the actor under the mouse. `hit` takes the sprites under the
/// mouse.
pub fn mouse_moved_actions<H: Fn(&BaseSprite) -> bool>(game: &mut GameClient, hit: H)
    requires
        old(game).data.world.wf(),
        forall|sprite: &BaseSprite| hit.requires((sprite,)),
    ensures
        final(game).data.world.wf(),
        hovered(*old(game), *final(game), hit),
{
    match game.state.input_type {
        GameInputType::Delete => {
            let hovered_new = game.data.world.sprite_at_position(hit);
            let hovered_old = game.state.hovered_entity;
            if !same_entity(hovered_new, hovered_old) {
                if let Some(entity) = hovered_old {
                    game.data.world.clear_sprite_highlight(entity);
                }
                if let Some(entity) = hovered_new {
                    game.data.world.set_sprite_highlight(entity, [255, 0, 0]);
                }
                game.state.hovered_entity = hovered_new;
            }
        },
        _ => {},
    }
}

/// What one step of the stage does, in its order: the mouse may drag the
/// view, the sprite that is about to be placed is shown, the primary button
/// acts, and the actor under the mouse is noted.
pub open spec fn turn_taken<
    M: Fn(&GlobalParams) -> Option<PositionF32>,
    P: Fn(&GlobalParams) -> PositionF32,
    C: Fn(PositionF32, &AABB) -> PositionF32,
    F: Fn(PositionF32) -> H,
    H: Fn(&BaseSprite) -> bool,
>(
    before: GameClient,
    after: GameClient,
    scrolled: M,
    outside_gui: bool,
    moved: bool,
    point: P,
    center: C,
    hit_at: F,
    pawn: PawnLook,
) -> bool {
    exists|dragged: GameClient, shown: GameClient, done: GameClient|
        {
            &&& #[trigger] view_dragged(before, dragged, scrolled)
            &&& #[trigger] previewed(dragged, shown, outside_gui, center, pawn)
            &&& #[trigger] pressed(shown, done, outside_gui, point, center, hit_at, pawn)
            &&& noted(done, after, moved, point, hit_at)
        }
}

/// What the primary button does in a step. If it went down outside the
/// panel, it acts at the place in the world that `point` gives for the
/// mouse, and on the sprites that `hit_at` takes there. If not, nothing
/// changes.
pub open spec fn pressed<
    P: Fn(&GlobalParams) -> PositionF32,
    C: Fn(PositionF32, &AABB) -> PositionF32,
    F: Fn(PositionF32) -> H,
    H: Fn(&BaseSprite) -> bool,
>(
    before: GameClient,
    after: GameClient,
    outside_gui: bool,
    point: P,
    center: C,
    hit_at: F,
    pawn: PawnLook,
) -> bool {
    if pressed_outside(before, outside_gui) {
        exists|position: PositionF32, hit: H|
            {
                &&& point.ensures((&before.data.globals,), position)
                &&& hit_at.ensures((position,), hit)
                &&& #[trigger] acted(before, after, position, center, hit, pawn)
            }
    } else {
        after == before
    }
}

/// What a move of the mouse does in a step. If the mouse has moved, the
/// actor under it is noted: the one on top among the sprites that `hit_at`
/// takes at the place in the world that `point` gives for the mouse. If
/// not, nothing changes.
pub open spec fn noted<
    P: Fn(&GlobalParams) -> PositionF32,
    F: Fn(PositionF32) -> H,
    H: Fn(&BaseSprite) -> bool,
>(before: GameClient, after: GameClient, moved: bool, point: P, hit_at: F) -> bool {
    if moved {
        exists|position: PositionF32, hit: H|
            {
                &&& point.ensures((&before.data.globals,), position)
                &&& #[trigger] hit_at.ensures((position,), hit)
                &&& hovered(before, after, hit)
            }
    } else {
        after == before
    }
}

/// The primary button went down in this frame, and not over the panel.
pub open spec fn pressed_outside(game: GameClient, outside_gui: bool) -> bool {
    game.data.globals.mouse_buttons[0] == ButtonState::JustPressed && outside_gui
}

/// A step can be taken: where it is about to place an actor, there is room
/// for one.
pub open spec fn has_room(game: GameClient, outside_gui: bool) -> bool {
    pressed_outside(game, outside_gui) && placed_kind(game.state.input_type) is Some
        ==> game.data.has_room()
}

/// Whether a step can be taken.
pub fn can_update(game: &GameClient, outside_gui: bool) -> (ready: bool)
    ensures
        ready == has_room(*game, outside_gui),
{
    let places = match game.state.input_type {
        GameInputType::PlaceCastle => true,
        GameInputType::PlaceHouse => true,
        GameInputType::PlacePawn => true,
        GameInputType::Delete => false,
        GameInputType::Select => false,
    };
    !(game.data.globals.primary_mouse_just_pressed() && outside_gui && places)
        || game.data.can_add()
}

/// Takes one step of the stage. `outside_gui` says that the mouse is not
/// over the panel, and `moved` that it has moved since the last frame.
/// `scrolled` gives the place of the view after the mouse has dragged it;
/// `point` gives the place of the mouse in the world; `center` gives the
/// place at which a sprite with a given rectangle stands when it is centred
/// on a point; `hit_at` gives the test that takes the sprites under a
/// point.
pub fn update<
    M: Fn(&GlobalParams) -> Option<PositionF32>,
    P: Fn(&GlobalParams) -> PositionF32,
    C: Fn(PositionF32, &AABB) -> PositionF32,
    F: Fn(PositionF32) -> H,
    H: Fn(&BaseSprite) -> bool,
>(
    game: &mut GameClient,
    scrolled: M,
    outside_gui: bool,
    moved: bool,
    point: P,
    center: C,
    hit_at: F,
    pawn: &PawnLook,
)
    requires
        old(game).data.world.wf(),
        has_room(*old(game), outside_gui),
        scrolled.requires((&old(game).data.globals,)),
        forall|globals: &GlobalParams| point.requires((globals,)),
        forall|p: PositionF32, r: &AABB| center.requires((p, r)),
        forall|p: PositionF32| hit_at.requires((p,)),
        forall|p: PositionF32, hit: H, sprite: &BaseSprite|
            hit_at.ensures((p,), hit) ==> hit.requires((sprite,)),
    ensures
        final(game).data.world.wf(),
        turn_taken(
            *old(game),
            *final(game),
            scrolled,
            outside_gui,
            moved,
            point,
            center,
            hit_at,
            *pawn,
        ),
{
    common_inputs(game, scrolled);
    let ghost dragged = *game;
    set_insert_sprite(game, outside_gui, &center, pawn);
    let ghost shown = *game;
    if game.data.globals.primary_mouse_just_pressed() && outside_gui {
        let position = point(&game.data.globals);
        let hit = hit_at(position);
        primary_mouse_actions(game, position, &center, hit, pawn);
        assert(point.ensures((&shown.data.globals,), position) && hit_at.ensures(
            (position,),
            hit,
        ) && acted(shown, *game, position, center, hit, *pawn));
    }
    let ghost done = *game;
    if moved {
        let position = point(&game.data.globals);
        let hit = hit_at(position);
        mouse_moved_actions(game, hit);
        assert(point.ensures((&done.data.globals,), position) && hit_at.ensures(
            (position,),
            hit,
        ) && hovered(done, *game, hit));
    }
    assert(view_dragged(*old(game), dragged, scrolled) && previewed(
        dragged,
        shown,
        outside_gui,
        center,
        *pawn,
    ) && pressed(shown, done, outside_gui, point, center, hit_at, *pawn));
}

} // verus!
