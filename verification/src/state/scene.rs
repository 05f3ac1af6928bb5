//! How a stage lays out its scene: a ground of grass, and actors on it.

use crate::client::GameClient;
use crate::data::assets::AtlasData;
use crate::data::base::{AnimationState, GameFlags, StaticSprite};
use crate::data::gui::Gui;
use crate::data::terrain::TerrainCell;
use crate::data::world::{Actor, ActorKind, OrderedSprite};
use crate::data::{actor_made, plain_sprite, GameData, GlobalParams};
use crate::entity::Entity;
use crate::shared::{PositionF32, AABB};
use crate::state::{GameInputType, GameState, GameStateValue};
use vstd::prelude::*;

verus! {

/// How a pawn looks when it is made. The atlas holds the strip of its
/// frames; what lies where in the strip is floating point arithmetic, and
/// is handed in.
#[derive(Debug, Copy, Clone)]
pub struct PawnLook {
    /// The first frame of the strip: what is shown before a pawn is placed.
    pub preview: StaticSprite,
    /// The rectangle of the atlas that a new pawn shows.
    pub texcoord: AABB,
    /// The animation of a new pawn, at its start.
    pub animation: AnimationState,
}

/// `after` is `before` with no actors and with a new ground of grass,
/// `width` by `height` cells, which is yet to be drawn.
pub open spec fn emptied(before: GameData, after: GameData, width: u32, height: u32) -> bool {
    &&& after.world.wf()
    &&& after.world.actors() == Seq::<Actor>::empty()
    &&& after.world.selected() == Seq::<Entity>::empty()
    &&& after.world.ordered() == Seq::<OrderedSprite>::empty()
    &&& after.world.spec_insert_sprite() is None
    &&& after.world.spec_slots() == 0
    &&& after.terrain.spec_width() == width
    &&& after.terrain.spec_height() == height
    &&& after.terrain.spec_cells() == Seq::new(
        (width * height) as nat,
        |i: int| TerrainCell::Grass,
    )
    &&& after.globals == (GlobalParams {
        flags: GameFlags(before.globals.flags.0 | GameFlags::UPDATE_TERRAIN),
        total_sprites: 0,
        ..before.globals
    })
    &&& after.assets == before.assets
    &&& after.debug == before.debug
    &&& after.gui == before.gui
}

/// Takes all actors away and lays out a ground of grass.
pub fn clear(data: &mut GameData, width: u32, height: u32)
    requires
        width * height <= u32::MAX,
    ensures
        emptied(*old(data), *final(data), width, height),
{
    data.reset();
    data.initialize_terrain(width, height);
    assert(data.globals.flags.0 == old(data).globals.flags.0 | GameFlags::UPDATE_TERRAIN) by {
        let flags = old(data).globals.flags.0;
        let bit = GameFlags::UPDATE_TERRAIN;
        assert((flags | bit) | bit == flags | bit) by (bit_vector);
    }
}

/// The actor that is made of a kind at a place: a castle and a house show
/// what the atlas has for them, a pawn shows what was handed in.
pub open spec fn new_actor(
    kind: ActorKind,
    position: PositionF32,
    entity: Entity,
    atlas: AtlasData,
    pawn: PawnLook,
) -> Actor {
    match kind {
        ActorKind::Castle => Actor {
            entity,
            kind,
            sprite: plain_sprite(position, atlas.castle.texcoord),
            animation: None,
        },
        ActorKind::House => Actor {
            entity,
            kind,
            sprite: plain_sprite(position, atlas.house.texcoord),
            animation: None,
        },
        ActorKind::Pawn => Actor {
            entity,
            kind,
            sprite: plain_sprite(position, pawn.texcoord),
            animation: Some(pawn.animation),
        },
    }
}

/// Makes an actor of the given kind at `position`.
pub fn add_actor(
    data: &mut GameData,
    kind: ActorKind,
    position: PositionF32,
    pawn: &PawnLook,
) -> (entity: Entity)
    requires
        old(data).world.wf(),
        old(data).has_room(),
    ensures
        actor_made(
            *old(data),
            *final(data),
            new_actor(kind, position, entity, old(data).assets.atlas, *pawn),
        ),
{
    match kind {
        ActorKind::Castle => data.add_castle(position),
        ActorKind::House => data.add_house(position),
        ActorKind::Pawn => data.add_pawn(position, pawn.texcoord, pawn.animation),
    }
}

/// The actor that is made of entry `i` of a scene, under the handle that is
/// listed for it.
pub open spec fn scene_actor(
    places: Seq<(ActorKind, PositionF32)>,
    i: int,
    handles: Seq<Entity>,
    atlas: AtlasData,
    pawn: PawnLook,
) -> Actor {
    new_actor(places[i].0, places[i].1, handles[i], atlas, pawn)
}

/// The actors are those of the first `n` entries of a scene, each under the
/// handle that is listed for it. The handles have the indices from zero on,
/// in the order of the entries.
pub open spec fn scene_made(
    actors: Seq<Actor>,
    places: Seq<(ActorKind, PositionF32)>,
    handles: Seq<Entity>,
    n: int,
    atlas: AtlasData,
    pawn: PawnLook,
) -> bool {
    &&& handles.len() == n
    &&& forall|i: int| 0 <= i < n ==> (#[trigger] handles[i]).spec_id() == i
    &&& forall|a: Actor|
        actors.contains(a) <==> exists|i: int|
            0 <= i < n && a == #[trigger] scene_actor(places, i, handles, atlas, pawn)
}

/// `after` is a stage as it starts from `before`: a ground of grass,
/// `width` by `height` cells, with the actors of `places` on it and nothing
/// else. The panel shows the stage, and that the mouse selects.
pub open spec fn laid_out(
    before: GameClient,
    after: GameClient,
    width: u32,
    height: u32,
    places: Seq<(ActorKind, PositionF32)>,
    stage: GameStateValue,
    pawn: PawnLook,
) -> bool {
    &&& after.data.world.wf()
    &&& exists|handles: Seq<Entity>|
        scene_made(
            after.data.world.actors(),
            places,
            handles,
            places.len() as int,
            before.data.assets.atlas,
            pawn,
        )
    &&& after.data.world.selected() == Seq::<Entity>::empty()
    &&& after.data.world.ordered() == Seq::<OrderedSprite>::empty()
    &&& after.data.world.spec_insert_sprite() is None
    &&& after.data.world.spec_slots() == places.len()
    &&& after.data.terrain.spec_width() == width
    &&& after.data.terrain.spec_height() == height
    &&& after.data.terrain.spec_cells() == Seq::new(
        (width * height) as nat,
        |i: int| TerrainCell::Grass,
    )
    &&& after.data.globals == (GlobalParams {
        flags: GameFlags(before.data.globals.flags.0 | GameFlags::UPDATE_TERRAIN),
        total_sprites: places.len() as u32,
        ..before.data.globals
    })
    &&& after.data.assets == before.data.assets
    &&& after.data.debug == before.data.debug
    &&& after.data.gui == (Gui {
        game_state: stage,
        game_input: GameInputType::Select,
        force_repaint: true,
        ..before.data.gui
    })
    &&& after.state == (GameState { value: stage, ..before.state })
    &&& after.output == before.output
}

/// Starts a stage: the world that was there goes, and the actors of
/// `places` are made on a new ground, in their order.
pub fn lay_out(
    game: &mut GameClient,
    width: u32,
    height: u32,
    places: &[(ActorKind, PositionF32)],
    stage: GameStateValue,
    pawn: &PawnLook,
)
    requires
        width * height <= u32::MAX,
        places@.len() <= u32::MAX,
    ensures
        laid_out(*old(game), *final(game), width, height, places@, stage, *pawn),
{
    clear(&mut game.data, width, height);
    let ghost atlas = game.data.assets.atlas;
    let ghost mut handles: Seq<Entity> = Seq::empty();
    let mut i: usize = 0;
    while i < places.len()
        invariant
            i <= places@.len() <= u32::MAX,
            game.data.world.wf(),
            scene_made(game.data.world.actors(), places@, handles, i as int, atlas, *pawn),
            game.data.world.selected() == Seq::<Entity>::empty(),
            game.data.world.ordered() == Seq::<OrderedSprite>::empty(),
            game.data.world.spec_insert_sprite() is None,
            game.data.world.spec_slots() == i,
            game.data.terrain.spec_width() == width,
            game.data.terrain.spec_height() == height,
            game.data.terrain.spec_cells() == Seq::new(
                (width * height) as nat,
                |i: int| TerrainCell::Grass,
            ),
            game.data.globals == (GlobalParams {
                flags: GameFlags(old(game).data.globals.flags.0 | GameFlags::UPDATE_TERRAIN),
                total_sprites: i as u32,
                ..old(game).data.globals
            }),
            game.data.assets == old(game).data.assets,
            atlas == old(game).data.assets.atlas,
            game.data.debug == old(game).data.debug,
            game.data.gui == old(game).data.gui,
            game.state == old(game).state,
            game.output == old(game).output,
        decreases places.len() - i,
    {
        let ghost before = game.data.world.actors();
        let ghost listed = handles;
        let (kind, position) = places[i];
        let entity = add_actor(&mut game.data, kind, position, pawn);
        proof {
            handles = listed.push(entity);
            let actor = new_actor(kind, position, entity, atlas, *pawn);
            let after = game.data.world.actors();
            assert(actor == scene_actor(places@, i as int, handles, atlas, *pawn));
            assert forall|j: int| 0 <= j < i implies #[trigger] scene_actor(
                places@,
                j,
                handles,
                atlas,
                *pawn,
            ) == scene_actor(places@, j, listed, atlas, *pawn) by {}
            game.data.world.lemma_wf();
            assert(after.contains(actor));
            let q = choose|q: int| 0 <= q < after.len() && after[q] == actor;
            assert forall|j: int| 0 <= j < i implies (#[trigger] listed[j]).spec_id()
                != entity.spec_id() by {
                let a = scene_actor(places@, j, listed, atlas, *pawn);
                assert(before.contains(a));
                let k = choose|k: int| 0 <= k < before.len() && before[k] == a;
                assert(before[k].entity == listed[j]);
                assert(after.contains(a));
                let p = choose|p: int| 0 <= p < after.len() && after[p] == a;
                assert(a.entity != entity);
                assert(after[p].entity.spec_id() != after[q].entity.spec_id());
            }
            if entity.spec_id() < i {
                assert(listed[entity.spec_id() as int].spec_id() == entity.spec_id());
            }
            assert(entity.spec_id() == i);
            assert forall|a: Actor| after.contains(a) implies exists|j: int|
                0 <= j < i + 1 && a == #[trigger] scene_actor(
                    places@,
                    j,
                    handles,
                    atlas,
                    *pawn,
                ) by {
                if a != actor {
                    assert(before.contains(a));
                    let j = choose|j: int|
                        0 <= j < i && a == #[trigger] scene_actor(places@, j, listed, atlas, *pawn);
                    assert(a == scene_actor(places@, j, handles, atlas, *pawn));
                }
            }
            assert forall|a: Actor|
                (exists|j: int|
                    0 <= j < i + 1 && a == #[trigger] scene_actor(
                        places@,
                        j,
                        handles,
                        atlas,
                        *pawn,
                    )) implies after.contains(a) by {
                let j = choose|j: int|
                    0 <= j < i + 1 && a == #[trigger] scene_actor(
                        places@,
                        j,
                        handles,
                        atlas,
                        *pawn,
                    );
                if j < i {
                    assert(a == scene_actor(places@, j, listed, atlas, *pawn));
                    assert(before.contains(a));
                }
            }
        }
        i = i + 1;
    }
    game.state.value = stage;
    game.data.gui.set_state(stage, GameInputType::Select);
}

} // verus!
