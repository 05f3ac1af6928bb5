//! The actors of the simulation, kept in an entity store that gives each a
//! handle, and the order in which they are drawn.

use crate::bytes::{lemma_pack_u16, pack_u16, spec_pack_u16};
use crate::data::base::{
    pack_color, spec_pack_color, AnimationState, BaseSprite, BaseSpriteFlags, StaticSprite,
};
use crate::data::order::{is_stable_sort, sort_by_depth};
use crate::entity::Entity;
use crate::error::Error;
use crate::record::Record;
use crate::store::laws::{
    lemma_array_round_trip, lemma_join, lemma_option_round_trip, lemma_skip_front,
};
use crate::store::{
    advanced as reader_advanced, array_parse, array_stored, corrupt, option_parse, option_stored,
    records_size, StoreLoad, StoreReader, StoreWriter, MAX_BYTES,
};
use crate::shared::{PositionF32, AABB};
use crate::store::prefix::{lemma_array_steady, lemma_front_kept, lemma_option_steady};
use vstd::prelude::*;

verus! {

/// Marks an actor as a pawn.
#[derive(Default, Debug, Copy, Clone)]
pub struct IsPawn;

/// Marks an actor as a castle.
#[derive(Default, Debug, Copy, Clone)]
pub struct IsCastle;

/// Marks an actor as a house.
#[derive(Default, Debug, Copy, Clone)]
pub struct IsHouse;

/// What an actor is. Pawns are animated; houses and castles are not.
#[derive(Debug, Copy, Clone, PartialEq, Eq, Structural)]
pub enum ActorKind {
    Pawn,
    House,
    Castle,
}

/// A marker type names a kind of actor.
pub trait Marker {
    /// The kind that the marker stands for.
    spec fn spec_kind() -> ActorKind;

    /// The kind that the marker stands for.
    fn kind() -> (kind: ActorKind)
        ensures
            kind == Self::spec_kind(),
    ;
}

impl Marker for IsPawn {
    open spec fn spec_kind() -> ActorKind {
        ActorKind::Pawn
    }

    fn kind() -> (kind: ActorKind) {
        ActorKind::Pawn
    }
}

impl Marker for IsCastle {
    open spec fn spec_kind() -> ActorKind {
        ActorKind::Castle
    }

    fn kind() -> (kind: ActorKind) {
        ActorKind::Castle
    }
}

impl Marker for IsHouse {
    open spec fn spec_kind() -> ActorKind {
        ActorKind::House
    }

    fn kind() -> (kind: ActorKind) {
        ActorKind::House
    }
}

/// The sprite that is about to be placed: where, and which rectangle of the
/// atlas.
#[derive(Debug, Copy, Clone, PartialEq, Eq, Structural)]
pub struct InsertSprite {
    pub position: PositionF32,
    pub sprite: AABB,
}

impl Record for InsertSprite {
    open spec fn spec_word_count() -> nat {
        6
    }

    open spec fn words(&self) -> Seq<u32> {
        seq![
            self.position.x,
            self.position.y,
            self.sprite.left,
            self.sprite.top,
            self.sprite.right,
            self.sprite.bottom,
        ]
    }

    open spec fn from_words(words: Seq<u32>) -> Option<Self> {
        Some(
            InsertSprite {
                position: PositionF32 { x: words[0], y: words[1] },
                sprite: AABB { left: words[2], top: words[3], right: words[4], bottom: words[5] },
            },
        )
    }

    proof fn lemma_words(&self) {
    }

    proof fn lemma_word_count() {
    }

    fn word_count() -> (n: usize) {
        6
    }

    fn to_words(&self) -> (words: Vec<u32>) {
        vec![
            self.position.x,
            self.position.y,
            self.sprite.left,
            self.sprite.top,
            self.sprite.right,
            self.sprite.bottom,
        ]
    }

    fn try_from_words(words: &[u32]) -> (value: Option<Self>) {
        Some(
            InsertSprite {
                position: PositionF32 { x: words[0], y: words[1] },
                sprite: AABB { left: words[2], top: words[3], right: words[4], bottom: words[5] },
            },
        )
    }
}

/// An actor as the entity store holds it: its handle, its kind, its sprite,
/// and its animation state if it is animated.
#[derive(Debug, Copy, Clone, PartialEq, Eq)]
pub struct Actor {
    pub entity: Entity,
    pub kind: ActorKind,
    pub sprite: BaseSprite,
    pub animation: Option<AnimationState>,
}

/// A sprite in drawing order: its actor, its depth key, and a copy of the
/// sprite.
#[derive(Debug, Copy, Clone, PartialEq, Eq)]
pub struct OrderedSprite {
    pub e: Entity,
    /// The depth key. Sprites are drawn in the order of their keys, the
    /// smallest first.
    pub y: i64,
    pub sprite: BaseSprite,
}

/// The entity store: it keeps the components of each entity, hands out
/// handles, and knows which handles are live.
#[verifier::external_body]
pub struct EntityStore {
    inner: hecs::World,
}

/// The live actors of an entity store, in the order in which the store walks
/// them: the entities that have a kind and a sprite.
pub uninterp spec fn world_actors(world: EntityStore) -> Seq<Actor>;

/// The number of slots that an entity store has made so far. A slot is made
/// for an index that was never used before, and stays.
pub uninterp spec fn world_slots(world: EntityStore) -> nat;

/// The most slots that an entity store can hold.
pub const MAX_SLOTS: u64 = 0x1_0000_0000;

/// What holds of the actors of any entity store: no two share an index, and
/// no handle has the generation zero.
pub open spec fn handles_distinct(actors: Seq<Actor>) -> bool {
    &&& forall|i: int, j: int|
        0 <= i < j < actors.len() ==> actors[i].entity.spec_id() != actors[j].entity.spec_id()
    &&& forall|i: int| 0 <= i < actors.len() ==> actors[i].entity.spec_generation() != 0
}

/// Every actor has an index for which a slot was made.
#[verifier::opaque]
pub open spec fn indices_below(actors: Seq<Actor>, slots: nat) -> bool {
    forall|i: int| 0 <= i < actors.len() ==> (#[trigger] actors[i]).entity.spec_id() < slots
}

/// `after` holds the actors of `before` and `actor`.
pub open spec fn actor_added(before: Seq<Actor>, after: Seq<Actor>, actor: Actor) -> bool {
    forall|a: Actor| after.contains(a) <==> (a == actor || before.contains(a))
}

/// `after` holds `actor`, and those actors of `before` that have another
/// index.
pub open spec fn actor_placed(before: Seq<Actor>, after: Seq<Actor>, actor: Actor) -> bool {
    forall|a: Actor|
        after.contains(a) <==> (a == actor || (before.contains(a) && a.entity.spec_id()
            != actor.entity.spec_id()))
}

/// `after` holds the actors of `before` but the one with the handle
/// `entity`.
pub open spec fn actor_removed(before: Seq<Actor>, after: Seq<Actor>, entity: Entity) -> bool {
    forall|a: Actor| after.contains(a) <==> (before.contains(a) && a.entity != entity)
}

/// Some actor has the handle `entity`.
pub open spec fn has_actor(actors: Seq<Actor>, entity: Entity) -> bool {
    exists|i: int| 0 <= i < actors.len() && (#[trigger] actors[i]).entity == entity
}

/// An empty entity store.
///
/// Trusted: `hecs::World::new` makes a store without entities and without
/// slots.
#[verifier::external_body]
fn new_world() -> (world: EntityStore)
    ensures
        world_actors(world) == Seq::<Actor>::empty(),
        world_slots(world) == 0,
{
    EntityStore { inner: hecs::World::new() }
}

/// The index that a handle, written as one number, holds in its lower half.
pub open spec fn index_of(bits: u64) -> u32 {
    (bits % 0x1_0000_0000) as u32
}

/// What making an entity does to the slots: an index that was free is used
/// again and no slot is made; where none was free, the new slot has the next
/// index.
pub open spec fn slot_taken(before: nat, after: nat, index: u32) -> bool {
    &&& index < after
    &&& after == if index < before {
        before
    } else {
        before + 1
    }
}

/// What making an entity under a given handle does to the slots: slots are
/// made up to the index of the handle where there were fewer.
pub open spec fn slot_claimed(before: nat, after: nat, index: u32) -> bool {
    after == if index < before {
        before
    } else {
        (index + 1) as nat
    }
}

/// Makes an actor that is not animated, and gives the handle that the store
/// chose for it, as one number.
///
/// Trusted: `hecs::World::spawn` takes a free index, one that no live entity
/// has, with the generation of its slot, which is never zero; where no index
/// is free it makes a slot with the next index, which it can while there are
/// fewer than `MAX_SLOTS`. The entity gets the components that are handed in
/// and is live from then on; no other entity changes. `hecs::Entity::to_bits`
/// gives the handle as one number, the generation in the upper half.
#[verifier::external_body]
fn raw_spawn_static(world: &mut EntityStore, kind: ActorKind, sprite: BaseSprite) -> (bits: u64)
    requires
        world_slots(*old(world)) < MAX_SLOTS,
    ensures
        bits >= 0x1_0000_0000,
        forall|i: int|
            0 <= i < world_actors(*old(world)).len() ==> (#[trigger] world_actors(
                *old(world),
            )[i]).entity.spec_id() != index_of(bits),
        actor_added(
            world_actors(*old(world)),
            world_actors(*final(world)),
            Actor { entity: Entity::of_bits(bits), kind, sprite, animation: None },
        ),
        handles_distinct(world_actors(*final(world))),
        slot_taken(world_slots(*old(world)), world_slots(*final(world)), index_of(bits)),
{
    world.inner.spawn((kind, sprite)).to_bits().get()
}

/// Makes an animated actor, and gives the handle that the store chose for
/// it, as one number.
///
/// Trusted: as for `raw_spawn_static`, with a third component.
#[verifier::external_body]
fn raw_spawn_animated(
    world: &mut EntityStore,
    kind: ActorKind,
    sprite: BaseSprite,
    animation: AnimationState,
) -> (bits: u64)
    requires
        world_slots(*old(world)) < MAX_SLOTS,
    ensures
        bits >= 0x1_0000_0000,
        forall|i: int|
            0 <= i < world_actors(*old(world)).len() ==> (#[trigger] world_actors(
                *old(world),
            )[i]).entity.spec_id() != index_of(bits),
        actor_added(
            world_actors(*old(world)),
            world_actors(*final(world)),
            Actor { entity: Entity::of_bits(bits), kind, sprite, animation: Some(animation) },
        ),
        handles_distinct(world_actors(*final(world))),
        slot_taken(world_slots(*old(world)), world_slots(*final(world)), index_of(bits)),
{
    world.inner.spawn((kind, sprite, animation)).to_bits().get()
}

/// Makes an actor that is not animated under the handle that `bits` stands
/// for.
///
/// Trusted: `hecs::Entity::from_bits` gives the handle for a number whose
/// upper half is not zero. `hecs::World::spawn_at` first removes the live
/// entity that has the index of the handle, if there is one, and then makes
/// an entity with the handle and the components that are handed in. It makes
/// slots up to the index of the handle where there are fewer.
#[verifier::external_body]
fn raw_spawn_static_at(world: &mut EntityStore, bits: u64, kind: ActorKind, sprite: BaseSprite)
    requires
        bits >= 0x1_0000_0000,
        index_of(bits) < u32::MAX,
    ensures
        actor_placed(
            world_actors(*old(world)),
            world_actors(*final(world)),
            Actor { entity: Entity::of_bits(bits), kind, sprite, animation: None },
        ),
        handles_distinct(world_actors(*final(world))),
        slot_claimed(world_slots(*old(world)), world_slots(*final(world)), index_of(bits)),
{
    world.inner.spawn_at(hecs::Entity::from_bits(bits).unwrap(), (kind, sprite));
}

/// Makes an animated actor under the handle that `bits` stands for.
///
/// Trusted: as for `raw_spawn_static_at`, with a third component.
#[verifier::external_body]
fn raw_spawn_animated_at(
    world: &mut EntityStore,
    bits: u64,
    kind: ActorKind,
    sprite: BaseSprite,
    animation: AnimationState,
)
    requires
        bits >= 0x1_0000_0000,
        index_of(bits) < u32::MAX,
    ensures
        actor_placed(
            world_actors(*old(world)),
            world_actors(*final(world)),
            Actor { entity: Entity::of_bits(bits), kind, sprite, animation: Some(animation) },
        ),
        handles_distinct(world_actors(*final(world))),
        slot_claimed(world_slots(*old(world)), world_slots(*final(world)), index_of(bits)),
{
    world.inner.spawn_at(hecs::Entity::from_bits(bits).unwrap(), (kind, sprite, animation));
}

/// Removes the entity under the handle that `bits` stands for, and says
/// whether there was one.
///
/// Trusted: `hecs::World::despawn` removes the live entity that has exactly
/// this handle, index and generation, and fails if there is none; no other
/// entity goes, and no slot is made.
#[verifier::external_body]
fn raw_despawn(world: &mut EntityStore, bits: u64) -> (found: bool)
    requires
        bits >= 0x1_0000_0000,
    ensures
        has_actor(world_actors(*old(world)), Entity::of_bits(bits)) ==> found,
        actor_removed(
            world_actors(*old(world)),
            world_actors(*final(world)),
            Entity::of_bits(bits),
        ),
        handles_distinct(world_actors(*final(world))),
        world_slots(*final(world)) == world_slots(*old(world)),
{
    world.inner.despawn(hecs::Entity::from_bits(bits).unwrap()).is_ok()
}

/// The handle that the store gave, as a handle of the library. The number
/// that a store gives has a generation, so there is always one.
fn handle_of(bits: u64) -> (entity: Entity)
    requires
        bits >= 0x1_0000_0000,
    ensures
        entity == Entity::of_bits(bits),
        entity.spec_id() == index_of(bits),
        entity.spec_generation() != 0,
{
    broadcast use Entity::lemma_with_parts;

    match Entity::from_bits(bits) {
        Some(entity) => entity,
        None => vstd::pervasive::unreached(),
    }
}

/// Makes an actor that is not animated, and gives it a handle.
fn spawn_static(world: &mut EntityStore, kind: ActorKind, sprite: BaseSprite) -> (entity: Entity)
    requires
        world_slots(*old(world)) < MAX_SLOTS,
    ensures
        entity.spec_generation() != 0,
        forall|i: int|
            0 <= i < world_actors(*old(world)).len() ==> (#[trigger] world_actors(
                *old(world),
            )[i]).entity.spec_id() != entity.spec_id(),
        actor_added(
            world_actors(*old(world)),
            world_actors(*final(world)),
            Actor { entity, kind, sprite, animation: None },
        ),
        handles_distinct(world_actors(*final(world))),
        slot_taken(world_slots(*old(world)), world_slots(*final(world)), entity.spec_id()),
{
    let bits: u64 = raw_spawn_static(world, kind, sprite);
    handle_of(bits)
}

/// Makes an animated actor, and gives it a handle.
fn spawn_animated(
    world: &mut EntityStore,
    kind: ActorKind,
    sprite: BaseSprite,
    animation: AnimationState,
) -> (entity: Entity)
    requires
        world_slots(*old(world)) < MAX_SLOTS,
    ensures
        entity.spec_generation() != 0,
        forall|i: int|
            0 <= i < world_actors(*old(world)).len() ==> (#[trigger] world_actors(
                *old(world),
            )[i]).entity.spec_id() != entity.spec_id(),
        actor_added(
            world_actors(*old(world)),
            world_actors(*final(world)),
            Actor { entity, kind, sprite, animation: Some(animation) },
        ),
        handles_distinct(world_actors(*final(world))),
        slot_taken(world_slots(*old(world)), world_slots(*final(world)), entity.spec_id()),
{
    let bits: u64 = raw_spawn_animated(world, kind, sprite, animation);
    handle_of(bits)
}

/// Makes an actor that is not animated under a handle that is given.
fn spawn_static_at(world: &mut EntityStore, entity: Entity, kind: ActorKind, sprite: BaseSprite)
    requires
        entity.spec_id() < u32::MAX,
    ensures
        actor_placed(
            world_actors(*old(world)),
            world_actors(*final(world)),
            Actor { entity, kind, sprite, animation: None },
        ),
        handles_distinct(world_actors(*final(world))),
        slot_claimed(world_slots(*old(world)), world_slots(*final(world)), entity.spec_id()),
{
    let bits: u64 = entity.to_bits();
    proof {
        lemma_index_of(entity);
    }
    raw_spawn_static_at(world, bits, kind, sprite);
}

/// Makes an animated actor under a handle that is given.
fn spawn_animated_at(
    world: &mut EntityStore,
    entity: Entity,
    kind: ActorKind,
    sprite: BaseSprite,
    animation: AnimationState,
)
    requires
        entity.spec_id() < u32::MAX,
    ensures
        actor_placed(
            world_actors(*old(world)),
            world_actors(*final(world)),
            Actor { entity, kind, sprite, animation: Some(animation) },
        ),
        handles_distinct(world_actors(*final(world))),
        slot_claimed(world_slots(*old(world)), world_slots(*final(world)), entity.spec_id()),
{
    let bits: u64 = entity.to_bits();
    proof {
        lemma_index_of(entity);
    }
    raw_spawn_animated_at(world, bits, kind, sprite, animation);
}

/// Removes the entity with the given handle, and says whether there was one.
fn despawn(world: &mut EntityStore, entity: Entity) -> (found: bool)
    ensures
        has_actor(world_actors(*old(world)), entity) ==> found,
        actor_removed(world_actors(*old(world)), world_actors(*final(world)), entity),
        handles_distinct(world_actors(*final(world))),
        world_slots(*final(world)) == world_slots(*old(world)),
{
    let bits: u64 = entity.to_bits();
    raw_despawn(world, bits)
}

/// The index of a handle is the lower half of the number that stands for
/// it.
proof fn lemma_index_of(entity: Entity)
    ensures
        index_of(entity.spec_bits()) == entity.spec_id(),
{
    let id = entity.spec_id() as int;
    let generation = entity.spec_generation() as int;
    assert((generation * 0x1_0000_0000 + id) % 0x1_0000_0000 == id) by (nonlinear_arith)
        requires
            0 <= id < 0x1_0000_0000,
            0 <= generation < 0x1_0000_0000,
    ;
}

/// The live actors, in the order in which the store walks them.
///
/// Trusted: a query of `hecs::World` for a kind, a sprite and an animation
/// state that may be missing gives each live entity that has a kind and a
/// sprite once, in an order that the state of the store fixes.
#[verifier::external_body]
fn query_actors(world: &EntityStore) -> (actors: Vec<Actor>)
    ensures
        actors@ == world_actors(*world),
        handles_distinct(actors@),
{
    world.inner.query::<(&ActorKind, &BaseSprite, Option<&AnimationState>)>().iter().map(
        |(handle, (kind, sprite, animation))|
            Actor {
                entity: Entity::from_bits(handle.to_bits().get()).unwrap(),
                kind: *kind,
                sprite: *sprite,
                animation: animation.copied(),
            },
    ).collect()
}

/// The actors of `before` with the sprite of the one under `entity`
/// replaced.
pub open spec fn sprite_replaced(
    before: Seq<Actor>,
    after: Seq<Actor>,
    entity: Entity,
    sprite: BaseSprite,
) -> bool {
    &&& after.len() == before.len()
    &&& forall|i: int|
        0 <= i < before.len() ==> #[trigger] after[i] == if before[i].entity == entity {
            Actor { sprite, ..before[i] }
        } else {
            before[i]
        }
}

/// The actors of `before` with the animation state of the one under
/// `entity` replaced, if it has one.
pub open spec fn animation_replaced(
    before: Seq<Actor>,
    after: Seq<Actor>,
    entity: Entity,
    animation: AnimationState,
) -> bool {
    &&& after.len() == before.len()
    &&& forall|i: int|
        0 <= i < before.len() ==> #[trigger] after[i] == if before[i].entity == entity
            && before[i].animation is Some {
            Actor { animation: Some(animation), ..before[i] }
        } else {
            before[i]
        }
}

/// Replaces the sprite of the entity under the handle that `bits` stands
/// for, and says whether there is one that has a sprite.
///
/// Trusted: `hecs::World::get` with a unique borrow gives the component of
/// the live entity that has exactly this handle, in place, and fails where
/// there is no such entity or it has no such component. Nothing else of the
/// store changes.
#[verifier::external_body]
fn raw_set_sprite(world: &mut EntityStore, bits: u64, sprite: BaseSprite) -> (found: bool)
    requires
        bits >= 0x1_0000_0000,
    ensures
        has_actor(world_actors(*old(world)), Entity::of_bits(bits)) ==> found,
        sprite_replaced(
            world_actors(*old(world)),
            world_actors(*final(world)),
            Entity::of_bits(bits),
            sprite,
        ),
        world_slots(*final(world)) == world_slots(*old(world)),
{
    match world.inner.get::<&mut BaseSprite>(hecs::Entity::from_bits(bits).unwrap()) {
        Ok(mut slot) => {
            *slot = sprite;
            true
        },
        Err(_) => false,
    }
}

/// Replaces the animation state of the entity under the handle that `bits`
/// stands for, and says whether there is one that has an animation state.
///
/// Trusted: as for `raw_set_sprite`.
#[verifier::external_body]
fn raw_set_animation(world: &mut EntityStore, bits: u64, animation: AnimationState) -> (found:
    bool)
    requires
        bits >= 0x1_0000_0000,
    ensures
        animation_replaced(
            world_actors(*old(world)),
            world_actors(*final(world)),
            Entity::of_bits(bits),
            animation,
        ),
        world_slots(*final(world)) == world_slots(*old(world)),
{
    match world.inner.get::<&mut AnimationState>(hecs::Entity::from_bits(bits).unwrap()) {
        Ok(mut slot) => {
            *slot = animation;
            true
        },
        Err(_) => false,
    }
}

/// Replaces the sprite of the entity with the given handle, and says whether
/// there is one that has a sprite.
fn set_sprite(world: &mut EntityStore, entity: Entity, sprite: BaseSprite) -> (found: bool)
    ensures
        has_actor(world_actors(*old(world)), entity) ==> found,
        sprite_replaced(world_actors(*old(world)), world_actors(*final(world)), entity, sprite),
        world_slots(*final(world)) == world_slots(*old(world)),
{
    let bits: u64 = entity.to_bits();
    raw_set_sprite(world, bits, sprite)
}

/// Replaces the animation state of the entity with the given handle, and
/// says whether there is one that has an animation state.
fn set_animation(world: &mut EntityStore, entity: Entity, animation: AnimationState) -> (found:
    bool)
    ensures
        animation_replaced(
            world_actors(*old(world)),
            world_actors(*final(world)),
            entity,
            animation,
        ),
        world_slots(*final(world)) == world_slots(*old(world)),
{
    let bits: u64 = entity.to_bits();
    raw_set_animation(world, bits, animation)
}

/// An actor as a snapshot holds it: its handle as index and generation, its
/// sprite, and its animation state. An actor that is not animated holds a
/// zeroed animation state, so that all actors take the same room.
#[derive(Debug, Copy, Clone, PartialEq, Eq)]
pub struct EncodeActor {
    pub entity: [u32; 2],
    pub sprite: BaseSprite,
    pub animate: AnimationState,
}

impl Record for EncodeActor {
    open spec fn spec_word_count() -> nat {
        15
    }

    open spec fn words(&self) -> Seq<u32> {
        seq![
            self.entity[0],
            self.entity[1],
            self.sprite.position.x,
            self.sprite.position.y,
            self.sprite.texcoord.left,
            self.sprite.texcoord.top,
            self.sprite.texcoord.right,
            self.sprite.texcoord.bottom,
            self.sprite.highlight_color,
            self.sprite.flags.0,
            self.animate.x,
            self.animate.y,
            self.animate.width,
            self.animate.height,
            spec_pack_u16(self.animate.current_frame, self.animate.max_frame),
        ]
    }

    open spec fn from_words(words: Seq<u32>) -> Option<Self> {
        Some(
            EncodeActor {
                entity: [words[0], words[1]],
                sprite: BaseSprite {
                    position: PositionF32 { x: words[2], y: words[3] },
                    texcoord: AABB {
                        left: words[4],
                        top: words[5],
                        right: words[6],
                        bottom: words[7],
                    },
                    highlight_color: words[8],
                    flags: BaseSpriteFlags(words[9]),
                },
                animate: AnimationState {
                    x: words[10],
                    y: words[11],
                    width: words[12],
                    height: words[13],
                    current_frame: (words[14] % 65536) as u16,
                    max_frame: (words[14] / 65536) as u16,
                },
            },
        )
    }

    proof fn lemma_words(&self) {
        lemma_pack_u16(self.animate.current_frame, self.animate.max_frame);
        let back = Self::from_words(self.words()).unwrap();
        assert(back.entity =~= self.entity);
    }

    proof fn lemma_word_count() {
    }

    fn word_count() -> (n: usize) {
        15
    }

    fn to_words(&self) -> (words: Vec<u32>) {
        vec![
            self.entity[0],
            self.entity[1],
            self.sprite.position.x,
            self.sprite.position.y,
            self.sprite.texcoord.left,
            self.sprite.texcoord.top,
            self.sprite.texcoord.right,
            self.sprite.texcoord.bottom,
            self.sprite.highlight_color,
            self.sprite.flags.0,
            self.animate.x,
            self.animate.y,
            self.animate.width,
            self.animate.height,
            pack_u16(self.animate.current_frame, self.animate.max_frame),
        ]
    }

    fn try_from_words(words: &[u32]) -> (value: Option<Self>) {
        Some(
            EncodeActor {
                entity: [words[0], words[1]],
                sprite: BaseSprite {
                    position: PositionF32 { x: words[2], y: words[3] },
                    texcoord: AABB {
                        left: words[4],
                        top: words[5],
                        right: words[6],
                        bottom: words[7],
                    },
                    highlight_color: words[8],
                    flags: BaseSpriteFlags(words[9]),
                },
                animate: AnimationState {
                    x: words[10],
                    y: words[11],
                    width: words[12],
                    height: words[13],
                    current_frame: (words[14] % 65536) as u16,
                    max_frame: (words[14] / 65536) as u16,
                },
            },
        )
    }
}

/// A pawn is animated, and nothing else is.
pub open spec fn kinds_agree(actors: Seq<Actor>) -> bool {
    forall|i: int|
        0 <= i < actors.len() ==> ((#[trigger] actors[i]).kind == ActorKind::Pawn
            <==> actors[i].animation is Some)
}

/// A sprite with its highlight on, in the given colour.
pub open spec fn lit(sprite: BaseSprite, color: u32) -> BaseSprite {
    BaseSprite {
        highlight_color: color,
        flags: BaseSpriteFlags(sprite.flags.0 | BaseSpriteFlags::HIGHLIGHTED),
        ..sprite
    }
}

/// A sprite with its highlight off.
pub open spec fn unlit(sprite: BaseSprite) -> BaseSprite {
    BaseSprite {
        highlight_color: 0,
        flags: BaseSpriteFlags(sprite.flags.0 & !BaseSpriteFlags::HIGHLIGHTED),
        ..sprite
    }
}

/// The actors with the highlight of the one under `entity` on.
pub open spec fn actors_lit(actors: Seq<Actor>, entity: Entity, color: u32) -> Seq<Actor> {
    Seq::new(
        actors.len(),
        |i: int|
            if actors[i].entity == entity {
                Actor { sprite: lit(actors[i].sprite, color), ..actors[i] }
            } else {
                actors[i]
            },
    )
}

/// The actors with the highlight of the one under `entity` off.
pub open spec fn actors_unlit(actors: Seq<Actor>, entity: Entity) -> Seq<Actor> {
    Seq::new(
        actors.len(),
        |i: int|
            if actors[i].entity == entity {
                Actor { sprite: unlit(actors[i].sprite), ..actors[i] }
            } else {
                actors[i]
            },
    )
}

/// The actors with the highlight of each one whose handle is among the first
/// `n` of `selected` off.
pub open spec fn actors_unselected(actors: Seq<Actor>, selected: Seq<Entity>, n: nat) -> Seq<
    Actor,
>
    decreases n,
{
    if n == 0 {
        actors
    } else {
        actors_unlit(actors_unselected(actors, selected, (n - 1) as nat), selected[n - 1])
    }
}

/// The animation state one frame on.
pub open spec fn advanced(animation: AnimationState) -> AnimationState {
    AnimationState {
        current_frame: AnimationState::next_frame(animation.current_frame, animation.max_frame),
        ..animation
    }
}

/// What an ordering pass does to an actor: where the animations step and the
/// actor is animated, its animation goes one frame on and its sprite shows
/// the rectangle that `frame_rect` gives for the new frame. Nothing else
/// changes.
pub open spec fn stepped<R: Fn(&AnimationState) -> AABB>(
    before: Actor,
    after: Actor,
    animate: bool,
    frame_rect: R,
) -> bool {
    if animate && before.animation is Some {
        let animation = advanced(before.animation.unwrap());
        &&& after.entity == before.entity
        &&& after.kind == before.kind
        &&& after.animation == Some(animation)
        &&& after.sprite == BaseSprite { texcoord: after.sprite.texcoord, ..before.sprite }
        &&& frame_rect.ensures((&animation,), after.sprite.texcoord)
    } else {
        after == before
    }
}

/// The sprites of the actors in the order of the store, each with the depth
/// key that `depth` gives it.
pub open spec fn listed_by<D: Fn(&BaseSprite) -> i64>(
    actors: Seq<Actor>,
    listed: Seq<OrderedSprite>,
    depth: D,
) -> bool {
    &&& listed.len() == actors.len()
    &&& forall|i: int|
        0 <= i < actors.len() ==> {
            &&& (#[trigger] listed[i]).e == actors[i].entity
            &&& listed[i].sprite == actors[i].sprite
            &&& depth.ensures((&actors[i].sprite,), listed[i].y)
        }
}

/// The sprite that is drawn last among those that `hit` takes: `place` is
/// its place in the drawing order, or nothing where `hit` takes none.
pub open spec fn is_topmost<H: Fn(&BaseSprite) -> bool>(
    ordered: Seq<OrderedSprite>,
    place: Option<int>,
    hit: H,
) -> bool {
    match place {
        Some(i) => {
            &&& 0 <= i < ordered.len()
            &&& hit.ensures((&ordered[i].sprite,), true)
            &&& forall|j: int| i < j < ordered.len() ==> hit.ensures((&ordered[j].sprite,), false)
        },
        None => forall|j: int| 0 <= j < ordered.len() ==> hit.ensures((&ordered[j].sprite,), false),
    }
}

/// The actors and what goes with them: the sprite that is about to be
/// placed, the selection, and the drawing order of the last frame.
pub struct World {
    inner: EntityStore,
    insert_sprite: Option<InsertSprite>,
    selected_sprites: Vec<Entity>,
    sprites_by_y_component: Vec<OrderedSprite>,
    slots: u64,
}

impl World {
    /// The live actors, in the order in which the store walks them.
    pub closed spec fn actors(&self) -> Seq<Actor> {
        world_actors(self.inner)
    }

    /// The sprite that is about to be placed.
    pub closed spec fn spec_insert_sprite(&self) -> Option<InsertSprite> {
        self.insert_sprite
    }

    /// The handles of the selected actors.
    pub closed spec fn selected(&self) -> Seq<Entity> {
        self.selected_sprites@
    }

    /// The sprites in drawing order, as the last ordering pass left them.
    pub closed spec fn ordered(&self) -> Seq<OrderedSprite> {
        self.sprites_by_y_component@
    }

    /// The slots that the store has made: one for every index that was ever
    /// used.
    pub closed spec fn spec_slots(&self) -> nat {
        self.slots as nat
    }

    /// The store is in order.
    pub closed spec fn wf(&self) -> bool {
        &&& world_slots(self.inner) == self.slots <= MAX_SLOTS
        &&& handles_distinct(world_actors(self.inner))
        &&& kinds_agree(world_actors(self.inner))
        &&& indices_below(world_actors(self.inner), self.slots as nat)
    }

    /// The store can make another slot.
    pub open spec fn has_room(&self) -> bool {
        self.spec_slots() < MAX_SLOTS
    }

    /// What holds of the actors of a world in order: no two share an index,
    /// no handle has the generation zero, the pawns are the animated ones,
    /// and every index is one for which a slot was made.
    pub proof fn lemma_wf(&self)
        requires
            self.wf(),
        ensures
            handles_distinct(self.actors()),
            kinds_agree(self.actors()),
            indices_below(self.actors(), self.spec_slots()),
            self.spec_slots() <= MAX_SLOTS,
    {
    }

    /// A world in order can go into a snapshot if its actors are few enough
    /// for one array and no slot was made for the last index.
    pub proof fn lemma_storable(&self)
        requires
            self.wf(),
            60 * self.actors().len() <= MAX_BYTES,
            self.spec_slots() <= u32::MAX,
        ensures
            self.storable(),
    {
        reveal(indices_below);
    }

    /// A world without actors.
    pub fn new() -> (world: World)
        ensures
            world.wf(),
            world.actors() == Seq::<Actor>::empty(),
            world.spec_insert_sprite() is None,
            world.selected() == Seq::<Entity>::empty(),
            world.ordered() == Seq::<OrderedSprite>::empty(),
            world.spec_slots() == 0,
    {
        proof {
            reveal(indices_below);
        }
        World {
            inner: new_world(),
            insert_sprite: None,
            selected_sprites: Vec::new(),
            sprites_by_y_component: Vec::new(),
            slots: 0,
        }
    }

    /// Whether the store can make another slot.
    pub fn can_spawn(&self) -> (room: bool)
        ensures
            room == self.has_room(),
    {
        self.slots < MAX_SLOTS
    }

    /// The number of live actors.
    pub fn len(&self) -> (n: usize)
        ensures
            n == self.actors().len(),
    {
        query_actors(&self.inner).len()
    }

    /// The live actors, in the order in which the store walks them.
    pub fn list(&self) -> (actors: Vec<Actor>)
        ensures
            actors@ == self.actors(),
            handles_distinct(actors@),
    {
        query_actors(&self.inner)
    }

    /// The actor with the given handle, if it is live.
    pub fn find(&self, entity: Entity) -> (actor: Option<Actor>)
        ensures
            match actor {
                Some(a) => self.actors().contains(a) && a.entity == entity,
                None => !has_actor(self.actors(), entity),
            },
    {
        let actors = query_actors(&self.inner);
        let mut i: usize = 0;
        while i < actors.len()
            invariant
                i <= actors.len(),
                actors@ == self.actors(),
                forall|j: int| 0 <= j < i ==> (#[trigger] actors@[j]).entity != entity,
            decreases actors.len() - i,
        {
            if actors[i].entity == entity {
                return Some(actors[i]);
            }
            i = i + 1;
        }
        None
    }

    /// Whether the actor with the given handle is live.
    pub fn contains(&self, entity: Entity) -> (live: bool)
        ensures
            live == has_actor(self.actors(), entity),
    {
        self.find(entity).is_some()
    }

    /// Shows a half transparent sprite at `position`.
    pub fn set_insert_sprite(&mut self, position: PositionF32, sprite: StaticSprite)
        ensures
            final(self).spec_insert_sprite() == Some(
                InsertSprite { position, sprite: sprite.texcoord },
            ),
            final(self).actors() == old(self).actors(),
            final(self).selected() == old(self).selected(),
            final(self).ordered() == old(self).ordered(),
            final(self).spec_slots() == old(self).spec_slots(),
            final(self).wf() == old(self).wf(),
    {
        self.insert_sprite = Some(InsertSprite { position, sprite: sprite.texcoord });
    }

    /// The sprite that is about to be placed, if there is one.
    pub fn has_insert_sprite(&self) -> (sprite: Option<InsertSprite>)
        ensures
            sprite == self.spec_insert_sprite(),
    {
        self.insert_sprite
    }

    /// Shows no sprite that is about to be placed.
    pub fn clear_insert_sprite(&mut self)
        ensures
            final(self).spec_insert_sprite() is None,
            final(self).actors() == old(self).actors(),
            final(self).selected() == old(self).selected(),
            final(self).ordered() == old(self).ordered(),
            final(self).spec_slots() == old(self).spec_slots(),
            final(self).wf() == old(self).wf(),
    {
        self.insert_sprite = None;
    }

    fn add(
        &mut self,
        kind: ActorKind,
        sprite: BaseSprite,
        animation: Option<AnimationState>,
    ) -> (entity: Entity)
        requires
            old(self).wf(),
            old(self).has_room(),
            kind == ActorKind::Pawn <==> animation is Some,
        ensures
            final(self).wf(),
            !has_actor(old(self).actors(), entity),
            actor_added(
                old(self).actors(),
                final(self).actors(),
                Actor { entity, kind, sprite, animation },
            ),
            final(self).spec_insert_sprite() == old(self).spec_insert_sprite(),
            final(self).selected() == old(self).selected(),
            final(self).ordered() == old(self).ordered(),
            slot_taken(old(self).spec_slots(), final(self).spec_slots(), entity.spec_id()),
    {
        let ghost before = world_actors(self.inner);
        let entity = match animation {
            Some(state) => spawn_animated(&mut self.inner, kind, sprite, state),
            None => spawn_static(&mut self.inner, kind, sprite),
        };
        if entity.id() as u64 >= self.slots {
            self.slots = self.slots + 1;
        }
        proof {
            let after = world_actors(self.inner);
            let actor = Actor { entity, kind, sprite, animation };
            assert forall|i: int| 0 <= i < after.len() implies ((#[trigger] after[i]).kind
                == ActorKind::Pawn <==> after[i].animation is Some) by {
                assert(after.contains(after[i]));
                if after[i] != actor {
                    let j = choose|j: int| 0 <= j < before.len() && before[j] == after[i];
                    assert(before[j].kind == ActorKind::Pawn <==> before[j].animation is Some);
                }
            }
            if has_actor(before, entity) {
                let j = choose|j: int| 0 <= j < before.len() && (#[trigger] before[j]).entity
                    == entity;
                assert(before[j].entity.spec_id() != entity.spec_id());
            }
            reveal(indices_below);
            assert forall|i: int| 0 <= i < after.len() implies (#[trigger] after[i]).entity
                .spec_id() < self.slots by {
                assert(after.contains(after[i]));
                if after[i] != actor {
                    let j = choose|j: int| 0 <= j < before.len() && before[j] == after[i];
                    assert(before[j].entity.spec_id() < old(self).slots);
                }
            }
        }
        entity
    }

    /// Makes a pawn at `position` that shows the rectangle `texcoord` of the
    /// atlas, the frame at which `animate` stands.
    pub fn add_pawn(
        &mut self,
        position: PositionF32,
        texcoord: AABB,
        animate: AnimationState,
    ) -> (entity: Entity)
        requires
            old(self).wf(),
            old(self).has_room(),
        ensures
            final(self).wf(),
            !has_actor(old(self).actors(), entity),
            actor_added(
                old(self).actors(),
                final(self).actors(),
                Actor {
                    entity,
                    kind: ActorKind::Pawn,
                    sprite: BaseSprite {
                        position,
                        texcoord,
                        highlight_color: 0,
                        flags: BaseSpriteFlags(0),
                    },
                    animation: Some(animate),
                },
            ),
            final(self).spec_insert_sprite() == old(self).spec_insert_sprite(),
            final(self).selected() == old(self).selected(),
            final(self).ordered() == old(self).ordered(),
            slot_taken(old(self).spec_slots(), final(self).spec_slots(), entity.spec_id()),
    {
        let sprites = BaseSprite {
            position,
            texcoord,
            highlight_color: 0,
            flags: BaseSpriteFlags::empty(),
        };
        self.add(ActorKind::Pawn, sprites, Some(animate))
    }

    /// Makes a house at `position`.
    pub fn add_house(&mut self, position: PositionF32, sprite: StaticSprite) -> (entity: Entity)
        requires
            old(self).wf(),
            old(self).has_room(),
        ensures
            final(self).wf(),
            !has_actor(old(self).actors(), entity),
            actor_added(
                old(self).actors(),
                final(self).actors(),
                Actor {
                    entity,
                    kind: ActorKind::House,
                    sprite: BaseSprite {
                        position,
                        texcoord: sprite.texcoord,
                        highlight_color: 0,
                        flags: BaseSpriteFlags(0),
                    },
                    animation: None,
                },
            ),
            final(self).spec_insert_sprite() == old(self).spec_insert_sprite(),
            final(self).selected() == old(self).selected(),
            final(self).ordered() == old(self).ordered(),
            slot_taken(old(self).spec_slots(), final(self).spec_slots(), entity.spec_id()),
    {
        let sprites = BaseSprite {
            position,
            texcoord: sprite.texcoord,
            highlight_color: 0,
            flags: BaseSpriteFlags::empty(),
        };
        self.add(ActorKind::House, sprites, None)
    }

    /// Makes a castle at `position`.
    pub fn add_castle(&mut self, position: PositionF32, sprite: StaticSprite) -> (entity: Entity)
        requires
            old(self).wf(),
            old(self).has_room(),
        ensures
            final(self).wf(),
            !has_actor(old(self).actors(), entity),
            actor_added(
                old(self).actors(),
                final(self).actors(),
                Actor {
                    entity,
                    kind: ActorKind::Castle,
                    sprite: BaseSprite {
                        position,
                        texcoord: sprite.texcoord,
                        highlight_color: 0,
                        flags: BaseSpriteFlags(0),
                    },
                    animation: None,
                },
            ),
            final(self).spec_insert_sprite() == old(self).spec_insert_sprite(),
            final(self).selected() == old(self).selected(),
            final(self).ordered() == old(self).ordered(),
            slot_taken(old(self).spec_slots(), final(self).spec_slots(), entity.spec_id()),
    {
        let sprites = BaseSprite {
            position,
            texcoord: sprite.texcoord,
            highlight_color: 0,
            flags: BaseSpriteFlags::empty(),
        };
        self.add(ActorKind::Castle, sprites, None)
    }

    /// The place in the drawing order of the sprite that is drawn last among
    /// those that `hit` takes.
    fn topmost<H: Fn(&BaseSprite) -> bool>(&self, hit: &H) -> (place: Option<usize>)
        requires
            forall|sprite: &BaseSprite| hit.requires((sprite,)),
        ensures
            is_topmost(
                self.ordered(),
                match place {
                    Some(i) => Some(i as int),
                    None => None,
                },
                *hit,
            ),
    {
        let mut i: usize = self.sprites_by_y_component.len();
        while i > 0
            invariant
                i <= self.sprites_by_y_component.len(),
                forall|sprite: &BaseSprite| hit.requires((sprite,)),
                forall|j: int|
                    i <= j < self.sprites_by_y_component@.len() ==> hit.ensures(
                        (&self.sprites_by_y_component@[j].sprite,),
                        false,
                    ),
            decreases i,
        {
            i = i - 1;
            if hit(&self.sprites_by_y_component[i].sprite) {
                return Some(i);
            }
        }
        None
    }

    /// The actor whose sprite is drawn last among those that `hit` takes:
    /// the one on top, where `hit` takes the sprites under a point.
    pub fn sprite_at_position<H: Fn(&BaseSprite) -> bool>(&self, hit: H) -> (entity: Option<Entity>)
        requires
            forall|sprite: &BaseSprite| hit.requires((sprite,)),
        ensures
            exists|place: Option<int>|
                is_topmost(self.ordered(), place, hit) && entity == match place {
                    Some(i) => Some(self.ordered()[i].e),
                    None => None,
                },
    {
        match self.topmost(&hit) {
            Some(i) => {
                assert(is_topmost(self.ordered(), Some(i as int), hit));
                Some(self.sprites_by_y_component[i].e)
            },
            None => {
                assert(is_topmost(self.ordered(), None, hit));
                None
            },
        }
    }

    /// Takes the actor with the given handle out of the world and out of the
    /// selection.
    pub fn delete_sprite(&mut self, entity: Entity)
        requires
            old(self).wf(),
        ensures
            final(self).wf(),
            actor_removed(old(self).actors(), final(self).actors(), entity),
            final(self).selected() == old(self).selected().filter(|e: Entity| e != entity),
            final(self).spec_insert_sprite() == old(self).spec_insert_sprite(),
            final(self).ordered() == old(self).ordered(),
            final(self).spec_slots() == old(self).spec_slots(),
    {
        let mut kept: Vec<Entity> = Vec::new();
        let mut i: usize = 0;
        assert(self.selected_sprites@.subrange(0, 0) =~= Seq::<Entity>::empty());
        while i < self.selected_sprites.len()
            invariant
                i <= self.selected_sprites.len(),
                self.selected_sprites@ == old(self).selected_sprites@,
                kept@ == self.selected_sprites@.subrange(0, i as int).filter(
                    |e: Entity| e != entity,
                ),
            decreases self.selected_sprites.len() - i,
        {
            let selected: Entity = self.selected_sprites[i];
            proof {
                let front = self.selected_sprites@.subrange(0, i as int);
                let next = self.selected_sprites@.subrange(0, i + 1);
                assert(next =~= front.push(selected));
                assert(next.drop_last() =~= front);
                reveal(Seq::filter);
            }
            if selected != entity {
                kept.push(selected);
            }
            i = i + 1;
        }
        assert(self.selected_sprites@.subrange(0, i as int) =~= self.selected_sprites@);
        self.selected_sprites = kept;
        let ghost before = world_actors(self.inner);
        despawn(&mut self.inner, entity);
        proof {
            let after = world_actors(self.inner);
            assert forall|j: int| 0 <= j < after.len() implies ((#[trigger] after[j]).kind
                == ActorKind::Pawn <==> after[j].animation is Some) by {
                assert(after.contains(after[j]));
                let k = choose|k: int| 0 <= k < before.len() && before[k] == after[j];
                assert(before[k].kind == ActorKind::Pawn <==> before[k].animation is Some);
            }
            reveal(indices_below);
            assert forall|j: int| 0 <= j < after.len() implies (#[trigger] after[j]).entity
                .spec_id() < self.slots by {
                assert(after.contains(after[j]));
                let k = choose|k: int| 0 <= k < before.len() && before[k] == after[j];
                assert(before[k].entity.spec_id() < self.slots);
            }
        }
    }

    /// Takes out of the world the actor whose sprite is on top among those
    /// that `hit` takes, if there is one.
    pub fn delete_sprite_at_position<H: Fn(&BaseSprite) -> bool>(&mut self, hit: H)
        requires
            old(self).wf(),
            forall|sprite: &BaseSprite| hit.requires((sprite,)),
        ensures
            top_removed(*old(self), *final(self), hit),
    {
        match self.topmost(&hit) {
            Some(i) => {
                let entity: Entity = self.sprites_by_y_component[i].e;
                self.delete_sprite(entity);
                assert(is_topmost(old(self).ordered(), Some(i as int), hit));
            },
            None => {
                assert(is_topmost(old(self).ordered(), None, hit));
            },
        }
    }

    fn replace_sprite(&mut self, entity: Entity, sprite: BaseSprite)
        requires
            old(self).wf(),
        ensures
            final(self).wf(),
            sprite_replaced(old(self).actors(), final(self).actors(), entity, sprite),
            final(self).selected() == old(self).selected(),
            final(self).spec_insert_sprite() == old(self).spec_insert_sprite(),
            final(self).ordered() == old(self).ordered(),
            final(self).spec_slots() == old(self).spec_slots(),
    {
        set_sprite(&mut self.inner, entity, sprite);
        proof {
            reveal(indices_below);
        }
    }

    /// Puts the highlight of the actor with the given handle out.
    pub fn clear_sprite_highlight(&mut self, entity: Entity)
        requires
            old(self).wf(),
        ensures
            final(self).wf(),
            final(self).actors() == actors_unlit(old(self).actors(), entity),
            final(self).selected() == old(self).selected(),
            final(self).spec_insert_sprite() == old(self).spec_insert_sprite(),
            final(self).ordered() == old(self).ordered(),
            final(self).spec_slots() == old(self).spec_slots(),
    {
        match self.find(entity) {
            Some(actor) => {
                let mut sprite = actor.sprite;
                sprite.flags.clear_highlighted();
                sprite.highlight_color = 0;
                self.replace_sprite(entity, sprite);
                proof {
                    lemma_one_actor(old(self).actors(), actor);
                }
                assert(self.actors() =~= actors_unlit(old(self).actors(), entity));
            },
            None => {
                assert(self.actors() =~= actors_unlit(old(self).actors(), entity));
            },
        }
    }

    /// Lights the actor with the given handle up in the given colour.
    pub fn set_sprite_highlight(&mut self, entity: Entity, color: [u8; 3])
        requires
            old(self).wf(),
        ensures
            final(self).wf(),
            final(self).actors() == actors_lit(
                old(self).actors(),
                entity,
                spec_pack_color(color),
            ),
            final(self).selected() == old(self).selected(),
            final(self).spec_insert_sprite() == old(self).spec_insert_sprite(),
            final(self).ordered() == old(self).ordered(),
            final(self).spec_slots() == old(self).spec_slots(),
    {
        match self.find(entity) {
            Some(actor) => {
                let mut sprite = actor.sprite;
                sprite.flags.set_highlighted();
                sprite.highlight_color = pack_color(color);
                self.replace_sprite(entity, sprite);
                proof {
                    lemma_one_actor(old(self).actors(), actor);
                }
                assert(self.actors() =~= actors_lit(
                    old(self).actors(),
                    entity,
                    spec_pack_color(color),
                ));
            },
            None => {
                assert(self.actors() =~= actors_lit(
                    old(self).actors(),
                    entity,
                    spec_pack_color(color),
                ));
            },
        }
    }

    /// Puts the highlight of every selected actor out, and selects none.
    pub fn clear_selected_sprites(&mut self)
        requires
            old(self).wf(),
        ensures
            none_selected(*old(self), *final(self)),
    {
        let mut i: usize = 0;
        while i < self.selected_sprites.len()
            invariant
                i <= self.selected_sprites.len(),
                self.wf(),
                self.selected_sprites@ == old(self).selected_sprites@,
                self.actors() == actors_unselected(
                    old(self).actors(),
                    old(self).selected(),
                    i as nat,
                ),
                self.spec_insert_sprite() == old(self).spec_insert_sprite(),
                self.ordered() == old(self).ordered(),
                self.spec_slots() == old(self).spec_slots(),
            decreases self.selected_sprites.len() - i,
        {
            let entity: Entity = self.selected_sprites[i];
            self.clear_sprite_highlight(entity);
            i = i + 1;
        }
        self.selected_sprites.clear();
    }

    /// Lights the actor with the given handle up in white and selects it, if
    /// it is live.
    pub fn select_sprite(&mut self, entity: Entity)
        requires
            old(self).wf(),
        ensures
            final(self).wf(),
            final(self).actors() == actors_lit(old(self).actors(), entity, 0xFF_FFFF),
            final(self).selected() == if has_actor(old(self).actors(), entity) {
                old(self).selected().push(entity)
            } else {
                old(self).selected()
            },
            final(self).spec_insert_sprite() == old(self).spec_insert_sprite(),
            final(self).ordered() == old(self).ordered(),
            final(self).spec_slots() == old(self).spec_slots(),
    {
        if self.contains(entity) {
            self.set_sprite_highlight(entity, [255, 255, 255]);
            self.selected_sprites.push(entity);
        } else {
            assert(self.actors() =~= actors_lit(old(self).actors(), entity, 0xFF_FFFF));
        }
    }

    /// Selects the actor whose sprite is on top among those that `hit`
    /// takes, if there is one.
    pub fn select_sprite_at_position<H: Fn(&BaseSprite) -> bool>(&mut self, hit: H)
        requires
            old(self).wf(),
            forall|sprite: &BaseSprite| hit.requires((sprite,)),
        ensures
            top_selected(*old(self), *final(self), hit),
    {
        match self.topmost(&hit) {
            Some(i) => {
                let entity: Entity = self.sprites_by_y_component[i].e;
                self.select_sprite(entity);
                assert(is_topmost(old(self).ordered(), Some(i as int), hit));
            },
            None => {
                assert(is_topmost(old(self).ordered(), None, hit));
            },
        }
    }

    /// Lists the sprites of all actors and sorts them by depth: the sprite
    /// with the smallest depth key is drawn first, and of two sprites with
    /// one key the one that the store lists first. Where `animate` is set,
    /// each animated actor goes one frame on before it is listed.
    pub fn order_sprites<R: Fn(&AnimationState) -> AABB, D: Fn(&BaseSprite) -> i64>(
        &mut self,
        animate: bool,
        frame_rect: R,
        depth: D,
    ) -> (count: usize)
        requires
            old(self).wf(),
            forall|animation: &AnimationState| frame_rect.requires((animation,)),
            forall|sprite: &BaseSprite| depth.requires((sprite,)),
        ensures
            final(self).wf(),
            count == final(self).ordered().len(),
            count == old(self).actors().len(),
            final(self).actors().len() == old(self).actors().len(),
            forall|i: int|
                0 <= i < old(self).actors().len() ==> stepped(
                    old(self).actors()[i],
                    #[trigger] final(self).actors()[i],
                    animate,
                    frame_rect,
                ),
            exists|listed: Seq<OrderedSprite>|
                listed_by(final(self).actors(), listed, depth) && is_stable_sort(
                    listed,
                    final(self).ordered(),
                ),
            final(self).selected() == old(self).selected(),
            final(self).spec_insert_sprite() == old(self).spec_insert_sprite(),
            final(self).spec_slots() == old(self).spec_slots(),
    {
        let actors = query_actors(&self.inner);
        let mut listed: Vec<OrderedSprite> = Vec::new();
        let mut i: usize = 0;
        while i < actors.len()
            invariant
                i <= actors.len(),
                actors@ == old(self).actors(),
                handles_distinct(actors@),
                kinds_agree(actors@),
                self.slots == old(self).slots,
                world_slots(self.inner) == world_slots(old(self).inner),
                self.selected() == old(self).selected(),
                self.spec_insert_sprite() == old(self).spec_insert_sprite(),
                forall|animation: &AnimationState| frame_rect.requires((animation,)),
                forall|sprite: &BaseSprite| depth.requires((sprite,)),
                world_actors(self.inner).len() == actors@.len(),
                forall|j: int|
                    0 <= j < i ==> stepped(
                        actors@[j],
                        #[trigger] world_actors(self.inner)[j],
                        animate,
                        frame_rect,
                    ),
                forall|j: int|
                    i <= j < actors@.len() ==> #[trigger] world_actors(self.inner)[j] == actors@[j],
                forall|j: int|
                    0 <= j < actors@.len() ==> (#[trigger] world_actors(self.inner)[j]).entity
                        == actors@[j].entity,
                listed@.len() == i,
                forall|j: int|
                    0 <= j < i ==> {
                        &&& (#[trigger] listed@[j]).e == actors@[j].entity
                        &&& listed@[j].sprite == world_actors(self.inner)[j].sprite
                        &&& depth.ensures((&world_actors(self.inner)[j].sprite,), listed@[j].y)
                    },
            decreases actors.len() - i,
        {
            let actor: Actor = actors[i];
            let mut sprite: BaseSprite = actor.sprite;
            let ghost before = world_actors(self.inner);
            if animate {
                match actor.animation {
                    Some(state) => {
                        let mut animation: AnimationState = state;
                        animation.advance();
                        sprite.texcoord = frame_rect(&animation);
                        set_animation(&mut self.inner, actor.entity, animation);
                        let ghost middle = world_actors(self.inner);
                        set_sprite(&mut self.inner, actor.entity, sprite);
                        proof {
                            let after = world_actors(self.inner);
                            assert(animation == advanced(state));
                            assert forall|j: int| 0 <= j < actors@.len() && j != i implies after[j]
                                == before[j] by {
                                assert(middle[j] == before[j]);
                                assert(after[j] == middle[j]);
                            }
                            assert(middle[i as int] == Actor {
                                animation: Some(animation),
                                ..before[i as int]
                            });
                            assert(after[i as int] == Actor { sprite, ..middle[i as int] });
                        }
                    },
                    None => {},
                }
            }
            let y: i64 = depth(&sprite);
            listed.push(OrderedSprite { e: actor.entity, y, sprite });
            i = i + 1;
        }
        let ghost unsorted = listed@;
        sort_by_depth(&mut listed);
        let count: usize = listed.len();
        self.sprites_by_y_component = listed;
        proof {
            let after = world_actors(self.inner);
            assert(listed_by(after, unsorted, depth));
            assert(is_stable_sort(unsorted, self.ordered()));
            assert(listed_by(self.actors(), unsorted, depth) && is_stable_sort(
                unsorted,
                self.ordered(),
            ));
            assert(handles_distinct(after));
            assert forall|j: int| 0 <= j < after.len() implies ((#[trigger] after[j]).kind
                == ActorKind::Pawn <==> after[j].animation is Some) by {
                assert(stepped(actors@[j], after[j], animate, frame_rect));
                assert(actors@[j].kind == ActorKind::Pawn <==> actors@[j].animation is Some);
            }
            assert(indices_below(after, self.slots as nat)) by {
                reveal(indices_below);
                assert forall|j: int| 0 <= j < after.len() implies (#[trigger] after[j]).entity
                    .spec_id() < self.slots by {
                    assert(after[j].entity == actors@[j].entity);
                }
            }
        }
        count
    }

    /// The sprites in drawing order.
    pub fn ordered_sprites(&self) -> (sprites: Vec<BaseSprite>)
        ensures
            sprites@.len() == self.ordered().len(),
            forall|i: int|
                0 <= i < sprites@.len() ==> #[trigger] sprites@[i] == self.ordered()[i].sprite,
    {
        let mut sprites: Vec<BaseSprite> = Vec::new();
        let mut i: usize = 0;
        while i < self.sprites_by_y_component.len()
            invariant
                i <= self.sprites_by_y_component.len(),
                sprites@.len() == i,
                forall|j: int|
                    0 <= j < i ==> #[trigger] sprites@[j] == self.sprites_by_y_component@[j].sprite,
            decreases self.sprites_by_y_component.len() - i,
        {
            sprites.push(self.sprites_by_y_component[i].sprite);
            i = i + 1;
        }
        sprites
    }
}

/// An actor of a store is the only one with its handle.
pub proof fn lemma_one_actor(actors: Seq<Actor>, actor: Actor)
    requires
        handles_distinct(actors),
        actors.contains(actor),
    ensures
        forall|i: int|
            0 <= i < actors.len() && (#[trigger] actors[i]).entity == actor.entity ==> actors[i]
                == actor,
{
    let k = choose|k: int| 0 <= k < actors.len() && actors[k] == actor;
    assert forall|i: int|
        0 <= i < actors.len() && (#[trigger] actors[i]).entity == actor.entity implies actors[i]
        == actor by {
        if i != k {
            if i < k {
                assert(actors[i].entity.spec_id() != actors[k].entity.spec_id());
            } else {
                assert(actors[k].entity.spec_id() != actors[i].entity.spec_id());
            }
        }
    }
}

/// What stays where only the actors and the selection change: the world is
/// in order, and the sprite that is about to be placed, the drawing order of
/// the last frame and the slots are as they were.
pub open spec fn rest_kept(before: World, after: World) -> bool {
    &&& after.wf()
    &&& after.spec_insert_sprite() == before.spec_insert_sprite()
    &&& after.ordered() == before.ordered()
    &&& after.spec_slots() == before.spec_slots()
}

/// `after` is `before` without the actor whose sprite is on top among those
/// that `hit` takes: it has left the world and the selection. Where `hit`
/// takes no sprite, nothing has changed.
pub open spec fn top_removed<H: Fn(&BaseSprite) -> bool>(
    before: World,
    after: World,
    hit: H,
) -> bool {
    &&& rest_kept(before, after)
    &&& exists|place: Option<int>|
        is_topmost(before.ordered(), place, hit) && match place {
            Some(i) => {
                let entity = before.ordered()[i].e;
                &&& actor_removed(before.actors(), after.actors(), entity)
                &&& after.selected() == before.selected().filter(|e: Entity| e != entity)
            },
            None => {
                &&& after.actors() == before.actors()
                &&& after.selected() == before.selected()
            },
        }
}

/// `after` is `before` with the actor selected whose sprite is on top among
/// those that `hit` takes: it is lit up in white, and it is the last of the
/// selection if it is live. Where `hit` takes no sprite, nothing has
/// changed.
pub open spec fn top_selected<H: Fn(&BaseSprite) -> bool>(
    before: World,
    after: World,
    hit: H,
) -> bool {
    &&& rest_kept(before, after)
    &&& exists|place: Option<int>|
        is_topmost(before.ordered(), place, hit) && match place {
            Some(i) => {
                let entity = before.ordered()[i].e;
                &&& after.actors() == actors_lit(before.actors(), entity, 0xFF_FFFF)
                &&& after.selected() == if has_actor(before.actors(), entity) {
                    before.selected().push(entity)
                } else {
                    before.selected()
                }
            },
            None => {
                &&& after.actors() == before.actors()
                &&& after.selected() == before.selected()
            },
        }
}

/// `after` is `before` with no actor selected: the highlight of every actor
/// that was selected is out.
pub open spec fn none_selected(before: World, after: World) -> bool {
    &&& rest_kept(before, after)
    &&& after.actors() == actors_unselected(
        before.actors(),
        before.selected(),
        before.selected().len(),
    )
    &&& after.selected() == Seq::<Entity>::empty()
}

impl Default for World {
    fn default() -> (world: World)
        ensures
            world.wf(),
            world.actors() == Seq::<Actor>::empty(),
            world.spec_insert_sprite() is None,
            world.selected() == Seq::<Entity>::empty(),
            world.ordered() == Seq::<OrderedSprite>::empty(),
            world.spec_slots() == 0,
    {
        World::new()
    }
}

/// The animation state that stands in a snapshot for an actor that has none.
pub open spec fn no_animation() -> AnimationState {
    AnimationState { x: 0, y: 0, width: 0, height: 0, current_frame: 0, max_frame: 0 }
}

/// An actor as a snapshot holds it. Its animation state is kept where the
/// array that it goes into is one of animated actors.
pub open spec fn encoded(actor: Actor, animated: bool) -> EncodeActor {
    EncodeActor {
        entity: [actor.entity.spec_id(), actor.entity.spec_generation()],
        sprite: actor.sprite,
        animate: if animated && actor.animation is Some {
            actor.animation.unwrap()
        } else {
            no_animation()
        },
    }
}

/// The actor goes into the array of the given kind.
pub open spec fn goes_into(actor: Actor, kind: ActorKind, animated: bool) -> bool {
    actor.kind == kind && (animated ==> actor.animation is Some)
}

/// The records of those among the first `n` actors that go into the array of
/// the given kind, in the order of the actors.
pub open spec fn kind_records(actors: Seq<Actor>, kind: ActorKind, animated: bool, n: nat) -> Seq<
    EncodeActor,
>
    decreases n,
{
    if n == 0 {
        Seq::empty()
    } else {
        let rest = kind_records(actors, kind, animated, (n - 1) as nat);
        if goes_into(actors[n - 1], kind, animated) {
            rest.push(encoded(actors[n - 1], animated))
        } else {
            rest
        }
    }
}

/// The actor that a record of an array of the given kind stands for.
pub open spec fn decoded(record: EncodeActor, kind: ActorKind, animated: bool) -> Actor {
    Actor {
        entity: Entity::with_parts(record.entity[0], record.entity[1]),
        kind,
        sprite: record.sprite,
        animation: if animated {
            Some(record.animate)
        } else {
            None
        },
    }
}

/// The record holds a handle under which an actor can be made: its
/// generation is not zero, and its index is not the last one.
pub open spec fn record_loadable(record: EncodeActor) -> bool {
    record.entity[1] != 0 && record.entity[0] < u32::MAX
}

/// Every record holds a handle under which an actor can be made.
pub open spec fn records_loadable(records: Seq<EncodeActor>) -> bool {
    forall|i: int| 0 <= i < records.len() ==> record_loadable(#[trigger] records[i])
}

/// The live actors as a set.
pub open spec fn actor_set(actors: Seq<Actor>) -> Set<Actor> {
    Set::new(|a: Actor| actors.contains(a))
}

/// The actors after one is made under its handle: it takes the place of any
/// actor with its index.
pub open spec fn placed(actors: Set<Actor>, actor: Actor) -> Set<Actor> {
    Set::new(
        |a: Actor|
            a == actor || (actors.contains(a) && a.entity.spec_id() != actor.entity.spec_id()),
    )
}

/// The actors after those of the first `n` records are made, one after the
/// other.
pub open spec fn place_all(
    actors: Set<Actor>,
    records: Seq<EncodeActor>,
    kind: ActorKind,
    animated: bool,
    n: nat,
) -> Set<Actor>
    decreases n,
{
    if n == 0 {
        actors
    } else {
        placed(
            place_all(actors, records, kind, animated, (n - 1) as nat),
            decoded(records[n - 1], kind, animated),
        )
    }
}

/// There are no more records than actors.
pub proof fn lemma_kind_records_len(actors: Seq<Actor>, kind: ActorKind, animated: bool, n: nat)
    ensures
        kind_records(actors, kind, animated, n).len() <= n,
    decreases n,
{
    if n > 0 {
        lemma_kind_records_len(actors, kind, animated, (n - 1) as nat);
    }
}

/// Only the first `n` records count for `place_all(.., n)`.
pub proof fn lemma_place_all_prefix(
    actors: Set<Actor>,
    a: Seq<EncodeActor>,
    b: Seq<EncodeActor>,
    kind: ActorKind,
    animated: bool,
    n: nat,
)
    requires
        n <= a.len(),
        n <= b.len(),
        forall|i: int| 0 <= i < n ==> a[i] == b[i],
    ensures
        place_all(actors, a, kind, animated, n) == place_all(actors, b, kind, animated, n),
    decreases n,
{
    if n > 0 {
        lemma_place_all_prefix(actors, a, b, kind, animated, (n - 1) as nat);
    }
}

/// The actors that are in `start` or, among the first `n` of `actors`, go
/// into the array of the given kind.
pub open spec fn gathered(
    start: Set<Actor>,
    actors: Seq<Actor>,
    kind: ActorKind,
    animated: bool,
    n: nat,
) -> Set<Actor> {
    Set::new(
        |a: Actor|
            start.contains(a) || exists|i: int|
                0 <= i < n && #[trigger] actors[i] == a && goes_into(a, kind, animated),
    )
}

/// An actor of a store in order comes back from its record.
pub proof fn lemma_decoded(actors: Seq<Actor>, i: int, kind: ActorKind, animated: bool)
    requires
        0 <= i < actors.len(),
        kinds_agree(actors),
        animated == (kind == ActorKind::Pawn),
        goes_into(actors[i], kind, animated),
    ensures
        decoded(encoded(actors[i], animated), kind, animated) == actors[i],
{
    broadcast use Entity::lemma_parts;

    let actor = actors[i];
    assert(actor.kind == ActorKind::Pawn <==> actor.animation is Some);
}

/// Making the actors of one array again brings back just the actors that
/// went into it: with the actors of a store in order, where every actor
/// that is there at the start is one of the store and of another kind, the
/// records of a kind give back the actors of that kind, and nothing that
/// was there is lost.
pub proof fn lemma_place_records(
    start: Set<Actor>,
    actors: Seq<Actor>,
    kind: ActorKind,
    animated: bool,
    n: nat,
)
    requires
        n <= actors.len(),
        handles_distinct(actors),
        kinds_agree(actors),
        animated == (kind == ActorKind::Pawn),
        forall|a: Actor|
            start.contains(a) ==> a.kind != kind && exists|j: int|
                0 <= j < actors.len() && #[trigger] actors[j] == a,
    ensures
        place_all(
            start,
            kind_records(actors, kind, animated, n),
            kind,
            animated,
            kind_records(actors, kind, animated, n).len(),
        ) == gathered(start, actors, kind, animated, n),
    decreases n,
{
    let records = kind_records(actors, kind, animated, n);
    if n == 0 {
        assert(gathered(start, actors, kind, animated, 0) =~= start);
    } else {
        let before = kind_records(actors, kind, animated, (n - 1) as nat);
        lemma_place_records(start, actors, kind, animated, (n - 1) as nat);
        let made = gathered(start, actors, kind, animated, (n - 1) as nat);
        let last = actors[n - 1];
        if goes_into(last, kind, animated) {
            lemma_place_all_prefix(start, before, records, kind, animated, before.len());
            lemma_decoded(actors, n - 1, kind, animated);
            assert forall|a: Actor| made.contains(a) implies a.entity.spec_id()
                != last.entity.spec_id() by {
                if start.contains(a) {
                    let j = choose|j: int| 0 <= j < actors.len() && #[trigger] actors[j] == a;
                    assert(j != n - 1);
                    if j < n - 1 {
                        assert(actors[j].entity.spec_id() != actors[n - 1].entity.spec_id());
                    } else {
                        assert(actors[n - 1].entity.spec_id() != actors[j].entity.spec_id());
                    }
                } else {
                    let i = choose|i: int|
                        0 <= i < n - 1 && #[trigger] actors[i] == a && goes_into(
                            a,
                            kind,
                            animated,
                        );
                    assert(actors[i].entity.spec_id() != actors[n - 1].entity.spec_id());
                }
            }
            assert(placed(made, last) =~= gathered(start, actors, kind, animated, n));
        } else {
            assert(made =~= gathered(start, actors, kind, animated, n));
        }
    }
}

/// The records of the actors of a store in order can all be made again,
/// where no actor has the last index.
pub proof fn lemma_kind_records_loadable(
    actors: Seq<Actor>,
    kind: ActorKind,
    animated: bool,
    n: nat,
)
    requires
        n <= actors.len(),
        handles_distinct(actors),
        forall|i: int| 0 <= i < actors.len() ==> (#[trigger] actors[i]).entity.spec_id() < u32::MAX,
    ensures
        records_loadable(kind_records(actors, kind, animated, n)),
    decreases n,
{
    if n > 0 {
        lemma_kind_records_loadable(actors, kind, animated, (n - 1) as nat);
        assert(actors[n - 1].entity.spec_id() < u32::MAX);
    }
}

/// The records of the actors that go into the array of the given kind.
pub fn collect_records(actors: &Vec<Actor>, kind: ActorKind, animated: bool) -> (records: Vec<
    EncodeActor,
>)
    ensures
        records@ == kind_records(actors@, kind, animated, actors@.len()),
{
    let mut records: Vec<EncodeActor> = Vec::new();
    let mut i: usize = 0;
    while i < actors.len()
        invariant
            i <= actors.len(),
            records@ == kind_records(actors@, kind, animated, i as nat),
        decreases actors.len() - i,
    {
        let actor: Actor = actors[i];
        if actor.kind == kind {
            match actor.animation {
                Some(animate) => {
                    let kept: AnimationState = if animated {
                        animate
                    } else {
                        AnimationState {
                            x: 0,
                            y: 0,
                            width: 0,
                            height: 0,
                            current_frame: 0,
                            max_frame: 0,
                        }
                    };
                    let record = EncodeActor {
                        entity: [actor.entity.id(), actor.entity.generation()],
                        sprite: actor.sprite,
                        animate: kept,
                    };
                    assert(record.entity =~= encoded(actor, animated).entity);
                    records.push(record);
                },
                None => {
                    if !animated {
                        let record = EncodeActor {
                            entity: [actor.entity.id(), actor.entity.generation()],
                            sprite: actor.sprite,
                            animate: AnimationState {
                                x: 0,
                                y: 0,
                                width: 0,
                                height: 0,
                                current_frame: 0,
                                max_frame: 0,
                            },
                        };
                        assert(record.entity =~= encoded(actor, animated).entity);
                        records.push(record);
                    }
                },
            }
        }
        i = i + 1;
    }
    records
}

/// Writes the animated actors of the kind that `T` marks, as one array.
pub fn store_actors_animated<T: Marker>(writer: &mut StoreWriter, actors: &Vec<Actor>)
    requires
        old(writer).wf(),
        60 * actors@.len() <= MAX_BYTES,
    ensures
        final(writer).wf(),
        final(writer)@ == old(writer)@ + array_stored(
            kind_records(actors@, T::spec_kind(), true, actors@.len()),
        ),
{
    let records = collect_records(actors, T::kind(), true);
    proof {
        lemma_kind_records_len(actors@, T::spec_kind(), true, actors@.len());
        assert(records_size::<EncodeActor>(records@.len()) == 60 * records@.len());
    }
    writer.write_array(records.as_slice());
}

/// Writes the actors of the kind that `T` marks, as one array. Where an
/// animation state would stand there are zeros.
pub fn store_actors<T: Marker>(writer: &mut StoreWriter, actors: &Vec<Actor>)
    requires
        old(writer).wf(),
        60 * actors@.len() <= MAX_BYTES,
    ensures
        final(writer).wf(),
        final(writer)@ == old(writer)@ + array_stored(
            kind_records(actors@, T::spec_kind(), false, actors@.len()),
        ),
{
    let records = collect_records(actors, T::kind(), false);
    proof {
        lemma_kind_records_len(actors@, T::spec_kind(), false, actors@.len());
        assert(records_size::<EncodeActor>(records@.len()) == 60 * records@.len());
    }
    writer.write_array(records.as_slice());
}

impl World {
    /// The live actors as a set.
    pub open spec fn actor_set(&self) -> Set<Actor> {
        actor_set(self.actors())
    }

    /// Makes the actors of the records again, each under its own handle.
    fn place_records(
        &mut self,
        records: &Vec<EncodeActor>,
        kind: ActorKind,
        animated: bool,
    ) -> (done: bool)
        requires
            old(self).wf(),
            animated == (kind == ActorKind::Pawn),
        ensures
            done == records_loadable(records@),
            done ==> final(self).wf() && final(self).actor_set() == place_all(
                old(self).actor_set(),
                records@,
                kind,
                animated,
                records@.len(),
            ),
            final(self).spec_insert_sprite() == old(self).spec_insert_sprite(),
            final(self).selected() == old(self).selected(),
            final(self).ordered() == old(self).ordered(),
    {
        broadcast use Entity::lemma_with_parts;

        let mut i: usize = 0;
        while i < records.len()
            invariant
                i <= records.len(),
                self.wf(),
                animated == (kind == ActorKind::Pawn),
                records_loadable(records@.subrange(0, i as int)),
                self.actor_set() == place_all(
                    old(self).actor_set(),
                    records@,
                    kind,
                    animated,
                    i as nat,
                ),
                self.spec_insert_sprite() == old(self).spec_insert_sprite(),
                self.selected() == old(self).selected(),
                self.ordered() == old(self).ordered(),
            decreases records.len() - i,
        {
            let record: EncodeActor = records[i];
            let id: u32 = record.entity[0];
            let generation: u32 = record.entity[1];
            if id == u32::MAX {
                assert(!record_loadable(records@[i as int]));
                return false;
            }
            let entity: Entity = match Entity::from_parts(id, generation) {
                Some(entity) => entity,
                None => {
                    assert(!record_loadable(records@[i as int]));
                    return false;
                },
            };
            let ghost before = world_actors(self.inner);
            let ghost slots_before = self.slots;
            if animated {
                spawn_animated_at(&mut self.inner, entity, kind, record.sprite, record.animate);
            } else {
                spawn_static_at(&mut self.inner, entity, kind, record.sprite);
            }
            if self.slots < id as u64 + 1 {
                self.slots = id as u64 + 1;
            }
            proof {
                let after = world_actors(self.inner);
                let actor = decoded(record, kind, animated);
                assert(actor_placed(before, after, actor));
                assert(actor_set(after) =~= placed(actor_set(before), actor));
                assert forall|j: int| 0 <= j < after.len() implies ((#[trigger] after[j]).kind
                    == ActorKind::Pawn <==> after[j].animation is Some) by {
                    assert(after.contains(after[j]));
                    if after[j] != actor {
                        let k = choose|k: int| 0 <= k < before.len() && before[k] == after[j];
                        assert(before[k].kind == ActorKind::Pawn <==> before[k].animation is Some);
                    }
                }
                reveal(indices_below);
                assert forall|j: int| 0 <= j < after.len() implies (#[trigger] after[j]).entity
                    .spec_id() < self.slots by {
                    assert(after.contains(after[j]));
                    if after[j] != actor {
                        let k = choose|k: int| 0 <= k < before.len() && before[k] == after[j];
                        assert(before[k].entity.spec_id() < slots_before);
                    }
                }
                assert forall|j: int| 0 <= j < i + 1 implies record_loadable(
                    #[trigger] records@.subrange(0, i + 1)[j],
                ) by {
                    if j < i {
                        assert(records@.subrange(0, i as int)[j] == records@[j]);
                    }
                }
            }
            i = i + 1;
        }
        assert(records@.subrange(0, i as int) =~= records@);
        true
    }

    /// Whether the world can go into a snapshot: the actors are not too
    /// many for one array, and none has the last index.
    pub fn can_store(&self) -> (fits: bool)
        requires
            self.wf(),
        ensures
            fits == self.storable(),
    {
        let actors = query_actors(&self.inner);
        if actors.len() > MAX_BYTES / 60 {
            return false;
        }
        let mut i: usize = 0;
        while i < actors.len()
            invariant
                i <= actors.len(),
                self.wf(),
                actors@ == self.actors(),
                60 * actors@.len() <= MAX_BYTES,
                forall|j: int| 0 <= j < i ==> (#[trigger] actors@[j]).entity.spec_id() < u32::MAX,
            decreases actors.len() - i,
        {
            if actors[i].entity.id() == u32::MAX {
                assert(self.actors()[i as int].entity.spec_id() == u32::MAX);
                return false;
            }
            i = i + 1;
        }
        true
    }
}

/// Reads one array of actors that are not animated, of the kind that `T`
/// marks, and makes them again, each under its own handle.
pub fn spawn_actors<T: Marker>(reader: &mut StoreReader, world: &mut World) -> (result: Result<
    (),
    Error,
>)
    requires
        old(reader).wf(),
        old(world).wf(),
        T::spec_kind() != ActorKind::Pawn,
    ensures
        final(reader).wf(),
        final(reader).source() == old(reader).source(),
        reader_advanced(
            old(reader).remaining(),
            final(reader).remaining(),
            array_parse::<EncodeActor>(old(reader).remaining()),
        ),
        match array_parse::<EncodeActor>(old(reader).remaining()) {
            Some((records, _)) => if records_loadable(records) {
                &&& result is Ok
                &&& final(world).wf()
                &&& final(world).actor_set() == place_all(
                    old(world).actor_set(),
                    records,
                    T::spec_kind(),
                    false,
                    records.len(),
                )
            } else {
                corrupt(result)
            },
            None => corrupt(result),
        },
        final(world).spec_insert_sprite() == old(world).spec_insert_sprite(),
        final(world).selected() == old(world).selected(),
        final(world).ordered() == old(world).ordered(),
{
    let records = match reader.read_array::<EncodeActor>() {
        Ok(records) => records,
        Err(e) => {
            return Err(e);
        },
    };
    if world.place_records(&records, T::kind(), false) {
        Ok(())
    } else {
        Err(Error::corrupt_data("Corrupted entity data"))
    }
}

/// Reads one array of animated actors, of the kind that `T` marks, and
/// makes them again, each under its own handle.
pub fn spawn_actors_animated<T: Marker>(reader: &mut StoreReader, world: &mut World) -> (result:
    Result<(), Error>)
    requires
        old(reader).wf(),
        old(world).wf(),
        T::spec_kind() == ActorKind::Pawn,
    ensures
        final(reader).wf(),
        final(reader).source() == old(reader).source(),
        reader_advanced(
            old(reader).remaining(),
            final(reader).remaining(),
            array_parse::<EncodeActor>(old(reader).remaining()),
        ),
        match array_parse::<EncodeActor>(old(reader).remaining()) {
            Some((records, _)) => if records_loadable(records) {
                &&& result is Ok
                &&& final(world).wf()
                &&& final(world).actor_set() == place_all(
                    old(world).actor_set(),
                    records,
                    T::spec_kind(),
                    true,
                    records.len(),
                )
            } else {
                corrupt(result)
            },
            None => corrupt(result),
        },
        final(world).spec_insert_sprite() == old(world).spec_insert_sprite(),
        final(world).selected() == old(world).selected(),
        final(world).ordered() == old(world).ordered(),
{
    let records = match reader.read_array::<EncodeActor>() {
        Ok(records) => records,
        Err(e) => {
            return Err(e);
        },
    };
    if world.place_records(&records, T::kind(), true) {
        Ok(())
    } else {
        Err(Error::corrupt_data("Corrupted entity data"))
    }
}

/// The actors that the three arrays of a snapshot give when they are made
/// again in turn: pawns, houses, castles.
pub open spec fn placed_kinds(
    pawns: Seq<EncodeActor>,
    houses: Seq<EncodeActor>,
    castles: Seq<EncodeActor>,
) -> Set<Actor> {
    place_all(
        place_all(
            place_all(Set::empty(), pawns, ActorKind::Pawn, true, pawns.len()),
            houses,
            ActorKind::House,
            false,
            houses.len(),
        ),
        castles,
        ActorKind::Castle,
        false,
        castles.len(),
    )
}

/// The actors of a store in order come back, all of them and no others,
/// when the arrays of their records are made again in turn.
pub proof fn lemma_placed_kinds(actors: Seq<Actor>)
    requires
        handles_distinct(actors),
        kinds_agree(actors),
    ensures
        placed_kinds(
            kind_records(actors, ActorKind::Pawn, true, actors.len()),
            kind_records(actors, ActorKind::House, false, actors.len()),
            kind_records(actors, ActorKind::Castle, false, actors.len()),
        ) == actor_set(actors),
{
    let n = actors.len();
    let none = Set::<Actor>::empty();
    lemma_place_records(none, actors, ActorKind::Pawn, true, n);
    let pawns = gathered(none, actors, ActorKind::Pawn, true, n);
    lemma_place_records(pawns, actors, ActorKind::House, false, n);
    let houses = gathered(pawns, actors, ActorKind::House, false, n);
    lemma_place_records(houses, actors, ActorKind::Castle, false, n);
    let all = gathered(houses, actors, ActorKind::Castle, false, n);
    assert forall|a: Actor| actors.contains(a) implies all.contains(a) by {
        let i = choose|i: int| 0 <= i < actors.len() && actors[i] == a;
        assert(actors[i].kind == ActorKind::Pawn <==> actors[i].animation is Some);
        match a.kind {
            ActorKind::Pawn => {
                assert(goes_into(actors[i], ActorKind::Pawn, true));
                assert(pawns.contains(a));
            },
            ActorKind::House => {
                assert(goes_into(actors[i], ActorKind::House, false));
                assert(houses.contains(a));
            },
            ActorKind::Castle => {
                assert(goes_into(actors[i], ActorKind::Castle, false));
            },
        }
    }
    assert(all =~= actor_set(actors));
}

/// What a reader finds where the three arrays of actors are due: the actors
/// that they give when they are made again in turn, and the size of the
/// arrays.
pub open spec fn actors_parse(bytes: Seq<u8>) -> Option<(Set<Actor>, nat)> {
    match array_parse::<EncodeActor>(bytes) {
        Some((pawns, a)) => match array_parse::<EncodeActor>(bytes.skip(a as int)) {
            Some((houses, b)) => match array_parse::<EncodeActor>(bytes.skip((a + b) as int)) {
                Some((castles, c)) => if records_loadable(pawns) && records_loadable(houses)
                    && records_loadable(castles) {
                    Some((placed_kinds(pawns, houses, castles), a + b + c))
                } else {
                    None
                },
                None => None,
            },
            None => None,
        },
        None => None,
    }
}

/// The actors that were read stay as they are when more bytes follow.
pub proof fn lemma_actors_steady(bytes: Seq<u8>, rest: Seq<u8>)
    requires
        actors_parse(bytes) is Some,
    ensures
        actors_parse(bytes).unwrap().1 <= bytes.len(),
        actors_parse(bytes + rest) == actors_parse(bytes),
{
    let n = bytes.len() as int;
    lemma_array_steady::<EncodeActor>(bytes, rest);
    let a = array_parse::<EncodeActor>(bytes).unwrap().1;
    lemma_front_kept(bytes, rest, a as int, n);
    lemma_array_steady::<EncodeActor>(bytes.skip(a as int), rest);
    let b = array_parse::<EncodeActor>(bytes.skip(a as int)).unwrap().1;
    lemma_front_kept(bytes, rest, (a + b) as int, n);
    lemma_array_steady::<EncodeActor>(bytes.skip((a + b) as int), rest);
}

/// Three arrays of actors are read back from their stored form.
pub proof fn lemma_three_arrays(
    pawns: Seq<EncodeActor>,
    houses: Seq<EncodeActor>,
    castles: Seq<EncodeActor>,
    rest: Seq<u8>,
)
    requires
        60 * pawns.len() <= MAX_BYTES,
        60 * houses.len() <= MAX_BYTES,
        60 * castles.len() <= MAX_BYTES,
        records_loadable(pawns),
        records_loadable(houses),
        records_loadable(castles),
    ensures
        actors_parse(array_stored(pawns) + array_stored(houses) + array_stored(castles) + rest)
            == Some(
            (
                placed_kinds(pawns, houses, castles),
                (array_stored(pawns) + array_stored(houses) + array_stored(castles)).len(),
            ),
        ),
        (array_stored(pawns) + array_stored(houses) + array_stored(castles) + rest).skip(
            (array_stored(pawns) + array_stored(houses) + array_stored(castles)).len() as int,
        ) == rest,
{
    let a = array_stored(pawns);
    let b = array_stored(houses);
    let c = array_stored(castles);
    assert(records_size::<EncodeActor>(pawns.len()) == 60 * pawns.len());
    assert(records_size::<EncodeActor>(houses.len()) == 60 * houses.len());
    assert(records_size::<EncodeActor>(castles.len()) == 60 * castles.len());
    let tail_c = c + rest;
    let tail_b = b + tail_c;
    let all = a + b + c + rest;
    lemma_join(a + b, c, rest);
    lemma_join(a, b, tail_c);
    assert(all == a + tail_b);
    lemma_array_round_trip(pawns, tail_b);
    lemma_array_round_trip(houses, tail_c);
    lemma_array_round_trip(castles, rest);
    lemma_skip_front(a, tail_b);
    lemma_skip_front(a + b, tail_c);
    lemma_skip_front(a + b + c, rest);
    lemma_skip_front(a, b);
    lemma_skip_front(a + b, c);
    assert(all.skip(a.len() as int) == tail_b);
    assert(all.skip((a.len() + b.len()) as int) == tail_c);
}

/// The arrays of actors and the sprite that is about to be placed are read
/// back from their stored form.
pub proof fn lemma_world_layout(
    pawns: Seq<EncodeActor>,
    houses: Seq<EncodeActor>,
    castles: Seq<EncodeActor>,
    insert: Option<InsertSprite>,
    rest: Seq<u8>,
)
    requires
        60 * pawns.len() <= MAX_BYTES,
        60 * houses.len() <= MAX_BYTES,
        60 * castles.len() <= MAX_BYTES,
        records_loadable(pawns),
        records_loadable(houses),
        records_loadable(castles),
    ensures
        World::parse(
            array_stored(pawns) + array_stored(houses) + array_stored(castles) + option_stored(
                insert,
            ) + rest,
        ) == Some(
            (
                (placed_kinds(pawns, houses, castles), insert),
                (array_stored(pawns) + array_stored(houses) + array_stored(castles)
                    + option_stored(insert)).len(),
            ),
        ),
{
    let arrays = array_stored(pawns) + array_stored(houses) + array_stored(castles);
    let tail = option_stored(insert) + rest;
    lemma_join(arrays, option_stored(insert), rest);
    lemma_three_arrays(pawns, houses, castles, tail);
    lemma_option_round_trip(insert, rest);
    lemma_skip_front(arrays, option_stored(insert));
}

/// Reads the three arrays of actors and makes the actors again.
#[verifier::rlimit(60)]
fn load_actors(reader: &mut StoreReader, world: &mut World) -> (result: Result<(), Error>)
    requires
        old(reader).wf(),
        old(world).wf(),
        old(world).actor_set() == Set::<Actor>::empty(),
    ensures
        final(reader).wf(),
        final(reader).source() == old(reader).source(),
        reader_advanced(
            old(reader).remaining(),
            final(reader).remaining(),
            actors_parse(old(reader).remaining()),
        ),
        match actors_parse(old(reader).remaining()) {
            Some((actors, _)) => result is Ok && final(world).wf() && final(world).actor_set()
                == actors,
            None => corrupt(result),
        },
        final(world).spec_insert_sprite() == old(world).spec_insert_sprite(),
        final(world).selected() == old(world).selected(),
        final(world).ordered() == old(world).ordered(),
{
    let ghost rest = reader.remaining();
    match spawn_actors_animated::<IsPawn>(reader, world) {
        Ok(()) => {},
        Err(e) => {
            return Err(e);
        },
    }
    let ghost first = array_parse::<EncodeActor>(rest).unwrap();
    let ghost a = first.1;
    let ghost after_pawns = reader.remaining();
    assert(after_pawns == rest.skip(a as int));
    match spawn_actors::<IsHouse>(reader, world) {
        Ok(()) => {},
        Err(e) => {
            return Err(e);
        },
    }
    let ghost second = array_parse::<EncodeActor>(after_pawns).unwrap();
    let ghost b = second.1;
    let ghost after_houses = reader.remaining();
    assert(after_houses =~= rest.skip((a + b) as int));
    match spawn_actors::<IsCastle>(reader, world) {
        Ok(()) => {},
        Err(e) => {
            return Err(e);
        },
    }
    let ghost third = array_parse::<EncodeActor>(after_houses).unwrap();
    let ghost c = third.1;
    assert(reader.remaining() =~= rest.skip((a + b + c) as int));
    Ok(())
}

impl StoreLoad for World {
    type Kept = (Set<Actor>, Option<InsertSprite>);

    open spec fn kept(&self) -> Self::Kept {
        (self.actor_set(), self.spec_insert_sprite())
    }

    /// No actor is selected, and no drawing order is made yet.
    open spec fn loaded(&self) -> bool {
        &&& self.selected() == Seq::<Entity>::empty()
        &&& self.ordered() == Seq::<OrderedSprite>::empty()
    }

    open spec fn valid(&self) -> bool {
        self.wf()
    }

    open spec fn storable(&self) -> bool {
        &&& self.wf()
        &&& 60 * self.actors().len() <= MAX_BYTES
        &&& forall|i: int|
            0 <= i < self.actors().len() ==> (#[trigger] self.actors()[i]).entity.spec_id()
                < u32::MAX
    }

    open spec fn stored(&self) -> Seq<u8> {
        array_stored(kind_records(self.actors(), ActorKind::Pawn, true, self.actors().len()))
            + array_stored(
            kind_records(self.actors(), ActorKind::House, false, self.actors().len()),
        ) + array_stored(
            kind_records(self.actors(), ActorKind::Castle, false, self.actors().len()),
        ) + option_stored(self.spec_insert_sprite())
    }

    open spec fn parse(bytes: Seq<u8>) -> Option<(Self::Kept, nat)> {
        match actors_parse(bytes) {
            Some((actors, used)) => match option_parse::<InsertSprite>(bytes.skip(used as int)) {
                Some((insert, d)) => Some(((actors, insert), used + d)),
                None => None,
            },
            None => None,
        }
    }

    proof fn lemma_steady(bytes: Seq<u8>, rest: Seq<u8>) {
        let n = bytes.len() as int;
        lemma_actors_steady(bytes, rest);
        let used = actors_parse(bytes).unwrap().1;
        lemma_front_kept(bytes, rest, used as int, n);
        lemma_option_steady::<InsertSprite>(bytes.skip(used as int), rest);
    }

    proof fn lemma_round_trip(&self, rest: Seq<u8>) {
        let actors = self.actors();
        let n = actors.len();
        lemma_kind_records_len(actors, ActorKind::Pawn, true, n);
        lemma_kind_records_len(actors, ActorKind::House, false, n);
        lemma_kind_records_len(actors, ActorKind::Castle, false, n);
        lemma_kind_records_loadable(actors, ActorKind::Pawn, true, n);
        lemma_kind_records_loadable(actors, ActorKind::House, false, n);
        lemma_kind_records_loadable(actors, ActorKind::Castle, false, n);
        lemma_world_layout(
            kind_records(actors, ActorKind::Pawn, true, n),
            kind_records(actors, ActorKind::House, false, n),
            kind_records(actors, ActorKind::Castle, false, n),
            self.spec_insert_sprite(),
            rest,
        );
        lemma_placed_kinds(actors);
    }

    fn store(&mut self, writer: &mut StoreWriter) {
        let actors = query_actors(&self.inner);
        store_actors_animated::<IsPawn>(writer, &actors);
        store_actors::<IsHouse>(writer, &actors);
        store_actors::<IsCastle>(writer, &actors);
        writer.write_option(&self.insert_sprite);
    }

    #[verifier::rlimit(60)]
    fn load(reader: &mut StoreReader) -> (result: Result<Self, Error>) {
        let ghost rest = reader.remaining();
        let mut world = World::new();
        assert(world.actor_set() =~= Set::<Actor>::empty());
        match load_actors(reader, &mut world) {
            Ok(()) => {},
            Err(e) => {
                return Err(e);
            },
        }
        let ghost found = actors_parse(rest).unwrap();
        let ghost used = found.1;
        let insert = match reader.try_read_option::<InsertSprite>() {
            Ok(insert) => insert,
            Err(e) => {
                return Err(e);
            },
        };
        let ghost last = option_parse::<InsertSprite>(rest.skip(used as int)).unwrap();
        assert(rest.skip(used as int).skip(last.1 as int) =~= rest.skip((used + last.1) as int));
        world.insert_sprite = insert;
        Ok(world)
    }
}

} // verus!
