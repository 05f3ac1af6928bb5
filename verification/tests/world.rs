use game_client::data::base::{AnimationState, BaseSprite, BaseSpriteFlags, StaticSprite};
use game_client::data::order::{depth_key, sort_by_depth};
use game_client::data::world::{
    spawn_actors, store_actors, store_actors_animated, Actor, ActorKind, IsCastle, IsHouse,
    IsPawn, Marker, OrderedSprite, World,
};
use game_client::entity::Entity;
use game_client::shared::{PositionF32, AABB};
use game_client::store::{StoreLoad, StoreReader, StoreWriter};

fn rect(left: f32, top: f32, right: f32, bottom: f32) -> AABB {
    AABB {
        left: left.to_bits(),
        top: top.to_bits(),
        right: right.to_bits(),
        bottom: bottom.to_bits(),
    }
}

fn at(x: f32, y: f32) -> PositionF32 {
    PositionF32 { x: x.to_bits(), y: y.to_bits() }
}

fn frames(count: u16) -> AnimationState {
    AnimationState {
        x: 0.0f32.to_bits(),
        y: 0.0f32.to_bits(),
        width: 10.0f32.to_bits(),
        height: 20.0f32.to_bits(),
        current_frame: 0,
        max_frame: count,
    }
}

fn frame_rect(animation: &AnimationState) -> AABB {
    let x = f32::from_bits(animation.x)
        + f32::from_bits(animation.width) * animation.current_frame as f32;
    let y = f32::from_bits(animation.y);
    rect(x, y, x + f32::from_bits(animation.width), y + f32::from_bits(animation.height))
}

fn depth(sprite: &BaseSprite) -> i64 {
    let bottom = f32::from_bits(sprite.position.y)
        + (f32::from_bits(sprite.texcoord.bottom) - f32::from_bits(sprite.texcoord.top));
    (bottom * 64.0) as i64
}

fn hit(point: (f32, f32)) -> impl Fn(&BaseSprite) -> bool {
    move |sprite: &BaseSprite| {
        let left = f32::from_bits(sprite.position.x);
        let top = f32::from_bits(sprite.position.y);
        let width = f32::from_bits(sprite.texcoord.right) - f32::from_bits(sprite.texcoord.left);
        let height = f32::from_bits(sprite.texcoord.bottom) - f32::from_bits(sprite.texcoord.top);
        point.0 >= left && point.0 <= left + width && point.1 >= top && point.1 <= top + height
    }
}

fn house() -> StaticSprite {
    StaticSprite { texcoord: rect(0.0, 0.0, 30.0, 40.0) }
}

#[test]
fn markers_name_their_kinds() {
    assert_eq!(IsPawn::kind(), ActorKind::Pawn);
    assert_eq!(IsHouse::kind(), ActorKind::House);
    assert_eq!(IsCastle::kind(), ActorKind::Castle);
}

#[test]
fn a_new_world_is_empty() {
    let world = World::default();
    assert_eq!(world.len(), 0);
    assert!(world.can_spawn());
    assert!(world.list().is_empty());
    assert!(world.has_insert_sprite().is_none());
}

#[test]
fn actors_get_handles_of_their_own() {
    let mut world = World::new();
    let pawn = world.add_pawn(at(1.0, 2.0), rect(0.0, 0.0, 10.0, 20.0), frames(4));
    let first = world.add_house(at(3.0, 4.0), house());
    let castle = world.add_castle(at(5.0, 6.0), house());
    assert_ne!(pawn, first);
    assert_ne!(first, castle);
    assert_ne!(pawn.id(), first.id());
    assert_eq!(world.len(), 3);
    let found = world.find(first).unwrap();
    assert_eq!(found.kind, ActorKind::House);
    assert_eq!(found.sprite.position, at(3.0, 4.0));
    assert_eq!(found.sprite.flags, BaseSpriteFlags(0));
    assert_eq!(found.animation, None);
    let found = world.find(pawn).unwrap();
    assert_eq!(found.kind, ActorKind::Pawn);
    assert_eq!(found.animation, Some(frames(4)));
    assert_eq!(world.find(castle).unwrap().kind, ActorKind::Castle);
    assert!(world.contains(castle));
}

#[test]
fn a_deleted_actor_is_gone_and_its_handle_is_stale() {
    let mut world = World::new();
    let first = world.add_house(at(0.0, 0.0), house());
    let second = world.add_house(at(1.0, 0.0), house());
    world.delete_sprite(first);
    assert!(!world.contains(first));
    assert!(world.contains(second));
    assert_eq!(world.len(), 1);
    let third = world.add_house(at(2.0, 0.0), house());
    assert_ne!(third, first);
    assert!(!world.contains(first));
    assert!(world.contains(third));
    world.delete_sprite(first);
    assert_eq!(world.len(), 2);
}

#[test]
fn insert_sprite_is_set_and_cleared() {
    let mut world = World::new();
    world.set_insert_sprite(at(7.0, 8.0), house());
    let sprite = world.has_insert_sprite().unwrap();
    assert_eq!(sprite.position, at(7.0, 8.0));
    assert_eq!(sprite.sprite, house().texcoord);
    world.clear_insert_sprite();
    assert!(world.has_insert_sprite().is_none());
}

#[test]
fn highlight_is_set_and_cleared() {
    let mut world = World::new();
    let first = world.add_house(at(0.0, 0.0), house());
    let second = world.add_house(at(1.0, 0.0), house());
    world.set_sprite_highlight(first, [1, 2, 3]);
    let sprite = world.find(first).unwrap().sprite;
    assert!(sprite.flags.highlighted());
    assert_eq!(sprite.highlight_color, 0x0003_0201);
    assert!(!world.find(second).unwrap().sprite.flags.highlighted());
    world.clear_sprite_highlight(first);
    let sprite = world.find(first).unwrap().sprite;
    assert!(!sprite.flags.highlighted());
    assert_eq!(sprite.highlight_color, 0);
    let stale = Entity::from_bits((9u64 << 32) | 99).unwrap();
    world.set_sprite_highlight(stale, [1, 1, 1]);
    assert_eq!(world.len(), 2);
}

#[test]
fn sprites_are_ordered_by_depth_and_ties_keep_their_order() {
    let mut sprites: Vec<OrderedSprite> = Vec::new();
    let keys = [5i64, 1, 5, 3, 1, 5, 0, 3];
    for (i, key) in keys.iter().enumerate() {
        sprites.push(OrderedSprite {
            e: Entity::from_bits((1u64 << 32) | i as u64).unwrap(),
            y: *key,
            sprite: BaseSprite {
                position: at(i as f32, 0.0),
                texcoord: rect(0.0, 0.0, 1.0, 1.0),
                highlight_color: 0,
                flags: BaseSpriteFlags(0),
            },
        });
    }
    sort_by_depth(&mut sprites);
    let order: Vec<(i64, u32)> = sprites.iter().map(|s| (s.y, s.e.id())).collect();
    assert_eq!(order, vec![(0, 6), (1, 1), (1, 4), (3, 3), (3, 7), (5, 0), (5, 2), (5, 5)]);
}

#[test]
fn the_ordering_pass_lists_every_actor_by_depth() {
    let mut world = World::new();
    let low = world.add_house(at(0.0, 300.0), house());
    let high = world.add_house(at(0.0, 10.0), house());
    let pawn = world.add_pawn(at(0.0, 100.0), rect(0.0, 0.0, 10.0, 20.0), frames(3));
    let count = world.order_sprites(false, frame_rect, depth);
    assert_eq!(count, 3);
    let sprites = world.ordered_sprites();
    assert_eq!(sprites.len(), 3);
    assert_eq!(sprites[0].position, at(0.0, 10.0));
    assert_eq!(sprites[1].position, at(0.0, 100.0));
    assert_eq!(sprites[2].position, at(0.0, 300.0));
    assert_eq!(world.find(pawn).unwrap().animation.unwrap().current_frame, 0);
    assert_eq!(world.sprite_at_position(hit((5.0, 30.0))), Some(high));
    assert_eq!(world.sprite_at_position(hit((5.0, 320.0))), Some(low));
    assert_eq!(world.sprite_at_position(hit((500.0, 500.0))), None);
}

#[test]
fn animations_step_once_in_a_pass_and_go_round() {
    let mut world = World::new();
    let pawn = world.add_pawn(at(0.0, 100.0), rect(0.0, 0.0, 10.0, 20.0), frames(3));
    let still = world.add_house(at(0.0, 0.0), house());
    world.order_sprites(true, frame_rect, depth);
    let actor = world.find(pawn).unwrap();
    assert_eq!(actor.animation.unwrap().current_frame, 1);
    assert_eq!(actor.sprite.texcoord, rect(10.0, 0.0, 20.0, 20.0));
    world.order_sprites(true, frame_rect, depth);
    assert_eq!(world.find(pawn).unwrap().animation.unwrap().current_frame, 2);
    world.order_sprites(false, frame_rect, depth);
    assert_eq!(world.find(pawn).unwrap().animation.unwrap().current_frame, 2);
    world.order_sprites(true, frame_rect, depth);
    let actor = world.find(pawn).unwrap();
    assert_eq!(actor.animation.unwrap().current_frame, 0);
    assert_eq!(actor.sprite.texcoord, rect(0.0, 0.0, 10.0, 20.0));
    assert_eq!(world.find(still).unwrap().sprite.texcoord, house().texcoord);
}

#[test]
fn selection_lights_actors_up_and_clearing_puts_them_out() {
    let mut world = World::new();
    let first = world.add_house(at(0.0, 0.0), house());
    let second = world.add_house(at(100.0, 0.0), house());
    world.order_sprites(false, frame_rect, depth);
    world.select_sprite_at_position(hit((110.0, 10.0)));
    assert!(world.find(second).unwrap().sprite.flags.highlighted());
    assert_eq!(world.find(second).unwrap().sprite.highlight_color, 0x00ff_ffff);
    assert!(!world.find(first).unwrap().sprite.flags.highlighted());
    world.select_sprite(first);
    world.clear_selected_sprites();
    assert!(!world.find(first).unwrap().sprite.flags.highlighted());
    assert!(!world.find(second).unwrap().sprite.flags.highlighted());
    world.select_sprite_at_position(hit((-50.0, -50.0)));
    assert!(!world.find(first).unwrap().sprite.flags.highlighted());
    world.delete_sprite_at_position(hit((10.0, 10.0)));
    assert!(!world.contains(first));
    assert!(world.contains(second));
    world.delete_sprite_at_position(hit((-50.0, -50.0)));
    assert_eq!(world.len(), 1);
}

#[test]
fn handles_outlast_a_snapshot() {
    let mut world = World::new();
    let h1 = world.add_house(at(1.0, 1.0), house());
    let h2 = world.add_pawn(at(2.0, 2.0), rect(0.0, 0.0, 10.0, 20.0), frames(5));
    let h3 = world.add_castle(at(3.0, 3.0), house());
    let first = world.find(h1).unwrap();
    let third = world.find(h3).unwrap();
    world.delete_sprite(h2);
    assert!(world.can_store());
    let mut writer = StoreWriter::new();
    world.store(&mut writer);
    let bytes = writer.data();
    let mut reader = StoreReader::new(&bytes).unwrap();
    let mut loaded = World::load(&mut reader).unwrap();
    assert_eq!(reader.remaining_size(), 0);
    assert_eq!(loaded.len(), 2);
    assert_eq!(loaded.find(h1), Some(first));
    assert_eq!(loaded.find(h3), Some(third));
    assert_eq!(loaded.find(h2), None);
    assert!(!loaded.contains(h2));
    let fresh = loaded.add_house(at(9.0, 9.0), house());
    assert_ne!(fresh, h1);
    assert_ne!(fresh, h3);
    assert_eq!(loaded.find(h1), Some(first));
    assert_eq!(loaded.find(h3), Some(third));
    assert_eq!(loaded.len(), 3);
}

#[test]
fn a_world_of_each_kind_round_trips() {
    let mut world = World::new();
    let pawn = world.add_pawn(at(1.0, 1.0), rect(0.0, 0.0, 10.0, 20.0), frames(5));
    let house_one = world.add_house(at(2.0, 2.0), house());
    let castle = world.add_castle(at(3.0, 3.0), house());
    world.order_sprites(true, frame_rect, depth);
    world.set_insert_sprite(at(4.0, 4.0), house());
    let before: Vec<Actor> = vec![
        world.find(pawn).unwrap(),
        world.find(house_one).unwrap(),
        world.find(castle).unwrap(),
    ];
    let mut writer = StoreWriter::new();
    world.store(&mut writer);
    let bytes = writer.data();
    assert_eq!(bytes.len(), 3 * (8 + 60) + 4 + 24);
    let mut reader = StoreReader::new(&bytes).unwrap();
    let loaded = World::load(&mut reader).unwrap();
    for actor in before {
        assert_eq!(loaded.find(actor.entity), Some(actor));
    }
    assert_eq!(loaded.has_insert_sprite(), world.has_insert_sprite());
    assert_eq!(loaded.find(pawn).unwrap().animation.unwrap().current_frame, 1);
}

#[test]
fn arrays_of_actors_are_written_by_kind() {
    let mut world = World::new();
    world.add_house(at(1.0, 1.0), house());
    world.add_pawn(at(2.0, 2.0), rect(0.0, 0.0, 10.0, 20.0), frames(5));
    world.add_house(at(3.0, 3.0), house());
    let actors = world.list();
    let mut writer = StoreWriter::new();
    store_actors_animated::<IsPawn>(&mut writer, &actors);
    assert_eq!(writer.cursor(), 8 + 60);
    store_actors::<IsHouse>(&mut writer, &actors);
    assert_eq!(writer.cursor(), 8 + 60 + 8 + 120);
    store_actors::<IsCastle>(&mut writer, &actors);
    assert_eq!(writer.cursor(), 8 + 60 + 8 + 120 + 8);
    let bytes = writer.data();
    let mut reader = StoreReader::new(&bytes[68..]).unwrap();
    let mut loaded = World::new();
    spawn_actors::<IsHouse>(&mut reader, &mut loaded).unwrap();
    assert_eq!(loaded.len(), 2);
    assert!(loaded.list().iter().all(|actor| actor.kind == ActorKind::House));
}

#[test]
fn a_record_with_a_handle_that_is_none_is_corrupt() {
    let mut world = World::new();
    world.add_house(at(1.0, 1.0), house());
    let mut writer = StoreWriter::new();
    world.store(&mut writer);
    let mut bytes = writer.data();
    // The generation of the first house: the second word of its record.
    bytes[8 + 8 + 4] = 0;
    let mut reader = StoreReader::new(&bytes).unwrap();
    assert!(World::load(&mut reader).is_err());
}

#[test]
fn depth_keys_go_as_the_numbers_go() {
    let numbers = [
        f32::NEG_INFINITY,
        -1000.5,
        -1.0,
        -f32::MIN_POSITIVE,
        0.0,
        f32::MIN_POSITIVE,
        0.015,
        0.016,
        1.0,
        1.0000001,
        332.0,
        f32::INFINITY,
    ];
    for pair in numbers.windows(2) {
        assert!(pair[0] < pair[1]);
        assert!(
            depth_key(pair[0].to_bits()) < depth_key(pair[1].to_bits()),
            "{} {}",
            pair[0],
            pair[1]
        );
    }
    assert_eq!(depth_key(0.0f32.to_bits()), 0);
    assert_eq!(depth_key((-0.0f32).to_bits()), 0);
    assert_eq!(depth_key(1.0f32.to_bits()), 0x3F80_0000);
    assert_eq!(depth_key((-1.0f32).to_bits()), -0x3F80_0000);
}

#[test]
fn an_index_that_was_freed_is_used_again() {
    let mut world = World::new();
    let first = world.add_house(at(0.0, 0.0), house());
    let second = world.add_house(at(1.0, 0.0), house());
    assert_eq!((first.id(), second.id()), (0, 1));
    world.delete_sprite(first);
    let third = world.add_castle(at(2.0, 0.0), house());
    assert_eq!(third.id(), 0);
    assert_ne!(third.generation(), first.generation());
    assert!(!world.contains(first));
    assert!(world.contains(third));
    let fourth = world.add_castle(at(3.0, 0.0), house());
    assert_eq!(fourth.id(), 2);
    assert_eq!(world.len(), 3);
}

#[test]
fn many_sprites_are_sorted_as_a_stable_sort_sorts_them() {
    let mut seed: u64 = 0x2545_F491_4F6C_DD1D;
    let mut sprites: Vec<OrderedSprite> = Vec::new();
    let handle = Entity::from_parts(1, 1).unwrap();
    for place in 0..5000u32 {
        seed ^= seed << 13;
        seed ^= seed >> 7;
        seed ^= seed << 17;
        let sprite = BaseSprite {
            position: PositionF32 { x: place, y: 0 },
            texcoord: AABB { left: 0, top: 0, right: 0, bottom: 0 },
            highlight_color: 0,
            flags: BaseSpriteFlags::empty(),
        };
        sprites.push(OrderedSprite { e: handle, y: (seed % 97) as i64 - 48, sprite });
    }
    let mut expected = sprites.clone();
    expected.sort_by_key(|sprite| sprite.y);
    sort_by_depth(&mut sprites);
    assert_eq!(sprites, expected);

    let mut none: Vec<OrderedSprite> = Vec::new();
    sort_by_depth(&mut none);
    assert!(none.is_empty());
    let mut one = vec![expected[0]];
    sort_by_depth(&mut one);
    assert_eq!(one, vec![expected[0]]);
}
