use game_client::data::assets::{Assets, Texture};
use game_client::data::base::{
    AnimatedSprite, AnimationState, BaseSprite, BaseSpriteFlags, ButtonState, DebugFlags, GameFlags,
    StaticSprite,
};
use game_client::data::terrain::{Terrain, TerrainCell};
use game_client::data::world::{EncodeActor, InsertSprite};
use game_client::entity::Entity;
use game_client::error::{Error, ErrorKind};
use game_client::shared::{align_up, merge_error, pos, size, PositionF32, SizeF32, AABB};
use game_client::state::{GameInputType, GameState, GameStateValue};
use game_client::store::{StoreLoad, StoreReader, StoreWriter, MIN_ALIGN, U32_SIZE};
use game_client::string_map::StringMap;

fn sprite(seed: u32) -> BaseSprite {
    BaseSprite {
        position: PositionF32 { x: (seed as f32).to_bits(), y: (2.5f32 * seed as f32).to_bits() },
        texcoord: AABB {
            left: 1.0f32.to_bits(),
            top: 2.0f32.to_bits(),
            right: (3.0f32 + seed as f32).to_bits(),
            bottom: 4.0f32.to_bits(),
        },
        highlight_color: 0x0011_2233 ^ seed,
        flags: BaseSpriteFlags(seed & 1),
    }
}

#[test]
fn constants() {
    assert_eq!(U32_SIZE, 4);
    assert_eq!(MIN_ALIGN, 4);
}

#[test]
fn align_up_rounds_to_multiples() {
    assert_eq!(align_up(0, 4), 0);
    assert_eq!(align_up(1, 4), 4);
    assert_eq!(align_up(4, 4), 4);
    assert_eq!(align_up(5, 4), 8);
    assert_eq!(align_up(0x10001, 0x10000), 0x20000);
    assert_eq!(align_up(17, 1), 17);
}

#[test]
fn a_word_is_written_least_significant_byte_first() {
    let mut writer = StoreWriter::new();
    writer.write(&0x0403_0201u32);
    assert_eq!(writer.data(), vec![1, 2, 3, 4]);
}

#[test]
fn record_round_trip() {
    let mut writer = StoreWriter::new();
    let value = sprite(3);
    writer.write(&value);
    writer.write(&GameFlags(0b1010));
    let bytes = writer.data();
    assert_eq!(bytes.len(), 36);
    let mut reader = StoreReader::new(&bytes).unwrap();
    assert_eq!(reader.try_read::<BaseSprite>().unwrap(), value);
    assert_eq!(reader.try_read::<GameFlags>().unwrap(), GameFlags(0b1010));
    assert_eq!(reader.remaining_size(), 0);
}

#[test]
fn animation_state_packs_its_frames_into_one_word() {
    let state = AnimationState {
        x: 1,
        y: 2,
        width: 3,
        height: 4,
        current_frame: 0x0102,
        max_frame: 0x0304,
    };
    let mut writer = StoreWriter::new();
    writer.write(&state);
    let bytes = writer.data();
    assert_eq!(bytes.len(), 20);
    assert_eq!(&bytes[16..], &[0x02, 0x01, 0x04, 0x03]);
    let mut reader = StoreReader::new(&bytes).unwrap();
    assert_eq!(reader.try_read::<AnimationState>().unwrap(), state);
}

#[test]
fn a_short_buffer_is_corrupt() {
    let bytes = vec![1u8, 2, 3];
    let mut reader = StoreReader::new(&bytes).unwrap();
    let error = reader.try_read::<u32>().unwrap_err();
    assert_eq!(error.kind(), ErrorKind::CorruptData);
    assert_eq!(reader.remaining_size(), 3);
    assert!(reader.try_read_bool().is_err());
    assert!(reader.try_read_option::<u32>().is_err());
    assert!(reader.read_array::<u32>().is_err());
    assert!(reader.read_str().is_err());
    assert!(reader.try_read_entity_option().is_err());
}

#[test]
fn an_illegal_discriminant_is_corrupt() {
    let mut writer = StoreWriter::new();
    writer.write(&5u32);
    let bytes = writer.data();
    let mut reader = StoreReader::new(&bytes).unwrap();
    let error = reader.try_read::<GameStateValue>().unwrap_err();
    assert_eq!(error.kind(), ErrorKind::CorruptData);
    let mut reader = StoreReader::new(&bytes).unwrap();
    assert!(reader.try_read::<GameInputType>().is_err());
    let mut writer = StoreWriter::new();
    writer.write(&GameStateValue::FinalDemo);
    writer.write(&GameInputType::PlacePawn);
    let bytes = writer.data();
    assert_eq!(bytes, vec![4, 0, 0, 0, 4, 0, 0, 0]);
    let mut reader = StoreReader::new(&bytes).unwrap();
    assert_eq!(reader.try_read::<GameStateValue>().unwrap(), GameStateValue::FinalDemo);
    assert_eq!(reader.try_read::<GameInputType>().unwrap(), GameInputType::PlacePawn);
}

#[test]
fn option_takes_a_flag_and_the_value_only_if_present() {
    let mut writer = StoreWriter::new();
    writer.write_option::<u32>(&None);
    writer.write_option(&Some(7u32));
    let bytes = writer.data();
    assert_eq!(bytes, vec![0, 0, 0, 0, 1, 0, 0, 0, 7, 0, 0, 0]);
    let mut reader = StoreReader::new(&bytes).unwrap();
    assert_eq!(reader.try_read_option::<u32>().unwrap(), None);
    assert_eq!(reader.try_read_option::<u32>().unwrap(), Some(7));
}

#[test]
fn bool_is_a_word() {
    let mut writer = StoreWriter::new();
    writer.write_bool(true);
    writer.write_bool(false);
    writer.write(&2u32);
    let bytes = writer.data();
    assert_eq!(bytes, vec![1, 0, 0, 0, 0, 0, 0, 0, 2, 0, 0, 0]);
    let mut reader = StoreReader::new(&bytes).unwrap();
    assert!(reader.try_read_bool().unwrap());
    assert!(!reader.try_read_bool().unwrap());
    assert!(!reader.try_read_bool().unwrap());
}

#[test]
fn array_round_trip() {
    let values = vec![sprite(1), sprite(2), sprite(3)];
    let mut writer = StoreWriter::new();
    writer.write_array(&values);
    writer.write_array::<u32>(&[]);
    writer.write(&9u32);
    let bytes = writer.data();
    assert_eq!(bytes.len(), 8 + 3 * 32 + 8 + 4);
    assert_eq!(&bytes[0..8], &[3, 0, 0, 0, 96, 0, 0, 0]);
    let mut reader = StoreReader::new(&bytes).unwrap();
    assert_eq!(reader.read_array::<BaseSprite>().unwrap(), values);
    assert_eq!(reader.read_array::<u32>().unwrap(), Vec::<u32>::new());
    assert_eq!(reader.try_read::<u32>().unwrap(), 9);
}

#[test]
fn an_array_that_says_it_is_longer_than_the_buffer_is_corrupt() {
    let mut writer = StoreWriter::new();
    writer.write(&1000u32);
    writer.write(&4000u32);
    writer.write(&1u32);
    let bytes = writer.data();
    let mut reader = StoreReader::new(&bytes).unwrap();
    let error = reader.read_array::<u32>().unwrap_err();
    assert_eq!(error.kind(), ErrorKind::CorruptData);
    let mut reader = StoreReader::new(&bytes).unwrap();
    assert!(reader.read_array_transmute().is_err());
    let mut reader = StoreReader::new(&bytes).unwrap();
    assert!(reader.read_str().is_err());
}

#[test]
fn str_is_padded_to_whole_words() {
    let mut writer = StoreWriter::new();
    writer.write_str("abc");
    assert_eq!(writer.cursor(), 12);
    writer.write_str("");
    writer.write_str("h\u{e9}llo");
    let bytes = writer.data();
    assert_eq!(&bytes[0..12], &[3, 0, 0, 0, 4, 0, 0, 0, b'a', b'b', b'c', 0]);
    assert_eq!(&bytes[12..20], &[0, 0, 0, 0, 0, 0, 0, 0]);
    assert_eq!(&bytes[20..28], &[6, 0, 0, 0, 8, 0, 0, 0]);
    assert_eq!(bytes.len(), 36);
    let mut reader = StoreReader::new(&bytes).unwrap();
    assert_eq!(reader.read_str().unwrap(), "abc");
    assert_eq!(reader.read_str().unwrap(), "");
    assert_eq!(reader.read_str().unwrap(), "h\u{e9}llo");
    assert_eq!(reader.remaining_size(), 0);
}

#[test]
fn text_that_is_no_utf8_does_not_fail_the_read() {
    let mut writer = StoreWriter::new();
    writer.write_byte_array(&[0xff, 0xfe, 0x41]);
    writer.write(&77u32);
    let bytes = writer.data();
    let mut reader = StoreReader::new(&bytes).unwrap();
    assert_eq!(reader.read_str().unwrap(), "UTF8 DECODING ERROR");
    assert_eq!(reader.try_read::<u32>().unwrap(), 77);
}

#[test]
fn byte_array_round_trip() {
    let mut writer = StoreWriter::new();
    writer.write_byte_array(&[1, 2, 3, 4, 5]);
    writer.write_byte_array(&[]);
    let bytes = writer.data();
    assert_eq!(bytes, vec![5, 0, 0, 0, 8, 0, 0, 0, 1, 2, 3, 4, 5, 0, 0, 0, 0, 0, 0, 0, 0, 0, 0, 0]);
    let mut reader = StoreReader::new(&bytes).unwrap();
    assert_eq!(reader.read_array_transmute().unwrap(), vec![1, 2, 3, 4, 5]);
    assert_eq!(reader.read_array_transmute().unwrap(), Vec::<u8>::new());
}

#[test]
fn entity_option_round_trip() {
    let entity = Entity::from_bits((3u64 << 32) | 17).unwrap();
    assert_eq!(entity.id(), 17);
    assert_eq!(entity.generation(), 3);
    assert_eq!(entity.to_bits(), (3u64 << 32) | 17);
    assert!(Entity::from_bits(17).is_none());
    let mut writer = StoreWriter::new();
    writer.write_entity_option(Some(entity));
    writer.write_entity_option(None);
    let bytes = writer.data();
    assert_eq!(bytes, vec![17, 0, 0, 0, 3, 0, 0, 0, 0, 0, 0, 0, 0, 0, 0, 0]);
    let mut reader = StoreReader::new(&bytes).unwrap();
    assert_eq!(reader.try_read_entity_option().unwrap(), Some(entity));
    assert_eq!(reader.try_read_entity_option().unwrap(), None);
}

#[test]
fn a_handle_without_generation_is_corrupt() {
    let bytes = vec![17u8, 0, 0, 0, 0, 0, 0, 0];
    let mut reader = StoreReader::new(&bytes).unwrap();
    let error = reader.try_read_entity_option().unwrap_err();
    assert_eq!(error.kind(), ErrorKind::CorruptData);
}

#[test]
fn string_map_round_trip() {
    let mut textures: StringMap<Texture> = StringMap::new();
    textures.insert("atlas".to_string(), Texture { id: 0 });
    textures.insert("font".to_string(), Texture { id: 1 });
    textures.insert("atlas".to_string(), Texture { id: 5 });
    assert_eq!(textures.len(), 2);
    let mut fonts: StringMap<Vec<u8>> = StringMap::new();
    fonts.insert("firacode".to_string(), vec![1, 2, 3]);
    fonts.insert("empty".to_string(), vec![]);
    let mut writer = StoreWriter::new();
    writer.write_string_hashmap(&textures);
    writer.write_string_array_hashmap(&fonts);
    writer.write_string_hashmap::<Texture>(&StringMap::new());
    let bytes = writer.data();
    assert_eq!(bytes.len() % 4, 0);
    let mut reader = StoreReader::new(&bytes).unwrap();
    let read_textures = reader.read_string_hashmap::<Texture>().unwrap();
    let read_fonts = reader.read_string_array_hashmap().unwrap();
    let none = reader.read_string_hashmap::<Texture>().unwrap();
    assert_eq!(read_textures.len(), 2);
    assert_eq!(read_textures.get("atlas"), Some(&Texture { id: 5 }));
    assert_eq!(read_textures.get("font"), Some(&Texture { id: 1 }));
    assert_eq!(read_textures.get("other"), None);
    assert_eq!(read_fonts.get("firacode"), Some(&vec![1, 2, 3]));
    assert_eq!(read_fonts.get("empty"), Some(&vec![]));
    assert_eq!(none.len(), 0);
    assert_eq!(reader.remaining_size(), 0);
}

#[test]
fn the_cursor_stays_on_whole_words() {
    let mut seed: u32 = 12345;
    let mut writer = StoreWriter::new();
    for _ in 0..500 {
        seed = seed.wrapping_mul(1664525).wrapping_add(1013904223);
        let length = (seed >> 16) as usize % 67;
        if seed & 1 == 0 {
            let text: String = (0..length).map(|i| (b'a' + (i % 26) as u8) as char).collect();
            writer.write_str(&text);
        } else if seed & 2 == 0 {
            let values: Vec<u32> = (0..length as u32).collect();
            writer.write_array(&values);
        } else {
            let values: Vec<u8> = (0..length).map(|i| i as u8).collect();
            writer.write_byte_array(&values);
        }
        assert_eq!(writer.cursor() % 4, 0);
    }
}

#[test]
fn the_writer_grows_past_its_first_storage() {
    let mut writer = StoreWriter::new();
    let block = vec![0xabu8; 700_000];
    writer.write_byte_array(&block);
    writer.write_byte_array(&block);
    writer.write(&1u32);
    let bytes = writer.data();
    assert_eq!(bytes.len(), 2 * (8 + 700_000) + 4);
    let mut reader = StoreReader::new(&bytes).unwrap();
    assert_eq!(reader.read_array_transmute().unwrap(), block);
    assert_eq!(reader.read_array_transmute().unwrap(), block);
    assert_eq!(reader.try_read::<u32>().unwrap(), 1);
}

#[test]
fn terrain_round_trip() {
    let mut terrain = Terrain::default();
    terrain.init(3, 2);
    assert_eq!(terrain.cell_count(), 6);
    assert_eq!(terrain.width(), 3);
    assert_eq!(terrain.height(), 2);
    assert_eq!(terrain.cell(5), Some(TerrainCell::Grass));
    assert_eq!(terrain.cell(6), None);
    let mut writer = StoreWriter::new();
    terrain.store(&mut writer);
    let bytes = writer.data();
    assert_eq!(
        bytes,
        vec![3, 0, 0, 0, 2, 0, 0, 0, 6, 0, 0, 0, 8, 0, 0, 0, 0, 0, 0, 0, 0, 0, 0, 0]
    );
    let mut reader = StoreReader::new(&bytes).unwrap();
    let loaded = Terrain::load(&mut reader).unwrap();
    assert_eq!(loaded.width(), 3);
    assert_eq!(loaded.height(), 2);
    assert_eq!(loaded.len(), 6);
}

#[test]
fn a_cell_that_is_no_cell_is_corrupt() {
    let bytes = vec![1u8, 0, 0, 0, 1, 0, 0, 0, 1, 0, 0, 0, 4, 0, 0, 0, 9, 0, 0, 0];
    let mut reader = StoreReader::new(&bytes).unwrap();
    let error = Terrain::load(&mut reader).unwrap_err();
    assert_eq!(error.kind(), ErrorKind::CorruptData);
}

#[test]
fn game_state_round_trip() {
    let mut state = GameState {
        hovered_entity: Entity::from_bits((1u64 << 32) | 4),
        input_type: GameInputType::PlaceHouse,
        value: GameStateValue::Obstacles,
        scroll_view: true,
    };
    let mut writer = StoreWriter::new();
    state.store(&mut writer);
    let bytes = writer.data();
    assert_eq!(bytes, vec![4, 0, 0, 0, 1, 0, 0, 0, 3, 0, 0, 0, 3, 0, 0, 0, 1, 0, 0, 0]);
    let mut reader = StoreReader::new(&bytes).unwrap();
    assert_eq!(GameState::load(&mut reader).unwrap(), state);
    let mut reader = StoreReader::new(&bytes[..19]).unwrap();
    assert!(GameState::load(&mut reader).is_err());
}

#[test]
fn assets_round_trip() {
    let mut assets = Assets::new();
    assets.textures.insert("atlas".to_string(), Texture { id: 3 });
    assets.fonts.insert("firacode".to_string(), vec![9, 8, 7, 6, 5]);
    assets.atlas.texture = Texture { id: 3 };
    assets.atlas.pawn_idle = AnimatedSprite {
        sprite_base: AABB { left: 1, top: 2, right: 3, bottom: 4 },
        frame_count: 6,
    };
    assets.atlas.house = StaticSprite { texcoord: AABB { left: 5, top: 6, right: 7, bottom: 8 } };
    let atlas = assets.atlas;
    let mut writer = StoreWriter::new();
    assets.store(&mut writer);
    let bytes = writer.data();
    let mut reader = StoreReader::new(&bytes).unwrap();
    let loaded = Assets::load(&mut reader).unwrap();
    assert_eq!(loaded.atlas, atlas);
    assert_eq!(loaded.textures.get("atlas"), Some(&Texture { id: 3 }));
    assert_eq!(loaded.fonts.get("firacode"), Some(&vec![9, 8, 7, 6, 5]));
    assert_eq!(reader.remaining_size(), 0);
}

#[test]
fn actor_record_takes_sixty_bytes() {
    let record = EncodeActor {
        entity: [1, 2],
        sprite: sprite(4),
        animate: AnimationState { x: 1, y: 2, width: 3, height: 4, current_frame: 5, max_frame: 6 },
    };
    let insert = InsertSprite {
        position: pos(1, 2),
        sprite: AABB { left: 1, top: 2, right: 3, bottom: 4 },
    };
    let mut writer = StoreWriter::new();
    writer.write(&record);
    writer.write(&insert);
    let bytes = writer.data();
    assert_eq!(bytes.len(), 60 + 24);
    let mut reader = StoreReader::new(&bytes).unwrap();
    assert_eq!(reader.try_read::<EncodeActor>().unwrap(), record);
    assert_eq!(reader.try_read::<InsertSprite>().unwrap(), insert);
}

#[test]
fn errors_merge_their_messages() {
    let mut error: Option<Error> = None;
    merge_error(&mut error, Error::assets("Missing texture name"));
    merge_error(&mut error, Error::corrupt_data("Failed to read data"));
    merge_error(&mut error, Error::assets("Missing font name"));
    let error = error.unwrap();
    assert_eq!(error.kind(), ErrorKind::Assets);
    assert_eq!(error.count(), 3);
    assert_eq!(error.message(0), "Missing texture name");
    assert_eq!(error.message(1), "Failed to read data");
    assert_eq!(error.message(2), "Missing font name");
    assert_eq!(
        error.report(),
        "Missing texture name\nFailed to read data\nMissing font name\n"
    );
}

#[test]
fn flags_and_buttons() {
    let mut flags = GameFlags(0);
    flags.set_update_terrain();
    flags.set_update_gui();
    assert_eq!(flags.0, 0b0110);
    assert!(flags.update_terrain());
    assert!(!flags.update_animations());
    flags.clear_update_terrain();
    flags.set_update_view_offset();
    flags.set_update_animations();
    assert_eq!(flags.0, 0b1101);
    flags.clear_update_animations();
    flags.clear_update_gui();
    flags.clear_update_view_offset();
    assert_eq!(flags.0, 0);
    assert_eq!(DebugFlags::SHOW_BLOCKED_CELLS, 0x20);
    assert_eq!(BaseSpriteFlags::empty().0, 0);
    assert_eq!(BaseSpriteFlags(7).value(), 7);
    assert_eq!(BaseSpriteFlags(0xffff_ffff).value(), -1);
    let mut button = ButtonState::JustPressed;
    assert!(button.just_pressed());
    assert!(!button.released());
    button.flip();
    assert_eq!(button, ButtonState::Pressed);
    button.flip();
    assert_eq!(button, ButtonState::Pressed);
    let mut button = ButtonState::JustReleased;
    assert!(button.released());
    button.flip();
    assert_eq!(button, ButtonState::Released);
    assert!(button.released());
    assert_eq!(ButtonState::default(), ButtonState::Released);
}

#[test]
fn shared_shapes() {
    assert_eq!(pos(1, 2), PositionF32 { x: 1, y: 2 });
    assert_eq!(size(3, 4), SizeF32 { width: 3, height: 4 });
    assert_eq!(pos(1, 2).splat(), [1, 2]);
    assert_eq!(AABB { left: 1, top: 2, right: 3, bottom: 4 }.splat(), [1, 2, 3, 4]);
}

#[test]
fn animation_goes_round() {
    let mut state =
        AnimationState { x: 0, y: 0, width: 0, height: 0, current_frame: 0, max_frame: 3 };
    state.advance();
    assert_eq!(state.current_frame, 1);
    state.advance();
    assert_eq!(state.current_frame, 2);
    state.advance();
    assert_eq!(state.current_frame, 0);
    let mut state =
        AnimationState { x: 0, y: 0, width: 0, height: 0, current_frame: 65535, max_frame: 65535 };
    state.advance();
    assert_eq!(state.current_frame, 0);
}
