use game_client::arena::Arena;
use game_client::client::GameClient;
use game_client::data::base::{AnimationState, BaseSprite, GameFlags};
use game_client::data::debug::{DebugElement, DebugState};
use game_client::data::terrain::Terrain;
use game_client::data::world::InsertSprite;
use game_client::output::gpu_shared::{
    GpuDebugVertex, GpuSpriteData, GpuTerrainSpriteData, InsertSpriteVertex,
};
use game_client::output::layout::{pointer_size, write_pointer, write_values, FieldValue};
use game_client::output::message::{
    message_stride, write_message, DrawSpritesParams, OutputMessage, OutputMessageParams,
    OutputMessageType, Params, UpdateSpritesParams, PARAMS_OFFSET,
};
use game_client::output::passes::{GuiFrame, GuiMesh, GuiTexture};
use game_client::output::GameOutput;
use game_client::shared::{PositionF32, AABB};

fn at(x: f32, y: f32) -> PositionF32 {
    PositionF32 { x: x.to_bits(), y: y.to_bits() }
}

fn rect(left: f32, top: f32, right: f32, bottom: f32) -> AABB {
    AABB {
        left: left.to_bits(),
        top: top.to_bits(),
        right: right.to_bits(),
        bottom: bottom.to_bits(),
    }
}

fn frame_rect(animation: &AnimationState) -> AABB {
    let x = f32::from_bits(animation.x)
        + f32::from_bits(animation.width) * animation.current_frame as f32;
    let y = f32::from_bits(animation.y);
    rect(x, y, x + f32::from_bits(animation.width), y + f32::from_bits(animation.height))
}

fn depth(sprite: &BaseSprite) -> i64 {
    (f32::from_bits(sprite.position.y) * 64.0) as i64
}

fn to_gpu(sprite: &BaseSprite) -> GpuSpriteData {
    let width = f32::from_bits(sprite.texcoord.right) - f32::from_bits(sprite.texcoord.left);
    let height = f32::from_bits(sprite.texcoord.bottom) - f32::from_bits(sprite.texcoord.top);
    GpuSpriteData {
        position: sprite.position.splat(),
        size: [width.to_bits(), height.to_bits()],
        texcoord_offset: [sprite.texcoord.left, sprite.texcoord.top],
        texcoord_size: [width.to_bits(), height.to_bits()],
        data: sprite.flags.value(),
    }
}

fn cell_at(column: u32, row: u32) -> GpuTerrainSpriteData {
    GpuTerrainSpriteData {
        position: [(column as f32 * 64.0).to_bits(), (row as f32 * 64.0).to_bits()],
        uv: [0, 0],
    }
}

fn preview(sprite: &InsertSprite) -> [InsertSpriteVertex; 6] {
    let corner = InsertSpriteVertex {
        position: sprite.position.splat(),
        texcoord: [sprite.sprite.left, sprite.sprite.top],
    };
    [corner; 6]
}

fn corners(element: &DebugElement) -> [GpuDebugVertex; 8] {
    let DebugElement::Rect { base, color, .. } = element;
    [GpuDebugVertex { position: [base.left, base.top], color: *color }; 8]
}

fn no_paint() -> GuiFrame {
    GuiFrame { textures: Vec::new(), meshes: Vec::new() }
}

fn read_pointer(bytes: &[u8], at: usize) -> usize {
    let mut value: u64 = 0;
    for i in 0..pointer_size() {
        value |= (bytes[at + i] as u64) << (8 * i);
    }
    value as usize
}

#[test]
fn arena_appends_and_grows_by_its_granularity() {
    let mut arena = Arena::new(8, 16);
    assert_eq!(arena.capacity(), 8);
    assert_eq!(arena.cursor(), 0);
    arena.write_bytes(&[1, 2, 3]);
    arena.write_u32(0x0a0b0c0d);
    assert_eq!(arena.as_slice(), &[1, 2, 3, 0x0d, 0x0c, 0x0b, 0x0a]);
    assert_eq!(arena.capacity(), 8);
    arena.write_bytes(&[9, 9]);
    assert_eq!(arena.capacity(), 16);
    assert_eq!(arena.cursor(), 9);
    arena.reserve(7);
    assert_eq!(arena.capacity(), 16);
    arena.reserve(8);
    assert_eq!(arena.capacity(), 32);
    assert_eq!(arena.as_slice(), &[1, 2, 3, 0x0d, 0x0c, 0x0b, 0x0a, 9, 9]);
    assert_eq!(arena.pad_to(4), 12);
    assert_eq!(arena.pad_to(4), 12);
    assert_eq!(&arena.as_slice()[9..], &[0, 0, 0]);
    arena.write_words(&[1, 2]);
    arena.write_zeros(2);
    assert_eq!(arena.cursor(), 22);
    assert_eq!(arena.storage().len(), 32);
    arena.reset();
    assert_eq!(arena.cursor(), 0);
    assert_eq!(arena.capacity(), 32);
    assert!(arena.as_slice().is_empty());
}

#[test]
fn a_record_is_written_field_by_field_without_gaps() {
    let mut arena = Arena::new(64, 64);
    write_values(
        &mut arena,
        &[FieldValue::Uint32(7), FieldValue::Pointer(0x0102), FieldValue::Float32(1.0f32.to_bits())],
    );
    let bytes = arena.as_slice().to_vec();
    assert_eq!(bytes.len(), 8 + pointer_size());
    assert_eq!(&bytes[0..4], &[7, 0, 0, 0]);
    assert_eq!(read_pointer(&bytes, 4), 0x0102);
    assert_eq!(&bytes[4 + pointer_size()..], &[0, 0, 0x80, 0x3f]);
    arena.reset();
    write_pointer(&mut arena, usize::MAX);
    assert!(arena.as_slice().iter().all(|byte| *byte == 0xff));
    assert_eq!(arena.cursor(), pointer_size());
}

#[test]
fn a_message_is_its_number_and_its_parameters() {
    let message = OutputMessage {
        ty: OutputMessageType::DrawSprites,
        params: OutputMessageParams::DrawSprites(DrawSpritesParams {
            instance_base: 1,
            instance_count: 2,
            texture_id: 3,
        }),
    };
    let mut arena = Arena::new(16, 16);
    write_message(&mut arena, &message);
    let bytes = arena.as_slice();
    assert_eq!(bytes.len(), message_stride());
    assert_eq!(message_stride(), 4 + 4 * pointer_size() + 24);
    assert_eq!(PARAMS_OFFSET, 4);
    assert_eq!(&bytes[0..16], &[1, 0, 0, 0, 1, 0, 0, 0, 2, 0, 0, 0, 3, 0, 0, 0]);
    assert!(bytes[16..].iter().all(|byte| *byte == 0));
    assert_eq!(UpdateSpritesParams::defs().len(), 2);
    let params = UpdateSpritesParams { offset_bytes: 4, size_bytes: 8 };
    assert_eq!(params.values().len(), 2);
}

#[test]
fn a_new_output_has_an_index_and_nothing_else() {
    let output = GameOutput::default();
    assert!(output.message_list().is_empty());
    assert_eq!(output.data_offset(), 0);
    let index = output.output_index();
    assert_eq!(index.messages_count, 0);
    assert_eq!(index.messages_size, message_stride());
    let bytes = output.index_block();
    assert_eq!(bytes.len(), 4 * pointer_size());
    assert_eq!(read_pointer(bytes, pointer_size()), message_stride());
}

#[test]
fn clearing_twice_leaves_the_index_as_it_is() {
    let mut output = GameOutput::new();
    output.update_view_offset(at(1.0, 2.0));
    output.push_data(&7u32);
    output.write_index();
    let index = output.output_index();
    let bytes = output.index_block().to_vec();
    assert_eq!(index.messages_count, 1);
    output.clear_index();
    assert_eq!(output.output_index(), index);
    assert_eq!(output.index_block(), &bytes[..]);
    output.clear_index();
    assert_eq!(output.output_index(), index);
    assert_eq!(output.index_block(), &bytes[..]);
    assert!(output.message_list().is_empty());
    assert_eq!(output.data_offset(), 0);
}

#[test]
fn the_index_says_where_the_messages_and_the_data_are() {
    let mut output = GameOutput::new();
    output.update_view_offset(at(1.0, 2.0));
    output.update_view_offset(at(3.0, 4.0));
    output.write_index();
    let index = output.output_index();
    assert_eq!(index.messages_count, 2);
    assert_eq!(index.messages_ptr, output.message_block().as_ptr() as usize);
    assert_eq!(index.data_ptr, output.data_block().as_ptr() as usize);
    let bytes = output.index_block();
    assert_eq!(read_pointer(bytes, 0), 2);
    assert_eq!(read_pointer(bytes, 2 * pointer_size()), index.messages_ptr);
    assert_eq!(read_pointer(bytes, 3 * pointer_size()), index.data_ptr);
    let messages = output.message_block();
    assert_eq!(messages.len(), 2 * message_stride());
    assert_eq!(&messages[0..12], &[7, 0, 0, 0, 0, 0, 0x80, 0x3f, 0, 0, 0, 0x40]);
    assert_eq!(messages[message_stride()], 7);
}

#[test]
fn bytes_are_pushed_at_their_alignment() {
    let mut output = GameOutput::new();
    assert_eq!(output.push_bytes(&[1, 2, 3], 1), 0);
    assert_eq!(output.push_bytes(&[4, 5], 4), 4);
    assert_eq!(output.push_bytes(&[6], 2), 6);
    output.push_words(&[0x0a0b0c0d]);
    assert_eq!(output.data_block(), &[1, 2, 3, 0, 4, 5, 6, 0x0d, 0x0c, 0x0b, 0x0a]);
    output.realloc_data(0x200000);
    assert_eq!(output.data_block().len(), 11);
}

#[test]
fn sprites_are_handed_over_and_drawn() {
    let mut output = GameOutput::new();
    output.push_data(&1u32);
    let sprites = vec![
        BaseSprite {
            position: at(1.0, 2.0),
            texcoord: rect(0.0, 0.0, 10.0, 20.0),
            highlight_color: 0,
            flags: game_client::data::base::BaseSpriteFlags(1),
        };
        3
    ];
    output.render_sprites(&sprites, 42, to_gpu);
    assert_eq!(output.data_offset(), 4 + 3 * 36);
    let messages = output.message_list();
    assert_eq!(messages.len(), 2);
    assert_eq!(
        messages[0],
        OutputMessage {
            ty: OutputMessageType::UpdateSprites,
            params: OutputMessageParams::UpdateSprites(UpdateSpritesParams {
                offset_bytes: 4,
                size_bytes: 108
            }),
        }
    );
    assert_eq!(
        messages[1],
        OutputMessage {
            ty: OutputMessageType::DrawSprites,
            params: OutputMessageParams::DrawSprites(DrawSpritesParams {
                instance_base: 0,
                instance_count: 3,
                texture_id: 42
            }),
        }
    );
    let data = output.data_block();
    assert_eq!(&data[4..12], &[0, 0, 0x80, 0x3f, 0, 0, 0, 0x40]);
    assert_eq!(&data[4 + 32..4 + 36], &[1, 0, 0, 0]);
}

#[test]
fn the_ground_is_handed_over_row_by_row() {
    let mut terrain = Terrain::default();
    terrain.init(3, 2);
    let mut output = GameOutput::new();
    output.update_terrain(&terrain, cell_at);
    assert_eq!(output.data_offset(), 6 * 16);
    match output.message_list()[0].params {
        OutputMessageParams::UpdateTerrain(params) => {
            assert_eq!(params.offset_bytes, 0);
            assert_eq!(params.size_bytes, 96);
            assert_eq!(params.cell_count, 6);
        },
        _ => panic!("not a terrain message"),
    }
    let data = output.data_block();
    let x = |cell: usize| f32::from_bits(u32::from_le_bytes(data[cell * 16..cell * 16 + 4].try_into().unwrap()));
    let y = |cell: usize| f32::from_bits(u32::from_le_bytes(data[cell * 16 + 4..cell * 16 + 8].try_into().unwrap()));
    assert_eq!((x(0), y(0)), (0.0, 0.0));
    assert_eq!((x(2), y(2)), (128.0, 0.0));
    assert_eq!((x(3), y(3)), (0.0, 64.0));
    assert_eq!((x(5), y(5)), (128.0, 64.0));
}

#[test]
fn the_debug_overlay_is_a_mesh_of_indices_and_corners() {
    let mut debug = DebugState::new();
    assert!(!debug.any());
    debug.draw_rect(rect(0.0, 0.0, 1.0, 1.0), 2.0f32.to_bits(), [1, 2, 3, 4]);
    debug.draw_rect(rect(5.0, 5.0, 6.0, 6.0), 2.0f32.to_bits(), [5, 6, 7, 8]);
    assert!(debug.any());
    assert_eq!(debug.len(), 2);
    assert_eq!(debug.buffers_sizes(), [48, 96, 192]);
    let mut index = Vec::new();
    let mut vertex = Vec::new();
    debug.generate_mesh(&mut index, &mut vertex, corners);
    assert_eq!(
        &index[0..24],
        &[0, 5, 4, 0, 1, 5, 3, 2, 7, 7, 2, 6, 0, 2, 1, 1, 2, 3, 4, 5, 6, 5, 7, 6]
    );
    assert_eq!(&index[24..30], &[8, 13, 12, 8, 9, 13]);
    assert_eq!(vertex.len(), 16);
    assert_eq!(vertex[8].color, [5, 6, 7, 8]);
    let mut output = GameOutput::new();
    output.push_bytes(&[1], 1);
    output.render_debug(&debug, corners);
    match output.message_list()[0].params {
        OutputMessageParams::DrawDebug(params) => {
            assert_eq!(params.index_offset_bytes, 4);
            assert_eq!(params.index_size_bytes, 96);
            assert_eq!(params.vertex_offset_bytes, 100);
            assert_eq!(params.vertex_size_bytes, 192);
            assert_eq!(params.count, 48);
        },
        _ => panic!("not a debug message"),
    }
    let data = output.data_block();
    assert_eq!(data.len(), 4 + 96 + 192);
    assert_eq!(&data[4..12], &[0, 0, 5, 0, 4, 0, 0, 0]);
    assert_eq!(&data[100 + 8..100 + 12], &[1, 2, 3, 4]);
    debug.clear();
    assert_eq!(debug.buffers_sizes(), [0, 0, 0]);
}

#[test]
fn the_panel_is_reset_and_painted() {
    let frame = GuiFrame {
        textures: vec![GuiTexture { id: 2, x: 1, y: 2, width: 2, height: 1, pixels: vec![1, 2, 3, 4, 5, 6, 7, 8] }],
        meshes: vec![GuiMesh {
            clip: [0, 0, 1.0f32.to_bits(), 1.0f32.to_bits()],
            texture_id: 2,
            indices: vec![0, 1, 2],
            vertices: vec![9; 60],
        }],
    };
    let mut output = GameOutput::new();
    output.push_bytes(&[1, 1, 1], 1);
    output.render_gui(&frame);
    let messages = output.message_list();
    assert_eq!(messages.len(), 3);
    assert_eq!(messages[0].ty, OutputMessageType::ResetGui);
    assert_eq!(messages[0].params, OutputMessageParams::Empty);
    match messages[1].params {
        OutputMessageParams::GuiTextureUpdate(params) => {
            assert_eq!(params.pixels_offset, 3);
            assert_eq!(params.pixels_size, 8);
            assert_eq!((params.x, params.y, params.width, params.height, params.id), (1, 2, 2, 1, 2));
        },
        _ => panic!("not a texture message"),
    }
    match messages[2].params {
        OutputMessageParams::GuiMeshUpdate(params) => {
            assert_eq!(params.index_offset_bytes, 12);
            assert_eq!(params.index_size_bytes, 12);
            assert_eq!(params.vertex_offset_bytes, 24);
            assert_eq!(params.vertex_size_bytes, 60);
            assert_eq!(params.count, 3);
            assert_eq!(params.texture_id, 2);
        },
        _ => panic!("not a mesh message"),
    }
    assert_eq!(output.data_offset(), 84);
}

#[test]
fn a_step_makes_the_frame_in_the_order_of_the_passes() {
    let mut client = GameClient::new();
    client.data.initialize_terrain(2, 2);
    client.data.assets.atlas.texture.id = 5;
    client.data.add_house(at(0.0, 64.0));
    client.data.add_pawn(
        at(0.0, 8.0),
        rect(0.0, 0.0, 10.0, 20.0),
        AnimationState { x: 0, y: 0, width: 10.0f32.to_bits(), height: 20.0f32.to_bits(), current_frame: 0, max_frame: 4 },
    );
    client.data.world.set_insert_sprite(at(3.0, 3.0), client.data.assets.atlas.house);
    client.data.debug.draw_rect(rect(0.0, 0.0, 1.0, 1.0), 1, [9, 9, 9, 9]);
    client.data.globals.flags.set_update_view_offset();
    client.data.globals.flags.set_update_animations();
    client.data.globals.flags.set_update_gui();
    GameOutput::update(&mut client, frame_rect, depth, to_gpu, cell_at, preview, corners, no_paint);
    let kinds: Vec<OutputMessageType> =
        client.output.message_list().iter().map(|message| message.ty).collect();
    assert_eq!(
        kinds,
        vec![
            OutputMessageType::UpdateViewOffset,
            OutputMessageType::UpdateTerrain,
            OutputMessageType::UpdateSprites,
            OutputMessageType::DrawSprites,
            OutputMessageType::DrawInsertSprite,
            OutputMessageType::DrawDebug,
            OutputMessageType::ResetGui,
        ]
    );
    assert_eq!(client.data.globals.flags, GameFlags(0));
    assert_eq!(client.output.output_index().messages_count, 7);
    assert_eq!(client.output.data_offset(), 4 * 16 + 2 * 36 + 6 * 16 + 48 + 96);
    let pawn = client.data.world.list().into_iter().find(|actor| actor.animation.is_some()).unwrap();
    assert_eq!(pawn.animation.unwrap().current_frame, 1);
    match client.output.message_list()[2].params {
        OutputMessageParams::UpdateSprites(params) => {
            assert_eq!(params.offset_bytes, 64);
            assert_eq!(params.size_bytes, 72);
        },
        _ => panic!("not a sprite message"),
    }
    // The pawn is higher up than the house, so it is drawn first.
    assert_eq!(&client.output.data_block()[64 + 4..64 + 8], &8.0f32.to_le_bytes());
    GameOutput::update(&mut client, frame_rect, depth, to_gpu, cell_at, preview, corners, no_paint);
    let kinds: Vec<OutputMessageType> =
        client.output.message_list().iter().map(|message| message.ty).collect();
    assert_eq!(
        kinds,
        vec![
            OutputMessageType::UpdateSprites,
            OutputMessageType::DrawSprites,
            OutputMessageType::DrawInsertSprite,
            OutputMessageType::DrawDebug,
        ]
    );
    let pawn = client.data.world.list().into_iter().find(|actor| actor.animation.is_some()).unwrap();
    assert_eq!(pawn.animation.unwrap().current_frame, 1);
    assert_eq!(client.output.output_index().messages_count, 4);
}

#[test]
fn a_step_without_anything_to_do_makes_an_empty_frame() {
    let mut client = GameClient::new();
    GameOutput::update(&mut client, frame_rect, depth, to_gpu, cell_at, preview, corners, no_paint);
    assert!(client.output.message_list().is_empty());
    assert_eq!(client.output.data_offset(), 0);
    assert_eq!(client.output.output_index().messages_count, 0);
}
