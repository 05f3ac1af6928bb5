use game_client::output::layout::{pointer_size, FieldDef, FieldKind};
use game_client::output::message::{
    message_stride, DrawDebugParams, DrawInsertSpriteParams, DrawSpritesParams,
    GuiMeshUpdateParams, GuiTextureUpdateParams, OutputMessageType, Params, UpdateSpritesParams,
    UpdateTerrainParams,
};
use game_client::output::protocol::{
    compile, generate_enum, generate_struct, generate_struct_with_custom_fields,
    get_array_function, push_decimal,
};
use game_client::output::OutputIndex;

fn pointer_accessor() -> &'static str {
    if std::mem::size_of::<usize>() == 4 {
        "getUint32"
    } else {
        "getBigInt64"
    }
}

fn expected_class_head(name: &str, size: usize) -> String {
    format!(
        "export class {name} {{\n\n        constructor(buffer, ptr) {{\n            this.view = new DataView(buffer, ptr, {size});\n        }}\n    "
    )
}

fn expected_field(name: &str, accessor: &str, offset: usize) -> String {
    format!(
        "\n            {name}() {{\n                return this.view.{accessor}({offset}, true);\n            }}\n        "
    )
}

fn expected_custom(name: &str, code: &str) -> String {
    format!("\n            {name}() {{ \n                {code}\n            }}\n        ")
}

fn expected_record(name: &str, defs: &[FieldDef]) -> (String, usize) {
    let pointer = std::mem::size_of::<usize>();
    let mut text = String::new();
    let mut offset = 0;
    for def in defs {
        let (accessor, width) = match def.kind {
            FieldKind::Uint32 => ("getUint32", 4),
            FieldKind::Pointer => (pointer_accessor(), pointer),
            FieldKind::Float32 => ("", 4),
        };
        if def.kind != FieldKind::Float32 {
            text.push_str(&expected_field(def.name, accessor, offset));
        }
        offset += width;
    }
    (format!("{}{}", expected_class_head(name, offset), text), offset)
}

fn expected_plain_record(name: &str, defs: &[FieldDef]) -> String {
    format!("{}\n}}\n", expected_record(name, defs).0)
}

#[test]
fn decimal_digits() {
    let mut out = String::from("x");
    push_decimal(&mut out, 0);
    push_decimal(&mut out, 7);
    push_decimal(&mut out, 10);
    push_decimal(&mut out, 4096);
    push_decimal(&mut out, 1234567890);
    assert_eq!(out, "x071040961234567890");
}

#[test]
fn enum_table_text() {
    let mut out = String::new();
    generate_enum(&mut out, "Kind", &[("First", 0), ("Second", 12)]);
    assert_eq!(out, "const Kind = Object.freeze({\n  0: 'First',\n  12: 'Second',\n})\n");
}

#[test]
fn struct_text() {
    let mut out = String::new();
    generate_struct(&mut out, "Pair", 8, &[("a", "getUint32", 0), ("b", "getUint32", 4)]);
    let expected = format!(
        "{}{}{}\n}}\n",
        expected_class_head("Pair", 8),
        expected_field("a", "getUint32", 0),
        expected_field("b", "getUint32", 4)
    );
    assert_eq!(out, expected);
}

#[test]
fn struct_with_custom_fields_text() {
    let mut out = String::from("// head\n");
    generate_struct_with_custom_fields(
        &mut out,
        "Boxed",
        12,
        &[("a", "getUint32", 0)],
        &[("all", "return 1;")],
    );
    let expected = format!(
        "// head\n{}{}{}\n}}\n",
        expected_class_head("Boxed", 12),
        expected_field("a", "getUint32", 0),
        expected_custom("all", "return 1;")
    );
    assert_eq!(out, expected);
}

#[test]
fn array_function_text() {
    assert_eq!(
        get_array_function("getFloat32", 16, 4, 4),
        "return [this.view.getFloat32(16, true),this.view.getFloat32(20, true),this.view.getFloat32(24, true),this.view.getFloat32(28, true),];"
    );
    assert_eq!(get_array_function("getFloat32", 16, 4, 0), "return [];");
}

#[test]
fn protocol_is_the_whole_decoder() {
    let pointer = std::mem::size_of::<usize>();
    assert_eq!(pointer_size(), pointer);
    let mut expected = String::new();
    expected.push_str("const OutputMessageType = Object.freeze({\n");
    for (raw, name) in [
        (0, "UpdateSprites"),
        (1, "DrawSprites"),
        (9, "UpdateHighlightSprites"),
        (10, "HighlightSprites"),
        (2, "UpdateTerrain"),
        (3, "DrawDebug"),
        (4, "GuiTextureUpdate"),
        (5, "GuiMeshUpdate"),
        (6, "ResetGui"),
        (7, "UpdateViewOffset"),
        (8, "DrawInsertSprite"),
    ] {
        expected.push_str(&format!("  {raw}: '{name}',\n"));
    }
    expected.push_str("})\n");
    expected.push_str(&expected_plain_record("OutputIndex", &OutputIndex::defs()));
    expected.push_str(&expected_plain_record("UpdateSpritesParams", &UpdateSpritesParams::defs()));
    expected.push_str(&expected_plain_record("DrawSpritesParams", &DrawSpritesParams::defs()));
    expected.push_str(&expected_plain_record("UpdateTerrainParams", &UpdateTerrainParams::defs()));
    expected.push_str(&expected_plain_record("DrawDebugParams", &DrawDebugParams::defs()));
    expected.push_str(&expected_plain_record(
        "GuiTextureUpdateParams",
        &GuiTextureUpdateParams::defs(),
    ));
    let (mesh, mesh_size) = expected_record("GuiMeshUpdateParams", &GuiMeshUpdateParams::defs());
    assert_eq!(mesh_size, 4 * pointer + 24);
    expected.push_str(&mesh);
    let clip = 4 * pointer;
    expected.push_str(&expected_custom(
        "clip",
        &format!(
            "return [this.view.getFloat32({}, true),this.view.getFloat32({}, true),this.view.getFloat32({}, true),this.view.getFloat32({}, true),];",
            clip,
            clip + 4,
            clip + 8,
            clip + 12
        ),
    ));
    expected.push_str("\n}\n");
    expected.push_str(&expected_plain_record(
        "DrawInsertSpriteParams",
        &DrawInsertSpriteParams::defs(),
    ));
    assert_eq!(message_stride(), 4 + mesh_size);
    expected.push_str(&expected_class_head("OutputMessage", 4 + mesh_size));
    expected.push_str(&expected_field("ty", "getUint32", 0));
    expected.push_str(&expected_custom("name", "return OutputMessageType[this.ty()] || this.ty();"));
    for (name, class) in [
        ("update_sprites", "UpdateSpritesParams"),
        ("draw_sprites", "DrawSpritesParams"),
        ("update_highlight_sprites", "UpdateSpritesParams"),
        ("draw_highlight_sprites", "DrawSpritesParams"),
        ("draw_insert_sprite", "DrawInsertSpriteParams"),
        ("update_terrain", "UpdateTerrainParams"),
        ("draw_debug", "DrawDebugParams"),
        ("gui_texture_update", "GuiTextureUpdateParams"),
        ("gui_mesh_update", "GuiMeshUpdateParams"),
    ] {
        expected.push_str(&expected_custom(
            name,
            &format!("return new {class}(this.view.buffer, this.view.byteOffset + 4);"),
        ));
    }
    expected.push_str(&expected_custom(
        "update_view_offset",
        "return [this.view.getFloat32(4, true), this.view.getFloat32(8, true)];",
    ));
    expected.push_str("\n}\n");
    assert_eq!(compile(), expected);
}

#[test]
fn protocol_is_deterministic() {
    assert_eq!(compile(), compile());
    assert_eq!(game_client::client::protocol(), compile());
}

#[test]
fn message_kinds_keep_their_numbers() {
    assert_eq!(OutputMessageType::UpdateSprites.raw(), 0);
    assert_eq!(OutputMessageType::DrawSprites.raw(), 1);
    assert_eq!(OutputMessageType::UpdateTerrain.raw(), 2);
    assert_eq!(OutputMessageType::DrawDebug.raw(), 3);
    assert_eq!(OutputMessageType::GuiTextureUpdate.raw(), 4);
    assert_eq!(OutputMessageType::GuiMeshUpdate.raw(), 5);
    assert_eq!(OutputMessageType::ResetGui.raw(), 6);
    assert_eq!(OutputMessageType::UpdateViewOffset.raw(), 7);
    assert_eq!(OutputMessageType::DrawInsertSprite.raw(), 8);
    assert_eq!(u32::from(OutputMessageType::HighlightSprites), 10);
    assert_eq!(OutputMessageType::ResetGui.name(), "ResetGui");
}
