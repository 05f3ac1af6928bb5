//! Host-side decoder source, generated from the layout of the output records.

use crate::output::layout::{
    measure, offset_of, pointer_size, pointer_width, record_size, width_of, FieldDef, FieldKind,
};
use crate::output::message::{
    message_size, message_stride, DrawDebugParams, DrawInsertSpriteParams, DrawSpritesParams,
    GuiMeshUpdateParams, GuiTextureUpdateParams, OutputMessageType, Params,
    UpdateSpritesParams, UpdateTerrainParams, PARAMS_OFFSET,
};
use crate::output::OutputIndex;
use vstd::prelude::*;
use vstd::string::StringExecFns;

verus! {

/// The character of the decimal digit `d`.
pub open spec fn digit(d: nat) -> char {
    if d == 0 {
        '0'
    } else if d == 1 {
        '1'
    } else if d == 2 {
        '2'
    } else if d == 3 {
        '3'
    } else if d == 4 {
        '4'
    } else if d == 5 {
        '5'
    } else if d == 6 {
        '6'
    } else if d == 7 {
        '7'
    } else if d == 8 {
        '8'
    } else {
        '9'
    }
}

/// `n` in decimal, without leading zeros.
pub open spec fn decimal(n: nat) -> Seq<char>
    decreases n,
{
    if n < 10 {
        seq![digit(n)]
    } else {
        decimal(n / 10).push(digit(n % 10))
    }
}

fn digit_str(d: usize) -> (s: &'static str)
    requires
        d < 10,
    ensures
        s@ == seq![digit(d as nat)],
{
    proof {
        reveal_strlit("0");
        reveal_strlit("1");
        reveal_strlit("2");
        reveal_strlit("3");
        reveal_strlit("4");
        reveal_strlit("5");
        reveal_strlit("6");
        reveal_strlit("7");
        reveal_strlit("8");
        reveal_strlit("9");
    }
    let s: &'static str = if d == 0 {
        "0"
    } else if d == 1 {
        "1"
    } else if d == 2 {
        "2"
    } else if d == 3 {
        "3"
    } else if d == 4 {
        "4"
    } else if d == 5 {
        "5"
    } else if d == 6 {
        "6"
    } else if d == 7 {
        "7"
    } else if d == 8 {
        "8"
    } else {
        "9"
    };
    assert(s@ =~= seq![digit(d as nat)]);
    s
}

/// Appends `n` in decimal.
pub fn push_decimal(out: &mut String, n: usize)
    ensures
        final(out)@ == old(out)@ + decimal(n as nat),
    decreases n,
{
    if n >= 10 {
        push_decimal(out, n / 10);
    }
    out.append(digit_str(n % 10));
    assert(out@ =~= old(out)@ + decimal(n as nat));
}

/// One line of the discriminant table.
pub open spec fn enum_entry_text(name: Seq<char>, raw: u32) -> Seq<char> {
    "  "@ + decimal(raw as nat) + ": '"@ + name + "',\n"@
}

/// The first `n` lines of the discriminant table.
pub open spec fn enum_entries_text(fields: Seq<(Seq<char>, u32)>, n: nat) -> Seq<char>
    decreases n,
{
    if n == 0 {
        Seq::empty()
    } else {
        enum_entries_text(fields, (n - 1) as nat) + enum_entry_text(
            fields[n - 1].0,
            fields[n - 1].1,
        )
    }
}

/// A frozen table from raw discriminant to symbolic name.
pub open spec fn enum_text(name: Seq<char>, fields: Seq<(Seq<char>, u32)>) -> Seq<char> {
    "const "@ + name + " = Object.freeze({\n"@ + enum_entries_text(fields, fields.len())
        + "})\n"@
}

/// The names and numbers of a table, as text and numbers.
pub open spec fn enum_views(fields: Seq<(&str, u32)>) -> Seq<(Seq<char>, u32)> {
    Seq::new(fields.len(), |i: int| (fields[i].0@, fields[i].1))
}

/// The names, accessors and offsets of fields, as text and numbers.
pub open spec fn field_views(fields: Seq<(&str, &str, usize)>) -> Seq<(Seq<char>, Seq<char>, nat)> {
    Seq::new(fields.len(), |i: int| (fields[i].0@, fields[i].1@, fields[i].2 as nat))
}

/// The names and bodies of methods, as text.
pub open spec fn custom_views(fields: Seq<(&str, &str)>) -> Seq<(Seq<char>, Seq<char>)> {
    Seq::new(fields.len(), |i: int| (fields[i].0@, fields[i].1@))
}

/// Appends a table that maps each raw discriminant to its name.
pub fn generate_enum(out: &mut String, name: &str, fields: &[(&str, u32)])
    ensures
        final(out)@ == old(out)@ + enum_text(name@, enum_views(fields@)),
{
    out.append("const ");
    out.append(name);
    out.append(" = Object.freeze({\n");
    let ghost head = "const "@ + name@ + " = Object.freeze({\n"@;
    assert(out@ =~= old(out)@ + head);
    let mut i: usize = 0;
    while i < fields.len()
        invariant
            i <= fields.len(),
            out@ == old(out)@ + (head + enum_entries_text(enum_views(fields@), i as nat)),
        decreases fields.len() - i,
    {
        let (field_name, raw) = fields[i];
        let ghost before = out@;
        out.append("  ");
        push_decimal(out, raw as usize);
        out.append(": '");
        out.append(field_name);
        out.append("',\n");
        assert(out@ =~= before + enum_entry_text(field_name@, raw));
        i = i + 1;
        assert(out@ =~= old(out)@ + (head + enum_entries_text(enum_views(fields@), i as nat)));
    }
    out.append("})\n");
    assert(out@ =~= old(out)@ + enum_text(name@, enum_views(fields@)));
}

/// The opening of a view class: its name and its constructor.
pub open spec fn class_head_text(name: Seq<char>, size: nat) -> Seq<char> {
    "export class "@ + name + " {\n"@
        + "\n        constructor(buffer, ptr) {\n            this.view = new DataView(buffer, ptr, "@
        + decimal(size) + ");\n        }\n    "@
}

/// The accessor method of one field.
pub open spec fn field_text(name: Seq<char>, accessor: Seq<char>, offset: nat) -> Seq<char> {
    "\n            "@ + name + "() {\n                return this.view."@ + accessor + "("@
        + decimal(offset) + ", true);\n            }\n        "@
}

/// The accessor methods of the first `n` fields.
pub open spec fn fields_text(fields: Seq<(Seq<char>, Seq<char>, nat)>, n: nat) -> Seq<char>
    decreases n,
{
    if n == 0 {
        Seq::empty()
    } else {
        fields_text(fields, (n - 1) as nat) + field_text(
            fields[n - 1].0,
            fields[n - 1].1,
            fields[n - 1].2,
        )
    }
}

/// A method whose body is given as text.
pub open spec fn custom_field_text(name: Seq<char>, code: Seq<char>) -> Seq<char> {
    "\n            "@ + name + "() { \n                "@ + code
        + "\n            }\n        "@
}

/// The first `n` methods whose bodies are given as text.
pub open spec fn custom_fields_text(fields: Seq<(Seq<char>, Seq<char>)>, n: nat) -> Seq<char>
    decreases n,
{
    if n == 0 {
        Seq::empty()
    } else {
        custom_fields_text(fields, (n - 1) as nat) + custom_field_text(
            fields[n - 1].0,
            fields[n - 1].1,
        )
    }
}

/// A view class over a record of plain fields.
pub open spec fn struct_text(
    name: Seq<char>,
    size: nat,
    fields: Seq<(Seq<char>, Seq<char>, nat)>,
) -> Seq<char> {
    class_head_text(name, size) + fields_text(fields, fields.len()) + "\n}\n"@
}

/// A view class with plain fields first and hand-written methods after them.
pub open spec fn custom_struct_text(
    name: Seq<char>,
    size: nat,
    fields: Seq<(Seq<char>, Seq<char>, nat)>,
    custom_fields: Seq<(Seq<char>, Seq<char>)>,
) -> Seq<char> {
    class_head_text(name, size) + fields_text(fields, fields.len()) + custom_fields_text(
        custom_fields,
        custom_fields.len(),
    ) + "\n}\n"@
}

fn generate_class_head(out: &mut String, name: &str, size: usize)
    ensures
        final(out)@ == old(out)@ + class_head_text(name@, size as nat),
{
    out.append("export class ");
    out.append(name);
    out.append(" {\n");
    out.append(
        "\n        constructor(buffer, ptr) {\n            this.view = new DataView(buffer, ptr, ",
    );
    push_decimal(out, size);
    out.append(");\n        }\n    ");
    assert(out@ =~= old(out)@ + class_head_text(name@, size as nat));
}

fn generate_fields(out: &mut String, fields: &[(&str, &str, usize)])
    ensures
        final(out)@ == old(out)@ + fields_text(field_views(fields@), fields@.len()),
{
    let mut i: usize = 0;
    assert(out@ =~= old(out)@ + fields_text(field_views(fields@), 0));
    while i < fields.len()
        invariant
            i <= fields.len(),
            out@ == old(out)@ + fields_text(field_views(fields@), i as nat),
        decreases fields.len() - i,
    {
        let (field_name, accessor, offset) = fields[i];
        let ghost before = out@;
        out.append("\n            ");
        out.append(field_name);
        out.append("() {\n                return this.view.");
        out.append(accessor);
        out.append("(");
        push_decimal(out, offset);
        out.append(", true);\n            }\n        ");
        assert(out@ =~= before + field_text(field_name@, accessor@, offset as nat));
        i = i + 1;
        assert(out@ =~= old(out)@ + fields_text(field_views(fields@), i as nat));
    }
}

/// Appends a view class that reads each field at its offset.
pub fn generate_struct(out: &mut String, name: &str, size: usize, fields: &[(&str, &str, usize)])
    ensures
        final(out)@ == old(out)@ + struct_text(name@, size as nat, field_views(fields@)),
{
    generate_class_head(out, name, size);
    generate_fields(out, fields);
    out.append("\n}\n");
    assert(out@ =~= old(out)@ + struct_text(name@, size as nat, field_views(fields@)));
}

/// Appends a view class that has, after its plain fields, the methods given
/// as text.
pub fn generate_struct_with_custom_fields(
    out: &mut String,
    name: &str,
    size: usize,
    fields: &[(&str, &str, usize)],
    custom_fields: &[(&str, &str)],
)
    ensures
        final(out)@ == old(out)@ + custom_struct_text(
            name@,
            size as nat,
            field_views(fields@),
            custom_views(custom_fields@),
        ),
{
    generate_class_head(out, name, size);
    generate_fields(out, fields);
    let ghost head = class_head_text(name@, size as nat) + fields_text(
        field_views(fields@),
        fields@.len(),
    );
    assert(out@ =~= old(out)@ + (head + custom_fields_text(custom_views(custom_fields@), 0)));
    let mut i: usize = 0;
    while i < custom_fields.len()
        invariant
            i <= custom_fields.len(),
            out@ == old(out)@ + (head + custom_fields_text(custom_views(custom_fields@), i as nat)),
        decreases custom_fields.len() - i,
    {
        let (field_name, code) = custom_fields[i];
        let ghost before = out@;
        out.append("\n            ");
        out.append(field_name);
        out.append("() { \n                ");
        out.append(code);
        out.append("\n            }\n        ");
        assert(out@ =~= before + custom_field_text(field_name@, code@));
        i = i + 1;
        assert(out@ =~= old(out)@ + (head + custom_fields_text(
            custom_views(custom_fields@),
            i as nat,
        )));
    }
    out.append("\n}\n");
    assert(out@ =~= old(out)@ + custom_struct_text(
        name@,
        size as nat,
        field_views(fields@),
        custom_views(custom_fields@),
    ));
}

/// The reads of the first `n` items of an array.
pub open spec fn array_items_text(
    accessor: Seq<char>,
    base_offset: nat,
    item_size: nat,
    n: nat,
) -> Seq<char>
    decreases n,
{
    if n == 0 {
        Seq::empty()
    } else {
        array_items_text(accessor, base_offset, item_size, (n - 1) as nat) + "this.view."@
            + accessor + "("@ + decimal((base_offset + (n - 1) * item_size) as nat) + ", true),"@
    }
}

/// A method body that reads an array of `item_count` items, item by item.
pub open spec fn array_function_text(
    accessor: Seq<char>,
    base_offset: nat,
    item_size: nat,
    item_count: nat,
) -> Seq<char> {
    "return ["@ + array_items_text(accessor, base_offset, item_size, item_count) + "];"@
}

/// The body of a method that returns the items of an array field.
pub fn get_array_function(
    accessor: &str,
    base_offset: usize,
    item_size: usize,
    item_count: usize,
) -> (out: String)
    requires
        base_offset + item_size * item_count <= usize::MAX,
    ensures
        out@ == array_function_text(
            accessor@,
            base_offset as nat,
            item_size as nat,
            item_count as nat,
        ),
{
    let mut out = String::new();
    out.append("return [");
    let ghost head = "return ["@;
    assert(out@ =~= head + array_items_text(accessor@, base_offset as nat, item_size as nat, 0));
    let mut i: usize = 0;
    while i < item_count
        invariant
            i <= item_count,
            base_offset + item_size * item_count <= usize::MAX,
            out@ == head + array_items_text(
                accessor@,
                base_offset as nat,
                item_size as nat,
                i as nat,
            ),
        decreases item_count - i,
    {
        assert(i * item_size <= item_size * item_count) by (nonlinear_arith)
            requires
                i < item_count,
        ;
        let offset: usize = base_offset + i * item_size;
        let ghost before = out@;
        out.append("this.view.");
        out.append(accessor);
        out.append("(");
        push_decimal(&mut out, offset);
        out.append(", true),");
        i = i + 1;
        assert(out@ =~= head + array_items_text(
            accessor@,
            base_offset as nat,
            item_size as nat,
            i as nat,
        ));
    }
    out.append("];");
    assert(out@ =~= array_function_text(
        accessor@,
        base_offset as nat,
        item_size as nat,
        item_count as nat,
    ));
    out
}

/// The name of the host's read for a field of the given kind.
pub open spec fn accessor_text(kind: FieldKind, pointer: nat) -> Seq<char> {
    match kind {
        FieldKind::Uint32 => "getUint32"@,
        FieldKind::Float32 => "getFloat32"@,
        FieldKind::Pointer => if pointer == 4 {
            "getUint32"@
        } else {
            "getBigInt64"@
        },
    }
}

/// The plain fields among the first `n`, each with its read and its offset.
/// Floating point fields are left to hand-written methods.
pub open spec fn accessor_fields(defs: Seq<FieldDef>, n: nat, pointer: nat) -> Seq<
    (Seq<char>, Seq<char>, nat),
>
    decreases n,
{
    if n == 0 {
        Seq::empty()
    } else {
        let rest = accessor_fields(defs, (n - 1) as nat, pointer);
        let def = defs[n - 1];
        if def.kind == FieldKind::Float32 {
            rest
        } else {
            rest.push(
                (def.name@, accessor_text(def.kind, pointer), offset_of(
                    defs,
                    (n - 1) as nat,
                    pointer,
                )),
            )
        }
    }
}

/// The view class of a record, from its description.
pub open spec fn record_text(name: Seq<char>, defs: Seq<FieldDef>, pointer: nat) -> Seq<char> {
    struct_text(name, record_size(defs, pointer), accessor_fields(defs, defs.len(), pointer))
}

/// The kinds of message, in the order of the table.
pub open spec fn message_type_table() -> Seq<OutputMessageType> {
    seq![
        OutputMessageType::UpdateSprites,
        OutputMessageType::DrawSprites,
        OutputMessageType::UpdateHighlightSprites,
        OutputMessageType::HighlightSprites,
        OutputMessageType::UpdateTerrain,
        OutputMessageType::DrawDebug,
        OutputMessageType::GuiTextureUpdate,
        OutputMessageType::GuiMeshUpdate,
        OutputMessageType::ResetGui,
        OutputMessageType::UpdateViewOffset,
        OutputMessageType::DrawInsertSprite,
    ]
}

/// The lines of the table: each kind's name and number.
pub open spec fn message_type_entries() -> Seq<(Seq<char>, u32)> {
    Seq::new(
        message_type_table().len(),
        |i: int| (message_type_table()[i].spec_name()@, message_type_table()[i].spec_raw()),
    )
}

/// A method body that hands out the parameters of a message as a view of the
/// class `class`.
pub open spec fn params_view_text(class: Seq<char>) -> Seq<char> {
    "return new "@ + class + "(this.view.buffer, this.view.byteOffset + "@ + decimal(
        PARAMS_OFFSET as nat,
    ) + ");"@
}

/// The hand-written methods of the message class: the name of the kind, and
/// one view of the parameters for each kind that has any.
pub open spec fn message_methods() -> Seq<(Seq<char>, Seq<char>)> {
    seq![
        ("name"@, "return OutputMessageType[this.ty()] || this.ty();"@),
        ("update_sprites"@, params_view_text("UpdateSpritesParams"@)),
        ("draw_sprites"@, params_view_text("DrawSpritesParams"@)),
        ("update_highlight_sprites"@, params_view_text("UpdateSpritesParams"@)),
        ("draw_highlight_sprites"@, params_view_text("DrawSpritesParams"@)),
        ("draw_insert_sprite"@, params_view_text("DrawInsertSpriteParams"@)),
        ("update_terrain"@, params_view_text("UpdateTerrainParams"@)),
        ("draw_debug"@, params_view_text("DrawDebugParams"@)),
        ("gui_texture_update"@, params_view_text("GuiTextureUpdateParams"@)),
        ("gui_mesh_update"@, params_view_text("GuiMeshUpdateParams"@)),
        (
            "update_view_offset"@,
            "return [this.view.getFloat32(4, true), this.view.getFloat32(8, true)];"@,
        ),
    ]
}

/// The hand-written method of the panel mesh record: its clip rectangle, the
/// four floating point fields that begin at field 4.
pub open spec fn mesh_methods(pointer: nat) -> Seq<(Seq<char>, Seq<char>)> {
    seq![
        (
            "clip"@,
            array_function_text(
                "getFloat32"@,
                offset_of(GuiMeshUpdateParams::spec_defs(), 4, pointer),
                4,
                4,
            ),
        ),
    ]
}

/// The whole decoder source for a guest whose pointers are `pointer` bytes
/// wide: the table of message kinds, a view class for the index record and
/// for each parameter record, and the message class.
pub open spec fn protocol_text(pointer: nat) -> Seq<char> {
    enum_text("OutputMessageType"@, message_type_entries()) + record_text(
        "OutputIndex"@,
        OutputIndex::spec_defs(),
        pointer,
    ) + record_text("UpdateSpritesParams"@, UpdateSpritesParams::spec_defs(), pointer)
        + record_text("DrawSpritesParams"@, DrawSpritesParams::spec_defs(), pointer)
        + record_text("UpdateTerrainParams"@, UpdateTerrainParams::spec_defs(), pointer)
        + record_text("DrawDebugParams"@, DrawDebugParams::spec_defs(), pointer) + record_text(
        "GuiTextureUpdateParams"@,
        GuiTextureUpdateParams::spec_defs(),
        pointer,
    ) + custom_struct_text(
        "GuiMeshUpdateParams"@,
        record_size(GuiMeshUpdateParams::spec_defs(), pointer),
        accessor_fields(
            GuiMeshUpdateParams::spec_defs(),
            GuiMeshUpdateParams::spec_defs().len(),
            pointer,
        ),
        mesh_methods(pointer),
    ) + record_text("DrawInsertSpriteParams"@, DrawInsertSpriteParams::spec_defs(), pointer)
        + custom_struct_text(
        "OutputMessage"@,
        message_size(pointer),
        seq![("ty"@, "getUint32"@, 0nat)],
        message_methods(),
    )
}

/// The name of the host's read for a field of the given kind, in this build.
pub fn accessor_name(kind: FieldKind) -> (name: &'static str)
    ensures
        name@ == accessor_text(kind, pointer_width()),
{
    match kind {
        FieldKind::Uint32 => "getUint32",
        FieldKind::Float32 => "getFloat32",
        FieldKind::Pointer => if pointer_size() == 4 {
            "getUint32"
        } else {
            "getBigInt64"
        },
    }
}

/// The plain fields of a record, each with its read and its offset.
pub fn accessors(defs: &[FieldDef]) -> (fields: Vec<(&'static str, &'static str, usize)>)
    requires
        8 * defs@.len() <= usize::MAX,
    ensures
        field_views(fields@) == accessor_fields(defs@, defs@.len(), pointer_width()),
{
    let mut fields: Vec<(&'static str, &'static str, usize)> = Vec::new();
    let mut offset: usize = 0;
    let mut i: usize = 0;
    assert(field_views(fields@) =~= accessor_fields(defs@, 0, pointer_width()));
    while i < defs.len()
        invariant
            i <= defs.len(),
            8 * defs@.len() <= usize::MAX,
            offset == offset_of(defs@, i as nat, pointer_width()),
            offset <= 8 * i,
            field_views(fields@) == accessor_fields(defs@, i as nat, pointer_width()),
        decreases defs.len() - i,
    {
        let def = defs[i];
        if def.kind != FieldKind::Float32 {
            fields.push((def.name, accessor_name(def.kind), offset));
        }
        offset = offset + width_of(def.kind);
        i = i + 1;
        assert(field_views(fields@) =~= accessor_fields(defs@, i as nat, pointer_width()));
    }
    fields
}

fn generate_record(out: &mut String, name: &str, defs: &[FieldDef])
    requires
        8 * defs@.len() <= usize::MAX,
    ensures
        final(out)@ == old(out)@ + record_text(name@, defs@, pointer_width()),
{
    let fields = accessors(defs);
    generate_struct(out, name, measure(defs), fields.as_slice());
}

fn params_view_code(class: &str) -> (code: String)
    ensures
        code@ == params_view_text(class@),
{
    let mut code = String::new();
    code.append("return new ");
    code.append(class);
    code.append("(this.view.buffer, this.view.byteOffset + ");
    push_decimal(&mut code, PARAMS_OFFSET);
    code.append(");");
    assert(code@ =~= params_view_text(class@));
    code
}

fn message_type_lines() -> (lines: Vec<(&'static str, u32)>)
    ensures
        enum_views(lines@) == message_type_entries(),
{
    let table: [OutputMessageType; 11] = [
        OutputMessageType::UpdateSprites,
        OutputMessageType::DrawSprites,
        OutputMessageType::UpdateHighlightSprites,
        OutputMessageType::HighlightSprites,
        OutputMessageType::UpdateTerrain,
        OutputMessageType::DrawDebug,
        OutputMessageType::GuiTextureUpdate,
        OutputMessageType::GuiMeshUpdate,
        OutputMessageType::ResetGui,
        OutputMessageType::UpdateViewOffset,
        OutputMessageType::DrawInsertSprite,
    ];
    assert(table@ =~= message_type_table());
    let mut lines: Vec<(&'static str, u32)> = Vec::new();
    let mut i: usize = 0;
    while i < 11
        invariant
            i <= 11,
            table@ == message_type_table(),
            lines@.len() == i,
            forall|j: int|
                0 <= j < i ==> lines@[j] == (
                    #[trigger] message_type_table()[j].spec_name(),
                    message_type_table()[j].spec_raw(),
                ),
        decreases 11 - i,
    {
        lines.push((table[i].name(), table[i].raw()));
        i = i + 1;
    }
    assert(enum_views(lines@) =~= message_type_entries());
    lines
}

fn generate_mesh_record(out: &mut String)
    ensures
        final(out)@ == old(out)@ + custom_struct_text(
            "GuiMeshUpdateParams"@,
            record_size(GuiMeshUpdateParams::spec_defs(), pointer_width()),
            accessor_fields(
                GuiMeshUpdateParams::spec_defs(),
                GuiMeshUpdateParams::spec_defs().len(),
                pointer_width(),
            ),
            mesh_methods(pointer_width()),
        ),
{
    let defs = GuiMeshUpdateParams::defs();
    let fields = accessors(defs.as_slice());
    let clip_offset: usize = 4 * pointer_size();
    assert(clip_offset == offset_of(GuiMeshUpdateParams::spec_defs(), 4, pointer_width())) by {
        reveal_with_fuel(offset_of, 5);
    }
    let clip = get_array_function("getFloat32", clip_offset, 4, 4);
    let custom: Vec<(&str, &str)> = vec![("clip", clip.as_str())];
    assert(custom_views(custom@) =~= mesh_methods(pointer_width()));
    generate_struct_with_custom_fields(
        out,
        "GuiMeshUpdateParams",
        measure(defs.as_slice()),
        fields.as_slice(),
        custom.as_slice(),
    );
}

fn generate_message_record(out: &mut String)
    ensures
        final(out)@ == old(out)@ + custom_struct_text(
            "OutputMessage"@,
            message_size(pointer_width()),
            seq![("ty"@, "getUint32"@, 0nat)],
            message_methods(),
        ),
{
    let update_sprites = params_view_code("UpdateSpritesParams");
    let draw_sprites = params_view_code("DrawSpritesParams");
    let draw_insert_sprite = params_view_code("DrawInsertSpriteParams");
    let update_terrain = params_view_code("UpdateTerrainParams");
    let draw_debug = params_view_code("DrawDebugParams");
    let gui_texture_update = params_view_code("GuiTextureUpdateParams");
    let gui_mesh_update = params_view_code("GuiMeshUpdateParams");
    let fields: Vec<(&str, &str, usize)> = vec![("ty", "getUint32", 0)];
    let custom: Vec<(&str, &str)> = vec![
        ("name", "return OutputMessageType[this.ty()] || this.ty();"),
        ("update_sprites", update_sprites.as_str()),
        ("draw_sprites", draw_sprites.as_str()),
        ("update_highlight_sprites", update_sprites.as_str()),
        ("draw_highlight_sprites", draw_sprites.as_str()),
        ("draw_insert_sprite", draw_insert_sprite.as_str()),
        ("update_terrain", update_terrain.as_str()),
        ("draw_debug", draw_debug.as_str()),
        ("gui_texture_update", gui_texture_update.as_str()),
        ("gui_mesh_update", gui_mesh_update.as_str()),
        (
            "update_view_offset",
            "return [this.view.getFloat32(4, true), this.view.getFloat32(8, true)];",
        ),
    ];
    assert(custom_views(custom@) =~= message_methods());
    assert(field_views(fields@) =~= seq![("ty"@, "getUint32"@, 0nat)]);
    generate_struct_with_custom_fields(
        out,
        "OutputMessage",
        message_stride(),
        fields.as_slice(),
        custom.as_slice(),
    );
}

/// The decoder source for the host, generated from the record descriptions
/// that the writer on this side goes by.
pub fn compile() -> (source: String)
    ensures
        source@ == protocol_text(pointer_width()),
{
    let mut source = String::new();
    let lines = message_type_lines();
    generate_enum(&mut source, "OutputMessageType", lines.as_slice());
    assert(source@ =~= enum_text("OutputMessageType"@, message_type_entries()));
    generate_record(&mut source, "OutputIndex", OutputIndex::defs().as_slice());
    generate_record(&mut source, "UpdateSpritesParams", UpdateSpritesParams::defs().as_slice());
    generate_record(&mut source, "DrawSpritesParams", DrawSpritesParams::defs().as_slice());
    generate_record(&mut source, "UpdateTerrainParams", UpdateTerrainParams::defs().as_slice());
    generate_record(&mut source, "DrawDebugParams", DrawDebugParams::defs().as_slice());
    generate_record(
        &mut source,
        "GuiTextureUpdateParams",
        GuiTextureUpdateParams::defs().as_slice(),
    );
    generate_mesh_record(&mut source);
    generate_record(
        &mut source,
        "DrawInsertSpriteParams",
        DrawInsertSpriteParams::defs().as_slice(),
    );
    generate_message_record(&mut source);
    source
}

} // verus!
