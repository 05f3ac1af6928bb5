//! The messages of a frame and the parameter record of each.
//!
//! A message is a discriminant and a block of parameters. The parameters are
//! plain numbers: payloads of variable length lie in the data arena, and a
//! message points at them by offset and size.

use crate::bytes::{u32_bytes, zeros};
use crate::arena::Arena;
use crate::output::layout::{
    lemma_values_bytes_len, measure, offset_of, pointer_width, record_bytes, record_size,
    values_match, write_values, FieldDef, FieldKind, FieldValue,
};
use crate::shared::PositionF32;
use vstd::prelude::*;

verus! {

/// A record that the host reads in place.
pub trait Params: Sized {
    /// The fields, in the order in which they are laid out.
    spec fn spec_defs() -> Seq<FieldDef>;

    /// The values of the fields, in the same order.
    spec fn spec_values(&self) -> Seq<FieldValue>;

    /// Every value is of the kind that its field declares.
    proof fn lemma_values_match(&self)
        ensures
            values_match(Self::spec_defs(), self.spec_values()),
            Self::spec_defs().len() <= 16,
    ;

    /// The fields, in the order in which they are laid out.
    fn defs() -> (defs: Vec<FieldDef>)
        ensures
            defs@ == Self::spec_defs(),
    ;

    /// The values of the fields, in the same order.
    fn values(&self) -> (values: Vec<FieldValue>)
        ensures
            values@ == self.spec_values(),
    ;
}

/// The host copies `size_bytes` from `offset_bytes` of the data arena into its
/// sprite instance buffer.
#[derive(Copy, Clone, Debug, PartialEq, Eq, Structural)]
pub struct UpdateSpritesParams {
    /// The offset in the data arena.
    pub offset_bytes: usize,
    /// The size to copy.
    pub size_bytes: usize,
}

impl Params for UpdateSpritesParams {
    open spec fn spec_defs() -> Seq<FieldDef> {
        seq![
            FieldDef { name: "offset_bytes", kind: FieldKind::Pointer },
            FieldDef { name: "size_bytes", kind: FieldKind::Pointer },
        ]
    }

    open spec fn spec_values(&self) -> Seq<FieldValue> {
        seq![
            FieldValue::Pointer(self.offset_bytes),
            FieldValue::Pointer(self.size_bytes),
        ]
    }

    proof fn lemma_values_match(&self) {
    }

    fn defs() -> (defs: Vec<FieldDef>) {
        vec![
            FieldDef { name: "offset_bytes", kind: FieldKind::Pointer },
            FieldDef { name: "size_bytes", kind: FieldKind::Pointer },
        ]
    }

    fn values(&self) -> (values: Vec<FieldValue>) {
        vec![
            FieldValue::Pointer(self.offset_bytes),
            FieldValue::Pointer(self.size_bytes),
        ]
    }
}

/// The host draws `instance_count` sprites from `instance_base` on, with the
/// texture `texture_id`, out of what the last sprite update brought.
#[derive(Copy, Clone, Debug, PartialEq, Eq, Structural)]
pub struct DrawSpritesParams {
    pub instance_base: u32,
    pub instance_count: u32,
    pub texture_id: u32,
}

impl Params for DrawSpritesParams {
    open spec fn spec_defs() -> Seq<FieldDef> {
        seq![
            FieldDef { name: "instance_base", kind: FieldKind::Uint32 },
            FieldDef { name: "instance_count", kind: FieldKind::Uint32 },
            FieldDef { name: "texture_id", kind: FieldKind::Uint32 },
        ]
    }

    open spec fn spec_values(&self) -> Seq<FieldValue> {
        seq![
            FieldValue::Uint32(self.instance_base),
            FieldValue::Uint32(self.instance_count),
            FieldValue::Uint32(self.texture_id),
        ]
    }

    proof fn lemma_values_match(&self) {
    }

    fn defs() -> (defs: Vec<FieldDef>) {
        vec![
            FieldDef { name: "instance_base", kind: FieldKind::Uint32 },
            FieldDef { name: "instance_count", kind: FieldKind::Uint32 },
            FieldDef { name: "texture_id", kind: FieldKind::Uint32 },
        ]
    }

    fn values(&self) -> (values: Vec<FieldValue>) {
        vec![
            FieldValue::Uint32(self.instance_base),
            FieldValue::Uint32(self.instance_count),
            FieldValue::Uint32(self.texture_id),
        ]
    }
}

/// The host copies the records of `cell_count` terrain cells from the data
/// arena.
#[derive(Copy, Clone, Debug, PartialEq, Eq, Structural)]
pub struct UpdateTerrainParams {
    pub offset_bytes: usize,
    pub size_bytes: usize,
    pub cell_count: usize,
}

impl Params for UpdateTerrainParams {
    open spec fn spec_defs() -> Seq<FieldDef> {
        seq![
            FieldDef { name: "offset_bytes", kind: FieldKind::Pointer },
            FieldDef { name: "size_bytes", kind: FieldKind::Pointer },
            FieldDef { name: "cell_count", kind: FieldKind::Pointer },
        ]
    }

    open spec fn spec_values(&self) -> Seq<FieldValue> {
        seq![
            FieldValue::Pointer(self.offset_bytes),
            FieldValue::Pointer(self.size_bytes),
            FieldValue::Pointer(self.cell_count),
        ]
    }

    proof fn lemma_values_match(&self) {
    }

    fn defs() -> (defs: Vec<FieldDef>) {
        vec![
            FieldDef { name: "offset_bytes", kind: FieldKind::Pointer },
            FieldDef { name: "size_bytes", kind: FieldKind::Pointer },
            FieldDef { name: "cell_count", kind: FieldKind::Pointer },
        ]
    }

    fn values(&self) -> (values: Vec<FieldValue>) {
        vec![
            FieldValue::Pointer(self.offset_bytes),
            FieldValue::Pointer(self.size_bytes),
            FieldValue::Pointer(self.cell_count),
        ]
    }
}

/// The host draws the debug overlay: `count` indices out of an index block and
/// a vertex block in the data arena.
#[derive(Copy, Clone, Debug, PartialEq, Eq, Structural)]
pub struct DrawDebugParams {
    pub index_offset_bytes: usize,
    pub index_size_bytes: usize,
    pub vertex_offset_bytes: usize,
    pub vertex_size_bytes: usize,
    pub count: usize,
}

impl Params for DrawDebugParams {
    open spec fn spec_defs() -> Seq<FieldDef> {
        seq![
            FieldDef { name: "index_offset_bytes", kind: FieldKind::Pointer },
            FieldDef { name: "index_size_bytes", kind: FieldKind::Pointer },
            FieldDef { name: "vertex_offset_bytes", kind: FieldKind::Pointer },
            FieldDef { name: "vertex_size_bytes", kind: FieldKind::Pointer },
            FieldDef { name: "count", kind: FieldKind::Pointer },
        ]
    }

    open spec fn spec_values(&self) -> Seq<FieldValue> {
        seq![
            FieldValue::Pointer(self.index_offset_bytes),
            FieldValue::Pointer(self.index_size_bytes),
            FieldValue::Pointer(self.vertex_offset_bytes),
            FieldValue::Pointer(self.vertex_size_bytes),
            FieldValue::Pointer(self.count),
        ]
    }

    proof fn lemma_values_match(&self) {
    }

    fn defs() -> (defs: Vec<FieldDef>) {
        vec![
            FieldDef { name: "index_offset_bytes", kind: FieldKind::Pointer },
            FieldDef { name: "index_size_bytes", kind: FieldKind::Pointer },
            FieldDef { name: "vertex_offset_bytes", kind: FieldKind::Pointer },
            FieldDef { name: "vertex_size_bytes", kind: FieldKind::Pointer },
            FieldDef { name: "count", kind: FieldKind::Pointer },
        ]
    }

    fn values(&self) -> (values: Vec<FieldValue>) {
        vec![
            FieldValue::Pointer(self.index_offset_bytes),
            FieldValue::Pointer(self.index_size_bytes),
            FieldValue::Pointer(self.vertex_offset_bytes),
            FieldValue::Pointer(self.vertex_size_bytes),
            FieldValue::Pointer(self.count),
        ]
    }
}

/// The host uploads the pixels of a rectangle of the panel texture `id`.
#[derive(Copy, Clone, Debug, PartialEq, Eq, Structural)]
pub struct GuiTextureUpdateParams {
    pub pixels_offset: usize,
    pub pixels_size: usize,
    pub x: u32,
    pub y: u32,
    pub width: u32,
    pub height: u32,
    pub id: u32,
}

impl Params for GuiTextureUpdateParams {
    open spec fn spec_defs() -> Seq<FieldDef> {
        seq![
            FieldDef { name: "pixels_offset", kind: FieldKind::Pointer },
            FieldDef { name: "pixels_size", kind: FieldKind::Pointer },
            FieldDef { name: "x", kind: FieldKind::Uint32 },
            FieldDef { name: "y", kind: FieldKind::Uint32 },
            FieldDef { name: "width", kind: FieldKind::Uint32 },
            FieldDef { name: "height", kind: FieldKind::Uint32 },
            FieldDef { name: "id", kind: FieldKind::Uint32 },
        ]
    }

    open spec fn spec_values(&self) -> Seq<FieldValue> {
        seq![
            FieldValue::Pointer(self.pixels_offset),
            FieldValue::Pointer(self.pixels_size),
            FieldValue::Uint32(self.x),
            FieldValue::Uint32(self.y),
            FieldValue::Uint32(self.width),
            FieldValue::Uint32(self.height),
            FieldValue::Uint32(self.id),
        ]
    }

    proof fn lemma_values_match(&self) {
    }

    fn defs() -> (defs: Vec<FieldDef>) {
        vec![
            FieldDef { name: "pixels_offset", kind: FieldKind::Pointer },
            FieldDef { name: "pixels_size", kind: FieldKind::Pointer },
            FieldDef { name: "x", kind: FieldKind::Uint32 },
            FieldDef { name: "y", kind: FieldKind::Uint32 },
            FieldDef { name: "width", kind: FieldKind::Uint32 },
            FieldDef { name: "height", kind: FieldKind::Uint32 },
            FieldDef { name: "id", kind: FieldKind::Uint32 },
        ]
    }

    fn values(&self) -> (values: Vec<FieldValue>) {
        vec![
            FieldValue::Pointer(self.pixels_offset),
            FieldValue::Pointer(self.pixels_size),
            FieldValue::Uint32(self.x),
            FieldValue::Uint32(self.y),
            FieldValue::Uint32(self.width),
            FieldValue::Uint32(self.height),
            FieldValue::Uint32(self.id),
        ]
    }
}

/// The host draws the preview of the sprite that is about to be placed: six
/// vertices in the data arena.
#[derive(Copy, Clone, Debug, PartialEq, Eq, Structural)]
pub struct DrawInsertSpriteParams {
    pub vertex_offset_bytes: usize,
    pub vertex_size_bytes: usize,
}

impl Params for DrawInsertSpriteParams {
    open spec fn spec_defs() -> Seq<FieldDef> {
        seq![
            FieldDef { name: "vertex_offset_bytes", kind: FieldKind::Pointer },
            FieldDef { name: "vertex_size_bytes", kind: FieldKind::Pointer },
        ]
    }

    open spec fn spec_values(&self) -> Seq<FieldValue> {
        seq![
            FieldValue::Pointer(self.vertex_offset_bytes),
            FieldValue::Pointer(self.vertex_size_bytes),
        ]
    }

    proof fn lemma_values_match(&self) {
    }

    fn defs() -> (defs: Vec<FieldDef>) {
        vec![
            FieldDef { name: "vertex_offset_bytes", kind: FieldKind::Pointer },
            FieldDef { name: "vertex_size_bytes", kind: FieldKind::Pointer },
        ]
    }

    fn values(&self) -> (values: Vec<FieldValue>) {
        vec![
            FieldValue::Pointer(self.vertex_offset_bytes),
            FieldValue::Pointer(self.vertex_size_bytes),
        ]
    }
}

/// The host draws one mesh of the panel: `count` indices out of an index
/// block and a vertex block in the data arena, cut off at the rectangle
/// `clip`.
#[derive(Copy, Clone, Debug, PartialEq, Eq)]
pub struct GuiMeshUpdateParams {
    pub index_offset_bytes: usize,
    pub index_size_bytes: usize,
    pub vertex_offset_bytes: usize,
    pub vertex_size_bytes: usize,
    /// Left, top, right and bottom, as bit patterns.
    pub clip: [u32; 4],
    pub count: u32,
    pub texture_id: u32,
}

impl Params for GuiMeshUpdateParams {
    open spec fn spec_defs() -> Seq<FieldDef> {
        seq![
            FieldDef { name: "index_offset_bytes", kind: FieldKind::Pointer },
            FieldDef { name: "index_size_bytes", kind: FieldKind::Pointer },
            FieldDef { name: "vertex_offset_bytes", kind: FieldKind::Pointer },
            FieldDef { name: "vertex_size_bytes", kind: FieldKind::Pointer },
            FieldDef { name: "clip", kind: FieldKind::Float32 },
            FieldDef { name: "clip", kind: FieldKind::Float32 },
            FieldDef { name: "clip", kind: FieldKind::Float32 },
            FieldDef { name: "clip", kind: FieldKind::Float32 },
            FieldDef { name: "count", kind: FieldKind::Uint32 },
            FieldDef { name: "texture_id", kind: FieldKind::Uint32 },
        ]
    }

    open spec fn spec_values(&self) -> Seq<FieldValue> {
        seq![
            FieldValue::Pointer(self.index_offset_bytes),
            FieldValue::Pointer(self.index_size_bytes),
            FieldValue::Pointer(self.vertex_offset_bytes),
            FieldValue::Pointer(self.vertex_size_bytes),
            FieldValue::Float32(self.clip[0]),
            FieldValue::Float32(self.clip[1]),
            FieldValue::Float32(self.clip[2]),
            FieldValue::Float32(self.clip[3]),
            FieldValue::Uint32(self.count),
            FieldValue::Uint32(self.texture_id),
        ]
    }

    proof fn lemma_values_match(&self) {
    }

    fn defs() -> (defs: Vec<FieldDef>) {
        vec![
            FieldDef { name: "index_offset_bytes", kind: FieldKind::Pointer },
            FieldDef { name: "index_size_bytes", kind: FieldKind::Pointer },
            FieldDef { name: "vertex_offset_bytes", kind: FieldKind::Pointer },
            FieldDef { name: "vertex_size_bytes", kind: FieldKind::Pointer },
            FieldDef { name: "clip", kind: FieldKind::Float32 },
            FieldDef { name: "clip", kind: FieldKind::Float32 },
            FieldDef { name: "clip", kind: FieldKind::Float32 },
            FieldDef { name: "clip", kind: FieldKind::Float32 },
            FieldDef { name: "count", kind: FieldKind::Uint32 },
            FieldDef { name: "texture_id", kind: FieldKind::Uint32 },
        ]
    }

    fn values(&self) -> (values: Vec<FieldValue>) {
        vec![
            FieldValue::Pointer(self.index_offset_bytes),
            FieldValue::Pointer(self.index_size_bytes),
            FieldValue::Pointer(self.vertex_offset_bytes),
            FieldValue::Pointer(self.vertex_size_bytes),
            FieldValue::Float32(self.clip[0]),
            FieldValue::Float32(self.clip[1]),
            FieldValue::Float32(self.clip[2]),
            FieldValue::Float32(self.clip[3]),
            FieldValue::Uint32(self.count),
            FieldValue::Uint32(self.texture_id),
        ]
    }
}

/// The view offset as message parameters: two floating point numbers.
impl Params for PositionF32 {
    open spec fn spec_defs() -> Seq<FieldDef> {
        seq![
            FieldDef { name: "x", kind: FieldKind::Float32 },
            FieldDef { name: "y", kind: FieldKind::Float32 },
        ]
    }

    open spec fn spec_values(&self) -> Seq<FieldValue> {
        seq![FieldValue::Float32(self.x), FieldValue::Float32(self.y)]
    }

    proof fn lemma_values_match(&self) {
    }

    fn defs() -> (defs: Vec<FieldDef>) {
        vec![
            FieldDef { name: "x", kind: FieldKind::Float32 },
            FieldDef { name: "y", kind: FieldKind::Float32 },
        ]
    }

    fn values(&self) -> (values: Vec<FieldValue>) {
        vec![FieldValue::Float32(self.x), FieldValue::Float32(self.y)]
    }
}

/// What a message asks of the host. The numbers are stable: a new kind is
/// added at the end.
#[derive(Copy, Clone, Debug, PartialEq, Eq, Structural)]
pub enum OutputMessageType {
    UpdateSprites,
    DrawSprites,
    UpdateTerrain,
    DrawDebug,
    GuiTextureUpdate,
    GuiMeshUpdate,
    ResetGui,
    UpdateViewOffset,
    DrawInsertSprite,
    UpdateHighlightSprites,
    HighlightSprites,
}

impl OutputMessageType {
    /// The discriminant as the host sees it.
    pub open spec fn spec_raw(self) -> u32 {
        match self {
            OutputMessageType::UpdateSprites => 0,
            OutputMessageType::DrawSprites => 1,
            OutputMessageType::UpdateTerrain => 2,
            OutputMessageType::DrawDebug => 3,
            OutputMessageType::GuiTextureUpdate => 4,
            OutputMessageType::GuiMeshUpdate => 5,
            OutputMessageType::ResetGui => 6,
            OutputMessageType::UpdateViewOffset => 7,
            OutputMessageType::DrawInsertSprite => 8,
            OutputMessageType::UpdateHighlightSprites => 9,
            OutputMessageType::HighlightSprites => 10,
        }
    }

    /// The symbolic name as the host sees it.
    pub open spec fn spec_name(self) -> &'static str {
        match self {
            OutputMessageType::UpdateSprites => "UpdateSprites",
            OutputMessageType::DrawSprites => "DrawSprites",
            OutputMessageType::UpdateTerrain => "UpdateTerrain",
            OutputMessageType::DrawDebug => "DrawDebug",
            OutputMessageType::GuiTextureUpdate => "GuiTextureUpdate",
            OutputMessageType::GuiMeshUpdate => "GuiMeshUpdate",
            OutputMessageType::ResetGui => "ResetGui",
            OutputMessageType::UpdateViewOffset => "UpdateViewOffset",
            OutputMessageType::DrawInsertSprite => "DrawInsertSprite",
            OutputMessageType::UpdateHighlightSprites => "UpdateHighlightSprites",
            OutputMessageType::HighlightSprites => "HighlightSprites",
        }
    }

    /// The discriminant as the host sees it.
    pub fn raw(self) -> (raw: u32)
        ensures
            raw == self.spec_raw(),
    {
        match self {
            OutputMessageType::UpdateSprites => 0,
            OutputMessageType::DrawSprites => 1,
            OutputMessageType::UpdateTerrain => 2,
            OutputMessageType::DrawDebug => 3,
            OutputMessageType::GuiTextureUpdate => 4,
            OutputMessageType::GuiMeshUpdate => 5,
            OutputMessageType::ResetGui => 6,
            OutputMessageType::UpdateViewOffset => 7,
            OutputMessageType::DrawInsertSprite => 8,
            OutputMessageType::UpdateHighlightSprites => 9,
            OutputMessageType::HighlightSprites => 10,
        }
    }

    /// The symbolic name as the host sees it.
    pub fn name(self) -> (name: &'static str)
        ensures
            name == self.spec_name(),
    {
        match self {
            OutputMessageType::UpdateSprites => "UpdateSprites",
            OutputMessageType::DrawSprites => "DrawSprites",
            OutputMessageType::UpdateTerrain => "UpdateTerrain",
            OutputMessageType::DrawDebug => "DrawDebug",
            OutputMessageType::GuiTextureUpdate => "GuiTextureUpdate",
            OutputMessageType::GuiMeshUpdate => "GuiMeshUpdate",
            OutputMessageType::ResetGui => "ResetGui",
            OutputMessageType::UpdateViewOffset => "UpdateViewOffset",
            OutputMessageType::DrawInsertSprite => "DrawInsertSprite",
            OutputMessageType::UpdateHighlightSprites => "UpdateHighlightSprites",
            OutputMessageType::HighlightSprites => "HighlightSprites",
        }
    }
}

impl From<OutputMessageType> for u32 {
    fn from(ty: OutputMessageType) -> (raw: u32) {
        ty.raw()
    }
}

impl vstd::std_specs::convert::FromSpecImpl<OutputMessageType> for u32 {
    open spec fn obeys_from_spec() -> bool {
        true
    }

    open spec fn from_spec(ty: OutputMessageType) -> u32 {
        ty.spec_raw()
    }
}

/// The parameters of a message: one record, chosen by the kind of the
/// message, or none.
#[derive(Copy, Clone, Debug, PartialEq, Eq)]
pub enum OutputMessageParams {
    /// No parameters.
    Empty,
    UpdateSprites(UpdateSpritesParams),
    DrawSprites(DrawSpritesParams),
    UpdateTerrain(UpdateTerrainParams),
    DrawDebug(DrawDebugParams),
    GuiTextureUpdate(GuiTextureUpdateParams),
    GuiMeshUpdate(GuiMeshUpdateParams),
    UpdateViewOffset(PositionF32),
    DrawInsertSprite(DrawInsertSpriteParams),
}

impl OutputMessageParams {
    /// The values of the record, in layout order.
    pub open spec fn spec_values(self) -> Seq<FieldValue> {
        match self {
            OutputMessageParams::Empty => Seq::empty(),
            OutputMessageParams::UpdateSprites(p) => p.spec_values(),
            OutputMessageParams::DrawSprites(p) => p.spec_values(),
            OutputMessageParams::UpdateTerrain(p) => p.spec_values(),
            OutputMessageParams::DrawDebug(p) => p.spec_values(),
            OutputMessageParams::GuiTextureUpdate(p) => p.spec_values(),
            OutputMessageParams::GuiMeshUpdate(p) => p.spec_values(),
            OutputMessageParams::UpdateViewOffset(p) => p.spec_values(),
            OutputMessageParams::DrawInsertSprite(p) => p.spec_values(),
        }
    }

    /// The fields of the record, in layout order.
    pub open spec fn spec_defs(self) -> Seq<FieldDef> {
        match self {
            OutputMessageParams::Empty => Seq::empty(),
            OutputMessageParams::UpdateSprites(_) => UpdateSpritesParams::spec_defs(),
            OutputMessageParams::DrawSprites(_) => DrawSpritesParams::spec_defs(),
            OutputMessageParams::UpdateTerrain(_) => UpdateTerrainParams::spec_defs(),
            OutputMessageParams::DrawDebug(_) => DrawDebugParams::spec_defs(),
            OutputMessageParams::GuiTextureUpdate(_) => GuiTextureUpdateParams::spec_defs(),
            OutputMessageParams::GuiMeshUpdate(_) => GuiMeshUpdateParams::spec_defs(),
            OutputMessageParams::UpdateViewOffset(_) => PositionF32::spec_defs(),
            OutputMessageParams::DrawInsertSprite(_) => DrawInsertSpriteParams::spec_defs(),
        }
    }

    /// The values of the record, in layout order.
    pub fn values(&self) -> (values: Vec<FieldValue>)
        ensures
            values@ == self.spec_values(),
    {
        match self {
            OutputMessageParams::Empty => Vec::new(),
            OutputMessageParams::UpdateSprites(p) => p.values(),
            OutputMessageParams::DrawSprites(p) => p.values(),
            OutputMessageParams::UpdateTerrain(p) => p.values(),
            OutputMessageParams::DrawDebug(p) => p.values(),
            OutputMessageParams::GuiTextureUpdate(p) => p.values(),
            OutputMessageParams::GuiMeshUpdate(p) => p.values(),
            OutputMessageParams::UpdateViewOffset(p) => p.values(),
            OutputMessageParams::DrawInsertSprite(p) => p.values(),
        }
    }
}

/// One operation for the host.
#[derive(Copy, Clone, Debug, PartialEq, Eq)]
pub struct OutputMessage {
    pub ty: OutputMessageType,
    pub params: OutputMessageParams,
}

/// Where the parameters of a message begin: right after the discriminant.
pub const PARAMS_OFFSET: usize = 4;

/// The size of the parameter block: that of the largest record.
pub open spec fn params_block_size(pointer: nat) -> nat {
    record_size(GuiMeshUpdateParams::spec_defs(), pointer)
}

/// The size of a message: the discriminant and the parameter block.
pub open spec fn message_size(pointer: nat) -> nat {
    PARAMS_OFFSET as nat + params_block_size(pointer)
}

/// The size of a message in this build.
pub fn message_stride() -> (size: usize)
    ensures
        size == message_size(pointer_width()),
{
    let defs = GuiMeshUpdateParams::defs();
    PARAMS_OFFSET + measure(defs.as_slice())
}

/// A message as the host sees it: the discriminant, the record of
/// parameters, and zeros up to the size that all messages share.
pub open spec fn message_bytes(message: OutputMessage, pointer: nat) -> Seq<u8> {
    let params = record_bytes(message.params.spec_values(), pointer);
    u32_bytes(message.ty.spec_raw()) + params + zeros(
        (params_block_size(pointer) - params.len()) as nat,
    )
}

/// The first `n` messages as the host sees them, one after the other.
pub open spec fn messages_bytes(messages: Seq<OutputMessage>, n: nat, pointer: nat) -> Seq<u8>
    decreases n,
{
    if n == 0 {
        Seq::empty()
    } else {
        messages_bytes(messages, (n - 1) as nat, pointer) + message_bytes(messages[n - 1], pointer)
    }
}

/// The parameters of every kind of message fit the parameter block.
pub proof fn lemma_params_fit(params: OutputMessageParams, pointer: nat)
    requires
        pointer == 4 || pointer == 8,
    ensures
        values_match(params.spec_defs(), params.spec_values()),
        record_bytes(params.spec_values(), pointer).len() == record_size(
            params.spec_defs(),
            pointer,
        ),
        record_size(params.spec_defs(), pointer) <= params_block_size(pointer),
        params_block_size(pointer) == 4 * pointer + 24,
{
    reveal_with_fuel(offset_of, 11);
    match params {
        OutputMessageParams::Empty => {},
        OutputMessageParams::UpdateSprites(p) => {
            p.lemma_values_match();
        },
        OutputMessageParams::DrawSprites(p) => {
            p.lemma_values_match();
        },
        OutputMessageParams::UpdateTerrain(p) => {
            p.lemma_values_match();
        },
        OutputMessageParams::DrawDebug(p) => {
            p.lemma_values_match();
        },
        OutputMessageParams::GuiTextureUpdate(p) => {
            p.lemma_values_match();
        },
        OutputMessageParams::GuiMeshUpdate(p) => {
            p.lemma_values_match();
        },
        OutputMessageParams::UpdateViewOffset(p) => {
            p.lemma_values_match();
        },
        OutputMessageParams::DrawInsertSprite(p) => {
            p.lemma_values_match();
        },
    }
    lemma_values_bytes_len(
        params.spec_defs(),
        params.spec_values(),
        params.spec_defs().len(),
        pointer,
    );
}

/// Every message has the size that all messages share.
pub proof fn lemma_message_bytes_len(message: OutputMessage, pointer: nat)
    requires
        pointer == 4 || pointer == 8,
    ensures
        message_bytes(message, pointer).len() == message_size(pointer),
{
    lemma_params_fit(message.params, pointer);
}

/// The host finds what the writer wrote: in the bytes of a message the
/// discriminant comes first, and the record of the parameters begins at
/// `PARAMS_OFFSET`.
pub proof fn lemma_message_parts(message: OutputMessage, pointer: nat)
    requires
        pointer == 4 || pointer == 8,
    ensures
        message_bytes(message, pointer).subrange(0, PARAMS_OFFSET as int) == u32_bytes(
            message.ty.spec_raw(),
        ),
        message_bytes(message, pointer).subrange(
            PARAMS_OFFSET as int,
            PARAMS_OFFSET + record_size(message.params.spec_defs(), pointer),
        ) == record_bytes(message.params.spec_values(), pointer),
{
    lemma_params_fit(message.params, pointer);
    let tag = u32_bytes(message.ty.spec_raw());
    let params = record_bytes(message.params.spec_values(), pointer);
    let all = message_bytes(message, pointer);
    assert(all.subrange(0, PARAMS_OFFSET as int) =~= tag);
    assert(all.subrange(PARAMS_OFFSET as int, PARAMS_OFFSET + params.len()) =~= params);
}

/// Writes a message as the host sees it.
pub fn write_message(arena: &mut Arena, message: &OutputMessage)
    requires
        old(arena).wf(),
    ensures
        final(arena).wf(),
        final(arena).spec_granularity() == old(arena).spec_granularity(),
        final(arena).written() == old(arena).written() + message_bytes(
            *message,
            pointer_width(),
        ),
{
    proof {
        lemma_params_fit(message.params, pointer_width());
    }
    let values = message.params.values();
    let block: usize = message_stride() - PARAMS_OFFSET;
    arena.write_u32(message.ty.raw());
    let before: usize = arena.cursor();
    write_values(arena, values.as_slice());
    let used: usize = arena.cursor() - before;
    arena.write_zeros(block - used);
    assert(arena.written() =~= old(arena).written() + message_bytes(*message, pointer_width()));
}

} // verus!
