//! The plain records of the simulation: flags, sprites, animation state.
//!
//! Floating point fields are carried as their bit patterns.

use crate::bytes::{lemma_pack_u16, pack_u16, spec_pack_u16};
use crate::record::Record;
use crate::shared::{PositionF32, AABB};
use vstd::prelude::*;

verus! {

/// What the next frame has to bring up to date.
#[derive(Default, Debug, Copy, Clone, PartialEq, Eq, Structural)]
pub struct GameFlags(pub u32);

impl Record for GameFlags {
    open spec fn spec_word_count() -> nat {
        1
    }

    open spec fn words(&self) -> Seq<u32> {
        seq![
            self.0,
        ]
    }

    open spec fn from_words(words: Seq<u32>) -> Option<Self> {
        Some(
            GameFlags(words[0]),
        )
    }

    proof fn lemma_words(&self) {
    }

    proof fn lemma_word_count() {
    }

    fn word_count() -> (n: usize) {
        1
    }

    fn to_words(&self) -> (words: Vec<u32>) {
        vec![
            self.0,
        ]
    }

    fn try_from_words(words: &[u32]) -> (value: Option<Self>) {
        Some(
            GameFlags(words[0]),
        )
    }
}

impl GameFlags {
    pub const UPDATE_ANIMATIONS: u32 = 0b0001;

    pub const UPDATE_TERRAIN: u32 = 0b0010;

    pub const UPDATE_GUI: u32 = 0b0100;

    pub const UPDATE_VIEW_OFFSET: u32 = 0b1000;

    /// Whether a bit of `mask` is set in the flags.
    pub open spec fn has(self, mask: u32) -> bool {
        self.0 & mask > 0
    }

    /// Notes that the animations are due for a step.
    #[inline(always)]
    pub fn set_update_animations(&mut self)
        ensures
            final(self).0 == old(self).0 | Self::UPDATE_ANIMATIONS,
    {
        self.0 = self.0 | Self::UPDATE_ANIMATIONS;
    }

    /// Forgets that the animations are due for a step.
    #[inline(always)]
    pub fn clear_update_animations(&mut self)
        ensures
            final(self).0 == old(self).0 & !Self::UPDATE_ANIMATIONS,
    {
        self.0 = self.0 & !Self::UPDATE_ANIMATIONS;
    }

    /// Whether the animations are due for a step.
    #[inline(always)]
    pub fn update_animations(&self) -> (set: bool)
        ensures
            set == self.has(Self::UPDATE_ANIMATIONS),
    {
        self.0 & Self::UPDATE_ANIMATIONS > 0
    }

    /// Notes that the terrain has changed.
    #[inline(always)]
    pub fn set_update_terrain(&mut self)
        ensures
            final(self).0 == old(self).0 | Self::UPDATE_TERRAIN,
    {
        self.0 = self.0 | Self::UPDATE_TERRAIN;
    }

    /// Forgets that the terrain has changed.
    #[inline(always)]
    pub fn clear_update_terrain(&mut self)
        ensures
            final(self).0 == old(self).0 & !Self::UPDATE_TERRAIN,
    {
        self.0 = self.0 & !Self::UPDATE_TERRAIN;
    }

    /// Whether the terrain has changed.
    #[inline(always)]
    pub fn update_terrain(&self) -> (set: bool)
        ensures
            set == self.has(Self::UPDATE_TERRAIN),
    {
        self.0 & Self::UPDATE_TERRAIN > 0
    }

    /// Notes that the panel wants to be painted again.
    #[inline(always)]
    pub fn set_update_gui(&mut self)
        ensures
            final(self).0 == old(self).0 | Self::UPDATE_GUI,
    {
        self.0 = self.0 | Self::UPDATE_GUI;
    }

    /// Forgets that the panel wants to be painted again.
    #[inline(always)]
    pub fn clear_update_gui(&mut self)
        ensures
            final(self).0 == old(self).0 & !Self::UPDATE_GUI,
    {
        self.0 = self.0 & !Self::UPDATE_GUI;
    }

    /// Whether the panel wants to be painted again.
    #[inline(always)]
    pub fn update_gui(&self) -> (set: bool)
        ensures
            set == self.has(Self::UPDATE_GUI),
    {
        self.0 & Self::UPDATE_GUI > 0
    }

    /// Notes that the view has moved.
    #[inline(always)]
    pub fn set_update_view_offset(&mut self)
        ensures
            final(self).0 == old(self).0 | Self::UPDATE_VIEW_OFFSET,
    {
        self.0 = self.0 | Self::UPDATE_VIEW_OFFSET;
    }

    /// Forgets that the view has moved.
    #[inline(always)]
    pub fn clear_update_view_offset(&mut self)
        ensures
            final(self).0 == old(self).0 & !Self::UPDATE_VIEW_OFFSET,
    {
        self.0 = self.0 & !Self::UPDATE_VIEW_OFFSET;
    }

    /// Whether the view has moved.
    #[inline(always)]
    pub fn update_view_offset(&self) -> (set: bool)
        ensures
            set == self.has(Self::UPDATE_VIEW_OFFSET),
    {
        self.0 & Self::UPDATE_VIEW_OFFSET > 0
    }

}

/// What the debug overlay shows.
#[derive(Default, Debug, Copy, Clone, PartialEq, Eq, Structural)]
pub struct DebugFlags(pub u32);

impl Record for DebugFlags {
    open spec fn spec_word_count() -> nat {
        1
    }

    open spec fn words(&self) -> Seq<u32> {
        seq![
            self.0,
        ]
    }

    open spec fn from_words(words: Seq<u32>) -> Option<Self> {
        Some(
            DebugFlags(words[0]),
        )
    }

    proof fn lemma_words(&self) {
    }

    proof fn lemma_word_count() {
    }

    fn word_count() -> (n: usize) {
        1
    }

    fn to_words(&self) -> (words: Vec<u32>) {
        vec![
            self.0,
        ]
    }

    fn try_from_words(words: &[u32]) -> (value: Option<Self>) {
        Some(
            DebugFlags(words[0]),
        )
    }
}

impl DebugFlags {
    pub const SHOW_NAVMESH: u32 = 0x1;

    pub const SHOW_COLLISION_BOXES: u32 = 0x2;

    pub const SHOW_HOVERED_TRIANGLE: u32 = 0x4;

    pub const SHOW_CELL_CENTERS: u32 = 0x8;

    pub const SHOW_PATH: u32 = 0x10;

    pub const SHOW_BLOCKED_CELLS: u32 = 0x20;
}

/// The state bits of a sprite, as the host's shader reads them.
#[derive(Default, Debug, Copy, Clone, PartialEq, Eq, Structural)]
pub struct BaseSpriteFlags(pub u32);

impl Record for BaseSpriteFlags {
    open spec fn spec_word_count() -> nat {
        1
    }

    open spec fn words(&self) -> Seq<u32> {
        seq![
            self.0,
        ]
    }

    open spec fn from_words(words: Seq<u32>) -> Option<Self> {
        Some(
            BaseSpriteFlags(words[0]),
        )
    }

    proof fn lemma_words(&self) {
    }

    proof fn lemma_word_count() {
    }

    fn word_count() -> (n: usize) {
        1
    }

    fn to_words(&self) -> (words: Vec<u32>) {
        vec![
            self.0,
        ]
    }

    fn try_from_words(words: &[u32]) -> (value: Option<Self>) {
        Some(
            BaseSpriteFlags(words[0]),
        )
    }
}

impl BaseSpriteFlags {
    /// The sprite is drawn with its highlight colour.
    pub const HIGHLIGHTED: u32 = 0x1;

    /// No bit set.
    #[inline(always)]
    pub fn empty() -> (flags: Self)
        ensures
            flags.0 == 0,
    {
        BaseSpriteFlags(0)
    }

    /// The bits as the signed number that the host's shader takes.
    #[inline(always)]
    pub fn value(&self) -> (value: i32)
        ensures
            value == self.0 as i32,
    {
        #[verifier::truncate]
        (self.0 as i32)
    }

    /// Sets the highlight bit.
    #[inline(always)]
    pub fn set_highlighted(&mut self)
        ensures
            final(self).0 == old(self).0 | Self::HIGHLIGHTED,
    {
        self.0 = self.0 | Self::HIGHLIGHTED;
    }

    /// Clears the highlight bit.
    #[inline(always)]
    pub fn clear_highlighted(&mut self)
        ensures
            final(self).0 == old(self).0 & !Self::HIGHLIGHTED,
    {
        self.0 = self.0 & !Self::HIGHLIGHTED;
    }

    /// Whether the highlight bit is set.
    #[inline(always)]
    pub fn highlighted(&self) -> (set: bool)
        ensures
            set == (self.0 & Self::HIGHLIGHTED > 0),
    {
        self.0 & Self::HIGHLIGHTED > 0
    }
}

/// What every actor has: a place, a rectangle of the atlas, and its state.
#[derive(Default, Debug, Copy, Clone, PartialEq, Eq, Structural)]
pub struct BaseSprite {
    pub position: PositionF32,
    pub texcoord: AABB,
    /// Red, green and blue of the highlight, in the three low bytes.
    pub highlight_color: u32,
    pub flags: BaseSpriteFlags,
}

impl Record for BaseSprite {
    open spec fn spec_word_count() -> nat {
        8
    }

    open spec fn words(&self) -> Seq<u32> {
        seq![
            self.position.x,
            self.position.y,
            self.texcoord.left,
            self.texcoord.top,
            self.texcoord.right,
            self.texcoord.bottom,
            self.highlight_color,
            self.flags.0,
        ]
    }

    open spec fn from_words(words: Seq<u32>) -> Option<Self> {
        Some(
            BaseSprite {
                position: PositionF32 { x: words[0], y: words[1] },
                texcoord: AABB { left: words[2], top: words[3], right: words[4], bottom: words[5] },
                highlight_color: words[6],
                flags: BaseSpriteFlags(words[7]),
            },
        )
    }

    proof fn lemma_words(&self) {
    }

    proof fn lemma_word_count() {
    }

    fn word_count() -> (n: usize) {
        8
    }

    fn to_words(&self) -> (words: Vec<u32>) {
        vec![
            self.position.x,
            self.position.y,
            self.texcoord.left,
            self.texcoord.top,
            self.texcoord.right,
            self.texcoord.bottom,
            self.highlight_color,
            self.flags.0,
        ]
    }

    fn try_from_words(words: &[u32]) -> (value: Option<Self>) {
        Some(
            BaseSprite {
                position: PositionF32 { x: words[0], y: words[1] },
                texcoord: AABB { left: words[2], top: words[3], right: words[4], bottom: words[5] },
                highlight_color: words[6],
                flags: BaseSpriteFlags(words[7]),
            },
        )
    }
}

/// A highlight colour as one word: red, green and blue in the three low bytes.
pub open spec fn spec_pack_color(color: [u8; 3]) -> u32 {
    (color[0] + 256 * color[1] + 65536 * color[2]) as u32
}

/// A highlight colour as one word: red, green and blue in the three low bytes.
pub fn pack_color(color: [u8; 3]) -> (packed: u32)
    ensures
        packed == spec_pack_color(color),
{
    color[0] as u32 + 256 * (color[1] as u32) + 65536 * (color[2] as u32)
}

/// Where an animated sprite stands in its strip of frames: the first frame
/// at (`x`, `y`) in the atlas, each frame `width` by `height`, and the frame
/// that shows, out of `max_frame`.
#[derive(Default, Debug, Copy, Clone, PartialEq, Eq, Structural)]
pub struct AnimationState {
    pub x: u32,
    pub y: u32,
    pub width: u32,
    pub height: u32,
    pub current_frame: u16,
    pub max_frame: u16,
}

impl Record for AnimationState {
    open spec fn spec_word_count() -> nat {
        5
    }

    open spec fn words(&self) -> Seq<u32> {
        seq![
            self.x,
            self.y,
            self.width,
            self.height,
            spec_pack_u16(self.current_frame, self.max_frame),
        ]
    }

    open spec fn from_words(words: Seq<u32>) -> Option<Self> {
        Some(
            AnimationState {
                x: words[0],
                y: words[1],
                width: words[2],
                height: words[3],
                current_frame: (words[4] % 65536) as u16,
                max_frame: (words[4] / 65536) as u16,
            },
        )
    }

    proof fn lemma_words(&self) {
        lemma_pack_u16(self.current_frame, self.max_frame);
    }

    proof fn lemma_word_count() {
    }

    fn word_count() -> (n: usize) {
        5
    }

    fn to_words(&self) -> (words: Vec<u32>) {
        vec![
            self.x,
            self.y,
            self.width,
            self.height,
            pack_u16(self.current_frame, self.max_frame),
        ]
    }

    fn try_from_words(words: &[u32]) -> (value: Option<Self>) {
        Some(
            AnimationState {
                x: words[0],
                y: words[1],
                width: words[2],
                height: words[3],
                current_frame: (words[4] % 65536) as u16,
                max_frame: (words[4] / 65536) as u16,
            },
        )
    }
}

impl AnimationState {
    /// The frame that follows `current` in a strip of `max` frames: the next
    /// one, or the first again after the last.
    pub open spec fn next_frame(current: u16, max: u16) -> u16 {
        if current + 1 < max {
            (current + 1) as u16
        } else {
            0
        }
    }

    /// Goes on to the next frame, and back to the first after the last.
    pub fn advance(&mut self)
        ensures
            final(self).current_frame == Self::next_frame(
                old(self).current_frame,
                old(self).max_frame,
            ),
            final(self).max_frame == old(self).max_frame,
            final(self).x == old(self).x,
            final(self).y == old(self).y,
            final(self).width == old(self).width,
            final(self).height == old(self).height,
    {
        if self.current_frame < u16::MAX && self.current_frame + 1 < self.max_frame {
            self.current_frame = self.current_frame + 1;
        } else {
            self.current_frame = 0;
        }
    }
}

/// A sprite that does not change: one rectangle of the atlas.
#[derive(Default, Debug, Copy, Clone, PartialEq, Eq, Structural)]
pub struct StaticSprite {
    pub texcoord: AABB,
}

impl Record for StaticSprite {
    open spec fn spec_word_count() -> nat {
        4
    }

    open spec fn words(&self) -> Seq<u32> {
        seq![
            self.texcoord.left,
            self.texcoord.top,
            self.texcoord.right,
            self.texcoord.bottom,
        ]
    }

    open spec fn from_words(words: Seq<u32>) -> Option<Self> {
        Some(
            StaticSprite {
                texcoord: AABB { left: words[0], top: words[1], right: words[2], bottom: words[3] },
            },
        )
    }

    proof fn lemma_words(&self) {
    }

    proof fn lemma_word_count() {
    }

    fn word_count() -> (n: usize) {
        4
    }

    fn to_words(&self) -> (words: Vec<u32>) {
        vec![
            self.texcoord.left,
            self.texcoord.top,
            self.texcoord.right,
            self.texcoord.bottom,
        ]
    }

    fn try_from_words(words: &[u32]) -> (value: Option<Self>) {
        Some(
            StaticSprite {
                texcoord: AABB { left: words[0], top: words[1], right: words[2], bottom: words[3] },
            },
        )
    }
}

/// A strip of `frame_count` frames of equal width in the atlas.
#[derive(Default, Debug, Copy, Clone, PartialEq, Eq, Structural)]
pub struct AnimatedSprite {
    pub sprite_base: AABB,
    pub frame_count: u32,
}

impl Record for AnimatedSprite {
    open spec fn spec_word_count() -> nat {
        5
    }

    open spec fn words(&self) -> Seq<u32> {
        seq![
            self.sprite_base.left,
            self.sprite_base.top,
            self.sprite_base.right,
            self.sprite_base.bottom,
            self.frame_count,
        ]
    }

    open spec fn from_words(words: Seq<u32>) -> Option<Self> {
        Some(
            AnimatedSprite {
                sprite_base: AABB {
                    left: words[0],
                    top: words[1],
                    right: words[2],
                    bottom: words[3],
                },
                frame_count: words[4],
            },
        )
    }

    proof fn lemma_words(&self) {
    }

    proof fn lemma_word_count() {
    }

    fn word_count() -> (n: usize) {
        5
    }

    fn to_words(&self) -> (words: Vec<u32>) {
        vec![
            self.sprite_base.left,
            self.sprite_base.top,
            self.sprite_base.right,
            self.sprite_base.bottom,
            self.frame_count,
        ]
    }

    fn try_from_words(words: &[u32]) -> (value: Option<Self>) {
        Some(
            AnimatedSprite {
                sprite_base: AABB {
                    left: words[0],
                    top: words[1],
                    right: words[2],
                    bottom: words[3],
                },
                frame_count: words[4],
            },
        )
    }
}

/// The state of a mouse button. The two states that begin with `Just` last
/// for one frame.
#[derive(Copy, Clone, Debug, PartialEq, Eq, Structural)]
pub enum ButtonState {
    Released,
    JustReleased,
    Pressed,
    JustPressed,
}

impl Default for ButtonState {
    fn default() -> (state: Self)
        ensures
            state == ButtonState::Released,
    {
        ButtonState::Released
    }
}

impl ButtonState {
    /// The state one frame later, if nothing happens to the button.
    pub open spec fn flipped(self) -> ButtonState {
        match self {
            ButtonState::JustPressed => ButtonState::Pressed,
            ButtonState::JustReleased => ButtonState::Released,
            other => other,
        }
    }

    /// Ends the frame in which the button changed.
    pub fn flip(&mut self)
        ensures
            *final(self) == old(self).flipped(),
    {
        match *self {
            ButtonState::JustPressed => {
                *self = ButtonState::Pressed;
            },
            ButtonState::JustReleased => {
                *self = ButtonState::Released;
            },
            _ => {},
        }
    }

    /// Whether the button is up.
    pub fn released(self) -> (up: bool)
        ensures
            up == (self == ButtonState::JustReleased || self == ButtonState::Released),
    {
        self == ButtonState::JustReleased || self == ButtonState::Released
    }

    /// Whether the button went down in this frame.
    pub fn just_pressed(self) -> (down: bool)
        ensures
            down == (self == ButtonState::JustPressed),
    {
        self == ButtonState::JustPressed
    }
}

} // verus!
