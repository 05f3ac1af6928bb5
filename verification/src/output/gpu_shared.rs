//! The records that go to the host's graphics buffers as they stand.
//! Floating point fields are carried as their bit patterns.

use crate::bytes::{lemma_u32_bytes_of_value, u32_bytes, u32_value};
use crate::record::Record;
use vstd::prelude::*;

verus! {

/// The bits of a signed number as an unsigned one.
pub open spec fn spec_i32_bits(value: i32) -> u32 {
    if value >= 0 {
        value as u32
    } else {
        (value + 0x1_0000_0000) as u32
    }
}

/// The signed number that has the given bits.
pub open spec fn spec_bits_i32(bits: u32) -> i32 {
    if bits < 0x8000_0000 {
        bits as i32
    } else {
        (bits - 0x1_0000_0000) as i32
    }
}

/// A signed number comes back from its bits.
pub proof fn lemma_i32_bits(value: i32)
    ensures
        spec_bits_i32(spec_i32_bits(value)) == value,
{
}

/// The bits of a signed number as an unsigned one.
pub fn i32_bits(value: i32) -> (bits: u32)
    ensures
        bits == spec_i32_bits(value),
{
    if value >= 0 {
        value as u32
    } else {
        (value as i64 + 0x1_0000_0000) as u32
    }
}

/// The signed number that has the given bits.
pub fn bits_i32(bits: u32) -> (value: i32)
    ensures
        value == spec_bits_i32(bits),
{
    if bits < 0x8000_0000 {
        bits as i32
    } else {
        (bits as i64 - 0x1_0000_0000) as i32
    }
}

/// How the host draws one sprite. The layout is that of the instance
/// attributes of the host's sprite shader.
#[derive(Debug, Copy, Clone, PartialEq, Eq)]
pub struct GpuSpriteData {
    pub position: [u32; 2],
    pub size: [u32; 2],
    pub texcoord_offset: [u32; 2],
    pub texcoord_size: [u32; 2],
    pub data: i32,
}

impl Record for GpuSpriteData {
    open spec fn spec_word_count() -> nat {
        9
    }

    open spec fn words(&self) -> Seq<u32> {
        seq![
            self.position[0],
            self.position[1],
            self.size[0],
            self.size[1],
            self.texcoord_offset[0],
            self.texcoord_offset[1],
            self.texcoord_size[0],
            self.texcoord_size[1],
            spec_i32_bits(self.data),
        ]
    }

    open spec fn from_words(words: Seq<u32>) -> Option<Self> {
        Some(
            GpuSpriteData {
                position: [words[0], words[1]],
                size: [words[2], words[3]],
                texcoord_offset: [words[4], words[5]],
                texcoord_size: [words[6], words[7]],
                data: spec_bits_i32(words[8]),
            },
        )
    }

    proof fn lemma_words(&self) {
        assert(Self::from_words(self.words()).unwrap().position =~= self.position);
        assert(Self::from_words(self.words()).unwrap().size =~= self.size);
        assert(Self::from_words(self.words()).unwrap().texcoord_offset =~= self.texcoord_offset);
        assert(Self::from_words(self.words()).unwrap().texcoord_size =~= self.texcoord_size);
        lemma_i32_bits(self.data);
    }

    proof fn lemma_word_count() {
    }

    fn word_count() -> (n: usize) {
        9
    }

    fn to_words(&self) -> (words: Vec<u32>) {
        vec![
            self.position[0],
            self.position[1],
            self.size[0],
            self.size[1],
            self.texcoord_offset[0],
            self.texcoord_offset[1],
            self.texcoord_size[0],
            self.texcoord_size[1],
            i32_bits(self.data),
        ]
    }

    fn try_from_words(words: &[u32]) -> (value: Option<Self>) {
        Some(
            GpuSpriteData {
                position: [words[0], words[1]],
                size: [words[2], words[3]],
                texcoord_offset: [words[4], words[5]],
                texcoord_size: [words[6], words[7]],
                data: bits_i32(words[8]),
            },
        )
    }
}

/// How the host draws one cell of the ground.
#[derive(Debug, Copy, Clone, PartialEq, Eq)]
pub struct GpuTerrainSpriteData {
    pub position: [u32; 2],
    pub uv: [u32; 2],
}

impl Record for GpuTerrainSpriteData {
    open spec fn spec_word_count() -> nat {
        4
    }

    open spec fn words(&self) -> Seq<u32> {
        seq![
            self.position[0],
            self.position[1],
            self.uv[0],
            self.uv[1],
        ]
    }

    open spec fn from_words(words: Seq<u32>) -> Option<Self> {
        Some(
            GpuTerrainSpriteData { position: [words[0], words[1]], uv: [words[2], words[3]] },
        )
    }

    proof fn lemma_words(&self) {
        assert(Self::from_words(self.words()).unwrap().position =~= self.position);
        assert(Self::from_words(self.words()).unwrap().uv =~= self.uv);
    }

    proof fn lemma_word_count() {
    }

    fn word_count() -> (n: usize) {
        4
    }

    fn to_words(&self) -> (words: Vec<u32>) {
        vec![
            self.position[0],
            self.position[1],
            self.uv[0],
            self.uv[1],
        ]
    }

    fn try_from_words(words: &[u32]) -> (value: Option<Self>) {
        Some(
            GpuTerrainSpriteData { position: [words[0], words[1]], uv: [words[2], words[3]] },
        )
    }
}

/// One corner of the sprite that is about to be placed.
#[derive(Debug, Copy, Clone, PartialEq, Eq)]
pub struct InsertSpriteVertex {
    pub position: [u32; 2],
    pub texcoord: [u32; 2],
}

impl Record for InsertSpriteVertex {
    open spec fn spec_word_count() -> nat {
        4
    }

    open spec fn words(&self) -> Seq<u32> {
        seq![
            self.position[0],
            self.position[1],
            self.texcoord[0],
            self.texcoord[1],
        ]
    }

    open spec fn from_words(words: Seq<u32>) -> Option<Self> {
        Some(
            InsertSpriteVertex { position: [words[0], words[1]], texcoord: [words[2], words[3]] },
        )
    }

    proof fn lemma_words(&self) {
        assert(Self::from_words(self.words()).unwrap().position =~= self.position);
        assert(Self::from_words(self.words()).unwrap().texcoord =~= self.texcoord);
    }

    proof fn lemma_word_count() {
    }

    fn word_count() -> (n: usize) {
        4
    }

    fn to_words(&self) -> (words: Vec<u32>) {
        vec![
            self.position[0],
            self.position[1],
            self.texcoord[0],
            self.texcoord[1],
        ]
    }

    fn try_from_words(words: &[u32]) -> (value: Option<Self>) {
        Some(
            InsertSpriteVertex { position: [words[0], words[1]], texcoord: [words[2], words[3]] },
        )
    }
}

/// One corner of a shape of the debug overlay: where it is, and its colour
/// as red, green, blue and opacity.
#[derive(Debug, Copy, Clone, PartialEq, Eq)]
pub struct GpuDebugVertex {
    pub position: [u32; 2],
    pub color: [u8; 4],
}

impl Record for GpuDebugVertex {
    open spec fn spec_word_count() -> nat {
        3
    }

    open spec fn words(&self) -> Seq<u32> {
        seq![self.position[0], self.position[1], u32_value(self.color@)]
    }

    open spec fn from_words(words: Seq<u32>) -> Option<Self> {
        Some(
            GpuDebugVertex {
                position: [words[0], words[1]],
                color: [
                    u32_bytes(words[2])[0],
                    u32_bytes(words[2])[1],
                    u32_bytes(words[2])[2],
                    u32_bytes(words[2])[3],
                ],
            },
        )
    }

    proof fn lemma_words(&self) {
        lemma_u32_bytes_of_value(self.color@);
        let back = Self::from_words(self.words()).unwrap();
        assert(back.position =~= self.position);
        assert(back.color =~= self.color);
    }

    proof fn lemma_word_count() {
    }

    fn word_count() -> (n: usize) {
        3
    }

    fn to_words(&self) -> (words: Vec<u32>) {
        let color: u32 = self.color[0] as u32 + 256 * (self.color[1] as u32) + 65536 * (
        self.color[2] as u32) + 16777216 * (self.color[3] as u32);
        vec![self.position[0], self.position[1], color]
    }

    fn try_from_words(words: &[u32]) -> (value: Option<Self>) {
        let color: u32 = words[2];
        Some(
            GpuDebugVertex {
                position: [words[0], words[1]],
                color: [
                    (color % 256) as u8,
                    ((color / 256) % 256) as u8,
                    ((color / 65536) % 256) as u8,
                    (color / 16777216) as u8,
                ],
            },
        )
    }
}

} // verus!
