//! The ground: a grid of cells.

use crate::bytes::u32_bytes;
use crate::error::Error;
use crate::store::laws::{
    lemma_bytes_round_trip, lemma_join, lemma_skip_front, lemma_u32_round_trip,
};
use crate::store::{
    byte_array_parse, bytes_stored, u32_parse, StoreLoad, StoreReader, StoreWriter, MAX_BYTES,
};
use crate::store::prefix::{lemma_byte_array_steady, lemma_front_kept, lemma_u32_steady};
use vstd::prelude::*;

verus! {

/// What a cell of the ground is covered with.
#[derive(Copy, Clone, Debug, PartialEq, Eq, Structural)]
pub enum TerrainCell {
    Grass,
}

impl TerrainCell {
    /// The byte that stands for the cell in a snapshot.
    pub open spec fn spec_byte(self) -> u8 {
        match self {
            TerrainCell::Grass => 0,
        }
    }

    /// The cell that a byte stands for, if it stands for one.
    pub open spec fn spec_from_byte(byte: u8) -> Option<TerrainCell> {
        if byte == 0 {
            Some(TerrainCell::Grass)
        } else {
            None
        }
    }

    /// The byte that stands for the cell in a snapshot.
    pub fn byte(self) -> (byte: u8)
        ensures
            byte == self.spec_byte(),
    {
        match self {
            TerrainCell::Grass => 0,
        }
    }

    /// The cell that a byte stands for, if it stands for one.
    pub fn from_byte(byte: u8) -> (cell: Option<TerrainCell>)
        ensures
            cell == Self::spec_from_byte(byte),
    {
        if byte == 0 {
            Some(TerrainCell::Grass)
        } else {
            None
        }
    }
}

/// The cells as bytes.
pub open spec fn cells_bytes(cells: Seq<TerrainCell>) -> Seq<u8> {
    Seq::new(cells.len(), |i: int| cells[i].spec_byte())
}

/// Every byte stands for a cell.
pub open spec fn bytes_are_cells(bytes: Seq<u8>) -> bool {
    forall|i: int| 0 <= i < bytes.len() ==> TerrainCell::spec_from_byte(#[trigger] bytes[i]) is Some
}

/// The cells that bytes stand for.
pub open spec fn bytes_cells(bytes: Seq<u8>) -> Seq<TerrainCell> {
    Seq::new(bytes.len(), |i: int| TerrainCell::spec_from_byte(bytes[i]).unwrap())
}

/// The cells as bytes.
pub fn cells_to_bytes(cells: &Vec<TerrainCell>) -> (raw: Vec<u8>)
    ensures
        raw@ == cells_bytes(cells@),
{
    let mut raw: Vec<u8> = Vec::new();
    let mut i: usize = 0;
    while i < cells.len()
        invariant
            i <= cells.len(),
            raw@ == cells_bytes(cells@.subrange(0, i as int)),
        decreases cells.len() - i,
    {
        raw.push(cells[i].byte());
        i = i + 1;
        assert(raw@ =~= cells_bytes(cells@.subrange(0, i as int)));
    }
    assert(cells@.subrange(0, i as int) =~= cells@);
    raw
}

/// The cells that bytes stand for, if each byte stands for one.
pub fn cells_from_bytes(raw: &Vec<u8>) -> (cells: Option<Vec<TerrainCell>>)
    ensures
        cells is Some <==> bytes_are_cells(raw@),
        cells matches Some(c) ==> c@ == bytes_cells(raw@),
{
    let mut cells: Vec<TerrainCell> = Vec::new();
    let mut i: usize = 0;
    while i < raw.len()
        invariant
            i <= raw.len(),
            bytes_are_cells(raw@.subrange(0, i as int)),
            cells@ == bytes_cells(raw@.subrange(0, i as int)),
        decreases raw.len() - i,
    {
        match TerrainCell::from_byte(raw[i]) {
            Some(cell) => {
                cells.push(cell);
            },
            None => {
                assert(TerrainCell::spec_from_byte(raw@[i as int]) is None);
                return None;
            },
        }
        i = i + 1;
        assert(cells@ =~= bytes_cells(raw@.subrange(0, i as int)));
        assert forall|j: int| 0 <= j < i implies TerrainCell::spec_from_byte(
            #[trigger] raw@.subrange(0, i as int)[j],
        ) is Some by {
            if j < i - 1 {
                assert(raw@.subrange(0, i - 1)[j] == raw@[j]);
            }
        }
    }
    assert(raw@.subrange(0, i as int) =~= raw@);
    Some(cells)
}

/// A grid of `width` by `height` cells, row by row.
#[derive(Debug)]
pub struct Terrain {
    width: u32,
    height: u32,
    cells: Vec<TerrainCell>,
}

impl Terrain {
    /// The number of cells in a row.
    pub closed spec fn spec_width(&self) -> u32 {
        self.width
    }

    /// The number of rows.
    pub closed spec fn spec_height(&self) -> u32 {
        self.height
    }

    /// The cells, row by row.
    pub closed spec fn spec_cells(&self) -> Seq<TerrainCell> {
        self.cells@
    }

    /// Makes the grid `width` by `height` cells of grass.
    pub fn init(&mut self, width: u32, height: u32)
        requires
            width * height <= u32::MAX,
        ensures
            final(self).spec_width() == width,
            final(self).spec_height() == height,
            final(self).spec_cells() == Seq::new(
                (width * height) as nat,
                |i: int| TerrainCell::Grass,
            ),
    {
        self.width = width;
        self.height = height;
        let count: usize = (width * height) as usize;
        let mut cells: Vec<TerrainCell> = Vec::new();
        let mut i: usize = 0;
        while i < count
            invariant
                i <= count,
                cells@ == Seq::new(i as nat, |j: int| TerrainCell::Grass),
            decreases count - i,
        {
            cells.push(TerrainCell::Grass);
            i = i + 1;
            assert(cells@ =~= Seq::new(i as nat, |j: int| TerrainCell::Grass));
        }
        self.cells = cells;
    }

    /// The number of cells that the width and the height give.
    pub fn cell_count(&self) -> (count: usize)
        requires
            self.spec_width() * self.spec_height() <= usize::MAX,
        ensures
            count == self.spec_width() * self.spec_height(),
    {
        (self.width as usize) * (self.height as usize)
    }

    /// The number of cells in a row.
    pub fn width(&self) -> (width: u32)
        ensures
            width == self.spec_width(),
    {
        self.width
    }

    /// The number of rows.
    pub fn height(&self) -> (height: u32)
        ensures
            height == self.spec_height(),
    {
        self.height
    }

    /// Cell `i`, counted row by row.
    pub fn cell(&self, i: usize) -> (cell: Option<TerrainCell>)
        ensures
            cell == if i < self.spec_cells().len() {
                Some(self.spec_cells()[i as int])
            } else {
                None
            },
    {
        if i < self.cells.len() {
            Some(self.cells[i])
        } else {
            None
        }
    }

    /// Whether the cells are few enough for a snapshot.
    pub fn can_store(&self) -> (fits: bool)
        ensures
            fits == self.storable(),
    {
        self.cells.len() <= MAX_BYTES
    }

    /// The number of cells that the grid holds.
    pub fn len(&self) -> (n: usize)
        ensures
            n == self.spec_cells().len(),
    {
        self.cells.len()
    }
}

impl Default for Terrain {
    fn default() -> (terrain: Terrain)
        ensures
            terrain.spec_width() == 0,
            terrain.spec_height() == 0,
            terrain.spec_cells() == Seq::<TerrainCell>::empty(),
    {
        Terrain { width: 0, height: 0, cells: Vec::new() }
    }
}

/// Cells come back from their bytes.
pub proof fn lemma_cells_of_bytes(cells: Seq<TerrainCell>)
    ensures
        bytes_are_cells(cells_bytes(cells)),
        bytes_cells(cells_bytes(cells)) == cells,
{
    assert(bytes_cells(cells_bytes(cells)) =~= cells);
}

impl StoreLoad for Terrain {
    type Kept = (u32, u32, Seq<TerrainCell>);

    open spec fn kept(&self) -> Self::Kept {
        (self.spec_width(), self.spec_height(), self.spec_cells())
    }

    /// A snapshot keeps all of it.
    open spec fn loaded(&self) -> bool {
        true
    }

    open spec fn valid(&self) -> bool {
        true
    }

    open spec fn storable(&self) -> bool {
        self.spec_cells().len() <= MAX_BYTES
    }

    open spec fn stored(&self) -> Seq<u8> {
        u32_bytes(self.spec_width()) + u32_bytes(self.spec_height()) + bytes_stored(
            cells_bytes(self.spec_cells()),
        )
    }

    open spec fn parse(bytes: Seq<u8>) -> Option<(Self::Kept, nat)> {
        match u32_parse(bytes) {
            Some((width, _)) => match u32_parse(bytes.skip(4)) {
                Some((height, _)) => match byte_array_parse(bytes.skip(8)) {
                    Some((raw, used)) => if bytes_are_cells(raw) {
                        Some(((width, height, bytes_cells(raw)), 8 + used))
                    } else {
                        None
                    },
                    None => None,
                },
                None => None,
            },
            None => None,
        }
    }

    proof fn lemma_steady(bytes: Seq<u8>, rest: Seq<u8>) {
        let n = bytes.len() as int;
        lemma_u32_steady(bytes, rest);
        lemma_front_kept(bytes, rest, 4, n);
        lemma_u32_steady(bytes.skip(4), rest);
        lemma_front_kept(bytes, rest, 8, n);
        lemma_byte_array_steady(bytes.skip(8), rest);
    }

    proof fn lemma_round_trip(&self, rest: Seq<u8>) {
        let width = u32_bytes(self.spec_width());
        let height = u32_bytes(self.spec_height());
        let raw = cells_bytes(self.spec_cells());
        let cells = bytes_stored(raw);
        lemma_join(width + height, cells, rest);
        lemma_join(width, height, cells + rest);
        lemma_u32_round_trip(self.spec_width(), height + (cells + rest));
        lemma_u32_round_trip(self.spec_height(), cells + rest);
        lemma_skip_front(width + height, cells + rest);
        lemma_bytes_round_trip(raw, rest);
        lemma_cells_of_bytes(self.spec_cells());
    }

    fn store(&mut self, writer: &mut StoreWriter) {
        writer.write(&self.width);
        writer.write(&self.height);
        let raw = cells_to_bytes(&self.cells);
        writer.write_byte_array(raw.as_slice());
        proof {
            assert(crate::store::record_stored(self.width) =~= u32_bytes(self.width)) by {
                reveal_with_fuel(crate::bytes::words_bytes, 2);
            }
            assert(crate::store::record_stored(self.height) =~= u32_bytes(self.height)) by {
                reveal_with_fuel(crate::bytes::words_bytes, 2);
            }
        }
    }

    fn load(reader: &mut StoreReader) -> (result: Result<Self, Error>) {
        let ghost rest = reader.remaining();
        let width: u32 = match reader.try_read::<u32>() {
            Ok(v) => v,
            Err(e) => {
                return Err(e);
            },
        };
        let height: u32 = match reader.try_read::<u32>() {
            Ok(v) => v,
            Err(e) => {
                return Err(e);
            },
        };
        proof {
            lemma_word_record(rest);
            lemma_word_record(rest.skip(4));
            assert(rest.skip(4).skip(4) =~= rest.skip(8));
        }
        let raw = match reader.read_array_transmute() {
            Ok(v) => v,
            Err(e) => {
                return Err(e);
            },
        };
        let ghost used = byte_array_parse(rest.skip(8)).unwrap().1;
        assert(rest.skip(8).skip(used as int) =~= rest.skip(8 + used as int));
        match cells_from_bytes(&raw) {
            Some(cells) => Ok(Terrain { width, height, cells }),
            None => Err(Error::corrupt_data("Failed to read data")),
        }
    }
}

/// A word read as a record is the word.
pub proof fn lemma_word_record(bytes: Seq<u8>)
    ensures
        crate::store::record_parse::<u32>(bytes) == u32_parse(bytes),
{
    if bytes.len() >= 4 {
        crate::bytes::lemma_u32_value_prefix(bytes);
        assert(bytes.subrange(0, 4).subrange(0, 4) =~= bytes.subrange(0, 4));
        assert(crate::bytes::bytes_words(bytes.subrange(0, 4)).len() == 1);
    }
}

} // verus!
