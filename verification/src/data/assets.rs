//! What the simulation knows of its assets: textures by name, fonts by name,
//! and where each sprite lies in the atlas.

use crate::data::base::{AnimatedSprite, StaticSprite};
use crate::client::GameClientInit;
use crate::error::{Error, ErrorKind};
use crate::output::protocol::decimal;
use crate::shared::{csv_rows, merge_error, rows_text, split_csv};
use crate::record::Record;
use crate::shared::AABB;
use crate::store::laws::{
    lemma_skip_skip,
    lemma_bytes_map_round_trip, lemma_entry_views_map, lemma_join, lemma_record_map_round_trip,
    lemma_record_round_trip, lemma_skip_front,
};
use crate::store::{
    bytes_map_parse, bytes_map_stored, bytes_view, entries_fit, keys_fit, record_map_parse,
    record_map_stored, record_parse, record_stored, StoreLoad, StoreReader, StoreWriter,
};
use crate::string_map::{pairs_map, StringMap};
use crate::store::prefix::{
    lemma_bytes_map_steady, lemma_front_kept, lemma_record_map_steady, lemma_record_steady,
};
use vstd::prelude::*;
use vstd::string::{is_ascii, StringExecFns, StringSliceAdditionalSpecFns};
use vstd::utf8::encode_utf8;

verus! {

/// A texture on the side of the host.
#[derive(Default, Debug, Copy, Clone, PartialEq, Eq, Structural)]
pub struct Texture {
    /// The number by which the host knows the texture.
    pub id: u32,
}

impl Record for Texture {
    open spec fn spec_word_count() -> nat {
        1
    }

    open spec fn words(&self) -> Seq<u32> {
        seq![
            self.id,
        ]
    }

    open spec fn from_words(words: Seq<u32>) -> Option<Self> {
        Some(
            Texture { id: words[0] },
        )
    }

    proof fn lemma_words(&self) {
    }

    proof fn lemma_word_count() {
    }

    fn word_count() -> (n: usize) {
        1
    }

    fn to_words(&self) -> (words: Vec<u32>) {
        vec![
            self.id,
        ]
    }

    fn try_from_words(words: &[u32]) -> (value: Option<Self>) {
        Some(
            Texture { id: words[0] },
        )
    }
}

/// Where each sprite lies in the atlas.
#[derive(Default, Debug, Copy, Clone, PartialEq, Eq, Structural)]
pub struct AtlasData {
    pub texture: Texture,
    pub pawn_idle: AnimatedSprite,
    pub pawn_walk: AnimatedSprite,
    pub castle: StaticSprite,
    pub house: StaticSprite,
}

impl Record for AtlasData {
    open spec fn spec_word_count() -> nat {
        19
    }

    open spec fn words(&self) -> Seq<u32> {
        seq![
            self.texture.id,
            self.pawn_idle.sprite_base.left,
            self.pawn_idle.sprite_base.top,
            self.pawn_idle.sprite_base.right,
            self.pawn_idle.sprite_base.bottom,
            self.pawn_idle.frame_count,
            self.pawn_walk.sprite_base.left,
            self.pawn_walk.sprite_base.top,
            self.pawn_walk.sprite_base.right,
            self.pawn_walk.sprite_base.bottom,
            self.pawn_walk.frame_count,
            self.castle.texcoord.left,
            self.castle.texcoord.top,
            self.castle.texcoord.right,
            self.castle.texcoord.bottom,
            self.house.texcoord.left,
            self.house.texcoord.top,
            self.house.texcoord.right,
            self.house.texcoord.bottom,
        ]
    }

    open spec fn from_words(words: Seq<u32>) -> Option<Self> {
        Some(
            AtlasData {
                texture: Texture { id: words[0] },
                pawn_idle: AnimatedSprite {
                    sprite_base: AABB {
                        left: words[1],
                        top: words[2],
                        right: words[3],
                        bottom: words[4],
                    },
                    frame_count: words[5],
                },
                pawn_walk: AnimatedSprite {
                    sprite_base: AABB {
                        left: words[6],
                        top: words[7],
                        right: words[8],
                        bottom: words[9],
                    },
                    frame_count: words[10],
                },
                castle: StaticSprite {
                    texcoord: AABB {
                        left: words[11],
                        top: words[12],
                        right: words[13],
                        bottom: words[14],
                    },
                },
                house: StaticSprite {
                    texcoord: AABB {
                        left: words[15],
                        top: words[16],
                        right: words[17],
                        bottom: words[18],
                    },
                },
            },
        )
    }

    proof fn lemma_words(&self) {
    }

    proof fn lemma_word_count() {
    }

    fn word_count() -> (n: usize) {
        19
    }

    fn to_words(&self) -> (words: Vec<u32>) {
        vec![
            self.texture.id,
            self.pawn_idle.sprite_base.left,
            self.pawn_idle.sprite_base.top,
            self.pawn_idle.sprite_base.right,
            self.pawn_idle.sprite_base.bottom,
            self.pawn_idle.frame_count,
            self.pawn_walk.sprite_base.left,
            self.pawn_walk.sprite_base.top,
            self.pawn_walk.sprite_base.right,
            self.pawn_walk.sprite_base.bottom,
            self.pawn_walk.frame_count,
            self.castle.texcoord.left,
            self.castle.texcoord.top,
            self.castle.texcoord.right,
            self.castle.texcoord.bottom,
            self.house.texcoord.left,
            self.house.texcoord.top,
            self.house.texcoord.right,
            self.house.texcoord.bottom,
        ]
    }

    fn try_from_words(words: &[u32]) -> (value: Option<Self>) {
        Some(
            AtlasData {
                texture: Texture { id: words[0] },
                pawn_idle: AnimatedSprite {
                    sprite_base: AABB {
                        left: words[1],
                        top: words[2],
                        right: words[3],
                        bottom: words[4],
                    },
                    frame_count: words[5],
                },
                pawn_walk: AnimatedSprite {
                    sprite_base: AABB {
                        left: words[6],
                        top: words[7],
                        right: words[8],
                        bottom: words[9],
                    },
                    frame_count: words[10],
                },
                castle: StaticSprite {
                    texcoord: AABB {
                        left: words[11],
                        top: words[12],
                        right: words[13],
                        bottom: words[14],
                    },
                },
                house: StaticSprite {
                    texcoord: AABB {
                        left: words[15],
                        top: words[16],
                        right: words[17],
                        bottom: words[18],
                    },
                },
            },
        )
    }
}

/// The assets of the simulation.
#[derive(Debug)]
pub struct Assets {
    pub textures: StringMap<Texture>,
    pub fonts: StringMap<Vec<u8>>,
    pub atlas: AtlasData,
}

impl Default for Assets {
    fn default() -> (assets: Assets)
        ensures
            assets.valid(),
            assets.textures@ == Map::<Seq<char>, Texture>::empty(),
            assets.fonts@ == Map::<Seq<char>, Vec<u8>>::empty(),
    {
        Assets::new()
    }
}

impl Assets {
    /// Whether every name and every font is short enough for a snapshot.
    pub fn can_store(&self) -> (fits: bool)
        requires
            self.valid(),
        ensures
            fits == self.storable(),
    {
        if self.textures.len() > 0xFFFF_FFFF || self.fonts.len() > 0xFFFF_FFFF {
            return false;
        }
        let mut i: usize = 0;
        while i < self.textures.len()
            invariant
                i <= self.textures.pairs().len(),
                keys_fit(self.textures.pairs(), i as nat),
            decreases self.textures.pairs().len() - i,
        {
            if self.textures.key(i).as_bytes().len() > crate::store::MAX_BYTES {
                assert(encode_utf8(self.textures.pairs()[i as int].0).len()
                    > crate::store::MAX_BYTES);
                return false;
            }
            i = i + 1;
        }
        let mut j: usize = 0;
        while j < self.fonts.len()
            invariant
                j <= self.fonts.pairs().len(),
                self.valid(),
                self.textures.pairs().len() <= u32::MAX,
                self.fonts.pairs().len() <= u32::MAX,
                keys_fit(self.textures.pairs(), self.textures.pairs().len()),
                entries_fit(self.fonts.pairs(), j as nat),
            decreases self.fonts.pairs().len() - j,
        {
            if self.fonts.key(j).as_bytes().len() > crate::store::MAX_BYTES || self.fonts.value(
                j,
            ).len() > crate::store::MAX_BYTES {
                assert(encode_utf8(self.fonts.pairs()[j as int].0).len() > crate::store::MAX_BYTES
                    || self.fonts.pairs()[j as int].1@.len() > crate::store::MAX_BYTES);
                return false;
            }
            j = j + 1;
        }
        true
    }

    /// No assets.
    pub fn new() -> (assets: Assets)
        ensures
            assets.valid(),
            assets.textures@ == Map::<Seq<char>, Texture>::empty(),
            assets.fonts@ == Map::<Seq<char>, Vec<u8>>::empty(),
            assets.atlas == spec_zero_atlas(),
    {
        Assets { textures: StringMap::new(), fonts: StringMap::new(), atlas: zero_atlas() }
    }
}

/// An atlas of which nothing is known yet: every number in it is zero.
pub open spec fn spec_zero_atlas() -> AtlasData {
    let zero = AABB { left: 0, top: 0, right: 0, bottom: 0 };
    AtlasData {
        texture: Texture { id: 0 },
        pawn_idle: AnimatedSprite { sprite_base: zero, frame_count: 0 },
        pawn_walk: AnimatedSprite { sprite_base: zero, frame_count: 0 },
        castle: StaticSprite { texcoord: zero },
        house: StaticSprite { texcoord: zero },
    }
}

/// An atlas of which nothing is known yet.
pub fn zero_atlas() -> (atlas: AtlasData)
    ensures
        atlas == spec_zero_atlas(),
{
    let zero = AABB { left: 0, top: 0, right: 0, bottom: 0 };
    AtlasData {
        texture: Texture { id: 0 },
        pawn_idle: AnimatedSprite { sprite_base: zero, frame_count: 0 },
        pawn_walk: AnimatedSprite { sprite_base: zero, frame_count: 0 },
        castle: StaticSprite { texcoord: zero },
        house: StaticSprite { texcoord: zero },
    }
}

impl StoreLoad for Assets {
    type Kept = (Map<Seq<char>, Texture>, Map<Seq<char>, Seq<u8>>, AtlasData);

    open spec fn kept(&self) -> Self::Kept {
        (self.textures@, bytes_view(self.fonts@), self.atlas)
    }

    /// A snapshot keeps all of it.
    open spec fn loaded(&self) -> bool {
        true
    }

    open spec fn valid(&self) -> bool {
        &&& self.textures.wf()
        &&& self.fonts.wf()
    }

    open spec fn storable(&self) -> bool {
        &&& self.textures.wf()
        &&& self.textures.pairs().len() <= u32::MAX
        &&& keys_fit(self.textures.pairs(), self.textures.pairs().len())
        &&& self.fonts.wf()
        &&& self.fonts.pairs().len() <= u32::MAX
        &&& entries_fit(self.fonts.pairs(), self.fonts.pairs().len())
    }

    open spec fn stored(&self) -> Seq<u8> {
        record_map_stored(self.textures.pairs()) + bytes_map_stored(self.fonts.pairs())
            + record_stored(self.atlas)
    }

    open spec fn parse(bytes: Seq<u8>) -> Option<(Self::Kept, nat)> {
        match record_map_parse::<Texture>(bytes) {
            Some((k0, u0)) => match bytes_map_parse(bytes.skip((u0) as int)) {
                Some((k1, u1)) => match record_parse::<AtlasData>(bytes.skip((u0 + u1) as int)) {
                    Some((k2, u2)) => Some(
                        (
                            (pairs_map(k0, k0.len()), pairs_map(k1, k1.len()), k2),
                            u0 + u1 + u2,
                        ),
                    ),
                    None => None,
                },
                None => None,
            },
            None => None,
        }
    }

    proof fn lemma_steady(bytes: Seq<u8>, rest: Seq<u8>) {
        let n = bytes.len() as int;
        lemma_record_map_steady::<Texture>(bytes, rest);
        let u0 = record_map_parse::<Texture>(bytes).unwrap().1;
        lemma_front_kept(bytes, rest, (u0) as int, n);
        let b1 = bytes.skip((u0) as int);
        lemma_bytes_map_steady(b1, rest);
        let u1 = bytes_map_parse(b1).unwrap().1;
        lemma_front_kept(bytes, rest, (u0 + u1) as int, n);
        let b2 = bytes.skip((u0 + u1) as int);
        lemma_record_steady::<AtlasData>(b2, rest);
        let u2 = record_parse::<AtlasData>(b2).unwrap().1;
    }

    proof fn lemma_round_trip(&self, rest: Seq<u8>) {
        let s0 = record_map_stored(self.textures.pairs());
        let s1 = bytes_map_stored(self.fonts.pairs());
        let s2 = record_stored(self.atlas);
        let t3 = rest;
        let t2 = s2 + t3;
        let t1 = s1 + t2;
        lemma_join(s0 + s1, s2, t3);
        lemma_join(s0, s1, t2);
        lemma_record_map_round_trip(self.textures.pairs(), t1);
        lemma_bytes_map_round_trip(self.fonts.pairs(), t2);
        lemma_entry_views_map(self.fonts.pairs(), self.fonts.pairs().len());
        lemma_record_round_trip(self.atlas, t3);
        lemma_skip_front(s0, t1);
        lemma_skip_front(s0, s1);
        lemma_skip_front(s0 + s1, t2);
        lemma_skip_front(s0 + s1, s2);
        lemma_skip_front(s0 + s1 + s2, t3);
    }

    fn store(&mut self, writer: &mut StoreWriter) {
        let ghost start = writer@;
        let ghost s0 = record_map_stored(self.textures.pairs());
        let ghost s1 = bytes_map_stored(self.fonts.pairs());
        let ghost s2 = record_stored(self.atlas);
        writer.write_string_hashmap(&self.textures);
        writer.write_string_array_hashmap(&self.fonts);
        writer.write(&self.atlas);
        proof {
            lemma_join(start, s0, s1);
            lemma_join(start, s0 + s1, s2);
        }
    }

    fn load(reader: &mut StoreReader) -> (result: Result<Self, Error>) {
        let ghost rest = reader.remaining();
        let ghost before0 = reader.remaining();
        let v0 = match reader.read_string_hashmap::<Texture>() {
            Ok(value) => value,
            Err(e) => {
                return Err(e);
            },
        };
        let ghost found_a = record_map_parse::<Texture>(before0).unwrap();
        let ghost u0 = found_a.1;
        assert(reader.remaining() == rest.skip(u0 as int));
        let ghost before1 = reader.remaining();
        let v1 = match reader.read_string_array_hashmap() {
            Ok(value) => value,
            Err(e) => {
                return Err(e);
            },
        };
        let ghost found_b = bytes_map_parse(before1).unwrap();
        let ghost u1 = found_b.1;
        proof {
            lemma_skip_skip(rest, (u0) as int, u1 as int);
        }
        assert(reader.remaining() == rest.skip((u0 + u1) as int));
        let ghost before2 = reader.remaining();
        let v2 = match reader.try_read::<AtlasData>() {
            Ok(value) => value,
            Err(e) => {
                return Err(e);
            },
        };
        let ghost found_c = record_parse::<AtlasData>(before2).unwrap();
        let ghost u2 = found_c.1;
        proof {
            lemma_skip_skip(rest, (u0 + u1) as int, u2 as int);
        }
        assert(reader.remaining() == rest.skip((u0 + u1 + u2) as int));
        Ok(Assets { textures: v0, fonts: v1, atlas: v2 })
    }
}

/// What `str::parse::<u32>` makes of a text: the number that the text says,
/// or nothing where it says none that fits 32 bits.
pub uninterp spec fn parsed_u32(text: Seq<char>) -> Option<u32>;

/// Reads a number, if the text is one.
///
/// Trusted: what `str::parse::<u32>` gives depends on the text alone, and is
/// named `parsed_u32`. It reads a number that is written in decimal without
/// leading zeros and fits 32 bits as that number.
#[verifier::external_body]
fn parse_u32(text: &str) -> (value: Option<u32>)
    ensures
        value == parsed_u32(text@),
        forall|n: nat| n <= u32::MAX && text@ == #[trigger] decimal(n) ==> value == Some(n as u32),
{
    text.parse::<u32>().ok()
}

/// The number of frames that a row gives: what was read, or zero where
/// nothing was.
pub open spec fn frames_read(read: Option<u32>) -> u32 {
    match read {
        Some(count) => count,
        None => 0,
    }
}

/// Whether two texts are the same.
fn same_text(a: &str, b: &str) -> (same: bool)
    ensures
        same == (a@ == b@),
{
    a.to_owned() == b.to_owned()
}

/// What a row of the atlas table says, if it names a sprite that the atlas
/// knows: the row is the name, the number of frames, and left, top, right
/// and bottom, which `parse` reads. A number of frames that is no number
/// counts as zero.
pub open spec fn atlas_row_read<F: Fn(&str) -> u32>(
    before: AtlasData,
    after: AtlasData,
    row: Seq<&str>,
    parse: F,
) -> bool {
    if row.len() < 6 {
        after == before
    } else {
        exists|sides: AABB|
            {
                &&& parse.ensures((row[2],), sides.left)
                &&& parse.ensures((row[3],), sides.top)
                &&& parse.ensures((row[4],), sides.right)
                &&& parse.ensures((row[5],), sides.bottom)
                &&& #[trigger] atlas_row_set(
                    before,
                    after,
                    row[0]@,
                    frames_read(parsed_u32(row[1]@)),
                    sides,
                )
            }
    }
}

/// The atlas with the sprite of the given name set; an unknown name changes
/// nothing.
pub open spec fn atlas_row_set(
    before: AtlasData,
    after: AtlasData,
    name: Seq<char>,
    frame_count: u32,
    sides: AABB,
) -> bool {
    after == if name == "pawn_idle"@ {
        AtlasData { pawn_idle: AnimatedSprite { sprite_base: sides, frame_count }, ..before }
    } else if name == "pawn_walk"@ {
        AtlasData { pawn_walk: AnimatedSprite { sprite_base: sides, frame_count }, ..before }
    } else if name == "knight_castle"@ {
        AtlasData { castle: StaticSprite { texcoord: sides }, ..before }
    } else if name == "knight_house"@ {
        AtlasData { house: StaticSprite { texcoord: sides }, ..before }
    } else {
        before
    }
}

/// The atlas after the first `n` rows of the table are read, one after the
/// other.
pub open spec fn atlas_rows_read<F: Fn(&str) -> u32>(
    before: AtlasData,
    after: AtlasData,
    rows: Seq<Vec<&str>>,
    n: nat,
    parse: F,
) -> bool
    decreases n,
{
    if n == 0 {
        after == before
    } else {
        exists|middle: AtlasData|
            atlas_rows_read(before, middle, rows, (n - 1) as nat, parse)
                && #[trigger] atlas_row_read(
                middle,
                after,
                rows[n - 1]@,
                parse,
            )
    }
}

proof fn lemma_atlas_step<F: Fn(&str) -> u32>(
    before: AtlasData,
    middle: AtlasData,
    after: AtlasData,
    rows: Seq<Vec<&str>>,
    n: nat,
    parse: F,
)
    requires
        n > 0,
        atlas_rows_read(before, middle, rows, (n - 1) as nat, parse),
        atlas_row_read(middle, after, rows[n - 1]@, parse),
    ensures
        atlas_rows_read(before, after, rows, n, parse),
{
}

impl AtlasData {
    /// Sets the sprite of the given name: where it lies, and for a pawn the
    /// number of its frames, as it was read. An unknown name changes nothing.
    pub fn set_row(&mut self, name: &str, read: Option<u32>, sides: AABB)
        ensures
            atlas_row_set(*old(self), *final(self), name@, frames_read(read), sides),
    {
        let frame_count: u32 = match read {
            Some(count) => count,
            None => 0,
        };
        if same_text(name, "pawn_idle") {
            self.pawn_idle = AnimatedSprite { sprite_base: sides, frame_count };
        } else if same_text(name, "pawn_walk") {
            self.pawn_walk = AnimatedSprite { sprite_base: sides, frame_count };
        } else if same_text(name, "knight_castle") {
            self.castle = StaticSprite { texcoord: sides };
        } else if same_text(name, "knight_house") {
            self.house = StaticSprite { texcoord: sides };
        }
    }

    /// Reads the table of the atlas: each row names a sprite and says where
    /// it lies. `parse` reads a floating point number and gives its bit
    /// pattern. A row of fewer than six fields says nothing.
    pub fn load_csv<F: Fn(&str) -> u32>(&mut self, csv: &str, parse: &F)
        requires
            is_ascii(csv),
            forall|text: &str| parse.requires((text,)),
        ensures
            exists|rows: Seq<Vec<&str>>|
                rows_text(rows) == csv_rows(csv@, 6) && #[trigger] atlas_rows_read(
                    *old(self),
                    *final(self),
                    rows,
                    rows.len(),
                    *parse,
                ),
    {
        let rows = split_csv::<6>(csv);
        let mut i: usize = 0;
        while i < rows.len()
            invariant
                i <= rows.len(),
                forall|text: &str| parse.requires((text,)),
                atlas_rows_read(*old(self), *self, rows@, i as nat, *parse),
            decreases rows.len() - i,
        {
            let args = &rows[i];
            let ghost middle = *self;
            if args.len() >= 6 {
                let name: &str = args[0];
                let read: Option<u32> = parse_u32(args[1]);
                let left: u32 = parse(args[2]);
                let top: u32 = parse(args[3]);
                let right: u32 = parse(args[4]);
                let bottom: u32 = parse(args[5]);
                let sides = AABB { left, top, right, bottom };
                self.set_row(name, read, sides);
                assert(atlas_row_set(
                    middle,
                    *self,
                    args@[0]@,
                    frames_read(parsed_u32(args@[1]@)),
                    sides,
                ));
            }
            proof {
                lemma_atlas_step(*old(self), middle, *self, rows@, (i + 1) as nat, *parse);
            }
            i = i + 1;
        }
    }
}

/// A failure to find an asset, with the one message `text`.
pub open spec fn asset_failure(result: Result<(), Error>, text: Seq<char>) -> bool {
    result matches Err(e) && e.spec_kind() == ErrorKind::Assets && e.texts() == seq![text]
}

/// What a row that names a texture does: the texture is taken in under its
/// name, with the next free number; a row without a name fails.
pub open spec fn texture_loaded(
    before: Assets,
    after: Assets,
    args: Seq<&str>,
    result: Result<(), Error>,
) -> bool {
    &&& after.fonts == before.fonts
    &&& after.atlas == before.atlas
    &&& if args.len() > 1 {
        &&& result is Ok
        &&& after.textures@ == before.textures@.insert(
            args[1]@,
            Texture { id: before.textures.pairs().len() as u32 },
        )
    } else {
        asset_failure(result, "Missing texture name"@) && after.textures == before.textures
    }
}

/// What a row that names a font does: the font is taken in out of what the
/// host has handed over; a row without a name, or with a name that the host
/// has handed nothing over for, fails.
pub open spec fn font_loaded(
    before: Assets,
    after: Assets,
    init: GameClientInit,
    args: Seq<&str>,
    result: Result<(), Error>,
) -> bool {
    &&& after.textures == before.textures
    &&& after.atlas == before.atlas
    &&& if args.len() <= 1 {
        asset_failure(result, "Missing font name"@) && after.fonts == before.fonts
    } else if !init.bin_assets@.dom().contains(args[1]@) {
        asset_failure(result, "Failed to match font name to font data"@) && after.fonts
            == before.fonts
    } else {
        &&& result is Ok
        &&& after.fonts@.dom() == before.fonts@.dom().insert(args[1]@)
        &&& after.fonts@[args[1]@]@ == init.bin_assets@[args[1]@]@
        &&& forall|key: Seq<char>|
            key != args[1]@ && before.fonts@.dom().contains(key) ==> #[trigger] after.fonts@[key]
                == before.fonts@[key]
    }
}

/// What a row that names a table does: the table of the atlas is read out
/// of what the host has handed over, and any other table is left alone; a
/// row without a name, or with a name that the host has handed nothing
/// over for, fails, and so does a table of the atlas that is not ASCII.
pub open spec fn csv_loaded<F: Fn(&str) -> u32>(
    before: Assets,
    after: Assets,
    init: GameClientInit,
    args: Seq<&str>,
    result: Result<(), Error>,
    parse: F,
) -> bool {
    &&& after.textures == before.textures
    &&& after.fonts == before.fonts
    &&& if args.len() <= 1 {
        asset_failure(result, "Missing csv name"@) && after.atlas == before.atlas
    } else if !init.text_assets@.dom().contains(args[1]@) {
        asset_failure(result, "Failed to match csv name to csv data"@) && after.atlas
            == before.atlas
    } else if args[1]@ == "atlas_sprites"@ {
        let table = init.text_assets@[args[1]@]@;
        if vstd::utf8::is_ascii_chars(table) {
            &&& result is Ok
            &&& exists|rows: Seq<Vec<&str>>|
                rows_text(rows) == csv_rows(table, 6) && #[trigger] atlas_rows_read(
                    before.atlas,
                    after.atlas,
                    rows,
                    rows.len(),
                    parse,
                )
        } else {
            asset_failure(result, "Table is not ASCII"@) && after.atlas == before.atlas
        }
    } else {
        result is Ok && after.atlas == before.atlas
    }
}

/// What a row of the asset index does, by the kind of asset that its first
/// field names. A shader asks nothing of the simulation; a kind that the
/// simulation does not know fails.
pub open spec fn row_imported<F: Fn(&str) -> u32>(
    before: Assets,
    after: Assets,
    init: GameClientInit,
    args: Seq<&str>,
    result: Result<(), Error>,
    parse: F,
) -> bool {
    if args.len() == 0 {
        result is Ok && after == before
    } else if args[0]@ == "TEXTURE"@ {
        texture_loaded(before, after, args, result)
    } else if args[0]@ == "CSV"@ {
        csv_loaded(before, after, init, args, result, parse)
    } else if args[0]@ == "FONT"@ {
        font_loaded(before, after, init, args, result)
    } else if args[0]@ == "SHADER"@ {
        result is Ok && after == before
    } else {
        asset_failure(result, "Unknown asset type "@ + args[0]@) && after == before
    }
}

/// The failures so far with the outcome of one more row: a failure adds
/// its messages to those that are there.
pub open spec fn failure_noted(
    before: Option<Error>,
    after: Option<Error>,
    result: Result<(), Error>,
) -> bool {
    match result {
        Ok(_) => after == before,
        Err(new) => after is Some && match before {
            Some(first) => after.unwrap().spec_kind() == first.spec_kind()
                && after.unwrap().texts() == first.texts() + new.texts(),
            None => after.unwrap() == new,
        },
    }
}

/// The assets and the failures after the first `n` rows of the asset index,
/// one after the other. A row that fails does not stop the rows after it.
pub open spec fn rows_imported<F: Fn(&str) -> u32>(
    before: Assets,
    after: Assets,
    failed: Option<Error>,
    init: GameClientInit,
    rows: Seq<Vec<&str>>,
    n: nat,
    parse: F,
) -> bool
    decreases n,
{
    if n == 0 {
        after == before && failed is None
    } else {
        exists|middle: Assets, failed_before: Option<Error>, result: Result<(), Error>|
            {
                &&& rows_imported(before, middle, failed_before, init, rows, (n - 1) as nat, parse)
                &&& #[trigger] row_imported(middle, after, init, rows[n - 1]@, result, parse)
                &&& #[trigger] failure_noted(failed_before, failed, result)
            }
    }
}

proof fn lemma_row_step<F: Fn(&str) -> u32>(
    before: Assets,
    middle: Assets,
    after: Assets,
    failed_before: Option<Error>,
    failed: Option<Error>,
    result: Result<(), Error>,
    init: GameClientInit,
    rows: Seq<Vec<&str>>,
    n: nat,
    parse: F,
)
    requires
        n > 0,
        rows_imported(before, middle, failed_before, init, rows, (n - 1) as nat, parse),
        row_imported(middle, after, init, rows[n - 1]@, result, parse),
        failure_noted(failed_before, failed, result),
    ensures
        rows_imported(before, after, failed, init, rows, n, parse),
{
}

/// What the asset index does: every row is worked through, and the index
/// fails with all the failures of its rows as one, or not at all. An index
/// that is not ASCII fails as a whole.
pub open spec fn index_imported<F: Fn(&str) -> u32>(
    before: Assets,
    after: Assets,
    init: GameClientInit,
    result: Result<(), Error>,
    parse: F,
) -> bool {
    if vstd::utf8::is_ascii_chars(init.assets_bundle@) {
        exists|rows: Seq<Vec<&str>>, failed: Option<Error>|
            {
                &&& rows_text(rows) == csv_rows(init.assets_bundle@, 5)
                &&& #[trigger] rows_imported(before, after, failed, init, rows, rows.len(), parse)
                &&& match failed {
                    Some(e) => result == Err::<(), Error>(e),
                    None => result is Ok,
                }
            }
    } else {
        asset_failure(result, "Asset index is not ASCII"@) && after == before
    }
}

impl Assets {
    /// Works through the asset index that the host has handed over.
    pub fn import_assets_index<F: Fn(&str) -> u32>(
        &mut self,
        init: &GameClientInit,
        parse: &F,
    ) -> (result: Result<(), Error>)
        requires
            old(self).valid(),
            init.text_assets.wf(),
            init.bin_assets.wf(),
            forall|text: &str| parse.requires((text,)),
        ensures
            final(self).valid(),
            index_imported(*old(self), *final(self), *init, result, *parse),
    {
        let bundle: &str = init.assets_bundle.as_str();
        if !bundle.is_ascii() {
            return Err(Error::assets("Asset index is not ASCII"));
        }
        let mut error: Option<Error> = None;
        let rows = split_csv::<5>(bundle);
        let mut i: usize = 0;
        while i < rows.len()
            invariant
                i <= rows.len(),
                self.valid(),
                init.text_assets.wf(),
                init.bin_assets.wf(),
                forall|text: &str| parse.requires((text,)),
                rows_imported(*old(self), *self, error, *init, rows@, i as nat, *parse),
            decreases rows.len() - i,
        {
            let args = &rows[i];
            let ghost middle = *self;
            let ghost failed_before = error;
            let result: Result<(), Error> = if args.len() == 0 {
                Ok(())
            } else if same_text(args[0], "TEXTURE") {
                self.load_texture(args)
            } else if same_text(args[0], "CSV") {
                self.load_csv(init, args, parse)
            } else if same_text(args[0], "FONT") {
                self.load_font(init, args)
            } else if same_text(args[0], "SHADER") {
                Ok(())
            } else {
                let mut message = String::new();
                message.append("Unknown asset type ");
                message.append(args[0]);
                assert(message@ =~= "Unknown asset type "@ + args@[0]@);
                Err(Error::assets(message.as_str()))
            };
            assert(row_imported(middle, *self, *init, rows@[i as int]@, result, *parse));
            let ghost noted = result;
            match result {
                Ok(_) => {},
                Err(new_error) => {
                    merge_error(&mut error, new_error);
                },
            }
            proof {
                lemma_row_step(
                    *old(self),
                    middle,
                    *self,
                    failed_before,
                    error,
                    noted,
                    *init,
                    rows@,
                    (i + 1) as nat,
                    *parse,
                );
            }
            i = i + 1;
        }
        match error {
            Some(err) => Err(err),
            None => Ok(()),
        }
    }

    /// Takes the assets in that the host has handed over. The texture of
    /// the atlas has to be among them.
    pub fn init<F: Fn(&str) -> u32>(&mut self, init: &GameClientInit, parse: F) -> (result: Result<
        (),
        Error,
    >)
        requires
            old(self).valid(),
            init.text_assets.wf(),
            init.bin_assets.wf(),
            forall|text: &str| parse.requires((text,)),
        ensures
            final(self).valid(),
            exists|imported: Assets, outcome: Result<(), Error>|
                {
                    &&& #[trigger] index_imported(*old(self), imported, *init, outcome, parse)
                    &&& match outcome {
                        Err(e) => result == Err::<(), Error>(e) && *final(self) == imported,
                        Ok(_) => if imported.textures@.dom().contains("atlas"@) {
                            &&& result is Ok
                            &&& final(self).atlas == (AtlasData {
                                texture: imported.textures@["atlas"@],
                                ..imported.atlas
                            })
                            &&& final(self).textures@ == imported.textures@.insert(
                                "TEST"@,
                                Texture { id: 999 },
                            )
                            &&& final(self).fonts == imported.fonts
                        } else {
                            asset_failure(result, "Missing texture \"atlas\" "@) && *final(self)
                                == imported
                        },
                    }
                },
    {
        let outcome = self.import_assets_index(init, &parse);
        let ghost imported = *self;
        let ghost noted = outcome;
        match outcome {
            Ok(_) => {},
            Err(e) => {
                assert(index_imported(*old(self), imported, *init, noted, parse));
                return Err(e);
            },
        }
        let texture: Texture = match self.textures.get("atlas") {
            Some(texture) => *texture,
            None => {
                assert(index_imported(*old(self), imported, *init, noted, parse));
                return Err(Error::assets("Missing texture \"atlas\" "));
            },
        };
        self.atlas.texture = texture;
        self.textures.insert("TEST".to_owned(), Texture { id: 999 });
        assert(index_imported(*old(self), imported, *init, noted, parse));
        Ok(())
    }

    /// Takes a texture in under the name in the second field of the row,
    /// with the next free number.
    pub fn load_texture(&mut self, args: &Vec<&str>) -> (result: Result<(), Error>)
        requires
            old(self).valid(),
        ensures
            final(self).valid(),
            texture_loaded(*old(self), *final(self), args@, result),
    {
        if args.len() <= 1 {
            return Err(Error::assets("Missing texture name"));
        }
        let name: String = args[1].to_owned();
        let id: u32 = self.textures.len() as u32;
        self.textures.insert(name, Texture { id });
        Ok(())
    }

    /// Takes the font in whose name is in the second field of the row, out
    /// of what the host has handed over.
    pub fn load_font(&mut self, init: &GameClientInit, args: &Vec<&str>) -> (result: Result<
        (),
        Error,
    >)
        requires
            old(self).valid(),
            init.bin_assets.wf(),
        ensures
            final(self).valid(),
            font_loaded(*old(self), *final(self), *init, args@, result),
    {
        if args.len() <= 1 {
            return Err(Error::assets("Missing font name"));
        }
        let font_name: &str = args[1];
        let font_data: &Vec<u8> = match init.bin_assets.get(font_name) {
            Some(data) => data,
            None => {
                return Err(Error::assets("Failed to match font name to font data"));
            },
        };
        let copy: Vec<u8> = vstd::slice::slice_to_vec(font_data.as_slice());
        self.fonts.insert(font_name.to_owned(), copy);
        assert(self.fonts@.dom() =~= old(self).fonts@.dom().insert(args@[1]@));
        Ok(())
    }

    /// Reads the table whose name is in the second field of the row, out of
    /// what the host has handed over. Only the table of the atlas is known.
    pub fn load_csv<F: Fn(&str) -> u32>(
        &mut self,
        init: &GameClientInit,
        args: &Vec<&str>,
        parse: &F,
    ) -> (result: Result<(), Error>)
        requires
            old(self).valid(),
            init.text_assets.wf(),
            forall|text: &str| parse.requires((text,)),
        ensures
            final(self).valid(),
            csv_loaded(*old(self), *final(self), *init, args@, result, *parse),
    {
        if args.len() <= 1 {
            return Err(Error::assets("Missing csv name"));
        }
        let csv_name: &str = args[1];
        let csv_string: &String = match init.text_assets.get(csv_name) {
            Some(text) => text,
            None => {
                return Err(Error::assets("Failed to match csv name to csv data"));
            },
        };
        if same_text(csv_name, "atlas_sprites") {
            let table: &str = csv_string.as_str();
            if !table.is_ascii() {
                return Err(Error::assets("Table is not ASCII"));
            }
            self.atlas.load_csv(table, parse);
            proof {
                let rows = choose|rows: Seq<Vec<&str>>|
                    rows_text(rows) == csv_rows(table@, 6) && #[trigger] atlas_rows_read(
                        old(self).atlas,
                        self.atlas,
                        rows,
                        rows.len(),
                        *parse,
                    );
                assert(table@ == init.text_assets@[args@[1]@]@);
                assert(rows_text(rows) == csv_rows(init.text_assets@[args@[1]@]@, 6)
                    && atlas_rows_read(old(self).atlas, self.atlas, rows, rows.len(), *parse));
            }
        }
        Ok(())
    }
}

} // verus!
