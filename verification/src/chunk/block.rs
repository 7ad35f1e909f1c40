//! What a chunk is made of: block states, biomes and block entity data.

use vstd::prelude::*;

use super::palette::{Cell, PalettedContainer};

verus! {

/// The number of blocks in a section.
pub const SECTION_BLOCK_COUNT: usize = 4096;

/// The number of biome cells in a section.
pub const SECTION_BIOME_COUNT: usize = 64;

/// The kinds of block that height maps tell apart.
#[derive(Clone, Copy, Debug, PartialEq, Eq, Structural)]
pub enum BlockKind {
    BambooSapling,
    Cactus,
    /// Any kind whose name ends in `_leaves`.
    Leaves,
    Other,
}

/// Whether `text` ends in `suffix`.
pub open spec fn has_suffix(text: Seq<char>, suffix: Seq<char>) -> bool {
    &&& suffix.len() <= text.len()
    &&& text.skip(text.len() - suffix.len()) == suffix
}

/// Whether `text` ends in `suffix`.
fn ends_with(text: &str, suffix: &str) -> (r: bool)
    ensures
        r == has_suffix(text@, suffix@),
{
    let n: usize = text.unicode_len();
    let m: usize = suffix.unicode_len();
    if m > n {
        return false;
    }
    let mut i: usize = 0;
    while i < m
        invariant
            n == text@.len(),
            m == suffix@.len(),
            i <= m <= n,
            forall|j: int| 0 <= j < i ==> text@[n - m + j] == suffix@[j],
        decreases m - i,
    {
        if text.get_char(n - m + i) != suffix.get_char(i) {
            proof {
                assert(text@.skip(n - m)[i as int] != suffix@[i as int]);
            }
            return false;
        }
        i = i + 1;
    }
    proof {
        assert(text@.skip(n - m) =~= suffix@);
    }
    true
}

/// Whether the two texts are the same.
fn same_text(a: &str, b: &str) -> (r: bool)
    ensures
        r == (a@ == b@),
{
    let same: bool = a.unicode_len() == b.unicode_len() && ends_with(a, b);
    proof {
        assert(a@.skip(0) =~= a@);
    }
    same
}

impl BlockKind {
    /// The kind of the block that is called `name`.
    pub open spec fn named(name: Seq<char>) -> BlockKind {
        if name == "bamboo_sapling"@ {
            BlockKind::BambooSapling
        } else if name == "cactus"@ {
            BlockKind::Cactus
        } else if has_suffix(name, "_leaves"@) {
            BlockKind::Leaves
        } else {
            BlockKind::Other
        }
    }

    /// The kind of the block that is called `name`.
    pub fn from_name(name: &str) -> (r: BlockKind)
        ensures
            r == BlockKind::named(name@),
    {
        if same_text(name, "bamboo_sapling") {
            BlockKind::BambooSapling
        } else if same_text(name, "cactus") {
            BlockKind::Cactus
        } else if ends_with(name, "_leaves") {
            BlockKind::Leaves
        } else {
            BlockKind::Other
        }
    }
}

/// A block state: its id on the wire and the properties that chunks look at.
///
/// Equal states have equal ids and, coming from one set of game data, the
/// other way round.
#[derive(Clone, Copy, Debug, PartialEq, Eq, Structural)]
pub struct BlockState {
    /// The id of the state.
    pub raw: u16,
    pub kind: BlockKind,
    /// Whether the state is one of the kinds of air.
    pub air: bool,
    /// Whether entities collide with the state.
    pub blocks_motion: bool,
    /// Whether the state is water or lava.
    pub liquid: bool,
    /// The `waterlogged` property, where the kind has it.
    pub waterlogged: Option<bool>,
    /// The kind of block entity that belongs to the state, if one does.
    pub block_entity_kind: Option<u32>,
}

impl BlockState {
    /// Plain air, the state with id zero.
    pub open spec fn spec_air() -> BlockState {
        BlockState {
            raw: 0,
            kind: BlockKind::Other,
            air: true,
            blocks_motion: false,
            liquid: false,
            waterlogged: None,
            block_entity_kind: None,
        }
    }

    /// Plain air, the state with id zero.
    pub fn air() -> (r: BlockState)
        ensures
            r == BlockState::spec_air(),
    {
        BlockState {
            raw: 0,
            kind: BlockKind::Other,
            air: true,
            blocks_motion: false,
            liquid: false,
            waterlogged: None,
            block_entity_kind: None,
        }
    }
}

impl Cell for BlockState {
    fn same(&self, other: &Self) -> (r: bool) {
        *self == *other
    }
}

/// A biome, by its place in the biome registry.
#[derive(Clone, Copy, Debug, PartialEq, Eq, Structural)]
pub struct BiomeId(pub u16);

impl Cell for BiomeId {
    fn same(&self, other: &Self) -> (r: bool) {
        *self == *other
    }
}

/// The block states of a section, in the order of [`block_index`].
pub type BlockStateContainer = PalettedContainer<BlockState, SECTION_BLOCK_COUNT>;

/// The biomes of a section, in the order of [`biome_index`].
pub type BiomeContainer = PalettedContainer<BiomeId, SECTION_BIOME_COUNT>;

/// Where the block at `(x, y, z)` of a section stands in it.
pub open spec fn block_index(x: int, y: int, z: int) -> int {
    x + z * 16 + y * 256
}

/// Where the biome cell `(x, y, z)` of a section stands in it.
pub open spec fn biome_index(x: int, y: int, z: int) -> int {
    x + z * 4 + y * 16
}

/// The data of a block entity in its binary form.
///
/// Chunks store it and hand it on without looking inside.
#[derive(Debug)]
pub struct Compound {
    pub nbt: Vec<u8>,
}

impl View for Compound {
    type V = Seq<u8>;

    open spec fn view(&self) -> Seq<u8> {
        self.nbt@
    }
}

impl Compound {
    /// A copy of the data.
    pub fn duplicate(&self) -> (r: Compound)
        ensures
            r@ == self@,
    {
        Compound { nbt: self.nbt.clone() }
    }
}

/// A block position in the world.
#[derive(Clone, Copy, Debug, PartialEq, Eq, Structural)]
pub struct BlockPos {
    pub x: i32,
    pub y: i32,
    pub z: i32,
}

/// The position of a chunk, in chunks.
#[derive(Clone, Copy, Debug, PartialEq, Eq, Structural)]
pub struct ChunkPos {
    pub x: i32,
    pub z: i32,
}

/// The position of a chunk section, in sections.
#[derive(Clone, Copy, Debug, PartialEq, Eq, Structural)]
pub struct ChunkSectionPos {
    pub x: i32,
    pub y: i32,
    pub z: i32,
}

} // verus!
