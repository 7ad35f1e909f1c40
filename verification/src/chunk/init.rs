//! Showing a chunk to a client for the first time.

use vstd::prelude::*;

use super::block::{
    BiomeContainer, BlockState, BlockStateContainer, ChunkPos, Compound, SECTION_BLOCK_COUNT,
};
use super::heightmap::{entry_bits, packs_heightmap, HeightMapKind};
use super::keys::ascending;
use super::light::LightData;
use super::loaded::Section;
use super::message::{entity_kind, ChunkLayerInfo, PaletteFormat};
use super::model::{ChunkModel, SectionModel};
use super::palette::PalettedContainer;
use crate::packet::CompressionThreshold;

verus! {

/// How many of the first `n` blocks are not air.
pub open spec fn non_air(blocks: Seq<BlockState>, n: nat) -> nat
    decreases n,
{
    if n == 0 {
        0
    } else {
        non_air(blocks, (n - 1) as nat) + if blocks[n - 1].air {
            0nat
        } else {
            1nat
        }
    }
}

/// Where all blocks are the same, either all or none are air.
proof fn lemma_non_air_single(blocks: Seq<BlockState>, b: BlockState, n: nat)
    requires
        n <= blocks.len(),
        forall|i: int| 0 <= i < blocks.len() ==> blocks[i] == b,
    ensures
        non_air(blocks, n) == (if b.air {
            0
        } else {
            n
        }),
    decreases n,
{
    if n > 0 {
        lemma_non_air_single(blocks, b, (n - 1) as nat);
    }
}

impl Section {
    /// How many blocks of the section are not air.
    pub fn count_non_air_blocks(&self) -> (r: u16)
        requires
            self.wf(),
        ensures
            r == non_air(self@.blocks, 4096),
    {
        if let PalettedContainer::Single(b) = &self.block_states {
            proof {
                lemma_non_air_single(self@.blocks, *b, 4096);
            }
            return if b.air {
                0
            } else {
                SECTION_BLOCK_COUNT as u16
            };
        }
        let mut count: u16 = 0;
        let mut i: usize = 0;
        while i < SECTION_BLOCK_COUNT
            invariant
                self.wf(),
                i <= 4096,
                count <= i,
                count == non_air(self@.blocks, i as nat),
            decreases 4096 - i,
        {
            if !self.block_states.get(i).air {
                count += 1;
            }
            i += 1;
        }
        count
    }
}

/// The packed heights of all columns.
pub struct HeightMap {
    pub kind: HeightMapKind,
    pub data: Vec<i64>,
}

/// What is sent for a section.
pub struct SectionData {
    pub non_air_blocks: u16,
    pub block_states: BlockStateContainer,
    pub biomes: BiomeContainer,
}

/// What is sent for a block entity.
pub struct ChunkDataBlockEntity {
    /// The x offset in the upper and the z offset in the lower four bits.
    pub packed_xz: i8,
    pub y: i16,
    pub kind: u32,
    pub data: Compound,
}

/// What is sent to show a chunk.
pub struct LevelChunkWithLight {
    pub threshold: CompressionThreshold,
    pub pos: ChunkPos,
    pub heightmaps: Vec<HeightMap>,
    /// The sections from the bottom up, encoded as `section_parts` says.
    pub sections: Vec<SectionData>,
    pub block_format: PaletteFormat,
    pub biome_format: PaletteFormat,
    pub block_entities: Vec<ChunkDataBlockEntity>,
    pub sky_light_mask: Vec<u64>,
    pub block_light_mask: Vec<u64>,
    pub empty_sky_light_mask: Vec<u64>,
    pub empty_block_light_mask: Vec<u64>,
    pub sky_light_arrays: Vec<[u8; 2048]>,
    pub block_light_arrays: Vec<[u8; 2048]>,
}

/// How a chunk is shown.
pub enum InitPackets {
    /// By the packets that were encoded before.
    Cached(Vec<u8>),
    /// By a packet that has to be encoded.
    Build(LevelChunkWithLight),
}

impl HeightMap {
    /// Whether these are the heights of the chunk.
    pub open spec fn describes(&self, m: ChunkModel, kind: HeightMapKind) -> bool {
        &&& self.kind == kind
        &&& packs_heightmap(self.data@, m.heightmap(kind), entry_bits(m.height() as nat))
    }
}

impl SectionData {
    /// Whether this is what is sent for the section.
    pub open spec fn describes(&self, s: SectionModel) -> bool {
        &&& self.non_air_blocks == non_air(s.blocks, 4096)
        &&& self.block_states@ == s.blocks
        &&& self.block_states.form() == s.block_form
        &&& self.biomes@ == s.biomes
        &&& self.biomes.form() == s.biome_form
    }
}

/// A block entity as it is sent.
#[verifier::ext_equal]
pub struct EntityData {
    pub packed_xz: int,
    pub y: int,
    pub kind: u32,
    pub data: Seq<u8>,
}

impl View for ChunkDataBlockEntity {
    type V = EntityData;

    open spec fn view(&self) -> EntityData {
        EntityData {
            packed_xz: self.packed_xz as int,
            y: self.y as int,
            kind: self.kind,
            data: self.data@,
        }
    }
}

/// `n` in eight bits, as a signed number.
pub open spec fn signed_byte(n: int) -> int {
    if n < 128 {
        n
    } else {
        n - 256
    }
}

/// The height that is sent for a block entity.
pub open spec fn entity_y(idx: u32, min_y: i32) -> int {
    (idx / 256) as i16 + min_y as i16
}

/// What is sent for the block entities with the first `n` of these indices:
/// those at a block that has some.
pub open spec fn entity_data(m: ChunkModel, min_y: i32, keys: Seq<u32>, n: nat) -> Seq<EntityData>
    decreases n,
{
    if n == 0 {
        Seq::empty()
    } else {
        let before = entity_data(m, min_y, keys, (n - 1) as nat);
        let k = keys[n - 1];
        match entity_kind(m, k) {
            Some(kind) => before.push(
                EntityData {
                    packed_xz: signed_byte(k as int % 16 * 16 + k as int / 16 % 16),
                    y: entity_y(k, min_y),
                    kind,
                    data: m.entities[k],
                },
            ),
            None => before,
        }
    }
}

/// Whether the heights that are sent for block entities fit.
pub open spec fn entities_fit(m: ChunkModel, min_y: i32) -> bool {
    forall|k: u32| #[trigger]
        m.entities.contains_key(k) && entity_kind(m, k) is Some ==> i16::MIN <= entity_y(k, min_y)
            <= i16::MAX
}

/// Whether a packet can be built that shows the chunk: there are biomes, and the
/// heights that are sent for block entities fit.
pub open spec fn can_be_shown(m: ChunkModel, info: ChunkLayerInfo) -> bool {
    &&& info.biome_registry_len > 0 || m.sections.len() == 0
    &&& entities_fit(m, info.min_y)
}

impl LevelChunkWithLight {
    /// Whether this is what is sent to show the chunk. Sections without sky
    /// light are not reported.
    pub open spec fn describes(&self, m: ChunkModel, pos: ChunkPos, info: ChunkLayerInfo) -> bool {
        let keys = ascending(m.entities.dom());
        &&& self.threshold == info.threshold
        &&& self.pos == pos
        &&& self.heightmaps@.len() == 3
        &&& self.heightmaps@[0].describes(m, HeightMapKind::WorldSurface)
        &&& self.heightmaps@[1].describes(m, HeightMapKind::MotionBlocking)
        &&& self.heightmaps@[2].describes(m, HeightMapKind::MotionBlockingNoLeaves)
        &&& self.sections@.len() == m.sections.len()
        &&& forall|i: int|
            0 <= i < self.sections@.len() ==> (#[trigger] self.sections@[i]).describes(
                m.sections[i],
            )
        &&& self.block_format == info.spec_block_format()
        &&& self.biome_format == info.spec_biome_format()
        &&& self.block_entities@.map_values(|e: ChunkDataBlockEntity| e@) == entity_data(
            m,
            info.min_y,
            keys,
            keys.len(),
        )
        &&& exists|sky: LightData|
            {
                &&& #[trigger] sky.describes(m.sky_light, false)
                &&& self.sky_light_mask == sky.mask
                &&& self.sky_light_arrays == sky.arrays
            }
        &&& self.empty_sky_light_mask@.len() == 0
        &&& exists|block: LightData|
            {
                &&& #[trigger] block.describes(m.block_light, true)
                &&& self.block_light_mask == block.mask
                &&& self.empty_block_light_mask == block.empty_mask
                &&& self.block_light_arrays == block.arrays
            }
    }
}

} // verus!
