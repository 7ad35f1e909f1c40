//! What holds of the packets that show a chunk.

use vstd::prelude::*;

use super::block::{BiomeContainer, BiomeId, BlockState, BlockStateContainer, ChunkPos};
use super::heightmap::{
    entry_bits, heights_are_packed_in_one_way, lemma_digits_bound, HeightMapKind,
};
use super::init::{
    entity_data, non_air, ChunkDataBlockEntity, EntityData, HeightMap, LevelChunkWithLight,
    SectionData,
};
use super::keys::{ascending, lemma_ascending};
use super::laws::{
    all_apply, apply_all, cached_packets_stay_true, full_sections, lemma_apply_all, Change,
};
use super::light::{array_views, bits_are_packed_in_one_way, LightData, LightSection};
use super::message::{ChunkLayerInfo, PaletteFormat};
use super::model::{ChunkModel, ChunkParts};
use super::palette::Form;
use crate::packet::CompressionThreshold;

verus! {

/// What a packet that shows a chunk says.
#[verifier::ext_equal]
pub struct ShownModel {
    pub threshold: CompressionThreshold,
    pub pos: ChunkPos,
    pub heightmaps: Seq<(HeightMapKind, Seq<i64>)>,
    /// For each section how many blocks are not air, and how the blocks and the
    /// biomes are stored.
    pub sections: Seq<(u16, Form<BlockState>, Form<BiomeId>)>,
    pub block_format: PaletteFormat,
    pub biome_format: PaletteFormat,
    pub block_entities: Seq<EntityData>,
    pub sky_light_mask: Seq<u64>,
    pub block_light_mask: Seq<u64>,
    pub empty_sky_light_mask: Seq<u64>,
    pub empty_block_light_mask: Seq<u64>,
    pub sky_light_arrays: Seq<Seq<u8>>,
    pub block_light_arrays: Seq<Seq<u8>>,
}

impl View for LevelChunkWithLight {
    type V = ShownModel;

    open spec fn view(&self) -> ShownModel {
        ShownModel {
            threshold: self.threshold,
            pos: self.pos,
            heightmaps: self.heightmaps@.map_values(|h: HeightMap| (h.kind, h.data@)),
            sections: self.sections@.map_values(
                |s: SectionData| (s.non_air_blocks, s.block_states.form(), s.biomes.form()),
            ),
            block_format: self.block_format,
            biome_format: self.biome_format,
            block_entities: self.block_entities@.map_values(|e: ChunkDataBlockEntity| e@),
            sky_light_mask: self.sky_light_mask@,
            block_light_mask: self.block_light_mask@,
            empty_sky_light_mask: self.empty_sky_light_mask@,
            empty_block_light_mask: self.empty_block_light_mask@,
            sky_light_arrays: array_views(self.sky_light_arrays@),
            block_light_arrays: array_views(self.block_light_arrays@),
        }
    }
}

/// A part of what is sent for the sections of a chunk.
pub enum SectionPart<'a> {
    /// How many blocks are not air.
    Count(u16),
    /// The blocks, and how they are encoded.
    Blocks(&'a BlockStateContainer, PaletteFormat),
    /// The biomes, and how they are encoded.
    Biomes(&'a BiomeContainer, PaletteFormat),
}

/// What a `SectionPart` says.
pub ghost enum PartModel {
    Count(u16),
    Blocks(Form<BlockState>, PaletteFormat),
    Biomes(Form<BiomeId>, PaletteFormat),
}

impl<'a> View for SectionPart<'a> {
    type V = PartModel;

    open spec fn view(&self) -> PartModel {
        match self {
            SectionPart::Count(n) => PartModel::Count(*n),
            SectionPart::Blocks(blocks, format) => PartModel::Blocks(blocks.form(), *format),
            SectionPart::Biomes(biomes, format) => PartModel::Biomes(biomes.form(), *format),
        }
    }
}

/// What is sent for the sections of a chunk, in order: for each from the bottom
/// up, how many blocks are not air, then the blocks, then the biomes.
pub open spec fn chunk_parts(m: ChunkModel, info: ChunkLayerInfo) -> Seq<PartModel> {
    Seq::new(
        3 * m.sections.len(),
        |i: int|
            {
                let s = m.sections[i / 3];
                if i % 3 == 0 {
                    PartModel::Count(non_air(s.blocks, 4096) as u16)
                } else if i % 3 == 1 {
                    PartModel::Blocks(s.block_form, info.spec_block_format())
                } else {
                    PartModel::Biomes(s.biome_form, info.spec_biome_format())
                }
            },
    )
}

impl LevelChunkWithLight {
    /// The parts of what is sent for the sections, in order.
    pub open spec fn spec_section_parts(&self) -> Seq<PartModel> {
        Seq::new(
            3 * self.sections@.len(),
            |i: int|
                {
                    let s = self.sections@[i / 3];
                    if i % 3 == 0 {
                        PartModel::Count(s.non_air_blocks)
                    } else if i % 3 == 1 {
                        PartModel::Blocks(s.block_states.form(), self.block_format)
                    } else {
                        PartModel::Biomes(s.biomes.form(), self.biome_format)
                    }
                },
        )
    }

    /// The parts of what is sent for the sections, in order: for each from the
    /// bottom up, how many blocks are not air, then the blocks, then the biomes.
    pub fn section_parts(&self) -> (r: Vec<SectionPart<'_>>)
        ensures
            r@.map_values(|p: SectionPart<'_>| p@) == self.spec_section_parts(),
            forall|m: ChunkModel, pos: ChunkPos, info: ChunkLayerInfo| #[trigger]
                self.describes(m, pos, info) ==> self.spec_section_parts() == chunk_parts(m, info),
    {
        let mut parts: Vec<SectionPart<'_>> = Vec::new();
        let mut i: usize = 0;
        while i < self.sections.len()
            invariant
                i <= self.sections@.len(),
                parts@.len() == 3 * i,
                forall|k: int|
                    0 <= k < 3 * i ==> (#[trigger] parts@[k])@ == self.spec_section_parts()[k],
            decreases self.sections@.len() - i,
        {
            let sect = &self.sections[i];
            parts.push(SectionPart::Count(sect.non_air_blocks));
            parts.push(SectionPart::Blocks(&sect.block_states, self.block_format));
            parts.push(SectionPart::Biomes(&sect.biomes, self.biome_format));
            i += 1;
        }
        proof {
            assert(parts@.map_values(|p: SectionPart<'_>| p@) =~= self.spec_section_parts());
            assert forall|m: ChunkModel, pos: ChunkPos, info: ChunkLayerInfo| #[trigger]
                self.describes(m, pos, info) implies self.spec_section_parts() == chunk_parts(
                m,
                info,
            ) by {
                sections_are_sent_in_order(self, m, pos, info);
            }
        }
        parts
    }
}

/// A packet that shows a chunk sends its sections from the bottom up, each as its
/// count of blocks, its blocks and its biomes.
pub proof fn sections_are_sent_in_order(
    p: &LevelChunkWithLight,
    m: ChunkModel,
    pos: ChunkPos,
    info: ChunkLayerInfo,
)
    requires
        p.describes(m, pos, info),
    ensures
        p.spec_section_parts() == chunk_parts(m, info),
{
    assert forall|i: int| 0 <= i < 3 * m.sections.len() implies p.spec_section_parts()[i]
        == chunk_parts(m, info)[i] by {
        assert(p.sections@[i / 3].describes(m.sections[i / 3]));
    }
    assert(p.spec_section_parts() =~= chunk_parts(m, info));
}

/// The height maps of a chunk are packed in one way only.
proof fn lemma_heightmaps_agree(p: HeightMap, q: HeightMap, m: ChunkModel, kind: HeightMapKind)
    requires
        p.describes(m, kind),
        q.describes(m, kind),
        m.height() <= u32::MAX,
    ensures
        p.kind == q.kind,
        p.data@ == q.data@,
{
    let height = m.height() as nat;
    vstd::arithmetic::power2::lemma2_to64();
    lemma_digits_bound(height, 32);
    heights_are_packed_in_one_way(p.data@, q.data@, m.heightmap(kind), entry_bits(height));
}

/// A chunk is shown in one way only: two packets that show it say the same.
pub proof fn chunks_are_shown_in_one_way(
    p: &LevelChunkWithLight,
    q: &LevelChunkWithLight,
    m: ChunkModel,
    pos: ChunkPos,
    info: ChunkLayerInfo,
)
    requires
        p.describes(m, pos, info),
        q.describes(m, pos, info),
        m.height() <= u32::MAX,
    ensures
        p@ == q@,
{
    lemma_heightmaps_agree(
        p.heightmaps@[0],
        q.heightmaps@[0],
        m,
        HeightMapKind::WorldSurface,
    );
    lemma_heightmaps_agree(
        p.heightmaps@[1],
        q.heightmaps@[1],
        m,
        HeightMapKind::MotionBlocking,
    );
    lemma_heightmaps_agree(
        p.heightmaps@[2],
        q.heightmaps@[2],
        m,
        HeightMapKind::MotionBlockingNoLeaves,
    );
    assert(p@.heightmaps =~= q@.heightmaps);
    assert forall|i: int| 0 <= i < p@.sections.len() implies p@.sections[i] == q@.sections[i] by {
        assert(p.sections@[i].describes(m.sections[i]));
        assert(q.sections@[i].describes(m.sections[i]));
    }
    assert(p@.sections =~= q@.sections);
    let sky_p = choose|sky: LightData|
        {
            &&& #[trigger] sky.describes(m.sky_light, false)
            &&& p.sky_light_mask == sky.mask
            &&& p.sky_light_arrays == sky.arrays
        };
    let sky_q = choose|sky: LightData|
        {
            &&& #[trigger] sky.describes(m.sky_light, false)
            &&& q.sky_light_mask == sky.mask
            &&& q.sky_light_arrays == sky.arrays
        };
    bits_are_packed_in_one_way(
        sky_p.mask@,
        sky_q.mask@,
        m.sky_light.map_values(|l: LightSection| l.sent() is Some),
    );
    let block_p = choose|block: LightData|
        {
            &&& #[trigger] block.describes(m.block_light, true)
            &&& p.block_light_mask == block.mask
            &&& p.empty_block_light_mask == block.empty_mask
            &&& p.block_light_arrays == block.arrays
        };
    let block_q = choose|block: LightData|
        {
            &&& #[trigger] block.describes(m.block_light, true)
            &&& q.block_light_mask == block.mask
            &&& q.empty_block_light_mask == block.empty_mask
            &&& q.block_light_arrays == block.arrays
        };
    bits_are_packed_in_one_way(
        block_p.mask@,
        block_q.mask@,
        m.block_light.map_values(|l: LightSection| l.sent() is Some),
    );
    bits_are_packed_in_one_way(
        block_p.empty_mask@,
        block_q.empty_mask@,
        m.block_light.map_values(|l: LightSection| l.reported_dark(true)),
    );
    assert(p@.empty_sky_light_mask =~= q@.empty_sky_light_mask);
    assert(p@ =~= q@);
}

/// Whether the sections of two chunks are stored alike.
pub open spec fn same_forms(m: ChunkModel, n: ChunkModel) -> bool {
    &&& m.sections.len() == n.sections.len()
    &&& forall|i: int|
        0 <= i < m.sections.len() ==> {
            &&& (#[trigger] m.sections[i]).block_form == n.sections[i].block_form
            &&& m.sections[i].biome_form == n.sections[i].biome_form
        }
}

/// Block entities lie in the chunk.
pub open spec fn entities_in_chunk(m: ChunkModel) -> bool {
    forall|k: u32| #[trigger] m.entities.contains_key(k) ==> k / 4096 < m.sections.len()
}

/// Sections with the same content hold the same blocks and biomes.
proof fn lemma_same_content(m: ChunkModel, n: ChunkModel, i: int)
    requires
        m.content() == n.content(),
        0 <= i < m.sections.len(),
    ensures
        m.sections.len() == n.sections.len(),
        m.sections[i].blocks == n.sections[i].blocks,
        m.sections[i].biomes == n.sections[i].biomes,
{
    assert(m.content().blocks.len() == m.sections.len());
    assert(n.content().blocks.len() == n.sections.len());
    assert(m.content().blocks[i] == m.sections[i].blocks);
    assert(n.content().blocks[i] == n.sections[i].blocks);
    assert(m.content().biomes[i] == m.sections[i].biomes);
    assert(n.content().biomes[i] == n.sections[i].biomes);
}

/// Columns with the same blocks have the same height.
proof fn lemma_same_heights(
    m: ChunkModel,
    n: ChunkModel,
    kind: HeightMapKind,
    x: int,
    z: int,
    below: nat,
)
    requires
        m.content() == n.content(),
        below <= m.height(),
    ensures
        m.top_below(kind, x, z, below) == n.top_below(kind, x, z, below),
    decreases below,
{
    if below > 0 {
        lemma_same_content(m, n, (below - 1) / 16);
        lemma_same_heights(m, n, kind, x, z, (below - 1) as nat);
    }
}

/// Chunks with the same content have the same height maps.
proof fn lemma_same_heightmap(m: ChunkModel, n: ChunkModel, kind: HeightMapKind)
    requires
        m.content() == n.content(),
    ensures
        m.height() == n.height(),
        m.heightmap(kind) == n.heightmap(kind),
{
    assert(m.content().blocks.len() == m.sections.len());
    assert(n.content().blocks.len() == n.sections.len());
    assert forall|i: int| 0 <= i < 256 implies m.heightmap(kind)[i] == n.heightmap(kind)[i] by {
        lemma_same_heights(m, n, kind, i % 16, i / 16, m.height() as nat);
    }
    assert(m.heightmap(kind) =~= n.heightmap(kind));
}

/// Chunks with the same content send the same block entities.
proof fn lemma_same_entities(
    m: ChunkModel,
    n: ChunkModel,
    min_y: i32,
    keys: Seq<u32>,
    count: nat,
)
    requires
        m.content() == n.content(),
        count <= keys.len(),
        forall|i: int| 0 <= i < keys.len() ==> (#[trigger] keys[i]) / 4096 < m.sections.len(),
    ensures
        entity_data(m, min_y, keys, count) == entity_data(n, min_y, keys, count),
    decreases count,
{
    if count > 0 {
        let k = keys[count - 1];
        lemma_same_entities(m, n, min_y, keys, (count - 1) as nat);
        lemma_same_content(m, n, k as int / 4096);
        assert(m.entities == m.content().entities);
        assert(n.entities == n.content().entities);
    }
}

/// A packet that shows a chunk shows every chunk with the same content that is
/// stored alike.
pub proof fn same_chunks_are_shown_alike(
    p: &LevelChunkWithLight,
    m: ChunkModel,
    n: ChunkModel,
    pos: ChunkPos,
    info: ChunkLayerInfo,
)
    requires
        p.describes(m, pos, info),
        m.content() == n.content(),
        same_forms(m, n),
        entities_in_chunk(m),
    ensures
        p.describes(n, pos, info),
{
    lemma_same_heightmap(m, n, HeightMapKind::WorldSurface);
    lemma_same_heightmap(m, n, HeightMapKind::MotionBlocking);
    lemma_same_heightmap(m, n, HeightMapKind::MotionBlockingNoLeaves);
    assert forall|i: int| 0 <= i < p.sections@.len() implies (
    #[trigger] p.sections@[i]).describes(n.sections[i]) by {
        assert(p.sections@[i].describes(m.sections[i]));
        assert(m.sections[i].block_form == n.sections[i].block_form);
        lemma_same_content(m, n, i);
    }
    let keys = ascending(m.entities.dom());
    lemma_ascending(m.entities.dom());
    assert forall|i: int| 0 <= i < keys.len() implies (#[trigger] keys[i]) / 4096
        < m.sections.len() by {
        assert(keys.contains(keys[i]));
        assert(m.entities.contains_key(keys[i]));
    }
    assert(m.entities == m.content().entities);
    assert(n.entities == n.content().entities);
    lemma_same_entities(m, n, info.min_y, keys, keys.len());
    assert(m.sky_light == m.content().sky_light);
    assert(n.sky_light == n.content().sky_light);
    assert(m.block_light == m.content().block_light);
    assert(n.block_light == n.content().block_light);
}

/// Whether the cached packets, if there are any, are what encoding a packet that
/// shows the chunk as it is gives.
pub open spec fn cache_is_fresh(
    m: ChunkModel,
    pos: ChunkPos,
    info: ChunkLayerInfo,
    encode: spec_fn(ShownModel) -> Seq<u8>,
) -> bool {
    m.cache.len() > 0 ==> exists|p: LevelChunkWithLight|
        {
            &&& #[trigger] p.describes(m, pos, info)
            &&& m.cache == encode(p@)
        }
}

/// Fresh cached packets are what encoding any packet that shows the chunk gives.
pub proof fn fresh_packets_are_those_encoded_anew(
    q: &LevelChunkWithLight,
    m: ChunkModel,
    pos: ChunkPos,
    info: ChunkLayerInfo,
    encode: spec_fn(ShownModel) -> Seq<u8>,
)
    requires
        cache_is_fresh(m, pos, info, encode),
        m.cache.len() > 0,
        q.describes(m, pos, info),
        m.height() <= u32::MAX,
    ensures
        m.cache == encode(q@),
{
    let p = choose|p: LevelChunkWithLight|
        {
            &&& #[trigger] p.describes(m, pos, info)
            &&& m.cache == encode(p@)
        };
    chunks_are_shown_in_one_way(&p, q, m, pos, info);
}

/// Packets that are stored after they were encoded are fresh.
pub proof fn stored_packets_are_fresh(
    p: &LevelChunkWithLight,
    m: ChunkModel,
    pos: ChunkPos,
    info: ChunkLayerInfo,
    encode: spec_fn(ShownModel) -> Seq<u8>,
)
    requires
        p.describes(m, pos, info),
        entities_in_chunk(m),
    ensures
        cache_is_fresh(ChunkModel { cache: encode(p@), ..m }, pos, info, encode),
{
    let n = ChunkModel { cache: encode(p@), ..m };
    assert(n.content() == m.content());
    same_chunks_are_shown_alike(p, m, n, pos, info);
}

/// Cached packets stay fresh in a chunk that looks and is stored as before.
pub proof fn packets_stay_fresh(
    m: ChunkModel,
    n: ChunkModel,
    pos: ChunkPos,
    info: ChunkLayerInfo,
    encode: spec_fn(ShownModel) -> Seq<u8>,
)
    requires
        cache_is_fresh(m, pos, info, encode),
        entities_in_chunk(m),
        n.cache.len() > 0 ==> n.cache == m.cache && n.content() == m.content() && same_forms(m, n),
    ensures
        cache_is_fresh(n, pos, info, encode),
{
    if n.cache.len() > 0 {
        let p = choose|p: LevelChunkWithLight|
            {
                &&& #[trigger] p.describes(m, pos, info)
                &&& m.cache == encode(p@)
            };
        same_chunks_are_shown_alike(&p, m, n, pos, info);
    }
}

/// Telling clients of changes, replacing what a chunk holds, and counting
/// viewers keep cached packets fresh.
pub proof fn other_calls_keep_packets_fresh(
    m: ChunkModel,
    parts: ChunkParts,
    viewers: u32,
    pos: ChunkPos,
    info: ChunkLayerInfo,
    encode: spec_fn(ShownModel) -> Seq<u8>,
)
    requires
        cache_is_fresh(m, pos, info, encode),
        entities_in_chunk(m),
    ensures
        cache_is_fresh(m.synced(), pos, info, encode),
        cache_is_fresh(m.replaced(parts), pos, info, encode),
        cache_is_fresh(ChunkModel { viewers, ..m }, pos, info, encode),
{
    let counted = ChunkModel { viewers, ..m };
    assert(counted.content() == m.content());
    packets_stay_fresh(m, counted, pos, info, encode);
    assert(m.synced().content().blocks =~= m.content().blocks);
    assert(m.synced().content().biomes =~= m.content().biomes);
    packets_stay_fresh(m, m.synced(), pos, info, encode);
}

/// Whether a change drops the cached packets or leaves the sections stored as
/// they are.
pub open spec fn keeps_forms(m: ChunkModel, c: Change) -> bool {
    c.apply(m).cache.len() == 0 || same_forms(m, c.apply(m))
}

/// Only two things can store sections anew and yet keep the cached packets:
/// shrinking, and filling a section with the one block that it holds already.
pub proof fn most_changes_keep_forms(m: ChunkModel, c: Change)
    requires
        c.applies(m),
        full_sections(m),
        match c {
            Change::Shrink => false,
            Change::FillBlocks { sect_y, .. } => m.sections[sect_y].block_form is Single,
            _ => true,
        },
    ensures
        keeps_forms(m, c),
{
    let after = c.apply(m);
    if after.cache.len() > 0 {
        cached_packets_stay_true(m, c);
        if let Change::FillBlocks { sect_y, block } = c {
            let s = m.sections[sect_y];
            assert(s.full());
            lemma_same_content(m, after, sect_y);
            assert(s.blocks[0] == block) by {
                assert(after.sections[sect_y].blocks[0] == block);
            }
            assert(s.block_form.at(0) == block);
        }
    }
}

/// A change keeps cached packets fresh, if it keeps any and leaves the sections
/// stored as they are.
pub proof fn changes_keep_packets_fresh(
    m: ChunkModel,
    c: Change,
    pos: ChunkPos,
    info: ChunkLayerInfo,
    encode: spec_fn(ShownModel) -> Seq<u8>,
)
    requires
        c.applies(m),
        full_sections(m),
        entities_in_chunk(m),
        keeps_forms(m, c),
        cache_is_fresh(m, pos, info, encode),
    ensures
        cache_is_fresh(c.apply(m), pos, info, encode),
        entities_in_chunk(c.apply(m)),
{
    if c.apply(m).cache.len() > 0 {
        cached_packets_stay_true(m, c);
    }
    packets_stay_fresh(m, c.apply(m), pos, info, encode);
}

/// Whether changes made one by one each keep forms.
pub open spec fn all_keep_forms(m: ChunkModel, changes: Seq<Change>) -> bool
    decreases changes.len(),
{
    changes.len() > 0 ==> {
        &&& all_keep_forms(m, changes.drop_last())
        &&& keeps_forms(apply_all(m, changes.drop_last()), changes.last())
    }
}

/// Whatever is done to a chunk, its cached packets are those that encoding it
/// anew would give. This leaves out what stores a section anew without dropping
/// them.
pub proof fn cached_packets_are_never_stale(
    m: ChunkModel,
    changes: Seq<Change>,
    pos: ChunkPos,
    info: ChunkLayerInfo,
    encode: spec_fn(ShownModel) -> Seq<u8>,
)
    requires
        full_sections(m),
        entities_in_chunk(m),
        all_apply(m, changes),
        all_keep_forms(m, changes),
        cache_is_fresh(m, pos, info, encode),
    ensures
        cache_is_fresh(apply_all(m, changes), pos, info, encode),
        entities_in_chunk(apply_all(m, changes)),
    decreases changes.len(),
{
    if changes.len() > 0 {
        let first = changes.drop_last();
        assert forall|i: int| 0 <= i < first.len() implies (#[trigger] first[i]).applies(m) by {
            assert(changes[i].applies(m));
        }
        cached_packets_are_never_stale(m, first, pos, info, encode);
        lemma_apply_all(m, changes, first.len());
        assert(changes.take(first.len() as int) =~= first);
        changes_keep_packets_fresh(apply_all(m, first), changes.last(), pos, info, encode);
    }
}

} // verus!
