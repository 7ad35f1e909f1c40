//! What calls that ask something of a chunk or a block hand back.

use vstd::arithmetic::power2::{lemma2_to64, lemma_pow2_strictly_increases, pow2};
use vstd::prelude::*;

use super::block::{BiomeId, BlockKind, BlockState, ChunkPos, Compound};
use super::effects::new_chunks_are_air;
use super::heightmap::{
    encode_heightmap, entry_bits, is_leaf_block, is_motion_blocking_no_leaves_occupied,
    is_motion_blocking_occupied, is_occupied, lemma_digits, lemma_digits_bound, HeightMapKind,
};
use super::heights::{
    blocks_count_by_what_they_are, heights_are_those_of_columns, kinds_are_told_by_name,
    packed_heights,
};
use super::init::{non_air, InitPackets, LevelChunkWithLight};
use super::light::LightSection;
use super::loaded::{
    chunks_hold_their_entities, chunks_record_in_their_sections, LoadedChunk, Section,
};
use super::message::{ChunkLayerInfo, PaletteFormat};
use super::sent::{
    every_section_is_shown, formats_reach_just_far_enough, near_chunks_can_be_told,
    ordinary_chunks_can_be_shown,
};
use super::shown::{PartModel, SectionPart};
use super::stored::packets_send_their_sections_part_by_part;

verus! {

/// The block, biome and block entity at a place are those that stand there, by x, z
/// and y.
pub proof fn chunks_are_read_by_place(
    c: &LoadedChunk,
    x: u32,
    y: u32,
    z: u32,
    block: BlockState,
    biome: BiomeId,
    entity: Option<&Compound>,
)
    requires
        x + 16 * z + 256 * y <= u32::MAX,
    ensures
        call_ensures(LoadedChunk::block_state, (c, x, y, z), block) ==> block
            == c@.sections[y as int / 16].blocks[x + 16 * z + 256 * (y as int % 16)],
        call_ensures(LoadedChunk::biome, (c, x, y, z), biome) ==> biome == c@.sections[y as int
            / 4].biomes[x + 4 * z + 16 * (y as int % 4)],
        call_ensures(LoadedChunk::block_entity, (c, x, y, z), entity) ==> {
            let k = (x + 16 * z + 256 * y) as u32;
            &&& entity is Some <==> c@.entities.contains_key(k)
            &&& entity is Some ==> entity->0@ == c@.entities[k]
        },
{
}

/// A chunk is as high as its sections are together.
pub proof fn chunks_are_as_high_as_their_sections(c: &LoadedChunk, height: u32, viewers: u32)
    ensures
        call_ensures(LoadedChunk::height, (c,), height) ==> height == 16 * c@.sections.len(),
        call_ensures(LoadedChunk::viewer_count, (c,), viewers) ==> viewers == c@.viewers,
{
}

/// Nothing is recorded just where no biomes, no block entity and no block of any
/// section are.
pub proof fn chunks_tell_whether_anything_is_recorded(c: &LoadedChunk, r: bool)
    requires
        call_ensures(LoadedChunk::has_no_changes, (c,), r),
    ensures
        r <==> {
            &&& !c@.changed_biomes
            &&& forall|k: u32| !c@.changed_entities.contains(k)
            &&& forall|i: int|
                0 <= i < c@.sections.len() ==> (#[trigger] c@.sections[i]).updates.len() == 0
        },
{
    if forall|k: u32| !c@.changed_entities.contains(k) {
        assert(c@.changed_entities =~= Set::empty());
    }
}

/// The heights of a chunk are those of its highest blocks that count: not air for
/// the surface, and for the others what stops motion or is wet, but for cactus and
/// bamboo, and with or without leaves.
pub proof fn chunks_tell_their_heights(
    c: &LoadedChunk,
    surface: [u32; 256],
    blocking: [u32; 256],
    no_leaves: [u32; 256],
    x: int,
    z: int,
    y: int,
)
    requires
        call_ensures(LoadedChunk::world_surface, (c,), surface),
        call_ensures(LoadedChunk::motion_blocking, (c,), blocking),
        call_ensures(LoadedChunk::motion_blocking_no_leaves, (c,), no_leaves),
        16 * c@.sections.len() <= u32::MAX,
        0 <= x < 16,
        0 <= z < 16,
        0 <= y < 16 * c@.sections.len(),
    ensures
        ({
            let b = c@.sections[y / 16].blocks[x + 16 * z + 256 * (y % 16)];
            let stops = b.kind != BlockKind::Cactus && b.kind != BlockKind::BambooSapling && (
            b.blocks_motion || b.liquid || b.waterlogged == Some(true));
            &&& y >= surface@[16 * z + x] ==> b.air
            &&& y == surface@[16 * z + x] - 1 ==> !b.air
            &&& y >= blocking@[16 * z + x] ==> !stops
            &&& y == blocking@[16 * z + x] - 1 ==> stops
            &&& y >= no_leaves@[16 * z + x] ==> !stops || b.kind == BlockKind::Leaves
            &&& y == no_leaves@[16 * z + x] - 1 ==> stops && b.kind != BlockKind::Leaves
        }),
{
    let b = c@.sections[y / 16].blocks[x + 16 * z + 256 * (y % 16)];
    heights_are_those_of_columns(c@, HeightMapKind::WorldSurface, x, z, y);
    heights_are_those_of_columns(c@, HeightMapKind::MotionBlocking, x, z, y);
    heights_are_those_of_columns(c@, HeightMapKind::MotionBlockingNoLeaves, x, z, y);
    blocks_count_by_what_they_are(b);
}

/// Which blocks count, asked one by one.
pub proof fn blocks_are_judged_by_what_they_are(
    state: BlockState,
    kind: HeightMapKind,
    leaf: bool,
    blocking: bool,
    no_leaves: bool,
    occupied: bool,
)
    requires
        call_ensures(is_leaf_block, (state,), leaf),
        call_ensures(is_motion_blocking_occupied, (state,), blocking),
        call_ensures(is_motion_blocking_no_leaves_occupied, (state,), no_leaves),
        call_ensures(is_occupied, (kind, state), occupied),
    ensures
        leaf <==> state.kind == BlockKind::Leaves,
        blocking <==> state.kind != BlockKind::Cactus && state.kind != BlockKind::BambooSapling && (
        state.blocks_motion || state.liquid || state.waterlogged == Some(true)),
        no_leaves <==> blocking && !leaf,
        match kind {
            HeightMapKind::WorldSurface => occupied == !state.air,
            HeightMapKind::MotionBlocking => occupied == blocking,
            HeightMapKind::MotionBlockingNoLeaves => occupied == no_leaves,
        },
{
    blocks_count_by_what_they_are(state);
}

/// The kind of a block is told by its name.
pub proof fn kinds_are_found_by_name(name: &str, r: BlockKind)
    requires
        call_ensures(BlockKind::from_name, (name,), r),
    ensures
        r == BlockKind::Cactus <==> name@ == "cactus"@,
        r == BlockKind::BambooSapling <==> name@ == "bamboo_sapling"@,
        r == BlockKind::Leaves <==> name@.len() >= 7 && name@.skip(name@.len() - 7) == "_leaves"@,
{
    reveal_strlit("_leaves");
    reveal_strlit("cactus");
    reveal_strlit("bamboo_sapling");
    kinds_are_told_by_name(name@, name@);
    if name@.len() >= 7 && name@.skip(name@.len() - 7) == "_leaves"@ {
        assert(name@ =~= name@.take(name@.len() - 7) + "_leaves"@);
        kinds_are_told_by_name(name@.take(name@.len() - 7), name@);
    }
    if name@ == "cactus"@ || name@ == "bamboo_sapling"@ {
        assert("cactus"@.len() != "bamboo_sapling"@.len());
    }
}

/// Light is full, dark, given or not set.
pub proof fn light_is_made_as_asked(
    full: LightSection,
    dark: LightSection,
    data: [u8; 2048],
    given: LightSection,
)
    requires
        call_ensures(LightSection::with_full_light, (), full),
        call_ensures(LightSection::with_zeroed_light, (), dark),
        call_ensures(LightSection::from_data, (data,), given),
    ensures
        full.sent() == Some(Seq::new(2048, |i: int| 0xffu8)),
        dark.sent() is None && dark.reported_dark(true) && dark.reported_dark(false),
        given.sent() == Some(data@),
{
    assert(full.sent()->0 =~= Seq::new(2048, |i: int| 0xffu8));
}

/// A new chunk that is `height` blocks high, rounded down to whole sections, is all
/// air, unseen and has nothing recorded.
pub proof fn chunks_begin_as_air(height: u32, c: LoadedChunk, i: int, j: int)
    requires
        call_ensures(LoadedChunk::new, (height,), c),
        0 <= i < c@.sections.len(),
        0 <= j < 4096,
    ensures
        c@.viewers == 0,
        c@.sections.len() == height / 16,
        c@.sections[i].blocks[j].air,
        c@.sections[i].blocks[j].raw == 0,
        c@.sections[i].updates.len() == 0,
        c@.entities == Map::<u32, Seq<u8>>::empty(),
        c@.cache.len() == 0,
        !c@.changed_biomes,
{
    new_chunks_are_air(height as nat);
}

/// A chunk is shown by the packets that are cached, where there are some, and only
/// else by a packet that is built for it.
pub proof fn chunks_are_shown_by_the_cache_first(
    c: &LoadedChunk,
    pos: ChunkPos,
    info: &ChunkLayerInfo,
    r: InitPackets,
    i: int,
)
    requires
        call_ensures(LoadedChunk::write_init_packets, (c, pos, info), r),
        0 <= i < c@.sections.len(),
    ensures
        r is Cached <==> c@.cache.len() > 0,
        r matches InitPackets::Cached(bytes) ==> bytes@ == c@.cache,
        r matches InitPackets::Build(p) ==> {
            &&& p.pos == pos
            &&& p.threshold == info.threshold
            &&& p.sections@.len() == c@.sections.len()
            &&& p.sections@[i].block_states@ == c@.sections[i].blocks
            &&& p.sections@[i].biomes@ == c@.sections[i].biomes
        },
{
    if let InitPackets::Build(p) = r {
        every_section_is_shown(&p, c@, pos, *info, i);
    }
}

/// The parts of what is sent for sections come in threes: the count, the blocks and
/// the biomes of each.
pub proof fn parts_come_in_threes(p: &LevelChunkWithLight, parts: Vec<SectionPart<'_>>, i: int)
    requires
        call_ensures(LevelChunkWithLight::section_parts, (p,), parts),
        0 <= i < p.sections@.len(),
    ensures
        parts@.len() == 3 * p.sections@.len(),
        parts@[3 * i]@ == PartModel::Count(p.sections@[i].non_air_blocks),
        parts@[3 * i + 1]@ == PartModel::Blocks(
            p.sections@[i].block_states.form(),
            p.block_format,
        ),
        parts@[3 * i + 2]@ == PartModel::Biomes(p.sections@[i].biomes.form(), p.biome_format),
{
    packets_send_their_sections_part_by_part(p, i);
    let views = parts@.map_values(|q: SectionPart<'_>| q@);
    assert(views.len() == parts@.len());
    assert(views[3 * i] == parts@[3 * i]@);
    assert(views[3 * i + 1] == parts@[3 * i + 1]@);
    assert(views[3 * i + 2] == parts@[3 * i + 2]@);
}

/// The heights that are packed can be taken out again: each stands in as many bits as
/// the height of the world needs.
pub proof fn heights_are_packed(
    heights: [u32; 256],
    world_height: u32,
    data: Vec<i64>,
    bits: nat,
    i: int,
)
    requires
        call_ensures(encode_heightmap, (heights, world_height), data),
        1 <= bits <= 64,
        world_height < pow2(bits),
        bits > 1 ==> pow2((bits - 1) as nat) <= world_height,
        0 <= i < 256,
    ensures
        ({
            let per = 64int / bits as int;
            let long = data@[i / per];
            let packed = if long >= 0 {
                long as int
            } else {
                long + 0x1_0000_0000_0000_0000
            };
            &&& data@.len() == (255 + per) / per
            &&& packed / pow2((bits * (i % per)) as nat) as int % pow2(bits) as int == heights@[i]
        }),
{
    let world = world_height as nat;
    let found = entry_bits(world);
    lemma_digits(world);
    lemma2_to64();
    lemma_digits_bound(world, 32);
    if found > bits {
        lemma_pow2_grows(bits, (found - 1) as nat);
    } else if found < bits {
        lemma_pow2_grows(found, (bits - 1) as nat);
    }
    assert(found == bits);
    let per = 64nat / bits;
    assert(1 <= per);
    let k = i / per as int;
    assert(0 <= k < data@.len()) by {
        vstd::arithmetic::div_mod::lemma_div_is_ordered(i, 255, per as int);
        vstd::arithmetic::div_mod::lemma_div_pos_is_pos(i, per as int);
        vstd::arithmetic::div_mod::lemma_div_plus_one(255, per as int);
    }
    packed_heights(data@, heights@, world, i, k);
}

/// A greater exponent gives no lesser power.
proof fn lemma_pow2_grows(a: nat, b: nat)
    requires
        a <= b,
    ensures
        pow2(a) <= pow2(b),
{
    if a < b {
        lemma_pow2_strictly_increases(a, b);
    }
}

/// The blocks of a section that are not air are counted.
pub proof fn sections_count_their_blocks(s: &Section, n: u16)
    requires
        call_ensures(Section::count_non_air_blocks, (s,), n),
        s@.blocks.len() == 4096,
    ensures
        n == s@.blocks.filter(|b: BlockState| !b.air).len(),
{
    lemma_counted(s@.blocks, 4096);
    assert(s@.blocks.take(4096) =~= s@.blocks);
}

/// Counting blocks is picking those out that are not air.
proof fn lemma_counted(blocks: Seq<BlockState>, n: nat)
    requires
        n <= blocks.len(),
    ensures
        non_air(blocks, n) == blocks.take(n as int).filter(|b: BlockState| !b.air).len(),
    decreases n,
{
    reveal(Seq::filter);
    let not_air = |b: BlockState| !b.air;
    if n > 0 {
        lemma_counted(blocks, (n - 1) as nat);
        assert(blocks.take(n as int).drop_last() =~= blocks.take(n - 1));
        assert(blocks.take(n as int).last() == blocks[n - 1]);
    } else {
        assert(blocks.take(0).filter(not_air).len() == 0);
    }
}

/// Formats are as wide as ids and biomes need.
pub proof fn formats_are_found(
    info: &ChunkLayerInfo,
    blocks: PaletteFormat,
    biomes: PaletteFormat,
)
    requires
        call_ensures(ChunkLayerInfo::block_format, (info,), blocks),
        call_ensures(ChunkLayerInfo::biome_format, (info,), biomes),
        info.biome_registry_len > 1,
        info.max_block_raw > 0,
    ensures
        blocks.min_indirect_bits == 4,
        blocks.max_indirect_bits == 8,
        blocks.direct_bits > 0,
        pow2((blocks.direct_bits - 1) as nat) <= info.max_block_raw < pow2(
            blocks.direct_bits as nat,
        ),
        biomes.min_indirect_bits == 0,
        biomes.max_indirect_bits == 3,
        biomes.direct_bits > 0,
        pow2((biomes.direct_bits - 1) as nat) < info.biome_registry_len <= pow2(
            biomes.direct_bits as nat,
        ),
{
    formats_reach_just_far_enough(*info);
}

/// A chunk is asked whether it can be shown or told of: both hold of one that is not
/// too far off and has no too high block entities.
pub proof fn near_chunks_can_be_sent(
    c: &LoadedChunk,
    pos: ChunkPos,
    info: &ChunkLayerInfo,
    shown: bool,
    told: bool,
)
    requires
        call_ensures(LoadedChunk::can_be_shown, (c, info), shown),
        call_ensures(LoadedChunk::changes_can_be_told, (c, pos, info), told),
        c.wf(),
        -0x800_0000 <= pos.x < 0x800_0000,
        -0x800_0000 <= pos.z < 0x800_0000,
        -0x8000 <= info.min_y,
        info.min_y + 16 * c@.sections.len() <= 0x8000,
        16 * c@.sections.len() <= 0x8000,
        info.biome_registry_len > 0,
        c@.viewers > 0,
    ensures
        shown,
        told,
{
    chunks_hold_their_entities(c);
    chunks_record_in_their_sections(c);
    assert forall|i: int, j: int|
        0 <= i < c@.sections.len() && 0 <= j < c@.sections[i].updates.len() implies (
    #[trigger] c@.sections[i].updates[j]).off_y < 16 by {
        assert(c@.sections[i].updates[j].wf());
    }
    near_chunks_can_be_told(c@, pos, *info);
    if info.min_y < 0x8000 {
        ordinary_chunks_can_be_shown(c@, *info);
    }
}

/// Sections, cached packets and block entities are handed out as they are.
pub proof fn parts_are_handed_out(
    c: &LoadedChunk,
    sect_y: u32,
    section: &Section,
    cached: &Vec<u8>,
    entity: &Compound,
    copy: Compound,
)
    requires
        call_ensures(LoadedChunk::section, (c, sect_y), section),
        call_ensures(LoadedChunk::cached_init_packets, (c,), cached),
        call_ensures(Compound::duplicate, (entity,), copy),
    ensures
        section@ == c@.sections[sect_y as int],
        cached@ == c@.cache,
        copy.nbt@ == entity.nbt@,
{
}

} // verus!
