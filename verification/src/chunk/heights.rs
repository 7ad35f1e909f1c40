//! What holds of height maps, light and counts of blocks.

use vstd::arithmetic::power2::{lemma2_to64, pow2};
use vstd::prelude::*;

use super::block::{has_suffix, BlockKind, BlockState};
use super::heightmap::{
    digits, entries_in_long, entry_bits, lemma_digits, occupies, packed_entry, packs_heightmap,
    unsigned, HeightMapKind,
};
use super::init::non_air;
use super::laws::height_is_that_of_the_highest_block;
use super::light::{array_views, sent_light, word_bit, LightData, LightSection};
use super::model::ChunkModel;

verus! {

/// Which blocks count in which height map. All but air counts at the surface. What
/// blocks motion, is a liquid or is waterlogged counts as blocking motion, whatever
/// else holds of it, but for cacti and bamboo saplings, which never do, and nothing
/// else does. Without leaves, all counts alike that is no leaves, and leaves never.
pub proof fn blocks_count_by_what_they_are(state: BlockState)
    ensures
        occupies(HeightMapKind::WorldSurface, state) <==> !state.air,
        state.kind == BlockKind::Cactus ==> !occupies(HeightMapKind::MotionBlocking, state),
        state.kind == BlockKind::BambooSapling ==> !occupies(HeightMapKind::MotionBlocking, state),
        state.kind == BlockKind::Other || state.kind == BlockKind::Leaves ==> {
            &&& state.blocks_motion ==> occupies(HeightMapKind::MotionBlocking, state)
            &&& state.liquid ==> occupies(HeightMapKind::MotionBlocking, state)
            &&& state.waterlogged == Some(true) ==> occupies(HeightMapKind::MotionBlocking, state)
        },
        !state.blocks_motion && !state.liquid && state.waterlogged != Some(true) ==> !occupies(
            HeightMapKind::MotionBlocking,
            state,
        ),
        state.kind != BlockKind::Leaves ==> (occupies(HeightMapKind::MotionBlockingNoLeaves, state)
            <==> occupies(HeightMapKind::MotionBlocking, state)),
        state.kind == BlockKind::Leaves ==> !occupies(HeightMapKind::MotionBlockingNoLeaves, state),
{
}

/// A block counts by the same rule whatever its id, its block entity and, for motion,
/// whether it is air.
pub proof fn blocks_count_by_nothing_else(
    state: BlockState,
    raw: u16,
    block_entity_kind: Option<u32>,
    air: bool,
)
    ensures
        ({
            let other = BlockState { raw, block_entity_kind, ..state };
            let aired = BlockState { air, ..other };
            &&& occupies(HeightMapKind::WorldSurface, other) <==> occupies(
                HeightMapKind::WorldSurface,
                state,
            )
            &&& occupies(HeightMapKind::MotionBlocking, aired) <==> occupies(
                HeightMapKind::MotionBlocking,
                state,
            )
            &&& occupies(HeightMapKind::MotionBlockingNoLeaves, aired) <==> occupies(
                HeightMapKind::MotionBlockingNoLeaves,
                state,
            )
        }),
{
}

/// A text has a suffix just where it is something with the suffix put behind it.
pub proof fn suffixes_stand_behind(text: Seq<char>, front: Seq<char>, suffix: Seq<char>)
    ensures
        has_suffix(front + suffix, suffix),
        has_suffix(text, suffix) ==> suffix.len() <= text.len() && text =~= text.take(
            text.len() - suffix.len(),
        ) + suffix,
{
    assert((front + suffix).skip(front.len() as int) =~= suffix);
    if has_suffix(text, suffix) {
        let n = text.len() - suffix.len();
        assert(text =~= text.take(n) + text.skip(n));
    }
}

/// Every kind of leaves is told by how its name ends, and the two plants by their
/// names.
pub proof fn kinds_are_told_by_name(front: Seq<char>, name: Seq<char>)
    ensures
        BlockKind::named(front + "_leaves"@) == BlockKind::Leaves,
        BlockKind::named("cactus"@) == BlockKind::Cactus,
        BlockKind::named("bamboo_sapling"@) == BlockKind::BambooSapling,
        BlockKind::named(name) == BlockKind::Leaves ==> name.len() >= 7 && name.skip(
            name.len() - 7,
        ) == "_leaves"@,
        BlockKind::named(name) == BlockKind::Cactus ==> name == "cactus"@,
        BlockKind::named(name) == BlockKind::BambooSapling ==> name == "bamboo_sapling"@,
        BlockKind::named(name) == BlockKind::Other ==> name != "cactus"@ && name
            != "bamboo_sapling"@ && !(name.len() >= 7 && name.skip(name.len() - 7) == "_leaves"@),
{
    reveal_strlit("_leaves");
    reveal_strlit("cactus");
    reveal_strlit("bamboo_sapling");
    let leaves = front + "_leaves"@;
    suffixes_stand_behind(leaves, front, "_leaves"@);
    assert(leaves.last() == 's');
    assert(leaves[leaves.len() - 7] == '_');
    if leaves == "cactus"@ {
        assert(leaves.len() == 6);
    }
    if leaves == "bamboo_sapling"@ {
        assert(leaves.last() == 'g');
    }
    assert("cactus"@ != "bamboo_sapling"@) by {
        assert("cactus"@.len() != "bamboo_sapling"@.len());
    }
}

/// The height of each column, by z and then x, is one more than that of its highest
/// block that counts, or 0 where none does.
pub proof fn heights_are_those_of_columns(
    m: ChunkModel,
    kind: HeightMapKind,
    x: int,
    z: int,
    y: int,
)
    requires
        0 <= x < 16,
        0 <= z < 16,
        16 * m.sections.len() <= u32::MAX,
    ensures
        m.heightmap(kind).len() == 256,
        ({
            let h = m.heightmap(kind)[16 * z + x] as int;
            &&& h <= 16 * m.sections.len()
            &&& h > 0 ==> occupies(
                kind,
                m.sections[(h - 1) / 16].blocks[x + 16 * z + 256 * ((h - 1) % 16)],
            )
            &&& h <= y < 16 * m.sections.len() ==> !occupies(
                kind,
                m.sections[y / 16].blocks[x + 16 * z + 256 * (y % 16)],
            )
        }),
{
    let n = m.height() as nat;
    height_is_that_of_the_highest_block(m, kind, x, z, n);
    let i = 16 * z + x;
    assert(i % 16 == x && i / 16 == z);
    let h = m.top_below(kind, x, z, n);
    assert(m.heightmap(kind)[i] == h);
    if h <= y < n {
        assert(!occupies(kind, m.block_at(x, y, z)));
    }
}

/// A number has as many binary digits as the exponent of the least power of two
/// above it.
pub proof fn digits_reach_just_far_enough(n: nat)
    ensures
        n < pow2(digits(n)),
        n > 0 ==> digits(n) > 0 && pow2((digits(n) - 1) as nat) <= n,
        n == 0 ==> digits(n) == 0,
{
    lemma_digits(n);
}

/// Heights are packed with as few bits as hold the height of the world, one at
/// least; as many to a long as fit whole, the first in the lowest bits; and nothing
/// else is set.
pub proof fn packed_heights(data: Seq<i64>, heights: Seq<u32>, world_height: nat, i: int, k: int)
    requires
        packs_heightmap(data, heights, entry_bits(world_height)),
        0 <= i < 256,
        0 <= k < data.len(),
        world_height <= u32::MAX,
    ensures
        ({
            let bits = entry_bits(world_height);
            let per = 64nat / bits;
            &&& 1 <= bits
            &&& world_height < pow2(bits)
            &&& bits > 1 ==> pow2((bits - 1) as nat) <= world_height
            &&& data.len() == (256 + per - 1) / per as int
            &&& (unsigned(data[i / per as int]) / pow2(bits * (i % per as int) as nat)) % pow2(bits)
                == heights[i]
            &&& 256 - k * per >= per ==> unsigned(data[k]) < pow2(bits * per)
            &&& 256 - k * per < per ==> unsigned(data[k]) < pow2(bits * (256 - k * per) as nat)
            &&& data[k] >= 0 ==> unsigned(data[k]) == data[k]
            &&& data[k] < 0 ==> unsigned(data[k]) == data[k] + 0x1_0000_0000_0000_0000
        }),
{
    lemma_digits(world_height);
    lemma2_to64();
    let bits = entry_bits(world_height);
    let per = 64nat / bits;
    let h = heights[i];
    assert(packed_entry(
        unsigned(data[i / per as int]),
        bits,
        (i % per as int) as nat,
    ) == h);
    let d = data[k];
    assert(unsigned(d) < pow2(bits * entries_in_long(per, k)));
}

/// What is sent for the light of a section: its bytes, unless it is not set or all
/// dark. It is reported dark where it is all dark, and also where it is not set, but
/// for sky light.
pub proof fn light_is_sent_or_reported(light: LightSection, is_block_light: bool, i: int)
    requires
        0 <= i < 2048,
    ensures
        light matches LightSection::NotSet ==> light.sent() is None && (light.reported_dark(
            is_block_light,
        ) <==> is_block_light),
        light matches LightSection::Single(b) ==> {
            &&& b == 0 ==> light.sent() is None && light.reported_dark(is_block_light)
            &&& b != 0 ==> light.sent() is Some && light.sent()->0.len() == 2048
                && light.sent()->0[i] == b && !light.reported_dark(is_block_light)
        },
        light matches LightSection::FullData(data) ==> light.sent() is Some && light.sent()->0
            == data@ && !light.reported_dark(is_block_light),
        light.sent() is Some ==> !light.reported_dark(is_block_light),
        is_block_light ==> (light.sent() is Some <==> !light.reported_dark(is_block_light)),
{
}

/// The light of sections is sent in their order: that of one after that of others.
pub proof fn light_is_sent_in_order(first: Seq<LightSection>, light: LightSection)
    ensures
        sent_light(Seq::<LightSection>::empty()).len() == 0,
        light.sent() is None ==> sent_light(first.push(light)) == sent_light(first),
        light.sent() is Some ==> sent_light(first.push(light)) == sent_light(first).push(
            light.sent()->0,
        ),
{
    assert(first.push(light).drop_last() =~= first);
}

/// What is said of light tells of each section whether its light is sent and whether
/// it is reported dark, and holds the light that is sent.
pub proof fn light_data_tells_of_each_section(
    data: LightData,
    lights: Seq<LightSection>,
    is_block_light: bool,
    i: int,
)
    requires
        data.describes(lights, is_block_light),
        0 <= i,
    ensures
        data.mask@.len() == (lights.len() + 63) / 64,
        data.empty_mask@.len() == (lights.len() + 63) / 64,
        i < lights.len() ==> {
            let bit = (i % 64) as u64;
            &&& (data.mask@[i / 64] >> bit) & 1 == 1 <==> lights[i].sent() is Some
            &&& (data.empty_mask@[i / 64] >> bit) & 1 == 1 <==> lights[i].reported_dark(
                is_block_light,
            )
        },
        lights.len() <= i < 64 * data.mask@.len() ==> {
            let bit = (i % 64) as u64;
            &&& (data.mask@[i / 64] >> bit) & 1 != 1
            &&& (data.empty_mask@[i / 64] >> bit) & 1 != 1
        },
        array_views(data.arrays@) == sent_light(lights),
        data.arrays@.len() == sent_light(lights).len(),
        i < data.arrays@.len() ==> data.arrays@[i]@ == sent_light(lights)[i],
{
    if i < 64 * data.mask@.len() {
        assert(word_bit(data.mask@, i) == (i < lights.len() && lights[i].sent() is Some));
        assert(word_bit(data.empty_mask@, i) == (i < lights.len() && lights[i].reported_dark(
            is_block_light,
        )));
    }
    assert(array_views(data.arrays@).len() == data.arrays@.len());
    if i < data.arrays@.len() {
        assert(array_views(data.arrays@)[i] == data.arrays@[i]@);
    }
}

/// Where all blocks are air, none are counted, and each block counts for one, by
/// itself.
pub proof fn blocks_that_are_not_air_are_counted(
    blocks: Seq<BlockState>,
    n: nat,
    i: int,
    block: BlockState,
)
    requires
        n <= blocks.len(),
        0 <= i < n,
    ensures
        (forall|j: int| 0 <= j < n ==> (#[trigger] blocks[j]).air) ==> non_air(blocks, n) == 0,
        non_air(blocks.update(i, block), n) + (if blocks[i].air {
            0int
        } else {
            1
        }) == non_air(blocks, n) + (if block.air {
            0int
        } else {
            1
        }),
        non_air(blocks, n) <= n,
    decreases n,
{
    let m = (n - 1) as nat;
    if i < m {
        blocks_that_are_not_air_are_counted(blocks, m, i, block);
    } else {
        lemma_count_unaffected(blocks, m, i, block);
        if m > 0 {
            blocks_that_are_not_air_are_counted(blocks, m, 0, block);
        }
    }
}

/// Blocks beyond those that are counted do not matter.
proof fn lemma_count_unaffected(blocks: Seq<BlockState>, n: nat, i: int, block: BlockState)
    requires
        n <= i < blocks.len(),
    ensures
        non_air(blocks.update(i, block), n) == non_air(blocks, n),
    decreases n,
{
    if n > 0 {
        lemma_count_unaffected(blocks, (n - 1) as nat, i, block);
    }
}

} // verus!
