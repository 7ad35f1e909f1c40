//! What is in the messages and packets on a chunk.

use vstd::arithmetic::power2::{lemma2_to64, pow2};
use vstd::prelude::*;

use super::block::{BlockPos, ChunkPos, ChunkSectionPos};
use super::heightmap::{
    entry_bits, lemma_digits, lemma_digits_bound, packs_heightmap, HeightMapKind,
};
use super::heights::light_data_tells_of_each_section;
use super::init::{
    can_be_shown, entity_data, entity_y, non_air, ChunkDataBlockEntity, EntityData,
    LevelChunkWithLight,
};
use super::keys::{ascending, lemma_ascending, rising};
use super::light::{array_views, sent_light, LightData};
use super::message::{
    biome_messages, block_messages, can_be_told, change_messages, entity_messages, global_pos,
    position_fits, ChunkLayerInfo, MsgModel, PacketModel,
};
use super::model::ChunkModel;

verus! {

/// The message that tells of the only change in a section.
pub open spec fn one_block_message(
    m: ChunkModel,
    pos: ChunkPos,
    info: ChunkLayerInfo,
    i: int,
) -> MsgModel {
    let e = m.sections[i].updates[0];
    MsgModel::PacketAt {
        pos,
        threshold: info.threshold,
        packet: PacketModel::BlockUpdate {
            position: BlockPos {
                x: (16 * pos.x + e.off_x) as i32,
                y: (info.min_y + 16 * i + e.off_y) as i32,
                z: (16 * pos.z + e.off_z) as i32,
            },
            block_id: e.block_state as u16,
        },
    }
}

/// The message that tells of several changes in a section.
pub open spec fn many_blocks_message(
    m: ChunkModel,
    pos: ChunkPos,
    info: ChunkLayerInfo,
    i: int,
) -> MsgModel {
    MsgModel::PacketAt {
        pos,
        threshold: info.threshold,
        packet: PacketModel::SectionBlocksUpdate {
            chunk_sect_pos: ChunkSectionPos {
                x: pos.x,
                y: (i + info.min_y as int / 16) as i32,
                z: pos.z,
            },
            blocks: m.sections[i].updates,
        },
    }
}

/// The message that tells of block entity `k`, of a block with this kind.
pub open spec fn entity_message(
    m: ChunkModel,
    pos: ChunkPos,
    info: ChunkLayerInfo,
    k: u32,
    kind: u32,
) -> MsgModel {
    MsgModel::PacketAt {
        pos,
        threshold: info.threshold,
        packet: PacketModel::BlockEntityData {
            location: BlockPos {
                x: (16 * pos.x + k as int % 16) as i32,
                y: (info.min_y + k as int / 256) as i32,
                z: (16 * pos.z + k as int / 16 % 16) as i32,
            },
            kind,
            data: m.entities[k],
        },
    }
}

/// Whether block entity `k` is there, at a block that has this kind of them.
pub open spec fn has_entity(m: ChunkModel, k: u32, kind: u32) -> bool {
    &&& m.entities.contains_key(k)
    &&& m.sections[k as int / 4096].blocks[k as int % 4096].block_entity_kind == Some(kind)
}

/// The messages on blocks are those of the sections that changed, from the bottom
/// up, one for each.
proof fn lemma_block_messages(m: ChunkModel, pos: ChunkPos, info: ChunkLayerInfo, n: nat) -> (from:
    Seq<int>)
    requires
        n <= m.sections.len(),
    ensures
        from.len() == block_messages(m, pos, info, n).len(),
        forall|a: int, b: int| 0 <= a < b < from.len() ==> #[trigger] from[a] < #[trigger] from[b],
        forall|a: int|
            0 <= a < from.len() ==> {
                let i = #[trigger] from[a];
                let msg = block_messages(m, pos, info, n)[a];
                &&& 0 <= i < n
                &&& m.sections[i].updates.len() > 0
                &&& m.sections[i].updates.len() == 1 ==> msg == one_block_message(m, pos, info, i)
                &&& m.sections[i].updates.len() > 1 ==> msg == many_blocks_message(
                    m,
                    pos,
                    info,
                    i,
                )
            },
        forall|i: int|
            0 <= i < n && (#[trigger] m.sections[i]).updates.len() > 0 ==> from.contains(i),
    decreases n,
{
    if n == 0 {
        Seq::empty()
    } else {
        let before = lemma_block_messages(m, pos, info, (n - 1) as nat);
        let s = m.sections[n - 1];
        if s.updates.len() == 0 {
            before
        } else {
            let from = before.push(n - 1);
            assert forall|i: int|
                0 <= i < n && (#[trigger] m.sections[i]).updates.len() > 0 implies from.contains(
                i,
            ) by {
                if i < n - 1 {
                    let a = choose|a: int| 0 <= a < before.len() && before[a] == i;
                    assert(from[a] == i);
                } else {
                    assert(from[before.len() as int] == i);
                }
            }
            from
        }
    }
}

/// The messages on block entities are those of the indices that have some, in the
/// order of the indices, one for each.
proof fn lemma_entity_messages(
    m: ChunkModel,
    pos: ChunkPos,
    info: ChunkLayerInfo,
    keys: Seq<u32>,
    n: nat,
) -> (from: Seq<(u32, u32)>)
    requires
        n <= keys.len(),
        rising(keys),
    ensures
        from.len() == entity_messages(m, pos, info, keys, n).len(),
        forall|a: int, b: int|
            0 <= a < b < from.len() ==> (#[trigger] from[a]).0 < (#[trigger] from[b]).0,
        forall|a: int|
            0 <= a < from.len() ==> {
                let (k, kind) = #[trigger] from[a];
                &&& keys.take(n as int).contains(k)
                &&& has_entity(m, k, kind)
                &&& entity_messages(m, pos, info, keys, n)[a] == entity_message(
                    m,
                    pos,
                    info,
                    k,
                    kind,
                )
            },
        forall|j: int, kind: u32|
            0 <= j < n && #[trigger] has_entity(m, keys[j], kind) ==> from.contains(
                (keys[j], kind),
            ),
    decreases n,
{
    if n == 0 {
        Seq::empty()
    } else {
        let before = lemma_entity_messages(m, pos, info, keys, (n - 1) as nat);
        let k = keys[n - 1];
        let state = m.sections[k as int / 4096].blocks[k as int % 4096];
        let told = m.entities.contains_key(k) && state.block_entity_kind is Some;
        let from = if told {
            before.push((k, state.block_entity_kind->0))
        } else {
            before
        };
        assert forall|a: int| 0 <= a < from.len() implies keys.take(n as int).contains(
            (#[trigger] from[a]).0,
        ) && (a < before.len() ==> from[a].0 < k) by {
            if a < before.len() {
                let j = choose|j: int|
                    0 <= j < n - 1 && #[trigger] keys.take(n - 1)[j] == before[a].0;
                assert(keys.take(n as int)[j] == before[a].0);
                assert(keys[j] < keys[n - 1]);
            } else {
                assert(keys.take(n as int)[n - 1] == k);
            }
        }
        assert forall|j: int, kind: u32|
            0 <= j < n && #[trigger] has_entity(m, keys[j], kind) implies from.contains(
            (keys[j], kind),
        ) by {
            if j < n - 1 {
                let a = choose|a: int| 0 <= a < before.len() && before[a] == (keys[j], kind);
                assert(from[a] == (keys[j], kind));
            } else {
                assert(from[before.len() as int] == (k, kind));
            }
        }
        from
    }
}

/// Every section that changed is told of: with the position and id of the block, if
/// one alone changed, or else with all the changes in the order in which they were
/// recorded.
pub proof fn every_changed_section_is_told(
    m: ChunkModel,
    pos: ChunkPos,
    info: ChunkLayerInfo,
    i: int,
)
    requires
        0 <= i < m.sections.len(),
    ensures
        m.sections[i].updates.len() == 1 ==> change_messages(m, pos, info).contains(
            one_block_message(m, pos, info, i),
        ),
        m.sections[i].updates.len() > 1 ==> change_messages(m, pos, info).contains(
            many_blocks_message(m, pos, info, i),
        ),
{
    let from = lemma_block_messages(m, pos, info, m.sections.len());
    let blocks = block_messages(m, pos, info, m.sections.len());
    if m.sections[i].updates.len() > 0 {
        let a = choose|a: int| 0 <= a < from.len() && from[a] == i;
        assert(change_messages(m, pos, info)[a] == blocks[a]);
    }
}

/// Every block entity with a recorded change that is there, at a block that has a
/// kind of them, is told of: with the position of the block, the kind and the data.
pub proof fn every_changed_entity_is_told(
    m: ChunkModel,
    pos: ChunkPos,
    info: ChunkLayerInfo,
    k: u32,
    kind: u32,
)
    requires
        m.changed_entities.contains(k),
        m.entities.contains_key(k),
        m.sections[k as int / 4096].blocks[k as int % 4096].block_entity_kind == Some(kind),
    ensures
        change_messages(m, pos, info).contains(entity_message(m, pos, info, k, kind)),
{
    let keys = ascending(m.changed_entities);
    lemma_ascending(m.changed_entities);
    let from = lemma_entity_messages(m, pos, info, keys, keys.len());
    let blocks = block_messages(m, pos, info, m.sections.len());
    assert(keys.contains(k));
    let j = choose|j: int| 0 <= j < keys.len() && keys[j] == k;
    assert(has_entity(m, keys[j], kind));
    let a = choose|a: int| 0 <= a < from.len() && from[a] == (k, kind);
    assert(change_messages(m, pos, info)[blocks.len() + a] == entity_message(
        m,
        pos,
        info,
        k,
        kind,
    ));
}

/// A change of biomes is told last, with the biomes of every section.
pub proof fn changed_biomes_are_told(m: ChunkModel, pos: ChunkPos, info: ChunkLayerInfo, i: int)
    requires
        m.changed_biomes,
        0 <= i < m.sections.len(),
        info.biome_registry_len > 0,
    ensures
        ({
            let messages = change_messages(m, pos, info);
            &&& messages.len() > 0
            &&& match messages.last() {
                MsgModel::ChangeBiome { pos: at, biomes, format } => {
                    &&& at == pos
                    &&& biomes.len() == m.sections.len()
                    &&& biomes[i].0 == m.sections[i].biomes
                    &&& biomes[i].1 == m.sections[i].biome_form
                    &&& format.min_indirect_bits == 0
                    &&& format.max_indirect_bits == 3
                    &&& info.biome_registry_len <= pow2(format.direct_bits as nat)
                    &&& info.biome_registry_len > 1 ==> format.direct_bits > 0 && pow2(
                        (format.direct_bits - 1) as nat,
                    ) < info.biome_registry_len
                },
                _ => false,
            }
        }),
{
    let last = biome_messages(m, pos, info);
    assert(change_messages(m, pos, info).last() == last[0]);
    formats_reach_just_far_enough(info);
}

/// Blocks are encoded with at least four and at most eight bits, or as many as hold
/// the greatest id; biomes with at most three, or as many as hold the last biome.
pub proof fn formats_reach_just_far_enough(info: ChunkLayerInfo)
    ensures
        info.spec_block_format().min_indirect_bits == 4,
        info.spec_block_format().max_indirect_bits == 8,
        info.max_block_raw < pow2(info.spec_block_format().direct_bits as nat),
        info.max_block_raw > 0 ==> info.spec_block_format().direct_bits > 0 && pow2(
            (info.spec_block_format().direct_bits - 1) as nat,
        ) <= info.max_block_raw,
        info.spec_biome_format().min_indirect_bits == 0,
        info.spec_biome_format().max_indirect_bits == 3,
        info.biome_registry_len > 0 ==> info.biome_registry_len <= pow2(
            info.spec_biome_format().direct_bits as nat,
        ),
        info.biome_registry_len > 1 ==> info.spec_biome_format().direct_bits > 0 && pow2(
            (info.spec_biome_format().direct_bits - 1) as nat,
        ) < info.biome_registry_len,
{
    lemma2_to64();
    lemma_digits(info.max_block_raw as nat);
    lemma_digits_bound(info.max_block_raw as nat, 16);
    if info.biome_registry_len > 0 {
        let last = (info.biome_registry_len - 1) as nat;
        lemma_digits(last);
        lemma_digits_bound(last, 64);
    }
}

/// Nothing else is told: first come the sections that changed, from the bottom up,
/// then the block entities by index, each once, and then the biomes, if they changed.
pub proof fn only_changes_are_told(m: ChunkModel, pos: ChunkPos, info: ChunkLayerInfo) -> (r: (
    Seq<int>,
    Seq<(u32, u32)>,
))
    ensures
        ({
            let (sections, entities) = r;
            let messages = change_messages(m, pos, info);
            &&& messages.len() == sections.len() + entities.len() + (if m.changed_biomes {
                1int
            } else {
                0
            })
            &&& forall|a: int, b: int|
                0 <= a < b < sections.len() ==> #[trigger] sections[a] < #[trigger] sections[b]
            &&& forall|a: int|
                0 <= a < sections.len() ==> {
                    let i = #[trigger] sections[a];
                    let u = m.sections[i].updates;
                    &&& 0 <= i < m.sections.len()
                    &&& u.len() > 0
                    &&& messages[a] == (if u.len() == 1 {
                        one_block_message(m, pos, info, i)
                    } else {
                        many_blocks_message(m, pos, info, i)
                    })
                }
            &&& forall|a: int, b: int|
                0 <= a < b < entities.len() ==> (#[trigger] entities[a]).0 < (
                #[trigger] entities[b]).0
            &&& forall|a: int|
                0 <= a < entities.len() ==> {
                    let (k, kind) = #[trigger] entities[a];
                    &&& m.changed_entities.contains(k)
                    &&& has_entity(m, k, kind)
                    &&& messages[sections.len() + a] == entity_message(m, pos, info, k, kind)
                }
        }),
{
    let keys = ascending(m.changed_entities);
    lemma_ascending(m.changed_entities);
    let sections = lemma_block_messages(m, pos, info, m.sections.len());
    let entities = lemma_entity_messages(m, pos, info, keys, keys.len());
    let messages = change_messages(m, pos, info);
    let first = block_messages(m, pos, info, m.sections.len());
    let second = entity_messages(m, pos, info, keys, keys.len());
    assert forall|a: int| 0 <= a < entities.len() implies {
        let (k, kind) = #[trigger] entities[a];
        &&& m.changed_entities.contains(k)
        &&& has_entity(m, k, kind)
        &&& messages[sections.len() + a] == entity_message(m, pos, info, k, kind)
    } by {
        let (k, kind) = entities[a];
        assert(keys.take(keys.len() as int) =~= keys);
        assert(keys.contains(k));
        assert(messages[sections.len() + a] == second[a]);
    }
    assert forall|a: int| 0 <= a < sections.len() implies {
        let i = #[trigger] sections[a];
        let u = m.sections[i].updates;
        &&& 0 <= i < m.sections.len()
        &&& u.len() > 0
        &&& messages[a] == (if u.len() == 1 {
            one_block_message(m, pos, info, i)
        } else {
            many_blocks_message(m, pos, info, i)
        })
    } by {
        assert(messages[a] == first[a]);
    }
    (sections, entities)
}

/// Where a position fits, it is told as it is.
pub proof fn positions_are_told_as_they_are(pos: ChunkPos, min_y: i32, x: int, y: int, z: int)
    requires
        0 <= x < 16,
        0 <= y,
        0 <= z < 16,
    ensures
        position_fits(pos, min_y, y) <==> i32::MIN <= 16 * pos.x && 16 * pos.x + 15 <= i32::MAX
            && i32::MIN <= 16 * pos.z && 16 * pos.z + 15 <= i32::MAX && min_y + y <= i32::MAX,
        position_fits(pos, min_y, y) ==> {
            let at = global_pos(pos, min_y, x, y, z);
            &&& at.x == 16 * pos.x + x
            &&& at.y == min_y + y
            &&& at.z == 16 * pos.z + z
        },
{
}

/// Changes can be told of every chunk that someone sees, if it is not so far off that
/// positions overflow and there are biomes.
pub proof fn near_chunks_can_be_told(m: ChunkModel, pos: ChunkPos, info: ChunkLayerInfo)
    requires
        m.viewers > 0 || m.no_changes(),
        -0x800_0000 <= pos.x < 0x800_0000,
        -0x800_0000 <= pos.z < 0x800_0000,
        info.min_y + 16 * m.sections.len() <= i32::MAX,
        info.biome_registry_len > 0,
        forall|k: u32| #[trigger] m.entities.contains_key(k) ==> k / 4096 < m.sections.len(),
        forall|i: int, j: int|
            0 <= i < m.sections.len() && 0 <= j < m.sections[i].updates.len()
                ==> (#[trigger] m.sections[i].updates[j]).off_y < 16,
    ensures
        can_be_told(m, pos, info),
{
    assert forall|i: int|
        0 <= i < m.sections.len() && (#[trigger] m.sections[i]).updates.len() == 1
            implies position_fits(pos, info.min_y, i * 16 + m.sections[i].updates[0].off_y) by {
        assert(m.sections[i].updates[0].off_y < 16);
    }
}

/// Every chunk can be shown that is not so high or low that heights overflow, if
/// there are biomes.
pub proof fn ordinary_chunks_can_be_shown(m: ChunkModel, info: ChunkLayerInfo)
    requires
        info.biome_registry_len > 0,
        -0x8000 <= info.min_y < 0x8000,
        16 * m.sections.len() <= 0x8000,
        info.min_y + 16 * m.sections.len() <= 0x8000,
        forall|k: u32| #[trigger] m.entities.contains_key(k) ==> k / 4096 < m.sections.len(),
    ensures
        can_be_shown(m, info),
{
    assert forall|k: u32| #[trigger] m.entities.contains_key(k) implies i16::MIN <= entity_y(
        k,
        info.min_y,
    ) <= i16::MAX by {
        assert(k / 256 < 0x8000);
        assert(entity_y(k, info.min_y) == k / 256 + info.min_y);
    }
}

/// A block entity as it is sent: the x offset in the upper and the z offset in the
/// lower four bits of a byte, its height, its kind and its data.
pub open spec fn sent_entity(m: ChunkModel, min_y: i32, k: u32, kind: u32) -> EntityData {
    let xz = 16 * (k as int % 16) + k as int / 16 % 16;
    EntityData {
        packed_xz: if xz < 128 {
            xz
        } else {
            xz - 256
        },
        y: (k / 256) as i16 + min_y as i16,
        kind,
        data: m.entities[k],
    }
}

/// The block entities that are sent are those at a block that has a kind of them, by
/// index, each once.
proof fn lemma_sent_entities(m: ChunkModel, min_y: i32, keys: Seq<u32>, n: nat) -> (from: Seq<
    (u32, u32),
>)
    requires
        n <= keys.len(),
        rising(keys),
        forall|j: int| 0 <= j < keys.len() ==> m.entities.contains_key(#[trigger] keys[j]),
    ensures
        from.len() == entity_data(m, min_y, keys, n).len(),
        forall|a: int, b: int|
            0 <= a < b < from.len() ==> (#[trigger] from[a]).0 < (#[trigger] from[b]).0,
        forall|a: int|
            0 <= a < from.len() ==> {
                let (k, kind) = #[trigger] from[a];
                &&& n > 0 && k <= keys[n - 1]
                &&& has_entity(m, k, kind)
                &&& entity_data(m, min_y, keys, n)[a] == sent_entity(m, min_y, k, kind)
            },
        forall|j: int, kind: u32|
            0 <= j < n && #[trigger] has_entity(m, keys[j], kind) ==> from.contains(
                (keys[j], kind),
            ),
    decreases n,
{
    if n == 0 {
        Seq::empty()
    } else {
        let before = lemma_sent_entities(m, min_y, keys, (n - 1) as nat);
        let k = keys[n - 1];
        let state = m.sections[k as int / 4096].blocks[k as int % 4096];
        assert(m.entities.contains_key(keys[n - 1]));
        let from = if state.block_entity_kind is Some {
            before.push((k, state.block_entity_kind->0))
        } else {
            before
        };
        assert forall|a: int| 0 <= a < before.len() implies (#[trigger] before[a]).0 < k by {
            assert(before[a].0 <= keys[n - 2]);
            assert(keys[n - 2] < keys[n - 1]);
        }
        assert forall|j: int, kind: u32|
            0 <= j < n && #[trigger] has_entity(m, keys[j], kind) implies from.contains(
            (keys[j], kind),
        ) by {
            if j < n - 1 {
                let a = choose|a: int| 0 <= a < before.len() && before[a] == (keys[j], kind);
                assert(from[a] == (keys[j], kind));
            } else {
                assert(from[before.len() as int] == (k, kind));
            }
        }
        from
    }
}

/// A packet that shows a chunk holds every block entity that stands at a block with a
/// kind of them, and no others, in the order of their indices.
pub proof fn every_entity_is_shown(
    p: &LevelChunkWithLight,
    m: ChunkModel,
    pos: ChunkPos,
    info: ChunkLayerInfo,
) -> (entities: Seq<(u32, u32)>)
    requires
        p.describes(m, pos, info),
    ensures
        p.block_entities@.len() == entities.len(),
        forall|a: int, b: int|
            0 <= a < b < entities.len() ==> (#[trigger] entities[a]).0 < (#[trigger] entities[b]).0,
        forall|a: int|
            0 <= a < entities.len() ==> {
                let (k, kind) = #[trigger] entities[a];
                &&& has_entity(m, k, kind)
                &&& p.block_entities@[a]@ == sent_entity(m, info.min_y, k, kind)
            },
        forall|k: u32, kind: u32| #[trigger]
            has_entity(m, k, kind) ==> entities.contains((k, kind)),
{
    let keys = ascending(m.entities.dom());
    lemma_ascending(m.entities.dom());
    assert forall|j: int| 0 <= j < keys.len() implies m.entities.contains_key(
        #[trigger] keys[j],
    ) by {
        assert(keys.contains(keys[j]));
    }
    let entities = lemma_sent_entities(m, info.min_y, keys, keys.len());
    let views = p.block_entities@.map_values(|e: ChunkDataBlockEntity| e@);
    assert(views.len() == p.block_entities@.len());
    assert forall|a: int| 0 <= a < entities.len() implies {
        let (k, kind) = #[trigger] entities[a];
        &&& has_entity(m, k, kind)
        &&& p.block_entities@[a]@ == sent_entity(m, info.min_y, k, kind)
    } by {
        assert(views[a] == p.block_entities@[a]@);
        let (k, kind) = entities[a];
    }
    assert forall|k: u32, kind: u32| #[trigger] has_entity(m, k, kind) implies entities.contains(
        (k, kind),
    ) by {
        assert(keys.contains(k));
        let j = choose|j: int| 0 <= j < keys.len() && keys[j] == k;
        assert(has_entity(m, keys[j], kind));
    }
    entities
}

/// A packet that shows a chunk says for each section how many blocks are not air and
/// how its blocks and biomes are stored, for each of the three kinds the heights, and
/// with what it is to be encoded.
pub proof fn every_section_is_shown(
    p: &LevelChunkWithLight,
    m: ChunkModel,
    pos: ChunkPos,
    info: ChunkLayerInfo,
    i: int,
)
    requires
        p.describes(m, pos, info),
        0 <= i < m.sections.len(),
    ensures
        p.threshold == info.threshold,
        p.pos == pos,
        p.sections@.len() == m.sections.len(),
        p.sections@[i].non_air_blocks == non_air(m.sections[i].blocks, 4096),
        p.sections@[i].block_states@ == m.sections[i].blocks,
        p.sections@[i].block_states.form() == m.sections[i].block_form,
        p.sections@[i].biomes@ == m.sections[i].biomes,
        p.sections@[i].biomes.form() == m.sections[i].biome_form,
        p.block_format == info.spec_block_format(),
        p.biome_format == info.spec_biome_format(),
        p.heightmaps@.len() == 3,
        p.heightmaps@[0].kind == HeightMapKind::WorldSurface,
        p.heightmaps@[1].kind == HeightMapKind::MotionBlocking,
        p.heightmaps@[2].kind == HeightMapKind::MotionBlockingNoLeaves,
        forall|k: int|
            0 <= k < 3 ==> packs_heightmap(
                (#[trigger] p.heightmaps@[k]).data@,
                m.heightmap(p.heightmaps@[k].kind),
                entry_bits(16 * m.sections.len()),
            ),
{
    assert(p.sections@[i].describes(m.sections[i]));
    assert(p.heightmaps@[0].describes(m, HeightMapKind::WorldSurface));
    assert(p.heightmaps@[1].describes(m, HeightMapKind::MotionBlocking));
    assert(p.heightmaps@[2].describes(m, HeightMapKind::MotionBlockingNoLeaves));
}

/// A packet that shows a chunk says of the sky light and the block light of each
/// section whether it is sent, and of the block light whether it is dark, and holds
/// the light that is sent, in order. Of the sky light none is said to be dark.
pub proof fn all_light_is_shown(
    p: &LevelChunkWithLight,
    m: ChunkModel,
    pos: ChunkPos,
    info: ChunkLayerInfo,
    i: int,
)
    requires
        p.describes(m, pos, info),
        0 <= i,
    ensures
        p.empty_sky_light_mask@.len() == 0,
        p.sky_light_mask@.len() == (m.sky_light.len() + 63) / 64,
        p.block_light_mask@.len() == (m.block_light.len() + 63) / 64,
        p.empty_block_light_mask@.len() == (m.block_light.len() + 63) / 64,
        i < m.sky_light.len() ==> ((p.sky_light_mask@[i / 64] >> ((i % 64) as u64)) & 1 == 1
            <==> m.sky_light[i].sent() is Some),
        i < m.block_light.len() ==> {
            let bit = (i % 64) as u64;
            &&& (p.block_light_mask@[i / 64] >> bit) & 1 == 1 <==> m.block_light[i].sent() is Some
            &&& (p.empty_block_light_mask@[i / 64] >> bit) & 1 == 1
                <==> m.block_light[i].reported_dark(true)
        },
        array_views(p.sky_light_arrays@) == sent_light(m.sky_light),
        array_views(p.block_light_arrays@) == sent_light(m.block_light),
{
    let sky = choose|sky: LightData|
        {
            &&& #[trigger] sky.describes(m.sky_light, false)
            &&& p.sky_light_mask == sky.mask
            &&& p.sky_light_arrays == sky.arrays
        };
    let block = choose|block: LightData|
        {
            &&& #[trigger] block.describes(m.block_light, true)
            &&& p.block_light_mask == block.mask
            &&& p.empty_block_light_mask == block.empty_mask
            &&& p.block_light_arrays == block.arrays
        };
    light_data_tells_of_each_section(sky, m.sky_light, false, i);
    light_data_tells_of_each_section(block, m.block_light, true, i);
}

} // verus!
