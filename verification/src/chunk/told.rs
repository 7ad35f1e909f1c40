//! What clients know of a chunk after they were told of its changes.

use vstd::prelude::*;

use super::block::{block_index, BlockState, ChunkPos};
use super::keys::ascending;
use super::laws::{
    all_apply, apply_all, full_sections, ids, lemma_apply_all, replay, told_clients_keep_up,
    told_is_true, Change,
};
use super::message::{
    biome_messages, block_messages, block_positions_fit, change_messages, entity_messages,
    position_fits, section_packet, ChunkLayerInfo, MsgModel, PacketModel,
};
use super::model::{fill_entries, fill_offsets, ChunkModel, SectionModel};

verus! {

/// The ids of all blocks of a chunk, by section.
pub open spec fn chunk_ids(m: ChunkModel) -> Seq<Seq<u32>> {
    m.sections.map_values(|s: SectionModel| ids(s.blocks))
}

/// What a client knows of the blocks of the chunk at `pos` after a packet.
pub open spec fn after_packet(
    seen: Seq<Seq<u32>>,
    packet: PacketModel,
    pos: ChunkPos,
    min_y: i32,
) -> Seq<Seq<u32>> {
    match packet {
        PacketModel::BlockUpdate { position, block_id } => {
            let x = position.x - pos.x * 16;
            let y = position.y - min_y;
            let z = position.z - pos.z * 16;
            seen.update(y / 16, seen[y / 16].update(block_index(x, y % 16, z), block_id as u32))
        },
        PacketModel::SectionBlocksUpdate { chunk_sect_pos, blocks } => {
            let s = chunk_sect_pos.y - min_y as int / 16;
            seen.update(s, replay(seen[s], blocks))
        },
        PacketModel::BlockEntityData { .. } => seen,
    }
}

/// What a client knows of the blocks of a chunk after messages, in order.
pub open spec fn after_messages(
    seen: Seq<Seq<u32>>,
    messages: Seq<MsgModel>,
    min_y: i32,
) -> Seq<Seq<u32>>
    decreases messages.len(),
{
    if messages.len() == 0 {
        seen
    } else {
        let before = after_messages(seen, messages.drop_last(), min_y);
        match messages.last() {
            MsgModel::PacketAt { pos, packet, .. } => after_packet(before, packet, pos, min_y),
            MsgModel::ChangeBiome { .. } => before,
        }
    }
}

/// The recorded changes lie in their sections.
pub open spec fn entries_fit(m: ChunkModel) -> bool {
    forall|i: int, j: int|
        0 <= i < m.sections.len() && 0 <= j < m.sections[i].updates.len() ==> (
        #[trigger] m.sections[i].updates[j]).wf()
}

/// Messages after others.
proof fn lemma_after_append(
    seen: Seq<Seq<u32>>,
    first: Seq<MsgModel>,
    second: Seq<MsgModel>,
    min_y: i32,
)
    ensures
        after_messages(seen, first + second, min_y) == after_messages(
            after_messages(seen, first, min_y),
            second,
            min_y,
        ),
    decreases second.len(),
{
    if second.len() == 0 {
        assert(first + second =~= first);
    } else {
        lemma_after_append(seen, first, second.drop_last(), min_y);
        assert((first + second).drop_last() =~= first + second.drop_last());
    }
}

/// Messages on block entities say nothing of blocks.
proof fn lemma_after_entities(
    seen: Seq<Seq<u32>>,
    m: ChunkModel,
    pos: ChunkPos,
    info: ChunkLayerInfo,
    keys: Seq<u32>,
    n: nat,
)
    ensures
        after_messages(seen, entity_messages(m, pos, info, keys, n), info.min_y) == seen,
    decreases n,
{
    if n > 0 {
        let before = entity_messages(m, pos, info, keys, (n - 1) as nat);
        let all = entity_messages(m, pos, info, keys, n);
        lemma_after_entities(seen, m, pos, info, keys, (n - 1) as nat);
        if all != before {
            assert(all.drop_last() =~= before);
        }
    }
}

/// One section after its packet.
proof fn lemma_section_told(
    seen: Seq<Seq<u32>>,
    m: ChunkModel,
    i: int,
    pos: ChunkPos,
    info: ChunkLayerInfo,
)
    requires
        seen.len() == m.sections.len(),
        0 <= i < m.sections.len(),
        m.height() <= u32::MAX,
        m.sections[i].updates.len() > 0,
        forall|j: int|
            0 <= j < m.sections[i].updates.len() ==> (#[trigger] m.sections[i].updates[j]).wf(),
        m.sections[i].updates.len() == 1 ==> position_fits(
            pos,
            info.min_y,
            i * 16 + m.sections[i].updates[0].off_y,
        ),
    ensures
        after_packet(seen, section_packet(m.sections[i], i, pos, info), pos, info.min_y)
            == seen.update(i, replay(seen[i], m.sections[i].updates)),
{
    let updates = m.sections[i].updates;
    if updates.len() == 1 {
        let e = updates[0];
        assert(e.wf());
        reveal_with_fuel(replay, 2);
        assert(updates.drop_last() =~= Seq::empty());
        let y = i * 16 + e.off_y;
        assert(y / 16 == i && y % 16 == e.off_y);
        assert(info.min_y + y <= i32::MAX);
    }
}

/// The sections whose block messages were applied are as they are in the chunk.
proof fn lemma_after_blocks(
    seen: Seq<Seq<u32>>,
    m: ChunkModel,
    pos: ChunkPos,
    info: ChunkLayerInfo,
    n: nat,
)
    requires
        told_is_true(seen, m),
        entries_fit(m),
        m.height() <= u32::MAX,
        block_positions_fit(m, pos, info.min_y),
        n <= m.sections.len(),
    ensures
        after_messages(seen, block_messages(m, pos, info, n), info.min_y) == Seq::new(
            seen.len(),
            |i: int|
                if i < n {
                    ids(m.sections[i].blocks)
                } else {
                    seen[i]
                },
        ),
    decreases n,
{
    let want = Seq::new(
        seen.len(),
        |i: int|
            if i < n {
                ids(m.sections[i].blocks)
            } else {
                seen[i]
            },
    );
    if n == 0 {
        assert(want =~= seen);
    } else {
        let s = m.sections[n - 1];
        let before = block_messages(m, pos, info, (n - 1) as nat);
        let known = after_messages(seen, before, info.min_y);
        lemma_after_blocks(seen, m, pos, info, (n - 1) as nat);
        assert(replay(seen[n - 1], s.updates) == ids(s.blocks));
        if s.updates.len() == 0 {
            assert(known =~= want);
        } else {
            let all = block_messages(m, pos, info, n);
            assert(all.drop_last() =~= before);
            assert forall|j: int| 0 <= j < s.updates.len() implies (
            #[trigger] s.updates[j]).wf() by {
                assert(m.sections[n - 1].updates[j].wf());
            }
            lemma_section_told(known, m, n - 1, pos, info);
            assert(after_messages(seen, all, info.min_y) =~= want);
        }
    }
}

/// A client for which what is recorded is all that it does not know, and that
/// applies the messages on the recorded changes in order, then has the blocks of
/// the chunk.
pub proof fn told_clients_have_the_blocks(
    seen: Seq<Seq<u32>>,
    m: ChunkModel,
    pos: ChunkPos,
    info: ChunkLayerInfo,
)
    requires
        told_is_true(seen, m),
        entries_fit(m),
        m.height() <= u32::MAX,
        block_positions_fit(m, pos, info.min_y),
    ensures
        after_messages(seen, change_messages(m, pos, info), info.min_y) == chunk_ids(m),
{
    let keys = ascending(m.changed_entities);
    let blocks = block_messages(m, pos, info, m.sections.len());
    let entities = entity_messages(m, pos, info, keys, keys.len());
    let biomes = biome_messages(m, pos, info);
    lemma_after_blocks(seen, m, pos, info, m.sections.len());
    let known = after_messages(seen, blocks, info.min_y);
    assert(known =~= chunk_ids(m));
    lemma_after_entities(known, m, pos, info, keys, keys.len());
    lemma_after_append(seen, blocks, entities, info.min_y);
    lemma_after_append(seen, blocks + entities, biomes, info.min_y);
    if m.changed_biomes {
        assert(biomes.drop_last() =~= Seq::empty());
        assert(after_messages(known, biomes.drop_last(), info.min_y) == known);
    }
}

/// Entries of a fill lie in their section.
proof fn lemma_fill_entries_fit(blocks: Seq<BlockState>, block: BlockState, n: nat)
    requires
        n <= 4096,
    ensures
        forall|j: int|
            0 <= j < fill_entries(blocks, block, n).len() ==> (
            #[trigger] fill_entries(blocks, block, n)[j]).wf(),
    decreases n,
{
    if n > 0 {
        lemma_fill_entries_fit(blocks, block, (n - 1) as nat);
        let (x, y, z) = fill_offsets(n - 1);
        assert(0 <= x < 16 && 0 <= y < 16 && 0 <= z < 16);
        let before = fill_entries(blocks, block, (n - 1) as nat);
        let all = fill_entries(blocks, block, n);
        assert forall|j: int| 0 <= j < all.len() implies (#[trigger] all[j]).wf() by {
            if j < before.len() {
                assert(before[j].wf());
            }
        }
    }
}

/// Changes record what lies in their sections.
pub proof fn recorded_changes_lie_in_their_sections(m: ChunkModel, c: Change)
    requires
        c.applies(m),
        entries_fit(m),
    ensures
        entries_fit(c.apply(m)),
{
    let after = c.apply(m);
    assert forall|i: int, j: int|
        0 <= i < after.sections.len() && 0 <= j < after.sections[i].updates.len() implies (
    #[trigger] after.sections[i].updates[j]).wf() by {
        let s = m.sections[i];
        if j < s.updates.len() {
            assert(m.sections[i].updates[j].wf());
        }
        if let Change::FillBlocks { sect_y, block } = c {
            lemma_fill_entries_fit(m.sections[sect_y].blocks, block, 4096);
        }
    }
}

/// The same over many changes.
proof fn lemma_entries_fit(m: ChunkModel, changes: Seq<Change>, n: nat)
    requires
        full_sections(m),
        entries_fit(m),
        all_apply(m, changes),
        n <= changes.len(),
    ensures
        entries_fit(apply_all(m, changes.take(n as int))),
    decreases n,
{
    if n > 0 {
        lemma_entries_fit(m, changes, (n - 1) as nat);
        lemma_apply_all(m, changes, (n - 1) as nat);
        assert(changes.take(n as int).drop_last() =~= changes.take(n - 1));
        assert(changes.take(n as int).last() == changes[n - 1]);
        recorded_changes_lie_in_their_sections(
            apply_all(m, changes.take(n - 1)),
            changes[n - 1],
        );
    }
}

/// A client that knew the blocks of a chunk it sees, when nothing was recorded,
/// and that applies the messages on all that was done to the chunk since, knows
/// its blocks again. The positions in the messages have to fit.
pub proof fn clients_keep_up_with_the_blocks(
    m: ChunkModel,
    changes: Seq<Change>,
    pos: ChunkPos,
    info: ChunkLayerInfo,
)
    requires
        full_sections(m),
        m.no_changes(),
        m.viewers > 0,
        m.height() <= u32::MAX,
        all_apply(m, changes),
        block_positions_fit(apply_all(m, changes), pos, info.min_y),
    ensures
        after_messages(
            chunk_ids(m),
            change_messages(apply_all(m, changes), pos, info),
            info.min_y,
        ) == chunk_ids(apply_all(m, changes)),
{
    assert forall|i: int, j: int|
        0 <= i < m.sections.len() && 0 <= j < m.sections[i].updates.len() implies (
    #[trigger] m.sections[i].updates[j]).wf() by {
        assert(m.sections[i].updates.len() == 0);
    }
    told_clients_keep_up(m, changes);
    lemma_entries_fit(m, changes, changes.len());
    assert(changes.take(changes.len() as int) =~= changes);
    told_clients_have_the_blocks(chunk_ids(m), apply_all(m, changes), pos, info);
}

} // verus!
