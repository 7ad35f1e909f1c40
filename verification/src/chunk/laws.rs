//! What holds of a chunk whatever is done to it.

use vstd::prelude::*;

use super::block::{biome_index, block_index, BiomeId, BlockState, ChunkPos};
use super::heightmap::{occupies, packs_heightmap, HeightMapKind};
use super::message::{change_messages, ChunkLayerInfo, MsgModel};
use super::model::{
    entity_index, fill_entries, fill_offsets, ChunkDeltaUpdateEntry, ChunkModel, ChunkParts,
    SectionModel,
};
use super::palette::{form_is_set, smallest_form_holds};
use super::send::lemma_synced;

verus! {

/// A change to a chunk.
pub ghost enum Change {
    SetBlock { x: int, y: int, z: int, block: BlockState },
    FillBlocks { sect_y: int, block: BlockState },
    SetBiome { x: int, y: int, z: int, biome: BiomeId },
    FillBiomes { sect_y: int, biome: BiomeId },
    SetEntity { idx: u32, data: Seq<u8> },
    RemoveEntity { idx: u32 },
    ClearEntities,
    Shrink,
}

impl Change {
    /// Whether the change is to something that the chunk has.
    pub open spec fn applies(self, m: ChunkModel) -> bool {
        match self {
            Change::SetBlock { x, y, z, .. } => m.has_block(x, y, z),
            Change::FillBlocks { sect_y, .. } => 0 <= sect_y < m.sections.len(),
            Change::SetBiome { x, y, z, .. } => m.has_biome(x, y, z),
            Change::FillBiomes { sect_y, .. } => 0 <= sect_y < m.sections.len(),
            Change::SetEntity { idx, .. } => idx / 4096 < m.sections.len(),
            _ => true,
        }
    }

    /// The chunk after the change.
    pub open spec fn apply(self, m: ChunkModel) -> ChunkModel {
        match self {
            Change::SetBlock { x, y, z, block } => m.with_block(x, y, z, block),
            Change::FillBlocks { sect_y, block } => m.with_filled_section(sect_y, block),
            Change::SetBiome { x, y, z, biome } => m.with_biome(x, y, z, biome),
            Change::FillBiomes { sect_y, biome } => m.with_filled_biomes(sect_y, biome),
            Change::SetEntity { idx, data } => m.with_entity(idx, data),
            Change::RemoveEntity { idx } => m.without_entity(idx),
            Change::ClearEntities => m.without_entities(),
            Change::Shrink => m.shrunk(),
        }
    }
}

/// Sections hold 4096 blocks and 64 biome cells, just those that are stored.
pub open spec fn full_sections(m: ChunkModel) -> bool {
    forall|i: int| 0 <= i < m.sections.len() ==> (#[trigger] m.sections[i]).full()
}

/// A change to a chunk that nobody sees records nothing.
pub proof fn unviewed_changes_are_not_recorded(m: ChunkModel, c: Change)
    requires
        c.applies(m),
        m.viewers == 0,
        m.no_changes(),
    ensures
        c.apply(m).no_changes(),
{
    let after = c.apply(m);
    assert forall|i: int| 0 <= i < after.sections.len() implies (
    #[trigger] after.sections[i]).updates.len() == 0 by {
        assert(m.sections[i].updates.len() == 0);
    }
}

/// For a chunk that someone sees, a change of biomes is recorded and stays so.
pub proof fn biome_changes_are_recorded(m: ChunkModel, c: Change)
    requires
        c.applies(m),
        full_sections(m),
        m.viewers > 0,
    ensures
        c.apply(m).content().biomes != m.content().biomes ==> c.apply(m).changed_biomes,
        m.changed_biomes ==> c.apply(m).changed_biomes,
{
    let after = c.apply(m);
    if !after.changed_biomes {
        assert forall|i: int| 0 <= i < m.sections.len() implies (
        #[trigger] after.sections[i]).biomes == m.sections[i].biomes by {
            if let Change::FillBiomes { sect_y, .. } = c {
                if i == sect_y {
                    assert(after.sections[i].biomes =~= m.sections[i].biomes);
                }
            }
        }
        assert(after.content().biomes =~= m.content().biomes);
    }
}

/// For a chunk that someone sees, a block entity that is new or has new data is
/// recorded, and stays so. One that is gone need not be.
pub proof fn entity_changes_are_recorded(m: ChunkModel, c: Change, k: u32)
    requires
        c.applies(m),
        m.viewers > 0,
    ensures
        c.apply(m).entities.contains_key(k) && !(m.entities.contains_key(k) && m.entities[k]
            == c.apply(m).entities[k]) ==> c.apply(m).changed_entities.contains(k),
        m.changed_entities.contains(k) ==> c.apply(m).changed_entities.contains(k),
{
}

/// The order in which a section is recorded reaches every block.
proof fn lemma_fill_order(i: int)
    requires
        0 <= i < 4096,
    ensures
        0 <= fill_rank(i) < 4096,
        ({
            let (x, y, z) = fill_offsets(fill_rank(i));
            block_index(x, y, z) == i
        }),
{
}

/// The place of block `i` in the order in which a section is recorded.
pub open spec fn fill_rank(i: int) -> int {
    i / 16 % 16 * 256 + i % 16 * 16 + i / 256
}

/// The block at place `n` of that order.
proof fn lemma_fill_rank(n: int)
    requires
        0 <= n < 4096,
    ensures
        ({
            let (x, y, z) = fill_offsets(n);
            &&& 0 <= block_index(x, y, z) < 4096
            &&& fill_rank(block_index(x, y, z)) == n
            &&& 0 <= x < 16
            &&& 0 <= y < 16
            &&& 0 <= z < 16
        }),
{
}

/// Nothing is recorded just where all blocks already were the new one.
proof fn lemma_fill_nothing(blocks: Seq<BlockState>, block: BlockState, n: nat)
    requires
        n <= 4096,
        blocks.len() == 4096,
    ensures
        fill_entries(blocks, block, n).len() == 0 <==> forall|i: int|
            0 <= i < 4096 && fill_rank(i) < n ==> #[trigger] blocks[i] == block,
    decreases n,
{
    if n > 0 {
        lemma_fill_nothing(blocks, block, (n - 1) as nat);
        lemma_fill_rank(n - 1);
        let (x, y, z) = fill_offsets(n - 1);
        let j = block_index(x, y, z);
        assert forall|i: int| 0 <= i < 4096 && fill_rank(i) == n - 1 implies i == j by {
            lemma_fill_order(i);
        }
        if blocks[j] == block {
            assert forall|i: int|
                0 <= i < 4096 && fill_rank(i) < n && (forall|i: int|
                    0 <= i < 4096 && fill_rank(i) < n - 1 ==> #[trigger] blocks[i] == block) implies
                #[trigger] blocks[i] == block by {
                if fill_rank(i) < n - 1 {
                }
            }
        }
    }
}

/// Cached packets that are still there after a change show the chunk as it is:
/// whatever can be seen to change drops them.
pub proof fn cached_packets_stay_true(m: ChunkModel, c: Change)
    requires
        c.applies(m),
        full_sections(m),
        c.apply(m).cache.len() > 0,
    ensures
        c.apply(m).content() == m.content(),
        c.apply(m).cache == m.cache,
{
    let after = c.apply(m);
    assert forall|i: int| 0 <= i < m.sections.len() implies {
        &&& (#[trigger] after.sections[i]).blocks == m.sections[i].blocks
        &&& after.sections[i].biomes == m.sections[i].biomes
    } by {
        let s = m.sections[i];
        match c {
            Change::FillBlocks { sect_y, block } => {
                lemma_fill_nothing(m.sections[sect_y].blocks, block, 4096);
                if i == sect_y {
                    assert forall|j: int| 0 <= j < 4096 implies s.blocks[j] == block by {
                        lemma_fill_order(j);
                    }
                    assert(after.sections[i].blocks =~= s.blocks);
                }
            },
            Change::FillBiomes { sect_y, biome } => {
                if i == sect_y {
                    assert(after.sections[i].biomes =~= s.biomes);
                }
            },
            _ => {},
        }
    }
    if let Change::RemoveEntity { idx } = c {
        assert(after.entities =~= m.entities);
    }
    assert(after.content().blocks =~= m.content().blocks);
    assert(after.content().biomes =~= m.content().biomes);
    assert(after.content() =~= m.content());
}

/// What was set is what is then found, and only there.
pub proof fn set_block_is_read_back(
    m: ChunkModel,
    x: int,
    y: int,
    z: int,
    block: BlockState,
    x2: int,
    y2: int,
    z2: int,
)
    requires
        full_sections(m),
        m.has_block(x, y, z),
        m.has_block(x2, y2, z2),
    ensures
        m.with_block(x, y, z, block).block_at(x2, y2, z2) == (if (x, y, z) == (x2, y2, z2) {
            block
        } else {
            m.block_at(x2, y2, z2)
        }),
{
    assert(y / 16 == y2 / 16 && y % 16 == y2 % 16 ==> y == y2);
}

/// A section that was filled holds the block throughout, the others what they
/// held.
pub proof fn filled_section_is_read_back(
    m: ChunkModel,
    sect_y: int,
    block: BlockState,
    x: int,
    y: int,
    z: int,
)
    requires
        full_sections(m),
        0 <= sect_y < m.sections.len(),
        m.has_block(x, y, z),
    ensures
        m.with_filled_section(sect_y, block).block_at(x, y, z) == (if y / 16 == sect_y {
            block
        } else {
            m.block_at(x, y, z)
        }),
{
}

/// The biome that was set is what is then found, and only there.
pub proof fn set_biome_is_read_back(
    m: ChunkModel,
    x: int,
    y: int,
    z: int,
    biome: BiomeId,
    x2: int,
    y2: int,
    z2: int,
)
    requires
        full_sections(m),
        m.has_biome(x, y, z),
        m.has_biome(x2, y2, z2),
    ensures
        m.with_biome(x, y, z, biome).biome_at(x2, y2, z2) == (if (x, y, z) == (x2, y2, z2) {
            biome
        } else {
            m.biome_at(x2, y2, z2)
        }),
{
    assert(y / 4 == y2 / 4 && y % 4 == y2 % 4 ==> y == y2);
}

/// The block entity that was set is what is then found, and only there.
pub proof fn set_entity_is_read_back(
    m: ChunkModel,
    x: int,
    y: int,
    z: int,
    data: Seq<u8>,
    x2: int,
    y2: int,
    z2: int,
)
    requires
        m.has_block(x, y, z),
        m.has_block(x2, y2, z2),
        entity_index(x, y, z) <= u32::MAX,
        entity_index(x2, y2, z2) <= u32::MAX,
    ensures
        m.with_entity(entity_index(x, y, z) as u32, data).entity_at(x2, y2, z2) == (if (x, y, z)
            == (x2, y2, z2) {
            Some(data)
        } else {
            m.entity_at(x2, y2, z2)
        }),
        m.without_entity(entity_index(x, y, z) as u32).entity_at(x2, y2, z2) == (if (x, y, z)
            == (x2, y2, z2) {
            None
        } else {
            m.entity_at(x2, y2, z2)
        }),
{
}

/// What is put into a chunk comes out of it again, at the chunk's height.
pub proof fn inserted_chunk_is_removed_again(m: ChunkModel, parts: ChunkParts)
    requires
        forall|i: int|
            0 <= i < parts.sections.len() ==> (#[trigger] parts.sections[i]).updates.len() == 0,
    ensures
        m.replaced(parts.resized(m.sections.len())).parts() == parts.resized(m.sections.len()),
        m.replaced(parts.resized(m.sections.len())).height() == m.height(),
{
    let put = parts.resized(m.sections.len());
    let got = m.replaced(put).parts();
    assert forall|i: int| 0 <= i < put.sections.len() implies #[trigger] got.sections[i]
        == put.sections[i] by {
        if i < parts.sections.len() {
            assert(parts.sections[i].updates =~= Seq::empty());
        }
        assert(got.sections[i] =~= put.sections[i]);
    }
    assert(got.sections =~= put.sections);
    assert(got =~= put);
}

/// After clients were told of all changes there is nothing more to tell.
/// Blocks, biomes, light, block entities, viewers and cached packets stay.
pub proof fn changes_are_told_once(m: ChunkModel, pos: ChunkPos, info: ChunkLayerInfo)
    ensures
        m.synced().no_changes(),
        change_messages(m.synced(), pos, info) == Seq::<MsgModel>::empty(),
        m.synced().content() == m.content(),
        m.synced().viewers == m.viewers,
        m.synced().cache == m.cache,
{
    lemma_synced(m);
}

/// Below the height of a column stands a block that occupies it, and none at or
/// above it does.
pub proof fn height_is_that_of_the_highest_block(
    m: ChunkModel,
    kind: HeightMapKind,
    x: int,
    z: int,
    n: nat,
)
    ensures
        m.top_below(kind, x, z, n) <= n,
        m.top_below(kind, x, z, n) > 0 ==> occupies(
            kind,
            m.block_at(x, m.top_below(kind, x, z, n) - 1, z),
        ),
        forall|y: int|
            m.top_below(kind, x, z, n) <= y < n ==> !occupies(kind, #[trigger] m.block_at(x, y, z)),
    decreases n,
{
    if n > 0 && !occupies(kind, m.block_at(x, n - 1, z)) {
        height_is_that_of_the_highest_block(m, kind, x, z, (n - 1) as nat);
    }
}

/// A packed height map gives back the heights that were packed.
pub proof fn heights_are_read_back(data: Seq<i64>, heights: Seq<u32>, others: Seq<u32>, bits: nat)
    requires
        heights.len() == 256,
        others.len() == 256,
        packs_heightmap(data, heights, bits),
        packs_heightmap(data, others, bits),
    ensures
        heights == others,
{
    assert forall|i: int| 0 <= i < 256 implies heights[i] == others[i] by {
        assert(others[i] == others[i]);
    }
    assert(heights =~= others);
}

/// The ids of blocks after changes to them.
pub open spec fn replay(ids: Seq<u32>, updates: Seq<ChunkDeltaUpdateEntry>) -> Seq<u32>
    decreases updates.len(),
{
    if updates.len() == 0 {
        ids
    } else {
        let e = updates.last();
        replay(ids, updates.drop_last()).update(
            block_index(e.off_x as int, e.off_y as int, e.off_z as int),
            e.block_state,
        )
    }
}

/// The ids of blocks.
pub open spec fn ids(blocks: Seq<BlockState>) -> Seq<u32> {
    blocks.map_values(|b: BlockState| b.raw as u32)
}

/// Whether a client that has seen `seen` and is told the recorded changes then
/// knows the blocks of the chunk.
pub open spec fn told_is_true(seen: Seq<Seq<u32>>, m: ChunkModel) -> bool {
    &&& seen.len() == m.sections.len()
    &&& forall|i: int| 0 <= i < seen.len() ==> (#[trigger] seen[i]).len() == 4096
    &&& forall|i: int|
        0 <= i < m.sections.len() ==> replay(seen[i], (#[trigger] m.sections[i]).updates) == ids(
            m.sections[i].blocks,
        )
}

/// One change after others.
proof fn lemma_replay_push(
    base: Seq<u32>,
    updates: Seq<ChunkDeltaUpdateEntry>,
    e: ChunkDeltaUpdateEntry,
)
    ensures
        replay(base, updates.push(e)) == replay(base, updates).update(
            block_index(e.off_x as int, e.off_y as int, e.off_z as int),
            e.block_state,
        ),
{
    assert(updates.push(e).drop_last() =~= updates);
}

/// Changes after others.
proof fn lemma_replay_append(
    base: Seq<u32>,
    first: Seq<ChunkDeltaUpdateEntry>,
    second: Seq<ChunkDeltaUpdateEntry>,
)
    ensures
        replay(base, first + second) == replay(replay(base, first), second),
    decreases second.len(),
{
    if second.len() == 0 {
        assert(first + second =~= first);
    } else {
        lemma_replay_append(base, first, second.drop_last());
        assert((first + second).drop_last() =~= first + second.drop_last());
    }
}

/// The entries of a fill set the blocks that differ, and no others.
proof fn lemma_replay_fill(
    base: Seq<u32>,
    blocks: Seq<BlockState>,
    block: BlockState,
    n: nat,
)
    requires
        n <= 4096,
        base.len() == 4096,
        blocks.len() == 4096,
    ensures
        replay(base, fill_entries(blocks, block, n)).len() == 4096,
        forall|i: int|
            0 <= i < 4096 ==> #[trigger] replay(base, fill_entries(blocks, block, n))[i] == (
            if fill_rank(i) < n && blocks[i] != block {
                block.raw as u32
            } else {
                base[i]
            }),
    decreases n,
{
    if n > 0 {
        lemma_replay_fill(base, blocks, block, (n - 1) as nat);
        lemma_fill_rank(n - 1);
        let before = fill_entries(blocks, block, (n - 1) as nat);
        let (x, y, z) = fill_offsets(n - 1);
        let j = block_index(x, y, z);
        lemma_replay_push(base, before, ChunkDeltaUpdateEntry::of(x, y, z, block));
        assert forall|i: int| 0 <= i < 4096 implies #[trigger] replay(
            base,
            fill_entries(blocks, block, n),
        )[i] == (if fill_rank(i) < n && blocks[i] != block {
            block.raw as u32
        } else {
            base[i]
        }) by {
            lemma_fill_order(i);
            assert(replay(base, before)[i] == (if fill_rank(i) < n - 1 && blocks[i] != block {
                block.raw as u32
            } else {
                base[i]
            }));
        }
    }
}

/// For a chunk that someone sees, the recorded block changes take what clients
/// have seen to what the chunk is, whatever is done to it.
pub proof fn recorded_changes_are_complete(seen: Seq<Seq<u32>>, m: ChunkModel, c: Change)
    requires
        c.applies(m),
        full_sections(m),
        m.viewers > 0,
        told_is_true(seen, m),
    ensures
        told_is_true(seen, c.apply(m)),
{
    let after = c.apply(m);
    assert forall|i: int| 0 <= i < after.sections.len() implies replay(
        seen[i],
        (#[trigger] after.sections[i]).updates,
    ) == ids(after.sections[i].blocks) by {
        let s = m.sections[i];
        assert(replay(seen[i], s.updates) == ids(s.blocks));
        match c {
            Change::SetBlock { x, y, z, block } => {
                if i == y / 16 && block != m.block_at(x, y, z) {
                    let e = ChunkDeltaUpdateEntry::of(x, y % 16, z, block);
                    lemma_replay_push(seen[i], s.updates, e);
                    assert(ids(s.blocks.update(block_index(x, y % 16, z), block)) =~= ids(
                        s.blocks,
                    ).update(block_index(x, y % 16, z), block.raw as u32));
                }
            },
            Change::FillBlocks { sect_y, block } => {
                if i == sect_y {
                    lemma_fill_told(seen[i], s, block);
                }
            },
            _ => {},
        }
    }
}

/// Changes keep the height of a chunk, how many see it, and its sections full.
pub proof fn changes_keep_the_shape(m: ChunkModel, c: Change)
    requires
        c.applies(m),
        full_sections(m),
    ensures
        full_sections(c.apply(m)),
        c.apply(m).height() == m.height(),
        c.apply(m).viewers == m.viewers,
{
    let after = c.apply(m);
    assert forall|i: int| 0 <= i < after.sections.len() implies (
    #[trigger] after.sections[i]).full() by {
        let s = m.sections[i];
        assert(s.full());
        let t = after.sections[i];
        match c {
            Change::SetBlock { x, y, z, block } => {
                form_is_set(s.block_form, 4096, block_index(x, y % 16, z), block);
            },
            Change::SetBiome { x, y, z, biome } => {
                form_is_set(s.biome_form, 64, biome_index(x, y % 4, z), biome);
            },
            Change::Shrink => {
                smallest_form_holds(s.blocks);
                smallest_form_holds(s.biomes);
            },
            _ => {},
        }
        assert(t.blocks =~= t.block_form.values(4096));
        assert(t.biomes =~= t.biome_form.values(64));
    }
}

/// The chunk after changes made one by one.
pub open spec fn apply_all(m: ChunkModel, changes: Seq<Change>) -> ChunkModel
    decreases changes.len(),
{
    if changes.len() == 0 {
        m
    } else {
        changes.last().apply(apply_all(m, changes.drop_last()))
    }
}

/// Whether each change is to something that the chunk has.
pub open spec fn all_apply(m: ChunkModel, changes: Seq<Change>) -> bool {
    forall|i: int| 0 <= i < changes.len() ==> (#[trigger] changes[i]).applies(m)
}

/// Nothing is ever recorded of a chunk while nobody sees it, whatever is done to
/// it.
pub proof fn unviewed_chunks_never_record(m: ChunkModel, changes: Seq<Change>)
    requires
        full_sections(m),
        m.viewers == 0,
        m.no_changes(),
        all_apply(m, changes),
    ensures
        apply_all(m, changes).no_changes(),
    decreases changes.len(),
{
    if changes.len() > 0 {
        let first = changes.drop_last();
        lemma_apply_all(m, changes, first.len());
        assert(changes.take(first.len() as int) =~= first);
        assert forall|i: int| 0 <= i < first.len() implies (#[trigger] first[i]).applies(m) by {
            assert(changes[i].applies(m));
        }
        unviewed_chunks_never_record(m, first);
        unviewed_changes_are_not_recorded(apply_all(m, first), changes.last());
    }
}

/// Clients that knew a chunk they see, and are told of all that was recorded
/// since, know it again, whatever was done to it meanwhile.
pub proof fn told_clients_keep_up(m: ChunkModel, changes: Seq<Change>)
    requires
        full_sections(m),
        m.no_changes(),
        m.viewers > 0,
        all_apply(m, changes),
    ensures
        told_is_true(
            m.sections.map_values(|s: SectionModel| ids(s.blocks)),
            apply_all(m, changes),
        ),
        full_sections(apply_all(m, changes)),
        apply_all(m, changes).height() == m.height(),
        apply_all(m, changes).viewers == m.viewers,
    decreases changes.len(),
{
    let seen = m.sections.map_values(|s: SectionModel| ids(s.blocks));
    if changes.len() == 0 {
        assert forall|i: int| 0 <= i < m.sections.len() implies replay(
            seen[i],
            (#[trigger] m.sections[i]).updates,
        ) == ids(m.sections[i].blocks) by {
            assert(m.sections[i].updates.len() == 0);
        }
    } else {
        let before = apply_all(m, changes.drop_last());
        let c = changes.last();
        assert forall|i: int| 0 <= i < changes.drop_last().len() implies (
        #[trigger] changes.drop_last()[i]).applies(m) by {
            assert(changes[i].applies(m));
        }
        told_clients_keep_up(m, changes.drop_last());
        assert(c.applies(m)) by {
            assert(changes[changes.len() - 1].applies(m));
        }
        assert(c.applies(before));
        recorded_changes_are_complete(seen, before, c);
        changes_keep_the_shape(before, c);
    }
}

/// Cached packets that are still there after many changes are those from before
/// them, and the chunk looks as it did then.
pub proof fn cached_packets_stay_true_throughout(m: ChunkModel, changes: Seq<Change>)
    requires
        full_sections(m),
        all_apply(m, changes),
        apply_all(m, changes).cache.len() > 0,
    ensures
        apply_all(m, changes).content() == m.content(),
        apply_all(m, changes).cache == m.cache,
    decreases changes.len(),
{
    if changes.len() > 0 {
        let first = changes.drop_last();
        lemma_apply_all(m, changes, first.len());
        assert(changes.take(first.len() as int) =~= first);
        cached_packets_stay_true(apply_all(m, first), changes.last());
        assert(all_apply(m, first)) by {
            assert forall|i: int| 0 <= i < first.len() implies (#[trigger] first[i]).applies(m) by {
                assert(changes[i].applies(m));
            }
        }
        cached_packets_stay_true_throughout(m, first);
    }
}

/// Changes that apply to a chunk apply after one another, and keep its shape.
pub proof fn lemma_apply_all(m: ChunkModel, changes: Seq<Change>, n: nat)
    requires
        full_sections(m),
        all_apply(m, changes),
        n <= changes.len(),
    ensures
        full_sections(apply_all(m, changes.take(n as int))),
        apply_all(m, changes.take(n as int)).sections.len() == m.sections.len(),
        apply_all(m, changes.take(n as int)).viewers == m.viewers,
        n < changes.len() ==> changes[n as int].applies(apply_all(m, changes.take(n as int))),
    decreases n,
{
    if n > 0 {
        let before = apply_all(m, changes.take(n - 1));
        lemma_apply_all(m, changes, (n - 1) as nat);
        assert(changes.take(n as int).drop_last() =~= changes.take(n - 1));
        assert(changes.take(n as int).last() == changes[n - 1]);
        changes_keep_the_shape(before, changes[n - 1]);
    }
    if n < changes.len() {
        assert(changes[n as int].applies(m));
    }
}

/// Clients that were told of all changes know the blocks of the chunk.
pub proof fn told_clients_know_all(m: ChunkModel)
    requires
        full_sections(m),
    ensures
        told_is_true(m.sections.map_values(|s: SectionModel| ids(s.blocks)), m.synced()),
{
}

/// Filling a section keeps what is told of it true.
proof fn lemma_fill_told(base: Seq<u32>, s: SectionModel, block: BlockState)
    requires
        base.len() == 4096,
        s.full(),
        replay(base, s.updates) == ids(s.blocks),
    ensures
        replay(base, s.filled(block, true).updates) == ids(s.filled(block, true).blocks),
{
    let entries = fill_entries(s.blocks, block, 4096);
    let filled = s.filled(block, true);
    lemma_fill_nothing(s.blocks, block, 4096);
    assert forall|i: int| 0 <= i < 4096 implies fill_rank(i) < 4096 by {
        lemma_fill_order(i);
    }
    if entries.len() == 0 {
        assert(s.blocks =~= filled.blocks);
    } else if s.block_form is Single {
        lemma_replay_fill(base, s.blocks, block, 4096);
        assert(s.blocks[0] != block);
        assert(replay(base, entries) =~= ids(filled.blocks));
    } else {
        lemma_replay_append(base, s.updates, entries);
        lemma_replay_fill(ids(s.blocks), s.blocks, block, 4096);
        assert(replay(ids(s.blocks), entries) =~= ids(filled.blocks));
    }
}

} // verus!
