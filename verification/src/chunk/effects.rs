//! What each operation does to a chunk, cell by cell, and what it leaves alone.

use vstd::prelude::*;

use super::block::{BiomeId, BlockState};
use super::laws::full_sections;
use super::light::LightSection;
use super::model::{
    entity_index, fill_entries, fill_offsets, ChunkDeltaUpdateEntry, ChunkModel, ChunkParts,
};
use super::palette::{smallest_form_holds, Form};

verus! {

/// Whether `(x, y, z)` is a block of a chunk of `n` sections.
pub open spec fn in_blocks(n: nat, x: int, y: int, z: int) -> bool {
    0 <= x < 16 && 0 <= y < 16 * n && 0 <= z < 16
}

/// Whether `(x, y, z)` is a biome cell of a chunk of `n` sections.
pub open spec fn in_biomes(n: nat, x: int, y: int, z: int) -> bool {
    0 <= x < 4 && 0 <= y < 4 * n && 0 <= z < 4
}

/// Whether two chunks differ in nothing but their sections, what is recorded of
/// biomes, and what is cached.
pub open spec fn same_but_sections(m: ChunkModel, n: ChunkModel) -> bool {
    &&& m.viewers == n.viewers
    &&& m.sections.len() == n.sections.len()
    &&& m.sky_light == n.sky_light
    &&& m.block_light == n.block_light
    &&& m.entities == n.entities
    &&& m.changed_entities == n.changed_entities
}

/// Whether two chunks differ in nothing but their block entities, what is recorded
/// of these, and what is cached.
pub open spec fn same_but_entities(m: ChunkModel, n: ChunkModel) -> bool {
    &&& m.viewers == n.viewers
    &&& m.sections == n.sections
    &&& m.sky_light == n.sky_light
    &&& m.block_light == n.block_light
    &&& m.changed_biomes == n.changed_biomes
}

/// A new chunk has as many whole sections as fit its height, all air and the first
/// biome, full sky light and no block light in and around them, and nothing else.
pub proof fn new_chunks_are_air(height: nat)
    ensures
        ({
            let m = ChunkModel::blank(height);
            &&& m.sections.len() * 16 <= height < m.sections.len() * 16 + 16
            &&& forall|i: int, j: int|
                0 <= i < m.sections.len() && 0 <= j < 4096 ==> {
                    let b = #[trigger] m.sections[i].blocks[j];
                    b.air && b.raw == 0 && b.block_entity_kind is None && !b.blocks_motion
                        && !b.liquid
                }
            &&& forall|i: int, j: int|
                0 <= i < m.sections.len() && 0 <= j < 64 ==> (
                #[trigger] m.sections[i].biomes[j]).0 == 0
            &&& forall|i: int|
                0 <= i < m.sections.len() ==> (#[trigger] m.sections[i]).updates.len() == 0
            &&& full_sections(m)
            &&& m.sky_light.len() == m.sections.len() + 2
            &&& m.block_light.len() == m.sections.len() + 2
            &&& forall|i: int|
                0 <= i < m.sky_light.len() ==> #[trigger] m.sky_light[i] == LightSection::Single(
                    255,
                )
            &&& forall|i: int|
                0 <= i < m.block_light.len() ==> #[trigger] m.block_light[i]
                    == LightSection::Single(0)
            &&& m.viewers == 0
            &&& forall|k: u32| !m.entities.contains_key(k)
            &&& forall|k: u32| !m.changed_entities.contains(k)
            &&& !m.changed_biomes
            &&& m.cache.len() == 0
        }),
{
    let m = ChunkModel::blank(height);
    assert forall|i: int| 0 <= i < m.sections.len() implies (#[trigger] m.sections[i]).full() by {
        let s = m.sections[i];
        assert(s.blocks =~= s.block_form.values(4096));
        assert(s.biomes =~= s.biome_form.values(64));
    }
}

/// Blocks, biomes and block entities are found by their position: sections are 16
/// blocks or 4 biome cells high, and in them x comes first, then z, then y.
pub proof fn things_are_found_by_position(m: ChunkModel, x: int, y: int, z: int)
    ensures
        m.height() == 16 * m.sections.len(),
        m.has_block(x, y, z) <==> in_blocks(m.sections.len(), x, y, z),
        m.has_biome(x, y, z) <==> in_biomes(m.sections.len(), x, y, z),
        m.block_at(x, y, z) == m.sections[y / 16].blocks[x + 16 * z + 256 * (y % 16)],
        m.biome_at(x, y, z) == m.sections[y / 4].biomes[x + 4 * z + 16 * (y % 4)],
        entity_index(x, y, z) == x + 16 * z + 256 * y,
        in_blocks(m.sections.len(), x, y, z) && y < 0x100_0000 ==> {
            let k = (x + 16 * z + 256 * y) as u32;
            &&& m.entity_at(x, y, z) is Some <==> m.entities.contains_key(k)
            &&& m.entities.contains_key(k) ==> m.entity_at(x, y, z) == Some(m.entities[k])
        },
{
}

/// Setting a block changes that block and no other. If the block was another one,
/// the cached packets are dropped, and the change is recorded after those before it
/// in that section where anyone sees the chunk. If it was the same, nothing happens.
pub proof fn set_block_does_just_that(m: ChunkModel, x: int, y: int, z: int, block: BlockState)
    requires
        full_sections(m),
        in_blocks(m.sections.len(), x, y, z),
    ensures
        ({
            let a = m.with_block(x, y, z, block);
            let s = y / 16;
            let at = x + 16 * z + 256 * (y % 16);
            let was = m.sections[s].blocks[at];
            &&& same_but_sections(m, a)
            &&& a.changed_biomes == m.changed_biomes
            &&& was == block ==> a == m
            &&& was != block ==> a.cache.len() == 0
            &&& forall|i: int, j: int|
                0 <= i < m.sections.len() && 0 <= j < 4096 ==> #[trigger] a.sections[i].blocks[j]
                    == (if i == s && j == at {
                    block
                } else {
                    m.sections[i].blocks[j]
                })
            &&& forall|i: int|
                0 <= i < m.sections.len() ==> {
                    let t = #[trigger] a.sections[i];
                    &&& t.blocks.len() == 4096
                    &&& t.biomes == m.sections[i].biomes
                    &&& t.biome_form == m.sections[i].biome_form
                    &&& i != s ==> t == m.sections[i]
                }
            &&& a.sections[s].block_form == m.sections[s].block_form.with(4096, at, block)
            &&& a.sections[s].updates == (if was != block && m.viewers > 0 {
                m.sections[s].updates.push(
                    ChunkDeltaUpdateEntry {
                        off_x: x as u8,
                        off_y: (y % 16) as u8,
                        off_z: z as u8,
                        block_state: block.raw as u32,
                    },
                )
            } else {
                m.sections[s].updates
            })
        }),
{
    assert(m.sections[y / 16].full());
    assert forall|i: int| 0 <= i < m.sections.len() implies m.sections[i].blocks.len() == 4096 by {
        assert(m.sections[i].full());
    }
}

/// The place of an entry in the order in which a filled section is recorded.
pub open spec fn entry_rank(e: ChunkDeltaUpdateEntry) -> int {
    256 * e.off_z + 16 * e.off_x + e.off_y
}

/// The place in its section of the block that an entry is of.
pub open spec fn entry_place(e: ChunkDeltaUpdateEntry) -> int {
    e.off_x + 16 * e.off_z + 256 * e.off_y
}

/// Entries of a fill are of blocks that differ, and say what they become.
proof fn lemma_entries_differ(blocks: Seq<BlockState>, block: BlockState, n: nat, k: int)
    requires
        n <= 4096,
        0 <= k < fill_entries(blocks, block, n).len(),
    ensures
        ({
            let e = fill_entries(blocks, block, n)[k];
            &&& e.off_x < 16 && e.off_y < 16 && e.off_z < 16
            &&& entry_rank(e) < n
            &&& blocks[entry_place(e)] != block
            &&& e.block_state == block.raw
        }),
    decreases n,
{
    if n > 0 {
        let before = fill_entries(blocks, block, (n - 1) as nat);
        if k < before.len() {
            lemma_entries_differ(blocks, block, (n - 1) as nat, k);
        } else {
            let (x, y, z) = fill_offsets(n - 1);
            assert(0 <= x < 16 && 0 <= y < 16 && 0 <= z < 16);
            assert(256 * z + 16 * x + y == n - 1);
        }
    }
}

/// Entries of a fill come in order.
proof fn lemma_entries_in_order(
    blocks: Seq<BlockState>,
    block: BlockState,
    n: nat,
    k: int,
    l: int,
)
    requires
        n <= 4096,
        0 <= k < l < fill_entries(blocks, block, n).len(),
    ensures
        entry_rank(fill_entries(blocks, block, n)[k]) < entry_rank(
            fill_entries(blocks, block, n)[l],
        ),
    decreases n,
{
    if n > 0 {
        let m = (n - 1) as nat;
        let before = fill_entries(blocks, block, m);
        if l < before.len() {
            lemma_entries_in_order(blocks, block, m, k, l);
        } else {
            lemma_entries_differ(blocks, block, m, k);
            let (x, y, z) = fill_offsets(n - 1);
            assert(0 <= x < 16 && 0 <= y < 16 && 0 <= z < 16);
            assert(256 * z + 16 * x + y == n - 1);
        }
    }
}

/// The offsets of the block that is recorded in its turn.
proof fn lemma_offsets_in_turn(j: int)
    requires
        0 <= j < 4096,
    ensures
        fill_offsets(256 * (j / 16 % 16) + 16 * (j % 16) + j / 256) == (
            j % 16,
            j / 256,
            j / 16 % 16,
        ),
        j % 16 + (j / 16 % 16) * 16 + (j / 256) * 256 == j,
{
}

/// Every block that differs has its entry.
proof fn lemma_entries_complete(blocks: Seq<BlockState>, block: BlockState, n: nat, j: int) -> (k:
    int)
    requires
        n <= 4096,
        0 <= j < 4096,
        256 * (j / 16 % 16) + 16 * (j % 16) + j / 256 < n,
        blocks[j] != block,
    ensures
        0 <= k < fill_entries(blocks, block, n).len(),
        entry_place(fill_entries(blocks, block, n)[k]) == j,
    decreases n,
{
    let before = fill_entries(blocks, block, (n - 1) as nat);
    if 256 * (j / 16 % 16) + 16 * (j % 16) + j / 256 < n - 1 {
        lemma_entries_complete(blocks, block, (n - 1) as nat, j)
    } else {
        lemma_offsets_in_turn(j);
        before.len() as int
    }
}

/// Filling a section records one entry for each block that differs, with the id of
/// the new one, by z, then x, then y, and no others.
pub proof fn fills_record_what_differs(blocks: Seq<BlockState>, block: BlockState)
    ensures
        ({
            let entries = fill_entries(blocks, block, 4096);
            &&& forall|k: int|
                0 <= k < entries.len() ==> {
                    let e = #[trigger] entries[k];
                    &&& e.off_x < 16 && e.off_y < 16 && e.off_z < 16
                    &&& blocks[entry_place(e)] != block
                    &&& e.block_state == block.raw
                }
            &&& forall|k: int, l: int|
                0 <= k < l < entries.len() ==> entry_rank(#[trigger] entries[k]) < entry_rank(
                    #[trigger] entries[l],
                )
            &&& forall|j: int|
                0 <= j < 4096 && #[trigger] blocks[j] != block ==> exists|k: int|
                    0 <= k < entries.len() && entry_place(#[trigger] entries[k]) == j
        }),
{
    let entries = fill_entries(blocks, block, 4096);
    assert forall|k: int| 0 <= k < entries.len() implies {
        let e = #[trigger] entries[k];
        &&& e.off_x < 16 && e.off_y < 16 && e.off_z < 16
        &&& blocks[entry_place(e)] != block
        &&& e.block_state == block.raw
    } by {
        lemma_entries_differ(blocks, block, 4096, k);
    }
    assert forall|k: int, l: int| 0 <= k < l < entries.len() implies entry_rank(
        #[trigger] entries[k],
    ) < entry_rank(#[trigger] entries[l]) by {
        lemma_entries_in_order(blocks, block, 4096, k, l);
    }
    assert forall|j: int| 0 <= j < 4096 && #[trigger] blocks[j] != block implies exists|k: int|
        0 <= k < entries.len() && entry_place(#[trigger] entries[k]) == j by {
        let k = lemma_entries_complete(blocks, block, 4096, j);
        assert(entry_place(entries[k]) == j);
    }
}

/// Filling a section sets all its blocks and none of the others. If any differed,
/// the cached packets are dropped, and the blocks that differed are recorded where
/// anyone sees the chunk; in place of what was recorded, where the section held one
/// value throughout. If none did, nothing is recorded or dropped.
pub proof fn fill_blocks_does_just_that(m: ChunkModel, s: int, block: BlockState)
    requires
        full_sections(m),
        0 <= s < m.sections.len(),
    ensures
        ({
            let a = m.with_filled_section(s, block);
            let differs = exists|j: int|
                0 <= j < 4096 && #[trigger] m.sections[s].blocks[j] != block;
            let entries = fill_entries(m.sections[s].blocks, block, 4096);
            &&& same_but_sections(m, a)
            &&& a.changed_biomes == m.changed_biomes
            &&& a.cache == (if differs {
                Seq::empty()
            } else {
                m.cache
            })
            &&& a.sections[s].blocks.len() == 4096
            &&& forall|j: int| 0 <= j < 4096 ==> #[trigger] a.sections[s].blocks[j] == block
            &&& a.sections[s].block_form == Form::Single(block)
            &&& a.sections[s].biomes == m.sections[s].biomes
            &&& a.sections[s].biome_form == m.sections[s].biome_form
            &&& forall|i: int|
                0 <= i < m.sections.len() && i != s ==> #[trigger] a.sections[i] == m.sections[i]
            &&& a.sections[s].updates == (if m.viewers == 0 || !differs {
                m.sections[s].updates
            } else if m.sections[s].block_form is Single {
                entries
            } else {
                m.sections[s].updates + entries
            })
        }),
{
    let blocks = m.sections[s].blocks;
    let entries = fill_entries(blocks, block, 4096);
    assert(m.sections[s].full());
    fills_record_what_differs(blocks, block);
    if exists|j: int| 0 <= j < 4096 && #[trigger] blocks[j] != block {
        assert(entries.len() > 0);
    } else if entries.len() > 0 {
        let e = entries[0];
        assert(blocks[entry_place(e)] != block);
    }
}

/// Setting a biome cell changes that cell and no other. If it was another biome, the
/// cached packets are dropped, and a change of biomes is recorded where anyone sees
/// the chunk. If it was the same, nothing happens.
pub proof fn set_biome_does_just_that(m: ChunkModel, x: int, y: int, z: int, biome: BiomeId)
    requires
        full_sections(m),
        in_biomes(m.sections.len(), x, y, z),
    ensures
        ({
            let a = m.with_biome(x, y, z, biome);
            let s = y / 4;
            let at = x + 4 * z + 16 * (y % 4);
            let was = m.sections[s].biomes[at];
            &&& same_but_sections(m, a)
            &&& was == biome ==> a == m
            &&& was != biome ==> a.cache.len() == 0
            &&& a.changed_biomes == (m.changed_biomes || (was != biome && m.viewers > 0))
            &&& forall|i: int, j: int|
                0 <= i < m.sections.len() && 0 <= j < 64 ==> #[trigger] a.sections[i].biomes[j]
                    == (if i == s && j == at {
                    biome
                } else {
                    m.sections[i].biomes[j]
                })
            &&& forall|i: int|
                0 <= i < m.sections.len() ==> {
                    let t = #[trigger] a.sections[i];
                    &&& t.biomes.len() == 64
                    &&& t.blocks == m.sections[i].blocks
                    &&& t.block_form == m.sections[i].block_form
                    &&& t.updates == m.sections[i].updates
                    &&& i != s ==> t == m.sections[i]
                }
            &&& a.sections[s].biome_form == m.sections[s].biome_form.with(64, at, biome)
        }),
{
    assert forall|i: int| 0 <= i < m.sections.len() implies m.sections[i].biomes.len() == 64 by {
        assert(m.sections[i].full());
    }
}

/// Filling the biomes of a section sets all its cells and none of the others. Unless
/// the section was stored as just that biome, the cached packets are dropped, and
/// whether a change of biomes is recorded is then whether anyone sees the chunk.
pub proof fn fill_biomes_does_just_that(m: ChunkModel, s: int, biome: BiomeId)
    requires
        full_sections(m),
        0 <= s < m.sections.len(),
    ensures
        ({
            let a = m.with_filled_biomes(s, biome);
            let held = m.sections[s].biome_form == Form::Single(biome);
            &&& same_but_sections(m, a)
            &&& a.cache == (if held {
                m.cache
            } else {
                Seq::empty()
            })
            &&& a.changed_biomes == (if held {
                m.changed_biomes
            } else {
                m.viewers > 0
            })
            &&& a.sections[s].biomes.len() == 64
            &&& forall|j: int| 0 <= j < 64 ==> #[trigger] a.sections[s].biomes[j] == biome
            &&& a.sections[s].biome_form == Form::Single(biome)
            &&& a.sections[s].blocks == m.sections[s].blocks
            &&& a.sections[s].block_form == m.sections[s].block_form
            &&& a.sections[s].updates == m.sections[s].updates
            &&& forall|i: int|
                0 <= i < m.sections.len() && i != s ==> #[trigger] a.sections[i] == m.sections[i]
        }),
{
}

/// A section whose biomes were filled holds the biome in every cell, the others what
/// they held.
pub proof fn filled_biomes_are_read_back(
    m: ChunkModel,
    s: int,
    biome: BiomeId,
    x: int,
    y: int,
    z: int,
)
    requires
        full_sections(m),
        0 <= s < m.sections.len(),
        in_biomes(m.sections.len(), x, y, z),
    ensures
        m.with_filled_biomes(s, biome).biome_at(x, y, z) == (if y / 4 == s {
            biome
        } else {
            m.biome_at(x, y, z)
        }),
{
    fill_biomes_does_just_that(m, s, biome);
    things_are_found_by_position(m, x, y, z);
    let a = m.with_filled_biomes(s, biome);
    things_are_found_by_position(a, x, y, z);
    assert(0 <= x + 4 * z + 16 * (y % 4) < 64);
}

/// Setting a block entity sets that one and no other, drops the cached packets, and
/// records it where anyone sees the chunk.
pub proof fn set_entity_does_just_that(m: ChunkModel, k: u32, data: Seq<u8>, other: u32)
    ensures
        ({
            let a = m.with_entity(k, data);
            &&& same_but_entities(m, a)
            &&& a.entities.contains_key(k) && a.entities[k] == data
            &&& other != k ==> (a.entities.contains_key(other) <==> m.entities.contains_key(other))
            &&& other != k && m.entities.contains_key(other) ==> a.entities[other]
                == m.entities[other]
            &&& a.changed_entities.contains(other) <==> m.changed_entities.contains(other) || (other
                == k && m.viewers > 0)
            &&& a.cache.len() == 0
        }),
{
}

/// Taking a block entity away takes that one and no other, and records nothing. The
/// cached packets are dropped where there was one.
pub proof fn remove_entity_does_just_that(m: ChunkModel, k: u32, other: u32)
    ensures
        ({
            let a = m.without_entity(k);
            &&& same_but_entities(m, a)
            &&& a.entities.contains_key(other) <==> m.entities.contains_key(other) && other != k
            &&& a.entities.contains_key(other) ==> a.entities[other] == m.entities[other]
            &&& a.changed_entities == m.changed_entities
            &&& a.cache == (if m.entities.contains_key(k) {
                Seq::empty()
            } else {
                m.cache
            })
        }),
{
}

/// Taking all block entities away leaves none, and records each of them where anyone
/// sees the chunk. The cached packets are dropped where there were any.
pub proof fn clear_entities_does_just_that(m: ChunkModel, k: u32)
    ensures
        ({
            let a = m.without_entities();
            &&& same_but_entities(m, a)
            &&& !a.entities.contains_key(k)
            &&& a.changed_entities.contains(k) <==> m.changed_entities.contains(k) || (
            m.entities.contains_key(k) && m.viewers > 0)
            &&& m.entities.contains_key(k) ==> a.cache.len() == 0
            &&& (forall|j: u32| !m.entities.contains_key(j)) ==> a == m
        }),
{
    if forall|j: u32| !m.entities.contains_key(j) {
        assert(m.entities =~= Map::<u32, Seq<u8>>::empty());
    }
}

/// A chunk whose content is replaced holds the new sections as far as it is high,
/// blank ones above these, and the new block entities that lie in it. Light and
/// viewers stay, and nothing is recorded or cached.
pub proof fn insert_does_just_that(m: ChunkModel, parts: ChunkParts, i: int, k: u32)
    requires
        0 <= i < m.sections.len(),
    ensures
        ({
            let a = m.replaced(parts.resized(m.sections.len()));
            &&& a.viewers == m.viewers
            &&& a.sky_light == m.sky_light
            &&& a.block_light == m.block_light
            &&& a.sections.len() == m.sections.len()
            &&& i < parts.sections.len() ==> a.sections[i] == parts.sections[i]
            &&& i >= parts.sections.len() ==> {
                let s = a.sections[i];
                &&& s.blocks.len() == 4096 && s.biomes.len() == 64
                &&& forall|j: int| 0 <= j < 4096 ==> (#[trigger] s.blocks[j]).air
                &&& forall|j: int| 0 <= j < 4096 ==> (#[trigger] s.blocks[j]).raw == 0
                &&& forall|j: int| 0 <= j < 64 ==> (#[trigger] s.biomes[j]).0 == 0
                &&& s.updates.len() == 0
            }
            &&& a.entities.contains_key(k) <==> parts.entities.contains_key(k) && k < 4096
                * m.sections.len()
            &&& a.entities.contains_key(k) ==> a.entities[k] == parts.entities[k]
            &&& !a.changed_entities.contains(k)
            &&& !a.changed_biomes
            &&& a.cache.len() == 0
        }),
{
    assert(k / 4096 < m.sections.len() <==> k < 4096 * m.sections.len());
}

/// A chunk whose content is removed is left with blank sections and no block
/// entities. Light and viewers stay, and nothing is recorded or cached.
pub proof fn remove_does_just_that(m: ChunkModel, i: int, j: int, k: u32)
    requires
        0 <= i < m.sections.len(),
    ensures
        ({
            let a = m.replaced(ChunkParts::blank(m.sections.len()));
            &&& a.viewers == m.viewers
            &&& a.sky_light == m.sky_light
            &&& a.block_light == m.block_light
            &&& a.sections.len() == m.sections.len()
            &&& a.sections[i].blocks.len() == 4096 && a.sections[i].biomes.len() == 64
            &&& 0 <= j < 4096 ==> a.sections[i].blocks[j].air && a.sections[i].blocks[j].raw == 0
            &&& 0 <= j < 64 ==> a.sections[i].biomes[j].0 == 0
            &&& a.sections[i].updates.len() == 0
            &&& !a.entities.contains_key(k)
            &&& !a.changed_entities.contains(k)
            &&& !a.changed_biomes
            &&& a.cache.len() == 0
        }),
{
}

/// What is handed out of a chunk is its sections and block entities as they were.
pub proof fn contents_are_handed_out(m: ChunkModel, i: int)
    requires
        0 <= i < m.sections.len(),
    ensures
        m.parts().sections.len() == m.sections.len(),
        m.parts().sections[i].blocks == m.sections[i].blocks,
        m.parts().sections[i].block_form == m.sections[i].block_form,
        m.parts().sections[i].biomes == m.sections[i].biomes,
        m.parts().sections[i].biome_form == m.sections[i].biome_form,
        m.parts().entities == m.entities,
{
}

/// A chunk whose height is set keeps the sections below it, gets blank ones above
/// those that it had, and keeps the block entities below it.
pub proof fn set_height_does_just_that(parts: ChunkParts, n: nat, i: int, k: u32)
    requires
        0 <= i < n,
    ensures
        parts.resized(n).sections.len() == n,
        i < parts.sections.len() ==> parts.resized(n).sections[i] == parts.sections[i],
        i >= parts.sections.len() ==> {
            let s = parts.resized(n).sections[i];
            &&& s.blocks.len() == 4096 && s.biomes.len() == 64
            &&& forall|j: int| 0 <= j < 4096 ==> (#[trigger] s.blocks[j]).air
            &&& forall|j: int| 0 <= j < 64 ==> (#[trigger] s.biomes[j]).0 == 0
        },
        parts.resized(n).entities.contains_key(k) <==> parts.entities.contains_key(k) && k < 4096
            * n,
        parts.resized(n).entities.contains_key(k) ==> parts.resized(n).entities[k]
            == parts.entities[k],
{
    assert(k / 4096 < n <==> k < 4096 * n);
}

/// After clients were told, nothing is recorded, and all else is as it was.
pub proof fn telling_clears_what_is_recorded(m: ChunkModel, i: int, k: u32)
    requires
        0 <= i < m.sections.len(),
    ensures
        ({
            let a = m.synced();
            &&& a.viewers == m.viewers
            &&& a.sections.len() == m.sections.len()
            &&& a.sections[i].blocks == m.sections[i].blocks
            &&& a.sections[i].block_form == m.sections[i].block_form
            &&& a.sections[i].biomes == m.sections[i].biomes
            &&& a.sections[i].biome_form == m.sections[i].biome_form
            &&& a.sections[i].updates.len() == 0
            &&& a.sky_light == m.sky_light
            &&& a.block_light == m.block_light
            &&& a.entities == m.entities
            &&& !a.changed_entities.contains(k)
            &&& !a.changed_biomes
            &&& a.cache == m.cache
        }),
{
}

/// Shrinking a chunk changes nothing but how its sections are stored: as one value
/// where there is one, with a palette where there are up to sixteen, and one by one
/// where there are more.
pub proof fn shrinking_changes_only_the_form(m: ChunkModel, i: int)
    requires
        full_sections(m),
        0 <= i < m.sections.len(),
    ensures
        ({
            let a = m.shrunk();
            let s = a.sections[i];
            let blocks = m.sections[i].blocks.to_set().len();
            let biomes = m.sections[i].biomes.to_set().len();
            &&& same_but_sections(m, a)
            &&& a.changed_biomes == m.changed_biomes
            &&& a.cache == m.cache
            &&& s.blocks == m.sections[i].blocks
            &&& s.biomes == m.sections[i].biomes
            &&& s.updates == m.sections[i].updates
            &&& forall|j: int| 0 <= j < 4096 ==> s.block_form.at(j) == #[trigger] s.blocks[j]
            &&& forall|j: int| 0 <= j < 64 ==> s.biome_form.at(j) == #[trigger] s.biomes[j]
            &&& s.block_form is Single <==> blocks == 1
            &&& s.block_form is Indirect <==> 2 <= blocks <= 16
            &&& s.biome_form is Single <==> biomes == 1
            &&& s.biome_form is Indirect <==> 2 <= biomes <= 16
        }),
{
    let s = m.sections[i];
    assert(s.full());
    smallest_form_holds(s.blocks);
    smallest_form_holds(s.biomes);
    let t = m.shrunk().sections[i];
    assert forall|j: int| 0 <= j < 4096 implies t.block_form.at(j) == #[trigger] t.blocks[j] by {
        assert(t.block_form.values(4096)[j] == t.blocks[j]);
    }
    assert forall|j: int| 0 <= j < 64 implies t.biome_form.at(j) == #[trigger] t.biomes[j] by {
        assert(t.biome_form.values(64)[j] == t.biomes[j]);
    }
}

/// What is shown of a chunk is its blocks, biomes, light and block entities, and
/// that no change is recorded means just that.
pub proof fn contents_and_changes(m: ChunkModel, i: int)
    requires
        0 <= i < m.sections.len(),
    ensures
        m.content().blocks.len() == m.sections.len(),
        m.content().biomes.len() == m.sections.len(),
        m.content().blocks[i] == m.sections[i].blocks,
        m.content().biomes[i] == m.sections[i].biomes,
        m.content().sky_light == m.sky_light,
        m.content().block_light == m.block_light,
        m.content().entities == m.entities,
        m.no_changes() ==> !m.changed_biomes && m.sections[i].updates.len() == 0,
        m.no_changes() ==> forall|k: u32| !m.changed_entities.contains(k),
        !m.changed_biomes && (forall|k: u32| !m.changed_entities.contains(k)) && (forall|j: int|
            0 <= j < m.sections.len() ==> (#[trigger] m.sections[j]).updates.len() == 0)
            ==> m.no_changes(),
{
    if forall|k: u32| !m.changed_entities.contains(k) {
        assert(m.changed_entities =~= Set::<u32>::empty());
    }
}

} // verus!
