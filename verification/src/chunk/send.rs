//! How biomes and blocks are sent, and when there is nothing to send.

use vstd::prelude::*;

use super::block::ChunkPos;
use super::heightmap::bit_width;
use super::keys::{ascending, lemma_ascending};
use super::message::{block_messages, change_messages, ChunkLayerInfo, MsgModel, PaletteFormat};
use super::model::ChunkModel;

verus! {

impl ChunkLayerInfo {
    /// How biomes are encoded.
    pub fn biome_format(&self) -> (r: PaletteFormat)
        ensures
            r == self.spec_biome_format(),
    {
        PaletteFormat {
            min_indirect_bits: 0,
            max_indirect_bits: 3,
            direct_bits: bit_width(self.biome_registry_len.saturating_sub(1)),
        }
    }

    /// How blocks are encoded.
    pub fn block_format(&self) -> (r: PaletteFormat)
        ensures
            r == self.spec_block_format(),
    {
        PaletteFormat {
            min_indirect_bits: 4,
            max_indirect_bits: 8,
            direct_bits: bit_width(self.max_block_raw as usize),
        }
    }
}

/// A chunk with nothing recorded looks the same, and there is nothing to tell.
pub proof fn lemma_synced(m: ChunkModel)
    ensures
        m.synced().content() == m.content(),
        forall|p: ChunkPos, i: ChunkLayerInfo| #[trigger]
            change_messages(m.synced(), p, i) == Seq::<MsgModel>::empty(),
{
    assert(m.synced().content().blocks =~= m.content().blocks);
    assert(m.synced().content().biomes =~= m.content().biomes);
    assert forall|p: ChunkPos, i: ChunkLayerInfo| #[trigger]
        change_messages(m.synced(), p, i) == Seq::<MsgModel>::empty() by {
        lemma_no_changes(m.synced(), p, i);
    }
}

/// Where nothing is recorded, there is nothing to tell or to clear.
pub proof fn lemma_no_changes(m: ChunkModel, pos: ChunkPos, info: ChunkLayerInfo)
    requires
        m.no_changes(),
    ensures
        m.synced() == m,
        change_messages(m, pos, info) == Seq::<MsgModel>::empty(),
{
    assert forall|i: int| 0 <= i < m.sections.len() implies #[trigger] m.synced().sections[i]
        == m.sections[i] by {
        assert(m.sections[i].updates.len() == 0);
        assert(m.sections[i].updates =~= Seq::empty());
    }
    assert(m.synced().sections =~= m.sections);
    assert(m.synced() =~= m);
    lemma_no_block_messages(m, pos, info, m.sections.len());
    let keys = ascending(m.changed_entities);
    lemma_ascending(m.changed_entities);
    if keys.len() > 0 {
        assert(keys.contains(keys[0]));
    }
}

/// Without recorded block changes there are no messages on them.
proof fn lemma_no_block_messages(m: ChunkModel, pos: ChunkPos, info: ChunkLayerInfo, n: nat)
    requires
        m.no_changes(),
        n <= m.sections.len(),
    ensures
        block_messages(m, pos, info, n) == Seq::<MsgModel>::empty(),
    decreases n,
{
    if n > 0 {
        lemma_no_block_messages(m, pos, info, (n - 1) as nat);
        assert(m.sections[n - 1].updates.len() == 0);
    }
}

} // verus!
