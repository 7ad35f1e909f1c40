//! Telling clients of changes to a loaded chunk.

use vstd::prelude::*;

use crate::chunk::block::{BiomeContainer, BlockPos, ChunkPos, ChunkSectionPos, SECTION_BLOCK_COUNT};
use crate::chunk::keys::{ascending, lemma_ascending, lemma_ordered_keys, set_keys};
use crate::chunk::loaded::LoadedChunk;
use crate::chunk::message::{
    biome_messages, biome_views, block_messages, block_positions_fit, can_be_told,
    change_messages, entity_kind, entity_messages, entity_positions_fit, msg_views, position_fits,
    ChunkLayerInfo, ChunkPacket, LocalMsg, MsgModel,
};
use crate::chunk::model::{ChunkDeltaUpdateEntry, ChunkModel, SectionModel};
use crate::chunk::send::{lemma_no_changes, lemma_synced};

verus! {

impl LoadedChunk {
    /// Tells of the recorded block changes, which are then cleared.
    fn send_block_changes(
        &mut self,
        pos: ChunkPos,
        info: &ChunkLayerInfo,
        messages: &mut Vec<LocalMsg>,
    )
        requires
            old(self).wf(),
            block_positions_fit(old(self)@, pos, info.min_y),
        ensures
            final(self).wf(),
            final(self)@ == (ChunkModel { sections: old(self)@.synced().sections, ..old(self)@ }),
            msg_views(final(messages)@) == msg_views(old(messages)@) + block_messages(
                old(self)@,
                pos,
                *info,
                old(self)@.sections.len(),
            ),
    {
        let mut i: usize = 0;
        while i < self.sections.len()
            invariant
                old(self).wf(),
                block_positions_fit(old(self)@, pos, info.min_y),
                i <= self.sections@.len(),
                self.sections@.len() == old(self).sections@.len(),
                *self == (LoadedChunk { sections: self.sections, ..*old(self) }),
                forall|j: int|
                    0 <= j < i ==> {
                        let s = #[trigger] self.sections@[j];
                        &&& s.block_states == old(self).sections@[j].block_states
                        &&& s.biomes == old(self).sections@[j].biomes
                        &&& s.updates@.len() == 0
                    },
                forall|j: int|
                    i <= j < self.sections@.len() ==> #[trigger] self.sections@[j] == old(
                        self,
                    ).sections@[j],
                msg_views(messages@) == msg_views(old(messages)@) + block_messages(
                    old(self)@,
                    pos,
                    *info,
                    i as nat,
                ),
            decreases self.sections@.len() - i,
        {
            let ghost sent = messages@;
            let ghost s = old(self)@.sections[i as int];
            let mut updates: Vec<ChunkDeltaUpdateEntry> = Vec::new();
            std::mem::swap(&mut updates, &mut self.sections[i].updates);
            assert(updates@ == s.updates);
            if updates.len() == 1 {
                let entry = updates[0];
                assert(old(self).sections@[i as int].updates@[0].wf());
                let sect_y: i64 = i as i64;
                let position = BlockPos {
                    x: pos.x * 16 + entry.off_x as i32,
                    y: (info.min_y as i64 + sect_y * 16 + entry.off_y as i64) as i32,
                    z: pos.z * 16 + entry.off_z as i32,
                };
                messages.push(
                    LocalMsg::PacketAt {
                        pos,
                        threshold: info.threshold,
                        packet: ChunkPacket::BlockUpdate {
                            position,
                            block_id: entry.block_state as u16,
                        },
                    },
                );
            } else if updates.len() > 1 {
                let chunk_sect_pos = ChunkSectionPos {
                    x: pos.x,
                    y: i as i32 + info.min_y.checked_div_euclid(16).unwrap(),
                    z: pos.z,
                };
                messages.push(
                    LocalMsg::PacketAt {
                        pos,
                        threshold: info.threshold,
                        packet: ChunkPacket::SectionBlocksUpdate { chunk_sect_pos, blocks: updates },
                    },
                );
            }
            proof {
                if s.updates.len() > 0 {
                    assert(messages@ == sent.push(messages@.last()));
                    assert(msg_views(messages@) =~= msg_views(sent).push(messages@.last()@));
                }
                assert(msg_views(messages@) =~= msg_views(old(messages)@) + block_messages(
                    old(self)@,
                    pos,
                    *info,
                    (i + 1) as nat,
                ));
            }
            i += 1;
        }
        proof {
            let want = old(self)@.synced();
            assert forall|j: int| 0 <= j < self.sections@.len() implies #[trigger] self@.sections[j]
                == want.sections[j] by {
                assert(self.sections@[j]@ =~= want.sections[j]);
            }
            assert(self@.sections =~= want.sections);
        }
    }

    /// Tells of the recorded changes of block entities.
    fn send_entity_changes(
        &self,
        pos: ChunkPos,
        info: &ChunkLayerInfo,
        messages: &mut Vec<LocalMsg>,
    )
        requires
            self.wf(),
            entity_positions_fit(self@, pos, info.min_y),
        ensures
            msg_views(final(messages)@) == msg_views(old(messages)@) + entity_messages(
                self@,
                pos,
                *info,
                ascending(self@.changed_entities),
                ascending(self@.changed_entities).len(),
            ),
    {
        broadcast use vstd::std_specs::btree::group_btree_axioms;

        let keys = set_keys(&self.changed_block_entities);
        proof {
            lemma_ascending(self@.changed_entities);
        }
        let mut i: usize = 0;
        while i < keys.len()
            invariant
                self.wf(),
                entity_positions_fit(self@, pos, info.min_y),
                forall|k: u32| #[trigger]
                    keys@.contains(k) <==> self@.changed_entities.contains(k),
                i <= keys@.len(),
                msg_views(messages@) == msg_views(old(messages)@) + entity_messages(
                    self@,
                    pos,
                    *info,
                    keys@,
                    i as nat,
                ),
            decreases keys@.len() - i,
        {
            let ghost sent = messages@;
            let idx: u32 = keys[i];
            proof {
                lemma_ordered_keys();
                assert(keys@.contains(idx));
                assert(self@.changed_entities.contains(idx));
            }
            if let Some(nbt) = self.block_entities.get(&idx) {
                let x: u32 = idx % 16;
                let z: u32 = idx / 16 % 16;
                let y: u32 = idx / 16 / 16;
                proof {
                    assert(self.block_entities@.contains_key(idx));
                    assert(y / 16 == idx / 4096);
                    assert(self@.sections[idx as int / 4096] == self.sections@[idx as int / 4096]@);
                }
                let state = self.sections[y as usize / 16].block_states.get(
                    idx as usize % SECTION_BLOCK_COUNT,
                );
                if let Some(kind) = state.block_entity_kind {
                    let location = BlockPos {
                        x: pos.x * 16 + x as i32,
                        y: (info.min_y as i64 + y as i64) as i32,
                        z: pos.z * 16 + z as i32,
                    };
                    messages.push(
                        LocalMsg::PacketAt {
                            pos,
                            threshold: info.threshold,
                            packet: ChunkPacket::BlockEntityData {
                                location,
                                kind,
                                data: nbt.duplicate(),
                            },
                        },
                    );
                }
            }
            proof {
                if messages@ != sent {
                    assert(messages@ == sent.push(messages@.last()));
                    assert(msg_views(messages@) =~= msg_views(sent).push(messages@.last()@));
                }
                assert(msg_views(messages@) =~= msg_views(old(messages)@) + entity_messages(
                    self@,
                    pos,
                    *info,
                    keys@,
                    (i + 1) as nat,
                ));
            }
            i += 1;
        }
    }

    /// The biomes of all sections.
    fn copy_biomes(&self) -> (r: Vec<BiomeContainer>)
        requires
            self.wf(),
        ensures
            biome_views(r@) == self@.sections.map_values(
                |s: SectionModel| (s.biomes, s.biome_form),
            ),
    {
        let mut biomes: Vec<BiomeContainer> = Vec::new();
        let mut i: usize = 0;
        while i < self.sections.len()
            invariant
                self.wf(),
                i <= self.sections@.len(),
                biomes@.len() == i,
                forall|j: int|
                    0 <= j < i ==> {
                        let b = #[trigger] biomes@[j];
                        &&& b@ == self.sections@[j].biomes@
                        &&& b.form() == self.sections@[j].biomes.form()
                    },
            decreases self.sections@.len() - i,
        {
            biomes.push(self.sections[i].biomes.duplicate());
            i += 1;
        }
        proof {
            let want = self@.sections.map_values(|s: SectionModel| (s.biomes, s.biome_form));
            assert forall|j: int| 0 <= j < biomes@.len() implies #[trigger] biome_views(biomes@)[j]
                == want[j] by {
                assert(biomes@[j]@ == self.sections@[j].biomes@);
            }
            assert(biome_views(biomes@) =~= want);
        }
        biomes
    }

    /// Whether the recorded changes can be told.
    pub fn changes_can_be_told(&self, pos: ChunkPos, info: &ChunkLayerInfo) -> (r: bool)
        requires
            self.wf(),
        ensures
            r == can_be_told(self@, pos, *info),
    {
        if self.viewers == 0 && !self.has_no_changes() {
            return false;
        }
        if self.changed_biomes && info.biome_registry_len == 0 && self.sections.len() > 0 {
            return false;
        }
        self.block_positions_can_be_told(pos, info.min_y) && self.entity_positions_can_be_told(
            pos,
            info.min_y,
        )
    }

    /// Whether the positions fit that block changes are told with.
    fn block_positions_can_be_told(&self, pos: ChunkPos, min_y: i32) -> (r: bool)
        requires
            self.wf(),
        ensures
            r == block_positions_fit(self@, pos, min_y),
    {
        let mut i: usize = 0;
        while i < self.sections.len()
            invariant
                self.wf(),
                i <= self.sections@.len(),
                forall|j: int|
                    0 <= j < i && (#[trigger] self@.sections[j]).updates.len() == 1
                        ==> position_fits(
                        pos,
                        min_y,
                        j * 16 + self@.sections[j].updates[0].off_y,
                    ),
            decreases self.sections@.len() - i,
        {
            if self.sections[i].updates.len() == 1 {
                let y: i64 = i as i64 * 16 + self.sections[i].updates[0].off_y as i64;
                if !fits(pos, min_y, y) {
                    proof {
                        assert(self@.sections[i as int].updates.len() == 1);
                    }
                    return false;
                }
            }
            i += 1;
        }
        true
    }

    /// Whether the positions fit that changes of block entities are told with.
    fn entity_positions_can_be_told(&self, pos: ChunkPos, min_y: i32) -> (r: bool)
        requires
            self.wf(),
        ensures
            r == entity_positions_fit(self@, pos, min_y),
    {
        broadcast use vstd::std_specs::btree::group_btree_axioms;

        let keys = set_keys(&self.changed_block_entities);
        proof {
            lemma_ascending(self@.changed_entities);
        }
        let mut i: usize = 0;
        while i < keys.len()
            invariant
                self.wf(),
                forall|k: u32| #[trigger]
                    keys@.contains(k) <==> self@.changed_entities.contains(k),
                i <= keys@.len(),
                forall|j: int|
                    0 <= j < i && self@.entities.contains_key(#[trigger] keys@[j]) && entity_kind(
                        self@,
                        keys@[j],
                    ) is Some ==> position_fits(pos, min_y, keys@[j] as int / 256),
            decreases keys@.len() - i,
        {
            let idx: u32 = keys[i];
            proof {
                lemma_ordered_keys();
                assert(keys@.contains(idx));
                assert(self@.entities.contains_key(idx) == self.block_entities@.contains_key(idx));
            }
            if self.block_entities.contains_key(&idx) {
                proof {
                    assert(self@.sections[idx as int / 4096] == self.sections@[idx as int / 4096]@);
                }
                let state = self.sections[idx as usize / SECTION_BLOCK_COUNT].block_states.get(
                    idx as usize % SECTION_BLOCK_COUNT,
                );
                if state.block_entity_kind.is_some() && !fits(pos, min_y, (idx / 256) as i64) {
                    proof {
                        assert(self@.changed_entities.contains(idx));
                    }
                    return false;
                }
            }
            i += 1;
        }
        proof {
            assert forall|k: u32| #[trigger]
                self@.changed_entities.contains(k) && self@.entities.contains_key(k) && entity_kind(
                    self@,
                    k,
                ) is Some implies position_fits(pos, min_y, k as int / 256) by {
                assert(keys@.contains(k));
                let j = choose|j: int| 0 <= j < keys@.len() && keys@[j] == k;
                assert(self@.entities.contains_key(keys@[j]));
            }
        }
        true
    }

    /// Tells those who see the chunk of all recorded changes, which are then
    /// cleared.
    pub fn update_pre_client(
        &mut self,
        pos: ChunkPos,
        info: &ChunkLayerInfo,
        messages: &mut Vec<LocalMsg>,
    )
        requires
            old(self).wf(),
            can_be_told(old(self)@, pos, *info),
        ensures
            final(self).wf(),
            final(self)@ == old(self)@.synced(),
            final(self)@.no_changes(),
            final(self)@.content() == old(self)@.content(),
            forall|p: ChunkPos, i: ChunkLayerInfo| #[trigger]
                change_messages(final(self)@, p, i) == Seq::<MsgModel>::empty(),
            msg_views(final(messages)@) == msg_views(old(messages)@) + change_messages(
                old(self)@,
                pos,
                *info,
            ),
            old(self)@.viewers == 0 ==> final(messages)@ == old(messages)@,
    {
        proof {
            lemma_synced(self@);
        }
        if self.viewers == 0 {
            proof {
                lemma_no_changes(self@, pos, *info);
                assert(msg_views(messages@) =~= msg_views(messages@) + Seq::<MsgModel>::empty());
            }
            return;
        }
        let ghost m = self@;
        self.send_block_changes(pos, info, messages);
        let ghost keys = ascending(m.changed_entities);
        proof {
            lemma_entity_messages(m, self@, pos, *info, keys, keys.len());
            assert forall|k: u32| #[trigger]
                self@.changed_entities.contains(k) && self@.entities.contains_key(k) && entity_kind(
                    self@,
                    k,
                ) is Some implies position_fits(pos, info.min_y, k as int / 256) by {
                assert(self.block_entities@.contains_key(k));
                assert(m.changed_entities.contains(k));
                assert(entity_kind(m, k) == entity_kind(self@, k));
            }
        }
        self.send_entity_changes(pos, info, messages);
        self.changed_block_entities.clear();
        let ghost sent = messages@;
        if self.changed_biomes {
            self.changed_biomes = false;
            messages.push(
                LocalMsg::ChangeBiome {
                    pos,
                    biomes: self.copy_biomes(),
                    format: info.biome_format(),
                },
            );
            proof {
                assert(msg_views(messages@) =~= msg_views(sent).push(messages@.last()@));
                assert(messages@.last()@ == biome_messages(m, pos, *info)[0]) by {
                    assert(self@.sections.map_values(
                        |s: SectionModel| (s.biomes, s.biome_form),
                    ) =~= m.sections.map_values(|s: SectionModel| (s.biomes, s.biome_form)));
                }
            }
        }
        proof {
            assert(self@ =~= m.synced());
            assert(msg_views(messages@) =~= msg_views(old(messages)@) + change_messages(
                m,
                pos,
                *info,
            ));
        }
    }
}

/// Whether the position of a block fits that stands `y` above the lowest ones of
/// the chunk at `pos`.
fn fits(pos: ChunkPos, min_y: i32, y: i64) -> (r: bool)
    requires
        0 <= y <= u32::MAX,
    ensures
        r == position_fits(pos, min_y, y as int),
{
    -0x800_0000 <= pos.x && pos.x < 0x800_0000 && -0x800_0000 <= pos.z && pos.z < 0x800_0000
        && min_y as i64 + y <= i32::MAX as i64
}

/// What is said of block entities does not depend on what else is recorded.
proof fn lemma_entity_messages(
    m: ChunkModel,
    n: ChunkModel,
    pos: ChunkPos,
    info: ChunkLayerInfo,
    keys: Seq<u32>,
    count: nat,
)
    requires
        n == (ChunkModel { sections: m.synced().sections, ..m }),
        count <= keys.len(),
        forall|k: u32| #[trigger]
            m.entities.contains_key(k) ==> k / 4096 < m.sections.len(),
    ensures
        entity_messages(m, pos, info, keys, count) == entity_messages(n, pos, info, keys, count),
    decreases count,
{
    if count > 0 {
        lemma_entity_messages(m, n, pos, info, keys, (count - 1) as nat);
        let k = keys[count - 1];
        if m.entities.contains_key(k) {
            assert(entity_kind(m, k) == entity_kind(n, k));
        }
    }
}

} // verus!
