//! Chunks that are loaded in the world.

mod show;
mod tell;

use std::collections::{BTreeMap, BTreeSet};
use vstd::prelude::*;

use super::block::{
    BiomeContainer, BiomeId, BlockState, BlockStateContainer, Compound, SECTION_BLOCK_COUNT,
};
use super::heightmap::{is_occupied, HeightMapKind};
use super::keys::{lemma_ascending, lemma_ordered_keys, map_keys};
use super::laws::full_sections;
use super::light::LightSection;
use super::model::{entity_index, fill_entries, ChunkDeltaUpdateEntry, ChunkModel, ChunkParts, SectionModel};
use super::palette::{lemma_push_set, Form, PalettedContainer};
use super::shown::entities_in_chunk;
use super::told::entries_fit;
use super::unloaded::UnloadedChunk;

verus! {

/// A 16 by 16 by 16 part of a chunk.
#[derive(Clone, Debug)]
pub struct Section {
    pub block_states: BlockStateContainer,
    pub biomes: BiomeContainer,
    /// The block changes that clients have not been told of.
    pub updates: Vec<ChunkDeltaUpdateEntry>,
}

impl View for Section {
    type V = SectionModel;

    open spec fn view(&self) -> SectionModel {
        SectionModel {
            blocks: self.block_states@,
            block_form: self.block_states.form(),
            biomes: self.biomes@,
            biome_form: self.biomes.form(),
            updates: self.updates@,
        }
    }
}

impl Section {
    /// The containers are consistent and the recorded changes lie in the section.
    pub open spec fn wf(&self) -> bool {
        &&& self.block_states.wf()
        &&& self.biomes.wf()
        &&& forall|i: int| 0 <= i < self.updates@.len() ==> (#[trigger] self.updates@[i]).wf()
    }
}

impl Default for Section {
    fn default() -> (r: Self)
        ensures
            r.wf(),
            r@ == SectionModel::blank(),
    {
        let r = Section {
            block_states: PalettedContainer::Single(BlockState::air()),
            biomes: PalettedContainer::Single(BiomeId(0)),
            updates: Vec::new(),
        };
        proof {
            assert(r@ =~= SectionModel::blank());
        }
        r
    }
}

/// A chunk that is loaded in the world.
#[derive(Debug)]
pub struct LoadedChunk {
    /// How many clients see the chunk. Changes are recorded only for a chunk
    /// that someone sees.
    viewers: u32,
    /// Block and biome data from the bottom up.
    sections: Vec<Section>,
    /// Sky light, with one more section below and one above the chunk.
    sky_light_sections: Vec<LightSection>,
    /// Block light, with one more section below and one above the chunk.
    block_light_sections: Vec<LightSection>,
    /// The block entities by the index of their block.
    block_entities: BTreeMap<u32, Compound>,
    /// The block entities whose change clients have not been told of.
    changed_block_entities: BTreeSet<u32>,
    /// Whether there are biome changes that clients have not been told of.
    changed_biomes: bool,
    /// The encoded packets that show the chunk to a client. Empty if they have
    /// to be encoded anew, as after each change that can be seen.
    cached_init_packets: Vec<u8>,
}

impl View for LoadedChunk {
    type V = ChunkModel;

    closed spec fn view(&self) -> ChunkModel {
        ChunkModel {
            viewers: self.viewers,
            sections: self.sections@.map_values(|s: Section| s@),
            sky_light: self.sky_light_sections@,
            block_light: self.block_light_sections@,
            entities: self.block_entities@.map_values(|c: Compound| c@),
            changed_entities: self.changed_block_entities@,
            changed_biomes: self.changed_biomes,
            cache: self.cached_init_packets@,
        }
    }
}

impl LoadedChunk {
    /// The height fits, the sections are consistent, there is light for each of
    /// them and one more at either end, and block entities lie in the chunk.
    pub closed spec fn wf(&self) -> bool {
        &&& self.sections@.len() * 16 <= u32::MAX
        &&& forall|i: int| 0 <= i < self.sections@.len() ==> (#[trigger] self.sections@[i]).wf()
        &&& self.sky_light_sections@.len() == self.sections@.len() + 2
        &&& self.block_light_sections@.len() == self.sections@.len() + 2
        &&& forall|k: u32| #[trigger]
            self.block_entities@.contains_key(k) ==> k / 4096 < self.sections@.len()
    }

    /// A chunk of air that nobody sees, `height` blocks high, rounded down to
    /// whole sections. There is no light engine: all of it gets full sky light.
    pub fn new(height: u32) -> (r: Self)
        ensures
            r.wf(),
            r@ == ChunkModel::blank(height as nat),
    {
        let section_count: usize = height as usize / 16;
        let mut sections: Vec<Section> = Vec::new();
        while sections.len() < section_count
            invariant
                sections@.len() <= section_count,
                forall|i: int|
                    0 <= i < sections@.len() ==> {
                        &&& (#[trigger] sections@[i]).wf()
                        &&& sections@[i]@ == SectionModel::blank()
                    },
            decreases section_count - sections@.len(),
        {
            sections.push(Section::default());
        }
        let mut sky_light_sections: Vec<LightSection> = Vec::new();
        let mut block_light_sections: Vec<LightSection> = Vec::new();
        while sky_light_sections.len() < section_count + 2
            invariant
                section_count <= u32::MAX / 16,
                sky_light_sections@.len() <= section_count + 2,
                sky_light_sections@.len() == block_light_sections@.len(),
                forall|i: int|
                    0 <= i < sky_light_sections@.len() ==> #[trigger] sky_light_sections@[i]
                        == LightSection::Single(0xff),
                forall|i: int|
                    0 <= i < block_light_sections@.len() ==> #[trigger] block_light_sections@[i]
                        == LightSection::Single(0),
            decreases section_count + 2 - sky_light_sections@.len(),
        {
            sky_light_sections.push(LightSection::with_full_light());
            block_light_sections.push(LightSection::with_zeroed_light());
        }
        let r = LoadedChunk {
            viewers: 0,
            sections,
            sky_light_sections,
            block_light_sections,
            block_entities: BTreeMap::new(),
            changed_block_entities: BTreeSet::new(),
            changed_biomes: false,
            cached_init_packets: Vec::new(),
        };
        proof {
            let want = ChunkModel::blank(height as nat);
            assert(r@.sections =~= want.sections);
            assert(r@.sky_light =~= want.sky_light);
            assert(r@.block_light =~= want.block_light);
            assert(r@.entities =~= want.entities);
            assert(r@ =~= want);
        }
        r
    }

    /// Sets the content of this chunk to that of `chunk`, which is brought to
    /// the height of this one, and returns the content that was here.
    pub fn insert(&mut self, chunk: UnloadedChunk) -> (r: UnloadedChunk)
        requires
            old(self).wf(),
            chunk.wf(),
        ensures
            final(self).wf(),
            r.wf(),
            final(self)@ == old(self)@.replaced(chunk@.resized(old(self)@.sections.len())),
            final(self)@.no_changes(),
            r@ == old(self)@.parts(),
    {
        let mut chunk = chunk;
        chunk.set_height(self.height());
        let ghost given = chunk;
        proof {
            assert(given@.sections.len() == self@.sections.len());
        }
        let mut i: usize = 0;
        while i < self.sections.len()
            invariant
                old(self).wf(),
                given.wf(),
                i <= self.sections@.len(),
                self.sections@.len() == old(self).sections@.len(),
                chunk.sections@.len() == self.sections@.len(),
                given.sections@.len() == self.sections@.len(),
                *self == (LoadedChunk { sections: self.sections, ..*old(self) }),
                chunk.block_entities == given.block_entities,
                forall|j: int|
                    0 <= j < i ==> {
                        let s = #[trigger] self.sections@[j];
                        &&& s.block_states == given.sections@[j].block_states
                        &&& s.biomes == given.sections@[j].biomes
                        &&& s.updates@.len() == 0
                    },
                forall|j: int|
                    0 <= j < i ==> {
                        let s = #[trigger] chunk.sections@[j];
                        &&& s.block_states == old(self).sections@[j].block_states
                        &&& s.biomes == old(self).sections@[j].biomes
                    },
                forall|j: int|
                    i <= j < self.sections@.len() ==> #[trigger] self.sections@[j] == old(
                        self,
                    ).sections@[j],
                forall|j: int|
                    i <= j < self.sections@.len() ==> #[trigger] chunk.sections@[j]
                        == given.sections@[j],
            decreases self.sections@.len() - i,
        {
            self.sections[i].updates.clear();
            std::mem::swap(
                &mut self.sections[i].block_states,
                &mut chunk.sections[i].block_states,
            );
            std::mem::swap(&mut self.sections[i].biomes, &mut chunk.sections[i].biomes);
            i += 1;
        }
        std::mem::swap(&mut self.block_entities, &mut chunk.block_entities);
        self.changed_block_entities.clear();
        self.changed_biomes = false;
        self.cached_init_packets.clear();
        proof {
            let want = old(self)@.replaced(given@);
            assert forall|j: int| 0 <= j < self.sections@.len() implies #[trigger] self@.sections[j]
                == want.sections[j] by {
                assert(self.sections@[j]@ =~= given.sections@[j]@);
            }
            assert(self@.sections =~= want.sections);
            assert(self@ =~= want);
            let was = old(self)@.parts();
            assert forall|j: int| 0 <= j < was.sections.len() implies #[trigger] chunk@.sections[j]
                == was.sections[j] by {
                assert(chunk.sections@[j]@ =~= was.sections[j]);
            }
            assert(chunk@.sections =~= was.sections);
            assert(chunk@ =~= was);
            assert forall|k: u32| #[trigger] self.block_entities@.contains_key(k) implies k / 4096
                < self.sections@.len() by {
                assert(given@.entities.contains_key(k));
            }
        }
        chunk
    }

    /// Makes the chunk air and the default biome, and returns the content that
    /// was here.
    pub fn remove(&mut self) -> (r: UnloadedChunk)
        requires
            old(self).wf(),
        ensures
            final(self).wf(),
            r.wf(),
            final(self)@ == old(self)@.replaced(ChunkParts::blank(old(self)@.sections.len())),
            final(self)@.no_changes(),
            r@ == old(self)@.parts(),
    {
        let blank = UnloadedChunk { sections: Vec::new(), block_entities: BTreeMap::new() };
        proof {
            let n = self@.sections.len();
            assert(blank@.resized(n).entities =~= Map::<u32, Seq<u8>>::empty());
            assert(blank@.resized(n) =~= ChunkParts::blank(n));
        }
        self.insert(blank)
    }

    /// How many clients see the chunk.
    pub fn viewer_count(&self) -> (r: u32)
        ensures
            r == self@.viewers,
    {
        self.viewers
    }

    /// Like `viewer_count`, for a holder with sole access.
    pub fn viewer_count_mut(&mut self) -> (r: u32)
        ensures
            r == old(self)@.viewers,
            *final(self) == *old(self),
    {
        self.viewers
    }

    /// Counts one more client, starting over from 0 after the greatest count.
    pub fn inc_viewer_count(&mut self)
        ensures
            final(self)@ == (ChunkModel {
                viewers: if old(self)@.viewers == u32::MAX {
                    0
                } else {
                    (old(self)@.viewers + 1) as u32
                },
                ..old(self)@
            }),
            old(self).wf() ==> final(self).wf(),
    {
        self.viewers = self.viewers.wrapping_add(1);
    }

    /// Counts one client less.
    pub fn dec_viewer_count(&mut self)
        requires
            old(self)@.viewers > 0,
        ensures
            final(self)@ == (ChunkModel {
                viewers: (old(self)@.viewers - 1) as u32,
                ..old(self)@
            }),
            old(self).wf() ==> final(self).wf(),
    {
        self.viewers -= 1;
    }

    /// The height of the chunk in blocks.
    pub fn height(&self) -> (r: u32)
        requires
            self.wf(),
        ensures
            r == self@.height(),
    {
        self.sections.len() as u32 * 16
    }

    /// The block at `(x, y, z)`.
    pub fn block_state(&self, x: u32, y: u32, z: u32) -> (r: BlockState)
        requires
            self.wf(),
            self@.has_block(x as int, y as int, z as int),
        ensures
            r == self@.block_at(x as int, y as int, z as int),
    {
        let idx: u32 = x + z * 16 + y % 16 * 16 * 16;
        self.sections[y as usize / 16].block_states.get(idx as usize)
    }

    /// Sets the block at `(x, y, z)` and returns what it was.
    pub fn set_block_state(&mut self, x: u32, y: u32, z: u32, block: BlockState) -> (r: BlockState)
        requires
            old(self).wf(),
            old(self)@.has_block(x as int, y as int, z as int),
        ensures
            final(self).wf(),
            final(self)@ == old(self)@.with_block(x as int, y as int, z as int, block),
            r == old(self)@.block_at(x as int, y as int, z as int),
    {
        let sect_y: usize = y as usize / 16;
        let idx: u32 = x + z * 16 + y % 16 * 16 * 16;
        let old_block = self.sections[sect_y].block_states.set(idx as usize, block);
        if block != old_block {
            self.cached_init_packets.clear();
            if self.viewers > 0 {
                self.sections[sect_y].updates.push(
                    ChunkDeltaUpdateEntry {
                        off_x: x as u8,
                        off_y: (y % 16) as u8,
                        off_z: z as u8,
                        block_state: block.raw as u32,
                    },
                );
            }
        }
        proof {
            let m = old(self)@;
            let want = m.with_block(x as int, y as int, z as int, block);
            let s = y as int / 16;
            assert(self@.sections[s].blocks =~= want.sections[s].blocks);
            assert(self@.sections[s].updates =~= want.sections[s].updates);
            assert(self@.sections[s] =~= want.sections[s]);
            assert(self@.sections =~= want.sections);
            assert(self@ =~= want);
        }
        old_block
    }

    /// Sets all blocks of a section. The changes are recorded in the order of z,
    /// then x, then y; where the section held one value throughout, they stand
    /// for all that was recorded before.
    pub fn fill_block_state_section(&mut self, sect_y: u32, block: BlockState)
        requires
            old(self).wf(),
            sect_y < old(self)@.sections.len(),
        ensures
            final(self).wf(),
            final(self)@ == old(self)@.with_filled_section(sect_y as int, block),
    {
        let s: usize = sect_y as usize;
        let ghost m = self@;
        let ghost blocks = m.sections[s as int].blocks;
        if let PalettedContainer::Single(b) = self.sections[s].block_states {
            proof {
                lemma_fill_single(blocks, b, block, 4096);
            }
            if b != block {
                self.cached_init_packets.clear();
                if self.viewers > 0 {
                    self.sections[s].updates.clear();
                    let mut n: usize = 0;
                    while n < SECTION_BLOCK_COUNT
                        invariant
                            n <= 4096,
                            s == sect_y,
                            s < self.sections@.len(),
                            self.sections@.len() == old(self).sections@.len(),
                            self.sections@[s as int].block_states == old(
                                self,
                            ).sections@[s as int].block_states,
                            self.sections@[s as int].biomes == old(
                                self,
                            ).sections@[s as int].biomes,
                            self.sections@[s as int].updates@ == fill_entries(
                                blocks,
                                block,
                                n as nat,
                            ),
                            forall|i: int|
                                0 <= i < self.sections@[s as int].updates@.len() ==> (
                                #[trigger] self.sections@[s as int].updates@[i]).wf(),
                            forall|i: int|
                                0 <= i < self.sections@.len() && i != s
                                    ==> #[trigger] self.sections@[i] == old(self).sections@[i],
                            blocks.len() == 4096,
                            forall|i: int| 0 <= i < 4096 ==> blocks[i] == b,
                            b != block,
                            *self == (LoadedChunk {
                                sections: self.sections,
                                cached_init_packets: self.cached_init_packets,
                                ..*old(self)
                            }),
                            self.cached_init_packets@ == Seq::<u8>::empty(),
                        decreases 4096 - n,
                    {
                        let x: usize = n / 16 % 16;
                        let y: usize = n % 16;
                        let z: usize = n / 256;
                        self.sections[s].updates.push(
                            ChunkDeltaUpdateEntry {
                                off_x: x as u8,
                                off_y: y as u8,
                                off_z: z as u8,
                                block_state: block.raw as u32,
                            },
                        );
                        n += 1;
                    }
                }
            }
        } else {
            let mut n: usize = 0;
            while n < SECTION_BLOCK_COUNT
                invariant
                    n <= 4096,
                    s == sect_y,
                    s < self.sections@.len(),
                    self.sections@.len() == old(self).sections@.len(),
                    old(self).wf(),
                    self.sections@[s as int].block_states == old(
                        self,
                    ).sections@[s as int].block_states,
                    self.sections@[s as int].biomes == old(self).sections@[s as int].biomes,
                    blocks == old(self).sections@[s as int].block_states@,
                    self.sections@[s as int].updates@ == old(self).sections@[s as int].updates@ + (
                    if self.viewers > 0 {
                        fill_entries(blocks, block, n as nat)
                    } else {
                        Seq::empty()
                    }),
                    forall|i: int|
                        0 <= i < self.sections@[s as int].updates@.len() ==> (
                        #[trigger] self.sections@[s as int].updates@[i]).wf(),
                    forall|i: int|
                        0 <= i < self.sections@.len() && i != s ==> #[trigger] self.sections@[i]
                            == old(self).sections@[i],
                    *self == (LoadedChunk {
                        sections: self.sections,
                        cached_init_packets: self.cached_init_packets,
                        ..*old(self)
                    }),
                    self.cached_init_packets@ == (if fill_entries(blocks, block, n as nat).len()
                        > 0 {
                        Seq::empty()
                    } else {
                        old(self).cached_init_packets@
                    }),
                decreases 4096 - n,
            {
                let x: usize = n / 16 % 16;
                let y: usize = n % 16;
                let z: usize = n / 256;
                if block != self.sections[s].block_states.get(x + z * 16 + y * 256) {
                    self.cached_init_packets.clear();
                    if self.viewers > 0 {
                        self.sections[s].updates.push(
                            ChunkDeltaUpdateEntry {
                                off_x: x as u8,
                                off_y: y as u8,
                                off_z: z as u8,
                                block_state: block.raw as u32,
                            },
                        );
                    }
                }
                n += 1;
            }
        }
        self.sections[s].block_states.fill(block);
        proof {
            let want = m.with_filled_section(sect_y as int, block);
            assert(self@.sections[s as int].blocks =~= want.sections[s as int].blocks);
            assert(self@.sections[s as int].updates =~= want.sections[s as int].updates);
            assert(self@.sections[s as int] =~= want.sections[s as int]);
            assert(self@.sections =~= want.sections);
            assert(self@ =~= want);
        }
    }

    /// The block entity at `(x, y, z)`.
    pub fn block_entity(&self, x: u32, y: u32, z: u32) -> (r: Option<&Compound>)
        requires
            self.wf(),
            self@.has_block(x as int, y as int, z as int),
            entity_index(x as int, y as int, z as int) <= u32::MAX,
        ensures
            match r {
                Some(c) => self@.entity_at(x as int, y as int, z as int) == Some(c@),
                None => self@.entity_at(x as int, y as int, z as int) is None,
            },
    {
        broadcast use vstd::std_specs::btree::group_btree_axioms;

        proof {
            lemma_ordered_keys();
        }
        let idx: u32 = x + z * 16 + y * 16 * 16;
        self.block_entities.get(&idx)
    }

    /// The block entity at `(x, y, z)` for changing it. This counts as a change
    /// of it, whatever is then done.
    pub fn block_entity_mut(&mut self, x: u32, y: u32, z: u32) -> (r: Option<&mut Compound>)
        requires
            old(self).wf(),
            old(self)@.has_block(x as int, y as int, z as int),
            entity_index(x as int, y as int, z as int) <= u32::MAX,
        ensures
            final(self).wf(),
            match r {
                Some(c) => {
                    &&& old(self)@.entity_at(x as int, y as int, z as int) == Some(c@)
                    &&& final(self)@ == old(self)@.with_entity(
                        entity_index(x as int, y as int, z as int) as u32,
                        final(c)@,
                    )
                },
                None => {
                    &&& old(self)@.entity_at(x as int, y as int, z as int) is None
                    &&& final(self)@ == old(self)@
                },
            },
    {
        broadcast use vstd::std_specs::btree::group_btree_axioms;

        proof {
            lemma_ordered_keys();
        }
        let idx: u32 = x + z * 16 + y * 16 * 16;
        if !self.block_entities.contains_key(&idx) {
            return None;
        }
        if self.viewers > 0 {
            self.changed_block_entities.insert(idx);
        }
        self.cached_init_packets.clear();
        entity_mut(&mut self.block_entities, idx)
    }

    /// Sets or, with `None`, takes away the block entity at `(x, y, z)`, and
    /// returns the one that was there.
    pub fn set_block_entity(
        &mut self,
        x: u32,
        y: u32,
        z: u32,
        block_entity: Option<Compound>,
    ) -> (r: Option<Compound>)
        requires
            old(self).wf(),
            old(self)@.has_block(x as int, y as int, z as int),
            entity_index(x as int, y as int, z as int) <= u32::MAX,
        ensures
            final(self).wf(),
            match block_entity {
                Some(c) => final(self)@ == old(self)@.with_entity(
                    entity_index(x as int, y as int, z as int) as u32,
                    c@,
                ),
                None => final(self)@ == old(self)@.without_entity(
                    entity_index(x as int, y as int, z as int) as u32,
                ),
            },
            match r {
                Some(c) => old(self)@.entity_at(x as int, y as int, z as int) == Some(c@),
                None => old(self)@.entity_at(x as int, y as int, z as int) is None,
            },
    {
        broadcast use vstd::std_specs::btree::group_btree_axioms;

        proof {
            lemma_ordered_keys();
        }
        let idx: u32 = x + z * 16 + y * 16 * 16;
        match block_entity {
            Some(nbt) => {
                if self.viewers > 0 {
                    self.changed_block_entities.insert(idx);
                }
                self.cached_init_packets.clear();
                let res = self.block_entities.insert(idx, nbt);
                proof {
                    assert(self@.entities =~= old(self)@.entities.insert(idx, nbt@));
                    assert(self@ =~= old(self)@.with_entity(idx, nbt@));
                }
                res
            },
            None => {
                let res = self.block_entities.remove(&idx);
                if res.is_some() {
                    self.cached_init_packets.clear();
                }
                proof {
                    assert(self@.entities =~= old(self)@.entities.remove(idx));
                    assert(self@ =~= old(self)@.without_entity(idx));
                }
                res
            },
        }
    }

    /// Takes away all block entities.
    pub fn clear_block_entities(&mut self)
        requires
            old(self).wf(),
        ensures
            final(self).wf(),
            final(self)@ == old(self)@.without_entities(),
    {
        broadcast use vstd::std_specs::btree::group_btree_axioms;

        proof {
            lemma_ordered_keys();
        }
        let keys = map_keys(&self.block_entities);
        proof {
            lemma_ascending(self.block_entities@.dom());
        }
        if keys.len() == 0 {
            proof {
                assert(self@.entities =~= Map::<u32, Seq<u8>>::empty()) by {
                    assert forall|k: u32| !self.block_entities@.contains_key(k) by {
                        assert(!keys@.contains(k));
                    }
                }
            }
            return;
        }
        self.cached_init_packets.clear();
        if self.viewers > 0 {
            let ghost changed = self.changed_block_entities@;
            let mut i: usize = 0;
            while i < keys.len()
                invariant
                    i <= keys@.len(),
                    self.changed_block_entities@ == changed.union(
                        keys@.take(i as int).to_set(),
                    ),
                    *self == (LoadedChunk {
                        changed_block_entities: self.changed_block_entities,
                        cached_init_packets: self.cached_init_packets,
                        ..*old(self)
                    }),
                    self.cached_init_packets@ == Seq::<u8>::empty(),
                decreases keys@.len() - i,
            {
                self.changed_block_entities.insert(keys[i]);
                proof {
                    assert(keys@.take(i + 1) =~= keys@.take(i as int).push(keys@[i as int]));
                    lemma_push_set(keys@.take(i as int), keys@[i as int]);
                    assert(self.changed_block_entities@ =~= changed.union(
                        keys@.take(i + 1).to_set(),
                    ));
                }
                i += 1;
            }
            proof {
                assert(keys@.take(i as int) =~= keys@);
                assert(keys@.to_set() =~= self.block_entities@.dom());
            }
        }
        self.block_entities.clear();
        proof {
            assert(old(self).block_entities@.contains_key(keys@[0])) by {
                assert(keys@.contains(keys@[0]));
            }
            assert(old(self)@.entities.contains_key(keys@[0]));
            assert(old(self)@.entities.dom() =~= old(self).block_entities@.dom());
            assert(self@ =~= old(self)@.without_entities());
        }
    }

    /// The biome of cell `(x, y, z)`.
    pub fn biome(&self, x: u32, y: u32, z: u32) -> (r: BiomeId)
        requires
            self.wf(),
            self@.has_biome(x as int, y as int, z as int),
        ensures
            r == self@.biome_at(x as int, y as int, z as int),
    {
        let idx: u32 = x + z * 4 + y % 4 * 4 * 4;
        self.sections[y as usize / 4].biomes.get(idx as usize)
    }

    /// Sets the biome of cell `(x, y, z)` and returns what it was.
    pub fn set_biome(&mut self, x: u32, y: u32, z: u32, biome: BiomeId) -> (r: BiomeId)
        requires
            old(self).wf(),
            old(self)@.has_biome(x as int, y as int, z as int),
        ensures
            final(self).wf(),
            final(self)@ == old(self)@.with_biome(x as int, y as int, z as int, biome),
            r == old(self)@.biome_at(x as int, y as int, z as int),
    {
        let sect_y: usize = y as usize / 4;
        let idx: u32 = x + z * 4 + y % 4 * 4 * 4;
        let old_biome = self.sections[sect_y].biomes.set(idx as usize, biome);
        if biome != old_biome {
            self.cached_init_packets.clear();
            if self.viewers > 0 {
                self.changed_biomes = true;
            }
        }
        proof {
            let want = old(self)@.with_biome(x as int, y as int, z as int, biome);
            let s = y as int / 4;
            assert(self@.sections[s].biomes =~= want.sections[s].biomes);
            assert(self@.sections[s] =~= want.sections[s]);
            assert(self@.sections =~= want.sections);
            assert(self@ =~= want);
        }
        old_biome
    }

    /// Sets all biome cells of a section.
    pub fn fill_biome_section(&mut self, sect_y: u32, biome: BiomeId)
        requires
            old(self).wf(),
            sect_y < old(self)@.sections.len(),
        ensures
            final(self).wf(),
            final(self)@ == old(self)@.with_filled_biomes(sect_y as int, biome),
    {
        let s: usize = sect_y as usize;
        if let PalettedContainer::Single(b) = self.sections[s].biomes {
            if b != biome {
                self.cached_init_packets.clear();
                self.changed_biomes = self.viewers > 0;
            }
        } else {
            self.cached_init_packets.clear();
            self.changed_biomes = self.viewers > 0;
        }
        self.sections[s].biomes.fill(biome);
        proof {
            let want = old(self)@.with_filled_biomes(sect_y as int, biome);
            assert(self@.sections[s as int].biomes =~= want.sections[s as int].biomes);
            assert(self@.sections[s as int] =~= want.sections[s as int]);
            assert(self@.sections =~= want.sections);
            assert(self@ =~= want);
        }
    }

    /// Stores each section in its smallest form.
    pub fn shrink_to_fit(&mut self)
        requires
            old(self).wf(),
        ensures
            final(self).wf(),
            final(self)@ == old(self)@.shrunk(),
    {
        let mut i: usize = 0;
        while i < self.sections.len()
            invariant
                old(self).wf(),
                i <= self.sections@.len(),
                self.sections@.len() == old(self).sections@.len(),
                *self == (LoadedChunk { sections: self.sections, ..*old(self) }),
                forall|j: int|
                    0 <= j < i ==> {
                        let s = #[trigger] self.sections@[j];
                        &&& s.wf()
                        &&& s.block_states.form() == Form::smallest(s.block_states@)
                        &&& s.biomes.form() == Form::smallest(s.biomes@)
                        &&& s.block_states@ == old(self).sections@[j].block_states@
                        &&& s.biomes@ == old(self).sections@[j].biomes@
                        &&& s.updates == old(self).sections@[j].updates
                    },
                forall|j: int|
                    i <= j < self.sections@.len() ==> #[trigger] self.sections@[j] == old(
                        self,
                    ).sections@[j],
            decreases self.sections@.len() - i,
        {
            self.sections[i].block_states.shrink_to_fit();
            self.sections[i].biomes.shrink_to_fit();
            i += 1;
        }
        proof {
            let want = old(self)@.shrunk();
            assert forall|j: int| 0 <= j < self.sections@.len() implies #[trigger] self@.sections[j]
                == want.sections[j] by {
                assert(self.sections@[j].wf());
                assert(self@.sections[j] =~= want.sections[j]);
            }
            assert(self@.sections =~= want.sections);
            assert(self@ =~= want);
        }
    }

    /// The height of each column, by z and then x: one more than that of its
    /// highest block that occupies it, or 0.
    pub fn build_heightmap(&self, kind: HeightMapKind) -> (r: [u32; 256])
        requires
            self.wf(),
        ensures
            r@ == self@.heightmap(kind),
            forall|i: int| 0 <= i < 256 ==> #[trigger] r@[i] <= self@.height(),
    {
        let mut heightmap: [u32; 256] = [0;256];
        let height: u32 = self.height();
        let mut i: usize = 0;
        while i < 256
            invariant
                self.wf(),
                height == self@.height(),
                i <= 256,
                forall|j: int|
                    0 <= j < i ==> #[trigger] heightmap@[j] == self@.top_below(
                        kind,
                        j % 16,
                        j / 16,
                        height as nat,
                    ),
                forall|j: int| 0 <= j < i ==> #[trigger] heightmap@[j] <= height,
            decreases 256 - i,
        {
            let x: u32 = i as u32 % 16;
            let z: u32 = i as u32 / 16;
            let mut y: u32 = height;
            while y > 0 && !is_occupied(kind, self.block_state(x, y - 1, z))
                invariant
                    self.wf(),
                    height == self@.height(),
                    y <= height,
                    x < 16,
                    z < 16,
                    self@.top_below(kind, x as int, z as int, y as nat) == self@.top_below(
                        kind,
                        x as int,
                        z as int,
                        height as nat,
                    ),
                decreases y,
            {
                y -= 1;
            }
            heightmap[i] = y;
            i += 1;
        }
        proof {
            assert(heightmap@ =~= self@.heightmap(kind));
        }
        heightmap
    }

    /// The heights that rain and snow stop at.
    pub fn motion_blocking(&self) -> (r: [u32; 256])
        requires
            self.wf(),
        ensures
            r@ == self@.heightmap(HeightMapKind::MotionBlocking),
    {
        self.build_heightmap(HeightMapKind::MotionBlocking)
    }

    /// The heights that rain and snow would stop at if there were no leaves.
    pub fn motion_blocking_no_leaves(&self) -> (r: [u32; 256])
        requires
            self.wf(),
        ensures
            r@ == self@.heightmap(HeightMapKind::MotionBlockingNoLeaves),
    {
        self.build_heightmap(HeightMapKind::MotionBlockingNoLeaves)
    }

    /// The heights of the topmost blocks that are not air.
    pub fn world_surface(&self) -> (r: [u32; 256])
        requires
            self.wf(),
        ensures
            r@ == self@.heightmap(HeightMapKind::WorldSurface),
    {
        self.build_heightmap(HeightMapKind::WorldSurface)
    }

    /// A section, the lowest being 0.
    pub fn section(&self, sect_y: u32) -> (r: &Section)
        requires
            self.wf(),
            sect_y < self@.sections.len(),
        ensures
            r.wf(),
            r@ == self@.sections[sect_y as int],
    {
        &self.sections[sect_y as usize]
    }

    /// Whether no change is recorded.
    pub fn has_no_changes(&self) -> (r: bool)
        ensures
            r == self@.no_changes(),
    {
        if self.changed_biomes || !self.changed_block_entities.is_empty() {
            return false;
        }
        let mut i: usize = 0;
        while i < self.sections.len()
            invariant
                i <= self.sections@.len(),
                forall|j: int| 0 <= j < i ==> (#[trigger] self@.sections[j]).updates.len() == 0,
            decreases self.sections@.len() - i,
        {
            if self.sections[i].updates.len() > 0 {
                proof {
                    assert(self@.sections[i as int].updates.len() > 0);
                }
                return false;
            }
            i += 1;
        }
        true
    }
}

/// Looks up the value of `k` with `BTreeMap::get_mut`. A reference comes back just
/// where the map has the key; it starts as the value held, and what is left in it
/// is then the value of that key, the others being as before.
#[verifier::external_body]
fn entity_mut(m: &mut BTreeMap<u32, Compound>, k: u32) -> (r: Option<&mut Compound>)
    ensures
        match r {
            Some(c) => {
                &&& old(m)@.contains_key(k)
                &&& *c == old(m)@[k]
                &&& final(m)@ == old(m)@.insert(k, *final(c))
            },
            None => !old(m)@.contains_key(k) && final(m)@ == old(m)@,
        },
{
    m.get_mut(&k)
}

/// Filling a section that holds one value throughout changes every block of it,
/// or none.
proof fn lemma_fill_single(blocks: Seq<BlockState>, b: BlockState, block: BlockState, n: nat)
    requires
        n <= 4096,
        blocks.len() == 4096,
        forall|i: int| 0 <= i < 4096 ==> blocks[i] == b,
    ensures
        fill_entries(blocks, block, n).len() == (if b == block {
            0
        } else {
            n
        }),
    decreases n,
{
    if n > 0 {
        lemma_fill_single(blocks, b, block, (n - 1) as nat);
    }
}

/// The sections of every well-formed chunk are full.
pub proof fn chunks_have_full_sections(chunk: &LoadedChunk)
    requires
        chunk.wf(),
    ensures
        full_sections(chunk@),
{
    assert forall|i: int| 0 <= i < chunk@.sections.len() implies (
    #[trigger] chunk@.sections[i]).full() by {
        let s = chunk.sections@[i];
        assert(s.wf());
        assert(s.block_states@ =~= s.block_states.form().values(4096));
        assert(s.biomes@ =~= s.biomes.form().values(64));
    }
}

/// The block entities of every well-formed chunk lie in it.
pub proof fn chunks_hold_their_entities(chunk: &LoadedChunk)
    requires
        chunk.wf(),
    ensures
        entities_in_chunk(chunk@),
        chunk@.height() <= u32::MAX,
{
    assert forall|k: u32| #[trigger] chunk@.entities.contains_key(k) implies k / 4096
        < chunk@.sections.len() by {
        assert(chunk.block_entities@.contains_key(k));
    }
}

/// The recorded changes of every well-formed chunk lie in their sections.
pub proof fn chunks_record_in_their_sections(chunk: &LoadedChunk)
    requires
        chunk.wf(),
    ensures
        entries_fit(chunk@),
{
    assert forall|i: int, j: int|
        0 <= i < chunk@.sections.len() && 0 <= j < chunk@.sections[i].updates.len() implies (
    #[trigger] chunk@.sections[i].updates[j]).wf() by {
        assert(chunk.sections@[i].wf());
        assert(chunk@.sections[i] == chunk.sections@[i]@);
        assert(chunk.sections@[i].updates@[j].wf());
    }
}

/// A chunk is well formed just where its height fits, its sections are full and what
/// is recorded lies in them, there is light for each of them and one more at either
/// end, and its block entities lie in it.
pub proof fn chunks_are_well_formed_by_what_they_hold(chunk: &LoadedChunk)
    ensures
        chunk.wf() <==> {
            &&& 16 * chunk@.sections.len() <= u32::MAX
            &&& full_sections(chunk@)
            &&& entries_fit(chunk@)
            &&& chunk@.sky_light.len() == chunk@.sections.len() + 2
            &&& chunk@.block_light.len() == chunk@.sections.len() + 2
            &&& entities_in_chunk(chunk@)
        },
{
    let m = chunk@;
    if chunk.wf() {
        chunks_have_full_sections(chunk);
        chunks_hold_their_entities(chunk);
        chunks_record_in_their_sections(chunk);
    } else if full_sections(m) && entries_fit(m) && entities_in_chunk(m) {
        assert forall|i: int| 0 <= i < chunk.sections@.len() implies (
        #[trigger] chunk.sections@[i]).wf() by {
            let s = chunk.sections@[i];
            assert(m.sections[i] == s@);
            assert(m.sections[i].full());
            assert forall|j: int| 0 <= j < s.updates@.len() implies (
            #[trigger] s.updates@[j]).wf() by {
                assert(m.sections[i].updates[j].wf());
            }
        }
        assert forall|k: u32| #[trigger] chunk.block_entities@.contains_key(k) implies k / 4096
            < chunk.sections@.len() by {
            assert(m.entities.contains_key(k));
        }
    }
}

} // verus!
