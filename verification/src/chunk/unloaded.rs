//! Chunks that are not loaded in the world.

use std::collections::BTreeMap;
use vstd::prelude::*;

use super::block::{BiomeContainer, BiomeId, BlockState, BlockStateContainer, Compound};
use super::keys::{lemma_ascending, lemma_ordered_keys, map_keys};
use super::model::{ChunkParts, SectionModel};
use super::palette::{lemma_push_set, PalettedContainer};

verus! {

/// A 16 by 16 by 16 part of a chunk that is not loaded.
#[derive(Debug)]
pub struct Section {
    pub block_states: BlockStateContainer,
    pub biomes: BiomeContainer,
}

impl View for Section {
    type V = SectionModel;

    open spec fn view(&self) -> SectionModel {
        SectionModel {
            blocks: self.block_states@,
            block_form: self.block_states.form(),
            biomes: self.biomes@,
            biome_form: self.biomes.form(),
            updates: Seq::empty(),
        }
    }
}

impl Section {
    /// The containers are consistent.
    pub open spec fn wf(&self) -> bool {
        self.block_states.wf() && self.biomes.wf()
    }
}

impl Default for Section {
    fn default() -> (r: Self)
        ensures
            r.wf(),
            r@ == SectionModel::blank(),
    {
        let r = Section {
            block_states: PalettedContainer::Single(BlockState::air()),
            biomes: PalettedContainer::Single(BiomeId(0)),
        };
        proof {
            assert(r@ =~= SectionModel::blank());
        }
        r
    }
}

/// A chunk that is not loaded in the world.
#[derive(Debug)]
pub struct UnloadedChunk {
    /// Block and biome data from the bottom up.
    pub sections: Vec<Section>,
    /// The block entities by the index of their block.
    pub block_entities: BTreeMap<u32, Compound>,
}

impl View for UnloadedChunk {
    type V = ChunkParts;

    open spec fn view(&self) -> ChunkParts {
        ChunkParts {
            sections: self.sections@.map_values(|s: Section| s@),
            entities: self.block_entities@.map_values(|c: Compound| c@),
        }
    }
}

impl UnloadedChunk {
    /// The sections are consistent.
    pub open spec fn wf(&self) -> bool {
        forall|i: int| 0 <= i < self.sections@.len() ==> (#[trigger] self.sections@[i]).wf()
    }

    /// Sets the height in blocks, rounded down to whole sections. The chunk is
    /// cut off, or grown by air and the default biome, at the top.
    pub fn set_height(&mut self, height: u32)
        requires
            old(self).wf(),
        ensures
            final(self).wf(),
            final(self)@ == old(self)@.resized((height / 16) as nat),
    {
        broadcast use vstd::std_specs::btree::group_btree_axioms;

        proof {
            lemma_ordered_keys();
        }
        let n: usize = height as usize / 16;
        self.sections.truncate(n);
        while self.sections.len() < n
            invariant
                self.wf(),
                self.sections@.len() <= n,
                self.block_entities == old(self).block_entities,
                old(self).sections@.len() <= self.sections@.len() || self.sections@.len() == n,
                forall|i: int|
                    0 <= i < self.sections@.len() ==> #[trigger] self.sections@[i]@ == (if i < old(
                        self,
                    ).sections@.len() {
                        old(self).sections@[i]@
                    } else {
                        SectionModel::blank()
                    }),
            decreases n - self.sections@.len(),
        {
            self.sections.push(Section::default());
        }
        let keys = map_keys(&self.block_entities);
        let ghost sections = self.sections;
        let ghost all = self.block_entities@;
        proof {
            lemma_ascending(all.dom());
        }
        let mut i: usize = 0;
        while i < keys.len()
            invariant
                i <= keys@.len(),
                n == height / 16,
                self.sections == sections,
                forall|k: u32| #[trigger]
                    self.block_entities@.contains_key(k) <==> all.contains_key(k) && (k / 4096 < n
                        || !keys@.take(i as int).to_set().contains(k)),
                forall|k: u32| #[trigger]
                    self.block_entities@.contains_key(k) ==> self.block_entities@[k] == all[k],
            decreases keys@.len() - i,
        {
            proof {
                lemma_ordered_keys();
            }
            let k: u32 = keys[i];
            if k as usize / 4096 >= n {
                self.block_entities.remove(&k);
            }
            proof {
                assert(keys@.take(i + 1) =~= keys@.take(i as int).push(k));
                lemma_push_set(keys@.take(i as int), k);
            }
            i += 1;
        }
        proof {
            assert(keys@.take(i as int) =~= keys@);
            let want = old(self)@.resized(n as nat);
            assert forall|k: u32| #[trigger] all.contains_key(k) implies keys@.contains(k) by {}
            assert(self@.entities =~= want.entities);
            assert(self@.sections =~= want.sections);
            assert(self@ =~= want);
        }
    }
}

} // verus!
