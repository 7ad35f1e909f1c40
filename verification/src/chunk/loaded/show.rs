//! Showing a loaded chunk to a client.

use vstd::prelude::*;

use crate::chunk::block::{ChunkPos, SECTION_BLOCK_COUNT};
use crate::chunk::heightmap::{encode_heightmap, HeightMapKind};
use crate::chunk::init::{
    can_be_shown, entities_fit, entity_data, entity_y, signed_byte, ChunkDataBlockEntity,
    HeightMap, InitPackets, LevelChunkWithLight, SectionData,
};
use crate::chunk::keys::{ascending, lemma_ascending, lemma_ordered_keys, map_keys};
use crate::chunk::light::LightData;
use crate::chunk::loaded::LoadedChunk;
use crate::chunk::message::{entity_kind, ChunkLayerInfo};
use crate::chunk::model::ChunkModel;

verus! {

/// The offsets of a block in a byte.
fn pack_xz(x: u32, z: u32) -> (r: i8)
    requires
        x < 16,
        z < 16,
    ensures
        r == signed_byte(x * 16 + z),
{
    let v: u32 = (x << 4) | z;
    proof {
        assert(((x << 4) | z) == x * 16 + z) by (bit_vector)
            requires
                x < 16,
                z < 16,
        ;
        assert(v < 128 ==> (v as i8) == v) by (bit_vector);
        assert(128 <= v < 256 ==> (v as i8) == v - 256) by (bit_vector);
    }
    #[verifier::truncate]
    (v as i8)
}

impl LoadedChunk {
    /// The packed heights of one kind.
    fn packed_heightmap(&self, kind: HeightMapKind) -> (r: HeightMap)
        requires
            self.wf(),
        ensures
            r.describes(self@, kind),
    {
        HeightMap { kind, data: encode_heightmap(self.build_heightmap(kind), self.height()) }
    }

    /// What is sent for the sections.
    fn section_data(&self) -> (r: Vec<SectionData>)
        requires
            self.wf(),
        ensures
            r@.len() == self@.sections.len(),
            forall|i: int|
                0 <= i < r@.len() ==> (#[trigger] r@[i]).describes(self@.sections[i]),
    {
        let mut data: Vec<SectionData> = Vec::new();
        let mut i: usize = 0;
        while i < self.sections.len()
            invariant
                self.wf(),
                i <= self.sections@.len(),
                data@.len() == i,
                forall|j: int|
                    0 <= j < i ==> (#[trigger] data@[j]).describes(self@.sections[j]),
            decreases self.sections@.len() - i,
        {
            let sect = &self.sections[i];
            data.push(
                SectionData {
                    non_air_blocks: sect.count_non_air_blocks(),
                    block_states: sect.block_states.duplicate(),
                    biomes: sect.biomes.duplicate(),
                },
            );
            i += 1;
        }
        data
    }

    /// What is sent for the block entities.
    fn entity_data(&self, min_y: i32) -> (r: Vec<ChunkDataBlockEntity>)
        requires
            self.wf(),
            entities_fit(self@, min_y),
        ensures
            r@.map_values(|e: ChunkDataBlockEntity| e@) == entity_data(
                self@,
                min_y,
                ascending(self@.entities.dom()),
                ascending(self@.entities.dom()).len(),
            ),
    {
        broadcast use vstd::std_specs::btree::group_btree_axioms;

        let keys = map_keys(&self.block_entities);
        proof {
            assert(self@.entities.dom() =~= self.block_entities@.dom());
            lemma_ascending(self@.entities.dom());
        }
        let mut data: Vec<ChunkDataBlockEntity> = Vec::new();
        proof {
            assert(data@.map_values(|e: ChunkDataBlockEntity| e@) =~= entity_data(
                self@,
                min_y,
                keys@,
                0,
            ));
        }
        let mut i: usize = 0;
        while i < keys.len()
            invariant
                self.wf(),
                entities_fit(self@, min_y),
                forall|k: u32| #[trigger]
                    keys@.contains(k) <==> self@.entities.dom().contains(k),
                i <= keys@.len(),
                data@.map_values(|e: ChunkDataBlockEntity| e@) == entity_data(
                    self@,
                    min_y,
                    keys@,
                    i as nat,
                ),
            decreases keys@.len() - i,
        {
            let ghost before = data@;
            let idx: u32 = keys[i];
            let x: u32 = idx % 16;
            let z: u32 = idx / 16 % 16;
            let y: u32 = idx / 16 / 16;
            proof {
                lemma_ordered_keys();
                assert(keys@.contains(idx));
                assert(self@.entities.contains_key(idx));
                assert(self.block_entities@.contains_key(idx));
                assert(y / 16 == idx / 4096);
                assert(y == idx / 256);
                assert(self@.sections[idx as int / 4096] == self.sections@[idx as int / 4096]@);
            }
            let state = self.sections[y as usize / 16].block_states.get(
                idx as usize % SECTION_BLOCK_COUNT,
            );
            if let Some(kind) = state.block_entity_kind {
                if let Some(nbt) = self.block_entities.get(&idx) {
                    let entity = ChunkDataBlockEntity {
                        packed_xz: pack_xz(x, z),
                        y: #[verifier::truncate]
                        (y as i16) + #[verifier::truncate]
                        (min_y as i16),
                        kind,
                        data: nbt.duplicate(),
                    };
                    data.push(entity);
                }
            }
            proof {
                if data@ != before {
                    assert(data@.map_values(|e: ChunkDataBlockEntity| e@) =~= before.map_values(
                        |e: ChunkDataBlockEntity| e@,
                    ).push(data@.last()@));
                }
                assert(data@.map_values(|e: ChunkDataBlockEntity| e@) =~= entity_data(
                    self@,
                    min_y,
                    keys@,
                    (i + 1) as nat,
                ));
            }
            i += 1;
        }
        data
    }

    /// Whether a packet can be built that shows the chunk.
    pub fn can_be_shown(&self, info: &ChunkLayerInfo) -> (r: bool)
        requires
            self.wf(),
        ensures
            r == can_be_shown(self@, *info),
    {
        broadcast use vstd::std_specs::btree::group_btree_axioms;

        if info.biome_registry_len == 0 && self.sections.len() > 0 {
            return false;
        }
        let keys = map_keys(&self.block_entities);
        proof {
            assert(self@.entities.dom() =~= self.block_entities@.dom());
            lemma_ascending(self@.entities.dom());
        }
        let mut i: usize = 0;
        while i < keys.len()
            invariant
                self.wf(),
                forall|k: u32| #[trigger]
                    keys@.contains(k) <==> self@.entities.dom().contains(k),
                i <= keys@.len(),
                forall|j: int|
                    0 <= j < i && entity_kind(self@, #[trigger] keys@[j]) is Some ==> i16::MIN
                        <= entity_y(keys@[j], info.min_y) <= i16::MAX,
            decreases keys@.len() - i,
        {
            let idx: u32 = keys[i];
            proof {
                assert(keys@.contains(idx));
                assert(self@.entities.contains_key(idx));
                assert(self.block_entities@.contains_key(idx));
                assert(self@.sections[idx as int / 4096] == self.sections@[idx as int / 4096]@);
            }
            let state = self.sections[idx as usize / SECTION_BLOCK_COUNT].block_states.get(
                idx as usize % SECTION_BLOCK_COUNT,
            );
            let y: i32 = #[verifier::truncate]
            ((idx / 256) as i16) as i32 + #[verifier::truncate]
            (info.min_y as i16) as i32;
            if state.block_entity_kind.is_some() && !(i16::MIN as i32 <= y && y <= i16::MAX as i32) {
                return false;
            }
            i += 1;
        }
        proof {
            assert forall|k: u32| #[trigger]
                self@.entities.contains_key(k) && entity_kind(self@, k) is Some implies i16::MIN
                <= entity_y(k, info.min_y) <= i16::MAX by {
                assert(keys@.contains(k));
                let j = choose|j: int| 0 <= j < keys@.len() && keys@[j] == k;
                assert(entity_kind(self@, keys@[j]) is Some);
            }
        }
        true
    }

    /// The encoded packets that show the chunk, empty where they have to be
    /// encoded anew.
    pub fn cached_init_packets(&self) -> (r: &Vec<u8>)
        ensures
            r@ == self@.cache,
    {
        &self.cached_init_packets
    }

    /// How the chunk is shown to a client: by the cached packets, or by one to
    /// be encoded and handed to `store_init_packets`.
    pub fn write_init_packets(&self, pos: ChunkPos, info: &ChunkLayerInfo) -> (r: InitPackets)
        requires
            self.wf(),
            self@.cache.len() == 0 ==> can_be_shown(self@, *info),
        ensures
            match r {
                InitPackets::Cached(bytes) => {
                    &&& bytes@ == self@.cache
                    &&& self@.cache.len() > 0
                },
                InitPackets::Build(packet) => {
                    &&& packet.describes(self@, pos, *info)
                    &&& self@.cache.len() == 0
                },
            },
    {
        if self.cached_init_packets.len() > 0 {
            return InitPackets::Cached(self.cached_init_packets.clone());
        }
        let mut heightmaps: Vec<HeightMap> = Vec::new();
        heightmaps.push(self.packed_heightmap(HeightMapKind::WorldSurface));
        heightmaps.push(self.packed_heightmap(HeightMapKind::MotionBlocking));
        heightmaps.push(self.packed_heightmap(HeightMapKind::MotionBlockingNoLeaves));
        let sky = LightData::collect(&self.sky_light_sections, false);
        let block = LightData::collect(&self.block_light_sections, true);
        let ghost gsky = sky;
        let ghost gblock = block;
        let packet = LevelChunkWithLight {
            threshold: info.threshold,
            pos,
            heightmaps,
            sections: self.section_data(),
            block_format: info.block_format(),
            biome_format: info.biome_format(),
            block_entities: self.entity_data(info.min_y),
            sky_light_mask: sky.mask,
            block_light_mask: block.mask,
            empty_sky_light_mask: Vec::new(),
            empty_block_light_mask: block.empty_mask,
            sky_light_arrays: sky.arrays,
            block_light_arrays: block.arrays,
        };
        proof {
            assert(gsky.describes(self@.sky_light, false));
            assert(gblock.describes(self@.block_light, true));
        }
        InitPackets::Build(packet)
    }

    /// Keeps the encoded packets that show the chunk.
    pub fn store_init_packets(&mut self, bytes: Vec<u8>)
        ensures
            final(self)@ == (ChunkModel { cache: bytes@, ..old(self)@ }),
            old(self).wf() ==> final(self).wf(),
    {
        self.cached_init_packets = bytes;
    }
}

} // verus!
