use std::collections::BTreeMap;

use valence::chunk::block::{
    BiomeId, BlockKind, BlockPos, BlockState, ChunkPos, ChunkSectionPos, Compound,
};
use valence::chunk::heightmap::{
    bit_width, encode_heightmap, is_leaf_block, is_motion_blocking_no_leaves_occupied,
    is_motion_blocking_occupied, HeightMapKind,
};
use valence::chunk::init::{InitPackets, LevelChunkWithLight};
use valence::chunk::light::{LightData, LightSection};
use valence::chunk::loaded::LoadedChunk;
use valence::chunk::message::{ChunkLayerInfo, ChunkPacket, LocalMsg, PaletteFormat};
use valence::chunk::model::ChunkDeltaUpdateEntry;
use valence::chunk::palette::PalettedContainer;
use valence::chunk::shown::SectionPart;
use valence::chunk::unloaded::{Section as UnloadedSection, UnloadedChunk};
use valence::packet::CompressionThreshold;

fn block(raw: u16, name: &str) -> BlockState {
    BlockState {
        raw,
        kind: BlockKind::from_name(name),
        air: false,
        blocks_motion: true,
        liquid: false,
        waterlogged: None,
        block_entity_kind: None,
    }
}

fn stone() -> BlockState {
    block(1, "stone")
}

fn oak_leaves() -> BlockState {
    BlockState {
        waterlogged: Some(false),
        ..block(279, "oak_leaves")
    }
}

fn waterlogged_oak_leaves() -> BlockState {
    BlockState {
        waterlogged: Some(true),
        ..block(278, "oak_leaves")
    }
}

fn cactus() -> BlockState {
    BlockState {
        blocks_motion: false,
        ..block(5954, "cactus")
    }
}

fn water() -> BlockState {
    BlockState {
        blocks_motion: false,
        liquid: true,
        ..block(86, "water")
    }
}

fn magma_block() -> BlockState {
    block(13557, "magma_block")
}

fn acacia_button() -> BlockState {
    BlockState {
        blocks_motion: false,
        ..block(9319, "acacia_button")
    }
}

fn acacia_wood() -> BlockState {
    block(206, "acacia_wood")
}

fn wet_sponge() -> BlockState {
    block(561, "wet_sponge")
}

fn chest() -> BlockState {
    BlockState {
        block_entity_kind: Some(1),
        ..block(3010, "chest")
    }
}

fn layer_info() -> ChunkLayerInfo {
    ChunkLayerInfo {
        min_y: -16,
        biome_registry_len: 200,
        max_block_raw: 27913,
        threshold: CompressionThreshold(-1),
    }
}

fn fill_block_states(chunk: &mut LoadedChunk, state: BlockState) {
    for sect_y in 0..chunk.height() / 16 {
        chunk.fill_block_state_section(sect_y, state);
    }
}

fn fill_biomes(chunk: &mut LoadedChunk, biome: BiomeId) {
    for sect_y in 0..chunk.height() / 16 {
        chunk.fill_biome_section(sect_y, biome);
    }
}

fn heightmap_idx(x: usize, z: usize) -> usize {
    z * 16 + x
}

fn decode_heightmap(data: &[i64], bits_per_entry: u32) -> [u32; 16 * 16] {
    let entries_per_long = i64::BITS / bits_per_entry;
    let mask = (1u64 << bits_per_entry) - 1;
    let mut decoded = [0; 16 * 16];

    for (idx, value) in decoded.iter_mut().enumerate() {
        let long_idx = idx / entries_per_long as usize;
        let bit_offset = (idx % entries_per_long as usize) as u32 * bits_per_entry;
        *value = ((data[long_idx] as u64 >> bit_offset) & mask) as u32;
    }

    decoded
}

fn built(chunk: &LoadedChunk, pos: ChunkPos) -> LevelChunkWithLight {
    match chunk.write_init_packets(pos, &layer_info()) {
        InitPackets::Build(packet) => packet,
        InitPackets::Cached(_) => panic!("packets are cached"),
    }
}

/// Shows the chunk and keeps what was encoded, for which a few bytes stand in.
fn show(chunk: &mut LoadedChunk) {
    match chunk.write_init_packets(ChunkPos { x: 3, z: 4 }, &layer_info()) {
        InitPackets::Cached(_) => {}
        InitPackets::Build(packet) => {
            assert_eq!(packet.pos, ChunkPos { x: 3, z: 4 });
            chunk.store_init_packets(vec![1, 2, 3]);
        }
    }
}

fn updates(chunk: &mut LoadedChunk) -> Vec<LocalMsg> {
    let mut messages = vec![];
    chunk.update_pre_client(ChunkPos { x: 3, z: -4 }, &layer_info(), &mut messages);
    messages
}

#[test]
fn loaded_chunk_unviewed_no_changes() {
    let mut chunk = LoadedChunk::new(512);

    chunk.set_block_state(0, 10, 0, magma_block());
    assert!(chunk.has_no_changes());

    chunk.set_biome(0, 0, 0, BiomeId(5));
    assert!(chunk.has_no_changes());

    fill_block_states(&mut chunk, acacia_button());
    assert!(chunk.has_no_changes());

    fill_biomes(&mut chunk, BiomeId(42));
    assert!(chunk.has_no_changes());
}

#[test]
fn loaded_chunk_changes_clear_packet_cache() {
    fn check<T>(chunk: &mut LoadedChunk, change: impl FnOnce(&mut LoadedChunk) -> T) {
        // Rebuild cache.
        show(chunk);

        // Check that the cache is built.
        assert!(!chunk.cached_init_packets().is_empty());

        // Making a change should clear the cache.
        change(chunk);
        assert!(chunk.cached_init_packets().is_empty());

        // Rebuild cache again.
        show(chunk);
        assert!(!chunk.cached_init_packets().is_empty());
    }

    let mut chunk = LoadedChunk::new(512);

    check(&mut chunk, |c| c.set_block_state(0, 4, 0, acacia_wood()));
    check(&mut chunk, |c| c.set_biome(1, 2, 3, BiomeId(4)));
    check(&mut chunk, |c| fill_biomes(c, BiomeId(0)));
    check(&mut chunk, |c| fill_block_states(c, wet_sponge()));
    check(&mut chunk, |c| {
        c.set_block_entity(3, 40, 5, Some(Compound { nbt: vec![] }))
    });
    check(&mut chunk, |c| {
        c.block_entity_mut(3, 40, 5).unwrap();
    });
    check(&mut chunk, |c| c.set_block_entity(3, 40, 5, None));

    // Old block state is the same as new block state, so the cache should still be
    // intact.
    assert_eq!(chunk.set_block_state(0, 0, 0, wet_sponge()), wet_sponge());

    assert!(!chunk.cached_init_packets().is_empty());
}

#[test]
fn heightmap_occupancy_rules() {
    let mut chunk = LoadedChunk::new(32);

    chunk.set_block_state(0, 0, 0, stone());
    chunk.set_block_state(1, 5, 0, oak_leaves());
    chunk.set_block_state(2, 6, 0, cactus());
    chunk.set_block_state(3, 7, 0, water());
    chunk.set_block_state(4, 8, 0, waterlogged_oak_leaves());

    let world_surface = chunk.world_surface();
    let motion_blocking = chunk.motion_blocking();
    let motion_blocking_no_leaves = chunk.motion_blocking_no_leaves();

    assert_eq!(world_surface[heightmap_idx(0, 0)], 1);
    assert_eq!(world_surface[heightmap_idx(1, 0)], 6);
    assert_eq!(world_surface[heightmap_idx(2, 0)], 7);
    assert_eq!(world_surface[heightmap_idx(3, 0)], 8);
    assert_eq!(world_surface[heightmap_idx(4, 0)], 9);

    assert_eq!(motion_blocking[heightmap_idx(0, 0)], 1);
    assert_eq!(motion_blocking[heightmap_idx(1, 0)], 6);
    assert_eq!(motion_blocking[heightmap_idx(2, 0)], 0);
    assert_eq!(motion_blocking[heightmap_idx(3, 0)], 8);
    assert_eq!(motion_blocking[heightmap_idx(4, 0)], 9);

    assert_eq!(motion_blocking_no_leaves[heightmap_idx(0, 0)], 1);
    assert_eq!(motion_blocking_no_leaves[heightmap_idx(1, 0)], 0);
    assert_eq!(motion_blocking_no_leaves[heightmap_idx(2, 0)], 0);
    assert_eq!(motion_blocking_no_leaves[heightmap_idx(3, 0)], 8);
    assert_eq!(motion_blocking_no_leaves[heightmap_idx(4, 0)], 0);
}

#[test]
fn encode_heightmap_uses_dynamic_bit_width() {
    let mut chunk = LoadedChunk::new(512);
    chunk.set_block_state(0, 511, 0, stone());

    let motion_blocking = chunk.motion_blocking();
    assert_eq!(motion_blocking[heightmap_idx(0, 0)], 512);

    let encoded = encode_heightmap(motion_blocking, chunk.height());
    // 512 world height => ceil(log2(512 + 1)) = 10 bits, so 64/10 = 6 entries per long.
    assert_eq!(encoded.len(), 43);

    let decoded = decode_heightmap(&encoded, 10);
    assert_eq!(decoded[heightmap_idx(0, 0)], 512);
    assert_eq!(decoded[heightmap_idx(1, 0)], 0);
}

#[test]
fn cacti_and_saplings_never_block_motion() {
    let solid_cactus = BlockState {
        blocks_motion: true,
        ..cactus()
    };
    let mut chunk = LoadedChunk::new(16);
    chunk.set_block_state(0, 3, 0, stone());
    chunk.set_block_state(0, 4, 0, solid_cactus);
    chunk.set_block_state(0, 5, 0, block(12800, "bamboo_sapling"));
    assert_eq!(chunk.world_surface()[0], 6);
    assert_eq!(chunk.motion_blocking()[0], 4);
    assert_eq!(chunk.motion_blocking_no_leaves()[0], 4);
    assert!(!is_motion_blocking_occupied(solid_cactus));
}

#[test]
fn heights_of_an_empty_world_take_one_bit() {
    let encoded = encode_heightmap([0; 256], 0);
    assert_eq!(encoded, vec![0i64; 4]);
    let encoded = encode_heightmap([1; 256], 1);
    assert_eq!(encoded, vec![-1i64; 4]);
}

#[test]
fn bit_widths() {
    assert_eq!(bit_width(0), 0);
    assert_eq!(bit_width(1), 1);
    assert_eq!(bit_width(199), 8);
    assert_eq!(bit_width(256), 9);
    assert_eq!(bit_width(27913), 15);
}

#[test]
fn leaves_are_told_by_their_name() {
    assert!(is_leaf_block(oak_leaves()));
    assert!(!is_leaf_block(block(1, "leaves_")));
    assert!(is_motion_blocking_occupied(oak_leaves()));
    assert!(!is_motion_blocking_no_leaves_occupied(oak_leaves()));
    assert!(!is_motion_blocking_occupied(block(1, "bamboo_sapling")));
    assert!(!is_motion_blocking_occupied(acacia_button()));
    assert!(is_motion_blocking_occupied(BlockState {
        waterlogged: Some(true),
        ..acacia_button()
    }));
}

#[test]
fn what_was_set_is_read_back() {
    let mut chunk = LoadedChunk::new(64);
    assert_eq!(chunk.height(), 64);
    assert!(chunk.block_state(15, 63, 15).air);

    assert!(chunk.set_block_state(15, 63, 15, stone()).air);
    assert_eq!(chunk.set_block_state(15, 63, 15, water()), stone());
    assert_eq!(chunk.block_state(15, 63, 15), water());
    assert!(chunk.block_state(14, 63, 15).air);
    assert!(chunk.block_state(15, 47, 15).air);

    assert_eq!(chunk.set_biome(3, 15, 2, BiomeId(7)), BiomeId(0));
    assert_eq!(chunk.biome(3, 15, 2), BiomeId(7));
    assert_eq!(chunk.biome(3, 11, 2), BiomeId(0));

    assert!(chunk.block_entity(1, 2, 3).is_none());
    let old = chunk.set_block_entity(1, 2, 3, Some(Compound { nbt: vec![10, 0] }));
    assert!(old.is_none());
    assert_eq!(chunk.block_entity(1, 2, 3).unwrap().nbt, vec![10, 0]);
    assert!(chunk.block_entity(3, 2, 1).is_none());
    chunk.block_entity_mut(1, 2, 3).unwrap().nbt = vec![9];
    assert_eq!(chunk.block_entity(1, 2, 3).unwrap().nbt, vec![9]);
    assert!(chunk.block_entity_mut(3, 2, 1).is_none());
    let old = chunk.set_block_entity(1, 2, 3, None);
    assert_eq!(old.unwrap().nbt, vec![9]);
    assert!(chunk.block_entity(1, 2, 3).is_none());
}

#[test]
fn many_values_share_a_section() {
    let mut chunk = LoadedChunk::new(16);
    for n in 0u32..40 {
        chunk.set_block_state(n % 16, n / 16, 5, block(n as u16 + 1, "stone"));
    }
    for n in 0u32..40 {
        assert_eq!(chunk.block_state(n % 16, n / 16, 5).raw, n as u16 + 1);
    }
    assert!(chunk.block_state(8, 2, 5).air);
    assert!(matches!(
        chunk.section(0).block_states,
        PalettedContainer::Direct(_)
    ));
    for n in 0u32..40 {
        chunk.set_block_state(n % 16, n / 16, 5, stone());
    }
    chunk.shrink_to_fit();
    assert!(matches!(
        chunk.section(0).block_states,
        PalettedContainer::Indirect(_)
    ));
    for n in 0u32..40 {
        chunk.set_block_state(n % 16, n / 16, 5, BlockState::air());
    }
    chunk.shrink_to_fit();
    assert!(matches!(
        chunk.section(0).block_states,
        PalettedContainer::Single(_)
    ));
}

#[test]
fn viewers_are_counted() {
    let mut chunk = LoadedChunk::new(16);
    assert_eq!(chunk.viewer_count(), 0);
    chunk.inc_viewer_count();
    chunk.inc_viewer_count();
    assert_eq!(chunk.viewer_count_mut(), 2);
    chunk.dec_viewer_count();
    assert_eq!(chunk.viewer_count(), 1);
}

#[test]
fn one_changed_block_is_told_alone() {
    let mut chunk = LoadedChunk::new(64);
    chunk.inc_viewer_count();
    chunk.set_block_state(1, 18, 2, stone());
    // Setting the same block again is no change.
    chunk.set_block_state(1, 18, 2, stone());
    assert!(!chunk.has_no_changes());

    let messages = updates(&mut chunk);
    assert!(chunk.has_no_changes());
    assert_eq!(messages.len(), 1);
    match &messages[0] {
        LocalMsg::PacketAt {
            pos,
            threshold,
            packet: ChunkPacket::BlockUpdate { position, block_id },
        } => {
            assert_eq!(*pos, ChunkPos { x: 3, z: -4 });
            assert_eq!(*threshold, CompressionThreshold(-1));
            assert_eq!(
                *position,
                BlockPos {
                    x: 49,
                    y: 2,
                    z: -62
                }
            );
            assert_eq!(*block_id, 1);
        }
        _ => panic!("another message was expected"),
    }
    assert!(updates(&mut chunk).is_empty());
}

#[test]
fn changed_blocks_of_a_section_are_told_together() {
    let mut chunk = LoadedChunk::new(64);
    chunk.inc_viewer_count();
    chunk.set_block_state(1, 34, 2, stone());
    chunk.set_block_state(3, 47, 4, water());

    let messages = updates(&mut chunk);
    assert_eq!(messages.len(), 1);
    match &messages[0] {
        LocalMsg::PacketAt {
            packet:
                ChunkPacket::SectionBlocksUpdate {
                    chunk_sect_pos,
                    blocks,
                },
            ..
        } => {
            assert_eq!(*chunk_sect_pos, ChunkSectionPos { x: 3, y: 1, z: -4 });
            assert_eq!(
                *blocks,
                vec![
                    ChunkDeltaUpdateEntry {
                        off_x: 1,
                        off_y: 2,
                        off_z: 2,
                        block_state: 1
                    },
                    ChunkDeltaUpdateEntry {
                        off_x: 3,
                        off_y: 15,
                        off_z: 4,
                        block_state: 86
                    },
                ]
            );
        }
        _ => panic!("another message was expected"),
    }
}

#[test]
fn filled_sections_are_recorded_block_by_block() {
    let mut chunk = LoadedChunk::new(32);
    chunk.inc_viewer_count();
    chunk.fill_block_state_section(1, stone());
    let recorded = &chunk.section(1).updates;
    assert_eq!(recorded.len(), 4096);
    assert_eq!(
        recorded[0x321],
        ChunkDeltaUpdateEntry {
            off_x: 2,
            off_y: 1,
            off_z: 3,
            block_state: 1
        }
    );
    assert_eq!(chunk.block_state(9, 20, 9), stone());
    assert!(chunk.block_state(9, 10, 9).air);

    // Only the blocks that differ are recorded where there are several values.
    chunk.set_block_state(0, 0, 0, water());
    chunk.fill_block_state_section(0, BlockState::air());
    assert_eq!(chunk.section(0).updates.len(), 2);
    assert_eq!(chunk.section(0).updates[1].block_state, 0);

    // So it is in the sections above.
    chunk.set_block_state(3, 17, 4, water());
    assert_eq!(chunk.section(1).updates.len(), 4097);
    chunk.fill_block_state_section(1, stone());
    assert_eq!(chunk.section(1).updates.len(), 4098);
    assert_eq!(
        chunk.section(1).updates[4097],
        ChunkDeltaUpdateEntry {
            off_x: 3,
            off_y: 1,
            off_z: 4,
            block_state: 1
        }
    );
    assert_eq!(chunk.block_state(3, 17, 4), stone());

    // Filling with what is there changes nothing.
    chunk.store_init_packets(vec![7]);
    chunk.fill_block_state_section(0, BlockState::air());
    assert_eq!(chunk.section(0).updates.len(), 2);
    assert_eq!(chunk.cached_init_packets(), &vec![7]);
}

#[test]
fn recorded_changes_lead_to_the_blocks() {
    let mut chunk = LoadedChunk::new(16);
    chunk.inc_viewer_count();
    let mut seen = vec![0u32; 4096];
    chunk.set_block_state(1, 2, 3, stone());
    chunk.set_block_state(1, 2, 3, water());
    chunk.fill_block_state_section(0, stone());
    chunk.fill_block_state_section(0, wet_sponge());
    chunk.set_block_state(15, 15, 15, water());
    for e in &chunk.section(0).updates {
        let idx = e.off_x as usize + e.off_z as usize * 16 + e.off_y as usize * 256;
        seen[idx] = e.block_state;
    }
    for y in 0u32..16 {
        for z in 0u32..16 {
            for x in 0u32..16 {
                let idx = (x + z * 16 + y * 256) as usize;
                assert_eq!(seen[idx], chunk.block_state(x, y, z).raw as u32);
            }
        }
    }
}

#[test]
fn clients_keep_up_with_the_blocks() {
    let mut chunk = LoadedChunk::new(48);
    chunk.inc_viewer_count();
    let mut seen = vec![vec![0u32; 4096]; 3];
    chunk.set_block_state(7, 3, 9, stone());
    chunk.set_block_state(1, 20, 2, water());
    chunk.set_block_state(1, 20, 2, stone());
    chunk.fill_block_state_section(2, wet_sponge());
    chunk.set_block_entity(1, 2, 3, Some(Compound { nbt: vec![] }));
    chunk.set_biome(0, 0, 0, BiomeId(1));
    let min_y = layer_info().min_y;
    for message in updates(&mut chunk) {
        match message {
            LocalMsg::PacketAt {
                pos,
                packet: ChunkPacket::BlockUpdate { position, block_id },
                ..
            } => {
                let x = (position.x - pos.x * 16) as usize;
                let y = (position.y - min_y) as usize;
                let z = (position.z - pos.z * 16) as usize;
                seen[y / 16][x + z * 16 + y % 16 * 256] = u32::from(block_id);
            }
            LocalMsg::PacketAt {
                packet:
                    ChunkPacket::SectionBlocksUpdate {
                        chunk_sect_pos,
                        blocks,
                    },
                ..
            } => {
                let sect_y = (chunk_sect_pos.y - min_y.div_euclid(16)) as usize;
                for e in blocks {
                    let idx = e.off_x as usize + e.off_z as usize * 16 + e.off_y as usize * 256;
                    seen[sect_y][idx] = e.block_state;
                }
            }
            _ => {}
        }
    }
    for y in 0u32..48 {
        for z in 0u32..16 {
            for x in 0u32..16 {
                let known = seen[y as usize / 16][(x + z * 16 + y % 16 * 256) as usize];
                assert_eq!(known, u32::from(chunk.block_state(x, y, z).raw));
            }
        }
    }
    assert!(updates(&mut chunk).is_empty());
}

#[test]
fn nothing_is_told_of_a_chunk_that_nobody_sees() {
    let mut chunk = LoadedChunk::new(16);
    chunk.set_block_state(0, 0, 0, stone());
    assert!(updates(&mut chunk).is_empty());
    assert_eq!(chunk.block_state(0, 0, 0), stone());
}

#[test]
fn cached_packets_are_never_stale() {
    fn shown(packet: &LevelChunkWithLight) -> String {
        let sections: Vec<String> = packet
            .sections
            .iter()
            .map(|s| format!("{} {:?} {:?}", s.non_air_blocks, s.block_states, s.biomes))
            .collect();
        let heights: Vec<&Vec<i64>> = packet.heightmaps.iter().map(|h| &h.data).collect();
        format!("{sections:?} {heights:?}")
    }

    let pos = ChunkPos { x: 0, z: 0 };
    let mut chunk = LoadedChunk::new(32);
    chunk.set_block_state(1, 2, 3, stone());
    chunk.fill_block_state_section(1, water());
    let before = shown(&built(&chunk, pos));
    chunk.store_init_packets(vec![1]);

    // None of this can be seen, so that the packets stay.
    chunk.inc_viewer_count();
    chunk.set_block_state(1, 2, 3, stone());
    chunk.fill_block_state_section(1, water());
    chunk.set_biome(0, 0, 0, BiomeId(0));
    chunk.fill_biome_section(1, BiomeId(0));
    chunk.set_block_entity(1, 2, 3, None);
    chunk.clear_block_entities();
    updates(&mut chunk);
    assert_eq!(chunk.cached_init_packets(), &vec![1]);

    chunk.store_init_packets(vec![]);
    assert_eq!(shown(&built(&chunk, pos)), before);
}

#[test]
fn sections_keep_their_form() {
    let mut chunk = LoadedChunk::new(16);
    chunk.inc_viewer_count();
    chunk.set_biome(0, 0, 0, BiomeId(5));
    chunk.set_biome(1, 0, 0, BiomeId(6));
    chunk.set_biome(2, 0, 0, BiomeId(5));
    let stored = format!("{:?}", chunk.section(0).biomes);
    match &chunk.section(0).biomes {
        PalettedContainer::Indirect(ind) => {
            assert_eq!(ind.palette, vec![BiomeId(0), BiomeId(5), BiomeId(6)]);
            assert_eq!(ind.indices[..4], [1, 2, 1, 0]);
        }
        _ => panic!("another form was expected"),
    }
    let packet = built(&chunk, ChunkPos { x: 0, z: 0 });
    assert_eq!(format!("{:?}", packet.sections[0].biomes), stored);
    match &updates(&mut chunk)[0] {
        LocalMsg::ChangeBiome { biomes, .. } => assert_eq!(format!("{:?}", biomes[0]), stored),
        _ => panic!("another message was expected"),
    }
    // The smallest form has a palette in the order of the cells.
    chunk.shrink_to_fit();
    match &chunk.section(0).biomes {
        PalettedContainer::Indirect(ind) => {
            assert_eq!(ind.palette, vec![BiomeId(5), BiomeId(6), BiomeId(0)]);
        }
        _ => panic!("another form was expected"),
    }
}

#[test]
fn block_entities_are_told_where_a_block_has_them() {
    let mut chunk = LoadedChunk::new(64);
    chunk.inc_viewer_count();
    chunk.set_block_state(5, 40, 6, chest());
    chunk.set_block_entity(5, 40, 6, Some(Compound { nbt: vec![1, 2] }));
    chunk.set_block_entity(0, 0, 0, Some(Compound { nbt: vec![3] }));
    chunk.set_block_entity(9, 9, 9, Some(Compound { nbt: vec![4] }));
    chunk.set_block_entity(9, 9, 9, None);

    let messages = updates(&mut chunk);
    assert_eq!(messages.len(), 2);
    match &messages[1] {
        LocalMsg::PacketAt {
            packet:
                ChunkPacket::BlockEntityData {
                    location,
                    kind,
                    data,
                },
            ..
        } => {
            assert_eq!(
                *location,
                BlockPos {
                    x: 53,
                    y: 24,
                    z: -58
                }
            );
            assert_eq!(*kind, 1);
            assert_eq!(data.nbt, vec![1, 2]);
        }
        _ => panic!("another message was expected"),
    }

    chunk.clear_block_entities();
    assert!(!chunk.has_no_changes());
    assert!(updates(&mut chunk).is_empty());
    chunk.clear_block_entities();
    assert!(chunk.has_no_changes());
}

#[test]
fn biomes_are_told_as_a_whole() {
    let mut chunk = LoadedChunk::new(32);
    chunk.inc_viewer_count();
    chunk.set_biome(0, 0, 0, BiomeId(5));
    chunk.fill_biome_section(1, BiomeId(6));
    let messages = updates(&mut chunk);
    assert_eq!(messages.len(), 1);
    match &messages[0] {
        LocalMsg::ChangeBiome {
            pos,
            biomes,
            format,
        } => {
            assert_eq!(*pos, ChunkPos { x: 3, z: -4 });
            assert_eq!(
                *format,
                PaletteFormat {
                    min_indirect_bits: 0,
                    max_indirect_bits: 3,
                    direct_bits: 8
                }
            );
            assert_eq!(biomes.len(), 2);
            assert_eq!(biomes[0].get(0), BiomeId(5));
            assert_eq!(biomes[0].get(1), BiomeId(0));
            assert_eq!(biomes[1].get(63), BiomeId(6));
        }
        _ => panic!("another message was expected"),
    }
    assert!(chunk.has_no_changes());
    // The biome that is there already is no change.
    chunk.fill_biome_section(1, BiomeId(6));
    assert!(chunk.has_no_changes());
}

#[test]
fn inserted_chunk_comes_out_again() {
    let mut chunk = LoadedChunk::new(32);
    chunk.inc_viewer_count();
    chunk.set_block_state(0, 0, 0, stone());

    let mut sections = vec![];
    for raw in 1..=3 {
        sections.push(UnloadedSection {
            block_states: PalettedContainer::Single(block(raw, "stone")),
            biomes: PalettedContainer::Single(BiomeId(raw)),
        });
    }
    let mut block_entities = BTreeMap::new();
    block_entities.insert(5u32, Compound { nbt: vec![1] });
    block_entities.insert(8191, Compound { nbt: vec![2] });
    block_entities.insert(8192, Compound { nbt: vec![3] });
    let old = chunk.insert(UnloadedChunk {
        sections,
        block_entities,
    });
    assert!(chunk.has_no_changes());
    assert_eq!(chunk.height(), 32);
    assert_eq!(chunk.block_state(3, 17, 3).raw, 2);
    assert_eq!(chunk.biome(3, 1, 3), BiomeId(1));
    assert_eq!(old.sections.len(), 2);
    assert_eq!(old.sections[0].block_states.get(0), stone());
    assert!(old.block_entities.is_empty());

    let out = chunk.remove();
    assert!(chunk.has_no_changes());
    assert!(chunk.block_state(3, 17, 3).air);
    assert!(chunk.block_entity(5, 0, 0).is_none());
    assert_eq!(out.sections.len(), 2);
    assert_eq!(out.sections[1].block_states.get(77).raw, 2);
    let keys: Vec<u32> = out.block_entities.keys().copied().collect();
    assert_eq!(keys, vec![5, 8191]);
}

#[test]
fn small_chunks_are_grown() {
    let mut small = UnloadedChunk {
        sections: vec![],
        block_entities: BTreeMap::new(),
    };
    small.set_height(47);
    assert_eq!(small.sections.len(), 2);
    assert!(small.sections[1].block_states.get(4095).air);
    assert_eq!(small.sections[1].biomes.get(0), BiomeId(0));
}

#[test]
fn chunk_is_shown() {
    let mut chunk = LoadedChunk::new(64);
    chunk.set_block_state(9, 40, 6, chest());
    chunk.set_block_entity(9, 40, 6, Some(Compound { nbt: vec![1] }));
    chunk.set_block_entity(0, 0, 0, Some(Compound { nbt: vec![2] }));
    chunk.fill_block_state_section(0, stone());

    let pos = ChunkPos { x: 1, z: 2 };
    let packet = built(&chunk, pos);
    assert_eq!(packet.pos, pos);
    assert_eq!(packet.threshold, CompressionThreshold(-1));

    assert_eq!(packet.heightmaps.len(), 3);
    assert_eq!(packet.heightmaps[0].kind, HeightMapKind::WorldSurface);
    assert_eq!(packet.heightmaps[1].kind, HeightMapKind::MotionBlocking);
    assert_eq!(
        packet.heightmaps[2].kind,
        HeightMapKind::MotionBlockingNoLeaves
    );
    // 64 needs seven bits, of which a long holds nine.
    assert_eq!(packet.heightmaps[0].data.len(), 29);
    let heights = decode_heightmap(&packet.heightmaps[0].data, 7);
    assert_eq!(heights[heightmap_idx(9, 6)], 41);
    assert_eq!(heights[heightmap_idx(6, 9)], 16);

    let counts: Vec<u16> = packet.sections.iter().map(|s| s.non_air_blocks).collect();
    assert_eq!(counts, vec![4096, 0, 1, 0]);
    assert_eq!(packet.sections[2].block_states.get(9 + 6 * 16 + 8 * 256), chest());
    assert_eq!(
        packet.block_format,
        PaletteFormat {
            min_indirect_bits: 4,
            max_indirect_bits: 8,
            direct_bits: 15
        }
    );
    assert_eq!(packet.biome_format.direct_bits, 8);

    assert_eq!(packet.block_entities.len(), 1);
    assert_eq!(packet.block_entities[0].packed_xz, 0x96u8 as i8);
    assert_eq!(packet.block_entities[0].y, 24);
    assert_eq!(packet.block_entities[0].kind, 1);
    assert_eq!(packet.block_entities[0].data.nbt, vec![1]);

    // Six light sections, one below and one above the four of the chunk.
    assert_eq!(packet.sky_light_mask, vec![0b111111]);
    assert!(packet.empty_sky_light_mask.is_empty());
    assert_eq!(packet.sky_light_arrays.len(), 6);
    assert_eq!(packet.sky_light_arrays[3], [0xff; 2048]);
    assert_eq!(packet.block_light_mask, vec![0]);
    assert_eq!(packet.empty_block_light_mask, vec![0b111111]);
    assert!(packet.block_light_arrays.is_empty());

    chunk.store_init_packets(vec![4, 5, 6]);
    match chunk.write_init_packets(pos, &layer_info()) {
        InitPackets::Cached(bytes) => assert_eq!(bytes, vec![4, 5, 6]),
        InitPackets::Build(_) => panic!("packets are not cached"),
    }
}

#[test]
fn sections_are_sent_in_order() {
    let mut chunk = LoadedChunk::new(32);
    chunk.fill_block_state_section(1, stone());
    chunk.fill_biome_section(0, BiomeId(3));
    let packet = built(&chunk, ChunkPos { x: 0, z: 0 });
    let parts = packet.section_parts();
    assert_eq!(parts.len(), 6);
    assert!(matches!(parts[0], SectionPart::Count(0)));
    assert!(
        matches!(&parts[1], SectionPart::Blocks(b, f) if b.get(0).air && f.direct_bits == 15)
    );
    assert!(
        matches!(&parts[2], SectionPart::Biomes(b, f) if b.get(9) == BiomeId(3) && f.direct_bits == 8)
    );
    assert!(matches!(parts[3], SectionPart::Count(4096)));
    assert!(matches!(&parts[4], SectionPart::Blocks(b, _) if b.get(5) == stone()));
    assert!(matches!(&parts[5], SectionPart::Biomes(b, _) if b.get(9) == BiomeId(0)));
}

#[test]
fn what_does_not_fit_is_not_told() {
    let far = ChunkPos {
        x: 0x800_0000,
        z: 0,
    };
    let near = ChunkPos {
        x: 0x7ff_ffff,
        z: -0x800_0000,
    };
    let mut chunk = LoadedChunk::new(32);
    chunk.inc_viewer_count();
    assert!(chunk.changes_can_be_told(far, &layer_info()));
    chunk.set_block_state(0, 20, 0, stone());
    assert!(!chunk.changes_can_be_told(far, &layer_info()));
    assert!(chunk.changes_can_be_told(near, &layer_info()));
    let high = ChunkLayerInfo {
        min_y: i32::MAX - 20,
        ..layer_info()
    };
    assert!(chunk.changes_can_be_told(near, &high));
    let higher = ChunkLayerInfo {
        min_y: i32::MAX - 19,
        ..layer_info()
    };
    assert!(!chunk.changes_can_be_told(near, &higher));
    // Several changes are told with the position of their section.
    chunk.set_block_state(0, 21, 0, stone());
    assert!(chunk.changes_can_be_told(far, &higher));
    // Nothing is told of a block entity where no block has one.
    chunk.set_block_entity(0, 30, 0, Some(Compound { nbt: vec![] }));
    assert!(chunk.changes_can_be_told(far, &higher));
    chunk.set_block_state(0, 30, 0, chest());
    assert!(!chunk.changes_can_be_told(far, &layer_info()));

    assert!(chunk.can_be_shown(&layer_info()));
    let short = ChunkLayerInfo {
        min_y: 32767 - 29,
        ..layer_info()
    };
    assert!(!chunk.can_be_shown(&short));
    let barren = ChunkLayerInfo {
        biome_registry_len: 0,
        ..layer_info()
    };
    assert!(!chunk.can_be_shown(&barren));
    chunk.set_biome(0, 0, 0, BiomeId(1));
    assert!(!chunk.changes_can_be_told(near, &barren));
}

#[test]
fn sections_are_cloned() {
    let mut chunk = LoadedChunk::new(16);
    chunk.set_block_state(1, 2, 3, stone());
    let twin = chunk.section(0).clone();
    chunk.set_block_state(1, 2, 3, water());
    assert_eq!(twin.block_states.get(1 + 3 * 16 + 2 * 256), stone());
}

#[test]
fn light_sections() {
    assert!(matches!(
        LightSection::with_full_light(),
        LightSection::Single(0xff)
    ));
    assert!(matches!(
        LightSection::with_zeroed_light(),
        LightSection::Single(0)
    ));
    assert!(matches!(LightSection::default(), LightSection::NotSet));
    let lights = vec![
        LightSection::NotSet,
        LightSection::from_data([7; 2048]),
        LightSection::Single(0),
        LightSection::Single(9),
    ];
    let sky = LightData::collect(&lights, false);
    assert_eq!(sky.mask, vec![0b1010]);
    assert_eq!(sky.empty_mask, vec![0b0100]);
    assert_eq!(sky.arrays, vec![[7; 2048], [9; 2048]]);
    let block = LightData::collect(&lights, true);
    assert_eq!(block.mask, vec![0b1010]);
    assert_eq!(block.empty_mask, vec![0b0101]);
}
