//! What clients are told of changes to a chunk.

use vstd::prelude::*;

use super::block::{BiomeContainer, BiomeId, BlockPos, ChunkPos, ChunkSectionPos, Compound};
use super::heightmap::digits;
use super::keys::ascending;
use super::model::{ChunkDeltaUpdateEntry, ChunkModel, SectionModel};
use super::palette::Form;
use crate::packet::CompressionThreshold;

verus! {

/// What a chunk has to know of its layer and the registries.
pub struct ChunkLayerInfo {
    /// The height of the lowest block.
    pub min_y: i32,
    /// The number of biomes there are.
    pub biome_registry_len: usize,
    /// The greatest id of a block state.
    pub max_block_raw: u16,
    /// The threshold that packets are encoded with.
    pub threshold: CompressionThreshold,
}

/// How a paletted container is encoded: the least and the most bits that an
/// index into a palette has, and the bits of a value that stands for itself.
#[derive(Clone, Copy, Debug, PartialEq, Eq, Structural)]
pub struct PaletteFormat {
    pub min_indirect_bits: usize,
    pub max_indirect_bits: usize,
    pub direct_bits: usize,
}

impl ChunkLayerInfo {
    /// How biomes are encoded.
    pub open spec fn spec_biome_format(&self) -> PaletteFormat {
        PaletteFormat {
            min_indirect_bits: 0,
            max_indirect_bits: 3,
            direct_bits: digits(
                if self.biome_registry_len == 0 {
                    0
                } else {
                    (self.biome_registry_len - 1) as nat
                },
            ) as usize,
        }
    }

    /// How blocks are encoded.
    pub open spec fn spec_block_format(&self) -> PaletteFormat {
        PaletteFormat {
            min_indirect_bits: 4,
            max_indirect_bits: 8,
            direct_bits: digits(self.max_block_raw as nat) as usize,
        }
    }
}

/// A packet on a change to a chunk.
pub enum ChunkPacket {
    /// One block changed.
    BlockUpdate { position: BlockPos, block_id: u16 },
    /// Several blocks of one section changed.
    SectionBlocksUpdate {
        chunk_sect_pos: ChunkSectionPos,
        blocks: Vec<ChunkDeltaUpdateEntry>,
    },
    /// A block entity changed.
    BlockEntityData { location: BlockPos, kind: u32, data: Compound },
}

/// A message to the clients near a chunk.
pub enum LocalMsg {
    /// A packet for the clients that see the chunk at `pos`.
    PacketAt { pos: ChunkPos, threshold: CompressionThreshold, packet: ChunkPacket },
    /// The biomes of the chunk at `pos`, section by section.
    ChangeBiome { pos: ChunkPos, biomes: Vec<BiomeContainer>, format: PaletteFormat },
}

/// What a `ChunkPacket` says.
pub ghost enum PacketModel {
    BlockUpdate { position: BlockPos, block_id: u16 },
    SectionBlocksUpdate {
        chunk_sect_pos: ChunkSectionPos,
        blocks: Seq<ChunkDeltaUpdateEntry>,
    },
    BlockEntityData { location: BlockPos, kind: u32, data: Seq<u8> },
}

/// What a `LocalMsg` says. Of biomes this is the values and how they are stored.
pub ghost enum MsgModel {
    PacketAt { pos: ChunkPos, threshold: CompressionThreshold, packet: PacketModel },
    ChangeBiome { pos: ChunkPos, biomes: Seq<(Seq<BiomeId>, Form<BiomeId>)>, format: PaletteFormat },
}

impl View for ChunkPacket {
    type V = PacketModel;

    open spec fn view(&self) -> PacketModel {
        match self {
            ChunkPacket::BlockUpdate { position, block_id } => PacketModel::BlockUpdate {
                position: *position,
                block_id: *block_id,
            },
            ChunkPacket::SectionBlocksUpdate { chunk_sect_pos, blocks } => {
                PacketModel::SectionBlocksUpdate {
                    chunk_sect_pos: *chunk_sect_pos,
                    blocks: blocks@,
                }
            },
            ChunkPacket::BlockEntityData { location, kind, data } => PacketModel::BlockEntityData {
                location: *location,
                kind: *kind,
                data: data@,
            },
        }
    }
}

/// The values of containers and how they are stored.
pub open spec fn biome_views(biomes: Seq<BiomeContainer>) -> Seq<(Seq<BiomeId>, Form<BiomeId>)> {
    biomes.map_values(|b: BiomeContainer| (b@, b.form()))
}

impl View for LocalMsg {
    type V = MsgModel;

    open spec fn view(&self) -> MsgModel {
        match self {
            LocalMsg::PacketAt { pos, threshold, packet } => MsgModel::PacketAt {
                pos: *pos,
                threshold: *threshold,
                packet: packet@,
            },
            LocalMsg::ChangeBiome { pos, biomes, format } => MsgModel::ChangeBiome {
                pos: *pos,
                biomes: biome_views(biomes@),
                format: *format,
            },
        }
    }
}

/// What a sequence of messages says.
pub open spec fn msg_views(messages: Seq<LocalMsg>) -> Seq<MsgModel> {
    messages.map_values(|m: LocalMsg| m@)
}

/// Whether the position of a block fits that stands `y` above the lowest ones of
/// the chunk at `pos`.
pub open spec fn position_fits(pos: ChunkPos, min_y: i32, y: int) -> bool {
    &&& -0x800_0000 <= pos.x < 0x800_0000
    &&& -0x800_0000 <= pos.z < 0x800_0000
    &&& min_y + y <= i32::MAX
}

/// The position of the block at `(x, y, z)` of the chunk at `pos`.
pub open spec fn global_pos(pos: ChunkPos, min_y: i32, x: int, y: int, z: int) -> BlockPos {
    BlockPos {
        x: (pos.x * 16 + x) as i32,
        y: (min_y + y) as i32,
        z: (pos.z * 16 + z) as i32,
    }
}

/// What is said of the recorded changes to section `sect_y`, of which there are
/// some.
pub open spec fn section_packet(
    s: SectionModel,
    sect_y: int,
    pos: ChunkPos,
    info: ChunkLayerInfo,
) -> PacketModel {
    if s.updates.len() == 1 {
        let e = s.updates[0];
        PacketModel::BlockUpdate {
            position: global_pos(
                pos,
                info.min_y,
                e.off_x as int,
                sect_y * 16 + e.off_y,
                e.off_z as int,
            ),
            block_id: e.block_state as u16,
        }
    } else {
        PacketModel::SectionBlocksUpdate {
            chunk_sect_pos: ChunkSectionPos {
                x: pos.x,
                y: (sect_y + info.min_y as int / 16) as i32,
                z: pos.z,
            },
            blocks: s.updates,
        }
    }
}

/// What is said of the block changes in the lowest `n` sections.
pub open spec fn block_messages(
    m: ChunkModel,
    pos: ChunkPos,
    info: ChunkLayerInfo,
    n: nat,
) -> Seq<MsgModel>
    decreases n,
{
    if n == 0 {
        Seq::empty()
    } else {
        let before = block_messages(m, pos, info, (n - 1) as nat);
        let s = m.sections[n - 1];
        if s.updates.len() == 0 {
            before
        } else {
            before.push(
                MsgModel::PacketAt {
                    pos,
                    threshold: info.threshold,
                    packet: section_packet(s, n - 1, pos, info),
                },
            )
        }
    }
}

/// The kind of block entity that the block with index `idx` has.
pub open spec fn entity_kind(m: ChunkModel, idx: u32) -> Option<u32> {
    m.sections[idx as int / 4096].blocks[idx as int % 4096].block_entity_kind
}

/// What is said of the block entities with the first `n` of these indices: only
/// of those that are there, at a block that has some.
pub open spec fn entity_messages(
    m: ChunkModel,
    pos: ChunkPos,
    info: ChunkLayerInfo,
    keys: Seq<u32>,
    n: nat,
) -> Seq<MsgModel>
    decreases n,
{
    if n == 0 {
        Seq::empty()
    } else {
        let before = entity_messages(m, pos, info, keys, (n - 1) as nat);
        let k = keys[n - 1];
        match entity_kind(m, k) {
            Some(kind) if m.entities.contains_key(k) => before.push(
                MsgModel::PacketAt {
                    pos,
                    threshold: info.threshold,
                    packet: PacketModel::BlockEntityData {
                        location: global_pos(
                            pos,
                            info.min_y,
                            k as int % 16,
                            k as int / 256,
                            k as int / 16 % 16,
                        ),
                        kind,
                        data: m.entities[k],
                    },
                },
            ),
            _ => before,
        }
    }
}

/// Whether the positions fit that block changes are told with: those of blocks
/// that changed alone in their section.
pub open spec fn block_positions_fit(m: ChunkModel, pos: ChunkPos, min_y: i32) -> bool {
    forall|i: int|
        0 <= i < m.sections.len() && (#[trigger] m.sections[i]).updates.len() == 1
            ==> position_fits(pos, min_y, i * 16 + m.sections[i].updates[0].off_y)
}

/// Whether the positions fit that changes of block entities are told with.
pub open spec fn entity_positions_fit(m: ChunkModel, pos: ChunkPos, min_y: i32) -> bool {
    forall|k: u32| #[trigger]
        m.changed_entities.contains(k) && m.entities.contains_key(k) && entity_kind(m, k) is Some
            ==> position_fits(pos, min_y, k as int / 256)
}

/// Whether the recorded changes can be told: nobody is to be told of an unseen
/// chunk, the positions that are told fit, and there are biomes where these have
/// changed.
pub open spec fn can_be_told(m: ChunkModel, pos: ChunkPos, info: ChunkLayerInfo) -> bool {
    &&& m.viewers == 0 ==> m.no_changes()
    &&& block_positions_fit(m, pos, info.min_y)
    &&& entity_positions_fit(m, pos, info.min_y)
    &&& m.changed_biomes ==> info.biome_registry_len > 0 || m.sections.len() == 0
}

/// What is said of a change of biomes.
pub open spec fn biome_messages(m: ChunkModel, pos: ChunkPos, info: ChunkLayerInfo) -> Seq<
    MsgModel,
> {
    if m.changed_biomes {
        seq![
            MsgModel::ChangeBiome {
                pos,
                biomes: m.sections.map_values(|s: SectionModel| (s.biomes, s.biome_form)),
                format: info.spec_biome_format(),
            },
        ]
    } else {
        Seq::empty()
    }
}

/// All that clients are told of the recorded changes: of blocks by section, of
/// block entities by index, and of biomes.
pub open spec fn change_messages(m: ChunkModel, pos: ChunkPos, info: ChunkLayerInfo) -> Seq<
    MsgModel,
> {
    let keys = ascending(m.changed_entities);
    block_messages(m, pos, info, m.sections.len()) + entity_messages(
        m,
        pos,
        info,
        keys,
        keys.len(),
    ) + biome_messages(m, pos, info)
}

} // verus!
