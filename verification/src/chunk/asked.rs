//! What may be asked of a chunk.

use vstd::prelude::*;

use super::block::{BiomeId, BlockState, ChunkPos, Compound};
use super::heightmap::{encode_heightmap, HeightMapKind};
use super::light::{fill_light_data, LightData, LightMask, LightSection};
use super::loaded::{
    chunks_hold_their_entities, chunks_record_in_their_sections, LoadedChunk,
};
use super::message::{ChunkLayerInfo, LocalMsg};
use super::palette::{Cell, PalettedContainer};
use super::sent::{near_chunks_can_be_told, ordinary_chunks_can_be_shown};
use super::unloaded::UnloadedChunk;

verus! {

/// Every block, biome cell and block entity of a chunk can be read.
pub proof fn all_of_a_chunk_can_be_read(
    c: &LoadedChunk,
    x: u32,
    y: u32,
    z: u32,
    kind: HeightMapKind,
)
    requires
        c.wf(),
    ensures
        x < 16 && z < 16 && y < 16 * c@.sections.len() ==> {
            &&& call_requires(LoadedChunk::block_state, (c, x, y, z))
            &&& x + 16 * z + 256 * y <= u32::MAX ==> call_requires(
                LoadedChunk::block_entity,
                (c, x, y, z),
            )
        },
        x < 4 && z < 4 && y < 4 * c@.sections.len() ==> call_requires(
            LoadedChunk::biome,
            (c, x, y, z),
        ),
        y < c@.sections.len() ==> call_requires(LoadedChunk::section, (c, y)),
        call_requires(LoadedChunk::height, (c,)),
        call_requires(LoadedChunk::viewer_count, (c,)),
        call_requires(LoadedChunk::has_no_changes, (c,)),
        call_requires(LoadedChunk::build_heightmap, (c, kind)),
        call_requires(LoadedChunk::motion_blocking, (c,)),
        call_requires(LoadedChunk::motion_blocking_no_leaves, (c,)),
        call_requires(LoadedChunk::world_surface, (c,)),
        call_requires(LoadedChunk::cached_init_packets, (c,)),
{
}

/// Every block, biome cell and block entity of a chunk can be set, and its sections
/// filled.
pub proof fn all_of_a_chunk_can_be_set(
    c: &mut LoadedChunk,
    x: u32,
    y: u32,
    z: u32,
    block: BlockState,
    biome: BiomeId,
    entity: Option<Compound>,
)
    requires
        old(c).wf(),
    ensures
        x < 16 && z < 16 && y < 16 * old(c)@.sections.len() ==> {
            &&& call_requires(LoadedChunk::set_block_state, (c, x, y, z, block))
            &&& x + 16 * z + 256 * y <= u32::MAX ==> {
                &&& call_requires(LoadedChunk::set_block_entity, (c, x, y, z, entity))
                &&& call_requires(LoadedChunk::block_entity_mut, (c, x, y, z))
            }
        },
        x < 4 && z < 4 && y < 4 * old(c)@.sections.len() ==> call_requires(
            LoadedChunk::set_biome,
            (c, x, y, z, biome),
        ),
        y < old(c)@.sections.len() ==> {
            &&& call_requires(LoadedChunk::fill_block_state_section, (c, y, block))
            &&& call_requires(LoadedChunk::fill_biome_section, (c, y, biome))
        },
        call_requires(LoadedChunk::clear_block_entities, (c,)),
        call_requires(LoadedChunk::shrink_to_fit, (c,)),
        call_requires(LoadedChunk::remove, (c,)),
        call_requires(LoadedChunk::inc_viewer_count, (c,)),
        old(c)@.viewers > 0 ==> call_requires(LoadedChunk::dec_viewer_count, (c,)),
{
}

/// A chunk of any height can be made and set, any contents put into a chunk, and any
/// packets stored.
pub proof fn chunks_can_be_made_and_exchanged(
    height: u32,
    c: &mut LoadedChunk,
    given: &mut UnloadedChunk,
    bytes: Vec<u8>,
)
    requires
        old(c).wf(),
        old(given).wf(),
    ensures
        call_requires(LoadedChunk::new, (height,)),
        call_requires(LoadedChunk::insert, (c, *old(given))),
        call_requires(UnloadedChunk::set_height, (given, height)),
        call_requires(LoadedChunk::store_init_packets, (c, bytes)),
{
}

/// Clients can be told of the changes of every chunk that they see, if it is not so
/// far off that positions overflow and there are biomes.
pub proof fn near_chunks_can_tell(
    c: &mut LoadedChunk,
    pos: ChunkPos,
    info: &ChunkLayerInfo,
    messages: &mut Vec<LocalMsg>,
)
    requires
        old(c).wf(),
        old(c)@.viewers > 0 || old(c)@.no_changes(),
        -0x800_0000 <= pos.x < 0x800_0000,
        -0x800_0000 <= pos.z < 0x800_0000,
        info.min_y + 16 * old(c)@.sections.len() <= i32::MAX,
        info.biome_registry_len > 0,
    ensures
        call_requires(LoadedChunk::update_pre_client, (c, pos, info, messages)),
        call_requires(LoadedChunk::changes_can_be_told, (&*old(c), pos, info)),
{
    chunks_hold_their_entities(c);
    chunks_record_in_their_sections(c);
    assert forall|i: int, j: int|
        0 <= i < old(c)@.sections.len() && 0 <= j < old(c)@.sections[i].updates.len() implies (
    #[trigger] old(c)@.sections[i].updates[j]).off_y < 16 by {
        assert(old(c)@.sections[i].updates[j].wf());
    }
    near_chunks_can_be_told(old(c)@, pos, *info);
}

/// Every chunk can be shown that is not so high or low that heights overflow, if
/// there are biomes; and every one whose packets are cached.
pub proof fn ordinary_chunks_can_be_asked_for(
    c: &LoadedChunk,
    pos: ChunkPos,
    info: &ChunkLayerInfo,
)
    requires
        c.wf(),
    ensures
        call_requires(LoadedChunk::can_be_shown, (c, info)),
        c@.cache.len() > 0 ==> call_requires(LoadedChunk::write_init_packets, (c, pos, info)),
        info.biome_registry_len > 0 && -0x8000 <= info.min_y < 0x8000 && 16 * c@.sections.len()
            <= 0x8000 && info.min_y + 16 * c@.sections.len() <= 0x8000 ==> call_requires(
            LoadedChunk::write_init_packets,
            (c, pos, info),
        ),
{
    chunks_hold_their_entities(c);
    if info.biome_registry_len > 0 && -0x8000 <= info.min_y < 0x8000 && 16 * c@.sections.len()
        <= 0x8000 && info.min_y + 16 * c@.sections.len() <= 0x8000 {
        ordinary_chunks_can_be_shown(c@, *info);
    }
}

/// Every cell of a container can be read and set.
pub proof fn all_of_a_container_can_be_used<T: Cell, const LEN: usize>(
    c: &mut PalettedContainer<T, LEN>,
    idx: usize,
    val: T,
)
    requires
        old(c).wf(),
        idx < LEN,
    ensures
        call_requires(PalettedContainer::<T, LEN>::get, (&*old(c), idx)),
        call_requires(PalettedContainer::<T, LEN>::set, (c, idx, val)),
        call_requires(PalettedContainer::<T, LEN>::fill, (c, val)),
        call_requires(PalettedContainer::<T, LEN>::shrink_to_fit, (c,)),
        call_requires(PalettedContainer::<T, LEN>::duplicate, (&*old(c),)),
{
}

/// Heights that do not exceed that of the world can be packed.
pub proof fn heights_can_be_packed(heights: [u32; 256], world_height: u32)
    requires
        forall|i: int| 0 <= i < 256 ==> (#[trigger] heights@[i]) <= world_height,
    ensures
        call_requires(encode_heightmap, (heights, world_height)),
{
}

/// The light of sections can be collected, of one or of many.
pub proof fn light_can_be_collected(
    light: &LightSection,
    lights: &Vec<LightSection>,
    arrays: &mut Vec<[u8; 2048]>,
    mask: &mut LightMask,
    dark: &mut LightMask,
    i: usize,
    is_block_light: bool,
)
    requires
        old(mask).wf(),
        old(dark).wf(),
        i < old(mask)@.len(),
        i < old(dark)@.len(),
        lights@.len() + 63 <= usize::MAX,
    ensures
        call_requires(fill_light_data, (light, arrays, mask, dark, i, is_block_light)),
        call_requires(LightData::collect, (lights, is_block_light)),
{
}

} // verus!
