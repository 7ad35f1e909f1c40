//! What calls that change a chunk, or what it is made of, do to it and hand back.

use std::collections::{BTreeMap, BTreeSet};
use vstd::arithmetic::power2::pow2;
use vstd::prelude::*;

use super::block::{BiomeId, BlockState, ChunkPos, Compound};
use super::effects::{
    clear_entities_does_just_that, contents_are_handed_out, fill_biomes_does_just_that,
    fill_blocks_does_just_that, insert_does_just_that, remove_does_just_that,
    remove_entity_does_just_that, set_biome_does_just_that, set_block_does_just_that,
    set_entity_does_just_that, set_height_does_just_that, shrinking_changes_only_the_form,
    telling_clears_what_is_recorded,
};
use super::heightmap::bit_width;
use super::heights::{
    digits_reach_just_far_enough, light_data_tells_of_each_section, light_is_sent_or_reported,
};
use super::keys::{lemma_ascending, map_keys, set_keys};
use super::light::{array_views, fill_light_data, LightData, LightMask, LightSection};
use super::loaded::{chunks_have_full_sections, LoadedChunk};
use super::message::{
    biome_views, change_messages, msg_views, ChunkLayerInfo, ChunkPacket, LocalMsg, MsgModel,
};
use super::model::ChunkDeltaUpdateEntry;
use super::palette::{smallest_form_holds, Cell, Form, PalettedContainer};
use super::sent::{
    changed_biomes_are_told, entity_message, every_changed_entity_is_told,
    every_changed_section_is_told, has_entity, many_blocks_message, one_block_message,
    only_changes_are_told,
};
use super::stored::{containers_hold_their_form, palettes_grow_at_the_end};
use super::unloaded::UnloadedChunk;

verus! {

/// Setting a block sets that block alone and hands back what it was. Where it was
/// another one, the cached packets are dropped, and the change is recorded as the
/// last one of its section, if anyone sees the chunk.
pub proof fn a_block_is_set(
    c: &mut LoadedChunk,
    x: u32,
    y: u32,
    z: u32,
    block: BlockState,
    was: BlockState,
    i: int,
    j: int,
)
    requires
        call_ensures(LoadedChunk::set_block_state, (c, x, y, z, block), was),
        old(c).wf(),
        x < 16,
        z < 16,
        y < 16 * old(c)@.sections.len(),
        0 <= i < old(c)@.sections.len(),
        0 <= j < 4096,
    ensures
        ({
            let (m, a) = (old(c)@, final(c)@);
            let s = y as int / 16;
            let at = x + 16 * z + 256 * (y as int % 16);
            &&& was == m.sections[s].blocks[at]
            &&& a.sections.len() == m.sections.len()
            &&& a.sections[i].blocks[j] == (if i == s && j == at {
                block
            } else {
                m.sections[i].blocks[j]
            })
            &&& a.sections[i].biomes == m.sections[i].biomes
            &&& a.sections[i].updates == (if i == s && was != block && m.viewers > 0 {
                m.sections[i].updates.push(
                    ChunkDeltaUpdateEntry {
                        off_x: x as u8,
                        off_y: (y as int % 16) as u8,
                        off_z: z as u8,
                        block_state: block.raw as u32,
                    },
                )
            } else {
                m.sections[i].updates
            })
            &&& was == block ==> a == m
            &&& was != block ==> a.cache.len() == 0
            &&& a.viewers == m.viewers
            &&& a.entities == m.entities
            &&& a.changed_entities == m.changed_entities
            &&& a.changed_biomes == m.changed_biomes
        }),
{
    chunks_have_full_sections(c);
    set_block_does_just_that(old(c)@, x as int, y as int, z as int, block);
}

/// Filling a section sets all its blocks and no others.
pub proof fn a_section_is_filled(
    c: &mut LoadedChunk,
    sect_y: u32,
    block: BlockState,
    i: int,
    j: int,
)
    requires
        call_ensures(LoadedChunk::fill_block_state_section, (c, sect_y, block), ()),
        old(c).wf(),
        sect_y < old(c)@.sections.len(),
        0 <= i < old(c)@.sections.len(),
        0 <= j < 4096,
    ensures
        ({
            let (m, a) = (old(c)@, final(c)@);
            let s = sect_y as int;
            let differs = exists|k: int|
                0 <= k < 4096 && #[trigger] m.sections[s].blocks[k] != block;
            &&& a.sections.len() == m.sections.len()
            &&& a.sections[i].blocks[j] == (if i == s {
                block
            } else {
                m.sections[i].blocks[j]
            })
            &&& a.sections[i].biomes == m.sections[i].biomes
            &&& i != s ==> a.sections[i] == m.sections[i]
            &&& m.viewers == 0 || !differs ==> a.sections[i].updates == m.sections[i].updates
            &&& differs ==> a.cache.len() == 0
            &&& !differs ==> a.cache == m.cache
            &&& a.viewers == m.viewers
            &&& a.entities == m.entities
            &&& a.changed_entities == m.changed_entities
            &&& a.changed_biomes == m.changed_biomes
        }),
{
    chunks_have_full_sections(c);
    fill_blocks_does_just_that(old(c)@, sect_y as int, block);
}

/// Setting a biome sets that cell alone and hands back what it was. Where it was
/// another one, the cached packets are dropped, and a change of biomes is recorded,
/// if anyone sees the chunk.
pub proof fn a_biome_is_set(
    c: &mut LoadedChunk,
    x: u32,
    y: u32,
    z: u32,
    biome: BiomeId,
    was: BiomeId,
    i: int,
    j: int,
)
    requires
        call_ensures(LoadedChunk::set_biome, (c, x, y, z, biome), was),
        old(c).wf(),
        x < 4,
        z < 4,
        y < 4 * old(c)@.sections.len(),
        0 <= i < old(c)@.sections.len(),
        0 <= j < 64,
    ensures
        ({
            let (m, a) = (old(c)@, final(c)@);
            let s = y as int / 4;
            let at = x + 4 * z + 16 * (y as int % 4);
            &&& was == m.sections[s].biomes[at]
            &&& a.sections.len() == m.sections.len()
            &&& a.sections[i].biomes[j] == (if i == s && j == at {
                biome
            } else {
                m.sections[i].biomes[j]
            })
            &&& a.sections[i].blocks == m.sections[i].blocks
            &&& a.sections[i].updates == m.sections[i].updates
            &&& a.changed_biomes <==> m.changed_biomes || (was != biome && m.viewers > 0)
            &&& was == biome ==> a == m
            &&& was != biome ==> a.cache.len() == 0
            &&& a.viewers == m.viewers
            &&& a.entities == m.entities
            &&& a.changed_entities == m.changed_entities
        }),
{
    chunks_have_full_sections(c);
    set_biome_does_just_that(old(c)@, x as int, y as int, z as int, biome);
}

/// Filling the biomes of a section sets all its cells, however they were stored, and
/// no others.
pub proof fn the_biomes_of_a_section_are_filled(
    c: &mut LoadedChunk,
    sect_y: u32,
    biome: BiomeId,
    i: int,
    j: int,
)
    requires
        call_ensures(LoadedChunk::fill_biome_section, (c, sect_y, biome), ()),
        old(c).wf(),
        sect_y < old(c)@.sections.len(),
        0 <= i < old(c)@.sections.len(),
        0 <= j < 64,
    ensures
        ({
            let (m, a) = (old(c)@, final(c)@);
            let s = sect_y as int;
            &&& a.sections.len() == m.sections.len()
            &&& a.sections[i].biomes[j] == (if i == s {
                biome
            } else {
                m.sections[i].biomes[j]
            })
            &&& a.sections[i].blocks == m.sections[i].blocks
            &&& a.sections[i].updates == m.sections[i].updates
            &&& m.sections[s].biomes[j] != biome ==> a.cache.len() == 0 && (a.changed_biomes
                <==> m.viewers > 0)
            &&& a.viewers == m.viewers
            &&& a.entities == m.entities
            &&& a.changed_entities == m.changed_entities
        }),
{
    chunks_have_full_sections(c);
    fill_biomes_does_just_that(old(c)@, sect_y as int, biome);
    let t = old(c)@.sections[sect_y as int];
    assert(t.full());
    assert(t.biomes[j] == t.biome_form.at(j));
}

/// Setting a block entity sets that one alone, and taking it away takes that one
/// alone. Either hands back what was there. Only setting is recorded, if anyone sees
/// the chunk.
pub proof fn a_block_entity_is_set(
    c: &mut LoadedChunk,
    x: u32,
    y: u32,
    z: u32,
    given: Option<Compound>,
    was: Option<Compound>,
    other: u32,
)
    requires
        call_ensures(LoadedChunk::set_block_entity, (c, x, y, z, given), was),
        x + 16 * z + 256 * y <= u32::MAX,
    ensures
        ({
            let (m, a) = (old(c)@, final(c)@);
            let k = (x + 16 * z + 256 * y) as u32;
            &&& was is Some <==> m.entities.contains_key(k)
            &&& was is Some ==> was->0@ == m.entities[k]
            &&& given is Some <==> a.entities.contains_key(k)
            &&& given is Some ==> a.entities[k] == given->0@
            &&& other != k ==> (a.entities.contains_key(other) <==> m.entities.contains_key(other))
            &&& other != k && m.entities.contains_key(other) ==> a.entities[other]
                == m.entities[other]
            &&& a.changed_entities.contains(other) <==> m.changed_entities.contains(other) || (other
                == k && given is Some && m.viewers > 0)
            &&& was is Some || given is Some ==> a.cache.len() == 0
            &&& was is None && given is None ==> a.cache == m.cache
            &&& a.sections == m.sections
            &&& a.viewers == m.viewers
            &&& a.changed_biomes == m.changed_biomes
        }),
{
    let k = (x + 16 * z + 256 * y) as u32;
    if let Some(data) = given {
        set_entity_does_just_that(old(c)@, k, data@, other);
    } else {
        remove_entity_does_just_that(old(c)@, k, other);
        remove_entity_does_just_that(old(c)@, k, k);
    }
}

/// Clearing leaves no block entity, and records each that was there, if anyone sees
/// the chunk.
pub proof fn block_entities_are_cleared(c: &mut LoadedChunk, k: u32)
    requires
        call_ensures(LoadedChunk::clear_block_entities, (c,), ()),
    ensures
        ({
            let (m, a) = (old(c)@, final(c)@);
            &&& !a.entities.contains_key(k)
            &&& a.changed_entities.contains(k) <==> m.changed_entities.contains(k) || (
            m.entities.contains_key(k) && m.viewers > 0)
            &&& m.entities.contains_key(k) ==> a.cache.len() == 0
            &&& a.sections == m.sections
            &&& a.viewers == m.viewers
            &&& a.changed_biomes == m.changed_biomes
        }),
{
    clear_entities_does_just_that(old(c)@, k);
}

/// Shrinking changes nothing of what a chunk holds, records or caches.
pub proof fn a_chunk_is_shrunk(c: &mut LoadedChunk, i: int)
    requires
        call_ensures(LoadedChunk::shrink_to_fit, (c,), ()),
        old(c).wf(),
        0 <= i < old(c)@.sections.len(),
    ensures
        ({
            let (m, a) = (old(c)@, final(c)@);
            let values = m.sections[i].blocks.to_set().len();
            &&& a.sections.len() == m.sections.len()
            &&& a.sections[i].blocks == m.sections[i].blocks
            &&& a.sections[i].biomes == m.sections[i].biomes
            &&& a.sections[i].updates == m.sections[i].updates
            &&& a.sections[i].block_form is Single <==> values == 1
            &&& a.sections[i].block_form is Indirect <==> 2 <= values <= 16
            &&& a.entities == m.entities
            &&& a.cache == m.cache
            &&& a.viewers == m.viewers
        }),
{
    chunks_have_full_sections(c);
    shrinking_changes_only_the_form(old(c)@, i);
}

/// What is inserted is then there as far as the chunk is high, and what was there is
/// handed back. Nothing is recorded or cached.
pub proof fn contents_are_exchanged(
    c: &mut LoadedChunk,
    given: UnloadedChunk,
    back: UnloadedChunk,
    i: int,
    k: u32,
)
    requires
        call_ensures(LoadedChunk::insert, (c, given), back),
        0 <= i < old(c)@.sections.len(),
    ensures
        ({
            let (m, a) = (old(c)@, final(c)@);
            &&& back@.sections.len() == m.sections.len()
            &&& back@.sections[i].blocks == m.sections[i].blocks
            &&& back@.sections[i].biomes == m.sections[i].biomes
            &&& back@.entities == m.entities
            &&& a.sections.len() == m.sections.len()
            &&& i < given@.sections.len() ==> a.sections[i] == given@.sections[i]
            &&& i >= given@.sections.len() ==> forall|j: int|
                0 <= j < 4096 ==> (#[trigger] a.sections[i].blocks[j]).air
            &&& a.entities.contains_key(k) <==> given@.entities.contains_key(k) && k < 4096
                * m.sections.len()
            &&& a.entities.contains_key(k) ==> a.entities[k] == given@.entities[k]
            &&& a.viewers == m.viewers
            &&& !a.changed_entities.contains(k)
            &&& !a.changed_biomes
            &&& a.cache.len() == 0
        }),
{
    insert_does_just_that(old(c)@, given@, i, k);
    contents_are_handed_out(old(c)@, i);
}

/// Removing hands back what was there and leaves air.
pub proof fn contents_are_removed(
    c: &mut LoadedChunk,
    back: UnloadedChunk,
    i: int,
    j: int,
    k: u32,
)
    requires
        call_ensures(LoadedChunk::remove, (c,), back),
        0 <= i < old(c)@.sections.len(),
        0 <= j < 4096,
    ensures
        ({
            let (m, a) = (old(c)@, final(c)@);
            &&& back@.sections.len() == m.sections.len()
            &&& back@.sections[i].blocks == m.sections[i].blocks
            &&& back@.sections[i].biomes == m.sections[i].biomes
            &&& back@.entities == m.entities
            &&& a.sections.len() == m.sections.len()
            &&& a.sections[i].blocks[j].air
            &&& a.sections[i].updates.len() == 0
            &&& !a.entities.contains_key(k)
            &&& !a.changed_entities.contains(k)
            &&& !a.changed_biomes
            &&& a.viewers == m.viewers
            &&& a.cache.len() == 0
        }),
{
    remove_does_just_that(old(c)@, i, j, k);
    contents_are_handed_out(old(c)@, i);
}

/// The height of contents is set in whole sections, at the top.
pub proof fn a_height_is_set(chunk: &mut UnloadedChunk, height: u32, i: int, k: u32)
    requires
        call_ensures(UnloadedChunk::set_height, (chunk, height), ()),
        0 <= i < height / 16,
    ensures
        ({
            let (m, a) = (old(chunk)@, final(chunk)@);
            &&& a.sections.len() == height / 16
            &&& i < m.sections.len() ==> a.sections[i] == m.sections[i]
            &&& i >= m.sections.len() ==> forall|j: int|
                0 <= j < 4096 ==> (#[trigger] a.sections[i].blocks[j]).air
            &&& a.entities.contains_key(k) <==> m.entities.contains_key(k) && k < 4096 * (height
                / 16)
            &&& a.entities.contains_key(k) ==> a.entities[k] == m.entities[k]
        }),
{
    set_height_does_just_that(old(chunk)@, (height / 16) as nat, i, k);
}

/// One more viewer is counted, starting over after the greatest count, and nothing
/// else changes.
pub proof fn a_viewer_is_counted(c: &mut LoadedChunk)
    requires
        call_ensures(LoadedChunk::inc_viewer_count, (c,), ()),
    ensures
        old(c)@.viewers < u32::MAX ==> final(c)@.viewers == old(c)@.viewers + 1,
        old(c)@.viewers == u32::MAX ==> final(c)@.viewers == 0,
        final(c)@.sections == old(c)@.sections,
        final(c)@.entities == old(c)@.entities,
        final(c)@.changed_entities == old(c)@.changed_entities,
        final(c)@.changed_biomes == old(c)@.changed_biomes,
        final(c)@.cache == old(c)@.cache,
{
}

/// One viewer less is counted, and nothing else changes.
pub proof fn a_viewer_is_no_longer_counted(c: &mut LoadedChunk)
    requires
        call_ensures(LoadedChunk::dec_viewer_count, (c,), ()),
        old(c)@.viewers > 0,
    ensures
        final(c)@.viewers == old(c)@.viewers - 1,
        final(c)@.sections == old(c)@.sections,
        final(c)@.entities == old(c)@.entities,
        final(c)@.changed_entities == old(c)@.changed_entities,
        final(c)@.changed_biomes == old(c)@.changed_biomes,
        final(c)@.cache == old(c)@.cache,
{
}

/// Viewers are counted without changing anything.
pub proof fn viewers_are_told(c: &mut LoadedChunk, viewers: u32)
    requires
        call_ensures(LoadedChunk::viewer_count_mut, (c,), viewers),
    ensures
        viewers == old(c)@.viewers,
        final(c)@ == old(c)@,
{
}

/// Packets that are stored are cached, and nothing else changes.
pub proof fn packets_are_stored(c: &mut LoadedChunk, bytes: Vec<u8>)
    requires
        call_ensures(LoadedChunk::store_init_packets, (c, bytes), ()),
    ensures
        final(c)@.cache == bytes@,
        final(c)@.viewers == old(c)@.viewers,
        final(c)@.sections == old(c)@.sections,
        final(c)@.entities == old(c)@.entities,
        final(c)@.changed_entities == old(c)@.changed_entities,
        final(c)@.changed_biomes == old(c)@.changed_biomes,
{
}

/// What was told before stays, and a message of the changes stands behind it.
proof fn lemma_told(before: Seq<LocalMsg>, after: Seq<LocalMsg>, told: Seq<MsgModel>, msg: MsgModel)
    requires
        msg_views(after) == msg_views(before) + told,
        told.contains(msg),
    ensures
        exists|i: int| before.len() <= i < after.len() && (#[trigger] after[i])@ == msg,
{
    let n = before.len();
    assert(msg_views(before).len() == n);
    assert(msg_views(after).len() == after.len());
    let j = choose|j: int| 0 <= j < told.len() && told[j] == msg;
    assert(msg_views(after)[n + j] == msg);
    assert(after[n + j]@ == msg);
}

/// Every block entity that changed and is there, at a block with a kind of them, is
/// told of: among the messages that are added is one with its place, kind and data.
pub proof fn updates_tell_of_block_entities(
    c: &mut LoadedChunk,
    pos: ChunkPos,
    info: &ChunkLayerInfo,
    messages: &mut Vec<LocalMsg>,
    k: u32,
    kind: u32,
)
    requires
        call_ensures(LoadedChunk::update_pre_client, (c, pos, info, messages), ()),
        old(c)@.changed_entities.contains(k),
        old(c)@.entities.contains_key(k),
        old(c)@.sections[k as int / 4096].blocks[k as int % 4096].block_entity_kind == Some(kind),
        -0x800_0000 <= pos.x < 0x800_0000,
        -0x800_0000 <= pos.z < 0x800_0000,
        info.min_y + k / 256 <= i32::MAX,
    ensures
        exists|i: int|
            old(messages)@.len() <= i < final(messages)@.len() && match (
            #[trigger] final(messages)@[i]) {
                LocalMsg::PacketAt {
                    pos: at,
                    threshold,
                    packet: ChunkPacket::BlockEntityData { location, kind: told, data },
                } => {
                    &&& at == pos
                    &&& threshold == info.threshold
                    &&& location.x == 16 * pos.x + k % 16
                    &&& location.y == info.min_y + k / 256
                    &&& location.z == 16 * pos.z + k / 16 % 16
                    &&& told == kind
                    &&& data@ == old(c)@.entities[k]
                },
                _ => false,
            },
{
    let m = old(c)@;
    let msg = entity_message(m, pos, *info, k, kind);
    every_changed_entity_is_told(m, pos, *info, k, kind);
    lemma_told(old(messages)@, final(messages)@, change_messages(m, pos, *info), msg);
    let i = choose|i: int|
        old(messages)@.len() <= i < final(messages)@.len() && (#[trigger] final(messages)@[i])@
            == msg;
    assert(final(messages)@[i]@ == msg);
}

/// Every section with recorded changes is told of: one that has a single change with
/// the place and the new id, and one that has more with all of them in order.
pub proof fn updates_tell_of_blocks(
    c: &mut LoadedChunk,
    pos: ChunkPos,
    info: &ChunkLayerInfo,
    messages: &mut Vec<LocalMsg>,
    s: int,
)
    requires
        call_ensures(LoadedChunk::update_pre_client, (c, pos, info, messages), ()),
        0 <= s < old(c)@.sections.len(),
        old(c)@.sections[s].updates.len() > 0,
    ensures
        old(c)@.sections[s].updates.len() == 1 ==> exists|i: int|
            old(messages)@.len() <= i < final(messages)@.len() && (
            #[trigger] final(messages)@[i])@ == one_block_message(old(c)@, pos, *info, s),
        old(c)@.sections[s].updates.len() > 1 ==> exists|i: int|
            old(messages)@.len() <= i < final(messages)@.len() && (
            #[trigger] final(messages)@[i])@ == many_blocks_message(old(c)@, pos, *info, s),
{
    let m = old(c)@;
    let told = change_messages(m, pos, *info);
    every_changed_section_is_told(m, pos, *info, s);
    if m.sections[s].updates.len() == 1 {
        lemma_told(
            old(messages)@,
            final(messages)@,
            told,
            one_block_message(m, pos, *info, s),
        );
    } else {
        lemma_told(
            old(messages)@,
            final(messages)@,
            told,
            many_blocks_message(m, pos, *info, s),
        );
    }
}

/// A change of biomes is told of last, with the biomes of all sections.
pub proof fn updates_tell_of_biomes(
    c: &mut LoadedChunk,
    pos: ChunkPos,
    info: &ChunkLayerInfo,
    messages: &mut Vec<LocalMsg>,
    s: int,
)
    requires
        call_ensures(LoadedChunk::update_pre_client, (c, pos, info, messages), ()),
        old(c)@.changed_biomes,
        0 <= s < old(c)@.sections.len(),
        info.biome_registry_len > 0,
    ensures
        final(messages)@.len() > old(messages)@.len(),
        match final(messages)@.last() {
            LocalMsg::ChangeBiome { pos: at, biomes, format } => {
                &&& at == pos
                &&& biomes@.len() == old(c)@.sections.len()
                &&& biomes@[s]@ == old(c)@.sections[s].biomes
                &&& format.min_indirect_bits == 0
                &&& format.max_indirect_bits == 3
            },
            _ => false,
        },
{
    let m = old(c)@;
    changed_biomes_are_told(m, pos, *info, s);
    let after = final(messages)@;
    let told = change_messages(m, pos, *info);
    assert(msg_views(after).len() == after.len());
    assert(msg_views(old(messages)@).len() == old(messages)@.len());
    assert(msg_views(after).last() == told.last());
    assert(after.last()@ == told.last());
    if let LocalMsg::ChangeBiome { biomes, .. } = after.last() {
        let views = biome_views(biomes@);
        assert(views.len() == biomes@.len());
        assert(views[s] == (biomes@[s]@, biomes@[s].form()));
    }
}

/// What was told before stays as it was, and once changes are told nothing is
/// recorded any more, while all that the chunk holds stays.
pub proof fn updates_leave_nothing_recorded(
    c: &mut LoadedChunk,
    pos: ChunkPos,
    info: &ChunkLayerInfo,
    messages: &mut Vec<LocalMsg>,
    s: int,
    k: u32,
    i: int,
)
    requires
        call_ensures(LoadedChunk::update_pre_client, (c, pos, info, messages), ()),
        0 <= s < old(c)@.sections.len(),
        0 <= i < old(messages)@.len(),
    ensures
        final(messages)@.len() >= old(messages)@.len(),
        final(messages)@[i]@ == old(messages)@[i]@,
        ({
            let (m, a) = (old(c)@, final(c)@);
            &&& a.sections[s].updates.len() == 0
            &&& !a.changed_entities.contains(k)
            &&& !a.changed_biomes
            &&& a.sections[s].blocks == m.sections[s].blocks
            &&& a.sections[s].biomes == m.sections[s].biomes
            &&& a.entities == m.entities
            &&& a.viewers == m.viewers
            &&& a.cache == m.cache
        }),
{
    telling_clears_what_is_recorded(old(c)@, s, k);
    assert(msg_views(final(messages)@).len() == final(messages)@.len());
    assert(msg_views(old(messages)@).len() == old(messages)@.len());
    assert(msg_views(final(messages)@)[i] == final(messages)@[i]@);
    assert(msg_views(old(messages)@)[i] == old(messages)@[i]@);
}

/// A block entity that is taken for changing is the one there, and what is made of it
/// then stands there. It is recorded, if anyone sees the chunk, and the cached packets
/// are dropped. Where there is none, nothing happens.
pub proof fn a_block_entity_is_changed(
    c: &mut LoadedChunk,
    x: u32,
    y: u32,
    z: u32,
    r: Option<&mut Compound>,
    other: u32,
)
    requires
        call_ensures(LoadedChunk::block_entity_mut, (c, x, y, z), r),
        x + 16 * z + 256 * y <= u32::MAX,
    ensures
        ({
            let (m, a) = (old(c)@, final(c)@);
            let k = (x + 16 * z + 256 * y) as u32;
            &&& r is Some <==> m.entities.contains_key(k)
            &&& r is None ==> a == m
            &&& r matches Some(e) ==> {
                &&& e@ == m.entities[k]
                &&& a.entities.contains_key(k)
                &&& a.entities[k] == final(e)@
                &&& a.cache.len() == 0
            }
            &&& other != k ==> (a.entities.contains_key(other) <==> m.entities.contains_key(other))
            &&& other != k && m.entities.contains_key(other) ==> a.entities[other]
                == m.entities[other]
            &&& a.changed_entities.contains(other) <==> m.changed_entities.contains(other) || (other
                == k && r is Some && m.viewers > 0)
            &&& a.sections == m.sections
            &&& a.viewers == m.viewers
        }),
{
    let k = (x + 16 * z + 256 * y) as u32;
    if let Some(e) = r {
        set_entity_does_just_that(old(c)@, k, final(e)@, other);
    }
}

/// Setting a cell of a container sets that cell alone and hands back what it held.
pub proof fn a_cell_is_set<T: Cell, const LEN: usize>(
    c: &mut PalettedContainer<T, LEN>,
    idx: usize,
    val: T,
    was: T,
    i: int,
)
    requires
        call_ensures(PalettedContainer::<T, LEN>::set, (c, idx, val), was),
        old(c).wf(),
        idx < LEN,
        0 <= i < LEN,
    ensures
        was == old(c)@[idx as int],
        final(c)@.len() == LEN,
        final(c)@[i] == (if i == idx {
            val
        } else {
            old(c)@[i]
        }),
        old(c).form() is Direct ==> final(c).form() is Direct,
        !(old(c).form() is Single) ==> !(final(c).form() is Single),
        old(c).form() is Single ==> !(final(c).form() is Direct),
{
    containers_hold_their_form(*old(c), i);
    containers_hold_their_form(*old(c), idx as int);
    palettes_grow_at_the_end(old(c).form(), LEN as nat, idx as int, val);
}

/// Filling a container puts the value into every cell, as one value.
pub proof fn all_cells_are_set<T: Cell, const LEN: usize>(
    c: &mut PalettedContainer<T, LEN>,
    val: T,
    i: int,
)
    requires
        call_ensures(PalettedContainer::<T, LEN>::fill, (c, val), ()),
        0 <= i < LEN,
    ensures
        final(c)@.len() == LEN,
        final(c)@[i] == val,
        final(c).form() == Form::Single(val),
{
}

/// Shrinking a container keeps the value of every cell, and stores them as few as
/// there are.
pub proof fn a_container_is_shrunk<T: Cell, const LEN: usize>(c: &mut PalettedContainer<T, LEN>)
    requires
        call_ensures(PalettedContainer::<T, LEN>::shrink_to_fit, (c,), ()),
        old(c).wf(),
    ensures
        final(c)@ == old(c)@,
        final(c).form() is Single <==> old(c)@.to_set().len() == 1,
        final(c).form() is Indirect <==> 2 <= old(c)@.to_set().len() <= 16,
{
    assert(old(c)@.len() == LEN);
    smallest_form_holds(old(c)@);
}

/// A cell is read as it is held, and a copy holds the same, stored alike.
pub proof fn cells_are_read_and_copied<T: Cell, const LEN: usize>(
    c: &PalettedContainer<T, LEN>,
    idx: usize,
    val: T,
    copy: PalettedContainer<T, LEN>,
)
    requires
        call_ensures(PalettedContainer::<T, LEN>::get, (c, idx), val),
        call_ensures(PalettedContainer::<T, LEN>::duplicate, (c,), copy),
        c.wf(),
        idx < LEN,
    ensures
        val == (match c {
            PalettedContainer::Single(v) => *v,
            PalettedContainer::Indirect(ind) => ind.palette@[ind.indices@[idx as int] as int],
            PalettedContainer::Direct(values) => values@[idx as int],
        }),
        copy@ == c@,
        copy.form() == c.form(),
{
    containers_hold_their_form(*c, idx as int);
}

/// Keys are handed out from the least up, each once and none left out.
pub proof fn keys_are_handed_out_in_order(
    entities: &BTreeMap<u32, Compound>,
    keys: Vec<u32>,
    changed: &BTreeSet<u32>,
    members: Vec<u32>,
    i: int,
    j: int,
    k: u32,
)
    requires
        call_ensures(map_keys, (entities,), keys),
        call_ensures(set_keys, (changed,), members),
    ensures
        0 <= i < j < keys@.len() ==> keys@[i] < keys@[j],
        keys@.contains(k) <==> entities@.contains_key(k),
        0 <= i < j < members@.len() ==> members@[i] < members@[j],
        members@.contains(k) <==> changed@.contains(k),
{
    lemma_ascending(entities@.dom());
    lemma_ascending(changed@);
    assert(keys@.contains(k) <==> entities@.dom().contains(k));
    assert(members@.contains(k) <==> changed@.contains(k));
}

/// The light of a section is added to what is sent, or reported dark, or neither.
pub proof fn light_is_added(
    light: &LightSection,
    arrays: &mut Vec<[u8; 2048]>,
    mask: &mut LightMask,
    dark: &mut LightMask,
    i: usize,
    is_block_light: bool,
    j: int,
)
    requires
        call_ensures(fill_light_data, (light, arrays, mask, dark, i, is_block_light), ()),
        i < old(mask)@.len(),
        i < old(dark)@.len(),
        0 <= j < 2048,
    ensures
        match *light {
            LightSection::NotSet => {
                &&& final(arrays)@ == old(arrays)@
                &&& final(mask)@ == old(mask)@
                &&& is_block_light ==> final(dark)@ == old(dark)@.update(i as int, true)
                &&& !is_block_light ==> final(dark)@ == old(dark)@
            },
            LightSection::Single(b) => {
                &&& b == 0 ==> final(arrays)@ == old(arrays)@ && final(mask)@ == old(mask)@
                    && final(dark)@ == old(dark)@.update(i as int, true)
                &&& b != 0 ==> {
                    &&& final(arrays)@.len() == old(arrays)@.len() + 1
                    &&& final(arrays)@.last()@[j] == b
                    &&& final(mask)@ == old(mask)@.update(i as int, true)
                    &&& final(dark)@ == old(dark)@
                }
            },
            LightSection::FullData(data) => {
                &&& final(arrays)@.len() == old(arrays)@.len() + 1
                &&& final(arrays)@.last()@ == data@
                &&& final(mask)@ == old(mask)@.update(i as int, true)
                &&& final(dark)@ == old(dark)@
            },
        },
{
    light_is_sent_or_reported(*light, is_block_light, j);
    assert(array_views(final(arrays)@).len() == final(arrays)@.len());
    assert(array_views(old(arrays)@).len() == old(arrays)@.len());
    if light.sent() is Some {
        assert(array_views(final(arrays)@).last() == final(arrays)@.last()@);
    }
}

/// What is collected of the light of sections says of each whether it is sent and
/// whether it is dark.
pub proof fn light_is_collected(
    lights: &Vec<LightSection>,
    is_block_light: bool,
    data: LightData,
    i: int,
)
    requires
        call_ensures(LightData::collect, (lights, is_block_light), data),
        0 <= i < lights@.len(),
    ensures
        ({
            let bit = (i % 64) as u64;
            &&& data.mask@.len() == (lights@.len() + 63) / 64
            &&& data.empty_mask@.len() == (lights@.len() + 63) / 64
            &&& (data.mask@[i / 64] >> bit) & 1 == 1 <==> match lights@[i] {
                LightSection::NotSet => false,
                LightSection::Single(b) => b != 0,
                LightSection::FullData(_) => true,
            }
            &&& (data.empty_mask@[i / 64] >> bit) & 1 == 1 <==> match lights@[i] {
                LightSection::NotSet => is_block_light,
                LightSection::Single(b) => b == 0,
                LightSection::FullData(_) => false,
            }
        }),
{
    light_data_tells_of_each_section(data, lights@, is_block_light, i);
    light_is_sent_or_reported(lights@[i], is_block_light, 0);
}

/// As many bits are found as the number needs, and no more.
pub proof fn widths_are_just_enough(n: usize, width: usize)
    requires
        call_ensures(bit_width, (n,), width),
    ensures
        n < pow2(width as nat),
        n > 0 ==> width > 0 && pow2((width - 1) as nat) <= n,
{
    digits_reach_just_far_enough(n as nat);
}

/// Each change is told of once: what is added is one message for each section with
/// recorded changes, from the bottom up, then one for each changed block entity that
/// is there at a block with a kind of them, by index, and then one for the biomes, if
/// they changed.
pub proof fn updates_tell_of_each_change_once(
    c: &mut LoadedChunk,
    pos: ChunkPos,
    info: &ChunkLayerInfo,
    messages: &mut Vec<LocalMsg>,
) -> (r: (Seq<int>, Seq<(u32, u32)>))
    requires
        call_ensures(LoadedChunk::update_pre_client, (c, pos, info, messages), ()),
    ensures
        ({
            let m = old(c)@;
            let (sections, entities) = r;
            let n = old(messages)@.len();
            let all = final(messages)@;
            &&& all.len() == n + sections.len() + entities.len() + (if m.changed_biomes {
                1int
            } else {
                0
            })
            &&& forall|a: int, b: int|
                0 <= a < b < sections.len() ==> #[trigger] sections[a] < #[trigger] sections[b]
            &&& forall|a: int|
                0 <= a < sections.len() ==> {
                    let i = #[trigger] sections[a];
                    let u = m.sections[i].updates;
                    &&& 0 <= i < m.sections.len()
                    &&& u.len() > 0
                    &&& all[n + a]@ == (if u.len() == 1 {
                        one_block_message(m, pos, *info, i)
                    } else {
                        many_blocks_message(m, pos, *info, i)
                    })
                }
            &&& forall|a: int, b: int|
                0 <= a < b < entities.len() ==> (#[trigger] entities[a]).0 < (
                #[trigger] entities[b]).0
            &&& forall|a: int|
                0 <= a < entities.len() ==> {
                    let (k, kind) = #[trigger] entities[a];
                    &&& m.changed_entities.contains(k)
                    &&& has_entity(m, k, kind)
                    &&& all[n + sections.len() + a]@ == entity_message(m, pos, *info, k, kind)
                }
        }),
{
    let m = old(c)@;
    let n = old(messages)@.len();
    let all = final(messages)@;
    let told = change_messages(m, pos, *info);
    let (sections, entities) = only_changes_are_told(m, pos, *info);
    assert(msg_views(all).len() == all.len());
    assert(msg_views(old(messages)@).len() == n);
    assert forall|j: int| 0 <= j < told.len() implies all[n + j]@ == #[trigger] told[j] by {
        assert(msg_views(all)[n + j] == all[n + j]@);
    }
    assert forall|a: int| 0 <= a < sections.len() implies {
        let i = #[trigger] sections[a];
        let u = m.sections[i].updates;
        &&& 0 <= i < m.sections.len()
        &&& u.len() > 0
        &&& all[n + a]@ == (if u.len() == 1 {
            one_block_message(m, pos, *info, i)
        } else {
            many_blocks_message(m, pos, *info, i)
        })
    } by {
        assert(all[n + a]@ == told[a]);
    }
    assert forall|a: int| 0 <= a < entities.len() implies {
        let (k, kind) = #[trigger] entities[a];
        &&& m.changed_entities.contains(k)
        &&& has_entity(m, k, kind)
        &&& all[n + sections.len() + a]@ == entity_message(m, pos, *info, k, kind)
    } by {
        assert(all[n + (sections.len() + a)]@ == told[sections.len() + a]);
    }
    (sections, entities)
}

/// Where nobody sees a chunk, nobody is told anything.
pub proof fn unseen_chunks_tell_nothing(
    c: &mut LoadedChunk,
    pos: ChunkPos,
    info: &ChunkLayerInfo,
    messages: &mut Vec<LocalMsg>,
)
    requires
        call_ensures(LoadedChunk::update_pre_client, (c, pos, info, messages), ()),
        old(c)@.viewers == 0,
    ensures
        final(messages)@ == old(messages)@,
{
}

/// A mask begins without a bit set, and gets just the one that is set.
pub proof fn bits_are_set_one_by_one(
    count: usize,
    fresh: LightMask,
    mask: &mut LightMask,
    i: usize,
    j: int,
)
    requires
        call_ensures(LightMask::new, (count,), fresh),
        call_ensures(LightMask::set, (mask, i), ()),
        i < old(mask)@.len(),
        0 <= j,
    ensures
        fresh@.len() == count,
        j < count ==> !fresh@[j],
        final(mask)@.len() == old(mask)@.len(),
        j < old(mask)@.len() ==> (final(mask)@[j] <==> j == i || old(mask)@[j]),
{
}

} // verus!
