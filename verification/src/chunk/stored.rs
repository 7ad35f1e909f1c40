//! How values are stored, and how what is stored is sent.

use vstd::prelude::*;

use super::block::ChunkPos;
use super::init::{can_be_shown, non_air, LevelChunkWithLight};
use super::light::array_views;
use super::message::{can_be_told, entity_kind, ChunkLayerInfo};
use super::model::ChunkModel;
use super::palette::{first_occurrences, smallest_form_holds, Form, PalettedContainer};
use super::sent::has_entity;
use super::shown::{chunk_parts, PartModel};

verus! {

/// The value of a cell is the one value, the one that its index picks out of the
/// palette, or its own.
pub proof fn cells_hold_what_the_form_says<T>(form: Form<T>, len: nat, i: int)
    requires
        form.wf(len),
        0 <= i < len,
    ensures
        form.values(len).len() == len,
        form.values(len)[i] == (match form {
            Form::Single(v) => v,
            Form::Indirect { palette, indices } => palette[indices[i] as int],
            Form::Direct(values) => values[i],
        }),
        match form {
            Form::Single(_) => true,
            Form::Indirect { palette, indices } => {
                &&& indices.len() == len
                &&& indices[i] < palette.len()
                &&& 2 <= palette.len() <= 16
                &&& palette.no_duplicates()
            },
            Form::Direct(values) => values.len() == len,
        },
{
}

/// A container holds the values of its form, and is well formed just where that is.
pub proof fn containers_hold_their_form<T, const LEN: usize>(
    c: PalettedContainer<T, LEN>,
    i: int,
)
    requires
        c.wf(),
        0 <= i < LEN,
    ensures
        c.form().wf(LEN as nat),
        c@.len() == LEN,
        c@[i] == c.form().at(i),
        match c {
            PalettedContainer::Single(v) => c@[i] == v,
            PalettedContainer::Indirect(ind) => c@[i] == ind.palette@[ind.indices@[i] as int],
            PalettedContainer::Direct(values) => c@[i] == values@[i],
        },
{
}

/// A cell that holds the value already leaves all as it is. A second value makes a
/// palette of the first and itself, a further one goes to the end of the palette,
/// and the seventeenth makes that values are stored one by one, as they then stay.
pub proof fn palettes_grow_at_the_end<T>(form: Form<T>, len: nat, i: int, val: T)
    requires
        form.wf(len),
        0 <= i < len,
    ensures
        ({
            let after = form.with(len, i, val);
            &&& form.at(i) == val ==> after == form
            &&& form.at(i) != val ==> match form {
                Form::Single(v) => match after {
                    Form::Indirect { palette, .. } => {
                        palette.len() == 2 && palette[0] == v && palette[1] == val
                    },
                    _ => false,
                },
                Form::Indirect { palette, .. } => match after {
                    Form::Single(_) => false,
                    Form::Indirect { palette: grown, .. } => {
                        &&& palette.contains(val) ==> grown == palette
                        &&& !palette.contains(val) ==> {
                            &&& palette.len() < 16
                            &&& grown.len() == palette.len() + 1
                            &&& grown.last() == val
                            &&& grown.drop_last() == palette
                        }
                    },
                    Form::Direct(_) => palette.len() == 16 && !palette.contains(val),
                },
                Form::Direct(_) => after is Direct,
            }
        }),
{
    if let Form::Indirect { palette, .. } = form {
        assert(palette.push(val).drop_last() =~= palette);
    }
}

/// What of two values of a palette stands first in it occurs before the other.
proof fn lemma_order_of_use<T>(values: Seq<T>, k: int, l: int) -> (i: int)
    requires
        0 <= k < first_occurrences(values).len(),
        k < l,
    ensures
        0 <= i < values.len(),
        values[i] == first_occurrences(values)[k],
        l < first_occurrences(values).len() ==> forall|j: int|
            0 <= j <= i ==> #[trigger] values[j] != first_occurrences(values)[l],
    decreases values.len(),
{
    let rest = values.drop_last();
    let before = first_occurrences(rest);
    let all = first_occurrences(values);
    if k < before.len() {
        let i = lemma_order_of_use(rest, k, l);
        assert(values[i] == rest[i]);
        if l < all.len() {
            assert forall|j: int| 0 <= j <= i implies #[trigger] values[j] != all[l] by {
                assert(values[j] == rest[j]);
                if l >= before.len() {
                    lemma_used(rest, j);
                }
            }
        }
        i
    } else {
        values.len() - 1
    }
}

/// Every value is among the first occurrences.
proof fn lemma_used<T>(values: Seq<T>, j: int)
    requires
        0 <= j < values.len(),
    ensures
        first_occurrences(values).contains(values[j]),
    decreases values.len(),
{
    let before = first_occurrences(values.drop_last());
    let all = first_occurrences(values);
    if j < values.len() - 1 {
        lemma_used(values.drop_last(), j);
        let k = choose|k: int| 0 <= k < before.len() && before[k] == values.drop_last()[j];
        assert(all[k] == values[j]);
    } else if !before.contains(values.last()) {
        assert(all[before.len() as int] == values[j]);
    }
}

/// In the smallest form the palette begins with the value of the first cell, and
/// goes on with the others in the order in which they first occur; one value for
/// all cells is that of the first, and values stored one by one stand as they were.
pub proof fn smallest_palettes_are_in_order_of_use<T>(values: Seq<T>, k: int, l: int) -> (i: int)
    requires
        values.len() > 0,
        0 <= k < l,
    ensures
        match Form::smallest(values) {
            Form::Single(v) => v == values[0],
            Form::Indirect { palette, .. } => {
                &&& palette[0] == values[0]
                &&& l < palette.len() ==> {
                    &&& 0 <= i < values.len()
                    &&& values[i] == palette[k]
                    &&& forall|j: int| 0 <= j <= i ==> #[trigger] values[j] != palette[l]
                }
            },
            Form::Direct(all) => all == values,
        },
{
    smallest_form_holds(values);
    lemma_first_value(values);
    if l < first_occurrences(values).len() {
        lemma_order_of_use(values, k, l)
    } else {
        0
    }
}

/// The first of the first occurrences is the first value.
proof fn lemma_first_value<T>(values: Seq<T>)
    requires
        values.len() > 0,
    ensures
        first_occurrences(values).len() > 0,
        first_occurrences(values)[0] == values[0],
    decreases values.len(),
{
    if values.len() > 1 {
        lemma_first_value(values.drop_last());
    } else {
        assert(first_occurrences(values.drop_last()).len() == 0);
    }
}

/// What is sent for a chunk's sections: for each, one after the other from the
/// bottom up, the count of its blocks that are not air, then its blocks, then its
/// biomes, and nothing else.
pub proof fn sections_are_sent_part_by_part(m: ChunkModel, info: ChunkLayerInfo, i: int)
    requires
        0 <= i < m.sections.len(),
    ensures
        chunk_parts(m, info).len() == 3 * m.sections.len(),
        chunk_parts(m, info)[3 * i] == PartModel::Count(
            non_air(m.sections[i].blocks, 4096) as u16,
        ),
        chunk_parts(m, info)[3 * i + 1] == PartModel::Blocks(
            m.sections[i].block_form,
            info.spec_block_format(),
        ),
        chunk_parts(m, info)[3 * i + 2] == PartModel::Biomes(
            m.sections[i].biome_form,
            info.spec_biome_format(),
        ),
{
    assert((3 * i) / 3 == i && (3 * i) % 3 == 0);
    assert((3 * i + 1) / 3 == i && (3 * i + 1) % 3 == 1);
    assert((3 * i + 2) / 3 == i && (3 * i + 2) % 3 == 2);
}

/// What a packet sends for its sections, part by part.
pub proof fn packets_send_their_sections_part_by_part(p: &LevelChunkWithLight, i: int)
    requires
        0 <= i < p.sections@.len(),
    ensures
        p.spec_section_parts().len() == 3 * p.sections@.len(),
        p.spec_section_parts()[3 * i] == PartModel::Count(p.sections@[i].non_air_blocks),
        p.spec_section_parts()[3 * i + 1] == PartModel::Blocks(
            p.sections@[i].block_states.form(),
            p.block_format,
        ),
        p.spec_section_parts()[3 * i + 2] == PartModel::Biomes(
            p.sections@[i].biomes.form(),
            p.biome_format,
        ),
{
    assert((3 * i) / 3 == i && (3 * i) % 3 == 0);
    assert((3 * i + 1) / 3 == i && (3 * i + 1) % 3 == 1);
    assert((3 * i + 2) / 3 == i && (3 * i + 2) % 3 == 2);
}

/// Packets that say the same agree in all that is sent.
pub proof fn packets_say_all_that_is_sent(p: &LevelChunkWithLight, q: &LevelChunkWithLight, i: int)
    requires
        p@ == q@,
    ensures
        p.threshold == q.threshold,
        p.pos == q.pos,
        p.heightmaps@.len() == q.heightmaps@.len(),
        0 <= i < p.heightmaps@.len() ==> p.heightmaps@[i].kind == q.heightmaps@[i].kind
            && p.heightmaps@[i].data@ == q.heightmaps@[i].data@,
        p.sections@.len() == q.sections@.len(),
        0 <= i < p.sections@.len() ==> {
            &&& p.sections@[i].non_air_blocks == q.sections@[i].non_air_blocks
            &&& p.sections@[i].block_states.form() == q.sections@[i].block_states.form()
            &&& p.sections@[i].biomes.form() == q.sections@[i].biomes.form()
        },
        p.block_format == q.block_format,
        p.biome_format == q.biome_format,
        p.block_entities@.len() == q.block_entities@.len(),
        0 <= i < p.block_entities@.len() ==> {
            let (a, b) = (p.block_entities@[i], q.block_entities@[i]);
            &&& a.packed_xz == b.packed_xz
            &&& a.y == b.y
            &&& a.kind == b.kind
            &&& a.data@ == b.data@
        },
        p.sky_light_mask@ == q.sky_light_mask@,
        p.block_light_mask@ == q.block_light_mask@,
        p.empty_sky_light_mask@ == q.empty_sky_light_mask@,
        p.empty_block_light_mask@ == q.empty_block_light_mask@,
        p.sky_light_arrays@.len() == q.sky_light_arrays@.len(),
        0 <= i < p.sky_light_arrays@.len() ==> p.sky_light_arrays@[i]@ == q.sky_light_arrays@[i]@,
        p.block_light_arrays@.len() == q.block_light_arrays@.len(),
        0 <= i < p.block_light_arrays@.len() ==> p.block_light_arrays@[i]@
            == q.block_light_arrays@[i]@,
{
    assert(p@.heightmaps.len() == p.heightmaps@.len());
    assert(q@.heightmaps.len() == q.heightmaps@.len());
    if 0 <= i < p.heightmaps@.len() {
        assert(p@.heightmaps[i] == (p.heightmaps@[i].kind, p.heightmaps@[i].data@));
        assert(q@.heightmaps[i] == (q.heightmaps@[i].kind, q.heightmaps@[i].data@));
    }
    assert(p@.sections.len() == p.sections@.len());
    assert(q@.sections.len() == q.sections@.len());
    if 0 <= i < p.sections@.len() {
        let (s, t) = (p.sections@[i], q.sections@[i]);
        assert(p@.sections[i] == (s.non_air_blocks, s.block_states.form(), s.biomes.form()));
        assert(q@.sections[i] == (t.non_air_blocks, t.block_states.form(), t.biomes.form()));
    }
    assert(p@.block_entities.len() == p.block_entities@.len());
    assert(q@.block_entities.len() == q.block_entities@.len());
    if 0 <= i < p.block_entities@.len() {
        assert(p@.block_entities[i] == p.block_entities@[i]@);
        assert(q@.block_entities[i] == q.block_entities@[i]@);
    }
    assert(array_views(p.sky_light_arrays@).len() == p.sky_light_arrays@.len());
    assert(array_views(q.sky_light_arrays@).len() == q.sky_light_arrays@.len());
    if 0 <= i < p.sky_light_arrays@.len() {
        assert(array_views(p.sky_light_arrays@)[i] == p.sky_light_arrays@[i]@);
        assert(array_views(q.sky_light_arrays@)[i] == q.sky_light_arrays@[i]@);
    }
    assert(array_views(p.block_light_arrays@).len() == p.block_light_arrays@.len());
    assert(array_views(q.block_light_arrays@).len() == q.block_light_arrays@.len());
    if 0 <= i < p.block_light_arrays@.len() {
        assert(array_views(p.block_light_arrays@)[i] == p.block_light_arrays@[i]@);
        assert(array_views(q.block_light_arrays@)[i] == q.block_light_arrays@[i]@);
    }
}

/// Changes can be told just where nothing is recorded that nobody sees, the
/// positions of blocks that changed alone and of changed block entities fit, and
/// there are biomes, if those of any section changed.
pub proof fn changes_can_be_told_where_positions_fit(
    m: ChunkModel,
    pos: ChunkPos,
    info: ChunkLayerInfo,
)
    ensures
        can_be_told(m, pos, info) <==> {
            let near = -0x800_0000 <= pos.x < 0x800_0000 && -0x800_0000 <= pos.z < 0x800_0000;
            &&& m.viewers == 0 ==> m.no_changes()
            &&& forall|i: int|
                0 <= i < m.sections.len() && (#[trigger] m.sections[i]).updates.len() == 1 ==> near
                    && info.min_y + 16 * i + m.sections[i].updates[0].off_y <= i32::MAX
            &&& forall|k: u32, kind: u32|
                m.changed_entities.contains(k) && #[trigger] has_entity(m, k, kind) ==> near
                    && info.min_y + k / 256 <= i32::MAX
            &&& m.changed_biomes && m.sections.len() > 0 ==> info.biome_registry_len > 0
        },
{
    let near = -0x800_0000 <= pos.x < 0x800_0000 && -0x800_0000 <= pos.z < 0x800_0000;
    if can_be_told(m, pos, info) {
        assert forall|k: u32, kind: u32|
            m.changed_entities.contains(k) && #[trigger] has_entity(m, k, kind) implies near
            && info.min_y + k / 256 <= i32::MAX by {
            assert(m.changed_entities.contains(k));
        }
    } else {
        assert forall|k: u32| #[trigger]
            m.changed_entities.contains(k) && m.entities.contains_key(k)
                && entity_kind(m, k) is Some implies has_entity(
            m,
            k,
            entity_kind(m, k)->0,
        ) by {}
    }
}

/// A chunk can be shown just where there are biomes, if it has any section, and the
/// heights of the block entities that are sent fit.
pub proof fn chunks_can_be_shown_where_heights_fit(m: ChunkModel, info: ChunkLayerInfo)
    ensures
        can_be_shown(m, info) <==> {
            &&& m.sections.len() > 0 ==> info.biome_registry_len > 0
            &&& forall|k: u32, kind: u32| #[trigger]
                has_entity(m, k, kind) ==> -0x8000 <= (k / 256) as i16 + (info.min_y as i16)
                    < 0x8000
        },
{
    if can_be_shown(m, info) {
        assert forall|k: u32, kind: u32| #[trigger] has_entity(m, k, kind) implies -0x8000 <= (k
            / 256) as i16 + (info.min_y as i16) < 0x8000 by {
            assert(m.entities.contains_key(k));
        }
    } else {
        assert forall|k: u32| #[trigger]
            m.entities.contains_key(k) && entity_kind(m, k) is Some implies has_entity(
            m,
            k,
            entity_kind(m, k)->0,
        ) by {}
    }
}

} // verus!
