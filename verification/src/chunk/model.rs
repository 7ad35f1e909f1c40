//! What a loaded chunk is, apart from how it is stored, and what each change
//! does to it.

use vstd::prelude::*;

use super::block::{biome_index, block_index, BiomeId, BlockState};
use super::heightmap::{occupies, HeightMapKind};
use super::light::LightSection;
use super::palette::Form;

verus! {

/// A block that changed in a section: its offsets there and the id of its new
/// state.
#[derive(Clone, Copy, Debug, PartialEq, Eq, Structural)]
pub struct ChunkDeltaUpdateEntry {
    pub off_x: u8,
    pub off_y: u8,
    pub off_z: u8,
    pub block_state: u32,
}

impl ChunkDeltaUpdateEntry {
    /// The offsets lie in the section and the state has a 16-bit id.
    pub open spec fn wf(self) -> bool {
        &&& self.off_x < 16
        &&& self.off_y < 16
        &&& self.off_z < 16
        &&& self.block_state <= 0xffff
    }

    /// The entry for the block at these offsets.
    pub open spec fn of(x: int, y: int, z: int, block: BlockState) -> ChunkDeltaUpdateEntry {
        ChunkDeltaUpdateEntry {
            off_x: x as u8,
            off_y: y as u8,
            off_z: z as u8,
            block_state: block.raw as u32,
        }
    }
}

/// A section of a chunk.
#[verifier::ext_equal]
pub struct SectionModel {
    pub blocks: Seq<BlockState>,
    /// How the blocks are stored.
    pub block_form: Form<BlockState>,
    pub biomes: Seq<BiomeId>,
    /// How the biomes are stored.
    pub biome_form: Form<BiomeId>,
    /// The recorded block changes, the earliest first.
    pub updates: Seq<ChunkDeltaUpdateEntry>,
}

/// A chunk with its clients' view of it.
#[verifier::ext_equal]
pub struct ChunkModel {
    /// How many clients see the chunk.
    pub viewers: u32,
    pub sections: Seq<SectionModel>,
    pub sky_light: Seq<LightSection>,
    pub block_light: Seq<LightSection>,
    /// The block entities by the index of their block.
    pub entities: Map<u32, Seq<u8>>,
    /// The block entities with a recorded change.
    pub changed_entities: Set<u32>,
    /// Whether a change of biomes is recorded.
    pub changed_biomes: bool,
    /// The encoded packets that show the chunk to a client, empty if not known.
    pub cache: Seq<u8>,
}

/// The part of a chunk that a client is shown.
#[verifier::ext_equal]
pub struct ChunkContent {
    pub blocks: Seq<Seq<BlockState>>,
    pub biomes: Seq<Seq<BiomeId>>,
    pub sky_light: Seq<LightSection>,
    pub block_light: Seq<LightSection>,
    pub entities: Map<u32, Seq<u8>>,
}

/// The index of the block at `(x, y, z)` of a chunk.
pub open spec fn entity_index(x: int, y: int, z: int) -> int {
    x + z * 16 + y * 256
}

/// The offsets of block `n` in the order in which a whole section is recorded: by
/// z, then x, then y.
pub open spec fn fill_offsets(n: int) -> (int, int, int) {
    ((n / 16) % 16, n % 16, n / 256)
}

/// The entries for those of the first `n` blocks, in recording order, that
/// differ from `block`.
pub open spec fn fill_entries(blocks: Seq<BlockState>, block: BlockState, n: nat) -> Seq<
    ChunkDeltaUpdateEntry,
>
    decreases n,
{
    if n == 0 {
        Seq::empty()
    } else {
        let before = fill_entries(blocks, block, (n - 1) as nat);
        let (x, y, z) = fill_offsets(n - 1);
        if blocks[block_index(x, y, z)] != block {
            before.push(ChunkDeltaUpdateEntry::of(x, y, z, block))
        } else {
            before
        }
    }
}

impl SectionModel {
    /// All air, all the default biome, nothing recorded.
    pub open spec fn blank() -> SectionModel {
        SectionModel {
            blocks: Seq::new(4096, |i: int| BlockState::spec_air()),
            block_form: Form::Single(BlockState::spec_air()),
            biomes: Seq::new(64, |i: int| BiomeId(0)),
            biome_form: Form::Single(BiomeId(0)),
            updates: Seq::empty(),
        }
    }

    /// 4096 blocks and 64 biome cells, just those that are stored.
    pub open spec fn full(self) -> bool {
        &&& self.block_form.wf(4096)
        &&& self.blocks == self.block_form.values(4096)
        &&& self.biome_form.wf(64)
        &&& self.biomes == self.biome_form.values(64)
    }

    /// The section with every block set to `block`, and what is recorded of it.
    pub open spec fn filled(self, block: BlockState, viewed: bool) -> SectionModel {
        let entries = fill_entries(self.blocks, block, 4096);
        SectionModel {
            blocks: Seq::new(4096, |i: int| block),
            block_form: Form::Single(block),
            updates: if !viewed || entries.len() == 0 {
                self.updates
            } else if self.block_form is Single {
                entries
            } else {
                self.updates + entries
            },
            ..self
        }
    }
}

impl ChunkModel {
    /// A chunk of `height / 16` blank sections.
    pub open spec fn blank(height: nat) -> ChunkModel {
        let n = height / 16;
        ChunkModel {
            viewers: 0,
            sections: Seq::new(n, |i: int| SectionModel::blank()),
            sky_light: Seq::new(n + 2, |i: int| LightSection::Single(0xff)),
            block_light: Seq::new(n + 2, |i: int| LightSection::Single(0)),
            entities: Map::empty(),
            changed_entities: Set::empty(),
            changed_biomes: false,
            cache: Seq::empty(),
        }
    }

    pub open spec fn height(self) -> int {
        self.sections.len() as int * 16
    }

    /// What clients are shown of the chunk.
    pub open spec fn content(self) -> ChunkContent {
        ChunkContent {
            blocks: self.sections.map_values(|s: SectionModel| s.blocks),
            biomes: self.sections.map_values(|s: SectionModel| s.biomes),
            sky_light: self.sky_light,
            block_light: self.block_light,
            entities: self.entities,
        }
    }

    /// No change is recorded.
    pub open spec fn no_changes(self) -> bool {
        &&& !self.changed_biomes
        &&& self.changed_entities == Set::<u32>::empty()
        &&& forall|i: int|
            0 <= i < self.sections.len() ==> (#[trigger] self.sections[i]).updates.len() == 0
    }

    /// Whether `(x, y, z)` is a block of the chunk.
    pub open spec fn has_block(self, x: int, y: int, z: int) -> bool {
        0 <= x < 16 && 0 <= y < self.height() && 0 <= z < 16
    }

    /// Whether `(x, y, z)` is a biome cell of the chunk.
    pub open spec fn has_biome(self, x: int, y: int, z: int) -> bool {
        0 <= x < 4 && 0 <= y < self.height() / 4 && 0 <= z < 4
    }

    /// The block at `(x, y, z)`.
    pub open spec fn block_at(self, x: int, y: int, z: int) -> BlockState {
        self.sections[y / 16].blocks[block_index(x, y % 16, z)]
    }

    /// The biome of cell `(x, y, z)`.
    pub open spec fn biome_at(self, x: int, y: int, z: int) -> BiomeId {
        self.sections[y / 4].biomes[biome_index(x, y % 4, z)]
    }

    /// The block entity at `(x, y, z)`.
    pub open spec fn entity_at(self, x: int, y: int, z: int) -> Option<Seq<u8>> {
        let idx = entity_index(x, y, z) as u32;
        if self.entities.contains_key(idx) {
            Some(self.entities[idx])
        } else {
            None
        }
    }

    /// The chunk after the block at `(x, y, z)` is set: a change drops the
    /// cached packets, and is recorded if anyone sees the chunk.
    pub open spec fn with_block(self, x: int, y: int, z: int, block: BlockState) -> ChunkModel {
        let s = self.sections[y / 16];
        if block == self.block_at(x, y, z) {
            self
        } else {
            ChunkModel {
                sections: self.sections.update(
                    y / 16,
                    SectionModel {
                        blocks: s.blocks.update(block_index(x, y % 16, z), block),
                        block_form: s.block_form.with(4096, block_index(x, y % 16, z), block),
                        updates: if self.viewers > 0 {
                            s.updates.push(ChunkDeltaUpdateEntry::of(x, y % 16, z, block))
                        } else {
                            s.updates
                        },
                        ..s
                    },
                ),
                cache: Seq::empty(),
                ..self
            }
        }
    }

    /// The chunk after all blocks of a section are set to `block`.
    pub open spec fn with_filled_section(self, sect_y: int, block: BlockState) -> ChunkModel {
        let s = self.sections[sect_y];
        ChunkModel {
            sections: self.sections.update(sect_y, s.filled(block, self.viewers > 0)),
            cache: if fill_entries(s.blocks, block, 4096).len() > 0 {
                Seq::empty()
            } else {
                self.cache
            },
            ..self
        }
    }

    /// The chunk after the biome cell `(x, y, z)` is set.
    pub open spec fn with_biome(self, x: int, y: int, z: int, biome: BiomeId) -> ChunkModel {
        let s = self.sections[y / 4];
        if biome == self.biome_at(x, y, z) {
            self
        } else {
            ChunkModel {
                sections: self.sections.update(
                    y / 4,
                    SectionModel {
                        biomes: s.biomes.update(biome_index(x, y % 4, z), biome),
                        biome_form: s.biome_form.with(64, biome_index(x, y % 4, z), biome),
                        ..s
                    },
                ),
                changed_biomes: self.changed_biomes || self.viewers > 0,
                cache: Seq::empty(),
                ..self
            }
        }
    }

    /// The chunk after all biome cells of a section are set to `biome`. Unless
    /// the section held just that biome as one value, this counts as a change.
    pub open spec fn with_filled_biomes(self, sect_y: int, biome: BiomeId) -> ChunkModel {
        let s = self.sections[sect_y];
        let unchanged = s.biome_form == Form::Single(biome);
        ChunkModel {
            sections: self.sections.update(
                sect_y,
                SectionModel {
                    biomes: Seq::new(64, |i: int| biome),
                    biome_form: Form::Single(biome),
                    ..s
                },
            ),
            changed_biomes: if unchanged {
                self.changed_biomes
            } else {
                self.viewers > 0
            },
            cache: if unchanged {
                self.cache
            } else {
                Seq::empty()
            },
            ..self
        }
    }

    /// The chunk with each section stored in its smallest form.
    pub open spec fn shrunk(self) -> ChunkModel {
        ChunkModel {
            sections: self.sections.map_values(
                |s: SectionModel|
                    SectionModel {
                        block_form: Form::smallest(s.blocks),
                        biome_form: Form::smallest(s.biomes),
                        ..s
                    },
            ),
            ..self
        }
    }

    /// One more than the height of the highest block of column `(x, z)`, among
    /// the lowest `n`, that occupies it; 0 if none does.
    pub open spec fn top_below(self, kind: HeightMapKind, x: int, z: int, n: nat) -> nat
        decreases n,
    {
        if n == 0 || occupies(kind, self.block_at(x, n - 1, z)) {
            n
        } else {
            self.top_below(kind, x, z, (n - 1) as nat)
        }
    }

    /// The heights of all columns, by z and then x.
    pub open spec fn heightmap(self, kind: HeightMapKind) -> Seq<u32> {
        Seq::new(
            256,
            |i: int| self.top_below(kind, i % 16, i / 16, self.height() as nat) as u32,
        )
    }

    /// The chunk with block entity `idx` marked as changed, if anyone sees it,
    /// and the cached packets dropped.
    pub open spec fn touching_entity(self, idx: u32) -> ChunkModel {
        ChunkModel {
            changed_entities: if self.viewers > 0 {
                self.changed_entities.insert(idx)
            } else {
                self.changed_entities
            },
            cache: Seq::empty(),
            ..self
        }
    }

    /// The chunk after block entity `idx` is set.
    pub open spec fn with_entity(self, idx: u32, data: Seq<u8>) -> ChunkModel {
        ChunkModel { entities: self.entities.insert(idx, data), ..self.touching_entity(idx) }
    }

    /// The chunk after block entity `idx` is taken away: nothing is recorded
    /// for clients.
    pub open spec fn without_entity(self, idx: u32) -> ChunkModel {
        ChunkModel {
            entities: self.entities.remove(idx),
            cache: if self.entities.contains_key(idx) {
                Seq::empty()
            } else {
                self.cache
            },
            ..self
        }
    }

    /// The chunk after all block entities are taken away.
    pub open spec fn without_entities(self) -> ChunkModel {
        if self.entities == Map::<u32, Seq<u8>>::empty() {
            self
        } else {
            ChunkModel {
                entities: Map::empty(),
                changed_entities: if self.viewers > 0 {
                    self.changed_entities.union(self.entities.dom())
                } else {
                    self.changed_entities
                },
                cache: Seq::empty(),
                ..self
            }
        }
    }

    /// The chunk with the given contents in place of its own, nothing recorded
    /// and nothing cached.
    pub open spec fn replaced(self, parts: ChunkParts) -> ChunkModel {
        ChunkModel {
            sections: parts.sections,
            entities: parts.entities,
            changed_entities: Set::empty(),
            changed_biomes: false,
            cache: Seq::empty(),
            ..self
        }
    }

    /// The chunk with nothing recorded.
    pub open spec fn synced(self) -> ChunkModel {
        ChunkModel {
            sections: self.sections.map_values(
                |s: SectionModel| SectionModel { updates: Seq::empty(), ..s },
            ),
            changed_entities: Set::empty(),
            changed_biomes: false,
            ..self
        }
    }

    /// The contents of the chunk, without what is recorded.
    pub open spec fn parts(self) -> ChunkParts {
        ChunkParts {
            sections: self.sections.map_values(
                |s: SectionModel| SectionModel { updates: Seq::empty(), ..s },
            ),
            entities: self.entities,
        }
    }
}

/// The contents of a chunk that is not loaded.
#[verifier::ext_equal]
pub struct ChunkParts {
    /// The sections from the bottom up, with nothing recorded.
    pub sections: Seq<SectionModel>,
    pub entities: Map<u32, Seq<u8>>,
}

impl ChunkParts {
    /// `n` blank sections.
    pub open spec fn blank(n: nat) -> ChunkParts {
        ChunkParts {
            sections: Seq::new(n, |i: int| SectionModel::blank()),
            entities: Map::empty(),
        }
    }

    /// The contents cut off, or grown by blank sections, at the top.
    pub open spec fn resized(self, n: nat) -> ChunkParts {
        ChunkParts {
            sections: Seq::new(
                n,
                |i: int|
                    if i < self.sections.len() {
                        self.sections[i]
                    } else {
                        SectionModel::blank()
                    },
            ),
            entities: self.entities.restrict(Set::new(|k: u32| k / 4096 < n)),
        }
    }
}

} // verus!
