//! The world: a chunk store keyed by chunk coordinate, the deferred-write
//! queue of initial generation, and every public query and mutation entry
//! point. Construction generates a bounded region from a seed; mutation
//! entry points update one cell and regenerate the affected chunk meshes.

use crate::block;
use crate::chunk::{spec_settled, Chunk};
use crate::coords::{
    chunk_and_block_index, chunk_key, in_key_range, lin_index, spec_cell_index, spec_chunk_of,
    spec_in_key_range, spec_key, ChunkPos, LocalPos,
};
use crate::meshgen::{
    blocks_model, build_chunk_faces, map_wf, meta_model, spec_chunk_faces,
};
use crate::terrain::{
    cell_writes, spec_apply_write, spec_apply_writes, spec_base_chunk, spec_cell_writes,
    spec_fol_prefix, spec_gen_chunk, spec_in_region, spec_tree_writes, tree_writes, GenState,
    GenWrite, GEN_COORD_LIMIT,
};
use std::collections::HashMap;
use vstd::prelude::*;

verus! {

broadcast use vstd::std_specs::hash::group_hash_axioms;

/// Every entry of one queued write list stays inside a chunk's cell range
/// and carries a registry-known block id.
pub open spec fn queue_entry_wf(q: Seq<(usize, u16)>) -> bool {
    forall|i: int|
        0 <= i < q.len() ==> ((#[trigger] q[i]).0 < 4096 && block::spec_valid_id(q[i].1))
}

/// The voxel world: one chunk per generated chunk coordinate.
pub struct World {
    pub seed: u32,
    pub chunk_radius: i64,
    pub chunks: HashMap<u64, Chunk>,
    pub generation_queue: HashMap<u64, Vec<(usize, u16)>>,
    pub positions: Vec<ChunkPos>,
    pub texture: u32,
    pub terrain_shader: u32,
}

impl World {
    /// The generation-state model of this world: block grids plus queue.
    pub open spec fn gen_model(self) -> GenState {
        GenState {
            grid: blocks_model(self.chunks@),
            queue: Map::new(
                |k: u64| self.generation_queue@.contains_key(k),
                |k: u64| self.generation_queue@[k]@,
            ),
        }
    }

    /// A chunk is materialized at coordinate `c`.
    pub open spec fn has_chunk(self, c: ChunkPos) -> bool {
        spec_in_key_range(c) && self.chunks@.contains_key(spec_key(c) as u64)
    }

    /// The chunk stored at coordinate `c`.
    pub open spec fn chunk_at(self, c: ChunkPos) -> Chunk {
        self.chunks@[spec_key(c) as u64]
    }

    /// Every queued write targets a cell index inside a chunk and carries a
    /// registry-known block id.
    pub open spec fn queue_wf(self) -> bool {
        forall|k: u64|
            #[trigger] self.generation_queue@.contains_key(k) ==> queue_entry_wf(
                self.generation_queue@[k]@,
            )
    }

    /// Well-formed world: a registry-known radius, well-formed chunks,
    /// well-formed queue entries, exactly one chunk per region coordinate
    /// and none elsewhere, and each chunk's stored world-space offset equal
    /// to 16 times its coordinate.
    pub open spec fn wf(self) -> bool {
        &&& 0 <= self.chunk_radius <= 256
        &&& map_wf(self.chunks@)
        &&& self.queue_wf()
        &&& forall|c: ChunkPos|
            #[trigger] self.has_chunk(c) <==> (spec_in_key_range(c) && spec_in_region(
                self.chunk_radius,
                c,
            ))
        &&& forall|c: ChunkPos|
            #[trigger] self.has_chunk(c) ==> (self.chunk_at(c).off_x == 16 * c.x
                && self.chunk_at(c).off_y == 16 * c.y && self.chunk_at(c).off_z == 16 * c.z)
    }

    /// The block id the world holds at a global cell position: the stored
    /// id where the owning chunk is materialized, air everywhere else.
    pub open spec fn spec_block_at(self, x: int, y: int, z: int) -> u16 {
        let c = spec_chunk_of(x, y, z);
        if self.has_chunk(c) {
            self.chunk_at(c).blocks@[spec_cell_index(x, y, z)]
        } else {
            block::AIR
        }
    }

    /// The metadata value at a global cell position.
    pub open spec fn spec_metadata_at(self, x: int, y: int, z: int) -> u16 {
        let c = spec_chunk_of(x, y, z);
        if self.has_chunk(c) {
            self.chunk_at(c).metadata@[spec_cell_index(x, y, z)]
        } else {
            0
        }
    }

    /// Resolves a global position and returns the stored block id, or air
    /// for unmaterialized space. Pure: no side effects.
    pub fn block_at_global_pos(&self, x: i64, y: i64, z: i64) -> (r: u16)
        requires
            self.wf(),
        ensures
            r == self.spec_block_at(x as int, y as int, z as int),
            block::spec_valid_id(r),
    {
        let (c, l) = chunk_and_block_index(x, y, z);
        if !in_key_range(c) {
            return block::AIR;
        }
        match self.chunks.get(&chunk_key(c)) {
            Some(ch) => ch.block_at_chunk_pos(l),
            None => block::AIR,
        }
    }

    /// A position collides exactly when it holds a non-air block.
    pub fn collision_at_world_pos(&self, x: i64, y: i64, z: i64) -> (r: bool)
        requires
            self.wf(),
        ensures
            r == (self.spec_block_at(x as int, y as int, z as int) != 0),
    {
        0 != self.block_at_global_pos(x, y, z)
    }

    /// The chunk at a coordinate, if materialized.
    pub fn get_chunk(&self, c: ChunkPos) -> (r: Option<&Chunk>)
        requires
            self.wf(),
        ensures
            match r {
                Some(ch) => self.has_chunk(c) && *ch == self.chunk_at(c),
                None => !self.has_chunk(c),
            },
    {
        if !in_key_range(c) {
            return None;
        }
        self.chunks.get(&chunk_key(c))
    }

    /// The materialized chunk coordinates, in generation order.
    pub fn chunk_positions(&self) -> (r: &Vec<ChunkPos>)
        ensures
            r == &self.positions,
    {
        &self.positions
    }

    /// The world's seed.
    pub fn seed(&self) -> (r: u32)
        ensures
            r == self.seed,
    {
        self.seed
    }

    /// Applies one generation write: directly into the target chunk when it
    /// is materialized, else onto the deferred queue.
    fn apply_gen_write(&mut self, w: GenWrite)
        requires
            map_wf(old(self).chunks@),
            old(self).queue_wf(),
            block::spec_valid_id(w.id),
        ensures
            map_wf(final(self).chunks@),
            final(self).queue_wf(),
            final(self).gen_model() == spec_apply_write(old(self).gen_model(), w),
            final(self).chunks@.dom() == old(self).chunks@.dom(),
            forall|k: u64|
                old(self).chunks@.contains_key(k) ==> {
                    let ch_o = #[trigger] old(self).chunks@[k];
                    let ch_n = final(self).chunks@[k];
                    ch_n.metadata == ch_o.metadata && ch_n.block_mesh == ch_o.block_mesh
                        && ch_n.off_x == ch_o.off_x && ch_n.off_y == ch_o.off_y && ch_n.off_z
                        == ch_o.off_z
                },
            final(self).seed == old(self).seed,
            final(self).chunk_radius == old(self).chunk_radius,
            final(self).positions == old(self).positions,
            final(self).texture == old(self).texture,
            final(self).terrain_shader == old(self).terrain_shader,
    {
        let (c, l) = chunk_and_block_index(w.x, w.y, w.z);
        let ghost st0 = self.gen_model();
        if !in_key_range(c) {
            return;
        }
        let k = chunk_key(c);
        let j = lin_index(l);
        match self.chunks.remove(&k) {
            Some(mut ch) => {
                ch.blocks[j] = w.id;
                self.chunks.insert(k, ch);
                proof {
                    assert(self.chunks@.dom() =~= old(self).chunks@.dom());
                    assert(self.gen_model().grid =~= spec_apply_write(st0, w).grid);
                    assert(self.gen_model().queue =~= spec_apply_write(st0, w).queue);
                }
            },
            None => {
                match self.generation_queue.remove(&k) {
                    Some(mut q) => {
                        q.push((j, w.id));
                        self.generation_queue.insert(k, q);
                    },
                    None => {
                        let mut q: Vec<(usize, u16)> = Vec::new();
                        q.push((j, w.id));
                        self.generation_queue.insert(k, q);
                    },
                }
                proof {
                    assert(self.chunks@.dom() =~= old(self).chunks@.dom());
                    assert(self.gen_model().grid =~= spec_apply_write(st0, w).grid);
                    assert(self.gen_model().queue =~= spec_apply_write(st0, w).queue);
                }
            },
        }
    }

    /// Applies a write list in order.
    fn apply_gen_writes(&mut self, ws: &Vec<GenWrite>)
        requires
            map_wf(old(self).chunks@),
            old(self).queue_wf(),
            forall|i: int| 0 <= i < ws@.len() ==> block::spec_valid_id(#[trigger] ws@[i].id),
        ensures
            map_wf(final(self).chunks@),
            final(self).queue_wf(),
            final(self).gen_model() == spec_apply_writes(old(self).gen_model(), ws@),
            final(self).chunks@.dom() == old(self).chunks@.dom(),
            forall|k: u64|
                old(self).chunks@.contains_key(k) ==> {
                    let ch_o = #[trigger] old(self).chunks@[k];
                    let ch_n = final(self).chunks@[k];
                    ch_n.metadata == ch_o.metadata && ch_n.block_mesh == ch_o.block_mesh
                        && ch_n.off_x == ch_o.off_x && ch_n.off_y == ch_o.off_y && ch_n.off_z
                        == ch_o.off_z
                },
            final(self).seed == old(self).seed,
            final(self).chunk_radius == old(self).chunk_radius,
            final(self).positions == old(self).positions,
            final(self).texture == old(self).texture,
            final(self).terrain_shader == old(self).terrain_shader,
    {
        let ghost st0 = self.gen_model();
        let mut i: usize = 0;
        while i < ws.len()
            invariant
                i <= ws@.len(),
                map_wf(self.chunks@),
                self.queue_wf(),
                self.gen_model() == spec_apply_writes(st0, ws@.take(i as int)),
                self.chunks@.dom() == old(self).chunks@.dom(),
                forall|k: u64|
                    old(self).chunks@.contains_key(k) ==> {
                        let ch_o = #[trigger] old(self).chunks@[k];
                        let ch_n = self.chunks@[k];
                        ch_n.metadata == ch_o.metadata && ch_n.block_mesh == ch_o.block_mesh
                            && ch_n.off_x == ch_o.off_x && ch_n.off_y == ch_o.off_y && ch_n.off_z
                            == ch_o.off_z
                    },
                self.seed == old(self).seed,
                self.chunk_radius == old(self).chunk_radius,
                self.positions == old(self).positions,
                self.texture == old(self).texture,
                self.terrain_shader == old(self).terrain_shader,
                st0 == old(self).gen_model(),
                forall|ii: int| 0 <= ii < ws@.len() ==> block::spec_valid_id(#[trigger] ws@[ii].id),
            decreases ws@.len() - i,
        {
            self.apply_gen_write(ws[i]);
            proof {
                assert(ws@.take(i as int + 1).drop_last() =~= ws@.take(i as int));
                assert(ws@.take(i as int + 1).last() == ws@[i as int]);
            }
            i += 1;
        }
        proof {
            assert(ws@.take(ws@.len() as int) =~= ws@);
        }
    }

    /// Places a tree with its trunk base at the given global position:
    /// trunk and canopy cells go to whichever chunks own them, deferred
    /// where those chunks do not exist.
    pub fn place_tree(&mut self, x: i64, y: i64, z: i64)
        requires
            map_wf(old(self).chunks@),
            old(self).queue_wf(),
            -GEN_COORD_LIMIT < x < GEN_COORD_LIMIT,
            -GEN_COORD_LIMIT < y < GEN_COORD_LIMIT,
            -GEN_COORD_LIMIT < z < GEN_COORD_LIMIT,
        ensures
            map_wf(final(self).chunks@),
            final(self).queue_wf(),
            final(self).gen_model() == spec_apply_writes(
                old(self).gen_model(),
                spec_tree_writes(x, y, z),
            ),
            final(self).chunks@.dom() == old(self).chunks@.dom(),
            forall|k: u64|
                old(self).chunks@.contains_key(k) ==> {
                    let ch_o = #[trigger] old(self).chunks@[k];
                    let ch_n = final(self).chunks@[k];
                    ch_n.metadata == ch_o.metadata && ch_n.block_mesh == ch_o.block_mesh
                        && ch_n.off_x == ch_o.off_x && ch_n.off_y == ch_o.off_y && ch_n.off_z
                        == ch_o.off_z
                },
            final(self).seed == old(self).seed,
            final(self).chunk_radius == old(self).chunk_radius,
            final(self).positions == old(self).positions,
            final(self).texture == old(self).texture,
            final(self).terrain_shader == old(self).terrain_shader,
    {
        let ws = tree_writes(x, y, z);
        proof {
            assert forall|i: int| 0 <= i < ws@.len() implies block::spec_valid_id(
                #[trigger] ws@[i].id,
            ) by {
                assert(ws@[i].id == block::LOG || ws@[i].id == block::LEAVES);
            }
        }
        self.apply_gen_writes(&ws);
    }
}

/// The chunk coordinate shifted by one step on each axis.
pub open spec fn spec_shift(c: ChunkPos, dx: int, dy: int, dz: int) -> ChunkPos {
    ChunkPos { x: (c.x + dx) as i64, y: (c.y + dy) as i64, z: (c.z + dz) as i64 }
}

/// The chunks a mutation of the cell at local index `l` of chunk `c`
/// re-meshes: the owning chunk, plus the face neighbor behind each
/// chunk-boundary face the cell sits on.
pub open spec fn spec_touched_all(c: ChunkPos, l: LocalPos) -> Set<ChunkPos> {
    Set::new(
        |cn: ChunkPos|
            cn == c || (l.x == 0 && cn == spec_shift(c, -1, 0, 0)) || (l.x == 15 && cn
                == spec_shift(c, 1, 0, 0)) || (l.y == 0 && cn == spec_shift(c, 0, -1, 0)) || (l.y
                == 15 && cn == spec_shift(c, 0, 1, 0)) || (l.z == 0 && cn == spec_shift(
                c,
                0,
                0,
                -1,
            )) || (l.z == 15 && cn == spec_shift(c, 0, 0, 1)),
    )
}

/// Chunk `cn` of `w1` holds the same grids as in `w0`, and its cached mesh
/// has been regenerated against `w0`'s block and metadata state.
pub open spec fn chunk_remeshed(w0: World, w1: World, cn: ChunkPos) -> bool {
    let ch_o = w0.chunk_at(cn);
    let ch_n = w1.chunk_at(cn);
    &&& ch_n.blocks == ch_o.blocks
    &&& ch_n.metadata == ch_o.metadata
    &&& ch_n.off_x == ch_o.off_x && ch_n.off_y == ch_o.off_y && ch_n.off_z == ch_o.off_z
    &&& ch_n.block_mesh matches Some(m)
    &&& ch_n.block_mesh->Some_0.faces@ == spec_chunk_faces(
        blocks_model(w0.chunks@),
        meta_model(w0.chunks@),
        cn,
    )
    &&& ch_n.block_mesh->Some_0.texture == w0.texture
    &&& ch_n.block_mesh->Some_0.shader == w0.terrain_shader
}

/// `w1` is `w0` with exactly the materialized chunks of `touched`
/// re-meshed: every block and metadata grid is untouched, every chunk off
/// the touched set is bit-identical, and every materialized touched chunk
/// carries a mesh regenerated against the current state.
pub open spec fn spec_remeshed_world(w0: World, w1: World, touched: Set<ChunkPos>) -> bool {
    &&& w1.chunks@.dom() == w0.chunks@.dom()
    &&& blocks_model(w1.chunks@) == blocks_model(w0.chunks@)
    &&& meta_model(w1.chunks@) == meta_model(w0.chunks@)
    &&& w1.generation_queue == w0.generation_queue
    &&& w1.positions == w0.positions
    &&& w1.seed == w0.seed
    &&& w1.chunk_radius == w0.chunk_radius
    &&& w1.texture == w0.texture
    &&& w1.terrain_shader == w0.terrain_shader
    &&& forall|k: u64|
        w0.chunks@.contains_key(k) && (forall|cn: ChunkPos|
            #[trigger] touched.contains(cn) ==> !(spec_in_key_range(cn) && k == spec_key(cn) as u64))
            ==> #[trigger] w1.chunks@[k] == w0.chunks@[k]
    &&& forall|cn: ChunkPos|
        #[trigger] touched.contains(cn) && w0.has_chunk(cn) ==> chunk_remeshed(w0, w1, cn)
}

/// Re-meshing relations compose: the touched sets accumulate.
pub proof fn lemma_remeshed_trans(w0: World, w1: World, w2: World, s1: Set<ChunkPos>, s2: Set<
    ChunkPos,
>)
    requires
        spec_remeshed_world(w0, w1, s1),
        spec_remeshed_world(w1, w2, s2),
    ensures
        spec_remeshed_world(w0, w2, s1.union(s2)),
{
    let s = s1.union(s2);
    assert forall|k: u64|
        w0.chunks@.contains_key(k) && (forall|cn: ChunkPos|
            #[trigger] s.contains(cn) ==> !(spec_in_key_range(cn) && k == spec_key(cn) as u64))
        implies #[trigger] w2.chunks@[k] == w0.chunks@[k] by {
        assert forall|cn: ChunkPos|
            #[trigger] s1.contains(cn) implies !(spec_in_key_range(cn) && k == spec_key(
            cn,
        ) as u64) by {
            assert(s.contains(cn));
        }
        assert forall|cn: ChunkPos|
            #[trigger] s2.contains(cn) implies !(spec_in_key_range(cn) && k == spec_key(
            cn,
        ) as u64) by {
            assert(s.contains(cn));
        }
    }
    assert forall|cn: ChunkPos| #[trigger] s.contains(cn) && w0.has_chunk(cn) implies chunk_remeshed(
        w0,
        w2,
        cn,
    ) by {
        if s2.contains(cn) {
            assert(w1.has_chunk(cn));
            assert(chunk_remeshed(w1, w2, cn));
            if s1.contains(cn) {
                assert(chunk_remeshed(w0, w1, cn));
            } else {
                // the w0 -> w1 step left cn's chunk alone
                let k = spec_key(cn) as u64;
                assert forall|cm: ChunkPos|
                    #[trigger] s1.contains(cm) implies !(spec_in_key_range(cm) && k == spec_key(
                    cm,
                ) as u64) by {
                    if spec_in_key_range(cm) && k == spec_key(cm) as u64 {
                        crate::coords::lemma_key_injective(cn, cm);
                    }
                }
                assert(w1.chunks@[k] == w0.chunks@[k]);
            }
        } else {
            assert(s1.contains(cn));
            assert(chunk_remeshed(w0, w1, cn));
            // the w1 -> w2 step leaves cn's chunk alone: no touched member of
            // s2 shares its key, by key injectivity
            let k = spec_key(cn) as u64;
            assert forall|cm: ChunkPos|
                #[trigger] s2.contains(cm) implies !(spec_in_key_range(cm) && k == spec_key(
                cm,
            ) as u64) by {
                if spec_in_key_range(cm) && k == spec_key(cm) as u64 {
                    crate::coords::lemma_key_injective(cn, cm);
                }
            }
            assert(w2.chunks@[k] == w1.chunks@[k]);
        }
    }
}

impl World {
    /// Regenerates the cached mesh of one chunk in full from its current
    /// block and metadata grids, culled against its materialized
    /// neighbors. Does nothing for unmaterialized coordinates.
    pub fn gen_chunk_mesh(&mut self, chunk_index: ChunkPos)
        requires
            map_wf(old(self).chunks@),
        ensures
            map_wf(final(self).chunks@),
            old(self).queue_wf() ==> final(self).queue_wf(),
            spec_remeshed_world(*old(self), *final(self), Set::empty().insert(chunk_index)),
            !old(self).has_chunk(chunk_index) ==> *final(self) == *old(self),
    {
        if !in_key_range(chunk_index) {
            return;
        }
        let k = chunk_key(chunk_index);
        if !self.chunks.contains_key(&k) {
            return;
        }
        let vertices = build_chunk_faces(&self.chunks, chunk_index);
        match self.chunks.remove(&k) {
            Some(mut ch) => {
                ch.update_mesh(vertices, self.texture, self.terrain_shader);
                self.chunks.insert(k, ch);
                proof {
                    assert(self.chunks@.dom() =~= old(self).chunks@.dom());
                    assert(blocks_model(self.chunks@) =~= blocks_model(old(self).chunks@));
                    assert(meta_model(self.chunks@) =~= meta_model(old(self).chunks@));
                    let w0 = *old(self);
                    let w1 = *self;
                    let t = Set::<ChunkPos>::empty().insert(chunk_index);
                    assert forall|kk: u64|
                        w0.chunks@.contains_key(kk) && (forall|cn: ChunkPos|
                            #[trigger] t.contains(cn) ==> !(spec_in_key_range(cn) && kk == spec_key(
                                cn,
                            ) as u64)) implies #[trigger] w1.chunks@[kk] == w0.chunks@[kk] by {
                        assert(t.contains(chunk_index));
                    }
                    assert forall|cn: ChunkPos|
                        #[trigger] t.contains(cn) && w0.has_chunk(cn) implies chunk_remeshed(
                        w0,
                        w1,
                        cn,
                    ) by {
                        assert(cn == chunk_index);
                    }
                    assert(spec_remeshed_world(w0, w1, t));
                }
            },
            None => {
                proof {
                    assert(false);
                }
            },
        }
    }

    /// Re-meshes the owning chunk of a just-mutated cell, and the face
    /// neighbor behind every chunk-boundary face that cell sits on.
    fn remesh_after_mutation(&mut self, c: ChunkPos, l: LocalPos)
        requires
            map_wf(old(self).chunks@),
            spec_in_key_range(c),
            l.x < 16,
            l.y < 16,
            l.z < 16,
        ensures
            map_wf(final(self).chunks@),
            old(self).queue_wf() ==> final(self).queue_wf(),
            spec_remeshed_world(*old(self), *final(self), spec_touched_all(c, l)),
    {
        let ghost w0 = *self;
        let ghost sc = Set::<ChunkPos>::empty().insert(c);
        self.gen_chunk_mesh(c);
        let ghost w1 = *self;

        let ghost sx = Set::<ChunkPos>::empty();
        if l.x == 0 {
            self.gen_chunk_mesh(ChunkPos { x: c.x - 1, y: c.y, z: c.z });
            proof {
                sx = Set::<ChunkPos>::empty().insert(spec_shift(c, -1, 0, 0));
            }
        } else if l.x == 15 {
            self.gen_chunk_mesh(ChunkPos { x: c.x + 1, y: c.y, z: c.z });
            proof {
                sx = Set::<ChunkPos>::empty().insert(spec_shift(c, 1, 0, 0));
            }
        }
        let ghost w2 = *self;
        proof {
            if l.x != 0 && l.x != 15 {
                assert(spec_remeshed_world(w1, w2, sx));
            }
            lemma_remeshed_trans(w0, w1, w2, sc, sx);
        }

        let ghost sy = Set::<ChunkPos>::empty();
        if l.y == 0 {
            self.gen_chunk_mesh(ChunkPos { x: c.x, y: c.y - 1, z: c.z });
            proof {
                sy = Set::<ChunkPos>::empty().insert(spec_shift(c, 0, -1, 0));
            }
        } else if l.y == 15 {
            self.gen_chunk_mesh(ChunkPos { x: c.x, y: c.y + 1, z: c.z });
            proof {
                sy = Set::<ChunkPos>::empty().insert(spec_shift(c, 0, 1, 0));
            }
        }
        let ghost w3 = *self;
        proof {
            if l.y != 0 && l.y != 15 {
                assert(spec_remeshed_world(w2, w3, sy));
            }
            lemma_remeshed_trans(w0, w2, w3, sc.union(sx), sy);
        }

        let ghost sz = Set::<ChunkPos>::empty();
        if l.z == 0 {
            self.gen_chunk_mesh(ChunkPos { x: c.x, y: c.y, z: c.z - 1 });
            proof {
                sz = Set::<ChunkPos>::empty().insert(spec_shift(c, 0, 0, -1));
            }
        } else if l.z == 15 {
            self.gen_chunk_mesh(ChunkPos { x: c.x, y: c.y, z: c.z + 1 });
            proof {
                sz = Set::<ChunkPos>::empty().insert(spec_shift(c, 0, 0, 1));
            }
        }
        proof {
            if l.z != 0 && l.z != 15 {
                assert(spec_remeshed_world(w3, *self, sz));
            }
            lemma_remeshed_trans(w0, w3, *self, sc.union(sx).union(sy), sz);
            assert(sc.union(sx).union(sy).union(sz) =~= spec_touched_all(c, l));
        }
    }
}

/// Chunk `cn`'s grids are unchanged between `w0` and `w1`, and its cached
/// mesh in `w1` has been regenerated against `w1`'s (current) state.
pub open spec fn chunk_remeshed_current(w0: World, w1: World, cn: ChunkPos) -> bool {
    let ch_o = w0.chunk_at(cn);
    let ch_n = w1.chunk_at(cn);
    &&& ch_n.blocks == ch_o.blocks
    &&& ch_n.metadata == ch_o.metadata
    &&& ch_n.off_x == ch_o.off_x && ch_n.off_y == ch_o.off_y && ch_n.off_z == ch_o.off_z
    &&& ch_n.block_mesh matches Some(m)
    &&& ch_n.block_mesh->Some_0.faces@ == spec_chunk_faces(
        blocks_model(w1.chunks@),
        meta_model(w1.chunks@),
        cn,
    )
    &&& ch_n.block_mesh->Some_0.texture == w1.texture
    &&& ch_n.block_mesh->Some_0.shader == w1.terrain_shader
}

/// What a mutation of the cell at (x, y, z) leaves behind, given the new
/// grids of the owning chunk: everything outside the touched set is
/// bit-identical, the owner holds the given grids, and every touched
/// materialized chunk carries a mesh regenerated against the new state.
pub open spec fn spec_mutated(
    w0: World,
    w1: World,
    x: int,
    y: int,
    z: int,
    new_blocks: Seq<u16>,
    new_metadata: Seq<u16>,
) -> bool {
    let c = spec_chunk_of(x, y, z);
    let l = LocalPos { x: (x % 16) as usize, y: (y % 16) as usize, z: (z % 16) as usize };
    let touched = spec_touched_all(c, l);
    &&& w1.chunks@.dom() == w0.chunks@.dom()
    &&& w1.generation_queue == w0.generation_queue
    &&& w1.positions == w0.positions
    &&& w1.seed == w0.seed
    &&& w1.chunk_radius == w0.chunk_radius
    &&& w1.texture == w0.texture
    &&& w1.terrain_shader == w0.terrain_shader
    &&& forall|k: u64|
        w0.chunks@.contains_key(k) && (forall|cn: ChunkPos|
            #[trigger] touched.contains(cn) ==> !(spec_in_key_range(cn) && k == spec_key(cn) as u64))
            ==> #[trigger] w1.chunks@[k] == w0.chunks@[k]
    &&& {
        let ch_o = w0.chunk_at(c);
        let ch_n = w1.chunk_at(c);
        &&& ch_n.blocks@ == new_blocks
        &&& ch_n.metadata@ == new_metadata
        &&& ch_n.off_x == ch_o.off_x && ch_n.off_y == ch_o.off_y && ch_n.off_z == ch_o.off_z
        &&& ch_n.block_mesh matches Some(m)
        &&& ch_n.block_mesh->Some_0.faces@ == spec_chunk_faces(
            blocks_model(w1.chunks@),
            meta_model(w1.chunks@),
            c,
        )
        &&& ch_n.block_mesh->Some_0.texture == w1.texture
        &&& ch_n.block_mesh->Some_0.shader == w1.terrain_shader
    }
    &&& forall|cn: ChunkPos|
        #[trigger] touched.contains(cn) && cn != c && w0.has_chunk(cn) ==> chunk_remeshed_current(
            w0,
            w1,
            cn,
        )
}

/// Stitches a cell mutation (w0 to wm: only the owner chunk's grids
/// changed) with the subsequent re-meshing (wm to w1) into the mutation
/// contract.
proof fn lemma_mutation_stitch(w0: World, wm: World, w1: World, c: ChunkPos, l: LocalPos)
    requires
        spec_in_key_range(c),
        l.x < 16,
        l.y < 16,
        l.z < 16,
        wm.chunks@.dom() == w0.chunks@.dom(),
        wm.generation_queue == w0.generation_queue,
        wm.positions == w0.positions,
        wm.seed == w0.seed,
        wm.chunk_radius == w0.chunk_radius,
        wm.texture == w0.texture,
        wm.terrain_shader == w0.terrain_shader,
        w0.has_chunk(c),
        forall|k: u64|
            w0.chunks@.contains_key(k) && k != spec_key(c) as u64 ==> #[trigger] wm.chunks@[k]
                == w0.chunks@[k],
        wm.chunk_at(c).off_x == w0.chunk_at(c).off_x,
        wm.chunk_at(c).off_y == w0.chunk_at(c).off_y,
        wm.chunk_at(c).off_z == w0.chunk_at(c).off_z,
        spec_remeshed_world(wm, w1, spec_touched_all(c, l)),
    ensures
        spec_mutated(
            w0,
            w1,
            16 * c.x + l.x as int,
            16 * c.y + l.y as int,
            16 * c.z + l.z as int,
            wm.chunk_at(c).blocks@,
            wm.chunk_at(c).metadata@,
        ),
{
    vstd::arithmetic::div_mod::lemma_fundamental_div_mod_converse(
        16 * c.x + l.x as int,
        16,
        c.x as int,
        l.x as int,
    );
    vstd::arithmetic::div_mod::lemma_fundamental_div_mod_converse(
        16 * c.y + l.y as int,
        16,
        c.y as int,
        l.y as int,
    );
    vstd::arithmetic::div_mod::lemma_fundamental_div_mod_converse(
        16 * c.z + l.z as int,
        16,
        c.z as int,
        l.z as int,
    );
    let x: int = 16 * c.x + l.x as int;
    let y: int = 16 * c.y + l.y as int;
    let z: int = 16 * c.z + l.z as int;
    assert(spec_chunk_of(x, y, z) == c);
    assert(LocalPos { x: (x % 16) as usize, y: (y % 16) as usize, z: (z % 16) as usize } == l);
    let touched = spec_touched_all(c, l);
    assert(touched.contains(c));
    // frame: chunks off the touched set are exactly as in w0
    assert forall|k: u64|
        w0.chunks@.contains_key(k) && (forall|cn: ChunkPos|
            #[trigger] touched.contains(cn) ==> !(spec_in_key_range(cn) && k == spec_key(
                cn,
            ) as u64)) implies #[trigger] w1.chunks@[k] == w0.chunks@[k] by {
        assert(!(spec_in_key_range(c) && k == spec_key(c) as u64));
        assert(wm.chunks@[k] == w0.chunks@[k]);
    }
    // the owner carries the new grids and a current mesh
    assert(w1.has_chunk(c) && wm.has_chunk(c));
    assert(chunk_remeshed(wm, w1, c));
    assert(blocks_model(w1.chunks@) == blocks_model(wm.chunks@));
    assert(meta_model(w1.chunks@) == meta_model(wm.chunks@));
    // the re-meshed neighbors
    assert forall|cn: ChunkPos|
        #[trigger] touched.contains(cn) && cn != c && w0.has_chunk(cn) implies
    chunk_remeshed_current(w0, w1, cn) by {
        assert(wm.chunks@.contains_key(spec_key(cn) as u64));
        assert(wm.has_chunk(cn));
        crate::coords::lemma_key_injective_ne(c, cn);
        assert(wm.chunks@[spec_key(cn) as u64] == w0.chunks@[spec_key(cn) as u64]);
        assert(chunk_remeshed(wm, w1, cn));
    }
}

impl World {
    #[verifier::rlimit(100)]
    fn finish_mutation(&mut self, c: ChunkPos, l: LocalPos, w0: Ghost<World>)
        requires
            map_wf(old(self).chunks@),
            old(self).queue_wf(),
            spec_in_key_range(c),
            l.x < 16,
            l.y < 16,
            l.z < 16,
            old(self).chunks@.dom() == w0@.chunks@.dom(),
            old(self).generation_queue == w0@.generation_queue,
            old(self).positions == w0@.positions,
            old(self).seed == w0@.seed,
            old(self).chunk_radius == w0@.chunk_radius,
            old(self).texture == w0@.texture,
            old(self).terrain_shader == w0@.terrain_shader,
            w0@.has_chunk(c),
            forall|k: u64|
                w0@.chunks@.contains_key(k) && k != spec_key(c) as u64 ==> #[trigger] old(
                    self,
                ).chunks@[k] == w0@.chunks@[k],
            old(self).chunk_at(c).off_x == w0@.chunk_at(c).off_x,
            old(self).chunk_at(c).off_y == w0@.chunk_at(c).off_y,
            old(self).chunk_at(c).off_z == w0@.chunk_at(c).off_z,
        ensures
            map_wf(final(self).chunks@),
            final(self).queue_wf(),
            final(self).chunks@.dom() == w0@.chunks@.dom(),
            final(self).generation_queue == w0@.generation_queue,
            final(self).positions == w0@.positions,
            final(self).seed == w0@.seed,
            final(self).chunk_radius == w0@.chunk_radius,
            final(self).texture == w0@.texture,
            final(self).terrain_shader == w0@.terrain_shader,
            spec_mutated(
                w0@,
                *final(self),
                16 * c.x + l.x as int,
                16 * c.y + l.y as int,
                16 * c.z + l.z as int,
                old(self).chunk_at(c).blocks@,
                old(self).chunk_at(c).metadata@,
            ),
    {
        let ghost wm = *self;
        self.remesh_after_mutation(c, l);
        proof {
            lemma_mutation_stitch(w0@, wm, *self, c, l);
        }
    }

    /// Destroys the block at a global position: the cell becomes air, the
    /// settle pass clears attached blocks it left unsupported, and the
    /// owning chunk's mesh — plus the neighbor behind any chunk-boundary
    /// face the cell sits on — is regenerated. A position in unmaterialized
    /// space is left untouched.
    pub fn destroy_at_global_pos(&mut self, x: i64, y: i64, z: i64)
        requires
            old(self).wf(),
        ensures
            final(self).wf(),
            final(self).spec_block_at(x as int, y as int, z as int) == 0,
            !old(self).has_chunk(spec_chunk_of(x as int, y as int, z as int)) ==> *final(self)
                == *old(self),
            old(self).has_chunk(spec_chunk_of(x as int, y as int, z as int)) ==> spec_mutated(
                *old(self),
                *final(self),
                x as int,
                y as int,
                z as int,
                spec_settled(
                    old(self).chunk_at(spec_chunk_of(x as int, y as int, z as int)).blocks@.update(
                        spec_cell_index(x as int, y as int, z as int),
                        block::AIR,
                    ),
                ),
                old(self).chunk_at(spec_chunk_of(x as int, y as int, z as int)).metadata@,
            ),
    {
        let (c, l) = chunk_and_block_index(x, y, z);
        if !in_key_range(c) {
            return ;
        }
        let k = chunk_key(c);
        if !self.chunks.contains_key(&k) {
            return ;
        }
        let j = lin_index(l);
        match self.chunks.remove(&k) {
            Some(mut ch) => {
                ch.blocks[j] = block::AIR;
                ch.update();
                self.chunks.insert(k, ch);
            },
            None => {
                proof {
                    assert(false);
                }
            },
        }
        proof {
            assert(self.chunks@.dom() =~= old(self).chunks@.dom());
        }
        self.finish_mutation(c, l, Ghost(*old(self)));
        proof {
            vstd::arithmetic::div_mod::lemma_fundamental_div_mod(x as int, 16);
            vstd::arithmetic::div_mod::lemma_fundamental_div_mod(y as int, 16);
            vstd::arithmetic::div_mod::lemma_fundamental_div_mod(z as int, 16);
            let nb = spec_settled(
                old(self).chunk_at(c).blocks@.update(
                    spec_cell_index(x as int, y as int, z as int),
                    block::AIR,
                ),
            );
            lemma_mutated_wf(
                *old(self),
                *self,
                x as int,
                y as int,
                z as int,
                nb,
                old(self).chunk_at(c).metadata@,
            );
            crate::coords::lemma_cell_index_bounds(x as int, y as int, z as int);
            crate::chunk::lemma_settled_cell(
                old(self).chunk_at(c).blocks@.update(
                    spec_cell_index(x as int, y as int, z as int),
                    block::AIR,
                ),
                spec_cell_index(x as int, y as int, z as int),
            );
        }
    }

    /// Places a block at a global position: the cell takes the given id
    /// (no settle pass runs), and the owning chunk's mesh — plus the
    /// neighbor behind any chunk-boundary face the cell sits on — is
    /// regenerated. A position in unmaterialized space is left untouched.
    pub fn place_at_global_pos(&mut self, x: i64, y: i64, z: i64, block_id: u16)
        requires
            old(self).wf(),
            block::spec_valid_id(block_id),
        ensures
            final(self).wf(),
            old(self).has_chunk(spec_chunk_of(x as int, y as int, z as int))
                ==> final(self).spec_block_at(x as int, y as int, z as int) == block_id,
            !old(self).has_chunk(spec_chunk_of(x as int, y as int, z as int)) ==> *final(self)
                == *old(self),
            old(self).has_chunk(spec_chunk_of(x as int, y as int, z as int)) ==> spec_mutated(
                *old(self),
                *final(self),
                x as int,
                y as int,
                z as int,
                old(self).chunk_at(spec_chunk_of(x as int, y as int, z as int)).blocks@.update(
                    spec_cell_index(x as int, y as int, z as int),
                    block_id,
                ),
                old(self).chunk_at(spec_chunk_of(x as int, y as int, z as int)).metadata@,
            ),
    {
        let (c, l) = chunk_and_block_index(x, y, z);
        if !in_key_range(c) {
            return ;
        }
        let k = chunk_key(c);
        if !self.chunks.contains_key(&k) {
            return ;
        }
        let j = lin_index(l);
        match self.chunks.remove(&k) {
            Some(mut ch) => {
                ch.blocks[j] = block_id;
                self.chunks.insert(k, ch);
            },
            None => {
                proof {
                    assert(false);
                }
            },
        }
        proof {
            assert(self.chunks@.dom() =~= old(self).chunks@.dom());
        }
        self.finish_mutation(c, l, Ghost(*old(self)));
        proof {
            vstd::arithmetic::div_mod::lemma_fundamental_div_mod(x as int, 16);
            vstd::arithmetic::div_mod::lemma_fundamental_div_mod(y as int, 16);
            vstd::arithmetic::div_mod::lemma_fundamental_div_mod(z as int, 16);
            lemma_mutated_wf(
                *old(self),
                *self,
                x as int,
                y as int,
                z as int,
                old(self).chunk_at(c).blocks@.update(
                    spec_cell_index(x as int, y as int, z as int),
                    block_id,
                ),
                old(self).chunk_at(c).metadata@,
            );
            crate::coords::lemma_cell_index_bounds(x as int, y as int, z as int);
        }
    }

    /// Interacts with the block at a global position: an activatable block
    /// toggles its metadata flag between its two states; the settle pass
    /// runs; the owning chunk's mesh — plus the neighbor behind any
    /// chunk-boundary face the cell sits on — is regenerated. A position in
    /// unmaterialized space is left untouched.
    pub fn interact_at_global_pos(&mut self, x: i64, y: i64, z: i64)
        requires
            old(self).wf(),
        ensures
            final(self).wf(),
            !old(self).has_chunk(spec_chunk_of(x as int, y as int, z as int)) ==> *final(self)
                == *old(self),
            old(self).has_chunk(spec_chunk_of(x as int, y as int, z as int)) ==> spec_mutated(
                *old(self),
                *final(self),
                x as int,
                y as int,
                z as int,
                spec_settled(
                    old(self).chunk_at(spec_chunk_of(x as int, y as int, z as int)).blocks@,
                ),
                if old(self).spec_block_at(x as int, y as int, z as int) == block::FURNACE {
                    old(self).chunk_at(spec_chunk_of(x as int, y as int, z as int)).metadata@.update(
                        spec_cell_index(x as int, y as int, z as int),
                        if old(self).spec_metadata_at(x as int, y as int, z as int) == 0 {
                            1u16
                        } else {
                            0u16
                        },
                    )
                } else {
                    old(self).chunk_at(spec_chunk_of(x as int, y as int, z as int)).metadata@
                },
            ),
    {
        let (c, l) = chunk_and_block_index(x, y, z);
        if !in_key_range(c) {
            return ;
        }
        let k = chunk_key(c);
        if !self.chunks.contains_key(&k) {
            return ;
        }
        let j = lin_index(l);
        match self.chunks.remove(&k) {
            Some(mut ch) => {
                let block_id = ch.blocks[j];
                if block_id == block::FURNACE {
                    let state = ch.metadata[j];
                    ch.metadata[j] = if state == 0 {
                        1
                    } else {
                        0
                    };
                }
                ch.update();
                self.chunks.insert(k, ch);
                proof {
                    assert(self.chunks@.dom() =~= old(self).chunks@.dom());
                    assert(self.chunk_at(c).metadata@ =~= if old(self).spec_block_at(
                        x as int,
                        y as int,
                        z as int,
                    ) == block::FURNACE {
                        old(self).chunk_at(c).metadata@.update(
                            spec_cell_index(x as int, y as int, z as int),
                            if old(self).spec_metadata_at(x as int, y as int, z as int) == 0 {
                                1u16
                            } else {
                                0u16
                            },
                        )
                    } else {
                        old(self).chunk_at(c).metadata@
                    });
                }
            },
            None => {
                proof {
                    assert(false);
                }
            },
        }
        self.finish_mutation(c, l, Ghost(*old(self)));
        proof {
            vstd::arithmetic::div_mod::lemma_fundamental_div_mod(x as int, 16);
            vstd::arithmetic::div_mod::lemma_fundamental_div_mod(y as int, 16);
            vstd::arithmetic::div_mod::lemma_fundamental_div_mod(z as int, 16);
            lemma_mutated_wf(
                *old(self),
                *self,
                x as int,
                y as int,
                z as int,
                spec_settled(old(self).chunk_at(c).blocks@),
                self.chunk_at(c).metadata@,
            );
        }
    }
}

/// A mutation's result is well-formed: the new owner grids are full-size
/// and hold only registry-known values, everything else is untouched or
/// merely re-meshed.
proof fn lemma_mutated_wf(
    w0: World,
    w1: World,
    x: int,
    y: int,
    z: int,
    nb: Seq<u16>,
    nm: Seq<u16>,
)
    requires
        w0.wf(),
        w0.has_chunk(spec_chunk_of(x, y, z)),
        spec_mutated(w0, w1, x, y, z, nb, nm),
        nb.len() == 4096,
        nm.len() == 4096,
        forall|j: int| 0 <= j < 4096 ==> block::spec_valid_id(#[trigger] nb[j]),
        forall|j: int| 0 <= j < 4096 ==> #[trigger] nm[j] <= 1,
        w1.chunks@.dom() == w0.chunks@.dom(),
    ensures
        w1.wf(),
{
    let c = spec_chunk_of(x, y, z);
    let l = LocalPos { x: (x % 16) as usize, y: (y % 16) as usize, z: (z % 16) as usize };
    let touched = spec_touched_all(c, l);
    // queue entries are untouched
    assert(w1.queue_wf()) by {
        assert(w1.generation_queue@ == w0.generation_queue@);
    }
    // every stored chunk is still well-formed
    assert forall|k: u64| w1.chunks@.contains_key(k) implies (#[trigger] w1.chunks@[k]).wf() by {
        if exists|cn: ChunkPos|
            #[trigger] touched.contains(cn) && spec_in_key_range(cn) && k == spec_key(cn) as u64 {
            let cn = choose|cn: ChunkPos|
                #[trigger] touched.contains(cn) && spec_in_key_range(cn) && k == spec_key(
                    cn,
                ) as u64;
            if cn == c {
                assert(w1.chunks@[k].blocks@ == nb);
                assert(w1.chunks@[k].metadata@ == nm);
            } else {
                assert(w0.has_chunk(cn));
                assert(chunk_remeshed_current(w0, w1, cn));
                assert(w0.chunks@[k].wf());
            }
        } else {
            assert forall|cn: ChunkPos|
                #[trigger] touched.contains(cn) implies !(spec_in_key_range(cn) && k == spec_key(
                cn,
            ) as u64) by {
                if spec_in_key_range(cn) && k == spec_key(cn) as u64 {
                    assert(touched.contains(cn) && spec_in_key_range(cn) && k == spec_key(
                        cn,
                    ) as u64);
                }
            }
            assert(w1.chunks@[k] == w0.chunks@[k]);
        }
    }
    // chunk existence per coordinate is unchanged
    assert forall|cp: ChunkPos| #[trigger] w1.has_chunk(cp) <==> (spec_in_key_range(cp)
        && spec_in_region(w1.chunk_radius, cp)) by {
        assert(w1.has_chunk(cp) == w0.has_chunk(cp));
    }
    // stored offsets are unchanged
    assert forall|cp: ChunkPos| #[trigger] w1.has_chunk(cp) implies (w1.chunk_at(cp).off_x == 16
        * cp.x && w1.chunk_at(cp).off_y == 16 * cp.y && w1.chunk_at(cp).off_z == 16 * cp.z) by {
        let k = spec_key(cp) as u64;
        assert(w0.has_chunk(cp));
        if cp == c {
        } else if touched.contains(cp) {
            assert(chunk_remeshed_current(w0, w1, cp));
        } else {
            assert forall|cn: ChunkPos|
                #[trigger] touched.contains(cn) implies !(spec_in_key_range(cn) && k == spec_key(
                cn,
            ) as u64) by {
                if spec_in_key_range(cn) && k == spec_key(cn) as u64 {
                    crate::coords::lemma_key_injective(cp, cn);
                }
            }
            assert(w1.chunks@[k] == w0.chunks@[k]);
        }
    }
}

impl World {
    /// The terrain pass: fills every cell of a fresh chunk from the
    /// surface-height function.
    #[verifier::loop_isolation(false)]
    fn gen_terrain(&self, chunk_index: ChunkPos, chunk: &mut Chunk)
        requires
            -256 <= chunk_index.x <= 256,
            -256 <= chunk_index.y <= 256,
            -256 <= chunk_index.z <= 256,
            old(chunk).wf(),
        ensures
            final(chunk).wf(),
            final(chunk).blocks@ == Seq::new(
                4096,
                |j: int|
                    crate::terrain::spec_terrain_block(
                        self.seed,
                        (chunk_index.x * 16 + crate::chunk::spec_lin_x(j)) as i64,
                        (chunk_index.y * 16 + crate::chunk::spec_lin_y(j)) as i64,
                        (chunk_index.z * 16 + crate::chunk::spec_lin_z(j)) as i64,
                    ),
            ),
            final(chunk).metadata == old(chunk).metadata,
            final(chunk).block_mesh == old(chunk).block_mesh,
            final(chunk).off_x == old(chunk).off_x,
            final(chunk).off_y == old(chunk).off_y,
            final(chunk).off_z == old(chunk).off_z,
    {
        let ghost target = Seq::new(
            4096,
            |j: int|
                crate::terrain::spec_terrain_block(
                    self.seed,
                    (chunk_index.x * 16 + crate::chunk::spec_lin_x(j)) as i64,
                    (chunk_index.y * 16 + crate::chunk::spec_lin_y(j)) as i64,
                    (chunk_index.z * 16 + crate::chunk::spec_lin_z(j)) as i64,
                ),
        );
        let mut x: usize = 0;
        while x < 16
            invariant
                x <= 16,
                chunk.blocks@.len() == 4096,
                forall|j: int| 0 <= j < 4096 ==> block::spec_valid_id(#[trigger] chunk.blocks@[j]),
                forall|j: int| 0 <= j < 256 * x ==> #[trigger] chunk.blocks@[j] == target[j],
                chunk.metadata == old(chunk).metadata,
                chunk.block_mesh == old(chunk).block_mesh,
                chunk.off_x == old(chunk).off_x,
                chunk.off_y == old(chunk).off_y,
                chunk.off_z == old(chunk).off_z,
            decreases 16 - x,
        {
            let mut y: usize = 0;
            while y < 16
                invariant
                    y <= 16,
                    x < 16,
                    chunk.blocks@.len() == 4096,
                    forall|j: int|
                        0 <= j < 4096 ==> block::spec_valid_id(#[trigger] chunk.blocks@[j]),
                    forall|j: int|
                        0 <= j < 256 * x + 16 * y ==> #[trigger] chunk.blocks@[j] == target[j],
                    chunk.metadata == old(chunk).metadata,
                    chunk.block_mesh == old(chunk).block_mesh,
                    chunk.off_x == old(chunk).off_x,
                    chunk.off_y == old(chunk).off_y,
                    chunk.off_z == old(chunk).off_z,
                decreases 16 - y,
            {
                let mut z: usize = 0;
                while z < 16
                    invariant
                        z <= 16,
                        y < 16,
                        x < 16,
                        chunk.blocks@.len() == 4096,
                        forall|j: int|
                            0 <= j < 4096 ==> block::spec_valid_id(#[trigger] chunk.blocks@[j]),
                        forall|j: int|
                            0 <= j < 256 * x + 16 * y + z ==> #[trigger] chunk.blocks@[j]
                                == target[j],
                        chunk.metadata == old(chunk).metadata,
                        chunk.block_mesh == old(chunk).block_mesh,
                        chunk.off_x == old(chunk).off_x,
                        chunk.off_y == old(chunk).off_y,
                        chunk.off_z == old(chunk).off_z,
                    decreases 16 - z,
                {
                    let j: usize = x * 256 + y * 16 + z;
                    let gx: i64 = chunk_index.x * 16 + x as i64;
                    let gy: i64 = chunk_index.y * 16 + y as i64;
                    let gz: i64 = chunk_index.z * 16 + z as i64;
                    let id = crate::terrain::terrain_block_at(self.seed, gx, gy, gz);
                    chunk.blocks[j] = id;
                    proof {
                        crate::chunk::lemma_lin_decode(x as int, y as int, z as int);
                        assert(chunk.blocks@[j as int] == target[j as int]);
                    }
                    z += 1;
                }
                y += 1;
            }
            x += 1;
        }
        proof {
            assert(chunk.blocks@ =~= target);
        }
    }

    /// The cave pass: clears every cell whose cave-noise sample exceeds the
    /// cutoff, leaving the rest of the terrain in place.
    #[verifier::loop_isolation(false)]
    fn gen_caves(&self, chunk_index: ChunkPos, chunk: &mut Chunk)
        requires
            -256 <= chunk_index.x <= 256,
            -256 <= chunk_index.y <= 256,
            -256 <= chunk_index.z <= 256,
            old(chunk).wf(),
            old(chunk).blocks@ == Seq::new(
                4096,
                |j: int|
                    crate::terrain::spec_terrain_block(
                        self.seed,
                        (chunk_index.x * 16 + crate::chunk::spec_lin_x(j)) as i64,
                        (chunk_index.y * 16 + crate::chunk::spec_lin_y(j)) as i64,
                        (chunk_index.z * 16 + crate::chunk::spec_lin_z(j)) as i64,
                    ),
            ),
        ensures
            final(chunk).wf(),
            final(chunk).blocks@ == spec_base_chunk(self.seed, chunk_index),
            final(chunk).metadata == old(chunk).metadata,
            final(chunk).block_mesh == old(chunk).block_mesh,
            final(chunk).off_x == old(chunk).off_x,
            final(chunk).off_y == old(chunk).off_y,
            final(chunk).off_z == old(chunk).off_z,
    {
        let ghost target = spec_base_chunk(self.seed, chunk_index);
        let ghost before = chunk.blocks@;
        let mut x: usize = 0;
        while x < 16
            invariant
                x <= 16,
                chunk.blocks@.len() == 4096,
                forall|j: int| 0 <= j < 4096 ==> block::spec_valid_id(#[trigger] chunk.blocks@[j]),
                forall|j: int| 0 <= j < 256 * x ==> #[trigger] chunk.blocks@[j] == target[j],
                forall|j: int| 256 * x <= j < 4096 ==> #[trigger] chunk.blocks@[j] == before[j],
                chunk.metadata == old(chunk).metadata,
                chunk.block_mesh == old(chunk).block_mesh,
                chunk.off_x == old(chunk).off_x,
                chunk.off_y == old(chunk).off_y,
                chunk.off_z == old(chunk).off_z,
            decreases 16 - x,
        {
            let mut y: usize = 0;
            while y < 16
                invariant
                    y <= 16,
                    x < 16,
                    chunk.blocks@.len() == 4096,
                    forall|j: int|
                        0 <= j < 4096 ==> block::spec_valid_id(#[trigger] chunk.blocks@[j]),
                    forall|j: int|
                        0 <= j < 256 * x + 16 * y ==> #[trigger] chunk.blocks@[j] == target[j],
                    forall|j: int|
                        256 * x + 16 * y <= j < 4096 ==> #[trigger] chunk.blocks@[j] == before[j],
                    chunk.metadata == old(chunk).metadata,
                    chunk.block_mesh == old(chunk).block_mesh,
                    chunk.off_x == old(chunk).off_x,
                    chunk.off_y == old(chunk).off_y,
                    chunk.off_z == old(chunk).off_z,
                decreases 16 - y,
            {
                let mut z: usize = 0;
                while z < 16
                    invariant
                        z <= 16,
                        y < 16,
                        x < 16,
                        chunk.blocks@.len() == 4096,
                        forall|j: int|
                            0 <= j < 4096 ==> block::spec_valid_id(#[trigger] chunk.blocks@[j]),
                        forall|j: int|
                            0 <= j < 256 * x + 16 * y + z ==> #[trigger] chunk.blocks@[j]
                                == target[j],
                        forall|j: int|
                            256 * x + 16 * y + z <= j < 4096 ==> #[trigger] chunk.blocks@[j]
                                == before[j],
                        chunk.metadata == old(chunk).metadata,
                        chunk.block_mesh == old(chunk).block_mesh,
                        chunk.off_x == old(chunk).off_x,
                        chunk.off_y == old(chunk).off_y,
                        chunk.off_z == old(chunk).off_z,
                    decreases 16 - z,
                {
                    let j: usize = x * 256 + y * 16 + z;
                    let gx: i64 = chunk_index.x * 16 + x as i64;
                    let gy: i64 = chunk_index.y * 16 + y as i64;
                    let gz: i64 = chunk_index.z * 16 + z as i64;
                    let nx = crate::coords::floor_div(gx * 65536, crate::terrain::CAVE_SCALE_DIV);
                    let ny = crate::coords::floor_div(gy * 65536, crate::terrain::CAVE_SCALE_DIV);
                    let nz = crate::coords::floor_div(gz * 65536, crate::terrain::CAVE_SCALE_DIV);
                    let n = crate::noisefield::noise3(
                        self.seed,
                        crate::sampling::SALT_NOISE_CAVE,
                        nx,
                        ny,
                        nz,
                    );
                    if n > crate::terrain::CAVE_CUTOFF {
                        chunk.blocks[j] = block::AIR;
                    }
                    proof {
                        crate::chunk::lemma_lin_decode(x as int, y as int, z as int);
                        assert(chunk.blocks@[j as int] == target[j as int]);
                    }
                    z += 1;
                }
                y += 1;
            }
            x += 1;
        }
        proof {
            assert(chunk.blocks@ =~= target);
        }
    }

    /// The foliage pass of one chunk: every surface cell rolls for a
    /// decorative plant or a tree; the resulting writes land in whichever
    /// chunks own them, deferred where those chunks do not exist yet.
    #[verifier::loop_isolation(false)]
    #[verifier::rlimit(100)]
    fn gen_foliage(&mut self, chunk_index: ChunkPos)
        requires
            -256 <= chunk_index.x <= 256,
            -256 <= chunk_index.y <= 256,
            -256 <= chunk_index.z <= 256,
            map_wf(old(self).chunks@),
            old(self).queue_wf(),
        ensures
            map_wf(final(self).chunks@),
            final(self).queue_wf(),
            final(self).gen_model() == spec_fol_prefix(
                old(self).seed,
                old(self).gen_model(),
                chunk_index,
                4096,
            ),
            final(self).chunks@.dom() == old(self).chunks@.dom(),
            forall|k: u64|
                old(self).chunks@.contains_key(k) ==> {
                    let ch_o = #[trigger] old(self).chunks@[k];
                    let ch_n = final(self).chunks@[k];
                    ch_n.metadata == ch_o.metadata && ch_n.block_mesh == ch_o.block_mesh
                        && ch_n.off_x == ch_o.off_x && ch_n.off_y == ch_o.off_y && ch_n.off_z
                        == ch_o.off_z
                },
            final(self).seed == old(self).seed,
            final(self).chunk_radius == old(self).chunk_radius,
            final(self).positions == old(self).positions,
            final(self).texture == old(self).texture,
            final(self).terrain_shader == old(self).terrain_shader,
    {
        let ghost st0 = self.gen_model();
        let mut x: usize = 0;
        while x < 16
            invariant
                x <= 16,
                map_wf(self.chunks@),
                self.queue_wf(),
                self.gen_model() == spec_fol_prefix(
                    old(self).seed,
                    st0,
                    chunk_index,
                    256 * x as int,
                ),
                self.chunks@.dom() == old(self).chunks@.dom(),
                forall|k: u64|
                    old(self).chunks@.contains_key(k) ==> {
                        let ch_o = #[trigger] old(self).chunks@[k];
                        let ch_n = self.chunks@[k];
                        ch_n.metadata == ch_o.metadata && ch_n.block_mesh == ch_o.block_mesh
                            && ch_n.off_x == ch_o.off_x && ch_n.off_y == ch_o.off_y && ch_n.off_z
                            == ch_o.off_z
                    },
                self.seed == old(self).seed,
                self.chunk_radius == old(self).chunk_radius,
                self.positions == old(self).positions,
                self.texture == old(self).texture,
                self.terrain_shader == old(self).terrain_shader,
            decreases 16 - x,
        {
            let mut y: usize = 0;
            while y < 16
                invariant
                    y <= 16,
                    x < 16,
                    map_wf(self.chunks@),
                    self.queue_wf(),
                    self.gen_model() == spec_fol_prefix(
                        old(self).seed,
                        st0,
                        chunk_index,
                        256 * x as int + 16 * y as int,
                    ),
                    self.chunks@.dom() == old(self).chunks@.dom(),
                    forall|k: u64|
                        old(self).chunks@.contains_key(k) ==> {
                            let ch_o = #[trigger] old(self).chunks@[k];
                            let ch_n = self.chunks@[k];
                            ch_n.metadata == ch_o.metadata && ch_n.block_mesh == ch_o.block_mesh
                                && ch_n.off_x == ch_o.off_x && ch_n.off_y == ch_o.off_y
                                && ch_n.off_z == ch_o.off_z
                        },
                    self.seed == old(self).seed,
                    self.chunk_radius == old(self).chunk_radius,
                    self.positions == old(self).positions,
                    self.texture == old(self).texture,
                    self.terrain_shader == old(self).terrain_shader,
                decreases 16 - y,
            {
                let mut z: usize = 0;
                while z < 16
                    invariant
                        z <= 16,
                        y < 16,
                        x < 16,
                        map_wf(self.chunks@),
                        self.queue_wf(),
                        self.gen_model() == spec_fol_prefix(
                            old(self).seed,
                            st0,
                            chunk_index,
                            256 * x as int + 16 * y as int + z as int,
                        ),
                        self.chunks@.dom() == old(self).chunks@.dom(),
                        forall|k: u64|
                            old(self).chunks@.contains_key(k) ==> {
                                let ch_o = #[trigger] old(self).chunks@[k];
                                let ch_n = self.chunks@[k];
                                ch_n.metadata == ch_o.metadata && ch_n.block_mesh
                                    == ch_o.block_mesh && ch_n.off_x == ch_o.off_x && ch_n.off_y
                                    == ch_o.off_y && ch_n.off_z == ch_o.off_z
                            },
                        self.seed == old(self).seed,
                        self.chunk_radius == old(self).chunk_radius,
                        self.positions == old(self).positions,
                        self.texture == old(self).texture,
                        self.terrain_shader == old(self).terrain_shader,
                    decreases 16 - z,
                {
                    let gx: i64 = chunk_index.x * 16 + x as i64;
                    let gy: i64 = chunk_index.y * 16 + y as i64;
                    let gz: i64 = chunk_index.z * 16 + z as i64;
                    let ws = cell_writes(self.seed, gx, gy, gz);
                    self.apply_gen_writes(&ws);
                    proof {
                        crate::chunk::lemma_lin_decode(x as int, y as int, z as int);
                    }
                    z += 1;
                }
                y += 1;
            }
            x += 1;
        }
    }
}

/// Invariant of the generation phase: well-formed storage, zeroed
/// metadata, no meshes yet, stored offsets matching coordinates, and every
/// recorded position materialized.
pub open spec fn gen_phase_inv(w: World) -> bool {
    &&& map_wf(w.chunks@)
    &&& w.queue_wf()
    &&& forall|k: u64|
        #[trigger] w.chunks@.contains_key(k) ==> (w.chunks@[k].metadata@ == Seq::new(
            4096,
            |j: int| 0u16,
        ) && w.chunks@[k].block_mesh is None)
    &&& forall|cp: ChunkPos|
        #[trigger] w.has_chunk(cp) ==> (w.chunk_at(cp).off_x == 16 * cp.x && w.chunk_at(cp).off_y
            == 16 * cp.y && w.chunk_at(cp).off_z == 16 * cp.z)
    &&& forall|i: int| 0 <= i < w.positions@.len() ==> w.has_chunk(#[trigger] w.positions@[i])
}

/// Region iteration order: `cp` comes strictly before the cursor
/// (cx, cy, cz) in the x-major, then y, then z sweep of the region.
pub open spec fn region_before(cp: ChunkPos, cx: int, cy: int, cz: int) -> bool {
    cp.x < cx || (cp.x == cx && (cp.y < cy || (cp.y == cy && cp.z < cz)))
}

impl World {
    /// Generates every chunk of the region, in x-major order: for each
    /// coordinate, the three terrain-generator passes run and the chunk is
    /// inserted.
    #[verifier::loop_isolation(false)]
    fn generate_region(&mut self)
        requires
            old(self).chunks@ == Map::<u64, Chunk>::empty(),
            old(self).generation_queue@ == Map::<u64, Vec<(usize, u16)>>::empty(),
            old(self).positions@ == Seq::<ChunkPos>::empty(),
            0 <= old(self).chunk_radius <= 256,
        ensures
            gen_phase_inv(*final(self)),
            final(self).gen_model() == crate::terrain::spec_gen_all(
                old(self).seed,
                old(self).chunk_radius,
            ),
            final(self).seed == old(self).seed,
            final(self).chunk_radius == old(self).chunk_radius,
            final(self).texture == old(self).texture,
            final(self).terrain_shader == old(self).terrain_shader,
    {
        let r = self.chunk_radius;
        let ghost seed = self.seed;
        proof {
            assert(self.gen_model().grid =~= GenState::initial().grid);
            assert(self.gen_model().queue =~= GenState::initial().queue);
        }
        let mut cx: i64 = -r;
        while cx < r
            invariant
                -r <= cx <= r,
                gen_phase_inv(*self),
                self.gen_model() == crate::terrain::spec_gen_x(
                    seed,
                    r,
                    GenState::initial(),
                    cx + r,
                ),
                self.seed == seed,
                self.chunk_radius == r,
                self.texture == old(self).texture,
                self.terrain_shader == old(self).terrain_shader,
            decreases r - cx,
        {
            self.gen_slice(cx);
            cx += 1;
        }
    }

    /// Generates one x slice of the region.
    #[verifier::loop_isolation(false)]
    fn gen_slice(&mut self, cx: i64)
        requires
            gen_phase_inv(*old(self)),
            0 <= old(self).chunk_radius <= 256,
            -(old(self).chunk_radius as int) <= cx < old(self).chunk_radius as int,
        ensures
            gen_phase_inv(*final(self)),
            final(self).gen_model() == crate::terrain::spec_gen_y(
                old(self).seed,
                old(self).chunk_radius,
                old(self).gen_model(),
                cx,
                old(self).chunk_radius as int,
            ),
            final(self).seed == old(self).seed,
            final(self).chunk_radius == old(self).chunk_radius,
            final(self).texture == old(self).texture,
            final(self).terrain_shader == old(self).terrain_shader,
    {
        let r = self.chunk_radius;
        let ghost seed = self.seed;
        let ghost st0 = self.gen_model();
        let mut cy: i64 = 0;
        while cy < r
            invariant
                0 <= cy <= r,
                -r <= cx < r,
                gen_phase_inv(*self),
                self.gen_model() == crate::terrain::spec_gen_y(seed, r, st0, cx, cy as int),
                self.seed == seed,
                self.chunk_radius == r,
                self.texture == old(self).texture,
                self.terrain_shader == old(self).terrain_shader,
            decreases r - cy,
        {
            self.gen_row(cx, cy);
            cy += 1;
        }
    }

    /// Generates one z row of the region.
    #[verifier::loop_isolation(false)]
    #[verifier::rlimit(100)]
    fn gen_row(&mut self, cx: i64, cy: i64)
        requires
            gen_phase_inv(*old(self)),
            0 <= old(self).chunk_radius <= 256,
            -(old(self).chunk_radius as int) <= cx < old(self).chunk_radius as int,
            0 <= cy < old(self).chunk_radius as int,
        ensures
            gen_phase_inv(*final(self)),
            final(self).gen_model() == crate::terrain::spec_gen_z(
                old(self).seed,
                old(self).chunk_radius,
                old(self).gen_model(),
                cx,
                cy,
                2 * old(self).chunk_radius as int,
            ),
            final(self).seed == old(self).seed,
            final(self).chunk_radius == old(self).chunk_radius,
            final(self).texture == old(self).texture,
            final(self).terrain_shader == old(self).terrain_shader,
    {
        let r = self.chunk_radius;
        let ghost seed = self.seed;
        let ghost st0 = self.gen_model();
        let mut cz: i64 = -r;
        while cz < r
            invariant
                -r <= cz <= r,
                -r <= cx < r,
                0 <= cy < r,
                gen_phase_inv(*self),
                self.gen_model() == crate::terrain::spec_gen_z(seed, r, st0, cx, cy, cz + r),
                self.seed == seed,
                self.chunk_radius == r,
                self.texture == old(self).texture,
                self.terrain_shader == old(self).terrain_shader,
            decreases r - cz,
        {
            let c = ChunkPos { x: cx, y: cy, z: cz };
            let ghost prev = *self;
            self.gen_one_chunk(c);
            proof {
                assert forall|cp: ChunkPos| #[trigger] self.has_chunk(cp) implies (self.chunk_at(
                    cp,
                ).off_x == 16 * cp.x && self.chunk_at(cp).off_y == 16 * cp.y && self.chunk_at(
                    cp,
                ).off_z == 16 * cp.z) by {
                    if spec_key(cp) as u64 == spec_key(c) as u64 {
                        if spec_in_key_range(cp) {
                            crate::coords::lemma_key_injective(cp, c);
                        }
                    } else {
                        assert(prev.has_chunk(cp));
                    }
                }
                assert forall|i: int| 0 <= i < self.positions@.len() implies self.has_chunk(
                    #[trigger] self.positions@[i],
                ) by {
                    if i < prev.positions@.len() {
                        assert(prev.has_chunk(prev.positions@[i]));
                    }
                }
            }
            cz += 1;
        }
    }

    /// Generates one chunk at coordinate `c`: terrain, caves and foliage,
    /// then inserts it and records its coordinate.
    fn gen_one_chunk(&mut self, c: ChunkPos)
        requires
            map_wf(old(self).chunks@),
            old(self).queue_wf(),
            -256 <= c.x <= 256,
            -256 <= c.y <= 256,
            -256 <= c.z <= 256,
        ensures
            map_wf(final(self).chunks@),
            final(self).queue_wf(),
            final(self).gen_model() == spec_gen_chunk(
                old(self).seed,
                old(self).gen_model(),
                c,
            ),
            final(self).chunks@.dom() == old(self).chunks@.dom().insert(spec_key(c) as u64),
            forall|k: u64|
                old(self).chunks@.contains_key(k) && k != spec_key(c) as u64 ==> {
                    let ch_o = #[trigger] old(self).chunks@[k];
                    let ch_n = final(self).chunks@[k];
                    ch_n.metadata == ch_o.metadata && ch_n.block_mesh == ch_o.block_mesh
                        && ch_n.off_x == ch_o.off_x && ch_n.off_y == ch_o.off_y && ch_n.off_z
                        == ch_o.off_z
                },
            final(self).chunks@[spec_key(c) as u64].metadata@ == Seq::new(4096, |j: int| 0u16),
            final(self).chunks@[spec_key(c) as u64].block_mesh is None,
            final(self).chunks@[spec_key(c) as u64].off_x == 16 * c.x,
            final(self).chunks@[spec_key(c) as u64].off_y == 16 * c.y,
            final(self).chunks@[spec_key(c) as u64].off_z == 16 * c.z,
            final(self).positions@ == old(self).positions@.push(c),
            final(self).seed == old(self).seed,
            final(self).chunk_radius == old(self).chunk_radius,
            final(self).texture == old(self).texture,
            final(self).terrain_shader == old(self).terrain_shader,
    {
        let ghost before = self.gen_model();
        let ghost seed = self.seed;
        let blocks = crate::chunk::empty_grid();
        let mut cur_chunk = Chunk::from_blocks(blocks, 16 * c.x, 16 * c.y, 16 * c.z);
        self.gen_terrain(c, &mut cur_chunk);
        self.gen_caves(c, &mut cur_chunk);
        self.gen_foliage(c);
        let k = chunk_key(c);
        self.chunks.insert(k, cur_chunk);
        self.positions.push(c);
        proof {
            let mid = crate::terrain::spec_fol_prefix(seed, before, c, 4096);
            assert(self.gen_model().grid =~= mid.grid.insert(
                spec_key(c) as u64,
                spec_base_chunk(seed, c),
            ));
            assert(self.gen_model().queue =~= mid.queue);
            assert(self.gen_model() == spec_gen_chunk(seed, before, c));
            assert(self.chunks@.dom() =~= old(self).chunks@.dom().insert(spec_key(c) as u64));
        }
    }

    /// Drains the deferred queue entry of one chunk: every queued write is
    /// applied to it, and the entry is removed.
    #[verifier::loop_isolation(false)]
    fn drain_chunk_at(&mut self, c: ChunkPos)
        requires
            map_wf(old(self).chunks@),
            old(self).queue_wf(),
            spec_in_key_range(c),
        ensures
            map_wf(final(self).chunks@),
            final(self).queue_wf(),
            final(self).gen_model() == crate::terrain::spec_drain_chunk(old(self).gen_model(), c),
            final(self).chunks@.dom() == old(self).chunks@.dom(),
            forall|k: u64|
                old(self).chunks@.contains_key(k) ==> {
                    let ch_o = #[trigger] old(self).chunks@[k];
                    let ch_n = final(self).chunks@[k];
                    ch_n.metadata == ch_o.metadata && ch_n.block_mesh == ch_o.block_mesh
                        && ch_n.off_x == ch_o.off_x && ch_n.off_y == ch_o.off_y && ch_n.off_z
                        == ch_o.off_z
                },
            final(self).seed == old(self).seed,
            final(self).chunk_radius == old(self).chunk_radius,
            final(self).positions == old(self).positions,
            final(self).texture == old(self).texture,
            final(self).terrain_shader == old(self).terrain_shader,
    {
        let k = chunk_key(c);
        let ghost st0 = self.gen_model();
        match self.generation_queue.remove(&k) {
            None => {
                proof {
                    assert(self.gen_model().grid =~= st0.grid);
                    assert(self.gen_model().queue =~= st0.queue);
                }
            },
            Some(q) => {
                match self.chunks.remove(&k) {
                    Some(mut ch) => {
                        let ghost b0 = ch.blocks@;
                        let mut i: usize = 0;
                        while i < q.len()
                            invariant
                                i <= q@.len(),
                                queue_entry_wf(q@),
                                ch.blocks@.len() == 4096,
                                forall|j: int|
                                    0 <= j < 4096 ==> block::spec_valid_id(
                                        #[trigger] ch.blocks@[j],
                                    ),
                                ch.blocks@ == crate::terrain::spec_apply_local(b0, q@, i as int),
                                ch.metadata == old(self).chunks@[k].metadata,
                                ch.block_mesh == old(self).chunks@[k].block_mesh,
                                ch.off_x == old(self).chunks@[k].off_x,
                                ch.off_y == old(self).chunks@[k].off_y,
                                ch.off_z == old(self).chunks@[k].off_z,
                            decreases q@.len() - i,
                        {
                            let w = q[i];
                            ch.blocks[w.0] = w.1;
                            i += 1;
                        }
                        self.chunks.insert(k, ch);
                        proof {
                            assert(self.gen_model().grid =~= crate::terrain::spec_drain_chunk(
                                st0,
                                c,
                            ).grid);
                            assert(self.gen_model().queue =~= crate::terrain::spec_drain_chunk(
                                st0,
                                c,
                            ).queue);
                        }
                    },
                    None => {
                        proof {
                            assert(self.gen_model().grid =~= crate::terrain::spec_drain_chunk(
                                st0,
                                c,
                            ).grid);
                            assert(self.gen_model().queue =~= crate::terrain::spec_drain_chunk(
                                st0,
                                c,
                            ).queue);
                        }
                    },
                }
            },
        }
    }

    /// Drains the whole deferred queue over the region, in generation
    /// order: queued writes whose chunk was materialized are applied;
    /// entries for chunks that never materialized stay and are dropped by
    /// the caller.
    #[verifier::loop_isolation(false)]
    fn drain_region(&mut self)
        requires
            map_wf(old(self).chunks@),
            old(self).queue_wf(),
            0 <= old(self).chunk_radius <= 256,
        ensures
            map_wf(final(self).chunks@),
            final(self).queue_wf(),
            final(self).gen_model() == crate::terrain::spec_drain_x(
                old(self).gen_model(),
                old(self).chunk_radius,
                2 * old(self).chunk_radius as int,
            ),
            final(self).chunks@.dom() == old(self).chunks@.dom(),
            forall|k: u64|
                old(self).chunks@.contains_key(k) ==> {
                    let ch_o = #[trigger] old(self).chunks@[k];
                    let ch_n = final(self).chunks@[k];
                    ch_n.metadata == ch_o.metadata && ch_n.block_mesh == ch_o.block_mesh
                        && ch_n.off_x == ch_o.off_x && ch_n.off_y == ch_o.off_y && ch_n.off_z
                        == ch_o.off_z
                },
            final(self).seed == old(self).seed,
            final(self).chunk_radius == old(self).chunk_radius,
            final(self).positions == old(self).positions,
            final(self).texture == old(self).texture,
            final(self).terrain_shader == old(self).terrain_shader,
    {
        let r = self.chunk_radius;
        let ghost st0 = self.gen_model();
        let mut cx: i64 = -r;
        while cx < r
            invariant
                -r <= cx <= r,
                map_wf(self.chunks@),
                self.queue_wf(),
                self.gen_model() == crate::terrain::spec_drain_x(st0, r, cx + r),
                st0 == old(self).gen_model(),
                self.chunks@.dom() == old(self).chunks@.dom(),
                forall|k: u64|
                    old(self).chunks@.contains_key(k) ==> {
                        let ch_o = #[trigger] old(self).chunks@[k];
                        let ch_n = self.chunks@[k];
                        ch_n.metadata == ch_o.metadata && ch_n.block_mesh == ch_o.block_mesh
                            && ch_n.off_x == ch_o.off_x && ch_n.off_y == ch_o.off_y && ch_n.off_z
                            == ch_o.off_z
                    },
                self.seed == old(self).seed,
                self.chunk_radius == r,
                self.positions == old(self).positions,
                self.texture == old(self).texture,
                self.terrain_shader == old(self).terrain_shader,
            decreases r - cx,
        {
            let ghost stx = self.gen_model();
            let mut cy: i64 = 0;
            while cy < r
                invariant
                    0 <= cy <= r,
                    -r <= cx < r,
                    map_wf(self.chunks@),
                    self.queue_wf(),
                    self.gen_model() == crate::terrain::spec_drain_y(stx, r, cx, cy as int),
                    stx == crate::terrain::spec_drain_x(st0, r, cx + r),
                    st0 == old(self).gen_model(),
                    self.chunks@.dom() == old(self).chunks@.dom(),
                    forall|k: u64|
                        old(self).chunks@.contains_key(k) ==> {
                            let ch_o = #[trigger] old(self).chunks@[k];
                            let ch_n = self.chunks@[k];
                            ch_n.metadata == ch_o.metadata && ch_n.block_mesh == ch_o.block_mesh
                                && ch_n.off_x == ch_o.off_x && ch_n.off_y == ch_o.off_y
                                && ch_n.off_z == ch_o.off_z
                        },
                    self.seed == old(self).seed,
                    self.chunk_radius == r,
                    self.positions == old(self).positions,
                    self.texture == old(self).texture,
                    self.terrain_shader == old(self).terrain_shader,
                decreases r - cy,
            {
                let ghost sty = self.gen_model();
                let mut cz: i64 = -r;
                while cz < r
                    invariant
                        -r <= cz <= r,
                        0 <= cy < r,
                        -r <= cx < r,
                        map_wf(self.chunks@),
                        self.queue_wf(),
                        self.gen_model() == crate::terrain::spec_drain_z(
                            sty,
                            r,
                            cx,
                            cy,
                            cz + r,
                        ),
                        sty == crate::terrain::spec_drain_y(stx, r, cx, cy as int),
                        stx == crate::terrain::spec_drain_x(st0, r, cx + r),
                        st0 == old(self).gen_model(),
                        self.chunks@.dom() == old(self).chunks@.dom(),
                        forall|k: u64|
                            old(self).chunks@.contains_key(k) ==> {
                                let ch_o = #[trigger] old(self).chunks@[k];
                                let ch_n = self.chunks@[k];
                                ch_n.metadata == ch_o.metadata && ch_n.block_mesh
                                    == ch_o.block_mesh && ch_n.off_x == ch_o.off_x && ch_n.off_y
                                    == ch_o.off_y && ch_n.off_z == ch_o.off_z
                            },
                        self.seed == old(self).seed,
                        self.chunk_radius == r,
                        self.positions == old(self).positions,
                        self.texture == old(self).texture,
                        self.terrain_shader == old(self).terrain_shader,
                    decreases r - cz,
                {
                    self.drain_chunk_at(ChunkPos { x: cx, y: cy, z: cz });
                    cz += 1;
                }
                cy += 1;
            }
            cx += 1;
        }
    }

    /// Builds the cached mesh of every region chunk, in generation order.
    #[verifier::loop_isolation(false)]
    fn mesh_region(&mut self)
        requires
            map_wf(old(self).chunks@),
            old(self).queue_wf(),
            0 <= old(self).chunk_radius <= 256,
        ensures
            map_wf(final(self).chunks@),
            final(self).queue_wf(),
            blocks_model(final(self).chunks@) == blocks_model(old(self).chunks@),
            meta_model(final(self).chunks@) == meta_model(old(self).chunks@),
            final(self).chunks@.dom() == old(self).chunks@.dom(),
            forall|k: u64|
                old(self).chunks@.contains_key(k) ==> {
                    let ch_o = #[trigger] old(self).chunks@[k];
                    let ch_n = final(self).chunks@[k];
                    ch_n.metadata == ch_o.metadata && ch_n.blocks == ch_o.blocks && ch_n.off_x
                        == ch_o.off_x && ch_n.off_y == ch_o.off_y && ch_n.off_z == ch_o.off_z
                },
            forall|cp: ChunkPos|
                spec_in_region(final(self).chunk_radius, cp) && #[trigger] final(self).has_chunk(
                    cp,
                ) ==> chunk_remeshed_current(*old(self), *final(self), cp),
            final(self).generation_queue == old(self).generation_queue,
            final(self).seed == old(self).seed,
            final(self).chunk_radius == old(self).chunk_radius,
            final(self).positions == old(self).positions,
            final(self).texture == old(self).texture,
            final(self).terrain_shader == old(self).terrain_shader,
    {
        let r = self.chunk_radius;
        let mut cx: i64 = -r;
        while cx < r
            invariant
                -r <= cx <= r,
                map_wf(self.chunks@),
                self.queue_wf() == old(self).queue_wf(),
                blocks_model(self.chunks@) == blocks_model(old(self).chunks@),
                meta_model(self.chunks@) == meta_model(old(self).chunks@),
                self.chunks@.dom() == old(self).chunks@.dom(),
                forall|k: u64|
                    old(self).chunks@.contains_key(k) ==> {
                        let ch_o = #[trigger] old(self).chunks@[k];
                        let ch_n = self.chunks@[k];
                        ch_n.metadata == ch_o.metadata && ch_n.blocks == ch_o.blocks && ch_n.off_x
                            == ch_o.off_x && ch_n.off_y == ch_o.off_y && ch_n.off_z == ch_o.off_z
                    },
                forall|cp: ChunkPos|
                    spec_in_region(r, cp) && #[trigger] self.has_chunk(cp) && region_before(
                        cp,
                        cx as int,
                        0,
                        -(r as int),
                    ) ==> chunk_remeshed_current(*old(self), *self, cp),
                self.generation_queue == old(self).generation_queue,
                self.seed == old(self).seed,
                self.chunk_radius == r,
                self.positions == old(self).positions,
                self.texture == old(self).texture,
                self.terrain_shader == old(self).terrain_shader,
            decreases r - cx,
        {
            let mut cy: i64 = 0;
            while cy < r
                invariant
                    0 <= cy <= r,
                    -r <= cx < r,
                    map_wf(self.chunks@),
                    self.queue_wf() == old(self).queue_wf(),
                    blocks_model(self.chunks@) == blocks_model(old(self).chunks@),
                    meta_model(self.chunks@) == meta_model(old(self).chunks@),
                    self.chunks@.dom() == old(self).chunks@.dom(),
                    forall|k: u64|
                        old(self).chunks@.contains_key(k) ==> {
                            let ch_o = #[trigger] old(self).chunks@[k];
                            let ch_n = self.chunks@[k];
                            ch_n.metadata == ch_o.metadata && ch_n.blocks == ch_o.blocks
                                && ch_n.off_x == ch_o.off_x && ch_n.off_y == ch_o.off_y
                                && ch_n.off_z == ch_o.off_z
                        },
                    forall|cp: ChunkPos|
                        spec_in_region(r, cp) && #[trigger] self.has_chunk(cp) && region_before(
                            cp,
                            cx as int,
                            cy as int,
                            -(r as int),
                        ) ==> chunk_remeshed_current(*old(self), *self, cp),
                    self.generation_queue == old(self).generation_queue,
                    self.seed == old(self).seed,
                    self.chunk_radius == r,
                    self.positions == old(self).positions,
                    self.texture == old(self).texture,
                    self.terrain_shader == old(self).terrain_shader,
                decreases r - cy,
            {
                let mut cz: i64 = -r;
                while cz < r
                    invariant
                        -r <= cz <= r,
                        0 <= cy < r,
                        -r <= cx < r,
                        map_wf(self.chunks@),
                        self.queue_wf() == old(self).queue_wf(),
                        blocks_model(self.chunks@) == blocks_model(old(self).chunks@),
                        meta_model(self.chunks@) == meta_model(old(self).chunks@),
                        self.chunks@.dom() == old(self).chunks@.dom(),
                        forall|k: u64|
                            old(self).chunks@.contains_key(k) ==> {
                                let ch_o = #[trigger] old(self).chunks@[k];
                                let ch_n = self.chunks@[k];
                                ch_n.metadata == ch_o.metadata && ch_n.blocks == ch_o.blocks
                                    && ch_n.off_x == ch_o.off_x && ch_n.off_y == ch_o.off_y
                                    && ch_n.off_z == ch_o.off_z
                            },
                        forall|cp: ChunkPos|
                            spec_in_region(r, cp) && #[trigger] self.has_chunk(cp)
                                && region_before(cp, cx as int, cy as int, cz as int)
                                ==> chunk_remeshed_current(*old(self), *self, cp),
                        self.generation_queue == old(self).generation_queue,
                        self.seed == old(self).seed,
                        self.chunk_radius == r,
                        self.positions == old(self).positions,
                        self.texture == old(self).texture,
                        self.terrain_shader == old(self).terrain_shader,
                    decreases r - cz,
                {
                    let c = ChunkPos { x: cx, y: cy, z: cz };
                    let ghost prev = *self;
                    self.gen_chunk_mesh(c);
                    proof {
                        let t = Set::<ChunkPos>::empty().insert(c);
                        assert forall|cp: ChunkPos|
                            spec_in_region(r, cp) && #[trigger] self.has_chunk(cp)
                                && region_before(cp, cx as int, cy as int, cz as int + 1) implies
                        chunk_remeshed_current(*old(self), *self, cp) by {
                            if cp == c {
                                assert(t.contains(c));
                                assert(prev.has_chunk(c));
                                assert(chunk_remeshed(prev, *self, c));
                                assert(old(self).chunks@.contains_key(spec_key(c) as u64));
                                assert(prev.chunks@[spec_key(c) as u64].blocks == old(
                                    self,
                                ).chunks@[spec_key(c) as u64].blocks);
                                assert(blocks_model(prev.chunks@) == blocks_model(
                                    old(self).chunks@,
                                ));
                                assert(meta_model(prev.chunks@) == meta_model(
                                    old(self).chunks@,
                                ));
                            } else {
                                assert(region_before(cp, cx as int, cy as int, cz as int));
                                assert(prev.has_chunk(cp));
                                assert(chunk_remeshed_current(*old(self), prev, cp));
                                assert forall|cn: ChunkPos|
                                    #[trigger] t.contains(cn) implies !(spec_in_key_range(cn)
                                    && spec_key(cp) as u64 == spec_key(cn) as u64) by {
                                    if spec_in_key_range(cn) && spec_key(cp) as u64 == spec_key(
                                        cn,
                                    ) as u64 {
                                        crate::coords::lemma_key_injective(cp, cn);
                                    }
                                }
                                assert(self.chunks@[spec_key(cp) as u64] == prev.chunks@[spec_key(
                                    cp,
                                ) as u64]);
                                assert(blocks_model(self.chunks@) == blocks_model(prev.chunks@));
                                assert(meta_model(self.chunks@) == meta_model(prev.chunks@));
                            }
                        }
                    }
                    cz += 1;
                }
                cy += 1;
            }
            cx += 1;
        }
    }
}

impl World {
    /// Builds the world: generates every chunk of the bounded region from
    /// the seed (terrain, caves, foliage with deferred cross-chunk writes),
    /// drains the deferred queue, drops entries whose chunk never
    /// materialized, and builds every chunk's mesh. The resulting block
    /// grid is a pure function of (seed, chunk_radius).
    pub fn new(texture: u32, world_shader: u32, seed: u32, chunk_radius: i64) -> (w: World)
        requires
            0 <= chunk_radius <= 256,
        ensures
            w.wf(),
            w.seed == seed,
            w.chunk_radius == chunk_radius,
            w.texture == texture,
            w.terrain_shader == world_shader,
            blocks_model(w.chunks@) == crate::terrain::spec_world_grid(seed, chunk_radius),
            w.generation_queue@ == Map::<u64, Vec<(usize, u16)>>::empty(),
            forall|x: int, y: int, z: int|
                #[trigger] w.spec_block_at(x, y, z) == crate::terrain::spec_generated_block(
                    seed,
                    chunk_radius,
                    x,
                    y,
                    z,
                ),
            forall|x: int, y: int, z: int| #[trigger] w.spec_metadata_at(x, y, z) == 0,
            forall|cp: ChunkPos|
                #[trigger] w.has_chunk(cp) ==> (w.chunk_at(cp).block_mesh matches Some(m)
                    && w.chunk_at(cp).block_mesh->Some_0.faces@ == spec_chunk_faces(
                    blocks_model(w.chunks@),
                    meta_model(w.chunks@),
                    cp,
                ) && w.chunk_at(cp).block_mesh->Some_0.texture == texture && w.chunk_at(
                    cp,
                ).block_mesh->Some_0.shader == world_shader),
    {
        let mut world = World {
            seed,
            chunk_radius,
            chunks: HashMap::new(),
            generation_queue: HashMap::new(),
            positions: Vec::new(),
            texture,
            terrain_shader: world_shader,
        };
        world.generate_region();
        let ghost w_gen = world;
        world.drain_region();
        let ghost w_drained = world;
        // deferred writes whose chunk never materialized are dropped for good
        world.generation_queue.clear();
        let ghost w_clear = world;
        world.mesh_region();
        proof {
            let r = chunk_radius;
            let grid = crate::terrain::spec_world_grid(seed, r);
            assert(w_drained.gen_model().grid == grid);
            assert(blocks_model(w_clear.chunks@) == blocks_model(w_drained.chunks@));
            assert(blocks_model(world.chunks@) == grid);
            assert(meta_model(world.chunks@) == meta_model(w_clear.chunks@));
            // exactly the region's chunks exist
            assert forall|cp: ChunkPos| #[trigger] world.has_chunk(cp) <==> (spec_in_key_range(cp)
                && spec_in_region(r, cp)) by {
                if spec_in_key_range(cp) {
                    crate::terrain::lemma_world_grid_dom(seed, r, cp);
                    assert(grid.contains_key(spec_key(cp) as u64) == world.chunks@.contains_key(
                        spec_key(cp) as u64,
                    ));
                }
            }
            // per-chunk facts survive draining, clearing and meshing
            assert forall|cp: ChunkPos| #[trigger] world.has_chunk(cp) implies {
                let k = spec_key(cp) as u64;
                &&& world.chunks@[k].off_x == 16 * cp.x
                &&& world.chunks@[k].off_y == 16 * cp.y
                &&& world.chunks@[k].off_z == 16 * cp.z
                &&& world.chunks@[k].metadata@ == Seq::new(4096, |j: int| 0u16)
                &&& world.chunks@[k].wf()
            } by {
                let k = spec_key(cp) as u64;
                assert(w_gen.chunks@.contains_key(k));
                assert(w_gen.has_chunk(cp));
                assert(w_drained.chunks@[k].metadata == w_gen.chunks@[k].metadata);
                assert(w_clear.chunks@[k] == w_drained.chunks@[k]);
                assert(world.chunks@[k].metadata == w_clear.chunks@[k].metadata);
                assert(map_wf(world.chunks@));
            }
            // every chunk's mesh was regenerated against the final state
            assert forall|cp: ChunkPos| #[trigger] world.has_chunk(cp) implies (world.chunk_at(
                cp,
            ).block_mesh matches Some(m) && world.chunk_at(cp).block_mesh->Some_0.faces@
                == spec_chunk_faces(blocks_model(world.chunks@), meta_model(world.chunks@), cp)
                && world.chunk_at(cp).block_mesh->Some_0.texture == texture && world.chunk_at(
                cp,
            ).block_mesh->Some_0.shader == world_shader) by {
                assert(spec_in_region(r, cp));
                assert(chunk_remeshed_current(w_clear, world, cp));
            }
            // the stored grid is the generated grid, cell for cell
            assert forall|x: int, y: int, z: int| #[trigger] world.spec_block_at(x, y, z)
                == crate::terrain::spec_generated_block(seed, r, x, y, z) by {
                let c = spec_chunk_of(x, y, z);
                if spec_in_key_range(c) && world.chunks@.contains_key(spec_key(c) as u64) {
                    assert(blocks_model(world.chunks@)[spec_key(c) as u64] == grid[spec_key(
                        c,
                    ) as u64]);
                }
            }
            assert forall|x: int, y: int, z: int| #[trigger] world.spec_metadata_at(x, y, z)
                == 0 by {
                let c = spec_chunk_of(x, y, z);
                if world.has_chunk(c) {
                    crate::coords::lemma_cell_index_bounds(x, y, z);
                }
            }
        }
        world
    }

    /// Replaces one region chunk's contents with a caller-provided block
    /// grid (zeroed metadata), and rebuilds that chunk's mesh.
    pub fn chunk_from_block_array(&mut self, chunk_index: ChunkPos, blocks: Vec<u16>)
        requires
            old(self).wf(),
            spec_in_region(old(self).chunk_radius, chunk_index),
            blocks@.len() == 4096,
            forall|j: int| 0 <= j < 4096 ==> block::spec_valid_id(#[trigger] blocks@[j]),
        ensures
            final(self).wf(),
            final(self).has_chunk(chunk_index),
            final(self).chunk_at(chunk_index).blocks@ == blocks@,
            final(self).chunk_at(chunk_index).metadata@ == Seq::new(4096, |j: int| 0u16),
            final(self).chunk_at(chunk_index).block_mesh matches Some(m),
            final(self).chunk_at(chunk_index).block_mesh->Some_0.faces@ == spec_chunk_faces(
                blocks_model(final(self).chunks@),
                meta_model(final(self).chunks@),
                chunk_index,
            ),
            forall|k: u64|
                old(self).chunks@.contains_key(k) && k != spec_key(chunk_index) as u64
                    ==> #[trigger] final(self).chunks@[k] == old(self).chunks@[k],
            final(self).chunks@.dom() == old(self).chunks@.dom(),
            final(self).generation_queue == old(self).generation_queue,
            final(self).positions == old(self).positions,
            final(self).seed == old(self).seed,
            final(self).chunk_radius == old(self).chunk_radius,
            final(self).texture == old(self).texture,
            final(self).terrain_shader == old(self).terrain_shader,
    {
        let new_chunk = Chunk::from_blocks(
            blocks,
            16 * chunk_index.x,
            16 * chunk_index.y,
            16 * chunk_index.z,
        );
        let k = chunk_key(chunk_index);
        proof {
            assert(old(self).has_chunk(chunk_index));
        }
        self.chunks.insert(k, new_chunk);
        let ghost wm = *self;
        proof {
            assert(self.chunks@.dom() =~= old(self).chunks@.dom());
        }
        self.gen_chunk_mesh(chunk_index);
        proof {
            assert(wm.generation_queue@ == old(self).generation_queue@);
            assert(wm.queue_wf());
            assert(self.queue_wf());
            let t = Set::<ChunkPos>::empty().insert(chunk_index);
            assert(t.contains(chunk_index));
            assert(wm.has_chunk(chunk_index));
            assert(chunk_remeshed(wm, *self, chunk_index));
            assert forall|k2: u64|
                old(self).chunks@.contains_key(k2) && k2 != spec_key(chunk_index) as u64 implies
            #[trigger] self.chunks@[k2] == old(self).chunks@[k2] by {
                assert forall|cn: ChunkPos|
                    #[trigger] t.contains(cn) implies !(spec_in_key_range(cn) && k2 == spec_key(
                    cn,
                ) as u64) by {
                    if spec_in_key_range(cn) && k2 == spec_key(cn) as u64 {
                        crate::coords::lemma_key_injective_ne(chunk_index, cn);
                    }
                }
                assert(self.chunks@[k2] == wm.chunks@[k2]);
            }
            assert forall|cp: ChunkPos| #[trigger] self.has_chunk(cp) implies (self.chunk_at(
                cp,
            ).off_x == 16 * cp.x && self.chunk_at(cp).off_y == 16 * cp.y && self.chunk_at(
                cp,
            ).off_z == 16 * cp.z) by {
                if spec_key(cp) as u64 == spec_key(chunk_index) as u64 {
                    if spec_in_key_range(cp) {
                        crate::coords::lemma_key_injective(cp, chunk_index);
                    }
                    assert(wm.chunk_at(chunk_index).off_x == 16 * chunk_index.x);
                    assert(self.chunk_at(chunk_index).off_x == 16 * chunk_index.x);
                    assert(self.chunk_at(chunk_index).off_y == 16 * chunk_index.y);
                    assert(self.chunk_at(chunk_index).off_z == 16 * chunk_index.z);
                } else {
                    assert(old(self).chunks@.contains_key(spec_key(cp) as u64));
                    assert(old(self).has_chunk(cp));
                    assert(self.chunks@[spec_key(cp) as u64] == old(self).chunks@[spec_key(
                        cp,
                    ) as u64]);
                }
            }
            assert forall|cp: ChunkPos| #[trigger] self.has_chunk(cp) <==> (spec_in_key_range(cp)
                && spec_in_region(self.chunk_radius, cp)) by {
                assert(self.has_chunk(cp) == old(self).has_chunk(cp));
            }
        }
    }
}

} // verus!
