//! Mesh data for one chunk. A chunk's renderable geometry is a flat list of
//! textured faces; each face stands for 6 vertices (two triangles) whose
//! positions the rendering layer derives from the cell position and the face
//! direction.

use crate::block;
use crate::chunk::{lemma_lin_decode, lemma_lin_encode, spec_lin_x, spec_lin_y, spec_lin_z, Chunk};
use crate::coords::{spec_in_key_range, spec_key, spec_lin, ChunkPos, LocalPos};
use std::collections::HashMap;
use vstd::prelude::*;

verus! {

broadcast use vstd::std_specs::hash::group_hash_axioms;

/// One emitted face: the local cell it belongs to, its direction, the atlas
/// tile it samples and the vertex kind handed to the shader.
///
/// Directions 0..6 are the axis faces of a cube (+x, -x, +y, -y, +z, -z);
/// directions 6..10 are the four diagonal planes of crossed-plane blocks.
#[derive(Clone, Copy, PartialEq, Eq, Structural, Debug)]
pub struct Face {
    pub x: u8,
    pub y: u8,
    pub z: u8,
    pub dir: u8,
    pub tile_u: u8,
    pub tile_v: u8,
    pub kind: u8,
}

/// Vertices per face: each face is two triangles in a non-indexed list.
pub const VERTS_PER_FACE: usize = 6;

/// A chunk's cached renderable mesh: the face list plus the shared texture
/// and shader handles it is drawn with.
pub struct ChunkMesh {
    pub faces: Vec<Face>,
    pub texture: u32,
    pub shader: u32,
}

impl ChunkMesh {
    pub fn new(faces: Vec<Face>, texture: u32, shader: u32) -> (r: ChunkMesh)
        ensures
            r.faces == faces,
            r.texture == texture,
            r.shader == shader,
    {
        ChunkMesh { faces, texture, shader }
    }

    /// Number of vertices the face list stands for.
    pub fn vertex_count(&self) -> (r: usize)
        requires
            self.faces@.len() * 6 <= usize::MAX,
        ensures
            r == self.faces@.len() * 6,
    {
        self.faces.len() * VERTS_PER_FACE
    }
}

/// The block grids of a chunk store, for reasoning about meshing: packed
/// chunk key to block-id grid.
pub open spec fn blocks_model(m: Map<u64, Chunk>) -> Map<u64, Seq<u16>> {
    Map::new(|k: u64| m.contains_key(k), |k: u64| m[k].blocks@)
}

/// The metadata grids of a chunk store.
pub open spec fn meta_model(m: Map<u64, Chunk>) -> Map<u64, Seq<u16>> {
    Map::new(|k: u64| m.contains_key(k), |k: u64| m[k].metadata@)
}

/// Every chunk of the store is well-formed.
pub open spec fn map_wf(m: Map<u64, Chunk>) -> bool {
    forall|k: u64| m.contains_key(k) ==> (#[trigger] m[k]).wf()
}

/// Axis offset of a cube-face direction.
pub open spec fn spec_dir_dx(dir: int) -> int {
    if dir == 0 {
        1
    } else if dir == 1 {
        -1
    } else {
        0
    }
}

pub open spec fn spec_dir_dy(dir: int) -> int {
    if dir == 2 {
        1
    } else if dir == 3 {
        -1
    } else {
        0
    }
}

pub open spec fn spec_dir_dz(dir: int) -> int {
    if dir == 4 {
        1
    } else if dir == 5 {
        -1
    } else {
        0
    }
}

/// Wraps a stepped-over local coordinate into the neighbor chunk.
pub open spec fn spec_wrap(v: int) -> int {
    if v < 0 {
        v + 16
    } else if v > 15 {
        v - 16
    } else {
        v
    }
}

/// Whether the face of the cell at local (x, y, z) of chunk `c` in
/// direction `dir` is visible: its adjacent cell — in this chunk, or the
/// matching boundary cell of the neighboring chunk — holds a transparent
/// block. An absent neighbor chunk occludes, so no face is emitted at the
/// edge of the generated world.
pub open spec fn spec_face_visible(
    blocks: Map<u64, Seq<u16>>,
    c: ChunkPos,
    x: int,
    y: int,
    z: int,
    dir: int,
) -> bool {
    let nx = x + spec_dir_dx(dir);
    let ny = y + spec_dir_dy(dir);
    let nz = z + spec_dir_dz(dir);
    if 0 <= nx < 16 && 0 <= ny < 16 && 0 <= nz < 16 {
        &&& blocks.contains_key(spec_key(c) as u64)
        &&& block::spec_transparent(blocks[spec_key(c) as u64][spec_lin(nx, ny, nz)])
    } else {
        let cn = ChunkPos {
            x: (c.x + spec_dir_dx(dir)) as i64,
            y: (c.y + spec_dir_dy(dir)) as i64,
            z: (c.z + spec_dir_dz(dir)) as i64,
        };
        &&& spec_in_key_range(cn)
        &&& blocks.contains_key(spec_key(cn) as u64)
        &&& block::spec_transparent(
            blocks[spec_key(cn) as u64][spec_lin(spec_wrap(nx), spec_wrap(ny), spec_wrap(nz))],
        )
    }
}

/// The face emitted for cell (x, y, z) in direction `dir`.
pub open spec fn spec_face_for(id: u16, active: bool, x: int, y: int, z: int, dir: int) -> Face {
    Face {
        x: x as u8,
        y: y as u8,
        z: z as u8,
        dir: dir as u8,
        tile_u: block::spec_tile(id, dir, active).0,
        tile_v: block::spec_tile(id, dir, active).1,
        kind: block::spec_block_kind(id),
    }
}

/// The conditional contribution of one cube-face direction.
pub open spec fn spec_maybe_face(
    blocks: Map<u64, Seq<u16>>,
    id: u16,
    active: bool,
    c: ChunkPos,
    x: int,
    y: int,
    z: int,
    dir: int,
) -> Seq<Face> {
    if spec_face_visible(blocks, c, x, y, z, dir) {
        seq![spec_face_for(id, active, x, y, z, dir)]
    } else {
        Seq::empty()
    }
}

/// All faces one cell emits: none for air; the four fixed diagonal planes
/// for crossed-plane blocks; the visible subset of the six cube faces for
/// block-shaped blocks, in direction order.
pub open spec fn spec_cell_faces(
    blocks: Map<u64, Seq<u16>>,
    meta: Map<u64, Seq<u16>>,
    c: ChunkPos,
    x: int,
    y: int,
    z: int,
) -> Seq<Face> {
    let id = blocks[spec_key(c) as u64][spec_lin(x, y, z)];
    if id == 0 {
        Seq::empty()
    } else if block::spec_crossed(id) {
        seq![
            spec_face_for(id, false, x, y, z, 6),
            spec_face_for(id, false, x, y, z, 7),
            spec_face_for(id, false, x, y, z, 8),
            spec_face_for(id, false, x, y, z, 9),
        ]
    } else {
        let active = meta[spec_key(c) as u64][spec_lin(x, y, z)] == 1;
        spec_maybe_face(blocks, id, active, c, x, y, z, 0) + spec_maybe_face(
            blocks,
            id,
            active,
            c,
            x,
            y,
            z,
            1,
        ) + spec_maybe_face(blocks, id, active, c, x, y, z, 2) + spec_maybe_face(
            blocks,
            id,
            active,
            c,
            x,
            y,
            z,
            3,
        ) + spec_maybe_face(blocks, id, active, c, x, y, z, 4) + spec_maybe_face(
            blocks,
            id,
            active,
            c,
            x,
            y,
            z,
            5,
        )
    }
}

/// The face list of the first `n` cells of chunk `c`, in cell order.
pub open spec fn spec_mesh_prefix(
    blocks: Map<u64, Seq<u16>>,
    meta: Map<u64, Seq<u16>>,
    c: ChunkPos,
    n: int,
) -> Seq<Face>
    decreases n,
{
    if n <= 0 {
        Seq::empty()
    } else {
        spec_mesh_prefix(blocks, meta, c, n - 1) + spec_cell_faces(
            blocks,
            meta,
            c,
            spec_lin_x(n - 1),
            spec_lin_y(n - 1),
            spec_lin_z(n - 1),
        )
    }
}

/// The complete face list of chunk `c` against the given chunk store.
pub open spec fn spec_chunk_faces(
    blocks: Map<u64, Seq<u16>>,
    meta: Map<u64, Seq<u16>>,
    c: ChunkPos,
) -> Seq<Face> {
    spec_mesh_prefix(blocks, meta, c, 4096)
}

/// Resolves one face-visibility query against the chunk store.
fn face_visible(
    chunks: &HashMap<u64, Chunk>,
    c: ChunkPos,
    x: usize,
    y: usize,
    z: usize,
    dir: u8,
) -> (r: bool)
    requires
        spec_in_key_range(c),
        map_wf(chunks@),
        x < 16,
        y < 16,
        z < 16,
        dir < 6,
    ensures
        r == spec_face_visible(blocks_model(chunks@), c, x as int, y as int, z as int, dir as int),
{
    let dx: i64 = if dir == 0 { 1 } else if dir == 1 { -1 } else { 0 };
    let dy: i64 = if dir == 2 { 1 } else if dir == 3 { -1 } else { 0 };
    let dz: i64 = if dir == 4 { 1 } else if dir == 5 { -1 } else { 0 };
    let nx: i64 = x as i64 + dx;
    let ny: i64 = y as i64 + dy;
    let nz: i64 = z as i64 + dz;
    if 0 <= nx && nx < 16 && 0 <= ny && ny < 16 && 0 <= nz && nz < 16 {
        match chunks.get(&crate::coords::chunk_key(c)) {
            Some(ch) => {
                let l = LocalPos { x: nx as usize, y: ny as usize, z: nz as usize };
                block::is_transparent(ch.block_at_chunk_pos(l))
            },
            None => false,
        }
    } else {
        let cn = ChunkPos { x: c.x + dx, y: c.y + dy, z: c.z + dz };
        if !crate::coords::in_key_range(cn) {
            false
        } else {
            match chunks.get(&crate::coords::chunk_key(cn)) {
                Some(ch) => {
                    let wx: i64 = if nx < 0 { nx + 16 } else if nx > 15 { nx - 16 } else { nx };
                    let wy: i64 = if ny < 0 { ny + 16 } else if ny > 15 { ny - 16 } else { ny };
                    let wz: i64 = if nz < 0 { nz + 16 } else if nz > 15 { nz - 16 } else { nz };
                    let l = LocalPos { x: wx as usize, y: wy as usize, z: wz as usize };
                    block::is_transparent(ch.block_at_chunk_pos(l))
                },
                None => false,
            }
        }
    }
}

/// Builds the face list of one cell.
#[verifier::rlimit(100)]
fn cell_faces_exec(chunks: &HashMap<u64, Chunk>, c: ChunkPos, x: usize, y: usize, z: usize) -> (v:
    Vec<Face>)
    requires
        spec_in_key_range(c),
        map_wf(chunks@),
        chunks@.contains_key(spec_key(c) as u64),
        x < 16,
        y < 16,
        z < 16,
    ensures
        v@ == spec_cell_faces(
            blocks_model(chunks@),
            meta_model(chunks@),
            c,
            x as int,
            y as int,
            z as int,
        ),
{
    let ghost bm = blocks_model(chunks@);
    let ghost mm = meta_model(chunks@);
    let kk = crate::coords::chunk_key(c);
    let mut v: Vec<Face> = Vec::new();
    let j: usize = x * 256 + y * 16 + z;
    proof {
        lemma_lin_decode(x as int, y as int, z as int);
    }
    let cur = match chunks.get(&kk) {
        Some(ch) => ch,
        None => {
            proof {
                assert(false);
            }
            unreached()
        },
    };
    let id = cur.blocks[j];
    let ghost before = v@;
    {
        if id != 0 {
                    if matches!(block::mesh_kind(id), block::MeshKind::CrossedPlanes) {
                        let t = block::tile_for(id, 0, false);
                        let k = block::block_kind(id);
                        push_face(&mut v, x as u8, y as u8, z as u8, 6, t, k);
                        push_face(&mut v, x as u8, y as u8, z as u8, 7, t, k);
                        push_face(&mut v, x as u8, y as u8, z as u8, 8, t, k);
                        push_face(&mut v, x as u8, y as u8, z as u8, 9, t, k);
                    } else {
                        let active = cur.metadata[j] == 1;
                        let k = block::block_kind(id);
                        let ghost xi = x as int;
                        let ghost yi = y as int;
                        let ghost zi = z as int;
                        let ghost m0 = spec_maybe_face(bm, id, active, c, xi, yi, zi, 0);
                        let ghost m1 = spec_maybe_face(bm, id, active, c, xi, yi, zi, 1);
                        let ghost m2 = spec_maybe_face(bm, id, active, c, xi, yi, zi, 2);
                        let ghost m3 = spec_maybe_face(bm, id, active, c, xi, yi, zi, 3);
                        let ghost m4 = spec_maybe_face(bm, id, active, c, xi, yi, zi, 4);
                        let ghost m5 = spec_maybe_face(bm, id, active, c, xi, yi, zi, 5);
                        if face_visible(chunks, c, x, y, z, 0) {
                            push_face(&mut v, x as u8, y as u8, z as u8, 0, block::tile_for(id, 0, active), k);
                        }
                        proof {
                            assert(v@ =~= before + m0);
                        }
                        if face_visible(chunks, c, x, y, z, 1) {
                            push_face(&mut v, x as u8, y as u8, z as u8, 1, block::tile_for(id, 1, active), k);
                        }
                        proof {
                            assert(v@ =~= before + m0 + m1);
                        }
                        if face_visible(chunks, c, x, y, z, 2) {
                            push_face(&mut v, x as u8, y as u8, z as u8, 2, block::tile_for(id, 2, active), k);
                        }
                        proof {
                            assert(v@ =~= before + m0 + m1 + m2);
                        }
                        if face_visible(chunks, c, x, y, z, 3) {
                            push_face(&mut v, x as u8, y as u8, z as u8, 3, block::tile_for(id, 3, active), k);
                        }
                        proof {
                            assert(v@ =~= before + m0 + m1 + m2 + m3);
                        }
                        if face_visible(chunks, c, x, y, z, 4) {
                            push_face(&mut v, x as u8, y as u8, z as u8, 4, block::tile_for(id, 4, active), k);
                        }
                        proof {
                            assert(v@ =~= before + m0 + m1 + m2 + m3 + m4);
                        }
                        if face_visible(chunks, c, x, y, z, 5) {
                            push_face(&mut v, x as u8, y as u8, z as u8, 5, block::tile_for(id, 5, active), k);
                        }
                        proof {
                            assert(v@ =~= before + m0 + m1 + m2 + m3 + m4 + m5);
                        }
                    }
                }
    }
    proof {
        assert(v@ =~= spec_cell_faces(bm, mm, c, x as int, y as int, z as int));
    }
    v
}

/// Builds the complete face list of chunk `c`: for every non-empty cell,
/// the visible cube faces (or the fixed crossed planes), culled against
/// in-chunk and cross-chunk neighbors.
#[verifier::loop_isolation(false)]
pub fn build_chunk_faces(chunks: &HashMap<u64, Chunk>, c: ChunkPos) -> (v: Vec<Face>)
    requires
        spec_in_key_range(c),
        map_wf(chunks@),
        chunks@.contains_key(spec_key(c) as u64),
    ensures
        v@ == spec_chunk_faces(blocks_model(chunks@), meta_model(chunks@), c),
{
    let ghost bm = blocks_model(chunks@);
    let ghost mm = meta_model(chunks@);
    let mut v: Vec<Face> = Vec::new();
    let mut x: usize = 0;
    while x < 16
        invariant
            x <= 16,
            v@ == spec_mesh_prefix(bm, mm, c, 256 * x),
        decreases 16 - x,
    {
        let mut y: usize = 0;
        while y < 16
            invariant
                y <= 16,
                x < 16,
                v@ == spec_mesh_prefix(bm, mm, c, 256 * x + 16 * y),
            decreases 16 - y,
        {
            let mut z: usize = 0;
            while z < 16
                invariant
                    z <= 16,
                    y < 16,
                    x < 16,
                    v@ == spec_mesh_prefix(bm, mm, c, 256 * x + 16 * y + z),
                decreases 16 - z,
            {
                let mut cf = cell_faces_exec(chunks, c, x, y, z);
                proof {
                    lemma_lin_decode(x as int, y as int, z as int);
                }
                v.append(&mut cf);
                z += 1;
            }
            y += 1;
        }
        x += 1;
    }
    v
}

/// Appends one face to a face list under construction.
pub fn push_face(vertices: &mut Vec<Face>, x: u8, y: u8, z: u8, dir: u8, tile: (u8, u8), kind: u8)
    ensures
        final(vertices)@ == old(vertices)@.push(
            Face { x, y, z, dir, tile_u: tile.0, tile_v: tile.1, kind },
        ),
{
    vertices.push(Face { x, y, z, dir, tile_u: tile.0, tile_v: tile.1, kind });
}

} // verus!
