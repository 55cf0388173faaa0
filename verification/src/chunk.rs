//! Dense fixed-size block and metadata storage for one 16x16x16 chunk,
//! together with the settle pass that clears attached blocks whose
//! supporting block has gone, and the cached renderable mesh.

use crate::block;
use crate::coords::{spec_lin, LocalPos};
use crate::meshgen::{ChunkMesh, Face};
use vstd::arithmetic::div_mod::{
    lemma_fundamental_div_mod, lemma_fundamental_div_mod_converse,
};
use vstd::prelude::*;

verus! {

/// Decodes a linear cell index back into local coordinates.
pub open spec fn spec_lin_x(j: int) -> int {
    j / 256
}

pub open spec fn spec_lin_y(j: int) -> int {
    (j / 16) % 16
}

pub open spec fn spec_lin_z(j: int) -> int {
    j % 16
}

/// Linearization and its decoding are mutually inverse on a chunk's cells.
pub proof fn lemma_lin_decode(x: int, y: int, z: int)
    requires
        0 <= x < 16,
        0 <= y < 16,
        0 <= z < 16,
    ensures
        0 <= spec_lin(x, y, z) < 4096,
        spec_lin_x(spec_lin(x, y, z)) == x,
        spec_lin_y(spec_lin(x, y, z)) == y,
        spec_lin_z(spec_lin(x, y, z)) == z,
{
    let j: int = spec_lin(x, y, z);
    lemma_fundamental_div_mod_converse(j, 256, x, y * 16 + z);
    lemma_fundamental_div_mod_converse(j, 16, x * 16 + y, z);
    lemma_fundamental_div_mod_converse(x * 16 + y, 16, x, y);
}

/// Every linear index in range decodes to in-range local coordinates that
/// linearize back to it.
pub proof fn lemma_lin_encode(j: int)
    requires
        0 <= j < 4096,
    ensures
        0 <= spec_lin_x(j) < 16,
        0 <= spec_lin_y(j) < 16,
        0 <= spec_lin_z(j) < 16,
        spec_lin(spec_lin_x(j), spec_lin_y(j), spec_lin_z(j)) == j,
{
    lemma_fundamental_div_mod(j, 256);
    lemma_fundamental_div_mod(j, 16);
    lemma_fundamental_div_mod(j / 16, 16);
}

/// The value a cell settles to: an attached block stays only while the cell
/// below it settles to a supporting block; everything else is untouched.
/// Clearing cascades bottom-up within the pass, exactly as one in-order
/// sweep over the chunk computes it.
pub open spec fn spec_settled_at(b: Seq<u16>, x: int, y: int, z: int) -> u16
    decreases y,
{
    let id = b[spec_lin(x, y, z)];
    if y <= 0 {
        id
    } else if block::spec_requires_support(id) {
        if block::spec_supports_foliage(spec_settled_at(b, x, y - 1, z)) {
            id
        } else {
            0
        }
    } else {
        id
    }
}

/// The whole chunk after one settle pass.
pub open spec fn spec_settled(b: Seq<u16>) -> Seq<u16> {
    Seq::new(4096, |j: int| spec_settled_at(b, spec_lin_x(j), spec_lin_y(j), spec_lin_z(j)))
}

/// A cell that does not hold an attached block keeps its value through the
/// settle pass.
pub proof fn lemma_settled_cell(b: Seq<u16>, j: int)
    requires
        0 <= j < 4096,
        !block::spec_requires_support(b[j]),
    ensures
        spec_settled(b)[j] == b[j],
{
    lemma_lin_encode(j);
}

/// A full-size block grid holding only air.
pub fn empty_grid() -> (v: Vec<u16>)
    ensures
        v@ == Seq::new(4096, |j: int| 0u16),
{
    let mut v: Vec<u16> = Vec::new();
    let mut j: usize = 0;
    while j < 4096
        invariant
            j <= 4096,
            v@.len() == j,
            forall|i: int| 0 <= i < j ==> v@[i] == 0u16,
        decreases 4096 - j,
    {
        v.push(0);
        j += 1;
    }
    proof {
        assert(v@ =~= Seq::new(4096, |j: int| 0u16));
    }
    v
}

/// Dense storage for one chunk: a 16^3 block-id grid, a parallel metadata
/// grid, a cached mesh, and the chunk's fixed world-space cell offset
/// (16 times its chunk coordinate).
pub struct Chunk {
    pub blocks: Vec<u16>,
    pub metadata: Vec<u16>,
    pub block_mesh: Option<ChunkMesh>,
    pub off_x: i64,
    pub off_y: i64,
    pub off_z: i64,
}

impl Chunk {
    /// Well-formed storage: both grids are full-size, block ids are known to
    /// the registry, and metadata is a 0/1 flag.
    pub open spec fn wf(self) -> bool {
        &&& self.blocks@.len() == 4096
        &&& self.metadata@.len() == 4096
        &&& forall|j: int| 0 <= j < 4096 ==> block::spec_valid_id(#[trigger] self.blocks@[j])
        &&& forall|j: int| 0 <= j < 4096 ==> #[trigger] self.metadata@[j] <= 1
    }

    /// Block id at a linear cell index (spec view).
    pub open spec fn spec_block(self, j: int) -> u16 {
        self.blocks@[j]
    }

    /// Builds a chunk from a prefilled block grid, with zeroed metadata and
    /// no mesh yet.
    pub fn from_blocks(blocks: Vec<u16>, off_x: i64, off_y: i64, off_z: i64) -> (r: Chunk)
        requires
            blocks@.len() == 4096,
            forall|j: int| 0 <= j < 4096 ==> block::spec_valid_id(#[trigger] blocks@[j]),
        ensures
            r.wf(),
            r.blocks == blocks,
            r.metadata@ == Seq::new(4096, |j: int| 0u16),
            r.block_mesh is None,
            r.off_x == off_x && r.off_y == off_y && r.off_z == off_z,
    {
        let mut metadata: Vec<u16> = Vec::new();
        let mut j: usize = 0;
        while j < 4096
            invariant
                j <= 4096,
                metadata@.len() == j,
                forall|i: int| 0 <= i < j ==> metadata@[i] == 0u16,
            decreases 4096 - j,
        {
            metadata.push(0);
            j += 1;
        }
        proof {
            assert(metadata@ =~= Seq::new(4096, |j: int| 0u16));
        }
        Chunk { blocks, metadata, block_mesh: None, off_x, off_y, off_z }
    }

    /// Block id at a local cell position.
    pub fn block_at_chunk_pos(&self, chunk_index: LocalPos) -> (r: u16)
        requires
            self.wf(),
            chunk_index.x < 16,
            chunk_index.y < 16,
            chunk_index.z < 16,
        ensures
            r == self.spec_block(
                spec_lin(chunk_index.x as int, chunk_index.y as int, chunk_index.z as int),
            ),
    {
        let j = crate::coords::lin_index(chunk_index);
        self.blocks[j]
    }

    /// One settle pass: sweeps the chunk in order and clears every attached
    /// block whose supporting cell below has not settled to ground.
    #[verifier::loop_isolation(false)]
    pub fn update(&mut self)
        requires
            old(self).wf(),
        ensures
            final(self).wf(),
            final(self).blocks@ == spec_settled(old(self).blocks@),
            final(self).metadata == old(self).metadata,
            final(self).block_mesh == old(self).block_mesh,
            final(self).off_x == old(self).off_x,
            final(self).off_y == old(self).off_y,
            final(self).off_z == old(self).off_z,
    {
        let ghost b0 = self.blocks@;
        let mut z: usize = 0;
        while z < 16
            invariant
                z <= 16,
                self.metadata == old(self).metadata,
                self.block_mesh == old(self).block_mesh,
                self.off_x == old(self).off_x,
                self.off_y == old(self).off_y,
                self.off_z == old(self).off_z,
                self.blocks@.len() == 4096,
                forall|xi: int, yi: int, zi: int|
                    0 <= xi < 16 && 0 <= yi < 16 && 0 <= zi < 16 ==> #[trigger] self.blocks@[
                        spec_lin(xi, yi, zi)
                    ] == if zi < z {
                        spec_settled_at(b0, xi, yi, zi)
                    } else {
                        b0[spec_lin(xi, yi, zi)]
                    },
            decreases 16 - z,
        {
            let mut y: usize = 0;
            while y < 16
                invariant
                    y <= 16,
                    z < 16,
                    self.metadata == old(self).metadata,
                    self.block_mesh == old(self).block_mesh,
                    self.off_x == old(self).off_x,
                    self.off_y == old(self).off_y,
                    self.off_z == old(self).off_z,
                    self.blocks@.len() == 4096,
                    forall|xi: int, yi: int, zi: int|
                        0 <= xi < 16 && 0 <= yi < 16 && 0 <= zi < 16 ==> #[trigger] self.blocks@[
                            spec_lin(xi, yi, zi)
                        ] == if zi < z || (zi == z && yi < y) {
                            spec_settled_at(b0, xi, yi, zi)
                        } else {
                            b0[spec_lin(xi, yi, zi)]
                        },
                decreases 16 - y,
            {
                let mut x: usize = 0;
                while x < 16
                    invariant
                        x <= 16,
                        y < 16,
                        z < 16,
                        self.metadata == old(self).metadata,
                        self.block_mesh == old(self).block_mesh,
                        self.off_x == old(self).off_x,
                        self.off_y == old(self).off_y,
                        self.off_z == old(self).off_z,
                        self.blocks@.len() == 4096,
                        forall|xi: int, yi: int, zi: int|
                            0 <= xi < 16 && 0 <= yi < 16 && 0 <= zi < 16 ==> #[trigger] self.blocks@[
                                spec_lin(xi, yi, zi)
                            ] == if zi < z || (zi == z && (yi < y || (yi == y && xi < x))) {
                                spec_settled_at(b0, xi, yi, zi)
                            } else {
                                b0[spec_lin(xi, yi, zi)]
                            },
                    decreases 16 - x,
                {
                    let j: usize = x * 256 + y * 16 + z;
                    proof {
                        lemma_lin_decode(x as int, y as int, z as int);
                    }
                    let id = self.blocks[j];
                    if id != 0 && block::requires_support(id) {
                        if y > 0 {
                            let jb: usize = x * 256 + (y - 1) * 16 + z;
                            proof {
                                lemma_lin_decode(x as int, y as int - 1, z as int);
                            }
                            let lower_block = self.blocks[jb];
                            if !block::supports_foliage(lower_block) {
                                self.blocks[j] = 0;
                            }
                        }
                    }
                    proof {
                        assert(self.blocks@[spec_lin(x as int, y as int, z as int)]
                            == spec_settled_at(b0, x as int, y as int, z as int));
                        assert forall|xi: int, yi: int, zi: int|
                            0 <= xi < 16 && 0 <= yi < 16 && 0 <= zi < 16 implies #[trigger] self.blocks@[
                            spec_lin(xi, yi, zi)
                        ] == if zi < z || (zi == z && (yi < y || (yi == y && xi < x + 1))) {
                            spec_settled_at(b0, xi, yi, zi)
                        } else {
                            b0[spec_lin(xi, yi, zi)]
                        } by {
                            lemma_lin_decode(xi, yi, zi);
                        }
                    }
                    x += 1;
                }
                y += 1;
            }
            z += 1;
        }
        proof {
            assert forall|j: int| 0 <= j < 4096 implies self.blocks@[j] == spec_settled(b0)[j] by {
                lemma_lin_encode(j);
            }
            assert(self.blocks@ =~= spec_settled(b0));
            assert forall|j: int| 0 <= j < 4096 implies block::spec_valid_id(
                #[trigger] self.blocks@[j],
            ) by {
                lemma_lin_encode(j);
                lemma_lin_decode(spec_lin_x(j), spec_lin_y(j), spec_lin_z(j));
            }
        }
    }

    /// Replaces the cached mesh wholesale.
    pub fn update_mesh(&mut self, vertices: Vec<Face>, texture: u32, shader: u32)
        ensures
            final(self).block_mesh == Some(
                ChunkMesh { faces: vertices, texture, shader },
            ),
            final(self).blocks == old(self).blocks,
            final(self).metadata == old(self).metadata,
            final(self).off_x == old(self).off_x,
            final(self).off_y == old(self).off_y,
            final(self).off_z == old(self).off_z,
    {
        self.block_mesh = Some(ChunkMesh::new(vertices, texture, shader));
    }
}

} // verus!
