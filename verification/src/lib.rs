//! Voxel-world core of a block-building game: chunked storage of a 3D block
//! grid, seeded procedural generation (terrain, caves, foliage),
//! visibility-culled mesh construction, mutation-triggered re-meshing, and
//! grid ray traversal.

use vstd::prelude::*;

pub mod block;
pub mod chunk;
pub mod coords;
pub mod inventory;
pub mod laws;
pub mod meshgen;
pub mod noisefield;
pub mod raycast;
pub mod sampling;
pub mod state;
pub mod terrain;
pub mod world;

verus! {

/// Side length of a cubic chunk, in cells.
pub const CHUNK_SIZE: usize = 16;

/// Number of cells in one chunk.
pub const CHUNK_VOLUME: usize = 4096;

} // verus!
