//! Static block registry: per-id solidity, transparency, mesh shape and
//! texture-tile mapping. Id 0 is reserved for air: never solid, fully
//! transparent, never meshed.

use vstd::prelude::*;

verus! {

/// Highest block id the registry defines; larger ids are invalid.
pub const MAX_BLOCK_ID: u16 = 17;

pub const AIR: u16 = 0;
pub const STONE: u16 = 1;
pub const GRASS: u16 = 2;
pub const DIRT: u16 = 3;
pub const ROSE: u16 = 7;
pub const LOG: u16 = 9;
pub const DANDELION: u16 = 10;
pub const LEAVES: u16 = 11;
pub const TALL_GRASS: u16 = 12;
pub const FERN: u16 = 13;
pub const DIAMOND_ORE: u16 = 15;
pub const IRON_ORE: u16 = 16;
pub const FURNACE: u16 = 17;

/// How a block is turned into geometry: a face-culled cube, or a fixed set of
/// four diagonal planes (vegetation billboards).
#[derive(Clone, Copy, PartialEq, Eq, Structural, Debug)]
pub enum MeshKind {
    Block,
    CrossedPlanes,
}

/// Which atlas tile each face of a block samples; each tile is a (u, v)
/// pair of atlas coordinates.
#[derive(Clone, Copy, PartialEq, Eq, Structural, Debug)]
pub enum TextureLayout {
    /// One tile for every face.
    Single(u8, u8),
    /// Top tile, then side tile: the top face has its own tile.
    TopAndSide(u8, u8, u8, u8),
    /// Top, side, bottom tiles.
    TopSideBottom(u8, u8, u8, u8, u8, u8),
    /// Front-when-inactive, front-when-active, side, top tiles: the front
    /// tile follows the cell's metadata flag.
    TopSideFrontActivatable(u8, u8, u8, u8, u8, u8, u8, u8),
}

/// A block id the registry knows about.
pub open spec fn spec_valid_id(id: u16) -> bool {
    id <= MAX_BLOCK_ID
}

/// Blocks rendered as four crossed planes: small vegetation.
pub open spec fn spec_crossed(id: u16) -> bool {
    id == ROSE || id == DANDELION || id == TALL_GRASS || id == FERN
}

/// Blocks that do not occlude the faces of their neighbors.
pub open spec fn spec_transparent(id: u16) -> bool {
    id == AIR || spec_crossed(id) || id == LEAVES
}

/// Blocks the player collides with.
pub open spec fn spec_solid(id: u16) -> bool {
    id != AIR && !spec_crossed(id)
}

/// Blocks that must stand on a supporting block and are cleared by the
/// settle pass when unsupported.
pub open spec fn spec_requires_support(id: u16) -> bool {
    spec_crossed(id)
}

/// Blocks that count as ground under attached vegetation.
pub open spec fn spec_supports_foliage(id: u16) -> bool {
    id == GRASS || id == DIRT
}

pub open spec fn spec_mesh_kind(id: u16) -> MeshKind {
    if spec_crossed(id) {
        MeshKind::CrossedPlanes
    } else {
        MeshKind::Block
    }
}

/// Vertex kind forwarded to the shader (vegetation sways, cubes do not).
pub open spec fn spec_block_kind(id: u16) -> u8 {
    if spec_crossed(id) {
        1
    } else {
        0
    }
}

pub open spec fn spec_texture_layout(id: u16) -> TextureLayout {
    if id == STONE {
        TextureLayout::Single(1, 0)
    } else if id == GRASS {
        TextureLayout::TopSideBottom(0, 0, 3, 0, 2, 0)
    } else if id == DIRT {
        TextureLayout::Single(2, 0)
    } else if id == 4 {
        TextureLayout::Single(2, 1)
    } else if id == 5 {
        TextureLayout::Single(3, 1)
    } else if id == 6 {
        TextureLayout::Single(4, 0)
    } else if id == ROSE {
        TextureLayout::Single(12, 0)
    } else if id == 8 {
        TextureLayout::Single(0, 1)
    } else if id == LOG {
        TextureLayout::TopAndSide(5, 1, 4, 1)
    } else if id == DANDELION {
        TextureLayout::Single(13, 0)
    } else if id == LEAVES {
        TextureLayout::Single(4, 3)
    } else if id == TALL_GRASS {
        TextureLayout::Single(7, 2)
    } else if id == FERN {
        TextureLayout::Single(8, 3)
    } else if id == 14 {
        TextureLayout::Single(7, 0)
    } else if id == DIAMOND_ORE {
        TextureLayout::Single(2, 3)
    } else if id == IRON_ORE {
        TextureLayout::Single(1, 2)
    } else if id == FURNACE {
        TextureLayout::TopSideFrontActivatable(12, 2, 13, 3, 13, 2, 14, 3)
    } else {
        TextureLayout::Single(0, 0)
    }
}

/// The atlas tile for face `dir` of block `id` (`active` is the cell's
/// metadata flag). Face directions: 0 +x, 1 -x, 2 +y (top), 3 -y (bottom),
/// 4 +z, 5 -z (front).
pub open spec fn spec_tile(id: u16, dir: int, active: bool) -> (u8, u8) {
    match spec_texture_layout(id) {
        TextureLayout::Single(u, v) => (u, v),
        TextureLayout::TopAndSide(tu, tv, su, sv) => if dir == 2 {
            (tu, tv)
        } else {
            (su, sv)
        },
        TextureLayout::TopSideBottom(tu, tv, su, sv, bu, bv) => if dir == 2 {
            (tu, tv)
        } else if dir == 3 {
            (bu, bv)
        } else {
            (su, sv)
        },
        TextureLayout::TopSideFrontActivatable(fu, fv, au, av, su, sv, tu, tv) => if dir == 2
            || dir == 3 {
            (tu, tv)
        } else if dir == 5 {
            if active {
                (au, av)
            } else {
                (fu, fv)
            }
        } else {
            (su, sv)
        },
    }
}

pub fn is_transparent(id: u16) -> (r: bool)
    ensures
        r == spec_transparent(id),
{
    id == AIR || id == ROSE || id == DANDELION || id == LEAVES || id == TALL_GRASS || id == FERN
}

pub fn is_solid(id: u16) -> (r: bool)
    ensures
        r == spec_solid(id),
{
    id != AIR && !(id == ROSE || id == DANDELION || id == TALL_GRASS || id == FERN)
}

pub fn requires_support(id: u16) -> (r: bool)
    ensures
        r == spec_requires_support(id),
{
    id == ROSE || id == DANDELION || id == TALL_GRASS || id == FERN
}

pub fn supports_foliage(id: u16) -> (r: bool)
    ensures
        r == spec_supports_foliage(id),
{
    id == GRASS || id == DIRT
}

pub fn mesh_kind(id: u16) -> (r: MeshKind)
    ensures
        r == spec_mesh_kind(id),
{
    if id == ROSE || id == DANDELION || id == TALL_GRASS || id == FERN {
        MeshKind::CrossedPlanes
    } else {
        MeshKind::Block
    }
}

pub fn block_kind(id: u16) -> (r: u8)
    ensures
        r == spec_block_kind(id),
{
    if id == ROSE || id == DANDELION || id == TALL_GRASS || id == FERN {
        1
    } else {
        0
    }
}

pub fn texture_layout(id: u16) -> (r: TextureLayout)
    ensures
        r == spec_texture_layout(id),
{
    if id == STONE {
        TextureLayout::Single(1, 0)
    } else if id == GRASS {
        TextureLayout::TopSideBottom(0, 0, 3, 0, 2, 0)
    } else if id == DIRT {
        TextureLayout::Single(2, 0)
    } else if id == 4 {
        TextureLayout::Single(2, 1)
    } else if id == 5 {
        TextureLayout::Single(3, 1)
    } else if id == 6 {
        TextureLayout::Single(4, 0)
    } else if id == ROSE {
        TextureLayout::Single(12, 0)
    } else if id == 8 {
        TextureLayout::Single(0, 1)
    } else if id == LOG {
        TextureLayout::TopAndSide(5, 1, 4, 1)
    } else if id == DANDELION {
        TextureLayout::Single(13, 0)
    } else if id == LEAVES {
        TextureLayout::Single(4, 3)
    } else if id == TALL_GRASS {
        TextureLayout::Single(7, 2)
    } else if id == FERN {
        TextureLayout::Single(8, 3)
    } else if id == 14 {
        TextureLayout::Single(7, 0)
    } else if id == DIAMOND_ORE {
        TextureLayout::Single(2, 3)
    } else if id == IRON_ORE {
        TextureLayout::Single(1, 2)
    } else if id == FURNACE {
        TextureLayout::TopSideFrontActivatable(12, 2, 13, 3, 13, 2, 14, 3)
    } else {
        TextureLayout::Single(0, 0)
    }
}

/// The atlas tile for face `dir` of block `id`.
pub fn tile_for(id: u16, dir: u8, active: bool) -> (r: (u8, u8))
    requires
        dir < 6,
    ensures
        r == spec_tile(id, dir as int, active),
{
    match texture_layout(id) {
        TextureLayout::Single(u, v) => (u, v),
        TextureLayout::TopAndSide(tu, tv, su, sv) => if dir == 2 {
            (tu, tv)
        } else {
            (su, sv)
        },
        TextureLayout::TopSideBottom(tu, tv, su, sv, bu, bv) => if dir == 2 {
            (tu, tv)
        } else if dir == 3 {
            (bu, bv)
        } else {
            (su, sv)
        },
        TextureLayout::TopSideFrontActivatable(fu, fv, au, av, su, sv, tu, tv) => if dir == 2
            || dir == 3 {
            (tu, tv)
        } else if dir == 5 {
            if active {
                (au, av)
            } else {
                (fu, fv)
            }
        } else {
            (su, sv)
        },
    }
}

/// Display name of a block id.
pub fn block_name(id: u16) -> &'static str {
    if id == AIR {
        "Air"
    } else if id == STONE {
        "Stone"
    } else if id == GRASS {
        "Grass"
    } else if id == DIRT {
        "Dirt"
    } else if id == 4 {
        "Sand"
    } else if id == 5 {
        "Gravel"
    } else if id == 6 {
        "Planks"
    } else if id == ROSE {
        "Rose"
    } else if id == 8 {
        "Cobblestone"
    } else if id == LOG {
        "Log"
    } else if id == DANDELION {
        "Dandelion"
    } else if id == LEAVES {
        "Leaves"
    } else if id == TALL_GRASS {
        "Tall grass"
    } else if id == FERN {
        "Fern"
    } else if id == 14 {
        "Bricks"
    } else if id == DIAMOND_ORE {
        "Diamond ore"
    } else if id == IRON_ORE {
        "Iron ore"
    } else if id == FURNACE {
        "Furnace"
    } else {
        "Unknown"
    }
}

} // verus!
