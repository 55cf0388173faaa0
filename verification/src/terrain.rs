//! Procedural generation: a continuous surface height carved by 3-D cave
//! noise gives each cell a base block as a pure function of (seed, cell);
//! a foliage pass then decorates surface cells, possibly writing into
//! neighboring chunks (directly when they exist, through the deferred
//! queue when they do not).
//!
//! The whole pipeline is modeled by a small state machine over `GenState`
//! (the chunk grids plus the deferred-write queue), so that the world a
//! seed produces is one definite mathematical value.

use crate::block;
use crate::coords::{
    spec_cell_index, spec_chunk_of, spec_in_key_range, spec_key, ChunkPos,
};
use crate::noisefield::{noise2, noise3, spec_noise2, spec_noise3};
use crate::sampling::{
    roll_mod, spec_roll_mod, SALT_DECOR, SALT_FOLIAGE, SALT_NOISE_CAVE, SALT_NOISE_SURFACE,
    SALT_ORE,
};
use vstd::prelude::*;

verus! {

/// Divisor of the horizontal surface-noise lattice (sampling scale 1/50).
pub const SURFACE_SCALE_DIV: i64 = 50;

/// Divisor of the cave-noise lattice (sampling scale 1/10).
pub const CAVE_SCALE_DIV: i64 = 10;

/// Baseline surface elevation in fixed point (about 10.1 cells).
pub const SURFACE_BIAS: i64 = 661914;

/// Surface amplitude in cells.
pub const SURFACE_AMP: i64 = 5;

/// Fixed-point cave-noise cutoff (about 0.6): larger samples carve the cell.
pub const CAVE_CUTOFF: i64 = 39321;

/// Bound on the cell coordinates generation ever touches.
pub const GEN_COORD_LIMIT: i64 = 0x2000000;

/// The continuous surface height over column (x, z), in fixed point.
pub open spec fn spec_surface_fixed(seed: u32, x: i64, z: i64) -> int {
    SURFACE_AMP * spec_noise2(
        seed,
        SALT_NOISE_SURFACE,
        ((x * 65536) / (SURFACE_SCALE_DIV as int)) as i64,
        ((z * 65536) / (SURFACE_SCALE_DIV as int)) as i64,
    ) + SURFACE_BIAS
}

/// The cell row holding the surface: the floor of the surface height.
pub open spec fn spec_surface_floor(seed: u32, x: i64, z: i64) -> int {
    spec_surface_fixed(seed, x, z) / 65536
}

/// A cell strictly below the surface height is filled by the terrain pass.
pub open spec fn spec_filled(seed: u32, x: i64, y: i64, z: i64) -> bool {
    (y as int) * 65536 < spec_surface_fixed(seed, x, z)
}

/// The topmost filled cell of a column, which receives the surface block.
pub open spec fn spec_is_surface(seed: u32, x: i64, y: i64, z: i64) -> bool {
    spec_filled(seed, x, y, z) && y as int == spec_surface_floor(seed, x, z)
}

/// A filled cell in the deep seven-eighths below the surface, where stone
/// and ores appear.
pub open spec fn spec_deep(seed: u32, x: i64, y: i64, z: i64) -> bool {
    ((y as int) + 1) * (8 * 65536) <= 7 * spec_surface_fixed(seed, x, z)
}

/// The per-cell ore roll in [0, 100).
pub open spec fn spec_ore_roll(seed: u32, x: i64, y: i64, z: i64) -> u64 {
    spec_roll_mod(seed, SALT_ORE, x, y, z, 100)
}

/// What the terrain pass puts in a cell: air above the surface; the surface
/// block on top; deeper down stone with rare ores (1% and 3%); dirt between.
pub open spec fn spec_terrain_block(seed: u32, x: i64, y: i64, z: i64) -> u16 {
    if !spec_filled(seed, x, y, z) {
        block::AIR
    } else if spec_is_surface(seed, x, y, z) {
        block::GRASS
    } else if spec_deep(seed, x, y, z) {
        if spec_ore_roll(seed, x, y, z) == 0 {
            block::DIAMOND_ORE
        } else if spec_ore_roll(seed, x, y, z) <= 3 {
            block::IRON_ORE
        } else {
            block::STONE
        }
    } else {
        block::DIRT
    }
}

/// The cave-noise sample at a cell.
pub open spec fn spec_cave_noise(seed: u32, x: i64, y: i64, z: i64) -> int {
    spec_noise3(
        seed,
        SALT_NOISE_CAVE,
        ((x * 65536) / (CAVE_SCALE_DIV as int)) as i64,
        ((y * 65536) / (CAVE_SCALE_DIV as int)) as i64,
        ((z * 65536) / (CAVE_SCALE_DIV as int)) as i64,
    )
}

/// The cave pass clears cells whose noise exceeds the cutoff.
pub open spec fn spec_carved(seed: u32, x: i64, y: i64, z: i64) -> bool {
    spec_cave_noise(seed, x, y, z) > CAVE_CUTOFF
}

/// A cell's base block: the terrain pass result with caves carved out.
pub open spec fn spec_base_block(seed: u32, x: i64, y: i64, z: i64) -> u16 {
    if spec_carved(seed, x, y, z) {
        block::AIR
    } else {
        spec_terrain_block(seed, x, y, z)
    }
}

/// The base block grid of a whole chunk.
pub open spec fn spec_base_chunk(seed: u32, c: ChunkPos) -> Seq<u16> {
    Seq::new(
        4096,
        |j: int|
            spec_base_block(
                seed,
                (c.x * 16 + crate::chunk::spec_lin_x(j)) as i64,
                (c.y * 16 + crate::chunk::spec_lin_y(j)) as i64,
                (c.z * 16 + crate::chunk::spec_lin_z(j)) as i64,
            ),
    )
}

/// Samples the surface height of a column.
pub fn surface_fixed(seed: u32, x: i64, z: i64) -> (s: i64)
    requires
        -GEN_COORD_LIMIT <= x <= GEN_COORD_LIMIT,
        -GEN_COORD_LIMIT <= z <= GEN_COORD_LIMIT,
    ensures
        s == spec_surface_fixed(seed, x, z),
        334234 <= s <= 989594,
{
    let sx = crate::coords::floor_div(x * 65536, SURFACE_SCALE_DIV);
    let sz = crate::coords::floor_div(z * 65536, SURFACE_SCALE_DIV);
    let n = noise2(seed, SALT_NOISE_SURFACE, sx, sz);
    SURFACE_AMP * n + SURFACE_BIAS
}

/// Computes the terrain-pass block of one cell.
pub fn terrain_block_at(seed: u32, x: i64, y: i64, z: i64) -> (r: u16)
    requires
        -GEN_COORD_LIMIT <= x <= GEN_COORD_LIMIT,
        -GEN_COORD_LIMIT <= y <= GEN_COORD_LIMIT,
        -GEN_COORD_LIMIT <= z <= GEN_COORD_LIMIT,
    ensures
        r == spec_terrain_block(seed, x, y, z),
        block::spec_valid_id(r),
{
    let s = surface_fixed(seed, x, z);
    if !(y * 65536 < s) {
        block::AIR
    } else if y == crate::coords::floor_div(s, 65536) {
        block::GRASS
    } else if (y + 1) * (8 * 65536) <= 7 * s {
        let roll = roll_mod(seed, SALT_ORE, x, y, z, 100);
        if roll == 0 {
            block::DIAMOND_ORE
        } else if roll <= 3 {
            block::IRON_ORE
        } else {
            block::STONE
        }
    } else {
        block::DIRT
    }
}

/// Computes the base block of one cell (terrain with caves carved).
pub fn base_block_at(seed: u32, x: i64, y: i64, z: i64) -> (r: u16)
    requires
        -GEN_COORD_LIMIT <= x <= GEN_COORD_LIMIT,
        -GEN_COORD_LIMIT <= y <= GEN_COORD_LIMIT,
        -GEN_COORD_LIMIT <= z <= GEN_COORD_LIMIT,
    ensures
        r == spec_base_block(seed, x, y, z),
        block::spec_valid_id(r),
{
    let cx = crate::coords::floor_div(x * 65536, CAVE_SCALE_DIV);
    let cy = crate::coords::floor_div(y * 65536, CAVE_SCALE_DIV);
    let cz = crate::coords::floor_div(z * 65536, CAVE_SCALE_DIV);
    let n = noise3(seed, SALT_NOISE_CAVE, cx, cy, cz);
    if n > CAVE_CUTOFF {
        block::AIR
    } else {
        terrain_block_at(seed, x, y, z)
    }
}

/// One pending generation write: a global cell position and the block id
/// to put there.
#[derive(Clone, Copy, PartialEq, Eq, Structural, Debug)]
pub struct GenWrite {
    pub x: i64,
    pub y: i64,
    pub z: i64,
    pub id: u16,
}

pub open spec fn gw(x: int, y: int, z: int, id: u16) -> GenWrite {
    GenWrite { x: x as i64, y: y as i64, z: z as i64, id }
}

/// The write list of one tree with its trunk base at (x, y, z): a five-cell
/// trunk, then a leaf canopy with a diamond cross-section, in placement
/// order.
pub open spec fn spec_tree_writes(x: i64, y: i64, z: i64) -> Seq<GenWrite> {
    let xi = x as int;
    let yi = y as int;
    let zi = z as int;
    seq![
        gw(xi, yi, zi, block::LOG),
        gw(xi, yi + 1, zi, block::LOG),
        gw(xi, yi + 2, zi, block::LOG),
        gw(xi, yi + 3, zi, block::LOG),
        gw(xi, yi + 4, zi, block::LOG),
        gw(xi - 1, yi + 3, zi - 1, block::LEAVES),
        gw(xi - 1, yi + 4, zi - 1, block::LEAVES),
        gw(xi - 1, yi + 3, zi, block::LEAVES),
        gw(xi - 1, yi + 4, zi, block::LEAVES),
        gw(xi - 1, yi + 5, zi, block::LEAVES),
        gw(xi - 1, yi + 3, zi + 1, block::LEAVES),
        gw(xi - 1, yi + 4, zi + 1, block::LEAVES),
        gw(xi, yi + 3, zi - 1, block::LEAVES),
        gw(xi, yi + 4, zi - 1, block::LEAVES),
        gw(xi, yi + 5, zi - 1, block::LEAVES),
        gw(xi, yi + 4, zi, block::LEAVES),
        gw(xi, yi + 5, zi, block::LEAVES),
        gw(xi, yi + 3, zi + 1, block::LEAVES),
        gw(xi, yi + 4, zi + 1, block::LEAVES),
        gw(xi, yi + 5, zi + 1, block::LEAVES),
        gw(xi + 1, yi + 3, zi - 1, block::LEAVES),
        gw(xi + 1, yi + 4, zi - 1, block::LEAVES),
        gw(xi + 1, yi + 3, zi, block::LEAVES),
        gw(xi + 1, yi + 4, zi, block::LEAVES),
        gw(xi + 1, yi + 5, zi, block::LEAVES),
        gw(xi + 1, yi + 3, zi + 1, block::LEAVES),
        gw(xi + 1, yi + 4, zi + 1, block::LEAVES),
    ]
}

/// Builds the tree write list.
pub fn tree_writes(x: i64, y: i64, z: i64) -> (v: Vec<GenWrite>)
    requires
        -GEN_COORD_LIMIT <= x <= GEN_COORD_LIMIT,
        -GEN_COORD_LIMIT <= y <= GEN_COORD_LIMIT,
        -GEN_COORD_LIMIT <= z <= GEN_COORD_LIMIT,
    ensures
        v@ == spec_tree_writes(x, y, z),
        forall|i: int| 0 <= i < v@.len() ==> block::spec_valid_id(#[trigger] v@[i].id),
{
    let mut v: Vec<GenWrite> = Vec::new();
    v.push(GenWrite { x, y, z, id: block::LOG });
    v.push(GenWrite { x, y: y + 1, z, id: block::LOG });
    v.push(GenWrite { x, y: y + 2, z, id: block::LOG });
    v.push(GenWrite { x, y: y + 3, z, id: block::LOG });
    v.push(GenWrite { x, y: y + 4, z, id: block::LOG });
    v.push(GenWrite { x: x - 1, y: y + 3, z: z - 1, id: block::LEAVES });
    v.push(GenWrite { x: x - 1, y: y + 4, z: z - 1, id: block::LEAVES });
    v.push(GenWrite { x: x - 1, y: y + 3, z, id: block::LEAVES });
    v.push(GenWrite { x: x - 1, y: y + 4, z, id: block::LEAVES });
    v.push(GenWrite { x: x - 1, y: y + 5, z, id: block::LEAVES });
    v.push(GenWrite { x: x - 1, y: y + 3, z: z + 1, id: block::LEAVES });
    v.push(GenWrite { x: x - 1, y: y + 4, z: z + 1, id: block::LEAVES });
    v.push(GenWrite { x, y: y + 3, z: z - 1, id: block::LEAVES });
    v.push(GenWrite { x, y: y + 4, z: z - 1, id: block::LEAVES });
    v.push(GenWrite { x, y: y + 5, z: z - 1, id: block::LEAVES });
    v.push(GenWrite { x, y: y + 4, z, id: block::LEAVES });
    v.push(GenWrite { x, y: y + 5, z, id: block::LEAVES });
    v.push(GenWrite { x, y: y + 3, z: z + 1, id: block::LEAVES });
    v.push(GenWrite { x, y: y + 4, z: z + 1, id: block::LEAVES });
    v.push(GenWrite { x, y: y + 5, z: z + 1, id: block::LEAVES });
    v.push(GenWrite { x: x + 1, y: y + 3, z: z - 1, id: block::LEAVES });
    v.push(GenWrite { x: x + 1, y: y + 4, z: z - 1, id: block::LEAVES });
    v.push(GenWrite { x: x + 1, y: y + 3, z, id: block::LEAVES });
    v.push(GenWrite { x: x + 1, y: y + 4, z, id: block::LEAVES });
    v.push(GenWrite { x: x + 1, y: y + 5, z, id: block::LEAVES });
    v.push(GenWrite { x: x + 1, y: y + 3, z: z + 1, id: block::LEAVES });
    v.push(GenWrite { x: x + 1, y: y + 4, z: z + 1, id: block::LEAVES });
    proof {
        assert(v@ =~= spec_tree_writes(x, y, z));
    }
    v
}

/// The per-cell foliage roll in [0, 100).
pub open spec fn spec_fol_roll(seed: u32, x: i64, y: i64, z: i64) -> u64 {
    spec_roll_mod(seed, SALT_FOLIAGE, x, y, z, 100)
}

/// The decorative plant a surface cell grows, chosen by a second roll.
pub open spec fn spec_decor_id(seed: u32, x: i64, y: i64, z: i64) -> u16 {
    let r = spec_roll_mod(seed, SALT_DECOR, x, y, z, 10);
    if r <= 6 {
        block::TALL_GRASS
    } else if r == 7 {
        block::FERN
    } else if r == 8 {
        block::ROSE
    } else {
        block::DANDELION
    }
}

/// Whether the foliage pass acts on a cell: it must be the surface cell of
/// its column and its base block must still be ground (not carved away).
pub open spec fn spec_fol_cond(seed: u32, x: i64, y: i64, z: i64) -> bool {
    &&& spec_is_surface(seed, x, y, z)
    &&& block::spec_supports_foliage(spec_base_block(seed, x, y, z))
}

/// The writes one cell's foliage roll produces: nothing for most rolls, a
/// single decorative plant one cell up for rolls 50..=99, a tree for
/// roll 40.
pub open spec fn spec_cell_writes(seed: u32, x: i64, y: i64, z: i64) -> Seq<GenWrite> {
    if !spec_fol_cond(seed, x, y, z) {
        Seq::empty()
    } else {
        let r = spec_fol_roll(seed, x, y, z);
        if 50 <= r <= 99 {
            seq![gw(x as int, y as int + 1, z as int, spec_decor_id(seed, x, y, z))]
        } else if r == 40 {
            spec_tree_writes(x, (y as int + 1) as i64, z)
        } else {
            Seq::empty()
        }
    }
}

/// Builds the write list of one cell's foliage roll.
pub fn cell_writes(seed: u32, x: i64, y: i64, z: i64) -> (v: Vec<GenWrite>)
    requires
        -GEN_COORD_LIMIT < x < GEN_COORD_LIMIT,
        -GEN_COORD_LIMIT < y < GEN_COORD_LIMIT,
        -GEN_COORD_LIMIT < z < GEN_COORD_LIMIT,
    ensures
        v@ == spec_cell_writes(seed, x, y, z),
        forall|i: int| 0 <= i < v@.len() ==> block::spec_valid_id(#[trigger] v@[i].id),
{
    let s = surface_fixed(seed, x, z);
    let b = base_block_at(seed, x, y, z);
    let on_surface = y * 65536 < s && y == crate::coords::floor_div(s, 65536);
    if on_surface && block::supports_foliage(b) {
        let r = roll_mod(seed, SALT_FOLIAGE, x, y, z, 100);
        if 50 <= r && r <= 99 {
            let d = roll_mod(seed, SALT_DECOR, x, y, z, 10);
            let id = if d <= 6 {
                block::TALL_GRASS
            } else if d == 7 {
                block::FERN
            } else if d == 8 {
                block::ROSE
            } else {
                block::DANDELION
            };
            let mut v: Vec<GenWrite> = Vec::new();
            v.push(GenWrite { x, y: y + 1, z, id });
            proof {
                assert(v@ =~= spec_cell_writes(seed, x, y, z));
            }
            v
        } else if r == 40 {
            tree_writes(x, y + 1, z)
        } else {
            Vec::new()
        }
    } else {
        let v: Vec<GenWrite> = Vec::new();
        proof {
            assert(v@ =~= spec_cell_writes(seed, x, y, z));
        }
        v
    }
}

/// The generation state: the block grids of the chunks made so far, keyed
/// by packed chunk key, and the deferred-write queue for chunks that do
/// not exist yet.
pub struct GenState {
    pub grid: Map<u64, Seq<u16>>,
    pub queue: Map<u64, Seq<(usize, u16)>>,
}

impl GenState {
    pub open spec fn initial() -> GenState {
        GenState { grid: Map::empty(), queue: Map::empty() }
    }
}

/// Applies one generation write: directly into an existing chunk, else
/// appended to that chunk's queue entry. Writes to chunks outside the
/// representable key range are dropped.
pub open spec fn spec_apply_write(st: GenState, w: GenWrite) -> GenState {
    let c = spec_chunk_of(w.x as int, w.y as int, w.z as int);
    let j = spec_cell_index(w.x as int, w.y as int, w.z as int) as usize;
    if !spec_in_key_range(c) {
        st
    } else {
        let k = spec_key(c) as u64;
        if st.grid.contains_key(k) {
            GenState { grid: st.grid.insert(k, st.grid[k].update(j as int, w.id)), queue: st.queue }
        } else {
            let q = if st.queue.contains_key(k) {
                st.queue[k]
            } else {
                Seq::empty()
            };
            GenState { grid: st.grid, queue: st.queue.insert(k, q.push((j, w.id))) }
        }
    }
}

/// Applies a write list in order.
pub open spec fn spec_apply_writes(st: GenState, ws: Seq<GenWrite>) -> GenState
    decreases ws.len(),
{
    if ws.len() == 0 {
        st
    } else {
        spec_apply_write(spec_apply_writes(st, ws.drop_last()), ws.last())
    }
}

/// Applying writes never changes which chunks exist, nor any chunk other
/// than each write's target.
pub proof fn lemma_apply_write_dom(st: GenState, w: GenWrite)
    ensures
        spec_apply_write(st, w).grid.dom() == st.grid.dom(),
{
    let c = spec_chunk_of(w.x as int, w.y as int, w.z as int);
    if spec_in_key_range(c) {
        let k = spec_key(c) as u64;
        if st.grid.contains_key(k) {
            assert(spec_apply_write(st, w).grid.dom() =~= st.grid.dom());
        }
    }
}

pub proof fn lemma_apply_writes_dom(st: GenState, ws: Seq<GenWrite>)
    ensures
        spec_apply_writes(st, ws).grid.dom() == st.grid.dom(),
    decreases ws.len(),
{
    if ws.len() > 0 {
        lemma_apply_writes_dom(st, ws.drop_last());
        lemma_apply_write_dom(spec_apply_writes(st, ws.drop_last()), ws.last());
    }
}

/// Folds the foliage pass of chunk `c` over its first `n` cells.
pub open spec fn spec_fol_prefix(seed: u32, st: GenState, c: ChunkPos, n: int) -> GenState
    decreases n,
{
    if n <= 0 {
        st
    } else {
        let j = n - 1;
        spec_apply_writes(
            spec_fol_prefix(seed, st, c, j),
            spec_cell_writes(
                seed,
                (c.x * 16 + crate::chunk::spec_lin_x(j)) as i64,
                (c.y * 16 + crate::chunk::spec_lin_y(j)) as i64,
                (c.z * 16 + crate::chunk::spec_lin_z(j)) as i64,
            ),
        )
    }
}

pub proof fn lemma_fol_prefix_dom(seed: u32, st: GenState, c: ChunkPos, n: int)
    ensures
        spec_fol_prefix(seed, st, c, n).grid.dom() == st.grid.dom(),
    decreases n,
{
    if n > 0 {
        lemma_fol_prefix_dom(seed, st, c, n - 1);
        lemma_apply_writes_dom(
            spec_fol_prefix(seed, st, c, n - 1),
            spec_cell_writes(
                seed,
                (c.x * 16 + crate::chunk::spec_lin_x(n - 1)) as i64,
                (c.y * 16 + crate::chunk::spec_lin_y(n - 1)) as i64,
                (c.z * 16 + crate::chunk::spec_lin_z(n - 1)) as i64,
            ),
        );
    }
}

/// Generates one chunk: the three passes of the terrain generator. The
/// foliage pass runs while the chunk itself is still absent from the grid
/// (its own writes go through the queue); the finished base grid is then
/// inserted.
pub open spec fn spec_gen_chunk(seed: u32, st: GenState, c: ChunkPos) -> GenState {
    let st1 = spec_fol_prefix(seed, st, c, 4096);
    GenState {
        grid: st1.grid.insert(spec_key(c) as u64, spec_base_chunk(seed, c)),
        queue: st1.queue,
    }
}

/// A chunk coordinate inside the generated region: horizontal +- radius,
/// vertical 0..radius.
pub open spec fn spec_in_region(radius: i64, c: ChunkPos) -> bool {
    &&& -(radius as int) <= c.x < radius as int
    &&& 0 <= c.y < radius as int
    &&& -(radius as int) <= c.z < radius as int
}

/// Generates the first `n` chunks of the z row at (cx, cy).
pub open spec fn spec_gen_z(seed: u32, r: i64, st: GenState, cx: i64, cy: i64, n: int) -> GenState
    decreases n,
{
    if n <= 0 {
        st
    } else {
        spec_gen_chunk(
            seed,
            spec_gen_z(seed, r, st, cx, cy, n - 1),
            ChunkPos { x: cx, y: cy, z: (-(r as int) + n - 1) as i64 },
        )
    }
}

/// Generates the first `n` y layers of the x slice at cx.
pub open spec fn spec_gen_y(seed: u32, r: i64, st: GenState, cx: i64, n: int) -> GenState
    decreases n,
{
    if n <= 0 {
        st
    } else {
        spec_gen_z(seed, r, spec_gen_y(seed, r, st, cx, n - 1), cx, (n - 1) as i64, 2 * r as int)
    }
}

/// Generates the first `n` x slices of the region.
pub open spec fn spec_gen_x(seed: u32, r: i64, st: GenState, n: int) -> GenState
    decreases n,
{
    if n <= 0 {
        st
    } else {
        spec_gen_y(seed, r, spec_gen_x(seed, r, st, n - 1), (-(r as int) + n - 1) as i64, r as int)
    }
}

/// The generation state after every chunk of the region has been made.
pub open spec fn spec_gen_all(seed: u32, r: i64) -> GenState {
    spec_gen_x(seed, r, GenState::initial(), 2 * r as int)
}

/// Applies the first `n` queued writes to a chunk's block grid.
pub open spec fn spec_apply_local(b: Seq<u16>, q: Seq<(usize, u16)>, n: int) -> Seq<u16>
    decreases n,
{
    if n <= 0 {
        b
    } else {
        spec_apply_local(b, q, n - 1).update(q[n - 1].0 as int, q[n - 1].1)
    }
}

/// Drains the queue entry of one chunk: every write whose target now
/// exists is applied, and the entry is removed.
pub open spec fn spec_drain_chunk(st: GenState, c: ChunkPos) -> GenState {
    let k = spec_key(c) as u64;
    if st.queue.contains_key(k) {
        let q = st.queue[k];
        if st.grid.contains_key(k) {
            GenState {
                grid: st.grid.insert(k, spec_apply_local(st.grid[k], q, q.len() as int)),
                queue: st.queue.remove(k),
            }
        } else {
            GenState { grid: st.grid, queue: st.queue.remove(k) }
        }
    } else {
        st
    }
}

pub open spec fn spec_drain_z(st: GenState, r: i64, cx: i64, cy: i64, n: int) -> GenState
    decreases n,
{
    if n <= 0 {
        st
    } else {
        spec_drain_chunk(
            spec_drain_z(st, r, cx, cy, n - 1),
            ChunkPos { x: cx, y: cy, z: (-(r as int) + n - 1) as i64 },
        )
    }
}

pub open spec fn spec_drain_y(st: GenState, r: i64, cx: i64, n: int) -> GenState
    decreases n,
{
    if n <= 0 {
        st
    } else {
        spec_drain_z(spec_drain_y(st, r, cx, n - 1), r, cx, (n - 1) as i64, 2 * r as int)
    }
}

pub open spec fn spec_drain_x(st: GenState, r: i64, n: int) -> GenState
    decreases n,
{
    if n <= 0 {
        st
    } else {
        spec_drain_y(spec_drain_x(st, r, n - 1), r, (-(r as int) + n - 1) as i64, r as int)
    }
}

/// The block grids of the finished world: every region chunk generated,
/// then the deferred queue drained over the region in the same order.
pub open spec fn spec_world_grid(seed: u32, r: i64) -> Map<u64, Seq<u16>> {
    spec_drain_x(spec_gen_all(seed, r), r, 2 * r as int).grid
}

/// The block a finished world holds at a global cell position: air
/// wherever no chunk was generated.
pub open spec fn spec_generated_block(seed: u32, r: i64, x: int, y: int, z: int) -> u16 {
    let c = spec_chunk_of(x, y, z);
    let grid = spec_world_grid(seed, r);
    if spec_in_key_range(c) && grid.contains_key(spec_key(c) as u64) {
        grid[spec_key(c) as u64][spec_cell_index(x, y, z)]
    } else {
        block::AIR
    }
}

/// Which chunks exist after generating a z-row prefix: the coordinate `c`
/// is present exactly when it was before or lies in the processed row.
pub proof fn lemma_gen_z_dom(seed: u32, r: i64, st: GenState, cx: i64, cy: i64, n: int, c: ChunkPos)
    requires
        spec_in_key_range(c),
        -(crate::coords::KEY_SPAN as int) <= cx < crate::coords::KEY_SPAN as int,
        -(crate::coords::KEY_SPAN as int) <= cy < crate::coords::KEY_SPAN as int,
        0 <= r,
        n <= 2 * r,
        r as int <= crate::coords::KEY_SPAN as int / 2,
    ensures
        spec_gen_z(seed, r, st, cx, cy, n).grid.contains_key(spec_key(c) as u64) <==> (
        st.grid.contains_key(spec_key(c) as u64) || (c.x == cx && c.y == cy && -(r as int) <= c.z
            < -(r as int) + n)),
    decreases n,
{
    if n > 0 {
        lemma_gen_z_dom(seed, r, st, cx, cy, n - 1, c);
        let prev = spec_gen_z(seed, r, st, cx, cy, n - 1);
        let cn = ChunkPos { x: cx, y: cy, z: (-(r as int) + n - 1) as i64 };
        lemma_fol_prefix_dom(seed, prev, cn, 4096);
        if spec_key(c) as u64 == spec_key(cn) as u64 {
            crate::coords::lemma_key_injective(c, cn);
        }
    }
}

/// Which chunks exist after generating a y-layer prefix.
pub proof fn lemma_gen_y_dom(seed: u32, r: i64, st: GenState, cx: i64, n: int, c: ChunkPos)
    requires
        spec_in_key_range(c),
        -(crate::coords::KEY_SPAN as int) <= cx < crate::coords::KEY_SPAN as int,
        0 <= r,
        n <= r,
        r as int <= crate::coords::KEY_SPAN as int / 2,
    ensures
        spec_gen_y(seed, r, st, cx, n).grid.contains_key(spec_key(c) as u64) <==> (
        st.grid.contains_key(spec_key(c) as u64) || (c.x == cx && 0 <= c.y < n && -(r as int)
            <= c.z < r as int)),
    decreases n,
{
    if n > 0 {
        lemma_gen_y_dom(seed, r, st, cx, n - 1, c);
        let prev = spec_gen_y(seed, r, st, cx, n - 1);
        lemma_gen_z_dom(seed, r, prev, cx, (n - 1) as i64, 2 * r as int, c);
    }
}

/// Which chunks exist after generating an x-slice prefix.
pub proof fn lemma_gen_x_dom(seed: u32, r: i64, st: GenState, n: int, c: ChunkPos)
    requires
        spec_in_key_range(c),
        0 <= r,
        n <= 2 * r,
        r as int <= crate::coords::KEY_SPAN as int / 2,
    ensures
        spec_gen_x(seed, r, st, n).grid.contains_key(spec_key(c) as u64) <==> (
        st.grid.contains_key(spec_key(c) as u64) || (-(r as int) <= c.x < -(r as int) + n && 0
            <= c.y < r as int && -(r as int) <= c.z < r as int)),
    decreases n,
{
    if n > 0 {
        lemma_gen_x_dom(seed, r, st, n - 1, c);
        let prev = spec_gen_x(seed, r, st, n - 1);
        lemma_gen_y_dom(seed, r, prev, (-(r as int) + n - 1) as i64, r as int, c);
    }
}

/// Draining never changes which chunks exist.
pub proof fn lemma_drain_chunk_dom(st: GenState, c: ChunkPos)
    ensures
        spec_drain_chunk(st, c).grid.dom() == st.grid.dom(),
{
    let k = spec_key(c) as u64;
    if st.queue.contains_key(k) && st.grid.contains_key(k) {
        assert(spec_drain_chunk(st, c).grid.dom() =~= st.grid.dom());
    }
}

pub proof fn lemma_drain_z_dom(st: GenState, r: i64, cx: i64, cy: i64, n: int)
    ensures
        spec_drain_z(st, r, cx, cy, n).grid.dom() == st.grid.dom(),
    decreases n,
{
    if n > 0 {
        lemma_drain_z_dom(st, r, cx, cy, n - 1);
        lemma_drain_chunk_dom(
            spec_drain_z(st, r, cx, cy, n - 1),
            ChunkPos { x: cx, y: cy, z: (-(r as int) + n - 1) as i64 },
        );
    }
}

pub proof fn lemma_drain_y_dom(st: GenState, r: i64, cx: i64, n: int)
    ensures
        spec_drain_y(st, r, cx, n).grid.dom() == st.grid.dom(),
    decreases n,
{
    if n > 0 {
        lemma_drain_y_dom(st, r, cx, n - 1);
        lemma_drain_z_dom(spec_drain_y(st, r, cx, n - 1), r, cx, (n - 1) as i64, 2 * r as int);
    }
}

pub proof fn lemma_drain_x_dom(st: GenState, r: i64, n: int)
    ensures
        spec_drain_x(st, r, n).grid.dom() == st.grid.dom(),
    decreases n,
{
    if n > 0 {
        lemma_drain_x_dom(st, r, n - 1);
        lemma_drain_y_dom(spec_drain_x(st, r, n - 1), r, (-(r as int) + n - 1) as i64, r as int);
    }
}

/// After full generation, exactly the region's chunks exist.
pub proof fn lemma_world_grid_dom(seed: u32, r: i64, c: ChunkPos)
    requires
        0 <= r <= 256,
        spec_in_key_range(c),
    ensures
        spec_world_grid(seed, r).contains_key(spec_key(c) as u64) <==> spec_in_region(r, c),
{
    lemma_drain_x_dom(spec_gen_all(seed, r), r, 2 * r as int);
    lemma_gen_x_dom(seed, r, GenState::initial(), 2 * r as int, c);
}

} // verus!
