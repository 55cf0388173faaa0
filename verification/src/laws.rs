//! The library's cross-cutting guarantees, stated and proved over the
//! models that the public contracts use: chunk coverage of the generated
//! region, which meshes a mutation regenerates, face counts of the mesher,
//! straight-down ray casts, and determinism of generation.

use crate::block;
use crate::coords::{spec_in_key_range, spec_key, spec_lin, ChunkPos, LocalPos};
use crate::meshgen::{blocks_model, spec_cell_faces, spec_face_visible};
use crate::raycast::{spec_cast_ray, spec_init_num, spec_ray_march};
use crate::terrain::{spec_in_region, spec_world_grid};
use crate::world::{spec_shift, spec_touched_all, World};
use vstd::arithmetic::div_mod::{
    lemma_div_by_multiple, lemma_div_is_ordered, lemma_fundamental_div_mod,
};
use vstd::prelude::*;

verus! {

/// A well-formed world holds a chunk for a coordinate exactly when that
/// coordinate lies in the generated region; the chunk store is a map, so
/// that chunk is unique.
pub proof fn lemma_region_has_one_chunk(w: World, c: ChunkPos)
    requires
        w.wf(),
        spec_in_key_range(c),
    ensures
        w.has_chunk(c) <==> spec_in_region(w.chunk_radius, c),
{
    assert(w.has_chunk(c) <==> (spec_in_key_range(c) && spec_in_region(w.chunk_radius, c)));
}

/// Mutating an interior cell (no local index on a chunk-boundary face)
/// re-meshes the owning chunk alone.
pub proof fn lemma_interior_mutation_touches_owner_only(c: ChunkPos, l: LocalPos)
    requires
        0 < l.x < 15,
        0 < l.y < 15,
        0 < l.z < 15,
    ensures
        spec_touched_all(c, l) == Set::<ChunkPos>::empty().insert(c),
{
    assert(spec_touched_all(c, l) =~= Set::<ChunkPos>::empty().insert(c));
}

/// Mutating a cell on a chunk-boundary face re-meshes the owning chunk and
/// the face neighbor behind that boundary.
pub proof fn lemma_boundary_mutation_touches_neighbor(c: ChunkPos, l: LocalPos)
    requires
        l.x == 0 || l.x == 15 || l.y == 0 || l.y == 15 || l.z == 0 || l.z == 15,
    ensures
        spec_touched_all(c, l).contains(c),
        l.x == 0 ==> spec_touched_all(c, l).contains(spec_shift(c, -1, 0, 0)),
        l.x == 15 ==> spec_touched_all(c, l).contains(spec_shift(c, 1, 0, 0)),
        l.y == 0 ==> spec_touched_all(c, l).contains(spec_shift(c, 0, -1, 0)),
        l.y == 15 ==> spec_touched_all(c, l).contains(spec_shift(c, 0, 1, 0)),
        l.z == 0 ==> spec_touched_all(c, l).contains(spec_shift(c, 0, 0, -1)),
        l.z == 15 ==> spec_touched_all(c, l).contains(spec_shift(c, 0, 0, 1)),
{
}

/// A cube-shaped cell whose six neighbors are all transparent emits
/// exactly six faces (36 vertices of a non-indexed triangle list); one
/// whose six neighbors all occlude emits none.
pub proof fn lemma_cube_cell_face_count(
    blocks: Map<u64, Seq<u16>>,
    meta: Map<u64, Seq<u16>>,
    c: ChunkPos,
    x: int,
    y: int,
    z: int,
)
    requires
        0 <= x < 16,
        0 <= y < 16,
        0 <= z < 16,
        blocks[spec_key(c) as u64][spec_lin(x, y, z)] != 0,
        !block::spec_crossed(blocks[spec_key(c) as u64][spec_lin(x, y, z)]),
    ensures
        (forall|dir: int| 0 <= dir < 6 ==> spec_face_visible(blocks, c, x, y, z, dir))
            ==> spec_cell_faces(blocks, meta, c, x, y, z).len() == 6,
        (forall|dir: int| 0 <= dir < 6 ==> !spec_face_visible(blocks, c, x, y, z, dir))
            ==> spec_cell_faces(blocks, meta, c, x, y, z).len() == 0,
{
    let id = blocks[spec_key(c) as u64][spec_lin(x, y, z)];
    let active = meta[spec_key(c) as u64][spec_lin(x, y, z)] == 1;
    if forall|dir: int| 0 <= dir < 6 ==> spec_face_visible(blocks, c, x, y, z, dir) {
        assert(spec_face_visible(blocks, c, x, y, z, 0));
        assert(spec_face_visible(blocks, c, x, y, z, 1));
        assert(spec_face_visible(blocks, c, x, y, z, 2));
        assert(spec_face_visible(blocks, c, x, y, z, 3));
        assert(spec_face_visible(blocks, c, x, y, z, 4));
        assert(spec_face_visible(blocks, c, x, y, z, 5));
        assert(spec_cell_faces(blocks, meta, c, x, y, z).len() == 6);
    }
    if forall|dir: int| 0 <= dir < 6 ==> !spec_face_visible(blocks, c, x, y, z, dir) {
        assert(!spec_face_visible(blocks, c, x, y, z, 0));
        assert(!spec_face_visible(blocks, c, x, y, z, 1));
        assert(!spec_face_visible(blocks, c, x, y, z, 2));
        assert(!spec_face_visible(blocks, c, x, y, z, 3));
        assert(!spec_face_visible(blocks, c, x, y, z, 4));
        assert(!spec_face_visible(blocks, c, x, y, z, 5));
        assert(spec_cell_faces(blocks, meta, c, x, y, z).len() == 0);
    }
}

/// A straight-down march from a column of air above a solid cell reaches
/// that cell while the distance budget lasts.
proof fn lemma_down_march_hits(
    w: World,
    ox: i64,
    oy: i64,
    oz: i64,
    max_t: i64,
    cx: int,
    cy: int,
    cz: int,
    nx: int,
    nz: int,
    ys: int,
    fuel: nat,
)
    requires
        -0x2000000000 <= cx <= 0x2000000000,
        -0x2000000000 <= cz <= 0x2000000000,
        -0x2000000000 <= ys,
        ys < cy <= 0x2000000000,
        w.spec_block_at(cx, ys, cz) != 0,
        forall|yy: int| ys < yy < cy ==> #[trigger] w.spec_block_at(cx, yy, cz) == 0,
        oy as int - cy * 65536 >= 0,
        oy as int - (ys + 1) * 65536 <= max_t as int,
        cy - ys <= fuel,
    ensures
        ({
            let r = spec_ray_march(
                w,
                0i64,
                -65536i64,
                0i64,
                ox,
                oy,
                oz,
                max_t,
                cx,
                cy,
                cz,
                nx,
                oy as int - cy * 65536,
                nz,
                fuel,
            );
            &&& r is Some
            &&& r->Some_0.cell_x == cx as i64
            &&& r->Some_0.cell_y == ys as i64
            &&& r->Some_0.cell_z == cz as i64
        }),
    decreases fuel,
{
    let ny = oy as int - cy * 65536;
    assert(ny <= max_t as int);
    if cy - 1 == ys {
    } else {
        assert(w.spec_block_at(cx, cy - 1, cz) == 0);
        lemma_down_march_hits(
            w,
            ox,
            oy,
            oz,
            max_t,
            cx,
            cy - 1,
            cz,
            nx,
            nz,
            ys,
            (fuel - 1) as nat,
        );
    }
}

/// A straight-down march over air runs out of distance before it reaches
/// the solid cell below.
proof fn lemma_down_march_misses(
    w: World,
    ox: i64,
    oy: i64,
    oz: i64,
    max_t: i64,
    cx: int,
    cy: int,
    cz: int,
    nx: int,
    nz: int,
    ys: int,
    fuel: nat,
)
    requires
        ys < cy,
        forall|yy: int| ys < yy < cy ==> #[trigger] w.spec_block_at(cx, yy, cz) == 0,
        oy as int - cy * 65536 >= 0,
        (max_t as int) < oy as int - (ys + 1) * 65536,
    ensures
        spec_ray_march(
            w,
            0i64,
            -65536i64,
            0i64,
            ox,
            oy,
            oz,
            max_t,
            cx,
            cy,
            cz,
            nx,
            oy as int - cy * 65536,
            nz,
            fuel,
        ) is None,
    decreases fuel,
{
    if fuel > 0 {
        let ny = oy as int - cy * 65536;
        if ny * 65536 > (max_t as int) * 65536 {
        } else {
            assert(ny <= max_t as int);
            assert(cy - 1 > ys);
            assert(w.spec_block_at(cx, cy - 1, cz) == 0);
            lemma_down_march_misses(
                w,
                ox,
                oy,
                oz,
                max_t,
                cx,
                cy - 1,
                cz,
                nx,
                nz,
                ys,
                (fuel - 1) as nat,
            );
        }
    }
}

/// Casting straight down from above a known solid cell, with at least the
/// vertical gap as distance budget, hits exactly that cell.
pub proof fn lemma_cast_ray_straight_down_hits(
    w: World,
    ox: i64,
    oy: i64,
    oz: i64,
    max_t: i64,
    ys: int,
)
    requires
        -crate::raycast::RAY_COORD_LIMIT <= ox <= crate::raycast::RAY_COORD_LIMIT,
        -crate::raycast::RAY_COORD_LIMIT <= oy <= crate::raycast::RAY_COORD_LIMIT,
        -crate::raycast::RAY_COORD_LIMIT <= oz <= crate::raycast::RAY_COORD_LIMIT,
        0 <= max_t,
        -0x2000000000 <= ys,
        ys < oy as int / 65536,
        w.spec_block_at(ox as int / 65536, ys, oz as int / 65536) != 0,
        forall|yy: int|
            ys < yy < oy as int / 65536 ==> #[trigger] w.spec_block_at(
                ox as int / 65536,
                yy,
                oz as int / 65536,
            ) == 0,
        oy as int - (ys + 1) * 65536 <= max_t as int,
    ensures
        ({
            let r = spec_cast_ray(w, ox, oy, oz, 0i64, -65536i64, 0i64, max_t);
            &&& r is Some
            &&& r->Some_0.cell_x == (ox as int / 65536) as i64
            &&& r->Some_0.cell_y == ys as i64
            &&& r->Some_0.cell_z == (oz as int / 65536) as i64
        }),
{
    let cx = ox as int / 65536;
    let cy = oy as int / 65536;
    let cz = oz as int / 65536;
    lemma_fundamental_div_mod(ox as int, 65536);
    lemma_fundamental_div_mod(oy as int, 65536);
    lemma_fundamental_div_mod(oz as int, 65536);
    // the distance budget also bounds the number of crossings under the fuel
    let gap = cy - ys;
    assert(oy as int - (ys + 1) * 65536 >= (gap - 1) * 65536);
    lemma_div_is_ordered((gap - 1) * 65536, max_t as int, 65536);
    lemma_div_by_multiple(gap - 1, 65536);
    assert(gap - 1 <= max_t as int / 65536);
    assert(gap <= crate::raycast::spec_ray_fuel(max_t));
    lemma_down_march_hits(
        w,
        ox,
        oy,
        oz,
        max_t,
        cx,
        cy,
        cz,
        spec_init_num(ox, 0, cx),
        spec_init_num(oz, 0, cz),
        ys,
        crate::raycast::spec_ray_fuel(max_t),
    );
}

/// Casting straight down with a distance budget strictly shorter than the
/// vertical gap to the first non-air cell finds nothing.
pub proof fn lemma_cast_ray_straight_down_misses(
    w: World,
    ox: i64,
    oy: i64,
    oz: i64,
    max_t: i64,
    ys: int,
)
    requires
        ys < oy as int / 65536,
        forall|yy: int|
            ys < yy < oy as int / 65536 ==> #[trigger] w.spec_block_at(
                ox as int / 65536,
                yy,
                oz as int / 65536,
            ) == 0,
        (max_t as int) < oy as int - (ys + 1) * 65536,
    ensures
        spec_cast_ray(w, ox, oy, oz, 0i64, -65536i64, 0i64, max_t) is None,
{
    let cy = oy as int / 65536;
    lemma_fundamental_div_mod(oy as int, 65536);
    lemma_down_march_misses(
        w,
        ox,
        oy,
        oz,
        max_t,
        ox as int / 65536,
        cy,
        oz as int / 65536,
        spec_init_num(ox, 0, ox as int / 65536),
        spec_init_num(oz, 0, oz as int / 65536),
        ys,
        crate::raycast::spec_ray_fuel(max_t),
    );
}

/// Generation is deterministic: two worlds whose stored grids both equal
/// the generated grid of the same (seed, radius) agree on every cell.
pub proof fn lemma_generation_deterministic(w1: World, w2: World, seed: u32, radius: i64)
    requires
        blocks_model(w1.chunks@) == spec_world_grid(seed, radius),
        blocks_model(w2.chunks@) == spec_world_grid(seed, radius),
    ensures
        forall|x: int, y: int, z: int|
            #[trigger] w1.spec_block_at(x, y, z) == w2.spec_block_at(x, y, z),
{
    let grid = spec_world_grid(seed, radius);
    assert forall|x: int, y: int, z: int| #[trigger] w1.spec_block_at(x, y, z)
        == w2.spec_block_at(x, y, z) by {
        let c = crate::coords::spec_chunk_of(x, y, z);
        let k = spec_key(c) as u64;
        assert(blocks_model(w1.chunks@).contains_key(k) == w1.chunks@.contains_key(k));
        assert(blocks_model(w2.chunks@).contains_key(k) == w2.chunks@.contains_key(k));
        if w1.chunks@.contains_key(k) {
            assert(blocks_model(w1.chunks@)[k] == w1.chunks@[k].blocks@);
            assert(blocks_model(w2.chunks@)[k] == w2.chunks@[k].blocks@);
        }
    }
}

} // verus!
