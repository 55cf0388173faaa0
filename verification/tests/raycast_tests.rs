//! Ray-marching tests: straight-down casts over a known grid, oblique
//! casts, distance cutoffs and empty space.

use voxelgame::block;
use voxelgame::chunk::empty_grid;
use voxelgame::coords::{lin_index, ChunkPos, LocalPos};
use voxelgame::world::World;

const ONE: i64 = 65536;

fn world_with_stone_at(x: usize, y: usize, z: usize) -> World {
    let mut w = World::new(0, 0, 5, 1);
    let mut grid = empty_grid();
    grid[lin_index(LocalPos { x, y, z })] = block::STONE;
    w.chunk_from_block_array(ChunkPos { x: 0, y: 0, z: 0 }, grid);
    w.chunk_from_block_array(ChunkPos { x: -1, y: 0, z: 0 }, empty_grid());
    w.chunk_from_block_array(ChunkPos { x: 0, y: 0, z: -1 }, empty_grid());
    w.chunk_from_block_array(ChunkPos { x: -1, y: 0, z: -1 }, empty_grid());
    w
}

#[test]
fn straight_down_hits_the_cell_below() {
    let w = world_with_stone_at(8, 8, 8);
    // from the middle of cell (8, 12, 8), straight down, budget 6 cells
    let r = w.cast_ray(8 * ONE + ONE / 2, 12 * ONE + ONE / 2, 8 * ONE + ONE / 2, 0, -ONE, 0, 6 * ONE);
    let hit = r.expect("the ray should hit");
    assert_eq!((hit.cell_x, hit.cell_y, hit.cell_z), (8, 8, 8));
    // the crossing point sits on the top face of the hit cell
    assert_eq!(hit.hy, 9 * ONE);
    assert_eq!(hit.hx, 8 * ONE + ONE / 2);
    assert_eq!(hit.hz, 8 * ONE + ONE / 2);
}

#[test]
fn straight_down_with_short_budget_misses() {
    let w = world_with_stone_at(8, 8, 8);
    // the gap from y = 12.5 to the top of cell 8 is 3.5 cells
    let r = w.cast_ray(8 * ONE + ONE / 2, 12 * ONE + ONE / 2, 8 * ONE + ONE / 2, 0, -ONE, 0, 3 * ONE);
    assert!(r.is_none());
}

#[test]
fn axis_cast_hits_along_x() {
    let w = world_with_stone_at(10, 8, 8);
    let r = w.cast_ray(4 * ONE + ONE / 2, 8 * ONE + ONE / 2, 8 * ONE + ONE / 2, ONE, 0, 0, 8 * ONE);
    let hit = r.expect("the ray should hit");
    assert_eq!((hit.cell_x, hit.cell_y, hit.cell_z), (10, 8, 8));
    assert_eq!(hit.hx, 10 * ONE);
}

#[test]
fn oblique_cast_finds_the_block() {
    let w = world_with_stone_at(10, 6, 8);
    // aim down and toward +x at 45 degrees within the xz plane kept fixed
    let d = (2.0f64).sqrt().recip();
    let dx = (d * 65536.0) as i64;
    let dy = -dx;
    let r = w.cast_ray(6 * ONE + ONE / 2, 10 * ONE + ONE / 2, 8 * ONE + ONE / 2, dx, dy, 0, 12 * ONE);
    let hit = r.expect("the ray should hit");
    assert_eq!((hit.cell_x, hit.cell_y, hit.cell_z), (10, 6, 8));
}

#[test]
fn empty_space_returns_nothing() {
    let mut w = World::new(0, 0, 5, 1);
    w.chunk_from_block_array(ChunkPos { x: 0, y: 0, z: 0 }, empty_grid());
    let r = w.cast_ray(8 * ONE, 15 * ONE, 8 * ONE, 0, -ONE, 0, 4 * ONE);
    assert!(r.is_none());
}

#[test]
fn zero_direction_returns_nothing() {
    let w = world_with_stone_at(8, 8, 8);
    assert!(w.cast_ray(8 * ONE, 12 * ONE, 8 * ONE, 0, 0, 0, 6 * ONE).is_none());
}
