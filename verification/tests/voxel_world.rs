//! World-level tests: construction, region coverage, queries, mutation,
//! re-meshing and determinism.

use voxelgame::block;
use voxelgame::chunk::empty_grid;
use voxelgame::coords::{lin_index, ChunkPos, LocalPos};
use voxelgame::world::World;

fn mesh_face_count(w: &World, c: ChunkPos) -> usize {
    let chunk = w.get_chunk(c).expect("chunk should exist");
    match &chunk.block_mesh {
        Some(m) => m.faces.len(),
        None => 0,
    }
}

#[test]
fn region_has_exactly_the_requested_chunks() {
    let w = World::new(0, 0, 7, 1);
    for cx in -1..1 {
        for cy in 0..1 {
            for cz in -1..1 {
                assert!(w.get_chunk(ChunkPos { x: cx, y: cy, z: cz }).is_some());
            }
        }
    }
    assert!(w.get_chunk(ChunkPos { x: 1, y: 0, z: 0 }).is_none());
    assert!(w.get_chunk(ChunkPos { x: 0, y: 1, z: 0 }).is_none());
    assert!(w.get_chunk(ChunkPos { x: 0, y: -1, z: 0 }).is_none());
    assert_eq!(w.chunk_positions().len(), 4);
}

#[test]
fn query_outside_generated_space_is_air() {
    let w = World::new(0, 0, 7, 1);
    assert_eq!(w.block_at_global_pos(1000, 1000, 1000), 0);
    assert!(!w.collision_at_world_pos(1000, 1000, 1000));
}

#[test]
fn query_is_repeatable_without_mutation() {
    let w = World::new(0, 0, 11, 1);
    for &(x, y, z) in &[(0i64, 0i64, 0i64), (3, 7, -5), (-16, 12, 15), (100, -3, 2)] {
        let first = w.block_at_global_pos(x, y, z);
        let second = w.block_at_global_pos(x, y, z);
        assert_eq!(first, second);
    }
}

#[test]
fn surface_cell_holds_the_surface_block() {
    let w = World::new(0, 0, 42, 1);
    let s = voxelgame::terrain::surface_fixed(42, 0, 0);
    let ys = voxelgame::coords::floor_div(s, 65536);
    let id = w.block_at_global_pos(0, ys, 0);
    assert_eq!(id, block::GRASS);
}

#[test]
fn some_mesh_is_nonempty_after_construction() {
    let w = World::new(0, 0, 42, 1);
    let mut total = 0usize;
    for cx in -1..1 {
        for cy in 0..1 {
            for cz in -1..1 {
                total += mesh_face_count(&w, ChunkPos { x: cx, y: cy, z: cz });
            }
        }
    }
    assert!(total > 0);
}

#[test]
fn identical_seed_and_radius_reproduce_the_grid() {
    let w1 = World::new(0, 0, 1234, 1);
    let w2 = World::new(0, 0, 1234, 1);
    for x in -16i64..16 {
        for y in 0i64..16 {
            for z in -16i64..16 {
                assert_eq!(w1.block_at_global_pos(x, y, z), w2.block_at_global_pos(x, y, z));
            }
        }
    }
}

#[test]
fn different_seeds_differ_somewhere() {
    let w1 = World::new(0, 0, 1, 1);
    let w2 = World::new(0, 0, 2, 1);
    let mut differs = false;
    for x in -16i64..16 {
        for y in 0i64..16 {
            for z in -16i64..16 {
                if w1.block_at_global_pos(x, y, z) != w2.block_at_global_pos(x, y, z) {
                    differs = true;
                }
            }
        }
    }
    assert!(differs);
}

#[test]
fn destroy_clears_the_cell() {
    let mut w = World::new(0, 0, 5, 1);
    w.place_at_global_pos(3, 8, 3, block::STONE);
    assert_eq!(w.block_at_global_pos(3, 8, 3), block::STONE);
    w.destroy_at_global_pos(3, 8, 3);
    assert_eq!(w.block_at_global_pos(3, 8, 3), 0);
}

#[test]
fn destroy_outside_the_region_is_a_no_op() {
    let mut w = World::new(0, 0, 5, 1);
    w.destroy_at_global_pos(500, 500, 500);
    assert_eq!(w.block_at_global_pos(500, 500, 500), 0);
}

#[test]
fn place_stores_the_given_id() {
    let mut w = World::new(0, 0, 5, 1);
    w.place_at_global_pos(-3, 12, 4, block::LOG);
    assert_eq!(w.block_at_global_pos(-3, 12, 4), block::LOG);
    assert!(w.collision_at_world_pos(-3, 12, 4));
}

#[test]
fn destroy_settles_unsupported_plants_above() {
    let mut w = World::new(0, 0, 5, 1);
    let mut grid = empty_grid();
    grid[lin_index(LocalPos { x: 8, y: 8, z: 8 })] = block::DIRT;
    grid[lin_index(LocalPos { x: 8, y: 9, z: 8 })] = block::TALL_GRASS;
    w.chunk_from_block_array(ChunkPos { x: 0, y: 0, z: 0 }, grid);
    assert_eq!(w.block_at_global_pos(8, 9, 8), block::TALL_GRASS);
    w.destroy_at_global_pos(8, 8, 8);
    assert_eq!(w.block_at_global_pos(8, 8, 8), 0);
    assert_eq!(w.block_at_global_pos(8, 9, 8), 0);
}

#[test]
fn place_does_not_settle() {
    // placing next to an unsupported plant leaves the plant alone: the
    // settle pass runs on destroy and interact only
    let mut w = World::new(0, 0, 5, 1);
    let mut grid = empty_grid();
    grid[lin_index(LocalPos { x: 8, y: 9, z: 8 })] = block::ROSE;
    w.chunk_from_block_array(ChunkPos { x: 0, y: 0, z: 0 }, grid);
    w.place_at_global_pos(4, 4, 4, block::STONE);
    assert_eq!(w.block_at_global_pos(8, 9, 8), block::ROSE);
}

#[test]
fn interact_toggles_activatable_metadata() {
    let mut w = World::new(0, 0, 5, 1);
    let mut grid = empty_grid();
    let cell = lin_index(LocalPos { x: 8, y: 8, z: 8 });
    grid[cell] = block::FURNACE;
    w.chunk_from_block_array(ChunkPos { x: 0, y: 0, z: 0 }, grid);
    let c = ChunkPos { x: 0, y: 0, z: 0 };
    assert_eq!(w.get_chunk(c).unwrap().metadata[cell], 0);
    w.interact_at_global_pos(8, 8, 8);
    assert_eq!(w.get_chunk(c).unwrap().metadata[cell], 1);
    w.interact_at_global_pos(8, 8, 8);
    assert_eq!(w.get_chunk(c).unwrap().metadata[cell], 0);
}

#[test]
fn interact_on_plain_blocks_keeps_metadata() {
    let mut w = World::new(0, 0, 5, 1);
    let mut grid = empty_grid();
    let cell = lin_index(LocalPos { x: 2, y: 2, z: 2 });
    grid[cell] = block::STONE;
    w.chunk_from_block_array(ChunkPos { x: 0, y: 0, z: 0 }, grid);
    w.interact_at_global_pos(2, 2, 2);
    let c = ChunkPos { x: 0, y: 0, z: 0 };
    assert_eq!(w.get_chunk(c).unwrap().metadata[cell], 0);
    assert_eq!(w.block_at_global_pos(2, 2, 2), block::STONE);
}

#[test]
fn lone_cube_emits_six_faces() {
    let mut w = World::new(0, 0, 5, 1);
    let mut grid = empty_grid();
    grid[lin_index(LocalPos { x: 8, y: 8, z: 8 })] = block::STONE;
    w.chunk_from_block_array(ChunkPos { x: 0, y: 0, z: 0 }, grid);
    let n = mesh_face_count(&w, ChunkPos { x: 0, y: 0, z: 0 });
    assert_eq!(n, 6);
    assert_eq!(n * 6, 36);
}

#[test]
fn touching_cubes_cull_their_shared_faces() {
    let mut w = World::new(0, 0, 5, 1);
    let mut grid = empty_grid();
    grid[lin_index(LocalPos { x: 8, y: 8, z: 8 })] = block::STONE;
    grid[lin_index(LocalPos { x: 9, y: 8, z: 8 })] = block::STONE;
    w.chunk_from_block_array(ChunkPos { x: 0, y: 0, z: 0 }, grid);
    assert_eq!(mesh_face_count(&w, ChunkPos { x: 0, y: 0, z: 0 }), 10);
}

#[test]
fn crossed_plants_always_emit_four_planes() {
    let mut w = World::new(0, 0, 5, 1);
    let mut grid = empty_grid();
    grid[lin_index(LocalPos { x: 8, y: 8, z: 8 })] = block::ROSE;
    w.chunk_from_block_array(ChunkPos { x: 0, y: 0, z: 0 }, grid);
    assert_eq!(mesh_face_count(&w, ChunkPos { x: 0, y: 0, z: 0 }), 4);
}

#[test]
fn tree_shape_trunk_canopy_and_skipped_corners() {
    let mut w = World::new(0, 0, 5, 1);
    w.chunk_from_block_array(ChunkPos { x: 0, y: 0, z: 0 }, empty_grid());
    w.place_tree(8, 2, 8);
    // trunk rises from the base; the canopy's center column overwrites its top
    assert_eq!(w.block_at_global_pos(8, 2, 8), block::LOG);
    assert_eq!(w.block_at_global_pos(8, 5, 8), block::LOG);
    assert_eq!(w.block_at_global_pos(8, 6, 8), block::LEAVES);
    assert_eq!(w.block_at_global_pos(8, 7, 8), block::LEAVES);
    // canopy ring
    assert_eq!(w.block_at_global_pos(7, 5, 8), block::LEAVES);
    assert_eq!(w.block_at_global_pos(9, 7, 8), block::LEAVES);
    // the four canopy corners of the top layer stay open
    assert_eq!(w.block_at_global_pos(7, 7, 7), 0);
    assert_eq!(w.block_at_global_pos(9, 7, 9), 0);
    // directly under the trunk nothing was written
    assert_eq!(w.block_at_global_pos(8, 1, 8), 0);
}

#[test]
fn tree_canopy_crosses_chunk_boundaries() {
    let mut w = World::new(0, 0, 5, 1);
    for (cx, cz) in [(0i64, 0i64), (-1, 0), (0, -1), (-1, -1)] {
        w.chunk_from_block_array(ChunkPos { x: cx, y: 0, z: cz }, empty_grid());
    }
    w.place_tree(0, 2, 0);
    assert_eq!(w.block_at_global_pos(0, 2, 0), block::LOG);
    assert_eq!(w.block_at_global_pos(-1, 5, 0), block::LEAVES);
    assert_eq!(w.block_at_global_pos(0, 5, -1), block::LEAVES);
    assert_eq!(w.block_at_global_pos(-1, 7, -1), 0);
}

#[test]
fn interior_mutation_keeps_neighbor_meshes() {
    let mut w = World::new(0, 0, 21, 1);
    let owner = ChunkPos { x: 0, y: 0, z: 0 };
    let neighbor = ChunkPos { x: -1, y: 0, z: 0 };
    w.chunk_from_block_array(owner, empty_grid());
    let mut ngrid = empty_grid();
    ngrid[lin_index(LocalPos { x: 8, y: 8, z: 8 })] = block::STONE;
    w.chunk_from_block_array(neighbor, ngrid);
    let before: Vec<voxelgame::meshgen::Face> =
        w.get_chunk(neighbor).unwrap().block_mesh.as_ref().unwrap().faces.clone();
    assert_eq!(before.len(), 6);
    // local index (8, 8, 8) touches no chunk boundary
    w.place_at_global_pos(8, 8, 8, block::STONE);
    let after = &w.get_chunk(neighbor).unwrap().block_mesh.as_ref().unwrap().faces;
    assert_eq!(&before, after);
    assert!(w.get_chunk(owner).unwrap().block_mesh.is_some());
}

#[test]
fn boundary_mutation_refreshes_the_neighbor_mesh() {
    let mut w = World::new(0, 0, 21, 1);
    let owner = ChunkPos { x: 0, y: 0, z: 0 };
    let neighbor = ChunkPos { x: -1, y: 0, z: 0 };
    w.chunk_from_block_array(owner, empty_grid());
    w.chunk_from_block_array(neighbor, empty_grid());
    // a lone cube on the neighbor's boundary toward the owner: six faces
    w.place_at_global_pos(-1, 8, 8, block::STONE);
    assert_eq!(mesh_face_count(&w, neighbor), 6);
    // placing on the owner's x == 0 boundary occludes the shared face
    w.place_at_global_pos(0, 8, 8, block::STONE);
    assert_eq!(mesh_face_count(&w, neighbor), 5);
}
