//! Unit tests for the block registry, coordinate math, the settle pass and
//! the inventory.

use voxelgame::block;
use voxelgame::chunk::{empty_grid, Chunk};
use voxelgame::coords::{chunk_and_block_index, floor_div, lin_index, LocalPos};
use voxelgame::inventory::Inventory;

#[test]
fn registry_air_is_transparent_not_solid() {
    assert!(block::is_transparent(block::AIR));
    assert!(!block::is_solid(block::AIR));
}

#[test]
fn registry_vegetation_is_crossed_and_attached() {
    for id in [block::ROSE, block::DANDELION, block::TALL_GRASS, block::FERN] {
        assert!(block::is_transparent(id));
        assert!(!block::is_solid(id));
        assert!(block::requires_support(id));
        assert!(matches!(block::mesh_kind(id), block::MeshKind::CrossedPlanes));
        assert_eq!(block::block_kind(id), 1);
    }
}

#[test]
fn registry_stone_occludes() {
    assert!(block::is_solid(block::STONE));
    assert!(!block::is_transparent(block::STONE));
    assert!(matches!(block::mesh_kind(block::STONE), block::MeshKind::Block));
    assert_eq!(block::block_kind(block::STONE), 0);
}

#[test]
fn registry_ground_supports_foliage() {
    assert!(block::supports_foliage(block::GRASS));
    assert!(block::supports_foliage(block::DIRT));
    assert!(!block::supports_foliage(block::STONE));
}

#[test]
fn registry_grass_tiles_differ_by_face() {
    let top = block::tile_for(block::GRASS, 2, false);
    let bottom = block::tile_for(block::GRASS, 3, false);
    let side = block::tile_for(block::GRASS, 0, false);
    assert_eq!(top, (0, 0));
    assert_eq!(bottom, (2, 0));
    assert_eq!(side, (3, 0));
}

#[test]
fn registry_furnace_front_follows_activation() {
    let inactive = block::tile_for(block::FURNACE, 5, false);
    let active = block::tile_for(block::FURNACE, 5, true);
    assert_ne!(inactive, active);
    // other faces ignore the flag
    assert_eq!(block::tile_for(block::FURNACE, 0, false), block::tile_for(block::FURNACE, 0, true));
}

#[test]
fn registry_names() {
    assert_eq!(block::block_name(block::AIR), "Air");
    assert_eq!(block::block_name(block::GRASS), "Grass");
    assert_eq!(block::block_name(block::FURNACE), "Furnace");
}

#[test]
fn floor_div_matches_mathematical_floor() {
    assert_eq!(floor_div(7, 2), 3);
    assert_eq!(floor_div(-7, 2), -4);
    assert_eq!(floor_div(-16, 16), -1);
    assert_eq!(floor_div(-17, 16), -2);
    assert_eq!(floor_div(0, 50), 0);
}

#[test]
fn chunk_index_uses_floor_semantics_on_negatives() {
    let (c, l) = chunk_and_block_index(-1, -16, 31);
    assert_eq!((c.x, c.y, c.z), (-1, -1, 1));
    assert_eq!((l.x, l.y, l.z), (15, 0, 15));

    let (c2, l2) = chunk_and_block_index(0, 15, 16);
    assert_eq!((c2.x, c2.y, c2.z), (0, 0, 1));
    assert_eq!((l2.x, l2.y, l2.z), (0, 15, 0));
}

#[test]
fn settle_clears_unsupported_plants_and_keeps_supported() {
    let mut blocks = empty_grid();
    // a dirt block with tall grass on it, and a floating fern one column over
    let base = lin_index(LocalPos { x: 8, y: 8, z: 8 });
    let plant = lin_index(LocalPos { x: 8, y: 9, z: 8 });
    let floater = lin_index(LocalPos { x: 9, y: 9, z: 8 });
    blocks[base] = block::DIRT;
    blocks[plant] = block::TALL_GRASS;
    blocks[floater] = block::FERN;
    let mut chunk = Chunk::from_blocks(blocks, 0, 0, 0);
    chunk.update();
    assert_eq!(chunk.blocks[base], block::DIRT);
    assert_eq!(chunk.blocks[plant], block::TALL_GRASS);
    assert_eq!(chunk.blocks[floater], 0);
}

#[test]
fn settle_cascade_stops_at_missing_ground() {
    let mut blocks = empty_grid();
    // a plant directly above another plant has no ground and is cleared too
    let lower = lin_index(LocalPos { x: 4, y: 5, z: 4 });
    let upper = lin_index(LocalPos { x: 4, y: 6, z: 4 });
    blocks[lower] = block::ROSE;
    blocks[upper] = block::DANDELION;
    let mut chunk = Chunk::from_blocks(blocks, 0, 0, 0);
    chunk.update();
    assert_eq!(chunk.blocks[lower], 0);
    assert_eq!(chunk.blocks[upper], 0);
}

#[test]
fn inventory_stacks_and_fills_slots_in_order() {
    let mut inv = Inventory::new();
    inv.add_to_inventory(3);
    inv.add_to_inventory(3);
    inv.add_to_inventory(5);
    assert_eq!(inv.items[0], Some((3, 2)));
    assert_eq!(inv.items[1], Some((5, 1)));
    assert_eq!(inv.items[2], None);
}

#[test]
fn inventory_consume_empties_slot_at_one() {
    let mut inv = Inventory::new();
    inv.add_to_inventory(7);
    inv.add_to_inventory(7);
    assert_eq!(inv.consume_currently_selected(), Some(7));
    assert_eq!(inv.items[0], Some((7, 1)));
    assert_eq!(inv.consume_currently_selected(), Some(7));
    assert_eq!(inv.items[0], None);
    assert_eq!(inv.consume_currently_selected(), None);
}

#[test]
fn inventory_fill_index_counts_occupied_slots() {
    // after consuming slot 0, the occupied count points at slot 1, which a
    // fresh stack then overwrites: the slot scan counts, it does not search
    // for the first hole
    let mut inv = Inventory::new();
    inv.add_to_inventory(1);
    inv.add_to_inventory(2);
    assert_eq!(inv.consume_currently_selected(), Some(1));
    assert_eq!(inv.items[0], None);
    inv.add_to_inventory(4);
    assert_eq!(inv.items[0], None);
    assert_eq!(inv.items[1], Some((4, 1)));
}

#[test]
fn inventory_full_drops_new_ids() {
    let mut inv = Inventory::new();
    for id in 1..=9usize {
        inv.add_to_inventory(id);
    }
    inv.add_to_inventory(42);
    for (i, slot) in inv.items.iter().enumerate() {
        assert_eq!(*slot, Some((i + 1, 1)));
    }
}
