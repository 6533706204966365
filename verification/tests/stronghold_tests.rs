use termcraft::world::block::BlockType;
use termcraft::world::chunk::{Chunk, CHUNK_HEIGHT, CHUNK_WIDTH};
use termcraft::world::item::ItemType;
use termcraft::world::rules::BiomeType;
use termcraft::world::stronghold::{
    build_overworld_stronghold, STRONGHOLD_CENTER_X, STRONGHOLD_PORTAL_INNER_X,
    STRONGHOLD_PORTAL_INNER_Y, STRONGHOLD_ROOM_BOTTOM_Y, STRONGHOLD_ROOM_TOP_Y,
};
use termcraft::world::World;

/// A solid stone chunk of column `chunk_x` with the stronghold built into it.
fn stronghold_chunk(chunk_x: i32) -> Chunk {
    let mut chunk = Chunk::new(chunk_x, "overworld");
    for x in 0..CHUNK_WIDTH {
        for y in 0..CHUNK_HEIGHT {
            chunk.set_block(x, y, BlockType::Stone);
        }
    }
    build_overworld_stronghold(&mut chunk, chunk_x);
    chunk
}

/// The overworld with the stronghold's chunks (and one on either side)
/// built and loaded.
fn stronghold_world() -> World {
    let mut world = World::new();
    let first = (STRONGHOLD_CENTER_X - 64).div_euclid(CHUNK_WIDTH as i32);
    let last = (STRONGHOLD_CENTER_X + 64).div_euclid(CHUNK_WIDTH as i32);
    for chunk_x in first..=last {
        assert!(world.insert_loaded_chunk(
            stronghold_chunk(chunk_x),
            vec![BiomeType::Plains; CHUNK_WIDTH],
            true,
            true,
        ));
    }
    world
}

#[test]
fn test_overworld_generation_contains_stronghold_portal_frame() {
    let world = stronghold_world();

    let mut found_frame = false;
    for x in (STRONGHOLD_CENTER_X - 6)..=(STRONGHOLD_CENTER_X + 6) {
        for y in (STRONGHOLD_PORTAL_INNER_Y - 4)..=(STRONGHOLD_PORTAL_INNER_Y + 4) {
            if matches!(world.get_block(x, y), BlockType::EndPortalFrame { .. }) {
                found_frame = true;
                break;
            }
        }
        if found_frame {
            break;
        }
    }
    assert!(found_frame);
}

#[test]
fn test_overworld_generation_contains_stronghold_branch_doors_and_spawner() {
    let world = stronghold_world();

    let room_right = STRONGHOLD_CENTER_X + 18;
    let mut found_iron_door = false;
    let mut found_spawner = false;
    let mut found_east_branch_air = false;

    for x in (STRONGHOLD_CENTER_X - 64)..=(STRONGHOLD_CENTER_X + 64) {
        for y in (STRONGHOLD_ROOM_TOP_Y - 8)..=(STRONGHOLD_ROOM_BOTTOM_Y + 8) {
            match world.get_block(x, y) {
                BlockType::IronDoor(_) => found_iron_door = true,
                BlockType::SilverfishSpawner => found_spawner = true,
                BlockType::Air if x > room_right + 6 => found_east_branch_air = true,
                _ => {}
            }
            if found_iron_door && found_spawner && found_east_branch_air {
                break;
            }
        }
        if found_iron_door && found_spawner && found_east_branch_air {
            break;
        }
    }

    assert!(found_iron_door);
    assert!(found_spawner);
    assert!(found_east_branch_air);
}

#[test]
fn test_stronghold_generation_places_progression_chests() {
    let world = stronghold_world();

    let mut chest_count = 0usize;
    let mut found_utility_loot = false;
    let mut found_progression_loot = false;
    let mut found_pre_end_supplies = false;

    for x in (STRONGHOLD_CENTER_X - 64)..=(STRONGHOLD_CENTER_X + 64) {
        for y in (STRONGHOLD_ROOM_TOP_Y - 8)..=(STRONGHOLD_ROOM_BOTTOM_Y + 8) {
            if world.get_block(x, y) != BlockType::Chest {
                continue;
            }
            let Some(inv) = world.chest_inventory(x, y) else {
                continue;
            };
            chest_count += 1;
            if inv.has_item(ItemType::Torch, 1) || inv.has_item(ItemType::Bread, 1) {
                found_utility_loot = true;
            }
            if inv.has_item(ItemType::IronPickaxe, 1)
                || inv.has_item(ItemType::Bucket, 1)
                || inv.has_item(ItemType::RedstoneDust, 1)
            {
                found_progression_loot = true;
            }
            if inv.has_item(ItemType::Bow, 1)
                || inv.has_item(ItemType::Arrow, 6)
                || inv.has_item(ItemType::IronSword, 1)
            {
                found_pre_end_supplies = true;
            }
        }
    }

    assert!(chest_count >= 3);
    assert!(found_utility_loot);
    assert!(found_progression_loot);
    assert!(found_pre_end_supplies);
}

#[test]
fn test_stronghold_library_branch_has_shelves_and_ladder_shaft() {
    let world = stronghold_world();

    let room_left = STRONGHOLD_CENTER_X - 18;
    let library_room_left = room_left - 30;
    let library_room_right = room_left - 10;
    let library_room_top = (STRONGHOLD_ROOM_BOTTOM_Y - 1 - 5 - 3) - 5;
    let library_room_bottom = (STRONGHOLD_ROOM_BOTTOM_Y - 1 - 5) + 4;
    let library_shaft_x = room_left - 11;
    let mut found_planks = false;
    let mut found_ladder = false;

    for x in library_room_left..=library_room_right {
        for y in library_room_top..=library_room_bottom {
            match world.get_block(x, y) {
                BlockType::Planks => found_planks = true,
                BlockType::Ladder if x == library_shaft_x || x == library_room_left + 5 => {
                    found_ladder = true;
                }
                _ => {}
            }
        }
    }

    assert!(found_planks);
    assert!(found_ladder);
}

#[test]
fn test_stronghold_portal_dais_has_glow_markers() {
    let world = stronghold_world();

    let mut glow_count = 0;
    for x in (STRONGHOLD_PORTAL_INNER_X - 4)..=(STRONGHOLD_PORTAL_INNER_X + 5) {
        for y in (STRONGHOLD_PORTAL_INNER_Y - 3)..=(STRONGHOLD_PORTAL_INNER_Y + 4) {
            if world.get_block(x, y) == BlockType::Glowstone {
                glow_count += 1;
            }
        }
    }

    assert!(glow_count >= 2);
}

#[test]
fn stronghold_portal_frame_rings_an_empty_inside() {
    let world = stronghold_world();
    let ix = STRONGHOLD_PORTAL_INNER_X;
    let iy = STRONGHOLD_PORTAL_INNER_Y;
    for x in (ix - 1)..=(ix + 2) {
        for y in (iy - 1)..=(iy + 2) {
            let rim = x == ix - 1 || x == ix + 2 || y == iy - 1 || y == iy + 2;
            let expected = if rim {
                BlockType::EndPortalFrame { filled: false }
            } else {
                BlockType::Air
            };
            assert_eq!(world.get_block(x, y), expected);
        }
    }
}

#[test]
fn stronghold_leaves_far_chunks_and_rows_outside_it_alone() {
    let far = stronghold_chunk(0);
    for x in 0..CHUNK_WIDTH {
        for y in 0..CHUNK_HEIGHT {
            assert_eq!(far.get_block(x, y), BlockType::Stone);
        }
    }
    let near = stronghold_chunk(STRONGHOLD_CENTER_X / CHUNK_WIDTH as i32);
    for x in 0..CHUNK_WIDTH {
        for y in (0..66).chain(93..CHUNK_HEIGHT) {
            assert_eq!(near.get_block(x, y), BlockType::Stone);
        }
    }
}

#[test]
fn stronghold_library_has_shelves_loft_gap_and_ladder() {
    // World columns 576 to 607 hold the library's west half.
    let chunk = stronghold_chunk(18);
    // Shelf column 594, rows 80 to 86.
    for y in 80..=86 {
        assert_eq!(chunk.get_block(594 - 576, y), BlockType::Planks);
    }
    // The loft on row 84: a ladder at 597, planks at 598, the gap at 600.
    assert_eq!(chunk.get_block(597 - 576, 84), BlockType::Ladder);
    assert_eq!(chunk.get_block(598 - 576, 84), BlockType::Planks);
    assert_eq!(chunk.get_block(600 - 576, 84), BlockType::Air);
    // The library's west wall and the untouched rock beyond it.
    assert_eq!(chunk.get_block(592 - 576, 84), BlockType::StoneBricks);
    assert_eq!(chunk.get_block(591 - 576, 84), BlockType::Stone);
}
