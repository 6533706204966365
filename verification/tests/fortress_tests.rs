use termcraft::world::block::BlockType;
use termcraft::world::chunk::{Chunk, CHUNK_HEIGHT, CHUNK_WIDTH};
use termcraft::world::fortress::{
    build_nether_fortress, nether_fortress_layout, NetherFortressLayout,
    NETHER_FORTRESS_BASTION_OFFSET_BLOCKS, NETHER_FORTRESS_GATE_OFFSET_BLOCKS,
    NETHER_FORTRESS_REGION_CHUNKS, NETHER_FORTRESS_WATCHTOWER_INSET_BLOCKS,
};
use termcraft::world::item::ItemType;
use termcraft::world::rules::{BiomeType, Dimension};
use termcraft::world::World;

/// The fortress of region 0 used by these tests.
fn test_layout() -> NetherFortressLayout {
    nether_fortress_layout(0, 9, 7)
}

/// A netherrack chunk of column `chunk_x` with the fortress built into it.
fn fortress_chunk(chunk_x: i32, layout: NetherFortressLayout) -> Chunk {
    let mut chunk = Chunk::new(chunk_x, "nether");
    for x in 0..CHUNK_WIDTH {
        for y in 0..CHUNK_HEIGHT {
            chunk.set_block(x, y, BlockType::Netherrack);
        }
    }
    build_nether_fortress(&mut chunk, chunk_x, layout);
    chunk
}

/// The nether with every chunk of region 0 built and loaded.
fn fortress_world(layout: NetherFortressLayout) -> World {
    let mut world = World::new_for_dimension(Dimension::Nether);
    for chunk_x in 0..NETHER_FORTRESS_REGION_CHUNKS {
        assert!(world.insert_loaded_chunk(
            fortress_chunk(chunk_x, layout),
            vec![BiomeType::Plains; CHUNK_WIDTH],
            true,
            true,
        ));
    }
    world
}

#[test]
fn test_nether_generation_builds_fortress_blocks_and_wart_chest() {
    let layout = test_layout();
    let world = fortress_world(layout);

    let mut fortress_left = None;
    let mut fortress_right = None;
    for x in 0..(NETHER_FORTRESS_REGION_CHUNKS * CHUNK_WIDTH as i32) {
        let mut in_zone = false;
        for y in 16..96 {
            if world.is_nether_fortress_zone(x, y, layout) {
                in_zone = true;
                break;
            }
        }
        if in_zone {
            fortress_left.get_or_insert(x);
            fortress_right = Some(x);
        }
    }

    let fortress_left = fortress_left.expect("nether fortress zone should exist");
    let fortress_right = fortress_right.expect("nether fortress zone should exist");

    let mut found_fortress_block = false;
    let mut found_wart_chest = false;
    let mut found_blaze_spawner = false;
    for x in fortress_left..=fortress_right {
        for y in 8..112 {
            match world.get_block(x, y) {
                BlockType::StoneBricks | BlockType::StoneSlab | BlockType::StoneStairs => {
                    found_fortress_block = true;
                }
                BlockType::Chest => {
                    if world
                        .chest_inventory(x, y)
                        .is_some_and(|inv| inv.has_item(ItemType::NetherWart, 1))
                    {
                        found_wart_chest = true;
                    }
                }
                BlockType::BlazeSpawner => found_blaze_spawner = true,
                _ => {}
            }
            if found_fortress_block && found_wart_chest && found_blaze_spawner {
                break;
            }
        }
        if found_fortress_block && found_wart_chest && found_blaze_spawner {
            break;
        }
    }

    assert!(found_fortress_block);
    assert!(found_wart_chest);
    assert!(found_blaze_spawner);
}

#[test]
fn test_nether_fortress_chests_do_not_block_main_corridor() {
    let layout = test_layout();
    let world = fortress_world(layout);

    for chest_x in [layout.chest_left_x, layout.chest_right_x] {
        assert_eq!(world.get_block(chest_x, layout.base_y), BlockType::StoneBricks);
        assert_eq!(world.get_block(chest_x, layout.base_y - 3), BlockType::Chest);
        assert_eq!(world.get_block(chest_x, layout.base_y - 1), BlockType::Air);
        assert_eq!(world.get_block(chest_x, layout.base_y - 2), BlockType::Air);
    }
}

#[test]
fn test_nether_fortress_bastion_spawners_are_raised_off_the_main_lane() {
    let layout = test_layout();
    let world = fortress_world(layout);

    for spawner_x in [
        layout.center_x - NETHER_FORTRESS_BASTION_OFFSET_BLOCKS,
        layout.center_x + NETHER_FORTRESS_BASTION_OFFSET_BLOCKS,
    ] {
        assert_eq!(world.get_block(spawner_x, layout.base_y - 4), BlockType::BlazeSpawner);
        assert_eq!(world.get_block(spawner_x, layout.base_y - 1), BlockType::Air);
        assert_eq!(world.get_block(spawner_x - 2, layout.base_y - 3), BlockType::StoneSlab);
        assert_eq!(world.get_block(spawner_x + 2, layout.base_y - 3), BlockType::StoneSlab);
    }
}

#[test]
fn test_nether_fortress_gatehouses_place_glowstone_landmarks() {
    let layout = test_layout();
    let world = fortress_world(layout);

    for gate_x in [
        layout.center_x - NETHER_FORTRESS_GATE_OFFSET_BLOCKS,
        layout.center_x,
        layout.center_x + NETHER_FORTRESS_GATE_OFFSET_BLOCKS,
    ] {
        let mut found_glowstone = false;
        for x in (gate_x - 2)..=(gate_x + 2) {
            for y in (layout.roof_y - 7)..=(layout.roof_y - 2) {
                if world.get_block(x, y) == BlockType::Glowstone {
                    found_glowstone = true;
                    break;
                }
            }
            if found_glowstone {
                break;
            }
        }
        assert!(found_glowstone, "expected glowstone landmark near gate {gate_x}");
    }
}

#[test]
fn test_nether_fortress_gatehouses_place_lava_braziers_off_the_main_lane() {
    let layout = test_layout();
    let world = fortress_world(layout);

    let mut brazier_pairs = 0usize;
    for (gate_x, gate_half_width) in [
        (layout.center_x - NETHER_FORTRESS_GATE_OFFSET_BLOCKS, 6),
        (layout.center_x, 8),
        (layout.center_x + NETHER_FORTRESS_GATE_OFFSET_BLOCKS, 6),
    ] {
        if world.get_block(gate_x - gate_half_width + 2, layout.base_y + 1) == BlockType::Lava(8)
            && world.get_block(gate_x + gate_half_width - 2, layout.base_y + 1) == BlockType::Lava(8)
        {
            brazier_pairs += 1;
        }
        assert_eq!(world.get_block(gate_x, layout.base_y - 1), BlockType::Air);
    }

    assert!(brazier_pairs >= 1, "expected at least one lava brazier pair");
}

#[test]
fn fortress_leaves_far_chunks_and_rows_outside_it_alone() {
    let layout = test_layout();
    let far = fortress_chunk(60, layout);
    for x in 0..CHUNK_WIDTH {
        for y in 0..CHUNK_HEIGHT {
            assert_eq!(far.get_block(x, y), BlockType::Netherrack);
        }
    }
    let near = fortress_chunk(layout.center_x / CHUNK_WIDTH as i32, layout);
    for x in 0..CHUNK_WIDTH {
        for y in (0..(layout.roof_y - 10) as usize).chain((layout.base_y + 15) as usize..CHUNK_HEIGHT) {
            assert_eq!(near.get_block(x, y), BlockType::Netherrack);
        }
    }
    // The main hall is open between roof and floor at the centre.
    let lx = (layout.center_x - (layout.center_x / CHUNK_WIDTH as i32) * CHUNK_WIDTH as i32) as usize;
    assert_eq!(near.get_block(lx, (layout.roof_y + 1) as usize), BlockType::Air);
}

#[test]
fn test_nether_fortress_watchtowers_add_edge_crowns() {
    let layout = test_layout();
    let world = fortress_world(layout);

    let glow_y = (layout.roof_y - 8).max(3);
    let roof_y = (layout.roof_y - 10).max(3);
    for tower_x in [
        layout.left_x + NETHER_FORTRESS_WATCHTOWER_INSET_BLOCKS,
        layout.right_x - NETHER_FORTRESS_WATCHTOWER_INSET_BLOCKS,
    ] {
        assert_eq!(world.get_block(tower_x - 1, glow_y), BlockType::Glowstone);
        assert_eq!(world.get_block(tower_x + 1, glow_y), BlockType::Glowstone);
        assert_eq!(world.get_block(tower_x, roof_y), BlockType::StoneSlab);
    }
}

#[test]
fn central_gatehouse_glows_and_watchtowers_wear_crowns() {
    let layout = test_layout();
    let world = fortress_world(layout);
    let c = layout.center_x;
    assert_eq!(world.get_block(c - 2, layout.roof_y - 5), BlockType::Glowstone);
    assert_eq!(world.get_block(c + 2, layout.roof_y - 5), BlockType::Glowstone);
    assert_eq!(world.get_block(c, layout.roof_y - 4), BlockType::Glowstone);
    for wx in [c - 79, c - 77, c + 77, c + 79] {
        assert_eq!(world.get_block(wx, layout.roof_y - 8), BlockType::Glowstone);
    }
    for wx in [c - 38, c + 38] {
        assert_eq!(world.get_block(wx, layout.base_y - 4), BlockType::BlazeSpawner);
    }
    // The central gatehouse's braziers hold lava under their lips.
    assert_eq!(world.get_block(c - 6, layout.base_y + 1), BlockType::Lava(8));
    assert_eq!(world.get_block(c + 6, layout.base_y + 1), BlockType::Lava(8));
}

#[test]
fn fortress_plain_hall_column_has_roof_air_floor_and_pillar() {
    let layout = test_layout();
    // Twenty-two columns east of the centre: plain hall, and a pillar column.
    let wx = layout.center_x + 22;
    let chunk_x = wx.div_euclid(CHUNK_WIDTH as i32);
    let chunk = fortress_chunk(chunk_x, layout);
    let x = (wx - chunk_x * CHUNK_WIDTH as i32) as usize;
    assert_eq!(chunk.get_block(x, layout.roof_y as usize), BlockType::StoneBricks);
    for y in (layout.roof_y + 1)..layout.base_y {
        assert_eq!(chunk.get_block(x, y as usize), BlockType::Air);
    }
    assert_ne!(chunk.get_block(x, layout.base_y as usize), BlockType::Netherrack);
    for y in (layout.base_y + 1)..=(layout.base_y + 14) {
        assert_eq!(chunk.get_block(x, y as usize), BlockType::StoneBricks);
    }
    assert_eq!(chunk.get_block(x, (layout.base_y + 15) as usize), BlockType::Netherrack);
}
