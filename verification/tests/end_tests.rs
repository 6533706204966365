use termcraft::world::block::BlockType;
use termcraft::world::chunk::{Chunk, CHUNK_HEIGHT, CHUNK_WIDTH};
use termcraft::world::end::{build_end_structures, end_tower_column, END_TOWER_COUNT};
use termcraft::world::rules::{BiomeType, Dimension};
use termcraft::world::World;

/// An End chunk of column `chunk_x`: air over a bedrock floor, a flat
/// island of end stone (rows 36 to 45) within 44 columns of the centre,
/// and the towers and portal built on it.
fn end_chunk(chunk_x: i32) -> Chunk {
    let mut chunk = Chunk::new(chunk_x, "end");
    for x in 0..CHUNK_WIDTH {
        let world_x = chunk_x * CHUNK_WIDTH as i32 + x as i32;
        chunk.set_block(x, CHUNK_HEIGHT - 1, BlockType::Bedrock);
        if world_x.abs() <= 44 {
            for y in 36..=45 {
                chunk.set_block(x, y, BlockType::EndStone);
            }
        }
    }
    build_end_structures(&mut chunk, chunk_x);
    chunk
}

/// The End with the chunks of columns -3 to 2 built and loaded.
fn end_world() -> World {
    let mut world = World::new_for_dimension(Dimension::End);
    for chunk_x in -3..=2 {
        assert!(world.insert_loaded_chunk(end_chunk(chunk_x), vec![BiomeType::Plains; CHUNK_WIDTH], true, true));
    }
    world
}

#[test]
fn test_end_generation_contains_endstone_and_exit_portal() {
    let world = end_world();

    let mut found_endstone = false;
    let mut found_portal = false;
    for x in -48..=48 {
        for y in 20..80 {
            let block = world.get_block(x, y);
            if block == BlockType::EndStone {
                found_endstone = true;
            }
            if block == BlockType::EndPortal {
                found_portal = true;
            }
            if found_endstone && found_portal {
                break;
            }
        }
        if found_endstone && found_portal {
            break;
        }
    }
    assert!(found_endstone);
    assert!(found_portal);
}

#[test]
fn test_end_towers_have_player_passage_in_2d() {
    let world = end_world();

    for idx in 0..END_TOWER_COUNT {
        let tower_x = end_tower_column(idx);
        let mut passage_floor_y = None;
        for y in 4..(CHUNK_HEIGHT as i32 - 2) {
            let center_clear = (tower_x - 1..=tower_x + 1).all(|wx| {
                world.get_block(wx, y - 1) == BlockType::Air
                    && world.get_block(wx, y - 2) == BlockType::Air
            });
            let has_tower_shell = (tower_x - 2..=tower_x + 2).any(|wx| {
                world.get_block(wx, y) == BlockType::Obsidian
                    || world.get_block(wx, y - 1) == BlockType::Obsidian
                    || world.get_block(wx, y - 2) == BlockType::Obsidian
                    || world.get_block(wx, y - 3) == BlockType::Obsidian
            });
            if center_clear && has_tower_shell {
                passage_floor_y = Some(y);
            }
        }
        assert!(passage_floor_y.is_some());
    }
}

#[test]
fn end_tower_stands_on_the_island_with_a_glowing_top() {
    // Tower 2 stands at world column 14 (chunk 0, column 14) on row 36;
    // it rises 8 + (10 + 14) % 5 = 12 rows, to row 24, and its arch is on
    // row 32.
    let chunk = end_chunk(0);
    for y in 24..32 {
        assert_eq!(chunk.get_block(14, y), BlockType::Obsidian);
    }
    assert_eq!(chunk.get_block(14, 23), BlockType::Glowstone);
    for x in 12..=16 {
        assert_eq!(chunk.get_block(x, 32), BlockType::Obsidian);
    }
    for x in 13..=15 {
        for y in 33..36 {
            assert_eq!(chunk.get_block(x, y), BlockType::Air);
        }
    }
    assert_eq!(chunk.get_block(12, 34), BlockType::Glowstone);
    assert_eq!(chunk.get_block(16, 33), BlockType::Obsidian);
}

#[test]
fn end_return_portal_has_a_bedrock_frame_and_a_dais() {
    let chunk = end_chunk(-1);
    // World columns -2 to -1 are columns 30 and 31 of chunk -1.
    assert_eq!(chunk.get_block(30, 32), BlockType::Bedrock);
    assert_eq!(chunk.get_block(31, 32), BlockType::EndPortal);
    assert_eq!(chunk.get_block(31, 31), BlockType::Bedrock);
    let chunk = end_chunk(0);
    assert_eq!(chunk.get_block(0, 33), BlockType::EndPortal);
    assert_eq!(chunk.get_block(1, 33), BlockType::Bedrock);
    // The dais row (35) lies over the island's air gap only where it is air.
    assert_eq!(chunk.get_block(3, 35), BlockType::Obsidian);
    assert_eq!(chunk.get_block(6, 35), BlockType::Air);
}
