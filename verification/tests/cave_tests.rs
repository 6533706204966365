use termcraft::world::block::BlockType;
use termcraft::world::caves::refine_overworld_cave_pacing;
use termcraft::world::chunk::{Chunk, CHUNK_HEIGHT, CHUNK_WIDTH};

fn solid_test_chunk(save_key: &str) -> Chunk {
    let mut chunk = Chunk::new(0, save_key);
    for x in 0..CHUNK_WIDTH {
        for y in 0..CHUNK_HEIGHT {
            chunk.set_block(x, y, BlockType::Stone);
        }
    }
    chunk
}

fn flat_cave_surface_profile(surface_y: i32) -> ([i32; CHUNK_WIDTH], [bool; CHUNK_WIDTH]) {
    ([surface_y; CHUNK_WIDTH], [false; CHUNK_WIDTH])
}

#[test]
fn test_overworld_cave_pacing_trims_short_dead_end_stubs() {
    let mut chunk = solid_test_chunk("test_overworld_cave_pacing_trims_short_dead_end_stubs");
    let (surface_y_by_x, surface_water_by_x) = flat_cave_surface_profile(20);

    for x in 5..=8 {
        for y in 49..=50 {
            chunk.set_block(x, y, BlockType::Air);
        }
    }
    for x in 9..=10 {
        for y in 49..=50 {
            chunk.set_block(x, y, BlockType::Air);
        }
    }

    refine_overworld_cave_pacing(&mut chunk, &surface_y_by_x, &surface_water_by_x);

    assert_eq!(chunk.get_block(8, 50), BlockType::Air);
    assert_eq!(chunk.get_block(8, 49), BlockType::Air);
    assert_eq!(chunk.get_block(9, 50), BlockType::Stone);
    assert_eq!(chunk.get_block(9, 49), BlockType::Stone);
    assert_eq!(chunk.get_block(10, 50), BlockType::Stone);
    assert_eq!(chunk.get_block(10, 49), BlockType::Stone);
}

#[test]
fn test_overworld_cave_pacing_bridges_thin_walls() {
    let mut chunk = solid_test_chunk("test_overworld_cave_pacing_bridges_thin_walls");
    let (surface_y_by_x, surface_water_by_x) = flat_cave_surface_profile(20);

    for x in 4..=8 {
        for y in 48..=50 {
            chunk.set_block(x, y, BlockType::Air);
        }
    }
    for x in 12..=16 {
        for y in 48..=50 {
            chunk.set_block(x, y, BlockType::Air);
        }
    }

    refine_overworld_cave_pacing(&mut chunk, &surface_y_by_x, &surface_water_by_x);

    for x in 9..=11 {
        assert_eq!(chunk.get_block(x, 50), BlockType::Air);
        assert_eq!(chunk.get_block(x, 49), BlockType::Air);
    }
}

#[test]
fn test_overworld_cave_pacing_carves_stair_connectors() {
    let mut chunk = solid_test_chunk("test_overworld_cave_pacing_carves_stair_connectors");
    let (surface_y_by_x, surface_water_by_x) = flat_cave_surface_profile(20);

    for x in 4..=7 {
        for y in 38..=40 {
            chunk.set_block(x, y, BlockType::Air);
        }
    }
    for x in 11..=14 {
        for y in 42..=44 {
            chunk.set_block(x, y, BlockType::Air);
        }
    }

    refine_overworld_cave_pacing(&mut chunk, &surface_y_by_x, &surface_water_by_x);

    assert_eq!(chunk.get_block(8, 41), BlockType::Air);
    assert_eq!(chunk.get_block(8, 40), BlockType::Air);
    assert_eq!(chunk.get_block(9, 42), BlockType::Air);
    assert_eq!(chunk.get_block(9, 41), BlockType::Air);
    assert_eq!(chunk.get_block(10, 43), BlockType::Air);
    assert_eq!(chunk.get_block(10, 42), BlockType::Air);
}

#[test]
fn cave_pacing_leaves_water_and_the_surface_band_alone() {
    let mut chunk = solid_test_chunk("cave_pacing_leaves_water");
    let (surface_y_by_x, surface_water_by_x) = flat_cave_surface_profile(20);
    for x in 4..=8 {
        for y in 48..=50 {
            chunk.set_block(x, y, BlockType::Air);
        }
    }
    for x in 12..=16 {
        for y in 48..=50 {
            chunk.set_block(x, y, BlockType::Air);
        }
    }
    chunk.set_block(10, 49, BlockType::Water(8));
    // A pocket of air right under the surface is not part of the caves.
    chunk.set_block(3, 22, BlockType::Air);
    chunk.set_block(3, 23, BlockType::Air);

    refine_overworld_cave_pacing(&mut chunk, &surface_y_by_x, &surface_water_by_x);

    assert_eq!(chunk.get_block(10, 49), BlockType::Water(8));
    assert_eq!(chunk.get_block(10, 50), BlockType::Stone);
    assert_eq!(chunk.get_block(3, 22), BlockType::Air);
    assert_eq!(chunk.get_block(3, 23), BlockType::Air);
    assert_eq!(chunk.get_block(0, 50), BlockType::Stone);
}
