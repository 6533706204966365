use termcraft::world::block::BlockType;
use termcraft::world::chunk::{Chunk, CHUNK_HEIGHT, CHUNK_WIDTH};
use termcraft::world::rules::BiomeType;
use termcraft::world::vegetation::plant_overworld_vegetation;

const GROUND_Y: usize = 60;

fn ground_chunk(ground: BlockType) -> Chunk {
    let mut chunk = Chunk::new(0, "vegetation");
    for x in 0..CHUNK_WIDTH {
        chunk.set_block(x, GROUND_Y, ground);
    }
    chunk
}

fn grow(chunk: &mut Chunk, biome: BiomeType, water_edge: bool) {
    plant_overworld_vegetation(
        chunk,
        0,
        &[biome; 36],
        &[GROUND_Y as i32; 36],
        &[false; 36],
        &[water_edge; 36],
    );
}

#[test]
fn plains_grow_a_tree_and_flowers_by_column_roll() {
    let mut chunk = ground_chunk(BlockType::Grass);
    grow(&mut chunk, BiomeType::Plains, false);
    // Column 10 rolls 1: a four-high oak with its crown from its top down.
    for y in 56..=59 {
        assert_eq!(chunk.get_block(10, y), BlockType::Wood);
    }
    assert_eq!(chunk.get_block(9, 54), BlockType::Leaves);
    assert_eq!(chunk.get_block(12, 55), BlockType::Leaves);
    assert_eq!(chunk.get_block(13, 55), BlockType::Air);
    assert_eq!(chunk.get_block(10, 53), BlockType::Air);
    // Columns 3, 18 and 4 roll 10, 5 and 23.
    assert_eq!(chunk.get_block(3, 59), BlockType::TallGrass);
    assert_eq!(chunk.get_block(18, 59), BlockType::YellowFlower);
    assert_eq!(chunk.get_block(4, 59), BlockType::Air);
}

#[test]
fn deserts_grow_cactus_and_dead_bushes() {
    let mut chunk = ground_chunk(BlockType::Sand);
    grow(&mut chunk, BiomeType::Desert, false);
    for y in 57..=59 {
        assert_eq!(chunk.get_block(10, y), BlockType::Cactus);
    }
    assert_eq!(chunk.get_block(10, 56), BlockType::Air);
    assert_eq!(chunk.get_block(18, 59), BlockType::DeadBush);
    assert_eq!(chunk.get_block(3, 59), BlockType::Air);
}

#[test]
fn sugar_cane_grows_beside_water() {
    let mut chunk = ground_chunk(BlockType::Grass);
    grow(&mut chunk, BiomeType::River, true);
    assert_eq!(chunk.get_block(3, 59), BlockType::SugarCane);
    assert_eq!(chunk.get_block(3, 58), BlockType::SugarCane);
    assert_eq!(chunk.get_block(3, 57), BlockType::Air);
    for y in 57..=59 {
        assert_eq!(chunk.get_block(4, y), BlockType::SugarCane);
    }
    assert_eq!(chunk.get_block(12, 59), BlockType::Air);
}

#[test]
fn snowy_ground_under_a_tree_turns_to_dirt() {
    let mut chunk = ground_chunk(BlockType::Snow);
    grow(&mut chunk, BiomeType::Tundra, false);
    assert_eq!(chunk.get_block(10, GROUND_Y), BlockType::Dirt);
    assert_eq!(chunk.get_block(10, 59), BlockType::BirchWood);
    assert_eq!(chunk.get_block(11, 55), BlockType::BirchLeaves);
    assert_eq!(chunk.get_block(9, GROUND_Y), BlockType::Snow);
}

#[test]
fn nothing_grows_in_the_ocean() {
    let mut chunk = ground_chunk(BlockType::Sand);
    grow(&mut chunk, BiomeType::Ocean, true);
    let fresh = ground_chunk(BlockType::Sand);
    for y in 0..CHUNK_HEIGHT {
        for x in 0..CHUNK_WIDTH {
            assert_eq!(chunk.get_block(x, y), fresh.get_block(x, y));
        }
    }
}
