use termcraft::world::block::BlockType;
use termcraft::world::cave_dressing::{dress_overworld_caves, refine_overworld_exposed_ores, CHUNK_CELLS};
use termcraft::world::chunk::{Chunk, CHUNK_HEIGHT, CHUNK_WIDTH};

/// Solid stone with a tunnel three rows high (rows 38 to 40) from column 3
/// to column 28.
fn tunnel_chunk() -> Chunk {
    let mut chunk = Chunk::new(0, "cave_dressing");
    for y in 0..CHUNK_HEIGHT {
        for x in 0..CHUNK_WIDTH {
            let in_tunnel = (38..=40).contains(&y) && (3..=28).contains(&x);
            chunk.set_block(x, y, if in_tunnel { BlockType::Air } else { BlockType::Stone });
        }
    }
    chunk
}

fn cell(x: usize, y: usize) -> usize {
    y * CHUNK_WIDTH + x
}

#[test]
fn cave_floors_take_their_planned_dressing() {
    let mut chunk = tunnel_chunk();
    let mut surface = [10; 32];
    surface[5] = 35;
    let mut floor_plan = vec![None; CHUNK_CELLS];
    floor_plan[cell(10, 40)] = Some(BlockType::Gravel);
    floor_plan[cell(11, 40)] = Some(BlockType::Dirt);
    floor_plan[cell(11, 39)] = Some(BlockType::Dirt);
    floor_plan[cell(5, 40)] = Some(BlockType::Dirt);
    dress_overworld_caves(&mut chunk, &surface, &[false; 32], &floor_plan, &vec![false; CHUNK_CELLS]);
    assert_eq!(chunk.get_block(10, 41), BlockType::Gravel);
    assert_eq!(chunk.get_block(11, 41), BlockType::Dirt);
    // Air over air has no floor; a cave too near the surface keeps its floor.
    assert_eq!(chunk.get_block(11, 40), BlockType::Air);
    assert_eq!(chunk.get_block(5, 41), BlockType::Stone);
    assert_eq!(chunk.get_block(12, 41), BlockType::Stone);
}

#[test]
fn cave_pools_fill_three_cells_with_water_or_deep_lava() {
    let mut chunk = tunnel_chunk();
    let mut surface = [10; 32];
    surface[20] = -20;
    let mut water = [false; 32];
    water[25] = true;
    let mut gates = vec![false; CHUNK_CELLS];
    gates[cell(15, 40)] = true;
    gates[cell(20, 40)] = true;
    gates[cell(3, 40)] = true;
    gates[cell(25, 40)] = true;
    dress_overworld_caves(&mut chunk, &surface, &water, &vec![None; CHUNK_CELLS], &gates);
    for x in 14..=16 {
        assert_eq!(chunk.get_block(x, 40), BlockType::Water(8));
    }
    for x in 19..=21 {
        assert_eq!(chunk.get_block(x, 40), BlockType::Lava(8));
    }
    assert_eq!(chunk.get_block(13, 40), BlockType::Air);
    assert_eq!(chunk.get_block(17, 40), BlockType::Air);
    assert_eq!(chunk.get_block(15, 39), BlockType::Air);
    // Too near the chunk's edge, or under surface water: no pool.
    assert_eq!(chunk.get_block(4, 40), BlockType::Air);
    assert_eq!(chunk.get_block(25, 40), BlockType::Air);
}

#[test]
fn overlapping_pools_take_the_leftmost_fluid() {
    let mut chunk = tunnel_chunk();
    let mut surface = [10; 32];
    surface[16] = -20;
    let mut gates = vec![false; CHUNK_CELLS];
    gates[cell(15, 40)] = true;
    gates[cell(16, 40)] = true;
    dress_overworld_caves(&mut chunk, &surface, &[false; 32], &vec![None; CHUNK_CELLS], &gates);
    assert_eq!(chunk.get_block(14, 40), BlockType::Water(8));
    assert_eq!(chunk.get_block(16, 40), BlockType::Water(8));
    assert_eq!(chunk.get_block(17, 40), BlockType::Lava(8));
}

#[test]
fn only_stone_beside_cave_air_shows_ore() {
    let mut chunk = tunnel_chunk();
    let mut surface = [10; 32];
    surface[12] = 40;
    let mut water = [false; 32];
    water[14] = true;
    let mut plan = vec![None; CHUNK_CELLS];
    for x in 0..CHUNK_WIDTH {
        for y in 30..50 {
            plan[cell(x, y)] = Some(BlockType::CoalOre);
        }
    }
    plan[cell(11, 41)] = Some(BlockType::IronOre);
    plan[cell(13, 41)] = None;
    refine_overworld_exposed_ores(&mut chunk, &surface, &water, &plan);
    assert_eq!(chunk.get_block(10, 41), BlockType::CoalOre);
    assert_eq!(chunk.get_block(11, 41), BlockType::IronOre);
    assert_eq!(chunk.get_block(2, 40), BlockType::CoalOre);
    // Above row 40, not beside air, too near the surface, under water, or
    // with no ore planned: stone stays.
    assert_eq!(chunk.get_block(10, 37), BlockType::Stone);
    assert_eq!(chunk.get_block(10, 45), BlockType::Stone);
    assert_eq!(chunk.get_block(12, 41), BlockType::Stone);
    assert_eq!(chunk.get_block(14, 41), BlockType::Stone);
    assert_eq!(chunk.get_block(13, 41), BlockType::Stone);
    assert_eq!(chunk.get_block(10, 40), BlockType::Air);
}
