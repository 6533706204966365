use termcraft::world::block::BlockType;
use termcraft::world::chunk::{Chunk, CHUNK_HEIGHT, CHUNK_WIDTH};
use termcraft::world::fortress::nether_fortress_layout;
use termcraft::world::nether::{
    add_nether_hanging_formations, add_nether_lava_vents, add_nether_perch_shelves,
    add_nether_route_landmarks, place_nether_glowstone_clusters, settle_nether_cavern_rows, HangingFormationRoll, LavaVentRoll,
    PerchShelfRoll, RouteLandmarkRoll,
};
use termcraft::world::structures::carve_nether_route_landmark;

const CEILING_Y: i32 = 20;
const FLOOR_Y: i32 = 60;

/// A nether chunk of column `chunk_x`: netherrack with an open cavern
/// between the ceiling row 20 and the floor row 60.
fn cavern_chunk(chunk_x: i32) -> Chunk {
    let mut chunk = Chunk::new(chunk_x, "nether");
    for y in 0..CHUNK_HEIGHT {
        for x in 0..CHUNK_WIDTH {
            let open = (y as i32) > CEILING_Y && (y as i32) < FLOOR_Y;
            chunk.set_block(x, y, if open { BlockType::Air } else { BlockType::Netherrack });
        }
    }
    chunk
}

fn same_blocks(a: &Chunk, b: &Chunk) -> bool {
    (0..CHUNK_HEIGHT).all(|y| (0..CHUNK_WIDTH).all(|x| a.get_block(x, y) == b.get_block(x, y)))
}

#[test]
fn glowstone_clusters_follow_the_column_roll() {
    let mut chunk = Chunk::new(0, "nether");
    for y in 0..CHUNK_HEIGHT {
        for x in 0..CHUNK_WIDTH {
            chunk.set_block(x, y, BlockType::Netherrack);
        }
    }
    place_nether_glowstone_clusters(&mut chunk, 0);
    // Columns 7, 24 and 30 of chunk 0 roll 4, 6 and 1: their anchors sit
    // on rows 20, 26 and 21.
    assert_eq!(chunk.get_block(7, 20), BlockType::Glowstone);
    assert_eq!(chunk.get_block(24, 26), BlockType::Glowstone);
    assert_eq!(chunk.get_block(30, 21), BlockType::Glowstone);
    // An even roll lights no neighbour; an odd one lights all four.
    assert_eq!(chunk.get_block(6, 20), BlockType::Netherrack);
    assert_eq!(chunk.get_block(7, 21), BlockType::Netherrack);
    assert_eq!(chunk.get_block(29, 21), BlockType::Glowstone);
    assert_eq!(chunk.get_block(31, 21), BlockType::Glowstone);
    assert_eq!(chunk.get_block(30, 20), BlockType::Glowstone);
    assert_eq!(chunk.get_block(30, 22), BlockType::Glowstone);
    let glowing = (0..CHUNK_HEIGHT)
        .flat_map(|y| (0..CHUNK_WIDTH).map(move |x| (x, y)))
        .filter(|&(x, y)| chunk.get_block(x, y) == BlockType::Glowstone)
        .count();
    assert_eq!(glowing, 7);
}

#[test]
fn hanging_formations_hang_from_the_ceiling() {
    let layout = nether_fortress_layout(0, 0, 0);
    let mut chunk = cavern_chunk(0);
    let mut rolls = [None; CHUNK_WIDTH];
    rolls[10] = Some(HangingFormationRoll { length: 5, wide: true, glowing: true });
    rolls[20] = Some(HangingFormationRoll { length: 50, wide: false, glowing: false });
    rolls[1] = Some(HangingFormationRoll { length: 5, wide: false, glowing: false });
    add_nether_hanging_formations(&mut chunk, 0, &rolls, &[CEILING_Y; 32], &[FLOOR_Y; 32], &layout);
    for y in 21..25 {
        assert_eq!(chunk.get_block(10, y), BlockType::Netherrack);
        assert_eq!(chunk.get_block(9, y), BlockType::Netherrack);
        assert_eq!(chunk.get_block(11, y), BlockType::Netherrack);
    }
    assert_eq!(chunk.get_block(10, 25), BlockType::Glowstone);
    assert_eq!(chunk.get_block(9, 25), BlockType::Air);
    assert_eq!(chunk.get_block(10, 26), BlockType::Air);
    // Cut to keep twelve rows over the floor.
    assert_eq!(chunk.get_block(20, 48), BlockType::Netherrack);
    assert_eq!(chunk.get_block(20, 49), BlockType::Air);
    // Edge columns get none.
    assert_eq!(chunk.get_block(1, 21), BlockType::Air);
}

#[test]
fn nether_features_keep_clear_of_the_fortress() {
    // The fortress of region 0 is centred in chunk 6.
    let layout = nether_fortress_layout(0, 0, 0);
    let mut chunk = cavern_chunk(6);
    let formation = Some(HangingFormationRoll { length: 5, wide: true, glowing: true });
    add_nether_hanging_formations(&mut chunk, 6, &[formation; 32], &[CEILING_Y; 32], &[FLOOR_Y; 32], &layout);
    let vent = Some(LavaVentRoll { length: 4, spreading: true });
    add_nether_lava_vents(&mut chunk, 6, &[vent; 32], &[CEILING_Y; 32], &[FLOOR_Y; 32], &layout);
    let shelf = PerchShelfRoll { center_x: 200, half_span: 8, drop: 10, glowing: true };
    add_nether_perch_shelves(&mut chunk, 6, &vec![shelf], &[CEILING_Y; 32], &[FLOOR_Y; 32], &layout);
    assert!(same_blocks(&chunk, &cavern_chunk(6)));
}

#[test]
fn lava_vents_drip_from_the_ceiling_and_spill_sideways() {
    let layout = nether_fortress_layout(0, 0, 0);
    let mut chunk = cavern_chunk(0);
    chunk.set_block(4, 21, BlockType::Netherrack);
    let mut rolls = [None; CHUNK_WIDTH];
    rolls[5] = Some(LavaVentRoll { length: 3, spreading: true });
    rolls[15] = Some(LavaVentRoll { length: 1, spreading: false });
    add_nether_lava_vents(&mut chunk, 0, &rolls, &[CEILING_Y; 32], &[FLOOR_Y; 32], &layout);
    for y in 21..=23 {
        assert_eq!(chunk.get_block(5, y), BlockType::Lava(8));
    }
    assert_eq!(chunk.get_block(5, 24), BlockType::Air);
    assert_eq!(chunk.get_block(4, 21), BlockType::Lava(8));
    assert_eq!(chunk.get_block(6, 21), BlockType::Air);
    // One row of lava is too short for a vent.
    assert_eq!(chunk.get_block(15, 21), BlockType::Air);
}

#[test]
fn perch_shelves_span_the_cavern_with_a_glowing_middle() {
    let layout = nether_fortress_layout(0, 0, 0);
    let mut chunk = cavern_chunk(0);
    let shelves = vec![
        PerchShelfRoll { center_x: 16, half_span: 4, drop: 10, glowing: true },
        PerchShelfRoll { center_x: 30, half_span: 4, drop: 50, glowing: false },
    ];
    add_nether_perch_shelves(&mut chunk, 0, &shelves, &[CEILING_Y; 32], &[FLOOR_Y; 32], &layout);
    for x in 12..=20 {
        assert_eq!(chunk.get_block(x, 50), BlockType::Netherrack);
    }
    assert_eq!(chunk.get_block(11, 50), BlockType::Air);
    assert_eq!(chunk.get_block(21, 50), BlockType::Air);
    for x in 15..=17 {
        assert_eq!(chunk.get_block(x, 51), BlockType::Glowstone);
    }
    assert_eq!(chunk.get_block(14, 51), BlockType::Air);
    // Too close to the ceiling: the second shelf is not laid.
    assert_eq!(chunk.get_block(30, 10), BlockType::Netherrack);
    assert_eq!(chunk.get_block(28, 40), BlockType::Air);
}

#[test]
fn route_landmarks_are_carved_with_their_cell_seed() {
    let ceiling = [46; 32];
    let floor = [72; 32];
    let roll = RouteLandmarkRoll { cell: 0, center_x: 16, fortress_center_x: 1000 };
    let mut chunk = Chunk::new(0, "nether");
    add_nether_route_landmarks(&mut chunk, 0, &vec![roll], &ceiling, &floor);
    // Cell 0 seeds 12345, a shrine, lit in the middle under its roof.
    let mut direct = Chunk::new(0, "nether");
    carve_nether_route_landmark(&mut direct, 0, CHUNK_WIDTH as i32, 16, 46, 72, 12_345);
    assert!(same_blocks(&chunk, &direct));
    assert_eq!(chunk.get_block(16, 66), BlockType::Glowstone);

    // Near the chunk's edge or near its fortress: nothing is built.
    let near_edge = RouteLandmarkRoll { cell: 0, center_x: 5, fortress_center_x: 1000 };
    let near_fortress = RouteLandmarkRoll { cell: 0, center_x: 16, fortress_center_x: 100 };
    let mut untouched = Chunk::new(0, "nether");
    add_nether_route_landmarks(&mut untouched, 0, &vec![near_edge, near_fortress], &ceiling, &floor);
    assert!(same_blocks(&untouched, &Chunk::new(0, "nether")));
}

#[test]
fn cavern_rows_settle_against_their_neighbour() {
    assert_eq!(settle_nether_cavern_rows(5, 100, None), (10, 86));
    assert_eq!(settle_nether_cavern_rows(25, 50, Some((20, 60))), (23, 58));
    assert_eq!(settle_nether_cavern_rows(30, 45, Some((30, 50))), (30, 62));
}
