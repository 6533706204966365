use termcraft::world::block::BlockType;
use termcraft::world::chunk::{Chunk, CHUNK_HEIGHT, CHUNK_WIDTH};
use termcraft::world::item::ItemType;
use termcraft::world::rules::{is_surface_water_biome, shoreline_land_water_depth_limit, BiomeType};
use termcraft::world::structures::{
    build_overworld_dungeon, build_overworld_village_hut, carve_nether_route_landmark, overworld_dungeon_center_column, fill_dungeon_chest_loot, fill_nether_landmark_chest_loot,
    fill_village_chest_loot, nether_route_landmark_variant, refine_overworld_ore_runs,
    NetherRouteLandmarkVariant,
};

#[test]
fn test_nether_route_landmark_variants_leave_distinct_signatures() {
    let center_x = (CHUNK_WIDTH / 2) as i32;
    let floor_y = 72;
    let ceiling_y = 46;

    let mut shrine_chunk = Chunk::new(0, "nether_route_shrine");
    carve_nether_route_landmark(
        &mut shrine_chunk,
        0,
        CHUNK_WIDTH as i32,
        center_x,
        ceiling_y,
        floor_y,
        0,
    );
    assert_eq!(
        shrine_chunk.get_block((center_x + 4) as usize, (floor_y - 1) as usize),
        BlockType::Chest
    );

    let mut bridge_chunk = Chunk::new(0, "nether_route_bridge");
    carve_nether_route_landmark(
        &mut bridge_chunk,
        0,
        CHUNK_WIDTH as i32,
        center_x,
        ceiling_y,
        floor_y,
        1,
    );
    assert_eq!(
        bridge_chunk.get_block(center_x as usize, (floor_y - 2) as usize),
        BlockType::Chest
    );
    assert_eq!(
        bridge_chunk.get_block(center_x as usize, (floor_y - 1) as usize),
        BlockType::StoneBricks
    );
    assert_eq!(
        bridge_chunk.get_block(center_x as usize, (floor_y + 1) as usize),
        BlockType::Lava(8)
    );

    let mut reliquary_chunk = Chunk::new(0, "nether_route_reliquary");
    carve_nether_route_landmark(
        &mut reliquary_chunk,
        0,
        CHUNK_WIDTH as i32,
        center_x,
        ceiling_y,
        floor_y,
        2,
    );
    assert_eq!(
        reliquary_chunk.get_block((center_x + 2) as usize, (floor_y - 2) as usize),
        BlockType::Chest
    );
    assert_eq!(
        reliquary_chunk.get_block((center_x - 3) as usize, (floor_y - 3) as usize),
        BlockType::Glowstone
    );
    assert_eq!(
        reliquary_chunk.get_block((center_x + 3) as usize, (floor_y - 3) as usize),
        BlockType::Glowstone
    );
    assert_eq!(
        reliquary_chunk.get_block((center_x - 3) as usize, (floor_y + 1) as usize),
        BlockType::Lava(8)
    );
}

#[test]
fn route_landmark_kind_follows_the_seed() {
    assert_eq!(nether_route_landmark_variant(9), NetherRouteLandmarkVariant::Shrine);
    assert_eq!(nether_route_landmark_variant(10), NetherRouteLandmarkVariant::Bridge);
    assert_eq!(nether_route_landmark_variant(11), NetherRouteLandmarkVariant::Reliquary);
}

#[test]
fn route_landmark_needs_room_and_stays_in_its_chunk() {
    // Too close to the ceiling: nothing is carved.
    let mut cramped = Chunk::new(0, "cramped");
    carve_nether_route_landmark(&mut cramped, 0, CHUNK_WIDTH as i32, 16, 68, 72, 0);
    assert_eq!(cramped.get_block(16, 71), BlockType::Air);
    assert_eq!(cramped.blocks_revision(), Chunk::new(0, "x").blocks_revision());
    // Crossing the chunk's edge: nothing is carved.
    let mut edge = Chunk::new(0, "edge");
    carve_nether_route_landmark(&mut edge, 0, CHUNK_WIDTH as i32, 2, 46, 72, 1);
    assert_eq!(edge.blocks_revision(), Chunk::new(0, "x").blocks_revision());
}

#[test]
fn long_iron_runs_are_broken_up() {
    let mut chunk = Chunk::new(0, "ore_runs");
    for x in 0..16 {
        chunk.set_block(x, 60, BlockType::IronOre);
    }
    for x in 20..26 {
        chunk.set_block(x, 60, BlockType::IronOre);
    }
    for x in 0..16 {
        chunk.set_block(x, 20, BlockType::IronOre);
    }
    refine_overworld_ore_runs(&mut chunk);
    // A run of sixteen gets stone three in and every sixth cell after.
    assert_eq!(chunk.get_block(3, 60), BlockType::Stone);
    assert_eq!(chunk.get_block(9, 60), BlockType::Stone);
    assert_eq!(chunk.get_block(15, 60), BlockType::Stone);
    assert_eq!(chunk.get_block(4, 60), BlockType::IronOre);
    // A run of six stays whole.
    for x in 20..26 {
        assert_eq!(chunk.get_block(x, 60), BlockType::IronOre);
    }
    // Rows above forty are left alone.
    assert_eq!(chunk.get_block(3, 20), BlockType::IronOre);
}

#[test]
fn loot_goes_only_into_chests() {
    let mut chunk = Chunk::new(0, "loot");
    chunk.set_block(1, 10, BlockType::Chest);
    chunk.set_block(2, 10, BlockType::Chest);
    chunk.set_block(3, 10, BlockType::Chest);
    fill_dungeon_chest_loot(&mut chunk, 1, 10, 7);
    fill_village_chest_loot(&mut chunk, 2, 10, 7);
    fill_nether_landmark_chest_loot(&mut chunk, 3, 10, 7);
    let dungeon = chunk.chest_inventory(1, 10).expect("dungeon chest");
    assert!(dungeon.has_item(ItemType::Coal, 2));
    assert!(dungeon.has_item(ItemType::Torch, 3));
    let village = chunk.chest_inventory(2, 10).expect("village chest");
    assert!(village.has_item(ItemType::Bread, 1));
    let landmark = chunk.chest_inventory(3, 10).expect("landmark chest");
    assert!(landmark.has_item(ItemType::Bread, 1) || landmark.has_item(ItemType::CookedBeef, 1));
    // No chest, no loot, no change.
    let before = chunk.blocks_revision();
    fill_dungeon_chest_loot(&mut chunk, 5, 10, 7);
    assert!(chunk.chest_inventory(5, 10).is_none());
    assert_eq!(chunk.blocks_revision(), before);
    assert_eq!(chunk.get_block(5, 10), BlockType::Air);
}

#[test]
fn dungeons_come_every_fifth_chunk_with_spawner_and_chest() {
    let mut skipped = Chunk::new(3, "dungeon");
    build_overworld_dungeon(&mut skipped, 3, 20);
    assert_eq!(skipped.blocks_revision(), Chunk::new(3, "x").blocks_revision());

    let mut chunk = Chunk::new(2, "dungeon");
    build_overworld_dungeon(&mut chunk, 2, 30);
    let center = overworld_dungeon_center_column(2);
    assert!((8..24).contains(&center));
    let mut spawners = 0;
    let mut chests = 0;
    for x in 0..CHUNK_WIDTH {
        for y in 0..128 {
            match chunk.get_block(x, y) {
                BlockType::ZombieSpawner | BlockType::SkeletonSpawner => {
                    spawners += 1;
                    assert_eq!(x, center);
                }
                BlockType::Chest => {
                    chests += 1;
                    let loot = chunk.chest_inventory(x, y).expect("dungeon chest has loot");
                    assert!(loot.has_item(ItemType::Coal, 2));
                }
                BlockType::Air => {}
                _ => {
                    assert!((center - 3..=center + 3).contains(&x));
                    assert!((40..=116).contains(&y));
                }
            }
        }
    }
    assert_eq!(spawners, 1);
    assert_eq!(chests, 1);
}

fn same_blocks(a: &Chunk, b: &Chunk) -> bool {
    (0..CHUNK_HEIGHT).all(|y| (0..CHUNK_WIDTH).all(|x| a.get_block(x, y) == b.get_block(x, y)))
}

fn flat_plains_hut_chunk(chunk_x: i32, biome: BiomeType, surface: [i32; 32]) -> Chunk {
    let mut chunk = Chunk::new(chunk_x, "village_hut");
    build_overworld_village_hut(&mut chunk, chunk_x, &[biome; 32], &surface, &[false; 32]);
    chunk
}

#[test]
fn village_hut_stands_on_flat_dry_ground() {
    // Chunk column 16 is one in eleven and its seed picks a hut four
    // columns wide on each side of column 25, walls at 21 and 29, with the
    // door on the right when both sides step down alike.
    let chunk = flat_plains_hut_chunk(16, BiomeType::Plains, [30; 32]);
    let floor_y = 29;
    assert_eq!(chunk.get_block(29, floor_y), BlockType::WoodDoor(false));
    assert_eq!(chunk.get_block(29, floor_y - 1), BlockType::WoodDoor(false));
    assert_eq!(chunk.get_block(30, floor_y), BlockType::Air);
    assert_eq!(chunk.get_block(30, floor_y - 1), BlockType::Air);
    assert_eq!(chunk.get_block(22, floor_y), BlockType::Chest);
    assert_eq!(chunk.get_block(23, floor_y), BlockType::CraftingTable);
    assert_eq!(chunk.get_block(24, floor_y), BlockType::Bed);
    assert_eq!(chunk.get_block(25, floor_y), BlockType::Planks);
    assert_eq!(chunk.get_block(21, floor_y - 3), BlockType::Glass);
    assert_eq!(chunk.get_block(29, floor_y - 2), BlockType::Glass);
    assert_eq!(chunk.get_block(25, floor_y - 4), BlockType::Planks);
    assert_eq!(chunk.get_block(21, floor_y - 4), BlockType::Cobblestone);
    assert_eq!(chunk.get_block(20, floor_y - 5), BlockType::StoneSlab);
    assert_eq!(chunk.get_block(25, floor_y + 1), BlockType::Cobblestone);
    assert_eq!(chunk.get_block(25, floor_y - 2), BlockType::Air);
    let chest = chunk.chest_inventory(22, floor_y).expect("hut chest holds loot");
    assert!(chest.has_item(ItemType::Bread, 1));
    // The door opens onto air on one side and a floored room on the other.
    assert!(chunk.get_block(28, floor_y).is_solid());
    assert_eq!(chunk.get_block(28, floor_y - 1), BlockType::Air);
}

#[test]
fn desert_hut_is_built_of_stone() {
    let chunk = flat_plains_hut_chunk(16, BiomeType::Desert, [30; 32]);
    assert_eq!(chunk.get_block(25, 29), BlockType::Sand);
    assert_eq!(chunk.get_block(21, 28), BlockType::Stone);
    assert_eq!(chunk.get_block(25, 30), BlockType::StoneBricks);
    assert_eq!(chunk.get_block(20, 24), BlockType::StoneStairs);
}

#[test]
fn village_hut_site_must_suit() {
    let untouched = Chunk::new(16, "village_hut");
    // Not a hut column, or a seed that declines.
    assert!(same_blocks(&flat_plains_hut_chunk(17, BiomeType::Plains, [30; 32]), &Chunk::new(17, "village_hut")));
    assert!(same_blocks(&flat_plains_hut_chunk(5, BiomeType::Plains, [30; 32]), &Chunk::new(5, "village_hut")));
    // A climate that takes no huts.
    assert!(same_blocks(&flat_plains_hut_chunk(16, BiomeType::Swamp, [30; 32]), &untouched));
    // Ground above sea level.
    assert!(same_blocks(&flat_plains_hut_chunk(16, BiomeType::Plains, [40; 32]), &untouched));
    // Ground that rises three rows beside the hut.
    let mut bumpy = [30; 32];
    bumpy[30] = 33;
    assert!(same_blocks(&flat_plains_hut_chunk(16, BiomeType::Plains, bumpy), &untouched));
    // Water beside the hut.
    let mut chunk = Chunk::new(16, "village_hut");
    let mut water = [false; 32];
    water[20] = true;
    build_overworld_village_hut(&mut chunk, 16, &[BiomeType::Plains; 32], &[30; 32], &water);
    assert!(same_blocks(&chunk, &untouched));
    // Two rows of rise are still fine.
    let mut gentle = [30; 32];
    gentle[30] = 32;
    assert!(!same_blocks(&flat_plains_hut_chunk(16, BiomeType::Plains, gentle), &untouched));
}

#[test]
fn shoreline_water_reaches_deeper_beside_open_water() {
    assert!(is_surface_water_biome(BiomeType::Ocean));
    assert!(is_surface_water_biome(BiomeType::Swamp));
    assert!(!is_surface_water_biome(BiomeType::Plains));
    assert_eq!(shoreline_land_water_depth_limit(BiomeType::Ocean, 1), 38);
    assert_eq!(shoreline_land_water_depth_limit(BiomeType::River, 1), 37);
    assert_eq!(shoreline_land_water_depth_limit(BiomeType::Swamp, 2), 36);
    assert_eq!(shoreline_land_water_depth_limit(BiomeType::Plains, 1), 36);
}

#[test]
fn new_chests_get_their_rolled_first_item() {
    let roll = |s: u32| s.wrapping_mul(1_664_525).wrapping_add(1_013_904_223);
    let mut chunk = Chunk::new(0, "loot_counts");
    chunk.set_block(1, 10, BlockType::Chest);
    chunk.set_block(2, 10, BlockType::Chest);
    fill_dungeon_chest_loot(&mut chunk, 1, 10, 7);
    fill_village_chest_loot(&mut chunk, 2, 10, 7);
    let coal = 2 + roll(7) % 4;
    let dungeon = chunk.chest_inventory(1, 10).expect("dungeon chest");
    assert!(dungeon.has_item(ItemType::Coal, coal));
    assert!(!dungeon.has_item(ItemType::Coal, coal + 1));
    let bread = 1 + roll(7) % 3;
    let village = chunk.chest_inventory(2, 10).expect("village chest");
    assert!(village.has_item(ItemType::Bread, bread));
    assert!(!village.has_item(ItemType::Bread, bread + 1));
}

#[test]
fn village_hut_door_faces_the_smaller_step() {
    // Column 16's hut spans walls 21 to 29 on a floor at row 29. The ground
    // right of it lies two rows higher than the row under the floor, the
    // ground left of it level with it: the door goes left, though the seed
    // alone would put it right, and the chest stands by the right wall.
    let mut surface = [30; 32];
    surface[30] = 28;
    let chunk = flat_plains_hut_chunk(16, BiomeType::Plains, surface);
    assert_eq!(chunk.get_block(21, 29), BlockType::WoodDoor(false));
    assert_eq!(chunk.get_block(21, 28), BlockType::WoodDoor(false));
    assert_eq!(chunk.get_block(28, 29), BlockType::Chest);
    let chest = chunk.chest_inventory(28, 29).expect("hut chest");
    let hash = 16u32.wrapping_mul(2_654_435_761).wrapping_add(1_013_904_223);
    let bread = 1 + (hash ^ 0x5A5A_A5A5).wrapping_mul(1_664_525).wrapping_add(1_013_904_223) % 3;
    assert!(chest.has_item(ItemType::Bread, bread));
    assert!(!chest.has_item(ItemType::Bread, bread + 1));
}
