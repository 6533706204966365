use termcraft::world::block::BlockType;
use termcraft::world::chunk::{Chunk, CHUNK_HEIGHT, CHUNK_WIDTH};

#[test]
fn test_chunk_revision_increments_only_on_real_block_change() {
    let mut chunk = Chunk::new(710_099, "chunkrev");
    let baseline = chunk.blocks_revision();

    chunk.set_block(1, 1, BlockType::Air);
    assert_eq!(chunk.blocks_revision(), baseline);
    assert!(!chunk.dirty);

    chunk.set_block(1, 1, BlockType::Stone);
    assert!(chunk.blocks_revision() > baseline);
    assert!(chunk.dirty);
    let changed = chunk.blocks_revision();

    chunk.set_block(1, 1, BlockType::Stone);
    assert_eq!(chunk.blocks_revision(), changed);
}

#[test]
fn test_chunk_activity_counts_track_dynamic_block_presence() {
    let mut chunk = Chunk::new(710_100, "chunkactivity");
    assert!(!chunk.has_fluids());
    assert!(!chunk.has_falling_blocks());
    assert!(!chunk.has_leaf_blocks());
    assert!(!chunk.has_farming_blocks());
    assert!(!chunk.has_redstone_blocks());

    chunk.set_block(1, 1, BlockType::Water(8));
    chunk.set_block(2, 1, BlockType::Sand);
    chunk.set_block(3, 1, BlockType::Leaves);
    chunk.set_block(4, 1, BlockType::Farmland(0));
    chunk.set_block(5, 1, BlockType::RedstoneDust(0));

    assert!(chunk.has_fluids());
    assert!(chunk.has_falling_blocks());
    assert!(chunk.has_leaf_blocks());
    assert!(chunk.has_farming_blocks());
    assert!(chunk.has_redstone_blocks());

    chunk.set_block(1, 1, BlockType::Air);
    chunk.set_block(2, 1, BlockType::Air);
    chunk.set_block(3, 1, BlockType::Air);
    chunk.set_block(4, 1, BlockType::Air);
    chunk.set_block(5, 1, BlockType::Air);

    assert!(!chunk.has_fluids());
    assert!(!chunk.has_falling_blocks());
    assert!(!chunk.has_leaf_blocks());
    assert!(!chunk.has_farming_blocks());
    assert!(!chunk.has_redstone_blocks());
}

#[test]
fn test_apply_block_snapshot_rebuilds_activity_counts() {
    let mut chunk = Chunk::new(710_101, "chunksnapshotactivity");
    let mut blocks = vec![BlockType::Air; CHUNK_WIDTH * CHUNK_HEIGHT];
    blocks[CHUNK_WIDTH + 1] = BlockType::Lava(8);
    blocks[CHUNK_WIDTH + 2] = BlockType::Gravel;
    blocks[CHUNK_WIDTH + 3] = BlockType::BirchLeaves;
    blocks[CHUNK_WIDTH + 4] = BlockType::Crops(3);
    blocks[CHUNK_WIDTH + 5] = BlockType::Piston {
        extended: false,
        facing_right: true,
    };

    assert!(chunk.apply_block_snapshot(&blocks));
    assert!(chunk.has_fluids());
    assert!(chunk.has_falling_blocks());
    assert!(chunk.has_leaf_blocks());
    assert!(chunk.has_farming_blocks());
    assert!(chunk.has_redstone_blocks());
}

