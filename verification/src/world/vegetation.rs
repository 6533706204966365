use vstd::prelude::*;
use super::block::BlockType;
use super::caves::put_cell;
use super::chunk::{Chunk, CHUNK_HEIGHT, CHUNK_WIDTH};
use super::rules::BiomeType;
use super::stronghold::same_chunk_frame;

verus! {

/// How many columns the vegetation pass looks at: the chunk's own and two
/// more on each side, whose trees may spread leaves into the chunk.
pub const VEGETATION_SPAN: usize = 36;

/// Whether a cell that held `before` may hold `after` once plants grew:
/// a plant or trunk block, dirt where snow lay under a tree, or leaves
/// where there was air.
pub open spec fn plant_change(before: BlockType, after: BlockType) -> bool {
    ||| after == BlockType::SugarCane
    ||| after == BlockType::Cactus
    ||| after == BlockType::DeadBush
    ||| after == BlockType::Wood
    ||| after == BlockType::BirchWood
    ||| after == BlockType::RedFlower
    ||| after == BlockType::YellowFlower
    ||| after == BlockType::TallGrass
    ||| after == BlockType::Dirt && before == BlockType::Snow
    ||| (after == BlockType::Leaves || after == BlockType::BirchLeaves) && before == BlockType::Air
}

/// Every cell in which `after` differs from `before` changed as plants
/// change cells, and the chunk's column, save key and validity stay.
pub open spec fn only_plants_grew(before: Chunk, after: Chunk) -> bool {
    &&& same_chunk_frame(before, after)
    &&& forall|x: int, y: int| #[trigger] after.spec_block_at(x, y) != before.spec_block_at(x, y)
        ==> plant_change(before.spec_block_at(x, y), after.spec_block_at(x, y))
}

/// Every cell off column `lx` in which `after` differs from `before` is
/// leaves grown into air.
pub open spec fn only_leaves_beside(before: Chunk, after: Chunk, lx: int) -> bool {
    forall|x: int, y: int| x != lx && #[trigger] after.spec_block_at(x, y) != before.spec_block_at(x, y) ==> {
        &&& before.spec_block_at(x, y) == BlockType::Air
        &&& (after.spec_block_at(x, y) == BlockType::Leaves || after.spec_block_at(x, y) == BlockType::BirchLeaves)
    }
}

/// Every cell off columns `lo` to `hi` of `after` is as in `before`.
pub open spec fn columns_kept_outside(before: Chunk, after: Chunk, lo: int, hi: int) -> bool {
    forall|x: int, y: int| !(lo <= x <= hi) ==> #[trigger] after.spec_block_at(x, y) == before.spec_block_at(x, y)
}

/// The roll in 0..100 that decides what grows in world column `wx`.
pub open spec fn vegetation_roll(wx: i32) -> u32 {
    ((wx as u32).wrapping_mul(134_775_813).wrapping_add(9_821_471)) % 100
}

/// Rolls under this grow sugar cane beside water in climate `biome`.
pub open spec fn cane_limit(biome: BiomeType) -> u32 {
    if biome == BiomeType::Swamp {
        30
    } else if biome == BiomeType::River {
        24
    } else if biome == BiomeType::Desert {
        18
    } else {
        12
    }
}

/// Rolls under this grow a tree in climate `biome`.
pub open spec fn tree_limit(biome: BiomeType) -> u32 {
    if biome == BiomeType::Forest {
        15
    } else if biome == BiomeType::Taiga {
        12
    } else if biome == BiomeType::Swamp {
        10
    } else if biome == BiomeType::Jungle {
        24
    } else if biome == BiomeType::ExtremeHills {
        6
    } else if biome == BiomeType::Tundra {
        4
    } else {
        2
    }
}

/// Rolls under this (and not under the tree limit) grow a flower or grass
/// in climate `biome`.
pub open spec fn flora_limit(biome: BiomeType) -> u32 {
    if biome == BiomeType::Taiga {
        12
    } else if biome == BiomeType::Swamp {
        26
    } else if biome == BiomeType::Jungle {
        16
    } else if biome == BiomeType::ExtremeHills {
        12
    } else {
        20
    }
}

/// The flower or grass that grows in climate `biome` for roll `h`.
pub open spec fn spec_flora_for(biome: BiomeType, h: u32) -> BlockType {
    if biome == BiomeType::Taiga {
        if h < 2 {
            BlockType::RedFlower
        } else if h < 4 {
            BlockType::YellowFlower
        } else {
            BlockType::TallGrass
        }
    } else if biome == BiomeType::Swamp {
        if h < 5 {
            BlockType::DeadBush
        } else {
            BlockType::TallGrass
        }
    } else if biome == BiomeType::Jungle {
        if h < 4 {
            BlockType::RedFlower
        } else {
            BlockType::TallGrass
        }
    } else if biome == BiomeType::ExtremeHills {
        if h < 3 {
            BlockType::YellowFlower
        } else {
            BlockType::TallGrass
        }
    } else if h < 5 {
        BlockType::RedFlower
    } else if h < 10 {
        BlockType::YellowFlower
    } else {
        BlockType::TallGrass
    }
}

/// Whether trees of climate `biome` are birches.
pub open spec fn birch_biome(biome: BiomeType) -> bool {
    biome == BiomeType::Tundra || biome == BiomeType::ExtremeHills
}

/// Whether `b` is water or lava.
pub open spec fn fluid_block(b: BlockType) -> bool {
    b is Water || b is Lava
}

/// Whether a column of climate `biome` with roll `h` grows a tree.
pub open spec fn grows_tree(biome: BiomeType, h: u32, beach: bool, water_edge: bool) -> bool {
    &&& !(biome == BiomeType::Desert || biome == BiomeType::Ocean || biome == BiomeType::River)
    &&& !beach
    &&& !water_edge
    &&& h < tree_limit(biome)
}

/// What a column of climate `biome` with roll `h` grows right on its
/// ground block `ground`, where the cell over the ground is air: sugar
/// cane on grass, dirt or sand beside water (not in oceans); cactus or a
/// dead bush in deserts; elsewhere, away from beaches and water and out
/// of oceans and rivers, a trunk or a flower or grass, unless the ground
/// is a fluid.
pub open spec fn own_plant(biome: BiomeType, h: u32, beach: bool, water_edge: bool, ground: BlockType) -> Option<
    BlockType,
> {
    if water_edge && biome != BiomeType::Ocean && h < cane_limit(biome) && (ground == BlockType::Grass || ground
        == BlockType::Dirt || ground == BlockType::Sand) {
        Some(BlockType::SugarCane)
    } else if biome == BiomeType::Desert {
        if h < 3 {
            Some(BlockType::Cactus)
        } else if h < 6 {
            Some(BlockType::DeadBush)
        } else {
            None
        }
    } else if biome == BiomeType::Ocean || biome == BiomeType::River || beach || water_edge {
        None
    } else if fluid_block(ground) {
        None
    } else if h < tree_limit(biome) {
        Some(
            if birch_biome(biome) {
                BlockType::BirchWood
            } else {
                BlockType::Wood
            },
        )
    } else if h < flora_limit(biome) {
        Some(spec_flora_for(biome, h))
    } else {
        None
    }
}

/// The trunk height of a tree of climate `biome` with roll `h`.
pub open spec fn spec_tree_height(biome: BiomeType, h: u32) -> int {
    if biome == BiomeType::Jungle {
        5 + h % 4
    } else if biome == BiomeType::Taiga {
        4 + h % 3
    } else if biome == BiomeType::ExtremeHills {
        4 + h % 2
    } else if biome == BiomeType::Swamp || biome == BiomeType::Tundra {
        3 + h % 2
    } else {
        3 + h % 3
    }
}

/// How many cells the plant that `own_plant` picks stacks over its ground:
/// a cane one to three, a cactus three, a trunk its tree's height, any
/// other plant one.
pub open spec fn own_stack_height(biome: BiomeType, h: u32, beach: bool, water_edge: bool, ground: BlockType) -> int {
    let p = own_plant(biome, h, beach, water_edge, ground);
    if p == Some(BlockType::SugarCane) {
        1 + h % 3
    } else if p == Some(BlockType::Cactus) {
        3
    } else if p == Some(BlockType::Wood) || p == Some(BlockType::BirchWood) {
        spec_tree_height(biome, h)
    } else {
        1
    }
}

/// The row of the `t`-th cell of a stack over ground row `sy`: held at the
/// chunk's top row where it would reach above it.
pub open spec fn stack_row(sy: int, t: int) -> int {
    if sy - t > 0 {
        sy - t
    } else {
        0
    }
}

/// The world column of entry `k` of the vegetation pass of chunk `chunk_x`.
pub open spec fn vegetation_column(chunk_x: i32, k: int) -> i32 {
    (chunk_x * 32 - 2 + k) as i32
}

/// Whether neither of the two entries before entry `k` grows a tree, so
/// that no leaves reach entry `k`'s column before it grows.
pub open spec fn no_tree_before(
    chunk_x: i32,
    biomes: Seq<BiomeType>,
    beaches: Seq<bool>,
    edges: Seq<bool>,
    k: int,
) -> bool {
    forall|j: int|
        k - 2 <= j < k && 0 <= j ==> !#[trigger] grows_tree(
            biomes[j],
            vegetation_roll(vegetation_column(chunk_x, j)),
            beaches[j],
            edges[j],
        )
}

/// The block at row `row` of column `lx`, air off the chunk.
fn block_at_row(chunk: &Chunk, lx: usize, row: i32) -> (r: BlockType)
    requires
        chunk.wf(),
        lx < 32,
    ensures
        r == chunk.spec_block_at(lx as int, row as int),
{
    if 0 <= row && row < CHUNK_HEIGHT as i32 {
        chunk.get_block(lx, row as usize)
    } else {
        BlockType::Air
    }
}

/// Places a plant block `ty` rows above ground row `sy` of column `lx`,
/// at the top row where that is above the chunk; nothing when the ground
/// row is above the chunk.
fn grow_above_ground(chunk: &mut Chunk, lx: usize, sy: i32, ty: i32, block: BlockType)
    requires
        old(chunk).wf(),
        lx < 32,
        -1000 <= sy <= 1000,
        1 <= ty <= 10,
        plant_change(BlockType::Air, block),
        block != BlockType::Leaves && block != BlockType::BirchLeaves && block != BlockType::Dirt,
    ensures
        only_plants_grew(*old(chunk), *final(chunk)),
        forall|x: int, y: int| #[trigger] final(chunk).spec_block_at(x, y) == if x == lx && sy >= 0 && y == (if sy
            - ty > 0 {
            sy - ty
        } else {
            0
        }) && y < 128 {
            block
        } else {
            old(chunk).spec_block_at(x, y)
        },
{
    if sy >= 0 {
        let row = if sy - ty > 0 {
            sy - ty
        } else {
            0
        };
        if row < CHUNK_HEIGHT as i32 {
            put_cell(chunk, lx, row as usize, block);
        }
    }
}

/// The tree height of biome `biome` for roll `h`.
fn tree_height(biome: BiomeType, h: u32) -> (r: i32)
    requires
        h < 100,
    ensures
        3 <= r <= 8,
        r == spec_tree_height(biome, h),
{
    match biome {
        BiomeType::Jungle => 5 + (h % 4) as i32,
        BiomeType::Taiga => 4 + (h % 3) as i32,
        BiomeType::Swamp => 3 + (h % 2) as i32,
        BiomeType::ExtremeHills => 4 + (h % 2) as i32,
        BiomeType::Tundra => 3 + (h % 2) as i32,
        _ => 3 + (h % 3) as i32,
    }
}

/// The flower or grass that grows in biome `biome` for roll `h`.
fn flora_for(biome: BiomeType, h: u32) -> (r: BlockType)
    ensures
        r == spec_flora_for(biome, h),
{
    match biome {
        BiomeType::Taiga => {
            if h < 2 {
                BlockType::RedFlower
            } else if h < 4 {
                BlockType::YellowFlower
            } else {
                BlockType::TallGrass
            }
        },
        BiomeType::Swamp => {
            if h < 5 {
                BlockType::DeadBush
            } else {
                BlockType::TallGrass
            }
        },
        BiomeType::Jungle => {
            if h < 4 {
                BlockType::RedFlower
            } else {
                BlockType::TallGrass
            }
        },
        BiomeType::ExtremeHills => {
            if h < 3 {
                BlockType::YellowFlower
            } else {
                BlockType::TallGrass
            }
        },
        _ => {
            if h < 5 {
                BlockType::RedFlower
            } else if h < 10 {
                BlockType::YellowFlower
            } else {
                BlockType::TallGrass
            }
        },
    }
}

/// Places leaves `leaf` into the air cells of row `ly` from world column
/// `wx - wd` to `wx + wd` that lie in the chunk starting at `c_start`.
fn leaf_row(chunk: &mut Chunk, c_start: i32, wx: i32, wd: i32, ly: i32, leaf: BlockType)
    requires
        old(chunk).wf(),
        -0x7fff_ffe0 <= c_start <= 0x7fff_ffc0,
        c_start - 2 <= wx < c_start + 34,
        0 <= wd <= 2,
        0 <= ly < 128,
        leaf == BlockType::Leaves || leaf == BlockType::BirchLeaves,
    ensures
        only_plants_grew(*old(chunk), *final(chunk)),
        only_leaves_beside(*old(chunk), *final(chunk), -1),
        columns_kept_outside(*old(chunk), *final(chunk), wx - wd - c_start, wx + wd - c_start),
        forall|x: int, y: int| y != ly ==> #[trigger] final(chunk).spec_block_at(x, y) == old(chunk).spec_block_at(x, y),
        forall|x: int|
            0 <= x < 32 && wx - wd <= c_start + x <= wx + wd ==> #[trigger] final(chunk).spec_block_at(x, ly as int)
                == if old(chunk).spec_block_at(x, ly as int) == BlockType::Air {
                leaf
            } else {
                old(chunk).spec_block_at(x, ly as int)
            },
{
    let ghost orig = *chunk;
    let mut lx = wx - wd;
    while lx <= wx + wd
        invariant
            only_plants_grew(orig, *chunk),
            only_leaves_beside(orig, *chunk, -1),
            columns_kept_outside(orig, *chunk, wx - wd - c_start, wx + wd - c_start),
            forall|x: int, y: int| y != ly ==> #[trigger] chunk.spec_block_at(x, y) == orig.spec_block_at(x, y),
            forall|x: int| 0 <= x < 32 && lx <= c_start + x ==> #[trigger] chunk.spec_block_at(x, ly as int)
                == orig.spec_block_at(x, ly as int),
            forall|x: int|
                0 <= x < 32 && wx - wd <= c_start + x < lx ==> #[trigger] chunk.spec_block_at(x, ly as int)
                    == if orig.spec_block_at(x, ly as int) == BlockType::Air {
                    leaf
                } else {
                    orig.spec_block_at(x, ly as int)
                },
            -0x7fff_ffe0 <= c_start <= 0x7fff_ffc0,
            c_start - 2 <= wx < c_start + 34,
            0 <= wd <= 2,
            0 <= ly < 128,
            wx - wd <= lx <= wx + wd + 1,
            leaf == BlockType::Leaves || leaf == BlockType::BirchLeaves,
        decreases wx + wd + 1 - lx,
    {
        if lx >= c_start && lx < c_start + CHUNK_WIDTH as i32 {
            let llx = (lx - c_start) as usize;
            if chunk.get_block(llx, ly as usize) == BlockType::Air {
                put_cell(chunk, llx, ly as usize, leaf);
            }
        }
        lx = lx + 1;
    }
}

/// Grows the tree of world column `wx` (roll `h`, ground row `sy`,
/// biome `biome`) into the chunk starting at `c_start`: the trunk and the
/// ground under it where the column is the chunk's and open to the sky,
/// and the leaves wherever they reach into the chunk.
fn grow_tree(chunk: &mut Chunk, c_start: i32, wx: i32, sy: i32, biome: BiomeType, h: u32)
    requires
        old(chunk).wf(),
        -0x7fff_ffe0 <= c_start <= 0x7fff_ffc0,
        c_start - 2 <= wx < c_start + 34,
        -1000 <= sy <= 1000,
        h < 100,
    ensures
        only_plants_grew(*old(chunk), *final(chunk)),
        only_leaves_beside(*old(chunk), *final(chunk), wx - c_start),
        columns_kept_outside(*old(chunk), *final(chunk), wx - c_start - 2, wx - c_start + 2),
        0 <= wx - c_start < 32 && 1 <= sy <= 127 && !fluid_block(old(chunk).spec_block_at(wx - c_start, sy as int))
            && old(chunk).spec_block_at(wx - c_start, sy - 1) == BlockType::Air ==> forall|t: int|
            1 <= t <= spec_tree_height(biome, h) ==> #[trigger] final(chunk).spec_block_at(
                wx - c_start,
                stack_row(sy as int, t),
            ) == (if birch_biome(biome) {
                BlockType::BirchWood
            } else {
                BlockType::Wood
            }),
{
    let ghost orig = *chunk;
    let ghost own = wx - c_start;
    let t_h = tree_height(biome, h);
    let birch = biome == BiomeType::Tundra || biome == BiomeType::ExtremeHills;
    let w_t = if birch {
        BlockType::BirchWood
    } else {
        BlockType::Wood
    };
    let l_t = if birch {
        BlockType::BirchLeaves
    } else {
        BlockType::Leaves
    };
    if wx >= c_start && wx < c_start + CHUNK_WIDTH as i32 {
        let lx = (wx - c_start) as usize;
        let ground = block_at_row(chunk, lx, sy);
        if matches!(ground, BlockType::Water(_) | BlockType::Lava(_)) || sy == 0 || block_at_row(
            chunk,
            lx,
            sy - 1,
        ) != BlockType::Air {
            return;
        }
        if ground == BlockType::Snow {
            put_cell(chunk, lx, sy as usize, BlockType::Dirt);
        }
        let mut ty: i32 = 1;
        while ty <= t_h
            invariant
                only_plants_grew(orig, *chunk),
                columns_kept_outside(orig, *chunk, own, own),
                lx == own,
                lx < 32,
                -1000 <= sy <= 1000,
                sy != 0,
                3 <= t_h <= 8,
                1 <= ty <= t_h + 1,
                w_t == BlockType::BirchWood || w_t == BlockType::Wood,
                w_t == (if birch_biome(biome) { BlockType::BirchWood } else { BlockType::Wood }),
                1 <= sy <= 127 ==> forall|t: int| 1 <= t < ty ==> #[trigger] chunk.spec_block_at(own, stack_row(sy as int, t))
                    == w_t,
                t_h == spec_tree_height(biome, h),
            decreases t_h + 1 - ty,
        {
            let ghost g0 = *chunk;
            grow_above_ground(chunk, lx, sy, ty, w_t);
            proof {
                if 1 <= sy <= 127 {
                    assert forall|t: int| 1 <= t < ty + 1 implies #[trigger] chunk.spec_block_at(own, stack_row(sy as int, t))
                        == w_t by {
                        assert(g0.spec_block_at(own, stack_row(sy as int, t)) == g0.spec_block_at(own, stack_row(sy as int, t)));
                    }
                }
            }
            ty = ty + 1;
        }
    }
    let ghost trunk = *chunk;
    // The crown's lowest row is the trunk's top row, held at the chunk's
    // top row when the trunk would reach above it; a ground row above the
    // chunk puts the crown that far higher still.
    let b_ly: i32 = if sy >= 0 {
        if sy - t_h > 0 {
            sy - t_h
        } else {
            0
        }
    } else {
        sy - t_h
    };
    let mut ly = b_ly - 2;
    while ly <= b_ly
        invariant
            only_plants_grew(orig, *chunk),
            only_plants_grew(trunk, *chunk),
            only_leaves_beside(trunk, *chunk, -1),
            columns_kept_outside(trunk, *chunk, own - 2, own + 2),
            columns_kept_outside(orig, trunk, own, own),
            own == wx - c_start,
            -0x7fff_ffe0 <= c_start <= 0x7fff_ffc0,
            c_start - 2 <= wx < c_start + 34,
            -1010 <= b_ly <= 1000,
            b_ly - 2 <= ly <= b_ly + 1,
            l_t == BlockType::Leaves || l_t == BlockType::BirchLeaves,
        decreases b_ly + 1 - ly,
    {
        if ly >= 0 && ly < CHUNK_HEIGHT as i32 {
            let wd: i32 = if biome == BiomeType::Taiga {
                if ly == b_ly - 2 {
                    0
                } else {
                    1
                }
            } else if ly == b_ly - 2 {
                1
            } else {
                2
            };
            leaf_row(chunk, c_start, wx, wd, ly, l_t);
        }
        ly = ly + 1;
    }
    let ghost leaves = *chunk;
    if biome == BiomeType::Taiga || biome == BiomeType::Jungle {
        let cap_y = if b_ly - 3 < 0 {
            0
        } else if b_ly - 3 > CHUNK_HEIGHT as i32 - 1 {
            CHUNK_HEIGHT as i32 - 1
        } else {
            b_ly - 3
        };
        if wx >= c_start && wx < c_start + CHUNK_WIDTH as i32 {
            let lx = (wx - c_start) as usize;
            if chunk.get_block(lx, cap_y as usize) == BlockType::Air {
                put_cell(chunk, lx, cap_y as usize, l_t);
            }
        }
    }
    proof {
        // Leaves and the cap only fill air, so the trunk stays.
        assert forall|t: int| 1 <= t <= t_h && trunk.spec_block_at(own, stack_row(sy as int, t)) != BlockType::Air implies #[trigger] chunk.spec_block_at(
            own,
            stack_row(sy as int, t),
        ) == trunk.spec_block_at(own, stack_row(sy as int, t)) by {
            assert(leaves.spec_block_at(own, stack_row(sy as int, t)) == trunk.spec_block_at(own, stack_row(sy as int, t)));
        }
    }
}

/// Grows what entry `k` of the vegetation pass (world column
/// `c_start - 2 + k`, climate `b`, ground row `sy`) grows into the chunk
/// starting at `c_start`.
#[verifier::rlimit(40)]
fn grow_column(
    chunk: &mut Chunk,
    c_start: i32,
    k: usize,
    b: BiomeType,
    sy: i32,
    beach_column: bool,
    water_edge_column: bool,
)
    requires
        old(chunk).wf(),
        -0x7fff_ffe0 <= c_start <= 0x7fff_ffc0,
        k < 36,
        -1000 <= sy <= 1000,
    ensures
        only_plants_grew(*old(chunk), *final(chunk)),
        b == BiomeType::Ocean ==> *final(chunk) == *old(chunk),
        only_leaves_beside(*old(chunk), *final(chunk), k - 2),
        columns_kept_outside(*old(chunk), *final(chunk), k - 4, k as int),
        !grows_tree(b, vegetation_roll((c_start - 2 + k) as i32), beach_column, water_edge_column)
            ==> columns_kept_outside(*old(chunk), *final(chunk), k - 2, k - 2),
        ({
            let lx = k - 2;
            let ground = old(chunk).spec_block_at(lx, sy as int);
            let p = own_plant(b, vegetation_roll((c_start - 2 + k) as i32), beach_column, water_edge_column, ground);
            2 <= k < 34 && 1 <= sy <= 127 && old(chunk).spec_block_at(lx, sy - 1) == BlockType::Air && p is Some
                ==> forall|t: int|
                1 <= t <= own_stack_height(
                    b,
                    vegetation_roll((c_start - 2 + k) as i32),
                    beach_column,
                    water_edge_column,
                    ground,
                ) ==> #[trigger] final(chunk).spec_block_at(lx, stack_row(sy as int, t)) == p->0
        }),
{
    let ghost orig = *chunk;
    let c_end = c_start + CHUNK_WIDTH as i32;
    let wx = c_start - 2 + k as i32;
    let h = (#[verifier::truncate] (wx as u32)).wrapping_mul(134_775_813).wrapping_add(9_821_471) % 100;
    assert(h == vegetation_roll(wx));
    let inside = wx >= c_start && wx < c_end;
    let cane_limit: u32 = match b {
        BiomeType::Swamp => 30,
        BiomeType::River => 24,
        BiomeType::Desert => 18,
        _ => 12,
    };
    if water_edge_column && b != BiomeType::Ocean && h < cane_limit && inside {
        let lx = (wx - c_start) as usize;
        let ground = block_at_row(chunk, lx, sy);
        if (ground == BlockType::Grass || ground == BlockType::Dirt || ground == BlockType::Sand) && sy > 0
            && block_at_row(chunk, lx, sy - 1) == BlockType::Air {
            let cane_height = 1 + (h % 3) as i32;
            let mut ty: i32 = 1;
            while ty <= cane_height
                invariant
                    only_plants_grew(orig, *chunk),
                    columns_kept_outside(orig, *chunk, k - 2, k - 2),
                    lx == k - 2,
                    lx < 32,
                    -1000 <= sy <= 1000,
                    sy > 0,
                    1 <= cane_height <= 3,
                    1 <= ty <= cane_height + 1,
                    cane_height == 1 + h % 3,
                    sy <= 127 ==> forall|t: int| 1 <= t < ty ==> #[trigger] chunk.spec_block_at(
                        lx as int,
                        stack_row(sy as int, t),
                    ) == BlockType::SugarCane,
                decreases cane_height + 1 - ty,
            {
                let ghost g0 = *chunk;
                grow_above_ground(chunk, lx, sy, ty, BlockType::SugarCane);
                proof {
                    if sy <= 127 {
                        assert forall|t: int| 1 <= t < ty + 1 implies #[trigger] chunk.spec_block_at(
                            lx as int,
                            stack_row(sy as int, t),
                        ) == BlockType::SugarCane by {
                            assert(g0.spec_block_at(lx as int, stack_row(sy as int, t)) == g0.spec_block_at(lx as int, stack_row(sy as int, t)));
                        }
                    }
                }
                ty = ty + 1;
            }
            // The cane now covers the cell over the ground, and the water's
            // edge keeps trees and flowers away: nothing else grows here.
            return;
        }
    }
    match b {
        BiomeType::Desert => {
            if h < 3 && inside {
                let lx = (wx - c_start) as usize;
                if sy != 0 && block_at_row(chunk, lx, sy - 1) == BlockType::Air {
                    let mut ty: i32 = 1;
                    while ty <= 3
                        invariant
                            only_plants_grew(orig, *chunk),
                            columns_kept_outside(orig, *chunk, k - 2, k - 2),
                            lx == k - 2,
                            lx < 32,
                            -1000 <= sy <= 1000,
                            1 <= ty <= 4,
                            1 <= sy <= 127 ==> forall|t: int| 1 <= t < ty ==> #[trigger] chunk.spec_block_at(
                                lx as int,
                                stack_row(sy as int, t),
                            ) == BlockType::Cactus,
                        decreases 4 - ty,
                    {
                        let ghost g0 = *chunk;
                        grow_above_ground(chunk, lx, sy, ty, BlockType::Cactus);
                        proof {
                            if 1 <= sy <= 127 {
                                assert forall|t: int| 1 <= t < ty + 1 implies #[trigger] chunk.spec_block_at(
                                    lx as int,
                                    stack_row(sy as int, t),
                                ) == BlockType::Cactus by {
                                    assert(g0.spec_block_at(lx as int, stack_row(sy as int, t)) == g0.spec_block_at(lx as int, stack_row(sy as int, t)));
                                }
                            }
                        }
                        ty = ty + 1;
                    }
                }
            } else if h < 6 && inside {
                let lx = (wx - c_start) as usize;
                if sy != 0 && block_at_row(chunk, lx, sy - 1) == BlockType::Air {
                    grow_above_ground(chunk, lx, sy, 1, BlockType::DeadBush);
                }
            }
        },
        BiomeType::Ocean | BiomeType::River => {},
        _ => {
            if !beach_column && !water_edge_column {
                let tree_limit: u32 = match b {
                    BiomeType::Forest => 15,
                    BiomeType::Taiga => 12,
                    BiomeType::Swamp => 10,
                    BiomeType::Jungle => 24,
                    BiomeType::ExtremeHills => 6,
                    BiomeType::Tundra => 4,
                    _ => 2,
                };
                let flora_limit: u32 = match b {
                    BiomeType::Taiga => 12,
                    BiomeType::Swamp => 26,
                    BiomeType::Jungle => 16,
                    BiomeType::ExtremeHills => 12,
                    _ => 20,
                };
                if h < tree_limit {
                    grow_tree(chunk, c_start, wx, sy, b, h);
                } else if h < flora_limit && inside {
                    let lx = (wx - c_start) as usize;
                    if sy != 0 && block_at_row(chunk, lx, sy - 1) == BlockType::Air {
                        let fl = flora_for(b, h);
                        let ground = block_at_row(chunk, lx, sy);
                        if !matches!(ground, BlockType::Water(_) | BlockType::Lava(_)) {
                            grow_above_ground(chunk, lx, sy, 1, fl);
                        }
                    }
                }
            }
        },
    }
}

/// Every entry before `k` whose column no earlier tree reaches holds its
/// own plant over its ground, where `orig` had air there.
#[verifier::opaque]
pub open spec fn plants_grown_before(
    orig: Chunk,
    now: Chunk,
    chunk_x: i32,
    biomes: Seq<BiomeType>,
    surfaces: Seq<i32>,
    beaches: Seq<bool>,
    edges: Seq<bool>,
    k: int,
) -> bool {
    forall|k2: int|
        2 <= k2 < 34 && k2 < k && no_tree_before(chunk_x, biomes, beaches, edges, k2) && 1 <= surfaces[k2] <= 127
            && orig.spec_block_at(k2 - 2, surfaces[k2] - 1) == BlockType::Air && (#[trigger] own_plant(
            biomes[k2],
            vegetation_roll(vegetation_column(chunk_x, k2)),
            beaches[k2],
            edges[k2],
            orig.spec_block_at(k2 - 2, surfaces[k2] as int),
        )) is Some ==> own_stack_grown(orig, now, chunk_x, biomes, surfaces, beaches, edges, k2)
}

/// Column `k - 2` of `now` holds, over the ground row of entry `k`, the
/// stack of that entry's own plant, as high as `own_stack_height` says;
/// ground and plant as in `orig`.
pub open spec fn own_stack_grown(
    orig: Chunk,
    now: Chunk,
    chunk_x: i32,
    biomes: Seq<BiomeType>,
    surfaces: Seq<i32>,
    beaches: Seq<bool>,
    edges: Seq<bool>,
    k: int,
) -> bool {
    let h = vegetation_roll(vegetation_column(chunk_x, k));
    let ground = orig.spec_block_at(k - 2, surfaces[k] as int);
    forall|t: int|
        1 <= t <= own_stack_height(biomes[k], h, beaches[k], edges[k], ground) ==> #[trigger] now.spec_block_at(
            k - 2,
            stack_row(surfaces[k] as int, t),
        ) == own_plant(biomes[k], h, beaches[k], edges[k], ground)->0
}

/// The columns of entries from `k` on that no earlier tree reaches are
/// still as in `orig`.
#[verifier::opaque]
pub open spec fn columns_untouched_from(
    orig: Chunk,
    now: Chunk,
    chunk_x: i32,
    biomes: Seq<BiomeType>,
    beaches: Seq<bool>,
    edges: Seq<bool>,
    k: int,
) -> bool {
    forall|k2: int, y: int|
        k <= k2 < 36 && no_tree_before(chunk_x, biomes, beaches, edges, k2) ==> #[trigger] now.spec_block_at(k2 - 2, y)
            == orig.spec_block_at(k2 - 2, y)
}

/// Growing entry `k` keeps both bookkeeping facts, one entry further on.
proof fn lemma_vegetation_step(
    orig: Chunk,
    before: Chunk,
    after: Chunk,
    chunk_x: i32,
    biomes: Seq<BiomeType>,
    surfaces: Seq<i32>,
    beaches: Seq<bool>,
    edges: Seq<bool>,
    k: int,
)
    requires
        0 <= k < 36,
        biomes.len() == 36,
        surfaces.len() == 36,
        beaches.len() == 36,
        edges.len() == 36,
        -0x3ff_ffff <= chunk_x <= 0x3ff_fffe,
        plants_grown_before(orig, before, chunk_x, biomes, surfaces, beaches, edges, k),
        columns_untouched_from(orig, before, chunk_x, biomes, beaches, edges, k),
        only_leaves_beside(before, after, k - 2),
        columns_kept_outside(before, after, k - 4, k),
        !grows_tree(biomes[k], vegetation_roll(vegetation_column(chunk_x, k)), beaches[k], edges[k])
            ==> columns_kept_outside(before, after, k - 2, k - 2),
        ({
            let ground = before.spec_block_at(k - 2, surfaces[k] as int);
            let p = own_plant(biomes[k], vegetation_roll(vegetation_column(chunk_x, k)), beaches[k], edges[k], ground);
            2 <= k < 34 && 1 <= surfaces[k] <= 127 && before.spec_block_at(k - 2, surfaces[k] - 1) == BlockType::Air
                && p is Some ==> forall|t: int|
                1 <= t <= own_stack_height(biomes[k], vegetation_roll(vegetation_column(chunk_x, k)), beaches[k], edges[k], ground)
                    ==> #[trigger] after.spec_block_at(k - 2, stack_row(surfaces[k] as int, t)) == p->0
        }),
    ensures
        plants_grown_before(orig, after, chunk_x, biomes, surfaces, beaches, edges, k + 1),
        columns_untouched_from(orig, after, chunk_x, biomes, beaches, edges, k + 1),
{
    reveal(plants_grown_before);
    reveal(columns_untouched_from);
    assert forall|k2: int|
        2 <= k2 < 34 && k2 < k + 1 && no_tree_before(chunk_x, biomes, beaches, edges, k2) && 1 <= surfaces[k2] <= 127
            && orig.spec_block_at(k2 - 2, surfaces[k2] - 1) == BlockType::Air && (#[trigger] own_plant(
            biomes[k2],
            vegetation_roll(vegetation_column(chunk_x, k2)),
            beaches[k2],
            edges[k2],
            orig.spec_block_at(k2 - 2, surfaces[k2] as int),
        )) is Some implies own_stack_grown(orig, after, chunk_x, biomes, surfaces, beaches, edges, k2) by {
        let sy2 = surfaces[k2] as int;
        let h2 = vegetation_roll(vegetation_column(chunk_x, k2));
        let ground2 = orig.spec_block_at(k2 - 2, sy2);
        let p2 = own_plant(biomes[k2], h2, beaches[k2], edges[k2], ground2);
        if k2 < k {
            assert(own_stack_grown(orig, before, chunk_x, biomes, surfaces, beaches, edges, k2));
            assert forall|t: int| 1 <= t <= own_stack_height(biomes[k2], h2, beaches[k2], edges[k2], ground2) implies #[trigger] after.spec_block_at(
                k2 - 2,
                stack_row(sy2, t),
            ) == p2->0 by {
                assert(before.spec_block_at(k2 - 2, stack_row(sy2, t)) == p2->0);
            }
        } else {
            assert(before.spec_block_at(k2 - 2, sy2 - 1) == orig.spec_block_at(k2 - 2, sy2 - 1));
            assert(before.spec_block_at(k2 - 2, sy2) == orig.spec_block_at(k2 - 2, sy2));
        }
    }
    assert forall|k2: int, y: int|
        k + 1 <= k2 < 36 && no_tree_before(chunk_x, biomes, beaches, edges, k2) implies #[trigger] after.spec_block_at(
        k2 - 2,
        y,
    ) == orig.spec_block_at(k2 - 2, y) by {
        assert(before.spec_block_at(k2 - 2, y) == orig.spec_block_at(k2 - 2, y));
        if k2 - 2 <= k {
            assert(!grows_tree(biomes[k], vegetation_roll(vegetation_column(chunk_x, k)), beaches[k], edges[k]));
        }
    }
}

/// Grows the plants of the chunk of column `chunk_x`. Entry `k` of
/// `biome_by_wx`, `surface_y_by_wx`, `beach_by_wx` and `water_edge_by_wx`
/// describes world column `chunk_x * 32 - 2 + k`: its climate, its ground
/// row, whether it is beach, and whether it touches surface water. Each
/// entry, from left to right, grows by its roll what `own_plant` says on
/// the cell over its ground, if that cell is air; trees also spread
/// leaves, into air only, up to two columns to each side. Only plant
/// blocks, trunks and leaves appear, leaves only in air, and dirt only
/// where snow lay under a new tree. Where no tree grows in the two columns
/// before it, a column's own plant is certain and stacks over its ground
/// as high as `own_stack_height` says: a trunk its tree's height, sugar
/// cane one to three cells, a cactus three.
pub fn plant_overworld_vegetation(
    chunk: &mut Chunk,
    chunk_x: i32,
    biome_by_wx: &[BiomeType; 36],
    surface_y_by_wx: &[i32; 36],
    beach_by_wx: &[bool; 36],
    water_edge_by_wx: &[bool; 36],
)
    requires
        old(chunk).wf(),
        -0x3ff_ffff <= chunk_x <= 0x3ff_fffe,
        forall|k: int| 0 <= k < 36 ==> -1000 <= #[trigger] surface_y_by_wx@[k] <= 1000,
    ensures
        only_plants_grew(*old(chunk), *final(chunk)),
        (forall|k: int| 0 <= k < 36 ==> #[trigger] biome_by_wx@[k] == BiomeType::Ocean) ==> *final(chunk)
            == *old(chunk),
        forall|k: int|
            2 <= k < 34 && no_tree_before(chunk_x, biome_by_wx@, beach_by_wx@, water_edge_by_wx@, k) && 1
                <= surface_y_by_wx@[k] <= 127 && old(chunk).spec_block_at(k - 2, surface_y_by_wx@[k] - 1)
                == BlockType::Air && (#[trigger] own_plant(
                biome_by_wx@[k],
                vegetation_roll(vegetation_column(chunk_x, k)),
                beach_by_wx@[k],
                water_edge_by_wx@[k],
                old(chunk).spec_block_at(k - 2, surface_y_by_wx@[k] as int),
            )) is Some ==> own_stack_grown(
                *old(chunk),
                *final(chunk),
                chunk_x,
                biome_by_wx@,
                surface_y_by_wx@,
                beach_by_wx@,
                water_edge_by_wx@,
                k,
            ),
{
    let ghost orig = *chunk;
    let c_start = chunk_x * CHUNK_WIDTH as i32;
    assert(-0x7fff_ffe0 <= c_start <= 0x7fff_ffc0) by (nonlinear_arith)
        requires
            c_start == chunk_x * 32,
            -0x3ff_ffff <= chunk_x <= 0x3ff_fffe,
    ;
    proof {
        reveal(plants_grown_before);
        reveal(columns_untouched_from);
    }
    let mut k: usize = 0;
    while k < VEGETATION_SPAN
        invariant
            only_plants_grew(orig, *chunk),
            orig == *old(chunk),
            (forall|k: int| 0 <= k < 36 ==> #[trigger] biome_by_wx@[k] == BiomeType::Ocean) ==> *chunk == orig,
            -0x7fff_ffe0 <= c_start <= 0x7fff_ffc0,
            -0x3ff_ffff <= chunk_x <= 0x3ff_fffe,
            c_start == chunk_x * 32,
            k <= 36,
            forall|k: int| 0 <= k < 36 ==> -1000 <= #[trigger] surface_y_by_wx@[k] <= 1000,
            plants_grown_before(orig, *chunk, chunk_x, biome_by_wx@, surface_y_by_wx@, beach_by_wx@, water_edge_by_wx@, k as int),
            columns_untouched_from(orig, *chunk, chunk_x, biome_by_wx@, beach_by_wx@, water_edge_by_wx@, k as int),
        decreases 36 - k,
    {
        let ghost before = *chunk;
        grow_column(
            chunk,
            c_start,
            k,
            biome_by_wx[k],
            surface_y_by_wx[k],
            beach_by_wx[k],
            water_edge_by_wx[k],
        );
        proof {
            assert(vegetation_column(chunk_x, k as int) == (c_start - 2 + k) as i32);
            lemma_vegetation_step(
                orig,
                before,
                *chunk,
                chunk_x,
                biome_by_wx@,
                surface_y_by_wx@,
                beach_by_wx@,
                water_edge_by_wx@,
                k as int,
            );
        }
        k = k + 1;
    }
    proof {
        reveal(plants_grown_before);
    }
}

} // verus!
