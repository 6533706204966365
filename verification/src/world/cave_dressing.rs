use vstd::prelude::*;
use super::block::BlockType;
use super::caves::{put_cell, OVERWORLD_CAVE_MIN_SURFACE_DEPTH};
use super::chunk::{Chunk, CHUNK_HEIGHT, CHUNK_WIDTH};
use super::stronghold::same_chunk_frame;

verus! {

/// How far below the surface a cave floor may turn to gravel or dirt.
pub const OVERWORLD_CAVE_FLOOR_VARIATION_MIN_DEPTH: i32 = 12;

/// How far below the surface a cave may hold a pool.
pub const OVERWORLD_CAVE_POOL_MIN_DEPTH: i32 = 20;

/// How far below the surface a cave pool holds lava in place of water.
pub const OVERWORLD_CAVE_POOL_LAVA_DEPTH: i32 = 56;

/// The number of cells of a chunk, the length of a per-cell plan.
pub const CHUNK_CELLS: usize = 4096;

/// Whether (x, y) is a cell the cave dressing looks at: cave air in an
/// inner column that no surface water covers, at least six rows under the
/// surface (and between rows 2 and 124), standing on something.
pub open spec fn dressing_origin(c: Chunk, surface: Seq<i32>, water: Seq<bool>, x: int, y: int) -> bool {
    let low = surface[x] + OVERWORLD_CAVE_MIN_SURFACE_DEPTH + 1;
    let min_y = if low < 2 {
        2
    } else if low > 124 {
        124
    } else {
        low
    };
    &&& 2 <= x < 30
    &&& !water[x]
    &&& min_y <= y <= 124
    &&& c.spec_block_at(x, y) == BlockType::Air
    &&& c.spec_block_at(x, y + 1) != BlockType::Air
}

/// What the stone floor cell (x, y) turns into: the planned block of the
/// air cell above it, where that air is a dressing origin deep enough for
/// floor variation.
pub open spec fn floor_dressing(
    c: Chunk,
    surface: Seq<i32>,
    water: Seq<bool>,
    plan: Seq<Option<BlockType>>,
    x: int,
    y: int,
) -> Option<BlockType> {
    if dressing_origin(c, surface, water, x, y - 1) && (y - 1) - surface[x]
        >= OVERWORLD_CAVE_FLOOR_VARIATION_MIN_DEPTH && c.spec_block_at(x, y) == BlockType::Stone {
        plan[(y - 1) * 32 + x]
    } else {
        None
    }
}

/// Whether a block is solid at (x, y) or just under it.
pub open spec fn wall_near(c: Chunk, x: int, y: int) -> bool {
    c.spec_block_at(x, y).spec_is_solid() || c.spec_block_at(x, y + 1).spec_is_solid()
}

/// Whether the cave air at (x, y) starts a pool three cells wide: deep
/// enough, away from the chunk's edges, with air on both sides, a solid
/// floor under all three cells, a wall within two or three columns on each
/// side, and its gate open.
pub open spec fn pool_origin(c: Chunk, surface: Seq<i32>, water: Seq<bool>, gates: Seq<bool>, x: int, y: int) -> bool {
    &&& dressing_origin(c, surface, water, x, y)
    &&& y - surface[x] >= OVERWORLD_CAVE_POOL_MIN_DEPTH
    &&& 4 <= x < 28
    &&& c.spec_block_at(x - 1, y) == BlockType::Air
    &&& c.spec_block_at(x + 1, y) == BlockType::Air
    &&& c.spec_block_at(x - 1, y + 1).spec_is_solid()
    &&& c.spec_block_at(x, y + 1).spec_is_solid()
    &&& c.spec_block_at(x + 1, y + 1).spec_is_solid()
    &&& (wall_near(c, x - 2, y) || wall_near(c, x - 3, y))
    &&& (wall_near(c, x + 2, y) || wall_near(c, x + 3, y))
    &&& gates[y * 32 + x]
}

/// The fluid of the pool that starts at (x, y): lava deep down or near the
/// bottom of the world, water elsewhere.
pub open spec fn pool_fluid(surface: Seq<i32>, x: int, y: int) -> BlockType {
    if y - surface[x] >= OVERWORLD_CAVE_POOL_LAVA_DEPTH || y > 102 {
        BlockType::Lava(8)
    } else {
        BlockType::Water(8)
    }
}

/// The fluid that fills (x, y): that of the leftmost pool covering it.
pub open spec fn pool_at(c: Chunk, surface: Seq<i32>, water: Seq<bool>, gates: Seq<bool>, x: int, y: int) -> Option<
    BlockType,
> {
    if pool_origin(c, surface, water, gates, x - 1, y) {
        Some(pool_fluid(surface, x - 1, y))
    } else if pool_origin(c, surface, water, gates, x, y) {
        Some(pool_fluid(surface, x, y))
    } else if pool_origin(c, surface, water, gates, x + 1, y) {
        Some(pool_fluid(surface, x + 1, y))
    } else {
        None
    }
}

/// The block at (x, y) once the caves of `c` are dressed.
pub open spec fn dressed_cell(
    c: Chunk,
    surface: Seq<i32>,
    water: Seq<bool>,
    plan: Seq<Option<BlockType>>,
    gates: Seq<bool>,
    x: int,
    y: int,
) -> BlockType {
    match pool_at(c, surface, water, gates, x, y) {
        Some(f) => f,
        None => match floor_dressing(c, surface, water, plan, x, y) {
            Some(b) => b,
            None => c.spec_block_at(x, y),
        },
    }
}

fn is_dressing_origin(chunk: &Chunk, surface: &[i32; 32], water: &[bool; 32], x: usize, y: usize) -> (r: bool)
    requires
        chunk.wf(),
        x < 32,
        y < 128,
    ensures
        r == dressing_origin(*chunk, surface@, water@, x as int, y as int),
{
    let low = surface[x] as i64 + OVERWORLD_CAVE_MIN_SURFACE_DEPTH as i64 + 1;
    let min_y: i64 = if low < 2 {
        2
    } else if low > 124 {
        124
    } else {
        low
    };
    2 <= x && x < 30 && !water[x] && min_y <= y as i64 && y <= 124 && chunk.get_block(x, y) == BlockType::Air
        && chunk.get_block(x, y + 1) != BlockType::Air
}

fn is_wall_near(chunk: &Chunk, x: usize, y: usize) -> (r: bool)
    requires
        chunk.wf(),
        y < 128,
    ensures
        r == wall_near(*chunk, x as int, y as int),
{
    chunk.get_block(x, y).is_solid() || chunk.get_block(x, y + 1).is_solid()
}

fn is_pool_origin(
    chunk: &Chunk,
    surface: &[i32; 32],
    water: &[bool; 32],
    gates: &Vec<bool>,
    x: usize,
    y: usize,
) -> (r: bool)
    requires
        chunk.wf(),
        gates@.len() == CHUNK_CELLS,
        x < 32,
        y < 128,
    ensures
        r == pool_origin(*chunk, surface@, water@, gates@, x as int, y as int),
{
    if !(4 <= x && x < 28) || !is_dressing_origin(chunk, surface, water, x, y) {
        return false;
    }
    y as i64 - surface[x] as i64 >= OVERWORLD_CAVE_POOL_MIN_DEPTH as i64 && chunk.get_block(x - 1, y)
        == BlockType::Air && chunk.get_block(x + 1, y) == BlockType::Air && chunk.get_block(
        x - 1,
        y + 1,
    ).is_solid() && chunk.get_block(x, y + 1).is_solid() && chunk.get_block(x + 1, y + 1).is_solid()
        && (is_wall_near(chunk, x - 2, y) || is_wall_near(chunk, x - 3, y)) && (is_wall_near(
        chunk,
        x + 2,
        y,
    ) || is_wall_near(chunk, x + 3, y)) && gates[y * CHUNK_WIDTH + x]
}

fn fluid_of_pool(surface: &[i32; 32], x: usize, y: usize) -> (r: BlockType)
    requires
        x < 32,
        y < 128,
    ensures
        r == pool_fluid(surface@, x as int, y as int),
{
    if y as i64 - surface[x] as i64 >= OVERWORLD_CAVE_POOL_LAVA_DEPTH as i64 || y > 102 {
        BlockType::Lava(8)
    } else {
        BlockType::Water(8)
    }
}

fn dressed_block(
    chunk: &Chunk,
    surface: &[i32; 32],
    water: &[bool; 32],
    plan: &Vec<Option<BlockType>>,
    gates: &Vec<bool>,
    x: usize,
    y: usize,
) -> (r: BlockType)
    requires
        chunk.wf(),
        plan@.len() == CHUNK_CELLS,
        gates@.len() == CHUNK_CELLS,
        x < 32,
        y < 128,
    ensures
        r == dressed_cell(*chunk, surface@, water@, plan@, gates@, x as int, y as int),
{
    if x >= 1 && is_pool_origin(chunk, surface, water, gates, x - 1, y) {
        return fluid_of_pool(surface, x - 1, y);
    }
    if is_pool_origin(chunk, surface, water, gates, x, y) {
        return fluid_of_pool(surface, x, y);
    }
    if x + 1 < CHUNK_WIDTH && is_pool_origin(chunk, surface, water, gates, x + 1, y) {
        return fluid_of_pool(surface, x + 1, y);
    }
    if y >= 1 && is_dressing_origin(chunk, surface, water, x, y - 1) && (y - 1) as i64 - surface[x] as i64
        >= OVERWORLD_CAVE_FLOOR_VARIATION_MIN_DEPTH as i64 && chunk.get_block(x, y) == BlockType::Stone {
        if let Some(b) = plan[(y - 1) * CHUNK_WIDTH + x] {
            return b;
        }
    }
    chunk.get_block(x, y)
}

/// Writes `cells[y * 32 + x]` into every cell (x, y) of the chunk.
fn write_cells(chunk: &mut Chunk, cells: &Vec<BlockType>)
    requires
        old(chunk).wf(),
        cells@.len() == CHUNK_CELLS,
    ensures
        same_chunk_frame(*old(chunk), *final(chunk)),
        forall|x: int, y: int| 0 <= x < 32 && 0 <= y < 128 ==> #[trigger] final(chunk).spec_block_at(x, y)
            == cells@[y * 32 + x],
        forall|x: int, y: int| !(0 <= x < 32 && 0 <= y < 128) ==> #[trigger] final(chunk).spec_block_at(x, y)
            == old(chunk).spec_block_at(x, y),
{
    let ghost orig = *chunk;
    let mut i: usize = 0;
    while i < CHUNK_CELLS
        invariant
            same_chunk_frame(orig, *chunk),
            orig.wf(),
            i <= CHUNK_CELLS,
            cells@.len() == CHUNK_CELLS,
            forall|x: int, y: int| 0 <= x < 32 && 0 <= y < 128 && y * 32 + x < i ==> #[trigger] chunk.spec_block_at(x, y)
                == cells@[y * 32 + x],
            forall|x: int, y: int| !(0 <= x < 32 && 0 <= y < 128 && y * 32 + x < i) ==> #[trigger] chunk.spec_block_at(x, y)
                == orig.spec_block_at(x, y),
        decreases CHUNK_CELLS - i,
    {
        let x = i % CHUNK_WIDTH;
        let y = i / CHUNK_WIDTH;
        if cells[i] != chunk.get_block(x, y) {
            put_cell(chunk, x, y, cells[i]);
        }
        i = i + 1;
    }
}

/// Dresses the caves of a freshly carved overworld chunk. `floor_plan`
/// gives, for each cell, what the stone floor under it becomes when that
/// cell is cave air deep enough for floor variation (gravel, dirt, or
/// nothing); `pool_gates` says, for each cell, whether a pool may start
/// there. Every cell ends as `dressed_cell` says of the chunk as it was:
/// the fluid of the leftmost pool covering it, else its floor dressing,
/// else what it held.
pub fn dress_overworld_caves(
    chunk: &mut Chunk,
    surface_y_by_x: &[i32; 32],
    surface_water_by_x: &[bool; 32],
    floor_plan: &Vec<Option<BlockType>>,
    pool_gates: &Vec<bool>,
)
    requires
        old(chunk).wf(),
        floor_plan@.len() == CHUNK_CELLS,
        pool_gates@.len() == CHUNK_CELLS,
    ensures
        same_chunk_frame(*old(chunk), *final(chunk)),
        forall|x: int, y: int| #[trigger] final(chunk).spec_block_at(x, y) == dressed_cell(
            *old(chunk),
            surface_y_by_x@,
            surface_water_by_x@,
            floor_plan@,
            pool_gates@,
            x,
            y,
        ),
{
    let ghost orig = *chunk;
    // Every cell's outcome is worked out on the chunk as it was, before any
    // of them is written.
    let mut dressed: Vec<BlockType> = Vec::new();
    let mut i: usize = 0;
    while i < CHUNK_CELLS
        invariant
            *chunk == orig,
            orig.wf(),
            floor_plan@.len() == CHUNK_CELLS,
            pool_gates@.len() == CHUNK_CELLS,
            i <= CHUNK_CELLS,
            dressed@.len() == i,
            forall|j: int| 0 <= j < i ==> #[trigger] dressed@[j] == dressed_cell(
                orig,
                surface_y_by_x@,
                surface_water_by_x@,
                floor_plan@,
                pool_gates@,
                j % 32,
                j / 32,
            ),
        decreases CHUNK_CELLS - i,
    {
        let b = dressed_block(chunk, surface_y_by_x, surface_water_by_x, floor_plan, pool_gates, i % CHUNK_WIDTH, i / CHUNK_WIDTH);
        dressed.push(b);
        i = i + 1;
    }
    write_cells(chunk, &dressed);
    proof {
        assert forall|x: int, y: int| #[trigger] chunk.spec_block_at(x, y) == dressed_cell(
            orig,
            surface_y_by_x@,
            surface_water_by_x@,
            floor_plan@,
            pool_gates@,
            x,
            y,
        ) by {
            if 0 <= x < 32 && 0 <= y < 128 {
                assert((y * 32 + x) % 32 == x && (y * 32 + x) / 32 == y) by (nonlinear_arith)
                    requires 0 <= x < 32, 0 <= y < 128;
                assert(chunk.spec_block_at(x, y) == dressed@[y * 32 + x]);
            }
        }
    }
}

/// The highest row at which ore shows in cave walls.
pub const OVERWORLD_VISIBLE_ORE_MIN_Y: i32 = 40;

/// The ore that the stone at (x, y) turns into: the planned ore of the
/// cell, where the cell is stone next to air (left, right, above or
/// below), in a column with no surface water and away from the chunk's
/// side edges, at least seven rows under the surface, from row 40 down to
/// row 119.
pub open spec fn exposed_ore(c: Chunk, surface: Seq<i32>, water: Seq<bool>, plan: Seq<Option<BlockType>>, x: int, y: int) -> Option<
    BlockType,
> {
    let min_y = if surface[x] + 7 > OVERWORLD_VISIBLE_ORE_MIN_Y {
        surface[x] + 7
    } else {
        OVERWORLD_VISIBLE_ORE_MIN_Y as int
    };
    if 1 <= x < 31 && !water[x] && min_y <= y < 120 && c.spec_block_at(x, y) == BlockType::Stone && (
    c.spec_block_at(x - 1, y) == BlockType::Air || c.spec_block_at(x + 1, y) == BlockType::Air
        || c.spec_block_at(x, y - 1) == BlockType::Air || c.spec_block_at(x, y + 1) == BlockType::Air) {
        plan[y * 32 + x]
    } else {
        None
    }
}

/// The block at (x, y) once the exposed ores of `c` are placed.
pub open spec fn ore_refined_cell(c: Chunk, surface: Seq<i32>, water: Seq<bool>, plan: Seq<Option<BlockType>>, x: int, y: int) -> BlockType {
    match exposed_ore(c, surface, water, plan, x, y) {
        Some(b) => b,
        None => c.spec_block_at(x, y),
    }
}

fn ore_refined_block(
    chunk: &Chunk,
    surface: &[i32; 32],
    water: &[bool; 32],
    plan: &Vec<Option<BlockType>>,
    x: usize,
    y: usize,
) -> (r: BlockType)
    requires
        chunk.wf(),
        plan@.len() == CHUNK_CELLS,
        x < 32,
        y < 128,
    ensures
        r == ore_refined_cell(*chunk, surface@, water@, plan@, x as int, y as int),
{
    let current = chunk.get_block(x, y);
    if x < 1 || x >= CHUNK_WIDTH - 1 || water[x] || current != BlockType::Stone || y >= 120 {
        return current;
    }
    let deep = surface[x] as i64 + 7;
    let min_y: i64 = if deep > OVERWORLD_VISIBLE_ORE_MIN_Y as i64 {
        deep
    } else {
        OVERWORLD_VISIBLE_ORE_MIN_Y as i64
    };
    if (y as i64) < min_y {
        return current;
    }
    let cave_exposed = chunk.get_block(x - 1, y) == BlockType::Air || chunk.get_block(x + 1, y) == BlockType::Air
        || chunk.get_block(x, y - 1) == BlockType::Air || chunk.get_block(x, y + 1) == BlockType::Air;
    if !cave_exposed {
        return current;
    }
    match plan[y * CHUNK_WIDTH + x] {
        Some(b) => b,
        None => current,
    }
}

/// Shows ore in the cave walls of a freshly carved overworld chunk:
/// `ore_plan` gives, for each cell, the ore it would hold (or none). Every
/// cell ends as `ore_refined_cell` says of the chunk as it was: exposed
/// stone takes its planned ore, all else stays.
pub fn refine_overworld_exposed_ores(
    chunk: &mut Chunk,
    surface_y_by_x: &[i32; 32],
    surface_water_by_x: &[bool; 32],
    ore_plan: &Vec<Option<BlockType>>,
)
    requires
        old(chunk).wf(),
        ore_plan@.len() == CHUNK_CELLS,
    ensures
        same_chunk_frame(*old(chunk), *final(chunk)),
        forall|x: int, y: int| #[trigger] final(chunk).spec_block_at(x, y) == ore_refined_cell(
            *old(chunk),
            surface_y_by_x@,
            surface_water_by_x@,
            ore_plan@,
            x,
            y,
        ),
{
    let ghost orig = *chunk;
    // Ore takes the place of stone only, so no cell's neighbours stop or
    // start being air meanwhile; working every cell out first gives the
    // same result.
    let mut refined: Vec<BlockType> = Vec::new();
    let mut i: usize = 0;
    while i < CHUNK_CELLS
        invariant
            *chunk == orig,
            orig.wf(),
            ore_plan@.len() == CHUNK_CELLS,
            i <= CHUNK_CELLS,
            refined@.len() == i,
            forall|j: int| 0 <= j < i ==> #[trigger] refined@[j] == ore_refined_cell(
                orig,
                surface_y_by_x@,
                surface_water_by_x@,
                ore_plan@,
                j % 32,
                j / 32,
            ),
        decreases CHUNK_CELLS - i,
    {
        let b = ore_refined_block(chunk, surface_y_by_x, surface_water_by_x, ore_plan, i % CHUNK_WIDTH, i / CHUNK_WIDTH);
        refined.push(b);
        i = i + 1;
    }
    write_cells(chunk, &refined);
    proof {
        assert forall|x: int, y: int| #[trigger] chunk.spec_block_at(x, y) == ore_refined_cell(
            orig,
            surface_y_by_x@,
            surface_water_by_x@,
            ore_plan@,
            x,
            y,
        ) by {
            if 0 <= x < 32 && 0 <= y < 128 {
                assert((y * 32 + x) % 32 == x && (y * 32 + x) / 32 == y) by (nonlinear_arith)
                    requires 0 <= x < 32, 0 <= y < 128;
                assert(chunk.spec_block_at(x, y) == refined@[y * 32 + x]);
            }
        }
    }
}

} // verus!
