use vstd::prelude::*;
use super::block::BlockType;
use super::chunk::{Chunk, CHUNK_HEIGHT, CHUNK_WIDTH, cell_index, in_chunk};

verus! {

/// Rows of rock kept between the surface of a column and cave air counted
/// as part of the cave network.
pub const OVERWORLD_CAVE_MIN_SURFACE_DEPTH: i32 = 5;

/// The widest rock wall between two cave floors that gets bridged.
pub const OVERWORLD_CAVE_BRIDGE_MAX_WALL_WIDTH: usize = 3;

/// The smallest drop a stair connector descends.
pub const OVERWORLD_CAVE_STAIR_MIN_DROP: usize = 3;

/// The largest drop a stair connector descends.
pub const OVERWORLD_CAVE_STAIR_MAX_DROP: usize = 6;

/// How many walkable cells around a floor cell make it open enough to be
/// linked to another.
pub const OVERWORLD_CAVE_CONNECTOR_MIN_OPEN_SCORE: usize = 3;

/// How many times short dead ends are filled in.
pub const OVERWORLD_CAVE_DEAD_END_TRIM_PASSES: usize = 2;

/// The most cave air around a floor cell of a dead end that is filled in.
pub const OVERWORLD_CAVE_DEAD_END_MAX_LOCAL_AIR_SCORE: usize = 6;

/// Whether (x, y) of chunk `c` is cave air: air deeper than five rows under
/// the surface `sy` of a column without surface water (`sw`).
pub open spec fn dry_cave_air(c: Chunk, sy: Seq<i32>, sw: Seq<bool>, x: int, y: int) -> bool {
    0 <= x < 32 && 0 <= y < 128 && !sw[x] && y > sy[x] + 5 && c.spec_block_at(x, y) == BlockType::Air
}

/// Whether (x, y) of chunk `c` is a cave floor cell one can stand in: it
/// and the cell above are cave air, and the cell below is solid.
pub open spec fn walkable_cave_cell(c: Chunk, sy: Seq<i32>, sw: Seq<bool>, x: int, y: int) -> bool {
    &&& 0 < y
    &&& y + 1 < 128
    &&& dry_cave_air(c, sy, sw, x, y)
    &&& dry_cave_air(c, sy, sw, x, y - 1)
    &&& c.spec_block_at(x, y + 1).spec_is_solid()
}

/// What refining the caves may do to a cell: leave it, fill cave air with
/// stone, or clear anything but water and lava to air.
pub open spec fn cave_edit_ok(before: BlockType, after: BlockType) -> bool {
    before == after || (before == BlockType::Air && after == BlockType::Stone) || (!before.spec_is_fluid()
        && after == BlockType::Air)
}

/// The cells refining the caves may touch: none on the chunk's outer
/// columns or on its top and bottom rows.
pub open spec fn inner_cave_cell(x: int, y: int) -> bool {
    1 <= x <= 30 && 1 <= y <= 126
}

/// Filling in dead ends turns cave air into stone and nothing else.
pub open spec fn trim_ok(before: BlockType, after: BlockType) -> bool {
    before == after || (before == BlockType::Air && after == BlockType::Stone)
}

/// Cells of `now` are those of `orig` or, when `trim`, filled in; outside the
/// inner cells nothing differs.
pub open spec fn trimmed_from(orig: Chunk, now: Chunk) -> bool {
    &&& forall|x: int, y: int| in_chunk(x, y) ==> #[trigger] trim_ok(orig.spec_block_at(x, y), now.spec_block_at(x, y))
    &&& forall|x: int, y: int| !inner_cave_cell(x, y) ==> #[trigger] now.spec_block_at(x, y) == orig.spec_block_at(x, y)
}

/// Cells of `now` are those of `mid` or cleared to air where `mid` held no
/// fluid; outside the inner cells nothing differs.
pub open spec fn carved_from(mid: Chunk, now: Chunk) -> bool {
    &&& forall|x: int, y: int| #[trigger] now.spec_block_at(x, y) == mid.spec_block_at(x, y) || (!mid.spec_block_at(
        x,
        y,
    ).spec_is_fluid() && now.spec_block_at(x, y) == BlockType::Air)
    &&& forall|x: int, y: int| !inner_cave_cell(x, y) ==> #[trigger] now.spec_block_at(x, y) == mid.spec_block_at(x, y)
}

/// How many cells of column `x`, rows `y0` up to (not including) `y1`,
/// satisfy `p`.
pub open spec fn column_count(p: spec_fn(int, int) -> bool, x: int, y0: int, y1: int) -> nat
    decreases y1 - y0,
{
    if y1 <= y0 {
        0
    } else {
        column_count(p, x, y0, y1 - 1) + if p(x, y1 - 1) {
            1nat
        } else {
            0nat
        }
    }
}

/// How many cells of columns `x0` up to `x1` and rows `y0` up to `y1`
/// (neither end included) satisfy `p`.
pub open spec fn box_count(p: spec_fn(int, int) -> bool, x0: int, x1: int, y0: int, y1: int) -> nat
    decreases x1 - x0,
{
    if x1 <= x0 {
        0
    } else {
        box_count(p, x0, x1 - 1, y0, y1) + column_count(p, x1 - 1, y0, y1)
    }
}

/// How many cave floor cells lie within two columns (inside the chunk)
/// and one row (off the chunk's two bottom rows) of (x, y).
pub open spec fn walkable_score(c: Chunk, sy: Seq<i32>, sw: Seq<bool>, x: int, y: int) -> nat {
    let min_x = if x >= 2 { x - 2 } else { 0 };
    let max_x = if x + 2 < 31 { x + 2 } else { 31 };
    let min_y = if y >= 1 { y - 1 } else { 0 };
    let max_y = if y + 1 < 126 { y + 1 } else { 126 };
    box_count(|a: int, b: int| walkable_cave_cell(c, sy, sw, a, b), min_x, max_x + 1, min_y, max_y + 1)
}

/// How much cave air lies within two columns (inside the chunk), two rows
/// above and one row below (inside the chunk) of (x, y).
pub open spec fn dry_air_score(c: Chunk, sy: Seq<i32>, sw: Seq<bool>, x: int, y: int) -> nat {
    let min_x = if x >= 2 { x - 2 } else { 0 };
    let max_x = if x + 2 < 31 { x + 2 } else { 31 };
    let min_y = if y >= 2 { y - 2 } else { 0 };
    let max_y = if y + 1 < 127 { y + 1 } else { 127 };
    box_count(|a: int, b: int| dry_cave_air(c, sy, sw, a, b), min_x, max_x + 1, min_y, max_y + 1)
}

/// Whether (x, y) is the floor of a short dead end: a cave floor cell with
/// at most one floor cell beside it and little cave air around it.
pub open spec fn cave_dead_end(c: Chunk, sy: Seq<i32>, sw: Seq<bool>, x: int, y: int) -> bool {
    &&& walkable_cave_cell(c, sy, sw, x, y)
    &&& (if walkable_cave_cell(c, sy, sw, x - 1, y) { 1int } else { 0 }) + (if walkable_cave_cell(c, sy, sw, x + 1, y) {
        1int
    } else {
        0
    }) <= 1
    &&& dry_air_score(c, sy, sw, x, y) <= OVERWORLD_CAVE_DEAD_END_MAX_LOCAL_AIR_SCORE
}

/// Places `b` at (x, y) of the chunk; every other cell stays.
pub(crate) fn put_cell(chunk: &mut Chunk, x: usize, y: usize, b: BlockType)
    requires
        old(chunk).wf(),
        x < 32,
        y < 128,
    ensures
        final(chunk).wf(),
        final(chunk).view_x() == old(chunk).view_x(),
        final(chunk).spec_save_key() == old(chunk).spec_save_key(),
        forall|x2: int, y2: int| #[trigger] final(chunk).spec_block_at(x2, y2) == if x2 == x && y2 == y {
            b
        } else {
            old(chunk).spec_block_at(x2, y2)
        },
        old(chunk).spec_block_at(x as int, y as int) != BlockType::Chest && b == BlockType::Chest
            ==> (final(chunk).view_chests()[cell_index(x as int, y as int)] matches Some(inv) && inv.capacity == 27
            && inv.slots@ == Seq::new(27, |i: int| None::<super::inventory::ItemStack>)),
        forall|i: int| 0 <= i < old(chunk).view_chests().len() && i != cell_index(x as int, y as int) ==> #[trigger] final(chunk).view_chests()[i]
            == old(chunk).view_chests()[i],
{
    proof {
        old(chunk).lemma_wf_views();
    }
    chunk.set_block(x, y, b);
    proof {
        chunk.lemma_wf_views();
        assert forall|x2: int, y2: int| #[trigger] chunk.spec_block_at(x2, y2) == if x2 == x && y2 == y {
            b
        } else {
            old(chunk).spec_block_at(x2, y2)
        } by {
            if in_chunk(x2, y2) && !(x2 == x && y2 == y) {
                assert(cell_index(x2, y2) != cell_index(x as int, y as int));
            }
        }
    }
}

/// Whether (x, y) is cave air.
fn is_overworld_dry_cave_air(
    chunk: &Chunk,
    surface_y_by_x: &[i32; 32],
    surface_water_by_x: &[bool; 32],
    x: usize,
    y: usize,
) -> (r: bool)
    requires
        chunk.wf(),
    ensures
        r == dry_cave_air(*chunk, surface_y_by_x@, surface_water_by_x@, x as int, y as int),
{
    if x >= CHUNK_WIDTH || y >= CHUNK_HEIGHT || surface_water_by_x[x] {
        return false;
    }
    y as i64 > surface_y_by_x[x] as i64 + OVERWORLD_CAVE_MIN_SURFACE_DEPTH as i64 && chunk.get_block(x, y)
        == BlockType::Air
}

/// Whether (x, y) is a cave floor cell one can stand in.
fn is_overworld_walkable_cave_cell(
    chunk: &Chunk,
    surface_y_by_x: &[i32; 32],
    surface_water_by_x: &[bool; 32],
    x: usize,
    y: usize,
) -> (r: bool)
    requires
        chunk.wf(),
        y < 128,
    ensures
        r == walkable_cave_cell(*chunk, surface_y_by_x@, surface_water_by_x@, x as int, y as int),
{
    y > 0 && y + 1 < CHUNK_HEIGHT && is_overworld_dry_cave_air(chunk, surface_y_by_x, surface_water_by_x, x, y)
        && is_overworld_dry_cave_air(chunk, surface_y_by_x, surface_water_by_x, x, y - 1) && chunk.get_block(
        x,
        y + 1,
    ).is_solid()
}

/// How many cave floor cells lie within two columns and one row of (x, y).
fn overworld_walkable_cave_local_score(
    chunk: &Chunk,
    surface_y_by_x: &[i32; 32],
    surface_water_by_x: &[bool; 32],
    x: usize,
    y: usize,
) -> (r: usize)
    requires
        chunk.wf(),
        x < 32,
        y < 128,
    ensures
        r <= 15,
        r == walkable_score(*chunk, surface_y_by_x@, surface_water_by_x@, x as int, y as int),
{
    let ghost p = |a: int, b: int| walkable_cave_cell(*chunk, surface_y_by_x@, surface_water_by_x@, a, b);
    let min_x: usize = if x >= 2 { x - 2 } else { 0 };
    let max_x: usize = if x + 2 < CHUNK_WIDTH - 1 { x + 2 } else { CHUNK_WIDTH - 1 };
    let min_y: usize = if y >= 1 { y - 1 } else { 0 };
    let max_y: usize = if y + 1 < CHUNK_HEIGHT - 2 { y + 1 } else { CHUNK_HEIGHT - 2 };
    let mut score: usize = 0;
    let mut sample_x: usize = min_x;
    while sample_x <= max_x
        invariant
            chunk.wf(),
            p == (|a: int, b: int| walkable_cave_cell(*chunk, surface_y_by_x@, surface_water_by_x@, a, b)),
            score == box_count(p, min_x as int, sample_x as int, min_y as int, max_y + 1),
            min_x <= sample_x <= max_x + 1,
            max_x < 32,
            max_x <= min_x + 4,
            min_y <= max_y + 1,
            max_y < 127,
            max_y <= min_y + 2,
            score <= 3 * (sample_x - min_x),
        decreases max_x + 1 - sample_x,
    {
        let mut sample_y: usize = min_y;
        while sample_y <= max_y
            invariant
                chunk.wf(),
                min_x <= sample_x <= max_x,
                max_x < 32,
                max_x <= min_x + 4,
                min_y <= sample_y <= max_y + 1,
                max_y < 127,
                max_y <= min_y + 2,
                score <= 3 * (sample_x - min_x) + (sample_y - min_y),
                p == (|a: int, b: int| walkable_cave_cell(*chunk, surface_y_by_x@, surface_water_by_x@, a, b)),
                score == box_count(p, min_x as int, sample_x as int, min_y as int, max_y + 1) + column_count(
                    p,
                    sample_x as int,
                    min_y as int,
                    sample_y as int,
                ),
            decreases max_y + 1 - sample_y,
        {
            if is_overworld_walkable_cave_cell(chunk, surface_y_by_x, surface_water_by_x, sample_x, sample_y) {
                score = score + 1;
            }
            sample_y = sample_y + 1;
        }
        sample_x = sample_x + 1;
    }
    score
}

/// How much cave air lies within two columns, two rows above and one row
/// below (x, y).
fn overworld_dry_cave_local_air_score(
    chunk: &Chunk,
    surface_y_by_x: &[i32; 32],
    surface_water_by_x: &[bool; 32],
    x: usize,
    y: usize,
) -> (r: usize)
    requires
        chunk.wf(),
        x < 32,
        y < 128,
    ensures
        r <= 20,
        r == dry_air_score(*chunk, surface_y_by_x@, surface_water_by_x@, x as int, y as int),
{
    let ghost p = |a: int, b: int| dry_cave_air(*chunk, surface_y_by_x@, surface_water_by_x@, a, b);
    let min_x: usize = if x >= 2 { x - 2 } else { 0 };
    let max_x: usize = if x + 2 < CHUNK_WIDTH - 1 { x + 2 } else { CHUNK_WIDTH - 1 };
    let min_y: usize = if y >= 2 { y - 2 } else { 0 };
    let max_y: usize = if y + 1 < CHUNK_HEIGHT - 1 { y + 1 } else { CHUNK_HEIGHT - 1 };
    let mut score: usize = 0;
    let mut sample_x: usize = min_x;
    while sample_x <= max_x
        invariant
            chunk.wf(),
            p == (|a: int, b: int| dry_cave_air(*chunk, surface_y_by_x@, surface_water_by_x@, a, b)),
            score == box_count(p, min_x as int, sample_x as int, min_y as int, max_y + 1),
            min_x <= sample_x <= max_x + 1,
            max_x < 32,
            max_x <= min_x + 4,
            min_y <= max_y + 1,
            max_y < 128,
            max_y <= min_y + 3,
            score <= 4 * (sample_x - min_x),
        decreases max_x + 1 - sample_x,
    {
        let mut sample_y: usize = min_y;
        while sample_y <= max_y
            invariant
                chunk.wf(),
                min_x <= sample_x <= max_x,
                max_x < 32,
                max_x <= min_x + 4,
                min_y <= sample_y <= max_y + 1,
                max_y < 128,
                max_y <= min_y + 3,
                score <= 4 * (sample_x - min_x) + (sample_y - min_y),
                p == (|a: int, b: int| dry_cave_air(*chunk, surface_y_by_x@, surface_water_by_x@, a, b)),
                score == box_count(p, min_x as int, sample_x as int, min_y as int, max_y + 1) + column_count(
                    p,
                    sample_x as int,
                    min_y as int,
                    sample_y as int,
                ),
            decreases max_y + 1 - sample_y,
        {
            if is_overworld_dry_cave_air(chunk, surface_y_by_x, surface_water_by_x, sample_x, sample_y) {
                score = score + 1;
            }
            sample_y = sample_y + 1;
        }
        sample_x = sample_x + 1;
    }
    score
}

/// The floor cells of short dead ends: cave floor cells with at most one
/// floor neighbour and little cave air around them.
fn collect_cave_dead_ends(chunk: &Chunk, surface_y_by_x: &[i32; 32], surface_water_by_x: &[bool; 32]) -> (r: Vec<
    (usize, usize),
>)
    requires
        chunk.wf(),
    ensures
        forall|k: int| 0 <= k < r@.len() ==> 2 <= (#[trigger] r@[k]).0 < 30 && 2 <= r@[k].1 < 126,
        forall|k: int| 0 <= k < r@.len() ==> cave_dead_end(
            *chunk,
            surface_y_by_x@,
            surface_water_by_x@,
            (#[trigger] r@[k]).0 as int,
            r@[k].1 as int,
        ),
        forall|x: usize, y: usize|
            2 <= x < 30 && 2 <= y < 126 && cave_dead_end(*chunk, surface_y_by_x@, surface_water_by_x@, x as int, y as int)
                ==> #[trigger] r@.contains((x, y)),
{
    let mut fill_columns: Vec<(usize, usize)> = Vec::new();
    let mut x: usize = 2;
    while x < CHUNK_WIDTH - 2
        invariant
            chunk.wf(),
            2 <= x <= 30,
            forall|k: int| 0 <= k < fill_columns@.len() ==> 2 <= (#[trigger] fill_columns@[k]).0 < 30 && 2
                <= fill_columns@[k].1 < 126,
            forall|k: int| 0 <= k < fill_columns@.len() ==> cave_dead_end(
                *chunk,
                surface_y_by_x@,
                surface_water_by_x@,
                (#[trigger] fill_columns@[k]).0 as int,
                fill_columns@[k].1 as int,
            ),
            forall|x2: usize, y2: usize|
                2 <= x2 < x && 2 <= y2 < 126 && cave_dead_end(*chunk, surface_y_by_x@, surface_water_by_x@, x2 as int, y2 as int)
                    ==> #[trigger] fill_columns@.contains((x2, y2)),
        decreases 30 - x,
    {
        let mut y: usize = 2;
        while y < CHUNK_HEIGHT - 2
            invariant
                chunk.wf(),
                2 <= x < 30,
                2 <= y <= 126,
                forall|k: int| 0 <= k < fill_columns@.len() ==> 2 <= (#[trigger] fill_columns@[k]).0 < 30 && 2
                    <= fill_columns@[k].1 < 126,
                forall|k: int| 0 <= k < fill_columns@.len() ==> cave_dead_end(
                    *chunk,
                    surface_y_by_x@,
                    surface_water_by_x@,
                    (#[trigger] fill_columns@[k]).0 as int,
                    fill_columns@[k].1 as int,
                ),
                forall|x2: usize, y2: usize|
                    2 <= x2 < 30 && 2 <= y2 < 126 && (x2 < x || (x2 == x && y2 < y)) && cave_dead_end(
                        *chunk,
                        surface_y_by_x@,
                        surface_water_by_x@,
                        x2 as int,
                        y2 as int,
                    ) ==> #[trigger] fill_columns@.contains((x2, y2)),
            decreases 126 - y,
        {
            let ghost iter_start = fill_columns@;
            if is_overworld_walkable_cave_cell(chunk, surface_y_by_x, surface_water_by_x, x, y) {
                let left: usize = if is_overworld_walkable_cave_cell(
                    chunk,
                    surface_y_by_x,
                    surface_water_by_x,
                    x - 1,
                    y,
                ) {
                    1
                } else {
                    0
                };
                let right: usize = if is_overworld_walkable_cave_cell(
                    chunk,
                    surface_y_by_x,
                    surface_water_by_x,
                    x + 1,
                    y,
                ) {
                    1
                } else {
                    0
                };
                let local_score = overworld_dry_cave_local_air_score(
                    chunk,
                    surface_y_by_x,
                    surface_water_by_x,
                    x,
                    y,
                );
                if left + right <= 1 && local_score <= OVERWORLD_CAVE_DEAD_END_MAX_LOCAL_AIR_SCORE {
                    let ghost before = fill_columns@;
                    fill_columns.push((x, y));
                    proof {
                        assert forall|x2: usize, y2: usize| #[trigger] before.contains((x2, y2)) implies fill_columns@.contains(
                            (x2, y2),
                        ) by {
                            let k = choose|k: int| 0 <= k < before.len() && before[k] == (x2, y2);
                            assert(fill_columns@[k] == (x2, y2));
                        }
                        assert(fill_columns@[before.len() as int] == (x, y));
                    }
                }
            }
            assert(cave_dead_end(*chunk, surface_y_by_x@, surface_water_by_x@, x as int, y as int)
                ==> fill_columns@.contains((x, y)));
            proof {
                assert forall|x2: usize, y2: usize|
                    2 <= x2 < 30 && 2 <= y2 < 126 && (x2 < x || (x2 == x && y2 < y + 1)) && cave_dead_end(
                        *chunk,
                        surface_y_by_x@,
                        surface_water_by_x@,
                        x2 as int,
                        y2 as int,
                    ) implies #[trigger] fill_columns@.contains((x2, y2)) by {
                    if !(x2 == x && y2 == y) {
                        assert(iter_start.contains((x2, y2)));
                        let k = choose|k: int| 0 <= k < iter_start.len() && iter_start[k] == (x2, y2);
                        assert(fill_columns@[k] == (x2, y2));
                    }
                }
            }
            y = y + 1;
        }
        x = x + 1;
    }
    fill_columns
}

/// Whether the cells (x, y - 1) and (x, y) allow a passage to be cut
/// through them (neither holds a fluid), and whether cutting would clear
/// anything (one is not air).
fn passage_cells(chunk: &Chunk, x: usize, y: usize) -> (r: (bool, bool))
    requires
        chunk.wf(),
        x < 32,
        1 <= y < 128,
    ensures
        r.0 == (!chunk.spec_block_at(x as int, y - 1).spec_is_fluid() && !chunk.spec_block_at(
            x as int,
            y as int,
        ).spec_is_fluid()),
        r.0 ==> r.1 == (chunk.spec_block_at(x as int, y - 1) != BlockType::Air || chunk.spec_block_at(
            x as int,
            y as int,
        ) != BlockType::Air),
{
    let upper = chunk.get_block(x, y - 1);
    if upper.is_fluid() {
        return (false, false);
    }
    let lower = chunk.get_block(x, y);
    if lower.is_fluid() {
        return (false, upper != BlockType::Air);
    }
    (true, upper != BlockType::Air || lower != BlockType::Air)
}

/// Whether column `x` can carry a cut passage at row `y`: no surface water,
/// deep enough under the surface, on solid ground.
fn passage_column_ok(
    chunk: &Chunk,
    surface_y_by_x: &[i32; 32],
    surface_water_by_x: &[bool; 32],
    x: usize,
    y: usize,
) -> (r: bool)
    requires
        chunk.wf(),
        x < 32,
        y < 127,
    ensures
        r == !(surface_water_by_x@[x as int] || y <= surface_y_by_x@[x as int] + OVERWORLD_CAVE_MIN_SURFACE_DEPTH
            || !chunk.spec_block_at(x as int, y + 1).spec_is_solid()),
{
    !(surface_water_by_x[x] || y as i64 <= surface_y_by_x[x] as i64 + OVERWORLD_CAVE_MIN_SURFACE_DEPTH as i64
        || !chunk.get_block(x, y + 1).is_solid())
}

/// Whether (x, y) is an open cave floor: a floor cell with at least three
/// floor cells around it.
pub open spec fn open_cave_floor(c: Chunk, sy: Seq<i32>, sw: Seq<bool>, x: int, y: int) -> bool {
    walkable_cave_cell(c, sy, sw, x, y) && walkable_score(c, sy, sw, x, y) >= OVERWORLD_CAVE_CONNECTOR_MIN_OPEN_SCORE
}

/// Whether a passage may be cut at (x, y): the column has no surface
/// water, the cell is more than five rows under the surface and stands on
/// something solid, and neither it nor the cell above holds a fluid.
pub open spec fn cut_ok(c: Chunk, sy: Seq<i32>, sw: Seq<bool>, x: int, y: int) -> bool {
    &&& !(sw[x] || y <= sy[x] + OVERWORLD_CAVE_MIN_SURFACE_DEPTH || !c.spec_block_at(x, y + 1).spec_is_solid())
    &&& !c.spec_block_at(x, y - 1).spec_is_fluid()
    &&& !c.spec_block_at(x, y).spec_is_fluid()
}

/// Whether cutting at (x, y) clears anything.
pub open spec fn cut_clears(c: Chunk, x: int, y: int) -> bool {
    c.spec_block_at(x, y - 1) != BlockType::Air || c.spec_block_at(x, y) != BlockType::Air
}

/// Whether a wall `w` columns thick right of the open floor at (l, y) can
/// be bridged: an open floor lies beyond it inside the chunk's inner
/// columns, every cell of it can be cut, and cutting clears something.
pub open spec fn bridge_ok(c: Chunk, sy: Seq<i32>, sw: Seq<bool>, l: int, y: int, w: int) -> bool {
    let r = l + w + 1;
    &&& r < 31
    &&& open_cave_floor(c, sy, sw, r, y)
    &&& forall|f: int| l < f < r ==> #[trigger] cut_ok(c, sy, sw, f, y)
    &&& exists|f: int| l < f < r && #[trigger] cut_clears(c, f, y)
}

/// The thickness of the thinnest wall (one to three columns) that is
/// bridged right of the open floor at (l, y), or 0 where none is.
pub open spec fn bridge_width(c: Chunk, sy: Seq<i32>, sw: Seq<bool>, l: int, y: int) -> int {
    if bridge_ok(c, sy, sw, l, y, 1) {
        1
    } else if bridge_ok(c, sy, sw, l, y, 2) {
        2
    } else if bridge_ok(c, sy, sw, l, y, 3) {
        3
    } else {
        0
    }
}

/// Whether `a` is a prefix of `b`.
pub open spec fn prefix_of<T>(a: Seq<T>, b: Seq<T>) -> bool {
    a.len() <= b.len() && forall|k: int| 0 <= k < a.len() ==> #[trigger] b[k] == a[k]
}

/// What a sequence holds, a sequence it begins holds too.
proof fn lemma_prefix_contains<T>(a: Seq<T>, b: Seq<T>, z: T)
    requires
        prefix_of(a, b),
        a.contains(z),
    ensures
        b.contains(z),
{
    let k = choose|k: int| 0 <= k < a.len() && a[k] == z;
    assert(b[k] == z);
}

/// Whether the columns strictly between `l` and `r` on row `y` can all be
/// cut, and whether cutting them clears anything.
fn check_cut_span(
    chunk: &Chunk,
    surface_y_by_x: &[i32; 32],
    surface_water_by_x: &[bool; 32],
    l: usize,
    r: usize,
    y: usize,
) -> (res: (bool, bool))
    requires
        chunk.wf(),
        l < r < 32,
        1 <= y < 127,
    ensures
        res.0 == forall|f: int| l < f < r ==> #[trigger] cut_ok(*chunk, surface_y_by_x@, surface_water_by_x@, f, y as int),
        res.0 ==> (res.1 == exists|f: int| l < f < r && #[trigger] cut_clears(*chunk, f, y as int)),
{
    let mut valid = true;
    let mut introduces_new_carve = false;
    let mut fill_x = l + 1;
    while fill_x < r && valid
        invariant
            chunk.wf(),
            l < fill_x <= r < 32,
            1 <= y < 127,
            valid == forall|f: int| l < f < fill_x ==> #[trigger] cut_ok(*chunk, surface_y_by_x@, surface_water_by_x@, f, y as int),
            valid ==> (introduces_new_carve == exists|f: int| l < f < fill_x && #[trigger] cut_clears(*chunk, f, y as int)),
        decreases r - fill_x,
    {
        let ghost fx = fill_x as int;
        if !passage_column_ok(chunk, surface_y_by_x, surface_water_by_x, fill_x, y) {
            valid = false;
            assert(!cut_ok(*chunk, surface_y_by_x@, surface_water_by_x@, fx, y as int));
        } else {
            let (open, clears) = passage_cells(chunk, fill_x, y);
            if !open {
                valid = false;
                assert(!cut_ok(*chunk, surface_y_by_x@, surface_water_by_x@, fx, y as int));
            } else if clears {
                introduces_new_carve = true;
                assert(cut_clears(*chunk, fx, y as int));
            } else {
                assert(!cut_clears(*chunk, fx, y as int));
            }
        }
        fill_x = fill_x + 1;
    }
    proof {
        if !valid {
            let f0 = choose|f: int| l < f < fill_x && !#[trigger] cut_ok(*chunk, surface_y_by_x@, surface_water_by_x@, f, y as int);
            assert(l < f0 < r);
        }
    }
    (valid, introduces_new_carve)
}

/// Appends the cells strictly between `l` and `r` on row `y` to `carve`.
fn push_span(carve: &mut Vec<(usize, usize)>, l: usize, r: usize, y: usize)
    requires
        2 <= l,
        l < r <= 30,
        2 <= y < 126,
    ensures
        prefix_of(old(carve)@, final(carve)@),
        forall|k: int| old(carve)@.len() <= k < final(carve)@.len() ==> l < (#[trigger] final(carve)@[k]).0 < r
            && final(carve)@[k].1 == y,
        forall|f: usize| l < f < r ==> #[trigger] final(carve)@.contains((f, y)),
{
    let ghost start = carve@;
    let mut fx = l + 1;
    while fx < r
        invariant
            l < fx <= r <= 30,
            2 <= l,
            2 <= y < 126,
            prefix_of(start, carve@),
            forall|k: int| start.len() <= k < carve@.len() ==> l < (#[trigger] carve@[k]).0 < fx && carve@[k].1 == y,
            forall|f: usize| l < f < fx ==> #[trigger] carve@.contains((f, y)),
        decreases r - fx,
    {
        let ghost before = carve@;
        carve.push((fx, y));
        proof {
            assert(prefix_of(before, carve@));
            assert forall|f: usize| l < f < fx + 1 implies #[trigger] carve@.contains((f, y)) by {
                if f < fx {
                    lemma_prefix_contains(before, carve@, (f, y));
                } else {
                    assert(carve@[before.len() as int] == (f, y));
                }
            }
        }
        fx = fx + 1;
    }
}

/// Bridges the thinnest wall right of the open floor at (left_x, y) that
/// can be bridged (see `bridge_width`), adding its cells to `carve`.
fn bridge_from(
    chunk: &Chunk,
    surface_y_by_x: &[i32; 32],
    surface_water_by_x: &[bool; 32],
    left_x: usize,
    y: usize,
    carve: &mut Vec<(usize, usize)>,
)
    requires
        chunk.wf(),
        2 <= left_x < 30,
        2 <= y < 126,
        open_cave_floor(*chunk, surface_y_by_x@, surface_water_by_x@, left_x as int, y as int),
    ensures
        prefix_of(old(carve)@, final(carve)@),
        forall|k: int| old(carve)@.len() <= k < final(carve)@.len() ==> 2 <= (#[trigger] final(carve)@[k]).0 < 30
            && final(carve)@[k].1 == y,
        forall|k: int| old(carve)@.len() <= k < final(carve)@.len() ==> bridge_cell(
            *chunk,
            surface_y_by_x@,
            surface_water_by_x@,
            (#[trigger] final(carve)@[k]).0 as int,
            y as int,
        ),
        forall|f: usize|
            left_x < f < left_x + bridge_width(*chunk, surface_y_by_x@, surface_water_by_x@, left_x as int, y as int) + 1
                ==> #[trigger] final(carve)@.contains((f, y)),
{
    let ghost start = carve@;
    let ghost bw = bridge_width(*chunk, surface_y_by_x@, surface_water_by_x@, left_x as int, y as int);
    let mut wall_width: usize = 1;
    let mut stop = false;
    while wall_width <= OVERWORLD_CAVE_BRIDGE_MAX_WALL_WIDTH && !stop
        invariant
            chunk.wf(),
            2 <= y < 126,
            2 <= left_x < 30,
            1 <= wall_width <= 4,
            bw == bridge_width(*chunk, surface_y_by_x@, surface_water_by_x@, left_x as int, y as int),
            prefix_of(start, carve@),
            forall|k: int| start.len() <= k < carve@.len() ==> 2 <= (#[trigger] carve@[k]).0 < 30 && carve@[k].1 == y,
            open_cave_floor(*chunk, surface_y_by_x@, surface_water_by_x@, left_x as int, y as int),
            forall|k: int| start.len() <= k < carve@.len() ==> bridge_cell(
                *chunk,
                surface_y_by_x@,
                surface_water_by_x@,
                (#[trigger] carve@[k]).0 as int,
                y as int,
            ),
            !stop ==> forall|w: int| 1 <= w < wall_width ==> !#[trigger] bridge_ok(
                *chunk,
                surface_y_by_x@,
                surface_water_by_x@,
                left_x as int,
                y as int,
                w,
            ),
            stop ==> forall|f: usize| left_x < f < left_x + bw + 1 ==> #[trigger] carve@.contains((f, y)),
        decreases 4 - wall_width,
    {
        let right_x = left_x + wall_width + 1;
        if right_x >= CHUNK_WIDTH - 1 {
            stop = true;
            proof {
                assert forall|w: int| wall_width <= w <= 3 implies !#[trigger] bridge_ok(
                    *chunk,
                    surface_y_by_x@,
                    surface_water_by_x@,
                    left_x as int,
                    y as int,
                    w,
                ) by {}
                assert(bw == 0);
            }
        } else if is_overworld_walkable_cave_cell(chunk, surface_y_by_x, surface_water_by_x, right_x, y)
            && overworld_walkable_cave_local_score(chunk, surface_y_by_x, surface_water_by_x, right_x, y)
            >= OVERWORLD_CAVE_CONNECTOR_MIN_OPEN_SCORE {
            let (valid, introduces_new_carve) = check_cut_span(
                chunk,
                surface_y_by_x,
                surface_water_by_x,
                left_x,
                right_x,
                y,
            );
            if valid && introduces_new_carve {
                assert(bridge_ok(*chunk, surface_y_by_x@, surface_water_by_x@, left_x as int, y as int, wall_width as int));
                assert(bw == wall_width);
                let ghost pre = carve@;
                push_span(carve, left_x, right_x, y);
                proof {
                    assert forall|k: int| start.len() <= k < carve@.len() implies bridge_cell(
                        *chunk,
                        surface_y_by_x@,
                        surface_water_by_x@,
                        (#[trigger] carve@[k]).0 as int,
                        y as int,
                    ) by {
                        if k < pre.len() {
                            assert(carve@[k] == pre[k]);
                        } else {
                            let f = carve@[k].0 as int;
                            assert(2 <= left_x < 30 && 2 <= y < 126 && open_cave_floor(
                                *chunk,
                                surface_y_by_x@,
                                surface_water_by_x@,
                                left_x as int,
                                y as int,
                            ) && left_x < f < left_x + bridge_width(*chunk, surface_y_by_x@, surface_water_by_x@, left_x as int, y as int) + 1);
                        }
                    }
                }
                stop = true;
            } else {
                assert(!bridge_ok(*chunk, surface_y_by_x@, surface_water_by_x@, left_x as int, y as int, wall_width as int));
            }
        } else {
            assert(!bridge_ok(*chunk, surface_y_by_x@, surface_water_by_x@, left_x as int, y as int, wall_width as int));
        }
        wall_width = wall_width + 1;
    }
    proof {
        if !stop {
            assert(!bridge_ok(*chunk, surface_y_by_x@, surface_water_by_x@, left_x as int, y as int, 1));
            assert(!bridge_ok(*chunk, surface_y_by_x@, surface_water_by_x@, left_x as int, y as int, 2));
            assert(!bridge_ok(*chunk, surface_y_by_x@, surface_water_by_x@, left_x as int, y as int, 3));
            assert(bw == 0);
        }
    }
}

/// The cells to cut to bridge thin walls between open cave floors on the
/// same row: right of every open floor (x, y) off the chunk's two outer
/// columns and rows, the cells of the wall that `bridge_width` picks.
fn collect_cave_bridges(
    chunk: &Chunk,
    surface_y_by_x: &[i32; 32],
    surface_water_by_x: &[bool; 32],
    carve: &mut Vec<(usize, usize)>,
)
    requires
        chunk.wf(),
        forall|k: int| 0 <= k < old(carve)@.len() ==> 2 <= (#[trigger] old(carve)@[k]).0 < 30 && 2
            <= old(carve)@[k].1 < 126,
    ensures
        forall|k: int| 0 <= k < final(carve)@.len() ==> 2 <= (#[trigger] final(carve)@[k]).0 < 30 && 2
            <= final(carve)@[k].1 < 126,
        prefix_of(old(carve)@, final(carve)@),
        forall|l: usize, y: usize, f: usize|
            2 <= l < 30 && 2 <= y < 126 && open_cave_floor(*chunk, surface_y_by_x@, surface_water_by_x@, l as int, y as int)
                && l < f < l + #[trigger] bridge_width(*chunk, surface_y_by_x@, surface_water_by_x@, l as int, y as int) + 1
                ==> #[trigger] final(carve)@.contains((f, y)),
        forall|k: int| old(carve)@.len() <= k < final(carve)@.len() ==> bridge_cell(
            *chunk,
            surface_y_by_x@,
            surface_water_by_x@,
            (#[trigger] final(carve)@[k]).0 as int,
            final(carve)@[k].1 as int,
        ),
{
    let ghost start = carve@;
    let mut y: usize = 2;
    while y < CHUNK_HEIGHT - 2
        invariant
            chunk.wf(),
            2 <= y <= 126,
            forall|k: int| 0 <= k < carve@.len() ==> 2 <= (#[trigger] carve@[k]).0 < 30 && 2 <= carve@[k].1 < 126,
            prefix_of(start, carve@),
            forall|k: int| start.len() <= k < carve@.len() ==> bridge_cell(
                *chunk,
                surface_y_by_x@,
                surface_water_by_x@,
                (#[trigger] carve@[k]).0 as int,
                carve@[k].1 as int,
            ),
            forall|l: usize, y2: usize, f: usize|
                2 <= l < 30 && 2 <= y2 < y && open_cave_floor(*chunk, surface_y_by_x@, surface_water_by_x@, l as int, y2 as int)
                    && l < f < l + #[trigger] bridge_width(*chunk, surface_y_by_x@, surface_water_by_x@, l as int, y2 as int) + 1
                    ==> #[trigger] carve@.contains((f, y2)),
        decreases 126 - y,
    {
        let mut left_x: usize = 2;
        while left_x < CHUNK_WIDTH - 2
            invariant
                chunk.wf(),
                2 <= y < 126,
                2 <= left_x <= 30,
                forall|k: int| 0 <= k < carve@.len() ==> 2 <= (#[trigger] carve@[k]).0 < 30 && 2 <= carve@[k].1 < 126,
                prefix_of(start, carve@),
                forall|k: int| start.len() <= k < carve@.len() ==> bridge_cell(
                    *chunk,
                    surface_y_by_x@,
                    surface_water_by_x@,
                    (#[trigger] carve@[k]).0 as int,
                    carve@[k].1 as int,
                ),
                forall|l: usize, y2: usize, f: usize|
                    2 <= l < 30 && 2 <= y2 < 126 && (y2 < y || (y2 == y && l < left_x)) && open_cave_floor(
                        *chunk,
                        surface_y_by_x@,
                        surface_water_by_x@,
                        l as int,
                        y2 as int,
                    ) && l < f < l + #[trigger] bridge_width(*chunk, surface_y_by_x@, surface_water_by_x@, l as int, y2 as int)
                        + 1 ==> #[trigger] carve@.contains((f, y2)),
            decreases 30 - left_x,
        {
            let ghost before = carve@;
            if is_overworld_walkable_cave_cell(chunk, surface_y_by_x, surface_water_by_x, left_x, y)
                && overworld_walkable_cave_local_score(chunk, surface_y_by_x, surface_water_by_x, left_x, y)
                >= OVERWORLD_CAVE_CONNECTOR_MIN_OPEN_SCORE {
                bridge_from(chunk, surface_y_by_x, surface_water_by_x, left_x, y, carve);
            }
            proof {
                assert forall|l: usize, y2: usize, f: usize|
                    2 <= l < 30 && 2 <= y2 < 126 && (y2 < y || (y2 == y && l < left_x + 1)) && open_cave_floor(
                        *chunk,
                        surface_y_by_x@,
                        surface_water_by_x@,
                        l as int,
                        y2 as int,
                    ) && l < f < l + #[trigger] bridge_width(*chunk, surface_y_by_x@, surface_water_by_x@, l as int, y2 as int)
                        + 1 implies #[trigger] carve@.contains((f, y2)) by {
                    if !(y2 == y && l == left_x) {
                        assert(before.contains((f, y2)));
                        lemma_prefix_contains(before, carve@, (f, y2));
                    }
                }
                assert forall|k: int| 0 <= k < start.len() implies #[trigger] carve@[k] == start[k] by {
                    assert(before[k] == start[k]);
                }
                assert forall|k: int| start.len() <= k < carve@.len() implies bridge_cell(
                    *chunk,
                    surface_y_by_x@,
                    surface_water_by_x@,
                    (#[trigger] carve@[k]).0 as int,
                    carve@[k].1 as int,
                ) by {
                    if k < before.len() {
                        assert(carve@[k] == before[k]);
                    }
                }
            }
            left_x = left_x + 1;
        }
        y = y + 1;
    }
}

/// The side a stair leading right (`true`) or left stands on: 1 or 0.
pub open spec fn side_of(right: bool) -> int {
    if right {
        1
    } else {
        0
    }
}

/// The column of step `k` of a stair from column `x` leading right (when
/// `side` is 1) or left.
pub open spec fn stair_column(x: int, side: int, k: int) -> int {
    if side == 1 {
        x + k
    } else {
        x - k
    }
}

/// Whether a stair from the open floor at (x, y) can lead `d` rows down to
/// the right (`side` 1) or left (`side` 0): its far end stays off the
/// chunk's two outer columns and is an open floor, every step between can
/// be cut, and cutting clears something.
pub open spec fn stair_ok(c: Chunk, sy: Seq<i32>, sw: Seq<bool>, x: int, y: int, side: int, d: int) -> bool {
    &&& (if side == 1 { x + d < 30 } else { x >= d + 2 })
    &&& open_cave_floor(c, sy, sw, stair_column(x, side, d), y + d)
    &&& forall|k: int| 1 <= k < d ==> #[trigger] cut_ok(c, sy, sw, stair_column(x, side, k), y + k)
    &&& exists|k: int| 1 <= k < d && #[trigger] cut_clears(c, stair_column(x, side, k), y + k)
}

/// Whether no stair from (x, y) comes before the one `d` rows down on
/// side `side`: stairs are tried leftwards first, shortest first.
pub open spec fn no_stair_before(c: Chunk, sy: Seq<i32>, sw: Seq<bool>, x: int, y: int, side: int, d: int) -> bool {
    forall|side2: int, d2: int|
        0 <= side2 <= 1 && 3 <= d2 <= 6 && (side2 < side || (side2 == side && d2 < d)) ==> !#[trigger] stair_ok(
            c,
            sy,
            sw,
            x,
            y,
            side2,
            d2,
        )
}

/// Whether the stair from (x, y) is the one `d` rows down on side `side`:
/// the first that can be cut.
pub open spec fn stair_chosen(c: Chunk, sy: Seq<i32>, sw: Seq<bool>, x: int, y: int, side: int, d: int) -> bool {
    0 <= side <= 1 && 3 <= d <= 6 && stair_ok(c, sy, sw, x, y, side, d) && no_stair_before(c, sy, sw, x, y, side, d)
}

/// Whether (f, y) is a cell of a wall of `mid` that is bridged.
pub open spec fn bridge_cell(mid: Chunk, sy: Seq<i32>, sw: Seq<bool>, f: int, y: int) -> bool {
    exists|l: int|
        2 <= l < 30 && 2 <= y < 126 && open_cave_floor(mid, sy, sw, l, y) && l < f < l + #[trigger] bridge_width(
            mid,
            sy,
            sw,
            l,
            y,
        ) + 1
}

/// Whether (px, py) is a step of a stair of `mid` that is cut.
pub open spec fn stair_cell(mid: Chunk, sy: Seq<i32>, sw: Seq<bool>, px: int, py: int) -> bool {
    exists|x: int, y: int, side: int, d: int, k: int|
        2 <= x < 30 && 2 <= y < 121 && open_cave_floor(mid, sy, sw, x, y) && #[trigger] stair_chosen(
            mid,
            sy,
            sw,
            x,
            y,
            side,
            d,
        ) && 1 <= k < d && px == #[trigger] stair_column(x, side, k) && py == y + k
}

/// Whether (x, y) is cut open: a cell of a bridged wall or a stair step.
pub open spec fn cut_cell(mid: Chunk, sy: Seq<i32>, sw: Seq<bool>, x: int, y: int) -> bool {
    bridge_cell(mid, sy, sw, x, y) || stair_cell(mid, sy, sw, x, y)
}

/// Whether the steps of the stair `d` rows down on side `side` from
/// (x, y) can all be cut, and whether cutting them clears anything.
fn check_stair_path(
    chunk: &Chunk,
    surface_y_by_x: &[i32; 32],
    surface_water_by_x: &[bool; 32],
    x: usize,
    y: usize,
    right: bool,
    drop: usize,
) -> (res: (bool, bool))
    requires
        chunk.wf(),
        2 <= x < 30,
        2 <= y < 121,
        3 <= drop <= 6,
        right ==> x + drop < 30,
        !right ==> x >= drop + 2,
    ensures
        res.0 == forall|k: int| 1 <= k < drop ==> #[trigger] cut_ok(
            *chunk,
            surface_y_by_x@,
            surface_water_by_x@,
            stair_column(x as int, side_of(right), k),
            y + k,
        ),
        res.0 ==> (res.1 == exists|k: int| 1 <= k < drop && #[trigger] cut_clears(
            *chunk,
            stair_column(x as int, side_of(right), k),
            y + k,
        )),
{
    let ghost side: int = side_of(right);
    let mut valid = true;
    let mut introduces_new_carve = false;
    let mut step: usize = 1;
    while step < drop && valid
        invariant
            chunk.wf(),
            2 <= x < 30,
            2 <= y < 121,
            3 <= drop <= 6,
            1 <= step <= drop,
            right ==> x + drop < 30,
            !right ==> x >= drop + 2,
            side == side_of(right),
            valid == forall|k: int| 1 <= k < step ==> #[trigger] cut_ok(
                *chunk,
                surface_y_by_x@,
                surface_water_by_x@,
                stair_column(x as int, side, k),
                y + k,
            ),
            valid ==> (introduces_new_carve == exists|k: int| 1 <= k < step && #[trigger] cut_clears(
                *chunk,
                stair_column(x as int, side, k),
                y + k,
            )),
        decreases drop - step,
    {
        let path_x = if right {
            x + step
        } else {
            x - step
        };
        let path_y = y + step;
        let ghost k0 = step as int;
        assert(path_x == stair_column(x as int, side, k0));
        if !passage_column_ok(chunk, surface_y_by_x, surface_water_by_x, path_x, path_y) {
            valid = false;
            assert(!cut_ok(*chunk, surface_y_by_x@, surface_water_by_x@, stair_column(x as int, side, k0), y + k0));
        } else {
            let (open, clears) = passage_cells(chunk, path_x, path_y);
            if !open {
                valid = false;
                assert(!cut_ok(*chunk, surface_y_by_x@, surface_water_by_x@, stair_column(x as int, side, k0), y + k0));
            } else if clears {
                introduces_new_carve = true;
                assert(cut_clears(*chunk, stair_column(x as int, side, k0), y + k0));
            } else {
                assert(!cut_clears(*chunk, stair_column(x as int, side, k0), y + k0));
            }
        }
        step = step + 1;
    }
    proof {
        if !valid {
            let k1 = choose|k: int| 1 <= k < step && !#[trigger] cut_ok(
                *chunk,
                surface_y_by_x@,
                surface_water_by_x@,
                stair_column(x as int, side, k),
                y + k,
            );
            assert(1 <= k1 < drop);
        }
    }
    (valid, introduces_new_carve)
}

/// Appends the steps of the stair `drop` rows down on side `right` from
/// (x, y) to `carve`.
fn push_stair(carve: &mut Vec<(usize, usize)>, x: usize, y: usize, right: bool, drop: usize)
    requires
        2 <= x < 30,
        2 <= y < 121,
        3 <= drop <= 6,
        right ==> x + drop < 30,
        !right ==> x >= drop + 2,
    ensures
        prefix_of(old(carve)@, final(carve)@),
        forall|k: int| old(carve)@.len() <= k < final(carve)@.len() ==> 2 <= (#[trigger] final(carve)@[k]).0 < 30
            && 2 <= final(carve)@[k].1 < 126,
        forall|k: int|
            1 <= k < drop ==> #[trigger] final(carve)@.contains(
                (stair_column(x as int, side_of(right), k) as usize, (y + k) as usize),
            ),
        final(carve)@.len() == old(carve)@.len() + drop - 1,
        forall|j: int|
            0 <= j < drop - 1 ==> #[trigger] final(carve)@[old(carve)@.len() + j] == (
                stair_column(x as int, side_of(right), j + 1) as usize,
                (y + j + 1) as usize,
            ),
{
    let ghost side: int = side_of(right);
    let ghost start = carve@;
    let mut s: usize = 1;
    while s < drop
        invariant
            2 <= x < 30,
            2 <= y < 121,
            3 <= drop <= 6,
            1 <= s <= drop,
            right ==> x + drop < 30,
            !right ==> x >= drop + 2,
            side == side_of(right),
            prefix_of(start, carve@),
            forall|k: int| start.len() <= k < carve@.len() ==> 2 <= (#[trigger] carve@[k]).0 < 30 && 2 <= carve@[k].1 < 126,
            forall|k: int|
                1 <= k < s ==> #[trigger] carve@.contains((stair_column(x as int, side, k) as usize, (y + k) as usize)),
            carve@.len() == start.len() + s - 1,
            forall|j: int|
                0 <= j < s - 1 ==> #[trigger] carve@[start.len() + j] == (
                    stair_column(x as int, side, j + 1) as usize,
                    (y + j + 1) as usize,
                ),
        decreases drop - s,
    {
        let path_x = if right {
            x + s
        } else {
            x - s
        };
        let ghost before = carve@;
        carve.push((path_x, y + s));
        proof {
            assert(prefix_of(before, carve@));
            assert forall|k: int| 1 <= k < s + 1 implies #[trigger] carve@.contains(
                (stair_column(x as int, side, k) as usize, (y + k) as usize),
            ) by {
                if k < s {
                    lemma_prefix_contains(before, carve@, (stair_column(x as int, side, k) as usize, (y + k) as usize));
                } else {
                    assert(carve@[before.len() as int] == (stair_column(x as int, side, k) as usize, (y + k) as usize));
                }
            }
        }
        s = s + 1;
    }
}

/// Cuts the first stair that can be cut from the open floor at (x, y)
/// (see `stair_chosen`), adding its steps to `carve`.
fn stair_from(
    chunk: &Chunk,
    surface_y_by_x: &[i32; 32],
    surface_water_by_x: &[bool; 32],
    x: usize,
    y: usize,
    carve: &mut Vec<(usize, usize)>,
)
    requires
        chunk.wf(),
        2 <= x < 30,
        2 <= y < 121,
        open_cave_floor(*chunk, surface_y_by_x@, surface_water_by_x@, x as int, y as int),
    ensures
        prefix_of(old(carve)@, final(carve)@),
        forall|k: int| old(carve)@.len() <= k < final(carve)@.len() ==> 2 <= (#[trigger] final(carve)@[k]).0 < 30
            && 2 <= final(carve)@[k].1 < 126,
        forall|k: int| old(carve)@.len() <= k < final(carve)@.len() ==> stair_cell(
            *chunk,
            surface_y_by_x@,
            surface_water_by_x@,
            (#[trigger] final(carve)@[k]).0 as int,
            final(carve)@[k].1 as int,
        ),
        forall|side: int, d: int, k: int|
            #[trigger] stair_chosen(*chunk, surface_y_by_x@, surface_water_by_x@, x as int, y as int, side, d) && 1 <= k
                < d ==> #[trigger] final(carve)@.contains((stair_column(x as int, side, k) as usize, (y + k) as usize)),
{
    let ghost start = carve@;
    let mut carved_link = false;
    let mut side: usize = 0;
    while side < 2 && !carved_link
        invariant
            chunk.wf(),
            2 <= x < 30,
            2 <= y < 121,
            side <= 2,
            prefix_of(start, carve@),
            forall|k: int| start.len() <= k < carve@.len() ==> 2 <= (#[trigger] carve@[k]).0 < 30 && 2 <= carve@[k].1 < 126,
            forall|k: int| start.len() <= k < carve@.len() ==> stair_cell(
                *chunk,
                surface_y_by_x@,
                surface_water_by_x@,
                (#[trigger] carve@[k]).0 as int,
                carve@[k].1 as int,
            ),
            open_cave_floor(*chunk, surface_y_by_x@, surface_water_by_x@, x as int, y as int),
            !carved_link ==> no_stair_before(*chunk, surface_y_by_x@, surface_water_by_x@, x as int, y as int, side as int, 3),
            carved_link ==> forall|side2: int, d: int, k: int|
                #[trigger] stair_chosen(*chunk, surface_y_by_x@, surface_water_by_x@, x as int, y as int, side2, d) && 1
                    <= k < d ==> #[trigger] carve@.contains((stair_column(x as int, side2, k) as usize, (y + k) as usize)),
        decreases 2 - side,
    {
        let right = side == 1;
        let mut drop: usize = OVERWORLD_CAVE_STAIR_MIN_DROP;
        while drop <= OVERWORLD_CAVE_STAIR_MAX_DROP && !carved_link
            invariant
                chunk.wf(),
                2 <= x < 30,
                2 <= y < 121,
                side < 2,
                right == (side == 1),
                3 <= drop <= 7,
                prefix_of(start, carve@),
                forall|k: int| start.len() <= k < carve@.len() ==> 2 <= (#[trigger] carve@[k]).0 < 30 && 2 <= carve@[k].1
                    < 126,
                forall|k: int| start.len() <= k < carve@.len() ==> stair_cell(
                    *chunk,
                    surface_y_by_x@,
                    surface_water_by_x@,
                    (#[trigger] carve@[k]).0 as int,
                    carve@[k].1 as int,
                ),
                open_cave_floor(*chunk, surface_y_by_x@, surface_water_by_x@, x as int, y as int),
                !carved_link ==> no_stair_before(
                    *chunk,
                    surface_y_by_x@,
                    surface_water_by_x@,
                    x as int,
                    y as int,
                    side as int,
                    drop as int,
                ),
                carved_link ==> forall|side2: int, d: int, k: int|
                    #[trigger] stair_chosen(*chunk, surface_y_by_x@, surface_water_by_x@, x as int, y as int, side2, d)
                        && 1 <= k < d ==> #[trigger] carve@.contains(
                        (stair_column(x as int, side2, k) as usize, (y + k) as usize),
                    ),
            decreases 7 - drop,
        {
            let ghost sd = side as int;
            let ghost dd = drop as int;
            assert(side_of(right) == sd);
            // The far end must stay off the chunk's two outer columns on
            // either side.
            let end_ok = if right {
                x + drop < CHUNK_WIDTH - 2
            } else {
                x >= drop + 2
            };
            let mut found = false;
            if end_ok {
                let end_x = if right {
                    x + drop
                } else {
                    x - drop
                };
                let end_y = y + drop;
                assert(end_x == stair_column(x as int, sd, dd));
                if is_overworld_walkable_cave_cell(chunk, surface_y_by_x, surface_water_by_x, end_x, end_y)
                    && overworld_walkable_cave_local_score(chunk, surface_y_by_x, surface_water_by_x, end_x, end_y)
                    >= OVERWORLD_CAVE_CONNECTOR_MIN_OPEN_SCORE {
                    let (valid, introduces_new_carve) = check_stair_path(
                        chunk,
                        surface_y_by_x,
                        surface_water_by_x,
                        x,
                        y,
                        right,
                        drop,
                    );
                    if valid && introduces_new_carve {
                        assert(stair_ok(*chunk, surface_y_by_x@, surface_water_by_x@, x as int, y as int, sd, dd));
                        assert(stair_chosen(*chunk, surface_y_by_x@, surface_water_by_x@, x as int, y as int, sd, dd));
                        let ghost pre = carve@;
                        push_stair(carve, x, y, right, drop);
                        found = true;
                        proof {
                            assert forall|k: int| start.len() <= k < carve@.len() implies stair_cell(
                                *chunk,
                                surface_y_by_x@,
                                surface_water_by_x@,
                                (#[trigger] carve@[k]).0 as int,
                                carve@[k].1 as int,
                            ) by {
                                if k < pre.len() {
                                    assert(carve@[k] == pre[k]);
                                } else {
                                    let j = k - pre.len();
                                    assert(carve@[pre.len() + j] == (
                                        stair_column(x as int, sd, j + 1) as usize,
                                        (y + j + 1) as usize,
                                    ));
                                    let sc = stair_column(x as int, sd, j + 1);
                                    assert(2 <= sc < 30);
                                    assert(2 <= x < 30 && 2 <= y < 121 && open_cave_floor(
                                        *chunk,
                                        surface_y_by_x@,
                                        surface_water_by_x@,
                                        x as int,
                                        y as int,
                                    ) && stair_chosen(*chunk, surface_y_by_x@, surface_water_by_x@, x as int, y as int, sd, dd)
                                        && 1 <= j + 1 < dd && carve@[k].0 as int == stair_column(x as int, sd, j + 1)
                                        && carve@[k].1 as int == y + (j + 1));
                                }
                            }
                        }
                        proof {
                            assert forall|side2: int, d: int|
                                #[trigger] stair_chosen(
                                    *chunk,
                                    surface_y_by_x@,
                                    surface_water_by_x@,
                                    x as int,
                                    y as int,
                                    side2,
                                    d,
                                ) implies side2 == sd && d == dd by {
                                if side2 < sd || (side2 == sd && d < dd) {
                                } else if side2 != sd || d != dd {
                                    assert(!stair_ok(*chunk, surface_y_by_x@, surface_water_by_x@, x as int, y as int, sd, dd));
                                }
                            }
                        }
                    } else {
                        assert(!stair_ok(*chunk, surface_y_by_x@, surface_water_by_x@, x as int, y as int, sd, dd));
                    }
                } else {
                    assert(!stair_ok(*chunk, surface_y_by_x@, surface_water_by_x@, x as int, y as int, sd, dd));
                }
            } else {
                assert(!stair_ok(*chunk, surface_y_by_x@, surface_water_by_x@, x as int, y as int, sd, dd));
            }
            carved_link = found;
            drop = drop + 1;
        }
        side = side + 1;
    }
}

/// The cells to cut for stair links from open cave floors down to open
/// floors three to six rows lower and as many columns aside: from every
/// open floor (x, y) off the chunk's two outer columns and from row 2 to
/// row 120, the steps of the stair `stair_chosen` picks.
fn collect_cave_stairs(
    chunk: &Chunk,
    surface_y_by_x: &[i32; 32],
    surface_water_by_x: &[bool; 32],
    carve: &mut Vec<(usize, usize)>,
)
    requires
        chunk.wf(),
        forall|k: int| 0 <= k < old(carve)@.len() ==> 2 <= (#[trigger] old(carve)@[k]).0 < 30 && 2
            <= old(carve)@[k].1 < 126,
    ensures
        forall|k: int| 0 <= k < final(carve)@.len() ==> 2 <= (#[trigger] final(carve)@[k]).0 < 30 && 2
            <= final(carve)@[k].1 < 126,
        prefix_of(old(carve)@, final(carve)@),
        forall|x: int, y: int, side: int, d: int, k: int|
            2 <= x < 30 && 2 <= y < 121 && open_cave_floor(*chunk, surface_y_by_x@, surface_water_by_x@, x, y)
                && #[trigger] stair_chosen(*chunk, surface_y_by_x@, surface_water_by_x@, x, y, side, d) && 1 <= k < d
                ==> #[trigger] final(carve)@.contains((stair_column(x, side, k) as usize, (y + k) as usize)),
        forall|k: int| old(carve)@.len() <= k < final(carve)@.len() ==> stair_cell(
            *chunk,
            surface_y_by_x@,
            surface_water_by_x@,
            (#[trigger] final(carve)@[k]).0 as int,
            final(carve)@[k].1 as int,
        ),
{
    let ghost start = carve@;
    let mut x: usize = 2;
    while x < CHUNK_WIDTH - 2
        invariant
            chunk.wf(),
            2 <= x <= 30,
            forall|k: int| 0 <= k < carve@.len() ==> 2 <= (#[trigger] carve@[k]).0 < 30 && 2 <= carve@[k].1 < 126,
            prefix_of(start, carve@),
            forall|k: int| start.len() <= k < carve@.len() ==> stair_cell(
                *chunk,
                surface_y_by_x@,
                surface_water_by_x@,
                (#[trigger] carve@[k]).0 as int,
                carve@[k].1 as int,
            ),
            forall|x2: int, y: int, side: int, d: int, k: int|
                2 <= x2 < x && 2 <= y < 121 && open_cave_floor(*chunk, surface_y_by_x@, surface_water_by_x@, x2, y)
                    && #[trigger] stair_chosen(*chunk, surface_y_by_x@, surface_water_by_x@, x2, y, side, d) && 1 <= k < d
                    ==> #[trigger] carve@.contains((stair_column(x2, side, k) as usize, (y + k) as usize)),
        decreases 30 - x,
    {
        let mut y: usize = 2;
        while y < CHUNK_HEIGHT - OVERWORLD_CAVE_STAIR_MAX_DROP - 1
            invariant
                chunk.wf(),
                2 <= x < 30,
                2 <= y <= 121,
                forall|k: int| 0 <= k < carve@.len() ==> 2 <= (#[trigger] carve@[k]).0 < 30 && 2 <= carve@[k].1 < 126,
                prefix_of(start, carve@),
                forall|k: int| start.len() <= k < carve@.len() ==> stair_cell(
                    *chunk,
                    surface_y_by_x@,
                    surface_water_by_x@,
                    (#[trigger] carve@[k]).0 as int,
                    carve@[k].1 as int,
                ),
                forall|x2: int, y2: int, side: int, d: int, k: int|
                    2 <= x2 < 30 && 2 <= y2 < 121 && (x2 < x || (x2 == x && y2 < y)) && open_cave_floor(
                        *chunk,
                        surface_y_by_x@,
                        surface_water_by_x@,
                        x2,
                        y2,
                    ) && #[trigger] stair_chosen(*chunk, surface_y_by_x@, surface_water_by_x@, x2, y2, side, d) && 1 <= k
                        < d ==> #[trigger] carve@.contains((stair_column(x2, side, k) as usize, (y2 + k) as usize)),
            decreases 121 - y,
        {
            let ghost before = carve@;
            if is_overworld_walkable_cave_cell(chunk, surface_y_by_x, surface_water_by_x, x, y)
                && overworld_walkable_cave_local_score(chunk, surface_y_by_x, surface_water_by_x, x, y)
                >= OVERWORLD_CAVE_CONNECTOR_MIN_OPEN_SCORE {
                stair_from(chunk, surface_y_by_x, surface_water_by_x, x, y, carve);
            }
            proof {
                assert forall|x2: int, y2: int, side: int, d: int, k: int|
                    2 <= x2 < 30 && 2 <= y2 < 121 && (x2 < x || (x2 == x && y2 < y + 1)) && open_cave_floor(
                        *chunk,
                        surface_y_by_x@,
                        surface_water_by_x@,
                        x2,
                        y2,
                    ) && #[trigger] stair_chosen(*chunk, surface_y_by_x@, surface_water_by_x@, x2, y2, side, d) && 1 <= k
                        < d implies #[trigger] carve@.contains((stair_column(x2, side, k) as usize, (y2 + k) as usize)) by {
                    if !(x2 == x && y2 == y) {
                        assert(before.contains((stair_column(x2, side, k) as usize, (y2 + k) as usize)));
                        lemma_prefix_contains(before, carve@, (stair_column(x2, side, k) as usize, (y2 + k) as usize));
                    }
                }
                assert forall|k: int| 0 <= k < start.len() implies #[trigger] carve@[k] == start[k] by {
                    assert(before[k] == start[k]);
                }
                assert forall|k: int| start.len() <= k < carve@.len() implies stair_cell(
                    *chunk,
                    surface_y_by_x@,
                    surface_water_by_x@,
                    (#[trigger] carve@[k]).0 as int,
                    carve@[k].1 as int,
                ) by {
                    if k < before.len() {
                        assert(carve@[k] == before[k]);
                    }
                }
            }
            y = y + 1;
        }
        x = x + 1;
    }
}

/// Every wall of `mid` that `bridge_width` picks is cut open in `c`: each
/// of its cells and the cell above is air.
pub open spec fn bridges_cut(mid: Chunk, c: Chunk, sy: Seq<i32>, sw: Seq<bool>) -> bool {
    forall|l: int, y: int, f: int|
        2 <= l < 30 && 2 <= y < 126 && open_cave_floor(mid, sy, sw, l, y) && l < f < l + #[trigger] bridge_width(
            mid,
            sy,
            sw,
            l,
            y,
        ) + 1 ==> #[trigger] c.spec_block_at(f, y) == BlockType::Air && c.spec_block_at(f, y - 1) == BlockType::Air
}

/// Every stair of `mid` that `stair_chosen` picks is cut open in `c`: each
/// of its steps and the cell above is air.
pub open spec fn stairs_cut(mid: Chunk, c: Chunk, sy: Seq<i32>, sw: Seq<bool>) -> bool {
    forall|x: int, y: int, side: int, d: int, k: int|
        2 <= x < 30 && 2 <= y < 121 && open_cave_floor(mid, sy, sw, x, y) && #[trigger] stair_chosen(
            mid,
            sy,
            sw,
            x,
            y,
            side,
            d,
        ) && 1 <= k < d ==> #[trigger] c.spec_block_at(stair_column(x, side, k), y + k) == BlockType::Air
            && c.spec_block_at(stair_column(x, side, k), y + k - 1) == BlockType::Air
}

/// The block at (x, y) once every short dead end of `c` is filled: stone
/// on the floor cell of a dead end and on the cell above it, the block of
/// `c` elsewhere.
pub open spec fn trimmed_cell(c: Chunk, sy: Seq<i32>, sw: Seq<bool>, x: int, y: int) -> BlockType {
    if (2 <= x < 30 && 2 <= y < 126 && cave_dead_end(c, sy, sw, x, y)) || (2 <= x < 30 && 2 <= y + 1 < 126
        && cave_dead_end(c, sy, sw, x, y + 1)) {
        BlockType::Stone
    } else {
        c.spec_block_at(x, y)
    }
}

/// Every cell of `after` is that of `before` with its dead ends filled.
pub open spec fn trimmed_once(before: Chunk, after: Chunk, sy: Seq<i32>, sw: Seq<bool>) -> bool {
    forall|x: int, y: int| #[trigger] after.spec_block_at(x, y) == trimmed_cell(before, sy, sw, x, y)
}

/// How refining took `orig` to `c`: `c1` is `orig` with its dead ends
/// filled, `mid` is `c1` with its dead ends filled, and `c` is `mid` with
/// every cut cell (a cell of a bridged wall or a stair step) and the cell
/// above it cleared to air.
pub open spec fn paced_through(orig: Chunk, c1: Chunk, mid: Chunk, c: Chunk, sy: Seq<i32>, sw: Seq<bool>) -> bool {
    &&& trimmed_once(orig, c1, sy, sw)
    &&& trimmed_once(c1, mid, sy, sw)
    &&& forall|x: int, y: int| #[trigger] c.spec_block_at(x, y) == if cut_cell(mid, sy, sw, x, y) || cut_cell(
        mid,
        sy,
        sw,
        x,
        y + 1,
    ) {
        BlockType::Air
    } else {
        mid.spec_block_at(x, y)
    }
}

/// Fills the short dead ends of the caves once: the floor cell of every
/// dead end and the cell above it turn to stone (`trimmed_once`). Returns
/// whether there were any.
fn trim_dead_ends(chunk: &mut Chunk, surface_y_by_x: &[i32; 32], surface_water_by_x: &[bool; 32]) -> (found: bool)
    requires
        old(chunk).wf(),
    ensures
        final(chunk).wf(),
        final(chunk).view_x() == old(chunk).view_x(),
        final(chunk).spec_save_key() == old(chunk).spec_save_key(),
        trimmed_from(*old(chunk), *final(chunk)),
        trimmed_once(*old(chunk), *final(chunk), surface_y_by_x@, surface_water_by_x@),
        !found ==> *final(chunk) == *old(chunk),
{
    let ghost at_pass = *chunk;
    let fill_columns = collect_cave_dead_ends(chunk, surface_y_by_x, surface_water_by_x);
    if fill_columns.len() == 0 {
        proof {
            assert forall|x: int, y: int| #[trigger] chunk.spec_block_at(x, y) == trimmed_cell(
                at_pass,
                surface_y_by_x@,
                surface_water_by_x@,
                x,
                y,
            ) by {
                if 2 <= x < 30 && 2 <= y < 126 && cave_dead_end(at_pass, surface_y_by_x@, surface_water_by_x@, x, y) {
                    assert(fill_columns@.contains((x as usize, y as usize)));
                }
                if 2 <= x < 30 && 2 <= y + 1 < 126 && cave_dead_end(at_pass, surface_y_by_x@, surface_water_by_x@, x, y + 1) {
                    assert(fill_columns@.contains((x as usize, (y + 1) as usize)));
                }
            }
        }
        return false;
    }
    let mut i: usize = 0;
    while i < fill_columns.len()
        invariant
            chunk.wf(),
            chunk.view_x() == at_pass.view_x(),
            chunk.spec_save_key() == at_pass.spec_save_key(),
            trimmed_from(at_pass, *chunk),
            i <= fill_columns@.len(),
            forall|k: int| 0 <= k < fill_columns@.len() ==> 2 <= (#[trigger] fill_columns@[k]).0 < 30 && 2
                <= fill_columns@[k].1 < 126,
            forall|k: int| 0 <= k < fill_columns@.len() ==> cave_dead_end(
                at_pass,
                surface_y_by_x@,
                surface_water_by_x@,
                (#[trigger] fill_columns@[k]).0 as int,
                fill_columns@[k].1 as int,
            ),
            forall|x: usize, y: usize|
                2 <= x < 30 && 2 <= y < 126 && cave_dead_end(at_pass, surface_y_by_x@, surface_water_by_x@, x as int, y as int)
                    ==> #[trigger] fill_columns@.contains((x, y)),
            forall|x: int, y: int|
                2 <= x < 30 && 2 <= y < 126 && #[trigger] cave_dead_end(at_pass, surface_y_by_x@, surface_water_by_x@, x, y)
                    ==> (chunk.spec_block_at(x, y) == BlockType::Stone && chunk.spec_block_at(x, y - 1) == BlockType::Stone)
                    || (chunk.spec_block_at(x, y) == at_pass.spec_block_at(x, y) && chunk.spec_block_at(x, y - 1)
                    == at_pass.spec_block_at(x, y - 1)),
            forall|k: int| 0 <= k < i ==> chunk.spec_block_at(
                (#[trigger] fill_columns@[k]).0 as int,
                fill_columns@[k].1 as int,
            ) == BlockType::Stone && chunk.spec_block_at(fill_columns@[k].0 as int, fill_columns@[k].1 - 1)
                == BlockType::Stone,
            forall|x: int, y: int| #[trigger] chunk.spec_block_at(x, y) != at_pass.spec_block_at(x, y) ==> chunk.spec_block_at(
                x,
                y,
            ) == BlockType::Stone && ((2 <= x < 30 && 2 <= y < 126 && cave_dead_end(
                at_pass,
                surface_y_by_x@,
                surface_water_by_x@,
                x,
                y,
            )) || (2 <= x < 30 && 2 <= y + 1 < 126 && cave_dead_end(at_pass, surface_y_by_x@, surface_water_by_x@, x, y + 1))),
        decreases fill_columns@.len() - i,
    {
        let (x, y) = fill_columns[i];
        let ghost c_entry = *chunk;
        let ghost xi = x as int;
        let ghost yi = y as int;
        proof {
            assert(cave_dead_end(at_pass, surface_y_by_x@, surface_water_by_x@, xi, yi));
            if !(c_entry.spec_block_at(xi, yi) == BlockType::Stone && c_entry.spec_block_at(xi, yi - 1) == BlockType::Stone) {
                assert(in_chunk(xi, yi + 1));
                assert(trim_ok(at_pass.spec_block_at(xi, yi + 1), c_entry.spec_block_at(xi, yi + 1)));
                assert(walkable_cave_cell(c_entry, surface_y_by_x@, surface_water_by_x@, xi, yi));
            }
        }
        if is_overworld_walkable_cave_cell(chunk, surface_y_by_x, surface_water_by_x, x, y) {
            let ghost c0 = *chunk;
            put_cell(chunk, x, y, BlockType::Stone);
            put_cell(chunk, x, y - 1, BlockType::Stone);
            proof {
                assert forall|x2: int, y2: int| in_chunk(x2, y2) implies #[trigger] trim_ok(
                    at_pass.spec_block_at(x2, y2),
                    chunk.spec_block_at(x2, y2),
                ) by {
                    assert(trim_ok(at_pass.spec_block_at(x2, y2), c0.spec_block_at(x2, y2)));
                }
                assert forall|x2: int, y2: int| !inner_cave_cell(x2, y2) implies #[trigger] chunk.spec_block_at(
                    x2,
                    y2,
                ) == at_pass.spec_block_at(x2, y2) by {
                    assert(c0.spec_block_at(x2, y2) == at_pass.spec_block_at(x2, y2));
                }
            }
        }
        proof {
            assert forall|x2: int, y2: int| #[trigger] chunk.spec_block_at(x2, y2) != c_entry.spec_block_at(x2, y2)
                implies x2 == xi && (y2 == yi || y2 == yi - 1) && chunk.spec_block_at(x2, y2) == BlockType::Stone by {}
            assert forall|x2: int, y2: int|
                2 <= x2 < 30 && 2 <= y2 < 126 && #[trigger] cave_dead_end(at_pass, surface_y_by_x@, surface_water_by_x@, x2, y2)
                    implies (chunk.spec_block_at(x2, y2) == BlockType::Stone && chunk.spec_block_at(x2, y2 - 1)
                    == BlockType::Stone) || (chunk.spec_block_at(x2, y2) == at_pass.spec_block_at(x2, y2)
                    && chunk.spec_block_at(x2, y2 - 1) == at_pass.spec_block_at(x2, y2 - 1)) by {
                if x2 == xi && y2 == yi {
                } else if x2 == xi && y2 == yi - 1 {
                    assert(walkable_cave_cell(at_pass, surface_y_by_x@, surface_water_by_x@, x2, y2));
                    assert(walkable_cave_cell(at_pass, surface_y_by_x@, surface_water_by_x@, xi, yi));
                    assert(false);
                } else if x2 == xi && y2 == yi + 1 {
                    assert(walkable_cave_cell(at_pass, surface_y_by_x@, surface_water_by_x@, x2, y2));
                    assert(walkable_cave_cell(at_pass, surface_y_by_x@, surface_water_by_x@, xi, yi));
                    assert(false);
                } else {
                    assert(chunk.spec_block_at(x2, y2) == c_entry.spec_block_at(x2, y2));
                    assert(chunk.spec_block_at(x2, y2 - 1) == c_entry.spec_block_at(x2, y2 - 1));
                }
            }
            assert forall|x2: int, y2: int| #[trigger] chunk.spec_block_at(x2, y2) != at_pass.spec_block_at(x2, y2) implies chunk.spec_block_at(
                x2,
                y2,
            ) == BlockType::Stone && ((2 <= x2 < 30 && 2 <= y2 < 126 && cave_dead_end(
                at_pass,
                surface_y_by_x@,
                surface_water_by_x@,
                x2,
                y2,
            )) || (2 <= x2 < 30 && 2 <= y2 + 1 < 126 && cave_dead_end(at_pass, surface_y_by_x@, surface_water_by_x@, x2, y2 + 1))) by {
                if chunk.spec_block_at(x2, y2) != c_entry.spec_block_at(x2, y2) {
                    assert(x2 == xi && (y2 == yi || y2 == yi - 1));
                } else {
                    assert(c_entry.spec_block_at(x2, y2) != at_pass.spec_block_at(x2, y2));
                }
            }
        }
        i = i + 1;
    }
    proof {
        assert forall|x: int, y: int|
            2 <= x < 30 && 2 <= y < 126 && #[trigger] cave_dead_end(at_pass, surface_y_by_x@, surface_water_by_x@, x, y)
                implies chunk.spec_block_at(x, y) == BlockType::Stone && chunk.spec_block_at(x, y - 1) == BlockType::Stone by {
            assert(fill_columns@.contains((x as usize, y as usize)));
            let k = choose|k: int| 0 <= k < fill_columns@.len() && fill_columns@[k] == (x as usize, y as usize);
            assert(fill_columns@[k].0 as int == x && fill_columns@[k].1 as int == y);
        }
        assert forall|x: int, y: int| #[trigger] chunk.spec_block_at(x, y) == trimmed_cell(
            at_pass,
            surface_y_by_x@,
            surface_water_by_x@,
            x,
            y,
        ) by {
            if 2 <= x < 30 && 2 <= y + 1 < 126 && cave_dead_end(at_pass, surface_y_by_x@, surface_water_by_x@, x, y + 1) {
                assert(chunk.spec_block_at(x, (y + 1) - 1) == BlockType::Stone);
            }
        }
    }
    true
}

/// Where the only changes from `mid` to `c` are on cut cells and the cells
/// above them, and every one of those is cleared, each cell of `c` is
/// air on a cut cell or above one and that of `mid` elsewhere.
proof fn lemma_cut_cells_exact(mid: Chunk, c: Chunk, sy: Seq<i32>, sw: Seq<bool>)
    requires
        bridges_cut(mid, c, sy, sw),
        stairs_cut(mid, c, sy, sw),
        forall|x: int, y: int| #[trigger] c.spec_block_at(x, y) != mid.spec_block_at(x, y) ==> cut_cell(mid, sy, sw, x, y)
            || cut_cell(mid, sy, sw, x, y + 1),
    ensures
        forall|x: int, y: int| #[trigger] c.spec_block_at(x, y) == if cut_cell(mid, sy, sw, x, y) || cut_cell(
            mid,
            sy,
            sw,
            x,
            y + 1,
        ) {
            BlockType::Air
        } else {
            mid.spec_block_at(x, y)
        },
{
        assert forall|x: int, y: int| #[trigger] c.spec_block_at(x, y) == if cut_cell(
        mid,
        sy,
        sw,
        x,
        y,
    ) || cut_cell(mid, sy, sw, x, y + 1) {
        BlockType::Air
    } else {
        mid.spec_block_at(x, y)
    } by {
        if cut_cell(mid, sy, sw, x, y) {
            if bridge_cell(mid, sy, sw, x, y) {
                let l = choose|l: int| 2 <= l < 30 && 2 <= y < 126 && open_cave_floor(mid, sy, sw, l, y)
                    && l < x < l + #[trigger] bridge_width(mid, sy, sw, l, y) + 1;
                assert(c.spec_block_at(x, y) == BlockType::Air);
            } else {
                let (sx, sy2, sd, dd, kk) = choose|sx: int, sy2: int, sd: int, dd: int, kk: int|
                    2 <= sx < 30 && 2 <= sy2 < 121 && open_cave_floor(mid, sy, sw, sx, sy2)
                        && #[trigger] stair_chosen(mid, sy, sw, sx, sy2, sd, dd) && 1 <= kk < dd
                        && x == #[trigger] stair_column(sx, sd, kk) && y == sy2 + kk;
                assert(c.spec_block_at(stair_column(sx, sd, kk), sy2 + kk) == BlockType::Air);
            }
        } else if cut_cell(mid, sy, sw, x, y + 1) {
            if bridge_cell(mid, sy, sw, x, y + 1) {
                let l = choose|l: int| 2 <= l < 30 && 2 <= y + 1 < 126 && open_cave_floor(mid, sy, sw, l, y + 1)
                    && l < x < l + #[trigger] bridge_width(mid, sy, sw, l, y + 1) + 1;
                assert(c.spec_block_at(x, y + 1) == BlockType::Air);
            } else {
                let (sx, sy2, sd, dd, kk) = choose|sx: int, sy2: int, sd: int, dd: int, kk: int|
                    2 <= sx < 30 && 2 <= sy2 < 121 && open_cave_floor(mid, sy, sw, sx, sy2)
                        && #[trigger] stair_chosen(mid, sy, sw, sx, sy2, sd, dd) && 1 <= kk < dd
                        && x == #[trigger] stair_column(sx, sd, kk) && y + 1 == sy2 + kk;
                assert(c.spec_block_at(stair_column(sx, sd, kk), sy2 + kk) == BlockType::Air);
            }
        }
    }
}

/// Makes the caves of a generated overworld chunk easier to travel (see
/// `paced_through`): short dead ends are filled in with stone (twice over), then thin walls between
/// open cave floors on a row are cut through and stair passages are cut
/// from open floors down to open floors a few rows lower; cutting clears
/// the floor cell and the cell above it unless it holds water or lava.
/// `surface_y_by_x` and `surface_water_by_x` give each column's surface row
/// and whether water lies on it; cells within five rows of the surface, and
/// columns under water, are left alone.
pub fn refine_overworld_cave_pacing(
    chunk: &mut Chunk,
    surface_y_by_x: &[i32; 32],
    surface_water_by_x: &[bool; 32],
)
    requires
        old(chunk).wf(),
    ensures
        final(chunk).wf(),
        final(chunk).view_x() == old(chunk).view_x(),
        final(chunk).spec_save_key() == old(chunk).spec_save_key(),
        forall|x: int, y: int| #[trigger] cave_edit_ok(old(chunk).spec_block_at(x, y), final(chunk).spec_block_at(x, y)),
        forall|x: int, y: int| !inner_cave_cell(x, y) ==> #[trigger] final(chunk).spec_block_at(x, y) == old(
            chunk,
        ).spec_block_at(x, y),
        exists|c1: Chunk, mid: Chunk| #[trigger] paced_through(
            *old(chunk),
            c1,
            mid,
            *final(chunk),
            surface_y_by_x@,
            surface_water_by_x@,
        ),
{
    let ghost orig = *chunk;
    let ghost mut c1 = *chunk;
    let mut pass: usize = 0;
    let mut done = false;
    while pass < OVERWORLD_CAVE_DEAD_END_TRIM_PASSES && !done
        invariant
            chunk.wf(),
            chunk.view_x() == orig.view_x(),
            chunk.spec_save_key() == orig.spec_save_key(),
            trimmed_from(orig, *chunk),
            pass <= 2,
            pass == 0 && !done ==> *chunk == orig,
            pass >= 1 || done ==> trimmed_once(orig, c1, surface_y_by_x@, surface_water_by_x@),
            pass == 1 && !done ==> *chunk == c1,
            pass == 2 || done ==> trimmed_once(c1, *chunk, surface_y_by_x@, surface_water_by_x@),
        decreases 2 - pass,
    {
        let ghost before = *chunk;
        let found = trim_dead_ends(chunk, surface_y_by_x, surface_water_by_x);
        proof {
            assert forall|x2: int, y2: int| in_chunk(x2, y2) implies #[trigger] trim_ok(
                orig.spec_block_at(x2, y2),
                chunk.spec_block_at(x2, y2),
            ) by {
                assert(trim_ok(orig.spec_block_at(x2, y2), before.spec_block_at(x2, y2)));
                assert(trim_ok(before.spec_block_at(x2, y2), chunk.spec_block_at(x2, y2)));
            }
            assert forall|x2: int, y2: int| !inner_cave_cell(x2, y2) implies #[trigger] chunk.spec_block_at(x2, y2)
                == orig.spec_block_at(x2, y2) by {
                assert(before.spec_block_at(x2, y2) == orig.spec_block_at(x2, y2));
            }
            if pass == 0 {
                c1 = *chunk;
                if !found {
                    assert forall|x: int, y: int| #[trigger] chunk.spec_block_at(x, y) == trimmed_cell(
                        c1,
                        surface_y_by_x@,
                        surface_water_by_x@,
                        x,
                        y,
                    ) by {
                        assert(chunk.spec_block_at(x, y) == trimmed_cell(before, surface_y_by_x@, surface_water_by_x@, x, y));
                    }
                }
            }
        }
        if !found {
            done = true;
        }
        pass = pass + 1;
    }

    let ghost mid = *chunk;
    let mut carve: Vec<(usize, usize)> = Vec::new();
    collect_cave_bridges(chunk, surface_y_by_x, surface_water_by_x, &mut carve);
    let ghost bridges = carve@;
    collect_cave_stairs(chunk, surface_y_by_x, surface_water_by_x, &mut carve);
    proof {
        assert forall|k: int| 0 <= k < carve@.len() implies cut_cell(
            mid,
            surface_y_by_x@,
            surface_water_by_x@,
            (#[trigger] carve@[k]).0 as int,
            carve@[k].1 as int,
        ) by {
            if k < bridges.len() {
                assert(carve@[k] == bridges[k]);
            }
        }
    }

    let mut i: usize = 0;
    while i < carve.len()
        invariant
            chunk.wf(),
            chunk.view_x() == orig.view_x(),
            chunk.spec_save_key() == orig.spec_save_key(),
            trimmed_from(orig, mid),
            carved_from(mid, *chunk),
            i <= carve@.len(),
            forall|k: int| 0 <= k < carve@.len() ==> 2 <= (#[trigger] carve@[k]).0 < 30 && 2 <= carve@[k].1 < 126,
            forall|k: int|
                0 <= k < i ==> (!mid.spec_block_at((#[trigger] carve@[k]).0 as int, carve@[k].1 as int).spec_is_fluid()
                    ==> chunk.spec_block_at(carve@[k].0 as int, carve@[k].1 as int) == BlockType::Air) && (
                !mid.spec_block_at(carve@[k].0 as int, carve@[k].1 - 1).spec_is_fluid() ==> chunk.spec_block_at(
                    carve@[k].0 as int,
                    carve@[k].1 - 1,
                ) == BlockType::Air),
            forall|k: int| 0 <= k < carve@.len() ==> cut_cell(
                mid,
                surface_y_by_x@,
                surface_water_by_x@,
                (#[trigger] carve@[k]).0 as int,
                carve@[k].1 as int,
            ),
            forall|x: int, y: int| #[trigger] chunk.spec_block_at(x, y) != mid.spec_block_at(x, y) ==> cut_cell(
                mid,
                surface_y_by_x@,
                surface_water_by_x@,
                x,
                y,
            ) || cut_cell(mid, surface_y_by_x@, surface_water_by_x@, x, y + 1),
        decreases carve@.len() - i,
    {
        let ghost c_entry = *chunk;
        let (x, y) = carve[i];
        if !chunk.get_block(x, y).is_fluid() {
            let ghost c0 = *chunk;
            put_cell(chunk, x, y, BlockType::Air);
            proof {
                assert forall|x2: int, y2: int| #[trigger] chunk.spec_block_at(x2, y2) == mid.spec_block_at(x2, y2) || (
                !mid.spec_block_at(x2, y2).spec_is_fluid() && chunk.spec_block_at(x2, y2) == BlockType::Air) by {
                    assert(c0.spec_block_at(x2, y2) == mid.spec_block_at(x2, y2) || (!mid.spec_block_at(
                        x2,
                        y2,
                    ).spec_is_fluid() && c0.spec_block_at(x2, y2) == BlockType::Air));
                }
                assert forall|x2: int, y2: int| !inner_cave_cell(x2, y2) implies #[trigger] chunk.spec_block_at(x2, y2)
                    == mid.spec_block_at(x2, y2) by {
                    assert(c0.spec_block_at(x2, y2) == mid.spec_block_at(x2, y2));
                }
            }
        }
        if !chunk.get_block(x, y - 1).is_fluid() {
            let ghost c0 = *chunk;
            put_cell(chunk, x, y - 1, BlockType::Air);
            proof {
                assert forall|x2: int, y2: int| #[trigger] chunk.spec_block_at(x2, y2) == mid.spec_block_at(x2, y2) || (
                !mid.spec_block_at(x2, y2).spec_is_fluid() && chunk.spec_block_at(x2, y2) == BlockType::Air) by {
                    assert(c0.spec_block_at(x2, y2) == mid.spec_block_at(x2, y2) || (!mid.spec_block_at(
                        x2,
                        y2,
                    ).spec_is_fluid() && c0.spec_block_at(x2, y2) == BlockType::Air));
                }
                assert forall|x2: int, y2: int| !inner_cave_cell(x2, y2) implies #[trigger] chunk.spec_block_at(x2, y2)
                    == mid.spec_block_at(x2, y2) by {
                    assert(c0.spec_block_at(x2, y2) == mid.spec_block_at(x2, y2));
                }
            }
        }
        proof {
            assert forall|x2: int, y2: int| #[trigger] chunk.spec_block_at(x2, y2) != c_entry.spec_block_at(x2, y2)
                implies chunk.spec_block_at(x2, y2) == BlockType::Air by {}
            let xi = x as int;
            let yi = y as int;
            assert(cut_cell(mid, surface_y_by_x@, surface_water_by_x@, xi, yi));
            assert forall|x2: int, y2: int| #[trigger] chunk.spec_block_at(x2, y2) != mid.spec_block_at(x2, y2) implies cut_cell(
                mid,
                surface_y_by_x@,
                surface_water_by_x@,
                x2,
                y2,
            ) || cut_cell(mid, surface_y_by_x@, surface_water_by_x@, x2, y2 + 1) by {
                if chunk.spec_block_at(x2, y2) == c_entry.spec_block_at(x2, y2) {
                } else if x2 == xi && y2 == yi - 1 {
                    assert(y2 + 1 == yi);
                }
            }
            if !mid.spec_block_at(xi, yi).spec_is_fluid() {
                assert(chunk.spec_block_at(xi, yi) == BlockType::Air);
            }
            if !mid.spec_block_at(xi, yi - 1).spec_is_fluid() {
                assert(chunk.spec_block_at(xi, yi - 1) == BlockType::Air);
            }
        }
        i = i + 1;
    }
    proof {
        assert forall|l: int, y: int, f: int|
            2 <= l < 30 && 2 <= y < 126 && open_cave_floor(mid, surface_y_by_x@, surface_water_by_x@, l, y) && l < f < l
                + #[trigger] bridge_width(mid, surface_y_by_x@, surface_water_by_x@, l, y) + 1 implies #[trigger] chunk.spec_block_at(
            f,
            y,
        ) == BlockType::Air && chunk.spec_block_at(f, y - 1) == BlockType::Air by {
            let w = bridge_width(mid, surface_y_by_x@, surface_water_by_x@, l, y);
            assert(bridge_ok(mid, surface_y_by_x@, surface_water_by_x@, l, y, w));
            assert(cut_ok(mid, surface_y_by_x@, surface_water_by_x@, f, y));
            assert(bridges.contains((f as usize, y as usize)));
            lemma_prefix_contains(bridges, carve@, (f as usize, y as usize));
            let k = choose|k: int| 0 <= k < carve@.len() && carve@[k] == (f as usize, y as usize);
            assert(carve@[k].0 as int == f && carve@[k].1 as int == y);
        }
        assert forall|x: int, y: int, side: int, d: int, k: int|
            2 <= x < 30 && 2 <= y < 121 && open_cave_floor(mid, surface_y_by_x@, surface_water_by_x@, x, y) && #[trigger] stair_chosen(
                mid,
                surface_y_by_x@,
                surface_water_by_x@,
                x,
                y,
                side,
                d,
            ) && 1 <= k < d implies #[trigger] chunk.spec_block_at(stair_column(x, side, k), y + k) == BlockType::Air
            && chunk.spec_block_at(stair_column(x, side, k), y + k - 1) == BlockType::Air by {
            assert(cut_ok(mid, surface_y_by_x@, surface_water_by_x@, stair_column(x, side, k), y + k));
            assert(carve@.contains((stair_column(x, side, k) as usize, (y + k) as usize)));
            let j = choose|j: int| 0 <= j < carve@.len() && carve@[j] == (stair_column(x, side, k) as usize, (y + k) as usize);
            assert(carve@[j].0 as int == stair_column(x, side, k) && carve@[j].1 as int == y + k);
        }
        assert(bridges_cut(mid, *chunk, surface_y_by_x@, surface_water_by_x@));
        assert(stairs_cut(mid, *chunk, surface_y_by_x@, surface_water_by_x@));
        lemma_cut_cells_exact(mid, *chunk, surface_y_by_x@, surface_water_by_x@);
        assert(paced_through(orig, c1, mid, *chunk, surface_y_by_x@, surface_water_by_x@));
    }
    proof {
        assert forall|x: int, y: int| #[trigger] cave_edit_ok(orig.spec_block_at(x, y), chunk.spec_block_at(x, y)) by {
            assert(chunk.spec_block_at(x, y) == mid.spec_block_at(x, y) || (!mid.spec_block_at(x, y).spec_is_fluid()
                && chunk.spec_block_at(x, y) == BlockType::Air));
            if in_chunk(x, y) {
                assert(trim_ok(orig.spec_block_at(x, y), mid.spec_block_at(x, y)));
            } else {
                assert(!inner_cave_cell(x, y));
                assert(mid.spec_block_at(x, y) == orig.spec_block_at(x, y));
            }
        }
        assert forall|x: int, y: int| !inner_cave_cell(x, y) implies #[trigger] chunk.spec_block_at(x, y)
            == orig.spec_block_at(x, y) by {
            assert(mid.spec_block_at(x, y) == orig.spec_block_at(x, y));
        }
    }
}

} // verus!
