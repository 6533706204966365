use vstd::prelude::*;
use super::block::BlockType;
use super::caves::put_cell;
use super::chunk::{Chunk, CHUNK_HEIGHT, CHUNK_WIDTH, cell_index};
use super::item::ItemType;
use super::rules::rem_euclid_i32;
use super::structures::{add_loot, chest_holds, empty_loot_chest, fresh_chest, loot_chest, loot_roll, next_loot_roll};
use super::inventory::{stack_limit, Inventory};
use super::stronghold::{same_chunk_frame, same_outside};

verus! {

/// Chunk columns per nether region; each region holds one fortress.
pub const NETHER_FORTRESS_REGION_CHUNKS: i32 = 24;

/// The fewest chunks from the start of its region to a fortress's centre.
pub const NETHER_FORTRESS_CENTER_MIN_OFFSET_CHUNKS: i32 = 6;

/// How many chunk positions a fortress centre can take within its region.
pub const NETHER_FORTRESS_CENTER_OFFSET_SPAN_CHUNKS: i32 = 20;

/// The highest row a fortress floor can lie on.
pub const NETHER_FORTRESS_BASE_Y_MIN: i32 = 40;

/// How many rows a fortress floor can lie on.
pub const NETHER_FORTRESS_BASE_Y_SPAN: i32 = 20;

/// Columns from a fortress's centre to either end.
pub const NETHER_FORTRESS_HALF_SPAN_BLOCKS: i32 = 96;

/// Columns from a fortress's centre to either loot chapel.
pub const NETHER_FORTRESS_CHEST_OFFSET_BLOCKS: i32 = 54;

/// Rows from a fortress's floor up to its roof.
pub const NETHER_FORTRESS_ROOF_HEIGHT: i32 = 5;

/// Columns from a fortress's centre to its outer gatehouses.
pub const NETHER_FORTRESS_GATE_OFFSET_BLOCKS: i32 = 72;

/// Columns from a fortress's centre to its blaze bastions.
pub const NETHER_FORTRESS_BASTION_OFFSET_BLOCKS: i32 = 38;

/// Columns from either end of a fortress to its watchtowers.
pub const NETHER_FORTRESS_WATCHTOWER_INSET_BLOCKS: i32 = 18;

/// Where the fortress of a nether region stands.
#[derive(Clone, Copy, PartialEq, Eq, Debug, Structural)]
pub struct NetherFortressLayout {
    pub center_x: i32,
    pub left_x: i32,
    pub right_x: i32,
    pub base_y: i32,
    pub roof_y: i32,
    pub chest_left_x: i32,
    pub chest_right_x: i32,
    pub seed: u32,
}

/// A layout as `nether_fortress_layout` makes them: every part placed
/// relative to its centre, the floor on rows 40 to 59, the centre far from
/// the ends of `i32`.
pub open spec fn fortress_layout_ok(l: NetherFortressLayout) -> bool {
    &&& -0x4100_0000 <= l.center_x <= 0x4100_0000
    &&& l.left_x == l.center_x - NETHER_FORTRESS_HALF_SPAN_BLOCKS
    &&& l.right_x == l.center_x + NETHER_FORTRESS_HALF_SPAN_BLOCKS
    &&& NETHER_FORTRESS_BASE_Y_MIN <= l.base_y < NETHER_FORTRESS_BASE_Y_MIN + NETHER_FORTRESS_BASE_Y_SPAN
    &&& l.roof_y == l.base_y - NETHER_FORTRESS_ROOF_HEIGHT
    &&& l.chest_left_x == l.center_x - NETHER_FORTRESS_CHEST_OFFSET_BLOCKS
    &&& l.chest_right_x == l.center_x + NETHER_FORTRESS_CHEST_OFFSET_BLOCKS
}

/// The layout of the fortress of region `region_chunk`, its centre
/// `center_step` chunk positions into the span a centre can take and its
/// floor `base_step` rows into the span a floor can take (both drawn from
/// terrain noise by the caller).
pub fn nether_fortress_layout(region_chunk: i32, center_step: i32, base_step: i32) -> (r: NetherFortressLayout)
    requires
        -1_400_000 <= region_chunk <= 1_400_000,
        0 <= center_step < NETHER_FORTRESS_CENTER_OFFSET_SPAN_CHUNKS,
        0 <= base_step < NETHER_FORTRESS_BASE_Y_SPAN,
    ensures
        fortress_layout_ok(r),
        r.center_x == (region_chunk * NETHER_FORTRESS_REGION_CHUNKS + NETHER_FORTRESS_CENTER_MIN_OFFSET_CHUNKS
            + center_step) * 32 + 16,
        r.base_y == NETHER_FORTRESS_BASE_Y_MIN + base_step,
        r.seed == (region_chunk as u32).wrapping_mul(1_103_515_245).wrapping_add(12_345),
{
    proof {
        assert(-33_600_000 <= region_chunk * 24 <= 33_600_000) by (nonlinear_arith)
            requires
                -1_400_000 <= region_chunk <= 1_400_000,
        ;
    }
    let region_start_chunk = region_chunk * NETHER_FORTRESS_REGION_CHUNKS;
    proof {
        let cc = region_start_chunk + 6 + center_step;
        assert(-1_075_200_000 <= cc * 32 <= 1_075_200_800) by (nonlinear_arith)
            requires
                -33_600_000 <= cc <= 33_600_025,
        ;
    }
    let center_chunk = region_start_chunk + NETHER_FORTRESS_CENTER_MIN_OFFSET_CHUNKS + center_step;
    let center_x = center_chunk * CHUNK_WIDTH as i32 + (CHUNK_WIDTH as i32 / 2);
    let base_y = NETHER_FORTRESS_BASE_Y_MIN + base_step;
    NetherFortressLayout {
        center_x,
        left_x: center_x - NETHER_FORTRESS_HALF_SPAN_BLOCKS,
        right_x: center_x + NETHER_FORTRESS_HALF_SPAN_BLOCKS,
        base_y,
        roof_y: base_y - NETHER_FORTRESS_ROOF_HEIGHT,
        chest_left_x: center_x - NETHER_FORTRESS_CHEST_OFFSET_BLOCKS,
        chest_right_x: center_x + NETHER_FORTRESS_CHEST_OFFSET_BLOCKS,
        seed: fortress_seed(region_chunk),
    }
}

/// The loot seed of the fortress of region `region_chunk`.
fn fortress_seed(region_chunk: i32) -> (r: u32)
    ensures
        r == (region_chunk as u32).wrapping_mul(1_103_515_245).wrapping_add(12_345),
{
    (region_chunk as u32).wrapping_mul(1_103_515_245).wrapping_add(12_345)
}

/// Whether cell (x, y) of the chunk starting at world column `c_start`
/// holds one of the two loot chests of the fortress laid out by `layout`
/// (the left one only, unless `both`).
pub open spec fn fortress_chest_cell(c_start: int, layout: NetherFortressLayout, x: int, y: int, both: bool) -> bool {
    &&& 0 <= x < 32
    &&& y == layout.base_y - 3
    &&& (c_start + x == layout.chest_left_x || (both && c_start + x == layout.chest_right_x))
}

/// The chunk changed only inside world columns `left..=right`, rows
/// `top..=bottom`, and kept its frame.
pub open spec fn fortress_changed_within(
    before: Chunk,
    after: Chunk,
    c_start: int,
    left: int,
    right: int,
    top: int,
    bottom: int,
) -> bool {
    same_chunk_frame(before, after) && same_outside(before, after, c_start, left, right, top, bottom)
}

/// Writes `block` at world cell (wx, wy) when it lies in the chunk that
/// starts at world column `c_start`, below its top two rows and above its
/// bottom row.
pub fn set_nether_fortress_block(chunk: &mut Chunk, c_start: i32, c_end: i32, wx: i32, wy: i32, block: BlockType)
    requires
        old(chunk).wf(),
        c_end == c_start + 32,
    ensures
        fortress_changed_within(*old(chunk), *final(chunk), c_start as int, wx as int, wx as int, wy as int, wy as int),
        c_start <= wx < c_end && 1 < wy < 127 ==> final(chunk).spec_block_at(wx - c_start, wy as int) == block,
{
    if wx < c_start || wx >= c_end || wy <= 1 || wy >= CHUNK_HEIGHT as i32 - 1 {
        return;
    }
    let lx = (wx - c_start) as usize;
    put_cell(chunk, lx, wy as usize, block);
}

/// The floor block of column `wx` of the fortress centred on `center_x`: a
/// stair then two slabs every thirteen columns, stone bricks between.
pub open spec fn fortress_floor_block(wx: int, center_x: int) -> BlockType {
    if (wx - center_x) % 13 == 0 {
        BlockType::StoneStairs
    } else if (wx - center_x) % 13 <= 2 {
        BlockType::StoneSlab
    } else {
        BlockType::StoneBricks
    }
}

/// The floor block of column `wx` of the fortress centred on `center_x`.
fn nether_fortress_floor_block(wx: i32, center_x: i32) -> (r: BlockType)
    requires
        -1000 <= wx - center_x <= 1000,
    ensures
        r == fortress_floor_block(wx as int, center_x as int),
{
    match rem_euclid_i32(wx - center_x, 13) {
        0 => BlockType::StoneStairs,
        1 | 2 => BlockType::StoneSlab,
        _ => BlockType::StoneBricks,
    }
}

/// Whether world cell (wx, wy) holds `b` in the chunk starting at
/// `c_start`, where the fortress writes that cell at all.
pub open spec fn fortress_block_is(c: Chunk, c_start: int, wx: int, wy: int, b: BlockType) -> bool {
    c_start <= wx < c_start + 32 && 1 < wy < 127 ==> c.spec_block_at(wx - c_start, wy) == b
}

/// How far world column `wx` lies from the centre of the fortress of
/// `layout`.
pub open spec fn center_distance(layout: NetherFortressLayout, wx: int) -> int {
    if wx >= layout.center_x {
        wx - layout.center_x
    } else {
        layout.center_x - wx
    }
}

/// The row of the glowstone crown of the fortress's watchtowers.
pub open spec fn crown_row(layout: NetherFortressLayout) -> int {
    layout.roof_y - 8
}

/// The glowstone under the roof of the central gatehouse of the fortress
/// of `layout`: two rows under the roof beside the middle, and right over
/// the middle one row lower.
pub open spec fn central_gate_lit(c: Chunk, c_start: int, layout: NetherFortressLayout) -> bool {
    &&& fortress_block_is(c, c_start, layout.center_x - 2, layout.roof_y - 5, BlockType::Glowstone)
    &&& fortress_block_is(c, c_start, layout.center_x + 2, layout.roof_y - 5, BlockType::Glowstone)
    &&& fortress_block_is(c, c_start, layout.center_x as int, layout.roof_y - 4, BlockType::Glowstone)
}

/// The glowstone crowns of both watchtowers of the fortress of `layout`,
/// beside each spire.
pub open spec fn crowns_lit(c: Chunk, c_start: int, layout: NetherFortressLayout) -> bool {
    &&& fortress_block_is(c, c_start, layout.center_x - 79, crown_row(layout), BlockType::Glowstone)
    &&& fortress_block_is(c, c_start, layout.center_x - 77, crown_row(layout), BlockType::Glowstone)
    &&& fortress_block_is(c, c_start, layout.center_x + 77, crown_row(layout), BlockType::Glowstone)
    &&& fortress_block_is(c, c_start, layout.center_x + 79, crown_row(layout), BlockType::Glowstone)
}

/// Whether world column `wx` of the fortress of `layout` lies under a
/// gatehouse: within eight columns of the centre, or sixty-six to
/// seventy-eight away from it.
pub open spec fn gatehouse_column(layout: NetherFortressLayout, wx: int) -> bool {
    let d = center_distance(layout, wx);
    d <= 8 || 66 <= d <= 78
}

/// Whether world column `wx` of the fortress of `layout` is plain hall:
/// clear of the gatehouses, blaze bastions, chapels, watchtowers and the
/// openings near the hall's ends.
pub open spec fn plain_hall_column(layout: NetherFortressLayout, wx: int) -> bool {
    let d = center_distance(layout, wx);
    (9 <= d <= 31) || (45 <= d <= 48) || (83 <= d <= 89) || (91 <= d <= 96)
}

/// Column `x` of `c`, world column `wx`, holds the fortress hall: stone
/// brick roof, the patterned floor, air between, and, every eleven columns
/// from the centre, a stone brick pillar fourteen rows down from the floor.
pub open spec fn hall_column_built(c: Chunk, layout: NetherFortressLayout, x: int, wx: int) -> bool {
    &&& c.spec_block_at(x, layout.roof_y as int) == BlockType::StoneBricks
    &&& c.spec_block_at(x, layout.base_y as int) == fortress_floor_block(wx, layout.center_x as int)
    &&& forall|y: int| layout.roof_y < y < layout.base_y ==> #[trigger] c.spec_block_at(x, y) == BlockType::Air
    &&& (wx - layout.center_x) % 11 == 0 ==> forall|y: int|
        layout.base_y < y <= layout.base_y + 14 ==> #[trigger] c.spec_block_at(x, y) == BlockType::StoneBricks
}

/// The middle column of gatehouse `k` (0 to 2) of the fortress of `layout`.
pub open spec fn gate_center(layout: NetherFortressLayout, k: int) -> int {
    if k == 0 {
        layout.center_x - NETHER_FORTRESS_GATE_OFFSET_BLOCKS
    } else if k == 1 {
        layout.center_x as int
    } else {
        layout.center_x + NETHER_FORTRESS_GATE_OFFSET_BLOCKS
    }
}

/// How far gatehouse `k` reaches on each side of its middle.
pub open spec fn gate_half_width(k: int) -> int {
    if k == 1 {
        8
    } else {
        6
    }
}

/// The middle column of brazier `side` (0 left, 1 right) of gatehouse `k`.
pub open spec fn gate_brazier_x(layout: NetherFortressLayout, k: int, side: int) -> int {
    if side == 0 {
        gate_center(layout, k) - gate_half_width(k) + 2
    } else {
        gate_center(layout, k) + gate_half_width(k) - 2
    }
}

/// Writes `block` over rows `top..=bottom` of world column `wx`.
fn fortress_column(chunk: &mut Chunk, c_start: i32, c_end: i32, wx: i32, top: i32, bottom: i32, block: BlockType)
    requires
        old(chunk).wf(),
        c_end == c_start + 32,
        -2000 <= top <= 2000,
        -2000 <= bottom <= 2000,
    ensures
        fortress_changed_within(*old(chunk), *final(chunk), c_start as int, wx as int, wx as int, top as int, bottom as int),
        c_start <= wx < c_end ==> forall|y: int| top <= y <= bottom && 1 < y < 127 ==> #[trigger] final(chunk).spec_block_at(
            wx - c_start,
            y,
        ) == block,
{
    let ghost orig = *chunk;
    let mut wy = top;
    while wy <= bottom
        invariant
            fortress_changed_within(orig, *chunk, c_start as int, wx as int, wx as int, top as int, bottom as int),
            c_start <= wx < c_end ==> forall|y: int| top <= y < wy && 1 < y < 127 ==> #[trigger] chunk.spec_block_at(
                wx - c_start,
                y,
            ) == block,
            c_end == c_start + 32,
            -2000 <= top <= 2000,
            -2000 <= bottom <= 2000,
            top <= wy <= bottom + 1 || (bottom < top && wy == top),
        decreases bottom + 1 - wy,
    {
        set_nether_fortress_block(chunk, c_start, c_end, wx, wy, block);
        wy = wy + 1;
    }
}

/// Writes `block` over columns `left..=right` of row `wy`.
fn fortress_row(chunk: &mut Chunk, c_start: i32, c_end: i32, left: i32, right: i32, wy: i32, block: BlockType)
    requires
        old(chunk).wf(),
        c_end == c_start + 32,
        -0x4100_1000 <= left <= 0x4100_1000,
        -0x4100_1000 <= right <= 0x4100_1000,
    ensures
        fortress_changed_within(*old(chunk), *final(chunk), c_start as int, left as int, right as int, wy as int, wy as int),
        1 < wy < 127 ==> forall|x: int| 0 <= x < 32 && left <= c_start + x <= right ==> #[trigger] final(chunk).spec_block_at(
            x,
            wy as int,
        ) == block,
{
    let ghost orig = *chunk;
    let mut wx = left;
    while wx <= right
        invariant
            fortress_changed_within(orig, *chunk, c_start as int, left as int, right as int, wy as int, wy as int),
            1 < wy < 127 ==> forall|x: int| 0 <= x < 32 && left <= c_start + x < wx ==> #[trigger] chunk.spec_block_at(
                x,
                wy as int,
            ) == block,
            c_end == c_start + 32,
            -0x4100_1000 <= left <= 0x4100_1000,
            -0x4100_1000 <= right <= 0x4100_1000,
            left <= wx <= right + 1 || (right < left && wx == left),
        decreases right + 1 - wx,
    {
        set_nether_fortress_block(chunk, c_start, c_end, wx, wy, block);
        wx = wx + 1;
    }
}

/// A landmark hall centred on `center_x` from row `top` down to the floor
/// row `base_y`: stone brick walls round air, an arch opening in the floor
/// wall, stair buttresses inside both walls, and glowstone under the roof.
fn carve_nether_fortress_landmark(
    chunk: &mut Chunk,
    c_start: i32,
    c_end: i32,
    center_x: i32,
    top: i32,
    base_y: i32,
    half_width: i32,
    arch_half_width: i32,
    arch_height: i32,
)
    requires
        old(chunk).wf(),
        c_end == c_start + 32,
        -0x4100_0100 <= center_x <= 0x4100_0100,
        -1000 <= top <= 1000,
        top + 2 <= base_y <= 1000,
        2 <= half_width <= 10,
        0 <= arch_half_width <= half_width,
        1 <= arch_height <= base_y - top,
        arch_height <= 10,
    ensures
        fortress_changed_within(
            *old(chunk),
            *final(chunk),
            c_start as int,
            center_x - half_width,
            center_x + half_width,
            top as int,
            base_y as int,
        ),
        fortress_block_is(*final(chunk), c_start as int, center_x - 2, top + 1, BlockType::Glowstone),
        fortress_block_is(*final(chunk), c_start as int, center_x + 2, top + 1, BlockType::Glowstone),
        fortress_block_is(*final(chunk), c_start as int, center_x as int, top + 2, BlockType::Glowstone),
{
    let ghost orig = *chunk;
    let left = center_x - half_width;
    let right = center_x + half_width;
    let mut wx = left;
    while wx <= right
        invariant
            fortress_changed_within(orig, *chunk, c_start as int, left as int, right as int, top as int, base_y as int),
            c_end == c_start + 32,
            left == center_x - half_width && right == center_x + half_width,
            -0x4100_0100 <= center_x <= 0x4100_0100,
            2 <= half_width <= 10,
            -1000 <= top <= 1000,
            top + 2 <= base_y <= 1000,
            left <= wx <= right + 1,
        decreases right + 1 - wx,
    {
        let mut wy = top;
        while wy <= base_y
            invariant
                fortress_changed_within(orig, *chunk, c_start as int, left as int, right as int, top as int, base_y as int),
                c_end == c_start + 32,
                left <= wx <= right,
                -1000 <= top <= 1000,
                top + 2 <= base_y <= 1000,
                top <= wy <= base_y + 1,
            decreases base_y + 1 - wy,
        {
            let is_shell = wx == left || wx == right || wy == top || wy == base_y;
            set_nether_fortress_block(
                chunk,
                c_start,
                c_end,
                wx,
                wy,
                if is_shell {
                    BlockType::StoneBricks
                } else {
                    BlockType::Air
                },
            );
            wy = wy + 1;
        }
        wx = wx + 1;
    }

    let mut ax = center_x - arch_half_width;
    while ax <= center_x + arch_half_width
        invariant
            fortress_changed_within(orig, *chunk, c_start as int, left as int, right as int, top as int, base_y as int),
            c_end == c_start + 32,
            left == center_x - half_width && right == center_x + half_width,
            -0x4100_0100 <= center_x <= 0x4100_0100,
            0 <= arch_half_width <= half_width <= 10,
            1 <= arch_height <= base_y - top,
            arch_height <= 10,
            -1000 <= top <= 1000,
            top + 2 <= base_y <= 1000,
            center_x - arch_half_width <= ax <= center_x + arch_half_width + 1,
        decreases center_x + arch_half_width + 1 - ax,
    {
        let ghost before = *chunk;
        fortress_column(chunk, c_start, c_end, ax, base_y - arch_height + 1, base_y - 1, BlockType::Air);
        proof {
            assert(fortress_changed_within(before, *chunk, c_start as int, left as int, right as int, top as int, base_y as int));
        }
        ax = ax + 1;
    }

    let ghost c1 = *chunk;
    set_nether_fortress_block(chunk, c_start, c_end, left + 1, base_y - 1, BlockType::StoneStairs);
    set_nether_fortress_block(chunk, c_start, c_end, left + 1, base_y - 2, BlockType::StoneBricks);
    set_nether_fortress_block(chunk, c_start, c_end, right - 1, base_y - 1, BlockType::StoneStairs);
    set_nether_fortress_block(chunk, c_start, c_end, right - 1, base_y - 2, BlockType::StoneBricks);
    set_nether_fortress_block(chunk, c_start, c_end, center_x - 2, top + 1, BlockType::Glowstone);
    set_nether_fortress_block(chunk, c_start, c_end, center_x + 2, top + 1, BlockType::Glowstone);
    set_nether_fortress_block(chunk, c_start, c_end, center_x, top + 2, BlockType::Glowstone);
}


/// A watchtower centred on `center_x`: a landmark hall with a stone brick
/// spire of two columns, a slab roof and glowstone above it.
fn carve_nether_fortress_watchtower(chunk: &mut Chunk, c_start: i32, c_end: i32, center_x: i32, top: i32, base_y: i32)
    requires
        old(chunk).wf(),
        c_end == c_start + 32,
        -0x4100_0100 <= center_x <= 0x4100_0100,
        8 <= top <= 1000,
        top + 4 <= base_y <= 1000,
    ensures
        fortress_changed_within(
            *old(chunk),
            *final(chunk),
            c_start as int,
            center_x - 4,
            center_x + 4,
            top - 4,
            base_y as int,
        ),
        fortress_block_is(*final(chunk), c_start as int, center_x - 1, if top - 2 > 3 { top - 2 } else { 3 }, BlockType::Glowstone),
        fortress_block_is(*final(chunk), c_start as int, center_x + 1, if top - 2 > 3 { top - 2 } else { 3 }, BlockType::Glowstone),
{
    let ghost orig = *chunk;
    let ghost low = top - 4;
    carve_nether_fortress_landmark(chunk, c_start, c_end, center_x, top, base_y, 4, 2, 4);
    let spire_top = if top - 3 > 4 { top - 3 } else { 4 };
    let spire_bottom = if top - 1 > 4 { top - 1 } else { 4 };
    let ghost c1 = *chunk;
    fortress_column(chunk, c_start, c_end, center_x - 1, spire_top, spire_bottom, BlockType::StoneBricks);
    let ghost c2 = *chunk;
    fortress_column(chunk, c_start, c_end, center_x + 1, spire_top, spire_bottom, BlockType::StoneBricks);
    let ghost c3 = *chunk;
    let roof_y = if top - 4 > 3 { top - 4 } else { 3 };
    fortress_row(chunk, c_start, c_end, center_x - 2, center_x + 2, roof_y, BlockType::StoneSlab);
    let ghost c4 = *chunk;
    let glow_y = if top - 2 > 3 { top - 2 } else { 3 };
    set_nether_fortress_block(chunk, c_start, c_end, center_x - 1, glow_y, BlockType::Glowstone);
    let ghost c5 = *chunk;
    set_nether_fortress_block(chunk, c_start, c_end, center_x + 1, glow_y, BlockType::Glowstone);
    proof {
        assert forall|x: int, y: int| !(center_x - 4 <= c_start + x <= center_x + 4 && low <= y <= base_y) implies #[trigger] chunk.spec_block_at(x, y)
            == orig.spec_block_at(x, y) by {
            assert(chunk.spec_block_at(x, y) == c5.spec_block_at(x, y));
            assert(c5.spec_block_at(x, y) == c4.spec_block_at(x, y));
            assert(c4.spec_block_at(x, y) == c3.spec_block_at(x, y));
            assert(c3.spec_block_at(x, y) == c2.spec_block_at(x, y));
            assert(c2.spec_block_at(x, y) == c1.spec_block_at(x, y));
            assert(c1.spec_block_at(x, y) == orig.spec_block_at(x, y));
        }
    }
}

/// The block the lava brazier centred on `center_x`, lip on row `lip_y`,
/// `depth` deep, puts at world cell (wx, y): slabs on the rim, stone brick
/// walls and floor, air over the lava, lava in the basin.
pub open spec fn brazier_block(center_x: int, lip_y: int, depth: int, wx: int, y: int) -> Option<BlockType> {
    let wall = wx == center_x - 2 || wx == center_x + 2;
    let inner = center_x - 1 <= wx <= center_x + 1;
    if wall && y == lip_y - 1 {
        Some(BlockType::StoneSlab)
    } else if wall && lip_y <= y <= lip_y + depth {
        Some(BlockType::StoneBricks)
    } else if inner && y == lip_y + depth {
        Some(BlockType::StoneBricks)
    } else if inner && y == lip_y {
        Some(BlockType::Air)
    } else if inner && lip_y < y < lip_y + depth {
        Some(BlockType::Lava(8))
    } else {
        None
    }
}

/// A lava brazier centred on `center_x` with its lip on row `lip_y`: three
/// cells of lava `depth` deep in a stone brick basin with slab caps on its
/// rim. Nothing happens too close to the top or the bottom of the world.
pub fn carve_nether_lava_brazier(chunk: &mut Chunk, c_start: i32, c_end: i32, center_x: i32, lip_y: i32, depth: i32)
    requires
        old(chunk).wf(),
        c_end == c_start + 32,
        -0x4100_0100 <= center_x <= 0x4100_0100,
        -1000 <= lip_y <= 1000,
        0 <= depth <= 10,
    ensures
        fortress_changed_within(
            *old(chunk),
            *final(chunk),
            c_start as int,
            center_x - 2,
            center_x + 2,
            lip_y - 1,
            lip_y + depth,
        ),
        2 < lip_y && lip_y + depth < 126 ==> forall|x: int, y: int|
            0 <= x < 32 && #[trigger] brazier_block(center_x as int, lip_y as int, depth as int, c_start + x, y) is Some
                ==> final(chunk).spec_block_at(x, y) == brazier_block(center_x as int, lip_y as int, depth as int, c_start + x, y)->0,
{
    if lip_y <= 2 || lip_y + depth >= CHUNK_HEIGHT as i32 - 2 {
        return;
    }
    let ghost orig = *chunk;
    let mut wx = center_x - 1;
    while wx <= center_x + 1
        invariant
            fortress_changed_within(orig, *chunk, c_start as int, center_x - 2, center_x + 2, lip_y - 1, lip_y + depth),
            2 < lip_y && lip_y + depth < 126,
            forall|x: int, y: int|
                0 <= x < 32 && center_x - 1 <= c_start + x < wx && lip_y <= y < lip_y + depth + 1 ==> #[trigger] chunk.spec_block_at(x, y)
                    == if y == lip_y { BlockType::Air } else { BlockType::Lava(8) },
            c_end == c_start + 32,
            -0x4100_0100 <= center_x <= 0x4100_0100,
            -1000 <= lip_y <= 1000,
            0 <= depth <= 10,
            center_x - 1 <= wx <= center_x + 2,
        decreases center_x + 2 - wx,
    {
        set_nether_fortress_block(chunk, c_start, c_end, wx, lip_y, BlockType::Air);
        fortress_column(chunk, c_start, c_end, wx, lip_y + 1, lip_y + depth, BlockType::Lava(8));
        wx = wx + 1;
    }
    let ghost c1 = *chunk;
    fortress_row(chunk, c_start, c_end, center_x - 2, center_x + 2, lip_y + depth, BlockType::StoneBricks);
    let ghost c2 = *chunk;
    fortress_column(chunk, c_start, c_end, center_x - 2, lip_y, lip_y + depth, BlockType::StoneBricks);
    let ghost c3 = *chunk;
    fortress_column(chunk, c_start, c_end, center_x + 2, lip_y, lip_y + depth, BlockType::StoneBricks);
    let ghost c4 = *chunk;
    set_nether_fortress_block(chunk, c_start, c_end, center_x - 2, lip_y - 1, BlockType::StoneSlab);
    let ghost c5 = *chunk;
    set_nether_fortress_block(chunk, c_start, c_end, center_x + 2, lip_y - 1, BlockType::StoneSlab);
    proof {
        assert forall|x: int, y: int|
            0 <= x < 32 && #[trigger] brazier_block(center_x as int, lip_y as int, depth as int, c_start + x, y) is Some
                implies chunk.spec_block_at(x, y) == brazier_block(center_x as int, lip_y as int, depth as int, c_start + x, y)->0 by {
            let wx = c_start + x;
            if (wx == center_x - 2 || wx == center_x + 2) && y == lip_y - 1 {
            } else {
                assert(chunk.spec_block_at(x, y) == c4.spec_block_at(x, y));
                if (wx == center_x - 2 || wx == center_x + 2) && lip_y <= y <= lip_y + depth {
                } else {
                    assert(c4.spec_block_at(x, y) == c2.spec_block_at(x, y));
                    if y == lip_y + depth {
                    } else {
                        assert(c2.spec_block_at(x, y) == c1.spec_block_at(x, y));
                    }
                }
            }
        }
        assert forall|x: int, y: int| !(center_x - 2 <= c_start + x <= center_x + 2 && lip_y - 1 <= y <= lip_y + depth) implies #[trigger] chunk.spec_block_at(x, y)
            == orig.spec_block_at(x, y) by {
            assert(chunk.spec_block_at(x, y) == c5.spec_block_at(x, y));
            assert(c5.spec_block_at(x, y) == c4.spec_block_at(x, y));
            assert(c4.spec_block_at(x, y) == c3.spec_block_at(x, y));
            assert(c3.spec_block_at(x, y) == c2.spec_block_at(x, y));
            assert(c2.spec_block_at(x, y) == c1.spec_block_at(x, y));
            assert(c1.spec_block_at(x, y) == orig.spec_block_at(x, y));
        }
    }
}


/// Fills the chest at (local_x, y) with fortress loot rolled from `seed`:
/// nether wart (always, when `guaranteed_wart`), then by chance coal, gold,
/// iron, blaze powder, a ghast tear, magma cream and a diamond. Nothing
/// happens where there is no chest.
fn fill_nether_fortress_chest_loot(chunk: &mut Chunk, local_x: usize, y: usize, seed: u32, guaranteed_wart: bool)
    requires
        old(chunk).wf(),
    ensures
        same_chunk_frame(*old(chunk), *final(chunk)),
        final(chunk).view_blocks() == old(chunk).view_blocks(),
        (guaranteed_wart && fresh_chest(*old(chunk), local_x as int, y as int)) ==> chest_holds(
            *final(chunk),
            local_x as int,
            y as int,
            ItemType::NetherWart,
            2 + loot_roll(seed) % 3,
        ),
{
    let chest = match loot_chest(chunk, local_x, y) {
        Some(chest) => chest,
        None => {
            return;
        },
    };
    let ghost fresh = fresh_chest(*old(chunk), local_x as int, y as int);
    proof {
        old(chunk).lemma_wf_views();
        if fresh {
            assert(empty_loot_chest(*chest));
            assert(0 <= cell_index(local_x as int, y as int) < old(chunk).view_chests().len());
        }
    }
    fortress_loot(chest, seed, guaranteed_wart);
}

/// Puts the fortress loot rolled from `seed` into `chest`, nether wart for sure when `guaranteed_wart`.
fn fortress_loot(chest: &mut Inventory, seed: u32, guaranteed_wart: bool)
    requires
        old(chest).wf(),
    ensures
        final(chest).wf(),
        (guaranteed_wart && empty_loot_chest(*old(chest))) ==> final(chest).spec_count(ItemType::NetherWart) == 2 + loot_roll(seed) % 3,
{
    proof {
        if empty_loot_chest(*chest) {
            assert(stack_limit(ItemType::NetherWart) == 64);
            assert(forall|i: int| 0 <= i < chest.slots@.len() ==> #[trigger] chest.slots@[i] is None);
        }
    }
    let mut state = seed;
    if guaranteed_wart {
        state = next_loot_roll(state);
        add_loot(chest, ItemType::NetherWart, 2 + (state % 3));
    } else {
        state = next_loot_roll(state);
        if state % 100 < 58 {
            state = next_loot_roll(state);
            add_loot(chest, ItemType::NetherWart, 1 + (state % 2));
        }
    }
    state = next_loot_roll(state);
    if state % 100 < 62 {
        state = next_loot_roll(state);
        add_loot(chest, ItemType::Coal, 2 + (state % 4));
    }
    state = next_loot_roll(state);
    if state % 100 < 56 {
        state = next_loot_roll(state);
        add_loot(chest, ItemType::GoldIngot, 1 + (state % 3));
    }
    state = next_loot_roll(state);
    if state % 100 < 48 {
        state = next_loot_roll(state);
        add_loot(chest, ItemType::IronIngot, 1 + (state % 3));
    }
    state = next_loot_roll(state);
    if state % 100 < 34 {
        state = next_loot_roll(state);
        add_loot(chest, ItemType::BlazePowder, 1 + (state % 2));
    }
    state = next_loot_roll(state);
    if state % 100 < 24 {
        add_loot(chest, ItemType::GhastTear, 1);
    }
    state = next_loot_roll(state);
    if state % 100 < 18 {
        add_loot(chest, ItemType::MagmaCream, 1);
    }
    state = next_loot_roll(state);
    if state % 100 < 7 {
        add_loot(chest, ItemType::Diamond, 1);
    }
}


/// The fortress's main hall over columns `left_x..=right_x`: a patterned
/// floor on the floor row, a stone brick roof, air between, and stone brick
/// pillars down from the floor every eleven columns.
fn build_fortress_hall(chunk: &mut Chunk, c_start: i32, c_end: i32, layout: NetherFortressLayout)
    requires
        old(chunk).wf(),
        c_end == c_start + 32,
        fortress_layout_ok(layout),
    ensures
        fortress_changed_within(
            *old(chunk),
            *final(chunk),
            c_start as int,
            layout.left_x as int,
            layout.right_x as int,
            layout.roof_y - 10,
            layout.base_y + 14,
        ),
        forall|x: int|
            0 <= x < 32 && layout.left_x <= c_start + x <= layout.right_x ==> #[trigger] hall_column_built(
                *final(chunk),
                layout,
                x,
                c_start + x,
            ),
{
    let ghost orig = *chunk;
    let ghost top = layout.roof_y - 10;
    let ghost bottom = layout.base_y + 14;
    let mut wx = layout.left_x;
    while wx <= layout.right_x
        invariant
            fortress_changed_within(orig, *chunk, c_start as int, layout.left_x as int, layout.right_x as int, top, bottom),
            c_end == c_start + 32,
            fortress_layout_ok(layout),
            top == layout.roof_y - 10,
            bottom == layout.base_y + 14,
            layout.left_x <= wx <= layout.right_x + 1,
            forall|x: int|
                0 <= x < 32 && layout.left_x <= c_start + x < wx ==> #[trigger] hall_column_built(
                    *chunk,
                    layout,
                    x,
                    c_start + x,
                ),
        decreases layout.right_x + 1 - wx,
    {
        let ghost c0 = *chunk;
        let floor = nether_fortress_floor_block(wx, layout.center_x);
        set_nether_fortress_block(chunk, c_start, c_end, wx, layout.base_y, floor);
        set_nether_fortress_block(chunk, c_start, c_end, wx, layout.roof_y, BlockType::StoneBricks);
        assert(fortress_changed_within(c0, *chunk, c_start as int, wx as int, wx as int, layout.roof_y as int, layout.base_y as int));
        fortress_column(chunk, c_start, c_end, wx, layout.roof_y + 1, layout.base_y - 1, BlockType::Air);
        assert(fortress_changed_within(c0, *chunk, c_start as int, wx as int, wx as int, layout.roof_y as int, layout.base_y as int));
        if rem_euclid_i32(wx - layout.center_x, 11) == 0 {
            let support_bottom = if layout.base_y + 14 < CHUNK_HEIGHT as i32 - 4 {
                layout.base_y + 14
            } else {
                CHUNK_HEIGHT as i32 - 4
            };
            fortress_column(chunk, c_start, c_end, wx, layout.base_y + 1, support_bottom, BlockType::StoneBricks);
        }
        assert(fortress_changed_within(c0, *chunk, c_start as int, wx as int, wx as int, top, bottom));
        proof {
            assert forall|x: int| 0 <= x < 32 && layout.left_x <= c_start + x < wx + 1 implies #[trigger] hall_column_built(
                *chunk,
                layout,
                x,
                c_start + x,
            ) by {
                if c_start + x < wx {
                    assert(hall_column_built(c0, layout, x, c_start + x));
                    assert forall|y: int| #[trigger] chunk.spec_block_at(x, y) == c0.spec_block_at(x, y) by {}
                }
            }
        }
        wx = wx + 1;
    }
}

/// The three gatehouses, each with a lava brazier on either side inside it.
fn build_fortress_gatehouses(chunk: &mut Chunk, c_start: i32, c_end: i32, layout: NetherFortressLayout)
    requires
        old(chunk).wf(),
        c_end == c_start + 32,
        fortress_layout_ok(layout),
    ensures
        fortress_changed_within(
            *old(chunk),
            *final(chunk),
            c_start as int,
            layout.left_x as int,
            layout.right_x as int,
            layout.roof_y - 10,
            layout.base_y + 14,
        ),
        forall|k: int, side: int, x: int, y: int|
            0 <= k < 3 && 0 <= side < 2 && 0 <= x < 32 && #[trigger] brazier_block(
                gate_brazier_x(layout, k, side),
                layout.base_y as int,
                2,
                c_start + x,
                y,
            ) is Some ==> final(chunk).spec_block_at(x, y) == brazier_block(
                gate_brazier_x(layout, k, side),
                layout.base_y as int,
                2,
                c_start + x,
                y,
            )->0,
        central_gate_lit(*final(chunk), c_start as int, layout),
        forall|x: int, y: int| !gatehouse_column(layout, c_start + x) ==> #[trigger] final(chunk).spec_block_at(x, y)
            == old(chunk).spec_block_at(x, y),
{
    let ghost orig = *chunk;
    let mut k: usize = 0;
    while k < 3
        invariant
            fortress_changed_within(
                orig,
                *chunk,
                c_start as int,
                layout.left_x as int,
                layout.right_x as int,
                layout.roof_y - 10,
                layout.base_y + 14,
            ),
            c_end == c_start + 32,
            fortress_layout_ok(layout),
            k <= 3,
            forall|k2: int, side: int, x: int, y: int|
                0 <= k2 < k && 0 <= side < 2 && 0 <= x < 32 && #[trigger] brazier_block(
                    gate_brazier_x(layout, k2, side),
                    layout.base_y as int,
                    2,
                    c_start + x,
                    y,
                ) is Some ==> chunk.spec_block_at(x, y) == brazier_block(
                    gate_brazier_x(layout, k2, side),
                    layout.base_y as int,
                    2,
                    c_start + x,
                    y,
                )->0,
            k >= 2 ==> central_gate_lit(*chunk, c_start as int, layout),
            forall|x: int, y: int| !gatehouse_column(layout, c_start + x) ==> #[trigger] chunk.spec_block_at(x, y)
                == orig.spec_block_at(x, y),
        decreases 3 - k,
    {
        let central = k == 1;
        let gate_center_x = if k == 0 {
            layout.center_x - NETHER_FORTRESS_GATE_OFFSET_BLOCKS
        } else if central {
            layout.center_x
        } else {
            layout.center_x + NETHER_FORTRESS_GATE_OFFSET_BLOCKS
        };
        let gate_half_width = if central { 8 } else { 6 };
        let gate_top = if central { layout.roof_y - 6 } else { layout.roof_y - 5 };
        let gate_arch_half_width = if central { 5 } else { 4 };
        let ghost g0 = *chunk;
        carve_nether_fortress_landmark(
            chunk,
            c_start,
            c_end,
            gate_center_x,
            gate_top,
            layout.base_y,
            gate_half_width,
            gate_arch_half_width,
            4,
        );
        assert(fortress_changed_within(orig, *chunk, c_start as int, layout.left_x as int, layout.right_x as int, layout.roof_y - 10, layout.base_y + 14));
        let ghost g1 = *chunk;
        carve_nether_lava_brazier(chunk, c_start, c_end, gate_center_x - gate_half_width + 2, layout.base_y, 2);
        let ghost g2 = *chunk;
        assert(fortress_changed_within(orig, *chunk, c_start as int, layout.left_x as int, layout.right_x as int, layout.roof_y - 10, layout.base_y + 14));
        carve_nether_lava_brazier(chunk, c_start, c_end, gate_center_x + gate_half_width - 2, layout.base_y, 2);
        proof {
            let cx = layout.center_x as int;
            let cells = seq![(cx - 2, layout.roof_y - 5), (cx + 2, layout.roof_y - 5), (cx, layout.roof_y - 4)];
            assert forall|i: int| 0 <= i < 3 && c_start <= #[trigger] cells[i].0 < c_start + 32 implies chunk.spec_block_at(
                cells[i].0 - c_start,
                cells[i].1,
            ) == (if k == 1 { BlockType::Glowstone } else { g0.spec_block_at(cells[i].0 - c_start, cells[i].1) }) by {
                let x = cells[i].0 - c_start;
                let y = cells[i].1;
                assert(chunk.spec_block_at(x, y) == g2.spec_block_at(x, y));
                assert(g2.spec_block_at(x, y) == g1.spec_block_at(x, y));
                if k != 1 {
                    assert(g1.spec_block_at(x, y) == g0.spec_block_at(x, y));
                }
            }
            assert(cells[0] == (cx - 2, layout.roof_y - 5) && cells[1] == (cx + 2, layout.roof_y - 5) && cells[2] == (cx, layout.roof_y - 4));
            assert forall|x: int, y: int| !gatehouse_column(layout, c_start + x) implies #[trigger] chunk.spec_block_at(x, y)
                == orig.spec_block_at(x, y) by {
                assert(gate_center_x == gate_center(layout, k as int));
                assert(chunk.spec_block_at(x, y) == g2.spec_block_at(x, y));
                assert(g2.spec_block_at(x, y) == g1.spec_block_at(x, y));
                assert(g1.spec_block_at(x, y) == g0.spec_block_at(x, y));
            }
        }
        k = k + 1;
    }
}

/// The two watchtowers and the two blaze bastions, each bastion's spawner
/// on a slab platform above the walking lane.
fn build_fortress_towers(chunk: &mut Chunk, c_start: i32, c_end: i32, layout: NetherFortressLayout)
    requires
        old(chunk).wf(),
        c_end == c_start + 32,
        fortress_layout_ok(layout),
    ensures
        fortress_changed_within(
            *old(chunk),
            *final(chunk),
            c_start as int,
            layout.left_x as int,
            layout.right_x as int,
            layout.roof_y - 10,
            layout.base_y + 14,
        ),
        fortress_block_is(*final(chunk), c_start as int, layout.center_x - NETHER_FORTRESS_BASTION_OFFSET_BLOCKS, layout.base_y - 4, BlockType::BlazeSpawner),
        fortress_block_is(*final(chunk), c_start as int, layout.center_x + NETHER_FORTRESS_BASTION_OFFSET_BLOCKS, layout.base_y - 4, BlockType::BlazeSpawner),
        forall|x: int, y: int| center_distance(layout, c_start + x) < 32 || 45 <= center_distance(layout, c_start + x) <= 73
            || center_distance(layout, c_start + x) >= 83 ==> #[trigger] final(chunk).spec_block_at(x, y)
            == old(chunk).spec_block_at(x, y),
        crowns_lit(*final(chunk), c_start as int, layout),
{
    let ghost orig = *chunk;
    carve_nether_fortress_watchtower(
        chunk,
        c_start,
        c_end,
        layout.left_x + NETHER_FORTRESS_WATCHTOWER_INSET_BLOCKS,
        layout.roof_y - 6,
        layout.base_y,
    );
    assert(fortress_changed_within(orig, *chunk, c_start as int, layout.left_x as int, layout.right_x as int, layout.roof_y - 10, layout.base_y + 14));
    let ghost w1 = *chunk;
    carve_nether_fortress_watchtower(
        chunk,
        c_start,
        c_end,
        layout.right_x - NETHER_FORTRESS_WATCHTOWER_INSET_BLOCKS,
        layout.roof_y - 6,
        layout.base_y,
    );
    assert(fortress_changed_within(orig, *chunk, c_start as int, layout.left_x as int, layout.right_x as int, layout.roof_y - 10, layout.base_y + 14));
    proof {
        let cx = layout.center_x as int;
        let cr = crown_row(layout);
        if c_start <= cx - 79 < c_start + 32 {
            assert(chunk.spec_block_at(cx - 79 - c_start, cr) == w1.spec_block_at(cx - 79 - c_start, cr));
        }
        if c_start <= cx - 77 < c_start + 32 {
            assert(chunk.spec_block_at(cx - 77 - c_start, cr) == w1.spec_block_at(cx - 77 - c_start, cr));
        }
        assert(crowns_lit(*chunk, c_start as int, layout));
        assert forall|x: int, y: int| center_distance(layout, c_start + x) < 32 || 45 <= center_distance(layout, c_start + x)
            <= 73 || center_distance(layout, c_start + x) >= 83 implies #[trigger] chunk.spec_block_at(x, y)
            == orig.spec_block_at(x, y) by {
            assert(chunk.spec_block_at(x, y) == w1.spec_block_at(x, y));
            assert(w1.spec_block_at(x, y) == orig.spec_block_at(x, y));
        }
    }
    let mut k: usize = 0;
    while k < 2
        invariant
            fortress_changed_within(
                orig,
                *chunk,
                c_start as int,
                layout.left_x as int,
                layout.right_x as int,
                layout.roof_y - 10,
                layout.base_y + 14,
            ),
            c_end == c_start + 32,
            fortress_layout_ok(layout),
            k <= 2,
            crowns_lit(*chunk, c_start as int, layout),
            forall|x: int, y: int| center_distance(layout, c_start + x) < 32 || 45 <= center_distance(layout, c_start + x)
                <= 73 || center_distance(layout, c_start + x) >= 83 ==> #[trigger] chunk.spec_block_at(x, y)
                == orig.spec_block_at(x, y),
            k >= 1 ==> fortress_block_is(*chunk, c_start as int, layout.center_x - NETHER_FORTRESS_BASTION_OFFSET_BLOCKS, layout.base_y - 4, BlockType::BlazeSpawner),
            k >= 2 ==> fortress_block_is(*chunk, c_start as int, layout.center_x + NETHER_FORTRESS_BASTION_OFFSET_BLOCKS, layout.base_y - 4, BlockType::BlazeSpawner),
        decreases 2 - k,
    {
        let bastion_center_x = if k == 0 {
            layout.center_x - NETHER_FORTRESS_BASTION_OFFSET_BLOCKS
        } else {
            layout.center_x + NETHER_FORTRESS_BASTION_OFFSET_BLOCKS
        };
        let ghost c0 = *chunk;
        carve_nether_fortress_landmark(
            chunk,
            c_start,
            c_end,
            bastion_center_x,
            layout.roof_y - 5,
            layout.base_y,
            6,
            3,
            4,
        );
        assert(fortress_changed_within(orig, *chunk, c_start as int, layout.left_x as int, layout.right_x as int, layout.roof_y - 10, layout.base_y + 14));
        let ghost c1 = *chunk;
        set_nether_fortress_block(chunk, c_start, c_end, bastion_center_x, layout.base_y - 4, BlockType::BlazeSpawner);
        let ghost c2 = *chunk;
        assert(fortress_changed_within(orig, *chunk, c_start as int, layout.left_x as int, layout.right_x as int, layout.roof_y - 10, layout.base_y + 14));
        set_nether_fortress_block(chunk, c_start, c_end, bastion_center_x - 2, layout.base_y - 3, BlockType::StoneSlab);
        assert(fortress_changed_within(orig, *chunk, c_start as int, layout.left_x as int, layout.right_x as int, layout.roof_y - 10, layout.base_y + 14));
        set_nether_fortress_block(chunk, c_start, c_end, bastion_center_x + 2, layout.base_y - 3, BlockType::StoneSlab);
        proof {
            let spawner_y = layout.base_y - 4;
            let bx = bastion_center_x - c_start;
            if c_start <= bastion_center_x < c_start + 32 {
                assert(c2.spec_block_at(bx, spawner_y as int) == BlockType::BlazeSpawner);
                assert(chunk.spec_block_at(bx, spawner_y as int) == c2.spec_block_at(bx, spawner_y as int));
            }
            if k == 1 {
                let ox = layout.center_x - NETHER_FORTRESS_BASTION_OFFSET_BLOCKS - c_start;
                assert(c1.spec_block_at(ox, spawner_y as int) == c0.spec_block_at(ox, spawner_y as int));
                assert(c2.spec_block_at(ox, spawner_y as int) == c1.spec_block_at(ox, spawner_y as int));
                assert(chunk.spec_block_at(ox, spawner_y as int) == c2.spec_block_at(ox, spawner_y as int));
            }
            let cx = layout.center_x as int;
            let cr = crown_row(layout);
            assert forall|wx: int| (wx == cx - 79 || wx == cx - 77 || wx == cx + 77 || wx == cx + 79) && c_start <= wx < c_start
                + 32 implies #[trigger] chunk.spec_block_at(wx - c_start, cr) == c0.spec_block_at(wx - c_start, cr) by {
                assert(c1.spec_block_at(wx - c_start, cr) == c0.spec_block_at(wx - c_start, cr));
                assert(c2.spec_block_at(wx - c_start, cr) == c1.spec_block_at(wx - c_start, cr));
            }
            assert forall|x: int, y: int| center_distance(layout, c_start + x) < 32 || 45 <= center_distance(layout, c_start + x)
                <= 73 || center_distance(layout, c_start + x) >= 83 implies #[trigger] chunk.spec_block_at(x, y)
                == c0.spec_block_at(x, y) by {
                assert(c1.spec_block_at(x, y) == c0.spec_block_at(x, y));
                assert(c2.spec_block_at(x, y) == c1.spec_block_at(x, y));
            }
            if k == 0 {
                assert(bastion_center_x == layout.center_x - NETHER_FORTRESS_BASTION_OFFSET_BLOCKS);
            } else {
                assert(bastion_center_x == layout.center_x + NETHER_FORTRESS_BASTION_OFFSET_BLOCKS);
            }
            assert(fortress_block_is(*chunk, c_start as int, layout.center_x - NETHER_FORTRESS_BASTION_OFFSET_BLOCKS, layout.base_y - 4, BlockType::BlazeSpawner));
        }
        k = k + 1;
    }
}

/// The two loot chapels with their braziers, the openings and glowstone at
/// both ends of the hall, and the two loot chests on their altars.
fn build_fortress_chapels(chunk: &mut Chunk, c_start: i32, c_end: i32, layout: NetherFortressLayout)
    requires
        old(chunk).wf(),
        c_end == c_start + 32,
        fortress_layout_ok(layout),
    ensures
        fortress_changed_within(
            *old(chunk),
            *final(chunk),
            c_start as int,
            layout.left_x as int,
            layout.right_x as int,
            layout.roof_y - 10,
            layout.base_y + 14,
        ),
        forall|x: int, y: int| fortress_chest_cell(c_start as int, layout, x, y, true) ==> #[trigger] final(chunk).spec_block_at(x, y)
            == BlockType::Chest,
        forall|x: int, y: int| center_distance(layout, c_start + x) < 49 || 60 <= center_distance(layout, c_start + x) <= 89
            || center_distance(layout, c_start + x) >= 91
            ==> #[trigger] final(chunk).spec_block_at(x, y) == old(chunk).spec_block_at(x, y),
{
    let ghost orig = *chunk;
    let mut k: usize = 0;
    while k < 2
        invariant
            fortress_changed_within(
                orig,
                *chunk,
                c_start as int,
                layout.left_x as int,
                layout.right_x as int,
                layout.roof_y - 10,
                layout.base_y + 14,
            ),
            c_end == c_start + 32,
            fortress_layout_ok(layout),
            k <= 2,
            forall|x: int, y: int| center_distance(layout, c_start + x) < 49 || 60 <= center_distance(layout, c_start + x) <= 89
            || center_distance(layout, c_start + x) >= 91
                ==> #[trigger] chunk.spec_block_at(x, y) == orig.spec_block_at(x, y),
        decreases 2 - k,
    {
        let chapel_center_x = if k == 0 { layout.chest_left_x } else { layout.chest_right_x };
        carve_nether_fortress_landmark(
            chunk,
            c_start,
            c_end,
            chapel_center_x,
            layout.roof_y - 4,
            layout.base_y,
            5,
            3,
            3,
        );
        assert(fortress_changed_within(orig, *chunk, c_start as int, layout.left_x as int, layout.right_x as int, layout.roof_y - 10, layout.base_y + 14));
        carve_nether_lava_brazier(chunk, c_start, c_end, chapel_center_x - 3, layout.base_y, 2);
        assert(fortress_changed_within(orig, *chunk, c_start as int, layout.left_x as int, layout.right_x as int, layout.roof_y - 10, layout.base_y + 14));
        carve_nether_lava_brazier(chunk, c_start, c_end, chapel_center_x + 3, layout.base_y, 2);
        k = k + 1;
    }
    let mut e: usize = 0;
    while e < 2
        invariant
            fortress_changed_within(
                orig,
                *chunk,
                c_start as int,
                layout.left_x as int,
                layout.right_x as int,
                layout.roof_y - 10,
                layout.base_y + 14,
            ),
            c_end == c_start + 32,
            fortress_layout_ok(layout),
            e <= 2,
            forall|x: int, y: int| center_distance(layout, c_start + x) < 49 || 60 <= center_distance(layout, c_start + x) <= 89
            || center_distance(layout, c_start + x) >= 91
                ==> #[trigger] chunk.spec_block_at(x, y) == orig.spec_block_at(x, y),
        decreases 2 - e,
    {
        let edge_x = if e == 0 { layout.left_x + 6 } else { layout.right_x - 6 };
        fortress_column(chunk, c_start, c_end, edge_x, layout.base_y - 2, layout.base_y - 1, BlockType::Air);
        assert(fortress_changed_within(orig, *chunk, c_start as int, layout.left_x as int, layout.right_x as int, layout.roof_y - 10, layout.base_y + 14));
        set_nether_fortress_block(chunk, c_start, c_end, edge_x, layout.roof_y - 1, BlockType::Glowstone);
        e = e + 1;
    }
    let mut k2: usize = 0;
    while k2 < 2
        invariant
            fortress_changed_within(
                orig,
                *chunk,
                c_start as int,
                layout.left_x as int,
                layout.right_x as int,
                layout.roof_y - 10,
                layout.base_y + 14,
            ),
            c_end == c_start + 32,
            fortress_layout_ok(layout),
            k2 <= 2,
            forall|x: int, y: int| center_distance(layout, c_start + x) < 49 || 60 <= center_distance(layout, c_start + x) <= 89
            || center_distance(layout, c_start + x) >= 91
                ==> #[trigger] chunk.spec_block_at(x, y) == orig.spec_block_at(x, y),
            forall|x: int, y: int| fortress_chest_cell(c_start as int, layout, x, y, k2 >= 2) && k2 >= 1
                ==> #[trigger] chunk.spec_block_at(x, y) == BlockType::Chest,
        decreases 2 - k2,
    {
        let chest_x = if k2 == 0 { layout.chest_left_x } else { layout.chest_right_x };
        let guaranteed_wart = k2 == 0;
        let salt: u32 = if k2 == 0 { 0xA5A5_5A5A } else { 0x5A5A_A5A5 };
        let chest_y = layout.base_y - 3;
        let ghost c0 = *chunk;
        set_nether_fortress_block(chunk, c_start, c_end, chest_x, chest_y, BlockType::Chest);
        let ghost c1 = *chunk;
        assert(fortress_changed_within(orig, *chunk, c_start as int, layout.left_x as int, layout.right_x as int, layout.roof_y - 10, layout.base_y + 14));
        set_nether_fortress_block(chunk, c_start, c_end, chest_x - 2, chest_y, BlockType::StoneSlab);
        let ghost c2 = *chunk;
        assert(fortress_changed_within(orig, *chunk, c_start as int, layout.left_x as int, layout.right_x as int, layout.roof_y - 10, layout.base_y + 14));
        set_nether_fortress_block(chunk, c_start, c_end, chest_x + 2, chest_y, BlockType::StoneSlab);
        assert(fortress_changed_within(orig, *chunk, c_start as int, layout.left_x as int, layout.right_x as int, layout.roof_y - 10, layout.base_y + 14));
        proof {
            assert forall|x: int, y: int| fortress_chest_cell(c_start as int, layout, x, y, k2 + 1 >= 2) && k2 + 1 >= 1
                implies #[trigger] chunk.spec_block_at(x, y) == BlockType::Chest by {
                if c_start + x == chest_x {
                    assert(c1.spec_block_at(x, y) == BlockType::Chest);
                    assert(c2.spec_block_at(x, y) == c1.spec_block_at(x, y));
                } else {
                    assert(c0.spec_block_at(x, y) == BlockType::Chest);
                    assert(c1.spec_block_at(x, y) == c0.spec_block_at(x, y));
                    assert(c2.spec_block_at(x, y) == c1.spec_block_at(x, y));
                }
            }
        }
        if chest_x >= c_start && chest_x < c_end {
            let local_x = (chest_x - c_start) as usize;
            let ghost before = *chunk;
            fill_nether_fortress_chest_loot(
                chunk,
                local_x,
                chest_y as usize,
                layout.seed ^ salt ^ (chest_x as u32),
                guaranteed_wart,
            );
            proof {
                assert forall|x: int, y: int| #[trigger] chunk.spec_block_at(x, y) == before.spec_block_at(x, y) by {}
            }
        }
        k2 = k2 + 1;
    }
}

/// Builds the part of the nether fortress laid out by `layout` that falls
/// into the chunk of chunk column `chunk_x`: its main hall with pillars,
/// gatehouses with lava braziers, watchtowers, blaze bastions, loot chapels
/// and chests. Chunks the fortress does not reach stay as they are, and
/// nothing outside its columns and the rows from ten over its roof to
/// fourteen under its floor, or on the chunk's two top rows and bottom row,
/// changes. Every plain hall column (`plain_hall_column`) holds the hall
/// as `hall_column_built` describes it: roof, patterned floor, air between
/// and, every eleven columns from the centre, a pillar under the floor.
pub fn build_nether_fortress(chunk: &mut Chunk, chunk_x: i32, layout: NetherFortressLayout)
    requires
        old(chunk).wf(),
        -0x400_0000 <= chunk_x < 0x3ff_ffff,
        fortress_layout_ok(layout),
    ensures
        same_chunk_frame(*old(chunk), *final(chunk)),
        same_outside(
            *old(chunk),
            *final(chunk),
            chunk_x * 32,
            layout.left_x as int,
            layout.right_x as int,
            layout.roof_y - 10,
            layout.base_y + 14,
        ),
        forall|x: int, y: int| fortress_chest_cell(chunk_x * 32, layout, x, y, true) ==> #[trigger] final(chunk).spec_block_at(x, y)
            == BlockType::Chest,
        central_gate_lit(*final(chunk), chunk_x * 32, layout),
        forall|side: int, x: int, y: int|
            0 <= side < 2 && 0 <= x < 32 && #[trigger] brazier_block(
                gate_brazier_x(layout, 1, side),
                layout.base_y as int,
                2,
                chunk_x * 32 + x,
                y,
            ) is Some ==> final(chunk).spec_block_at(x, y) == brazier_block(
                gate_brazier_x(layout, 1, side),
                layout.base_y as int,
                2,
                chunk_x * 32 + x,
                y,
            )->0,
        fortress_block_is(*final(chunk), chunk_x * 32, layout.center_x - NETHER_FORTRESS_BASTION_OFFSET_BLOCKS, layout.base_y - 4, BlockType::BlazeSpawner),
        fortress_block_is(*final(chunk), chunk_x * 32, layout.center_x + NETHER_FORTRESS_BASTION_OFFSET_BLOCKS, layout.base_y - 4, BlockType::BlazeSpawner),
        crowns_lit(*final(chunk), chunk_x * 32, layout),
        forall|x: int|
            0 <= x < 32 && plain_hall_column(layout, chunk_x * 32 + x) ==> #[trigger] hall_column_built(
                *final(chunk),
                layout,
                x,
                chunk_x * 32 + x,
            ),
{
    let c_start = chunk_x * CHUNK_WIDTH as i32;
    let c_end = c_start + CHUNK_WIDTH as i32;
    if c_end <= layout.left_x || c_start > layout.right_x {
        return;
    }
    let ghost orig = *chunk;
    build_fortress_hall(chunk, c_start, c_end, layout);
    let ghost f1 = *chunk;
    assert(fortress_changed_within(orig, *chunk, c_start as int, layout.left_x as int, layout.right_x as int, layout.roof_y - 10, layout.base_y + 14));
    build_fortress_gatehouses(chunk, c_start, c_end, layout);
    let ghost f2 = *chunk;
    assert(fortress_changed_within(orig, *chunk, c_start as int, layout.left_x as int, layout.right_x as int, layout.roof_y - 10, layout.base_y + 14));
    build_fortress_towers(chunk, c_start, c_end, layout);
    let ghost f3 = *chunk;
    assert(fortress_changed_within(orig, *chunk, c_start as int, layout.left_x as int, layout.right_x as int, layout.roof_y - 10, layout.base_y + 14));
    build_fortress_chapels(chunk, c_start, c_end, layout);
    assert(fortress_changed_within(orig, *chunk, c_start as int, layout.left_x as int, layout.right_x as int, layout.roof_y - 10, layout.base_y + 14));
    proof {
        let cs = c_start as int;
        let cx = layout.center_x as int;
        assert(cs == chunk_x * 32);
        assert forall|x: int| 0 <= x < 32 && plain_hall_column(layout, cs + x) implies #[trigger] hall_column_built(
            *chunk,
            layout,
            x,
            cs + x,
        ) by {
            assert forall|y: int| #[trigger] chunk.spec_block_at(x, y) == f1.spec_block_at(x, y) by {
                assert(f3.spec_block_at(x, y) == f2.spec_block_at(x, y));
                assert(f2.spec_block_at(x, y) == f1.spec_block_at(x, y));
            }
            assert(hall_column_built(f1, layout, x, cs + x));
        }
        assert forall|x: int, y: int| center_distance(layout, cs + x) < 32 implies #[trigger] chunk.spec_block_at(x, y)
            == f2.spec_block_at(x, y) by {
            assert(f3.spec_block_at(x, y) == f2.spec_block_at(x, y));
        }
        assert(central_gate_lit(*chunk, cs, layout));
        assert forall|side: int, x: int, y: int|
            0 <= side < 2 && 0 <= x < 32 && #[trigger] brazier_block(
                gate_brazier_x(layout, 1, side),
                layout.base_y as int,
                2,
                cs + x,
                y,
            ) is Some implies chunk.spec_block_at(x, y) == brazier_block(
                gate_brazier_x(layout, 1, side),
                layout.base_y as int,
                2,
                cs + x,
                y,
            )->0 by {
            assert(f2.spec_block_at(x, y) == brazier_block(gate_brazier_x(layout, 1, side), layout.base_y as int, 2, cs + x, y)->0);
            assert(center_distance(layout, cs + x) < 32);
        }
        let sy = layout.base_y - 4;
        if cs <= cx - 38 < cs + 32 {
            assert(chunk.spec_block_at(cx - 38 - cs, sy) == f3.spec_block_at(cx - 38 - cs, sy));
        }
        if cs <= cx + 38 < cs + 32 {
            assert(chunk.spec_block_at(cx + 38 - cs, sy) == f3.spec_block_at(cx + 38 - cs, sy));
        }
        let cr = crown_row(layout);
        assert forall|wx: int| (wx == cx - 79 || wx == cx - 77 || wx == cx + 77 || wx == cx + 79) && cs <= wx < cs + 32
            implies #[trigger] chunk.spec_block_at(wx - cs, cr) == f3.spec_block_at(wx - cs, cr) by {
            assert(60 <= center_distance(layout, wx) <= 89);
        }
    }
}

} // verus!
