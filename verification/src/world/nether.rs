use vstd::prelude::*;
use super::block::BlockType;
use super::caves::put_cell;
use super::chunk::{Chunk, CHUNK_HEIGHT, CHUNK_WIDTH, in_chunk};
use super::fortress::{NETHER_FORTRESS_HALF_SPAN_BLOCKS, NetherFortressLayout, fortress_layout_ok};
use super::rules::rem_euclid_i32;
use super::structures::{carve_nether_route_landmark, landmark_mark, lemma_landmark_mark_kept};
use super::stronghold::same_chunk_frame;

verus! {

/// Room kept between a hanging formation's tip and the cavern floor.
pub const NETHER_HANGING_FORMATION_MIN_CLEARANCE: i32 = 12;

/// Room kept between a perch shelf and the ceiling.
pub const NETHER_SHELF_MIN_CLEARANCE_ABOVE: i32 = 8;

/// Room kept between a perch shelf and the floor.
pub const NETHER_SHELF_MIN_CLEARANCE_BELOW: i32 = 6;

/// Room a route landmark needs between ceiling and floor.
pub const NETHER_LANDMARK_MIN_CLEARANCE: i32 = 20;

/// The cavern's ceiling and floor rows of each column of a nether chunk, as
/// terrain generation leaves them.
pub open spec fn profiles_ok(ceiling: Seq<i32>, floor: Seq<i32>) -> bool {
    forall|k: int| 0 <= k < 32 ==> -1000 <= #[trigger] ceiling[k] <= 1000 && -1000 <= floor[k] <= 1000
}

/// How far world column `wx` is from the fortress centre `center`.
pub open spec fn fortress_distance(wx: int, center: int) -> int {
    if wx >= center {
        wx - center
    } else {
        center - wx
    }
}

/// Every cell of `after` whose world column is within `reach` of the
/// fortress centre `center` (the chunk starting at `c_start`) is as in
/// `before`.
pub open spec fn fortress_band_kept(before: Chunk, after: Chunk, c_start: int, center: int, reach: int) -> bool {
    forall|x: int, y: int|
        fortress_distance(c_start + x, center) <= reach ==> #[trigger] after.spec_block_at(x, y)
            == before.spec_block_at(x, y)
}

/// Every cell that differs between `before` and `after` turned from
/// netherrack into glowstone, and the chunk's column, save key and
/// validity stay.
pub open spec fn only_glow_added(before: Chunk, after: Chunk) -> bool {
    &&& same_chunk_frame(before, after)
    &&& forall|x: int, y: int| #[trigger] after.spec_block_at(x, y) != before.spec_block_at(x, y)
        ==> before.spec_block_at(x, y) == BlockType::Netherrack && after.spec_block_at(x, y) == BlockType::Glowstone
}

/// Every cell that differs between `before` and `after` turned from air
/// into netherrack, or from air or netherrack into glowstone; the chunk's
/// column, save key and validity stay.
pub open spec fn only_formations_added(before: Chunk, after: Chunk) -> bool {
    &&& same_chunk_frame(before, after)
    &&& forall|x: int, y: int| #[trigger] after.spec_block_at(x, y) != before.spec_block_at(x, y) ==> {
        ||| after.spec_block_at(x, y) == BlockType::Netherrack && before.spec_block_at(x, y) == BlockType::Air
        ||| after.spec_block_at(x, y) == BlockType::Glowstone && (before.spec_block_at(x, y) == BlockType::Air
            || before.spec_block_at(x, y) == BlockType::Netherrack)
    }
}

/// The block at row `wy` of column `x`, air off the chunk.
fn nether_cell(chunk: &Chunk, x: usize, wy: i32) -> (r: BlockType)
    requires
        chunk.wf(),
        x < 32,
    ensures
        r == chunk.spec_block_at(x as int, wy as int),
{
    if 0 <= wy && wy < CHUNK_HEIGHT as i32 {
        chunk.get_block(x, wy as usize)
    } else {
        BlockType::Air
    }
}

/// Places `block` at row `wy` of column `x` where that row is in the chunk.
fn set_nether_cell(chunk: &mut Chunk, x: usize, wy: i32, block: BlockType)
    requires
        old(chunk).wf(),
        x < 32,
    ensures
        same_chunk_frame(*old(chunk), *final(chunk)),
        forall|x2: int, y2: int| #[trigger] final(chunk).spec_block_at(x2, y2) == if x2 == x && y2 == wy
            && in_chunk(x2, y2) {
            block
        } else {
            old(chunk).spec_block_at(x2, y2)
        },
{
    if 0 <= wy && wy < CHUNK_HEIGHT as i32 {
        put_cell(chunk, x, wy as usize, block);
    }
}

/// The cluster roll of nether world column `wx`, in 0..97.
pub open spec fn glow_cluster_roll(wx: int) -> int {
    (wx * 1_103_515_245 + 12_345) % 97
}

/// The row of the glowstone cluster of a column of chunk `chunk_x` with
/// roll `hash`.
pub open spec fn glow_cluster_row(chunk_x: int, hash: int) -> int {
    8 + ((hash * 13 + chunk_x % 17) % 20)
}

/// Lights the glowstone cluster anchored at (x, anchor_y) with roll `h`:
/// where the anchor is netherrack it glows, and so does each netherrack
/// neighbour (left, right, below, above) whose offset has the parity the
/// roll asks for.
fn glow_cluster_at(chunk: &mut Chunk, x: usize, anchor_y: i32, h: i32)
    requires
        old(chunk).wf(),
        1 <= x < 31,
        8 <= anchor_y <= 27,
        0 <= h < 97,
    ensures
        only_glow_added(*old(chunk), *final(chunk)),
        forall|x2: int, y: int| #[trigger] final(chunk).spec_block_at(x2, y) != old(chunk).spec_block_at(x2, y)
            ==> anchor_y - 1 <= y <= anchor_y + 1,
        old(chunk).spec_block_at(x as int, anchor_y as int) == BlockType::Netherrack ==> final(chunk).spec_block_at(
            x as int,
            anchor_y as int,
        ) == BlockType::Glowstone,
{
    let ay = anchor_y as usize;
    if chunk.get_block(x, ay) != BlockType::Netherrack {
        return;
    }
    put_cell(chunk, x, ay, BlockType::Glowstone);
    if chunk.get_block(x - 1, ay) == BlockType::Netherrack && ((h - 1) & 1) == 0 {
        put_cell(chunk, x - 1, ay, BlockType::Glowstone);
    }
    if chunk.get_block(x + 1, ay) == BlockType::Netherrack && ((h + 1) & 1) == 0 {
        put_cell(chunk, x + 1, ay, BlockType::Glowstone);
    }
    if chunk.get_block(x, ay + 1) == BlockType::Netherrack && ((h + 1) & 1) == 0 {
        put_cell(chunk, x, ay + 1, BlockType::Glowstone);
    }
    if chunk.get_block(x, ay - 1) == BlockType::Netherrack && ((h - 1) & 1) == 0 {
        put_cell(chunk, x, ay - 1, BlockType::Glowstone);
    }
}

/// The cluster roll of nether world column `wx`.
fn glow_roll(wx: i64) -> (r: i64)
    requires
        -0x8000_0000 <= wx <= 0x8000_0000,
    ensures
        r == glow_cluster_roll(wx as int),
        0 <= r < 97,
{
    assert(-0x8000_0000 * 1_103_515_245 <= wx * 1_103_515_245 <= 0x8000_0000 * 1_103_515_245) by (nonlinear_arith)
        requires
            -0x8000_0000 <= wx <= 0x8000_0000,
    ;
    let a: i64 = wx * 1_103_515_245 + 12_345;
    // Shift by a multiple of 97 to a value that is never negative.
    let shifted: u64 = (a + 97 * 0x80_0000_0000_0000i64) as u64;
    proof {
        vstd::arithmetic::div_mod::lemma_mod_multiples_vanish(0x80_0000_0000_0000, a as int, 97);
    }
    (shifted % 97) as i64
}

/// The cluster row of a column with roll `hash` in a chunk whose column
/// leaves `phase` over a multiple of 17.
fn glow_row(phase: i32, hash: i64) -> (r: i32)
    requires
        0 <= phase < 17,
        0 <= hash < 9,
    ensures
        r == 8 + ((hash * 13 + phase) % 20),
        8 <= r <= 27,
{
    8 + ((hash as i32 * 13 + phase) % 20)
}

/// Sets glowstone clusters into the upper netherrack of the chunk of
/// column `chunk_x`: about one inner column in eleven, by its roll, gets a
/// glowstone cell on a row from 8 to 27 where netherrack was, and some of
/// that cell's netherrack neighbours glow too.
pub fn place_nether_glowstone_clusters(chunk: &mut Chunk, chunk_x: i32)
    requires
        old(chunk).wf(),
        -0x400_0000 <= chunk_x < 0x3ff_ffff,
    ensures
        only_glow_added(*old(chunk), *final(chunk)),
        forall|x: int, y: int| #[trigger] final(chunk).spec_block_at(x, y) != old(chunk).spec_block_at(x, y) ==> 7
            <= y <= 28,
        forall|x: int|
            1 <= x < 31 && glow_cluster_roll(chunk_x * 32 + x) < 9 && old(chunk).spec_block_at(
                x,
                glow_cluster_row(chunk_x as int, glow_cluster_roll(chunk_x * 32 + x)),
            ) == BlockType::Netherrack ==> #[trigger] final(chunk).spec_block_at(
                x,
                glow_cluster_row(chunk_x as int, glow_cluster_roll(chunk_x * 32 + x)),
            ) == BlockType::Glowstone,
{
    let ghost orig = *chunk;
    let phase = rem_euclid_i32(chunk_x, 17);
    let mut x: usize = 1;
    while x < CHUNK_WIDTH - 1
        invariant
            -0x400_0000 <= chunk_x < 0x3ff_ffff,
            phase == chunk_x as int % 17,
            1 <= x <= 31,
            only_glow_added(orig, *chunk),
            forall|x2: int, y: int| #[trigger] chunk.spec_block_at(x2, y) != orig.spec_block_at(x2, y) ==> 7 <= y
                <= 28,
            forall|x2: int|
                1 <= x2 < x && glow_cluster_roll(chunk_x * 32 + x2) < 9 && orig.spec_block_at(
                    x2,
                    glow_cluster_row(chunk_x as int, glow_cluster_roll(chunk_x * 32 + x2)),
                ) == BlockType::Netherrack ==> #[trigger] chunk.spec_block_at(
                    x2,
                    glow_cluster_row(chunk_x as int, glow_cluster_roll(chunk_x * 32 + x2)),
                ) == BlockType::Glowstone,
        decreases 31 - x,
    {
        let hash = glow_roll(chunk_x as i64 * 32 + x as i64);
        if hash < 9 {
            let anchor_y = glow_row(phase, hash);
            glow_cluster_at(chunk, x, anchor_y, hash as i32);
        }
        x = x + 1;
    }
}

/// What the noise gives a hanging formation under one column: its length
/// before the floor's clearance cuts it, whether it is three columns wide,
/// and whether its tip glows.
#[derive(Clone, Copy, Debug)]
pub struct HangingFormationRoll {
    pub length: i32,
    pub wide: bool,
    pub glowing: bool,
}

/// How many rows the formation of `roll` reaches under ceiling row
/// `ceiling`: its rolled length, cut to keep twelve rows over the floor
/// row `floor`.
pub open spec fn formation_length(ceiling: int, floor: int, roll: HangingFormationRoll) -> int {
    if roll.length < floor - ceiling - NETHER_HANGING_FORMATION_MIN_CLEARANCE {
        roll.length as int
    } else {
        floor - ceiling - NETHER_HANGING_FORMATION_MIN_CLEARANCE
    }
}

/// Whether column `x` of the chunk starting at `c_start` gets a hanging
/// formation: an inner column more than 124 columns from the fortress
/// centre `center`, at least 18 rows between ceiling and floor, a roll,
/// and a length of at least three rows.
pub open spec fn formation_at(
    c_start: int,
    center: int,
    rolls: Seq<Option<HangingFormationRoll>>,
    ceiling: Seq<i32>,
    floor: Seq<i32>,
    x: int,
) -> bool {
    &&& 2 <= x < 30
    &&& fortress_distance(c_start + x, center) > NETHER_FORTRESS_HALF_SPAN_BLOCKS + 28
    &&& floor[x] - ceiling[x] >= NETHER_HANGING_FORMATION_MIN_CLEARANCE + 6
    &&& rolls[x] is Some
    &&& formation_length(ceiling[x] as int, floor[x] as int, rolls[x]->0) >= 3
}

/// Every cell that is not air in `before` is not air in `after`.
pub open spec fn solid_kept(before: Chunk, after: Chunk) -> bool {
    forall|x: int, y: int| #[trigger] before.spec_block_at(x, y) != BlockType::Air ==> after.spec_block_at(x, y)
        != BlockType::Air
}

/// Hangs one formation of `length` rows from ceiling row `ceiling_y` in
/// column `x`: netherrack into the air of the column, and of the columns
/// beside it (one row shorter) when it is wide; its tip glows when asked.
fn hang_formation(chunk: &mut Chunk, x: usize, ceiling_y: i32, length: i32, wide: bool, glowing: bool)
    requires
        old(chunk).wf(),
        2 <= x < 30,
        -1000 <= ceiling_y <= 1000,
        3 <= length <= 2000,
    ensures
        only_formations_added(*old(chunk), *final(chunk)),
        solid_kept(*old(chunk), *final(chunk)),
        forall|x2: int, y: int| !(x - 1 <= x2 <= x + 1) ==> #[trigger] final(chunk).spec_block_at(x2, y)
            == old(chunk).spec_block_at(x2, y),
        forall|y: int| ceiling_y < y <= ceiling_y + length && 0 <= y < 128 ==> #[trigger] final(chunk).spec_block_at(
            x as int,
            y,
        ) != BlockType::Air,
{
    let ghost orig = *chunk;
    let half_width: i32 = if wide {
        1
    } else {
        0
    };
    let tip_y = ceiling_y + length;
    let mut dx: i32 = -half_width;
    while dx <= half_width
        invariant
            2 <= x < 30,
            0 <= half_width <= 1,
            -half_width <= dx <= half_width + 1,
            -1000 <= ceiling_y <= 1000,
            3 <= length <= 2000,
            tip_y == ceiling_y + length,
            only_formations_added(orig, *chunk),
            solid_kept(orig, *chunk),
            forall|x2: int, y: int| !(x - 1 <= x2 <= x + 1) ==> #[trigger] chunk.spec_block_at(x2, y)
                == orig.spec_block_at(x2, y),
            dx > 0 ==> forall|y: int| ceiling_y < y <= tip_y && 0 <= y < 128 ==> #[trigger] chunk.spec_block_at(x as int, y)
                != BlockType::Air,
        decreases half_width + 1 - dx,
    {
        let nx = (x as i32 + dx) as usize;
        let taper = if dx < 0 {
            -dx
        } else {
            dx
        };
        let ghost start = *chunk;
        let mut wy = ceiling_y + 1;
        while wy <= tip_y - taper
            invariant
                nx < 32,
                nx == x + dx,
                2 <= x < 30,
                -1 <= dx <= 1,
                0 <= taper <= 1,
                taper == 0 <==> dx == 0,
                -1000 <= ceiling_y <= 1000,
                3 <= length <= 2000,
                tip_y == ceiling_y + length,
                ceiling_y + 1 <= wy <= tip_y - taper + 1,
                only_formations_added(orig, *chunk),
                solid_kept(orig, *chunk),
                solid_kept(start, *chunk),
                forall|x2: int, y: int| !(x - 1 <= x2 <= x + 1) ==> #[trigger] chunk.spec_block_at(x2, y)
                    == orig.spec_block_at(x2, y),
                forall|y: int| ceiling_y < y < wy && 0 <= y < 128 ==> #[trigger] chunk.spec_block_at(nx as int, y)
                    != BlockType::Air,
            decreases tip_y - taper + 1 - wy,
        {
            if nether_cell(chunk, nx, wy) == BlockType::Air {
                set_nether_cell(chunk, nx, wy, BlockType::Netherrack);
            }
            wy = wy + 1;
        }
        proof {
            if dx >= 0 {
                assert forall|y: int| ceiling_y < y <= tip_y && 0 <= y < 128 implies #[trigger] chunk.spec_block_at(
                    x as int,
                    y,
                ) != BlockType::Air by {
                    if dx > 0 {
                        assert(start.spec_block_at(x as int, y) != BlockType::Air);
                    } else {
                        assert(nx == x);
                    }
                }
            }
        }
        dx = dx + 1;
    }
    if glowing && nether_cell(chunk, x, tip_y) == BlockType::Netherrack {
        set_nether_cell(chunk, x, tip_y, BlockType::Glowstone);
    }
}

/// Hangs netherrack formations from the cavern ceiling of the chunk of
/// column `chunk_x`, away from the fortress of `layout`: under each column
/// where `formation_at` holds, a spike of `formation_length` rows, filling
/// only air (so every cell of it ends up solid), tapered when wide, tipped
/// with glowstone when the roll says so.
pub fn add_nether_hanging_formations(
    chunk: &mut Chunk,
    chunk_x: i32,
    rolls: &[Option<HangingFormationRoll>; 32],
    ceiling_profile: &[i32; 32],
    floor_profile: &[i32; 32],
    layout: &NetherFortressLayout,
)
    requires
        old(chunk).wf(),
        -0x400_0000 <= chunk_x < 0x3ff_ffff,
        fortress_layout_ok(*layout),
        profiles_ok(ceiling_profile@, floor_profile@),
    ensures
        only_formations_added(*old(chunk), *final(chunk)),
        fortress_band_kept(
            *old(chunk),
            *final(chunk),
            chunk_x * 32,
            layout.center_x as int,
            NETHER_FORTRESS_HALF_SPAN_BLOCKS + 27,
        ),
        forall|x: int, y: int|
            formation_at(chunk_x * 32, layout.center_x as int, rolls@, ceiling_profile@, floor_profile@, x)
                && ceiling_profile@[x] < y <= ceiling_profile@[x] + formation_length(
                ceiling_profile@[x] as int,
                floor_profile@[x] as int,
                rolls@[x]->0,
            ) && 0 <= y < 128 ==> #[trigger] final(chunk).spec_block_at(x, y) != BlockType::Air,
{
    let ghost orig = *chunk;
    let c_start: i64 = chunk_x as i64 * 32;
    let mut x: usize = 2;
    while x < CHUNK_WIDTH - 2
        invariant
            -0x400_0000 <= chunk_x < 0x3ff_ffff,
            c_start == chunk_x * 32,
            fortress_layout_ok(*layout),
            profiles_ok(ceiling_profile@, floor_profile@),
            2 <= x <= 30,
            only_formations_added(orig, *chunk),
            fortress_band_kept(orig, *chunk, c_start as int, layout.center_x as int, NETHER_FORTRESS_HALF_SPAN_BLOCKS + 27),
            forall|x2: int, y: int|
                x2 < x && formation_at(c_start as int, layout.center_x as int, rolls@, ceiling_profile@, floor_profile@, x2)
                    && ceiling_profile@[x2] < y <= ceiling_profile@[x2] + formation_length(
                    ceiling_profile@[x2] as int,
                    floor_profile@[x2] as int,
                    rolls@[x2]->0,
                ) && 0 <= y < 128 ==> #[trigger] chunk.spec_block_at(x2, y) != BlockType::Air,
        decreases 30 - x,
    {
        let world_x: i64 = c_start + x as i64;
        let fortress_dx: i64 = if world_x >= layout.center_x as i64 {
            world_x - layout.center_x as i64
        } else {
            layout.center_x as i64 - world_x
        };
        let ceiling_y = ceiling_profile[x];
        let floor_y = floor_profile[x];
        let open_height = floor_y - ceiling_y;
        if fortress_dx > NETHER_FORTRESS_HALF_SPAN_BLOCKS as i64 + 28 && open_height
            >= NETHER_HANGING_FORMATION_MIN_CLEARANCE + 6 {
            if let Some(roll) = rolls[x] {
                let room = open_height - NETHER_HANGING_FORMATION_MIN_CLEARANCE;
                let length: i32 = if roll.length < room {
                    roll.length
                } else {
                    room
                };
                if length >= 3 {
                    hang_formation(chunk, x, ceiling_y, length, roll.wide, roll.glowing);
                }
            }
        }
        x = x + 1;
    }
}

/// What the noise gives a lava vent under one column: how many rows it
/// reaches down from the ceiling, and whether it spills sideways.
#[derive(Clone, Copy, Debug)]
pub struct LavaVentRoll {
    pub length: i32,
    pub spreading: bool,
}

/// The lowest row of a vent of `length` rows under ceiling row `ceiling`,
/// kept eight rows over the floor row `floor`.
pub open spec fn vent_tip(ceiling: int, floor: int, length: int) -> int {
    if ceiling + length < floor - 8 {
        ceiling + length
    } else {
        floor - 8
    }
}

/// Whether column `x` of the chunk starting at `c_start` gets a vent:
/// more than 118 columns from the fortress centre `center`, at least 18
/// rows between ceiling and floor, a roll, and room for two rows of lava.
pub open spec fn vent_at(
    c_start: int,
    center: int,
    rolls: Seq<Option<LavaVentRoll>>,
    ceiling: Seq<i32>,
    floor: Seq<i32>,
    x: int,
) -> bool {
    &&& 2 <= x < 30
    &&& fortress_distance(c_start + x, center) > NETHER_FORTRESS_HALF_SPAN_BLOCKS + 22
    &&& floor[x] - ceiling[x] >= 18
    &&& rolls[x] is Some
    &&& vent_tip(ceiling[x] as int, floor[x] as int, rolls[x]->0.length as int) > ceiling[x] + 1
}

/// Every cell that differs between `before` and `after` now holds lava,
/// and the chunk's column, save key and validity stay.
pub open spec fn only_lava_added(before: Chunk, after: Chunk) -> bool {
    &&& same_chunk_frame(before, after)
    &&& forall|x: int, y: int| #[trigger] after.spec_block_at(x, y) != before.spec_block_at(x, y)
        ==> after.spec_block_at(x, y) == BlockType::Lava(8)
}

/// Drips lava vents from the cavern ceiling of the chunk of column
/// `chunk_x`, away from the fortress of `layout`: under each column where
/// `vent_at` holds, lava from the row under the ceiling down to the vent's
/// tip, and, where the roll spills, into the netherrack beside the vent's
/// top.
pub fn add_nether_lava_vents(
    chunk: &mut Chunk,
    chunk_x: i32,
    rolls: &[Option<LavaVentRoll>; 32],
    ceiling_profile: &[i32; 32],
    floor_profile: &[i32; 32],
    layout: &NetherFortressLayout,
)
    requires
        old(chunk).wf(),
        -0x400_0000 <= chunk_x < 0x3ff_ffff,
        fortress_layout_ok(*layout),
        profiles_ok(ceiling_profile@, floor_profile@),
    ensures
        only_lava_added(*old(chunk), *final(chunk)),
        fortress_band_kept(
            *old(chunk),
            *final(chunk),
            chunk_x * 32,
            layout.center_x as int,
            NETHER_FORTRESS_HALF_SPAN_BLOCKS + 21,
        ),
        forall|x: int, y: int|
            vent_at(chunk_x * 32, layout.center_x as int, rolls@, ceiling_profile@, floor_profile@, x)
                && ceiling_profile@[x] < y <= vent_tip(
                ceiling_profile@[x] as int,
                floor_profile@[x] as int,
                rolls@[x]->0.length as int,
            ) && 0 <= y < 128 ==> #[trigger] final(chunk).spec_block_at(x, y) == BlockType::Lava(8),
{
    let ghost orig = *chunk;
    let c_start: i64 = chunk_x as i64 * 32;
    let mut x: usize = 2;
    while x < CHUNK_WIDTH - 2
        invariant
            -0x400_0000 <= chunk_x < 0x3ff_ffff,
            c_start == chunk_x * 32,
            fortress_layout_ok(*layout),
            profiles_ok(ceiling_profile@, floor_profile@),
            2 <= x <= 30,
            only_lava_added(orig, *chunk),
            fortress_band_kept(orig, *chunk, c_start as int, layout.center_x as int, NETHER_FORTRESS_HALF_SPAN_BLOCKS + 21),
            forall|x2: int, y: int|
                x2 < x && vent_at(c_start as int, layout.center_x as int, rolls@, ceiling_profile@, floor_profile@, x2)
                    && ceiling_profile@[x2] < y <= vent_tip(
                    ceiling_profile@[x2] as int,
                    floor_profile@[x2] as int,
                    rolls@[x2]->0.length as int,
                ) && 0 <= y < 128 ==> #[trigger] chunk.spec_block_at(x2, y) == BlockType::Lava(8),
        decreases 30 - x,
    {
        let world_x: i64 = c_start + x as i64;
        let fortress_dx: i64 = if world_x >= layout.center_x as i64 {
            world_x - layout.center_x as i64
        } else {
            layout.center_x as i64 - world_x
        };
        let ceiling_y = ceiling_profile[x];
        let floor_y = floor_profile[x];
        if fortress_dx > NETHER_FORTRESS_HALF_SPAN_BLOCKS as i64 + 22 && floor_y - ceiling_y >= 18 {
            if let Some(roll) = rolls[x] {
                let max_tip_y = floor_y - 8;
                let tip: i64 = if (roll.length as i64) < (max_tip_y - ceiling_y) as i64 {
                    ceiling_y as i64 + roll.length as i64
                } else {
                    max_tip_y as i64
                };
                if tip > ceiling_y as i64 + 1 {
                    let tip_y = tip as i32;
                    let ghost before = *chunk;
                    let mut wy = ceiling_y + 1;
                    while wy <= tip_y
                        invariant
                            -1000 <= ceiling_y <= 1000,
                            ceiling_y + 1 < tip_y <= 1000,
                            ceiling_y + 1 <= wy <= tip_y + 1,
                            2 <= x < 30,
                            only_lava_added(orig, *chunk),
                            only_lava_added(before, *chunk),
                            forall|x2: int, y: int| x2 != x ==> #[trigger] chunk.spec_block_at(x2, y) == before.spec_block_at(x2, y),
                            forall|y: int| ceiling_y < y < wy && 0 <= y < 128 ==> #[trigger] chunk.spec_block_at(x as int, y)
                                == BlockType::Lava(8),
                        decreases tip_y + 1 - wy,
                    {
                        set_nether_cell(chunk, x, wy, BlockType::Lava(8));
                        wy = wy + 1;
                    }
                    if roll.spreading {
                        if nether_cell(chunk, x - 1, ceiling_y + 1) == BlockType::Netherrack {
                            set_nether_cell(chunk, x - 1, ceiling_y + 1, BlockType::Lava(8));
                        }
                        if nether_cell(chunk, x + 1, ceiling_y + 1) == BlockType::Netherrack {
                            set_nether_cell(chunk, x + 1, ceiling_y + 1, BlockType::Lava(8));
                        }
                    }
                }
            }
        }
        x = x + 1;
    }
}

/// What the noise gives a perch shelf: the world column of its middle,
/// how many columns it reaches on each side (at most eight), how many rows
/// over the floor it hangs, and whether glowstone marks its middle.
#[derive(Clone, Copy, Debug)]
pub struct PerchShelfRoll {
    pub center_x: i32,
    pub half_span: i32,
    pub drop: i32,
    pub glowing: bool,
}

/// Whether shelf `roll` lays netherrack at (x, y) of the chunk starting at
/// world column `c_start`: the shelf is more than 120 columns from the
/// fortress centre `center`, the column is within its span, the cavern
/// there is at least 18 rows high, and the shelf's row keeps eight rows
/// under the ceiling and six over the floor.
pub open spec fn shelf_cell(
    roll: PerchShelfRoll,
    c_start: int,
    center: int,
    ceiling: Seq<i32>,
    floor: Seq<i32>,
    x: int,
    y: int,
) -> bool {
    &&& fortress_distance(roll.center_x as int, center) > NETHER_FORTRESS_HALF_SPAN_BLOCKS + 24
    &&& in_chunk(x, y)
    &&& roll.center_x - roll.half_span <= c_start + x <= roll.center_x + roll.half_span
    &&& floor[x] - ceiling[x] >= NETHER_SHELF_MIN_CLEARANCE_ABOVE + NETHER_SHELF_MIN_CLEARANCE_BELOW + 4
    &&& y == floor[x] - roll.drop
    &&& y - ceiling[x] >= NETHER_SHELF_MIN_CLEARANCE_ABOVE
    &&& floor[x] - y >= NETHER_SHELF_MIN_CLEARANCE_BELOW
}

/// Shelves reach at most eight columns to each side of their middle.
pub open spec fn shelf_rolls_ok(rolls: Seq<PerchShelfRoll>) -> bool {
    forall|i: int| 0 <= i < rolls.len() ==> 0 <= #[trigger] rolls[i].half_span <= 8
}

/// Every cell that differs between `before` and `after` now holds
/// netherrack, or glowstone where there was air; the chunk's column, save
/// key and validity stay.
pub open spec fn only_shelves_added(before: Chunk, after: Chunk) -> bool {
    &&& same_chunk_frame(before, after)
    &&& forall|x: int, y: int| #[trigger] after.spec_block_at(x, y) != before.spec_block_at(x, y) ==> {
        ||| after.spec_block_at(x, y) == BlockType::Netherrack
        ||| after.spec_block_at(x, y) == BlockType::Glowstone && before.spec_block_at(x, y) == BlockType::Air
    }
}

/// Lays shelf `roll` into the chunk starting at world column `c_start`.
fn lay_perch_shelf(
    chunk: &mut Chunk,
    c_start: i64,
    roll: PerchShelfRoll,
    ceiling_profile: &[i32; 32],
    floor_profile: &[i32; 32],
    fortress_center: i32,
)
    requires
        old(chunk).wf(),
        -0x8000_0000 <= c_start <= 0x7fff_ffc0,
        0 <= roll.half_span <= 8,
        profiles_ok(ceiling_profile@, floor_profile@),
    ensures
        only_shelves_added(*old(chunk), *final(chunk)),
        fortress_band_kept(
            *old(chunk),
            *final(chunk),
            c_start as int,
            fortress_center as int,
            NETHER_FORTRESS_HALF_SPAN_BLOCKS + 16,
        ),
        forall|x: int, y: int|
            shelf_cell(roll, c_start as int, fortress_center as int, ceiling_profile@, floor_profile@, x, y)
                ==> #[trigger] final(chunk).spec_block_at(x, y) == BlockType::Netherrack,
        forall|x: int, y: int|
            old(chunk).spec_block_at(x, y) == BlockType::Netherrack ==> #[trigger] final(chunk).spec_block_at(x, y)
                == BlockType::Netherrack,
{
    let ghost orig = *chunk;
    let center = roll.center_x as i64;
    let distance = if center >= fortress_center as i64 {
        center - fortress_center as i64
    } else {
        fortress_center as i64 - center
    };
    if distance <= NETHER_FORTRESS_HALF_SPAN_BLOCKS as i64 + 24 {
        return;
    }
    let half_span = roll.half_span as i64;
    let mut world_x = if center - half_span > c_start {
        center - half_span
    } else {
        c_start
    };
    let last = if center + half_span < c_start + 31 {
        center + half_span
    } else {
        c_start + 31
    };
    while world_x <= last
        invariant
            -0x8000_0000 <= c_start <= 0x7fff_ffc0,
            profiles_ok(ceiling_profile@, floor_profile@),
            center == roll.center_x,
            half_span == roll.half_span,
            0 <= half_span <= 8,
            distance == fortress_distance(center as int, fortress_center as int),
            distance > NETHER_FORTRESS_HALF_SPAN_BLOCKS + 24,
            c_start <= world_x,
            center - half_span <= world_x,
            last <= c_start + 31,
            last <= center + half_span,
            world_x <= last + 1 || world_x == c_start || world_x == center - half_span,
            only_shelves_added(orig, *chunk),
            fortress_band_kept(orig, *chunk, c_start as int, fortress_center as int, NETHER_FORTRESS_HALF_SPAN_BLOCKS + 16),
            forall|x: int, y: int|
                c_start + x < world_x && shelf_cell(roll, c_start as int, fortress_center as int, ceiling_profile@, floor_profile@, x, y)
                    ==> #[trigger] chunk.spec_block_at(x, y) == BlockType::Netherrack,
            forall|x: int, y: int|
                orig.spec_block_at(x, y) == BlockType::Netherrack ==> #[trigger] chunk.spec_block_at(x, y)
                    == BlockType::Netherrack,
            forall|x: int, y: int| c_start + x >= world_x ==> #[trigger] chunk.spec_block_at(x, y) == orig.spec_block_at(x, y),
        decreases last + 1 - world_x,
    {
        let local_x = (world_x - c_start) as usize;
        let ceiling_y = ceiling_profile[local_x];
        let floor_y = floor_profile[local_x];
        let open_height = floor_y - ceiling_y;
        if open_height >= NETHER_SHELF_MIN_CLEARANCE_ABOVE + NETHER_SHELF_MIN_CLEARANCE_BELOW + 4 {
            let shelf_y: i64 = floor_y as i64 - roll.drop as i64;
            if shelf_y - ceiling_y as i64 >= NETHER_SHELF_MIN_CLEARANCE_ABOVE as i64 && floor_y as i64 - shelf_y
                >= NETHER_SHELF_MIN_CLEARANCE_BELOW as i64 {
                let shelf_y = shelf_y as i32;
                set_nether_cell(chunk, local_x, shelf_y, BlockType::Netherrack);
                let offset = if world_x >= center {
                    world_x - center
                } else {
                    center - world_x
                };
                if offset <= 1 && roll.glowing {
                    let under_y = shelf_y + 1;
                    if under_y < floor_y - 2 && nether_cell(chunk, local_x, under_y) == BlockType::Air {
                        set_nether_cell(chunk, local_x, under_y, BlockType::Glowstone);
                    }
                }
            }
        }
        world_x = world_x + 1;
    }
}

/// Lays perch shelves across the cavern of the chunk of column `chunk_x`,
/// one for each roll in `rolls`, in order: netherrack on every cell where
/// `shelf_cell` holds of its roll, and glowstone under the middle three
/// columns of a glowing shelf where there is air and room over the floor.
/// Shelves near the fortress of `layout` are left out.
pub fn add_nether_perch_shelves(
    chunk: &mut Chunk,
    chunk_x: i32,
    rolls: &Vec<PerchShelfRoll>,
    ceiling_profile: &[i32; 32],
    floor_profile: &[i32; 32],
    layout: &NetherFortressLayout,
)
    requires
        old(chunk).wf(),
        -0x400_0000 <= chunk_x < 0x3ff_ffff,
        fortress_layout_ok(*layout),
        profiles_ok(ceiling_profile@, floor_profile@),
        shelf_rolls_ok(rolls@),
    ensures
        only_shelves_added(*old(chunk), *final(chunk)),
        fortress_band_kept(
            *old(chunk),
            *final(chunk),
            chunk_x * 32,
            layout.center_x as int,
            NETHER_FORTRESS_HALF_SPAN_BLOCKS + 16,
        ),
        forall|i: int, x: int, y: int|
            0 <= i < rolls@.len() && shelf_cell(
                #[trigger] rolls@[i],
                chunk_x * 32,
                layout.center_x as int,
                ceiling_profile@,
                floor_profile@,
                x,
                y,
            ) ==> #[trigger] final(chunk).spec_block_at(x, y) == BlockType::Netherrack,
{
    let ghost orig = *chunk;
    let c_start: i64 = chunk_x as i64 * 32;
    let mut i: usize = 0;
    while i < rolls.len()
        invariant
            -0x400_0000 <= chunk_x < 0x3ff_ffff,
            c_start == chunk_x * 32,
            fortress_layout_ok(*layout),
            profiles_ok(ceiling_profile@, floor_profile@),
            shelf_rolls_ok(rolls@),
            i <= rolls@.len(),
            only_shelves_added(orig, *chunk),
            fortress_band_kept(orig, *chunk, c_start as int, layout.center_x as int, NETHER_FORTRESS_HALF_SPAN_BLOCKS + 16),
            forall|j: int, x: int, y: int|
                0 <= j < i && shelf_cell(
                    #[trigger] rolls@[j],
                    c_start as int,
                    layout.center_x as int,
                    ceiling_profile@,
                    floor_profile@,
                    x,
                    y,
                ) ==> #[trigger] chunk.spec_block_at(x, y) == BlockType::Netherrack,
        decreases rolls@.len() - i,
    {
        lay_perch_shelf(chunk, c_start, rolls[i], ceiling_profile, floor_profile, layout.center_x);
        i = i + 1;
    }
}

/// Where a route landmark may stand: the landmark cell it belongs to, the
/// world column of its middle as the noise placed it, and the centre of
/// the fortress of the region that column lies in.
#[derive(Clone, Copy, Debug)]
pub struct RouteLandmarkRoll {
    pub cell: i32,
    pub center_x: i32,
    pub fortress_center_x: i32,
}

/// The seed of the route landmark of landmark cell `cell`.
pub open spec fn landmark_seed(cell: int) -> u32 {
    ((cell * 1_103_515_245 + 12_345) % 4_294_967_295) as u32
}

/// Whether the landmark of `roll` is built in the chunk starting at world
/// column `c_start`: its middle lies more than seven columns inside the
/// chunk, more than 114 columns from its fortress's centre, where the
/// cavern is at least twenty rows high.
pub open spec fn landmark_placed(roll: RouteLandmarkRoll, c_start: int, ceiling: Seq<i32>, floor: Seq<i32>) -> bool {
    let lx = roll.center_x - c_start;
    &&& c_start + 7 < roll.center_x < c_start + 32 - 7
    &&& fortress_distance(roll.center_x as int, roll.fortress_center_x as int) > NETHER_FORTRESS_HALF_SPAN_BLOCKS + 18
    &&& floor[lx] - ceiling[lx] >= NETHER_LANDMARK_MIN_CLEARANCE
}

/// Whether no landmark of `rolls` from entry `i + 1` up to entry `end`
/// that is placed stands within twelve columns of entry `i`'s middle.
pub open spec fn landmark_alone_after(
    rolls: Seq<RouteLandmarkRoll>,
    c_start: int,
    ceiling: Seq<i32>,
    floor: Seq<i32>,
    i: int,
    end: int,
) -> bool {
    forall|j: int|
        i < j < end && landmark_placed(#[trigger] rolls[j], c_start, ceiling, floor) ==> fortress_distance(
            rolls[j].center_x as int,
            rolls[i].center_x as int,
        ) > 12
}

/// The seed of the route landmark of landmark cell `cell`.
fn route_landmark_seed(cell: i32) -> (r: u32)
    ensures
        r == landmark_seed(cell as int),
{
    assert(-0x8000_0000 * 1_103_515_245 <= cell * 1_103_515_245 <= 0x8000_0000 * 1_103_515_245) by (nonlinear_arith)
        requires
            -0x8000_0000 <= cell < 0x8000_0000,
    ;
    let a: i64 = cell as i64 * 1_103_515_245 + 12_345;
    // Shift by a multiple of the modulus to a value that is never negative.
    let shifted: u64 = (a + 4_294_967_295 * 0x4000_0000i64) as u64;
    proof {
        vstd::arithmetic::div_mod::lemma_mod_multiples_vanish(0x4000_0000, a as int, 4_294_967_295);
    }
    (shifted % 4_294_967_295) as u32
}

/// Builds the route landmarks of `rolls` into the nether chunk of column
/// `chunk_x`, in order: each one that `landmark_placed` admits is carved
/// between the ceiling and floor rows of its middle column with the seed
/// of its cell. Cells farther than six columns from the middle of every
/// placed landmark stay as they are.
pub fn add_nether_route_landmarks(
    chunk: &mut Chunk,
    chunk_x: i32,
    rolls: &Vec<RouteLandmarkRoll>,
    ceiling_profile: &[i32; 32],
    floor_profile: &[i32; 32],
)
    requires
        old(chunk).wf(),
        -0x200_0000 <= chunk_x < 0x200_0000,
        profiles_ok(ceiling_profile@, floor_profile@),
    ensures
        same_chunk_frame(*old(chunk), *final(chunk)),
        forall|x: int, y: int|
            (forall|i: int|
                0 <= i < rolls@.len() && landmark_placed(#[trigger] rolls@[i], chunk_x * 32, ceiling_profile@, floor_profile@)
                    ==> fortress_distance(chunk_x * 32 + x, rolls@[i].center_x as int) > 6) ==> #[trigger] final(chunk).spec_block_at(x, y)
                == old(chunk).spec_block_at(x, y),
        forall|i: int|
            0 <= i < rolls@.len() && landmark_placed(#[trigger] rolls@[i], chunk_x * 32, ceiling_profile@, floor_profile@)
                && landmark_alone_after(rolls@, chunk_x * 32, ceiling_profile@, floor_profile@, i, rolls@.len() as int)
                ==> landmark_mark(
                *final(chunk),
                chunk_x * 32,
                rolls@[i].center_x as int,
                ceiling_profile@[rolls@[i].center_x - chunk_x * 32] as int,
                floor_profile@[rolls@[i].center_x - chunk_x * 32] as int,
                landmark_seed(rolls@[i].cell as int),
            ),
{
    let ghost orig = *chunk;
    let c_start: i32 = chunk_x * CHUNK_WIDTH as i32;
    assert(-0x4000_0000 <= c_start <= 0x4000_0000) by (nonlinear_arith)
        requires
            c_start == chunk_x * 32,
            -0x200_0000 <= chunk_x < 0x200_0000,
    ;
    let c_end = c_start + CHUNK_WIDTH as i32;
    let mut i: usize = 0;
    while i < rolls.len()
        invariant
            -0x4000_0000 <= c_start <= 0x4000_0000,
            c_start == chunk_x * 32,
            c_end == c_start + 32,
            profiles_ok(ceiling_profile@, floor_profile@),
            i <= rolls@.len(),
            same_chunk_frame(orig, *chunk),
            forall|x: int, y: int|
                (forall|j: int|
                    0 <= j < i && landmark_placed(#[trigger] rolls@[j], c_start as int, ceiling_profile@, floor_profile@)
                        ==> fortress_distance(c_start + x, rolls@[j].center_x as int) > 6) ==> #[trigger] chunk.spec_block_at(x, y)
                    == orig.spec_block_at(x, y),
            forall|i2: int|
                0 <= i2 < i && landmark_placed(#[trigger] rolls@[i2], c_start as int, ceiling_profile@, floor_profile@)
                    && landmark_alone_after(rolls@, c_start as int, ceiling_profile@, floor_profile@, i2, i as int)
                    ==> landmark_mark(
                    *chunk,
                    c_start as int,
                    rolls@[i2].center_x as int,
                    ceiling_profile@[rolls@[i2].center_x - c_start] as int,
                    floor_profile@[rolls@[i2].center_x - c_start] as int,
                    landmark_seed(rolls@[i2].cell as int),
                ),
        decreases rolls@.len() - i,
    {
        let ghost before = *chunk;
        let roll = rolls[i];
        let center_x = roll.center_x;
        let distance: i64 = if center_x as i64 >= roll.fortress_center_x as i64 {
            center_x as i64 - roll.fortress_center_x as i64
        } else {
            roll.fortress_center_x as i64 - center_x as i64
        };
        if center_x > c_start + 7 && center_x < c_end - 7 && distance > NETHER_FORTRESS_HALF_SPAN_BLOCKS as i64 + 18 {
            let local_x = (center_x - c_start) as usize;
            let ceiling_y = ceiling_profile[local_x];
            let floor_y = floor_profile[local_x];
            if floor_y - ceiling_y >= NETHER_LANDMARK_MIN_CLEARANCE {
                let seed = route_landmark_seed(roll.cell);
                carve_nether_route_landmark(chunk, c_start, c_end, center_x, ceiling_y, floor_y, seed);
            }
        }
        proof {
            assert forall|i2: int|
                0 <= i2 < i + 1 && landmark_placed(#[trigger] rolls@[i2], c_start as int, ceiling_profile@, floor_profile@)
                    && landmark_alone_after(rolls@, c_start as int, ceiling_profile@, floor_profile@, i2, i + 1)
                    implies landmark_mark(
                    *chunk,
                    c_start as int,
                    rolls@[i2].center_x as int,
                    ceiling_profile@[rolls@[i2].center_x - c_start] as int,
                    floor_profile@[rolls@[i2].center_x - c_start] as int,
                    landmark_seed(rolls@[i2].cell as int),
                ) by {
                if i2 < i as int {
                    let r2 = rolls@[i2];
                    assert(landmark_alone_after(rolls@, c_start as int, ceiling_profile@, floor_profile@, i2, i as int));
                    lemma_landmark_mark_kept(
                        before,
                        *chunk,
                        c_start as int,
                        r2.center_x as int,
                        ceiling_profile@[r2.center_x - c_start] as int,
                        floor_profile@[r2.center_x - c_start] as int,
                        landmark_seed(r2.cell as int),
                    );
                }
            }
        }
        i = i + 1;
    }
}


/// The highest row the cavern's ceiling may reach.
pub const NETHER_CAVERN_CEILING_MIN_Y: i32 = 10;

/// The lowest row the cavern's ceiling may reach.
pub const NETHER_CAVERN_CEILING_MAX_Y: i32 = 30;

/// The highest row the cavern's floor may reach.
pub const NETHER_CAVERN_FLOOR_MIN_Y: i32 = 42;

/// The lowest row the cavern's floor may reach.
pub const NETHER_CAVERN_FLOOR_MAX_Y: i32 = 86;

/// The least room kept between the cavern's ceiling and floor.
pub const NETHER_CAVERN_MIN_OPEN_HEIGHT: i32 = 32;

/// `v` held between `lo` and `hi`.
pub open spec fn clamp_row(v: int, lo: int, hi: int) -> int {
    if v < lo {
        lo
    } else if v > hi {
        hi
    } else {
        v
    }
}

/// The ceiling and floor rows of a cavern column from the rows the noise
/// asks for and the rows of the column before it (if any): the ceiling held
/// to rows 10 to 30 and within three rows of the previous ceiling, the
/// floor held to rows 42 to 86 and within two rows of the previous floor,
/// and the floor pushed down (to row 86 at most) to leave 32 rows of room.
pub open spec fn settled_cavern_rows(ceiling: int, floor: int, previous: Option<(i32, i32)>) -> (int, int) {
    let c1 = clamp_row(ceiling, 10, 30);
    let f1 = clamp_row(floor, 42, 86);
    let c2 = match previous {
        Some(p) => clamp_row(c1, p.0 - 3, p.0 + 3),
        None => c1,
    };
    let f2 = match previous {
        Some(p) => clamp_row(f1, p.1 - 2, p.1 + 2),
        None => f1,
    };
    let f3 = if f2 - c2 < 32 {
        if c2 + 32 < 86 {
            c2 + 32
        } else {
            86
        }
    } else {
        f2
    };
    (c2, f3)
}

fn clamp_i64(v: i64, lo: i64, hi: i64) -> (r: i64)
    ensures
        r == clamp_row(v as int, lo as int, hi as int),
{
    if v < lo {
        lo
    } else if v > hi {
        hi
    } else {
        v
    }
}

/// Settles the ceiling and floor rows of a nether cavern column (see
/// `settled_cavern_rows`), smoothing them against the column before it.
pub fn settle_nether_cavern_rows(ceiling_y: i32, floor_y: i32, previous: Option<(i32, i32)>) -> (r: (i32, i32))
    requires
        previous matches Some(p) ==> i32::MIN + 3 <= p.0 <= i32::MAX - 3 && i32::MIN + 2 <= p.1 <= i32::MAX - 2,
    ensures
        (r.0 as int, r.1 as int) == settled_cavern_rows(ceiling_y as int, floor_y as int, previous),
{
    let mut c = clamp_i64(ceiling_y as i64, NETHER_CAVERN_CEILING_MIN_Y as i64, NETHER_CAVERN_CEILING_MAX_Y as i64);
    let mut f = clamp_i64(floor_y as i64, NETHER_CAVERN_FLOOR_MIN_Y as i64, NETHER_CAVERN_FLOOR_MAX_Y as i64);
    if let Some((pc, pf)) = previous {
        c = clamp_i64(c, pc as i64 - 3, pc as i64 + 3);
        f = clamp_i64(f, pf as i64 - 2, pf as i64 + 2);
    }
    if f - c < NETHER_CAVERN_MIN_OPEN_HEIGHT as i64 {
        f = if c + (NETHER_CAVERN_MIN_OPEN_HEIGHT as i64) < NETHER_CAVERN_FLOOR_MAX_Y as i64 {
            c + NETHER_CAVERN_MIN_OPEN_HEIGHT as i64
        } else {
            NETHER_CAVERN_FLOOR_MAX_Y as i64
        };
    }
    (c as i32, f as i32)
}

} // verus!
