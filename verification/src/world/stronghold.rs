use vstd::prelude::*;
use super::block::BlockType;
use super::caves::put_cell;
use super::chunk::{Chunk, CHUNK_HEIGHT, CHUNK_WIDTH, cell_index, in_chunk};
use super::item::ItemType;
use super::rules::rem_euclid_i32;
use super::structures::{add_loot, chest_holds, chest_holds_at_least, empty_loot_chest, fresh_chest, loot_chest, loot_roll, next_loot_roll};
use super::inventory::{stack_limit, Inventory};

verus! {

/// The world column the stronghold is centred on.
pub const STRONGHOLD_CENTER_X: i32 = 640;

/// The ceiling row of the stronghold's portal room.
pub const STRONGHOLD_ROOM_TOP_Y: i32 = 66;

/// The bottom row of the stronghold's portal room.
pub const STRONGHOLD_ROOM_BOTTOM_Y: i32 = 92;

/// The left column of the inside of the end portal frame.
pub const STRONGHOLD_PORTAL_INNER_X: i32 = STRONGHOLD_CENTER_X;

/// The upper row of the inside of the end portal frame.
pub const STRONGHOLD_PORTAL_INNER_Y: i32 = 86;

/// The chunk grows its column index and its save slot unchanged and stays
/// well formed.
pub open spec fn same_chunk_frame(before: Chunk, after: Chunk) -> bool {
    &&& after.wf()
    &&& after.view_x() == before.view_x()
    &&& after.spec_save_key() == before.spec_save_key()
}

/// Whether the stronghold writes world cell (wx, wy) into cell (x, y) of the
/// chunk that starts at world column `c_start`: the cell lies in the chunk,
/// off its top and bottom rows.
pub open spec fn stronghold_cell(c_start: int, wx: int, wy: int, x: int, y: int) -> bool {
    c_start <= wx < c_start + 32 && 0 < wy < 127 && x == wx - c_start && y == wy
}

/// Whether world cell (wx, wy) holds `b` in the chunk starting at
/// `c_start`, where the stronghold writes that cell at all.
pub open spec fn stronghold_block_is(c: Chunk, c_start: int, wx: int, wy: int, b: BlockType) -> bool {
    c_start <= wx < c_start + 32 && 0 < wy < 127 ==> c.spec_block_at(wx - c_start, wy) == b
}

/// Every cell of the chunk starting at `c_start` outside world columns
/// `left..=right` and rows `top..=bottom` is as before.
pub open spec fn same_outside(
    before: Chunk,
    after: Chunk,
    c_start: int,
    left: int,
    right: int,
    top: int,
    bottom: int,
) -> bool {
    forall|x: int, y: int|
        !(left <= c_start + x <= right && top <= y <= bottom) ==> #[trigger] after.spec_block_at(x, y)
            == before.spec_block_at(x, y)
}

/// The wall block of a stronghold cell: a fixed pattern of cracked cells
/// (one in nine) among stone bricks.
pub open spec fn stronghold_shell_block(wx: int, wy: int) -> BlockType {
    if (wx * 31 + wy * 17) % 9 == 0 {
        BlockType::Cobblestone
    } else {
        BlockType::StoneBricks
    }
}

/// What a stronghold room spanning `left..=right`, `top..=bottom` with its
/// floor on row `floor` holds at (wx, wy): walls, ceiling and floors, air
/// inside.
pub open spec fn stronghold_room_block(left: int, right: int, top: int, bottom: int, floor: int, wx: int, wy: int) -> BlockType {
    if wx == left || wx == right || wy == top || wy == bottom || wy == floor {
        stronghold_shell_block(wx, wy)
    } else {
        BlockType::Air
    }
}

/// What the end portal frame with its inside at `ix..=ix + 1`,
/// `iy..=iy + 1` holds at (wx, wy): frame blocks round an empty inside.
pub open spec fn portal_frame_block(ix: int, iy: int, wx: int, wy: int) -> BlockType {
    if wx == ix - 1 || wx == ix + 2 || wy == iy - 1 || wy == iy + 2 {
        BlockType::EndPortalFrame { filled: false }
    } else {
        BlockType::Air
    }
}

/// The seed the loot of a stronghold chest at world cell (x, y) is rolled
/// from, with `salt`.
pub open spec fn stronghold_chest_seed(x: int, y: int, salt: u32) -> u32 {
    ((x * 31 + y * 17) as u32) ^ salt
}

/// Coordinates the stronghold builders work with stay small.
pub open spec fn small_coord(v: int) -> bool {
    -1_000_000 <= v <= 1_000_000
}

/// Whether the stronghold builders write cell (x, y) of a chunk when the
/// plan asks for it: the cell lies in the chunk, off its top and bottom
/// rows.
pub open spec fn stronghold_writes(x: int, y: int) -> bool {
    0 <= x < 32 && 0 < y < 127
}

/// What the rooms and halls make of world cell (wx, wy) that held `b`: the
/// portal room, the halls west and east of it, the upper hall, then the
/// library, silverfish and staging rooms, each over the ones before.
pub open spec fn stronghold_rooms_block(b: BlockType, wx: int, wy: int) -> BlockType {
    if 670 <= wx <= 688 && 84 <= wy <= 92 {
        stronghold_room_block(670, 688, 84, 92, 91, wx, wy)
    } else if 668 <= wx <= 680 && 79 <= wy <= 89 {
        stronghold_room_block(668, 680, 79, 89, 88, wx, wy)
    } else if 592 <= wx <= 612 && 78 <= wy <= 90 {
        stronghold_room_block(592, 612, 78, 90, 88, wx, wy)
    } else if 610 <= wx <= 676 && 83 <= wy <= 86 {
        stronghold_room_block(610, 676, 83, 86, 83, wx, wy)
    } else if 657 <= wx <= 680 && 88 <= wy <= 91 {
        stronghold_room_block(657, 680, 88, 91, 88, wx, wy)
    } else if 604 <= wx <= 623 && 88 <= wy <= 91 {
        stronghold_room_block(604, 623, 88, 91, 88, wx, wy)
    } else if 622 <= wx <= 658 && 66 <= wy <= 92 {
        stronghold_room_block(622, 658, 66, 92, 91, wx, wy)
    } else {
        b
    }
}

/// What the connectors make of world cell (wx, wy) that held `b`: two air
/// shafts two columns wide down from the upper hall, the library's ladder
/// shaft and the air beside it.
pub open spec fn stronghold_connectors_block(b: BlockType, wx: int, wy: int) -> BlockType {
    if (wx == 626 || wx == 627 || wx == 654 || wx == 655) && 83 <= wy <= 90 {
        BlockType::Air
    } else if wx == 611 && 79 <= wy <= 90 {
        BlockType::Ladder
    } else if wx == 612 && 79 <= wy <= 90 {
        BlockType::Air
    } else {
        b
    }
}

/// Whether a torch row from column `from` to `to`, one torch every `step`
/// columns on row `row`, puts a torch at world cell (wx, wy).
pub open spec fn torch_row_at(from: int, to: int, step: int, row: int, wx: int, wy: int) -> bool {
    wy == row && from <= wx <= to && (wx - from) % step == 0
}

/// What the lights make of world cell (wx, wy) that held `b`: torches every
/// five columns along the lower hall and every six along the upper one,
/// stone brick pillars beside the portal room's walls, and three glowstone
/// markers.
pub open spec fn stronghold_lights_block(b: BlockType, wx: int, wy: int) -> BlockType {
    if (wx == 610 || wx == 613 || wx == 672) && wy == 88 {
        BlockType::Glowstone
    } else if (wx == 625 || wx == 655) && 67 <= wy <= 90 {
        BlockType::StoneBricks
    } else if torch_row_at(613, 673, 6, 84, wx, wy) || torch_row_at(607, 677, 5, 89, wx, wy) {
        BlockType::Torch
    } else {
        b
    }
}

/// What the library fittings make of world cell (wx, wy) that held `b`:
/// plank shelves, a plank loft with a three-column gap, two ladders and
/// three torches.
pub open spec fn stronghold_library_block(b: BlockType, wx: int, wy: int) -> BlockType {
    if (wx == 597 || wx == 602 || wx == 607) && wy == 79 {
        BlockType::Torch
    } else if (wx == 597 || wx == 607) && 80 <= wy <= 87 {
        BlockType::Ladder
    } else if wy == 84 && 597 <= wx <= 607 && !(600 <= wx <= 602) {
        BlockType::Planks
    } else if (wx == 594 || wx == 595 || wx == 609 || wx == 610) && 80 <= wy <= 86 {
        BlockType::Planks
    } else {
        b
    }
}

/// What the fittings make of world cell (wx, wy) that held `b`: the
/// silverfish spawner, the open iron doors of the branch entrances (two
/// cells each), the staging room's torches, furnace, crafting table and
/// slabs.
pub open spec fn stronghold_fittings_block(b: BlockType, wx: int, wy: int) -> BlockType {
    if wx == 674 && wy == 87 {
        BlockType::SilverfishSpawner
    } else if (wx == 623 || wx == 657 || wx == 671) && (wy == 89 || wy == 90) {
        BlockType::IronDoor(true)
    } else if (wx == 626 || wx == 612 || wx == 669) && (wy == 84 || wy == 85) {
        BlockType::IronDoor(true)
    } else if (wx == 672 || wx == 686) && wy == 85 {
        BlockType::Torch
    } else if wx == 675 && wy == 91 {
        BlockType::Furnace
    } else if wx == 673 && wy == 91 {
        BlockType::CraftingTable
    } else if (wx == 674 || wx == 684) && wy == 90 {
        BlockType::StoneSlab
    } else {
        b
    }
}

/// What the end portal frame makes of world cell (wx, wy) that held `b`.
pub open spec fn stronghold_portal_block(b: BlockType, wx: int, wy: int) -> BlockType {
    if in_portal_frame(wx, wy) {
        portal_frame_block(STRONGHOLD_PORTAL_INNER_X as int, STRONGHOLD_PORTAL_INNER_Y as int, wx, wy)
    } else {
        b
    }
}

/// What the dais makes of world cell (wx, wy) that held `b`: runway slabs
/// on the columns divisible by five, glowstone at its corners, slabs at
/// its ends and its stone brick floor.
pub open spec fn stronghold_dais_block(b: BlockType, wx: int, wy: int) -> BlockType {
    if wy == 90 && 628 <= wx <= 635 && wx % 5 == 0 {
        BlockType::StoneSlab
    } else if (wx == 637 || wx == 644) && (wy == 84 || wy == 89) {
        BlockType::Glowstone
    } else if (wx == 637 || wx == 644) && wy == 90 {
        BlockType::StoneSlab
    } else if 637 <= wx <= 644 && wy == 91 {
        BlockType::StoneBricks
    } else {
        b
    }
}

/// What everything of the stronghold but its chests makes of world cell
/// (wx, wy) that held `b`, in building order: rooms, connectors, lights,
/// library, fittings, portal frame, dais.
pub open spec fn stronghold_sections_block(b: BlockType, wx: int, wy: int) -> BlockType {
    let rooms = stronghold_rooms_block(b, wx, wy);
    let connectors = stronghold_connectors_block(rooms, wx, wy);
    let lights = stronghold_lights_block(connectors, wx, wy);
    let library = stronghold_library_block(lights, wx, wy);
    let fittings = stronghold_fittings_block(library, wx, wy);
    let portal = stronghold_portal_block(fittings, wx, wy);
    stronghold_dais_block(portal, wx, wy)
}

/// The stronghold plan: what world cell (wx, wy) that held `b` holds once
/// the stronghold is built, its three chests included.
pub open spec fn stronghold_block(b: BlockType, wx: int, wy: int) -> BlockType {
    if (wx == 595 && wy == 88) || (wx == 678 && wy == 88) || (wx == 686 && wy == 91) {
        BlockType::Chest
    } else {
        stronghold_sections_block(b, wx, wy)
    }
}

/// Cell (x, y) of `after` is what `plan` makes of the same cell of
/// `before`, the world column being `c_start + x`, where the stronghold
/// writes; elsewhere it is as before.
pub open spec fn follows_plan(before: Chunk, after: Chunk, c_start: int, plan: spec_fn(BlockType, int, int) -> BlockType) -> bool {
    forall|x: int, y: int| #[trigger] after.spec_block_at(x, y) == if stronghold_writes(x, y) {
        plan(before.spec_block_at(x, y), c_start + x, y)
    } else {
        before.spec_block_at(x, y)
    }
}

/// Writes `block` at world cell (wx, wy) when it lies in the chunk that
/// starts at world column `c_start` (and ends before `c_end`), off its top
/// and bottom rows.
fn set_stronghold_block(chunk: &mut Chunk, c_start: i32, c_end: i32, wx: i32, wy: i32, block: BlockType)
    requires
        old(chunk).wf(),
        c_end == c_start + 32,
    ensures
        same_chunk_frame(*old(chunk), *final(chunk)),
        forall|x: int, y: int| #[trigger] final(chunk).spec_block_at(x, y) == if stronghold_cell(
            c_start as int,
            wx as int,
            wy as int,
            x,
            y,
        ) {
            block
        } else {
            old(chunk).spec_block_at(x, y)
        },
        stronghold_cell(c_start as int, wx as int, wy as int, wx - c_start, wy as int) && old(chunk).spec_block_at(
            wx - c_start,
            wy as int,
        ) != BlockType::Chest && block == BlockType::Chest ==> fresh_chest(*final(chunk), wx - c_start, wy as int),
        forall|i: int| 0 <= i < old(chunk).view_chests().len() && i != cell_index(wx - c_start, wy as int) ==> #[trigger] final(chunk).view_chests()[i]
            == old(chunk).view_chests()[i],
{
    if wx < c_start || wx >= c_end || wy <= 0 || wy >= CHUNK_HEIGHT as i32 - 1 {
        return;
    }
    let lx = (wx - c_start) as usize;
    put_cell(chunk, lx, wy as usize, block);
}

/// Writes the wall block of (wx, wy).
fn place_stronghold_shell(chunk: &mut Chunk, c_start: i32, c_end: i32, wx: i32, wy: i32)
    requires
        old(chunk).wf(),
        c_end == c_start + 32,
        small_coord(wx as int),
        small_coord(wy as int),
    ensures
        same_chunk_frame(*old(chunk), *final(chunk)),
        forall|x: int, y: int| #[trigger] final(chunk).spec_block_at(x, y) == if stronghold_cell(
            c_start as int,
            wx as int,
            wy as int,
            x,
            y,
        ) {
            stronghold_shell_block(wx as int, wy as int)
        } else {
            old(chunk).spec_block_at(x, y)
        },
{
    let cracked = rem_euclid_i32(wx * 31 + wy * 17, 9) == 0;
    set_stronghold_block(
        chunk,
        c_start,
        c_end,
        wx,
        wy,
        if cracked {
            BlockType::Cobblestone
        } else {
            BlockType::StoneBricks
        },
    );
}

/// Carves a room spanning world columns `left..=right` and rows
/// `top..=bottom`: walls, ceiling, bottom and the floor row `floor` of
/// stronghold wall blocks, air inside.
fn carve_stronghold_room(
    chunk: &mut Chunk,
    c_start: i32,
    c_end: i32,
    left: i32,
    right: i32,
    top: i32,
    bottom: i32,
    floor: i32,
)
    requires
        old(chunk).wf(),
        c_end == c_start + 32,
        small_coord(left as int),
        small_coord(right as int),
        small_coord(top as int),
        small_coord(bottom as int),
    ensures
        same_chunk_frame(*old(chunk), *final(chunk)),
        forall|x: int, y: int| #[trigger] final(chunk).spec_block_at(x, y) == if left <= c_start + x <= right && top
            <= y <= bottom && stronghold_cell(c_start as int, c_start + x, y, x, y) {
            stronghold_room_block(left as int, right as int, top as int, bottom as int, floor as int, c_start + x, y)
        } else {
            old(chunk).spec_block_at(x, y)
        },
{
    let ghost orig = *chunk;
    let mut wx = left;
    while wx <= right
        invariant
            same_chunk_frame(orig, *chunk),
            c_end == c_start + 32,
            small_coord(left as int),
            small_coord(right as int),
            small_coord(top as int),
            small_coord(bottom as int),
            left <= wx <= right + 1 || (right < left && wx == left),
            forall|x: int, y: int| #[trigger] chunk.spec_block_at(x, y) == if left <= c_start + x < wx && top <= y
                <= bottom && stronghold_cell(c_start as int, c_start + x, y, x, y) {
                stronghold_room_block(left as int, right as int, top as int, bottom as int, floor as int, c_start + x, y)
            } else {
                orig.spec_block_at(x, y)
            },
        decreases right + 1 - wx,
    {
        let mut wy = top;
        while wy <= bottom
            invariant
                same_chunk_frame(orig, *chunk),
                c_end == c_start + 32,
                small_coord(left as int),
                small_coord(right as int),
                small_coord(top as int),
                small_coord(bottom as int),
                left <= wx <= right,
                top <= wy <= bottom + 1 || (bottom < top && wy == top),
                forall|x: int, y: int| #[trigger] chunk.spec_block_at(x, y) == if ((left <= c_start + x < wx && top
                    <= y <= bottom) || (c_start + x == wx && top <= y < wy)) && stronghold_cell(
                    c_start as int,
                    c_start + x,
                    y,
                    x,
                    y,
                ) {
                    stronghold_room_block(
                        left as int,
                        right as int,
                        top as int,
                        bottom as int,
                        floor as int,
                        c_start + x,
                        y,
                    )
                } else {
                    orig.spec_block_at(x, y)
                },
            decreases bottom + 1 - wy,
        {
            let is_shell = wx == left || wx == right || wy == top || wy == bottom || wy == floor;
            if is_shell {
                place_stronghold_shell(chunk, c_start, c_end, wx, wy);
            } else {
                set_stronghold_block(chunk, c_start, c_end, wx, wy, BlockType::Air);
            }
            wy = wy + 1;
        }
        wx = wx + 1;
    }
}

/// Carves a hall between world columns `left` and `right` (either may be
/// the smaller) over rows `top..=bottom`: stronghold wall blocks round it,
/// air inside.
fn carve_stronghold_hall(chunk: &mut Chunk, c_start: i32, c_end: i32, left: i32, right: i32, top: i32, bottom: i32)
    requires
        old(chunk).wf(),
        c_end == c_start + 32,
        small_coord(left as int),
        small_coord(right as int),
        small_coord(top as int),
        small_coord(bottom as int),
    ensures
        same_chunk_frame(*old(chunk), *final(chunk)),
        ({
            let lo = if left <= right { left as int } else { right as int };
            let hi = if left <= right { right as int } else { left as int };
            forall|x: int, y: int| #[trigger] final(chunk).spec_block_at(x, y) == if lo <= c_start + x <= hi && top
                <= y <= bottom && stronghold_cell(c_start as int, c_start + x, y, x, y) {
                stronghold_room_block(lo, hi, top as int, bottom as int, top as int, c_start + x, y)
            } else {
                old(chunk).spec_block_at(x, y)
            }
        }),
{
    let min_x = if left <= right { left } else { right };
    let max_x = if left <= right { right } else { left };
    carve_stronghold_room(chunk, c_start, c_end, min_x, max_x, top, bottom, top);
}

/// Writes `block` over rows `top..=bottom` of world column `wx`.
fn stronghold_column(chunk: &mut Chunk, c_start: i32, c_end: i32, wx: i32, top: i32, bottom: i32, block: BlockType)
    requires
        old(chunk).wf(),
        c_end == c_start + 32,
        small_coord(wx as int),
        small_coord(top as int),
        small_coord(bottom as int),
    ensures
        same_chunk_frame(*old(chunk), *final(chunk)),
        forall|x: int, y: int| #[trigger] final(chunk).spec_block_at(x, y) == if c_start + x == wx && top <= y
            <= bottom && stronghold_cell(c_start as int, c_start + x, y, x, y) {
            block
        } else {
            old(chunk).spec_block_at(x, y)
        },
{
    let ghost orig = *chunk;
    let mut wy = top;
    while wy <= bottom
        invariant
            same_chunk_frame(orig, *chunk),
            c_end == c_start + 32,
            small_coord(wx as int),
            small_coord(top as int),
            small_coord(bottom as int),
            top <= wy <= bottom + 1 || (bottom < top && wy == top),
            forall|x: int, y: int| #[trigger] chunk.spec_block_at(x, y) == if c_start + x == wx && top <= y < wy
                && stronghold_cell(c_start as int, c_start + x, y, x, y) {
                block
            } else {
                orig.spec_block_at(x, y)
            },
        decreases bottom + 1 - wy,
    {
        set_stronghold_block(chunk, c_start, c_end, wx, wy, block);
        wy = wy + 1;
    }
}

/// Whether world cell (wx, wy) belongs to the end portal frame or its
/// inside.
pub open spec fn in_portal_frame(wx: int, wy: int) -> bool {
    STRONGHOLD_PORTAL_INNER_X - 1 <= wx <= STRONGHOLD_PORTAL_INNER_X + 2 && STRONGHOLD_PORTAL_INNER_Y - 1 <= wy
        <= STRONGHOLD_PORTAL_INNER_Y + 2
}

/// Rooms and halls: the portal room, the halls on either side of it, the
/// upper hall and the library, silverfish and staging rooms.
fn build_stronghold_rooms(chunk: &mut Chunk, c_start: i32, c_end: i32)
    requires
        old(chunk).wf(),
        c_end == c_start + 32,
        small_coord(c_start as int),
    ensures
        same_chunk_frame(*old(chunk), *final(chunk)),
        follows_plan(*old(chunk), *final(chunk), c_start as int, |b: BlockType, wx: int, wy: int| stronghold_rooms_block(b, wx, wy)),
{
    let room_left = STRONGHOLD_CENTER_X - 18;
    let room_right = STRONGHOLD_CENTER_X + 18;
    let hall_floor = STRONGHOLD_ROOM_BOTTOM_Y - 1;
    let hall_top = hall_floor - 3;
    let upper_floor = hall_floor - 5;
    let upper_top = upper_floor - 3;
    let ghost orig = *chunk;

    carve_stronghold_room(
        chunk,
        c_start,
        c_end,
        room_left,
        room_right,
        STRONGHOLD_ROOM_TOP_Y,
        STRONGHOLD_ROOM_BOTTOM_Y,
        hall_floor,
    );
    let ghost c1 = *chunk;
    carve_stronghold_hall(chunk, c_start, c_end, room_left - 18, room_left + 1, hall_top, hall_floor);
    let ghost c2 = *chunk;
    carve_stronghold_hall(chunk, c_start, c_end, room_right - 1, room_right + 22, hall_top, hall_floor);
    let ghost c3 = *chunk;
    carve_stronghold_hall(chunk, c_start, c_end, room_left - 12, room_right + 18, upper_top, upper_floor);
    let ghost c4 = *chunk;
    carve_stronghold_room(chunk, c_start, c_end, room_left - 30, room_left - 10, upper_top - 5, upper_floor + 4, upper_floor + 2);
    let ghost c5 = *chunk;
    carve_stronghold_room(chunk, c_start, c_end, room_right + 10, room_right + 22, upper_top - 4, upper_floor + 3, upper_floor + 2);
    let ghost c6 = *chunk;
    carve_stronghold_room(chunk, c_start, c_end, room_right + 12, room_right + 30, hall_top - 4, hall_floor + 1, hall_floor);
    proof {
        assert forall|x: int, y: int| #[trigger] chunk.spec_block_at(x, y) == if stronghold_writes(x, y) {
            stronghold_rooms_block(orig.spec_block_at(x, y), c_start + x, y)
        } else {
            orig.spec_block_at(x, y)
        } by {}
    }
}


/// Passages between the levels: two air shafts from the upper hall down to
/// the portal room, and the ladder shaft of the library.
fn build_stronghold_connectors(chunk: &mut Chunk, c_start: i32, c_end: i32)
    requires
        old(chunk).wf(),
        c_end == c_start + 32,
    ensures
        same_chunk_frame(*old(chunk), *final(chunk)),
        follows_plan(*old(chunk), *final(chunk), c_start as int, |b: BlockType, wx: int, wy: int| stronghold_connectors_block(b, wx, wy)),
{
    let room_left = STRONGHOLD_CENTER_X - 18;
    let room_right = STRONGHOLD_CENTER_X + 18;
    let hall_floor = STRONGHOLD_ROOM_BOTTOM_Y - 1;
    let upper_top = hall_floor - 5 - 3;
    let library_room_top = upper_top - 5;
    let library_shaft_x = room_left - 11;
    let ghost orig = *chunk;
    stronghold_column(chunk, c_start, c_end, room_left + 4, upper_top, hall_floor - 1, BlockType::Air);
    let ghost c1 = *chunk;
    stronghold_column(chunk, c_start, c_end, room_left + 5, upper_top, hall_floor - 1, BlockType::Air);
    let ghost c2 = *chunk;
    stronghold_column(chunk, c_start, c_end, room_right - 4, upper_top, hall_floor - 1, BlockType::Air);
    let ghost c3 = *chunk;
    stronghold_column(chunk, c_start, c_end, room_right - 3, upper_top, hall_floor - 1, BlockType::Air);
    let ghost c4 = *chunk;
    stronghold_column(chunk, c_start, c_end, library_shaft_x, library_room_top + 1, hall_floor - 1, BlockType::Ladder);
    let ghost c5 = *chunk;
    stronghold_column(chunk, c_start, c_end, library_shaft_x + 1, library_room_top + 1, hall_floor - 1, BlockType::Air);
    proof {
        assert forall|x: int, y: int| #[trigger] chunk.spec_block_at(x, y) == if stronghold_writes(x, y) {
            stronghold_connectors_block(orig.spec_block_at(x, y), c_start + x, y)
        } else {
            orig.spec_block_at(x, y)
        } by {}
    }
}

/// Torches along a row, every `step` columns from `from` while within `to`.
fn stronghold_torch_row(chunk: &mut Chunk, c_start: i32, c_end: i32, from: i32, to: i32, step: i32, wy: i32)
    requires
        old(chunk).wf(),
        c_end == c_start + 32,
        small_coord(from as int),
        small_coord(to as int),
        from <= to,
        1 <= step <= 10,
    ensures
        same_chunk_frame(*old(chunk), *final(chunk)),
        forall|x: int, y: int| #[trigger] final(chunk).spec_block_at(x, y) == if stronghold_writes(x, y) && torch_row_at(
            from as int,
            to as int,
            step as int,
            wy as int,
            c_start + x,
            y,
        ) {
            BlockType::Torch
        } else {
            old(chunk).spec_block_at(x, y)
        },
{
    let ghost orig = *chunk;
    let ghost mut n: int = 0;
    let mut x = from;
    while x <= to
        invariant
            same_chunk_frame(orig, *chunk),
            c_end == c_start + 32,
            small_coord(from as int),
            small_coord(to as int),
            1 <= step <= 10,
            from <= x <= to + 10,
            n >= 0,
            x == from + n * step,
            forall|x2: int, y2: int| #[trigger] chunk.spec_block_at(x2, y2) == if stronghold_writes(x2, y2)
                && torch_row_at(from as int, to as int, step as int, wy as int, c_start + x2, y2) && c_start + x2 < x {
                BlockType::Torch
            } else {
                orig.spec_block_at(x2, y2)
            },
        decreases to + 10 - x,
    {
        let ghost before = *chunk;
        set_stronghold_block(chunk, c_start, c_end, x, wy, BlockType::Torch);
        proof {
            vstd::arithmetic::div_mod::lemma_mod_multiples_basic(n, step as int);
            assert((x - from) % (step as int) == 0) by {
                assert(x - from == n * step);
            }
            assert forall|x2: int, y2: int| #[trigger] chunk.spec_block_at(x2, y2) == if stronghold_writes(x2, y2)
                && torch_row_at(from as int, to as int, step as int, wy as int, c_start + x2, y2) && c_start + x2 < x
                + step {
                BlockType::Torch
            } else {
                orig.spec_block_at(x2, y2)
            } by {
                assert(before.spec_block_at(x2, y2) == before.spec_block_at(x2, y2));
                let w = c_start + x2;
                if x < w < x + step {
                    let r = w - x;
                    vstd::arithmetic::div_mod::lemma_mod_multiples_vanish(n, r, step as int);
                    vstd::arithmetic::div_mod::lemma_small_mod(r as nat, step as nat);
                    assert(w - from == step * n + r) by (nonlinear_arith)
                        requires w - from == (x - from) + r, x - from == n * step;
                }
            }
            assert(from + (n + 1) * step == from + n * step + step) by (nonlinear_arith);
        }
        x = x + step;
        proof {
            n = n + 1;
        }
    }
}

/// Lights and pillars that lead the way to the portal room: torches along
/// both halls, stone brick pillars beside the portal room's walls and
/// glowstone markers at the branch entrances.
fn build_stronghold_lights(chunk: &mut Chunk, c_start: i32, c_end: i32)
    requires
        old(chunk).wf(),
        c_end == c_start + 32,
    ensures
        same_chunk_frame(*old(chunk), *final(chunk)),
        follows_plan(*old(chunk), *final(chunk), c_start as int, |b: BlockType, wx: int, wy: int| stronghold_lights_block(b, wx, wy)),
{
    let room_left = STRONGHOLD_CENTER_X - 18;
    let room_right = STRONGHOLD_CENTER_X + 18;
    let hall_floor = STRONGHOLD_ROOM_BOTTOM_Y - 1;
    let hall_top = hall_floor - 3;
    let upper_floor = hall_floor - 5;
    let upper_top = upper_floor - 3;
    let library_shaft_x = room_left - 11;
    let staging_room_left = room_right + 12;
    let ghost orig = *chunk;
    stronghold_torch_row(chunk, c_start, c_end, room_left - 18 + 3, room_right + 22 - 3, 5, hall_top + 1);
    let ghost c1 = *chunk;
    stronghold_torch_row(chunk, c_start, c_end, room_left - 12 + 3, room_right + 18 - 3, 6, upper_top + 1);
    let ghost c2 = *chunk;
    stronghold_column(chunk, c_start, c_end, room_left + 3, STRONGHOLD_ROOM_TOP_Y + 1, hall_floor - 1, BlockType::StoneBricks);
    let ghost c3 = *chunk;
    stronghold_column(chunk, c_start, c_end, room_right - 3, STRONGHOLD_ROOM_TOP_Y + 1, hall_floor - 1, BlockType::StoneBricks);
    let ghost c4 = *chunk;
    set_stronghold_block(chunk, c_start, c_end, library_shaft_x - 1, hall_top, BlockType::Glowstone);
    let ghost c5 = *chunk;
    set_stronghold_block(chunk, c_start, c_end, library_shaft_x + 2, hall_top, BlockType::Glowstone);
    let ghost c6 = *chunk;
    set_stronghold_block(chunk, c_start, c_end, staging_room_left + 2, hall_top, BlockType::Glowstone);
    proof {
        assert forall|x: int, y: int| #[trigger] chunk.spec_block_at(x, y) == if stronghold_writes(x, y) {
            stronghold_lights_block(orig.spec_block_at(x, y), c_start + x, y)
        } else {
            orig.spec_block_at(x, y)
        } by {}
    }
}

/// The library's shelves, its plank loft with a gap, two ladders and its
/// torches.
fn build_stronghold_library(chunk: &mut Chunk, c_start: i32, c_end: i32)
    requires
        old(chunk).wf(),
        c_end == c_start + 32,
    ensures
        same_chunk_frame(*old(chunk), *final(chunk)),
        follows_plan(*old(chunk), *final(chunk), c_start as int, |b: BlockType, wx: int, wy: int| stronghold_library_block(b, wx, wy)),
{
    let room_left = STRONGHOLD_CENTER_X - 18;
    let hall_floor = STRONGHOLD_ROOM_BOTTOM_Y - 1;
    let upper_floor = hall_floor - 5;
    let upper_top = upper_floor - 3;
    let l = room_left - 30;
    let r = room_left - 10;
    let top = upper_top - 5;
    let floor = upper_floor + 2;
    let ghost orig = *chunk;
    stronghold_column(chunk, c_start, c_end, l + 2, top + 2, floor - 2, BlockType::Planks);
    let ghost c1 = *chunk;
    stronghold_column(chunk, c_start, c_end, l + 3, top + 2, floor - 2, BlockType::Planks);
    let ghost c2 = *chunk;
    stronghold_column(chunk, c_start, c_end, r - 3, top + 2, floor - 2, BlockType::Planks);
    let ghost c3 = *chunk;
    stronghold_column(chunk, c_start, c_end, r - 2, top + 2, floor - 2, BlockType::Planks);
    let ghost c4 = *chunk;
    let mut loft_x = l + 5;
    while loft_x <= r - 5
        invariant
            same_chunk_frame(c4, *chunk),
            forall|x: int, y: int| #[trigger] chunk.spec_block_at(x, y) == if stronghold_writes(x, y) && y == 84 && 597
                <= c_start + x < loft_x && !(600 <= c_start + x <= 602) {
                BlockType::Planks
            } else {
                c4.spec_block_at(x, y)
            },
            c_end == c_start + 32,
            l == 592 && r == 612 && floor == 88,
            l + 5 <= loft_x <= r - 4,
        decreases r - 4 - loft_x,
    {
        if !(l + 8 <= loft_x && loft_x <= l + 10) {
            set_stronghold_block(chunk, c_start, c_end, loft_x, floor - 4, BlockType::Planks);
        }
        loft_x = loft_x + 1;
    }
    let ghost c5 = *chunk;
    stronghold_column(chunk, c_start, c_end, l + 5, top + 2, floor - 1, BlockType::Ladder);
    let ghost c6 = *chunk;
    stronghold_column(chunk, c_start, c_end, r - 5, top + 2, floor - 1, BlockType::Ladder);
    let ghost c7 = *chunk;
    set_stronghold_block(chunk, c_start, c_end, l + 5, top + 1, BlockType::Torch);
    let ghost c8 = *chunk;
    set_stronghold_block(chunk, c_start, c_end, (l + r) / 2, top + 1, BlockType::Torch);
    let ghost c9 = *chunk;
    set_stronghold_block(chunk, c_start, c_end, r - 5, top + 1, BlockType::Torch);
    proof {
        assert forall|x: int, y: int| #[trigger] chunk.spec_block_at(x, y) == if stronghold_writes(x, y) {
            stronghold_library_block(orig.spec_block_at(x, y), c_start + x, y)
        } else {
            orig.spec_block_at(x, y)
        } by {}
    }
}

/// Hangs an open iron door at world column `wx`: rows `wy` and `wy - 1`.
fn place_stronghold_door(chunk: &mut Chunk, c_start: i32, c_end: i32, wx: i32, wy: i32)
    requires
        old(chunk).wf(),
        c_end == c_start + 32,
        small_coord(wy as int),
    ensures
        same_chunk_frame(*old(chunk), *final(chunk)),
        forall|x: int, y: int| #[trigger] final(chunk).spec_block_at(x, y) == if stronghold_writes(x, y) && c_start + x
            == wx && (y == wy || y == wy - 1) {
            BlockType::IronDoor(true)
        } else {
            old(chunk).spec_block_at(x, y)
        },
{
    let ghost orig = *chunk;
    set_stronghold_block(chunk, c_start, c_end, wx, wy, BlockType::IronDoor(true));
    let ghost c1 = *chunk;
    set_stronghold_block(chunk, c_start, c_end, wx, wy - 1, BlockType::IronDoor(true));
    proof {
        assert forall|x: int, y: int| #[trigger] chunk.spec_block_at(x, y) == if stronghold_writes(x, y) && c_start + x
            == wx && (y == wy || y == wy - 1) {
            BlockType::IronDoor(true)
        } else {
            orig.spec_block_at(x, y)
        } by {}
    }
}

/// The staging room's slabs, crafting table, furnace and torches; the iron
/// doors of the branch entrances; the silverfish spawner.
fn build_stronghold_fittings(chunk: &mut Chunk, c_start: i32, c_end: i32)
    requires
        old(chunk).wf(),
        c_end == c_start + 32,
    ensures
        same_chunk_frame(*old(chunk), *final(chunk)),
        follows_plan(*old(chunk), *final(chunk), c_start as int, |b: BlockType, wx: int, wy: int| stronghold_fittings_block(b, wx, wy)),
{
    let room_left = STRONGHOLD_CENTER_X - 18;
    let room_right = STRONGHOLD_CENTER_X + 18;
    let hall_floor = STRONGHOLD_ROOM_BOTTOM_Y - 1;
    let hall_top = hall_floor - 3;
    let upper_floor = hall_floor - 5;
    let library_room_right = room_left - 10;
    let silver_room_left = room_right + 10;
    let silver_room_right = room_right + 22;
    let silver_room_floor = upper_floor + 2;
    let staging_room_left = room_right + 12;
    let staging_room_right = room_right + 30;
    let staging_room_top = hall_top - 4;
    let staging_room_floor = hall_floor;
    let ghost orig = *chunk;
    set_stronghold_block(chunk, c_start, c_end, staging_room_left + 4, staging_room_floor - 1, BlockType::StoneSlab);
    let ghost c1 = *chunk;
    set_stronghold_block(chunk, c_start, c_end, staging_room_right - 4, staging_room_floor - 1, BlockType::StoneSlab);
    let ghost c2 = *chunk;
    set_stronghold_block(chunk, c_start, c_end, staging_room_left + 3, staging_room_floor, BlockType::CraftingTable);
    let ghost c3 = *chunk;
    set_stronghold_block(chunk, c_start, c_end, staging_room_left + 5, staging_room_floor, BlockType::Furnace);
    let ghost c4 = *chunk;
    set_stronghold_block(chunk, c_start, c_end, staging_room_left + 2, staging_room_top + 1, BlockType::Torch);
    let ghost c5 = *chunk;
    set_stronghold_block(chunk, c_start, c_end, staging_room_right - 2, staging_room_top + 1, BlockType::Torch);
    let ghost c6 = *chunk;
    place_stronghold_door(chunk, c_start, c_end, room_left + 1, hall_floor - 1);
    let ghost c7 = *chunk;
    place_stronghold_door(chunk, c_start, c_end, room_right - 1, hall_floor - 1);
    let ghost c8 = *chunk;
    place_stronghold_door(chunk, c_start, c_end, room_left + 4, upper_floor - 1);
    let ghost c9 = *chunk;
    place_stronghold_door(chunk, c_start, c_end, library_room_right, upper_floor - 1);
    let ghost c10 = *chunk;
    place_stronghold_door(chunk, c_start, c_end, silver_room_left + 1, upper_floor - 1);
    let ghost c11 = *chunk;
    place_stronghold_door(chunk, c_start, c_end, staging_room_left + 1, hall_floor - 1);
    let ghost c12 = *chunk;
    set_stronghold_block(
        chunk,
        c_start,
        c_end,
        (silver_room_left + silver_room_right) / 2,
        silver_room_floor - 1,
        BlockType::SilverfishSpawner,
    );
    proof {
        assert forall|x: int, y: int| #[trigger] chunk.spec_block_at(x, y) == if stronghold_writes(x, y) {
            stronghold_fittings_block(orig.spec_block_at(x, y), c_start + x, y)
        } else {
            orig.spec_block_at(x, y)
        } by {}
    }
}

/// The end portal frame: frame blocks round its empty two-by-two inside.
fn build_stronghold_portal(chunk: &mut Chunk, c_start: i32, c_end: i32)
    requires
        old(chunk).wf(),
        c_end == c_start + 32,
    ensures
        same_chunk_frame(*old(chunk), *final(chunk)),
        forall|x: int, y: int| #[trigger] final(chunk).spec_block_at(x, y) == if in_portal_frame(c_start + x, y)
            && stronghold_cell(c_start as int, c_start + x, y, x, y) {
            portal_frame_block(STRONGHOLD_PORTAL_INNER_X as int, STRONGHOLD_PORTAL_INNER_Y as int, c_start + x, y)
        } else {
            old(chunk).spec_block_at(x, y)
        },
{
    let inner_x = STRONGHOLD_PORTAL_INNER_X;
    let inner_y = STRONGHOLD_PORTAL_INNER_Y;
    let left = inner_x - 1;
    let right = inner_x + 2;
    let top = inner_y - 1;
    let bottom = inner_y + 2;
    let ghost orig = *chunk;
    let mut wx = left;
    while wx <= right
        invariant
            same_chunk_frame(orig, *chunk),
            c_end == c_start + 32,
            left == 639 && right == 642 && top == 85 && bottom == 88,
            left <= wx <= right + 1,
            forall|x: int, y: int| #[trigger] chunk.spec_block_at(x, y) == if left <= c_start + x < wx && top <= y
                <= bottom && stronghold_cell(c_start as int, c_start + x, y, x, y) {
                portal_frame_block(640, 86, c_start + x, y)
            } else {
                orig.spec_block_at(x, y)
            },
        decreases right + 1 - wx,
    {
        let mut wy = top;
        while wy <= bottom
            invariant
                same_chunk_frame(orig, *chunk),
                c_end == c_start + 32,
                left == 639 && right == 642 && top == 85 && bottom == 88,
                left <= wx <= right,
                top <= wy <= bottom + 1,
                forall|x: int, y: int| #[trigger] chunk.spec_block_at(x, y) == if ((left <= c_start + x < wx && top
                    <= y <= bottom) || (c_start + x == wx && top <= y < wy)) && stronghold_cell(
                    c_start as int,
                    c_start + x,
                    y,
                    x,
                    y,
                ) {
                    portal_frame_block(640, 86, c_start + x, y)
                } else {
                    orig.spec_block_at(x, y)
                },
            decreases bottom + 1 - wy,
        {
            let is_frame = wx == left || wx == right || wy == top || wy == bottom;
            if is_frame {
                set_stronghold_block(chunk, c_start, c_end, wx, wy, BlockType::EndPortalFrame { filled: false });
            } else {
                set_stronghold_block(chunk, c_start, c_end, wx, wy, BlockType::Air);
            }
            wy = wy + 1;
        }
        wx = wx + 1;
    }
}

/// The dais under the portal: a stone brick floor with slab ends, glowstone
/// markers at its corners, and slabs every five columns along the runway
/// from the room's left wall.
fn build_stronghold_dais(chunk: &mut Chunk, c_start: i32, c_end: i32)
    requires
        old(chunk).wf(),
        c_end == c_start + 32,
    ensures
        same_chunk_frame(*old(chunk), *final(chunk)),
        follows_plan(*old(chunk), *final(chunk), c_start as int, |b: BlockType, wx: int, wy: int| stronghold_dais_block(b, wx, wy)),
{
    let inner_x = STRONGHOLD_PORTAL_INNER_X;
    let inner_y = STRONGHOLD_PORTAL_INNER_Y;
    let hall_floor = STRONGHOLD_ROOM_BOTTOM_Y - 1;
    let room_left = STRONGHOLD_CENTER_X - 18;
    let ghost orig = *chunk;
    let mut wx = inner_x - 3;
    while wx <= inner_x + 4
        invariant
            same_chunk_frame(orig, *chunk),
            forall|x: int, y: int| #[trigger] chunk.spec_block_at(x, y) == if stronghold_writes(x, y) && 637 <= c_start
                + x < wx && (y == 91 || (y == 90 && (c_start + x == 637 || c_start + x == 644))) {
                if y == 91 {
                    BlockType::StoneBricks
                } else {
                    BlockType::StoneSlab
                }
            } else {
                orig.spec_block_at(x, y)
            },
            c_end == c_start + 32,
            inner_x == 640 && hall_floor == 91,
            inner_x - 3 <= wx <= inner_x + 5,
        decreases inner_x + 5 - wx,
    {
        let ghost d0 = *chunk;
        set_stronghold_block(chunk, c_start, c_end, wx, hall_floor, BlockType::StoneBricks);
        let ghost d1 = *chunk;
        if wx == inner_x - 3 || wx == inner_x + 4 {
            set_stronghold_block(chunk, c_start, c_end, wx, hall_floor - 1, BlockType::StoneSlab);
        }
        proof {
            assert forall|x: int, y: int| #[trigger] chunk.spec_block_at(x, y) == if stronghold_writes(x, y) && 637
                <= c_start + x < wx + 1 && (y == 91 || (y == 90 && (c_start + x == 637 || c_start + x == 644))) {
                if y == 91 {
                    BlockType::StoneBricks
                } else {
                    BlockType::StoneSlab
                }
            } else {
                orig.spec_block_at(x, y)
            } by {}
        }
        wx = wx + 1;
    }
    let ghost c1 = *chunk;
    set_stronghold_block(chunk, c_start, c_end, inner_x - 3, inner_y - 2, BlockType::Glowstone);
    let ghost c2 = *chunk;
    set_stronghold_block(chunk, c_start, c_end, inner_x - 3, inner_y + 3, BlockType::Glowstone);
    let ghost c3 = *chunk;
    set_stronghold_block(chunk, c_start, c_end, inner_x + 4, inner_y - 2, BlockType::Glowstone);
    let ghost c4 = *chunk;
    set_stronghold_block(chunk, c_start, c_end, inner_x + 4, inner_y + 3, BlockType::Glowstone);
    let ghost c5 = *chunk;
    let mut runway_x = room_left + 6;
    while runway_x <= inner_x - 5
        invariant
            same_chunk_frame(c5, *chunk),
            forall|x: int, y: int| #[trigger] chunk.spec_block_at(x, y) == if stronghold_writes(x, y) && y == 90 && 628
                <= c_start + x < runway_x && (c_start + x) % 5 == 0 {
                BlockType::StoneSlab
            } else {
                c5.spec_block_at(x, y)
            },
            c_end == c_start + 32,
            inner_x == 640 && hall_floor == 91 && room_left == 622,
            room_left + 6 <= runway_x <= inner_x - 4,
        decreases inner_x - 4 - runway_x,
    {
        if rem_euclid_i32(runway_x, 5) == 0 {
            set_stronghold_block(chunk, c_start, c_end, runway_x, hall_floor - 1, BlockType::StoneSlab);
        }
        runway_x = runway_x + 1;
    }
    proof {
        assert forall|x: int, y: int| #[trigger] chunk.spec_block_at(x, y) == if stronghold_writes(x, y) {
            stronghold_dais_block(orig.spec_block_at(x, y), c_start + x, y)
        } else {
            orig.spec_block_at(x, y)
        } by {}
    }
}



/// Fills the chest at (local_x, y) of the chunk with stronghold loot rolled
/// from `seed`: torches, bread and iron always, and by chance redstone,
/// arrows, a bucket, an iron pickaxe, a bow, an iron sword, then bones,
/// string and coal (`utility_bias`) or coal and gold, and rarely a diamond.
/// Nothing happens where there is no chest.
fn fill_stronghold_chest_loot(chunk: &mut Chunk, local_x: usize, y: usize, seed: u32, utility_bias: bool)
    requires
        old(chunk).wf(),
    ensures
        same_chunk_frame(*old(chunk), *final(chunk)),
        final(chunk).view_blocks() == old(chunk).view_blocks(),
        fresh_chest(*old(chunk), local_x as int, y as int) ==> chest_holds(
            *final(chunk),
            local_x as int,
            y as int,
            ItemType::Torch,
            4 + loot_roll(seed) % 5,
        ),
        forall|i: int| 0 <= i < old(chunk).view_chests().len() && i != cell_index(local_x as int, y as int) ==> #[trigger] final(chunk).view_chests()[i]
            == old(chunk).view_chests()[i],
{
    let chest = match loot_chest(chunk, local_x, y) {
        Some(chest) => chest,
        None => {
            return;
        },
    };
    let ghost fresh = fresh_chest(*old(chunk), local_x as int, y as int);
    proof {
        old(chunk).lemma_wf_views();
        if fresh {
            assert(empty_loot_chest(*chest));
            assert(0 <= cell_index(local_x as int, y as int) < old(chunk).view_chests().len());
        }
    }
    stronghold_loot(chest, seed, utility_bias);
}

/// Puts the stronghold loot rolled from `seed` into `chest`, with more tools when `utility_bias`.
fn stronghold_loot(chest: &mut Inventory, seed: u32, utility_bias: bool)
    requires
        old(chest).wf(),
    ensures
        final(chest).wf(),
        empty_loot_chest(*old(chest)) ==> final(chest).spec_count(ItemType::Torch) == 4 + loot_roll(seed) % 5,
{
    proof {
        if empty_loot_chest(*chest) {
            assert(stack_limit(ItemType::Torch) == 64);
            assert(forall|i: int| 0 <= i < chest.slots@.len() ==> #[trigger] chest.slots@[i] is None);
        }
    }
    let mut state = next_loot_roll(seed);
    add_loot(chest, ItemType::Torch, 4 + (state % 5));
    state = next_loot_roll(state);
    add_loot(chest, ItemType::Bread, 1 + (state % 3));
    state = next_loot_roll(state);
    add_loot(chest, ItemType::IronIngot, 2 + (state % 3));

    state = next_loot_roll(state);
    if state % 100 < 65 {
        state = next_loot_roll(state);
        add_loot(chest, ItemType::RedstoneDust, 2 + (state % 5));
    }
    state = next_loot_roll(state);
    if state % 100 < 52 {
        state = next_loot_roll(state);
        add_loot(chest, ItemType::Arrow, 4 + (state % 6));
    }
    state = next_loot_roll(state);
    if state % 100 < 26 {
        add_loot(chest, ItemType::Bucket, 1);
    }
    state = next_loot_roll(state);
    if state % 100 < 24 {
        add_loot(chest, ItemType::IronPickaxe, 1);
    }
    state = next_loot_roll(state);
    if state % 100 < 18 {
        add_loot(chest, ItemType::Bow, 1);
    }
    state = next_loot_roll(state);
    if state % 100 < 16 {
        add_loot(chest, ItemType::IronSword, 1);
    }

    if utility_bias {
        state = next_loot_roll(state);
        if state % 100 < 42 {
            state = next_loot_roll(state);
            add_loot(chest, ItemType::Bone, 1 + (state % 3));
        }
        state = next_loot_roll(state);
        if state % 100 < 34 {
            state = next_loot_roll(state);
            add_loot(chest, ItemType::String, 1 + (state % 3));
        }
        state = next_loot_roll(state);
        if state % 100 < 30 {
            state = next_loot_roll(state);
            add_loot(chest, ItemType::Coal, 1 + (state % 3));
        }
    } else {
        state = next_loot_roll(state);
        if state % 100 < 40 {
            state = next_loot_roll(state);
            add_loot(chest, ItemType::Coal, 2 + (state % 4));
        }
        state = next_loot_roll(state);
        if state % 100 < 24 {
            state = next_loot_roll(state);
            add_loot(chest, ItemType::GoldIngot, 1 + (state % 2));
        }
    }

    state = next_loot_roll(state);
    if state % 100 < 10 {
        add_loot(chest, ItemType::Diamond, 1);
    }
}

/// Adds the fixed extras of the library chest (`extras` 1: arrows and
/// string) or the staging chest (`extras` 2: bread and torches) to the
/// chest inventory at (local_x, y), if there is one that can take items.
/// Blocks and other chests stay; no item of the chest gets fewer.
fn add_stronghold_extras(chunk: &mut Chunk, local_x: usize, y: usize, extras: u8)
    requires
        old(chunk).wf(),
        local_x < 32,
        y < 128,
    ensures
        same_chunk_frame(*old(chunk), *final(chunk)),
        final(chunk).view_blocks() == old(chunk).view_blocks(),
        forall|i: int| 0 <= i < old(chunk).view_chests().len() && i != cell_index(local_x as int, y as int) ==> #[trigger] final(chunk).view_chests()[i]
            == old(chunk).view_chests()[i],
        forall|item: ItemType, n: int| chest_holds_at_least(*old(chunk), local_x as int, y as int, item, n)
            ==> #[trigger] chest_holds_at_least(*final(chunk), local_x as int, y as int, item, n),
{
    proof {
        chunk.lemma_wf_views();
    }
    let ghost c0 = *chunk;
    match chunk.chest_inventory_mut(local_x, y) {
        Some(inv) => {
            let ghost inv0 = *inv;
            if inv.capacity <= inv.slots.len() {
                if extras == 1 {
                    inv.add_item(ItemType::Arrow, 6);
                    inv.add_item(ItemType::String, 2);
                } else if extras == 2 {
                    inv.add_item(ItemType::Bread, 2);
                    inv.add_item(ItemType::Torch, 4);
                }
            }
            assert(forall|item: ItemType| #[trigger] inv.spec_count(item) >= inv0.spec_count(item));
        },
        None => {},
    }
}

/// Places one branch chest at world cell (chest_x, chest_y) and, when it
/// lies in this chunk, fills it with loot seeded from its position and
/// `salt`, adding the fixed extras of the library chest (`extras` 1) or the
/// staging chest (`extras` 2).
fn place_stronghold_chest(
    chunk: &mut Chunk,
    c_start: i32,
    c_end: i32,
    chest_x: i32,
    chest_y: i32,
    utility_bias: bool,
    salt: u32,
    extras: u8,
)
    requires
        old(chunk).wf(),
        c_end == c_start + 32,
        592 <= chest_x <= 688,
        66 <= chest_y <= 92,
    ensures
        same_chunk_frame(*old(chunk), *final(chunk)),
        forall|x: int, y: int| #[trigger] final(chunk).spec_block_at(x, y) == if stronghold_cell(
            c_start as int,
            chest_x as int,
            chest_y as int,
            x,
            y,
        ) {
            BlockType::Chest
        } else {
            old(chunk).spec_block_at(x, y)
        },
        c_start <= chest_x < c_end && old(chunk).spec_block_at(chest_x - c_start, chest_y as int) != BlockType::Chest
            ==> chest_holds_at_least(
            *final(chunk),
            chest_x - c_start,
            chest_y as int,
            ItemType::Torch,
            4 + loot_roll(stronghold_chest_seed(chest_x as int, chest_y as int, salt)) % 5,
        ),
        forall|i: int| 0 <= i < old(chunk).view_chests().len() && i != cell_index(chest_x - c_start, chest_y as int) ==> #[trigger] final(chunk).view_chests()[i]
            == old(chunk).view_chests()[i],
{
    let ghost c0 = *chunk;
    set_stronghold_block(chunk, c_start, c_end, chest_x, chest_y, BlockType::Chest);
    if chest_x >= c_start && chest_x < c_end {
        let local_x = (chest_x - c_start) as usize;
        let ghost c1 = *chunk;
        fill_stronghold_chest_loot(
            chunk,
            local_x,
            chest_y as usize,
            ((chest_x * 31 + chest_y * 17) as u32) ^ salt,
            utility_bias,
        );
        let ghost c2 = *chunk;
        proof {
            assert(stronghold_chest_seed(chest_x as int, chest_y as int, salt) == ((chest_x * 31 + chest_y * 17) as u32) ^ salt);
        }
        add_stronghold_extras(chunk, local_x, chest_y as usize, extras);
        proof {
            assert(chunk.view_blocks() == c1.view_blocks());
            assert forall|x: int, y: int| #[trigger] chunk.spec_block_at(x, y) == c1.spec_block_at(x, y) by {}
            c0.lemma_wf_views();
            c1.lemma_wf_views();
            c2.lemma_wf_views();
            assert forall|i: int|
                0 <= i < c0.view_chests().len() && i != cell_index(chest_x - c_start, chest_y as int) implies #[trigger] chunk.view_chests()[i]
                == c0.view_chests()[i] by {
                assert(c1.view_chests()[i] == c0.view_chests()[i]);
                assert(c2.view_chests()[i] == c1.view_chests()[i]);
            }
        }
    }
}

/// Everything of the stronghold in the chunk starting at `c_start` but its
/// chests: rooms, connectors, lights, library, fittings, portal and dais,
/// cell by cell as `stronghold_sections_block` plans it.
fn build_stronghold_sections(chunk: &mut Chunk, c_start: i32, c_end: i32)
    requires
        old(chunk).wf(),
        c_end == c_start + 32,
        small_coord(c_start as int),
    ensures
        same_chunk_frame(*old(chunk), *final(chunk)),
        follows_plan(*old(chunk), *final(chunk), c_start as int, |b: BlockType, wx: int, wy: int| stronghold_sections_block(b, wx, wy)),
{
    let ghost orig = *chunk;
    build_stronghold_rooms(chunk, c_start, c_end);
    let ghost c1 = *chunk;
    build_stronghold_connectors(chunk, c_start, c_end);
    let ghost c2 = *chunk;
    build_stronghold_lights(chunk, c_start, c_end);
    let ghost c3 = *chunk;
    build_stronghold_library(chunk, c_start, c_end);
    let ghost c4 = *chunk;
    build_stronghold_fittings(chunk, c_start, c_end);
    let ghost c5 = *chunk;
    build_stronghold_portal(chunk, c_start, c_end);
    let ghost c6 = *chunk;
    build_stronghold_dais(chunk, c_start, c_end);
    proof {
        assert forall|x: int, y: int| #[trigger] chunk.spec_block_at(x, y) == if stronghold_writes(x, y) {
            stronghold_sections_block(orig.spec_block_at(x, y), c_start + x, y)
        } else {
            orig.spec_block_at(x, y)
        } by {}
    }
}

/// Builds the part of the overworld stronghold that falls into the chunk of
/// chunk column `chunk_x`: the portal room with the end portal frame and
/// its dais, the halls on either side, the upper hall, the library,
/// silverfish and staging rooms with their fittings, doors, lights and
/// three loot chests. Every cell off the chunk's top and bottom rows holds
/// what `stronghold_block` plans for its world cell and former block, so
/// chunks that the stronghold does not reach stay as they are, and nothing
/// outside its bounds (world columns 592 to 688, rows 66 to 92) changes.
pub fn build_overworld_stronghold(chunk: &mut Chunk, chunk_x: i32)
    requires
        old(chunk).wf(),
        -0x400_0000 <= chunk_x < 0x3ff_ffff,
    ensures
        same_chunk_frame(*old(chunk), *final(chunk)),
        same_outside(*old(chunk), *final(chunk), chunk_x * 32, 592, 688, 66, 92),
        follows_plan(*old(chunk), *final(chunk), chunk_x * 32, |b: BlockType, wx: int, wy: int| stronghold_block(b, wx, wy)),
        forall|x: int, y: int| in_chunk(x, y) && in_portal_frame(chunk_x * 32 + x, y)
            ==> #[trigger] final(chunk).spec_block_at(x, y) == portal_frame_block(
            STRONGHOLD_PORTAL_INNER_X as int,
            STRONGHOLD_PORTAL_INNER_Y as int,
            chunk_x * 32 + x,
            y,
        ),
        stronghold_block_is(*final(chunk), chunk_x * 32, 595, 88, BlockType::Chest),
        stronghold_block_is(*final(chunk), chunk_x * 32, 678, 88, BlockType::Chest),
        stronghold_block_is(*final(chunk), chunk_x * 32, 686, 91, BlockType::Chest),
        chunk_x * 32 <= 595 < chunk_x * 32 + 32 ==> chest_holds_at_least(
            *final(chunk),
            595 - chunk_x * 32,
            88,
            ItemType::Torch,
            4 + loot_roll(stronghold_chest_seed(595, 88, 0x1357_2468)) % 5,
        ),
        chunk_x * 32 <= 678 < chunk_x * 32 + 32 ==> chest_holds_at_least(
            *final(chunk),
            678 - chunk_x * 32,
            88,
            ItemType::Torch,
            4 + loot_roll(stronghold_chest_seed(678, 88, 0x2468_1357)) % 5,
        ),
        chunk_x * 32 <= 686 < chunk_x * 32 + 32 ==> chest_holds_at_least(
            *final(chunk),
            686 - chunk_x * 32,
            91,
            ItemType::Torch,
            4 + loot_roll(stronghold_chest_seed(686, 91, 0x3579_1357)) % 5,
        ),
        stronghold_block_is(*final(chunk), chunk_x * 32, 597, 79, BlockType::Torch),
        stronghold_block_is(*final(chunk), chunk_x * 32, 602, 79, BlockType::Torch),
        stronghold_block_is(*final(chunk), chunk_x * 32, 607, 79, BlockType::Torch),
        stronghold_block_is(*final(chunk), chunk_x * 32, 674, 87, BlockType::SilverfishSpawner),
        stronghold_block_is(*final(chunk), chunk_x * 32, 637, 84, BlockType::Glowstone),
        stronghold_block_is(*final(chunk), chunk_x * 32, 644, 89, BlockType::Glowstone),
{
    let c_start = chunk_x * CHUNK_WIDTH as i32;
    let c_end = c_start + CHUNK_WIDTH as i32;
    let room_left = STRONGHOLD_CENTER_X - 18;
    let room_right = STRONGHOLD_CENTER_X + 18;
    let hall_floor = STRONGHOLD_ROOM_BOTTOM_Y - 1;
    let upper_floor = hall_floor - 5;
    let library_room_left = room_left - 30;
    let west_hall_left = room_left - 18;
    let silver_room_right = room_right + 22;
    let staging_room_right = room_right + 30;
    let stronghold_left = if library_room_left < west_hall_left { library_room_left } else { west_hall_left };
    let stronghold_right = if silver_room_right > staging_room_right { silver_room_right } else { staging_room_right };
    if c_end <= stronghold_left || c_start > stronghold_right {
        proof {
            assert forall|x: int, y: int| in_chunk(x, y) implies !in_portal_frame(chunk_x * 32 + x, y) by {}
            assert forall|x: int, y: int| #[trigger] chunk.spec_block_at(x, y) == if stronghold_writes(x, y) {
                stronghold_block(chunk.spec_block_at(x, y), chunk_x * 32 + x, y)
            } else {
                chunk.spec_block_at(x, y)
            } by {}
        }
        return;
    }
    let ghost orig = *chunk;
    build_stronghold_sections(chunk, c_start, c_end);
    let ghost c7 = *chunk;
    place_stronghold_chest(chunk, c_start, c_end, library_room_left + 3, upper_floor + 2, true, 0x1357_2468, 1);
    let ghost c8 = *chunk;
    place_stronghold_chest(chunk, c_start, c_end, silver_room_right - 2, upper_floor + 2, false, 0x2468_1357, 0);
    let ghost c9 = *chunk;
    place_stronghold_chest(chunk, c_start, c_end, staging_room_right - 2, hall_floor, false, 0x3579_1357, 2);
    proof {
        assert(c_start == chunk_x * 32);
        let cs = c_start as int;
        assert forall|x: int, y: int| #[trigger] chunk.spec_block_at(x, y) == if stronghold_writes(x, y) {
            stronghold_block(orig.spec_block_at(x, y), cs + x, y)
        } else {
            orig.spec_block_at(x, y)
        } by {}
        assert forall|x: int, y: int| !(592 <= cs + x <= 688 && 66 <= y <= 92) implies #[trigger] chunk.spec_block_at(x, y)
            == orig.spec_block_at(x, y) by {
            assert(chunk.spec_block_at(x, y) == c9.spec_block_at(x, y));
            assert(c9.spec_block_at(x, y) == c8.spec_block_at(x, y));
            assert(c8.spec_block_at(x, y) == c7.spec_block_at(x, y));
        }
        assert forall|x: int, y: int| in_chunk(x, y) && in_portal_frame(cs + x, y) implies #[trigger] chunk.spec_block_at(
            x,
            y,
        ) == portal_frame_block(640, 86, cs + x, y) by {
            assert(c8.spec_block_at(x, y) == c7.spec_block_at(x, y));
            assert(c9.spec_block_at(x, y) == c8.spec_block_at(x, y));
            assert(chunk.spec_block_at(x, y) == c9.spec_block_at(x, y));
        }
        c7.lemma_wf_views();
        c8.lemma_wf_views();
        c9.lemma_wf_views();
        let i1 = cell_index(595 - cs, 88);
        let i2 = cell_index(678 - cs, 88);
        let i3 = cell_index(686 - cs, 91);
        if cs <= 595 < cs + 32 {
            assert(chest_holds_at_least(c8, 595 - cs, 88, ItemType::Torch, 4 + loot_roll(stronghold_chest_seed(595, 88, 0x1357_2468)) % 5));
            assert(c9.view_chests()[i1] == c8.view_chests()[i1]);
            assert(chunk.view_chests()[i1] == c9.view_chests()[i1]);
        }
        if cs <= 678 < cs + 32 {
            assert(c8.spec_block_at(678 - cs, 88) == c7.spec_block_at(678 - cs, 88));
            assert(chunk.view_chests()[i2] == c9.view_chests()[i2]);
        }
        if cs <= 686 < cs + 32 {
            assert(c8.spec_block_at(686 - cs, 91) == c7.spec_block_at(686 - cs, 91));
            assert(c9.spec_block_at(686 - cs, 91) == c8.spec_block_at(686 - cs, 91));
        }
        assert forall|wx: int, wy: int|
            (wx == 597 || wx == 602 || wx == 607 || wx == 674 || wx == 637 || wx == 644) && cs <= wx < cs + 32 && 66 <= wy <= 92
                implies #[trigger] chunk.spec_block_at(wx - cs, wy) == c7.spec_block_at(wx - cs, wy) by {
            assert(c8.spec_block_at(wx - cs, wy) == c7.spec_block_at(wx - cs, wy));
            assert(c9.spec_block_at(wx - cs, wy) == c8.spec_block_at(wx - cs, wy));
            assert(chunk.spec_block_at(wx - cs, wy) == c9.spec_block_at(wx - cs, wy));
        }
    }
}

} // verus!
