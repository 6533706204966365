use vstd::prelude::*;
use super::block::BlockType;
use super::caves::put_cell;
use super::chunk::{Chunk, CHUNK_HEIGHT, CHUNK_WIDTH, in_chunk};
use super::stronghold::same_chunk_frame;

verus! {

/// How many obsidian towers stand on the End's central island.
pub const END_TOWER_COUNT: usize = 4;

/// The world column of End tower `idx`.
pub open spec fn end_tower_x(idx: int) -> int {
    if idx == 0 {
        -28
    } else if idx == 1 {
        -14
    } else if idx == 2 {
        14
    } else {
        28
    }
}

/// The world column of End tower `idx` (0 to 3).
pub fn end_tower_column(idx: usize) -> (r: i32)
    requires
        idx < END_TOWER_COUNT,
    ensures
        r == end_tower_x(idx as int),
{
    if idx == 0 {
        -28
    } else if idx == 1 {
        -14
    } else if idx == 2 {
        14
    } else {
        28
    }
}

/// The first row from `y` down to row 125 of column `lx` that holds end
/// stone, or row 34 where none does.
pub open spec fn first_end_stone_row(c: Chunk, lx: int, y: int) -> int
    decreases 126 - y,
{
    if y >= 126 {
        34
    } else if c.spec_block_at(lx, y) == BlockType::EndStone {
        y
    } else {
        first_end_stone_row(c, lx, y + 1)
    }
}

/// How many rows End tower `idx` rises above the ground.
pub open spec fn end_tower_height(idx: int) -> int {
    let tx = end_tower_x(idx);
    let a = if tx < 0 {
        -tx
    } else {
        tx
    };
    8 + ((idx * 5 + a) % 5)
}

/// The top row of a tower standing on row `base`, kept off the two top
/// rows of the world.
pub open spec fn end_tower_top(base: int, idx: int) -> int {
    if base - end_tower_height(idx) > 2 {
        base - end_tower_height(idx)
    } else {
        2
    }
}

/// The row of the arch over a tower's passage.
pub open spec fn end_tower_arch(base: int, idx: int) -> int {
    if base - 4 > end_tower_top(base, idx) + 1 {
        base - 4
    } else {
        end_tower_top(base, idx) + 1
    }
}

/// What End tower `idx` leaves in `after`, built into `before` (the chunk
/// starting at world column `c_start`), where its column is in the chunk:
/// obsidian in its column from its top to the arch, a glowstone cap above
/// its top, and an open passage three columns wide between the arch and
/// the ground.
pub open spec fn end_tower_built(before: Chunk, after: Chunk, c_start: int, idx: int) -> bool {
    let tx = end_tower_x(idx);
    let lx = tx - c_start;
    let base = first_end_stone_row(before, lx, 2);
    let top = end_tower_top(base, idx);
    let arch = end_tower_arch(base, idx);
    0 <= lx < 32 ==> {
        &&& forall|y: int| top <= y < arch ==> #[trigger] after.spec_block_at(lx, y) == BlockType::Obsidian
        &&& top - 1 > 1 ==> after.spec_block_at(lx, top - 1) == BlockType::Glowstone
        &&& forall|x: int, y: int|
            in_chunk(x, y) && tx - 1 <= c_start + x <= tx + 1 && arch < y < base ==> #[trigger] after.spec_block_at(x, y)
                == BlockType::Air
    }
}

/// Every cell of `after` off world columns `left` to `right` of the chunk
/// starting at `c_start`, or off rows 2 to 125, is as in `before`.
pub open spec fn end_changed_within(before: Chunk, after: Chunk, c_start: int, left: int, right: int) -> bool {
    &&& same_chunk_frame(before, after)
    &&& forall|x: int, y: int|
        !(left <= c_start + x <= right && 2 <= y <= 125) ==> #[trigger] after.spec_block_at(x, y)
            == before.spec_block_at(x, y)
}

/// The same column of two chunks gives the same first end stone row.
proof fn lemma_first_end_stone_row_same(a: Chunk, b: Chunk, lx: int, y: int)
    requires
        forall|y2: int| #[trigger] a.spec_block_at(lx, y2) == b.spec_block_at(lx, y2),
    ensures
        first_end_stone_row(a, lx, y) == first_end_stone_row(b, lx, y),
    decreases 126 - y,
{
    if y < 126 {
        assert(a.spec_block_at(lx, y) == b.spec_block_at(lx, y));
        lemma_first_end_stone_row_same(a, b, lx, y + 1);
    }
}

/// Places `block` at world column `wx`, row `wy`, where that cell lies in
/// the chunk starting at `c_start`.
fn set_end_cell(chunk: &mut Chunk, c_start: i32, wx: i32, wy: i32, block: BlockType)
    requires
        old(chunk).wf(),
        -0x8000_0000 <= c_start <= 0x7fff_ffc0,
        -100 <= wx <= 100,
    ensures
        same_chunk_frame(*old(chunk), *final(chunk)),
        forall|x: int, y: int| #[trigger] final(chunk).spec_block_at(x, y) == if c_start + x == wx && y == wy
            && in_chunk(x, y) {
            block
        } else {
            old(chunk).spec_block_at(x, y)
        },
{
    if wx >= c_start && wx < c_start + CHUNK_WIDTH as i32 && 0 <= wy && wy < CHUNK_HEIGHT as i32 {
        put_cell(chunk, (wx - c_start) as usize, wy as usize, block);
    }
}

/// The block at world column `wx`, row `wy` of the chunk starting at
/// `c_start`; air off the chunk.
fn end_cell(chunk: &Chunk, c_start: i32, wx: i32, wy: i32) -> (r: BlockType)
    requires
        chunk.wf(),
        -0x8000_0000 <= c_start <= 0x7fff_ffc0,
        -100 <= wx <= 100,
    ensures
        r == chunk.spec_block_at(wx - c_start, wy as int),
{
    if wx >= c_start && wx < c_start + CHUNK_WIDTH as i32 && 0 <= wy && wy < CHUNK_HEIGHT as i32 {
        chunk.get_block((wx - c_start) as usize, wy as usize)
    } else {
        BlockType::Air
    }
}

/// Builds End tower `idx` into the chunk starting at world column
/// `c_start`, where the tower's column lies in the chunk: an obsidian
/// pillar over an arch on two obsidian legs, a passage under the arch, end
/// stone footing beside the legs, and glowstone on its top and on its legs.
fn build_end_tower(chunk: &mut Chunk, c_start: i32, idx: usize)
    requires
        old(chunk).wf(),
        -0x8000_0000 <= c_start <= 0x7fff_ffc0,
        idx < END_TOWER_COUNT,
    ensures
        end_changed_within(
            *old(chunk),
            *final(chunk),
            c_start as int,
            end_tower_x(idx as int) - 3,
            end_tower_x(idx as int) + 3,
        ),
        end_tower_built(*old(chunk), *final(chunk), c_start as int, idx as int),
{
    let ghost orig = *chunk;
    let tower_x = end_tower_column(idx);
    if tower_x < c_start || tower_x >= c_start + CHUNK_WIDTH as i32 {
        return;
    }
    let lx = (tower_x - c_start) as usize;
    let mut base_y: i32 = 34;
    let mut y: i32 = 2;
    let mut found = false;
    while y < CHUNK_HEIGHT as i32 - 2 && !found
        invariant
            2 <= y <= 126,
            lx < 32,
            found ==> base_y == first_end_stone_row(orig, lx as int, 2) && 2 <= base_y <= 125,
            !found ==> first_end_stone_row(orig, lx as int, 2) == first_end_stone_row(orig, lx as int, y as int),
            !found ==> base_y == 34,
            *chunk == orig,
            orig.wf(),
        decreases 126 - y + (if found { 0int } else { 1 }),
    {
        if chunk.get_block(lx, y as usize) == BlockType::EndStone {
            base_y = y;
            found = true;
        } else {
            y = y + 1;
        }
    }
    assert(base_y == first_end_stone_row(orig, lx as int, 2));
    let a: i32 = if tower_x < 0 {
        -tower_x
    } else {
        tower_x
    };
    let height = 8 + ((idx as i32 * 5 + a) % 5);
    let top_y = if base_y - height > 2 {
        base_y - height
    } else {
        2
    };
    let arch_roof_y = if base_y - 4 > top_y + 1 {
        base_y - 4
    } else {
        top_y + 1
    };
    let ghost base = base_y as int;
    let ghost tx = tower_x as int;
    assert(top_y == end_tower_top(base, idx as int) && arch_roof_y == end_tower_arch(base, idx as int));

    let mut wy = top_y;
    while wy < arch_roof_y
        invariant
            end_changed_within(orig, *chunk, c_start as int, tx - 3, tx + 3),
            forall|y2: int| top_y <= y2 < wy ==> #[trigger] chunk.spec_block_at(lx as int, y2) == BlockType::Obsidian,
            -0x8000_0000 <= c_start <= 0x7fff_ffc0,
            tower_x == tx,
            lx == tx - c_start,
            lx < 32,
            2 <= top_y <= wy <= arch_roof_y,
            arch_roof_y <= 124,
        decreases arch_roof_y - wy,
    {
        if wy > 1 {
            put_cell(chunk, lx, wy as usize, BlockType::Obsidian);
        }
        wy = wy + 1;
    }
    let ghost pillar = *chunk;

    // The arch and the legs under it.
    let mut wx = tower_x - 2;
    while wx <= tower_x + 2
        invariant
            end_changed_within(orig, *chunk, c_start as int, tx - 3, tx + 3),
            forall|y2: int| #[trigger] chunk.spec_block_at(lx as int, y2) == pillar.spec_block_at(lx as int, y2)
                || y2 == arch_roof_y,
            -0x8000_0000 <= c_start <= 0x7fff_ffc0,
            tower_x == tx,
            -30 <= tx <= 30,
            lx == tx - c_start,
            lx < 32,
            tower_x - 2 <= wx <= tower_x + 3,
            2 <= top_y < arch_roof_y <= 124,
        decreases tower_x + 3 - wx,
    {
        if arch_roof_y > 1 {
            set_end_cell(chunk, c_start, wx, arch_roof_y, BlockType::Obsidian);
        }
        wx = wx + 1;
    }
    let ghost arch = *chunk;
    let mut side: usize = 0;
    while side < 2
        invariant
            end_changed_within(orig, *chunk, c_start as int, tx - 3, tx + 3),
            forall|y2: int| #[trigger] chunk.spec_block_at(lx as int, y2) == arch.spec_block_at(lx as int, y2),
            -0x8000_0000 <= c_start <= 0x7fff_ffc0,
            tower_x == tx,
            -30 <= tx <= 30,
            lx == tx - c_start,
            lx < 32,
            side <= 2,
            2 <= top_y < arch_roof_y <= 124,
            2 <= base_y <= 125,
        decreases 2 - side,
    {
        let support_x = if side == 0 {
            tower_x - 2
        } else {
            tower_x + 2
        };
        let mut wy = arch_roof_y + 1;
        while wy <= base_y
            invariant
                end_changed_within(orig, *chunk, c_start as int, tx - 3, tx + 3),
                forall|y2: int| #[trigger] chunk.spec_block_at(lx as int, y2) == arch.spec_block_at(lx as int, y2),
                -0x8000_0000 <= c_start <= 0x7fff_ffc0,
                tower_x == tx,
                -30 <= tx <= 30,
                lx == tx - c_start,
                lx < 32,
                support_x == tx - 2 || support_x == tx + 2,
                arch_roof_y + 1 <= wy,
                wy <= base_y + 1 || wy == arch_roof_y + 1,
                2 <= top_y < arch_roof_y <= 124,
                2 <= base_y <= 125,
            decreases base_y + 1 - wy,
        {
            if wy > 1 {
                set_end_cell(chunk, c_start, support_x, wy, BlockType::Obsidian);
            }
            wy = wy + 1;
        }
        side = side + 1;
    }
    let ghost legs = *chunk;

    // The passage under the arch.
    let mut wx = tower_x - 1;
    while wx <= tower_x + 1
        invariant
            end_changed_within(orig, *chunk, c_start as int, tx - 3, tx + 3),
            forall|y2: int| #[trigger] chunk.spec_block_at(lx as int, y2) == legs.spec_block_at(lx as int, y2)
                || arch_roof_y < y2 < base_y,
            forall|x: int, y2: int|
                in_chunk(x, y2) && tx - 1 <= c_start + x < wx && arch_roof_y < y2 < base_y
                    ==> #[trigger] chunk.spec_block_at(x, y2) == BlockType::Air,
            -0x8000_0000 <= c_start <= 0x7fff_ffc0,
            tower_x == tx,
            -30 <= tx <= 30,
            lx == tx - c_start,
            lx < 32,
            tower_x - 1 <= wx <= tower_x + 2,
            2 <= top_y < arch_roof_y <= 124,
            2 <= base_y <= 125,
        decreases tower_x + 2 - wx,
    {
        let mut passage_y = arch_roof_y + 1;
        while passage_y <= base_y - 1
            invariant
                end_changed_within(orig, *chunk, c_start as int, tx - 3, tx + 3),
                forall|y2: int| #[trigger] chunk.spec_block_at(lx as int, y2) == legs.spec_block_at(lx as int, y2)
                    || arch_roof_y < y2 < base_y,
                forall|x: int, y2: int|
                    in_chunk(x, y2) && tx - 1 <= c_start + x < wx && arch_roof_y < y2 < base_y
                        ==> #[trigger] chunk.spec_block_at(x, y2) == BlockType::Air,
                forall|x: int, y2: int|
                    in_chunk(x, y2) && c_start + x == wx && arch_roof_y < y2 < passage_y
                        ==> #[trigger] chunk.spec_block_at(x, y2) == BlockType::Air,
                -0x8000_0000 <= c_start <= 0x7fff_ffc0,
                tower_x == tx,
                -30 <= tx <= 30,
                lx == tx - c_start,
                lx < 32,
                tower_x - 1 <= wx <= tower_x + 1,
                arch_roof_y + 1 <= passage_y,
                passage_y <= base_y || passage_y == arch_roof_y + 1,
                2 <= top_y < arch_roof_y <= 124,
                2 <= base_y <= 125,
            decreases base_y - passage_y,
        {
            if passage_y > 1 {
                set_end_cell(chunk, c_start, wx, passage_y, BlockType::Air);
            }
            passage_y = passage_y + 1;
        }
        wx = wx + 1;
    }
    let ghost passage = *chunk;

    // End stone footing beside the legs, then the glowstone.
    let mut wx = tower_x - 3;
    while wx <= tower_x + 3
        invariant
            end_changed_within(orig, *chunk, c_start as int, tx - 3, tx + 3),
            forall|x: int, y2: int| #[trigger] chunk.spec_block_at(x, y2) == passage.spec_block_at(x, y2)
                || y2 == base_y && passage.spec_block_at(x, y2) == BlockType::Air,
            -0x8000_0000 <= c_start <= 0x7fff_ffc0,
            tower_x == tx,
            -30 <= tx <= 30,
            tower_x - 3 <= wx <= tower_x + 4,
            2 <= base_y <= 125,
        decreases tower_x + 4 - wx,
    {
        if base_y > 1 && end_cell(chunk, c_start, wx, base_y) == BlockType::Air {
            set_end_cell(chunk, c_start, wx, base_y, BlockType::EndStone);
        }
        wx = wx + 1;
    }
    let ghost footing = *chunk;
    proof {
        assert forall|y2: int| top_y <= y2 < arch_roof_y implies #[trigger] footing.spec_block_at(lx as int, y2)
            == BlockType::Obsidian by {
            assert(pillar.spec_block_at(lx as int, y2) == BlockType::Obsidian);
            assert(arch.spec_block_at(lx as int, y2) == pillar.spec_block_at(lx as int, y2));
            assert(legs.spec_block_at(lx as int, y2) == arch.spec_block_at(lx as int, y2));
            assert(passage.spec_block_at(lx as int, y2) == legs.spec_block_at(lx as int, y2));
        }
    }
    let glow_y = top_y - 1;
    if glow_y > 1 {
        put_cell(chunk, lx, glow_y as usize, BlockType::Glowstone);
    }
    if base_y - 2 > 1 {
        set_end_cell(chunk, c_start, tower_x - 2, base_y - 2, BlockType::Glowstone);
        set_end_cell(chunk, c_start, tower_x + 2, base_y - 2, BlockType::Glowstone);
    }
}

/// Whether world cell (wx, wy) is on the bedrock frame of the End's return
/// portal (world columns -2 to 1, rows 31 to 34), or inside it.
pub open spec fn end_portal_frame(wx: int, wy: int) -> bool {
    wx == -2 || wx == 1 || wy == 31 || wy == 34
}

/// Builds the End's towers and its return portal into the chunk of column
/// `chunk_x`, whose terrain is already in place: each tower stands on the
/// first end stone under row 1 in its column (row 34 where there is
/// none); the return portal is a bedrock frame around end portal blocks
/// with an obsidian dais under it. Only world columns -31 to 31, rows 2 to
/// 125, change.
pub fn build_end_structures(chunk: &mut Chunk, chunk_x: i32)
    requires
        old(chunk).wf(),
        -0x400_0000 <= chunk_x < 0x3ff_ffff,
    ensures
        end_changed_within(*old(chunk), *final(chunk), chunk_x * 32, -31, 31),
        forall|idx: int| 0 <= idx < 4 ==> #[trigger] end_tower_built(*old(chunk), *final(chunk), chunk_x * 32, idx),
        forall|x: int, y: int|
            in_chunk(x, y) && -2 <= chunk_x * 32 + x <= 1 && 31 <= y <= 34 ==> #[trigger] final(chunk).spec_block_at(x, y)
                == if end_portal_frame(chunk_x * 32 + x, y) {
                BlockType::Bedrock
            } else {
                BlockType::EndPortal
            },
        forall|x: int|
            0 <= x < 32 && -5 <= chunk_x * 32 + x <= 4 ==> #[trigger] final(chunk).spec_block_at(x, 35) == if old(
                chunk,
            ).spec_block_at(x, 35) == BlockType::Air {
                BlockType::Obsidian
            } else {
                old(chunk).spec_block_at(x, 35)
            },
{
    let ghost orig = *chunk;
    let c_start = chunk_x * CHUNK_WIDTH as i32;
    assert(-0x8000_0000 <= c_start <= 0x7fff_ffc0) by (nonlinear_arith)
        requires
            c_start == chunk_x * 32,
            -0x400_0000 <= chunk_x < 0x3ff_ffff,
    ;
    let mut idx: usize = 0;
    while idx < END_TOWER_COUNT
        invariant
            -0x8000_0000 <= c_start <= 0x7fff_ffc0,
            c_start == chunk_x * 32,
            idx <= 4,
            end_changed_within(orig, *chunk, c_start as int, -31, 31),
            forall|x: int, y: int|
                (forall|k: int| 0 <= k < idx ==> #[trigger] end_tower_x(k) - 3 > c_start + x || c_start + x > end_tower_x(k) + 3)
                    ==> #[trigger] chunk.spec_block_at(x, y) == orig.spec_block_at(x, y),
            forall|k: int| 0 <= k < idx ==> #[trigger] end_tower_built(orig, *chunk, c_start as int, k),
        decreases 4 - idx,
    {
        let ghost before = *chunk;
        let ghost lx = end_tower_x(idx as int) - c_start;
        proof {
            assert forall|y2: int| #[trigger] before.spec_block_at(lx, y2) == orig.spec_block_at(lx, y2) by {
                assert(forall|k: int| 0 <= k < idx ==> #[trigger] end_tower_x(k) - 3 > c_start + lx || c_start + lx > end_tower_x(k) + 3);
            }
            lemma_first_end_stone_row_same(before, orig, lx, 2);
        }
        build_end_tower(chunk, c_start, idx);
        proof {
            assert forall|k: int| 0 <= k <= idx implies #[trigger] end_tower_built(orig, *chunk, c_start as int, k) by {
                if k < idx {
                    assert(end_tower_built(orig, before, c_start as int, k));
                    assert(end_tower_x(idx as int) - end_tower_x(k) >= 14 || end_tower_x(k) - end_tower_x(idx as int) >= 14);
                }
            }
        }
        idx = idx + 1;
    }
    let ghost towers = *chunk;

    // The return portal.
    let mut wx: i32 = -2;
    while wx <= 1
        invariant
            -0x8000_0000 <= c_start <= 0x7fff_ffc0,
            c_start == chunk_x * 32,
            -2 <= wx <= 2,
            end_changed_within(towers, *chunk, c_start as int, -2, 1),
            forall|x: int, y: int|
                in_chunk(x, y) && -2 <= c_start + x < wx && 31 <= y <= 34 ==> #[trigger] chunk.spec_block_at(x, y)
                    == if end_portal_frame(c_start + x, y) {
                    BlockType::Bedrock
                } else {
                    BlockType::EndPortal
                },
            forall|x: int, y: int| !(-2 <= c_start + x <= 1 && 31 <= y <= 34) ==> #[trigger] chunk.spec_block_at(x, y)
                == towers.spec_block_at(x, y),
        decreases 2 - wx,
    {
        let mut wy: i32 = 31;
        while wy <= 34
            invariant
                -0x8000_0000 <= c_start <= 0x7fff_ffc0,
                c_start == chunk_x * 32,
                -2 <= wx <= 1,
                31 <= wy <= 35,
                end_changed_within(towers, *chunk, c_start as int, -2, 1),
                forall|x: int, y: int|
                    in_chunk(x, y) && (-2 <= c_start + x < wx && 31 <= y <= 34 || c_start + x == wx && 31 <= y < wy)
                        ==> #[trigger] chunk.spec_block_at(x, y) == if end_portal_frame(c_start + x, y) {
                        BlockType::Bedrock
                    } else {
                        BlockType::EndPortal
                    },
                forall|x: int, y: int| !(-2 <= c_start + x <= 1 && 31 <= y <= 34) ==> #[trigger] chunk.spec_block_at(x, y)
                    == towers.spec_block_at(x, y),
            decreases 35 - wy,
        {
            let is_frame = wx == -2 || wx == 1 || wy == 31 || wy == 34;
            set_end_cell(
                chunk,
                c_start,
                wx,
                wy,
                if is_frame {
                    BlockType::Bedrock
                } else {
                    BlockType::EndPortal
                },
            );
            wy = wy + 1;
        }
        wx = wx + 1;
    }
    let ghost portal = *chunk;

    // The dais under the portal.
    let dais_y: i32 = 35;
    let mut wx: i32 = -5;
    while wx <= 4
        invariant
            -0x8000_0000 <= c_start <= 0x7fff_ffc0,
            c_start == chunk_x * 32,
            -5 <= wx <= 5,
            dais_y == 35,
            same_chunk_frame(portal, *chunk),
            forall|x: int, y: int| !(-5 <= c_start + x < wx && y == 35) ==> #[trigger] chunk.spec_block_at(x, y)
                == portal.spec_block_at(x, y),
            forall|x: int|
                0 <= x < 32 && -5 <= c_start + x < wx ==> #[trigger] chunk.spec_block_at(x, 35) == if portal.spec_block_at(
                    x,
                    35,
                ) == BlockType::Air {
                    BlockType::Obsidian
                } else {
                    portal.spec_block_at(x, 35)
                },
        decreases 5 - wx,
    {
        if end_cell(chunk, c_start, wx, dais_y) == BlockType::Air {
            set_end_cell(chunk, c_start, wx, dais_y, BlockType::Obsidian);
        }
        wx = wx + 1;
    }
    proof {
        assert forall|idx: int| 0 <= idx < 4 implies #[trigger] end_tower_built(orig, *chunk, c_start as int, idx) by {
            assert(end_tower_built(orig, towers, c_start as int, idx));
        }
    }
}

} // verus!
