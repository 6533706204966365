use vstd::prelude::*;
use rand::Rng;
use super::block::BlockType;
use super::chunk::{law_activity_means_presence, ActivityKind, Chunk, CHUNK_HEIGHT, CHUNK_WIDTH, cell_count, cell_index, in_chunk, kind_count};
use super::fortress::NetherFortressLayout;
use super::inventory::Inventory;
use super::item::ItemType;
use super::requests::{ChunkRequest, ChunkRequestQueue, requested_column, served_before};
use vstd::multiset::Multiset;
use super::redstone::{
    can_piston_push, input_power_from_to, max_u8, power_from_to, repeater_step, source_power,
    spec_can_piston_push, spec_input_power_from_to, spec_power_from_to, spec_source_power, step_repeater,
    TNT_FUSE_TICKS,
};
use super::rules::{rem_euclid_i32, dry_farmland_revert_due_at, nether_wart_growth_due_at, sapling_growth_due_at,
    spec_dry_farmland_revert_due_at, spec_nether_wart_growth_due_at, spec_sapling_growth_due_at,
    spec_sugar_cane_growth_due_at, sugar_cane_growth_due_at, 
    BiomeType, ChunkLoadMetrics, Dimension, nether_wart_drop_count_at, spec_nether_wart_drop_count_at,
    spec_tall_grass_drops_seed_at, tall_grass_drops_seed_at, bone_meal_flora_block_at,
    spec_bone_meal_flora_block_at,
};
use vstd::arithmetic::div_mod::{lemma_div_multiples_vanish_fancy, lemma_mod_multiples_vanish, lemma_small_mod};

verus! {

/// Whether (x, y) is a grass cell open to the air above, on a row where
/// bone meal can grow something over it.
pub open spec fn grass_top_in(f: spec_fn(int, int) -> BlockType, x: int, y: int) -> bool {
    1 <= y <= 126 && f(x, y) == BlockType::Grass && f(x, y - 1) == BlockType::Air
}

/// The open grass surface of column `x` nearest to row `c`, within two
/// rows of it; of two as near, the upper one.
pub open spec fn grass_surface_near_in(f: spec_fn(int, int) -> BlockType, x: int, c: int) -> Option<int> {
    if grass_top_in(f, x, c) {
        Some(c)
    } else if grass_top_in(f, x, c - 1) {
        Some(c - 1)
    } else if grass_top_in(f, x, c + 1) {
        Some(c + 1)
    } else if grass_top_in(f, x, c - 2) {
        Some(c - 2)
    } else if grass_top_in(f, x, c + 2) {
        Some(c + 2)
    } else {
        None
    }
}

/// Whether bone meal used on grass at (cx, cy) places its growth over the
/// surface found at row `gy` of column `cx + dx`: always in the middle
/// column, elsewhere by a fixed pattern in two cells of three.
pub open spec fn flora_placed(cx: i32, cy: i32, dx: int, gy: int) -> bool {
    dx == 0 || ((cx.wrapping_mul(29) ^ cy.wrapping_mul(31) ^ ((cx + dx) as i32).wrapping_mul(17) ^ (
    gy as i32).wrapping_mul(13)) as int % 3) != 0
}

/// The growth bone meal used on grass at (cx, cy) could put in column
/// `cx + dx`: the cell over the nearest open surface, what grows there, and
/// whether it is placed.
pub open spec fn flora_candidate_in(f: spec_fn(int, int) -> BlockType, cx: i32, cy: i32, dx: int) -> Option<
    (i32, i32, BlockType, bool),
> {
    match grass_surface_near_in(f, cx + dx, cy as int) {
        None => None,
        Some(gy) => Some(
            (
                (cx + dx) as i32,
                (gy - 1) as i32,
                spec_bone_meal_flora_block_at((cx + dx) as i32, (gy - 1) as i32),
                flora_placed(cx, cy, dx, gy),
            ),
        ),
    }
}

/// The placed candidates of the first `n` columns from `cx - 3` on.
pub open spec fn flora_chosen_in(f: spec_fn(int, int) -> BlockType, cx: i32, cy: i32, n: nat) -> Seq<
    (i32, i32, BlockType),
>
    decreases n,
{
    if n == 0 {
        Seq::empty()
    } else {
        let prev = flora_chosen_in(f, cx, cy, (n - 1) as nat);
        match flora_candidate_in(f, cx, cy, n - 4) {
            Some(c) => if c.3 {
                prev.push((c.0, c.1, c.2))
            } else {
                prev
            },
            None => prev,
        }
    }
}

/// The first candidate not placed among the first `n` columns from
/// `cx - 3` on.
pub open spec fn flora_fallback_in(f: spec_fn(int, int) -> BlockType, cx: i32, cy: i32, n: nat) -> Option<
    (i32, i32, BlockType),
>
    decreases n,
{
    if n == 0 {
        None
    } else {
        let prev = flora_fallback_in(f, cx, cy, (n - 1) as nat);
        if prev is Some {
            prev
        } else {
            match flora_candidate_in(f, cx, cy, n - 4) {
                Some(c) => if !c.3 {
                    Some((c.0, c.1, c.2))
                } else {
                    None
                },
                None => None,
            }
        }
    }
}

/// What bone meal used on grass at (cx, cy) places, in order: the placed
/// candidates of the seven columns around it, or, when there are none, the
/// first candidate that was passed over.
pub open spec fn bone_meal_flora_in(f: spec_fn(int, int) -> BlockType, cx: i32, cy: i32) -> Seq<
    (i32, i32, BlockType),
> {
    let chosen = flora_chosen_in(f, cx, cy, 7);
    if chosen.len() > 0 {
        chosen
    } else {
        match flora_fallback_in(f, cx, cy, 7) {
            Some(c) => seq![c],
            None => Seq::empty(),
        }
    }
}

/// Whether bone meal used at (x, y) does anything, and where it grows flora
/// over grass when it does that: ripening young crops, growing a sapling
/// that has room, or growing flora around grass (under the cell for grass
/// plants and flowers).
pub open spec fn bone_meal_grass_center_in(f: spec_fn(int, int) -> BlockType, x: int, y: int) -> Option<int> {
    let b = f(x, y);
    if b == BlockType::Grass {
        Some(y)
    } else if (b == BlockType::TallGrass || b == BlockType::RedFlower || b == BlockType::YellowFlower) && f(x, y + 1)
        == BlockType::Grass {
        Some(y + 1)
    } else {
        None
    }
}

/// The chunk column holding world column `wx` (floor division).
pub open spec fn chunk_col(wx: int) -> int {
    wx / 32
}

/// The column of world column `wx` inside its chunk.
pub open spec fn col_in_chunk(wx: int) -> int {
    wx % 32
}

/// The columns of the chunks of `s`, in order.
pub open spec fn chunk_columns(s: Seq<Chunk>) -> Seq<i32> {
    s.map_values(|c: Chunk| c.view_x())
}

/// Whether some chunk of `s` covers chunk column `cx`.
pub open spec fn seq_has(s: Seq<Chunk>, cx: int) -> bool {
    exists|i: int| 0 <= i < s.len() && #[trigger] s[i].view_x() == cx
}

/// The position in `s` of the chunk covering chunk column `cx`.
pub open spec fn seq_slot(s: Seq<Chunk>, cx: int) -> int {
    choose|i: int| 0 <= i < s.len() && #[trigger] s[i].view_x() == cx
}

/// Chunk columns whose cells have world columns far from the ends of `i32`,
/// so that a few cells around any of them can be addressed.
pub open spec fn valid_chunk_col(cx: int) -> bool {
    -0x200_0000 <= cx < 0x200_0000
}

/// Every chunk of `s` is well formed, covers a valid column, and no two
/// cover the same column.
pub open spec fn chunks_wf(s: Seq<Chunk>) -> bool {
    &&& forall|i: int| 0 <= i < s.len() ==> #[trigger] s[i].wf() && valid_chunk_col(s[i].view_x() as int)
    &&& forall|i: int, j: int|
        0 <= i < s.len() && 0 <= j < s.len() && i != j ==> #[trigger] s[i].view_x() != #[trigger] s[j].view_x()
}

/// A chunk of a well-formed sequence is the one found for its column.
pub proof fn lemma_seq_slot(s: Seq<Chunk>, i: int)
    requires
        chunks_wf(s),
        0 <= i < s.len(),
    ensures
        seq_has(s, s[i].view_x() as int),
        seq_slot(s, s[i].view_x() as int) == i,
{
    let j = seq_slot(s, s[i].view_x() as int);
    assert(0 <= j < s.len() && s[j].view_x() == s[i].view_x());
}

/// Replacing a chunk by one for the same column keeps the sequence well
/// formed and every column where it was.
pub proof fn lemma_chunk_replaced(s: Seq<Chunk>, i: int, c: Chunk)
    requires
        chunks_wf(s),
        0 <= i < s.len(),
        c.wf(),
        c.view_x() == s[i].view_x(),
    ensures
        chunks_wf(s.update(i, c)),
        chunk_columns(s.update(i, c)) == chunk_columns(s),
        forall|cx: int| #[trigger] seq_has(s.update(i, c), cx) == seq_has(s, cx),
        forall|cx: int| seq_has(s, cx) ==> #[trigger] seq_slot(s.update(i, c), cx) == seq_slot(s, cx),
{
    let t = s.update(i, c);
    assert(chunk_columns(t) =~= chunk_columns(s));
    assert forall|k: int| 0 <= k < t.len() implies #[trigger] t[k].wf() && valid_chunk_col(t[k].view_x() as int) by {
        if k != i {
            assert(t[k] == s[k]);
        } else {
            assert(s[i].wf());
            assert(valid_chunk_col(s[i].view_x() as int));
        }
    }
    assert forall|cx: int| #[trigger] seq_has(t, cx) == seq_has(s, cx) by {
        if seq_has(s, cx) {
            let k = choose|k: int| 0 <= k < s.len() && #[trigger] s[k].view_x() == cx;
            assert(t[k].view_x() == cx);
        }
        if seq_has(t, cx) {
            let k = choose|k: int| 0 <= k < t.len() && #[trigger] t[k].view_x() == cx;
            assert(s[k].view_x() == cx);
        }
    }
    assert forall|cx: int| seq_has(s, cx) implies #[trigger] seq_slot(t, cx) == seq_slot(s, cx) by {
        let k = seq_slot(s, cx);
        lemma_seq_slot(s, k);
        lemma_seq_slot(t, k);
    }
}

/// Adding a chunk for a column not yet covered keeps the sequence well
/// formed; the new column is found at the end, the others where they were.
pub proof fn lemma_chunk_pushed(s: Seq<Chunk>, c: Chunk)
    requires
        chunks_wf(s),
        c.wf(),
        valid_chunk_col(c.view_x() as int),
        !seq_has(s, c.view_x() as int),
    ensures
        chunks_wf(s.push(c)),
        forall|cx: int| #[trigger] seq_has(s.push(c), cx) == (seq_has(s, cx) || cx == c.view_x()),
        forall|cx: int| seq_has(s, cx) ==> #[trigger] seq_slot(s.push(c), cx) == seq_slot(s, cx),
        seq_slot(s.push(c), c.view_x() as int) == s.len(),
{
    let t = s.push(c);
    assert forall|k: int| 0 <= k < t.len() implies #[trigger] t[k].wf() && valid_chunk_col(t[k].view_x() as int) by {
        if k < s.len() {
            assert(t[k] == s[k]);
            assert(s[k].wf());
            assert(valid_chunk_col(s[k].view_x() as int));
        } else {
            assert(t[k] == c);
        }
    }
    assert forall|i: int, j: int|
        0 <= i < t.len() && 0 <= j < t.len() && i != j implies #[trigger] t[i].view_x() != #[trigger] t[j].view_x() by {
        if i == s.len() as int {
            assert(s[j].view_x() == t[j].view_x());
        } else if j == s.len() as int {
            assert(s[i].view_x() == t[i].view_x());
        }
    }
    assert forall|cx: int| #[trigger] seq_has(t, cx) == (seq_has(s, cx) || cx == c.view_x()) by {
        if seq_has(s, cx) {
            let k = choose|k: int| 0 <= k < s.len() && #[trigger] s[k].view_x() == cx;
            assert(t[k].view_x() == cx);
        }
        if cx == c.view_x() {
            assert(t[s.len() as int].view_x() == cx);
        }
        if seq_has(t, cx) && cx != c.view_x() {
            let k = choose|k: int| 0 <= k < t.len() && #[trigger] t[k].view_x() == cx;
            assert(s[k].view_x() == cx);
        }
    }
    assert forall|cx: int| seq_has(s, cx) implies #[trigger] seq_slot(t, cx) == seq_slot(s, cx) by {
        let k = seq_slot(s, cx);
        lemma_seq_slot(s, k);
        lemma_seq_slot(t, k);
    }
    lemma_seq_slot(t, s.len() as int);
}

/// The block at world column `wx`, row `wy` of the chunks `s`: air above
/// or below the world and where no chunk covers the column.
pub open spec fn seq_block_at(s: Seq<Chunk>, wx: int, wy: int) -> BlockType {
    if 0 <= wy < 128 && seq_has(s, chunk_col(wx)) {
        s[seq_slot(s, chunk_col(wx))].view_blocks()[cell_index(col_in_chunk(wx), wy)]
    } else {
        BlockType::Air
    }
}

/// The chest inventory kept at world column `wx`, row `wy` of the chunks `s`.
pub open spec fn seq_chest_at(s: Seq<Chunk>, wx: int, wy: int) -> Option<Inventory> {
    if 0 <= wy < 128 && seq_has(s, chunk_col(wx)) {
        s[seq_slot(s, chunk_col(wx))].view_chests()[cell_index(col_in_chunk(wx), wy)]
    } else {
        None
    }
}

/// Replacing the chunk at position `i` by one for the same column changes
/// the world's cells exactly where the two chunks differ.
pub proof fn lemma_seq_replace(s: Seq<Chunk>, i: int, c: Chunk)
    requires
        chunks_wf(s),
        0 <= i < s.len(),
        c.wf(),
        c.view_x() == s[i].view_x(),
    ensures
        chunks_wf(s.update(i, c)),
        chunk_columns(s.update(i, c)) == chunk_columns(s),
        forall|cx: int| #[trigger] seq_has(s.update(i, c), cx) == seq_has(s, cx),
        forall|x: int, y: int| #[trigger] seq_block_at(s.update(i, c), x, y) == if 0 <= y < 128 && chunk_col(x)
            == c.view_x() {
            c.view_blocks()[cell_index(col_in_chunk(x), y)]
        } else {
            seq_block_at(s, x, y)
        },
        forall|x: int, y: int| #[trigger] seq_chest_at(s.update(i, c), x, y) == if 0 <= y < 128 && chunk_col(x)
            == c.view_x() {
            c.view_chests()[cell_index(col_in_chunk(x), y)]
        } else {
            seq_chest_at(s, x, y)
        },
{
    let t = s.update(i, c);
    lemma_chunk_replaced(s, i, c);
    lemma_seq_slot(s, i);
    lemma_seq_slot(t, i);
    assert forall|x: int, y: int| #[trigger] seq_block_at(t, x, y) == if 0 <= y < 128 && chunk_col(x)
        == c.view_x() {
        c.view_blocks()[cell_index(col_in_chunk(x), y)]
    } else {
        seq_block_at(s, x, y)
    } by {
        if 0 <= y < 128 && seq_has(s, chunk_col(x)) {
            let k = seq_slot(s, chunk_col(x));
            assert(seq_slot(t, chunk_col(x)) == k);
            assert(0 <= k < s.len() && s[k].view_x() == chunk_col(x));
            if k != i {
                assert(t[k] == s[k]);
            }
        }
    }
    assert forall|x: int, y: int| #[trigger] seq_chest_at(t, x, y) == if 0 <= y < 128 && chunk_col(x)
        == c.view_x() {
        c.view_chests()[cell_index(col_in_chunk(x), y)]
    } else {
        seq_chest_at(s, x, y)
    } by {
        if 0 <= y < 128 && seq_has(s, chunk_col(x)) {
            let k = seq_slot(s, chunk_col(x));
            assert(seq_slot(t, chunk_col(x)) == k);
            assert(0 <= k < s.len() && s[k].view_x() == chunk_col(x));
            if k != i {
                assert(t[k] == s[k]);
            }
        }
    }
}

/// Replacing a chunk by one that differs at most in the chest kept at
/// (wx, wy) changes the world's chests at that cell only.
pub proof fn lemma_seq_replace_chest(s: Seq<Chunk>, i: int, c: Chunk, wx: int, wy: int, v: Option<Inventory>)
    requires
        chunks_wf(s),
        0 <= i < s.len(),
        c.wf(),
        c.view_x() == s[i].view_x(),
        chunk_col(wx) == s[i].view_x(),
        0 <= wy < 128,
        c.view_blocks() == s[i].view_blocks(),
        c.view_chests() == s[i].view_chests().update(cell_index(col_in_chunk(wx), wy), v),
    ensures
        chunks_wf(s.update(i, c)),
        chunk_columns(s.update(i, c)) == chunk_columns(s),
        forall|cx: int| #[trigger] seq_has(s.update(i, c), cx) == seq_has(s, cx),
        forall|x: int, y: int| #[trigger] seq_block_at(s.update(i, c), x, y) == seq_block_at(s, x, y),
        forall|x: int, y: int| #[trigger] seq_chest_at(s.update(i, c), x, y) == if x == wx && y == wy {
            v
        } else {
            seq_chest_at(s, x, y)
        },
{
    lemma_seq_replace(s, i, c);
    lemma_seq_slot(s, i);
    s[i].lemma_wf_views();
    assert forall|x: int, y: int| #[trigger] seq_chest_at(s.update(i, c), x, y) == if x == wx && y == wy {
        v
    } else {
        seq_chest_at(s, x, y)
    } by {
        if 0 <= y < 128 && chunk_col(x) == c.view_x() {
            lemma_cell_of_column(x, wx, y, wy);
        }
    }
}

/// How the world's cells follow a chunk replaced by one that differs at
/// most in the chest kept at (wx, wy), for every such chunk.
pub proof fn lemma_chest_edits(s0: Seq<Chunk>, i: int, wx: int, wy: int)
    requires
        chunks_wf(s0),
        0 <= i < s0.len(),
        chunk_col(wx) == s0[i].view_x(),
        0 <= wy < 128,
    ensures
        forall|c: Chunk, v: Option<Inventory>|
            #![trigger s0.update(i, c), s0[i].view_chests().update(cell_index(col_in_chunk(wx), wy), v)]
            c.wf() && c.view_x() == s0[i].view_x() && c.view_blocks() == s0[i].view_blocks()
                && c.view_chests() == s0[i].view_chests().update(cell_index(col_in_chunk(wx), wy), v) ==> {
                &&& chunks_wf(s0.update(i, c))
                &&& chunk_columns(s0.update(i, c)) == chunk_columns(s0)
                &&& forall|cx: int| #[trigger] seq_has(s0.update(i, c), cx) == seq_has(s0, cx)
                &&& forall|x: int, y: int| #[trigger] seq_block_at(s0.update(i, c), x, y) == seq_block_at(s0, x, y)
                &&& forall|x: int, y: int| #[trigger] seq_chest_at(s0.update(i, c), x, y) == if x == wx && y == wy {
                    v
                } else {
                    seq_chest_at(s0, x, y)
                }
            },
        forall|c: Chunk| #![trigger s0.update(i, c)]
            c.wf() && c.view_x() == s0[i].view_x() && c.view_blocks() == s0[i].view_blocks()
                && c.view_chests() == s0[i].view_chests() ==> {
                &&& chunks_wf(s0.update(i, c))
                &&& chunk_columns(s0.update(i, c)) == chunk_columns(s0)
                &&& forall|cx: int| #[trigger] seq_has(s0.update(i, c), cx) == seq_has(s0, cx)
                &&& forall|x: int, y: int| #[trigger] seq_block_at(s0.update(i, c), x, y) == seq_block_at(s0, x, y)
                &&& forall|x: int, y: int| #[trigger] seq_chest_at(s0.update(i, c), x, y) == seq_chest_at(s0, x, y)
            },
{
    let idx = cell_index(col_in_chunk(wx), wy);
    s0[i].lemma_wf_views();
    assert forall|c: Chunk, v: Option<Inventory>|
        #![trigger s0.update(i, c), s0[i].view_chests().update(idx, v)]
        c.wf() && c.view_x() == s0[i].view_x() && c.view_blocks() == s0[i].view_blocks()
            && c.view_chests() == s0[i].view_chests().update(idx, v) implies {
            &&& chunks_wf(s0.update(i, c))
            &&& chunk_columns(s0.update(i, c)) == chunk_columns(s0)
            &&& forall|cx: int| #[trigger] seq_has(s0.update(i, c), cx) == seq_has(s0, cx)
            &&& forall|x: int, y: int| #[trigger] seq_block_at(s0.update(i, c), x, y) == seq_block_at(s0, x, y)
            &&& forall|x: int, y: int| #[trigger] seq_chest_at(s0.update(i, c), x, y) == if x == wx && y == wy {
                v
            } else {
                seq_chest_at(s0, x, y)
            }
        } by {
        lemma_seq_replace_chest(s0, i, c, wx, wy, v);
    }
    assert forall|c: Chunk| #![trigger s0.update(i, c)]
        c.wf() && c.view_x() == s0[i].view_x() && c.view_blocks() == s0[i].view_blocks()
            && c.view_chests() == s0[i].view_chests() implies {
            &&& chunks_wf(s0.update(i, c))
            &&& chunk_columns(s0.update(i, c)) == chunk_columns(s0)
            &&& forall|cx: int| #[trigger] seq_has(s0.update(i, c), cx) == seq_has(s0, cx)
            &&& forall|x: int, y: int| #[trigger] seq_block_at(s0.update(i, c), x, y) == seq_block_at(s0, x, y)
            &&& forall|x: int, y: int| #[trigger] seq_chest_at(s0.update(i, c), x, y) == seq_chest_at(s0, x, y)
        } by {
        assert(s0[i].view_chests().update(idx, s0[i].view_chests()[idx]) =~= s0[i].view_chests());
        lemma_seq_replace_chest(s0, i, c, wx, wy, s0[i].view_chests()[idx]);
    }
}

/// Two columns of the same chunk at the same row share a cell only when
/// they are the same column.
pub proof fn lemma_cell_of_column(x: int, wx: int, y: int, wy: int)
    requires
        chunk_col(x) == chunk_col(wx),
        0 <= y < 128,
        0 <= wy < 128,
    ensures
        (cell_index(col_in_chunk(x), y) == cell_index(col_in_chunk(wx), wy)) == (x == wx && y == wy),
        0 <= cell_index(col_in_chunk(x), y) < 4096,
{
    assert(x == 32 * chunk_col(x) + col_in_chunk(x));
    assert(wx == 32 * chunk_col(wx) + col_in_chunk(wx));
}

/// The chunk column and the column inside it of world column `wx`.
pub fn split_world_x(wx: i32) -> (r: (i32, usize))
    ensures
        r.0 as int == chunk_col(wx as int),
        r.1 as int == col_in_chunk(wx as int),
        r.1 < 32,
{
    let shifted: u64 = (wx as i64 + 0x8000_0000i64 * 32) as u64;
    proof {
        let q = wx as int / 32;
        let rr = wx as int % 32;
        assert(wx as int == 32 * q + rr);
        assert(shifted as int == 32 * (0x8000_0000 + q) + rr);
        lemma_div_multiples_vanish_fancy(0x8000_0000 + q, rr, 32);
        lemma_mod_multiples_vanish(0x8000_0000 + q, rr, 32);
    }
    let q: u64 = shifted / 32;
    let r: u64 = shifted % 32;
    ((q as i64 - 0x8000_0000i64) as i32, r as usize)
}

/// The loaded part of a world: chunks by column, with the climate of each of
/// their columns, the simulation clock, and what the last ticks produced.
pub struct World {
    chunks: Vec<Chunk>,
    biomes: Vec<Vec<BiomeType>>,
    pub newly_generated_chunks: Vec<i32>,
    pub dimension: Dimension,
    save_key: String,
    tick_counter: u64,
    pending_chunks: Vec<i32>,
    queued_chunks: Vec<i32>,
    in_flight_chunks: Vec<i32>,
    chunk_request_queue: ChunkRequestQueue,
    chunk_request_seq: u64,
    pub chunk_metrics: ChunkLoadMetrics,
    pub recent_explosions: Vec<(i32, i32, i32)>,
    pub recent_explosion_block_losses: Vec<(i32, i32, BlockType, bool)>,
    pub recent_environment_drops: Vec<(i32, i32, ItemType)>,
    active_fluid_chunks: Vec<i32>,
}

impl World {
    /// The chunks are well formed, one per column, each with the climate of
    /// its 32 columns; the chunk-column sets hold no column twice.
    pub closed spec fn wf(&self) -> bool {
        &&& chunks_wf(self.chunks@)
        &&& self.biomes@.len() == self.chunks@.len()
        &&& forall|i: int| 0 <= i < self.biomes@.len() ==> #[trigger] self.biomes@[i]@.len() == 32
        &&& self.active_fluid_chunks@.no_duplicates()
        &&& self.pending_chunks@.no_duplicates()
        &&& self.queued_chunks@.no_duplicates()
        &&& self.in_flight_chunks@.no_duplicates()
    }

    /// Whether chunk column `cx` is loaded.
    pub closed spec fn is_loaded(&self, cx: int) -> bool {
        seq_has(self.chunks@, cx)
    }

    /// The loaded chunk of column `cx`.
    pub closed spec fn chunk_at(&self, cx: int) -> Chunk {
        self.chunks@[seq_slot(self.chunks@, cx)]
    }

    /// The climate of world column `wx`, where its chunk is loaded.
    pub closed spec fn biome_at(&self, wx: int) -> BiomeType {
        if self.is_loaded(chunk_col(wx)) {
            self.biomes@[seq_slot(self.chunks@, chunk_col(wx))]@[col_in_chunk(wx)]
        } else {
            BiomeType::Plains
        }
    }

    /// The dimension the world belongs to.
    pub closed spec fn view_dimension(&self) -> Dimension {
        self.dimension
    }

    /// Items set loose by blocks that lost their support or were cleared by
    /// the environment, oldest first.
    pub closed spec fn environment_drops(&self) -> Seq<(i32, i32, ItemType)> {
        self.recent_environment_drops@
    }

    /// Explosions of the current tick: centre and radius.
    pub closed spec fn explosions(&self) -> Seq<(i32, i32, i32)> {
        self.recent_explosions@
    }

    /// Blocks destroyed by explosions of the current tick, and whether each
    /// dropped as an item.
    pub closed spec fn explosion_losses(&self) -> Seq<(i32, i32, BlockType, bool)> {
        self.recent_explosion_block_losses@
    }

    /// Chunk columns generated (not read from disk) by the last load pass.
    pub closed spec fn generated_columns(&self) -> Seq<i32> {
        self.newly_generated_chunks@
    }

    /// The number of ticks run so far.
    pub closed spec fn spec_tick(&self) -> u64 {
        self.tick_counter
    }

    /// The save slot of the world.
    pub closed spec fn spec_save_key(&self) -> Seq<char> {
        self.save_key@
    }

    /// Chunk columns whose fluids the next fluid pass looks at.
    pub closed spec fn fluid_frontier(&self) -> Set<i32> {
        self.active_fluid_chunks@.to_set()
    }

    /// The block at world column `wx`, row `wy`: air above or below the world
    /// and where no chunk is loaded.
    pub open spec fn block_at(&self, wx: int, wy: int) -> BlockType {
        seq_block_at(self.view_chunks(), wx, wy)
    }

    /// The loaded chunks.
    pub closed spec fn view_chunks(&self) -> Seq<Chunk> {
        self.chunks@
    }

    /// The climate of each world column, where its chunk is loaded.
    pub open spec fn biome_fn(&self) -> spec_fn(int) -> BiomeType {
        |x: int| self.biome_at(x)
    }

    /// Chunk columns requested and not yet brought in.
    pub closed spec fn pending_set(&self) -> Set<i32> {
        self.pending_chunks@.to_set()
    }

    /// Chunk columns whose request still waits in the queue.
    pub closed spec fn queued_set(&self) -> Set<i32> {
        self.queued_chunks@.to_set()
    }

    /// Chunk columns handed to the background workers.
    pub closed spec fn in_flight_set(&self) -> Set<i32> {
        self.in_flight_chunks@.to_set()
    }

    /// The queued chunk requests.
    pub closed spec fn request_queue(&self) -> Multiset<ChunkRequest> {
        self.chunk_request_queue@
    }

    /// The sequence number the next request gets.
    pub closed spec fn request_seq(&self) -> u64 {
        self.chunk_request_seq
    }

    /// The chunk columns in the order the simulation visits them.
    pub closed spec fn chunk_order(&self) -> Seq<i32> {
        chunk_columns(self.chunks@)
    }

    /// Whether the next fluid pass around `center` works on chunk column
    /// `c`: within two of `center`, loaded and holding water or lava.
    pub open spec fn fluid_scheduled(&self, center: int, c: int) -> bool {
        -2 <= c - center <= 2 && self.is_loaded(c) && self.chunk_at(c).has_kind(ActivityKind::Fluid)
    }

    /// Whether a fluid pass around `center` keeps chunk column `c` on the
    /// frontier as it is: farther than two from `center`, loaded and holding
    /// water or lava.
    pub open spec fn fluid_kept(&self, center: int, c: int) -> bool {
        !(-2 <= c - center <= 2) && self.is_loaded(c) && self.chunk_at(c).has_kind(ActivityKind::Fluid)
    }

    /// `fluid_scheduled` as a predicate.
    pub open spec fn scheduled_pred(&self, center: int) -> spec_fn(i32) -> bool {
        |c: i32| self.fluid_scheduled(center, c as int)
    }

    /// `fluid_kept` as a predicate.
    pub open spec fn kept_pred(&self, center: int) -> spec_fn(i32) -> bool {
        |c: i32| self.fluid_kept(center, c as int)
    }

    /// The chunk columns the next fluid pass around `center` works on, in
    /// frontier order.
    pub closed spec fn fluid_schedule(&self, center: int) -> Seq<i32> {
        self.active_fluid_chunks@.filter(self.scheduled_pred(center))
    }

    /// One redstone tick around `center` turns this world into `after`.
    pub open spec fn redstone_step(&self, after: &World, center: int) -> bool {
        &&& after.wf()
        &&& after.same_columns(self)
        &&& after.same_setting(self)
        &&& ({
                    let f0 = self.blocks_fn();
                    let l = self.loaded_fn();
                    let order = self.chunk_order();
                    let a = scan_in(f0, order, center, CellRule::RedstoneTrigger);
                    let f1 = after_sets_in(f0, l, a);
                    let b = scan_in(f1, order, center, CellRule::RedstoneDust);
                    &&& after.blocks_fn() == after_sets_in(f1, l, b)
                    &&& after.environment_drops() == self.environment_drops() + drops_after_sets_in(f0, l, a)
                        + drops_after_sets_in(f1, l, b)
        })
        &&& self.fluid_frontier().subset_of(after.fluid_frontier())
    }

    /// The redstone outputs around `center` turn this world into `after`, leaving `detonations`.
    pub open spec fn outputs_step(&self, after: &World, center: int, detonations: Seq<(i32, i32, BlockType)>) -> bool {
        &&& after.wf()
        &&& after.same_columns(self)
        &&& after.same_setting(self)
        &&& ({
                    let f0 = self.blocks_fn();
                    let l = self.loaded_fn();
                    let order = self.chunk_order();
                    let st = scan_in(f0, order, center, CellRule::OutputState);
                    let mv = scan_in(f0, order, center, CellRule::OutputMoves);
                    &&& detonations == scan_in(f0, order, center, CellRule::Detonation)
                    &&& after.blocks_fn() == after_sets_in(after_sets_in(f0, l, st), l, mv)
                    &&& after.environment_drops() == self.environment_drops() + drops_after_sets_in(f0, l, st)
                        + drops_after_sets_in(after_sets_in(f0, l, st), l, mv)
        })
        &&& self.fluid_frontier().subset_of(after.fluid_frontier())
    }

    /// The falling pass around `center` turns this world into `after`.
    pub open spec fn falling_step(&self, after: &World, center: int) -> bool {
        &&& after.wf()
        &&& after.same_columns(self)
        &&& after.same_setting(self)
        &&& after.blocks_fn() == after_falls_in(
                    self.blocks_fn(),
                    self.loaded_fn(),
                    scan_in(self.blocks_fn(), self.chunk_order(), center, CellRule::Fall)
        )
        &&& after.environment_drops() == self.environment_drops() + drops_after_falls_in(
                    self.blocks_fn(),
                    self.loaded_fn(),
                    scan_in(self.blocks_fn(), self.chunk_order(), center, CellRule::Fall)
        )
        &&& self.fluid_frontier().subset_of(after.fluid_frontier())
    }

    /// The leaf decay pass around `center` turns this world into `after`.
    pub open spec fn leaf_step(&self, after: &World, center: int) -> bool {
        &&& after.wf()
        &&& after.same_columns(self)
        &&& after.same_setting(self)
        &&& ({
                    let leaves = scan_in(
                        self.blocks_fn(),
                        self.chunk_order(),
                        center,
                        CellRule::LeafDecay(self.spec_phase()),
                    );
                    &&& after.blocks_fn() == after_sets_in(self.blocks_fn(), self.loaded_fn(), cleared(leaves))
                    &&& after.environment_drops() == self.environment_drops() + drops_after_decay_in(
                        self.blocks_fn(),
                        self.loaded_fn(),
                        leaves,
                        self.spec_phase(),
                    )
        })
        &&& self.fluid_frontier().subset_of(after.fluid_frontier())
    }

    /// The grass pass around `center` turns this world into `after`.
    pub open spec fn grass_step(&self, after: &World, center: int) -> bool {
        &&& after.wf()
        &&& after.same_columns(self)
        &&& after.same_setting(self)
        &&& ({
                    let ch = scan_in(
                        self.blocks_fn(),
                        self.chunk_order(),
                        center,
                        CellRule::GrassSpread(self.spec_phase()),
                    );
                    &&& after.blocks_fn() == after_sets_in(self.blocks_fn(), self.loaded_fn(), ch)
                    &&& after.environment_drops() == self.environment_drops() + drops_after_sets_in(
                        self.blocks_fn(),
                        self.loaded_fn(),
                        ch,
                    )
        })
        &&& self.fluid_frontier().subset_of(after.fluid_frontier())
    }

    /// The fluid pass around `center` turns this world into `after`.
    pub open spec fn fluid_step(&self, after: &World, center: int) -> bool {
        &&& after.wf()
        &&& after.same_columns(self)
        &&& after.same_setting(self)
        &&& ({
                    let f0 = self.blocks_fn();
                    let l = self.loaded_fn();
                    let sched = self.fluid_schedule(center);
                    let nether = self.view_dimension() == Dimension::Nether;
                    let pl = nether || self.spec_tick() % 30 == 0;
                    let props = fluid_props_upto(f0, sched, pl, nether, (sched.len() * 4096) as int);
                    let next = alist_changes(merge_all(Seq::empty(), props));
                    let kept = self.fluid_frontier().filter(self.kept_pred(center));
                    &&& sched.len() == 0 ==> after.blocks_fn() == f0 && after.environment_drops()
                        == self.environment_drops() && after.fluid_frontier() == kept
                    &&& sched.len() > 0 ==> after.blocks_fn() == after_sets_in(f0, l, next)
                        && after.environment_drops() == self.environment_drops() + drops_after_sets_in(
                        f0,
                        l,
                        next,
                    ) && after.fluid_frontier() == kept.union(woken_all(Seq::empty(), props))
        })
    }

    /// The farming pass around `center` turns this world into `after`.
    pub open spec fn farming_step(&self, after: &World, center: int) -> bool {
        &&& after.wf()
        &&& after.same_columns(self)
        &&& after.same_setting(self)
        &&& exists|draws: Seq<bool>|
                    #![trigger farm_upto(self.blocks_fn(), self.biome_fn(), self.chunk_order(), center, self.spec_phase(), draws, (self.chunk_order().len() * 4096) as int)]
            {
                    let f0 = self.blocks_fn();
                    let l = self.loaded_fn();
                    let bio = self.biome_fn();
                    let r = farm_upto(
                        f0,
                        bio,
                        self.chunk_order(),
                        center,
                        self.spec_phase(),
                        draws,
                        (self.chunk_order().len() * 4096) as int,
                    );
                    let f1 = after_sets_in(f0, l, r.0);
                    &&& after.blocks_fn() == after_grows_in(f1, l, bio, r.2)
                    &&& after.environment_drops() == self.environment_drops() + r.1 + drops_after_sets_in(
                        f0,
                        l,
                        r.0,
                    ) + drops_after_grows_in(f1, l, bio, r.2)
        }
        &&& self.fluid_frontier().subset_of(after.fluid_frontier())
    }

    /// `after` is this world one tick later, before any pass: the tick
    /// counter advanced (wrapping) and the explosion records of the last
    /// tick cleared, nothing else changed.
    pub closed spec fn ticked(&self, after: &World) -> bool {
        &&& after.tick_counter == self.tick_counter.wrapping_add(1)
        &&& after.recent_explosions@ == Seq::<(i32, i32, i32)>::empty()
        &&& after.recent_explosion_block_losses@ == Seq::<(i32, i32, BlockType, bool)>::empty()
        &&& after.chunks == self.chunks
        &&& after.biomes == self.biomes
        &&& after.newly_generated_chunks == self.newly_generated_chunks
        &&& after.dimension == self.dimension
        &&& after.save_key == self.save_key
        &&& after.pending_chunks == self.pending_chunks
        &&& after.queued_chunks == self.queued_chunks
        &&& after.in_flight_chunks == self.in_flight_chunks
        &&& after.chunk_request_queue == self.chunk_request_queue
        &&& after.chunk_request_seq == self.chunk_request_seq
        &&& after.chunk_metrics == self.chunk_metrics
        &&& after.recent_environment_drops == self.recent_environment_drops
        &&& after.active_fluid_chunks == self.active_fluid_chunks
    }

    /// The redstone part of a tick around `center`: every second tick, one
    /// redstone tick then the outputs (leaving `detonations`); otherwise
    /// nothing.
    pub open spec fn redstone_phase(
        &self,
        mid: &World,
        after: &World,
        center: int,
        detonations: Seq<(i32, i32, BlockType)>,
    ) -> bool {
        if self.spec_tick() % 2 == 0 {
            self.redstone_step(mid, center) && mid.outputs_step(after, center, detonations)
        } else {
            *after == *self && detonations.len() == 0
        }
    }

    /// The falling pass, every second tick.
    pub open spec fn falling_phase(&self, after: &World, center: int) -> bool {
        if self.spec_tick() % 2 == 0 {
            self.falling_step(after, center)
        } else {
            *after == *self
        }
    }

    /// The fluid pass, every fifth tick.
    pub open spec fn fluid_phase(&self, after: &World, center: int) -> bool {
        if self.spec_tick() % 5 == 0 {
            self.fluid_step(after, center)
        } else {
            *after == *self
        }
    }

    /// The leaf decay pass, every twentieth tick.
    pub open spec fn leaf_phase(&self, after: &World, center: int) -> bool {
        if self.spec_tick() % 20 == 0 {
            self.leaf_step(after, center)
        } else {
            *after == *self
        }
    }

    /// The farming pass, every twentieth tick.
    pub open spec fn farming_phase(&self, after: &World, center: int) -> bool {
        if self.spec_tick() % 20 == 0 {
            self.farming_step(after, center)
        } else {
            *after == *self
        }
    }

    /// The grass pass, every twentieth tick.
    pub open spec fn grass_phase(&self, after: &World, center: int) -> bool {
        if self.spec_tick() % 20 == 0 {
            self.grass_step(after, center)
        } else {
            *after == *self
        }
    }

    /// The chest inventory kept at world column `wx`, row `wy`.
    pub open spec fn chest_at(&self, wx: int, wy: int) -> Option<Inventory> {
        seq_chest_at(self.view_chunks(), wx, wy)
    }

    /// Two worlds load the same chunk columns.
    pub open spec fn same_columns(&self, other: &World) -> bool {
        &&& forall|cx: int| #[trigger] self.is_loaded(cx) == other.is_loaded(cx)
        &&& self.chunk_order() == other.chunk_order()
    }

    /// Two worlds agree on everything but their loaded chunks and what the
    /// last ticks produced.
    pub closed spec fn same_setting(&self, other: &World) -> bool {
        &&& self.dimension == other.dimension
        &&& self.save_key == other.save_key
        &&& self.tick_counter == other.tick_counter
        &&& self.biomes == other.biomes
        &&& self.pending_chunks == other.pending_chunks
        &&& self.queued_chunks == other.queued_chunks
        &&& self.in_flight_chunks == other.in_flight_chunks
        &&& self.chunk_request_queue == other.chunk_request_queue
        &&& self.chunk_request_seq == other.chunk_request_seq
        &&& self.chunk_metrics == other.chunk_metrics
        &&& self.newly_generated_chunks == other.newly_generated_chunks
        &&& self.recent_explosions == other.recent_explosions
        &&& self.recent_explosion_block_losses == other.recent_explosion_block_losses
    }

    /// The world of one dimension with nothing loaded yet, at tick 0; its
    /// save slot is named after the dimension.
    pub fn new_for_dimension(dimension: Dimension) -> (r: Self)
        ensures
            r.wf(),
            r.view_dimension() == dimension,
            r.spec_save_key() == match dimension {
                Dimension::Overworld => "overworld"@,
                Dimension::Nether => "nether"@,
                Dimension::End => "end"@,
            },
            r.spec_tick() == 0,
            forall|cx: int| !#[trigger] r.is_loaded(cx),
            r.fluid_frontier() == Set::<i32>::empty(),
            r.environment_drops() == Seq::<(i32, i32, ItemType)>::empty(),
            r.explosions() == Seq::<(i32, i32, i32)>::empty(),
            r.explosion_losses() == Seq::<(i32, i32, BlockType, bool)>::empty(),
            r.generated_columns() == Seq::<i32>::empty(),
    {
        let save_key = match dimension {
            Dimension::Overworld => String::from_str("overworld"),
            Dimension::Nether => String::from_str("nether"),
            Dimension::End => String::from_str("end"),
        };
        let r = World {
            chunks: Vec::new(),
            biomes: Vec::new(),
            newly_generated_chunks: Vec::new(),
            dimension,
            save_key,
            tick_counter: 0,
            pending_chunks: Vec::new(),
            queued_chunks: Vec::new(),
            in_flight_chunks: Vec::new(),
            chunk_request_queue: ChunkRequestQueue::new(),
            chunk_request_seq: 0,
            chunk_metrics: ChunkLoadMetrics {
                sync_loaded: 0,
                sync_generated: 0,
                async_loaded: 0,
                async_generated: 0,
                pending_requests: 0,
                last_load_us: 0,
                max_load_us: 0,
            },
            recent_explosions: Vec::new(),
            recent_explosion_block_losses: Vec::new(),
            recent_environment_drops: Vec::new(),
            active_fluid_chunks: Vec::new(),
        };
        proof {
            assert(r.active_fluid_chunks@.to_set() =~= Set::<i32>::empty());
        }
        r
    }

    /// The overworld with nothing loaded yet.
    pub fn new() -> (r: Self)
        ensures
            r.wf(),
            r.view_dimension() == Dimension::Overworld,
            r.spec_save_key() == "overworld"@,
            r.spec_tick() == 0,
            forall|cx: int| !#[trigger] r.is_loaded(cx),
            r.fluid_frontier() == Set::<i32>::empty(),
            r.environment_drops() == Seq::<(i32, i32, ItemType)>::empty(),
    {
        Self::new_for_dimension(Dimension::Overworld)
    }

    /// The save slot of the world.
    pub fn save_key(&self) -> (r: &str)
        ensures
            r@ == self.spec_save_key(),
    {
        self.save_key.as_str()
    }

    /// The position in `chunks` of the chunk of column `cx`, if loaded.
    fn find_slot(&self, cx: i32) -> (r: Option<usize>)
        requires
            self.wf(),
        ensures
            match r {
                Some(i) => i < self.chunks@.len() && self.chunks@[i as int].view_x() == cx
                    && seq_slot(self.chunks@, cx as int) == i && self.is_loaded(cx as int),
                None => !self.is_loaded(cx as int),
            },
    {
        let mut i: usize = 0;
        while i < self.chunks.len()
            invariant
                self.wf(),
                i <= self.chunks@.len(),
                forall|k: int| 0 <= k < i ==> #[trigger] self.chunks@[k].view_x() != cx,
            decreases self.chunks@.len() - i,
        {
            if self.chunks[i].column() == cx {
                proof {
                    lemma_seq_slot(self.chunks@, i as int);
                }
                return Some(i);
            }
            i = i + 1;
        }
        None
    }

    /// Whether chunk column `cx` is loaded.
    pub fn has_chunk(&self, cx: i32) -> (r: bool)
        requires
            self.wf(),
        ensures
            r == self.is_loaded(cx as int),
    {
        self.find_slot(cx).is_some()
    }

    /// The block at world column `world_x`, row `world_y`: air above or below
    /// the world and where no chunk is loaded.
    pub fn get_block(&self, world_x: i32, world_y: i32) -> (r: BlockType)
        requires
            self.wf(),
        ensures
            r == self.block_at(world_x as int, world_y as int),
    {
        if world_y < 0 || world_y >= CHUNK_HEIGHT as i32 {
            return BlockType::Air;
        }
        let (cx, lx) = split_world_x(world_x);
        match self.find_slot(cx) {
            Some(i) => self.chunks[i].get_block(lx, world_y as usize),
            None => BlockType::Air,
        }
    }
}

/// The three chunk columns around `c`.
pub open spec fn column_and_neighbors(c: int) -> Set<i32> {
    set![(c - 1) as i32, c as i32, (c + 1) as i32]
}

/// Adds `c` to a list of columns holding each column once.
fn insert_column(v: &mut Vec<i32>, c: i32)
    requires
        old(v)@.no_duplicates(),
    ensures
        final(v)@.no_duplicates(),
        final(v)@.to_set() == old(v)@.to_set().insert(c),
        final(v)@.len() <= old(v)@.len() + 1,
{
    let mut i: usize = 0;
    while i < v.len()
        invariant
            i <= v@.len(),
            v@ == old(v)@,
            old(v)@.no_duplicates(),
            forall|k: int| 0 <= k < i ==> #[trigger] v@[k] != c,
        decreases v@.len() - i,
    {
        if v[i] == c {
            proof {
                assert(v@.to_set().contains(c));
                assert(v@.to_set().insert(c) =~= v@.to_set());
            }
            return;
        }
        i = i + 1;
    }
    proof {
        v@.lemma_push_to_set_commute(c);
    }
    v.push(c);
    proof {
        assert forall|a: int, b: int| 0 <= a < v@.len() && 0 <= b < v@.len() && a != b implies v@[a]
            != v@[b] by {
            if a == v@.len() - 1 {
                assert(v@[b] == old(v)@[b]);
            } else if b == v@.len() - 1 {
                assert(v@[a] == old(v)@[a]);
            } else {
                assert(v@[a] == old(v)@[a] && v@[b] == old(v)@[b]);
            }
        }
    }
}

/// A list with one more column holds exactly the columns it held and the
/// new one.
pub proof fn lemma_push_contains(s: Seq<i32>, x: i32)
    ensures
        forall|c: i32| #[trigger] s.push(x).contains(c) <==> (s.contains(c) || c == x),
{
    assert forall|c: i32| #[trigger] s.push(x).contains(c) <==> (s.contains(c) || c == x) by {
        if s.contains(c) {
            let k = choose|k: int| 0 <= k < s.len() && s[k] == c;
            assert(s.push(x)[k] == c);
        }
        if c == x {
            assert(s.push(x)[s.len() as int] == c);
        }
        if s.push(x).contains(c) && c != x {
            let k = choose|k: int| 0 <= k < s.push(x).len() && s.push(x)[k] == c;
            assert(s[k] == c);
        }
    }
}

/// Whether `c` is in `v`.
fn vec_contains(v: &Vec<i32>, c: i32) -> (r: bool)
    ensures
        r == v@.to_set().contains(c),
        r == v@.contains(c),
{
    let mut i: usize = 0;
    while i < v.len()
        invariant
            i <= v@.len(),
            forall|k: int| 0 <= k < i ==> v@[k] != c,
        decreases v@.len() - i,
    {
        if v[i] == c {
            proof {
                assert(v@.contains(c));
            }
            return true;
        }
        i = i + 1;
    }
    false
}

/// Takes `c` out of a list of columns holding each column once.
fn remove_column(v: &mut Vec<i32>, c: i32)
    requires
        old(v)@.no_duplicates(),
    ensures
        final(v)@.no_duplicates(),
        final(v)@.to_set() == old(v)@.to_set().remove(c),
        final(v)@.len() <= old(v)@.len(),
{
    let mut i: usize = 0;
    while i < v.len()
        invariant
            i <= v@.len(),
            v@ == old(v)@,
            old(v)@.no_duplicates(),
            forall|k: int| 0 <= k < i ==> #[trigger] v@[k] != c,
        decreases v@.len() - i,
    {
        if v[i] == c {
            let ghost before = v@;
            v.remove(i);
            proof {
                assert(v@ == before.remove(i as int));
                assert forall|a: int, b: int| 0 <= a < v@.len() && 0 <= b < v@.len() && a != b implies v@[a]
                    != v@[b] by {
                    let aa = if a < i { a } else { a + 1 };
                    let bb = if b < i { b } else { b + 1 };
                    assert(v@[a] == before[aa] && v@[b] == before[bb]);
                }
                assert forall|e: i32| #[trigger] v@.to_set().contains(e) == before.to_set().remove(c).contains(e) by {
                    if v@.to_set().contains(e) {
                        let k = choose|k: int| 0 <= k < v@.len() && v@[k] == e;
                        let kk = if k < i { k } else { k + 1 };
                        assert(before[kk] == e);
                        assert(e != c);
                    }
                    if before.to_set().remove(c).contains(e) {
                        let k = choose|k: int| 0 <= k < before.len() && before[k] == e;
                        assert(k != i);
                        if k < i {
                            assert(v@[k] == e);
                        } else {
                            assert(v@[k - 1] == e);
                        }
                    }
                }
                assert(v@.to_set() =~= before.to_set().remove(c));
            }
            return;
        }
        i = i + 1;
    }
    proof {
        assert(!v@.to_set().contains(c));
        assert(v@.to_set().remove(c) =~= v@.to_set());
    }
}

/// Keeping part of a list that holds each column once keeps each once.
pub proof fn lemma_filter_no_dup(s: Seq<i32>, p: spec_fn(i32) -> bool)
    requires
        s.no_duplicates(),
    ensures
        s.filter(p).no_duplicates(),
    decreases s.len(),
{
    if s.len() > 0 {
        let d = s.drop_last();
        let e = s.last();
        assert(s =~= d.push(e));
        assert(d.no_duplicates()) by {
            assert forall|a: int, b: int| 0 <= a < d.len() && 0 <= b < d.len() && a != b implies d[a] != d[b] by {
                assert(d[a] == s[a] && d[b] == s[b]);
            }
        }
        lemma_filter_no_dup(d, p);
        d.lemma_filter_push(e, p);
        if p(e) {
            let fd = d.filter(p);
            assert(!fd.contains(e)) by {
                if fd.contains(e) {
                    #[allow(deprecated)]
                    d.lemma_filter_contains_rev(p, e);
                    let k = choose|k: int| 0 <= k < d.len() && d[k] == e;
                    assert(s[k] == s[s.len() - 1]);
                }
            }
            assert forall|a: int, b: int|
                0 <= a < fd.push(e).len() && 0 <= b < fd.push(e).len() && a != b implies fd.push(e)[a] != fd.push(e)[b] by {
                if a == fd.len() {
                    assert(fd.contains(fd[b]));
                } else if b == fd.len() {
                    assert(fd.contains(fd[a]));
                }
            }
        }
    }
}

/// Whether `b`, standing on `ground` with `ground_left` and `ground_right`
/// beside its ground, has the support it needs: blocks that need none
/// always do; sugar cane stands on sugar cane, or on grass, dirt or sand with
/// water beside that ground; the others by their own rule.
pub open spec fn stays_over(b: BlockType, ground: BlockType, ground_left: BlockType, ground_right: BlockType) -> bool {
    !b.spec_needs_bottom_support() || if b == BlockType::SugarCane {
        ground == BlockType::SugarCane || ((ground == BlockType::Grass || ground == BlockType::Dirt
            || ground == BlockType::Sand) && (ground_left is Water || ground_right is Water))
    } else {
        b.spec_can_stay_on(ground)
    }
}

/// Nothing that needs support stands on air.
pub proof fn lemma_nothing_stays_on_air(b: BlockType, l: BlockType, r: BlockType)
    ensures
        stays_over(b, BlockType::Air, l, r) == !b.spec_needs_bottom_support(),
{
}

/// What breaking `b` for want of support at (x, y) sets loose.
pub open spec fn support_drops(x: i32, y: i32, b: BlockType) -> Seq<(i32, i32, ItemType)> {
    match b {
        BlockType::RedFlower => seq![(x, y, ItemType::RedFlower)],
        BlockType::YellowFlower => seq![(x, y, ItemType::YellowFlower)],
        BlockType::DeadBush => seq![(x, y, ItemType::Stick)],
        BlockType::TallGrass => if spec_tall_grass_drops_seed_at(x, y) {
            seq![(x, y, ItemType::WheatSeeds)]
        } else {
            Seq::empty()
        },
        BlockType::Crops(stage) => if stage >= 7 {
            seq![(x, y, ItemType::WheatSeeds), (x, y, ItemType::Wheat)]
        } else {
            seq![(x, y, ItemType::WheatSeeds)]
        },
        BlockType::Sapling => seq![(x, y, ItemType::Sapling)],
        BlockType::BirchSapling => seq![(x, y, ItemType::BirchSapling)],
        BlockType::NetherWart(stage) => Seq::new(
            spec_nether_wart_drop_count_at(x, y, stage >= 3) as nat,
            |i: int| (x, y, ItemType::NetherWart),
        ),
        BlockType::Cactus => seq![(x, y, ItemType::Cactus)],
        BlockType::SugarCane => seq![(x, y, ItemType::SugarCane)],
        _ => Seq::empty(),
    }
}

/// The topmost row of the run of blocks needing support that stands on row
/// `y` of column `wx` of the blocks `f` (row `y` itself when none does).
pub open spec fn run_top_in(f: spec_fn(int, int) -> BlockType, wx: int, y: int) -> int
    decreases y,
{
    if y > 0 && f(wx, y - 1).spec_needs_bottom_support() {
        run_top_in(f, wx, y - 1)
    } else {
        y
    }
}

/// What breaking rows `hi` down to `lo` of column `wx` of the blocks `f`
/// sets loose, rows in that order.
pub open spec fn run_drops_in(f: spec_fn(int, int) -> BlockType, wx: int, hi: int, lo: int) -> Seq<
    (i32, i32, ItemType),
>
    decreases hi + 1 - lo,
{
    if lo > hi {
        Seq::empty()
    } else {
        run_drops_in(f, wx, hi, lo + 1) + support_drops(wx as i32, lo as i32, f(wx, lo))
    }
}

/// The first row of column `wx` that loses its block after `b` replaces the
/// block at (wx, wy) of the blocks `f`: the placed block itself when it
/// lacks support, else the block above it when that lacks support on `b`,
/// else none (wy + 1).
pub open spec fn first_removed_in(f: spec_fn(int, int) -> BlockType, wx: int, wy: int, b: BlockType) -> int {
    if !stays_over(b, f(wx, wy + 1), f(wx - 1, wy + 1), f(wx + 1, wy + 1)) {
        wy
    } else if !stays_over(f(wx, wy - 1), b, f(wx - 1, wy), f(wx + 1, wy)) {
        wy - 1
    } else {
        wy + 1
    }
}

/// The topmost row cleared after `b` replaces the block at (wx, wy).
pub open spec fn top_removed_in(f: spec_fn(int, int) -> BlockType, wx: int, wy: int, b: BlockType) -> int {
    let first = first_removed_in(f, wx, wy, b);
    if first <= wy {
        run_top_in(f, wx, first)
    } else {
        wy + 1
    }
}

/// Whether placing `b` at (wx, wy) changes anything: the row is inside the
/// world, the chunk loaded and the block there differs from `b`.
pub open spec fn set_applies_in(
    f: spec_fn(int, int) -> BlockType,
    loaded: spec_fn(int) -> bool,
    wx: int,
    wy: int,
    b: BlockType,
) -> bool {
    0 <= wy < 128 && loaded(chunk_col(wx)) && f(wx, wy) != b
}

/// The block at (x, y) after `b` replaces the block at (wx, wy) of the
/// blocks `f` and the blocks left without support above it break, one
/// after the other, upwards.
pub open spec fn block_after_set_in(
    f: spec_fn(int, int) -> BlockType,
    loaded: spec_fn(int) -> bool,
    wx: int,
    wy: int,
    b: BlockType,
    x: int,
    y: int,
) -> BlockType {
    if !set_applies_in(f, loaded, wx, wy, b) {
        f(x, y)
    } else if x == wx && first_removed_in(f, wx, wy, b) <= wy && top_removed_in(f, wx, wy, b) <= y
        <= first_removed_in(f, wx, wy, b) {
        BlockType::Air
    } else if x == wx && y == wy {
        b
    } else {
        f(x, y)
    }
}

/// The blocks after placing `b` at (wx, wy).
pub open spec fn after_set_in(
    f: spec_fn(int, int) -> BlockType,
    loaded: spec_fn(int) -> bool,
    wx: int,
    wy: int,
    b: BlockType,
) -> spec_fn(int, int) -> BlockType {
    |x: int, y: int| block_after_set_in(f, loaded, wx, wy, b, x, y)
}

/// What placing `b` at (wx, wy) sets loose: the drops of every block it
/// breaks for want of support, from the lowest up.
pub open spec fn drops_after_set_in(
    f: spec_fn(int, int) -> BlockType,
    loaded: spec_fn(int) -> bool,
    wx: int,
    wy: int,
    b: BlockType,
) -> Seq<(i32, i32, ItemType)> {
    if !set_applies_in(f, loaded, wx, wy, b) || first_removed_in(f, wx, wy, b) > wy {
        Seq::empty()
    } else {
        let base = if first_removed_in(f, wx, wy, b) == wy {
            support_drops(wx as i32, wy as i32, b)
        } else {
            Seq::empty()
        };
        base + run_drops_in(f, wx, wy - 1, top_removed_in(f, wx, wy, b))
    }
}

/// The blocks after placing each (x, y, block) of `ch` in turn.
pub open spec fn after_sets_in(
    f: spec_fn(int, int) -> BlockType,
    loaded: spec_fn(int) -> bool,
    ch: Seq<(i32, i32, BlockType)>,
) -> spec_fn(int, int) -> BlockType
    decreases ch.len(),
{
    if ch.len() == 0 {
        f
    } else {
        let c = ch.last();
        after_set_in(after_sets_in(f, loaded, ch.drop_last()), loaded, c.0 as int, c.1 as int, c.2)
    }
}

/// What placing each (x, y, block) of `ch` in turn sets loose.
pub open spec fn drops_after_sets_in(
    f: spec_fn(int, int) -> BlockType,
    loaded: spec_fn(int) -> bool,
    ch: Seq<(i32, i32, BlockType)>,
) -> Seq<(i32, i32, ItemType)>
    decreases ch.len(),
{
    if ch.len() == 0 {
        Seq::empty()
    } else {
        let c = ch.last();
        drops_after_sets_in(f, loaded, ch.drop_last()) + drops_after_set_in(
            after_sets_in(f, loaded, ch.drop_last()),
            loaded,
            c.0 as int,
            c.1 as int,
            c.2,
        )
    }
}

/// The blocks after each (x, y, block) of `ms` falls one row, in turn, when
/// the cell below it is still air then.
pub open spec fn after_falls_in(
    f: spec_fn(int, int) -> BlockType,
    loaded: spec_fn(int) -> bool,
    ms: Seq<(i32, i32, BlockType)>,
) -> spec_fn(int, int) -> BlockType
    decreases ms.len(),
{
    if ms.len() == 0 {
        f
    } else {
        let g = after_falls_in(f, loaded, ms.drop_last());
        let m = ms.last();
        if g(m.0 as int, m.1 + 1) == BlockType::Air {
            after_set_in(
                after_set_in(g, loaded, m.0 as int, m.1 as int, BlockType::Air),
                loaded,
                m.0 as int,
                m.1 + 1,
                m.2,
            )
        } else {
            g
        }
    }
}

/// What the falls of `ms` set loose.
pub open spec fn drops_after_falls_in(
    f: spec_fn(int, int) -> BlockType,
    loaded: spec_fn(int) -> bool,
    ms: Seq<(i32, i32, BlockType)>,
) -> Seq<(i32, i32, ItemType)>
    decreases ms.len(),
{
    if ms.len() == 0 {
        Seq::empty()
    } else {
        let g = after_falls_in(f, loaded, ms.drop_last());
        let m = ms.last();
        drops_after_falls_in(f, loaded, ms.drop_last()) + if g(m.0 as int, m.1 + 1) == BlockType::Air {
            drops_after_set_in(g, loaded, m.0 as int, m.1 as int, BlockType::Air) + drops_after_set_in(
                after_set_in(g, loaded, m.0 as int, m.1 as int, BlockType::Air),
                loaded,
                m.0 as int,
                m.1 + 1,
                m.2,
            )
        } else {
            Seq::empty()
        }
    }
}

/// The sapling decaying `leaf` leaves, if it is a leaf block.
pub open spec fn sapling_for_leaf(leaf: BlockType) -> Option<ItemType> {
    match leaf {
        BlockType::Leaves => Some(ItemType::Sapling),
        BlockType::BirchLeaves => Some(ItemType::BirchSapling),
        _ => None,
    }
}

/// What clearing the decaying leaves `ms` in phase `phase` sets loose: for
/// each, its sapling when due, then the drops of clearing it.
pub open spec fn drops_after_decay_in(
    f: spec_fn(int, int) -> BlockType,
    loaded: spec_fn(int) -> bool,
    ms: Seq<(i32, i32, BlockType)>,
    phase: i32,
) -> Seq<(i32, i32, ItemType)>
    decreases ms.len(),
{
    if ms.len() == 0 {
        Seq::empty()
    } else {
        let m = ms.last();
        let g = after_sets_in(f, loaded, cleared(ms.drop_last()));
        drops_after_decay_in(f, loaded, ms.drop_last(), phase) + (if sapling_for_leaf(m.2) is Some
            && sapling_drop_due(m.0, m.1, phase) {
            seq![(m.0, m.1, sapling_for_leaf(m.2)->0)]
        } else {
            Seq::empty()
        }) + drops_after_set_in(g, loaded, m.0 as int, m.1 as int, BlockType::Air)
    }
}

/// The cells of `ms`, each to be cleared to air.
pub open spec fn cleared(ms: Seq<(i32, i32, BlockType)>) -> Seq<(i32, i32, BlockType)> {
    ms.map_values(|m: (i32, i32, BlockType)| (m.0, m.1, BlockType::Air))
}

/// Chunk columns next to (or at) the column of some change of `ch`.
pub open spec fn touched_columns(ch: Seq<(i32, i32, BlockType)>) -> Set<i32> {
    Set::new(
        |c: i32|
            exists|k: int|
                0 <= k < ch.len() && #[trigger] column_and_neighbors(chunk_col(ch[k].0 as int)).contains(c),
    )
}

/// Whether every change of `ch` has a column with a neighbour on each side.
pub open spec fn changes_in_range(ch: Seq<(i32, i32, BlockType)>) -> bool {
    forall|k: int| 0 <= k < ch.len() ==> i32::MIN < #[trigger] ch[k].0 < i32::MAX
}

/// `n` cells from column `x` towards the right when `right`, else the left.
pub open spec fn step_x(x: int, right: bool, n: int) -> int {
    if right {
        x + n
    } else {
        x - n
    }
}

/// The strongest signal the four neighbours of (x, y) send it in the blocks
/// `f`; dust loses a level on the way when `decay`.
pub open spec fn power_around_in(f: spec_fn(int, int) -> BlockType, x: int, y: int, decay: bool) -> u8 {
    max_u8(
        max_u8(
            spec_power_from_to(f(x - 1, y), x - 1, y, x, y, decay),
            spec_power_from_to(f(x + 1, y), x + 1, y, x, y, decay),
        ),
        max_u8(
            spec_power_from_to(f(x, y - 1), x, y - 1, x, y, decay),
            spec_power_from_to(f(x, y + 1), x, y + 1, x, y, decay),
        ),
    )
}

/// Whether a lever, button or repeater next to (x, y) feeds it.
pub open spec fn has_input_in(f: spec_fn(int, int) -> BlockType, x: int, y: int) -> bool {
    ||| spec_input_power_from_to(f(x - 1, y), x - 1, y, x, y) > 0
    ||| spec_input_power_from_to(f(x + 1, y), x + 1, y, x, y) > 0
    ||| spec_input_power_from_to(f(x, y - 1), x, y - 1, x, y) > 0
    ||| spec_input_power_from_to(f(x, y + 1), x, y + 1, x, y) > 0
}

/// How many blocks a piston at (x, y) facing right (or left) pushes when
/// `k` cells ahead of it are known to hold movable blocks: the count of
/// movable blocks before the first air cell, when that air comes within 13
/// cells and at most 12 blocks precede it; None when the way is blocked.
pub open spec fn push_count_in(f: spec_fn(int, int) -> BlockType, x: int, y: int, right: bool, k: int) -> Option<int>
    decreases 13 - k,
{
    if k < 0 || k >= 13 {
        None
    } else {
        let b = f(step_x(x, right, k + 1), y);
        if b == BlockType::Air {
            Some(k)
        } else if !spec_can_piston_push(b) || k >= 12 {
            None
        } else {
            push_count_in(f, x, y, right, k + 1)
        }
    }
}

/// The moves (from x, from y, to x, to y, block) of a piston at (x, y)
/// pushing `n` blocks, the farthest block first.
pub open spec fn extension_pushes_in(f: spec_fn(int, int) -> BlockType, x: int, y: int, right: bool, n: int) -> Seq<
    (i32, i32, i32, i32, BlockType),
>
    decreases n,
{
    if n <= 0 {
        Seq::empty()
    } else {
        seq![
            (
                step_x(x, right, n) as i32,
                y as i32,
                step_x(x, right, n + 1) as i32,
                y as i32,
                f(step_x(x, right, n), y),
            ),
        ] + extension_pushes_in(f, x, y, right, n - 1)
    }
}

/// The block placements of moving pushes `p`, in order: each move clears
/// its source and fills its target.
pub open spec fn moves_to_changes(p: Seq<(i32, i32, i32, i32, BlockType)>) -> Seq<(i32, i32, BlockType)>
    decreases p.len(),
{
    if p.len() == 0 {
        Seq::empty()
    } else {
        let m = p.last();
        moves_to_changes(p.drop_last()) + seq![(m.0, m.1, BlockType::Air), (m.2, m.3, m.4)]
    }
}

/// The pull of a sticky piston at (x, y) retracting: the movable block two
/// cells ahead moves next to the piston when the cell between is air.
pub open spec fn sticky_pull_in(f: spec_fn(int, int) -> BlockType, x: int, y: int, right: bool) -> Option<
    (i32, i32, i32, i32, BlockType),
> {
    let to_x = step_x(x, right, 1);
    let from_x = step_x(x, right, 2);
    let b = f(from_x, y);
    if f(to_x, y) != BlockType::Air || b == BlockType::Air || !spec_can_piston_push(b) {
        None
    } else {
        Some((from_x as i32, y as i32, to_x as i32, y as i32, b))
    }
}

/// The passes of the simulation that apply a rule cell by cell.
#[derive(Clone, Copy, PartialEq, Eq, Structural)]
pub enum CellRule {
    /// Buttons count down, torches follow their input, repeaters step.
    RedstoneTrigger,
    /// Dust takes the strongest signal around it, less one.
    RedstoneDust,
    /// TNT is lit, fuses burn, pistons extend or retract.
    OutputState,
    /// Blocks moved by pistons.
    OutputMoves,
    /// Primed TNT whose fuse ran out.
    Detonation,
    /// Sand and gravel with air below (rows scanned from the bottom up).
    Fall,
    /// Leaves far from wood that decay in the given phase.
    LeafDecay(i32),
    /// Grass that dies under cover, dirt that turns to grass in the given
    /// phase.
    GrassSpread(i32),
}

/// Whether leaves at (x, y) decay in phase `phase` (a fixed pattern over the
/// world, one cell in four per phase).
pub open spec fn leaf_decay_due(x: i32, y: i32, phase: i32) -> bool {
    ((x.wrapping_mul(31) ^ y.wrapping_mul(17) ^ phase.wrapping_mul(13)) & 3) == 0
}

/// Whether dirt at (x, y) may turn to grass in phase `phase` (one cell in
/// four per phase).
pub open spec fn grass_spread_due(x: i32, y: i32, phase: i32) -> bool {
    ((x.wrapping_mul(13) ^ y.wrapping_mul(7) ^ phase.wrapping_mul(5)) & 3) == 0
}

/// Whether decaying leaves at (x, y) in phase `phase` leave a sapling (one
/// cell in seven).
pub open spec fn sapling_drop_due(x: i32, y: i32, phase: i32) -> bool {
    ((x.wrapping_mul(19) ^ y.wrapping_mul(23) ^ phase.wrapping_mul(7)) as int % 7) == 0
}

/// Whether wood or birch wood lies within `range` cells (in both
/// directions) of (x, y) in the blocks `f`.
pub open spec fn near_wood_in(f: spec_fn(int, int) -> BlockType, x: int, y: int, range: int) -> bool {
    exists|dx: int, dy: int|
        -range <= dx <= range && -range <= dy <= range && (#[trigger] f(x + dx, y + dy) == BlockType::Wood || f(
            x + dx,
            y + dy,
        ) == BlockType::BirchWood)
}

/// Whether grass at (x, y) survives: nothing solid or fluid above it.
pub open spec fn grass_survives_in(f: spec_fn(int, int) -> BlockType, x: int, y: int) -> bool {
    !f(x, y - 1).spec_is_solid() && !f(x, y - 1).spec_is_fluid()
}

/// Whether dirt at (x, y) can turn to grass: grass would survive there and
/// one of its eight neighbours is surviving grass.
pub open spec fn dirt_gains_grass_in(f: spec_fn(int, int) -> BlockType, x: int, y: int) -> bool {
    grass_survives_in(f, x, y) && exists|dx: int, dy: int|
        -1 <= dx <= 1 && -1 <= dy <= 1 && !(dx == 0 && dy == 0) && #[trigger] f(x + dx, y + dy)
            == BlockType::Grass && grass_survives_in(f, x + dx, y + dy)
}

/// The group of blocks outside which rule `rule` changes nothing, if any.
pub open spec fn rule_kind(rule: CellRule) -> Option<ActivityKind> {
    match rule {
        CellRule::Fall => Some(ActivityKind::Falling),
        CellRule::LeafDecay(_) => Some(ActivityKind::Leaf),
        CellRule::GrassSpread(_) => None,
        _ => Some(ActivityKind::Redstone),
    }
}

/// The changes (x, y, block) rule `rule` makes at (x, y) of the blocks `f`.
pub open spec fn cell_rule_in(f: spec_fn(int, int) -> BlockType, rule: CellRule, x: int, y: int) -> Seq<
    (i32, i32, BlockType),
> {
    let b = f(x, y);
    let xi = x as i32;
    let yi = y as i32;
    match rule {
        CellRule::RedstoneTrigger => match b {
            BlockType::StoneButton(t) => if t > 0 {
                seq![(xi, yi, BlockType::StoneButton((t - 1) as u8))]
            } else {
                Seq::empty()
            },
            BlockType::RedstoneTorch(lit) => if lit != !has_input_in(f, x, y) {
                seq![(xi, yi, BlockType::RedstoneTorch(!has_input_in(f, x, y)))]
            } else {
                Seq::empty()
            },
            BlockType::RedstoneRepeater { powered, delay, facing_right, timer, target_powered } => if !f(
                x,
                y + 1,
            ).spec_is_solid() {
                seq![(xi, yi, BlockType::Air)]
            } else {
                let rear = step_x(x, !facing_right, 1);
                let desired = spec_power_from_to(f(rear, y), rear, y, x, y, false) > 0;
                let n = repeater_step(powered, delay, timer, target_powered, desired);
                if n.0 != powered || n.2 != timer || n.3 != target_powered || n.1 != delay {
                    seq![
                        (
                            xi,
                            yi,
                            BlockType::RedstoneRepeater {
                                powered: n.0,
                                delay: n.1,
                                facing_right,
                                timer: n.2,
                                target_powered: n.3,
                            },
                        ),
                    ]
                } else {
                    Seq::empty()
                }
            },
            _ => Seq::empty(),
        },
        CellRule::RedstoneDust => match b {
            BlockType::RedstoneDust(level) => if !f(x, y + 1).spec_is_solid() {
                seq![(xi, yi, BlockType::Air)]
            } else if power_around_in(f, x, y, true) != level {
                seq![(xi, yi, BlockType::RedstoneDust(power_around_in(f, x, y, true)))]
            } else {
                Seq::empty()
            },
            _ => Seq::empty(),
        },
        CellRule::OutputState => match b {
            BlockType::Tnt => if power_around_in(f, x, y, false) > 0 {
                seq![(xi, yi, BlockType::PrimedTnt(TNT_FUSE_TICKS))]
            } else {
                Seq::empty()
            },
            BlockType::PrimedTnt(fuse) => if fuse > 0 {
                seq![(xi, yi, BlockType::PrimedTnt((fuse - 1) as u8))]
            } else {
                Seq::empty()
            },
            BlockType::Piston { extended, facing_right } => {
                let powered = power_around_in(f, x, y, false) > 0;
                if powered && !extended && push_count_in(f, x, y, facing_right, 0) is Some {
                    seq![(xi, yi, BlockType::Piston { extended: true, facing_right })]
                } else if !powered && extended {
                    seq![(xi, yi, BlockType::Piston { extended: false, facing_right })]
                } else {
                    Seq::empty()
                }
            },
            BlockType::StickyPiston { extended, facing_right } => {
                let powered = power_around_in(f, x, y, false) > 0;
                if powered && !extended && push_count_in(f, x, y, facing_right, 0) is Some {
                    seq![(xi, yi, BlockType::StickyPiston { extended: true, facing_right })]
                } else if !powered && extended {
                    seq![(xi, yi, BlockType::StickyPiston { extended: false, facing_right })]
                } else {
                    Seq::empty()
                }
            },
            _ => Seq::empty(),
        },
        CellRule::OutputMoves => match b {
            BlockType::Piston { extended, facing_right } => {
                let powered = power_around_in(f, x, y, false) > 0;
                if powered && !extended && push_count_in(f, x, y, facing_right, 0) is Some {
                    moves_to_changes(
                        extension_pushes_in(f, x, y, facing_right, push_count_in(f, x, y, facing_right, 0)->0),
                    )
                } else {
                    Seq::empty()
                }
            },
            BlockType::StickyPiston { extended, facing_right } => {
                let powered = power_around_in(f, x, y, false) > 0;
                if powered && !extended && push_count_in(f, x, y, facing_right, 0) is Some {
                    moves_to_changes(
                        extension_pushes_in(f, x, y, facing_right, push_count_in(f, x, y, facing_right, 0)->0),
                    )
                } else if !powered && extended && sticky_pull_in(f, x, y, facing_right) is Some {
                    moves_to_changes(seq![sticky_pull_in(f, x, y, facing_right)->0])
                } else {
                    Seq::empty()
                }
            },
            _ => Seq::empty(),
        },
        CellRule::Detonation => match b {
            BlockType::PrimedTnt(fuse) => if fuse == 0 {
                seq![(xi, yi, BlockType::Air)]
            } else {
                Seq::empty()
            },
            _ => Seq::empty(),
        },
        CellRule::Fall => if y < 127 && b.spec_obeys_gravity() && f(x, y + 1) == BlockType::Air {
            seq![(xi, yi, b)]
        } else {
            Seq::empty()
        },
        CellRule::LeafDecay(phase) => if b.spec_is_leaf_block() && !near_wood_in(f, x, y, 4) && leaf_decay_due(
            xi,
            yi,
            phase,
        ) {
            seq![(xi, yi, b)]
        } else {
            Seq::empty()
        },
        CellRule::GrassSpread(phase) => if y < 1 {
            Seq::empty()
        } else if b == BlockType::Grass && !grass_survives_in(f, x, y) {
            seq![(xi, yi, BlockType::Dirt)]
        } else if b == BlockType::Dirt && dirt_gains_grass_in(f, x, y) && grass_spread_due(xi, yi, phase) {
            seq![(xi, yi, BlockType::Grass)]
        } else {
            Seq::empty()
        },
    }
}

/// A rule changes nothing at a cell whose block is outside its group.
pub proof fn lemma_rule_needs_kind(f: spec_fn(int, int) -> BlockType, rule: CellRule, x: int, y: int)
    requires
        rule_kind(rule) matches Some(k) && !super::chunk::in_kind(f(x, y), k),
    ensures
        cell_rule_in(f, rule, x, y) == Seq::<(i32, i32, BlockType)>::empty(),
{
}

/// The changes rule `rule` makes at scan position `p`: chunk `order[p /
/// 4096]`, row `(p % 4096) / 32`, column `p % 32` of that chunk, when the
/// chunk lies within two of `center`.
pub open spec fn cell_pos_out(
    f: spec_fn(int, int) -> BlockType,
    order: Seq<i32>,
    center: int,
    rule: CellRule,
    p: int,
) -> Seq<(i32, i32, BlockType)> {
    let cx = order[p / 4096] as int;
    let c = p % 4096;
    let row = if rule == CellRule::Fall {
        127 - c / 32
    } else {
        c / 32
    };
    if -2 <= cx - center <= 2 {
        cell_rule_in(f, rule, cx * 32 + c % 32, row)
    } else {
        Seq::empty()
    }
}

/// The changes of scan positions `0..n`, in order.
///
/// Rows are visited from the top, but from the bottom for `Fall`.
pub open spec fn scan_upto_in(
    f: spec_fn(int, int) -> BlockType,
    order: Seq<i32>,
    center: int,
    rule: CellRule,
    n: int,
) -> Seq<(i32, i32, BlockType)>
    decreases n,
{
    if n <= 0 {
        Seq::empty()
    } else {
        scan_upto_in(f, order, center, rule, n - 1) + cell_pos_out(f, order, center, rule, n - 1)
    }
}

/// The changes rule `rule` makes over the chunks `order` within two of
/// `center`, chunk by chunk, row by row from the top, column by column.
pub open spec fn scan_in(f: spec_fn(int, int) -> BlockType, order: Seq<i32>, center: int, rule: CellRule) -> Seq<
    (i32, i32, BlockType),
> {
    scan_upto_in(f, order, center, rule, (order.len() * 4096) as int)
}

/// Scan position `i * 4096 + y * 32 + x` is chunk `i`, row `y`, column `x`.
pub proof fn lemma_scan_pos(i: int, y: int, x: int)
    requires
        0 <= i,
        0 <= y < 128,
        0 <= x < 32,
    ensures
        (i * 4096 + y * 32 + x) / 4096 == i,
        (i * 4096 + y * 32 + x) % 4096 == y * 32 + x,
        (y * 32 + x) % 32 == x,
        (y * 32 + x) / 32 == y,
{
    lemma_div_multiples_vanish_fancy(i, y * 32 + x, 4096);
    lemma_mod_multiples_vanish(i, y * 32 + x, 4096);
    lemma_small_mod((y * 32 + x) as nat, 4096);
    lemma_div_multiples_vanish_fancy(y, x, 32);
    lemma_mod_multiples_vanish(y, x, 32);
    lemma_small_mod(x as nat, 32);
}

/// Scan positions that change nothing leave the scan as it was.
pub proof fn lemma_scan_skip(
    f: spec_fn(int, int) -> BlockType,
    order: Seq<i32>,
    center: int,
    rule: CellRule,
    base: int,
    k: int,
)
    requires
        0 <= base,
        0 <= k,
        forall|q: int| base <= q < base + k ==> #[trigger] cell_pos_out(f, order, center, rule, q) == Seq::<
            (i32, i32, BlockType),
        >::empty(),
    ensures
        scan_upto_in(f, order, center, rule, base + k) == scan_upto_in(f, order, center, rule, base),
    decreases k,
{
    if k > 0 {
        lemma_scan_skip(f, order, center, rule, base, k - 1);
        assert(scan_upto_in(f, order, center, rule, base + k) =~= scan_upto_in(f, order, center, rule, base + k - 1));
    }
}

/// Whether leaves at (x, y) decay in phase `phase`.
fn leaf_decay_due_at(x: i32, y: i32, phase: i32) -> (r: bool)
    ensures
        r == leaf_decay_due(x, y, phase),
{
    ((x.wrapping_mul(31) ^ y.wrapping_mul(17) ^ phase.wrapping_mul(13)) & 3) == 0
}

/// Whether dirt at (x, y) may turn to grass in phase `phase`.
fn grass_spread_due_at(x: i32, y: i32, phase: i32) -> (r: bool)
    ensures
        r == grass_spread_due(x, y, phase),
{
    ((x.wrapping_mul(13) ^ y.wrapping_mul(7) ^ phase.wrapping_mul(5)) & 3) == 0
}

/// Whether decaying leaves at (x, y) in phase `phase` leave a sapling.
fn sapling_drop_due_at(x: i32, y: i32, phase: i32) -> (r: bool)
    ensures
        r == sapling_drop_due(x, y, phase),
{
    rem_euclid_i32(x.wrapping_mul(19) ^ y.wrapping_mul(23) ^ phase.wrapping_mul(7), 7) == 0
}

/// The block placements of moving pushes `p`.
fn pushes_to_changes(p: &Vec<(i32, i32, i32, i32, BlockType)>) -> (r: Vec<(i32, i32, BlockType)>)
    ensures
        r@ == moves_to_changes(p@),
{
    let mut out: Vec<(i32, i32, BlockType)> = Vec::new();
    let mut i: usize = 0;
    while i < p.len()
        invariant
            i <= p@.len(),
            out@ == moves_to_changes(p@.take(i as int)),
        decreases p@.len() - i,
    {
        let m = p[i];
        out.push((m.0, m.1, BlockType::Air));
        out.push((m.2, m.3, m.4));
        proof {
            assert(p@.take(i + 1).drop_last() =~= p@.take(i as int));
            assert(out@ =~= moves_to_changes(p@.take(i + 1)));
        }
        i = i + 1;
    }
    proof {
        assert(p@.take(p@.len() as int) =~= p@);
    }
    out
}

/// Every move of a piston pushing `n` blocks stays within `n + 1` cells of it.
pub proof fn lemma_pushes_near(f: spec_fn(int, int) -> BlockType, x: int, y: int, right: bool, n: int)
    requires
        -0x4000_0000 <= x < 0x4000_0000,
        n <= 12,
    ensures
        forall|k: int| 0 <= k < extension_pushes_in(f, x, y, right, n).len() ==> {
            let m = #[trigger] extension_pushes_in(f, x, y, right, n)[k];
            &&& x - 13 <= m.0 <= x + 13
            &&& x - 13 <= m.2 <= x + 13
        },
    decreases n,
{
    if n > 0 {
        lemma_pushes_near(f, x, y, right, n - 1);
        let p = extension_pushes_in(f, x, y, right, n);
        let rest = extension_pushes_in(f, x, y, right, n - 1);
        assert forall|k: int| 0 <= k < p.len() implies {
            let m = #[trigger] p[k];
            &&& x - 13 <= m.0 <= x + 13
            &&& x - 13 <= m.2 <= x + 13
        } by {
            if k > 0 {
                assert(p[k] == rest[k - 1]);
            }
        }
    }
}

/// The placements of moves within `lo..=hi` are within `lo..=hi`.
pub proof fn lemma_moves_near(p: Seq<(i32, i32, i32, i32, BlockType)>, lo: int, hi: int)
    requires
        forall|k: int| 0 <= k < p.len() ==> lo <= #[trigger] p[k].0 <= hi && lo <= p[k].2 <= hi,
    ensures
        forall|k: int| 0 <= k < moves_to_changes(p).len() ==> lo <= #[trigger] moves_to_changes(p)[k].0 <= hi,
        moves_to_changes(p).len() == 2 * p.len(),
    decreases p.len(),
{
    if p.len() > 0 {
        let q = p.drop_last();
        assert forall|k: int| 0 <= k < q.len() implies lo <= #[trigger] q[k].0 <= hi && lo <= q[k].2 <= hi by {
            assert(q[k] == p[k]);
        }
        lemma_moves_near(q, lo, hi);
        let r = moves_to_changes(p);
        assert forall|k: int| 0 <= k < r.len() implies lo <= #[trigger] r[k].0 <= hi by {
            if k >= moves_to_changes(q).len() {
                assert(p.last() == p[p.len() - 1]);
            }
        }
    }
}

/// Every change a rule makes at (x, y) lies within 13 columns of it.
pub proof fn lemma_cell_rule_near(f: spec_fn(int, int) -> BlockType, rule: CellRule, x: int, y: int)
    requires
        -0x4000_0000 <= x < 0x4000_0000,
    ensures
        forall|k: int| 0 <= k < cell_rule_in(f, rule, x, y).len() ==> x - 13 <= #[trigger] cell_rule_in(
            f,
            rule,
            x,
            y,
        )[k].0 <= x + 13,
{
    if rule == CellRule::OutputMoves {
        match f(x, y) {
            BlockType::Piston { extended, facing_right } | BlockType::StickyPiston { extended, facing_right } => {
                if let Some(n) = push_count_in(f, x, y, facing_right, 0) {
                    lemma_push_count_bound(f, x, y, facing_right, 0);
                    lemma_pushes_near(f, x, y, facing_right, n);
                    lemma_moves_near(extension_pushes_in(f, x, y, facing_right, n), x - 13, x + 13);
                }
                if let Some(m) = sticky_pull_in(f, x, y, facing_right) {
                    lemma_moves_near(seq![m], x - 13, x + 13);
                }
            },
            _ => {},
        }
    }
}

/// A piston never pushes more than 12 blocks.
pub proof fn lemma_push_count_bound(f: spec_fn(int, int) -> BlockType, x: int, y: int, right: bool, k: int)
    ensures
        push_count_in(f, x, y, right, k) matches Some(n) ==> 0 <= n <= 12,
    decreases 13 - k,
{
    if 0 <= k < 13 && f(step_x(x, right, k + 1), y) != BlockType::Air && spec_can_piston_push(
        f(step_x(x, right, k + 1), y),
    ) && k < 12 {
        lemma_push_count_bound(f, x, y, right, k + 1);
    }
}

/// The changes of a scan over valid chunk columns have columns with a
/// neighbour on each side.
pub proof fn lemma_scan_in_range(
    f: spec_fn(int, int) -> BlockType,
    order: Seq<i32>,
    center: int,
    rule: CellRule,
    n: int,
)
    requires
        forall|k: int| 0 <= k < order.len() ==> valid_chunk_col(#[trigger] order[k] as int),
        n <= order.len() * 4096,
    ensures
        changes_in_range(scan_upto_in(f, order, center, rule, n)),
    decreases n,
{
    if n > 0 {
        lemma_scan_in_range(f, order, center, rule, n - 1);
        let p = n - 1;
        let cx = order[p / 4096] as int;
        let c = p % 4096;
        assert(0 <= p / 4096 < order.len()) by {
            vstd::arithmetic::div_mod::lemma_div_pos_is_pos(p, 4096);
            vstd::arithmetic::div_mod::lemma_div_is_ordered(p, (order.len() * 4096) as int, 4096);
            vstd::arithmetic::div_mod::lemma_div_multiples_vanish(order.len() as int, 4096);
        }
        assert(valid_chunk_col(cx));
        let x = cx * 32 + c % 32;
        lemma_cell_rule_near(f, rule, x, c / 32);
        let prev = scan_upto_in(f, order, center, rule, n - 1);
        let out = cell_pos_out(f, order, center, rule, p);
        assert forall|k: int| 0 <= k < (prev + out).len() implies i32::MIN < #[trigger] (prev + out)[k].0 < i32::MAX by {
            if k >= prev.len() {
                assert((prev + out)[k] == out[k - prev.len()]);
            } else {
                assert((prev + out)[k] == prev[k]);
            }
        }
    }
}

/// What falls in a scan lies above the bottom row.
pub proof fn lemma_scan_fall_rows(f: spec_fn(int, int) -> BlockType, order: Seq<i32>, center: int, n: int)
    ensures
        forall|k: int|
            0 <= k < scan_upto_in(f, order, center, CellRule::Fall, n).len() ==> 0 <= #[trigger] scan_upto_in(
                f,
                order,
                center,
                CellRule::Fall,
                n,
            )[k].1 < 127,
    decreases n,
{
    if n > 0 {
        lemma_scan_fall_rows(f, order, center, n - 1);
        let prev = scan_upto_in(f, order, center, CellRule::Fall, n - 1);
        let out = cell_pos_out(f, order, center, CellRule::Fall, n - 1);
        let c = (n - 1) % 4096;
        assert(0 <= c / 32 < 128);
        assert forall|k: int| 0 <= k < (prev + out).len() implies 0 <= #[trigger] (prev + out)[k].1 < 127 by {
            if k >= prev.len() {
                assert((prev + out)[k] == out[k - prev.len()]);
            } else {
                assert((prev + out)[k] == prev[k]);
            }
        }
    }
}

/// A change the fluid pass proposes for the next state of a cell.
#[derive(Clone, Copy, PartialEq, Eq, Structural)]
pub enum FluidProposal {
    /// Set the cell to `block` outright; a real change wakes the columns
    /// around `center`.
    Put { x: i32, y: i32, block: BlockType, center: i32 },
    /// Offer `block` for the cell: refused over a solid proposal, and a
    /// fluid only replaces a weaker one; a real change wakes the columns
    /// around `center`.
    Offer { x: i32, y: i32, block: BlockType, center: i32 },
    /// Keep the columns around `center` awake.
    Wake { center: i32 },
}

/// The level of water or lava, 0 for other blocks.
pub open spec fn fluid_level(b: BlockType) -> u8 {
    match b {
        BlockType::Water(l) => l,
        BlockType::Lava(l) => l,
        _ => 0,
    }
}

/// Water (or lava) of level `level`.
pub open spec fn fluid_of(water: bool, level: u8) -> BlockType {
    if water {
        BlockType::Water(level)
    } else {
        BlockType::Lava(level)
    }
}

/// Whether `b` is the same fluid as water (or lava).
pub open spec fn same_fluid(water: bool, b: BlockType) -> bool {
    if water {
        b is Water
    } else {
        b is Lava
    }
}

/// What water (or lava) flowing onto `target` turns it into: water on lava
/// makes obsidian from a source and cobblestone otherwise; lava on water
/// makes stone when falling and cobblestone when spreading.
pub open spec fn fluid_mix(water: bool, target: BlockType, vertical: bool) -> Option<BlockType> {
    if water {
        match target {
            BlockType::Lava(l) => Some(if l == 8 { BlockType::Obsidian } else { BlockType::Cobblestone }),
            _ => None,
        }
    } else {
        match target {
            BlockType::Water(_) => Some(if vertical { BlockType::Stone } else { BlockType::Cobblestone }),
            _ => None,
        }
    }
}

/// Whether a water source forms at (x, y): a full source on each side and
/// something solid or water below.
pub open spec fn forms_source_in(f: spec_fn(int, int) -> BlockType, x: int, y: int) -> bool {
    &&& y + 1 < 128
    &&& (f(x, y + 1).spec_is_solid() || f(x, y + 1) is Water)
    &&& f(x - 1, y) == BlockType::Water(8)
    &&& f(x + 1, y) == BlockType::Water(8)
}

/// The source-forming proposal for the air gap beside a full water source at
/// (x, y), `dir` cells away.
pub open spec fn gap_source_in(f: spec_fn(int, int) -> BlockType, x: int, y: int, dir: int) -> Seq<FluidProposal> {
    if f(x + dir, y) == BlockType::Air && forms_source_in(f, x + dir, y) {
        seq![FluidProposal::Put { x: (x + dir) as i32, y: y as i32, block: BlockType::Water(8), center: chunk_col(x) as i32 }]
    } else {
        Seq::empty()
    }
}

/// The lowest level that still spreads sideways: water always down to 1;
/// lava down to 1 in the nether and 5 elsewhere.
pub open spec fn min_spread_level(water: bool, nether: bool) -> u8 {
    if water || nether {
        1
    } else {
        5
    }
}

/// The proposals of a fluid at (x, y) with `level` (after any source
/// formed there) once it has support: fall into the cell below (mixing with
/// the other fluid, or flowing as level 7 into a replaceable cell); when the
/// cell below is neither, spread sideways one level weaker while above the
/// lowest spreading level (mixing, or flowing into replaceable cells).
pub open spec fn flow_proposals_in(
    f: spec_fn(int, int) -> BlockType,
    water: bool,
    level: u8,
    nether: bool,
    x: int,
    y: int,
) -> Seq<FluidProposal> {
    let cx = chunk_col(x) as i32;
    let below = f(x, y + 1);
    if y + 1 >= 128 {
        Seq::empty()
    } else if fluid_mix(water, below, true) is Some {
        seq![FluidProposal::Put { x: x as i32, y: (y + 1) as i32, block: fluid_mix(water, below, true)->0, center: cx }]
    } else if below.spec_is_replaceable() {
        seq![FluidProposal::Offer { x: x as i32, y: (y + 1) as i32, block: fluid_of(water, 7), center: cx }]
    } else if level > min_spread_level(water, nether) {
        side_proposals_in(f, water, level, x - 1, y) + side_proposals_in(f, water, level, x + 1, y)
    } else {
        Seq::empty()
    }
}

/// The proposal of a fluid of `level` spreading into (nx, y).
pub open spec fn side_proposals_in(f: spec_fn(int, int) -> BlockType, water: bool, level: u8, nx: int, y: int) -> Seq<
    FluidProposal,
> {
    let side = f(nx, y);
    if fluid_mix(water, side, false) is Some {
        seq![FluidProposal::Put { x: nx as i32, y: y as i32, block: fluid_mix(water, side, false)->0, center: chunk_col(nx) as i32 }]
    } else if side.spec_is_replaceable() {
        seq![FluidProposal::Offer { x: nx as i32, y: y as i32, block: fluid_of(water, (level - 1) as u8), center: chunk_col(nx) as i32 }]
    } else {
        Seq::empty()
    }
}

/// The proposals of the cell (x, y) in one fluid pass: lava waits (keeping
/// its chunk awake) unless `process_lava`; a full water source fills the air
/// gaps beside it that would form sources; water that forms a source becomes
/// one; a fluid that is not a source and has no same fluid above it nor a
/// stronger one beside it weakens by one level (to air from level 1);
/// otherwise it flows.
pub open spec fn fluid_cell_in(
    f: spec_fn(int, int) -> BlockType,
    process_lava: bool,
    nether: bool,
    x: int,
    y: int,
) -> Seq<FluidProposal> {
    let b = f(x, y);
    let cx = chunk_col(x) as i32;
    if !(b is Water || b is Lava) {
        Seq::empty()
    } else if b is Lava && !process_lava {
        seq![FluidProposal::Wake { center: cx }]
    } else {
        let water = b is Water;
        let level0 = fluid_level(b);
        let gaps = if water && level0 == 8 {
            gap_source_in(f, x, y, -1) + gap_source_in(f, x, y, 1)
        } else {
            Seq::empty()
        };
        let forms = water && forms_source_in(f, x, y);
        let own = if forms {
            seq![FluidProposal::Put { x: x as i32, y: y as i32, block: BlockType::Water(8), center: cx }]
        } else {
            Seq::empty()
        };
        let level: u8 = if forms { 8 } else { level0 };
        let above = f(x, y - 1);
        let left = f(x - 1, y);
        let right = f(x + 1, y);
        let supported = level == 8 || same_fluid(water, above) || (same_fluid(water, left) && fluid_level(left) > level)
            || (same_fluid(water, right) && fluid_level(right) > level);
        if !supported {
            gaps + own + seq![
                FluidProposal::Offer {
                    x: x as i32,
                    y: y as i32,
                    block: if level > 1 { fluid_of(water, (level - 1) as u8) } else { BlockType::Air },
                    center: cx,
                },
            ]
        } else {
            gaps + own + flow_proposals_in(f, water, level, nether, x, y)
        }
    }
}

/// The next-state entries `m` holds for cell `k`.
pub open spec fn alist_get(m: Seq<((i32, i32), BlockType)>, k: (i32, i32)) -> Option<BlockType>
    decreases m.len(),
{
    if m.len() == 0 {
        None
    } else if m.last().0 == k {
        Some(m.last().1)
    } else {
        alist_get(m.drop_last(), k)
    }
}

/// `m` with cell `k` set to `v`: in place when present, else at the end.
pub open spec fn alist_put(m: Seq<((i32, i32), BlockType)>, k: (i32, i32), v: BlockType) -> Seq<((i32, i32), BlockType)> {
    if exists|i: int| 0 <= i < m.len() && #[trigger] m[i].0 == k {
        m.update(choose|i: int| 0 <= i < m.len() && #[trigger] m[i].0 == k, (k, v))
    } else {
        m.push((k, v))
    }
}

/// The next state after proposal `p`, and whether it changed it.
pub open spec fn merge_one(m: Seq<((i32, i32), BlockType)>, p: FluidProposal) -> (Seq<((i32, i32), BlockType)>, bool) {
    match p {
        FluidProposal::Put { x, y, block, .. } => (alist_put(m, (x, y), block), alist_get(m, (x, y)) != Some(block)),
        FluidProposal::Offer { x, y, block, .. } => {
            let cur = match alist_get(m, (x, y)) {
                Some(b) => b,
                None => BlockType::Air,
            };
            if cur.spec_is_solid() {
                (m, false)
            } else if block.spec_is_solid() || block == BlockType::Air {
                (alist_put(m, (x, y), block), alist_get(m, (x, y)) != Some(block))
            } else if fluid_level(block) > fluid_level(cur) {
                (alist_put(m, (x, y), block), true)
            } else {
                (m, false)
            }
        },
        FluidProposal::Wake { .. } => (m, true),
    }
}

/// Whether the column proposal `p` wakes has neighbours on both sides.
pub open spec fn center_ok(p: FluidProposal) -> bool {
    &&& -0x1000_0000 < proposal_center(p) < 0x1000_0000
    &&& match p {
        FluidProposal::Put { x, .. } => -0x4000_0010 < x < 0x4000_0010,
        FluidProposal::Offer { x, .. } => -0x4000_0010 < x < 0x4000_0010,
        FluidProposal::Wake { .. } => true,
    }
}

/// The chunk column whose neighbourhood proposal `p` wakes.
pub open spec fn proposal_center(p: FluidProposal) -> i32 {
    match p {
        FluidProposal::Put { center, .. } => center,
        FluidProposal::Offer { center, .. } => center,
        FluidProposal::Wake { center } => center,
    }
}

/// The next state after merging the proposals `ps` in order into `m0`.
pub open spec fn merge_all(m0: Seq<((i32, i32), BlockType)>, ps: Seq<FluidProposal>) -> Seq<((i32, i32), BlockType)>
    decreases ps.len(),
{
    if ps.len() == 0 {
        m0
    } else {
        merge_one(merge_all(m0, ps.drop_last()), ps.last()).0
    }
}

/// The chunk columns the proposals `ps` wake when merged in order into `m0`.
pub open spec fn woken_all(m0: Seq<((i32, i32), BlockType)>, ps: Seq<FluidProposal>) -> Set<i32>
    decreases ps.len(),
{
    if ps.len() == 0 {
        Set::empty()
    } else if merge_one(merge_all(m0, ps.drop_last()), ps.last()).1 {
        woken_all(m0, ps.drop_last()).union(column_and_neighbors(proposal_center(ps.last()) as int))
    } else {
        woken_all(m0, ps.drop_last())
    }
}

/// The proposals of scan positions `0..n` over the scheduled chunks `sched`.
pub open spec fn fluid_props_upto(
    f: spec_fn(int, int) -> BlockType,
    sched: Seq<i32>,
    process_lava: bool,
    nether: bool,
    n: int,
) -> Seq<FluidProposal>
    decreases n,
{
    if n <= 0 {
        Seq::empty()
    } else {
        let p = n - 1;
        let c = p % 4096;
        fluid_props_upto(f, sched, process_lava, nether, n - 1) + fluid_cell_in(
            f,
            process_lava,
            nether,
            sched[p / 4096] * 32 + c % 32,
            c / 32,
        )
    }
}

/// The placements of the next state `m`, in order.
pub open spec fn alist_changes(m: Seq<((i32, i32), BlockType)>) -> Seq<(i32, i32, BlockType)> {
    m.map_values(|e: ((i32, i32), BlockType)| (e.0.0, e.0.1, e.1))
}

/// What water (or lava) flowing onto `target` turns it into.
fn fluid_mix_result(is_water: bool, target: BlockType, vertical_flow: bool) -> (r: Option<BlockType>)
    ensures
        r == fluid_mix(is_water, target, vertical_flow),
{
    if is_water {
        match target {
            BlockType::Lava(level) => Some(if level == 8 { BlockType::Obsidian } else { BlockType::Cobblestone }),
            _ => None,
        }
    } else {
        match target {
            BlockType::Water(_) => Some(if vertical_flow { BlockType::Stone } else { BlockType::Cobblestone }),
            _ => None,
        }
    }
}

/// The level of water or lava, 0 for other blocks.
fn level_of(b: BlockType) -> (r: u8)
    ensures
        r == fluid_level(b),
{
    match b {
        BlockType::Water(l) => l,
        BlockType::Lava(l) => l,
        _ => 0,
    }
}

/// Water (or lava) of level `level`.
fn make_fluid(is_water: bool, level: u8) -> (r: BlockType)
    ensures
        r == fluid_of(is_water, level),
{
    if is_water {
        BlockType::Water(level)
    } else {
        BlockType::Lava(level)
    }
}

/// Whether `b` is the same fluid as water (or lava).
fn is_same_fluid(is_water: bool, b: BlockType) -> (r: bool)
    ensures
        r == same_fluid(is_water, b),
{
    if is_water {
        matches!(b, BlockType::Water(_))
    } else {
        matches!(b, BlockType::Lava(_))
    }
}

/// Appends `extra` to `out`.
fn append_proposals(out: &mut Vec<FluidProposal>, extra: Vec<FluidProposal>)
    ensures
        final(out)@ == old(out)@ + extra@,
        (forall|k: int| 0 <= k < old(out)@.len() ==> center_ok(#[trigger] old(out)@[k])) && (forall|k: int|
            0 <= k < extra@.len() ==> center_ok(#[trigger] extra@[k])) ==> forall|k: int|
            0 <= k < final(out)@.len() ==> center_ok(#[trigger] final(out)@[k]),
{
    let mut k: usize = 0;
    while k < extra.len()
        invariant
            k <= extra@.len(),
            out@ == old(out)@ + extra@.take(k as int),
        decreases extra@.len() - k,
    {
        out.push(extra[k]);
        proof {
            assert(extra@.take(k + 1) =~= extra@.take(k as int).push(extra@[k as int]));
            assert(out@ =~= old(out)@ + extra@.take(k + 1));
        }
        k = k + 1;
    }
    proof {
        assert(extra@.take(extra@.len() as int) =~= extra@);
        assert forall|k: int| 0 <= k < out@.len() && k >= old(out)@.len() implies out@[k] == extra@[k - old(out)@.len()] by {}
        assert forall|k: int| 0 <= k < out@.len() && k < old(out)@.len() implies out@[k] == old(out)@[k] by {}
    }
}

/// No cell appears twice in the next state `m`.
pub open spec fn keys_unique(m: Seq<((i32, i32), BlockType)>) -> bool {
    forall|i: int, j: int| 0 <= i < m.len() && 0 <= j < m.len() && i != j ==> #[trigger] m[i].0 != #[trigger] m[j].0
}

/// In a next state without repeated cells, a cell's entry is its value.
pub proof fn lemma_alist_get(m: Seq<((i32, i32), BlockType)>, k: (i32, i32))
    requires
        keys_unique(m),
    ensures
        forall|i: int| 0 <= i < m.len() && m[i].0 == k ==> alist_get(m, k) == Some(#[trigger] m[i].1),
        (forall|i: int| 0 <= i < m.len() ==> #[trigger] m[i].0 != k) ==> alist_get(m, k) is None,
    decreases m.len(),
{
    if m.len() > 0 {
        let d = m.drop_last();
        assert forall|i: int, j: int| 0 <= i < d.len() && 0 <= j < d.len() && i != j implies #[trigger] d[i].0
            != #[trigger] d[j].0 by {
            assert(d[i] == m[i] && d[j] == m[j]);
        }
        lemma_alist_get(d, k);
        assert forall|i: int| 0 <= i < m.len() && m[i].0 == k implies alist_get(m, k) == Some(#[trigger] m[i].1) by {
            if i < m.len() - 1 {
                assert(d[i] == m[i]);
                assert(m.last().0 != k);
            }
        }
        if forall|i: int| 0 <= i < m.len() ==> #[trigger] m[i].0 != k {
            assert(m.last().0 != k);
            assert forall|i: int| 0 <= i < d.len() implies #[trigger] d[i].0 != k by {
                assert(d[i] == m[i]);
            }
        }
    }
}

/// The position of cell `k` in the next state `m`, if present.
fn find_entry(m: &Vec<((i32, i32), BlockType)>, k: (i32, i32)) -> (r: Option<usize>)
    ensures
        match r {
            Some(i) => i < m@.len() && m@[i as int].0 == k,
            None => forall|i: int| 0 <= i < m@.len() ==> #[trigger] m@[i].0 != k,
        },
{
    let mut i: usize = 0;
    while i < m.len()
        invariant
            i <= m@.len(),
            forall|j: int| 0 <= j < i ==> #[trigger] m@[j].0 != k,
        decreases m@.len() - i,
    {
        if m[i].0.0 == k.0 && m[i].0.1 == k.1 {
            return Some(i);
        }
        i = i + 1;
    }
    None
}

/// Sets cell `k` of the next state to `v`.
fn put_entry(m: &mut Vec<((i32, i32), BlockType)>, k: (i32, i32), v: BlockType)
    requires
        keys_unique(old(m)@),
    ensures
        keys_unique(final(m)@),
        final(m)@ == alist_put(old(m)@, k, v),
        forall|j: int| 0 <= j < final(m)@.len() ==> (j < old(m)@.len() && #[trigger] final(m)@[j].0 == old(m)@[j].0)
            || final(m)@[j].0 == k,
{
    match find_entry(m, k) {
        Some(i) => {
            proof {
                let j = choose|j: int| 0 <= j < old(m)@.len() && #[trigger] old(m)@[j].0 == k;
                assert(old(m)@[j].0 == k);
                assert(j == i);
            }
            m.set(i, (k, v));
            proof {
                assert forall|a: int, b: int| 0 <= a < m@.len() && 0 <= b < m@.len() && a != b implies #[trigger] m@[a].0
                    != #[trigger] m@[b].0 by {
                    assert(m@[a].0 == old(m)@[a].0 && m@[b].0 == old(m)@[b].0);
                }
            }
        },
        None => {
            m.push((k, v));
            proof {
                assert forall|a: int, b: int| 0 <= a < m@.len() && 0 <= b < m@.len() && a != b implies #[trigger] m@[a].0
                    != #[trigger] m@[b].0 by {
                    if a < old(m)@.len() && b < old(m)@.len() {
                        assert(m@[a] == old(m)@[a] && m@[b] == old(m)@[b]);
                    } else if a < old(m)@.len() {
                        assert(m@[a] == old(m)@[a]);
                    } else {
                        assert(m@[b] == old(m)@[b]);
                    }
                }
            }
        },
    }
}

/// Merges proposal `p` into the next state; true when it changed it (a
/// wake always counts).
fn merge_proposal(m: &mut Vec<((i32, i32), BlockType)>, p: FluidProposal) -> (changed: bool)
    requires
        keys_unique(old(m)@),
    ensures
        keys_unique(final(m)@),
        (final(m)@, changed) == merge_one(old(m)@, p),
        forall|j: int| 0 <= j < final(m)@.len() ==> (j < old(m)@.len() && #[trigger] final(m)@[j].0 == old(m)@[j].0)
            || match p {
            FluidProposal::Put { x, y, .. } => final(m)@[j].0 == (x, y),
            FluidProposal::Offer { x, y, .. } => final(m)@[j].0 == (x, y),
            FluidProposal::Wake { .. } => false,
        },
{
    match p {
        FluidProposal::Put { x, y, block, .. } => {
            let found = find_entry(m, (x, y));
            proof {
                lemma_alist_get(m@, (x, y));
            }
            let changed = match found {
                Some(i) => m[i].1 != block,
                None => true,
            };
            put_entry(m, (x, y), block);
            changed
        },
        FluidProposal::Offer { x, y, block, .. } => {
            let found = find_entry(m, (x, y));
            proof {
                lemma_alist_get(m@, (x, y));
            }
            let current = match found {
                Some(i) => m[i].1,
                None => BlockType::Air,
            };
            if current.is_solid() {
                return false;
            }
            if block.is_solid() || block == BlockType::Air {
                let changed = match found {
                    Some(i) => m[i].1 != block,
                    None => true,
                };
                put_entry(m, (x, y), block);
                return changed;
            }
            if level_of(block) > level_of(current) {
                put_entry(m, (x, y), block);
                return true;
            }
            false
        },
        FluidProposal::Wake { .. } => true,
    }
}

/// Merges the proposals `props` in order into an empty next state; also
/// returns the chunk columns they wake.
fn merge_fluid_proposals(props: &Vec<FluidProposal>) -> (r: (Vec<((i32, i32), BlockType)>, Vec<i32>))
    requires
        forall|k: int| 0 <= k < props@.len() ==> center_ok(#[trigger] props@[k]),
    ensures
        r.0@ == merge_all(Seq::empty(), props@),
        r.1@.to_set() == woken_all(Seq::empty(), props@),
        r.1@.no_duplicates(),
        forall|j: int| 0 <= j < r.0@.len() ==> -0x4000_0010 < #[trigger] r.0@[j].0.0 < 0x4000_0010,
{
    let mut m: Vec<((i32, i32), BlockType)> = Vec::new();
    let mut woken: Vec<i32> = Vec::new();
    let mut i: usize = 0;
    proof {
        assert(woken@.to_set() =~= Set::<i32>::empty());
    }
    while i < props.len()
        invariant
            i <= props@.len(),
            forall|k: int| 0 <= k < props@.len() ==> center_ok(#[trigger] props@[k]),
            keys_unique(m@),
            forall|j: int| 0 <= j < m@.len() ==> -0x4000_0010 < #[trigger] m@[j].0.0 < 0x4000_0010,
            m@ == merge_all(Seq::empty(), props@.take(i as int)),
            woken@.no_duplicates(),
            woken@.to_set() == woken_all(Seq::empty(), props@.take(i as int)),
        decreases props@.len() - i,
    {
        let p = props[i];
        proof {
            assert(props@.take(i + 1).drop_last() =~= props@.take(i as int));
            assert(props@.take(i + 1).last() == p);
            assert(center_ok(props@[i as int]));
        }
        let ghost m0 = m@;
        let changed = merge_proposal(&mut m, p);
        proof {
            assert forall|j: int| 0 <= j < m@.len() implies -0x4000_0010 < #[trigger] m@[j].0.0 < 0x4000_0010 by {
                if j < m0.len() && m@[j].0 == m0[j].0 {
                } else {
                    match p {
                        FluidProposal::Put { x, y, .. } => {
                            assert(m@[j].0 == (x, y));
                        },
                        FluidProposal::Offer { x, y, .. } => {
                            assert(m@[j].0 == (x, y));
                        },
                        FluidProposal::Wake { .. } => {},
                    }
                }
            }
        }
        if changed {
            let center = match p {
                FluidProposal::Put { center, .. } => center,
                FluidProposal::Offer { center, .. } => center,
                FluidProposal::Wake { center } => center,
            };
            let ghost w0 = woken@.to_set();
            proof {
                assert(center_ok(props@[i as int]));
            }
            insert_column(&mut woken, center - 1);
            insert_column(&mut woken, center);
            insert_column(&mut woken, center + 1);
            proof {
                assert(woken@.to_set() =~= w0.union(column_and_neighbors(center as int)));
            }
        }
        i = i + 1;
    }
    proof {
        assert(props@.take(props@.len() as int) =~= props@);
    }
    (m, woken)
}

/// The placements of the next state `m`, in order.
fn entries_to_changes(m: &Vec<((i32, i32), BlockType)>) -> (r: Vec<(i32, i32, BlockType)>)
    ensures
        r@ == alist_changes(m@),
{
    let mut out: Vec<(i32, i32, BlockType)> = Vec::new();
    let mut i: usize = 0;
    while i < m.len()
        invariant
            i <= m@.len(),
            out@ == alist_changes(m@.take(i as int)),
        decreases m@.len() - i,
    {
        let e = m[i];
        out.push((e.0.0, e.0.1, e.1));
        proof {
            assert(out@ =~= alist_changes(m@.take(i + 1)));
        }
        i = i + 1;
    }
    proof {
        assert(m@.take(m@.len() as int) =~= m@);
    }
    out
}

/// Whether water lies within four columns and one row of (x, y).
pub open spec fn farmland_water_in(f: spec_fn(int, int) -> BlockType, x: int, y: int) -> bool {
    exists|dx: int, dy: int| -4 <= dx <= 4 && -1 <= dy <= 1 && #[trigger] f(x + dx, y + dy) is Water
}

/// The height of the sugar cane stalk whose top is (x, y): one plus the
/// cane blocks directly below it.
pub open spec fn cane_height_in(f: spec_fn(int, int) -> BlockType, x: int, y: int) -> int
    decreases 128 - y,
{
    if y + 1 >= 128 || f(x, y + 1) != BlockType::SugarCane {
        1
    } else {
        1 + cane_height_in(f, x, y + 1)
    }
}

/// The wood and leaves a sapling grows into in `biome`: birch saplings and
/// the cold biomes give birch, others oak.
pub open spec fn tree_blocks(sapling: BlockType, biome: BiomeType) -> (BlockType, BlockType) {
    if sapling == BlockType::BirchSapling || biome == BiomeType::Tundra || biome == BiomeType::ExtremeHills {
        (BlockType::BirchWood, BlockType::BirchLeaves)
    } else {
        (BlockType::Wood, BlockType::Leaves)
    }
}

/// The trunk height of a tree grown at (x, y): 4 or 5 for birch saplings; by
/// biome otherwise (jungle 5 to 7, taiga 4 or 5, swamp and the cold biomes
/// 4, elsewhere 3 to 5), varying by a fixed pattern over the world.
pub open spec fn tree_height(x: i32, y: i32, sapling: BlockType, biome: BiomeType) -> int {
    let v = (x.wrapping_mul(17) ^ y.wrapping_mul(13)) as int % 3;
    let v1 = if v < 1 { v } else { 1 };
    if sapling == BlockType::BirchSapling {
        4 + v1
    } else {
        match biome {
            BiomeType::Jungle => 5 + v,
            BiomeType::Taiga => 4 + v1,
            BiomeType::Swamp => 4,
            BiomeType::Tundra | BiomeType::ExtremeHills => 4,
            _ => 3 + v,
        }
    }
}

/// Whether a growing tree may replace `b`.
pub open spec fn tree_replaceable(b: BlockType) -> bool {
    matches!(
        b,
        BlockType::Air
            | BlockType::Leaves
            | BlockType::BirchLeaves
            | BlockType::TallGrass
            | BlockType::RedFlower
            | BlockType::YellowFlower
            | BlockType::Sapling
            | BlockType::BirchSapling
    )
}

/// The half width of crown row `r` (0 is the top row of three): taiga trees
/// are narrow.
pub open spec fn crown_width(biome: BiomeType, r: int) -> int {
    if biome == BiomeType::Taiga {
        if r == 0 { 0 } else { 1 }
    } else {
        if r == 0 { 1 } else { 2 }
    }
}

/// Whether the biome caps its trees with one more leaf block.
pub open spec fn tree_capped(biome: BiomeType) -> bool {
    biome == BiomeType::Taiga || biome == BiomeType::Jungle
}

/// Whether the sapling at (x, y) of the blocks `f` has room to grow into a
/// tree in the climate `bio` gives its column: it stands on what it needs,
/// the crown stays inside the world, the trunk cells can be replaced and
/// the crown and cap cells can be replaced or already hold its leaves.
pub open spec fn tree_fits_in(f: spec_fn(int, int) -> BlockType, bio: spec_fn(int) -> BiomeType, x: int, y: int) -> bool {
    let s = f(x, y);
    let biome = bio(x);
    let leaf = tree_blocks(s, biome).1;
    let h = tree_height(x as i32, y as i32, s, biome);
    let crown = y - (h - 1);
    &&& s == BlockType::Sapling || s == BlockType::BirchSapling
    &&& s.spec_can_stay_on(f(x, y + 1))
    &&& crown - 3 >= 0
    &&& forall|dy: int| 0 <= dy < h ==> tree_replaceable(#[trigger] f(x, y - dy))
    &&& forall|r: int, lx: int|
        0 <= r <= 2 && x - crown_width(biome, r) <= lx <= x + crown_width(biome, r) ==> (tree_replaceable(
            #[trigger] f(lx, crown - 2 + r),
        ) || f(lx, crown - 2 + r) == leaf)
    &&& tree_capped(biome) ==> (tree_replaceable(f(x, crown - 3)) || f(x, crown - 3) == leaf)
}

/// The placements growing the sapling at (x, y) into a tree: the trunk from
/// the bottom up, then the three crown rows from the top and the cap, whose
/// leaves only go into air (the flag).
pub open spec fn tree_plan(x: int, y: int, s: BlockType, biome: BiomeType) -> Seq<(i32, i32, BlockType, bool)> {
    let (wood, leaf) = tree_blocks(s, biome);
    let h = tree_height(x as i32, y as i32, s, biome);
    let crown = y - (h - 1);
    let trunk = Seq::new(h as nat, |k: int| (x as i32, (y - k) as i32, wood, false));
    let row = |r: int|
        Seq::new(
            (2 * crown_width(biome, r) + 1) as nat,
            |k: int| ((x - crown_width(biome, r) + k) as i32, (crown - 2 + r) as i32, leaf, true),
        );
    let cap = if tree_capped(biome) {
        seq![(x as i32, (crown - 3) as i32, leaf, true)]
    } else {
        Seq::empty()
    };
    trunk + row(0) + row(1) + row(2) + cap
}

/// The blocks after the placements of `plan` in turn, skipping a flagged
/// one whose cell is not air by then.
pub open spec fn after_plan_in(
    f: spec_fn(int, int) -> BlockType,
    loaded: spec_fn(int) -> bool,
    plan: Seq<(i32, i32, BlockType, bool)>,
) -> spec_fn(int, int) -> BlockType
    decreases plan.len(),
{
    if plan.len() == 0 {
        f
    } else {
        let g = after_plan_in(f, loaded, plan.drop_last());
        let p = plan.last();
        if p.3 && g(p.0 as int, p.1 as int) != BlockType::Air {
            g
        } else {
            after_set_in(g, loaded, p.0 as int, p.1 as int, p.2)
        }
    }
}

/// What the placements of `plan` set loose.
pub open spec fn drops_after_plan_in(
    f: spec_fn(int, int) -> BlockType,
    loaded: spec_fn(int) -> bool,
    plan: Seq<(i32, i32, BlockType, bool)>,
) -> Seq<(i32, i32, ItemType)>
    decreases plan.len(),
{
    if plan.len() == 0 {
        Seq::empty()
    } else {
        let g = after_plan_in(f, loaded, plan.drop_last());
        let p = plan.last();
        drops_after_plan_in(f, loaded, plan.drop_last()) + if p.3 && g(p.0 as int, p.1 as int) != BlockType::Air {
            Seq::empty()
        } else {
            drops_after_set_in(g, loaded, p.0 as int, p.1 as int, p.2)
        }
    }
}

/// The blocks after growing the sapling at (x, y) when it has room.
pub open spec fn after_grow_in(
    f: spec_fn(int, int) -> BlockType,
    loaded: spec_fn(int) -> bool,
    bio: spec_fn(int) -> BiomeType,
    x: int,
    y: int,
) -> spec_fn(int, int) -> BlockType {
    if tree_fits_in(f, bio, x, y) {
        after_plan_in(f, loaded, tree_plan(x, y, f(x, y), bio(x)))
    } else {
        f
    }
}

/// What growing the sapling at (x, y) sets loose.
pub open spec fn drops_after_grow_in(
    f: spec_fn(int, int) -> BlockType,
    loaded: spec_fn(int) -> bool,
    bio: spec_fn(int) -> BiomeType,
    x: int,
    y: int,
) -> Seq<(i32, i32, ItemType)> {
    if tree_fits_in(f, bio, x, y) {
        drops_after_plan_in(f, loaded, tree_plan(x, y, f(x, y), bio(x)))
    } else {
        Seq::empty()
    }
}

/// The blocks after growing each sapling of `gs` in turn.
pub open spec fn after_grows_in(
    f: spec_fn(int, int) -> BlockType,
    loaded: spec_fn(int) -> bool,
    bio: spec_fn(int) -> BiomeType,
    gs: Seq<(i32, i32)>,
) -> spec_fn(int, int) -> BlockType
    decreases gs.len(),
{
    if gs.len() == 0 {
        f
    } else {
        after_grow_in(after_grows_in(f, loaded, bio, gs.drop_last()), loaded, bio, gs.last().0 as int, gs.last().1 as int)
    }
}

/// What growing each sapling of `gs` in turn sets loose.
pub open spec fn drops_after_grows_in(
    f: spec_fn(int, int) -> BlockType,
    loaded: spec_fn(int) -> bool,
    bio: spec_fn(int) -> BiomeType,
    gs: Seq<(i32, i32)>,
) -> Seq<(i32, i32, ItemType)>
    decreases gs.len(),
{
    if gs.len() == 0 {
        Seq::empty()
    } else {
        drops_after_grows_in(f, loaded, bio, gs.drop_last()) + drops_after_grow_in(
            after_grows_in(f, loaded, bio, gs.drop_last()),
            loaded,
            bio,
            gs.last().0 as int,
            gs.last().1 as int,
        )
    }
}

/// What the farming tick does at (x, y) of the blocks `f` in phase `phase`,
/// `lucky` telling whether a crop there wins its growth roll: the changes,
/// the items set loose, and the saplings to grow.
///
/// Farmland near water soaks to 7, dries one step away from it, and dry
/// farmland under air reverts to dirt when due; crops break off anything
/// but farmland and grow one stage when lucky; saplings break off what
/// cannot hold them and grow when due and there is room; sugar cane breaks
/// (dropping itself) without support, and grows a block while under three
/// tall when due; nether wart breaks (dropping its yield) off soul sand and
/// ripens a stage when due.
pub open spec fn farm_cell_in(
    f: spec_fn(int, int) -> BlockType,
    bio: spec_fn(int) -> BiomeType,
    phase: i32,
    lucky: bool,
    x: int,
    y: int,
) -> (Seq<(i32, i32, BlockType)>, Seq<(i32, i32, ItemType)>, Seq<(i32, i32)>) {
    let b = f(x, y);
    let xi = x as i32;
    let yi = y as i32;
    let none = (Seq::<(i32, i32, BlockType)>::empty(), Seq::<(i32, i32, ItemType)>::empty(), Seq::<(i32, i32)>::empty());
    match b {
        BlockType::Farmland(m) => {
            let wet = farmland_water_in(f, x, y);
            if wet && m < 7 {
                (seq![(xi, yi, BlockType::Farmland(7))], Seq::empty(), Seq::empty())
            } else if !wet && m > 0 {
                (seq![(xi, yi, BlockType::Farmland((m - 1) as u8))], Seq::empty(), Seq::empty())
            } else if !wet && m == 0 && f(x, y - 1) == BlockType::Air && spec_dry_farmland_revert_due_at(xi, yi, phase) {
                (seq![(xi, yi, BlockType::Dirt)], Seq::empty(), Seq::empty())
            } else {
                none
            }
        },
        BlockType::Crops(stage) => {
            if f(x, y + 1) is Farmland {
                if stage < 7 && lucky {
                    (seq![(xi, yi, BlockType::Crops((stage + 1) as u8))], Seq::empty(), Seq::empty())
                } else {
                    none
                }
            } else {
                (seq![(xi, yi, BlockType::Air)], Seq::empty(), Seq::empty())
            }
        },
        BlockType::Sapling | BlockType::BirchSapling => {
            if !b.spec_can_stay_on(f(x, y + 1)) {
                (seq![(xi, yi, BlockType::Air)], Seq::empty(), Seq::empty())
            } else if spec_sapling_growth_due_at(xi, yi, phase) && tree_fits_in(f, bio, x, y) {
                (Seq::empty(), Seq::empty(), seq![(xi, yi)])
            } else {
                none
            }
        },
        BlockType::SugarCane => {
            if !stays_over(BlockType::SugarCane, f(x, y + 1), f(x - 1, y + 1), f(x + 1, y + 1)) {
                (seq![(xi, yi, BlockType::Air)], seq![(xi, yi, ItemType::SugarCane)], Seq::empty())
            } else if f(x, y - 1) == BlockType::Air && cane_height_in(f, x, y) < 3 && spec_sugar_cane_growth_due_at(
                xi,
                yi,
                phase,
            ) {
                (seq![(xi, (y - 1) as i32, BlockType::SugarCane)], Seq::empty(), Seq::empty())
            } else {
                none
            }
        },
        BlockType::NetherWart(stage) => {
            if !b.spec_can_stay_on(f(x, y + 1)) {
                (seq![(xi, yi, BlockType::Air)], Seq::new(
                    spec_nether_wart_drop_count_at(xi, yi, stage >= 3) as nat,
                    |i: int| (xi, yi, ItemType::NetherWart),
                ), Seq::empty())
            } else if stage < 3 && spec_nether_wart_growth_due_at(xi, yi, phase) {
                (seq![(xi, yi, BlockType::NetherWart((stage + 1) as u8))], Seq::empty(), Seq::empty())
            } else {
                none
            }
        },
        _ => none,
    }
}

/// The farming results of scan positions `0..n` over the chunks `order`
/// within two of `center`, `draws[p]` giving the growth roll of a crop at
/// scan position `p`.
pub open spec fn farm_upto(
    f: spec_fn(int, int) -> BlockType,
    bio: spec_fn(int) -> BiomeType,
    order: Seq<i32>,
    center: int,
    phase: i32,
    draws: Seq<bool>,
    n: int,
) -> (Seq<(i32, i32, BlockType)>, Seq<(i32, i32, ItemType)>, Seq<(i32, i32)>)
    decreases n,
{
    if n <= 0 {
        (Seq::empty(), Seq::empty(), Seq::empty())
    } else {
        let prev = farm_upto(f, bio, order, center, phase, draws, n - 1);
        let p = n - 1;
        let cx = order[p / 4096] as int;
        let c = p % 4096;
        let x = cx * 32 + c % 32;
        let y = c / 32;
        if -2 <= cx - center <= 2 {
            let cell = farm_cell_in(f, bio, phase, p < draws.len() && draws[p], x, y);
            (prev.0 + cell.0, prev.1 + cell.1, prev.2 + cell.2)
        } else {
            prev
        }
    }
}

/// The farming results of the first `n` positions read only the first `n`
/// growth rolls.
pub proof fn lemma_farm_draws(
    f: spec_fn(int, int) -> BlockType,
    bio: spec_fn(int) -> BiomeType,
    order: Seq<i32>,
    center: int,
    phase: i32,
    a: Seq<bool>,
    b: Seq<bool>,
    n: int,
)
    requires
        0 <= n <= a.len(),
        n <= b.len(),
        forall|p: int| 0 <= p < n ==> a[p] == b[p],
    ensures
        farm_upto(f, bio, order, center, phase, a, n) == farm_upto(f, bio, order, center, phase, b, n),
    decreases n,
{
    if n > 0 {
        lemma_farm_draws(f, bio, order, center, phase, a, b, n - 1);
    }
}

/// rand's `Rng::gen_ratio` on the thread-local generator: true with
/// probability `numerator / denominator`. rand documents that it is always
/// true when the two are equal and always false for a zero numerator; which
/// outcome a call gives is not stated otherwise.
#[verifier::external_body]
fn chance(numerator: u32, denominator: u32) -> (r: bool)
    requires
        0 < denominator,
        numerator <= denominator,
    ensures
        numerator == denominator ==> r,
        numerator == 0 ==> !r,
{
    rand::thread_rng().gen_ratio(numerator, denominator)
}

/// The trunk height of a tree grown at (x, y).
fn sapling_tree_height_for(x: i32, y: i32, sapling: BlockType, biome: BiomeType) -> (r: i32)
    ensures
        r == tree_height(x, y, sapling, biome),
        3 <= r <= 7,
{
    let variation = rem_euclid_i32(x.wrapping_mul(17) ^ y.wrapping_mul(13), 3);
    let low = if variation < 1 { variation } else { 1 };
    if sapling == BlockType::BirchSapling {
        4 + low
    } else {
        match biome {
            BiomeType::Jungle => 5 + variation,
            BiomeType::Taiga => 4 + low,
            BiomeType::Swamp => 4,
            BiomeType::Tundra | BiomeType::ExtremeHills => 4,
            _ => 3 + variation,
        }
    }
}

/// The wood and leaves a sapling grows into in `biome`.
fn tree_blocks_for(sapling: BlockType, biome: BiomeType) -> (r: (BlockType, BlockType))
    ensures
        r == tree_blocks(sapling, biome),
{
    if sapling == BlockType::BirchSapling || biome == BiomeType::Tundra || biome == BiomeType::ExtremeHills {
        (BlockType::BirchWood, BlockType::BirchLeaves)
    } else {
        (BlockType::Wood, BlockType::Leaves)
    }
}

/// Whether a growing tree may replace `b`.
fn is_tree_growth_replaceable(b: BlockType) -> (r: bool)
    ensures
        r == tree_replaceable(b),
{
    matches!(
        b,
        BlockType::Air
            | BlockType::Leaves
            | BlockType::BirchLeaves
            | BlockType::TallGrass
            | BlockType::RedFlower
            | BlockType::YellowFlower
            | BlockType::Sapling
            | BlockType::BirchSapling
    )
}

/// The half width of crown row `r`.
fn crown_width_for(biome: BiomeType, r: i32) -> (w: i32)
    ensures
        w == crown_width(biome, r as int),
        0 <= w <= 2,
{
    if biome == BiomeType::Taiga {
        if r == 0 { 0 } else { 1 }
    } else {
        if r == 0 { 1 } else { 2 }
    }
}

/// The placements growing the sapling `s` at (x, y) into a tree.
fn tree_plan_for(x: i32, y: i32, s: BlockType, biome: BiomeType) -> (r: Vec<(i32, i32, BlockType, bool)>)
    requires
        -0x4000_0000 <= x < 0x4000_0000,
        0 <= y < 128,
    ensures
        r@ == tree_plan(x as int, y as int, s, biome),
{
    let (wood, leaf) = tree_blocks_for(s, biome);
    let h = sapling_tree_height_for(x, y, s, biome);
    let crown = y - (h - 1);
    let mut plan: Vec<(i32, i32, BlockType, bool)> = Vec::new();
    let mut k: i32 = 0;
    while k < h
        invariant
            0 <= k <= h <= 7,
            0 <= y < 128,
            plan@ == Seq::new(k as nat, |j: int| (x as i32, (y - j) as i32, wood, false)),
        decreases h - k,
    {
        plan.push((x, y - k, wood, false));
        proof {
            assert(plan@ =~= Seq::new((k + 1) as nat, |j: int| (x as i32, (y - j) as i32, wood, false)));
        }
        k = k + 1;
    }
    let ghost trunk = plan@;
    let mut r: i32 = 0;
    while r < 3
        invariant
            0 <= r <= 3,
            -0x4000_0000 <= x < 0x4000_0000,
            -10 <= crown < 128,
            plan@ == trunk + (if r >= 1 {
                Seq::new((2 * crown_width(biome, 0) + 1) as nat, |j: int| ((x - crown_width(biome, 0) + j) as i32, (crown - 2 + 0) as i32, leaf, true))
            } else {
                Seq::empty()
            }) + (if r >= 2 {
                Seq::new((2 * crown_width(biome, 1) + 1) as nat, |j: int| ((x - crown_width(biome, 1) + j) as i32, (crown - 2 + 1) as i32, leaf, true))
            } else {
                Seq::empty()
            }) + (if r >= 3 {
                Seq::new((2 * crown_width(biome, 2) + 1) as nat, |j: int| ((x - crown_width(biome, 2) + j) as i32, (crown - 2 + 2) as i32, leaf, true))
            } else {
                Seq::empty()
            }),
        decreases 3 - r,
    {
        let w = crown_width_for(biome, r);
        let ghost before = plan@;
        let mut lx: i32 = x - w;
        while lx <= x + w
            invariant
                0 <= r < 3,
                0 <= w <= 2,
                w == crown_width(biome, r as int),
                -0x4000_0000 <= x < 0x4000_0000,
                -10 <= crown < 128,
                x - w <= lx <= x + w + 1,
                plan@ == before + Seq::new((lx - (x - w)) as nat, |j: int| ((x - w + j) as i32, (crown - 2 + r) as i32, leaf, true)),
            decreases x + w + 1 - lx,
        {
            plan.push((lx, crown - 2 + r, leaf, true));
            proof {
                assert(plan@ =~= before + Seq::new((lx + 1 - (x - w)) as nat, |j: int| ((x - w + j) as i32, (crown - 2 + r) as i32, leaf, true)));
            }
            lx = lx + 1;
        }
        proof {
            let row = Seq::new((2 * crown_width(biome, r as int) + 1) as nat, |j: int| ((x - crown_width(biome, r as int) + j) as i32, (crown - 2 + r) as i32, leaf, true));
            assert(plan@ =~= before + row);
        }
        r = r + 1;
        proof {
            assert(plan@ =~= trunk + (if r >= 1 {
                Seq::new((2 * crown_width(biome, 0) + 1) as nat, |j: int| ((x - crown_width(biome, 0) + j) as i32, (crown - 2 + 0) as i32, leaf, true))
            } else {
                Seq::empty()
            }) + (if r >= 2 {
                Seq::new((2 * crown_width(biome, 1) + 1) as nat, |j: int| ((x - crown_width(biome, 1) + j) as i32, (crown - 2 + 1) as i32, leaf, true))
            } else {
                Seq::empty()
            }) + (if r >= 3 {
                Seq::new((2 * crown_width(biome, 2) + 1) as nat, |j: int| ((x - crown_width(biome, 2) + j) as i32, (crown - 2 + 2) as i32, leaf, true))
            } else {
                Seq::empty()
            }));
        }
    }
    if biome == BiomeType::Taiga || biome == BiomeType::Jungle {
        plan.push((x, crown - 3, leaf, true));
    }
    proof {
        assert(plan@ =~= tree_plan(x as int, y as int, s, biome));
    }
    plan
}

impl World {
    /// Whether the block at (wx, wy) has the support it needs in this world.
    pub open spec fn stays_at(&self, wx: int, wy: int) -> bool {
        stays_over(
            self.block_at(wx, wy),
            self.block_at(wx, wy + 1),
            self.block_at(wx - 1, wy + 1),
            self.block_at(wx + 1, wy + 1),
        )
    }

    /// Whether sugar cane at (wx, wy) would be supported.
    pub open spec fn sugar_cane_supported(&self, wx: int, wy: int) -> bool {
        stays_over(
            BlockType::SugarCane,
            self.block_at(wx, wy + 1),
            self.block_at(wx - 1, wy + 1),
            self.block_at(wx + 1, wy + 1),
        )
    }

    /// Whether water or lava touches (wx, wy) from a side, above or below.
    pub open spec fn fluid_adjacent(&self, wx: int, wy: int) -> bool {
        ||| self.block_at(wx - 1, wy).spec_is_fluid()
        ||| self.block_at(wx + 1, wy).spec_is_fluid()
        ||| self.block_at(wx, wy - 1).spec_is_fluid()
        ||| self.block_at(wx, wy + 1).spec_is_fluid()
    }

    /// The world's blocks as a function of column and row.
    pub open spec fn blocks_fn(&self) -> spec_fn(int, int) -> BlockType {
        |x: int, y: int| self.block_at(x, y)
    }

    /// The world's loaded chunk columns as a predicate.
    pub open spec fn loaded_fn(&self) -> spec_fn(int) -> bool {
        |cx: int| self.is_loaded(cx)
    }

    /// See `run_top_in`.
    pub open spec fn run_top(&self, wx: int, y: int) -> int {
        run_top_in(self.blocks_fn(), wx, y)
    }

    /// See `run_drops_in`.
    pub open spec fn run_drops(&self, wx: int, hi: int, lo: int) -> Seq<(i32, i32, ItemType)> {
        run_drops_in(self.blocks_fn(), wx, hi, lo)
    }

    /// See `first_removed_in`.
    pub open spec fn first_removed(&self, wx: int, wy: int, b: BlockType) -> int {
        first_removed_in(self.blocks_fn(), wx, wy, b)
    }

    /// See `top_removed_in`.
    pub open spec fn top_removed(&self, wx: int, wy: int, b: BlockType) -> int {
        top_removed_in(self.blocks_fn(), wx, wy, b)
    }

    /// See `set_applies_in`.
    pub open spec fn set_applies(&self, wx: int, wy: int, b: BlockType) -> bool {
        set_applies_in(self.blocks_fn(), self.loaded_fn(), wx, wy, b)
    }

    /// See `block_after_set_in`.
    pub open spec fn block_after_set(&self, wx: int, wy: int, b: BlockType, x: int, y: int) -> BlockType {
        block_after_set_in(self.blocks_fn(), self.loaded_fn(), wx, wy, b, x, y)
    }

    /// See `drops_after_set_in`.
    pub open spec fn drops_after_set(&self, wx: int, wy: int, b: BlockType) -> Seq<(i32, i32, ItemType)> {
        drops_after_set_in(self.blocks_fn(), self.loaded_fn(), wx, wy, b)
    }

    /// Whether the block at (world_x, world_y) keeps the support it needs.
    fn block_stays(&self, world_x: i32, world_y: i32) -> (r: bool)
        requires
            self.wf(),
            i32::MIN < world_x < i32::MAX,
            i32::MIN < world_y < i32::MAX,
        ensures
            r == self.stays_at(world_x as int, world_y as int),
    {
        let block = self.get_block(world_x, world_y);
        if !block.needs_bottom_support() {
            return true;
        }
        if block == BlockType::SugarCane {
            self.can_support_sugar_cane_at(world_x, world_y)
        } else {
            block.can_stay_on(self.get_block(world_x, world_y + 1))
        }
    }

    /// Whether sugar cane could stand at (wx, wy): on sugar cane, or on
    /// grass, dirt or sand with water beside that ground.
    pub fn can_support_sugar_cane_at(&self, wx: i32, wy: i32) -> (r: bool)
        requires
            self.wf(),
            i32::MIN < wx < i32::MAX,
            wy < i32::MAX,
        ensures
            r == self.sugar_cane_supported(wx as int, wy as int),
    {
        let ground = self.get_block(wx, wy + 1);
        if ground == BlockType::SugarCane {
            return true;
        }
        if !(ground == BlockType::Grass || ground == BlockType::Dirt || ground == BlockType::Sand) {
            return false;
        }
        matches!(self.get_block(wx - 1, wy + 1), BlockType::Water(_))
            || matches!(self.get_block(wx + 1, wy + 1), BlockType::Water(_))
    }

    /// Whether water or lava touches (world_x, world_y).
    fn has_adjacent_fluid(&self, world_x: i32, world_y: i32) -> (r: bool)
        requires
            self.wf(),
            i32::MIN < world_x < i32::MAX,
            i32::MIN < world_y < i32::MAX,
        ensures
            r == self.fluid_adjacent(world_x as int, world_y as int),
    {
        self.get_block(world_x - 1, world_y).is_fluid() || self.get_block(world_x + 1, world_y).is_fluid()
            || self.get_block(world_x, world_y - 1).is_fluid() || self.get_block(world_x, world_y + 1).is_fluid()
    }

    /// The chest rule at a replaced cell: a chest's inventory goes with it, a
    /// new chest gets an empty 27-slot inventory, other cells keep theirs.
    pub open spec fn chest_after_replace(prev: BlockType, b: BlockType, before: Option<Inventory>, after: Option<Inventory>) -> bool {
        &&& prev == b ==> after == before
        &&& prev != b && prev == BlockType::Chest ==> after is None
        &&& prev != b && prev != BlockType::Chest && b != BlockType::Chest ==> after == before
        &&& prev != b && prev != BlockType::Chest && b == BlockType::Chest ==> (after matches Some(inv)
            && inv.capacity == 27 && inv.slots@ == Seq::new(27, |i: int| None::<super::inventory::ItemStack>))
    }

    /// Replaces the block at (world_x, world_y) in its chunk and nothing
    /// else; returns the block that was there.
    fn store_block(&mut self, world_x: i32, world_y: i32, block: BlockType) -> (prev: BlockType)
        requires
            old(self).wf(),
        ensures
            final(self).wf(),
            prev == old(self).block_at(world_x as int, world_y as int),
            final(self).same_columns(old(self)),
            final(self).same_setting(old(self)),
            final(self).recent_environment_drops == old(self).recent_environment_drops,
            final(self).active_fluid_chunks == old(self).active_fluid_chunks,
            forall|x: int, y: int| #[trigger] final(self).block_at(x, y) == if x == world_x && y == world_y
                && 0 <= world_y < 128 && old(self).is_loaded(chunk_col(world_x as int)) {
                block
            } else {
                old(self).block_at(x, y)
            },
            forall|x: int, y: int| !(x == world_x && y == world_y) ==> #[trigger] final(self).chest_at(x, y)
                == old(self).chest_at(x, y),
            0 <= world_y < 128 && old(self).is_loaded(chunk_col(world_x as int)) ==> Self::chest_after_replace(
                prev,
                block,
                old(self).chest_at(world_x as int, world_y as int),
                final(self).chest_at(world_x as int, world_y as int),
            ),
    {
        if world_y < 0 || world_y >= CHUNK_HEIGHT as i32 {
            return BlockType::Air;
        }
        let (cx, lx) = split_world_x(world_x);
        match self.find_slot(cx) {
            None => BlockType::Air,
            Some(i) => {
                let prev = self.chunks[i].get_block(lx, world_y as usize);
                let ghost s0 = self.chunks@;
                self.chunks[i].set_block(lx, world_y as usize, block);
                proof {
                    let t = self.chunks@;
                    assert(t == s0.update(i as int, t[i as int]));
                    lemma_chunk_replaced(s0, i as int, t[i as int]);
                    lemma_seq_slot(s0, i as int);
                    let idx = cell_index(lx as int, world_y as int);
                    s0[i as int].lemma_wf_views();
                    t[i as int].lemma_wf_views();
                    assert forall|x: int, y: int| #[trigger] self.block_at(x, y) == if x == world_x && y == world_y
                        && 0 <= world_y < 128 && old(self).is_loaded(chunk_col(world_x as int)) {
                        block
                    } else {
                        old(self).block_at(x, y)
                    } by {
                        if 0 <= y < 128 && old(self).is_loaded(chunk_col(x)) {
                            let k = seq_slot(s0, chunk_col(x));
                            assert(seq_slot(t, chunk_col(x)) == k);
                            assert(0 <= k < s0.len() && s0[k].view_x() == chunk_col(x));
                            if k == i as int {
                                assert(chunk_col(x) == cx);
                                let j = cell_index(col_in_chunk(x), y);
                                assert(x == 32 * chunk_col(x) + col_in_chunk(x));
                                assert(world_x == 32 * chunk_col(world_x as int) + col_in_chunk(world_x as int));
                                if x == world_x && y == world_y {
                                    assert(j == idx);
                                } else {
                                    assert(j != idx);
                                    assert(0 <= j < 4096);
                                }
                            } else {
                                assert(t[k] == s0[k]);
                            }
                        }
                    }
                    assert forall|x: int, y: int| !(x == world_x && y == world_y) implies #[trigger] self.chest_at(x, y)
                        == old(self).chest_at(x, y) by {
                        if 0 <= y < 128 && old(self).is_loaded(chunk_col(x)) {
                            let k = seq_slot(s0, chunk_col(x));
                            assert(seq_slot(t, chunk_col(x)) == k);
                            assert(0 <= k < s0.len() && s0[k].view_x() == chunk_col(x));
                            if k == i as int {
                                assert(chunk_col(x) == cx);
                                let j = cell_index(col_in_chunk(x), y);
                                assert(x == 32 * chunk_col(x) + col_in_chunk(x));
                                assert(world_x == 32 * chunk_col(world_x as int) + col_in_chunk(world_x as int));
                                if x == world_x && y == world_y {
                                    assert(j == idx);
                                } else {
                                    assert(j != idx);
                                    assert(0 <= j < 4096);
                                }
                            } else {
                                assert(t[k] == s0[k]);
                            }
                        }
                    }
                }
                prev
            },
        }
    }

    /// Records what breaking `block` for want of support at (world_x,
    /// world_y) sets loose.
    fn drop_items_for_support_break(&mut self, world_x: i32, world_y: i32, block: BlockType)
        ensures
            final(self).recent_environment_drops@ == old(self).recent_environment_drops@ + support_drops(world_x, world_y, block),
            final(self).chunks == old(self).chunks,
            final(self).active_fluid_chunks == old(self).active_fluid_chunks,
            final(self).same_setting(old(self)),
    {
        let ghost d0 = self.recent_environment_drops@;
        match block {
            BlockType::RedFlower => {
                self.recent_environment_drops.push((world_x, world_y, ItemType::RedFlower));
            },
            BlockType::YellowFlower => {
                self.recent_environment_drops.push((world_x, world_y, ItemType::YellowFlower));
            },
            BlockType::DeadBush => {
                self.recent_environment_drops.push((world_x, world_y, ItemType::Stick));
            },
            BlockType::TallGrass => {
                if tall_grass_drops_seed_at(world_x, world_y) {
                    self.recent_environment_drops.push((world_x, world_y, ItemType::WheatSeeds));
                }
            },
            BlockType::Crops(stage) => {
                self.recent_environment_drops.push((world_x, world_y, ItemType::WheatSeeds));
                if stage >= 7 {
                    self.recent_environment_drops.push((world_x, world_y, ItemType::Wheat));
                }
            },
            BlockType::Sapling => {
                self.recent_environment_drops.push((world_x, world_y, ItemType::Sapling));
            },
            BlockType::BirchSapling => {
                self.recent_environment_drops.push((world_x, world_y, ItemType::BirchSapling));
            },
            BlockType::NetherWart(stage) => {
                let drop_count = nether_wart_drop_count_at(world_x, world_y, stage >= 3);
                let mut n: u32 = 0;
                while n < drop_count
                    invariant
                        n <= drop_count,
                        self.recent_environment_drops@ == d0 + Seq::new(
                            n as nat,
                            |i: int| (world_x, world_y, ItemType::NetherWart),
                        ),
                        self.chunks == old(self).chunks,
                        self.active_fluid_chunks == old(self).active_fluid_chunks,
                        self.same_setting(old(self)),
                    decreases drop_count - n,
                {
                    self.recent_environment_drops.push((world_x, world_y, ItemType::NetherWart));
                    n = n + 1;
                    proof {
                        assert(self.recent_environment_drops@ =~= d0 + Seq::new(
                            n as nat,
                            |i: int| (world_x, world_y, ItemType::NetherWart),
                        ));
                    }
                }
            },
            BlockType::Cactus => {
                self.recent_environment_drops.push((world_x, world_y, ItemType::Cactus));
            },
            BlockType::SugarCane => {
                self.recent_environment_drops.push((world_x, world_y, ItemType::SugarCane));
            },
            _ => {},
        }
        proof {
            assert(self.recent_environment_drops@ =~= d0 + support_drops(world_x, world_y, block));
        }
    }

    /// Breaks the block at (world_x, world_y) when it lacks the support it
    /// needs: records its drops, leaves air, and wakes the fluids of its
    /// chunk and both neighbours when water or lava touches the cell. True
    /// when it broke.
    fn prune_unsupported_block_at(&mut self, world_x: i32, world_y: i32) -> (removed: bool)
        requires
            old(self).wf(),
            i32::MIN < world_x < i32::MAX,
            i32::MIN < world_y < i32::MAX,
        ensures
            final(self).wf(),
            final(self).same_columns(old(self)),
            final(self).same_setting(old(self)),
            removed == !old(self).stays_at(world_x as int, world_y as int),
            !removed ==> final(self).chunks == old(self).chunks && final(self).recent_environment_drops
                == old(self).recent_environment_drops && final(self).active_fluid_chunks == old(self).active_fluid_chunks,
            removed ==> forall|x: int, y: int| #[trigger] final(self).block_at(x, y) == if x == world_x && y
                == world_y {
                BlockType::Air
            } else {
                old(self).block_at(x, y)
            },
            removed ==> final(self).environment_drops() == old(self).environment_drops() + support_drops(
                world_x,
                world_y,
                old(self).block_at(world_x as int, world_y as int),
            ),
            old(self).fluid_frontier().subset_of(final(self).fluid_frontier()),
            final(self).fluid_frontier().subset_of(
                old(self).fluid_frontier().union(column_and_neighbors(chunk_col(world_x as int))),
            ),
            forall|x: int, y: int| #[trigger] final(self).chest_at(x, y) == old(self).chest_at(x, y),
    {
        let block = self.get_block(world_x, world_y);
        if self.block_stays(world_x, world_y) {
            return false;
        }
        self.drop_items_for_support_break(world_x, world_y, block);
        let ghost w1 = *self;
        let prev = self.store_block(world_x, world_y, BlockType::Air);
        proof {
            assert(forall|x: int, y: int| #[trigger] w1.block_at(x, y) == old(self).block_at(x, y));
            assert(forall|x: int, y: int| #[trigger] w1.chest_at(x, y) == old(self).chest_at(x, y));
            assert(block.spec_needs_bottom_support());
            assert(block != BlockType::Chest);
        }
        if self.has_adjacent_fluid(world_x, world_y) {
            let (cx, _) = split_world_x(world_x);
            self.activate_fluid_chunk_neighbors(cx);
        }
        proof {
            assert(old(self).fluid_frontier() == w1.fluid_frontier());
        }
        true
    }

    /// Breaks, from row `world_y` upwards, the blocks of column `world_x`
    /// left without the support they need, as far as the run goes.
    fn prune_column_from(&mut self, world_x: i32, world_y: i32, start: i32)
        requires
            old(self).wf(),
            i32::MIN < world_x < i32::MAX,
            0 <= start <= world_y < 128,
            old(self).block_at(world_x as int, start as int) == BlockType::Air,
        ensures
            final(self).wf(),
            final(self).same_columns(old(self)),
            final(self).same_setting(old(self)),
            forall|x: int, y: int| #[trigger] final(self).block_at(x, y) == if x == world_x
                && old(self).run_top(world_x as int, start as int) <= y < start {
                BlockType::Air
            } else {
                old(self).block_at(x, y)
            },
            final(self).environment_drops() == old(self).environment_drops() + old(self).run_drops(
                world_x as int,
                start - 1,
                old(self).run_top(world_x as int, start as int),
            ),
            old(self).fluid_frontier().subset_of(final(self).fluid_frontier()),
            final(self).fluid_frontier().subset_of(
                old(self).fluid_frontier().union(column_and_neighbors(chunk_col(world_x as int))),
            ),
            forall|x: int, y: int| #[trigger] final(self).chest_at(x, y) == old(self).chest_at(x, y),
    {
        let mut y = start;
        let mut done = false;
        let ghost w0 = *self;
        let ghost top = w0.run_top(world_x as int, start as int);
        while y > 0 && !done
            invariant
                self.wf(),
                done ==> top == y,
                self.same_columns(&w0),
                self.same_setting(&w0),
                0 <= y <= start,
                w0.run_top(world_x as int, y as int) == top,
                forall|x: int, yy: int| #[trigger] self.block_at(x, yy) == if x == world_x && y <= yy < start {
                    BlockType::Air
                } else {
                    w0.block_at(x, yy)
                },
                self.block_at(world_x as int, y as int) == BlockType::Air,
                w0.block_at(world_x as int, start as int) == BlockType::Air,
                self.environment_drops() == w0.environment_drops() + w0.run_drops(world_x as int, start - 1, y as int),
                w0.fluid_frontier().subset_of(self.fluid_frontier()),
                self.fluid_frontier().subset_of(w0.fluid_frontier().union(column_and_neighbors(chunk_col(world_x as int)))),
                forall|x: int, yy: int| #[trigger] self.chest_at(x, yy) == w0.chest_at(x, yy),
                i32::MIN < world_x < i32::MAX,
                start < 128,
            decreases y + if done { 0int } else { 1int },
        {
            let ghost before = *self;
            let removed = self.prune_unsupported_block_at(world_x, y - 1);
            proof {
                assert(before.block_at(world_x as int, y - 1) == w0.block_at(world_x as int, y - 1));
                lemma_nothing_stays_on_air(
                    w0.block_at(world_x as int, y - 1),
                    before.block_at(world_x - 1, y as int),
                    before.block_at(world_x + 1, y as int),
                );
            }
            if !removed {
                done = true;
            } else {
                proof {
                    assert(w0.run_drops(world_x as int, start - 1, y - 1) == w0.run_drops(world_x as int, start - 1, y as int)
                        + support_drops(world_x, (y - 1) as i32, w0.block_at(world_x as int, y - 1)));
                }
                y = y - 1;
            }
        }
    }

    /// The run above row `y` depends only on the rows above it.
    proof fn lemma_run_top_agree(a: &World, b: &World, wx: int, y: int)
        requires
            forall|yy: int| 0 <= yy < y ==> #[trigger] a.block_at(wx, yy) == b.block_at(wx, yy),
        ensures
            a.run_top(wx, y) == b.run_top(wx, y),
        decreases y,
    {
        if y > 0 {
            assert(a.block_at(wx, y - 1) == b.block_at(wx, y - 1));
            Self::lemma_run_top_agree(a, b, wx, y - 1);
        }
    }

    /// The run above row `y` ends at or above it, inside the world.
    proof fn lemma_run_top_bounds(w: &World, wx: int, y: int)
        requires
            0 <= y,
        ensures
            0 <= w.run_top(wx, y) <= y,
        decreases y,
    {
        if y > 0 {
            Self::lemma_run_top_bounds(w, wx, y - 1);
        }
    }

    /// The drops of a run of rows depend only on those rows.
    proof fn lemma_run_drops_agree(a: &World, b: &World, wx: int, hi: int, lo: int)
        requires
            forall|yy: int| lo <= yy <= hi ==> #[trigger] a.block_at(wx, yy) == b.block_at(wx, yy),
        ensures
            a.run_drops(wx, hi, lo) == b.run_drops(wx, hi, lo),
        decreases hi + 1 - lo,
    {
        if lo <= hi {
            assert(a.block_at(wx, lo) == b.block_at(wx, lo));
            Self::lemma_run_drops_agree(a, b, wx, hi, lo + 1);
        }
    }

    /// The drops of rows `hi` down to `lo` start with those of row `hi`.
    proof fn lemma_run_drops_first(w: &World, wx: int, hi: int, lo: int)
        requires
            lo <= hi,
        ensures
            w.run_drops(wx, hi, lo) == support_drops(wx as i32, hi as i32, w.block_at(wx, hi)) + w.run_drops(
                wx,
                hi - 1,
                lo,
            ),
        decreases hi - lo,
    {
        if lo < hi {
            Self::lemma_run_drops_first(w, wx, hi, lo + 1);
            assert(w.run_drops(wx, hi, lo) =~= support_drops(wx as i32, hi as i32, w.block_at(wx, hi)) + w.run_drops(
                wx,
                hi - 1,
                lo,
            ));
        } else {
            assert(w.run_drops(wx, hi, hi + 1) =~= Seq::<(i32, i32, ItemType)>::empty());
            assert(w.run_drops(wx, hi - 1, hi) =~= Seq::<(i32, i32, ItemType)>::empty());
            assert(w.run_drops(wx, hi, lo) =~= support_drops(wx as i32, hi as i32, w.block_at(wx, hi)) + w.run_drops(
                wx,
                hi - 1,
                lo,
            ));
        }
    }

    /// Places `block` at (world_x, world_y) (nothing happens above or below
    /// the world, where no chunk is loaded, or when the block is already
    /// there). A real change wakes the fluids of the chunk and both
    /// neighbours when water or lava is replaced, placed or touches the
    /// cell; then blocks left without the support they need break, the
    /// placed one first, upwards one after the other, and their drops are
    /// recorded.
    #[verifier::rlimit(40)]
    pub fn set_block(&mut self, world_x: i32, world_y: i32, block: BlockType)
        requires
            old(self).wf(),
            i32::MIN < world_x < i32::MAX,
        ensures
            final(self).wf(),
            final(self).same_columns(old(self)),
            final(self).same_setting(old(self)),
            forall|x: int, y: int| #[trigger] final(self).block_at(x, y) == old(self).block_after_set(
                world_x as int,
                world_y as int,
                block,
                x,
                y,
            ),
            final(self).environment_drops() == old(self).environment_drops() + old(self).drops_after_set(
                world_x as int,
                world_y as int,
                block,
            ),
            old(self).fluid_frontier().subset_of(final(self).fluid_frontier()),
            final(self).fluid_frontier().subset_of(
                old(self).fluid_frontier().union(column_and_neighbors(chunk_col(world_x as int))),
            ),
            !old(self).set_applies(world_x as int, world_y as int, block) ==> final(self).fluid_frontier()
                == old(self).fluid_frontier(),
            old(self).set_applies(world_x as int, world_y as int, block) && (old(self).block_at(
                world_x as int,
                world_y as int,
            ).spec_is_fluid() || block.spec_is_fluid() || old(self).fluid_adjacent(world_x as int, world_y as int))
                ==> column_and_neighbors(chunk_col(world_x as int)).subset_of(final(self).fluid_frontier()),
            forall|x: int, y: int| !(x == world_x && y == world_y) ==> #[trigger] final(self).chest_at(x, y)
                == old(self).chest_at(x, y),
            old(self).set_applies(world_x as int, world_y as int, block) ==> Self::chest_after_replace(
                old(self).block_at(world_x as int, world_y as int),
                block,
                old(self).chest_at(world_x as int, world_y as int),
                final(self).chest_at(world_x as int, world_y as int),
            ),
            !old(self).set_applies(world_x as int, world_y as int, block) ==> final(self).chest_at(
                world_x as int,
                world_y as int,
            ) == old(self).chest_at(world_x as int, world_y as int),
    {
        if world_y < 0 || world_y >= CHUNK_HEIGHT as i32 {
            return;
        }
        let (cx, _) = split_world_x(world_x);
        if !self.has_chunk(cx) {
            return;
        }
        let previous = self.store_block(world_x, world_y, block);
        if previous == block {
            return;
        }
        if previous.is_fluid() || block.is_fluid() || self.has_adjacent_fluid(world_x, world_y) {
            self.activate_fluid_chunk_neighbors(cx);
        }
        let ghost w1 = *self;
        let ghost wx = world_x as int;
        let ghost wy = world_y as int;
        let ghost first = old(self).first_removed(wx, wy, block);
        let ghost top = old(self).top_removed(wx, wy, block);
        proof {
            assert(forall|x: int, y: int| #[trigger] w1.block_at(x, y) == if x == wx && y == wy {
                block
            } else {
                old(self).block_at(x, y)
            });
        }
        if self.prune_unsupported_block_at(world_x, world_y) {
            let ghost w2 = *self;
            proof {
                assert(first == wy);
                assert forall|yy: int| 0 <= yy < wy implies #[trigger] w2.block_at(wx, yy) == old(self).block_at(
                    wx,
                    yy,
                ) by {}
                Self::lemma_run_top_agree(&w2, old(self), wx, wy);
                Self::lemma_run_top_bounds(old(self), wx, wy);
                Self::lemma_run_drops_agree(&w2, old(self), wx, wy - 1, top);
            }
            self.prune_column_from(world_x, world_y, world_y);
            proof {
                assert forall|x: int, y: int| #[trigger] self.block_at(x, y) == old(self).block_after_set(
                    wx,
                    wy,
                    block,
                    x,
                    y,
                ) by {
                    assert(self.block_at(x, y) == if x == wx && top <= y < wy {
                        BlockType::Air
                    } else {
                        w2.block_at(x, y)
                    });
                    assert(w2.block_at(x, y) == if x == wx && y == wy {
                        BlockType::Air
                    } else {
                        w1.block_at(x, y)
                    });
                }
            }
        } else if world_y > 0 && self.prune_unsupported_block_at(world_x, world_y - 1) {
            let ghost w2 = *self;
            proof {
                assert(first == wy - 1);
                assert forall|yy: int| 0 <= yy < wy - 1 implies #[trigger] w2.block_at(wx, yy) == old(self).block_at(
                    wx,
                    yy,
                ) by {}
                Self::lemma_run_top_agree(&w2, old(self), wx, wy - 1);
                Self::lemma_run_top_bounds(old(self), wx, wy - 1);
                Self::lemma_run_drops_agree(&w2, old(self), wx, wy - 2, top);
                Self::lemma_run_drops_first(old(self), wx, wy - 1, top);
            }
            self.prune_column_from(world_x, world_y, world_y - 1);
            proof {
                assert forall|x: int, y: int| #[trigger] self.block_at(x, y) == old(self).block_after_set(
                    wx,
                    wy,
                    block,
                    x,
                    y,
                ) by {
                    assert(self.block_at(x, y) == if x == wx && top <= y < wy - 1 {
                        BlockType::Air
                    } else {
                        w2.block_at(x, y)
                    });
                    assert(w2.block_at(x, y) == if x == wx && y == wy - 1 {
                        BlockType::Air
                    } else {
                        w1.block_at(x, y)
                    });
                }
            }
        } else {
            proof {
                assert(first == wy + 1);
                assert forall|x: int, y: int| #[trigger] self.block_at(x, y) == w1.block_at(x, y) by {}
            }
        }
    }

    /// The inventory of the chest at (world_x, world_y), if one is kept there.
    pub fn chest_inventory(&self, world_x: i32, world_y: i32) -> (r: Option<&Inventory>)
        requires
            self.wf(),
        ensures
            match r {
                Some(inv) => self.chest_at(world_x as int, world_y as int) == Some(*inv),
                None => self.chest_at(world_x as int, world_y as int) is None,
            },
    {
        if world_y < 0 || world_y >= CHUNK_HEIGHT as i32 {
            return None;
        }
        let (cx, lx) = split_world_x(world_x);
        match self.find_slot(cx) {
            Some(i) => self.chunks[i].chest_inventory(lx, world_y as usize),
            None => None,
        }
    }

    /// Mutable access to the inventory of the chest at (world_x, world_y), if
    /// one is kept there; edits through it land in that cell and nothing
    /// else changes.
    pub fn chest_inventory_mut(&mut self, world_x: i32, world_y: i32) -> (r: Option<&mut Inventory>)
        requires
            old(self).wf(),
        ensures
            final(self).wf(),
            final(self).same_columns(old(self)),
            final(self).same_setting(old(self)),
            final(self).environment_drops() == old(self).environment_drops(),
            final(self).fluid_frontier() == old(self).fluid_frontier(),
            forall|x: int, y: int| #[trigger] final(self).block_at(x, y) == old(self).block_at(x, y),
            match old(self).chest_at(world_x as int, world_y as int) {
                None => r is None && forall|x: int, y: int| #[trigger] final(self).chest_at(x, y)
                    == old(self).chest_at(x, y),
                Some(inv) => r is Some && *r.unwrap() == inv && forall|x: int, y: int| #[trigger] final(self).chest_at(x, y)
                    == if x == world_x && y == world_y {
                    Some(*final(r.unwrap()))
                } else {
                    old(self).chest_at(x, y)
                },
            },
    {
        if world_y < 0 || world_y >= CHUNK_HEIGHT as i32 {
            return None;
        }
        let (cx, lx) = split_world_x(world_x);
        match self.find_slot(cx) {
            Some(i) => {
                let ghost s0 = self.chunks@;
                let ghost idx = cell_index(lx as int, world_y as int);
                proof {
                    lemma_seq_slot(s0, i as int);
                    s0[i as int].lemma_wf_views();
                    lemma_chest_edits(s0, i as int, world_x as int, world_y as int);
                }
                let r = self.chunks[i].chest_inventory_mut(lx, world_y as usize);
                r
            },
            None => None,
        }
    }

    /// The inventory of the chest at (world_x, world_y), creating an empty
    /// one of `capacity` slots when the chest has none yet. None when no
    /// chest stands there (or its chunk is not loaded); blocks never change.
    pub fn ensure_chest_inventory(&mut self, world_x: i32, world_y: i32, capacity: usize) -> (r: Option<
        &mut Inventory,
    >)
        requires
            old(self).wf(),
        ensures
            final(self).wf(),
            final(self).same_columns(old(self)),
            final(self).same_setting(old(self)),
            final(self).environment_drops() == old(self).environment_drops(),
            final(self).fluid_frontier() == old(self).fluid_frontier(),
            forall|x: int, y: int| #[trigger] final(self).block_at(x, y) == old(self).block_at(x, y),
            old(self).block_at(world_x as int, world_y as int) != BlockType::Chest ==> r is None && forall|
                x: int,
                y: int,
            | #[trigger] final(self).chest_at(x, y) == old(self).chest_at(x, y),
            old(self).block_at(world_x as int, world_y as int) == BlockType::Chest ==> {
                &&& r is Some
                &&& forall|x: int, y: int| #[trigger] final(self).chest_at(x, y) == if x == world_x && y == world_y {
                    Some(*final(r.unwrap()))
                } else {
                    old(self).chest_at(x, y)
                }
                &&& match old(self).chest_at(world_x as int, world_y as int) {
                    Some(inv) => *r.unwrap() == inv,
                    None => r.unwrap().capacity == capacity && r.unwrap().slots@ == Seq::new(
                        capacity as nat,
                        |i: int| None::<super::inventory::ItemStack>,
                    ),
                }
            },
    {
        if world_y < 0 || world_y >= CHUNK_HEIGHT as i32 {
            return None;
        }
        let (cx, lx) = split_world_x(world_x);
        match self.find_slot(cx) {
            Some(i) => {
                let ghost s0 = self.chunks@;
                proof {
                    lemma_seq_slot(s0, i as int);
                    lemma_chest_edits(s0, i as int, world_x as int, world_y as int);
                }
                self.chunks[i].ensure_chest_inventory(lx, world_y as usize, capacity)
            },
            None => None,
        }
    }

    /// Takes the inventory of the chest at (world_x, world_y) out of the
    /// world; blocks never change.
    pub fn remove_chest_inventory(&mut self, world_x: i32, world_y: i32) -> (r: Option<Inventory>)
        requires
            old(self).wf(),
        ensures
            final(self).wf(),
            final(self).same_columns(old(self)),
            final(self).same_setting(old(self)),
            final(self).environment_drops() == old(self).environment_drops(),
            final(self).fluid_frontier() == old(self).fluid_frontier(),
            forall|x: int, y: int| #[trigger] final(self).block_at(x, y) == old(self).block_at(x, y),
            r == old(self).chest_at(world_x as int, world_y as int),
            forall|x: int, y: int| #[trigger] final(self).chest_at(x, y) == if x == world_x && y == world_y {
                None
            } else {
                old(self).chest_at(x, y)
            },
    {
        if world_y < 0 || world_y >= CHUNK_HEIGHT as i32 {
            return None;
        }
        let (cx, lx) = split_world_x(world_x);
        match self.find_slot(cx) {
            Some(i) => {
                let ghost s0 = self.chunks@;
                proof {
                    lemma_seq_slot(s0, i as int);
                    lemma_chest_edits(s0, i as int, world_x as int, world_y as int);
                }
                self.chunks[i].remove_chest_inventory(lx, world_y as usize)
            },
            None => None,
        }
    }

    /// The revision and a copy of the blocks of chunk column `chunk_x`, if it
    /// is loaded.
    pub fn chunk_column_snapshot(&self, chunk_x: i32) -> (r: Option<(u64, Vec<BlockType>)>)
        requires
            self.wf(),
        ensures
            match r {
                Some((rev, blocks)) => self.is_loaded(chunk_x as int) && rev == self.chunk_at(
                    chunk_x as int,
                ).spec_revision() && blocks@ == self.chunk_at(chunk_x as int).view_blocks(),
                None => !self.is_loaded(chunk_x as int),
            },
    {
        match self.find_slot(chunk_x) {
            Some(i) => Some((self.chunks[i].blocks_revision(), self.chunks[i].blocks_snapshot())),
            None => None,
        }
    }

    /// Replaces all blocks of the loaded chunk column `chunk_x` with a
    /// snapshot received from elsewhere (see `Chunk::apply_block_snapshot`).
    /// Refused (false, nothing changes) when the snapshot has the wrong size
    /// or the column is not loaded; bringing the column in first is the
    /// caller's part. A chunk that then holds water or lava wakes the fluids
    /// of it and its neighbours.
    pub fn apply_chunk_column_snapshot(&mut self, chunk_x: i32, blocks: &[BlockType]) -> (r: bool)
        requires
            old(self).wf(),
            i32::MIN < chunk_x < i32::MAX,
        ensures
            final(self).wf(),
            final(self).same_columns(old(self)),
            final(self).same_setting(old(self)),
            final(self).environment_drops() == old(self).environment_drops(),
            r == (blocks@.len() == cell_count() && old(self).is_loaded(chunk_x as int)),
            !r ==> final(self).view_chunks() == old(self).view_chunks() && final(self).fluid_frontier() == old(
                self,
            ).fluid_frontier(),
            forall|x: int, y: int| #[trigger] final(self).block_at(x, y) == if r && chunk_col(x) == chunk_x && 0 <= y
                < 128 {
                blocks@[cell_index(col_in_chunk(x), y)]
            } else {
                old(self).block_at(x, y)
            },
            forall|x: int, y: int| #[trigger] final(self).chest_at(x, y) == if r && chunk_col(x) == chunk_x && 0 <= y
                < 128 && blocks@[cell_index(col_in_chunk(x), y)] != BlockType::Chest {
                None
            } else {
                old(self).chest_at(x, y)
            },
            old(self).fluid_frontier().subset_of(final(self).fluid_frontier()),
            final(self).fluid_frontier().subset_of(old(self).fluid_frontier().union(column_and_neighbors(chunk_x as int))),
            r && kind_count(blocks@, ActivityKind::Fluid) > 0 ==> column_and_neighbors(chunk_x as int).subset_of(
                final(self).fluid_frontier(),
            ),
    {
        if blocks.len() != CHUNK_WIDTH * CHUNK_HEIGHT {
            return false;
        }
        match self.find_slot(chunk_x) {
            None => false,
            Some(i) => {
                let ghost s0 = self.chunks@;
                let applied = self.chunks[i].apply_block_snapshot(blocks);
                proof {
                    let t = self.chunks@;
                    assert(t == s0.update(i as int, t[i as int]));
                    lemma_seq_replace(s0, i as int, t[i as int]);
                    lemma_seq_slot(s0, i as int);
                    s0[i as int].lemma_wf_views();
                    t[i as int].lemma_wf_views();
                    assert forall|x: int, y: int| #[trigger] self.block_at(x, y) == if chunk_col(x) == chunk_x && 0
                        <= y < 128 {
                        blocks@[cell_index(col_in_chunk(x), y)]
                    } else {
                        old(self).block_at(x, y)
                    } by {
                        if chunk_col(x) == chunk_x && 0 <= y < 128 {
                            lemma_cell_of_column(x, x, y, y);
                        }
                    }
                    assert forall|x: int, y: int| #[trigger] self.chest_at(x, y) == if chunk_col(x) == chunk_x && 0
                        <= y < 128 && blocks@[cell_index(col_in_chunk(x), y)] != BlockType::Chest {
                        None
                    } else {
                        old(self).chest_at(x, y)
                    } by {
                        if chunk_col(x) == chunk_x && 0 <= y < 128 {
                            lemma_cell_of_column(x, x, y, y);
                            if blocks@ == s0[i as int].view_blocks() && blocks@[cell_index(col_in_chunk(x), y)]
                                != BlockType::Chest {
                                assert(!(s0[i as int].view_chests()[cell_index(col_in_chunk(x), y)] is Some));
                            }
                        }
                    }
                }
                if applied && self.chunks[i].has_fluids() {
                    self.activate_fluid_chunk_neighbors(chunk_x);
                }
                applied
            },
        }
    }

    /// Takes a chunk that was read from disk or generated into the world,
    /// with the climate of its 32 columns; `synchronous` tells whether it
    /// was brought in at once or arrived from the background workers. Its
    /// column leaves the request bookkeeping (a synchronous load of an
    /// already loaded column changes nothing); a column already loaded keeps
    /// its chunk (false). Otherwise the chunk is added, a generated one is
    /// listed among the new chunks, the load counters advance, and a chunk
    /// holding water or lava wakes the fluids of it and its neighbours.
    pub fn insert_loaded_chunk(
        &mut self,
        chunk: Chunk,
        biomes: Vec<BiomeType>,
        was_generated: bool,
        synchronous: bool,
    ) -> (r: bool)
        requires
            old(self).wf(),
            chunk.wf(),
            biomes@.len() == 32,
            valid_chunk_col(chunk.view_x() as int),
        ensures
            final(self).wf(),
            r == !old(self).is_loaded(chunk.view_x() as int),
            final(self).view_dimension() == old(self).view_dimension(),
            final(self).spec_tick() == old(self).spec_tick(),
            final(self).spec_save_key() == old(self).spec_save_key(),
            final(self).environment_drops() == old(self).environment_drops(),
            forall|cx: int| #[trigger] final(self).is_loaded(cx) == (old(self).is_loaded(cx) || cx == chunk.view_x()),
            forall|cx: int| old(self).is_loaded(cx) ==> #[trigger] final(self).chunk_at(cx) == old(self).chunk_at(cx),
            r ==> final(self).chunk_at(chunk.view_x() as int) == chunk,
            forall|x: int, y: int| !r || chunk_col(x) != chunk.view_x() ==> #[trigger] final(self).block_at(x, y)
                == old(self).block_at(x, y),
            r ==> forall|x: int| chunk_col(x) == chunk.view_x() ==> #[trigger] final(self).biome_at(x)
                == biomes@[col_in_chunk(x)],
            forall|x: int| old(self).is_loaded(chunk_col(x)) ==> #[trigger] final(self).biome_at(x) == old(
                self,
            ).biome_at(x),
            r && was_generated ==> final(self).generated_columns() == old(self).generated_columns().push(chunk.view_x()),
            !(r && was_generated) ==> final(self).generated_columns() == old(self).generated_columns(),
            old(self).fluid_frontier().subset_of(final(self).fluid_frontier()),
            final(self).fluid_frontier().subset_of(
                old(self).fluid_frontier().union(column_and_neighbors(chunk.view_x() as int)),
            ),
            r && chunk.has_kind(ActivityKind::Fluid) ==> column_and_neighbors(chunk.view_x() as int).subset_of(
                final(self).fluid_frontier(),
            ),
            !r ==> final(self).fluid_frontier() == old(self).fluid_frontier(),
    {
        let cx = chunk.column();
        if synchronous && self.has_chunk(cx) {
            return false;
        }
        remove_column(&mut self.pending_chunks, cx);
        remove_column(&mut self.queued_chunks, cx);
        remove_column(&mut self.in_flight_chunks, cx);
        if self.has_chunk(cx) {
            return false;
        }
        if chunk.has_fluids() {
            self.activate_fluid_chunk_neighbors(cx);
        }
        if was_generated {
            self.newly_generated_chunks.push(cx);
            if synchronous {
                self.chunk_metrics.sync_generated = self.chunk_metrics.sync_generated.saturating_add(1);
            } else {
                self.chunk_metrics.async_generated = self.chunk_metrics.async_generated.saturating_add(1);
            }
        } else if synchronous {
            self.chunk_metrics.sync_loaded = self.chunk_metrics.sync_loaded.saturating_add(1);
        } else {
            self.chunk_metrics.async_loaded = self.chunk_metrics.async_loaded.saturating_add(1);
        }
        let ghost s0 = self.chunks@;
        let ghost b0 = self.biomes@;
        self.chunks.push(chunk);
        self.biomes.push(biomes);
        proof {
            lemma_chunk_pushed(s0, chunk);
            assert forall|x: int, y: int| chunk_col(x) != chunk.view_x() implies #[trigger] self.block_at(x, y)
                == old(self).block_at(x, y) by {
                if 0 <= y < 128 && seq_has(s0, chunk_col(x)) {
                    let k = seq_slot(s0, chunk_col(x));
                    assert(self.chunks@[k] == s0[k]);
                }
            }
            assert forall|x: int| old(self).is_loaded(chunk_col(x)) implies #[trigger] self.biome_at(x) == old(
                self,
            ).biome_at(x) by {
                let k = seq_slot(s0, chunk_col(x));
                assert(self.biomes@[k] == b0[k]);
            }
        }
        true
    }

    /// Places each (x, y, block) of `changes` in turn, as `set_block` does.
    fn apply_changes(&mut self, changes: &Vec<(i32, i32, BlockType)>)
        requires
            old(self).wf(),
            changes_in_range(changes@),
        ensures
            final(self).wf(),
            final(self).same_columns(old(self)),
            final(self).same_setting(old(self)),
            final(self).blocks_fn() == after_sets_in(old(self).blocks_fn(), old(self).loaded_fn(), changes@),
            final(self).environment_drops() == old(self).environment_drops() + drops_after_sets_in(
                old(self).blocks_fn(),
                old(self).loaded_fn(),
                changes@,
            ),
            old(self).fluid_frontier().subset_of(final(self).fluid_frontier()),
            final(self).fluid_frontier().subset_of(old(self).fluid_frontier().union(touched_columns(changes@))),
    {
        let mut i: usize = 0;
        while i < changes.len()
            invariant
                self.wf(),
                i <= changes@.len(),
                changes_in_range(changes@),
                self.same_columns(old(self)),
                self.same_setting(old(self)),
                self.blocks_fn() == after_sets_in(old(self).blocks_fn(), old(self).loaded_fn(), changes@.take(i as int)),
                self.environment_drops() == old(self).environment_drops() + drops_after_sets_in(
                    old(self).blocks_fn(),
                    old(self).loaded_fn(),
                    changes@.take(i as int),
                ),
                old(self).fluid_frontier().subset_of(self.fluid_frontier()),
                self.fluid_frontier().subset_of(old(self).fluid_frontier().union(touched_columns(changes@))),
            decreases changes@.len() - i,
        {
            let (x, y, b) = changes[i];
            let ghost before = *self;
            proof {
                assert(i32::MIN < changes@[i as int].0 < i32::MAX);
            }
            self.set_block(x, y, b);
            proof {
                let t = changes@.take(i as int + 1);
                assert(t.drop_last() =~= changes@.take(i as int));
                assert(t.last() == changes@[i as int]);
                assert(before.loaded_fn() =~= old(self).loaded_fn());
                assert(self.blocks_fn() =~= after_sets_in(old(self).blocks_fn(), old(self).loaded_fn(), t));
                assert(self.environment_drops() =~= old(self).environment_drops() + drops_after_sets_in(
                    old(self).blocks_fn(),
                    old(self).loaded_fn(),
                    t,
                ));
                assert(column_and_neighbors(chunk_col(x as int)).subset_of(touched_columns(changes@))) by {
                    assert forall|c: i32| column_and_neighbors(chunk_col(x as int)).contains(c) implies touched_columns(
                        changes@,
                    ).contains(c) by {
                        assert(column_and_neighbors(chunk_col(changes@[i as int].0 as int)).contains(c));
                    }
                }
            }
            i = i + 1;
        }
        proof {
            assert(changes@.take(changes@.len() as int) =~= changes@);
        }
    }

    /// The redstone signal the block at (world_x, world_y) gives off.
    pub fn redstone_power_at(&self, world_x: i32, world_y: i32) -> (r: u8)
        requires
            self.wf(),
        ensures
            r == spec_source_power(self.block_at(world_x as int, world_y as int)),
    {
        source_power(self.get_block(world_x, world_y))
    }

    /// The signal the block at (src_x, src_y) sends to (dst_x, dst_y).
    fn power_from(&self, src_x: i32, src_y: i32, dst_x: i32, dst_y: i32, decay_dust: bool) -> (r: u8)
        requires
            self.wf(),
            i32::MIN < src_x < i32::MAX,
        ensures
            r == spec_power_from_to(
                self.block_at(src_x as int, src_y as int),
                src_x as int,
                src_y as int,
                dst_x as int,
                dst_y as int,
                decay_dust,
            ),
    {
        power_from_to(self.get_block(src_x, src_y), src_x, src_y, dst_x, dst_y, decay_dust)
    }

    /// The strongest signal the four neighbours of (world_x, world_y) send
    /// it; dust loses a level on the way when `decay_dust`.
    fn power_around(&self, world_x: i32, world_y: i32, decay_dust: bool) -> (r: u8)
        requires
            self.wf(),
            i32::MIN + 1 < world_x < i32::MAX - 1,
            i32::MIN < world_y < i32::MAX,
        ensures
            r == power_around_in(self.blocks_fn(), world_x as int, world_y as int, decay_dust),
    {
        let mut power: u8 = 0;
        let a = self.power_from(world_x - 1, world_y, world_x, world_y, decay_dust);
        power = if a > power { a } else { power };
        let b = self.power_from(world_x + 1, world_y, world_x, world_y, decay_dust);
        power = if b > power { b } else { power };
        let c = self.power_from(world_x, world_y - 1, world_x, world_y, decay_dust);
        power = if c > power { c } else { power };
        let d = self.power_from(world_x, world_y + 1, world_x, world_y, decay_dust);
        power = if d > power { d } else { power };
        power
    }

    /// The strongest signal a lever, button, torch, powered repeater facing
    /// it or dust (at its full level) next to (world_x, world_y) sends it.
    pub fn redstone_neighbor_power(&self, world_x: i32, world_y: i32) -> (r: u8)
        requires
            self.wf(),
            i32::MIN + 1 < world_x < i32::MAX - 1,
            i32::MIN < world_y < i32::MAX,
        ensures
            r == power_around_in(self.blocks_fn(), world_x as int, world_y as int, false),
    {
        self.power_around(world_x, world_y, false)
    }

    /// Whether some neighbour sends (world_x, world_y) a signal.
    pub fn is_redstone_powered(&self, world_x: i32, world_y: i32) -> (r: bool)
        requires
            self.wf(),
            i32::MIN + 1 < world_x < i32::MAX - 1,
            i32::MIN < world_y < i32::MAX,
        ensures
            r == (power_around_in(self.blocks_fn(), world_x as int, world_y as int, false) > 0),
    {
        self.redstone_neighbor_power(world_x, world_y) > 0
    }

    /// Whether a lever, button or repeater next to (x, y) feeds it.
    fn has_adjacent_redstone_input(&self, x: i32, y: i32) -> (r: bool)
        requires
            self.wf(),
            i32::MIN + 1 < x < i32::MAX - 1,
            i32::MIN < y < i32::MAX,
        ensures
            r == has_input_in(self.blocks_fn(), x as int, y as int),
    {
        input_power_from_to(self.get_block(x - 1, y), x - 1, y, x, y) > 0
            || input_power_from_to(self.get_block(x + 1, y), x + 1, y, x, y) > 0
            || input_power_from_to(self.get_block(x, y - 1), x, y - 1, x, y) > 0
            || input_power_from_to(self.get_block(x, y + 1), x, y + 1, x, y) > 0
    }

    /// The moves of a piston at (x, y) extending towards the right (or
    /// left): None when the way is blocked.
    fn compute_piston_extension(&self, x: i32, y: i32, facing_right: bool) -> (r: Option<
        Vec<(i32, i32, i32, i32, BlockType)>,
    >)
        requires
            self.wf(),
            -0x7000_0000 < x < 0x7000_0000,
        ensures
            match push_count_in(self.blocks_fn(), x as int, y as int, facing_right, 0) {
                None => r is None,
                Some(n) => r is Some && r.unwrap()@ == extension_pushes_in(
                    self.blocks_fn(),
                    x as int,
                    y as int,
                    facing_right,
                    n,
                ),
            },
    {
        let ghost f = self.blocks_fn();
        let mut k: i32 = 0;
        let mut found = false;
        while k < 13 && !found
            invariant
                0 <= k <= 12,
                -0x7000_0000 < x < 0x7000_0000,
                self.wf(),
                f == self.blocks_fn(),
                !found ==> push_count_in(f, x as int, y as int, facing_right, 0) == push_count_in(
                    f,
                    x as int,
                    y as int,
                    facing_right,
                    k as int,
                ),
                found ==> push_count_in(f, x as int, y as int, facing_right, 0) == Some(k as int),
            decreases 13 - k + if found { 0int } else { 1int },
        {
            let wx = if facing_right { x + k + 1 } else { x - k - 1 };
            let b = self.get_block(wx, y);
            if b == BlockType::Air {
                found = true;
            } else if !can_piston_push(b) || k >= 12 {
                return None;
            } else {
                k = k + 1;
            }
        }
        if !found {
            return None;
        }
        let mut moves: Vec<(i32, i32, i32, i32, BlockType)> = Vec::new();
        let mut j: i32 = k;
        while j > 0
            invariant
                0 <= j <= k <= 12,
                -0x7000_0000 < x < 0x7000_0000,
                self.wf(),
                f == self.blocks_fn(),
                moves@ + extension_pushes_in(f, x as int, y as int, facing_right, j as int) == extension_pushes_in(
                    f,
                    x as int,
                    y as int,
                    facing_right,
                    k as int,
                ),
            decreases j,
        {
            let from_x = if facing_right { x + j } else { x - j };
            let to_x = if facing_right { x + j + 1 } else { x - j - 1 };
            let b = self.get_block(from_x, y);
            let ghost before = moves@;
            moves.push((from_x, y, to_x, y, b));
            proof {
                assert(moves@ + extension_pushes_in(f, x as int, y as int, facing_right, j - 1) =~= before
                    + extension_pushes_in(f, x as int, y as int, facing_right, j as int));
            }
            j = j - 1;
        }
        proof {
            assert(moves@ =~= moves@ + extension_pushes_in(f, x as int, y as int, facing_right, 0));
        }
        Some(moves)
    }

    /// The pull of a sticky piston at (x, y) retracting, if any.
    fn compute_sticky_retraction(&self, x: i32, y: i32, facing_right: bool) -> (r: Option<
        (i32, i32, i32, i32, BlockType),
    >)
        requires
            self.wf(),
            -0x7000_0000 < x < 0x7000_0000,
        ensures
            r == sticky_pull_in(self.blocks_fn(), x as int, y as int, facing_right),
    {
        let pull_to_x = if facing_right { x + 1 } else { x - 1 };
        if self.get_block(pull_to_x, y) != BlockType::Air {
            return None;
        }
        let pull_from_x = if facing_right { x + 2 } else { x - 2 };
        let block = self.get_block(pull_from_x, y);
        if block == BlockType::Air || !can_piston_push(block) {
            return None;
        }
        Some((pull_from_x, y, pull_to_x, y, block))
    }

    /// Whether wood or birch wood lies within `range` cells of (wx, wy).
    fn is_near_wood(&self, wx: i32, wy: i32, range: i32) -> (r: bool)
        requires
            self.wf(),
            0 <= range <= 8,
            -0x4000_0000 <= wx < 0x4000_0000,
            -0x4000_0000 <= wy < 0x4000_0000,
        ensures
            r == near_wood_in(self.blocks_fn(), wx as int, wy as int, range as int),
    {
        let ghost f = self.blocks_fn();
        let mut dy: i32 = -range;
        while dy <= range
            invariant
                self.wf(),
                f == self.blocks_fn(),
                0 <= range <= 8,
                -0x4000_0000 <= wx < 0x4000_0000,
                -0x4000_0000 <= wy < 0x4000_0000,
                -range <= dy <= range + 1,
                forall|a: int, b: int|
                    -range <= a <= range && -range <= b < dy ==> !(#[trigger] f(wx + a, wy + b) == BlockType::Wood
                        || f(wx + a, wy + b) == BlockType::BirchWood),
            decreases range + 1 - dy,
        {
            let mut dx: i32 = -range;
            while dx <= range
                invariant
                    self.wf(),
                    f == self.blocks_fn(),
                    0 <= range <= 8,
                    -0x4000_0000 <= wx < 0x4000_0000,
                    -0x4000_0000 <= wy < 0x4000_0000,
                    -range <= dy <= range,
                    -range <= dx <= range + 1,
                    forall|a: int, b: int|
                        -range <= a <= range && -range <= b < dy ==> !(#[trigger] f(wx + a, wy + b) == BlockType::Wood
                            || f(wx + a, wy + b) == BlockType::BirchWood),
                    forall|a: int|
                        -range <= a < dx ==> !(#[trigger] f(wx + a, wy + dy) == BlockType::Wood || f(wx + a, wy + dy)
                            == BlockType::BirchWood),
                decreases range + 1 - dx,
            {
                let b = self.get_block(wx + dx, wy + dy);
                if b == BlockType::Wood || b == BlockType::BirchWood {
                    proof {
                        assert(f(wx + dx, wy + dy) == b);
                    }
                    return true;
                }
                dx = dx + 1;
            }
            dy = dy + 1;
        }
        proof {
            assert forall|a: int, b: int|
                -range <= a <= range && -range <= b <= range implies !(#[trigger] f(wx + a, wy + b)
                == BlockType::Wood || f(wx + a, wy + b) == BlockType::BirchWood) by {}
        }
        false
    }

    /// Whether grass at (wx, wy) survives: nothing solid or fluid above it.
    fn grass_can_survive_at(&self, wx: i32, wy: i32) -> (r: bool)
        requires
            self.wf(),
            i32::MIN < wy,
        ensures
            r == grass_survives_in(self.blocks_fn(), wx as int, wy as int),
    {
        let above = self.get_block(wx, wy - 1);
        !above.is_solid() && !above.is_fluid()
    }

    /// Whether dirt at (wx, wy) can turn to grass.
    fn dirt_can_gain_grass(&self, wx: i32, wy: i32) -> (r: bool)
        requires
            self.wf(),
            -0x4000_0000 <= wx < 0x4000_0000,
            -0x4000_0000 <= wy < 0x4000_0000,
        ensures
            r == dirt_gains_grass_in(self.blocks_fn(), wx as int, wy as int),
    {
        let ghost f = self.blocks_fn();
        if !self.grass_can_survive_at(wx, wy) {
            return false;
        }
        let mut dx: i32 = -1;
        while dx <= 1
            invariant
                self.wf(),
                f == self.blocks_fn(),
                -0x4000_0000 <= wx < 0x4000_0000,
                -0x4000_0000 <= wy < 0x4000_0000,
                -1 <= dx <= 2,
                grass_survives_in(f, wx as int, wy as int),
                forall|a: int, b: int|
                    -1 <= a < dx && -1 <= b <= 1 && !(a == 0 && b == 0) ==> !(#[trigger] f(wx + a, wy + b)
                        == BlockType::Grass && grass_survives_in(f, wx + a, wy + b)),
            decreases 2 - dx,
        {
            let mut dy: i32 = -1;
            while dy <= 1
                invariant
                    self.wf(),
                    f == self.blocks_fn(),
                    -0x4000_0000 <= wx < 0x4000_0000,
                    -0x4000_0000 <= wy < 0x4000_0000,
                    -1 <= dx <= 1,
                    -1 <= dy <= 2,
                    grass_survives_in(f, wx as int, wy as int),
                    forall|a: int, b: int|
                        -1 <= a < dx && -1 <= b <= 1 && !(a == 0 && b == 0) ==> !(#[trigger] f(wx + a, wy + b)
                            == BlockType::Grass && grass_survives_in(f, wx + a, wy + b)),
                    forall|b: int|
                        -1 <= b < dy && !(dx == 0 && b == 0) ==> !(#[trigger] f(wx + dx, wy + b) == BlockType::Grass
                            && grass_survives_in(f, wx + dx, wy + b)),
                decreases 2 - dy,
            {
                if !(dx == 0 && dy == 0) {
                    if self.get_block(wx + dx, wy + dy) == BlockType::Grass && self.grass_can_survive_at(
                        wx + dx,
                        wy + dy,
                    ) {
                        proof {
                            let a = dx as int;
                            let b = dy as int;
                            assert(f(wx + a, wy + b) == BlockType::Grass && grass_survives_in(f, wx + a, wy + b));
                            assert(grass_survives_in(f, wx as int, wy as int));
                        }
                        return true;
                    }
                }
                dy = dy + 1;
            }
            dx = dx + 1;
        }
        false
    }

    /// The changes rule `rule` makes at (x, y).
    fn cell_changes(&self, rule: CellRule, x: i32, y: i32) -> (r: Vec<(i32, i32, BlockType)>)
        requires
            self.wf(),
            -0x4000_0000 <= x < 0x4000_0000,
            0 <= y < 128,
        ensures
            r@ == cell_rule_in(self.blocks_fn(), rule, x as int, y as int),
    {
        let mut out: Vec<(i32, i32, BlockType)> = Vec::new();
        let block = self.get_block(x, y);
        match rule {
            CellRule::RedstoneTrigger => match block {
                BlockType::StoneButton(timer) => {
                    if timer > 0 {
                        out.push((x, y, BlockType::StoneButton(timer - 1)));
                    }
                },
                BlockType::RedstoneTorch(lit) => {
                    let should_lit = !self.has_adjacent_redstone_input(x, y);
                    if lit != should_lit {
                        out.push((x, y, BlockType::RedstoneTorch(should_lit)));
                    }
                },
                BlockType::RedstoneRepeater { powered, delay, facing_right, timer, target_powered } => {
                    if !self.get_block(x, y + 1).is_solid() {
                        out.push((x, y, BlockType::Air));
                    } else {
                        let rear_x = if facing_right { x - 1 } else { x + 1 };
                        let desired_powered = self.power_from(rear_x, y, x, y, false) > 0;
                        let (next_powered, clamped_delay, next_timer, next_target) = step_repeater(
                            powered,
                            delay,
                            timer,
                            target_powered,
                            desired_powered,
                        );
                        if next_powered != powered || next_timer != timer || next_target != target_powered
                            || clamped_delay != delay {
                            out.push(
                                (
                                    x,
                                    y,
                                    BlockType::RedstoneRepeater {
                                        powered: next_powered,
                                        delay: clamped_delay,
                                        facing_right,
                                        timer: next_timer,
                                        target_powered: next_target,
                                    },
                                ),
                            );
                        }
                    }
                },
                _ => {},
            },
            CellRule::RedstoneDust => match block {
                BlockType::RedstoneDust(old_power) => {
                    if !self.get_block(x, y + 1).is_solid() {
                        out.push((x, y, BlockType::Air));
                    } else {
                        let next_power = self.power_around(x, y, true);
                        if next_power != old_power {
                            out.push((x, y, BlockType::RedstoneDust(next_power)));
                        }
                    }
                },
                _ => {},
            },
            CellRule::OutputState => match block {
                BlockType::Tnt => {
                    if self.is_redstone_powered(x, y) {
                        out.push((x, y, BlockType::PrimedTnt(TNT_FUSE_TICKS)));
                    }
                },
                BlockType::PrimedTnt(fuse) => {
                    if fuse > 0 {
                        out.push((x, y, BlockType::PrimedTnt(fuse - 1)));
                    }
                },
                BlockType::Piston { extended, facing_right } => {
                    let powered = self.is_redstone_powered(x, y);
                    if powered && !extended {
                        if self.compute_piston_extension(x, y, facing_right).is_some() {
                            out.push((x, y, BlockType::Piston { extended: true, facing_right }));
                        }
                    } else if !powered && extended {
                        out.push((x, y, BlockType::Piston { extended: false, facing_right }));
                    }
                },
                BlockType::StickyPiston { extended, facing_right } => {
                    let powered = self.is_redstone_powered(x, y);
                    if powered && !extended {
                        if self.compute_piston_extension(x, y, facing_right).is_some() {
                            out.push((x, y, BlockType::StickyPiston { extended: true, facing_right }));
                        }
                    } else if !powered && extended {
                        out.push((x, y, BlockType::StickyPiston { extended: false, facing_right }));
                    }
                },
                _ => {},
            },
            CellRule::OutputMoves => match block {
                BlockType::Piston { extended, facing_right } => {
                    let powered = self.is_redstone_powered(x, y);
                    if powered && !extended {
                        if let Some(pushes) = self.compute_piston_extension(x, y, facing_right) {
                            out = pushes_to_changes(&pushes);
                        }
                    }
                },
                BlockType::StickyPiston { extended, facing_right } => {
                    let powered = self.is_redstone_powered(x, y);
                    if powered && !extended {
                        if let Some(pushes) = self.compute_piston_extension(x, y, facing_right) {
                            out = pushes_to_changes(&pushes);
                        }
                    } else if !powered && extended {
                        if let Some(pull) = self.compute_sticky_retraction(x, y, facing_right) {
                            let mut one: Vec<(i32, i32, i32, i32, BlockType)> = Vec::new();
                            one.push(pull);
                            proof {
                                assert(one@ =~= seq![pull]);
                            }
                            out = pushes_to_changes(&one);
                        }
                    }
                },
                _ => {},
            },
            CellRule::Detonation => match block {
                BlockType::PrimedTnt(fuse) => {
                    if fuse == 0 {
                        out.push((x, y, BlockType::Air));
                    }
                },
                _ => {},
            },
            CellRule::Fall => {
                if y < 127 && block.obeys_gravity() && self.get_block(x, y + 1) == BlockType::Air {
                    out.push((x, y, block));
                }
            },
            CellRule::LeafDecay(phase) => {
                if block.is_leaf_block() && !self.is_near_wood(x, y, 4) && leaf_decay_due_at(x, y, phase) {
                    out.push((x, y, block));
                }
            },
            CellRule::GrassSpread(phase) => {
                if y >= 1 {
                    if block == BlockType::Grass {
                        if !self.grass_can_survive_at(x, y) {
                            out.push((x, y, BlockType::Dirt));
                        }
                    } else if block == BlockType::Dirt {
                        if self.dirt_can_gain_grass(x, y) && grass_spread_due_at(x, y, phase) {
                            out.push((x, y, BlockType::Grass));
                        }
                    }
                }
            },
        }
        proof {
            assert(out@ =~= cell_rule_in(self.blocks_fn(), rule, x as int, y as int));
        }
        out
    }

    /// A chunk out of reach of the scan, or without redstone blocks, adds
    /// nothing to it.
    proof fn lemma_skip_chunk(w: &World, i: int, center: int, rule: CellRule)
        requires
            w.wf(),
            0 <= i < w.chunks@.len(),
            !(-2 <= w.chunks@[i].view_x() - center <= 2) || (rule_kind(rule) matches Some(k)
                && !w.chunks@[i].has_kind(k)),
        ensures
            scan_upto_in(w.blocks_fn(), w.chunk_order(), center, rule, i * 4096 + 4096) == scan_upto_in(
                w.blocks_fn(),
                w.chunk_order(),
                center,
                rule,
                i * 4096,
            ),
    {
        let f = w.blocks_fn();
        let order = w.chunk_order();
        let c = w.chunks@[i];
        let cx = c.view_x() as int;
        lemma_seq_slot(w.chunks@, i);
        assert(chunks_wf(w.chunks@));
        assert(w.chunks@[i].wf());
        assert(valid_chunk_col(cx));
        c.lemma_wf_views();
        assert(order[i] == cx);
        if -2 <= cx - center <= 2 {
            law_activity_means_presence(c.view_blocks(), rule_kind(rule)->0);
        }
        assert forall|q: int| i * 4096 <= q < i * 4096 + 4096 implies #[trigger] cell_pos_out(
            f,
            order,
            center,
            rule,
            q,
        ) == Seq::<(i32, i32, BlockType)>::empty() by {
            let off = q - i * 4096;
            let yy = off / 32;
            let xx = off % 32;
            assert(q == i * 4096 + yy * 32 + xx);
            lemma_scan_pos(i, yy, xx);
            if -2 <= cx - center <= 2 {
                let wx = cx * 32 + xx;
                let row = if rule == CellRule::Fall {
                    127 - yy
                } else {
                    yy
                };
                assert(chunk_col(wx) == cx && col_in_chunk(wx) == xx);
                assert(f(wx, row) == c.view_blocks()[cell_index(xx, row)]);
                assert(!super::chunk::in_kind(c.view_blocks()[cell_index(xx, row)], rule_kind(rule)->0));
                lemma_rule_needs_kind(f, rule, wx, row);
            }
        }
        lemma_scan_skip(f, order, center, rule, i * 4096, 4096);
    }

    /// The changes rule `rule` makes over the loaded chunks within two of
    /// `center_chunk`, read from the world as it is.
    #[verifier::rlimit(30)]
    fn scan(&self, center_chunk: i32, rule: CellRule) -> (r: Vec<(i32, i32, BlockType)>)
        requires
            self.wf(),
        ensures
            r@ == scan_in(self.blocks_fn(), self.chunk_order(), center_chunk as int, rule),
    {
        let ghost f = self.blocks_fn();
        let ghost order = self.chunk_order();
        let mut out: Vec<(i32, i32, BlockType)> = Vec::new();
        let mut i: usize = 0;
        while i < self.chunks.len()
            invariant
                self.wf(),
                f == self.blocks_fn(),
                order == self.chunk_order(),
                order.len() == self.chunks@.len(),
                i <= self.chunks@.len(),
                out@ == scan_upto_in(f, order, center_chunk as int, rule, i * 4096),
            decreases self.chunks@.len() - i,
        {
            let cx = self.chunks[i].column();
            let ghost c = self.chunks@[i as int];
            proof {
                assert(order[i as int] == cx);
                lemma_seq_slot(self.chunks@, i as int);
                assert(chunks_wf(self.chunks@));
                assert(self.chunks@[i as int].wf());
                assert(valid_chunk_col(c.view_x() as int));
                c.lemma_wf_views();
            }
            let d: i64 = cx as i64 - center_chunk as i64;
            let lacks_kind = match rule {
                CellRule::Fall => !self.chunks[i].has_falling_blocks(),
                CellRule::LeafDecay(_) => !self.chunks[i].has_leaf_blocks(),
                CellRule::GrassSpread(_) => false,
                _ => !self.chunks[i].has_redstone_blocks(),
            };
            if d < -2 || d > 2 || lacks_kind {
                proof {
                    Self::lemma_skip_chunk(self, i as int, center_chunk as int, rule);
                }
                i = i + 1;
            } else {
                let mut y: usize = 0;
                while y < CHUNK_HEIGHT
                    invariant
                        self.wf(),
                        f == self.blocks_fn(),
                        order == self.chunk_order(),
                        i < self.chunks@.len(),
                        order[i as int] == cx,
                        self.chunks@[i as int] == c,
                        c.wf(),
                        valid_chunk_col(cx as int),
                        seq_slot(self.chunks@, cx as int) == i,
                        seq_has(self.chunks@, cx as int),
                        -2 <= d <= 2,
                        d == cx - center_chunk,
                        y <= 128,
                        out@ == scan_upto_in(f, order, center_chunk as int, rule, i * 4096 + y * 32),
                    decreases 128 - y,
                {
                    let mut x: usize = 0;
                    while x < CHUNK_WIDTH
                        invariant
                            self.wf(),
                            f == self.blocks_fn(),
                            order == self.chunk_order(),
                            i < self.chunks@.len(),
                            order[i as int] == cx,
                            valid_chunk_col(cx as int),
                            -2 <= d <= 2,
                            d == cx - center_chunk,
                            y < 128,
                            x <= 32,
                            out@ == scan_upto_in(f, order, center_chunk as int, rule, i * 4096 + y * 32 + x),
                        decreases 32 - x,
                    {
                        let wx: i32 = cx * 32 + x as i32;
                        let row: i32 = if rule == CellRule::Fall {
                            127 - y as i32
                        } else {
                            y as i32
                        };
                        let cell = self.cell_changes(rule, wx, row);
                        let ghost before = out@;
                        let mut k: usize = 0;
                        while k < cell.len()
                            invariant
                                k <= cell@.len(),
                                out@ == before + cell@.take(k as int),
                            decreases cell@.len() - k,
                        {
                            out.push(cell[k]);
                            proof {
                                assert(cell@.take(k + 1) =~= cell@.take(k as int).push(cell@[k as int]));
                                assert(out@ =~= before + cell@.take(k + 1));
                            }
                            k = k + 1;
                        }
                        proof {
                            assert(cell@.take(cell@.len() as int) =~= cell@);
                            lemma_scan_pos(i as int, y as int, x as int);
                            assert(chunk_col(wx as int) == cx && col_in_chunk(wx as int) == x);
                            assert(out@ =~= scan_upto_in(f, order, center_chunk as int, rule, i * 4096 + y * 32 + x + 1));
                        }
                        x = x + 1;
                    }
                    y = y + 1;
                }
                i = i + 1;
            }
        }
        out
    }

    /// The chunk columns of a well-formed world are valid.
    proof fn lemma_order_valid(&self)
        requires
            self.wf(),
        ensures
            forall|k: int| 0 <= k < self.chunk_order().len() ==> valid_chunk_col(#[trigger] self.chunk_order()[k] as int),
            self.chunk_order().len() == self.chunks@.len(),
    {
        assert forall|k: int| 0 <= k < self.chunk_order().len() implies valid_chunk_col(
            #[trigger] self.chunk_order()[k] as int,
        ) by {
            assert(self.chunks@[k].wf());
            assert(valid_chunk_col(self.chunks@[k].view_x() as int));
        }
    }

    /// Scans with rule `rule` and places what it finds, as `set_block` does.
    fn scan_and_apply(&mut self, center_chunk: i32, rule: CellRule)
        requires
            old(self).wf(),
        ensures
            final(self).wf(),
            final(self).same_columns(old(self)),
            final(self).same_setting(old(self)),
            final(self).blocks_fn() == after_sets_in(
                old(self).blocks_fn(),
                old(self).loaded_fn(),
                scan_in(old(self).blocks_fn(), old(self).chunk_order(), center_chunk as int, rule),
            ),
            final(self).environment_drops() == old(self).environment_drops() + drops_after_sets_in(
                old(self).blocks_fn(),
                old(self).loaded_fn(),
                scan_in(old(self).blocks_fn(), old(self).chunk_order(), center_chunk as int, rule),
            ),
            old(self).fluid_frontier().subset_of(final(self).fluid_frontier()),
    {
        let changes = self.scan(center_chunk, rule);
        proof {
            self.lemma_order_valid();
            lemma_scan_in_range(
                self.blocks_fn(),
                self.chunk_order(),
                center_chunk as int,
                rule,
                (self.chunk_order().len() * 4096) as int,
            );
        }
        self.apply_changes(&changes);
    }

    /// One redstone tick over the chunks within two of `center_chunk`:
    /// buttons, torches and repeaters take their next state (all read from
    /// the world as it was), then dust takes the strongest signal around it
    /// less one (read after those changes); dust and repeaters without a
    /// solid block below break.
    pub fn update_redstone(&mut self, center_chunk: i32)
        requires
            old(self).wf(),
        ensures
            old(self).redstone_step(final(self), center_chunk as int),
    {
        self.scan_and_apply(center_chunk, CellRule::RedstoneTrigger);
        let ghost mid = *self;
        self.scan_and_apply(center_chunk, CellRule::RedstoneDust);
        proof {
            assert(mid.loaded_fn() =~= old(self).loaded_fn());
        }
    }

    /// The redstone outputs over the chunks within two of `center_chunk`,
    /// all read from the world as it was: powered TNT is lit, fuses burn,
    /// powered pistons extend (pushing up to 12 blocks before an air cell)
    /// and unpowered ones retract (a sticky one pulling back the block two
    /// cells ahead); state changes are placed first, then the moves. Returns
    /// the primed TNT whose fuse ran out, left for the explosion to handle.
    pub fn update_redstone_outputs(&mut self, center_chunk: i32) -> (detonations: Vec<(i32, i32, BlockType)>)
        requires
            old(self).wf(),
        ensures
            old(self).outputs_step(final(self), center_chunk as int, detonations@),
    {
        let state_changes = self.scan(center_chunk, CellRule::OutputState);
        let piston_moves = self.scan(center_chunk, CellRule::OutputMoves);
        let detonations = self.scan(center_chunk, CellRule::Detonation);
        proof {
            self.lemma_order_valid();
            let n = (self.chunk_order().len() * 4096) as int;
            lemma_scan_in_range(self.blocks_fn(), self.chunk_order(), center_chunk as int, CellRule::OutputState, n);
            lemma_scan_in_range(self.blocks_fn(), self.chunk_order(), center_chunk as int, CellRule::OutputMoves, n);
        }
        self.apply_changes(&state_changes);
        let ghost mid = *self;
        self.apply_changes(&piston_moves);
        proof {
            assert(mid.loaded_fn() =~= old(self).loaded_fn());
        }
        detonations
    }

    /// Lets each (x, y, block) of `moves` fall one row, in turn, when the
    /// cell below it is still air.
    fn apply_falls(&mut self, moves: &Vec<(i32, i32, BlockType)>)
        requires
            old(self).wf(),
            changes_in_range(moves@),
            forall|k: int| 0 <= k < moves@.len() ==> 0 <= #[trigger] moves@[k].1 < 127,
        ensures
            final(self).wf(),
            final(self).same_columns(old(self)),
            final(self).same_setting(old(self)),
            final(self).blocks_fn() == after_falls_in(old(self).blocks_fn(), old(self).loaded_fn(), moves@),
            final(self).environment_drops() == old(self).environment_drops() + drops_after_falls_in(
                old(self).blocks_fn(),
                old(self).loaded_fn(),
                moves@,
            ),
            old(self).fluid_frontier().subset_of(final(self).fluid_frontier()),
    {
        let mut i: usize = 0;
        while i < moves.len()
            invariant
                self.wf(),
                i <= moves@.len(),
                changes_in_range(moves@),
                forall|k: int| 0 <= k < moves@.len() ==> 0 <= #[trigger] moves@[k].1 < 127,
                self.same_columns(old(self)),
                self.same_setting(old(self)),
                self.blocks_fn() == after_falls_in(old(self).blocks_fn(), old(self).loaded_fn(), moves@.take(i as int)),
                self.environment_drops() == old(self).environment_drops() + drops_after_falls_in(
                    old(self).blocks_fn(),
                    old(self).loaded_fn(),
                    moves@.take(i as int),
                ),
                old(self).fluid_frontier().subset_of(self.fluid_frontier()),
            decreases moves@.len() - i,
        {
            let (wx, wy, block) = moves[i];
            proof {
                assert(i32::MIN < moves@[i as int].0 < i32::MAX);
                assert(0 <= moves@[i as int].1 < 127);
            }
            let ghost before = *self;
            let ghost t = moves@.take(i as int + 1);
            proof {
                assert(t.drop_last() =~= moves@.take(i as int));
                assert(t.last() == moves@[i as int]);
                assert(before.loaded_fn() =~= old(self).loaded_fn());
            }
            if self.get_block(wx, wy + 1) == BlockType::Air {
                self.set_block(wx, wy, BlockType::Air);
                let ghost mid = *self;
                self.set_block(wx, wy + 1, block);
                proof {
                    assert(mid.loaded_fn() =~= old(self).loaded_fn());
                    assert(mid.blocks_fn() =~= after_set_in(before.blocks_fn(), old(self).loaded_fn(), wx as int, wy as int, BlockType::Air));
                    assert(self.blocks_fn() =~= after_falls_in(old(self).blocks_fn(), old(self).loaded_fn(), t));
                    assert(self.environment_drops() =~= old(self).environment_drops() + drops_after_falls_in(
                        old(self).blocks_fn(),
                        old(self).loaded_fn(),
                        t,
                    ));
                }
            } else {
                proof {
                    assert(self.blocks_fn() =~= after_falls_in(old(self).blocks_fn(), old(self).loaded_fn(), t));
                    assert(self.environment_drops() =~= old(self).environment_drops() + drops_after_falls_in(
                        old(self).blocks_fn(),
                        old(self).loaded_fn(),
                        t,
                    ));
                }
            }
            i = i + 1;
        }
        proof {
            assert(moves@.take(moves@.len() as int) =~= moves@);
        }
    }

    /// Clears each decaying leaf block of `leaves` in turn, first recording
    /// its sapling when one is due in phase `phase`.
    fn apply_leaf_decay(&mut self, leaves: &Vec<(i32, i32, BlockType)>, phase: i32)
        requires
            old(self).wf(),
            changes_in_range(leaves@),
        ensures
            final(self).wf(),
            final(self).same_columns(old(self)),
            final(self).same_setting(old(self)),
            final(self).blocks_fn() == after_sets_in(old(self).blocks_fn(), old(self).loaded_fn(), cleared(leaves@)),
            final(self).environment_drops() == old(self).environment_drops() + drops_after_decay_in(
                old(self).blocks_fn(),
                old(self).loaded_fn(),
                leaves@,
                phase,
            ),
            old(self).fluid_frontier().subset_of(final(self).fluid_frontier()),
    {
        let mut i: usize = 0;
        while i < leaves.len()
            invariant
                self.wf(),
                i <= leaves@.len(),
                changes_in_range(leaves@),
                self.same_columns(old(self)),
                self.same_setting(old(self)),
                self.blocks_fn() == after_sets_in(old(self).blocks_fn(), old(self).loaded_fn(), cleared(leaves@.take(i as int))),
                self.environment_drops() == old(self).environment_drops() + drops_after_decay_in(
                    old(self).blocks_fn(),
                    old(self).loaded_fn(),
                    leaves@.take(i as int),
                    phase,
                ),
                old(self).fluid_frontier().subset_of(self.fluid_frontier()),
            decreases leaves@.len() - i,
        {
            let (wx, wy, block) = leaves[i];
            proof {
                assert(i32::MIN < leaves@[i as int].0 < i32::MAX);
            }
            let ghost before = *self;
            let ghost t = leaves@.take(i as int + 1);
            proof {
                assert(t.drop_last() =~= leaves@.take(i as int));
                assert(t.last() == leaves@[i as int]);
                assert(cleared(t).drop_last() =~= cleared(leaves@.take(i as int)));
                assert(before.loaded_fn() =~= old(self).loaded_fn());
            }
            let sapling = match block {
                BlockType::Leaves => Some(ItemType::Sapling),
                BlockType::BirchLeaves => Some(ItemType::BirchSapling),
                _ => None,
            };
            if sapling.is_some() && sapling_drop_due_at(wx, wy, phase) {
                self.recent_environment_drops.push((wx, wy, sapling.unwrap()));
            }
            let ghost mid = *self;
            proof {
                assert(mid.chunks == before.chunks);
                assert(mid.same_columns(&before));
                assert(mid.same_setting(&before));
                assert(mid.blocks_fn() =~= before.blocks_fn());
                assert(mid.loaded_fn() =~= old(self).loaded_fn());
            }
            self.set_block(wx, wy, BlockType::Air);
            proof {
                assert(self.blocks_fn() =~= after_sets_in(old(self).blocks_fn(), old(self).loaded_fn(), cleared(t)));
                assert(self.environment_drops() =~= old(self).environment_drops() + drops_after_decay_in(
                    old(self).blocks_fn(),
                    old(self).loaded_fn(),
                    t,
                    phase,
                ));
            }
            i = i + 1;
        }
        proof {
            assert(leaves@.take(leaves@.len() as int) =~= leaves@);
        }
    }

    /// The farming phase of the current tick: one phase every 20 ticks.
    pub closed spec fn spec_phase(&self) -> i32 {
        (self.tick_counter / 20) as i32
    }

    /// Sand and gravel over air in the chunks within two of `center_chunk`
    /// fall one row: found from the bottom row up in the world as it was,
    /// then moved in that order while the cell below is still air.
    pub fn update_falling_blocks(&mut self, center_chunk: i32)
        requires
            old(self).wf(),
        ensures
            old(self).falling_step(final(self), center_chunk as int),
    {
        let moves = self.scan(center_chunk, CellRule::Fall);
        proof {
            self.lemma_order_valid();
            let n = (self.chunk_order().len() * 4096) as int;
            lemma_scan_in_range(self.blocks_fn(), self.chunk_order(), center_chunk as int, CellRule::Fall, n);
            lemma_scan_fall_rows(self.blocks_fn(), self.chunk_order(), center_chunk as int, n);
        }
        self.apply_falls(&moves);
    }

    /// Leaves more than four cells from any wood, in the chunks within two of
    /// `center_chunk`, decay when due in this tick's phase (found in the
    /// world as it was): each may leave a sapling, then turns to air.
    pub fn update_leaf_decay(&mut self, center_chunk: i32)
        requires
            old(self).wf(),
        ensures
            old(self).leaf_step(final(self), center_chunk as int),
    {
        let decay_phase = (self.tick_counter / 20) as i32;
        let leaves = self.scan(center_chunk, CellRule::LeafDecay(decay_phase));
        proof {
            self.lemma_order_valid();
            let n = (self.chunk_order().len() * 4096) as int;
            lemma_scan_in_range(self.blocks_fn(), self.chunk_order(), center_chunk as int, CellRule::LeafDecay(decay_phase), n);
        }
        self.apply_leaf_decay(&leaves, decay_phase);
    }

    /// Grass under a solid or fluid block dies to dirt, and dirt next to
    /// surviving grass turns to grass when due in this tick's phase, over
    /// the chunks within two of `center_chunk` (found in the world as it
    /// was, below the top row).
    pub fn update_grass_spread(&mut self, center_chunk: i32)
        requires
            old(self).wf(),
        ensures
            old(self).grass_step(final(self), center_chunk as int),
    {
        let spread_phase = (self.tick_counter / 20) as i32;
        self.scan_and_apply(center_chunk, CellRule::GrassSpread(spread_phase));
    }

    /// Whether a water source forms at (x, y).
    fn can_form_infinite_water_source(&self, x: i32, y: i32) -> (r: bool)
        requires
            self.wf(),
            i32::MIN < x < i32::MAX,
            y < i32::MAX,
        ensures
            r == forms_source_in(self.blocks_fn(), x as int, y as int),
    {
        if y + 1 >= CHUNK_HEIGHT as i32 {
            return false;
        }
        let below = self.get_block(x, y + 1);
        (below.is_solid() || matches!(below, BlockType::Water(_))) && self.get_block(x - 1, y)
            == BlockType::Water(8) && self.get_block(x + 1, y) == BlockType::Water(8)
    }

    /// The source-forming proposal for the air gap `dir` cells beside a full
    /// water source at (x, y).
    fn gap_source(&self, x: i32, y: i32, dir: i32) -> (r: Vec<FluidProposal>)
        requires
            self.wf(),
            -0x4000_0000 <= x < 0x4000_0000,
            0 <= y < 128,
            dir == -1 || dir == 1,
        ensures
            r@ == gap_source_in(self.blocks_fn(), x as int, y as int, dir as int),
            forall|k: int| 0 <= k < r@.len() ==> center_ok(#[trigger] r@[k]),
    {
        let mut out: Vec<FluidProposal> = Vec::new();
        let gap_x = x + dir;
        if self.get_block(gap_x, y) == BlockType::Air && self.can_form_infinite_water_source(gap_x, y) {
            let (cx, _) = split_world_x(x);
            out.push(FluidProposal::Put { x: gap_x, y, block: BlockType::Water(8), center: cx });
        }
        proof {
            assert(out@ =~= gap_source_in(self.blocks_fn(), x as int, y as int, dir as int));
        }
        out
    }

    /// The proposal of a fluid of `level` spreading into (nx, y).
    fn side_proposals(&self, is_water: bool, level: u8, nx: i32, y: i32) -> (r: Vec<FluidProposal>)
        requires
            self.wf(),
            level >= 1,
            -0x4000_0010 < nx < 0x4000_0010,
        ensures
            r@ == side_proposals_in(self.blocks_fn(), is_water, level, nx as int, y as int),
            forall|k: int| 0 <= k < r@.len() ==> center_ok(#[trigger] r@[k]),
    {
        let mut out: Vec<FluidProposal> = Vec::new();
        let side = self.get_block(nx, y);
        let (ncx, _) = split_world_x(nx);
        if let Some(mixed) = fluid_mix_result(is_water, side, false) {
            out.push(FluidProposal::Put { x: nx, y, block: mixed, center: ncx });
        } else if side.is_replaceable() {
            out.push(FluidProposal::Offer { x: nx, y, block: make_fluid(is_water, level - 1), center: ncx });
        }
        proof {
            assert(out@ =~= side_proposals_in(self.blocks_fn(), is_water, level, nx as int, y as int));
        }
        out
    }

    /// The proposals of a supported fluid of `level` at (x, y).
    fn flow_proposals(&self, is_water: bool, level: u8, nether: bool, x: i32, y: i32) -> (r: Vec<FluidProposal>)
        requires
            self.wf(),
            -0x4000_0000 <= x < 0x4000_0000,
            0 <= y < 128,
        ensures
            r@ == flow_proposals_in(self.blocks_fn(), is_water, level, nether, x as int, y as int),
            forall|k: int| 0 <= k < r@.len() ==> center_ok(#[trigger] r@[k]),
    {
        let mut out: Vec<FluidProposal> = Vec::new();
        if y + 1 >= CHUNK_HEIGHT as i32 {
            return out;
        }
        let (cx, _) = split_world_x(x);
        let below = self.get_block(x, y + 1);
        if let Some(mixed) = fluid_mix_result(is_water, below, true) {
            out.push(FluidProposal::Put { x, y: y + 1, block: mixed, center: cx });
        } else if below.is_replaceable() {
            out.push(FluidProposal::Offer { x, y: y + 1, block: make_fluid(is_water, 7), center: cx });
        } else {
            let min_level: u8 = if is_water || nether { 1 } else { 5 };
            if level > min_level {
                out = self.side_proposals(is_water, level, x - 1, y);
                let right = self.side_proposals(is_water, level, x + 1, y);
                append_proposals(&mut out, right);
            }
        }
        proof {
            assert(out@ =~= flow_proposals_in(self.blocks_fn(), is_water, level, nether, x as int, y as int));
        }
        out
    }

    /// The proposals of the cell (x, y) in one fluid pass.
    fn fluid_cell_proposals(&self, process_lava: bool, nether: bool, x: i32, y: i32) -> (r: Vec<FluidProposal>)
        requires
            self.wf(),
            -0x4000_0000 <= x < 0x4000_0000,
            0 <= y < 128,
        ensures
            r@ == fluid_cell_in(self.blocks_fn(), process_lava, nether, x as int, y as int),
            forall|k: int| 0 <= k < r@.len() ==> center_ok(#[trigger] r@[k]),
    {
        let block = self.get_block(x, y);
        let (cx, _) = split_world_x(x);
        let mut out: Vec<FluidProposal> = Vec::new();
        let (is_water, level0) = match block {
            BlockType::Water(l) => (true, l),
            BlockType::Lava(l) => (false, l),
            _ => {
                return out;
            },
        };
        if !is_water && !process_lava {
            out.push(FluidProposal::Wake { center: cx });
            proof {
                assert(out@ =~= fluid_cell_in(self.blocks_fn(), process_lava, nether, x as int, y as int));
            }
            return out;
        }
        if is_water && level0 == 8 {
            out = self.gap_source(x, y, -1);
            let right = self.gap_source(x, y, 1);
            append_proposals(&mut out, right);
        }
        let mut level = level0;
        if is_water && self.can_form_infinite_water_source(x, y) {
            out.push(FluidProposal::Put { x, y, block: BlockType::Water(8), center: cx });
            level = 8;
        }
        let above = self.get_block(x, y - 1);
        let left = self.get_block(x - 1, y);
        let right = self.get_block(x + 1, y);
        let supported = level == 8 || is_same_fluid(is_water, above) || (is_same_fluid(is_water, left)
            && level_of(left) > level) || (is_same_fluid(is_water, right) && level_of(right) > level);
        if !supported {
            let new_block = if level > 1 {
                make_fluid(is_water, level - 1)
            } else {
                BlockType::Air
            };
            out.push(FluidProposal::Offer { x, y, block: new_block, center: cx });
        } else {
            let flow = self.flow_proposals(is_water, level, nether, x, y);
            append_proposals(&mut out, flow);
        }
        proof {
            assert(out@ =~= fluid_cell_in(self.blocks_fn(), process_lava, nether, x as int, y as int));
        }
        out
    }

    /// The proposals of one fluid pass over the chunk columns `sched`.
    fn collect_fluid_proposals(&self, sched: &Vec<i32>, process_lava: bool, nether: bool) -> (r: Vec<FluidProposal>)
        requires
            self.wf(),
            forall|k: int| 0 <= k < sched@.len() ==> valid_chunk_col(#[trigger] sched@[k] as int),
        ensures
            r@ == fluid_props_upto(self.blocks_fn(), sched@, process_lava, nether, (sched@.len() * 4096) as int),
            forall|k: int| 0 <= k < r@.len() ==> center_ok(#[trigger] r@[k]),
    {
        let ghost f = self.blocks_fn();
        let mut out: Vec<FluidProposal> = Vec::new();
        let mut i: usize = 0;
        while i < sched.len()
            invariant
                self.wf(),
                f == self.blocks_fn(),
                forall|k: int| 0 <= k < sched@.len() ==> valid_chunk_col(#[trigger] sched@[k] as int),
                i <= sched@.len(),
                out@ == fluid_props_upto(f, sched@, process_lava, nether, i * 4096),
                forall|k: int| 0 <= k < out@.len() ==> center_ok(#[trigger] out@[k]),
            decreases sched@.len() - i,
        {
            let cx = sched[i];
            proof {
                assert(valid_chunk_col(sched@[i as int] as int));
            }
            let mut y: usize = 0;
            while y < CHUNK_HEIGHT
                invariant
                    self.wf(),
                    f == self.blocks_fn(),
                    forall|k: int| 0 <= k < sched@.len() ==> valid_chunk_col(#[trigger] sched@[k] as int),
                    i < sched@.len(),
                    cx == sched@[i as int],
                    valid_chunk_col(cx as int),
                    y <= 128,
                    out@ == fluid_props_upto(f, sched@, process_lava, nether, i * 4096 + y * 32),
                    forall|k: int| 0 <= k < out@.len() ==> center_ok(#[trigger] out@[k]),
                decreases 128 - y,
            {
                let mut x: usize = 0;
                while x < CHUNK_WIDTH
                    invariant
                        self.wf(),
                        f == self.blocks_fn(),
                        forall|k: int| 0 <= k < sched@.len() ==> valid_chunk_col(#[trigger] sched@[k] as int),
                        i < sched@.len(),
                        cx == sched@[i as int],
                        valid_chunk_col(cx as int),
                        y < 128,
                        x <= 32,
                        out@ == fluid_props_upto(f, sched@, process_lava, nether, i * 4096 + y * 32 + x),
                        forall|k: int| 0 <= k < out@.len() ==> center_ok(#[trigger] out@[k]),
                    decreases 32 - x,
                {
                    let wx: i32 = cx * 32 + x as i32;
                    let cell = self.fluid_cell_proposals(process_lava, nether, wx, y as i32);
                    append_proposals(&mut out, cell);
                    proof {
                        lemma_scan_pos(i as int, y as int, x as int);
                        assert(out@ =~= fluid_props_upto(f, sched@, process_lava, nether, i * 4096 + y * 32 + x + 1));
                    }
                    x = x + 1;
                }
                y = y + 1;
            }
            i = i + 1;
        }
        out
    }

    /// One fluid pass around chunk column `center_chunk`. The chunks it works
    /// on are those of the frontier within two of `center_chunk` that are
    /// loaded and hold water or lava; the frontier keeps only the loaded
    /// ones farther away that hold water or lava. Lava moves only in the
    /// nether or every 30th tick (else its chunk stays awake). Every fluid
    /// cell, read from the world as it was, proposes changes (see
    /// `fluid_cell_in`); the proposals are merged in order into one next
    /// state, which is then placed cell by cell, and every proposal that
    /// changed the next state puts its columns back on the frontier.
    pub fn update_fluids(&mut self, center_chunk: i32)
        requires
            old(self).wf(),
        ensures
            old(self).fluid_step(final(self), center_chunk as int),
    {
        let ghost sp = self.scheduled_pred(center_chunk as int);
        let ghost kp = self.kept_pred(center_chunk as int);
        let ghost active = self.active_fluid_chunks@;
        let mut sched: Vec<i32> = Vec::new();
        let mut kept: Vec<i32> = Vec::new();
        let mut i: usize = 0;
        while i < self.active_fluid_chunks.len()
            invariant
                self.wf(),
                *self == *old(self),
                active == self.active_fluid_chunks@,
                sp == self.scheduled_pred(center_chunk as int),
                kp == self.kept_pred(center_chunk as int),
                i <= active.len(),
                sched@ == active.take(i as int).filter(sp),
                kept@ == active.take(i as int).filter(kp),
            decreases active.len() - i,
        {
            let c = self.active_fluid_chunks[i];
            let d: i64 = c as i64 - center_chunk as i64;
            let mut has_fluid = false;
            match self.find_slot(c) {
                Some(k) => {
                    has_fluid = self.chunks[k].has_fluids();
                },
                None => {},
            }
            proof {
                assert(active.take(i + 1) =~= active.take(i as int).push(c));
                active.take(i as int).lemma_filter_push(c, sp);
                active.take(i as int).lemma_filter_push(c, kp);
            }
            if -2 <= d && d <= 2 && has_fluid {
                sched.push(c);
            } else if (d < -2 || d > 2) && has_fluid {
                kept.push(c);
            }
            i = i + 1;
        }
        proof {
            assert(active.take(active.len() as int) =~= active);
            assert(kept@.to_set() =~= self.fluid_frontier().filter(kp)) by {
                assert forall|c: i32| #[trigger] kept@.to_set().contains(c) implies self.fluid_frontier().filter(kp).contains(c) by {
                    let j = choose|j: int| 0 <= j < kept@.len() && kept@[j] == c;
                    active.lemma_filter_pred(kp, j);
                    #[allow(deprecated)]
                    active.lemma_filter_contains_rev(kp, c);
                }
                assert forall|c: i32| #[trigger] self.fluid_frontier().filter(kp).contains(c) implies kept@.to_set().contains(c) by {
                    let j = choose|j: int| 0 <= j < active.len() && active[j] == c;
                    active.lemma_filter_contains(kp, j);
                }
            }
            lemma_filter_no_dup(active, kp);
            assert forall|k: int| 0 <= k < sched@.len() implies valid_chunk_col(#[trigger] sched@[k] as int) by {
                active.lemma_filter_pred(sp, k);
                assert(sp(sched@[k]));
                let c = sched@[k];
                assert(self.is_loaded(c as int));
                let j = seq_slot(self.chunks@, c as int);
                assert(self.chunks@[j].wf());
                assert(valid_chunk_col(self.chunks@[j].view_x() as int));
            }
            assert(sched@ == self.fluid_schedule(center_chunk as int));
        }
        if sched.len() == 0 {
            self.active_fluid_chunks = kept;
            proof {
                assert(self.blocks_fn() =~= old(self).blocks_fn());
            }
            return;
        }
        let nether = self.dimension == Dimension::Nether;
        let process_lava = nether || self.tick_counter % 30 == 0;
        let props = self.collect_fluid_proposals(&sched, process_lava, nether);
        let (m, woken) = merge_fluid_proposals(&props);
        let mut next_active = kept;
        let mut j: usize = 0;
        while j < woken.len()
            invariant
                j <= woken@.len(),
                next_active@.no_duplicates(),
                next_active@.to_set() == old(self).fluid_frontier().filter(kp).union(woken@.take(j as int).to_set()),
            decreases woken@.len() - j,
        {
            let ghost before = next_active@.to_set();
            insert_column(&mut next_active, woken[j]);
            proof {
                woken@.take(j as int).lemma_push_to_set_commute(woken@[j as int]);
                assert(woken@.take(j + 1) =~= woken@.take(j as int).push(woken@[j as int]));
                assert(next_active@.to_set() =~= old(self).fluid_frontier().filter(kp).union(woken@.take(j + 1).to_set()));
            }
            j = j + 1;
        }
        proof {
            assert(woken@.take(woken@.len() as int) =~= woken@);
        }
        let changes = entries_to_changes(&m);
        proof {
            assert forall|k: int| 0 <= k < changes@.len() implies i32::MIN < #[trigger] changes@[k].0 < i32::MAX by {
                assert(changes@[k].0 == m@[k].0.0);
            }
        }
        self.apply_changes(&changes);
        let ghost applied = *self;
        self.active_fluid_chunks = next_active;
        proof {
            assert(self.chunks == applied.chunks);
            assert(self.same_columns(&applied));
            assert(self.blocks_fn() =~= applied.blocks_fn());
        }
    }

    /// The climate of world column `world_x`, if its chunk is loaded.
    pub fn get_biome(&self, world_x: i32) -> (r: Option<BiomeType>)
        requires
            self.wf(),
        ensures
            match r {
                Some(b) => self.is_loaded(chunk_col(world_x as int)) && b == self.biome_at(world_x as int),
                None => !self.is_loaded(chunk_col(world_x as int)),
            },
    {
        let (cx, lx) = split_world_x(world_x);
        match self.find_slot(cx) {
            Some(i) => {
                proof {
                    assert(self.biomes@[i as int]@.len() == 32);
                }
                Some(self.biomes[i][lx])
            },
            None => None,
        }
    }

    /// Whether water lies within four columns and one row of (wx, wy).
    pub fn has_nearby_farmland_water(&self, wx: i32, wy: i32) -> (r: bool)
        requires
            self.wf(),
            -0x4000_0000 <= wx < 0x4000_0000,
            -0x4000_0000 <= wy < 0x4000_0000,
        ensures
            r == farmland_water_in(self.blocks_fn(), wx as int, wy as int),
    {
        let ghost f = self.blocks_fn();
        let mut dx: i32 = -4;
        while dx <= 4
            invariant
                self.wf(),
                f == self.blocks_fn(),
                -0x4000_0000 <= wx < 0x4000_0000,
                -0x4000_0000 <= wy < 0x4000_0000,
                -4 <= dx <= 5,
                forall|a: int, b: int| -4 <= a < dx && -1 <= b <= 1 ==> !(#[trigger] f(wx + a, wy + b) is Water),
            decreases 5 - dx,
        {
            let mut dy: i32 = -1;
            while dy <= 1
                invariant
                    self.wf(),
                    f == self.blocks_fn(),
                    -0x4000_0000 <= wx < 0x4000_0000,
                    -0x4000_0000 <= wy < 0x4000_0000,
                    -4 <= dx <= 4,
                    -1 <= dy <= 2,
                    forall|a: int, b: int| -4 <= a < dx && -1 <= b <= 1 ==> !(#[trigger] f(wx + a, wy + b) is Water),
                    forall|b: int| -1 <= b < dy ==> !(#[trigger] f(wx + dx, wy + b) is Water),
                decreases 2 - dy,
            {
                if matches!(self.get_block(wx + dx, wy + dy), BlockType::Water(_)) {
                    proof {
                        let a = dx as int;
                        let b = dy as int;
                        assert(f(wx + a, wy + b) is Water);
                    }
                    return true;
                }
                dy = dy + 1;
            }
            dx = dx + 1;
        }
        false
    }

    /// The height of the sugar cane stalk whose top is (wx, wy).
    fn sugar_cane_height_at(&self, wx: i32, wy: i32) -> (r: i32)
        requires
            self.wf(),
            0 <= wy < 128,
        ensures
            r == cane_height_in(self.blocks_fn(), wx as int, wy as int),
    {
        let ghost f = self.blocks_fn();
        let mut height: i32 = 1;
        let mut current_y: i32 = wy;
        while self.get_block(wx, current_y + 1) == BlockType::SugarCane
            invariant
                self.wf(),
                f == self.blocks_fn(),
                0 <= wy <= current_y < 128,
                height == 1 + current_y - wy,
                cane_height_in(f, wx as int, wy as int) == (current_y - wy) + cane_height_in(f, wx as int, current_y as int),
            decreases 128 - current_y,
        {
            proof {
                assert(self.block_at(wx as int, current_y + 1) == BlockType::SugarCane);
                assert(current_y + 1 < 128);
            }
            height = height + 1;
            current_y = current_y + 1;
        }
        height
    }

    /// Whether the sapling at (wx, wy) has room to grow into a tree.
    #[verifier::loop_isolation(false)]
    fn can_grow_sapling_tree(&self, wx: i32, wy: i32) -> (r: bool)
        requires
            self.wf(),
            -0x4000_0000 <= wx < 0x4000_0000,
            0 <= wy < 128,
        ensures
            r == tree_fits_in(self.blocks_fn(), self.biome_fn(), wx as int, wy as int),
    {
        let ghost f = self.blocks_fn();
        let ghost bio = self.biome_fn();
        let sapling_block = self.get_block(wx, wy);
        if !(sapling_block == BlockType::Sapling || sapling_block == BlockType::BirchSapling) {
            return false;
        }
        if !sapling_block.can_stay_on(self.get_block(wx, wy + 1)) {
            return false;
        }
        let biome = match self.get_biome(wx) {
            Some(b) => b,
            None => {
                return false;
            },
        };
        let (_, leaf_block) = tree_blocks_for(sapling_block, biome);
        let trunk_height = sapling_tree_height_for(wx, wy, sapling_block, biome);
        let crown_y = wy - (trunk_height - 1);
        if crown_y - 3 < 0 {
            return false;
        }
        let mut dy: i32 = 0;
        while dy < trunk_height
            invariant
                self.wf(),
                f == self.blocks_fn(),
                0 <= dy <= trunk_height <= 7,
                0 <= wy < 128,
                forall|d: int| 0 <= d < dy ==> tree_replaceable(#[trigger] f(wx as int, wy - d)),
            decreases trunk_height - dy,
        {
            if !is_tree_growth_replaceable(self.get_block(wx, wy - dy)) {
                proof {
                    let d = dy as int;
                    assert(!tree_replaceable(f(wx as int, wy - d)));
                }
                return false;
            }
            dy = dy + 1;
        }
        let mut r: i32 = 0;
        while r < 3
            invariant
                self.wf(),
                f == self.blocks_fn(),
                0 <= r <= 3,
                3 <= crown_y < 128,
                -0x4000_0000 <= wx < 0x4000_0000,
                forall|rr: int, lx: int|
                    0 <= rr < r && wx - crown_width(biome, rr) <= lx <= wx + crown_width(biome, rr) ==> (tree_replaceable(
                        #[trigger] f(lx, crown_y - 2 + rr),
                    ) || f(lx, crown_y - 2 + rr) == leaf_block),
            decreases 3 - r,
        {
            let w = crown_width_for(biome, r);
            let mut lx: i32 = wx - w;
            while lx <= wx + w
                invariant
                    self.wf(),
                    f == self.blocks_fn(),
                    0 <= r < 3,
                    0 <= w <= 2,
                    w == crown_width(biome, r as int),
                    3 <= crown_y < 128,
                    -0x4000_0000 <= wx < 0x4000_0000,
                    wx - w <= lx <= wx + w + 1,
                    forall|rr: int, l: int|
                        0 <= rr < r && wx - crown_width(biome, rr) <= l <= wx + crown_width(biome, rr) ==> (tree_replaceable(
                            #[trigger] f(l, crown_y - 2 + rr),
                        ) || f(l, crown_y - 2 + rr) == leaf_block),
                    forall|l: int| wx - w <= l < lx ==> (tree_replaceable(#[trigger] f(l, crown_y - 2 + r)) || f(
                        l,
                        crown_y - 2 + r,
                    ) == leaf_block),
                decreases wx + w + 1 - lx,
            {
                let block = self.get_block(lx, crown_y - 2 + r);
                if !is_tree_growth_replaceable(block) && block != leaf_block {
                    proof {
                        let rr = r as int;
                        let l = lx as int;
                        assert(f(l, crown_y - 2 + rr) == block);
                        assert(!(tree_replaceable(f(l, crown_y - 2 + rr)) || f(l, crown_y - 2 + rr) == leaf_block));
                    }
                    return false;
                }
                lx = lx + 1;
            }
            r = r + 1;
        }
        if biome == BiomeType::Taiga || biome == BiomeType::Jungle {
            let block = self.get_block(wx, crown_y - 3);
            if !is_tree_growth_replaceable(block) && block != leaf_block {
                return false;
            }
        }
        true
    }

    /// Carries out the placements of `plan` in turn, skipping a flagged one
    /// whose cell is not air by then.
    fn apply_plan(&mut self, plan: &Vec<(i32, i32, BlockType, bool)>)
        requires
            old(self).wf(),
            forall|k: int| 0 <= k < plan@.len() ==> i32::MIN < #[trigger] plan@[k].0 < i32::MAX,
        ensures
            final(self).wf(),
            final(self).same_columns(old(self)),
            final(self).same_setting(old(self)),
            final(self).blocks_fn() == after_plan_in(old(self).blocks_fn(), old(self).loaded_fn(), plan@),
            final(self).environment_drops() == old(self).environment_drops() + drops_after_plan_in(
                old(self).blocks_fn(),
                old(self).loaded_fn(),
                plan@,
            ),
            old(self).fluid_frontier().subset_of(final(self).fluid_frontier()),
    {
        let mut i: usize = 0;
        while i < plan.len()
            invariant
                self.wf(),
                i <= plan@.len(),
                forall|k: int| 0 <= k < plan@.len() ==> i32::MIN < #[trigger] plan@[k].0 < i32::MAX,
                self.same_columns(old(self)),
                self.same_setting(old(self)),
                self.blocks_fn() == after_plan_in(old(self).blocks_fn(), old(self).loaded_fn(), plan@.take(i as int)),
                self.environment_drops() == old(self).environment_drops() + drops_after_plan_in(
                    old(self).blocks_fn(),
                    old(self).loaded_fn(),
                    plan@.take(i as int),
                ),
                old(self).fluid_frontier().subset_of(self.fluid_frontier()),
            decreases plan@.len() - i,
        {
            let (x, y, b, only_air) = plan[i];
            proof {
                assert(i32::MIN < plan@[i as int].0 < i32::MAX);
            }
            let ghost before = *self;
            let ghost t = plan@.take(i as int + 1);
            proof {
                assert(t.drop_last() =~= plan@.take(i as int));
                assert(t.last() == plan@[i as int]);
                assert(before.loaded_fn() =~= old(self).loaded_fn());
            }
            if !only_air || self.get_block(x, y) == BlockType::Air {
                self.set_block(x, y, b);
            }
            proof {
                assert(self.blocks_fn() =~= after_plan_in(old(self).blocks_fn(), old(self).loaded_fn(), t));
                assert(self.environment_drops() =~= old(self).environment_drops() + drops_after_plan_in(
                    old(self).blocks_fn(),
                    old(self).loaded_fn(),
                    t,
                ));
            }
            i = i + 1;
        }
        proof {
            assert(plan@.take(plan@.len() as int) =~= plan@);
        }
    }

    /// Grows the sapling at (wx, wy) into a tree when it has room: the trunk,
    /// then leaves into the air cells of the crown (and cap).
    fn grow_sapling_tree(&mut self, wx: i32, wy: i32)
        requires
            old(self).wf(),
            -0x4000_0000 <= wx < 0x4000_0000,
        ensures
            final(self).wf(),
            final(self).same_columns(old(self)),
            final(self).same_setting(old(self)),
            final(self).blocks_fn() == after_grow_in(old(self).blocks_fn(), old(self).loaded_fn(), old(self).biome_fn(), wx as int, wy as int),
            final(self).environment_drops() == old(self).environment_drops() + drops_after_grow_in(
                old(self).blocks_fn(),
                old(self).loaded_fn(),
                old(self).biome_fn(),
                wx as int,
                wy as int,
            ),
            old(self).fluid_frontier().subset_of(final(self).fluid_frontier()),
    {
        if wy < 0 || wy >= CHUNK_HEIGHT as i32 || !self.can_grow_sapling_tree(wx, wy) {
            proof {
                if !(0 <= wy < 128) {
                    assert(!tree_fits_in(self.blocks_fn(), self.biome_fn(), wx as int, wy as int));
                }
                assert(self.blocks_fn() =~= after_grow_in(self.blocks_fn(), self.loaded_fn(), self.biome_fn(), wx as int, wy as int));
            }
            return;
        }
        let sapling_block = self.get_block(wx, wy);
        let biome = self.get_biome(wx).unwrap();
        let plan = tree_plan_for(wx, wy, sapling_block, biome);
        proof {
            assert forall|k: int| 0 <= k < plan@.len() implies i32::MIN < #[trigger] plan@[k].0 < i32::MAX by {
                let h = tree_height(wx, wy, sapling_block, biome);
                assert(3 <= h <= 7) by {
                    let v = (wx.wrapping_mul(17) ^ wy.wrapping_mul(13)) as int % 3;
                    assert(0 <= v < 3);
                }
            }
        }
        self.apply_plan(&plan);
    }

    /// A cell that is not air lies in a loaded chunk, whose columns are far
    /// from the ends of `i32`.
    proof fn lemma_solid_cell_in_range(&self, x: int, y: int)
        requires
            self.wf(),
            self.block_at(x, y) != BlockType::Air,
        ensures
            -0x4000_0000 <= x < 0x4000_0000,
            0 <= y < 128,
    {
        assert(seq_has(self.chunks@, chunk_col(x)));
        let k = seq_slot(self.chunks@, chunk_col(x));
        assert(self.chunks@[k].wf());
        assert(valid_chunk_col(self.chunks@[k].view_x() as int));
    }

    /// The open grass surface of column `wx` nearest to row `center_ground_y`.
    fn find_bone_meal_grass_surface_near(&self, wx: i32, center_ground_y: i32) -> (r: Option<i32>)
        requires
            self.wf(),
            0 <= center_ground_y < 128,
        ensures
            r == match grass_surface_near_in(self.blocks_fn(), wx as int, center_ground_y as int) {
                Some(g) => Some(g as i32),
                None => None::<i32>,
            },
    {
        let c = center_ground_y;
        // Nearest row first; of two rows as near, the upper one.
        let order: [i32; 5] = [c, c - 1, c + 1, c - 2, c + 2];
        let mut k: usize = 0;
        while k < 5
            invariant
                self.wf(),
                c == center_ground_y,
                0 <= c < 128,
                order@ == seq![c, (c - 1) as i32, (c + 1) as i32, (c - 2) as i32, (c + 2) as i32],
                k <= 5,
                forall|j: int| 0 <= j < k ==> !grass_top_in(self.blocks_fn(), wx as int, #[trigger] order@[j] as int),
            decreases 5 - k,
        {
            let gy = order[k];
            if 1 <= gy && gy <= 126 && self.get_block(wx, gy) == BlockType::Grass && self.get_block(wx, gy - 1)
                == BlockType::Air {
                proof {
                    let f = self.blocks_fn();
                    let x = wx as int;
                    let ci = c as int;
                    assert(grass_top_in(f, x, gy as int));
                    assert(order@[0] as int == ci && order@[1] as int == ci - 1 && order@[2] as int == ci + 1
                        && order@[3] as int == ci - 2 && order@[4] as int == ci + 2);
                    if k == 0 {
                        assert(gy as int == ci);
                    } else if k == 1 {
                        assert(!grass_top_in(f, x, order@[0] as int));
                        assert(gy as int == ci - 1);
                    } else if k == 2 {
                        assert(!grass_top_in(f, x, order@[0] as int));
                        assert(!grass_top_in(f, x, order@[1] as int));
                        assert(gy as int == ci + 1);
                    } else if k == 3 {
                        assert(!grass_top_in(f, x, order@[0] as int));
                        assert(!grass_top_in(f, x, order@[1] as int));
                        assert(!grass_top_in(f, x, order@[2] as int));
                        assert(gy as int == ci - 2);
                    } else {
                        assert(!grass_top_in(f, x, order@[0] as int));
                        assert(!grass_top_in(f, x, order@[1] as int));
                        assert(!grass_top_in(f, x, order@[2] as int));
                        assert(!grass_top_in(f, x, order@[3] as int));
                        assert(gy as int == ci + 2);
                    }
                    assert(grass_surface_near_in(f, x, ci) == Some(gy as int));
                }
                return Some(gy);
            }
            k = k + 1;
        }
        proof {
            assert(!grass_top_in(self.blocks_fn(), wx as int, order@[0] as int));
            assert(!grass_top_in(self.blocks_fn(), wx as int, order@[1] as int));
            assert(!grass_top_in(self.blocks_fn(), wx as int, order@[2] as int));
            assert(!grass_top_in(self.blocks_fn(), wx as int, order@[3] as int));
            assert(!grass_top_in(self.blocks_fn(), wx as int, order@[4] as int));
        }
        None
    }

    /// Grows flora around the grass at (center_x, center_ground_y); false
    /// when there is no open grass surface near it to grow on.
    fn apply_bone_meal_to_grass(&mut self, center_x: i32, center_ground_y: i32) -> (r: bool)
        requires
            old(self).wf(),
            -0x4000_0000 <= center_x < 0x4000_0000,
            0 <= center_ground_y < 128,
        ensures
            final(self).wf(),
            final(self).same_columns(old(self)),
            final(self).same_setting(old(self)),
            r == (bone_meal_flora_in(old(self).blocks_fn(), center_x, center_ground_y).len() > 0),
            final(self).blocks_fn() == after_sets_in(
                old(self).blocks_fn(),
                old(self).loaded_fn(),
                bone_meal_flora_in(old(self).blocks_fn(), center_x, center_ground_y),
            ),
            final(self).environment_drops() == old(self).environment_drops() + drops_after_sets_in(
                old(self).blocks_fn(),
                old(self).loaded_fn(),
                bone_meal_flora_in(old(self).blocks_fn(), center_x, center_ground_y),
            ),
            old(self).fluid_frontier().subset_of(final(self).fluid_frontier()),
    {
        let ghost f = self.blocks_fn();
        let mut chosen: Vec<(i32, i32, BlockType)> = Vec::new();
        let mut fallback: Option<(i32, i32, BlockType)> = None;
        let mut dx: i32 = -3;
        while dx <= 3
            invariant
                self.wf(),
                f == self.blocks_fn(),
                -0x4000_0000 <= center_x < 0x4000_0000,
                0 <= center_ground_y < 128,
                -3 <= dx <= 4,
                chosen@ == flora_chosen_in(f, center_x, center_ground_y, (dx + 3) as nat),
                fallback == flora_fallback_in(f, center_x, center_ground_y, (dx + 3) as nat),
                forall|k: int| 0 <= k < chosen@.len() ==> center_x - 3 <= #[trigger] chosen@[k].0 <= center_x + 3,
                fallback matches Some(c) ==> center_x - 3 <= c.0 <= center_x + 3,
            decreases 4 - dx,
        {
            let wx = center_x + dx;
            let ghost n: nat = (dx + 4) as nat;
            match self.find_bone_meal_grass_surface_near(wx, center_ground_y) {
                None => {
                    proof {
                        assert(flora_candidate_in(f, center_x, center_ground_y, n - 4) is None);
                    }
                },
                Some(ground_y) => {
                    let place_y = ground_y - 1;
                    let flora = bone_meal_flora_block_at(wx, place_y);
                    let should_place = dx == 0 || rem_euclid_i32(
                        center_x.wrapping_mul(29) ^ center_ground_y.wrapping_mul(31) ^ wx.wrapping_mul(17)
                            ^ ground_y.wrapping_mul(13),
                        3,
                    ) != 0;
                    proof {
                        assert(flora_candidate_in(f, center_x, center_ground_y, n - 4) == Some(
                            (wx, place_y, flora, should_place),
                        ));
                    }
                    if should_place {
                        chosen.push((wx, place_y, flora));
                    } else if fallback.is_none() {
                        fallback = Some((wx, place_y, flora));
                    }
                },
            }
            dx = dx + 1;
        }
        if chosen.len() == 0 {
            match fallback {
                Some(candidate) => {
                    chosen.push(candidate);
                },
                None => {},
            }
        }
        proof {
            assert(chosen@ == bone_meal_flora_in(f, center_x, center_ground_y));
        }
        if chosen.len() == 0 {
            proof {
                assert(self.blocks_fn() =~= after_sets_in(f, self.loaded_fn(), chosen@));
                assert(drops_after_sets_in(f, self.loaded_fn(), chosen@) =~= Seq::<(i32, i32, ItemType)>::empty());
                assert(self.environment_drops() =~= self.environment_drops() + Seq::<(i32, i32, ItemType)>::empty());
            }
            return false;
        }
        self.apply_changes(&chosen);
        true
    }

    /// Uses bone meal at (wx, wy): ripens young crops, grows a sapling that
    /// has room into a tree, and grows flora around grass (also when used on
    /// a grass plant or a flower standing on grass). False, with nothing
    /// changed, on anything else.
    pub fn apply_bone_meal(&mut self, wx: i32, wy: i32) -> (r: bool)
        requires
            old(self).wf(),
        ensures
            final(self).wf(),
            final(self).same_columns(old(self)),
            final(self).same_setting(old(self)),
            old(self).fluid_frontier().subset_of(final(self).fluid_frontier()),
            ({
                let f = old(self).blocks_fn();
                let loaded = old(self).loaded_fn();
                let b = f(wx as int, wy as int);
                if b matches BlockType::Crops(stage) && stage < 7 {
                    &&& r
                    &&& final(self).blocks_fn() == after_sets_in(f, loaded, seq![(wx, wy, BlockType::Crops(7))])
                    &&& final(self).environment_drops() == old(self).environment_drops() + drops_after_sets_in(
                        f,
                        loaded,
                        seq![(wx, wy, BlockType::Crops(7))],
                    )
                } else if b == BlockType::Sapling || b == BlockType::BirchSapling {
                    let bio = old(self).biome_fn();
                    &&& r == tree_fits_in(f, bio, wx as int, wy as int)
                    &&& final(self).blocks_fn() == after_grow_in(f, loaded, bio, wx as int, wy as int)
                    &&& final(self).environment_drops() == old(self).environment_drops() + drops_after_grow_in(
                        f,
                        loaded,
                        bio,
                        wx as int,
                        wy as int,
                    )
                } else if bone_meal_grass_center_in(f, wx as int, wy as int) is Some {
                    let cy = bone_meal_grass_center_in(f, wx as int, wy as int)->0;
                    let placed = bone_meal_flora_in(f, wx, cy as i32);
                    &&& r == (placed.len() > 0)
                    &&& final(self).blocks_fn() == after_sets_in(f, loaded, placed)
                    &&& final(self).environment_drops() == old(self).environment_drops() + drops_after_sets_in(
                        f,
                        loaded,
                        placed,
                    )
                } else {
                    &&& !r
                    &&& final(self).blocks_fn() == f
                    &&& final(self).environment_drops() == old(self).environment_drops()
                }
            }),
    {
        let ghost f = self.blocks_fn();
        let block = self.get_block(wx, wy);
        if block != BlockType::Air {
            proof {
                self.lemma_solid_cell_in_range(wx as int, wy as int);
            }
        }
        match block {
            BlockType::Crops(stage) => {
                if stage < 7 {
                    let changes = vec![(wx, wy, BlockType::Crops(7))];
                    proof {
                        assert(changes@ == seq![(wx, wy, BlockType::Crops(7))]);
                    }
                    self.apply_changes(&changes);
                    return true;
                }
            },
            BlockType::Sapling | BlockType::BirchSapling => {
                if self.can_grow_sapling_tree(wx, wy) {
                    self.grow_sapling_tree(wx, wy);
                    return true;
                }
                proof {
                    assert(f =~= after_grow_in(f, self.loaded_fn(), self.biome_fn(), wx as int, wy as int));
                    assert(self.environment_drops() =~= self.environment_drops() + drops_after_grow_in(
                        f,
                        self.loaded_fn(),
                        self.biome_fn(),
                        wx as int,
                        wy as int,
                    ));
                }
                return false;
            },
            BlockType::Grass => {
                return self.apply_bone_meal_to_grass(wx, wy);
            },
            BlockType::TallGrass | BlockType::RedFlower | BlockType::YellowFlower => {
                if self.get_block(wx, wy + 1) == BlockType::Grass {
                    return self.apply_bone_meal_to_grass(wx, wy + 1);
                }
            },
            _ => {},
        }
        false
    }

    /// Worlds with the same chunk columns and climates agree on every
    /// column's climate.
    proof fn lemma_biomes_stable(a: &World, b: &World)
        requires
            a.wf(),
            b.wf(),
            a.same_columns(b),
            a.same_setting(b),
        ensures
            a.biome_fn() == b.biome_fn(),
    {
        assert forall|x: int| #[trigger] a.biome_at(x) == b.biome_at(x) by {
            if a.is_loaded(chunk_col(x)) {
                let k = seq_slot(a.chunks@, chunk_col(x));
                lemma_seq_slot(a.chunks@, k);
                assert(chunk_columns(a.chunks@)[k] == chunk_columns(b.chunks@)[k]);
                assert(b.chunks@[k].view_x() == a.chunks@[k].view_x());
                lemma_seq_slot(b.chunks@, k);
            }
        }
        assert(a.biome_fn() =~= b.biome_fn());
    }

    /// The farming tick at (x, y): its changes, drops and sapling to grow,
    /// with the growth roll it drew (false when it drew none).
    fn farm_cell(&self, phase: i32, x: i32, y: i32) -> (r: (
        Vec<(i32, i32, BlockType)>,
        Vec<(i32, i32, ItemType)>,
        Vec<(i32, i32)>,
        Ghost<bool>,
    ))
        requires
            self.wf(),
            -0x4000_0000 <= x < 0x4000_0000,
            0 <= y < 128,
        ensures
            (r.0@, r.1@, r.2@) == farm_cell_in(self.blocks_fn(), self.biome_fn(), phase, r.3@, x as int, y as int),
    {
        let mut changes: Vec<(i32, i32, BlockType)> = Vec::new();
        let mut drops: Vec<(i32, i32, ItemType)> = Vec::new();
        let mut grows: Vec<(i32, i32)> = Vec::new();
        let mut lucky = false;
        let block = self.get_block(x, y);
        match block {
            BlockType::Farmland(moisture) => {
                let has_water = self.has_nearby_farmland_water(x, y);
                if has_water && moisture < 7 {
                    changes.push((x, y, BlockType::Farmland(7)));
                } else if !has_water && moisture > 0 {
                    changes.push((x, y, BlockType::Farmland(moisture - 1)));
                } else if !has_water && moisture == 0 && self.get_block(x, y - 1) == BlockType::Air
                    && dry_farmland_revert_due_at(x, y, phase) {
                    changes.push((x, y, BlockType::Dirt));
                }
            },
            BlockType::Crops(stage) => {
                let ground = self.get_block(x, y + 1);
                if let BlockType::Farmland(moisture) = ground {
                    if stage < 7 {
                        lucky = if moisture > 0 {
                            chance(1, 5)
                        } else {
                            chance(1, 20)
                        };
                        if lucky {
                            changes.push((x, y, BlockType::Crops(stage + 1)));
                        }
                    }
                } else {
                    changes.push((x, y, BlockType::Air));
                }
            },
            BlockType::Sapling | BlockType::BirchSapling => {
                if !block.can_stay_on(self.get_block(x, y + 1)) {
                    changes.push((x, y, BlockType::Air));
                } else if sapling_growth_due_at(x, y, phase) && self.can_grow_sapling_tree(x, y) {
                    grows.push((x, y));
                }
            },
            BlockType::SugarCane => {
                if !self.can_support_sugar_cane_at(x, y) {
                    changes.push((x, y, BlockType::Air));
                    drops.push((x, y, ItemType::SugarCane));
                } else if self.get_block(x, y - 1) == BlockType::Air && self.sugar_cane_height_at(x, y) < 3
                    && sugar_cane_growth_due_at(x, y, phase) {
                    changes.push((x, y - 1, BlockType::SugarCane));
                }
            },
            BlockType::NetherWart(stage) => {
                if !block.can_stay_on(self.get_block(x, y + 1)) {
                    changes.push((x, y, BlockType::Air));
                    let drop_count = nether_wart_drop_count_at(x, y, stage >= 3);
                    let mut n: u32 = 0;
                    while n < drop_count
                        invariant
                            n <= drop_count,
                            drops@ == Seq::new(n as nat, |i: int| (x, y, ItemType::NetherWart)),
                        decreases drop_count - n,
                    {
                        drops.push((x, y, ItemType::NetherWart));
                        n = n + 1;
                        proof {
                            assert(drops@ =~= Seq::new(n as nat, |i: int| (x, y, ItemType::NetherWart)));
                        }
                    }
                } else if stage < 3 && nether_wart_growth_due_at(x, y, phase) {
                    changes.push((x, y, BlockType::NetherWart(stage + 1)));
                }
            },
            _ => {},
        }
        proof {
            let c = farm_cell_in(self.blocks_fn(), self.biome_fn(), phase, lucky, x as int, y as int);
            assert(changes@ =~= c.0);
            assert(drops@ =~= c.1);
            assert(grows@ =~= c.2);
        }
        (changes, drops, grows, Ghost(lucky))
    }

    /// A chunk out of reach of the farming tick, or without blocks it
    /// updates, adds nothing to it.
    proof fn lemma_farm_skip(w: &World, i: int, center: int, phase: i32, draws: Seq<bool>)
        requires
            w.wf(),
            0 <= i < w.chunks@.len(),
            !(-2 <= w.chunks@[i].view_x() - center <= 2) || !w.chunks@[i].has_kind(ActivityKind::Farming),
        ensures
            farm_upto(w.blocks_fn(), w.biome_fn(), w.chunk_order(), center, phase, draws, i * 4096 + 4096) == farm_upto(
                w.blocks_fn(),
                w.biome_fn(),
                w.chunk_order(),
                center,
                phase,
                draws,
                i * 4096,
            ),
    {
        let f = w.blocks_fn();
        let bio = w.biome_fn();
        let order = w.chunk_order();
        let c = w.chunks@[i];
        let cx = c.view_x() as int;
        lemma_seq_slot(w.chunks@, i);
        assert(chunks_wf(w.chunks@));
        assert(w.chunks@[i].wf());
        assert(valid_chunk_col(cx));
        c.lemma_wf_views();
        assert(order[i] == cx);
        if -2 <= cx - center <= 2 {
            law_activity_means_presence(c.view_blocks(), ActivityKind::Farming);
        }
        assert forall|k: int| 0 <= k <= 4096 implies #[trigger] farm_upto(f, bio, order, center, phase, draws, i * 4096 + k)
            == farm_upto(f, bio, order, center, phase, draws, i * 4096) by {
            Self::lemma_farm_skip_steps(w, i, center, phase, draws, k);
        }
        assert(farm_upto(f, bio, order, center, phase, draws, i * 4096 + 4096) == farm_upto(f, bio, order, center, phase, draws, i * 4096));
    }

    /// The steps of `lemma_farm_skip`.
    proof fn lemma_farm_skip_steps(w: &World, i: int, center: int, phase: i32, draws: Seq<bool>, k: int)
        requires
            w.wf(),
            0 <= i < w.chunks@.len(),
            0 <= k <= 4096,
            !(-2 <= w.chunks@[i].view_x() - center <= 2) || !w.chunks@[i].has_kind(ActivityKind::Farming),
        ensures
            farm_upto(w.blocks_fn(), w.biome_fn(), w.chunk_order(), center, phase, draws, i * 4096 + k) == farm_upto(
                w.blocks_fn(),
                w.biome_fn(),
                w.chunk_order(),
                center,
                phase,
                draws,
                i * 4096,
            ),
        decreases k,
    {
        if k > 0 {
            Self::lemma_farm_skip_steps(w, i, center, phase, draws, k - 1);
            let f = w.blocks_fn();
            let bio = w.biome_fn();
            let order = w.chunk_order();
            let c = w.chunks@[i];
            let cx = c.view_x() as int;
            lemma_seq_slot(w.chunks@, i);
            assert(chunks_wf(w.chunks@));
            assert(w.chunks@[i].wf());
            assert(valid_chunk_col(cx));
            c.lemma_wf_views();
            assert(order[i] == cx);
            let q = i * 4096 + k - 1;
            let yy = (k - 1) / 32;
            let xx = (k - 1) % 32;
            assert(q == i * 4096 + yy * 32 + xx);
            lemma_scan_pos(i, yy, xx);
            if -2 <= cx - center <= 2 {
                law_activity_means_presence(c.view_blocks(), ActivityKind::Farming);
                let wx = cx * 32 + xx;
                assert(chunk_col(wx) == cx && col_in_chunk(wx) == xx);
                assert(f(wx, yy) == c.view_blocks()[cell_index(xx, yy)]);
                assert(!super::chunk::in_kind(c.view_blocks()[cell_index(xx, yy)], ActivityKind::Farming));
                let prev = farm_upto(f, bio, order, center, phase, draws, q);
                assert(farm_upto(f, bio, order, center, phase, draws, q + 1) =~= prev);
            }
        }
    }

    /// The farming tick over the chunks within two of `center_chunk`, in
    /// this tick's phase: every farming block, read from the world as it
    /// was, gives its changes, drops and saplings to grow (crops roll for
    /// growth: one in five on wet farmland, one in twenty on dry); then the
    /// drops are recorded, the changes placed, and the saplings grown.
    pub fn update_farming(&mut self, center_chunk: i32)
        requires
            old(self).wf(),
        ensures
            old(self).farming_step(final(self), center_chunk as int),
    {
        let growth_phase = (self.tick_counter / 20) as i32;
        let ghost f = self.blocks_fn();
        let ghost bio = self.biome_fn();
        let ghost order = self.chunk_order();
        let ghost mut draws: Seq<bool> = Seq::empty();
        let mut changes: Vec<(i32, i32, BlockType)> = Vec::new();
        let mut drops: Vec<(i32, i32, ItemType)> = Vec::new();
        let mut grows: Vec<(i32, i32)> = Vec::new();
        proof {
            self.lemma_order_valid();
        }
        let mut i: usize = 0;
        while i < self.chunks.len()
            invariant
                self.wf(),
                *self == *old(self),
                f == self.blocks_fn(),
                bio == self.biome_fn(),
                order == self.chunk_order(),
                order.len() == self.chunks@.len(),
                growth_phase == self.spec_phase(),
                i <= self.chunks@.len(),
                draws.len() == i * 4096,
                (changes@, drops@, grows@) == farm_upto(f, bio, order, center_chunk as int, growth_phase, draws, i * 4096),
                forall|k: int| 0 <= k < changes@.len() ==> i32::MIN < #[trigger] changes@[k].0 < i32::MAX,
                forall|k: int| 0 <= k < grows@.len() ==> -0x4000_0000 <= #[trigger] grows@[k].0 < 0x4000_0000,
            decreases self.chunks@.len() - i,
        {
            let cx = self.chunks[i].column();
            let ghost c = self.chunks@[i as int];
            proof {
                assert(order[i as int] == cx);
                lemma_seq_slot(self.chunks@, i as int);
                assert(chunks_wf(self.chunks@));
                assert(self.chunks@[i as int].wf());
                assert(valid_chunk_col(c.view_x() as int));
            }
            let d: i64 = cx as i64 - center_chunk as i64;
            if d < -2 || d > 2 || !self.chunks[i].has_farming_blocks() {
                proof {
                    let pad = Seq::new(4096, |k: int| false);
                    Self::lemma_farm_skip(self, i as int, center_chunk as int, growth_phase, draws + pad);
                    lemma_farm_draws(f, bio, order, center_chunk as int, growth_phase, draws, draws + pad, i * 4096);
                    draws = draws + pad;
                }
                i = i + 1;
            } else {
                let mut y: usize = 0;
                while y < CHUNK_HEIGHT
                    invariant
                        self.wf(),
                        *self == *old(self),
                        f == self.blocks_fn(),
                        bio == self.biome_fn(),
                        order == self.chunk_order(),
                        i < self.chunks@.len(),
                        order[i as int] == cx,
                        valid_chunk_col(cx as int),
                        -2 <= d <= 2,
                        d == cx - center_chunk,
                        y <= 128,
                        draws.len() == i * 4096 + y * 32,
                        (changes@, drops@, grows@) == farm_upto(f, bio, order, center_chunk as int, growth_phase, draws, i * 4096 + y * 32),
                        forall|k: int| 0 <= k < changes@.len() ==> i32::MIN < #[trigger] changes@[k].0 < i32::MAX,
                        forall|k: int| 0 <= k < grows@.len() ==> -0x4000_0000 <= #[trigger] grows@[k].0 < 0x4000_0000,
                    decreases 128 - y,
                {
                    let mut x: usize = 0;
                    while x < CHUNK_WIDTH
                        invariant
                            self.wf(),
                            *self == *old(self),
                            f == self.blocks_fn(),
                            bio == self.biome_fn(),
                            order == self.chunk_order(),
                            i < self.chunks@.len(),
                            order[i as int] == cx,
                            valid_chunk_col(cx as int),
                            -2 <= d <= 2,
                            d == cx - center_chunk,
                            y < 128,
                            x <= 32,
                            draws.len() == i * 4096 + y * 32 + x,
                            (changes@, drops@, grows@) == farm_upto(f, bio, order, center_chunk as int, growth_phase, draws, i * 4096 + y * 32 + x),
                            forall|k: int| 0 <= k < changes@.len() ==> i32::MIN < #[trigger] changes@[k].0 < i32::MAX,
                            forall|k: int| 0 <= k < grows@.len() ==> -0x4000_0000 <= #[trigger] grows@[k].0 < 0x4000_0000,
                        decreases 32 - x,
                    {
                        let wx: i32 = cx * 32 + x as i32;
                        let (cell_changes, cell_drops, cell_grows, lucky) = self.farm_cell(growth_phase, wx, y as i32);
                        let ghost n = i * 4096 + y * 32 + x;
                        let ghost before = (changes@, drops@, grows@);
                        proof {
                            lemma_farm_draws(f, bio, order, center_chunk as int, growth_phase, draws, draws.push(lucky@), n);
                            draws = draws.push(lucky@);
                            lemma_scan_pos(i as int, y as int, x as int);
                            assert(chunk_col(wx as int) == cx && col_in_chunk(wx as int) == x);
                        }
                        let mut k: usize = 0;
                        while k < cell_changes.len()
                            invariant
                                k <= cell_changes@.len(),
                                changes@ == before.0 + cell_changes@.take(k as int),
                                forall|j: int| 0 <= j < before.0.len() ==> i32::MIN < #[trigger] before.0[j].0 < i32::MAX,
                                forall|j: int| 0 <= j < cell_changes@.len() ==> wx - 1 <= #[trigger] cell_changes@[j].0 <= wx + 1,
                                -0x4000_0000 <= wx < 0x4000_0000,
                                forall|j: int| 0 <= j < changes@.len() ==> i32::MIN < #[trigger] changes@[j].0 < i32::MAX,
                            decreases cell_changes@.len() - k,
                        {
                            changes.push(cell_changes[k]);
                            proof {
                                assert(cell_changes@.take(k + 1) =~= cell_changes@.take(k as int).push(cell_changes@[k as int]));
                                assert(changes@ =~= before.0 + cell_changes@.take(k + 1));
                            }
                            k = k + 1;
                        }
                        let mut k2: usize = 0;
                        while k2 < cell_drops.len()
                            invariant
                                k2 <= cell_drops@.len(),
                                drops@ == before.1 + cell_drops@.take(k2 as int),
                            decreases cell_drops@.len() - k2,
                        {
                            drops.push(cell_drops[k2]);
                            proof {
                                assert(cell_drops@.take(k2 + 1) =~= cell_drops@.take(k2 as int).push(cell_drops@[k2 as int]));
                                assert(drops@ =~= before.1 + cell_drops@.take(k2 + 1));
                            }
                            k2 = k2 + 1;
                        }
                        let mut k3: usize = 0;
                        while k3 < cell_grows.len()
                            invariant
                                k3 <= cell_grows@.len(),
                                grows@ == before.2 + cell_grows@.take(k3 as int),
                                forall|j: int| 0 <= j < before.2.len() ==> -0x4000_0000 <= #[trigger] before.2[j].0 < 0x4000_0000,
                                forall|j: int| 0 <= j < cell_grows@.len() ==> #[trigger] cell_grows@[j].0 == wx,
                                -0x4000_0000 <= wx < 0x4000_0000,
                                forall|j: int| 0 <= j < grows@.len() ==> -0x4000_0000 <= #[trigger] grows@[j].0 < 0x4000_0000,
                            decreases cell_grows@.len() - k3,
                        {
                            grows.push(cell_grows[k3]);
                            proof {
                                assert(cell_grows@.take(k3 + 1) =~= cell_grows@.take(k3 as int).push(cell_grows@[k3 as int]));
                                assert(grows@ =~= before.2 + cell_grows@.take(k3 + 1));
                            }
                            k3 = k3 + 1;
                        }
                        proof {
                            assert(cell_changes@.take(cell_changes@.len() as int) =~= cell_changes@);
                            assert(cell_drops@.take(cell_drops@.len() as int) =~= cell_drops@);
                            assert(cell_grows@.take(cell_grows@.len() as int) =~= cell_grows@);
                            assert((changes@, drops@, grows@) == farm_upto(f, bio, order, center_chunk as int, growth_phase, draws, n + 1));
                        }
                        x = x + 1;
                    }
                    y = y + 1;
                }
                i = i + 1;
            }
        }
        let ghost final_draws = draws;
        let ghost r = (changes@, drops@, grows@);
        let mut k: usize = 0;
        while k < drops.len()
            invariant
                self.wf(),
                *self == (World { recent_environment_drops: self.recent_environment_drops, ..*old(self) }),
                k <= drops@.len(),
                self.environment_drops() == old(self).environment_drops() + drops@.take(k as int),
            decreases drops@.len() - k,
        {
            self.recent_environment_drops.push(drops[k]);
            proof {
                assert(drops@.take(k + 1) =~= drops@.take(k as int).push(drops@[k as int]));
                assert(self.environment_drops() =~= old(self).environment_drops() + drops@.take(k + 1));
            }
            k = k + 1;
        }
        proof {
            assert(drops@.take(drops@.len() as int) =~= drops@);
            assert(self.blocks_fn() =~= old(self).blocks_fn());
            assert(self.loaded_fn() =~= old(self).loaded_fn());
            assert(self.biome_fn() =~= old(self).biome_fn());
        }
        self.apply_changes(&changes);
        let ghost w1 = *self;
        proof {
            Self::lemma_biomes_stable(&w1, old(self));
            assert(w1.loaded_fn() =~= old(self).loaded_fn());
        }
        let mut g: usize = 0;
        while g < grows.len()
            invariant
                self.wf(),
                g <= grows@.len(),
                forall|j: int| 0 <= j < grows@.len() ==> -0x4000_0000 <= #[trigger] grows@[j].0 < 0x4000_0000,
                self.same_columns(old(self)),
                self.same_setting(old(self)),
                self.biome_fn() == old(self).biome_fn(),
                self.loaded_fn() == old(self).loaded_fn(),
                self.blocks_fn() == after_grows_in(w1.blocks_fn(), old(self).loaded_fn(), old(self).biome_fn(), grows@.take(g as int)),
                self.environment_drops() == w1.environment_drops() + drops_after_grows_in(
                    w1.blocks_fn(),
                    old(self).loaded_fn(),
                    old(self).biome_fn(),
                    grows@.take(g as int),
                ),
                old(self).fluid_frontier().subset_of(self.fluid_frontier()),
            decreases grows@.len() - g,
        {
            let (gx, gy) = grows[g];
            proof {
                assert(-0x4000_0000 <= grows@[g as int].0 < 0x4000_0000);
                assert(grows@.take(g + 1).drop_last() =~= grows@.take(g as int));
                assert(grows@.take(g + 1).last() == grows@[g as int]);
            }
            let ghost before = *self;
            self.grow_sapling_tree(gx, gy);
            proof {
                Self::lemma_biomes_stable(self, &before);
                assert(self.loaded_fn() =~= old(self).loaded_fn());
                assert(self.blocks_fn() =~= after_grows_in(w1.blocks_fn(), old(self).loaded_fn(), old(self).biome_fn(), grows@.take(g + 1)));
                assert(self.environment_drops() =~= w1.environment_drops() + drops_after_grows_in(
                    w1.blocks_fn(),
                    old(self).loaded_fn(),
                    old(self).biome_fn(),
                    grows@.take(g + 1),
                ));
            }
            g = g + 1;
        }
        proof {
            assert(grows@.take(grows@.len() as int) =~= grows@);
            assert(r == farm_upto(
                old(self).blocks_fn(),
                old(self).biome_fn(),
                old(self).chunk_order(),
                center_chunk as int,
                old(self).spec_phase(),
                final_draws,
                (old(self).chunk_order().len() * 4096) as int,
            ));
            assert(self.environment_drops() =~= old(self).environment_drops() + r.1 + drops_after_sets_in(
                old(self).blocks_fn(),
                old(self).loaded_fn(),
                r.0,
            ) + drops_after_grows_in(w1.blocks_fn(), old(self).loaded_fn(), old(self).biome_fn(), r.2));
        }
    }

    /// The first part of a simulation tick around world column `center_x`:
    /// the tick counter advances and the explosion records of the last tick
    /// are cleared; then, every second tick, the redstone components and
    /// outputs of the chunks within two of the player's chunk update. Returns
    /// the primed TNT whose fuse ran out; blowing it up is the caller's part,
    /// before `finish_update`.
    pub fn begin_update(&mut self, center_x: i32) -> (detonations: Vec<(i32, i32)>)
        requires
            old(self).wf(),
        ensures
            final(self).wf(),
            exists|ticked: World, mid: World, d: Seq<(i32, i32, BlockType)>|
                #![trigger old(self).ticked(&ticked), ticked.redstone_phase(&mid, final(self), chunk_col(center_x as int), d)]
                old(self).ticked(&ticked) && ticked.redstone_phase(&mid, final(self), chunk_col(center_x as int), d)
                    && detonations@ == d.map_values(|t: (i32, i32, BlockType)| (t.0, t.1)),
    {
        self.tick_counter = self.tick_counter.wrapping_add(1);
        self.recent_explosions.clear();
        self.recent_explosion_block_losses.clear();
        let ghost ticked = *self;
        proof {
            assert(old(self).ticked(&ticked));
        }
        let (center_chunk, _) = split_world_x(center_x);
        let mut out: Vec<(i32, i32)> = Vec::new();
        if self.tick_counter % 2 == 0 {
            self.update_redstone(center_chunk);
            let ghost mid = *self;
            let dets = self.update_redstone_outputs(center_chunk);
            let mut k: usize = 0;
            while k < dets.len()
                invariant
                    k <= dets@.len(),
                    out@ == dets@.take(k as int).map_values(|t: (i32, i32, BlockType)| (t.0, t.1)),
                decreases dets@.len() - k,
            {
                out.push((dets[k].0, dets[k].1));
                proof {
                    assert(out@ =~= dets@.take(k + 1).map_values(|t: (i32, i32, BlockType)| (t.0, t.1)));
                }
                k = k + 1;
            }
            proof {
                assert(dets@.take(dets@.len() as int) =~= dets@);
                assert(ticked.redstone_phase(&mid, self, center_chunk as int, dets@));
            }
        } else {
            proof {
                let d = Seq::<(i32, i32, BlockType)>::empty();
                assert(out@ =~= d.map_values(|t: (i32, i32, BlockType)| (t.0, t.1)));
                assert(ticked.redstone_phase(&ticked, self, center_chunk as int, d));
            }
        }
        out
    }

    /// The rest of a simulation tick around world column `center_x`, after
    /// `begin_update` and its explosions: every second tick sand and gravel
    /// fall, every fifth the fluids move, and every twentieth leaves decay,
    /// farming blocks grow and grass spreads, in that order.
    pub fn finish_update(&mut self, center_x: i32)
        requires
            old(self).wf(),
        ensures
            final(self).wf(),
            exists|m1: World, m2: World, m3: World, m4: World|
                #![trigger old(self).falling_phase(&m1, chunk_col(center_x as int)), m1.fluid_phase(&m2, chunk_col(center_x as int)), m2.leaf_phase(&m3, chunk_col(center_x as int)), m3.farming_phase(&m4, chunk_col(center_x as int))]
                old(self).falling_phase(&m1, chunk_col(center_x as int)) && m1.fluid_phase(&m2, chunk_col(center_x as int))
                    && m2.leaf_phase(&m3, chunk_col(center_x as int)) && m3.farming_phase(&m4, chunk_col(center_x as int))
                    && m4.grass_phase(final(self), chunk_col(center_x as int)),
    {
        let (center_chunk, _) = split_world_x(center_x);
        if self.tick_counter % 2 == 0 {
            self.update_falling_blocks(center_chunk);
        }
        let ghost m1 = *self;
        if self.tick_counter % 5 == 0 {
            self.update_fluids(center_chunk);
        }
        let ghost m2 = *self;
        if self.tick_counter % 20 == 0 {
            self.update_leaf_decay(center_chunk);
        }
        let ghost m3 = *self;
        if self.tick_counter % 20 == 0 {
            self.update_farming(center_chunk);
        }
        let ghost m4 = *self;
        if self.tick_counter % 20 == 0 {
            self.update_grass_spread(center_chunk);
        }
        proof {
            let c = center_chunk as int;
            assert(old(self).falling_phase(&m1, c));
            assert(m1.fluid_phase(&m2, c));
            assert(m2.leaf_phase(&m3, c));
            assert(m3.farming_phase(&m4, c));
            assert(m4.grass_phase(self, c));
        }
    }

    /// Queues a request to bring chunk column `chunk_x` in, ranked by its
    /// distance from `center_chunk`: nothing happens when the column is
    /// loaded or already requested, or when 24 requests are pending.
    pub fn enqueue_chunk_request(&mut self, chunk_x: i32, center_chunk: i32)
        requires
            old(self).wf(),
            -0x4000_0000 <= chunk_x < 0x4000_0000,
            -0x4000_0000 <= center_chunk < 0x4000_0000,
        ensures
            final(self).wf(),
            final(self).view_chunks() == old(self).view_chunks(),
            final(self).in_flight_set() == old(self).in_flight_set(),
            final(self).fluid_frontier() == old(self).fluid_frontier(),
            ({
                let refused = old(self).is_loaded(chunk_x as int) || old(self).pending_set().contains(chunk_x)
                    || old(self).pending_set().len() >= 24;
                &&& refused ==> final(self).pending_set() == old(self).pending_set() && final(self).queued_set()
                    == old(self).queued_set() && final(self).request_queue() == old(self).request_queue()
                    && final(self).request_seq() == old(self).request_seq()
                &&& !refused ==> final(self).pending_set() == old(self).pending_set().insert(chunk_x)
                    && final(self).queued_set() == old(self).queued_set().insert(chunk_x) && final(self).request_queue()
                    == old(self).request_queue().insert(
                    ChunkRequest {
                        chunk_x,
                        distance: if chunk_x >= center_chunk {
                            (chunk_x - center_chunk) as i32
                        } else {
                            (center_chunk - chunk_x) as i32
                        },
                        seq: old(self).request_seq(),
                    },
                ) && final(self).request_seq() == old(self).request_seq().wrapping_add(1)
            }),
            final(self).pending_set().len() <= 24 || final(self).pending_set().len() == old(self).pending_set().len(),
    {
        proof {
            self.pending_chunks@.unique_seq_to_set();
        }
        if self.has_chunk(chunk_x) || vec_contains(&self.pending_chunks, chunk_x) {
            return;
        }
        if self.pending_chunks.len() >= 24 {
            return;
        }
        let distance = if chunk_x >= center_chunk {
            chunk_x - center_chunk
        } else {
            center_chunk - chunk_x
        };
        let request = ChunkRequest { chunk_x, distance, seq: self.chunk_request_seq };
        self.chunk_request_seq = self.chunk_request_seq.wrapping_add(1);
        let ghost p0 = self.pending_chunks@;
        insert_column(&mut self.pending_chunks, chunk_x);
        proof {
            assert(!p0.contains(chunk_x));
            assert(self.pending_chunks@.len() <= p0.len() + 1) by {
                p0.unique_seq_to_set();
                self.pending_chunks@.unique_seq_to_set();
                assert(self.pending_chunks@.to_set() == p0.to_set().insert(chunk_x));
                assert(!p0.to_set().contains(chunk_x));
            }
        }
        insert_column(&mut self.queued_chunks, chunk_x);
        self.chunk_request_queue.push(request);
    }

    /// Forgets queued requests for columns more than five chunks from
    /// `center_chunk`; when the queue then holds more requests than queued
    /// columns, it keeps one request per queued column, the first served.
    pub fn trim_stale_chunk_requests(&mut self, center_chunk: i32)
        requires
            old(self).wf(),
            -0x4000_0000 <= center_chunk < 0x4000_0000,
        ensures
            final(self).wf(),
            final(self).view_chunks() == old(self).view_chunks(),
            final(self).in_flight_set() == old(self).in_flight_set(),
            final(self).fluid_frontier() == old(self).fluid_frontier(),
            final(self).request_seq() == old(self).request_seq(),
            forall|c: i32| #[trigger] final(self).queued_set().contains(c) == (old(self).queued_set().contains(c)
                && -5 <= c - center_chunk <= 5),
            forall|c: i32| #[trigger] final(self).pending_set().contains(c) == (old(self).pending_set().contains(c)
                && !(old(self).queued_set().contains(c) && !(-5 <= c - center_chunk <= 5))),
            old(self).request_queue().len() <= final(self).queued_set().len() ==> final(self).request_queue()
                == old(self).request_queue(),
            old(self).request_queue().len() > final(self).queued_set().len() ==> {
                &&& forall|r: ChunkRequest| #[trigger] final(self).request_queue().count(r) > 0 ==> {
                    &&& old(self).request_queue().count(r) > 0
                    &&& final(self).queued_set().contains(r.chunk_x)
                    &&& final(self).request_queue().count(r) == 1
                    &&& forall|r2: ChunkRequest| #[trigger] old(self).request_queue().count(r2) > 0 && r2.chunk_x
                        == r.chunk_x ==> served_before(r, r2)
                    &&& forall|r2: ChunkRequest| #[trigger] final(self).request_queue().count(r2) > 0 && r2.chunk_x
                        == r.chunk_x ==> r2 == r
                }
                &&& forall|r: ChunkRequest| #[trigger] old(self).request_queue().count(r) > 0
                    && final(self).queued_set().contains(r.chunk_x) ==> exists|r2: ChunkRequest|
                    #[trigger] final(self).request_queue().count(r2) > 0 && r2.chunk_x == r.chunk_x
            },
    {
        let ghost q0 = self.queued_chunks@;
        let ghost p0 = self.pending_chunks@;
        let ghost keep_q = |c: i32| -5 <= c - center_chunk <= 5;
        let ghost keep_p = |c: i32| !(q0.contains(c) && !(-5 <= c - center_chunk <= 5));
        let mut nq: Vec<i32> = Vec::new();
        let mut i: usize = 0;
        while i < self.queued_chunks.len()
            invariant
                i <= q0.len(),
                q0 == self.queued_chunks@,
                keep_q == (|c: i32| -5 <= c - center_chunk <= 5),
                nq@ == q0.take(i as int).filter(keep_q),
            decreases q0.len() - i,
        {
            let c = self.queued_chunks[i];
            proof {
                assert(q0.take(i + 1) =~= q0.take(i as int).push(c));
                q0.take(i as int).lemma_filter_push(c, keep_q);
            }
            let d: i64 = c as i64 - center_chunk as i64;
            proof {
                assert(keep_q(c) == (-5 <= d && d <= 5));
            }
            if -5 <= d && d <= 5 {
                nq.push(c);
            }
            proof {
                assert(nq@ == q0.take(i as int + 1).filter(keep_q));
            }
            i = i + 1;
        }
        let mut np: Vec<i32> = Vec::new();
        let mut j: usize = 0;
        while j < self.pending_chunks.len()
            invariant
                j <= p0.len(),
                p0 == self.pending_chunks@,
                q0 == self.queued_chunks@,
                keep_p == (|c: i32| !(q0.contains(c) && !(-5 <= c - center_chunk <= 5))),
                np@ == p0.take(j as int).filter(keep_p),
            decreases p0.len() - j,
        {
            let c = self.pending_chunks[j];
            proof {
                assert(p0.take(j + 1) =~= p0.take(j as int).push(c));
                p0.take(j as int).lemma_filter_push(c, keep_p);
            }
            let d: i64 = c as i64 - center_chunk as i64;
            if !(vec_contains(&self.queued_chunks, c) && (d < -5 || d > 5)) {
                np.push(c);
            }
            j = j + 1;
        }
        proof {
            assert(q0.take(q0.len() as int) =~= q0);
            assert(p0.take(p0.len() as int) =~= p0);
            lemma_filter_no_dup(q0, keep_q);
            lemma_filter_no_dup(p0, keep_p);
            assert forall|c: i32| #[trigger] nq@.to_set().contains(c) == (q0.to_set().contains(c) && keep_q(c)) by {
                if nq@.contains(c) {
                    let k = choose|k: int| 0 <= k < nq@.len() && nq@[k] == c;
                    q0.lemma_filter_pred(keep_q, k);
                    #[allow(deprecated)]
                    q0.lemma_filter_contains_rev(keep_q, c);
                }
                if q0.contains(c) && keep_q(c) {
                    let k = choose|k: int| 0 <= k < q0.len() && q0[k] == c;
                    q0.lemma_filter_contains(keep_q, k);
                }
            }
            assert forall|c: i32| #[trigger] np@.to_set().contains(c) == (p0.to_set().contains(c) && keep_p(c)) by {
                if np@.contains(c) {
                    let k = choose|k: int| 0 <= k < np@.len() && np@[k] == c;
                    p0.lemma_filter_pred(keep_p, k);
                    #[allow(deprecated)]
                    p0.lemma_filter_contains_rev(keep_p, c);
                }
                if p0.contains(c) && keep_p(c) {
                    let k = choose|k: int| 0 <= k < p0.len() && p0[k] == c;
                    p0.lemma_filter_contains(keep_p, k);
                }
            }
        }
        self.queued_chunks = nq;
        self.pending_chunks = np;
        proof {
            self.queued_chunks@.unique_seq_to_set();
        }
        let ghost pend = self.pending_chunks;
        let ghost qd = self.queued_chunks;
        if self.chunk_request_queue.len() > self.queued_chunks.len() {
            let ghost q_old = self.chunk_request_queue@;
            let ghost queued = self.queued_set();
            let ghost mut popped = Multiset::<ChunkRequest>::empty();
            let mut compacted = ChunkRequestQueue::new();
            let mut seen: Vec<i32> = Vec::new();
            let mut done = false;
            while !done
                invariant
                    self.wf(),
                    self.chunks == old(self).chunks,
                    self.biomes == old(self).biomes,
                    self.active_fluid_chunks == old(self).active_fluid_chunks,
                    self.in_flight_chunks == old(self).in_flight_chunks,
                    self.chunk_request_seq == old(self).chunk_request_seq,
                    self.pending_chunks == pend,
                    self.queued_chunks == qd,
                    queued == self.queued_set(),
                    q_old == old(self).request_queue(),
                    q_old == self.chunk_request_queue@.add(popped),
                    done ==> self.chunk_request_queue@.len() == 0,
                    forall|c: i32| #[trigger] seen@.contains(c) ==> queued.contains(c),
                    forall|c: i32| #[trigger] seen@.contains(c) <==> exists|r: ChunkRequest| #[trigger] compacted@.count(r) > 0 && r.chunk_x == c,
                    forall|e: ChunkRequest| #[trigger] popped.count(e) > 0 && queued.contains(e.chunk_x) ==> seen@.contains(e.chunk_x),
                    forall|e: ChunkRequest, r: ChunkRequest| #[trigger] popped.count(e) > 0 && #[trigger] self.chunk_request_queue@.count(r) > 0 ==> served_before(e, r),
                    forall|r: ChunkRequest| #[trigger] compacted@.count(r) > 0 ==> {
                        &&& q_old.count(r) > 0
                        &&& popped.count(r) > 0
                        &&& queued.contains(r.chunk_x)
                        &&& compacted@.count(r) == 1
                        &&& forall|r2: ChunkRequest| #[trigger] q_old.count(r2) > 0 && r2.chunk_x == r.chunk_x ==> served_before(r, r2)
                        &&& forall|r2: ChunkRequest| #[trigger] compacted@.count(r2) > 0 && r2.chunk_x == r.chunk_x ==> r2 == r
                    },
                decreases self.chunk_request_queue@.len() + if done { 0int } else { 1int },
            {
                let ghost q_before = self.chunk_request_queue@;
                match self.chunk_request_queue.pop() {
                    None => {
                        done = true;
                    },
                    Some(request) => {
                        proof {
                            popped = popped.insert(request);
                            assert(q_old =~= self.chunk_request_queue@.add(popped));
                        }
                        if vec_contains(&self.queued_chunks, request.chunk_x) && !vec_contains(&seen, request.chunk_x) {
                            let ghost c_before = compacted@;
                            proof {
                                assert forall|r2: ChunkRequest| #[trigger] q_old.count(r2) > 0 && r2.chunk_x == request.chunk_x
                                    implies served_before(request, r2) by {
                                    if q_before.count(r2) == 0 {
                                        assert(popped.count(r2) > 0);
                                        if r2 != request {
                                            assert(seen@.contains(r2.chunk_x));
                                        }
                                    }
                                }
                            }
                            let ghost s_before = seen@;
                            compacted.push(request);
                            seen.push(request.chunk_x);
                            proof {
                                lemma_push_contains(s_before, request.chunk_x);
                                assert(c_before.count(request) == 0) by {
                                    if c_before.count(request) > 0 {
                                        assert(s_before.contains(request.chunk_x));
                                    }
                                }
                                assert forall|c: i32| #[trigger] seen@.contains(c) <==> exists|r: ChunkRequest| #[trigger] compacted@.count(r) > 0 && r.chunk_x == c by {
                                    if seen@.contains(c) && c != request.chunk_x {
                                        assert(s_before.contains(c));
                                        let r = choose|r: ChunkRequest| #[trigger] c_before.count(r) > 0 && r.chunk_x == c;
                                        assert(compacted@.count(r) > 0);
                                    }
                                    if c == request.chunk_x {
                                        assert(compacted@.count(request) > 0);
                                    }
                                    if exists|r: ChunkRequest| #[trigger] compacted@.count(r) > 0 && r.chunk_x == c {
                                        let r = choose|r: ChunkRequest| #[trigger] compacted@.count(r) > 0 && r.chunk_x == c;
                                        if r != request {
                                            assert(c_before.count(r) > 0);
                                            assert(s_before.contains(c));
                                        }
                                    }
                                }
                                assert forall|r: ChunkRequest| #[trigger] compacted@.count(r) > 0 implies {
                                    &&& q_old.count(r) > 0
                                    &&& popped.count(r) > 0
                                    &&& queued.contains(r.chunk_x)
                                    &&& compacted@.count(r) == 1
                                    &&& forall|r2: ChunkRequest| #[trigger] q_old.count(r2) > 0 && r2.chunk_x == r.chunk_x ==> served_before(r, r2)
                                    &&& forall|r2: ChunkRequest| #[trigger] compacted@.count(r2) > 0 && r2.chunk_x == r.chunk_x ==> r2 == r
                                } by {
                                    if r != request {
                                        assert(c_before.count(r) > 0);
                                        assert(s_before.contains(r.chunk_x));
                                        assert(r.chunk_x != request.chunk_x);
                                    }
                                }
                                assert forall|e: ChunkRequest| #[trigger] popped.count(e) > 0 && queued.contains(e.chunk_x) implies seen@.contains(e.chunk_x) by {}
                            }
                        }
                    },
                }
            }
            proof {
                vstd::multiset::lemma_multiset_empty_len(self.chunk_request_queue@);
                assert(self.chunk_request_queue@ =~= Multiset::<ChunkRequest>::empty());
                assert(popped =~= q_old);
                assert forall|r: ChunkRequest| #[trigger] q_old.count(r) > 0 && queued.contains(r.chunk_x) implies exists|r2: ChunkRequest|
                    #[trigger] compacted@.count(r2) > 0 && r2.chunk_x == r.chunk_x by {
                    assert(popped.count(r) > 0);
                    assert(seen@.contains(r.chunk_x));
                }
            }
            let ghost cv = compacted@;
            self.chunk_request_queue = compacted;
            proof {
                assert(self.request_queue() == cv);
                assert(self.queued_set() == queued);
            }
        }
    }

    /// Takes queued requests, the first served first, while fewer than 12
    /// columns are with the background workers: a request whose column is no
    /// longer queued is dropped, a column loaded meanwhile leaves the pending
    /// set, and the others are marked as with the workers and returned, for
    /// the caller to hand to them.
    pub fn dispatch_chunk_requests(&mut self) -> (r: Vec<i32>)
        requires
            old(self).wf(),
        ensures
            final(self).wf(),
            final(self).view_chunks() == old(self).view_chunks(),
            final(self).fluid_frontier() == old(self).fluid_frontier(),
            r@.no_duplicates(),
            forall|k: int| 0 <= k < r@.len() ==> old(self).queued_set().contains(#[trigger] r@[k]) && !old(
                self,
            ).is_loaded(r@[k] as int),
            final(self).in_flight_set() == old(self).in_flight_set().union(r@.to_set()),
            final(self).queued_set().subset_of(old(self).queued_set()),
            forall|k: int| 0 <= k < r@.len() ==> !final(self).queued_set().contains(#[trigger] r@[k]),
            final(self).pending_set().subset_of(old(self).pending_set()),
            forall|c: i32| #[trigger] old(self).pending_set().contains(c) && !final(self).pending_set().contains(c)
                ==> old(self).is_loaded(c as int),
            old(self).in_flight_set().len() <= 12 ==> final(self).in_flight_set().len() <= 12,
            final(self).in_flight_set().len() >= 12 || final(self).request_queue().len() == 0,
    {
        let mut out: Vec<i32> = Vec::new();
        proof {
            self.in_flight_chunks@.unique_seq_to_set();
        }
        let mut done = false;
        proof {
            assert(out@.to_set() =~= Set::<i32>::empty());
            assert(old(self).in_flight_set().union(out@.to_set()) =~= old(self).in_flight_set());
        }
        while !done && self.in_flight_chunks.len() < 12
            invariant
                self.wf(),
                self.chunks == old(self).chunks,
                self.active_fluid_chunks == old(self).active_fluid_chunks,
                out@.no_duplicates(),
                forall|k: int| 0 <= k < out@.len() ==> old(self).queued_set().contains(#[trigger] out@[k]) && !old(
                    self,
                ).is_loaded(out@[k] as int),
                forall|k: int| 0 <= k < out@.len() ==> !self.queued_set().contains(#[trigger] out@[k]),
                self.in_flight_set() == old(self).in_flight_set().union(out@.to_set()),
                self.queued_set().subset_of(old(self).queued_set()),
                self.pending_set().subset_of(old(self).pending_set()),
                forall|c: i32| #[trigger] old(self).pending_set().contains(c) && !self.pending_set().contains(c)
                    ==> old(self).is_loaded(c as int),
                old(self).in_flight_set().len() == old(self).in_flight_chunks@.len(),
                old(self).in_flight_set().len() <= 12 ==> self.in_flight_chunks@.len() <= 12,
                done ==> self.request_queue().len() == 0,
            decreases self.chunk_request_queue@.len() + if done { 0int } else { 1int },
        {
            match self.chunk_request_queue.pop() {
                None => {
                    done = true;
                },
                Some(request) => {
                    let c = request.chunk_x;
                    if vec_contains(&self.queued_chunks, c) {
                        remove_column(&mut self.queued_chunks, c);
                        if self.has_chunk(c) {
                            remove_column(&mut self.pending_chunks, c);
                        } else {
                            let ghost o0 = out@;
                            insert_column(&mut self.in_flight_chunks, c);
                            out.push(c);
                            proof {
                                lemma_push_contains(o0, c);
                                o0.lemma_push_to_set_commute(c);
                                assert(!o0.contains(c)) by {
                                    if o0.contains(c) {
                                        let k = choose|k: int| 0 <= k < o0.len() && o0[k] == c;
                                        assert(!self.queued_set().contains(o0[k]) || true);
                                    }
                                }
                                assert forall|a: int, b: int| 0 <= a < out@.len() && 0 <= b < out@.len() && a != b implies out@[a] != out@[b] by {
                                    if a == o0.len() {
                                        assert(o0.contains(out@[b]));
                                    } else if b == o0.len() {
                                        assert(o0.contains(out@[a]));
                                    } else {
                                        assert(out@[a] == o0[a] && out@[b] == o0[b]);
                                    }
                                }
                                assert(self.in_flight_set() =~= old(self).in_flight_set().union(out@.to_set()));
                            }
                        }
                    }
                },
            }
        }
        proof {
            self.in_flight_chunks@.unique_seq_to_set();
        }
        out
    }

    /// Marks the loaded chunk of column `cx` as saved; true when it is loaded.
    pub fn mark_chunk_saved(&mut self, cx: i32) -> (r: bool)
        requires
            old(self).wf(),
        ensures
            final(self).wf(),
            r == old(self).is_loaded(cx as int),
            final(self).same_columns(old(self)),
            final(self).same_setting(old(self)),
            final(self).blocks_fn() == old(self).blocks_fn(),
            r ==> !final(self).chunk_at(cx as int).view_dirty(),
            forall|c: int| c != cx && old(self).is_loaded(c) ==> #[trigger] final(self).chunk_at(c) == old(self).chunk_at(c),
    {
        match self.find_slot(cx) {
            None => false,
            Some(i) => {
                let ghost s0 = self.chunks@;
                self.chunks[i].mark_saved();
                proof {
                    let t = self.chunks@;
                    assert(t == s0.update(i as int, t[i as int]));
                    lemma_seq_replace(s0, i as int, t[i as int]);
                    lemma_seq_slot(s0, i as int);
                    assert(self.blocks_fn() =~= old(self).blocks_fn()) by {
                        assert forall|x: int, y: int| #[trigger] self.block_at(x, y) == old(self).block_at(x, y) by {
                            if 0 <= y < 128 && chunk_col(x) == cx {
                                lemma_cell_of_column(x, x, y, y);
                            }
                        }
                    }
                    assert forall|c: int| c != cx && old(self).is_loaded(c) implies #[trigger] self.chunk_at(c) == old(self).chunk_at(c) by {
                        let k = seq_slot(s0, c);
                        lemma_seq_slot(s0, k);
                        lemma_seq_slot(t, k);
                        assert(k != i);
                    }
                }
                true
            },
        }
    }

    /// The loaded chunk of column `cx`, if any, to read (for saving it).
    pub fn chunk_at_column(&self, cx: i32) -> (r: Option<&Chunk>)
        requires
            self.wf(),
        ensures
            match r {
                Some(c) => self.is_loaded(cx as int) && *c == self.chunk_at(cx as int),
                None => !self.is_loaded(cx as int),
            },
    {
        match self.find_slot(cx) {
            Some(i) => Some(&self.chunks[i]),
            None => None,
        }
    }

    /// The loaded chunk columns, in the order the simulation visits them.
    pub fn loaded_columns(&self) -> (r: Vec<i32>)
        requires
            self.wf(),
        ensures
            r@ == self.chunk_order(),
    {
        let mut out: Vec<i32> = Vec::new();
        let mut i: usize = 0;
        while i < self.chunks.len()
            invariant
                i <= self.chunks@.len(),
                out@ == chunk_columns(self.chunks@.take(i as int)),
            decreases self.chunks@.len() - i,
        {
            out.push(self.chunks[i].column());
            proof {
                assert(out@ =~= chunk_columns(self.chunks@.take(i + 1)));
            }
            i = i + 1;
        }
        proof {
            assert(self.chunks@.take(self.chunks@.len() as int) =~= self.chunks@);
        }
        out
    }

    /// Up to `max_chunks` columns whose chunks hold unsaved edits, in visit
    /// order (all of them when `max_chunks` is 0 is not meant: 0 gives none).
    pub fn dirty_columns(&self, max_chunks: usize) -> (r: Vec<i32>)
        requires
            self.wf(),
        ensures
            r@.len() <= max_chunks,
            forall|k: int| 0 <= k < r@.len() ==> self.is_loaded(#[trigger] r@[k] as int) && self.chunk_at(
                r@[k] as int,
            ).view_dirty(),
            r@.len() < max_chunks ==> forall|c: int| #[trigger] self.is_loaded(c) && self.chunk_at(c).view_dirty()
                ==> r@.contains(c as i32),
            r@.no_duplicates(),
    {
        let mut out: Vec<i32> = Vec::new();
        let mut i: usize = 0;
        while i < self.chunks.len() && out.len() < max_chunks
            invariant
                self.wf(),
                i <= self.chunks@.len(),
                out@.len() <= max_chunks,
                forall|k: int| 0 <= k < out@.len() ==> self.is_loaded(#[trigger] out@[k] as int) && self.chunk_at(
                    out@[k] as int,
                ).view_dirty(),
                forall|k: int| #![trigger out@[k]] 0 <= k < out@.len() ==> exists|j: int| 0 <= j < i && #[trigger] self.chunks@[j].view_x() == out@[k],
                forall|j: int| 0 <= j < i && #[trigger] self.chunks@[j].view_dirty() ==> out@.contains(self.chunks@[j].view_x()),
                out@.no_duplicates(),
            decreases self.chunks@.len() - i,
        {
            proof {
                lemma_seq_slot(self.chunks@, i as int);
            }
            if self.chunks[i].is_dirty() {
                let ghost o0 = out@;
                let c = self.chunks[i].column();
                out.push(c);
                proof {
                    lemma_push_contains(o0, c);
                    assert(!o0.contains(c)) by {
                        if o0.contains(c) {
                            let k = choose|k: int| 0 <= k < o0.len() && o0[k] == c;
                            let j = choose|j: int| 0 <= j < i && #[trigger] self.chunks@[j].view_x() == o0[k];
                            assert(self.chunks@[j].view_x() == self.chunks@[i as int].view_x());
                        }
                    }
                    assert forall|a: int, b: int| 0 <= a < out@.len() && 0 <= b < out@.len() && a != b implies out@[a] != out@[b] by {
                        if a == o0.len() {
                            assert(o0.contains(out@[b]));
                        } else if b == o0.len() {
                            assert(o0.contains(out@[a]));
                        } else {
                            assert(out@[a] == o0[a] && out@[b] == o0[b]);
                        }
                    }
                    assert forall|k: int| #![trigger out@[k]] 0 <= k < out@.len() implies exists|j: int| 0 <= j < i + 1 && #[trigger] self.chunks@[j].view_x() == out@[k] by {
                        if k == o0.len() {
                            assert(self.chunks@[i as int].view_x() == out@[k]);
                        } else {
                            assert(out@[k] == o0[k]);
                        }
                    }
                }
            }
            i = i + 1;
        }
        proof {
            assert forall|c: int| #[trigger] self.is_loaded(c) && self.chunk_at(c).view_dirty() && out@.len() < max_chunks
                implies out@.contains(c as i32) by {
                let j = seq_slot(self.chunks@, c);
                lemma_seq_slot(self.chunks@, j);
            }
        }
        out
    }

    /// Whether some loaded chunk holds unsaved edits.
    pub fn has_dirty_chunks(&self) -> (r: bool)
        requires
            self.wf(),
        ensures
            r == exists|c: int| #[trigger] self.is_loaded(c) && self.chunk_at(c).view_dirty(),
    {
        let mut i: usize = 0;
        while i < self.chunks.len()
            invariant
                self.wf(),
                i <= self.chunks@.len(),
                forall|j: int| 0 <= j < i ==> !#[trigger] self.chunks@[j].view_dirty(),
            decreases self.chunks@.len() - i,
        {
            if self.chunks[i].is_dirty() {
                proof {
                    lemma_seq_slot(self.chunks@, i as int);
                    let c = self.chunks@[i as int].view_x() as int;
                    assert(self.is_loaded(c) && self.chunk_at(c).view_dirty());
                }
                return true;
            }
            i = i + 1;
        }
        proof {
            assert forall|c: int| #[trigger] self.is_loaded(c) implies !self.chunk_at(c).view_dirty() by {
                let j = seq_slot(self.chunks@, c);
                lemma_seq_slot(self.chunks@, j);
            }
        }
        false
    }

    /// The number of requested columns not yet brought in.
    pub fn pending_count(&self) -> (r: usize)
        requires
            self.wf(),
        ensures
            r == self.pending_set().len(),
    {
        proof {
            self.pending_chunks@.unique_seq_to_set();
        }
        self.pending_chunks.len()
    }

    /// The number of columns whose request still waits in the queue.
    pub fn queued_count(&self) -> (r: usize)
        requires
            self.wf(),
        ensures
            r == self.queued_set().len(),
    {
        proof {
            self.queued_chunks@.unique_seq_to_set();
        }
        self.queued_chunks.len()
    }

    /// Whether the request for column `c` still waits in the queue.
    pub fn is_queued(&self, c: i32) -> (r: bool)
        ensures
            r == self.queued_set().contains(c),
    {
        vec_contains(&self.queued_chunks, c)
    }

    /// The number of requests in the queue (a column may have several).
    pub fn request_queue_len(&self) -> (r: usize)
        ensures
            r == self.request_queue().len(),
    {
        self.chunk_request_queue.len()
    }

    /// Adds a request to the queue as it is, without the checks of
    /// `enqueue_chunk_request`.
    pub fn push_chunk_request(&mut self, request: ChunkRequest)
        requires
            old(self).wf(),
        ensures
            final(self).wf(),
            final(self).request_queue() == old(self).request_queue().insert(request),
            final(self).queued_set() == old(self).queued_set(),
            final(self).pending_set() == old(self).pending_set(),
            final(self).view_chunks() == old(self).view_chunks(),
    {
        self.chunk_request_queue.push(request);
    }

    /// The columns of the queued requests, one entry per request (in no
    /// particular order).
    pub fn queued_request_columns(&self) -> (r: Vec<i32>)
        ensures
            r@.len() == self.request_queue().len(),
            forall|k: int| 0 <= k < r@.len() ==> #[trigger] requested_column(self.request_queue(), r@[k]),
            forall|q: ChunkRequest| #[trigger] self.request_queue().count(q) > 0 ==> r@.contains(q.chunk_x),
    {
        self.chunk_request_queue.columns()
    }

    /// Whether (world_x, world_y) lies in the nether fortress laid out by
    /// `layout` (that of its region): only in the nether, off the world's
    /// top and bottom two rows, inside the fortress's columns, from five rows
    /// over its roof down to two rows under its floor.
    pub fn is_nether_fortress_zone(&self, world_x: i32, world_y: i32, layout: NetherFortressLayout) -> (r: bool)
        ensures
            r == (self.view_dimension() == Dimension::Nether && 1 < world_y < 127 && layout.left_x <= world_x
                <= layout.right_x && layout.roof_y - 5 <= world_y <= layout.base_y + 2),
    {
        if self.dimension != Dimension::Nether {
            return false;
        }
        if world_y <= 1 || world_y >= CHUNK_HEIGHT as i32 - 1 {
            return false;
        }
        if world_x < layout.left_x || world_x > layout.right_x {
            return false;
        }
        world_y as i64 >= layout.roof_y as i64 - 5 && world_y as i64 <= layout.base_y as i64 + 2
    }

    /// The tick counter.
    pub fn tick(&self) -> (r: u64)
        ensures
            r == self.spec_tick(),
    {
        self.tick_counter
    }

    /// Sets the tick counter, which decides which passes run on the next
    /// update and which cells the timed rules pick.
    pub fn set_tick(&mut self, tick: u64)
        requires
            old(self).wf(),
        ensures
            final(self).wf(),
            final(self).spec_tick() == tick,
            final(self).view_chunks() == old(self).view_chunks(),
            final(self).biome_fn() == old(self).biome_fn(),
            final(self).fluid_frontier() == old(self).fluid_frontier(),
            final(self).environment_drops() == old(self).environment_drops(),
            final(self).view_dimension() == old(self).view_dimension(),
    {
        self.tick_counter = tick;
    }

    /// Whether chunk column `cx` is on the fluid frontier, the columns the
    /// fluid pass visits.
    pub fn is_fluid_chunk_active(&self, cx: i32) -> (r: bool)
        ensures
            r == self.fluid_frontier().contains(cx),
    {
        vec_contains(&self.active_fluid_chunks, cx)
    }

    /// Empties the fluid frontier.
    pub fn clear_fluid_frontier(&mut self)
        requires
            old(self).wf(),
        ensures
            final(self).wf(),
            final(self).fluid_frontier() == Set::<i32>::empty(),
            final(self).view_chunks() == old(self).view_chunks(),
            final(self).same_setting(old(self)),
            final(self).environment_drops() == old(self).environment_drops(),
    {
        self.active_fluid_chunks = Vec::new();
        proof {
            assert(self.active_fluid_chunks@.to_set() =~= Set::<i32>::empty());
        }
    }

    /// Puts chunk column `center_chunk` and its two neighbours on the fluid
    /// frontier.
    fn activate_fluid_chunk_neighbors(&mut self, center_chunk: i32)
        requires
            old(self).wf(),
            i32::MIN < center_chunk < i32::MAX,
        ensures
            final(self).wf(),
            final(self).fluid_frontier() == old(self).fluid_frontier().union(column_and_neighbors(center_chunk as int)),
            final(self).chunks == old(self).chunks,
            final(self).same_columns(old(self)),
            forall|x: int, y: int| #[trigger] final(self).block_at(x, y) == old(self).block_at(x, y),
            forall|x: int, y: int| #[trigger] final(self).chest_at(x, y) == old(self).chest_at(x, y),
            final(self).same_setting(old(self)),
            final(self).recent_environment_drops == old(self).recent_environment_drops,
    {
        insert_column(&mut self.active_fluid_chunks, center_chunk - 1);
        insert_column(&mut self.active_fluid_chunks, center_chunk);
        insert_column(&mut self.active_fluid_chunks, center_chunk + 1);
        proof {
            assert(self.active_fluid_chunks@.to_set() =~= old(self).fluid_frontier().union(
                column_and_neighbors(center_chunk as int),
            ));
        }
    }
}


/// A block placed on a loaded cell where it can stand is the block read
/// back there afterwards: whatever breaks above it for want of support, the
/// cell itself keeps what was placed.
pub proof fn law_placed_block_reads_back(w: &World, x: int, y: int, b: BlockType)
    requires
        w.wf(),
        w.is_loaded(chunk_col(x)),
        0 <= y < 128,
        stays_over(b, w.block_at(x, y + 1), w.block_at(x - 1, y + 1), w.block_at(x + 1, y + 1)),
    ensures
        w.block_after_set(x, y, b, x, y) == b,
{
    if w.set_applies(x, y, b) && w.first_removed(x, y, b) <= y {
        assert(w.first_removed(x, y, b) == y - 1);
        World::lemma_run_top_bounds(w, x, y - 1);
    }
}

/// Placing a block touches only its own column, and there only its own
/// cell and the cells above it: every other cell reads as before.
pub proof fn law_placement_stays_in_its_column(w: &World, x: int, y: int, b: BlockType, x2: int, y2: int)
    requires
        w.wf(),
        x2 != x || y2 > y,
    ensures
        w.block_after_set(x, y, b, x2, y2) == w.block_at(x2, y2),
{
}

/// Placing a block where the chunk is not loaded, outside the world's rows,
/// or over the same block changes no cell.
pub proof fn law_idle_placement_changes_nothing(w: &World, x: int, y: int, b: BlockType, x2: int, y2: int)
    requires
        w.wf(),
        !w.is_loaded(chunk_col(x)) || !(0 <= y < 128) || w.block_at(x, y) == b,
    ensures
        w.block_after_set(x, y, b, x2, y2) == w.block_at(x2, y2),
        w.drops_after_set(x, y, b) == Seq::<(i32, i32, ItemType)>::empty(),
{
}

/// The column snapshot of a loaded chunk holds the world's own cells, so
/// applying it back leaves every cell as it was.
pub proof fn law_snapshot_then_apply_keeps_blocks(w: &World, cx: int, x: int, y: int)
    requires
        w.wf(),
        w.is_loaded(cx),
    ensures
        (if chunk_col(x) == cx && 0 <= y < 128 {
            w.chunk_at(cx).view_blocks()[cell_index(col_in_chunk(x), y)]
        } else {
            w.block_at(x, y)
        }) == w.block_at(x, y),
{
}


/// Every block of a push line that `push_count_in` accepts from `k` on is
/// one a piston can move.
proof fn lemma_push_line_movable(f: spec_fn(int, int) -> BlockType, x: int, y: int, right: bool, k: int)
    requires
        push_count_in(f, x, y, right, k) is Some,
    ensures
        forall|j: int|
            k < j <= push_count_in(f, x, y, right, k)->0 ==> spec_can_piston_push(#[trigger] f(step_x(x, right, j), y)),
    decreases 13 - k,
{
    if 0 <= k < 13 && f(step_x(x, right, k + 1), y) != BlockType::Air {
        lemma_push_line_movable(f, x, y, right, k + 1);
    }
}

/// Pistons never move the immovable: when a piston's push goes through,
/// no block it pushes is bedrock, obsidian, a fluid, a portal or portal
/// frame, primed TNT, a door, a spawner or another piston; a line holding
/// one of them blocks the push.
pub proof fn law_pistons_never_move_immovable(f: spec_fn(int, int) -> BlockType, x: int, y: int, right: bool, j: int)
    requires
        push_count_in(f, x, y, right, 0) is Some,
        1 <= j <= push_count_in(f, x, y, right, 0)->0,
    ensures
        ({
            let b = f(step_x(x, right, j), y);
            &&& b != BlockType::Bedrock
            &&& b != BlockType::Obsidian
            &&& !(b is Water) && !(b is Lava)
            &&& b != BlockType::NetherPortal && b != BlockType::EndPortal && !(b is EndPortalFrame)
            &&& !(b is PrimedTnt) && !(b is IronDoor) && !(b is WoodDoor)
            &&& b != BlockType::SilverfishSpawner && b != BlockType::BlazeSpawner
            &&& b != BlockType::ZombieSpawner && b != BlockType::SkeletonSpawner
            &&& !(b is Piston) && !(b is StickyPiston)
        }),
{
    lemma_push_line_movable(f, x, y, right, 0);
    assert(spec_can_piston_push(f(step_x(x, right, j), y)));
}

/// Water and lava meeting, over every level: water flowing onto a lava
/// source makes obsidian and onto flowing lava cobblestone; lava falling
/// into water makes stone and lava spreading sideways into water
/// cobblestone; flowing onto anything else mixes nothing.
pub proof fn law_fluid_mixing(water: bool, target: BlockType, vertical: bool)
    ensures
        water && target is Lava ==> fluid_mix(water, target, vertical) == Some(
            if target->Lava_0 == 8 {
                BlockType::Obsidian
            } else {
                BlockType::Cobblestone
            },
        ),
        !water && target is Water && vertical ==> fluid_mix(water, target, vertical) == Some(BlockType::Stone),
        !water && target is Water && !vertical ==> fluid_mix(water, target, vertical) == Some(BlockType::Cobblestone),
        (water && !(target is Lava)) || (!water && !(target is Water)) ==> fluid_mix(water, target, vertical) is None,
{
}

} // verus!
