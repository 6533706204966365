use vstd::prelude::*;
use super::block::BlockType;
use super::inventory::{Inventory, ItemStack};
use super::decimal::{decimal_text, push_decimal};
use flate2::Compression;
use flate2::read::DeflateDecoder;
use flate2::write::DeflateEncoder;
use std::io::{Read, Write};

verus! {

/// Columns in a chunk.
pub const CHUNK_WIDTH: usize = 32;

/// Rows in a chunk (row 0 is the top).
pub const CHUNK_HEIGHT: usize = 128;

/// Cells in a chunk.
pub open spec fn cell_count() -> nat {
    4096
}

/// The groups of blocks whose presence makes a chunk need a simulation pass.
pub enum ActivityKind {
    Fluid,
    Falling,
    Leaf,
    Farming,
    Redstone,
}

/// Whether `b` belongs to the activity group `k`.
pub open spec fn in_kind(b: BlockType, k: ActivityKind) -> bool {
    match k {
        ActivityKind::Fluid => b.spec_is_fluid(),
        ActivityKind::Falling => b.spec_obeys_gravity(),
        ActivityKind::Leaf => b.spec_is_leaf_block(),
        ActivityKind::Farming => b.spec_participates_in_farming_tick(),
        ActivityKind::Redstone => b.spec_participates_in_redstone_tick(),
    }
}

/// How many blocks of `s` belong to the group `k`.
pub open spec fn kind_count(s: Seq<BlockType>, k: ActivityKind) -> nat
    decreases s.len(),
{
    if s.len() == 0 {
        0
    } else {
        kind_count(s.drop_last(), k) + if in_kind(s.last(), k) {
            1nat
        } else {
            0nat
        }
    }
}

/// Cell index of column `x`, row `y`.
pub open spec fn cell_index(x: int, y: int) -> int {
    y * 32 + x
}

/// Whether a column and row lie inside a chunk.
pub open spec fn in_chunk(x: int, y: int) -> bool {
    0 <= x < 32 && 0 <= y < 128
}

/// The revision that follows `r`: one more, wrapping past the largest value to
/// 1 so that 0 is never a revision.
pub open spec fn next_revision(r: u64) -> u64 {
    if r == u64::MAX {
        1
    } else {
        (r + 1) as u64
    }
}

/// Counts of the blocks in each activity group of a chunk.
#[derive(Clone, Copy)]
struct ChunkActivityCounts {
    fluid_blocks: u16,
    falling_blocks: u16,
    leaf_blocks: u16,
    farming_blocks: u16,
    redstone_blocks: u16,
}

/// The counts of each group of `s`.
spec fn counts_match(c: ChunkActivityCounts, s: Seq<BlockType>) -> bool {
    &&& c.fluid_blocks == kind_count(s, ActivityKind::Fluid)
    &&& c.falling_blocks == kind_count(s, ActivityKind::Falling)
    &&& c.leaf_blocks == kind_count(s, ActivityKind::Leaf)
    &&& c.farming_blocks == kind_count(s, ActivityKind::Farming)
    &&& c.redstone_blocks == kind_count(s, ActivityKind::Redstone)
}

/// A group never holds more blocks than there are.
pub proof fn lemma_kind_count_bound(s: Seq<BlockType>, k: ActivityKind)
    ensures
        kind_count(s, k) <= s.len(),
    decreases s.len(),
{
    if s.len() > 0 {
        lemma_kind_count_bound(s.drop_last(), k);
    }
}

/// Replacing one block changes a group's count by the difference.
pub proof fn lemma_kind_count_update(s: Seq<BlockType>, i: int, v: BlockType, k: ActivityKind)
    requires
        0 <= i < s.len(),
    ensures
        kind_count(s.update(i, v), k) + (if in_kind(s[i], k) {
            1nat
        } else {
            0nat
        }) == kind_count(s, k) + (if in_kind(v, k) {
            1nat
        } else {
            0nat
        }),
    decreases s.len(),
{
    let u = s.update(i, v);
    if i == s.len() - 1 {
        assert(u.drop_last() =~= s.drop_last());
    } else {
        assert(u.drop_last() =~= s.drop_last().update(i, v));
        lemma_kind_count_update(s.drop_last(), i, v, k);
    }
}

/// A group holding one of the blocks is not empty.
pub proof fn lemma_kind_count_positive(s: Seq<BlockType>, i: int, k: ActivityKind)
    requires
        0 <= i < s.len(),
        in_kind(s[i], k),
    ensures
        kind_count(s, k) >= 1,
{
    lemma_kind_count_update(s, i, BlockType::Air, k);
}

/// Counting a prefix one block longer adds that block.
pub proof fn lemma_kind_count_take_step(s: Seq<BlockType>, i: int, k: ActivityKind)
    requires
        0 <= i < s.len(),
    ensures
        kind_count(s.take(i + 1), k) == kind_count(s.take(i), k) + if in_kind(s[i], k) {
            1nat
        } else {
            0nat
        },
{
    assert(s.take(i + 1).drop_last() =~= s.take(i));
}

impl ChunkActivityCounts {
    fn zero() -> (r: Self)
        ensures
            r.fluid_blocks == 0 && r.falling_blocks == 0 && r.leaf_blocks == 0 && r.farming_blocks
                == 0 && r.redstone_blocks == 0,
    {
        ChunkActivityCounts {
            fluid_blocks: 0,
            falling_blocks: 0,
            leaf_blocks: 0,
            farming_blocks: 0,
            redstone_blocks: 0,
        }
    }

    fn add_block(&mut self, block: BlockType)
        ensures
            final(self).fluid_blocks == if in_kind(block, ActivityKind::Fluid) {
                old(self).fluid_blocks.saturating_add(1)
            } else {
                old(self).fluid_blocks
            },
            final(self).falling_blocks == if in_kind(block, ActivityKind::Falling) {
                old(self).falling_blocks.saturating_add(1)
            } else {
                old(self).falling_blocks
            },
            final(self).leaf_blocks == if in_kind(block, ActivityKind::Leaf) {
                old(self).leaf_blocks.saturating_add(1)
            } else {
                old(self).leaf_blocks
            },
            final(self).farming_blocks == if in_kind(block, ActivityKind::Farming) {
                old(self).farming_blocks.saturating_add(1)
            } else {
                old(self).farming_blocks
            },
            final(self).redstone_blocks == if in_kind(block, ActivityKind::Redstone) {
                old(self).redstone_blocks.saturating_add(1)
            } else {
                old(self).redstone_blocks
            },
    {
        if block.is_fluid() {
            self.fluid_blocks = self.fluid_blocks.saturating_add(1);
        }
        if block.obeys_gravity() {
            self.falling_blocks = self.falling_blocks.saturating_add(1);
        }
        if block.is_leaf_block() {
            self.leaf_blocks = self.leaf_blocks.saturating_add(1);
        }
        if block.participates_in_farming_tick() {
            self.farming_blocks = self.farming_blocks.saturating_add(1);
        }
        if block.participates_in_redstone_tick() {
            self.redstone_blocks = self.redstone_blocks.saturating_add(1);
        }
    }

    fn remove_block(&mut self, block: BlockType)
        ensures
            final(self).fluid_blocks == if in_kind(block, ActivityKind::Fluid) {
                old(self).fluid_blocks.saturating_sub(1)
            } else {
                old(self).fluid_blocks
            },
            final(self).falling_blocks == if in_kind(block, ActivityKind::Falling) {
                old(self).falling_blocks.saturating_sub(1)
            } else {
                old(self).falling_blocks
            },
            final(self).leaf_blocks == if in_kind(block, ActivityKind::Leaf) {
                old(self).leaf_blocks.saturating_sub(1)
            } else {
                old(self).leaf_blocks
            },
            final(self).farming_blocks == if in_kind(block, ActivityKind::Farming) {
                old(self).farming_blocks.saturating_sub(1)
            } else {
                old(self).farming_blocks
            },
            final(self).redstone_blocks == if in_kind(block, ActivityKind::Redstone) {
                old(self).redstone_blocks.saturating_sub(1)
            } else {
                old(self).redstone_blocks
            },
    {
        if block.is_fluid() {
            self.fluid_blocks = self.fluid_blocks.saturating_sub(1);
        }
        if block.obeys_gravity() {
            self.falling_blocks = self.falling_blocks.saturating_sub(1);
        }
        if block.is_leaf_block() {
            self.leaf_blocks = self.leaf_blocks.saturating_sub(1);
        }
        if block.participates_in_farming_tick() {
            self.farming_blocks = self.farming_blocks.saturating_sub(1);
        }
        if block.participates_in_redstone_tick() {
            self.redstone_blocks = self.redstone_blocks.saturating_sub(1);
        }
    }
}


/// A vertical slice of the world, CHUNK_WIDTH columns wide and CHUNK_HEIGHT
/// rows high, with the inventories of the chests standing in it.
///
/// `blocks` and `chests` are indexed by `y * CHUNK_WIDTH + x`; a cell holds
/// an inventory only where a chest stands.
pub struct Chunk {
    pub x: i32,
    pub blocks: Vec<BlockType>,
    pub chests: Vec<Option<Inventory>>,
    pub dirty: bool,
    net_revision: u64,
    save_key: String,
    activity_counts: ChunkActivityCounts,
}

/// All cells of a fresh chunk: air.
pub open spec fn air_cells() -> Seq<BlockType> {
    Seq::new(cell_count(), |i: int| BlockType::Air)
}

/// No cell of a fresh chunk holds a chest inventory.
pub open spec fn no_chests() -> Seq<Option<Inventory>> {
    Seq::new(cell_count(), |i: int| None::<Inventory>)
}

/// Every cell holding an inventory holds a chest block.
pub open spec fn chests_on_chest_blocks(blocks: Seq<BlockType>, chests: Seq<Option<Inventory>>) -> bool {
    forall|i: int| 0 <= i < chests.len() && #[trigger] chests[i] is Some ==> blocks[i] == BlockType::Chest
}

/// An air-only column belongs to no activity group.
pub proof fn lemma_air_counts(n: nat, k: ActivityKind)
    ensures
        kind_count(Seq::new(n, |i: int| BlockType::Air), k) == 0,
    decreases n,
{
    if n > 0 {
        assert(Seq::new(n, |i: int| BlockType::Air).drop_last() =~= Seq::new(
            (n - 1) as nat,
            |i: int| BlockType::Air,
        ));
        lemma_air_counts((n - 1) as nat, k);
    }
}

/// Whether two block sequences are equal, cell by cell.
fn blocks_equal(a: &[BlockType], b: &[BlockType]) -> (r: bool)
    ensures
        r == (a@ == b@),
{
    if a.len() != b.len() {
        return false;
    }
    let mut i: usize = 0;
    while i < a.len()
        invariant
            a@.len() == b@.len(),
            i <= a@.len(),
            forall|k: int| 0 <= k < i ==> a@[k] == b@[k],
        decreases a@.len() - i,
    {
        if a[i] != b[i] {
            return false;
        }
        i = i + 1;
    }
    assert(a@ =~= b@);
    true
}

impl Chunk {
    /// The chunk's internal bookkeeping agrees with its cells: both grids have
    /// one entry per cell, the activity counts count the blocks, the revision
    /// is never 0, and inventories sit only on chests.
    pub closed spec fn wf(&self) -> bool {
        &&& self.blocks@.len() == cell_count()
        &&& self.chests@.len() == cell_count()
        &&& counts_match(self.activity_counts, self.blocks@)
        &&& self.net_revision != 0
        &&& chests_on_chest_blocks(self.blocks@, self.chests@)
    }

    /// The revision of the chunk's blocks; it changes whenever they do.
    pub closed spec fn spec_revision(&self) -> u64 {
        self.net_revision
    }

    /// The save slot name the chunk was created under.
    pub closed spec fn spec_save_key(&self) -> Seq<char> {
        self.save_key@
    }

    /// The chunk column of the world this chunk covers.
    pub closed spec fn view_x(&self) -> i32 {
        self.x
    }

    /// Whether the chunk has edits not yet saved.
    pub closed spec fn view_dirty(&self) -> bool {
        self.dirty
    }

    /// The cells of the chunk.
    pub closed spec fn view_blocks(&self) -> Seq<BlockType> {
        self.blocks@
    }

    /// The chest inventories of the chunk, cell by cell.
    pub closed spec fn view_chests(&self) -> Seq<Option<Inventory>> {
        self.chests@
    }

    /// The block at column `x`, row `y`; air outside the chunk.
    pub open spec fn spec_block_at(&self, x: int, y: int) -> BlockType {
        if in_chunk(x, y) {
            self.view_blocks()[cell_index(x, y)]
        } else {
            BlockType::Air
        }
    }

    /// Whether some block of the chunk belongs to the group `k`.
    pub open spec fn has_kind(&self, k: ActivityKind) -> bool {
        kind_count(self.view_blocks(), k) > 0
    }

    /// What a well-formed chunk guarantees about its views: one block and
    /// one inventory cell per cell, inventories only on chests, a nonzero
    /// revision.
    pub proof fn lemma_wf_views(&self)
        requires
            self.wf(),
        ensures
            self.view_blocks().len() == cell_count(),
            self.view_chests().len() == cell_count(),
            chests_on_chest_blocks(self.view_blocks(), self.view_chests()),
            self.spec_revision() != 0,
    {
    }

    proof fn lemma_counts_bounded(&self)
        requires
            self.wf(),
        ensures
            self.activity_counts.fluid_blocks <= 4096,
            self.activity_counts.falling_blocks <= 4096,
            self.activity_counts.leaf_blocks <= 4096,
            self.activity_counts.farming_blocks <= 4096,
            self.activity_counts.redstone_blocks <= 4096,
    {
        lemma_kind_count_bound(self.blocks@, ActivityKind::Fluid);
        lemma_kind_count_bound(self.blocks@, ActivityKind::Falling);
        lemma_kind_count_bound(self.blocks@, ActivityKind::Leaf);
        lemma_kind_count_bound(self.blocks@, ActivityKind::Farming);
        lemma_kind_count_bound(self.blocks@, ActivityKind::Redstone);
    }

    fn bump_net_revision(&mut self)
        ensures
            final(self).net_revision == next_revision(old(self).net_revision),
            final(self).view_x() == old(self).view_x(),
            final(self).blocks == old(self).blocks,
            final(self).chests == old(self).chests,
            final(self).view_dirty() == old(self).view_dirty(),
            final(self).save_key == old(self).save_key,
            final(self).activity_counts == old(self).activity_counts,
    {
        self.net_revision = self.net_revision.wrapping_add(1);
        if self.net_revision == 0 {
            self.net_revision = 1;
        }
    }

    /// An all-air chunk at chunk column `x` of the save slot `save_key`,
    /// clean, at revision 1.
    pub fn new(x: i32, save_key: &str) -> (r: Self)
        ensures
            r.wf(),
            r.view_x() == x,
            r.view_blocks() == air_cells(),
            r.view_chests() == no_chests(),
            !r.view_dirty(),
            r.spec_revision() == 1,
            r.spec_save_key() == save_key@,
    {
        let mut blocks: Vec<BlockType> = Vec::new();
        let mut chests: Vec<Option<Inventory>> = Vec::new();
        let mut i: usize = 0;
        while i < CHUNK_WIDTH * CHUNK_HEIGHT
            invariant
                i <= 4096,
                blocks@ == Seq::new(i as nat, |k: int| BlockType::Air),
                chests@ == Seq::new(i as nat, |k: int| None::<Inventory>),
            decreases 4096 - i,
        {
            blocks.push(BlockType::Air);
            chests.push(None);
            proof {
                assert(blocks@ =~= Seq::new((i + 1) as nat, |k: int| BlockType::Air));
                assert(chests@ =~= Seq::new((i + 1) as nat, |k: int| None::<Inventory>));
            }
            i = i + 1;
        }
        proof {
            lemma_air_counts(4096, ActivityKind::Fluid);
            lemma_air_counts(4096, ActivityKind::Falling);
            lemma_air_counts(4096, ActivityKind::Leaf);
            lemma_air_counts(4096, ActivityKind::Farming);
            lemma_air_counts(4096, ActivityKind::Redstone);
        }
        Self {
            x,
            blocks,
            chests,
            dirty: false,
            net_revision: 1,
            save_key: save_key.to_owned(),
            activity_counts: ChunkActivityCounts::zero(),
        }
    }

    /// Recounts the activity groups from the blocks.
    fn rebuild_activity_counts(&mut self)
        requires
            old(self).view_blocks().len() == cell_count(),
        ensures
            counts_match(final(self).activity_counts, final(self).view_blocks()),
            final(self).view_x() == old(self).view_x(),
            final(self).blocks == old(self).blocks,
            final(self).chests == old(self).chests,
            final(self).view_dirty() == old(self).view_dirty(),
            final(self).save_key == old(self).save_key,
            final(self).net_revision == old(self).net_revision,
    {
        let mut counts = ChunkActivityCounts::zero();
        let n = self.blocks.len();
        let mut i: usize = 0;
        while i < n
            invariant
                n == self.blocks@.len(),
                n == 4096,
                i <= n,
                counts_match(counts, self.blocks@.take(i as int)),
            decreases n - i,
        {
            proof {
                lemma_kind_count_take_step(self.blocks@, i as int, ActivityKind::Fluid);
                lemma_kind_count_take_step(self.blocks@, i as int, ActivityKind::Falling);
                lemma_kind_count_take_step(self.blocks@, i as int, ActivityKind::Leaf);
                lemma_kind_count_take_step(self.blocks@, i as int, ActivityKind::Farming);
                lemma_kind_count_take_step(self.blocks@, i as int, ActivityKind::Redstone);
                lemma_kind_count_bound(self.blocks@.take(i as int), ActivityKind::Fluid);
                lemma_kind_count_bound(self.blocks@.take(i as int), ActivityKind::Falling);
                lemma_kind_count_bound(self.blocks@.take(i as int), ActivityKind::Leaf);
                lemma_kind_count_bound(self.blocks@.take(i as int), ActivityKind::Farming);
                lemma_kind_count_bound(self.blocks@.take(i as int), ActivityKind::Redstone);
            }
            counts.add_block(self.blocks[i]);
            i = i + 1;
        }
        proof {
            assert(self.blocks@.take(n as int) =~= self.blocks@);
        }
        self.activity_counts = counts;
    }

    /// The block at column `x`, row `y`; air outside the chunk.
    pub fn get_block(&self, x: usize, y: usize) -> (r: BlockType)
        requires
            self.wf(),
        ensures
            r == self.spec_block_at(x as int, y as int),
    {
        if x < CHUNK_WIDTH && y < CHUNK_HEIGHT {
            self.blocks[y * CHUNK_WIDTH + x]
        } else {
            BlockType::Air
        }
    }

    /// Places `block` at column `x`, row `y` (nothing happens outside the
    /// chunk or when the block is already there). A real change marks the
    /// chunk dirty, advances its revision, drops the inventory of a removed
    /// chest and gives a new chest an empty 27-slot inventory.
    pub fn set_block(&mut self, x: usize, y: usize, block: BlockType)
        requires
            old(self).wf(),
        ensures
            final(self).wf(),
            final(self).view_x() == old(self).view_x(),
            final(self).spec_save_key() == old(self).spec_save_key(),
            !in_chunk(x as int, y as int) || old(self).spec_block_at(x as int, y as int) == block
                ==> {
                &&& final(self).view_blocks() == old(self).view_blocks()
                &&& final(self).view_chests() == old(self).view_chests()
                &&& final(self).view_dirty() == old(self).view_dirty()
                &&& final(self).spec_revision() == old(self).spec_revision()
            },
            in_chunk(x as int, y as int) && old(self).spec_block_at(x as int, y as int) != block
                ==> {
                let idx = cell_index(x as int, y as int);
                &&& final(self).view_blocks() == old(self).view_blocks().update(idx, block)
                &&& final(self).view_dirty()
                &&& final(self).spec_revision() == next_revision(old(self).spec_revision())
                &&& final(self).view_chests() == old(self).view_chests().update(idx, final(self).view_chests()[idx])
                &&& old(self).view_blocks()[idx] == BlockType::Chest ==> final(self).view_chests()[idx] is None
                &&& old(self).view_blocks()[idx] != BlockType::Chest && block != BlockType::Chest
                    ==> final(self).view_chests()[idx] == old(self).view_chests()[idx]
                &&& old(self).view_blocks()[idx] != BlockType::Chest && block == BlockType::Chest
                    ==> (final(self).view_chests()[idx] matches Some(inv) && inv.capacity == 27
                    && inv.slots@ == Seq::new(27, |i: int| None::<super::inventory::ItemStack>))
            },
    {
        if x < CHUNK_WIDTH && y < CHUNK_HEIGHT {
            let idx = y * CHUNK_WIDTH + x;
            let previous = self.blocks[idx];
            if previous == block {
                return;
            }
            proof {
                self.lemma_counts_bounded();
                lemma_kind_count_update(self.blocks@, idx as int, block, ActivityKind::Fluid);
                if in_kind(previous, ActivityKind::Fluid) {
                    lemma_kind_count_positive(self.blocks@, idx as int, ActivityKind::Fluid);
                }
                lemma_kind_count_update(self.blocks@, idx as int, block, ActivityKind::Falling);
                if in_kind(previous, ActivityKind::Falling) {
                    lemma_kind_count_positive(self.blocks@, idx as int, ActivityKind::Falling);
                }
                lemma_kind_count_update(self.blocks@, idx as int, block, ActivityKind::Leaf);
                if in_kind(previous, ActivityKind::Leaf) {
                    lemma_kind_count_positive(self.blocks@, idx as int, ActivityKind::Leaf);
                }
                lemma_kind_count_update(self.blocks@, idx as int, block, ActivityKind::Farming);
                if in_kind(previous, ActivityKind::Farming) {
                    lemma_kind_count_positive(self.blocks@, idx as int, ActivityKind::Farming);
                }
                lemma_kind_count_update(self.blocks@, idx as int, block, ActivityKind::Redstone);
                if in_kind(previous, ActivityKind::Redstone) {
                    lemma_kind_count_positive(self.blocks@, idx as int, ActivityKind::Redstone);
                }
                lemma_kind_count_bound(self.blocks@.update(idx as int, block), ActivityKind::Fluid);
                lemma_kind_count_bound(self.blocks@.update(idx as int, block), ActivityKind::Falling);
                lemma_kind_count_bound(self.blocks@.update(idx as int, block), ActivityKind::Leaf);
                lemma_kind_count_bound(self.blocks@.update(idx as int, block), ActivityKind::Farming);
                lemma_kind_count_bound(self.blocks@.update(idx as int, block), ActivityKind::Redstone);
            }
            self.activity_counts.remove_block(previous);
            self.blocks.set(idx, block);
            self.activity_counts.add_block(block);
            if previous == BlockType::Chest && block != BlockType::Chest {
                self.chests.set(idx, None);
            } else if previous != BlockType::Chest && block == BlockType::Chest {
                if self.chests[idx].is_none() {
                    self.chests.set(idx, Some(Inventory::new(27)));
                }
            }
            self.dirty = true;
            self.bump_net_revision();
        }
    }

    /// A copy of all cells of the chunk.
    pub fn blocks_snapshot(&self) -> (r: Vec<BlockType>)
        ensures
            r@ == self.view_blocks(),
    {
        let mut out: Vec<BlockType> = Vec::new();
        let mut i: usize = 0;
        while i < self.blocks.len()
            invariant
                i <= self.blocks@.len(),
                out@ == self.blocks@.subrange(0, i as int),
            decreases self.blocks@.len() - i,
        {
            out.push(self.blocks[i]);
            i = i + 1;
            proof {
                assert(out@ =~= self.blocks@.subrange(0, i as int));
            }
        }
        proof {
            assert(out@ =~= self.blocks@);
        }
        out
    }

    /// Marks the chunk as saved: no edits wait to be written.
    pub fn mark_saved(&mut self)
        requires
            old(self).wf(),
        ensures
            final(self).wf(),
            !final(self).view_dirty(),
            final(self).view_x() == old(self).view_x(),
            final(self).view_blocks() == old(self).view_blocks(),
            final(self).view_chests() == old(self).view_chests(),
            final(self).spec_revision() == old(self).spec_revision(),
            final(self).spec_save_key() == old(self).spec_save_key(),
    {
        self.dirty = false;
    }

    /// Whether the chunk has edits not yet saved.
    pub fn is_dirty(&self) -> (r: bool)
        ensures
            r == self.view_dirty(),
    {
        self.dirty
    }

    /// The chunk column this chunk covers.
    pub fn column(&self) -> (r: i32)
        ensures
            r == self.view_x(),
    {
        self.x
    }

    /// The save slot name the chunk was created under.
    pub fn save_key(&self) -> (r: &str)
        ensures
            r@ == self.spec_save_key(),
    {
        self.save_key.as_str()
    }

    /// The revision of the chunk's blocks.
    pub fn blocks_revision(&self) -> (r: u64)
        ensures
            r == self.spec_revision(),
    {
        self.net_revision
    }

    /// Whether the chunk holds water or lava.
    pub fn has_fluids(&self) -> (r: bool)
        requires
            self.wf(),
        ensures
            r == self.has_kind(ActivityKind::Fluid),
    {
        self.activity_counts.fluid_blocks > 0
    }

    /// Whether the chunk holds sand or gravel.
    pub fn has_falling_blocks(&self) -> (r: bool)
        requires
            self.wf(),
        ensures
            r == self.has_kind(ActivityKind::Falling),
    {
        self.activity_counts.falling_blocks > 0
    }

    /// Whether the chunk holds leaves.
    pub fn has_leaf_blocks(&self) -> (r: bool)
        requires
            self.wf(),
        ensures
            r == self.has_kind(ActivityKind::Leaf),
    {
        self.activity_counts.leaf_blocks > 0
    }

    /// Whether the chunk holds blocks the farming tick updates.
    pub fn has_farming_blocks(&self) -> (r: bool)
        requires
            self.wf(),
        ensures
            r == self.has_kind(ActivityKind::Farming),
    {
        self.activity_counts.farming_blocks > 0
    }

    /// Whether the chunk holds blocks the redstone tick updates.
    pub fn has_redstone_blocks(&self) -> (r: bool)
        requires
            self.wf(),
        ensures
            r == self.has_kind(ActivityKind::Redstone),
    {
        self.activity_counts.redstone_blocks > 0
    }

    /// Replaces all blocks with a full snapshot received from elsewhere. A
    /// snapshot of the wrong size is refused (false); an identical one
    /// changes nothing. Otherwise the blocks are replaced, inventories whose
    /// chest is gone are dropped, the chunk is clean (the snapshot is not a
    /// local edit) and the revision advances.
    pub fn apply_block_snapshot(&mut self, blocks: &[BlockType]) -> (r: bool)
        requires
            old(self).wf(),
        ensures
            final(self).wf(),
            r == (blocks@.len() == cell_count()),
            final(self).view_x() == old(self).view_x(),
            final(self).spec_save_key() == old(self).spec_save_key(),
            !r || blocks@ == old(self).view_blocks() ==> {
                &&& final(self).view_blocks() == old(self).view_blocks()
                &&& final(self).view_chests() == old(self).view_chests()
                &&& final(self).view_dirty() == old(self).view_dirty()
                &&& final(self).spec_revision() == old(self).spec_revision()
            },
            r && blocks@ != old(self).view_blocks() ==> {
                &&& final(self).view_blocks() == blocks@
                &&& !final(self).view_dirty()
                &&& final(self).spec_revision() == next_revision(old(self).spec_revision())
                &&& forall|i: int|
                    0 <= i < cell_count() ==> #[trigger] final(self).view_chests()[i] == if blocks@[i]
                        == BlockType::Chest {
                        old(self).view_chests()[i]
                    } else {
                        None
                    }
            },
    {
        if blocks.len() != CHUNK_WIDTH * CHUNK_HEIGHT {
            return false;
        }
        if blocks_equal(self.blocks.as_slice(), blocks) {
            return true;
        }
        let n = blocks.len();
        let mut i: usize = 0;
        while i < n
            invariant
                n == blocks@.len(),
                n == 4096,
                i <= n,
                self.blocks@.len() == n,
                forall|k: int| 0 <= k < i ==> self.blocks@[k] == blocks@[k],
                self.x == old(self).view_x(),
                self.save_key == old(self).save_key,
                self.chests == old(self).chests,
                self.net_revision == old(self).net_revision,
            decreases n - i,
        {
            self.blocks.set(i, blocks[i]);
            i = i + 1;
        }
        proof {
            assert(self.blocks@ =~= blocks@);
        }
        self.rebuild_activity_counts();
        let mut j: usize = 0;
        while j < n
            invariant
                n == 4096,
                n == blocks@.len(),
                j <= n,
                self.blocks@ == blocks@,
                self.chests@.len() == n,
                counts_match(self.activity_counts, self.blocks@),
                forall|k: int|
                    0 <= k < j ==> #[trigger] self.chests@[k] == if blocks@[k] == BlockType::Chest {
                        old(self).view_chests()[k]
                    } else {
                        None
                    },
                forall|k: int| j <= k < n ==> #[trigger] self.chests@[k] == old(self).view_chests()[k],
                self.x == old(self).view_x(),
                self.save_key == old(self).save_key,
                self.net_revision == old(self).net_revision,
            decreases n - j,
        {
            if self.chests[j].is_some() && self.blocks[j] != BlockType::Chest {
                self.chests.set(j, None);
            }
            j = j + 1;
        }
        self.dirty = false;
        self.bump_net_revision();
        true
    }

    /// The inventory of the chest at column `x`, row `y`, if one is kept there.
    pub fn chest_inventory(&self, x: usize, y: usize) -> (r: Option<&Inventory>)
        requires
            self.wf(),
        ensures
            match r {
                Some(inv) => in_chunk(x as int, y as int) && self.view_chests()[cell_index(
                    x as int,
                    y as int,
                )] == Some(*inv),
                None => !in_chunk(x as int, y as int) || self.view_chests()[cell_index(
                    x as int,
                    y as int,
                )] is None,
            },
    {
        if x < CHUNK_WIDTH && y < CHUNK_HEIGHT {
            self.chests[y * CHUNK_WIDTH + x].as_ref()
        } else {
            None
        }
    }

    /// Mutable access to the inventory of the chest at column `x`, row `y`,
    /// if one is kept there; edits through it land in that cell.
    pub fn chest_inventory_mut(&mut self, x: usize, y: usize) -> (r: Option<&mut Inventory>)
        requires
            old(self).wf(),
        ensures
            final(self).wf(),
            final(self).view_x() == old(self).view_x(),
            final(self).view_blocks() == old(self).view_blocks(),
            final(self).view_dirty() == old(self).view_dirty(),
            final(self).spec_revision() == old(self).spec_revision(),
            final(self).spec_save_key() == old(self).spec_save_key(),
            !in_chunk(x as int, y as int) ==> r is None && final(self).view_chests()
                == old(self).view_chests(),
            in_chunk(x as int, y as int) ==> match old(self).view_chests()[cell_index(
                x as int,
                y as int,
            )] {
                None => r is None && final(self).view_chests() == old(self).view_chests(),
                Some(inv) => r is Some && *r.unwrap() == inv && final(self).view_chests()
                    == old(self).view_chests().update(
                    cell_index(x as int, y as int),
                    Some(*final(r.unwrap())),
                ),
            },
    {
        if x < CHUNK_WIDTH && y < CHUNK_HEIGHT {
            self.chests[y * CHUNK_WIDTH + x].as_mut()
        } else {
            None
        }
    }

    /// The inventory of the chest at column `x`, row `y`, creating an empty
    /// one of `capacity` slots (and marking the chunk dirty) when the chest
    /// has none yet. None when no chest stands there.
    pub fn ensure_chest_inventory(&mut self, x: usize, y: usize, capacity: usize) -> (r: Option<
        &mut Inventory,
    >)
        requires
            old(self).wf(),
        ensures
            final(self).wf(),
            final(self).view_x() == old(self).view_x(),
            final(self).view_blocks() == old(self).view_blocks(),
            final(self).spec_revision() == old(self).spec_revision(),
            final(self).spec_save_key() == old(self).spec_save_key(),
            old(self).spec_block_at(x as int, y as int) != BlockType::Chest ==> r is None
                && final(self).view_chests() == old(self).view_chests() && final(self).view_dirty()
                == old(self).view_dirty(),
            old(self).spec_block_at(x as int, y as int) == BlockType::Chest ==> {
                let idx = cell_index(x as int, y as int);
                &&& r is Some
                &&& final(self).view_chests() == old(self).view_chests().update(
                    idx,
                    Some(*final(r.unwrap())),
                )
                &&& match old(self).view_chests()[idx] {
                    Some(inv) => *r.unwrap() == inv && final(self).view_dirty() == old(
                        self,
                    ).view_dirty(),
                    None => r.unwrap().capacity == capacity && r.unwrap().slots@ == Seq::new(
                        capacity as nat,
                        |i: int| None::<super::inventory::ItemStack>,
                    ) && final(self).view_dirty(),
                }
            },
    {
        if self.get_block(x, y) != BlockType::Chest {
            return None;
        }
        let idx = y * CHUNK_WIDTH + x;
        if self.chests[idx].is_none() {
            self.dirty = true;
            self.chests.set(idx, Some(Inventory::new(capacity)));
        }
        self.chests[idx].as_mut()
    }

    /// Takes the inventory of the chest at column `x`, row `y` out of the
    /// chunk, marking the chunk dirty when there was one.
    pub fn remove_chest_inventory(&mut self, x: usize, y: usize) -> (r: Option<Inventory>)
        requires
            old(self).wf(),
        ensures
            final(self).wf(),
            final(self).view_x() == old(self).view_x(),
            final(self).view_blocks() == old(self).view_blocks(),
            final(self).spec_revision() == old(self).spec_revision(),
            final(self).spec_save_key() == old(self).spec_save_key(),
            !in_chunk(x as int, y as int) ==> r is None && final(self).view_chests() == old(
                self,
            ).view_chests() && final(self).view_dirty() == old(self).view_dirty(),
            in_chunk(x as int, y as int) ==> {
                let idx = cell_index(x as int, y as int);
                &&& r == old(self).view_chests()[idx]
                &&& final(self).view_chests() == old(self).view_chests().update(idx, None)
                &&& final(self).view_dirty() == (old(self).view_dirty() || r is Some)
            },
    {
        if x < CHUNK_WIDTH && y < CHUNK_HEIGHT {
            let idx = y * CHUNK_WIDTH + x;
            let removed = self.chests[idx].take();
            if removed.is_some() {
                self.dirty = true;
            }
            removed
        } else {
            None
        }
    }
}


/// Save format version written by this library.
pub const CHUNK_SAVE_VERSION: u8 = 2;

/// Codec byte of a compressed chunk save.
pub const CHUNK_SAVE_CODEC_DEFLATE: u8 = 1;

/// A chest inventory as stored in a chunk save.
pub struct ChestSaveData {
    pub local_x: usize,
    pub local_y: usize,
    pub inventory: Inventory,
}

/// The contents of a chunk save: format version, every cell, and the chest
/// inventories.
pub struct ChunkSaveData {
    pub version: u8,
    pub blocks: Vec<BlockType>,
    pub chests: Vec<ChestSaveData>,
}

/// A saved chest as plain values: column, row, slots and capacity.
pub open spec fn chest_record(c: ChestSaveData) -> (usize, usize, Seq<Option<ItemStack>>, usize) {
    (c.local_x, c.local_y, c.inventory.slots@, c.inventory.capacity)
}

/// The chests of the first `n` cells that a save records, in cell order
/// (row by row, left to right): cells holding both an inventory and a chest.
pub open spec fn chest_records(
    blocks: Seq<BlockType>,
    chests: Seq<Option<Inventory>>,
    n: nat,
) -> Seq<(usize, usize, Seq<Option<ItemStack>>, usize)>
    decreases n,
{
    if n == 0 {
        Seq::empty()
    } else {
        let i = n - 1;
        chest_records(blocks, chests, (n - 1) as nat) + match chests[i] {
            Some(inv) => if blocks[i] == BlockType::Chest {
                seq![((i % 32) as usize, (i / 32) as usize, inv.slots@, inv.capacity)]
            } else {
                Seq::empty()
            },
            None => Seq::empty(),
        }
    }
}

/// Whether a saved chest lies inside the chunk, on a chest block, at cell `idx`.
pub open spec fn save_entry_fits(e: ChestSaveData, blocks: Seq<BlockType>, idx: int) -> bool {
    &&& in_chunk(e.local_x as int, e.local_y as int)
    &&& cell_index(e.local_x as int, e.local_y as int) == idx
    &&& blocks[idx] == BlockType::Chest
}

/// The inventory a loaded chunk keeps at cell `idx`: that of the last saved
/// chest that fits there, if any.
pub open spec fn loaded_chest(entries: Seq<ChestSaveData>, blocks: Seq<BlockType>, idx: int) -> Option<
    Inventory,
>
    decreases entries.len(),
{
    if entries.len() == 0 {
        None
    } else if save_entry_fits(entries.last(), blocks, idx) {
        Some(entries.last().inventory)
    } else {
        loaded_chest(entries.drop_last(), blocks, idx)
    }
}

/// The save data to keep, given the results of reading a payload in the
/// current format and in the first format (blocks only): the current one when
/// it read, has the current version and a full set of cells; otherwise the
/// first-format blocks, when they read and are a full set, with no chests.
pub open spec fn spec_accept_save_data(
    current: Option<(u8, Seq<BlockType>)>,
    first: Option<Seq<BlockType>>,
) -> Option<Seq<BlockType>> {
    match current {
        Some((v, b)) if v == 2 && b.len() == cell_count() => Some(b),
        _ => match first {
            Some(b) if b.len() == cell_count() => Some(b),
            _ => None,
        },
    }
}

/// Raw DEFLATE compression (no zlib or gzip header) of `data`, at flate2's
/// default level.
pub uninterp spec fn deflated(data: Seq<u8>) -> Seq<u8>;

/// Raw DEFLATE decompression of `data`; None when it is not a DEFLATE stream.
pub uninterp spec fn inflated(data: Seq<u8>) -> Option<Seq<u8>>;

/// Compresses `data` with flate2's `DeflateEncoder` (default level): new,
/// `write_all`, `finish`. Writing into a `Vec` with the miniz_oxide backend
/// does not fail (the backend reports errors only for dictionaries and bad
/// parameters, which the encoder never asks for), so a result always comes
/// back: the raw DEFLATE stream of `data`, which decompresses to `data`
/// (DEFLATE is lossless).
#[verifier::external_body]
fn deflate_bytes(data: &[u8]) -> (r: Option<Vec<u8>>)
    ensures
        r is Some,
        r matches Some(v) ==> v@ == deflated(data@),
        r matches Some(v) ==> inflated(v@) == Some(data@),
{
    let mut deflater = DeflateEncoder::new(Vec::new(), Compression::default());
    deflater.write_all(data).ok()?;
    deflater.finish().ok()
}

/// Decompresses `data` with flate2's `DeflateDecoder` and `read_to_end`. The
/// result is the named decompression of `data`.
#[verifier::external_body]
fn inflate_bytes(data: &[u8]) -> (r: Option<Vec<u8>>)
    ensures
        r is Some <==> inflated(data@) is Some,
        r matches Some(v) ==> v@ == inflated(data@).unwrap(),
{
    let mut decoder = DeflateDecoder::new(data);
    let mut decoded = Vec::new();
    match decoder.read_to_end(&mut decoded) {
        Ok(_) => Some(decoded),
        Err(_) => None,
    }
}

/// The four bytes that open a framed chunk save: "MCCF".
pub open spec fn save_magic() -> Seq<u8> {
    seq![0x4Du8, 0x43u8, 0x43u8, 0x46u8]
}

/// A framed save: magic, codec byte, compressed payload.
pub open spec fn framed(compressed: Seq<u8>) -> Seq<u8> {
    save_magic() + seq![1u8] + compressed
}

/// The payload a save buffer carries: a buffer longer than the magic that
/// starts with it must use the DEFLATE codec and decompress; any other buffer
/// is an uncompressed payload of an older save.
pub open spec fn spec_save_payload(buffer: Seq<u8>) -> Option<Seq<u8>> {
    if buffer.len() > 4 && buffer.take(4) == save_magic() {
        if buffer[4] != 1 {
            None
        } else {
            inflated(buffer.skip(5))
        }
    } else {
        Some(buffer)
    }
}

/// Frames an encoded chunk payload for disk: "MCCF", the codec byte, and the
/// DEFLATE-compressed payload. Compression into memory always succeeds.
pub fn encode_save_payload(encoded: &[u8]) -> (r: Option<Vec<u8>>)
    ensures
        r is Some,
        r matches Some(v) ==> v@ == framed(deflated(encoded@)),
        r matches Some(v) ==> spec_save_payload(v@) == Some(encoded@),
{
    let compressed = deflate_bytes(encoded)?;
    let mut payload: Vec<u8> = Vec::new();
    payload.push(0x4D);
    payload.push(0x43);
    payload.push(0x43);
    payload.push(0x46);
    payload.push(CHUNK_SAVE_CODEC_DEFLATE);
    let mut i: usize = 0;
    while i < compressed.len()
        invariant
            i <= compressed@.len(),
            payload@ == framed(compressed@.take(i as int)),
        decreases compressed@.len() - i,
    {
        payload.push(compressed[i]);
        proof {
            assert(compressed@.take(i + 1) =~= compressed@.take(i as int).push(compressed@[i as int]));
            assert(framed(compressed@.take(i + 1)) =~= framed(compressed@.take(i as int)).push(compressed@[i as int]));
        }
        i = i + 1;
    }
    proof {
        assert(compressed@.take(i as int) =~= compressed@);
        let f = framed(compressed@);
        assert(f.take(4) =~= save_magic());
        assert(f.skip(5) =~= compressed@);
    }
    Some(payload)
}

/// The encoded chunk payload a save buffer carries (see `spec_save_payload`).
pub fn decode_save_payload(buffer: &[u8]) -> (r: Option<Vec<u8>>)
    ensures
        r is Some <==> spec_save_payload(buffer@) is Some,
        r matches Some(v) ==> v@ == spec_save_payload(buffer@).unwrap(),
{
    if buffer.len() > 4 && buffer[0] == 0x4D && buffer[1] == 0x43 && buffer[2] == 0x43
        && buffer[3] == 0x46 {
        proof {
            assert(buffer@.take(4) =~= save_magic());
        }
        if buffer[4] != CHUNK_SAVE_CODEC_DEFLATE {
            return None;
        }
        let rest = vstd::slice::slice_subrange(buffer, 5, buffer.len());
        proof {
            assert(rest@ =~= buffer@.skip(5));
        }
        return inflate_bytes(rest);
    }
    proof {
        if buffer@.len() > 4 {
            assert(buffer@.take(4)[0] == buffer@[0]);
            assert(buffer@.take(4)[1] == buffer@[1]);
            assert(buffer@.take(4)[2] == buffer@[2]);
            assert(buffer@.take(4)[3] == buffer@[3]);
        }
    }
    let mut copy: Vec<u8> = Vec::new();
    let mut i: usize = 0;
    while i < buffer.len()
        invariant
            i <= buffer@.len(),
            copy@ == buffer@.take(i as int),
        decreases buffer@.len() - i,
    {
        copy.push(buffer[i]);
        proof {
            assert(buffer@.take(i + 1) =~= buffer@.take(i as int).push(buffer@[i as int]));
        }
        i = i + 1;
    }
    proof {
        assert(buffer@.take(i as int) =~= buffer@);
    }
    Some(copy)
}




/// Cells are row-major: cell `i` sits in column `i % 32`, row `i / 32`.
pub proof fn lemma_cell_coords(i: int)
    requires
        0 <= i < 4096,
    ensures
        in_chunk(i % 32, i / 32),
        cell_index(i % 32, i / 32) == i,
{
}

/// The save data to keep from the two readings of a payload (see
/// `spec_accept_save_data`); a first-format payload gets the current version
/// and no chests.
pub fn accept_save_data(current: Option<ChunkSaveData>, first: Option<Vec<BlockType>>) -> (r: Option<
    ChunkSaveData,
>)
    ensures
        spec_accept_save_data(
            match current {
                Some(d) => Some((d.version, d.blocks@)),
                None => None,
            },
            match first {
                Some(b) => Some(b@),
                None => None,
            },
        ) == match r {
            Some(d) => Some(d.blocks@),
            None => None,
        },
        r matches Some(d) ==> d.version == CHUNK_SAVE_VERSION,
        r matches Some(d) ==> (current is Some && current.unwrap().version == 2
            && current.unwrap().blocks@.len() == cell_count() ==> d.chests@
            == current.unwrap().chests@),
        r matches Some(d) ==> (!(current is Some && current.unwrap().version == 2
            && current.unwrap().blocks@.len() == cell_count()) ==> d.chests@.len() == 0),
{
    if let Some(save_data) = current {
        if save_data.version == CHUNK_SAVE_VERSION && save_data.blocks.len() == CHUNK_WIDTH
            * CHUNK_HEIGHT {
            return Some(save_data);
        }
    }
    let blocks = first?;
    if blocks.len() != CHUNK_WIDTH * CHUNK_HEIGHT {
        return None;
    }
    Some(ChunkSaveData { version: CHUNK_SAVE_VERSION, blocks, chests: Vec::new() })
}

impl Chunk {
    /// What a save of the chunk holds: the current version, every cell, and
    /// the inventories that sit on chests, in cell order.
    pub fn save_data(&self) -> (r: ChunkSaveData)
        requires
            self.wf(),
        ensures
            r.version == CHUNK_SAVE_VERSION,
            r.blocks@ == self.view_blocks(),
            r.chests@.map_values(|c: ChestSaveData| chest_record(c)) == chest_records(
                self.view_blocks(),
                self.view_chests(),
                cell_count(),
            ),
    {
        let mut blocks: Vec<BlockType> = Vec::new();
        let mut chests: Vec<ChestSaveData> = Vec::new();
        let mut i: usize = 0;
        while i < CHUNK_WIDTH * CHUNK_HEIGHT
            invariant
                i <= 4096,
                self.wf(),
                blocks@ == self.blocks@.take(i as int),
                chests@.map_values(|c: ChestSaveData| chest_record(c)) == chest_records(
                    self.blocks@,
                    self.chests@,
                    i as nat,
                ),
            decreases 4096 - i,
        {
            let block = self.blocks[i];
            blocks.push(block);
            let ghost before = chests@;
            if let Some(inventory) = &self.chests[i] {
                if block == BlockType::Chest {
                    chests.push(
                        ChestSaveData {
                            local_x: i % CHUNK_WIDTH,
                            local_y: i / CHUNK_WIDTH,
                            inventory: inventory.clone(),
                        },
                    );
                }
            }
            proof {
                assert(self.blocks@.take(i + 1) =~= self.blocks@.take(i as int).push(self.blocks@[i as int]));
                assert(chests@.map_values(|c: ChestSaveData| chest_record(c)) =~= chest_records(
                    self.blocks@,
                    self.chests@,
                    (i + 1) as nat,
                ));
            }
            i = i + 1;
        }
        proof {
            assert(self.blocks@.take(4096) =~= self.blocks@);
        }
        ChunkSaveData { version: CHUNK_SAVE_VERSION, blocks, chests }
    }

    /// A clean chunk at revision 1 rebuilt from save data with a full set of
    /// cells; each cell keeps the inventory of the last saved chest that lies
    /// inside the chunk on a chest block there.
    pub fn from_save_data(x: i32, save_key: &str, data: ChunkSaveData) -> (r: Self)
        requires
            data.blocks@.len() == cell_count(),
        ensures
            r.wf(),
            r.view_x() == x,
            r.view_blocks() == data.blocks@,
            forall|i: int|
                0 <= i < cell_count() ==> #[trigger] r.view_chests()[i] == loaded_chest(
                    data.chests@,
                    data.blocks@,
                    i,
                ),
            !r.view_dirty(),
            r.spec_revision() == 1,
            r.spec_save_key() == save_key@,
    {
        let ChunkSaveData { blocks, chests: mut entries, .. } = data;
        let ghost all_entries = entries@;
        let mut chests: Vec<Option<Inventory>> = Vec::new();
        let mut i: usize = 0;
        while i < CHUNK_WIDTH * CHUNK_HEIGHT
            invariant
                i <= 4096,
                chests@ == Seq::new(i as nat, |k: int| None::<Inventory>),
            decreases 4096 - i,
        {
            chests.push(None);
            proof {
                assert(chests@ =~= Seq::new((i + 1) as nat, |k: int| None::<Inventory>));
            }
            i = i + 1;
        }
        while entries.len() > 0
            invariant
                blocks@.len() == 4096,
                chests@.len() == 4096,
                all_entries.len() >= entries@.len(),
                entries@ == all_entries.take(entries@.len() as int),
                forall|k: int|
                    0 <= k < 4096 ==> loaded_chest(all_entries, blocks@, k) == match #[trigger] chests@[k] {
                        Some(v) => Some(v),
                        None => loaded_chest(entries@, blocks@, k),
                    },
                chests_on_chest_blocks(blocks@, chests@),
            decreases entries@.len(),
        {
            let ghost before = entries@;
            let entry = entries.pop().unwrap();
            proof {
                assert(entries@ =~= before.drop_last());
                assert(entries@ =~= all_entries.take(entries@.len() as int));
            }
            if entry.local_x < CHUNK_WIDTH && entry.local_y < CHUNK_HEIGHT {
                let idx = entry.local_y * CHUNK_WIDTH + entry.local_x;
                if blocks[idx] == BlockType::Chest && chests[idx].is_none() {
                    chests.set(idx, Some(entry.inventory));
                }
            }
        }
        let mut chunk = Chunk {
            x,
            blocks,
            chests,
            dirty: false,
            net_revision: 1,
            save_key: save_key.to_owned(),
            activity_counts: ChunkActivityCounts::zero(),
        };
        chunk.rebuild_activity_counts();
        chunk
    }
}


/// Where a chunk save should be read from.
#[derive(Clone, Copy, PartialEq, Eq, Debug, Structural)]
pub enum ChunkLoadSource {
    /// The file named after the save slot and chunk column.
    Namespaced,
    /// The older file named after the chunk column alone.
    Legacy,
}

impl Chunk {
    /// The file of chunk column `x` in save slot `save_key`:
    /// "saves/{save_key}_chunk_{x}.bin".
    pub fn namespaced_chunk_path(save_key: &str, x: i32) -> (r: String)
        ensures
            r@ == "saves/"@ + save_key@ + "_chunk_"@ + decimal_text(x as int) + ".bin"@,
    {
        let mut path = String::from_str("saves/");
        path.append(save_key);
        path.append("_chunk_");
        push_decimal(&mut path, x);
        path.append(".bin");
        path
    }

    /// The file older saves used for chunk column `x`: "saves/chunk_{x}.bin".
    pub fn legacy_chunk_path(x: i32) -> (r: String)
        ensures
            r@ == "saves/chunk_"@ + decimal_text(x as int) + ".bin"@,
    {
        let mut path = String::from_str("saves/chunk_");
        push_decimal(&mut path, x);
        path.append(".bin");
        path
    }

    /// The temporary file a save is written to before it replaces `path`.
    pub fn temp_chunk_path(path: &str) -> (r: String)
        ensures
            r@ == path@ + ".tmp"@,
    {
        let mut temp = String::from_str(path);
        temp.append(".tmp");
        temp
    }

    /// Which file to read a chunk from: the namespaced one when it exists;
    /// otherwise, for the overworld slot only, the legacy one when that
    /// exists; otherwise the namespaced one.
    pub fn choose_load_source(save_key: &str, namespaced_exists: bool, legacy_exists: bool) -> (r:
        ChunkLoadSource)
        ensures
            r == if !namespaced_exists && save_key@ == "overworld"@ && legacy_exists {
                ChunkLoadSource::Legacy
            } else {
                ChunkLoadSource::Namespaced
            },
    {
        if namespaced_exists {
            ChunkLoadSource::Namespaced
        } else if String::from_str(save_key) == String::from_str("overworld") && legacy_exists {
            ChunkLoadSource::Legacy
        } else {
            ChunkLoadSource::Namespaced
        }
    }
}


/// Reading a cell after writing it gives what was written, and every other
/// cell keeps its block.
pub proof fn law_write_then_read(
    blocks: Seq<BlockType>,
    x: int,
    y: int,
    block: BlockType,
    x2: int,
    y2: int,
)
    requires
        blocks.len() == cell_count(),
        in_chunk(x, y),
    ensures
        blocks.update(cell_index(x, y), block)[cell_index(x, y)] == block,
        in_chunk(x2, y2) && (x2 != x || y2 != y) ==> blocks.update(cell_index(x, y), block)[cell_index(
            x2,
            y2,
        )] == blocks[cell_index(x2, y2)],
{
}

/// A revision bump always yields a new, nonzero revision.
pub proof fn law_revision_advances(r: u64)
    ensures
        next_revision(r) != r,
        next_revision(r) != 0,
{
}

/// An activity count is positive exactly when some block of its group is
/// present.
pub proof fn law_activity_means_presence(s: Seq<BlockType>, k: ActivityKind)
    ensures
        kind_count(s, k) > 0 <==> exists|i: int| 0 <= i < s.len() && in_kind(#[trigger] s[i], k),
    decreases s.len(),
{
    if s.len() > 0 {
        law_activity_means_presence(s.drop_last(), k);
        if exists|i: int| 0 <= i < s.len() && in_kind(#[trigger] s[i], k) {
            let i = choose|i: int| 0 <= i < s.len() && in_kind(#[trigger] s[i], k);
            if i < s.len() - 1 {
                assert(s.drop_last()[i] == s[i]);
            }
        }
        if exists|i: int| 0 <= i < s.drop_last().len() && in_kind(#[trigger] s.drop_last()[i], k) {
            let i = choose|i: int| 0 <= i < s.drop_last().len() && in_kind(#[trigger] s.drop_last()[i], k);
            assert(s[i] == s.drop_last()[i]);
        }
    }
}

/// Whether a loaded inventory matches a kept one: same slots and capacity.
pub open spec fn same_inventory(a: Option<Inventory>, b: Option<Inventory>) -> bool {
    match (a, b) {
        (Some(x), Some(y)) => x.slots@ == y.slots@ && x.capacity == y.capacity,
        (None, None) => true,
        _ => false,
    }
}

proof fn lemma_saved_chests_prefix(
    blocks: Seq<BlockType>,
    chests: Seq<Option<Inventory>>,
    entries: Seq<ChestSaveData>,
    n: nat,
)
    requires
        blocks.len() == cell_count(),
        chests.len() == cell_count(),
        n <= cell_count(),
        chests_on_chest_blocks(blocks, chests),
        entries.map_values(|c: ChestSaveData| chest_record(c)) == chest_records(blocks, chests, n),
    ensures
        forall|i: int|
            0 <= i < cell_count() ==> same_inventory(
                #[trigger] loaded_chest(entries, blocks, i),
                if i < n {
                    chests[i]
                } else {
                    None
                },
            ),
    decreases n,
{
    if n > 0 {
        let m = (n - 1) as nat;
        let c = m as int;
        lemma_cell_coords(c);
        let recs = entries.map_values(|e: ChestSaveData| chest_record(e));
        if chests[c] is Some {
            assert(blocks[c] == BlockType::Chest);
            let init = entries.drop_last();
            assert(init.map_values(|e: ChestSaveData| chest_record(e)) =~= chest_records(blocks, chests, m)) by {
                assert(recs.drop_last() =~= init.map_values(|e: ChestSaveData| chest_record(e)));
            }
            lemma_saved_chests_prefix(blocks, chests, init, m);
            let last = entries.last();
            assert(chest_record(last) == recs.last());
            assert forall|i: int| 0 <= i < cell_count() implies same_inventory(
                #[trigger] loaded_chest(entries, blocks, i),
                if i < n {
                    chests[i]
                } else {
                    None
                },
            ) by {
                assert(loaded_chest(init, blocks, i) == loaded_chest(init, blocks, i));
                if i == c {
                    assert(save_entry_fits(last, blocks, i));
                } else {
                    assert(!save_entry_fits(last, blocks, i));
                }
            }
        } else {
            assert(chest_records(blocks, chests, n) =~= chest_records(blocks, chests, m));
            lemma_saved_chests_prefix(blocks, chests, entries, m);
        }
    } else {
        assert forall|i: int| 0 <= i < cell_count() implies same_inventory(
            #[trigger] loaded_chest(entries, blocks, i),
            None,
        ) by {
            assert(entries.len() == 0) by {
                assert(entries.map_values(|e: ChestSaveData| chest_record(e)).len() == 0);
            }
        }
    }
}

/// Save law: loading the chests a save records gives every cell back the
/// inventory it had (same slots and capacity), and no other cell gets one.
pub proof fn law_saved_chests_load_back(
    blocks: Seq<BlockType>,
    chests: Seq<Option<Inventory>>,
    entries: Seq<ChestSaveData>,
)
    requires
        blocks.len() == cell_count(),
        chests.len() == cell_count(),
        chests_on_chest_blocks(blocks, chests),
        entries.map_values(|c: ChestSaveData| chest_record(c)) == chest_records(
            blocks,
            chests,
            cell_count(),
        ),
    ensures
        forall|i: int|
            0 <= i < cell_count() ==> same_inventory(
                #[trigger] loaded_chest(entries, blocks, i),
                chests[i],
            ),
{
    lemma_saved_chests_prefix(blocks, chests, entries, cell_count());
}

} // verus!
