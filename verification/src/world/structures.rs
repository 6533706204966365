use vstd::prelude::*;
use super::block::BlockType;
use super::caves::put_cell;
use super::chunk::{Chunk, CHUNK_HEIGHT, CHUNK_WIDTH, cell_index};
use super::fortress::{carve_nether_lava_brazier, fortress_block_is, fortress_changed_within, set_nether_fortress_block};
use super::item::ItemType;
use super::inventory::{lemma_add_conserves, lemma_add_to_empty, stack_limit, Inventory};
use super::rules::{rem_euclid_i32, BiomeType};
use super::stronghold::same_chunk_frame;

verus! {

/// The next value of the sequence loot is rolled from.
pub open spec fn loot_roll(state: u32) -> u32 {
    state.wrapping_mul(1_664_525).wrapping_add(1_013_904_223)
}

/// Whether (x, y) of `c` holds a new chest: one with no inventory yet, or
/// with the empty 27-slot inventory a placed chest gets.
pub open spec fn fresh_chest(c: Chunk, x: int, y: int) -> bool {
    &&& c.spec_block_at(x, y) == BlockType::Chest
    &&& match c.view_chests()[cell_index(x, y)] {
        None => true,
        Some(inv) => empty_loot_chest(inv),
    }
}

/// The food a route landmark chest rolled from `seed` holds.
pub open spec fn landmark_food(seed: u32) -> ItemType {
    if loot_roll(seed) & 1 == 0 {
        ItemType::Bread
    } else {
        ItemType::CookedBeef
    }
}

/// An empty 27-slot chest inventory, as a new chest gets.
pub open spec fn empty_loot_chest(inv: Inventory) -> bool {
    &&& inv.capacity == 27
    &&& inv.slots@ == Seq::new(27, |i: int| None::<super::inventory::ItemStack>)
}

/// Whether the chest at (x, y) of `c` holds at least `n` of `item`.
pub open spec fn chest_holds_at_least(c: Chunk, x: int, y: int, item: ItemType, n: int) -> bool {
    c.view_chests()[cell_index(x, y)] matches Some(inv) && inv.spec_count(item) >= n
}

/// Whether the chest at (x, y) of `c` holds exactly `n` of `item`.
pub open spec fn chest_holds(c: Chunk, x: int, y: int, item: ItemType, n: int) -> bool {
    c.view_chests()[cell_index(x, y)] matches Some(inv) && inv.spec_count(item) == n
}

/// The next value of the sequence loot is rolled from.
pub fn next_loot_roll(state: u32) -> (r: u32)
    ensures
        r == loot_roll(state),
{
    state.wrapping_mul(1_664_525).wrapping_add(1_013_904_223)
}

/// Puts `amount` of `item` into a loot chest, as far as it has room; no
/// other item's count changes, and up to a full stack put into an empty
/// chest goes in whole.
pub(crate) fn add_loot(chest: &mut Inventory, item: ItemType, amount: u32)
    requires
        old(chest).wf(),
    ensures
        final(chest).wf(),
        final(chest).capacity == old(chest).capacity,
        final(chest).slots@.len() == old(chest).slots@.len(),
        forall|j: ItemType| j != item ==> #[trigger] final(chest).spec_count(j) == old(chest).spec_count(j),
        (forall|i: int| 0 <= i < old(chest).slots@.len() ==> #[trigger] old(chest).slots@[i] is None) && 1
            <= old(chest).capacity && amount <= stack_limit(item) ==> final(chest).spec_count(item) == amount,
{
    proof {
        lemma_add_conserves(chest.slots@, chest.capacity as nat, item, amount as nat);
        if (forall|i: int| 0 <= i < chest.slots@.len() ==> #[trigger] chest.slots@[i] is None) && 1 <= chest.capacity
            && amount <= stack_limit(item) {
            lemma_add_to_empty(chest.slots@, chest.capacity as nat, item, amount as nat);
        }
    }
    chest.add_item(item, amount);
}

/// The chest inventory at (local_x, y), ready to take items, or none where
/// there is no chest; the chunk's blocks stay as they are.
pub(crate) fn loot_chest(chunk: &mut Chunk, local_x: usize, y: usize) -> (r: Option<&mut Inventory>)
    requires
        old(chunk).wf(),
    ensures
        same_chunk_frame(*old(chunk), *final(chunk)),
        final(chunk).view_blocks() == old(chunk).view_blocks(),
        r matches Some(inv) ==> inv.wf(),
        old(chunk).spec_block_at(local_x as int, y as int) != BlockType::Chest ==> r is None,
        old(chunk).spec_block_at(local_x as int, y as int) == BlockType::Chest ==> match old(chunk).view_chests()[cell_index(
            local_x as int,
            y as int,
        )] {
            None => r matches Some(inv) && inv.capacity == 27 && inv.slots@ == Seq::new(
                27,
                |i: int| None::<super::inventory::ItemStack>,
            ),
            Some(inv0) => (r is Some <==> inv0.capacity <= inv0.slots@.len()) && (r matches Some(inv) ==> *inv == inv0),
        },
        r is Some ==> final(chunk).view_chests() == old(chunk).view_chests().update(
            cell_index(local_x as int, y as int),
            Some(*final(r.unwrap())),
        ),
        forall|i: int| 0 <= i < old(chunk).view_chests().len() && i != cell_index(local_x as int, y as int) ==> #[trigger] final(chunk).view_chests()[i]
            == old(chunk).view_chests()[i],
{
    proof {
        chunk.lemma_wf_views();
        if chunk.spec_block_at(local_x as int, y as int) == BlockType::Chest {
            assert(0 <= cell_index(local_x as int, y as int) < chunk.view_chests().len());
        }
    }
    // An inventory whose capacity outruns its slots cannot take loot.
    if let Some(inv) = chunk.chest_inventory(local_x, y) {
        if inv.capacity > inv.slots.len() {
            return None;
        }
    }
    chunk.ensure_chest_inventory(local_x, y, 27)
}

/// Fills the dungeon chest at (local_x, y) with loot rolled from `seed`:
/// coal and torches always, then by chance bread, iron, a bucket, an iron
/// pickaxe, redstone, bones, string, gunpowder, arrows and a diamond.
pub fn fill_dungeon_chest_loot(chunk: &mut Chunk, local_x: usize, y: usize, seed: u32)
    requires
        old(chunk).wf(),
    ensures
        same_chunk_frame(*old(chunk), *final(chunk)),
        final(chunk).view_blocks() == old(chunk).view_blocks(),
        fresh_chest(*old(chunk), local_x as int, y as int) ==> chest_holds(
            *final(chunk),
            local_x as int,
            y as int,
            ItemType::Coal,
            2 + loot_roll(seed) % 4,
        ),
{
    let chest = match loot_chest(chunk, local_x, y) {
        Some(chest) => chest,
        None => {
            return;
        },
    };
    let ghost fresh = fresh_chest(*old(chunk), local_x as int, y as int);
    proof {
        old(chunk).lemma_wf_views();
        if fresh {
            assert(empty_loot_chest(*chest));
            assert(0 <= cell_index(local_x as int, y as int) < old(chunk).view_chests().len());
        }
    }
    dungeon_loot(chest, seed);
    assert(fresh ==> chest.spec_count(ItemType::Coal) == 2 + loot_roll(seed) % 4);
}

/// Puts the dungeon loot rolled from `seed` into `chest`.
fn dungeon_loot(chest: &mut Inventory, seed: u32)
    requires
        old(chest).wf(),
    ensures
        final(chest).wf(),
        empty_loot_chest(*old(chest)) ==> final(chest).spec_count(ItemType::Coal) == 2 + loot_roll(seed) % 4,
{
    let mut state = next_loot_roll(seed);
    proof {
        if empty_loot_chest(*chest) {
            assert(stack_limit(ItemType::Coal) == 64);
            assert(forall|i: int| 0 <= i < chest.slots@.len() ==> #[trigger] chest.slots@[i] is None);
        }
    }
    add_loot(chest, ItemType::Coal, 2 + (state % 4));
    state = next_loot_roll(state);
    add_loot(chest, ItemType::Torch, 3 + (state % 5));
    state = next_loot_roll(state);
    if state % 100 < 78 {
        state = next_loot_roll(state);
        add_loot(chest, ItemType::Bread, 1 + (state % 3));
    }
    state = next_loot_roll(state);
    if state % 100 < 62 {
        state = next_loot_roll(state);
        add_loot(chest, ItemType::IronIngot, 1 + (state % 3));
    }
    state = next_loot_roll(state);
    if state % 100 < 20 {
        add_loot(chest, ItemType::Bucket, 1);
    }
    state = next_loot_roll(state);
    if state % 100 < 18 {
        add_loot(chest, ItemType::IronPickaxe, 1);
    }
    state = next_loot_roll(state);
    if state % 100 < 56 {
        state = next_loot_roll(state);
        add_loot(chest, ItemType::RedstoneDust, 2 + (state % 4));
    }
    state = next_loot_roll(state);
    if state % 100 < 40 {
        state = next_loot_roll(state);
        add_loot(chest, ItemType::Bone, 1 + (state % 4));
    }
    state = next_loot_roll(state);
    if state % 100 < 40 {
        state = next_loot_roll(state);
        add_loot(chest, ItemType::String, 1 + (state % 4));
    }
    state = next_loot_roll(state);
    if state % 100 < 32 {
        state = next_loot_roll(state);
        add_loot(chest, ItemType::Gunpowder, 1 + (state % 3));
    }
    state = next_loot_roll(state);
    if state % 100 < 20 {
        state = next_loot_roll(state);
        add_loot(chest, ItemType::Arrow, 3 + (state % 5));
    }
    state = next_loot_roll(state);
    if state % 100 < 7 {
        add_loot(chest, ItemType::Diamond, 1);
    }
}

/// Fills the village chest at (local_x, y) with loot rolled from `seed`:
/// bread always, then by chance wheat, seeds, coal, arrows, feathers, iron
/// and a diamond.
pub fn fill_village_chest_loot(chunk: &mut Chunk, local_x: usize, y: usize, seed: u32)
    requires
        old(chunk).wf(),
    ensures
        same_chunk_frame(*old(chunk), *final(chunk)),
        final(chunk).view_blocks() == old(chunk).view_blocks(),
        fresh_chest(*old(chunk), local_x as int, y as int) ==> chest_holds(
            *final(chunk),
            local_x as int,
            y as int,
            ItemType::Bread,
            1 + loot_roll(seed) % 3,
        ),
{
    let chest = match loot_chest(chunk, local_x, y) {
        Some(chest) => chest,
        None => {
            return;
        },
    };
    let ghost fresh = fresh_chest(*old(chunk), local_x as int, y as int);
    proof {
        old(chunk).lemma_wf_views();
        if fresh {
            assert(empty_loot_chest(*chest));
            assert(0 <= cell_index(local_x as int, y as int) < old(chunk).view_chests().len());
        }
    }
    village_loot(chest, seed);
}

/// Puts the village loot rolled from `seed` into `chest`.
fn village_loot(chest: &mut Inventory, seed: u32)
    requires
        old(chest).wf(),
    ensures
        final(chest).wf(),
        empty_loot_chest(*old(chest)) ==> final(chest).spec_count(ItemType::Bread) == 1 + loot_roll(seed) % 3,
{
    proof {
        if empty_loot_chest(*chest) {
            assert(stack_limit(ItemType::Bread) == 64);
            assert(forall|i: int| 0 <= i < chest.slots@.len() ==> #[trigger] chest.slots@[i] is None);
        }
    }
    let mut state = next_loot_roll(seed);
    add_loot(chest, ItemType::Bread, 1 + (state % 3));
    state = next_loot_roll(state);
    if state % 100 < 70 {
        state = next_loot_roll(state);
        add_loot(chest, ItemType::Wheat, 1 + (state % 3));
    }
    state = next_loot_roll(state);
    if state % 100 < 65 {
        state = next_loot_roll(state);
        add_loot(chest, ItemType::WheatSeeds, 1 + (state % 4));
    }
    state = next_loot_roll(state);
    if state % 100 < 52 {
        state = next_loot_roll(state);
        add_loot(chest, ItemType::Coal, 1 + (state % 3));
    }
    state = next_loot_roll(state);
    if state % 100 < 42 {
        state = next_loot_roll(state);
        add_loot(chest, ItemType::Arrow, 2 + (state % 5));
    }
    state = next_loot_roll(state);
    if state % 100 < 32 {
        state = next_loot_roll(state);
        add_loot(chest, ItemType::Feather, 1 + (state % 2));
    }
    state = next_loot_roll(state);
    if state % 100 < 18 {
        state = next_loot_roll(state);
        add_loot(chest, ItemType::IronIngot, 1 + (state % 2));
    }
    state = next_loot_roll(state);
    if state % 100 < 6 {
        add_loot(chest, ItemType::Diamond, 1);
    }
}

/// Fills the chest of a nether route landmark at (local_x, y) with loot
/// rolled from `seed`: bread or cooked beef, then by chance gold, iron,
/// arrows, a bow, a fire resistance potion, blaze powder, magma cream and a
/// ghast tear.
pub fn fill_nether_landmark_chest_loot(chunk: &mut Chunk, local_x: usize, y: usize, seed: u32)
    requires
        old(chunk).wf(),
    ensures
        same_chunk_frame(*old(chunk), *final(chunk)),
        final(chunk).view_blocks() == old(chunk).view_blocks(),
        fresh_chest(*old(chunk), local_x as int, y as int) ==> chest_holds(
            *final(chunk),
            local_x as int,
            y as int,
            landmark_food(seed),
            1 + loot_roll(loot_roll(seed)) % 2,
        ),
{
    let chest = match loot_chest(chunk, local_x, y) {
        Some(chest) => chest,
        None => {
            return;
        },
    };
    let ghost fresh = fresh_chest(*old(chunk), local_x as int, y as int);
    proof {
        old(chunk).lemma_wf_views();
        if fresh {
            assert(empty_loot_chest(*chest));
            assert(0 <= cell_index(local_x as int, y as int) < old(chunk).view_chests().len());
        }
    }
    nether_landmark_loot(chest, seed);
}

/// Puts the route landmark loot rolled from `seed` into `chest`.
fn nether_landmark_loot(chest: &mut Inventory, seed: u32)
    requires
        old(chest).wf(),
    ensures
        final(chest).wf(),
        empty_loot_chest(*old(chest)) ==> final(chest).spec_count(landmark_food(seed)) == 1 + loot_roll(loot_roll(seed)) % 2,
{
    proof {
        if empty_loot_chest(*chest) {
            assert(stack_limit(ItemType::Bread) == 64);
            assert(stack_limit(ItemType::CookedBeef) == 64);
            assert(forall|i: int| 0 <= i < chest.slots@.len() ==> #[trigger] chest.slots@[i] is None);
        }
    }
    let mut state = next_loot_roll(seed);
    let food_roll = state;
    state = next_loot_roll(state);
    if food_roll & 1 == 0 {
        add_loot(chest, ItemType::Bread, 1 + (state % 2));
    } else {
        add_loot(chest, ItemType::CookedBeef, 1 + (state % 2));
    }
    state = next_loot_roll(state);
    if state % 100 < 70 {
        state = next_loot_roll(state);
        add_loot(chest, ItemType::GoldIngot, 1 + (state % 3));
    }
    state = next_loot_roll(state);
    if state % 100 < 58 {
        state = next_loot_roll(state);
        add_loot(chest, ItemType::IronIngot, 1 + (state % 3));
    }
    state = next_loot_roll(state);
    if state % 100 < 52 {
        state = next_loot_roll(state);
        add_loot(chest, ItemType::Arrow, 3 + (state % 5));
    }
    state = next_loot_roll(state);
    if state % 100 < 18 {
        add_loot(chest, ItemType::Bow, 1);
    }
    state = next_loot_roll(state);
    if state % 100 < 24 {
        add_loot(chest, ItemType::PotionFireResistance, 1);
    }
    state = next_loot_roll(state);
    if state % 100 < 20 {
        state = next_loot_roll(state);
        add_loot(chest, ItemType::BlazePowder, 1 + (state % 2));
    }
    state = next_loot_roll(state);
    if state % 100 < 14 {
        add_loot(chest, ItemType::MagmaCream, 1);
    }
    state = next_loot_roll(state);
    if state % 100 < 10 {
        add_loot(chest, ItemType::GhastTear, 1);
    }
}


/// The kinds of landmark along nether routes.
#[derive(Clone, Copy, PartialEq, Eq, Debug, Structural)]
pub enum NetherRouteLandmarkVariant {
    Shrine,
    Bridge,
    Reliquary,
}

/// The kind of route landmark a seed gives: shrine, bridge or reliquary by
/// the seed's remainder by three.
pub fn nether_route_landmark_variant(seed: u32) -> (r: NetherRouteLandmarkVariant)
    ensures
        r == (if seed % 3 == 0 {
            NetherRouteLandmarkVariant::Shrine
        } else if seed % 3 == 1 {
            NetherRouteLandmarkVariant::Bridge
        } else {
            NetherRouteLandmarkVariant::Reliquary
        }),
{
    match seed % 3 {
        0 => NetherRouteLandmarkVariant::Shrine,
        1 => NetherRouteLandmarkVariant::Bridge,
        _ => NetherRouteLandmarkVariant::Reliquary,
    }
}

/// Places `block` at row `wy` of the chunk's column `lx` when the row lies
/// in the chunk.
fn put_if_inside(chunk: &mut Chunk, lx: usize, wy: i32, block: BlockType)
    requires
        old(chunk).wf(),
        lx < 32,
    ensures
        same_chunk_frame(*old(chunk), *final(chunk)),
        forall|x: int, y: int| #[trigger] final(chunk).spec_block_at(x, y) == if x == lx && y == wy && 0 <= wy < 128 {
            block
        } else {
            old(chunk).spec_block_at(x, y)
        },
{
    if 0 <= wy && wy < CHUNK_HEIGHT as i32 {
        put_cell(chunk, lx, wy as usize, block);
    }
}

/// Whether the parameters of a route landmark stay small.
pub open spec fn route_landmark_args_ok(c_start: i32, c_end: i32, center_x: i32, ceiling_y: i32, floor_y: i32) -> bool {
    &&& c_end == c_start + 32
    &&& -0x4100_0000 <= center_x <= 0x4100_0000
    &&& -1000 <= ceiling_y <= 1000
    &&& -1000 <= floor_y <= 1000
}

/// The larger of two rows.
pub open spec fn higher_bound(a: int, b: int) -> int {
    if a > b {
        a
    } else {
        b
    }
}

/// What marks a shrine centred on `center` that found room: glowstone
/// under its roof over the middle.
pub open spec fn shrine_mark(c: Chunk, c_start: int, center: int, ceiling: int, floor: int) -> bool {
    let top = higher_bound(floor - 7, ceiling + 3);
    top < floor - 2 && c_start <= center - 6 && center + 6 < c_start + 32 ==> fortress_block_is(
        c,
        c_start,
        center,
        top + 1,
        BlockType::Glowstone,
    )
}

/// What marks a bridge centred on `center` that found room: its chest in
/// the middle, two rows over the floor.
pub open spec fn bridge_mark(c: Chunk, c_start: int, center: int, ceiling: int, floor: int) -> bool {
    let top = higher_bound(floor - 8, ceiling + 3);
    top < floor - 3 && c_start <= center - 6 && center + 6 < c_start + 32 && 0 <= floor - 2 < 128
        ==> c.spec_block_at(center - c_start, floor - 2) == BlockType::Chest
}

/// What marks a reliquary centred on `center` that found room: glowstone
/// on the stands three columns either side of the middle, three rows over
/// the floor.
pub open spec fn reliquary_mark(c: Chunk, c_start: int, center: int, ceiling: int, floor: int) -> bool {
    let top = higher_bound(floor - 6, ceiling + 3);
    top < floor - 2 && c_start <= center - 5 && center + 5 < c_start + 32 ==> {
        &&& fortress_block_is(c, c_start, center - 3, floor - 3, BlockType::Glowstone)
        &&& fortress_block_is(c, c_start, center + 3, floor - 3, BlockType::Glowstone)
    }
}

/// What marks the route landmark of kind `seed` centred on `center`.
pub open spec fn landmark_mark(c: Chunk, c_start: int, center: int, ceiling: int, floor: int, seed: u32) -> bool {
    if seed % 3 == 0 {
        shrine_mark(c, c_start, center, ceiling, floor)
    } else if seed % 3 == 1 {
        bridge_mark(c, c_start, center, ceiling, floor)
    } else {
        reliquary_mark(c, c_start, center, ceiling, floor)
    }
}

/// A landmark's mark stays while the columns within three of its middle
/// stay.
pub proof fn lemma_landmark_mark_kept(a: Chunk, b: Chunk, c_start: int, center: int, ceiling: int, floor: int, seed: u32)
    requires
        landmark_mark(a, c_start, center, ceiling, floor, seed),
        forall|x: int, y: int| center - 3 <= c_start + x <= center + 3 ==> #[trigger] b.spec_block_at(x, y)
            == a.spec_block_at(x, y),
    ensures
        landmark_mark(b, c_start, center, ceiling, floor, seed),
{
    assert(b.spec_block_at(center - c_start, floor - 2) == a.spec_block_at(center - c_start, floor - 2));
    assert(b.spec_block_at(center - 3 - c_start, floor - 3) == a.spec_block_at(center - 3 - c_start, floor - 3));
    assert(b.spec_block_at(center + 3 - c_start, floor - 3) == a.spec_block_at(center + 3 - c_start, floor - 3));
    let top = higher_bound(floor - 7, ceiling + 3);
    assert(b.spec_block_at(center - c_start, top + 1) == a.spec_block_at(center - c_start, top + 1));
}

/// A shrine centred on `center_x` over the floor row `floor_y`: a stone brick
/// hall of half width five or six under a roof at most seven rows up (kept
/// three rows under the ceiling), opened to the floor in the middle, lit
/// with glowstone, with a loot chest between slabs on one side, stairs on
/// both, and a lava brazier near each wall. Nothing happens where the
/// ceiling leaves too little room or the hall would cross the chunk's edge.
fn carve_nether_route_shrine(
    chunk: &mut Chunk,
    c_start: i32,
    c_end: i32,
    center_x: i32,
    ceiling_y: i32,
    floor_y: i32,
    seed: u32,
)
    requires
        old(chunk).wf(),
        route_landmark_args_ok(c_start, c_end, center_x, ceiling_y, floor_y),
    ensures
        fortress_changed_within(*old(chunk), *final(chunk), c_start as int, center_x - 6, center_x + 6, floor_y - 8, floor_y + 2),
        shrine_mark(*final(chunk), c_start as int, center_x as int, ceiling_y as int, floor_y as int),
{
    let top_y = if floor_y - 7 > ceiling_y + 3 { floor_y - 7 } else { ceiling_y + 3 };
    if top_y >= floor_y - 2 {
        return;
    }
    let width_noise = ((seed.wrapping_mul(1_103_515_245).wrapping_add(12_345) >> 16u32) & 0xFF) as i32;
    let half_width: i32 = if rem_euclid_i32(width_noise, 3) == 0 { 6 } else { 5 };
    let left = center_x - half_width;
    let right = center_x + half_width;
    if left < c_start || right >= c_end {
        return;
    }
    let chest_on_right = (seed & 1) == 0;
    let chest_x = if chest_on_right { center_x + (half_width - 2) } else { center_x - (half_width - 2) };
    let chest_y = floor_y - 1;
    let ghost orig = *chunk;
    let ghost (bl, br, bt, bb) = (center_x - 6, center_x + 6, floor_y - 8, floor_y + 2);

    let mut wx = left;
    while wx <= right
        invariant
            fortress_changed_within(orig, *chunk, c_start as int, bl, br, bt, bb),
            route_landmark_args_ok(c_start, c_end, center_x, ceiling_y, floor_y),
            bl == center_x - 6 && br == center_x + 6 && bt == floor_y - 8 && bb == floor_y + 2,
            left == center_x - half_width && right == center_x + half_width && 5 <= half_width <= 6,
            floor_y - 7 <= top_y < floor_y - 2 && chest_y == floor_y - 1,
            left <= wx <= right + 1,
        decreases right + 1 - wx,
    {
        let mut wy = top_y;
        while wy <= chest_y
            invariant
                fortress_changed_within(orig, *chunk, c_start as int, bl, br, bt, bb),
                route_landmark_args_ok(c_start, c_end, center_x, ceiling_y, floor_y),
                bl == center_x - 6 && br == center_x + 6 && bt == floor_y - 8 && bb == floor_y + 2,
                left == center_x - half_width && right == center_x + half_width && 5 <= half_width <= 6,
                floor_y - 7 <= top_y < floor_y - 2 && chest_y == floor_y - 1,
                left <= wx <= right,
                top_y <= wy <= chest_y + 1,
            decreases chest_y + 1 - wy,
        {
            let is_shell = wx == left || wx == right || wy == top_y;
            set_nether_fortress_block(
                chunk,
                c_start,
                c_end,
                wx,
                wy,
                if is_shell {
                    BlockType::StoneBricks
                } else {
                    BlockType::Air
                },
            );
            wy = wy + 1;
        }
        wx = wx + 1;
    }

    let mut ox = center_x - 2;
    while ox <= center_x + 2
        invariant
            fortress_changed_within(orig, *chunk, c_start as int, bl, br, bt, bb),
            route_landmark_args_ok(c_start, c_end, center_x, ceiling_y, floor_y),
            bl == center_x - 6 && br == center_x + 6 && bt == floor_y - 8 && bb == floor_y + 2,
            chest_y == floor_y - 1,
            center_x - 2 <= ox <= center_x + 3,
        decreases center_x + 3 - ox,
    {
        let mut wy = floor_y - 4;
        while wy <= chest_y
            invariant
                fortress_changed_within(orig, *chunk, c_start as int, bl, br, bt, bb),
                route_landmark_args_ok(c_start, c_end, center_x, ceiling_y, floor_y),
                bl == center_x - 6 && br == center_x + 6 && bt == floor_y - 8 && bb == floor_y + 2,
                chest_y == floor_y - 1,
                center_x - 2 <= ox <= center_x + 2,
                floor_y - 4 <= wy <= chest_y + 1,
            decreases chest_y + 1 - wy,
        {
            set_nether_fortress_block(chunk, c_start, c_end, ox, wy, BlockType::Air);
            wy = wy + 1;
        }
        ox = ox + 1;
    }

    set_nether_fortress_block(chunk, c_start, c_end, left + 1, top_y + 1, BlockType::Glowstone);
    assert(fortress_changed_within(orig, *chunk, c_start as int, bl, br, bt, bb));
    set_nether_fortress_block(chunk, c_start, c_end, center_x, top_y + 1, BlockType::Glowstone);
    assert(fortress_changed_within(orig, *chunk, c_start as int, bl, br, bt, bb));
    set_nether_fortress_block(chunk, c_start, c_end, right - 1, top_y + 1, BlockType::Glowstone);
    assert(fortress_changed_within(orig, *chunk, c_start as int, bl, br, bt, bb));

    let chest_local_x = (chest_x - c_start) as usize;
    put_if_inside(chunk, chest_local_x, chest_y, BlockType::Chest);
    assert(fortress_changed_within(orig, *chunk, c_start as int, bl, br, bt, bb));
    if 0 <= chest_y {
        let ghost before = *chunk;
        fill_nether_landmark_chest_loot(chunk, chest_local_x, chest_y as usize, seed ^ (center_x as u32));
        proof {
            assert forall|x: int, y: int| #[trigger] chunk.spec_block_at(x, y) == before.spec_block_at(x, y) by {}
        }
    }
    assert(fortress_changed_within(orig, *chunk, c_start as int, bl, br, bt, bb));

    set_nether_fortress_block(chunk, c_start, c_end, chest_x - 1, chest_y, BlockType::StoneSlab);
    set_nether_fortress_block(chunk, c_start, c_end, chest_x - 1, floor_y, BlockType::StoneBricks);
    assert(fortress_changed_within(orig, *chunk, c_start as int, bl, br, bt, bb));
    set_nether_fortress_block(chunk, c_start, c_end, chest_x + 1, chest_y, BlockType::StoneSlab);
    set_nether_fortress_block(chunk, c_start, c_end, chest_x + 1, floor_y, BlockType::StoneBricks);
    assert(fortress_changed_within(orig, *chunk, c_start as int, bl, br, bt, bb));
    set_nether_fortress_block(chunk, c_start, c_end, center_x - 3, chest_y, BlockType::StoneStairs);
    set_nether_fortress_block(chunk, c_start, c_end, center_x + 3, chest_y, BlockType::StoneStairs);
    assert(fortress_changed_within(orig, *chunk, c_start as int, bl, br, bt, bb));
    carve_nether_lava_brazier(chunk, c_start, c_end, left + 2, floor_y, 2);
    assert(fortress_changed_within(orig, *chunk, c_start as int, bl, br, bt, bb));
    carve_nether_lava_brazier(chunk, c_start, c_end, right - 2, floor_y, 2);
}


/// A bridge centred on `center_x` over the floor row `floor_y`: two stone
/// brick pylons joined by a beam under a roof at most eight rows up (kept
/// three rows under the ceiling), a deck over a lava trench in the floor,
/// glowstone over the beam, stairs at the deck's ends and a loot chest on
/// the deck's middle. Nothing happens where the ceiling leaves too little
/// room or the bridge would cross the chunk's edge.
fn carve_nether_route_bridge(
    chunk: &mut Chunk,
    c_start: i32,
    c_end: i32,
    center_x: i32,
    ceiling_y: i32,
    floor_y: i32,
    seed: u32,
)
    requires
        old(chunk).wf(),
        route_landmark_args_ok(c_start, c_end, center_x, ceiling_y, floor_y),
    ensures
        fortress_changed_within(*old(chunk), *final(chunk), c_start as int, center_x - 6, center_x + 6, floor_y - 8, floor_y + 2),
        bridge_mark(*final(chunk), c_start as int, center_x as int, ceiling_y as int, floor_y as int),
{
    let top_y = if floor_y - 8 > ceiling_y + 3 { floor_y - 8 } else { ceiling_y + 3 };
    if top_y >= floor_y - 3 {
        return;
    }
    let half_width: i32 = 6;
    let left = center_x - half_width;
    let right = center_x + half_width;
    if left < c_start || right >= c_end {
        return;
    }
    let beam_y = top_y + 2;
    let bridge_y = floor_y - 1;
    let chest_y = bridge_y - 1;
    let ghost orig = *chunk;
    let ghost (bl, br, bt, bb) = (center_x - 6, center_x + 6, floor_y - 8, floor_y + 2);

    let mut wx = left;
    while wx <= right
        invariant
            fortress_changed_within(orig, *chunk, c_start as int, bl, br, bt, bb),
            route_landmark_args_ok(c_start, c_end, center_x, ceiling_y, floor_y),
            bl == center_x - 6 && br == center_x + 6 && bt == floor_y - 8 && bb == floor_y + 2,
            left == center_x - 6 && right == center_x + 6,
            floor_y - 8 <= top_y < floor_y - 3 && bridge_y == floor_y - 1,
            left <= wx <= right + 1,
        decreases right + 1 - wx,
    {
        let mut wy = top_y;
        while wy <= bridge_y
            invariant
                fortress_changed_within(orig, *chunk, c_start as int, bl, br, bt, bb),
                route_landmark_args_ok(c_start, c_end, center_x, ceiling_y, floor_y),
                bl == center_x - 6 && br == center_x + 6 && bt == floor_y - 8 && bb == floor_y + 2,
                left == center_x - 6 && right == center_x + 6,
                floor_y - 8 <= top_y < floor_y - 3 && bridge_y == floor_y - 1,
                left <= wx <= right,
                top_y <= wy <= bridge_y + 1,
            decreases bridge_y + 1 - wy,
        {
            let is_outer_pylon = wx == left || wx == left + 1 || wx == right - 1 || wx == right;
            let is_beam = wy == beam_y && wx > left + 1 && wx < right - 1;
            let is_bridge_deck = wy == bridge_y && center_x - 3 <= wx && wx <= center_x + 3;
            let block = if is_outer_pylon || is_beam || is_bridge_deck {
                BlockType::StoneBricks
            } else {
                BlockType::Air
            };
            set_nether_fortress_block(chunk, c_start, c_end, wx, wy, block);
            wy = wy + 1;
        }
        wx = wx + 1;
    }

    let mut tx = center_x - 2;
    while tx <= center_x + 2
        invariant
            fortress_changed_within(orig, *chunk, c_start as int, bl, br, bt, bb),
            route_landmark_args_ok(c_start, c_end, center_x, ceiling_y, floor_y),
            bl == center_x - 6 && br == center_x + 6 && bt == floor_y - 8 && bb == floor_y + 2,
            center_x - 2 <= tx <= center_x + 3,
        decreases center_x + 3 - tx,
    {
        set_nether_fortress_block(chunk, c_start, c_end, tx, floor_y, BlockType::Air);
        set_nether_fortress_block(chunk, c_start, c_end, tx, floor_y + 1, BlockType::Lava(8));
        set_nether_fortress_block(chunk, c_start, c_end, tx, floor_y + 2, BlockType::StoneBricks);
        tx = tx + 1;
    }

    set_nether_fortress_block(chunk, c_start, c_end, left + 1, beam_y + 1, BlockType::Glowstone);
    assert(fortress_changed_within(orig, *chunk, c_start as int, bl, br, bt, bb));
    set_nether_fortress_block(chunk, c_start, c_end, center_x, beam_y + 1, BlockType::Glowstone);
    assert(fortress_changed_within(orig, *chunk, c_start as int, bl, br, bt, bb));
    set_nether_fortress_block(chunk, c_start, c_end, right - 1, beam_y + 1, BlockType::Glowstone);
    assert(fortress_changed_within(orig, *chunk, c_start as int, bl, br, bt, bb));
    set_nether_fortress_block(chunk, c_start, c_end, center_x - 2, bridge_y, BlockType::StoneStairs);
    assert(fortress_changed_within(orig, *chunk, c_start as int, bl, br, bt, bb));
    set_nether_fortress_block(chunk, c_start, c_end, center_x + 2, bridge_y, BlockType::StoneStairs);
    assert(fortress_changed_within(orig, *chunk, c_start as int, bl, br, bt, bb));

    let chest_local_x = (center_x - c_start) as usize;
    put_if_inside(chunk, chest_local_x, chest_y, BlockType::Chest);
    assert(fortress_changed_within(orig, *chunk, c_start as int, bl, br, bt, bb));
    if 0 <= chest_y {
        let ghost before = *chunk;
        fill_nether_landmark_chest_loot(chunk, chest_local_x, chest_y as usize, seed ^ 0x41A7_6D53);
        proof {
            assert forall|x: int, y: int| #[trigger] chunk.spec_block_at(x, y) == before.spec_block_at(x, y) by {}
        }
    }
}

/// A reliquary centred on `center_x` over the floor row `floor_y`: a stone
/// brick hall whose roof, at most six rows up (kept three rows under the
/// ceiling), steps down towards its walls, opened to the floor in the
/// middle on a stone brick sill, with glowstone on brick stands and stairs
/// beside a loot chest, and a lava brazier near each wall. Nothing happens
/// where the ceiling leaves too little room or the hall would cross the
/// chunk's edge.
fn carve_nether_route_reliquary(
    chunk: &mut Chunk,
    c_start: i32,
    c_end: i32,
    center_x: i32,
    ceiling_y: i32,
    floor_y: i32,
    seed: u32,
)
    requires
        old(chunk).wf(),
        route_landmark_args_ok(c_start, c_end, center_x, ceiling_y, floor_y),
    ensures
        fortress_changed_within(*old(chunk), *final(chunk), c_start as int, center_x - 6, center_x + 6, floor_y - 8, floor_y + 2),
        reliquary_mark(*final(chunk), c_start as int, center_x as int, ceiling_y as int, floor_y as int),
{
    let top_y = if floor_y - 6 > ceiling_y + 3 { floor_y - 6 } else { ceiling_y + 3 };
    if top_y >= floor_y - 2 {
        return;
    }
    let half_width: i32 = 5;
    let left = center_x - half_width;
    let right = center_x + half_width;
    if left < c_start || right >= c_end {
        return;
    }
    let chest_side: i32 = if (seed & 1) == 0 { 2 } else { -2 };
    let chest_x = center_x + chest_side;
    let chest_y = floor_y - 2;
    let ghost orig = *chunk;
    let ghost (bl, br, bt, bb) = (center_x - 6, center_x + 6, floor_y - 8, floor_y + 2);

    let mut wx = left;
    while wx <= right
        invariant
            fortress_changed_within(orig, *chunk, c_start as int, bl, br, bt, bb),
            route_landmark_args_ok(c_start, c_end, center_x, ceiling_y, floor_y),
            bl == center_x - 6 && br == center_x + 6 && bt == floor_y - 8 && bb == floor_y + 2,
            left == center_x - 5 && right == center_x + 5,
            floor_y - 6 <= top_y < floor_y - 2 && chest_y == floor_y - 2,
            left <= wx <= right + 1,
        decreases right + 1 - wx,
    {
        let dx = if wx >= center_x { wx - center_x } else { center_x - wx };
        let step = if dx / 2 < 2 { dx / 2 } else { 2 };
        let roof_y = top_y + step;
        let mut wy = roof_y;
        while wy <= chest_y
            invariant
                fortress_changed_within(orig, *chunk, c_start as int, bl, br, bt, bb),
                route_landmark_args_ok(c_start, c_end, center_x, ceiling_y, floor_y),
                bl == center_x - 6 && br == center_x + 6 && bt == floor_y - 8 && bb == floor_y + 2,
                left == center_x - 5 && right == center_x + 5,
                floor_y - 6 <= top_y < floor_y - 2 && chest_y == floor_y - 2,
                top_y <= roof_y <= top_y + 2,
                left <= wx <= right,
                roof_y <= wy <= chest_y + 1 || (chest_y < roof_y && wy == roof_y),
            decreases chest_y + 1 - wy,
        {
            let is_shell = wx == left || wx == right || wy == roof_y;
            let block = if is_shell {
                BlockType::StoneBricks
            } else {
                BlockType::Air
            };
            set_nether_fortress_block(chunk, c_start, c_end, wx, wy, block);
            wy = wy + 1;
        }
        wx = wx + 1;
    }

    let mut ox = center_x - 1;
    while ox <= center_x + 1
        invariant
            fortress_changed_within(orig, *chunk, c_start as int, bl, br, bt, bb),
            route_landmark_args_ok(c_start, c_end, center_x, ceiling_y, floor_y),
            bl == center_x - 6 && br == center_x + 6 && bt == floor_y - 8 && bb == floor_y + 2,
            chest_y == floor_y - 2,
            center_x - 1 <= ox <= center_x + 2,
        decreases center_x + 2 - ox,
    {
        set_nether_fortress_block(chunk, c_start, c_end, ox, floor_y, BlockType::StoneBricks);
        let mut wy = floor_y - 4;
        while wy <= chest_y
            invariant
                fortress_changed_within(orig, *chunk, c_start as int, bl, br, bt, bb),
                route_landmark_args_ok(c_start, c_end, center_x, ceiling_y, floor_y),
                bl == center_x - 6 && br == center_x + 6 && bt == floor_y - 8 && bb == floor_y + 2,
                chest_y == floor_y - 2,
                center_x - 1 <= ox <= center_x + 1,
                floor_y - 4 <= wy <= chest_y + 1,
            decreases chest_y + 1 - wy,
        {
            set_nether_fortress_block(chunk, c_start, c_end, ox, wy, BlockType::Air);
            wy = wy + 1;
        }
        ox = ox + 1;
    }

    set_nether_fortress_block(chunk, c_start, c_end, center_x - 3, chest_y, BlockType::StoneBricks);
    set_nether_fortress_block(chunk, c_start, c_end, center_x - 3, chest_y - 1, BlockType::Glowstone);
    assert(fortress_changed_within(orig, *chunk, c_start as int, bl, br, bt, bb));
    set_nether_fortress_block(chunk, c_start, c_end, center_x + 3, chest_y, BlockType::StoneBricks);
    set_nether_fortress_block(chunk, c_start, c_end, center_x + 3, chest_y - 1, BlockType::Glowstone);
    assert(fortress_changed_within(orig, *chunk, c_start as int, bl, br, bt, bb));
    set_nether_fortress_block(chunk, c_start, c_end, center_x - 2, chest_y, BlockType::StoneStairs);
    set_nether_fortress_block(chunk, c_start, c_end, center_x + 2, chest_y, BlockType::StoneStairs);
    assert(fortress_changed_within(orig, *chunk, c_start as int, bl, br, bt, bb));

    let chest_local_x = (chest_x - c_start) as usize;
    put_if_inside(chunk, chest_local_x, chest_y, BlockType::Chest);
    assert(fortress_changed_within(orig, *chunk, c_start as int, bl, br, bt, bb));
    if 0 <= chest_y {
        let ghost before = *chunk;
        fill_nether_landmark_chest_loot(chunk, chest_local_x, chest_y as usize, seed ^ 0x9E37_79B9);
        proof {
            assert forall|x: int, y: int| #[trigger] chunk.spec_block_at(x, y) == before.spec_block_at(x, y) by {}
        }
    }
    assert(fortress_changed_within(orig, *chunk, c_start as int, bl, br, bt, bb));
    carve_nether_lava_brazier(chunk, c_start, c_end, left + 2, floor_y, 2);
    assert(fortress_changed_within(orig, *chunk, c_start as int, bl, br, bt, bb));
    carve_nether_lava_brazier(chunk, c_start, c_end, right - 2, floor_y, 2);
}

/// A route landmark centred on `center_x` between the ceiling row
/// `ceiling_y` and the floor row `floor_y`, of the kind `seed` gives: a
/// shrine, a bridge or a reliquary. Nothing changes outside six columns on
/// either side of the centre and the rows from eight over the floor to two
/// under it.
pub fn carve_nether_route_landmark(
    chunk: &mut Chunk,
    c_start: i32,
    c_end: i32,
    center_x: i32,
    ceiling_y: i32,
    floor_y: i32,
    seed: u32,
)
    requires
        old(chunk).wf(),
        route_landmark_args_ok(c_start, c_end, center_x, ceiling_y, floor_y),
    ensures
        fortress_changed_within(*old(chunk), *final(chunk), c_start as int, center_x - 6, center_x + 6, floor_y - 8, floor_y + 2),
        landmark_mark(*final(chunk), c_start as int, center_x as int, ceiling_y as int, floor_y as int, seed),
{
    match nether_route_landmark_variant(seed) {
        NetherRouteLandmarkVariant::Shrine => carve_nether_route_shrine(
            chunk,
            c_start,
            c_end,
            center_x,
            ceiling_y,
            floor_y,
            seed,
        ),
        NetherRouteLandmarkVariant::Bridge => carve_nether_route_bridge(
            chunk,
            c_start,
            c_end,
            center_x,
            ceiling_y,
            floor_y,
            seed,
        ),
        NetherRouteLandmarkVariant::Reliquary => carve_nether_route_reliquary(
            chunk,
            c_start,
            c_end,
            center_x,
            ceiling_y,
            floor_y,
            seed,
        ),
    }
}

/// The first column of the run of iron ore that holds (x, y), counting
/// leftwards through iron ore.
pub open spec fn iron_run_start(c: Chunk, x: int, y: int) -> int
    decreases x,
{
    if x > 0 && c.spec_block_at(x - 1, y) == BlockType::IronOre {
        iron_run_start(c, x - 1, y)
    } else {
        x
    }
}

/// One past the last column of the run of iron ore that holds (x, y),
/// counting rightwards through iron ore to the chunk's edge.
pub open spec fn iron_run_end(c: Chunk, x: int, y: int) -> int
    decreases 32 - x,
{
    if x + 1 < 32 && c.spec_block_at(x + 1, y) == BlockType::IronOre {
        iron_run_end(c, x + 1, y)
    } else {
        x + 1
    }
}

/// Whether the iron ore at (x, y) is broken up: its run is longer than
/// six cells, and it lies three cells in from the run's start or a
/// multiple of six cells after that.
pub open spec fn iron_run_break(c: Chunk, x: int, y: int) -> bool {
    let start = iron_run_start(c, x, y);
    &&& 0 <= x < 32
    &&& c.spec_block_at(x, y) == BlockType::IronOre
    &&& iron_run_end(c, x, y) - start > 6
    &&& x - start >= 3
    &&& (x - start - 3) % 6 == 0
}

/// The run of iron ore from `s` to `e` (exclusive) on row `y`, with no
/// iron ore right before or after it, is the run of each of its cells.
proof fn lemma_iron_run_bounds(c: Chunk, s: int, e: int, k: int, y: int)
    requires
        0 <= s <= k < e <= 32,
        s == 0 || c.spec_block_at(s - 1, y) != BlockType::IronOre,
        e == 32 || c.spec_block_at(e, y) != BlockType::IronOre,
        forall|j: int| s <= j < e ==> #[trigger] c.spec_block_at(j, y) == BlockType::IronOre,
    ensures
        iron_run_start(c, k, y) == s,
        iron_run_end(c, k, y) == e,
{
    lemma_iron_run_start(c, s, e, k, y);
    lemma_iron_run_end(c, s, e, k, y);
}

proof fn lemma_iron_run_start(c: Chunk, s: int, e: int, k: int, y: int)
    requires
        0 <= s <= k < e <= 32,
        s == 0 || c.spec_block_at(s - 1, y) != BlockType::IronOre,
        forall|j: int| s <= j < e ==> #[trigger] c.spec_block_at(j, y) == BlockType::IronOre,
    ensures
        iron_run_start(c, k, y) == s,
    decreases k - s,
{
    if k > s {
        assert(c.spec_block_at(k - 1, y) == BlockType::IronOre);
        lemma_iron_run_start(c, s, e, k - 1, y);
    }
}

proof fn lemma_iron_run_end(c: Chunk, s: int, e: int, k: int, y: int)
    requires
        0 <= s <= k < e <= 32,
        e == 32 || c.spec_block_at(e, y) != BlockType::IronOre,
        forall|j: int| s <= j < e ==> #[trigger] c.spec_block_at(j, y) == BlockType::IronOre,
    ensures
        iron_run_end(c, k, y) == e,
    decreases e - k,
{
    if k + 1 < e {
        assert(c.spec_block_at(k + 1, y) == BlockType::IronOre);
        lemma_iron_run_end(c, s, e, k + 1, y);
    }
}

/// Iron runs on row `y` depend on that row alone.
proof fn lemma_iron_runs_of_row(a: Chunk, b: Chunk, x: int, y: int)
    requires
        forall|x2: int| #[trigger] a.spec_block_at(x2, y) == b.spec_block_at(x2, y),
    ensures
        iron_run_start(a, x, y) == iron_run_start(b, x, y),
        iron_run_end(a, x, y) == iron_run_end(b, x, y),
        iron_run_break(a, x, y) == iron_run_break(b, x, y),
{
    lemma_iron_run_start_of_row(a, b, x, y);
    lemma_iron_run_end_of_row(a, b, x, y);
}

proof fn lemma_iron_run_start_of_row(a: Chunk, b: Chunk, x: int, y: int)
    requires
        forall|x2: int| #[trigger] a.spec_block_at(x2, y) == b.spec_block_at(x2, y),
    ensures
        iron_run_start(a, x, y) == iron_run_start(b, x, y),
    decreases x,
{
    if x > 0 {
        assert(a.spec_block_at(x - 1, y) == b.spec_block_at(x - 1, y));
        lemma_iron_run_start_of_row(a, b, x - 1, y);
    }
}

proof fn lemma_iron_run_end_of_row(a: Chunk, b: Chunk, x: int, y: int)
    requires
        forall|x2: int| #[trigger] a.spec_block_at(x2, y) == b.spec_block_at(x2, y),
    ensures
        iron_run_end(a, x, y) == iron_run_end(b, x, y),
    decreases 32 - x,
{
    if x + 1 < 32 {
        assert(a.spec_block_at(x + 1, y) == b.spec_block_at(x + 1, y));
        lemma_iron_run_end_of_row(a, b, x + 1, y);
    }
}

/// Breaks up the long iron runs of row `y` (see `iron_run_break`).
fn break_iron_runs_in_row(chunk: &mut Chunk, y: usize)
    requires
        old(chunk).wf(),
        y < 128,
    ensures
        same_chunk_frame(*old(chunk), *final(chunk)),
        forall|x: int, y2: int| y2 != y ==> #[trigger] final(chunk).spec_block_at(x, y2) == old(chunk).spec_block_at(x, y2),
        forall|x: int| #[trigger] final(chunk).spec_block_at(x, y as int) == if iron_run_break(*old(chunk), x, y as int) {
            BlockType::Stone
        } else {
            old(chunk).spec_block_at(x, y as int)
        },
{
    let max_iron_run: usize = 6;
    let ghost c0 = *chunk;
    let ghost yy = y as int;
    let mut x: usize = 0;
    while x < CHUNK_WIDTH
        invariant
            same_chunk_frame(c0, *chunk),
            y < 128,
            yy == y,
            x <= 32,
            max_iron_run == 6,
            forall|x2: int, y2: int| y2 != yy ==> #[trigger] chunk.spec_block_at(x2, y2) == c0.spec_block_at(x2, y2),
            forall|x2: int| x2 < x ==> #[trigger] chunk.spec_block_at(x2, yy) == if iron_run_break(c0, x2, yy) {
                BlockType::Stone
            } else {
                c0.spec_block_at(x2, yy)
            },
            forall|x2: int| x2 >= x ==> #[trigger] chunk.spec_block_at(x2, yy) == c0.spec_block_at(x2, yy),
            !(0 < x < 32 && c0.spec_block_at(x - 1, yy) == BlockType::IronOre && c0.spec_block_at(x as int, yy)
                == BlockType::IronOre),
        decreases 32 - x,
    {
        if chunk.get_block(x, y) != BlockType::IronOre {
            x = x + 1;
        } else {
            let run_start = x;
            while x < CHUNK_WIDTH && chunk.get_block(x, y) == BlockType::IronOre
                invariant
                    same_chunk_frame(c0, *chunk),
                    y < 128,
                    yy == y,
                    run_start <= x <= 32,
                    run_start < 32,
                    c0.spec_block_at(run_start as int, yy) == BlockType::IronOre,
                    forall|x2: int| run_start <= x2 < x ==> #[trigger] c0.spec_block_at(x2, yy) == BlockType::IronOre,
                    forall|x2: int| x2 >= run_start ==> #[trigger] chunk.spec_block_at(x2, yy) == c0.spec_block_at(x2, yy),
                decreases 32 - x,
            {
                x = x + 1;
            }
            let ghost s = run_start as int;
            let ghost e = x as int;
            proof {
                assert forall|k: int| s <= k < e implies iron_run_start(c0, k, yy) == s && iron_run_end(c0, k, yy)
                    == e by {
                    lemma_iron_run_bounds(c0, s, e, k, yy);
                }
            }
            let run_len = x - run_start;
            if run_len > max_iron_run {
                let mut carve_x = run_start + max_iron_run / 2;
                while carve_x < x
                    invariant
                        same_chunk_frame(c0, *chunk),
                        y < 128,
                        yy == y,
                        s == run_start && e == x,
                        run_start + 6 < x <= 32,
                        run_start + 3 <= carve_x <= x + 5,
                        (carve_x - run_start - 3) % 6 == 0,
                        max_iron_run == 6,
                        forall|k: int| s <= k < e ==> iron_run_start(c0, k, yy) == s && iron_run_end(c0, k, yy) == e,
                        forall|x2: int| run_start <= x2 < x ==> #[trigger] c0.spec_block_at(x2, yy) == BlockType::IronOre,
                        forall|x2: int, y2: int| y2 != yy ==> #[trigger] chunk.spec_block_at(x2, y2) == c0.spec_block_at(x2, y2),
                        forall|x2: int| x2 < run_start ==> #[trigger] chunk.spec_block_at(x2, yy) == if iron_run_break(c0, x2, yy) {
                            BlockType::Stone
                        } else {
                            c0.spec_block_at(x2, yy)
                        },
                        forall|x2: int| run_start <= x2 < x ==> #[trigger] chunk.spec_block_at(x2, yy) == if x2 < carve_x
                            && iron_run_break(c0, x2, yy) {
                            BlockType::Stone
                        } else {
                            c0.spec_block_at(x2, yy)
                        },
                        forall|x2: int| x2 >= x ==> #[trigger] chunk.spec_block_at(x2, yy) == c0.spec_block_at(x2, yy),
                    decreases x + 5 - carve_x,
                {
                    put_cell(chunk, carve_x, y, BlockType::Stone);
                    carve_x = carve_x + max_iron_run;
                }
            }
        }
    }
}

/// Breaks up long horizontal runs of iron ore from row 40 down to row 119:
/// in every run of more than six ore cells, the cell three in from its start
/// and every sixth cell after it within the run turn to stone (see
/// `iron_run_break`); every other cell stays.
pub fn refine_overworld_ore_runs(chunk: &mut Chunk)
    requires
        old(chunk).wf(),
    ensures
        same_chunk_frame(*old(chunk), *final(chunk)),
        forall|x: int, y: int| #[trigger] final(chunk).spec_block_at(x, y) == if 40 <= y < 120 && iron_run_break(
            *old(chunk),
            x,
            y,
        ) {
            BlockType::Stone
        } else {
            old(chunk).spec_block_at(x, y)
        },
{
    let ghost orig = *chunk;
    let mut y: usize = 40;
    while y < CHUNK_HEIGHT - 8
        invariant
            same_chunk_frame(orig, *chunk),
            40 <= y <= 120,
            forall|x: int, y2: int| #[trigger] chunk.spec_block_at(x, y2) == if 40 <= y2 < y && iron_run_break(orig, x, y2) {
                BlockType::Stone
            } else {
                orig.spec_block_at(x, y2)
            },
        decreases 120 - y,
    {
        let ghost before = *chunk;
        proof {
            assert forall|x2: int| #[trigger] before.spec_block_at(x2, y as int) == orig.spec_block_at(x2, y as int) by {}
        }
        break_iron_runs_in_row(chunk, y);
        proof {
            assert forall|x: int| iron_run_break(before, x, y as int) == iron_run_break(orig, x, y as int) by {
                lemma_iron_runs_of_row(before, orig, x, y as int);
            }
        }
        y = y + 1;
    }
}


/// Dungeons are built in one chunk column out of this many.
pub const OVERWORLD_DUNGEON_CHUNK_CADENCE: i32 = 5;

/// The chunk column, counted within each run of `OVERWORLD_DUNGEON_CHUNK_CADENCE`,
/// that gets a dungeon.
pub const OVERWORLD_DUNGEON_CHUNK_PHASE: i32 = 2;

/// Whether cell (x, y) of `after` is that of `before` unless it lies in
/// columns `left..=right` and rows `top..=bottom` of the chunk.
pub open spec fn chunk_changed_within(before: Chunk, after: Chunk, left: int, right: int, top: int, bottom: int) -> bool {
    &&& same_chunk_frame(before, after)
    &&& forall|x: int, y: int| !(left <= x <= right && top <= y <= bottom) ==> #[trigger] after.spec_block_at(x, y)
        == before.spec_block_at(x, y)
}

/// The seed of the dungeon of chunk column `chunk_x`.
pub open spec fn dungeon_hash(chunk_x: i32) -> u32 {
    (chunk_x as u32).wrapping_mul(1_103_515_245).wrapping_add(12_345)
}

/// The floor row of the dungeon of chunk column `chunk_x` whose middle
/// column has surface row `surface_y`: five rows under its ceiling, which
/// lies twelve to twenty-three rows under the surface, kept between rows
/// 40 and 110.
pub open spec fn dungeon_floor_row(chunk_x: i32, surface_y: int) -> int {
    let raw_top = surface_y + 12 + ((dungeon_hash(chunk_x) >> 8u32) % 12) as int;
    let top = if raw_top < 40 {
        40
    } else if raw_top > 110 {
        110
    } else {
        raw_top
    };
    top + 5
}

/// The spawner of the dungeon of chunk column `chunk_x`.
pub open spec fn dungeon_spawner(chunk_x: i32) -> BlockType {
    if (dungeon_hash(chunk_x) >> 1u32) & 1 == 0 {
        BlockType::ZombieSpawner
    } else {
        BlockType::SkeletonSpawner
    }
}

/// The wall block of the dungeon of chunk column `chunk_x` at cell (x, y):
/// stone bricks on one cell in nine, by position, cobblestone elsewhere.
pub open spec fn dungeon_shell_block(chunk_x: i32, x: int, y: int) -> BlockType {
    if (chunk_x * 31 + x * 17 + y * 13) % 9 == 0 {
        BlockType::StoneBricks
    } else {
        BlockType::Cobblestone
    }
}

/// The column of the dungeon chest of chunk column `chunk_x`: beside the
/// left or the right wall, by the dungeon's seed.
pub open spec fn dungeon_chest_column(chunk_x: i32) -> int {
    let center = 8 + dungeon_hash(chunk_x) as int % 16;
    if dungeon_hash(chunk_x) & 1 == 0 {
        center - 2
    } else {
        center + 2
    }
}

/// What the dungeon of chunk column `chunk_x` (middle column surface row
/// `surface_y`) leaves at (x, y) of a chunk that held `before`: a room
/// seven by seven with a wall of `dungeon_shell_block` round air, an
/// opening in each side wall three rows under the ceiling, the spawner in
/// the middle of the floor and the chest beside a wall; elsewhere the cell
/// is as it was.
pub open spec fn dungeon_block(before: Chunk, chunk_x: i32, surface_y: int, x: int, y: int) -> BlockType {
    let center = 8 + dungeon_hash(chunk_x) as int % 16;
    let floor = dungeon_floor_row(chunk_x, surface_y);
    let top = floor - 5;
    let bottom = floor + 1;
    if x == center && y == floor {
        dungeon_spawner(chunk_x)
    } else if x == dungeon_chest_column(chunk_x) && y == floor {
        BlockType::Chest
    } else if (x == center - 3 || x == center + 3) && y == top + 3 {
        BlockType::Air
    } else if center - 3 <= x <= center + 3 && top <= y <= bottom {
        if x == center - 3 || x == center + 3 || y == top || y == bottom {
            dungeon_shell_block(chunk_x, x, y)
        } else {
            BlockType::Air
        }
    } else {
        before.spec_block_at(x, y)
    }
}

/// The chunk column of the middle of the dungeon of chunk column `chunk_x`:
/// eight to twenty-three columns in, by the dungeon's seed.
pub fn overworld_dungeon_center_column(chunk_x: i32) -> (r: usize)
    ensures
        r == 8 + dungeon_hash(chunk_x) as int % 16,
        8 <= r < 24,
{
    let hash = (chunk_x as u32).wrapping_mul(1_103_515_245).wrapping_add(12_345);
    8 + (hash as usize % (CHUNK_WIDTH - 16))
}

/// Builds the dungeon of the chunk of column `chunk_x`, when that column
/// gets one (one in five): a cobblestone room seven columns wide and seven
/// rows high, twelve to twenty-three rows under the surface row `surface_y`
/// of its middle column (kept between rows 40 and 110), with openings in
/// both walls, a zombie or skeleton spawner on the floor and a loot chest
/// beside it; `surface_y` is that of the column given by
/// `overworld_dungeon_center_column`. Only the room's cells change.
pub fn build_overworld_dungeon(chunk: &mut Chunk, chunk_x: i32, surface_y: i32)
    requires
        old(chunk).wf(),
        -0x400_0000 <= chunk_x < 0x3ff_ffff,
        -1_000_000 <= surface_y <= 1_000_000,
    ensures
        chunk_changed_within(*old(chunk), *final(chunk), 5, 26, 40, 125),
        chunk_x % OVERWORLD_DUNGEON_CHUNK_CADENCE != OVERWORLD_DUNGEON_CHUNK_PHASE ==> *final(chunk) == *old(chunk),
        chunk_x % OVERWORLD_DUNGEON_CHUNK_CADENCE == OVERWORLD_DUNGEON_CHUNK_PHASE ==> forall|x: int, y: int|
            #[trigger] final(chunk).spec_block_at(x, y) == dungeon_block(*old(chunk), chunk_x, surface_y as int, x, y),
        chunk_x % OVERWORLD_DUNGEON_CHUNK_CADENCE == OVERWORLD_DUNGEON_CHUNK_PHASE ==> chest_holds(
            *final(chunk),
            dungeon_chest_column(chunk_x),
            dungeon_floor_row(chunk_x, surface_y as int),
            ItemType::Coal,
            2 + loot_roll(dungeon_hash(chunk_x) ^ 0xA5A5_5A5A) % 4,
        ),
{
    if rem_euclid_i32(chunk_x, OVERWORLD_DUNGEON_CHUNK_CADENCE) != OVERWORLD_DUNGEON_CHUNK_PHASE {
        return;
    }
    let hash = (#[verifier::truncate] (chunk_x as u32)).wrapping_mul(1_103_515_245).wrapping_add(12_345);
    assert(hash == dungeon_hash(chunk_x));
    let center_lx = overworld_dungeon_center_column(chunk_x);
    let offset = ((hash >> 8u32) % 12) as i32;
    let raw_top = surface_y + 12 + offset;
    let room_top = if raw_top < 40 { 40 } else if raw_top > 110 { 110 } else { raw_top };
    let room_bottom = if room_top + 6 < CHUNK_HEIGHT as i32 - 3 { room_top + 6 } else { CHUNK_HEIGHT as i32 - 3 };
    if room_bottom - room_top < 5 {
        return;
    }
    let left = center_lx - 3;
    let right = center_lx + 3;
    let ghost orig = *chunk;
    let mut lx = left;
    while lx <= right
        invariant
            chunk_changed_within(orig, *chunk, 5, 26, 40, 125),
            -0x400_0000 <= chunk_x < 0x3ff_ffff,
            8 <= center_lx < 24,
            left == center_lx - 3 && right == center_lx + 3,
            40 <= room_top <= 110,
            room_top + 5 <= room_bottom <= 116,
            left <= lx <= right + 1,
            room_bottom == room_top + 6,
            forall|x: int, y: int| #[trigger] chunk.spec_block_at(x, y) == if left <= x < lx && room_top <= y <= room_bottom {
                if x == left || x == right || y == room_top || y == room_bottom {
                    dungeon_shell_block(chunk_x, x, y)
                } else {
                    BlockType::Air
                }
            } else {
                orig.spec_block_at(x, y)
            },
        decreases right + 1 - lx,
    {
        let mut wy = room_top;
        while wy <= room_bottom
            invariant
                chunk_changed_within(orig, *chunk, 5, 26, 40, 125),
                -0x400_0000 <= chunk_x < 0x3ff_ffff,
                8 <= center_lx < 24,
                left == center_lx - 3 && right == center_lx + 3,
                40 <= room_top <= 110,
                room_top + 5 <= room_bottom <= 116,
                left <= lx <= right,
                room_top <= wy <= room_bottom + 1,
                room_bottom == room_top + 6,
                forall|x: int, y: int| #[trigger] chunk.spec_block_at(x, y) == if (left <= x < lx && room_top <= y
                    <= room_bottom) || (x == lx && room_top <= y < wy) {
                    if x == left || x == right || y == room_top || y == room_bottom {
                        dungeon_shell_block(chunk_x, x, y)
                    } else {
                        BlockType::Air
                    }
                } else {
                    orig.spec_block_at(x, y)
                },
            decreases room_bottom + 1 - wy,
        {
            let is_shell = lx == left || lx == right || wy == room_top || wy == room_bottom;
            if is_shell {
                let cracked = rem_euclid_i32(chunk_x * 31 + lx as i32 * 17 + wy * 13, 9) == 0;
                put_cell(
                    chunk,
                    lx,
                    wy as usize,
                    if cracked {
                        BlockType::StoneBricks
                    } else {
                        BlockType::Cobblestone
                    },
                );
            } else {
                put_cell(chunk, lx, wy as usize, BlockType::Air);
            }
            wy = wy + 1;
        }
        lx = lx + 1;
    }
    let floor_y = room_bottom - 1;
    let dungeon_spawner = if (hash >> 1u32) & 1 == 0 {
        BlockType::ZombieSpawner
    } else {
        BlockType::SkeletonSpawner
    };
    put_cell(chunk, center_lx, floor_y as usize, dungeon_spawner);
    let opening_y = room_top + 3;
    put_cell(chunk, left, opening_y as usize, BlockType::Air);
    put_cell(chunk, right, opening_y as usize, BlockType::Air);
    assert(chunk_changed_within(orig, *chunk, 5, 26, 40, 125));
    let chest_lx = if hash & 1 == 0 { left + 1 } else { right - 1 };
    let ghost placed = *chunk;
    proof {
        assert(center_lx == 8 + dungeon_hash(chunk_x) as int % 16);
        assert(room_top == dungeon_floor_row(chunk_x, surface_y as int) - 5);
        assert(chest_lx == dungeon_chest_column(chunk_x));
        assert(placed.spec_block_at(chest_lx as int, floor_y as int) == BlockType::Air);
    }
    if chunk.get_block(chest_lx, floor_y as usize) == BlockType::Air {
        put_cell(chunk, chest_lx, floor_y as usize, BlockType::Chest);
        let ghost before = *chunk;
        proof {
            before.lemma_wf_views();
            assert(fresh_chest(before, chest_lx as int, floor_y as int));
        }
        fill_dungeon_chest_loot(chunk, chest_lx, floor_y as usize, hash ^ 0xA5A5_5A5A);
        proof {
            assert forall|x: int, y: int| #[trigger] chunk.spec_block_at(x, y) == before.spec_block_at(x, y) by {}
        }
    }
}


/// The sea level row of the overworld.
pub const OVERWORLD_SEA_LEVEL: i32 = 36;

/// The most the ground under a village hut may rise or fall.
pub const OVERWORLD_VILLAGE_HUT_MAX_SURFACE_DELTA: i32 = 2;

/// Writes `block` over rows `top..=bottom` of the chunk's column `lx`,
/// where they lie in the chunk.
fn hut_column(chunk: &mut Chunk, lx: usize, top: i32, bottom: i32, block: BlockType)
    requires
        old(chunk).wf(),
        lx < 32,
        -2000 <= top <= 2000,
        -2000 <= bottom <= 2000,
    ensures
        chunk_changed_within(*old(chunk), *final(chunk), lx as int, lx as int, top as int, bottom as int),
        forall|y: int| top <= y <= bottom && 0 <= y < 128 ==> #[trigger] final(chunk).spec_block_at(lx as int, y) == block,
{
    let ghost orig = *chunk;
    let mut wy = top;
    while wy <= bottom
        invariant
            chunk_changed_within(orig, *chunk, lx as int, lx as int, top as int, bottom as int),
            forall|y: int| top <= y < wy && 0 <= y < 128 ==> #[trigger] chunk.spec_block_at(lx as int, y) == block,
            lx < 32,
            -2000 <= top <= 2000,
            -2000 <= bottom <= 2000,
            top <= wy <= bottom + 1 || (bottom < top && wy == top),
        decreases bottom + 1 - wy,
    {
        put_if_inside(chunk, lx, wy, block);
        wy = wy + 1;
    }
}

/// The seed of the village hut of chunk column `chunk_x`.
pub open spec fn village_hash(chunk_x: i32) -> u32 {
    (chunk_x as u32).wrapping_mul(2_654_435_761).wrapping_add(1_013_904_223)
}

/// How many columns the hut reaches on each side of its middle column.
pub open spec fn village_half_span(chunk_x: i32) -> int {
    if (village_hash(chunk_x) >> 11u32) & 1 == 0 {
        3
    } else {
        4
    }
}

/// The hut's middle column: at least two columns clear of each of the
/// chunk's edges beyond the hut's walls, placed by the hut's seed.
pub open spec fn village_center(chunk_x: i32) -> int {
    let margin = village_half_span(chunk_x) + 2;
    margin + (village_hash(chunk_x) as int % (32 - 2 * margin))
}

/// The column of the hut's left wall.
pub open spec fn village_left(chunk_x: i32) -> int {
    village_center(chunk_x) - village_half_span(chunk_x)
}

/// The column of the hut's right wall.
pub open spec fn village_right(chunk_x: i32) -> int {
    village_center(chunk_x) + village_half_span(chunk_x)
}

/// Whether a hut may stand in a column of climate `biome`.
pub open spec fn village_biome_ok(biome: BiomeType) -> bool {
    !(biome == BiomeType::Ocean || biome == BiomeType::River || biome == BiomeType::Swamp || biome
        == BiomeType::Jungle || biome == BiomeType::ExtremeHills)
}

/// Whether the chunk of column `chunk_x` gets a village hut: its column is
/// one in eleven, the hut's seed allows it, the middle column's climate
/// allows it, and the ground of the hut's columns and of the column beside
/// each wall is dry, at most at sea level, and varies by at most two rows.
pub open spec fn village_site_ok(
    chunk_x: i32,
    biome_by_x: Seq<BiomeType>,
    surface_y_by_x: Seq<i32>,
    surface_water_by_x: Seq<bool>,
) -> bool {
    let lo = village_left(chunk_x) - 1;
    let hi = village_right(chunk_x) + 1;
    &&& chunk_x % 11 == 5
    &&& (village_hash(chunk_x) >> 7u32) & 1 == 0
    &&& village_biome_ok(biome_by_x[village_center(chunk_x)])
    &&& forall|k: int|
        lo <= k <= hi ==> #[trigger] surface_y_by_x[k] <= OVERWORLD_SEA_LEVEL && !surface_water_by_x[k]
    &&& forall|i: int, j: int|
        lo <= i <= hi && lo <= j <= hi ==> #[trigger] surface_y_by_x[i] - #[trigger] surface_y_by_x[j]
            <= OVERWORLD_VILLAGE_HUT_MAX_SURFACE_DELTA
}

/// The highest value among entries `lo` to `hi - 1` of `s` (`s[lo]` when
/// the range is empty).
pub open spec fn range_max(s: Seq<i32>, lo: int, hi: int) -> int
    decreases hi - lo,
{
    if hi <= lo + 1 {
        s[lo] as int
    } else {
        let m = range_max(s, lo, hi - 1);
        if s[hi - 1] > m {
            s[hi - 1] as int
        } else {
            m
        }
    }
}

/// No entry of the range lies above its maximum.
proof fn lemma_range_max_bounds(s: Seq<i32>, lo: int, hi: int, k: int)
    requires
        lo <= k < hi,
    ensures
        s[k] <= range_max(s, lo, hi),
    decreases hi - lo,
{
    if hi > lo + 1 && k < hi - 1 {
        lemma_range_max_bounds(s, lo, hi - 1, k);
    }
}

/// Some entry of the range is its maximum.
proof fn lemma_range_max_attained(s: Seq<i32>, lo: int, hi: int) -> (k: int)
    requires
        lo < hi,
    ensures
        lo <= k < hi,
        s[k] == range_max(s, lo, hi),
    decreases hi - lo,
{
    if hi <= lo + 1 {
        lo
    } else {
        let j = lemma_range_max_attained(s, lo, hi - 1);
        if s[hi - 1] > range_max(s, lo, hi - 1) {
            hi - 1
        } else {
            j
        }
    }
}

/// The floor row of the village hut of chunk column `chunk_x`: one row
/// over the deepest ground under the hut and beside its walls, kept
/// between rows 12 and 118.
pub open spec fn village_floor(chunk_x: i32, surface: Seq<i32>) -> int {
    let m = range_max(surface, village_left(chunk_x) - 1, village_right(chunk_x) + 2);
    if m - 1 < 12 {
        12
    } else if m - 1 > 118 {
        118
    } else {
        m - 1
    }
}

/// Builds the village hut of the chunk of column `chunk_x` where its site
/// allows one (see `village_site_ok`), cell by cell as `hut_block` says. `biome_by_x`, `surface_y_by_x` and
/// `surface_water_by_x` give each column's climate, surface row and whether
/// water lies on it. The hut has walls, a roof with overhanging edges, a
/// floor and foundations down to the ground, windows, a door on the side
/// with the smaller step to the ground, a loot chest, a crafting table and,
/// in wider huts, a bed. Only cells of columns 1 to 31 and rows 7 to 126
/// change.
pub fn build_overworld_village_hut(
    chunk: &mut Chunk,
    chunk_x: i32,
    biome_by_x: &[BiomeType; 32],
    surface_y_by_x: &[i32; 32],
    surface_water_by_x: &[bool; 32],
)
    requires
        old(chunk).wf(),
        forall|k: int| 0 <= k < 32 ==> -1000 <= #[trigger] surface_y_by_x@[k] <= 1000,
    ensures
        chunk_changed_within(*old(chunk), *final(chunk), 1, 31, 7, 126),
        !village_site_ok(chunk_x, biome_by_x@, surface_y_by_x@, surface_water_by_x@) ==> *final(chunk)
            == *old(chunk),
        village_site_ok(chunk_x, biome_by_x@, surface_y_by_x@, surface_water_by_x@) ==> village_hut_door(
            *final(chunk),
            village_left(chunk_x),
            village_right(chunk_x),
            village_floor(chunk_x, surface_y_by_x@),
            village_door_left(
                surface_y_by_x@,
                village_left(chunk_x),
                village_right(chunk_x),
                village_floor(chunk_x, surface_y_by_x@),
                village_hash(chunk_x),
            ),
        ),
        village_site_ok(chunk_x, biome_by_x@, surface_y_by_x@, surface_water_by_x@) ==> chest_holds(
            *final(chunk),
            village_chest_column(
                village_left(chunk_x),
                village_right(chunk_x),
                village_door_left(
                    surface_y_by_x@,
                    village_left(chunk_x),
                    village_right(chunk_x),
                    village_floor(chunk_x, surface_y_by_x@),
                    village_hash(chunk_x),
                ),
            ),
            village_floor(chunk_x, surface_y_by_x@),
            ItemType::Bread,
            1 + loot_roll(village_hash(chunk_x) ^ 0x5A5A_A5A5) % 3,
        ),
        village_site_ok(chunk_x, biome_by_x@, surface_y_by_x@, surface_water_by_x@) ==> forall|x: int, y: int|
            #[trigger] final(chunk).spec_block_at(x, y) == hut_block(
                *old(chunk),
                biome_by_x@[village_center(chunk_x)],
                village_left(chunk_x),
                village_right(chunk_x),
                village_floor(chunk_x, surface_y_by_x@),
                surface_y_by_x@,
                village_door_left(
                    surface_y_by_x@,
                    village_left(chunk_x),
                    village_right(chunk_x),
                    village_floor(chunk_x, surface_y_by_x@),
                    village_hash(chunk_x),
                ),
                x,
                y,
            ),
{
    if rem_euclid_i32(chunk_x, 11) != 5 {
        return;
    }
    let hash = (#[verifier::truncate] (chunk_x as u32)).wrapping_mul(2_654_435_761).wrapping_add(
        1_013_904_223,
    );
    assert(hash == village_hash(chunk_x));
    if ((hash >> 7u32) & 1) != 0 {
        return;
    }
    let half_span: usize = if (hash >> 11u32) & 1 == 0 {
        3
    } else {
        4
    };
    let edge_margin = half_span + 2;
    let center_lx = edge_margin + (hash as usize % (CHUNK_WIDTH - edge_margin * 2));
    assert(center_lx == village_center(chunk_x));
    let biome = biome_by_x[center_lx];
    if biome == BiomeType::Ocean || biome == BiomeType::River || biome == BiomeType::Swamp || biome
        == BiomeType::Jungle || biome == BiomeType::ExtremeHills {
        return;
    }
    let surface_y = surface_y_by_x[center_lx];
    if surface_y > OVERWORLD_SEA_LEVEL {
        assert(!village_site_ok(chunk_x, biome_by_x@, surface_y_by_x@, surface_water_by_x@)) by {
            assert(surface_y_by_x@[center_lx as int] > OVERWORLD_SEA_LEVEL);
        }
        return;
    }
    let left = center_lx - half_span;
    let right = if center_lx + half_span < CHUNK_WIDTH - 2 {
        center_lx + half_span
    } else {
        CHUNK_WIDTH - 2
    };
    if right - left < 5 {
        return;
    }
    assert(left == village_left(chunk_x) && right == village_right(chunk_x));

    let mut min_surface_y = surface_y;
    let mut max_surface_y = surface_y;
    let ghost mut min_at: int = center_lx as int;
    let ghost mut max_at: int = center_lx as int;
    let sample_end = if right + 1 < CHUNK_WIDTH - 1 {
        right + 1
    } else {
        CHUNK_WIDTH - 1
    };
    let mut sample_lx = left - 1;
    while sample_lx <= sample_end
        invariant
            *chunk == *old(chunk),
            old(chunk).wf(),
            left == village_left(chunk_x),
            right == village_right(chunk_x),
            2 <= left,
            left + 6 <= right <= 29,
            left < center_lx < right,
            sample_end == right + 1,
            left - 1 <= sample_lx <= sample_end + 1,
            -1000 <= min_surface_y <= max_surface_y <= 1000,
            left - 1 <= min_at <= right + 1,
            left - 1 <= max_at <= right + 1,
            surface_y_by_x@[min_at] == min_surface_y,
            surface_y_by_x@[max_at] == max_surface_y,
            min_surface_y <= surface_y_by_x@[center_lx as int] <= max_surface_y,
            forall|k: int|
                left - 1 <= k < sample_lx ==> #[trigger] surface_y_by_x@[k] <= OVERWORLD_SEA_LEVEL
                    && !surface_water_by_x@[k] && min_surface_y <= surface_y_by_x@[k] <= max_surface_y,
            forall|k: int| 0 <= k < 32 ==> -1000 <= #[trigger] surface_y_by_x@[k] <= 1000,
        decreases sample_end + 1 - sample_lx,
    {
        let sample_surface_y = surface_y_by_x[sample_lx];
        if sample_surface_y > OVERWORLD_SEA_LEVEL || surface_water_by_x[sample_lx] {
            assert(!village_site_ok(chunk_x, biome_by_x@, surface_y_by_x@, surface_water_by_x@)) by {
                assert(surface_y_by_x@[sample_lx as int] == sample_surface_y);
            }
            return;
        }
        if sample_surface_y < min_surface_y {
            min_surface_y = sample_surface_y;
            proof {
                min_at = sample_lx as int;
            }
        }
        if sample_surface_y > max_surface_y {
            max_surface_y = sample_surface_y;
            proof {
                max_at = sample_lx as int;
            }
        }
        sample_lx = sample_lx + 1;
    }
    if max_surface_y - min_surface_y > OVERWORLD_VILLAGE_HUT_MAX_SURFACE_DELTA {
        assert(!village_site_ok(chunk_x, biome_by_x@, surface_y_by_x@, surface_water_by_x@)) by {
            assert(surface_y_by_x@[max_at] - surface_y_by_x@[min_at] > OVERWORLD_VILLAGE_HUT_MAX_SURFACE_DELTA);
        }
        return;
    }
    assert(village_site_ok(chunk_x, biome_by_x@, surface_y_by_x@, surface_water_by_x@)) by {
        assert forall|i: int, j: int|
            left - 1 <= i <= right + 1 && left - 1 <= j <= right + 1 implies #[trigger] surface_y_by_x@[i]
            - #[trigger] surface_y_by_x@[j] <= OVERWORLD_VILLAGE_HUT_MAX_SURFACE_DELTA by {
            assert(min_surface_y <= surface_y_by_x@[i] <= max_surface_y);
            assert(min_surface_y <= surface_y_by_x@[j] <= max_surface_y);
        }
    }
    let floor_y = if max_surface_y - 1 < 12 {
        12
    } else if max_surface_y - 1 > CHUNK_HEIGHT as i32 - 10 {
        CHUNK_HEIGHT as i32 - 10
    } else {
        max_surface_y - 1
    };
    proof {
        let lo = left - 1;
        let hi = right + 2;
        let k = lemma_range_max_attained(surface_y_by_x@, lo as int, hi as int);
        lemma_range_max_bounds(surface_y_by_x@, lo as int, hi as int, max_at);
        assert(surface_y_by_x@[k] <= max_surface_y);
        assert(range_max(surface_y_by_x@, lo as int, hi as int) == max_surface_y);
        assert(floor_y == village_floor(chunk_x, surface_y_by_x@));
    }
    build_village_hut_at(chunk, left, right, floor_y, biome, hash, surface_y_by_x);
}

/// How far the ground of column `x` lies from the row under a hut floor on
/// row `floor_y`.
pub open spec fn entry_step(surface: Seq<i32>, x: int, floor_y: int) -> int {
    let d = surface[x] - (floor_y + 1);
    if d >= 0 {
        d
    } else {
        -d
    }
}

/// Whether the door of the hut between wall columns `left` and `right`,
/// floor on row `floor_y`, goes into the left wall: the side whose outside
/// ground is the smaller step from the floor, and when both steps are
/// alike, the left side on an even seed `hash`.
pub open spec fn village_door_left(surface: Seq<i32>, left: int, right: int, floor_y: int, hash: u32) -> bool {
    let ls = entry_step(surface, left - 1, floor_y);
    let rs = entry_step(surface, right + 1, floor_y);
    if ls == rs {
        hash & 1 == 0
    } else {
        ls <= rs
    }
}

/// The door and chest of the hut between wall columns `left` and `right`
/// with its floor on row `floor_y`: the door, two cells high from the floor
/// up, in the left wall when `door_left` and the right one otherwise, and
/// the chest on the floor beside the other wall.
pub open spec fn village_hut_door(c: Chunk, left: int, right: int, floor_y: int, door_left: bool) -> bool {
    let door_x = if door_left {
        left
    } else {
        right
    };
    let chest_x = if door_left {
        right - 1
    } else {
        left + 1
    };
    &&& c.spec_block_at(door_x, floor_y) == BlockType::WoodDoor(false)
    &&& c.spec_block_at(door_x, floor_y - 1) == BlockType::WoodDoor(false)
    &&& c.spec_block_at(chest_x, floor_y) == BlockType::Chest
}

/// The column of the chest of the hut between `left` and `right`.
pub open spec fn village_chest_column(left: int, right: int, door_left: bool) -> int {
    if door_left {
        right - 1
    } else {
        left + 1
    }
}

/// The wall block of a hut in climate `b`.
pub open spec fn hut_wall_block(b: BiomeType) -> BlockType {
    if b == BiomeType::Desert {
        BlockType::StoneBricks
    } else if b == BiomeType::Taiga || b == BiomeType::Tundra {
        BlockType::BirchWood
    } else {
        BlockType::Wood
    }
}

/// The trim block of a hut in climate `b`.
pub open spec fn hut_trim_block(b: BiomeType) -> BlockType {
    if b == BiomeType::Desert {
        BlockType::Stone
    } else if b == BiomeType::Taiga || b == BiomeType::Tundra {
        BlockType::Planks
    } else {
        BlockType::Cobblestone
    }
}

/// The floor block of a hut in climate `b`.
pub open spec fn hut_floor_block(b: BiomeType) -> BlockType {
    if b == BiomeType::Desert { BlockType::Sand } else { BlockType::Planks }
}

/// The foundation block of a hut in climate `b`.
pub open spec fn hut_foundation_block(b: BiomeType) -> BlockType {
    if b == BiomeType::Desert { BlockType::StoneBricks } else { BlockType::Cobblestone }
}

/// The block of the overhanging roof edge of a hut in climate `b`.
pub open spec fn hut_edge_block(b: BiomeType) -> BlockType {
    if b == BiomeType::Desert { BlockType::StoneStairs } else { BlockType::StoneSlab }
}

/// The block of the roof between the walls of a hut in climate `b`.
pub open spec fn hut_cap_block(b: BiomeType) -> BlockType {
    if b == BiomeType::Desert { BlockType::StoneSlab } else { BlockType::Planks }
}

/// The lowest foundation row under column `x` of a hut: the row under the
/// ground of that column, kept two rows off the chunk's bottom.
pub open spec fn hut_support_bottom(surface: Seq<i32>, x: int) -> int {
    if surface[x] + 1 < 126 { surface[x] + 1 } else { 126 }
}

/// The block of the frame of a hut between wall columns `l` and `r`, floor
/// on row `f`, at (x, y) with `f - 4 <= y <= f`: the roof row (trim over the
/// walls), the floor, walls with trim under the roof and over the floor,
/// air inside.
pub open spec fn hut_frame_block(b: BiomeType, l: int, r: int, f: int, x: int, y: int) -> BlockType {
    let roof = f - 4;
    let is_wall = x == l || x == r;
    if y == roof {
        if is_wall { hut_trim_block(b) } else { hut_cap_block(b) }
    } else if y == f {
        hut_floor_block(b)
    } else if is_wall {
        if y == f - 1 || y == roof + 1 { hut_trim_block(b) } else { hut_wall_block(b) }
    } else {
        BlockType::Air
    }
}

/// The shell of the hut (frame, foundations and roof edge) at (x, y), over
/// a chunk that held `before`.
pub open spec fn hut_shell_block(before: Chunk, b: BiomeType, l: int, r: int, f: int, surface: Seq<i32>, x: int, y: int) -> BlockType {
    if l - 1 <= x <= r + 1 && y == f - 5 {
        hut_edge_block(b)
    } else if l <= x <= r && f + 1 <= y <= hut_support_bottom(surface, x) {
        hut_foundation_block(b)
    } else if l <= x <= r && f - 4 <= y <= f {
        hut_frame_block(b, l, r, f, x, y)
    } else {
        before.spec_block_at(x, y)
    }
}

/// Everything the hut between wall columns `l` and `r`, floor on row `f`,
/// in climate `b`, door in the left wall when `door_left`, leaves at (x, y)
/// of a chunk that held `before`: the shell, then the door two cells high
/// with trim over it and a cleared, founded step outside, windows two
/// rows high in both walls, and from the wall opposite the door inwards
/// the chest, the crafting table and the bed.
pub open spec fn hut_block(
    before: Chunk,
    b: BiomeType,
    l: int,
    r: int,
    f: int,
    surface: Seq<i32>,
    door_left: bool,
    x: int,
    y: int,
) -> BlockType {
    let door = if door_left { l } else { r };
    let outer = if door_left { l - 1 } else { r + 1 };
    let chest = if door_left { r - 1 } else { l + 1 };
    let station = if door_left { r - 2 } else { l + 2 };
    let bed = if door_left { r - 3 } else { l + 3 };
    if y == f && x == bed {
        BlockType::Bed
    } else if y == f && x == station {
        BlockType::CraftingTable
    } else if y == f && x == chest {
        BlockType::Chest
    } else if (x == l || x == r) && (y == f - 3 || y == f - 2) {
        BlockType::Glass
    } else if x == outer && f + 1 <= y <= hut_support_bottom(surface, outer) {
        hut_foundation_block(b)
    } else if x == outer && (y == f - 1 || y == f) {
        BlockType::Air
    } else if x == door && y == f - 2 {
        hut_trim_block(b)
    } else if x == door && (y == f || y == f - 1) {
        BlockType::WoodDoor(false)
    } else {
        hut_shell_block(before, b, l, r, f, surface, x, y)
    }
}

/// Builds a village hut for climate `biome` and seed `hash` between wall
/// columns `left` and `right`, its floor on row `floor_y`, its foundations
/// reaching down to the ground rows of `surface_y_by_x`.
fn build_village_hut_at(
    chunk: &mut Chunk,
    left: usize,
    right: usize,
    floor_y: i32,
    biome: BiomeType,
    hash: u32,
    surface_y_by_x: &[i32; 32],
)
    requires
        old(chunk).wf(),
        2 <= left,
        left + 6 <= right <= 29,
        12 <= floor_y <= 118,
        forall|k: int| 0 <= k < 32 ==> -1000 <= #[trigger] surface_y_by_x@[k] <= 1000,
    ensures
        chunk_changed_within(*old(chunk), *final(chunk), 1, 31, 7, 126),
        village_hut_door(
            *final(chunk),
            left as int,
            right as int,
            floor_y as int,
            village_door_left(surface_y_by_x@, left as int, right as int, floor_y as int, hash),
        ),
        chest_holds(
            *final(chunk),
            village_chest_column(
                left as int,
                right as int,
                village_door_left(surface_y_by_x@, left as int, right as int, floor_y as int, hash),
            ),
            floor_y as int,
            ItemType::Bread,
            1 + loot_roll(hash ^ 0x5A5A_A5A5) % 3,
        ),
        forall|x: int, y: int| #[trigger] final(chunk).spec_block_at(x, y) == hut_block(
            *old(chunk),
            biome,
            left as int,
            right as int,
            floor_y as int,
            surface_y_by_x@,
            village_door_left(surface_y_by_x@, left as int, right as int, floor_y as int, hash),
            x,
            y,
        ),
{
    let sample_end = right + 1;
    let roof_y = floor_y - 4;

    let wall_block = if biome == BiomeType::Desert {
        BlockType::StoneBricks
    } else if biome == BiomeType::Taiga || biome == BiomeType::Tundra {
        BlockType::BirchWood
    } else {
        BlockType::Wood
    };
    let trim_block = if biome == BiomeType::Desert {
        BlockType::Stone
    } else if biome == BiomeType::Taiga || biome == BiomeType::Tundra {
        BlockType::Planks
    } else {
        BlockType::Cobblestone
    };
    let desert = biome == BiomeType::Desert;
    let floor_block = if desert {
        BlockType::Sand
    } else {
        BlockType::Planks
    };
    let foundation_block = if desert {
        BlockType::StoneBricks
    } else {
        BlockType::Cobblestone
    };
    let roof_edge_block = if desert {
        BlockType::StoneStairs
    } else {
        BlockType::StoneSlab
    };
    let roof_cap_block = if desert {
        BlockType::StoneSlab
    } else {
        BlockType::Planks
    };

    proof {
        assert(wall_block == hut_wall_block(biome) && trim_block == hut_trim_block(biome));
        assert(floor_block == hut_floor_block(biome) && foundation_block == hut_foundation_block(biome));
        assert(roof_edge_block == hut_edge_block(biome) && roof_cap_block == hut_cap_block(biome));
    }
    let ghost orig = *chunk;
    let ghost (l, r, f) = (left as int, right as int, floor_y as int);
    let mut lx = left;
    while lx <= right
        invariant
            chunk_changed_within(orig, *chunk, 1, 31, 7, 126),
            2 <= left,
            left + 6 <= right <= 29,
            left <= lx <= right + 1,
            12 <= floor_y <= 118,
            roof_y == floor_y - 4,
            forall|k: int| 0 <= k < 32 ==> -1000 <= #[trigger] surface_y_by_x@[k] <= 1000,
            floor_block != BlockType::Chest,
            forall|x2: int| left <= x2 < lx ==> #[trigger] chunk.spec_block_at(x2, floor_y as int) == floor_block,
            l == left && r == right && f == floor_y,
            wall_block == hut_wall_block(biome) && trim_block == hut_trim_block(biome),
            floor_block == hut_floor_block(biome) && foundation_block == hut_foundation_block(biome),
            roof_cap_block == hut_cap_block(biome),
            forall|x: int, y: int| #[trigger] chunk.spec_block_at(x, y) == if l <= x < lx && f + 1 <= y <= hut_support_bottom(
                surface_y_by_x@,
                x,
            ) {
                hut_foundation_block(biome)
            } else if l <= x < lx && f - 4 <= y <= f {
                hut_frame_block(biome, l, r, f, x, y)
            } else {
                orig.spec_block_at(x, y)
            },
        decreases right + 1 - lx,
    {
        let mut wy = roof_y;
        while wy <= floor_y
            invariant
                chunk_changed_within(orig, *chunk, 1, 31, 7, 126),
                2 <= left,
                left + 6 <= right <= 29,
                left <= lx <= right,
                12 <= floor_y <= 118,
                roof_y == floor_y - 4,
                roof_y <= wy <= floor_y + 1,
                forall|x2: int| left <= x2 < lx ==> #[trigger] chunk.spec_block_at(x2, floor_y as int) == floor_block,
                wy > floor_y ==> chunk.spec_block_at(lx as int, floor_y as int) == floor_block,
                l == left && r == right && f == floor_y,
                wall_block == hut_wall_block(biome) && trim_block == hut_trim_block(biome),
                floor_block == hut_floor_block(biome) && foundation_block == hut_foundation_block(biome),
                roof_cap_block == hut_cap_block(biome),
                forall|x: int, y: int| #[trigger] chunk.spec_block_at(x, y) == if l <= x < lx && f + 1 <= y <= hut_support_bottom(
                    surface_y_by_x@,
                    x,
                ) {
                    hut_foundation_block(biome)
                } else if (l <= x < lx && f - 4 <= y <= f) || (x == lx && f - 4 <= y < wy) {
                    hut_frame_block(biome, l, r, f, x, y)
                } else {
                    orig.spec_block_at(x, y)
                },
            decreases floor_y + 1 - wy,
        {
            let is_wall = lx == left || lx == right;
            let block = if wy == roof_y {
                if is_wall {
                    trim_block
                } else {
                    roof_cap_block
                }
            } else if wy == floor_y {
                floor_block
            } else if is_wall {
                if wy == floor_y - 1 || wy == roof_y + 1 {
                    trim_block
                } else {
                    wall_block
                }
            } else {
                BlockType::Air
            };
            put_cell(chunk, lx, wy as usize, block);
            wy = wy + 1;
        }
        let support_surface_y = surface_y_by_x[lx];
        let support_bottom = if support_surface_y + 1 < CHUNK_HEIGHT as i32 - 2 {
            support_surface_y + 1
        } else {
            CHUNK_HEIGHT as i32 - 2
        };
        hut_column(chunk, lx, floor_y + 1, support_bottom, foundation_block);
        lx = lx + 1;
    }

    let ghost body = *chunk;
    let mut edge_lx = left - 1;
    while edge_lx <= sample_end
        invariant
            chunk_changed_within(orig, *chunk, 1, 31, 7, 126),
            2 <= left,
            left + 6 <= right <= 29,
            sample_end == right + 1,
            left - 1 <= edge_lx <= sample_end + 1,
            12 <= floor_y <= 118,
            roof_y == floor_y - 4,
            forall|x2: int| left <= x2 <= right ==> #[trigger] chunk.spec_block_at(x2, floor_y as int) == floor_block,
            l == left && r == right && f == floor_y,
            roof_edge_block == hut_edge_block(biome),
            forall|x: int, y: int| #[trigger] chunk.spec_block_at(x, y) == if l - 1 <= x < edge_lx && y == f - 5 {
                hut_edge_block(biome)
            } else {
                body.spec_block_at(x, y)
            },
        decreases sample_end + 1 - edge_lx,
    {
        put_cell(chunk, edge_lx, (roof_y - 1) as usize, roof_edge_block);
        edge_lx = edge_lx + 1;
    }

    let left_entry_surface_y = surface_y_by_x[left - 1];
    let right_entry_surface_y = surface_y_by_x[right + 1];
    let left_entry_step = if left_entry_surface_y >= floor_y + 1 {
        left_entry_surface_y - (floor_y + 1)
    } else {
        (floor_y + 1) - left_entry_surface_y
    };
    let right_entry_step = if right_entry_surface_y >= floor_y + 1 {
        right_entry_surface_y - (floor_y + 1)
    } else {
        (floor_y + 1) - right_entry_surface_y
    };
    let door_on_left = if left_entry_step == right_entry_step {
        (hash & 1) == 0
    } else {
        left_entry_step <= right_entry_step
    };
    assert(door_on_left == village_door_left(surface_y_by_x@, left as int, right as int, floor_y as int, hash));
    let ghost before_door = *chunk;
    let door_lx = if door_on_left {
        left
    } else {
        right
    };
    let door_outer_lx = if door_on_left {
        left - 1
    } else {
        right + 1
    };
    put_cell(chunk, door_lx, floor_y as usize, BlockType::WoodDoor(false));
    put_cell(chunk, door_lx, (floor_y - 1) as usize, BlockType::WoodDoor(false));
    put_cell(chunk, door_lx, (floor_y - 2) as usize, trim_block);
    put_cell(chunk, door_outer_lx, (floor_y - 1) as usize, BlockType::Air);
    put_cell(chunk, door_outer_lx, floor_y as usize, BlockType::Air);
    let door_outer_surface_y = surface_y_by_x[door_outer_lx];
    let door_support_bottom = if door_outer_surface_y + 1 < CHUNK_HEIGHT as i32 - 2 {
        door_outer_surface_y + 1
    } else {
        CHUNK_HEIGHT as i32 - 2
    };
    hut_column(chunk, door_outer_lx, floor_y + 1, door_support_bottom, foundation_block);

    put_cell(chunk, left, (floor_y - 3) as usize, BlockType::Glass);
    put_cell(chunk, right, (floor_y - 3) as usize, BlockType::Glass);
    put_cell(chunk, left, (floor_y - 2) as usize, BlockType::Glass);
    put_cell(chunk, right, (floor_y - 2) as usize, BlockType::Glass);
    assert(chunk_changed_within(orig, *chunk, 1, 31, 7, 126));

    // The furnishings stand from the wall opposite the door inwards: the
    // chest first, then the crafting table, then (in wider huts) the bed.
    let chest_lx = if door_on_left {
        right - 1
    } else {
        left + 1
    };
    let station_lx = if door_on_left {
        right - 2
    } else {
        left + 2
    };
    proof {
        assert(chunk.spec_block_at(chest_lx as int, floor_y as int) == floor_block);
    }
    put_cell(chunk, chest_lx, floor_y as usize, BlockType::Chest);
    let ghost before = *chunk;
    proof {
        before.lemma_wf_views();
        assert(fresh_chest(before, chest_lx as int, floor_y as int));
    }
    fill_village_chest_loot(chunk, chest_lx, floor_y as usize, hash ^ 0x5A5A_A5A5);
    proof {
        assert forall|x: int, y: int| #[trigger] chunk.spec_block_at(x, y) == before.spec_block_at(x, y) by {}
    }
    let ghost filled = *chunk;
    let ghost ci = cell_index(chest_lx as int, floor_y as int);
    proof {
        filled.lemma_wf_views();
        assert(cell_index(station_lx as int, floor_y as int) != ci);
    }
    put_cell(chunk, station_lx, floor_y as usize, BlockType::CraftingTable);
    assert(chunk.view_chests()[ci] == filled.view_chests()[ci]);
    if right - left >= 6 {
        let bed_lx = if door_on_left {
            right - 3
        } else {
            left + 3
        };
        let ghost s1 = *chunk;
        proof {
            s1.lemma_wf_views();
            assert(cell_index(bed_lx as int, floor_y as int) != ci);
        }
        put_cell(chunk, bed_lx, floor_y as usize, BlockType::Bed);
        assert(chunk.view_chests()[ci] == s1.view_chests()[ci]);
    }
    proof {
        assert(chunk.view_chests()[ci] == filled.view_chests()[ci]);
        assert forall|x: int, y: int| #[trigger] chunk.spec_block_at(x, y) == hut_block(
            orig,
            biome,
            l,
            r,
            f,
            surface_y_by_x@,
            door_on_left,
            x,
            y,
        ) by {
            assert(body.spec_block_at(x, y) == (if l <= x <= r && f + 1 <= y <= hut_support_bottom(surface_y_by_x@, x) {
                hut_foundation_block(biome)
            } else if l <= x <= r && f - 4 <= y <= f {
                hut_frame_block(biome, l, r, f, x, y)
            } else {
                orig.spec_block_at(x, y)
            }));
            assert(before_door.spec_block_at(x, y) == hut_shell_block(orig, biome, l, r, f, surface_y_by_x@, x, y));
        }
        assert(village_hut_door(*chunk, left as int, right as int, floor_y as int, door_on_left));
    }
}

} // verus!
