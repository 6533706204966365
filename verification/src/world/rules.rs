use vstd::prelude::*;
use super::block::BlockType;
use super::structures::OVERWORLD_SEA_LEVEL;

verus! {

/// The world a player is in.
#[derive(Clone, Copy, PartialEq, Eq, Debug, Structural)]
pub enum Dimension {
    Overworld,
    Nether,
    End,
}

/// The climate of a column of the overworld.
#[derive(Clone, Copy, PartialEq, Debug, Structural)]
pub enum BiomeType {
    Desert,
    Tundra,
    Taiga,
    Forest,
    Plains,
    Swamp,
    Jungle,
    ExtremeHills,
    Ocean,
    River,
}

/// Counters of how chunks were made available, for diagnostics.
#[derive(Clone, Copy, Debug, Default)]
pub struct ChunkLoadMetrics {
    pub sync_loaded: u64,
    pub sync_generated: u64,
    pub async_loaded: u64,
    pub async_generated: u64,
    pub pending_requests: u64,
    pub last_load_us: u64,
    pub max_load_us: u64,
}

/// The remainder of `v` divided by `m`, always in `0..m`.
pub fn rem_euclid_i32(v: i32, m: i32) -> (r: i32)
    requires
        m > 0,
    ensures
        r == v as int % m as int,
        0 <= r < m,
{
    // Shift by a multiple of `m` to a value that is never negative.
    let shifted: u64 = (v as i64 + 0x8000_0000i64 * m as i64) as u64;
    proof {
        vstd::arithmetic::div_mod::lemma_mod_multiples_vanish(0x8000_0000, v as int, m as int);
        assert(shifted as int == m as int * 0x8000_0000 + v as int) by (nonlinear_arith)
            requires
                shifted as int == v as int + 0x8000_0000 * m as int,
        ;
    }
    (shifted % (m as u64)) as i32
}

/// Whether breaking tall grass at (x, y) drops seeds: 7 cells in 25 do.
pub open spec fn spec_tall_grass_drops_seed_at(world_x: i32, world_y: i32) -> bool {
    ((world_x.wrapping_mul(29) ^ world_y.wrapping_mul(43)) as int % 25) < 7
}

/// Whether breaking tall grass at (x, y) drops seeds (a fixed pattern over
/// the world, 7 cells in 25).
pub fn tall_grass_drops_seed_at(world_x: i32, world_y: i32) -> (r: bool)
    ensures
        r == spec_tall_grass_drops_seed_at(world_x, world_y),
{
    rem_euclid_i32(world_x.wrapping_mul(29) ^ world_y.wrapping_mul(43), 25) < 7
}

/// Whether breaking gravel at (x, y) drops flint: 1 cell in 10 does.
pub open spec fn spec_gravel_drops_flint_at(world_x: i32, world_y: i32) -> bool {
    ((world_x.wrapping_mul(17) ^ world_y.wrapping_mul(37)) as int % 10) == 0
}

/// Whether breaking gravel at (x, y) drops flint (a fixed pattern over the
/// world, 1 cell in 10).
pub fn gravel_drops_flint_at(world_x: i32, world_y: i32) -> (r: bool)
    ensures
        r == spec_gravel_drops_flint_at(world_x, world_y),
{
    rem_euclid_i32(world_x.wrapping_mul(17) ^ world_y.wrapping_mul(37), 10) == 0
}

/// How much nether wart breaking a plant at (x, y) yields: 2 to 4 when
/// mature (by a fixed pattern over the world), 1 otherwise.
pub open spec fn spec_nether_wart_drop_count_at(world_x: i32, world_y: i32, mature: bool) -> u32 {
    if mature {
        (2 + ((world_x.wrapping_mul(13) ^ world_y.wrapping_mul(19)) as int % 3)) as u32
    } else {
        1
    }
}

/// How much nether wart breaking a plant at (x, y) yields.
pub fn nether_wart_drop_count_at(world_x: i32, world_y: i32, mature: bool) -> (r: u32)
    ensures
        r == spec_nether_wart_drop_count_at(world_x, world_y, mature),
        1 <= r <= 4,
{
    if mature {
        2 + (rem_euclid_i32(world_x.wrapping_mul(13) ^ world_y.wrapping_mul(19), 3) as u32)
    } else {
        1
    }
}

/// Whether a sapling at (x, y) grows in growth phase `phase`.
pub open spec fn spec_sapling_growth_due_at(world_x: i32, world_y: i32, phase: i32) -> bool {
    ((world_x.wrapping_mul(31) ^ world_y.wrapping_mul(47) ^ phase.wrapping_mul(19)) & 7) == 0
}

/// Whether a sapling at (x, y) grows in growth phase `phase` (one phase in
/// eight, staggered over the world).
pub fn sapling_growth_due_at(world_x: i32, world_y: i32, growth_phase: i32) -> (r: bool)
    ensures
        r == spec_sapling_growth_due_at(world_x, world_y, growth_phase),
{
    ((world_x.wrapping_mul(31) ^ world_y.wrapping_mul(47) ^ growth_phase.wrapping_mul(19)) & 7)
        == 0
}

/// Whether sugar cane at (x, y) grows in growth phase `phase`.
pub open spec fn spec_sugar_cane_growth_due_at(world_x: i32, world_y: i32, phase: i32) -> bool {
    ((world_x.wrapping_mul(43) ^ world_y.wrapping_mul(29) ^ phase.wrapping_mul(11)) & 3) == 0
}

/// Whether sugar cane at (x, y) grows in growth phase `phase` (one phase in
/// four, staggered over the world).
pub fn sugar_cane_growth_due_at(world_x: i32, world_y: i32, growth_phase: i32) -> (r: bool)
    ensures
        r == spec_sugar_cane_growth_due_at(world_x, world_y, growth_phase),
{
    ((world_x.wrapping_mul(43) ^ world_y.wrapping_mul(29) ^ growth_phase.wrapping_mul(11)) & 3)
        == 0
}

/// Whether nether wart at (x, y) grows in growth phase `phase`.
pub open spec fn spec_nether_wart_growth_due_at(world_x: i32, world_y: i32, phase: i32) -> bool {
    ((world_x.wrapping_mul(37) ^ world_y.wrapping_mul(53) ^ phase.wrapping_mul(17)) & 5) == 0
}

/// Whether nether wart at (x, y) grows in growth phase `phase`.
pub fn nether_wart_growth_due_at(world_x: i32, world_y: i32, growth_phase: i32) -> (r: bool)
    ensures
        r == spec_nether_wart_growth_due_at(world_x, world_y, growth_phase),
{
    ((world_x.wrapping_mul(37) ^ world_y.wrapping_mul(53) ^ growth_phase.wrapping_mul(17)) & 5)
        == 0
}

/// Whether dry farmland at (x, y) turns back to dirt in growth phase `phase`.
pub open spec fn spec_dry_farmland_revert_due_at(world_x: i32, world_y: i32, phase: i32) -> bool {
    ((world_x.wrapping_mul(41) ^ world_y.wrapping_mul(61) ^ phase.wrapping_mul(13)) & 7) == 0
}

/// Whether dry farmland at (x, y) turns back to dirt in growth phase `phase`
/// (one phase in eight, staggered over the world).
pub fn dry_farmland_revert_due_at(world_x: i32, world_y: i32, growth_phase: i32) -> (r: bool)
    ensures
        r == spec_dry_farmland_revert_due_at(world_x, world_y, growth_phase),
{
    ((world_x.wrapping_mul(41) ^ world_y.wrapping_mul(61) ^ growth_phase.wrapping_mul(13)) & 7)
        == 0
}

/// The flower or grass bone meal grows at (x, y): by a fixed pattern over the
/// world, red flowers in 2 cells of 12, yellow flowers in 2, tall grass in 8.
pub open spec fn spec_bone_meal_flora_block_at(world_x: i32, world_y: i32) -> BlockType {
    let v = (world_x.wrapping_mul(23) ^ world_y.wrapping_mul(41)) as int % 12;
    if v == 0 || v == 1 {
        BlockType::RedFlower
    } else if v == 2 || v == 3 {
        BlockType::YellowFlower
    } else {
        BlockType::TallGrass
    }
}

/// The flower or grass bone meal grows at (x, y).
pub fn bone_meal_flora_block_at(world_x: i32, world_y: i32) -> (r: BlockType)
    ensures
        r == spec_bone_meal_flora_block_at(world_x, world_y),
{
    match rem_euclid_i32(world_x.wrapping_mul(23) ^ world_y.wrapping_mul(41), 12) {
        0 | 1 => BlockType::RedFlower,
        2 | 3 => BlockType::YellowFlower,
        _ => BlockType::TallGrass,
    }
}

/// Whether surface water covers columns of climate `biome`: oceans, rivers
/// and swamps.
pub open spec fn spec_is_surface_water_biome(biome: BiomeType) -> bool {
    biome == BiomeType::Ocean || biome == BiomeType::River || biome == BiomeType::Swamp
}

/// Whether surface water covers columns of climate `biome`.
pub fn is_surface_water_biome(biome: BiomeType) -> (r: bool)
    ensures
        r == spec_is_surface_water_biome(biome),
{
    matches!(biome, BiomeType::Ocean | BiomeType::River | BiomeType::Swamp)
}

/// The deepest ground row that still floods, for a land column `distance`
/// columns from water of climate `water_biome`: two rows under sea level
/// right beside an ocean, one right beside a river or swamp, sea level
/// otherwise.
pub fn shoreline_land_water_depth_limit(water_biome: BiomeType, distance: i32) -> (r: i32)
    ensures
        r == OVERWORLD_SEA_LEVEL + if distance <= 1 && water_biome == BiomeType::Ocean {
            2int
        } else if distance <= 1 && (water_biome == BiomeType::River || water_biome == BiomeType::Swamp) {
            1int
        } else {
            0int
        },
{
    match water_biome {
        BiomeType::Ocean => {
            if distance <= 1 {
                OVERWORLD_SEA_LEVEL + 2
            } else {
                OVERWORLD_SEA_LEVEL
            }
        },
        BiomeType::River | BiomeType::Swamp => {
            if distance <= 1 {
                OVERWORLD_SEA_LEVEL + 1
            } else {
                OVERWORLD_SEA_LEVEL
            }
        },
        _ => OVERWORLD_SEA_LEVEL,
    }
}

} // verus!
