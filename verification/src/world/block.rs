use vstd::prelude::*;

verus! {

/// One cell of the world grid. Variants that carry data hold the block's
/// state (fluid level, growth stage, redstone power, piston pose, ...).
#[derive(Clone, Copy, PartialEq, Eq, Debug, Structural)]
pub enum BlockType {
    Air,
    Dirt,
    Grass,
    Stone,
    Wood,
    Leaves,
    IronOre,
    GoldOre,
    DiamondOre,
    CoalOre,
    Sand,
    Gravel,
    Bedrock,
    Planks,
    CraftingTable,
    Torch,
    Lever(bool),
    StoneButton(u8),
    RedstoneTorch(bool),
    Furnace,
    Snow,
    Ice,
    Cactus,
    DeadBush,
    BirchWood,
    BirchLeaves,
    RedFlower,
    YellowFlower,
    TallGrass,
    // Fluids and fluid-derived blocks
    Water(u8),
    Lava(u8),
    Cobblestone,
    Obsidian,
    Farmland(u8),
    Crops(u8),
    RedstoneOre,
    RedstoneDust(u8),
    Netherrack,
    SoulSand,
    Glowstone,
    NetherPortal,
    Tnt,
    PrimedTnt(u8),
    Piston {
        extended: bool,
        facing_right: bool,
    },
    StickyPiston {
        extended: bool,
        facing_right: bool,
    },
    StoneBricks,
    EndPortalFrame {
        filled: bool,
    },
    EndPortal,
    EndStone,
    // Appended variants to preserve bincode enum compatibility for existing saves.
    IronDoor(bool),
    SilverfishSpawner,
    Bed,
    Chest,
    Glass,
    WoodDoor(bool),
    Ladder,
    StoneSlab,
    StoneStairs,
    EnchantingTable,
    Anvil,
    BrewingStand,
    BlazeSpawner,
    RedstoneRepeater {
        powered: bool,
        delay: u8,
        facing_right: bool,
        timer: u8,
        target_powered: bool,
    },
    Wool,
    Sapling,
    SugarCane,
    Bookshelf,
    NetherWart(u8),
    BirchSapling,
    ZombieSpawner,
    SkeletonSpawner,
}

impl BlockType {
    /// Lowest pickaxe tier that harvests the block (0: any tool; 255: never).
    pub open spec fn spec_required_tool_level(self) -> u8 {
        match self {
            BlockType::Stone
            | BlockType::StoneBricks
            | BlockType::CoalOre
            | BlockType::Furnace
            | BlockType::Ice
            | BlockType::Cobblestone
            | BlockType::Netherrack
            | BlockType::EndStone
            | BlockType::SilverfishSpawner
            | BlockType::BlazeSpawner
            | BlockType::ZombieSpawner
            | BlockType::SkeletonSpawner
            | BlockType::Piston { .. }
            | BlockType::StickyPiston { .. }
            | BlockType::StoneSlab
            | BlockType::StoneStairs
            | BlockType::EnchantingTable
            | BlockType::Anvil
            | BlockType::BrewingStand => 1,
            BlockType::IronDoor(_) => 2,
            BlockType::EndPortalFrame { .. } => 4,
            BlockType::IronOre => 2,
            BlockType::RedstoneOre => 3,
            BlockType::GoldOre | BlockType::DiamondOre => 3,
            BlockType::Obsidian => 4, 
            BlockType::Bedrock => 255,
            _ => 0,
        }
    }

    /// Whether the block may rest on `ground` (only blocks that need support care).
    pub open spec fn spec_can_stay_on(self, ground: BlockType) -> bool {
        match self {
            BlockType::RedFlower | BlockType::YellowFlower | BlockType::TallGrass => {
                matches!(
                    ground,
                    BlockType::Grass | BlockType::Dirt | BlockType::Farmland(_)
                )
            }
            BlockType::DeadBush => {
                matches!(ground, BlockType::Sand | BlockType::Dirt | BlockType::Grass)
            }
            BlockType::Crops(_) => matches!(ground, BlockType::Farmland(_)),
            BlockType::Sapling | BlockType::BirchSapling => {
                matches!(ground, BlockType::Grass | BlockType::Dirt)
            }
            BlockType::NetherWart(_) => matches!(ground, BlockType::SoulSand),
            BlockType::SugarCane => matches!(
                ground,
                BlockType::Grass | BlockType::Dirt | BlockType::Sand | BlockType::SugarCane
            ),
            BlockType::Cactus => matches!(ground, BlockType::Sand | BlockType::Cactus),
            _ => true,
        }
    }

    /// Mining hardness in tenths of a unit; -10 marks an unbreakable block.
    pub open spec fn spec_hardness_tenths(self) -> i32 {
        match self {
            BlockType::Air
            | BlockType::Torch
            | BlockType::Lever(_)
            | BlockType::StoneButton(_)
            | BlockType::RedstoneTorch(_)
            | BlockType::RedstoneRepeater { .. }
            | BlockType::RedFlower
            | BlockType::YellowFlower
            | BlockType::TallGrass
            | BlockType::Crops(_)
            | BlockType::DeadBush
            | BlockType::RedstoneDust(_)
            | BlockType::NetherPortal
            | BlockType::EndPortal
            | BlockType::Tnt
            | BlockType::PrimedTnt(_)
            | BlockType::Water(_)
            | BlockType::Lava(_)
            | BlockType::Sapling
            | BlockType::BirchSapling
            | BlockType::SugarCane
            | BlockType::NetherWart(_) => 0,
            BlockType::Ladder => 4,
            BlockType::Glass => 3,
            BlockType::IronDoor(_) => 50,
            BlockType::WoodDoor(_) => 30,
            BlockType::SilverfishSpawner => 50,
            BlockType::BlazeSpawner => 50,
            BlockType::ZombieSpawner => 50,
            BlockType::SkeletonSpawner => 50,
            BlockType::Anvil => 50,
            BlockType::Glowstone => 3,
            BlockType::Bed => 2,
            BlockType::Chest => 25,
            BlockType::Wool => 8,
            BlockType::EnchantingTable => 50,
            BlockType::BrewingStand => 5,
            BlockType::Leaves | BlockType::BirchLeaves | BlockType::Snow => 2,
            BlockType::Dirt | BlockType::Grass | BlockType::Sand | BlockType::Farmland(_) => 5,
            BlockType::SoulSand => 6,
            BlockType::Gravel => 6,
            BlockType::Wood
            | BlockType::BirchWood
            | BlockType::Planks
            | BlockType::CraftingTable
            | BlockType::Furnace
            | BlockType::Bookshelf => 20,
            BlockType::Stone
            | BlockType::StoneBricks
            | BlockType::CoalOre
            | BlockType::Ice
            | BlockType::Cobblestone
            | BlockType::Netherrack
            | BlockType::EndStone
            | BlockType::StoneSlab
            | BlockType::StoneStairs
            | BlockType::Piston { .. }
            | BlockType::StickyPiston { .. } => 15,
            BlockType::EndPortalFrame { .. } => 80,
            BlockType::IronOre => 30,
            BlockType::RedstoneOre => 30,
            BlockType::GoldOre => 30,
            BlockType::DiamondOre => 40,
            BlockType::Obsidian => 100, 
            BlockType::Cactus => 4,
            BlockType::Bedrock => -10i32,
        }
    }

    /// Whether entities collide with the block.
    pub open spec fn spec_is_solid(self) -> bool {
        !matches!(
            self,
            BlockType::Air
                | BlockType::Leaves
                | BlockType::BirchLeaves
                | BlockType::Torch
                | BlockType::Lever(_)
                | BlockType::StoneButton(_)
                | BlockType::RedstoneTorch(_)
                | BlockType::RedstoneRepeater { .. }
                | BlockType::RedFlower
                | BlockType::YellowFlower
                | BlockType::TallGrass
                | BlockType::RedstoneDust(_)
                | BlockType::NetherPortal
                | BlockType::EndPortal
                | BlockType::PrimedTnt(_)
                | BlockType::IronDoor(true)
                | BlockType::WoodDoor(true)
                | BlockType::Crops(_)
                | BlockType::DeadBush
                | BlockType::Ladder
                | BlockType::Water(_)
                | BlockType::Lava(_)
                | BlockType::Sapling
                | BlockType::BirchSapling
                | BlockType::SugarCane
                | BlockType::NetherWart(_)
        )
    }

    /// Whether placing another block may overwrite this one.
    pub open spec fn spec_is_replaceable(self) -> bool {
        matches!(
            self,
            BlockType::Air
                | BlockType::Torch
                | BlockType::Lever(_)
                | BlockType::StoneButton(_)
                | BlockType::RedstoneTorch(_)
                | BlockType::RedstoneRepeater { .. }
                | BlockType::RedFlower
                | BlockType::YellowFlower
                | BlockType::TallGrass
                | BlockType::Crops(_)
                | BlockType::DeadBush
                | BlockType::Ladder
                | BlockType::RedstoneDust(_)
                | BlockType::Water(_)
                | BlockType::Lava(_)
                | BlockType::Sapling
                | BlockType::BirchSapling
                | BlockType::NetherWart(_)
        )
    }

    /// Whether the block falls when nothing is below it.
    pub open spec fn spec_obeys_gravity(self) -> bool {
        matches!(self, BlockType::Sand | BlockType::Gravel)
    }

    /// Whether the block is water or lava at any level.
    pub open spec fn spec_is_fluid(self) -> bool {
        matches!(self, BlockType::Water(_) | BlockType::Lava(_))
    }

    /// Whether the block is a kind of leaves.
    pub open spec fn spec_is_leaf_block(self) -> bool {
        matches!(self, BlockType::Leaves | BlockType::BirchLeaves)
    }

    /// Whether the farming tick updates the block.
    pub open spec fn spec_participates_in_farming_tick(self) -> bool {
        matches!(
            self,
            BlockType::Farmland(_)
                | BlockType::Crops(_)
                | BlockType::Sapling
                | BlockType::BirchSapling
                | BlockType::SugarCane
                | BlockType::NetherWart(_)
        )
    }

    /// Whether the block breaks when its ground is removed.
    pub open spec fn spec_needs_bottom_support(self) -> bool {
        matches!(
            self,
            BlockType::RedFlower
                | BlockType::YellowFlower
                | BlockType::TallGrass
                | BlockType::DeadBush
                | BlockType::Crops(_)
                | BlockType::Sapling
                | BlockType::BirchSapling
                | BlockType::SugarCane
                | BlockType::NetherWart(_)
                | BlockType::Cactus
        )
    }

    /// Whether the redstone tick updates the block.
    pub open spec fn spec_participates_in_redstone_tick(self) -> bool {
        matches!(
            self,
            BlockType::StoneButton(_)
                | BlockType::RedstoneTorch(_)
                | BlockType::RedstoneRepeater { .. }
                | BlockType::RedstoneDust(_)
                | BlockType::Tnt
                | BlockType::PrimedTnt(_)
                | BlockType::Piston { .. }
                | BlockType::StickyPiston { .. }
        )
    }

    /// Whether a pickaxe mines the block faster.
    pub open spec fn spec_is_pickaxe_effective(self) -> bool {
        matches!(
            self,
            BlockType::Stone
                | BlockType::StoneBricks
                | BlockType::CoalOre
                | BlockType::IronOre
                | BlockType::RedstoneOre
                | BlockType::GoldOre
                | BlockType::DiamondOre
                | BlockType::Ice
                | BlockType::Cobblestone
                | BlockType::Obsidian
                | BlockType::Furnace
                | BlockType::Netherrack
                | BlockType::EndStone
                | BlockType::Glass
                | BlockType::StoneSlab
                | BlockType::StoneStairs
                | BlockType::SilverfishSpawner
                | BlockType::BlazeSpawner
                | BlockType::ZombieSpawner
                | BlockType::SkeletonSpawner
                | BlockType::Piston { .. }
                | BlockType::StickyPiston { .. }
                | BlockType::EnchantingTable
                | BlockType::Anvil
                | BlockType::BrewingStand
        )
    }

    /// Whether an axe mines the block faster.
    pub open spec fn spec_is_axe_effective(self) -> bool {
        matches!(
            self,
            BlockType::Wood
                | BlockType::BirchWood
                | BlockType::Planks
                | BlockType::CraftingTable
                | BlockType::Bed
                | BlockType::Chest
                | BlockType::Wool
                | BlockType::WoodDoor(_)
                | BlockType::Ladder
                | BlockType::Bookshelf
        )
    }

    /// Whether a shovel mines the block faster.
    pub open spec fn spec_is_shovel_effective(self) -> bool {
        matches!(
            self,
            BlockType::Dirt
                | BlockType::Grass
                | BlockType::Sand
                | BlockType::Gravel
                | BlockType::Farmland(_)
                | BlockType::SoulSand
                | BlockType::Snow
        )
    }

    /// Lowest pickaxe tier that harvests the block (0: any tool; 255: never).
    pub fn required_tool_level(&self) -> (r: u8)
        ensures
            r == self.spec_required_tool_level(),
    {
        match self {
            BlockType::Stone
            | BlockType::StoneBricks
            | BlockType::CoalOre
            | BlockType::Furnace
            | BlockType::Ice
            | BlockType::Cobblestone
            | BlockType::Netherrack
            | BlockType::EndStone
            | BlockType::SilverfishSpawner
            | BlockType::BlazeSpawner
            | BlockType::ZombieSpawner
            | BlockType::SkeletonSpawner
            | BlockType::Piston { .. }
            | BlockType::StickyPiston { .. }
            | BlockType::StoneSlab
            | BlockType::StoneStairs
            | BlockType::EnchantingTable
            | BlockType::Anvil
            | BlockType::BrewingStand => 1,
            BlockType::IronDoor(_) => 2,
            BlockType::EndPortalFrame { .. } => 4,
            BlockType::IronOre => 2,
            BlockType::RedstoneOre => 3,
            BlockType::GoldOre | BlockType::DiamondOre => 3,
            BlockType::Obsidian => 4, 
            BlockType::Bedrock => 255,
            _ => 0,
        }
    }

    /// Whether the block may rest on `ground`.
    pub fn can_stay_on(&self, ground: BlockType) -> (r: bool)
        ensures
            r == self.spec_can_stay_on(ground),
    {
        match self {
            BlockType::RedFlower | BlockType::YellowFlower | BlockType::TallGrass => {
                matches!(
                    ground,
                    BlockType::Grass | BlockType::Dirt | BlockType::Farmland(_)
                )
            }
            BlockType::DeadBush => {
                matches!(ground, BlockType::Sand | BlockType::Dirt | BlockType::Grass)
            }
            BlockType::Crops(_) => matches!(ground, BlockType::Farmland(_)),
            BlockType::Sapling | BlockType::BirchSapling => {
                matches!(ground, BlockType::Grass | BlockType::Dirt)
            }
            BlockType::NetherWart(_) => matches!(ground, BlockType::SoulSand),
            BlockType::SugarCane => matches!(
                ground,
                BlockType::Grass | BlockType::Dirt | BlockType::Sand | BlockType::SugarCane
            ),
            BlockType::Cactus => matches!(ground, BlockType::Sand | BlockType::Cactus),
            _ => true,
        }
    }

    /// Mining hardness in tenths of a unit (the hardness scale is decimal
    /// with one fractional digit); -10 marks an unbreakable block.
    pub fn hardness_tenths(&self) -> (r: i32)
        ensures
            r == self.spec_hardness_tenths(),
    {
        match self {
            BlockType::Air
            | BlockType::Torch
            | BlockType::Lever(_)
            | BlockType::StoneButton(_)
            | BlockType::RedstoneTorch(_)
            | BlockType::RedstoneRepeater { .. }
            | BlockType::RedFlower
            | BlockType::YellowFlower
            | BlockType::TallGrass
            | BlockType::Crops(_)
            | BlockType::DeadBush
            | BlockType::RedstoneDust(_)
            | BlockType::NetherPortal
            | BlockType::EndPortal
            | BlockType::Tnt
            | BlockType::PrimedTnt(_)
            | BlockType::Water(_)
            | BlockType::Lava(_)
            | BlockType::Sapling
            | BlockType::BirchSapling
            | BlockType::SugarCane
            | BlockType::NetherWart(_) => 0,
            BlockType::Ladder => 4,
            BlockType::Glass => 3,
            BlockType::IronDoor(_) => 50,
            BlockType::WoodDoor(_) => 30,
            BlockType::SilverfishSpawner => 50,
            BlockType::BlazeSpawner => 50,
            BlockType::ZombieSpawner => 50,
            BlockType::SkeletonSpawner => 50,
            BlockType::Anvil => 50,
            BlockType::Glowstone => 3,
            BlockType::Bed => 2,
            BlockType::Chest => 25,
            BlockType::Wool => 8,
            BlockType::EnchantingTable => 50,
            BlockType::BrewingStand => 5,
            BlockType::Leaves | BlockType::BirchLeaves | BlockType::Snow => 2,
            BlockType::Dirt | BlockType::Grass | BlockType::Sand | BlockType::Farmland(_) => 5,
            BlockType::SoulSand => 6,
            BlockType::Gravel => 6,
            BlockType::Wood
            | BlockType::BirchWood
            | BlockType::Planks
            | BlockType::CraftingTable
            | BlockType::Furnace
            | BlockType::Bookshelf => 20,
            BlockType::Stone
            | BlockType::StoneBricks
            | BlockType::CoalOre
            | BlockType::Ice
            | BlockType::Cobblestone
            | BlockType::Netherrack
            | BlockType::EndStone
            | BlockType::StoneSlab
            | BlockType::StoneStairs
            | BlockType::Piston { .. }
            | BlockType::StickyPiston { .. } => 15,
            BlockType::EndPortalFrame { .. } => 80,
            BlockType::IronOre => 30,
            BlockType::RedstoneOre => 30,
            BlockType::GoldOre => 30,
            BlockType::DiamondOre => 40,
            BlockType::Obsidian => 100, 
            BlockType::Cactus => 4,
            BlockType::Bedrock => -10i32,
        }
    }

    /// Whether entities collide with the block.
    pub fn is_solid(&self) -> (r: bool)
        ensures
            r == self.spec_is_solid(),
    {
        !matches!(
            self,
            BlockType::Air
                | BlockType::Leaves
                | BlockType::BirchLeaves
                | BlockType::Torch
                | BlockType::Lever(_)
                | BlockType::StoneButton(_)
                | BlockType::RedstoneTorch(_)
                | BlockType::RedstoneRepeater { .. }
                | BlockType::RedFlower
                | BlockType::YellowFlower
                | BlockType::TallGrass
                | BlockType::RedstoneDust(_)
                | BlockType::NetherPortal
                | BlockType::EndPortal
                | BlockType::PrimedTnt(_)
                | BlockType::IronDoor(true)
                | BlockType::WoodDoor(true)
                | BlockType::Crops(_)
                | BlockType::DeadBush
                | BlockType::Ladder
                | BlockType::Water(_)
                | BlockType::Lava(_)
                | BlockType::Sapling
                | BlockType::BirchSapling
                | BlockType::SugarCane
                | BlockType::NetherWart(_)
        )
    }

    /// Whether placing another block may overwrite this one.
    pub fn is_replaceable(&self) -> (r: bool)
        ensures
            r == self.spec_is_replaceable(),
    {
        matches!(
            self,
            BlockType::Air
                | BlockType::Torch
                | BlockType::Lever(_)
                | BlockType::StoneButton(_)
                | BlockType::RedstoneTorch(_)
                | BlockType::RedstoneRepeater { .. }
                | BlockType::RedFlower
                | BlockType::YellowFlower
                | BlockType::TallGrass
                | BlockType::Crops(_)
                | BlockType::DeadBush
                | BlockType::Ladder
                | BlockType::RedstoneDust(_)
                | BlockType::Water(_)
                | BlockType::Lava(_)
                | BlockType::Sapling
                | BlockType::BirchSapling
                | BlockType::NetherWart(_)
        )
    }

    /// Whether the block falls when nothing is below it.
    pub fn obeys_gravity(&self) -> (r: bool)
        ensures
            r == self.spec_obeys_gravity(),
    {
        matches!(self, BlockType::Sand | BlockType::Gravel)
    }

    /// Whether the block is water or lava at any level.
    pub fn is_fluid(&self) -> (r: bool)
        ensures
            r == self.spec_is_fluid(),
    {
        matches!(self, BlockType::Water(_) | BlockType::Lava(_))
    }

    /// Whether the block is a kind of leaves.
    pub fn is_leaf_block(&self) -> (r: bool)
        ensures
            r == self.spec_is_leaf_block(),
    {
        matches!(self, BlockType::Leaves | BlockType::BirchLeaves)
    }

    /// Whether the farming tick updates the block.
    pub fn participates_in_farming_tick(&self) -> (r: bool)
        ensures
            r == self.spec_participates_in_farming_tick(),
    {
        matches!(
            self,
            BlockType::Farmland(_)
                | BlockType::Crops(_)
                | BlockType::Sapling
                | BlockType::BirchSapling
                | BlockType::SugarCane
                | BlockType::NetherWart(_)
        )
    }

    /// Whether the block breaks when its ground is removed.
    pub fn needs_bottom_support(&self) -> (r: bool)
        ensures
            r == self.spec_needs_bottom_support(),
    {
        matches!(
            self,
            BlockType::RedFlower
                | BlockType::YellowFlower
                | BlockType::TallGrass
                | BlockType::DeadBush
                | BlockType::Crops(_)
                | BlockType::Sapling
                | BlockType::BirchSapling
                | BlockType::SugarCane
                | BlockType::NetherWart(_)
                | BlockType::Cactus
        )
    }

    /// Whether the redstone tick updates the block.
    pub fn participates_in_redstone_tick(&self) -> (r: bool)
        ensures
            r == self.spec_participates_in_redstone_tick(),
    {
        matches!(
            self,
            BlockType::StoneButton(_)
                | BlockType::RedstoneTorch(_)
                | BlockType::RedstoneRepeater { .. }
                | BlockType::RedstoneDust(_)
                | BlockType::Tnt
                | BlockType::PrimedTnt(_)
                | BlockType::Piston { .. }
                | BlockType::StickyPiston { .. }
        )
    }

    /// Whether a pickaxe mines the block faster.
    pub fn is_pickaxe_effective(&self) -> (r: bool)
        ensures
            r == self.spec_is_pickaxe_effective(),
    {
        matches!(
            self,
            BlockType::Stone
                | BlockType::StoneBricks
                | BlockType::CoalOre
                | BlockType::IronOre
                | BlockType::RedstoneOre
                | BlockType::GoldOre
                | BlockType::DiamondOre
                | BlockType::Ice
                | BlockType::Cobblestone
                | BlockType::Obsidian
                | BlockType::Furnace
                | BlockType::Netherrack
                | BlockType::EndStone
                | BlockType::Glass
                | BlockType::StoneSlab
                | BlockType::StoneStairs
                | BlockType::SilverfishSpawner
                | BlockType::BlazeSpawner
                | BlockType::ZombieSpawner
                | BlockType::SkeletonSpawner
                | BlockType::Piston { .. }
                | BlockType::StickyPiston { .. }
                | BlockType::EnchantingTable
                | BlockType::Anvil
                | BlockType::BrewingStand
        )
    }

    /// Whether an axe mines the block faster.
    pub fn is_axe_effective(&self) -> (r: bool)
        ensures
            r == self.spec_is_axe_effective(),
    {
        matches!(
            self,
            BlockType::Wood
                | BlockType::BirchWood
                | BlockType::Planks
                | BlockType::CraftingTable
                | BlockType::Bed
                | BlockType::Chest
                | BlockType::Wool
                | BlockType::WoodDoor(_)
                | BlockType::Ladder
                | BlockType::Bookshelf
        )
    }

    /// Whether a shovel mines the block faster.
    pub fn is_shovel_effective(&self) -> (r: bool)
        ensures
            r == self.spec_is_shovel_effective(),
    {
        matches!(
            self,
            BlockType::Dirt
                | BlockType::Grass
                | BlockType::Sand
                | BlockType::Gravel
                | BlockType::Farmland(_)
                | BlockType::SoulSand
                | BlockType::Snow
        )
    }
}


/// Fluids never block movement and may always be built over.
pub proof fn law_fluids_are_passable(b: BlockType)
    ensures
        b.spec_is_fluid() ==> b.spec_is_replaceable() && !b.spec_is_solid(),
{
}

/// No block favours two tool families: pickaxe, axe and shovel blocks are
/// disjoint.
pub proof fn law_tool_families_disjoint(b: BlockType)
    ensures
        !(b.spec_is_pickaxe_effective() && b.spec_is_axe_effective()),
        !(b.spec_is_pickaxe_effective() && b.spec_is_shovel_effective()),
        !(b.spec_is_axe_effective() && b.spec_is_shovel_effective()),
{
}

/// Blocks that fall are solid and dug with a shovel.
pub proof fn law_falling_blocks_are_shovel_blocks(b: BlockType)
    ensures
        b.spec_obeys_gravity() ==> b.spec_is_solid() && b.spec_is_shovel_effective(),
{
}

/// A block that does not need support can stay on any ground.
pub proof fn law_unsupported_blocks_stay_anywhere(b: BlockType, ground: BlockType)
    ensures
        !b.spec_needs_bottom_support() ==> b.spec_can_stay_on(ground),
{
}

} // verus!
