use vstd::prelude::*;
use super::block::BlockType;
pub use super::inventory::{Inventory, ItemStack};
pub use super::recipe::{Recipe, RecipeShape};

verus! {

/// Everything that can sit in an inventory slot. The declaration order is the
/// order in which ingredient lists are sorted.
#[derive(Clone, Copy, PartialEq, Eq, Hash, PartialOrd, Ord, Debug, Structural)]
pub enum ItemType {
    Dirt,
    Grass,
    Stone,
    Wood,
    Leaves,
    Stick,
    WoodPickaxe,
    StonePickaxe,
    IronPickaxe,
    DiamondPickaxe,
    Coal,
    Sand,
    Gravel,
    Planks,
    CraftingTable,
    IronIngot,
    Diamond,
    Torch,
    Lever,
    StoneButton,
    RedstoneTorch,
    Furnace,
    RawIron,
    RawGold,
    GoldIngot,
    WoodSword,
    StoneSword,
    IronSword,
    DiamondSword,
    WoodHoe,
    StoneHoe,
    IronHoe,
    DiamondHoe,
    WheatSeeds,
    Wheat,
    Bread,
    RawBeef,
    CookedBeef,
    RottenFlesh,
    Bone,
    Arrow,
    Bow,
    Gunpowder,
    String,
    Leather,
    Wool,
    RawMutton,
    CookedMutton,
    // Biome Items
    Snow,
    Ice,
    Cactus,
    DeadBush,
    BirchWood,
    BirchLeaves,
    RedFlower,
    YellowFlower,
    TallGrass,
    // New Items
    WaterBucket,
    LavaBucket,
    Cobblestone,
    Obsidian,
    RedstoneDust,
    Netherrack,
    SoulSand,
    Glowstone,
    Tnt,
    Piston,
    EndStone,
    EyeOfEnder,
    EnderPearl,
    BlazeRod,
    BlazePowder,
    Bed,
    Chest,
    // Appended variants to preserve bincode enum compatibility for existing saves.
    WoodAxe,
    StoneAxe,
    IronAxe,
    DiamondAxe,
    WoodShovel,
    StoneShovel,
    IronShovel,
    DiamondShovel,
    Glass,
    WoodDoor,
    Ladder,
    StoneSlab,
    StoneStairs,
    LeatherHelmet,
    LeatherChestplate,
    LeatherLeggings,
    LeatherBoots,
    IronHelmet,
    IronChestplate,
    IronLeggings,
    IronBoots,
    DiamondHelmet,
    DiamondChestplate,
    DiamondLeggings,
    DiamondBoots,
    Slimeball,
    RawPorkchop,
    CookedPorkchop,
    RawChicken,
    CookedChicken,
    Feather,
    Egg,
    EnchantingTable,
    Anvil,
    BrewingStand,
    GlassBottle,
    WaterBottle,
    NetherWart,
    AwkwardPotion,
    PotionHealing,
    PotionStrength,
    PotionRegeneration,
    PotionFireResistance,
    GhastTear,
    MagmaCream,
    FishingRod,
    RawFish,
    CookedFish,
    RedstoneRepeater,
    // Appended to preserve bincode enum compatibility for existing saves.
    Bucket,
    Sapling,
    BoneMeal,
    Flint,
    FlintAndSteel,
    Shears,
    SugarCane,
    Paper,
    Book,
    Bookshelf,
    Boat,
    BirchSapling,
}

impl ItemType {

    /// The item a mined block yields, if any.
    pub open spec fn spec_from_block(block: BlockType) -> Option<ItemType> {
        match block {
            BlockType::Air => None,
            BlockType::Dirt | BlockType::Grass => Some(ItemType::Dirt),
            BlockType::Stone => Some(ItemType::Cobblestone),
            BlockType::StoneBricks => Some(ItemType::Cobblestone),
            BlockType::Wood => Some(ItemType::Wood),
            BlockType::Leaves => Some(ItemType::Leaves),
            BlockType::IronOre => Some(ItemType::RawIron),
            BlockType::GoldOre => Some(ItemType::RawGold),
            BlockType::DiamondOre => Some(ItemType::Diamond),
            BlockType::CoalOre => Some(ItemType::Coal),
            BlockType::RedstoneOre => Some(ItemType::RedstoneDust),
            BlockType::Sand => Some(ItemType::Sand),
            BlockType::Gravel => Some(ItemType::Gravel),
            BlockType::Planks => Some(ItemType::Planks),
            BlockType::CraftingTable => Some(ItemType::CraftingTable),
            BlockType::Torch => Some(ItemType::Torch),
            BlockType::Lever(_) => Some(ItemType::Lever),
            BlockType::StoneButton(_) => Some(ItemType::StoneButton),
            BlockType::RedstoneTorch(_) => Some(ItemType::RedstoneTorch),
            BlockType::Furnace => Some(ItemType::Furnace),
            BlockType::Snow => Some(ItemType::Snow),
            BlockType::Ice => Some(ItemType::Ice),
            BlockType::Cactus => Some(ItemType::Cactus),
            BlockType::DeadBush => Some(ItemType::Stick),
            BlockType::BirchWood => Some(ItemType::BirchWood),
            BlockType::BirchLeaves => Some(ItemType::BirchLeaves),
            BlockType::RedFlower => Some(ItemType::RedFlower),
            BlockType::YellowFlower => Some(ItemType::YellowFlower),
            BlockType::Water(_) | BlockType::Lava(_) => None,
            BlockType::Cobblestone => Some(ItemType::Cobblestone),
            BlockType::Obsidian => Some(ItemType::Obsidian),
            BlockType::RedstoneDust(_) => Some(ItemType::RedstoneDust),
            BlockType::Netherrack => Some(ItemType::Netherrack),
            BlockType::SoulSand => Some(ItemType::SoulSand),
            BlockType::Glowstone => Some(ItemType::Glowstone),
            BlockType::EndStone => Some(ItemType::EndStone),
            BlockType::Tnt => Some(ItemType::Tnt),
            BlockType::Piston { .. } | BlockType::StickyPiston { .. } => Some(ItemType::Piston),
            BlockType::Bed => Some(ItemType::Bed),
            BlockType::Chest => Some(ItemType::Chest),
            BlockType::Glass => Some(ItemType::Glass),
            BlockType::WoodDoor(_) => Some(ItemType::WoodDoor),
            BlockType::Ladder => Some(ItemType::Ladder),
            BlockType::StoneSlab => Some(ItemType::StoneSlab),
            BlockType::StoneStairs => Some(ItemType::StoneStairs),
            BlockType::EnchantingTable => Some(ItemType::EnchantingTable),
            BlockType::Anvil => Some(ItemType::Anvil),
            BlockType::BrewingStand => Some(ItemType::BrewingStand),
            BlockType::RedstoneRepeater { .. } => Some(ItemType::RedstoneRepeater),
            BlockType::Wool => Some(ItemType::Wool),
            BlockType::Sapling => Some(ItemType::Sapling),
            BlockType::BirchSapling => Some(ItemType::BirchSapling),
            BlockType::SugarCane => Some(ItemType::SugarCane),
            BlockType::Bookshelf => Some(ItemType::Bookshelf),
            BlockType::NetherWart(_) => Some(ItemType::NetherWart),
            BlockType::Farmland(_) => Some(ItemType::Dirt),
            BlockType::Crops(7) => Some(ItemType::Wheat),
            BlockType::Crops(_) => Some(ItemType::WheatSeeds),
            BlockType::TallGrass
            | BlockType::Bedrock
            | BlockType::PrimedTnt(_)
            | BlockType::NetherPortal
            | BlockType::EndPortalFrame { .. }
            | BlockType::EndPortal
            | BlockType::IronDoor(_)
            | BlockType::SilverfishSpawner
            | BlockType::BlazeSpawner
            | BlockType::ZombieSpawner
            | BlockType::SkeletonSpawner => None,
        }
    }

    /// The block an item places, if any.
    pub open spec fn spec_to_block(self) -> Option<BlockType> {
        match self {
            ItemType::Dirt => Some(BlockType::Dirt),
            ItemType::Grass => Some(BlockType::Grass),
            ItemType::Stone => Some(BlockType::Stone),
            ItemType::Wood => Some(BlockType::Wood),
            ItemType::Leaves => Some(BlockType::Leaves),
            ItemType::Sand => Some(BlockType::Sand),
            ItemType::Gravel => Some(BlockType::Gravel),
            ItemType::Planks => Some(BlockType::Planks),
            ItemType::CraftingTable => Some(BlockType::CraftingTable),
            ItemType::Torch => Some(BlockType::Torch),
            ItemType::Lever => Some(BlockType::Lever(false)),
            ItemType::StoneButton => Some(BlockType::StoneButton(0)),
            ItemType::RedstoneTorch => Some(BlockType::RedstoneTorch(true)),
            ItemType::Furnace => Some(BlockType::Furnace),
            ItemType::RedstoneDust => Some(BlockType::RedstoneDust(0)),
            ItemType::Snow => Some(BlockType::Snow),
            ItemType::Ice => Some(BlockType::Ice),
            ItemType::Cactus => Some(BlockType::Cactus),
            ItemType::DeadBush => Some(BlockType::DeadBush),
            ItemType::BirchWood => Some(BlockType::BirchWood),
            ItemType::BirchLeaves => Some(BlockType::BirchLeaves),
            ItemType::RedFlower => Some(BlockType::RedFlower),
            ItemType::YellowFlower => Some(BlockType::YellowFlower),
            ItemType::TallGrass => Some(BlockType::TallGrass),
            ItemType::WaterBucket => Some(BlockType::Water(8)),
            ItemType::LavaBucket => Some(BlockType::Lava(8)),
            ItemType::Cobblestone => Some(BlockType::Cobblestone),
            ItemType::Obsidian => Some(BlockType::Obsidian),
            ItemType::Netherrack => Some(BlockType::Netherrack),
            ItemType::SoulSand => Some(BlockType::SoulSand),
            ItemType::Glowstone => Some(BlockType::Glowstone),
            ItemType::EndStone => Some(BlockType::EndStone),
            ItemType::WheatSeeds => Some(BlockType::Crops(0)),
            ItemType::Tnt => Some(BlockType::Tnt),
            ItemType::Piston => Some(BlockType::Piston {
                extended: false,
                facing_right: true,
            }),
            ItemType::Bed => Some(BlockType::Bed),
            ItemType::Chest => Some(BlockType::Chest),
            ItemType::Glass => Some(BlockType::Glass),
            ItemType::Wool => Some(BlockType::Wool),
            ItemType::Sapling => Some(BlockType::Sapling),
            ItemType::BirchSapling => Some(BlockType::BirchSapling),
            ItemType::SugarCane => Some(BlockType::SugarCane),
            ItemType::Bookshelf => Some(BlockType::Bookshelf),
            ItemType::NetherWart => Some(BlockType::NetherWart(0)),
            ItemType::WoodDoor => Some(BlockType::WoodDoor(false)),
            ItemType::Ladder => Some(BlockType::Ladder),
            ItemType::StoneSlab => Some(BlockType::StoneSlab),
            ItemType::StoneStairs => Some(BlockType::StoneStairs),
            ItemType::EnchantingTable => Some(BlockType::EnchantingTable),
            ItemType::Anvil => Some(BlockType::Anvil),
            ItemType::BrewingStand => Some(BlockType::BrewingStand),
            ItemType::RedstoneRepeater => Some(BlockType::RedstoneRepeater {
                powered: false,
                delay: 1,
                facing_right: true,
                timer: 0,
                target_powered: false,
            }),
            _ => None,
        }
    }

    /// The display name of the item.
    pub open spec fn spec_name(self) -> Seq<char> {
        match self {
            ItemType::Dirt => "Dirt"@,
            ItemType::Grass => "Grass"@,
            ItemType::Stone => "Stone"@,
            ItemType::Wood => "Wood"@,
            ItemType::Leaves => "Leaves"@,
            ItemType::Stick => "Stick"@,
            ItemType::WoodPickaxe => "Wood Pickaxe"@,
            ItemType::StonePickaxe => "Stone Pickaxe"@,
            ItemType::IronPickaxe => "Iron Pickaxe"@,
            ItemType::DiamondPickaxe => "Diamond Pickaxe"@,
            ItemType::Coal => "Coal"@,
            ItemType::Sand => "Sand"@,
            ItemType::Gravel => "Gravel"@,
            ItemType::Planks => "Planks"@,
            ItemType::CraftingTable => "Crafting Table"@,
            ItemType::IronIngot => "Iron Ingot"@,
            ItemType::Diamond => "Diamond"@,
            ItemType::RedstoneDust => "Redstone Dust"@,
            ItemType::Torch => "Torch"@,
            ItemType::Lever => "Lever"@,
            ItemType::StoneButton => "Stone Button"@,
            ItemType::RedstoneTorch => "Redstone Torch"@,
            ItemType::Furnace => "Furnace"@,
            ItemType::RawIron => "Raw Iron"@,
            ItemType::RawGold => "Raw Gold"@,
            ItemType::GoldIngot => "Gold Ingot"@,
            ItemType::Snow => "Snow"@,
            ItemType::Ice => "Ice"@,
            ItemType::Cactus => "Cactus"@,
            ItemType::DeadBush => "Dead Bush"@,
            ItemType::BirchWood => "Birch Wood"@,
            ItemType::BirchLeaves => "Birch Leaves"@,
            ItemType::RedFlower => "Red Flower"@,
            ItemType::YellowFlower => "Yellow Flower"@,
            ItemType::TallGrass => "Tall Grass"@,
            ItemType::Sapling => "Sapling"@,
            ItemType::BoneMeal => "Bone Meal"@,
            ItemType::Flint => "Flint"@,
            ItemType::FlintAndSteel => "Flint and Steel"@,
            ItemType::Shears => "Shears"@,
            ItemType::SugarCane => "Sugar Cane"@,
            ItemType::Paper => "Paper"@,
            ItemType::Book => "Book"@,
            ItemType::Bookshelf => "Bookshelf"@,
            ItemType::Boat => "Boat"@,
            ItemType::BirchSapling => "Birch Sapling"@,
            ItemType::Bucket => "Bucket"@,
            ItemType::WaterBucket => "Water Bucket"@,
            ItemType::LavaBucket => "Lava Bucket"@,
            ItemType::Cobblestone => "Cobblestone"@,
            ItemType::Obsidian => "Obsidian"@,
            ItemType::Netherrack => "Netherrack"@,
            ItemType::SoulSand => "Soul Sand"@,
            ItemType::Glowstone => "Glowstone"@,
            ItemType::EndStone => "End Stone"@,
            ItemType::Tnt => "TNT"@,
            ItemType::Piston => "Piston"@,
            ItemType::WoodSword => "Wood Sword"@,
            ItemType::StoneSword => "Stone Sword"@,
            ItemType::IronSword => "Iron Sword"@,
            ItemType::DiamondSword => "Diamond Sword"@,
            ItemType::WoodHoe => "Wood Hoe"@,
            ItemType::StoneHoe => "Stone Hoe"@,
            ItemType::IronHoe => "Iron Hoe"@,
            ItemType::DiamondHoe => "Diamond Hoe"@,
            ItemType::WheatSeeds => "Seeds"@,
            ItemType::Wheat => "Wheat"@,
            ItemType::Bread => "Bread"@,
            ItemType::RawBeef => "Raw Beef"@,
            ItemType::CookedBeef => "Cooked Beef"@,
            ItemType::RottenFlesh => "Rotten Flesh"@,
            ItemType::Bone => "Bone"@,
            ItemType::Arrow => "Arrow"@,
            ItemType::Bow => "Bow"@,
            ItemType::EyeOfEnder => "Eye of Ender"@,
            ItemType::EnderPearl => "Ender Pearl"@,
            ItemType::BlazeRod => "Blaze Rod"@,
            ItemType::BlazePowder => "Blaze Powder"@,
            ItemType::Bed => "Bed"@,
            ItemType::Chest => "Chest"@,
            ItemType::WoodAxe => "Wood Axe"@,
            ItemType::StoneAxe => "Stone Axe"@,
            ItemType::IronAxe => "Iron Axe"@,
            ItemType::DiamondAxe => "Diamond Axe"@,
            ItemType::WoodShovel => "Wood Shovel"@,
            ItemType::StoneShovel => "Stone Shovel"@,
            ItemType::IronShovel => "Iron Shovel"@,
            ItemType::DiamondShovel => "Diamond Shovel"@,
            ItemType::Glass => "Glass"@,
            ItemType::WoodDoor => "Wood Door"@,
            ItemType::Ladder => "Ladder"@,
            ItemType::StoneSlab => "Stone Slab"@,
            ItemType::StoneStairs => "Stone Stairs"@,
            ItemType::LeatherHelmet => "Leather Helmet"@,
            ItemType::LeatherChestplate => "Leather Chestplate"@,
            ItemType::LeatherLeggings => "Leather Leggings"@,
            ItemType::LeatherBoots => "Leather Boots"@,
            ItemType::IronHelmet => "Iron Helmet"@,
            ItemType::IronChestplate => "Iron Chestplate"@,
            ItemType::IronLeggings => "Iron Leggings"@,
            ItemType::IronBoots => "Iron Boots"@,
            ItemType::DiamondHelmet => "Diamond Helmet"@,
            ItemType::DiamondChestplate => "Diamond Chestplate"@,
            ItemType::DiamondLeggings => "Diamond Leggings"@,
            ItemType::DiamondBoots => "Diamond Boots"@,
            ItemType::Slimeball => "Slimeball"@,
            ItemType::Gunpowder => "Gunpowder"@,
            ItemType::String => "String"@,
            ItemType::Leather => "Leather"@,
            ItemType::Wool => "Wool"@,
            ItemType::RawMutton => "Raw Mutton"@,
            ItemType::CookedMutton => "Cooked Mutton"@,
            ItemType::RawPorkchop => "Raw Porkchop"@,
            ItemType::CookedPorkchop => "Cooked Porkchop"@,
            ItemType::RawChicken => "Raw Chicken"@,
            ItemType::CookedChicken => "Cooked Chicken"@,
            ItemType::Feather => "Feather"@,
            ItemType::Egg => "Egg"@,
            ItemType::EnchantingTable => "Enchanting Table"@,
            ItemType::Anvil => "Anvil"@,
            ItemType::BrewingStand => "Brewing Stand"@,
            ItemType::GlassBottle => "Glass Bottle"@,
            ItemType::WaterBottle => "Water Bottle"@,
            ItemType::NetherWart => "Nether Wart"@,
            ItemType::AwkwardPotion => "Awkward Potion"@,
            ItemType::PotionHealing => "Potion of Healing"@,
            ItemType::PotionStrength => "Potion of Strength"@,
            ItemType::PotionRegeneration => "Potion of Regeneration"@,
            ItemType::PotionFireResistance => "Potion of Fire Resistance"@,
            ItemType::GhastTear => "Ghast Tear"@,
            ItemType::MagmaCream => "Magma Cream"@,
            ItemType::FishingRod => "Fishing Rod"@,
            ItemType::RawFish => "Raw Fish"@,
            ItemType::CookedFish => "Cooked Fish"@,
            ItemType::RedstoneRepeater => "Redstone Repeater"@,
        }
    }

    /// Material tier of a tool (wood 1 .. diamond 4); 0 for other items.
    pub open spec fn spec_material_tier(self) -> u8 {
        match self {
            ItemType::WoodPickaxe
            | ItemType::WoodAxe
            | ItemType::WoodShovel
            | ItemType::WoodHoe => 1,
            ItemType::StonePickaxe
            | ItemType::StoneAxe
            | ItemType::StoneShovel
            | ItemType::StoneHoe => 2,
            ItemType::IronPickaxe
            | ItemType::IronAxe
            | ItemType::IronShovel
            | ItemType::IronHoe => 3,
            ItemType::DiamondPickaxe
            | ItemType::DiamondAxe
            | ItemType::DiamondShovel
            | ItemType::DiamondHoe => 4,
            _ => 0,
        }
    }

    /// Whether the item is a pickaxe.
    pub open spec fn spec_is_pickaxe(self) -> bool {
        matches!(
            self,
            ItemType::WoodPickaxe
                | ItemType::StonePickaxe
                | ItemType::IronPickaxe
                | ItemType::DiamondPickaxe
        )
    }

    /// Whether the item is an axe.
    pub open spec fn spec_is_axe(self) -> bool {
        matches!(
            self,
            ItemType::WoodAxe | ItemType::StoneAxe | ItemType::IronAxe | ItemType::DiamondAxe
        )
    }

    /// Whether the item is a shovel.
    pub open spec fn spec_is_shovel(self) -> bool {
        matches!(
            self,
            ItemType::WoodShovel
                | ItemType::StoneShovel
                | ItemType::IronShovel
                | ItemType::DiamondShovel
        )
    }

    /// Number of uses before a tool or armour piece breaks; None for items that do not wear.
    pub open spec fn spec_max_durability(self) -> Option<u32> {
        match self {
            ItemType::WoodPickaxe
            | ItemType::WoodSword
            | ItemType::WoodHoe
            | ItemType::WoodAxe
            | ItemType::WoodShovel => Some(60),
            ItemType::StonePickaxe
            | ItemType::StoneSword
            | ItemType::StoneHoe
            | ItemType::StoneAxe
            | ItemType::StoneShovel => Some(132),
            ItemType::IronPickaxe
            | ItemType::IronSword
            | ItemType::IronHoe
            | ItemType::IronAxe
            | ItemType::IronShovel => Some(251),
            ItemType::DiamondPickaxe
            | ItemType::DiamondSword
            | ItemType::DiamondHoe
            | ItemType::DiamondAxe
            | ItemType::DiamondShovel => Some(1562),
            ItemType::LeatherHelmet => Some(56),
            ItemType::LeatherChestplate => Some(81),
            ItemType::LeatherLeggings => Some(76),
            ItemType::LeatherBoots => Some(66),
            ItemType::IronHelmet => Some(166),
            ItemType::IronChestplate => Some(241),
            ItemType::IronLeggings => Some(226),
            ItemType::IronBoots => Some(196),
            ItemType::DiamondHelmet => Some(364),
            ItemType::DiamondChestplate => Some(529),
            ItemType::DiamondLeggings => Some(496),
            ItemType::DiamondBoots => Some(430),
            ItemType::Bow => Some(384),
            ItemType::FishingRod => Some(65),
            ItemType::FlintAndSteel => Some(65),
            ItemType::Shears => Some(239),
            _ => None,
        }
    }

    /// Armour slot (0 helmet, 1 chestplate, 2 leggings, 3 boots) of an armour piece.
    pub open spec fn spec_armor_slot_index(self) -> Option<usize> {
        match self {
            ItemType::LeatherHelmet | ItemType::IronHelmet | ItemType::DiamondHelmet => Some(0),
            ItemType::LeatherChestplate
            | ItemType::IronChestplate
            | ItemType::DiamondChestplate => Some(1),
            ItemType::LeatherLeggings | ItemType::IronLeggings | ItemType::DiamondLeggings => {
                Some(2)
            }
            ItemType::LeatherBoots | ItemType::IronBoots | ItemType::DiamondBoots => Some(3),
            _ => None,
        }
    }

    /// Protection an armour piece gives; 0 for other items.
    pub open spec fn spec_armor_points(self) -> u8 {
        match self {
            ItemType::LeatherHelmet => 1,
            ItemType::LeatherChestplate => 3,
            ItemType::LeatherLeggings => 2,
            ItemType::LeatherBoots => 1,
            ItemType::IronHelmet => 2,
            ItemType::IronChestplate => 6,
            ItemType::IronLeggings => 5,
            ItemType::IronBoots => 2,
            ItemType::DiamondHelmet => 3,
            ItemType::DiamondChestplate => 8,
            ItemType::DiamondLeggings => 6,
            ItemType::DiamondBoots => 3,
            _ => 0,
        }
    }

    /// Largest count one slot holds of the item.
    pub open spec fn spec_max_stack_size(self) -> u32 {
        match self {
            ItemType::Bucket
            | ItemType::WaterBucket
            | ItemType::LavaBucket
            | ItemType::FlintAndSteel
            | ItemType::Shears
            | ItemType::Boat => 1,
            ItemType::WaterBottle
            | ItemType::AwkwardPotion
            | ItemType::PotionHealing
            | ItemType::PotionStrength
            | ItemType::PotionRegeneration
            | ItemType::PotionFireResistance => 1,
            _ => 64,
        }
    }

    /// Melee damage dealt with the item in hand, in whole hit points.
    pub open spec fn spec_damage_points(self) -> u32 {
        match self {
            ItemType::WoodSword => 4,
            ItemType::StoneSword => 5,
            ItemType::IronSword => 6,
            ItemType::DiamondSword => 7,
            ItemType::WoodAxe => 3,
            ItemType::StoneAxe => 4,
            ItemType::IronAxe => 5,
            ItemType::DiamondAxe => 6,
            ItemType::WoodPickaxe
            | ItemType::StonePickaxe
            | ItemType::IronPickaxe
            | ItemType::DiamondPickaxe
            | ItemType::WoodShovel
            | ItemType::StoneShovel
            | ItemType::IronShovel
            | ItemType::DiamondShovel => 2,
            ItemType::Bow => 1,
            _ => 1,
        }
    }

    /// Position of the variant in the declaration order.
    pub open spec fn spec_ordinal(self) -> u8 {
        match self {
            ItemType::Dirt => 0,
            ItemType::Grass => 1,
            ItemType::Stone => 2,
            ItemType::Wood => 3,
            ItemType::Leaves => 4,
            ItemType::Stick => 5,
            ItemType::WoodPickaxe => 6,
            ItemType::StonePickaxe => 7,
            ItemType::IronPickaxe => 8,
            ItemType::DiamondPickaxe => 9,
            ItemType::Coal => 10,
            ItemType::Sand => 11,
            ItemType::Gravel => 12,
            ItemType::Planks => 13,
            ItemType::CraftingTable => 14,
            ItemType::IronIngot => 15,
            ItemType::Diamond => 16,
            ItemType::Torch => 17,
            ItemType::Lever => 18,
            ItemType::StoneButton => 19,
            ItemType::RedstoneTorch => 20,
            ItemType::Furnace => 21,
            ItemType::RawIron => 22,
            ItemType::RawGold => 23,
            ItemType::GoldIngot => 24,
            ItemType::WoodSword => 25,
            ItemType::StoneSword => 26,
            ItemType::IronSword => 27,
            ItemType::DiamondSword => 28,
            ItemType::WoodHoe => 29,
            ItemType::StoneHoe => 30,
            ItemType::IronHoe => 31,
            ItemType::DiamondHoe => 32,
            ItemType::WheatSeeds => 33,
            ItemType::Wheat => 34,
            ItemType::Bread => 35,
            ItemType::RawBeef => 36,
            ItemType::CookedBeef => 37,
            ItemType::RottenFlesh => 38,
            ItemType::Bone => 39,
            ItemType::Arrow => 40,
            ItemType::Bow => 41,
            ItemType::Gunpowder => 42,
            ItemType::String => 43,
            ItemType::Leather => 44,
            ItemType::Wool => 45,
            ItemType::RawMutton => 46,
            ItemType::CookedMutton => 47,
            ItemType::Snow => 48,
            ItemType::Ice => 49,
            ItemType::Cactus => 50,
            ItemType::DeadBush => 51,
            ItemType::BirchWood => 52,
            ItemType::BirchLeaves => 53,
            ItemType::RedFlower => 54,
            ItemType::YellowFlower => 55,
            ItemType::TallGrass => 56,
            ItemType::WaterBucket => 57,
            ItemType::LavaBucket => 58,
            ItemType::Cobblestone => 59,
            ItemType::Obsidian => 60,
            ItemType::RedstoneDust => 61,
            ItemType::Netherrack => 62,
            ItemType::SoulSand => 63,
            ItemType::Glowstone => 64,
            ItemType::Tnt => 65,
            ItemType::Piston => 66,
            ItemType::EndStone => 67,
            ItemType::EyeOfEnder => 68,
            ItemType::EnderPearl => 69,
            ItemType::BlazeRod => 70,
            ItemType::BlazePowder => 71,
            ItemType::Bed => 72,
            ItemType::Chest => 73,
            ItemType::WoodAxe => 74,
            ItemType::StoneAxe => 75,
            ItemType::IronAxe => 76,
            ItemType::DiamondAxe => 77,
            ItemType::WoodShovel => 78,
            ItemType::StoneShovel => 79,
            ItemType::IronShovel => 80,
            ItemType::DiamondShovel => 81,
            ItemType::Glass => 82,
            ItemType::WoodDoor => 83,
            ItemType::Ladder => 84,
            ItemType::StoneSlab => 85,
            ItemType::StoneStairs => 86,
            ItemType::LeatherHelmet => 87,
            ItemType::LeatherChestplate => 88,
            ItemType::LeatherLeggings => 89,
            ItemType::LeatherBoots => 90,
            ItemType::IronHelmet => 91,
            ItemType::IronChestplate => 92,
            ItemType::IronLeggings => 93,
            ItemType::IronBoots => 94,
            ItemType::DiamondHelmet => 95,
            ItemType::DiamondChestplate => 96,
            ItemType::DiamondLeggings => 97,
            ItemType::DiamondBoots => 98,
            ItemType::Slimeball => 99,
            ItemType::RawPorkchop => 100,
            ItemType::CookedPorkchop => 101,
            ItemType::RawChicken => 102,
            ItemType::CookedChicken => 103,
            ItemType::Feather => 104,
            ItemType::Egg => 105,
            ItemType::EnchantingTable => 106,
            ItemType::Anvil => 107,
            ItemType::BrewingStand => 108,
            ItemType::GlassBottle => 109,
            ItemType::WaterBottle => 110,
            ItemType::NetherWart => 111,
            ItemType::AwkwardPotion => 112,
            ItemType::PotionHealing => 113,
            ItemType::PotionStrength => 114,
            ItemType::PotionRegeneration => 115,
            ItemType::PotionFireResistance => 116,
            ItemType::GhastTear => 117,
            ItemType::MagmaCream => 118,
            ItemType::FishingRod => 119,
            ItemType::RawFish => 120,
            ItemType::CookedFish => 121,
            ItemType::RedstoneRepeater => 122,
            ItemType::Bucket => 123,
            ItemType::Sapling => 124,
            ItemType::BoneMeal => 125,
            ItemType::Flint => 126,
            ItemType::FlintAndSteel => 127,
            ItemType::Shears => 128,
            ItemType::SugarCane => 129,
            ItemType::Paper => 130,
            ItemType::Book => 131,
            ItemType::Bookshelf => 132,
            ItemType::Boat => 133,
            ItemType::BirchSapling => 134,
        }
    }

    /// The item a mined block yields, if any.
    pub fn from_block(block: BlockType) -> (r: Option<Self>)
        ensures
            r == Self::spec_from_block(block),
    {
        match block {
            BlockType::Air => None,
            BlockType::Dirt | BlockType::Grass => Some(ItemType::Dirt),
            BlockType::Stone => Some(ItemType::Cobblestone),
            BlockType::StoneBricks => Some(ItemType::Cobblestone),
            BlockType::Wood => Some(ItemType::Wood),
            BlockType::Leaves => Some(ItemType::Leaves),
            BlockType::IronOre => Some(ItemType::RawIron),
            BlockType::GoldOre => Some(ItemType::RawGold),
            BlockType::DiamondOre => Some(ItemType::Diamond),
            BlockType::CoalOre => Some(ItemType::Coal),
            BlockType::RedstoneOre => Some(ItemType::RedstoneDust),
            BlockType::Sand => Some(ItemType::Sand),
            BlockType::Gravel => Some(ItemType::Gravel),
            BlockType::Planks => Some(ItemType::Planks),
            BlockType::CraftingTable => Some(ItemType::CraftingTable),
            BlockType::Torch => Some(ItemType::Torch),
            BlockType::Lever(_) => Some(ItemType::Lever),
            BlockType::StoneButton(_) => Some(ItemType::StoneButton),
            BlockType::RedstoneTorch(_) => Some(ItemType::RedstoneTorch),
            BlockType::Furnace => Some(ItemType::Furnace),
            BlockType::Snow => Some(ItemType::Snow),
            BlockType::Ice => Some(ItemType::Ice),
            BlockType::Cactus => Some(ItemType::Cactus),
            BlockType::DeadBush => Some(ItemType::Stick),
            BlockType::BirchWood => Some(ItemType::BirchWood),
            BlockType::BirchLeaves => Some(ItemType::BirchLeaves),
            BlockType::RedFlower => Some(ItemType::RedFlower),
            BlockType::YellowFlower => Some(ItemType::YellowFlower),
            BlockType::Water(_) | BlockType::Lava(_) => None,
            BlockType::Cobblestone => Some(ItemType::Cobblestone),
            BlockType::Obsidian => Some(ItemType::Obsidian),
            BlockType::RedstoneDust(_) => Some(ItemType::RedstoneDust),
            BlockType::Netherrack => Some(ItemType::Netherrack),
            BlockType::SoulSand => Some(ItemType::SoulSand),
            BlockType::Glowstone => Some(ItemType::Glowstone),
            BlockType::EndStone => Some(ItemType::EndStone),
            BlockType::Tnt => Some(ItemType::Tnt),
            BlockType::Piston { .. } | BlockType::StickyPiston { .. } => Some(ItemType::Piston),
            BlockType::Bed => Some(ItemType::Bed),
            BlockType::Chest => Some(ItemType::Chest),
            BlockType::Glass => Some(ItemType::Glass),
            BlockType::WoodDoor(_) => Some(ItemType::WoodDoor),
            BlockType::Ladder => Some(ItemType::Ladder),
            BlockType::StoneSlab => Some(ItemType::StoneSlab),
            BlockType::StoneStairs => Some(ItemType::StoneStairs),
            BlockType::EnchantingTable => Some(ItemType::EnchantingTable),
            BlockType::Anvil => Some(ItemType::Anvil),
            BlockType::BrewingStand => Some(ItemType::BrewingStand),
            BlockType::RedstoneRepeater { .. } => Some(ItemType::RedstoneRepeater),
            BlockType::Wool => Some(ItemType::Wool),
            BlockType::Sapling => Some(ItemType::Sapling),
            BlockType::BirchSapling => Some(ItemType::BirchSapling),
            BlockType::SugarCane => Some(ItemType::SugarCane),
            BlockType::Bookshelf => Some(ItemType::Bookshelf),
            BlockType::NetherWart(_) => Some(ItemType::NetherWart),
            BlockType::Farmland(_) => Some(ItemType::Dirt),
            BlockType::Crops(7) => Some(ItemType::Wheat),
            BlockType::Crops(_) => Some(ItemType::WheatSeeds),
            BlockType::TallGrass
            | BlockType::Bedrock
            | BlockType::PrimedTnt(_)
            | BlockType::NetherPortal
            | BlockType::EndPortalFrame { .. }
            | BlockType::EndPortal
            | BlockType::IronDoor(_)
            | BlockType::SilverfishSpawner
            | BlockType::BlazeSpawner
            | BlockType::ZombieSpawner
            | BlockType::SkeletonSpawner => None,
        }
    }

    /// The block an item places, if any.
    pub fn to_block(&self) -> (r: Option<BlockType>)
        ensures
            r == self.spec_to_block(),
    {
        match self {
            ItemType::Dirt => Some(BlockType::Dirt),
            ItemType::Grass => Some(BlockType::Grass),
            ItemType::Stone => Some(BlockType::Stone),
            ItemType::Wood => Some(BlockType::Wood),
            ItemType::Leaves => Some(BlockType::Leaves),
            ItemType::Sand => Some(BlockType::Sand),
            ItemType::Gravel => Some(BlockType::Gravel),
            ItemType::Planks => Some(BlockType::Planks),
            ItemType::CraftingTable => Some(BlockType::CraftingTable),
            ItemType::Torch => Some(BlockType::Torch),
            ItemType::Lever => Some(BlockType::Lever(false)),
            ItemType::StoneButton => Some(BlockType::StoneButton(0)),
            ItemType::RedstoneTorch => Some(BlockType::RedstoneTorch(true)),
            ItemType::Furnace => Some(BlockType::Furnace),
            ItemType::RedstoneDust => Some(BlockType::RedstoneDust(0)),
            ItemType::Snow => Some(BlockType::Snow),
            ItemType::Ice => Some(BlockType::Ice),
            ItemType::Cactus => Some(BlockType::Cactus),
            ItemType::DeadBush => Some(BlockType::DeadBush),
            ItemType::BirchWood => Some(BlockType::BirchWood),
            ItemType::BirchLeaves => Some(BlockType::BirchLeaves),
            ItemType::RedFlower => Some(BlockType::RedFlower),
            ItemType::YellowFlower => Some(BlockType::YellowFlower),
            ItemType::TallGrass => Some(BlockType::TallGrass),
            ItemType::WaterBucket => Some(BlockType::Water(8)),
            ItemType::LavaBucket => Some(BlockType::Lava(8)),
            ItemType::Cobblestone => Some(BlockType::Cobblestone),
            ItemType::Obsidian => Some(BlockType::Obsidian),
            ItemType::Netherrack => Some(BlockType::Netherrack),
            ItemType::SoulSand => Some(BlockType::SoulSand),
            ItemType::Glowstone => Some(BlockType::Glowstone),
            ItemType::EndStone => Some(BlockType::EndStone),
            ItemType::WheatSeeds => Some(BlockType::Crops(0)),
            ItemType::Tnt => Some(BlockType::Tnt),
            ItemType::Piston => Some(BlockType::Piston {
                extended: false,
                facing_right: true,
            }),
            ItemType::Bed => Some(BlockType::Bed),
            ItemType::Chest => Some(BlockType::Chest),
            ItemType::Glass => Some(BlockType::Glass),
            ItemType::Wool => Some(BlockType::Wool),
            ItemType::Sapling => Some(BlockType::Sapling),
            ItemType::BirchSapling => Some(BlockType::BirchSapling),
            ItemType::SugarCane => Some(BlockType::SugarCane),
            ItemType::Bookshelf => Some(BlockType::Bookshelf),
            ItemType::NetherWart => Some(BlockType::NetherWart(0)),
            ItemType::WoodDoor => Some(BlockType::WoodDoor(false)),
            ItemType::Ladder => Some(BlockType::Ladder),
            ItemType::StoneSlab => Some(BlockType::StoneSlab),
            ItemType::StoneStairs => Some(BlockType::StoneStairs),
            ItemType::EnchantingTable => Some(BlockType::EnchantingTable),
            ItemType::Anvil => Some(BlockType::Anvil),
            ItemType::BrewingStand => Some(BlockType::BrewingStand),
            ItemType::RedstoneRepeater => Some(BlockType::RedstoneRepeater {
                powered: false,
                delay: 1,
                facing_right: true,
                timer: 0,
                target_powered: false,
            }),
            _ => None,
        }
    }

    /// The display name of the item.
    pub fn name(&self) -> (r: &str)
        ensures
            r@ == self.spec_name(),
    {
        match self {
            ItemType::Dirt => "Dirt",
            ItemType::Grass => "Grass",
            ItemType::Stone => "Stone",
            ItemType::Wood => "Wood",
            ItemType::Leaves => "Leaves",
            ItemType::Stick => "Stick",
            ItemType::WoodPickaxe => "Wood Pickaxe",
            ItemType::StonePickaxe => "Stone Pickaxe",
            ItemType::IronPickaxe => "Iron Pickaxe",
            ItemType::DiamondPickaxe => "Diamond Pickaxe",
            ItemType::Coal => "Coal",
            ItemType::Sand => "Sand",
            ItemType::Gravel => "Gravel",
            ItemType::Planks => "Planks",
            ItemType::CraftingTable => "Crafting Table",
            ItemType::IronIngot => "Iron Ingot",
            ItemType::Diamond => "Diamond",
            ItemType::RedstoneDust => "Redstone Dust",
            ItemType::Torch => "Torch",
            ItemType::Lever => "Lever",
            ItemType::StoneButton => "Stone Button",
            ItemType::RedstoneTorch => "Redstone Torch",
            ItemType::Furnace => "Furnace",
            ItemType::RawIron => "Raw Iron",
            ItemType::RawGold => "Raw Gold",
            ItemType::GoldIngot => "Gold Ingot",
            ItemType::Snow => "Snow",
            ItemType::Ice => "Ice",
            ItemType::Cactus => "Cactus",
            ItemType::DeadBush => "Dead Bush",
            ItemType::BirchWood => "Birch Wood",
            ItemType::BirchLeaves => "Birch Leaves",
            ItemType::RedFlower => "Red Flower",
            ItemType::YellowFlower => "Yellow Flower",
            ItemType::TallGrass => "Tall Grass",
            ItemType::Sapling => "Sapling",
            ItemType::BoneMeal => "Bone Meal",
            ItemType::Flint => "Flint",
            ItemType::FlintAndSteel => "Flint and Steel",
            ItemType::Shears => "Shears",
            ItemType::SugarCane => "Sugar Cane",
            ItemType::Paper => "Paper",
            ItemType::Book => "Book",
            ItemType::Bookshelf => "Bookshelf",
            ItemType::Boat => "Boat",
            ItemType::BirchSapling => "Birch Sapling",
            ItemType::Bucket => "Bucket",
            ItemType::WaterBucket => "Water Bucket",
            ItemType::LavaBucket => "Lava Bucket",
            ItemType::Cobblestone => "Cobblestone",
            ItemType::Obsidian => "Obsidian",
            ItemType::Netherrack => "Netherrack",
            ItemType::SoulSand => "Soul Sand",
            ItemType::Glowstone => "Glowstone",
            ItemType::EndStone => "End Stone",
            ItemType::Tnt => "TNT",
            ItemType::Piston => "Piston",
            ItemType::WoodSword => "Wood Sword",
            ItemType::StoneSword => "Stone Sword",
            ItemType::IronSword => "Iron Sword",
            ItemType::DiamondSword => "Diamond Sword",
            ItemType::WoodHoe => "Wood Hoe",
            ItemType::StoneHoe => "Stone Hoe",
            ItemType::IronHoe => "Iron Hoe",
            ItemType::DiamondHoe => "Diamond Hoe",
            ItemType::WheatSeeds => "Seeds",
            ItemType::Wheat => "Wheat",
            ItemType::Bread => "Bread",
            ItemType::RawBeef => "Raw Beef",
            ItemType::CookedBeef => "Cooked Beef",
            ItemType::RottenFlesh => "Rotten Flesh",
            ItemType::Bone => "Bone",
            ItemType::Arrow => "Arrow",
            ItemType::Bow => "Bow",
            ItemType::EyeOfEnder => "Eye of Ender",
            ItemType::EnderPearl => "Ender Pearl",
            ItemType::BlazeRod => "Blaze Rod",
            ItemType::BlazePowder => "Blaze Powder",
            ItemType::Bed => "Bed",
            ItemType::Chest => "Chest",
            ItemType::WoodAxe => "Wood Axe",
            ItemType::StoneAxe => "Stone Axe",
            ItemType::IronAxe => "Iron Axe",
            ItemType::DiamondAxe => "Diamond Axe",
            ItemType::WoodShovel => "Wood Shovel",
            ItemType::StoneShovel => "Stone Shovel",
            ItemType::IronShovel => "Iron Shovel",
            ItemType::DiamondShovel => "Diamond Shovel",
            ItemType::Glass => "Glass",
            ItemType::WoodDoor => "Wood Door",
            ItemType::Ladder => "Ladder",
            ItemType::StoneSlab => "Stone Slab",
            ItemType::StoneStairs => "Stone Stairs",
            ItemType::LeatherHelmet => "Leather Helmet",
            ItemType::LeatherChestplate => "Leather Chestplate",
            ItemType::LeatherLeggings => "Leather Leggings",
            ItemType::LeatherBoots => "Leather Boots",
            ItemType::IronHelmet => "Iron Helmet",
            ItemType::IronChestplate => "Iron Chestplate",
            ItemType::IronLeggings => "Iron Leggings",
            ItemType::IronBoots => "Iron Boots",
            ItemType::DiamondHelmet => "Diamond Helmet",
            ItemType::DiamondChestplate => "Diamond Chestplate",
            ItemType::DiamondLeggings => "Diamond Leggings",
            ItemType::DiamondBoots => "Diamond Boots",
            ItemType::Slimeball => "Slimeball",
            ItemType::Gunpowder => "Gunpowder",
            ItemType::String => "String",
            ItemType::Leather => "Leather",
            ItemType::Wool => "Wool",
            ItemType::RawMutton => "Raw Mutton",
            ItemType::CookedMutton => "Cooked Mutton",
            ItemType::RawPorkchop => "Raw Porkchop",
            ItemType::CookedPorkchop => "Cooked Porkchop",
            ItemType::RawChicken => "Raw Chicken",
            ItemType::CookedChicken => "Cooked Chicken",
            ItemType::Feather => "Feather",
            ItemType::Egg => "Egg",
            ItemType::EnchantingTable => "Enchanting Table",
            ItemType::Anvil => "Anvil",
            ItemType::BrewingStand => "Brewing Stand",
            ItemType::GlassBottle => "Glass Bottle",
            ItemType::WaterBottle => "Water Bottle",
            ItemType::NetherWart => "Nether Wart",
            ItemType::AwkwardPotion => "Awkward Potion",
            ItemType::PotionHealing => "Potion of Healing",
            ItemType::PotionStrength => "Potion of Strength",
            ItemType::PotionRegeneration => "Potion of Regeneration",
            ItemType::PotionFireResistance => "Potion of Fire Resistance",
            ItemType::GhastTear => "Ghast Tear",
            ItemType::MagmaCream => "Magma Cream",
            ItemType::FishingRod => "Fishing Rod",
            ItemType::RawFish => "Raw Fish",
            ItemType::CookedFish => "Cooked Fish",
            ItemType::RedstoneRepeater => "Redstone Repeater",
        }
    }

    /// Material tier of a tool (wood 1 .. diamond 4); 0 for other items.
    pub fn material_tier(&self) -> (r: u8)
        ensures
            r == self.spec_material_tier(),
    {
        match self {
            ItemType::WoodPickaxe
            | ItemType::WoodAxe
            | ItemType::WoodShovel
            | ItemType::WoodHoe => 1,
            ItemType::StonePickaxe
            | ItemType::StoneAxe
            | ItemType::StoneShovel
            | ItemType::StoneHoe => 2,
            ItemType::IronPickaxe
            | ItemType::IronAxe
            | ItemType::IronShovel
            | ItemType::IronHoe => 3,
            ItemType::DiamondPickaxe
            | ItemType::DiamondAxe
            | ItemType::DiamondShovel
            | ItemType::DiamondHoe => 4,
            _ => 0,
        }
    }

    /// Whether the item is a pickaxe.
    pub fn is_pickaxe(&self) -> (r: bool)
        ensures
            r == self.spec_is_pickaxe(),
    {
        matches!(
            self,
            ItemType::WoodPickaxe
                | ItemType::StonePickaxe
                | ItemType::IronPickaxe
                | ItemType::DiamondPickaxe
        )
    }

    /// Whether the item is an axe.
    pub fn is_axe(&self) -> (r: bool)
        ensures
            r == self.spec_is_axe(),
    {
        matches!(
            self,
            ItemType::WoodAxe | ItemType::StoneAxe | ItemType::IronAxe | ItemType::DiamondAxe
        )
    }

    /// Whether the item is a shovel.
    pub fn is_shovel(&self) -> (r: bool)
        ensures
            r == self.spec_is_shovel(),
    {
        matches!(
            self,
            ItemType::WoodShovel
                | ItemType::StoneShovel
                | ItemType::IronShovel
                | ItemType::DiamondShovel
        )
    }

    /// Number of uses before a tool or armour piece breaks; None for items that do not wear.
    pub fn max_durability(&self) -> (r: Option<u32>)
        ensures
            r == self.spec_max_durability(),
    {
        match self {
            ItemType::WoodPickaxe
            | ItemType::WoodSword
            | ItemType::WoodHoe
            | ItemType::WoodAxe
            | ItemType::WoodShovel => Some(60),
            ItemType::StonePickaxe
            | ItemType::StoneSword
            | ItemType::StoneHoe
            | ItemType::StoneAxe
            | ItemType::StoneShovel => Some(132),
            ItemType::IronPickaxe
            | ItemType::IronSword
            | ItemType::IronHoe
            | ItemType::IronAxe
            | ItemType::IronShovel => Some(251),
            ItemType::DiamondPickaxe
            | ItemType::DiamondSword
            | ItemType::DiamondHoe
            | ItemType::DiamondAxe
            | ItemType::DiamondShovel => Some(1562),
            ItemType::LeatherHelmet => Some(56),
            ItemType::LeatherChestplate => Some(81),
            ItemType::LeatherLeggings => Some(76),
            ItemType::LeatherBoots => Some(66),
            ItemType::IronHelmet => Some(166),
            ItemType::IronChestplate => Some(241),
            ItemType::IronLeggings => Some(226),
            ItemType::IronBoots => Some(196),
            ItemType::DiamondHelmet => Some(364),
            ItemType::DiamondChestplate => Some(529),
            ItemType::DiamondLeggings => Some(496),
            ItemType::DiamondBoots => Some(430),
            ItemType::Bow => Some(384),
            ItemType::FishingRod => Some(65),
            ItemType::FlintAndSteel => Some(65),
            ItemType::Shears => Some(239),
            _ => None,
        }
    }

    /// Armour slot (0 helmet, 1 chestplate, 2 leggings, 3 boots) of an armour piece.
    pub fn armor_slot_index(&self) -> (r: Option<usize>)
        ensures
            r == self.spec_armor_slot_index(),
    {
        match self {
            ItemType::LeatherHelmet | ItemType::IronHelmet | ItemType::DiamondHelmet => Some(0),
            ItemType::LeatherChestplate
            | ItemType::IronChestplate
            | ItemType::DiamondChestplate => Some(1),
            ItemType::LeatherLeggings | ItemType::IronLeggings | ItemType::DiamondLeggings => {
                Some(2)
            }
            ItemType::LeatherBoots | ItemType::IronBoots | ItemType::DiamondBoots => Some(3),
            _ => None,
        }
    }

    /// Protection an armour piece gives; 0 for other items.
    pub fn armor_points(&self) -> (r: u8)
        ensures
            r == self.spec_armor_points(),
    {
        match self {
            ItemType::LeatherHelmet => 1,
            ItemType::LeatherChestplate => 3,
            ItemType::LeatherLeggings => 2,
            ItemType::LeatherBoots => 1,
            ItemType::IronHelmet => 2,
            ItemType::IronChestplate => 6,
            ItemType::IronLeggings => 5,
            ItemType::IronBoots => 2,
            ItemType::DiamondHelmet => 3,
            ItemType::DiamondChestplate => 8,
            ItemType::DiamondLeggings => 6,
            ItemType::DiamondBoots => 3,
            _ => 0,
        }
    }

    /// Largest count one slot holds of the item.
    pub fn max_stack_size(&self) -> (r: u32)
        ensures
            r == self.spec_max_stack_size(),
    {
        match self {
            ItemType::Bucket
            | ItemType::WaterBucket
            | ItemType::LavaBucket
            | ItemType::FlintAndSteel
            | ItemType::Shears
            | ItemType::Boat => 1,
            ItemType::WaterBottle
            | ItemType::AwkwardPotion
            | ItemType::PotionHealing
            | ItemType::PotionStrength
            | ItemType::PotionRegeneration
            | ItemType::PotionFireResistance => 1,
            _ => 64,
        }
    }

    /// Melee damage dealt with the item in hand, in whole hit points.
    pub fn damage_points(&self) -> (r: u32)
        ensures
            r == self.spec_damage_points(),
    {
        match self {
            ItemType::WoodSword => 4,
            ItemType::StoneSword => 5,
            ItemType::IronSword => 6,
            ItemType::DiamondSword => 7,
            ItemType::WoodAxe => 3,
            ItemType::StoneAxe => 4,
            ItemType::IronAxe => 5,
            ItemType::DiamondAxe => 6,
            ItemType::WoodPickaxe
            | ItemType::StonePickaxe
            | ItemType::IronPickaxe
            | ItemType::DiamondPickaxe
            | ItemType::WoodShovel
            | ItemType::StoneShovel
            | ItemType::IronShovel
            | ItemType::DiamondShovel => 2,
            ItemType::Bow => 1,
            _ => 1,
        }
    }

    /// Position of the variant in the declaration order (the order used to
    /// sort ingredient lists).
    pub fn ordinal(&self) -> (r: u8)
        ensures
            r == self.spec_ordinal(),
    {
        match self {
            ItemType::Dirt => 0,
            ItemType::Grass => 1,
            ItemType::Stone => 2,
            ItemType::Wood => 3,
            ItemType::Leaves => 4,
            ItemType::Stick => 5,
            ItemType::WoodPickaxe => 6,
            ItemType::StonePickaxe => 7,
            ItemType::IronPickaxe => 8,
            ItemType::DiamondPickaxe => 9,
            ItemType::Coal => 10,
            ItemType::Sand => 11,
            ItemType::Gravel => 12,
            ItemType::Planks => 13,
            ItemType::CraftingTable => 14,
            ItemType::IronIngot => 15,
            ItemType::Diamond => 16,
            ItemType::Torch => 17,
            ItemType::Lever => 18,
            ItemType::StoneButton => 19,
            ItemType::RedstoneTorch => 20,
            ItemType::Furnace => 21,
            ItemType::RawIron => 22,
            ItemType::RawGold => 23,
            ItemType::GoldIngot => 24,
            ItemType::WoodSword => 25,
            ItemType::StoneSword => 26,
            ItemType::IronSword => 27,
            ItemType::DiamondSword => 28,
            ItemType::WoodHoe => 29,
            ItemType::StoneHoe => 30,
            ItemType::IronHoe => 31,
            ItemType::DiamondHoe => 32,
            ItemType::WheatSeeds => 33,
            ItemType::Wheat => 34,
            ItemType::Bread => 35,
            ItemType::RawBeef => 36,
            ItemType::CookedBeef => 37,
            ItemType::RottenFlesh => 38,
            ItemType::Bone => 39,
            ItemType::Arrow => 40,
            ItemType::Bow => 41,
            ItemType::Gunpowder => 42,
            ItemType::String => 43,
            ItemType::Leather => 44,
            ItemType::Wool => 45,
            ItemType::RawMutton => 46,
            ItemType::CookedMutton => 47,
            ItemType::Snow => 48,
            ItemType::Ice => 49,
            ItemType::Cactus => 50,
            ItemType::DeadBush => 51,
            ItemType::BirchWood => 52,
            ItemType::BirchLeaves => 53,
            ItemType::RedFlower => 54,
            ItemType::YellowFlower => 55,
            ItemType::TallGrass => 56,
            ItemType::WaterBucket => 57,
            ItemType::LavaBucket => 58,
            ItemType::Cobblestone => 59,
            ItemType::Obsidian => 60,
            ItemType::RedstoneDust => 61,
            ItemType::Netherrack => 62,
            ItemType::SoulSand => 63,
            ItemType::Glowstone => 64,
            ItemType::Tnt => 65,
            ItemType::Piston => 66,
            ItemType::EndStone => 67,
            ItemType::EyeOfEnder => 68,
            ItemType::EnderPearl => 69,
            ItemType::BlazeRod => 70,
            ItemType::BlazePowder => 71,
            ItemType::Bed => 72,
            ItemType::Chest => 73,
            ItemType::WoodAxe => 74,
            ItemType::StoneAxe => 75,
            ItemType::IronAxe => 76,
            ItemType::DiamondAxe => 77,
            ItemType::WoodShovel => 78,
            ItemType::StoneShovel => 79,
            ItemType::IronShovel => 80,
            ItemType::DiamondShovel => 81,
            ItemType::Glass => 82,
            ItemType::WoodDoor => 83,
            ItemType::Ladder => 84,
            ItemType::StoneSlab => 85,
            ItemType::StoneStairs => 86,
            ItemType::LeatherHelmet => 87,
            ItemType::LeatherChestplate => 88,
            ItemType::LeatherLeggings => 89,
            ItemType::LeatherBoots => 90,
            ItemType::IronHelmet => 91,
            ItemType::IronChestplate => 92,
            ItemType::IronLeggings => 93,
            ItemType::IronBoots => 94,
            ItemType::DiamondHelmet => 95,
            ItemType::DiamondChestplate => 96,
            ItemType::DiamondLeggings => 97,
            ItemType::DiamondBoots => 98,
            ItemType::Slimeball => 99,
            ItemType::RawPorkchop => 100,
            ItemType::CookedPorkchop => 101,
            ItemType::RawChicken => 102,
            ItemType::CookedChicken => 103,
            ItemType::Feather => 104,
            ItemType::Egg => 105,
            ItemType::EnchantingTable => 106,
            ItemType::Anvil => 107,
            ItemType::BrewingStand => 108,
            ItemType::GlassBottle => 109,
            ItemType::WaterBottle => 110,
            ItemType::NetherWart => 111,
            ItemType::AwkwardPotion => 112,
            ItemType::PotionHealing => 113,
            ItemType::PotionStrength => 114,
            ItemType::PotionRegeneration => 115,
            ItemType::PotionFireResistance => 116,
            ItemType::GhastTear => 117,
            ItemType::MagmaCream => 118,
            ItemType::FishingRod => 119,
            ItemType::RawFish => 120,
            ItemType::CookedFish => 121,
            ItemType::RedstoneRepeater => 122,
            ItemType::Bucket => 123,
            ItemType::Sapling => 124,
            ItemType::BoneMeal => 125,
            ItemType::Flint => 126,
            ItemType::FlintAndSteel => 127,
            ItemType::Shears => 128,
            ItemType::SugarCane => 129,
            ItemType::Paper => 130,
            ItemType::Book => 131,
            ItemType::Bookshelf => 132,
            ItemType::Boat => 133,
            ItemType::BirchSapling => 134,
        }
    }


    /// Harvest level the item grants: a pickaxe's material tier, 0 otherwise.
    pub fn tool_level(&self) -> (r: u8)
        ensures
            r == (if self.spec_is_pickaxe() { self.spec_material_tier() } else { 0 }),
    {
        if self.is_pickaxe() {
            self.material_tier()
        } else {
            0
        }
    }

    /// Whether a tool of this kind speeds up mining `block`.
    pub open spec fn spec_is_effective_on(self, block: BlockType) -> bool {
        (self.spec_is_pickaxe() && block.spec_is_pickaxe_effective()) || (self.spec_is_axe()
            && block.spec_is_axe_effective()) || (self.spec_is_shovel()
            && block.spec_is_shovel_effective())
    }

    /// Mining speed multiplier of the item against `block`: 2 + 2 * tier for a
    /// tool of the right family, 1 otherwise (the scale is whole-numbered).
    pub fn efficiency_multiplier(&self, block: BlockType) -> (r: u32)
        ensures
            r == (if self.spec_material_tier() != 0 && self.spec_is_effective_on(block) {
                2 + 2 * self.spec_material_tier()
            } else {
                1
            }),
    {
        let tier = self.material_tier();
        if tier == 0 {
            return 1;
        }
        let effective = (self.is_pickaxe() && block.is_pickaxe_effective()) || (self.is_axe()
            && block.is_axe_effective()) || (self.is_shovel() && block.is_shovel_effective());
        if effective {
            2 + (tier as u32 * 2)
        } else {
            1
        }
    }

    /// Number of item kinds.
    pub open spec fn spec_kind_count() -> nat {
        135
    }

    /// The item kind at a position of the declaration order.
    pub open spec fn spec_from_ordinal(n: u8) -> ItemType {
        match n {
            0 => ItemType::Dirt,
            1 => ItemType::Grass,
            2 => ItemType::Stone,
            3 => ItemType::Wood,
            4 => ItemType::Leaves,
            5 => ItemType::Stick,
            6 => ItemType::WoodPickaxe,
            7 => ItemType::StonePickaxe,
            8 => ItemType::IronPickaxe,
            9 => ItemType::DiamondPickaxe,
            10 => ItemType::Coal,
            11 => ItemType::Sand,
            12 => ItemType::Gravel,
            13 => ItemType::Planks,
            14 => ItemType::CraftingTable,
            15 => ItemType::IronIngot,
            16 => ItemType::Diamond,
            17 => ItemType::Torch,
            18 => ItemType::Lever,
            19 => ItemType::StoneButton,
            20 => ItemType::RedstoneTorch,
            21 => ItemType::Furnace,
            22 => ItemType::RawIron,
            23 => ItemType::RawGold,
            24 => ItemType::GoldIngot,
            25 => ItemType::WoodSword,
            26 => ItemType::StoneSword,
            27 => ItemType::IronSword,
            28 => ItemType::DiamondSword,
            29 => ItemType::WoodHoe,
            30 => ItemType::StoneHoe,
            31 => ItemType::IronHoe,
            32 => ItemType::DiamondHoe,
            33 => ItemType::WheatSeeds,
            34 => ItemType::Wheat,
            35 => ItemType::Bread,
            36 => ItemType::RawBeef,
            37 => ItemType::CookedBeef,
            38 => ItemType::RottenFlesh,
            39 => ItemType::Bone,
            40 => ItemType::Arrow,
            41 => ItemType::Bow,
            42 => ItemType::Gunpowder,
            43 => ItemType::String,
            44 => ItemType::Leather,
            45 => ItemType::Wool,
            46 => ItemType::RawMutton,
            47 => ItemType::CookedMutton,
            48 => ItemType::Snow,
            49 => ItemType::Ice,
            50 => ItemType::Cactus,
            51 => ItemType::DeadBush,
            52 => ItemType::BirchWood,
            53 => ItemType::BirchLeaves,
            54 => ItemType::RedFlower,
            55 => ItemType::YellowFlower,
            56 => ItemType::TallGrass,
            57 => ItemType::WaterBucket,
            58 => ItemType::LavaBucket,
            59 => ItemType::Cobblestone,
            60 => ItemType::Obsidian,
            61 => ItemType::RedstoneDust,
            62 => ItemType::Netherrack,
            63 => ItemType::SoulSand,
            64 => ItemType::Glowstone,
            65 => ItemType::Tnt,
            66 => ItemType::Piston,
            67 => ItemType::EndStone,
            68 => ItemType::EyeOfEnder,
            69 => ItemType::EnderPearl,
            70 => ItemType::BlazeRod,
            71 => ItemType::BlazePowder,
            72 => ItemType::Bed,
            73 => ItemType::Chest,
            74 => ItemType::WoodAxe,
            75 => ItemType::StoneAxe,
            76 => ItemType::IronAxe,
            77 => ItemType::DiamondAxe,
            78 => ItemType::WoodShovel,
            79 => ItemType::StoneShovel,
            80 => ItemType::IronShovel,
            81 => ItemType::DiamondShovel,
            82 => ItemType::Glass,
            83 => ItemType::WoodDoor,
            84 => ItemType::Ladder,
            85 => ItemType::StoneSlab,
            86 => ItemType::StoneStairs,
            87 => ItemType::LeatherHelmet,
            88 => ItemType::LeatherChestplate,
            89 => ItemType::LeatherLeggings,
            90 => ItemType::LeatherBoots,
            91 => ItemType::IronHelmet,
            92 => ItemType::IronChestplate,
            93 => ItemType::IronLeggings,
            94 => ItemType::IronBoots,
            95 => ItemType::DiamondHelmet,
            96 => ItemType::DiamondChestplate,
            97 => ItemType::DiamondLeggings,
            98 => ItemType::DiamondBoots,
            99 => ItemType::Slimeball,
            100 => ItemType::RawPorkchop,
            101 => ItemType::CookedPorkchop,
            102 => ItemType::RawChicken,
            103 => ItemType::CookedChicken,
            104 => ItemType::Feather,
            105 => ItemType::Egg,
            106 => ItemType::EnchantingTable,
            107 => ItemType::Anvil,
            108 => ItemType::BrewingStand,
            109 => ItemType::GlassBottle,
            110 => ItemType::WaterBottle,
            111 => ItemType::NetherWart,
            112 => ItemType::AwkwardPotion,
            113 => ItemType::PotionHealing,
            114 => ItemType::PotionStrength,
            115 => ItemType::PotionRegeneration,
            116 => ItemType::PotionFireResistance,
            117 => ItemType::GhastTear,
            118 => ItemType::MagmaCream,
            119 => ItemType::FishingRod,
            120 => ItemType::RawFish,
            121 => ItemType::CookedFish,
            122 => ItemType::RedstoneRepeater,
            123 => ItemType::Bucket,
            124 => ItemType::Sapling,
            125 => ItemType::BoneMeal,
            126 => ItemType::Flint,
            127 => ItemType::FlintAndSteel,
            128 => ItemType::Shears,
            129 => ItemType::SugarCane,
            130 => ItemType::Paper,
            131 => ItemType::Book,
            132 => ItemType::Bookshelf,
            133 => ItemType::Boat,
            134 => ItemType::BirchSapling,
            _ => ItemType::Dirt,
        }
    }

    /// The item kind at position `n` of the declaration order.
    pub fn from_ordinal(n: u8) -> (r: ItemType)
        requires
            n < Self::spec_kind_count(),
        ensures
            r == Self::spec_from_ordinal(n),
            r.spec_ordinal() == n,
    {
        match n {
            0 => ItemType::Dirt,
            1 => ItemType::Grass,
            2 => ItemType::Stone,
            3 => ItemType::Wood,
            4 => ItemType::Leaves,
            5 => ItemType::Stick,
            6 => ItemType::WoodPickaxe,
            7 => ItemType::StonePickaxe,
            8 => ItemType::IronPickaxe,
            9 => ItemType::DiamondPickaxe,
            10 => ItemType::Coal,
            11 => ItemType::Sand,
            12 => ItemType::Gravel,
            13 => ItemType::Planks,
            14 => ItemType::CraftingTable,
            15 => ItemType::IronIngot,
            16 => ItemType::Diamond,
            17 => ItemType::Torch,
            18 => ItemType::Lever,
            19 => ItemType::StoneButton,
            20 => ItemType::RedstoneTorch,
            21 => ItemType::Furnace,
            22 => ItemType::RawIron,
            23 => ItemType::RawGold,
            24 => ItemType::GoldIngot,
            25 => ItemType::WoodSword,
            26 => ItemType::StoneSword,
            27 => ItemType::IronSword,
            28 => ItemType::DiamondSword,
            29 => ItemType::WoodHoe,
            30 => ItemType::StoneHoe,
            31 => ItemType::IronHoe,
            32 => ItemType::DiamondHoe,
            33 => ItemType::WheatSeeds,
            34 => ItemType::Wheat,
            35 => ItemType::Bread,
            36 => ItemType::RawBeef,
            37 => ItemType::CookedBeef,
            38 => ItemType::RottenFlesh,
            39 => ItemType::Bone,
            40 => ItemType::Arrow,
            41 => ItemType::Bow,
            42 => ItemType::Gunpowder,
            43 => ItemType::String,
            44 => ItemType::Leather,
            45 => ItemType::Wool,
            46 => ItemType::RawMutton,
            47 => ItemType::CookedMutton,
            48 => ItemType::Snow,
            49 => ItemType::Ice,
            50 => ItemType::Cactus,
            51 => ItemType::DeadBush,
            52 => ItemType::BirchWood,
            53 => ItemType::BirchLeaves,
            54 => ItemType::RedFlower,
            55 => ItemType::YellowFlower,
            56 => ItemType::TallGrass,
            57 => ItemType::WaterBucket,
            58 => ItemType::LavaBucket,
            59 => ItemType::Cobblestone,
            60 => ItemType::Obsidian,
            61 => ItemType::RedstoneDust,
            62 => ItemType::Netherrack,
            63 => ItemType::SoulSand,
            64 => ItemType::Glowstone,
            65 => ItemType::Tnt,
            66 => ItemType::Piston,
            67 => ItemType::EndStone,
            68 => ItemType::EyeOfEnder,
            69 => ItemType::EnderPearl,
            70 => ItemType::BlazeRod,
            71 => ItemType::BlazePowder,
            72 => ItemType::Bed,
            73 => ItemType::Chest,
            74 => ItemType::WoodAxe,
            75 => ItemType::StoneAxe,
            76 => ItemType::IronAxe,
            77 => ItemType::DiamondAxe,
            78 => ItemType::WoodShovel,
            79 => ItemType::StoneShovel,
            80 => ItemType::IronShovel,
            81 => ItemType::DiamondShovel,
            82 => ItemType::Glass,
            83 => ItemType::WoodDoor,
            84 => ItemType::Ladder,
            85 => ItemType::StoneSlab,
            86 => ItemType::StoneStairs,
            87 => ItemType::LeatherHelmet,
            88 => ItemType::LeatherChestplate,
            89 => ItemType::LeatherLeggings,
            90 => ItemType::LeatherBoots,
            91 => ItemType::IronHelmet,
            92 => ItemType::IronChestplate,
            93 => ItemType::IronLeggings,
            94 => ItemType::IronBoots,
            95 => ItemType::DiamondHelmet,
            96 => ItemType::DiamondChestplate,
            97 => ItemType::DiamondLeggings,
            98 => ItemType::DiamondBoots,
            99 => ItemType::Slimeball,
            100 => ItemType::RawPorkchop,
            101 => ItemType::CookedPorkchop,
            102 => ItemType::RawChicken,
            103 => ItemType::CookedChicken,
            104 => ItemType::Feather,
            105 => ItemType::Egg,
            106 => ItemType::EnchantingTable,
            107 => ItemType::Anvil,
            108 => ItemType::BrewingStand,
            109 => ItemType::GlassBottle,
            110 => ItemType::WaterBottle,
            111 => ItemType::NetherWart,
            112 => ItemType::AwkwardPotion,
            113 => ItemType::PotionHealing,
            114 => ItemType::PotionStrength,
            115 => ItemType::PotionRegeneration,
            116 => ItemType::PotionFireResistance,
            117 => ItemType::GhastTear,
            118 => ItemType::MagmaCream,
            119 => ItemType::FishingRod,
            120 => ItemType::RawFish,
            121 => ItemType::CookedFish,
            122 => ItemType::RedstoneRepeater,
            123 => ItemType::Bucket,
            124 => ItemType::Sapling,
            125 => ItemType::BoneMeal,
            126 => ItemType::Flint,
            127 => ItemType::FlintAndSteel,
            128 => ItemType::Shears,
            129 => ItemType::SugarCane,
            130 => ItemType::Paper,
            131 => ItemType::Book,
            132 => ItemType::Bookshelf,
            133 => ItemType::Boat,
            134 => ItemType::BirchSapling,
            _ => ItemType::Dirt,
        }
    }

    /// Every item kind sits at its own position of the declaration order.
    pub proof fn lemma_ordinal_roundtrip(self)
        ensures
            Self::spec_from_ordinal(self.spec_ordinal()) == self,
            self.spec_ordinal() < Self::spec_kind_count(),
    {
    }

    /// Distinct item kinds have distinct positions.
    pub proof fn lemma_ordinal_injective(a: ItemType, b: ItemType)
        ensures
            a.spec_ordinal() == b.spec_ordinal() ==> a == b,
    {
        a.lemma_ordinal_roundtrip();
        b.lemma_ordinal_roundtrip();
    }
}


/// Only pickaxes grant a harvest level, and every pickaxe grants its tier.
pub proof fn law_only_pickaxes_harvest(item: ItemType)
    ensures
        item.spec_is_pickaxe() ==> item.spec_material_tier() > 0,
        (if item.spec_is_pickaxe() {
            item.spec_material_tier()
        } else {
            0
        }) > 0 <==> item.spec_is_pickaxe(),
{
}

/// Armour pieces, and only they, have a slot and give protection; they also
/// wear out.
pub proof fn law_armor_pieces(item: ItemType)
    ensures
        item.spec_armor_slot_index() is Some <==> item.spec_armor_points() > 0,
        item.spec_armor_slot_index() is Some ==> item.spec_max_durability() is Some,
        item.spec_armor_slot_index() matches Some(k) ==> k < 4,
{
}



/// Item names identify items: two different items never share a name,
/// and no name is empty.
#[verifier::rlimit(100)]
pub proof fn law_item_names_identify_items(a: ItemType, b: ItemType)
    ensures
        a != b ==> a.spec_name() != b.spec_name(),
        a.spec_name().len() > 0,
{
    let s = a.spec_name();
    let t = b.spec_name();
    reveal_strlit("Dirt");
    reveal_strlit("Grass");
    reveal_strlit("Stone");
    reveal_strlit("Wood");
    reveal_strlit("Leaves");
    reveal_strlit("Stick");
    reveal_strlit("Wood Pickaxe");
    reveal_strlit("Stone Pickaxe");
    reveal_strlit("Iron Pickaxe");
    reveal_strlit("Diamond Pickaxe");
    reveal_strlit("Coal");
    reveal_strlit("Sand");
    reveal_strlit("Gravel");
    reveal_strlit("Planks");
    reveal_strlit("Crafting Table");
    reveal_strlit("Iron Ingot");
    reveal_strlit("Diamond");
    reveal_strlit("Redstone Dust");
    reveal_strlit("Torch");
    reveal_strlit("Lever");
    reveal_strlit("Stone Button");
    reveal_strlit("Redstone Torch");
    reveal_strlit("Furnace");
    reveal_strlit("Raw Iron");
    reveal_strlit("Raw Gold");
    reveal_strlit("Gold Ingot");
    reveal_strlit("Snow");
    reveal_strlit("Ice");
    reveal_strlit("Cactus");
    reveal_strlit("Dead Bush");
    reveal_strlit("Birch Wood");
    reveal_strlit("Birch Leaves");
    reveal_strlit("Red Flower");
    reveal_strlit("Yellow Flower");
    reveal_strlit("Tall Grass");
    reveal_strlit("Sapling");
    reveal_strlit("Bone Meal");
    reveal_strlit("Flint");
    reveal_strlit("Flint and Steel");
    reveal_strlit("Shears");
    reveal_strlit("Sugar Cane");
    reveal_strlit("Paper");
    reveal_strlit("Book");
    reveal_strlit("Bookshelf");
    reveal_strlit("Boat");
    reveal_strlit("Birch Sapling");
    reveal_strlit("Bucket");
    reveal_strlit("Water Bucket");
    reveal_strlit("Lava Bucket");
    reveal_strlit("Cobblestone");
    reveal_strlit("Obsidian");
    reveal_strlit("Netherrack");
    reveal_strlit("Soul Sand");
    reveal_strlit("Glowstone");
    reveal_strlit("End Stone");
    reveal_strlit("TNT");
    reveal_strlit("Piston");
    reveal_strlit("Wood Sword");
    reveal_strlit("Stone Sword");
    reveal_strlit("Iron Sword");
    reveal_strlit("Diamond Sword");
    reveal_strlit("Wood Hoe");
    reveal_strlit("Stone Hoe");
    reveal_strlit("Iron Hoe");
    reveal_strlit("Diamond Hoe");
    reveal_strlit("Seeds");
    reveal_strlit("Wheat");
    reveal_strlit("Bread");
    reveal_strlit("Raw Beef");
    reveal_strlit("Cooked Beef");
    reveal_strlit("Rotten Flesh");
    reveal_strlit("Bone");
    reveal_strlit("Arrow");
    reveal_strlit("Bow");
    reveal_strlit("Eye of Ender");
    reveal_strlit("Ender Pearl");
    reveal_strlit("Blaze Rod");
    reveal_strlit("Blaze Powder");
    reveal_strlit("Bed");
    reveal_strlit("Chest");
    reveal_strlit("Wood Axe");
    reveal_strlit("Stone Axe");
    reveal_strlit("Iron Axe");
    reveal_strlit("Diamond Axe");
    reveal_strlit("Wood Shovel");
    reveal_strlit("Stone Shovel");
    reveal_strlit("Iron Shovel");
    reveal_strlit("Diamond Shovel");
    reveal_strlit("Glass");
    reveal_strlit("Wood Door");
    reveal_strlit("Ladder");
    reveal_strlit("Stone Slab");
    reveal_strlit("Stone Stairs");
    reveal_strlit("Leather Helmet");
    reveal_strlit("Leather Chestplate");
    reveal_strlit("Leather Leggings");
    reveal_strlit("Leather Boots");
    reveal_strlit("Iron Helmet");
    reveal_strlit("Iron Chestplate");
    reveal_strlit("Iron Leggings");
    reveal_strlit("Iron Boots");
    reveal_strlit("Diamond Helmet");
    reveal_strlit("Diamond Chestplate");
    reveal_strlit("Diamond Leggings");
    reveal_strlit("Diamond Boots");
    reveal_strlit("Slimeball");
    reveal_strlit("Gunpowder");
    reveal_strlit("String");
    reveal_strlit("Leather");
    reveal_strlit("Wool");
    reveal_strlit("Raw Mutton");
    reveal_strlit("Cooked Mutton");
    reveal_strlit("Raw Porkchop");
    reveal_strlit("Cooked Porkchop");
    reveal_strlit("Raw Chicken");
    reveal_strlit("Cooked Chicken");
    reveal_strlit("Feather");
    reveal_strlit("Egg");
    reveal_strlit("Enchanting Table");
    reveal_strlit("Anvil");
    reveal_strlit("Brewing Stand");
    reveal_strlit("Glass Bottle");
    reveal_strlit("Water Bottle");
    reveal_strlit("Nether Wart");
    reveal_strlit("Awkward Potion");
    reveal_strlit("Potion of Healing");
    reveal_strlit("Potion of Strength");
    reveal_strlit("Potion of Regeneration");
    reveal_strlit("Potion of Fire Resistance");
    reveal_strlit("Ghast Tear");
    reveal_strlit("Magma Cream");
    reveal_strlit("Fishing Rod");
    reveal_strlit("Raw Fish");
    reveal_strlit("Cooked Fish");
    reveal_strlit("Redstone Repeater");
    if s == t {
        assert(s.len() == t.len());
        assert(s[0] == t[0]);
        assert(s[1] == t[1]);
        if s.len() > 3 {
            assert(s[3] == t[3]);
        }
        if s.len() > 6 {
            assert(s[6] == t[6]);
        }
        if s.len() > 8 {
            assert(s[8] == t[8]);
        }
    }
}


/// Whether pickaxe-or-not `tool` harvests `block`: its harvest level
/// reaches what the block requires.
pub open spec fn harvests(tool: ItemType, block: BlockType) -> bool {
    (if tool.spec_is_pickaxe() {
        tool.spec_material_tier()
    } else {
        0
    }) >= block.spec_required_tool_level()
}

/// Harvest tiers, over every item: stone, coal ore and cobblestone need
/// some pickaxe; iron ore a stone pickaxe or better; gold, diamond and
/// redstone ore an iron pickaxe or better; obsidian and end portal frames
/// a diamond pickaxe; bedrock nothing at all; dirt, sand and wood anything.
pub proof fn law_harvest_tiers(tool: ItemType, block: BlockType)
    ensures
        (block == BlockType::Stone || block == BlockType::CoalOre || block == BlockType::Cobblestone) ==> (harvests(
            tool,
            block,
        ) <==> tool.spec_is_pickaxe()),
        block == BlockType::IronOre ==> (harvests(tool, block) <==> (tool == ItemType::StonePickaxe || tool
            == ItemType::IronPickaxe || tool == ItemType::DiamondPickaxe)),
        (block == BlockType::GoldOre || block == BlockType::DiamondOre || block == BlockType::RedstoneOre) ==> (harvests(
            tool,
            block,
        ) <==> (tool == ItemType::IronPickaxe || tool == ItemType::DiamondPickaxe)),
        (block == BlockType::Obsidian || block is EndPortalFrame) ==> (harvests(tool, block) <==> tool
            == ItemType::DiamondPickaxe),
        block == BlockType::Bedrock ==> !harvests(tool, block),
        (block == BlockType::Dirt || block == BlockType::Sand || block == BlockType::Wood) ==> harvests(tool, block),
{
}

} // verus!
