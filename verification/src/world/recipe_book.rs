use vstd::prelude::*;
use super::item::ItemType;
use super::recipe::{Recipe, RecipeShape, distinct_items, flatten_rows, lemma_counts_upto, lemma_sorted_distinct, occurrences, pattern_counts, row_views};

verus! {

/// One recipe of the book as plain values: what it makes, how many, from
/// what, where, and the pattern it is listed with (if any).
pub struct RecipeData {
    pub result: ItemType,
    pub result_count: u32,
    pub ingredients: Seq<(ItemType, u32)>,
    pub needs_crafting_table: bool,
    pub needs_furnace: bool,
    pub shape_rows: Option<Seq<Seq<Option<ItemType>>>>,
}

/// Number of recipes in the book.
pub open spec fn recipe_count() -> nat {
    78
}

/// The recipes of the book, in order, as listed (before default patterns
/// are filled in).
pub open spec fn recipe_data(i: u8) -> RecipeData {
    match i {
        0 => RecipeData {
            result: ItemType::Planks,
            result_count: 4,
            ingredients: seq![(ItemType::Wood, 1u32)],
            needs_crafting_table: false,
            needs_furnace: false,
            shape_rows: None,
        },
        1 => RecipeData {
            result: ItemType::Planks,
            result_count: 4,
            ingredients: seq![(ItemType::BirchWood, 1u32)],
            needs_crafting_table: false,
            needs_furnace: false,
            shape_rows: None,
        },
        2 => RecipeData {
            result: ItemType::Stick,
            result_count: 4,
            ingredients: seq![(ItemType::Planks, 2u32)],
            needs_crafting_table: false,
            needs_furnace: false,
            shape_rows: None,
        },
        3 => RecipeData {
            result: ItemType::CraftingTable,
            result_count: 1,
            ingredients: seq![(ItemType::Planks, 4u32)],
            needs_crafting_table: false,
            needs_furnace: false,
            shape_rows: None,
        },
        4 => RecipeData {
            result: ItemType::Furnace,
            result_count: 1,
            ingredients: seq![(ItemType::Cobblestone, 8u32)],
            needs_crafting_table: true,
            needs_furnace: false,
            shape_rows: None,
        },
        5 => RecipeData {
            result: ItemType::Torch,
            result_count: 4,
            ingredients: seq![(ItemType::Coal, 1u32), (ItemType::Stick, 1u32)],
            needs_crafting_table: false,
            needs_furnace: false,
            shape_rows: None,
        },
        6 => RecipeData {
            result: ItemType::RedstoneTorch,
            result_count: 1,
            ingredients: seq![(ItemType::RedstoneDust, 1u32), (ItemType::Stick, 1u32)],
            needs_crafting_table: false,
            needs_furnace: false,
            shape_rows: None,
        },
        7 => RecipeData {
            result: ItemType::Lever,
            result_count: 1,
            ingredients: seq![(ItemType::Cobblestone, 1u32), (ItemType::Stick, 1u32)],
            needs_crafting_table: false,
            needs_furnace: false,
            shape_rows: None,
        },
        8 => RecipeData {
            result: ItemType::StoneButton,
            result_count: 1,
            ingredients: seq![(ItemType::Stone, 1u32)],
            needs_crafting_table: false,
            needs_furnace: false,
            shape_rows: None,
        },
        9 => RecipeData {
            result: ItemType::Bucket,
            result_count: 1,
            ingredients: seq![(ItemType::IronIngot, 3u32)],
            needs_crafting_table: false,
            needs_furnace: false,
            shape_rows: None,
        },
        10 => RecipeData {
            result: ItemType::Tnt,
            result_count: 1,
            ingredients: seq![(ItemType::Gunpowder, 5u32), (ItemType::Sand, 4u32)],
            needs_crafting_table: true,
            needs_furnace: false,
            shape_rows: None,
        },
        11 => RecipeData {
            result: ItemType::Piston,
            result_count: 1,
            ingredients: seq![(ItemType::Planks, 3u32), (ItemType::Cobblestone, 4u32), (ItemType::IronIngot, 1u32), (ItemType::RedstoneDust, 1u32)],
            needs_crafting_table: true,
            needs_furnace: false,
            shape_rows: None,
        },
        12 => RecipeData {
            result: ItemType::RedstoneRepeater,
            result_count: 1,
            ingredients: seq![(ItemType::Stone, 3u32), (ItemType::RedstoneTorch, 2u32), (ItemType::RedstoneDust, 1u32)],
            needs_crafting_table: true,
            needs_furnace: false,
            shape_rows: None,
        },
        13 => RecipeData {
            result: ItemType::WoodPickaxe,
            result_count: 1,
            ingredients: seq![(ItemType::Planks, 3u32), (ItemType::Stick, 2u32)],
            needs_crafting_table: true,
            needs_furnace: false,
            shape_rows: None,
        },
        14 => RecipeData {
            result: ItemType::StonePickaxe,
            result_count: 1,
            ingredients: seq![(ItemType::Cobblestone, 3u32), (ItemType::Stick, 2u32)],
            needs_crafting_table: true,
            needs_furnace: false,
            shape_rows: None,
        },
        15 => RecipeData {
            result: ItemType::IronPickaxe,
            result_count: 1,
            ingredients: seq![(ItemType::IronIngot, 3u32), (ItemType::Stick, 2u32)],
            needs_crafting_table: true,
            needs_furnace: false,
            shape_rows: None,
        },
        16 => RecipeData {
            result: ItemType::DiamondPickaxe,
            result_count: 1,
            ingredients: seq![(ItemType::Diamond, 3u32), (ItemType::Stick, 2u32)],
            needs_crafting_table: true,
            needs_furnace: false,
            shape_rows: None,
        },
        17 => RecipeData {
            result: ItemType::WoodAxe,
            result_count: 1,
            ingredients: seq![(ItemType::Planks, 3u32), (ItemType::Stick, 2u32)],
            needs_crafting_table: true,
            needs_furnace: false,
            shape_rows: None,
        },
        18 => RecipeData {
            result: ItemType::StoneAxe,
            result_count: 1,
            ingredients: seq![(ItemType::Cobblestone, 3u32), (ItemType::Stick, 2u32)],
            needs_crafting_table: true,
            needs_furnace: false,
            shape_rows: None,
        },
        19 => RecipeData {
            result: ItemType::IronAxe,
            result_count: 1,
            ingredients: seq![(ItemType::IronIngot, 3u32), (ItemType::Stick, 2u32)],
            needs_crafting_table: true,
            needs_furnace: false,
            shape_rows: None,
        },
        20 => RecipeData {
            result: ItemType::DiamondAxe,
            result_count: 1,
            ingredients: seq![(ItemType::Diamond, 3u32), (ItemType::Stick, 2u32)],
            needs_crafting_table: true,
            needs_furnace: false,
            shape_rows: None,
        },
        21 => RecipeData {
            result: ItemType::WoodShovel,
            result_count: 1,
            ingredients: seq![(ItemType::Planks, 1u32), (ItemType::Stick, 2u32)],
            needs_crafting_table: true,
            needs_furnace: false,
            shape_rows: None,
        },
        22 => RecipeData {
            result: ItemType::StoneShovel,
            result_count: 1,
            ingredients: seq![(ItemType::Cobblestone, 1u32), (ItemType::Stick, 2u32)],
            needs_crafting_table: true,
            needs_furnace: false,
            shape_rows: None,
        },
        23 => RecipeData {
            result: ItemType::IronShovel,
            result_count: 1,
            ingredients: seq![(ItemType::IronIngot, 1u32), (ItemType::Stick, 2u32)],
            needs_crafting_table: true,
            needs_furnace: false,
            shape_rows: None,
        },
        24 => RecipeData {
            result: ItemType::DiamondShovel,
            result_count: 1,
            ingredients: seq![(ItemType::Diamond, 1u32), (ItemType::Stick, 2u32)],
            needs_crafting_table: true,
            needs_furnace: false,
            shape_rows: None,
        },
        25 => RecipeData {
            result: ItemType::WoodSword,
            result_count: 1,
            ingredients: seq![(ItemType::Planks, 2u32), (ItemType::Stick, 1u32)],
            needs_crafting_table: true,
            needs_furnace: false,
            shape_rows: None,
        },
        26 => RecipeData {
            result: ItemType::StoneSword,
            result_count: 1,
            ingredients: seq![(ItemType::Cobblestone, 2u32), (ItemType::Stick, 1u32)],
            needs_crafting_table: true,
            needs_furnace: false,
            shape_rows: None,
        },
        27 => RecipeData {
            result: ItemType::IronSword,
            result_count: 1,
            ingredients: seq![(ItemType::IronIngot, 2u32), (ItemType::Stick, 1u32)],
            needs_crafting_table: true,
            needs_furnace: false,
            shape_rows: None,
        },
        28 => RecipeData {
            result: ItemType::DiamondSword,
            result_count: 1,
            ingredients: seq![(ItemType::Diamond, 2u32), (ItemType::Stick, 1u32)],
            needs_crafting_table: true,
            needs_furnace: false,
            shape_rows: None,
        },
        29 => RecipeData {
            result: ItemType::IronIngot,
            result_count: 1,
            ingredients: seq![(ItemType::RawIron, 1u32)],
            needs_crafting_table: false,
            needs_furnace: true,
            shape_rows: None,
        },
        30 => RecipeData {
            result: ItemType::Stone,
            result_count: 1,
            ingredients: seq![(ItemType::Cobblestone, 1u32)],
            needs_crafting_table: false,
            needs_furnace: true,
            shape_rows: None,
        },
        31 => RecipeData {
            result: ItemType::GoldIngot,
            result_count: 1,
            ingredients: seq![(ItemType::RawGold, 1u32)],
            needs_crafting_table: false,
            needs_furnace: true,
            shape_rows: None,
        },
        32 => RecipeData {
            result: ItemType::Glass,
            result_count: 1,
            ingredients: seq![(ItemType::Sand, 1u32)],
            needs_crafting_table: false,
            needs_furnace: true,
            shape_rows: None,
        },
        33 => RecipeData {
            result: ItemType::WoodHoe,
            result_count: 1,
            ingredients: seq![(ItemType::Planks, 2u32), (ItemType::Stick, 2u32)],
            needs_crafting_table: true,
            needs_furnace: false,
            shape_rows: None,
        },
        34 => RecipeData {
            result: ItemType::StoneHoe,
            result_count: 1,
            ingredients: seq![(ItemType::Cobblestone, 2u32), (ItemType::Stick, 2u32)],
            needs_crafting_table: true,
            needs_furnace: false,
            shape_rows: None,
        },
        35 => RecipeData {
            result: ItemType::IronHoe,
            result_count: 1,
            ingredients: seq![(ItemType::IronIngot, 2u32), (ItemType::Stick, 2u32)],
            needs_crafting_table: true,
            needs_furnace: false,
            shape_rows: None,
        },
        36 => RecipeData {
            result: ItemType::DiamondHoe,
            result_count: 1,
            ingredients: seq![(ItemType::Diamond, 2u32), (ItemType::Stick, 2u32)],
            needs_crafting_table: true,
            needs_furnace: false,
            shape_rows: None,
        },
        37 => RecipeData {
            result: ItemType::LeatherHelmet,
            result_count: 1,
            ingredients: seq![(ItemType::Leather, 5u32)],
            needs_crafting_table: true,
            needs_furnace: false,
            shape_rows: None,
        },
        38 => RecipeData {
            result: ItemType::LeatherChestplate,
            result_count: 1,
            ingredients: seq![(ItemType::Leather, 8u32)],
            needs_crafting_table: true,
            needs_furnace: false,
            shape_rows: None,
        },
        39 => RecipeData {
            result: ItemType::LeatherLeggings,
            result_count: 1,
            ingredients: seq![(ItemType::Leather, 7u32)],
            needs_crafting_table: true,
            needs_furnace: false,
            shape_rows: None,
        },
        40 => RecipeData {
            result: ItemType::LeatherBoots,
            result_count: 1,
            ingredients: seq![(ItemType::Leather, 4u32)],
            needs_crafting_table: true,
            needs_furnace: false,
            shape_rows: None,
        },
        41 => RecipeData {
            result: ItemType::IronHelmet,
            result_count: 1,
            ingredients: seq![(ItemType::IronIngot, 5u32)],
            needs_crafting_table: true,
            needs_furnace: false,
            shape_rows: None,
        },
        42 => RecipeData {
            result: ItemType::IronChestplate,
            result_count: 1,
            ingredients: seq![(ItemType::IronIngot, 8u32)],
            needs_crafting_table: true,
            needs_furnace: false,
            shape_rows: None,
        },
        43 => RecipeData {
            result: ItemType::IronLeggings,
            result_count: 1,
            ingredients: seq![(ItemType::IronIngot, 7u32)],
            needs_crafting_table: true,
            needs_furnace: false,
            shape_rows: None,
        },
        44 => RecipeData {
            result: ItemType::IronBoots,
            result_count: 1,
            ingredients: seq![(ItemType::IronIngot, 4u32)],
            needs_crafting_table: true,
            needs_furnace: false,
            shape_rows: None,
        },
        45 => RecipeData {
            result: ItemType::DiamondHelmet,
            result_count: 1,
            ingredients: seq![(ItemType::Diamond, 5u32)],
            needs_crafting_table: true,
            needs_furnace: false,
            shape_rows: None,
        },
        46 => RecipeData {
            result: ItemType::DiamondChestplate,
            result_count: 1,
            ingredients: seq![(ItemType::Diamond, 8u32)],
            needs_crafting_table: true,
            needs_furnace: false,
            shape_rows: None,
        },
        47 => RecipeData {
            result: ItemType::DiamondLeggings,
            result_count: 1,
            ingredients: seq![(ItemType::Diamond, 7u32)],
            needs_crafting_table: true,
            needs_furnace: false,
            shape_rows: None,
        },
        48 => RecipeData {
            result: ItemType::DiamondBoots,
            result_count: 1,
            ingredients: seq![(ItemType::Diamond, 4u32)],
            needs_crafting_table: true,
            needs_furnace: false,
            shape_rows: None,
        },
        49 => RecipeData {
            result: ItemType::Bread,
            result_count: 1,
            ingredients: seq![(ItemType::Wheat, 3u32)],
            needs_crafting_table: true,
            needs_furnace: false,
            shape_rows: None,
        },
        50 => RecipeData {
            result: ItemType::Bed,
            result_count: 1,
            ingredients: seq![(ItemType::Wool, 3u32), (ItemType::Planks, 3u32)],
            needs_crafting_table: true,
            needs_furnace: false,
            shape_rows: None,
        },
        51 => RecipeData {
            result: ItemType::Chest,
            result_count: 1,
            ingredients: seq![(ItemType::Planks, 8u32)],
            needs_crafting_table: true,
            needs_furnace: false,
            shape_rows: None,
        },
        52 => RecipeData {
            result: ItemType::WoodDoor,
            result_count: 3,
            ingredients: seq![(ItemType::Planks, 6u32)],
            needs_crafting_table: true,
            needs_furnace: false,
            shape_rows: None,
        },
        53 => RecipeData {
            result: ItemType::Ladder,
            result_count: 3,
            ingredients: seq![(ItemType::Stick, 7u32)],
            needs_crafting_table: true,
            needs_furnace: false,
            shape_rows: None,
        },
        54 => RecipeData {
            result: ItemType::StoneSlab,
            result_count: 6,
            ingredients: seq![(ItemType::Cobblestone, 3u32)],
            needs_crafting_table: true,
            needs_furnace: false,
            shape_rows: None,
        },
        55 => RecipeData {
            result: ItemType::StoneStairs,
            result_count: 4,
            ingredients: seq![(ItemType::Cobblestone, 6u32)],
            needs_crafting_table: true,
            needs_furnace: false,
            shape_rows: None,
        },
        56 => RecipeData {
            result: ItemType::EnchantingTable,
            result_count: 1,
            ingredients: seq![(ItemType::BlazePowder, 1u32), (ItemType::Diamond, 2u32), (ItemType::Obsidian, 4u32)],
            needs_crafting_table: true,
            needs_furnace: false,
            shape_rows: None,
        },
        57 => RecipeData {
            result: ItemType::Anvil,
            result_count: 1,
            ingredients: seq![(ItemType::IronIngot, 7u32)],
            needs_crafting_table: true,
            needs_furnace: false,
            shape_rows: None,
        },
        58 => RecipeData {
            result: ItemType::BrewingStand,
            result_count: 1,
            ingredients: seq![(ItemType::BlazeRod, 1u32), (ItemType::Cobblestone, 3u32)],
            needs_crafting_table: true,
            needs_furnace: false,
            shape_rows: None,
        },
        59 => RecipeData {
            result: ItemType::GlassBottle,
            result_count: 3,
            ingredients: seq![(ItemType::Glass, 3u32)],
            needs_crafting_table: false,
            needs_furnace: false,
            shape_rows: None,
        },
        60 => RecipeData {
            result: ItemType::MagmaCream,
            result_count: 1,
            ingredients: seq![(ItemType::Slimeball, 1u32), (ItemType::BlazePowder, 1u32)],
            needs_crafting_table: false,
            needs_furnace: false,
            shape_rows: None,
        },
        61 => RecipeData {
            result: ItemType::CookedBeef,
            result_count: 1,
            ingredients: seq![(ItemType::RawBeef, 1u32)],
            needs_crafting_table: false,
            needs_furnace: true,
            shape_rows: None,
        },
        62 => RecipeData {
            result: ItemType::CookedMutton,
            result_count: 1,
            ingredients: seq![(ItemType::RawMutton, 1u32)],
            needs_crafting_table: false,
            needs_furnace: true,
            shape_rows: None,
        },
        63 => RecipeData {
            result: ItemType::CookedPorkchop,
            result_count: 1,
            ingredients: seq![(ItemType::RawPorkchop, 1u32)],
            needs_crafting_table: false,
            needs_furnace: true,
            shape_rows: None,
        },
        64 => RecipeData {
            result: ItemType::CookedChicken,
            result_count: 1,
            ingredients: seq![(ItemType::RawChicken, 1u32)],
            needs_crafting_table: false,
            needs_furnace: true,
            shape_rows: None,
        },
        65 => RecipeData {
            result: ItemType::CookedFish,
            result_count: 1,
            ingredients: seq![(ItemType::RawFish, 1u32)],
            needs_crafting_table: false,
            needs_furnace: true,
            shape_rows: None,
        },
        66 => RecipeData {
            result: ItemType::Bow,
            result_count: 1,
            ingredients: seq![(ItemType::Stick, 3u32), (ItemType::String, 3u32)],
            needs_crafting_table: true,
            needs_furnace: false,
            shape_rows: None,
        },
        67 => RecipeData {
            result: ItemType::FishingRod,
            result_count: 1,
            ingredients: seq![(ItemType::Stick, 3u32), (ItemType::String, 2u32)],
            needs_crafting_table: true,
            needs_furnace: false,
            shape_rows: None,
        },
        68 => RecipeData {
            result: ItemType::Arrow,
            result_count: 4,
            ingredients: seq![(ItemType::Flint, 1u32), (ItemType::Stick, 1u32), (ItemType::Feather, 1u32)],
            needs_crafting_table: true,
            needs_furnace: false,
            shape_rows: Some(seq![seq![Some(ItemType::Flint)], seq![Some(ItemType::Stick)], seq![Some(ItemType::Feather)]]),
        },
        69 => RecipeData {
            result: ItemType::FlintAndSteel,
            result_count: 1,
            ingredients: seq![(ItemType::Flint, 1u32), (ItemType::IronIngot, 1u32)],
            needs_crafting_table: false,
            needs_furnace: false,
            shape_rows: Some(seq![seq![Some(ItemType::IronIngot), None], seq![None, Some(ItemType::Flint)]]),
        },
        70 => RecipeData {
            result: ItemType::Shears,
            result_count: 1,
            ingredients: seq![(ItemType::IronIngot, 2u32)],
            needs_crafting_table: false,
            needs_furnace: false,
            shape_rows: Some(seq![seq![Some(ItemType::IronIngot), None], seq![None, Some(ItemType::IronIngot)]]),
        },
        71 => RecipeData {
            result: ItemType::BlazePowder,
            result_count: 2,
            ingredients: seq![(ItemType::BlazeRod, 1u32)],
            needs_crafting_table: false,
            needs_furnace: false,
            shape_rows: None,
        },
        72 => RecipeData {
            result: ItemType::BoneMeal,
            result_count: 3,
            ingredients: seq![(ItemType::Bone, 1u32)],
            needs_crafting_table: false,
            needs_furnace: false,
            shape_rows: None,
        },
        73 => RecipeData {
            result: ItemType::Paper,
            result_count: 3,
            ingredients: seq![(ItemType::SugarCane, 3u32)],
            needs_crafting_table: true,
            needs_furnace: false,
            shape_rows: Some(seq![seq![Some(ItemType::SugarCane), Some(ItemType::SugarCane), Some(ItemType::SugarCane)]]),
        },
        74 => RecipeData {
            result: ItemType::Book,
            result_count: 1,
            ingredients: seq![(ItemType::Paper, 3u32), (ItemType::Leather, 1u32)],
            needs_crafting_table: false,
            needs_furnace: false,
            shape_rows: None,
        },
        75 => RecipeData {
            result: ItemType::Bookshelf,
            result_count: 1,
            ingredients: seq![(ItemType::Planks, 6u32), (ItemType::Book, 3u32)],
            needs_crafting_table: true,
            needs_furnace: false,
            shape_rows: Some(seq![seq![Some(ItemType::Planks), Some(ItemType::Planks), Some(ItemType::Planks)], seq![Some(ItemType::Book), Some(ItemType::Book), Some(ItemType::Book)], seq![Some(ItemType::Planks), Some(ItemType::Planks), Some(ItemType::Planks)]]),
        },
        76 => RecipeData {
            result: ItemType::Boat,
            result_count: 1,
            ingredients: seq![(ItemType::Planks, 5u32)],
            needs_crafting_table: true,
            needs_furnace: false,
            shape_rows: Some(seq![seq![Some(ItemType::Planks), None, Some(ItemType::Planks)], seq![Some(ItemType::Planks), Some(ItemType::Planks), Some(ItemType::Planks)]]),
        },
        77 => RecipeData {
            result: ItemType::EyeOfEnder,
            result_count: 1,
            ingredients: seq![(ItemType::EnderPearl, 1u32), (ItemType::BlazePowder, 1u32)],
            needs_crafting_table: false,
            needs_furnace: false,
            shape_rows: None,
        },
        _ => RecipeData {
            result: ItemType::Dirt,
            result_count: 0,
            ingredients: Seq::empty(),
            needs_crafting_table: false,
            needs_furnace: false,
            shape_rows: None,
        },
    }
}

/// The pattern a recipe for `result` gets when it is listed without one
/// (sticks only when made from two planks); None for shapeless recipes.
pub open spec fn default_shape_rows(
    result: ItemType,
    ingredients: Seq<(ItemType, u32)>,
) -> Option<Seq<Seq<Option<ItemType>>>> {
    match result {
        ItemType::Stick => if ingredients == seq![(ItemType::Planks, 2u32)] {
            Some(seq![seq![Some(ItemType::Planks)], seq![Some(ItemType::Planks)]])
        } else {
            None
        },
        ItemType::CraftingTable => Some(seq![seq![Some(ItemType::Planks), Some(ItemType::Planks)], seq![Some(ItemType::Planks), Some(ItemType::Planks)]]),
        ItemType::Furnace => Some(seq![seq![Some(ItemType::Cobblestone), Some(ItemType::Cobblestone), Some(ItemType::Cobblestone)], seq![Some(ItemType::Cobblestone), None, Some(ItemType::Cobblestone)], seq![Some(ItemType::Cobblestone), Some(ItemType::Cobblestone), Some(ItemType::Cobblestone)]]),
        ItemType::Torch => Some(seq![seq![Some(ItemType::Coal)], seq![Some(ItemType::Stick)]]),
        ItemType::RedstoneTorch => Some(seq![seq![Some(ItemType::RedstoneDust)], seq![Some(ItemType::Stick)]]),
        ItemType::Lever => Some(seq![seq![Some(ItemType::Stick)], seq![Some(ItemType::Cobblestone)]]),
        ItemType::StoneButton => Some(seq![seq![Some(ItemType::Stone)]]),
        ItemType::Bucket => Some(seq![seq![Some(ItemType::IronIngot), None, Some(ItemType::IronIngot)], seq![None, Some(ItemType::IronIngot), None]]),
        ItemType::Tnt => Some(seq![seq![Some(ItemType::Gunpowder), Some(ItemType::Sand), Some(ItemType::Gunpowder)], seq![Some(ItemType::Sand), Some(ItemType::Gunpowder), Some(ItemType::Sand)], seq![Some(ItemType::Gunpowder), Some(ItemType::Sand), Some(ItemType::Gunpowder)]]),
        ItemType::Piston => Some(seq![seq![Some(ItemType::Planks), Some(ItemType::Planks), Some(ItemType::Planks)], seq![Some(ItemType::Cobblestone), Some(ItemType::IronIngot), Some(ItemType::Cobblestone)], seq![Some(ItemType::Cobblestone), Some(ItemType::RedstoneDust), Some(ItemType::Cobblestone)]]),
        ItemType::RedstoneRepeater => Some(seq![seq![Some(ItemType::RedstoneTorch), Some(ItemType::RedstoneDust), Some(ItemType::RedstoneTorch)], seq![Some(ItemType::Stone), Some(ItemType::Stone), Some(ItemType::Stone)]]),
        ItemType::WoodPickaxe => Some(seq![seq![Some(ItemType::Planks), Some(ItemType::Planks), Some(ItemType::Planks)], seq![None, Some(ItemType::Stick), None], seq![None, Some(ItemType::Stick), None]]),
        ItemType::StonePickaxe => Some(seq![seq![Some(ItemType::Cobblestone), Some(ItemType::Cobblestone), Some(ItemType::Cobblestone)], seq![None, Some(ItemType::Stick), None], seq![None, Some(ItemType::Stick), None]]),
        ItemType::IronPickaxe => Some(seq![seq![Some(ItemType::IronIngot), Some(ItemType::IronIngot), Some(ItemType::IronIngot)], seq![None, Some(ItemType::Stick), None], seq![None, Some(ItemType::Stick), None]]),
        ItemType::DiamondPickaxe => Some(seq![seq![Some(ItemType::Diamond), Some(ItemType::Diamond), Some(ItemType::Diamond)], seq![None, Some(ItemType::Stick), None], seq![None, Some(ItemType::Stick), None]]),
        ItemType::WoodAxe => Some(seq![seq![Some(ItemType::Planks), Some(ItemType::Planks)], seq![Some(ItemType::Planks), Some(ItemType::Stick)], seq![None, Some(ItemType::Stick)]]),
        ItemType::StoneAxe => Some(seq![seq![Some(ItemType::Cobblestone), Some(ItemType::Cobblestone)], seq![Some(ItemType::Cobblestone), Some(ItemType::Stick)], seq![None, Some(ItemType::Stick)]]),
        ItemType::IronAxe => Some(seq![seq![Some(ItemType::IronIngot), Some(ItemType::IronIngot)], seq![Some(ItemType::IronIngot), Some(ItemType::Stick)], seq![None, Some(ItemType::Stick)]]),
        ItemType::DiamondAxe => Some(seq![seq![Some(ItemType::Diamond), Some(ItemType::Diamond)], seq![Some(ItemType::Diamond), Some(ItemType::Stick)], seq![None, Some(ItemType::Stick)]]),
        ItemType::WoodShovel => Some(seq![seq![Some(ItemType::Planks)], seq![Some(ItemType::Stick)], seq![Some(ItemType::Stick)]]),
        ItemType::StoneShovel => Some(seq![seq![Some(ItemType::Cobblestone)], seq![Some(ItemType::Stick)], seq![Some(ItemType::Stick)]]),
        ItemType::IronShovel => Some(seq![seq![Some(ItemType::IronIngot)], seq![Some(ItemType::Stick)], seq![Some(ItemType::Stick)]]),
        ItemType::DiamondShovel => Some(seq![seq![Some(ItemType::Diamond)], seq![Some(ItemType::Stick)], seq![Some(ItemType::Stick)]]),
        ItemType::WoodSword => Some(seq![seq![Some(ItemType::Planks)], seq![Some(ItemType::Planks)], seq![Some(ItemType::Stick)]]),
        ItemType::StoneSword => Some(seq![seq![Some(ItemType::Cobblestone)], seq![Some(ItemType::Cobblestone)], seq![Some(ItemType::Stick)]]),
        ItemType::IronSword => Some(seq![seq![Some(ItemType::IronIngot)], seq![Some(ItemType::IronIngot)], seq![Some(ItemType::Stick)]]),
        ItemType::DiamondSword => Some(seq![seq![Some(ItemType::Diamond)], seq![Some(ItemType::Diamond)], seq![Some(ItemType::Stick)]]),
        ItemType::WoodHoe => Some(seq![seq![Some(ItemType::Planks), Some(ItemType::Planks)], seq![None, Some(ItemType::Stick)], seq![None, Some(ItemType::Stick)]]),
        ItemType::StoneHoe => Some(seq![seq![Some(ItemType::Cobblestone), Some(ItemType::Cobblestone)], seq![None, Some(ItemType::Stick)], seq![None, Some(ItemType::Stick)]]),
        ItemType::IronHoe => Some(seq![seq![Some(ItemType::IronIngot), Some(ItemType::IronIngot)], seq![None, Some(ItemType::Stick)], seq![None, Some(ItemType::Stick)]]),
        ItemType::DiamondHoe => Some(seq![seq![Some(ItemType::Diamond), Some(ItemType::Diamond)], seq![None, Some(ItemType::Stick)], seq![None, Some(ItemType::Stick)]]),
        ItemType::Bread => Some(seq![seq![Some(ItemType::Wheat), Some(ItemType::Wheat), Some(ItemType::Wheat)]]),
        ItemType::Bed => Some(seq![seq![Some(ItemType::Wool), Some(ItemType::Wool), Some(ItemType::Wool)], seq![Some(ItemType::Planks), Some(ItemType::Planks), Some(ItemType::Planks)]]),
        ItemType::Chest => Some(seq![seq![Some(ItemType::Planks), Some(ItemType::Planks), Some(ItemType::Planks)], seq![Some(ItemType::Planks), None, Some(ItemType::Planks)], seq![Some(ItemType::Planks), Some(ItemType::Planks), Some(ItemType::Planks)]]),
        ItemType::EnchantingTable => Some(seq![seq![None, Some(ItemType::BlazePowder), None], seq![Some(ItemType::Diamond), Some(ItemType::Obsidian), Some(ItemType::Diamond)], seq![Some(ItemType::Obsidian), Some(ItemType::Obsidian), Some(ItemType::Obsidian)]]),
        ItemType::Anvil => Some(seq![seq![Some(ItemType::IronIngot), Some(ItemType::IronIngot), Some(ItemType::IronIngot)], seq![None, Some(ItemType::IronIngot), None], seq![Some(ItemType::IronIngot), Some(ItemType::IronIngot), Some(ItemType::IronIngot)]]),
        ItemType::BrewingStand => Some(seq![seq![None, Some(ItemType::BlazeRod), None], seq![Some(ItemType::Cobblestone), Some(ItemType::Cobblestone), Some(ItemType::Cobblestone)]]),
        ItemType::GlassBottle => Some(seq![seq![Some(ItemType::Glass), None, Some(ItemType::Glass)], seq![None, Some(ItemType::Glass), None]]),
        ItemType::WoodDoor => Some(seq![seq![Some(ItemType::Planks), Some(ItemType::Planks)], seq![Some(ItemType::Planks), Some(ItemType::Planks)], seq![Some(ItemType::Planks), Some(ItemType::Planks)]]),
        ItemType::Ladder => Some(seq![seq![Some(ItemType::Stick), None, Some(ItemType::Stick)], seq![Some(ItemType::Stick), Some(ItemType::Stick), Some(ItemType::Stick)], seq![Some(ItemType::Stick), None, Some(ItemType::Stick)]]),
        ItemType::StoneSlab => Some(seq![seq![Some(ItemType::Cobblestone), Some(ItemType::Cobblestone), Some(ItemType::Cobblestone)]]),
        ItemType::StoneStairs => Some(seq![seq![Some(ItemType::Cobblestone), None, None], seq![Some(ItemType::Cobblestone), Some(ItemType::Cobblestone), None], seq![Some(ItemType::Cobblestone), Some(ItemType::Cobblestone), Some(ItemType::Cobblestone)]]),
        ItemType::LeatherHelmet => Some(seq![seq![Some(ItemType::Leather), Some(ItemType::Leather), Some(ItemType::Leather)], seq![Some(ItemType::Leather), None, Some(ItemType::Leather)]]),
        ItemType::LeatherChestplate => Some(seq![seq![Some(ItemType::Leather), None, Some(ItemType::Leather)], seq![Some(ItemType::Leather), Some(ItemType::Leather), Some(ItemType::Leather)], seq![Some(ItemType::Leather), Some(ItemType::Leather), Some(ItemType::Leather)]]),
        ItemType::LeatherLeggings => Some(seq![seq![Some(ItemType::Leather), Some(ItemType::Leather), Some(ItemType::Leather)], seq![Some(ItemType::Leather), None, Some(ItemType::Leather)], seq![Some(ItemType::Leather), None, Some(ItemType::Leather)]]),
        ItemType::LeatherBoots => Some(seq![seq![Some(ItemType::Leather), None, Some(ItemType::Leather)], seq![Some(ItemType::Leather), None, Some(ItemType::Leather)]]),
        ItemType::IronHelmet => Some(seq![seq![Some(ItemType::IronIngot), Some(ItemType::IronIngot), Some(ItemType::IronIngot)], seq![Some(ItemType::IronIngot), None, Some(ItemType::IronIngot)]]),
        ItemType::IronChestplate => Some(seq![seq![Some(ItemType::IronIngot), None, Some(ItemType::IronIngot)], seq![Some(ItemType::IronIngot), Some(ItemType::IronIngot), Some(ItemType::IronIngot)], seq![Some(ItemType::IronIngot), Some(ItemType::IronIngot), Some(ItemType::IronIngot)]]),
        ItemType::IronLeggings => Some(seq![seq![Some(ItemType::IronIngot), Some(ItemType::IronIngot), Some(ItemType::IronIngot)], seq![Some(ItemType::IronIngot), None, Some(ItemType::IronIngot)], seq![Some(ItemType::IronIngot), None, Some(ItemType::IronIngot)]]),
        ItemType::IronBoots => Some(seq![seq![Some(ItemType::IronIngot), None, Some(ItemType::IronIngot)], seq![Some(ItemType::IronIngot), None, Some(ItemType::IronIngot)]]),
        ItemType::DiamondHelmet => Some(seq![seq![Some(ItemType::Diamond), Some(ItemType::Diamond), Some(ItemType::Diamond)], seq![Some(ItemType::Diamond), None, Some(ItemType::Diamond)]]),
        ItemType::DiamondChestplate => Some(seq![seq![Some(ItemType::Diamond), None, Some(ItemType::Diamond)], seq![Some(ItemType::Diamond), Some(ItemType::Diamond), Some(ItemType::Diamond)], seq![Some(ItemType::Diamond), Some(ItemType::Diamond), Some(ItemType::Diamond)]]),
        ItemType::DiamondLeggings => Some(seq![seq![Some(ItemType::Diamond), Some(ItemType::Diamond), Some(ItemType::Diamond)], seq![Some(ItemType::Diamond), None, Some(ItemType::Diamond)], seq![Some(ItemType::Diamond), None, Some(ItemType::Diamond)]]),
        ItemType::DiamondBoots => Some(seq![seq![Some(ItemType::Diamond), None, Some(ItemType::Diamond)], seq![Some(ItemType::Diamond), None, Some(ItemType::Diamond)]]),
        ItemType::Bow => Some(seq![seq![None, Some(ItemType::Stick), Some(ItemType::String)], seq![Some(ItemType::Stick), None, Some(ItemType::String)], seq![None, Some(ItemType::Stick), Some(ItemType::String)]]),
        ItemType::FishingRod => Some(seq![seq![None, None, Some(ItemType::Stick)], seq![None, Some(ItemType::Stick), Some(ItemType::String)], seq![Some(ItemType::Stick), None, Some(ItemType::String)]]),
        _ => None,
    }
}

/// The pattern a listed recipe ends up with: its own, none for furnace
/// recipes, or the default one for its result.
pub open spec fn final_shape_rows(d: RecipeData) -> Option<Seq<Seq<Option<ItemType>>>> {
    if d.needs_furnace || d.shape_rows is Some {
        d.shape_rows
    } else {
        default_shape_rows(d.result, d.ingredients)
    }
}

/// Whether a shape has exactly the given rows.
pub open spec fn shape_has_rows(shape: Option<RecipeShape>, rows: Option<Seq<Seq<Option<ItemType>>>>) -> bool {
    match rows {
        Some(rs) => shape matches Some(sh) && sh.height == rs.len() && sh.width == rs[0].len()
            && sh.slots@ == flatten_rows(rs) && sh.wf(),
        None => shape is None,
    }
}

/// Whether a recipe holds the given data with the given pattern.
pub open spec fn recipe_is(r: Recipe, d: RecipeData, rows: Option<Seq<Seq<Option<ItemType>>>>) -> bool {
    &&& r.result == d.result
    &&& r.result_count == d.result_count
    &&& r.ingredients@ == d.ingredients
    &&& r.needs_crafting_table == d.needs_crafting_table
    &&& r.needs_furnace == d.needs_furnace
    &&& shape_has_rows(r.shape, rows)
}

/// Recipes 0 to 7 of the book, as listed.
fn listed_recipes_0() -> (r: Vec<Recipe>)
    ensures
        r@.len() == 8,
        forall|i: int|
            0 <= i < 8 ==> recipe_is(
                #[trigger] r@[i],
                recipe_data((i + 0) as u8),
                recipe_data((i + 0) as u8).shape_rows,
            ),
{

    let r = vec![
        Recipe {
            result: ItemType::Planks,
            result_count: 4,
            ingredients: vec![(ItemType::Wood, 1)],
            needs_crafting_table: false,
            needs_furnace: false,
            shape: None,
        },
        Recipe {
            result: ItemType::Planks,
            result_count: 4,
            ingredients: vec![(ItemType::BirchWood, 1)],
            needs_crafting_table: false,
            needs_furnace: false,
            shape: None,
        },
        Recipe {
            result: ItemType::Stick,
            result_count: 4,
            ingredients: vec![(ItemType::Planks, 2)],
            needs_crafting_table: false,
            needs_furnace: false,
            shape: None,
        },
        Recipe {
            result: ItemType::CraftingTable,
            result_count: 1,
            ingredients: vec![(ItemType::Planks, 4)],
            needs_crafting_table: false,
            needs_furnace: false,
            shape: None,
        },
        Recipe {
            result: ItemType::Furnace,
            result_count: 1,
            ingredients: vec![(ItemType::Cobblestone, 8)],
            needs_crafting_table: true,
            needs_furnace: false,
            shape: None,
        },
        Recipe {
            result: ItemType::Torch,
            result_count: 4,
            ingredients: vec![(ItemType::Coal, 1), (ItemType::Stick, 1)],
            needs_crafting_table: false,
            needs_furnace: false,
            shape: None,
        },
        Recipe {
            result: ItemType::RedstoneTorch,
            result_count: 1,
            ingredients: vec![(ItemType::RedstoneDust, 1), (ItemType::Stick, 1)],
            needs_crafting_table: false,
            needs_furnace: false,
            shape: None,
        },
        Recipe {
            result: ItemType::Lever,
            result_count: 1,
            ingredients: vec![(ItemType::Cobblestone, 1), (ItemType::Stick, 1)],
            needs_crafting_table: false,
            needs_furnace: false,
            shape: None,
        },
    ];
    proof {
        assert(r@[0].ingredients@ =~= recipe_data(0).ingredients);
        assert(r@[1].ingredients@ =~= recipe_data(1).ingredients);
        assert(r@[2].ingredients@ =~= recipe_data(2).ingredients);
        assert(r@[3].ingredients@ =~= recipe_data(3).ingredients);
        assert(r@[4].ingredients@ =~= recipe_data(4).ingredients);
        assert(r@[5].ingredients@ =~= recipe_data(5).ingredients);
        assert(r@[6].ingredients@ =~= recipe_data(6).ingredients);
        assert(r@[7].ingredients@ =~= recipe_data(7).ingredients);
    }
    r
}

/// Recipes 8 to 15 of the book, as listed.
fn listed_recipes_1() -> (r: Vec<Recipe>)
    ensures
        r@.len() == 8,
        forall|i: int|
            0 <= i < 8 ==> recipe_is(
                #[trigger] r@[i],
                recipe_data((i + 8) as u8),
                recipe_data((i + 8) as u8).shape_rows,
            ),
{

    let r = vec![
        Recipe {
            result: ItemType::StoneButton,
            result_count: 1,
            ingredients: vec![(ItemType::Stone, 1)],
            needs_crafting_table: false,
            needs_furnace: false,
            shape: None,
        },
        Recipe {
            result: ItemType::Bucket,
            result_count: 1,
            ingredients: vec![(ItemType::IronIngot, 3)],
            needs_crafting_table: false,
            needs_furnace: false,
            shape: None,
        },
        Recipe {
            result: ItemType::Tnt,
            result_count: 1,
            ingredients: vec![(ItemType::Gunpowder, 5), (ItemType::Sand, 4)],
            needs_crafting_table: true,
            needs_furnace: false,
            shape: None,
        },
        Recipe {
            result: ItemType::Piston,
            result_count: 1,
            ingredients: vec![(ItemType::Planks, 3), (ItemType::Cobblestone, 4), (ItemType::IronIngot, 1), (ItemType::RedstoneDust, 1)],
            needs_crafting_table: true,
            needs_furnace: false,
            shape: None,
        },
        Recipe {
            result: ItemType::RedstoneRepeater,
            result_count: 1,
            ingredients: vec![(ItemType::Stone, 3), (ItemType::RedstoneTorch, 2), (ItemType::RedstoneDust, 1)],
            needs_crafting_table: true,
            needs_furnace: false,
            shape: None,
        },
        Recipe {
            result: ItemType::WoodPickaxe,
            result_count: 1,
            ingredients: vec![(ItemType::Planks, 3), (ItemType::Stick, 2)],
            needs_crafting_table: true,
            needs_furnace: false,
            shape: None,
        },
        Recipe {
            result: ItemType::StonePickaxe,
            result_count: 1,
            ingredients: vec![(ItemType::Cobblestone, 3), (ItemType::Stick, 2)],
            needs_crafting_table: true,
            needs_furnace: false,
            shape: None,
        },
        Recipe {
            result: ItemType::IronPickaxe,
            result_count: 1,
            ingredients: vec![(ItemType::IronIngot, 3), (ItemType::Stick, 2)],
            needs_crafting_table: true,
            needs_furnace: false,
            shape: None,
        },
    ];
    proof {
        assert(r@[0].ingredients@ =~= recipe_data(8).ingredients);
        assert(r@[1].ingredients@ =~= recipe_data(9).ingredients);
        assert(r@[2].ingredients@ =~= recipe_data(10).ingredients);
        assert(r@[3].ingredients@ =~= recipe_data(11).ingredients);
        assert(r@[4].ingredients@ =~= recipe_data(12).ingredients);
        assert(r@[5].ingredients@ =~= recipe_data(13).ingredients);
        assert(r@[6].ingredients@ =~= recipe_data(14).ingredients);
        assert(r@[7].ingredients@ =~= recipe_data(15).ingredients);
    }
    r
}

/// Recipes 16 to 23 of the book, as listed.
fn listed_recipes_2() -> (r: Vec<Recipe>)
    ensures
        r@.len() == 8,
        forall|i: int|
            0 <= i < 8 ==> recipe_is(
                #[trigger] r@[i],
                recipe_data((i + 16) as u8),
                recipe_data((i + 16) as u8).shape_rows,
            ),
{

    let r = vec![
        Recipe {
            result: ItemType::DiamondPickaxe,
            result_count: 1,
            ingredients: vec![(ItemType::Diamond, 3), (ItemType::Stick, 2)],
            needs_crafting_table: true,
            needs_furnace: false,
            shape: None,
        },
        Recipe {
            result: ItemType::WoodAxe,
            result_count: 1,
            ingredients: vec![(ItemType::Planks, 3), (ItemType::Stick, 2)],
            needs_crafting_table: true,
            needs_furnace: false,
            shape: None,
        },
        Recipe {
            result: ItemType::StoneAxe,
            result_count: 1,
            ingredients: vec![(ItemType::Cobblestone, 3), (ItemType::Stick, 2)],
            needs_crafting_table: true,
            needs_furnace: false,
            shape: None,
        },
        Recipe {
            result: ItemType::IronAxe,
            result_count: 1,
            ingredients: vec![(ItemType::IronIngot, 3), (ItemType::Stick, 2)],
            needs_crafting_table: true,
            needs_furnace: false,
            shape: None,
        },
        Recipe {
            result: ItemType::DiamondAxe,
            result_count: 1,
            ingredients: vec![(ItemType::Diamond, 3), (ItemType::Stick, 2)],
            needs_crafting_table: true,
            needs_furnace: false,
            shape: None,
        },
        Recipe {
            result: ItemType::WoodShovel,
            result_count: 1,
            ingredients: vec![(ItemType::Planks, 1), (ItemType::Stick, 2)],
            needs_crafting_table: true,
            needs_furnace: false,
            shape: None,
        },
        Recipe {
            result: ItemType::StoneShovel,
            result_count: 1,
            ingredients: vec![(ItemType::Cobblestone, 1), (ItemType::Stick, 2)],
            needs_crafting_table: true,
            needs_furnace: false,
            shape: None,
        },
        Recipe {
            result: ItemType::IronShovel,
            result_count: 1,
            ingredients: vec![(ItemType::IronIngot, 1), (ItemType::Stick, 2)],
            needs_crafting_table: true,
            needs_furnace: false,
            shape: None,
        },
    ];
    proof {
        assert(r@[0].ingredients@ =~= recipe_data(16).ingredients);
        assert(r@[1].ingredients@ =~= recipe_data(17).ingredients);
        assert(r@[2].ingredients@ =~= recipe_data(18).ingredients);
        assert(r@[3].ingredients@ =~= recipe_data(19).ingredients);
        assert(r@[4].ingredients@ =~= recipe_data(20).ingredients);
        assert(r@[5].ingredients@ =~= recipe_data(21).ingredients);
        assert(r@[6].ingredients@ =~= recipe_data(22).ingredients);
        assert(r@[7].ingredients@ =~= recipe_data(23).ingredients);
    }
    r
}

/// Recipes 24 to 31 of the book, as listed.
fn listed_recipes_3() -> (r: Vec<Recipe>)
    ensures
        r@.len() == 8,
        forall|i: int|
            0 <= i < 8 ==> recipe_is(
                #[trigger] r@[i],
                recipe_data((i + 24) as u8),
                recipe_data((i + 24) as u8).shape_rows,
            ),
{

    let r = vec![
        Recipe {
            result: ItemType::DiamondShovel,
            result_count: 1,
            ingredients: vec![(ItemType::Diamond, 1), (ItemType::Stick, 2)],
            needs_crafting_table: true,
            needs_furnace: false,
            shape: None,
        },
        Recipe {
            result: ItemType::WoodSword,
            result_count: 1,
            ingredients: vec![(ItemType::Planks, 2), (ItemType::Stick, 1)],
            needs_crafting_table: true,
            needs_furnace: false,
            shape: None,
        },
        Recipe {
            result: ItemType::StoneSword,
            result_count: 1,
            ingredients: vec![(ItemType::Cobblestone, 2), (ItemType::Stick, 1)],
            needs_crafting_table: true,
            needs_furnace: false,
            shape: None,
        },
        Recipe {
            result: ItemType::IronSword,
            result_count: 1,
            ingredients: vec![(ItemType::IronIngot, 2), (ItemType::Stick, 1)],
            needs_crafting_table: true,
            needs_furnace: false,
            shape: None,
        },
        Recipe {
            result: ItemType::DiamondSword,
            result_count: 1,
            ingredients: vec![(ItemType::Diamond, 2), (ItemType::Stick, 1)],
            needs_crafting_table: true,
            needs_furnace: false,
            shape: None,
        },
        Recipe {
            result: ItemType::IronIngot,
            result_count: 1,
            ingredients: vec![(ItemType::RawIron, 1)],
            needs_crafting_table: false,
            needs_furnace: true,
            shape: None,
        },
        Recipe {
            result: ItemType::Stone,
            result_count: 1,
            ingredients: vec![(ItemType::Cobblestone, 1)],
            needs_crafting_table: false,
            needs_furnace: true,
            shape: None,
        },
        Recipe {
            result: ItemType::GoldIngot,
            result_count: 1,
            ingredients: vec![(ItemType::RawGold, 1)],
            needs_crafting_table: false,
            needs_furnace: true,
            shape: None,
        },
    ];
    proof {
        assert(r@[0].ingredients@ =~= recipe_data(24).ingredients);
        assert(r@[1].ingredients@ =~= recipe_data(25).ingredients);
        assert(r@[2].ingredients@ =~= recipe_data(26).ingredients);
        assert(r@[3].ingredients@ =~= recipe_data(27).ingredients);
        assert(r@[4].ingredients@ =~= recipe_data(28).ingredients);
        assert(r@[5].ingredients@ =~= recipe_data(29).ingredients);
        assert(r@[6].ingredients@ =~= recipe_data(30).ingredients);
        assert(r@[7].ingredients@ =~= recipe_data(31).ingredients);
    }
    r
}

/// Recipes 32 to 39 of the book, as listed.
fn listed_recipes_4() -> (r: Vec<Recipe>)
    ensures
        r@.len() == 8,
        forall|i: int|
            0 <= i < 8 ==> recipe_is(
                #[trigger] r@[i],
                recipe_data((i + 32) as u8),
                recipe_data((i + 32) as u8).shape_rows,
            ),
{

    let r = vec![
        Recipe {
            result: ItemType::Glass,
            result_count: 1,
            ingredients: vec![(ItemType::Sand, 1)],
            needs_crafting_table: false,
            needs_furnace: true,
            shape: None,
        },
        Recipe {
            result: ItemType::WoodHoe,
            result_count: 1,
            ingredients: vec![(ItemType::Planks, 2), (ItemType::Stick, 2)],
            needs_crafting_table: true,
            needs_furnace: false,
            shape: None,
        },
        Recipe {
            result: ItemType::StoneHoe,
            result_count: 1,
            ingredients: vec![(ItemType::Cobblestone, 2), (ItemType::Stick, 2)],
            needs_crafting_table: true,
            needs_furnace: false,
            shape: None,
        },
        Recipe {
            result: ItemType::IronHoe,
            result_count: 1,
            ingredients: vec![(ItemType::IronIngot, 2), (ItemType::Stick, 2)],
            needs_crafting_table: true,
            needs_furnace: false,
            shape: None,
        },
        Recipe {
            result: ItemType::DiamondHoe,
            result_count: 1,
            ingredients: vec![(ItemType::Diamond, 2), (ItemType::Stick, 2)],
            needs_crafting_table: true,
            needs_furnace: false,
            shape: None,
        },
        Recipe {
            result: ItemType::LeatherHelmet,
            result_count: 1,
            ingredients: vec![(ItemType::Leather, 5)],
            needs_crafting_table: true,
            needs_furnace: false,
            shape: None,
        },
        Recipe {
            result: ItemType::LeatherChestplate,
            result_count: 1,
            ingredients: vec![(ItemType::Leather, 8)],
            needs_crafting_table: true,
            needs_furnace: false,
            shape: None,
        },
        Recipe {
            result: ItemType::LeatherLeggings,
            result_count: 1,
            ingredients: vec![(ItemType::Leather, 7)],
            needs_crafting_table: true,
            needs_furnace: false,
            shape: None,
        },
    ];
    proof {
        assert(r@[0].ingredients@ =~= recipe_data(32).ingredients);
        assert(r@[1].ingredients@ =~= recipe_data(33).ingredients);
        assert(r@[2].ingredients@ =~= recipe_data(34).ingredients);
        assert(r@[3].ingredients@ =~= recipe_data(35).ingredients);
        assert(r@[4].ingredients@ =~= recipe_data(36).ingredients);
        assert(r@[5].ingredients@ =~= recipe_data(37).ingredients);
        assert(r@[6].ingredients@ =~= recipe_data(38).ingredients);
        assert(r@[7].ingredients@ =~= recipe_data(39).ingredients);
    }
    r
}

/// Recipes 40 to 47 of the book, as listed.
fn listed_recipes_5() -> (r: Vec<Recipe>)
    ensures
        r@.len() == 8,
        forall|i: int|
            0 <= i < 8 ==> recipe_is(
                #[trigger] r@[i],
                recipe_data((i + 40) as u8),
                recipe_data((i + 40) as u8).shape_rows,
            ),
{

    let r = vec![
        Recipe {
            result: ItemType::LeatherBoots,
            result_count: 1,
            ingredients: vec![(ItemType::Leather, 4)],
            needs_crafting_table: true,
            needs_furnace: false,
            shape: None,
        },
        Recipe {
            result: ItemType::IronHelmet,
            result_count: 1,
            ingredients: vec![(ItemType::IronIngot, 5)],
            needs_crafting_table: true,
            needs_furnace: false,
            shape: None,
        },
        Recipe {
            result: ItemType::IronChestplate,
            result_count: 1,
            ingredients: vec![(ItemType::IronIngot, 8)],
            needs_crafting_table: true,
            needs_furnace: false,
            shape: None,
        },
        Recipe {
            result: ItemType::IronLeggings,
            result_count: 1,
            ingredients: vec![(ItemType::IronIngot, 7)],
            needs_crafting_table: true,
            needs_furnace: false,
            shape: None,
        },
        Recipe {
            result: ItemType::IronBoots,
            result_count: 1,
            ingredients: vec![(ItemType::IronIngot, 4)],
            needs_crafting_table: true,
            needs_furnace: false,
            shape: None,
        },
        Recipe {
            result: ItemType::DiamondHelmet,
            result_count: 1,
            ingredients: vec![(ItemType::Diamond, 5)],
            needs_crafting_table: true,
            needs_furnace: false,
            shape: None,
        },
        Recipe {
            result: ItemType::DiamondChestplate,
            result_count: 1,
            ingredients: vec![(ItemType::Diamond, 8)],
            needs_crafting_table: true,
            needs_furnace: false,
            shape: None,
        },
        Recipe {
            result: ItemType::DiamondLeggings,
            result_count: 1,
            ingredients: vec![(ItemType::Diamond, 7)],
            needs_crafting_table: true,
            needs_furnace: false,
            shape: None,
        },
    ];
    proof {
        assert(r@[0].ingredients@ =~= recipe_data(40).ingredients);
        assert(r@[1].ingredients@ =~= recipe_data(41).ingredients);
        assert(r@[2].ingredients@ =~= recipe_data(42).ingredients);
        assert(r@[3].ingredients@ =~= recipe_data(43).ingredients);
        assert(r@[4].ingredients@ =~= recipe_data(44).ingredients);
        assert(r@[5].ingredients@ =~= recipe_data(45).ingredients);
        assert(r@[6].ingredients@ =~= recipe_data(46).ingredients);
        assert(r@[7].ingredients@ =~= recipe_data(47).ingredients);
    }
    r
}

/// Recipes 48 to 55 of the book, as listed.
fn listed_recipes_6() -> (r: Vec<Recipe>)
    ensures
        r@.len() == 8,
        forall|i: int|
            0 <= i < 8 ==> recipe_is(
                #[trigger] r@[i],
                recipe_data((i + 48) as u8),
                recipe_data((i + 48) as u8).shape_rows,
            ),
{

    let r = vec![
        Recipe {
            result: ItemType::DiamondBoots,
            result_count: 1,
            ingredients: vec![(ItemType::Diamond, 4)],
            needs_crafting_table: true,
            needs_furnace: false,
            shape: None,
        },
        Recipe {
            result: ItemType::Bread,
            result_count: 1,
            ingredients: vec![(ItemType::Wheat, 3)],
            needs_crafting_table: true,
            needs_furnace: false,
            shape: None,
        },
        Recipe {
            result: ItemType::Bed,
            result_count: 1,
            ingredients: vec![(ItemType::Wool, 3), (ItemType::Planks, 3)],
            needs_crafting_table: true,
            needs_furnace: false,
            shape: None,
        },
        Recipe {
            result: ItemType::Chest,
            result_count: 1,
            ingredients: vec![(ItemType::Planks, 8)],
            needs_crafting_table: true,
            needs_furnace: false,
            shape: None,
        },
        Recipe {
            result: ItemType::WoodDoor,
            result_count: 3,
            ingredients: vec![(ItemType::Planks, 6)],
            needs_crafting_table: true,
            needs_furnace: false,
            shape: None,
        },
        Recipe {
            result: ItemType::Ladder,
            result_count: 3,
            ingredients: vec![(ItemType::Stick, 7)],
            needs_crafting_table: true,
            needs_furnace: false,
            shape: None,
        },
        Recipe {
            result: ItemType::StoneSlab,
            result_count: 6,
            ingredients: vec![(ItemType::Cobblestone, 3)],
            needs_crafting_table: true,
            needs_furnace: false,
            shape: None,
        },
        Recipe {
            result: ItemType::StoneStairs,
            result_count: 4,
            ingredients: vec![(ItemType::Cobblestone, 6)],
            needs_crafting_table: true,
            needs_furnace: false,
            shape: None,
        },
    ];
    proof {
        assert(r@[0].ingredients@ =~= recipe_data(48).ingredients);
        assert(r@[1].ingredients@ =~= recipe_data(49).ingredients);
        assert(r@[2].ingredients@ =~= recipe_data(50).ingredients);
        assert(r@[3].ingredients@ =~= recipe_data(51).ingredients);
        assert(r@[4].ingredients@ =~= recipe_data(52).ingredients);
        assert(r@[5].ingredients@ =~= recipe_data(53).ingredients);
        assert(r@[6].ingredients@ =~= recipe_data(54).ingredients);
        assert(r@[7].ingredients@ =~= recipe_data(55).ingredients);
    }
    r
}

/// Recipes 56 to 63 of the book, as listed.
fn listed_recipes_7() -> (r: Vec<Recipe>)
    ensures
        r@.len() == 8,
        forall|i: int|
            0 <= i < 8 ==> recipe_is(
                #[trigger] r@[i],
                recipe_data((i + 56) as u8),
                recipe_data((i + 56) as u8).shape_rows,
            ),
{

    let r = vec![
        Recipe {
            result: ItemType::EnchantingTable,
            result_count: 1,
            ingredients: vec![(ItemType::BlazePowder, 1), (ItemType::Diamond, 2), (ItemType::Obsidian, 4)],
            needs_crafting_table: true,
            needs_furnace: false,
            shape: None,
        },
        Recipe {
            result: ItemType::Anvil,
            result_count: 1,
            ingredients: vec![(ItemType::IronIngot, 7)],
            needs_crafting_table: true,
            needs_furnace: false,
            shape: None,
        },
        Recipe {
            result: ItemType::BrewingStand,
            result_count: 1,
            ingredients: vec![(ItemType::BlazeRod, 1), (ItemType::Cobblestone, 3)],
            needs_crafting_table: true,
            needs_furnace: false,
            shape: None,
        },
        Recipe {
            result: ItemType::GlassBottle,
            result_count: 3,
            ingredients: vec![(ItemType::Glass, 3)],
            needs_crafting_table: false,
            needs_furnace: false,
            shape: None,
        },
        Recipe {
            result: ItemType::MagmaCream,
            result_count: 1,
            ingredients: vec![(ItemType::Slimeball, 1), (ItemType::BlazePowder, 1)],
            needs_crafting_table: false,
            needs_furnace: false,
            shape: None,
        },
        Recipe {
            result: ItemType::CookedBeef,
            result_count: 1,
            ingredients: vec![(ItemType::RawBeef, 1)],
            needs_crafting_table: false,
            needs_furnace: true,
            shape: None,
        },
        Recipe {
            result: ItemType::CookedMutton,
            result_count: 1,
            ingredients: vec![(ItemType::RawMutton, 1)],
            needs_crafting_table: false,
            needs_furnace: true,
            shape: None,
        },
        Recipe {
            result: ItemType::CookedPorkchop,
            result_count: 1,
            ingredients: vec![(ItemType::RawPorkchop, 1)],
            needs_crafting_table: false,
            needs_furnace: true,
            shape: None,
        },
    ];
    proof {
        assert(r@[0].ingredients@ =~= recipe_data(56).ingredients);
        assert(r@[1].ingredients@ =~= recipe_data(57).ingredients);
        assert(r@[2].ingredients@ =~= recipe_data(58).ingredients);
        assert(r@[3].ingredients@ =~= recipe_data(59).ingredients);
        assert(r@[4].ingredients@ =~= recipe_data(60).ingredients);
        assert(r@[5].ingredients@ =~= recipe_data(61).ingredients);
        assert(r@[6].ingredients@ =~= recipe_data(62).ingredients);
        assert(r@[7].ingredients@ =~= recipe_data(63).ingredients);
    }
    r
}

/// Recipes 64 to 71 of the book, as listed.
fn listed_recipes_8() -> (r: Vec<Recipe>)
    ensures
        r@.len() == 8,
        forall|i: int|
            0 <= i < 8 ==> recipe_is(
                #[trigger] r@[i],
                recipe_data((i + 64) as u8),
                recipe_data((i + 64) as u8).shape_rows,
            ),
{
    let shape_68_rows: &[&[Option<ItemType>]] = &[&[Some(ItemType::Flint)], &[Some(ItemType::Stick)], &[Some(ItemType::Feather)]];
    proof {
        assert(row_views(shape_68_rows@) =~= seq![seq![Some(ItemType::Flint)], seq![Some(ItemType::Stick)], seq![Some(ItemType::Feather)]]) by {
            assert(shape_68_rows@[0]@ =~= seq![Some(ItemType::Flint)]);
            assert(shape_68_rows@[1]@ =~= seq![Some(ItemType::Stick)]);
            assert(shape_68_rows@[2]@ =~= seq![Some(ItemType::Feather)]);
        }
    }
    let shape_68 = RecipeShape::new(shape_68_rows);
    let shape_69_rows: &[&[Option<ItemType>]] = &[&[Some(ItemType::IronIngot), None], &[None, Some(ItemType::Flint)]];
    proof {
        assert(row_views(shape_69_rows@) =~= seq![seq![Some(ItemType::IronIngot), None], seq![None, Some(ItemType::Flint)]]) by {
            assert(shape_69_rows@[0]@ =~= seq![Some(ItemType::IronIngot), None]);
            assert(shape_69_rows@[1]@ =~= seq![None, Some(ItemType::Flint)]);
        }
    }
    let shape_69 = RecipeShape::new(shape_69_rows);
    let shape_70_rows: &[&[Option<ItemType>]] = &[&[Some(ItemType::IronIngot), None], &[None, Some(ItemType::IronIngot)]];
    proof {
        assert(row_views(shape_70_rows@) =~= seq![seq![Some(ItemType::IronIngot), None], seq![None, Some(ItemType::IronIngot)]]) by {
            assert(shape_70_rows@[0]@ =~= seq![Some(ItemType::IronIngot), None]);
            assert(shape_70_rows@[1]@ =~= seq![None, Some(ItemType::IronIngot)]);
        }
    }
    let shape_70 = RecipeShape::new(shape_70_rows);
    let r = vec![
        Recipe {
            result: ItemType::CookedChicken,
            result_count: 1,
            ingredients: vec![(ItemType::RawChicken, 1)],
            needs_crafting_table: false,
            needs_furnace: true,
            shape: None,
        },
        Recipe {
            result: ItemType::CookedFish,
            result_count: 1,
            ingredients: vec![(ItemType::RawFish, 1)],
            needs_crafting_table: false,
            needs_furnace: true,
            shape: None,
        },
        Recipe {
            result: ItemType::Bow,
            result_count: 1,
            ingredients: vec![(ItemType::Stick, 3), (ItemType::String, 3)],
            needs_crafting_table: true,
            needs_furnace: false,
            shape: None,
        },
        Recipe {
            result: ItemType::FishingRod,
            result_count: 1,
            ingredients: vec![(ItemType::Stick, 3), (ItemType::String, 2)],
            needs_crafting_table: true,
            needs_furnace: false,
            shape: None,
        },
        Recipe {
            result: ItemType::Arrow,
            result_count: 4,
            ingredients: vec![(ItemType::Flint, 1), (ItemType::Stick, 1), (ItemType::Feather, 1)],
            needs_crafting_table: true,
            needs_furnace: false,
            shape: Some(shape_68),
        },
        Recipe {
            result: ItemType::FlintAndSteel,
            result_count: 1,
            ingredients: vec![(ItemType::Flint, 1), (ItemType::IronIngot, 1)],
            needs_crafting_table: false,
            needs_furnace: false,
            shape: Some(shape_69),
        },
        Recipe {
            result: ItemType::Shears,
            result_count: 1,
            ingredients: vec![(ItemType::IronIngot, 2)],
            needs_crafting_table: false,
            needs_furnace: false,
            shape: Some(shape_70),
        },
        Recipe {
            result: ItemType::BlazePowder,
            result_count: 2,
            ingredients: vec![(ItemType::BlazeRod, 1)],
            needs_crafting_table: false,
            needs_furnace: false,
            shape: None,
        },
    ];
    proof {
        assert(r@[0].ingredients@ =~= recipe_data(64).ingredients);
        assert(r@[1].ingredients@ =~= recipe_data(65).ingredients);
        assert(r@[2].ingredients@ =~= recipe_data(66).ingredients);
        assert(r@[3].ingredients@ =~= recipe_data(67).ingredients);
        assert(r@[4].ingredients@ =~= recipe_data(68).ingredients);
        assert(r@[5].ingredients@ =~= recipe_data(69).ingredients);
        assert(r@[6].ingredients@ =~= recipe_data(70).ingredients);
        assert(r@[7].ingredients@ =~= recipe_data(71).ingredients);
    }
    r
}

/// Recipes 72 to 77 of the book, as listed.
fn listed_recipes_9() -> (r: Vec<Recipe>)
    ensures
        r@.len() == 6,
        forall|i: int|
            0 <= i < 6 ==> recipe_is(
                #[trigger] r@[i],
                recipe_data((i + 72) as u8),
                recipe_data((i + 72) as u8).shape_rows,
            ),
{
    let shape_73_rows: &[&[Option<ItemType>]] = &[&[Some(ItemType::SugarCane), Some(ItemType::SugarCane), Some(ItemType::SugarCane)]];
    proof {
        assert(row_views(shape_73_rows@) =~= seq![seq![Some(ItemType::SugarCane), Some(ItemType::SugarCane), Some(ItemType::SugarCane)]]) by {
            assert(shape_73_rows@[0]@ =~= seq![Some(ItemType::SugarCane), Some(ItemType::SugarCane), Some(ItemType::SugarCane)]);
        }
    }
    let shape_73 = RecipeShape::new(shape_73_rows);
    let shape_75_rows: &[&[Option<ItemType>]] = &[&[Some(ItemType::Planks), Some(ItemType::Planks), Some(ItemType::Planks)], &[Some(ItemType::Book), Some(ItemType::Book), Some(ItemType::Book)], &[Some(ItemType::Planks), Some(ItemType::Planks), Some(ItemType::Planks)]];
    proof {
        assert(row_views(shape_75_rows@) =~= seq![seq![Some(ItemType::Planks), Some(ItemType::Planks), Some(ItemType::Planks)], seq![Some(ItemType::Book), Some(ItemType::Book), Some(ItemType::Book)], seq![Some(ItemType::Planks), Some(ItemType::Planks), Some(ItemType::Planks)]]) by {
            assert(shape_75_rows@[0]@ =~= seq![Some(ItemType::Planks), Some(ItemType::Planks), Some(ItemType::Planks)]);
            assert(shape_75_rows@[1]@ =~= seq![Some(ItemType::Book), Some(ItemType::Book), Some(ItemType::Book)]);
            assert(shape_75_rows@[2]@ =~= seq![Some(ItemType::Planks), Some(ItemType::Planks), Some(ItemType::Planks)]);
        }
    }
    let shape_75 = RecipeShape::new(shape_75_rows);
    let shape_76_rows: &[&[Option<ItemType>]] = &[&[Some(ItemType::Planks), None, Some(ItemType::Planks)], &[Some(ItemType::Planks), Some(ItemType::Planks), Some(ItemType::Planks)]];
    proof {
        assert(row_views(shape_76_rows@) =~= seq![seq![Some(ItemType::Planks), None, Some(ItemType::Planks)], seq![Some(ItemType::Planks), Some(ItemType::Planks), Some(ItemType::Planks)]]) by {
            assert(shape_76_rows@[0]@ =~= seq![Some(ItemType::Planks), None, Some(ItemType::Planks)]);
            assert(shape_76_rows@[1]@ =~= seq![Some(ItemType::Planks), Some(ItemType::Planks), Some(ItemType::Planks)]);
        }
    }
    let shape_76 = RecipeShape::new(shape_76_rows);
    let r = vec![
        Recipe {
            result: ItemType::BoneMeal,
            result_count: 3,
            ingredients: vec![(ItemType::Bone, 1)],
            needs_crafting_table: false,
            needs_furnace: false,
            shape: None,
        },
        Recipe {
            result: ItemType::Paper,
            result_count: 3,
            ingredients: vec![(ItemType::SugarCane, 3)],
            needs_crafting_table: true,
            needs_furnace: false,
            shape: Some(shape_73),
        },
        Recipe {
            result: ItemType::Book,
            result_count: 1,
            ingredients: vec![(ItemType::Paper, 3), (ItemType::Leather, 1)],
            needs_crafting_table: false,
            needs_furnace: false,
            shape: None,
        },
        Recipe {
            result: ItemType::Bookshelf,
            result_count: 1,
            ingredients: vec![(ItemType::Planks, 6), (ItemType::Book, 3)],
            needs_crafting_table: true,
            needs_furnace: false,
            shape: Some(shape_75),
        },
        Recipe {
            result: ItemType::Boat,
            result_count: 1,
            ingredients: vec![(ItemType::Planks, 5)],
            needs_crafting_table: true,
            needs_furnace: false,
            shape: Some(shape_76),
        },
        Recipe {
            result: ItemType::EyeOfEnder,
            result_count: 1,
            ingredients: vec![(ItemType::EnderPearl, 1), (ItemType::BlazePowder, 1)],
            needs_crafting_table: false,
            needs_furnace: false,
            shape: None,
        },
    ];
    proof {
        assert(r@[0].ingredients@ =~= recipe_data(72).ingredients);
        assert(r@[1].ingredients@ =~= recipe_data(73).ingredients);
        assert(r@[2].ingredients@ =~= recipe_data(74).ingredients);
        assert(r@[3].ingredients@ =~= recipe_data(75).ingredients);
        assert(r@[4].ingredients@ =~= recipe_data(76).ingredients);
        assert(r@[5].ingredients@ =~= recipe_data(77).ingredients);
    }
    r
}

/// Whether an ingredient list is exactly two planks.
fn is_two_planks(v: &Vec<(ItemType, u32)>) -> (r: bool)
    ensures
        r == (v@ == seq![(ItemType::Planks, 2u32)]),
{
    if v.len() == 1 && v[0].0 == ItemType::Planks && v[0].1 == 2 {
        assert(v@ =~= seq![(ItemType::Planks, 2u32)]);
        true
    } else {
        false
    }
}

impl Recipe {
    /// Gives a recipe listed without a pattern its default one; furnace
    /// recipes and recipes that already have a pattern are left alone.
    fn apply_default_shape(&mut self)
        ensures
            final(self).result == old(self).result,
            final(self).result_count == old(self).result_count,
            final(self).ingredients == old(self).ingredients,
            final(self).needs_crafting_table == old(self).needs_crafting_table,
            final(self).needs_furnace == old(self).needs_furnace,
            (old(self).needs_furnace || old(self).shape is Some) ==> final(self).shape == old(
                self,
            ).shape,
            !(old(self).needs_furnace || old(self).shape is Some) ==> shape_has_rows(
                final(self).shape,
                default_shape_rows(old(self).result, old(self).ingredients@),
            ),
    {
        if self.needs_furnace || self.shape.is_some() {
            return;
        }
        self.shape = match self.result {
            ItemType::Stick => if is_two_planks(&self.ingredients) {
                let shape_rows: &[&[Option<ItemType>]] = &[&[Some(ItemType::Planks)], &[Some(ItemType::Planks)]];
                proof {
                    assert(row_views(shape_rows@) =~= seq![seq![Some(ItemType::Planks)], seq![Some(ItemType::Planks)]]) by {
                        assert(shape_rows@[0]@ =~= seq![Some(ItemType::Planks)]);
                        assert(shape_rows@[1]@ =~= seq![Some(ItemType::Planks)]);
                    }
                }
                let shape = RecipeShape::new(shape_rows);
                Some(shape)
            } else {
                None
            },
            ItemType::CraftingTable => {
                let shape_rows: &[&[Option<ItemType>]] = &[&[Some(ItemType::Planks), Some(ItemType::Planks)], &[Some(ItemType::Planks), Some(ItemType::Planks)]];
                proof {
                    assert(row_views(shape_rows@) =~= seq![seq![Some(ItemType::Planks), Some(ItemType::Planks)], seq![Some(ItemType::Planks), Some(ItemType::Planks)]]) by {
                        assert(shape_rows@[0]@ =~= seq![Some(ItemType::Planks), Some(ItemType::Planks)]);
                        assert(shape_rows@[1]@ =~= seq![Some(ItemType::Planks), Some(ItemType::Planks)]);
                    }
                }
                let shape = RecipeShape::new(shape_rows);
                Some(shape)
            },
            ItemType::Furnace => {
                let shape_rows: &[&[Option<ItemType>]] = &[&[Some(ItemType::Cobblestone), Some(ItemType::Cobblestone), Some(ItemType::Cobblestone)], &[Some(ItemType::Cobblestone), None, Some(ItemType::Cobblestone)], &[Some(ItemType::Cobblestone), Some(ItemType::Cobblestone), Some(ItemType::Cobblestone)]];
                proof {
                    assert(row_views(shape_rows@) =~= seq![seq![Some(ItemType::Cobblestone), Some(ItemType::Cobblestone), Some(ItemType::Cobblestone)], seq![Some(ItemType::Cobblestone), None, Some(ItemType::Cobblestone)], seq![Some(ItemType::Cobblestone), Some(ItemType::Cobblestone), Some(ItemType::Cobblestone)]]) by {
                        assert(shape_rows@[0]@ =~= seq![Some(ItemType::Cobblestone), Some(ItemType::Cobblestone), Some(ItemType::Cobblestone)]);
                        assert(shape_rows@[1]@ =~= seq![Some(ItemType::Cobblestone), None, Some(ItemType::Cobblestone)]);
                        assert(shape_rows@[2]@ =~= seq![Some(ItemType::Cobblestone), Some(ItemType::Cobblestone), Some(ItemType::Cobblestone)]);
                    }
                }
                let shape = RecipeShape::new(shape_rows);
                Some(shape)
            },
            ItemType::Torch => {
                let shape_rows: &[&[Option<ItemType>]] = &[&[Some(ItemType::Coal)], &[Some(ItemType::Stick)]];
                proof {
                    assert(row_views(shape_rows@) =~= seq![seq![Some(ItemType::Coal)], seq![Some(ItemType::Stick)]]) by {
                        assert(shape_rows@[0]@ =~= seq![Some(ItemType::Coal)]);
                        assert(shape_rows@[1]@ =~= seq![Some(ItemType::Stick)]);
                    }
                }
                let shape = RecipeShape::new(shape_rows);
                Some(shape)
            },
            ItemType::RedstoneTorch => {
                let shape_rows: &[&[Option<ItemType>]] = &[&[Some(ItemType::RedstoneDust)], &[Some(ItemType::Stick)]];
                proof {
                    assert(row_views(shape_rows@) =~= seq![seq![Some(ItemType::RedstoneDust)], seq![Some(ItemType::Stick)]]) by {
                        assert(shape_rows@[0]@ =~= seq![Some(ItemType::RedstoneDust)]);
                        assert(shape_rows@[1]@ =~= seq![Some(ItemType::Stick)]);
                    }
                }
                let shape = RecipeShape::new(shape_rows);
                Some(shape)
            },
            ItemType::Lever => {
                let shape_rows: &[&[Option<ItemType>]] = &[&[Some(ItemType::Stick)], &[Some(ItemType::Cobblestone)]];
                proof {
                    assert(row_views(shape_rows@) =~= seq![seq![Some(ItemType::Stick)], seq![Some(ItemType::Cobblestone)]]) by {
                        assert(shape_rows@[0]@ =~= seq![Some(ItemType::Stick)]);
                        assert(shape_rows@[1]@ =~= seq![Some(ItemType::Cobblestone)]);
                    }
                }
                let shape = RecipeShape::new(shape_rows);
                Some(shape)
            },
            ItemType::StoneButton => {
                let shape_rows: &[&[Option<ItemType>]] = &[&[Some(ItemType::Stone)]];
                proof {
                    assert(row_views(shape_rows@) =~= seq![seq![Some(ItemType::Stone)]]) by {
                        assert(shape_rows@[0]@ =~= seq![Some(ItemType::Stone)]);
                    }
                }
                let shape = RecipeShape::new(shape_rows);
                Some(shape)
            },
            ItemType::Bucket => {
                let shape_rows: &[&[Option<ItemType>]] = &[&[Some(ItemType::IronIngot), None, Some(ItemType::IronIngot)], &[None, Some(ItemType::IronIngot), None]];
                proof {
                    assert(row_views(shape_rows@) =~= seq![seq![Some(ItemType::IronIngot), None, Some(ItemType::IronIngot)], seq![None, Some(ItemType::IronIngot), None]]) by {
                        assert(shape_rows@[0]@ =~= seq![Some(ItemType::IronIngot), None, Some(ItemType::IronIngot)]);
                        assert(shape_rows@[1]@ =~= seq![None, Some(ItemType::IronIngot), None]);
                    }
                }
                let shape = RecipeShape::new(shape_rows);
                Some(shape)
            },
            ItemType::Tnt => {
                let shape_rows: &[&[Option<ItemType>]] = &[&[Some(ItemType::Gunpowder), Some(ItemType::Sand), Some(ItemType::Gunpowder)], &[Some(ItemType::Sand), Some(ItemType::Gunpowder), Some(ItemType::Sand)], &[Some(ItemType::Gunpowder), Some(ItemType::Sand), Some(ItemType::Gunpowder)]];
                proof {
                    assert(row_views(shape_rows@) =~= seq![seq![Some(ItemType::Gunpowder), Some(ItemType::Sand), Some(ItemType::Gunpowder)], seq![Some(ItemType::Sand), Some(ItemType::Gunpowder), Some(ItemType::Sand)], seq![Some(ItemType::Gunpowder), Some(ItemType::Sand), Some(ItemType::Gunpowder)]]) by {
                        assert(shape_rows@[0]@ =~= seq![Some(ItemType::Gunpowder), Some(ItemType::Sand), Some(ItemType::Gunpowder)]);
                        assert(shape_rows@[1]@ =~= seq![Some(ItemType::Sand), Some(ItemType::Gunpowder), Some(ItemType::Sand)]);
                        assert(shape_rows@[2]@ =~= seq![Some(ItemType::Gunpowder), Some(ItemType::Sand), Some(ItemType::Gunpowder)]);
                    }
                }
                let shape = RecipeShape::new(shape_rows);
                Some(shape)
            },
            ItemType::Piston => {
                let shape_rows: &[&[Option<ItemType>]] = &[&[Some(ItemType::Planks), Some(ItemType::Planks), Some(ItemType::Planks)], &[Some(ItemType::Cobblestone), Some(ItemType::IronIngot), Some(ItemType::Cobblestone)], &[Some(ItemType::Cobblestone), Some(ItemType::RedstoneDust), Some(ItemType::Cobblestone)]];
                proof {
                    assert(row_views(shape_rows@) =~= seq![seq![Some(ItemType::Planks), Some(ItemType::Planks), Some(ItemType::Planks)], seq![Some(ItemType::Cobblestone), Some(ItemType::IronIngot), Some(ItemType::Cobblestone)], seq![Some(ItemType::Cobblestone), Some(ItemType::RedstoneDust), Some(ItemType::Cobblestone)]]) by {
                        assert(shape_rows@[0]@ =~= seq![Some(ItemType::Planks), Some(ItemType::Planks), Some(ItemType::Planks)]);
                        assert(shape_rows@[1]@ =~= seq![Some(ItemType::Cobblestone), Some(ItemType::IronIngot), Some(ItemType::Cobblestone)]);
                        assert(shape_rows@[2]@ =~= seq![Some(ItemType::Cobblestone), Some(ItemType::RedstoneDust), Some(ItemType::Cobblestone)]);
                    }
                }
                let shape = RecipeShape::new(shape_rows);
                Some(shape)
            },
            ItemType::RedstoneRepeater => {
                let shape_rows: &[&[Option<ItemType>]] = &[&[Some(ItemType::RedstoneTorch), Some(ItemType::RedstoneDust), Some(ItemType::RedstoneTorch)], &[Some(ItemType::Stone), Some(ItemType::Stone), Some(ItemType::Stone)]];
                proof {
                    assert(row_views(shape_rows@) =~= seq![seq![Some(ItemType::RedstoneTorch), Some(ItemType::RedstoneDust), Some(ItemType::RedstoneTorch)], seq![Some(ItemType::Stone), Some(ItemType::Stone), Some(ItemType::Stone)]]) by {
                        assert(shape_rows@[0]@ =~= seq![Some(ItemType::RedstoneTorch), Some(ItemType::RedstoneDust), Some(ItemType::RedstoneTorch)]);
                        assert(shape_rows@[1]@ =~= seq![Some(ItemType::Stone), Some(ItemType::Stone), Some(ItemType::Stone)]);
                    }
                }
                let shape = RecipeShape::new(shape_rows);
                Some(shape)
            },
            ItemType::WoodPickaxe => {
                let shape_rows: &[&[Option<ItemType>]] = &[&[Some(ItemType::Planks), Some(ItemType::Planks), Some(ItemType::Planks)], &[None, Some(ItemType::Stick), None], &[None, Some(ItemType::Stick), None]];
                proof {
                    assert(row_views(shape_rows@) =~= seq![seq![Some(ItemType::Planks), Some(ItemType::Planks), Some(ItemType::Planks)], seq![None, Some(ItemType::Stick), None], seq![None, Some(ItemType::Stick), None]]) by {
                        assert(shape_rows@[0]@ =~= seq![Some(ItemType::Planks), Some(ItemType::Planks), Some(ItemType::Planks)]);
                        assert(shape_rows@[1]@ =~= seq![None, Some(ItemType::Stick), None]);
                        assert(shape_rows@[2]@ =~= seq![None, Some(ItemType::Stick), None]);
                    }
                }
                let shape = RecipeShape::new(shape_rows);
                Some(shape)
            },
            ItemType::StonePickaxe => {
                let shape_rows: &[&[Option<ItemType>]] = &[&[Some(ItemType::Cobblestone), Some(ItemType::Cobblestone), Some(ItemType::Cobblestone)], &[None, Some(ItemType::Stick), None], &[None, Some(ItemType::Stick), None]];
                proof {
                    assert(row_views(shape_rows@) =~= seq![seq![Some(ItemType::Cobblestone), Some(ItemType::Cobblestone), Some(ItemType::Cobblestone)], seq![None, Some(ItemType::Stick), None], seq![None, Some(ItemType::Stick), None]]) by {
                        assert(shape_rows@[0]@ =~= seq![Some(ItemType::Cobblestone), Some(ItemType::Cobblestone), Some(ItemType::Cobblestone)]);
                        assert(shape_rows@[1]@ =~= seq![None, Some(ItemType::Stick), None]);
                        assert(shape_rows@[2]@ =~= seq![None, Some(ItemType::Stick), None]);
                    }
                }
                let shape = RecipeShape::new(shape_rows);
                Some(shape)
            },
            ItemType::IronPickaxe => {
                let shape_rows: &[&[Option<ItemType>]] = &[&[Some(ItemType::IronIngot), Some(ItemType::IronIngot), Some(ItemType::IronIngot)], &[None, Some(ItemType::Stick), None], &[None, Some(ItemType::Stick), None]];
                proof {
                    assert(row_views(shape_rows@) =~= seq![seq![Some(ItemType::IronIngot), Some(ItemType::IronIngot), Some(ItemType::IronIngot)], seq![None, Some(ItemType::Stick), None], seq![None, Some(ItemType::Stick), None]]) by {
                        assert(shape_rows@[0]@ =~= seq![Some(ItemType::IronIngot), Some(ItemType::IronIngot), Some(ItemType::IronIngot)]);
                        assert(shape_rows@[1]@ =~= seq![None, Some(ItemType::Stick), None]);
                        assert(shape_rows@[2]@ =~= seq![None, Some(ItemType::Stick), None]);
                    }
                }
                let shape = RecipeShape::new(shape_rows);
                Some(shape)
            },
            ItemType::DiamondPickaxe => {
                let shape_rows: &[&[Option<ItemType>]] = &[&[Some(ItemType::Diamond), Some(ItemType::Diamond), Some(ItemType::Diamond)], &[None, Some(ItemType::Stick), None], &[None, Some(ItemType::Stick), None]];
                proof {
                    assert(row_views(shape_rows@) =~= seq![seq![Some(ItemType::Diamond), Some(ItemType::Diamond), Some(ItemType::Diamond)], seq![None, Some(ItemType::Stick), None], seq![None, Some(ItemType::Stick), None]]) by {
                        assert(shape_rows@[0]@ =~= seq![Some(ItemType::Diamond), Some(ItemType::Diamond), Some(ItemType::Diamond)]);
                        assert(shape_rows@[1]@ =~= seq![None, Some(ItemType::Stick), None]);
                        assert(shape_rows@[2]@ =~= seq![None, Some(ItemType::Stick), None]);
                    }
                }
                let shape = RecipeShape::new(shape_rows);
                Some(shape)
            },
            ItemType::WoodAxe => {
                let shape_rows: &[&[Option<ItemType>]] = &[&[Some(ItemType::Planks), Some(ItemType::Planks)], &[Some(ItemType::Planks), Some(ItemType::Stick)], &[None, Some(ItemType::Stick)]];
                proof {
                    assert(row_views(shape_rows@) =~= seq![seq![Some(ItemType::Planks), Some(ItemType::Planks)], seq![Some(ItemType::Planks), Some(ItemType::Stick)], seq![None, Some(ItemType::Stick)]]) by {
                        assert(shape_rows@[0]@ =~= seq![Some(ItemType::Planks), Some(ItemType::Planks)]);
                        assert(shape_rows@[1]@ =~= seq![Some(ItemType::Planks), Some(ItemType::Stick)]);
                        assert(shape_rows@[2]@ =~= seq![None, Some(ItemType::Stick)]);
                    }
                }
                let shape = RecipeShape::new(shape_rows);
                Some(shape)
            },
            ItemType::StoneAxe => {
                let shape_rows: &[&[Option<ItemType>]] = &[&[Some(ItemType::Cobblestone), Some(ItemType::Cobblestone)], &[Some(ItemType::Cobblestone), Some(ItemType::Stick)], &[None, Some(ItemType::Stick)]];
                proof {
                    assert(row_views(shape_rows@) =~= seq![seq![Some(ItemType::Cobblestone), Some(ItemType::Cobblestone)], seq![Some(ItemType::Cobblestone), Some(ItemType::Stick)], seq![None, Some(ItemType::Stick)]]) by {
                        assert(shape_rows@[0]@ =~= seq![Some(ItemType::Cobblestone), Some(ItemType::Cobblestone)]);
                        assert(shape_rows@[1]@ =~= seq![Some(ItemType::Cobblestone), Some(ItemType::Stick)]);
                        assert(shape_rows@[2]@ =~= seq![None, Some(ItemType::Stick)]);
                    }
                }
                let shape = RecipeShape::new(shape_rows);
                Some(shape)
            },
            ItemType::IronAxe => {
                let shape_rows: &[&[Option<ItemType>]] = &[&[Some(ItemType::IronIngot), Some(ItemType::IronIngot)], &[Some(ItemType::IronIngot), Some(ItemType::Stick)], &[None, Some(ItemType::Stick)]];
                proof {
                    assert(row_views(shape_rows@) =~= seq![seq![Some(ItemType::IronIngot), Some(ItemType::IronIngot)], seq![Some(ItemType::IronIngot), Some(ItemType::Stick)], seq![None, Some(ItemType::Stick)]]) by {
                        assert(shape_rows@[0]@ =~= seq![Some(ItemType::IronIngot), Some(ItemType::IronIngot)]);
                        assert(shape_rows@[1]@ =~= seq![Some(ItemType::IronIngot), Some(ItemType::Stick)]);
                        assert(shape_rows@[2]@ =~= seq![None, Some(ItemType::Stick)]);
                    }
                }
                let shape = RecipeShape::new(shape_rows);
                Some(shape)
            },
            ItemType::DiamondAxe => {
                let shape_rows: &[&[Option<ItemType>]] = &[&[Some(ItemType::Diamond), Some(ItemType::Diamond)], &[Some(ItemType::Diamond), Some(ItemType::Stick)], &[None, Some(ItemType::Stick)]];
                proof {
                    assert(row_views(shape_rows@) =~= seq![seq![Some(ItemType::Diamond), Some(ItemType::Diamond)], seq![Some(ItemType::Diamond), Some(ItemType::Stick)], seq![None, Some(ItemType::Stick)]]) by {
                        assert(shape_rows@[0]@ =~= seq![Some(ItemType::Diamond), Some(ItemType::Diamond)]);
                        assert(shape_rows@[1]@ =~= seq![Some(ItemType::Diamond), Some(ItemType::Stick)]);
                        assert(shape_rows@[2]@ =~= seq![None, Some(ItemType::Stick)]);
                    }
                }
                let shape = RecipeShape::new(shape_rows);
                Some(shape)
            },
            ItemType::WoodShovel => {
                let shape_rows: &[&[Option<ItemType>]] = &[&[Some(ItemType::Planks)], &[Some(ItemType::Stick)], &[Some(ItemType::Stick)]];
                proof {
                    assert(row_views(shape_rows@) =~= seq![seq![Some(ItemType::Planks)], seq![Some(ItemType::Stick)], seq![Some(ItemType::Stick)]]) by {
                        assert(shape_rows@[0]@ =~= seq![Some(ItemType::Planks)]);
                        assert(shape_rows@[1]@ =~= seq![Some(ItemType::Stick)]);
                        assert(shape_rows@[2]@ =~= seq![Some(ItemType::Stick)]);
                    }
                }
                let shape = RecipeShape::new(shape_rows);
                Some(shape)
            },
            ItemType::StoneShovel => {
                let shape_rows: &[&[Option<ItemType>]] = &[&[Some(ItemType::Cobblestone)], &[Some(ItemType::Stick)], &[Some(ItemType::Stick)]];
                proof {
                    assert(row_views(shape_rows@) =~= seq![seq![Some(ItemType::Cobblestone)], seq![Some(ItemType::Stick)], seq![Some(ItemType::Stick)]]) by {
                        assert(shape_rows@[0]@ =~= seq![Some(ItemType::Cobblestone)]);
                        assert(shape_rows@[1]@ =~= seq![Some(ItemType::Stick)]);
                        assert(shape_rows@[2]@ =~= seq![Some(ItemType::Stick)]);
                    }
                }
                let shape = RecipeShape::new(shape_rows);
                Some(shape)
            },
            ItemType::IronShovel => {
                let shape_rows: &[&[Option<ItemType>]] = &[&[Some(ItemType::IronIngot)], &[Some(ItemType::Stick)], &[Some(ItemType::Stick)]];
                proof {
                    assert(row_views(shape_rows@) =~= seq![seq![Some(ItemType::IronIngot)], seq![Some(ItemType::Stick)], seq![Some(ItemType::Stick)]]) by {
                        assert(shape_rows@[0]@ =~= seq![Some(ItemType::IronIngot)]);
                        assert(shape_rows@[1]@ =~= seq![Some(ItemType::Stick)]);
                        assert(shape_rows@[2]@ =~= seq![Some(ItemType::Stick)]);
                    }
                }
                let shape = RecipeShape::new(shape_rows);
                Some(shape)
            },
            ItemType::DiamondShovel => {
                let shape_rows: &[&[Option<ItemType>]] = &[&[Some(ItemType::Diamond)], &[Some(ItemType::Stick)], &[Some(ItemType::Stick)]];
                proof {
                    assert(row_views(shape_rows@) =~= seq![seq![Some(ItemType::Diamond)], seq![Some(ItemType::Stick)], seq![Some(ItemType::Stick)]]) by {
                        assert(shape_rows@[0]@ =~= seq![Some(ItemType::Diamond)]);
                        assert(shape_rows@[1]@ =~= seq![Some(ItemType::Stick)]);
                        assert(shape_rows@[2]@ =~= seq![Some(ItemType::Stick)]);
                    }
                }
                let shape = RecipeShape::new(shape_rows);
                Some(shape)
            },
            ItemType::WoodSword => {
                let shape_rows: &[&[Option<ItemType>]] = &[&[Some(ItemType::Planks)], &[Some(ItemType::Planks)], &[Some(ItemType::Stick)]];
                proof {
                    assert(row_views(shape_rows@) =~= seq![seq![Some(ItemType::Planks)], seq![Some(ItemType::Planks)], seq![Some(ItemType::Stick)]]) by {
                        assert(shape_rows@[0]@ =~= seq![Some(ItemType::Planks)]);
                        assert(shape_rows@[1]@ =~= seq![Some(ItemType::Planks)]);
                        assert(shape_rows@[2]@ =~= seq![Some(ItemType::Stick)]);
                    }
                }
                let shape = RecipeShape::new(shape_rows);
                Some(shape)
            },
            ItemType::StoneSword => {
                let shape_rows: &[&[Option<ItemType>]] = &[&[Some(ItemType::Cobblestone)], &[Some(ItemType::Cobblestone)], &[Some(ItemType::Stick)]];
                proof {
                    assert(row_views(shape_rows@) =~= seq![seq![Some(ItemType::Cobblestone)], seq![Some(ItemType::Cobblestone)], seq![Some(ItemType::Stick)]]) by {
                        assert(shape_rows@[0]@ =~= seq![Some(ItemType::Cobblestone)]);
                        assert(shape_rows@[1]@ =~= seq![Some(ItemType::Cobblestone)]);
                        assert(shape_rows@[2]@ =~= seq![Some(ItemType::Stick)]);
                    }
                }
                let shape = RecipeShape::new(shape_rows);
                Some(shape)
            },
            ItemType::IronSword => {
                let shape_rows: &[&[Option<ItemType>]] = &[&[Some(ItemType::IronIngot)], &[Some(ItemType::IronIngot)], &[Some(ItemType::Stick)]];
                proof {
                    assert(row_views(shape_rows@) =~= seq![seq![Some(ItemType::IronIngot)], seq![Some(ItemType::IronIngot)], seq![Some(ItemType::Stick)]]) by {
                        assert(shape_rows@[0]@ =~= seq![Some(ItemType::IronIngot)]);
                        assert(shape_rows@[1]@ =~= seq![Some(ItemType::IronIngot)]);
                        assert(shape_rows@[2]@ =~= seq![Some(ItemType::Stick)]);
                    }
                }
                let shape = RecipeShape::new(shape_rows);
                Some(shape)
            },
            ItemType::DiamondSword => {
                let shape_rows: &[&[Option<ItemType>]] = &[&[Some(ItemType::Diamond)], &[Some(ItemType::Diamond)], &[Some(ItemType::Stick)]];
                proof {
                    assert(row_views(shape_rows@) =~= seq![seq![Some(ItemType::Diamond)], seq![Some(ItemType::Diamond)], seq![Some(ItemType::Stick)]]) by {
                        assert(shape_rows@[0]@ =~= seq![Some(ItemType::Diamond)]);
                        assert(shape_rows@[1]@ =~= seq![Some(ItemType::Diamond)]);
                        assert(shape_rows@[2]@ =~= seq![Some(ItemType::Stick)]);
                    }
                }
                let shape = RecipeShape::new(shape_rows);
                Some(shape)
            },
            ItemType::WoodHoe => {
                let shape_rows: &[&[Option<ItemType>]] = &[&[Some(ItemType::Planks), Some(ItemType::Planks)], &[None, Some(ItemType::Stick)], &[None, Some(ItemType::Stick)]];
                proof {
                    assert(row_views(shape_rows@) =~= seq![seq![Some(ItemType::Planks), Some(ItemType::Planks)], seq![None, Some(ItemType::Stick)], seq![None, Some(ItemType::Stick)]]) by {
                        assert(shape_rows@[0]@ =~= seq![Some(ItemType::Planks), Some(ItemType::Planks)]);
                        assert(shape_rows@[1]@ =~= seq![None, Some(ItemType::Stick)]);
                        assert(shape_rows@[2]@ =~= seq![None, Some(ItemType::Stick)]);
                    }
                }
                let shape = RecipeShape::new(shape_rows);
                Some(shape)
            },
            ItemType::StoneHoe => {
                let shape_rows: &[&[Option<ItemType>]] = &[&[Some(ItemType::Cobblestone), Some(ItemType::Cobblestone)], &[None, Some(ItemType::Stick)], &[None, Some(ItemType::Stick)]];
                proof {
                    assert(row_views(shape_rows@) =~= seq![seq![Some(ItemType::Cobblestone), Some(ItemType::Cobblestone)], seq![None, Some(ItemType::Stick)], seq![None, Some(ItemType::Stick)]]) by {
                        assert(shape_rows@[0]@ =~= seq![Some(ItemType::Cobblestone), Some(ItemType::Cobblestone)]);
                        assert(shape_rows@[1]@ =~= seq![None, Some(ItemType::Stick)]);
                        assert(shape_rows@[2]@ =~= seq![None, Some(ItemType::Stick)]);
                    }
                }
                let shape = RecipeShape::new(shape_rows);
                Some(shape)
            },
            ItemType::IronHoe => {
                let shape_rows: &[&[Option<ItemType>]] = &[&[Some(ItemType::IronIngot), Some(ItemType::IronIngot)], &[None, Some(ItemType::Stick)], &[None, Some(ItemType::Stick)]];
                proof {
                    assert(row_views(shape_rows@) =~= seq![seq![Some(ItemType::IronIngot), Some(ItemType::IronIngot)], seq![None, Some(ItemType::Stick)], seq![None, Some(ItemType::Stick)]]) by {
                        assert(shape_rows@[0]@ =~= seq![Some(ItemType::IronIngot), Some(ItemType::IronIngot)]);
                        assert(shape_rows@[1]@ =~= seq![None, Some(ItemType::Stick)]);
                        assert(shape_rows@[2]@ =~= seq![None, Some(ItemType::Stick)]);
                    }
                }
                let shape = RecipeShape::new(shape_rows);
                Some(shape)
            },
            ItemType::DiamondHoe => {
                let shape_rows: &[&[Option<ItemType>]] = &[&[Some(ItemType::Diamond), Some(ItemType::Diamond)], &[None, Some(ItemType::Stick)], &[None, Some(ItemType::Stick)]];
                proof {
                    assert(row_views(shape_rows@) =~= seq![seq![Some(ItemType::Diamond), Some(ItemType::Diamond)], seq![None, Some(ItemType::Stick)], seq![None, Some(ItemType::Stick)]]) by {
                        assert(shape_rows@[0]@ =~= seq![Some(ItemType::Diamond), Some(ItemType::Diamond)]);
                        assert(shape_rows@[1]@ =~= seq![None, Some(ItemType::Stick)]);
                        assert(shape_rows@[2]@ =~= seq![None, Some(ItemType::Stick)]);
                    }
                }
                let shape = RecipeShape::new(shape_rows);
                Some(shape)
            },
            ItemType::Bread => {
                let shape_rows: &[&[Option<ItemType>]] = &[&[Some(ItemType::Wheat), Some(ItemType::Wheat), Some(ItemType::Wheat)]];
                proof {
                    assert(row_views(shape_rows@) =~= seq![seq![Some(ItemType::Wheat), Some(ItemType::Wheat), Some(ItemType::Wheat)]]) by {
                        assert(shape_rows@[0]@ =~= seq![Some(ItemType::Wheat), Some(ItemType::Wheat), Some(ItemType::Wheat)]);
                    }
                }
                let shape = RecipeShape::new(shape_rows);
                Some(shape)
            },
            ItemType::Bed => {
                let shape_rows: &[&[Option<ItemType>]] = &[&[Some(ItemType::Wool), Some(ItemType::Wool), Some(ItemType::Wool)], &[Some(ItemType::Planks), Some(ItemType::Planks), Some(ItemType::Planks)]];
                proof {
                    assert(row_views(shape_rows@) =~= seq![seq![Some(ItemType::Wool), Some(ItemType::Wool), Some(ItemType::Wool)], seq![Some(ItemType::Planks), Some(ItemType::Planks), Some(ItemType::Planks)]]) by {
                        assert(shape_rows@[0]@ =~= seq![Some(ItemType::Wool), Some(ItemType::Wool), Some(ItemType::Wool)]);
                        assert(shape_rows@[1]@ =~= seq![Some(ItemType::Planks), Some(ItemType::Planks), Some(ItemType::Planks)]);
                    }
                }
                let shape = RecipeShape::new(shape_rows);
                Some(shape)
            },
            ItemType::Chest => {
                let shape_rows: &[&[Option<ItemType>]] = &[&[Some(ItemType::Planks), Some(ItemType::Planks), Some(ItemType::Planks)], &[Some(ItemType::Planks), None, Some(ItemType::Planks)], &[Some(ItemType::Planks), Some(ItemType::Planks), Some(ItemType::Planks)]];
                proof {
                    assert(row_views(shape_rows@) =~= seq![seq![Some(ItemType::Planks), Some(ItemType::Planks), Some(ItemType::Planks)], seq![Some(ItemType::Planks), None, Some(ItemType::Planks)], seq![Some(ItemType::Planks), Some(ItemType::Planks), Some(ItemType::Planks)]]) by {
                        assert(shape_rows@[0]@ =~= seq![Some(ItemType::Planks), Some(ItemType::Planks), Some(ItemType::Planks)]);
                        assert(shape_rows@[1]@ =~= seq![Some(ItemType::Planks), None, Some(ItemType::Planks)]);
                        assert(shape_rows@[2]@ =~= seq![Some(ItemType::Planks), Some(ItemType::Planks), Some(ItemType::Planks)]);
                    }
                }
                let shape = RecipeShape::new(shape_rows);
                Some(shape)
            },
            ItemType::EnchantingTable => {
                let shape_rows: &[&[Option<ItemType>]] = &[&[None, Some(ItemType::BlazePowder), None], &[Some(ItemType::Diamond), Some(ItemType::Obsidian), Some(ItemType::Diamond)], &[Some(ItemType::Obsidian), Some(ItemType::Obsidian), Some(ItemType::Obsidian)]];
                proof {
                    assert(row_views(shape_rows@) =~= seq![seq![None, Some(ItemType::BlazePowder), None], seq![Some(ItemType::Diamond), Some(ItemType::Obsidian), Some(ItemType::Diamond)], seq![Some(ItemType::Obsidian), Some(ItemType::Obsidian), Some(ItemType::Obsidian)]]) by {
                        assert(shape_rows@[0]@ =~= seq![None, Some(ItemType::BlazePowder), None]);
                        assert(shape_rows@[1]@ =~= seq![Some(ItemType::Diamond), Some(ItemType::Obsidian), Some(ItemType::Diamond)]);
                        assert(shape_rows@[2]@ =~= seq![Some(ItemType::Obsidian), Some(ItemType::Obsidian), Some(ItemType::Obsidian)]);
                    }
                }
                let shape = RecipeShape::new(shape_rows);
                Some(shape)
            },
            ItemType::Anvil => {
                let shape_rows: &[&[Option<ItemType>]] = &[&[Some(ItemType::IronIngot), Some(ItemType::IronIngot), Some(ItemType::IronIngot)], &[None, Some(ItemType::IronIngot), None], &[Some(ItemType::IronIngot), Some(ItemType::IronIngot), Some(ItemType::IronIngot)]];
                proof {
                    assert(row_views(shape_rows@) =~= seq![seq![Some(ItemType::IronIngot), Some(ItemType::IronIngot), Some(ItemType::IronIngot)], seq![None, Some(ItemType::IronIngot), None], seq![Some(ItemType::IronIngot), Some(ItemType::IronIngot), Some(ItemType::IronIngot)]]) by {
                        assert(shape_rows@[0]@ =~= seq![Some(ItemType::IronIngot), Some(ItemType::IronIngot), Some(ItemType::IronIngot)]);
                        assert(shape_rows@[1]@ =~= seq![None, Some(ItemType::IronIngot), None]);
                        assert(shape_rows@[2]@ =~= seq![Some(ItemType::IronIngot), Some(ItemType::IronIngot), Some(ItemType::IronIngot)]);
                    }
                }
                let shape = RecipeShape::new(shape_rows);
                Some(shape)
            },
            ItemType::BrewingStand => {
                let shape_rows: &[&[Option<ItemType>]] = &[&[None, Some(ItemType::BlazeRod), None], &[Some(ItemType::Cobblestone), Some(ItemType::Cobblestone), Some(ItemType::Cobblestone)]];
                proof {
                    assert(row_views(shape_rows@) =~= seq![seq![None, Some(ItemType::BlazeRod), None], seq![Some(ItemType::Cobblestone), Some(ItemType::Cobblestone), Some(ItemType::Cobblestone)]]) by {
                        assert(shape_rows@[0]@ =~= seq![None, Some(ItemType::BlazeRod), None]);
                        assert(shape_rows@[1]@ =~= seq![Some(ItemType::Cobblestone), Some(ItemType::Cobblestone), Some(ItemType::Cobblestone)]);
                    }
                }
                let shape = RecipeShape::new(shape_rows);
                Some(shape)
            },
            ItemType::GlassBottle => {
                let shape_rows: &[&[Option<ItemType>]] = &[&[Some(ItemType::Glass), None, Some(ItemType::Glass)], &[None, Some(ItemType::Glass), None]];
                proof {
                    assert(row_views(shape_rows@) =~= seq![seq![Some(ItemType::Glass), None, Some(ItemType::Glass)], seq![None, Some(ItemType::Glass), None]]) by {
                        assert(shape_rows@[0]@ =~= seq![Some(ItemType::Glass), None, Some(ItemType::Glass)]);
                        assert(shape_rows@[1]@ =~= seq![None, Some(ItemType::Glass), None]);
                    }
                }
                let shape = RecipeShape::new(shape_rows);
                Some(shape)
            },
            ItemType::WoodDoor => {
                let shape_rows: &[&[Option<ItemType>]] = &[&[Some(ItemType::Planks), Some(ItemType::Planks)], &[Some(ItemType::Planks), Some(ItemType::Planks)], &[Some(ItemType::Planks), Some(ItemType::Planks)]];
                proof {
                    assert(row_views(shape_rows@) =~= seq![seq![Some(ItemType::Planks), Some(ItemType::Planks)], seq![Some(ItemType::Planks), Some(ItemType::Planks)], seq![Some(ItemType::Planks), Some(ItemType::Planks)]]) by {
                        assert(shape_rows@[0]@ =~= seq![Some(ItemType::Planks), Some(ItemType::Planks)]);
                        assert(shape_rows@[1]@ =~= seq![Some(ItemType::Planks), Some(ItemType::Planks)]);
                        assert(shape_rows@[2]@ =~= seq![Some(ItemType::Planks), Some(ItemType::Planks)]);
                    }
                }
                let shape = RecipeShape::new(shape_rows);
                Some(shape)
            },
            ItemType::Ladder => {
                let shape_rows: &[&[Option<ItemType>]] = &[&[Some(ItemType::Stick), None, Some(ItemType::Stick)], &[Some(ItemType::Stick), Some(ItemType::Stick), Some(ItemType::Stick)], &[Some(ItemType::Stick), None, Some(ItemType::Stick)]];
                proof {
                    assert(row_views(shape_rows@) =~= seq![seq![Some(ItemType::Stick), None, Some(ItemType::Stick)], seq![Some(ItemType::Stick), Some(ItemType::Stick), Some(ItemType::Stick)], seq![Some(ItemType::Stick), None, Some(ItemType::Stick)]]) by {
                        assert(shape_rows@[0]@ =~= seq![Some(ItemType::Stick), None, Some(ItemType::Stick)]);
                        assert(shape_rows@[1]@ =~= seq![Some(ItemType::Stick), Some(ItemType::Stick), Some(ItemType::Stick)]);
                        assert(shape_rows@[2]@ =~= seq![Some(ItemType::Stick), None, Some(ItemType::Stick)]);
                    }
                }
                let shape = RecipeShape::new(shape_rows);
                Some(shape)
            },
            ItemType::StoneSlab => {
                let shape_rows: &[&[Option<ItemType>]] = &[&[Some(ItemType::Cobblestone), Some(ItemType::Cobblestone), Some(ItemType::Cobblestone)]];
                proof {
                    assert(row_views(shape_rows@) =~= seq![seq![Some(ItemType::Cobblestone), Some(ItemType::Cobblestone), Some(ItemType::Cobblestone)]]) by {
                        assert(shape_rows@[0]@ =~= seq![Some(ItemType::Cobblestone), Some(ItemType::Cobblestone), Some(ItemType::Cobblestone)]);
                    }
                }
                let shape = RecipeShape::new(shape_rows);
                Some(shape)
            },
            ItemType::StoneStairs => {
                let shape_rows: &[&[Option<ItemType>]] = &[&[Some(ItemType::Cobblestone), None, None], &[Some(ItemType::Cobblestone), Some(ItemType::Cobblestone), None], &[Some(ItemType::Cobblestone), Some(ItemType::Cobblestone), Some(ItemType::Cobblestone)]];
                proof {
                    assert(row_views(shape_rows@) =~= seq![seq![Some(ItemType::Cobblestone), None, None], seq![Some(ItemType::Cobblestone), Some(ItemType::Cobblestone), None], seq![Some(ItemType::Cobblestone), Some(ItemType::Cobblestone), Some(ItemType::Cobblestone)]]) by {
                        assert(shape_rows@[0]@ =~= seq![Some(ItemType::Cobblestone), None, None]);
                        assert(shape_rows@[1]@ =~= seq![Some(ItemType::Cobblestone), Some(ItemType::Cobblestone), None]);
                        assert(shape_rows@[2]@ =~= seq![Some(ItemType::Cobblestone), Some(ItemType::Cobblestone), Some(ItemType::Cobblestone)]);
                    }
                }
                let shape = RecipeShape::new(shape_rows);
                Some(shape)
            },
            ItemType::LeatherHelmet => {
                let shape_rows: &[&[Option<ItemType>]] = &[&[Some(ItemType::Leather), Some(ItemType::Leather), Some(ItemType::Leather)], &[Some(ItemType::Leather), None, Some(ItemType::Leather)]];
                proof {
                    assert(row_views(shape_rows@) =~= seq![seq![Some(ItemType::Leather), Some(ItemType::Leather), Some(ItemType::Leather)], seq![Some(ItemType::Leather), None, Some(ItemType::Leather)]]) by {
                        assert(shape_rows@[0]@ =~= seq![Some(ItemType::Leather), Some(ItemType::Leather), Some(ItemType::Leather)]);
                        assert(shape_rows@[1]@ =~= seq![Some(ItemType::Leather), None, Some(ItemType::Leather)]);
                    }
                }
                let shape = RecipeShape::new(shape_rows);
                Some(shape)
            },
            ItemType::LeatherChestplate => {
                let shape_rows: &[&[Option<ItemType>]] = &[&[Some(ItemType::Leather), None, Some(ItemType::Leather)], &[Some(ItemType::Leather), Some(ItemType::Leather), Some(ItemType::Leather)], &[Some(ItemType::Leather), Some(ItemType::Leather), Some(ItemType::Leather)]];
                proof {
                    assert(row_views(shape_rows@) =~= seq![seq![Some(ItemType::Leather), None, Some(ItemType::Leather)], seq![Some(ItemType::Leather), Some(ItemType::Leather), Some(ItemType::Leather)], seq![Some(ItemType::Leather), Some(ItemType::Leather), Some(ItemType::Leather)]]) by {
                        assert(shape_rows@[0]@ =~= seq![Some(ItemType::Leather), None, Some(ItemType::Leather)]);
                        assert(shape_rows@[1]@ =~= seq![Some(ItemType::Leather), Some(ItemType::Leather), Some(ItemType::Leather)]);
                        assert(shape_rows@[2]@ =~= seq![Some(ItemType::Leather), Some(ItemType::Leather), Some(ItemType::Leather)]);
                    }
                }
                let shape = RecipeShape::new(shape_rows);
                Some(shape)
            },
            ItemType::LeatherLeggings => {
                let shape_rows: &[&[Option<ItemType>]] = &[&[Some(ItemType::Leather), Some(ItemType::Leather), Some(ItemType::Leather)], &[Some(ItemType::Leather), None, Some(ItemType::Leather)], &[Some(ItemType::Leather), None, Some(ItemType::Leather)]];
                proof {
                    assert(row_views(shape_rows@) =~= seq![seq![Some(ItemType::Leather), Some(ItemType::Leather), Some(ItemType::Leather)], seq![Some(ItemType::Leather), None, Some(ItemType::Leather)], seq![Some(ItemType::Leather), None, Some(ItemType::Leather)]]) by {
                        assert(shape_rows@[0]@ =~= seq![Some(ItemType::Leather), Some(ItemType::Leather), Some(ItemType::Leather)]);
                        assert(shape_rows@[1]@ =~= seq![Some(ItemType::Leather), None, Some(ItemType::Leather)]);
                        assert(shape_rows@[2]@ =~= seq![Some(ItemType::Leather), None, Some(ItemType::Leather)]);
                    }
                }
                let shape = RecipeShape::new(shape_rows);
                Some(shape)
            },
            ItemType::LeatherBoots => {
                let shape_rows: &[&[Option<ItemType>]] = &[&[Some(ItemType::Leather), None, Some(ItemType::Leather)], &[Some(ItemType::Leather), None, Some(ItemType::Leather)]];
                proof {
                    assert(row_views(shape_rows@) =~= seq![seq![Some(ItemType::Leather), None, Some(ItemType::Leather)], seq![Some(ItemType::Leather), None, Some(ItemType::Leather)]]) by {
                        assert(shape_rows@[0]@ =~= seq![Some(ItemType::Leather), None, Some(ItemType::Leather)]);
                        assert(shape_rows@[1]@ =~= seq![Some(ItemType::Leather), None, Some(ItemType::Leather)]);
                    }
                }
                let shape = RecipeShape::new(shape_rows);
                Some(shape)
            },
            ItemType::IronHelmet => {
                let shape_rows: &[&[Option<ItemType>]] = &[&[Some(ItemType::IronIngot), Some(ItemType::IronIngot), Some(ItemType::IronIngot)], &[Some(ItemType::IronIngot), None, Some(ItemType::IronIngot)]];
                proof {
                    assert(row_views(shape_rows@) =~= seq![seq![Some(ItemType::IronIngot), Some(ItemType::IronIngot), Some(ItemType::IronIngot)], seq![Some(ItemType::IronIngot), None, Some(ItemType::IronIngot)]]) by {
                        assert(shape_rows@[0]@ =~= seq![Some(ItemType::IronIngot), Some(ItemType::IronIngot), Some(ItemType::IronIngot)]);
                        assert(shape_rows@[1]@ =~= seq![Some(ItemType::IronIngot), None, Some(ItemType::IronIngot)]);
                    }
                }
                let shape = RecipeShape::new(shape_rows);
                Some(shape)
            },
            ItemType::IronChestplate => {
                let shape_rows: &[&[Option<ItemType>]] = &[&[Some(ItemType::IronIngot), None, Some(ItemType::IronIngot)], &[Some(ItemType::IronIngot), Some(ItemType::IronIngot), Some(ItemType::IronIngot)], &[Some(ItemType::IronIngot), Some(ItemType::IronIngot), Some(ItemType::IronIngot)]];
                proof {
                    assert(row_views(shape_rows@) =~= seq![seq![Some(ItemType::IronIngot), None, Some(ItemType::IronIngot)], seq![Some(ItemType::IronIngot), Some(ItemType::IronIngot), Some(ItemType::IronIngot)], seq![Some(ItemType::IronIngot), Some(ItemType::IronIngot), Some(ItemType::IronIngot)]]) by {
                        assert(shape_rows@[0]@ =~= seq![Some(ItemType::IronIngot), None, Some(ItemType::IronIngot)]);
                        assert(shape_rows@[1]@ =~= seq![Some(ItemType::IronIngot), Some(ItemType::IronIngot), Some(ItemType::IronIngot)]);
                        assert(shape_rows@[2]@ =~= seq![Some(ItemType::IronIngot), Some(ItemType::IronIngot), Some(ItemType::IronIngot)]);
                    }
                }
                let shape = RecipeShape::new(shape_rows);
                Some(shape)
            },
            ItemType::IronLeggings => {
                let shape_rows: &[&[Option<ItemType>]] = &[&[Some(ItemType::IronIngot), Some(ItemType::IronIngot), Some(ItemType::IronIngot)], &[Some(ItemType::IronIngot), None, Some(ItemType::IronIngot)], &[Some(ItemType::IronIngot), None, Some(ItemType::IronIngot)]];
                proof {
                    assert(row_views(shape_rows@) =~= seq![seq![Some(ItemType::IronIngot), Some(ItemType::IronIngot), Some(ItemType::IronIngot)], seq![Some(ItemType::IronIngot), None, Some(ItemType::IronIngot)], seq![Some(ItemType::IronIngot), None, Some(ItemType::IronIngot)]]) by {
                        assert(shape_rows@[0]@ =~= seq![Some(ItemType::IronIngot), Some(ItemType::IronIngot), Some(ItemType::IronIngot)]);
                        assert(shape_rows@[1]@ =~= seq![Some(ItemType::IronIngot), None, Some(ItemType::IronIngot)]);
                        assert(shape_rows@[2]@ =~= seq![Some(ItemType::IronIngot), None, Some(ItemType::IronIngot)]);
                    }
                }
                let shape = RecipeShape::new(shape_rows);
                Some(shape)
            },
            ItemType::IronBoots => {
                let shape_rows: &[&[Option<ItemType>]] = &[&[Some(ItemType::IronIngot), None, Some(ItemType::IronIngot)], &[Some(ItemType::IronIngot), None, Some(ItemType::IronIngot)]];
                proof {
                    assert(row_views(shape_rows@) =~= seq![seq![Some(ItemType::IronIngot), None, Some(ItemType::IronIngot)], seq![Some(ItemType::IronIngot), None, Some(ItemType::IronIngot)]]) by {
                        assert(shape_rows@[0]@ =~= seq![Some(ItemType::IronIngot), None, Some(ItemType::IronIngot)]);
                        assert(shape_rows@[1]@ =~= seq![Some(ItemType::IronIngot), None, Some(ItemType::IronIngot)]);
                    }
                }
                let shape = RecipeShape::new(shape_rows);
                Some(shape)
            },
            ItemType::DiamondHelmet => {
                let shape_rows: &[&[Option<ItemType>]] = &[&[Some(ItemType::Diamond), Some(ItemType::Diamond), Some(ItemType::Diamond)], &[Some(ItemType::Diamond), None, Some(ItemType::Diamond)]];
                proof {
                    assert(row_views(shape_rows@) =~= seq![seq![Some(ItemType::Diamond), Some(ItemType::Diamond), Some(ItemType::Diamond)], seq![Some(ItemType::Diamond), None, Some(ItemType::Diamond)]]) by {
                        assert(shape_rows@[0]@ =~= seq![Some(ItemType::Diamond), Some(ItemType::Diamond), Some(ItemType::Diamond)]);
                        assert(shape_rows@[1]@ =~= seq![Some(ItemType::Diamond), None, Some(ItemType::Diamond)]);
                    }
                }
                let shape = RecipeShape::new(shape_rows);
                Some(shape)
            },
            ItemType::DiamondChestplate => {
                let shape_rows: &[&[Option<ItemType>]] = &[&[Some(ItemType::Diamond), None, Some(ItemType::Diamond)], &[Some(ItemType::Diamond), Some(ItemType::Diamond), Some(ItemType::Diamond)], &[Some(ItemType::Diamond), Some(ItemType::Diamond), Some(ItemType::Diamond)]];
                proof {
                    assert(row_views(shape_rows@) =~= seq![seq![Some(ItemType::Diamond), None, Some(ItemType::Diamond)], seq![Some(ItemType::Diamond), Some(ItemType::Diamond), Some(ItemType::Diamond)], seq![Some(ItemType::Diamond), Some(ItemType::Diamond), Some(ItemType::Diamond)]]) by {
                        assert(shape_rows@[0]@ =~= seq![Some(ItemType::Diamond), None, Some(ItemType::Diamond)]);
                        assert(shape_rows@[1]@ =~= seq![Some(ItemType::Diamond), Some(ItemType::Diamond), Some(ItemType::Diamond)]);
                        assert(shape_rows@[2]@ =~= seq![Some(ItemType::Diamond), Some(ItemType::Diamond), Some(ItemType::Diamond)]);
                    }
                }
                let shape = RecipeShape::new(shape_rows);
                Some(shape)
            },
            ItemType::DiamondLeggings => {
                let shape_rows: &[&[Option<ItemType>]] = &[&[Some(ItemType::Diamond), Some(ItemType::Diamond), Some(ItemType::Diamond)], &[Some(ItemType::Diamond), None, Some(ItemType::Diamond)], &[Some(ItemType::Diamond), None, Some(ItemType::Diamond)]];
                proof {
                    assert(row_views(shape_rows@) =~= seq![seq![Some(ItemType::Diamond), Some(ItemType::Diamond), Some(ItemType::Diamond)], seq![Some(ItemType::Diamond), None, Some(ItemType::Diamond)], seq![Some(ItemType::Diamond), None, Some(ItemType::Diamond)]]) by {
                        assert(shape_rows@[0]@ =~= seq![Some(ItemType::Diamond), Some(ItemType::Diamond), Some(ItemType::Diamond)]);
                        assert(shape_rows@[1]@ =~= seq![Some(ItemType::Diamond), None, Some(ItemType::Diamond)]);
                        assert(shape_rows@[2]@ =~= seq![Some(ItemType::Diamond), None, Some(ItemType::Diamond)]);
                    }
                }
                let shape = RecipeShape::new(shape_rows);
                Some(shape)
            },
            ItemType::DiamondBoots => {
                let shape_rows: &[&[Option<ItemType>]] = &[&[Some(ItemType::Diamond), None, Some(ItemType::Diamond)], &[Some(ItemType::Diamond), None, Some(ItemType::Diamond)]];
                proof {
                    assert(row_views(shape_rows@) =~= seq![seq![Some(ItemType::Diamond), None, Some(ItemType::Diamond)], seq![Some(ItemType::Diamond), None, Some(ItemType::Diamond)]]) by {
                        assert(shape_rows@[0]@ =~= seq![Some(ItemType::Diamond), None, Some(ItemType::Diamond)]);
                        assert(shape_rows@[1]@ =~= seq![Some(ItemType::Diamond), None, Some(ItemType::Diamond)]);
                    }
                }
                let shape = RecipeShape::new(shape_rows);
                Some(shape)
            },
            ItemType::Bow => {
                let shape_rows: &[&[Option<ItemType>]] = &[&[None, Some(ItemType::Stick), Some(ItemType::String)], &[Some(ItemType::Stick), None, Some(ItemType::String)], &[None, Some(ItemType::Stick), Some(ItemType::String)]];
                proof {
                    assert(row_views(shape_rows@) =~= seq![seq![None, Some(ItemType::Stick), Some(ItemType::String)], seq![Some(ItemType::Stick), None, Some(ItemType::String)], seq![None, Some(ItemType::Stick), Some(ItemType::String)]]) by {
                        assert(shape_rows@[0]@ =~= seq![None, Some(ItemType::Stick), Some(ItemType::String)]);
                        assert(shape_rows@[1]@ =~= seq![Some(ItemType::Stick), None, Some(ItemType::String)]);
                        assert(shape_rows@[2]@ =~= seq![None, Some(ItemType::Stick), Some(ItemType::String)]);
                    }
                }
                let shape = RecipeShape::new(shape_rows);
                Some(shape)
            },
            ItemType::FishingRod => {
                let shape_rows: &[&[Option<ItemType>]] = &[&[None, None, Some(ItemType::Stick)], &[None, Some(ItemType::Stick), Some(ItemType::String)], &[Some(ItemType::Stick), None, Some(ItemType::String)]];
                proof {
                    assert(row_views(shape_rows@) =~= seq![seq![None, None, Some(ItemType::Stick)], seq![None, Some(ItemType::Stick), Some(ItemType::String)], seq![Some(ItemType::Stick), None, Some(ItemType::String)]]) by {
                        assert(shape_rows@[0]@ =~= seq![None, None, Some(ItemType::Stick)]);
                        assert(shape_rows@[1]@ =~= seq![None, Some(ItemType::Stick), Some(ItemType::String)]);
                        assert(shape_rows@[2]@ =~= seq![Some(ItemType::Stick), None, Some(ItemType::String)]);
                    }
                }
                let shape = RecipeShape::new(shape_rows);
                Some(shape)
            },
            _ => None,
        };
    }

    /// Every recipe of the game, with default patterns filled in.
    pub fn all() -> (r: Vec<Recipe>)
        ensures
            r@.len() == recipe_count(),
            forall|i: int|
                0 <= i < recipe_count() ==> recipe_is(
                    #[trigger] r@[i],
                    recipe_data(i as u8),
                    final_shape_rows(recipe_data(i as u8)),
                ),
    {
        let mut recipes = listed_recipes_0();
    let mut part = listed_recipes_1();
    recipes.append(&mut part);
    let mut part = listed_recipes_2();
    recipes.append(&mut part);
    let mut part = listed_recipes_3();
    recipes.append(&mut part);
    let mut part = listed_recipes_4();
    recipes.append(&mut part);
    let mut part = listed_recipes_5();
    recipes.append(&mut part);
    let mut part = listed_recipes_6();
    recipes.append(&mut part);
    let mut part = listed_recipes_7();
    recipes.append(&mut part);
    let mut part = listed_recipes_8();
    recipes.append(&mut part);
    let mut part = listed_recipes_9();
    recipes.append(&mut part);
        let n = recipes.len();
        let ghost listed = recipes@;
        let mut i: usize = 0;
        while i < n
            invariant
                n == recipe_count(),
                recipes@.len() == n,
                i <= n,
                forall|k: int|
                    0 <= k < i ==> recipe_is(
                        #[trigger] recipes@[k],
                        recipe_data(k as u8),
                        final_shape_rows(recipe_data(k as u8)),
                    ),
                forall|k: int|
                    i <= k < n ==> recipe_is(
                        #[trigger] recipes@[k],
                        recipe_data(k as u8),
                        recipe_data(k as u8).shape_rows,
                    ),
            decreases n - i,
        {
            recipes[i].apply_default_shape();
            i = i + 1;
        }
        recipes
    }
}




/// Whether recipe data `d` with final shape rows `rows` is well formed:
/// it makes at least one item, every ingredient is asked for at least
/// once and named once, a furnace recipe is shapeless and needs no crafting table, and a
/// shape has one to three rows of one to three equal-length cells, at least
/// one of them filled.
pub open spec fn recipe_well_formed(d: RecipeData, rows: Option<Seq<Seq<Option<ItemType>>>>) -> bool {
    &&& d.result_count >= 1
    &&& forall|k: int| 0 <= k < d.ingredients.len() ==> (#[trigger] d.ingredients[k]).1 >= 1
    &&& distinct_items(d.ingredients)
    &&& d.needs_furnace ==> rows is None && !d.needs_crafting_table
    &&& rows matches Some(rs) ==> {
        &&& 1 <= rs.len() <= 3
        &&& 1 <= rs[0].len() <= 3
        &&& forall|j: int| 0 <= j < rs.len() ==> (#[trigger] rs[j]).len() == rs[0].len()
        &&& some_cell_filled(rs)
    }
}

/// Some cell among the first three rows and columns is filled.
pub open spec fn some_cell_filled(rs: Seq<Seq<Option<ItemType>>>) -> bool {
    (0 < rs.len() && 0 < rs[0].len() && rs[0][0] is Some) || (0 < rs.len() && 1 < rs[0].len() && rs[0][1] is Some) || (0 < rs.len() && 2 < rs[0].len() && rs[0][2] is Some) || (1 < rs.len() && 0 < rs[1].len() && rs[1][0] is Some) || (1 < rs.len() && 1 < rs[1].len() && rs[1][1] is Some) || (1 < rs.len() && 2 < rs[1].len() && rs[1][2] is Some) || (2 < rs.len() && 0 < rs[2].len() && rs[2][0] is Some) || (2 < rs.len() && 1 < rs[2].len() && rs[2][1] is Some) || (2 < rs.len() && 2 < rs[2].len() && rs[2][2] is Some)
}

/// Whether the first `n` recipes of the book are well formed.
pub open spec fn book_well_formed_below(n: nat) -> bool
    decreases n,
{
    if n == 0 {
        true
    } else {
        book_well_formed_below((n - 1) as nat) && recipe_well_formed(
            recipe_data((n - 1) as u8),
            final_shape_rows(recipe_data((n - 1) as u8)),
        )
    }
}

/// The recipes below `n` are well formed one by one.
proof fn lemma_book_well_formed_entry(n: nat, i: int)
    requires
        book_well_formed_below(n),
        0 <= i < n,
    ensures
        recipe_well_formed(recipe_data(i as u8), final_shape_rows(recipe_data(i as u8))),
    decreases n,
{
    if i < n - 1 {
        lemma_book_well_formed_entry((n - 1) as nat, i);
    }
}

/// Every recipe of the book is well formed (see `recipe_well_formed`).
#[verifier::spinoff_prover]
#[verifier::rlimit(100)]
pub proof fn law_recipes_well_formed(i: int)
    requires
        0 <= i < recipe_count(),
    ensures
        recipe_well_formed(recipe_data(i as u8), final_shape_rows(recipe_data(i as u8))),
{
    // The book is checked eight recipes at a time.
    assert(book_well_formed_below(8)) by {
        reveal_with_fuel(book_well_formed_below, 9);
    }
    assert(book_well_formed_below(16)) by {
        reveal_with_fuel(book_well_formed_below, 9);
    }
    assert(book_well_formed_below(24)) by {
        reveal_with_fuel(book_well_formed_below, 9);
    }
    assert(book_well_formed_below(32)) by {
        reveal_with_fuel(book_well_formed_below, 9);
    }
    assert(book_well_formed_below(40)) by {
        reveal_with_fuel(book_well_formed_below, 9);
    }
    assert(book_well_formed_below(48)) by {
        reveal_with_fuel(book_well_formed_below, 9);
    }
    assert(book_well_formed_below(56)) by {
        reveal_with_fuel(book_well_formed_below, 9);
    }
    assert(book_well_formed_below(64)) by {
        reveal_with_fuel(book_well_formed_below, 9);
    }
    assert(book_well_formed_below(72)) by {
        reveal_with_fuel(book_well_formed_below, 9);
    }
    assert(book_well_formed_below(78)) by {
        reveal_with_fuel(book_well_formed_below, 9);
    }
    lemma_book_well_formed_entry(78, i);
}


/// How many of `item` an ingredient list asks for in all.
pub open spec fn listed_amount(ingredients: Seq<(ItemType, u32)>, item: ItemType) -> nat
    decreases ingredients.len(),
{
    if ingredients.len() == 0 {
        0
    } else {
        listed_amount(ingredients.drop_last(), item) + if ingredients.last().0 == item {
            ingredients.last().1 as nat
        } else {
            0nat
        }
    }
}

/// Whether the shape of recipe data `d`, if it has one, holds each item in
/// as many cells as the ingredient list asks for.
pub open spec fn shape_uses_listed(d: RecipeData, item: ItemType) -> bool {
    final_shape_rows(d) matches Some(rs) ==> occurrences(flatten_rows(rs), item) == listed_amount(d.ingredients, item)
}

/// Recipes 0 to 7 of the book use their listed ingredients.
proof fn lemma_shapes_use_listed_0(i: int, item: ItemType)
    requires
        0 <= i < 8,
    ensures
        shape_uses_listed(recipe_data(i as u8), item),
{
    reveal_with_fuel(occurrences, 10);
    reveal_with_fuel(flatten_rows, 4);
    reveal_with_fuel(listed_amount, 6);
    if i == 0 {
        assert(shape_uses_listed(recipe_data(0u8), item));
    }
    if i == 1 {
        assert(shape_uses_listed(recipe_data(1u8), item));
    }
    if i == 2 {
        assert(shape_uses_listed(recipe_data(2u8), item));
    }
    if i == 3 {
        assert(shape_uses_listed(recipe_data(3u8), item));
    }
    if i == 4 {
        assert(shape_uses_listed(recipe_data(4u8), item));
    }
    if i == 5 {
        assert(shape_uses_listed(recipe_data(5u8), item));
    }
    if i == 6 {
        assert(shape_uses_listed(recipe_data(6u8), item));
    }
    if i == 7 {
        assert(shape_uses_listed(recipe_data(7u8), item));
    }
}

/// Recipes 8 to 15 of the book use their listed ingredients.
proof fn lemma_shapes_use_listed_1(i: int, item: ItemType)
    requires
        8 <= i < 16,
    ensures
        shape_uses_listed(recipe_data(i as u8), item),
{
    reveal_with_fuel(occurrences, 10);
    reveal_with_fuel(flatten_rows, 4);
    reveal_with_fuel(listed_amount, 6);
    if i == 8 {
        assert(shape_uses_listed(recipe_data(8u8), item));
    }
    if i == 9 {
        assert(shape_uses_listed(recipe_data(9u8), item));
    }
    if i == 10 {
        assert(shape_uses_listed(recipe_data(10u8), item));
    }
    if i == 11 {
        assert(shape_uses_listed(recipe_data(11u8), item));
    }
    if i == 12 {
        assert(shape_uses_listed(recipe_data(12u8), item));
    }
    if i == 13 {
        assert(shape_uses_listed(recipe_data(13u8), item));
    }
    if i == 14 {
        assert(shape_uses_listed(recipe_data(14u8), item));
    }
    if i == 15 {
        assert(shape_uses_listed(recipe_data(15u8), item));
    }
}

/// Recipes 16 to 23 of the book use their listed ingredients.
proof fn lemma_shapes_use_listed_2(i: int, item: ItemType)
    requires
        16 <= i < 24,
    ensures
        shape_uses_listed(recipe_data(i as u8), item),
{
    reveal_with_fuel(occurrences, 10);
    reveal_with_fuel(flatten_rows, 4);
    reveal_with_fuel(listed_amount, 6);
    if i == 16 {
        assert(shape_uses_listed(recipe_data(16u8), item));
    }
    if i == 17 {
        assert(shape_uses_listed(recipe_data(17u8), item));
    }
    if i == 18 {
        assert(shape_uses_listed(recipe_data(18u8), item));
    }
    if i == 19 {
        assert(shape_uses_listed(recipe_data(19u8), item));
    }
    if i == 20 {
        assert(shape_uses_listed(recipe_data(20u8), item));
    }
    if i == 21 {
        assert(shape_uses_listed(recipe_data(21u8), item));
    }
    if i == 22 {
        assert(shape_uses_listed(recipe_data(22u8), item));
    }
    if i == 23 {
        assert(shape_uses_listed(recipe_data(23u8), item));
    }
}

/// Recipes 24 to 31 of the book use their listed ingredients.
proof fn lemma_shapes_use_listed_3(i: int, item: ItemType)
    requires
        24 <= i < 32,
    ensures
        shape_uses_listed(recipe_data(i as u8), item),
{
    reveal_with_fuel(occurrences, 10);
    reveal_with_fuel(flatten_rows, 4);
    reveal_with_fuel(listed_amount, 6);
    if i == 24 {
        assert(shape_uses_listed(recipe_data(24u8), item));
    }
    if i == 25 {
        assert(shape_uses_listed(recipe_data(25u8), item));
    }
    if i == 26 {
        assert(shape_uses_listed(recipe_data(26u8), item));
    }
    if i == 27 {
        assert(shape_uses_listed(recipe_data(27u8), item));
    }
    if i == 28 {
        assert(shape_uses_listed(recipe_data(28u8), item));
    }
    if i == 29 {
        assert(shape_uses_listed(recipe_data(29u8), item));
    }
    if i == 30 {
        assert(shape_uses_listed(recipe_data(30u8), item));
    }
    if i == 31 {
        assert(shape_uses_listed(recipe_data(31u8), item));
    }
}

/// Recipes 32 to 39 of the book use their listed ingredients.
proof fn lemma_shapes_use_listed_4(i: int, item: ItemType)
    requires
        32 <= i < 40,
    ensures
        shape_uses_listed(recipe_data(i as u8), item),
{
    reveal_with_fuel(occurrences, 10);
    reveal_with_fuel(flatten_rows, 4);
    reveal_with_fuel(listed_amount, 6);
    if i == 32 {
        assert(shape_uses_listed(recipe_data(32u8), item));
    }
    if i == 33 {
        assert(shape_uses_listed(recipe_data(33u8), item));
    }
    if i == 34 {
        assert(shape_uses_listed(recipe_data(34u8), item));
    }
    if i == 35 {
        assert(shape_uses_listed(recipe_data(35u8), item));
    }
    if i == 36 {
        assert(shape_uses_listed(recipe_data(36u8), item));
    }
    if i == 37 {
        assert(shape_uses_listed(recipe_data(37u8), item));
    }
    if i == 38 {
        assert(shape_uses_listed(recipe_data(38u8), item));
    }
    if i == 39 {
        assert(shape_uses_listed(recipe_data(39u8), item));
    }
}

/// Recipes 40 to 47 of the book use their listed ingredients.
proof fn lemma_shapes_use_listed_5(i: int, item: ItemType)
    requires
        40 <= i < 48,
    ensures
        shape_uses_listed(recipe_data(i as u8), item),
{
    reveal_with_fuel(occurrences, 10);
    reveal_with_fuel(flatten_rows, 4);
    reveal_with_fuel(listed_amount, 6);
    if i == 40 {
        assert(shape_uses_listed(recipe_data(40u8), item));
    }
    if i == 41 {
        assert(shape_uses_listed(recipe_data(41u8), item));
    }
    if i == 42 {
        assert(shape_uses_listed(recipe_data(42u8), item));
    }
    if i == 43 {
        assert(shape_uses_listed(recipe_data(43u8), item));
    }
    if i == 44 {
        assert(shape_uses_listed(recipe_data(44u8), item));
    }
    if i == 45 {
        assert(shape_uses_listed(recipe_data(45u8), item));
    }
    if i == 46 {
        assert(shape_uses_listed(recipe_data(46u8), item));
    }
    if i == 47 {
        assert(shape_uses_listed(recipe_data(47u8), item));
    }
}

/// Recipes 48 to 55 of the book use their listed ingredients.
proof fn lemma_shapes_use_listed_6(i: int, item: ItemType)
    requires
        48 <= i < 56,
    ensures
        shape_uses_listed(recipe_data(i as u8), item),
{
    reveal_with_fuel(occurrences, 10);
    reveal_with_fuel(flatten_rows, 4);
    reveal_with_fuel(listed_amount, 6);
    if i == 48 {
        assert(shape_uses_listed(recipe_data(48u8), item));
    }
    if i == 49 {
        assert(shape_uses_listed(recipe_data(49u8), item));
    }
    if i == 50 {
        assert(shape_uses_listed(recipe_data(50u8), item));
    }
    if i == 51 {
        assert(shape_uses_listed(recipe_data(51u8), item));
    }
    if i == 52 {
        assert(shape_uses_listed(recipe_data(52u8), item));
    }
    if i == 53 {
        assert(shape_uses_listed(recipe_data(53u8), item));
    }
    if i == 54 {
        assert(shape_uses_listed(recipe_data(54u8), item));
    }
    if i == 55 {
        assert(shape_uses_listed(recipe_data(55u8), item));
    }
}

/// Recipes 56 to 63 of the book use their listed ingredients.
proof fn lemma_shapes_use_listed_7(i: int, item: ItemType)
    requires
        56 <= i < 64,
    ensures
        shape_uses_listed(recipe_data(i as u8), item),
{
    reveal_with_fuel(occurrences, 10);
    reveal_with_fuel(flatten_rows, 4);
    reveal_with_fuel(listed_amount, 6);
    if i == 56 {
        assert(shape_uses_listed(recipe_data(56u8), item));
    }
    if i == 57 {
        assert(shape_uses_listed(recipe_data(57u8), item));
    }
    if i == 58 {
        assert(shape_uses_listed(recipe_data(58u8), item));
    }
    if i == 59 {
        assert(shape_uses_listed(recipe_data(59u8), item));
    }
    if i == 60 {
        assert(shape_uses_listed(recipe_data(60u8), item));
    }
    if i == 61 {
        assert(shape_uses_listed(recipe_data(61u8), item));
    }
    if i == 62 {
        assert(shape_uses_listed(recipe_data(62u8), item));
    }
    if i == 63 {
        assert(shape_uses_listed(recipe_data(63u8), item));
    }
}

/// Recipes 64 to 71 of the book use their listed ingredients.
proof fn lemma_shapes_use_listed_8(i: int, item: ItemType)
    requires
        64 <= i < 72,
    ensures
        shape_uses_listed(recipe_data(i as u8), item),
{
    reveal_with_fuel(occurrences, 10);
    reveal_with_fuel(flatten_rows, 4);
    reveal_with_fuel(listed_amount, 6);
    if i == 64 {
        assert(shape_uses_listed(recipe_data(64u8), item));
    }
    if i == 65 {
        assert(shape_uses_listed(recipe_data(65u8), item));
    }
    if i == 66 {
        assert(shape_uses_listed(recipe_data(66u8), item));
    }
    if i == 67 {
        assert(shape_uses_listed(recipe_data(67u8), item));
    }
    if i == 68 {
        assert(shape_uses_listed(recipe_data(68u8), item));
    }
    if i == 69 {
        assert(shape_uses_listed(recipe_data(69u8), item));
    }
    if i == 70 {
        assert(shape_uses_listed(recipe_data(70u8), item));
    }
    if i == 71 {
        assert(shape_uses_listed(recipe_data(71u8), item));
    }
}

/// Recipes 72 to 77 of the book use their listed ingredients.
proof fn lemma_shapes_use_listed_9(i: int, item: ItemType)
    requires
        72 <= i < 78,
    ensures
        shape_uses_listed(recipe_data(i as u8), item),
{
    reveal_with_fuel(occurrences, 10);
    reveal_with_fuel(flatten_rows, 4);
    reveal_with_fuel(listed_amount, 6);
    if i == 72 {
        assert(shape_uses_listed(recipe_data(72u8), item));
    }
    if i == 73 {
        assert(shape_uses_listed(recipe_data(73u8), item));
    }
    if i == 74 {
        assert(shape_uses_listed(recipe_data(74u8), item));
    }
    if i == 75 {
        assert(shape_uses_listed(recipe_data(75u8), item));
    }
    if i == 76 {
        assert(shape_uses_listed(recipe_data(76u8), item));
    }
    if i == 77 {
        assert(shape_uses_listed(recipe_data(77u8), item));
    }
}

/// Every shaped recipe of the book consumes exactly its listed
/// ingredients: its pattern holds each item in as many cells as the
/// ingredient list asks for (so its required counts, one per item of the
/// pattern, are the listed amounts).
pub proof fn law_shaped_recipes_use_listed_ingredients(i: int, item: ItemType)
    requires
        0 <= i < recipe_count(),
    ensures
        shape_uses_listed(recipe_data(i as u8), item),
{
    if 0 <= i < 8 {
        lemma_shapes_use_listed_0(i, item);
    }
    if 8 <= i < 16 {
        lemma_shapes_use_listed_1(i, item);
    }
    if 16 <= i < 24 {
        lemma_shapes_use_listed_2(i, item);
    }
    if 24 <= i < 32 {
        lemma_shapes_use_listed_3(i, item);
    }
    if 32 <= i < 40 {
        lemma_shapes_use_listed_4(i, item);
    }
    if 40 <= i < 48 {
        lemma_shapes_use_listed_5(i, item);
    }
    if 48 <= i < 56 {
        lemma_shapes_use_listed_6(i, item);
    }
    if 56 <= i < 64 {
        lemma_shapes_use_listed_7(i, item);
    }
    if 64 <= i < 72 {
        lemma_shapes_use_listed_8(i, item);
    }
    if 72 <= i < 78 {
        lemma_shapes_use_listed_9(i, item);
    }
}


/// With each item named once and asked for at least once, the amount an
/// ingredient list asks for of an item is that of its entry, or none.
proof fn lemma_listed_amount_of_entry(ingredients: Seq<(ItemType, u32)>, item: ItemType)
    requires
        distinct_items(ingredients),
    ensures
        forall|k: int| 0 <= k < ingredients.len() && (#[trigger] ingredients[k]).0 == item ==> listed_amount(ingredients, item)
            == ingredients[k].1,
        (forall|k: int| 0 <= k < ingredients.len() ==> (#[trigger] ingredients[k]).0 != item) ==> listed_amount(
            ingredients,
            item,
        ) == 0,
    decreases ingredients.len(),
{
    if ingredients.len() > 0 {
        let init = ingredients.drop_last();
        assert(distinct_items(init)) by {
            assert forall|a: int, b: int| 0 <= a < b < init.len() implies init[a].0 != init[b].0 by {
                assert(init[a] == ingredients[a] && init[b] == ingredients[b]);
            }
        }
        lemma_listed_amount_of_entry(init, item);
        let last = ingredients.len() - 1;
        assert forall|k: int| 0 <= k < ingredients.len() && (#[trigger] ingredients[k]).0 == item implies listed_amount(
            ingredients,
            item,
        ) == ingredients[k].1 by {
            if k < last {
                assert(init[k] == ingredients[k]);
                assert(ingredients[last].0 != item);
            } else {
                assert forall|j: int| 0 <= j < init.len() implies (#[trigger] init[j]).0 != item by {
                    assert(init[j] == ingredients[j]);
                }
            }
        }
        if forall|k: int| 0 <= k < ingredients.len() ==> (#[trigger] ingredients[k]).0 != item {
            assert forall|j: int| 0 <= j < init.len() implies (#[trigger] init[j]).0 != item by {
                assert(init[j] == ingredients[j]);
                assert(ingredients[j].0 != item);
            }
            assert(ingredients[last].0 != item);
        }
    }
}

/// A pattern of at most three rows of at most three cells has at most
/// nine cells.
proof fn lemma_flatten_small(rows: Seq<Seq<Option<ItemType>>>)
    requires
        rows.len() <= 3,
        forall|j: int| 0 <= j < rows.len() ==> (#[trigger] rows[j]).len() <= 3,
    ensures
        flatten_rows(rows).len() <= 3 * rows.len(),
    decreases rows.len(),
{
    if rows.len() > 0 {
        let init = rows.drop_last();
        assert forall|j: int| 0 <= j < init.len() implies (#[trigger] init[j]).len() <= 3 by {
            assert(init[j] == rows[j]);
        }
        lemma_flatten_small(init);
        assert(rows.last() == rows[rows.len() - 1]);
    }
}

/// Two duplicate-free sequences holding the same elements are
/// permutations of each other.
proof fn lemma_same_elements_permute(a: Seq<(ItemType, u32)>, b: Seq<(ItemType, u32)>)
    requires
        a.no_duplicates(),
        b.no_duplicates(),
        forall|p: (ItemType, u32)| a.contains(p) <==> b.contains(p),
    ensures
        a.to_multiset() =~= b.to_multiset(),
{
    a.lemma_multiset_has_no_duplicates();
    b.lemma_multiset_has_no_duplicates();
    assert forall|p: (ItemType, u32)| a.to_multiset().count(p) == b.to_multiset().count(p) by {
        vstd::seq_lib::to_multiset_contains(a, p);
        vstd::seq_lib::to_multiset_contains(b, p);
        if a.contains(p) {
            assert(a.to_multiset().contains(p));
            assert(b.to_multiset().contains(p));
        } else {
            assert(!a.to_multiset().contains(p)) by {
                if a.to_multiset().contains(p) {
                    a.to_multiset_ensures();
                }
            }
            assert(!b.to_multiset().contains(p)) by {
                if b.to_multiset().contains(p) {
                    b.to_multiset_ensures();
                }
            }
        }
    }
}

/// A recipe of the book consumes exactly its listed ingredients: what it
/// requires (its pattern's counts when shaped, its list otherwise) is a
/// permutation of its ingredient list.
pub proof fn law_requirements_permute_ingredients(r: Recipe, i: int)
    requires
        0 <= i < recipe_count(),
        recipe_is(r, recipe_data(i as u8), final_shape_rows(recipe_data(i as u8))),
    ensures
        r.spec_required().to_multiset() =~= r.ingredients@.to_multiset(),
{
    let d = recipe_data(i as u8);
    law_recipes_well_formed(i);
    match final_shape_rows(d) {
        None => {},
        Some(rs) => {
            let cells = flatten_rows(rs);
            let req = pattern_counts(cells);
            let ing = d.ingredients;
            assert(r.spec_required() == req);
            lemma_flatten_small(rs);
            lemma_counts_upto(cells, 135);
            lemma_sorted_distinct(req);
            assert forall|p: (ItemType, u32)| req.contains(p) <==> ing.contains(p) by {
                law_shaped_recipes_use_listed_ingredients(i, p.0);
                lemma_listed_amount_of_entry(ing, p.0);
                p.0.lemma_ordinal_roundtrip();
                if req.contains(p) {
                    let a = choose|a: int| 0 <= a < req.len() && req[a] == p;
                    assert(req[a].1 == occurrences(cells, p.0));
                    assert(listed_amount(ing, p.0) > 0);
                    let k = choose|k: int| 0 <= k < ing.len() && (#[trigger] ing[k]).0 == p.0;
                    assert(ing[k] == p);
                }
                if ing.contains(p) {
                    let k = choose|k: int| 0 <= k < ing.len() && ing[k] == p;
                    assert(listed_amount(ing, p.0) == p.1 as nat);
                    assert(ing[k].1 >= 1);
                    let a = choose|a: int| 0 <= a < req.len() && #[trigger] req[a].0 == p.0;
                    assert(req[a] == p);
                }
            }
            assert(req.no_duplicates()) by {
                assert forall|a: int, b: int| 0 <= a < req.len() && 0 <= b < req.len() && a != b implies req[a] != req[b] by {
                    if a < b {
                        assert(req[a].0 != req[b].0);
                    } else {
                        assert(req[b].0 != req[a].0);
                    }
                }
            }
            assert(ing.no_duplicates()) by {
                assert forall|a: int, b: int| 0 <= a < ing.len() && 0 <= b < ing.len() && a != b implies ing[a] != ing[b] by {
                    if a < b {
                        assert(ing[a].0 != ing[b].0);
                    } else {
                        assert(ing[b].0 != ing[a].0);
                    }
                }
            }
            lemma_same_elements_permute(req, ing);
        },
    }
}

} // verus!
