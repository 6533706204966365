use termcraft::world::block::BlockType;
use termcraft::world::item::{Inventory, ItemType, Recipe};

#[test]
fn test_blaze_chain_recipes_exist() {
    let recipes = Recipe::all();
    assert!(recipes.iter().any(|r| {
        r.result == ItemType::BlazePowder && r.ingredients == vec![(ItemType::BlazeRod, 1)]
    }));
    assert!(recipes.iter().any(|r| {
        r.result == ItemType::EyeOfEnder
            && r.ingredients == vec![(ItemType::EnderPearl, 1), (ItemType::BlazePowder, 1)]
    }));
}

#[test]
fn test_bone_meal_recipe_exists_and_yields_three() {
    let recipe = Recipe::all()
        .into_iter()
        .find(|r| r.result == ItemType::BoneMeal)
        .expect("bone meal recipe should exist");
    assert_eq!(recipe.ingredients, vec![(ItemType::Bone, 1)]);
    assert_eq!(recipe.result_count, 3);
    assert!(!recipe.needs_crafting_table);
}

#[test]
fn test_crafting_eye_of_ender_consumes_pearl_and_powder() {
    let mut inv = Inventory::new(8);
    inv.add_item(ItemType::EnderPearl, 1);
    inv.add_item(ItemType::BlazePowder, 1);
    let recipe = Recipe::all()
        .into_iter()
        .find(|r| r.result == ItemType::EyeOfEnder)
        .expect("eye recipe should exist");

    assert!(recipe.can_craft(&inv, false, false));
    recipe.craft(&mut inv);
    assert!(inv.has_item(ItemType::EyeOfEnder, 1));
    assert!(!inv.has_item(ItemType::EnderPearl, 1));
    assert!(!inv.has_item(ItemType::BlazePowder, 1));
}

#[test]
fn test_tool_family_recipes_exist() {
    let recipes = Recipe::all();
    assert!(recipes.iter().any(|r| r.result == ItemType::WoodAxe));
    assert!(recipes.iter().any(|r| r.result == ItemType::StoneAxe));
    assert!(recipes.iter().any(|r| r.result == ItemType::IronAxe));
    assert!(recipes.iter().any(|r| r.result == ItemType::DiamondAxe));
    assert!(recipes.iter().any(|r| r.result == ItemType::WoodShovel));
    assert!(recipes.iter().any(|r| r.result == ItemType::StoneShovel));
    assert!(recipes.iter().any(|r| r.result == ItemType::IronShovel));
    assert!(recipes.iter().any(|r| r.result == ItemType::DiamondShovel));
}

#[test]
fn test_fishing_rod_recipe_is_shaped_and_requires_table() {
    let rod = Recipe::all()
        .into_iter()
        .find(|r| r.result == ItemType::FishingRod)
        .expect("fishing rod recipe should exist");
    assert!(rod.needs_crafting_table);
    let rows = rod.ingredient_rows().expect("fishing rod should be shaped");
    assert_eq!(rows.len(), 3);
    assert_eq!(rows[0][2], Some(ItemType::Stick));
    assert_eq!(rows[1][2], Some(ItemType::String));
    assert_eq!(rows[2][0], Some(ItemType::Stick));
}

#[test]
fn test_arrow_recipe_is_shaped_and_requires_table() {
    let arrow = Recipe::all()
        .into_iter()
        .find(|r| r.result == ItemType::Arrow)
        .expect("arrow recipe should exist");
    assert!(arrow.needs_crafting_table);
    assert_eq!(arrow.result_count, 4);
    let rows = arrow
        .ingredient_rows()
        .expect("arrow recipe should be shaped");
    assert_eq!(rows.len(), 3);
    assert_eq!(rows[0][0], Some(ItemType::Flint));
    assert_eq!(rows[1][0], Some(ItemType::Stick));
    assert_eq!(rows[2][0], Some(ItemType::Feather));
}

#[test]
fn test_flint_and_steel_recipe_is_shaped_and_non_stackable() {
    let flint_and_steel = Recipe::all()
        .into_iter()
        .find(|r| r.result == ItemType::FlintAndSteel)
        .expect("flint and steel recipe should exist");
    assert!(!flint_and_steel.needs_crafting_table);
    assert_eq!(ItemType::FlintAndSteel.max_stack_size(), 1);
    assert_eq!(ItemType::FlintAndSteel.max_durability(), Some(65));
    let rows = flint_and_steel
        .ingredient_rows()
        .expect("flint and steel recipe should be shaped");
    assert_eq!(rows.len(), 2);
    assert_eq!(rows[0][0], Some(ItemType::IronIngot));
    assert_eq!(rows[1][1], Some(ItemType::Flint));
}

#[test]
fn test_shears_recipe_is_shaped_and_non_stackable() {
    let shears = Recipe::all()
        .into_iter()
        .find(|r| r.result == ItemType::Shears)
        .expect("shears recipe should exist");
    assert!(!shears.needs_crafting_table);
    assert_eq!(ItemType::Shears.max_stack_size(), 1);
    assert_eq!(ItemType::Shears.max_durability(), Some(239));
    let rows = shears
        .ingredient_rows()
        .expect("shears recipe should be shaped");
    assert_eq!(rows.len(), 2);
    assert_eq!(rows[0][0], Some(ItemType::IronIngot));
    assert_eq!(rows[1][1], Some(ItemType::IronIngot));
}

#[test]
fn test_fishing_items_have_expected_properties() {
    assert_eq!(ItemType::FishingRod.max_durability(), Some(65));
    assert_eq!(ItemType::FishingRod.max_stack_size(), 64);
    assert_eq!(ItemType::RawFish.max_durability(), None);
    assert_eq!(ItemType::CookedFish.max_durability(), None);
}

#[test]
fn test_bucket_items_have_expected_stack_and_recipe_behavior() {
    assert_eq!(ItemType::Bucket.max_stack_size(), 1);
    assert_eq!(ItemType::WaterBucket.max_stack_size(), 1);
    assert_eq!(ItemType::LavaBucket.max_stack_size(), 1);

    let bucket = Recipe::all()
        .into_iter()
        .find(|r| r.result == ItemType::Bucket)
        .expect("bucket recipe should exist");
    assert!(!bucket.needs_crafting_table);
    let rows = bucket
        .ingredient_rows()
        .expect("bucket recipe should be shaped");
    assert_eq!(rows.len(), 2);
    assert_eq!(rows[0][0], Some(ItemType::IronIngot));
    assert_eq!(rows[0][1], None);
    assert_eq!(rows[0][2], Some(ItemType::IronIngot));
    assert_eq!(rows[1][1], Some(ItemType::IronIngot));
}

#[test]
fn test_paper_book_and_bookshelf_chain_exists() {
    let recipes = Recipe::all();
    let paper = recipes
        .iter()
        .find(|recipe| recipe.result == ItemType::Paper)
        .expect("paper recipe should exist");
    assert!(paper.needs_crafting_table);
    assert_eq!(paper.result_count, 3);
    let paper_rows = paper
        .ingredient_rows()
        .expect("paper recipe should be shaped");
    assert_eq!(paper_rows.len(), 1);
    assert_eq!(paper_rows[0][0], Some(ItemType::SugarCane));
    assert_eq!(paper_rows[0][1], Some(ItemType::SugarCane));
    assert_eq!(paper_rows[0][2], Some(ItemType::SugarCane));

    let book = recipes
        .iter()
        .find(|recipe| recipe.result == ItemType::Book)
        .expect("book recipe should exist");
    assert!(!book.needs_crafting_table);
    assert_eq!(
        book.ingredients,
        vec![(ItemType::Paper, 3), (ItemType::Leather, 1)]
    );

    let bookshelf = recipes
        .iter()
        .find(|recipe| recipe.result == ItemType::Bookshelf)
        .expect("bookshelf recipe should exist");
    assert!(bookshelf.needs_crafting_table);
    let rows = bookshelf
        .ingredient_rows()
        .expect("bookshelf recipe should be shaped");
    assert_eq!(rows.len(), 3);
    assert_eq!(rows[0][0], Some(ItemType::Planks));
    assert_eq!(rows[1][1], Some(ItemType::Book));
    assert_eq!(rows[2][2], Some(ItemType::Planks));
}

#[test]
fn test_boat_recipe_is_shaped_requires_table_and_is_non_stackable() {
    let boat = Recipe::all()
        .into_iter()
        .find(|recipe| recipe.result == ItemType::Boat)
        .expect("boat recipe should exist");
    assert!(boat.needs_crafting_table);
    assert_eq!(boat.result_count, 1);
    assert_eq!(ItemType::Boat.max_stack_size(), 1);
    let rows = boat
        .ingredient_rows()
        .expect("boat recipe should be shaped");
    assert_eq!(rows.len(), 2);
    assert_eq!(rows[0][0], Some(ItemType::Planks));
    assert_eq!(rows[0][1], None);
    assert_eq!(rows[0][2], Some(ItemType::Planks));
    assert_eq!(rows[1][0], Some(ItemType::Planks));
    assert_eq!(rows[1][1], Some(ItemType::Planks));
    assert_eq!(rows[1][2], Some(ItemType::Planks));
}

#[test]
fn test_raw_fish_has_furnace_recipe() {
    let recipes = Recipe::all();
    assert!(recipes.iter().any(|r| {
        r.result == ItemType::CookedFish
            && r.ingredients == vec![(ItemType::RawFish, 1)]
            && r.needs_furnace
    }));
}

#[test]
fn test_tool_efficiency_matches_block_family() {
    assert!(ItemType::WoodAxe.efficiency_multiplier(BlockType::Wood) > 1);
    assert_eq!(ItemType::WoodAxe.efficiency_multiplier(BlockType::Stone), 1);
    assert!(ItemType::WoodShovel.efficiency_multiplier(BlockType::Dirt) > 1);
    assert_eq!(ItemType::WoodShovel.efficiency_multiplier(BlockType::Wood), 1);
    assert!(ItemType::WoodPickaxe.efficiency_multiplier(BlockType::Stone) > 1);
    assert_eq!(ItemType::WoodPickaxe.efficiency_multiplier(BlockType::Dirt), 1);
}

#[test]
fn test_only_pickaxes_grant_harvest_level() {
    assert_eq!(ItemType::WoodPickaxe.tool_level(), 1);
    assert_eq!(ItemType::StonePickaxe.tool_level(), 2);
    assert_eq!(ItemType::WoodHoe.tool_level(), 0);
    assert_eq!(ItemType::WoodAxe.tool_level(), 0);
    assert_eq!(ItemType::WoodShovel.tool_level(), 0);
}

#[test]
fn test_building_family_recipes_exist() {
    let recipes = Recipe::all();
    assert!(recipes.iter().any(|r| r.result == ItemType::Glass));
    assert!(recipes.iter().any(|r| r.result == ItemType::WoodDoor));
    assert!(recipes.iter().any(|r| r.result == ItemType::Ladder));
    assert!(recipes.iter().any(|r| r.result == ItemType::StoneSlab));
    assert!(recipes.iter().any(|r| r.result == ItemType::StoneStairs));
    assert!(
        recipes
            .iter()
            .any(|r| r.result == ItemType::EnchantingTable)
    );
    assert!(recipes.iter().any(|r| r.result == ItemType::Anvil));
    assert!(recipes.iter().any(|r| r.result == ItemType::BrewingStand));
    assert!(recipes.iter().any(|r| r.result == ItemType::GlassBottle));
    assert!(recipes.iter().any(|r| r.result == ItemType::MagmaCream));
    assert!(
        recipes
            .iter()
            .any(|r| r.result == ItemType::RedstoneRepeater)
    );
}

#[test]
fn test_building_items_map_to_blocks() {
    assert_eq!(ItemType::Glass.to_block(), Some(BlockType::Glass));
    assert_eq!(ItemType::Wool.to_block(), Some(BlockType::Wool));
    assert_eq!(
        ItemType::WoodDoor.to_block(),
        Some(BlockType::WoodDoor(false))
    );
    assert_eq!(ItemType::Ladder.to_block(), Some(BlockType::Ladder));
    assert_eq!(ItemType::StoneSlab.to_block(), Some(BlockType::StoneSlab));
    assert_eq!(
        ItemType::StoneStairs.to_block(),
        Some(BlockType::StoneStairs)
    );
    assert_eq!(
        ItemType::EnchantingTable.to_block(),
        Some(BlockType::EnchantingTable)
    );
    assert_eq!(ItemType::Anvil.to_block(), Some(BlockType::Anvil));
    assert_eq!(
        ItemType::BrewingStand.to_block(),
        Some(BlockType::BrewingStand)
    );
    assert_eq!(
        ItemType::RedstoneRepeater.to_block(),
        Some(BlockType::RedstoneRepeater {
            powered: false,
            delay: 1,
            facing_right: true,
            timer: 0,
            target_powered: false
        })
    );
}

#[test]
fn test_repeater_recipe_is_shaped_and_requires_table() {
    let repeater = Recipe::all()
        .into_iter()
        .find(|r| r.result == ItemType::RedstoneRepeater)
        .expect("repeater recipe should exist");
    assert!(repeater.needs_crafting_table);
    let rows = repeater
        .ingredient_rows()
        .expect("repeater recipe should be shaped");
    assert_eq!(rows.len(), 2);
    assert_eq!(rows[0].len(), 3);
    assert_eq!(rows[0][0], Some(ItemType::RedstoneTorch));
    assert_eq!(rows[0][1], Some(ItemType::RedstoneDust));
    assert_eq!(rows[0][2], Some(ItemType::RedstoneTorch));
    assert_eq!(rows[1][0], Some(ItemType::Stone));
    assert_eq!(rows[1][1], Some(ItemType::Stone));
    assert_eq!(rows[1][2], Some(ItemType::Stone));
}

#[test]
fn test_shaped_recipe_metadata_is_available() {
    let pickaxe = Recipe::all()
        .into_iter()
        .find(|r| r.result == ItemType::WoodPickaxe)
        .expect("wood pickaxe recipe should exist");
    let rows = pickaxe
        .ingredient_rows()
        .expect("pickaxe recipe should be shaped");
    assert_eq!(rows.len(), 3);
    assert_eq!(rows[0].len(), 3);
    assert_eq!(rows[0][0], Some(ItemType::Planks));
    assert_eq!(rows[2][1], Some(ItemType::Stick));

    let blaze_powder = Recipe::all()
        .into_iter()
        .find(|r| r.result == ItemType::BlazePowder)
        .expect("blaze powder recipe should exist");
    assert!(blaze_powder.ingredient_rows().is_none());
}

#[test]
fn test_shape_size_blocks_three_by_three_recipe_without_table() {
    let mut inv = Inventory::new(8);
    inv.add_item(ItemType::Planks, 3);
    inv.add_item(ItemType::Stick, 2);

    let mut pickaxe = Recipe::all()
        .into_iter()
        .find(|r| r.result == ItemType::WoodPickaxe)
        .expect("wood pickaxe recipe should exist");
    pickaxe.needs_crafting_table = false;
    assert!(!pickaxe.can_craft(&inv, false, false));
}

#[test]
fn test_vanilla_output_counts_for_door_and_slab() {
    let recipes = Recipe::all();
    let door = recipes
        .iter()
        .find(|r| r.result == ItemType::WoodDoor)
        .expect("wood door recipe should exist");
    assert_eq!(door.result_count, 3);

    let slab = recipes
        .iter()
        .find(|r| r.result == ItemType::StoneSlab)
        .expect("stone slab recipe should exist");
    assert_eq!(slab.result_count, 6);
}

#[test]
fn test_armor_recipes_exist() {
    let recipes = Recipe::all();
    assert!(recipes.iter().any(|r| r.result == ItemType::LeatherHelmet));
    assert!(
        recipes
            .iter()
            .any(|r| r.result == ItemType::LeatherChestplate)
    );
    assert!(
        recipes
            .iter()
            .any(|r| r.result == ItemType::LeatherLeggings)
    );
    assert!(recipes.iter().any(|r| r.result == ItemType::LeatherBoots));
    assert!(recipes.iter().any(|r| r.result == ItemType::IronHelmet));
    assert!(recipes.iter().any(|r| r.result == ItemType::IronChestplate));
    assert!(recipes.iter().any(|r| r.result == ItemType::IronLeggings));
    assert!(recipes.iter().any(|r| r.result == ItemType::IronBoots));
    assert!(recipes.iter().any(|r| r.result == ItemType::DiamondHelmet));
    assert!(
        recipes
            .iter()
            .any(|r| r.result == ItemType::DiamondChestplate)
    );
    assert!(
        recipes
            .iter()
            .any(|r| r.result == ItemType::DiamondLeggings)
    );
    assert!(recipes.iter().any(|r| r.result == ItemType::DiamondBoots));
}

#[test]
fn test_armor_points_and_slot_index_mapping() {
    assert_eq!(ItemType::LeatherHelmet.armor_slot_index(), Some(0));
    assert_eq!(ItemType::IronChestplate.armor_slot_index(), Some(1));
    assert_eq!(ItemType::DiamondLeggings.armor_slot_index(), Some(2));
    assert_eq!(ItemType::LeatherBoots.armor_slot_index(), Some(3));
    assert_eq!(ItemType::Stick.armor_slot_index(), None);

    assert_eq!(ItemType::LeatherHelmet.armor_points(), 1);
    assert_eq!(ItemType::IronChestplate.armor_points(), 6);
    assert_eq!(ItemType::DiamondLeggings.armor_points(), 6);
    assert_eq!(ItemType::DiamondBoots.armor_points(), 3);
    assert_eq!(ItemType::Stick.armor_points(), 0);
}
