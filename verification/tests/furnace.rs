use steel_recipes::fuel_values::vanilla_fuel_values;
use steel_recipes::furnace::{
    cooking_experience, Direction, FurnaceContainer, FurnaceKind, SLOT_FUEL, SLOT_INPUT, SLOT_RESULT,
};
use steel_recipes::furnace_menu::FurnaceMenuKind;
use steel_recipes::identifier::Identifier;
use steel_recipes::ingredient::Ingredient;
use steel_recipes::item_stack::{ItemStack, ItemStackTemplate};
use steel_recipes::items::{BUCKET, COAL, FURNACE, IRON_INGOT, IRON_ORE, LAVA_BUCKET, RAW_IRON, WATER_BUCKET};
use steel_recipes::recipe::properties::RecipeProperties;
use steel_recipes::recipe::registry::RecipeRegistry;
use steel_recipes::recipe::serializer::{cooking_recipe, CookingSerializer};
use steel_recipes::recipe::single_item::SingleItemRecipeInput;
use steel_recipes::recipe::types::{Recipe, RecipeTypeRegistry};
use steel_recipes::recipe::vanilla::{blasting, smelting, smoking, VanillaRecipe};

fn iron_recipes() -> RecipeRegistry<VanillaRecipe> {
    let mut types = RecipeTypeRegistry::new();
    types.register(&smelting());
    types.register(&blasting());
    types.register(&smoking());
    types.freeze();
    let mut recipes = RecipeRegistry::new();
    recipes.register(Recipe::new(
        Identifier::vanilla("iron_ingot_from_smelting_iron_ore"),
        &smelting(),
        VanillaRecipe::Cooking(cooking_recipe(
            CookingSerializer::Smelting,
            RecipeProperties::special(),
            Ingredient::Item(IRON_ORE),
            ItemStackTemplate::new(IRON_INGOT),
            0.7f32.to_bits(),
            Some(200),
        )),
    ));
    recipes.register(Recipe::new(
        Identifier::vanilla("iron_ingot_from_blasting_iron_ore"),
        &blasting(),
        VanillaRecipe::Cooking(cooking_recipe(
            CookingSerializer::Blasting,
            RecipeProperties::special(),
            Ingredient::Item(IRON_ORE),
            ItemStackTemplate::new(IRON_INGOT),
            0.7f32.to_bits(),
            Some(100),
        )),
    ));
    recipes.freeze(&types);
    recipes
}

fn cook_iron(kind: FurnaceKind, expected_ticks: usize, expected_fuel_time: i32) {
    let recipes = iron_recipes();
    let fuels = vanilla_fuel_values();
    let mut furnace = FurnaceContainer::new(kind);
    furnace.set_item(&recipes, SLOT_INPUT, ItemStack::new(IRON_ORE));
    furnace.set_item(&recipes, SLOT_FUEL, ItemStack::new(COAL));

    for _ in 0..expected_ticks {
        furnace.tick(&recipes, &fuels);
    }

    assert!(furnace.items()[SLOT_INPUT].is_empty());
    assert!(furnace.items()[SLOT_FUEL].is_empty());
    assert!(furnace.items()[SLOT_RESULT].is(IRON_INGOT));
    assert_eq!(furnace.items()[SLOT_RESULT].count(), 1);
    assert_eq!(furnace.lit_total_time(), expected_fuel_time);
    assert_eq!(furnace.recipes_used().values().sum::<i32>(), 1);
}

#[test]
fn furnace_consumes_one_fuel_and_finishes_at_recipe_cooking_time() {
    cook_iron(FurnaceKind::Furnace, 200, 1600);
}

#[test]
fn blast_furnace_uses_blasting_time_and_half_fuel_duration() {
    cook_iron(FurnaceKind::BlastFurnace, 100, 800);
}

#[test]
fn furnace_sided_inventory_matches_vanilla_faces_and_bucket_rule() {
    let furnace = FurnaceContainer::new(FurnaceKind::Furnace);

    assert_eq!(furnace.slots_for_face(Direction::Up), Some(vec![SLOT_INPUT]));
    assert_eq!(furnace.slots_for_face(Direction::Down), Some(vec![SLOT_RESULT, SLOT_FUEL]));
    assert_eq!(furnace.slots_for_face(Direction::North), Some(vec![SLOT_FUEL]));
    assert!(!furnace.can_take_item_through_face(SLOT_FUEL, &ItemStack::new(COAL), Direction::Down));
    assert!(furnace.can_take_item_through_face(SLOT_FUEL, &ItemStack::new(WATER_BUCKET), Direction::Down));
}

#[test]
fn manual_input_accepts_items_without_a_matching_recipe() {
    let recipes = iron_recipes();
    let fuels = vanilla_fuel_values();
    for (kind, item) in [(FurnaceKind::Furnace, FURNACE), (FurnaceKind::Smoker, RAW_IRON)] {
        let stack = ItemStack::new(item);
        assert!(recipes
            .find_match(&kind.recipe_type(), &SingleItemRecipeInput::new(stack.duplicate()))
            .is_none());
        let menu = FurnaceMenuKind::new(kind);
        assert!(menu.may_place(&fuels, 0, &stack));
    }
}

#[test]
fn cooking_is_not_done_one_tick_early() {
    let recipes = iron_recipes();
    let fuels = vanilla_fuel_values();
    let mut furnace = FurnaceContainer::new(FurnaceKind::Furnace);
    furnace.set_item(&recipes, SLOT_INPUT, ItemStack::new(IRON_ORE));
    furnace.set_item(&recipes, SLOT_FUEL, ItemStack::new(COAL));
    let first = furnace.tick(&recipes, &fuels);
    assert!(first.lit_changed && first.is_lit);
    assert_eq!(furnace.cooking_total_time(), 200);
    for _ in 1..199 {
        furnace.tick(&recipes, &fuels);
    }
    assert!(furnace.items()[SLOT_RESULT].is_empty());
    assert_eq!(furnace.cooking_timer(), 199);
    assert_eq!(furnace.lit_time_remaining(), 1600 - 198);
    assert_eq!(furnace.data(), [1402, 1600, 199, 200]);
}

#[test]
fn fuel_slot_rules() {
    let furnace = FurnaceContainer::new(FurnaceKind::Furnace);
    let fuels = vanilla_fuel_values();
    assert!(furnace.can_place_item(&fuels, SLOT_FUEL, &ItemStack::new(COAL)));
    assert!(furnace.can_place_item(&fuels, SLOT_FUEL, &ItemStack::new(BUCKET)));
    assert!(!furnace.can_place_item(&fuels, SLOT_FUEL, &ItemStack::new(IRON_ORE)));
    assert!(!furnace.can_place_item(&fuels, SLOT_RESULT, &ItemStack::new(IRON_INGOT)));
    assert_eq!(FurnaceKind::Smoker.fuel_duration(20000), 10000);
    assert_eq!(FurnaceKind::Furnace.fuel_duration(20000), 20000);
    assert_eq!(FurnaceKind::BlastFurnace.fuel_duration(-3), -1);
    assert_eq!(fuels.burn_duration(LAVA_BUCKET), 20000);
}

#[test]
fn experience_is_read_from_cooking_recipes_only() {
    let recipes = iron_recipes();
    let exp = cooking_experience(&recipes, &Identifier::vanilla("iron_ingot_from_smelting_iron_ore"));
    assert_eq!(exp.map(f32::from_bits), Some(0.7));
    assert_eq!(cooking_experience(&recipes, &Identifier::vanilla("missing")), None);
}

#[test]
fn saved_progress_loads_back() {
    let recipes = iron_recipes();
    let mut furnace = FurnaceContainer::new(FurnaceKind::Furnace);
    furnace.set_item(&recipes, SLOT_INPUT, ItemStack::with_count(IRON_ORE, 5));
    furnace.load(
        vec![(1, ItemStack::new(COAL)), (9, ItemStack::new(COAL))],
        Some(40),
        Some(200),
        Some(900),
        None,
        vec![(Identifier::vanilla("x"), 3)],
    );
    assert!(furnace.items()[SLOT_INPUT].is_empty());
    assert!(furnace.items()[SLOT_FUEL].is(COAL));
    assert_eq!(furnace.cooking_timer(), 40);
    assert_eq!(furnace.cooking_total_time(), 200);
    assert_eq!(furnace.lit_time_remaining(), 900);
    assert_eq!(furnace.lit_total_time(), 0);
    assert_eq!(furnace.recipes_used().get(&Identifier::vanilla("x")), Some(&3));
}

#[test]
fn furnace_save_then_load_restores_stacks_and_times() {
    let recipes = iron_recipes();
    let fuels = vanilla_fuel_values();
    let mut furnace = FurnaceContainer::new(FurnaceKind::Furnace);
    furnace.set_item(&recipes, SLOT_INPUT, ItemStack::with_count(IRON_ORE, 3));
    furnace.set_item(&recipes, SLOT_FUEL, ItemStack::new(COAL));
    for _ in 0..10 {
        furnace.tick(&recipes, &fuels);
    }
    let saved = furnace.save_items();
    assert_eq!(saved.len(), 1);
    assert_eq!(saved[0].0, 0);
    let [lit, lit_total, timer, total] = furnace.data();

    let mut loaded = FurnaceContainer::new(FurnaceKind::Furnace);
    loaded.load(saved, Some(timer), Some(total), Some(lit), Some(lit_total), Vec::new());
    assert!(loaded.items()[SLOT_INPUT].is(IRON_ORE));
    assert_eq!(loaded.items()[SLOT_INPUT].count(), 3);
    assert!(loaded.items()[SLOT_FUEL].is_empty());
    assert_eq!(loaded.cooking_timer(), furnace.cooking_timer());
    assert_eq!(loaded.cooking_total_time(), 200);
    assert_eq!(loaded.lit_time_remaining(), furnace.lit_time_remaining());
    assert_eq!(loaded.lit_total_time(), 1600);
}
