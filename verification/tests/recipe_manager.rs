use steel_recipes::identifier::Identifier;
use steel_recipes::ingredient::Ingredient;
use steel_recipes::item_stack::{ItemStack, ItemStackTemplate};
use steel_recipes::items::{BLUE_DYE, DyeColor, IRON_PICKAXE, PURPLE_DYE, RED_DYE, STICK};
use steel_recipes::recipe::crafting::{CraftingInput, CraftingRecipe, RepairItemRecipe, ShapelessRecipe};
use steel_recipes::recipe::properties::RecipeProperties;
use steel_recipes::recipe::registry::RecipeRegistry;
use steel_recipes::recipe::types::{Recipe, RecipeTypeRegistry};
use steel_recipes::recipe::vanilla::{crafting, VanillaRecipe};
use steel_recipes::recipe_manager::{assemble_recipe, get_remaining_items, slot_changed_crafting_grid, CraftingContainer};

fn purple_dye_template() -> ItemStackTemplate {
    ItemStackTemplate::with_count(PURPLE_DYE, 2)
}

fn dye_recipes() -> RecipeRegistry<VanillaRecipe> {
    let mut types = RecipeTypeRegistry::new();
    types.register(&crafting());
    types.freeze();
    let mut recipes = RecipeRegistry::new();
    recipes.register(Recipe::new(
        Identifier::vanilla("purple_dye"),
        &crafting(),
        VanillaRecipe::Crafting(CraftingRecipe::Shapeless(ShapelessRecipe::new(
            RecipeProperties::special(),
            vec![Ingredient::Item(BLUE_DYE), Ingredient::Item(RED_DYE)],
            purple_dye_template(),
        ))),
    ));
    recipes.freeze(&types);
    recipes
}

#[test]
fn external_crafting_interpreter_assembles_a_generated_dye_recipe() {
    let recipes = dye_recipes();
    let input = CraftingInput::new(2, 1, vec![ItemStack::new(RED_DYE), ItemStack::new(BLUE_DYE)]);
    let Some(recipe) = recipes.find_match(&crafting(), &input) else {
        panic!("red and blue dye should match the purple dye recipe");
    };

    let result = assemble_recipe(match &recipe.data {
        VanillaRecipe::Crafting(c) => c,
        _ => panic!("purple dye is a crafting recipe"),
    }, &input);

    assert!(result.stack.is(PURPLE_DYE));
    assert_eq!(result.stack.get_dye(), Some(DyeColor::Purple));
}

fn repair_recipes() -> RecipeRegistry<VanillaRecipe> {
    let mut types = RecipeTypeRegistry::new();
    types.register(&crafting());
    types.freeze();
    let mut recipes = RecipeRegistry::new();
    recipes.register(Recipe::new(
        Identifier::vanilla("repair_item"),
        &crafting(),
        VanillaRecipe::Crafting(CraftingRecipe::RepairItem(RepairItemRecipe {
            properties: RecipeProperties::special(),
        })),
    ));
    recipes.freeze(&types);
    recipes
}

#[test]
fn repairing_two_pickaxes_sums_their_durability_with_a_bonus() {
    let recipes = repair_recipes();
    let mut a = ItemStack::new(IRON_PICKAXE);
    a.components.damage = Some(100);
    let mut b = ItemStack::new(IRON_PICKAXE);
    b.components.damage = Some(200);
    let input = CraftingInput::new(2, 1, vec![a, b]);
    let Some(recipe) = recipes.find_match(&crafting(), &input) else {
        panic!("two damaged pickaxes should match the repair recipe");
    };

    let result = assemble_recipe(match &recipe.data {
        VanillaRecipe::Crafting(c) => c,
        _ => panic!("repair is a crafting recipe"),
    }, &input);

    assert!(result.stack.is(IRON_PICKAXE));
    assert_eq!(result.stack.count(), 1);
    assert_eq!(result.stack.get_max_damage(), 250);
    assert_eq!(result.stack.get_damage_value(), 38);
    assert_eq!(result.stack.components.enchantments.as_ref().map(|e| e.len()), Some(0));
}

#[test]
fn items_without_durability_do_not_match_the_repair_recipe() {
    let recipes = repair_recipes();
    let input = CraftingInput::new(2, 1, vec![ItemStack::new(STICK), ItemStack::new(STICK)]);
    assert!(recipes.find_match(&crafting(), &input).is_none());
}

#[test]
fn crafting_grid_shows_the_result_and_leaves_no_remainder() {
    let recipes = dye_recipes();
    let grid = CraftingContainer {
        width: 3,
        height: 3,
        items: vec![
            ItemStack::empty(), ItemStack::empty(), ItemStack::empty(),
            ItemStack::empty(), ItemStack::new(RED_DYE), ItemStack::empty(),
            ItemStack::empty(), ItemStack::new(BLUE_DYE), ItemStack::empty(),
        ],
    };
    let shown = slot_changed_crafting_grid(&recipes, &grid);
    assert!(shown.stack.is(PURPLE_DYE));
    assert_eq!(shown.stack.count(), 2);
    let (remaining, positioned) = get_remaining_items(&recipes, &grid).unwrap();
    assert_eq!(remaining.len(), 2);
    assert!(remaining.iter().all(|item| item.is_empty()));
    assert_eq!((positioned.left, positioned.top), (1, 1));
    assert_eq!((positioned.input.width, positioned.input.height), (1, 2));

    let no_match = CraftingContainer {
        width: 2,
        height: 1,
        items: vec![ItemStack::new(RED_DYE), ItemStack::new(STICK)],
    };
    assert!(slot_changed_crafting_grid(&recipes, &no_match).stack.is_empty());
    assert!(get_remaining_items(&recipes, &no_match).is_none());
}
