use steel_recipes::ingredient::Ingredient;
use steel_recipes::item_stack::{ItemStack, ItemStackTemplate};
use steel_recipes::items::{
    BLUE_DYE, FIREWORK_ROCKET, FIREWORK_STAR, GUNPOWDER, PAPER, PURPLE_DYE, RED_DYE, STICK,
};
use steel_recipes::recipe::crafting::{
    CraftingInput, CraftingRecipe, FireworkRocketRecipe, ShapedRecipe, ShapelessRecipe,
};
use steel_recipes::recipe::matching::{shaped, shapeless};
use steel_recipes::recipe::properties::RecipeProperties;
use steel_recipes::recipe::special::{
    firework_rocket, MAX_FIREWORK_ROCKET_FUEL_COUNT, MIN_FIREWORK_ROCKET_FUEL_COUNT,
};
use steel_recipes::recipe::types::RecipeMatches;

fn asymmetric_shaped_recipe(pattern: Vec<Ingredient>) -> ShapedRecipe {
    ShapedRecipe::new(
        RecipeProperties::special(),
        pattern.len(),
        1,
        pattern,
        ItemStackTemplate::new(PURPLE_DYE),
    )
}

#[test]
fn shapeless_matching_backtracks_when_ingredients_overlap() {
    let choice = Ingredient::Choice(vec![RED_DYE, BLUE_DYE]);
    let exact_red = Ingredient::Item(RED_DYE);
    let input = CraftingInput::new(
        2,
        1,
        vec![ItemStack::new(RED_DYE), ItemStack::new(BLUE_DYE)],
    );
    let recipe = CraftingRecipe::Shapeless(ShapelessRecipe::new(
        RecipeProperties::special(),
        vec![choice, exact_red],
        ItemStackTemplate::new(PURPLE_DYE),
    ));

    assert!(recipe.matches(&input));
}

#[test]
fn asymmetric_shaped_recipe_matches_both_orientations() {
    let recipe = asymmetric_shaped_recipe(vec![Ingredient::Item(RED_DYE), Ingredient::Item(BLUE_DYE)]);
    let forward = CraftingInput::new(2, 1, vec![ItemStack::new(RED_DYE), ItemStack::new(BLUE_DYE)]);
    let mirrored = CraftingInput::new(2, 1, vec![ItemStack::new(BLUE_DYE), ItemStack::new(RED_DYE)]);

    assert!(shaped(&recipe, &forward));
    assert!(shaped(&recipe, &mirrored));
}

#[test]
fn shaped_recipe_requires_empty_pattern_slots() {
    let recipe = asymmetric_shaped_recipe(vec![
        Ingredient::Item(RED_DYE),
        Ingredient::Empty,
        Ingredient::Item(BLUE_DYE),
    ]);
    let valid = CraftingInput::new(
        3,
        1,
        vec![ItemStack::new(RED_DYE), ItemStack::empty(), ItemStack::new(BLUE_DYE)],
    );
    let shifted = CraftingInput::new(
        3,
        1,
        vec![ItemStack::new(RED_DYE), ItemStack::new(BLUE_DYE), ItemStack::empty()],
    );

    assert!(shaped(&recipe, &valid));
    assert!(!shaped(&recipe, &shifted));
}

#[test]
fn firework_rocket_requires_one_to_three_fuel_items() {
    let recipe = FireworkRocketRecipe {
        properties: RecipeProperties::special(),
        shell: Ingredient::Item(PAPER),
        fuel: Ingredient::Item(GUNPOWDER),
        star: Ingredient::Item(FIREWORK_STAR),
        result: ItemStackTemplate::new(FIREWORK_ROCKET),
    };
    let input_with_fuel = |fuel_count: usize| {
        let mut items = vec![ItemStack::new(PAPER)];
        for _ in 0..fuel_count {
            items.push(ItemStack::new(GUNPOWDER));
        }
        CraftingInput::new(items.len(), 1, items)
    };

    assert!(!firework_rocket(&recipe, &input_with_fuel(0)));
    assert!(firework_rocket(&recipe, &input_with_fuel(MIN_FIREWORK_ROCKET_FUEL_COUNT)));
    assert!(firework_rocket(&recipe, &input_with_fuel(MAX_FIREWORK_ROCKET_FUEL_COUNT)));
    assert!(!firework_rocket(&recipe, &input_with_fuel(MAX_FIREWORK_ROCKET_FUEL_COUNT + 1)));
}

#[test]
fn shapeless_needs_every_ingredient_used_once() {
    let recipe = ShapelessRecipe::new(
        RecipeProperties::special(),
        vec![Ingredient::Item(RED_DYE), Ingredient::Item(BLUE_DYE)],
        ItemStackTemplate::new(PURPLE_DYE),
    );
    let two_reds = CraftingInput::new(2, 1, vec![ItemStack::new(RED_DYE), ItemStack::new(RED_DYE)]);
    let extra = CraftingInput::new(
        3,
        1,
        vec![ItemStack::new(RED_DYE), ItemStack::new(BLUE_DYE), ItemStack::new(STICK)],
    );
    let spread = CraftingInput::new(
        2,
        2,
        vec![ItemStack::new(BLUE_DYE), ItemStack::empty(), ItemStack::empty(), ItemStack::new(RED_DYE)],
    );

    assert!(!shapeless(&recipe, &two_reds));
    assert!(!shapeless(&recipe, &extra));
    assert!(shapeless(&recipe, &spread));
}

#[test]
fn shaped_recipe_placement_lists_present_ingredients() {
    let recipe = asymmetric_shaped_recipe(vec![
        Ingredient::Item(RED_DYE),
        Ingredient::Empty,
        Ingredient::Item(BLUE_DYE),
    ]);
    let placement = recipe.properties.placement.as_ref().unwrap();
    assert_eq!(placement.ingredients.len(), 2);
    assert_eq!(placement.slots_to_ingredient, vec![Some(0), None, Some(1)]);
    assert!(!recipe.symmetrical);
}
