use steel_recipes::campfire::CampfireCookingState;
use steel_recipes::identifier::Identifier;
use steel_recipes::ingredient::Ingredient;
use steel_recipes::item_stack::{ItemStack, ItemStackTemplate};
use steel_recipes::items::{BEEF, COOKED_BEEF, IRON_ORE};
use steel_recipes::recipe::properties::RecipeProperties;
use steel_recipes::recipe::registry::RecipeRegistry;
use steel_recipes::recipe::serializer::{cooking_recipe, CookingSerializer};
use steel_recipes::recipe::types::{Recipe, RecipeTypeRegistry};
use steel_recipes::recipe::vanilla::{campfire_cooking, VanillaRecipe};

fn campfire_recipes() -> RecipeRegistry<VanillaRecipe> {
    let mut types = RecipeTypeRegistry::new();
    types.register(&campfire_cooking());
    types.freeze();
    let mut recipes = RecipeRegistry::new();
    recipes.register(Recipe::new(
        Identifier::vanilla("cooked_beef_from_campfire_cooking"),
        &campfire_cooking(),
        VanillaRecipe::Cooking(cooking_recipe(
            CookingSerializer::CampfireCooking,
            RecipeProperties::special(),
            Ingredient::Item(BEEF),
            ItemStackTemplate::new(COOKED_BEEF),
            0,
            Some(600),
        )),
    ));
    recipes.freeze(&types);
    recipes
}

#[test]
fn campfire_round_trips_all_four_progress_tracks_with_items() {
    let mut source = CampfireCookingState::new();
    source.items[2] = ItemStack::new(BEEF);
    source.cooking_progress = vec![0, 3, 17, 0];
    source.cooking_time = vec![0, 100, 600, 0];

    let saved = source.save_items();
    let mut loaded = CampfireCookingState::new();
    loaded.load(saved, Some(source.cooking_progress.clone()), Some(source.cooking_time.clone()));

    assert!(loaded.items[2].is(BEEF));
    assert_eq!(loaded.cooking_progress, [0, 3, 17, 0]);
    assert_eq!(loaded.cooking_time, [0, 100, 600, 0]);
}

#[test]
fn food_is_placed_in_the_first_free_position_and_cooks() {
    let recipes = campfire_recipes();
    let mut campfire = CampfireCookingState::new();
    assert!(!campfire.place_food(&recipes, ItemStack::new(IRON_ORE)));
    assert!(campfire.place_food(&recipes, ItemStack::new(BEEF)));
    assert!(campfire.place_food(&recipes, ItemStack::new(BEEF)));
    assert!(campfire.items[0].is(BEEF) && campfire.items[1].is(BEEF));
    assert_eq!(campfire.cooking_time, [600, 600, 0, 0]);

    for _ in 0..599 {
        let (changed, done) = campfire.tick(true, &recipes);
        assert!(changed);
        assert!(done.is_empty());
    }
    let (_, done) = campfire.tick(true, &recipes);
    assert_eq!(done.len(), 2);
    assert!(done[0].is(COOKED_BEEF) && done[1].is(COOKED_BEEF));
    assert!(campfire.items.iter().all(|item| item.is_empty()));
}

#[test]
fn unlit_campfire_cools_down_by_two_but_not_below_zero() {
    let mut campfire = CampfireCookingState::new();
    campfire.cooking_progress = vec![5, 1, 0, 700];
    campfire.cooking_time = vec![600, 600, 600, 600];
    let recipes = campfire_recipes();
    let (changed, done) = campfire.tick(false, &recipes);
    assert!(changed);
    assert!(done.is_empty());
    assert_eq!(campfire.cooking_progress, [3, 0, 0, 600]);
}

#[test]
fn full_campfire_refuses_food_and_removal_returns_items() {
    let recipes = campfire_recipes();
    let mut campfire = CampfireCookingState::new();
    for _ in 0..4 {
        assert!(campfire.place_food(&recipes, ItemStack::new(BEEF)));
    }
    assert!(!campfire.place_food(&recipes, ItemStack::new(BEEF)));
    let items = campfire.take_items();
    assert_eq!(items.len(), 4);
    assert!(items.iter().all(|item| item.is(BEEF)));
    assert!(campfire.items.iter().all(|item| item.is_empty()));
}

#[test]
fn placing_food_from_a_larger_stack_puts_one_item_on_the_fire() {
    let recipes = campfire_recipes();
    let mut campfire = CampfireCookingState::new();
    assert!(campfire.place_food(&recipes, ItemStack::with_count(BEEF, 5)));
    assert!(campfire.items[0].is(BEEF));
    assert_eq!(campfire.items[0].count(), 1);
    assert!(campfire.items[1].is_empty());
}
