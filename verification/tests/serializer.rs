use steel_recipes::ingredient::Ingredient;
use steel_recipes::item_stack::ItemStackTemplate;
use steel_recipes::items::{IRON_INGOT, IRON_ORE, PAPER, STICK};
use steel_recipes::recipe::properties::{CookingBookCategory, CraftingBookCategory, RecipeProperties};
use steel_recipes::recipe::serializer::{
    cooking_category, cooking_recipe, crafting_category, imbue_recipe, shaped_from_pattern, shaped_pattern,
    smithing_transform_recipe, transmute_recipe, CookingSerializer, CraftingSerializer, RecipeSerializer,
    SmithingSerializer,
};

#[test]
fn serializer_identifiers() {
    assert_eq!(
        RecipeSerializer::from_identifier("minecraft:crafting_shaped"),
        Some(RecipeSerializer::Crafting(CraftingSerializer::Shaped))
    );
    assert_eq!(
        RecipeSerializer::from_identifier("minecraft:crafting_special_firework_star_fade"),
        Some(RecipeSerializer::Crafting(CraftingSerializer::FireworkStarFade))
    );
    assert_eq!(
        RecipeSerializer::from_identifier("minecraft:campfire_cooking"),
        Some(RecipeSerializer::Cooking(CookingSerializer::CampfireCooking))
    );
    assert_eq!(RecipeSerializer::from_identifier("minecraft:stonecutting"), Some(RecipeSerializer::Stonecutting));
    assert_eq!(
        RecipeSerializer::from_identifier("minecraft:smithing_trim"),
        Some(RecipeSerializer::Smithing(SmithingSerializer::Trim))
    );
    assert_eq!(RecipeSerializer::from_identifier("other:stonecutting"), None);
    assert_eq!(RecipeSerializer::from_identifier("minecraft:"), None);
    assert_eq!(RecipeSerializer::from_identifier("minecraft:unknown"), None);
    assert_eq!(RecipeSerializer::from_identifier("mine"), None);
    assert_eq!(CookingSerializer::from_path("smoking"), Some(CookingSerializer::Smoking));
    assert_eq!(CookingSerializer::Smelting.default_cooking_time(), 200);
    assert_eq!(CookingSerializer::Blasting.default_cooking_time(), 100);
    assert_eq!(RecipeSerializer::Stonecutting.recipe_type().entry.key.path, "stonecutting");
}

#[test]
fn book_categories() {
    assert_eq!(crafting_category(None), Some(CraftingBookCategory::Misc));
    assert_eq!(crafting_category(Some("redstone")), Some(CraftingBookCategory::Redstone));
    assert_eq!(crafting_category(Some("food")), None);
    assert_eq!(cooking_category(Some("food")), Some(CookingBookCategory::Food));
    assert_eq!(cooking_category(Some("building")), None);
}

#[test]
fn shaped_pattern_pads_short_rows_and_maps_keys() {
    let key = [('#', Ingredient::Item(STICK)), ('X', Ingredient::Item(IRON_INGOT))];
    let (width, height, cells) = shaped_pattern(&["XXX", " #", " #"], &key).unwrap();
    assert_eq!((width, height), (3, 3));
    assert_eq!(cells.len(), 9);
    assert!(cells[0].eq_ingredient(&Ingredient::Item(IRON_INGOT)));
    assert!(cells[3].eq_ingredient(&Ingredient::Empty));
    assert!(cells[4].eq_ingredient(&Ingredient::Item(STICK)));
    assert!(cells[5].eq_ingredient(&Ingredient::Empty));
    assert_eq!(shaped_pattern(&["#a", "b"], &key).err(), Some('a'));

    let recipe = shaped_from_pattern(RecipeProperties::special(), &["X", "#"], &key, ItemStackTemplate::new(PAPER))
        .unwrap();
    assert_eq!((recipe.width, recipe.height), (1, 2));
    assert!(recipe.symmetrical);
}

#[test]
fn family_placements() {
    let transmute = transmute_recipe(
        RecipeProperties::special(),
        Ingredient::Item(PAPER),
        Ingredient::Item(STICK),
        1,
        8,
        ItemStackTemplate::new(PAPER),
        false,
    );
    assert_eq!(transmute.properties.placement.as_ref().unwrap().ingredients.len(), 9);

    let imbue = imbue_recipe(RecipeProperties::special(), Ingredient::Item(PAPER), Ingredient::Item(STICK), ItemStackTemplate::new(PAPER));
    let placement = imbue.properties.placement.as_ref().unwrap();
    assert!(placement.ingredients[4].eq_ingredient(&Ingredient::Item(PAPER)));
    assert!(placement.ingredients[0].eq_ingredient(&Ingredient::Item(STICK)));

    let cooking = cooking_recipe(
        CookingSerializer::Smoking,
        RecipeProperties::special(),
        Ingredient::Item(IRON_ORE),
        ItemStackTemplate::new(IRON_INGOT),
        0,
        None,
    );
    assert_eq!(cooking.cooking_time, 100);

    let smithing = smithing_transform_recipe(RecipeProperties::special(), None, Ingredient::Item(PAPER), None, ItemStackTemplate::new(PAPER));
    let placement = smithing.properties.placement.as_ref().unwrap();
    assert_eq!(placement.slots_to_ingredient, vec![None, Some(0), None]);
}
