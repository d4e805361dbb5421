use steel_recipes::identifier::Identifier;
use steel_recipes::ingredient::Ingredient;
use steel_recipes::item_stack::{ItemStack, ItemStackTemplate};
use steel_recipes::items::{BEEF, COAL, COOKED_BEEF, IRON_INGOT, IRON_ORE, IRON_PICKAXE, STICK};
use steel_recipes::recipe::crafting::{CraftingInput, CraftingRecipe};
use steel_recipes::recipe::serializer::shaped_from_pattern;
use steel_recipes::recipe::properties::{vanilla_recipe_book_categories, RecipeBookCategoryRegistry, RecipeProperties};
use steel_recipes::recipe::registry::{CachedRecipeCheck, RecipeRegistry};
use steel_recipes::recipe::serializer::{cooking_recipe, CookingSerializer};
use steel_recipes::recipe::single_item::SingleItemRecipeInput;
use steel_recipes::recipe::types::{Recipe, RecipeData, RecipeInput, RecipeMatches, RecipeType, RecipeTypeRegistry};
use steel_recipes::recipe::vanilla::{blasting, crafting, smelting, VanillaRecipe};

#[derive(Debug)]
struct PluginData {
    required: i32,
}

impl RecipeData for PluginData {
    fn data_wf(&self) -> bool {
        true
    }

    fn data_type_key(&self) -> &'static str {
        "steel:test/recipe_data/plugin_machine"
    }
}

#[derive(Debug)]
struct PluginInput(i32);

impl RecipeInput for PluginInput {
    fn input_wf(&self) -> bool {
        true
    }

    fn spec_is_empty(&self) -> bool {
        false
    }

    fn is_empty(&self) -> bool {
        false
    }
}

impl RecipeMatches<PluginInput> for PluginData {
    fn spec_matches(&self, input: &PluginInput) -> bool {
        self.required == input.0
    }

    fn matches(&self, input: &PluginInput) -> bool {
        self.required == input.0
    }
}

fn plugin_type() -> RecipeType {
    RecipeType::new(
        Identifier::new("test_plugin", "pulverizing"),
        "steel:test/recipe_data/plugin_machine",
        "steel:test/recipe_input/plugin_machine",
    )
}

#[test]
fn plugin_type_keeps_custom_data_typed_through_matching_and_key_lookup() {
    let plugin = plugin_type();
    let mut types = RecipeTypeRegistry::new();
    types.register(&plugin);
    types.freeze();
    let mut recipes = RecipeRegistry::new();
    let key = Identifier::new("test_plugin", "pulverize_ore");
    recipes.register(Recipe::new(key.duplicate(), &plugin, PluginData { required: 7 }));
    recipes.freeze(&types);

    let Some(found) = recipes.find_match(&plugin, &PluginInput(7)) else {
        panic!("plugin recipe should match its custom input");
    };
    assert_eq!(found.data().required, 7);

    let Some(by_key) = recipes.by_key(&key) else {
        panic!("plugin recipe should be available by persistent key");
    };
    assert_eq!(by_key.data().required, 7);
    assert!(recipes.find_match(&plugin, &PluginInput(8)).is_none());
}

fn smelt(path: &str, ingredient: u32, result: u32) -> Recipe<VanillaRecipe> {
    Recipe::new(
        Identifier::vanilla(path),
        &smelting(),
        VanillaRecipe::Cooking(cooking_recipe(
            CookingSerializer::Smelting,
            RecipeProperties::special(),
            Ingredient::Item(ingredient),
            ItemStackTemplate::new(result),
            0,
            None,
        )),
    )
}

fn cooking_types() -> RecipeTypeRegistry {
    let mut types = RecipeTypeRegistry::new();
    types.register(&smelting());
    types.register(&blasting());
    types.freeze();
    types
}

#[test]
fn cached_check_tests_the_last_successful_recipe_before_scanning() {
    let types = cooking_types();
    let mut recipes = RecipeRegistry::new();
    recipes.register(smelt("a_non_match", COAL, IRON_INGOT));
    recipes.register(smelt("b_match", IRON_ORE, IRON_INGOT));
    recipes.freeze(&types);
    let mut cache = CachedRecipeCheck::new(smelting());
    let iron = SingleItemRecipeInput::new(ItemStack::new(IRON_ORE));
    let beef = SingleItemRecipeInput::new(ItemStack::new(BEEF));

    let first = cache.find_match(&recipes, &iron).map(|r| r.key().duplicate());
    assert_eq!(first, Some(Identifier::vanilla("b_match")));
    let second = cache.find_match(&recipes, &iron).map(|r| r.key().duplicate());
    assert_eq!(second, Some(Identifier::vanilla("b_match")));
    assert!(cache.find_match(&recipes, &beef).is_none());
    let again = cache.find_match(&recipes, &iron).map(|r| r.key().duplicate());
    assert_eq!(again, Some(Identifier::vanilla("b_match")));
}

#[test]
fn freeze_orders_recipes_by_key_and_buckets_by_type() {
    let types = cooking_types();
    let mut recipes = RecipeRegistry::new();
    recipes.register(smelt("zeta", BEEF, COOKED_BEEF));
    recipes.register(smelt("alpha", IRON_ORE, IRON_INGOT));
    recipes.register(Recipe::new(
        Identifier::vanilla("middle"),
        &blasting(),
        VanillaRecipe::Cooking(cooking_recipe(
            CookingSerializer::Blasting,
            RecipeProperties::special(),
            Ingredient::Item(IRON_ORE),
            ItemStackTemplate::new(IRON_INGOT),
            0,
            None,
        )),
    ));
    recipes.freeze(&types);

    assert_eq!(recipes.len(), 3);
    assert_eq!(recipes.get(0).unwrap().key().path, "alpha");
    assert_eq!(recipes.get(1).unwrap().key().path, "middle");
    assert_eq!(recipes.get(2).unwrap().key().path, "zeta");
    assert!(recipes.get(3).is_none());

    let smelting_set = recipes.by_type(&smelting());
    assert_eq!(smelting_set.len(), 2);
    assert_eq!(smelting_set.get(0).unwrap().key().path, "alpha");
    assert_eq!(smelting_set.get(1).unwrap().key().path, "zeta");
    assert_eq!(recipes.by_type(&blasting()).len(), 1);

    let iron = SingleItemRecipeInput::new(ItemStack::new(IRON_ORE));
    let matching = recipes.matching(&smelting(), &iron);
    assert_eq!(matching.len(), 1);
    assert_eq!(matching[0].key().path, "alpha");
}

#[test]
fn replace_swaps_the_recipe_under_its_key() {
    let mut recipes = RecipeRegistry::new();
    recipes.register(smelt("iron", IRON_ORE, IRON_INGOT));
    let old = recipes.replace(smelt("iron", BEEF, COOKED_BEEF));
    assert!(old.is_some());
    assert!(recipes.replace(smelt("other", COAL, IRON_INGOT)).is_none());
    assert_eq!(recipes.len(), 1);
    let types = cooking_types();
    recipes.freeze(&types);
    let beef = SingleItemRecipeInput::new(ItemStack::new(BEEF));
    let found = recipes.find_match(&smelting(), &beef).unwrap();
    assert_eq!(found.key().path, "iron");
}

#[test]
fn type_registry_lookups() {
    let types = cooking_types();
    assert_eq!(types.len(), 2);
    assert!(!types.is_empty());
    assert!(types.contains(&smelting()));
    assert!(!types.contains(&plugin_type()));
    assert!(types.by_key(&Identifier::vanilla("blasting")).is_some());
    assert!(types.by_key(&Identifier::vanilla("smoking")).is_none());
    assert_eq!(types.get(0).unwrap().key.path, "smelting");
    assert!(types.get(2).is_none());
}

#[test]
fn recipe_book_categories_register_in_order() {
    let mut categories = RecipeBookCategoryRegistry::new();
    assert!(categories.is_empty());
    for category in vanilla_recipe_book_categories() {
        categories.register(category);
    }
    categories.freeze();
    assert_eq!(categories.len(), 13);
    assert_eq!(categories.id_of(&Identifier::vanilla("crafting_building_blocks")), Some(0));
    assert_eq!(categories.id_of(&Identifier::vanilla("campfire")), Some(12));
    assert_eq!(categories.id_of(&Identifier::vanilla("smoker_blocks")), None);
}

fn iron_pickaxe() -> Recipe<VanillaRecipe> {
    let key = [('#', Ingredient::Item(STICK)), ('X', Ingredient::Item(IRON_INGOT))];
    let shaped = shaped_from_pattern(
        RecipeProperties::special(),
        &["XXX", " # ", " # "],
        &key,
        ItemStackTemplate::new(IRON_PICKAXE),
    )
    .unwrap();
    Recipe::new(
        Identifier::vanilla("iron_pickaxe"),
        &crafting(),
        VanillaRecipe::Crafting(CraftingRecipe::Shaped(shaped)),
    )
}

fn crafting_registry() -> RecipeRegistry<VanillaRecipe> {
    let mut types = RecipeTypeRegistry::new();
    types.register(&crafting());
    types.freeze();
    let mut recipes = RecipeRegistry::new();
    recipes.register(iron_pickaxe());
    recipes.freeze(&types);
    recipes
}

#[test]
fn generated_static_and_registry_lookup_share_the_same_recipe_data() {
    let recipes = crafting_registry();
    let Some(registered) = recipes.by_key(&Identifier::vanilla("iron_pickaxe")) else {
        panic!("generated iron pickaxe recipe was not registered");
    };
    let VanillaRecipe::Crafting(CraftingRecipe::Shaped(shaped)) = &registered.data
    else {
        panic!("iron pickaxe must remain a shaped recipe");
    };
    assert_eq!((shaped.width, shaped.height), (3, 3));
}

#[test]
fn typed_matching_finds_the_generated_iron_pickaxe_recipe() {
    let recipes = crafting_registry();
    let empty = ItemStack::empty;
    let input = CraftingInput::new(
        3,
        3,
        vec![
            ItemStack::new(IRON_INGOT),
            ItemStack::new(IRON_INGOT),
            ItemStack::new(IRON_INGOT),
            empty(),
            ItemStack::new(STICK),
            empty(),
            empty(),
            ItemStack::new(STICK),
            empty(),
        ],
    );

    let Some(found) = recipes.find_match(&crafting(), &input) else {
        panic!("iron pickaxe input should match a crafting recipe");
    };

    assert_eq!(found.key().path, "iron_pickaxe");
}

#[test]
fn frozen_scan_returns_matches_in_key_order() {
    let types = cooking_types();
    let mut recipes = RecipeRegistry::new();
    recipes.register(smelt("zeta_iron", IRON_ORE, IRON_INGOT));
    recipes.register(smelt("beef", BEEF, COOKED_BEEF));
    recipes.register(smelt("alpha_iron", IRON_ORE, IRON_INGOT));
    recipes.freeze(&types);
    let iron = SingleItemRecipeInput::new(ItemStack::new(IRON_ORE));
    let matching = recipes.matching(&smelting(), &iron);
    let keys: Vec<&str> = matching.iter().map(|r| r.key().path.as_str()).collect();
    assert_eq!(keys, ["alpha_iron", "zeta_iron"]);
    assert_eq!(recipes.find_match(&smelting(), &iron).unwrap().key().path, "alpha_iron");
}
