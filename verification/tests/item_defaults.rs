use steel_recipes::ingredient::Ingredient;
use steel_recipes::item_stack::{ItemStack, ItemStackTemplate};
use steel_recipes::items::{
    DyeColor, BLUE_DYE, BUCKET, COAL, FILLED_MAP, IRON_INGOT, IRON_PICKAXE, PAPER, POTION, RED_DYE,
    SHIELD, STICK, WATER_BUCKET, WHITE_BANNER,
};
use steel_recipes::recipe::crafting::{CraftingInput, TransmuteRecipe};
use steel_recipes::recipe::properties::{PlacementInfo, RecipeProperties};
use steel_recipes::recipe::serializer::transmute_recipe;
use steel_recipes::recipe::special::transmute;

#[test]
fn new_stacks_carry_their_items_default_components() {
    let pickaxe = ItemStack::new(IRON_PICKAXE);
    assert_eq!(pickaxe.get_max_damage(), 250);
    assert_eq!(pickaxe.get_damage_value(), 0);
    assert!(pickaxe.has_max_damage() && pickaxe.has_damage());
    assert_eq!(pickaxe.get_max_stack_size(), 1);
    assert_eq!(ItemStack::new(SHIELD).get_max_damage(), 336);

    let stick = ItemStack::new(STICK);
    assert!(!stick.has_max_damage() && !stick.has_damage());
    assert_eq!(stick.get_max_damage(), 0);
    assert_eq!(stick.get_dye(), None);

    assert_eq!(ItemStack::new(RED_DYE).get_dye(), Some(DyeColor::Red));
    assert_eq!(ItemStack::new(BLUE_DYE).get_dye(), Some(DyeColor::Blue));
}

#[test]
fn stack_limits_follow_the_item() {
    assert_eq!(ItemStack::new(IRON_INGOT).get_max_stack_size(), 64);
    assert_eq!(ItemStack::new(BUCKET).get_max_stack_size(), 16);
    assert_eq!(ItemStack::new(WATER_BUCKET).get_max_stack_size(), 1);
    assert_eq!(ItemStack::new(POTION).get_max_stack_size(), 1);
    assert_eq!(ItemStack::new(WHITE_BANNER).get_max_stack_size(), 16);
}

#[test]
fn components_set_on_a_stack_override_the_defaults() {
    let mut dye = ItemStack::new(RED_DYE);
    dye.components.dye = Some(DyeColor::Black);
    assert_eq!(dye.get_dye(), Some(DyeColor::Black));

    let mut pickaxe = ItemStack::new(IRON_PICKAXE);
    pickaxe.components.max_damage = Some(10);
    pickaxe.components.damage = Some(40);
    assert_eq!(pickaxe.get_max_damage(), 10);
    assert_eq!(pickaxe.get_damage_value(), 10);
}

#[test]
fn a_grid_without_width_positions_to_the_empty_input() {
    let positioned = CraftingInput::positioned(0, 3, vec![ItemStack::new(STICK)]);
    assert_eq!((positioned.left, positioned.top), (0, 0));
    assert_eq!((positioned.input.width, positioned.input.height), (0, 0));
    assert!(positioned.input.items.is_empty());
    assert_eq!(positioned.input.ingredient_count(), 0);
}

fn paper_to_map_recipe(add_materials: bool) -> TransmuteRecipe {
    transmute_recipe(
        RecipeProperties::special(),
        Ingredient::Item(PAPER),
        Ingredient::Item(STICK),
        1,
        2,
        ItemStackTemplate::new(FILLED_MAP),
        add_materials,
    )
}

#[test]
fn transmute_needs_one_input_and_a_bounded_number_of_materials() {
    let recipe = paper_to_map_recipe(false);
    let one = CraftingInput::new(2, 1, vec![ItemStack::new(PAPER), ItemStack::new(STICK)]);
    assert!(transmute(&recipe, &one));
    let two_inputs = CraftingInput::new(3, 1, vec![ItemStack::new(PAPER), ItemStack::new(PAPER), ItemStack::new(STICK)]);
    assert!(!transmute(&recipe, &two_inputs));
    let no_material = CraftingInput::new(1, 1, vec![ItemStack::new(PAPER)]);
    assert!(!transmute(&recipe, &no_material));
    let too_many = CraftingInput::new(
        4,
        1,
        vec![ItemStack::new(PAPER), ItemStack::new(STICK), ItemStack::new(STICK), ItemStack::new(STICK)],
    );
    assert!(!transmute(&recipe, &too_many));
    let stranger = CraftingInput::new(2, 1, vec![ItemStack::new(PAPER), ItemStack::new(COAL)]);
    assert!(!transmute(&recipe, &stranger));
}

#[test]
fn transmute_into_the_same_single_item_is_refused() {
    let recipe = transmute_recipe(
        RecipeProperties::special(),
        Ingredient::Item(PAPER),
        Ingredient::Item(STICK),
        1,
        2,
        ItemStackTemplate::new(PAPER),
        false,
    );
    let input = CraftingInput::new(2, 1, vec![ItemStack::new(PAPER), ItemStack::new(STICK)]);
    assert!(!transmute(&recipe, &input));
    let counted = paper_to_map_recipe(true);
    assert!(transmute(&counted, &input));
}

#[test]
fn optional_placement_points_each_slot_at_its_present_ingredient() {
    let placement = PlacementInfo::from_optional_ingredients(&[
        Ingredient::Empty,
        Ingredient::Item(PAPER),
        Ingredient::Empty,
        Ingredient::Item(STICK),
    ]);
    assert_eq!(placement.slots_to_ingredient, vec![None, Some(0), None, Some(1)]);
    assert_eq!(placement.ingredients.len(), 2);
}

#[test]
fn positioned_grid_touches_a_stack_on_every_edge() {
    let e = ItemStack::empty;
    let positioned = CraftingInput::positioned(
        3,
        3,
        vec![e(), e(), e(), e(), ItemStack::new(STICK), e(), e(), e(), ItemStack::new(PAPER)],
    );
    assert_eq!((positioned.left, positioned.top), (1, 1));
    assert_eq!((positioned.input.width, positioned.input.height), (2, 2));
    assert!(positioned.input.get(0, 0).is(STICK));
    assert!(positioned.input.get(1, 1).is(PAPER));
    assert!(positioned.input.get(1, 0).is_empty() && positioned.input.get(0, 1).is_empty());
}

#[test]
fn positioned_grid_carries_no_map_data() {
    let positioned = CraftingInput::positioned(
        3,
        3,
        vec![
            ItemStack::new(PAPER), ItemStack::new(PAPER), ItemStack::new(PAPER),
            ItemStack::new(PAPER), ItemStack::new(FILLED_MAP), ItemStack::new(PAPER),
            ItemStack::new(PAPER), ItemStack::new(PAPER), ItemStack::new(PAPER),
        ],
    );
    assert_eq!(positioned.input.map_data.len(), 9);
    assert!(positioned.input.map_data.iter().all(|d| d.is_none()));
    assert!(positioned.input.map_data(4).is_none());
}
