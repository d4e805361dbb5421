use steel_recipes::fuel_values::vanilla_fuel_values;
use steel_recipes::furnace::FurnaceKind;
use steel_recipes::furnace_menu::{
    menu_type, quick_move_outcome, FurnaceFuelSlot, FurnaceMenuKind, FurnaceResultSlot, QuickMoveStep, SlotRange,
};
use steel_recipes::identifier::Identifier;
use steel_recipes::ingredient::Ingredient;
use steel_recipes::item_stack::{ItemStack, ItemStackTemplate};
use steel_recipes::items::{BUCKET, COAL, IRON_INGOT, IRON_ORE, STICK, WATER_BUCKET};
use steel_recipes::recipe::properties::RecipeProperties;
use steel_recipes::recipe::registry::RecipeRegistry;
use steel_recipes::recipe::serializer::{cooking_recipe, CookingSerializer};
use steel_recipes::recipe::types::{Recipe, RecipeTypeRegistry};
use steel_recipes::recipe::vanilla::{smelting, VanillaRecipe};

fn recipes() -> RecipeRegistry<VanillaRecipe> {
    let mut types = RecipeTypeRegistry::new();
    types.register(&smelting());
    types.freeze();
    let mut recipes = RecipeRegistry::new();
    recipes.register(Recipe::new(
        Identifier::vanilla("iron_ingot"),
        &smelting(),
        VanillaRecipe::Cooking(cooking_recipe(
            CookingSerializer::Smelting,
            RecipeProperties::special(),
            Ingredient::Item(IRON_ORE),
            ItemStackTemplate::new(IRON_INGOT),
            0,
            None,
        )),
    ));
    recipes.freeze(&types);
    recipes
}

#[test]
fn shift_click_destinations() {
    let menu = FurnaceMenuKind::new(FurnaceKind::Furnace);
    let registry = recipes();
    let fuels = vanilla_fuel_values();
    let player = SlotRange { start: 3, end: 39 };
    let dest = |slot: usize, stack: ItemStack| menu.quick_move_destination(&registry, &fuels, slot, 39, &stack);

    assert_eq!(dest(2, ItemStack::new(IRON_INGOT)), QuickMoveStep::MoveTo { range: player, backward: true });
    assert_eq!(dest(0, ItemStack::new(IRON_ORE)), QuickMoveStep::MoveTo { range: player, backward: false });
    assert_eq!(dest(10, ItemStack::new(IRON_ORE)), QuickMoveStep::MoveTo { range: menu.input, backward: false });
    assert_eq!(dest(10, ItemStack::new(COAL)), QuickMoveStep::MoveTo { range: menu.fuel, backward: false });
    assert_eq!(dest(10, ItemStack::new(IRON_INGOT)), QuickMoveStep::MoveTo { range: menu.player_hotbar, backward: false });
    assert_eq!(dest(35, ItemStack::new(IRON_INGOT)), QuickMoveStep::MoveTo { range: menu.player_main, backward: false });
    assert_eq!(dest(40, ItemStack::new(IRON_INGOT)), QuickMoveStep::Done);
    assert_eq!(dest(10, ItemStack::empty()), QuickMoveStep::Done);
    assert!(!menu.can_take_item_for_pick_all(2));
    assert!(menu.can_take_item_for_pick_all(0));
    assert_eq!(menu_type(FurnaceKind::BlastFurnace).path, "blast_furnace");
}

#[test]
fn quick_move_result_and_slots() {
    assert!(quick_move_outcome(false, 0, ItemStack::new(STICK)).is_empty());
    assert!(quick_move_outcome(true, 1, ItemStack::new(STICK)).is_empty());
    assert!(quick_move_outcome(true, 0, ItemStack::new(STICK)).is(STICK));

    let fuels = vanilla_fuel_values();
    let fuel_slot = FurnaceFuelSlot::new(1);
    assert!(fuel_slot.may_place(&fuels, &ItemStack::new(COAL)));
    assert!(fuel_slot.may_place(&fuels, &ItemStack::new(BUCKET)));
    assert!(!fuel_slot.may_place(&fuels, &ItemStack::new(WATER_BUCKET)) || fuels.is_fuel(WATER_BUCKET));
    assert!(!fuel_slot.may_place(&fuels, &ItemStack::new(IRON_ORE)));
    assert_eq!(fuel_slot.get_max_stack_size_for_item(&ItemStack::new(BUCKET)), 1);
    assert_eq!(fuel_slot.get_max_stack_size_for_item(&ItemStack::new(COAL)), 64);
    assert_eq!(fuel_slot.get_container_slot(), 1);
    let result_slot = FurnaceResultSlot::new(2);
    assert!(!result_slot.may_place(&ItemStack::new(COAL)));
    assert_eq!(result_slot.get_container_slot(), 2);
}
