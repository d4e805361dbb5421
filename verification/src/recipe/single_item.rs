//! Single-item recipes (cooking and stonecutting) and their input snapshot.

use vstd::prelude::*;

use crate::ingredient::Ingredient;
use crate::item_stack::{ItemStack, ItemStackTemplate};
use crate::recipe::properties::RecipeProperties;
use crate::recipe::types::{RecipeData, RecipeInput, RecipeMatches};

verus! {

/// Input shared by cooking and stonecutting recipe types.
#[derive(Debug)]
pub struct SingleItemRecipeInput {
    pub item: ItemStack,
}

impl SingleItemRecipeInput {
    pub fn new(item: ItemStack) -> (r: SingleItemRecipeInput)
        ensures
            r.item == item,
    {
        SingleItemRecipeInput { item }
    }
}

impl RecipeInput for SingleItemRecipeInput {
    open spec fn input_wf(&self) -> bool {
        true
    }

    open spec fn spec_is_empty(&self) -> bool {
        self.item@.is_empty()
    }

    fn is_empty(&self) -> (r: bool) {
        self.item.is_empty()
    }
}

/// Data shared by smelting, blasting, smoking and campfire cooking.
///
/// The experience reward is a single-precision float, kept here as its IEEE-754 bits.
#[derive(Debug)]
pub struct CookingRecipe {
    pub properties: RecipeProperties,
    pub ingredient: Ingredient,
    pub result: ItemStackTemplate,
    pub experience_bits: u32,
    pub cooking_time: i32,
}

impl RecipeData for CookingRecipe {
    open spec fn data_wf(&self) -> bool {
        true
    }

    open spec fn data_type_key(&self) -> &'static str {
        crate::recipe::vanilla::COOKING_DATA
    }

    fn properties(&self) -> (r: Option<&RecipeProperties>)
        ensures
            r == Some(&self.properties),
    {
        Some(&self.properties)
    }
}

impl RecipeMatches<SingleItemRecipeInput> for CookingRecipe {
    open spec fn spec_matches(&self, input: &SingleItemRecipeInput) -> bool {
        self.ingredient@.test(input.item@)
    }

    fn matches(&self, input: &SingleItemRecipeInput) -> (r: bool) {
        self.ingredient.test(&input.item)
    }
}

/// Stonecutter recipe data.
#[derive(Debug)]
pub struct StonecuttingRecipe {
    pub properties: RecipeProperties,
    pub ingredient: Ingredient,
    pub result: ItemStackTemplate,
}

impl RecipeData for StonecuttingRecipe {
    open spec fn data_wf(&self) -> bool {
        true
    }

    open spec fn data_type_key(&self) -> &'static str {
        crate::recipe::vanilla::STONECUTTING_DATA
    }

    fn properties(&self) -> (r: Option<&RecipeProperties>)
        ensures
            r == Some(&self.properties),
    {
        Some(&self.properties)
    }
}

impl RecipeMatches<SingleItemRecipeInput> for StonecuttingRecipe {
    open spec fn spec_matches(&self, input: &SingleItemRecipeInput) -> bool {
        self.ingredient@.test(input.item@)
    }

    fn matches(&self, input: &SingleItemRecipeInput) -> (r: bool) {
        self.ingredient.test(&input.item)
    }
}

} // verus!
