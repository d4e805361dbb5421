//! Smithing recipes (transform and trim) and their three-slot input.

use vstd::prelude::*;

use crate::ingredient::{Ingredient, IngredientModel};
use crate::item_stack::{ItemStack, ItemStackModel, ItemStackTemplate};
use crate::recipe::properties::RecipeProperties;
use crate::recipe::types::{RecipeData, RecipeInput, RecipeMatches};

verus! {

#[derive(Debug)]
pub struct SmithingTransformRecipe {
    pub properties: RecipeProperties,
    pub template: Option<Ingredient>,
    pub base: Ingredient,
    pub addition: Option<Ingredient>,
    pub result: ItemStackTemplate,
}

#[derive(Debug)]
pub struct SmithingTrimRecipe {
    pub properties: RecipeProperties,
    pub template: Ingredient,
    pub base: Ingredient,
    pub addition: Ingredient,
    /// Registry id of the trim pattern the recipe applies.
    pub pattern: u32,
}

/// Every recipe kind whose operational type is smithing.
#[derive(Debug)]
pub enum SmithingRecipe {
    Transform(SmithingTransformRecipe),
    Trim(SmithingTrimRecipe),
}

impl SmithingRecipe {
    pub open spec fn spec_properties(&self) -> &RecipeProperties {
        match self {
            SmithingRecipe::Transform(r) => &r.properties,
            SmithingRecipe::Trim(r) => &r.properties,
        }
    }

    pub fn properties(&self) -> (r: &RecipeProperties)
        ensures
            r == self.spec_properties(),
    {
        match self {
            SmithingRecipe::Transform(r) => &r.properties,
            SmithingRecipe::Trim(r) => &r.properties,
        }
    }
}

impl RecipeData for SmithingRecipe {
    open spec fn data_wf(&self) -> bool {
        true
    }

    open spec fn data_type_key(&self) -> &'static str {
        crate::recipe::vanilla::SMITHING_DATA
    }

    fn properties(&self) -> Option<&RecipeProperties>
        returns
            Some(self.spec_properties()),
    {
        Some(SmithingRecipe::properties(self))
    }
}

#[derive(Debug)]
pub struct SmithingRecipeInput {
    pub template: ItemStack,
    pub base: ItemStack,
    pub addition: ItemStack,
}

impl SmithingRecipeInput {
    pub fn new(template: ItemStack, base: ItemStack, addition: ItemStack) -> (r: SmithingRecipeInput)
        ensures
            r.template == template,
            r.base == base,
            r.addition == addition,
    {
        SmithingRecipeInput { template, base, addition }
    }
}

impl RecipeInput for SmithingRecipeInput {
    open spec fn input_wf(&self) -> bool {
        true
    }

    /// All three slots are empty.
    open spec fn spec_is_empty(&self) -> bool {
        self.template@.is_empty() && self.base@.is_empty() && self.addition@.is_empty()
    }

    fn is_empty(&self) -> (r: bool) {
        self.template.is_empty() && self.base.is_empty() && self.addition.is_empty()
    }
}

/// An optional slot accepts an empty stack when it has no ingredient.
pub open spec fn spec_optional_ingredient_matches(ingredient: Option<IngredientModel>, stack: ItemStackModel) -> bool {
    match ingredient {
        Some(i) => i.test(stack),
        None => stack.is_empty(),
    }
}

pub open spec fn opt_ingredient_model(o: Option<Ingredient>) -> Option<IngredientModel> {
    match o {
        Some(i) => Some(i@),
        None => None,
    }
}

pub open spec fn opt_ingredient_view(o: Option<&Ingredient>) -> Option<IngredientModel> {
    match o {
        Some(i) => Some(i@),
        None => None,
    }
}

pub fn optional_ingredient_matches(ingredient: Option<&Ingredient>, stack: &ItemStack) -> (r: bool)
    ensures
        r == spec_optional_ingredient_matches(opt_ingredient_view(ingredient), stack@),
{
    match ingredient {
        Some(ingredient) => ingredient.test(stack),
        None => stack.is_empty(),
    }
}

impl RecipeMatches<SmithingRecipeInput> for SmithingRecipe {
    /// Template, base and addition each meet their slot's ingredient (an
    /// absent template or addition asks for an empty slot).
    open spec fn spec_matches(&self, input: &SmithingRecipeInput) -> bool {
        match self {
            SmithingRecipe::Transform(r) => spec_optional_ingredient_matches(
                opt_ingredient_model(r.template),
                input.template@,
            ) && r.base@.test(input.base@) && spec_optional_ingredient_matches(
                opt_ingredient_model(r.addition),
                input.addition@,
            ),
            SmithingRecipe::Trim(r) => r.template@.test(input.template@) && r.base@.test(
                input.base@,
            ) && r.addition@.test(input.addition@),
        }
    }

    fn matches(&self, input: &SmithingRecipeInput) -> (r: bool) {
        let (template, base, addition) = match self {
            SmithingRecipe::Transform(recipe) => (
                recipe.template.as_ref(),
                &recipe.base,
                recipe.addition.as_ref(),
            ),
            SmithingRecipe::Trim(recipe) => (
                Some(&recipe.template),
                &recipe.base,
                Some(&recipe.addition),
            ),
        };
        optional_ingredient_matches(template, &input.template) && base.test(&input.base)
            && optional_ingredient_matches(addition, &input.addition)
    }
}

} // verus!
