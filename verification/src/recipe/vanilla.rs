//! The vanilla recipe data kinds in one type, and the vanilla operational
//! recipe types.

use vstd::prelude::*;

use crate::identifier::{Identifier, IdentifierModel};
use vstd::utf8::encode_utf8;
use crate::recipe::crafting::{CraftingInput, CraftingRecipe};
use crate::recipe::properties::RecipeProperties;
use crate::recipe::single_item::{CookingRecipe, SingleItemRecipeInput, StonecuttingRecipe};
use crate::recipe::smithing::{SmithingRecipe, SmithingRecipeInput};
use crate::recipe::types::{RecipeData, RecipeMatches, RecipeType, RecipeTypeRegistry};

verus! {

/// Data of any vanilla recipe; each kind matches only its own input snapshot.
#[derive(Debug)]
pub enum VanillaRecipe {
    Crafting(CraftingRecipe),
    Cooking(CookingRecipe),
    Stonecutting(StonecuttingRecipe),
    Smithing(SmithingRecipe),
}

impl RecipeData for VanillaRecipe {
    open spec fn data_wf(&self) -> bool {
        match self {
            VanillaRecipe::Crafting(r) => r.data_wf(),
            _ => true,
        }
    }

    open spec fn data_type_key(&self) -> &'static str {
        match self {
            VanillaRecipe::Crafting(_) => CRAFTING_DATA,
            VanillaRecipe::Cooking(_) => COOKING_DATA,
            VanillaRecipe::Stonecutting(_) => STONECUTTING_DATA,
            VanillaRecipe::Smithing(_) => SMITHING_DATA,
        }
    }

    fn properties(&self) -> (r: Option<&RecipeProperties>)
        ensures
            r == match self {
                VanillaRecipe::Crafting(c) => Some(c.spec_properties()),
                VanillaRecipe::Cooking(c) => Some(&c.properties),
                VanillaRecipe::Stonecutting(c) => Some(&c.properties),
                VanillaRecipe::Smithing(c) => Some(c.spec_properties()),
            },
    {
        match self {
            VanillaRecipe::Crafting(r) => Some(r.properties()),
            VanillaRecipe::Cooking(r) => Some(&r.properties),
            VanillaRecipe::Stonecutting(r) => Some(&r.properties),
            VanillaRecipe::Smithing(r) => Some(r.properties()),
        }
    }
}

impl RecipeMatches<CraftingInput> for VanillaRecipe {
    open spec fn spec_matches(&self, input: &CraftingInput) -> bool {
        match self {
            VanillaRecipe::Crafting(r) => r.spec_matches(input),
            _ => false,
        }
    }

    fn matches(&self, input: &CraftingInput) -> (r: bool) {
        match self {
            VanillaRecipe::Crafting(r) => r.matches(input),
            _ => false,
        }
    }
}

impl RecipeMatches<SingleItemRecipeInput> for VanillaRecipe {
    open spec fn spec_matches(&self, input: &SingleItemRecipeInput) -> bool {
        match self {
            VanillaRecipe::Cooking(r) => r.spec_matches(input),
            VanillaRecipe::Stonecutting(r) => r.spec_matches(input),
            _ => false,
        }
    }

    fn matches(&self, input: &SingleItemRecipeInput) -> (r: bool) {
        match self {
            VanillaRecipe::Cooking(r) => r.matches(input),
            VanillaRecipe::Stonecutting(r) => r.matches(input),
            _ => false,
        }
    }
}

impl RecipeMatches<SmithingRecipeInput> for VanillaRecipe {
    open spec fn spec_matches(&self, input: &SmithingRecipeInput) -> bool {
        match self {
            VanillaRecipe::Smithing(r) => r.spec_matches(input),
            _ => false,
        }
    }

    fn matches(&self, input: &SmithingRecipeInput) -> (r: bool) {
        match self {
            VanillaRecipe::Smithing(r) => r.matches(input),
            _ => false,
        }
    }
}

/// Names of the recipe data and input snapshot types of the vanilla recipe types.
pub const CRAFTING_DATA: &'static str = "steel:recipe_data/crafting";
pub const COOKING_DATA: &'static str = "steel:recipe_data/cooking";
pub const STONECUTTING_DATA: &'static str = "steel:recipe_data/stonecutting";
pub const SMITHING_DATA: &'static str = "steel:recipe_data/smithing";
pub const CRAFTING_INPUT: &'static str = "steel:recipe_input/crafting";
pub const SINGLE_ITEM_INPUT: &'static str = "steel:recipe_input/single_item";
pub const SMITHING_INPUT: &'static str = "steel:recipe_input/smithing";

/// The key `minecraft:<path>`.
pub open spec fn vanilla_key(path: Seq<char>) -> IdentifierModel {
    IdentifierModel { namespace: encode_utf8("minecraft"@), path: encode_utf8(path) }
}

/// The key of the `minecraft:crafting` recipe type.
pub open spec fn crafting_key() -> IdentifierModel {
    IdentifierModel { namespace: encode_utf8("minecraft"@), path: encode_utf8("crafting"@) }
}

/// The `minecraft:crafting` recipe type.
pub fn crafting() -> (r: RecipeType)
    ensures
        r.entry.key.namespace@ == "minecraft"@,
        r.entry.key.path@ == "crafting"@,
        r.entry.key@ == crafting_key(),
{
    RecipeType::new(Identifier::vanilla("crafting"), CRAFTING_DATA, CRAFTING_INPUT)
}

pub fn smelting() -> (r: RecipeType)
    ensures
        r.entry.key.namespace@ == "minecraft"@,
        r.entry.key.path@ == "smelting"@,
{
    RecipeType::new(Identifier::vanilla("smelting"), COOKING_DATA, SINGLE_ITEM_INPUT)
}

pub fn blasting() -> (r: RecipeType)
    ensures
        r.entry.key.namespace@ == "minecraft"@,
        r.entry.key.path@ == "blasting"@,
{
    RecipeType::new(Identifier::vanilla("blasting"), COOKING_DATA, SINGLE_ITEM_INPUT)
}

pub fn smoking() -> (r: RecipeType)
    ensures
        r.entry.key.namespace@ == "minecraft"@,
        r.entry.key.path@ == "smoking"@,
{
    RecipeType::new(Identifier::vanilla("smoking"), COOKING_DATA, SINGLE_ITEM_INPUT)
}

pub fn campfire_cooking() -> (r: RecipeType)
    ensures
        r.entry.key.namespace@ == "minecraft"@,
        r.entry.key.path@ == "campfire_cooking"@,
        r.entry.key@ == vanilla_key("campfire_cooking"@),
{
    RecipeType::new(Identifier::vanilla("campfire_cooking"), COOKING_DATA, SINGLE_ITEM_INPUT)
}

pub fn stonecutting() -> (r: RecipeType)
    ensures
        r.entry.key.namespace@ == "minecraft"@,
        r.entry.key.path@ == "stonecutting"@,
{
    RecipeType::new(Identifier::vanilla("stonecutting"), STONECUTTING_DATA, SINGLE_ITEM_INPUT)
}

pub fn smithing() -> (r: RecipeType)
    ensures
        r.entry.key.namespace@ == "minecraft"@,
        r.entry.key.path@ == "smithing"@,
{
    RecipeType::new(Identifier::vanilla("smithing"), SMITHING_DATA, SMITHING_INPUT)
}

} // verus!
