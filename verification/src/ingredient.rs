//! Recipe ingredients: which item stacks a recipe slot accepts.

use vstd::prelude::*;

use crate::item_stack::{ItemStack, ItemStackModel};
use crate::items::ItemId;

verus! {

/// What one recipe slot accepts.
#[derive(Debug)]
pub enum Ingredient {
    /// Accepts only an empty slot.
    Empty,
    /// Accepts a non-empty stack of one item.
    Item(ItemId),
    /// Accepts a non-empty stack of any of the listed items.
    Choice(Vec<ItemId>),
}

pub enum IngredientModel {
    Empty,
    Item(ItemId),
    Choice(Seq<ItemId>),
}

impl View for Ingredient {
    type V = IngredientModel;

    open spec fn view(&self) -> IngredientModel {
        match self {
            Ingredient::Empty => IngredientModel::Empty,
            Ingredient::Item(i) => IngredientModel::Item(*i),
            Ingredient::Choice(v) => IngredientModel::Choice(v@),
        }
    }
}

impl IngredientModel {
    pub open spec fn is_empty(self) -> bool {
        self is Empty
    }

    /// Whether this ingredient accepts `stack`.
    pub open spec fn test(self, stack: ItemStackModel) -> bool {
        match self {
            IngredientModel::Empty => stack.is_empty(),
            IngredientModel::Item(i) => !stack.is_empty() && stack.item == i,
            IngredientModel::Choice(items) => !stack.is_empty() && items.contains(stack.item),
        }
    }
}

pub open spec fn ingredients_view(s: Seq<Ingredient>) -> Seq<IngredientModel> {
    s.map_values(|i: Ingredient| i@)
}

impl Ingredient {
    pub fn is_empty(&self) -> (r: bool)
        ensures
            r == self@.is_empty(),
    {
        match self {
            Ingredient::Empty => true,
            _ => false,
        }
    }

    pub fn test(&self, stack: &ItemStack) -> (r: bool)
        ensures
            r == self@.test(stack@),
    {
        match self {
            Ingredient::Empty => stack.is_empty(),
            Ingredient::Item(i) => !stack.is_empty() && stack.item == *i,
            Ingredient::Choice(items) => {
                if stack.is_empty() {
                    return false;
                }
                let mut k: usize = 0;
                while k < items.len()
                    invariant
                        k <= items.len(),
                        self@ == IngredientModel::Choice(items@),
                        !stack@.is_empty(),
                        forall|j: int| 0 <= j < k ==> items@[j] != stack.item,
                    decreases items.len() - k,
                {
                    if items[k] == stack.item {
                        assert(items@[k as int] == stack.item);
                        assert(items@.contains(stack.item));
                        assert(self@ == IngredientModel::Choice(items@));
                        return true;
                    }
                    k += 1;
                }
                false
            },
        }
    }

    pub fn duplicate(&self) -> (r: Ingredient)
        ensures
            r@ == self@,
    {
        match self {
            Ingredient::Empty => Ingredient::Empty,
            Ingredient::Item(i) => Ingredient::Item(*i),
            Ingredient::Choice(items) => Ingredient::Choice(crate::components::copy_vec(items)),
        }
    }

    /// Structural equality of two ingredients.
    pub fn eq_ingredient(&self, other: &Ingredient) -> (r: bool)
        ensures
            r == (self@ == other@),
    {
        match (self, other) {
            (Ingredient::Empty, Ingredient::Empty) => true,
            (Ingredient::Item(a), Ingredient::Item(b)) => *a == *b,
            (Ingredient::Choice(a), Ingredient::Choice(b)) => {
                if a.len() != b.len() {
                    return false;
                }
                let mut k: usize = 0;
                while k < a.len()
                    invariant
                        k <= a.len(),
                        a.len() == b.len(),
                        self@ == IngredientModel::Choice(a@),
                        other@ == IngredientModel::Choice(b@),
                        forall|j: int| 0 <= j < k ==> a@[j] == b@[j],
                    decreases a.len() - k,
                {
                    if a[k] != b[k] {
                        assert(a@[k as int] != b@[k as int]);
                        assert(a@ != b@);
                        assert(self@ == IngredientModel::Choice(a@));
                        assert(other@ == IngredientModel::Choice(b@));
                        return false;
                    }
                    k += 1;
                }
                assert(a@ =~= b@);
                true
            },
            _ => false,
        }
    }
}

/// A copy of a slice of ingredients.
pub fn duplicate_ingredients(s: &[Ingredient]) -> (r: Vec<Ingredient>)
    ensures
        ingredients_view(r@) == ingredients_view(s@),
{
    let mut r: Vec<Ingredient> = Vec::new();
    let mut i: usize = 0;
    while i < s.len()
        invariant
            i <= s.len(),
            r.len() == i,
            forall|j: int| 0 <= j < i ==> r@[j]@ == s@[j]@,
        decreases s.len() - i,
    {
        r.push(s[i].duplicate());
        i += 1;
    }
    assert(ingredients_view(r@) =~= ingredients_view(s@));
    r
}

} // verus!
