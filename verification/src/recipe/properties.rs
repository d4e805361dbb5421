//! Passive recipe metadata: recipe-book categories and ingredient placement.

use vstd::prelude::*;

use rustc_hash::FxHashMap;

use crate::identifier::{Identifier, IdentifierModel};
use crate::ingredient::{duplicate_ingredients, ingredients_view, Ingredient, IngredientModel};
use crate::key_index::{slot_entries, slots_get, slots_insert, slots_new};

verus! {

/// Recipe-book grouping used by crafting recipes.
#[derive(Debug, Clone, Copy, PartialEq, Eq, Structural)]
pub enum CraftingBookCategory {
    Building,
    Redstone,
    Equipment,
    Misc,
}

/// Recipe-book grouping used by cooking recipes.
#[derive(Debug, Clone, Copy, PartialEq, Eq, Structural)]
pub enum CookingBookCategory {
    Food,
    Blocks,
    Misc,
}

/// Logical recipe-book category stored by recipe data.
#[derive(Debug, Clone, Copy, PartialEq, Eq, Structural)]
pub enum RecipeBookCategoryKind {
    Crafting(CraftingBookCategory),
    Cooking(CookingBookCategory),
    Stonecutter,
    Smithing,
}

/// Recipe-book metadata which is not part of matching or processing.
#[derive(Debug)]
pub struct RecipeBookProperties {
    pub category: RecipeBookCategoryKind,
    pub group: Option<String>,
    pub show_notification: bool,
}

/// Precomputed ingredient placement information.
#[derive(Debug)]
pub struct PlacementInfo {
    pub ingredients: Vec<Ingredient>,
    /// Maps recipe slots to `ingredients`; `None` represents an empty slot.
    pub slots_to_ingredient: Vec<Option<usize>>,
}

pub struct PlacementInfoModel {
    pub ingredients: Seq<IngredientModel>,
    pub slots_to_ingredient: Seq<Option<usize>>,
}

impl View for PlacementInfo {
    type V = PlacementInfoModel;

    open spec fn view(&self) -> PlacementInfoModel {
        PlacementInfoModel {
            ingredients: ingredients_view(self.ingredients@),
            slots_to_ingredient: self.slots_to_ingredient@,
        }
    }
}

pub open spec fn not_placeable_model() -> PlacementInfoModel {
    PlacementInfoModel { ingredients: Seq::empty(), slots_to_ingredient: Seq::empty() }
}

pub open spec fn is_present(i: IngredientModel) -> bool {
    !i.is_empty()
}

/// The present (non-empty) ingredients of `s`, in order.
pub open spec fn present_ingredients(s: Seq<IngredientModel>) -> Seq<IngredientModel> {
    s.filter(|i: IngredientModel| is_present(i))
}

/// Extending a prefix by one ingredient adds it to the present ingredients when it is present.
pub proof fn lemma_present_step(s: Seq<IngredientModel>, i: int)
    requires
        0 <= i < s.len(),
    ensures
        present_ingredients(s.take(i + 1)) == if is_present(s[i]) {
            present_ingredients(s.take(i)).push(s[i])
        } else {
            present_ingredients(s.take(i))
        },
{
    reveal_with_fuel(Seq::filter, 1);
    let t = s.take(i + 1);
    assert(t.drop_last() =~= s.take(i));
    assert(t.last() == s[i]);
}

/// Placement of a pattern whose empty ingredients stand for empty slots: the
/// present ingredients in order, and for each slot its index among them.
pub open spec fn optional_placement(s: Seq<IngredientModel>) -> PlacementInfoModel {
    PlacementInfoModel {
        ingredients: present_ingredients(s),
        slots_to_ingredient: Seq::new(
            s.len(),
            |k: int|
                if s[k].is_empty() {
                    None
                } else {
                    Some(present_ingredients(s.take(k)).len() as usize)
                },
        ),
    }
}

/// The present ingredients of a prefix come first, in the same order, among
/// those of a longer prefix.
proof fn lemma_present_prefix(s: Seq<IngredientModel>, m: int, n: int)
    requires
        0 <= m <= n <= s.len(),
    ensures
        present_ingredients(s.take(m)).len() <= present_ingredients(s.take(n)).len(),
        forall|j: int|
            0 <= j < present_ingredients(s.take(m)).len() ==> present_ingredients(s.take(n))[j]
                == #[trigger] present_ingredients(s.take(m))[j],
    decreases n - m,
{
    if m < n {
        lemma_present_prefix(s, m, n - 1);
        lemma_present_step(s, n - 1);
    }
}

/// In the placement of a pattern with empty slots, the ingredient list holds
/// the present ingredients in order, an empty slot points nowhere, and a slot
/// holding an ingredient points at that ingredient in the list: its position
/// there is the number of present ingredients in the slots before it.
pub proof fn lemma_optional_placement_indices(s: Seq<IngredientModel>)
    requires
        s.len() <= usize::MAX,
    ensures
        optional_placement(s).slots_to_ingredient.len() == s.len(),
        optional_placement(s).ingredients == present_ingredients(s),
        forall|i: int|
            0 <= i < s.len() ==> (#[trigger] optional_placement(s).slots_to_ingredient[i] is None
                <==> s[i].is_empty()),
        forall|i: int|
            0 <= i < s.len() && !s[i].is_empty() ==> {
                let j = (#[trigger] optional_placement(s).slots_to_ingredient[i])->0 as int;
                &&& j == present_ingredients(s.take(i)).len()
                &&& j < present_ingredients(s).len()
                &&& present_ingredients(s)[j] == s[i]
            },
{
    assert(s.take(s.len() as int) =~= s);
    assert forall|i: int| 0 <= i < s.len() && !s[i].is_empty() implies {
        let j = (#[trigger] optional_placement(s).slots_to_ingredient[i])->0 as int;
        &&& j == present_ingredients(s.take(i)).len()
        &&& j < present_ingredients(s).len()
        &&& present_ingredients(s)[j] == s[i]
    } by {
        lemma_present_step(s, i);
        lemma_present_prefix(s, i + 1, s.len() as int);
        s.take(i).lemma_filter_len(|x: IngredientModel| is_present(x));
        let j = present_ingredients(s.take(i)).len() as int;
        assert(j <= i);
        assert(present_ingredients(s.take(i + 1))[j] == s[i]);
    }
}

/// Placement of a list of ingredients that must all be present.
pub open spec fn required_placement(s: Seq<IngredientModel>) -> PlacementInfoModel {
    if exists|k: int| 0 <= k < s.len() && s[k].is_empty() {
        not_placeable_model()
    } else {
        PlacementInfoModel {
            ingredients: s,
            slots_to_ingredient: Seq::new(s.len(), |k: int| Some(k as usize)),
        }
    }
}

impl PlacementInfo {
    pub fn not_placeable() -> (r: PlacementInfo)
        ensures
            r@ == not_placeable_model(),
    {
        let r = PlacementInfo { ingredients: Vec::new(), slots_to_ingredient: Vec::new() };
        assert(r@.ingredients =~= Seq::<IngredientModel>::empty());
        r
    }

    /// Placement of a single ingredient; not placeable when the ingredient is empty.
    pub fn from_ingredient(ingredient: Ingredient) -> (r: PlacementInfo)
        ensures
            r@ == required_placement(seq![ingredient@]),
    {
        if ingredient.is_empty() {
            assert(seq![ingredient@][0].is_empty());
            return Self::not_placeable();
        }
        let ghost g = ingredient@;
        let r = PlacementInfo { ingredients: vec![ingredient], slots_to_ingredient: vec![Some(0)] };
        assert(r@.ingredients =~= seq![g]);
        assert(r@.slots_to_ingredient =~= Seq::new(1, |k: int| Some(k as usize)));
        r
    }

    /// Placement where empty ingredients are empty slots.
    pub fn from_optional_ingredients(ingredients: &[Ingredient]) -> (r: PlacementInfo)
        ensures
            r@ == optional_placement(ingredients_view(ingredients@)),
    {
        let ghost s = ingredients_view(ingredients@);
        let mut present: Vec<Ingredient> = Vec::new();
        let mut slots: Vec<Option<usize>> = Vec::new();
        let mut i: usize = 0;
        while i < ingredients.len()
            invariant
                i <= ingredients.len(),
                s == ingredients_view(ingredients@),
                ingredients_view(present@) == present_ingredients(s.take(i as int)),
                slots@.len() == i,
                forall|k: int|
                    0 <= k < i ==> #[trigger] slots@[k] == optional_placement(s).slots_to_ingredient[k],
                present.len() <= i,
            decreases ingredients.len() - i,
        {
            proof {
                lemma_present_step(s, i as int);
            }
            if ingredients[i].is_empty() {
                slots.push(None);
            } else {
                proof {
                    s.take(i as int).lemma_filter_len(|x: IngredientModel| is_present(x));
                }
                slots.push(Some(present.len()));
                present.push(ingredients[i].duplicate());
                assert(ingredients_view(present@) =~= present_ingredients(s.take(i as int + 1)));
            }
            i += 1;
        }
        assert(s.take(s.len() as int) =~= s);
        let r = PlacementInfo { ingredients: present, slots_to_ingredient: slots };
        assert(r@.slots_to_ingredient =~= optional_placement(s).slots_to_ingredient);
        r
    }

    /// Placement where every slot needs an ingredient; not placeable when one is empty.
    pub fn from_ingredients(ingredients: &[Ingredient]) -> (r: PlacementInfo)
        ensures
            r@ == required_placement(ingredients_view(ingredients@)),
    {
        let ghost s = ingredients_view(ingredients@);
        let mut i: usize = 0;
        while i < ingredients.len()
            invariant
                i <= ingredients.len(),
                s == ingredients_view(ingredients@),
                forall|k: int| 0 <= k < i ==> !s[k].is_empty(),
            decreases ingredients.len() - i,
        {
            if ingredients[i].is_empty() {
                assert(s[i as int].is_empty());
                return Self::not_placeable();
            }
            i += 1;
        }
        let copied = duplicate_ingredients(ingredients);
        let mut slots: Vec<Option<usize>> = Vec::new();
        let mut k: usize = 0;
        while k < ingredients.len()
            invariant
                k <= ingredients.len(),
                slots@.len() == k,
                forall|j: int| 0 <= j < k ==> #[trigger] slots@[j] == Some(j as usize),
            decreases ingredients.len() - k,
        {
            slots.push(Some(k));
            k += 1;
        }
        let r = PlacementInfo { ingredients: copied, slots_to_ingredient: slots };
        assert(r@.slots_to_ingredient =~= Seq::new(s.len(), |j: int| Some(j as usize)));
        r
    }

    pub fn is_impossible_to_place(&self) -> (r: bool)
        ensures
            r == (self.slots_to_ingredient@.len() == 0),
    {
        self.slots_to_ingredient.len() == 0
    }
}

/// Optional metadata common to recipe data implementations.
#[derive(Debug)]
pub struct RecipeProperties {
    pub special: bool,
    pub placement: Option<PlacementInfo>,
    pub recipe_book: Option<RecipeBookProperties>,
}

impl RecipeProperties {
    /// Properties of a special recipe: no placement and no recipe-book entry.
    pub fn special() -> (r: RecipeProperties)
        ensures
            r.special,
            r.placement is None,
            r.recipe_book is None,
    {
        RecipeProperties { special: true, placement: None, recipe_book: None }
    }
}

/// A recipe-book category that the protocol names.
#[derive(Debug)]
pub struct RecipeBookCategory {
    pub key: Identifier,
}

/// Registry of recipe-book categories, each key at most once.
pub struct RecipeBookCategoryRegistry {
    categories: Vec<RecipeBookCategory>,
    by_key: FxHashMap<Identifier, usize>,
    allows_registering: bool,
}

impl RecipeBookCategoryRegistry {
    /// The keys of the registered categories, in registration order.
    pub closed spec fn keys(&self) -> Seq<IdentifierModel> {
        self.categories@.map_values(|c: RecipeBookCategory| c.key@)
    }

    pub closed spec fn is_frozen(&self) -> bool {
        !self.allows_registering
    }

    /// Every category is found under its key, and every key leads to it.
    pub closed spec fn wf(&self) -> bool {
        &&& forall|i: int|
            0 <= i < self.categories@.len() ==> slot_entries(self.by_key).contains_key(
                #[trigger] self.categories@[i].key@,
            ) && slot_entries(self.by_key)[self.categories@[i].key@] == i
        &&& forall|k: IdentifierModel| #[trigger]
            slot_entries(self.by_key).contains_key(k) ==> slot_entries(self.by_key)[k]
                < self.categories@.len() && self.categories@[slot_entries(self.by_key)[k] as int].key@ == k
    }

    pub fn new() -> (r: RecipeBookCategoryRegistry)
        ensures
            r.wf(),
            r.keys().len() == 0,
            !r.is_frozen(),
    {
        let r = RecipeBookCategoryRegistry { categories: Vec::new(), by_key: slots_new(), allows_registering: true };
        assert(r.keys() =~= Seq::<IdentifierModel>::empty());
        r
    }

    /// Registers a category; its key must be new and the registry open.
    pub fn register(&mut self, category: RecipeBookCategory)
        requires
            old(self).wf(),
            !old(self).is_frozen(),
            !old(self).keys().contains(category.key@),
            old(self).keys().len() < usize::MAX,
        ensures
            final(self).wf(),
            !final(self).is_frozen(),
            final(self).keys() == old(self).keys().push(category.key@),
    {
        let id = self.categories.len();
        let key = category.key.duplicate();
        proof {
            assert(!slot_entries(self.by_key).contains_key(category.key@)) by {
                if slot_entries(self.by_key).contains_key(category.key@) {
                    let i = slot_entries(self.by_key)[category.key@] as int;
                    assert(self.keys()[i] == category.key@);
                }
            }
        }
        let ghost prev = self.categories@;
        self.categories.push(category);
        slots_insert(&mut self.by_key, key, id);
        proof {
            assert forall|i: int| 0 <= i < self.categories@.len() implies slot_entries(self.by_key).contains_key(
                #[trigger] self.categories@[i].key@,
            ) && slot_entries(self.by_key)[self.categories@[i].key@] == i by {
                if i < id {
                    assert(self.categories@[i] == prev[i]);
                }
            }
            assert(self.keys() =~= old(self).keys().push(key@));
        }
    }

    /// Closes the registry to new categories.
    pub fn freeze(&mut self)
        ensures
            final(self).keys() == old(self).keys(),
            final(self).is_frozen(),
            old(self).wf() ==> final(self).wf(),
    {
        self.allows_registering = false;
    }

    /// The registration position of the category with `key`, if any.
    pub fn id_of(&self, key: &Identifier) -> (r: Option<usize>)
        requires
            self.wf(),
        ensures
            r is None <==> !self.keys().contains(key@),
            r matches Some(i) ==> i < self.keys().len() && self.keys()[i as int] == key@,
    {
        let r = slots_get(&self.by_key, key);
        proof {
            match r {
                Some(i) => {
                    assert(self.categories@[i as int].key@ == key@);
                    assert(self.keys()[i as int] == key@);
                },
                None => {
                    if self.keys().contains(key@) {
                        let i = choose|i: int| 0 <= i < self.keys().len() && self.keys()[i] == key@;
                        assert(slot_entries(self.by_key).contains_key(self.categories@[i].key@));
                    }
                },
            }
        }
        r
    }

    pub fn len(&self) -> (r: usize)
        ensures
            r == self.keys().len(),
    {
        self.categories.len()
    }

    pub fn is_empty(&self) -> (r: bool)
        ensures
            r == (self.keys().len() == 0),
    {
        self.categories.len() == 0
    }
}

/// The paths of the vanilla recipe-book categories, in registration order.
pub open spec fn vanilla_category_paths() -> Seq<Seq<char>> {
    seq![
        "crafting_building_blocks"@,
        "crafting_redstone"@,
        "crafting_equipment"@,
        "crafting_misc"@,
        "furnace_food"@,
        "furnace_blocks"@,
        "furnace_misc"@,
        "blast_furnace_blocks"@,
        "blast_furnace_misc"@,
        "smoker_food"@,
        "stonecutter"@,
        "smithing"@,
        "campfire"@,
    ]
}

/// The vanilla recipe-book categories, in registration order.
pub fn vanilla_recipe_book_categories() -> (r: Vec<RecipeBookCategory>)
    ensures
        r@.len() == vanilla_category_paths().len(),
        forall|i: int| 0 <= i < r@.len() ==> (#[trigger] r@[i]).key.namespace@ == "minecraft"@
            && r@[i].key.path@ == vanilla_category_paths()[i],
{
    let r = vec![
        RecipeBookCategory { key: Identifier::vanilla("crafting_building_blocks") },
        RecipeBookCategory { key: Identifier::vanilla("crafting_redstone") },
        RecipeBookCategory { key: Identifier::vanilla("crafting_equipment") },
        RecipeBookCategory { key: Identifier::vanilla("crafting_misc") },
        RecipeBookCategory { key: Identifier::vanilla("furnace_food") },
        RecipeBookCategory { key: Identifier::vanilla("furnace_blocks") },
        RecipeBookCategory { key: Identifier::vanilla("furnace_misc") },
        RecipeBookCategory { key: Identifier::vanilla("blast_furnace_blocks") },
        RecipeBookCategory { key: Identifier::vanilla("blast_furnace_misc") },
        RecipeBookCategory { key: Identifier::vanilla("smoker_food") },
        RecipeBookCategory { key: Identifier::vanilla("stonecutter") },
        RecipeBookCategory { key: Identifier::vanilla("smithing") },
        RecipeBookCategory { key: Identifier::vanilla("campfire") },
    ];
    r
}

} // verus!
