//! Matching rules of every crafting recipe kind.

use vstd::prelude::*;

use crate::ingredient::{Ingredient, IngredientModel};
use crate::item_stack::{spec_same_item_same_components, ItemStack, ItemStackModel};
use crate::recipe::crafting::{
    idx, is_occupied, lemma_idx_bound, occupied_count, spec_symmetric, stacks_view, CraftingInput,
    CraftingRecipe,
    DecoratedPotRecipe, ImbueRecipe, MapExtendingRecipe, ShapedRecipe, ShapelessRecipe,
};
use crate::recipe::special::{
    banner_duplicate, book_cloning, dye, firework_rocket, firework_star, firework_star_fade,
    repair_item, shield_decoration, spec_banner_duplicate, spec_book_cloning, spec_dye,
    spec_firework_rocket, spec_firework_star, spec_firework_star_fade, spec_repair_item,
    spec_shield_decoration, spec_transmute, transmute,
};
use crate::recipe::properties::{is_present, RecipeProperties};
use crate::recipe::types::{RecipeData, RecipeInput, RecipeMatches};
use crate::util::{
    count, lemma_count_pos, lemma_count_prefix_le, lemma_count_step, lemma_count_two,
    lemma_filter_len_count, lemma_filter_step, lemma_take_full,
};

verus! {

pub open spec fn occupied_pred() -> spec_fn(ItemStackModel) -> bool {
    |x: ItemStackModel| is_occupied(x)
}

/// The non-empty stacks of `s`, in grid order.
pub open spec fn occupied_stacks(s: Seq<ItemStackModel>) -> Seq<ItemStackModel> {
    s.filter(occupied_pred())
}

pub open spec fn refs_view(s: Seq<&ItemStack>) -> Seq<ItemStackModel> {
    s.map_values(|x: &ItemStack| x@)
}

/// References to the non-empty stacks of the grid, in grid order.
pub fn collect_occupied(input: &CraftingInput) -> (r: Vec<&ItemStack>)
    requires
        input.wf(),
    ensures
        refs_view(r@) == occupied_stacks(input.stacks()),
        r@.len() == input.ingredient_count,
{
    let ghost s = input.stacks();
    let mut r: Vec<&ItemStack> = Vec::new();
    let mut k: usize = 0;
    while k < input.items.len()
        invariant
            k <= input.items.len(),
            s == input.stacks(),
            refs_view(r@) == s.take(k as int).filter(occupied_pred()),
        decreases input.items.len() - k,
    {
        proof {
            lemma_filter_step(s, occupied_pred(), k as int);
        }
        if !input.items[k].is_empty() {
            r.push(&input.items[k]);
            assert(refs_view(r@) =~= s.take(k as int + 1).filter(occupied_pred()));
        }
        k += 1;
    }
    proof {
        lemma_take_full(s);
        lemma_filter_len_count(s, occupied_pred());
    }
    r
}

// ---------------------------------------------------------------- shaped

pub open spec fn present_pred() -> spec_fn(IngredientModel) -> bool {
    |i: IngredientModel| is_present(i)
}

/// Every cell of the input is accepted by the pattern cell at the same
/// position, or at the mirrored column when `mirrored`.
pub open spec fn shaped_orientation_matches(
    r: &ShapedRecipe,
    input: &CraftingInput,
    mirrored: bool,
) -> bool {
    forall|x: int, y: int|
        0 <= x < r.width && 0 <= y < r.height ==> r.pattern_view()[idx(
            r.width as int,
            if mirrored {
                r.width - 1 - x
            } else {
                x
            },
            y,
        )].test(#[trigger] input.stack_at(x, y))
}

pub open spec fn spec_shaped(r: &ShapedRecipe, input: &CraftingInput) -> bool {
    &&& input.ingredient_count == count(r.pattern_view(), present_pred())
    &&& input.width == r.width
    &&& input.height == r.height
    &&& (shaped_orientation_matches(r, input, false) || (!r.symmetrical
        && shaped_orientation_matches(r, input, true)))
}

/// A shaped recipe whose symmetry flag is the one `ShapedRecipe::new` computes
/// matches exactly when the grid has the pattern's size and number of
/// non-empty stacks and every cell is accepted by the pattern, either as it
/// stands or mirrored left to right: for a symmetric pattern the mirrored test
/// that the flag skips could not change the answer.
pub proof fn lemma_shaped_either_orientation(r: &ShapedRecipe, input: &CraftingInput)
    requires
        r.pattern_view().len() == r.width * r.height,
        r.symmetrical == spec_symmetric(r.width as int, r.pattern_view()),
    ensures
        spec_shaped(r, input) == (input.ingredient_count == count(r.pattern_view(), present_pred())
            && input.width == r.width && input.height == r.height && (shaped_orientation_matches(
            r,
            input,
            false,
        ) || shaped_orientation_matches(r, input, true))),
{
    let w = r.width as int;
    let h = r.height as int;
    let p = r.pattern_view();
    if r.symmetrical && w > 0 {
        assert(p.len() as int / w == h) by (nonlinear_arith)
            requires
                p.len() == w * h,
                w > 0,
        ;
        assert forall|x: int, y: int| 0 <= x < w && 0 <= y < h implies #[trigger] p[idx(w, x, y)]
            == p[idx(w, w - 1 - x, y)] by {
            if x < w / 2 {
                assert(p[idx(w, x, y)] == p[idx(w, w - 1 - x, y)]);
            } else if w - 1 - x < w / 2 {
                assert(p[idx(w, w - 1 - x, y)] == p[idx(w, w - 1 - (w - 1 - x), y)]);
            } else {
                assert(x == w - 1 - x);
            }
        }
        if shaped_orientation_matches(r, input, true) {
            assert forall|x: int, y: int| 0 <= x < w && 0 <= y < h implies p[idx(w, x, y)].test(
                #[trigger] input.stack_at(x, y),
            ) by {
                assert(p[idx(w, w - 1 - x, y)].test(input.stack_at(x, y)));
                assert(p[idx(w, x, y)] == p[idx(w, w - 1 - x, y)]);
            }
            assert(shaped_orientation_matches(r, input, false));
        }
    }
}

fn count_present(pattern: &Vec<Ingredient>) -> (r: usize)
    ensures
        r == count(crate::ingredient::ingredients_view(pattern@), present_pred()),
{
    let ghost p = crate::ingredient::ingredients_view(pattern@);
    let mut n: usize = 0;
    let mut k: usize = 0;
    while k < pattern.len()
        invariant
            k <= pattern.len(),
            p == crate::ingredient::ingredients_view(pattern@),
            n == count(p.take(k as int), present_pred()),
            n <= k,
        decreases pattern.len() - k,
    {
        proof {
            lemma_count_step(p, present_pred(), k as int);
        }
        if !pattern[k].is_empty() {
            n += 1;
        }
        k += 1;
    }
    proof {
        lemma_take_full(p);
    }
    n
}

pub fn matches_shaped_orientation(recipe: &ShapedRecipe, input: &CraftingInput, mirrored: bool) -> (r:
    bool)
    requires
        recipe.wf(),
        input.wf(),
        input.width == recipe.width,
        input.height == recipe.height,
    ensures
        r == shaped_orientation_matches(recipe, input, mirrored),
{
    let mut y: usize = 0;
    while y < recipe.height
        invariant
            recipe.wf(),
            input.wf(),
            input.width == recipe.width,
            input.height == recipe.height,
            y <= recipe.height,
            forall|x: int, yy: int|
                0 <= x < recipe.width && 0 <= yy < y ==> recipe.pattern_view()[idx(
                    recipe.width as int,
                    if mirrored {
                        recipe.width - 1 - x
                    } else {
                        x
                    },
                    yy,
                )].test(#[trigger] input.stack_at(x, yy)),
        decreases recipe.height - y,
    {
        let mut x: usize = 0;
        while x < recipe.width
            invariant
                recipe.wf(),
                input.wf(),
                input.width == recipe.width,
                input.height == recipe.height,
                y < recipe.height,
                x <= recipe.width,
                forall|xx: int, yy: int|
                    0 <= xx < recipe.width && (0 <= yy < y || (yy == y && xx < x))
                        ==> recipe.pattern_view()[idx(
                        recipe.width as int,
                        if mirrored {
                            recipe.width - 1 - xx
                        } else {
                            xx
                        },
                        yy,
                    )].test(#[trigger] input.stack_at(xx, yy)),
            decreases recipe.width - x,
        {
            let pattern_x = if mirrored {
                recipe.width - 1 - x
            } else {
                x
            };
            proof {
                lemma_idx_bound(recipe.width as int, recipe.height as int, pattern_x as int, y as int);
            }
            let total = recipe.pattern.len();
            if !recipe.pattern[y * recipe.width + pattern_x].test(input.get(x, y)) {
                return false;
            }
            x += 1;
        }
        y += 1;
    }
    true
}

pub fn shaped(recipe: &ShapedRecipe, input: &CraftingInput) -> (r: bool)
    requires
        recipe.wf(),
        input.wf(),
    ensures
        r == spec_shaped(recipe, input),
{
    if input.ingredient_count() != count_present(&recipe.pattern) || input.width != recipe.width
        || input.height != recipe.height {
        return false;
    }
    matches_shaped_orientation(recipe, input, false) || (!recipe.symmetrical
        && matches_shaped_orientation(recipe, input, true))
}

// ---------------------------------------------------------------- shapeless

/// `f` sends each ingredient to a distinct item it accepts.
pub open spec fn is_assignment(
    ings: Seq<IngredientModel>,
    items: Seq<ItemStackModel>,
    f: Seq<int>,
) -> bool {
    &&& f.len() == ings.len()
    &&& forall|i: int|
        0 <= i < f.len() ==> 0 <= #[trigger] f[i] < items.len() && ings[i].test(items[f[i]])
    &&& forall|i: int, j: int| 0 <= i < j < f.len() ==> f[i] != f[j]
}

/// `f` uses no item marked in `used`.
pub open spec fn avoids(f: Seq<int>, used: Seq<bool>) -> bool {
    forall|i: int| 0 <= i < f.len() ==> !used[#[trigger] f[i]]
}

/// The ingredients can be given distinct unused items that they accept.
pub open spec fn can_assign(
    ings: Seq<IngredientModel>,
    items: Seq<ItemStackModel>,
    used: Seq<bool>,
) -> bool {
    exists|f: Seq<int>| is_assignment(ings, items, f) && avoids(f, used)
}

/// A shapeless recipe matches when the grid holds exactly as many stacks as it
/// has ingredients and each ingredient can be given its own stack.
pub open spec fn spec_shapeless(r: &ShapelessRecipe, input: &CraftingInput) -> bool {
    &&& input.ingredient_count == r.ingredients@.len()
    &&& exists|f: Seq<int>| is_assignment(r.ingredients_view(), occupied_stacks(input.stacks()), f)
}

/// `f` lists each of `0..n` exactly once.
pub open spec fn is_permutation(f: Seq<int>, n: int) -> bool {
    &&& f.len() == n
    &&& forall|i: int| 0 <= i < n ==> 0 <= #[trigger] f[i] < n
    &&& forall|i: int, j: int| 0 <= i < j < n ==> f[i] != f[j]
    &&& forall|j: int| 0 <= j < n ==> #[trigger] f.contains(j)
}

/// A shapeless recipe matches exactly when the grid holds as many non-empty
/// stacks as the recipe has ingredients and some reordering of those stacks
/// puts under each ingredient a stack it accepts.
pub proof fn lemma_shapeless_permutation(r: &ShapelessRecipe, input: &CraftingInput)
    requires
        input.wf(),
    ensures
        spec_shapeless(r, input) == (input.ingredient_count == r.ingredients@.len() && exists|
            f: Seq<int>,
        |
            is_permutation(f, r.ingredients@.len() as int) && forall|k: int|
                0 <= k < r.ingredients@.len() ==> r.ingredients_view()[k].test(
                    occupied_stacks(input.stacks())[#[trigger] f[k]],
                )),
{
    let n = r.ingredients@.len() as int;
    let ings = r.ingredients_view();
    let occ = occupied_stacks(input.stacks());
    crate::util::lemma_filter_len_count(input.stacks(), occupied_pred());
    if spec_shapeless(r, input) {
        let f = choose|f: Seq<int>| is_assignment(ings, occ, f);
        assert(f.no_duplicates()) by {
            assert forall|i: int, j: int| 0 <= i < f.len() && 0 <= j < f.len() && i != j implies f[i]
                != f[j] by {
                if i < j {
                    assert(f[i] != f[j]);
                } else {
                    assert(f[j] != f[i]);
                }
            }
        }
        f.unique_seq_to_set();
        vstd::set_lib::lemma_int_range(0, n);
        assert(f.to_set().subset_of(vstd::set_lib::set_int_range(0, n))) by {
            assert forall|a: int| f.to_set().contains(a) implies vstd::set_lib::set_int_range(
                0,
                n,
            ).contains(a) by {
                let i = choose|i: int| 0 <= i < f.len() && f[i] == a;
                assert(0 <= f[i] < n);
            }
        }
        vstd::set_lib::lemma_subset_equality(f.to_set(), vstd::set_lib::set_int_range(0, n));
        assert forall|j: int| 0 <= j < n implies #[trigger] f.contains(j) by {
            assert(vstd::set_lib::set_int_range(0, n).contains(j));
            assert(f.to_set().contains(j));
        }
        assert(is_permutation(f, n));
        assert(forall|k: int| 0 <= k < n ==> ings[k].test(occ[#[trigger] f[k]]));
    }
    if input.ingredient_count == n && exists|f: Seq<int>|
        is_permutation(f, n) && forall|k: int| 0 <= k < n ==> ings[k].test(occ[#[trigger] f[k]]) {
        let f = choose|f: Seq<int>|
            is_permutation(f, n) && forall|k: int| 0 <= k < n ==> ings[k].test(occ[#[trigger] f[k]]);
        assert(is_assignment(ings, occ, f));
    }
}

proof fn lemma_extend_assignment(
    ings: Seq<IngredientModel>,
    items: Seq<ItemStackModel>,
    used: Seq<bool>,
    j: int,
    g: Seq<int>,
)
    requires
        ings.len() > 0,
        0 <= j < items.len(),
        used.len() == items.len(),
        !used[j],
        ings[0].test(items[j]),
        is_assignment(ings.drop_first(), items, g),
        avoids(g, used.update(j, true)),
    ensures
        is_assignment(ings, items, seq![j] + g),
        avoids(seq![j] + g, used),
        can_assign(ings, items, used),
{
    let f = seq![j] + g;
    assert forall|i: int| 0 <= i < f.len() implies 0 <= #[trigger] f[i] < items.len() && ings[i].test(
        items[f[i]],
    ) by {
        if i > 0 {
            assert(f[i] == g[i - 1]);
            assert(ings[i] == ings.drop_first()[i - 1]);
        }
    }
    assert forall|a: int, b: int| 0 <= a < b < f.len() implies f[a] != f[b] by {
        if a > 0 {
            assert(f[a] == g[a - 1]);
        } else {
            assert(!used.update(j, true)[g[b - 1]]);
        }
        assert(f[b] == g[b - 1]);
    }
    assert forall|i: int| 0 <= i < f.len() implies !used[#[trigger] f[i]] by {
        if i > 0 {
            assert(f[i] == g[i - 1]);
            assert(!used.update(j, true)[g[i - 1]]);
        }
    }
}

proof fn lemma_restrict_assignment(
    ings: Seq<IngredientModel>,
    items: Seq<ItemStackModel>,
    used: Seq<bool>,
    f: Seq<int>,
)
    requires
        ings.len() > 0,
        used.len() == items.len(),
        is_assignment(ings, items, f),
        avoids(f, used),
    ensures
        is_assignment(ings.drop_first(), items, f.drop_first()),
        avoids(f.drop_first(), used.update(f[0], true)),
        can_assign(ings.drop_first(), items, used.update(f[0], true)),
{
    let g = f.drop_first();
    assert forall|i: int| 0 <= i < g.len() implies 0 <= #[trigger] g[i] < items.len()
        && ings.drop_first()[i].test(items[g[i]]) by {
        assert(g[i] == f[i + 1]);
    }
    assert forall|a: int, b: int| 0 <= a < b < g.len() implies g[a] != g[b] by {
        assert(g[a] == f[a + 1]);
        assert(g[b] == f[b + 1]);
    }
    assert forall|i: int| 0 <= i < g.len() implies !used.update(f[0], true)[#[trigger] g[i]] by {
        assert(g[i] == f[i + 1]);
        assert(f[0] != f[i + 1]);
    }
}

/// Backtracking search for distinct unused items for `ingredients[start..]`.
fn match_shapeless_ingredients(
    ingredients: &Vec<Ingredient>,
    start: usize,
    items: &Vec<&ItemStack>,
    used: &mut Vec<bool>,
) -> (r: bool)
    requires
        start <= ingredients@.len(),
        old(used)@.len() == items@.len(),
    ensures
        r == can_assign(
            crate::ingredient::ingredients_view(ingredients@).skip(start as int),
            refs_view(items@),
            old(used)@,
        ),
        final(used)@.len() == old(used)@.len(),
        !r ==> final(used)@ == old(used)@,
    decreases ingredients@.len() - start,
{
    let ghost ings = crate::ingredient::ingredients_view(ingredients@).skip(start as int);
    let ghost its = refs_view(items@);
    let ghost used0 = used@;
    if start == ingredients.len() {
        let ghost f = Seq::<int>::empty();
        assert(is_assignment(ings, its, f));
        assert(avoids(f, used0));
        return true;
    }
    assert(ings.drop_first() =~= crate::ingredient::ingredients_view(ingredients@).skip(
        start as int + 1,
    ));
    let n_ingredients = ingredients.len();
    let mut item_index: usize = 0;
    while item_index < items.len()
        invariant
            start < ingredients@.len(),
            n_ingredients == ingredients@.len(),
            ings == crate::ingredient::ingredients_view(ingredients@).skip(start as int),
            ings.drop_first() == crate::ingredient::ingredients_view(ingredients@).skip(
                start as int + 1,
            ),
            its == refs_view(items@),
            used@ == used0,
            used0 == old(used)@,
            used0.len() == its.len(),
            item_index <= items@.len(),
            forall|f: Seq<int>|
                is_assignment(ings, its, f) && avoids(f, used0) ==> f[0] >= item_index,
        decreases items@.len() - item_index,
    {
        if used[item_index] || !ingredients[start].test(items[item_index]) {
            assert forall|f: Seq<int>| is_assignment(ings, its, f) && avoids(f, used0) implies f[0]
                >= item_index + 1 by {
                assert(ings[0] == ingredients@[start as int]@);
                if f[0] == item_index {
                    assert(!used0[f[0]]);
                }
            }
            item_index += 1;
            continue;
        }
        used.set(item_index, true);
        assert(used@ == used0.update(item_index as int, true));
        let found = match_shapeless_ingredients(ingredients, start + 1, items, used);
        if found {
            proof {
                assert(can_assign(ings.drop_first(), its, used0.update(item_index as int, true)));
                let g = choose|g: Seq<int>|
                    is_assignment(ings.drop_first(), its, g) && avoids(g, used0.update(item_index as int, true));
                assert(ings[0] == ingredients@[start as int]@);
                lemma_extend_assignment(ings, its, used0, item_index as int, g);
            }
            return true;
        }
        used.set(item_index, false);
        proof {
            assert(used@ =~= used0);
            assert forall|f: Seq<int>| is_assignment(ings, its, f) && avoids(f, used0) implies f[0]
                >= item_index + 1 by {
                if f[0] == item_index {
                    lemma_restrict_assignment(ings, its, used0, f);
                }
            }
        }
        item_index += 1;
    }
    proof {
        assert forall|f: Seq<int>| is_assignment(ings, its, f) implies !avoids(f, used0) by {
            if avoids(f, used0) {
                assert(f[0] < its.len());
            }
        }
    }
    false
}

pub fn shapeless(recipe: &ShapelessRecipe, input: &CraftingInput) -> (r: bool)
    requires
        input.wf(),
    ensures
        r == spec_shapeless(recipe, input),
{
    if input.ingredient_count() != recipe.ingredients.len() {
        return false;
    }
    let items = collect_occupied(input);
    let mut used: Vec<bool> = Vec::new();
    let mut k: usize = 0;
    while k < items.len()
        invariant
            k <= items@.len(),
            used@.len() == k,
            forall|j: int| 0 <= j < k ==> !used@[j],
        decreases items@.len() - k,
    {
        used.push(false);
        k += 1;
    }
    let ghost used0 = used@;
    let r = match_shapeless_ingredients(&recipe.ingredients, 0, &items, &mut used);
    proof {
        assert(crate::ingredient::ingredients_view(recipe.ingredients@).skip(0)
            =~= recipe.ingredients_view());
        if exists|f: Seq<int>| is_assignment(recipe.ingredients_view(), refs_view(items@), f) {
            let f = choose|f: Seq<int>| is_assignment(recipe.ingredients_view(), refs_view(items@), f);
            assert(avoids(f, used0));
        }
    }
    r
}

// ---------------------------------------------------------------- fixed 3x3 layouts

/// Side of the crafting-table grid.
pub const CRAFTING_TABLE_GRID_SIZE: usize = 3;
/// Number of slots of the crafting-table grid.
pub const CRAFTING_TABLE_SLOT_COUNT: usize = 9;
/// Row and column of the grid's centre.
pub const CRAFTING_TABLE_CENTER: usize = 1;
/// Last row and column of the grid.
pub const CRAFTING_TABLE_LAST_INDEX: usize = 2;
/// Slot index of the grid's centre.
pub const CRAFTING_TABLE_CENTER_SLOT: usize = 4;
/// Number of sherds or bricks in a decorated pot.
pub const DECORATED_POT_INGREDIENT_COUNT: usize = 4;
/// Map scales range below this bound.
pub const MAX_MAP_SCALE: u8 = 4;

/// Four stacks in a diamond on a full 3x3 grid: back on top, left and right in
/// the middle row, front at the bottom.
pub open spec fn spec_decorated_pot(r: &DecoratedPotRecipe, input: &CraftingInput) -> bool {
    &&& input.width == 3
    &&& input.height == 3
    &&& input.ingredient_count == 4
    &&& r.back@.test(input.stack_at(1, 0))
    &&& r.left@.test(input.stack_at(0, 1))
    &&& r.right@.test(input.stack_at(2, 1))
    &&& r.front@.test(input.stack_at(1, 2))
}

pub fn decorated_pot(recipe: &DecoratedPotRecipe, input: &CraftingInput) -> (r: bool)
    requires
        input.wf(),
    ensures
        r == spec_decorated_pot(recipe, input),
{
    input.width == CRAFTING_TABLE_GRID_SIZE && input.height == CRAFTING_TABLE_GRID_SIZE
        && input.ingredient_count() == DECORATED_POT_INGREDIENT_COUNT && recipe.back.test(
        input.get(CRAFTING_TABLE_CENTER, 0),
    ) && recipe.left.test(input.get(0, CRAFTING_TABLE_CENTER)) && recipe.right.test(
        input.get(CRAFTING_TABLE_LAST_INDEX, CRAFTING_TABLE_CENTER),
    ) && recipe.front.test(input.get(CRAFTING_TABLE_CENTER, CRAFTING_TABLE_LAST_INDEX))
}

/// A full 3x3 grid with `center` accepted in the middle and `ring` everywhere else.
pub open spec fn ringed_center(center: IngredientModel, ring: IngredientModel, input: &CraftingInput) -> bool {
    &&& input.width == 3
    &&& input.height == 3
    &&& input.ingredient_count == 9
    &&& forall|x: int, y: int|
        0 <= x < 3 && 0 <= y < 3 ==> (if x == 1 && y == 1 {
            center
        } else {
            ring
        }).test(#[trigger] input.stack_at(x, y))
}

fn matches_ringed_center(center: &Ingredient, ring: &Ingredient, input: &CraftingInput) -> (r: bool)
    requires
        input.wf(),
    ensures
        r == ringed_center(center@, ring@, input),
{
    if input.width != CRAFTING_TABLE_GRID_SIZE || input.height != CRAFTING_TABLE_GRID_SIZE
        || input.ingredient_count() != CRAFTING_TABLE_SLOT_COUNT {
        return false;
    }
    let mut y: usize = 0;
    while y < CRAFTING_TABLE_GRID_SIZE
        invariant
            input.wf(),
            input.width == 3,
            input.height == 3,
            y <= 3,
            forall|xx: int, yy: int|
                0 <= xx < 3 && 0 <= yy < y ==> (if xx == 1 && yy == 1 {
                    center@
                } else {
                    ring@
                }).test(#[trigger] input.stack_at(xx, yy)),
        decreases 3 - y,
    {
        let mut x: usize = 0;
        while x < CRAFTING_TABLE_GRID_SIZE
            invariant
                input.wf(),
                input.width == 3,
                input.height == 3,
                y < 3,
                x <= 3,
                forall|xx: int, yy: int|
                    0 <= xx < 3 && (0 <= yy < y || (yy == y && xx < x)) ==> (if xx == 1 && yy == 1 {
                        center@
                    } else {
                        ring@
                    }).test(#[trigger] input.stack_at(xx, yy)),
            decreases 3 - x,
        {
            let ingredient = if x == CRAFTING_TABLE_CENTER && y == CRAFTING_TABLE_CENTER {
                center
            } else {
                ring
            };
            if !ingredient.test(input.get(x, y)) {
                return false;
            }
            x += 1;
        }
        y += 1;
    }
    true
}

/// A full 3x3 grid with the source in the centre and material in the other eight slots.
pub open spec fn spec_imbue(r: &ImbueRecipe, input: &CraftingInput) -> bool {
    ringed_center(r.source@, r.material@, input)
}

pub fn imbue(recipe: &ImbueRecipe, input: &CraftingInput) -> (r: bool)
    requires
        input.wf(),
    ensures
        r == spec_imbue(recipe, input),
{
    matches_ringed_center(&recipe.source, &recipe.material, input)
}

/// A map ringed by material, whose map data (attached to the centre slot) says
/// it is no exploration map and can still grow.
pub open spec fn spec_map_extending(r: &MapExtendingRecipe, input: &CraftingInput) -> bool {
    &&& ringed_center(r.map@, r.material@, input)
    &&& input.map_data@.len() > 4
    &&& input.map_data@[4] matches Some(d) && !d.exploration_map && d.scale < MAX_MAP_SCALE
}

pub fn map_extending(recipe: &MapExtendingRecipe, input: &CraftingInput) -> (r: bool)
    requires
        input.wf(),
    ensures
        r == spec_map_extending(recipe, input),
{
    if !matches_ringed_center(&recipe.map, &recipe.material, input) {
        return false;
    }
    match input.map_data(CRAFTING_TABLE_CENTER_SLOT) {
        Some(data) => !data.exploration_map && data.scale < MAX_MAP_SCALE,
        None => false,
    }
}

// ---------------------------------------------------------------- dispatch

/// Whether `recipe` accepts `input`, by the rule of its kind.
pub open spec fn spec_matches(recipe: &CraftingRecipe, input: &CraftingInput) -> bool {
    match recipe {
        CraftingRecipe::Shaped(r) => spec_shaped(r, input),
        CraftingRecipe::Shapeless(r) => spec_shapeless(r, input),
        CraftingRecipe::Transmute(r) => spec_transmute(r, input),
        CraftingRecipe::Dye(r) => spec_dye(r, input),
        CraftingRecipe::DecoratedPot(r) => spec_decorated_pot(r, input),
        CraftingRecipe::Imbue(r) => spec_imbue(r, input),
        CraftingRecipe::BannerDuplicate(r) => spec_banner_duplicate(r, input),
        CraftingRecipe::BookCloning(r) => spec_book_cloning(r, input),
        CraftingRecipe::FireworkRocket(r) => spec_firework_rocket(r, input),
        CraftingRecipe::FireworkStar(r) => spec_firework_star(r, input),
        CraftingRecipe::FireworkStarFade(r) => spec_firework_star_fade(r, input),
        CraftingRecipe::MapExtending(r) => spec_map_extending(r, input),
        CraftingRecipe::RepairItem(_) => spec_repair_item(input),
        CraftingRecipe::ShieldDecoration(r) => spec_shield_decoration(r, input),
    }
}

/// A crafting recipe is well formed when its shaped pattern fills its rectangle.
pub open spec fn recipe_wf(recipe: &CraftingRecipe) -> bool {
    recipe matches CraftingRecipe::Shaped(r) ==> r.wf()
}

pub fn matches(recipe: &CraftingRecipe, input: &CraftingInput) -> (r: bool)
    requires
        recipe_wf(recipe),
        input.wf(),
    ensures
        r == spec_matches(recipe, input),
{
    match recipe {
        CraftingRecipe::Shaped(r) => shaped(r, input),
        CraftingRecipe::Shapeless(r) => shapeless(r, input),
        CraftingRecipe::Transmute(r) => transmute(r, input),
        CraftingRecipe::Dye(r) => dye(r, input),
        CraftingRecipe::DecoratedPot(r) => decorated_pot(r, input),
        CraftingRecipe::Imbue(r) => imbue(r, input),
        CraftingRecipe::BannerDuplicate(r) => banner_duplicate(r, input),
        CraftingRecipe::BookCloning(r) => book_cloning(r, input),
        CraftingRecipe::FireworkRocket(r) => firework_rocket(r, input),
        CraftingRecipe::FireworkStar(r) => firework_star(r, input),
        CraftingRecipe::FireworkStarFade(r) => firework_star_fade(r, input),
        CraftingRecipe::MapExtending(r) => map_extending(r, input),
        CraftingRecipe::RepairItem(r) => repair_item(r, input),
        CraftingRecipe::ShieldDecoration(r) => shield_decoration(r, input),
    }
}

impl RecipeInput for CraftingInput {
    open spec fn input_wf(&self) -> bool {
        self.wf()
    }

    /// No stack of the grid is occupied.
    open spec fn spec_is_empty(&self) -> bool {
        self.ingredient_count == 0
    }

    fn is_empty(&self) -> (r: bool) {
        self.ingredient_count == 0
    }
}

impl RecipeData for CraftingRecipe {
    open spec fn data_wf(&self) -> bool {
        recipe_wf(self)
    }

    open spec fn data_type_key(&self) -> &'static str {
        crate::recipe::vanilla::CRAFTING_DATA
    }

    fn properties(&self) -> Option<&RecipeProperties>
        returns
            Some(self.spec_properties()),
    {
        Some(CraftingRecipe::properties(self))
    }
}

impl RecipeMatches<CraftingInput> for CraftingRecipe {
    open spec fn spec_matches(&self, input: &CraftingInput) -> bool {
        spec_matches(self, input)
    }

    fn matches(&self, input: &CraftingInput) -> (r: bool) {
        crate::recipe::matching::matches(self, input)
    }
}

} // verus!
