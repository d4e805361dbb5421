//! Matching rules of the special crafting recipes, which classify every
//! non-empty stack of the grid instead of following a pattern.

use vstd::prelude::*;

use crate::ingredient::IngredientModel;
use crate::item_stack::{spec_same_item_same_components, ItemStack, ItemStackModel};
use crate::recipe::crafting::{
    BannerDuplicateRecipe, BookCloningRecipe, CraftingInput, DyeRecipe, FireworkRocketRecipe,
    FireworkStarFadeRecipe, FireworkStarRecipe, RepairItemRecipe, ShieldDecorationRecipe,
    TransmuteRecipe,
};
use crate::recipe::matching::{collect_occupied, occupied_stacks, refs_view};
use crate::util::{
    count, lemma_count_prefix_le, lemma_count_step, lemma_count_two, lemma_take_full,
};

verus! {

/// The stack carries a dye color, set on it or by default for its item.
pub open spec fn has_dye(s: ItemStackModel) -> bool {
    s.dye() is Some
}

// ---------------------------------------------------------------- dye

pub open spec fn dye_target(r: IngredientModel) -> spec_fn(ItemStackModel) -> bool {
    |s: ItemStackModel| r.test(s)
}

pub open spec fn dye_dye(t: IngredientModel, d: IngredientModel) -> spec_fn(ItemStackModel) -> bool {
    |s: ItemStackModel| !t.test(s) && d.test(s) && has_dye(s)
}

/// Exactly one target stack, at least one dye stack carrying a colour, and nothing else.
pub open spec fn spec_dye(r: &DyeRecipe, input: &CraftingInput) -> bool {
    let occ = occupied_stacks(input.stacks());
    &&& input.ingredient_count >= 2
    &&& forall|j: int| 0 <= j < occ.len() ==> (dye_target(r.target@))(#[trigger] occ[j]) || (dye_dye(r.target@, r.dye@))(occ[j])
    &&& count(occ, dye_target(r.target@)) == 1
    &&& count(occ, dye_dye(r.target@, r.dye@)) >= 1
}

pub fn dye(recipe: &DyeRecipe, input: &CraftingInput) -> (r: bool)
    requires
        input.wf(),
    ensures
        r == spec_dye(recipe, input),
{
    if input.ingredient_count() < 2 {
        return false;
    }
    let items = collect_occupied(input);
    let ghost occ = refs_view(items@);
    let ghost t = dye_target(recipe.target@);
    let ghost d = dye_dye(recipe.target@, recipe.dye@);
    let mut has_target = false;
    let mut has_dye = false;
    let mut k: usize = 0;
    while k < items.len()
        invariant
            k <= items@.len(),
            occ == refs_view(items@),
            occ == occupied_stacks(input.stacks()),
            t == dye_target(recipe.target@),
            d == dye_dye(recipe.target@, recipe.dye@),
            forall|j: int| 0 <= j < k ==> t(#[trigger] occ[j]) || d(occ[j]),
            has_target == (count(occ.take(k as int), t) == 1),
            count(occ.take(k as int), t) <= 1,
            has_dye == (count(occ.take(k as int), d) >= 1),
        decreases items@.len() - k,
    {
        proof {
            lemma_count_step(occ, t, k as int);
            lemma_count_step(occ, d, k as int);
        }
        let stack = items[k];
        if recipe.target.test(stack) {
            if has_target {
                proof {
                    lemma_count_prefix_le(occ, t, k as int + 1);
                }
                return false;
            }
            has_target = true;
        } else if recipe.dye.test(stack) && stack.get_dye().is_some() {
            has_dye = true;
        } else {
            assert(!t(occ[k as int]) && !d(occ[k as int]));
            return false;
        }
        k += 1;
    }
    proof {
        lemma_take_full(occ);
    }
    has_target && has_dye
}

// ---------------------------------------------------------------- banner duplicate

/// Most pattern layers a banner may carry.
pub const MAX_BANNER_PATTERNS: usize = 6;

/// Number of banner pattern layers on the stack (none when it has no patterns).
pub open spec fn pattern_count(s: ItemStackModel) -> int {
    match s.components.banner_patterns {
        Some(layers) => layers.len() as int,
        None => 0,
    }
}

pub open spec fn patterned_banner() -> spec_fn(ItemStackModel) -> bool {
    |s: ItemStackModel| pattern_count(s) > 0
}

pub open spec fn blank_banner() -> spec_fn(ItemStackModel) -> bool {
    |s: ItemStackModel| pattern_count(s) == 0
}

/// Two banners: one with patterns (at most six) and one without.
pub open spec fn spec_banner_duplicate(r: &BannerDuplicateRecipe, input: &CraftingInput) -> bool {
    let occ = occupied_stacks(input.stacks());
    &&& input.ingredient_count == 2
    &&& forall|j: int| 0 <= j < occ.len() ==> r.banner@.test(#[trigger] occ[j]) && pattern_count(occ[j]) <= MAX_BANNER_PATTERNS
    &&& count(occ, patterned_banner()) == 1
    &&& count(occ, blank_banner()) == 1
}

fn stack_pattern_count(stack: &ItemStack) -> (r: usize)
    ensures
        r == pattern_count(stack@),
{
    match &stack.components.banner_patterns {
        Some(layers) => layers.len(),
        None => 0,
    }
}

pub fn banner_duplicate(recipe: &BannerDuplicateRecipe, input: &CraftingInput) -> (r: bool)
    requires
        input.wf(),
    ensures
        r == spec_banner_duplicate(recipe, input),
{
    if input.ingredient_count() != 2 {
        return false;
    }
    let items = collect_occupied(input);
    let ghost occ = refs_view(items@);
    let ghost src = patterned_banner();
    let ghost tgt = blank_banner();
    let mut has_target = false;
    let mut has_source = false;
    let mut k: usize = 0;
    while k < items.len()
        invariant
            k <= items@.len(),
            occ == refs_view(items@),
            occ == occupied_stacks(input.stacks()),
            src == patterned_banner(),
            tgt == blank_banner(),
            forall|j: int| 0 <= j < k ==> recipe.banner@.test(#[trigger] occ[j]) && pattern_count(occ[j]) <= MAX_BANNER_PATTERNS,
            has_source == (count(occ.take(k as int), src) == 1),
            count(occ.take(k as int), src) <= 1,
            has_target == (count(occ.take(k as int), tgt) == 1),
            count(occ.take(k as int), tgt) <= 1,
        decreases items@.len() - k,
    {
        proof {
            lemma_count_step(occ, src, k as int);
            lemma_count_step(occ, tgt, k as int);
        }
        let stack = items[k];
        if !recipe.banner.test(stack) {
            return false;
        }
        let patterns = stack_pattern_count(stack);
        if patterns > MAX_BANNER_PATTERNS {
            return false;
        }
        if patterns > 0 {
            if has_source {
                proof {
                    lemma_count_prefix_le(occ, src, k as int + 1);
                }
                return false;
            }
            has_source = true;
        } else {
            if has_target {
                proof {
                    lemma_count_prefix_le(occ, tgt, k as int + 1);
                }
                return false;
            }
            has_target = true;
        }
        k += 1;
    }
    proof {
        lemma_take_full(occ);
    }
    has_source && has_target
}

// ---------------------------------------------------------------- book cloning

pub open spec fn book_source(src: IngredientModel) -> spec_fn(ItemStackModel) -> bool {
    |s: ItemStackModel| src.test(s)
}

pub open spec fn book_material(src: IngredientModel, mat: IngredientModel) -> spec_fn(ItemStackModel) -> bool {
    |s: ItemStackModel| !src.test(s) && mat.test(s)
}

/// The source stack holds written content whose generation lies in `min..=max`.
pub open spec fn copyable_book(s: ItemStackModel, min: i32, max: i32) -> bool {
    s.components.written_book_content matches Some(c) && min <= c.generation <= max
}

/// One written book of an allowed generation and at least one material stack.
pub open spec fn spec_book_cloning(r: &BookCloningRecipe, input: &CraftingInput) -> bool {
    let occ = occupied_stacks(input.stacks());
    &&& input.ingredient_count >= 2
    &&& forall|j: int| 0 <= j < occ.len() ==> ((book_source(r.source@))(#[trigger] occ[j]) && copyable_book(occ[j], r.min_generation, r.max_generation)) || (book_material(r.source@, r.material@))(occ[j])
    &&& count(occ, book_source(r.source@)) == 1
    &&& count(occ, book_material(r.source@, r.material@)) >= 1
}

pub fn book_cloning(recipe: &BookCloningRecipe, input: &CraftingInput) -> (r: bool)
    requires
        input.wf(),
    ensures
        r == spec_book_cloning(recipe, input),
{
    if input.ingredient_count() < 2 {
        return false;
    }
    let items = collect_occupied(input);
    let ghost occ = refs_view(items@);
    let ghost src = book_source(recipe.source@);
    let ghost mat = book_material(recipe.source@, recipe.material@);
    let mut has_source = false;
    let mut has_material = false;
    let mut k: usize = 0;
    while k < items.len()
        invariant
            k <= items@.len(),
            occ == refs_view(items@),
            occ == occupied_stacks(input.stacks()),
            src == book_source(recipe.source@),
            mat == book_material(recipe.source@, recipe.material@),
            forall|j: int| 0 <= j < k ==> (src(#[trigger] occ[j]) && copyable_book(occ[j], recipe.min_generation, recipe.max_generation)) || mat(occ[j]),
            has_source == (count(occ.take(k as int), src) == 1),
            count(occ.take(k as int), src) <= 1,
            has_material == (count(occ.take(k as int), mat) >= 1),
        decreases items@.len() - k,
    {
        proof {
            lemma_count_step(occ, src, k as int);
            lemma_count_step(occ, mat, k as int);
        }
        let stack = items[k];
        if recipe.source.test(stack) {
            let generation = match stack.components.written_book_content {
                Some(content) => content.generation,
                None => {
                    return false;
                },
            };
            if has_source {
                proof {
                    lemma_count_prefix_le(occ, src, k as int + 1);
                }
                return false;
            }
            if generation < recipe.min_generation || generation > recipe.max_generation {
                return false;
            }
            has_source = true;
        } else if recipe.material.test(stack) {
            has_material = true;
        } else {
            return false;
        }
        k += 1;
    }
    proof {
        lemma_take_full(occ);
    }
    has_source && has_material
}

// ---------------------------------------------------------------- firework rocket

/// Fewest and most gunpowder stacks a rocket takes.
pub const MIN_FIREWORK_ROCKET_FUEL_COUNT: usize = 1;
pub const MAX_FIREWORK_ROCKET_FUEL_COUNT: usize = 3;

pub open spec fn rocket_shell(sh: IngredientModel) -> spec_fn(ItemStackModel) -> bool {
    |s: ItemStackModel| sh.test(s)
}

pub open spec fn rocket_fuel(sh: IngredientModel, fu: IngredientModel) -> spec_fn(ItemStackModel) -> bool {
    |s: ItemStackModel| !sh.test(s) && fu.test(s)
}

pub open spec fn rocket_star(sh: IngredientModel, fu: IngredientModel, st: IngredientModel) -> spec_fn(ItemStackModel) -> bool {
    |s: ItemStackModel| !sh.test(s) && !fu.test(s) && st.test(s)
}

/// One shell, one to three fuel stacks, and any number of stars.
pub open spec fn spec_firework_rocket(r: &FireworkRocketRecipe, input: &CraftingInput) -> bool {
    let occ = occupied_stacks(input.stacks());
    &&& input.ingredient_count >= 2
    &&& forall|j: int| 0 <= j < occ.len() ==> (rocket_shell(r.shell@))(#[trigger] occ[j]) || (rocket_fuel(r.shell@, r.fuel@))(occ[j]) || (rocket_star(r.shell@, r.fuel@, r.star@))(occ[j])
    &&& count(occ, rocket_shell(r.shell@)) == 1
    &&& MIN_FIREWORK_ROCKET_FUEL_COUNT <= count(occ, rocket_fuel(r.shell@, r.fuel@)) <= MAX_FIREWORK_ROCKET_FUEL_COUNT
}

pub fn firework_rocket(recipe: &FireworkRocketRecipe, input: &CraftingInput) -> (r: bool)
    requires
        input.wf(),
    ensures
        r == spec_firework_rocket(recipe, input),
{
    if input.ingredient_count() < 2 {
        return false;
    }
    let items = collect_occupied(input);
    let ghost occ = refs_view(items@);
    let ghost sh = rocket_shell(recipe.shell@);
    let ghost fu = rocket_fuel(recipe.shell@, recipe.fuel@);
    let ghost st = rocket_star(recipe.shell@, recipe.fuel@, recipe.star@);
    let mut has_shell = false;
    let mut fuel_count: usize = 0;
    let mut k: usize = 0;
    while k < items.len()
        invariant
            k <= items@.len(),
            occ == refs_view(items@),
            occ == occupied_stacks(input.stacks()),
            sh == rocket_shell(recipe.shell@),
            fu == rocket_fuel(recipe.shell@, recipe.fuel@),
            st == rocket_star(recipe.shell@, recipe.fuel@, recipe.star@),
            forall|j: int| 0 <= j < k ==> sh(#[trigger] occ[j]) || fu(occ[j]) || st(occ[j]),
            has_shell == (count(occ.take(k as int), sh) == 1),
            count(occ.take(k as int), sh) <= 1,
            fuel_count == count(occ.take(k as int), fu),
            fuel_count <= MAX_FIREWORK_ROCKET_FUEL_COUNT,
        decreases items@.len() - k,
    {
        proof {
            lemma_count_step(occ, sh, k as int);
            lemma_count_step(occ, fu, k as int);
        }
        let stack = items[k];
        if recipe.shell.test(stack) {
            if has_shell {
                proof {
                    lemma_count_prefix_le(occ, sh, k as int + 1);
                }
                return false;
            }
            has_shell = true;
        } else if recipe.fuel.test(stack) {
            fuel_count += 1;
            if fuel_count > MAX_FIREWORK_ROCKET_FUEL_COUNT {
                proof {
                    lemma_count_prefix_le(occ, fu, k as int + 1);
                }
                return false;
            }
        } else if !recipe.star.test(stack) {
            return false;
        }
        k += 1;
    }
    proof {
        lemma_take_full(occ);
    }
    has_shell && fuel_count >= MIN_FIREWORK_ROCKET_FUEL_COUNT
}

// ---------------------------------------------------------------- firework star

/// Whether one of the shape ingredients accepts the stack.
pub open spec fn any_shape(shapes: Seq<IngredientModel>, s: ItemStackModel) -> bool {
    exists|i: int| 0 <= i < shapes.len() && #[trigger] shapes[i].test(s)
}

pub open spec fn shape_ingredients(r: &FireworkStarRecipe) -> Seq<IngredientModel> {
    r.shapes@.map_values(|p: (crate::components::FireworkExplosionShape, crate::ingredient::Ingredient)| p.1@)
}

pub open spec fn star_twinkle(r: &FireworkStarRecipe) -> spec_fn(ItemStackModel) -> bool {
    |s: ItemStackModel| r.twinkle@.test(s)
}

pub open spec fn star_trail(r: &FireworkStarRecipe) -> spec_fn(ItemStackModel) -> bool {
    |s: ItemStackModel| !r.twinkle@.test(s) && r.trail@.test(s)
}

pub open spec fn star_fuel(r: &FireworkStarRecipe) -> spec_fn(ItemStackModel) -> bool {
    |s: ItemStackModel| !r.twinkle@.test(s) && !r.trail@.test(s) && r.fuel@.test(s)
}

pub open spec fn star_dye(r: &FireworkStarRecipe) -> spec_fn(ItemStackModel) -> bool {
    |s: ItemStackModel| !r.twinkle@.test(s) && !r.trail@.test(s) && !r.fuel@.test(s) && r.dye@.test(s) && has_dye(s)
}

pub open spec fn star_shape(r: &FireworkStarRecipe) -> spec_fn(ItemStackModel) -> bool {
    |s: ItemStackModel| !r.twinkle@.test(s) && !r.trail@.test(s) && !r.fuel@.test(s) && !(r.dye@.test(s) && has_dye(s)) && any_shape(shape_ingredients(r), s)
}

/// Exactly one fuel stack, at least one dye, at most one twinkle, trail and
/// shape modifier, and nothing else.
pub open spec fn spec_firework_star(r: &FireworkStarRecipe, input: &CraftingInput) -> bool {
    let occ = occupied_stacks(input.stacks());
    &&& input.ingredient_count >= 2
    &&& forall|j: int| 0 <= j < occ.len() ==> (star_twinkle(r))(#[trigger] occ[j]) || (star_trail(r))(occ[j]) || (star_fuel(r))(occ[j]) || (star_dye(r))(occ[j]) || (star_shape(r))(occ[j])
    &&& count(occ, star_twinkle(r)) <= 1
    &&& count(occ, star_trail(r)) <= 1
    &&& count(occ, star_fuel(r)) == 1
    &&& count(occ, star_dye(r)) >= 1
    &&& count(occ, star_shape(r)) <= 1
}

fn matches_any_shape(recipe: &FireworkStarRecipe, stack: &ItemStack) -> (r: bool)
    ensures
        r == any_shape(shape_ingredients(recipe), stack@),
{
    let mut i: usize = 0;
    while i < recipe.shapes.len()
        invariant
            i <= recipe.shapes@.len(),
            forall|j: int| 0 <= j < i ==> !(#[trigger] shape_ingredients(recipe)[j]).test(stack@),
        decreases recipe.shapes@.len() - i,
    {
        if recipe.shapes[i].1.test(stack) {
            assert(shape_ingredients(recipe)[i as int].test(stack@));
            return true;
        }
        i += 1;
    }
    false
}

pub fn firework_star(recipe: &FireworkStarRecipe, input: &CraftingInput) -> (r: bool)
    requires
        input.wf(),
    ensures
        r == spec_firework_star(recipe, input),
{
    if input.ingredient_count() < 2 {
        return false;
    }
    let items = collect_occupied(input);
    let ghost occ = refs_view(items@);
    let ghost tw = star_twinkle(recipe);
    let ghost tr = star_trail(recipe);
    let ghost fu = star_fuel(recipe);
    let ghost dy = star_dye(recipe);
    let ghost sh = star_shape(recipe);
    let mut has_fuel = false;
    let mut has_dye = false;
    let mut has_shape = false;
    let mut has_trail = false;
    let mut has_twinkle = false;
    let mut k: usize = 0;
    while k < items.len()
        invariant
            k <= items@.len(),
            occ == refs_view(items@),
            occ == occupied_stacks(input.stacks()),
            tw == star_twinkle(recipe),
            tr == star_trail(recipe),
            fu == star_fuel(recipe),
            dy == star_dye(recipe),
            sh == star_shape(recipe),
            forall|j: int| 0 <= j < k ==> tw(#[trigger] occ[j]) || tr(occ[j]) || fu(occ[j]) || dy(occ[j]) || sh(occ[j]),
            has_twinkle == (count(occ.take(k as int), tw) == 1),
            count(occ.take(k as int), tw) <= 1,
            has_trail == (count(occ.take(k as int), tr) == 1),
            count(occ.take(k as int), tr) <= 1,
            has_fuel == (count(occ.take(k as int), fu) == 1),
            count(occ.take(k as int), fu) <= 1,
            has_dye == (count(occ.take(k as int), dy) >= 1),
            has_shape == (count(occ.take(k as int), sh) == 1),
            count(occ.take(k as int), sh) <= 1,
        decreases items@.len() - k,
    {
        proof {
            lemma_count_step(occ, tw, k as int);
            lemma_count_step(occ, tr, k as int);
            lemma_count_step(occ, fu, k as int);
            lemma_count_step(occ, dy, k as int);
            lemma_count_step(occ, sh, k as int);
        }
        let stack = items[k];
        if recipe.twinkle.test(stack) {
            if has_twinkle {
                proof {
                    lemma_count_prefix_le(occ, tw, k as int + 1);
                }
                return false;
            }
            has_twinkle = true;
        } else if recipe.trail.test(stack) {
            if has_trail {
                proof {
                    lemma_count_prefix_le(occ, tr, k as int + 1);
                }
                return false;
            }
            has_trail = true;
        } else if recipe.fuel.test(stack) {
            if has_fuel {
                proof {
                    lemma_count_prefix_le(occ, fu, k as int + 1);
                }
                return false;
            }
            has_fuel = true;
        } else if recipe.dye.test(stack) && stack.get_dye().is_some() {
            has_dye = true;
        } else if matches_any_shape(recipe, stack) {
            if has_shape {
                proof {
                    lemma_count_prefix_le(occ, sh, k as int + 1);
                }
                return false;
            }
            has_shape = true;
        } else {
            return false;
        }
        k += 1;
    }
    proof {
        lemma_take_full(occ);
    }
    has_fuel && has_dye
}

// ---------------------------------------------------------------- firework star fade

pub open spec fn fade_dye(d: IngredientModel) -> spec_fn(ItemStackModel) -> bool {
    |s: ItemStackModel| d.test(s) && has_dye(s)
}

pub open spec fn fade_target(d: IngredientModel, t: IngredientModel) -> spec_fn(ItemStackModel) -> bool {
    |s: ItemStackModel| !(d.test(s) && has_dye(s)) && t.test(s)
}

/// One firework star and at least one dye.
pub open spec fn spec_firework_star_fade(r: &FireworkStarFadeRecipe, input: &CraftingInput) -> bool {
    let occ = occupied_stacks(input.stacks());
    &&& input.ingredient_count >= 2
    &&& forall|j: int| 0 <= j < occ.len() ==> (fade_dye(r.dye@))(#[trigger] occ[j]) || (fade_target(r.dye@, r.target@))(occ[j])
    &&& count(occ, fade_target(r.dye@, r.target@)) == 1
    &&& count(occ, fade_dye(r.dye@)) >= 1
}

pub fn firework_star_fade(recipe: &FireworkStarFadeRecipe, input: &CraftingInput) -> (r: bool)
    requires
        input.wf(),
    ensures
        r == spec_firework_star_fade(recipe, input),
{
    if input.ingredient_count() < 2 {
        return false;
    }
    let items = collect_occupied(input);
    let ghost occ = refs_view(items@);
    let ghost d = fade_dye(recipe.dye@);
    let ghost t = fade_target(recipe.dye@, recipe.target@);
    let mut has_target = false;
    let mut has_dye = false;
    let mut k: usize = 0;
    while k < items.len()
        invariant
            k <= items@.len(),
            occ == refs_view(items@),
            occ == occupied_stacks(input.stacks()),
            d == fade_dye(recipe.dye@),
            t == fade_target(recipe.dye@, recipe.target@),
            forall|j: int| 0 <= j < k ==> d(#[trigger] occ[j]) || t(occ[j]),
            has_target == (count(occ.take(k as int), t) == 1),
            count(occ.take(k as int), t) <= 1,
            has_dye == (count(occ.take(k as int), d) >= 1),
        decreases items@.len() - k,
    {
        proof {
            lemma_count_step(occ, t, k as int);
            lemma_count_step(occ, d, k as int);
        }
        let stack = items[k];
        if recipe.dye.test(stack) && stack.get_dye().is_some() {
            has_dye = true;
        } else if recipe.target.test(stack) {
            if has_target {
                proof {
                    lemma_count_prefix_le(occ, t, k as int + 1);
                }
                return false;
            }
            has_target = true;
        } else {
            return false;
        }
        k += 1;
    }
    proof {
        lemma_take_full(occ);
    }
    has_target && has_dye
}

// ---------------------------------------------------------------- shield decoration

pub open spec fn shield_banner(b: IngredientModel) -> spec_fn(ItemStackModel) -> bool {
    |s: ItemStackModel| b.test(s)
}

pub open spec fn shield_target(b: IngredientModel, t: IngredientModel) -> spec_fn(ItemStackModel) -> bool {
    |s: ItemStackModel| !b.test(s) && t.test(s)
}

/// One banner and one shield that carries no pattern layers yet.
pub open spec fn spec_shield_decoration(r: &ShieldDecorationRecipe, input: &CraftingInput) -> bool {
    let occ = occupied_stacks(input.stacks());
    &&& input.ingredient_count == 2
    &&& forall|j: int| 0 <= j < occ.len() ==> (shield_banner(r.banner@))(#[trigger] occ[j]) || ((shield_target(r.banner@, r.target@))(occ[j]) && pattern_count(occ[j]) == 0)
    &&& count(occ, shield_banner(r.banner@)) == 1
    &&& count(occ, shield_target(r.banner@, r.target@)) == 1
}

pub fn shield_decoration(recipe: &ShieldDecorationRecipe, input: &CraftingInput) -> (r: bool)
    requires
        input.wf(),
    ensures
        r == spec_shield_decoration(recipe, input),
{
    if input.ingredient_count() != 2 {
        return false;
    }
    let items = collect_occupied(input);
    let ghost occ = refs_view(items@);
    let ghost b = shield_banner(recipe.banner@);
    let ghost t = shield_target(recipe.banner@, recipe.target@);
    let mut has_banner = false;
    let mut has_target = false;
    let mut k: usize = 0;
    while k < items.len()
        invariant
            k <= items@.len(),
            occ == refs_view(items@),
            occ == occupied_stacks(input.stacks()),
            b == shield_banner(recipe.banner@),
            t == shield_target(recipe.banner@, recipe.target@),
            forall|j: int| 0 <= j < k ==> b(#[trigger] occ[j]) || (t(occ[j]) && pattern_count(occ[j]) == 0),
            has_banner == (count(occ.take(k as int), b) == 1),
            count(occ.take(k as int), b) <= 1,
            has_target == (count(occ.take(k as int), t) == 1),
            count(occ.take(k as int), t) <= 1,
        decreases items@.len() - k,
    {
        proof {
            lemma_count_step(occ, b, k as int);
            lemma_count_step(occ, t, k as int);
        }
        let stack = items[k];
        if recipe.banner.test(stack) {
            if has_banner {
                proof {
                    lemma_count_prefix_le(occ, b, k as int + 1);
                }
                return false;
            }
            has_banner = true;
        } else if recipe.target.test(stack) {
            if has_target {
                proof {
                    lemma_count_prefix_le(occ, t, k as int + 1);
                }
                return false;
            }
            if stack_pattern_count(stack) > 0 {
                return false;
            }
            has_target = true;
        } else {
            return false;
        }
        k += 1;
    }
    proof {
        lemma_take_full(occ);
    }
    has_banner && has_target
}

// ---------------------------------------------------------------- transmute

pub open spec fn transmute_input(i: IngredientModel) -> spec_fn(ItemStackModel) -> bool {
    |s: ItemStackModel| i.test(s)
}

pub open spec fn transmute_material(i: IngredientModel, m: IngredientModel) -> spec_fn(ItemStackModel) -> bool {
    |s: ItemStackModel| !i.test(s) && m.test(s)
}

/// The result count of a transmute with `materials` material stacks: the
/// template's count, plus the material count (capped at `i32::MAX`) when the
/// recipe adds it.
pub open spec fn transmute_result_count(r: &TransmuteRecipe, materials: int) -> int {
    if r.add_material_count_to_result {
        r.result.count + if materials > i32::MAX {
            i32::MAX as int
        } else {
            materials
        }
    } else {
        r.result.count as int
    }
}

/// Transmuting `s` into a single result gives a non-empty stack that differs from `s`.
pub open spec fn transmute_changes(r: &TransmuteRecipe, s: ItemStackModel) -> bool {
    let res = r.result@.apply(1, s.components);
    !res.is_empty() && !spec_same_item_same_components(s, res)
}

/// One input stack plus `min..=max` material stacks; when the result would be a
/// single item, transmuting must actually change the input.
pub open spec fn spec_transmute(r: &TransmuteRecipe, input: &CraftingInput) -> bool {
    let occ = occupied_stacks(input.stacks());
    let materials = count(occ, transmute_material(r.input@, r.material@));
    &&& r.min_material_count < input.ingredient_count <= r.max_material_count + 1
    &&& forall|j: int| 0 <= j < occ.len() ==> (transmute_input(r.input@))(#[trigger] occ[j]) || (transmute_material(r.input@, r.material@))(occ[j])
    &&& count(occ, transmute_input(r.input@)) == 1
    &&& r.min_material_count <= materials <= r.max_material_count
    &&& (transmute_result_count(r, materials as int) != 1 || exists|j: int| 0 <= j < occ.len() && r.input@.test(#[trigger] occ[j]) && transmute_changes(r, occ[j]))
}

/// The stack at `j0` of the non-empty stacks `occ` is the one input of the
/// transmute recipe, every other stack is a material and not an input, there
/// are `min..=max` of those, and, when the result would be a single item,
/// transmuting the input stack changes it.
pub open spec fn transmute_single_input(r: &TransmuteRecipe, occ: Seq<ItemStackModel>, j0: int) -> bool {
    &&& 0 <= j0 < occ.len()
    &&& r.input@.test(occ[j0])
    &&& forall|j: int|
        0 <= j < occ.len() && j != j0 ==> !r.input@.test(#[trigger] occ[j]) && r.material@.test(occ[j])
    &&& r.min_material_count <= occ.len() - 1 <= r.max_material_count
    &&& (transmute_result_count(r, occ.len() - 1) != 1 || transmute_changes(r, occ[j0]))
}

/// A transmute recipe matches exactly when one non-empty stack of the grid is
/// accepted as its input, every other non-empty stack is a material and not an
/// input, there are `min..=max` of those, and, when the result would be a
/// single item, transmuting the input stack changes it.
pub proof fn lemma_transmute_single_input(r: &TransmuteRecipe, input: &CraftingInput)
    requires
        input.wf(),
    ensures
        spec_transmute(r, input) == exists|j0: int|
            #[trigger] transmute_single_input(r, occupied_stacks(input.stacks()), j0),
{
    let occ = occupied_stacks(input.stacks());
    let inp = transmute_input(r.input@);
    let mat = transmute_material(r.input@, r.material@);
    crate::util::lemma_filter_len_count(input.stacks(), crate::recipe::matching::occupied_pred());
    if spec_transmute(r, input) {
        crate::util::lemma_count_split(occ, inp, mat);
        if forall|j: int| 0 <= j < occ.len() ==> !inp(#[trigger] occ[j]) {
            crate::util::lemma_count_all(occ, mat);
        }
        let j0 = choose|j: int| 0 <= j < occ.len() && inp(#[trigger] occ[j]);
        assert forall|j: int| 0 <= j < occ.len() && j != j0 implies !r.input@.test(
            #[trigger] occ[j],
        ) && r.material@.test(occ[j]) by {
            if inp(occ[j]) {
                if j < j0 {
                    crate::util::lemma_count_two(occ, inp, j, j0);
                } else {
                    crate::util::lemma_count_two(occ, inp, j0, j);
                }
            }
            assert(inp(occ[j]) || mat(occ[j]));
        }
        if transmute_result_count(r, occ.len() - 1) == 1 {
            let j1 = choose|j: int|
                0 <= j < occ.len() && r.input@.test(#[trigger] occ[j]) && transmute_changes(r, occ[j]);
            if j1 != j0 {
                assert(!r.input@.test(occ[j1]));
            }
        }
        assert(transmute_single_input(r, occ, j0));
    }
    if exists|j0: int| #[trigger] transmute_single_input(r, occ, j0) {
        let j0 = choose|j0: int| #[trigger] transmute_single_input(r, occ, j0);
        assert forall|j: int| 0 <= j < occ.len() && j != j0 implies mat(#[trigger] occ[j]) by {}
        assert(!mat(occ[j0]));
        crate::util::lemma_count_all_but_one(occ, mat, j0);
        assert forall|j: int| 0 <= j < occ.len() implies inp(#[trigger] occ[j]) != mat(occ[j]) by {
            if j != j0 {
                assert(!r.input@.test(occ[j]));
            }
        }
        crate::util::lemma_count_split(occ, inp, mat);
        assert forall|j: int| 0 <= j < occ.len() implies inp(#[trigger] occ[j]) || mat(occ[j]) by {
            if j != j0 {
                assert(mat(occ[j]));
            }
        }
    }
}

pub fn transmute(recipe: &TransmuteRecipe, input: &CraftingInput) -> (r: bool)
    requires
        input.wf(),
    ensures
        r == spec_transmute(recipe, input),
{
    let ingredient_count = input.ingredient_count();
    if ingredient_count <= recipe.min_material_count || ingredient_count - 1 > recipe.max_material_count {
        return false;
    }
    let items = collect_occupied(input);
    let ghost occ = refs_view(items@);
    let ghost inp = transmute_input(recipe.input@);
    let ghost mat = transmute_material(recipe.input@, recipe.material@);
    let mut found: Option<usize> = None;
    let mut material_count: usize = 0;
    let mut k: usize = 0;
    while k < items.len()
        invariant
            k <= items@.len(),
            occ == refs_view(items@),
            occ == occupied_stacks(input.stacks()),
            inp == transmute_input(recipe.input@),
            mat == transmute_material(recipe.input@, recipe.material@),
            forall|j: int| 0 <= j < k ==> inp(#[trigger] occ[j]) || mat(occ[j]),
            count(occ.take(k as int), inp) <= 1,
            found is None <==> count(occ.take(k as int), inp) == 0,
            found matches Some(f) ==> f < k && inp(occ[f as int]),
            material_count == count(occ.take(k as int), mat),
            material_count <= recipe.max_material_count,
            material_count <= k,
        decreases items@.len() - k,
    {
        proof {
            lemma_count_step(occ, inp, k as int);
            lemma_count_step(occ, mat, k as int);
        }
        let stack = items[k];
        if recipe.input.test(stack) {
            if found.is_some() {
                proof {
                    lemma_count_prefix_le(occ, inp, k as int + 1);
                }
                return false;
            }
            found = Some(k);
        } else if recipe.material.test(stack) {
            material_count += 1;
            if material_count > recipe.max_material_count {
                proof {
                    lemma_count_prefix_le(occ, mat, k as int + 1);
                }
                return false;
            }
        } else {
            return false;
        }
        k += 1;
    }
    proof {
        lemma_take_full(occ);
    }
    let f = match found {
        Some(f) => f,
        None => {
            return false;
        },
    };
    if material_count < recipe.min_material_count {
        return false;
    }
    let capped: i64 = if material_count > 2147483647usize {
        2147483647i64
    } else {
        material_count as i64
    };
    let result_count: i64 = if recipe.add_material_count_to_result {
        recipe.result.count() as i64 + capped
    } else {
        recipe.result.count() as i64
    };
    if result_count != 1 {
        return true;
    }
    let found_input = items[f];
    let result = recipe.result.apply(1, &found_input.components);
    let changes = !result.is_empty() && !ItemStack::is_same_item_same_components(found_input, &result);
    proof {
        assert(occ[f as int] == found_input@);
        if !changes {
            assert forall|j: int| 0 <= j < occ.len() && recipe.input@.test(#[trigger] occ[j]) implies !transmute_changes(recipe, occ[j]) by {
                if j != f {
                    if j < f {
                        lemma_count_two(occ, inp, j, f as int);
                    } else {
                        lemma_count_two(occ, inp, f as int, j);
                    }
                }
            }
        }
    }
    changes
}

// ---------------------------------------------------------------- repair

/// Two stacks of one item, one item each, both carrying damage and a damage limit.
pub open spec fn repairable_pair(a: ItemStackModel, b: ItemStackModel) -> bool {
    &&& a.item() == b.item()
    &&& a.count == 1
    &&& b.count == 1
    &&& a.has_max_damage()
    &&& b.has_max_damage()
    &&& a.has_damage()
    &&& b.has_damage()
}

pub open spec fn spec_repair_item(input: &CraftingInput) -> bool {
    let occ = occupied_stacks(input.stacks());
    input.ingredient_count == 2 && repairable_pair(occ[0], occ[1])
}

pub fn repair_item(recipe: &RepairItemRecipe, input: &CraftingInput) -> (r: bool)
    requires
        input.wf(),
    ensures
        r == spec_repair_item(input),
{
    if input.ingredient_count() != 2 {
        return false;
    }
    let items = collect_occupied(input);
    let first = items[0];
    let second = items[1];
    first.item() == second.item() && first.count() == 1 && second.count() == 1
        && first.has_max_damage() && second.has_max_damage() && first.has_damage()
        && second.has_damage()
}

} // verus!
