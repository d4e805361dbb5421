//! The crafted stack a matched recipe yields for a grid, and the stacks the
//! grid keeps once it is crafted.

use vstd::prelude::*;

use crate::components::{
    default_explosion_model, explosions_view, is_curse, spec_is_curse, Enchantment,
    FireworkExplosion, FireworkExplosionModel, FireworkExplosionShape, Fireworks, FireworksModel,
    PotDecorations, MAX_FIREWORK_EXPLOSIONS, MAX_FLIGHT_DURATION,
};
use crate::ingredient::IngredientModel;
use crate::item_stack::{
    empty_components, empty_stack_model, new_stack_model, DataComponentsModel, ItemStack,
    ItemStackModel,
};
use crate::items::{
    crafting_remainder_item, spec_banner_color, spec_crafting_remainder, spec_firework_color,
    DyeColor, ItemId, AIR, BLACK_BANNER, BLUE_BANNER, BROWN_BANNER, CYAN_BANNER, GRAY_BANNER,
    GREEN_BANNER, LIGHT_BLUE_BANNER, LIGHT_GRAY_BANNER, LIME_BANNER, MAGENTA_BANNER,
    ORANGE_BANNER, PINK_BANNER, PURPLE_BANNER, RED_BANNER, YELLOW_BANNER,
};
use crate::recipe::crafting::{
    idx, lemma_idx_bound, BannerDuplicateRecipe, BookCloningRecipe, CraftingInput,
    CraftingRecipe, DecoratedPotRecipe, DyeRecipe, FireworkRocketRecipe, FireworkStarFadeRecipe,
    FireworkStarRecipe, ImbueRecipe, MapExtendingRecipe, ShieldDecorationRecipe, TransmuteRecipe,
};
use crate::recipe::matching::{collect_occupied, occupied_stacks, refs_view};
use crate::recipe::special::{any_shape, shape_ingredients};
use crate::recipe::crafting::{is_positioned, stacks_view, PositionedCraftingInput};
use crate::recipe::registry::{is_find_result, RecipeRegistry};
use crate::recipe::types::Recipe;
use crate::recipe::vanilla::{crafting, crafting_key, VanillaRecipe};
use crate::recipe::special::{pattern_count, repairable_pair};
use crate::util::{
    count, first_index, last_index, lemma_count_step, lemma_filter_step, lemma_first_index_is,
    lemma_first_index_none, lemma_last_index_is, lemma_last_index_none, lemma_take_full,
};

verus! {

/// A non-empty stack accepted by `i`.
pub open spec fn occupied_and(i: IngredientModel) -> spec_fn(ItemStackModel) -> bool {
    |s: ItemStackModel| !s.is_empty() && i.test(s)
}

/// `x` clamped to the `i32` range.
pub open spec fn sat_i32(x: int) -> i32 {
    if x > i32::MAX {
        i32::MAX
    } else if x < i32::MIN {
        i32::MIN
    } else {
        x as i32
    }
}

/// `st` with its components replaced.
pub open spec fn with_components(st: ItemStackModel, c: DataComponentsModel) -> ItemStackModel {
    ItemStackModel { components: c, ..st }
}

/// The dye a stack carries; white when it has none.
pub open spec fn dye_or_white(x: ItemStackModel) -> DyeColor {
    match x.dye() {
        Some(c) => c,
        None => DyeColor::White,
    }
}

fn saturating_add_i32(a: i32, b: i32) -> (r: i32)
    ensures
        r == sat_i32(a + b),
{
    let sum: i64 = a as i64 + b as i64;
    if sum > 2147483647i64 {
        i32::MAX
    } else if sum < -2147483648i64 {
        i32::MIN
    } else {
        sum as i32
    }
}

fn count_accepted(input: &CraftingInput, ingredient: &crate::ingredient::Ingredient) -> (r: usize)
    ensures
        r == count(input.stacks(), occupied_and(ingredient@)),
{
    let ghost s = input.stacks();
    let ghost p = occupied_and(ingredient@);
    let mut n: usize = 0;
    let mut k: usize = 0;
    while k < input.items.len()
        invariant
            k <= input.items@.len(),
            s == input.stacks(),
            p == occupied_and(ingredient@),
            n == count(s.take(k as int), p),
            n <= k,
        decreases input.items@.len() - k,
    {
        proof {
            lemma_count_step(s, p, k as int);
        }
        if !input.items[k].is_empty() && ingredient.test(&input.items[k]) {
            n += 1;
        }
        k += 1;
    }
    proof {
        lemma_take_full(s);
    }
    n
}

/// Position of the first non-empty stack accepted by `ingredient`.
fn first_accepted(input: &CraftingInput, ingredient: &crate::ingredient::Ingredient) -> (r: Option<usize>)
    ensures
        match r {
            Some(i) => first_index(input.stacks(), occupied_and(ingredient@)) == Some(i as int) && i < input.items@.len(),
            None => first_index(input.stacks(), occupied_and(ingredient@)) is None,
        },
{
    let ghost s = input.stacks();
    let ghost p = occupied_and(ingredient@);
    let mut k: usize = 0;
    while k < input.items.len()
        invariant
            k <= input.items@.len(),
            s == input.stacks(),
            p == occupied_and(ingredient@),
            forall|j: int| 0 <= j < k ==> !p(#[trigger] s[j]),
        decreases input.items@.len() - k,
    {
        if !input.items[k].is_empty() && ingredient.test(&input.items[k]) {
            proof {
                lemma_first_index_is(s, p, k as int);
            }
            return Some(k);
        }
        k += 1;
    }
    proof {
        lemma_first_index_none(s, p);
    }
    None
}

// ---------------------------------------------------------------- transmute

/// The transmuted stack: the template applied to the input stack's components,
/// with the material count added to the result count when the recipe says so.
pub open spec fn transmute_output(r: &TransmuteRecipe, s: Seq<ItemStackModel>) -> ItemStackModel {
    let materials = count(s, occupied_and(r.material@));
    let extra: int = if r.add_material_count_to_result {
        if materials > i32::MAX {
            i32::MAX as int
        } else {
            materials as int
        }
    } else {
        0
    };
    match first_index(s, occupied_and(r.input@)) {
        Some(i) => r.result@.apply(sat_i32(r.result.count + extra), s[i].components),
        None => empty_stack_model(),
    }
}

pub fn assemble_transmute(recipe: &TransmuteRecipe, input: &CraftingInput) -> (r: ItemStack)
    ensures
        r@ == transmute_output(recipe, input.stacks()),
{
    let material_count = count_accepted(input, &recipe.material);
    let extra: i32 = if recipe.add_material_count_to_result {
        if material_count > 2147483647usize {
            i32::MAX
        } else {
            material_count as i32
        }
    } else {
        0
    };
    match first_accepted(input, &recipe.input) {
        Some(i) => recipe.result.apply(
            saturating_add_i32(recipe.result.count(), extra),
            &input.items[i].components,
        ),
        None => ItemStack::empty(),
    }
}

// ---------------------------------------------------------------- dye

/// Stacks that count as dyes: accepted by the dye ingredient but not by the target.
pub open spec fn dye_only(r: &DyeRecipe) -> spec_fn(ItemStackModel) -> bool {
    |x: ItemStackModel| !x.is_empty() && !r.target@.test(x) && r.dye@.test(x)
}

pub open spec fn dye_of() -> spec_fn(ItemStackModel) -> DyeColor {
    |x: ItemStackModel| dye_or_white(x)
}

/// The dyes of the grid, in grid order.
pub open spec fn dye_colors(r: &DyeRecipe, s: Seq<ItemStackModel>) -> Seq<DyeColor> {
    s.filter(dye_only(r)).map_values(dye_of())
}

/// The part of a dyeing that is left to color blending: the dyed item's
/// previous color and the dyes, in grid order.
pub struct DyeBlend {
    pub previous_color: Option<i32>,
    pub dyes: Vec<DyeColor>,
}

/// A crafted stack; a dyed stack still has its new color blended in from `dye_blend`.
pub struct Assembled {
    pub stack: ItemStack,
    pub dye_blend: Option<DyeBlend>,
}

pub struct AssembledModel {
    pub stack: ItemStackModel,
    pub dye_blend: Option<(Option<i32>, Seq<DyeColor>)>,
}

impl View for Assembled {
    type V = AssembledModel;

    open spec fn view(&self) -> AssembledModel {
        AssembledModel {
            stack: self.stack@,
            dye_blend: match self.dye_blend {
                Some(b) => Some((b.previous_color, b.dyes@)),
                None => None,
            },
        }
    }
}

/// A finished stack with no color blending left to do.
pub open spec fn plain(st: ItemStackModel) -> AssembledModel {
    AssembledModel { stack: st, dye_blend: None }
}

/// The last target stack takes the template with its own components; the
/// blend is of its previous color and every dye. Nothing without a target or a dye.
pub open spec fn dye_output(r: &DyeRecipe, s: Seq<ItemStackModel>) -> AssembledModel {
    match last_index(s, occupied_and(r.target@)) {
        Some(t) => if dye_colors(r, s).len() == 0 {
            plain(empty_stack_model())
        } else {
            AssembledModel {
                stack: r.result@.apply(r.result.count, s[t].components),
                dye_blend: Some((s[t].components.dyed_color, dye_colors(r, s))),
            }
        },
        None => plain(empty_stack_model()),
    }
}

pub fn assemble_dye(recipe: &DyeRecipe, input: &CraftingInput) -> (r: Assembled)
    ensures
        r@ == dye_output(recipe, input.stacks()),
{
    let ghost s = input.stacks();
    let ghost tp = occupied_and(recipe.target@);
    let ghost dp = dye_only(recipe);
    let mut target: Option<usize> = None;
    let mut dyes: Vec<DyeColor> = Vec::new();
    let mut k: usize = 0;
    while k < input.items.len()
        invariant
            k <= input.items@.len(),
            s == input.stacks(),
            tp == occupied_and(recipe.target@),
            dp == dye_only(recipe),
            dyes@ == s.take(k as int).filter(dp).map_values(dye_of()),
            match target {
                Some(t) => t < k && tp(s[t as int]) && forall|j: int| t < j < k ==> !tp(#[trigger] s[j]),
                None => forall|j: int| 0 <= j < k ==> !tp(#[trigger] s[j]),
            },
        decreases input.items@.len() - k,
    {
        proof {
            lemma_filter_step(s, dp, k as int);
        }
        let stack = &input.items[k];
        if !stack.is_empty() {
            if recipe.target.test(stack) {
                target = Some(k);
            } else if recipe.dye.test(stack) {
                let color = match stack.get_dye() {
                    Some(c) => c,
                    None => DyeColor::White,
                };
                let ghost before = dyes@;
                dyes.push(color);
                proof {
                    assert(dyes@ =~= s.take(k as int + 1).filter(dp).map_values(dye_of()));
                }
            }
        }
        k += 1;
    }
    proof {
        lemma_take_full(s);
    }
    match target {
        Some(t) => {
            proof {
                lemma_last_index_is(s, tp, t as int);
            }
            if dyes.len() == 0 {
                return Assembled { stack: ItemStack::empty(), dye_blend: None };
            }
            let target_stack = &input.items[t];
            let stack = recipe.result.apply(recipe.result.count(), &target_stack.components);
            Assembled {
                stack,
                dye_blend: Some(DyeBlend { previous_color: target_stack.components.dyed_color, dyes }),
            }
        },
        None => {
            proof {
                lemma_last_index_none(s, tp);
            }
            Assembled { stack: ItemStack::empty(), dye_blend: None }
        },
    }
}

// ---------------------------------------------------------------- fixed layouts

/// The four pot faces can be read from the grid at the crafting-table positions.
pub open spec fn pot_cells_in_grid(input: &CraftingInput) -> bool {
    &&& idx(input.width as int, 1, 0) < input.items@.len()
    &&& idx(input.width as int, 0, 1) < input.items@.len()
    &&& idx(input.width as int, 2, 1) < input.items@.len()
    &&& idx(input.width as int, 1, 2) < input.items@.len()
}

/// The pot with its back, left, right and front decorations read from the
/// top, middle-left, middle-right and bottom cells.
pub open spec fn decorated_pot_output(r: &DecoratedPotRecipe, input: &CraftingInput) -> ItemStackModel {
    let s = input.stacks();
    let w = input.width as int;
    let base = r.result@.create();
    with_components(
        base,
        DataComponentsModel {
            pot_decorations: Some(
                PotDecorations {
                    back: s[idx(w, 1, 0)].item(),
                    left: s[idx(w, 0, 1)].item(),
                    right: s[idx(w, 2, 1)].item(),
                    front: s[idx(w, 1, 2)].item(),
                },
            ),
            ..base.components
        },
    )
}

fn cell(input: &CraftingInput, x: usize, y: usize) -> (r: &ItemStack)
    requires
        input.wf(),
        idx(input.width as int, x as int, y as int) < input.items@.len(),
    ensures
        r@ == input.stacks()[idx(input.width as int, x as int, y as int)],
{
    proof {
        assert(0 <= y * input.width) by (nonlinear_arith)
            requires
                0 <= y,
                0 <= input.width,
        ;
    }
    let total = input.items.len();
    &input.items[y * input.width + x]
}

pub fn assemble_decorated_pot(recipe: &DecoratedPotRecipe, input: &CraftingInput) -> (r: ItemStack)
    requires
        input.wf(),
        pot_cells_in_grid(input),
    ensures
        r@ == decorated_pot_output(recipe, input),
{
    let decorations = PotDecorations {
        back: cell(input, 1, 0).item(),
        left: cell(input, 0, 1).item(),
        right: cell(input, 2, 1).item(),
        front: cell(input, 1, 2).item(),
    };
    let mut result = recipe.result.create();
    result.components.pot_decorations = Some(decorations);
    result
}

/// The grid has a centre cell at the crafting-table position.
pub open spec fn center_in_grid(input: &CraftingInput) -> bool {
    idx(input.width as int, 1, 1) < input.items@.len()
}

/// The template's stack, carrying the centre stack's potion contents when it has some.
pub open spec fn imbue_output(r: &ImbueRecipe, input: &CraftingInput) -> ItemStackModel {
    let base = r.result@.create();
    match input.stacks()[idx(input.width as int, 1, 1)].components.potion_contents {
        Some(p) => with_components(base, DataComponentsModel { potion_contents: Some(p), ..base.components }),
        None => base,
    }
}

pub fn assemble_imbue(recipe: &ImbueRecipe, input: &CraftingInput) -> (r: ItemStack)
    requires
        input.wf(),
        center_in_grid(input),
    ensures
        r@ == imbue_output(recipe, input),
{
    let mut result = recipe.result.create();
    match cell(input, 1, 1).components.potion_contents {
        Some(contents) => {
            result.components.potion_contents = Some(contents);
        },
        None => {},
    }
    result
}

/// The centre map with the template applied to its components and a scale-up requested.
pub open spec fn map_extending_output(r: &MapExtendingRecipe, input: &CraftingInput) -> ItemStackModel {
    let base = r.result@.apply(r.result.count, input.stacks()[idx(input.width as int, 1, 1)].components);
    with_components(
        base,
        DataComponentsModel {
            map_post_processing: Some(crate::components::MapPostProcessing::Scale),
            ..base.components
        },
    )
}

pub fn assemble_map_extending(recipe: &MapExtendingRecipe, input: &CraftingInput) -> (r: ItemStack)
    requires
        input.wf(),
        center_in_grid(input),
    ensures
        r@ == map_extending_output(recipe, input),
{
    let source = cell(input, 1, 1);
    let mut result = recipe.result.apply(recipe.result.count(), &source.components);
    result.components.map_post_processing = Some(crate::components::MapPostProcessing::Scale);
    result
}

// ---------------------------------------------------------------- banner duplicate

/// A banner accepted by the recipe that carries pattern layers.
pub open spec fn patterned_source(r: &BannerDuplicateRecipe) -> spec_fn(ItemStackModel) -> bool {
    |x: ItemStackModel| r.banner@.test(x) && pattern_count(x) > 0
}

/// The template applied to the first patterned banner's components.
pub open spec fn banner_duplicate_output(r: &BannerDuplicateRecipe, s: Seq<ItemStackModel>) -> ItemStackModel {
    match first_index(s, patterned_source(r)) {
        Some(i) => r.result@.apply(r.result.count, s[i].components),
        None => empty_stack_model(),
    }
}

fn has_patterns(stack: &ItemStack) -> (r: bool)
    ensures
        r == (pattern_count(stack@) > 0),
{
    match &stack.components.banner_patterns {
        Some(layers) => layers.len() > 0,
        None => false,
    }
}

pub fn assemble_banner_duplicate(recipe: &BannerDuplicateRecipe, input: &CraftingInput) -> (r: ItemStack)
    ensures
        r@ == banner_duplicate_output(recipe, input.stacks()),
{
    let ghost s = input.stacks();
    let ghost p = patterned_source(recipe);
    let mut k: usize = 0;
    while k < input.items.len()
        invariant
            k <= input.items@.len(),
            s == input.stacks(),
            p == patterned_source(recipe),
            forall|j: int| 0 <= j < k ==> !p(#[trigger] s[j]),
        decreases input.items@.len() - k,
    {
        let stack = &input.items[k];
        if recipe.banner.test(stack) && has_patterns(stack) {
            proof {
                lemma_first_index_is(s, p, k as int);
            }
            return recipe.result.apply(recipe.result.count(), &stack.components);
        }
        k += 1;
    }
    proof {
        lemma_first_index_none(s, p);
    }
    ItemStack::empty()
}

// ---------------------------------------------------------------- book cloning

/// The copied book: the template applied to the first source book's
/// components, one generation further, counting one per material beyond the
/// first. Nothing without a source, without written content, or when the
/// extra count does not fit an `i32`.
pub open spec fn book_cloning_output(r: &BookCloningRecipe, s: Seq<ItemStackModel>) -> ItemStackModel {
    match first_index(s, occupied_and(r.source@)) {
        Some(i) => match s[i].components.written_book_content {
            Some(c) => {
                let materials = count(s, occupied_and(r.material@));
                let extra: int = if materials > 0 {
                    materials - 1
                } else {
                    0
                };
                if extra > i32::MAX {
                    empty_stack_model()
                } else {
                    let base = r.result@.apply(sat_i32(r.result.count + extra), s[i].components);
                    with_components(
                        base,
                        DataComponentsModel {
                            written_book_content: Some(
                                crate::components::WrittenBookContent { generation: (c.generation + 1) as i32 },
                            ),
                            ..base.components
                        },
                    )
                }
            },
            None => empty_stack_model(),
        },
        None => empty_stack_model(),
    }
}

/// The source book's generation can be counted one further.
pub open spec fn book_copy_fits(r: &BookCloningRecipe, s: Seq<ItemStackModel>) -> bool {
    match first_index(s, occupied_and(r.source@)) {
        Some(i) => match s[i].components.written_book_content {
            Some(c) => c.generation < i32::MAX,
            None => true,
        },
        None => true,
    }
}

pub fn assemble_book_cloning(recipe: &BookCloningRecipe, input: &CraftingInput) -> (r: ItemStack)
    requires
        book_copy_fits(recipe, input.stacks()),
    ensures
        r@ == book_cloning_output(recipe, input.stacks()),
{
    let i = match first_accepted(input, &recipe.source) {
        Some(i) => i,
        None => {
            return ItemStack::empty();
        },
    };
    let source = &input.items[i];
    let content = match source.components.written_book_content {
        Some(c) => c,
        None => {
            return ItemStack::empty();
        },
    };
    let material_count = count_accepted(input, &recipe.material);
    let extra_count = if material_count > 0 {
        material_count - 1
    } else {
        0
    };
    if extra_count > 2147483647usize {
        return ItemStack::empty();
    }
    let mut result = recipe.result.apply(
        saturating_add_i32(recipe.result.count(), extra_count as i32),
        &source.components,
    );
    result.components.written_book_content = Some(content.craft_copy());
    result
}

// ---------------------------------------------------------------- firework rocket

pub open spec fn rocket_fuel_stack(r: &FireworkRocketRecipe) -> spec_fn(ItemStackModel) -> bool {
    |x: ItemStackModel| !x.is_empty() && r.fuel@.test(x)
}

pub open spec fn rocket_star_stack(r: &FireworkRocketRecipe) -> spec_fn(ItemStackModel) -> bool {
    |x: ItemStackModel| !x.is_empty() && !r.fuel@.test(x) && r.star@.test(x) && x.components.firework_explosion is Some
}

pub open spec fn explosion_of() -> spec_fn(ItemStackModel) -> FireworkExplosionModel {
    |x: ItemStackModel| x.components.firework_explosion->0
}

/// The rocket: one flight-duration step per fuel stack and the explosions of
/// its stars, in grid order; nothing when the fireworks value is refused.
pub open spec fn firework_rocket_output(r: &FireworkRocketRecipe, s: Seq<ItemStackModel>) -> ItemStackModel {
    let flight = count(s, rocket_fuel_stack(r));
    let explosions = s.filter(rocket_star_stack(r)).map_values(explosion_of());
    if flight <= MAX_FLIGHT_DURATION && explosions.len() <= MAX_FIREWORK_EXPLOSIONS {
        let base = r.result@.create();
        with_components(
            base,
            DataComponentsModel {
                fireworks: Some(FireworksModel { flight_duration: flight as i32, explosions }),
                ..base.components
            },
        )
    } else {
        empty_stack_model()
    }
}

pub fn assemble_firework_rocket(recipe: &FireworkRocketRecipe, input: &CraftingInput) -> (r: ItemStack)
    ensures
        r@ == firework_rocket_output(recipe, input.stacks()),
{
    let ghost s = input.stacks();
    let ghost fp = rocket_fuel_stack(recipe);
    let ghost sp = rocket_star_stack(recipe);
    let mut flight_duration: usize = 0;
    let mut explosions: Vec<FireworkExplosion> = Vec::new();
    let mut k: usize = 0;
    while k < input.items.len()
        invariant
            k <= input.items@.len(),
            s == input.stacks(),
            fp == rocket_fuel_stack(recipe),
            sp == rocket_star_stack(recipe),
            flight_duration == count(s.take(k as int), fp),
            flight_duration <= k,
            explosions_view(explosions@) == s.take(k as int).filter(sp).map_values(explosion_of()),
        decreases input.items@.len() - k,
    {
        proof {
            lemma_count_step(s, fp, k as int);
            lemma_filter_step(s, sp, k as int);
        }
        let stack = &input.items[k];
        if !stack.is_empty() {
            if recipe.fuel.test(stack) {
                flight_duration += 1;
            } else if recipe.star.test(stack) {
                match &stack.components.firework_explosion {
                    Some(explosion) => {
                        let ghost before = explosions@;
                        let copy = explosion.duplicate();
                        explosions.push(copy);
                        proof {
                            assert(sp(s[k as int]));
                            assert(explosion_of()(s[k as int]) == copy@);
                            assert(explosions_view(explosions@) =~= explosions_view(before).push(copy@));
                            assert(explosions_view(explosions@) =~= s.take(k as int + 1).filter(sp).map_values(explosion_of()));
                        }
                    },
                    None => {},
                }
            }
        }
        proof {
            assert(explosions_view(explosions@) =~= s.take(k as int + 1).filter(sp).map_values(explosion_of()));
        }
        k += 1;
    }
    proof {
        lemma_take_full(s);
    }
    if flight_duration > 255usize {
        return ItemStack::empty();
    }
    match Fireworks::new(flight_duration as i32, explosions) {
        Ok(fireworks) => {
            let mut result = recipe.result.create();
            result.components.fireworks = Some(fireworks);
            result
        },
        Err(()) => ItemStack::empty(),
    }
}

// ---------------------------------------------------------------- firework star

pub open spec fn star_shape_stack(r: &FireworkStarRecipe) -> spec_fn(ItemStackModel) -> bool {
    |x: ItemStackModel| !x.is_empty() && any_shape(shape_ingredients(r), x)
}

pub open spec fn star_twinkle_stack(r: &FireworkStarRecipe) -> spec_fn(ItemStackModel) -> bool {
    |x: ItemStackModel| !x.is_empty() && !any_shape(shape_ingredients(r), x) && r.twinkle@.test(x)
}

pub open spec fn star_trail_stack(r: &FireworkStarRecipe) -> spec_fn(ItemStackModel) -> bool {
    |x: ItemStackModel| !x.is_empty() && !any_shape(shape_ingredients(r), x) && !r.twinkle@.test(x) && r.trail@.test(x)
}

pub open spec fn star_color_stack(r: &FireworkStarRecipe) -> spec_fn(ItemStackModel) -> bool {
    |x: ItemStackModel| !x.is_empty() && !any_shape(shape_ingredients(r), x) && !r.twinkle@.test(x) && !r.trail@.test(x) && r.dye@.test(x)
}

pub open spec fn firework_color_of() -> spec_fn(ItemStackModel) -> i32 {
    |x: ItemStackModel| spec_firework_color(dye_or_white(x))
}

pub open spec fn accepts_stack(x: ItemStackModel) -> spec_fn(IngredientModel) -> bool {
    |i: IngredientModel| i.test(x)
}

/// The shape given by the last shape modifier in the grid (the first listed
/// shape accepting it); a small ball without one.
pub open spec fn star_shape(r: &FireworkStarRecipe, s: Seq<ItemStackModel>) -> FireworkExplosionShape {
    match last_index(s, star_shape_stack(r)) {
        Some(k) => match first_index(shape_ingredients(r), accepts_stack(s[k])) {
            Some(j) => r.shapes@[j].0,
            None => FireworkExplosionShape::SmallBall,
        },
        None => FireworkExplosionShape::SmallBall,
    }
}

/// The star with its shape, the firework colors of its dyes in grid order, no
/// fade colors, and trail and twinkle when a stack added them.
pub open spec fn firework_star_output(r: &FireworkStarRecipe, s: Seq<ItemStackModel>) -> ItemStackModel {
    let base = r.result@.create();
    with_components(
        base,
        DataComponentsModel {
            firework_explosion: Some(
                FireworkExplosionModel {
                    shape: star_shape(r, s),
                    colors: s.filter(star_color_stack(r)).map_values(firework_color_of()),
                    fade_colors: Seq::empty(),
                    has_trail: count(s, star_trail_stack(r)) > 0,
                    has_twinkle: count(s, star_twinkle_stack(r)) > 0,
                },
            ),
            ..base.components
        },
    )
}

/// The first listed shape whose ingredient accepts `stack`.
fn find_shape(recipe: &FireworkStarRecipe, stack: &ItemStack) -> (r: Option<FireworkExplosionShape>)
    ensures
        match r {
            Some(shape) => any_shape(shape_ingredients(recipe), stack@) && (first_index(
                shape_ingredients(recipe),
                accepts_stack(stack@),
            ) matches Some(j) && recipe.shapes@[j].0 == shape),
            None => !any_shape(shape_ingredients(recipe), stack@),
        },
{
    let ghost si = shape_ingredients(recipe);
    let ghost p = accepts_stack(stack@);
    let mut i: usize = 0;
    while i < recipe.shapes.len()
        invariant
            i <= recipe.shapes@.len(),
            si == shape_ingredients(recipe),
            p == accepts_stack(stack@),
            forall|j: int| 0 <= j < i ==> !p(#[trigger] si[j]),
        decreases recipe.shapes@.len() - i,
    {
        if recipe.shapes[i].1.test(stack) {
            proof {
                assert(si[i as int] == recipe.shapes@[i as int].1@);
                lemma_first_index_is(si, p, i as int);
                assert(si[i as int].test(stack@));
            }
            return Some(recipe.shapes[i].0);
        }
        proof {
            assert(si[i as int] == recipe.shapes@[i as int].1@);
        }
        i += 1;
    }
    proof {
        assert forall|j: int| 0 <= j < si.len() implies !(#[trigger] si[j]).test(stack@) by {
            assert(!p(si[j]));
        }
    }
    None
}

pub fn assemble_firework_star(recipe: &FireworkStarRecipe, input: &CraftingInput) -> (r: ItemStack)
    ensures
        r@ == firework_star_output(recipe, input.stacks()),
{
    let ghost s = input.stacks();
    let ghost shp = star_shape_stack(recipe);
    let ghost twp = star_twinkle_stack(recipe);
    let ghost trp = star_trail_stack(recipe);
    let ghost cp = star_color_stack(recipe);
    let mut shape = FireworkExplosionShape::SmallBall;
    let mut shape_at: Option<usize> = None;
    let mut has_twinkle = false;
    let mut has_trail = false;
    let mut colors: Vec<i32> = Vec::new();
    let mut k: usize = 0;
    while k < input.items.len()
        invariant
            k <= input.items@.len(),
            s == input.stacks(),
            shp == star_shape_stack(recipe),
            twp == star_twinkle_stack(recipe),
            trp == star_trail_stack(recipe),
            cp == star_color_stack(recipe),
            match shape_at {
                Some(t) => t < k && shp(s[t as int]) && (forall|j: int| t < j < k ==> !shp(#[trigger] s[j]))
                    && (first_index(shape_ingredients(recipe), accepts_stack(s[t as int])) matches Some(j)
                        && recipe.shapes@[j].0 == shape),
                None => (forall|j: int| 0 <= j < k ==> !shp(#[trigger] s[j])) && shape == FireworkExplosionShape::SmallBall,
            },
            has_twinkle == (count(s.take(k as int), twp) > 0),
            has_trail == (count(s.take(k as int), trp) > 0),
            colors@ == s.take(k as int).filter(cp).map_values(firework_color_of()),
        decreases input.items@.len() - k,
    {
        proof {
            lemma_count_step(s, twp, k as int);
            lemma_count_step(s, trp, k as int);
            lemma_filter_step(s, cp, k as int);
        }
        let stack = &input.items[k];
        if !stack.is_empty() {
            match find_shape(recipe, stack) {
                Some(found) => {
                    shape = found;
                    shape_at = Some(k);
                },
                None => {
                    if recipe.twinkle.test(stack) {
                        has_twinkle = true;
                    } else if recipe.trail.test(stack) {
                        has_trail = true;
                    } else if recipe.dye.test(stack) {
                        let color = match stack.get_dye() {
                            Some(c) => c,
                            None => DyeColor::White,
                        };
                        colors.push(color.firework_color());
                        proof {
                            assert(colors@ =~= s.take(k as int + 1).filter(cp).map_values(firework_color_of()));
                        }
                    }
                },
            }
        }
        k += 1;
    }
    proof {
        lemma_take_full(s);
        match shape_at {
            Some(t) => lemma_last_index_is(s, shp, t as int),
            None => lemma_last_index_none(s, shp),
        }
    }
    let mut result = recipe.result.create();
    result.components.firework_explosion = Some(FireworkExplosion::new(shape, colors, Vec::new(), has_trail, has_twinkle));
    result
}

// ---------------------------------------------------------------- firework star fade

/// The first target star with the template applied, its explosion (a plain
/// small ball when it has none) given the firework colors of every dye stack
/// as fade colors.
pub open spec fn firework_fade_output(r: &FireworkStarFadeRecipe, s: Seq<ItemStackModel>) -> ItemStackModel {
    match first_index(s, occupied_and(r.target@)) {
        Some(t) => {
            let base = r.result@.apply(r.result.count, s[t].components);
            let explosion = match s[t].components.firework_explosion {
                Some(e) => e,
                None => default_explosion_model(),
            };
            with_components(
                base,
                DataComponentsModel {
                    firework_explosion: Some(
                        FireworkExplosionModel {
                            fade_colors: s.filter(occupied_and(r.dye@)).map_values(firework_color_of()),
                            ..explosion
                        },
                    ),
                    ..base.components
                },
            )
        },
        None => empty_stack_model(),
    }
}

pub fn assemble_firework_fade(recipe: &FireworkStarFadeRecipe, input: &CraftingInput) -> (r: ItemStack)
    ensures
        r@ == firework_fade_output(recipe, input.stacks()),
{
    let t = match first_accepted(input, &recipe.target) {
        Some(t) => t,
        None => {
            return ItemStack::empty();
        },
    };
    let ghost s = input.stacks();
    let ghost dp = occupied_and(recipe.dye@);
    let mut fade_colors: Vec<i32> = Vec::new();
    let mut k: usize = 0;
    while k < input.items.len()
        invariant
            k <= input.items@.len(),
            s == input.stacks(),
            dp == occupied_and(recipe.dye@),
            fade_colors@ == s.take(k as int).filter(dp).map_values(firework_color_of()),
        decreases input.items@.len() - k,
    {
        proof {
            lemma_filter_step(s, dp, k as int);
        }
        let stack = &input.items[k];
        if !stack.is_empty() && recipe.dye.test(stack) {
            let color = match stack.get_dye() {
                Some(c) => c,
                None => DyeColor::White,
            };
            fade_colors.push(color.firework_color());
            proof {
                assert(fade_colors@ =~= s.take(k as int + 1).filter(dp).map_values(firework_color_of()));
            }
        }
        k += 1;
    }
    proof {
        lemma_take_full(s);
    }
    let target = &input.items[t];
    let mut result = recipe.result.apply(recipe.result.count(), &target.components);
    let explosion = match &target.components.firework_explosion {
        Some(e) => e.duplicate(),
        None => FireworkExplosion::default_explosion(),
    };
    result.components.firework_explosion = Some(explosion.with_fade_colors(fade_colors));
    result
}

// ---------------------------------------------------------------- repair

/// Rust's integer division, which rounds toward zero.
pub open spec fn trunc_div(a: int, b: int) -> int {
    if a >= 0 {
        a / b
    } else {
        -((-a) / b)
    }
}

pub open spec fn curse_pred() -> spec_fn(Enchantment) -> bool {
    |e: Enchantment| spec_is_curse(e.id)
}

/// The curses among a stack's enchantments, in order.
pub open spec fn curse_entries(x: ItemStackModel) -> Seq<Enchantment> {
    match x.components.enchantments {
        Some(e) => e.filter(curse_pred()),
        None => Seq::empty(),
    }
}

pub open spec fn same_enchantment(id: u32) -> spec_fn(Enchantment) -> bool {
    |e: Enchantment| e.id == id
}

/// Adds an enchantment level to a list: a positive level (capped at 255)
/// raises an existing entry to the larger level or is appended.
pub open spec fn upgrade(acc: Seq<Enchantment>, e: Enchantment) -> Seq<Enchantment> {
    if e.level <= 0 {
        acc
    } else {
        let level: i32 = if e.level > 255 {
            255
        } else {
            e.level
        };
        match first_index(acc, same_enchantment(e.id)) {
            Some(i) => acc.update(
                i,
                Enchantment { id: e.id, level: if acc[i].level >= level { acc[i].level } else { level } },
            ),
            None => acc.push(Enchantment { id: e.id, level }),
        }
    }
}

/// Upgrades `acc` by every enchantment of `es`, in order.
pub open spec fn upgrade_all(acc: Seq<Enchantment>, es: Seq<Enchantment>) -> Seq<Enchantment>
    decreases es.len(),
{
    if es.len() == 0 {
        acc
    } else {
        upgrade_all(upgrade(acc, es[0]), es.drop_first())
    }
}

pub open spec fn repair_durability(a: ItemStackModel, b: ItemStackModel) -> int {
    if a.max_damage() >= b.max_damage() {
        a.max_damage() as int
    } else {
        b.max_damage() as int
    }
}

pub open spec fn repair_remaining(a: ItemStackModel, b: ItemStackModel) -> int {
    (a.max_damage() - a.damage_value()) + (b.max_damage() - b.damage_value()) + trunc_div(
        repair_durability(a, b) * 5,
        100,
    )
}

/// The damage a repaired item is left with: what the combined durability
/// does not cover, between zero and the durability.
pub open spec fn repaired_damage(a: ItemStackModel, b: ItemStackModel) -> int {
    let d = repair_durability(a, b);
    let v = if d - repair_remaining(a, b) >= 0 {
        d - repair_remaining(a, b)
    } else {
        0
    };
    if v > d {
        d
    } else {
        v
    }
}

/// The repair arithmetic of `a` with `b` stays within `i32`.
pub open spec fn repair_pair_fits(a: ItemStackModel, b: ItemStackModel) -> bool {
    let d = repair_durability(a, b);
    &&& i32::MIN <= d * 5 <= i32::MAX
    &&& i32::MIN <= (a.max_damage() - a.damage_value()) + (b.max_damage() - b.damage_value()) <= i32::MAX
    &&& i32::MIN <= repair_remaining(a, b) <= i32::MAX
    &&& i32::MIN <= d - repair_remaining(a, b) <= i32::MAX
}

/// The repair arithmetic stays within `i32` for the first two stacks.
pub open spec fn repair_fits(s: Seq<ItemStackModel>) -> bool {
    let occ = occupied_stacks(s);
    occ.len() >= 2 ==> repair_pair_fits(occ[0], occ[1])
}

/// One item of the first stack's kind whose durability is the larger of the
/// two, whose damage is reduced by both remaining durabilities plus a 5% bonus,
/// and which keeps only the curses of both stacks.
pub open spec fn repair_output(s: Seq<ItemStackModel>) -> ItemStackModel {
    let occ = occupied_stacks(s);
    if occ.len() < 2 {
        empty_stack_model()
    } else {
        let a = occ[0];
        let b = occ[1];
        ItemStackModel {
            item: a.item(),
            count: 1,
            components: DataComponentsModel {
                max_damage: Some(repair_durability(a, b) as i32),
                damage: Some(repaired_damage(a, b) as i32),
                enchantments: Some(upgrade_all(Seq::empty(), curse_entries(a) + curse_entries(b))),
                ..empty_components()
            },
        }
    }
}

/// The enchantment is the curse of binding or the curse of vanishing.
pub open spec fn is_binding_or_vanishing(e: Enchantment) -> bool {
    e.id == crate::components::BINDING_CURSE || e.id == crate::components::VANISHING_CURSE
}

/// Upgrading a list of curses by more curses leaves only curses.
proof fn lemma_upgrade_all_keeps_curses(acc: Seq<Enchantment>, es: Seq<Enchantment>)
    requires
        forall|k: int| 0 <= k < acc.len() ==> is_binding_or_vanishing(#[trigger] acc[k]),
        forall|k: int| 0 <= k < es.len() ==> is_binding_or_vanishing(#[trigger] es[k]),
    ensures
        forall|k: int| 0 <= k < upgrade_all(acc, es).len() ==> is_binding_or_vanishing(
            #[trigger] upgrade_all(acc, es)[k],
        ),
    decreases es.len(),
{
    if es.len() > 0 {
        let e = es[0];
        assert(is_binding_or_vanishing(e));
        let next = upgrade(acc, e);
        assert forall|k: int| 0 <= k < next.len() implies is_binding_or_vanishing(#[trigger] next[k]) by {
            if e.level > 0 {
                match first_index(acc, same_enchantment(e.id)) {
                    Some(i) => {
                        if k != i {
                            assert(next[k] == acc[k]);
                        }
                    },
                    None => {
                        if k < acc.len() {
                            assert(next[k] == acc[k]);
                        }
                    },
                }
            }
        }
        let rest = es.drop_first();
        assert forall|k: int| 0 <= k < rest.len() implies is_binding_or_vanishing(#[trigger] rest[k]) by {
            assert(rest[k] == es[k + 1]);
        }
        lemma_upgrade_all_keeps_curses(next, rest);
        assert(upgrade_all(acc, es) == upgrade_all(next, rest));
    } else {
        assert(upgrade_all(acc, es) == acc);
    }
}

/// Some enchantment of `l` has the id `id`.
pub open spec fn has_enchantment_id(l: Seq<Enchantment>, id: u32) -> bool {
    exists|j: int| 0 <= j < l.len() && #[trigger] l[j].id == id
}

/// Upgrading keeps every id already listed and adds the id of every
/// enchantment with a positive level.
proof fn lemma_upgrade_all_keeps_ids(acc: Seq<Enchantment>, es: Seq<Enchantment>)
    ensures
        forall|k: int| 0 <= k < acc.len() ==> has_enchantment_id(upgrade_all(acc, es), #[trigger] acc[k].id),
        forall|k: int| 0 <= k < es.len() && es[k].level > 0 ==> has_enchantment_id(
            upgrade_all(acc, es),
            #[trigger] es[k].id,
        ),
    decreases es.len(),
{
    if es.len() == 0 {
        assert(upgrade_all(acc, es) == acc);
        assert forall|k: int| 0 <= k < acc.len() implies has_enchantment_id(acc, #[trigger] acc[k].id) by {
            assert(acc[k].id == acc[k].id);
        }
    } else {
        let e = es[0];
        let next = upgrade(acc, e);
        let rest = es.drop_first();
        lemma_upgrade_all_keeps_ids(next, rest);
        assert(upgrade_all(acc, es) == upgrade_all(next, rest));
        let res = upgrade_all(next, rest);
        assert forall|k: int| 0 <= k < next.len() implies has_enchantment_id(res, #[trigger] next[k].id) by {}
        assert forall|k: int| 0 <= k < acc.len() implies has_enchantment_id(res, #[trigger] acc[k].id) by {
            if e.level > 0 {
                match first_index(acc, same_enchantment(e.id)) {
                    Some(i) => {
                        assert(same_enchantment(e.id)(acc[i]));
                        assert(next[k].id == acc[k].id);
                    },
                    None => {
                        assert(next[k] == acc[k]);
                    },
                }
            } else {
                assert(next[k] == acc[k]);
            }
        }
        if e.level > 0 {
            match first_index(acc, same_enchantment(e.id)) {
                Some(i) => {
                    assert(next[i].id == e.id);
                },
                None => {
                    assert(next[acc.len() as int].id == e.id);
                },
            }
            assert(has_enchantment_id(next, e.id));
            let j = choose|j: int| 0 <= j < next.len() && #[trigger] next[j].id == e.id;
            assert(has_enchantment_id(res, next[j].id));
        }
        assert forall|k: int| 0 <= k < es.len() && es[k].level > 0 implies has_enchantment_id(
            res,
            #[trigger] es[k].id,
        ) by {
            if k > 0 {
                assert(rest[k - 1] == es[k]);
            }
        }
    }
}

/// A repaired stack carries only curses: every enchantment on it is the
/// curse of binding or of vanishing, so no other enchantment of either
/// repaired stack survives.
pub proof fn lemma_repair_keeps_only_curses(s: Seq<ItemStackModel>)
    requires
        occupied_stacks(s).len() >= 2,
    ensures
        repair_output(s).components.enchantments is Some,
        forall|k: int|
            0 <= k < repair_output(s).components.enchantments->0.len() ==> is_binding_or_vanishing(
                #[trigger] repair_output(s).components.enchantments->0[k],
            ),
        forall|e: Enchantment|
            is_binding_or_vanishing(e) && e.level > 0 && ((occupied_stacks(s)[0].components.enchantments
                matches Some(l) && l.contains(e)) || (occupied_stacks(s)[1].components.enchantments
                matches Some(l) && l.contains(e))) ==> #[trigger] has_enchantment_id(
                repair_output(s).components.enchantments->0,
                e.id,
            ),
{
    broadcast use vstd::seq_lib::group_filter_ensures;
    let occ = occupied_stacks(s);
    let ca = curse_entries(occ[0]);
    let cb = curse_entries(occ[1]);
    assert forall|k: int| 0 <= k < ca.len() implies is_binding_or_vanishing(#[trigger] ca[k]) by {
        assert(curse_pred()(ca[k]));
    }
    assert forall|k: int| 0 <= k < cb.len() implies is_binding_or_vanishing(#[trigger] cb[k]) by {
        assert(curse_pred()(cb[k]));
    }
    let es = ca + cb;
    assert forall|k: int| 0 <= k < es.len() implies is_binding_or_vanishing(#[trigger] es[k]) by {
        if k < ca.len() {
            assert(es[k] == ca[k]);
        } else {
            assert(es[k] == cb[k - ca.len()]);
        }
    }
    lemma_upgrade_all_keeps_curses(Seq::empty(), es);
    lemma_upgrade_all_keeps_ids(Seq::empty(), es);
    assert forall|e: Enchantment|
        is_binding_or_vanishing(e) && e.level > 0 && ((occ[0].components.enchantments matches Some(l)
            && l.contains(e)) || (occ[1].components.enchantments matches Some(l) && l.contains(e)))
        implies #[trigger] has_enchantment_id(upgrade_all(Seq::empty(), es), e.id) by {
        assert(curse_pred()(e));
        let l0 = occ[0].components.enchantments;
        if l0 is Some && l0->0.contains(e) {
            let l = l0->0;
            let i = choose|i: int| 0 <= i < l.len() && l[i] == e;
            assert(ca.contains(l[i]));
            let j = choose|j: int| 0 <= j < ca.len() && ca[j] == e;
            assert(es[j] == e);
        } else {
            let l = occ[1].components.enchantments->0;
            let i = choose|i: int| 0 <= i < l.len() && l[i] == e;
            assert(cb.contains(l[i]));
            let j = choose|j: int| 0 <= j < cb.len() && cb[j] == e;
            assert(es[ca.len() + j] == e);
        }
    }
}

/// Applies `upgrade` for one enchantment.
fn upgrade_enchantment(acc: &mut Vec<Enchantment>, e: Enchantment)
    ensures
        final(acc)@ == upgrade(old(acc)@, e),
{
    if e.level <= 0 {
        return;
    }
    let level: i32 = if e.level > 255 {
        255
    } else {
        e.level
    };
    let ghost p = same_enchantment(e.id);
    let mut i: usize = 0;
    while i < acc.len()
        invariant
            i <= acc@.len(),
            acc@ == old(acc)@,
            p == same_enchantment(e.id),
            e.level > 0,
            level == (if e.level > 255 {
                255
            } else {
                e.level
            }),
            forall|j: int| 0 <= j < i ==> !p(#[trigger] acc@[j]),
        decreases acc@.len() - i,
    {
        if acc[i].id == e.id {
            proof {
                lemma_first_index_is(acc@, p, i as int);
            }
            let current = acc[i].level;
            let upgraded = Enchantment { id: e.id, level: if current >= level { current } else { level } };
            acc.set(i, upgraded);
            proof {
                assert(first_index(old(acc)@, same_enchantment(e.id)) == Some(i as int));
                assert(acc@ == old(acc)@.update(i as int, upgraded));
                assert(old(acc)@[i as int].level == current);
                assert(upgrade(old(acc)@, e) == old(acc)@.update(i as int, upgraded));
            }
            return;
        }
        i += 1;
    }
    proof {
        lemma_first_index_none(acc@, p);
    }
    acc.push(Enchantment { id: e.id, level });
}

/// Upgrades `acc` by the curses of `stack`, in order.
fn upgrade_with_curses(acc: &mut Vec<Enchantment>, stack: &ItemStack)
    ensures
        final(acc)@ == upgrade_all(old(acc)@, curse_entries(stack@)),
{
    match &stack.components.enchantments {
        Some(list) => {
            let ghost cp = curse_pred();
            let ghost a0 = acc@;
            let mut k: usize = 0;
            assert(list@.skip(0) =~= list@);
            while k < list.len()
                invariant
                    k <= list@.len(),
                    cp == curse_pred(),
                    stack@.components.enchantments == Some(list@),
                    upgrade_all(a0, list@.filter(cp)) == upgrade_all(acc@, list@.skip(k as int).filter(cp)),
                decreases list@.len() - k,
            {
                let e = list[k];
                let ghost acc0 = acc@;
                proof {
                    lemma_filter_front(list@.skip(k as int), cp);
                    assert(list@.skip(k as int).drop_first() =~= list@.skip(k as int + 1));
                    assert(list@.skip(k as int)[0] == e);
                }
                if is_curse(e.id) {
                    upgrade_enchantment(acc, e);
                    proof {
                        let f = list@.skip(k as int).filter(cp);
                        assert(f == seq![e] + list@.skip(k as int + 1).filter(cp));
                        assert(f[0] == e);
                        assert(f.drop_first() =~= list@.skip(k as int + 1).filter(cp));
                        assert(upgrade_all(acc0, f) == upgrade_all(upgrade(acc0, e), f.drop_first()));
                    }
                }
                k += 1;
            }
            proof {
                assert(list@.skip(0) =~= list@);
                assert(list@.skip(list@.len() as int) =~= Seq::<Enchantment>::empty());
                lemma_filter_empty(cp);
            }
        },
        None => {},
    }
}

pub fn assemble_repair(input: &CraftingInput) -> (r: ItemStack)
    requires
        input.wf(),
        repair_fits(input.stacks()),
    ensures
        r@ == repair_output(input.stacks()),
{
    let stacks = collect_occupied(input);
    if stacks.len() < 2 {
        return ItemStack::empty();
    }
    let first = stacks[0];
    let second = stacks[1];
    let first_max = first.get_max_damage();
    let second_max = second.get_max_damage();
    let durability = if first_max >= second_max {
        first_max
    } else {
        second_max
    };
    let scaled = durability * 5;
    let bonus = if scaled >= 0 {
        scaled / 100
    } else {
        -((-scaled) / 100)
    };
    let remaining = (first_max - first.get_damage_value()) + (second_max - second.get_damage_value()) + bonus;
    let lowered = durability - remaining;
    let damage = if lowered >= 0 {
        lowered
    } else {
        0
    };
    let damage = if damage > durability {
        durability
    } else {
        damage
    };
    let mut result = ItemStack::new(first.item());
    result.components.max_damage = Some(durability);
    result.components.damage = Some(damage);
    let mut curses: Vec<Enchantment> = Vec::new();
    upgrade_with_curses(&mut curses, first);
    upgrade_with_curses(&mut curses, second);
    proof {
        lemma_upgrade_all_concat(Seq::empty(), curse_entries(first@), curse_entries(second@));
    }
    result.components.enchantments = Some(curses);
    result
}

/// Filtering a sequence looks at its first element, then the rest.
proof fn lemma_filter_front<A>(s: Seq<A>, p: spec_fn(A) -> bool)
    requires
        s.len() > 0,
    ensures
        s.filter(p) == if p(s[0]) {
            seq![s[0]] + s.drop_first().filter(p)
        } else {
            s.drop_first().filter(p)
        },
{
    assert(s =~= seq![s[0]] + s.drop_first());
    Seq::filter_distributes_over_add(seq![s[0]], s.drop_first(), p);
    reveal_with_fuel(Seq::filter, 2);
    assert(seq![s[0]].drop_last() =~= Seq::<A>::empty());
}

proof fn lemma_filter_empty<A>(p: spec_fn(A) -> bool)
    ensures
        Seq::<A>::empty().filter(p) == Seq::<A>::empty(),
{
    reveal_with_fuel(Seq::filter, 1);
}

proof fn lemma_upgrade_all_concat(acc: Seq<Enchantment>, a: Seq<Enchantment>, b: Seq<Enchantment>)
    ensures
        upgrade_all(upgrade_all(acc, a), b) == upgrade_all(acc, a + b),
    decreases a.len(),
{
    if a.len() == 0 {
        assert(a + b =~= b);
    } else {
        assert((a + b).drop_first() =~= a.drop_first() + b);
        assert((a + b)[0] == a[0]);
        lemma_upgrade_all_concat(upgrade(acc, a[0]), a.drop_first(), b);
    }
}

// ---------------------------------------------------------------- shield

pub fn banner_color(stack: &ItemStack) -> (r: DyeColor)
    ensures
        r == spec_banner_color(stack@.item()),
{
    let item = stack.item();
    if item == ORANGE_BANNER {
        DyeColor::Orange
    } else if item == MAGENTA_BANNER {
        DyeColor::Magenta
    } else if item == LIGHT_BLUE_BANNER {
        DyeColor::LightBlue
    } else if item == YELLOW_BANNER {
        DyeColor::Yellow
    } else if item == LIME_BANNER {
        DyeColor::Lime
    } else if item == PINK_BANNER {
        DyeColor::Pink
    } else if item == GRAY_BANNER {
        DyeColor::Gray
    } else if item == LIGHT_GRAY_BANNER {
        DyeColor::LightGray
    } else if item == CYAN_BANNER {
        DyeColor::Cyan
    } else if item == PURPLE_BANNER {
        DyeColor::Purple
    } else if item == BLUE_BANNER {
        DyeColor::Blue
    } else if item == BROWN_BANNER {
        DyeColor::Brown
    } else if item == GREEN_BANNER {
        DyeColor::Green
    } else if item == RED_BANNER {
        DyeColor::Red
    } else if item == BLACK_BANNER {
        DyeColor::Black
    } else {
        DyeColor::White
    }
}

/// The first shield with the template applied, taking the first banner's
/// pattern layers (when it has some) and its color as base color.
pub open spec fn shield_output(r: &ShieldDecorationRecipe, s: Seq<ItemStackModel>) -> ItemStackModel {
    match first_index(s, occupied_and(r.banner@)) {
        Some(bi) => match first_index(s, occupied_and(r.target@)) {
            Some(ti) => {
                let base = r.result@.apply(r.result.count, s[ti].components);
                with_components(
                    base,
                    DataComponentsModel {
                        banner_patterns: match s[bi].components.banner_patterns {
                            Some(p) => Some(p),
                            None => base.components.banner_patterns,
                        },
                        base_color: Some(spec_banner_color(s[bi].item())),
                        ..base.components
                    },
                )
            },
            None => empty_stack_model(),
        },
        None => empty_stack_model(),
    }
}

pub fn assemble_shield(recipe: &ShieldDecorationRecipe, input: &CraftingInput) -> (r: ItemStack)
    ensures
        r@ == shield_output(recipe, input.stacks()),
{
    let bi = match first_accepted(input, &recipe.banner) {
        Some(i) => i,
        None => {
            return ItemStack::empty();
        },
    };
    let ti = match first_accepted(input, &recipe.target) {
        Some(i) => i,
        None => {
            return ItemStack::empty();
        },
    };
    let banner = &input.items[bi];
    let target = &input.items[ti];
    let mut result = recipe.result.apply(recipe.result.count(), &target.components);
    match &banner.components.banner_patterns {
        Some(patterns) => {
            result.components.banner_patterns = Some(crate::components::copy_vec(patterns));
        },
        None => {},
    }
    result.components.base_color = Some(banner_color(banner));
    result
}

// ---------------------------------------------------------------- dispatch

/// The grid cells and arithmetic that assembling `recipe` reads are available.
pub open spec fn assembly_defined(recipe: &CraftingRecipe, input: &CraftingInput) -> bool {
    match recipe {
        CraftingRecipe::DecoratedPot(_) => pot_cells_in_grid(input),
        CraftingRecipe::Imbue(_) => center_in_grid(input),
        CraftingRecipe::MapExtending(_) => center_in_grid(input),
        CraftingRecipe::BookCloning(r) => book_copy_fits(r, input.stacks()),
        CraftingRecipe::RepairItem(_) => repair_fits(input.stacks()),
        _ => true,
    }
}

/// What crafting `recipe` from `input` yields.
pub open spec fn spec_assemble(recipe: &CraftingRecipe, input: &CraftingInput) -> AssembledModel {
    let s = input.stacks();
    match recipe {
        CraftingRecipe::Shaped(r) => plain(r.result@.create()),
        CraftingRecipe::Shapeless(r) => plain(r.result@.create()),
        CraftingRecipe::Transmute(r) => plain(transmute_output(r, s)),
        CraftingRecipe::Dye(r) => dye_output(r, s),
        CraftingRecipe::DecoratedPot(r) => plain(decorated_pot_output(r, input)),
        CraftingRecipe::Imbue(r) => plain(imbue_output(r, input)),
        CraftingRecipe::BannerDuplicate(r) => plain(banner_duplicate_output(r, s)),
        CraftingRecipe::BookCloning(r) => plain(book_cloning_output(r, s)),
        CraftingRecipe::FireworkRocket(r) => plain(firework_rocket_output(r, s)),
        CraftingRecipe::FireworkStar(r) => plain(firework_star_output(r, s)),
        CraftingRecipe::FireworkStarFade(r) => plain(firework_fade_output(r, s)),
        CraftingRecipe::MapExtending(r) => plain(map_extending_output(r, input)),
        CraftingRecipe::RepairItem(_) => plain(repair_output(s)),
        CraftingRecipe::ShieldDecoration(r) => plain(shield_output(r, s)),
    }
}

/// The stack crafting `recipe` from `input` yields (a dyed stack still has its
/// color blended in from the returned dyes).
pub fn assemble_recipe(recipe: &CraftingRecipe, input: &CraftingInput) -> (r: Assembled)
    requires
        input.wf(),
        assembly_defined(recipe, input),
    ensures
        r@ == spec_assemble(recipe, input),
{
    let stack = match recipe {
        CraftingRecipe::Shaped(r) => r.result.create(),
        CraftingRecipe::Shapeless(r) => r.result.create(),
        CraftingRecipe::Transmute(r) => assemble_transmute(r, input),
        CraftingRecipe::Dye(r) => {
            return assemble_dye(r, input);
        },
        CraftingRecipe::DecoratedPot(r) => assemble_decorated_pot(r, input),
        CraftingRecipe::Imbue(r) => assemble_imbue(r, input),
        CraftingRecipe::BannerDuplicate(r) => assemble_banner_duplicate(r, input),
        CraftingRecipe::BookCloning(r) => assemble_book_cloning(r, input),
        CraftingRecipe::FireworkRocket(r) => assemble_firework_rocket(r, input),
        CraftingRecipe::FireworkStar(r) => assemble_firework_star(r, input),
        CraftingRecipe::FireworkStarFade(r) => assemble_firework_fade(r, input),
        CraftingRecipe::MapExtending(r) => assemble_map_extending(r, input),
        CraftingRecipe::RepairItem(_) => assemble_repair(input),
        CraftingRecipe::ShieldDecoration(r) => assemble_shield(r, input),
    };
    Assembled { stack, dye_blend: None }
}

// ---------------------------------------------------------------- remainders

/// What one used-up stack leaves in its slot: its item's crafting remainder.
pub open spec fn remainder_of(x: ItemStackModel) -> ItemStackModel {
    if x.is_empty() || spec_crafting_remainder(x.item()) == AIR {
        empty_stack_model()
    } else {
        new_stack_model(spec_crafting_remainder(x.item()), 1)
    }
}

/// The crafting remainder of every slot.
pub open spec fn remainders_of(s: Seq<ItemStackModel>) -> Seq<ItemStackModel> {
    s.map_values(|x: ItemStackModel| remainder_of(x))
}

/// One item of `x`, with its components.
pub open spec fn one_of(x: ItemStackModel) -> ItemStackModel {
    ItemStackModel { count: 1, ..x }
}

/// A book whose slot has no other remainder and that carries written content.
pub open spec fn keeps_book() -> spec_fn(ItemStackModel) -> bool {
    |x: ItemStackModel| remainder_of(x).is_empty() && x.components.written_book_content is Some
}

/// What each slot of the grid keeps after crafting `recipe`: the crafting
/// remainders, plus one copy of each patterned banner for banner duplication,
/// or one copy of the first written book for book cloning.
pub open spec fn remaining_items(recipe: &CraftingRecipe, s: Seq<ItemStackModel>) -> Seq<ItemStackModel> {
    let base = remainders_of(s);
    match recipe {
        CraftingRecipe::BannerDuplicate(_) => Seq::new(
            s.len(),
            |i: int| if base[i].is_empty() && pattern_count(s[i]) > 0 {
                one_of(s[i])
            } else {
                base[i]
            },
        ),
        CraftingRecipe::BookCloning(_) => match first_index(s, keeps_book()) {
            Some(i) => base.update(i, one_of(s[i])),
            None => base,
        },
        _ => base,
    }
}

/// After crafting any recipe, a slot whose stack has a crafting remainder
/// keeps exactly one item of it: a water, lava or milk bucket leaves one
/// empty bucket, a honey bottle or a potion one glass bottle. Every slot of
/// the grid has its remaining stack.
pub proof fn lemma_remainders_stay_in_their_slots(recipe: &CraftingRecipe, s: Seq<ItemStackModel>, k: int)
    requires
        0 <= k < s.len(),
    ensures
        remaining_items(recipe, s).len() == s.len(),
        !s[k].is_empty() && spec_crafting_remainder(s[k].item) != AIR ==> remaining_items(recipe, s)[k]
            == new_stack_model(spec_crafting_remainder(s[k].item), 1),
        !s[k].is_empty() && (s[k].item == crate::items::WATER_BUCKET || s[k].item
            == crate::items::LAVA_BUCKET || s[k].item == crate::items::MILK_BUCKET)
            ==> remaining_items(recipe, s)[k] == new_stack_model(crate::items::BUCKET, 1),
        !s[k].is_empty() && (s[k].item == crate::items::HONEY_BOTTLE || s[k].item
            == crate::items::POTION) ==> remaining_items(recipe, s)[k] == new_stack_model(
            crate::items::GLASS_BOTTLE,
            1,
        ),
{
    let base = remainders_of(s);
    assert(base[k] == remainder_of(s[k]));
    match recipe {
        CraftingRecipe::BookCloning(_) => {
            match first_index(s, keeps_book()) {
                Some(i) => {
                    assert(0 <= i < s.len() && keeps_book()(s[i]));
                },
                None => {},
            }
        },
        _ => {},
    }
}

pub open spec fn stacks_of(v: Seq<ItemStack>) -> Seq<ItemStackModel> {
    v.map_values(|x: ItemStack| x@)
}

fn remainder_stack(stack: &ItemStack) -> (r: ItemStack)
    ensures
        r@ == remainder_of(stack@),
{
    if stack.is_empty() {
        return ItemStack::empty();
    }
    let rem = crafting_remainder_item(stack.item());
    if rem == AIR {
        ItemStack::empty()
    } else {
        ItemStack::new(rem)
    }
}

/// The stacks the grid keeps once `recipe` has been crafted from `input`.
pub fn remaining_items_for(recipe: &CraftingRecipe, input: &CraftingInput) -> (r: Vec<ItemStack>)
    ensures
        stacks_of(r@) == remaining_items(recipe, input.stacks()),
{
    let ghost s = input.stacks();
    let mut remainders: Vec<ItemStack> = Vec::new();
    let mut k: usize = 0;
    while k < input.items.len()
        invariant
            k <= input.items@.len(),
            s == input.stacks(),
            remainders@.len() == k,
            forall|j: int| 0 <= j < k ==> (#[trigger] remainders@[j])@ == remainder_of(s[j]),
        decreases input.items@.len() - k,
    {
        remainders.push(remainder_stack(&input.items[k]));
        k += 1;
    }
    let ghost base = remainders_of(s);
    proof {
        assert(stacks_of(remainders@) =~= base);
    }
    match recipe {
        CraftingRecipe::BannerDuplicate(_) => {
            let mut slot: usize = 0;
            while slot < input.items.len()
                invariant
                    slot <= input.items@.len(),
                    s == input.stacks(),
                    base == remainders_of(s),
                    remainders@.len() == s.len(),
                    forall|j: int| 0 <= j < slot ==> (#[trigger] remainders@[j])@ == (if base[j].is_empty() && pattern_count(s[j]) > 0 {
                        one_of(s[j])
                    } else {
                        base[j]
                    }),
                    forall|j: int| slot <= j < s.len() ==> (#[trigger] remainders@[j])@ == base[j],
                decreases input.items@.len() - slot,
            {
                let stack = &input.items[slot];
                if remainders[slot].is_empty() && has_patterns(stack) {
                    remainders.set(slot, stack.copy_with_count(1));
                }
                slot += 1;
            }
            proof {
                assert(stacks_of(remainders@) =~= remaining_items(recipe, s));
            }
        },
        CraftingRecipe::BookCloning(_) => {
            let ghost p = keeps_book();
            let mut slot: usize = 0;
            while slot < input.items.len()
                invariant
                    slot <= input.items@.len(),
                    s == input.stacks(),
                    p == keeps_book(),
                    recipe is BookCloning,
                    base == remainders_of(s),
                    remainders@.len() == s.len(),
                    stacks_of(remainders@) == base,
                    forall|j: int| 0 <= j < slot ==> !p(#[trigger] s[j]),
                decreases input.items@.len() - slot,
            {
                let stack = &input.items[slot];
                if remainders[slot].is_empty() && stack.components.written_book_content.is_some() {
                    proof {
                        assert(stacks_of(remainders@)[slot as int] == remainders@[slot as int]@);
                        lemma_first_index_is(s, p, slot as int);
                    }
                    remainders.set(slot, stack.copy_with_count(1));
                    proof {
                        assert(stacks_of(remainders@) =~= base.update(slot as int, one_of(s[slot as int])));
                    }
                    return remainders;
                }
                proof {
                    assert(stacks_of(remainders@)[slot as int] == remainders@[slot as int]@);
                }
                slot += 1;
            }
            proof {
                lemma_first_index_none(s, p);
            }
        },
        _ => {},
    }
    remainders
}

// ---------------------------------------------------------------- the crafting grid

/// The stacks of a crafting grid, `width` by `height`, row by row.
#[derive(Debug)]
pub struct CraftingContainer {
    pub width: usize,
    pub height: usize,
    pub items: Vec<ItemStack>,
}

impl CraftingContainer {
    pub open spec fn wf(&self) -> bool {
        self.items@.len() == self.width * self.height
    }

    pub open spec fn stacks(&self) -> Seq<ItemStackModel> {
        stacks_view(self.items@)
    }

    /// The grid cropped to its non-empty stacks.
    pub fn as_positioned_input(&self) -> (r: PositionedCraftingInput)
        requires
            self.wf(),
        ensures
            is_positioned(self.width as int, self.height as int, self.stacks(), r),
    {
        let mut copy: Vec<ItemStack> = Vec::new();
        let mut k: usize = 0;
        while k < self.items.len()
            invariant
                k <= self.items@.len(),
                copy@.len() == k,
                forall|j: int| 0 <= j < k ==> (#[trigger] copy@[j])@ == self.items@[j]@,
            decreases self.items@.len() - k,
        {
            copy.push(self.items[k].duplicate());
            k += 1;
        }
        proof {
            assert(stacks_view(copy@) =~= self.stacks());
        }
        CraftingInput::positioned(self.width, self.height, copy)
    }
}

/// Every written book in the grid can be copied, and any two stacks that the
/// repair recipe would combine can be repaired together, without leaving `i32`.
pub open spec fn grid_assembly_safe(s: Seq<ItemStackModel>) -> bool {
    &&& forall|j: int| 0 <= j < s.len() ==> ((#[trigger] s[j]).components.written_book_content matches Some(c) ==> c.generation < i32::MAX)
    &&& forall|a: int, b: int| 0 <= a < s.len() && 0 <= b < s.len() && repairable_pair(#[trigger] s[a], #[trigger] s[b])
        ==> repair_pair_fits(s[a], s[b])
}

/// Every stack of a cropped grid comes from the original grid.
proof fn lemma_positioned_stack_in_grid(w: int, h: int, s: Seq<ItemStackModel>, p: PositionedCraftingInput, k: int)
    requires
        is_positioned(w, h, s, p),
        s.len() == w * h,
        0 <= k < p.input.stacks().len(),
    ensures
        s.contains(p.input.stacks()[k]),
{
    let nw = p.input.width as int;
    let nh = p.input.height as int;
    assert(p.input.stacks().len() == nw * nh);
    if nw == 0 || nh == 0 {
        assert(nw * nh == 0) by (nonlinear_arith)
            requires
                nw == 0 || nh == 0,
        ;
    }
    assert(w > 0 && h > 0 && crate::recipe::crafting::grid_has_occupied(s, w, h)) by {
        if !(w > 0 && h > 0 && crate::recipe::crafting::grid_has_occupied(s, w, h)) {
            assert(nw * nh == 0) by (nonlinear_arith)
                requires
                    nw == 0,
            ;
        }
    }
    let x = k % nw;
    let y = k / nw;
    assert(k == idx(nw, x, y) && 0 <= x < nw && 0 <= y < nh) by (nonlinear_arith)
        requires
            0 <= k < nw * nh,
            nw > 0,
            x == k % nw,
            y == k / nw,
    ;
    let j = idx(w, x + p.left, y + p.top);
    assert(p.input.stacks()[idx(nw, x, y)] == s[j]);
    crate::recipe::crafting::lemma_idx_bound(w, h, x + p.left, y + p.top);
    assert(s[j] == p.input.stacks()[k]);
}

/// A cropped grid keeps the assembly guarantees of the original grid.
proof fn lemma_positioned_safe(w: int, h: int, s: Seq<ItemStackModel>, p: PositionedCraftingInput)
    requires
        is_positioned(w, h, s, p),
        s.len() == w * h,
        grid_assembly_safe(s),
    ensures
        grid_assembly_safe(p.input.stacks()),
{
    let t = p.input.stacks();
    assert forall|j: int| 0 <= j < t.len() implies ((#[trigger] t[j]).components.written_book_content matches Some(c) ==> c.generation < i32::MAX) by {
        lemma_positioned_stack_in_grid(w, h, s, p, j);
        let i = choose|i: int| 0 <= i < s.len() && s[i] == t[j];
        assert(s[i] == t[j]);
    }
    assert forall|a: int, b: int| 0 <= a < t.len() && 0 <= b < t.len() && repairable_pair(#[trigger] t[a], #[trigger] t[b])
        implies repair_pair_fits(t[a], t[b]) by {
        lemma_positioned_stack_in_grid(w, h, s, p, a);
        lemma_positioned_stack_in_grid(w, h, s, p, b);
        let i = choose|i: int| 0 <= i < s.len() && s[i] == t[a];
        let j = choose|j: int| 0 <= j < s.len() && s[j] == t[b];
        assert(repair_pair_fits(s[i], s[j]));
    }
}

/// A grid whose stacks are all safe satisfies the guards of every recipe that accepts it.
proof fn lemma_matched_assembly_defined(r: &CraftingRecipe, input: &CraftingInput)
    requires
        input.wf(),
        grid_assembly_safe(input.stacks()),
        crate::recipe::matching::spec_matches(r, input),
    ensures
        assembly_defined(r, input),
{
    let s = input.stacks();
    match r {
        CraftingRecipe::BookCloning(b) => {
            match first_index(s, occupied_and(b.source@)) {
                Some(i) => {
                    assert(0 <= i < s.len() && occupied_and(b.source@)(s[i]));
                },
                None => {},
            }
        },
        CraftingRecipe::RepairItem(_) => {
            let occ = occupied_stacks(s);
            if occ.len() >= 2 {
                broadcast use vstd::seq_lib::group_filter_ensures;
                assert(occ.contains(occ[0]));
                assert(occ.contains(occ[1]));
                s.lemma_filter_contains_rev(crate::recipe::matching::occupied_pred(), occ[0]);
                s.lemma_filter_contains_rev(crate::recipe::matching::occupied_pred(), occ[1]);
                let i = choose|i: int| 0 <= i < s.len() && s[i] == occ[0];
                let j = choose|j: int| 0 <= j < s.len() && s[j] == occ[1];
                assert(repairable_pair(s[i], s[j]));
                assert(repair_pair_fits(s[i], s[j]));
            }
        },
        _ => {},
    }
}

/// The first crafting recipe, in registry order, that accepts the cropped grid.
pub fn find_recipe<'a>(registry: &'a RecipeRegistry<VanillaRecipe>, crafting_grid: &CraftingContainer) -> (r: Option<&'a Recipe<VanillaRecipe>>)
    requires
        registry.wf(),
        crafting_grid.wf(),
    ensures
        exists|p: PositionedCraftingInput|
            is_positioned(crafting_grid.width as int, crafting_grid.height as int, crafting_grid.stacks(), p)
                && is_find_result(registry.recipes(), registry.bucket(crafting_key()), &p.input, r),
{
    let positioned = crafting_grid.as_positioned_input();
    let kind = crafting();
    registry.find_match(&kind, &positioned.input)
}

/// The crafted result for the grid: the first accepting crafting recipe,
/// assembled from the cropped grid.
pub fn assemble_for_container(registry: &RecipeRegistry<VanillaRecipe>, crafting_grid: &CraftingContainer) -> (r: Option<Assembled>)
    requires
        registry.wf(),
        crafting_grid.wf(),
        grid_assembly_safe(crafting_grid.stacks()),
    ensures
        exists|p: PositionedCraftingInput, found: Option<&Recipe<VanillaRecipe>>|
            is_positioned(crafting_grid.width as int, crafting_grid.height as int, crafting_grid.stacks(), p)
                && is_find_result(registry.recipes(), registry.bucket(crafting_key()), &p.input, found)
                && match found {
                    None => r is None,
                    Some(rec) => rec.data matches VanillaRecipe::Crafting(cr) && r matches Some(a) && a@ == spec_assemble(&cr, &p.input),
                },
{
    let positioned = crafting_grid.as_positioned_input();
    let kind = crafting();
    let found = registry.find_match(&kind, &positioned.input);
    match found {
        Some(rec) => match &rec.data {
            VanillaRecipe::Crafting(cr) => {
                proof {
                    lemma_positioned_safe(crafting_grid.width as int, crafting_grid.height as int, crafting_grid.stacks(), positioned);
                    lemma_matched_assembly_defined(cr, &positioned.input);
                }
                Some(assemble_recipe(cr, &positioned.input))
            },
            _ => {
                proof {
                    let j = choose|j: int| crate::recipe::registry::is_first_match(registry.recipes(), registry.bucket(crafting_key()), &positioned.input, j)
                        && rec == &registry.recipes()[registry.bucket(crafting_key())[j] as int];
                }
                None
            },
        },
        None => None,
    }
}

/// What the result slot holds after the grid changed: the crafted result, or
/// nothing when no recipe accepts the grid.
pub fn slot_changed_crafting_grid(registry: &RecipeRegistry<VanillaRecipe>, crafting_grid: &CraftingContainer) -> (r: Assembled)
    requires
        registry.wf(),
        crafting_grid.wf(),
        grid_assembly_safe(crafting_grid.stacks()),
    ensures
        exists|p: PositionedCraftingInput, found: Option<&Recipe<VanillaRecipe>>|
            is_positioned(crafting_grid.width as int, crafting_grid.height as int, crafting_grid.stacks(), p)
                && is_find_result(registry.recipes(), registry.bucket(crafting_key()), &p.input, found)
                && match found {
                    None => r@ == plain(empty_stack_model()),
                    Some(rec) => rec.data matches VanillaRecipe::Crafting(cr) && r@ == spec_assemble(&cr, &p.input),
                },
{
    match assemble_for_container(registry, crafting_grid) {
        Some(a) => a,
        None => Assembled { stack: ItemStack::empty(), dye_blend: None },
    }
}

/// The stacks the grid keeps after crafting, in the cropped grid's order,
/// with the cropped grid that places them back.
pub fn get_remaining_items(registry: &RecipeRegistry<VanillaRecipe>, crafting_grid: &CraftingContainer) -> (r: Option<(Vec<ItemStack>, PositionedCraftingInput)>)
    requires
        registry.wf(),
        crafting_grid.wf(),
    ensures
        exists|p: PositionedCraftingInput, found: Option<&Recipe<VanillaRecipe>>|
            is_positioned(crafting_grid.width as int, crafting_grid.height as int, crafting_grid.stacks(), p)
                && is_find_result(registry.recipes(), registry.bucket(crafting_key()), &p.input, found)
                && match found {
                    None => r is None,
                    Some(rec) => rec.data matches VanillaRecipe::Crafting(cr) && r matches Some((rem, q))
                        && q == p && stacks_of(rem@) == remaining_items(&cr, p.input.stacks()),
                },
{
    let positioned = crafting_grid.as_positioned_input();
    let kind = crafting();
    let found = registry.find_match(&kind, &positioned.input);
    match found {
        Some(rec) => match &rec.data {
            VanillaRecipe::Crafting(cr) => {
                let remainders = remaining_items_for(cr, &positioned.input);
                Some((remainders, positioned))
            },
            _ => {
                proof {
                    let j = choose|j: int| crate::recipe::registry::is_first_match(registry.recipes(), registry.bucket(crafting_key()), &positioned.input, j)
                        && rec == &registry.recipes()[registry.bucket(crafting_key())[j] as int];
                }
                None
            },
        },
        None => None,
    }
}

} // verus!
