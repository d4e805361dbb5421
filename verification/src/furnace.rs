//! Furnace, blast furnace and smoker: inventory, fuel, cooking progress and
//! the rules of their sided inventory.

use vstd::prelude::*;

use rustc_hash::FxHashMap;

use crate::fuel_values::FuelValues;
use crate::identifier::{Identifier, IdentifierModel};
use crate::item_stack::{
    empty_stack_model, new_stack_model, spec_same_item_same_components, ItemStack, ItemStackModel,
    ItemStackTemplateModel,
};
use crate::items::{crafting_remainder_item, spec_crafting_remainder, ItemId, AIR, BUCKET, WATER_BUCKET, WET_SPONGE};
use crate::key_index::{no_uses, use_counts, uses_clear, uses_increment, uses_insert, uses_new, uses_take};
use crate::recipe::registry::{spec_cached_find, CachedRecipeCheck, RecipeRegistry};
use crate::recipe::single_item::SingleItemRecipeInput;
use crate::recipe::types::{Recipe, RecipeType};
use crate::recipe::vanilla::{blasting, smelting, smoking, VanillaRecipe};
use crate::recipe_manager::trunc_div;
use crate::slots::{empty_slots, entry_models, lemma_slots_round_trip, loaded_slots, saved_slots};

verus! {

pub const FURNACE_SLOTS: usize = 3;
pub const SLOT_INPUT: usize = 0;
pub const SLOT_FUEL: usize = 1;
pub const SLOT_RESULT: usize = 2;
pub const DEFAULT_COOKING_TIME: i32 = 200;
pub const BURN_COOL_SPEED: i32 = 2;
/// The most items a furnace slot holds.
pub const FURNACE_MAX_STACK_SIZE: i32 = 64;

/// The operational differences between the three furnace block entities.
#[derive(Clone, Copy, Debug, PartialEq, Eq, Structural)]
pub enum FurnaceKind {
    /// Standard smelting furnace.
    Furnace,
    /// Ore and metal blasting furnace.
    BlastFurnace,
    /// Food smoking furnace.
    Smoker,
}

/// A block face.
#[derive(Clone, Copy, Debug, PartialEq, Eq, Structural)]
pub enum Direction {
    Down,
    Up,
    North,
    South,
    West,
    East,
}

impl FurnaceKind {
    /// The path of the recipe type this furnace processes.
    pub open spec fn recipe_type_path(self) -> Seq<char> {
        match self {
            FurnaceKind::Furnace => "smelting"@,
            FurnaceKind::BlastFurnace => "blasting"@,
            FurnaceKind::Smoker => "smoking"@,
        }
    }

    /// The recipe type processed by this furnace.
    pub fn recipe_type(self) -> (r: RecipeType)
        ensures
            r.entry.key.namespace@ == "minecraft"@,
            r.entry.key.path@ == self.recipe_type_path(),
    {
        match self {
            FurnaceKind::Furnace => smelting(),
            FurnaceKind::BlastFurnace => blasting(),
            FurnaceKind::Smoker => smoking(),
        }
    }

    /// Blast furnaces and smokers burn fuel twice as fast.
    pub open spec fn spec_fuel_duration(self, vanilla_duration: i32) -> i32 {
        match self {
            FurnaceKind::Furnace => vanilla_duration,
            _ => trunc_div(vanilla_duration as int, 2) as i32,
        }
    }

    pub fn fuel_duration(self, vanilla_duration: i32) -> (r: i32)
        ensures
            r == self.spec_fuel_duration(vanilla_duration),
    {
        match self {
            FurnaceKind::Furnace => vanilla_duration,
            _ => {
                if vanilla_duration >= 0 {
                    vanilla_duration / 2
                } else if vanilla_duration == i32::MIN {
                    -1073741824i32
                } else {
                    -((-vanilla_duration) / 2)
                }
            },
        }
    }
}

/// What the recipe found for the input contributes to a tick.
pub struct CookingFound {
    pub key: IdentifierModel,
    pub result: ItemStackTemplateModel,
    pub cooking_time: i32,
}

/// The cooking recipe among a lookup's result (a recipe of another kind counts as none).
pub open spec fn cooking_found(r: Option<&Recipe<VanillaRecipe>>) -> Option<CookingFound> {
    match r {
        Some(rec) => match rec.data {
            VanillaRecipe::Cooking(c) => Some(CookingFound { key: rec.key@, result: c.result@, cooking_time: c.cooking_time }),
            _ => None,
        },
        None => None,
    }
}

/// The furnace's slots, fuel and progress.
pub struct FurnaceModel {
    pub items: Seq<ItemStackModel>,
    pub lit_time_remaining: i32,
    pub lit_total_time: i32,
    pub cooking_timer: i32,
    pub cooking_total_time: i32,
    pub uses: Map<IdentifierModel, i32>,
}

/// How many of `st` a furnace slot holds: the stack's own limit, at most 64.
pub open spec fn max_stack_for(st: ItemStackModel) -> i32 {
    if st.max_stack_size() < FURNACE_MAX_STACK_SIZE {
        st.max_stack_size()
    } else {
        FURNACE_MAX_STACK_SIZE
    }
}

/// `result` can go into the result slot holding `current`.
pub open spec fn spec_can_burn(current: ItemStackModel, result: ItemStackModel) -> bool {
    !result.is_empty() && (current.is_empty() || (spec_same_item_same_components(current, result)
        && current.count + result.count <= max_stack_for(result)))
}

/// The stack an item leaves behind once used up: its crafting remainder.
pub open spec fn remainder_stack(item: ItemId) -> ItemStackModel {
    if spec_crafting_remainder(item) == AIR {
        empty_stack_model()
    } else {
        new_stack_model(spec_crafting_remainder(item), 1)
    }
}

/// One fuel item is burnt; a used-up fuel stack leaves its remainder.
pub open spec fn after_consume_fuel(items: Seq<ItemStackModel>) -> Seq<ItemStackModel> {
    let fuel = items[SLOT_FUEL as int];
    let shrunk = ItemStackModel { count: (fuel.count - 1) as i32, ..fuel };
    if shrunk.is_empty() {
        items.update(SLOT_FUEL as int, remainder_stack(fuel.item()))
    } else {
        items.update(SLOT_FUEL as int, shrunk)
    }
}

/// One input item is smelted: the result is added to the result slot, a wet
/// sponge turns an empty fuel bucket into a water bucket, and the recipe's use
/// is counted.
pub open spec fn after_burn(m: FurnaceModel, f: CookingFound) -> FurnaceModel {
    let result = f.result.create();
    let current = m.items[SLOT_RESULT as int];
    let out = if current.is_empty() {
        result
    } else {
        ItemStackModel { count: (current.count + result.count) as i32, ..current }
    };
    let items1 = m.items.update(SLOT_RESULT as int, out);
    let items2 = if items1[SLOT_INPUT as int].item() == WET_SPONGE && items1[SLOT_FUEL as int].item() == BUCKET {
        items1.update(SLOT_FUEL as int, new_stack_model(WATER_BUCKET, 1))
    } else {
        items1
    };
    let input = items2[SLOT_INPUT as int];
    FurnaceModel {
        items: items2.update(SLOT_INPUT as int, ItemStackModel { count: (input.count - 1) as i32, ..input }),
        uses: m.uses.insert(
            f.key,
            if m.uses.contains_key(f.key) {
                (m.uses[f.key] + 1) as i32
            } else {
                1i32
            },
        ),
        ..m
    }
}

/// The fire burns on through this tick, or fuel and an ingredient are there to start it.
pub open spec fn heats(m: FurnaceModel) -> bool {
    m.lit_time_remaining > 1 || (!m.items[SLOT_FUEL as int].is_empty() && !m.items[SLOT_INPUT as int].is_empty())
}

pub open spec fn clamp(v: int, lo: int, hi: int) -> int {
    if v < lo {
        lo
    } else if v > hi {
        hi
    } else {
        v
    }
}

/// One tick of a furnace: the new state, whether it changed, and whether it is lit.
/// `fuel_ticks` is the vanilla burn duration of the fuel slot's item and
/// `found` the cooking recipe found for the input, when one is looked up.
pub open spec fn spec_tick(m: FurnaceModel, kind: FurnaceKind, fuel_ticks: i32, found: Option<CookingFound>) -> (FurnaceModel, bool, bool) {
    let m0 = FurnaceModel {
        lit_time_remaining: if m.lit_time_remaining > 0 {
            (m.lit_time_remaining - 1) as i32
        } else {
            m.lit_time_remaining
        },
        ..m
    };
    let lit0 = m0.lit_time_remaining > 0;
    if heats(m) {
        match found {
            None => (FurnaceModel { cooking_timer: 0, ..m0 }, false, lit0),
            Some(f) => if !spec_can_burn(m0.items[SLOT_RESULT as int], f.result.create()) {
                (FurnaceModel { cooking_timer: 0, ..m0 }, false, lit0)
            } else {
                let d = kind.spec_fuel_duration(fuel_ticks);
                let (m1, lit1, ch1) = if lit0 {
                    (m0, true, false)
                } else {
                    let mf = FurnaceModel { lit_time_remaining: d, lit_total_time: d, ..m0 };
                    if d > 0 {
                        (FurnaceModel { items: after_consume_fuel(mf.items), ..mf }, true, true)
                    } else {
                        (mf, false, false)
                    }
                };
                if lit1 {
                    if m1.cooking_timer + 1 == m1.cooking_total_time {
                        (after_burn(FurnaceModel { cooking_timer: 0, cooking_total_time: f.cooking_time, ..m1 }, f), true, true)
                    } else {
                        (FurnaceModel { cooking_timer: (m1.cooking_timer + 1) as i32, ..m1 }, ch1, true)
                    }
                } else {
                    (FurnaceModel { cooking_timer: 0, ..m1 }, ch1, false)
                }
            },
        }
    } else if m.cooking_timer > 0 {
        (FurnaceModel {
            cooking_timer: clamp(m.cooking_timer - BURN_COOL_SPEED, 0, m.cooking_total_time as int) as i32,
            ..m0
        }, false, lit0)
    } else {
        (m0, false, lit0)
    }
}

/// The counts of saved per-recipe entries, a later entry for a key replacing an earlier one.
pub open spec fn counts_of(entries: Seq<(Identifier, i32)>) -> Map<IdentifierModel, i32>
    decreases entries.len(),
{
    if entries.len() == 0 {
        no_uses()
    } else {
        counts_of(entries.drop_last()).insert(entries.last().0@, entries.last().1)
    }
}

/// Whether a tick changed the furnace and whether it is lit afterwards.
#[derive(Clone, Copy, Debug)]
pub struct FurnaceTickResult {
    pub changed: bool,
    pub lit_changed: bool,
    pub is_lit: bool,
}

/// The furnace's inventory, fuel and cooking progress.
pub struct FurnaceContainer<'a> {
    kind: FurnaceKind,
    items: Vec<ItemStack>,
    lit_time_remaining: i32,
    lit_total_time: i32,
    cooking_timer: i32,
    cooking_total_time: i32,
    recipes_used: FxHashMap<Identifier, i32>,
    quick_check: CachedRecipeCheck<'a, VanillaRecipe>,
}

pub open spec fn stack_models(v: Seq<ItemStack>) -> Seq<ItemStackModel> {
    v.map_values(|x: ItemStack| x@)
}

impl<'a> FurnaceContainer<'a> {
    pub closed spec fn model(&self) -> FurnaceModel {
        FurnaceModel {
            items: stack_models(self.items@),
            lit_time_remaining: self.lit_time_remaining,
            lit_total_time: self.lit_total_time,
            cooking_timer: self.cooking_timer,
            cooking_total_time: self.cooking_total_time,
            uses: use_counts(self.recipes_used),
        }
    }

    pub closed spec fn kind(&self) -> FurnaceKind {
        self.kind
    }

    /// The recipe remembered by the input lookup.
    pub closed spec fn cached(&self) -> Option<&'a Recipe<VanillaRecipe>> {
        self.quick_check.cached()
    }

    /// The key of the recipe type the lookup scans.
    pub closed spec fn recipe_type_key(&self) -> IdentifierModel {
        self.quick_check.recipe_type().entry.key@
    }

    /// Three slots, and a lookup of this furnace's recipe type.
    pub closed spec fn wf(&self) -> bool {
        &&& self.items@.len() == FURNACE_SLOTS
        &&& self.quick_check.cache_wf()
        &&& self.quick_check.recipe_type().entry.key.namespace@ == "minecraft"@
        &&& self.quick_check.recipe_type().entry.key.path@ == self.kind.recipe_type_path()
    }

    /// What looking up the recipe for input `item` gives from `registry`.
    pub open spec fn lookup(&self, registry: &RecipeRegistry<VanillaRecipe>, input: &SingleItemRecipeInput) -> Option<&'a Recipe<VanillaRecipe>> {
        spec_cached_find(self.cached(), registry.recipes(), registry.bucket(self.recipe_type_key()), input)
    }

    pub fn new(kind: FurnaceKind) -> (r: FurnaceContainer<'a>)
        ensures
            r.wf(),
            r.kind() == kind,
            r.cached() is None,
            r.model() == (FurnaceModel {
                items: seq![empty_stack_model(), empty_stack_model(), empty_stack_model()],
                lit_time_remaining: 0,
                lit_total_time: 0,
                cooking_timer: 0,
                cooking_total_time: 0,
                uses: no_uses(),
            }),
    {
        let items = vec![ItemStack::empty(), ItemStack::empty(), ItemStack::empty()];
        let r = FurnaceContainer {
            kind,
            items,
            lit_time_remaining: 0,
            lit_total_time: 0,
            cooking_timer: 0,
            cooking_total_time: 0,
            recipes_used: uses_new(),
            quick_check: CachedRecipeCheck::new(kind.recipe_type()),
        };
        assert(stack_models(r.items@) =~= seq![empty_stack_model(), empty_stack_model(), empty_stack_model()]);
        r
    }

    /// The progress values a furnace menu shows, each cut to 16 bits.
    pub fn data(&self) -> (r: [i16; 4])
        ensures
            r@ == seq![
                self.model().lit_time_remaining as i16,
                self.model().lit_total_time as i16,
                self.model().cooking_timer as i16,
                self.model().cooking_total_time as i16,
            ],
    {
        let r = [
            self.lit_time_remaining as i16,
            self.lit_total_time as i16,
            self.cooking_timer as i16,
            self.cooking_total_time as i16,
        ];
        assert(r@ =~= seq![
            self.model().lit_time_remaining as i16,
            self.model().lit_total_time as i16,
            self.model().cooking_timer as i16,
            self.model().cooking_total_time as i16,
        ]);
        r
    }

    fn recipe_for_input(&mut self, registry: &'a RecipeRegistry<VanillaRecipe>) -> (r: Option<&'a Recipe<VanillaRecipe>>)
        requires
            old(self).wf(),
            registry.wf(),
        ensures
            final(self).wf(),
            final(self).model() == old(self).model(),
            final(self).kind() == old(self).kind(),
            final(self).recipe_type_key() == old(self).recipe_type_key(),
            final(self).cached() == if r is Some { r } else { old(self).cached() },
            exists|input: SingleItemRecipeInput| input.item@ == old(self).model().items[SLOT_INPUT as int]
                && r == old(self).lookup(registry, &input),
    {
        let input = SingleItemRecipeInput::new(self.items[SLOT_INPUT].duplicate());
        let r = self.quick_check.find_match(registry, &input);
        proof {
            assert(stack_models(self.items@)[SLOT_INPUT as int] == self.items@[SLOT_INPUT as int]@);
            assert(input.item@ == old(self).model().items[SLOT_INPUT as int]);
            assert(r == old(self).lookup(registry, &input));
        }
        r
    }

    /// How many of `stack` a furnace slot holds.
    pub fn get_max_stack_size_for_item(&self, stack: &ItemStack) -> (r: i32)
        ensures
            r == max_stack_for(stack@),
    {
        let own = stack.get_max_stack_size();
        if own < FURNACE_MAX_STACK_SIZE {
            own
        } else {
            FURNACE_MAX_STACK_SIZE
        }
    }

    fn can_burn(&self, result: &ItemStack) -> (r: bool)
        requires
            self.wf(),
        ensures
            r == spec_can_burn(self.model().items[SLOT_RESULT as int], result@),
    {
        if result.is_empty() {
            return false;
        }
        let current = &self.items[SLOT_RESULT];
        proof {
            assert(self.model().items[SLOT_RESULT as int] == current@);
        }
        if current.is_empty() {
            return true;
        }
        if !ItemStack::is_same_item_same_components(current, result) {
            return false;
        }
        (current.count() as i64) + (result.count() as i64) <= (self.get_max_stack_size_for_item(result) as i64)
    }

    fn consume_fuel(&mut self)
        requires
            old(self).wf(),
            !old(self).model().items[SLOT_FUEL as int].is_empty(),
        ensures
            final(self).wf(),
            final(self).kind() == old(self).kind(),
            final(self).cached() == old(self).cached(),
            final(self).recipe_type_key() == old(self).recipe_type_key(),
            final(self).model() == (FurnaceModel { items: after_consume_fuel(old(self).model().items), ..old(self).model() }),
    {
        let fuel_item = self.items[SLOT_FUEL].item();
        let fuel_count = self.items[SLOT_FUEL].count();
        let shrunk = self.items[SLOT_FUEL].copy_with_count(fuel_count - 1);
        proof {
            assert(stack_models(self.items@)[SLOT_FUEL as int] == self.items@[SLOT_FUEL as int]@);
        }
        if shrunk.is_empty() {
            let remainder = crafting_remainder_item(fuel_item);
            if remainder == AIR {
                self.items.set(SLOT_FUEL, ItemStack::empty());
            } else {
                self.items.set(SLOT_FUEL, ItemStack::new(remainder));
            }
        } else {
            self.items.set(SLOT_FUEL, shrunk);
        }
        proof {
            assert(stack_models(self.items@) =~= after_consume_fuel(old(self).model().items));
        }
    }

    fn burn(&mut self, key: &Identifier, cooking: &crate::recipe::single_item::CookingRecipe)
        requires
            old(self).wf(),
            spec_can_burn(old(self).model().items[SLOT_RESULT as int], cooking.result@.create()),
            !old(self).model().items[SLOT_INPUT as int].is_empty(),
            old(self).model().uses.contains_key(key@) ==> old(self).model().uses[key@] < i32::MAX,
        ensures
            final(self).wf(),
            final(self).kind() == old(self).kind(),
            final(self).cached() == old(self).cached(),
            final(self).recipe_type_key() == old(self).recipe_type_key(),
            final(self).model() == after_burn(
                old(self).model(),
                CookingFound { key: key@, result: cooking.result@, cooking_time: cooking.cooking_time },
            ),
    {
        let ghost m = old(self).model();
        proof {
            assert(stack_models(self.items@)[SLOT_RESULT as int] == self.items@[SLOT_RESULT as int]@);
            assert(stack_models(self.items@)[SLOT_INPUT as int] == self.items@[SLOT_INPUT as int]@);
            assert(stack_models(self.items@)[SLOT_FUEL as int] == self.items@[SLOT_FUEL as int]@);
        }
        let result = cooking.result.create();
        if self.items[SLOT_RESULT].is_empty() {
            self.items.set(SLOT_RESULT, result);
        } else {
            let current = self.items[SLOT_RESULT].count();
            let grown = self.items[SLOT_RESULT].copy_with_count(current + result.count());
            self.items.set(SLOT_RESULT, grown);
        }
        proof {
            assert(stack_models(self.items@)[SLOT_INPUT as int] == self.items@[SLOT_INPUT as int]@);
            assert(stack_models(self.items@)[SLOT_FUEL as int] == self.items@[SLOT_FUEL as int]@);
        }
        if self.items[SLOT_INPUT].is(WET_SPONGE) && self.items[SLOT_FUEL].is(BUCKET) {
            self.items.set(SLOT_FUEL, ItemStack::new(WATER_BUCKET));
        }
        proof {
            assert(stack_models(self.items@)[SLOT_INPUT as int] == self.items@[SLOT_INPUT as int]@);
        }
        let input_count = self.items[SLOT_INPUT].count();
        let shrunk = self.items[SLOT_INPUT].copy_with_count(input_count - 1);
        self.items.set(SLOT_INPUT, shrunk);
        uses_increment(&mut self.recipes_used, key.duplicate());
        proof {
            let f = CookingFound { key: key@, result: cooking.result@, cooking_time: cooking.cooking_time };
            assert(stack_models(self.items@) =~= after_burn(m, f).items);
        }
    }

    /// Finds the recipe for the current input and restarts cooking with its time
    /// (the default time when there is none).
    fn reset_cooking_for_input(&mut self, registry: &'a RecipeRegistry<VanillaRecipe>)
        requires
            old(self).wf(),
            registry.wf(),
        ensures
            final(self).wf(),
            final(self).kind() == old(self).kind(),
            final(self).recipe_type_key() == old(self).recipe_type_key(),
            exists|input: SingleItemRecipeInput| input.item@ == old(self).model().items[SLOT_INPUT as int] && {
                let found = old(self).lookup(registry, &input);
                &&& final(self).cached() == if found is Some { found } else { old(self).cached() }
                &&& final(self).model() == (FurnaceModel {
                    cooking_total_time: match cooking_found(found) {
                        Some(f) => f.cooking_time,
                        None => DEFAULT_COOKING_TIME,
                    },
                    cooking_timer: 0,
                    ..old(self).model()
                })
            },
    {
        let found = self.recipe_for_input(registry);
        self.cooking_total_time = match found {
            Some(recipe) => match &recipe.data {
                VanillaRecipe::Cooking(c) => c.cooking_time,
                _ => DEFAULT_COOKING_TIME,
            },
            None => DEFAULT_COOKING_TIME,
        };
        self.cooking_timer = 0;
    }

    /// Advances the furnace by one game tick.
    pub fn tick(&mut self, registry: &'a RecipeRegistry<VanillaRecipe>, fuels: &FuelValues) -> (r: FurnaceTickResult)
        requires
            old(self).wf(),
            registry.wf(),
            old(self).model().cooking_timer < i32::MAX,
            !heats(old(self).model()) && old(self).model().cooking_timer > 0 ==> old(self).model().cooking_total_time >= 0,
            forall|k: IdentifierModel| #[trigger] old(self).model().uses.contains_key(k) ==> old(self).model().uses[k] < i32::MAX,
        ensures
            final(self).wf(),
            final(self).kind() == old(self).kind(),
            final(self).recipe_type_key() == old(self).recipe_type_key(),
            r.lit_changed == ((old(self).model().lit_time_remaining > 0) != r.is_lit),
            exists|input: SingleItemRecipeInput| input.item@ == old(self).model().items[SLOT_INPUT as int] && {
                let found = old(self).lookup(registry, &input);
                let fuel_ticks = fuels.spec_burn_duration(old(self).model().items[SLOT_FUEL as int].item());
                &&& heats(old(self).model()) ==> (final(self).model(), r.changed, r.is_lit) == spec_tick(
                    old(self).model(),
                    old(self).kind(),
                    fuel_ticks,
                    cooking_found(found),
                ) && final(self).cached() == if found is Some { found } else { old(self).cached() }
                &&& !heats(old(self).model()) ==> (final(self).model(), r.changed, r.is_lit) == spec_tick(
                    old(self).model(),
                    old(self).kind(),
                    fuel_ticks,
                    None,
                ) && final(self).cached() == old(self).cached()
            },
    {
        let ghost m = old(self).model();
        proof {
            assert(stack_models(self.items@)[SLOT_INPUT as int] == self.items@[SLOT_INPUT as int]@);
            assert(stack_models(self.items@)[SLOT_FUEL as int] == self.items@[SLOT_FUEL as int]@);
        }
        let was_lit = self.lit_time_remaining > 0;
        if was_lit {
            self.lit_time_remaining = self.lit_time_remaining - 1;
        }
        let mut is_lit = self.lit_time_remaining > 0;
        let mut changed = false;
        let has_ingredient = !self.items[SLOT_INPUT].is_empty();
        let has_fuel = !self.items[SLOT_FUEL].is_empty();
        let fuel_item = self.items[SLOT_FUEL].item();
        let ghost input_witness = SingleItemRecipeInput { item: self.items@[SLOT_INPUT as int] };
        if is_lit || (has_fuel && has_ingredient) {
            let found = self.recipe_for_input(registry);
            let ghost m0 = self.model();
            match found {
                Some(recipe) => match &recipe.data {
                    VanillaRecipe::Cooking(cooking) => {
                        let result = cooking.result.create();
                        if self.can_burn(&result) {
                            if !is_lit {
                                let vanilla_duration = fuels.burn_duration(fuel_item);
                                let duration = self.kind.fuel_duration(vanilla_duration);
                                self.lit_time_remaining = duration;
                                self.lit_total_time = duration;
                                if duration > 0 {
                                    self.consume_fuel();
                                    is_lit = true;
                                    changed = true;
                                }
                            }
                            if is_lit {
                                self.cooking_timer = self.cooking_timer + 1;
                                if self.cooking_timer == self.cooking_total_time {
                                    self.cooking_timer = 0;
                                    self.cooking_total_time = cooking.cooking_time;
                                    proof {
                                        assert(stack_models(self.items@)[SLOT_INPUT as int] == self.items@[SLOT_INPUT as int]@);
                                        assert(stack_models(self.items@)[SLOT_RESULT as int] == self.items@[SLOT_RESULT as int]@);
                                        assert(self.model().uses == m.uses);
                                        if m.uses.contains_key(recipe.key@) {
                                            assert(m.uses[recipe.key@] < i32::MAX);
                                        }
                                    }
                                    self.burn(&recipe.key, cooking);
                                    changed = true;
                                }
                            } else {
                                self.cooking_timer = 0;
                            }
                        } else {
                            self.cooking_timer = 0;
                        }
                    },
                    _ => {
                        self.cooking_timer = 0;
                    },
                },
                None => {
                    self.cooking_timer = 0;
                },
            }
        } else if self.cooking_timer > 0 {
            let cooled = self.cooking_timer - BURN_COOL_SPEED;
            self.cooking_timer = if cooled < 0 {
                0
            } else if cooled > self.cooking_total_time {
                self.cooking_total_time
            } else {
                cooled
            };
        }
        proof {
            assert(input_witness.item@ == m.items[SLOT_INPUT as int]);
        }
        FurnaceTickResult { changed, lit_changed: was_lit != is_lit, is_lit }
    }

    /// Hands out the per-recipe smelt counts and starts counting from zero.
    pub fn take_recipes_used(&mut self) -> (r: FxHashMap<Identifier, i32>)
        requires
            old(self).wf(),
        ensures
            final(self).wf(),
            use_counts(r) == old(self).model().uses,
            final(self).model() == (FurnaceModel { uses: no_uses(), ..old(self).model() }),
            final(self).kind() == old(self).kind(),
            final(self).cached() == old(self).cached(),
            final(self).recipe_type_key() == old(self).recipe_type_key(),
    {
        uses_take(&mut self.recipes_used)
    }

    /// The per-recipe smelt counts.
    pub fn recipes_used(&self) -> (r: &FxHashMap<Identifier, i32>)
        ensures
            use_counts(*r) == self.model().uses,
    {
        &self.recipes_used
    }

    /// The three slots: input, fuel, result.
    pub fn items(&self) -> (r: &Vec<ItemStack>)
        ensures
            stack_models(r@) == self.model().items,
    {
        &self.items
    }

    pub fn lit_time_remaining(&self) -> (r: i32)
        ensures
            r == self.model().lit_time_remaining,
    {
        self.lit_time_remaining
    }

    pub fn lit_total_time(&self) -> (r: i32)
        ensures
            r == self.model().lit_total_time,
    {
        self.lit_total_time
    }

    pub fn cooking_timer(&self) -> (r: i32)
        ensures
            r == self.model().cooking_timer,
    {
        self.cooking_timer
    }

    pub fn cooking_total_time(&self) -> (r: i32)
        ensures
            r == self.model().cooking_total_time,
    {
        self.cooking_total_time
    }

    /// Puts `stack` into `slot` (ignored out of range), cut to what the slot
    /// holds; a new kind of input restarts cooking.
    pub fn set_item(&mut self, registry: &'a RecipeRegistry<VanillaRecipe>, slot: usize, stack: ItemStack)
        requires
            old(self).wf(),
            registry.wf(),
        ensures
            final(self).wf(),
            final(self).kind() == old(self).kind(),
            final(self).recipe_type_key() == old(self).recipe_type_key(),
            slot >= FURNACE_SLOTS ==> final(self).model() == old(self).model() && final(self).cached() == old(self).cached(),
            slot < FURNACE_SLOTS ==> {
                let placed = if stack@.count > max_stack_for(stack@) {
                    ItemStackModel { count: max_stack_for(stack@), ..stack@ }
                } else {
                    stack@
                };
                let items = old(self).model().items.update(slot as int, placed);
                let same_input = slot == SLOT_INPUT && !stack@.is_empty()
                    && spec_same_item_same_components(old(self).model().items[slot as int], stack@);
                &&& (slot != SLOT_INPUT || same_input) ==> final(self).model() == (FurnaceModel { items, ..old(self).model() })
                    && final(self).cached() == old(self).cached()
                &&& (slot == SLOT_INPUT && !same_input) ==> exists|input: SingleItemRecipeInput| input.item@ == placed && {
                    let found = old(self).lookup(registry, &input);
                    &&& final(self).cached() == if found is Some { found } else { old(self).cached() }
                    &&& final(self).model() == (FurnaceModel {
                        items,
                        cooking_total_time: match cooking_found(found) {
                            Some(f) => f.cooking_time,
                            None => DEFAULT_COOKING_TIME,
                        },
                        cooking_timer: 0,
                        ..old(self).model()
                    })
                }
            },
    {
        if slot >= FURNACE_SLOTS {
            return;
        }
        proof {
            assert(stack_models(self.items@)[slot as int] == self.items@[slot as int]@);
        }
        let same_input = slot == SLOT_INPUT && !stack.is_empty() && ItemStack::is_same_item_same_components(&self.items[slot], &stack);
        let max_size = self.get_max_stack_size_for_item(&stack);
        let mut stack = stack;
        if stack.count() > max_size {
            stack.set_count(max_size);
        }
        let ghost placed = stack@;
        self.items.set(slot, stack);
        proof {
            assert(stack_models(self.items@) =~= old(self).model().items.update(slot as int, placed));
        }
        if slot == SLOT_INPUT && !same_input {
            self.reset_cooking_for_input(registry);
        }
    }

    /// The most items any furnace slot holds.
    pub fn get_max_stack_size(&self) -> (r: i32)
        ensures
            r == FURNACE_MAX_STACK_SIZE,
    {
        FURNACE_MAX_STACK_SIZE
    }

    /// Whether `stack` may be put into `slot` by automation: never into the
    /// result, fuel or an empty bucket (while the fuel slot holds no bucket)
    /// into the fuel slot, anything into the input.
    pub fn can_place_item(&self, fuels: &FuelValues, slot: usize, stack: &ItemStack) -> (r: bool)
        requires
            self.wf(),
        ensures
            r == if slot == SLOT_RESULT {
                false
            } else if slot == SLOT_FUEL {
                fuels.spec_burn_duration(stack@.item()) > 0 || (stack@.item() == BUCKET
                    && self.model().items[SLOT_FUEL as int].item() != BUCKET)
            } else {
                true
            },
    {
        if slot == SLOT_RESULT {
            false
        } else if slot == SLOT_FUEL {
            proof {
                assert(stack_models(self.items@)[SLOT_FUEL as int] == self.items@[SLOT_FUEL as int]@);
            }
            fuels.is_fuel(stack.item()) || (stack.is(BUCKET) && !self.items[SLOT_FUEL].is(BUCKET))
        } else {
            true
        }
    }

    /// The slots automation reaches through `direction`: the input from above,
    /// result and fuel from below, the fuel from the sides.
    pub fn slots_for_face(&self, direction: Direction) -> (r: Option<Vec<usize>>)
        ensures
            r matches Some(v) && v@ == match direction {
                Direction::Down => seq![SLOT_RESULT, SLOT_FUEL],
                Direction::Up => seq![SLOT_INPUT],
                _ => seq![SLOT_FUEL],
            },
    {
        Some(match direction {
            Direction::Down => vec![SLOT_RESULT, SLOT_FUEL],
            Direction::Up => vec![SLOT_INPUT],
            _ => vec![SLOT_FUEL],
        })
    }

    /// Automation takes anything except, from below, fuel that is not a bucket
    /// or a water bucket.
    pub fn can_take_item_through_face(&self, slot: usize, stack: &ItemStack, direction: Direction) -> (r: bool)
        ensures
            r == (direction != Direction::Down || slot != SLOT_FUEL || stack@.item() == WATER_BUCKET
                || stack@.item() == BUCKET),
    {
        direction != Direction::Down || slot != SLOT_FUEL || stack.is(WATER_BUCKET) || stack.is(BUCKET)
    }

    /// The non-empty stacks with their slots, in slot order.
    pub fn save_items(&self) -> (r: Vec<(i8, ItemStack)>)
        requires
            self.wf(),
        ensures
            entry_models(r@) == saved_slots(self.model().items, FURNACE_SLOTS as int),
    {
        let mut r: Vec<(i8, ItemStack)> = Vec::new();
        let mut slot: usize = 0;
        while slot < FURNACE_SLOTS
            invariant
                slot <= FURNACE_SLOTS,
                self.wf(),
                entry_models(r@) == saved_slots(self.model().items, slot as int),
            decreases FURNACE_SLOTS - slot,
        {
            proof {
                assert(self.model().items[slot as int] == self.items@[slot as int]@);
            }
            if !self.items[slot].is_empty() {
                r.push((slot as i8, self.items[slot].duplicate()));
                proof {
                    assert(entry_models(r@) =~= saved_slots(self.model().items, slot as int).push(((slot as int) as i8, self.model().items[slot as int])));
                }
            }
            slot += 1;
        }
        r
    }

    /// Restores saved contents: stacks for the slots named (others are
    /// ignored), the four progress values (zero when absent), and the
    /// per-recipe counts (a later count for the same key wins).
    pub fn load(
        &mut self,
        items: Vec<(i8, ItemStack)>,
        cooking_time_spent: Option<i16>,
        cooking_total_time: Option<i16>,
        lit_time_remaining: Option<i16>,
        lit_total_time: Option<i16>,
        recipes: Vec<(Identifier, i32)>,
    )
        requires
            old(self).wf(),
        ensures
            final(self).wf(),
            final(self).kind() == old(self).kind(),
            final(self).cached() == old(self).cached(),
            final(self).recipe_type_key() == old(self).recipe_type_key(),
            final(self).model().cooking_timer == (match cooking_time_spent { Some(v) => v as i32, None => 0 }),
            final(self).model().cooking_total_time == (match cooking_total_time { Some(v) => v as i32, None => 0 }),
            final(self).model().lit_time_remaining == (match lit_time_remaining { Some(v) => v as i32, None => 0 }),
            final(self).model().lit_total_time == (match lit_total_time { Some(v) => v as i32, None => 0 }),
            final(self).model().items == loaded_slots(empty_slots(FURNACE_SLOTS as nat), entry_models(items@)),
            final(self).model().items.len() == FURNACE_SLOTS,
            final(self).model().uses == counts_of(recipes@),
    {
        let ghost base = empty_slots(FURNACE_SLOTS as nat);
        self.items.set(0, ItemStack::empty());
        self.items.set(1, ItemStack::empty());
        self.items.set(2, ItemStack::empty());
        proof {
            assert(stack_models(self.items@) =~= base);
        }
        let mut k: usize = 0;
        while k < items.len()
            invariant
                k <= items@.len(),
                self.items@.len() == FURNACE_SLOTS,
                self.kind == old(self).kind,
                self.quick_check == old(self).quick_check,
                base == empty_slots(FURNACE_SLOTS as nat),
                stack_models(self.items@) == loaded_slots(base, entry_models(items@.take(k as int))),
            decreases items@.len() - k,
        {
            let slot = items[k].0;
            proof {
                assert(entry_models(items@.take(k + 1)).drop_last() =~= entry_models(items@.take(k as int)));
                assert(entry_models(items@.take(k + 1)).last() == (items@[k as int].0, items@[k as int].1@));
            }
            if slot >= 0 && (slot as usize) < FURNACE_SLOTS {
                let ghost prev = stack_models(self.items@);
                self.items.set(slot as usize, items[k].1.duplicate());
                proof {
                    assert(stack_models(self.items@) =~= prev.update(slot as int, items@[k as int].1@));
                }
            }
            k += 1;
        }
        proof {
            crate::util::lemma_take_full(items@);
        }
        uses_clear(&mut self.recipes_used);
        let mut j: usize = 0;
        while j < recipes.len()
            invariant
                j <= recipes@.len(),
                self.items@.len() == FURNACE_SLOTS,
                self.kind == old(self).kind,
                self.quick_check == old(self).quick_check,
                stack_models(self.items@) == loaded_slots(base, entry_models(items@)),
                use_counts(self.recipes_used) == counts_of(recipes@.take(j as int)),
            decreases recipes@.len() - j,
        {
            uses_insert(&mut self.recipes_used, recipes[j].0.duplicate(), recipes[j].1);
            proof {
                assert(recipes@.take(j + 1).drop_last() =~= recipes@.take(j as int));
            }
            j += 1;
        }
        proof {
            crate::util::lemma_take_full(recipes@);
        }
        self.cooking_timer = match cooking_time_spent { Some(v) => v as i32, None => 0 };
        self.cooking_total_time = match cooking_total_time { Some(v) => v as i32, None => 0 };
        self.lit_time_remaining = match lit_time_remaining { Some(v) => v as i32, None => 0 };
        self.lit_total_time = match lit_total_time { Some(v) => v as i32, None => 0 };
    }
}

/// The experience (as single-precision float bits) that cooking with the
/// recipe stored under `key` rewards per use; none when no cooking recipe is
/// stored under it.
pub fn cooking_experience(registry: &RecipeRegistry<VanillaRecipe>, key: &Identifier) -> (r: Option<u32>)
    requires
        registry.wf(),
    ensures
        match r {
            Some(bits) => exists|i: int| 0 <= i < registry.recipes().len() && #[trigger] registry.recipes()[i].key@ == key@
                && (registry.recipes()[i].data matches VanillaRecipe::Cooking(c) && c.experience_bits == bits),
            None => forall|i: int| 0 <= i < registry.recipes().len() && #[trigger] registry.recipes()[i].key@ == key@
                ==> !(registry.recipes()[i].data is Cooking),
        },
{
    proof {
        registry.lemma_keys_unique();
    }
    match registry.by_key(key) {
        Some(recipe) => match &recipe.data {
            VanillaRecipe::Cooking(c) => Some(c.experience_bits),
            _ => None,
        },
        None => None,
    }
}

/// A time that fits 16 bits is saved without loss.
pub open spec fn fits_i16(t: i32) -> bool {
    i16::MIN <= t <= i16::MAX
}

/// A furnace that will not burn this tick (its fire goes out or is already
/// out, and it lacks fuel or an input to be lit) loses cooking progress two
/// ticks at a time: a positive timer `t` becomes `t - 2`, but never less than
/// zero nor more than the total cooking time. Its stacks stay as they were,
/// and nothing counts as changed.
pub proof fn lemma_unlit_furnace_cools_down(
    m: FurnaceModel,
    kind: FurnaceKind,
    fuel_ticks: i32,
    found: Option<CookingFound>,
)
    requires
        !heats(m),
        m.cooking_timer > 0,
        m.cooking_total_time >= 0,
    ensures
        spec_tick(m, kind, fuel_ticks, found).0.cooking_timer == (if m.cooking_timer - 2 < 0 {
            0
        } else if m.cooking_timer - 2 > m.cooking_total_time {
            m.cooking_total_time as int
        } else {
            m.cooking_timer - 2
        }),
        0 <= spec_tick(m, kind, fuel_ticks, found).0.cooking_timer <= m.cooking_total_time,
        m.cooking_timer > 2 && m.cooking_total_time >= m.cooking_timer ==> spec_tick(
            m,
            kind,
            fuel_ticks,
            found,
        ).0.cooking_timer == m.cooking_timer - 2,
        spec_tick(m, kind, fuel_ticks, found).0.items == m.items,
        spec_tick(m, kind, fuel_ticks, found).0.cooking_total_time == m.cooking_total_time,
        !spec_tick(m, kind, fuel_ticks, found).1,
{
}

/// Loading what a furnace saved (its non-empty stacks with their slots and
/// its four times cut to 16 bits) gives back every non-empty stack in its
/// slot, the other slots empty, and each time that fits 16 bits exactly.
pub proof fn lemma_furnace_round_trip(m: FurnaceModel)
    requires
        m.items.len() == FURNACE_SLOTS,
    ensures
        loaded_slots(empty_slots(FURNACE_SLOTS as nat), saved_slots(m.items, FURNACE_SLOTS as int)).len() == FURNACE_SLOTS,
        forall|i: int| 0 <= i < FURNACE_SLOTS ==> {
            let loaded = #[trigger] loaded_slots(empty_slots(FURNACE_SLOTS as nat), saved_slots(m.items, FURNACE_SLOTS as int))[i];
            if m.items[i].is_empty() {
                loaded.is_empty()
            } else {
                loaded == m.items[i]
            }
        },
        fits_i16(m.cooking_timer) ==> (m.cooking_timer as i16) as i32 == m.cooking_timer,
        fits_i16(m.cooking_total_time) ==> (m.cooking_total_time as i16) as i32 == m.cooking_total_time,
        fits_i16(m.lit_time_remaining) ==> (m.lit_time_remaining as i16) as i32 == m.lit_time_remaining,
        fits_i16(m.lit_total_time) ==> (m.lit_total_time as i16) as i32 == m.lit_total_time,
{
    lemma_slots_round_trip(m.items);
}

} // verus!
