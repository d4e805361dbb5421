//! Campfire cooking: four independently cooking positions.

use vstd::prelude::*;

use crate::furnace::{clamp, cooking_found, stack_models, BURN_COOL_SPEED};
use crate::item_stack::{empty_stack_model, ItemStack, ItemStackModel};
use crate::recipe::registry::{
    lemma_find_result_is_first_match, spec_first_match, RecipeRegistry,
};
use crate::recipe::single_item::SingleItemRecipeInput;
use crate::slots::{empty_slots, entry_models, lemma_slots_round_trip, loaded_slots, saved_slots};
use crate::recipe::types::Recipe;
use crate::recipe::vanilla::{campfire_cooking, vanilla_key, VanillaRecipe};

verus! {

/// Number of independently cooking item positions on a campfire.
pub const CAMPFIRE_SLOTS: usize = 4;

/// The items on a campfire with each one's cooking progress and total time.
#[derive(Debug)]
pub struct CampfireCookingState {
    pub items: Vec<ItemStack>,
    pub cooking_progress: Vec<i32>,
    pub cooking_time: Vec<i32>,
}

/// A campfire's contents as plain values.
pub struct CampfireModel {
    pub items: Seq<ItemStackModel>,
    pub cooking_progress: Seq<i32>,
    pub cooking_time: Seq<i32>,
}

/// The campfire-cooking recipe found for `input` in `registry`.
pub open spec fn campfire_lookup<'a>(registry: &'a RecipeRegistry<VanillaRecipe>, input: &SingleItemRecipeInput) -> Option<&'a Recipe<VanillaRecipe>> {
    spec_first_match(registry.recipes(), registry.bucket(vanilla_key("campfire_cooking"@)), input)
}

fn find_campfire_recipe<'a>(registry: &'a RecipeRegistry<VanillaRecipe>, stack: &ItemStack) -> (r: Option<&'a Recipe<VanillaRecipe>>)
    requires
        registry.wf(),
    ensures
        exists|input: SingleItemRecipeInput| input.item@ == stack@ && r == campfire_lookup(registry, &input),
{
    let recipe_type = campfire_cooking();
    let input = SingleItemRecipeInput::new(stack.duplicate());
    let r = registry.find_match(&recipe_type, &input);
    proof {
        assert(recipe_type.entry.key@ == vanilla_key("campfire_cooking"@));
        lemma_find_result_is_first_match(registry.recipes(), registry.bucket(vanilla_key("campfire_cooking"@)), &input, r);
        assert(r == campfire_lookup(registry, &input));
    }
    r
}

/// Position of the first empty item on the campfire.
pub open spec fn first_empty(items: Seq<ItemStackModel>) -> Option<int> {
    crate::util::first_index(items, empty_pred())
}

pub open spec fn empty_pred() -> spec_fn(ItemStackModel) -> bool {
    |x: ItemStackModel| x.is_empty()
}

impl CampfireCookingState {
    pub open spec fn wf(&self) -> bool {
        &&& self.items@.len() == CAMPFIRE_SLOTS
        &&& self.cooking_progress@.len() == CAMPFIRE_SLOTS
        &&& self.cooking_time@.len() == CAMPFIRE_SLOTS
    }

    pub open spec fn model(&self) -> CampfireModel {
        CampfireModel {
            items: stack_models(self.items@),
            cooking_progress: self.cooking_progress@,
            cooking_time: self.cooking_time@,
        }
    }

    /// An empty campfire.
    pub fn new() -> (r: CampfireCookingState)
        ensures
            r.wf(),
            r.model().items == seq![empty_stack_model(), empty_stack_model(), empty_stack_model(), empty_stack_model()],
            r.model().cooking_progress == seq![0i32, 0, 0, 0],
            r.model().cooking_time == seq![0i32, 0, 0, 0],
    {
        let r = CampfireCookingState {
            items: vec![ItemStack::empty(), ItemStack::empty(), ItemStack::empty(), ItemStack::empty()],
            cooking_progress: vec![0, 0, 0, 0],
            cooking_time: vec![0, 0, 0, 0],
        };
        assert(stack_models(r.items@) =~= seq![empty_stack_model(), empty_stack_model(), empty_stack_model(), empty_stack_model()]);
        r
    }

    /// Puts one item of `stack` on the first free position when a campfire
    /// recipe cooks it, with that recipe's cooking time and no progress; whether
    /// it was placed. The rest of the stack stays with the caller.
    pub fn place_food(&mut self, registry: &RecipeRegistry<VanillaRecipe>, stack: ItemStack) -> (r: bool)
        requires
            old(self).wf(),
            registry.wf(),
        ensures
            final(self).wf(),
            exists|input: SingleItemRecipeInput| input.item@ == stack@ && {
                let found = campfire_lookup(registry, &input);
                match (found, first_empty(old(self).model().items)) {
                    (Some(rec), Some(slot)) => r && final(self).model() == (CampfireModel {
                        items: old(self).model().items.update(slot, ItemStackModel { count: 1, ..stack@ }),
                        cooking_progress: old(self).model().cooking_progress.update(slot, 0),
                        cooking_time: old(self).model().cooking_time.update(slot, match rec.data {
                            VanillaRecipe::Cooking(c) => c.cooking_time,
                            _ => old(self).model().cooking_time[slot],
                        }),
                    }),
                    _ => !r && final(self).model() == old(self).model(),
                }
            },
    {
        let found = find_campfire_recipe(registry, &stack);
        let ghost input = choose|input: SingleItemRecipeInput| input.item@ == stack@ && found == campfire_lookup(registry, &input);
        let recipe = match found {
            Some(recipe) => recipe,
            None => {
                return false;
            },
        };
        let ghost p = empty_pred();
        let mut slot: usize = 0;
        while slot < CAMPFIRE_SLOTS
            invariant
                slot <= CAMPFIRE_SLOTS,
                self.wf(),
                self.model() == old(self).model(),
                p == empty_pred(),
                input.item@ == stack@,
                found == campfire_lookup(registry, &input),
                found == Some(recipe),
                forall|j: int| 0 <= j < slot ==> !p(#[trigger] self.model().items[j]),
            decreases CAMPFIRE_SLOTS - slot,
        {
            proof {
                assert(self.model().items[slot as int] == self.items@[slot as int]@);
            }
            if self.items[slot].is_empty() {
                proof {
                    crate::util::lemma_first_index_is(self.model().items, p, slot as int);
                }
                match &recipe.data {
                    VanillaRecipe::Cooking(c) => {
                        self.cooking_time.set(slot, c.cooking_time);
                    },
                    _ => {},
                }
                self.cooking_progress.set(slot, 0);
                let one = stack.copy_with_count(1);
                let ghost placed = one@;
                self.items.set(slot, one);
                proof {
                    assert(stack_models(self.items@) =~= old(self).model().items.update(slot as int, placed));
                    assert(self.cooking_progress@ =~= old(self).model().cooking_progress.update(slot as int, 0));
                    assert(self.cooking_time@ =~= old(self).model().cooking_time.update(slot as int, match recipe.data {
                        VanillaRecipe::Cooking(c) => c.cooking_time,
                        _ => old(self).model().cooking_time[slot as int],
                    }));
                    assert(first_empty(old(self).model().items) == Some(slot as int));
                }
                return true;
            }
            slot += 1;
        }
        proof {
            crate::util::lemma_first_index_none(self.model().items, p);
        }
        false
    }
}

/// A finished item: the recipe's result when a cooking recipe was found, else the item itself.
pub open spec fn cooked_by(found: Option<&Recipe<VanillaRecipe>>, item: ItemStackModel) -> ItemStackModel {
    match cooking_found(found) {
        Some(f) => f.result.create(),
        None => item,
    }
}

/// `result` is what cooking `item` on a campfire gives: the cooked result of
/// the campfire recipe found for it, or the item itself when none is.
pub open spec fn cooks_to(registry: &RecipeRegistry<VanillaRecipe>, item: ItemStackModel, result: ItemStackModel) -> bool {
    exists|input: SingleItemRecipeInput|
        #![trigger campfire_lookup(registry, &input)]
        input.item@ == item && result == cooked_by(campfire_lookup(registry, &input), item)
}

/// The item at `slot` is done cooking on this tick.
pub open spec fn finishes(m: CampfireModel, slot: int) -> bool {
    !m.items[slot].is_empty() && m.cooking_progress[slot] + 1 >= m.cooking_time[slot]
}

/// The slots below `n` whose items finish this tick, in order.
pub open spec fn finishing_slots(m: CampfireModel, n: int) -> Seq<int>
    decreases n,
{
    if n <= 0 {
        Seq::empty()
    } else {
        let prev = finishing_slots(m, n - 1);
        if finishes(m, n - 1) {
            prev.push(n - 1)
        } else {
            prev
        }
    }
}

/// The campfire after a lit tick: every item advances by one; finished items leave.
pub open spec fn after_cook_tick(m: CampfireModel) -> CampfireModel {
    CampfireModel {
        items: Seq::new(CAMPFIRE_SLOTS as nat, |i: int| if finishes(m, i) { empty_stack_model() } else { m.items[i] }),
        cooking_progress: Seq::new(CAMPFIRE_SLOTS as nat, |i: int| if m.items[i].is_empty() {
            m.cooking_progress[i]
        } else {
            (m.cooking_progress[i] + 1) as i32
        }),
        cooking_time: m.cooking_time,
    }
}

/// The campfire after an unlit tick: progress falls back by two, kept within the cooking time.
pub open spec fn after_cooldown_tick(m: CampfireModel) -> CampfireModel {
    CampfireModel {
        cooking_progress: Seq::new(CAMPFIRE_SLOTS as nat, |i: int| if m.cooking_progress[i] > 0 {
            clamp(m.cooking_progress[i] - BURN_COOL_SPEED, 0, m.cooking_time[i] as int) as i32
        } else {
            m.cooking_progress[i]
        }),
        ..m
    }
}

/// A saved array of per-slot values, read back: zero past its end or when absent.
pub open spec fn loaded_values(values: Option<Seq<i32>>) -> Seq<i32> {
    Seq::new(CAMPFIRE_SLOTS as nat, |i: int| match values {
        Some(v) => if i < v.len() { v[i] } else { 0 },
        None => 0,
    })
}

/// Loading what was saved gives back every non-empty item at its slot, empty
/// slots as empty, and the progress and cooking times exactly.
pub proof fn lemma_campfire_round_trip(m: CampfireModel)
    requires
        m.items.len() == CAMPFIRE_SLOTS,
        m.cooking_progress.len() == CAMPFIRE_SLOTS,
        m.cooking_time.len() == CAMPFIRE_SLOTS,
    ensures
        forall|i: int| 0 <= i < CAMPFIRE_SLOTS ==> {
            let loaded = #[trigger] loaded_slots(empty_slots(CAMPFIRE_SLOTS as nat), saved_slots(m.items, CAMPFIRE_SLOTS as int))[i];
            if m.items[i].is_empty() {
                loaded.is_empty()
            } else {
                loaded == m.items[i]
            }
        },
        loaded_slots(empty_slots(CAMPFIRE_SLOTS as nat), saved_slots(m.items, CAMPFIRE_SLOTS as int)).len() == CAMPFIRE_SLOTS,
        loaded_values(Some(m.cooking_progress)) == m.cooking_progress,
        loaded_values(Some(m.cooking_time)) == m.cooking_time,
{
    lemma_slots_round_trip(m.items);
    assert(loaded_values(Some(m.cooking_progress)) =~= m.cooking_progress);
    assert(loaded_values(Some(m.cooking_time)) =~= m.cooking_time);
}

impl CampfireCookingState {
    /// One lit tick: every item cooks one step further; the finished ones leave
    /// the campfire and come back, in slot order, as their cooked results.
    /// Also says whether anything was cooking.
    pub fn cook_tick(&mut self, registry: &RecipeRegistry<VanillaRecipe>) -> (r: (bool, Vec<ItemStack>))
        requires
            old(self).wf(),
            registry.wf(),
            forall|i: int| 0 <= i < CAMPFIRE_SLOTS && !old(self).model().items[i].is_empty() ==> old(self).model().cooking_progress[i] < i32::MAX,
        ensures
            final(self).wf(),
            final(self).model() == after_cook_tick(old(self).model()),
            r.0 == exists|i: int| 0 <= i < CAMPFIRE_SLOTS && !old(self).model().items[i].is_empty(),
            r.1@.len() == finishing_slots(old(self).model(), CAMPFIRE_SLOTS as int).len(),
            forall|j: int| 0 <= j < r.1@.len() ==> cooks_to(registry,
                old(self).model().items[finishing_slots(old(self).model(), CAMPFIRE_SLOTS as int)[j]],
                (#[trigger] r.1@[j])@),
    {
        let ghost m = old(self).model();
        let mut completed: Vec<ItemStack> = Vec::new();
        let mut changed = false;
        let mut slot: usize = 0;
        while slot < CAMPFIRE_SLOTS
            invariant
                slot <= CAMPFIRE_SLOTS,
                self.wf(),
                m == old(self).model(),
                m.items.len() == CAMPFIRE_SLOTS,
                m.cooking_progress.len() == CAMPFIRE_SLOTS,
                m.cooking_time.len() == CAMPFIRE_SLOTS,
                registry.wf(),
                forall|i: int| 0 <= i < CAMPFIRE_SLOTS && !m.items[i].is_empty() ==> m.cooking_progress[i] < i32::MAX,
                forall|i: int| 0 <= i < slot ==> #[trigger] self.model().items[i] == after_cook_tick(m).items[i],
                forall|i: int| 0 <= i < slot ==> #[trigger] self.model().cooking_progress[i] == after_cook_tick(m).cooking_progress[i],
                forall|i: int| slot <= i < CAMPFIRE_SLOTS ==> #[trigger] self.model().items[i] == m.items[i],
                forall|i: int| slot <= i < CAMPFIRE_SLOTS ==> #[trigger] self.model().cooking_progress[i] == m.cooking_progress[i],
                self.cooking_time@ == m.cooking_time,
                changed == exists|i: int| 0 <= i < slot && !m.items[i].is_empty(),
                completed@.len() == finishing_slots(m, slot as int).len(),
                forall|j: int| 0 <= j < completed@.len() ==> cooks_to(registry,
                    m.items[finishing_slots(m, slot as int)[j]], (#[trigger] completed@[j])@),
            decreases CAMPFIRE_SLOTS - slot,
        {
            let ghost before = completed@;
            let ghost pre = self.model();
            let ghost pre_items = self.items@;
            proof {
                assert(self.model().items[slot as int] == self.items@[slot as int]@);
                assert(self.model().items[slot as int] == m.items[slot as int]);
                assert(self.model().cooking_progress[slot as int] == m.cooking_progress[slot as int]);
                if !finishes(m, slot as int) {
                    assert(finishing_slots(m, slot + 1) == finishing_slots(m, slot as int));
                }
            }
            if !self.items[slot].is_empty() {
                changed = true;
                let progress = self.cooking_progress[slot] + 1;
                self.cooking_progress.set(slot, progress);
                if progress >= self.cooking_time[slot] {
                    let item = self.items[slot].duplicate();
                    self.items.set(slot, ItemStack::empty());
                    let found = find_campfire_recipe(registry, &item);
                    let result = match found {
                        Some(recipe) => match &recipe.data {
                            VanillaRecipe::Cooking(c) => c.result.create(),
                            _ => item,
                        },
                        None => item,
                    };
                    completed.push(result);
                    proof {
                        assert(finishes(m, slot as int));
                        assert(finishing_slots(m, slot + 1) == finishing_slots(m, slot as int).push(slot as int));
                        let input = choose|input: SingleItemRecipeInput| input.item@ == m.items[slot as int] && found == campfire_lookup(registry, &input);
                        assert(completed@.last()@ == cooked_by(campfire_lookup(registry, &input), m.items[slot as int]));
                        assert(cooks_to(registry, m.items[slot as int], completed@.last()@));
                        assert forall|j: int| 0 <= j < completed@.len() implies cooks_to(registry,
                            m.items[finishing_slots(m, slot + 1)[j]], (#[trigger] completed@[j])@) by {
                            if j < before.len() {
                                assert(completed@[j] == before[j]);
                                assert(finishing_slots(m, slot + 1)[j] == finishing_slots(m, slot as int)[j]);
                            } else {
                                assert(finishing_slots(m, slot + 1)[j] == slot as int);
                            }
                        }
                    }
                }
            }
            proof {
                assert forall|i: int| 0 <= i < slot + 1 implies #[trigger] self.model().items[i] == after_cook_tick(m).items[i] by {
                    assert(self.model().items[i] == self.items@[i]@);
                    if i < slot {
                        assert(self.items@[i] == pre_items[i]);
                        assert(pre.items[i] == pre_items[i]@);
                    }
                }
                assert forall|i: int| slot + 1 <= i < CAMPFIRE_SLOTS implies #[trigger] self.model().items[i] == m.items[i] by {
                    assert(self.model().items[i] == self.items@[i]@);
                    assert(self.items@[i] == pre_items[i]);
                    assert(pre.items[i] == pre_items[i]@);
                }
            }
            slot += 1;
        }
        proof {
            assert(self.model().items =~= after_cook_tick(m).items);
            assert(self.model().cooking_progress =~= after_cook_tick(m).cooking_progress);
        }
        (changed, completed)
    }

    /// One unlit tick: progress falls back by two, kept within the cooking
    /// time. Says whether any progress fell back.
    pub fn cooldown_tick(&mut self) -> (r: bool)
        requires
            old(self).wf(),
            forall|i: int| 0 <= i < CAMPFIRE_SLOTS && old(self).model().cooking_progress[i] > 0 ==> old(self).model().cooking_time[i] >= 0,
        ensures
            final(self).wf(),
            final(self).model() == after_cooldown_tick(old(self).model()),
            r == exists|i: int| 0 <= i < CAMPFIRE_SLOTS && old(self).model().cooking_progress[i] > 0,
    {
        let ghost m = old(self).model();
        let mut changed = false;
        let mut slot: usize = 0;
        while slot < CAMPFIRE_SLOTS
            invariant
                slot <= CAMPFIRE_SLOTS,
                self.wf(),
                m == old(self).model(),
                self.model().items == m.items,
                self.cooking_time@ == m.cooking_time,
                forall|i: int| 0 <= i < CAMPFIRE_SLOTS && m.cooking_progress[i] > 0 ==> m.cooking_time[i] >= 0,
                forall|i: int| 0 <= i < slot ==> #[trigger] self.cooking_progress@[i] == after_cooldown_tick(m).cooking_progress[i],
                forall|i: int| slot <= i < CAMPFIRE_SLOTS ==> #[trigger] self.cooking_progress@[i] == m.cooking_progress[i],
                changed == exists|i: int| 0 <= i < slot && m.cooking_progress[i] > 0,
            decreases CAMPFIRE_SLOTS - slot,
        {
            let progress = self.cooking_progress[slot];
            if progress > 0 {
                let time = self.cooking_time[slot];
                let cooled = progress - BURN_COOL_SPEED;
                let clamped = if cooled < 0 {
                    0
                } else if cooled > time {
                    time
                } else {
                    cooled
                };
                self.cooking_progress.set(slot, clamped);
                changed = true;
            }
            slot += 1;
        }
        proof {
            assert(self.cooking_progress@ =~= after_cooldown_tick(m).cooking_progress);
        }
        changed
    }

    /// The non-empty items with their slots, in slot order.
    pub fn save_items(&self) -> (r: Vec<(i8, ItemStack)>)
        requires
            self.wf(),
        ensures
            entry_models(r@) == saved_slots(self.model().items, CAMPFIRE_SLOTS as int),
    {
        let mut r: Vec<(i8, ItemStack)> = Vec::new();
        let mut slot: usize = 0;
        while slot < CAMPFIRE_SLOTS
            invariant
                slot <= CAMPFIRE_SLOTS,
                self.wf(),
                entry_models(r@) == saved_slots(self.model().items, slot as int),
            decreases CAMPFIRE_SLOTS - slot,
        {
            proof {
                assert(self.model().items[slot as int] == self.items@[slot as int]@);
            }
            if !self.items[slot].is_empty() {
                r.push((slot as i8, self.items[slot].duplicate()));
                proof {
                    assert(entry_models(r@) =~= saved_slots(self.model().items, slot as int).push(((slot as int) as i8, self.model().items[slot as int])));
                }
            }
            slot += 1;
        }
        r
    }

    /// Restores saved contents: stacks for the slots named (others ignored),
    /// and each slot's progress and cooking time (zero when not saved).
    pub fn load(&mut self, items: Vec<(i8, ItemStack)>, cooking_times: Option<Vec<i32>>, cooking_total_times: Option<Vec<i32>>)
        requires
            old(self).wf(),
        ensures
            final(self).wf(),
            final(self).model().items == loaded_slots(empty_slots(CAMPFIRE_SLOTS as nat), entry_models(items@)),
            final(self).model().cooking_progress == loaded_values(match cooking_times { Some(v) => Some(v@), None => None }),
            final(self).model().cooking_time == loaded_values(match cooking_total_times { Some(v) => Some(v@), None => None }),
    {
        self.items.set(0, ItemStack::empty());
        self.items.set(1, ItemStack::empty());
        self.items.set(2, ItemStack::empty());
        self.items.set(3, ItemStack::empty());
        proof {
            assert(stack_models(self.items@) =~= empty_slots(CAMPFIRE_SLOTS as nat));
        }
        let mut k: usize = 0;
        while k < items.len()
            invariant
                k <= items@.len(),
                self.wf(),
                stack_models(self.items@) == loaded_slots(empty_slots(CAMPFIRE_SLOTS as nat), entry_models(items@.take(k as int))),
            decreases items@.len() - k,
        {
            let slot = items[k].0;
            proof {
                assert(entry_models(items@.take(k + 1)).drop_last() =~= entry_models(items@.take(k as int)));
                assert(entry_models(items@.take(k + 1)).last() == (items@[k as int].0, items@[k as int].1@));
            }
            if slot >= 0 && (slot as usize) < CAMPFIRE_SLOTS {
                let ghost prev = stack_models(self.items@);
                self.items.set(slot as usize, items[k].1.duplicate());
                proof {
                    assert(stack_models(self.items@) =~= prev.update(slot as int, items@[k as int].1@));
                }
            }
            k += 1;
        }
        proof {
            crate::util::lemma_take_full(items@);
        }
        self.cooking_progress = read_values(&cooking_times);
        self.cooking_time = read_values(&cooking_total_times);
    }
}

impl CampfireCookingState {
    /// Takes every item off the campfire (to drop them when it is removed),
    /// leaving all four positions empty; progress and times stay.
    pub fn take_items(&mut self) -> (r: Vec<ItemStack>)
        requires
            old(self).wf(),
        ensures
            final(self).wf(),
            stack_models(r@) == old(self).model().items,
            final(self).model() == (CampfireModel { items: empty_slots(CAMPFIRE_SLOTS as nat), ..old(self).model() }),
    {
        let mut items = vec![ItemStack::empty(), ItemStack::empty(), ItemStack::empty(), ItemStack::empty()];
        std::mem::swap(&mut items, &mut self.items);
        assert(stack_models(self.items@) =~= empty_slots(CAMPFIRE_SLOTS as nat));
        items
    }

    /// One tick: cooking while the campfire is lit, cooling down otherwise.
    /// Gives whether anything changed and the items that finished cooking.
    pub fn tick(&mut self, lit: bool, registry: &RecipeRegistry<VanillaRecipe>) -> (r: (bool, Vec<ItemStack>))
        requires
            old(self).wf(),
            registry.wf(),
            forall|i: int| 0 <= i < CAMPFIRE_SLOTS && !old(self).model().items[i].is_empty() ==> old(self).model().cooking_progress[i] < i32::MAX,
            forall|i: int| 0 <= i < CAMPFIRE_SLOTS && old(self).model().cooking_progress[i] > 0 ==> old(self).model().cooking_time[i] >= 0,
        ensures
            final(self).wf(),
            lit ==> final(self).model() == after_cook_tick(old(self).model()),
            lit ==> r.0 == exists|i: int| 0 <= i < CAMPFIRE_SLOTS && !old(self).model().items[i].is_empty(),
            lit ==> r.1@.len() == finishing_slots(old(self).model(), CAMPFIRE_SLOTS as int).len(),
            lit ==> forall|j: int| 0 <= j < r.1@.len() ==> cooks_to(registry,
                old(self).model().items[finishing_slots(old(self).model(), CAMPFIRE_SLOTS as int)[j]],
                (#[trigger] r.1@[j])@),
            !lit ==> final(self).model() == after_cooldown_tick(old(self).model()),
            !lit ==> r.0 == exists|i: int| 0 <= i < CAMPFIRE_SLOTS && old(self).model().cooking_progress[i] > 0,
            !lit ==> r.1@.len() == 0,
    {
        if lit {
            self.cook_tick(registry)
        } else {
            let changed = self.cooldown_tick();
            (changed, Vec::new())
        }
    }
}

/// Per-slot values read from an optional saved array.
fn read_values(values: &Option<Vec<i32>>) -> (r: Vec<i32>)
    ensures
        r@ == loaded_values(match values { Some(v) => Some(v@), None => None }),
{
    let mut r: Vec<i32> = Vec::new();
    let mut slot: usize = 0;
    while slot < CAMPFIRE_SLOTS
        invariant
            slot <= CAMPFIRE_SLOTS,
            r@.len() == slot,
            forall|i: int| 0 <= i < slot ==> #[trigger] r@[i] == loaded_values(match values { Some(v) => Some(v@), None => None })[i],
        decreases CAMPFIRE_SLOTS - slot,
    {
        let value = match values {
            Some(v) => if slot < v.len() { v[slot] } else { 0 },
            None => 0,
        };
        r.push(value);
        slot += 1;
    }
    assert(r@ =~= loaded_values(match values { Some(v) => Some(v@), None => None }));
    r
}

} // verus!
