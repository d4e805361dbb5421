//! The furnace menu's slot layout, its shift-click routing, and the furnace
//! fuel and result slots.

use vstd::prelude::*;

use crate::fuel_values::FuelValues;
use crate::furnace::{max_stack_for, FurnaceKind};
use crate::identifier::Identifier;
use crate::item_stack::{empty_stack_model, ItemStack, ItemStackModel};
use crate::items::BUCKET;
use crate::recipe::registry::{is_find_result, RecipeRegistry};
use crate::recipe::single_item::SingleItemRecipeInput;
use crate::recipe::vanilla::VanillaRecipe;

verus! {

/// The menu type opened for each furnace kind.
pub fn menu_type(kind: FurnaceKind) -> (r: Identifier)
    ensures
        r.namespace@ == "minecraft"@,
        r.path@ == match kind {
            FurnaceKind::Furnace => "furnace"@,
            FurnaceKind::BlastFurnace => "blast_furnace"@,
            FurnaceKind::Smoker => "smoker"@,
        },
{
    match kind {
        FurnaceKind::Furnace => Identifier::vanilla("furnace"),
        FurnaceKind::BlastFurnace => Identifier::vanilla("blast_furnace"),
        FurnaceKind::Smoker => Identifier::vanilla("smoker"),
    }
}

/// A contiguous run of menu slots, `start..end`.
#[derive(Clone, Copy, Debug, PartialEq, Eq, Structural)]
pub struct SlotRange {
    pub start: usize,
    pub end: usize,
}

impl SlotRange {
    pub open spec fn spec_contains(self, slot: usize) -> bool {
        self.start <= slot < self.end
    }

    pub fn contains(self, slot: usize) -> (r: bool)
        ensures
            r == self.spec_contains(slot),
    {
        self.start <= slot && slot < self.end
    }
}

/// Where a shift-clicked stack goes next.
#[derive(Clone, Copy, Debug, PartialEq, Eq, Structural)]
pub enum QuickMoveStep {
    /// Nothing moves; the click yields an empty stack.
    Done,
    /// Move the stack into `range`, filling from its end when `backward`.
    MoveTo { range: SlotRange, backward: bool },
}

/// The furnace menu: its kind and its sections of slots.
#[derive(Clone, Copy, Debug)]
pub struct FurnaceMenuKind {
    pub kind: FurnaceKind,
    pub input: SlotRange,
    pub fuel: SlotRange,
    pub result: SlotRange,
    /// The whole player inventory: main rows then hotbar.
    pub player: SlotRange,
    pub player_main: SlotRange,
    pub player_hotbar: SlotRange,
}

impl FurnaceMenuKind {
    /// The vanilla layout: input, fuel and result, then 27 main inventory slots
    /// and 9 hotbar slots.
    pub fn new(kind: FurnaceKind) -> (r: FurnaceMenuKind)
        ensures
            r.kind == kind,
            r.input == (SlotRange { start: 0, end: 1 }),
            r.fuel == (SlotRange { start: 1, end: 2 }),
            r.result == (SlotRange { start: 2, end: 3 }),
            r.player == (SlotRange { start: 3, end: 39 }),
            r.player_main == (SlotRange { start: 3, end: 30 }),
            r.player_hotbar == (SlotRange { start: 30, end: 39 }),
    {
        FurnaceMenuKind {
            kind,
            input: SlotRange { start: 0, end: 1 },
            fuel: SlotRange { start: 1, end: 2 },
            result: SlotRange { start: 2, end: 3 },
            player: SlotRange { start: 3, end: 39 },
            player_main: SlotRange { start: 3, end: 30 },
            player_hotbar: SlotRange { start: 30, end: 39 },
        }
    }

    /// Whether this furnace has a recipe for `stack`.
    pub fn can_smelt(&self, registry: &RecipeRegistry<VanillaRecipe>, stack: &ItemStack) -> (r: bool)
        requires
            registry.wf(),
        ensures
            exists|input: SingleItemRecipeInput, found| input.item@ == stack@ && is_find_result(
                registry.recipes(),
                registry.bucket(crate::recipe::vanilla::vanilla_key(self.kind.recipe_type_path())),
                &input,
                found,
            ) && r == found is Some,
    {
        let recipe_type = self.kind.recipe_type();
        let input = SingleItemRecipeInput::new(stack.duplicate());
        let found = registry.find_match(&recipe_type, &input);
        proof {
            assert(recipe_type.entry.key@ == crate::recipe::vanilla::vanilla_key(self.kind.recipe_type_path()));
        }
        found.is_some()
    }

    /// Where a shift-click sends a stack; see [`Self::quick_move_step`].
    pub open spec fn spec_quick_move_step(
        self,
        fuels: &FuelValues,
        slot_index: usize,
        slot_count: usize,
        clicked: ItemStackModel,
        can_smelt: bool,
    ) -> QuickMoveStep {
        if slot_index >= slot_count || clicked.is_empty() {
            QuickMoveStep::Done
        } else if self.result.spec_contains(slot_index) {
            QuickMoveStep::MoveTo { range: self.player, backward: true }
        } else if self.input.spec_contains(slot_index) || self.fuel.spec_contains(slot_index) {
            QuickMoveStep::MoveTo { range: self.player, backward: false }
        } else if can_smelt {
            QuickMoveStep::MoveTo { range: self.input, backward: false }
        } else if fuels.spec_burn_duration(clicked.item()) > 0 {
            QuickMoveStep::MoveTo { range: self.fuel, backward: false }
        } else if self.player_main.spec_contains(slot_index) {
            QuickMoveStep::MoveTo { range: self.player_hotbar, backward: false }
        } else if self.player_hotbar.spec_contains(slot_index) {
            QuickMoveStep::MoveTo { range: self.player_main, backward: false }
        } else {
            QuickMoveStep::Done
        }
    }

    /// A non-empty stack shift-clicked outside the input, fuel and result
    /// slots goes into the input slot when this furnace can smelt it, even if
    /// it also burns; one that cannot be smelted but burns goes into the fuel
    /// slot. Neither move runs backwards.
    pub proof fn lemma_smeltable_goes_to_input_first(
        self,
        fuels: &FuelValues,
        slot_index: usize,
        slot_count: usize,
        clicked: ItemStackModel,
        can_smelt: bool,
    )
        requires
            slot_index < slot_count,
            !clicked.is_empty(),
            !self.input.spec_contains(slot_index),
            !self.fuel.spec_contains(slot_index),
            !self.result.spec_contains(slot_index),
        ensures
            can_smelt ==> self.spec_quick_move_step(fuels, slot_index, slot_count, clicked, can_smelt)
                == (QuickMoveStep::MoveTo { range: self.input, backward: false }),
            !can_smelt && fuels.spec_burn_duration(clicked.item()) > 0 ==> self.spec_quick_move_step(
                fuels,
                slot_index,
                slot_count,
                clicked,
                can_smelt,
            ) == (QuickMoveStep::MoveTo { range: self.fuel, backward: false }),
    {
    }

    /// Where shift-clicking `clicked` in `slot_index` sends it, with this
    /// furnace's recipes deciding whether it smelts.
    pub fn quick_move_destination(
        &self,
        registry: &RecipeRegistry<VanillaRecipe>,
        fuels: &FuelValues,
        slot_index: usize,
        slot_count: usize,
        clicked: &ItemStack,
    ) -> (r: QuickMoveStep)
        requires
            registry.wf(),
        ensures
            exists|input: SingleItemRecipeInput, found| input.item@ == clicked@ && is_find_result(
                registry.recipes(),
                registry.bucket(crate::recipe::vanilla::vanilla_key(self.kind.recipe_type_path())),
                &input,
                found,
            ) && r == self.spec_quick_move_step(fuels, slot_index, slot_count, clicked@, found is Some),
    {
        let can_smelt = self.can_smelt(registry, clicked);
        self.quick_move_step(fuels, slot_index, slot_count, clicked, can_smelt)
    }

    /// Where shift-clicking `clicked` in `slot_index` sends it: from the result
    /// to the player inventory back to front, from input or fuel to the player
    /// inventory, otherwise into the input when it smelts, into the fuel slot
    /// when it burns, and between main rows and hotbar. `can_smelt` says
    /// whether this furnace has a recipe for `clicked` (see [`Self::can_smelt`]).
    pub fn quick_move_step(
        &self,
        fuels: &FuelValues,
        slot_index: usize,
        slot_count: usize,
        clicked: &ItemStack,
        can_smelt: bool,
    ) -> (r: QuickMoveStep)
        ensures
            r == self.spec_quick_move_step(fuels, slot_index, slot_count, clicked@, can_smelt),
    {
        if slot_index >= slot_count || clicked.is_empty() {
            QuickMoveStep::Done
        } else if self.result.contains(slot_index) {
            QuickMoveStep::MoveTo { range: self.player, backward: true }
        } else if self.input.contains(slot_index) || self.fuel.contains(slot_index) {
            QuickMoveStep::MoveTo { range: self.player, backward: false }
        } else if can_smelt {
            QuickMoveStep::MoveTo { range: self.input, backward: false }
        } else if fuels.is_fuel(clicked.item()) {
            QuickMoveStep::MoveTo { range: self.fuel, backward: false }
        } else if self.player_main.contains(slot_index) {
            QuickMoveStep::MoveTo { range: self.player_hotbar, backward: false }
        } else if self.player_hotbar.contains(slot_index) {
            QuickMoveStep::MoveTo { range: self.player_main, backward: false }
        } else {
            QuickMoveStep::Done
        }
    }

    /// Whether a pick-all gesture may take from `slot_index`: anything but the result.
    pub fn can_take_item_for_pick_all(&self, slot_index: usize) -> (r: bool)
        ensures
            r == !self.result.spec_contains(slot_index),
    {
        !self.result.contains(slot_index)
    }

    /// Whether menu slot `slot_index` accepts `stack`: the input slot takes
    /// anything, smeltable or not, the fuel slot what `FurnaceFuelSlot` takes,
    /// the result slot nothing, and the player's slots anything.
    pub fn may_place(&self, fuels: &FuelValues, slot_index: usize, stack: &ItemStack) -> (r: bool)
        ensures
            r == if self.input.spec_contains(slot_index) {
                true
            } else if self.fuel.spec_contains(slot_index) {
                fuels.spec_burn_duration(stack@.item()) > 0 || stack@.item() == BUCKET
            } else {
                !self.result.spec_contains(slot_index)
            },
    {
        if self.input.contains(slot_index) {
            true
        } else if self.fuel.contains(slot_index) {
            FurnaceFuelSlot::new(slot_index).may_place(fuels, stack)
        } else if self.result.contains(slot_index) {
            FurnaceResultSlot::new(slot_index).may_place(stack)
        } else {
            true
        }
    }
}

/// What a shift-click yields once the move was tried: the clicked stack when
/// some of it moved, else an empty stack. Only then is the source slot's
/// take handled.
pub fn quick_move_outcome(moved: bool, remaining_count: i32, clicked: ItemStack) -> (r: ItemStack)
    ensures
        r@ == if moved && remaining_count != clicked@.count {
            clicked@
        } else {
            empty_stack_model()
        },
{
    if !moved || remaining_count == clicked.count() {
        ItemStack::empty()
    } else {
        clicked
    }
}

/// Accepts furnace fuel and empty buckets; an empty bucket stacks to one.
#[derive(Clone, Copy, Debug)]
pub struct FurnaceFuelSlot {
    pub container_slot: usize,
}

impl FurnaceFuelSlot {
    pub fn new(index: usize) -> (r: FurnaceFuelSlot)
        ensures
            r.container_slot == index,
    {
        FurnaceFuelSlot { container_slot: index }
    }

    pub fn may_place(&self, fuels: &FuelValues, stack: &ItemStack) -> (r: bool)
        ensures
            r == (fuels.spec_burn_duration(stack@.item()) > 0 || stack@.item() == BUCKET),
    {
        fuels.is_fuel(stack.item()) || stack.is(BUCKET)
    }

    pub fn get_max_stack_size_for_item(&self, stack: &ItemStack) -> (r: i32)
        ensures
            r == if stack@.item() == BUCKET {
                1
            } else {
                max_stack_for(stack@)
            },
    {
        if stack.is(BUCKET) {
            1
        } else {
            let own = stack.get_max_stack_size();
            if own < crate::furnace::FURNACE_MAX_STACK_SIZE {
                own
            } else {
                crate::furnace::FURNACE_MAX_STACK_SIZE
            }
        }
    }

    pub fn get_container_slot(&self) -> (r: usize)
        ensures
            r == self.container_slot,
    {
        self.container_slot
    }
}

/// Rejects insertion; taking from it hands out the furnace's experience.
#[derive(Clone, Copy, Debug)]
pub struct FurnaceResultSlot {
    pub container_slot: usize,
}

impl FurnaceResultSlot {
    pub fn new(index: usize) -> (r: FurnaceResultSlot)
        ensures
            r.container_slot == index,
    {
        FurnaceResultSlot { container_slot: index }
    }

    pub fn may_place(&self, stack: &ItemStack) -> (r: bool)
        ensures
            !r,
    {
        false
    }

    pub fn get_container_slot(&self) -> (r: usize)
        ensures
            r == self.container_slot,
    {
        self.container_slot
    }
}

} // verus!
