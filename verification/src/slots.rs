//! Saving and loading the stacks of a fixed row of container slots: each
//! non-empty stack is saved with its slot index, and loading puts every
//! saved stack back into the slot it names.

use vstd::prelude::*;

use crate::item_stack::{empty_stack_model, ItemStack, ItemStackModel};

verus! {

/// Saved entries as plain values.
pub open spec fn entry_models(v: Seq<(i8, ItemStack)>) -> Seq<(i8, ItemStackModel)> {
    v.map_values(|e: (i8, ItemStack)| (e.0, e.1@))
}

/// The entries saved for the first `n` slots: each non-empty stack with its
/// index, in slot order.
pub open spec fn saved_slots(items: Seq<ItemStackModel>, n: int) -> Seq<(i8, ItemStackModel)>
    decreases n,
{
    if n <= 0 {
        Seq::empty()
    } else {
        let prev = saved_slots(items, n - 1);
        if items[n - 1].is_empty() {
            prev
        } else {
            prev.push(((n - 1) as i8, items[n - 1]))
        }
    }
}

/// `base` after placing each entry in order into the slot it names; entries
/// naming no slot of `base` are skipped.
pub open spec fn loaded_slots(base: Seq<ItemStackModel>, entries: Seq<(i8, ItemStackModel)>) -> Seq<ItemStackModel>
    decreases entries.len(),
{
    if entries.len() == 0 {
        base
    } else {
        let prev = loaded_slots(base, entries.drop_last());
        let e = entries.last();
        if 0 <= e.0 < base.len() {
            prev.update(e.0 as int, e.1)
        } else {
            prev
        }
    }
}

/// `n` empty slots.
pub open spec fn empty_slots(n: nat) -> Seq<ItemStackModel> {
    Seq::new(n, |i: int| empty_stack_model())
}

/// Loading into empty slots what was saved of `items` gives back every
/// non-empty stack in its slot and leaves the other slots empty.
pub proof fn lemma_slots_round_trip(items: Seq<ItemStackModel>)
    requires
        items.len() <= 128,
    ensures
        loaded_slots(empty_slots(items.len()), saved_slots(items, items.len() as int)).len() == items.len(),
        forall|i: int| 0 <= i < items.len() ==> {
            let loaded = #[trigger] loaded_slots(empty_slots(items.len()), saved_slots(items, items.len() as int))[i];
            if items[i].is_empty() {
                loaded.is_empty()
            } else {
                loaded == items[i]
            }
        },
{
    lemma_round_trip_prefix(items, items.len() as int);
}

proof fn lemma_loaded_len(base: Seq<ItemStackModel>, entries: Seq<(i8, ItemStackModel)>)
    ensures
        loaded_slots(base, entries).len() == base.len(),
    decreases entries.len(),
{
    if entries.len() > 0 {
        lemma_loaded_len(base, entries.drop_last());
    }
}

proof fn lemma_round_trip_prefix(items: Seq<ItemStackModel>, n: int)
    requires
        items.len() <= 128,
        0 <= n <= items.len(),
    ensures
        forall|i: int| 0 <= i < items.len() ==> {
            let loaded = #[trigger] loaded_slots(empty_slots(items.len()), saved_slots(items, n))[i];
            if i < n && !items[i].is_empty() {
                loaded == items[i]
            } else {
                loaded.is_empty()
            }
        },
        loaded_slots(empty_slots(items.len()), saved_slots(items, n)).len() == items.len(),
    decreases n,
{
    lemma_loaded_len(empty_slots(items.len()), saved_slots(items, n));
    if n > 0 {
        lemma_round_trip_prefix(items, n - 1);
        let prev = saved_slots(items, n - 1);
        if !items[n - 1].is_empty() {
            let cur = prev.push(((n - 1) as i8, items[n - 1]));
            assert(cur.drop_last() =~= prev);
        }
    }
}

} // verus!
