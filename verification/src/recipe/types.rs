//! Recipe traits, operational recipe types, keyed recipes and the type registry.

use vstd::prelude::*;

use rustc_hash::FxHashMap;

use crate::identifier::{Identifier, IdentifierModel};
use crate::key_index::{slot_entries, slots_get, slots_insert, slots_new};
use crate::recipe::properties::RecipeProperties;

verus! {

/// Immutable input snapshot used while matching a recipe type.
pub trait RecipeInput {
    /// The snapshot is internally consistent.
    spec fn input_wf(&self) -> bool;

    /// The snapshot holds nothing to craft from.
    spec fn spec_is_empty(&self) -> bool;

    fn is_empty(&self) -> (r: bool)
        requires
            self.input_wf(),
        ensures
            r == self.spec_is_empty(),
    ;
}

/// Passive data stored by a recipe.
pub trait RecipeData {
    /// The data is internally consistent.
    spec fn data_wf(&self) -> bool;

    /// The name of the data's kind; the recipe type a recipe is registered
    /// under must name the same data kind.
    spec fn data_type_key(&self) -> &'static str;

    /// The recipe's metadata, when it has any.
    fn properties(&self) -> (r: Option<&RecipeProperties>)
        default_ensures
            r is None,
    {
        None
    }
}

/// Matching behaviour of one recipe data type for its input snapshot.
pub trait RecipeMatches<I: RecipeInput>: RecipeData {
    /// Whether this recipe accepts `input`.
    spec fn spec_matches(&self, input: &I) -> bool;

    fn matches(&self, input: &I) -> (r: bool)
        requires
            self.data_wf(),
            input.input_wf(),
        ensures
            r == self.spec_matches(input),
    ;
}

/// A registered operational recipe type.
#[derive(Debug)]
pub struct RecipeTypeEntry {
    pub key: Identifier,
    pub data_type_key: String,
    pub input_type_key: String,
}

impl RecipeTypeEntry {
    pub fn data_type_key(&self) -> (r: &str)
        ensures
            r@ == self.data_type_key@,
    {
        self.data_type_key.as_str()
    }

    pub fn input_type_key(&self) -> (r: &str)
        ensures
            r@ == self.input_type_key@,
    {
        self.input_type_key.as_str()
    }

    pub fn duplicate(&self) -> (r: RecipeTypeEntry)
        ensures
            r.key@ == self.key@,
            r.data_type_key@ == self.data_type_key@,
            r.input_type_key@ == self.input_type_key@,
    {
        RecipeTypeEntry {
            key: self.key.duplicate(),
            data_type_key: self.data_type_key.clone(),
            input_type_key: self.input_type_key.clone(),
        }
    }
}

/// Handle for an operational recipe type: its key and the names of its data
/// and input snapshot types.
#[derive(Debug)]
pub struct RecipeType {
    pub entry: RecipeTypeEntry,
}

impl RecipeType {
    pub fn new(key: Identifier, data_type_key: &str, input_type_key: &str) -> (r: RecipeType)
        ensures
            r.entry.key == key,
            r.entry.data_type_key@ == data_type_key@,
            r.entry.input_type_key@ == input_type_key@,
    {
        RecipeType {
            entry: RecipeTypeEntry {
                key,
                data_type_key: data_type_key.to_owned(),
                input_type_key: input_type_key.to_owned(),
            },
        }
    }

    pub fn entry(&self) -> (r: &RecipeTypeEntry)
        ensures
            r == &self.entry,
    {
        &self.entry
    }

    pub fn key(&self) -> (r: &Identifier)
        ensures
            r == &self.entry.key,
    {
        &self.entry.key
    }
}

/// A keyed recipe of one operational type.
#[derive(Debug)]
pub struct Recipe<D> {
    pub key: Identifier,
    /// Key of the recipe's operational type.
    pub recipe_type: Identifier,
    /// The data and input kinds named by the recipe type it was made with.
    pub type_data_key: String,
    pub type_input_key: String,
    pub data: D,
}

impl<D> Recipe<D> {
    pub fn new(key: Identifier, recipe_type: &RecipeType, data: D) -> (r: Recipe<D>)
        ensures
            r.key == key,
            r.recipe_type@ == recipe_type.entry.key@,
            r.type_data_key@ == recipe_type.entry.data_type_key@,
            r.type_input_key@ == recipe_type.entry.input_type_key@,
            r.data == data,
    {
        Recipe {
            key,
            recipe_type: recipe_type.entry.key.duplicate(),
            type_data_key: recipe_type.entry.data_type_key.clone(),
            type_input_key: recipe_type.entry.input_type_key.clone(),
            data,
        }
    }

    pub fn key(&self) -> (r: &Identifier)
        ensures
            r == &self.key,
    {
        &self.key
    }

    pub fn recipe_type(&self) -> (r: &Identifier)
        ensures
            r == &self.recipe_type,
    {
        &self.recipe_type
    }

    pub fn data(&self) -> (r: &D)
        ensures
            r == &self.data,
    {
        &self.data
    }
}

/// Registry of operational recipe types, each key at most once.
pub struct RecipeTypeRegistry {
    types: Vec<RecipeTypeEntry>,
    by_key: FxHashMap<Identifier, usize>,
    allows_registering: bool,
}

impl RecipeTypeRegistry {
    /// The registered entries, in registration order.
    pub closed spec fn entries(&self) -> Seq<RecipeTypeEntry> {
        self.types@
    }

    pub closed spec fn is_frozen(&self) -> bool {
        !self.allows_registering
    }

    /// Every entry is found under its key, and every key leads to its entry.
    pub closed spec fn wf(&self) -> bool {
        &&& forall|i: int|
            0 <= i < self.types@.len() ==> slot_entries(self.by_key).contains_key(
                #[trigger] self.types@[i].key@,
            ) && slot_entries(self.by_key)[self.types@[i].key@] == i
        &&& forall|k: IdentifierModel| #[trigger]
            slot_entries(self.by_key).contains_key(k) ==> slot_entries(self.by_key)[k]
                < self.types@.len() && self.types@[slot_entries(self.by_key)[k] as int].key@ == k
    }

    /// The entry registered under `k` names the data kind `data_key` and the
    /// input kind `input_key`.
    pub open spec fn registers(&self, k: IdentifierModel, data_key: Seq<char>, input_key: Seq<char>) -> bool {
        exists|i: int|
            0 <= i < self.entries().len() && #[trigger] self.entries()[i].key@ == k
                && self.entries()[i].data_type_key@ == data_key && self.entries()[i].input_type_key@
                == input_key
    }

    /// Whether an entry with key `k` is registered.
    pub open spec fn has_key(&self, k: IdentifierModel) -> bool {
        exists|i: int| 0 <= i < self.entries().len() && #[trigger] self.entries()[i].key@ == k
    }

    pub fn new() -> (r: RecipeTypeRegistry)
        ensures
            r.wf(),
            r.entries().len() == 0,
            !r.is_frozen(),
    {
        RecipeTypeRegistry { types: Vec::new(), by_key: slots_new(), allows_registering: true }
    }

    /// Registers a recipe type; its key must be new and the registry open.
    pub fn register(&mut self, recipe_type: &RecipeType)
        requires
            old(self).wf(),
            !old(self).is_frozen(),
            !old(self).has_key(recipe_type.entry.key@),
            old(self).entries().len() < usize::MAX,
        ensures
            final(self).wf(),
            !final(self).is_frozen(),
            final(self).entries().len() == old(self).entries().len() + 1,
            forall|i: int| 0 <= i < old(self).entries().len() ==> final(self).entries()[i] == old(self).entries()[i],
            final(self).entries().last().key@ == recipe_type.entry.key@,
            final(self).entries().last().data_type_key@ == recipe_type.entry.data_type_key@,
            final(self).entries().last().input_type_key@ == recipe_type.entry.input_type_key@,
    {
        self.register_entry(recipe_type.entry.duplicate());
    }

    fn register_entry(&mut self, entry: RecipeTypeEntry)
        requires
            old(self).wf(),
            !old(self).is_frozen(),
            !old(self).has_key(entry.key@),
            old(self).entries().len() < usize::MAX,
        ensures
            final(self).wf(),
            !final(self).is_frozen(),
            final(self).entries() == old(self).entries().push(entry),
    {
        let id = self.types.len();
        let key = entry.key.duplicate();
        proof {
            assert(!slot_entries(self.by_key).contains_key(entry.key@)) by {
                if slot_entries(self.by_key).contains_key(entry.key@) {
                    let i = slot_entries(self.by_key)[entry.key@] as int;
                    assert(self.entries()[i].key@ == entry.key@);
                }
            }
        }
        self.types.push(entry);
        slots_insert(&mut self.by_key, key, id);
        proof {
            assert forall|i: int| 0 <= i < self.types@.len() implies slot_entries(self.by_key).contains_key(
                #[trigger] self.types@[i].key@,
            ) && slot_entries(self.by_key)[self.types@[i].key@] == i by {
                if i < id {
                    assert(self.types@[i] == old(self).types@[i]);
                }
            }
        }
    }

    /// Closes the registry to new types.
    pub fn freeze(&mut self)
        ensures
            final(self).entries() == old(self).entries(),
            final(self).is_frozen(),
            old(self).wf() ==> final(self).wf(),
    {
        self.allows_registering = false;
    }

    /// The entry registered under `key`, if any.
    pub fn by_key(&self, key: &Identifier) -> (r: Option<&RecipeTypeEntry>)
        requires
            self.wf(),
        ensures
            r is None <==> !self.has_key(key@),
            r matches Some(e) ==> exists|i: int| 0 <= i < self.entries().len() && e == &self.entries()[i] && e.key@ == key@,
    {
        match slots_get(&self.by_key, key) {
            Some(id) => {
                let e = &self.types[id];
                proof {
                    assert(self.entries()[id as int].key@ == key@);
                }
                Some(e)
            },
            None => {
                proof {
                    if self.has_key(key@) {
                        let i = choose|i: int| 0 <= i < self.entries().len() && #[trigger] self.entries()[i].key@ == key@;
                        assert(slot_entries(self.by_key).contains_key(self.types@[i].key@));
                    }
                }
                None
            },
        }
    }

    /// Whether `recipe_type` is the type registered under its key.
    pub fn contains(&self, recipe_type: &RecipeType) -> (r: bool)
        requires
            self.wf(),
        ensures
            r == exists|i: int|
                0 <= i < self.entries().len() && #[trigger] self.entries()[i].key@ == recipe_type.entry.key@
                    && self.entries()[i].data_type_key@ == recipe_type.entry.data_type_key@
                    && self.entries()[i].input_type_key@ == recipe_type.entry.input_type_key@,
    {
        match self.by_key(recipe_type.key()) {
            Some(registered) => {
                let r = registered.data_type_key == recipe_type.entry.data_type_key
                    && registered.input_type_key == recipe_type.entry.input_type_key;
                proof {
                    let i = choose|i: int| 0 <= i < self.entries().len() && registered == &self.entries()[i] && registered.key@ == recipe_type.entry.key@;
                    assert forall|j: int| 0 <= j < self.entries().len() && #[trigger] self.entries()[j].key@ == recipe_type.entry.key@ implies j == i by {
                        assert(slot_entries(self.by_key)[self.types@[j].key@] == j);
                        assert(slot_entries(self.by_key)[self.types@[i].key@] == i);
                    }
                }
                r
            },
            None => false,
        }
    }

    /// The entry at registration position `index`.
    pub fn get(&self, index: usize) -> (r: Option<&RecipeTypeEntry>)
        ensures
            r == (if index < self.entries().len() {
                Some(&self.entries()[index as int])
            } else {
                None
            }),
    {
        if index < self.types.len() {
            Some(&self.types[index])
        } else {
            None
        }
    }

    pub fn len(&self) -> (r: usize)
        ensures
            r == self.entries().len(),
    {
        self.types.len()
    }

    pub fn is_empty(&self) -> (r: bool)
        ensures
            r == (self.entries().len() == 0),
    {
        self.types.len() == 0
    }
}

} // verus!
