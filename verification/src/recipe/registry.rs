//! Recipe storage keyed by identifier, with one bucket of recipe positions per
//! operational type, and deterministic first-match lookup.

use vstd::prelude::*;

use rustc_hash::FxHashMap;

use crate::identifier::{
    key_less, lemma_key_less_transitive, lemma_key_less_trichotomy, Identifier, IdentifierModel,
    KeyOrder,
};
use crate::key_index::{
    bucket_entries, buckets_clear, buckets_get, buckets_insert, buckets_new, buckets_push,
    slot_entries, slots_clear, slots_get, slots_insert, slots_new,
};
use crate::recipe::types::{Recipe, RecipeData, RecipeInput, RecipeMatches, RecipeType, RecipeTypeRegistry};

verus! {

broadcast use vstd::seq_lib::group_to_multiset_ensures;

/// Some recipe of `s` has key `k`.
pub open spec fn has_key<D>(s: Seq<Recipe<D>>, k: IdentifierModel) -> bool {
    exists|i: int| 0 <= i < s.len() && #[trigger] s[i].key@ == k
}

/// The recipes are in strictly increasing key order.
pub open spec fn sorted_by_key<D>(s: Seq<Recipe<D>>) -> bool {
    forall|i: int, j: int| 0 <= i < j < s.len() ==> key_less(#[trigger] s[i].key@, #[trigger] s[j].key@)
}

/// The positions are strictly increasing.
pub open spec fn increasing(b: Seq<usize>) -> bool {
    forall|i: int, j: int| 0 <= i < j < b.len() ==> #[trigger] b[i] < #[trigger] b[j]
}

/// `b` lists distinct positions of `s`, each holding a recipe of type `t`.
pub open spec fn bucket_ok<D>(s: Seq<Recipe<D>>, b: Seq<usize>, t: IdentifierModel) -> bool {
    &&& forall|j: int| 0 <= j < b.len() ==> #[trigger] b[j] < s.len() && s[b[j] as int].recipe_type@ == t
    &&& b.no_duplicates()
}

pub open spec fn differs_from(x: usize) -> spec_fn(usize) -> bool {
    |y: usize| y != x
}

/// `b` with every occurrence of `x` removed.
pub open spec fn without(b: Seq<usize>, x: usize) -> Seq<usize> {
    b.filter(differs_from(x))
}

/// Whether the recipe at position `i` accepts `input` (an empty input matches nothing).
pub open spec fn accepts_at<D: RecipeMatches<I>, I: RecipeInput>(s: Seq<Recipe<D>>, i: usize, input: &I) -> bool {
    !input.spec_is_empty() && s[i as int].data.spec_matches(input)
}

/// The positions of `b`, in order, whose recipes accept `input`.
pub open spec fn matched_positions<D: RecipeMatches<I>, I: RecipeInput>(
    s: Seq<Recipe<D>>,
    b: Seq<usize>,
    input: &I,
) -> Seq<usize>
    decreases b.len(),
{
    if b.len() == 0 {
        Seq::empty()
    } else {
        let rest = matched_positions(s, b.drop_last(), input);
        if accepts_at(s, b.last(), input) {
            rest.push(b.last())
        } else {
            rest
        }
    }
}

/// `j` is the first position of `b` whose recipe accepts `input`.
pub open spec fn is_first_match<D: RecipeMatches<I>, I: RecipeInput>(
    s: Seq<Recipe<D>>,
    b: Seq<usize>,
    input: &I,
    j: int,
) -> bool {
    &&& 0 <= j < b.len()
    &&& accepts_at(s, b[j], input)
    &&& forall|k: int| 0 <= k < j ==> !accepts_at(s, #[trigger] b[k], input)
}

/// `r` is the first recipe of `b`, in order, that accepts `input`, or none
/// when no recipe of `b` does.
pub open spec fn is_find_result<D: RecipeMatches<I>, I: RecipeInput>(
    s: Seq<Recipe<D>>,
    b: Seq<usize>,
    input: &I,
    r: Option<&Recipe<D>>,
) -> bool {
    &&& r is None <==> forall|j: int| 0 <= j < b.len() ==> !accepts_at(s, #[trigger] b[j], input)
    &&& r matches Some(x) ==> exists|j: int| is_first_match(s, b, input, j) && x == &s[b[j] as int]
}

pub open spec fn accepted_position<D: RecipeMatches<I>, I: RecipeInput>(s: Seq<Recipe<D>>, input: &I) -> spec_fn(usize) -> bool {
    |i: usize| accepts_at(s, i, input)
}

/// The first recipe of `b`, in order, that accepts `input`.
pub open spec fn spec_first_match<'a, D: RecipeMatches<I>, I: RecipeInput>(s: Seq<Recipe<D>>, b: Seq<usize>, input: &I) -> Option<&'a Recipe<D>> {
    match crate::util::first_index(b, accepted_position(s, input)) {
        Some(j) => Some(&s[b[j] as int]),
        None => None,
    }
}

/// A find result is the first match.
pub proof fn lemma_find_result_is_first_match<'a, D: RecipeMatches<I>, I: RecipeInput>(
    s: Seq<Recipe<D>>,
    b: Seq<usize>,
    input: &I,
    r: Option<&'a Recipe<D>>,
)
    requires
        is_find_result(s, b, input, r),
    ensures
        r == spec_first_match::<'a, D, I>(s, b, input),
{
    let p = accepted_position(s, input);
    match r {
        Some(x) => {
            let j = choose|j: int| is_first_match(s, b, input, j) && x == &s[b[j] as int];
            assert forall|k: int| 0 <= k < j implies !p(#[trigger] b[k]) by {}
            crate::util::lemma_first_index_is(b, p, j);
        },
        None => {
            assert forall|k: int| 0 <= k < b.len() implies !p(#[trigger] b[k]) by {}
            crate::util::lemma_first_index_none(b, p);
        },
    }
}

/// What a cached lookup returns: nothing for an empty input, the remembered
/// recipe while it still accepts the input, else the first match.
pub open spec fn spec_cached_find<'a, D: RecipeMatches<I>, I: RecipeInput>(
    cached: Option<&'a Recipe<D>>,
    s: Seq<Recipe<D>>,
    b: Seq<usize>,
    input: &I,
) -> Option<&'a Recipe<D>> {
    if input.spec_is_empty() {
        None
    } else if cached matches Some(c) && c.data.spec_matches(input) {
        cached
    } else {
        spec_first_match(s, b, input)
    }
}

/// Central storage for the recipes of every registered type.
pub struct RecipeRegistry<D> {
    recipes: Vec<Recipe<D>>,
    by_key: FxHashMap<Identifier, usize>,
    by_type: FxHashMap<Identifier, Vec<usize>>,
    allows_registering: bool,
}

impl<D: RecipeData> RecipeRegistry<D> {
    /// The stored recipes, in lookup order.
    pub closed spec fn recipes(&self) -> Seq<Recipe<D>> {
        self.recipes@
    }

    pub closed spec fn is_frozen(&self) -> bool {
        !self.allows_registering
    }

    /// Positions of the recipes of type `t`, in scan order.
    pub closed spec fn bucket(&self, t: IdentifierModel) -> Seq<usize> {
        if bucket_entries(self.by_type).contains_key(t) {
            bucket_entries(self.by_type)[t]
        } else {
            Seq::empty()
        }
    }

    closed spec fn slots_ok(&self) -> bool {
        &&& forall|i: int|
            0 <= i < self.recipes@.len() ==> slot_entries(self.by_key).contains_key(
                #[trigger] self.recipes@[i].key@,
            ) && slot_entries(self.by_key)[self.recipes@[i].key@] == i
        &&& forall|k: IdentifierModel| #[trigger]
            slot_entries(self.by_key).contains_key(k) ==> slot_entries(self.by_key)[k]
                < self.recipes@.len() && self.recipes@[slot_entries(self.by_key)[k] as int].key@ == k
    }

    closed spec fn buckets_ok(&self) -> bool {
        &&& forall|t: IdentifierModel| #[trigger]
            bucket_entries(self.by_type).contains_key(t) ==> bucket_ok(
                self.recipes@,
                bucket_entries(self.by_type)[t],
                t,
            )
        &&& forall|i: int|
            0 <= i < self.recipes@.len() ==> #[trigger] self.bucket(
                self.recipes@[i].recipe_type@,
            ).contains(i as usize)
    }

    /// Keys lead to their recipes, buckets hold exactly the recipes of their
    /// type, every recipe's data is well formed, and a frozen registry is
    /// sorted by key with increasing buckets.
    pub closed spec fn wf(&self) -> bool {
        &&& self.slots_ok()
        &&& self.buckets_ok()
        &&& forall|i: int| 0 <= i < self.recipes@.len() ==> (#[trigger] self.recipes@[i]).data.data_wf()
        &&& !self.allows_registering ==> sorted_by_key(self.recipes@) && forall|t: IdentifierModel|
            #[trigger] bucket_entries(self.by_type).contains_key(t) ==> increasing(
                bucket_entries(self.by_type)[t],
            )
    }

    /// No two stored recipes share a key.
    pub proof fn lemma_keys_unique(&self)
        requires
            self.wf(),
        ensures
            forall|i: int, j: int|
                0 <= i < j < self.recipes().len() ==> #[trigger] self.recipes()[i].key@ != #[trigger] self.recipes()[j].key@,
    {
        assert forall|i: int, j: int| 0 <= i < j < self.recipes().len() implies #[trigger] self.recipes()[i].key@
            != #[trigger] self.recipes()[j].key@ by {
            assert(slot_entries(self.by_key)[self.recipes@[i].key@] == i);
            assert(slot_entries(self.by_key)[self.recipes@[j].key@] == j);
        }
    }

    /// A bucket holds distinct positions of recipes of its type, and every
    /// recipe of that type is in it.
    pub proof fn lemma_bucket(&self, t: IdentifierModel)
        requires
            self.wf(),
        ensures
            bucket_ok(self.recipes(), self.bucket(t), t),
            forall|i: int|
                0 <= i < self.recipes().len() && #[trigger] self.recipes()[i].recipe_type@ == t ==> self.bucket(t).contains(i as usize),
            self.is_frozen() ==> increasing(self.bucket(t)),
    {
        if !bucket_entries(self.by_type).contains_key(t) {
            assert(self.bucket(t) =~= Seq::<usize>::empty());
        }
        assert forall|i: int| 0 <= i < self.recipes().len() && #[trigger] self.recipes()[i].recipe_type@ == t implies self.bucket(t).contains(i as usize) by {
            assert(self.bucket(self.recipes@[i].recipe_type@).contains(i as usize));
        }
    }

    pub fn new() -> (r: RecipeRegistry<D>)
        ensures
            r.wf(),
            !r.is_frozen(),
            r.recipes().len() == 0,
            forall|t: IdentifierModel| #[trigger] r.bucket(t).len() == 0,
    {
        RecipeRegistry {
            recipes: Vec::new(),
            by_key: slots_new(),
            by_type: buckets_new(),
            allows_registering: true,
        }
    }

    /// Registers a recipe under a key that is not yet used.
    pub fn register(&mut self, recipe: Recipe<D>)
        requires
            old(self).wf(),
            !old(self).is_frozen(),
            !has_key(old(self).recipes(), recipe.key@),
            recipe.data.data_wf(),
            old(self).recipes().len() < usize::MAX,
        ensures
            final(self).wf(),
            !final(self).is_frozen(),
            final(self).recipes() == old(self).recipes().push(recipe),
            final(self).bucket(recipe.recipe_type@) == old(self).bucket(recipe.recipe_type@).push(
                old(self).recipes().len() as usize,
            ),
            forall|t: IdentifierModel| t != recipe.recipe_type@ ==> #[trigger] final(self).bucket(t) == old(self).bucket(t),
    {
        let index = self.recipes.len();
        let key = recipe.key.duplicate();
        let ty = recipe.recipe_type.duplicate();
        let ghost rk = recipe.key@;
        let ghost rt = recipe.recipe_type@;
        proof {
            assert(!slot_entries(self.by_key).contains_key(rk)) by {
                if slot_entries(self.by_key).contains_key(rk) {
                    let i = slot_entries(self.by_key)[rk] as int;
                    assert(self.recipes@[i].key@ == rk);
                }
            }
            self.lemma_bucket(rt);
        }
        let ghost old_bucket = self.bucket(rt);
        self.recipes.push(recipe);
        slots_insert(&mut self.by_key, key, index);
        buckets_push(&mut self.by_type, ty, index);
        proof {
            let s = self.recipes@;
            assert forall|i: int| 0 <= i < s.len() implies slot_entries(self.by_key).contains_key(
                #[trigger] s[i].key@,
            ) && slot_entries(self.by_key)[s[i].key@] == i by {
                if i < index {
                    assert(s[i] == old(self).recipes@[i]);
                }
            }
            assert(self.bucket(rt) == old_bucket.push(index));
            assert forall|t: IdentifierModel| #[trigger]
                bucket_entries(self.by_type).contains_key(t) implies bucket_ok(
                s,
                bucket_entries(self.by_type)[t],
                t,
            ) by {
                if t == rt {
                    let b = bucket_entries(self.by_type)[t];
                    assert(b == old_bucket.push(index));
                    assert forall|j: int| 0 <= j < b.len() implies #[trigger] b[j] < s.len() && s[b[j] as int].recipe_type@ == t by {
                        if j < old_bucket.len() {
                            assert(b[j] == old_bucket[j]);
                            assert(s[old_bucket[j] as int] == old(self).recipes@[old_bucket[j] as int]);
                        }
                    }
                    assert forall|a: int, c: int| 0 <= a < b.len() && 0 <= c < b.len() && a != c implies b[a] != b[c] by {
                        if a < old_bucket.len() && c < old_bucket.len() {
                            assert(old_bucket.no_duplicates());
                        }
                    }
                } else {
                    let b = bucket_entries(self.by_type)[t];
                    assert(b == old(self).bucket(t));
                    assert forall|j: int| 0 <= j < b.len() implies #[trigger] b[j] < s.len() && s[b[j] as int].recipe_type@ == t by {
                        assert(s[b[j] as int] == old(self).recipes@[b[j] as int]);
                    }
                }
            }
            assert forall|i: int| 0 <= i < s.len() implies #[trigger] self.bucket(s[i].recipe_type@).contains(i as usize) by {
                if i < index {
                    assert(s[i] == old(self).recipes@[i]);
                    assert(old(self).bucket(s[i].recipe_type@).contains(i as usize));
                    if s[i].recipe_type@ == rt {
                        let k = choose|k: int| 0 <= k < old_bucket.len() && old_bucket[k] == i as usize;
                        assert(self.bucket(rt)[k] == i as usize);
                    }
                } else {
                    assert(self.bucket(rt)[old_bucket.len() as int] == index);
                }
            }
            assert forall|i: int| 0 <= i < s.len() implies (#[trigger] s[i]).data.data_wf() by {
                if i < index {
                    assert(s[i] == old(self).recipes@[i]);
                }
            }
        }
    }

    /// The bucket with every occurrence of `x` removed.
    fn bucket_without(b: &Vec<usize>, x: usize) -> (r: Vec<usize>)
        ensures
            r@ == without(b@, x),
    {
        let mut r: Vec<usize> = Vec::new();
        let mut k: usize = 0;
        while k < b.len()
            invariant
                k <= b@.len(),
                r@ == without(b@.take(k as int), x),
            decreases b@.len() - k,
        {
            proof {
                crate::util::lemma_filter_step(b@, differs_from(x), k as int);
            }
            if b[k] != x {
                r.push(b[k]);
            }
            k += 1;
        }
        proof {
            crate::util::lemma_take_full(b@);
        }
        r
    }

    /// Replaces the recipe stored under the same key, before the registry is
    /// frozen, and hands back the recipe it replaced. The position leaves its
    /// old type's bucket and is appended to the new type's bucket.
    pub fn replace(&mut self, recipe: Recipe<D>) -> (r: Option<Recipe<D>>)
        requires
            old(self).wf(),
            !old(self).is_frozen(),
            recipe.data.data_wf(),
        ensures
            final(self).wf(),
            !final(self).is_frozen(),
            r is None <==> !has_key(old(self).recipes(), recipe.key@),
            r is None ==> final(self).recipes() == old(self).recipes() && forall|t: IdentifierModel|
                #[trigger] final(self).bucket(t) == old(self).bucket(t),
            r matches Some(previous) ==> exists|index: int|
                0 <= index < old(self).recipes().len()
                && old(self).recipes()[index] == previous
                && previous.key@ == recipe.key@
                && final(self).recipes() == old(self).recipes().update(index, recipe)
                && final(self).bucket(recipe.recipe_type@)
                    == without(old(self).bucket(recipe.recipe_type@), index as usize).push(index as usize)
                && (recipe.recipe_type@ != previous.recipe_type@
                    ==> final(self).bucket(previous.recipe_type@)
                        == without(old(self).bucket(previous.recipe_type@), index as usize))
                && forall|t: IdentifierModel|
                    t != recipe.recipe_type@ && t != previous.recipe_type@
                        ==> #[trigger] final(self).bucket(t) == old(self).bucket(t),
    {
        let index = match slots_get(&self.by_key, &recipe.key) {
            Some(i) => i,
            None => {
                proof {
                    if has_key(self.recipes@, recipe.key@) {
                        let i = choose|i: int|
                            0 <= i < self.recipes@.len() && #[trigger] self.recipes@[i].key@
                                == recipe.key@;
                        assert(slot_entries(self.by_key).contains_key(self.recipes@[i].key@));
                    }
                }
                return None;
            },
        };
        let ghost rt = recipe.recipe_type@;
        let ghost s0 = self.recipes@;
        proof {
            assert(s0[index as int].key@ == recipe.key@);
        }
        let new_type = recipe.recipe_type.duplicate();
        let previous = self.recipes.remove(index);
        self.recipes.insert(index, recipe);
        let ghost pt = previous.recipe_type@;
        let ghost s1 = self.recipes@;
        proof {
            assert(s1 =~= s0.update(index as int, recipe));
            old(self).lemma_bucket(pt);
            old(self).lemma_bucket(rt);
            lemma_without(old(self).bucket(pt), index);
            lemma_without(old(self).bucket(rt), index);
        }
        let kept = match buckets_get(&self.by_type, &previous.recipe_type) {
            Some(indices) => Some(Self::bucket_without(indices, index)),
            None => None,
        };
        match kept {
            Some(kept) => {
                buckets_insert(&mut self.by_type, previous.recipe_type.duplicate(), kept);
            },
            None => {},
        }
        proof {
            assert(old(self).bucket(pt).contains(index));
            assert(bucket_entries(self.by_type).contains_key(pt));
            assert(self.bucket(pt) == without(old(self).bucket(pt), index));
            assert forall|t: IdentifierModel| t != pt implies #[trigger] self.bucket(t) == old(self).bucket(t) by {}
        }
        let ghost mid = self.bucket(rt);
        buckets_push(&mut self.by_type, new_type, index);
        let n = self.recipes.len();
        proof {
            assert(self.bucket(rt) == mid.push(index));
            if rt != pt {
                assert(!old(self).bucket(rt).contains(index)) by {
                    if old(self).bucket(rt).contains(index) {
                        let k = choose|k: int| 0 <= k < old(self).bucket(rt).len() && old(self).bucket(rt)[k] == index;
                        assert(s0[old(self).bucket(rt)[k] as int].recipe_type@ == rt);
                    }
                }
                assert(mid == old(self).bucket(rt));
                assert(without(old(self).bucket(rt), index) == old(self).bucket(rt));
            }
            let s1 = self.recipes@;
            assert forall|i: int| 0 <= i < s1.len() implies slot_entries(self.by_key).contains_key(
                #[trigger] s1[i].key@,
            ) && slot_entries(self.by_key)[s1[i].key@] == i by {
                assert(s1[i].key@ == s0[i].key@);
            }
            assert forall|k: IdentifierModel| #[trigger] slot_entries(self.by_key).contains_key(k) implies slot_entries(self.by_key)[k]
                < s1.len() && s1[slot_entries(self.by_key)[k] as int].key@ == k by {
                let i = slot_entries(self.by_key)[k] as int;
                assert(s1[i].key@ == s0[i].key@);
            }
            lemma_bucket_ok_without(s0, s1, old(self).bucket(rt), rt, index);
            lemma_bucket_ok_push(s1, without(old(self).bucket(rt), index), rt, index);
            if rt != pt {
                lemma_bucket_ok_without(s0, s1, old(self).bucket(pt), pt, index);
            }
            assert forall|t: IdentifierModel| #[trigger] bucket_entries(self.by_type).contains_key(t) implies bucket_ok(
                s1,
                bucket_entries(self.by_type)[t],
                t,
            ) by {
                assert(bucket_entries(self.by_type)[t] == self.bucket(t));
                if t != rt && t != pt {
                    old(self).lemma_bucket(t);
                    lemma_bucket_ok_unchanged(s0, s1, old(self).bucket(t), t, index);
                }
            }
            assert forall|i: int| 0 <= i < s1.len() implies #[trigger] self.bucket(s1[i].recipe_type@).contains(i as usize) by {
                if i == index {
                    assert(self.bucket(rt)[self.bucket(rt).len() - 1] == index);
                } else {
                    let ti = s1[i].recipe_type@;
                    assert(s1[i] == s0[i]);
                    assert(old(self).bucket(ti).contains(i as usize));
                    assert(i as usize != index);
                    if ti == rt {
                        assert(without(old(self).bucket(rt), index).contains(i as usize));
                        let k = choose|k: int| 0 <= k < without(old(self).bucket(rt), index).len() && without(old(self).bucket(rt), index)[k] == i as usize;
                        assert(self.bucket(rt)[k] == i as usize);
                    } else if ti == pt {
                        lemma_without(old(self).bucket(pt), index);
                        assert(without(old(self).bucket(pt), index).contains(i as usize));
                    }
                }
            }
            assert forall|i: int| 0 <= i < s1.len() implies (#[trigger] s1[i]).data.data_wf() by {
                if i != index {
                    assert(s1[i] == s0[i]);
                }
            }
        }
        Some(previous)
    }

    /// Position of the recipe with the smallest key among `v`.
    fn min_key_position(v: &Vec<Recipe<D>>) -> (m: usize)
        requires
            v@.len() > 0,
        ensures
            m < v@.len(),
            forall|j: int| 0 <= j < v@.len() ==> !key_less(#[trigger] v@[j].key@, v@[m as int].key@),
    {
        let mut m: usize = 0;
        let mut j: usize = 1;
        proof {
            lemma_key_less_trichotomy(v@[0].key@, v@[0].key@);
        }
        while j < v.len()
            invariant
                0 < j <= v@.len(),
                m < j,
                forall|k: int| 0 <= k < j ==> !key_less(#[trigger] v@[k].key@, v@[m as int].key@),
            decreases v@.len() - j,
        {
            if v[j].key.compare_to(&v[m].key) == KeyOrder::Less {
                proof {
                    assert forall|k: int| 0 <= k < j + 1 implies !key_less(#[trigger] v@[k].key@, v@[j as int].key@) by {
                        lemma_key_less_trichotomy(v@[k].key@, v@[j as int].key@);
                        if key_less(v@[k].key@, v@[j as int].key@) {
                            lemma_key_less_transitive(v@[k].key@, v@[j as int].key@, v@[m as int].key@);
                        }
                    }
                }
                m = j;
            }
            j += 1;
        }
        m
    }

    /// Sorts the recipes by key and closes the registry: from now on every
    /// bucket lists the positions of its type in increasing (and so key) order.
    pub fn freeze(&mut self, recipe_types: &RecipeTypeRegistry)
        requires
            old(self).wf(),
            forall|i: int| 0 <= i < old(self).recipes().len() ==> recipe_types.registers(
                (#[trigger] old(self).recipes()[i]).recipe_type@,
                old(self).recipes()[i].type_data_key@,
                old(self).recipes()[i].type_input_key@,
            ) && old(self).recipes()[i].data.data_type_key()@ == old(self).recipes()[i].type_data_key@,
        ensures
            final(self).wf(),
            final(self).is_frozen(),
            final(self).recipes().to_multiset() == old(self).recipes().to_multiset(),
            final(self).recipes().len() == old(self).recipes().len(),
            sorted_by_key(final(self).recipes()),
            forall|t: IdentifierModel, i: int| 0 <= i < final(self).recipes().len() ==>
                (#[trigger] final(self).bucket(t).contains(i as usize) <==> final(self).recipes()[i].recipe_type@ == t),
    {
        proof {
            self.lemma_keys_unique();
        }
        let ghost orig = self.recipes@;
        let mut remaining: Vec<Recipe<D>> = Vec::new();
        std::mem::swap(&mut remaining, &mut self.recipes);
        let mut sorted: Vec<Recipe<D>> = Vec::new();
        while remaining.len() > 0
            invariant
                sorted@.to_multiset().add(remaining@.to_multiset()) == orig.to_multiset(),
                sorted_by_key(sorted@),
                forall|a: int, b: int| 0 <= a < sorted@.len() && 0 <= b < remaining@.len() ==> key_less(#[trigger] sorted@[a].key@, #[trigger] remaining@[b].key@),
                forall|a: int, b: int| 0 <= a < b < remaining@.len() ==> #[trigger] remaining@[a].key@ != #[trigger] remaining@[b].key@,
                forall|a: int| 0 <= a < sorted@.len() ==> (#[trigger] sorted@[a]).data.data_wf(),
                forall|a: int| 0 <= a < remaining@.len() ==> (#[trigger] remaining@[a]).data.data_wf(),
            decreases remaining@.len(),
        {
            let m = Self::min_key_position(&remaining);
            let ghost rem0 = remaining@;
            let ghost sorted0 = sorted@;
            let r = remaining.remove(m);
            sorted.push(r);
            proof {
                assert(rem0.remove(m as int).to_multiset() == rem0.to_multiset().remove(rem0[m as int]));
                assert(sorted0.push(r).to_multiset() == sorted0.to_multiset().insert(r));
                assert(rem0.to_multiset().count(r) > 0);
                assert(sorted@.to_multiset().add(remaining@.to_multiset()) =~= sorted0.to_multiset().add(rem0.to_multiset()));
                assert forall|b: int| 0 <= b < remaining@.len() implies key_less(r.key@, #[trigger] remaining@[b].key@) by {
                    let ob = if b < m { b } else { b + 1 };
                    assert(remaining@[b] == rem0[ob]);
                    lemma_key_less_trichotomy(r.key@, rem0[ob].key@);
                }
                assert forall|a: int, b: int| 0 <= a < b < remaining@.len() implies #[trigger] remaining@[a].key@ != #[trigger] remaining@[b].key@ by {
                    let oa = if a < m { a } else { a + 1 };
                    let ob = if b < m { b } else { b + 1 };
                    assert(remaining@[a] == rem0[oa]);
                    assert(remaining@[b] == rem0[ob]);
                }
                assert forall|a: int, b: int| 0 <= a < sorted@.len() && 0 <= b < remaining@.len() implies key_less(#[trigger] sorted@[a].key@, #[trigger] remaining@[b].key@) by {
                    let ob = if b < m { b } else { b + 1 };
                    assert(remaining@[b] == rem0[ob]);
                    if a < sorted0.len() {
                        assert(sorted@[a] == sorted0[a]);
                    }
                }
                assert forall|a: int, b: int| 0 <= a < b < sorted@.len() implies key_less(#[trigger] sorted@[a].key@, #[trigger] sorted@[b].key@) by {
                    assert(sorted@[a] == sorted0[a]);
                    if b < sorted0.len() {
                        assert(sorted@[b] == sorted0[b]);
                    }
                }
                assert forall|a: int| 0 <= a < sorted@.len() implies (#[trigger] sorted@[a]).data.data_wf() by {
                    if a < sorted0.len() {
                        assert(sorted@[a] == sorted0[a]);
                    }
                }
                assert forall|a: int| 0 <= a < remaining@.len() implies (#[trigger] remaining@[a]).data.data_wf() by {
                    let oa = if a < m { a } else { a + 1 };
                    assert(remaining@[a] == rem0[oa]);
                }
            }
        }
        proof {
            assert(remaining@.to_multiset() =~= vstd::multiset::Multiset::empty());
            assert(sorted@.to_multiset() =~= orig.to_multiset());
            orig.to_multiset_ensures();
            sorted@.to_multiset_ensures();
            assert(sorted@.len() == orig.len());
        }
        self.recipes = sorted;
        self.allows_registering = false;
        slots_clear(&mut self.by_key);
        buckets_clear(&mut self.by_type);
        let ghost s = self.recipes@;
        let n = self.recipes.len();
        let mut i: usize = 0;
        while i < n
            invariant
                n == s.len(),
                i <= n,
                self.recipes@ == s,
                sorted_by_key(s),
                forall|a: int| 0 <= a < s.len() ==> (#[trigger] s[a]).data.data_wf(),
                !self.allows_registering,
                forall|j: int| 0 <= j < i ==> slot_entries(self.by_key).contains_key(#[trigger] s[j].key@)
                    && slot_entries(self.by_key)[s[j].key@] == j,
                forall|k: IdentifierModel| #[trigger] slot_entries(self.by_key).contains_key(k)
                    ==> slot_entries(self.by_key)[k] < i && s[slot_entries(self.by_key)[k] as int].key@ == k,
                forall|t: IdentifierModel| #[trigger] bucket_entries(self.by_type).contains_key(t)
                    ==> bucket_ok(s, bucket_entries(self.by_type)[t], t) && increasing(bucket_entries(self.by_type)[t])
                        && forall|j: int| 0 <= j < bucket_entries(self.by_type)[t].len() ==> #[trigger] bucket_entries(self.by_type)[t][j] < i,
                forall|j: int| 0 <= j < i ==> #[trigger] self.bucket(s[j].recipe_type@).contains(j as usize),
            decreases n - i,
        {
            let ghost t = s[i as int].recipe_type@;
            let ghost before = self.bucket(t);
            let ghost pre = bucket_entries(self.by_type);
            proof {
                assert forall|j: int| 0 <= j < i implies (if pre.contains_key(#[trigger] s[j].recipe_type@) {
                    pre[s[j].recipe_type@]
                } else {
                    Seq::empty()
                }).contains(j as usize) by {
                    assert(self.bucket(s[j].recipe_type@).contains(j as usize));
                }
                assert(!slot_entries(self.by_key).contains_key(s[i as int].key@)) by {
                    if slot_entries(self.by_key).contains_key(s[i as int].key@) {
                        let j = slot_entries(self.by_key)[s[i as int].key@] as int;
                        assert(key_less(s[j].key@, s[i as int].key@));
                        lemma_key_less_trichotomy(s[j].key@, s[j].key@);
                    }
                }
            }
            slots_insert(&mut self.by_key, self.recipes[i].key.duplicate(), i);
            buckets_push(&mut self.by_type, self.recipes[i].recipe_type.duplicate(), i);
            proof {
                assert(self.bucket(t) == before.push(i));
                if !bucket_entries(old(self).by_type).contains_key(t) {
                }
                assert forall|j: int| 0 <= j < i + 1 implies slot_entries(self.by_key).contains_key(#[trigger] s[j].key@)
                    && slot_entries(self.by_key)[s[j].key@] == j by {
                    if j < i {
                        assert(key_less(s[j].key@, s[i as int].key@));
                        lemma_key_less_trichotomy(s[j].key@, s[j].key@);
                    }
                }
                assert forall|tt: IdentifierModel| #[trigger] bucket_entries(self.by_type).contains_key(tt)
                    implies bucket_ok(s, bucket_entries(self.by_type)[tt], tt) && increasing(bucket_entries(self.by_type)[tt])
                        && forall|j: int| 0 <= j < bucket_entries(self.by_type)[tt].len() ==> #[trigger] bucket_entries(self.by_type)[tt][j] < i + 1 by {
                    if tt == t {
                        let b = bucket_entries(self.by_type)[tt];
                        assert(b == before.push(i));
                        if before.len() > 0 {
                            assert(bucket_entries(self.by_type).contains_key(t));
                        }
                        assert(!before.contains(i)) by {
                            if before.contains(i) {
                                let k = choose|k: int| 0 <= k < before.len() && before[k] == i;
                                assert(bucket_entries(self.by_type).contains_key(t));
                            }
                        }
                        lemma_bucket_ok_push(s, before, t, i);
                        assert forall|a: int, c: int| 0 <= a < c < b.len() implies #[trigger] b[a] < #[trigger] b[c] by {
                            assert(b[a] == before[a]);
                            if c < before.len() {
                                assert(b[c] == before[c]);
                            }
                        }
                        assert forall|j: int| 0 <= j < b.len() implies #[trigger] b[j] < i + 1 by {
                            if j < before.len() {
                                assert(b[j] == before[j]);
                            }
                        }
                    }
                }
                assert forall|j: int| 0 <= j < i + 1 implies #[trigger] self.bucket(s[j].recipe_type@).contains(j as usize) by {
                    if j == i {
                        assert(self.bucket(t)[before.len() as int] == i);
                    } else if s[j].recipe_type@ != t {
                        assert(self.bucket(s[j].recipe_type@) == (if pre.contains_key(s[j].recipe_type@) {
                            pre[s[j].recipe_type@]
                        } else {
                            Seq::empty()
                        }));
                    } else {
                        assert(before.contains(j as usize));
                        let k = choose|k: int| 0 <= k < before.len() && before[k] == j as usize;
                        assert(self.bucket(t)[k] == j as usize);
                    }
                }
            }
            i += 1;
        }
        proof {
            assert forall|tt: IdentifierModel, j: int| 0 <= j < s.len() implies
                (#[trigger] self.bucket(tt).contains(j as usize) <==> s[j].recipe_type@ == tt) by {
                if self.bucket(tt).contains(j as usize) {
                    let k = choose|k: int| 0 <= k < self.bucket(tt).len() && self.bucket(tt)[k] == j as usize;
                    assert(bucket_entries(self.by_type).contains_key(tt));
                    let b = bucket_entries(self.by_type)[tt];
                    assert(bucket_ok(s, b, tt));
                    assert(b[k] < s.len() && s[b[k] as int].recipe_type@ == tt);
                } else {
                    assert(self.bucket(s[j].recipe_type@).contains(j as usize));
                }
            }
        }
    }

    /// The recipe stored under `key`, if any.
    pub fn by_key(&self, key: &Identifier) -> (r: Option<&Recipe<D>>)
        requires
            self.wf(),
        ensures
            r is None <==> !has_key(self.recipes(), key@),
            r matches Some(x) ==> x.key@ == key@ && exists|i: int| 0 <= i < self.recipes().len() && x == &self.recipes()[i],
    {
        match slots_get(&self.by_key, key) {
            Some(index) => {
                let x = &self.recipes[index];
                proof {
                    assert(self.recipes@[index as int].key@ == key@);
                    assert(x == &self.recipes()[index as int]);
                }
                Some(x)
            },
            None => {
                proof {
                    if has_key(self.recipes@, key@) {
                        let i = choose|i: int| 0 <= i < self.recipes@.len() && #[trigger] self.recipes@[i].key@ == key@;
                        assert(slot_entries(self.by_key).contains_key(self.recipes@[i].key@));
                    }
                }
                None
            },
        }
    }

    /// The recipe at lookup position `index`.
    pub fn get(&self, index: usize) -> (r: Option<&Recipe<D>>)
        ensures
            r == (if index < self.recipes().len() {
                Some(&self.recipes()[index as int])
            } else {
                None
            }),
    {
        if index < self.recipes.len() {
            Some(&self.recipes[index])
        } else {
            None
        }
    }

    /// The recipes of one operational type.
    pub fn by_type<'a>(&'a self, recipe_type: &RecipeType) -> (r: TypedRecipeSet<'a, D>)
        requires
            self.wf(),
        ensures
            r.registry() == self,
            r.positions() == self.bucket(recipe_type.entry.key@),
            forall|j: int| 0 <= j < r.positions().len() ==> #[trigger] r.positions()[j] < self.recipes().len(),
    {
        proof {
            self.lemma_bucket(recipe_type.entry.key@);
        }
        TypedRecipeSet { registry: self, indices: buckets_get(&self.by_type, &recipe_type.entry.key) }
    }

    /// Every recipe of type `recipe_type` that accepts `input`, in scan order
    /// (none for an empty input).
    pub fn matching<'a, I: RecipeInput>(&'a self, recipe_type: &RecipeType, input: &I) -> (r: Vec<&'a Recipe<D>>)
        where
            D: RecipeMatches<I>,
        requires
            self.wf(),
            input.input_wf(),
        ensures
            r@.len() == matched_positions(self.recipes(), self.bucket(recipe_type.entry.key@), input).len(),
            forall|j: int| 0 <= j < r@.len() ==> #[trigger] r@[j] == &self.recipes()[
                matched_positions(self.recipes(), self.bucket(recipe_type.entry.key@), input)[j] as int],
    {
        let ghost b = self.bucket(recipe_type.entry.key@);
        let ghost s = self.recipes@;
        proof {
            self.lemma_bucket(recipe_type.entry.key@);
        }
        let mut r: Vec<&'a Recipe<D>> = Vec::new();
        let indices = match buckets_get(&self.by_type, &recipe_type.entry.key) {
            Some(indices) => indices,
            None => {
                assert(b.len() == 0);
                return r;
            },
        };
        let empty = input.is_empty();
        let mut k: usize = 0;
        while k < indices.len()
            invariant
                indices@ == b,
                s == self.recipes@,
                self.wf(),
                input.input_wf(),
                bucket_ok(s, b, recipe_type.entry.key@),
                empty == input.spec_is_empty(),
                k <= b.len(),
                r@.len() == matched_positions(s, b.take(k as int), input).len(),
                forall|j: int| 0 <= j < r@.len() ==> #[trigger] r@[j] == &s[matched_positions(s, b.take(k as int), input)[j] as int],
            decreases b.len() - k,
        {
            let index = indices[k];
            let recipe = &self.recipes[index];
            proof {
                assert(b.take(k as int + 1).drop_last() =~= b.take(k as int));
                assert(s[index as int].data.data_wf());
            }
            if !empty && recipe.data.matches(input) {
                r.push(recipe);
            }
            k += 1;
        }
        proof {
            crate::util::lemma_take_full(b);
        }
        r
    }

    /// The first recipe of type `recipe_type`, in scan order, that accepts
    /// `input`; none for an empty input.
    pub fn find_match<'a, I: RecipeInput>(&'a self, recipe_type: &RecipeType, input: &I) -> (r: Option<&'a Recipe<D>>)
        where
            D: RecipeMatches<I>,
        requires
            self.wf(),
            input.input_wf(),
        ensures
            is_find_result(self.recipes(), self.bucket(recipe_type.entry.key@), input, r),
    {
        let ghost b = self.bucket(recipe_type.entry.key@);
        let ghost s = self.recipes@;
        proof {
            self.lemma_bucket(recipe_type.entry.key@);
        }
        if input.is_empty() {
            return None;
        }
        let indices = match buckets_get(&self.by_type, &recipe_type.entry.key) {
            Some(indices) => indices,
            None => {
                return None;
            },
        };
        let mut k: usize = 0;
        while k < indices.len()
            invariant
                indices@ == b,
                s == self.recipes@,
                self.wf(),
                input.input_wf(),
                !input.spec_is_empty(),
                b == self.bucket(recipe_type.entry.key@),
                bucket_ok(s, b, recipe_type.entry.key@),
                k <= b.len(),
                forall|j: int| 0 <= j < k ==> !accepts_at(s, #[trigger] b[j], input),
            decreases b.len() - k,
        {
            let index = indices[k];
            let recipe = &self.recipes[index];
            proof {
                assert(s[index as int].data.data_wf());
            }
            if recipe.data.matches(input) {
                assert(accepts_at(s, b[k as int], input));
                assert(is_first_match(s, b, input, k as int));
                return Some(recipe);
            }
            k += 1;
        }
        None
    }

    /// Number of stored recipes.
    pub fn len(&self) -> (r: usize)
        ensures
            r == self.recipes().len(),
    {
        self.recipes.len()
    }

    pub fn is_empty(&self) -> (r: bool)
        ensures
            r == (self.recipes().len() == 0),
    {
        self.recipes.len() == 0
    }

    /// Every stored recipe's data is well formed.
    pub proof fn lemma_data_wf(&self, i: int)
        requires
            self.wf(),
            0 <= i < self.recipes().len(),
        ensures
            self.recipes()[i].data.data_wf(),
    {
        assert(self.recipes@[i].data.data_wf());
    }

    /// In a frozen registry the recipes that accept an input come out of a
    /// scan of their type in increasing key order.
    pub proof fn lemma_matching_in_key_order<I: RecipeInput>(&self, t: IdentifierModel, input: &I)
        where
            D: RecipeMatches<I>,
        requires
            self.wf(),
            self.is_frozen(),
        ensures
            forall|j: int, k: int| 0 <= j < k < matched_positions(self.recipes(), self.bucket(t), input).len() ==> key_less(
                #[trigger] self.recipes()[matched_positions(self.recipes(), self.bucket(t), input)[j] as int].key@,
                #[trigger] self.recipes()[matched_positions(self.recipes(), self.bucket(t), input)[k] as int].key@,
            ),
    {
        self.lemma_bucket(t);
        let b = self.bucket(t);
        assert(increasing(b)) by {
            if bucket_entries(self.by_type).contains_key(t) {
            } else {
                assert(b.len() == 0);
            }
        }
        lemma_matched_increasing(self.recipes(), b, input);
        let m = matched_positions(self.recipes(), b, input);
        assert forall|j: int, k: int| 0 <= j < k < m.len() implies key_less(
            #[trigger] self.recipes()[m[j] as int].key@,
            #[trigger] self.recipes()[m[k] as int].key@,
        ) by {
            assert(m[j] < m[k]);
            assert(b.contains(m[k]));
            let c = choose|c: int| 0 <= c < b.len() && b[c] == m[k];
            assert(b[c] < self.recipes().len());
        }
    }

    /// In a frozen registry a bucket is scanned in increasing key order.
    pub proof fn lemma_frozen_scan_in_key_order(&self, t: IdentifierModel)
        requires
            self.wf(),
            self.is_frozen(),
        ensures
            forall|a: int, c: int| 0 <= a < c < self.bucket(t).len() ==> key_less(
                #[trigger] self.recipes()[self.bucket(t)[a] as int].key@,
                #[trigger] self.recipes()[self.bucket(t)[c] as int].key@,
            ),
    {
        self.lemma_bucket(t);
        let b = self.bucket(t);
        assert forall|a: int, c: int| 0 <= a < c < b.len() implies key_less(
            #[trigger] self.recipes()[b[a] as int].key@,
            #[trigger] self.recipes()[b[c] as int].key@,
        ) by {
            assert(b[a] < b[c]);
            assert(b[a] < self.recipes@.len() && b[c] < self.recipes@.len());
        }
    }

    /// In a frozen registry, looking up type `t` gives the recipe of type `t`
    /// with the smallest key among those that accept the input, and nothing
    /// exactly when none does; an empty input is accepted by no recipe.
    pub proof fn lemma_found_recipe_has_smallest_key<I: RecipeInput>(
        &self,
        t: IdentifierModel,
        input: &I,
        r: Option<&Recipe<D>>,
    )
        where
            D: RecipeMatches<I>,
        requires
            self.wf(),
            self.is_frozen(),
            is_find_result(self.recipes(), self.bucket(t), input, r),
        ensures
            r is None <==> forall|i: int|
                0 <= i < self.recipes().len() && (#[trigger] self.recipes()[i]).recipe_type@ == t
                    ==> !(!input.spec_is_empty() && self.recipes()[i].data.spec_matches(input)),
            r matches Some(x) ==> exists|i: int|
                {
                    &&& 0 <= i < self.recipes().len()
                    &&& x == &#[trigger] self.recipes()[i]
                    &&& x.recipe_type@ == t
                    &&& !input.spec_is_empty() && x.data.spec_matches(input)
                    &&& forall|k: int|
                        0 <= k < self.recipes().len() && k != i && (#[trigger] self.recipes()[k]).recipe_type@ == t
                            && !input.spec_is_empty() && self.recipes()[k].data.spec_matches(input)
                            ==> key_less(x.key@, self.recipes()[k].key@)
                },
    {
        let s = self.recipes();
        let b = self.bucket(t);
        assert(self.recipes.len() == s.len());
        self.lemma_bucket(t);
        self.lemma_frozen_scan_in_key_order(t);
        assert forall|i: int| 0 <= i < s.len() && (#[trigger] s[i]).recipe_type@ == t implies exists|c: int|
            0 <= c < b.len() && b[c] == i by {
            assert(b.contains(i as usize));
        }
        if r is None {
            assert forall|i: int| 0 <= i < s.len() && (#[trigger] s[i]).recipe_type@ == t implies !(
            !input.spec_is_empty() && s[i].data.spec_matches(input)) by {
                let c = choose|c: int| 0 <= c < b.len() && b[c] == i;
                assert(!accepts_at(s, b[c], input));
            }
        } else {
            let x = r->0;
            let j = choose|j: int| is_first_match(s, b, input, j) && x == &s[b[j] as int];
            let i = b[j] as int;
            assert(accepts_at(s, b[j], input));
            assert forall|k: int|
                0 <= k < s.len() && k != i && (#[trigger] s[k]).recipe_type@ == t && !input.spec_is_empty()
                    && s[k].data.spec_matches(input) implies key_less(x.key@, s[k].key@) by {
                let c = choose|c: int| 0 <= c < b.len() && b[c] == k;
                assert(accepts_at(s, b[c], input));
                if c < j {
                    assert(!accepts_at(s, b[c], input));
                }
                assert(c != j);
                assert(key_less(s[b[j] as int].key@, s[b[c] as int].key@));
            }
            assert(x == &s[i]);
            assert(!(forall|i: int|
                0 <= i < s.len() && (#[trigger] s[i]).recipe_type@ == t ==> !(!input.spec_is_empty()
                    && s[i].data.spec_matches(input)))) by {
                assert(s[i].recipe_type@ == t);
            }
        }
    }
}

/// The recipes of one operational type, viewed through their registry.
pub struct TypedRecipeSet<'a, D> {
    registry: &'a RecipeRegistry<D>,
    indices: Option<&'a Vec<usize>>,
}

impl<'a, D: RecipeData> TypedRecipeSet<'a, D> {
    pub closed spec fn registry(&self) -> &'a RecipeRegistry<D> {
        self.registry
    }

    /// Positions of the set's recipes in the registry, in scan order.
    pub closed spec fn positions(&self) -> Seq<usize> {
        match self.indices {
            Some(v) => v@,
            None => Seq::empty(),
        }
    }

    pub fn len(&self) -> (r: usize)
        ensures
            r == self.positions().len(),
    {
        match self.indices {
            Some(v) => v.len(),
            None => 0,
        }
    }

    pub fn is_empty(&self) -> (r: bool)
        ensures
            r == (self.positions().len() == 0),
    {
        self.len() == 0
    }

    /// The `k`-th recipe of the set, in scan order.
    pub fn get(&self, k: usize) -> (r: Option<&'a Recipe<D>>)
        requires
            self.registry().wf(),
            forall|j: int| 0 <= j < self.positions().len() ==> #[trigger] self.positions()[j] < self.registry().recipes().len(),
        ensures
            r == (if k < self.positions().len() {
                Some(&self.registry().recipes()[self.positions()[k as int] as int])
            } else {
                None
            }),
    {
        match self.indices {
            Some(v) => {
                if k < v.len() {
                    assert(self.positions()[k as int] == v@[k as int]);
                    assert(self.positions()[k as int] < self.registry.recipes@.len());
                    Some(&self.registry.recipes[v[k]])
                } else {
                    None
                }
            },
            None => None,
        }
    }
}

/// A cached lookup finds a recipe exactly when a scan of the type's recipes
/// does, as long as the remembered recipe is one of them; whatever it finds
/// accepts the input.
pub proof fn lemma_cached_find_agrees<'a, D: RecipeMatches<I>, I: RecipeInput>(
    cached: Option<&'a Recipe<D>>,
    s: Seq<Recipe<D>>,
    b: Seq<usize>,
    input: &I,
)
    requires
        forall|j: int| 0 <= j < b.len() ==> #[trigger] b[j] < s.len(),
        cached matches Some(c) ==> exists|j: int| 0 <= j < b.len() && c == &s[#[trigger] b[j] as int],
    ensures
        spec_cached_find(cached, s, b, input) is Some <==> spec_first_match::<'a, D, I>(s, b, input) is Some,
        spec_cached_find(cached, s, b, input) matches Some(x) ==> !input.spec_is_empty() && x.data.spec_matches(input),
{
    let p = accepted_position(s, input);
    if input.spec_is_empty() {
        assert forall|j: int| 0 <= j < b.len() implies !p(#[trigger] b[j]) by {}
        crate::util::lemma_first_index_none(b, p);
    } else if cached is Some && cached->0.data.spec_matches(input) {
        let c = cached->0;
        let j = choose|j: int| 0 <= j < b.len() && c == &s[#[trigger] b[j] as int];
        assert(p(b[j]));
        crate::util::lemma_first_index_some(b, p, j);
    }
    match crate::util::first_index(b, p) {
        Some(j) => {
            assert(0 <= j < b.len() && p(b[j]));
        },
        None => {},
    }
}

/// Remembers the last successful recipe of one operational type and tests it
/// before scanning the registry again.
pub struct CachedRecipeCheck<'a, D> {
    recipe_type: RecipeType,
    last_recipe: Option<&'a Recipe<D>>,
}

impl<'a, D: RecipeData> CachedRecipeCheck<'a, D> {
    pub closed spec fn recipe_type(&self) -> RecipeType {
        self.recipe_type
    }

    /// The remembered recipe, if any.
    pub closed spec fn cached(&self) -> Option<&'a Recipe<D>> {
        self.last_recipe
    }

    /// The remembered recipe is of the cache's type and well formed.
    pub open spec fn cache_wf(&self) -> bool {
        match self.cached() {
            Some(c) => c.data.data_wf() && c.recipe_type@ == self.recipe_type().entry.key@,
            None => true,
        }
    }

    /// An empty cache for one recipe type.
    pub fn new(recipe_type: RecipeType) -> (r: CachedRecipeCheck<'a, D>)
        ensures
            r.recipe_type() == recipe_type,
            r.cached() is None,
            r.cache_wf(),
    {
        CachedRecipeCheck { recipe_type, last_recipe: None }
    }

    /// Finds a recipe accepting `input`: the remembered one when it still
    /// matches, else the registry's first match, which is then remembered.
    pub fn find_match<I: RecipeInput>(&mut self, registry: &'a RecipeRegistry<D>, input: &I) -> (r: Option<&'a Recipe<D>>)
        where
            D: RecipeMatches<I>,
        requires
            registry.wf(),
            input.input_wf(),
            old(self).cache_wf(),
        ensures
            final(self).cache_wf(),
            final(self).recipe_type() == old(self).recipe_type(),
            input.spec_is_empty() ==> r is None && final(self).cached() == old(self).cached(),
            !input.spec_is_empty() && (old(self).cached() matches Some(c) && c.data.spec_matches(input))
                ==> r == old(self).cached() && final(self).cached() == old(self).cached(),
            !input.spec_is_empty() && !(old(self).cached() matches Some(c) && c.data.spec_matches(input)) ==> {
                &&& is_find_result(registry.recipes(), registry.bucket(old(self).recipe_type().entry.key@), input, r)
                &&& final(self).cached() == if r is Some { r } else { old(self).cached() }
            },
            r matches Some(x) ==> !input.spec_is_empty() && x.data.spec_matches(input)
                && x.recipe_type@ == old(self).recipe_type().entry.key@,
            r == spec_cached_find(old(self).cached(), registry.recipes(), registry.bucket(old(self).recipe_type().entry.key@), input),
            final(self).cached() == if r is Some { r } else { old(self).cached() },
    {
        if input.is_empty() {
            return None;
        }
        match self.last_recipe {
            Some(recipe) => {
                if recipe.data.matches(input) {
                    return Some(recipe);
                }
            },
            None => {},
        }
        let found = registry.find_match(&self.recipe_type, input);
        proof {
            lemma_find_result_is_first_match(registry.recipes(), registry.bucket(self.recipe_type.entry.key@), input, found);
        }
        match found {
            Some(recipe) => {
                proof {
                    let b = registry.bucket(self.recipe_type.entry.key@);
                    registry.lemma_bucket(self.recipe_type.entry.key@);
                    let j = choose|j: int| is_first_match(registry.recipes(), b, input, j)
                        && recipe == &registry.recipes()[b[j] as int];
                    assert(b[j] < registry.recipes().len());
                    assert(registry.recipes()[b[j] as int].data.data_wf()) by {
                        registry.lemma_data_wf(b[j] as int);
                    }
                }
                self.last_recipe = Some(recipe);
                assert(is_find_result(registry.recipes(), registry.bucket(self.recipe_type.entry.key@), input, found));
                Some(recipe)
            },
            None => None,
        }
    }
}

/// Dropping position `index` from a bucket keeps it valid after the recipe at
/// `index` is replaced.
proof fn lemma_bucket_ok_without<D>(
    s0: Seq<Recipe<D>>,
    s1: Seq<Recipe<D>>,
    b: Seq<usize>,
    t: IdentifierModel,
    index: usize,
)
    requires
        bucket_ok(s0, b, t),
        index < s0.len(),
        s1 == s0.update(index as int, s1[index as int]),
    ensures
        bucket_ok(s1, without(b, index), t),
        !without(b, index).contains(index),
{
    lemma_without(b, index);
    let w = without(b, index);
    assert forall|j: int| 0 <= j < w.len() implies #[trigger] w[j] < s1.len() && s1[w[j] as int].recipe_type@ == t by {
        assert(w.contains(w[j]));
        let k = choose|k: int| 0 <= k < b.len() && b[k] == w[j];
        assert(s1[w[j] as int] == s0[w[j] as int]);
    }
}

/// A bucket that does not mention `index` stays valid when the recipe at
/// `index`, which is not of its type, is replaced.
proof fn lemma_bucket_ok_unchanged<D>(
    s0: Seq<Recipe<D>>,
    s1: Seq<Recipe<D>>,
    b: Seq<usize>,
    t: IdentifierModel,
    index: usize,
)
    requires
        bucket_ok(s0, b, t),
        index < s0.len(),
        s0[index as int].recipe_type@ != t,
        s1 == s0.update(index as int, s1[index as int]),
    ensures
        bucket_ok(s1, b, t),
{
    assert forall|j: int| 0 <= j < b.len() implies #[trigger] b[j] < s1.len() && s1[b[j] as int].recipe_type@ == t by {
        assert(b[j] != index);
        assert(s1[b[j] as int] == s0[b[j] as int]);
    }
}

/// Appending a new position of type `t` keeps a bucket valid.
proof fn lemma_bucket_ok_push<D>(s: Seq<Recipe<D>>, b: Seq<usize>, t: IdentifierModel, index: usize)
    requires
        bucket_ok(s, b, t),
        !b.contains(index),
        index < s.len(),
        s[index as int].recipe_type@ == t,
    ensures
        bucket_ok(s, b.push(index), t),
{
    let c = b.push(index);
    assert forall|j: int| 0 <= j < c.len() implies #[trigger] c[j] < s.len() && s[c[j] as int].recipe_type@ == t by {
        if j < b.len() {
            assert(c[j] == b[j]);
        }
    }
    assert forall|i: int, j: int| 0 <= i < c.len() && 0 <= j < c.len() && i != j implies c[i] != c[j] by {
        if i < b.len() && j < b.len() {
            assert(c[i] == b[i] && c[j] == b[j]);
        } else if i < b.len() {
            assert(c[i] == b[i]);
        } else if j < b.len() {
            assert(c[j] == b[j]);
        }
    }
}

/// Removing `x` keeps every other element, in order and without duplicates.
pub proof fn lemma_without(b: Seq<usize>, x: usize)
    ensures
        forall|y: usize| #[trigger] without(b, x).contains(y) <==> (b.contains(y) && y != x),
        b.no_duplicates() ==> without(b, x).no_duplicates(),
        !b.contains(x) ==> without(b, x) == b,
    decreases b.len(),
{
    reveal_with_fuel(Seq::filter, 1);
    if b.len() > 0 {
        let d = b.drop_last();
        lemma_without(d, x);
        assert(b =~= d.push(b.last()));
        assert forall|y: usize| #[trigger] without(b, x).contains(y) <==> (b.contains(y) && y != x) by {
            if b.contains(y) && y != x {
                let k = choose|k: int| 0 <= k < b.len() && b[k] == y;
                if k < d.len() {
                    assert(d[k] == y);
                }
            }
            if without(b, x).contains(y) {
                if without(d, x).contains(y) {
                    let k = choose|k: int| 0 <= k < d.len() && d[k] == y;
                    assert(b[k] == y);
                }
            }
        }
        if b.no_duplicates() {
            assert(d.no_duplicates()) by {
                assert forall|i: int, j: int| 0 <= i < d.len() && 0 <= j < d.len() && i != j implies d[i] != d[j] by {
                    assert(b[i] == d[i] && b[j] == d[j]);
                }
            }
            if b.last() != x {
                assert(!without(d, x).contains(b.last())) by {
                    if without(d, x).contains(b.last()) {
                        let k = choose|k: int| 0 <= k < d.len() && d[k] == b.last();
                        assert(b[k] == b[b.len() - 1]);
                    }
                }
            }
        }
        if !b.contains(x) {
            assert(!d.contains(x)) by {
                if d.contains(x) {
                    let k = choose|k: int| 0 <= k < d.len() && d[k] == x;
                    assert(b[k] == x);
                }
            }
            assert(b.last() != x);
        }
    }
}

/// The accepted positions of an increasing bucket are increasing and come
/// from the bucket.
proof fn lemma_matched_increasing<D: RecipeMatches<I>, I: RecipeInput>(s: Seq<Recipe<D>>, b: Seq<usize>, input: &I)
    requires
        increasing(b),
    ensures
        increasing(matched_positions(s, b, input)),
        forall|j: int| 0 <= j < matched_positions(s, b, input).len() ==> b.contains(#[trigger] matched_positions(s, b, input)[j]),
    decreases b.len(),
{
    if b.len() > 0 {
        let d = b.drop_last();
        assert(increasing(d)) by {
            assert forall|i: int, j: int| 0 <= i < j < d.len() implies #[trigger] d[i] < #[trigger] d[j] by {
                assert(d[i] == b[i] && d[j] == b[j]);
            }
        }
        lemma_matched_increasing(s, d, input);
        let rest = matched_positions(s, d, input);
        assert forall|j: int| 0 <= j < rest.len() implies b.contains(#[trigger] rest[j]) && rest[j] < b.last() by {
            let c = choose|c: int| 0 <= c < d.len() && d[c] == rest[j];
            assert(b[c] == rest[j]);
            assert(b[c] < b[b.len() - 1]);
        }
    }
}

} // verus!
