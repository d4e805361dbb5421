//! Key-indexed lookup tables backed by `rustc_hash::FxHashMap`.
//!
//! The maps are used only through the functions below. Their contracts
//! describe `std::collections::HashMap` semantics (with the deterministic
//! `FxBuildHasher`) for keys whose `Hash` and `Eq` are derived, as those of
//! [`Identifier`] are: equal keys are the keys with equal bytes.

use vstd::prelude::*;

use rustc_hash::{FxBuildHasher, FxHashMap};

use crate::identifier::{Identifier, IdentifierModel};

verus! {

#[verifier::external_type_specification]
#[verifier::external_body]
pub struct ExFxBuildHasher(FxBuildHasher);

/// The key-to-slot entries held by a slot table.
pub uninterp spec fn slot_entries(m: FxHashMap<Identifier, usize>) -> Map<IdentifierModel, usize>;

/// The key-to-bucket entries held by a bucket table.
pub uninterp spec fn bucket_entries(m: FxHashMap<Identifier, Vec<usize>>) -> Map<IdentifierModel, Seq<usize>>;

/// A slot table with no entries.
pub open spec fn no_slots() -> Map<IdentifierModel, usize> {
    Map::empty()
}

/// A bucket table with no buckets.
pub open spec fn no_buckets() -> Map<IdentifierModel, Seq<usize>> {
    Map::empty()
}

/// `FxHashMap::default()`: a table with no entries.
#[verifier::external_body]
pub(crate) fn slots_new() -> (m: FxHashMap<Identifier, usize>)
    ensures
        slot_entries(m) == no_slots(),
{
    FxHashMap::default()
}

/// `HashMap::get`: the slot stored under `key`, copied out.
#[verifier::external_body]
pub(crate) fn slots_get(m: &FxHashMap<Identifier, usize>, key: &Identifier) -> (r: Option<usize>)
    ensures
        r == (if slot_entries(*m).contains_key(key@) {
            Some(slot_entries(*m)[key@])
        } else {
            None
        }),
{
    m.get(key).copied()
}

/// `HashMap::insert`: stores `value` under `key`, replacing any earlier entry.
#[verifier::external_body]
pub(crate) fn slots_insert(m: &mut FxHashMap<Identifier, usize>, key: Identifier, value: usize)
    ensures
        slot_entries(*final(m)) == slot_entries(*old(m)).insert(key@, value),
{
    m.insert(key, value);
}

/// `HashMap::clear`: removes every entry.
#[verifier::external_body]
pub(crate) fn slots_clear(m: &mut FxHashMap<Identifier, usize>)
    ensures
        slot_entries(*final(m)) == no_slots(),
{
    m.clear();
}

/// `FxHashMap::default()`: a table with no buckets.
#[verifier::external_body]
pub(crate) fn buckets_new() -> (m: FxHashMap<Identifier, Vec<usize>>)
    ensures
        bucket_entries(m) == no_buckets(),
{
    FxHashMap::default()
}

/// `HashMap::get`: the bucket stored under `key`.
#[verifier::external_body]
pub(crate) fn buckets_get<'a>(m: &'a FxHashMap<Identifier, Vec<usize>>, key: &Identifier) -> (r: Option<&'a Vec<usize>>)
    ensures
        match r {
            Some(v) => bucket_entries(*m).contains_key(key@) && v@ == bucket_entries(*m)[key@],
            None => !bucket_entries(*m).contains_key(key@),
        },
{
    m.get(key)
}

/// `HashMap::insert`: stores `bucket` under `key`, replacing any earlier bucket.
#[verifier::external_body]
pub(crate) fn buckets_insert(m: &mut FxHashMap<Identifier, Vec<usize>>, key: Identifier, bucket: Vec<usize>)
    ensures
        bucket_entries(*final(m)) == bucket_entries(*old(m)).insert(key@, bucket@),
{
    m.insert(key, bucket);
}

/// `HashMap::remove`: takes the bucket stored under `key` out of the table.
#[verifier::external_body]
pub(crate) fn buckets_remove(m: &mut FxHashMap<Identifier, Vec<usize>>, key: &Identifier) -> (r: Option<Vec<usize>>)
    ensures
        match r {
            Some(v) => bucket_entries(*old(m)).contains_key(key@) && v@ == bucket_entries(*old(m))[key@],
            None => !bucket_entries(*old(m)).contains_key(key@),
        },
        bucket_entries(*final(m)) == bucket_entries(*old(m)).remove(key@),
{
    m.remove(key)
}

/// Appends `value` to the bucket under `key`, starting from an empty bucket
/// when there is none.
pub(crate) fn buckets_push(m: &mut FxHashMap<Identifier, Vec<usize>>, key: Identifier, value: usize)
    ensures
        bucket_entries(*final(m)) == bucket_entries(*old(m)).insert(
            key@,
            if bucket_entries(*old(m)).contains_key(key@) {
                bucket_entries(*old(m))[key@].push(value)
            } else {
                seq![value]
            },
        ),
{
    let mut bucket = match buckets_remove(m, &key) {
        Some(v) => v,
        None => Vec::new(),
    };
    bucket.push(value);
    let ghost pushed = bucket@;
    buckets_insert(m, key, bucket);
    proof {
        assert(bucket_entries(*m) =~= bucket_entries(*old(m)).insert(key@, pushed));
    }
}

/// `HashMap::clear`: removes every bucket.
#[verifier::external_body]
pub(crate) fn buckets_clear(m: &mut FxHashMap<Identifier, Vec<usize>>)
    ensures
        bucket_entries(*final(m)) == no_buckets(),
{
    m.clear();
}

/// The key-to-count entries held by a use-count table.
pub uninterp spec fn use_counts(m: FxHashMap<Identifier, i32>) -> Map<IdentifierModel, i32>;

/// A use-count table with no entries.
pub open spec fn no_uses() -> Map<IdentifierModel, i32> {
    Map::empty()
}

/// `FxHashMap::default()`: a table with no counts.
#[verifier::external_body]
pub(crate) fn uses_new() -> (m: FxHashMap<Identifier, i32>)
    ensures
        use_counts(m) == no_uses(),
{
    FxHashMap::default()
}

/// `HashMap::get`: the count stored under `key`, copied out.
#[verifier::external_body]
pub(crate) fn uses_get(m: &FxHashMap<Identifier, i32>, key: &Identifier) -> (r: Option<i32>)
    ensures
        r == (if use_counts(*m).contains_key(key@) {
            Some(use_counts(*m)[key@])
        } else {
            None
        }),
{
    m.get(key).copied()
}

/// Counts one more use of `key`; a key not counted yet gets the count 1.
pub(crate) fn uses_increment(m: &mut FxHashMap<Identifier, i32>, key: Identifier)
    requires
        use_counts(*old(m)).contains_key(key@) ==> use_counts(*old(m))[key@] < i32::MAX,
    ensures
        use_counts(*final(m)) == use_counts(*old(m)).insert(
            key@,
            if use_counts(*old(m)).contains_key(key@) {
                (use_counts(*old(m))[key@] + 1) as i32
            } else {
                1i32
            },
        ),
{
    let next = match uses_get(m, &key) {
        Some(n) => n + 1,
        None => 1,
    };
    uses_insert(m, key, next);
}

/// `HashMap::insert`: stores `count` under `key`, replacing any earlier count.
#[verifier::external_body]
pub(crate) fn uses_insert(m: &mut FxHashMap<Identifier, i32>, key: Identifier, count: i32)
    ensures
        use_counts(*final(m)) == use_counts(*old(m)).insert(key@, count),
{
    m.insert(key, count);
}

/// `std::mem::take`: hands the table out and leaves an empty one behind.
#[verifier::external_body]
pub(crate) fn uses_take(m: &mut FxHashMap<Identifier, i32>) -> (r: FxHashMap<Identifier, i32>)
    ensures
        use_counts(r) == use_counts(*old(m)),
        use_counts(*final(m)) == no_uses(),
{
    std::mem::take(m)
}

/// `HashMap::clear`: removes every count.
#[verifier::external_body]
pub(crate) fn uses_clear(m: &mut FxHashMap<Identifier, i32>)
    ensures
        use_counts(*final(m)) == no_uses(),
{
    m.clear();
}

} // verus!
