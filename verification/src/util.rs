//! Counting, filtering and searching over sequences, and string helpers,
//! used by the contracts of the library.

use vstd::prelude::*;

verus! {

/// How many elements of `s` satisfy `p`.
pub open spec fn count<A>(s: Seq<A>, p: spec_fn(A) -> bool) -> nat
    decreases s.len(),
{
    if s.len() == 0 {
        0
    } else {
        count(s.drop_last(), p) + if p(s.last()) {
            1nat
        } else {
            0nat
        }
    }
}

/// Extending a prefix by one element adds one to the count when it satisfies `p`.
pub proof fn lemma_count_step<A>(s: Seq<A>, p: spec_fn(A) -> bool, i: int)
    requires
        0 <= i < s.len(),
    ensures
        count(s.take(i + 1), p) == count(s.take(i), p) + if p(s[i]) {
            1nat
        } else {
            0nat
        },
{
    assert(s.take(i + 1).drop_last() =~= s.take(i));
}

/// The prefix as long as the sequence is the sequence.
pub proof fn lemma_take_full<A>(s: Seq<A>)
    ensures
        s.take(s.len() as int) == s,
{
    assert(s.take(s.len() as int) =~= s);
}

/// A prefix counts no more than the whole sequence.
pub proof fn lemma_count_prefix_le<A>(s: Seq<A>, p: spec_fn(A) -> bool, i: int)
    requires
        0 <= i <= s.len(),
    ensures
        count(s.take(i), p) <= count(s, p),
    decreases s.len() - i,
{
    if i == s.len() {
        lemma_take_full(s);
    } else {
        lemma_count_step(s, p, i);
        lemma_count_prefix_le(s, p, i + 1);
    }
}

/// The count is at most the length.
pub proof fn lemma_count_le_len<A>(s: Seq<A>, p: spec_fn(A) -> bool)
    ensures
        count(s, p) <= s.len(),
    decreases s.len(),
{
    if s.len() > 0 {
        lemma_count_le_len(s.drop_last(), p);
    }
}

/// An element satisfying `p` makes the count positive.
pub proof fn lemma_count_pos<A>(s: Seq<A>, p: spec_fn(A) -> bool, i: int)
    requires
        0 <= i < s.len(),
        p(s[i]),
    ensures
        count(s, p) >= 1,
{
    lemma_count_step(s, p, i);
    lemma_count_prefix_le(s, p, i + 1);
}

/// Two distinct elements satisfying `p` make the count at least two.
pub proof fn lemma_count_two<A>(s: Seq<A>, p: spec_fn(A) -> bool, i: int, j: int)
    requires
        0 <= i < j < s.len(),
        p(s[i]),
        p(s[j]),
    ensures
        count(s, p) >= 2,
{
    lemma_count_step(s, p, i);
    lemma_count_prefix_le(s.take(j), p, i + 1);
    assert(s.take(j).take(i + 1) =~= s.take(i + 1));
    lemma_count_step(s, p, j);
    lemma_count_prefix_le(s, p, j + 1);
}

/// When every element satisfies `p`, the count is the length.
pub proof fn lemma_count_all<A>(s: Seq<A>, p: spec_fn(A) -> bool)
    requires
        forall|i: int| 0 <= i < s.len() ==> p(#[trigger] s[i]),
    ensures
        count(s, p) == s.len(),
    decreases s.len(),
{
    if s.len() > 0 {
        assert forall|i: int| 0 <= i < s.drop_last().len() implies p(#[trigger] s.drop_last()[i]) by {
            assert(s.drop_last()[i] == s[i]);
        }
        lemma_count_all(s.drop_last(), p);
    }
}

/// When every element satisfies exactly one of `p` and `q`, their counts add
/// up to the length.
pub proof fn lemma_count_split<A>(s: Seq<A>, p: spec_fn(A) -> bool, q: spec_fn(A) -> bool)
    requires
        forall|i: int| 0 <= i < s.len() ==> p(#[trigger] s[i]) != q(s[i]),
    ensures
        count(s, p) + count(s, q) == s.len(),
    decreases s.len(),
{
    if s.len() > 0 {
        assert forall|i: int| 0 <= i < s.drop_last().len() implies p(#[trigger] s.drop_last()[i])
            != q(s.drop_last()[i]) by {
            assert(s.drop_last()[i] == s[i]);
        }
        lemma_count_split(s.drop_last(), p, q);
        assert(p(s[s.len() - 1]) != q(s[s.len() - 1]));
    }
}

/// When every element but the one at `k` satisfies `p` and that one does not,
/// the count is one less than the length.
pub proof fn lemma_count_all_but_one<A>(s: Seq<A>, p: spec_fn(A) -> bool, k: int)
    requires
        0 <= k < s.len(),
        !p(s[k]),
        forall|i: int| 0 <= i < s.len() && i != k ==> p(#[trigger] s[i]),
    ensures
        count(s, p) == s.len() - 1,
    decreases s.len(),
{
    let t = s.drop_last();
    if k == s.len() - 1 {
        assert forall|i: int| 0 <= i < t.len() implies p(#[trigger] t[i]) by {
            assert(t[i] == s[i]);
        }
        lemma_count_all(t, p);
    } else {
        assert forall|i: int| 0 <= i < t.len() && i != k implies p(#[trigger] t[i]) by {
            assert(t[i] == s[i]);
        }
        assert(t[k] == s[k]);
        lemma_count_all_but_one(t, p, k);
        assert(p(s[s.len() - 1]));
    }
}

/// `start` after assigning, in order, each value of `sets` at its position.
pub open spec fn apply_updates<A>(start: Seq<A>, sets: Seq<(int, A)>) -> Seq<A>
    decreases sets.len(),
{
    if sets.len() == 0 {
        start
    } else {
        apply_updates(start, sets.drop_last()).update(sets.last().0, sets.last().1)
    }
}

/// The value most recently assigned at `pos` in `sets`, or `default` when none is.
pub open spec fn latest_update<A>(sets: Seq<(int, A)>, pos: int, default: A) -> A
    decreases sets.len(),
{
    if sets.len() == 0 {
        default
    } else if sets.last().0 == pos {
        sets.last().1
    } else {
        latest_update(sets.drop_last(), pos, default)
    }
}

/// Starting from `count` copies of `default` and assigning in-range
/// positions, each position holds its most recent assignment, or `default`.
pub proof fn lemma_latest_update<A>(count: nat, default: A, sets: Seq<(int, A)>, pos: int)
    requires
        forall|k: int| 0 <= k < sets.len() ==> 0 <= (#[trigger] sets[k]).0 < count,
        0 <= pos < count,
    ensures
        apply_updates(Seq::new(count, |i: int| default), sets).len() == count,
        apply_updates(Seq::new(count, |i: int| default), sets)[pos] == latest_update(sets, pos, default),
    decreases sets.len(),
{
    if sets.len() > 0 {
        let t = sets.drop_last();
        assert forall|k: int| 0 <= k < t.len() implies 0 <= (#[trigger] t[k]).0 < count by {
            assert(t[k] == sets[k]);
        }
        assert(0 <= sets[sets.len() - 1].0 < count);
        lemma_latest_update(count, default, t, pos);
    }
}

/// Counts of predicates that agree on every element are equal.
pub proof fn lemma_count_ext<A>(s: Seq<A>, p: spec_fn(A) -> bool, q: spec_fn(A) -> bool)
    requires
        forall|i: int| 0 <= i < s.len() ==> p(#[trigger] s[i]) == q(s[i]),
    ensures
        count(s, p) == count(s, q),
    decreases s.len(),
{
    if s.len() > 0 {
        assert forall|i: int| 0 <= i < s.drop_last().len() implies p(#[trigger] s.drop_last()[i])
            == q(s.drop_last()[i]) by {
            assert(s.drop_last()[i] == s[i]);
        }
        lemma_count_ext(s.drop_last(), p, q);
    }
}

/// Filtering keeps exactly the counted elements.
pub proof fn lemma_filter_len_count<A>(s: Seq<A>, p: spec_fn(A) -> bool)
    ensures
        s.filter(p).len() == count(s, p),
    decreases s.len(),
{
    reveal_with_fuel(Seq::filter, 1);
    if s.len() > 0 {
        lemma_filter_len_count(s.drop_last(), p);
    }
}

/// Extending a prefix by one element extends its filtered sequence by that element when it satisfies `p`.
pub proof fn lemma_filter_step<A>(s: Seq<A>, p: spec_fn(A) -> bool, i: int)
    requires
        0 <= i < s.len(),
    ensures
        s.take(i + 1).filter(p) == if p(s[i]) {
            s.take(i).filter(p).push(s[i])
        } else {
            s.take(i).filter(p)
        },
{
    reveal_with_fuel(Seq::filter, 1);
    let t = s.take(i + 1);
    assert(t.drop_last() =~= s.take(i));
    assert(t.last() == s[i]);
}

/// Position of the first element of `s` satisfying `p`.
pub open spec fn first_index<A>(s: Seq<A>, p: spec_fn(A) -> bool) -> Option<int> {
    if exists|i: int| 0 <= i < s.len() && p(s[i]) && forall|j: int| 0 <= j < i ==> !p(#[trigger] s[j]) {
        Some(choose|i: int| 0 <= i < s.len() && p(s[i]) && forall|j: int| 0 <= j < i ==> !p(#[trigger] s[j]))
    } else {
        None
    }
}

/// Position of the last element of `s` satisfying `p`.
pub open spec fn last_index<A>(s: Seq<A>, p: spec_fn(A) -> bool) -> Option<int> {
    if exists|i: int| 0 <= i < s.len() && p(s[i]) && forall|j: int| i < j < s.len() ==> !p(#[trigger] s[j]) {
        Some(choose|i: int| 0 <= i < s.len() && p(s[i]) && forall|j: int| i < j < s.len() ==> !p(#[trigger] s[j]))
    } else {
        None
    }
}

/// An element satisfying `p` with none before it is the first.
pub proof fn lemma_first_index_is<A>(s: Seq<A>, p: spec_fn(A) -> bool, i: int)
    requires
        0 <= i < s.len(),
        p(s[i]),
        forall|j: int| 0 <= j < i ==> !p(#[trigger] s[j]),
    ensures
        first_index(s, p) == Some(i),
{
    let c = choose|c: int| 0 <= c < s.len() && p(s[c]) && forall|j: int| 0 <= j < c ==> !p(#[trigger] s[j]);
    if c < i {
        assert(!p(s[c]));
    } else if c > i {
        assert(!p(s[i]));
    }
}

/// When some element satisfies `p`, there is a first one.
pub proof fn lemma_first_index_some<A>(s: Seq<A>, p: spec_fn(A) -> bool, k: int)
    requires
        0 <= k < s.len(),
        p(s[k]),
    ensures
        first_index(s, p) is Some,
    decreases k,
{
    if exists|j: int| 0 <= j < k && p(#[trigger] s[j]) {
        let j = choose|j: int| 0 <= j < k && p(#[trigger] s[j]);
        lemma_first_index_some(s, p, j);
    } else {
        lemma_first_index_is(s, p, k);
    }
}

/// When no element satisfies `p`, there is no first one.
pub proof fn lemma_first_index_none<A>(s: Seq<A>, p: spec_fn(A) -> bool)
    requires
        forall|j: int| 0 <= j < s.len() ==> !p(#[trigger] s[j]),
    ensures
        first_index(s, p) is None,
{
}

/// An element satisfying `p` with none after it is the last.
pub proof fn lemma_last_index_is<A>(s: Seq<A>, p: spec_fn(A) -> bool, i: int)
    requires
        0 <= i < s.len(),
        p(s[i]),
        forall|j: int| i < j < s.len() ==> !p(#[trigger] s[j]),
    ensures
        last_index(s, p) == Some(i),
{
    let c = choose|c: int| 0 <= c < s.len() && p(s[c]) && forall|j: int| c < j < s.len() ==> !p(#[trigger] s[j]);
    if c < i {
        assert(!p(s[i]));
    } else if c > i {
        assert(!p(s[c]));
    }
}

/// When no element satisfies `p`, there is no last one.
pub proof fn lemma_last_index_none<A>(s: Seq<A>, p: spec_fn(A) -> bool)
    requires
        forall|j: int| 0 <= j < s.len() ==> !p(#[trigger] s[j]),
    ensures
        last_index(s, p) is None,
{
}

/// The characters of `s`.
pub fn chars_of(s: &str) -> (r: Vec<char>)
    ensures
        r@ == s@,
{
    let n = s.unicode_len();
    let mut r: Vec<char> = Vec::new();
    let mut i: usize = 0;
    while i < n
        invariant
            n == s@.len(),
            i <= n,
            r@ == s@.take(i as int),
        decreases n - i,
    {
        r.push(s.get_char(i));
        i += 1;
        assert(r@ =~= s@.take(i as int));
    }
    assert(s@.take(n as int) =~= s@);
    r
}

/// Whether two strings hold the same characters.
pub fn str_eq(a: &str, b: &str) -> (r: bool)
    ensures
        r == (a@ == b@),
{
    let x = chars_of(a);
    let y = chars_of(b);
    if x.len() != y.len() {
        return false;
    }
    let mut i: usize = 0;
    while i < x.len()
        invariant
            x@ == a@,
            y@ == b@,
            x@.len() == y@.len(),
            i <= x@.len(),
            forall|k: int| 0 <= k < i ==> x@[k] == y@[k],
        decreases x@.len() - i,
    {
        if x[i] != y[i] {
            return false;
        }
        i += 1;
    }
    assert(x@ =~= y@);
    true
}

} // verus!
