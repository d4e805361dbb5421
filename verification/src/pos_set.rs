//! An insertion-ordered set of block positions, for feature code that the
//! base game keeps in a hash set, with iteration normalised to insertion
//! order.

use vstd::prelude::*;

use smallvec::SmallVec;

use crate::block_pos::BlockPos;

verus! {

/// Positions kept inline before the entries spill to the heap.
pub const INLINE_CAPACITY: usize = 32;

/// Below this many entries a push cannot overflow the allocation size: a
/// full buffer grows to the next power of two above its length, which is
/// less than twice the length, of twelve-byte positions, and that stays within
/// `isize::MAX` bytes.
pub open spec fn max_positions() -> int {
    isize::MAX / 24
}

/// Inline-first storage for the set's positions.
#[verifier::external_body]
pub struct PosEntries {
    entries: SmallVec<[BlockPos; INLINE_CAPACITY]>,
}

/// The positions held, in storage order.
pub uninterp spec fn pos_entries(e: PosEntries) -> Seq<BlockPos>;

/// `SmallVec::new`: no positions.
#[verifier::external_body]
fn entries_new() -> (r: PosEntries)
    ensures
        pos_entries(r).len() == 0,
{
    PosEntries { entries: SmallVec::new() }
}

/// `SmallVec::len`.
#[verifier::external_body]
fn entries_len(e: &PosEntries) -> (r: usize)
    ensures
        r == pos_entries(*e).len(),
{
    e.entries.len()
}

/// `contains` on the stored slice: whether an equal position is stored.
#[verifier::external_body]
fn entries_contains(e: &PosEntries, pos: BlockPos) -> (r: bool)
    ensures
        r == pos_entries(*e).contains(pos),
{
    e.entries.contains(&pos)
}

/// `SmallVec::push`: appends `pos`.
#[verifier::external_body]
fn entries_push(e: &mut PosEntries, pos: BlockPos)
    requires
        pos_entries(*old(e)).len() < max_positions(),
    ensures
        pos_entries(*final(e)) == pos_entries(*old(e)).push(pos),
{
    e.entries.push(pos);
}

/// `SmallVec::remove`: takes out the entry at `index`, shifting the later
/// ones down by one.
#[verifier::external_body]
fn entries_remove(e: &mut PosEntries, index: usize) -> (r: BlockPos)
    requires
        index < pos_entries(*old(e)).len(),
    ensures
        r == pos_entries(*old(e))[index as int],
        pos_entries(*final(e)) == pos_entries(*old(e)).remove(index as int),
{
    e.entries.remove(index)
}

/// `to_vec` on the stored slice: a copy of the positions in storage order.
#[verifier::external_body]
fn entries_to_vec(e: &PosEntries) -> (r: Vec<BlockPos>)
    ensures
        r@ == pos_entries(*e),
{
    e.entries.to_vec()
}

/// A set of block positions that remembers insertion order.
pub struct JavaBlockPosSet {
    entries: PosEntries,
}

impl JavaBlockPosSet {
    /// The positions in insertion order.
    pub closed spec fn view(&self) -> Seq<BlockPos> {
        pos_entries(self.entries)
    }

    /// No position is held twice.
    pub open spec fn wf(&self) -> bool {
        self.view().no_duplicates()
    }

    /// An empty set.
    pub fn new() -> (r: JavaBlockPosSet)
        ensures
            r.wf(),
            r.view() == Seq::<BlockPos>::empty(),
    {
        let r = JavaBlockPosSet { entries: entries_new() };
        assert(r.view() =~= Seq::<BlockPos>::empty());
        r
    }

    /// Adds `pos` at the end unless it is already held; whether it was added.
    pub fn insert(&mut self, pos: BlockPos) -> (r: bool)
        requires
            old(self).wf(),
            old(self).view().len() < max_positions(),
        ensures
            final(self).wf(),
            r == !old(self).view().contains(pos),
            r ==> final(self).view() == old(self).view().push(pos),
            !r ==> final(self).view() == old(self).view(),
    {
        if entries_contains(&self.entries, pos) {
            return false;
        }
        entries_push(&mut self.entries, pos);
        proof {
            let s = old(self).view();
            assert forall|i: int, j: int| 0 <= i < j < s.push(pos).len() implies s.push(pos)[i] != s.push(pos)[j] by {
                if j == s.len() {
                    assert(s.contains(s[i]));
                }
            }
        }
        true
    }

    /// Whether `pos` is held.
    pub fn contains(&self, pos: BlockPos) -> (r: bool)
        ensures
            r == self.view().contains(pos),
    {
        entries_contains(&self.entries, pos)
    }

    /// Whether no position is held.
    pub fn is_empty(&self) -> (r: bool)
        ensures
            r == (self.view().len() == 0),
    {
        entries_len(&self.entries) == 0
    }

    /// The positions in insertion order.
    pub fn java_ordered_positions(&self) -> (r: Vec<BlockPos>)
        ensures
            r@ == self.view(),
    {
        entries_to_vec(&self.entries)
    }

    /// Takes out the earliest-inserted position, if any.
    pub fn pop_java_ordered_position(&mut self) -> (r: Option<BlockPos>)
        requires
            old(self).wf(),
        ensures
            final(self).wf(),
            old(self).view().len() == 0 ==> r is None && final(self).view() == old(self).view(),
            old(self).view().len() > 0 ==> r == Some(old(self).view()[0])
                && final(self).view() == old(self).view().drop_first(),
    {
        if entries_len(&self.entries) == 0 {
            return None;
        }
        let first = entries_remove(&mut self.entries, 0);
        proof {
            let s = old(self).view();
            assert(s.remove(0) =~= s.drop_first());
            assert forall|i: int, j: int| 0 <= i < j < s.drop_first().len() implies s.drop_first()[i] != s.drop_first()[j] by {
                assert(s.drop_first()[i] == s[i + 1]);
                assert(s.drop_first()[j] == s[j + 1]);
            }
        }
        Some(first)
    }
}

impl Default for JavaBlockPosSet {
    fn default() -> (r: JavaBlockPosSet)
        ensures
            r.wf(),
            r.view() == Seq::<BlockPos>::empty(),
    {
        JavaBlockPosSet::new()
    }
}

/// Taking out the first position and adding it again moves it behind every
/// other held position.
pub proof fn lemma_popped_position_is_new(s: Seq<BlockPos>)
    requires
        s.no_duplicates(),
        s.len() > 0,
    ensures
        !s.drop_first().contains(s[0]),
        s.drop_first().push(s[0]).len() == s.len(),
        s.drop_first().push(s[0]).last() == s[0],
{
    if s.drop_first().contains(s[0]) {
        let k = choose|k: int| 0 <= k < s.drop_first().len() && s.drop_first()[k] == s[0];
        assert(s[k + 1] == s[0]);
    }
}

} // verus!
