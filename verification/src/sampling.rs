//! Choosing which words of a pool go into a passphrase.
//!
//! A pool smaller than the number of words asked for is drawn from with
//! replacement. Any other pool is drawn from without: an index that was
//! already chosen is refused and drawn again. After [`REDRAW_LIMIT`] refusals
//! in a row the next index is drawn among those that are still free, which
//! chooses among the same indices with the same chances and ends the
//! drawing for certain.

use vstd::prelude::*;

use crate::random::uniform_index;

verus! {

/// How often in a row an index may be refused before the next one is drawn
/// among the free indices only.
pub const REDRAW_LIMIT: usize = 64;

/// How many indices below `bound` are not among `picks`.
pub open spec fn unpicked_below(picks: Seq<usize>, bound: nat) -> nat
    decreases bound,
{
    if bound == 0 {
        0
    } else {
        let rest = unpicked_below(picks, (bound - 1) as nat);
        if picks.contains((bound - 1) as usize) {
            rest
        } else {
            rest + 1
        }
    }
}

/// Whether `picks` can be the choice of `count` words out of a pool of
/// `pool_len`: nothing out of an empty pool, else `count` indices into the
/// pool, and no index twice where the pool is large enough for that.
pub open spec fn is_selection(picks: Seq<usize>, pool_len: nat, count: nat) -> bool {
    &&& picks.len() == if pool_len == 0 {
        0
    } else {
        count
    }
    &&& forall|i: int| 0 <= i < picks.len() ==> picks[i] < pool_len
    &&& pool_len >= count ==> picks.no_duplicates()
}

/// Where nothing is picked, every index below a bound is unpicked.
proof fn lemma_unpicked_of_none(bound: nat)
    ensures
        unpicked_below(Seq::<usize>::empty(), bound) == bound,
    decreases bound,
{
    if bound > 0 {
        lemma_unpicked_of_none((bound - 1) as nat);
    }
}

/// What a list of picks holds after one more pick.
proof fn lemma_contains_after_push(picks: Seq<usize>, index: usize, other: usize)
    ensures
        picks.push(index).contains(other) == (picks.contains(other) || other == index),
{
    let pushed = picks.push(index);
    if picks.contains(other) {
        let at = choose|at: int| 0 <= at < picks.len() && picks[at] == other;
        assert(pushed[at] == other);
    }
    if other == index {
        assert(pushed[picks.len() as int] == index);
    }
    if pushed.contains(other) {
        let at = choose|at: int| 0 <= at < pushed.len() && pushed[at] == other;
        if at < picks.len() {
            assert(picks[at] == other);
        }
    }
}

/// One more pick leaves the count below it as it was, and takes one from
/// the count below any bound above it.
proof fn lemma_unpicked_after_push(picks: Seq<usize>, index: usize, bound: nat)
    requires
        !picks.contains(index),
        bound <= usize::MAX,
    ensures
        unpicked_below(picks.push(index), bound) == if index < bound {
            unpicked_below(picks, bound) - 1
        } else {
            unpicked_below(picks, bound) as int
        },
    decreases bound,
{
    if bound > 0 {
        let last = (bound - 1) as usize;
        lemma_unpicked_after_push(picks, index, (bound - 1) as nat);
        lemma_contains_after_push(picks, index, last);
    }
}

/// Picks out of a pool, none twice, leave as many indices of the pool
/// unpicked as the pool has more than they are; so there are no more of
/// them than the pool has.
pub proof fn lemma_distinct_picks_fit(picks: Seq<usize>, pool_len: nat)
    requires
        picks.no_duplicates(),
        forall|i: int| 0 <= i < picks.len() ==> picks[i] < pool_len,
        pool_len <= usize::MAX,
    ensures
        unpicked_below(picks, pool_len) + picks.len() == pool_len,
    decreases picks.len(),
{
    if picks.len() == 0 {
        assert(picks =~= Seq::<usize>::empty());
        lemma_unpicked_of_none(pool_len);
    } else {
        let earlier = picks.drop_last();
        let last = picks.last();
        assert(picks =~= earlier.push(last));
        assert(!earlier.contains(last)) by {
            if earlier.contains(last) {
                let at = choose|at: int| 0 <= at < earlier.len() && earlier[at] == last;
                assert(picks[at] == picks[picks.len() - 1]);
            }
        }
        assert forall|i: int| 0 <= i < earlier.len() implies earlier[i] < pool_len by {
            assert(earlier[i] == picks[i]);
        }
        assert(earlier.no_duplicates()) by {
            assert forall|i: int, j: int|
                0 <= i < earlier.len() && 0 <= j < earlier.len() && i != j implies earlier[i]
                != earlier[j] by {
                assert(earlier[i] == picks[i] && earlier[j] == picks[j]);
            }
        }
        lemma_distinct_picks_fit(earlier, pool_len);
        lemma_unpicked_after_push(earlier, last, pool_len);
    }
}

/// Out of a pool that holds fewer words than are asked for, some word is
/// chosen more than once.
pub proof fn lemma_small_pool_repeats(picks: Seq<usize>, pool_len: nat, count: nat)
    requires
        is_selection(picks, pool_len, count),
        0 < pool_len < count,
        pool_len <= usize::MAX,
    ensures
        picks.len() == count,
        !picks.no_duplicates(),
{
    if picks.no_duplicates() {
        lemma_distinct_picks_fit(picks, pool_len);
    }
}

/// The indices chosen so far out of a pool, in the order in which they were
/// chosen, none twice.
pub struct DistinctPicker {
    taken: Vec<bool>,
    picks: Vec<usize>,
}

impl DistinctPicker {
    /// The size of the pool.
    pub closed spec fn pool_len(&self) -> nat {
        self.taken@.len()
    }

    /// The indices chosen so far.
    pub closed spec fn picks(&self) -> Seq<usize> {
        self.picks@
    }

    /// What every picker that this module hands out obeys: the marks agree
    /// with the picks.
    pub closed spec fn wf(&self) -> bool {
        &&& forall|k: int|
            0 <= k < self.taken@.len() ==> (#[trigger] self.taken@[k] <==> self.picks@.contains(
                k as usize,
            ))
        &&& forall|i: int| 0 <= i < self.picks@.len() ==> #[trigger] self.picks@[i] < self.taken@.len()
        &&& self.picks@.no_duplicates()
        &&& unpicked_below(self.picks@, self.taken@.len()) + self.picks@.len() == self.taken@.len()
    }

    /// The picks of a picker lie in its pool, none occurs twice, and those
    /// that are left make up the rest of the pool.
    pub proof fn lemma_picks(&self)
        requires
            self.wf(),
        ensures
            forall|i: int| 0 <= i < self.picks().len() ==> self.picks()[i] < self.pool_len(),
            self.picks().no_duplicates(),
            unpicked_below(self.picks(), self.pool_len()) + self.picks().len() == self.pool_len(),
    {
    }

    /// A picker for a pool of `pool_len` with nothing chosen.
    pub fn new(pool_len: usize) -> (picker: Self)
        ensures
            picker.wf(),
            picker.pool_len() == pool_len,
            picker.picks() == Seq::<usize>::empty(),
    {
        let mut taken: Vec<bool> = Vec::new();
        while taken.len() < pool_len
            invariant
                taken.len() <= pool_len,
                forall|k: int| 0 <= k < taken.len() ==> !taken[k],
            decreases pool_len - taken.len(),
        {
            taken.push(false);
        }
        let picker = DistinctPicker { taken, picks: Vec::new() };
        proof {
            lemma_unpicked_of_none(pool_len as nat);
        }
        picker
    }

    /// How many indices are chosen.
    pub fn len(&self) -> (count: usize)
        ensures
            count == self.picks().len(),
    {
        self.picks.len()
    }

    /// How many indices are still free.
    pub fn remaining(&self) -> (count: usize)
        requires
            self.wf(),
        ensures
            count == self.pool_len() - self.picks().len(),
            count == unpicked_below(self.picks(), self.pool_len()),
    {
        self.taken.len() - self.picks.len()
    }

    /// Takes `index` unless it was chosen before or lies outside the pool,
    /// and says whether it was taken.
    pub fn offer(&mut self, index: usize) -> (accepted: bool)
        requires
            old(self).wf(),
        ensures
            final(self).wf(),
            final(self).pool_len() == old(self).pool_len(),
            accepted == (index < old(self).pool_len() && !old(self).picks().contains(index)),
            final(self).picks() == if accepted {
                old(self).picks().push(index)
            } else {
                old(self).picks()
            },
    {
        if index >= self.taken.len() || self.taken[index] {
            return false;
        }
        proof {
            lemma_unpicked_after_push(self.picks@, index, self.taken@.len());
        }
        self.mark(index);
        true
    }

    /// Takes the free index that has `rank` free indices below it.
    pub fn take_free(&mut self, rank: usize) -> (index: usize)
        requires
            old(self).wf(),
            rank < old(self).pool_len() - old(self).picks().len(),
        ensures
            final(self).wf(),
            final(self).pool_len() == old(self).pool_len(),
            index < old(self).pool_len(),
            !old(self).picks().contains(index),
            unpicked_below(old(self).picks(), index as nat) == rank,
            final(self).picks() == old(self).picks().push(index),
    {
        let mut index: usize = 0;
        let mut below: usize = 0;
        while index < self.taken.len()
            invariant
                self.wf(),
                self.taken@ == old(self).taken@,
                self.picks@ == old(self).picks@,
                index <= self.taken@.len(),
                below == unpicked_below(self.picks@, index as nat),
                below <= rank,
                rank < self.taken@.len() - self.picks@.len(),
            decreases self.taken@.len() - index,
        {
            if !self.taken[index] {
                if below == rank {
                    proof {
                        lemma_unpicked_after_push(self.picks@, index, self.taken@.len());
                    }
                    self.mark(index);
                    return index;
                }
                below = below + 1;
            }
            index = index + 1;
        }
        proof {
            assert(false);
        }
        index
    }

    /// The indices chosen, in the order in which they were chosen.
    pub fn into_picks(self) -> (picks: Vec<usize>)
        ensures
            picks@ == self.picks(),
    {
        self.picks
    }

    /// Marks a free index as taken and puts it behind the picks.
    fn mark(&mut self, index: usize)
        requires
            old(self).wf(),
            index < old(self).taken@.len(),
            !old(self).taken@[index as int],
            unpicked_below(old(self).picks@.push(index), old(self).taken@.len()) + old(
                self,
            ).picks@.len() + 1 == old(self).taken@.len(),
        ensures
            final(self).wf(),
            final(self).taken@.len() == old(self).taken@.len(),
            final(self).picks@ == old(self).picks@.push(index),
    {
        let ghost before = self.picks@;
        self.taken.set(index, true);
        self.picks.push(index);
        proof {
            let after = self.picks@;
            assert(self.taken@.len() == self.taken.len());
            assert forall|k: int| 0 <= k < self.taken@.len() implies (#[trigger] self.taken@[k]
                <==> after.contains(k as usize)) by {
                lemma_contains_after_push(before, index, k as usize);
            }
            assert forall|i: int| 0 <= i < after.len() implies #[trigger] after[i]
                < self.taken@.len() by {
                if i < before.len() {
                    assert(after[i] == before[i]);
                }
            }
            assert(after.no_duplicates()) by {
                assert forall|i: int, j: int|
                    0 <= i < after.len() && 0 <= j < after.len() && i != j implies after[i]
                    != after[j] by {
                    if i < before.len() && j < before.len() {
                        assert(before[i] != before[j]);
                    } else if i < before.len() {
                        assert(before.contains(before[i]));
                    } else if j < before.len() {
                        assert(before.contains(before[j]));
                    }
                }
            }
        }
    }
}

/// Chooses the indices of `count` words out of a pool of `pool_len`.
pub fn rand_indices(pool_len: usize, count: u8) -> (picks: Vec<usize>)
    ensures
        is_selection(picks@, pool_len as nat, count as nat),
{
    if pool_len == 0 {
        return Vec::new();
    }
    if pool_len < count as usize {
        let mut picks: Vec<usize> = Vec::new();
        while picks.len() < count as usize
            invariant
                pool_len > 0,
                picks.len() <= count,
                forall|i: int| 0 <= i < picks.len() ==> picks[i] < pool_len,
            decreases count - picks.len(),
        {
            picks.push(uniform_index(pool_len));
        }
        return picks;
    }
    let mut picker = DistinctPicker::new(pool_len);
    while picker.len() < count as usize
        invariant
            picker.wf(),
            picker.pool_len() == pool_len,
            picker.picks().len() <= count <= pool_len,
        decreases count - picker.picks().len(),
    {
        let ghost chosen = picker.picks().len();
        let mut accepted = false;
        let mut redraws: usize = 0;
        while !accepted && redraws < REDRAW_LIMIT
            invariant
                picker.wf(),
                picker.pool_len() == pool_len,
                pool_len > 0,
                redraws <= REDRAW_LIMIT,
                chosen < count <= pool_len,
                picker.picks().len() == if accepted {
                    chosen + 1
                } else {
                    chosen
                },
            decreases REDRAW_LIMIT - redraws,
        {
            accepted = picker.offer(uniform_index(pool_len));
            redraws = redraws + 1;
        }
        if !accepted {
            let rank = uniform_index(picker.remaining());
            picker.take_free(rank);
        }
    }
    proof {
        picker.lemma_picks();
    }
    picker.into_picks()
}

} // verus!
