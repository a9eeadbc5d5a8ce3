//! A self-initializing vector: it can be created in constant time, supports
//! constant-time (amortized) read and write at arbitrary indices, and
//! occupies space proportional to the number of distinct indices actually
//! written, not to the largest index used.
//!
//! Three substructures cooperate. An *index table* (`indices`) maps a logical
//! index to a candidate slot in the *value store* (`values`); its entries are
//! meaningless until validated. An *ownership table* (`value_indices`) runs
//! parallel to the value store and records, for each slot, the logical index
//! that owns it; it is the sole means of validating an index-table entry.
//! An entry `indices[i]` is trustworthy iff it lies below the value store's
//! length and `value_indices[indices[i]] == i`; anything else is treated as
//! uninitialized.

use vstd::prelude::*;

verus! {

/// The ways a container operation can fail.
#[derive(Clone, Copy, Debug, PartialEq, Eq, Structural)]
pub enum LazyVecError {
    /// A read asked for an index at or beyond the notional length.
    OutOfRange,
    /// A read asked for an index below the notional length whose own slot
    /// was never written; it was only skipped over by a larger write.
    UninitializedSlot,
    /// A write asked for an index whose index table would have to grow
    /// beyond the representable size.
    CapacityOverflow,
}

/// A self-initializing vector over copyable elements.
pub struct LazyVec<T> {
    /// Notional length: one past the highest index ever written, 0 if none.
    size: usize,
    /// Value store: append-only stack of the values actually written.
    values: Vec<T>,
    /// Ownership table, parallel to `values`: `value_indices[s]` is the
    /// logical index that owns slot `s`.
    value_indices: Vec<usize>,
    /// Index table: `indices[i]` is a candidate slot for logical index `i`,
    /// garbage until validated against the ownership table.
    indices: Vec<usize>,
}

impl<T> LazyVec<T> {
    /// Well-formedness: the two stacks run in parallel, the index table
    /// covers the notional length, and every slot is reachable from the
    /// index-table entry of the index that owns it.
    pub closed spec fn wf(self) -> bool {
        &&& self.values@.len() == self.value_indices@.len()
        &&& self.size <= self.indices@.len()
        &&& forall|s: int|
            0 <= s < self.value_indices@.len() ==> {
                &&& (#[trigger] self.value_indices@[s]) < self.size
                &&& self.value_indices@[s] < self.indices@.len()
                &&& self.indices@[self.value_indices@[s] as int] == s
            }
    }

    /// A logical index holds a value iff its index-table entry names a slot
    /// below the value store's length and the ownership table confirms it.
    spec fn valid_index(self, i: int) -> bool {
        &&& 0 <= i < self.size
        &&& i < self.indices@.len()
        &&& self.indices@[i] < self.values@.len()
        &&& self.value_indices@[self.indices@[i] as int] == i
    }

    /// The notional length: one past the highest index ever written.
    pub closed spec fn spec_len(self) -> nat {
        self.size as nat
    }

    /// The index table's current extent.
    pub closed spec fn spec_cap(self) -> nat {
        self.indices@.len()
    }

    /// How many value-store slots are occupied: one per distinct index
    /// ever written.
    pub closed spec fn spec_slot_count(self) -> nat {
        self.values@.len()
    }

    /// What a read of index `i` must return.
    pub open spec fn read_result(self, i: int) -> Result<T, LazyVecError> {
        if i >= self.spec_len() {
            Err(LazyVecError::OutOfRange)
        } else if !self@.dom().contains(i) {
            Err(LazyVecError::UninitializedSlot)
        } else {
            Ok(self@[i])
        }
    }
}

impl<T> View for LazyVec<T> {
    type V = Map<int, T>;

    /// The container abstracts to the partial map from each written logical
    /// index to the value it currently holds.
    closed spec fn view(&self) -> Map<int, T> {
        Map::new(|i: int| self.valid_index(i), |i: int| self.values@[self.indices@[i] as int])
    }
}

impl<T: Copy> LazyVec<T> {
    /// Allocate a new empty `LazyVec`.
    pub fn new() -> (r: LazyVec<T>)
        ensures
            r.wf(),
            r@ == Map::<int, T>::empty(),
            r.spec_len() == 0,
            r.spec_cap() == 0,
            r.spec_slot_count() == 0,
    {
        let r = LazyVec { size: 0, values: Vec::new(), value_indices: Vec::new(), indices: Vec::new() };
        proof {
            assert(r@ =~= Map::<int, T>::empty());
        }
        r
    }

    /// Allocate a new empty `LazyVec` whose index table already covers the
    /// first `cap` indices. Pre-grown capacity implies nothing about
    /// initialization: every index is still unwritten.
    pub fn with_capacity(cap: usize) -> (r: LazyVec<T>)
        ensures
            r.wf(),
            r@ == Map::<int, T>::empty(),
            r.spec_len() == 0,
            r.spec_cap() == cap,
            r.spec_slot_count() == 0,
    {
        let mut indices: Vec<usize> = Vec::new();
        while indices.len() < cap
            invariant
                indices.len() <= cap,
            decreases cap - indices.len(),
        {
            indices.push(0);
        }
        let r = LazyVec { size: 0, values: Vec::new(), value_indices: Vec::new(), indices };
        proof {
            assert(r@ =~= Map::<int, T>::empty());
        }
        r
    }

    /// Grow the index table so it covers index `i`, at least doubling so
    /// that growth cost stays amortized constant per write. New entries are
    /// filler: nothing validates them, so their content never matters.
    fn grow(&mut self, i: usize)
        requires
            old(self).wf(),
            i < usize::MAX,
        ensures
            final(self).wf(),
            final(self).size == old(self).size,
            final(self).values == old(self).values,
            final(self).value_indices == old(self).value_indices,
            i < final(self).indices@.len(),
            final(self).indices@.len() >= old(self).indices@.len(),
            forall|k: int|
                0 <= k < old(self).indices@.len() ==> final(self).indices@[k] == old(
                    self,
                ).indices@[k],
            final(self)@ == old(self)@,
    {
        if i >= self.indices.len() {
            let n = self.indices.len();
            let doubled = if n > usize::MAX / 2 {
                usize::MAX
            } else {
                n * 2
            };
            let target = if i + 1 > doubled {
                i + 1
            } else {
                doubled
            };
            while self.indices.len() < target
                invariant
                    old(self).wf(),
                    self.size == old(self).size,
                    self.values == old(self).values,
                    self.value_indices == old(self).value_indices,
                    old(self).indices@.len() <= self.indices@.len() <= target,
                    i < target <= usize::MAX,
                    forall|k: int|
                        0 <= k < old(self).indices@.len() ==> self.indices@[k] == old(
                            self,
                        ).indices@[k],
                decreases target - self.indices.len(),
            {
                self.indices.push(0);
            }
        }
        proof {
            assert forall|j: int| self.valid_index(j) == old(self).valid_index(j) by {
                if old(self).valid_index(j) || self.valid_index(j) {
                    assert(self.indices@[j] == old(self).indices@[j]);
                }
            }
            assert(self@ =~= old(self)@);
        }
    }

    /// Write `v` at logical index `i`, initializing the index's slot on its
    /// first write and overwriting that same slot in place on every later
    /// one. The notional length becomes the larger of its old value and
    /// `i + 1`; the index table only ever grows; a slot is consumed only on
    /// an index's first write.
    pub fn write(&mut self, i: usize, v: T)
        requires
            old(self).wf(),
            i < usize::MAX,
        ensures
            final(self).wf(),
            final(self)@ == old(self)@.insert(i as int, v),
            final(self).read_result(i as int) == Ok::<T, LazyVecError>(v),
            final(self).spec_len() == if i + 1 > old(self).spec_len() {
                (i + 1) as nat
            } else {
                old(self).spec_len()
            },
            final(self).spec_cap() >= old(self).spec_cap(),
            old(self)@.dom().contains(i as int) ==> final(self).spec_slot_count() == old(
                self,
            ).spec_slot_count(),
            !old(self)@.dom().contains(i as int) ==> final(self).spec_slot_count() == old(
                self,
            ).spec_slot_count() + 1,
    {
        self.grow(i);
        let ghost pre = *self;
        let candidate = self.indices[i];
        let nstacked = self.values.len();
        if candidate >= nstacked || self.value_indices[candidate] != i {
            // First write to index i: push the value, record i as the new
            // slot's owner, and point the index table at it.
            proof {
                assert forall|s: int| 0 <= s < pre.value_indices@.len() implies pre.value_indices@[s]
                    != i by {
                    if pre.value_indices@[s] == i {
                        assert(pre.indices@[i as int] == s);
                    }
                }
                assert(!pre.valid_index(i as int));
            }
            self.values.push(v);
            self.value_indices.push(i);
            self.indices[i] = nstacked;
            if i + 1 > self.size {
                self.size = i + 1;
            }
            proof {
                assert forall|j: int| j != i ==> #[trigger] self.valid_index(j) == pre.valid_index(
                    j,
                ) by {
                    if j != i && self.valid_index(j) {
                        assert(self.indices@[j] == pre.indices@[j]);
                        assert(self.indices@[j] != nstacked);
                        assert(pre.value_indices@[self.indices@[j] as int] == j);
                    }
                }
                assert(self.valid_index(i as int));
                assert(self@ =~= pre@.insert(i as int, v));
            }
        } else {
            // Index i already owns slot `candidate`: overwrite in place.
            proof {
                assert(pre.value_indices@[candidate as int] == i);
                assert(pre.valid_index(i as int));
            }
            self.values[candidate] = v;
            proof {
                assert forall|j: int|
                    j != i && self.valid_index(j) implies self.indices@[j]
                    != candidate by {
                    assert(self.value_indices@[self.indices@[j] as int] == j);
                }
                assert(self@ =~= pre@.insert(i as int, v));
            }
        }
    }

    /// Number of indices the index table currently covers, written or not.
    pub fn cap(&self) -> (r: usize)
        ensures
            r == self.spec_cap(),
    {
        self.indices.len()
    }

    /// Number of elements notionally stored, uninitialized ones included.
    pub fn len(&self) -> (r: usize)
        ensures
            r == self.spec_len(),
    {
        self.size
    }

    /// Number of value-store slots occupied: one per distinct index ever
    /// written, however large those indices are.
    pub fn slot_count(&self) -> (r: usize)
        ensures
            r == self.spec_slot_count(),
    {
        self.values.len()
    }

    /// Write `v` at logical index `i`, like [`Self::write`], but report the
    /// one index whose index table cannot grow far enough instead of
    /// demanding that callers avoid it.
    pub fn try_write(&mut self, i: usize, v: T) -> (r: Result<(), LazyVecError>)
        requires
            old(self).wf(),
        ensures
            final(self).wf(),
            i < usize::MAX ==> {
                &&& r == Ok::<(), LazyVecError>(())
                &&& final(self)@ == old(self)@.insert(i as int, v)
                &&& final(self).read_result(i as int) == Ok::<T, LazyVecError>(v)
                &&& final(self).spec_len() == if i + 1 > old(self).spec_len() {
                    (i + 1) as nat
                } else {
                    old(self).spec_len()
                }
                &&& final(self).spec_cap() >= old(self).spec_cap()
                &&& old(self)@.dom().contains(i as int) ==> final(self).spec_slot_count() == old(
                    self,
                ).spec_slot_count()
                &&& !old(self)@.dom().contains(i as int) ==> final(self).spec_slot_count() == old(
                    self,
                ).spec_slot_count() + 1
            },
            i == usize::MAX ==> r == Err::<(), LazyVecError>(LazyVecError::CapacityOverflow)
                && *final(self) == *old(self),
    {
        if i == usize::MAX {
            Err(LazyVecError::CapacityOverflow)
        } else {
            self.write(i, v);
            Ok(())
        }
    }

    /// Read the value at logical index `i`. Fails with `OutOfRange` for an
    /// index at or beyond the notional length, with `UninitializedSlot` for
    /// one below it that was never itself written.
    pub fn read(&self, i: usize) -> (r: Result<T, LazyVecError>)
        requires
            self.wf(),
        ensures
            r == self.read_result(i as int),
    {
        if i >= self.size {
            return Err(LazyVecError::OutOfRange);
        }
        let candidate = self.indices[i];
        if candidate >= self.values.len() || self.value_indices[candidate] != i {
            proof {
                assert(!self.valid_index(i as int));
                assert(!self@.dom().contains(i as int));
            }
            Err(LazyVecError::UninitializedSlot)
        } else {
            proof {
                assert(self.valid_index(i as int));
            }
            Ok(self.values[candidate])
        }
    }

    /// Borrow the value at logical index `i`, which the caller must know to
    /// have been written; [`Self::read`] is the checked form.
    pub fn value_ref(&self, i: usize) -> (r: &T)
        requires
            self.wf(),
            self@.dom().contains(i as int),
        ensures
            *r == self@[i as int],
    {
        proof {
            assert(self.valid_index(i as int));
        }
        let candidate = self.indices[i];
        &self.values[candidate]
    }
}

impl<T> LazyVec<T> {
    /// The index table always covers the notional length: capacity never
    /// falls below the number of elements notionally stored.
    pub proof fn lemma_cap_bounds_len(self)
        requires
            self.wf(),
        ensures
            self.spec_cap() >= self.spec_len(),
    {
    }

    /// Only indices below the notional length can hold a value; everything
    /// at or beyond it is unwritten.
    pub proof fn lemma_written_below_len(self)
        requires
            self.wf(),
        ensures
            forall|k: int| self@.dom().contains(k) ==> 0 <= k < self.spec_len(),
    {
        assert forall|k: int| self@.dom().contains(k) implies 0 <= k < self.spec_len() by {
            assert(self.valid_index(k));
        }
    }
}

} // verus!
