//! Refcounted storage of opaque resource values.
//!
//! Each slot owns one resource value together with a reference count.  The
//! count starts at one, `clone` raises it, and `drop` lowers it; the value
//! is handed back for finalization exactly when the count falls from one to
//! zero, and only then is the slot freed for reuse.

use vstd::prelude::*;
use crate::BridgeError;

verus! {

struct SlotEntry<T> {
    value: T,
    refs: u32,
}

/// An arena of refcounted slots, addressed by a small internal index.
///
/// Slot indices may be reused once a slot has been freed; the handle table
/// in front of the slab is what protects callers from stale indices.
pub struct ResourceSlab<T> {
    slots: Vec<Option<SlotEntry<T>>>,
}

impl<T> View for ResourceSlab<T> {
    type V = Map<u32, (T, u32)>;

    /// The live slots: each maps its index to the stored value and the
    /// current reference count.
    closed spec fn view(&self) -> Map<u32, (T, u32)> {
        Map::new(
            |i: u32| (i as int) < self.slots@.len() && self.slots@[i as int] is Some,
            |i: u32| (self.slots@[i as int]->Some_0.value, self.slots@[i as int]->Some_0.refs),
        )
    }
}

impl<T> ResourceSlab<T> {
    /// How many slots the slab has ever laid out, vacant ones included.
    pub closed spec fn total(self) -> nat {
        self.slots@.len()
    }

    pub closed spec fn wf(self) -> bool {
        &&& self.slots@.len() <= u32::MAX
        &&& forall|i: u32| #[trigger] self@.contains_key(i) ==> self@[i].1 >= 1
    }

    pub fn new() -> (s: Self)
        ensures
            s.wf(),
            s@ == Map::<u32, (T, u32)>::empty(),
            s.total() == 0,
    {
        let s = ResourceSlab { slots: Vec::new() };
        proof {
            assert(s@ =~= Map::<u32, (T, u32)>::empty());
        }
        s
    }

    /// Stores a value in a fresh or reused slot with a reference count of
    /// one, and returns the slot's index.
    pub fn insert(&mut self, value: T) -> (i: u32)
        requires
            old(self).wf(),
            old(self).total() < u32::MAX,
        ensures
            final(self).wf(),
            !old(self)@.contains_key(i),
            final(self)@ == old(self)@.insert(i, (value, 1u32)),
            old(self).total() <= final(self).total() <= old(self).total() + 1,
    {
        let n = self.slots.len();
        let mut k: usize = 0;
        while k < n && self.slots[k].is_some()
            invariant
                k <= n,
                n == self.slots@.len(),
                forall|j: int| 0 <= j < k ==> self.slots@[j] is Some,
            decreases n - k,
        {
            k += 1;
        }
        if k < n {
            self.slots[k] = Some(SlotEntry { value, refs: 1 });
            proof {
                assert(self@ =~= old(self)@.insert(k as u32, (self.slots@[k as int]->Some_0.value, 1u32)));
            }
            k as u32
        } else {
            self.slots.push(Some(SlotEntry { value, refs: 1 }));
            proof {
                assert(self@ =~= old(self)@.insert(n as u32, (self.slots@[n as int]->Some_0.value, 1u32)));
            }
            n as u32
        }
    }

    /// Raises the reference count of a live slot by one.
    pub fn clone_ref(&mut self, i: u32) -> (r: Result<(), BridgeError>)
        requires
            old(self).wf(),
        ensures
            final(self).wf(),
            final(self).total() == old(self).total(),
            match r {
                Ok(()) => {
                    &&& old(self)@.contains_key(i)
                    &&& old(self)@[i].1 < u32::MAX
                    &&& final(self)@ == old(self)@.insert(
                        i,
                        (old(self)@[i].0, (old(self)@[i].1 + 1) as u32),
                    )
                },
                Err(e) => {
                    &&& e == BridgeError::InvalidSlot
                    &&& !old(self)@.contains_key(i) || old(self)@[i].1 == u32::MAX
                    &&& *final(self) == *old(self)
                },
            },
    {
        if (i as usize) < self.slots.len() {
            let mut live = false;
            let mut refs: u32 = 0;
            match &self.slots[i as usize] {
                Some(e) => {
                    live = true;
                    refs = e.refs;
                },
                None => {},
            }
            if live && refs < u32::MAX {
                let new_refs = refs + 1;
                match &mut self.slots[i as usize] {
                    Some(e) => {
                        e.refs = new_refs;
                    },
                    None => {},
                }
                proof {
                    assert(self@ =~= old(self)@.insert(
                        i,
                        (old(self)@[i].0, (old(self)@[i].1 + 1) as u32),
                    ));
                }
                Ok(())
            } else {
                Err(BridgeError::InvalidSlot)
            }
        } else {
            Err(BridgeError::InvalidSlot)
        }
    }

    /// Reads the value of a live slot without touching its count.
    pub fn get(&self, i: u32) -> (r: Result<&T, BridgeError>)
        ensures
            match r {
                Ok(v) => self@.contains_key(i) && *v == self@[i].0,
                Err(e) => e == BridgeError::InvalidSlot && !self@.contains_key(i),
            },
    {
        if (i as usize) < self.slots.len() {
            match &self.slots[i as usize] {
                Some(e) => Ok(&e.value),
                None => Err(BridgeError::InvalidSlot),
            }
        } else {
            Err(BridgeError::InvalidSlot)
        }
    }

    /// Lowers the reference count of a live slot by one.  When the count
    /// falls from one to zero the slot is freed and its value is returned so
    /// the caller can run a finalizer on it; otherwise nothing is returned
    /// and the slot stays alive.
    pub fn drop_ref(&mut self, i: u32) -> (r: Result<Option<T>, BridgeError>)
        requires
            old(self).wf(),
        ensures
            final(self).wf(),
            final(self).total() == old(self).total(),
            match r {
                Ok(opt) => {
                    &&& old(self)@.contains_key(i)
                    &&& match opt {
                        Some(v) => {
                            &&& old(self)@[i].1 == 1
                            &&& v == old(self)@[i].0
                            &&& final(self)@ == old(self)@.remove(i)
                        },
                        None => {
                            &&& old(self)@[i].1 > 1
                            &&& final(self)@ == old(self)@.insert(
                                i,
                                (old(self)@[i].0, (old(self)@[i].1 - 1) as u32),
                            )
                        },
                    }
                },
                Err(e) => {
                    &&& e == BridgeError::InvalidSlot
                    &&& !old(self)@.contains_key(i)
                    &&& *final(self) == *old(self)
                },
            },
    {
        if (i as usize) < self.slots.len() {
            let mut live = false;
            let mut refs: u32 = 0;
            match &self.slots[i as usize] {
                Some(e) => {
                    live = true;
                    refs = e.refs;
                },
                None => {},
            }
            if !live {
                return Err(BridgeError::InvalidSlot);
            }
            proof {
                assert(self@.contains_key(i));
            }
            if refs == 1 {
                let mut taken: Option<SlotEntry<T>> = None;
                core::mem::swap(&mut taken, &mut self.slots[i as usize]);
                proof {
                    assert(self@ =~= old(self)@.remove(i));
                }
                match taken {
                    Some(e) => Ok(Some(e.value)),
                    None => Err(BridgeError::InvalidSlot),
                }
            } else {
                let new_refs = refs - 1;
                match &mut self.slots[i as usize] {
                    Some(e) => {
                        e.refs = new_refs;
                    },
                    None => {},
                }
                proof {
                    assert(self@ =~= old(self)@.insert(
                        i,
                        (old(self)@[i].0, (old(self)@[i].1 - 1) as u32),
                    ));
                }
                Ok(None)
            }
        } else {
            Err(BridgeError::InvalidSlot)
        }
    }

    /// Raising and then lowering the reference count of a live slot — a
    /// `clone_ref` followed by a `drop_ref`, in the shapes those contracts
    /// give the slab — finalizes nothing and restores the slab exactly: the
    /// count after the clone is above one, so the later drop returns no
    /// value, and the resource stays alive until every outstanding share
    /// has been dropped.
    /// The reference count after a sequence of operations on one slot,
    /// starting from `start`: `true` is a clone (the count rises by one),
    /// `false` is a drop (it falls by one), exactly as the contracts of
    /// `clone_ref` and `drop_ref` move it.
    pub open spec fn refs_after(start: int, ops: Seq<bool>) -> int
        decreases ops.len(),
    {
        if ops.len() == 0 {
            start
        } else {
            Self::refs_after(start, ops.drop_last()) + if ops.last() {
                1int
            } else {
                -1int
            }
        }
    }

    /// For every sequence of clones and drops on a slot that starts with
    /// one reference, finds the slot alive at each step, and ends with the
    /// slot freed: the freeing operation is a drop, it is the one that
    /// moves the count from one to zero, and the count was never zero
    /// before it — the resource is finalized exactly once, and only after
    /// every outstanding clone has been dropped.
    pub proof fn lemma_finalized_exactly_once(ops: Seq<bool>)
        requires
            forall|k: int| 0 <= k < ops.len() ==> #[trigger] Self::refs_after(1, ops.take(k)) >= 1,
            Self::refs_after(1, ops) == 0,
        ensures
            ops.len() > 0,
            ops.last() == false,
            Self::refs_after(1, ops.take(ops.len() - 1)) == 1,
            forall|k: int| 0 <= k < ops.len() ==> #[trigger] Self::refs_after(1, ops.take(k)) != 0,
    {
        assert(ops.take(0) =~= Seq::<bool>::empty());
        assert(ops.len() > 0);
        assert(ops.take(ops.len() as int) =~= ops);
        assert(ops.take(ops.len() - 1) =~= ops.drop_last());
        assert(Self::refs_after(1, ops.take(ops.len() - 1)) >= 1);
        assert(Self::refs_after(1, ops) == Self::refs_after(1, ops.drop_last()) + if ops.last() {
            1int
        } else {
            -1int
        });
    }

    pub proof fn lemma_clone_then_drop_restores(m: Map<u32, (T, u32)>, i: u32)
        requires
            m.contains_key(i),
            m[i].1 >= 1,
            m[i].1 < u32::MAX,
        ensures
            ({
                let cloned = m.insert(i, (m[i].0, (m[i].1 + 1) as u32));
                &&& cloned[i].1 > 1
                &&& cloned.insert(i, (cloned[i].0, (cloned[i].1 - 1) as u32)) == m
            }),
    {
        let cloned = m.insert(i, (m[i].0, (m[i].1 + 1) as u32));
        assert(cloned.insert(i, (cloned[i].0, (cloned[i].1 - 1) as u32)) =~= m);
    }
}

} // verus!
