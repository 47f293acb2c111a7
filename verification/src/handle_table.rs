//! The table that maps externally visible integer handles to internal slot
//! indices.
//!
//! Handles are minted monotonically and a removed handle value is never
//! reissued, so a lookup of a handle after its removal always fails instead
//! of silently resolving against a reused slot.

use vstd::prelude::*;
use crate::BridgeError;

verus! {

/// Counts how many live table entries point at the slot `c`.
pub open spec fn count_slot(s: Seq<Option<u32>>, c: u32) -> nat
    decreases s.len(),
{
    if s.len() == 0 {
        0
    } else {
        count_slot(s.drop_last(), c) + if s.last() == Some(c) {
            1nat
        } else {
            0nat
        }
    }
}

proof fn lemma_count_push(s: Seq<Option<u32>>, x: Option<u32>, c: u32)
    ensures
        count_slot(s.push(x), c) == count_slot(s, c) + if x == Some(c) {
            1int
        } else {
            0int
        },
{
    assert(s.push(x).drop_last() =~= s);
}

proof fn lemma_count_update(s: Seq<Option<u32>>, i: int, x: Option<u32>, c: u32)
    requires
        0 <= i < s.len(),
    ensures
        count_slot(s.update(i, x), c) == count_slot(s, c) - (if s[i] == Some(c) {
            1int
        } else {
            0int
        }) + (if x == Some(c) {
            1int
        } else {
            0int
        }),
    decreases s.len(),
{
    if i == s.len() - 1 {
        assert(s.update(i, x).drop_last() =~= s.drop_last());
    } else {
        assert(s.update(i, x).drop_last() =~= s.drop_last().update(i, x));
        assert(s.update(i, x).last() == s.last());
        lemma_count_update(s.drop_last(), i, x, c);
    }
}

proof fn lemma_count_at_least_one(s: Seq<Option<u32>>, i: int, c: u32)
    requires
        0 <= i < s.len(),
        s[i] == Some(c),
    ensures
        count_slot(s, c) >= 1,
    decreases s.len(),
{
    if i < s.len() - 1 {
        lemma_count_at_least_one(s.drop_last(), i, c);
    }
}

/// Maps a small externally visible integer (a handle) to an internal slot
/// index of a resource slab.
///
/// A handle is a weak, non-owning view of a slot: holding one does not by
/// itself keep the slot alive.  The table only records which handles are
/// currently live and where they point.
pub struct HandleTable {
    entries: Vec<Option<u32>>,
}

impl View for HandleTable {
    type V = Map<u32, u32>;

    /// The live handles, each with the slot index it maps to.
    closed spec fn view(&self) -> Map<u32, u32> {
        Map::new(
            |h: u32| (h as int) < self.entries@.len() && self.entries@[h as int] is Some,
            |h: u32| self.entries@[h as int]->Some_0,
        )
    }
}

impl HandleTable {
    /// How many handles have ever been minted; also the next handle value.
    pub closed spec fn minted(self) -> nat {
        self.entries@.len()
    }

    /// How many live handles currently map to the slot `c`.
    pub closed spec fn slot_refs(self, c: u32) -> nat {
        count_slot(self.entries@, c)
    }

    pub closed spec fn wf(self) -> bool {
        self.entries@.len() <= u32::MAX
    }

    pub fn new() -> (t: Self)
        ensures
            t.wf(),
            t@ == Map::<u32, u32>::empty(),
            t.minted() == 0,
            forall|c: u32| t.slot_refs(c) == 0,
    {
        let t = HandleTable { entries: Vec::new() };
        proof {
            assert(t@ =~= Map::<u32, u32>::empty());
        }
        t
    }

    /// Mints a fresh handle, never one used before, and maps it to `slot`.
    pub fn insert(&mut self, slot: u32) -> (h: u32)
        requires
            old(self).wf(),
            old(self).minted() < u32::MAX,
        ensures
            final(self).wf(),
            h == old(self).minted(),
            !old(self)@.contains_key(h),
            final(self)@ == old(self)@.insert(h, slot),
            final(self).minted() == old(self).minted() + 1,
            final(self).slot_refs(slot) == old(self).slot_refs(slot) + 1,
            forall|c: u32| c != slot ==> final(self).slot_refs(c) == old(self).slot_refs(c),
    {
        let h = self.entries.len() as u32;
        proof {
            assert forall|c: u32|
                count_slot(self.entries@.push(Some(slot)), c) == count_slot(self.entries@, c)
                    + if c == slot {
                    1int
                } else {
                    0int
                } by {
                lemma_count_push(self.entries@, Some(slot), c);
            }
        }
        self.entries.push(Some(slot));
        proof {
            assert(self@ =~= old(self)@.insert(h, slot));
        }
        h
    }

    /// Resolves a handle to its slot index; fails if the handle was never
    /// issued or has since been removed.
    pub fn get(&self, h: u32) -> (r: Result<u32, BridgeError>)
        ensures
            match r {
                Ok(s) => self@.contains_key(h) && self@[h] == s,
                Err(e) => e == BridgeError::InvalidHandle && !self@.contains_key(h),
            },
    {
        if (h as usize) < self.entries.len() {
            match self.entries[h as usize] {
                Some(s) => Ok(s),
                None => Err(BridgeError::InvalidHandle),
            }
        } else {
            Err(BridgeError::InvalidHandle)
        }
    }

    /// A live handle accounts for at least one reference to its slot.
    pub proof fn lemma_live_handle_counts(self, h: u32)
        requires
            self@.contains_key(h),
        ensures
            self.slot_refs(self@[h]) >= 1,
    {
        lemma_count_at_least_one(self.entries@, h as int, self@[h]);
    }

    /// Unmaps a handle and hands the slot index back so the caller can
    /// release its share of the slot; fails if the handle is not live.
    pub fn remove(&mut self, h: u32) -> (r: Result<u32, BridgeError>)
        requires
            old(self).wf(),
        ensures
            final(self).wf(),
            final(self).minted() == old(self).minted(),
            match r {
                Ok(s) => {
                    &&& old(self)@.contains_key(h)
                    &&& old(self)@[h] == s
                    &&& final(self)@ == old(self)@.remove(h)
                    &&& old(self).slot_refs(s) >= 1
                    &&& final(self).slot_refs(s) == old(self).slot_refs(s) - 1
                    &&& forall|c: u32| c != s ==> final(self).slot_refs(c) == old(self).slot_refs(c)
                },
                Err(e) => {
                    &&& e == BridgeError::InvalidHandle
                    &&& !old(self)@.contains_key(h)
                    &&& *final(self) == *old(self)
                },
            },
    {
        if (h as usize) < self.entries.len() {
            match self.entries[h as usize] {
                Some(s) => {
                    proof {
                        lemma_count_at_least_one(self.entries@, h as int, s);
                        assert forall|c: u32|
                            count_slot(self.entries@.update(h as int, None), c) == count_slot(
                                self.entries@,
                                c,
                            ) - if c == s {
                                1int
                            } else {
                                0int
                            } by {
                            lemma_count_update(self.entries@, h as int, None, c);
                        }
                    }
                    self.entries[h as usize] = None;
                    proof {
                        assert(self@ =~= old(self)@.remove(h));
                    }
                    Ok(s)
                },
                None => Err(BridgeError::InvalidHandle),
            }
        } else {
            Err(BridgeError::InvalidHandle)
        }
    }

    /// Every live handle is a value the table has already minted.
    /// Together with `insert` minting exactly `minted()` — a value no
    /// earlier state could have held — this pins down that handle values
    /// are never reissued.
    pub proof fn lemma_live_below_minted(self, h: u32)
        requires
            self@.contains_key(h),
        ensures
            h < self.minted(),
    {
    }

    /// A handle that is dead stays dead: insertion only mints the
    /// next-never-used value, so minting a new handle — even one that maps
    /// to a reused slot — can never bring a removed handle back to life.
    /// A lookup of the removed handle keeps failing instead of resolving
    /// against the reused slot.
    pub proof fn lemma_dead_handle_stays_dead(m: Map<u32, u32>, next: nat, h: u32, slot: u32)
        requires
            !m.contains_key(h),
            h < next,
            next <= u32::MAX,
        ensures
            !m.insert(next as u32, slot).contains_key(h),
    {
    }
}

} // verus!
