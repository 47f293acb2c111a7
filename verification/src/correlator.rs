//! Correlation of initiated requests with their later responses.
//!
//! An invocation id is assigned by the initiating side when a request is
//! issued, and the request is remembered as pending.  The matching response
//! or error arrives through a separate, later call carrying the same id;
//! delivering it settles the invocation, which is then forgotten, so each
//! invocation receives at most one completion.  Ids grow monotonically for
//! the lifetime of the correlator and are never reused, so a completed id
//! can never be correlated with a later, unrelated request.

use vstd::prelude::*;

verus! {

struct PendingEntry {
    id: u32,
    operation: Vec<u8>,
    payload: Vec<u8>,
}

/// How a settled invocation ended: with a response and a status code chosen
/// by the callee, or with an error payload.  Terminal either way.
pub enum Outcome {
    Responded { code: u32, payload: Vec<u8> },
    Errored { payload: Vec<u8> },
}

/// A settled invocation, handed back to the caller exactly once: the
/// remembered request together with its outcome.
pub struct Completion {
    pub id: u32,
    pub operation: Vec<u8>,
    pub request_payload: Vec<u8>,
    pub outcome: Outcome,
}

/// The pending invocations of `s`: each id with its remembered operation
/// and request payload.
spec fn as_map(s: Seq<PendingEntry>) -> Map<u32, (Seq<u8>, Seq<u8>)>
    decreases s.len(),
{
    if s.len() == 0 {
        Map::empty()
    } else {
        as_map(s.drop_last()).insert(s.last().id, (s.last().operation@, s.last().payload@))
    }
}

spec fn distinct_ids(s: Seq<PendingEntry>) -> bool {
    forall|k1: int, k2: int| 0 <= k1 < k2 < s.len() ==> s[k1].id != s[k2].id
}

proof fn lemma_as_map_absent(s: Seq<PendingEntry>, id: u32)
    requires
        forall|k: int| 0 <= k < s.len() ==> s[k].id != id,
    ensures
        !as_map(s).contains_key(id),
    decreases s.len(),
{
    if s.len() > 0 {
        lemma_as_map_absent(s.drop_last(), id);
    }
}

proof fn lemma_as_map_lookup(s: Seq<PendingEntry>, k: int)
    requires
        distinct_ids(s),
        0 <= k < s.len(),
    ensures
        as_map(s).contains_key(s[k].id),
        as_map(s)[s[k].id] == (s[k].operation@, s[k].payload@),
    decreases s.len(),
{
    if k < s.len() - 1 {
        lemma_as_map_lookup(s.drop_last(), k);
    }
}

proof fn lemma_as_map_remove(s: Seq<PendingEntry>, k: int)
    requires
        distinct_ids(s),
        0 <= k < s.len(),
    ensures
        as_map(s.remove(k)) == as_map(s).remove(s[k].id),
    decreases s.len(),
{
    if k == s.len() - 1 {
        assert(s.remove(k) =~= s.drop_last());
        lemma_as_map_absent(s.drop_last(), s[k].id);
        assert(as_map(s.drop_last()) =~= as_map(s).remove(s[k].id));
    } else {
        assert(s.remove(k).drop_last() =~= s.drop_last().remove(k));
        assert(s.remove(k).last() == s.last());
        lemma_as_map_remove(s.drop_last(), k);
        assert(as_map(s.remove(k)) =~= as_map(s).remove(s[k].id));
    }
}

/// Assigns invocation ids and matches each later response or error to the
/// request it settles.
///
/// The view maps each pending id to the operation and payload remembered
/// for it when the request was issued.
pub struct Correlator {
    next: u32,
    pending: Vec<PendingEntry>,
}

impl View for Correlator {
    type V = Map<u32, (Seq<u8>, Seq<u8>)>;

    closed spec fn view(&self) -> Map<u32, (Seq<u8>, Seq<u8>)> {
        as_map(self.pending@)
    }
}

impl Correlator {
    /// The id the next issued request will receive; ids below it that are
    /// no longer pending are spent and never handed out again.
    pub closed spec fn next_id(self) -> u32 {
        self.next
    }

    pub closed spec fn wf(self) -> bool {
        &&& distinct_ids(self.pending@)
        &&& forall|k: int| 0 <= k < self.pending@.len() ==> (#[trigger] self.pending@[k]).id
            < self.next
    }

    pub fn new() -> (c: Self)
        ensures
            c.wf(),
            c@ == Map::<u32, (Seq<u8>, Seq<u8>)>::empty(),
            c.next_id() == 0,
    {
        Correlator { next: 0, pending: Vec::new() }
    }

    /// Issues a fresh invocation id, never one used before, and remembers
    /// the request under it as pending.
    pub fn begin(&mut self, operation: Vec<u8>, payload: Vec<u8>) -> (id: u32)
        requires
            old(self).wf(),
            old(self).next_id() < u32::MAX,
        ensures
            final(self).wf(),
            id == old(self).next_id(),
            !old(self)@.contains_key(id),
            final(self)@ == old(self)@.insert(id, (operation@, payload@)),
            final(self).next_id() == old(self).next_id() + 1,
    {
        let id = self.next;
        proof {
            lemma_as_map_absent(self.pending@, id);
        }
        self.next = self.next + 1;
        self.pending.push(PendingEntry { id, operation, payload });
        proof {
            assert(self.pending@.drop_last() =~= old(self).pending@);
        }
        id
    }

    /// Removes the pending invocation `id` and hands back its remembered
    /// operation and payload, or nothing if `id` is not pending.
    fn take_pending(&mut self, id: u32) -> (r: Option<(Vec<u8>, Vec<u8>)>)
        requires
            old(self).wf(),
        ensures
            final(self).wf(),
            final(self).next_id() == old(self).next_id(),
            match r {
                Some(entry) => {
                    &&& old(self)@.contains_key(id)
                    &&& (entry.0@, entry.1@) == old(self)@[id]
                    &&& final(self)@ == old(self)@.remove(id)
                },
                None => {
                    &&& !old(self)@.contains_key(id)
                    &&& *final(self) == *old(self)
                },
            },
    {
        let n = self.pending.len();
        let mut k: usize = 0;
        while k < n && self.pending[k].id != id
            invariant
                k <= n,
                n == self.pending@.len(),
                forall|j: int| 0 <= j < k ==> self.pending@[j].id != id,
            decreases n - k,
        {
            k += 1;
        }
        if k < n {
            proof {
                lemma_as_map_lookup(self.pending@, k as int);
                lemma_as_map_remove(self.pending@, k as int);
            }
            let e = self.pending.remove(k);
            Some((e.operation, e.payload))
        } else {
            proof {
                lemma_as_map_absent(self.pending@, id);
            }
            None
        }
    }

    /// Settles the pending invocation `id` with a response carrying a
    /// callee-chosen status code; the invocation is forgotten and cannot be
    /// delivered a second time.  Returns nothing if `id` is not pending.
    pub fn complete(&mut self, id: u32, code: u32, payload: Vec<u8>) -> (r: Option<Completion>)
        requires
            old(self).wf(),
        ensures
            final(self).wf(),
            final(self).next_id() == old(self).next_id(),
            match r {
                Some(c) => {
                    &&& old(self)@.contains_key(id)
                    &&& c.id == id
                    &&& (c.operation@, c.request_payload@) == old(self)@[id]
                    &&& c.outcome == (Outcome::Responded { code, payload })
                    &&& final(self)@ == old(self)@.remove(id)
                },
                None => {
                    &&& !old(self)@.contains_key(id)
                    &&& *final(self) == *old(self)
                },
            },
    {
        match self.take_pending(id) {
            Some(entry) => Some(
                Completion {
                    id,
                    operation: entry.0,
                    request_payload: entry.1,
                    outcome: Outcome::Responded { code, payload },
                },
            ),
            None => None,
        }
    }

    /// Settles the pending invocation `id` with an error payload; the
    /// invocation is forgotten and cannot be delivered a second time.
    /// Returns nothing if `id` is not pending.
    pub fn fail(&mut self, id: u32, payload: Vec<u8>) -> (r: Option<Completion>)
        requires
            old(self).wf(),
        ensures
            final(self).wf(),
            final(self).next_id() == old(self).next_id(),
            match r {
                Some(c) => {
                    &&& old(self)@.contains_key(id)
                    &&& c.id == id
                    &&& (c.operation@, c.request_payload@) == old(self)@[id]
                    &&& c.outcome == (Outcome::Errored { payload })
                    &&& final(self)@ == old(self)@.remove(id)
                },
                None => {
                    &&& !old(self)@.contains_key(id)
                    &&& *final(self) == *old(self)
                },
            },
    {
        match self.take_pending(id) {
            Some(entry) => Some(
                Completion {
                    id,
                    operation: entry.0,
                    request_payload: entry.1,
                    outcome: Outcome::Errored { payload },
                },
            ),
            None => None,
        }
    }

    /// Settling an invocation forgets it: after a delivery removes `id`
    /// from the pending map, `id` is no longer pending, so a second
    /// delivery for the same id matches nothing and the completion cannot
    /// be handed out twice.
    pub proof fn lemma_settled_not_pending(m: Map<u32, (Seq<u8>, Seq<u8>)>, id: u32)
        ensures
            !m.remove(id).contains_key(id),
    {
    }
}

} // verus!
