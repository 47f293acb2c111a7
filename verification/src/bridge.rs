//! The call bridge for one guest instance: both call directions on top of
//! the handle table, the resource slab, the marshaler and the correlator.
//!
//! Guest-facing entrypoints receive only integers — handles and
//! address/length pairs into the guest's linear memory — and every one of
//! them validates the handle and copies and checks the referenced bytes
//! before anything is interpreted.  Host-bound requests are dispatched to a
//! host-written implementation of [`WapcHost`]; guest-bound requests are
//! prepared into a [`GuestCall`] descriptor that the embedding hands to the
//! guest's exported entrypoint, and whose eventual response or error is
//! delivered back through the correlator.

use vstd::prelude::*;
use crate::BridgeError;
use crate::handle_table::HandleTable;
use crate::resource_slab::ResourceSlab;
use crate::memory::{GuestMemory, range_ok};
use crate::correlator::{Correlator, Completion, Outcome};
use crate::utf8::{is_utf8, utf8_decode, string_from_utf8};

verus! {

/// The host-side capabilities a guest may invoke.
///
/// The embedding implements this for its own state; the bridge validates
/// every argument before a method here is reached.  The status code
/// returned by `wapc_init_host_request` is chosen by the implementation
/// and is opaque to the bridge.
pub trait WapcHost {
    /// The resource value the bridge stores on the host's behalf.
    type Wapc;

    /// Handles a guest-initiated request against the bound capability.
    fn wapc_init_host_request(
        &mut self,
        self_: &Self::Wapc,
        binding: &str,
        namespace: &str,
        operation: &str,
        bytes: &[u8],
    ) -> u32;

    /// Receives the guest's response for the invocation `id`; the id is
    /// passed through unmodified.
    fn wapc_on_guest_response(&mut self, self_: &Self::Wapc, id: u32, bytes: &[u8]);

    /// Receives the guest's error for the invocation `id`; the id is
    /// passed through unmodified.
    fn wapc_on_guest_error(&mut self, self_: &Self::Wapc, id: u32, bytes: &[u8]);

    /// One-way diagnostic side channel; no correlation, no response.
    fn wapc_console_log(&mut self, self_: &Self::Wapc, message: &str);

    /// Invoked with a resource value once its last reference is dropped,
    /// so the host can dispose of it.
    fn drop_wapc(&mut self, state: Self::Wapc);
}

/// A guest-bound request, prepared and marshaled but not yet invoked: the
/// callee-side handle minted for the call, the guest-memory ranges now
/// holding the operation name and the payload, and the invocation id the
/// initiator must remember.
pub struct GuestCall {
    pub callee_handle: u32,
    pub operation_addr: u32,
    pub operation_len: u32,
    pub payload_addr: u32,
    pub payload_len: u32,
    pub id: u32,
}

/// A host-bound request copied out of guest memory and fully validated:
/// three well-formed UTF-8 strings and the raw payload bytes.
pub struct HostRequest {
    pub binding: String,
    pub namespace: String,
    pub operation: String,
    pub payload: Vec<u8>,
}

/// The outcome of validating one string range against a memory: out of
/// bounds, not UTF-8, or acceptable.
pub open spec fn string_range_error(mem: Seq<u8>, addr: u32, len: u32) -> Option<BridgeError> {
    if !range_ok(addr, len, mem.len()) {
        Some(BridgeError::OutOfBounds)
    } else if !is_utf8(mem.subrange(addr as int, addr + len)) {
        Some(BridgeError::InvalidUtf8)
    } else {
        None
    }
}

/// The first failure a host-bound request runs into, in validation order:
/// the handle, then the binding, namespace and operation strings, then the
/// payload range.  `None` means the request is acceptable.
pub open spec fn host_request_error(
    live: bool,
    mem: Seq<u8>,
    binding_addr: u32,
    binding_len: u32,
    namespace_addr: u32,
    namespace_len: u32,
    operation_addr: u32,
    operation_len: u32,
    payload_addr: u32,
    payload_len: u32,
) -> Option<BridgeError> {
    if !live {
        Some(BridgeError::InvalidHandle)
    } else if string_range_error(mem, binding_addr, binding_len) is Some {
        string_range_error(mem, binding_addr, binding_len)
    } else if string_range_error(mem, namespace_addr, namespace_len) is Some {
        string_range_error(mem, namespace_addr, namespace_len)
    } else if string_range_error(mem, operation_addr, operation_len) is Some {
        string_range_error(mem, operation_addr, operation_len)
    } else if !range_ok(payload_addr, payload_len, mem.len()) {
        Some(BridgeError::OutOfBounds)
    } else {
        None
    }
}

/// Copies a byte buffer; used to remember marshaled arguments.
fn copy_bytes(v: &Vec<u8>) -> (r: Vec<u8>)
    ensures
        r@ == v@,
{
    let mut out: Vec<u8> = Vec::new();
    let mut k: usize = 0;
    while k < v.len()
        invariant
            k <= v@.len(),
            out@.len() == k,
            forall|j: int| 0 <= j < k ==> out@[j] == v@[j],
        decreases v@.len() - k,
    {
        out.push(v[k]);
        k += 1;
    }
    proof {
        assert(out@ =~= v@);
    }
    out
}

/// The per-instance state of the bridge: the handle table and resource
/// slab for the resources this side exposes, and the correlator for the
/// requests this side has initiated.
///
/// The central safety invariant ties the two tables together: every slot
/// some live handle maps to is occupied, and its reference count is at
/// least the number of live handles mapping to it.  A reference count is
/// therefore never observed at zero while a live handle still reaches the
/// slot, and dropping the last handle is what frees the resource.
pub struct CallBridge<T> {
    handles: HandleTable,
    slab: ResourceSlab<T>,
    correlator: Correlator,
}

impl<T> CallBridge<T> {
    /// The live handles, each with the slot index it maps to.
    pub closed spec fn handle_map(self) -> Map<u32, u32> {
        self.handles@
    }

    /// The occupied slots: stored value and reference count.
    pub closed spec fn resources(self) -> Map<u32, (T, u32)> {
        self.slab@
    }

    /// The pending invocations this side has initiated.
    pub closed spec fn pending(self) -> Map<u32, (Seq<u8>, Seq<u8>)> {
        self.correlator@
    }

    /// The invocation id the next initiated request will receive.
    pub closed spec fn next_invocation(self) -> u32 {
        self.correlator.next_id()
    }

    /// How many handles have ever been minted; also the next handle value.
    pub closed spec fn minted(self) -> nat {
        self.handles.minted()
    }

    /// The handle is live: it was issued and has not been removed.
    pub open spec fn live(self, h: u32) -> bool {
        self.handle_map().contains_key(h)
    }

    /// The slot a live handle maps to.
    pub open spec fn slot_of(self, h: u32) -> u32
        recommends
            self.live(h),
    {
        self.handle_map()[h]
    }

    pub closed spec fn wf(self) -> bool {
        &&& self.handles.wf()
        &&& self.slab.wf()
        &&& self.correlator.wf()
        &&& forall|s: u32|
            #[trigger] self.handles.slot_refs(s) >= 1 ==> self.slab@.contains_key(s)
                && self.slab@[s].1 >= self.handles.slot_refs(s)
    }

    pub fn new() -> (b: Self)
        ensures
            b.wf(),
            b.handle_map() == Map::<u32, u32>::empty(),
            b.resources() == Map::<u32, (T, u32)>::empty(),
            b.pending() == Map::<u32, (Seq<u8>, Seq<u8>)>::empty(),
            b.next_invocation() == 0,
            b.minted() == 0,
            b.total_slots() == 0,
    {
        CallBridge {
            handles: HandleTable::new(),
            slab: ResourceSlab::new(),
            correlator: Correlator::new(),
        }
    }

    /// Stores a new resource value with a reference count of one and mints
    /// the first handle to it.
    pub fn resource_new(&mut self, value: T) -> (h: u32)
        requires
            old(self).wf(),
            old(self).minted() < u32::MAX,
            old(self).total_slots() < u32::MAX,
        ensures
            final(self).wf(),
            h == old(self).minted(),
            !old(self).live(h),
            final(self).minted() == old(self).minted() + 1,
            !old(self).resources().contains_key(final(self).slot_of(h)),
            final(self).handle_map() == old(self).handle_map().insert(h, final(self).slot_of(h)),
            final(self).resources() == old(self).resources().insert(
                final(self).slot_of(h),
                (value, 1u32),
            ),
            final(self).pending() == old(self).pending(),
            final(self).next_invocation() == old(self).next_invocation(),
            final(self).total_slots() <= old(self).total_slots() + 1,
    {
        let s = self.slab.insert(value);
        let h = self.handles.insert(s);
        h
    }

    /// How many slots the slab has ever laid out, vacant ones included.
    pub closed spec fn total_slots(self) -> nat {
        self.slab.total()
    }

    /// Reads the resource a live handle refers to, without touching its
    /// reference count.  Fails with `InvalidHandle` for a handle that was
    /// never issued or has been removed.
    pub fn resource_get(&self, h: u32) -> (r: Result<&T, BridgeError>)
        requires
            self.wf(),
        ensures
            match r {
                Ok(v) => self.live(h) && *v == self.resources()[self.slot_of(h)].0,
                Err(e) => e == BridgeError::InvalidHandle && !self.live(h),
            },
    {
        let s = match self.handles.get(h) {
            Ok(s) => s,
            Err(e) => {
                return Err(e);
            },
        };
        proof {
            self.handles.lemma_live_handle_counts(h);
        }
        match self.slab.get(s) {
            Ok(v) => Ok(v),
            Err(_) => Err(BridgeError::InvalidHandle),
        }
    }

    /// Mints a second, independent handle to the resource a live handle
    /// refers to, raising the reference count by one.  Fails with
    /// `InvalidHandle` for a dead handle, and with `InvalidSlot` in the
    /// degenerate case that the reference count cannot be raised further.
    pub fn resource_clone(&mut self, h: u32) -> (r: Result<u32, BridgeError>)
        requires
            old(self).wf(),
            old(self).minted() < u32::MAX,
        ensures
            final(self).wf(),
            final(self).pending() == old(self).pending(),
            final(self).next_invocation() == old(self).next_invocation(),
            final(self).total_slots() == old(self).total_slots(),
            match r {
                Ok(h2) => {
                    &&& old(self).live(h)
                    &&& h2 == old(self).minted()
                    &&& !old(self).live(h2)
                    &&& final(self).minted() == old(self).minted() + 1
                    &&& final(self).handle_map() == old(self).handle_map().insert(
                        h2,
                        old(self).slot_of(h),
                    )
                    &&& final(self).resources() == old(self).resources().insert(
                        old(self).slot_of(h),
                        (
                            old(self).resources()[old(self).slot_of(h)].0,
                            (old(self).resources()[old(self).slot_of(h)].1 + 1) as u32,
                        ),
                    )
                },
                Err(e) => {
                    &&& final(self).handle_map() == old(self).handle_map()
                    &&& final(self).resources() == old(self).resources()
                    &&& final(self).minted() == old(self).minted()
                    &&& (e == BridgeError::InvalidHandle && !old(self).live(h)) || (e
                        == BridgeError::InvalidSlot && old(self).live(h) && old(self).resources()[
                        old(self).slot_of(h)
                    ].1 == u32::MAX)
                },
            },
    {
        let s = match self.handles.get(h) {
            Ok(s) => s,
            Err(e) => {
                return Err(e);
            },
        };
        proof {
            self.handles.lemma_live_handle_counts(h);
        }
        match self.slab.clone_ref(s) {
            Ok(()) => {},
            Err(e) => {
                return Err(e);
            },
        }
        let h2 = self.handles.insert(s);
        Ok(h2)
    }

    /// Removes a live handle and gives up its share of the resource.  When
    /// this was the last live reference the slot is freed and the value is
    /// returned so the caller can run its finalizer — exactly once, at the
    /// moment the count falls from one to zero; otherwise nothing is
    /// returned and the resource stays alive for the remaining handles.
    /// Fails with `InvalidHandle` for a dead handle.
    pub fn resource_drop(&mut self, h: u32) -> (r: Result<Option<T>, BridgeError>)
        requires
            old(self).wf(),
        ensures
            final(self).wf(),
            final(self).pending() == old(self).pending(),
            final(self).next_invocation() == old(self).next_invocation(),
            final(self).minted() == old(self).minted(),
            final(self).total_slots() == old(self).total_slots(),
            match r {
                Ok(opt) => {
                    &&& old(self).live(h)
                    &&& final(self).handle_map() == old(self).handle_map().remove(h)
                    &&& match opt {
                        Some(v) => {
                            &&& old(self).resources()[old(self).slot_of(h)].1 == 1
                            &&& v == old(self).resources()[old(self).slot_of(h)].0
                            &&& final(self).resources() == old(self).resources().remove(
                                old(self).slot_of(h),
                            )
                        },
                        None => {
                            &&& old(self).resources()[old(self).slot_of(h)].1 > 1
                            &&& final(self).resources() == old(self).resources().insert(
                                old(self).slot_of(h),
                                (
                                    old(self).resources()[old(self).slot_of(h)].0,
                                    (old(self).resources()[old(self).slot_of(h)].1 - 1) as u32,
                                ),
                            )
                        },
                    }
                },
                Err(e) => {
                    &&& e == BridgeError::InvalidHandle
                    &&& !old(self).live(h)
                    &&& final(self).handle_map() == old(self).handle_map()
                    &&& final(self).resources() == old(self).resources()
                },
            },
    {
        let s = match self.handles.remove(h) {
            Ok(s) => s,
            Err(e) => {
                return Err(e);
            },
        };
        proof {
            old(self).handles.lemma_live_handle_counts(h);
        }
        match self.slab.drop_ref(s) {
            Ok(opt) => Ok(opt),
            Err(_) => Err(BridgeError::InvalidSlot),
        }
    }

    /// The central safety invariant, visible to callers: as long as any
    /// live handle maps to a slot, that slot is occupied and its reference
    /// count is at least one.  A reference count is never observed at zero
    /// while a live handle still reaches the slot; dereferencing a live
    /// handle can therefore never touch a freed resource.
    pub proof fn lemma_live_handle_implies_resource(self, h: u32)
        requires
            self.wf(),
            self.live(h),
        ensures
            self.resources().contains_key(self.slot_of(h)),
            self.resources()[self.slot_of(h)].1 >= 1,
            h < self.minted(),
    {
        self.handles.lemma_live_handle_counts(h);
        self.handles.lemma_live_below_minted(h);
    }

    /// Initiates a guest-bound request: validates the caller's handle,
    /// mints a callee-side handle sharing its resource, marshals the
    /// operation name and payload into guest-owned scratch memory, assigns
    /// a fresh invocation id and remembers the request under it.  The
    /// returned descriptor is everything the embedding needs to invoke the
    /// guest's exported entrypoint; issuing the request never waits for the
    /// response, which arrives later through `on_host_response` or
    /// `on_host_error` with the same id.
    pub fn init_guest_request(
        &mut self,
        mem: &mut GuestMemory,
        handle: u32,
        operation: &Vec<u8>,
        payload: &Vec<u8>,
    ) -> (r: Result<GuestCall, BridgeError>)
        requires
            old(self).wf(),
            old(mem).wf(),
            is_utf8(operation@),
            operation@.len() <= u32::MAX,
            payload@.len() <= u32::MAX,
            old(self).minted() < u32::MAX,
            old(self).next_invocation() < u32::MAX,
        ensures
            final(self).wf(),
            final(mem).wf(),
            old(mem).mark() <= final(mem).mark(),
            forall|j: int| 0 <= j < old(mem).mark() ==> final(mem)@[j] == old(mem)@[j],
            final(self).total_slots() == old(self).total_slots(),
            match r {
                Ok(c) => {
                    &&& old(self).live(handle)
                    &&& c.id == old(self).next_invocation()
                    &&& !old(self).pending().contains_key(c.id)
                    &&& final(self).next_invocation() == old(self).next_invocation() + 1
                    &&& final(self).pending() == old(self).pending().insert(
                        c.id,
                        (operation@, payload@),
                    )
                    &&& c.operation_len == operation@.len()
                    &&& c.payload_len == payload@.len()
                    &&& old(mem).mark() <= c.operation_addr
                    &&& c.operation_addr + c.operation_len <= c.payload_addr
                    &&& range_ok(c.operation_addr, c.operation_len, final(mem)@.len())
                    &&& range_ok(c.payload_addr, c.payload_len, final(mem)@.len())
                    &&& final(mem)@.subrange(
                        c.operation_addr as int,
                        c.operation_addr + c.operation_len,
                    ) == operation@
                    &&& final(mem)@.subrange(c.payload_addr as int, c.payload_addr + c.payload_len)
                        == payload@
                    &&& c.callee_handle == old(self).minted()
                    &&& !old(self).live(c.callee_handle)
                    &&& final(self).minted() == old(self).minted() + 1
                    &&& final(self).handle_map() == old(self).handle_map().insert(
                        c.callee_handle,
                        old(self).slot_of(handle),
                    )
                    &&& final(self).resources() == old(self).resources().insert(
                        old(self).slot_of(handle),
                        (
                            old(self).resources()[old(self).slot_of(handle)].0,
                            (old(self).resources()[old(self).slot_of(handle)].1 + 1) as u32,
                        ),
                    )
                },
                Err(e) => {
                    &&& final(self).handle_map() == old(self).handle_map()
                    &&& final(self).resources() == old(self).resources()
                    &&& final(self).pending() == old(self).pending()
                    &&& final(self).next_invocation() == old(self).next_invocation()
                    &&& final(self).minted() == old(self).minted()
                    &&& {
                        ||| (e == BridgeError::InvalidHandle && !old(self).live(handle)
                            && *final(mem) == *old(mem))
                        ||| (e == BridgeError::AllocationFailed && old(self).live(handle)
                            && old(mem).mark() + operation@.len() + payload@.len() > u32::MAX)
                        ||| (e == BridgeError::InvalidSlot && old(self).live(handle)
                            && old(self).resources()[old(self).slot_of(handle)].1 == u32::MAX)
                    }
                },
            },
    {
        let s = match self.handles.get(handle) {
            Ok(s) => s,
            Err(e) => {
                return Err(e);
            },
        };
        proof {
            self.handles.lemma_live_handle_counts(handle);
        }
        let (op_addr, op_len) = match mem.write_to_guest(operation) {
            Ok(p) => p,
            Err(e) => {
                return Err(e);
            },
        };
        let (p_addr, p_len) = match mem.write_to_guest(payload) {
            Ok(p) => p,
            Err(e) => {
                return Err(e);
            },
        };
        proof {
            assert(mem@.subrange(op_addr as int, op_addr + op_len) =~= operation@);
        }
        match self.slab.clone_ref(s) {
            Ok(()) => {},
            Err(e) => {
                return Err(e);
            },
        }
        let h2 = self.handles.insert(s);
        let id = self.correlator.begin(copy_bytes(operation), copy_bytes(payload));
        Ok(
            GuestCall {
                callee_handle: h2,
                operation_addr: op_addr,
                operation_len: op_len,
                payload_addr: p_addr,
                payload_len: p_len,
                id,
            },
        )
    }

    /// Delivers the guest's response for the invocation `id`, conceptually
    /// produced by the guest completing a request this side initiated.
    /// The handle must still be live.  The invocation, if pending, is
    /// settled with the callee-chosen status code and forgotten: it cannot
    /// be delivered a second time, so a repeated or unknown id yields
    /// nothing.
    pub fn on_host_response(&mut self, handle: u32, id: u32, code: u32, payload: Vec<u8>) -> (r:
        Result<Option<Completion>, BridgeError>)
        requires
            old(self).wf(),
        ensures
            final(self).wf(),
            final(self).handle_map() == old(self).handle_map(),
            final(self).resources() == old(self).resources(),
            final(self).minted() == old(self).minted(),
            final(self).next_invocation() == old(self).next_invocation(),
            final(self).total_slots() == old(self).total_slots(),
            match r {
                Ok(opt) => {
                    &&& old(self).live(handle)
                    &&& match opt {
                        Some(c) => {
                            &&& old(self).pending().contains_key(id)
                            &&& c.id == id
                            &&& (c.operation@, c.request_payload@) == old(self).pending()[id]
                            &&& c.outcome == (Outcome::Responded { code, payload })
                            &&& final(self).pending() == old(self).pending().remove(id)
                        },
                        None => {
                            &&& !old(self).pending().contains_key(id)
                            &&& final(self).pending() == old(self).pending()
                        },
                    }
                },
                Err(e) => {
                    &&& e == BridgeError::InvalidHandle
                    &&& !old(self).live(handle)
                    &&& final(self).pending() == old(self).pending()
                },
            },
    {
        match self.handles.get(handle) {
            Ok(_) => {},
            Err(e) => {
                return Err(e);
            },
        }
        Ok(self.correlator.complete(id, code, payload))
    }

    /// Delivers the guest's error for the invocation `id`.  The handle
    /// must still be live.  The invocation, if pending, is settled with
    /// the error payload and forgotten, exactly as for a response.
    pub fn on_host_error(&mut self, handle: u32, id: u32, payload: Vec<u8>) -> (r: Result<
        Option<Completion>,
        BridgeError,
    >)
        requires
            old(self).wf(),
        ensures
            final(self).wf(),
            final(self).handle_map() == old(self).handle_map(),
            final(self).resources() == old(self).resources(),
            final(self).minted() == old(self).minted(),
            final(self).next_invocation() == old(self).next_invocation(),
            final(self).total_slots() == old(self).total_slots(),
            match r {
                Ok(opt) => {
                    &&& old(self).live(handle)
                    &&& match opt {
                        Some(c) => {
                            &&& old(self).pending().contains_key(id)
                            &&& c.id == id
                            &&& (c.operation@, c.request_payload@) == old(self).pending()[id]
                            &&& c.outcome == (Outcome::Errored { payload })
                            &&& final(self).pending() == old(self).pending().remove(id)
                        },
                        None => {
                            &&& !old(self).pending().contains_key(id)
                            &&& final(self).pending() == old(self).pending()
                        },
                    }
                },
                Err(e) => {
                    &&& e == BridgeError::InvalidHandle
                    &&& !old(self).live(handle)
                    &&& final(self).pending() == old(self).pending()
                },
            },
    {
        match self.handles.get(handle) {
            Ok(_) => {},
            Err(e) => {
                return Err(e);
            },
        }
        Ok(self.correlator.fail(id, payload))
    }

    /// Copies a guest-initiated request out of guest memory and validates
    /// it in full: the handle must be live, the three string ranges must
    /// be in bounds and well-formed UTF-8, and the payload range must be
    /// in bounds.  Nothing of a failing request is handed out.
    pub fn prepare_host_request(
        &self,
        mem: &GuestMemory,
        handle: u32,
        binding_addr: u32,
        binding_len: u32,
        namespace_addr: u32,
        namespace_len: u32,
        operation_addr: u32,
        operation_len: u32,
        payload_addr: u32,
        payload_len: u32,
    ) -> (r: Result<HostRequest, BridgeError>)
        requires
            self.wf(),
        ensures
            match r {
                Ok(req) => {
                    &&& host_request_error(
                        self.live(handle),
                        mem@,
                        binding_addr,
                        binding_len,
                        namespace_addr,
                        namespace_len,
                        operation_addr,
                        operation_len,
                        payload_addr,
                        payload_len,
                    ) is None
                    &&& req.binding@ == utf8_decode(
                        mem@.subrange(binding_addr as int, binding_addr + binding_len),
                    )
                    &&& req.namespace@ == utf8_decode(
                        mem@.subrange(namespace_addr as int, namespace_addr + namespace_len),
                    )
                    &&& req.operation@ == utf8_decode(
                        mem@.subrange(operation_addr as int, operation_addr + operation_len),
                    )
                    &&& req.payload@ == mem@.subrange(payload_addr as int, payload_addr + payload_len)
                },
                Err(e) => host_request_error(
                    self.live(handle),
                    mem@,
                    binding_addr,
                    binding_len,
                    namespace_addr,
                    namespace_len,
                    operation_addr,
                    operation_len,
                    payload_addr,
                    payload_len,
                ) == Some(e),
            },
    {
        match self.handles.get(handle) {
            Ok(_) => {},
            Err(e) => {
                return Err(e);
            },
        }
        let b = match mem.read_string_bytes(binding_addr, binding_len) {
            Ok(b) => b,
            Err(e) => {
                return Err(e);
            },
        };
        let n = match mem.read_string_bytes(namespace_addr, namespace_len) {
            Ok(n) => n,
            Err(e) => {
                return Err(e);
            },
        };
        let o = match mem.read_string_bytes(operation_addr, operation_len) {
            Ok(o) => o,
            Err(e) => {
                return Err(e);
            },
        };
        let p = match mem.read_bytes(payload_addr, payload_len) {
            Ok(p) => p,
            Err(e) => {
                return Err(e);
            },
        };
        Ok(
            HostRequest {
                binding: string_from_utf8(b),
                namespace: string_from_utf8(n),
                operation: string_from_utf8(o),
                payload: p,
            },
        )
    }

    /// Handles a guest-initiated host-bound request end to end: validates
    /// and copies it out of guest memory, then dispatches it to the bound
    /// capability and returns the status code the capability chose.  A
    /// request that fails validation — a stale handle first of all — is
    /// rejected without the capability ever being invoked.
    pub fn init_host_request<H: WapcHost<Wapc = T>>(
        &self,
        host: &mut H,
        mem: &GuestMemory,
        handle: u32,
        binding_addr: u32,
        binding_len: u32,
        namespace_addr: u32,
        namespace_len: u32,
        operation_addr: u32,
        operation_len: u32,
        payload_addr: u32,
        payload_len: u32,
    ) -> (r: Result<u32, BridgeError>)
        requires
            self.wf(),
        ensures
            match r {
                Ok(_) => host_request_error(
                    self.live(handle),
                    mem@,
                    binding_addr,
                    binding_len,
                    namespace_addr,
                    namespace_len,
                    operation_addr,
                    operation_len,
                    payload_addr,
                    payload_len,
                ) is None,
                Err(e) => host_request_error(
                    self.live(handle),
                    mem@,
                    binding_addr,
                    binding_len,
                    namespace_addr,
                    namespace_len,
                    operation_addr,
                    operation_len,
                    payload_addr,
                    payload_len,
                ) == Some(e),
            },
    {
        let v = match self.resource_get(handle) {
            Ok(v) => v,
            Err(e) => {
                return Err(e);
            },
        };
        let req = match self.prepare_host_request(
            mem,
            handle,
            binding_addr,
            binding_len,
            namespace_addr,
            namespace_len,
            operation_addr,
            operation_len,
            payload_addr,
            payload_len,
        ) {
            Ok(req) => req,
            Err(e) => {
                return Err(e);
            },
        };
        let code = host.wapc_init_host_request(
            v,
            req.binding.as_str(),
            req.namespace.as_str(),
            req.operation.as_str(),
            req.payload.as_slice(),
        );
        Ok(code)
    }

    /// Passes a guest-produced response through to the host, for a request
    /// the host's user code issued earlier: validates the handle, copies
    /// the payload out of guest memory, and hands the id through
    /// unmodified.
    pub fn on_guest_response<H: WapcHost<Wapc = T>>(
        &self,
        host: &mut H,
        mem: &GuestMemory,
        handle: u32,
        id: u32,
        addr: u32,
        len: u32,
    ) -> (r: Result<(), BridgeError>)
        requires
            self.wf(),
        ensures
            match r {
                Ok(()) => self.live(handle) && range_ok(addr, len, mem@.len()),
                Err(e) => {
                    ||| (e == BridgeError::InvalidHandle && !self.live(handle))
                    ||| (e == BridgeError::OutOfBounds && self.live(handle) && !range_ok(
                        addr,
                        len,
                        mem@.len(),
                    ))
                },
            },
    {
        let v = match self.resource_get(handle) {
            Ok(v) => v,
            Err(e) => {
                return Err(e);
            },
        };
        let bytes = match mem.read_bytes(addr, len) {
            Ok(b) => b,
            Err(e) => {
                return Err(e);
            },
        };
        host.wapc_on_guest_response(v, id, bytes.as_slice());
        Ok(())
    }

    /// Passes a guest-produced error through to the host, exactly as
    /// `on_guest_response` does for a response.
    pub fn on_guest_error<H: WapcHost<Wapc = T>>(
        &self,
        host: &mut H,
        mem: &GuestMemory,
        handle: u32,
        id: u32,
        addr: u32,
        len: u32,
    ) -> (r: Result<(), BridgeError>)
        requires
            self.wf(),
        ensures
            match r {
                Ok(()) => self.live(handle) && range_ok(addr, len, mem@.len()),
                Err(e) => {
                    ||| (e == BridgeError::InvalidHandle && !self.live(handle))
                    ||| (e == BridgeError::OutOfBounds && self.live(handle) && !range_ok(
                        addr,
                        len,
                        mem@.len(),
                    ))
                },
            },
    {
        let v = match self.resource_get(handle) {
            Ok(v) => v,
            Err(e) => {
                return Err(e);
            },
        };
        let bytes = match mem.read_bytes(addr, len) {
            Ok(b) => b,
            Err(e) => {
                return Err(e);
            },
        };
        host.wapc_on_guest_error(v, id, bytes.as_slice());
        Ok(())
    }

    /// Forwards a guest log message to the host's one-way diagnostic sink:
    /// validates the handle, then copies and checks the message before the
    /// sink sees it.  No correlation and no response; the sink itself
    /// cannot fail the caller.
    pub fn console_log<H: WapcHost<Wapc = T>>(
        &self,
        host: &mut H,
        mem: &GuestMemory,
        handle: u32,
        addr: u32,
        len: u32,
    ) -> (r: Result<(), BridgeError>)
        requires
            self.wf(),
        ensures
            match r {
                Ok(()) => self.live(handle) && string_range_error(mem@, addr, len) is None,
                Err(e) => {
                    ||| (e == BridgeError::InvalidHandle && !self.live(handle))
                    ||| (self.live(handle) && string_range_error(mem@, addr, len) == Some(e))
                },
            },
    {
        let v = match self.resource_get(handle) {
            Ok(v) => v,
            Err(e) => {
                return Err(e);
            },
        };
        let b = match mem.read_string_bytes(addr, len) {
            Ok(b) => b,
            Err(e) => {
                return Err(e);
            },
        };
        let msg = string_from_utf8(b);
        host.wapc_console_log(v, msg.as_str());
        Ok(())
    }
}

} // verus!
