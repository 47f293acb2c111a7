//! A call bridge between a trusted host and a sandboxed guest.
//!
//! The guest refers to host-side resources only through small opaque integer
//! handles; the host reads and writes guest memory only through an explicit
//! bounds-checked copy protocol.  The crate provides the handle/resource
//! lifecycle manager, the byte and string marshaler over a flat linear
//! memory, and the invocation correlator that matches a request issued on
//! one side with the response or error delivered later from the other side.

use vstd::prelude::*;

mod handle_table;
mod resource_slab;
mod utf8;
mod memory;
mod correlator;
mod bridge;

pub use handle_table::HandleTable;
pub use resource_slab::ResourceSlab;
pub use utf8::{is_utf8, utf8_decode, validate_utf8};
pub use memory::GuestMemory;
pub use correlator::{Correlator, Completion, Outcome};
pub use bridge::{CallBridge, WapcHost, GuestCall, HostRequest};

verus! {

/// The failures a bridge operation can report to its immediate caller.
///
/// Marshaling and table errors are reported synchronously; they never cross
/// the boundary disguised as a successful response.
#[derive(Clone, Copy, Debug, PartialEq, Eq, Structural)]
pub enum BridgeError {
    /// The handle was never issued or has already been removed.
    InvalidHandle,
    /// A slot index did not name a live slot, or a refcount could not be
    /// moved: an internal consistency violation.
    InvalidSlot,
    /// An address/length pair reaches outside the guest's linear memory.
    OutOfBounds,
    /// A byte range claimed to be a string is not well-formed UTF-8.
    InvalidUtf8,
    /// The guest-side allocator refused or cannot satisfy the request.
    AllocationFailed,
    /// The underlying call mechanism itself failed; the embedding reports
    /// this for a trapped or aborted cross-boundary call.
    TransportFault,
}

} // verus!
