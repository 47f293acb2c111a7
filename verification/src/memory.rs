//! The guest's flat linear memory and the copy-in/copy-out marshaler.
//!
//! All data crossing the trust boundary is copied: reads copy a byte range
//! out of guest memory into host-owned storage, and writes first obtain
//! guest-owned scratch space from the growable allocator and then copy host
//! bytes into it.  Any address/length pair that reaches outside the current
//! memory fails fast with `OutOfBounds`; nothing is clamped or wrapped.

use vstd::prelude::*;
use crate::BridgeError;
use crate::utf8::{is_utf8, validate_utf8};

verus! {

/// `x` rounded up to the next multiple of `a` (for `a > 0`).
pub open spec fn round_up(x: int, a: int) -> int {
    if x % a == 0 {
        x
    } else {
        x + a - x % a
    }
}

/// The byte range `[addr, addr + len)` lies inside a memory of `n` bytes.
pub open spec fn range_ok(addr: u32, len: u32, n: nat) -> bool {
    addr + len <= n
}

/// A guest instance's linear memory, together with the bump allocator that
/// hands out guest-owned scratch space for marshaled arguments.
///
/// The view is the byte content of the whole memory.
pub struct GuestMemory {
    data: Vec<u8>,
    next_alloc: u32,
}

impl View for GuestMemory {
    type V = Seq<u8>;

    closed spec fn view(&self) -> Seq<u8> {
        self.data@
    }
}

impl GuestMemory {
    /// The low-water mark of the allocator: everything below it has been
    /// handed out as scratch space and is never reallocated.
    pub closed spec fn mark(self) -> nat {
        self.next_alloc as nat
    }

    pub closed spec fn wf(self) -> bool {
        self.next_alloc <= self.data@.len() <= u32::MAX
    }

    /// A fresh zero-filled memory of `initial` bytes.
    pub fn new(initial: u32) -> (m: Self)
        ensures
            m.wf(),
            m@.len() == initial,
            forall|j: int| 0 <= j < initial ==> m@[j] == 0,
            m.mark() == 0,
    {
        GuestMemory { data: vec![0u8; initial as usize], next_alloc: 0 }
    }

    /// The current size of the addressable memory, in bytes.
    pub fn size(&self) -> (n: usize)
        ensures
            n == self@.len(),
    {
        self.data.len()
    }

    /// Copies the exact byte range `[addr, addr + len)` out of guest memory
    /// into host-owned storage; fails with `OutOfBounds` if any part of the
    /// range lies outside the current memory.
    pub fn read_bytes(&self, addr: u32, len: u32) -> (r: Result<Vec<u8>, BridgeError>)
        ensures
            match r {
                Ok(b) => range_ok(addr, len, self@.len()) && b@ == self@.subrange(
                    addr as int,
                    addr + len,
                ),
                Err(e) => e == BridgeError::OutOfBounds && !range_ok(addr, len, self@.len()),
            },
    {
        let dl = self.data.len();
        if (addr as u64) + (len as u64) > dl as u64 {
            return Err(BridgeError::OutOfBounds);
        }
        let a = addr as usize;
        let l = len as usize;
        let mut out: Vec<u8> = Vec::new();
        let mut k: usize = 0;
        while k < l
            invariant
                k <= l,
                a + l <= self.data@.len(),
                self.data@.len() <= usize::MAX,
                out@.len() == k,
                forall|j: int| 0 <= j < k ==> out@[j] == self.data@[a + j],
            decreases l - k,
        {
            out.push(self.data[a + k]);
            k += 1;
        }
        proof {
            assert(out@ =~= self@.subrange(addr as int, addr + len));
        }
        Ok(out)
    }

    /// Copies `bytes` into guest memory at `addr`; fails with `OutOfBounds`
    /// if the target range lies outside the current memory.  No other byte
    /// of the memory is touched.
    pub fn write_bytes(&mut self, addr: u32, bytes: &Vec<u8>) -> (r: Result<(), BridgeError>)
        requires
            bytes@.len() <= u32::MAX,
        ensures
            final(self).mark() == old(self).mark(),
            final(self)@.len() == old(self)@.len(),
            old(self).wf() ==> final(self).wf(),
            match r {
                Ok(()) => {
                    &&& range_ok(addr, bytes@.len() as u32, old(self)@.len())
                    &&& final(self)@.subrange(addr as int, addr + bytes@.len()) == bytes@
                    &&& forall|j: int|
                        0 <= j < old(self)@.len() && !(addr <= j < addr + bytes@.len())
                            ==> final(self)@[j] == old(self)@[j]
                },
                Err(e) => {
                    &&& e == BridgeError::OutOfBounds
                    &&& !range_ok(addr, bytes@.len() as u32, old(self)@.len())
                    &&& *final(self) == *old(self)
                },
            },
    {
        let dl = self.data.len();
        if (addr as u64) + (bytes.len() as u64) > dl as u64 {
            return Err(BridgeError::OutOfBounds);
        }
        let a = addr as usize;
        let l = bytes.len();
        let mut k: usize = 0;
        while k < l
            invariant
                k <= l,
                a == addr as int,
                l == bytes@.len(),
                a + l <= self.data@.len(),
                self.data@.len() <= usize::MAX,
                self.data@.len() == old(self).data@.len(),
                self.next_alloc == old(self).next_alloc,
                forall|j: int| 0 <= j < k ==> self.data@[a + j] == bytes@[j],
                forall|j: int|
                    0 <= j < self.data@.len() && !(a <= j < a + k) ==> self.data@[j] == old(
                        self,
                    ).data@[j],
            decreases l - k,
        {
            self.data[a + k] = bytes[k];
            k += 1;
        }
        proof {
            assert(self@.subrange(addr as int, addr + bytes@.len()) =~= bytes@);
        }
        Ok(())
    }

    /// Obtains `size` bytes of fresh guest-owned scratch space, aligned to
    /// `align`, growing the memory (zero-filled) as needed.  Fails with
    /// `AllocationFailed` when the alignment is unusable or the request
    /// cannot fit in the 32-bit address space; the memory is then unchanged.
    pub fn allocate(&mut self, align: u32, size: u32) -> (r: Result<u32, BridgeError>)
        requires
            old(self).wf(),
        ensures
            final(self).wf(),
            match r {
                Ok(addr) => {
                    &&& align >= 1
                    &&& addr == round_up(old(self).mark() as int, align as int)
                    &&& (addr as int) % (align as int) == 0
                    &&& old(self).mark() <= addr
                    &&& addr + size <= final(self)@.len()
                    &&& final(self).mark() == addr + size
                    &&& old(self)@.len() <= final(self)@.len()
                    &&& forall|j: int| 0 <= j < old(self)@.len() ==> final(self)@[j] == old(self)@[j]
                    &&& forall|j: int|
                        old(self)@.len() <= j < final(self)@.len() ==> final(self)@[j] == 0
                },
                Err(e) => {
                    &&& e == BridgeError::AllocationFailed
                    &&& (align == 0 || round_up(old(self).mark() as int, align as int) + size
                        > u32::MAX)
                    &&& *final(self) == *old(self)
                },
            },
    {
        if align == 0 {
            return Err(BridgeError::AllocationFailed);
        }
        let a = align as u64;
        let m = self.next_alloc as u64;
        let rem = m % a;
        let start = if rem == 0 {
            m
        } else {
            m + (a - rem)
        };
        proof {
            assert(start == round_up(old(self).mark() as int, align as int));
            let ai = a as int;
            let mi = m as int;
            let ri = rem as int;
            let qi = mi / ai;
            vstd::arithmetic::div_mod::lemma_fundamental_div_mod(mi, ai);
            if rem != 0 {
                assert(start == ai * (qi + 1)) by (nonlinear_arith)
                    requires
                        start == mi + ai - ri,
                        mi == ai * qi + ri,
                ;
                vstd::arithmetic::div_mod::lemma_mod_multiples_basic(qi + 1, ai);
            }
        }
        let end = start + (size as u64);
        if end > (u32::MAX as u64) {
            return Err(BridgeError::AllocationFailed);
        }
        let target = end as usize;
        while self.data.len() < target
            invariant
                target <= u32::MAX,
                old(self).data@.len() <= self.data@.len(),
                self.data@.len() <= target || self.data@.len() == old(self).data@.len(),
                forall|j: int| 0 <= j < old(self).data@.len() ==> self.data@[j] == old(self).data@[j],
                forall|j: int|
                    old(self).data@.len() <= j < self.data@.len() ==> self.data@[j] == 0,
                self.next_alloc == old(self).next_alloc,
            decreases target - self.data@.len(),
        {
            self.data.push(0);
        }
        self.next_alloc = end as u32;
        Ok(start as u32)
    }

    /// Marshals `bytes` host-to-guest: obtains scratch space from the
    /// allocator and copies the bytes there.  On success the returned
    /// address/length pair denotes a range holding exactly `bytes`; reading
    /// that range back yields the original buffer.  Everything below the
    /// previous allocation mark is left untouched.
    pub fn write_to_guest(&mut self, bytes: &Vec<u8>) -> (r: Result<(u32, u32), BridgeError>)
        requires
            old(self).wf(),
            bytes@.len() <= u32::MAX,
        ensures
            final(self).wf(),
            match r {
                Ok((addr, len)) => {
                    &&& len == bytes@.len()
                    &&& addr == old(self).mark()
                    &&& range_ok(addr, len, final(self)@.len())
                    &&& final(self)@.subrange(addr as int, addr + len) == bytes@
                    &&& final(self).mark() == addr + len
                    &&& old(self)@.len() <= final(self)@.len()
                    &&& forall|j: int| 0 <= j < old(self).mark() ==> final(self)@[j] == old(self)@[j]
                },
                Err(e) => {
                    &&& e == BridgeError::AllocationFailed
                    &&& old(self).mark() + bytes@.len() > u32::MAX
                    &&& *final(self) == *old(self)
                },
            },
    {
        let len = bytes.len() as u32;
        let addr = match self.allocate(1, len) {
            Ok(addr) => addr,
            Err(e) => {
                return Err(e);
            },
        };
        match self.write_bytes(addr, bytes) {
            Ok(()) => Ok((addr, len)),
            Err(_) => Err(BridgeError::OutOfBounds),
        }
    }

    /// Copies the byte range `[addr, addr + len)` out of guest memory and
    /// checks that it is well-formed UTF-8.  A range outside memory fails
    /// with `OutOfBounds`; an in-bounds range that is not well-formed UTF-8
    /// fails with `InvalidUtf8`, and nothing of it is handed out.
    pub fn read_string_bytes(&self, addr: u32, len: u32) -> (r: Result<Vec<u8>, BridgeError>)
        ensures
            match r {
                Ok(b) => {
                    &&& range_ok(addr, len, self@.len())
                    &&& b@ == self@.subrange(addr as int, addr + len)
                    &&& is_utf8(b@)
                },
                Err(e) => {
                    &&& (e == BridgeError::OutOfBounds || e == BridgeError::InvalidUtf8)
                    &&& (e == BridgeError::OutOfBounds <==> !range_ok(addr, len, self@.len()))
                    &&& (e == BridgeError::InvalidUtf8 <==> range_ok(addr, len, self@.len())
                        && !is_utf8(self@.subrange(addr as int, addr + len)))
                },
            },
    {
        let b = match self.read_bytes(addr, len) {
            Ok(b) => b,
            Err(e) => {
                return Err(e);
            },
        };
        if validate_utf8(&b) {
            Ok(b)
        } else {
            Err(BridgeError::InvalidUtf8)
        }
    }
}

} // verus!
