//! Guest memory: one region of bytes at guest physical address zero.

use vstd::prelude::*;

verus! {

/// Access outside the guest's memory.
#[derive(Clone, Copy, Debug, PartialEq, Eq, Structural)]
pub enum MemoryError {
    InvalidGuestAddress(u64),
}

/// `mem` with the bytes at `addr..addr + data.len()` replaced by `data`.
pub open spec fn overwrite(mem: Seq<u8>, addr: int, data: Seq<u8>) -> Seq<u8> {
    mem.subrange(0, addr) + data + mem.subrange(addr + data.len(), mem.len() as int)
}

/// How many bytes an access of `want` bytes at `addr` reaches before the end
/// of memory (the access is valid only for `addr < mem_len`).
pub open spec fn access_len(mem_len: int, addr: int, want: int) -> int {
    if want <= mem_len - addr {
        want
    } else {
        mem_len - addr
    }
}

/// A buffer filled with `n` zeroes.
pub fn zeroed_buf(n: usize) -> (r: Vec<u8>)
    ensures
        r@ == Seq::new(n as nat, |i: int| 0u8),
{
    let mut r: Vec<u8> = Vec::with_capacity(n);
    let mut i: usize = 0;
    while i < n
        invariant
            i <= n,
            r@ == Seq::new(i as nat, |j: int| 0u8),
        decreases n - i,
    {
        r.push(0u8);
        i += 1;
        assert(r@ =~= Seq::new(i as nat, |j: int| 0u8));
    }
    r
}

pub struct GuestMemory {
    pub bytes: Vec<u8>,
}

impl GuestMemory {
    pub open spec fn view(&self) -> Seq<u8> {
        self.bytes@
    }

    /// `size` bytes of zeroed guest memory.
    pub fn new(size: usize) -> (r: GuestMemory)
        ensures
            r@ == Seq::new(size as nat, |i: int| 0u8),
    {
        let bytes = zeroed_buf(size);
        GuestMemory { bytes }
    }

    pub fn len(&self) -> (r: usize)
        ensures
            r == self@.len(),
    {
        self.bytes.len()
    }

    /// Copies `src[from..to]` into guest memory at `addr`, stopping at the end
    /// of memory. Returns how many bytes were written; an address outside
    /// memory is an error and writes nothing.
    pub fn write_slice_at_addr(&mut self, src: &Vec<u8>, from: usize, to: usize, addr: u64) -> (r:
        Result<usize, MemoryError>)
        requires
            from <= to <= src@.len(),
        ensures
            (r is Err) == (addr >= old(self)@.len()),
            (r is Err) ==> final(self)@ == old(self)@,
            r matches Ok(n) ==> n == access_len(old(self)@.len() as int, addr as int, to - from)
                && final(self)@ == overwrite(
                old(self)@,
                addr as int,
                src@.subrange(from as int, from + n),
            ),
    {
        let len = self.bytes.len();
        if addr >= len as u64 {
            return Err(MemoryError::InvalidGuestAddress(addr));
        }
        let start = addr as usize;
        let n = if to - from <= len - start {
            to - from
        } else {
            len - start
        };
        let ghost m0 = self@;
        let mut i: usize = 0;
        while i < n
            invariant
                from <= to <= src@.len(),
                n <= to - from,
                start + n <= len,
                self.bytes@.len() == len,
                m0.len() == len,
                i <= n,
                self@ == overwrite(m0, start as int, src@.subrange(from as int, from + i)),
            decreases n - i,
        {
            self.bytes.set(start + i, src[from + i]);
            i += 1;
            assert(self@ =~= overwrite(m0, start as int, src@.subrange(from as int, from + i)));
        }
        Ok(n)
    }

    /// Copies guest memory at `addr` into `dst[from..to]`, stopping at the end
    /// of memory. Returns how many bytes were read; an address outside memory
    /// is an error and reads nothing.
    pub fn read_slice_at_addr(&self, dst: &mut Vec<u8>, from: usize, to: usize, addr: u64) -> (r:
        Result<usize, MemoryError>)
        requires
            from <= to <= old(dst)@.len(),
        ensures
            (r is Err) == (addr >= self@.len()),
            (r is Err) ==> final(dst)@ == old(dst)@,
            r matches Ok(n) ==> n == access_len(self@.len() as int, addr as int, to - from)
                && final(dst)@ == overwrite(
                old(dst)@,
                from as int,
                self@.subrange(addr as int, addr + n),
            ),
    {
        let len = self.bytes.len();
        if addr >= len as u64 {
            return Err(MemoryError::InvalidGuestAddress(addr));
        }
        let start = addr as usize;
        let n = if to - from <= len - start {
            to - from
        } else {
            len - start
        };
        let ghost d0 = dst@;
        let mut i: usize = 0;
        while i < n
            invariant
                from <= to,
                n <= to - from,
                to <= d0.len(),
                start + n <= len,
                self.bytes@.len() == len,
                dst@.len() == d0.len(),
                i <= n,
                dst@ == overwrite(d0, from as int, self@.subrange(start as int, start + i)),
            decreases n - i,
        {
            dst.set(from + i, self.bytes[start + i]);
            i += 1;
            assert(dst@ =~= overwrite(d0, from as int, self@.subrange(start as int, start + i)));
        }
        Ok(n)
    }
}

} // verus!
