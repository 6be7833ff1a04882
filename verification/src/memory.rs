use vstd::prelude::*;

use crate::bytes::{bytes_to_u64, le_bytes, le_value, lemma_u64_le_roundtrip, u64_to_le_bytes};
use crate::error::ExecutionError;

verus! {

/// Physical memory: the program image, then the heap, then the stack.
pub struct Memory {
    pub physical: Vec<u8>,
    pub range: u64,
    pub heap_size: u64,
    pub stack_size: u64,
    pub heap_start: u64,
    pub stack_start: u64,
    pub total_heap_allocations: u64,
}

/// An access of `n` bytes at `address` stays inside memory of length `len`.
pub open spec fn fits(len: nat, address: u64, n: nat) -> bool {
    n == 0 || address + n <= len
}

/// The first address that an access starting at `address` cannot reach.
pub open spec fn first_unreachable(len: nat, address: u64) -> u64 {
    if address < len {
        len as u64
    } else {
        address
    }
}

/// `m` with `bytes` laid over it from `address` on; what falls past the end
/// of `m` is dropped.
pub open spec fn overwrite(m: Seq<u8>, address: u64, bytes: Seq<u8>) -> Seq<u8> {
    Seq::new(
        m.len(),
        |i: int|
            if address <= i < address + bytes.len() {
                bytes[i - address]
            } else {
                m[i]
            },
    )
}

/// The outcome of reading `n` bytes at `address` from `m`.
pub open spec fn read_spec(m: Seq<u8>, address: u64, n: nat) -> Result<Seq<u8>, ExecutionError> {
    if n == 0 {
        Ok(Seq::empty())
    } else if address + n <= m.len() {
        Ok(m.subrange(address as int, address + n))
    } else {
        Err(ExecutionError::MemoryAccessViolation { address: first_unreachable(m.len(), address) })
    }
}

/// The outcome of writing `bytes` at `address` into `m`; the memory after
/// it is `overwrite(m, address, bytes)` in every case.
pub open spec fn write_spec(m: Seq<u8>, address: u64, bytes: Seq<u8>) -> Result<
    u64,
    ExecutionError,
> {
    if fits(m.len(), address, bytes.len()) {
        Ok(bytes.len() as u64)
    } else {
        Err(ExecutionError::MemoryAccessViolation { address: first_unreachable(m.len(), address) })
    }
}

/// The eight-byte little-endian word at `address`.
pub open spec fn read_address_spec(m: Seq<u8>, address: u64) -> Result<u64, ExecutionError> {
    match read_spec(m, address, 8) {
        Ok(bytes) => Ok(le_value(bytes) as u64),
        Err(e) => Err(e),
    }
}

/// How many bytes a forward copy of `n` bytes gets through before it
/// touches an address past the end of memory of length `len`.
pub open spec fn copy_reach(len: nat, dest: u64, src: u64, n: nat) -> nat {
    let s: int = if src < len { len - src } else { 0 };
    let d: int = if dest < len { len - dest } else { 0 };
    if n <= s && n <= d {
        n
    } else if s <= d {
        s as nat
    } else {
        d as nat
    }
}

/// Memory after copying `k` bytes forward, one at a time, from `src` to `dest`.
pub open spec fn copy_bytes(m: Seq<u8>, dest: u64, src: u64, k: nat) -> Seq<u8>
    decreases k,
{
    if k == 0 {
        m
    } else {
        let prev = copy_bytes(m, dest, src, (k - 1) as nat);
        prev.update(dest + k - 1, prev[src + k - 1])
    }
}

/// The error of a copy that stops after `k` bytes.
pub open spec fn copy_error(len: nat, dest: u64, src: u64, k: nat) -> ExecutionError {
    if src + k >= len {
        ExecutionError::MemoryAccessViolation { address: (src + k) as u64 }
    } else {
        ExecutionError::MemoryAccessViolation { address: (dest + k) as u64 }
    }
}

/// The outcome and memory after a forward copy of `n` bytes.
pub open spec fn memcpy_spec(m: Seq<u8>, dest: u64, src: u64, n: u64) -> (
    Result<(), ExecutionError>,
    Seq<u8>,
) {
    let k = copy_reach(m.len(), dest, src, n as nat);
    (
        if k == n {
            Ok(())
        } else {
            Err(copy_error(m.len(), dest, src, k))
        },
        copy_bytes(m, dest, src, k),
    )
}

proof fn lemma_overwrite_prefix(m: Seq<u8>, address: u64, bytes: Seq<u8>, i: nat)
    requires
        i <= bytes.len(),
        address + i >= m.len(),
    ensures
        overwrite(m, address, bytes.subrange(0, i as int)) =~= overwrite(m, address, bytes),
{
}

impl Memory {
    /// Memory with the given heap and stack sizes and nothing loaded yet.
    pub fn new(heap: u64, stack: u64) -> (m: Self)
        ensures
            m.physical@ == Seq::<u8>::empty(),
            m.range == 0,
            m.heap_size == heap,
            m.stack_size == stack,
            m.heap_start == 0,
            m.stack_start == 0,
            m.total_heap_allocations == 0,
    {
        Memory {
            physical: Vec::new(),
            range: 0,
            heap_size: heap,
            stack_size: stack,
            heap_start: 0,
            stack_start: 0,
            total_heap_allocations: 0,
        }
    }

    /// The byte at `address`.
    pub fn read_byte(&self, address: u64) -> (r: Result<u8, ExecutionError>)
        ensures
            address < self.physical@.len() ==> r == Ok::<u8, ExecutionError>(
                self.physical@[address as int],
            ),
            address >= self.physical@.len() ==> r == Err::<u8, ExecutionError>(
                ExecutionError::MemoryAccessViolation { address },
            ),
    {
        if address < self.physical.len() as u64 {
            Ok(self.physical[address as usize])
        } else {
            Err(ExecutionError::MemoryAccessViolation { address })
        }
    }

    /// Sets the byte at `address`.
    pub fn write_byte(&mut self, address: u64, value: u8) -> (r: Result<(), ExecutionError>)
        ensures
            final(self).range == old(self).range,
            final(self).heap_size == old(self).heap_size,
            final(self).stack_size == old(self).stack_size,
            final(self).heap_start == old(self).heap_start,
            final(self).stack_start == old(self).stack_start,
            final(self).total_heap_allocations == old(self).total_heap_allocations,
            address < old(self).physical@.len() ==> r == Ok::<(), ExecutionError>(())
                && final(self).physical@ == old(self).physical@.update(address as int, value),
            address >= old(self).physical@.len() ==> r == Err::<(), ExecutionError>(
                ExecutionError::MemoryAccessViolation { address },
            ) && final(self).physical@ == old(self).physical@,
    {
        if address < self.physical.len() as u64 {
            self.physical.set(address as usize, value);
            Ok(())
        } else {
            Err(ExecutionError::MemoryAccessViolation { address })
        }
    }

    /// The `n` bytes starting at `address`.
    pub fn read(&self, address: u64, n: u64) -> (r: Result<Vec<u8>, ExecutionError>)
        ensures
            match (r, read_spec(self.physical@, address, n as nat)) {
                (Ok(v), Ok(s)) => v@ == s,
                (Err(e), Err(f)) => e == f,
                _ => false,
            },
    {
        let len_u = self.physical.len();
        let len = len_u as u64;
        let mut buf: Vec<u8> = Vec::new();
        let mut i: u64 = 0;
        while i < n
            invariant
                len == self.physical@.len(),
                len_u == self.physical@.len(),
                len == len_u,
                i <= n,
                i == 0 || address + i <= len,
                buf@ =~= Seq::new(i as nat, |j: int| self.physical@[address + j]),
            decreases n - i,
        {
            let a = address + i;
            if a >= len {
                return Err(ExecutionError::MemoryAccessViolation { address: a });
            }
            buf.push(self.physical[a as usize]);
            i = i + 1;
        }
        proof {
            if n > 0 {
                assert(buf@ =~= self.physical@.subrange(address as int, address + n));
            }
        }
        Ok(buf)
    }

    /// Writes `bytes` from `address` on and returns how many were written.
    /// On failure the bytes before the end of memory have been written.
    pub fn write(&mut self, address: u64, bytes: &[u8]) -> (r: Result<u64, ExecutionError>)
        ensures
            final(self).physical@ == overwrite(old(self).physical@, address, bytes@),
            r == write_spec(old(self).physical@, address, bytes@),
            final(self).range == old(self).range,
            final(self).heap_size == old(self).heap_size,
            final(self).stack_size == old(self).stack_size,
            final(self).heap_start == old(self).heap_start,
            final(self).stack_start == old(self).stack_start,
            final(self).total_heap_allocations == old(self).total_heap_allocations,
    {
        let ghost m0 = self.physical@;
        let len_u = self.physical.len();
        let len = len_u as u64;
        let n = bytes.len() as u64;
        let mut i: u64 = 0;
        while i < n
            invariant
                len == self.physical@.len(),
                len_u == self.physical@.len(),
                len == len_u,
                len == m0.len(),
                m0 == old(self).physical@,
                n == bytes@.len(),
                i <= n,
                i == 0 || address + i <= len,
                self.physical@ =~= overwrite(m0, address, bytes@.subrange(0, i as int)),
                self.range == old(self).range,
                self.heap_size == old(self).heap_size,
                self.stack_size == old(self).stack_size,
                self.heap_start == old(self).heap_start,
                self.stack_start == old(self).stack_start,
                self.total_heap_allocations == old(self).total_heap_allocations,
            decreases n - i,
        {
            let a = address + i;
            if a >= len {
                proof {
                    lemma_overwrite_prefix(m0, address, bytes@, i as nat);
                    assert(self.physical@ == overwrite(m0, address, bytes@));
                }
                return Err(ExecutionError::MemoryAccessViolation { address: a });
            }
            self.physical.set(a as usize, bytes[i as usize]);
            i = i + 1;
        }
        assert(bytes@.subrange(0, n as int) =~= bytes@);
        Ok(n)
    }

    /// The eight-byte little-endian word at `address`.
    pub fn read_address(&self, address: u64) -> (r: Result<u64, ExecutionError>)
        ensures
            r == read_address_spec(self.physical@, address),
    {
        let bytes = self.read(address, 8)?;
        Ok(bytes_to_u64(bytes.as_slice()))
    }

    /// Writes `value` as eight little-endian bytes at `stack_ptr` and returns
    /// the stack pointer moved past them.
    pub fn push(&mut self, stack_ptr: u64, value: u64) -> (r: Result<u64, ExecutionError>)
        ensures
            final(self).physical@ == overwrite(old(self).physical@, stack_ptr, le_bytes(value, 8)),
            fits(old(self).physical@.len(), stack_ptr, 8) ==> r == Ok::<u64, ExecutionError>(
                (stack_ptr + 8) as u64,
            ),
            !fits(old(self).physical@.len(), stack_ptr, 8) ==> r == Err::<u64, ExecutionError>(
                ExecutionError::MemoryAccessViolation {
                    address: first_unreachable(old(self).physical@.len(), stack_ptr),
                },
            ),
            final(self).range == old(self).range,
            final(self).heap_size == old(self).heap_size,
            final(self).stack_size == old(self).stack_size,
            final(self).heap_start == old(self).heap_start,
            final(self).stack_start == old(self).stack_start,
            final(self).total_heap_allocations == old(self).total_heap_allocations,
    {
        let len = self.physical.len();
        let bytes = u64_to_le_bytes(value);
        let bytes_wrote = self.write(stack_ptr, bytes.as_slice())?;
        Ok(stack_ptr + bytes_wrote)
    }

    /// Reads the eight-byte word below `stack_ptr`; returns the lowered stack
    /// pointer and the word.
    pub fn pop(&self, stack_ptr: u64) -> (r: Result<(u64, u64), ExecutionError>)
        ensures
            stack_ptr < 8 ==> r == Err::<(u64, u64), ExecutionError>(
                ExecutionError::AddressOverflow,
            ),
            stack_ptr >= 8 ==> match read_address_spec(self.physical@, (stack_ptr - 8) as u64) {
                Ok(v) => r == Ok::<(u64, u64), ExecutionError>(((stack_ptr - 8) as u64, v)),
                Err(e) => r == Err::<(u64, u64), ExecutionError>(e),
            },
    {
        if stack_ptr < 8 {
            return Err(ExecutionError::AddressOverflow);
        }
        let ptr = stack_ptr - 8;
        let value = self.read_address(ptr)?;
        Ok((ptr, value))
    }

    /// Copies `n` bytes forward, one at a time, from `src` to `dest`.
    pub fn memcpy(&mut self, dest: u64, src: u64, n: u64) -> (r: Result<(), ExecutionError>)
        ensures
            (r, final(self).physical@) == memcpy_spec(old(self).physical@, dest, src, n),
            final(self).range == old(self).range,
            final(self).heap_size == old(self).heap_size,
            final(self).stack_size == old(self).stack_size,
            final(self).heap_start == old(self).heap_start,
            final(self).stack_start == old(self).stack_start,
            final(self).total_heap_allocations == old(self).total_heap_allocations,
    {
        let ghost m0 = self.physical@;
        let len_u = self.physical.len();
        let len = len_u as u64;
        let mut i: u64 = 0;
        while i < n
            invariant
                len == self.physical@.len(),
                len_u == self.physical@.len(),
                len == len_u,
                len == m0.len(),
                m0 == old(self).physical@,
                i <= n,
                i <= copy_reach(len as nat, dest, src, n as nat),
                self.physical@ == copy_bytes(m0, dest, src, i as nat),
                self.range == old(self).range,
                self.heap_size == old(self).heap_size,
                self.stack_size == old(self).stack_size,
                self.heap_start == old(self).heap_start,
                self.stack_start == old(self).stack_start,
                self.total_heap_allocations == old(self).total_heap_allocations,
            decreases n - i,
        {
            if src >= len || i >= len - src {
                return Err(ExecutionError::MemoryAccessViolation { address: src + i });
            }
            if dest >= len || i >= len - dest {
                return Err(ExecutionError::MemoryAccessViolation { address: dest + i });
            }
            let src_byte = self.physical[(src + i) as usize];
            self.physical.set((dest + i) as usize, src_byte);
            i = i + 1;
        }
        Ok(())
    }

    /// Sets the `n` bytes from `dest` on to `value`.  On failure the bytes
    /// before the end of memory have been set.
    pub fn memset(&mut self, dest: u64, value: u8, n: u64) -> (r: Result<(), ExecutionError>)
        ensures
            final(self).physical@ == overwrite(
                old(self).physical@,
                dest,
                Seq::new(n as nat, |i: int| value),
            ),
            fits(old(self).physical@.len(), dest, n as nat) ==> r == Ok::<(), ExecutionError>(()),
            !fits(old(self).physical@.len(), dest, n as nat) ==> r == Err::<(), ExecutionError>(
                ExecutionError::MemoryAccessViolation {
                    address: first_unreachable(old(self).physical@.len(), dest),
                },
            ),
            final(self).range == old(self).range,
            final(self).heap_size == old(self).heap_size,
            final(self).stack_size == old(self).stack_size,
            final(self).heap_start == old(self).heap_start,
            final(self).stack_start == old(self).stack_start,
            final(self).total_heap_allocations == old(self).total_heap_allocations,
    {
        let ghost m0 = self.physical@;
        let ghost fill = Seq::new(n as nat, |i: int| value);
        let len_u = self.physical.len();
        let len = len_u as u64;
        let mut i: u64 = 0;
        while i < n
            invariant
                len == self.physical@.len(),
                len_u == self.physical@.len(),
                len == len_u,
                len == m0.len(),
                m0 == old(self).physical@,
                fill.len() == n,
                forall|j: int| 0 <= j < n ==> fill[j] == value,
                i <= n,
                i == 0 || dest + i <= len,
                self.physical@ =~= overwrite(m0, dest, fill.subrange(0, i as int)),
                self.range == old(self).range,
                self.heap_size == old(self).heap_size,
                self.stack_size == old(self).stack_size,
                self.heap_start == old(self).heap_start,
                self.stack_start == old(self).stack_start,
                self.total_heap_allocations == old(self).total_heap_allocations,
            decreases n - i,
        {
            let a = dest + i;
            if a >= len {
                proof {
                    lemma_overwrite_prefix(m0, dest, fill, i as nat);
                }
                return Err(ExecutionError::MemoryAccessViolation { address: a });
            }
            self.physical.set(a as usize, value);
            i = i + 1;
        }
        assert(fill.subrange(0, n as int) =~= fill);
        Ok(())
    }
}

/// A byte written at an address is what a read there gives back, and no other
/// byte changes.
pub proof fn law_write_byte_read_byte(m: Seq<u8>, address: u64, value: u8, other: u64)
    requires
        address < m.len(),
        other < m.len(),
        other != address,
    ensures
        m.update(address as int, value)[address as int] == value,
        m.update(address as int, value)[other as int] == m[other as int],
{
}

/// Bytes written inside memory are what a read of the same range gives back.
pub proof fn law_write_then_read(m: Seq<u8>, address: u64, bytes: Seq<u8>)
    requires
        m.len() <= u64::MAX,
        fits(m.len(), address, bytes.len()),
    ensures
        read_spec(overwrite(m, address, bytes), address, bytes.len()) == Ok::<
            Seq<u8>,
            ExecutionError,
        >(bytes),
        write_spec(m, address, bytes) == Ok::<u64, ExecutionError>(bytes.len() as u64),
{
    if bytes.len() > 0 {
        assert(overwrite(m, address, bytes).subrange(address as int, address + bytes.len())
            =~= bytes);
    } else {
        assert(bytes =~= Seq::<u8>::empty());
    }
}

/// A write leaves every byte outside the written range as it was.
pub proof fn law_write_frame(m: Seq<u8>, address: u64, bytes: Seq<u8>, other: int)
    requires
        0 <= other < m.len(),
        other < address || other >= address + bytes.len(),
    ensures
        overwrite(m, address, bytes)[other] == m[other],
        overwrite(m, address, bytes).len() == m.len(),
{
}

/// A word pushed at a stack pointer is popped back from the pointer that the
/// push returned, and that pop returns the stack pointer the push started from.
pub proof fn law_push_then_pop(m: Seq<u8>, sp: u64, value: u64)
    requires
        m.len() <= u64::MAX,
        fits(m.len(), sp, 8),
    ensures
        sp + 8 >= 8,
        read_address_spec(overwrite(m, sp, le_bytes(value, 8)), sp) == Ok::<u64, ExecutionError>(
            value,
        ),
{
    lemma_u64_le_roundtrip(value);
    law_write_then_read(m, sp, le_bytes(value, 8));
}

/// Copying between ranges that do not overlap gives the destination the
/// source's bytes.
pub proof fn law_memcpy_disjoint(m: Seq<u8>, dest: u64, src: u64, n: nat, i: nat)
    requires
        src + n <= m.len(),
        dest + n <= m.len(),
        src + n <= dest || dest + n <= src,
        i < n,
    ensures
        copy_bytes(m, dest, src, n)[dest + i] == m[src + i],
        copy_bytes(m, dest, src, n).len() == m.len(),
    decreases n,
{
    lemma_copy_bytes_frame(m, dest, src, n);
    if i + 1 < n {
        law_memcpy_disjoint(m, dest, src, (n - 1) as nat, i);
    }
    lemma_copy_bytes_frame(m, dest, src, (n - 1) as nat);
}

/// Copying `n` bytes keeps the length and leaves bytes outside the destination
/// range alone.
pub proof fn lemma_copy_bytes_frame(m: Seq<u8>, dest: u64, src: u64, n: nat)
    requires
        dest + n <= m.len(),
        src + n <= m.len(),
    ensures
        copy_bytes(m, dest, src, n).len() == m.len(),
        forall|j: int|
            0 <= j < m.len() && (j < dest || j >= dest + n) ==> #[trigger] copy_bytes(
                m,
                dest,
                src,
                n,
            )[j] == m[j],
    decreases n,
{
    if n > 0 {
        lemma_copy_bytes_frame(m, dest, src, (n - 1) as nat);
    }
}

} // verus!
