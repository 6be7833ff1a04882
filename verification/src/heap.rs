//! The heap allocator.  The heap is a list of blocks threaded through
//! memory: the nine bytes in front of a block's pointer hold its node, one
//! byte that says whether the block is allocated (1) or free (0), then the
//! eight-byte little-endian pointer of the next block.  A block reaches from
//! its pointer to nine bytes before the next block's pointer.  The list ends
//! at a node whose next pointer is 0; the stack's node, which is allocated,
//! is that last node.
use vstd::prelude::*;
use vstd::wrapping::u64_specs;

use crate::bytes::{le_bytes, u64_to_le_bytes};
use crate::error::ExecutionError;
use crate::heap_shape::{
    allocated_at, free_block_fits, heap_wf, law_free_keeps_heap_well_formed,
    law_malloc_fails_only_out_of_memory, law_malloc_keeps_allocated_blocks,
    law_malloc_keeps_block_contents,
    law_malloc_keeps_heap_well_formed, law_realloc_keeps_contents,
    law_realloc_keeps_heap_well_formed, next_of, on_list, resized_to,
};
use crate::memory::{memcpy_spec, overwrite, read_address_spec, write_spec, Memory};

verus! {

/// Bytes between a block's pointer and its node.
pub const HPA_NODE_DATA_OFFSET: u64 = 9;

/// The next pointer that ends the block list.
pub const HPA_TAIL_SENTINEL_ADDRESS: u64 = 0;

/// The nine bytes of a node.
pub open spec fn node_bytes(is_allocated: bool, next: u64) -> Seq<u8> {
    seq![if is_allocated { 1u8 } else { 0u8 }] + le_bytes(next, 8)
}

/// Reading the node of the block at `ptr`: its allocation flag and next
/// pointer.
pub open spec fn read_node_spec(m: Seq<u8>, ptr: u64) -> Result<(bool, u64), ExecutionError> {
    if ptr < 9 {
        Err(ExecutionError::AddressOverflow)
    } else if ptr - 9 >= m.len() {
        Err(ExecutionError::MemoryAccessViolation { address: (ptr - 9) as u64 })
    } else if m[ptr - 9] > 1 {
        Err(ExecutionError::CorruptAllocationFlag { ptr })
    } else {
        match read_address_spec(m, (ptr - 8) as u64) {
            Ok(next) => Ok((m[ptr - 9] == 1, next)),
            Err(e) => Err(e),
        }
    }
}

/// Writing the node of the block at `ptr`.
pub open spec fn write_node_spec(m: Seq<u8>, ptr: u64, next: u64, is_allocated: bool) -> (
    Result<(), ExecutionError>,
    Seq<u8>,
) {
    if ptr < 9 {
        (Err(ExecutionError::AddressOverflow), m)
    } else {
        let bytes = node_bytes(is_allocated, next);
        (
            match write_spec(m, (ptr - 9) as u64, bytes) {
                Ok(_) => Ok(()),
                Err(e) => Err(e),
            },
            overwrite(m, (ptr - 9) as u64, bytes),
        )
    }
}

/// Writing only the allocation flag of the block at `ptr`.
pub open spec fn write_flag_spec(m: Seq<u8>, ptr: u64, is_allocated: bool) -> (
    Result<(), ExecutionError>,
    Seq<u8>,
) {
    if ptr < 9 {
        (Err(ExecutionError::AddressOverflow), m)
    } else if ptr - 9 >= m.len() {
        (Err(ExecutionError::MemoryAccessViolation { address: (ptr - 9) as u64 }), m)
    } else {
        (Ok(()), m.update(ptr - 9, if is_allocated { 1u8 } else { 0u8 }))
    }
}

/// The size of the block at `ptr` whose next block is at `next_ptr`.
pub open spec fn block_size_spec(ptr: u64, next_ptr: u64) -> Option<u64> {
    if next_ptr < 9 || next_ptr - 9 < ptr {
        None
    } else {
        Some((next_ptr - 9 - ptr) as u64)
    }
}

/// Walks the block list from `ptr` and picks the candidate block for an
/// allocation of `size` bytes: a free block of at least `size` bytes whose
/// size is below the pointer of the candidate chosen so far (below
/// `u64::MAX` while there is none).
pub open spec fn candidate_walk(m: Seq<u8>, ptr: u64, size: u64, cand: Option<u64>) -> Result<
    Option<u64>,
    ExecutionError,
>
    decreases u64::MAX - ptr,
{
    match read_node_spec(m, ptr) {
        Err(e) => Err(e),
        Ok((is_allocated, next)) => {
            if next == 0 {
                Ok(cand)
            } else if is_allocated {
                if next <= ptr {
                    Err(ExecutionError::CorruptHeapLink { ptr })
                } else {
                    candidate_walk(m, next, size, cand)
                }
            } else {
                match block_size_spec(ptr, next) {
                    None => Err(ExecutionError::AddressOverflow),
                    Some(csize) => {
                        let former = match cand {
                            Some(n) => n,
                            None => u64::MAX,
                        };
                        let cand2 = if csize >= size && csize < former {
                            Some(ptr)
                        } else {
                            cand
                        };
                        candidate_walk(m, next, size, cand2)
                    },
                }
            }
        },
    }
}

/// Merging the block at `current` with a free block after it.  With
/// `skip_allocated_blocks` it moves on past allocated neighbours until it
/// merges once or reaches the end of the list; the node that ends the list
/// has nothing after it to merge.
pub open spec fn defragment_spec(m: Seq<u8>, current: u64, skip_allocated_blocks: bool) -> (
    Result<(), ExecutionError>,
    Seq<u8>,
)
    decreases u64::MAX - current,
{
    match read_node_spec(m, current) {
        Err(e) => (Err(e), m),
        Ok((current_is_allocated, current_next)) => if current_next == 0 {
            (Ok(()), m)
        } else {
            match read_node_spec(m, current_next) {
                Err(e) => (Err(e), m),
                Ok((next_is_allocated, next_next)) => {
                    if next_is_allocated {
                        if skip_allocated_blocks && next_next != 0 {
                            if next_next <= current {
                                (Err(ExecutionError::CorruptHeapLink { ptr: current }), m)
                            } else {
                                defragment_spec(m, next_next, skip_allocated_blocks)
                            }
                        } else {
                            (Ok(()), m)
                        }
                    } else {
                        write_node_spec(m, current, next_next, current_is_allocated)
                    }
                },
            }
        },
    }
}

/// Finding a block for `size` bytes: a walk of the list, and when it finds
/// none, a defragmentation of the whole heap and a second walk.
pub open spec fn candidate_spec(m: Seq<u8>, heap_start: u64, size: u64) -> (
    Result<u64, ExecutionError>,
    Seq<u8>,
) {
    match candidate_walk(m, heap_start, size, None) {
        Err(e) => (Err(e), m),
        Ok(Some(p)) => (Ok(p), m),
        Ok(None) => {
            let (dr, m2) = defragment_spec(m, heap_start, true);
            match dr {
                Err(e) => (Err(e), m2),
                Ok(_) => match candidate_walk(m2, heap_start, size, None) {
                    Err(e) => (Err(e), m2),
                    Ok(Some(p)) => (Ok(p), m2),
                    Ok(None) => (Err(ExecutionError::OutOfMemory { size }), m2),
                },
            }
        },
    }
}

/// Whether a block from `ptr` whose node-free end is the node at `end` holds
/// `size` bytes.
pub open spec fn fits_in(ptr: u64, size: u64, end: u64) -> bool {
    ptr + size + 9 <= end
}

/// Whether a block from `ptr` up to the node at `end` holds `size` bytes and
/// the node of a free block after them.
pub open spec fn leaves_room(ptr: u64, size: u64, end: u64) -> bool {
    ptr + size + 18 <= end
}

/// Taking `size` bytes of the block at `ptr` that reaches up to the node at
/// `end`.  Where the block has room for another node after those bytes it is
/// split: an allocated block of exactly `size` bytes, then a free block up
/// to `end`.  Otherwise the whole block is marked allocated and linked to
/// `end`.
pub open spec fn place_spec(m: Seq<u8>, ptr: u64, size: u64, end: u64) -> (
    Result<(), ExecutionError>,
    Seq<u8>,
) {
    if leaves_room(ptr, size, end) {
        let new_node = (ptr + size + 9) as u64;
        let (w1, m1) = write_node_spec(m, ptr, new_node, true);
        match w1 {
            Err(e) => (Err(e), m1),
            Ok(_) => write_node_spec(m1, new_node, end, false),
        }
    } else {
        write_node_spec(m, ptr, end, true)
    }
}

/// Allocating `size` bytes: the candidate block is placed (split where it
/// has room for a free block after the requested bytes, taken whole where it
/// has not) and its pointer returned.
pub open spec fn malloc_spec(m: Seq<u8>, heap_start: u64, size: u64) -> (
    Result<u64, ExecutionError>,
    Seq<u8>,
) {
    let (cr, m1) = candidate_spec(m, heap_start, size);
    match cr {
        Err(e) => (Err(e), m1),
        Ok(ptr) => match read_node_spec(m1, ptr) {
            Err(e) => (Err(e), m1),
            Ok((_, old_next)) => {
                let (w, m2) = place_spec(m1, ptr, size, old_next);
                match w {
                    Err(e) => (Err(e), m2),
                    Ok(_) => (Ok(ptr), m2),
                }
            },
        },
    }
}

/// Freeing the block at `ptr`: it is marked free and merged with a free
/// block right after it.
pub open spec fn free_spec(m: Seq<u8>, ptr: u64) -> (Result<(), ExecutionError>, Seq<u8>) {
    let (w, m1) = write_flag_spec(m, ptr, false);
    match w {
        Err(e) => (Err(e), m1),
        Ok(_) => defragment_spec(m1, ptr, false),
    }
}

/// Growing the block at `ptr` by moving it: a new block, the old contents
/// copied over, the old block marked free.
pub open spec fn realloc_move_spec(
    m: Seq<u8>,
    heap_start: u64,
    ptr: u64,
    current_size: u64,
    new_size: u64,
) -> (Result<u64, ExecutionError>, Seq<u8>) {
    let (mr, m1) = malloc_spec(m, heap_start, new_size);
    match mr {
        Err(e) => (Err(e), m1),
        Ok(new_ptr) => {
            let (cr, m2) = memcpy_spec(m1, new_ptr, ptr, current_size);
            match cr {
                Err(e) => (Err(e), m2),
                Ok(_) => {
                    let (fr, m3) = write_flag_spec(m2, ptr, false);
                    match fr {
                        Err(e) => (Err(e), m3),
                        Ok(_) => (Ok(new_ptr), m3),
                    }
                },
            }
        },
    }
}

/// Where a block at `ptr` may reach when it is resized in place: up to its
/// next block when that is allocated, and over it to the block after it when
/// it is free.
pub open spec fn in_place_end(next: u64, next_is_allocated: bool, next_next: u64) -> u64 {
    if next_is_allocated {
        next
    } else {
        next_next
    }
}

/// Resizing the block at `ptr` to `new_size` bytes.  The same size keeps the
/// block as it is.  Otherwise, where `new_size` bytes fit between `ptr` and
/// the end that an in-place resize may reach (see `in_place_end`), the block
/// is placed there again, keeping its pointer; where they do not fit, the
/// block moves.
pub open spec fn realloc_spec(m: Seq<u8>, heap_start: u64, ptr: u64, new_size: u64) -> (
    Result<u64, ExecutionError>,
    Seq<u8>,
) {
    match read_node_spec(m, ptr) {
        Err(e) => (Err(e), m),
        Ok((_, current_next)) => match read_node_spec(m, current_next) {
            Err(e) => (Err(e), m),
            Ok((next_is_allocated, next_next)) => match block_size_spec(ptr, current_next) {
                None => (Err(ExecutionError::AddressOverflow), m),
                Some(current_size) => {
                    let end = in_place_end(current_next, next_is_allocated, next_next);
                    if current_size == new_size {
                        (Ok(ptr), m)
                    } else if fits_in(ptr, new_size, end) {
                        let (w, m1) = place_spec(m, ptr, new_size, end);
                        match w {
                            Err(e) => (Err(e), m1),
                            Ok(_) => (Ok(ptr), m1),
                        }
                    } else {
                        realloc_move_spec(m, heap_start, ptr, current_size, new_size)
                    }
                },
            },
        },
    }
}

/// Whether resizing the block at `ptr` to `new_size` bytes moves it, that
/// is, allocates a new block (which counts as an allocation).
pub open spec fn realloc_moves(m: Seq<u8>, ptr: u64, new_size: u64) -> bool {
    match read_node_spec(m, ptr) {
        Err(_) => false,
        Ok((_, current_next)) => match read_node_spec(m, current_next) {
            Err(_) => false,
            Ok((next_is_allocated, next_next)) => match block_size_spec(ptr, current_next) {
                None => false,
                Some(current_size) => current_size != new_size && !fits_in(
                    ptr,
                    new_size,
                    in_place_end(current_next, next_is_allocated, next_next),
                ),
            },
        },
    }
}

/// The size of the block at `ptr` whose next block is at `next_ptr`; `None`
/// when the next block does not lie at least nine bytes after `ptr`.
pub fn hpa_block_size(ptr: u64, next_ptr: u64) -> (r: Option<u64>)
    ensures
        r == block_size_spec(ptr, next_ptr),
{
    if next_ptr < HPA_NODE_DATA_OFFSET || next_ptr - HPA_NODE_DATA_OFFSET < ptr {
        None
    } else {
        Some(next_ptr - HPA_NODE_DATA_OFFSET - ptr)
    }
}

impl Memory {
    /// Reads the node of the block at `ptr`.
    pub fn hpa_read_hpa_node(&self, ptr: u64) -> (r: Result<(bool, u64), ExecutionError>)
        ensures
            r == read_node_spec(self.physical@, ptr),
    {
        if ptr < HPA_NODE_DATA_OFFSET {
            return Err(ExecutionError::AddressOverflow);
        }
        let is_allocated_ptr = ptr - HPA_NODE_DATA_OFFSET;
        let next_ptr = is_allocated_ptr + 1;
        let flag = self.read_byte(is_allocated_ptr)?;
        let is_allocated: bool = match flag {
            0 => false,
            1 => true,
            _ => {
                return Err(ExecutionError::CorruptAllocationFlag { ptr });
            },
        };
        let next = self.read_address(next_ptr)?;
        Ok((is_allocated, next))
    }

    /// Writes the node of the block at `ptr`.
    pub fn hpa_write_hpa_node(&mut self, ptr: u64, next: u64, is_allocated: bool) -> (r: Result<
        (),
        ExecutionError,
    >)
        ensures
            (r, final(self).physical@) == write_node_spec(old(self).physical@, ptr, next, is_allocated),
            crate::cpu::same_layout(*final(self), *old(self)),
    {
        if ptr < HPA_NODE_DATA_OFFSET {
            return Err(ExecutionError::AddressOverflow);
        }
        let ghost m0 = self.physical@;
        let ghost bytes = node_bytes(is_allocated, next);
        let is_allocated_ptr = ptr - HPA_NODE_DATA_OFFSET;
        let next_ptr = is_allocated_ptr + 1;
        let len = self.physical.len();
        match self.write_byte(is_allocated_ptr, if is_allocated { 1 } else { 0 }) {
            Ok(()) => {},
            Err(e) => {
                assert(self.physical@ =~= overwrite(m0, is_allocated_ptr, bytes));
                return Err(e);
            },
        }
        let ghost m1 = self.physical@;
        let next_bytes = u64_to_le_bytes(next);
        let res = self.write(next_ptr, next_bytes.as_slice());
        assert(self.physical@ =~= overwrite(m0, is_allocated_ptr, bytes));
        match res {
            Ok(_) => Ok(()),
            Err(e) => Err(e),
        }
    }

    /// Writes only the allocation flag of the block at `ptr`.
    pub fn hpa_write_hpa_node_allocation_status(&mut self, ptr: u64, is_allocated: bool) -> (r:
        Result<(), ExecutionError>)
        ensures
            (r, final(self).physical@) == write_flag_spec(old(self).physical@, ptr, is_allocated),
            crate::cpu::same_layout(*final(self), *old(self)),
    {
        if ptr < HPA_NODE_DATA_OFFSET {
            return Err(ExecutionError::AddressOverflow);
        }
        let is_allocated_ptr = ptr - HPA_NODE_DATA_OFFSET;
        self.write_byte(is_allocated_ptr, if is_allocated { 1 } else { 0 })
    }

    /// Walks the block list from the start of the heap and returns the
    /// candidate block for `size` bytes, if there is one.
    pub fn hpa_get_allocation_canditate_internal(&self, size: u64) -> (r: Result<
        Option<u64>,
        ExecutionError,
    >)
        ensures
            r == candidate_walk(self.physical@, self.heap_start, size, None),
    {
        let mut ptr = self.heap_start;
        let mut canditate: Option<u64> = None;
        loop
            invariant
                candidate_walk(self.physical@, ptr, size, canditate) == candidate_walk(
                    self.physical@,
                    self.heap_start,
                    size,
                    None,
                ),
            decreases u64::MAX - ptr,
        {
            let (current_is_allocated, current_next) = self.hpa_read_hpa_node(ptr)?;
            if current_next == HPA_TAIL_SENTINEL_ADDRESS {
                return Ok(canditate);
            }
            if current_is_allocated {
                if current_next <= ptr {
                    return Err(ExecutionError::CorruptHeapLink { ptr });
                }
                ptr = current_next;
                continue;
            }
            let canditate_size = match hpa_block_size(ptr, current_next) {
                Some(n) => n,
                None => {
                    return Err(ExecutionError::AddressOverflow);
                },
            };
            let former_canditate_size = match canditate {
                Some(n) => n,
                None => u64::MAX,
            };
            if canditate_size >= size && canditate_size < former_canditate_size {
                canditate = Some(ptr);
            }
            ptr = current_next;
        }
    }

    /// Merges the block at `current_ptr` with a free block after it; with
    /// `skip_allocated_blocks` it first moves past allocated neighbours.
    pub fn hpa_defragment(&mut self, current_ptr: u64, skip_allocated_blocks: bool) -> (r: Result<
        (),
        ExecutionError,
    >)
        ensures
            (r, final(self).physical@) == defragment_spec(
                old(self).physical@,
                current_ptr,
                skip_allocated_blocks,
            ),
            crate::cpu::same_layout(*final(self), *old(self)),
        decreases u64::MAX - current_ptr,
    {
        let (current_is_allocated, current_next) = self.hpa_read_hpa_node(current_ptr)?;
        if current_next == HPA_TAIL_SENTINEL_ADDRESS {
            return Ok(());
        }
        let (next_is_allocated, next_next) = self.hpa_read_hpa_node(current_next)?;
        if next_is_allocated {
            if skip_allocated_blocks && next_next != HPA_TAIL_SENTINEL_ADDRESS {
                if next_next <= current_ptr {
                    return Err(ExecutionError::CorruptHeapLink { ptr: current_ptr });
                }
                self.hpa_defragment(next_next, skip_allocated_blocks)?;
            }
            Ok(())
        } else {
            self.hpa_write_hpa_node(current_ptr, next_next, current_is_allocated)
        }
    }

    /// A block for `size` bytes, defragmenting the heap once when the first
    /// walk finds none.
    pub fn hpa_get_allocation_canditate(&mut self, size: u64) -> (r: Result<u64, ExecutionError>)
        ensures
            (r, final(self).physical@) == candidate_spec(old(self).physical@, old(self).heap_start, size),
            crate::cpu::same_layout(*final(self), *old(self)),
    {
        if let Some(final_canditate) = self.hpa_get_allocation_canditate_internal(size)? {
            Ok(final_canditate)
        } else {
            let heap_start = self.heap_start;
            self.hpa_defragment(heap_start, true)?;
            if let Some(final_canditate) = self.hpa_get_allocation_canditate_internal(size)? {
                Ok(final_canditate)
            } else {
                Err(ExecutionError::OutOfMemory { size })
            }
        }
    }

    /// Takes `size` bytes of the block at `ptr` that reaches up to the node
    /// at `end`: splits it where a free block fits after those bytes, and
    /// takes it whole where none does.
    fn hpa_place(&mut self, ptr: u64, size: u64, end: u64) -> (r: Result<(), ExecutionError>)
        ensures
            (r, final(self).physical@) == place_spec(old(self).physical@, ptr, size, end),
            crate::cpu::same_layout(*final(self), *old(self)),
    {
        if end >= 2 * HPA_NODE_DATA_OFFSET && ptr <= end - 2 * HPA_NODE_DATA_OFFSET && size <= end
            - 2 * HPA_NODE_DATA_OFFSET - ptr {
            let new_node_ptr = ptr + size + HPA_NODE_DATA_OFFSET;
            self.hpa_write_hpa_node(ptr, new_node_ptr, true)?;
            self.hpa_write_hpa_node(new_node_ptr, end, false)
        } else {
            self.hpa_write_hpa_node(ptr, end, true)
        }
    }

    /// Allocates a block of `size` bytes and returns its pointer.
    pub fn malloc(&mut self, size: u64) -> (r: Result<u64, ExecutionError>)
        ensures
            (r, final(self).physical@) == malloc_spec(old(self).physical@, old(self).heap_start, size),
            final(self).total_heap_allocations == u64_specs::wrapping_add(
                old(self).total_heap_allocations,
                1,
            ),
            final(self).heap_start == old(self).heap_start,
            final(self).stack_start == old(self).stack_start,
            final(self).heap_size == old(self).heap_size,
            final(self).stack_size == old(self).stack_size,
            final(self).range == old(self).range,
            heap_wf(old(self).physical@, old(self).heap_start, old(self).stack_start) ==> heap_wf(
                final(self).physical@,
                final(self).heap_start,
                final(self).stack_start,
            ),
            heap_wf(old(self).physical@, old(self).heap_start, old(self).stack_start) ==> (r matches Ok(
                p,
            ) ==> (on_list(final(self).physical@, final(self).heap_start, final(self).stack_start, p)
                && p < final(self).stack_start && (read_node_spec(final(self).physical@, p) matches Ok(
                (true, n),
            ) && p + size + 9 <= n))),
            heap_wf(old(self).physical@, old(self).heap_start, old(self).stack_start) && r is Err
                ==> r == Err::<u64, ExecutionError>(ExecutionError::OutOfMemory { size }) && forall|
                p: u64,
            |
                on_list(old(self).physical@, old(self).heap_start, old(self).stack_start, p) && p
                    < old(self).stack_start ==> !#[trigger] free_block_fits(old(self).physical@, p, size),
            heap_wf(old(self).physical@, old(self).heap_start, old(self).stack_start) ==> forall|
                q: u64,
                j: int,
            |
                #![trigger allocated_at(old(self).physical@, q), final(self).physical@[j]]
                on_list(old(self).physical@, old(self).heap_start, old(self).stack_start, q) && q
                    < old(self).stack_start && allocated_at(old(self).physical@, q) && q <= j
                    < next_of(old(self).physical@, q) - 9 ==> final(self).physical@[j]
                    == old(self).physical@[j],
            heap_wf(old(self).physical@, old(self).heap_start, old(self).stack_start) ==> forall|
                q: u64,
            |
                on_list(old(self).physical@, old(self).heap_start, old(self).stack_start, q)
                    && #[trigger] allocated_at(old(self).physical@, q) ==> on_list(
                    final(self).physical@,
                    final(self).heap_start,
                    final(self).stack_start,
                    q,
                ) && allocated_at(final(self).physical@, q),
    {
        proof {
            let m0 = self.physical@;
            let hs = self.heap_start;
            let ss = self.stack_start;
            if heap_wf(m0, hs, ss) {
                law_malloc_keeps_heap_well_formed(m0, hs, ss, size);
                law_malloc_fails_only_out_of_memory(m0, hs, ss, size);
                assert forall|q: u64, j: int|
                    #![trigger allocated_at(m0, q), malloc_spec(m0, hs, size).1[j]]
                    on_list(m0, hs, ss, q) && q < ss && allocated_at(m0, q) && q <= j < next_of(m0, q)
                        - 9 implies malloc_spec(m0, hs, size).1[j] == m0[j] by {
                    law_malloc_keeps_block_contents(m0, hs, ss, size, q);
                }
                assert forall|q: u64| on_list(m0, hs, ss, q) && #[trigger] allocated_at(m0, q) implies on_list(
                    malloc_spec(m0, hs, size).1,
                    hs,
                    ss,
                    q,
                ) && allocated_at(malloc_spec(m0, hs, size).1, q) by {
                    law_malloc_keeps_allocated_blocks(m0, hs, ss, size, q);
                }
            }
        }
        self.total_heap_allocations = self.total_heap_allocations.wrapping_add(1);
        let ptr = self.hpa_get_allocation_canditate(size)?;
        let (_, old_next) = self.hpa_read_hpa_node(ptr)?;
        self.hpa_place(ptr, size, old_next)?;
        Ok(ptr)
    }

    /// Frees the block at `ptr`.
    pub fn free(&mut self, ptr: u64) -> (r: Result<(), ExecutionError>)
        ensures
            (r, final(self).physical@) == free_spec(old(self).physical@, ptr),
            final(self).total_heap_allocations == u64_specs::wrapping_sub(
                old(self).total_heap_allocations,
                1,
            ),
            final(self).heap_start == old(self).heap_start,
            final(self).stack_start == old(self).stack_start,
            final(self).heap_size == old(self).heap_size,
            final(self).stack_size == old(self).stack_size,
            final(self).range == old(self).range,
            heap_wf(old(self).physical@, old(self).heap_start, old(self).stack_start) && on_list(
                old(self).physical@,
                old(self).heap_start,
                old(self).stack_start,
                ptr,
            ) && ptr < old(self).stack_start ==> r is Ok && heap_wf(
                final(self).physical@,
                final(self).heap_start,
                final(self).stack_start,
            ),
    {
        proof {
            if heap_wf(self.physical@, self.heap_start, self.stack_start) && on_list(
                self.physical@,
                self.heap_start,
                self.stack_start,
                ptr,
            ) && ptr < self.stack_start {
                law_free_keeps_heap_well_formed(self.physical@, self.heap_start, self.stack_start, ptr);
            }
        }
        self.total_heap_allocations = self.total_heap_allocations.wrapping_sub(1);
        self.hpa_write_hpa_node_allocation_status(ptr, false)?;
        self.hpa_defragment(ptr, false)?;
        Ok(())
    }

    /// Resizes the block at `ptr` to `new_size` bytes and returns its pointer,
    /// which changes when the block has to move.
    pub fn realloc(&mut self, ptr: u64, new_size: u64) -> (r: Result<u64, ExecutionError>)
        ensures
            (r, final(self).physical@) == realloc_spec(
                old(self).physical@,
                old(self).heap_start,
                ptr,
                new_size,
            ),
            final(self).total_heap_allocations == (if realloc_moves(
                old(self).physical@,
                ptr,
                new_size,
            ) {
                u64_specs::wrapping_add(old(self).total_heap_allocations, 1)
            } else {
                old(self).total_heap_allocations
            }),
            final(self).heap_start == old(self).heap_start,
            final(self).stack_start == old(self).stack_start,
            final(self).heap_size == old(self).heap_size,
            final(self).stack_size == old(self).stack_size,
            final(self).range == old(self).range,
            heap_wf(old(self).physical@, old(self).heap_start, old(self).stack_start) && on_list(
                old(self).physical@,
                old(self).heap_start,
                old(self).stack_start,
                ptr,
            ) && ptr < old(self).stack_start && allocated_at(old(self).physical@, ptr) ==> heap_wf(
                final(self).physical@,
                final(self).heap_start,
                final(self).stack_start,
            ) && (!realloc_moves(old(self).physical@, ptr, new_size) ==> r == Ok::<
                u64,
                ExecutionError,
            >(ptr)) && (r matches Ok(q) ==> resized_to(
                old(self).physical@,
                final(self).physical@,
                old(self).heap_start,
                old(self).stack_start,
                ptr,
                next_of(old(self).physical@, ptr) - 9 - ptr,
                new_size,
                q,
            )),
    {
        proof {
            if heap_wf(self.physical@, self.heap_start, self.stack_start) && on_list(
                self.physical@,
                self.heap_start,
                self.stack_start,
                ptr,
            ) && ptr < self.stack_start && allocated_at(self.physical@, ptr) {
                law_realloc_keeps_heap_well_formed(
                    self.physical@,
                    self.heap_start,
                    self.stack_start,
                    ptr,
                    new_size,
                );
                law_realloc_keeps_contents(
                    self.physical@,
                    self.heap_start,
                    self.stack_start,
                    ptr,
                    new_size,
                );
            }
        }
        let (_, current_next_ptr) = self.hpa_read_hpa_node(ptr)?;
        let (next_is_allocated, next_next) = self.hpa_read_hpa_node(current_next_ptr)?;
        let current_size = match hpa_block_size(ptr, current_next_ptr) {
            Some(n) => n,
            None => {
                return Err(ExecutionError::AddressOverflow);
            },
        };
        if current_size == new_size {
            return Ok(ptr);
        }
        let end = if next_is_allocated {
            current_next_ptr
        } else {
            next_next
        };
        if end >= HPA_NODE_DATA_OFFSET && ptr <= end - HPA_NODE_DATA_OFFSET && new_size <= end
            - HPA_NODE_DATA_OFFSET - ptr {
            self.hpa_place(ptr, new_size, end)?;
            return Ok(ptr);
        }
        let new_ptr = self.malloc(new_size)?;
        self.memcpy(new_ptr, ptr, current_size)?;
        self.hpa_write_hpa_node_allocation_status(ptr, false)?;
        Ok(new_ptr)
    }

    /// Lays out memory for an image: the image, then `heap_size + stack_size`
    /// bytes of the uninitialized pattern, appended to the bytes already
    /// there; then writes the free heap node and the stack's node.
    pub fn load(&mut self, image: Vec<u8>) -> (r: Result<(), ExecutionError>)
        requires
            image@.len() + old(self).heap_size + old(self).stack_size <= u64::MAX,
            image@.len() + old(self).heap_size + 18 <= u64::MAX,
        ensures
            ({
                let i = image@.len();
                let h = old(self).heap_size;
                let s = old(self).stack_size;
                let heap_start = (i + 9) as u64;
                let stack_start = (i + h + 18) as u64;
                &&& (r, final(self).physical@) == load_spec(old(self).physical@, image@, h, s)
                &&& final(self).range == i + h + s
                &&& final(self).heap_start == heap_start
                &&& final(self).stack_start == stack_start
                &&& (r is Ok <==> old(self).physical@.len() + s >= 18)
            }),
            final(self).heap_size == old(self).heap_size,
            final(self).stack_size == old(self).stack_size,
            final(self).total_heap_allocations == old(self).total_heap_allocations,
    {
        let image_size = image.len() as u64;
        self.range = image_size + self.heap_size + self.stack_size;
        let mut k: usize = 0;
        let ghost p0 = self.physical@;
        while k < image.len()
            invariant
                k <= image@.len(),
                self.physical@ =~= p0 + image@.subrange(0, k as int),
                self.heap_size == old(self).heap_size,
                self.stack_size == old(self).stack_size,
                self.total_heap_allocations == old(self).total_heap_allocations,
                self.range == image@.len() + self.heap_size + self.stack_size,
            decreases image@.len() - k,
        {
            self.physical.push(image[k]);
            k = k + 1;
        }
        let fill = self.heap_size + self.stack_size;
        let mut j: u64 = 0;
        while j < fill
            invariant
                j <= fill,
                fill == self.heap_size + self.stack_size,
                self.physical@ =~= p0 + image@ + Seq::new(
                    j as nat,
                    |x: int| crate::constant::UNINITIALIZED_MEMORY,
                ),
                self.heap_size == old(self).heap_size,
                self.stack_size == old(self).stack_size,
                self.total_heap_allocations == old(self).total_heap_allocations,
                self.range == image@.len() + self.heap_size + self.stack_size,
            decreases fill - j,
        {
            self.physical.push(crate::constant::UNINITIALIZED_MEMORY);
            j = j + 1;
        }
        self.heap_start = image_size + HPA_NODE_DATA_OFFSET;
        self.stack_start = self.heap_start + self.heap_size + HPA_NODE_DATA_OFFSET;
        let heap_start = self.heap_start;
        let stack_start = self.stack_start;
        let ghost base = self.physical@;
        assert(base =~= loaded_bytes(p0, image@, self.heap_size, self.stack_size));
        self.hpa_write_hpa_node(heap_start, stack_start, false)?;
        self.hpa_write_hpa_node(stack_start, HPA_TAIL_SENTINEL_ADDRESS, true)?;
        Ok(())
    }
}

/// The bytes of memory after an image is appended and the heap and stack are
/// filled with the uninitialized pattern.
pub open spec fn loaded_bytes(p: Seq<u8>, image: Seq<u8>, heap: u64, stack: u64) -> Seq<u8> {
    p + image + Seq::new((heap + stack) as nat, |x: int| crate::constant::UNINITIALIZED_MEMORY)
}

/// The outcome and memory bytes of loading `image` into memory `p` with the
/// given heap and stack sizes: the bytes laid out, then the free heap node
/// linked to the stack's node, then the stack's node ending the list.
pub open spec fn load_spec(p: Seq<u8>, image: Seq<u8>, heap: u64, stack: u64) -> (
    Result<(), ExecutionError>,
    Seq<u8>,
) {
    let heap_start = (image.len() + 9) as u64;
    let stack_start = (image.len() + heap + 18) as u64;
    let (w1, m1) = write_node_spec(
        loaded_bytes(p, image, heap, stack),
        heap_start,
        stack_start,
        false,
    );
    match w1 {
        Err(e) => (Err(e), m1),
        Ok(_) => write_node_spec(m1, stack_start, 0, true),
    }
}

/// A node written inside memory reads back as written.
pub proof fn law_node_write_then_read(m: Seq<u8>, ptr: u64, next: u64, is_allocated: bool)
    requires
        9 <= ptr <= m.len(),
        m.len() <= u64::MAX,
    ensures
        write_node_spec(m, ptr, next, is_allocated).0 == Ok::<(), ExecutionError>(()),
        read_node_spec(write_node_spec(m, ptr, next, is_allocated).1, ptr) == Ok::<
            (bool, u64),
            ExecutionError,
        >((is_allocated, next)),
{
    let bytes = node_bytes(is_allocated, next);
    let m1 = overwrite(m, (ptr - 9) as u64, bytes);
    crate::bytes::lemma_u64_le_roundtrip(next);
    assert(m1[ptr - 9] == bytes[0]);
    assert(m1.subrange(ptr - 8, ptr as int) =~= le_bytes(next, 8));
}

/// Writing a node leaves the node of every block whose nine node bytes lie
/// elsewhere as it was.
pub proof fn law_node_frame(m: Seq<u8>, q: u64, next: u64, is_allocated: bool, ptr: u64)
    requires
        9 <= q,
        9 <= ptr,
        ptr <= q - 9 || q <= ptr - 9,
    ensures
        read_node_spec(write_node_spec(m, q, next, is_allocated).1, ptr) == read_node_spec(m, ptr),
{
    let m1 = write_node_spec(m, q, next, is_allocated).1;
    if ptr <= m.len() {
        assert(m1.subrange(ptr - 8, ptr as int) =~= m.subrange(ptr - 8, ptr as int));
    }
}

/// A successful free marks the block free.
pub proof fn law_free_marks_free(m: Seq<u8>, ptr: u64)
    requires
        m.len() <= u64::MAX,
        free_spec(m, ptr).0 is Ok,
    ensures
        read_node_spec(free_spec(m, ptr).1, ptr) is Ok,
        !read_node_spec(free_spec(m, ptr).1, ptr)->Ok_0.0,
{
    let m1 = write_flag_spec(m, ptr, false).1;
    let (cur, next) = read_node_spec(m1, ptr)->Ok_0;
    assert(m1[ptr - 9] == 0);
    let next_next = read_node_spec(m1, next)->Ok_0.1;
    if next != 0 && !read_node_spec(m1, next)->Ok_0.0 {
        assert(ptr <= m1.len());
        law_node_write_then_read(m1, ptr, next_next, cur);
    }
}

/// After a successful load the heap is one free block that reaches up to the
/// stack's node, and the stack's node is allocated and ends the list.
pub proof fn law_load_layout(p: Seq<u8>, image: Seq<u8>, heap: u64, stack: u64)
    requires
        image.len() + heap + stack <= u64::MAX,
        image.len() + heap + 18 <= u64::MAX,
        p.len() + stack >= 18,
        loaded_bytes(p, image, heap, stack).len() <= u64::MAX,
    ensures
        ({
            let heap_start = (image.len() + 9) as u64;
            let stack_start = (image.len() + heap + 18) as u64;
            let base = loaded_bytes(p, image, heap, stack);
            let (w1, m1) = write_node_spec(base, heap_start, stack_start, false);
            let (w2, m2) = write_node_spec(m1, stack_start, 0, true);
            &&& w1 is Ok
            &&& w2 is Ok
            &&& read_node_spec(m2, heap_start) == Ok::<(bool, u64), ExecutionError>(
                (false, stack_start),
            )
            &&& read_node_spec(m2, stack_start) == Ok::<(bool, u64), ExecutionError>((true, 0))
        }),
{
    let heap_start = (image.len() + 9) as u64;
    let stack_start = (image.len() + heap + 18) as u64;
    let base = loaded_bytes(p, image, heap, stack);
    law_node_write_then_read(base, heap_start, stack_start, false);
    let m1 = write_node_spec(base, heap_start, stack_start, false).1;
    law_node_write_then_read(m1, stack_start, 0, true);
    law_node_frame(m1, stack_start, 0, true, heap_start);
}

/// In a heap that is one free block of `heap` bytes followed by the stack's
/// node, an allocation of at most `heap` bytes returns the start of the heap.
pub proof fn law_first_malloc(m: Seq<u8>, heap_start: u64, heap: u64, size: u64)
    requires
        m.len() <= u64::MAX,
        heap_start + heap + 9 <= u64::MAX,
        read_node_spec(m, heap_start) == Ok::<(bool, u64), ExecutionError>(
            (false, (heap_start + heap + 9) as u64),
        ),
        read_node_spec(m, (heap_start + heap + 9) as u64) == Ok::<(bool, u64), ExecutionError>(
            (true, 0),
        ),
        size <= heap,
    ensures
        malloc_spec(m, heap_start, size).0 == Ok::<u64, ExecutionError>(heap_start),
{
    let stack_start = (heap_start + heap + 9) as u64;
    assert(candidate_walk(m, stack_start, size, Some(heap_start)) == Ok::<
        Option<u64>,
        ExecutionError,
    >(Some(heap_start)));
    assert(candidate_walk(m, heap_start, size, None) == Ok::<Option<u64>, ExecutionError>(
        Some(heap_start),
    ));
    assert(stack_start <= m.len());
    if leaves_room(heap_start, size, stack_start) {
        let new_node = (heap_start + size + 9) as u64;
        law_node_write_then_read(m, heap_start, new_node, true);
        let m2 = write_node_spec(m, heap_start, new_node, true).1;
        law_node_write_then_read(m2, new_node, stack_start, false);
    } else {
        law_node_write_then_read(m, heap_start, stack_start, true);
    }
}

/// Resizing a block to the size it already has returns the same pointer and
/// leaves memory as it was.
pub proof fn law_realloc_same_size(m: Seq<u8>, heap_start: u64, ptr: u64, next: u64, size: u64)
    requires
        read_node_spec(m, ptr) is Ok,
        read_node_spec(m, ptr)->Ok_0.1 == next,
        read_node_spec(m, next) is Ok,
        block_size_spec(ptr, next) == Some(size),
    ensures
        realloc_spec(m, heap_start, ptr, size) == (Ok::<u64, ExecutionError>(ptr), m),
        !realloc_moves(m, ptr, size),
{
}

} // verus!
