//! The shape of the heap: a list of blocks whose nodes lie in increasing
//! order from the start of the heap to the stack's node, and the operations
//! that keep that shape.
use vstd::prelude::*;

use crate::error::ExecutionError;
use crate::heap::{
    block_size_spec, candidate_spec, candidate_walk, defragment_spec, fits_in, free_spec,
    law_load_layout, law_node_frame, law_node_write_then_read, leaves_room, load_spec,
    loaded_bytes, malloc_spec, place_spec, read_node_spec, realloc_move_spec, realloc_moves,
    realloc_spec, write_flag_spec, write_node_spec,
};
use crate::memory::{copy_bytes, copy_reach, lemma_copy_bytes_frame, memcpy_spec, overwrite};

verus! {

/// The blocks from `a` on reach the block at `b`: each node reads, and links
/// at least nine bytes further on without passing `b`.
pub open spec fn seg(m: Seq<u8>, a: u64, b: u64) -> bool
    decreases b - a,
{
    if a >= b {
        a == b
    } else {
        match read_node_spec(m, a) {
            Err(_) => false,
            Ok((_, next)) => a + 9 <= next && next <= b && seg(m, next, b),
        }
    }
}

/// A well-formed heap: the blocks from `heap_start` reach the stack's node
/// at `stack_start`, which is allocated and ends the list.
pub open spec fn heap_wf(m: Seq<u8>, heap_start: u64, stack_start: u64) -> bool {
    &&& m.len() <= u64::MAX
    &&& stack_start <= m.len()
    &&& seg(m, heap_start, stack_start)
    &&& read_node_spec(m, stack_start) == Ok::<(bool, u64), ExecutionError>((true, 0))
}

/// Nodes read the same from memories that agree on their nine bytes.
proof fn lemma_node_agree(m1: Seq<u8>, m2: Seq<u8>, q: u64)
    requires
        m1.len() == m2.len(),
        q >= 9,
        forall|i: int| q - 9 <= i < q ==> m1[i] == m2[i],
    ensures
        read_node_spec(m1, q) == read_node_spec(m2, q),
{
    if q <= m1.len() {
        assert(m1.subrange(q - 8, q as int) =~= m2.subrange(q - 8, q as int));
    }
}

/// A list segment reads the same from memories that agree on the bytes of
/// its nodes.
proof fn lemma_seg_frame(m1: Seq<u8>, m2: Seq<u8>, a: u64, b: u64)
    requires
        seg(m1, a, b),
        m1.len() == m2.len(),
        forall|i: int| a - 9 <= i < b - 9 ==> m1[i] == m2[i],
    ensures
        seg(m2, a, b),
    decreases b - a,
{
    if a < b {
        let next = read_node_spec(m1, a)->Ok_0.1;
        lemma_node_agree(m1, m2, a);
        lemma_seg_frame(m1, m2, next, b);
    }
}

/// Two segments end to end make one.
proof fn lemma_seg_trans(m: Seq<u8>, a: u64, b: u64, c: u64)
    requires
        seg(m, a, b),
        seg(m, b, c),
    ensures
        seg(m, a, c),
    decreases b - a,
{
    if a < b {
        let next = read_node_spec(m, a)->Ok_0.1;
        lemma_seg_trans(m, next, b, c);
        lemma_seg_bound(m, b, c);
    }
}

/// A segment runs forwards.
proof fn lemma_seg_bound(m: Seq<u8>, a: u64, b: u64)
    requires
        seg(m, a, b),
    ensures
        a <= b,
        a < b ==> a >= 9,
    decreases b - a,
{
}

/// A segment extended by the node at its end.
proof fn lemma_seg_step(m: Seq<u8>, a: u64, b: u64, next: u64)
    requires
        seg(m, a, b),
        read_node_spec(m, b) is Ok,
        read_node_spec(m, b)->Ok_0.1 == next,
        b + 9 <= next,
    ensures
        seg(m, a, next),
{
    lemma_seg_bound(m, a, b);
    assert(seg(m, b, next)) by {
        assert(seg(m, next, next));
    }
    lemma_seg_trans(m, a, b, next);
}

/// The part of a segment after a block on it.
proof fn lemma_seg_split(m: Seq<u8>, a: u64, b: u64, c: u64)
    requires
        seg(m, a, c),
        seg(m, a, b),
        b <= c,
    ensures
        seg(m, b, c),
    decreases b - a,
{
    if a < b {
        let next = read_node_spec(m, a)->Ok_0.1;
        lemma_seg_split(m, next, b, c);
    }
}

/// On a well-formed heap the candidate walk never fails, and a candidate it
/// picks is a block of the list before the stack's node.
proof fn lemma_walk(m: Seq<u8>, hs: u64, ss: u64, q: u64, size: u64, cand: Option<u64>)
    requires
        heap_wf(m, hs, ss),
        seg(m, hs, q),
        seg(m, q, ss),
        cand matches Some(c) ==> seg(m, hs, c) && c < ss && !read_node_spec(m, c)->Ok_0.0 && c
            + size + 9 <= read_node_spec(m, c)->Ok_0.1,
    ensures
        candidate_walk(m, q, size, cand) is Ok,
        candidate_walk(m, q, size, cand)->Ok_0 matches Some(c) ==> seg(m, hs, c) && c < ss
            && !read_node_spec(m, c)->Ok_0.0 && c + size + 9 <= read_node_spec(m, c)->Ok_0.1,
    decreases ss - q,
{
    lemma_seg_bound(m, q, ss);
    if q < ss {
        let (is_allocated, next) = read_node_spec(m, q)->Ok_0;
        lemma_seg_step(m, hs, q, next);
        if is_allocated {
            lemma_walk(m, hs, ss, next, size, cand);
        } else {
            let csize = block_size_spec(q, next)->Some_0;
            let former = match cand {
                Some(n) => n,
                None => u64::MAX,
            };
            let cand2 = if csize >= size && csize < former {
                Some(q)
            } else {
                cand
            };
            lemma_walk(m, hs, ss, next, size, cand2);
        }
    }
}

/// Writing the node of a block on the list to link further on, to a block
/// that the old link reached, keeps the heap well formed.
proof fn lemma_relink(m: Seq<u8>, hs: u64, ss: u64, cur: u64, next: u64, is_allocated: bool)
    requires
        heap_wf(m, hs, ss),
        seg(m, hs, cur),
        seg(m, cur, ss),
        cur < ss,
        cur + 9 <= next,
        seg(m, next, ss),
    ensures
        heap_wf(write_node_spec(m, cur, next, is_allocated).1, hs, ss),
        write_node_spec(m, cur, next, is_allocated).0 == Ok::<(), ExecutionError>(()),
{
    let m2 = write_node_spec(m, cur, next, is_allocated).1;
    lemma_seg_bound(m, hs, cur);
    lemma_seg_bound(m, next, ss);
    assert(cur >= 9) by {
        assert(read_node_spec(m, cur) is Ok);
    }
    assert(cur <= m.len()) by {
        assert(read_node_spec(m, cur) is Ok);
    }
    law_node_write_then_read(m, cur, next, is_allocated);
    lemma_seg_frame(m, m2, hs, cur);
    if next < ss {
        assert(next >= 9) by {
            assert(read_node_spec(m, next) is Ok);
        }
    }
    lemma_seg_frame(m, m2, next, ss);
    law_node_frame(m, cur, next, is_allocated, ss);
    assert(seg(m2, cur, ss));
    lemma_seg_trans(m2, hs, cur, ss);
}

/// Defragmenting a well-formed heap from a block on its list keeps it well
/// formed.
proof fn lemma_defragment(m: Seq<u8>, hs: u64, ss: u64, cur: u64, skip: bool)
    requires
        heap_wf(m, hs, ss),
        seg(m, hs, cur),
        seg(m, cur, ss),
    ensures
        heap_wf(defragment_spec(m, cur, skip).1, hs, ss),
        defragment_spec(m, cur, skip).0 is Ok,
    decreases ss - cur,
{
    lemma_seg_bound(m, cur, ss);
    if cur < ss {
        let (ca, cn) = read_node_spec(m, cur)->Ok_0;
        lemma_seg_bound(m, cn, ss);
        if cn < ss {
            let (na, nn) = read_node_spec(m, cn)->Ok_0;
            assert(seg(m, cn, ss));
            assert(cn + 9 <= nn && nn <= ss && seg(m, nn, ss));
            lemma_seg_step(m, hs, cur, cn);
            if na {
                if skip && nn != 0 {
                    lemma_seg_step(m, hs, cn, nn);
                    lemma_defragment(m, hs, ss, nn, skip);
                }
            } else {
                lemma_relink(m, hs, ss, cur, nn, ca);
            }
        }
    }
}

/// Looking for a block keeps a well-formed heap well formed, and a block it
/// finds is on the list before the stack's node.
proof fn lemma_candidate(m: Seq<u8>, hs: u64, ss: u64, size: u64)
    requires
        heap_wf(m, hs, ss),
    ensures
        heap_wf(candidate_spec(m, hs, size).1, hs, ss),
        candidate_spec(m, hs, size).0 matches Ok(p) ==> seg(candidate_spec(m, hs, size).1, hs, p)
            && p < ss && !read_node_spec(candidate_spec(m, hs, size).1, p)->Ok_0.0 && p + size + 9
            <= read_node_spec(candidate_spec(m, hs, size).1, p)->Ok_0.1,
{
    assert(seg(m, hs, hs));
    lemma_walk(m, hs, ss, hs, size, None);
    if candidate_walk(m, hs, size, None)->Ok_0 is None {
        lemma_defragment(m, hs, ss, hs, true);
        let m2 = defragment_spec(m, hs, true).1;
        assert(seg(m2, hs, hs));
        lemma_walk(m2, hs, ss, hs, size, None);
    }
}

/// Placing `size` bytes in a block of the list that reaches, over free
/// blocks only, up to the node at `end`: the result is Ok, the heap stays well
/// formed, and the block stays on the list, allocated, reaching `end` over a
/// free block where it was split.
proof fn lemma_place(m: Seq<u8>, hs: u64, ss: u64, ptr: u64, size: u64, end: u64)
    requires
        heap_wf(m, hs, ss),
        seg(m, hs, ptr),
        seg(m, ptr, end),
        seg(m, end, ss),
        ptr < end,
        fits_in(ptr, size, end),
    ensures
        place_spec(m, ptr, size, end).0 == Ok::<(), ExecutionError>(()),
        heap_wf(place_spec(m, ptr, size, end).1, hs, ss),
        seg(place_spec(m, ptr, size, end).1, hs, ptr),
        seg(place_spec(m, ptr, size, end).1, ptr, end),
        read_node_spec(place_spec(m, ptr, size, end).1, ptr) == Ok::<(bool, u64), ExecutionError>(
            (true, if leaves_room(ptr, size, end) {
                (ptr + size + 9) as u64
            } else {
                end
            }),
        ),
{
    lemma_seg_bound(m, hs, ptr);
    lemma_seg_bound(m, end, ss);
    lemma_seg_trans(m, ptr, end, ss);
    assert(ptr >= 9 && ptr <= m.len()) by {
        assert(read_node_spec(m, ptr) is Ok);
    }
    if end < ss {
        assert(end >= 9) by {
            assert(read_node_spec(m, end) is Ok);
        }
    }
    if leaves_room(ptr, size, end) {
        let new_node = (ptr + size + 9) as u64;
        law_node_write_then_read(m, ptr, new_node, true);
        let m2 = write_node_spec(m, ptr, new_node, true).1;
        law_node_write_then_read(m2, new_node, end, false);
        let m3 = write_node_spec(m2, new_node, end, false).1;
        assert(place_spec(m, ptr, size, end).1 == m3);
        law_node_frame(m2, new_node, end, false, ptr);
        assert forall|i: int| hs - 9 <= i < ptr - 9 implies m[i] == m3[i] by {}
        lemma_seg_frame(m, m3, hs, ptr);
        assert forall|i: int| end - 9 <= i < ss - 9 implies m[i] == m3[i] by {}
        lemma_seg_frame(m, m3, end, ss);
        law_node_frame(m, ptr, new_node, true, ss);
        law_node_frame(m2, new_node, end, false, ss);
        assert(seg(m3, end, end));
        assert(seg(m3, new_node, end));
        assert(seg(m3, ptr, end));
        lemma_seg_trans(m3, ptr, end, ss);
        lemma_seg_trans(m3, hs, ptr, ss);
    } else {
        lemma_relink(m, hs, ss, ptr, end, true);
        law_node_write_then_read(m, ptr, end, true);
        let m2 = write_node_spec(m, ptr, end, true).1;
        assert forall|i: int| hs - 9 <= i < ptr - 9 implies m[i] == m2[i] by {}
        lemma_seg_frame(m, m2, hs, ptr);
        assert(seg(m2, end, end));
        assert(seg(m2, ptr, end));
    }
}

/// Placing an allocation as `lemma_place` does keeps every other block of
/// the list outside the placed range on the list, with its node unchanged.
proof fn lemma_place_keeps(m: Seq<u8>, hs: u64, ss: u64, ptr: u64, size: u64, end: u64, q: u64)
    requires
        heap_wf(m, hs, ss),
        seg(m, hs, ptr),
        seg(m, ptr, end),
        seg(m, end, ss),
        ptr < end,
        fits_in(ptr, size, end),
        on_list(m, hs, ss, q),
        q < ptr || end <= q,
    ensures
        on_list(place_spec(m, ptr, size, end).1, hs, ss, q),
        read_node_spec(place_spec(m, ptr, size, end).1, q) == read_node_spec(m, q),
{
    lemma_place(m, hs, ss, ptr, size, end);
    let m3 = place_spec(m, ptr, size, end).1;
    lemma_seg_bound(m, hs, ptr);
    lemma_seg_bound(m, hs, q);
    assert(ptr >= 9) by {
        assert(read_node_spec(m, ptr) is Ok);
    }
    let new_node = (ptr + size + 9) as u64;
    let m2 = write_node_spec(m, ptr, if leaves_room(ptr, size, end) {
        new_node
    } else {
        end
    }, true).1;
    if q < ptr {
        lemma_chain_order(m, hs, q, ptr);
        lemma_seg_split(m, hs, q, ptr);
        assert(seg(m, q, ptr));
        assert(q >= 9) by {
            assert(read_node_spec(m, q) is Ok);
        }
        assert forall|i: int| hs - 9 <= i < q - 9 implies m[i] == m3[i] by {}
        lemma_seg_frame(m, m3, hs, q);
        if leaves_room(ptr, size, end) {
            law_node_frame(m, ptr, new_node, true, q);
            law_node_frame(m2, new_node, end, false, q);
        } else {
            law_node_frame(m, ptr, end, true, q);
        }
    } else {
        lemma_seg_trans(m, hs, ptr, end);
        lemma_seg_split(m, hs, end, q);
        lemma_seg_bound(m, end, q);
        lemma_seg_bound(m, ptr, end);
        if end < q {
            assert(end >= 9) by {
                assert(read_node_spec(m, end) is Ok);
            }
            assert forall|i: int| end - 9 <= i < q - 9 implies m[i] == m3[i] by {}
            lemma_seg_frame(m, m3, end, q);
        } else {
            assert(seg(m3, end, q));
        }
        if leaves_room(ptr, size, end) {
            law_node_frame(m, ptr, new_node, true, q);
            law_node_frame(m2, new_node, end, false, q);
        } else {
            law_node_frame(m, ptr, end, true, q);
        }
        lemma_seg_trans(m3, hs, ptr, end);
        lemma_seg_trans(m3, hs, end, q);
    }
}

/// An allocation keeps a well-formed heap well formed, and a block it
/// returns is on the list before the stack's node, allocated, with room for
/// the requested bytes before its next node.
pub proof fn law_malloc_keeps_heap_well_formed(m: Seq<u8>, heap_start: u64, stack_start: u64, size: u64)
    requires
        heap_wf(m, heap_start, stack_start),
    ensures
        heap_wf(malloc_spec(m, heap_start, size).1, heap_start, stack_start),
        malloc_spec(m, heap_start, size).0 matches Ok(p) ==> (on_list(
            malloc_spec(m, heap_start, size).1,
            heap_start,
            stack_start,
            p,
        ) && p < stack_start && (read_node_spec(malloc_spec(m, heap_start, size).1, p) matches Ok(
            (true, n),
        ) && p + size + 9 <= n)),
{
    let hs = heap_start;
    let ss = stack_start;
    lemma_candidate(m, hs, ss, size);
    let (cr, m1) = candidate_spec(m, hs, size);
    if cr is Ok {
        let p = cr->Ok_0;
        lemma_seg_split(m1, hs, p, ss);
        let old_next = read_node_spec(m1, p)->Ok_0.1;
        assert(seg(m1, p, ss));
        assert(seg(m1, old_next, old_next));
        assert(seg(m1, p, old_next));
        lemma_place(m1, hs, ss, p, size, old_next);
        lemma_seg_bound(m1, old_next, ss);
    }
}

/// Whether the block at `p` is free and has room for `size` bytes.
pub open spec fn free_block_fits(m: Seq<u8>, p: u64, size: u64) -> bool {
    match read_node_spec(m, p) {
        Ok((false, next)) => p + size + 9 <= next,
        _ => false,
    }
}

/// A walk that carries a candidate ends with one.
proof fn lemma_walk_keeps_candidate(m: Seq<u8>, q: u64, size: u64, c: u64)
    ensures
        candidate_walk(m, q, size, Some(c)) matches Ok(r) ==> r is Some,
    decreases u64::MAX - q,
{
    match read_node_spec(m, q) {
        Err(_) => {},
        Ok((is_allocated, next)) => {
            if next != 0 {
                if is_allocated {
                    if next > q {
                        lemma_walk_keeps_candidate(m, next, size, c);
                    }
                } else {
                    match block_size_spec(q, next) {
                        None => {},
                        Some(csize) => {
                            let c2 = if csize >= size && csize < c {
                                q
                            } else {
                                c
                            };
                            lemma_walk_keeps_candidate(m, next, size, c2);
                        },
                    }
                }
            }
        },
    }
}

/// A walk from `q` without a candidate that finds none passed no free block
/// with room for `size` bytes.
proof fn lemma_walk_none(m: Seq<u8>, hs: u64, ss: u64, q: u64, size: u64)
    requires
        heap_wf(m, hs, ss),
        seg(m, hs, q),
        seg(m, q, ss),
        candidate_walk(m, q, size, None) == Ok::<Option<u64>, ExecutionError>(None),
    ensures
        forall|p: u64| seg(m, q, p) && p < ss ==> !#[trigger] free_block_fits(m, p, size),
    decreases ss - q,
{
    lemma_seg_bound(m, q, ss);
    if q < ss {
        let (is_allocated, next) = read_node_spec(m, q)->Ok_0;
        lemma_seg_step(m, hs, q, next);
        assert(seg(m, next, ss));
        if !is_allocated {
            let csize = block_size_spec(q, next)->Some_0;
            if csize >= size {
                lemma_walk_keeps_candidate(m, next, size, q);
                assert(false);
            }
        }
        lemma_walk_none(m, hs, ss, next, size);
        assert forall|p: u64| seg(m, q, p) && p < ss implies !#[trigger] free_block_fits(m, p, size) by {
            lemma_seg_bound(m, q, p);
            if q < p {
                assert(seg(m, q, q));
                lemma_chain_order(m, q, q, p);
            }
        }
    } else {
        assert forall|p: u64| seg(m, q, p) && p < ss implies !#[trigger] free_block_fits(m, p, size) by {
            lemma_seg_bound(m, q, p);
        }
    }
}

/// On a well-formed heap an allocation fails only for want of memory: with
/// `OutOfMemory`, and only where no free block of the list had room for the
/// requested bytes.
pub proof fn law_malloc_fails_only_out_of_memory(
    m: Seq<u8>,
    heap_start: u64,
    stack_start: u64,
    size: u64,
)
    requires
        heap_wf(m, heap_start, stack_start),
    ensures
        malloc_spec(m, heap_start, size).0 is Err ==> malloc_spec(m, heap_start, size).0 == Err::<
            u64,
            ExecutionError,
        >(ExecutionError::OutOfMemory { size }),
        malloc_spec(m, heap_start, size).0 is Err ==> forall|p: u64|
            on_list(m, heap_start, stack_start, p) && p < stack_start ==> !#[trigger] free_block_fits(
                m,
                p,
                size,
            ),
{
    let hs = heap_start;
    let ss = stack_start;
    assert(seg(m, hs, hs));
    lemma_walk(m, hs, ss, hs, size, None);
    law_malloc_keeps_heap_well_formed(m, hs, ss, size);
    lemma_candidate(m, hs, ss, size);
    let (cr, m1) = candidate_spec(m, hs, size);
    if cr is Ok {
        let p = cr->Ok_0;
        lemma_seg_split(m1, hs, p, ss);
        let old_next = read_node_spec(m1, p)->Ok_0.1;
        assert(seg(m1, p, ss));
        assert(seg(m1, old_next, old_next));
        assert(seg(m1, p, old_next));
        lemma_place(m1, hs, ss, p, size, old_next);
    } else {
        lemma_walk_none(m, hs, ss, hs, size);
        lemma_defragment(m, hs, ss, hs, true);
        let m2 = defragment_spec(m, hs, true).1;
        assert(seg(m2, hs, hs));
        lemma_walk(m2, hs, ss, hs, size, None);
    }
}

/// The next pointer of the block at `q`.
pub open spec fn next_of(m: Seq<u8>, q: u64) -> u64 {
    read_node_spec(m, q)->Ok_0.1
}

/// Defragmenting keeps the data bytes of an allocated block of the list, and
/// its next pointer only moves further on.
proof fn lemma_defragment_data(m: Seq<u8>, hs: u64, ss: u64, cur: u64, skip: bool, q: u64)
    requires
        heap_wf(m, hs, ss),
        seg(m, hs, cur),
        seg(m, cur, ss),
        on_list(m, hs, ss, q),
        q < ss,
        allocated_at(m, q),
    ensures
        defragment_spec(m, cur, skip).1.len() == m.len(),
        read_node_spec(defragment_spec(m, cur, skip).1, q) is Ok,
        next_of(m, q) <= next_of(defragment_spec(m, cur, skip).1, q),
        forall|j: int|
            q <= j < next_of(m, q) - 9 ==> #[trigger] defragment_spec(m, cur, skip).1[j] == m[j],
    decreases ss - cur,
{
    lemma_seg_bound(m, cur, ss);
    lemma_defragment_keeps(m, hs, ss, cur, skip, q);
    if cur < ss {
        let (ca, cn) = read_node_spec(m, cur)->Ok_0;
        lemma_seg_bound(m, cn, ss);
        if cn < ss {
            let (na, nn) = read_node_spec(m, cn)->Ok_0;
            assert(seg(m, cn, ss));
            assert(cn + 9 <= nn && nn <= ss && seg(m, nn, ss));
            lemma_seg_step(m, hs, cur, cn);
            lemma_seg_step(m, hs, cn, nn);
            if na {
                if skip && nn != 0 {
                    lemma_defragment_data(m, hs, ss, nn, skip, q);
                }
            } else {
                if cur < q && q < nn {
                    lemma_chain_order(m, hs, cur, q);
                    if cn < q {
                        lemma_chain_order(m, hs, cn, q);
                    }
                    assert(q == cn);
                    assert(false);
                }
                lemma_relink_keeps(m, hs, ss, cur, nn, ca, q);
                lemma_seg_bound(m, hs, cur);
                assert(cur >= 9 && cur <= m.len()) by {
                    assert(read_node_spec(m, cur) is Ok);
                }
                law_node_write_then_read(m, cur, nn, ca);
                let m2 = write_node_spec(m, cur, nn, ca).1;
                lemma_seg_bound(m, hs, q);
                lemma_seg_split(m, hs, q, ss);
                assert(seg(m, q, ss));
                assert(next_of(m, q) <= ss);
                if q < cur {
                    lemma_chain_order(m, hs, q, cur);
                    assert(next_of(m, q) <= cur);
                }
                assert(m2 == overwrite(m, (cur - 9) as u64, crate::heap::node_bytes(ca, nn)));
                assert forall|j: int| q <= j < next_of(m, q) - 9 implies #[trigger] m2[j] == m[j] by {
                    assert(j < cur - 9 || j >= cur);
                }
            }
        }
    }
}

/// Looking for a block keeps the data bytes of an allocated block of the
/// list, and its next pointer only moves further on.
proof fn lemma_candidate_data(m: Seq<u8>, hs: u64, ss: u64, size: u64, q: u64)
    requires
        heap_wf(m, hs, ss),
        on_list(m, hs, ss, q),
        q < ss,
        allocated_at(m, q),
    ensures
        candidate_spec(m, hs, size).1.len() == m.len(),
        read_node_spec(candidate_spec(m, hs, size).1, q) is Ok,
        next_of(m, q) <= next_of(candidate_spec(m, hs, size).1, q),
        forall|j: int|
            q <= j < next_of(m, q) - 9 ==> #[trigger] candidate_spec(m, hs, size).1[j] == m[j],
{
    assert(seg(m, hs, hs));
    lemma_walk(m, hs, ss, hs, size, None);
    if candidate_walk(m, hs, size, None)->Ok_0 is None {
        lemma_defragment_data(m, hs, ss, hs, true, q);
    }
}

/// An allocation leaves the data bytes of every allocated block of a
/// well-formed heap as they were, and that block's next pointer only moves
/// further on.
pub proof fn law_malloc_keeps_block_contents(m: Seq<u8>, hs: u64, ss: u64, size: u64, q: u64)
    requires
        heap_wf(m, hs, ss),
        on_list(m, hs, ss, q),
        q < ss,
        allocated_at(m, q),
    ensures
        malloc_spec(m, hs, size).1.len() == m.len(),
        read_node_spec(malloc_spec(m, hs, size).1, q) is Ok,
        next_of(m, q) <= next_of(malloc_spec(m, hs, size).1, q),
        forall|j: int| q <= j < next_of(m, q) - 9 ==> #[trigger] malloc_spec(m, hs, size).1[j] == m[j],
{
    lemma_candidate(m, hs, ss, size);
    lemma_candidate_keeps(m, hs, ss, size, q);
    lemma_candidate_data(m, hs, ss, size, q);
    let (cr, m1) = candidate_spec(m, hs, size);
    if cr is Ok {
        let p = cr->Ok_0;
        lemma_seg_split(m1, hs, p, ss);
        let old_next = read_node_spec(m1, p)->Ok_0.1;
        assert(seg(m1, p, ss));
        assert(seg(m1, old_next, old_next));
        assert(seg(m1, p, old_next));
        lemma_seg_bound(m1, hs, q);
        lemma_seg_bound(m1, hs, p);
        assert(q != p);
        if p < q {
            lemma_chain_order(m1, hs, p, q);
        } else {
            lemma_chain_order(m1, hs, q, p);
        }
        lemma_place_keeps(m1, hs, ss, p, size, old_next, q);
        lemma_place(m1, hs, ss, p, size, old_next);
        lemma_seg_split(m1, hs, q, ss);
        assert(seg(m1, q, ss));
        assert(next_of(m1, q) <= ss);
        assert(p >= 9) by {
            assert(read_node_spec(m1, p) is Ok);
        }
        let after = place_spec(m1, p, size, old_next).1;
        if leaves_room(p, size, old_next) {
            let new_node = (p + size + 9) as u64;
            let a1 = overwrite(m1, (p - 9) as u64, crate::heap::node_bytes(true, new_node));
            assert(write_node_spec(m1, p, new_node, true).1 == a1);
            assert(after == overwrite(a1, (new_node - 9) as u64, crate::heap::node_bytes(false, old_next)));
            assert forall|j: int| q <= j < next_of(m, q) - 9 implies #[trigger] after[j] == m1[j] by {
                assert(j < p - 9 || j >= new_node);
            }
        } else {
            assert(after == overwrite(m1, (p - 9) as u64, crate::heap::node_bytes(true, old_next)));
            assert forall|j: int| q <= j < next_of(m, q) - 9 implies #[trigger] after[j] == m1[j] by {
                assert(j < p - 9 || j >= p);
            }
        }
    }
}

/// What a successful resize of the block at `ptr` (of `current` bytes) to
/// `new_size` bytes leaves: the block at `q` on the list before the stack's
/// node, allocated, with room for the new size, holding the old block's bytes
/// up to the smaller of the two sizes; where the block moved, the old block
/// marked free.
pub open spec fn resized_to(
    m: Seq<u8>,
    after: Seq<u8>,
    hs: u64,
    ss: u64,
    ptr: u64,
    current: int,
    new_size: u64,
    q: u64,
) -> bool {
    &&& on_list(after, hs, ss, q)
    &&& q < ss
    &&& allocated_at(after, q)
    &&& q + new_size + 9 <= next_of(after, q)
    &&& forall|i: int| 0 <= i < current && i < new_size ==> #[trigger] after[q + i] == m[ptr + i]
    &&& q != ptr ==> read_node_spec(after, ptr) matches Ok((false, _))
}

/// A move of an allocated block of the list to a larger block that succeeds
/// leaves what `resized_to` says.
#[verifier::spinoff_prover]
#[verifier::rlimit(60)]
proof fn lemma_realloc_move_result(
    m: Seq<u8>,
    hs: u64,
    ss: u64,
    ptr: u64,
    current: u64,
    new_size: u64,
)
    requires
        heap_wf(m, hs, ss),
        on_list(m, hs, ss, ptr),
        ptr < ss,
        allocated_at(m, ptr),
        ptr + current + 9 == next_of(m, ptr),
        current < new_size,
    ensures
        realloc_move_spec(m, hs, ptr, current, new_size).0 matches Ok(q) ==> resized_to(
            m,
            realloc_move_spec(m, hs, ptr, current, new_size).1,
            hs,
            ss,
            ptr,
            current as int,
            new_size,
            q,
        ),
{
    law_malloc_keeps_heap_well_formed(m, hs, ss, new_size);
    law_malloc_keeps_allocated_blocks(m, hs, ss, new_size, ptr);
    law_malloc_keeps_block_contents(m, hs, ss, new_size, ptr);
    lemma_candidate(m, hs, ss, new_size);
    lemma_candidate_keeps(m, hs, ss, new_size, ptr);
    let (mr, m1) = malloc_spec(m, hs, new_size);
    if mr is Ok {
        let np = mr->Ok_0;
        assert(np == candidate_spec(m, hs, new_size).0->Ok_0);
        lemma_seg_bound(m1, hs, np);
        lemma_seg_bound(m1, hs, ptr);
        assert(np != ptr);
        lemma_seg_split(m1, hs, np, ss);
        assert(seg(m1, np, ss));
        lemma_seg_split(m1, hs, ptr, ss);
        assert(seg(m1, ptr, ss));
        if np < ptr {
            lemma_chain_order(m1, hs, np, ptr);
        } else {
            lemma_chain_order(m1, hs, ptr, np);
        }
        assert(ptr >= 9) by {
            assert(read_node_spec(m1, ptr) is Ok);
        }
        assert(np + current <= m1.len());
        assert(ptr + current <= m1.len());
        assert(copy_reach(m1.len(), np, ptr, current as nat) == current);
        let m2 = copy_bytes(m1, np, ptr, current as nat);
        assert(memcpy_spec(m1, np, ptr, current).1 == m2);
        lemma_copy_bytes_frame(m1, np, ptr, current as nat);
        assert forall|i: int| 0 <= i < current implies #[trigger] m2[np + i] == m[ptr + i] by {
            crate::memory::law_memcpy_disjoint(m1, np, ptr, current as nat, i as nat);
        }
        let m3 = write_flag_spec(m2, ptr, false).1;
        assert(m3 == m2.update(ptr - 9, 0u8));
        assert forall|i: int| 0 <= i < current && i < new_size implies #[trigger] m3[np + i]
            == m[ptr + i] by {
            assert(m2[np + i] == m[ptr + i]);
        }
        lemma_data_write_keeps(m1, m2, hs, ss, np, np as int, current as int, ptr);
        lemma_data_write_keeps(m1, m2, hs, ss, np, np as int, current as int, np);
        lemma_clear_flag(m2, hs, ss, ptr);
        assert(m3.subrange(np - 8, np as int) =~= m2.subrange(np - 8, np as int));
        assert(m3.subrange(ptr - 8, ptr as int) =~= m2.subrange(ptr - 8, ptr as int));
        assert(read_node_spec(m3, np) == read_node_spec(m2, np));
        lemma_clear_flag_keeps(m2, hs, ss, ptr, np);
        assert(realloc_move_spec(m, hs, ptr, current, new_size).1 == m3);
    }
}

/// Marking a block of the list free keeps every block of the list on it.
proof fn lemma_clear_flag_keeps(m: Seq<u8>, hs: u64, ss: u64, ptr: u64, q: u64)
    requires
        heap_wf(m, hs, ss),
        seg(m, hs, ptr),
        ptr < ss,
        on_list(m, hs, ss, q),
    ensures
        on_list(write_flag_spec(m, ptr, false).1, hs, ss, q),
{
    lemma_seg_bound(m, hs, ptr);
    lemma_seg_bound(m, hs, q);
    lemma_seg_split(m, hs, ptr, ss);
    let next = read_node_spec(m, ptr)->Ok_0.1;
    assert(seg(m, ptr, ss));
    assert(ptr >= 9 && ptr <= m.len()) by {
        assert(read_node_spec(m, ptr) is Ok);
    }
    let m1 = write_flag_spec(m, ptr, false).1;
    assert(m1 == m.update(ptr - 9, 0u8));
    if q <= ptr {
        if q < ptr {
            lemma_chain_order(m, hs, q, ptr);
        }
        assert forall|i: int| hs - 9 <= i < q - 9 implies m[i] == m1[i] by {}
        lemma_seg_frame(m, m1, hs, q);
    } else {
        lemma_chain_order(m, hs, ptr, q);
        assert(m1.subrange(ptr - 8, ptr as int) =~= m.subrange(ptr - 8, ptr as int));
        assert(read_node_spec(m1, ptr) == Ok::<(bool, u64), ExecutionError>((false, next)));
        assert forall|i: int| hs - 9 <= i < ptr - 9 implies m[i] == m1[i] by {}
        lemma_seg_frame(m, m1, hs, ptr);
        lemma_seg_bound(m, next, q);
        if next < q {
            assert(next >= 9) by {
                assert(read_node_spec(m, next) is Ok);
            }
            assert forall|i: int| next - 9 <= i < q - 9 implies m[i] == m1[i] by {}
            lemma_seg_frame(m, m1, next, q);
        } else {
            assert(seg(m1, next, q));
        }
        assert(seg(m1, ptr, q));
        lemma_seg_trans(m1, hs, ptr, q);
    }
}

/// Resizing an allocated block of the list that succeeds leaves what
/// `resized_to` says: a block on the list before the stack's node,
/// allocated, with room for the new size, that holds the old block's bytes
/// up to the smaller of the two sizes; where the block moved, the old block
/// is marked free.
pub proof fn law_realloc_keeps_contents(
    m: Seq<u8>,
    heap_start: u64,
    stack_start: u64,
    ptr: u64,
    new_size: u64,
)
    requires
        heap_wf(m, heap_start, stack_start),
        on_list(m, heap_start, stack_start, ptr),
        ptr < stack_start,
        allocated_at(m, ptr),
    ensures
        realloc_spec(m, heap_start, ptr, new_size).0 matches Ok(q) ==> resized_to(
            m,
            realloc_spec(m, heap_start, ptr, new_size).1,
            heap_start,
            stack_start,
            ptr,
            next_of(m, ptr) - 9 - ptr,
            new_size,
            q,
        ),
{
    let hs = heap_start;
    let ss = stack_start;
    lemma_seg_bound(m, hs, ptr);
    lemma_seg_split(m, hs, ptr, ss);
    let (_, next) = read_node_spec(m, ptr)->Ok_0;
    assert(seg(m, ptr, ss));
    assert(seg(m, next, ss));
    lemma_seg_bound(m, next, ss);
    assert(ptr >= 9 && ptr <= m.len()) by {
        assert(read_node_spec(m, ptr) is Ok);
    }
    assert(read_node_spec(m, next) is Ok);
    let (next_is_allocated, next_next) = read_node_spec(m, next)->Ok_0;
    let current = block_size_spec(ptr, next)->Some_0;
    let end = crate::heap::in_place_end(next, next_is_allocated, next_next);
    assert(seg(m, next, next));
    assert(seg(m, ptr, next));
    if !next_is_allocated {
        assert(next < ss);
        assert(seg(m, next_next, ss));
        assert(seg(m, next_next, next_next));
        assert(seg(m, next, next_next));
        lemma_seg_trans(m, ptr, next, next_next);
    }
    if current == new_size {
        assert(resized_to(m, m, hs, ss, ptr, current as int, new_size, ptr));
    } else if fits_in(ptr, new_size, end) {
        lemma_place(m, hs, ss, ptr, new_size, end);
        let after = place_spec(m, ptr, new_size, end).1;
        if leaves_room(ptr, new_size, end) {
            let new_node = (ptr + new_size + 9) as u64;
            let a1 = overwrite(m, (ptr - 9) as u64, crate::heap::node_bytes(true, new_node));
            assert(write_node_spec(m, ptr, new_node, true).1 == a1);
            assert(after == overwrite(a1, (new_node - 9) as u64, crate::heap::node_bytes(false, end)));
        } else {
            assert(after == overwrite(m, (ptr - 9) as u64, crate::heap::node_bytes(true, end)));
        }
        assert(seg(after, ptr, ss)) by {
            lemma_seg_split(after, hs, ptr, ss);
        }
        assert(resized_to(m, after, hs, ss, ptr, current as int, new_size, ptr));
    } else {
        assert(realloc_spec(m, hs, ptr, new_size) == realloc_move_spec(m, hs, ptr, current, new_size));
        lemma_realloc_move_result(m, hs, ss, ptr, current, new_size);
    }
}

/// Freeing a block on the list (not the stack's node) succeeds and keeps
/// the heap well formed.
pub proof fn law_free_keeps_heap_well_formed(m: Seq<u8>, heap_start: u64, stack_start: u64, ptr: u64)
    requires
        heap_wf(m, heap_start, stack_start),
        seg(m, heap_start, ptr),
        ptr < stack_start,
    ensures
        free_spec(m, ptr).0 == Ok::<(), ExecutionError>(()),
        heap_wf(free_spec(m, ptr).1, heap_start, stack_start),
{
    let hs = heap_start;
    let ss = stack_start;
    lemma_seg_bound(m, hs, ptr);
    lemma_seg_split(m, hs, ptr, ss);
    let next = read_node_spec(m, ptr)->Ok_0.1;
    assert(seg(m, ptr, ss));
    assert(seg(m, next, ss));
    lemma_seg_bound(m, next, ss);
    assert(ptr >= 9 && ptr <= m.len()) by {
        assert(read_node_spec(m, ptr) is Ok);
    }
    let m1 = write_flag_spec(m, ptr, false).1;
    assert(m1 == m.update(ptr - 9, 0u8));
    assert(m1.subrange(ptr - 8, ptr as int) =~= m.subrange(ptr - 8, ptr as int));
    assert(read_node_spec(m1, ptr) == Ok::<(bool, u64), ExecutionError>((false, next)));
    assert forall|i: int| hs - 9 <= i < ptr - 9 implies m[i] == m1[i] by {}
    lemma_seg_frame(m, m1, hs, ptr);
    if next < ss {
        assert(next >= 9) by {
            assert(read_node_spec(m, next) is Ok);
        }
    }
    assert forall|i: int| next - 9 <= i < ss - 9 implies m[i] == m1[i] by {}
    lemma_seg_frame(m, m1, next, ss);
    lemma_node_agree(m, m1, ss);
    assert(seg(m1, ptr, ss));
    lemma_seg_trans(m1, hs, ptr, ss);
    lemma_defragment(m1, hs, ss, ptr, false);
}

/// Loading an image leaves a well-formed heap: one free block from the start
/// of the heap to the stack's node.
pub proof fn law_load_makes_heap_well_formed(p: Seq<u8>, image: Seq<u8>, heap: u64, stack: u64)
    requires
        image.len() + heap + stack <= u64::MAX,
        image.len() + heap + 18 <= u64::MAX,
        p.len() + stack >= 18,
        loaded_bytes(p, image, heap, stack).len() <= u64::MAX,
    ensures
        load_spec(p, image, heap, stack).0 == Ok::<(), ExecutionError>(()),
        heap_wf(
            load_spec(p, image, heap, stack).1,
            (image.len() + 9) as u64,
            (image.len() + heap + 18) as u64,
        ),
{
    law_load_layout(p, image, heap, stack);
    let hs = (image.len() + 9) as u64;
    let ss = (image.len() + heap + 18) as u64;
    let m = load_spec(p, image, heap, stack).1;
    assert(seg(m, ss, ss));
    assert(seg(m, hs, ss));
}

/// A write that stays inside the data of a block on the list keeps the list.
proof fn lemma_data_write(m: Seq<u8>, m2: Seq<u8>, hs: u64, ss: u64, ptr: u64, w: int, k: int)
    requires
        heap_wf(m, hs, ss),
        seg(m, hs, ptr),
        ptr < ss,
        m2.len() == m.len(),
        ptr <= w,
        w + k <= read_node_spec(m, ptr)->Ok_0.1 - 9,
        forall|i: int| 0 <= i < m.len() && !(w <= i < w + k) ==> m2[i] == m[i],
    ensures
        heap_wf(m2, hs, ss),
{
    lemma_seg_bound(m, hs, ptr);
    lemma_seg_split(m, hs, ptr, ss);
    let next = read_node_spec(m, ptr)->Ok_0.1;
    assert(seg(m, ptr, ss));
    assert(seg(m, next, ss));
    lemma_seg_bound(m, next, ss);
    assert(ptr >= 9) by {
        assert(read_node_spec(m, ptr) is Ok);
    }
    lemma_seg_frame(m, m2, hs, ptr);
    lemma_node_agree(m, m2, ptr);
    if next < ss {
        assert(next >= 9) by {
            assert(read_node_spec(m, next) is Ok);
        }
    }
    lemma_seg_frame(m, m2, next, ss);
    lemma_node_agree(m, m2, ss);
    assert(seg(m2, ptr, ss));
    lemma_seg_trans(m2, hs, ptr, ss);
}

/// Resizing an allocated block of the list keeps the heap well formed, and
/// where the block does not move the result is its own pointer.
pub proof fn law_realloc_keeps_heap_well_formed(
    m: Seq<u8>,
    heap_start: u64,
    stack_start: u64,
    ptr: u64,
    new_size: u64,
)
    requires
        heap_wf(m, heap_start, stack_start),
        on_list(m, heap_start, stack_start, ptr),
        ptr < stack_start,
        allocated_at(m, ptr),
    ensures
        heap_wf(realloc_spec(m, heap_start, ptr, new_size).1, heap_start, stack_start),
        !realloc_moves(m, ptr, new_size) ==> realloc_spec(m, heap_start, ptr, new_size).0 == Ok::<
            u64,
            ExecutionError,
        >(ptr),
{
    let hs = heap_start;
    let ss = stack_start;
    lemma_seg_bound(m, hs, ptr);
    lemma_seg_split(m, hs, ptr, ss);
    let (_, next) = read_node_spec(m, ptr)->Ok_0;
    assert(seg(m, ptr, ss));
    assert(seg(m, next, ss));
    lemma_seg_bound(m, next, ss);
    assert(ptr >= 9 && ptr <= m.len()) by {
        assert(read_node_spec(m, ptr) is Ok);
    }
    assert(read_node_spec(m, next) is Ok);
    let (next_is_allocated, next_next) = read_node_spec(m, next)->Ok_0;
    let current = block_size_spec(ptr, next)->Some_0;
    let end = crate::heap::in_place_end(next, next_is_allocated, next_next);
    assert(seg(m, next, next));
    assert(seg(m, ptr, next));
    if !next_is_allocated {
        assert(next < ss);
        assert(seg(m, next_next, ss));
        assert(seg(m, next_next, next_next));
        assert(seg(m, next, next_next));
        lemma_seg_trans(m, ptr, next, next_next);
    }
    assert(seg(m, ptr, end));
    assert(seg(m, end, ss));
    if current == new_size {
    } else if fits_in(ptr, new_size, end) {
        lemma_place(m, hs, ss, ptr, new_size, end);
    } else {
        assert(realloc_spec(m, hs, ptr, new_size) == realloc_move_spec(m, hs, ptr, current, new_size));
        law_malloc_keeps_heap_well_formed(m, hs, ss, new_size);
        law_malloc_keeps_allocated_blocks(m, hs, ss, new_size, ptr);
        let (mr, m1) = malloc_spec(m, hs, new_size);
        if mr is Ok {
            let np = mr->Ok_0;
            lemma_seg_bound(m1, hs, np);
            let k = copy_reach(m1.len(), np, ptr, current as nat);
            let m2 = copy_bytes(m1, np, ptr, k);
            assert(memcpy_spec(m1, np, ptr, current).1 == m2);
            lemma_copy_bytes_frame(m1, np, ptr, k);
            lemma_data_write_keeps(m1, m2, hs, ss, np, np as int, k as int, ptr);
            lemma_clear_flag(m2, hs, ss, ptr);
        }
    }
}

/// On the list, the block after `p` comes no later than any block after `p`.
proof fn lemma_chain_order(m: Seq<u8>, a: u64, p: u64, q: u64)
    requires
        seg(m, a, p),
        seg(m, a, q),
        p < q,
    ensures
        read_node_spec(m, p) is Ok,
        read_node_spec(m, p)->Ok_0.1 <= q,
        seg(m, read_node_spec(m, p)->Ok_0.1, q),
{
    lemma_seg_split(m, a, p, q);
}

/// Block `q` is on the list that runs from `hs` to the stack's node at `ss`.
pub open spec fn on_list(m: Seq<u8>, hs: u64, ss: u64, q: u64) -> bool {
    seg(m, hs, q) && q <= ss
}

/// Whether the block at `q` is allocated (the stack's node is).
pub open spec fn allocated_at(m: Seq<u8>, q: u64) -> bool {
    read_node_spec(m, q) matches Ok((true, _))
}

/// Relinking a block past the blocks between it and `next` keeps every other
/// block of the list on it, with its node unchanged.
proof fn lemma_relink_keeps(
    m: Seq<u8>,
    hs: u64,
    ss: u64,
    cur: u64,
    next: u64,
    is_allocated: bool,
    q: u64,
)
    requires
        heap_wf(m, hs, ss),
        seg(m, hs, cur),
        seg(m, cur, ss),
        cur < ss,
        cur + 9 <= next,
        seg(m, hs, next),
        seg(m, next, ss),
        on_list(m, hs, ss, q),
        q <= cur || next <= q,
    ensures
        on_list(write_node_spec(m, cur, next, is_allocated).1, hs, ss, q),
        q != cur ==> read_node_spec(write_node_spec(m, cur, next, is_allocated).1, q)
            == read_node_spec(m, q),
{
    let m2 = write_node_spec(m, cur, next, is_allocated).1;
    lemma_seg_bound(m, hs, cur);
    lemma_seg_bound(m, hs, q);
    assert(cur >= 9 && cur <= m.len()) by {
        assert(read_node_spec(m, cur) is Ok);
    }
    law_node_write_then_read(m, cur, next, is_allocated);
    if q < cur {
        lemma_chain_order(m, hs, q, cur);
        lemma_seg_split(m, hs, q, cur);
        assert(seg(m, q, cur));
        lemma_seg_frame(m, m2, hs, q);
        if q >= 9 {
            law_node_frame(m, cur, next, is_allocated, q);
        } else {
            assert(read_node_spec(m, q) == read_node_spec(m2, q));
        }
    } else if q == cur {
        lemma_seg_frame(m, m2, hs, cur);
    } else {
        lemma_seg_split(m, hs, next, q);
        lemma_seg_bound(m, next, q);
        if next < q {
            assert(next >= 9) by {
                assert(read_node_spec(m, next) is Ok);
            }
        }
        lemma_seg_frame(m, m2, hs, cur);
        if next >= 9 {
            lemma_seg_frame(m, m2, next, q);
        } else {
            assert(next == q);
            assert(seg(m2, next, q));
        }
        law_node_frame(m, cur, next, is_allocated, q);
        assert(seg(m2, cur, q));
        lemma_seg_trans(m2, hs, cur, q);
    }
}

/// Defragmenting keeps every allocated block of the list (and the stack's
/// node) on the list, still allocated.
proof fn lemma_defragment_keeps(m: Seq<u8>, hs: u64, ss: u64, cur: u64, skip: bool, q: u64)
    requires
        heap_wf(m, hs, ss),
        seg(m, hs, cur),
        seg(m, cur, ss),
        on_list(m, hs, ss, q),
        allocated_at(m, q),
    ensures
        on_list(defragment_spec(m, cur, skip).1, hs, ss, q),
        allocated_at(defragment_spec(m, cur, skip).1, q),
    decreases ss - cur,
{
    lemma_seg_bound(m, cur, ss);
    if cur < ss {
        let (ca, cn) = read_node_spec(m, cur)->Ok_0;
        lemma_seg_bound(m, cn, ss);
        if cn < ss {
            let (na, nn) = read_node_spec(m, cn)->Ok_0;
            assert(seg(m, cn, ss));
            assert(cn + 9 <= nn && nn <= ss && seg(m, nn, ss));
            lemma_seg_step(m, hs, cur, cn);
            lemma_seg_step(m, hs, cn, nn);
            if na {
                if skip && nn != 0 {
                    lemma_defragment_keeps(m, hs, ss, nn, skip, q);
                }
            } else {
                if cur < q && q < nn {
                    lemma_chain_order(m, hs, cur, q);
                    if cn < q {
                        lemma_chain_order(m, hs, cn, q);
                    }
                    assert(q == cn);
                    assert(false);
                }
                lemma_relink_keeps(m, hs, ss, cur, nn, ca, q);
                if q == cur {
                    law_node_write_then_read(m, cur, nn, ca);
                }
            }
        }
    }
}

/// Looking for a block keeps every allocated block of the list on it, still
/// allocated.
proof fn lemma_candidate_keeps(m: Seq<u8>, hs: u64, ss: u64, size: u64, q: u64)
    requires
        heap_wf(m, hs, ss),
        on_list(m, hs, ss, q),
        allocated_at(m, q),
    ensures
        on_list(candidate_spec(m, hs, size).1, hs, ss, q),
        allocated_at(candidate_spec(m, hs, size).1, q),
{
    assert(seg(m, hs, hs));
    lemma_walk(m, hs, ss, hs, size, None);
    if candidate_walk(m, hs, size, None)->Ok_0 is None {
        lemma_defragment_keeps(m, hs, ss, hs, true, q);
    }
}

/// An allocation keeps every allocated block of a well-formed heap (and the
/// stack's node) on the list, still allocated.
pub proof fn law_malloc_keeps_allocated_blocks(
    m: Seq<u8>,
    heap_start: u64,
    stack_start: u64,
    size: u64,
    q: u64,
)
    requires
        heap_wf(m, heap_start, stack_start),
        on_list(m, heap_start, stack_start, q),
        allocated_at(m, q),
    ensures
        on_list(malloc_spec(m, heap_start, size).1, heap_start, stack_start, q),
        allocated_at(malloc_spec(m, heap_start, size).1, q),
{
    let hs = heap_start;
    let ss = stack_start;
    lemma_candidate(m, hs, ss, size);
    lemma_candidate_keeps(m, hs, ss, size, q);
    let (cr, m1) = candidate_spec(m, hs, size);
    if cr is Ok {
        let p = cr->Ok_0;
        lemma_seg_split(m1, hs, p, ss);
        let old_next = read_node_spec(m1, p)->Ok_0.1;
        assert(seg(m1, p, ss));
        assert(seg(m1, old_next, old_next));
        assert(seg(m1, p, old_next));
        lemma_seg_bound(m1, hs, q);
        assert(q != p);
        if p < q {
            lemma_chain_order(m1, hs, p, q);
        }
        lemma_place_keeps(m1, hs, ss, p, size, old_next, q);
    }
}

/// A write inside the data of a block on the list keeps every block of the
/// list on it, with its node unchanged.
proof fn lemma_data_write_keeps(
    m: Seq<u8>,
    m2: Seq<u8>,
    hs: u64,
    ss: u64,
    ptr: u64,
    w: int,
    k: int,
    q: u64,
)
    requires
        heap_wf(m, hs, ss),
        seg(m, hs, ptr),
        ptr < ss,
        m2.len() == m.len(),
        ptr <= w,
        w + k <= read_node_spec(m, ptr)->Ok_0.1 - 9,
        forall|i: int| 0 <= i < m.len() && !(w <= i < w + k) ==> m2[i] == m[i],
        on_list(m, hs, ss, q),
    ensures
        heap_wf(m2, hs, ss),
        on_list(m2, hs, ss, q),
        read_node_spec(m2, q) == read_node_spec(m, q),
{
    lemma_data_write(m, m2, hs, ss, ptr, w, k);
    lemma_seg_split(m, hs, ptr, ss);
    assert(seg(m, ptr, ss));
    assert(ptr >= 9) by {
        assert(read_node_spec(m, ptr) is Ok);
    }
    lemma_seg_bound(m, hs, q);
    lemma_seg_bound(m, hs, ptr);
    if q <= ptr {
        lemma_seg_frame(m, m2, hs, q);
        if q >= 9 {
            lemma_node_agree(m, m2, q);
        } else {
            assert(q == hs);
            assert(read_node_spec(m, q) == read_node_spec(m2, q));
        }
    } else {
        lemma_chain_order(m, hs, ptr, q);
        let next = read_node_spec(m, ptr)->Ok_0.1;
        lemma_seg_split(m, hs, ptr, ss);
        assert(seg(m, ptr, ss));
        lemma_seg_bound(m, next, q);
        lemma_seg_frame(m, m2, hs, ptr);
        lemma_node_agree(m, m2, ptr);
        if next < q {
            assert(next >= 9) by {
                assert(read_node_spec(m, next) is Ok);
            }
            lemma_seg_frame(m, m2, next, q);
        } else {
            assert(seg(m2, next, q));
        }
        lemma_node_agree(m, m2, q);
        assert(seg(m2, ptr, q));
        lemma_seg_trans(m2, hs, ptr, q);
    }
}

/// Marking a block of the list free keeps the heap well formed.
proof fn lemma_clear_flag(m: Seq<u8>, hs: u64, ss: u64, ptr: u64)
    requires
        heap_wf(m, hs, ss),
        seg(m, hs, ptr),
        ptr < ss,
    ensures
        heap_wf(write_flag_spec(m, ptr, false).1, hs, ss),
{
    lemma_seg_bound(m, hs, ptr);
    lemma_seg_split(m, hs, ptr, ss);
    let next = read_node_spec(m, ptr)->Ok_0.1;
    assert(seg(m, ptr, ss));
    assert(seg(m, next, ss));
    lemma_seg_bound(m, next, ss);
    assert(ptr >= 9 && ptr <= m.len()) by {
        assert(read_node_spec(m, ptr) is Ok);
    }
    let m1 = write_flag_spec(m, ptr, false).1;
    assert(m1 == m.update(ptr - 9, 0u8));
    assert(m1.subrange(ptr - 8, ptr as int) =~= m.subrange(ptr - 8, ptr as int));
    assert(read_node_spec(m1, ptr) == Ok::<(bool, u64), ExecutionError>((false, next)));
    assert forall|i: int| hs - 9 <= i < ptr - 9 implies m[i] == m1[i] by {}
    lemma_seg_frame(m, m1, hs, ptr);
    if next < ss {
        assert(next >= 9) by {
            assert(read_node_spec(m, next) is Ok);
        }
    }
    assert forall|i: int| next - 9 <= i < ss - 9 implies m[i] == m1[i] by {}
    lemma_seg_frame(m, m1, next, ss);
    lemma_node_agree(m, m1, ss);
    assert(seg(m1, ptr, ss));
    lemma_seg_trans(m1, hs, ptr, ss);
}

} // verus!
