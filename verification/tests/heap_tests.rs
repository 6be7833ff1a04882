use nisvc::error::ExecutionError;
use nisvc::heap::hpa_block_size;
use nisvc::memory::Memory;

/// Memory holding a three-byte image with a 64-byte heap and a 32-byte stack:
/// the heap starts at 12 and the stack at 85.
fn loaded() -> Memory {
    let mut m = Memory::new(64, 32);
    m.load(vec![0xaa, 0xbb, 0xcc]).unwrap();
    m
}

#[test]
fn load_lays_out_image_heap_and_stack() {
    let m = loaded();
    assert_eq!(m.heap_start, 12);
    assert_eq!(m.stack_start, 85);
    assert_eq!(m.range, 99);
    assert_eq!(m.physical.len(), 99);
    assert_eq!(&m.physical[0..3], &[0xaa, 0xbb, 0xcc]);
    assert_eq!(m.hpa_read_hpa_node(12), Ok((false, 85)));
    assert_eq!(m.hpa_read_hpa_node(85), Ok((true, 0)));
    assert_eq!(m.physical[40], 0xfd);
}

#[test]
fn load_with_too_small_a_stack_is_refused() {
    let mut m = Memory::new(64, 8);
    assert_eq!(
        m.load(vec![]),
        Err(ExecutionError::MemoryAccessViolation { address: 73 })
    );
}

#[test]
fn block_size() {
    assert_eq!(hpa_block_size(12, 31), Some(10));
    assert_eq!(hpa_block_size(12, 20), None);
    assert_eq!(hpa_block_size(12, 0), None);
}

#[test]
fn first_malloc_returns_heap_start() {
    let mut m = loaded();
    assert_eq!(m.malloc(10), Ok(12));
    assert_eq!(m.hpa_read_hpa_node(12), Ok((true, 31)));
    assert_eq!(m.hpa_read_hpa_node(31), Ok((false, 85)));
    assert_eq!(m.total_heap_allocations, 1);
}

#[test]
fn second_malloc_follows_the_first() {
    let mut m = loaded();
    assert_eq!(m.malloc(10), Ok(12));
    assert_eq!(m.malloc(5), Ok(31));
    assert_eq!(m.hpa_read_hpa_node(31), Ok((true, 45)));
    assert_eq!(m.hpa_read_hpa_node(45), Ok((false, 85)));
}

#[test]
fn malloc_too_large_is_out_of_memory() {
    let mut m = loaded();
    assert_eq!(m.malloc(100), Err(ExecutionError::OutOfMemory { size: 100 }));
}

#[test]
fn malloc_is_out_of_memory_when_the_last_block_is_allocated() {
    let mut m = loaded();
    assert_eq!(m.malloc(10), Ok(12));
    assert_eq!(m.malloc(45), Ok(31));
    assert_eq!(m.hpa_read_hpa_node(31), Ok((true, 85)));
    m.free(12).unwrap();
    assert_eq!(m.malloc(20), Err(ExecutionError::OutOfMemory { size: 20 }));
    assert!(list_is_well_formed(&m));
}

#[test]
fn defragmenting_from_the_stack_node_does_nothing() {
    let mut m = loaded();
    let before = m.physical.clone();
    assert_eq!(m.hpa_defragment(85, true), Ok(()));
    assert_eq!(m.physical, before);
}

#[test]
fn free_marks_free_and_merges_with_a_free_successor() {
    let mut m = loaded();
    m.malloc(10).unwrap();
    m.malloc(5).unwrap();
    assert_eq!(m.free(12), Ok(()));
    assert_eq!(m.hpa_read_hpa_node(12), Ok((false, 31)));
    assert_eq!(m.free(31), Ok(()));
    assert_eq!(m.hpa_read_hpa_node(31), Ok((false, 85)));
    assert_eq!(m.total_heap_allocations, 0);
}

#[test]
fn malloc_takes_a_merged_free_block() {
    let mut m = loaded();
    m.malloc(10).unwrap();
    m.malloc(5).unwrap();
    m.free(12).unwrap();
    m.free(31).unwrap();
    assert_eq!(m.malloc(40), Ok(31));
    assert_eq!(m.hpa_read_hpa_node(31), Ok((true, 85)));
    assert_eq!(m.hpa_read_hpa_node(85), Ok((true, 0)));
}

#[test]
fn malloc_defragments_when_no_block_fits() {
    let mut m = loaded();
    m.malloc(10).unwrap();
    m.malloc(5).unwrap();
    m.free(12).unwrap();
    m.free(31).unwrap();
    assert_eq!(m.malloc(50), Ok(12));
    assert_eq!(m.hpa_read_hpa_node(12), Ok((true, 71)));
    assert_eq!(m.hpa_read_hpa_node(71), Ok((false, 85)));
}

#[test]
fn realloc_to_the_same_size_keeps_the_block() {
    let mut m = loaded();
    m.malloc(10).unwrap();
    let before = m.physical.clone();
    assert_eq!(m.realloc(12, 10), Ok(12));
    assert_eq!(m.physical, before);
}

#[test]
fn realloc_grows_in_place_into_a_free_next_block() {
    let mut m = loaded();
    m.malloc(10).unwrap();
    m.malloc(5).unwrap();
    assert_eq!(m.malloc(20), Ok(45));
    m.free(31).unwrap();
    assert_eq!(m.realloc(12, 15), Ok(12));
    assert_eq!(m.hpa_read_hpa_node(12), Ok((true, 36)));
    assert_eq!(m.hpa_read_hpa_node(36), Ok((false, 45)));
}

#[test]
fn realloc_moves_when_the_next_block_is_allocated() {
    let mut m = loaded();
    m.malloc(10).unwrap();
    m.malloc(5).unwrap();
    m.write(12, &[1, 2, 3, 4, 5, 6, 7, 8, 9, 10]).unwrap();
    assert_eq!(m.realloc(12, 20), Ok(45));
    assert_eq!(m.read(45, 10), Ok(vec![1, 2, 3, 4, 5, 6, 7, 8, 9, 10]));
    assert_eq!(m.hpa_read_hpa_node(12), Ok((false, 31)));
    assert_eq!(m.hpa_read_hpa_node(45), Ok((true, 74)));
    assert_eq!(m.total_heap_allocations, 3);
}

#[test]
fn realloc_shrinks_in_place_and_frees_the_rest() {
    let mut m = loaded();
    m.malloc(10).unwrap();
    m.write(12, &[1, 2, 3, 4, 5, 6, 7, 8, 9, 10]).unwrap();
    assert_eq!(m.realloc(12, 5), Ok(12));
    assert_eq!(m.read(12, 5), Ok(vec![1, 2, 3, 4, 5]));
    assert_eq!(m.hpa_read_hpa_node(12), Ok((true, 26)));
    assert_eq!(m.hpa_read_hpa_node(26), Ok((false, 85)));
    assert_eq!(m.total_heap_allocations, 1);
    assert!(list_is_well_formed(&m));
}

#[test]
fn realloc_shrinking_by_less_than_a_node_keeps_the_whole_block() {
    let mut m = loaded();
    m.malloc(10).unwrap();
    m.malloc(5).unwrap();
    assert_eq!(m.realloc(12, 5), Ok(12));
    assert_eq!(m.hpa_read_hpa_node(12), Ok((true, 31)));
    assert_eq!(m.hpa_read_hpa_node(31), Ok((true, 45)));
    assert!(list_is_well_formed(&m));
}

#[test]
fn realloc_grows_into_a_large_free_neighbour() {
    let mut m = Memory::new(100, 32);
    m.load(vec![]).unwrap();
    assert_eq!(m.malloc(10), Ok(9));
    assert_eq!(m.hpa_read_hpa_node(28), Ok((false, 118)));
    m.write(9, &[1, 2, 3, 4, 5, 6, 7, 8, 9, 10]).unwrap();
    assert_eq!(m.realloc(9, 20), Ok(9));
    assert_eq!(m.read(9, 10), Ok(vec![1, 2, 3, 4, 5, 6, 7, 8, 9, 10]));
    assert_eq!(m.hpa_read_hpa_node(9), Ok((true, 38)));
    assert_eq!(m.hpa_read_hpa_node(38), Ok((false, 118)));
    assert_eq!(m.hpa_read_hpa_node(118), Ok((true, 0)));
    assert_eq!(m.total_heap_allocations, 1);
    assert!(list_is_well_formed(&m));
}

#[test]
fn realloc_past_the_stack_node_moves_and_runs_out_of_memory() {
    let mut m = loaded();
    assert_eq!(m.malloc(64), Ok(12));
    assert_eq!(m.hpa_read_hpa_node(12), Ok((true, 85)));
    assert_eq!(m.realloc(12, 70), Err(ExecutionError::OutOfMemory { size: 70 }));
    assert_eq!(m.hpa_read_hpa_node(12), Ok((true, 85)));
    assert_eq!(m.total_heap_allocations, 2);
    assert!(list_is_well_formed(&m));
}

#[test]
fn malloc_of_a_whole_block_leaves_the_stack_node_alone() {
    let mut m = Memory::new(20, 32);
    m.load(vec![]).unwrap();
    assert_eq!(m.stack_start, 38);
    assert_eq!(m.malloc(20), Ok(9));
    assert_eq!(m.hpa_read_hpa_node(9), Ok((true, 38)));
    assert_eq!(m.hpa_read_hpa_node(38), Ok((true, 0)));
    assert!(list_is_well_formed(&m));
}

#[test]
fn malloc_without_room_for_another_node_takes_the_whole_block() {
    let mut m = Memory::new(20, 32);
    m.load(vec![]).unwrap();
    assert_eq!(m.malloc(15), Ok(9));
    assert_eq!(m.hpa_read_hpa_node(9), Ok((true, 38)));
    assert_eq!(m.hpa_read_hpa_node(38), Ok((true, 0)));
    assert!(list_is_well_formed(&m));
}

#[test]
fn malloc_with_room_for_exactly_a_node_splits() {
    let mut m = Memory::new(20, 32);
    m.load(vec![]).unwrap();
    assert_eq!(m.malloc(11), Ok(9));
    assert_eq!(m.hpa_read_hpa_node(9), Ok((true, 29)));
    assert_eq!(m.hpa_read_hpa_node(29), Ok((false, 38)));
    assert_eq!(m.hpa_read_hpa_node(38), Ok((true, 0)));
    assert!(list_is_well_formed(&m));
}

#[test]
fn corrupt_allocation_flag_is_reported() {
    let mut m = loaded();
    m.write_byte(3, 7).unwrap();
    assert_eq!(m.hpa_read_hpa_node(12), Err(ExecutionError::CorruptAllocationFlag { ptr: 12 }));
    assert_eq!(m.malloc(1), Err(ExecutionError::CorruptAllocationFlag { ptr: 12 }));
}

#[test]
fn backwards_link_is_reported() {
    let mut m = loaded();
    m.hpa_write_hpa_node(12, 12, true).unwrap();
    assert_eq!(m.malloc(1), Err(ExecutionError::CorruptHeapLink { ptr: 12 }));
}

#[test]
fn node_below_nine_is_an_overflow() {
    let m = loaded();
    assert_eq!(m.hpa_read_hpa_node(5), Err(ExecutionError::AddressOverflow));
}

#[test]
fn allocation_status_write() {
    let mut m = loaded();
    assert_eq!(m.hpa_write_hpa_node_allocation_status(12, true), Ok(()));
    assert_eq!(m.hpa_read_hpa_node(12), Ok((true, 85)));
}

#[test]
fn defragment_merges_free_neighbours() {
    let mut m = loaded();
    m.malloc(10).unwrap();
    m.malloc(5).unwrap();
    m.hpa_write_hpa_node_allocation_status(12, false).unwrap();
    m.hpa_write_hpa_node_allocation_status(31, false).unwrap();
    assert_eq!(m.hpa_defragment(12, false), Ok(()));
    assert_eq!(m.hpa_read_hpa_node(12), Ok((false, 45)));
}

#[test]
fn allocation_candidate_is_found() {
    let mut m = loaded();
    assert_eq!(m.hpa_get_allocation_canditate_internal(8), Ok(Some(12)));
    assert_eq!(m.hpa_get_allocation_canditate_internal(80), Ok(None));
    assert_eq!(m.hpa_get_allocation_canditate(8), Ok(12));
    assert_eq!(m.hpa_get_allocation_canditate(80), Err(ExecutionError::OutOfMemory { size: 80 }));
}

/// Walks the block list from the start of the heap and checks that every
/// node links at least nine bytes further on until the stack's node, which
/// is allocated and ends the list.
fn list_is_well_formed(m: &Memory) -> bool {
    let mut ptr = m.heap_start;
    loop {
        if ptr == m.stack_start {
            return m.hpa_read_hpa_node(ptr) == Ok((true, 0));
        }
        match m.hpa_read_hpa_node(ptr) {
            Ok((_, next)) if next >= ptr + 9 && next <= m.stack_start => ptr = next,
            _ => return false,
        }
    }
}

#[test]
fn heap_operations_keep_the_list_well_formed() {
    let mut m = loaded();
    assert!(list_is_well_formed(&m));
    let a = m.malloc(10).unwrap();
    assert!(list_is_well_formed(&m));
    let b = m.malloc(5).unwrap();
    assert!(list_is_well_formed(&m));
    assert_eq!(m.realloc(a, 10), Ok(a));
    assert!(list_is_well_formed(&m));
    let moved = m.realloc(a, 20).unwrap();
    assert_eq!(moved, 45);
    assert!(list_is_well_formed(&m));
    m.free(b).unwrap();
    assert!(list_is_well_formed(&m));
    m.free(moved).unwrap();
    assert!(list_is_well_formed(&m));
    assert_eq!(m.hpa_read_hpa_node(45), Ok((false, 85)));
}

#[test]
fn realloc_grows_into_the_free_block_before_the_stack() {
    let mut m = loaded();
    m.malloc(10).unwrap();
    m.malloc(5).unwrap();
    let c = m.malloc(8).unwrap();
    assert_eq!(c, 45);
    assert_eq!(m.hpa_read_hpa_node(62), Ok((false, 85)));
    m.free(31).unwrap();
    assert_eq!(m.realloc(c, 20), Ok(45));
    assert_eq!(m.hpa_read_hpa_node(45), Ok((true, 74)));
    assert_eq!(m.hpa_read_hpa_node(74), Ok((false, 85)));
    assert!(list_is_well_formed(&m));
}

#[test]
fn shrinking_keeps_the_list_well_formed() {
    let mut m = loaded();
    let a = m.malloc(20).unwrap();
    assert_eq!(m.hpa_read_hpa_node(a), Ok((true, 41)));
    assert_eq!(m.realloc(a, 5), Ok(a));
    assert!(list_is_well_formed(&m));
    assert_eq!(m.hpa_read_hpa_node(a), Ok((true, 26)));
    assert_eq!(m.hpa_read_hpa_node(26), Ok((false, 85)));
}
