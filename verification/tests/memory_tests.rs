use nisvc::bytes::{bytes_to_u64, le_to_u64, u64_to_le_bytes};
use nisvc::error::ExecutionError;
use nisvc::memory::Memory;

fn memory_of(bytes: &[u8]) -> Memory {
    let mut m = Memory::new(0, 0);
    m.physical = bytes.to_vec();
    m
}

#[test]
fn new_memory_is_empty() {
    let m = Memory::new(100, 50);
    assert!(m.physical.is_empty());
    assert_eq!(m.heap_size, 100);
    assert_eq!(m.stack_size, 50);
    assert_eq!(m.heap_start, 0);
    assert_eq!(m.stack_start, 0);
    assert_eq!(m.total_heap_allocations, 0);
}

#[test]
fn write_byte_then_read_byte() {
    let mut m = memory_of(&[0; 8]);
    assert_eq!(m.write_byte(3, 0xab), Ok(()));
    assert_eq!(m.read_byte(3), Ok(0xab));
    assert_eq!(m.read_byte(2), Ok(0));
}

#[test]
fn byte_access_past_the_end_is_refused() {
    let mut m = memory_of(&[0; 4]);
    assert_eq!(m.read_byte(4), Err(ExecutionError::MemoryAccessViolation { address: 4 }));
    assert_eq!(
        m.write_byte(9, 1),
        Err(ExecutionError::MemoryAccessViolation { address: 9 })
    );
}

#[test]
fn write_then_read_gives_the_bytes_back() {
    let mut m = memory_of(&[0; 16]);
    assert_eq!(m.write(4, &[1, 2, 3, 4, 5]), Ok(5));
    assert_eq!(m.read(4, 5), Ok(vec![1, 2, 3, 4, 5]));
    assert_eq!(m.read(3, 1), Ok(vec![0]));
    assert_eq!(m.read(9, 1), Ok(vec![0]));
}

#[test]
fn read_of_zero_bytes_is_empty_anywhere() {
    let m = memory_of(&[0; 2]);
    assert_eq!(m.read(1000, 0), Ok(vec![]));
}

#[test]
fn read_past_the_end_is_refused() {
    let m = memory_of(&[0; 8]);
    assert_eq!(m.read(6, 4), Err(ExecutionError::MemoryAccessViolation { address: 8 }));
    assert_eq!(m.read(20, 1), Err(ExecutionError::MemoryAccessViolation { address: 20 }));
}

#[test]
fn write_past_the_end_writes_what_fits() {
    let mut m = memory_of(&[0; 4]);
    assert_eq!(
        m.write(2, &[7, 8, 9]),
        Err(ExecutionError::MemoryAccessViolation { address: 4 })
    );
    assert_eq!(m.physical, vec![0, 0, 7, 8]);
}

#[test]
fn read_address_is_little_endian() {
    let m = memory_of(&[0x01, 0x02, 0, 0, 0, 0, 0, 0x80, 0xff]);
    assert_eq!(m.read_address(0), Ok(0x8000_0000_0000_0201));
    assert_eq!(m.read_address(2), Err(ExecutionError::MemoryAccessViolation { address: 9 }));
}

#[test]
fn push_then_pop_round_trips() {
    let mut m = memory_of(&[0; 32]);
    let sp = m.push(8, 0x1122_3344_5566_7788).unwrap();
    assert_eq!(sp, 16);
    assert_eq!(&m.physical[8..16], &[0x88, 0x77, 0x66, 0x55, 0x44, 0x33, 0x22, 0x11]);
    assert_eq!(m.pop(sp), Ok((8, 0x1122_3344_5566_7788)));
}

#[test]
fn pop_below_eight_is_an_overflow() {
    let m = memory_of(&[0; 32]);
    assert_eq!(m.pop(7), Err(ExecutionError::AddressOverflow));
}

#[test]
fn push_past_the_end_is_refused() {
    let mut m = memory_of(&[0; 12]);
    assert_eq!(m.push(8, 1), Err(ExecutionError::MemoryAccessViolation { address: 12 }));
}

#[test]
fn memcpy_copies_disjoint_ranges() {
    let mut m = memory_of(&[1, 2, 3, 4, 0, 0, 0, 0]);
    assert_eq!(m.memcpy(4, 0, 4), Ok(()));
    assert_eq!(m.physical, vec![1, 2, 3, 4, 1, 2, 3, 4]);
}

#[test]
fn memcpy_forward_overlap_repeats_bytes() {
    let mut m = memory_of(&[9, 0, 0, 0]);
    assert_eq!(m.memcpy(1, 0, 3), Ok(()));
    assert_eq!(m.physical, vec![9, 9, 9, 9]);
}

#[test]
fn memcpy_past_the_end_stops_there() {
    let mut m = memory_of(&[1, 2, 3, 4, 5]);
    assert_eq!(
        m.memcpy(3, 0, 3),
        Err(ExecutionError::MemoryAccessViolation { address: 5 })
    );
    assert_eq!(m.physical, vec![1, 2, 3, 1, 2]);
}

#[test]
fn memset_fills_and_refuses_past_the_end() {
    let mut m = memory_of(&[0; 6]);
    assert_eq!(m.memset(1, 0x5a, 3), Ok(()));
    assert_eq!(m.physical, vec![0, 0x5a, 0x5a, 0x5a, 0, 0]);
    assert_eq!(
        m.memset(4, 7, 4),
        Err(ExecutionError::MemoryAccessViolation { address: 6 })
    );
    assert_eq!(m.physical, vec![0, 0x5a, 0x5a, 0x5a, 7, 7]);
}

#[test]
fn byte_conversions() {
    assert_eq!(u64_to_le_bytes(0x0102_0304_0506_0708), vec![8, 7, 6, 5, 4, 3, 2, 1]);
    assert_eq!(bytes_to_u64(&[8, 7, 6, 5, 4, 3, 2, 1]), 0x0102_0304_0506_0708);
    assert_eq!(le_to_u64(&[0x34, 0x12]), 0x1234);
    assert_eq!(le_to_u64(&[]), 0);
}
