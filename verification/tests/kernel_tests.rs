use nisvc::error::ExecutionError;
use nisvc::kernel::{
    framebuffer_size, CycleOutcome, FrameBuffer, HostRequest, IOInterface, InterruptOutcome,
    Kernel,
};

fn image_file(program: &[u8]) -> Vec<u8> {
    let mut f = b"NISVC-EF".to_vec();
    f.extend_from_slice(&0u64.to_le_bytes());
    f.extend_from_slice(&(program.len() as u64).to_le_bytes());
    f.extend_from_slice(program);
    f.extend_from_slice(&[0u8; 16]);
    f
}

fn kernel_with(program: &[u8]) -> Kernel {
    let mut k = Kernel::new(vec!["prog".to_string(), "arg1".to_string()], 128, 128);
    k.system.load(image_file(program)).unwrap();
    k
}

fn kernel() -> Kernel {
    kernel_with(&[0xfe])
}

/// Writes `bytes` at the start of the heap and returns their address.
fn put(k: &mut Kernel, bytes: &[u8]) -> u64 {
    let ptr = k.system.memory.heap_start;
    k.system.memory.write(ptr, bytes).unwrap();
    ptr
}

fn call(k: &mut Kernel, args: &[u64], code: u8) -> Result<InterruptOutcome, ExecutionError> {
    for a in args {
        k.system.push(*a).unwrap();
    }
    k.handle_interrupt(code)
}

#[test]
fn new_kernel_has_the_standard_streams() {
    let k = Kernel::new(vec![], 10, 20);
    assert_eq!(k.file_descriptor_vector.len(), 3);
    assert_eq!(k.file_descriptor_vector.get(&0), Some(&IOInterface::Stdin));
    assert_eq!(k.file_descriptor_vector.get(&1), Some(&IOInterface::Stdout));
    assert_eq!(k.file_descriptor_vector.get(&2), Some(&IOInterface::Stderr));
    assert_eq!(k.next_fd, 3);
    assert!(k.framebuffer.is_none());
    assert!(k.kernel_log);
    assert_eq!(k.cores_dumped, 0);
}

#[test]
fn malloc_call_pushes_the_block() {
    let mut k = kernel();
    let heap_start = k.system.memory.heap_start;
    assert!(matches!(call(&mut k, &[10], 0x0a), Ok(InterruptOutcome::Done)));
    assert_eq!(k.system.pop(), Ok(heap_start));
}

#[test]
fn realloc_free_memcpy_memset_calls() {
    let mut k = kernel();
    let heap_start = k.system.memory.heap_start;
    call(&mut k, &[8], 0x0a).unwrap();
    let a = k.system.pop().unwrap();
    assert!(matches!(call(&mut k, &[a, 0x33, 8], 0x0e), Ok(InterruptOutcome::Done)));
    assert_eq!(k.system.memory.read(a, 8), Ok(vec![0x33; 8]));
    call(&mut k, &[8], 0x0a).unwrap();
    let b = k.system.pop().unwrap();
    assert_eq!(b, heap_start + 17);
    k.system.memory.write(a, &[1, 2, 3]).unwrap();
    assert!(matches!(call(&mut k, &[b, a, 3], 0x0d), Ok(InterruptOutcome::Done)));
    assert_eq!(k.system.memory.read(b, 3), Ok(vec![1, 2, 3]));
    assert!(matches!(call(&mut k, &[a, 8], 0x0b), Ok(InterruptOutcome::Done)));
    assert_eq!(k.system.pop(), Ok(a));
    assert!(matches!(call(&mut k, &[b], 0x0c), Ok(InterruptOutcome::Done)));
    assert_eq!(k.system.memory.hpa_read_hpa_node(b).map(|n| n.0), Ok(false));
}

#[test]
fn open_asks_the_host_and_completion_pushes_fresh_descriptors() {
    let mut k = kernel();
    let ptr = put(&mut k, b"data.txt");
    match call(&mut k, &[ptr, 8], 0x01) {
        Ok(InterruptOutcome::Host(HostRequest::Open { path })) => assert_eq!(path, b"data.txt"),
        _ => panic!("expected an open request"),
    }
    assert_eq!(k.complete_open(), Ok(3));
    assert_eq!(k.system.pop(), Ok(3));
    assert_eq!(k.complete_open(), Ok(4));
    assert_eq!(k.file_descriptor_vector.get(&4), Some(&IOInterface::File));
    assert_eq!(k.next_fd, 5);
}

#[test]
fn write_goes_to_the_host() {
    let mut k = kernel();
    let ptr = put(&mut k, b"hi\n");
    match call(&mut k, &[1, ptr, 3], 0x02) {
        Ok(InterruptOutcome::Host(HostRequest::Write { fd, interface, bytes })) => {
            assert_eq!(fd, 1);
            assert_eq!(interface, IOInterface::Stdout);
            assert_eq!(bytes, b"hi\n");
        }
        _ => panic!("expected a write request"),
    }
}

#[test]
fn write_to_stdin_or_an_unknown_descriptor_is_refused() {
    let mut k = kernel();
    let ptr = put(&mut k, b"x");
    assert_eq!(call(&mut k, &[0, ptr, 1], 0x02).err(), Some(ExecutionError::CannotWriteStdin));
    assert_eq!(
        call(&mut k, &[9, ptr, 1], 0x02).err(),
        Some(ExecutionError::InvalidFileDescriptor { fd: 9 })
    );
}

#[test]
fn read_goes_to_the_host_and_completion_fills_the_buffer() {
    let mut k = kernel();
    let ptr = k.system.memory.heap_start;
    match call(&mut k, &[0, ptr, 3], 0x03) {
        Ok(InterruptOutcome::Host(HostRequest::Read { fd, interface, ptr: p, n })) => {
            assert_eq!((fd, interface, p, n), (0, IOInterface::Stdin, ptr, 3));
        }
        _ => panic!("expected a read request"),
    }
    assert_eq!(
        k.complete_read(ptr, 3, b"ab"),
        Err(ExecutionError::IncompleteRead { requested: 3, read: 2 })
    );
    assert_eq!(k.complete_read(ptr, 3, b"abc"), Ok(()));
    assert_eq!(k.system.memory.read(ptr, 3), Ok(b"abc".to_vec()));
}

#[test]
fn read_from_an_output_stream_is_refused() {
    let mut k = kernel();
    assert_eq!(
        call(&mut k, &[2, 0, 1], 0x03).err(),
        Some(ExecutionError::CannotReadOutputStream { fd: 2 })
    );
}

#[test]
fn close_refuses_low_descriptors_and_closes_others() {
    let mut k = kernel();
    assert_eq!(
        call(&mut k, &[2], 0x05).err(),
        Some(ExecutionError::CannotCloseStandardStream { fd: 2 })
    );
    k.complete_open().unwrap();
    k.complete_open().unwrap();
    assert_eq!(
        call(&mut k, &[3], 0x05).err(),
        Some(ExecutionError::CannotCloseStandardStream { fd: 3 })
    );
    assert!(matches!(
        call(&mut k, &[4], 0x05),
        Ok(InterruptOutcome::Host(HostRequest::Close { fd: 4 }))
    ));
    assert_eq!(k.file_descriptor_vector.get(&4), None);
}

#[test]
fn a_closed_descriptor_is_invalid() {
    let mut k = kernel();
    k.complete_open().unwrap();
    let fd = k.complete_open().unwrap();
    call(&mut k, &[fd], 0x05).unwrap();
    let ptr = put(&mut k, b"x");
    assert_eq!(
        call(&mut k, &[fd, ptr, 1], 0x02).err(),
        Some(ExecutionError::InvalidFileDescriptor { fd })
    );
    assert_eq!(
        call(&mut k, &[fd], 0x12).err(),
        Some(ExecutionError::InvalidFileDescriptor { fd })
    );
}

#[test]
fn file_size_asks_the_host_for_files_only() {
    let mut k = kernel();
    assert_eq!(call(&mut k, &[0], 0x12).err(), Some(ExecutionError::CannotStatStream { fd: 0 }));
    let fd = k.complete_open().unwrap();
    k.system.pop().unwrap();
    assert!(matches!(
        call(&mut k, &[fd], 0x12),
        Ok(InterruptOutcome::Host(HostRequest::FileSize { fd: 3 }))
    ));
    assert_eq!(k.push_result(42), Ok(()));
    assert_eq!(k.system.pop(), Ok(42));
}

#[test]
fn silence_switches_the_log_off() {
    let mut k = kernel();
    assert!(matches!(k.handle_interrupt(0x06), Ok(InterruptOutcome::Done)));
    assert!(!k.kernel_log);
}

#[test]
fn unsupported_and_unexpected_interrupts() {
    let mut k = kernel();
    for code in [0x04u8, 0x07, 0x08, 0x09] {
        assert_eq!(
            k.handle_interrupt(code).err(),
            Some(ExecutionError::UnsupportedInterrupt { code })
        );
    }
    for code in [0x14u8, 0x17, 0x20, 0x31, 0xff] {
        assert_eq!(
            k.handle_interrupt(code).err(),
            Some(ExecutionError::UnexpectedInterrupt { code })
        );
    }
}

#[test]
fn dump_asks_the_host_and_core_files_are_numbered() {
    let mut k = kernel();
    assert!(matches!(k.handle_interrupt(0x13), Ok(InterruptOutcome::Host(HostRequest::Dump))));
    assert_eq!(k.core_dump(), 0);
    assert_eq!(k.core_dump(), 1);
    assert_eq!(k.cores_dumped, 2);
}

#[test]
fn argc_and_argv() {
    let mut k = kernel();
    assert!(matches!(k.handle_interrupt(0x15), Ok(InterruptOutcome::Done)));
    assert_eq!(k.system.pop(), Ok(2));
    assert!(matches!(call(&mut k, &[1], 0x16), Ok(InterruptOutcome::Done)));
    let len = k.system.pop().unwrap();
    let ptr = k.system.pop().unwrap();
    assert_eq!(len, 4);
    assert_eq!(ptr, k.system.memory.heap_start);
    assert_eq!(k.system.memory.read(ptr, len), Ok(b"arg1".to_vec()));
}

#[test]
fn argv_out_of_bounds_is_refused() {
    let mut k = kernel();
    assert_eq!(
        call(&mut k, &[5], 0x16).err(),
        Some(ExecutionError::ArgumentOutOfBounds { index: 5, argc: 2 })
    );
}

#[test]
fn framebuffer_calls() {
    let mut k = kernel();
    let ptr = k.system.memory.heap_start;
    assert!(matches!(k.handle_interrupt(0x10), Ok(InterruptOutcome::Done)));
    assert!(matches!(k.handle_interrupt(0x11), Ok(InterruptOutcome::Done)));
    let expected = FrameBuffer { ptr, width: 2, height: 3, mode: 4, size: 18 };
    match call(&mut k, &[ptr, 0x1_0000_0002, 3, 0x104], 0x0f) {
        Ok(InterruptOutcome::Host(HostRequest::InitFramebuffer { framebuffer, replaces })) => {
            assert_eq!(framebuffer, expected);
            assert!(!replaces);
        }
        _ => panic!("expected a framebuffer request"),
    }
    assert_eq!(k.framebuffer, Some(expected));
    assert!(matches!(k.handle_interrupt(0x11), Ok(InterruptOutcome::Done)));
    assert_eq!(k.system.pop(), Ok(ptr));
    let shown = k.system.memory.read(ptr, 18).unwrap();
    match k.handle_interrupt(0x10) {
        Ok(InterruptOutcome::Host(HostRequest::DrawFramebuffer { bytes })) => {
            assert_eq!(bytes, shown)
        }
        _ => panic!("expected a draw request"),
    }
    assert!(matches!(
        call(&mut k, &[1_000_000, 2, 3, 4], 0x0f),
        Ok(InterruptOutcome::Host(HostRequest::InitFramebuffer { replaces: true, .. }))
    ));
    assert_eq!(
        k.handle_interrupt(0x10).err(),
        Some(ExecutionError::FramebufferOutOfBounds { ptr: 1_000_000, size: 18 })
    );
}

#[test]
fn oversized_framebuffer_is_refused() {
    let mut k = kernel();
    assert_eq!(
        call(&mut k, &[0, u32::MAX as u64, u32::MAX as u64, 0], 0x0f).err(),
        Some(ExecutionError::AddressOverflow)
    );
    assert!(k.framebuffer.is_none());
}

#[test]
fn framebuffer_sizes() {
    assert_eq!(framebuffer_size(2, 3), Some(18));
    assert_eq!(framebuffer_size(0, 5), Some(0));
    assert_eq!(framebuffer_size(640, 480), Some(921_600));
    assert_eq!(framebuffer_size(u32::MAX, u32::MAX), None);
}

#[test]
fn interface_checks() {
    assert_eq!(IOInterface::Stdin.check_write(), Err(ExecutionError::CannotWriteStdin));
    assert_eq!(IOInterface::File.check_write(), Ok(()));
    assert_eq!(
        IOInterface::Stdout.check_read(1),
        Err(ExecutionError::CannotReadOutputStream { fd: 1 })
    );
    assert_eq!(IOInterface::Stdin.check_read(0), Ok(()));
    assert_eq!(IOInterface::Stderr.check_stat(2), Err(ExecutionError::CannotStatStream { fd: 2 }));
    assert_eq!(IOInterface::File.check_stat(3), Ok(()));
    assert_eq!(IOInterface::Stdin.check_seek(0), Err(ExecutionError::CannotSeekStream { fd: 0 }));
    assert_eq!(IOInterface::File.check_seek(5), Ok(()));
}

#[test]
fn cycles_run_a_program_through_a_system_call() {
    let mut program = vec![0x25];
    program.extend_from_slice(&10u64.to_le_bytes());
    program.push(0x24);
    program.extend_from_slice(&0x0au64.to_le_bytes());
    program.extend_from_slice(&[0x19, 0x04]);
    program.push(0x24);
    program.extend_from_slice(&0x14u64.to_le_bytes());
    let mut k = kernel_with(&program);
    let heap_start = k.system.memory.heap_start;
    assert!(matches!(k.cycle(), Ok(CycleOutcome::Continue)));
    assert!(matches!(k.cycle(), Ok(CycleOutcome::Continue)));
    assert_eq!(k.system.pending_interrupt, 0);
    assert!(matches!(k.cycle(), Ok(CycleOutcome::Continue)));
    assert_eq!(k.system.registers.read(0x04), heap_start);
    assert!(matches!(k.cycle(), Ok(CycleOutcome::Kill)));
}

#[test]
fn cycles_report_halts_floats_and_host_work() {
    let mut k = kernel_with(&[0xfe]);
    assert!(matches!(k.cycle(), Ok(CycleOutcome::Halt)));
    let mut k = kernel_with(&[0x1e, 0x06, 0x04, 0x05]);
    assert!(matches!(k.cycle(), Ok(CycleOutcome::Float(_))));
    let mut program = vec![0x24];
    program.extend_from_slice(&0x13u64.to_le_bytes());
    let mut k = kernel_with(&program);
    assert!(matches!(k.cycle(), Ok(CycleOutcome::Host(HostRequest::Dump))));
    assert_eq!(k.system.pending_interrupt, 0);
}

#[test]
fn a_failing_system_call_keeps_the_interrupt_pending() {
    let mut program = vec![0x24];
    program.extend_from_slice(&0x04u64.to_le_bytes());
    let mut k = kernel_with(&program);
    assert_eq!(k.cycle().err(), Some(ExecutionError::UnsupportedInterrupt { code: 4 }));
    assert_eq!(k.system.pending_interrupt, 4);
}

#[test]
fn user_interrupt_vector_starts_empty() {
    let k = kernel();
    assert_eq!(k.resolve_user_interrupt(0x31), 0);
    assert_eq!(k.resolve_user_interrupt(0xfd), 0);
}
