use std::collections::HashMap;

use vstd::prelude::*;
use vstd::std_specs::hash::group_hash_axioms;
use vstd::wrapping::u64_specs;

use crate::cpu::{pop_spec, push_spec, MachineState, CPU};
use crate::error::ExecutionError;
use crate::heap::{free_spec, malloc_spec, realloc_moves, realloc_spec};
use crate::instructions::{step_spec, FloatRequest, StepOutcome};
use crate::memory::{first_unreachable, fits, memcpy_spec, overwrite, read_spec, write_spec};

verus! {

broadcast use group_hash_axioms;

/// What a file descriptor refers to.
#[derive(Clone, Copy, Debug, PartialEq, Eq, Structural)]
pub enum IOInterface {
    Stdin,
    Stdout,
    Stderr,
    File,
}

/// The framebuffer that the program set up: where it lies in memory, its
/// shape, and how many bytes it spans (three per pixel).
#[derive(Clone, Copy, Debug, PartialEq, Eq, Structural)]
pub struct FrameBuffer {
    pub ptr: u64,
    pub width: u32,
    pub height: u32,
    pub mode: u8,
    pub size: u64,
}

/// Work that only the host can do, handed out by a system call.
pub enum HostRequest {
    /// Open the file at this path (bytes as in memory); then call
    /// `complete_open`.
    Open { path: Vec<u8> },
    /// Write the bytes to the stream behind the descriptor.
    Write { fd: u64, interface: IOInterface, bytes: Vec<u8> },
    /// Read `n` bytes from the stream behind the descriptor; then call
    /// `complete_read` with the address and the bytes read.
    Read { fd: u64, interface: IOInterface, ptr: u64, n: u64 },
    /// Drop the host's handle of the closed descriptor.
    Close { fd: u64 },
    /// Find the size of the file behind the descriptor; then call
    /// `push_result` with it.
    FileSize { fd: u64 },
    /// Set up a display for the framebuffer, dropping the old one if
    /// `replaces` holds.
    InitFramebuffer { framebuffer: FrameBuffer, replaces: bool },
    /// Show these framebuffer bytes.
    DrawFramebuffer { bytes: Vec<u8> },
    /// Write memory to a core file.
    Dump,
}

/// A host request, as values.
pub enum RequestView {
    Open { path: Seq<u8> },
    Write { fd: u64, interface: IOInterface, bytes: Seq<u8> },
    Read { fd: u64, interface: IOInterface, ptr: u64, n: u64 },
    Close { fd: u64 },
    FileSize { fd: u64 },
    InitFramebuffer { framebuffer: FrameBuffer, replaces: bool },
    DrawFramebuffer { bytes: Seq<u8> },
    Dump,
}

impl View for HostRequest {
    type V = RequestView;

    open spec fn view(&self) -> RequestView {
        match self {
            HostRequest::Open { path } => RequestView::Open { path: path@ },
            HostRequest::Write { fd, interface, bytes } => RequestView::Write {
                fd: *fd,
                interface: *interface,
                bytes: bytes@,
            },
            HostRequest::Read { fd, interface, ptr, n } => RequestView::Read {
                fd: *fd,
                interface: *interface,
                ptr: *ptr,
                n: *n,
            },
            HostRequest::Close { fd } => RequestView::Close { fd: *fd },
            HostRequest::FileSize { fd } => RequestView::FileSize { fd: *fd },
            HostRequest::InitFramebuffer { framebuffer, replaces } => RequestView::InitFramebuffer {
                framebuffer: *framebuffer,
                replaces: *replaces,
            },
            HostRequest::DrawFramebuffer { bytes } => RequestView::DrawFramebuffer {
                bytes: bytes@,
            },
            HostRequest::Dump => RequestView::Dump,
        }
    }
}

/// What handling an interrupt leaves to do.
pub enum InterruptOutcome {
    /// Nothing: the call is complete.
    Done,
    /// The host must carry out the request.
    Host(HostRequest),
}

/// An interrupt outcome, as values.
pub enum OutcomeView {
    Done,
    Host(RequestView),
}

impl View for InterruptOutcome {
    type V = OutcomeView;

    open spec fn view(&self) -> OutcomeView {
        match self {
            InterruptOutcome::Done => OutcomeView::Done,
            InterruptOutcome::Host(req) => OutcomeView::Host(req@),
        }
    }
}

/// A result of an interrupt, as values.
pub open spec fn outcome_view(r: Result<InterruptOutcome, ExecutionError>) -> Result<
    OutcomeView,
    ExecutionError,
> {
    match r {
        Ok(o) => Ok(o@),
        Err(e) => Err(e),
    }
}

/// The kernel's state as values: the machine, where the heap starts, the
/// count of heap allocations, the open descriptors, the framebuffer, the
/// argument bytes and the log switch.
pub struct KernelState {
    pub cpu: MachineState,
    pub heap_start: u64,
    pub allocations: u64,
    pub files: Map<u64, IOInterface>,
    pub next_fd: u64,
    pub framebuffer: Option<FrameBuffer>,
    pub argv: Seq<Seq<u8>>,
    pub log_enabled: bool,
}

/// The kernel: the processor and the state that system calls keep.
///
/// Interrupt codes `0x01..0x30` are system calls, `0x31..0xfe` are
/// interrupts that the program defines, and `0x14` stops execution.
pub struct Kernel {
    pub system: CPU,
    pub framebuffer: Option<FrameBuffer>,
    pub user_interrupt_vector: [u64; 205],
    pub breakpoint_vector: Vec<u64>,
    pub file_descriptor_vector: HashMap<u64, IOInterface>,
    pub cmdline: Vec<String>,
    pub next_fd: u64,
    pub cores_dumped: u64,
    pub kernel_log: bool,
}

/// The state with another machine state.
pub open spec fn with_cpu(k: KernelState, cpu: MachineState) -> KernelState {
    KernelState { cpu, ..k }
}

/// The state with other memory bytes.
pub open spec fn with_mem(k: KernelState, mem: Seq<u8>) -> KernelState {
    with_cpu(k, MachineState { mem, ..k.cpu })
}

/// The state with another count of heap allocations.
pub open spec fn counted(k: KernelState, allocations: u64) -> KernelState {
    KernelState { allocations, ..k }
}

/// Popping a word from the machine's stack.
pub open spec fn kpop(k: KernelState) -> (Result<u64, ExecutionError>, KernelState) {
    (pop_spec(k.cpu).0, with_cpu(k, pop_spec(k.cpu).1))
}

/// Pushing a word onto the machine's stack.
pub open spec fn kpush(k: KernelState, v: u64) -> (Result<(), ExecutionError>, KernelState) {
    (push_spec(k.cpu, v).0, with_cpu(k, push_spec(k.cpu, v).1))
}

/// A step that produces nothing, turned into a completed call.
pub open spec fn done_after(p: (Result<(), ExecutionError>, KernelState)) -> (
    Result<OutcomeView, ExecutionError>,
    KernelState,
) {
    match p.0 {
        Ok(_) => (Ok(OutcomeView::Done), p.1),
        Err(e) => (Err(e), p.1),
    }
}

/// Fields that no system call changes.
pub open spec fn kernel_frame(a: Kernel, b: Kernel) -> bool {
    &&& a.cmdline@ == b.cmdline@
    &&& a.cores_dumped == b.cores_dumped
    &&& a.user_interrupt_vector@ == b.user_interrupt_vector@
    &&& a.breakpoint_vector@ == b.breakpoint_vector@
    &&& a.system.memory.heap_start == b.system.memory.heap_start
    &&& a.system.memory.stack_start == b.system.memory.stack_start
    &&& a.system.memory.heap_size == b.system.memory.heap_size
    &&& a.system.memory.stack_size == b.system.memory.stack_size
    &&& a.system.memory.range == b.system.memory.range
}

/// `malloc(size)`: pops the size, allocates, pushes the pointer.
pub open spec fn sys_malloc_spec(k: KernelState) -> (Result<OutcomeView, ExecutionError>, KernelState) {
    let (r1, k1) = kpop(k);
    match r1 {
        Err(e) => (Err(e), k1),
        Ok(size) => {
            let k2 = counted(k1, u64_specs::wrapping_add(k1.allocations, 1));
            let (mr, m) = malloc_spec(k2.cpu.mem, k2.heap_start, size);
            match mr {
                Err(e) => (Err(e), with_mem(k2, m)),
                Ok(ptr) => done_after(kpush(with_mem(k2, m), ptr)),
            }
        },
    }
}

/// `realloc(ptr, size)`: pops the size and the pointer, resizes, pushes the
/// block's pointer.
pub open spec fn sys_realloc_spec(k: KernelState) -> (Result<OutcomeView, ExecutionError>, KernelState) {
    let (r1, k1) = kpop(k);
    match r1 {
        Err(e) => (Err(e), k1),
        Ok(size) => {
            let (r2, k2) = kpop(k1);
            match r2 {
                Err(e) => (Err(e), k2),
                Ok(ptr) => {
                    let k3 = if realloc_moves(k2.cpu.mem, ptr, size) {
                        counted(k2, u64_specs::wrapping_add(k2.allocations, 1))
                    } else {
                        k2
                    };
                    let (rr, m) = realloc_spec(k3.cpu.mem, k3.heap_start, ptr, size);
                    match rr {
                        Err(e) => (Err(e), with_mem(k3, m)),
                        Ok(p) => done_after(kpush(with_mem(k3, m), p)),
                    }
                },
            }
        },
    }
}

/// `free(ptr)`: pops the pointer and frees its block.
pub open spec fn sys_free_spec(k: KernelState) -> (Result<OutcomeView, ExecutionError>, KernelState) {
    let (r1, k1) = kpop(k);
    match r1 {
        Err(e) => (Err(e), k1),
        Ok(ptr) => {
            let k2 = counted(k1, u64_specs::wrapping_sub(k1.allocations, 1));
            let (fr, m) = free_spec(k2.cpu.mem, ptr);
            done_after((fr, with_mem(k2, m)))
        },
    }
}

/// `memcpy(dest, src, n)`: pops `n`, the source and the destination, copies.
pub open spec fn sys_memcpy_spec(k: KernelState) -> (Result<OutcomeView, ExecutionError>, KernelState) {
    let (r1, k1) = kpop(k);
    match r1 {
        Err(e) => (Err(e), k1),
        Ok(n) => {
            let (r2, k2) = kpop(k1);
            match r2 {
                Err(e) => (Err(e), k2),
                Ok(src) => {
                    let (r3, k3) = kpop(k2);
                    match r3 {
                        Err(e) => (Err(e), k3),
                        Ok(dest) => {
                            let (cr, m) = memcpy_spec(k3.cpu.mem, dest, src, n);
                            done_after((cr, with_mem(k3, m)))
                        },
                    }
                },
            }
        },
    }
}

/// `memset(dest, byte, n)`: pops `n`, the value and the destination, and
/// sets `n` bytes to the value's low byte.
pub open spec fn sys_memset_spec(k: KernelState) -> (Result<OutcomeView, ExecutionError>, KernelState) {
    let (r1, k1) = kpop(k);
    match r1 {
        Err(e) => (Err(e), k1),
        Ok(n) => {
            let (r2, k2) = kpop(k1);
            match r2 {
                Err(e) => (Err(e), k2),
                Ok(value) => {
                    let (r3, k3) = kpop(k2);
                    match r3 {
                        Err(e) => (Err(e), k3),
                        Ok(dest) => {
                            let m = k3.cpu.mem;
                            let m1 = overwrite(m, dest, Seq::new(n as nat, |i: int| value as u8));
                            if fits(m.len(), dest, n as nat) {
                                (Ok(OutcomeView::Done), with_mem(k3, m1))
                            } else {
                                (
                                    Err(
                                        ExecutionError::MemoryAccessViolation {
                                            address: first_unreachable(m.len(), dest),
                                        },
                                    ),
                                    with_mem(k3, m1),
                                )
                            }
                        },
                    }
                },
            }
        },
    }
}

impl Kernel {
    /// The kernel's state as values.
    pub open spec fn state(&self) -> KernelState {
        KernelState {
            cpu: self.system.state(),
            heap_start: self.system.memory.heap_start,
            allocations: self.system.memory.total_heap_allocations,
            files: self.file_descriptor_vector@,
            next_fd: self.next_fd,
            framebuffer: self.framebuffer,
            argv: self.cmdline@.map_values(|s: String| vstd::utf8::encode_utf8(s@)),
            log_enabled: self.kernel_log,
        }
    }

    /// A kernel for a program with the given arguments and heap and stack
    /// sizes: descriptors 0, 1 and 2 are standard input, output and error,
    /// and the next file opened gets descriptor 3.
    pub fn new(cmdline: Vec<String>, heap: u64, stack: u64) -> (k: Self)
        ensures
            k.system.registers@ == Seq::new(
                16,
                |i: int| if i == 0 { 0 } else { crate::constant::UNINITIALIZED_REGISTER },
            ),
            k.system.memory.physical@ == Seq::<u8>::empty(),
            k.system.memory.heap_size == heap,
            k.system.memory.stack_size == stack,
            k.system.memory.heap_start == 0,
            k.system.memory.stack_start == 0,
            k.system.memory.range == 0,
            k.system.memory.total_heap_allocations == 0,
            k.system.pending_interrupt == 0,
            k.file_descriptor_vector@ == map![
                0u64 => IOInterface::Stdin,
                1u64 => IOInterface::Stdout,
                2u64 => IOInterface::Stderr,
            ],
            k.next_fd == 3,
            descriptors_below(k.state()),
            k.cores_dumped == 0,
            k.framebuffer is None,
            k.cmdline@ == cmdline@,
            k.kernel_log,
            k.breakpoint_vector@ == Seq::<u64>::empty(),
            forall|i: int| 0 <= i < 205 ==> k.user_interrupt_vector@[i] == 0,
    {
        let mut file_descriptor_vector: HashMap<u64, IOInterface> = HashMap::new();
        file_descriptor_vector.insert(0, IOInterface::Stdin);
        file_descriptor_vector.insert(1, IOInterface::Stdout);
        file_descriptor_vector.insert(2, IOInterface::Stderr);
        assert(file_descriptor_vector@ =~= map![
            0u64 => IOInterface::Stdin,
            1u64 => IOInterface::Stdout,
            2u64 => IOInterface::Stderr,
        ]);
        Kernel {
            system: CPU::new(heap, stack),
            framebuffer: None,
            user_interrupt_vector: [0u64; 205],
            breakpoint_vector: Vec::new(),
            file_descriptor_vector,
            cmdline,
            next_fd: 3,
            cores_dumped: 0,
            kernel_log: true,
        }
    }

    /// `malloc(size)`.
    fn sys_malloc(&mut self) -> (r: Result<InterruptOutcome, ExecutionError>)
        ensures
            (outcome_view(r), final(self).state()) == sys_malloc_spec(old(self).state()),
            kernel_frame(*final(self), *old(self)),
    {
        let size = self.system.pop()?;
        let ptr = self.system.memory.malloc(size)?;
        self.system.push(ptr)?;
        Ok(InterruptOutcome::Done)
    }

    /// `realloc(ptr, size)`.
    fn sys_realloc(&mut self) -> (r: Result<InterruptOutcome, ExecutionError>)
        ensures
            (outcome_view(r), final(self).state()) == sys_realloc_spec(old(self).state()),
            kernel_frame(*final(self), *old(self)),
    {
        let new_size = self.system.pop()?;
        let ptr = self.system.pop()?;
        let new_ptr = self.system.memory.realloc(ptr, new_size)?;
        self.system.push(new_ptr)?;
        Ok(InterruptOutcome::Done)
    }

    /// `free(ptr)`.
    fn sys_free(&mut self) -> (r: Result<InterruptOutcome, ExecutionError>)
        ensures
            (outcome_view(r), final(self).state()) == sys_free_spec(old(self).state()),
            kernel_frame(*final(self), *old(self)),
    {
        let ptr = self.system.pop()?;
        self.system.memory.free(ptr)?;
        Ok(InterruptOutcome::Done)
    }

    /// `memcpy(dest, src, n)`.
    fn sys_memcpy(&mut self) -> (r: Result<InterruptOutcome, ExecutionError>)
        ensures
            (outcome_view(r), final(self).state()) == sys_memcpy_spec(old(self).state()),
            kernel_frame(*final(self), *old(self)),
    {
        let n = self.system.pop()?;
        let src = self.system.pop()?;
        let dest = self.system.pop()?;
        self.system.memory.memcpy(dest, src, n)?;
        Ok(InterruptOutcome::Done)
    }

    /// `memset(dest, byte, n)`.
    fn sys_memset(&mut self) -> (r: Result<InterruptOutcome, ExecutionError>)
        ensures
            (outcome_view(r), final(self).state()) == sys_memset_spec(old(self).state()),
            kernel_frame(*final(self), *old(self)),
    {
        let n = self.system.pop()?;
        let value = self.system.pop()?;
        let dest = self.system.pop()?;
        self.system.memory.memset(dest, value as u8, n)?;
        Ok(InterruptOutcome::Done)
    }
}

/// The interface behind a descriptor.
pub open spec fn lookup_spec(files: Map<u64, IOInterface>, fd: u64) -> Result<
    IOInterface,
    ExecutionError,
> {
    if files.contains_key(fd) {
        Ok(files[fd])
    } else {
        Err(ExecutionError::InvalidFileDescriptor { fd })
    }
}

/// Whether a stream can be written: standard input cannot.
pub open spec fn write_check_spec(i: IOInterface) -> Result<(), ExecutionError> {
    if i == IOInterface::Stdin {
        Err(ExecutionError::CannotWriteStdin)
    } else {
        Ok(())
    }
}

/// Whether a stream can be read: standard output and error cannot.
pub open spec fn read_check_spec(i: IOInterface, fd: u64) -> Result<(), ExecutionError> {
    if i == IOInterface::Stdout || i == IOInterface::Stderr {
        Err(ExecutionError::CannotReadOutputStream { fd })
    } else {
        Ok(())
    }
}

/// Whether a stream has a size: only files do.
pub open spec fn stat_check_spec(i: IOInterface, fd: u64) -> Result<(), ExecutionError> {
    if i == IOInterface::File {
        Ok(())
    } else {
        Err(ExecutionError::CannotStatStream { fd })
    }
}

/// Whether a stream can seek: only files can.
pub open spec fn seek_check_spec(i: IOInterface, fd: u64) -> Result<(), ExecutionError> {
    if i == IOInterface::File {
        Ok(())
    } else {
        Err(ExecutionError::CannotSeekStream { fd })
    }
}

/// `open(str_ptr, str_len)`: pops the length and the pointer of the path
/// and asks the host to open the file at the path's bytes.
pub open spec fn sys_open_spec(k: KernelState) -> (Result<OutcomeView, ExecutionError>, KernelState) {
    let (r1, k1) = kpop(k);
    match r1 {
        Err(e) => (Err(e), k1),
        Ok(len) => {
            let (r2, k2) = kpop(k1);
            match r2 {
                Err(e) => (Err(e), k2),
                Ok(ptr) => match read_spec(k2.cpu.mem, ptr, len as nat) {
                    Err(e) => (Err(e), k2),
                    Ok(path) => (Ok(OutcomeView::Host(RequestView::Open { path })), k2),
                },
            }
        },
    }
}

/// `write(fd, buffer, n)`: pops `n`, the buffer and the descriptor, reads
/// the buffer, and asks the host to write it to a writable stream.
pub open spec fn sys_write_spec(k: KernelState) -> (Result<OutcomeView, ExecutionError>, KernelState) {
    let (r1, k1) = kpop(k);
    match r1 {
        Err(e) => (Err(e), k1),
        Ok(len) => {
            let (r2, k2) = kpop(k1);
            match r2 {
                Err(e) => (Err(e), k2),
                Ok(ptr) => {
                    let (r3, k3) = kpop(k2);
                    match r3 {
                        Err(e) => (Err(e), k3),
                        Ok(fd) => match read_spec(k3.cpu.mem, ptr, len as nat) {
                            Err(e) => (Err(e), k3),
                            Ok(bytes) => match lookup_spec(k3.files, fd) {
                                Err(e) => (Err(e), k3),
                                Ok(interface) => match write_check_spec(interface) {
                                    Err(e) => (Err(e), k3),
                                    Ok(_) => (
                                        Ok(
                                            OutcomeView::Host(
                                                RequestView::Write { fd, interface, bytes },
                                            ),
                                        ),
                                        k3,
                                    ),
                                },
                            },
                        },
                    }
                },
            }
        },
    }
}

/// `read(fd, buffer, n)`: pops `n`, the buffer and the descriptor, and asks
/// the host to read `n` bytes from a readable stream into the buffer.
pub open spec fn sys_read_spec(k: KernelState) -> (Result<OutcomeView, ExecutionError>, KernelState) {
    let (r1, k1) = kpop(k);
    match r1 {
        Err(e) => (Err(e), k1),
        Ok(n) => {
            let (r2, k2) = kpop(k1);
            match r2 {
                Err(e) => (Err(e), k2),
                Ok(ptr) => {
                    let (r3, k3) = kpop(k2);
                    match r3 {
                        Err(e) => (Err(e), k3),
                        Ok(fd) => match lookup_spec(k3.files, fd) {
                            Err(e) => (Err(e), k3),
                            Ok(interface) => match read_check_spec(interface, fd) {
                                Err(e) => (Err(e), k3),
                                Ok(_) => (
                                    Ok(
                                        OutcomeView::Host(
                                            RequestView::Read { fd, interface, ptr, n },
                                        ),
                                    ),
                                    k3,
                                ),
                            },
                        },
                    }
                },
            }
        },
    }
}

/// `close(fd)`: pops the descriptor; descriptors below 4 stay open, any
/// other leaves the table.
pub open spec fn sys_close_spec(k: KernelState) -> (Result<OutcomeView, ExecutionError>, KernelState) {
    let (r1, k1) = kpop(k);
    match r1 {
        Err(e) => (Err(e), k1),
        Ok(fd) => if fd < 4 {
            (Err(ExecutionError::CannotCloseStandardStream { fd }), k1)
        } else {
            (
                Ok(OutcomeView::Host(RequestView::Close { fd })),
                KernelState { files: k1.files.remove(fd), ..k1 },
            )
        },
    }
}

/// `get_file_size(fd)`: pops the descriptor and asks the host for the size
/// of the file behind it.
pub open spec fn sys_file_size_spec(k: KernelState) -> (
    Result<OutcomeView, ExecutionError>,
    KernelState,
) {
    let (r1, k1) = kpop(k);
    match r1 {
        Err(e) => (Err(e), k1),
        Ok(fd) => match lookup_spec(k1.files, fd) {
            Err(e) => (Err(e), k1),
            Ok(interface) => match stat_check_spec(interface, fd) {
                Err(e) => (Err(e), k1),
                Ok(_) => (Ok(OutcomeView::Host(RequestView::FileSize { fd })), k1),
            },
        },
    }
}

/// The number of bytes of a framebuffer of `width` by `height` pixels at 24
/// bits each; `None` where that many bits do not fit in 64 bits.
pub open spec fn framebuffer_size_spec(width: u32, height: u32) -> Option<u64> {
    if width * height * 24 <= u64::MAX {
        Some(((width * height * 24) / 8) as u64)
    } else {
        None
    }
}

/// `init_fb(ptr, width, height, mode)`: pops the mode, the height, the
/// width and the pointer, takes the low 32 bits of width and height and the
/// low byte of the mode, and records the framebuffer.
pub open spec fn sys_init_fb_spec(k: KernelState) -> (
    Result<OutcomeView, ExecutionError>,
    KernelState,
) {
    let (r1, k1) = kpop(k);
    match r1 {
        Err(e) => (Err(e), k1),
        Ok(mode) => {
            let (r2, k2) = kpop(k1);
            match r2 {
                Err(e) => (Err(e), k2),
                Ok(height) => {
                    let (r3, k3) = kpop(k2);
                    match r3 {
                        Err(e) => (Err(e), k3),
                        Ok(width) => {
                            let (r4, k4) = kpop(k3);
                            match r4 {
                                Err(e) => (Err(e), k4),
                                Ok(ptr) => match framebuffer_size_spec(
                                    width as u32,
                                    height as u32,
                                ) {
                                    None => (Err(ExecutionError::AddressOverflow), k4),
                                    Some(size) => {
                                        let fb = FrameBuffer {
                                            ptr,
                                            width: width as u32,
                                            height: height as u32,
                                            mode: mode as u8,
                                            size,
                                        };
                                        (
                                            Ok(
                                                OutcomeView::Host(
                                                    RequestView::InitFramebuffer {
                                                        framebuffer: fb,
                                                        replaces: k.framebuffer is Some,
                                                    },
                                                ),
                                            ),
                                            KernelState { framebuffer: Some(fb), ..k4 },
                                        )
                                    },
                                },
                            }
                        },
                    }
                },
            }
        },
    }
}

/// `draw_fb()`: hands the framebuffer's bytes to the host; without a
/// framebuffer nothing happens.
pub open spec fn sys_draw_fb_spec(k: KernelState) -> (Result<OutcomeView, ExecutionError>, KernelState) {
    match k.framebuffer {
        None => (Ok(OutcomeView::Done), k),
        Some(fb) => if fb.ptr + fb.size <= k.cpu.mem.len() {
            (
                Ok(
                    OutcomeView::Host(
                        RequestView::DrawFramebuffer {
                            bytes: k.cpu.mem.subrange(fb.ptr as int, fb.ptr + fb.size),
                        },
                    ),
                ),
                k,
            )
        } else {
            (Err(ExecutionError::FramebufferOutOfBounds { ptr: fb.ptr, size: fb.size }), k)
        },
    }
}

/// `get_fb_ptr()`: pushes the framebuffer's pointer; without a framebuffer
/// nothing happens.
pub open spec fn sys_get_fb_ptr_spec(k: KernelState) -> (
    Result<OutcomeView, ExecutionError>,
    KernelState,
) {
    match k.framebuffer {
        None => (Ok(OutcomeView::Done), k),
        Some(fb) => done_after(kpush(k, fb.ptr)),
    }
}

/// `get_argc()`: pushes the number of arguments.
pub open spec fn sys_argc_spec(k: KernelState) -> (Result<OutcomeView, ExecutionError>, KernelState) {
    done_after(kpush(k, k.argv.len() as u64))
}

/// `get_argv(index)`: pops the index, copies that argument's bytes into a
/// new heap block, and pushes the block's pointer and then the length.
pub open spec fn sys_argv_spec(k: KernelState) -> (Result<OutcomeView, ExecutionError>, KernelState) {
    let (r1, k1) = kpop(k);
    match r1 {
        Err(e) => (Err(e), k1),
        Ok(index) => if index >= k1.argv.len() {
            (
                Err(
                    ExecutionError::ArgumentOutOfBounds { index, argc: k1.argv.len() as u64 },
                ),
                k1,
            )
        } else {
            let arg = k1.argv[index as int];
            let len = arg.len() as u64;
            let k1c = counted(k1, u64_specs::wrapping_add(k1.allocations, 1));
            let (mr, m1) = malloc_spec(k1c.cpu.mem, k1c.heap_start, len);
            match mr {
                Err(e) => (Err(e), with_mem(k1c, m1)),
                Ok(ptr) => {
                    let k2 = with_mem(k1c, overwrite(m1, ptr, arg));
                    match write_spec(m1, ptr, arg) {
                        Err(e) => (Err(e), k2),
                        Ok(_) => {
                            let (p1, k3) = kpush(k2, ptr);
                            match p1 {
                                Err(e) => (Err(e), k3),
                                Ok(_) => done_after(kpush(k3, len)),
                            }
                        },
                    }
                },
            }
        },
    }
}

/// What interrupt `code` does to the kernel, and what it leaves to do.
pub open spec fn interrupt_spec(k: KernelState, code: u8) -> (
    Result<OutcomeView, ExecutionError>,
    KernelState,
) {
    if code == 0x01 {
        sys_open_spec(k)
    } else if code == 0x02 {
        sys_write_spec(k)
    } else if code == 0x03 {
        sys_read_spec(k)
    } else if code == 0x05 {
        sys_close_spec(k)
    } else if code == 0x06 {
        (Ok(OutcomeView::Done), KernelState { log_enabled: false, ..k })
    } else if code == 0x04 || code == 0x07 || code == 0x08 || code == 0x09 {
        (Err(ExecutionError::UnsupportedInterrupt { code }), k)
    } else if code == 0x0a {
        sys_malloc_spec(k)
    } else if code == 0x0b {
        sys_realloc_spec(k)
    } else if code == 0x0c {
        sys_free_spec(k)
    } else if code == 0x0d {
        sys_memcpy_spec(k)
    } else if code == 0x0e {
        sys_memset_spec(k)
    } else if code == 0x0f {
        sys_init_fb_spec(k)
    } else if code == 0x10 {
        sys_draw_fb_spec(k)
    } else if code == 0x11 {
        sys_get_fb_ptr_spec(k)
    } else if code == 0x12 {
        sys_file_size_spec(k)
    } else if code == 0x13 {
        (Ok(OutcomeView::Host(RequestView::Dump)), k)
    } else if code == 0x15 {
        sys_argc_spec(k)
    } else if code == 0x16 {
        sys_argv_spec(k)
    } else {
        (Err(ExecutionError::UnexpectedInterrupt { code }), k)
    }
}

impl IOInterface {
    /// Refuses writing to standard input.
    pub fn check_write(&self) -> (r: Result<(), ExecutionError>)
        ensures
            r == write_check_spec(*self),
    {
        match self {
            IOInterface::Stdin => Err(ExecutionError::CannotWriteStdin),
            _ => Ok(()),
        }
    }

    /// Refuses reading from standard output or error.
    pub fn check_read(&self, fd: u64) -> (r: Result<(), ExecutionError>)
        ensures
            r == read_check_spec(*self, fd),
    {
        match self {
            IOInterface::Stdout => Err(ExecutionError::CannotReadOutputStream { fd }),
            IOInterface::Stderr => Err(ExecutionError::CannotReadOutputStream { fd }),
            _ => Ok(()),
        }
    }

    /// Refuses asking a standard stream for its size.
    pub fn check_stat(&self, fd: u64) -> (r: Result<(), ExecutionError>)
        ensures
            r == stat_check_spec(*self, fd),
    {
        match self {
            IOInterface::File => Ok(()),
            _ => Err(ExecutionError::CannotStatStream { fd }),
        }
    }

    /// Refuses seeking in a standard stream.
    pub fn check_seek(&self, fd: u64) -> (r: Result<(), ExecutionError>)
        ensures
            r == seek_check_spec(*self, fd),
    {
        match self {
            IOInterface::File => Ok(()),
            _ => Err(ExecutionError::CannotSeekStream { fd }),
        }
    }
}

/// The number of bytes of a framebuffer of `width` by `height` pixels at 24
/// bits each; `None` where that many bits do not fit in 64 bits.
pub fn framebuffer_size(width: u32, height: u32) -> (r: Option<u64>)
    ensures
        r == framebuffer_size_spec(width, height),
{
    assert(width as u64 * height as u64 <= 0xffff_fffe_0000_0001u64) by (nonlinear_arith);
    let pixels = width as u64 * height as u64;
    if pixels > u64::MAX / 24 {
        None
    } else {
        Some(pixels * 24 / 8)
    }
}

impl Kernel {
    /// The interface behind a descriptor.
    fn get_interface(&self, file_descriptor: u64) -> (r: Result<IOInterface, ExecutionError>)
        ensures
            r == lookup_spec(self.file_descriptor_vector@, file_descriptor),
    {
        match self.file_descriptor_vector.get(&file_descriptor) {
            Some(i) => Ok(*i),
            None => Err(ExecutionError::InvalidFileDescriptor { fd: file_descriptor }),
        }
    }

    /// Records a file that the host opened under the next descriptor, and
    /// returns that descriptor.
    fn open_file(&mut self) -> (fd: u64)
        requires
            old(self).next_fd < u64::MAX,
        ensures
            fd == old(self).next_fd,
            final(self).next_fd == old(self).next_fd + 1,
            final(self).file_descriptor_vector@ == old(self).file_descriptor_vector@.insert(
                fd,
                IOInterface::File,
            ),
            final(self).system == old(self).system,
            final(self).framebuffer == old(self).framebuffer,
            final(self).kernel_log == old(self).kernel_log,
            kernel_frame(*final(self), *old(self)),
    {
        let fd = self.next_fd;
        self.file_descriptor_vector.insert(fd, IOInterface::File);
        self.next_fd = self.next_fd + 1;
        fd
    }

    /// The interface behind a descriptor, if it can be read.
    fn read_file(&self, file_descriptor: u64) -> (r: Result<IOInterface, ExecutionError>)
        ensures
            match lookup_spec(self.file_descriptor_vector@, file_descriptor) {
                Err(e) => r == Err::<IOInterface, ExecutionError>(e),
                Ok(i) => match read_check_spec(i, file_descriptor) {
                    Err(e) => r == Err::<IOInterface, ExecutionError>(e),
                    Ok(_) => r == Ok::<IOInterface, ExecutionError>(i),
                },
            },
    {
        let interface = self.get_interface(file_descriptor)?;
        interface.check_read(file_descriptor)?;
        Ok(interface)
    }

    /// The interface behind a descriptor, if it can be written.
    fn write_file(&self, file_descriptor: u64) -> (r: Result<IOInterface, ExecutionError>)
        ensures
            match lookup_spec(self.file_descriptor_vector@, file_descriptor) {
                Err(e) => r == Err::<IOInterface, ExecutionError>(e),
                Ok(i) => match write_check_spec(i) {
                    Err(e) => r == Err::<IOInterface, ExecutionError>(e),
                    Ok(_) => r == Ok::<IOInterface, ExecutionError>(i),
                },
            },
    {
        let interface = self.get_interface(file_descriptor)?;
        interface.check_write()?;
        Ok(interface)
    }

    /// Whether a descriptor has a size that the host can find.
    fn stat_file(&self, file_descriptor: u64) -> (r: Result<(), ExecutionError>)
        ensures
            match lookup_spec(self.file_descriptor_vector@, file_descriptor) {
                Err(e) => r == Err::<(), ExecutionError>(e),
                Ok(i) => r == stat_check_spec(i, file_descriptor),
            },
    {
        let interface = self.get_interface(file_descriptor)?;
        interface.check_stat(file_descriptor)
    }

    /// Closes a descriptor; the standard streams and descriptor 3 stay open.
    fn close_file(&mut self, file_descriptor: u64) -> (r: Result<(), ExecutionError>)
        ensures
            file_descriptor < 4 ==> r == Err::<(), ExecutionError>(
                ExecutionError::CannotCloseStandardStream { fd: file_descriptor },
            ) && final(self).file_descriptor_vector@ == old(self).file_descriptor_vector@,
            file_descriptor >= 4 ==> r is Ok && final(self).file_descriptor_vector@ == old(
                self,
            ).file_descriptor_vector@.remove(file_descriptor),
            final(self).system == old(self).system,
            final(self).next_fd == old(self).next_fd,
            final(self).framebuffer == old(self).framebuffer,
            final(self).kernel_log == old(self).kernel_log,
            kernel_frame(*final(self), *old(self)),
    {
        if file_descriptor < 4 {
            return Err(ExecutionError::CannotCloseStandardStream { fd: file_descriptor });
        }
        self.file_descriptor_vector.remove(&file_descriptor);
        Ok(())
    }

    /// `open(str_ptr, str_len)`.
    fn sys_open(&mut self) -> (r: Result<InterruptOutcome, ExecutionError>)
        ensures
            (outcome_view(r), final(self).state()) == sys_open_spec(old(self).state()),
            kernel_frame(*final(self), *old(self)),
    {
        let str_len = self.system.pop()?;
        let str_ptr = self.system.pop()?;
        let path = self.system.memory.read(str_ptr, str_len)?;
        Ok(InterruptOutcome::Host(HostRequest::Open { path }))
    }

    /// `write(fd, buffer, n)`.
    fn sys_write(&mut self) -> (r: Result<InterruptOutcome, ExecutionError>)
        ensures
            (outcome_view(r), final(self).state()) == sys_write_spec(old(self).state()),
            kernel_frame(*final(self), *old(self)),
    {
        let buf_len = self.system.pop()?;
        let buf_ptr = self.system.pop()?;
        let fd = self.system.pop()?;
        let bytes = self.system.memory.read(buf_ptr, buf_len)?;
        let interface = self.write_file(fd)?;
        Ok(InterruptOutcome::Host(HostRequest::Write { fd, interface, bytes }))
    }

    /// `read(fd, buffer, n)`.
    fn sys_read(&mut self) -> (r: Result<InterruptOutcome, ExecutionError>)
        ensures
            (outcome_view(r), final(self).state()) == sys_read_spec(old(self).state()),
            kernel_frame(*final(self), *old(self)),
    {
        let n = self.system.pop()?;
        let ptr = self.system.pop()?;
        let fd = self.system.pop()?;
        let interface = self.read_file(fd)?;
        Ok(InterruptOutcome::Host(HostRequest::Read { fd, interface, ptr, n }))
    }

    /// `close(fd)`.
    fn sys_close(&mut self) -> (r: Result<InterruptOutcome, ExecutionError>)
        ensures
            (outcome_view(r), final(self).state()) == sys_close_spec(old(self).state()),
            kernel_frame(*final(self), *old(self)),
    {
        let fd = self.system.pop()?;
        self.close_file(fd)?;
        Ok(InterruptOutcome::Host(HostRequest::Close { fd }))
    }

    /// `get_file_size(fd)`.
    fn sys_file_size(&mut self) -> (r: Result<InterruptOutcome, ExecutionError>)
        ensures
            (outcome_view(r), final(self).state()) == sys_file_size_spec(old(self).state()),
            kernel_frame(*final(self), *old(self)),
    {
        let fd = self.system.pop()?;
        self.stat_file(fd)?;
        Ok(InterruptOutcome::Host(HostRequest::FileSize { fd }))
    }

    /// `init_fb(ptr, width, height, mode)`.
    fn sys_init_fb(&mut self) -> (r: Result<InterruptOutcome, ExecutionError>)
        ensures
            (outcome_view(r), final(self).state()) == sys_init_fb_spec(old(self).state()),
            kernel_frame(*final(self), *old(self)),
    {
        let replaces = self.framebuffer.is_some();
        let mode = self.system.pop()?;
        let height = self.system.pop()?;
        let width = self.system.pop()?;
        let ptr = self.system.pop()?;
        let w = width as u32;
        let h = height as u32;
        let size = match framebuffer_size(w, h) {
            Some(size) => size,
            None => {
                return Err(ExecutionError::AddressOverflow);
            },
        };
        let framebuffer = FrameBuffer { ptr, width: w, height: h, mode: mode as u8, size };
        self.framebuffer = Some(framebuffer);
        Ok(InterruptOutcome::Host(HostRequest::InitFramebuffer { framebuffer, replaces }))
    }

    /// `draw_fb()`.
    fn sys_draw_fb(&mut self) -> (r: Result<InterruptOutcome, ExecutionError>)
        ensures
            (outcome_view(r), final(self).state()) == sys_draw_fb_spec(old(self).state()),
            *final(self) == *old(self),
    {
        match self.framebuffer {
            None => Ok(InterruptOutcome::Done),
            Some(fb) => {
                let len = self.system.memory.physical.len() as u64;
                if fb.ptr > len || fb.size > len - fb.ptr {
                    return Err(
                        ExecutionError::FramebufferOutOfBounds { ptr: fb.ptr, size: fb.size },
                    );
                }
                let bytes = self.system.memory.read(fb.ptr, fb.size)?;
                proof {
                    let m = self.system.memory.physical@;
                    assert(bytes@ =~= m.subrange(fb.ptr as int, fb.ptr + fb.size));
                }
                Ok(InterruptOutcome::Host(HostRequest::DrawFramebuffer { bytes }))
            },
        }
    }

    /// `get_fb_ptr()`.
    fn sys_get_fb_ptr(&mut self) -> (r: Result<InterruptOutcome, ExecutionError>)
        ensures
            (outcome_view(r), final(self).state()) == sys_get_fb_ptr_spec(old(self).state()),
            kernel_frame(*final(self), *old(self)),
    {
        if let Some(fb) = self.framebuffer {
            self.system.push(fb.ptr)?;
        }
        Ok(InterruptOutcome::Done)
    }

    /// `get_argc()`.
    fn sys_argc(&mut self) -> (r: Result<InterruptOutcome, ExecutionError>)
        ensures
            (outcome_view(r), final(self).state()) == sys_argc_spec(old(self).state()),
            kernel_frame(*final(self), *old(self)),
    {
        let argc = self.cmdline.len() as u64;
        self.system.push(argc)?;
        Ok(InterruptOutcome::Done)
    }

    /// `get_argv(index)`.
    fn sys_argv(&mut self) -> (r: Result<InterruptOutcome, ExecutionError>)
        ensures
            (outcome_view(r), final(self).state()) == sys_argv_spec(old(self).state()),
            kernel_frame(*final(self), *old(self)),
    {
        let arg_idx = self.system.pop()?;
        let argc = self.cmdline.len() as u64;
        if arg_idx >= argc {
            return Err(ExecutionError::ArgumentOutOfBounds { index: arg_idx, argc });
        }
        let arg = self.cmdline[arg_idx as usize].as_str().as_bytes();
        let len = arg.len() as u64;
        let ptr = self.system.memory.malloc(len)?;
        self.system.memory.write(ptr, arg)?;
        self.system.push(ptr)?;
        self.system.push(len)?;
        Ok(InterruptOutcome::Done)
    }
}

/// What one kernel cycle leaves for the caller to do.
pub enum CycleOutcome {
    /// Nothing: go on with the next cycle.
    Continue,
    /// The program asked to stop (interrupt `0x14`).
    Kill,
    /// The program executed `haltexe`.
    Halt,
    /// The program reached a breakpoint.
    Breakpoint,
    /// Floating-point arithmetic for the host; its result bits go to the
    /// request's destination register.
    Float(FloatRequest),
    /// A system call's work for the host.
    Host(HostRequest),
}

/// A cycle outcome, as values.
pub enum CycleView {
    Continue,
    Kill,
    Halt,
    Breakpoint,
    Float(FloatRequest),
    Host(RequestView),
}

impl View for CycleOutcome {
    type V = CycleView;

    open spec fn view(&self) -> CycleView {
        match self {
            CycleOutcome::Continue => CycleView::Continue,
            CycleOutcome::Kill => CycleView::Kill,
            CycleOutcome::Halt => CycleView::Halt,
            CycleOutcome::Breakpoint => CycleView::Breakpoint,
            CycleOutcome::Float(req) => CycleView::Float(*req),
            CycleOutcome::Host(req) => CycleView::Host(req@),
        }
    }
}

/// A result of a cycle, as values.
pub open spec fn cycle_view(r: Result<CycleOutcome, ExecutionError>) -> Result<
    CycleView,
    ExecutionError,
> {
    match r {
        Ok(o) => Ok(o@),
        Err(e) => Err(e),
    }
}

/// One cycle: the machine steps; an interrupt that the step raised is then
/// handled (`0x14` stops instead) and cleared once handled.
pub open spec fn cycle_spec(k: KernelState) -> (Result<CycleView, ExecutionError>, KernelState) {
    let (sr, c1) = step_spec(k.cpu);
    let k1 = with_cpu(k, c1);
    match sr {
        Err(e) => (Err(e), k1),
        Ok(StepOutcome::Halt) => (Ok(CycleView::Halt), k1),
        Ok(StepOutcome::Breakpoint) => (Ok(CycleView::Breakpoint), k1),
        Ok(StepOutcome::Float(req)) => (Ok(CycleView::Float(req)), k1),
        Ok(StepOutcome::Continue) => {
            let code = c1.pending;
            if code == 0 {
                (Ok(CycleView::Continue), k1)
            } else if code == 0x14 {
                (Ok(CycleView::Kill), k1)
            } else {
                let (ir, k2) = interrupt_spec(k1, code);
                match ir {
                    Err(e) => (Err(e), k2),
                    Ok(o) => (
                        Ok(
                            match o {
                                OutcomeView::Done => CycleView::Continue,
                                OutcomeView::Host(req) => CycleView::Host(req),
                            },
                        ),
                        with_cpu(k2, MachineState { pending: 0, ..k2.cpu }),
                    ),
                }
            }
        },
    }
}

/// Finishing `open` after the host opened the file: the file gets the next
/// descriptor, which is pushed.
pub open spec fn complete_open_spec(k: KernelState) -> (Result<u64, ExecutionError>, KernelState) {
    let fd = k.next_fd;
    let k1 = KernelState {
        files: k.files.insert(fd, IOInterface::File),
        next_fd: (fd + 1) as u64,
        ..k
    };
    let (pr, k2) = kpush(k1, fd);
    match pr {
        Ok(_) => (Ok(fd), k2),
        Err(e) => (Err(e), k2),
    }
}

/// Finishing `read` with the bytes the host read: a short read is refused,
/// a full one is written to the buffer.
pub open spec fn complete_read_spec(k: KernelState, ptr: u64, n: u64, bytes: Seq<u8>) -> (
    Result<(), ExecutionError>,
    KernelState,
) {
    if bytes.len() != n {
        (Err(ExecutionError::IncompleteRead { requested: n, read: bytes.len() as u64 }), k)
    } else {
        (
            match write_spec(k.cpu.mem, ptr, bytes) {
                Ok(_) => Ok(()),
                Err(e) => Err(e),
            },
            with_mem(k, overwrite(k.cpu.mem, ptr, bytes)),
        )
    }
}

impl Kernel {
    /// Handles interrupt `code` as far as the kernel can, and says what is
    /// left for the host.
    pub fn handle_interrupt(&mut self, code: u8) -> (r: Result<InterruptOutcome, ExecutionError>)
        ensures
            (outcome_view(r), final(self).state()) == interrupt_spec(old(self).state(), code),
            kernel_frame(*final(self), *old(self)),
    {
        match code {
            0x01 => self.sys_open(),
            0x02 => self.sys_write(),
            0x03 => self.sys_read(),
            0x04 | 0x07 | 0x08 | 0x09 => Err(ExecutionError::UnsupportedInterrupt { code }),
            0x05 => self.sys_close(),
            0x06 => {
                self.kernel_log = false;
                Ok(InterruptOutcome::Done)
            },
            0x0a => self.sys_malloc(),
            0x0b => self.sys_realloc(),
            0x0c => self.sys_free(),
            0x0d => self.sys_memcpy(),
            0x0e => self.sys_memset(),
            0x0f => self.sys_init_fb(),
            0x10 => self.sys_draw_fb(),
            0x11 => self.sys_get_fb_ptr(),
            0x12 => self.sys_file_size(),
            0x13 => Ok(InterruptOutcome::Host(HostRequest::Dump)),
            0x15 => self.sys_argc(),
            0x16 => self.sys_argv(),
            _ => Err(ExecutionError::UnexpectedInterrupt { code }),
        }
    }

    /// One cycle of the run loop: a machine step, then the interrupt it
    /// raised, if any.
    pub fn cycle(&mut self) -> (r: Result<CycleOutcome, ExecutionError>)
        ensures
            (cycle_view(r), final(self).state()) == cycle_spec(old(self).state()),
            kernel_frame(*final(self), *old(self)),
    {
        match self.system.step()? {
            StepOutcome::Halt => Ok(CycleOutcome::Halt),
            StepOutcome::Breakpoint => Ok(CycleOutcome::Breakpoint),
            StepOutcome::Float(req) => Ok(CycleOutcome::Float(req)),
            StepOutcome::Continue => {
                let code = self.system.pending_interrupt;
                if code == 0 {
                    Ok(CycleOutcome::Continue)
                } else if code == 0x14 {
                    Ok(CycleOutcome::Kill)
                } else {
                    let outcome = self.handle_interrupt(code)?;
                    self.system.pending_interrupt = 0;
                    match outcome {
                        InterruptOutcome::Done => Ok(CycleOutcome::Continue),
                        InterruptOutcome::Host(req) => Ok(CycleOutcome::Host(req)),
                    }
                }
            },
        }
    }

    /// Finishes `open` once the host has opened the file, and returns the
    /// file's descriptor.
    pub fn complete_open(&mut self) -> (r: Result<u64, ExecutionError>)
        requires
            old(self).next_fd < u64::MAX,
        ensures
            (r, final(self).state()) == complete_open_spec(old(self).state()),
            kernel_frame(*final(self), *old(self)),
    {
        let fd = self.open_file();
        self.system.push(fd)?;
        Ok(fd)
    }

    /// Finishes `read` with the bytes that the host read into the buffer at
    /// `ptr`, where `n` bytes were asked for.
    pub fn complete_read(&mut self, ptr: u64, n: u64, bytes: &[u8]) -> (r: Result<
        (),
        ExecutionError,
    >)
        ensures
            (r, final(self).state()) == complete_read_spec(old(self).state(), ptr, n, bytes@),
            kernel_frame(*final(self), *old(self)),
    {
        let read = bytes.len() as u64;
        if read != n {
            return Err(ExecutionError::IncompleteRead { requested: n, read });
        }
        self.system.memory.write(ptr, bytes)?;
        Ok(())
    }

    /// Pushes a value that the host computed for a system call.
    pub fn push_result(&mut self, value: u64) -> (r: Result<(), ExecutionError>)
        ensures
            (r, final(self).state()) == kpush(old(self).state(), value),
            kernel_frame(*final(self), *old(self)),
    {
        self.system.push(value)
    }

    /// Takes the number of the next core file; the host writes memory to
    /// the file of that number.
    pub fn core_dump(&mut self) -> (index: u64)
        requires
            old(self).cores_dumped < u64::MAX,
        ensures
            index == old(self).cores_dumped,
            final(self).cores_dumped == old(self).cores_dumped + 1,
            final(self).state() == old(self).state(),
            final(self).system == old(self).system,
    {
        let index = self.cores_dumped;
        self.cores_dumped = self.cores_dumped + 1;
        index
    }

    /// The handler address that the program set for interrupt `code`.
    pub fn resolve_user_interrupt(&self, code: u8) -> (address: u64)
        requires
            0x31 <= code,
            code - 0x31 < 205,
        ensures
            address == self.user_interrupt_vector@[code - 0x31],
    {
        let slot: u8 = code - 0x31;
        self.user_interrupt_vector[slot as usize]
    }
}

/// Every open descriptor lies below the next descriptor to be given out.
pub open spec fn descriptors_below(k: KernelState) -> bool {
    forall|fd: u64| k.files.contains_key(fd) ==> fd < k.next_fd
}

/// No interrupt gives out a descriptor or raises one above the next to be
/// given out: the descriptor table stays below `next_fd`.
pub proof fn law_interrupt_keeps_descriptors_below(k: KernelState, code: u8)
    requires
        descriptors_below(k),
    ensures
        descriptors_below(interrupt_spec(k, code).1),
        interrupt_spec(k, code).1.next_fd == k.next_fd,
        interrupt_spec(k, code).1.files.dom().subset_of(k.files.dom()),
{
    let k2 = interrupt_spec(k, code).1;
    if code == 0x05 {
        let k1 = kpop(k).1;
        assert(k1.files == k.files);
    } else {
        lemma_interrupt_keeps_table(k, code);
    }
}

/// The files and the next descriptor as they were.
pub open spec fn same_table(a: KernelState, b: KernelState) -> bool {
    a.files == b.files && a.next_fd == b.next_fd
}

/// Interrupts other than `close` leave the descriptor table alone.
proof fn lemma_interrupt_keeps_table(k: KernelState, code: u8)
    requires
        code != 0x05,
    ensures
        same_table(interrupt_spec(k, code).1, k),
{
    if code == 0x01 {
        lemma_open_keeps_table(k);
    } else if code == 0x02 {
        lemma_write_keeps_table(k);
    } else if code == 0x03 {
        lemma_read_keeps_table(k);
    } else if code == 0x0a {
        lemma_heap_keeps_table(k);
    } else if code == 0x0b {
        lemma_realloc_keeps_table(k);
    } else if code == 0x0c {
        assert(same_table(sys_free_spec(k).1, k));
    } else if code == 0x0d {
        lemma_copy_keeps_table(k);
    } else if code == 0x0e {
        lemma_set_keeps_table(k);
    } else if code == 0x0f {
        lemma_fb_keeps_table(k);
    } else if code == 0x10 {
        assert(same_table(sys_draw_fb_spec(k).1, k));
    } else if code == 0x11 {
        assert(same_table(sys_get_fb_ptr_spec(k).1, k));
    } else if code == 0x12 {
        assert(same_table(sys_file_size_spec(k).1, k));
    } else if code == 0x15 {
        assert(same_table(sys_argc_spec(k).1, k));
    } else if code == 0x16 {
        lemma_argv_keeps_table(k);
    }
}

proof fn lemma_open_keeps_table(k: KernelState)
    ensures
        same_table(sys_open_spec(k).1, k),
{
}

proof fn lemma_write_keeps_table(k: KernelState)
    ensures
        same_table(sys_write_spec(k).1, k),
{
}

proof fn lemma_read_keeps_table(k: KernelState)
    ensures
        same_table(sys_read_spec(k).1, k),
{
}

proof fn lemma_heap_keeps_table(k: KernelState)
    ensures
        same_table(sys_malloc_spec(k).1, k),
{
}

proof fn lemma_realloc_keeps_table(k: KernelState)
    ensures
        same_table(sys_realloc_spec(k).1, k),
{
}

proof fn lemma_copy_keeps_table(k: KernelState)
    ensures
        same_table(sys_memcpy_spec(k).1, k),
{
}

proof fn lemma_set_keeps_table(k: KernelState)
    ensures
        same_table(sys_memset_spec(k).1, k),
{
}

proof fn lemma_fb_keeps_table(k: KernelState)
    ensures
        same_table(sys_init_fb_spec(k).1, k),
{
}

proof fn lemma_argv_keeps_table(k: KernelState)
    ensures
        same_table(sys_argv_spec(k).1, k),
{
}

/// A file that the host opened gets a descriptor that no open file has, and
/// the table stays below the next descriptor.
pub proof fn law_open_gives_fresh_descriptor(k: KernelState)
    requires
        descriptors_below(k),
        k.next_fd < u64::MAX,
    ensures
        !k.files.contains_key(k.next_fd),
        complete_open_spec(k).1.files.contains_key(k.next_fd),
        complete_open_spec(k).1.files[k.next_fd] == IOInterface::File,
        descriptors_below(complete_open_spec(k).1),
{
}

/// Once `close` has closed a descriptor, writing, reading or asking the size
/// through it is refused as an invalid descriptor.
pub proof fn law_closed_descriptor_is_invalid(k: KernelState, fd: u64)
    requires
        sys_close_spec(k).0 == Ok::<OutcomeView, ExecutionError>(
            OutcomeView::Host(RequestView::Close { fd }),
        ),
    ensures
        lookup_spec(sys_close_spec(k).1.files, fd) == Err::<IOInterface, ExecutionError>(
            ExecutionError::InvalidFileDescriptor { fd },
        ),
{
}

} // verus!
