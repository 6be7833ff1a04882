use vstd::prelude::*;

verus! {

/// Everything that stops the machine.
#[derive(Debug, PartialEq, Eq)]
pub enum ExecutionError {
    /// An access to an address at or beyond the end of physical memory.
    MemoryAccessViolation { address: u64 },
    /// Address arithmetic left the 64-bit range.
    AddressOverflow,
    /// A heap node's allocation flag held a byte other than 0 or 1.
    CorruptAllocationFlag { ptr: u64 },
    /// A heap node links to a node that does not lie after it.
    CorruptHeapLink { ptr: u64 },
    /// No free heap block is large enough, even after defragmentation.
    OutOfMemory { size: u64 },
    /// Integer division or remainder by zero.
    DivisionByZero { op1: u8, op2: u8 },
    /// A `store` of more bytes than the source register window holds.
    StoreTooWide { n: u64, max: u64, address: u64, src: u8 },
    /// A `load` of more bytes than a register holds.
    LoadTooWide { n: u64 },
    /// The byte at the program counter is uninitialized memory.
    UninitializedMemory,
    /// The byte at the program counter is no known opcode.
    UnsupportedOpcode { opcode: u8 },
    /// The instruction exists but the machine does not carry it out.
    UnsupportedInstruction,
    /// An executable image does not open with the signature.
    InvalidSignature { signature: Vec<u8> },
    /// The image ended inside an eight-byte field; holds the bytes read.
    IncompleteDoubleWord { consumed: Vec<u8> },
    /// A breakpoint table whose length is no multiple of eight.
    MisalignedBreakpoints,
    /// A debug label ended before its announced length.
    IncompleteLabel { address: u64 },
    /// A software interrupt that the kernel does not know.
    UnexpectedInterrupt { code: u8 },
    /// A software interrupt that the kernel knows but does not carry out.
    UnsupportedInterrupt { code: u8 },
    /// A file descriptor that is not open.
    InvalidFileDescriptor { fd: u64 },
    /// Writing to standard input.
    CannotWriteStdin,
    /// Reading from standard output or standard error.
    CannotReadOutputStream { fd: u64 },
    /// Seeking in a standard stream.
    CannotSeekStream { fd: u64 },
    /// A read that got fewer bytes than it asked for.
    IncompleteRead { requested: u64, read: u64 },
    /// Asking the size of a standard stream.
    CannotStatStream { fd: u64 },
    /// Closing standard input, output or error.
    CannotCloseStandardStream { fd: u64 },
    /// `get_argv` with an index past the argument count.
    ArgumentOutOfBounds { index: u64, argc: u64 },
    /// A framebuffer refresh that reaches past physical memory.
    FramebufferOutOfBounds { ptr: u64, size: u64 },
    /// A failure reported by the host, as text.
    Message { text: String },
    /// An error with text put in front of it.
    Prefixed { prelude: String, inner: Box<ExecutionError> },
}

impl ExecutionError {
    /// An error carrying the host's text.
    pub fn new(error: String) -> (e: Self)
        ensures
            e == (ExecutionError::Message { text: error }),
    {
        ExecutionError::Message { text: error }
    }

    /// The same error, with `prelude` put in front of its text.
    pub fn prepend(self, prelude: String) -> (e: Self)
        ensures
            e == (ExecutionError::Prefixed { prelude: prelude, inner: Box::new(self) }),
    {
        ExecutionError::Prefixed { prelude, inner: Box::new(self) }
    }
}

} // verus!
