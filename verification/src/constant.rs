use vstd::prelude::*;

verus! {

/// Opcode byte that marks the end of an executable image.
pub const END_EXEC: u8 = 0xff;

/// Opcode byte of the `haltexe` instruction.
pub const HALT_EXE: u8 = 0xfe;

/// Byte value that fills heap and stack memory before the program writes it.
pub const UNINITIALIZED_MEMORY: u8 = 0xfd;

/// Value of every register before the program writes it.
pub const UNINITIALIZED_REGISTER: u64 = 0xfdfdfdfdfdfdfdfd;

/// Register handle of the program counter.
pub const PROGRAM_COUNTER: u8 = 1;

/// Register handle of the stack pointer.
pub const STACK_POINTER: u8 = 2;

/// Register handle of the frame pointer.
pub const FRAME_POINTER: u8 = 3;

/// Default stack size in bytes.
pub const STACK_SIZE: u64 = 1000;

/// Default clock speed, in steps per second.
pub const DEFAULT_CLOCK_SPEED: u64 = 1000;

/// Memory region tags.
pub const MEM_STATIC: u8 = 0;
pub const MEM_HEAP: u8 = 1;
pub const MEM_STACK: u8 = 2;
pub const MEM_INVALID: u8 = 3;

/// The eight bytes that open every executable image: `NISVC-EF`.
pub open spec fn signature_spec() -> Seq<u8> {
    seq![0x4eu8, 0x49u8, 0x53u8, 0x56u8, 0x43u8, 0x2du8, 0x45u8, 0x46u8]
}

/// The image signature `NISVC-EF` as bytes.
pub fn signature() -> (s: Vec<u8>)
    ensures
        s@ == signature_spec(),
{
    let s: Vec<u8> = vec![0x4eu8, 0x49u8, 0x53u8, 0x56u8, 0x43u8, 0x2du8, 0x45u8, 0x46u8];
    assert(s@ =~= signature_spec());
    s
}

} // verus!
