//! A 64-bit virtual machine: byte-addressed memory with an in-band heap
//! allocator, windowed registers, an instruction decoder and executor, the
//! executable-image loader and the kernel's system-call decisions.

pub mod bytes;
pub mod constant;
pub mod error;
pub mod memory;
pub mod registers;
pub mod opcode;
pub mod cpu;
pub mod instructions;
pub mod semantics;
pub mod heap;
pub mod heap_shape;
pub mod loader;
pub mod kernel;
pub mod arg_parser;
pub mod shell;
pub mod mmio;
pub mod assembler;
pub mod gpu;
