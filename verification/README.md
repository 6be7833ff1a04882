# nisvc

A 64-bit virtual machine with a little-endian, byte-addressed memory, sixteen
windowed registers, an in-band heap allocator and a small kernel of system
calls, verified with Verus.

## Layout

- `src/` — the verified library:
  - `bytes`, `memory`, `heap`, `heap_shape`: little-endian encoding, physical
    memory, the stack, the block-list heap allocator, and the well-formedness
    of the block list that loading, allocating, freeing and resizing keep;
  - `registers`, `opcode`, `cpu`, `instructions`: register windows,
    instruction decoding and execution, one step at a time;
  - `loader`: the `NISVC-EF` executable image and its debug labels;
  - `kernel`: the system calls, as decisions over the machine state that hand
    the host only the work it alone can do (files, display, core files);
  - `arg_parser`, `shell`, `mmio`, `gpu`, `assembler`: command-line flags, the
    debug shell's commands, the text display's memory-mapped addresses and
    keyboard, the greyscale palette and the assembled file's header.
- `tests/` — tests of the library on concrete programs and values.
- `app/` — the `nisvc` program: command-line handling, file and terminal I/O,
  the display window, floating-point arithmetic and the run loop.
