use vstd::prelude::*;

use crate::bytes::{le_bytes, le_value};
use crate::constant::{FRAME_POINTER, PROGRAM_COUNTER, STACK_POINTER};
use crate::error::ExecutionError;
use crate::memory::{
    first_unreachable, fits, overwrite, read_address_spec, Memory,
};
use crate::opcode::{opcode_shape, opcode_shape_spec, operation_from_operands, operation_spec, shape_len, Operation, Shape};
use crate::registers::{
    handle_index, handle_window, reg_read, reg_write, window_read, window_write, CPURegisters,
    RegWindow,
};

verus! {

/// The registers, memory and pending interrupt of a machine, as values.
pub struct MachineState {
    pub regs: Seq<u64>,
    pub mem: Seq<u8>,
    pub pending: u8,
}

/// The processor: registers, memory and the interrupt that the last
/// instruction raised (0 for none).
pub struct CPU {
    pub registers: CPURegisters,
    pub memory: Memory,
    pub pending_interrupt: u8,
}

/// Memory fields other than the bytes are equal.
pub open spec fn same_layout(a: Memory, b: Memory) -> bool {
    &&& a.range == b.range
    &&& a.heap_size == b.heap_size
    &&& a.stack_size == b.stack_size
    &&& a.heap_start == b.heap_start
    &&& a.stack_start == b.stack_start
    &&& a.total_heap_allocations == b.total_heap_allocations
}

/// The eight-byte little-endian word at offset `i` of `m`.
pub open spec fn word_at(m: Seq<u8>, i: int) -> u64 {
    le_value(m.subrange(i, i + 8)) as u64
}

/// The outcome of decoding the instruction at `pc`, and the program counter
/// after the bytes that decoding consumed.
pub open spec fn decode_spec(m: Seq<u8>, pc: u64) -> (Result<Operation, ExecutionError>, u64) {
    if pc >= m.len() {
        (Err(ExecutionError::MemoryAccessViolation { address: pc }), pc)
    } else {
        let opcode = m[pc as int];
        let first = (pc + 1) as u64;
        if opcode == 0xfd {
            (Err(ExecutionError::UninitializedMemory), first)
        } else {
            match opcode_shape_spec(opcode) {
                None => (Err(ExecutionError::UnsupportedOpcode { opcode }), first),
                Some(shape) => {
                    if first + shape_len(shape) <= m.len() {
                        let a: u8 = if shape == Shape::Zero || shape == Shape::Word {
                            0
                        } else {
                            m[first as int]
                        };
                        let b: u8 = if shape == Shape::Two || shape == Shape::Three {
                            m[first + 1]
                        } else {
                            0
                        };
                        let c: u8 = if shape == Shape::Three {
                            m[first + 2]
                        } else {
                            0
                        };
                        let w: u64 = if shape == Shape::Word {
                            word_at(m, first as int)
                        } else if shape == Shape::OneWord {
                            word_at(m, first + 1)
                        } else {
                            0
                        };
                        (Ok(operation_spec(opcode, a, b, c, w)), (first + shape_len(shape)) as u64)
                    } else {
                        let stop: u64 = if shape == Shape::Word {
                            first
                        } else if shape == Shape::OneWord && first < m.len() {
                            (first + 1) as u64
                        } else if shape == Shape::OneWord {
                            first
                        } else {
                            m.len() as u64
                        };
                        (Err(ExecutionError::MemoryAccessViolation { address: m.len() as u64 }), stop)
                    }
                },
            }
        }
    }
}

/// Pushing `value`: it goes to memory at the stack pointer, which then
/// moves up by eight.
pub open spec fn push_spec(s: MachineState, value: u64) -> (Result<(), ExecutionError>, MachineState) {
    let sp = s.regs[2];
    let mem = overwrite(s.mem, sp, le_bytes(value, 8));
    if fits(s.mem.len(), sp, 8) {
        (Ok(()), MachineState { regs: s.regs.update(2, (sp + 8) as u64), mem, pending: s.pending })
    } else {
        (
            Err(ExecutionError::MemoryAccessViolation { address: first_unreachable(s.mem.len(), sp) }),
            MachineState { regs: s.regs, mem, pending: s.pending },
        )
    }
}

/// Popping: the word below the stack pointer, which then moves down by eight.
pub open spec fn pop_spec(s: MachineState) -> (Result<u64, ExecutionError>, MachineState) {
    let sp = s.regs[2];
    if sp < 8 {
        (Err(ExecutionError::AddressOverflow), s)
    } else {
        match read_address_spec(s.mem, (sp - 8) as u64) {
            Ok(v) => (Ok(v), MachineState { regs: s.regs.update(2, (sp - 8) as u64), ..s }),
            Err(e) => (Err(e), s),
        }
    }
}

/// The words that popping until the stack pointer reaches `start` gives, in
/// popping order; it stops early at the first failing pop.
pub open spec fn dump_spec(m: Seq<u8>, sp: u64, start: u64) -> Seq<u64>
    decreases sp,
{
    if sp == start || sp < 8 {
        Seq::empty()
    } else {
        match read_address_spec(m, (sp - 8) as u64) {
            Ok(v) => seq![v] + dump_spec(m, (sp - 8) as u64, start),
            Err(_) => Seq::empty(),
        }
    }
}

/// The stack pointer at which `dump_spec` stops.
pub open spec fn dump_end_spec(m: Seq<u8>, sp: u64, start: u64) -> u64
    decreases sp,
{
    if sp == start || sp < 8 {
        sp
    } else {
        match read_address_spec(m, (sp - 8) as u64) {
            Ok(v) => dump_end_spec(m, (sp - 8) as u64, start),
            Err(_) => sp,
        }
    }
}

/// Pushing the words of `vs` in order, stopping at the first push that fails.
pub open spec fn push_seq_spec(s: MachineState, vs: Seq<u64>) -> (Result<(), ExecutionError>, MachineState)
    decreases vs.len(),
{
    if vs.len() == 0 {
        (Ok(()), s)
    } else {
        let (r, s1) = push_seq_spec(s, vs.drop_last());
        if r is Err {
            (r, s1)
        } else {
            push_spec(s1, vs.last())
        }
    }
}

/// Popping down to `start` reads only the bytes below the stack pointer.
proof fn lemma_dump_frame(m1: Seq<u8>, m2: Seq<u8>, sp: u64, start: u64)
    requires
        m1.len() == m2.len(),
        forall|i: int| 0 <= i < sp ==> m1[i] == m2[i],
    ensures
        dump_spec(m1, sp, start) == dump_spec(m2, sp, start),
        dump_end_spec(m1, sp, start) == dump_end_spec(m2, sp, start),
    decreases sp,
{
    if sp != start && sp >= 8 {
        if sp <= m1.len() {
            assert(m1.subrange(sp - 8, sp as int) =~= m2.subrange(sp - 8, sp as int));
        }
        lemma_dump_frame(m1, m2, (sp - 8) as u64, start);
    }
}

/// Words pushed from `start` with room for all of them: every push succeeds,
/// and popping back down to `start` gives them most recent first.
proof fn lemma_push_seq(s: MachineState, vs: Seq<u64>, start: u64)
    requires
        s.regs.len() == 16,
        s.regs[2] == start,
        start + 8 * vs.len() <= s.mem.len(),
        s.mem.len() <= u64::MAX,
    ensures
        push_seq_spec(s, vs).0 == Ok::<(), ExecutionError>(()),
        push_seq_spec(s, vs).1.regs.len() == 16,
        push_seq_spec(s, vs).1.regs[2] == start + 8 * vs.len(),
        push_seq_spec(s, vs).1.mem.len() == s.mem.len(),
        dump_spec(push_seq_spec(s, vs).1.mem, push_seq_spec(s, vs).1.regs[2], start)
            == vs.reverse(),
        dump_end_spec(push_seq_spec(s, vs).1.mem, push_seq_spec(s, vs).1.regs[2], start) == start,
    decreases vs.len(),
{
    if vs.len() == 0 {
        assert(vs.reverse() =~= Seq::<u64>::empty());
    } else {
        let init = vs.drop_last();
        let v = vs.last();
        lemma_push_seq(s, init, start);
        let t1 = push_seq_spec(s, init).1;
        let sp = t1.regs[2];
        let t = push_spec(t1, v).1;
        crate::memory::law_push_then_pop(t1.mem, sp, v);
        assert(t.regs[2] == sp + 8);
        assert forall|i: int| 0 <= i < sp implies t.mem[i] == t1.mem[i] by {}
        lemma_dump_frame(t.mem, t1.mem, sp, start);
        assert(dump_spec(t.mem, (sp + 8) as u64, start) == seq![v] + dump_spec(t.mem, sp, start));
        assert(vs.reverse() =~= seq![v] + init.reverse());
    }
}

/// The stack is last in, first out: after words are pushed onto an empty
/// stack (stack pointer at the bottom of the stack) with room for all of
/// them, every push succeeds, and dumping the stack gives the words most
/// recent first and leaves the stack pointer at the bottom again.
pub proof fn law_dump_after_pushes(s: MachineState, stack_start: u64, vs: Seq<u64>)
    requires
        s.regs.len() == 16,
        s.regs[2] == stack_start,
        stack_start + 8 * vs.len() <= s.mem.len(),
        s.mem.len() <= u64::MAX,
    ensures
        push_seq_spec(s, vs).0 == Ok::<(), ExecutionError>(()),
        dump_spec(push_seq_spec(s, vs).1.mem, push_seq_spec(s, vs).1.regs[2], stack_start)
            == vs.reverse(),
        dump_end_spec(push_seq_spec(s, vs).1.mem, push_seq_spec(s, vs).1.regs[2], stack_start)
            == stack_start,
{
    lemma_push_seq(s, vs, stack_start);
}

/// The program counter, stack pointer and frame pointer are read and written
/// whole.
pub proof fn lemma_pointer_registers(regs: Seq<u64>, v: u64)
    requires
        regs.len() == 16,
    ensures
        reg_read(regs, PROGRAM_COUNTER) == regs[1],
        reg_read(regs, STACK_POINTER) == regs[2],
        reg_read(regs, FRAME_POINTER) == regs[3],
        reg_write(regs, PROGRAM_COUNTER, v) == regs.update(1, v),
        reg_write(regs, STACK_POINTER, v) == regs.update(2, v),
        reg_write(regs, FRAME_POINTER, v) == regs.update(3, v),
{
    lemma_full_window(regs[1], v);
    lemma_full_window(regs[2], v);
    lemma_full_window(regs[3], v);
    assert(1u8 & 0x0fu8 == 1u8 && (1u8 & 0xf0u8) >> 4u8 == 0u8) by (bit_vector);
    assert(2u8 & 0x0fu8 == 2u8 && (2u8 & 0xf0u8) >> 4u8 == 0u8) by (bit_vector);
    assert(3u8 & 0x0fu8 == 3u8 && (3u8 & 0xf0u8) >> 4u8 == 0u8) by (bit_vector);
}

/// The full window reads and writes the whole register.
pub proof fn lemma_full_window(v: u64, x: u64)
    ensures
        window_read(v, RegWindow::F) == v,
        window_write(v, RegWindow::F, x) == x,
{
    assert((v >> 0u64) & 0xffff_ffff_ffff_ffffu64 == v) by (bit_vector);
    assert(((v & !(0xffff_ffff_ffff_ffffu64 << 0u64)) | ((x & 0xffff_ffff_ffff_ffffu64) << 0u64))
        == x) by (bit_vector);
}

impl CPU {
    /// The machine's registers, memory and pending interrupt as values.
    pub open spec fn state(&self) -> MachineState {
        MachineState {
            regs: self.registers@,
            mem: self.memory.physical@,
            pending: self.pending_interrupt,
        }
    }

    /// A processor with fresh registers and empty memory of the given heap
    /// and stack sizes.
    pub fn new(heap: u64, stack: u64) -> (c: Self)
        ensures
            c.registers@ == Seq::new(
                16,
                |i: int| if i == 0 { 0 } else { crate::constant::UNINITIALIZED_REGISTER },
            ),
            c.memory.physical@ == Seq::<u8>::empty(),
            c.memory.heap_size == heap,
            c.memory.stack_size == stack,
            c.memory.heap_start == 0,
            c.memory.stack_start == 0,
            c.memory.range == 0,
            c.memory.total_heap_allocations == 0,
            c.pending_interrupt == 0,
    {
        CPU { registers: CPURegisters::new(), memory: Memory::new(heap, stack), pending_interrupt: 0 }
    }

    /// Reads the byte at the program counter and advances the counter.
    fn consume_byte(&mut self) -> (r: Result<u8, ExecutionError>)
        ensures
            ({
                let pc = old(self).registers@[1];
                let m = old(self).memory.physical@;
                &&& pc < m.len() ==> r == Ok::<u8, ExecutionError>(m[pc as int])
                    && final(self).registers@ == old(self).registers@.update(1, (pc + 1) as u64)
                &&& pc >= m.len() ==> r == Err::<u8, ExecutionError>(
                    ExecutionError::MemoryAccessViolation { address: pc },
                ) && final(self).registers@ == old(self).registers@
            }),
            final(self).memory == old(self).memory,
            final(self).pending_interrupt == old(self).pending_interrupt,
    {
        proof {
            self.registers.lemma_shape();
            lemma_pointer_registers(self.registers@, 0);
        }
        let len = self.memory.physical.len();
        let pc = self.registers.read(PROGRAM_COUNTER);
        let byte = self.memory.read_byte(pc)?;
        assert(pc < len);
        proof {
            lemma_pointer_registers(self.registers@, (pc + 1) as u64);
        }
        self.registers.write(PROGRAM_COUNTER, pc + 1);
        Ok(byte)
    }

    /// Reads the eight-byte word at the program counter and advances the
    /// counter past it.
    fn consume_constant(&mut self) -> (r: Result<u64, ExecutionError>)
        ensures
            ({
                let pc = old(self).registers@[1];
                let m = old(self).memory.physical@;
                &&& pc + 8 <= m.len() ==> r == Ok::<u64, ExecutionError>(word_at(m, pc as int))
                    && final(self).registers@ == old(self).registers@.update(1, (pc + 8) as u64)
                &&& pc + 8 > m.len() ==> r == Err::<u64, ExecutionError>(
                    ExecutionError::MemoryAccessViolation { address: first_unreachable(m.len(), pc) },
                ) && final(self).registers@ == old(self).registers@
            }),
            final(self).memory == old(self).memory,
            final(self).pending_interrupt == old(self).pending_interrupt,
    {
        proof {
            self.registers.lemma_shape();
            lemma_pointer_registers(self.registers@, 0);
        }
        let len = self.memory.physical.len();
        let pc = self.registers.read(PROGRAM_COUNTER);
        let double_word = self.memory.read_address(pc)?;
        assert(pc + 8 <= len);
        proof {
            lemma_pointer_registers(self.registers@, (pc + 8) as u64);
        }
        self.registers.write(PROGRAM_COUNTER, pc + 8);
        Ok(double_word)
    }

    /// Decodes the instruction at the program counter and advances the
    /// counter past the bytes it consumed (also when decoding fails part way).
    pub fn fetch_decode(&mut self) -> (r: Result<Operation, ExecutionError>)
        ensures
            ({
                let (res, pc) = decode_spec(old(self).memory.physical@, old(self).registers@[1]);
                &&& r == res
                &&& final(self).registers@ == old(self).registers@.update(1, pc)
            }),
            final(self).memory == old(self).memory,
            final(self).pending_interrupt == old(self).pending_interrupt,
    {
        proof {
            self.registers.lemma_shape();
        }
        let ghost regs0 = self.registers@;
        let ghost m = self.memory.physical@;
        let ghost pc0 = regs0[1];
        let len = self.memory.physical.len();
        let opcode = match self.consume_byte() {
            Ok(b) => b,
            Err(e) => {
                assert(self.registers@ =~= regs0.update(1, pc0));
                return Err(e);
            },
        };
        if opcode == 0xfd {
            return Err(ExecutionError::UninitializedMemory);
        }
        let shape = match opcode_shape(opcode) {
            Some(s) => s,
            None => {
                return Err(ExecutionError::UnsupportedOpcode { opcode });
            },
        };
        assert(pc0 < len);
        let ghost first = (pc0 + 1) as u64;
        let mut a: u8 = 0;
        let mut b: u8 = 0;
        let mut c: u8 = 0;
        let mut w: u64 = 0;
        match shape {
            Shape::Zero => {},
            Shape::One => {
                a = self.consume_byte()?;
            },
            Shape::Two => {
                a = self.consume_byte()?;
                b = self.consume_byte()?;
            },
            Shape::Three => {
                a = self.consume_byte()?;
                b = self.consume_byte()?;
                c = self.consume_byte()?;
            },
            Shape::Word => {
                w = self.consume_constant()?;
            },
            Shape::OneWord => {
                a = self.consume_byte()?;
                w = self.consume_constant()?;
            },
        }
        assert(self.registers@ =~= regs0.update(1, (first + shape_len(shape)) as u64));
        Ok(operation_from_operands(opcode, a, b, c, w))
    }

    /// Pushes `value` onto the stack.
    pub fn push(&mut self, value: u64) -> (r: Result<(), ExecutionError>)
        ensures
            (r, final(self).state()) == push_spec(old(self).state(), value),
            same_layout(final(self).memory, old(self).memory),
    {
        proof {
            self.registers.lemma_shape();
            lemma_pointer_registers(self.registers@, 0);
        }
        let sp = self.registers.read(STACK_POINTER);
        let sp_d = self.memory.push(sp, value)?;
        proof {
            lemma_pointer_registers(self.registers@, sp_d);
        }
        self.registers.write(STACK_POINTER, sp_d);
        Ok(())
    }

    /// Pops a word from the stack.
    pub fn pop(&mut self) -> (r: Result<u64, ExecutionError>)
        ensures
            (r, final(self).state()) == pop_spec(old(self).state()),
            final(self).memory == old(self).memory,
    {
        proof {
            self.registers.lemma_shape();
            lemma_pointer_registers(self.registers@, 0);
        }
        let sp = self.registers.read(STACK_POINTER);
        let (sp_d, value) = self.memory.pop(sp)?;
        proof {
            lemma_pointer_registers(self.registers@, sp_d);
        }
        self.registers.write(STACK_POINTER, sp_d);
        Ok(value)
    }

    /// The word on top of the stack, leaving the stack pointer where it was.
    pub fn false_pop(&mut self) -> (r: Result<u64, ExecutionError>)
        ensures
            r == pop_spec(old(self).state()).0,
            final(self).state() == old(self).state(),
            final(self).memory == old(self).memory,
    {
        proof {
            self.registers.lemma_shape();
            lemma_pointer_registers(self.registers@, 0);
        }
        let old_sp = self.registers.read(STACK_POINTER);
        let value = self.pop()?;
        proof {
            lemma_pointer_registers(self.registers@, old_sp);
        }
        self.registers.write(STACK_POINTER, old_sp);
        assert(self.registers@ =~= old(self).registers@);
        Ok(value)
    }

    /// Pops words until the stack pointer reaches the bottom of the stack or
    /// a pop fails, and returns them in popping order.
    pub fn dump_stack(&mut self) -> (words: Vec<u64>)
        ensures
            ({
                let m = old(self).memory.physical@;
                let sp = old(self).registers@[2];
                let start = old(self).memory.stack_start;
                &&& words@ == dump_spec(m, sp, start)
                &&& final(self).registers@ == old(self).registers@.update(
                    2,
                    dump_end_spec(m, sp, start),
                )
            }),
            final(self).memory == old(self).memory,
            final(self).pending_interrupt == old(self).pending_interrupt,
    {
        proof {
            self.registers.lemma_shape();
            lemma_pointer_registers(self.registers@, 0);
        }
        let mut stack_dump: Vec<u64> = Vec::new();
        let ghost m = self.memory.physical@;
        let ghost start = self.memory.stack_start;
        let ghost sp0 = self.registers@[2];
        let ghost regs0 = self.registers@;
        loop
            invariant
                regs0.len() == 16,
                self.memory == old(self).memory,
                self.pending_interrupt == old(self).pending_interrupt,
                m == self.memory.physical@,
                start == self.memory.stack_start,
                self.registers@.len() == 16,
                self.registers@[0] == 0,
                self.registers@ == regs0.update(2, self.registers@[2]),
                regs0 == old(self).registers@,
                sp0 == regs0[2],
                stack_dump@ + dump_spec(m, self.registers@[2], start) == dump_spec(m, sp0, start),
                dump_end_spec(m, self.registers@[2], start) == dump_end_spec(m, sp0, start),
            ensures
                stack_dump@ == dump_spec(m, sp0, start),
                self.registers@ == regs0.update(2, dump_end_spec(m, sp0, start)),
                self.memory == old(self).memory,
                self.pending_interrupt == old(self).pending_interrupt,
            decreases self.registers@[2],
        {
            proof {
                lemma_pointer_registers(self.registers@, 0);
            }
            let ghost sp = self.registers@[2];
            if self.registers.read(STACK_POINTER) == self.memory.stack_start {
                assert(stack_dump@ =~= dump_spec(m, sp0, start));
                assert(self.registers@ =~= regs0.update(2, dump_end_spec(m, sp0, start)));
                break;
            }
            let ghost s0 = self.state();
            let popped = match self.pop() {
                Ok(p) => p,
                Err(_) => {
                    assert(stack_dump@ =~= dump_spec(m, sp0, start));
                    assert(self.registers@ =~= regs0.update(2, dump_end_spec(m, sp0, start)));
                    break;
                },
            };
            stack_dump.push(popped);
            proof {
                assert(sp >= 8);
                assert(read_address_spec(m, (sp - 8) as u64) == Ok::<u64, ExecutionError>(popped));
                assert(self.registers@ == s0.regs.update(2, (sp - 8) as u64));
                assert(stack_dump@ + dump_spec(m, self.registers@[2], start) =~= dump_spec(
                    m,
                    sp0,
                    start,
                ));
                assert(self.registers@ =~= regs0.update(2, self.registers@[2]));
            }
        }
        stack_dump
    }
}

} // verus!
