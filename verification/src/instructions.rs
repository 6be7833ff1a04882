use vstd::prelude::*;
use vstd::wrapping::u64_specs;

use crate::bytes::{lemma_le_bytes_mod, le_bytes, le_to_u64, le_value, pow256, u64_to_le_bytes};
use crate::constant::{FRAME_POINTER, PROGRAM_COUNTER, STACK_POINTER};
use crate::cpu::{
    decode_spec, lemma_pointer_registers, pop_spec, push_spec, same_layout, MachineState, CPU,
};
use crate::error::ExecutionError;
use crate::heap::{free_spec, malloc_spec, realloc_moves, realloc_spec};
use crate::memory::{first_unreachable, fits, memcpy_spec, overwrite, read_spec, write_spec};
use crate::opcode::Operation;
use crate::registers::{handle_window, reg_read, reg_write, window_bytes, RegHandle};

verus! {

/// A floating-point instruction; the host carries out the arithmetic.
#[derive(Clone, Copy, Debug, PartialEq, Eq, Structural)]
pub enum FloatOp {
    Itof,
    Ftoi,
    Fadd,
    Fsub,
    Fmult,
    Fdiv,
    Fmod,
}

/// A floating-point instruction with its operand bits read from the
/// registers; the result bits go to `dest`.
#[derive(Clone, Copy, Debug, PartialEq, Eq, Structural)]
pub struct FloatRequest {
    pub op: FloatOp,
    pub dest: RegHandle,
    pub lhs: u64,
    pub rhs: u64,
}

/// What an executed instruction leaves for the caller to do.
#[derive(Clone, Copy, Debug, PartialEq, Eq, Structural)]
pub enum StepOutcome {
    /// Nothing: go on with the next instruction.
    Continue,
    /// `haltexe`: stop executing.
    Halt,
    /// A breakpoint was reached.
    Breakpoint,
    /// Floating-point arithmetic for the host.
    Float(FloatRequest),
}

/// The state with other register values.
pub open spec fn with_regs(s: MachineState, regs: Seq<u64>) -> MachineState {
    MachineState { regs, mem: s.mem, pending: s.pending }
}

/// The state after writing `value` through handle `dest`.
pub open spec fn set_reg(s: MachineState, dest: u8, value: u64) -> MachineState {
    with_regs(s, reg_write(s.regs, dest, value))
}

/// What a handle reads in a state.
pub open spec fn get_reg(s: MachineState, h: u8) -> u64 {
    reg_read(s.regs, h)
}

/// `x` rotated left by `n` modulo 64 bits.
pub open spec fn rotl_spec(x: u64, n: u64) -> u64 {
    let k = n % 64;
    if k == 0 {
        x
    } else {
        (x << k) | (x >> ((64 - k) as u64))
    }
}

/// `x` rotated right by `n` modulo 64 bits.
pub open spec fn rotr_spec(x: u64, n: u64) -> u64 {
    let k = n % 64;
    if k == 0 {
        x
    } else {
        (x >> k) | (x << ((64 - k) as u64))
    }
}

/// The sign bit that `neg` flips.
pub open spec fn sign_mask() -> u64 {
    0x8000_0000_0000_0000
}

/// `load dest, n, src`: the `n` bytes at the address in `src`, little-endian,
/// into `dest`; more than eight bytes do not fit a register.
pub open spec fn load_spec(s: MachineState, dest: u8, n: u8, src: u8) -> (
    Result<(), ExecutionError>,
    MachineState,
) {
    let nv = get_reg(s, n);
    match read_spec(s.mem, get_reg(s, src), nv as nat) {
        Err(e) => (Err(e), s),
        Ok(bytes) => if nv > 8 {
            (Err(ExecutionError::LoadTooWide { n: nv }), s)
        } else {
            (Ok(()), set_reg(s, dest, le_value(bytes) as u64))
        },
    }
}

/// `store dest, n, src`: the `n` low bytes of `src`, little-endian, to the
/// address in `dest`; `n` may not exceed the width of the `src` window.
pub open spec fn store_spec(s: MachineState, dest: u8, n: u8, src: u8) -> (
    Result<(), ExecutionError>,
    MachineState,
) {
    let v = get_reg(s, src);
    let nv = get_reg(s, n);
    let addr = get_reg(s, dest);
    let max = window_bytes(handle_window(src));
    if nv > max {
        (Err(ExecutionError::StoreTooWide { n: nv, max, address: addr, src }), s)
    } else {
        let bytes = le_bytes(v, nv as nat);
        let s2 = MachineState { regs: s.regs, mem: overwrite(s.mem, addr, bytes), pending: s.pending };
        match write_spec(s.mem, addr, bytes) {
            Ok(_) => (Ok(()), s2),
            Err(e) => (Err(e), s2),
        }
    }
}

/// `div dest, op1, op2` and `mod dest, op1, op2`: quotient or remainder,
/// refused for a zero divisor.
pub open spec fn divide_spec(s: MachineState, dest: u8, op1: u8, op2: u8, remainder: bool) -> (
    Result<(), ExecutionError>,
    MachineState,
) {
    let a = get_reg(s, op1);
    let b = get_reg(s, op2);
    if b == 0 {
        (Err(ExecutionError::DivisionByZero { op1, op2 }), s)
    } else if remainder {
        (Ok(()), set_reg(s, dest, a % b))
    } else {
        (Ok(()), set_reg(s, dest, a / b))
    }
}

/// `pop dest`: the top word into `dest`.
pub open spec fn pop_reg_spec(s: MachineState, dest: u8) -> (Result<(), ExecutionError>, MachineState) {
    let (r, s1) = pop_spec(s);
    match r {
        Ok(v) => (Ok(()), set_reg(s1, dest, v)),
        Err(e) => (Err(e), s1),
    }
}

/// `call addr`: the frame pointer takes the stack pointer, then the old frame
/// pointer and the return address are pushed, then the program jumps.
pub open spec fn call_spec(s: MachineState, addr: u64) -> (Result<(), ExecutionError>, MachineState) {
    let fp = s.regs[3];
    let ra = s.regs[1];
    let sp = s.regs[2];
    let s1 = with_regs(s, s.regs.update(3, sp));
    let (r2, s2) = push_spec(s1, fp);
    if r2 is Err {
        (r2, s2)
    } else {
        let (r3, s3) = push_spec(s2, ra);
        if r3 is Err {
            (r3, s3)
        } else {
            (Ok(()), with_regs(s3, s3.regs.update(1, addr)))
        }
    }
}

/// `ret`: pops the return address, then the frame pointer, and restores both.
pub open spec fn ret_spec(s: MachineState) -> (Result<(), ExecutionError>, MachineState) {
    let (r1, s1) = pop_spec(s);
    match r1 {
        Err(e) => (Err(e), s1),
        Ok(ra) => {
            let (r2, s2) = pop_spec(s1);
            match r2 {
                Err(e) => (Err(e), s2),
                Ok(fp) => (Ok(()), with_regs(s2, s2.regs.update(3, fp).update(1, ra))),
            }
        },
    }
}

/// The request of a floating-point instruction.
pub open spec fn float_spec(s: MachineState, op: FloatOp, dest: u8, op1: u8, op2: u8) -> FloatRequest {
    FloatRequest { op, dest, lhs: get_reg(s, op1), rhs: get_reg(s, op2) }
}

/// Wraps an infallible instruction's next state.
pub open spec fn go_on(s: MachineState) -> (Result<StepOutcome, ExecutionError>, MachineState) {
    (Ok(StepOutcome::Continue), s)
}

/// Wraps a fallible instruction's outcome.
pub open spec fn go_on_if_ok(p: (Result<(), ExecutionError>, MachineState)) -> (
    Result<StepOutcome, ExecutionError>,
    MachineState,
) {
    match p.0 {
        Ok(_) => (Ok(StepOutcome::Continue), p.1),
        Err(e) => (Err(e), p.1),
    }
}

/// The outcome and next state of executing one instruction.
pub open spec fn execute_spec(s: MachineState, op: Operation) -> (
    Result<StepOutcome, ExecutionError>,
    MachineState,
) {
    match op {
        Operation::Nop => go_on(s),
        Operation::Cpy { dest, src } => go_on(set_reg(s, dest, get_reg(s, src))),
        Operation::Ldi { dest, src } => go_on(set_reg(s, dest, src)),
        Operation::Load { dest, n, src } => go_on_if_ok(load_spec(s, dest, n, src)),
        Operation::Store { dest, n, src } => go_on_if_ok(store_spec(s, dest, n, src)),
        Operation::Add { dest, op1, op2 } => go_on(
            set_reg(s, dest, u64_specs::wrapping_add(get_reg(s, op1), get_reg(s, op2))),
        ),
        Operation::Sub { dest, op1, op2 } => go_on(
            set_reg(s, dest, u64_specs::wrapping_sub(get_reg(s, op1), get_reg(s, op2))),
        ),
        Operation::Mult { dest, op1, op2 } => go_on(
            set_reg(s, dest, u64_specs::wrapping_mul(get_reg(s, op1), get_reg(s, op2))),
        ),
        Operation::Div { dest, op1, op2 } => go_on_if_ok(divide_spec(s, dest, op1, op2, false)),
        Operation::Mod { dest, op1, op2 } => go_on_if_ok(divide_spec(s, dest, op1, op2, true)),
        Operation::Or { dest, op1, op2 } => go_on(
            set_reg(s, dest, get_reg(s, op1) | get_reg(s, op2)),
        ),
        Operation::Xor { dest, op1, op2 } => go_on(
            set_reg(s, dest, get_reg(s, op1) ^ get_reg(s, op2)),
        ),
        Operation::And { dest, op1, op2 } => go_on(
            set_reg(s, dest, get_reg(s, op1) & get_reg(s, op2)),
        ),
        Operation::Not { dest, op } => go_on(set_reg(s, dest, !get_reg(s, op))),
        Operation::Shl { dest, n, src } => go_on(
            set_reg(s, dest, get_reg(s, src) << (get_reg(s, n) & 63)),
        ),
        Operation::Shr { dest, n, src } => go_on(
            set_reg(s, dest, get_reg(s, src) >> (get_reg(s, n) & 63)),
        ),
        Operation::Rotl { dest, n, src } => go_on(
            set_reg(s, dest, rotl_spec(get_reg(s, src), get_reg(s, n))),
        ),
        Operation::Rotr { dest, n, src } => go_on(
            set_reg(s, dest, rotr_spec(get_reg(s, src), get_reg(s, n))),
        ),
        Operation::Neg { dest, op } => go_on(set_reg(s, dest, get_reg(s, op) ^ sign_mask())),
        Operation::Jmp { addr } => go_on(with_regs(s, s.regs.update(1, addr))),
        Operation::Jifz { addr, condition } => go_on(
            if get_reg(s, condition) == 0 {
                with_regs(s, s.regs.update(1, addr))
            } else {
                s
            },
        ),
        Operation::Jifnz { addr, condition } => go_on(
            if get_reg(s, condition) != 0 {
                with_regs(s, s.regs.update(1, addr))
            } else {
                s
            },
        ),
        Operation::Inc { reg } => go_on(
            set_reg(s, reg, u64_specs::wrapping_add(get_reg(s, reg), 1)),
        ),
        Operation::Dec { reg } => go_on(
            set_reg(s, reg, u64_specs::wrapping_sub(get_reg(s, reg), 1)),
        ),
        Operation::Push { src } => go_on_if_ok(push_spec(s, get_reg(s, src))),
        Operation::Pop { dest } => go_on_if_ok(pop_reg_spec(s, dest)),
        Operation::Call { addr } => go_on_if_ok(call_spec(s, addr)),
        Operation::Ret => go_on_if_ok(ret_spec(s)),
        Operation::Itof { destf, srci } => (
            Ok(StepOutcome::Float(float_spec(s, FloatOp::Itof, destf, srci, 0))),
            s,
        ),
        Operation::Ftoi { desti, srcf } => (
            Ok(StepOutcome::Float(float_spec(s, FloatOp::Ftoi, desti, srcf, 0))),
            s,
        ),
        Operation::Fadd { dest, op1, op2 } => (
            Ok(StepOutcome::Float(float_spec(s, FloatOp::Fadd, dest, op1, op2))),
            s,
        ),
        Operation::Fsub { dest, op1, op2 } => (
            Ok(StepOutcome::Float(float_spec(s, FloatOp::Fsub, dest, op1, op2))),
            s,
        ),
        Operation::Fmult { dest, op1, op2 } => (
            Ok(StepOutcome::Float(float_spec(s, FloatOp::Fmult, dest, op1, op2))),
            s,
        ),
        Operation::Fdiv { dest, op1, op2 } => (
            Ok(StepOutcome::Float(float_spec(s, FloatOp::Fdiv, dest, op1, op2))),
            s,
        ),
        Operation::Fmod { dest, op1, op2 } => (
            Ok(StepOutcome::Float(float_spec(s, FloatOp::Fmod, dest, op1, op2))),
            s,
        ),
        Operation::Int { code } => go_on(
            MachineState { regs: s.regs, mem: s.mem, pending: code as u8 },
        ),
        Operation::Pushi { immediate } => go_on_if_ok(push_spec(s, immediate)),
        Operation::Breakpoint => (Ok(StepOutcome::Breakpoint), s),
        Operation::HaltExe => (Ok(StepOutcome::Halt), s),
    }
}

/// The outcome and next state of one fetch-decode-execute step.
pub open spec fn step_spec(s: MachineState) -> (Result<StepOutcome, ExecutionError>, MachineState) {
    let (d, pc) = decode_spec(s.mem, s.regs[1]);
    let s1 = with_regs(s, s.regs.update(1, pc));
    match d {
        Err(e) => (Err(e), s1),
        Ok(op) => execute_spec(s1, op),
    }
}

impl CPU {
    /// `nop`.
    pub fn op_nop(&mut self)
        ensures
            final(self).state() == old(self).state(),
            final(self).memory == old(self).memory,
    {
    }

    /// `cpy dest, src`.
    pub fn op_cpy(&mut self, dest: RegHandle, src: RegHandle)
        ensures
            final(self).state() == set_reg(old(self).state(), dest, get_reg(old(self).state(), src)),
            final(self).memory == old(self).memory,
    {
        let value = self.registers.read(src);
        self.registers.write(dest, value);
    }

    /// `ldi dest, $imm`.
    pub fn op_ldi(&mut self, dest: RegHandle, immediate: u64)
        ensures
            final(self).state() == set_reg(old(self).state(), dest, immediate),
            final(self).memory == old(self).memory,
    {
        self.registers.write(dest, immediate);
    }

    /// `load dest, n, src`.
    pub fn op_load(&mut self, dest: RegHandle, n: RegHandle, src: RegHandle) -> (r: Result<
        (),
        ExecutionError,
    >)
        ensures
            (r, final(self).state()) == load_spec(old(self).state(), dest, n, src),
            final(self).memory == old(self).memory,
    {
        let n_val = self.registers.read(n);
        let addr = self.registers.read(src);
        let bytes = self.memory.read(addr, n_val)?;
        if n_val > 8 {
            return Err(ExecutionError::LoadTooWide { n: n_val });
        }
        let value = le_to_u64(bytes.as_slice());
        proof {
            crate::bytes::lemma_le_value_bound(bytes@);
            crate::bytes::lemma_pow256_monotone(bytes@.len(), 8);
            crate::bytes::lemma_pow256_8();
        }
        self.registers.write(dest, value);
        Ok(())
    }

    /// `store dest, n, src`.
    pub fn op_store(&mut self, dest: RegHandle, n: RegHandle, src: RegHandle) -> (r: Result<
        (),
        ExecutionError,
    >)
        ensures
            (r, final(self).state()) == store_spec(old(self).state(), dest, n, src),
            same_layout(final(self).memory, old(self).memory),
    {
        let value = self.registers.read(src);
        let n_val = self.registers.read(n);
        let addr = self.registers.read(dest);
        let max = self.registers.get_bytelength(src);
        if n_val > max {
            return Err(ExecutionError::StoreTooWide { n: n_val, max, address: addr, src });
        }
        let bytes = u64_to_le_bytes(value);
        let mut part: Vec<u8> = Vec::new();
        let mut i: usize = 0;
        while i < n_val as usize
            invariant
                bytes@ == le_bytes(value, 8),
                n_val <= 8,
                i <= n_val,
                part@ =~= le_bytes(value, i as nat),
            decreases n_val - i,
        {
            part.push(bytes[i]);
            i = i + 1;
        }
        self.memory.write(addr, part.as_slice())?;
        Ok(())
    }

    /// `add dest, op1, op2` (wrapping).
    pub fn op_add(&mut self, dest: RegHandle, op1: RegHandle, op2: RegHandle)
        ensures
            final(self).state() == set_reg(
                old(self).state(),
                dest,
                u64_specs::wrapping_add(get_reg(old(self).state(), op1), get_reg(old(self).state(), op2)),
            ),
            final(self).memory == old(self).memory,
    {
        let sum = self.registers.read(op1).wrapping_add(self.registers.read(op2));
        self.registers.write(dest, sum);
    }

    /// `sub dest, op1, op2` (wrapping).
    pub fn op_sub(&mut self, dest: RegHandle, op1: RegHandle, op2: RegHandle)
        ensures
            final(self).state() == set_reg(
                old(self).state(),
                dest,
                u64_specs::wrapping_sub(get_reg(old(self).state(), op1), get_reg(old(self).state(), op2)),
            ),
            final(self).memory == old(self).memory,
    {
        let diff = self.registers.read(op1).wrapping_sub(self.registers.read(op2));
        self.registers.write(dest, diff);
    }

    /// `mult dest, op1, op2` (wrapping).
    pub fn op_mult(&mut self, dest: RegHandle, op1: RegHandle, op2: RegHandle)
        ensures
            final(self).state() == set_reg(
                old(self).state(),
                dest,
                u64_specs::wrapping_mul(get_reg(old(self).state(), op1), get_reg(old(self).state(), op2)),
            ),
            final(self).memory == old(self).memory,
    {
        let product = self.registers.read(op1).wrapping_mul(self.registers.read(op2));
        self.registers.write(dest, product);
    }

    /// `div dest, op1, op2`.
    pub fn op_div(&mut self, dest: RegHandle, op1: RegHandle, op2: RegHandle) -> (r: Result<
        (),
        ExecutionError,
    >)
        ensures
            (r, final(self).state()) == divide_spec(old(self).state(), dest, op1, op2, false),
            final(self).memory == old(self).memory,
    {
        let op2_val = self.registers.read(op2);
        if op2_val == 0 {
            return Err(ExecutionError::DivisionByZero { op1, op2 });
        }
        let quotient = self.registers.read(op1) / op2_val;
        self.registers.write(dest, quotient);
        Ok(())
    }

    /// `mod dest, op1, op2`.
    pub fn op_mod(&mut self, dest: RegHandle, op1: RegHandle, op2: RegHandle) -> (r: Result<
        (),
        ExecutionError,
    >)
        ensures
            (r, final(self).state()) == divide_spec(old(self).state(), dest, op1, op2, true),
            final(self).memory == old(self).memory,
    {
        let op2_val = self.registers.read(op2);
        if op2_val == 0 {
            return Err(ExecutionError::DivisionByZero { op1, op2 });
        }
        let rem = self.registers.read(op1) % op2_val;
        self.registers.write(dest, rem);
        Ok(())
    }

    /// `or dest, op1, op2`.
    pub fn op_or(&mut self, dest: RegHandle, op1: RegHandle, op2: RegHandle)
        ensures
            final(self).state() == set_reg(
                old(self).state(),
                dest,
                get_reg(old(self).state(), op1) | get_reg(old(self).state(), op2),
            ),
            final(self).memory == old(self).memory,
    {
        let result = self.registers.read(op1) | self.registers.read(op2);
        self.registers.write(dest, result);
    }

    /// `xor dest, op1, op2`.
    pub fn op_xor(&mut self, dest: RegHandle, op1: RegHandle, op2: RegHandle)
        ensures
            final(self).state() == set_reg(
                old(self).state(),
                dest,
                get_reg(old(self).state(), op1) ^ get_reg(old(self).state(), op2),
            ),
            final(self).memory == old(self).memory,
    {
        let result = self.registers.read(op1) ^ self.registers.read(op2);
        self.registers.write(dest, result);
    }

    /// `and dest, op1, op2`.
    pub fn op_and(&mut self, dest: RegHandle, op1: RegHandle, op2: RegHandle)
        ensures
            final(self).state() == set_reg(
                old(self).state(),
                dest,
                get_reg(old(self).state(), op1) & get_reg(old(self).state(), op2),
            ),
            final(self).memory == old(self).memory,
    {
        let result = self.registers.read(op1) & self.registers.read(op2);
        self.registers.write(dest, result);
    }

    /// `not dest, op`: every bit flipped.
    pub fn op_not(&mut self, dest: RegHandle, op: RegHandle)
        ensures
            final(self).state() == set_reg(old(self).state(), dest, !get_reg(old(self).state(), op)),
            final(self).memory == old(self).memory,
    {
        let result = !self.registers.read(op);
        self.registers.write(dest, result);
    }

    /// `shl dest, n, src`: `src` shifted left by `n` modulo 64.
    pub fn op_shl(&mut self, dest: RegHandle, n: RegHandle, src: RegHandle)
        ensures
            final(self).state() == set_reg(
                old(self).state(),
                dest,
                get_reg(old(self).state(), src) << (get_reg(old(self).state(), n) & 63),
            ),
            final(self).memory == old(self).memory,
    {
        let raw = self.registers.read(n);
        assert(raw & 63 < 64) by (bit_vector);
        let amount = raw & 63;
        let result = self.registers.read(src) << amount;
        self.registers.write(dest, result);
    }

    /// `shr dest, n, src`: `src` shifted right by `n` modulo 64.
    pub fn op_shr(&mut self, dest: RegHandle, n: RegHandle, src: RegHandle)
        ensures
            final(self).state() == set_reg(
                old(self).state(),
                dest,
                get_reg(old(self).state(), src) >> (get_reg(old(self).state(), n) & 63),
            ),
            final(self).memory == old(self).memory,
    {
        let raw = self.registers.read(n);
        assert(raw & 63 < 64) by (bit_vector);
        let amount = raw & 63;
        let result = self.registers.read(src) >> amount;
        self.registers.write(dest, result);
    }

    /// `rotl dest, n, src`: `src` rotated left by `n` modulo 64.
    pub fn op_rotl(&mut self, dest: RegHandle, n: RegHandle, src: RegHandle)
        ensures
            final(self).state() == set_reg(
                old(self).state(),
                dest,
                rotl_spec(get_reg(old(self).state(), src), get_reg(old(self).state(), n)),
            ),
            final(self).memory == old(self).memory,
    {
        let k = self.registers.read(n) % 64;
        let x = self.registers.read(src);
        let result = if k == 0 {
            x
        } else {
            (x << k) | (x >> (64 - k))
        };
        self.registers.write(dest, result);
    }

    /// `rotr dest, n, src`: `src` rotated right by `n` modulo 64.
    pub fn op_rotr(&mut self, dest: RegHandle, n: RegHandle, src: RegHandle)
        ensures
            final(self).state() == set_reg(
                old(self).state(),
                dest,
                rotr_spec(get_reg(old(self).state(), src), get_reg(old(self).state(), n)),
            ),
            final(self).memory == old(self).memory,
    {
        let k = self.registers.read(n) % 64;
        let x = self.registers.read(src);
        let result = if k == 0 {
            x
        } else {
            (x >> k) | (x << (64 - k))
        };
        self.registers.write(dest, result);
    }

    /// `neg dest, op`: the most significant bit flipped.
    pub fn op_neg(&mut self, dest: RegHandle, op: RegHandle)
        ensures
            final(self).state() == set_reg(
                old(self).state(),
                dest,
                get_reg(old(self).state(), op) ^ sign_mask(),
            ),
            final(self).memory == old(self).memory,
    {
        let sign_mask: u64 = 0x8000_0000_0000_0000;
        let result = self.registers.read(op) ^ sign_mask;
        self.registers.write(dest, result);
    }

    /// `jmp $addr`.
    pub fn op_jmp(&mut self, addr: u64)
        ensures
            final(self).state() == with_regs(old(self).state(), old(self).registers@.update(1, addr)),
            final(self).memory == old(self).memory,
    {
        proof {
            self.registers.lemma_shape();
            lemma_pointer_registers(self.registers@, addr);
        }
        self.registers.write(PROGRAM_COUNTER, addr);
    }

    /// `jifz condition, $addr`: jumps when the condition register reads zero.
    pub fn op_jifz(&mut self, condition: RegHandle, addr: u64)
        ensures
            get_reg(old(self).state(), condition) == 0 ==> final(self).state() == with_regs(
                old(self).state(),
                old(self).registers@.update(1, addr),
            ),
            get_reg(old(self).state(), condition) != 0 ==> final(self).state() == old(self).state(),
            final(self).memory == old(self).memory,
    {
        proof {
            self.registers.lemma_shape();
            lemma_pointer_registers(self.registers@, addr);
        }
        if self.registers.read(condition) == 0 {
            self.registers.write(PROGRAM_COUNTER, addr);
        }
    }

    /// `jifnz condition, $addr`: jumps when the condition register does not
    /// read zero.
    pub fn op_jifnz(&mut self, condition: RegHandle, addr: u64)
        ensures
            get_reg(old(self).state(), condition) != 0 ==> final(self).state() == with_regs(
                old(self).state(),
                old(self).registers@.update(1, addr),
            ),
            get_reg(old(self).state(), condition) == 0 ==> final(self).state() == old(self).state(),
            final(self).memory == old(self).memory,
    {
        proof {
            self.registers.lemma_shape();
            lemma_pointer_registers(self.registers@, addr);
        }
        if self.registers.read(condition) != 0 {
            self.registers.write(PROGRAM_COUNTER, addr);
        }
    }

    /// `inc reg` (wrapping).
    pub fn op_inc(&mut self, reg: RegHandle)
        ensures
            final(self).state() == set_reg(
                old(self).state(),
                reg,
                u64_specs::wrapping_add(get_reg(old(self).state(), reg), 1),
            ),
            final(self).memory == old(self).memory,
    {
        let inc = self.registers.read(reg).wrapping_add(1);
        self.registers.write(reg, inc);
    }

    /// `dec reg` (wrapping).
    pub fn op_dec(&mut self, reg: RegHandle)
        ensures
            final(self).state() == set_reg(
                old(self).state(),
                reg,
                u64_specs::wrapping_sub(get_reg(old(self).state(), reg), 1),
            ),
            final(self).memory == old(self).memory,
    {
        let dec = self.registers.read(reg).wrapping_sub(1);
        self.registers.write(reg, dec);
    }

    /// `push src`.
    pub fn op_push(&mut self, src: RegHandle) -> (r: Result<(), ExecutionError>)
        ensures
            (r, final(self).state()) == push_spec(old(self).state(), get_reg(old(self).state(), src)),
            same_layout(final(self).memory, old(self).memory),
    {
        let value = self.registers.read(src);
        self.push(value)
    }

    /// `pushi $imm`.
    pub fn op_pushi(&mut self, immediate: u64) -> (r: Result<(), ExecutionError>)
        ensures
            (r, final(self).state()) == push_spec(old(self).state(), immediate),
            same_layout(final(self).memory, old(self).memory),
    {
        self.push(immediate)
    }

    /// `pop dest`.
    pub fn op_pop(&mut self, dest: RegHandle) -> (r: Result<(), ExecutionError>)
        ensures
            (r, final(self).state()) == pop_reg_spec(old(self).state(), dest),
            final(self).memory == old(self).memory,
    {
        let value = self.pop()?;
        self.registers.write(dest, value);
        Ok(())
    }

    /// `call $addr`.
    pub fn op_call(&mut self, addr: u64) -> (r: Result<(), ExecutionError>)
        ensures
            (r, final(self).state()) == call_spec(old(self).state(), addr),
            same_layout(final(self).memory, old(self).memory),
    {
        proof {
            self.registers.lemma_shape();
            lemma_pointer_registers(self.registers@, 0);
        }
        let fp = self.registers.read(FRAME_POINTER);
        let ra = self.registers.read(PROGRAM_COUNTER);
        let sp = self.registers.read(STACK_POINTER);
        proof {
            lemma_pointer_registers(self.registers@, sp);
        }
        self.registers.write(FRAME_POINTER, sp);
        self.push(fp)?;
        self.push(ra)?;
        proof {
            self.registers.lemma_shape();
            lemma_pointer_registers(self.registers@, addr);
        }
        self.registers.write(PROGRAM_COUNTER, addr);
        Ok(())
    }

    /// `ret`.
    pub fn op_ret(&mut self) -> (r: Result<(), ExecutionError>)
        ensures
            (r, final(self).state()) == ret_spec(old(self).state()),
            final(self).memory == old(self).memory,
    {
        let ra = self.pop()?;
        let fp = self.pop()?;
        proof {
            self.registers.lemma_shape();
            lemma_pointer_registers(self.registers@, fp);
        }
        self.registers.write(FRAME_POINTER, fp);
        proof {
            self.registers.lemma_shape();
            lemma_pointer_registers(self.registers@, ra);
        }
        self.registers.write(PROGRAM_COUNTER, ra);
        Ok(())
    }

    /// `int $code`: raises the interrupt with the low byte of `code`.
    pub fn op_int(&mut self, code: u64)
        ensures
            final(self).registers@ == old(self).registers@,
            final(self).memory == old(self).memory,
            final(self).pending_interrupt == code as u8,
    {
        self.pending_interrupt = code as u8;
    }

    /// `ftoi desti, srcf`: the host converts the float to an integer.
    pub fn op_ftoi(&self, desti: RegHandle, srcf: RegHandle) -> (req: FloatRequest)
        ensures
            req == float_spec(self.state(), FloatOp::Ftoi, desti, srcf, 0),
    {
        FloatRequest { op: FloatOp::Ftoi, dest: desti, lhs: self.registers.read(srcf), rhs: self.registers.read(0) }
    }

    /// `itof destf, srci`: the host converts the integer to a float.
    pub fn op_itof(&self, destf: RegHandle, srci: RegHandle) -> (req: FloatRequest)
        ensures
            req == float_spec(self.state(), FloatOp::Itof, destf, srci, 0),
    {
        FloatRequest { op: FloatOp::Itof, dest: destf, lhs: self.registers.read(srci), rhs: self.registers.read(0) }
    }

    /// `fadd dest, op1, op2`: the host adds the two floats.
    pub fn op_fadd(&self, dest: RegHandle, op1: RegHandle, op2: RegHandle) -> (req: FloatRequest)
        ensures
            req == float_spec(self.state(), FloatOp::Fadd, dest, op1, op2),
    {
        self.float_request(FloatOp::Fadd, dest, op1, op2)
    }

    /// `fsub dest, op1, op2`: the host subtracts the two floats.
    pub fn op_fsub(&self, dest: RegHandle, op1: RegHandle, op2: RegHandle) -> (req: FloatRequest)
        ensures
            req == float_spec(self.state(), FloatOp::Fsub, dest, op1, op2),
    {
        self.float_request(FloatOp::Fsub, dest, op1, op2)
    }

    /// `fmult dest, op1, op2`: the host multiplies the two floats.
    pub fn op_fmult(&self, dest: RegHandle, op1: RegHandle, op2: RegHandle) -> (req: FloatRequest)
        ensures
            req == float_spec(self.state(), FloatOp::Fmult, dest, op1, op2),
    {
        self.float_request(FloatOp::Fmult, dest, op1, op2)
    }

    /// `fdiv dest, op1, op2`: the host divides the two floats.
    pub fn op_fdiv(&self, dest: RegHandle, op1: RegHandle, op2: RegHandle) -> (req: FloatRequest)
        ensures
            req == float_spec(self.state(), FloatOp::Fdiv, dest, op1, op2),
    {
        self.float_request(FloatOp::Fdiv, dest, op1, op2)
    }

    /// `fmod dest, op1, op2`: the host takes the float remainder.
    pub fn op_fmod(&self, dest: RegHandle, op1: RegHandle, op2: RegHandle) -> (req: FloatRequest)
        ensures
            req == float_spec(self.state(), FloatOp::Fmod, dest, op1, op2),
    {
        self.float_request(FloatOp::Fmod, dest, op1, op2)
    }

    fn float_request(&self, op: FloatOp, dest: RegHandle, op1: RegHandle, op2: RegHandle) -> (req:
        FloatRequest)
        ensures
            req == float_spec(self.state(), op, dest, op1, op2),
    {
        FloatRequest { op, dest, lhs: self.registers.read(op1), rhs: self.registers.read(op2) }
    }

    /// `malloc dest, size`: allocates a heap block and puts its pointer in
    /// `dest`.
    pub fn op_malloc(&mut self, dest: RegHandle, size: RegHandle) -> (r: Result<(), ExecutionError>)
        ensures
            ({
                let (mr, m1) = malloc_spec(
                    old(self).memory.physical@,
                    old(self).memory.heap_start,
                    get_reg(old(self).state(), size),
                );
                &&& final(self).memory.physical@ == m1
                &&& mr is Ok ==> r is Ok && final(self).registers@ == reg_write(
                    old(self).registers@,
                    dest,
                    mr->Ok_0,
                )
                &&& mr is Err ==> r == Err::<(), ExecutionError>(mr->Err_0)
                    && final(self).registers@ == old(self).registers@
            }),
            final(self).pending_interrupt == old(self).pending_interrupt,
            final(self).memory.heap_start == old(self).memory.heap_start,
            final(self).memory.stack_start == old(self).memory.stack_start,
            final(self).memory.range == old(self).memory.range,
            final(self).memory.heap_size == old(self).memory.heap_size,
            final(self).memory.stack_size == old(self).memory.stack_size,
            final(self).memory.total_heap_allocations == u64_specs::wrapping_add(
                old(self).memory.total_heap_allocations,
                1,
            ),
    {
        let size_val = self.registers.read(size);
        let ptr = self.memory.malloc(size_val)?;
        self.registers.write(dest, ptr);
        Ok(())
    }

    /// `realloc dest, ptr, size`: resizes the block at the pointer in `ptr`
    /// and puts the block's pointer in `dest`.
    pub fn op_realloc(&mut self, dest: RegHandle, ptr: RegHandle, size: RegHandle) -> (r: Result<
        (),
        ExecutionError,
    >)
        ensures
            ({
                let (rr, m1) = realloc_spec(
                    old(self).memory.physical@,
                    old(self).memory.heap_start,
                    get_reg(old(self).state(), ptr),
                    get_reg(old(self).state(), size),
                );
                &&& final(self).memory.physical@ == m1
                &&& rr is Ok ==> r is Ok && final(self).registers@ == reg_write(
                    old(self).registers@,
                    dest,
                    rr->Ok_0,
                )
                &&& rr is Err ==> r == Err::<(), ExecutionError>(rr->Err_0)
                    && final(self).registers@ == old(self).registers@
            }),
            final(self).pending_interrupt == old(self).pending_interrupt,
            final(self).memory.heap_start == old(self).memory.heap_start,
            final(self).memory.stack_start == old(self).memory.stack_start,
            final(self).memory.range == old(self).memory.range,
            final(self).memory.heap_size == old(self).memory.heap_size,
            final(self).memory.stack_size == old(self).memory.stack_size,
            final(self).memory.total_heap_allocations == (if realloc_moves(
                old(self).memory.physical@,
                get_reg(old(self).state(), ptr),
                get_reg(old(self).state(), size),
            ) {
                u64_specs::wrapping_add(old(self).memory.total_heap_allocations, 1)
            } else {
                old(self).memory.total_heap_allocations
            }),
    {
        let ptr_val = self.registers.read(ptr);
        let size_val = self.registers.read(size);
        let new_ptr = self.memory.realloc(ptr_val, size_val)?;
        self.registers.write(dest, new_ptr);
        Ok(())
    }

    /// `free ptr`: frees the block at the pointer in `ptr`.
    pub fn op_free(&mut self, ptr: RegHandle) -> (r: Result<(), ExecutionError>)
        ensures
            (r, final(self).memory.physical@) == free_spec(
                old(self).memory.physical@,
                get_reg(old(self).state(), ptr),
            ),
            final(self).registers@ == old(self).registers@,
            final(self).pending_interrupt == old(self).pending_interrupt,
            final(self).memory.heap_start == old(self).memory.heap_start,
            final(self).memory.stack_start == old(self).memory.stack_start,
            final(self).memory.range == old(self).memory.range,
            final(self).memory.heap_size == old(self).memory.heap_size,
            final(self).memory.stack_size == old(self).memory.stack_size,
            final(self).memory.total_heap_allocations == u64_specs::wrapping_sub(
                old(self).memory.total_heap_allocations,
                1,
            ),
    {
        let ptr_val = self.registers.read(ptr);
        self.memory.free(ptr_val)
    }

    /// `memcpy dest_mem, n, src`: copies `n` bytes from the address in `src`
    /// to the address in `dest_mem`.
    pub fn op_memcpy(&mut self, dest_mem: RegHandle, n: RegHandle, src: RegHandle) -> (r: Result<
        (),
        ExecutionError,
    >)
        ensures
            (r, final(self).memory.physical@) == memcpy_spec(
                old(self).memory.physical@,
                get_reg(old(self).state(), dest_mem),
                get_reg(old(self).state(), src),
                get_reg(old(self).state(), n),
            ),
            final(self).registers@ == old(self).registers@,
            final(self).pending_interrupt == old(self).pending_interrupt,
            same_layout(final(self).memory, old(self).memory),
    {
        let dest_val = self.registers.read(dest_mem);
        let n_val = self.registers.read(n);
        let src_val = self.registers.read(src);
        self.memory.memcpy(dest_val, src_val, n_val)
    }

    /// `memset dest_mem, n, src`: sets `n` bytes from the address in
    /// `dest_mem` to the low byte of `src`.
    pub fn op_memset(&mut self, dest_mem: RegHandle, n: RegHandle, src: RegHandle) -> (r: Result<
        (),
        ExecutionError,
    >)
        ensures
            ({
                let d = get_reg(old(self).state(), dest_mem);
                let nv = get_reg(old(self).state(), n);
                let v = get_reg(old(self).state(), src) as u8;
                &&& final(self).memory.physical@ == overwrite(
                    old(self).memory.physical@,
                    d,
                    Seq::new(nv as nat, |i: int| v),
                )
                &&& fits(old(self).memory.physical@.len(), d, nv as nat) ==> r is Ok
                &&& !fits(old(self).memory.physical@.len(), d, nv as nat) ==> r
                    == Err::<(), ExecutionError>(
                    ExecutionError::MemoryAccessViolation {
                        address: first_unreachable(old(self).memory.physical@.len(), d),
                    },
                )
            }),
            final(self).registers@ == old(self).registers@,
            final(self).pending_interrupt == old(self).pending_interrupt,
            same_layout(final(self).memory, old(self).memory),
    {
        let dest_val = self.registers.read(dest_mem);
        let n_val = self.registers.read(n);
        let value = self.registers.read(src) as u8;
        self.memory.memset(dest_val, value, n_val)
    }

    /// Carries out one decoded instruction.
    pub fn execute(&mut self, operation: Operation) -> (r: Result<StepOutcome, ExecutionError>)
        ensures
            (r, final(self).state()) == execute_spec(old(self).state(), operation),
            same_layout(final(self).memory, old(self).memory),
    {
        match operation {
            Operation::Nop => {
                self.op_nop();
                Ok(StepOutcome::Continue)
            },
            Operation::Cpy { dest, src } => {
                self.op_cpy(dest, src);
                Ok(StepOutcome::Continue)
            },
            Operation::Ldi { dest, src } => {
                self.op_ldi(dest, src);
                Ok(StepOutcome::Continue)
            },
            Operation::Load { dest, n, src } => {
                self.op_load(dest, n, src)?;
                Ok(StepOutcome::Continue)
            },
            Operation::Store { dest, n, src } => {
                self.op_store(dest, n, src)?;
                Ok(StepOutcome::Continue)
            },
            Operation::Add { dest, op1, op2 } => {
                self.op_add(dest, op1, op2);
                Ok(StepOutcome::Continue)
            },
            Operation::Sub { dest, op1, op2 } => {
                self.op_sub(dest, op1, op2);
                Ok(StepOutcome::Continue)
            },
            Operation::Mult { dest, op1, op2 } => {
                self.op_mult(dest, op1, op2);
                Ok(StepOutcome::Continue)
            },
            Operation::Div { dest, op1, op2 } => {
                self.op_div(dest, op1, op2)?;
                Ok(StepOutcome::Continue)
            },
            Operation::Mod { dest, op1, op2 } => {
                self.op_mod(dest, op1, op2)?;
                Ok(StepOutcome::Continue)
            },
            Operation::Or { dest, op1, op2 } => {
                self.op_or(dest, op1, op2);
                Ok(StepOutcome::Continue)
            },
            Operation::Xor { dest, op1, op2 } => {
                self.op_xor(dest, op1, op2);
                Ok(StepOutcome::Continue)
            },
            Operation::And { dest, op1, op2 } => {
                self.op_and(dest, op1, op2);
                Ok(StepOutcome::Continue)
            },
            Operation::Not { dest, op } => {
                self.op_not(dest, op);
                Ok(StepOutcome::Continue)
            },
            Operation::Shl { dest, n, src } => {
                self.op_shl(dest, n, src);
                Ok(StepOutcome::Continue)
            },
            Operation::Shr { dest, n, src } => {
                self.op_shr(dest, n, src);
                Ok(StepOutcome::Continue)
            },
            Operation::Rotl { dest, n, src } => {
                self.op_rotl(dest, n, src);
                Ok(StepOutcome::Continue)
            },
            Operation::Rotr { dest, n, src } => {
                self.op_rotr(dest, n, src);
                Ok(StepOutcome::Continue)
            },
            Operation::Neg { dest, op } => {
                self.op_neg(dest, op);
                Ok(StepOutcome::Continue)
            },
            Operation::Jmp { addr } => {
                self.op_jmp(addr);
                Ok(StepOutcome::Continue)
            },
            Operation::Jifz { addr, condition } => {
                self.op_jifz(condition, addr);
                Ok(StepOutcome::Continue)
            },
            Operation::Jifnz { addr, condition } => {
                self.op_jifnz(condition, addr);
                Ok(StepOutcome::Continue)
            },
            Operation::Inc { reg } => {
                self.op_inc(reg);
                Ok(StepOutcome::Continue)
            },
            Operation::Dec { reg } => {
                self.op_dec(reg);
                Ok(StepOutcome::Continue)
            },
            Operation::Push { src } => {
                self.op_push(src)?;
                Ok(StepOutcome::Continue)
            },
            Operation::Pop { dest } => {
                self.op_pop(dest)?;
                Ok(StepOutcome::Continue)
            },
            Operation::Call { addr } => {
                self.op_call(addr)?;
                Ok(StepOutcome::Continue)
            },
            Operation::Ret => {
                self.op_ret()?;
                Ok(StepOutcome::Continue)
            },
            Operation::Itof { destf, srci } => Ok(StepOutcome::Float(self.op_itof(destf, srci))),
            Operation::Ftoi { desti, srcf } => Ok(StepOutcome::Float(self.op_ftoi(desti, srcf))),
            Operation::Fadd { dest, op1, op2 } => Ok(StepOutcome::Float(self.op_fadd(dest, op1, op2))),
            Operation::Fsub { dest, op1, op2 } => Ok(StepOutcome::Float(self.op_fsub(dest, op1, op2))),
            Operation::Fmult { dest, op1, op2 } => Ok(
                StepOutcome::Float(self.op_fmult(dest, op1, op2)),
            ),
            Operation::Fdiv { dest, op1, op2 } => Ok(StepOutcome::Float(self.op_fdiv(dest, op1, op2))),
            Operation::Fmod { dest, op1, op2 } => Ok(StepOutcome::Float(self.op_fmod(dest, op1, op2))),
            Operation::Int { code } => {
                self.op_int(code);
                Ok(StepOutcome::Continue)
            },
            Operation::Pushi { immediate } => {
                self.op_pushi(immediate)?;
                Ok(StepOutcome::Continue)
            },
            Operation::Breakpoint => Ok(StepOutcome::Breakpoint),
            Operation::HaltExe => Ok(StepOutcome::Halt),
        }
    }

    /// Fetches, decodes and executes one instruction.
    pub fn step(&mut self) -> (r: Result<StepOutcome, ExecutionError>)
        ensures
            (r, final(self).state()) == step_spec(old(self).state()),
            same_layout(final(self).memory, old(self).memory),
    {
        let op = self.fetch_decode()?;
        self.execute(op)
    }
}

/// A word pushed is the word popped next, and the pop puts the stack
/// pointer back where it was before the push.
pub proof fn law_push_then_pop(s: MachineState, value: u64)
    requires
        s.regs.len() == 16,
        s.mem.len() <= u64::MAX,
        fits(s.mem.len(), s.regs[2], 8),
    ensures
        push_spec(s, value).0 == Ok::<(), ExecutionError>(()),
        pop_spec(push_spec(s, value).1).0 == Ok::<u64, ExecutionError>(value),
        pop_spec(push_spec(s, value).1).1.regs == s.regs,
{
    crate::memory::law_push_then_pop(s.mem, s.regs[2], value);
    let s1 = push_spec(s, value).1;
    assert(s1.regs[2] == s.regs[2] + 8);
    assert(pop_spec(s1).1.regs =~= s.regs);
}

/// `ret` right after a `call` that succeeded gives every register back the
/// value it had before the `call`: the program counter returns to the
/// instruction after the call and the frame and stack pointers are restored.
pub proof fn law_call_then_ret(s: MachineState, addr: u64)
    requires
        s.regs.len() == 16,
        s.mem.len() <= u64::MAX,
        fits(s.mem.len(), s.regs[2], 16),
    ensures
        call_spec(s, addr).0 == Ok::<(), ExecutionError>(()),
        ret_spec(call_spec(s, addr).1).0 == Ok::<(), ExecutionError>(()),
        ret_spec(call_spec(s, addr).1).1.regs == s.regs,
{
    let sp = s.regs[2];
    let fp = s.regs[3];
    let ra = s.regs[1];
    let m1 = overwrite(s.mem, sp, le_bytes(fp, 8));
    let m2 = overwrite(m1, (sp + 8) as u64, le_bytes(ra, 8));
    crate::memory::law_push_then_pop(m1, (sp + 8) as u64, ra);
    crate::memory::law_push_then_pop(s.mem, sp, fp);
    assert(m2.subrange(sp as int, sp + 8) =~= m1.subrange(sp as int, sp + 8));
    let c = call_spec(s, addr).1;
    assert(c.mem == m2);
    assert(c.regs[2] == sp + 16);
    let (r1, s1) = pop_spec(c);
    assert(r1 == Ok::<u64, ExecutionError>(ra));
    let (r2, s2) = pop_spec(s1);
    assert(r2 == Ok::<u64, ExecutionError>(fp));
    assert(ret_spec(c).1.regs =~= s.regs);
}

/// A `ret` after a `call` returns to the instruction after the call and
/// restores the frame and stack pointers, once the code in between has
/// brought the stack pointer back to where the call left it and has left the
/// sixteen bytes that the call pushed as they were; the other registers keep
/// what that code left in them, and memory is not changed.
pub proof fn law_ret_after_call(s: MachineState, addr: u64, t: MachineState)
    requires
        s.regs.len() == 16,
        s.mem.len() <= u64::MAX,
        fits(s.mem.len(), s.regs[2], 16),
        t.regs.len() == 16,
        t.regs[2] == call_spec(s, addr).1.regs[2],
        s.regs[2] + 16 <= t.mem.len(),
        forall|i: int| s.regs[2] <= i < s.regs[2] + 16 ==> t.mem[i] == call_spec(s, addr).1.mem[i],
    ensures
        ret_spec(t).0 == Ok::<(), ExecutionError>(()),
        ret_spec(t).1.regs == t.regs.update(1, s.regs[1]).update(2, s.regs[2]).update(3, s.regs[3]),
        ret_spec(t).1.mem == t.mem,
        ret_spec(t).1.pending == t.pending,
{
    law_call_then_ret(s, addr);
    let sp = s.regs[2];
    let c = call_spec(s, addr).1;
    assert(c.regs[2] == sp + 16);
    let (r1, c1) = pop_spec(c);
    let (r2, c2) = pop_spec(c1);
    assert(r1 == Ok::<u64, ExecutionError>(s.regs[1]));
    assert(r2 == Ok::<u64, ExecutionError>(s.regs[3]));
    assert(t.mem.subrange(sp + 8, sp + 16) =~= c.mem.subrange(sp + 8, sp + 16));
    assert(t.mem.subrange(sp as int, sp + 8) =~= c.mem.subrange(sp as int, sp + 8));
    let (q1, t1) = pop_spec(t);
    assert(q1 == r1);
    let (q2, t2) = pop_spec(t1);
    assert(q2 == r2);
    assert(ret_spec(t).1.regs =~= t.regs.update(1, s.regs[1]).update(2, s.regs[2]).update(
        3,
        s.regs[3],
    ));
}

/// A `load` of `n` bytes from where a `store` of `n` bytes just wrote gives
/// back the low `n` bytes of the stored register (memory is little-endian).
pub proof fn law_store_then_load(s: MachineState, ptr: u8, n: u8, src: u8, dest: u8)
    requires
        s.regs.len() == 16,
        s.mem.len() <= u64::MAX,
        get_reg(s, n) <= window_bytes(handle_window(src)),
        get_reg(s, ptr) + get_reg(s, n) <= s.mem.len(),
    ensures
        store_spec(s, ptr, n, src).0 == Ok::<(), ExecutionError>(()),
        load_spec(store_spec(s, ptr, n, src).1, dest, n, ptr) == (
            Ok::<(), ExecutionError>(()),
            set_reg(
                store_spec(s, ptr, n, src).1,
                dest,
                (get_reg(s, src) as nat % pow256(get_reg(s, n) as nat)) as u64,
            ),
        ),
{
    let v = get_reg(s, src);
    let nv = get_reg(s, n);
    let addr = get_reg(s, ptr);
    let bytes = le_bytes(v, nv as nat);
    crate::memory::law_write_then_read(s.mem, addr, bytes);
    lemma_le_bytes_mod(v, nv as nat);
}

/// Register `r1` (handle 4) is read and written whole.
proof fn lemma_r1_register(regs: Seq<u64>, v: u64)
    requires
        regs.len() == 16,
    ensures
        reg_read(regs, 4) == regs[4],
        reg_write(regs, 4, v) == regs.update(4, v),
{
    crate::cpu::lemma_full_window(regs[4], v);
    assert(4u8 & 0x0fu8 == 4u8 && (4u8 & 0xf0u8) >> 4u8 == 0u8) by (bit_vector);
}

/// `jmp addr` leaves the program counter where `ldi r1, addr` followed by
/// `cpy pc, r1` leaves it, and changes nothing else that those change.
pub proof fn law_jmp_as_ldi_cpy(s: MachineState, addr: u64)
    requires
        s.regs.len() == 16,
    ensures
        ({
            let r1: u8 = 0x04;
            let pc: u8 = 0x01;
            let via = execute_spec(
                execute_spec(s, Operation::Ldi { dest: r1, src: addr }).1,
                Operation::Cpy { dest: pc, src: r1 },
            ).1;
            let jumped = execute_spec(s, Operation::Jmp { addr }).1;
            &&& jumped.regs[1] == addr
            &&& via.regs[1] == addr
            &&& via.regs == jumped.regs.update(4, addr)
            &&& via.mem == jumped.mem
        }),
{
    let r1: u8 = 0x04;
    let pc: u8 = 0x01;
    lemma_pointer_registers(s.regs, addr);
    lemma_r1_register(s.regs, addr);
    let s1 = set_reg(s, r1, addr);
    lemma_r1_register(s1.regs, addr);
    lemma_pointer_registers(s1.regs, addr);
    assert(s1.regs.update(1, addr) =~= s.regs.update(1, addr).update(4, addr));
}

} // verus!
