//! What the instructions do, stated over whole registers and memory bytes
//! with ordinary arithmetic: the meaning of each opcode byte and of each
//! instruction, independent of how the decoder and executor are written.
use vstd::prelude::*;

use crate::bytes::{
    lemma_le_value_bound, lemma_pow256_8, lemma_pow256_monotone, lemma_pow256_positive, le_byte,
    le_value, pow256,
};
use crate::cpu::{decode_spec, lemma_full_window, MachineState};
use crate::error::ExecutionError;
use crate::instructions::{execute_spec, get_reg, FloatOp, FloatRequest, StepOutcome};
use crate::opcode::Operation;
use crate::registers::{reg_read, reg_write};

verus! {

/// 2 to the 64th: the number of values of a register.
pub open spec fn two_64() -> int {
    0x1_0000_0000_0000_0000
}

/// Whether a handle names a whole register other than `null`: register
/// number 1 to 15, window nibble 0.
pub open spec fn whole_register(h: u8) -> bool {
    1 <= h < 16
}

/// The state with register `i` holding `x` and nothing else changed.
pub open spec fn with_register(s: MachineState, i: int, x: u64) -> MachineState {
    MachineState { regs: s.regs.update(i, x), mem: s.mem, pending: s.pending }
}

/// The outcome of an instruction that goes on and leaves `x` in whole
/// register `dest`.
pub open spec fn continues_with(s: MachineState, dest: u8, x: u64) -> (
    Result<StepOutcome, ExecutionError>,
    MachineState,
) {
    (Ok(StepOutcome::Continue), with_register(s, dest as int, x))
}

/// A whole register reads and writes its full value.
pub proof fn lemma_whole_register(regs: Seq<u64>, h: u8, x: u64)
    requires
        regs.len() == 16,
        whole_register(h),
    ensures
        reg_read(regs, h) == regs[h as int],
        reg_write(regs, h, x) == regs.update(h as int, x),
{
    assert(h & 0x0f == h && (h & 0xf0) >> 4 == 0) by (bit_vector)
        requires
            h < 16,
    ;
    lemma_full_window(regs[h as int], x);
}

/// `add`, `sub` and `mult` leave in the destination the sum, the difference
/// of the first operand minus the second, and the product, each taken
/// modulo 2^64, and change nothing else.
pub proof fn law_add_sub_mult(s: MachineState, dest: u8, op1: u8, op2: u8)
    requires
        s.regs.len() == 16,
        whole_register(dest),
    ensures
        ({
            let a = get_reg(s, op1) as int;
            let b = get_reg(s, op2) as int;
            &&& execute_spec(s, Operation::Add { dest, op1, op2 }) == continues_with(
                s,
                dest,
                ((a + b) % two_64()) as u64,
            )
            &&& execute_spec(s, Operation::Sub { dest, op1, op2 }) == continues_with(
                s,
                dest,
                (if a >= b {
                    a - b
                } else {
                    a - b + two_64()
                }) as u64,
            )
            &&& execute_spec(s, Operation::Mult { dest, op1, op2 }) == continues_with(
                s,
                dest,
                ((a * b) % two_64()) as u64,
            )
        }),
{
    let a = get_reg(s, op1);
    let b = get_reg(s, op2);
    lemma_whole_register(s.regs, dest, vstd::wrapping::u64_specs::wrapping_add(a, b));
    lemma_whole_register(s.regs, dest, vstd::wrapping::u64_specs::wrapping_sub(a, b));
    lemma_whole_register(s.regs, dest, vstd::wrapping::u64_specs::wrapping_mul(a, b));
    assert(vstd::wrapping::u64_specs::wrapping_add(a, b) == ((a + b) % two_64()) as u64);
}

/// `div` and `mod` leave in the destination the quotient and the remainder
/// of the first operand divided by the second, and refuse a zero divisor
/// with nothing changed.
pub proof fn law_div_mod(s: MachineState, dest: u8, op1: u8, op2: u8)
    requires
        s.regs.len() == 16,
        whole_register(dest),
    ensures
        ({
            let a = get_reg(s, op1) as int;
            let b = get_reg(s, op2) as int;
            &&& b != 0 ==> execute_spec(s, Operation::Div { dest, op1, op2 }) == continues_with(
                s,
                dest,
                (a / b) as u64,
            )
            &&& b != 0 ==> execute_spec(s, Operation::Mod { dest, op1, op2 }) == continues_with(
                s,
                dest,
                (a % b) as u64,
            )
            &&& b != 0 ==> a == b * (a / b) + a % b && 0 <= a % b < b
            &&& b == 0 ==> execute_spec(s, Operation::Div { dest, op1, op2 }) == (
                Err::<StepOutcome, ExecutionError>(ExecutionError::DivisionByZero { op1, op2 }),
                s,
            )
            &&& b == 0 ==> execute_spec(s, Operation::Mod { dest, op1, op2 }) == (
                Err::<StepOutcome, ExecutionError>(ExecutionError::DivisionByZero { op1, op2 }),
                s,
            )
        }),
{
    let a = get_reg(s, op1);
    let b = get_reg(s, op2);
    if b != 0 {
        lemma_whole_register(s.regs, dest, a / b);
        lemma_whole_register(s.regs, dest, a % b);
        assert(a == b * (a / b) + a % b) by (nonlinear_arith)
            requires
                b != 0,
        ;
    }
}

/// Bit `i` of `x`.
pub open spec fn bit(x: u64, i: u64) -> bool {
    (x >> i) & 1 == 1
}

/// What `&`, `|`, `^` and `!` do to each bit, and that flipping the top bit
/// adds 2^63 modulo 2^64.
proof fn lemma_bit_ops(a: u64, b: u64, i: u64)
    by (bit_vector)
    requires
        i < 64,
    ensures
        ((a & b) >> i) & 1 == 1 <==> ((a >> i) & 1 == 1 && (b >> i) & 1 == 1),
        ((a | b) >> i) & 1 == 1 <==> ((a >> i) & 1 == 1 || (b >> i) & 1 == 1),
        ((a ^ b) >> i) & 1 == 1 <==> ((a >> i) & 1 == 1) != ((b >> i) & 1 == 1),
        ((!a) >> i) & 1 == 1 <==> !((a >> i) & 1 == 1),
        (a ^ 0x8000_0000_0000_0000u64) as int == (a as int + 0x8000_0000_0000_0000int)
            % 0x1_0000_0000_0000_0000int,
{
}

/// `and`, `or` and `xor` set each bit of the destination to the `and`, the
/// `or` and the exclusive `or` of that bit of the two operands; `not` flips
/// every bit; `neg` flips the sign bit, which adds 2^63 modulo 2^64.
pub proof fn law_bitwise(s: MachineState, dest: u8, op1: u8, op2: u8)
    requires
        s.regs.len() == 16,
        whole_register(dest),
    ensures
        ({
            let a = get_reg(s, op1);
            let b = get_reg(s, op2);
            let and_r = execute_spec(s, Operation::And { dest, op1, op2 });
            let or_r = execute_spec(s, Operation::Or { dest, op1, op2 });
            let xor_r = execute_spec(s, Operation::Xor { dest, op1, op2 });
            let not_r = execute_spec(s, Operation::Not { dest, op: op1 });
            let neg_r = execute_spec(s, Operation::Neg { dest, op: op1 });
            &&& and_r == continues_with(s, dest, and_r.1.regs[dest as int])
            &&& or_r == continues_with(s, dest, or_r.1.regs[dest as int])
            &&& xor_r == continues_with(s, dest, xor_r.1.regs[dest as int])
            &&& not_r == continues_with(s, dest, not_r.1.regs[dest as int])
            &&& forall|i: u64|
                i < 64 ==> (#[trigger] bit(and_r.1.regs[dest as int], i) == (bit(a, i) && bit(b, i))
                    && bit(or_r.1.regs[dest as int], i) == (bit(a, i) || bit(b, i)) && bit(
                    xor_r.1.regs[dest as int],
                    i,
                ) == (bit(a, i) != bit(b, i)) && bit(not_r.1.regs[dest as int], i) == !bit(a, i))
            &&& neg_r == continues_with(
                s,
                dest,
                ((a as int + 0x8000_0000_0000_0000int) % two_64()) as u64,
            )
        }),
{
    let a = get_reg(s, op1);
    let b = get_reg(s, op2);
    lemma_whole_register(s.regs, dest, a & b);
    lemma_whole_register(s.regs, dest, a | b);
    lemma_whole_register(s.regs, dest, a ^ b);
    lemma_whole_register(s.regs, dest, !a);
    lemma_whole_register(s.regs, dest, a ^ 0x8000_0000_0000_0000u64);
    assert forall|i: u64| i < 64 implies #[trigger] bit(a & b, i) == (bit(a, i) && bit(b, i)) && bit(
        a | b,
        i,
    ) == (bit(a, i) || bit(b, i)) && bit(a ^ b, i) == (bit(a, i) != bit(b, i)) && bit(!a, i)
        == !bit(a, i) by {
        lemma_bit_ops(a, b, i);
    }
    lemma_bit_ops(a, b, 0);
}

/// What shifting by `k` below 64 does, bit by bit.
proof fn lemma_shift_ops(a: u64, k: u64)
    by (bit_vector)
    requires
        k < 64,
    ensures
        (a << k) >> k == a & (0xffff_ffff_ffff_ffffu64 >> k),
        (a << k) & !(0xffff_ffff_ffff_ffffu64 << k) == 0,
        (a >> k) << k == a & (0xffff_ffff_ffff_ffffu64 << k),
        k > 0 ==> (a >> k) >> ((64 - k) as u64) == 0,
{
}

/// What rotating left by `k` from 1 to 63 does, bit by bit.
proof fn lemma_rotl_ops(a: u64, k: u64)
    by (bit_vector)
    requires
        0 < k < 64,
    ensures
        ((a << k) | (a >> ((64 - k) as u64))) >> k == a & (0xffff_ffff_ffff_ffffu64 >> k),
        ((a << k) | (a >> ((64 - k) as u64))) & !(0xffff_ffff_ffff_ffffu64 << k) == a >> ((64
            - k) as u64),
{
}

/// What rotating right by `k` from 1 to 63 does, bit by bit.
proof fn lemma_rotr_ops(a: u64, k: u64)
    by (bit_vector)
    requires
        0 < k < 64,
    ensures
        ((a >> k) | (a << ((64 - k) as u64))) << k == a & (0xffff_ffff_ffff_ffffu64 << k),
        ((a >> k) | (a << ((64 - k) as u64))) >> ((64 - k) as u64) == a & !(
        0xffff_ffff_ffff_ffffu64 << k),
{
}

/// With `k` the shift amount taken modulo 64: `shl` moves the bits of the
/// source `k` places up, filling the low `k` bits with zeros; `shr` moves
/// them `k` places down, filling the high bits with zeros; `rotl` and `rotr`
/// move them `k` places up and down, the bits that leave one end coming back
/// at the other.
pub proof fn law_shifts_and_rotations(s: MachineState, dest: u8, n: u8, src: u8)
    requires
        s.regs.len() == 16,
        whole_register(dest),
    ensures
        ({
            let a = get_reg(s, src);
            let k = (get_reg(s, n) % 64) as u64;
            let low = !(0xffff_ffff_ffff_ffffu64 << k);
            let shl = execute_spec(s, Operation::Shl { dest, n, src });
            let shr = execute_spec(s, Operation::Shr { dest, n, src });
            let rotl = execute_spec(s, Operation::Rotl { dest, n, src });
            let rotr = execute_spec(s, Operation::Rotr { dest, n, src });
            let x_shl = shl.1.regs[dest as int];
            let x_shr = shr.1.regs[dest as int];
            let x_rotl = rotl.1.regs[dest as int];
            let x_rotr = rotr.1.regs[dest as int];
            &&& shl == continues_with(s, dest, x_shl)
            &&& shr == continues_with(s, dest, x_shr)
            &&& rotl == continues_with(s, dest, x_rotl)
            &&& rotr == continues_with(s, dest, x_rotr)
            &&& x_shl >> k == a & (0xffff_ffff_ffff_ffffu64 >> k)
            &&& x_shl & low == 0
            &&& x_shr << k == a & (0xffff_ffff_ffff_ffffu64 << k)
            &&& k > 0 ==> x_shr >> ((64 - k) as u64) == 0
            &&& k == 0 ==> x_rotl == a && x_rotr == a
            &&& k > 0 ==> x_rotl >> k == a & (0xffff_ffff_ffff_ffffu64 >> k) && x_rotl & low == a
                >> ((64 - k) as u64)
            &&& k > 0 ==> x_rotr << k == a & (0xffff_ffff_ffff_ffffu64 << k) && x_rotr >> ((64
                - k) as u64) == a & low
        }),
{
    let a = get_reg(s, src);
    let nv = get_reg(s, n);
    let k = (nv % 64) as u64;
    lemma_shift_ops(a, k);
    if k > 0 {
        lemma_rotl_ops(a, k);
        lemma_rotr_ops(a, k);
    }
    assert(nv & 63 == k) by (bit_vector)
        requires
            k == nv % 64,
    ;
    lemma_whole_register(s.regs, dest, a << k);
    lemma_whole_register(s.regs, dest, a >> k);
    lemma_whole_register(s.regs, dest, crate::instructions::rotl_spec(a, nv));
    lemma_whole_register(s.regs, dest, crate::instructions::rotr_spec(a, nv));
}

/// `cpy` copies the source, `ldi` loads the immediate, `inc` and `dec` add
/// and subtract one modulo 2^64, each in a whole destination register.
pub proof fn law_moves_and_counters(s: MachineState, dest: u8, src: u8, imm: u64)
    requires
        s.regs.len() == 16,
        whole_register(dest),
    ensures
        execute_spec(s, Operation::Cpy { dest, src }) == continues_with(s, dest, get_reg(s, src)),
        execute_spec(s, Operation::Ldi { dest, src: imm }) == continues_with(s, dest, imm),
        execute_spec(s, Operation::Inc { reg: dest }) == continues_with(
            s,
            dest,
            ((s.regs[dest as int] + 1) % two_64()) as u64,
        ),
        execute_spec(s, Operation::Dec { reg: dest }) == continues_with(
            s,
            dest,
            (if s.regs[dest as int] == 0 {
                two_64() - 1
            } else {
                s.regs[dest as int] - 1
            }) as u64,
        ),
{
    let v = s.regs[dest as int];
    lemma_whole_register(s.regs, dest, get_reg(s, src));
    lemma_whole_register(s.regs, dest, imm);
    lemma_whole_register(s.regs, dest, vstd::wrapping::u64_specs::wrapping_add(v, 1));
    lemma_whole_register(s.regs, dest, vstd::wrapping::u64_specs::wrapping_sub(v, 1));
}

/// `jmp` sets the program counter to its address; `jifz` jumps when its
/// condition register reads zero and `jifnz` when it does not, and otherwise
/// nothing changes.
pub proof fn law_jumps(s: MachineState, addr: u64, condition: u8)
    requires
        s.regs.len() == 16,
    ensures
        execute_spec(s, Operation::Jmp { addr }) == continues_with(s, 1, addr),
        execute_spec(s, Operation::Jifz { addr, condition }) == (if get_reg(s, condition) == 0 {
            continues_with(s, 1, addr)
        } else {
            (Ok::<StepOutcome, ExecutionError>(StepOutcome::Continue), s)
        }),
        execute_spec(s, Operation::Jifnz { addr, condition }) == (if get_reg(s, condition) != 0 {
            continues_with(s, 1, addr)
        } else {
            (Ok::<StepOutcome, ExecutionError>(StepOutcome::Continue), s)
        }),
{
}

/// The instructions whose opcode is followed by three register bytes: the
/// opcode byte names the operation and the bytes after it are, in order, its
/// destination and its two operands (`n` and `src` for the shifts and
/// rotations), and decoding moves past all four bytes.
pub proof fn law_decode_three_registers(m: Seq<u8>, pc: u64)
    requires
        m.len() <= u64::MAX,
        pc + 4 <= m.len(),
    ensures
        ({
            let o = m[pc as int];
            let a = m[pc + 1];
            let b = m[pc + 2];
            let c = m[pc + 3];
            &&& o == 0x03 ==> decode_spec(m, pc) == (Ok::<Operation, ExecutionError>(Operation::Load { dest: a, n: b, src: c }), (pc + 4) as u64)
            &&& o == 0x04 ==> decode_spec(m, pc) == (Ok::<Operation, ExecutionError>(Operation::Store { dest: a, n: b, src: c }), (pc + 4) as u64)
            &&& o == 0x05 ==> decode_spec(m, pc) == (Ok::<Operation, ExecutionError>(Operation::Add { dest: a, op1: b, op2: c }), (pc + 4) as u64)
            &&& o == 0x06 ==> decode_spec(m, pc) == (Ok::<Operation, ExecutionError>(Operation::Sub { dest: a, op1: b, op2: c }), (pc + 4) as u64)
            &&& o == 0x07 ==> decode_spec(m, pc) == (Ok::<Operation, ExecutionError>(Operation::Mult { dest: a, op1: b, op2: c }), (pc + 4) as u64)
            &&& o == 0x08 ==> decode_spec(m, pc) == (Ok::<Operation, ExecutionError>(Operation::Div { dest: a, op1: b, op2: c }), (pc + 4) as u64)
            &&& o == 0x09 ==> decode_spec(m, pc) == (Ok::<Operation, ExecutionError>(Operation::Or { dest: a, op1: b, op2: c }), (pc + 4) as u64)
            &&& o == 0x0a ==> decode_spec(m, pc) == (Ok::<Operation, ExecutionError>(Operation::Xor { dest: a, op1: b, op2: c }), (pc + 4) as u64)
            &&& o == 0x0b ==> decode_spec(m, pc) == (Ok::<Operation, ExecutionError>(Operation::And { dest: a, op1: b, op2: c }), (pc + 4) as u64)
            &&& o == 0x0d ==> decode_spec(m, pc) == (Ok::<Operation, ExecutionError>(Operation::Shl { dest: a, n: b, src: c }), (pc + 4) as u64)
            &&& o == 0x0e ==> decode_spec(m, pc) == (Ok::<Operation, ExecutionError>(Operation::Shr { dest: a, n: b, src: c }), (pc + 4) as u64)
            &&& o == 0x0f ==> decode_spec(m, pc) == (Ok::<Operation, ExecutionError>(Operation::Rotl { dest: a, n: b, src: c }), (pc + 4) as u64)
            &&& o == 0x10 ==> decode_spec(m, pc) == (Ok::<Operation, ExecutionError>(Operation::Rotr { dest: a, n: b, src: c }), (pc + 4) as u64)
            &&& o == 0x1e ==> decode_spec(m, pc) == (Ok::<Operation, ExecutionError>(Operation::Fadd { dest: a, op1: b, op2: c }), (pc + 4) as u64)
            &&& o == 0x1f ==> decode_spec(m, pc) == (Ok::<Operation, ExecutionError>(Operation::Fsub { dest: a, op1: b, op2: c }), (pc + 4) as u64)
            &&& o == 0x20 ==> decode_spec(m, pc) == (Ok::<Operation, ExecutionError>(Operation::Fmult { dest: a, op1: b, op2: c }), (pc + 4) as u64)
            &&& o == 0x21 ==> decode_spec(m, pc) == (Ok::<Operation, ExecutionError>(Operation::Fdiv { dest: a, op1: b, op2: c }), (pc + 4) as u64)
            &&& o == 0x22 ==> decode_spec(m, pc) == (Ok::<Operation, ExecutionError>(Operation::Fmod { dest: a, op1: b, op2: c }), (pc + 4) as u64)
            &&& o == 0x23 ==> decode_spec(m, pc) == (Ok::<Operation, ExecutionError>(Operation::Mod { dest: a, op1: b, op2: c }), (pc + 4) as u64)
        }),
{
}

/// The instructions whose opcode is followed by one or two register bytes,
/// and those with no operand.
pub proof fn law_decode_short(m: Seq<u8>, pc: u64)
    requires
        m.len() <= u64::MAX,
        pc + 3 <= m.len(),
    ensures
        ({
            let o = m[pc as int];
            let a = m[pc + 1];
            let b = m[pc + 2];
            &&& o == 0x01 ==> decode_spec(m, pc) == (Ok::<Operation, ExecutionError>(Operation::Cpy { dest: a, src: b }), (pc + 3) as u64)
            &&& o == 0x0c ==> decode_spec(m, pc) == (Ok::<Operation, ExecutionError>(Operation::Not { dest: a, op: b }), (pc + 3) as u64)
            &&& o == 0x11 ==> decode_spec(m, pc) == (Ok::<Operation, ExecutionError>(Operation::Neg { dest: a, op: b }), (pc + 3) as u64)
            &&& o == 0x1c ==> decode_spec(m, pc) == (Ok::<Operation, ExecutionError>(Operation::Itof { destf: a, srci: b }), (pc + 3) as u64)
            &&& o == 0x1d ==> decode_spec(m, pc) == (Ok::<Operation, ExecutionError>(Operation::Ftoi { desti: a, srcf: b }), (pc + 3) as u64)
            &&& o == 0x16 ==> decode_spec(m, pc) == (Ok::<Operation, ExecutionError>(Operation::Inc { reg: a }), (pc + 2) as u64)
            &&& o == 0x17 ==> decode_spec(m, pc) == (Ok::<Operation, ExecutionError>(Operation::Dec { reg: a }), (pc + 2) as u64)
            &&& o == 0x18 ==> decode_spec(m, pc) == (Ok::<Operation, ExecutionError>(Operation::Push { src: a }), (pc + 2) as u64)
            &&& o == 0x19 ==> decode_spec(m, pc) == (Ok::<Operation, ExecutionError>(Operation::Pop { dest: a }), (pc + 2) as u64)
            &&& o == 0x00 ==> decode_spec(m, pc) == (Ok::<Operation, ExecutionError>(Operation::Nop), (pc + 1) as u64)
            &&& o == 0x1b ==> decode_spec(m, pc) == (Ok::<Operation, ExecutionError>(Operation::Ret), (pc + 1) as u64)
            &&& o == 0xfe ==> decode_spec(m, pc) == (Ok::<Operation, ExecutionError>(Operation::HaltExe), (pc + 1) as u64)
        }),
{
}

/// The instructions with an eight-byte operand, read little-endian: the
/// word right after the opcode, or after one register byte.
pub proof fn law_decode_words(m: Seq<u8>, pc: u64)
    requires
        m.len() <= u64::MAX,
        pc + 10 <= m.len(),
    ensures
        ({
            let o = m[pc as int];
            let a = m[pc + 1];
            let w = le_value(m.subrange(pc + 1, pc + 9)) as u64;
            &&& o == 0x12 ==> decode_spec(m, pc) == (Ok::<Operation, ExecutionError>(Operation::Jmp { addr: w }), (pc + 9) as u64)
            &&& o == 0x1a ==> decode_spec(m, pc) == (Ok::<Operation, ExecutionError>(Operation::Call { addr: w }), (pc + 9) as u64)
            &&& o == 0x24 ==> decode_spec(m, pc) == (Ok::<Operation, ExecutionError>(Operation::Int { code: w }), (pc + 9) as u64)
            &&& o == 0x25 ==> decode_spec(m, pc) == (Ok::<Operation, ExecutionError>(Operation::Pushi { immediate: w }), (pc + 9) as u64)
        }),
        ({
            let o = m[pc as int];
            let a = m[pc + 1];
            let w = le_value(m.subrange(pc + 2, pc + 10)) as u64;
            &&& o == 0x02 ==> decode_spec(m, pc) == (Ok::<Operation, ExecutionError>(Operation::Ldi { dest: a, src: w }), (pc + 10) as u64)
            &&& o == 0x13 ==> decode_spec(m, pc) == (Ok::<Operation, ExecutionError>(Operation::Jifz { addr: w, condition: a }), (pc + 10) as u64)
            &&& o == 0x14 ==> decode_spec(m, pc) == (Ok::<Operation, ExecutionError>(Operation::Jifnz { addr: w, condition: a }), (pc + 10) as u64)
        }),
{
}

/// A byte that is no opcode is refused, the uninitialized pattern with its
/// own error, and decoding moves past it.
pub proof fn law_decode_refuses(m: Seq<u8>, pc: u64)
    requires
        m.len() <= u64::MAX,
        pc < m.len(),
    ensures
        m[pc as int] == 0xfd ==> decode_spec(m, pc) == (
            Err::<Operation, ExecutionError>(ExecutionError::UninitializedMemory),
            (pc + 1) as u64,
        ),
        m[pc as int] == 0x15 || (0x26 <= m[pc as int] <= 0xfc) || m[pc as int] == 0xff ==> decode_spec(
            m,
            pc,
        ) == (
            Err::<Operation, ExecutionError>(
                ExecutionError::UnsupportedOpcode { opcode: m[pc as int] },
            ),
            (pc + 1) as u64,
        ),
{
}

/// Byte `i` (from the least significant) of the value that bytes `s` spell
/// little-endian is `s[i]`.
pub proof fn lemma_le_digit(s: Seq<u8>, i: nat)
    requires
        i < s.len(),
    ensures
        (le_value(s) / pow256(i)) % 256 == s[i as int],
    decreases i,
{
    let t = s.drop_first();
    let l = le_value(t);
    assert(le_value(s) == s[0] + 256 * l);
    if i == 0 {
        assert((s[0] + 256 * l) % 256 == s[0]) by (nonlinear_arith)
            requires
                0 <= s[0] < 256,
                l >= 0,
        ;
        assert(pow256(0) == 1);
        assert(le_value(s) / 1 == le_value(s));
    } else {
        lemma_le_digit(t, (i - 1) as nat);
        let p = pow256((i - 1) as nat);
        lemma_pow256_positive((i - 1) as nat);
        assert(pow256(i) == 256 * p);
        assert((s[0] + 256 * l) / 256 == l) by (nonlinear_arith)
            requires
                0 <= s[0] < 256,
                l >= 0,
        ;
        vstd::arithmetic::div_mod::lemma_div_denominator((s[0] + 256 * l) as int, 256, p as int);
        assert(le_value(s) / pow256(i) == l / p);
        assert(t[i - 1] == s[i as int]);
    }
}

/// The bytes of a word, least significant first, by shifts and by division.
proof fn lemma_byte_shifts(v: u64)
    by (bit_vector)
    ensures
        (v >> 0u64) & 0xff == v % 0x100,
        (v >> 8u64) & 0xff == (v / 0x100) % 0x100,
        (v >> 16u64) & 0xff == (v / 0x1_0000) % 0x100,
        (v >> 24u64) & 0xff == (v / 0x100_0000) % 0x100,
        (v >> 32u64) & 0xff == (v / 0x1_0000_0000) % 0x100,
        (v >> 40u64) & 0xff == (v / 0x100_0000_0000) % 0x100,
        (v >> 48u64) & 0xff == (v / 0x1_0000_0000_0000) % 0x100,
        (v >> 56u64) & 0xff == (v / 0x100_0000_0000_0000) % 0x100,
{
}

/// Byte `i` of a word, least significant first, is its `i`-th base-256
/// digit.
proof fn lemma_le_byte_digit(v: u64, i: int)
    requires
        0 <= i < 8,
    ensures
        le_byte(v, i) == (v as nat / pow256(i as nat)) % 256,
{
    lemma_byte_shifts(v);
    assert(pow256(0) == 1);
    assert(pow256(1) == 0x100);
    assert(pow256(2) == 0x1_0000);
    assert(pow256(3) == 0x100_0000);
    assert(pow256(4) == 0x1_0000_0000);
    assert(pow256(5) == 0x100_0000_0000);
    assert(pow256(6) == 0x1_0000_0000_0000);
    assert(pow256(7) == 0x100_0000_0000_0000);
    if i == 0 {
        assert(le_byte(v, 0) == (v >> 0u64) & 0xff);
    } else if i == 1 {
        assert(le_byte(v, 1) == (v >> 8u64) & 0xff);
    } else if i == 2 {
        assert(le_byte(v, 2) == (v >> 16u64) & 0xff);
    } else if i == 3 {
        assert(le_byte(v, 3) == (v >> 24u64) & 0xff);
    } else if i == 4 {
        assert(le_byte(v, 4) == (v >> 32u64) & 0xff);
    } else if i == 5 {
        assert(le_byte(v, 5) == (v >> 40u64) & 0xff);
    } else if i == 6 {
        assert(le_byte(v, 6) == (v >> 48u64) & 0xff);
    } else {
        assert(le_byte(v, 7) == (v >> 56u64) & 0xff);
    }
}

/// `load dest, n, src` with at most eight bytes inside memory puts in the
/// destination the number that the `n` bytes at the address in `src` spell
/// least significant first: below 256^n, with byte `i` as its `i`-th
/// base-256 digit.  More than eight bytes are refused.
pub proof fn law_load_little_endian(s: MachineState, dest: u8, n: u8, src: u8)
    requires
        s.regs.len() == 16,
        s.mem.len() <= u64::MAX,
        whole_register(dest),
    ensures
        ({
            let nv = get_reg(s, n);
            let addr = get_reg(s, src);
            let r = execute_spec(s, Operation::Load { dest, n, src });
            let x = r.1.regs[dest as int];
            &&& addr + nv <= s.mem.len() && nv <= 8 ==> r == continues_with(s, dest, x) && x
                < pow256(nv as nat) && forall|i: int|
                0 <= i < nv ==> (x as nat / #[trigger] pow256(i as nat)) % 256 == s.mem[addr + i]
            &&& addr + nv <= s.mem.len() && nv > 8 ==> r == (
                Err::<StepOutcome, ExecutionError>(ExecutionError::LoadTooWide { n: nv }),
                s,
            )
        }),
{
    let nv = get_reg(s, n);
    let addr = get_reg(s, src);
    if addr + nv <= s.mem.len() && nv <= 8 {
        let bytes = s.mem.subrange(addr as int, addr + nv);
        lemma_le_value_bound(bytes);
        lemma_pow256_monotone(nv as nat, 8);
        lemma_pow256_8();
        let x = le_value(bytes) as u64;
        lemma_whole_register(s.regs, dest, x);
        assert forall|i: int| 0 <= i < nv implies (x as nat / #[trigger] pow256(i as nat)) % 256
            == s.mem[addr + i] by {
            lemma_le_digit(bytes, i as nat);
        }
    }
}

/// `store dest, n, src` from a whole register with at most eight bytes
/// inside memory writes the `n` low bytes of the source, least significant
/// first, at the address in `dest`, and changes no other byte and no
/// register.
pub proof fn law_store_little_endian(s: MachineState, dest: u8, n: u8, src: u8)
    requires
        s.regs.len() == 16,
        whole_register(src),
        get_reg(s, n) <= 8,
        get_reg(s, dest) + get_reg(s, n) <= s.mem.len(),
    ensures
        ({
            let nv = get_reg(s, n);
            let addr = get_reg(s, dest);
            let v = s.regs[src as int];
            let r = execute_spec(s, Operation::Store { dest, n, src });
            &&& r.0 == Ok::<StepOutcome, ExecutionError>(StepOutcome::Continue)
            &&& r.1.regs == s.regs
            &&& r.1.pending == s.pending
            &&& r.1.mem.len() == s.mem.len()
            &&& forall|i: int|
                0 <= i < nv ==> #[trigger] r.1.mem[addr + i] == (v as nat / pow256(i as nat)) % 256
            &&& forall|j: int|
                0 <= j < s.mem.len() && !(addr <= j < addr + nv) ==> #[trigger] r.1.mem[j]
                    == s.mem[j]
        }),
{
    let nv = get_reg(s, n);
    let addr = get_reg(s, dest);
    let v = s.regs[src as int];
    lemma_whole_register(s.regs, src, 0);
    assert(crate::registers::window_bytes(crate::registers::handle_window(src)) == 8) by {
        assert((src & 0xf0) >> 4 == 0) by (bit_vector)
            requires
                src < 16,
        ;
    }
    let r = execute_spec(s, Operation::Store { dest, n, src });
    assert forall|i: int| 0 <= i < nv implies #[trigger] r.1.mem[addr + i] == (v as nat / pow256(
        i as nat,
    )) % 256 by {
        lemma_le_byte_digit(v, i);
    }
}

/// `push` and `pushi` write the word least significant byte first at the
/// stack pointer and move it up by eight; `pop` reads the eight bytes below
/// the stack pointer least significant first into a whole destination and
/// moves the stack pointer down by eight.
pub proof fn law_stack_little_endian(s: MachineState, src: u8, dest: u8, imm: u64)
    requires
        s.regs.len() == 16,
        s.mem.len() <= u64::MAX,
        whole_register(src),
        whole_register(dest),
        dest != 2,
    ensures
        ({
            let sp = s.regs[2];
            let v = s.regs[src as int];
            let push = execute_spec(s, Operation::Push { src });
            let pushi = execute_spec(s, Operation::Pushi { immediate: imm });
            &&& sp + 8 <= s.mem.len() ==> push.0 == Ok::<StepOutcome, ExecutionError>(
                StepOutcome::Continue,
            ) && push.1.regs == s.regs.update(2, (sp + 8) as u64) && push.1.mem.len()
                == s.mem.len() && (forall|i: int|
                0 <= i < 8 ==> #[trigger] push.1.mem[sp + i] == (v as nat / pow256(i as nat)) % 256)
                && (forall|j: int|
                0 <= j < s.mem.len() && !(sp <= j < sp + 8) ==> #[trigger] push.1.mem[j]
                    == s.mem[j])
            &&& sp + 8 <= s.mem.len() ==> pushi.0 == Ok::<StepOutcome, ExecutionError>(
                StepOutcome::Continue,
            ) && pushi.1.regs == s.regs.update(2, (sp + 8) as u64) && (forall|i: int|
                0 <= i < 8 ==> #[trigger] pushi.1.mem[sp + i] == (imm as nat / pow256(i as nat))
                    % 256)
        }),
        ({
            let sp = s.regs[2];
            let pop = execute_spec(s, Operation::Pop { dest });
            let x = pop.1.regs[dest as int];
            8 <= sp <= s.mem.len() ==> pop.0 == Ok::<StepOutcome, ExecutionError>(
                StepOutcome::Continue,
            ) && pop.1.mem == s.mem && pop.1.regs == s.regs.update(2, (sp - 8) as u64).update(
                dest as int,
                x,
            ) && forall|i: int|
                0 <= i < 8 ==> (x as nat / #[trigger] pow256(i as nat)) % 256 == s.mem[sp - 8 + i]
        }),
{
    let sp = s.regs[2];
    let v = s.regs[src as int];
    lemma_whole_register(s.regs, src, 0);
    crate::cpu::lemma_pointer_registers(s.regs, 0);
    if sp + 8 <= s.mem.len() {
        let push = execute_spec(s, Operation::Push { src });
        assert forall|i: int| 0 <= i < 8 implies #[trigger] push.1.mem[sp + i] == (v as nat
            / pow256(i as nat)) % 256 by {
            lemma_le_byte_digit(v, i);
        }
        let pushi = execute_spec(s, Operation::Pushi { immediate: imm });
        assert forall|i: int| 0 <= i < 8 implies #[trigger] pushi.1.mem[sp + i] == (imm as nat
            / pow256(i as nat)) % 256 by {
            lemma_le_byte_digit(imm, i);
        }
    }
    if 8 <= sp <= s.mem.len() {
        let bytes = s.mem.subrange(sp - 8, sp as int);
        lemma_le_value_bound(bytes);
        lemma_pow256_8();
        let x = le_value(bytes) as u64;
        let regs1 = s.regs.update(2, (sp - 8) as u64);
        lemma_whole_register(regs1, dest, x);
        assert forall|i: int| 0 <= i < 8 implies (x as nat / #[trigger] pow256(i as nat)) % 256
            == s.mem[sp - 8 + i] by {
            lemma_le_digit(bytes, i as nat);
        }
    }
}

/// `call addr` makes the stack pointer the frame pointer, writes the old
/// frame pointer and then the return address (the program counter, already
/// past the call) least significant byte first at the stack pointer and
/// eight bytes above it, moves the stack pointer up by sixteen and jumps to
/// `addr`; `ret` reads the return address from the eight bytes below the
/// stack pointer and the frame pointer from the eight below those, and
/// moves the stack pointer down by sixteen.
pub proof fn law_call_and_ret(s: MachineState, addr: u64)
    requires
        s.regs.len() == 16,
        s.mem.len() <= u64::MAX,
    ensures
        ({
            let sp = s.regs[2];
            let call = execute_spec(s, Operation::Call { addr });
            sp + 16 <= s.mem.len() ==> call.0 == Ok::<StepOutcome, ExecutionError>(
                StepOutcome::Continue,
            ) && call.1.regs == s.regs.update(3, sp).update(2, (sp + 16) as u64).update(1, addr)
                && call.1.mem.len() == s.mem.len() && call.1.pending == s.pending && (forall|i: int|
                0 <= i < 8 ==> #[trigger] call.1.mem[sp + i] == (s.regs[3] as nat / pow256(
                    i as nat,
                )) % 256 && call.1.mem[sp + 8 + i] == (s.regs[1] as nat / pow256(i as nat)) % 256)
                && (forall|j: int|
                0 <= j < s.mem.len() && !(sp <= j < sp + 16) ==> #[trigger] call.1.mem[j]
                    == s.mem[j])
        }),
        ({
            let sp = s.regs[2];
            let ret = execute_spec(s, Operation::Ret);
            16 <= sp <= s.mem.len() ==> ret.0 == Ok::<StepOutcome, ExecutionError>(
                StepOutcome::Continue,
            ) && ret.1.mem == s.mem && ret.1.regs == s.regs.update(2, (sp - 16) as u64).update(
                3,
                ret.1.regs[3],
            ).update(1, ret.1.regs[1]) && forall|i: int|
                0 <= i < 8 ==> (ret.1.regs[1] as nat / #[trigger] pow256(i as nat)) % 256
                    == s.mem[sp - 8 + i] && (ret.1.regs[3] as nat / pow256(i as nat)) % 256
                    == s.mem[sp - 16 + i]
        }),
{
    let sp = s.regs[2];
    crate::cpu::lemma_pointer_registers(s.regs, 0);
    if sp + 16 <= s.mem.len() {
        let call = execute_spec(s, Operation::Call { addr });
        assert(call.1.regs =~= s.regs.update(3, sp).update(2, (sp + 16) as u64).update(1, addr));
        assert forall|i: int| 0 <= i < 8 implies #[trigger] call.1.mem[sp + i] == (s.regs[3] as nat
            / pow256(i as nat)) % 256 && call.1.mem[sp + 8 + i] == (s.regs[1] as nat / pow256(
            i as nat,
        )) % 256 by {
            lemma_le_byte_digit(s.regs[3], i);
            lemma_le_byte_digit(s.regs[1], i);
        }
    }
    if 16 <= sp <= s.mem.len() {
        let ret = execute_spec(s, Operation::Ret);
        let hi = s.mem.subrange(sp - 8, sp as int);
        let lo = s.mem.subrange(sp - 16, sp - 8);
        lemma_le_value_bound(hi);
        lemma_le_value_bound(lo);
        lemma_pow256_8();
        assert(ret.1.regs[1] == le_value(hi) as u64);
        assert(ret.1.regs[3] == le_value(lo) as u64);
        assert(ret.1.regs =~= s.regs.update(2, (sp - 16) as u64).update(3, ret.1.regs[3]).update(
            1,
            ret.1.regs[1],
        ));
        assert forall|i: int| 0 <= i < 8 implies (ret.1.regs[1] as nat / #[trigger] pow256(
            i as nat,
        )) % 256 == s.mem[sp - 8 + i] && (ret.1.regs[3] as nat / pow256(i as nat)) % 256
            == s.mem[sp - 16 + i] by {
            lemma_le_digit(hi, i as nat);
            lemma_le_digit(lo, i as nat);
        }
    }
}

/// `int code` raises the interrupt numbered by the low byte of `code`,
/// `nop` changes nothing, a breakpoint and `haltexe` stop with their own
/// outcome, and the floating-point instructions hand the host their kind,
/// destination and the bits of their operands without changing the state.
pub proof fn law_other_instructions(s: MachineState, code: u64, dest: u8, op1: u8, op2: u8)
    ensures
        execute_spec(s, Operation::Int { code }) == (
            Ok::<StepOutcome, ExecutionError>(StepOutcome::Continue),
            MachineState { regs: s.regs, mem: s.mem, pending: (code % 256) as u8 },
        ),
        execute_spec(s, Operation::Nop) == (Ok::<StepOutcome, ExecutionError>(StepOutcome::Continue), s),
        execute_spec(s, Operation::Breakpoint) == (
            Ok::<StepOutcome, ExecutionError>(StepOutcome::Breakpoint),
            s,
        ),
        execute_spec(s, Operation::HaltExe) == (Ok::<StepOutcome, ExecutionError>(StepOutcome::Halt), s),
        execute_spec(s, Operation::Fadd { dest, op1, op2 }) == (
            Ok::<StepOutcome, ExecutionError>(
                StepOutcome::Float(
                    FloatRequest { op: FloatOp::Fadd, dest, lhs: get_reg(s, op1), rhs: get_reg(s, op2) },
                ),
            ),
            s,
        ),
        execute_spec(s, Operation::Fsub { dest, op1, op2 }) == (
            Ok::<StepOutcome, ExecutionError>(
                StepOutcome::Float(
                    FloatRequest { op: FloatOp::Fsub, dest, lhs: get_reg(s, op1), rhs: get_reg(s, op2) },
                ),
            ),
            s,
        ),
        execute_spec(s, Operation::Fmult { dest, op1, op2 }) == (
            Ok::<StepOutcome, ExecutionError>(
                StepOutcome::Float(
                    FloatRequest { op: FloatOp::Fmult, dest, lhs: get_reg(s, op1), rhs: get_reg(s, op2) },
                ),
            ),
            s,
        ),
        execute_spec(s, Operation::Fdiv { dest, op1, op2 }) == (
            Ok::<StepOutcome, ExecutionError>(
                StepOutcome::Float(
                    FloatRequest { op: FloatOp::Fdiv, dest, lhs: get_reg(s, op1), rhs: get_reg(s, op2) },
                ),
            ),
            s,
        ),
        execute_spec(s, Operation::Fmod { dest, op1, op2 }) == (
            Ok::<StepOutcome, ExecutionError>(
                StepOutcome::Float(
                    FloatRequest { op: FloatOp::Fmod, dest, lhs: get_reg(s, op1), rhs: get_reg(s, op2) },
                ),
            ),
            s,
        ),
        execute_spec(s, Operation::Itof { destf: dest, srci: op1 }).0 == Ok::<
            StepOutcome,
            ExecutionError,
        >(
            StepOutcome::Float(
                FloatRequest { op: FloatOp::Itof, dest, lhs: get_reg(s, op1), rhs: get_reg(s, 0) },
            ),
        ),
        execute_spec(s, Operation::Ftoi { desti: dest, srcf: op1 }).0 == Ok::<
            StepOutcome,
            ExecutionError,
        >(
            StepOutcome::Float(
                FloatRequest { op: FloatOp::Ftoi, dest, lhs: get_reg(s, op1), rhs: get_reg(s, 0) },
            ),
        ),
{
    assert((code as u8) == (code % 256) as u8) by (bit_vector);
}

/// `rsk offset` in the debug shell reads the word whose bytes lie just below
/// the stack pointer moved by eight bytes per unit of `offset`, least
/// significant byte first: offset 0 reads the top word, offset -1 the word
/// under it.
pub proof fn law_read_stack_offset(s: MachineState, offset: int)
    requires
        s.regs.len() == 16,
        s.mem.len() <= u64::MAX,
        8 <= s.regs[2] + 8 * offset <= s.mem.len(),
    ensures
        ({
            let sp = s.regs[2];
            let t = crate::shell::offset_target(sp, 8 * offset);
            let r = crate::cpu::pop_spec(MachineState { regs: s.regs.update(2, t), ..s }).0;
            &&& r is Ok
            &&& forall|i: int|
                0 <= i < 8 ==> (r->Ok_0 as nat / #[trigger] pow256(i as nat)) % 256 == s.mem[sp
                    + 8 * offset - 8 + i]
        }),
{
    let sp = s.regs[2];
    let t = crate::shell::offset_target(sp, 8 * offset);
    assert(t == sp + 8 * offset);
    let bytes = s.mem.subrange(t - 8, t as int);
    lemma_le_value_bound(bytes);
    lemma_pow256_8();
    let r = crate::cpu::pop_spec(MachineState { regs: s.regs.update(2, t), ..s }).0;
    assert(r == Ok::<u64, ExecutionError>(le_value(bytes) as u64));
    assert forall|i: int| 0 <= i < 8 implies (r->Ok_0 as nat / #[trigger] pow256(i as nat)) % 256
        == s.mem[sp + 8 * offset - 8 + i] by {
        lemma_le_digit(bytes, i as nat);
    }
}

} // verus!
