use vstd::prelude::*;

use crate::registers::RegHandle;

verus! {

/// A decoded instruction.
#[allow(inconsistent_fields)]
#[derive(Clone, Copy, Debug, PartialEq, Eq, Structural)]
pub enum Operation {
    Nop,
    Cpy { dest: RegHandle, src: RegHandle },
    Ldi { dest: RegHandle, src: u64 },
    Load { dest: RegHandle, n: RegHandle, src: RegHandle },
    Store { dest: RegHandle, n: RegHandle, src: RegHandle },
    Add { dest: RegHandle, op1: RegHandle, op2: RegHandle },
    Sub { dest: RegHandle, op1: RegHandle, op2: RegHandle },
    Mult { dest: RegHandle, op1: RegHandle, op2: RegHandle },
    Div { dest: RegHandle, op1: RegHandle, op2: RegHandle },
    Or { dest: RegHandle, op1: RegHandle, op2: RegHandle },
    Xor { dest: RegHandle, op1: RegHandle, op2: RegHandle },
    And { dest: RegHandle, op1: RegHandle, op2: RegHandle },
    Not { dest: RegHandle, op: RegHandle },
    Shl { dest: RegHandle, n: RegHandle, src: RegHandle },
    Shr { dest: RegHandle, n: RegHandle, src: RegHandle },
    Rotl { dest: RegHandle, n: RegHandle, src: RegHandle },
    Rotr { dest: RegHandle, n: RegHandle, src: RegHandle },
    Neg { dest: RegHandle, op: RegHandle },
    Jmp { addr: u64 },
    Jifz { addr: u64, condition: RegHandle },
    Jifnz { addr: u64, condition: RegHandle },
    Inc { reg: RegHandle },
    Dec { reg: RegHandle },
    Push { src: RegHandle },
    Pop { dest: RegHandle },
    Call { addr: u64 },
    Ret,
    Itof { destf: RegHandle, srci: RegHandle },
    Ftoi { desti: RegHandle, srcf: RegHandle },
    Fadd { dest: RegHandle, op1: RegHandle, op2: RegHandle },
    Fsub { dest: RegHandle, op1: RegHandle, op2: RegHandle },
    Fmult { dest: RegHandle, op1: RegHandle, op2: RegHandle },
    Fdiv { dest: RegHandle, op1: RegHandle, op2: RegHandle },
    Fmod { dest: RegHandle, op1: RegHandle, op2: RegHandle },
    Mod { dest: RegHandle, op1: RegHandle, op2: RegHandle },
    Int { code: u64 },
    Pushi { immediate: u64 },
    Breakpoint,
    HaltExe,
}

/// The operands that follow an opcode: register bytes and eight-byte words.
#[derive(Clone, Copy, Debug, PartialEq, Eq, Structural)]
pub enum Shape {
    /// No operand.
    Zero,
    /// One register byte.
    One,
    /// Two register bytes.
    Two,
    /// Three register bytes.
    Three,
    /// One word.
    Word,
    /// One register byte, then one word.
    OneWord,
}

/// How many operand bytes follow an opcode of this shape.
pub open spec fn shape_len(s: Shape) -> nat {
    match s {
        Shape::Zero => 0,
        Shape::One => 1,
        Shape::Two => 2,
        Shape::Three => 3,
        Shape::Word => 8,
        Shape::OneWord => 9,
    }
}

/// The operand shape of each opcode; `None` for bytes that are no opcode.
pub open spec fn opcode_shape_spec(opcode: u8) -> Option<Shape> {
    if opcode == 0x00 || opcode == 0x1b || opcode == 0xfe {
        Some(Shape::Zero)
    } else if opcode == 0x16 || opcode == 0x17 || opcode == 0x18 || opcode == 0x19 {
        Some(Shape::One)
    } else if opcode == 0x01 || opcode == 0x0c || opcode == 0x11 || opcode == 0x1c || opcode
        == 0x1d {
        Some(Shape::Two)
    } else if (0x03 <= opcode <= 0x0b) || (0x0d <= opcode <= 0x10) || (0x1e <= opcode <= 0x23) {
        Some(Shape::Three)
    } else if opcode == 0x12 || opcode == 0x1a || opcode == 0x24 || opcode == 0x25 {
        Some(Shape::Word)
    } else if opcode == 0x02 || opcode == 0x13 || opcode == 0x14 {
        Some(Shape::OneWord)
    } else {
        None
    }
}

/// The operand shape of an opcode.
pub fn opcode_shape(opcode: u8) -> (s: Option<Shape>)
    ensures
        s == opcode_shape_spec(opcode),
{
    if opcode == 0x00 || opcode == 0x1b || opcode == 0xfe {
        Some(Shape::Zero)
    } else if opcode == 0x16 || opcode == 0x17 || opcode == 0x18 || opcode == 0x19 {
        Some(Shape::One)
    } else if opcode == 0x01 || opcode == 0x0c || opcode == 0x11 || opcode == 0x1c || opcode
        == 0x1d {
        Some(Shape::Two)
    } else if (0x03 <= opcode && opcode <= 0x0b) || (0x0d <= opcode && opcode <= 0x10) || (0x1e
        <= opcode && opcode <= 0x23) {
        Some(Shape::Three)
    } else if opcode == 0x12 || opcode == 0x1a || opcode == 0x24 || opcode == 0x25 {
        Some(Shape::Word)
    } else if opcode == 0x02 || opcode == 0x13 || opcode == 0x14 {
        Some(Shape::OneWord)
    } else {
        None
    }
}

/// The instruction that an opcode with operand bytes `a`, `b`, `c` (in the
/// order they follow the opcode) and operand word `w` denotes.
pub open spec fn operation_spec(opcode: u8, a: u8, b: u8, c: u8, w: u64) -> Operation {
    if opcode == 0x00 {
        Operation::Nop
    } else if opcode == 0x01 {
        Operation::Cpy { dest: a, src: b }
    } else if opcode == 0x02 {
        Operation::Ldi { dest: a, src: w }
    } else if opcode == 0x03 {
        Operation::Load { dest: a, n: b, src: c }
    } else if opcode == 0x04 {
        Operation::Store { dest: a, n: b, src: c }
    } else if opcode == 0x05 {
        Operation::Add { dest: a, op1: b, op2: c }
    } else if opcode == 0x06 {
        Operation::Sub { dest: a, op1: b, op2: c }
    } else if opcode == 0x07 {
        Operation::Mult { dest: a, op1: b, op2: c }
    } else if opcode == 0x08 {
        Operation::Div { dest: a, op1: b, op2: c }
    } else if opcode == 0x09 {
        Operation::Or { dest: a, op1: b, op2: c }
    } else if opcode == 0x0a {
        Operation::Xor { dest: a, op1: b, op2: c }
    } else if opcode == 0x0b {
        Operation::And { dest: a, op1: b, op2: c }
    } else if opcode == 0x0c {
        Operation::Not { dest: a, op: b }
    } else if opcode == 0x0d {
        Operation::Shl { dest: a, n: b, src: c }
    } else if opcode == 0x0e {
        Operation::Shr { dest: a, n: b, src: c }
    } else if opcode == 0x0f {
        Operation::Rotl { dest: a, n: b, src: c }
    } else if opcode == 0x10 {
        Operation::Rotr { dest: a, n: b, src: c }
    } else if opcode == 0x11 {
        Operation::Neg { dest: a, op: b }
    } else if opcode == 0x12 {
        Operation::Jmp { addr: w }
    } else if opcode == 0x13 {
        Operation::Jifz { addr: w, condition: a }
    } else if opcode == 0x14 {
        Operation::Jifnz { addr: w, condition: a }
    } else if opcode == 0x16 {
        Operation::Inc { reg: a }
    } else if opcode == 0x17 {
        Operation::Dec { reg: a }
    } else if opcode == 0x18 {
        Operation::Push { src: a }
    } else if opcode == 0x19 {
        Operation::Pop { dest: a }
    } else if opcode == 0x1a {
        Operation::Call { addr: w }
    } else if opcode == 0x1b {
        Operation::Ret
    } else if opcode == 0x1c {
        Operation::Itof { destf: a, srci: b }
    } else if opcode == 0x1d {
        Operation::Ftoi { desti: a, srcf: b }
    } else if opcode == 0x1e {
        Operation::Fadd { dest: a, op1: b, op2: c }
    } else if opcode == 0x1f {
        Operation::Fsub { dest: a, op1: b, op2: c }
    } else if opcode == 0x20 {
        Operation::Fmult { dest: a, op1: b, op2: c }
    } else if opcode == 0x21 {
        Operation::Fdiv { dest: a, op1: b, op2: c }
    } else if opcode == 0x22 {
        Operation::Fmod { dest: a, op1: b, op2: c }
    } else if opcode == 0x23 {
        Operation::Mod { dest: a, op1: b, op2: c }
    } else if opcode == 0x24 {
        Operation::Int { code: w }
    } else if opcode == 0x25 {
        Operation::Pushi { immediate: w }
    } else {
        Operation::HaltExe
    }
}

/// Builds the instruction that an opcode and its operands denote.
pub fn operation_from_operands(opcode: u8, a: u8, b: u8, c: u8, w: u64) -> (op: Operation)
    requires
        opcode_shape_spec(opcode) is Some,
    ensures
        op == operation_spec(opcode, a, b, c, w),
{
    match opcode {
        0x00 => Operation::Nop,
        0x01 => Operation::Cpy { dest: a, src: b },
        0x02 => Operation::Ldi { dest: a, src: w },
        0x03 => Operation::Load { dest: a, n: b, src: c },
        0x04 => Operation::Store { dest: a, n: b, src: c },
        0x05 => Operation::Add { dest: a, op1: b, op2: c },
        0x06 => Operation::Sub { dest: a, op1: b, op2: c },
        0x07 => Operation::Mult { dest: a, op1: b, op2: c },
        0x08 => Operation::Div { dest: a, op1: b, op2: c },
        0x09 => Operation::Or { dest: a, op1: b, op2: c },
        0x0a => Operation::Xor { dest: a, op1: b, op2: c },
        0x0b => Operation::And { dest: a, op1: b, op2: c },
        0x0c => Operation::Not { dest: a, op: b },
        0x0d => Operation::Shl { dest: a, n: b, src: c },
        0x0e => Operation::Shr { dest: a, n: b, src: c },
        0x0f => Operation::Rotl { dest: a, n: b, src: c },
        0x10 => Operation::Rotr { dest: a, n: b, src: c },
        0x11 => Operation::Neg { dest: a, op: b },
        0x12 => Operation::Jmp { addr: w },
        0x13 => Operation::Jifz { addr: w, condition: a },
        0x14 => Operation::Jifnz { addr: w, condition: a },
        0x16 => Operation::Inc { reg: a },
        0x17 => Operation::Dec { reg: a },
        0x18 => Operation::Push { src: a },
        0x19 => Operation::Pop { dest: a },
        0x1a => Operation::Call { addr: w },
        0x1b => Operation::Ret,
        0x1c => Operation::Itof { destf: a, srci: b },
        0x1d => Operation::Ftoi { desti: a, srcf: b },
        0x1e => Operation::Fadd { dest: a, op1: b, op2: c },
        0x1f => Operation::Fsub { dest: a, op1: b, op2: c },
        0x20 => Operation::Fmult { dest: a, op1: b, op2: c },
        0x21 => Operation::Fdiv { dest: a, op1: b, op2: c },
        0x22 => Operation::Fmod { dest: a, op1: b, op2: c },
        0x23 => Operation::Mod { dest: a, op1: b, op2: c },
        0x24 => Operation::Int { code: w },
        0x25 => Operation::Pushi { immediate: w },
        _ => Operation::HaltExe,
    }
}

} // verus!
