use nisvc::cpu::CPU;
use nisvc::error::ExecutionError;
use nisvc::instructions::{FloatOp, FloatRequest, StepOutcome};
use nisvc::opcode::Operation;

const PC: u8 = 0x01;
const SP: u8 = 0x02;
const FP: u8 = 0x03;
const R1: u8 = 0x04;
const R2: u8 = 0x05;
const R3: u8 = 0x06;
const R4: u8 = 0x07;

fn image_file(entry: u64, program: &[u8]) -> Vec<u8> {
    let mut f = b"NISVC-EF".to_vec();
    f.extend_from_slice(&entry.to_le_bytes());
    f.extend_from_slice(&(program.len() as u64).to_le_bytes());
    f.extend_from_slice(program);
    f.extend_from_slice(&[0u8; 16]);
    f
}

fn machine(program: &[u8]) -> CPU {
    let mut c = CPU::new(64, 64);
    c.load(image_file(0, program)).unwrap();
    c
}

fn ldi(reg: u8, v: u64) -> Vec<u8> {
    let mut b = vec![0x02, reg];
    b.extend_from_slice(&v.to_le_bytes());
    b
}

#[test]
fn new_cpu_has_fresh_registers() {
    let c = CPU::new(10, 20);
    assert_eq!(c.registers.read(0), 0);
    assert_eq!(c.registers.read(R1), 0xfdfd_fdfd_fdfd_fdfd);
    assert_eq!(c.memory.heap_size, 10);
    assert_eq!(c.memory.stack_size, 20);
    assert_eq!(c.pending_interrupt, 0);
}

#[test]
fn load_sets_entry_and_stack_pointers() {
    let c = machine(&[0xfe]);
    assert_eq!(c.registers.read(PC), 0);
    assert_eq!(c.memory.heap_start, 10);
    assert_eq!(c.memory.stack_start, 1 + 64 + 18);
    assert_eq!(c.registers.read(SP), 83);
    assert_eq!(c.registers.read(FP), 83);
}

#[test]
fn load_refuses_a_bad_signature() {
    let mut c = CPU::new(64, 64);
    let r = c.load(b"NOTAFILE and more".to_vec());
    assert_eq!(r, Err(ExecutionError::InvalidSignature { signature: b"NOTAFILE".to_vec() }));
    assert!(c.memory.physical.is_empty());
}

#[test]
fn load_refuses_a_truncated_file() {
    let mut c = CPU::new(64, 64);
    let mut f = b"NISVC-EF".to_vec();
    f.extend_from_slice(&[1, 2, 3]);
    assert_eq!(
        c.load(f),
        Err(ExecutionError::IncompleteDoubleWord { consumed: vec![1, 2, 3] })
    );
}

#[test]
fn step_runs_ldi_then_halts() {
    let mut program = ldi(R1, 5);
    program.push(0xfe);
    let mut c = machine(&program);
    assert_eq!(c.step(), Ok(StepOutcome::Continue));
    assert_eq!(c.registers.read(R1), 5);
    assert_eq!(c.registers.read(PC), 10);
    assert_eq!(c.step(), Ok(StepOutcome::Halt));
}

#[test]
fn fetch_decode_reads_operands() {
    let mut c = machine(&[0x05, R3, R1, R2]);
    assert_eq!(c.fetch_decode(), Ok(Operation::Add { dest: R3, op1: R1, op2: R2 }));
    assert_eq!(c.registers.read(PC), 4);
}

#[test]
fn unknown_opcode_is_refused() {
    let mut c = machine(&[0x15]);
    assert_eq!(c.fetch_decode(), Err(ExecutionError::UnsupportedOpcode { opcode: 0x15 }));
}

#[test]
fn uninitialized_memory_is_refused() {
    let mut c = machine(&[0x00]);
    c.registers.write(PC, 30);
    assert_eq!(c.fetch_decode(), Err(ExecutionError::UninitializedMemory));
}

#[test]
fn fetch_past_the_end_is_refused() {
    let mut c = machine(&[0x00]);
    c.registers.write(PC, 1000);
    assert_eq!(
        c.fetch_decode(),
        Err(ExecutionError::MemoryAccessViolation { address: 1000 })
    );
}

#[test]
fn truncated_instruction_is_refused() {
    let mut c = CPU::new(0, 18);
    c.load(image_file(0, &[0x00, 1, 2])).unwrap();
    assert_eq!(c.memory.physical.len(), 21);
    c.memory.write_byte(16, 0x12).unwrap();
    c.registers.write(PC, 16);
    assert_eq!(
        c.fetch_decode(),
        Err(ExecutionError::MemoryAccessViolation { address: 21 })
    );
    assert_eq!(c.registers.read(PC), 17);
}

#[test]
fn arithmetic_wraps() {
    let mut c = machine(&[0xfe]);
    c.registers.write(R1, u64::MAX);
    c.registers.write(R2, 2);
    c.op_add(R3, R1, R2);
    assert_eq!(c.registers.read(R3), 1);
    c.op_sub(R3, R2, R1);
    assert_eq!(c.registers.read(R3), 3);
    c.op_mult(R3, R1, R2);
    assert_eq!(c.registers.read(R3), u64::MAX - 1);
    c.op_inc(R1);
    assert_eq!(c.registers.read(R1), 0);
    c.op_dec(R1);
    assert_eq!(c.registers.read(R1), u64::MAX);
}

#[test]
fn division_and_remainder() {
    let mut c = machine(&[0xfe]);
    c.registers.write(R1, 7);
    c.registers.write(R2, 2);
    assert_eq!(c.op_div(R3, R1, R2), Ok(()));
    assert_eq!(c.registers.read(R3), 3);
    assert_eq!(c.op_mod(R3, R1, R2), Ok(()));
    assert_eq!(c.registers.read(R3), 1);
}

#[test]
fn division_by_zero_is_refused() {
    let mut c = machine(&[0xfe]);
    c.registers.write(R1, 7);
    c.registers.write(R2, 0);
    assert_eq!(c.op_div(R3, R1, R2), Err(ExecutionError::DivisionByZero { op1: R1, op2: R2 }));
    assert_eq!(c.op_mod(R3, R1, R2), Err(ExecutionError::DivisionByZero { op1: R1, op2: R2 }));
}

#[test]
fn bitwise_operations() {
    let mut c = machine(&[0xfe]);
    c.registers.write(R1, 0b1100);
    c.registers.write(R2, 0b1010);
    c.op_or(R3, R1, R2);
    assert_eq!(c.registers.read(R3), 0b1110);
    c.op_xor(R3, R1, R2);
    assert_eq!(c.registers.read(R3), 0b0110);
    c.op_and(R3, R1, R2);
    assert_eq!(c.registers.read(R3), 0b1000);
    c.op_not(R3, R1);
    assert_eq!(c.registers.read(R3), !0b1100u64);
}

#[test]
fn neg_flips_the_sign_bit_and_twice_restores() {
    let mut c = machine(&[0xfe]);
    c.registers.write(R1, 5);
    c.op_neg(R2, R1);
    assert_eq!(c.registers.read(R2), 0x8000_0000_0000_0005);
    c.op_neg(R3, R2);
    assert_eq!(c.registers.read(R3), 5);
}

#[test]
fn shifts_use_the_low_six_bits_of_the_amount() {
    let mut c = machine(&[0xfe]);
    c.registers.write(R1, 1);
    c.registers.write(R2, 65);
    c.op_shl(R3, R2, R1);
    assert_eq!(c.registers.read(R3), 2);
    c.registers.write(R1, 8);
    c.registers.write(R2, 3);
    c.op_shr(R3, R2, R1);
    assert_eq!(c.registers.read(R3), 1);
}

#[test]
fn rotations_wrap_around() {
    let mut c = machine(&[0xfe]);
    c.registers.write(R1, 0x8000_0000_0000_0001);
    c.registers.write(R2, 1);
    c.op_rotl(R3, R2, R1);
    assert_eq!(c.registers.read(R3), 3);
    c.op_rotr(R3, R2, R1);
    assert_eq!(c.registers.read(R3), 0xc000_0000_0000_0000);
    c.registers.write(R2, 64);
    c.op_rotl(R3, R2, R1);
    assert_eq!(c.registers.read(R3), 0x8000_0000_0000_0001);
}

#[test]
fn byte_windows_truncate() {
    let mut c = machine(&[0xfe]);
    c.op_ldi(R1, 0x1122_3344_5566_7788);
    c.op_ldi(0x14, 0xffff);
    assert_eq!(c.registers.read(R1), 0x1122_3344_5566_77ff);
    assert_eq!(c.registers.read(0x24), 0x77);
    assert_eq!(c.registers.read(0x94), 0x77ff);
    assert_eq!(c.registers.read(0xe4), 0x1122_3344);
}

#[test]
fn cpy_copies_and_null_stays_zero() {
    let mut c = machine(&[0xfe]);
    c.registers.write(R1, 42);
    c.op_cpy(R2, R1);
    assert_eq!(c.registers.read(R2), 42);
    c.op_cpy(0, R1);
    assert_eq!(c.registers.read(0), 0);
}

#[test]
fn store_then_load_gives_the_low_bytes() {
    let mut c = machine(&[0xfe]);
    let ptr = c.memory.heap_start;
    c.registers.write(R1, ptr);
    c.registers.write(R2, 2);
    c.registers.write(R3, 0x1234_5678);
    assert_eq!(c.op_store(R1, R2, R3), Ok(()));
    assert_eq!(c.memory.read(ptr, 2), Ok(vec![0x78, 0x56]));
    assert_eq!(c.op_load(R4, R2, R1), Ok(()));
    assert_eq!(c.registers.read(R4), 0x5678);
}

#[test]
fn store_wider_than_the_window_is_refused() {
    let mut c = machine(&[0xfe]);
    let ptr = c.memory.heap_start;
    c.registers.write(R1, ptr);
    c.registers.write(R2, 2);
    assert_eq!(
        c.op_store(R1, R2, 0x16),
        Err(ExecutionError::StoreTooWide { n: 2, max: 1, address: ptr, src: 0x16 })
    );
}

#[test]
fn load_wider_than_a_register_is_refused() {
    let mut c = machine(&[0xfe]);
    c.registers.write(R1, c.memory.heap_start);
    c.registers.write(R2, 9);
    assert_eq!(c.op_load(R3, R2, R1), Err(ExecutionError::LoadTooWide { n: 9 }));
}

#[test]
fn push_then_pop_restores_the_value_and_the_stack_pointer() {
    let mut c = machine(&[0xfe]);
    let sp = c.registers.read(SP);
    c.registers.write(R1, 0xdead_beef);
    assert_eq!(c.op_push(R1), Ok(()));
    assert_eq!(c.registers.read(SP), sp + 8);
    assert_eq!(c.op_pop(R2), Ok(()));
    assert_eq!(c.registers.read(R2), 0xdead_beef);
    assert_eq!(c.registers.read(SP), sp);
}

#[test]
fn pushi_and_cpu_pop() {
    let mut c = machine(&[0xfe]);
    assert_eq!(c.op_pushi(77), Ok(()));
    assert_eq!(c.false_pop(), Ok(77));
    assert_eq!(c.pop(), Ok(77));
}

#[test]
fn pop_on_an_empty_machine_is_refused() {
    let mut c = CPU::new(0, 0);
    c.registers.write(SP, 4);
    assert_eq!(c.pop(), Err(ExecutionError::AddressOverflow));
    c.registers.write(SP, 16);
    assert_eq!(c.pop(), Err(ExecutionError::MemoryAccessViolation { address: 8 }));
}

#[test]
fn dump_stack_pops_to_the_bottom() {
    let mut c = machine(&[0xfe]);
    c.push(1).unwrap();
    c.push(2).unwrap();
    c.push(3).unwrap();
    assert_eq!(c.dump_stack(), vec![3, 2, 1]);
    assert_eq!(c.registers.read(SP), c.memory.stack_start);
}

#[test]
fn call_then_ret_restores_every_register() {
    let mut c = machine(&[0xfe]);
    c.registers.write(PC, 7);
    c.registers.write(FP, 40);
    let before: Vec<u64> = (0u8..16).map(|h| c.registers.read(h)).collect();
    assert_eq!(c.op_call(0x33), Ok(()));
    assert_eq!(c.registers.read(PC), 0x33);
    assert_eq!(c.registers.read(FP), before[2]);
    assert_eq!(c.op_ret(), Ok(()));
    let after: Vec<u64> = (0u8..16).map(|h| c.registers.read(h)).collect();
    assert_eq!(before, after);
}

#[test]
fn ret_after_other_code_returns_to_the_caller() {
    let mut c = machine(&[0xfe]);
    c.registers.write(PC, 7);
    c.registers.write(FP, 40);
    let sp0 = c.registers.read(SP);
    assert_eq!(c.op_call(0x33), Ok(()));
    c.push(99).unwrap();
    c.push(100).unwrap();
    c.registers.write(R1, 5);
    c.registers.write(FP, 1234);
    assert_eq!(c.pop(), Ok(100));
    assert_eq!(c.pop(), Ok(99));
    assert_eq!(c.op_ret(), Ok(()));
    assert_eq!(c.registers.read(PC), 7);
    assert_eq!(c.registers.read(FP), 40);
    assert_eq!(c.registers.read(SP), sp0);
    assert_eq!(c.registers.read(R1), 5);
}

#[test]
fn ftoi_goes_to_the_host() {
    let mut c = machine(&[0xfe]);
    c.registers.write(R1, 2.75f64.to_bits());
    c.registers.write(R2, 17);
    assert_eq!(
        c.execute(Operation::Ftoi { desti: R2, srcf: R1 }),
        Ok(StepOutcome::Float(FloatRequest {
            op: FloatOp::Ftoi,
            dest: R2,
            lhs: 2.75f64.to_bits(),
            rhs: 0,
        }))
    );
    assert_eq!(c.registers.read(R2), 17);
}

#[test]
fn jumps() {
    let mut c = machine(&[0xfe]);
    c.op_jmp(0x40);
    assert_eq!(c.registers.read(PC), 0x40);
    c.registers.write(R1, 0);
    c.op_jifz(R1, 0x50);
    assert_eq!(c.registers.read(PC), 0x50);
    c.op_jifnz(R1, 0x60);
    assert_eq!(c.registers.read(PC), 0x50);
    c.registers.write(R1, 3);
    c.op_jifnz(R1, 0x60);
    assert_eq!(c.registers.read(PC), 0x60);
    c.op_jifz(R1, 0x70);
    assert_eq!(c.registers.read(PC), 0x60);
}

#[test]
fn jmp_matches_ldi_then_cpy_into_pc() {
    let mut a = machine(&[0xfe]);
    let mut b = machine(&[0xfe]);
    a.op_jmp(0x99);
    b.op_ldi(R1, 0x99);
    b.op_cpy(PC, R1);
    assert_eq!(a.registers.read(PC), b.registers.read(PC));
    assert_eq!(b.registers.read(R1), 0x99);
}

#[test]
fn int_sets_the_pending_interrupt() {
    let mut c = machine(&[0xfe]);
    c.op_int(0x0a);
    assert_eq!(c.pending_interrupt, 0x0a);
    c.op_nop();
    assert_eq!(c.pending_interrupt, 0x0a);
}

#[test]
fn float_instructions_hand_out_their_operands() {
    let mut c = machine(&[0xfe]);
    c.registers.write(R1, 1.5f64.to_bits());
    c.registers.write(R2, 2.0f64.to_bits());
    assert_eq!(
        c.op_fadd(R3, R1, R2),
        FloatRequest { op: FloatOp::Fadd, dest: R3, lhs: 1.5f64.to_bits(), rhs: 2.0f64.to_bits() }
    );
    assert_eq!(c.op_fdiv(R3, R1, R2).op, FloatOp::Fdiv);
    assert_eq!(c.op_fsub(R3, R1, R2).op, FloatOp::Fsub);
    assert_eq!(c.op_fmult(R3, R1, R2).op, FloatOp::Fmult);
    assert_eq!(c.op_fmod(R3, R1, R2).op, FloatOp::Fmod);
    assert_eq!(c.op_itof(R3, R1).lhs, 1.5f64.to_bits());
    assert_eq!(
        c.op_ftoi(R4, R1),
        FloatRequest { op: FloatOp::Ftoi, dest: R4, lhs: 1.5f64.to_bits(), rhs: 0 }
    );
}

#[test]
fn execute_reports_breakpoints_and_halts() {
    let mut c = machine(&[0xfe]);
    assert_eq!(c.execute(Operation::Breakpoint), Ok(StepOutcome::Breakpoint));
    assert_eq!(c.execute(Operation::HaltExe), Ok(StepOutcome::Halt));
    c.registers.write(R1, 1.0f64.to_bits());
    assert!(matches!(
        c.execute(Operation::Fadd { dest: R2, op1: R1, op2: R1 }),
        Ok(StepOutcome::Float(_))
    ));
}

#[test]
fn heap_instructions() {
    let mut c = machine(&[0xfe]);
    let heap_start = c.memory.heap_start;
    c.registers.write(R2, 8);
    assert_eq!(c.op_malloc(R1, R2), Ok(()));
    assert_eq!(c.registers.read(R1), heap_start);
    c.registers.write(R3, 0x41);
    assert_eq!(c.op_memset(R1, R2, R3), Ok(()));
    assert_eq!(c.memory.read(heap_start, 8), Ok(vec![0x41; 8]));
    c.registers.write(R2, 16);
    assert_eq!(c.op_malloc(R4, R2), Ok(()));
    c.registers.write(R2, 8);
    assert_eq!(c.op_memcpy(R4, R2, R1), Ok(()));
    let second = c.registers.read(R4);
    assert_eq!(c.memory.read(second, 8), Ok(vec![0x41; 8]));
    c.registers.write(R2, 8);
    assert_eq!(c.op_realloc(R1, R1, R2), Ok(()));
    assert_eq!(c.registers.read(R1), heap_start);
    assert_eq!(c.op_free(R4), Ok(()));
}

#[test]
fn read_stack_from_offset_reads_below_the_top() {
    let mut c = machine(&[0xfe]);
    c.push(10).unwrap();
    c.push(20).unwrap();
    let sp = c.registers.read(SP);
    assert_eq!(c.read_stack_from_offset(0), Ok(20));
    assert_eq!(c.read_stack_from_offset(-1), Ok(10));
    assert_eq!(c.registers.read(SP), sp);
    assert_eq!(c.read_stack_from_offset(i64::MAX), Err(ExecutionError::AddressOverflow));
}
