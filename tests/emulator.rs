use emulator::alu::{
    add_words, apply_flags, div_words, mul_words, sub_words, FlagsDelta, FLAG_CARRY,
    FLAG_NEGATIVE, FLAG_OVERFLOW, FLAG_ZERO,
};
use emulator::cpu::CPU;
use emulator::decoder::{
    decode, Instruction, OPCODE_SHIFT, OP_ADD, OP_CALL, OP_DIV, OP_LOAD, OP_MUL, OP_RET, OP_SUB,
    X_SHIFT, Y_SHIFT,
};
use emulator::fault::Fault;
use emulator::machine::{RunOutcome, Step};
use emulator::stack::Stack;

fn word(op: u32, x: u32, y: u32, d: u32) -> u32 {
    (op << OPCODE_SHIFT) | (x << X_SHIFT) | (y << Y_SHIFT) | d
}

fn call_word(target: u32) -> u32 {
    (OP_CALL << OPCODE_SHIFT) | (target / 4)
}

fn ret_word() -> u32 {
    OP_RET << OPCODE_SHIFT
}

#[test]
fn decode_zero_is_halt() {
    assert_eq!(decode(0), Instruction::Halt);
}

#[test]
fn decode_unknown_words_are_invalid() {
    for w in [0xFFFF_FFFFu32, 0x0000_0001, 0x1234_5678, word(OP_RET, 0, 0, 1), word(0x3FF, 1, 2, 3)] {
        assert_eq!(decode(w), Instruction::Invalid { word: w });
    }
}

#[test]
fn decode_arithmetic_fields() {
    assert_eq!(decode(word(OP_ADD, 1, 2, 3)), Instruction::Add { x: 1, y: 2, dest: 3 });
    assert_eq!(decode(word(OP_SUB, 15, 0, 7)), Instruction::Sub { x: 15, y: 0, dest: 7 });
    assert_eq!(decode(word(OP_MUL, 4, 5, 6)), Instruction::Mul { x: 4, y: 5, dest: 6 });
    assert_eq!(decode(word(OP_DIV, 8, 9, 10)), Instruction::Div { x: 8, y: 9, dest: 10 });
    let w = word(OP_ADD, 16, 2, 3);
    assert_eq!(decode(w), Instruction::Invalid { word: w });
    let w = word(OP_ADD, 1, 2, 16);
    assert_eq!(decode(w), Instruction::Invalid { word: w });
}

#[test]
fn decode_load_pair_is_symmetric() {
    let a = decode(word(OP_LOAD, 1, 3, 6));
    let b = decode(word(OP_LOAD, 3, 1, 6));
    assert_eq!(a, Instruction::Load { low: 1, high: 3, dest: 6 });
    assert_eq!(a, b);
    let dup = word(OP_LOAD, 2, 2, 6);
    assert_eq!(decode(dup), Instruction::Invalid { word: dup });
    let far = word(OP_LOAD, 0, 4, 6);
    assert_eq!(decode(far), Instruction::Invalid { word: far });
}

#[test]
fn decode_call_and_ret() {
    assert_eq!(decode(call_word(0x400)), Instruction::Call { target: 0x400 });
    assert_eq!(decode(ret_word()), Instruction::Ret);
}

#[test]
fn add_wraps_and_sets_overflow() {
    let r = add_words(0xFFFF_FFFF, 1);
    assert_eq!(r.value, 0);
    assert_eq!(r.delta.overflow, Some(true));
    assert_eq!(r.delta.carry, Some(true));
    assert_eq!(r.delta.zero, Some(true));
    let r = add_words(2, 3);
    assert_eq!(r.value, 5);
    assert_eq!(r.delta.overflow, Some(false));
    assert_eq!(add_words(0x8000_0000, 0x8000_0001), add_words(0x8000_0001, 0x8000_0000));
    assert_eq!(add_words(0x8000_0000, 0x8000_0001).value, 1);
}

#[test]
fn sub_saturates_and_sets_negative() {
    let r = sub_words(3, 5);
    assert_eq!(r.value, 0);
    assert_eq!(r.delta.negative, Some(true));
    let r = sub_words(5, 3);
    assert_eq!(r.value, 2);
    assert_eq!(r.delta.negative, Some(false));
    let r = sub_words(4, 4);
    assert_eq!(r.value, 0);
    assert_eq!(r.delta.negative, Some(false));
    assert_eq!(r.delta.zero, Some(true));
}

#[test]
fn mul_wraps_and_sets_overflow() {
    let r = mul_words(0x1_0000, 0x1_0000);
    assert_eq!(r.value, 0);
    assert_eq!(r.delta.overflow, Some(true));
    let r = mul_words(0xFFFF_FFFF, 2);
    assert_eq!(r.value, 0xFFFF_FFFE);
    assert_eq!(r.delta.overflow, Some(true));
    let r = mul_words(6, 7);
    assert_eq!(r.value, 42);
    assert_eq!(r.delta.overflow, Some(false));
}

#[test]
fn div_gives_quotient_and_remainder() {
    let r = div_words(17, 5).unwrap();
    assert_eq!(r.quotient, 3);
    assert_eq!(r.remainder, 2);
    assert_eq!(div_words(17, 0), Err(Fault::DivideByZero));
}

#[test]
fn apply_flags_sets_named_bits_only() {
    let delta = FlagsDelta { negative: None, zero: Some(false), carry: Some(true), overflow: Some(true) };
    assert_eq!(apply_flags(0x4000_00FF, delta), 0x3000_00FF);
    let delta = FlagsDelta { negative: Some(true), zero: None, carry: Some(false), overflow: None };
    assert_eq!(apply_flags(FLAG_CARRY | FLAG_ZERO, delta), FLAG_NEGATIVE | FLAG_ZERO);
}

#[test]
fn cpu_adds_writes_register_and_flags() {
    let mut cpu = CPU::new(0);
    cpu.registers.regs[1] = 0xFFFF_FFFF;
    cpu.registers.regs[2] = 2;
    cpu.adds(1, 2, 3);
    assert_eq!(cpu.registers.regs[3], 1);
    assert_eq!(cpu.flags, FLAG_OVERFLOW | FLAG_CARRY);
    cpu.subs(2, 1, 4);
    assert_eq!(cpu.registers.regs[4], 0);
    assert_eq!(cpu.flags, FLAG_OVERFLOW | FLAG_CARRY | FLAG_NEGATIVE | FLAG_ZERO);
    cpu.mul_(2, 2, 5);
    assert_eq!(cpu.registers.regs[5], 4);
    assert_eq!(cpu.flags, FLAG_CARRY | FLAG_NEGATIVE);
}

#[test]
fn divide_by_zero_leaves_state() {
    let mut cpu = CPU::new(0);
    cpu.registers.regs[1] = 9;
    cpu.registers.regs[3] = 77;
    cpu.flags = FLAG_CARRY;
    let before = cpu.registers;
    assert_eq!(cpu.div_(1, 2, 3), Err(Fault::DivideByZero));
    assert_eq!(cpu.registers, before);
    assert_eq!(cpu.flags, FLAG_CARRY);

    let mem = vec![word(OP_DIV, 1, 2, 3), 0];
    assert_eq!(cpu.step(&mem), Ok(Step::Skipped(Fault::DivideByZero)));
    assert_eq!(cpu.registers.regs, before.regs);
    assert_eq!(cpu.registers.pc, 4);
    assert_eq!(cpu.flags, FLAG_CARRY);
    assert_eq!(cpu.run(&mem, 10), RunOutcome::Halted);
}

#[test]
fn divide_stores_quotient() {
    let mut cpu = CPU::new(0);
    cpu.registers.regs[1] = 17;
    cpu.registers.regs[2] = 5;
    assert_eq!(cpu.div_(1, 2, 3), Ok(()));
    assert_eq!(cpu.registers.regs[3], 3);
    assert_eq!(cpu.flags, 0);
}

#[test]
fn push_then_pop_round_trip() {
    let mut s = Stack::new();
    s.push(0x10).unwrap();
    let len = s.length();
    s.push(0x204).unwrap();
    assert_eq!(s.top(), Ok(0x204));
    assert_eq!(s.pop(), Ok(0x204));
    assert_eq!(s.length(), len);
    assert_eq!(s.top(), Ok(0x10));
}

#[test]
fn length_after_pushes_and_pops() {
    let mut s = Stack::new();
    for i in 0..7u32 {
        s.push(i * 4).unwrap();
    }
    for _ in 0..3 {
        s.pop().unwrap();
    }
    assert_eq!(s.length(), 4);
    assert!(!s.is_empty());
    assert_eq!(s.top(), Ok(12));
}

#[test]
fn pop_empty_is_underflow() {
    let mut s = Stack::new();
    assert!(s.is_empty());
    assert_eq!(s.pop(), Err(Fault::StackUnderflow));
    assert_eq!(s.top(), Err(Fault::StackUnderflow));
    assert_eq!(s.length(), 0);
    s.push(8).unwrap();
    s.pop().unwrap();
    assert_eq!(s.pop(), Err(Fault::StackUnderflow));
}

#[test]
fn push_full_is_overflow() {
    let mut s = Stack::new();
    for i in 0..16u32 {
        assert_eq!(s.push(i), Ok(()));
    }
    assert_eq!(s.push(99), Err(Fault::StackOverflow));
    assert_eq!(s.length(), 16);
    assert_eq!(s.top(), Ok(15));
}

#[test]
fn zero_word_halts_immediately() {
    let mem = vec![0x0000_0000u32];
    let mut cpu = CPU::new(0);
    let before = cpu.registers;
    assert_eq!(cpu.read_instr(&mem), Ok(0));
    assert_eq!(decode(0), Instruction::Halt);
    assert_eq!(cpu.run(&mem, 100), RunOutcome::Halted);
    assert_eq!(cpu.registers.regs, before.regs);
    assert_eq!(cpu.registers.pc, 4);
    assert_eq!(cpu.flags, 0);
    assert!(cpu.stack.is_empty());
}

#[test]
fn halt_cycle_moves_only_pc() {
    let mem = vec![word(OP_ADD, 0, 0, 0), 0];
    let mut cpu = CPU::new(4);
    cpu.registers.regs[2] = 9;
    cpu.flags = FLAG_CARRY;
    let before = cpu.registers;
    assert_eq!(cpu.step(&mem), Ok(Step::Halted));
    assert_eq!(cpu.registers.pc, 8);
    assert_eq!(cpu.registers.regs, before.regs);
    assert_eq!(cpu.flags, FLAG_CARRY);
    assert!(cpu.stack.is_empty());
}

#[test]
fn call_then_return_restores_state() {
    let mut mem = vec![0u32; 0x101];
    mem[0x200 / 4] = call_word(0x400);
    mem[0x400 / 4] = ret_word();
    let mut cpu = CPU::new(0x200);
    cpu.registers.regs[7] = 5;
    let before = cpu.registers;
    assert_eq!(cpu.step(&mem), Ok(Step::Executed));
    assert_eq!(cpu.registers.pc, 0x400);
    assert_eq!(cpu.stack.top(), Ok(0x204));
    assert_eq!(cpu.stack.length(), 1);
    assert_eq!(cpu.step(&mem), Ok(Step::Executed));
    assert_eq!(cpu.registers.pc, 0x204);
    assert_eq!(cpu.stack.length(), 0);
    assert_eq!(cpu.registers.regs, before.regs);
}

#[test]
fn call_method_pushes_advanced_pc() {
    let mut cpu = CPU::new(0x204);
    assert_eq!(cpu.call(0x400), Ok(()));
    assert_eq!(cpu.registers.pc, 0x400);
    assert_eq!(cpu.stack.top(), Ok(0x204));
    assert_eq!(cpu.ret(), Ok(()));
    assert_eq!(cpu.registers.pc, 0x204);
    assert!(cpu.stack.is_empty());
    assert_eq!(cpu.ret(), Err(Fault::StackUnderflow));
    assert_eq!(cpu.registers.pc, 0x204);
}

#[test]
fn seventeenth_call_overflows() {
    let mut mem = vec![0u32; 17];
    for i in 0..17u32 {
        mem[i as usize] = call_word((i + 1) * 4);
    }
    let mut cpu = CPU::new(0);
    for _ in 0..16 {
        assert_eq!(cpu.step(&mem), Ok(Step::Executed));
    }
    assert_eq!(cpu.stack.length(), 16);
    assert_eq!(cpu.registers.pc, 64);
    let before = cpu.registers;
    assert_eq!(cpu.step(&mem), Err(Fault::StackOverflow));
    assert_eq!(cpu.registers, before);
    assert_eq!(cpu.stack.length(), 16);
    assert_eq!(cpu.stack.top(), Ok(64));
    assert_eq!(cpu.call(0x400), Err(Fault::StackOverflow));
    assert_eq!(cpu.registers.pc, 64);
}

#[test]
fn run_reports_fatal_faults() {
    let mem = vec![ret_word()];
    let mut cpu = CPU::new(0);
    assert_eq!(cpu.run(&mem, 10), RunOutcome::Faulted(Fault::StackUnderflow));
    assert_eq!(cpu.registers.pc, 0);
    let mem = vec![word(OP_ADD, 0, 0, 1)];
    let mut cpu = CPU::new(0);
    assert_eq!(cpu.run(&mem, 10), RunOutcome::Faulted(Fault::OutOfBounds));
    assert_eq!(cpu.registers.pc, 4);
    assert_eq!(cpu.read_instr(&mem), Err(Fault::OutOfBounds));
}

#[test]
fn invalid_instruction_is_skipped() {
    let mem = vec![0xFFFF_FFFFu32, word(OP_ADD, 0, 0, 1), 0];
    let mut cpu = CPU::new(0);
    assert_eq!(cpu.step(&mem), Ok(Step::Skipped(Fault::InvalidInstruction)));
    assert_eq!(cpu.registers.pc, 4);
    assert_eq!(cpu.run(&mem, 10), RunOutcome::Halted);
    assert_eq!(cpu.registers.pc, 12);
    assert_eq!(cpu.flags, FLAG_ZERO);
}

#[test]
fn load_pair_reads_memory() {
    let mem: Vec<u32> = (0..16u32).map(|i| 100 + i).collect();
    let mut cpu = CPU::new(0x20);
    let mut prog = mem.clone();
    prog[8] = word(OP_LOAD, 3, 1, 5);
    assert_eq!(cpu.step(&prog), Ok(Step::Executed));
    assert_eq!(cpu.registers.regs[1], 101);
    assert_eq!(cpu.registers.regs[3], 103);
    assert_eq!(cpu.registers.regs[5], 105);
    assert_eq!(cpu.registers.regs[0], 0);
    assert_eq!(cpu.load(&mem, 0, 2, 9), Ok(()));
    assert_eq!(cpu.registers.regs[0], 100);
    assert_eq!(cpu.registers.regs[2], 102);
    assert_eq!(cpu.registers.regs[9], 109);
}

#[test]
fn load_method_ignores_pair_order() {
    let mem: Vec<u32> = (0..16u32).map(|i| 200 + i).collect();
    let mut a = CPU::new(0);
    let mut b = CPU::new(0);
    assert_eq!(a.load(&mem, 3, 0, 7), Ok(()));
    assert_eq!(b.load(&mem, 0, 3, 7), Ok(()));
    assert_eq!(a.registers, b.registers);
    assert_eq!(a.registers.regs[0], 200);
    assert_eq!(a.registers.regs[3], 203);
    assert_eq!(a.registers.regs[7], 207);
}

#[test]
fn load_method_rejects_duplicate_pair() {
    let mem: Vec<u32> = (0..16u32).map(|i| 200 + i).collect();
    let mut cpu = CPU::new(0);
    let before = cpu.registers;
    assert_eq!(cpu.load(&mem, 2, 2, 7), Err(Fault::InvalidInstruction));
    assert_eq!(cpu.registers, before);
    let short = vec![1u32, 2];
    assert_eq!(cpu.load(&short, 1, 0, 5), Err(Fault::OutOfBounds));
    assert_eq!(cpu.registers, before);
}

#[test]
fn load_out_of_bounds_is_fatal() {
    let mem = vec![word(OP_LOAD, 0, 1, 9), 0, 0];
    let mut cpu = CPU::new(0);
    assert_eq!(cpu.step(&mem), Err(Fault::OutOfBounds));
    assert_eq!(cpu.registers.pc, 0);
    assert_eq!(cpu.registers.regs, [0u32; 16]);
}

#[test]
fn run_stops_at_cycle_limit() {
    let mem = vec![call_word(0), ret_word()];
    let mut cpu = CPU::new(4);
    assert_eq!(cpu.run(&mem, 0), RunOutcome::CycleLimit);
    assert_eq!(cpu.registers.pc, 4);
    let mem = vec![word(OP_ADD, 0, 0, 0); 4];
    let mut cpu = CPU::new(0);
    assert_eq!(cpu.run(&mem, 3), RunOutcome::CycleLimit);
    assert_eq!(cpu.registers.pc, 12);
}
