use vstd::prelude::*;

verus! {

// Instruction word layout:
//   bits 31..22  opcode
//   bits 21..10  operand x
//   bits  9..5   operand y
//   bits  4..0   operand d
// A call takes bits 21..0 together as a word index into memory.

pub const OPCODE_SHIFT: u32 = 22;
pub const X_SHIFT: u32 = 10;
pub const X_MASK: u32 = 0xFFF;
pub const Y_SHIFT: u32 = 5;
pub const Y_MASK: u32 = 0x1F;
pub const D_MASK: u32 = 0x1F;
pub const TARGET_MASK: u32 = 0x003F_FFFF;

pub const OP_HALT: u32 = 0x000;
pub const OP_LOAD: u32 = 0x008;
pub const OP_ADD: u32 = 0x010;
pub const OP_SUB: u32 = 0x011;
pub const OP_MUL: u32 = 0x012;
pub const OP_DIV: u32 = 0x013;
pub const OP_CALL: u32 = 0x020;
pub const OP_RET: u32 = 0x021;

/// Number of general-purpose registers.
pub const NUM_REGISTERS: u32 = 16;

/// Registers that a load may name as its pair: r0 to r3.
pub const LOAD_PAIR_LIMIT: u32 = 4;

/// A decoded instruction. Register indices are below `NUM_REGISTERS`.
#[derive(Clone, Copy, Debug, PartialEq, Eq, Structural)]
pub enum Instruction {
    /// The all-zero word: stop cleanly.
    Halt,
    /// Load memory cells `low`, `high` and `dest` into the registers of the
    /// same numbers; `low < high < LOAD_PAIR_LIMIT`.
    Load { low: u8, high: u8, dest: u8 },
    Add { x: u8, y: u8, dest: u8 },
    Sub { x: u8, y: u8, dest: u8 },
    Mul { x: u8, y: u8, dest: u8 },
    Div { x: u8, y: u8, dest: u8 },
    /// Push the return address and jump to the byte address `target`.
    Call { target: u32 },
    /// Pop the return address and jump to it.
    Ret,
    /// A word that names no instruction.
    Invalid { word: u32 },
}

pub open spec fn opcode_of(w: u32) -> u32 {
    w >> OPCODE_SHIFT
}

pub open spec fn x_of(w: u32) -> u32 {
    (w >> X_SHIFT) & X_MASK
}

pub open spec fn y_of(w: u32) -> u32 {
    (w >> Y_SHIFT) & Y_MASK
}

pub open spec fn d_of(w: u32) -> u32 {
    w & D_MASK
}

pub open spec fn target_of(w: u32) -> u32 {
    w & TARGET_MASK
}

/// The arithmetic instruction of opcode `op` on the word's fields, when all
/// three name registers.
pub open spec fn arith_spec(op: u32, w: u32) -> Instruction {
    let (x, y, d) = (x_of(w), y_of(w), d_of(w));
    if x < NUM_REGISTERS && y < NUM_REGISTERS && d < NUM_REGISTERS {
        let (x, y, dest) = (x as u8, y as u8, d as u8);
        if op == OP_ADD {
            Instruction::Add { x, y, dest }
        } else if op == OP_SUB {
            Instruction::Sub { x, y, dest }
        } else if op == OP_MUL {
            Instruction::Mul { x, y, dest }
        } else {
            Instruction::Div { x, y, dest }
        }
    } else {
        Instruction::Invalid { word: w }
    }
}

/// The meaning of every 32-bit word.
pub open spec fn decode_spec(w: u32) -> Instruction {
    let op = opcode_of(w);
    if w == 0 {
        Instruction::Halt
    } else if op == OP_LOAD {
        let (x, y, d) = (x_of(w), y_of(w), d_of(w));
        if x < LOAD_PAIR_LIMIT && y < LOAD_PAIR_LIMIT && x != y && d < NUM_REGISTERS {
            if x < y {
                Instruction::Load { low: x as u8, high: y as u8, dest: d as u8 }
            } else {
                Instruction::Load { low: y as u8, high: x as u8, dest: d as u8 }
            }
        } else {
            Instruction::Invalid { word: w }
        }
    } else if op == OP_ADD || op == OP_SUB || op == OP_MUL || op == OP_DIV {
        arith_spec(op, w)
    } else if op == OP_CALL {
        Instruction::Call { target: (target_of(w) * 4) as u32 }
    } else if op == OP_RET && target_of(w) == 0 {
        Instruction::Ret
    } else {
        Instruction::Invalid { word: w }
    }
}

/// Whether a decoded instruction is well formed: indices in range, a load
/// pair ordered, a call target word-aligned.
pub open spec fn well_formed(i: Instruction) -> bool {
    match i {
        Instruction::Load { low, high, dest } => low < high && (high as u32) < LOAD_PAIR_LIMIT
            && (dest as u32) < NUM_REGISTERS,
        Instruction::Add { x, y, dest } | Instruction::Sub { x, y, dest } | Instruction::Mul {
            x,
            y,
            dest,
        } | Instruction::Div { x, y, dest } => (x as u32) < NUM_REGISTERS && (y as u32)
            < NUM_REGISTERS && (dest as u32) < NUM_REGISTERS,
        Instruction::Call { target } => target % 4 == 0,
        _ => true,
    }
}

pub proof fn lemma_target_bound(w: u32)
    ensures
        w & TARGET_MASK <= 0x003F_FFFF,
{
    assert(w & 0x003F_FFFFu32 <= 0x003F_FFFFu32) by (bit_vector);
}

/// Every decoded word is well formed.
pub proof fn lemma_decode_well_formed(w: u32)
    ensures
        well_formed(decode_spec(w)),
{
    lemma_target_bound(w);
}

/// A load names the same pair whichever order its two source fields give.
pub proof fn lemma_load_symmetric(w1: u32, w2: u32)
    requires
        opcode_of(w1) == OP_LOAD,
        opcode_of(w2) == OP_LOAD,
        x_of(w1) == y_of(w2),
        y_of(w1) == x_of(w2),
        d_of(w1) == d_of(w2),
    ensures
        decode_spec(w1) is Load <==> decode_spec(w2) is Load,
        decode_spec(w1) is Load ==> decode_spec(w1) == decode_spec(w2),
{
    assert(w1 >> 22u32 == 8u32 ==> w1 != 0) by (bit_vector);
    assert(w2 >> 22u32 == 8u32 ==> w2 != 0) by (bit_vector);
}

/// Splits a word into its instruction; total over all 32-bit words, with
/// `Invalid` for every word outside the instruction set.
pub fn decode(word: u32) -> (r: Instruction)
    ensures
        r == decode_spec(word),
        well_formed(r),
        r is Invalid ==> r == (Instruction::Invalid { word }),
{
    let op = word >> OPCODE_SHIFT;
    let x = (word >> X_SHIFT) & X_MASK;
    let y = (word >> Y_SHIFT) & Y_MASK;
    let d = word & D_MASK;
    if word == 0 {
        Instruction::Halt
    } else if op == OP_LOAD {
        if x < LOAD_PAIR_LIMIT && y < LOAD_PAIR_LIMIT && x != y && d < NUM_REGISTERS {
            if x < y {
                Instruction::Load { low: x as u8, high: y as u8, dest: d as u8 }
            } else {
                Instruction::Load { low: y as u8, high: x as u8, dest: d as u8 }
            }
        } else {
            Instruction::Invalid { word }
        }
    } else if op == OP_ADD || op == OP_SUB || op == OP_MUL || op == OP_DIV {
        if x < NUM_REGISTERS && y < NUM_REGISTERS && d < NUM_REGISTERS {
            let (x, y, dest) = (x as u8, y as u8, d as u8);
            if op == OP_ADD {
                Instruction::Add { x, y, dest }
            } else if op == OP_SUB {
                Instruction::Sub { x, y, dest }
            } else if op == OP_MUL {
                Instruction::Mul { x, y, dest }
            } else {
                Instruction::Div { x, y, dest }
            }
        } else {
            Instruction::Invalid { word }
        }
    } else if op == OP_CALL {
        proof {
            lemma_target_bound(word);
        }
        Instruction::Call { target: (word & TARGET_MASK) * 4 }
    } else if op == OP_RET && word & TARGET_MASK == 0 {
        Instruction::Ret
    } else {
        Instruction::Invalid { word }
    }
}

} // verus!
