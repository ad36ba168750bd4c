use vstd::prelude::*;
use crate::alu::{apply_spec, spec_add, spec_div, spec_mul, spec_sub, AluResult, FlagsDelta};
use crate::decoder::{decode_spec, Instruction};
use crate::fault::Fault;
use crate::stack::STACK_CAPACITY;

verus! {

/// The architectural state as values: registers, program counter, flags
/// register and call stack (bottom first).
pub struct MachineState {
    pub regs: Seq<u32>,
    pub pc: u32,
    pub flags: u32,
    pub stack: Seq<u32>,
}

/// What one cycle did, when it did not end the run with a fault.
#[derive(Clone, Copy, Debug, PartialEq, Eq, Structural)]
pub enum Step {
    /// An instruction took effect.
    Executed,
    /// The halt instruction was reached; only the program counter moved on.
    Halted,
    /// A recoverable condition aborted the instruction; only the program
    /// counter moved on.
    Skipped(Fault),
}

/// How a run ended.
#[derive(Clone, Copy, Debug, PartialEq, Eq, Structural)]
pub enum RunOutcome {
    Halted,
    /// The cycle budget ran out first.
    CycleLimit,
    Faulted(Fault),
}

/// The program counter of the next word: four bytes on, wrapping at 2^32.
pub open spec fn advance(pc: u32) -> u32 {
    ((pc + 4) % 0x1_0000_0000) as u32
}

impl MachineState {
    pub open spec fn with_pc(self, pc: u32) -> MachineState {
        MachineState { regs: self.regs, pc, flags: self.flags, stack: self.stack }
    }

    /// Register `dest` takes the result, the flags take its delta.
    pub open spec fn with_result(self, dest: u8, value: u32, delta: FlagsDelta) -> MachineState {
        MachineState {
            regs: self.regs.update(dest as int, value),
            pc: self.pc,
            flags: apply_spec(self.flags, delta),
            stack: self.stack,
        }
    }

    pub open spec fn with_alu(self, dest: u8, r: AluResult) -> MachineState {
        self.with_result(dest, r.value, r.delta)
    }

    /// The program counter and every return address are word-aligned.
    pub open spec fn aligned(self) -> bool {
        &&& self.pc % 4 == 0
        &&& forall|i: int| 0 <= i < self.stack.len() ==> #[trigger] self.stack[i] % 4 == 0
    }
}

pub open spec fn add_state(s: MachineState, x: u8, y: u8, dest: u8) -> MachineState {
    s.with_alu(dest, spec_add(s.regs[x as int], s.regs[y as int]))
}

pub open spec fn sub_state(s: MachineState, x: u8, y: u8, dest: u8) -> MachineState {
    s.with_alu(dest, spec_sub(s.regs[x as int], s.regs[y as int]))
}

pub open spec fn mul_state(s: MachineState, x: u8, y: u8, dest: u8) -> MachineState {
    s.with_alu(dest, spec_mul(s.regs[x as int], s.regs[y as int]))
}

/// Division stores the quotient in `dest`; the remainder is discarded.
pub open spec fn div_state(s: MachineState, x: u8, y: u8, dest: u8) -> Result<MachineState, Fault> {
    match spec_div(s.regs[x as int], s.regs[y as int]) {
        Ok(q) => Ok(s.with_result(dest, q.quotient, q.delta)),
        Err(e) => Err(e),
    }
}

/// Registers `first`, `second` and `dest` take the memory cells of the same
/// numbers; `InvalidInstruction` when the pair names one register twice,
/// `OutOfBounds` when one of the cells lies outside memory.
pub open spec fn load_state(s: MachineState, mem: Seq<u32>, first: u8, second: u8, dest: u8) -> Result<
    MachineState,
    Fault,
> {
    if first == second {
        Err(Fault::InvalidInstruction)
    } else if first < mem.len() && second < mem.len() && dest < mem.len() {
        Ok(
            MachineState {
                regs: s.regs.update(first as int, mem[first as int]).update(
                    second as int,
                    mem[second as int],
                ).update(dest as int, mem[dest as int]),
                pc: s.pc,
                flags: s.flags,
                stack: s.stack,
            },
        )
    } else {
        Err(Fault::OutOfBounds)
    }
}

/// The program counter is pushed and `target` becomes the program counter;
/// `StackOverflow` when the stack is full.
pub open spec fn call_state(s: MachineState, target: u32) -> Result<MachineState, Fault> {
    if s.stack.len() < STACK_CAPACITY {
        Ok(MachineState { regs: s.regs, pc: target, flags: s.flags, stack: s.stack.push(s.pc) })
    } else {
        Err(Fault::StackOverflow)
    }
}

/// The top return address is popped into the program counter;
/// `StackUnderflow` when the stack is empty.
pub open spec fn ret_state(s: MachineState) -> Result<MachineState, Fault> {
    if s.stack.len() > 0 {
        Ok(MachineState { regs: s.regs, pc: s.stack.last(), flags: s.flags, stack: s.stack.drop_last() })
    } else {
        Err(Fault::StackUnderflow)
    }
}

/// The effect of one decoded instruction on a state whose program counter
/// has already moved past it.
pub open spec fn execute_spec(s: MachineState, i: Instruction, mem: Seq<u32>) -> Result<MachineState, Fault> {
    match i {
        Instruction::Halt => Ok(s),
        Instruction::Load { low, high, dest } => load_state(s, mem, low, high, dest),
        Instruction::Add { x, y, dest } => Ok(add_state(s, x, y, dest)),
        Instruction::Sub { x, y, dest } => Ok(sub_state(s, x, y, dest)),
        Instruction::Mul { x, y, dest } => Ok(mul_state(s, x, y, dest)),
        Instruction::Div { x, y, dest } => div_state(s, x, y, dest),
        Instruction::Call { target } => call_state(s, target),
        Instruction::Ret => ret_state(s),
        Instruction::Invalid { .. } => Err(Fault::InvalidInstruction),
    }
}

/// The word at the program counter; `OutOfBounds` past the end of memory.
pub open spec fn fetch_spec(s: MachineState, mem: Seq<u32>) -> Result<u32, Fault> {
    if s.pc / 4 < mem.len() {
        Ok(mem[(s.pc / 4) as int])
    } else {
        Err(Fault::OutOfBounds)
    }
}

/// One fetch-advance-execute cycle. The program counter moves on before the
/// instruction is dispatched, so a halt or a recoverable fault changes
/// nothing else; a fatal fault leaves the state as it was before the fetch.
pub open spec fn step_spec(s: MachineState, mem: Seq<u32>) -> (MachineState, Result<Step, Fault>) {
    match fetch_spec(s, mem) {
        Err(e) => (s, Err(e)),
        Ok(w) => {
            let i = decode_spec(w);
            if i is Halt {
                (s.with_pc(advance(s.pc)), Ok(Step::Halted))
            } else {
                let next = s.with_pc(advance(s.pc));
                match execute_spec(next, i, mem) {
                    Ok(n) => (n, Ok(Step::Executed)),
                    Err(f) => if f.spec_is_fatal() {
                        (s, Err(f))
                    } else {
                        (next, Ok(Step::Skipped(f)))
                    },
                }
            }
        },
    }
}

/// Cycles until a halt, a fatal fault, or `fuel` cycles have run.
pub open spec fn run_spec(s: MachineState, mem: Seq<u32>, fuel: nat) -> (MachineState, RunOutcome)
    decreases fuel,
{
    if fuel == 0 {
        (s, RunOutcome::CycleLimit)
    } else {
        let (n, r) = step_spec(s, mem);
        match r {
            Err(f) => (n, RunOutcome::Faulted(f)),
            Ok(Step::Halted) => (n, RunOutcome::Halted),
            Ok(_) => run_spec(n, mem, (fuel - 1) as nat),
        }
    }
}

} // verus!
