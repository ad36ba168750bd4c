use vstd::prelude::*;
use crate::alu::{add_words, apply_flags, div_words, mul_words, sub_words};
use crate::decoder::{decode, well_formed, Instruction, LOAD_PAIR_LIMIT, NUM_REGISTERS};
use crate::fault::Fault;
use crate::laws::lemma_step_keeps_alignment;
use crate::machine::{
    add_state, call_state, div_state, execute_spec, fetch_spec, load_state, mul_state,
    ret_state, run_spec, step_spec, sub_state, MachineState, RunOutcome, Step,
};
use crate::stack::Stack;

verus! {

/// Sixteen general-purpose registers and the program counter.
#[derive(Clone, Copy, Debug, PartialEq, Eq)]
pub struct RegisterFile {
    pub regs: [u32; 16],
    pub pc: u32,
}

/// The architectural state: registers, flags register and call stack.
/// Memory is not held; each operation that needs it borrows it.
#[derive(Clone, Copy, Debug)]
pub struct CPU {
    pub registers: RegisterFile,
    pub flags: u32,
    pub stack: Stack,
}

impl View for CPU {
    type V = MachineState;

    open spec fn view(&self) -> MachineState {
        MachineState {
            regs: self.registers.regs@,
            pc: self.registers.pc,
            flags: self.flags,
            stack: self.stack@,
        }
    }
}

/// An operation that may fail ended as `expected` says: on success in the
/// state it gives, on failure with its fault and nothing changed.
pub open spec fn settles(
    before: MachineState,
    after: MachineState,
    r: Result<(), Fault>,
    expected: Result<MachineState, Fault>,
) -> bool {
    match expected {
        Ok(n) => r is Ok && after == n,
        Err(e) => r == Err::<(), Fault>(e) && after == before,
    }
}

pub open spec fn is_register(i: u8) -> bool {
    (i as u32) < NUM_REGISTERS
}

impl CPU {
    pub open spec fn wf(&self) -> bool {
        self.stack.wf()
    }

    /// The reset state: registers and flags zero, stack empty, program
    /// counter at the word-aligned `entry`.
    pub fn new(entry: u32) -> (c: CPU)
        requires
            entry % 4 == 0,
        ensures
            c.wf(),
            c@.aligned(),
            c@.regs == Seq::new(NUM_REGISTERS as nat, |i: int| 0u32),
            c@.pc == entry,
            c@.flags == 0,
            c@.stack == Seq::<u32>::empty(),
    {
        let c = CPU {
            registers: RegisterFile { regs: [0u32; 16], pc: entry },
            flags: 0,
            stack: Stack::new(),
        };
        assert(c@.regs =~= Seq::new(NUM_REGISTERS as nat, |i: int| 0u32));
        c
    }

    /// The instruction word at the program counter.
    pub fn read_instr(&self, mem: &[u32]) -> (r: Result<u32, Fault>)
        ensures
            r == fetch_spec(self@, mem@),
    {
        let index = (self.registers.pc / 4) as usize;
        if index < mem.len() {
            Ok(mem[index])
        } else {
            Err(Fault::OutOfBounds)
        }
    }

    /// `dest` takes the wrapping sum of `x` and `y`; flags as addition
    /// defines them.
    pub fn adds(&mut self, x: u8, y: u8, dest: u8)
        requires
            old(self).wf(),
            is_register(x),
            is_register(y),
            is_register(dest),
        ensures
            final(self).wf(),
            final(self)@ == add_state(old(self)@, x, y, dest),
    {
        let r = add_words(self.registers.regs[x as usize], self.registers.regs[y as usize]);
        self.registers.regs[dest as usize] = r.value;
        self.flags = apply_flags(self.flags, r.delta);
    }

    /// `dest` takes `x - y` saturated at zero; the negative flag records
    /// whether `x` was below `y`.
    pub fn subs(&mut self, x: u8, y: u8, dest: u8)
        requires
            old(self).wf(),
            is_register(x),
            is_register(y),
            is_register(dest),
        ensures
            final(self).wf(),
            final(self)@ == sub_state(old(self)@, x, y, dest),
    {
        let r = sub_words(self.registers.regs[x as usize], self.registers.regs[y as usize]);
        self.registers.regs[dest as usize] = r.value;
        self.flags = apply_flags(self.flags, r.delta);
    }

    /// `dest` takes the wrapping product of `x` and `y`.
    pub fn mul_(&mut self, x: u8, y: u8, dest: u8)
        requires
            old(self).wf(),
            is_register(x),
            is_register(y),
            is_register(dest),
        ensures
            final(self).wf(),
            final(self)@ == mul_state(old(self)@, x, y, dest),
    {
        let r = mul_words(self.registers.regs[x as usize], self.registers.regs[y as usize]);
        self.registers.regs[dest as usize] = r.value;
        self.flags = apply_flags(self.flags, r.delta);
    }

    /// `dest` takes the quotient of `x` by `y`; `DivideByZero`, with nothing
    /// changed, when `y` holds zero.
    pub fn div_(&mut self, x: u8, y: u8, dest: u8) -> (r: Result<(), Fault>)
        requires
            old(self).wf(),
            is_register(x),
            is_register(y),
            is_register(dest),
        ensures
            final(self).wf(),
            settles(old(self)@, final(self)@, r, div_state(old(self)@, x, y, dest)),
    {
        match div_words(self.registers.regs[x as usize], self.registers.regs[y as usize]) {
            Ok(q) => {
                self.registers.regs[dest as usize] = q.quotient;
                self.flags = apply_flags(self.flags, q.delta);
                Ok(())
            },
            Err(e) => Err(e),
        }
    }

    /// Registers `first`, `second` and `dest` take the memory cells of the
    /// same numbers; the order of the pair does not matter. With nothing
    /// changed: `InvalidInstruction` when the pair names one register twice,
    /// `OutOfBounds` when a cell is missing.
    pub fn load(&mut self, mem: &[u32], first: u8, second: u8, dest: u8) -> (r: Result<(), Fault>)
        requires
            old(self).wf(),
            (first as u32) < LOAD_PAIR_LIMIT,
            (second as u32) < LOAD_PAIR_LIMIT,
            is_register(dest),
        ensures
            final(self).wf(),
            settles(old(self)@, final(self)@, r, load_state(old(self)@, mem@, first, second, dest)),
    {
        if first == second {
            return Err(Fault::InvalidInstruction);
        }
        let ghost before = self@.regs;
        let (low, high) = if first < second {
            (first, second)
        } else {
            (second, first)
        };
        if (high as usize) < mem.len() && (dest as usize) < mem.len() {
            self.registers.regs[low as usize] = mem[low as usize];
            self.registers.regs[high as usize] = mem[high as usize];
            self.registers.regs[dest as usize] = mem[dest as usize];
            assert(self@.regs =~= before.update(first as int, mem@[first as int]).update(
                second as int,
                mem@[second as int],
            ).update(dest as int, mem@[dest as int]));
            Ok(())
        } else {
            Err(Fault::OutOfBounds)
        }
    }

    /// Pushes the program counter and jumps to `target`; `StackOverflow`,
    /// with nothing changed, when the stack is full.
    pub fn call(&mut self, target: u32) -> (r: Result<(), Fault>)
        requires
            old(self).wf(),
        ensures
            final(self).wf(),
            settles(old(self)@, final(self)@, r, call_state(old(self)@, target)),
    {
        proof {
            self.stack.lemma_wf_bounded();
        }
        match self.stack.push(self.registers.pc) {
            Ok(()) => {
                self.registers.pc = target;
                Ok(())
            },
            Err(e) => Err(e),
        }
    }

    /// Pops the return address into the program counter; `StackUnderflow`,
    /// with nothing changed, when the stack is empty.
    pub fn ret(&mut self) -> (r: Result<(), Fault>)
        requires
            old(self).wf(),
        ensures
            final(self).wf(),
            settles(old(self)@, final(self)@, r, ret_state(old(self)@)),
    {
        match self.stack.pop() {
            Ok(addr) => {
                self.registers.pc = addr;
                Ok(())
            },
            Err(e) => Err(e),
        }
    }

    /// Carries out one decoded instruction.
    pub fn execute(&mut self, instr: Instruction, mem: &[u32]) -> (r: Result<(), Fault>)
        requires
            old(self).wf(),
            well_formed(instr),
        ensures
            final(self).wf(),
            settles(old(self)@, final(self)@, r, execute_spec(old(self)@, instr, mem@)),
    {
        match instr {
            Instruction::Halt => Ok(()),
            Instruction::Load { low, high, dest } => self.load(mem, low, high, dest),
            Instruction::Add { x, y, dest } => {
                self.adds(x, y, dest);
                Ok(())
            },
            Instruction::Sub { x, y, dest } => {
                self.subs(x, y, dest);
                Ok(())
            },
            Instruction::Mul { x, y, dest } => {
                self.mul_(x, y, dest);
                Ok(())
            },
            Instruction::Div { x, y, dest } => self.div_(x, y, dest),
            Instruction::Call { target } => self.call(target),
            Instruction::Ret => self.ret(),
            Instruction::Invalid { .. } => Err(Fault::InvalidInstruction),
        }
    }

    /// One cycle: fetch the word at the program counter, move the counter
    /// on, decode and execute. A halt or a recoverable fault changes nothing
    /// but the program counter; a fatal fault leaves the state as it was.
    ///
    /// A host that must honour a stop request drives the machine by calling
    /// `step` in its own loop and checking the request between calls; each
    /// call completes one whole cycle, so no instruction is left half-applied.
    pub fn step(&mut self, mem: &[u32]) -> (r: Result<Step, Fault>)
        requires
            old(self).wf(),
        ensures
            final(self).wf(),
            (final(self)@, r) == step_spec(old(self)@, mem@),
            old(self)@.aligned() ==> final(self)@.aligned(),
    {
        proof {
            if old(self)@.aligned() {
                lemma_step_keeps_alignment(old(self)@, mem@);
            }
        }
        let word = match self.read_instr(mem) {
            Ok(w) => w,
            Err(e) => return Err(e),
        };
        let instr = decode(word);
        let pc = self.registers.pc;
        self.registers.pc = ((pc as u64 + 4) % 0x1_0000_0000u64) as u32;
        if let Instruction::Halt = instr {
            return Ok(Step::Halted);
        }
        match self.execute(instr, mem) {
            Ok(()) => Ok(Step::Executed),
            Err(f) => {
                if f.is_fatal() {
                    self.registers.pc = pc;
                    Err(f)
                } else {
                    Ok(Step::Skipped(f))
                }
            },
        }
    }

    /// Cycles until a halt, a fatal fault, or `max_cycles` cycles. A host
    /// that must also stop on an outside request calls `step` instead.
    pub fn run(&mut self, mem: &[u32], max_cycles: u64) -> (r: RunOutcome)
        requires
            old(self).wf(),
        ensures
            final(self).wf(),
            (final(self)@, r) == run_spec(old(self)@, mem@, max_cycles as nat),
    {
        let ghost start = self@;
        let mut remaining: u64 = max_cycles;
        loop
            invariant
                self.wf(),
                start == old(self)@,
                run_spec(self@, mem@, remaining as nat) == run_spec(start, mem@, max_cycles as nat),
            decreases remaining,
        {
            if remaining == 0 {
                return RunOutcome::CycleLimit;
            }
            match self.step(mem) {
                Err(f) => return RunOutcome::Faulted(f),
                Ok(Step::Halted) => return RunOutcome::Halted,
                Ok(_) => {},
            }
            remaining = remaining - 1;
        }
    }
}

} // verus!
