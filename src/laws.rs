//! Properties of the instruction set that hold for all inputs.
use vstd::prelude::*;
use crate::alu::{
    apply_spec, flag_set, lemma_apply_meaning, spec_add, spec_div, spec_sub, FLAG_NEGATIVE,
    FLAG_OVERFLOW,
};
use crate::decoder::{decode_spec, lemma_decode_well_formed, lemma_target_bound, well_formed, Instruction,
    LOAD_PAIR_LIMIT, NUM_REGISTERS};
use crate::fault::Fault;
use crate::stack::{pop_count, push_count, replay, stack_op, STACK_CAPACITY};
use crate::machine::{
    add_state, advance, call_state, div_state, fetch_spec, load_state, ret_state, step_spec,
    MachineState, Step,
};

verus! {

/// Addition is commutative, wraps modulo 2^32, and leaves the overflow flag
/// set exactly when the true sum exceeds 32 bits, whatever the flags were.
pub proof fn lemma_add_wraps(a: u32, b: u32, flags: u32)
    ensures
        spec_add(a, b) == spec_add(b, a),
        spec_add(a, b).value == (a + b) % 0x1_0000_0000,
        flag_set(apply_spec(flags, spec_add(a, b).delta), FLAG_OVERFLOW) == (a + b > u32::MAX),
{
    lemma_apply_meaning(flags, spec_add(a, b).delta);
}

/// The machine's add instruction gives the same state with its two source
/// registers exchanged.
pub proof fn lemma_add_state_commutes(s: MachineState, x: u8, y: u8, dest: u8)
    ensures
        add_state(s, x, y, dest) == add_state(s, y, x, dest),
{
    lemma_add_wraps(s.regs[x as int], s.regs[y as int], s.flags);
}

/// Subtraction gives `a - b` when `b <= a` and zero otherwise; the negative
/// flag afterwards records `a < b` even though the result saturated.
pub proof fn lemma_sub_saturates(a: u32, b: u32, flags: u32)
    ensures
        spec_sub(a, b).value == (if a < b { 0 } else { a - b }),
        flag_set(apply_spec(flags, spec_sub(a, b).delta), FLAG_NEGATIVE) == (a < b),
{
    lemma_apply_meaning(flags, spec_sub(a, b).delta);
}

/// A division whose divisor register holds zero fails with `DivideByZero`;
/// a cycle that executes it only moves the program counter on, leaving the
/// destination register and the flags as they were.
pub proof fn lemma_divide_by_zero(s: MachineState, mem: Seq<u32>)
    requires
        s.pc / 4 < mem.len(),
        decode_spec(mem[(s.pc / 4) as int]) is Div,
        s.regs[decode_spec(mem[(s.pc / 4) as int])->Div_y as int] == 0,
    ensures
        div_state(
            s,
            decode_spec(mem[(s.pc / 4) as int])->Div_x,
            decode_spec(mem[(s.pc / 4) as int])->Div_y,
            decode_spec(mem[(s.pc / 4) as int])->Div_dest,
        ) == Err::<MachineState, Fault>(Fault::DivideByZero),
        step_spec(s, mem) == (s.with_pc(advance(s.pc)), Ok::<Step, Fault>(
            Step::Skipped(Fault::DivideByZero),
        )),
        step_spec(s, mem).0.regs == s.regs,
        step_spec(s, mem).0.flags == s.flags,
{
    assert(spec_div(s.regs[decode_spec(mem[(s.pc / 4) as int])->Div_x as int], 0) == Err::<
        crate::alu::DivResult,
        Fault,
    >(Fault::DivideByZero));
}

/// A call followed by a return restores the state the call started from,
/// as long as the stack had room.
pub proof fn lemma_call_then_return(s: MachineState, target: u32)
    requires
        s.stack.len() < crate::stack::STACK_CAPACITY,
    ensures
        call_state(s, target) is Ok,
        ret_state(call_state(s, target)->Ok_0) == Ok::<MachineState, Fault>(s),
        call_state(s, target)->Ok_0.stack.last() == s.pc,
{
    let n = call_state(s, target)->Ok_0;
    assert(n.stack.drop_last() =~= s.stack);
}

/// A push followed at once by a pop gives back the pushed address and
/// leaves the stack as it was, length included.
pub proof fn lemma_push_pop_round_trip(s: Seq<u32>, addr: u32)
    requires
        s.len() < STACK_CAPACITY,
    ensures
        stack_op(s, Some(addr)).len() > 0,
        stack_op(s, Some(addr)).last() == addr,
        stack_op(stack_op(s, Some(addr)), None) == s,
        stack_op(stack_op(s, Some(addr)), None).len() == s.len(),
{
    assert(s.push(addr).drop_last() =~= s);
}

/// Starting from an empty stack, any sequence of N pushes and M pops that
/// never pops an empty stack and never pushes past capacity leaves N - M
/// addresses.
pub proof fn lemma_length_counts(ops: Seq<Option<u32>>)
    requires
        push_count(ops) <= STACK_CAPACITY,
        forall|k: int|
            0 <= k <= ops.len() ==> pop_count(#[trigger] ops.take(k)) <= push_count(ops.take(k)),
    ensures
        pop_count(ops) <= push_count(ops),
        replay(Seq::empty(), ops).len() == push_count(ops) - pop_count(ops),
    decreases ops.len(),
{
    assert(ops.take(ops.len() as int) =~= ops);
    if ops.len() > 0 {
        let p = ops.drop_last();
        assert forall|k: int| 0 <= k <= p.len() implies pop_count(#[trigger] p.take(k))
            <= push_count(p.take(k)) by {
            assert(p.take(k) =~= ops.take(k));
        }
        lemma_length_counts(p);
    }
}

/// A cycle from a state whose program counter and return addresses are
/// word-aligned leaves them word-aligned.
pub proof fn lemma_step_keeps_alignment(s: MachineState, mem: Seq<u32>)
    requires
        s.aligned(),
    ensures
        step_spec(s, mem).0.aligned(),
{
    if s.pc / 4 < mem.len() {
        let w = mem[(s.pc / 4) as int];
        lemma_decode_well_formed(w);
        let n = s.with_pc(advance(s.pc));
        assert(n.pc % 4 == 0);
        assert(n.aligned());
        if let Ok(m) = ret_state(n) {
            assert(m.pc == n.stack[n.stack.len() - 1]);
        }
    }
}

/// Every 32-bit word decodes to exactly one instruction: the halt for the
/// all-zero word and only for it, a well-formed instruction, or the invalid
/// marker carrying the word.
pub proof fn lemma_decode_total(w: u32)
    ensures
        (decode_spec(w) is Halt) == (w == 0),
        well_formed(decode_spec(w)),
        decode_spec(w) is Invalid ==> decode_spec(w) == (Instruction::Invalid { word: w }),
{
    lemma_target_bound(w);
}

/// A word that names no instruction is skipped: the cycle reports
/// `InvalidInstruction` and only moves the program counter on.
pub proof fn lemma_invalid_is_skipped(s: MachineState, mem: Seq<u32>)
    requires
        fetch_spec(s, mem) is Ok,
        decode_spec(fetch_spec(s, mem)->Ok_0) is Invalid,
    ensures
        step_spec(s, mem) == (s.with_pc(advance(s.pc)), Ok::<Step, Fault>(
            Step::Skipped(Fault::InvalidInstruction),
        )),
{
}

/// A cycle that fetches the all-zero word halts without a fault, changing
/// nothing but the program counter, which moves on by four.
pub proof fn lemma_halt_moves_pc_only(s: MachineState, mem: Seq<u32>)
    requires
        fetch_spec(s, mem) == Ok::<u32, Fault>(0),
    ensures
        step_spec(s, mem) == (s.with_pc(advance(s.pc)), Ok::<Step, Fault>(Step::Halted)),
        step_spec(s, mem).0.regs == s.regs,
        step_spec(s, mem).0.flags == s.flags,
        step_spec(s, mem).0.stack == s.stack,
{
}

/// A cycle that completes an instruction other than a call or a return
/// leaves the program counter on the next word.
pub proof fn lemma_cycle_advances_pc(s: MachineState, mem: Seq<u32>)
    requires
        fetch_spec(s, mem) is Ok,
        !(decode_spec(fetch_spec(s, mem)->Ok_0) is Call),
        !(decode_spec(fetch_spec(s, mem)->Ok_0) is Ret),
        step_spec(s, mem).1 is Ok,
    ensures
        step_spec(s, mem).0.pc == advance(s.pc),
{
}

/// A load gives the same result whichever order its pair is named in.
pub proof fn lemma_load_order_irrelevant(
    s: MachineState,
    mem: Seq<u32>,
    first: u8,
    second: u8,
    dest: u8,
)
    requires
        s.regs.len() == NUM_REGISTERS,
        (first as u32) < LOAD_PAIR_LIMIT,
        (second as u32) < LOAD_PAIR_LIMIT,
        (dest as u32) < NUM_REGISTERS,
    ensures
        load_state(s, mem, first, second, dest) == load_state(s, mem, second, first, dest),
{
    if first != second && first < mem.len() && second < mem.len() && dest < mem.len() {
        let a = load_state(s, mem, first, second, dest)->Ok_0;
        let b = load_state(s, mem, second, first, dest)->Ok_0;
        assert(a.regs =~= b.regs);
    }
}

} // verus!
