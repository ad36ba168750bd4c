use vstd::prelude::*;
use crate::fault::Fault;

verus! {

/// Number of return addresses the call stack can hold.
pub const STACK_CAPACITY: usize = 16;

/// The effect of one stack operation on the addresses held: `Some(a)`
/// pushes `a` unless the stack is full, `None` pops unless it is empty.
pub open spec fn stack_op(s: Seq<u32>, op: Option<u32>) -> Seq<u32> {
    match op {
        Some(a) => if s.len() < STACK_CAPACITY {
            s.push(a)
        } else {
            s
        },
        None => if s.len() > 0 {
            s.drop_last()
        } else {
            s
        },
    }
}

/// The addresses held after `ops` are applied in order to `s`.
pub open spec fn replay(s: Seq<u32>, ops: Seq<Option<u32>>) -> Seq<u32>
    decreases ops.len(),
{
    if ops.len() == 0 {
        s
    } else {
        stack_op(replay(s, ops.drop_last()), ops.last())
    }
}

/// Number of pushes among `ops`.
pub open spec fn push_count(ops: Seq<Option<u32>>) -> nat
    decreases ops.len(),
{
    if ops.len() == 0 {
        0
    } else {
        push_count(ops.drop_last()) + if ops.last() is Some {
            1nat
        } else {
            0nat
        }
    }
}

/// Number of pops among `ops`.
pub open spec fn pop_count(ops: Seq<Option<u32>>) -> nat
    decreases ops.len(),
{
    if ops.len() == 0 {
        0
    } else {
        pop_count(ops.drop_last()) + if ops.last() is None {
            1nat
        } else {
            0nat
        }
    }
}

/// A bounded LIFO store of return addresses, backed by a fixed array.
#[derive(Clone, Copy, Debug)]
pub struct Stack {
    frames: [u32; 16],
    len: usize,
}

impl View for Stack {
    type V = Seq<u32>;

    /// The addresses held, bottom first.
    closed spec fn view(&self) -> Seq<u32> {
        self.frames@.subrange(0, self.len as int)
    }
}

impl Stack {
    /// The stack holds no more than its capacity.
    pub closed spec fn wf(&self) -> bool {
        self.len <= STACK_CAPACITY
    }

    pub proof fn lemma_wf_bounded(&self)
        requires
            self.wf(),
        ensures
            self@.len() <= STACK_CAPACITY,
    {
    }

    pub fn new() -> (s: Stack)
        ensures
            s.wf(),
            s@ == Seq::<u32>::empty(),
    {
        let s = Stack { frames: [0u32; 16], len: 0 };
        assert(s@ =~= Seq::<u32>::empty());
        s
    }

    /// Places `addr` on top; refuses with `StackOverflow`, changing nothing,
    /// when the stack is full.
    pub fn push(&mut self, addr: u32) -> (r: Result<(), Fault>)
        requires
            old(self).wf(),
        ensures
            final(self).wf(),
            final(self)@ == stack_op(old(self)@, Some(addr)),
            old(self)@.len() == STACK_CAPACITY ==> r == Err::<(), Fault>(Fault::StackOverflow)
                && final(self)@ == old(self)@,
            old(self)@.len() < STACK_CAPACITY ==> r is Ok && final(self)@ == old(self)@.push(addr),
    {
        if self.len == STACK_CAPACITY {
            return Err(Fault::StackOverflow);
        }
        let ghost before = self@;
        self.frames[self.len] = addr;
        self.len = self.len + 1;
        assert(self@ =~= before.push(addr));
        Ok(())
    }

    /// Removes and returns the top address; `StackUnderflow`, changing
    /// nothing, when the stack is empty.
    pub fn pop(&mut self) -> (r: Result<u32, Fault>)
        requires
            old(self).wf(),
        ensures
            final(self).wf(),
            final(self)@ == stack_op(old(self)@, None),
            old(self)@.len() == 0 ==> r == Err::<u32, Fault>(Fault::StackUnderflow)
                && final(self)@ == old(self)@,
            old(self)@.len() > 0 ==> r == Ok::<u32, Fault>(old(self)@.last())
                && final(self)@ == old(self)@.drop_last(),
    {
        if self.len == 0 {
            return Err(Fault::StackUnderflow);
        }
        let ghost before = self@;
        self.len = self.len - 1;
        assert(self@ =~= before.drop_last());
        Ok(self.frames[self.len])
    }

    /// The top address, left in place; `StackUnderflow` when empty.
    pub fn top(&self) -> (r: Result<u32, Fault>)
        requires
            self.wf(),
        ensures
            self@.len() == 0 ==> r == Err::<u32, Fault>(Fault::StackUnderflow),
            self@.len() > 0 ==> r == Ok::<u32, Fault>(self@.last()),
    {
        if self.len == 0 {
            Err(Fault::StackUnderflow)
        } else {
            Ok(self.frames[self.len - 1])
        }
    }

    pub fn length(&self) -> (n: usize)
        requires
            self.wf(),
        ensures
            n == self@.len(),
    {
        self.len
    }

    pub fn is_empty(&self) -> (b: bool)
        requires
            self.wf(),
        ensures
            b == (self@.len() == 0),
    {
        self.len == 0
    }
}

} // verus!
