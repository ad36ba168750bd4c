use vstd::prelude::*;

verus! {

/// The conditions that an instruction can raise.
///
/// `InvalidInstruction` and `DivideByZero` abort one instruction and let the
/// run go on; `StackOverflow`, `StackUnderflow` and `OutOfBounds` end the run.
#[derive(Clone, Copy, Debug, PartialEq, Eq, Structural)]
pub enum Fault {
    InvalidInstruction,
    DivideByZero,
    StackOverflow,
    StackUnderflow,
    OutOfBounds,
}

impl Fault {
    /// Whether the run loop stops on this condition.
    pub open spec fn spec_is_fatal(self) -> bool {
        match self {
            Fault::InvalidInstruction | Fault::DivideByZero => false,
            _ => true,
        }
    }

    #[verifier::when_used_as_spec(spec_is_fatal)]
    pub fn is_fatal(self) -> (r: bool)
        ensures
            r == self.spec_is_fatal(),
    {
        match self {
            Fault::InvalidInstruction | Fault::DivideByZero => false,
            _ => true,
        }
    }
}

} // verus!
