use vstd::prelude::*;
use crate::fault::Fault;

verus! {

/// Bit of the flags register set when a result is negative (subtraction:
/// the first operand was below the second).
pub const FLAG_NEGATIVE: u32 = 0x8000_0000;

/// Bit of the flags register set when a result is zero.
pub const FLAG_ZERO: u32 = 0x4000_0000;

/// Bit of the flags register set when an addition carries out of bit 31.
pub const FLAG_CARRY: u32 = 0x2000_0000;

/// Bit of the flags register set when a result does not fit in 32 bits.
pub const FLAG_OVERFLOW: u32 = 0x1000_0000;

/// The four flag bits together.
pub const FLAG_MASK: u32 = 0xF000_0000;

/// One more than the largest register value.
pub const WORD_MODULUS: u64 = 0x1_0000_0000;

/// What an operation says of each flag: `Some(b)` sets it to `b`, `None`
/// leaves the prior value.
#[derive(Clone, Copy, Debug, PartialEq, Eq, Structural)]
pub struct FlagsDelta {
    pub negative: Option<bool>,
    pub zero: Option<bool>,
    pub carry: Option<bool>,
    pub overflow: Option<bool>,
}

/// A result value with the flags that the operation defines.
#[derive(Clone, Copy, Debug, PartialEq, Eq, Structural)]
pub struct AluResult {
    pub value: u32,
    pub delta: FlagsDelta,
}

/// A quotient and remainder with the flags that division defines.
#[derive(Clone, Copy, Debug, PartialEq, Eq, Structural)]
pub struct DivResult {
    pub quotient: u32,
    pub remainder: u32,
    pub delta: FlagsDelta,
}

pub open spec fn flag_set(flags: u32, bit: u32) -> bool {
    flags & bit != 0
}

/// The value a flag takes: the one the delta gives, else the prior one.
pub open spec fn resolve(given: Option<bool>, prior: bool) -> bool {
    match given {
        Some(b) => b,
        None => prior,
    }
}

/// The flags register after `delta` is applied to `flags`: each flag bit
/// as `resolve` gives it, every other bit as it was.
pub open spec fn applied(flags: u32, delta: FlagsDelta, r: u32) -> bool {
    &&& flag_set(r, FLAG_NEGATIVE) == resolve(delta.negative, flag_set(flags, FLAG_NEGATIVE))
    &&& flag_set(r, FLAG_ZERO) == resolve(delta.zero, flag_set(flags, FLAG_ZERO))
    &&& flag_set(r, FLAG_CARRY) == resolve(delta.carry, flag_set(flags, FLAG_CARRY))
    &&& flag_set(r, FLAG_OVERFLOW) == resolve(delta.overflow, flag_set(flags, FLAG_OVERFLOW))
    &&& r & !FLAG_MASK == flags & !FLAG_MASK
}

pub open spec fn set_bit_spec(flags: u32, bit: u32, given: Option<bool>) -> u32 {
    match given {
        Some(true) => flags | bit,
        Some(false) => flags & !bit,
        None => flags,
    }
}

/// The flags register after an operation's delta.
pub open spec fn apply_spec(flags: u32, d: FlagsDelta) -> u32 {
    set_bit_spec(
        set_bit_spec(
            set_bit_spec(set_bit_spec(flags, FLAG_NEGATIVE, d.negative), FLAG_ZERO, d.zero),
            FLAG_CARRY,
            d.carry,
        ),
        FLAG_OVERFLOW,
        d.overflow,
    )
}

pub open spec fn spec_add(a: u32, b: u32) -> AluResult {
    let value = ((a + b) % (WORD_MODULUS as int)) as u32;
    AluResult {
        value,
        delta: FlagsDelta {
            negative: None,
            zero: Some(value == 0),
            carry: Some(a + b > u32::MAX),
            overflow: Some(a + b > u32::MAX),
        },
    }
}

pub open spec fn spec_sub(a: u32, b: u32) -> AluResult {
    let value = if a < b { 0u32 } else { (a - b) as u32 };
    AluResult {
        value,
        delta: FlagsDelta { negative: Some(a < b), zero: Some(value == 0), carry: None, overflow: None },
    }
}

pub open spec fn spec_mul(a: u32, b: u32) -> AluResult {
    let value = ((a * b) % (WORD_MODULUS as int)) as u32;
    AluResult {
        value,
        delta: FlagsDelta {
            negative: None,
            zero: Some(value == 0),
            carry: None,
            overflow: Some(a * b > u32::MAX),
        },
    }
}

pub open spec fn spec_div(a: u32, b: u32) -> Result<DivResult, Fault> {
    if b == 0 {
        Err(Fault::DivideByZero)
    } else {
        Ok(
            DivResult {
                quotient: (a / b) as u32,
                remainder: (a % b) as u32,
                delta: FlagsDelta {
                    negative: None,
                    zero: Some(a / b == 0),
                    carry: None,
                    overflow: None,
                },
            },
        )
    }
}

/// Wrapping addition; carry and overflow are set exactly when the true sum
/// exceeds 32 bits.
pub fn add_words(a: u32, b: u32) -> (r: AluResult)
    ensures
        r == spec_add(a, b),
{
    let sum: u64 = a as u64 + b as u64;
    let value: u32 = (sum % WORD_MODULUS) as u32;
    let wide = sum > u32::MAX as u64;
    AluResult {
        value,
        delta: FlagsDelta { negative: None, zero: Some(value == 0), carry: Some(wide), overflow: Some(wide) },
    }
}

/// Subtraction that saturates at zero; the negative flag is taken from the
/// comparison of the operands, not from the saturated result.
pub fn sub_words(a: u32, b: u32) -> (r: AluResult)
    ensures
        r == spec_sub(a, b),
{
    let below = a < b;
    let value: u32 = if below { 0 } else { a - b };
    AluResult {
        value,
        delta: FlagsDelta { negative: Some(below), zero: Some(value == 0), carry: None, overflow: None },
    }
}

/// Wrapping multiplication; overflow is set exactly when the true product
/// exceeds 32 bits.
pub fn mul_words(a: u32, b: u32) -> (r: AluResult)
    ensures
        r == spec_mul(a, b),
{
    assert((a as u64) * (b as u64) <= 0xFFFF_FFFE_0000_0001u64) by (nonlinear_arith);
    let product: u64 = a as u64 * b as u64;
    let value: u32 = (product % WORD_MODULUS) as u32;
    AluResult {
        value,
        delta: FlagsDelta {
            negative: None,
            zero: Some(value == 0),
            carry: None,
            overflow: Some(product > u32::MAX as u64),
        },
    }
}

/// Unsigned division; a zero divisor is reported as `DivideByZero`.
pub fn div_words(a: u32, b: u32) -> (r: Result<DivResult, Fault>)
    ensures
        r == spec_div(a, b),
{
    if b == 0 {
        return Err(Fault::DivideByZero);
    }
    let quotient = a / b;
    Ok(
        DivResult {
            quotient,
            remainder: a % b,
            delta: FlagsDelta { negative: None, zero: Some(quotient == 0), carry: None, overflow: None },
        },
    )
}

proof fn lemma_flag_bits(f: u32, bit: u32, other: u32)
    requires
        bit == FLAG_NEGATIVE || bit == FLAG_ZERO || bit == FLAG_CARRY || bit == FLAG_OVERFLOW,
        other == FLAG_NEGATIVE || other == FLAG_ZERO || other == FLAG_CARRY || other
            == FLAG_OVERFLOW,
    ensures
        (f | bit) & bit != 0,
        (f & !bit) & bit == 0,
        other != bit ==> ((f | bit) & other == f & other),
        other != bit ==> ((f & !bit) & other == f & other),
        (f | bit) & !FLAG_MASK == f & !FLAG_MASK,
        (f & !bit) & !FLAG_MASK == f & !FLAG_MASK,
{
    assert((f | bit) & bit != 0) by (bit_vector)
        requires
            bit == 0x8000_0000u32 || bit == 0x4000_0000u32 || bit == 0x2000_0000u32 || bit
                == 0x1000_0000u32,
    ;
    assert((f & !bit) & bit == 0) by (bit_vector);
    assert(other != bit ==> ((f | bit) & other == f & other)) by (bit_vector)
        requires
            bit == 0x8000_0000u32 || bit == 0x4000_0000u32 || bit == 0x2000_0000u32 || bit
                == 0x1000_0000u32,
            other == 0x8000_0000u32 || other == 0x4000_0000u32 || other == 0x2000_0000u32
                || other == 0x1000_0000u32,
    ;
    assert(other != bit ==> ((f & !bit) & other == f & other)) by (bit_vector)
        requires
            bit == 0x8000_0000u32 || bit == 0x4000_0000u32 || bit == 0x2000_0000u32 || bit
                == 0x1000_0000u32,
            other == 0x8000_0000u32 || other == 0x4000_0000u32 || other == 0x2000_0000u32
                || other == 0x1000_0000u32,
    ;
    assert((f | bit) & !0xF000_0000u32 == f & !0xF000_0000u32) by (bit_vector)
        requires
            bit == 0x8000_0000u32 || bit == 0x4000_0000u32 || bit == 0x2000_0000u32 || bit
                == 0x1000_0000u32,
    ;
    assert((f & !bit) & !0xF000_0000u32 == f & !0xF000_0000u32) by (bit_vector)
        requires
            bit == 0x8000_0000u32 || bit == 0x4000_0000u32 || bit == 0x2000_0000u32 || bit
                == 0x1000_0000u32,
    ;
}

/// Applying a delta sets each flag it names and keeps every other bit.
pub proof fn lemma_apply_meaning(flags: u32, delta: FlagsDelta)
    ensures
        applied(flags, delta, apply_spec(flags, delta)),
{
    let f1 = set_bit_spec(flags, FLAG_NEGATIVE, delta.negative);
    let f2 = set_bit_spec(f1, FLAG_ZERO, delta.zero);
    let f3 = set_bit_spec(f2, FLAG_CARRY, delta.carry);
    lemma_flag_bits(flags, FLAG_NEGATIVE, FLAG_ZERO);
    lemma_flag_bits(flags, FLAG_NEGATIVE, FLAG_CARRY);
    lemma_flag_bits(flags, FLAG_NEGATIVE, FLAG_OVERFLOW);
    lemma_flag_bits(flags, FLAG_NEGATIVE, FLAG_NEGATIVE);
    lemma_flag_bits(f1, FLAG_ZERO, FLAG_NEGATIVE);
    lemma_flag_bits(f1, FLAG_ZERO, FLAG_CARRY);
    lemma_flag_bits(f1, FLAG_ZERO, FLAG_OVERFLOW);
    lemma_flag_bits(f1, FLAG_ZERO, FLAG_ZERO);
    lemma_flag_bits(f2, FLAG_CARRY, FLAG_NEGATIVE);
    lemma_flag_bits(f2, FLAG_CARRY, FLAG_ZERO);
    lemma_flag_bits(f2, FLAG_CARRY, FLAG_OVERFLOW);
    lemma_flag_bits(f2, FLAG_CARRY, FLAG_CARRY);
    lemma_flag_bits(f3, FLAG_OVERFLOW, FLAG_NEGATIVE);
    lemma_flag_bits(f3, FLAG_OVERFLOW, FLAG_ZERO);
    lemma_flag_bits(f3, FLAG_OVERFLOW, FLAG_CARRY);
    lemma_flag_bits(f3, FLAG_OVERFLOW, FLAG_OVERFLOW);
}

/// Sets one flag bit to `given` when the delta speaks of it.
fn set_flag(flags: u32, bit: u32, given: Option<bool>) -> (r: u32)
    requires
        bit == FLAG_NEGATIVE || bit == FLAG_ZERO || bit == FLAG_CARRY || bit == FLAG_OVERFLOW,
    ensures
        r == set_bit_spec(flags, bit, given),
        flag_set(r, bit) == resolve(given, flag_set(flags, bit)),
        forall|other: u32|
            other != bit && (other == FLAG_NEGATIVE || other == FLAG_ZERO || other == FLAG_CARRY
                || other == FLAG_OVERFLOW) ==> #[trigger] flag_set(r, other) == flag_set(
                flags,
                other,
            ),
        r & !FLAG_MASK == flags & !FLAG_MASK,
{
    proof {
        lemma_flag_bits(flags, bit, FLAG_NEGATIVE);
        lemma_flag_bits(flags, bit, FLAG_ZERO);
        lemma_flag_bits(flags, bit, FLAG_CARRY);
        lemma_flag_bits(flags, bit, FLAG_OVERFLOW);
    }
    match given {
        Some(true) => flags | bit,
        Some(false) => flags & !bit,
        None => flags,
    }
}

/// The flags register with `delta` applied: the flags it names take their
/// new values, all other bits stay.
pub fn apply_flags(flags: u32, delta: FlagsDelta) -> (r: u32)
    ensures
        r == apply_spec(flags, delta),
        applied(flags, delta, r),
{
    let f1 = set_flag(flags, FLAG_NEGATIVE, delta.negative);
    let f2 = set_flag(f1, FLAG_ZERO, delta.zero);
    let f3 = set_flag(f2, FLAG_CARRY, delta.carry);
    set_flag(f3, FLAG_OVERFLOW, delta.overflow)
}

} // verus!
