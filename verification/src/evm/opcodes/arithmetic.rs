//! Arithmetic on words: the first value popped is the left operand.

use vstd::prelude::*;
use crate::evm::{EVM, Machine, Step, binary, keeps_frame, ternary};
use crate::evm::utils::{flip_sign, is_negative};
use crate::utils::types::{EvmError, ExecutionData, NextAction};
use crate::word::{
    Word, add_words, div_words, mod_words, mul_words, pow_words, sdiv_words, smod_words,
    sub_words,
};

verus! {

/// Addition modulo 2^256.
pub open spec fn add_step(m: Machine) -> Step {
    binary(m, add_words(m.top(0), m.top(1)))
}

/// Multiplication modulo 2^256.
pub open spec fn mul_step(m: Machine) -> Step {
    binary(m, mul_words(m.top(0), m.top(1)))
}

/// Subtraction modulo 2^256.
pub open spec fn sub_step(m: Machine) -> Step {
    binary(m, sub_words(m.top(0), m.top(1)))
}

/// Division; by zero it gives zero.
pub open spec fn div_step(m: Machine) -> Step {
    binary(m, div_words(m.top(0), m.top(1)))
}

/// Signed division; by zero it gives zero.
pub open spec fn s_div_step(m: Machine) -> Step {
    binary(m, sdiv_words(m.top(0), m.top(1)))
}

/// Remainder; by zero it gives zero.
pub open spec fn modulo_step(m: Machine) -> Step {
    binary(m, mod_words(m.top(0), m.top(1)))
}

/// Signed remainder; by zero it gives zero.
pub open spec fn s_modulo_step(m: Machine) -> Step {
    binary(m, smod_words(m.top(0), m.top(1)))
}

/// The sum of the top two values modulo 2^256, reduced by the third.
pub open spec fn add_mod_step(m: Machine) -> Step {
    ternary(m, mod_words(add_words(m.top(0), m.top(1)), m.top(2)))
}

/// The product of the top two values modulo 2^256, reduced by the third.
pub open spec fn mul_mod_step(m: Machine) -> Step {
    ternary(m, mod_words(mul_words(m.top(0), m.top(1)), m.top(2)))
}

/// Exponentiation modulo 2^256.
pub open spec fn exp_step(m: Machine) -> Step {
    binary(m, pow_words(m.top(0), m.top(1)))
}

/// 0x01: pops `a` and `b`, pushes `a + b`.
pub fn add(evm: &mut EVM, _data: &ExecutionData) -> (r: Result<NextAction, EvmError>)
    ensures
        (final(evm)@, r) == add_step(old(evm)@),
{
    if evm.stack.len() < 2 {
        return Err(EvmError::StackUnderflow);
    }
    let a = evm.peek(0);
    let b = evm.peek(1);
    evm.replace_top(2, a.wrapping_add(b));
    Ok(NextAction::Continue)
}

/// 0x02: pops `a` and `b`, pushes `a * b`.
pub fn mul(evm: &mut EVM, _data: &ExecutionData) -> (r: Result<NextAction, EvmError>)
    ensures
        (final(evm)@, r) == mul_step(old(evm)@),
{
    if evm.stack.len() < 2 {
        return Err(EvmError::StackUnderflow);
    }
    let a = evm.peek(0);
    let b = evm.peek(1);
    evm.replace_top(2, a.wrapping_mul(b));
    Ok(NextAction::Continue)
}

/// 0x03: pops `a` and `b`, pushes `a - b`.
pub fn sub(evm: &mut EVM, _data: &ExecutionData) -> (r: Result<NextAction, EvmError>)
    ensures
        (final(evm)@, r) == sub_step(old(evm)@),
{
    if evm.stack.len() < 2 {
        return Err(EvmError::StackUnderflow);
    }
    let a = evm.peek(0);
    let b = evm.peek(1);
    evm.replace_top(2, a.wrapping_sub(b));
    Ok(NextAction::Continue)
}

/// 0x04: pops `a` and `b`, pushes `a / b`, or zero where `b` is zero.
pub fn div(evm: &mut EVM, _data: &ExecutionData) -> (r: Result<NextAction, EvmError>)
    ensures
        (final(evm)@, r) == div_step(old(evm)@),
{
    if evm.stack.len() < 2 {
        return Err(EvmError::StackUnderflow);
    }
    let a = evm.peek(0);
    let b = evm.peek(1);
    let zero = Word::from_u64(0);
    if b == zero {
        evm.replace_top(2, zero);
    } else {
        evm.replace_top(2, a.div(b));
    }
    Ok(NextAction::Continue)
}

/// 0x05: pops `a` and `b`, pushes their signed quotient, or zero where `b`
/// is zero.  The quotient of the magnitudes is negated when exactly one
/// operand is negative.
pub fn s_div(evm: &mut EVM, _data: &ExecutionData) -> (r: Result<NextAction, EvmError>)
    ensures
        (final(evm)@, r) == s_div_step(old(evm)@),
{
    if evm.stack.len() < 2 {
        return Err(EvmError::StackUnderflow);
    }
    let mut a = evm.peek(0);
    let mut b = evm.peek(1);

    let zero = Word::from_u64(0);
    if b == zero {
        evm.replace_top(2, zero);
        return Ok(NextAction::Continue);
    }
    let is_a_negative = is_negative(&a);
    let is_b_negative = is_negative(&b);

    // make a and b positive
    if is_a_negative {
        flip_sign(&mut a);
    }
    if is_b_negative {
        flip_sign(&mut b);
    }
    if is_a_negative == is_b_negative {
        evm.replace_top(2, a.div(b));
    } else {
        let mut quotient = a.div(b);
        flip_sign(&mut quotient);
        evm.replace_top(2, quotient);
    }
    Ok(NextAction::Continue)
}

/// 0x06: pops `a` and `n`, pushes `a % n`, or zero where `n` is zero.
pub fn modulo(evm: &mut EVM, _data: &ExecutionData) -> (r: Result<NextAction, EvmError>)
    ensures
        (final(evm)@, r) == modulo_step(old(evm)@),
{
    if evm.stack.len() < 2 {
        return Err(EvmError::StackUnderflow);
    }
    let a = evm.peek(0);
    let n = evm.peek(1);
    let zero = Word::from_u64(0);
    if n == zero {
        evm.replace_top(2, zero);
    } else {
        evm.replace_top(2, a.rem(n));
    }
    Ok(NextAction::Continue)
}

/// 0x07: pops `a` and `n`, pushes their signed remainder, or zero where `n`
/// is zero.  The remainder of the magnitudes is negated when the dividend
/// is negative.
pub fn s_modulo(evm: &mut EVM, _data: &ExecutionData) -> (r: Result<NextAction, EvmError>)
    ensures
        (final(evm)@, r) == s_modulo_step(old(evm)@),
{
    if evm.stack.len() < 2 {
        return Err(EvmError::StackUnderflow);
    }
    let mut a = evm.peek(0);
    let mut n = evm.peek(1);

    let zero = Word::from_u64(0);
    if n == zero {
        evm.replace_top(2, zero);
        return Ok(NextAction::Continue);
    }
    let is_a_negative = is_negative(&a);
    let is_n_negative = is_negative(&n);

    if is_a_negative {
        flip_sign(&mut a);
    }
    if is_n_negative {
        flip_sign(&mut n);
    }
    let mut result = a.rem(n);
    if is_a_negative {
        flip_sign(&mut result);
    }
    evm.replace_top(2, result);
    Ok(NextAction::Continue)
}

/// 0x08: pops `a`, `b` and `n`, pushes `(a + b) % n`: an addition followed
/// by a remainder, so the sum wraps at 2^256 and a zero `n` gives zero.
pub fn add_mod(evm: &mut EVM, data: &ExecutionData) -> (r: Result<NextAction, EvmError>)
    ensures
        (final(evm)@, r) == add_mod_step(old(evm)@),
{
    if evm.stack.len() < 3 {
        return Err(EvmError::StackUnderflow);
    }
    let _ = self::add(evm, data);
    let r = self::modulo(evm, data);
    assert(evm@ =~= add_mod_step(old(evm)@).0);
    r
}

/// 0x09: pops `a`, `b` and `n`, pushes `(a * b) % n`: a multiplication
/// followed by a remainder, so the product wraps at 2^256 and a zero `n`
/// gives zero.
pub fn mul_mod(evm: &mut EVM, data: &ExecutionData) -> (r: Result<NextAction, EvmError>)
    ensures
        (final(evm)@, r) == mul_mod_step(old(evm)@),
{
    if evm.stack.len() < 3 {
        return Err(EvmError::StackUnderflow);
    }
    let _ = self::mul(evm, data);
    let r = self::modulo(evm, data);
    assert(evm@ =~= mul_mod_step(old(evm)@).0);
    r
}

/// 0x0a: pops `a` and `b`, pushes `a` to the power `b`.
pub fn exp(evm: &mut EVM, _data: &ExecutionData) -> (r: Result<NextAction, EvmError>)
    ensures
        (final(evm)@, r) == exp_step(old(evm)@),
{
    if evm.stack.len() < 2 {
        return Err(EvmError::StackUnderflow);
    }
    let a = evm.peek(0);
    let b = evm.peek(1);
    evm.replace_top(2, a.wrapping_pow(b));
    Ok(NextAction::Continue)
}

/// No handler of this family changes the jump destinations, shrinks the
/// logical size of memory or leaves it off a multiple of 32.
pub proof fn lemma_frame(m: Machine)
    ensures
        keeps_frame(m, add_step(m)),
        keeps_frame(m, mul_step(m)),
        keeps_frame(m, sub_step(m)),
        keeps_frame(m, div_step(m)),
        keeps_frame(m, s_div_step(m)),
        keeps_frame(m, modulo_step(m)),
        keeps_frame(m, s_modulo_step(m)),
        keeps_frame(m, add_mod_step(m)),
        keeps_frame(m, mul_mod_step(m)),
        keeps_frame(m, exp_step(m)),
{
}

} // verus!
