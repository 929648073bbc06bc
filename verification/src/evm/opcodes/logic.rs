//! Ordering, equality and the bitwise operations: the first value popped
//! is the left operand.

use vstd::prelude::*;
use crate::evm::{EVM, Machine, Step, binary, keeps_frame, unary};
use crate::evm::utils::is_negative;
use crate::utils::types::{EvmError, ExecutionData, NextAction};
use crate::word::{Word, and_words, bool_word, not_word, or_words, signed, xor_words};

verus! {

/// Whether the top is below the second value.
pub open spec fn lt_step(m: Machine) -> Step {
    binary(m, bool_word(m.top(0)@ < m.top(1)@))
}

/// Whether the top is above the second value.
pub open spec fn gt_step(m: Machine) -> Step {
    binary(m, bool_word(m.top(0)@ > m.top(1)@))
}

/// Whether the top is below the second value, both read as two's
/// complement.
pub open spec fn slt_step(m: Machine) -> Step {
    binary(m, bool_word(signed(m.top(0)) < signed(m.top(1))))
}

/// Whether the top is above the second value, both read as two's
/// complement.
pub open spec fn sgt_step(m: Machine) -> Step {
    binary(m, bool_word(signed(m.top(0)) > signed(m.top(1))))
}

/// Whether the top two values are equal.
pub open spec fn eq_step(m: Machine) -> Step {
    binary(m, bool_word(m.top(0) == m.top(1)))
}

/// Whether the top is zero.
pub open spec fn is_zero_step(m: Machine) -> Step {
    unary(m, bool_word(m.top(0)@ == 0))
}

/// The complement of the top.
pub open spec fn not_step(m: Machine) -> Step {
    unary(m, not_word(m.top(0)))
}

/// The bitwise and of the top two values.
pub open spec fn and_step(m: Machine) -> Step {
    binary(m, and_words(m.top(0), m.top(1)))
}

/// The bitwise or of the top two values.
pub open spec fn or_step(m: Machine) -> Step {
    binary(m, or_words(m.top(0), m.top(1)))
}

/// The bitwise exclusive or of the top two values.
pub open spec fn xor_step(m: Machine) -> Step {
    binary(m, xor_words(m.top(0), m.top(1)))
}

/// 0x10: pops `a` and `b`, pushes 1 if `a < b` and 0 otherwise.
pub fn lt(evm: &mut EVM, _data: &ExecutionData) -> (r: Result<NextAction, EvmError>)
    ensures
        (final(evm)@, r) == lt_step(old(evm)@),
{
    if evm.stack.len() < 2 {
        return Err(EvmError::StackUnderflow);
    }
    let a = evm.peek(0);
    let b = evm.peek(1);
    evm.replace_top(2, Word::from_bool(a.lt(&b)));
    Ok(NextAction::Continue)
}

/// 0x11: pops `a` and `b`, pushes 1 if `a > b` and 0 otherwise.
pub fn gt(evm: &mut EVM, _data: &ExecutionData) -> (r: Result<NextAction, EvmError>)
    ensures
        (final(evm)@, r) == gt_step(old(evm)@),
{
    if evm.stack.len() < 2 {
        return Err(EvmError::StackUnderflow);
    }
    let a = evm.peek(0);
    let b = evm.peek(1);
    evm.replace_top(2, Word::from_bool(b.lt(&a)));
    Ok(NextAction::Continue)
}

/// 0x12: pops `a` and `b`, pushes 1 if `a < b` as signed numbers and 0
/// otherwise.  Where the signs differ, the negative one is the smaller;
/// where they agree, the words order as the numbers do.
pub fn slt(evm: &mut EVM, _data: &ExecutionData) -> (r: Result<NextAction, EvmError>)
    ensures
        (final(evm)@, r) == slt_step(old(evm)@),
{
    if evm.stack.len() < 2 {
        return Err(EvmError::StackUnderflow);
    }
    let a = evm.peek(0);
    let b = evm.peek(1);

    let is_a_negative = is_negative(&a);
    let is_b_negative = is_negative(&b);

    let result: bool = if is_a_negative && !is_b_negative {
        true
    } else if !is_a_negative && is_b_negative {
        false
    } else {
        a.lt(&b)
    };
    evm.replace_top(2, Word::from_bool(result));
    Ok(NextAction::Continue)
}

/// 0x13: pops `a` and `b`, pushes 1 if `a > b` as signed numbers and 0
/// otherwise.
pub fn sgt(evm: &mut EVM, _data: &ExecutionData) -> (r: Result<NextAction, EvmError>)
    ensures
        (final(evm)@, r) == sgt_step(old(evm)@),
{
    if evm.stack.len() < 2 {
        return Err(EvmError::StackUnderflow);
    }
    let a = evm.peek(0);
    let b = evm.peek(1);

    let is_a_negative = is_negative(&a);
    let is_b_negative = is_negative(&b);

    let result: bool = if is_a_negative && !is_b_negative {
        false
    } else if !is_a_negative && is_b_negative {
        true
    } else {
        b.lt(&a)
    };
    evm.replace_top(2, Word::from_bool(result));
    Ok(NextAction::Continue)
}

/// 0x14: pops `a` and `b`, pushes 1 if they are equal and 0 otherwise.
pub fn eq(evm: &mut EVM, _data: &ExecutionData) -> (r: Result<NextAction, EvmError>)
    ensures
        (final(evm)@, r) == eq_step(old(evm)@),
{
    if evm.stack.len() < 2 {
        return Err(EvmError::StackUnderflow);
    }
    let a = evm.peek(0);
    let b = evm.peek(1);
    evm.replace_top(2, Word::from_bool(a == b));
    Ok(NextAction::Continue)
}

/// 0x15: pops `a`, pushes 1 if it is zero and 0 otherwise.
pub fn is_zero(evm: &mut EVM, _data: &ExecutionData) -> (r: Result<NextAction, EvmError>)
    ensures
        (final(evm)@, r) == is_zero_step(old(evm)@),
{
    if evm.stack.len() < 1 {
        return Err(EvmError::StackUnderflow);
    }
    let a = evm.peek(0);
    evm.replace_top(1, Word::from_bool(a.is_zero()));
    Ok(NextAction::Continue)
}

/// 0x19: pops `a`, pushes its bitwise complement.
pub fn not(evm: &mut EVM, _data: &ExecutionData) -> (r: Result<NextAction, EvmError>)
    ensures
        (final(evm)@, r) == not_step(old(evm)@),
{
    if evm.stack.len() < 1 {
        return Err(EvmError::StackUnderflow);
    }
    let a = evm.peek(0);
    evm.replace_top(1, a.not());
    Ok(NextAction::Continue)
}

/// 0x16: pops `a` and `b`, pushes their bitwise and.
pub fn and(evm: &mut EVM, _data: &ExecutionData) -> (r: Result<NextAction, EvmError>)
    ensures
        (final(evm)@, r) == and_step(old(evm)@),
{
    if evm.stack.len() < 2 {
        return Err(EvmError::StackUnderflow);
    }
    let a = evm.peek(0);
    let b = evm.peek(1);
    evm.replace_top(2, a.and(b));
    Ok(NextAction::Continue)
}

/// 0x17: pops `a` and `b`, pushes their bitwise or.
pub fn or(evm: &mut EVM, _data: &ExecutionData) -> (r: Result<NextAction, EvmError>)
    ensures
        (final(evm)@, r) == or_step(old(evm)@),
{
    if evm.stack.len() < 2 {
        return Err(EvmError::StackUnderflow);
    }
    let a = evm.peek(0);
    let b = evm.peek(1);
    evm.replace_top(2, a.or(b));
    Ok(NextAction::Continue)
}

/// 0x18: pops `a` and `b`, pushes their bitwise exclusive or.
pub fn xor(evm: &mut EVM, _data: &ExecutionData) -> (r: Result<NextAction, EvmError>)
    ensures
        (final(evm)@, r) == xor_step(old(evm)@),
{
    if evm.stack.len() < 2 {
        return Err(EvmError::StackUnderflow);
    }
    let a = evm.peek(0);
    let b = evm.peek(1);
    evm.replace_top(2, a.xor(b));
    Ok(NextAction::Continue)
}

/// No handler of this family changes the jump destinations, shrinks the
/// logical size of memory or leaves it off a multiple of 32.
pub proof fn lemma_frame(m: Machine)
    ensures
        keeps_frame(m, lt_step(m)),
        keeps_frame(m, gt_step(m)),
        keeps_frame(m, slt_step(m)),
        keeps_frame(m, sgt_step(m)),
        keeps_frame(m, eq_step(m)),
        keeps_frame(m, is_zero_step(m)),
        keeps_frame(m, not_step(m)),
        keeps_frame(m, and_step(m)),
        keeps_frame(m, or_step(m)),
        keeps_frame(m, xor_step(m)),
{
}

} // verus!
