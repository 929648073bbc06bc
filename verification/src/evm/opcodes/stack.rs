//! The stack and the flow of control.

use vstd::prelude::*;
use crate::evm::{EVM, Machine, Step, fail, halt, keeps_frame, nullary, proceed};
use crate::evm::utils::{is_pc_on_jumpdest, push_n, push_n_step};
use crate::utils::types::{EvmError, ExecutionData, NextAction};
use crate::word::{Word, word_of};

verus! {

/// Discards the top of the stack.
pub open spec fn pop_step(m: Machine) -> Step {
    if m.stack.len() < 1 {
        fail(m, EvmError::StackUnderflow)
    } else {
        proceed(m.drop_top(1))
    }
}

/// The machine after a jump to `target` was asked for: at the target and
/// running where the target is a jump destination, stopped with code 1
/// where it is not.
pub open spec fn jump_to(m: Machine, target: nat) -> Step {
    if target > usize::MAX {
        halt(m, 1)
    } else if m.jumpdests.contains(target) {
        proceed(m.at(target))
    } else {
        halt(m.at(target), 1)
    }
}

/// Jumps to the offset on top of the stack.
pub open spec fn jump_step(m: Machine) -> Step {
    if m.stack.len() < 1 {
        fail(m, EvmError::StackUnderflow)
    } else {
        jump_to(m.drop_top(1), m.top(0)@)
    }
}

/// Jumps to the offset on top of the stack where the second value is not
/// zero.
pub open spec fn jumpi_step(m: Machine) -> Step {
    if m.stack.len() < 2 {
        fail(m, EvmError::StackUnderflow)
    } else if m.top(1)@ == 0 {
        proceed(m.drop_top(2))
    } else {
        jump_to(m.drop_top(2), m.top(0)@)
    }
}

/// Pushes the offset of the instruction that is running: the program
/// counter has already moved past it.
pub open spec fn pc_step(m: Machine) -> Step {
    nullary(m, word_of((m.pc - 1) as nat))
}

/// Does nothing.
pub open spec fn jumpdest_step(m: Machine) -> Step {
    proceed(m)
}

/// A jump to a jump destination goes on from there; a jump to any other
/// offset stops the run with code 1.
pub proof fn lemma_jump_validates(m: Machine, target: Word)
    ensures
        m.jumpdests.contains(target@) && target@ <= usize::MAX ==> jump_step(m.pushed(target))
            == proceed(m.at(target@)),
        !m.jumpdests.contains(target@) ==> jump_step(m.pushed(target)).1 == Ok::<
            NextAction,
            EvmError,
        >(NextAction::Exit(1)),
{
    assert(m.pushed(target).drop_top(1) =~= m);
}

/// Sets the program counter to `target` where it fits, and checks it
/// against the jump destinations.
fn jump_to_target(evm: &mut EVM, target: &Word) -> (r: Result<NextAction, EvmError>)
    requires
        old(evm).wf(),
    ensures
        (final(evm)@, r) == jump_to(old(evm)@, target@),
{
    match target.to_usize() {
        Some(new_pc) => {
            evm.pc = new_pc;
            assert(evm@ =~= old(evm)@.at(target@));
            if is_pc_on_jumpdest(evm) {
                Ok(NextAction::Continue)
            } else {
                Ok(NextAction::Exit(1))
            }
        },
        None => Ok(NextAction::Exit(1)),
    }
}

/// 0x50: discards the top of the stack.
pub fn pop(evm: &mut EVM, _data: &ExecutionData) -> (r: Result<NextAction, EvmError>)
    ensures
        (final(evm)@, r) == pop_step(old(evm)@),
{
    if evm.stack.len() < 1 {
        return Err(EvmError::StackUnderflow);
    }
    evm.drop_top(1);
    Ok(NextAction::Continue)
}

/// 0x56: pops a destination and sets the program counter to it.  The run
/// stops with code 1 unless the destination is a jump destination.
pub fn jump(evm: &mut EVM, _data: &ExecutionData) -> (r: Result<NextAction, EvmError>)
    requires
        old(evm).wf(),
    ensures
        (final(evm)@, r) == jump_step(old(evm)@),
{
    if evm.stack.len() < 1 {
        return Err(EvmError::StackUnderflow);
    }
    let new_pc = evm.peek(0);
    evm.drop_top(1);
    jump_to_target(evm, &new_pc)
}

/// 0x57: pops a destination and a condition, and jumps as `jump` does where
/// the condition is not zero.
pub fn jumpi(evm: &mut EVM, _data: &ExecutionData) -> (r: Result<NextAction, EvmError>)
    requires
        old(evm).wf(),
    ensures
        (final(evm)@, r) == jumpi_step(old(evm)@),
{
    if evm.stack.len() < 2 {
        return Err(EvmError::StackUnderflow);
    }
    let new_pc = evm.peek(0);
    let condition = evm.peek(1);
    evm.drop_top(2);
    if condition.is_zero() {
        return Ok(NextAction::Continue);
    }
    jump_to_target(evm, &new_pc)
}

/// 0x58: pushes the offset of this instruction, one less than the program
/// counter.
pub fn pc(evm: &mut EVM, _data: &ExecutionData) -> (r: Result<NextAction, EvmError>)
    requires
        old(evm).pc >= 1,
    ensures
        (final(evm)@, r) == pc_step(old(evm)@),
{
    evm.push(Word::from_usize(evm.pc - 1));
    Ok(NextAction::Continue)
}

/// 0x5b: marks a jump destination and does nothing.
pub fn jumpdest(_evm: &mut EVM, _data: &ExecutionData) -> (r: Result<NextAction, EvmError>)
    ensures
        (final(_evm)@, r) == jumpdest_step(old(_evm)@),
{
    Ok(NextAction::Continue)
}

/// No handler of this family changes the jump destinations, shrinks the
/// logical size of memory or leaves it off a multiple of 32.
pub proof fn lemma_frame(m: Machine)
    ensures
        keeps_frame(m, pop_step(m)),
        keeps_frame(m, jump_step(m)),
        keeps_frame(m, jumpi_step(m)),
        keeps_frame(m, pc_step(m)),
        keeps_frame(m, jumpdest_step(m)),
{
}

/// 0x60: pushes the next 1 byte of the program.
pub fn push_1(evm: &mut EVM, data: &ExecutionData) -> (r: Result<NextAction, EvmError>)
    ensures
        (final(evm)@, r) == push_n_step(old(evm)@, data.bytecode@, 1),
{
    push_n(evm, 1, data)
}

/// 0x61: pushes the next 2 bytes of the program.
pub fn push_2(evm: &mut EVM, data: &ExecutionData) -> (r: Result<NextAction, EvmError>)
    ensures
        (final(evm)@, r) == push_n_step(old(evm)@, data.bytecode@, 2),
{
    push_n(evm, 2, data)
}

/// 0x63: pushes the next 4 bytes of the program.
pub fn push_4(evm: &mut EVM, data: &ExecutionData) -> (r: Result<NextAction, EvmError>)
    ensures
        (final(evm)@, r) == push_n_step(old(evm)@, data.bytecode@, 4),
{
    push_n(evm, 4, data)
}

/// 0x65: pushes the next 6 bytes of the program.
pub fn push_6(evm: &mut EVM, data: &ExecutionData) -> (r: Result<NextAction, EvmError>)
    ensures
        (final(evm)@, r) == push_n_step(old(evm)@, data.bytecode@, 6),
{
    push_n(evm, 6, data)
}

/// 0x69: pushes the next 10 bytes of the program.
pub fn push_10(evm: &mut EVM, data: &ExecutionData) -> (r: Result<NextAction, EvmError>)
    ensures
        (final(evm)@, r) == push_n_step(old(evm)@, data.bytecode@, 10),
{
    push_n(evm, 10, data)
}

/// 0x6a: pushes the next 11 bytes of the program.
pub fn push_11(evm: &mut EVM, data: &ExecutionData) -> (r: Result<NextAction, EvmError>)
    ensures
        (final(evm)@, r) == push_n_step(old(evm)@, data.bytecode@, 11),
{
    push_n(evm, 11, data)
}

/// 0x7f: pushes the next 32 bytes of the program.
pub fn push_32(evm: &mut EVM, data: &ExecutionData) -> (r: Result<NextAction, EvmError>)
    ensures
        (final(evm)@, r) == push_n_step(old(evm)@, data.bytecode@, 32),
{
    push_n(evm, 32, data)
}

} // verus!
