//! Memory: loads and stores of words and bytes, and the logical size.

use vstd::prelude::*;
use vstd::arithmetic::power::lemma_pow0;
use crate::evm::{EVM, MEMORY_LIMIT, Machine, Step, fail, keeps_frame, nullary, proceed, read_bytes};
use crate::evm::utils::{memory_range, update_msize};
use crate::utils::types::{EvmError, ExecutionData, NextAction};
use crate::word::{Word, be_bytes, be_value, lemma_be_round_trip, lemma_view_of_word, word_of};

verus! {

/// Reads the word at the offset on top of the stack, and grows the logical
/// size to cover it.
pub open spec fn mload_step(m: Machine) -> Step {
    if m.stack.len() < 1 {
        fail(m, EvmError::StackUnderflow)
    } else if m.top(0)@ + 32 > MEMORY_LIMIT {
        fail(m, EvmError::OutOfRange)
    } else {
        let offset = m.top(0)@;
        proceed(
            m.replace_top(1, word_of(be_value(read_bytes(m.memory, offset, 32)))).touch(
                offset + 31,
            ),
        )
    }
}

/// Writes the second value as 32 bytes at the offset on top of the stack,
/// and grows the logical size to cover them.
pub open spec fn mstore_step(m: Machine) -> Step {
    if m.stack.len() < 2 {
        fail(m, EvmError::StackUnderflow)
    } else if m.top(0)@ + 32 > MEMORY_LIMIT {
        fail(m, EvmError::OutOfRange)
    } else {
        let offset = m.top(0)@;
        proceed(m.drop_top(2).written(offset, be_bytes(m.top(1))).touch(offset + 31))
    }
}

/// Writes the least significant byte of the second value at the offset on
/// top of the stack, and grows the logical size to cover it.
pub open spec fn mstore8_step(m: Machine) -> Step {
    if m.stack.len() < 2 {
        fail(m, EvmError::StackUnderflow)
    } else if m.top(0)@ + 1 > MEMORY_LIMIT {
        fail(m, EvmError::OutOfRange)
    } else {
        let offset = m.top(0)@;
        proceed(m.drop_top(2).written(offset, seq![(m.top(1)@ % 256) as u8]).touch(offset))
    }
}

/// Pushes the logical size of memory.
pub open spec fn msize_step(m: Machine) -> Step {
    nullary(m, word_of(m.msize))
}

/// A word that was stored at an offset is what a load at that offset gives
/// afterwards.
pub proof fn lemma_store_then_load(m: Machine, offset: Word, val: Word)
    requires
        offset@ + 32 <= MEMORY_LIMIT,
    ensures
        mload_step(mstore_step(m.pushed(val).pushed(offset)).0.pushed(offset)) == proceed(
            mstore_step(m.pushed(val).pushed(offset)).0.pushed(val),
        ),
{
    let before = m.pushed(val).pushed(offset);
    let stored = mstore_step(before).0;
    assert(before.top(0) == offset && before.top(1) == val);
    assert(read_bytes(stored.memory, offset@, 32) =~= be_bytes(val));
    lemma_be_round_trip(val);
    let loading = stored.pushed(offset);
    assert(loading.top(0) == offset);
    assert(loading.replace_top(1, val).touch(offset@ + 31) =~= stored.pushed(val));
}

/// After a store at offset 0 and a load at offset 64, the logical size of
/// memory is at least 96, whatever the machine held before.
pub proof fn lemma_store_then_load_grows(m: Machine, val: Word)
    ensures
        mstore_step(m.pushed(val).pushed(word_of(0))).1 == Ok::<NextAction, EvmError>(
            NextAction::Continue,
        ),
        mload_step(mstore_step(m.pushed(val).pushed(word_of(0))).0.pushed(word_of(64))).1 == Ok::<
            NextAction,
            EvmError,
        >(NextAction::Continue),
        mload_step(
            mstore_step(m.pushed(val).pushed(word_of(0))).0.pushed(word_of(64)),
        ).0.msize >= 96,
{
    lemma_view_of_word(0);
    lemma_view_of_word(64);
    let stored = mstore_step(m.pushed(val).pushed(word_of(0))).0;
    assert(stored.pushed(word_of(64)).top(0) == word_of(64));
}

/// 0x51: pops an offset, pushes the 32 bytes of memory from there on as a
/// big-endian word.
pub fn mload(evm: &mut EVM, _data: &ExecutionData) -> (r: Result<NextAction, EvmError>)
    ensures
        (final(evm)@, r) == mload_step(old(evm)@),
{
    if evm.stack.len() < 1 {
        return Err(EvmError::StackUnderflow);
    }
    let offset = match memory_range(&evm.peek(0), &Word::from_u64(32)) {
        Some((o, _)) => o,
        None => {
            return Err(EvmError::OutOfRange);
        },
    };
    let bytes = evm.load(offset, 32);
    let val = Word::from_be_bytes(bytes.as_slice());
    evm.replace_top(1, val);
    update_msize(evm, offset + 31);
    Ok(NextAction::Continue)
}

/// 0x52: pops an offset and a value, writes the value's 32 bytes, most
/// significant first, into memory at the offset.
pub fn mstore(evm: &mut EVM, _data: &ExecutionData) -> (r: Result<NextAction, EvmError>)
    ensures
        (final(evm)@, r) == mstore_step(old(evm)@),
{
    if evm.stack.len() < 2 {
        return Err(EvmError::StackUnderflow);
    }
    let offset = match memory_range(&evm.peek(0), &Word::from_u64(32)) {
        Some((o, _)) => o,
        None => {
            return Err(EvmError::OutOfRange);
        },
    };
    let val = evm.peek(1);
    let bytes = val.to_be_bytes();
    evm.drop_top(2);
    evm.store(offset, bytes.as_slice());
    update_msize(evm, offset + 31);
    Ok(NextAction::Continue)
}

/// 0x53: pops an offset and a value, writes the value modulo 256 into
/// memory at the offset.
pub fn mstore8(evm: &mut EVM, _data: &ExecutionData) -> (r: Result<NextAction, EvmError>)
    ensures
        (final(evm)@, r) == mstore8_step(old(evm)@),
{
    if evm.stack.len() < 2 {
        return Err(EvmError::StackUnderflow);
    }
    let offset = match memory_range(&evm.peek(0), &Word::from_u64(1)) {
        Some((o, _)) => o,
        None => {
            return Err(EvmError::OutOfRange);
        },
    };
    let val = evm.peek(1);
    let mut bytes: Vec<u8> = Vec::new();
    bytes.push(val.byte(0));
    proof {
        lemma_pow0(256);
        assert(bytes@ =~= seq![(val@ % 256) as u8]);
    }
    evm.drop_top(2);
    evm.store(offset, bytes.as_slice());
    update_msize(evm, offset);
    Ok(NextAction::Continue)
}

/// 0x59: pushes the logical size of memory in bytes.
pub fn msize(evm: &mut EVM, _data: &ExecutionData) -> (r: Result<NextAction, EvmError>)
    ensures
        (final(evm)@, r) == msize_step(old(evm)@),
{
    let val = Word::from_usize(evm.msize);
    evm.push(val);
    Ok(NextAction::Continue)
}

/// No handler of this family changes the jump destinations, shrinks the
/// logical size of memory or leaves it off a multiple of 32.
pub proof fn lemma_frame(m: Machine)
    ensures
        keeps_frame(m, mload_step(m)),
        keeps_frame(m, mstore_step(m)),
        keeps_frame(m, mstore8_step(m)),
        keeps_frame(m, msize_step(m)),
{
}

} // verus!
