//! The persistent storage, keyed by a machine-sized integer.

use vstd::prelude::*;
use crate::evm::{EVM, Machine, Step, fail, keeps_frame, proceed};
use crate::utils::types::{EvmError, ExecutionData, NextAction};
use crate::word::{Word, word_of};

verus! {

broadcast use vstd::std_specs::hash::group_hash_axioms;

/// The value stored under `key`: zero where nothing was stored.
pub open spec fn stored(storage: Map<usize, Word>, key: usize) -> Word {
    if storage.contains_key(key) {
        storage[key]
    } else {
        word_of(0)
    }
}

/// Replaces the key on top of the stack by the value stored under it.
pub open spec fn sload_step(m: Machine) -> Step {
    if m.stack.len() < 1 {
        fail(m, EvmError::StackUnderflow)
    } else if m.top(0)@ > usize::MAX {
        fail(m, EvmError::OutOfRange)
    } else {
        proceed(m.replace_top(1, stored(m.storage, m.top(0)@ as usize)))
    }
}

/// Stores the second value under the key on top of the stack.
pub open spec fn sstore_step(m: Machine) -> Step {
    if m.stack.len() < 2 {
        fail(m, EvmError::StackUnderflow)
    } else if m.top(0)@ > usize::MAX {
        fail(m, EvmError::OutOfRange)
    } else {
        proceed(
            Machine { storage: m.storage.insert(m.top(0)@ as usize, m.top(1)), ..m.drop_top(2) },
        )
    }
}

/// A value that was stored under a key is what a load of that key gives
/// afterwards, whatever else the stack holds.
pub proof fn lemma_sstore_then_sload(m: Machine, key: Word, val: Word)
    requires
        key@ <= usize::MAX,
    ensures
        sstore_step(m.pushed(val).pushed(key)) == proceed(
            Machine { storage: m.storage.insert(key@ as usize, val), ..m },
        ),
        sload_step(sstore_step(m.pushed(val).pushed(key)).0.pushed(key)) == proceed(
            sstore_step(m.pushed(val).pushed(key)).0.pushed(val),
        ),
{
    let before = m.pushed(val).pushed(key);
    let after = Machine { storage: m.storage.insert(key@ as usize, val), ..m };
    assert(before.drop_top(2) =~= m);
    assert(sstore_step(before).0 =~= after);
    assert(after.pushed(key).replace_top(1, val) =~= after.pushed(val));
}

/// A load of a key under which nothing was stored gives zero.
pub proof fn lemma_sload_unset(m: Machine, key: Word)
    requires
        key@ <= usize::MAX,
        !m.storage.contains_key(key@ as usize),
    ensures
        sload_step(m.pushed(key)) == proceed(m.pushed(word_of(0))),
{
    assert(m.pushed(key).replace_top(1, word_of(0)) =~= m.pushed(word_of(0)));
}

/// A key that does not fit the machine word is served by neither handler:
/// both fail with `OutOfRange` and leave the machine as it was.
pub proof fn lemma_key_out_of_range(m: Machine, key: Word, val: Word)
    requires
        key@ > usize::MAX,
    ensures
        sstore_step(m.pushed(val).pushed(key)) == fail(
            m.pushed(val).pushed(key),
            EvmError::OutOfRange,
        ),
        sload_step(m.pushed(key)) == fail(m.pushed(key), EvmError::OutOfRange),
{
}

/// 0x54: pops a key, pushes the value stored under it, or zero.
pub fn sload(evm: &mut EVM, _data: &ExecutionData) -> (r: Result<NextAction, EvmError>)
    ensures
        (final(evm)@, r) == sload_step(old(evm)@),
{
    if evm.stack.len() < 1 {
        return Err(EvmError::StackUnderflow);
    }
    let key: usize = match evm.peek(0).to_usize() {
        Some(k) => k,
        None => {
            return Err(EvmError::OutOfRange);
        },
    };
    let value = match evm.storage.get(&key) {
        Some(v) => *v,
        None => Word::from_u64(0),
    };
    evm.replace_top(1, value);
    Ok(NextAction::Continue)
}

/// 0x55: pops a key and a value, stores the value under the key.
pub fn sstore(evm: &mut EVM, _data: &ExecutionData) -> (r: Result<NextAction, EvmError>)
    ensures
        (final(evm)@, r) == sstore_step(old(evm)@),
{
    if evm.stack.len() < 2 {
        return Err(EvmError::StackUnderflow);
    }
    let key: usize = match evm.peek(0).to_usize() {
        Some(k) => k,
        None => {
            return Err(EvmError::OutOfRange);
        },
    };
    let val = evm.peek(1);
    evm.drop_top(2);
    evm.storage.insert(key, val);
    assert(evm@ =~= sstore_step(old(evm)@).0);
    Ok(NextAction::Continue)
}

/// No handler of this family changes the jump destinations, shrinks the
/// logical size of memory or leaves it off a multiple of 32.
pub proof fn lemma_frame(m: Machine)
    ensures
        keeps_frame(m, sload_step(m)),
        keeps_frame(m, sstore_step(m)),
{
}

} // verus!
