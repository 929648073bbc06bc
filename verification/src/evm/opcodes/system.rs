//! Returning data to the caller.

use vstd::prelude::*;
use crate::evm::{EVM, MEMORY_LIMIT, Machine, Step, fail, halt, keeps_frame, read_bytes};
use crate::evm::utils::{memory_range, touch_range};
use crate::utils::types::{EvmError, ExecutionData, NextAction};

verus! {

/// Copies the range of memory that the top two values name into the
/// returned data, and ends the run with success.
pub open spec fn return_data_step(m: Machine) -> Step {
    if m.stack.len() < 2 {
        fail(m, EvmError::StackUnderflow)
    } else if m.top(0)@ + m.top(1)@ > MEMORY_LIMIT {
        fail(m, EvmError::OutOfRange)
    } else {
        let offset = m.top(0)@;
        let size = m.top(1)@;
        halt(
            Machine {
                result: read_bytes(m.memory, offset, size),
                ..m.drop_top(2).touch_range(offset, size)
            },
            0,
        )
    }
}

/// 0xf3: pops an offset and a size, returns that range of memory, and ends
/// the run with success.
pub fn return_data(evm: &mut EVM, _data: &ExecutionData) -> (r: Result<NextAction, EvmError>)
    ensures
        (final(evm)@, r) == return_data_step(old(evm)@),
{
    if evm.stack.len() < 2 {
        return Err(EvmError::StackUnderflow);
    }
    let (offset, size) = match memory_range(&evm.peek(0), &evm.peek(1)) {
        Some(range) => range,
        None => {
            return Err(EvmError::OutOfRange);
        },
    };
    let bytes = evm.load(offset, size);
    evm.drop_top(2);
    touch_range(evm, offset, size);
    evm.result = bytes;
    assert(evm@ =~= return_data_step(old(evm)@).0);
    Ok(NextAction::Exit(0))
}

/// No handler of this family changes the jump destinations, shrinks the
/// logical size of memory or leaves it off a multiple of 32.
pub proof fn lemma_frame(m: Machine)
    ensures
        keeps_frame(m, return_data_step(m)),
{
}

} // verus!
