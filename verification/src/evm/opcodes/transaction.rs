//! The fields of the transaction.

use vstd::prelude::*;
use crate::evm::{EVM, Machine, Step, fail, keeps_frame, nullary, proceed, read_bytes};
use crate::evm::context::{call_data, field_step, read_call_data, read_field};
use crate::evm::opcodes::misc::{copy_step, copy_to_memory};
use crate::evm::utils::padded;
use crate::utils::types::{EvmError, ExecutionData, NextAction};
use crate::word::{Word, be_value, word_of};

verus! {

/// The recipient field of the transaction.
pub open spec fn tx_to(data: ExecutionData) -> Option<String> {
    match *data.tx {
        Some(tx) => tx.to,
        None => None,
    }
}

/// The origin field of the transaction.
pub open spec fn tx_origin(data: ExecutionData) -> Option<String> {
    match *data.tx {
        Some(tx) => tx.origin,
        None => None,
    }
}

/// The sender field of the transaction.
pub open spec fn tx_from(data: ExecutionData) -> Option<String> {
    match *data.tx {
        Some(tx) => tx.from,
        None => None,
    }
}

/// The value field of the transaction.
pub open spec fn tx_value(data: ExecutionData) -> Option<String> {
    match *data.tx {
        Some(tx) => tx.value,
        None => None,
    }
}

/// The gas price field of the transaction.
pub open spec fn tx_gasprice(data: ExecutionData) -> Option<String> {
    match *data.tx {
        Some(tx) => tx.gasprice,
        None => None,
    }
}

/// Pushes the recipient of the transaction.
pub open spec fn address_step(m: Machine, data: ExecutionData) -> Step {
    field_step(m, 0, tx_to(data))
}

/// Pushes the origin of the transaction.
pub open spec fn origin_step(m: Machine, data: ExecutionData) -> Step {
    field_step(m, 0, tx_origin(data))
}

/// Pushes the sender of the transaction.
pub open spec fn caller_step(m: Machine, data: ExecutionData) -> Step {
    field_step(m, 0, tx_from(data))
}

/// Pushes the value of the transaction.
pub open spec fn callvalue_step(m: Machine, data: ExecutionData) -> Step {
    field_step(m, 0, tx_value(data))
}

/// Pushes the gas price of the transaction.
pub open spec fn gasprice_step(m: Machine, data: ExecutionData) -> Step {
    field_step(m, 0, tx_gasprice(data))
}

/// Replaces the offset on top of the stack by the 32 bytes of call data
/// from there on, with zeros past its end.
pub open spec fn calldataload_step(m: Machine, data: ExecutionData) -> Step {
    match call_data(data) {
        None => fail(m, EvmError::MalformedField),
        Some(bytes) => if m.stack.len() < 1 {
            fail(m, EvmError::StackUnderflow)
        } else {
            proceed(m.replace_top(1, word_of(be_value(read_bytes(bytes, m.top(0)@, 32)))))
        },
    }
}

/// Pushes the length of the call data.
pub open spec fn calldatasize_step(m: Machine, data: ExecutionData) -> Step {
    match call_data(data) {
        None => fail(m, EvmError::MalformedField),
        Some(bytes) => nullary(m, word_of(bytes.len())),
    }
}

/// Copies a part of the call data into memory.
pub open spec fn calldatacopy_step(m: Machine, data: ExecutionData) -> Step {
    match call_data(data) {
        None => fail(m, EvmError::MalformedField),
        Some(bytes) => copy_step(m, bytes),
    }
}

/// 0x30: pushes the recipient of the transaction.
pub fn address(evm: &mut EVM, data: &ExecutionData) -> (r: Result<NextAction, EvmError>)
    ensures
        (final(evm)@, r) == address_step(old(evm)@, *data),
{
    match data.tx {
        Some(tx) => read_field(evm, 0, &tx.to),
        None => read_field(evm, 0, &None),
    }
}

/// 0x32: pushes the origin of the transaction.
pub fn origin(evm: &mut EVM, data: &ExecutionData) -> (r: Result<NextAction, EvmError>)
    ensures
        (final(evm)@, r) == origin_step(old(evm)@, *data),
{
    match data.tx {
        Some(tx) => read_field(evm, 0, &tx.origin),
        None => read_field(evm, 0, &None),
    }
}

/// 0x33: pushes the sender of the transaction.
pub fn caller(evm: &mut EVM, data: &ExecutionData) -> (r: Result<NextAction, EvmError>)
    ensures
        (final(evm)@, r) == caller_step(old(evm)@, *data),
{
    match data.tx {
        Some(tx) => read_field(evm, 0, &tx.from),
        None => read_field(evm, 0, &None),
    }
}

/// 0x34: pushes the value of the transaction.
pub fn callvalue(evm: &mut EVM, data: &ExecutionData) -> (r: Result<NextAction, EvmError>)
    ensures
        (final(evm)@, r) == callvalue_step(old(evm)@, *data),
{
    match data.tx {
        Some(tx) => read_field(evm, 0, &tx.value),
        None => read_field(evm, 0, &None),
    }
}

/// 0x35: pops an offset, pushes the 32 bytes of call data from there on as
/// a big-endian word; past the end of the call data the bytes are zero.
pub fn calldataload(evm: &mut EVM, data: &ExecutionData) -> (r: Result<NextAction, EvmError>)
    ensures
        (final(evm)@, r) == calldataload_step(old(evm)@, *data),
{
    let bytes = match read_call_data(data) {
        Some(bytes) => bytes,
        None => {
            return Err(EvmError::MalformedField);
        },
    };
    if evm.stack.len() < 1 {
        return Err(EvmError::StackUnderflow);
    }
    let offset = evm.peek(0);
    let parsed_data = padded(bytes.as_slice(), &offset, 32);
    let val = Word::from_be_bytes(parsed_data.as_slice());
    evm.replace_top(1, val);
    Ok(NextAction::Continue)
}

/// 0x36: pushes the length of the call data in bytes.
pub fn calldatasize(evm: &mut EVM, data: &ExecutionData) -> (r: Result<NextAction, EvmError>)
    ensures
        (final(evm)@, r) == calldatasize_step(old(evm)@, *data),
{
    let bytes = match read_call_data(data) {
        Some(bytes) => bytes,
        None => {
            return Err(EvmError::MalformedField);
        },
    };
    evm.push(Word::from_usize(bytes.len()));
    Ok(NextAction::Continue)
}

/// 0x37: pops a destination in memory, an offset into the call data and a
/// size, and copies that part of the call data into memory.
pub fn calldatacopy(evm: &mut EVM, data: &ExecutionData) -> (r: Result<NextAction, EvmError>)
    ensures
        (final(evm)@, r) == calldatacopy_step(old(evm)@, *data),
{
    let bytes = match read_call_data(data) {
        Some(bytes) => bytes,
        None => {
            return Err(EvmError::MalformedField);
        },
    };
    copy_to_memory(evm, bytes.as_slice())
}

/// 0x3a: pushes the gas price of the transaction.
pub fn gasprice(evm: &mut EVM, data: &ExecutionData) -> (r: Result<NextAction, EvmError>)
    ensures
        (final(evm)@, r) == gasprice_step(old(evm)@, *data),
{
    match data.tx {
        Some(tx) => read_field(evm, 0, &tx.gasprice),
        None => read_field(evm, 0, &None),
    }
}

/// No handler of this family changes the jump destinations, shrinks the
/// logical size of memory or leaves it off a multiple of 32.
pub proof fn lemma_frame(m: Machine, data: ExecutionData)
    ensures
        keeps_frame(m, address_step(m, data)),
        keeps_frame(m, origin_step(m, data)),
        keeps_frame(m, caller_step(m, data)),
        keeps_frame(m, callvalue_step(m, data)),
        keeps_frame(m, gasprice_step(m, data)),
        keeps_frame(m, calldataload_step(m, data)),
        keeps_frame(m, calldatasize_step(m, data)),
        keeps_frame(m, calldatacopy_step(m, data)),
{
}

} // verus!
