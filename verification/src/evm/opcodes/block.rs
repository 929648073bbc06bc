//! The fields of the block, and the balance of the running account.

use vstd::prelude::*;
use crate::evm::{EVM, Machine, Step, keeps_frame, proceed};
use crate::evm::context::{account, balance_of, field_step, find_account, read_field};
use crate::evm::opcodes::transaction::tx_to;
use crate::utils::types::{EvmError, ExecutionData, NextAction};

verus! {

/// The base fee field of the block.
pub open spec fn block_basefee(data: ExecutionData) -> Option<String> {
    match *data.block {
        Some(block) => block.basefee,
        None => None,
    }
}

/// The coinbase field of the block.
pub open spec fn block_coinbase(data: ExecutionData) -> Option<String> {
    match *data.block {
        Some(block) => block.coinbase,
        None => None,
    }
}

/// The timestamp field of the block.
pub open spec fn block_timestamp(data: ExecutionData) -> Option<String> {
    match *data.block {
        Some(block) => block.timestamp,
        None => None,
    }
}

/// The number field of the block.
pub open spec fn block_number(data: ExecutionData) -> Option<String> {
    match *data.block {
        Some(block) => block.number,
        None => None,
    }
}

/// The gas limit field of the block.
pub open spec fn block_gaslimit(data: ExecutionData) -> Option<String> {
    match *data.block {
        Some(block) => block.gaslimit,
        None => None,
    }
}

/// The difficulty field of the block.
pub open spec fn block_difficulty(data: ExecutionData) -> Option<String> {
    match *data.block {
        Some(block) => block.difficulty,
        None => None,
    }
}

/// The chain id field of the block.
pub open spec fn block_chainid(data: ExecutionData) -> Option<String> {
    match *data.block {
        Some(block) => block.chainid,
        None => None,
    }
}

/// Does nothing: block hashes are not kept.
pub open spec fn blockhash_step(m: Machine) -> Step {
    proceed(m)
}

/// Pushes the coinbase of the block.
pub open spec fn coinbase_step(m: Machine, data: ExecutionData) -> Step {
    field_step(m, 0, block_coinbase(data))
}

/// Pushes the timestamp of the block.
pub open spec fn timestamp_step(m: Machine, data: ExecutionData) -> Step {
    field_step(m, 0, block_timestamp(data))
}

/// Pushes the number of the block.
pub open spec fn number_step(m: Machine, data: ExecutionData) -> Step {
    field_step(m, 0, block_number(data))
}

/// Pushes the difficulty of the block.
pub open spec fn difficulty_step(m: Machine, data: ExecutionData) -> Step {
    field_step(m, 0, block_difficulty(data))
}

/// Pushes the gas limit of the block.
pub open spec fn gaslimit_step(m: Machine, data: ExecutionData) -> Step {
    field_step(m, 0, block_gaslimit(data))
}

/// Pushes the chain id.
pub open spec fn chain_step(m: Machine, data: ExecutionData) -> Step {
    field_step(m, 0, block_chainid(data))
}

/// The balance field of the account that runs the program: that of the
/// account which the state keeps under the recipient field as it is
/// written.  Absent where the context names no recipient.
pub open spec fn own_balance(data: ExecutionData) -> Option<String> {
    match tx_to(data) {
        Some(address) => balance_of(account(data, address@)),
        None => None,
    }
}

/// Pushes the balance of the recipient of the transaction.
pub open spec fn selfbalance_step(m: Machine, data: ExecutionData) -> Step {
    field_step(m, 0, own_balance(data))
}

/// Pushes the base fee of the block.
pub open spec fn basefee_step(m: Machine, data: ExecutionData) -> Step {
    field_step(m, 0, block_basefee(data))
}

/// 0x40: does nothing, since block hashes are not kept.
pub fn blockhash(_evm: &mut EVM, _data: &ExecutionData) -> (r: Result<NextAction, EvmError>)
    ensures
        (final(_evm)@, r) == blockhash_step(old(_evm)@),
{
    Ok(NextAction::Continue)
}

/// 0x41: pushes the coinbase of the block.
pub fn coinbase(evm: &mut EVM, data: &ExecutionData) -> (r: Result<NextAction, EvmError>)
    ensures
        (final(evm)@, r) == coinbase_step(old(evm)@, *data),
{
    match data.block {
        Some(block) => read_field(evm, 0, &block.coinbase),
        None => read_field(evm, 0, &None),
    }
}

/// 0x42: pushes the timestamp of the block.
pub fn timestamp(evm: &mut EVM, data: &ExecutionData) -> (r: Result<NextAction, EvmError>)
    ensures
        (final(evm)@, r) == timestamp_step(old(evm)@, *data),
{
    match data.block {
        Some(block) => read_field(evm, 0, &block.timestamp),
        None => read_field(evm, 0, &None),
    }
}

/// 0x43: pushes the number of the block.
pub fn number(evm: &mut EVM, data: &ExecutionData) -> (r: Result<NextAction, EvmError>)
    ensures
        (final(evm)@, r) == number_step(old(evm)@, *data),
{
    match data.block {
        Some(block) => read_field(evm, 0, &block.number),
        None => read_field(evm, 0, &None),
    }
}

/// 0x44: pushes the difficulty of the block.
pub fn difficulty(evm: &mut EVM, data: &ExecutionData) -> (r: Result<NextAction, EvmError>)
    ensures
        (final(evm)@, r) == difficulty_step(old(evm)@, *data),
{
    match data.block {
        Some(block) => read_field(evm, 0, &block.difficulty),
        None => read_field(evm, 0, &None),
    }
}

/// 0x45: pushes the gas limit of the block.
pub fn gaslimit(evm: &mut EVM, data: &ExecutionData) -> (r: Result<NextAction, EvmError>)
    ensures
        (final(evm)@, r) == gaslimit_step(old(evm)@, *data),
{
    match data.block {
        Some(block) => read_field(evm, 0, &block.gaslimit),
        None => read_field(evm, 0, &None),
    }
}

/// 0x46: pushes the chain id.
pub fn chain(evm: &mut EVM, data: &ExecutionData) -> (r: Result<NextAction, EvmError>)
    ensures
        (final(evm)@, r) == chain_step(old(evm)@, *data),
{
    match data.block {
        Some(block) => read_field(evm, 0, &block.chainid),
        None => read_field(evm, 0, &None),
    }
}

/// 0x47: pushes the balance of the account that runs the program, or zero
/// where the context names no recipient or the state does not know it.
pub fn selfbalance(evm: &mut EVM, data: &ExecutionData) -> (r: Result<NextAction, EvmError>)
    ensures
        (final(evm)@, r) == selfbalance_step(old(evm)@, *data),
{
    let address = match data.tx {
        Some(tx) => match &tx.to {
            Some(address) => address,
            None => {
                return read_field(evm, 0, &None);
            },
        },
        None => {
            return read_field(evm, 0, &None);
        },
    };
    match find_account(data, address.as_str()) {
        Some(account) => read_field(evm, 0, &account.balance),
        None => read_field(evm, 0, &None),
    }
}

/// 0x48: pushes the base fee of the block.
pub fn basefee(evm: &mut EVM, data: &ExecutionData) -> (r: Result<NextAction, EvmError>)
    ensures
        (final(evm)@, r) == basefee_step(old(evm)@, *data),
{
    match data.block {
        Some(block) => read_field(evm, 0, &block.basefee),
        None => read_field(evm, 0, &None),
    }
}

/// No handler of this family changes the jump destinations, shrinks the
/// logical size of memory or leaves it off a multiple of 32.
pub proof fn lemma_frame(m: Machine, data: ExecutionData)
    ensures
        keeps_frame(m, blockhash_step(m)),
        keeps_frame(m, coinbase_step(m, data)),
        keeps_frame(m, timestamp_step(m, data)),
        keeps_frame(m, number_step(m, data)),
        keeps_frame(m, difficulty_step(m, data)),
        keeps_frame(m, gaslimit_step(m, data)),
        keeps_frame(m, chain_step(m, data)),
        keeps_frame(m, selfbalance_step(m, data)),
        keeps_frame(m, basefee_step(m, data)),
{
}

} // verus!
