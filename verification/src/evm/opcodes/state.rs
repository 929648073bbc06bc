//! The balances of the accounts.

use vstd::prelude::*;
use crate::evm::{EVM, Machine, Step, keeps_frame};
use crate::evm::context::{
    account, address_key, address_text, balance_of, field_step, find_account, read_field,
};
use crate::utils::types::{EvmError, ExecutionData, NextAction};

verus! {

/// Replaces the address on top of the stack by the balance of its account.
pub open spec fn balance_step(m: Machine, data: ExecutionData) -> Step {
    field_step(m, 1, balance_of(account(data, address_text(m.top(0)))))
}

/// 0x31: pops an address, pushes the balance of its account, or zero where
/// the state does not know it.
pub fn balance(evm: &mut EVM, data: &ExecutionData) -> (r: Result<NextAction, EvmError>)
    ensures
        (final(evm)@, r) == balance_step(old(evm)@, *data),
{
    if evm.stack.len() < 1 {
        return Err(EvmError::StackUnderflow);
    }
    let address = evm.peek(0);
    let address_formatted = address_key(&address);
    let account_state = find_account(data, address_formatted.as_str());
    match account_state {
        Some(s) => read_field(evm, 1, &s.balance),
        None => read_field(evm, 1, &None),
    }
}

/// No handler of this family changes the jump destinations, shrinks the
/// logical size of memory or leaves it off a multiple of 32.
pub proof fn lemma_frame(m: Machine, data: ExecutionData)
    ensures
        keeps_frame(m, balance_step(m, data)),
{
}

} // verus!
