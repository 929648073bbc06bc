//! Reading the execution context.  What the context lacks reads as zero;
//! text that is not hexadecimal is a defect.

use vstd::prelude::*;
use vstd::string::StringExecFns;
use crate::evm::{EVM, Machine, Step, fail, proceed};
use crate::text::{decode, hex_bytes, hex_number, lower_hex};
use crate::utils::types::{AccountState, EvmError, ExecutionData, NextAction};
use crate::word::{Word, word_of};

verus! {

/// The number that a field spells; zero for a field that is absent.
pub open spec fn field_value(field: Option<String>) -> Option<nat> {
    match field {
        Some(text) => hex_number(text@),
        None => Some(0),
    }
}

/// The bytes that a field spells; none for a field that is absent.
pub open spec fn field_bytes(field: Option<String>) -> Option<Seq<u8>> {
    match field {
        Some(text) => hex_bytes(text@),
        None => Some(Seq::empty()),
    }
}

/// A handler that replaces the top `k` values of the stack by the number
/// that a field of the context spells.
pub open spec fn field_step(m: Machine, k: nat, field: Option<String>) -> Step {
    if m.stack.len() < k {
        fail(m, EvmError::StackUnderflow)
    } else {
        match field_value(field) {
            Some(n) => proceed(m.replace_top(k, word_of(n))),
            None => fail(m, EvmError::MalformedField),
        }
    }
}

/// The call data of the transaction, as bytes.
pub open spec fn call_data(data: ExecutionData) -> Option<Seq<u8>> {
    match *data.tx {
        Some(tx) => field_bytes(tx.data),
        None => Some(Seq::empty()),
    }
}

/// The key of an address in the state: `0x` and its lower-case digits.
pub open spec fn address_text(address: Word) -> Seq<char> {
    seq!['0', 'x'] + lower_hex(address@)
}

/// What the state knows of the account at `address`.
pub open spec fn account(data: ExecutionData, address: Seq<char>) -> Option<AccountState> {
    match *data.state {
        Some(state) => if state@.contains_key(address) {
            Some(state@[address])
        } else {
            None
        },
        None => None,
    }
}

/// The balance field of an account; absent where the account is.
pub open spec fn balance_of(account: Option<AccountState>) -> Option<String> {
    match account {
        Some(a) => a.balance,
        None => None,
    }
}

/// The code field of an account; absent where the account is, or where it
/// has no code.
pub open spec fn code_of(account: Option<AccountState>) -> Option<String> {
    match account {
        Some(a) => match a.code {
            Some(code) => Some(code.bin),
            None => None,
        },
        None => None,
    }
}

/// Replaces the top `k` values of the stack by the number that `field`
/// spells, or by zero where the field is absent.
pub fn read_field(evm: &mut EVM, k: usize, field: &Option<String>) -> (r: Result<
    NextAction,
    EvmError,
>)
    ensures
        (final(evm)@, r) == field_step(old(evm)@, k as nat, *field),
{
    if evm.stack.len() < k {
        return Err(EvmError::StackUnderflow);
    }
    let val = match field {
        Some(text) => match Word::from_hex(text.as_str()) {
            Some(w) => w,
            None => {
                return Err(EvmError::MalformedField);
            },
        },
        None => Word::from_u64(0),
    };
    evm.replace_top(k, val);
    Ok(NextAction::Continue)
}

/// The bytes that `field` spells, or none where the field is absent.
pub fn read_bytes_field(field: &Option<String>) -> (r: Option<Vec<u8>>)
    ensures
        match r {
            Some(v) => field_bytes(*field) == Some(v@),
            None => field_bytes(*field).is_none(),
        },
{
    match field {
        Some(text) => decode(text.as_str()),
        None => Some(Vec::new()),
    }
}

/// The call data of the transaction, as bytes.
pub fn read_call_data(data: &ExecutionData) -> (r: Option<Vec<u8>>)
    ensures
        match r {
            Some(v) => call_data(*data) == Some(v@),
            None => call_data(*data).is_none(),
        },
{
    match data.tx {
        Some(tx) => read_bytes_field(&tx.data),
        None => Some(Vec::new()),
    }
}

/// The key of `address` in the state.
pub fn address_key(address: &Word) -> (r: String)
    ensures
        r@ == address_text(*address),
{
    proof {
        reveal_strlit("0x");
    }
    let digits = address.to_hex();
    let key = String::from_str("0x").concat(digits.as_str());
    assert(key@ =~= address_text(*address));
    key
}

/// What the state knows of the account at `address`.
pub fn find_account<'a>(data: &ExecutionData<'a>, address: &str) -> (r: Option<&'a AccountState>)
    ensures
        match r {
            Some(a) => account(*data, address@) == Some(*a),
            None => account(*data, address@).is_none(),
        },
{
    match data.state {
        Some(state) => state.get(address),
        None => None,
    }
}

} // verus!
