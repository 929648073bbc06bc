//! The code of other accounts: its size, its bytes and its hash.

use vstd::prelude::*;
use crate::evm::{EVM, MEMORY_LIMIT, Machine, Step, fail, keeps_frame, proceed};
use crate::evm::context::{
    account, address_key, address_text, code_of, field_bytes, find_account,
};
use crate::evm::opcodes::misc::{copy_step, copy_to_memory};
use crate::evm::utils::memory_range;
use crate::keccak::{keccak256, keccak256_digest};
use crate::text::decode;
use crate::utils::types::{EvmError, ExecutionData, NextAction};
use crate::word::{Word, be_value, word_of};

verus! {

/// The code of the account whose address is on top of the stack, as text.
pub open spec fn ext_code(m: Machine, data: ExecutionData) -> Option<String> {
    code_of(account(data, address_text(m.top(0))))
}

/// Replaces the address on top of the stack by the length of its account's
/// code.
pub open spec fn extcodesize_step(m: Machine, data: ExecutionData) -> Step {
    if m.stack.len() < 1 {
        fail(m, EvmError::StackUnderflow)
    } else {
        match field_bytes(ext_code(m, data)) {
            Some(code) => proceed(m.replace_top(1, word_of(code.len()))),
            None => fail(m, EvmError::MalformedField),
        }
    }
}

/// Pops an address, then copies a part of its account's code into memory.
pub open spec fn extcodecopy_step(m: Machine, data: ExecutionData) -> Step {
    if m.stack.len() < 4 {
        fail(m, EvmError::StackUnderflow)
    } else {
        match field_bytes(ext_code(m, data)) {
            Some(code) => if m.top(1)@ + m.top(3)@ > MEMORY_LIMIT {
                fail(m, EvmError::OutOfRange)
            } else {
                copy_step(m.drop_top(1), code)
            },
            None => fail(m, EvmError::MalformedField),
        }
    }
}

/// The machine after the hash of the code came back as `digest`.
pub open spec fn extcodehash_with(m: Machine, digest: Seq<u8>) -> Step {
    proceed(m.replace_top(1, word_of(be_value(digest))))
}

/// Replaces the address on top of the stack by the Keccak-256 hash of its
/// account's code, or by zero where the state knows no code for it.
pub open spec fn extcodehash_step(m: Machine, data: ExecutionData) -> Step {
    if m.stack.len() < 1 {
        fail(m, EvmError::StackUnderflow)
    } else {
        match ext_code(m, data) {
            Some(text) => match field_bytes(Some(text)) {
                Some(code) => extcodehash_with(m, keccak256_digest(code)),
                None => fail(m, EvmError::MalformedField),
            },
            None => proceed(m.replace_top(1, word_of(0))),
        }
    }
}

/// The code field of the account at the address on top of the stack.
fn find_code<'a>(evm: &EVM, data: &ExecutionData<'a>) -> (r: Option<&'a String>)
    requires
        evm.stack@.len() >= 1,
    ensures
        match r {
            Some(text) => ext_code(evm@, *data) == Some(*text),
            None => ext_code(evm@, *data).is_none(),
        },
{
    let address = address_key(&evm.peek(0));
    match find_account(data, address.as_str()) {
        Some(account_state) => match &account_state.code {
            Some(code) => Some(&code.bin),
            None => None,
        },
        None => None,
    }
}

/// The bytes of the code of the account at the address on top of the stack.
fn read_code(evm: &EVM, data: &ExecutionData) -> (r: Option<Vec<u8>>)
    requires
        evm.stack@.len() >= 1,
    ensures
        match r {
            Some(v) => field_bytes(ext_code(evm@, *data)) == Some(v@),
            None => field_bytes(ext_code(evm@, *data)).is_none(),
        },
{
    match find_code(evm, data) {
        Some(text) => decode(text.as_str()),
        None => Some(Vec::new()),
    }
}

/// 0x3b: pops an address, pushes the length in bytes of its account's code.
pub fn extcodesize(evm: &mut EVM, data: &ExecutionData) -> (r: Result<NextAction, EvmError>)
    ensures
        (final(evm)@, r) == extcodesize_step(old(evm)@, *data),
{
    if evm.stack.len() < 1 {
        return Err(EvmError::StackUnderflow);
    }
    let code = match read_code(evm, data) {
        Some(code) => code,
        None => {
            return Err(EvmError::MalformedField);
        },
    };
    let size = Word::from_usize(code.len());
    evm.replace_top(1, size);
    Ok(NextAction::Continue)
}

/// 0x3c: pops an address, a destination in memory, an offset into the code
/// of the address's account and a size, and copies that part of the code
/// into memory; past the end of the code the bytes are zero.
pub fn extcodecopy(evm: &mut EVM, data: &ExecutionData) -> (r: Result<NextAction, EvmError>)
    ensures
        (final(evm)@, r) == extcodecopy_step(old(evm)@, *data),
{
    if evm.stack.len() < 4 {
        return Err(EvmError::StackUnderflow);
    }
    let code = match read_code(evm, data) {
        Some(code) => code,
        None => {
            return Err(EvmError::MalformedField);
        },
    };
    if memory_range(&evm.peek(1), &evm.peek(3)).is_none() {
        return Err(EvmError::OutOfRange);
    }
    evm.drop_top(1);
    copy_to_memory(evm, code.as_slice())
}

/// Finishes the hash of an account's code: puts `digest`, read as a word,
/// in place of the address on the stack.
pub fn push_code_digest(evm: &mut EVM, digest: &[u8]) -> (r: Result<NextAction, EvmError>)
    requires
        old(evm).stack@.len() >= 1,
        digest@.len() <= 32,
    ensures
        (final(evm)@, r) == extcodehash_with(old(evm)@, digest@),
{
    let val = Word::from_be_bytes(digest);
    evm.replace_top(1, val);
    Ok(NextAction::Continue)
}

/// 0x3f: pops an address, pushes the Keccak-256 hash of its account's code,
/// or zero where the state knows no code for it.
pub fn extcodehash(evm: &mut EVM, data: &ExecutionData) -> (r: Result<NextAction, EvmError>)
    ensures
        (final(evm)@, r) == extcodehash_step(old(evm)@, *data),
{
    if evm.stack.len() < 1 {
        return Err(EvmError::StackUnderflow);
    }
    match find_code(evm, data) {
        Some(text) => match decode(text.as_str()) {
            Some(code) => {
                let hash = keccak256(code.as_slice());
                push_code_digest(evm, hash.as_slice())
            },
            None => Err(EvmError::MalformedField),
        },
        None => {
            evm.replace_top(1, Word::from_u64(0));
            Ok(NextAction::Continue)
        },
    }
}

/// No handler of this family changes the jump destinations, shrinks the
/// logical size of memory or leaves it off a multiple of 32.
pub proof fn lemma_frame(m: Machine, data: ExecutionData)
    ensures
        keeps_frame(m, extcodesize_step(m, data)),
        keeps_frame(m, extcodecopy_step(m, data)),
        keeps_frame(m, extcodehash_step(m, data)),
{
}

} // verus!
