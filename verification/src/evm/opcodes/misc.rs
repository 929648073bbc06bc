//! Shifts, byte extraction, hashing, the program's own code, and the
//! instructions that end a run.

use vstd::prelude::*;
use crate::evm::{
    EVM, MEMORY_LIMIT, Machine, Step, binary, fail, halt, keeps_frame, nullary, proceed, read_bytes,
};
use crate::evm::utils::{memory_range, padded, touch_range, update_msize};
use crate::keccak::{keccak256, keccak256_digest};
use crate::utils::types::{EvmError, ExecutionData, NextAction};
use crate::word::{
    Word, be_value, byte_of, modulus, sar_words, shl_words, shr_words, word_of,
};

verus! {

/// Ends the run with success.
pub open spec fn stop_step(m: Machine) -> Step {
    halt(m, 0)
}

/// The second value shifted left by the top.
pub open spec fn shl_step(m: Machine) -> Step {
    binary(m, shl_words(m.top(1), m.top(0)))
}

/// The second value shifted right by the top.
pub open spec fn shr_step(m: Machine) -> Step {
    binary(m, shr_words(m.top(1), m.top(0)))
}

/// The second value shifted right by the top, keeping its sign.
pub open spec fn sar_step(m: Machine) -> Step {
    binary(m, sar_words(m.top(1), m.top(0)))
}

/// The byte of the second value at the offset on top.
pub open spec fn byte_step(m: Machine) -> Step {
    binary(m, byte_of(m.top(0), m.top(1)))
}

/// The machine after the hash of the range from the top to the second value
/// came back as `digest`.
pub open spec fn sha3_with(m: Machine, digest: Seq<u8>) -> Step {
    proceed(m.replace_top(2, word_of(be_value(digest))).touch(m.top(1)@))
}

/// Replaces the start and the end of a range of memory by the Keccak-256
/// hash of its bytes, and grows the logical size to cover the end.
pub open spec fn sha3_step(m: Machine) -> Step {
    if m.stack.len() < 2 {
        fail(m, EvmError::StackUnderflow)
    } else if m.top(0)@ > m.top(1)@ || m.top(1)@ > MEMORY_LIMIT {
        fail(m, EvmError::OutOfRange)
    } else {
        sha3_with(
            m,
            keccak256_digest(
                read_bytes(m.memory, m.top(0)@, (m.top(1)@ - m.top(0)@) as nat),
            ),
        )
    }
}

/// Pushes the largest word: gas is not metered.
pub open spec fn gas_step(m: Machine) -> Step {
    nullary(m, word_of((modulus() - 1) as nat))
}

/// Ends the run with failure.
pub open spec fn invalid_step(m: Machine) -> Step {
    halt(m, 1)
}

/// Pushes the length of the program.
pub open spec fn codesize_step(m: Machine, code: Seq<u8>) -> Step {
    nullary(m, word_of(code.len()))
}

/// Copies `source`, from the offset that the second value names and with
/// zeros past its end, into memory at the offset on top; the third value
/// is the number of bytes.
pub open spec fn copy_step(m: Machine, source: Seq<u8>) -> Step {
    if m.stack.len() < 3 {
        fail(m, EvmError::StackUnderflow)
    } else if m.top(0)@ + m.top(2)@ > MEMORY_LIMIT {
        fail(m, EvmError::OutOfRange)
    } else {
        let dest = m.top(0)@;
        let size = m.top(2)@;
        proceed(
            m.drop_top(3).written(dest, read_bytes(source, m.top(1)@, size)).touch_range(
                dest,
                size,
            ),
        )
    }
}

/// Copies a part of the program into memory.
pub open spec fn codecopy_step(m: Machine, code: Seq<u8>) -> Step {
    copy_step(m, code)
}

/// 0x00: ends the run with success.
pub fn stop(_evm: &mut EVM, _data: &ExecutionData) -> (r: Result<NextAction, EvmError>)
    ensures
        (final(_evm)@, r) == stop_step(old(_evm)@),
{
    Ok(NextAction::Exit(0))
}

/// 0x1b: pops a shift and a value, pushes the value shifted left.
pub fn shl(evm: &mut EVM, _data: &ExecutionData) -> (r: Result<NextAction, EvmError>)
    ensures
        (final(evm)@, r) == shl_step(old(evm)@),
{
    if evm.stack.len() < 2 {
        return Err(EvmError::StackUnderflow);
    }
    let shift = evm.peek(0);
    let val = evm.peek(1);
    evm.replace_top(2, val.shl(shift));
    Ok(NextAction::Continue)
}

/// 0x1c: pops a shift and a value, pushes the value shifted right.
pub fn shr(evm: &mut EVM, _data: &ExecutionData) -> (r: Result<NextAction, EvmError>)
    ensures
        (final(evm)@, r) == shr_step(old(evm)@),
{
    if evm.stack.len() < 2 {
        return Err(EvmError::StackUnderflow);
    }
    let shift = evm.peek(0);
    let val = evm.peek(1);
    evm.replace_top(2, val.shr(shift));
    Ok(NextAction::Continue)
}

/// 0x1d: pops a shift and a value, pushes the value shifted right with its
/// sign kept.  A negative value is negated, shifted and negated again, so
/// what is shifted out rounds towards zero.
pub fn sar(evm: &mut EVM, _data: &ExecutionData) -> (r: Result<NextAction, EvmError>)
    ensures
        (final(evm)@, r) == sar_step(old(evm)@),
{
    if evm.stack.len() < 2 {
        return Err(EvmError::StackUnderflow);
    }
    let shift = evm.peek(0);
    let val = evm.peek(1);
    if val.is_negative() {
        let result = val.wrapping_neg().shr(shift).wrapping_neg();
        evm.replace_top(2, result);
    } else {
        evm.replace_top(2, val.shr(shift));
    }
    Ok(NextAction::Continue)
}

/// 0x1a: pops an offset and a value, pushes the byte of the value at that
/// offset from its most significant end, or zero for an offset of 32 or
/// more.
pub fn byte(evm: &mut EVM, _data: &ExecutionData) -> (r: Result<NextAction, EvmError>)
    ensures
        (final(evm)@, r) == byte_step(old(evm)@),
{
    if evm.stack.len() < 2 {
        return Err(EvmError::StackUnderflow);
    }
    let offset = evm.peek(0);
    let val = evm.peek(1);
    let result = match offset.to_usize() {
        Some(o) => if o >= 32 {
            Word::from_u64(0)
        } else {
            Word::from_u64(val.byte(31 - o) as u64)
        },
        None => Word::from_u64(0),
    };
    evm.replace_top(2, result);
    Ok(NextAction::Continue)
}

/// Finishes a hash: puts `digest`, read as a word, in place of the two
/// offsets on the stack, and grows the logical size of memory to cover the
/// end of the range.
pub fn push_digest(evm: &mut EVM, digest: &[u8]) -> (r: Result<NextAction, EvmError>)
    requires
        old(evm).stack@.len() >= 2,
        old(evm)@.top(1)@ <= MEMORY_LIMIT,
        digest@.len() <= 32,
    ensures
        (final(evm)@, r) == sha3_with(old(evm)@, digest@),
{
    let ending_offset = match evm.peek(1).to_usize() {
        Some(e) => e,
        None => 0,
    };
    let val = Word::from_be_bytes(digest);
    evm.replace_top(2, val);
    update_msize(evm, ending_offset);
    Ok(NextAction::Continue)
}

/// 0x20: pops the start and the end of a range of memory, pushes the
/// Keccak-256 hash of its bytes.
pub fn sha3(evm: &mut EVM, _data: &ExecutionData) -> (r: Result<NextAction, EvmError>)
    ensures
        (final(evm)@, r) == sha3_step(old(evm)@),
{
    if evm.stack.len() < 2 {
        return Err(EvmError::StackUnderflow);
    }
    let range = match (evm.peek(0).to_usize(), evm.peek(1).to_usize()) {
        (Some(start), Some(end)) => if start <= end && end <= MEMORY_LIMIT {
            Some((start, end))
        } else {
            None
        },
        _ => None,
    };
    match range {
        Some((starting_offset, ending_offset)) => {
            let bytes = evm.load(starting_offset, ending_offset - starting_offset);
            let hash = keccak256(bytes.as_slice());
            push_digest(evm, hash.as_slice())
        },
        None => Err(EvmError::OutOfRange),
    }
}

/// 0x5a: pushes the largest word, since gas is not metered.
pub fn gas(evm: &mut EVM, _data: &ExecutionData) -> (r: Result<NextAction, EvmError>)
    ensures
        (final(evm)@, r) == gas_step(old(evm)@),
{
    evm.push(Word::max_value());
    Ok(NextAction::Continue)
}

/// 0xfd and 0xfe: ends the run with failure.
pub fn invalid(_evm: &mut EVM, _data: &ExecutionData) -> (r: Result<NextAction, EvmError>)
    ensures
        (final(_evm)@, r) == invalid_step(old(_evm)@),
{
    Ok(NextAction::Exit(1))
}

/// Pops a destination in memory, an offset into `source` and a size, and
/// copies that many bytes of `source` into memory; past the end of `source`
/// the bytes are zero.
pub fn copy_to_memory(evm: &mut EVM, source: &[u8]) -> (r: Result<NextAction, EvmError>)
    ensures
        (final(evm)@, r) == copy_step(old(evm)@, source@),
{
    if evm.stack.len() < 3 {
        return Err(EvmError::StackUnderflow);
    }
    let (dest_offset, byte_size) = match memory_range(&evm.peek(0), &evm.peek(2)) {
        Some(range) => range,
        None => {
            return Err(EvmError::OutOfRange);
        },
    };
    let offset = evm.peek(1);
    let bytes = padded(source, &offset, byte_size);
    evm.drop_top(3);
    evm.store(dest_offset, bytes.as_slice());
    touch_range(evm, dest_offset, byte_size);
    Ok(NextAction::Continue)
}

/// 0x38: pushes the length of the program in bytes.
pub fn codesize(evm: &mut EVM, data: &ExecutionData) -> (r: Result<NextAction, EvmError>)
    ensures
        (final(evm)@, r) == codesize_step(old(evm)@, data.bytecode@),
{
    evm.push(Word::from_usize(data.bytecode.len()));
    Ok(NextAction::Continue)
}

/// 0x39: pops a destination in memory, an offset into the program and a
/// size, and copies that part of the program into memory.
pub fn codecopy(evm: &mut EVM, data: &ExecutionData) -> (r: Result<NextAction, EvmError>)
    ensures
        (final(evm)@, r) == codecopy_step(old(evm)@, data.bytecode@),
{
    copy_to_memory(evm, data.bytecode.as_slice())
}

/// No handler of this family changes the jump destinations, shrinks the
/// logical size of memory or leaves it off a multiple of 32.
pub proof fn lemma_frame(m: Machine, code: Seq<u8>)
    ensures
        keeps_frame(m, stop_step(m)),
        keeps_frame(m, shl_step(m)),
        keeps_frame(m, shr_step(m)),
        keeps_frame(m, sar_step(m)),
        keeps_frame(m, byte_step(m)),
        keeps_frame(m, sha3_step(m)),
        keeps_frame(m, gas_step(m)),
        keeps_frame(m, invalid_step(m)),
        keeps_frame(m, codesize_step(m, code)),
        keeps_frame(m, codecopy_step(m, code)),
        forall|source: Seq<u8>| #[trigger] keeps_frame(m, copy_step(m, source)),
{
}

} // verus!
