//! What the handlers share: sign helpers, memory accounting, the scan for
//! jump destinations, and the dispatch table.

use vstd::prelude::*;
use vstd::slice::slice_subrange;
use std::collections::HashMap;
use crate::evm::{
    EVM, MEMORY_LIMIT, Machine, Step, ascending, fail, keeps_frame, offsets, proceed, read_byte,
    read_bytes,
};
use crate::evm::constants::JUMPDEST;
use crate::utils::types::{
    EvmError, ExecutionData, Logs, LogsView, NextAction, Opcode, Opcodes,
};
use crate::word::{Word, be_value, negate, negative, word_of};

verus! {

broadcast use vstd::std_specs::hash::group_hash_axioms;

/// Flips the sign of a number in two's complement: 2^256 minus the number,
/// and zero for zero.
pub fn flip_sign(num: &mut Word)
    ensures
        *final(num) == negate(*old(num)),
{
    *num = num.wrapping_neg();
}

/// Whether the number is negative in two's complement: whether its most
/// significant bit is set.
pub fn is_negative(num: &Word) -> (r: bool)
    ensures
        r == negative(*num),
{
    num.is_negative()
}

/// Grows the logical size of memory to cover the byte at `last_byte`: to
/// the next multiple of 32 above it.  The size never shrinks.
pub fn update_msize(evm: &mut EVM, last_byte: usize)
    requires
        last_byte / 32 + 1 <= usize::MAX / 32,
    ensures
        final(evm)@ == old(evm)@.touch(last_byte as nat),
        final(evm).msize >= old(evm).msize,
{
    let word_address: usize = last_byte / 32;
    let new_msize: usize = (word_address + 1) * 32;
    if new_msize > evm.msize {
        evm.msize = new_msize;
    }
    assert(evm@ =~= old(evm)@.touch(last_byte as nat));
}

/// Grows the logical size of memory to cover the `size` bytes from `offset`
/// on; a range of no bytes grows nothing.
pub fn touch_range(evm: &mut EVM, offset: usize, size: usize)
    requires
        offset + size <= MEMORY_LIMIT,
    ensures
        final(evm)@ == old(evm)@.touch_range(offset as nat, size as nat),
{
    if size > 0 {
        update_msize(evm, offset + size - 1);
    }
}

/// The range of memory that starts at `offset` and is `size` bytes long,
/// where the machine can address all of it.
pub fn memory_range(offset: &Word, size: &Word) -> (r: Option<(usize, usize)>)
    ensures
        match r {
            Some((o, s)) => o == offset@ && s == size@ && offset@ + size@ <= MEMORY_LIMIT,
            None => offset@ + size@ > MEMORY_LIMIT,
        },
{
    match (offset.to_usize(), size.to_usize()) {
        (Some(o), Some(s)) => {
            if o <= MEMORY_LIMIT && s <= MEMORY_LIMIT - o {
                Some((o, s))
            } else {
                None
            }
        },
        _ => None,
    }
}

/// The `n` bytes of `source` from `offset` on, with zeros past its end.
pub fn padded(source: &[u8], offset: &Word, n: usize) -> (r: Vec<u8>)
    requires
        n <= MEMORY_LIMIT,
    ensures
        r@ == read_bytes(source@, offset@, n as nat),
{
    let start: usize = match offset.to_usize() {
        Some(o) => if o < source.len() {
            o
        } else {
            source.len()
        },
        None => source.len(),
    };
    let mut out: Vec<u8> = Vec::new();
    let mut k: usize = 0;
    while k < n
        invariant
            k <= n,
            start <= source@.len(),
            start == offset@ || (start == source@.len() && offset@ >= source@.len()),
            out@.len() == k,
            forall|j: int| 0 <= j < k ==> out@[j] == read_byte(source@, offset@ + j),
        decreases n - k,
    {
        let b: u8 = if k < source.len() - start {
            source[start + k]
        } else {
            0
        };
        out.push(b);
        k += 1;
    }
    assert(out@ =~= read_bytes(source@, offset@, n as nat));
    out
}

/// Pushes the next `n` bytes of the program, read as one big-endian number,
/// and moves the program counter past them.
pub open spec fn push_n_step(m: Machine, code: Seq<u8>, n: nat) -> Step {
    if m.pc + n > code.len() {
        fail(m, EvmError::MissingData)
    } else {
        proceed(
            m.pushed(word_of(be_value(code.subrange(m.pc as int, (m.pc + n) as int)))).at(m.pc + n),
        )
    }
}

/// Pushes a copy of the `n`th value from the top.
pub open spec fn dup_n_step(m: Machine, n: nat) -> Step {
    if m.stack.len() < n {
        fail(m, EvmError::StackUnderflow)
    } else {
        proceed(m.pushed(m.top((n - 1) as nat)))
    }
}

/// Exchanges the top of the stack with the value `n` places below it.
pub open spec fn swap_n_step(m: Machine, n: nat) -> Step {
    if m.stack.len() < n + 1 {
        fail(m, EvmError::StackUnderflow)
    } else {
        proceed(
            Machine {
                stack: m.stack.update(m.stack.len() - 1, m.top(n)).update(
                    m.stack.len() - 1 - n,
                    m.top(0),
                ),
                ..m
            },
        )
    }
}

/// The recipient of the transaction; empty where the context names none.
pub open spec fn recipient(data: ExecutionData) -> Seq<char> {
    match *data.tx {
        Some(tx) => match tx.to {
            Some(to) => to@,
            None => Seq::empty(),
        },
        None => Seq::empty(),
    }
}

/// Records a log: the recipient's address, the range of memory that the top
/// two values name, and the `n` values below them as topics.  The logical
/// size of memory grows to cover the range.
pub open spec fn log_n_step(m: Machine, data: ExecutionData, n: nat) -> Step {
    if m.stack.len() < 2 + n {
        fail(m, EvmError::StackUnderflow)
    } else if m.top(0)@ + m.top(1)@ > MEMORY_LIMIT {
        fail(m, EvmError::OutOfRange)
    } else {
        let offset = m.top(0)@;
        let size = m.top(1)@;
        proceed(
            Machine {
                logs: LogsView {
                    address: recipient(data),
                    data: read_bytes(m.memory, offset, size),
                    topics: Seq::new(n, |i: int| m.top((2 + i) as nat)),
                },
                ..m.drop_top(2 + n).touch_range(offset, size)
            },
        )
    }
}

/// No handler of the four families changes the jump destinations, shrinks
/// the logical size of memory or leaves it off a multiple of 32.
pub proof fn lemma_families_frame(m: Machine, data: ExecutionData)
    ensures
        forall|n: nat| #[trigger] keeps_frame(m, push_n_step(m, data.bytecode@, n)),
        forall|n: nat| #[trigger] keeps_frame(m, dup_n_step(m, n)),
        forall|n: nat| #[trigger] keeps_frame(m, swap_n_step(m, n)),
        forall|n: nat| #[trigger] keeps_frame(m, log_n_step(m, data, n)),
{
}

/// Reads the next `n` bytes of the program and pushes them as one word.
/// Fails with `MissingData` where the program ends before them.
pub fn push_n(evm: &mut EVM, n: u8, data: &ExecutionData) -> (r: Result<NextAction, EvmError>)
    requires
        n <= 32,
    ensures
        (final(evm)@, r) == push_n_step(old(evm)@, data.bytecode@, n as nat),
{
    let len: usize = data.bytecode.len();
    let count: usize = n as usize;
    if evm.pc > len || count > len - evm.pc {
        return Err(EvmError::MissingData);
    }
    let bytes = slice_subrange(data.bytecode.as_slice(), evm.pc, evm.pc + count);
    let num = Word::from_be_bytes(bytes);
    evm.push(num);
    evm.pc += count;
    assert(evm@ =~= push_n_step(old(evm)@, data.bytecode@, n as nat).0);
    Ok(NextAction::Continue)
}

/// Duplicates the `n`th value from the top onto the top.  Fails with
/// `StackUnderflow` where the stack holds fewer than `n` values.
pub fn dup_n(evm: &mut EVM, n: u8) -> (r: Result<NextAction, EvmError>)
    requires
        1 <= n <= 16,
    ensures
        (final(evm)@, r) == dup_n_step(old(evm)@, n as nat),
{
    let depth: usize = n as usize;
    if evm.stack.len() < depth {
        return Err(EvmError::StackUnderflow);
    }
    let val_to_dup = evm.peek(depth - 1);
    evm.push(val_to_dup);
    Ok(NextAction::Continue)
}

/// Exchanges the top with the value `n` places below it.  Fails with
/// `StackUnderflow` where the stack holds fewer than `n + 1` values.
pub fn swap_n(evm: &mut EVM, n: u8) -> (r: Result<NextAction, EvmError>)
    requires
        1 <= n <= 16,
    ensures
        (final(evm)@, r) == swap_n_step(old(evm)@, n as nat),
{
    let depth: usize = n as usize;
    let len: usize = evm.stack.len();
    if len < depth + 1 {
        return Err(EvmError::StackUnderflow);
    }
    let first_val = evm.peek(0);
    let last_val = evm.peek(depth);
    evm.stack[len - 1] = last_val;
    evm.stack[len - 1 - depth] = first_val;
    assert(evm@ =~= swap_n_step(old(evm)@, n as nat).0);
    Ok(NextAction::Continue)
}

/// Records a log with `n` topics.  Pops an offset and a size, copies that
/// range of memory as the payload, pops the topics, and keeps the record in
/// place of the one before.
pub fn log_n(evm: &mut EVM, data: &ExecutionData, n: u8) -> (r: Result<NextAction, EvmError>)
    requires
        n <= 4,
    ensures
        (final(evm)@, r) == log_n_step(old(evm)@, *data, n as nat),
{
    let count: usize = n as usize;
    if evm.stack.len() < 2 + count {
        return Err(EvmError::StackUnderflow);
    }
    let (offset, size) = match memory_range(&evm.peek(0), &evm.peek(1)) {
        Some(range) => range,
        None => {
            return Err(EvmError::OutOfRange);
        },
    };
    let address: String = match data.tx {
        Some(tx) => match &tx.to {
            Some(to) => to.clone(),
            None => String::new(),
        },
        None => String::new(),
    };
    let payload = evm.load(offset, size);

    let mut topics: Vec<Word> = Vec::new();
    let mut counter: usize = 0;
    while counter < count
        invariant
            counter <= count <= 4,
            evm.stack@.len() >= 2 + count,
            topics@.len() == counter,
            forall|i: int| 0 <= i < counter ==> topics@[i] == evm@.top((2 + i) as nat),
        decreases count - counter,
    {
        topics.push(evm.peek(2 + counter));
        counter += 1;
    }
    evm.drop_top(2 + count);
    touch_range(evm, offset, size);
    evm.logs = Logs { address, data: payload, topics };
    assert(evm@.logs.topics =~= log_n_step(old(evm)@, *data, n as nat).0.logs.topics);
    assert(evm@ =~= log_n_step(old(evm)@, *data, n as nat).0);
    Ok(NextAction::Continue)
}

/// How many bytes of immediate data follow the opcode: 1 to 32 for the
/// pushes, none for the rest.
pub open spec fn immediate_len(opcode: u8) -> nat {
    if 0x60 <= opcode <= 0x7f {
        (opcode - 0x60 + 1) as nat
    } else {
        0
    }
}

/// The jump destinations at or after `pc`, where `pc` is the offset of an
/// instruction: the markers that are instructions themselves, and not
/// immediate data of a push.
pub open spec fn jumpdests_from(code: Seq<u8>, pc: nat) -> Seq<nat>
    decreases
            if pc < code.len() {
                code.len() - pc
            } else {
                0
            },
{
    if pc >= code.len() {
        Seq::empty()
    } else if code[pc as int] == JUMPDEST {
        seq![pc] + jumpdests_from(code, pc + 1)
    } else {
        jumpdests_from(code, pc + 1 + immediate_len(code[pc as int]))
    }
}

/// The jump destinations of a program.
pub open spec fn jumpdests_of(code: Seq<u8>) -> Seq<nat> {
    jumpdests_from(code, 0)
}

/// Whether an instruction starts at `target`, given that one starts at
/// `from`.
pub open spec fn instruction_at(code: Seq<u8>, from: nat, target: nat) -> bool
    decreases
            if from < target {
                target - from
            } else {
                0
            },
{
    if from >= target {
        from == target
    } else {
        from < code.len() && instruction_at(
            code,
            from + 1 + immediate_len(code[from as int]),
            target,
        )
    }
}

/// The scan finds exactly the markers at which an instruction starts, and
/// every offset it finds is at or after where it began.
pub proof fn lemma_jumpdests_from(code: Seq<u8>, pc: nat, target: nat)
    ensures
        jumpdests_from(code, pc).contains(target) <==> (target < code.len() && code[target as int]
            == JUMPDEST && instruction_at(code, pc, target)),
    decreases
            if pc < code.len() {
                code.len() - pc
            } else {
                0
            },
{
    let found = jumpdests_from(code, pc);
    if pc >= code.len() {
        assert(!found.contains(target));
    } else if code[pc as int] == JUMPDEST {
        let rest = jumpdests_from(code, pc + 1);
        lemma_jumpdests_from(code, pc + 1, target);
        assert(found =~= seq![pc] + rest);
        if target == pc {
            assert(found[0] == target);
        } else if found.contains(target) {
            let i = choose|i: int| 0 <= i < found.len() && found[i] == target;
            assert(i > 0);
            assert(rest[i - 1] == target);
        } else if rest.contains(target) {
            let i = choose|i: int| 0 <= i < rest.len() && rest[i] == target;
            assert(found[i + 1] == target);
        }
    } else {
        let next: nat = pc + 1 + immediate_len(code[pc as int]);
        assert(pc < code.len() && next > pc);
        lemma_jumpdests_from(code, next, target);
        if target == pc {
            assert(!instruction_at(code, next, target));
        }
    }
}

/// The scan finds its offsets in ascending order, none before `pc`.
pub proof fn lemma_jumpdests_ascending(code: Seq<u8>, pc: nat)
    ensures
        ascending(jumpdests_from(code, pc)),
        forall|i: int|
            0 <= i < jumpdests_from(code, pc).len() ==> pc <= #[trigger] jumpdests_from(
                code,
                pc,
            )[i] < code.len(),
    decreases
            if pc < code.len() {
                code.len() - pc
            } else {
                0
            },
{
    if pc >= code.len() {
    } else if code[pc as int] == JUMPDEST {
        lemma_jumpdests_ascending(code, pc + 1);
        assert(jumpdests_from(code, pc) =~= seq![pc] + jumpdests_from(code, pc + 1));
    } else {
        lemma_jumpdests_ascending(code, pc + 1 + immediate_len(code[pc as int]));
    }
}

/// No instruction starts inside the immediate data of a push.
pub proof fn lemma_no_instruction_in_push_data(code: Seq<u8>, from: nat, push: nat, target: nat)
    requires
        push < code.len(),
        instruction_at(code, from, push),
        push < target <= push + immediate_len(code[push as int]),
    ensures
        !instruction_at(code, from, target),
    decreases
            if from < push {
                push - from
            } else {
                0
            },
{
    let next = from + 1 + immediate_len(code[from as int]);
    if from < push {
        lemma_no_instruction_in_push_data(code, next, push, target);
    } else {
        assert(from == push);
        assert(!instruction_at(code, next, target));
    }
}

/// A byte of a push's immediate data is no jump destination, whatever its
/// value: the marker counts only where an instruction starts.
pub proof fn lemma_push_data_is_no_jumpdest(code: Seq<u8>, push: nat, target: nat)
    requires
        push < code.len(),
        instruction_at(code, 0, push),
        push < target <= push + immediate_len(code[push as int]),
    ensures
        !jumpdests_of(code).contains(target),
{
    lemma_no_instruction_in_push_data(code, 0, push, target);
    lemma_jumpdests_from(code, 0, target);
}

/// Reads the program and returns the offsets at which a jump destination
/// stands, in ascending order.  The immediate data of a push is skipped.
pub fn get_jumpdests(execution_bytecode: &Vec<u8>) -> (jumpdests: Vec<usize>)
    ensures
        offsets(jumpdests@) == jumpdests_of(execution_bytecode@),
        ascending(offsets(jumpdests@)),
{
    let len: usize = execution_bytecode.len();
    let mut pc: usize = 0;
    let mut jumpdests: Vec<usize> = Vec::new();
    let ghost code = execution_bytecode@;

    while pc < len
        invariant
            pc <= len,
            len == code.len(),
            code == execution_bytecode@,
            jumpdests_of(code) =~= offsets(jumpdests@) + jumpdests_from(code, pc as nat),
        decreases len - pc,
    {
        let opcode: u8 = execution_bytecode[pc];
        let ghost before = offsets(jumpdests@);
        let ghost rest = jumpdests_from(code, pc as nat);
        if 0x60 <= opcode && opcode <= 0x7f {
            let skip: usize = (opcode - 0x60 + 1) as usize + 1;
            assert(rest == jumpdests_from(code, (pc + skip) as nat));
            if skip >= len - pc {
                assert(jumpdests_from(code, (pc + skip) as nat) == jumpdests_from(code, len as nat));
                pc = len;
            } else {
                pc += skip;
            }
        } else {
            assert(immediate_len(opcode) == 0);
            assert(rest == if opcode == JUMPDEST {
                seq![pc as nat] + jumpdests_from(code, (pc + 1) as nat)
            } else {
                jumpdests_from(code, (pc + 1) as nat)
            });
            if opcode == JUMPDEST {
                jumpdests.push(pc);
                assert(offsets(jumpdests@) =~= before + seq![pc as nat]);
            }
            pc += 1;
        }
    }
    proof {
        lemma_jumpdests_ascending(code, 0);
    }
    jumpdests
}

/// Whether the program counter stands on a jump destination.
pub fn is_pc_on_jumpdest(evm: &EVM) -> (r: bool)
    requires
        evm.wf(),
    ensures
        r == evm@.jumpdests.contains(evm@.pc),
{
    let ghost dests = evm@.jumpdests;
    let mut lo: usize = 0;
    let mut hi: usize = evm.jumpdests.len();
    while lo < hi
        invariant
            lo <= hi <= evm.jumpdests@.len(),
            dests == evm@.jumpdests,
            dests.len() == evm.jumpdests@.len(),
            ascending(dests),
            forall|i: int| 0 <= i < lo ==> dests[i] < evm.pc,
            forall|i: int| hi <= i < dests.len() ==> dests[i] > evm.pc,
        decreases hi - lo,
    {
        let mid: usize = lo + (hi - lo) / 2;
        let d: usize = evm.jumpdests[mid];
        assert(dests[mid as int] == d);
        if d == evm.pc {
            return true;
        } else if d < evm.pc {
            lo = mid + 1;
        } else {
            hi = mid;
        }
    }
    false
}

/// The handler that the dispatch table holds for `byte`, if any.
pub open spec fn opcode_of(byte: u8) -> Option<Opcode> {
    if byte == 0x00 {
        Some(Opcode::Stop)
    } else if byte == 0x01 {
        Some(Opcode::Add)
    } else if byte == 0x02 {
        Some(Opcode::Mul)
    } else if byte == 0x03 {
        Some(Opcode::Sub)
    } else if byte == 0x04 {
        Some(Opcode::Div)
    } else if byte == 0x05 {
        Some(Opcode::SDiv)
    } else if byte == 0x06 {
        Some(Opcode::Mod)
    } else if byte == 0x07 {
        Some(Opcode::SMod)
    } else if byte == 0x08 {
        Some(Opcode::AddMod)
    } else if byte == 0x09 {
        Some(Opcode::MulMod)
    } else if byte == 0x0a {
        Some(Opcode::Exp)
    } else if byte == 0x10 {
        Some(Opcode::Lt)
    } else if byte == 0x11 {
        Some(Opcode::Gt)
    } else if byte == 0x12 {
        Some(Opcode::Slt)
    } else if byte == 0x13 {
        Some(Opcode::Sgt)
    } else if byte == 0x14 {
        Some(Opcode::Eq)
    } else if byte == 0x15 {
        Some(Opcode::IsZero)
    } else if byte == 0x16 {
        Some(Opcode::And)
    } else if byte == 0x17 {
        Some(Opcode::Or)
    } else if byte == 0x18 {
        Some(Opcode::Xor)
    } else if byte == 0x19 {
        Some(Opcode::Not)
    } else if byte == 0x1b {
        Some(Opcode::Shl)
    } else if byte == 0x1c {
        Some(Opcode::Shr)
    } else if byte == 0x1d {
        Some(Opcode::Sar)
    } else if byte == 0x1a {
        Some(Opcode::Byte)
    } else if byte == 0x20 {
        Some(Opcode::Sha3)
    } else if byte == 0x30 {
        Some(Opcode::Address)
    } else if byte == 0x31 {
        Some(Opcode::Balance)
    } else if byte == 0x32 {
        Some(Opcode::Origin)
    } else if byte == 0x33 {
        Some(Opcode::Caller)
    } else if byte == 0x34 {
        Some(Opcode::CallValue)
    } else if byte == 0x35 {
        Some(Opcode::CallDataLoad)
    } else if byte == 0x36 {
        Some(Opcode::CallDataSize)
    } else if byte == 0x37 {
        Some(Opcode::CallDataCopy)
    } else if byte == 0x38 {
        Some(Opcode::CodeSize)
    } else if byte == 0x39 {
        Some(Opcode::CodeCopy)
    } else if byte == 0x3a {
        Some(Opcode::GasPrice)
    } else if byte == 0x3b {
        Some(Opcode::ExtCodeSize)
    } else if byte == 0x3c {
        Some(Opcode::ExtCodeCopy)
    } else if byte == 0x3f {
        Some(Opcode::ExtCodeHash)
    } else if byte == 0x40 {
        Some(Opcode::BlockHash)
    } else if byte == 0x41 {
        Some(Opcode::Coinbase)
    } else if byte == 0x42 {
        Some(Opcode::Timestamp)
    } else if byte == 0x43 {
        Some(Opcode::Number)
    } else if byte == 0x44 {
        Some(Opcode::Difficulty)
    } else if byte == 0x45 {
        Some(Opcode::GasLimit)
    } else if byte == 0x46 {
        Some(Opcode::Chain)
    } else if byte == 0x47 {
        Some(Opcode::SelfBalance)
    } else if byte == 0x48 {
        Some(Opcode::BaseFee)
    } else if byte == 0x50 {
        Some(Opcode::Pop)
    } else if byte == 0x51 {
        Some(Opcode::MLoad)
    } else if byte == 0x52 {
        Some(Opcode::MStore)
    } else if byte == 0x53 {
        Some(Opcode::MStore8)
    } else if byte == 0x54 {
        Some(Opcode::SLoad)
    } else if byte == 0x55 {
        Some(Opcode::SStore)
    } else if byte == 0x56 {
        Some(Opcode::Jump)
    } else if byte == 0x57 {
        Some(Opcode::JumpI)
    } else if byte == 0x58 {
        Some(Opcode::Pc)
    } else if byte == 0x59 {
        Some(Opcode::MSize)
    } else if byte == 0x5a {
        Some(Opcode::Gas)
    } else if byte == 0x5b {
        Some(Opcode::JumpDest)
    } else if byte == 0xf3 {
        Some(Opcode::Return)
    } else if byte == 0xfd || byte == 0xfe {
        Some(Opcode::Invalid)
    } else if 0x60 <= byte <= 0x7f {
        Some(Opcode::Push((byte - 0x5f) as u8))
    } else if 0x80 <= byte <= 0x8f {
        Some(Opcode::Dup((byte - 0x7f) as u8))
    } else if 0x90 <= byte <= 0x9f {
        Some(Opcode::Swap((byte - 0x8f) as u8))
    } else if 0xa0 <= byte <= 0xa4 {
        Some(Opcode::Log((byte - 0xa0) as u8))
    } else {
        None
    }
}

/// The handler that the reduced table holds for `byte`: that of the full
/// table for the arithmetic, the first three comparisons, `pop` and the
/// pushes, and none for the rest.
pub open spec fn core_opcode_of(byte: u8) -> Option<Opcode> {
    if byte <= 0x0a || 0x10 <= byte <= 0x12 || byte == 0x50 || 0x60 <= byte <= 0x7f {
        opcode_of(byte)
    } else {
        None
    }
}

/// What a table holds for `byte`.
pub open spec fn lookup(opcodes: Map<u8, Opcode>, byte: u8) -> Option<Opcode> {
    if opcodes.contains_key(byte) {
        Some(opcodes[byte])
    } else {
        None
    }
}

/// Whether the parameter of a family's handler is one that the family has.
pub open spec fn valid_opcode(op: Opcode) -> bool {
    match op {
        Opcode::Push(n) => n <= 32,
        Opcode::Dup(n) => 1 <= n <= 16,
        Opcode::Swap(n) => 1 <= n <= 16,
        Opcode::Log(n) => n <= 4,
        _ => true,
    }
}

/// Whether every handler that a table holds has a parameter that its
/// family has.
pub open spec fn valid_table(opcodes: Map<u8, Opcode>) -> bool {
    forall|b: u8| opcodes.contains_key(b) ==> valid_opcode(#[trigger] opcodes[b])
}

/// Every handler of the table has a parameter that its family has.
pub proof fn lemma_table_is_valid(byte: u8)
    ensures
        match opcode_of(byte) {
            Some(op) => valid_opcode(op),
            None => true,
        },
{
}

/// The handler that pushes `n` bytes.
pub fn generate_push_n_fn(n: u8) -> (r: Opcode)
    requires
        n <= 32,
    ensures
        r == Opcode::Push(n),
{
    Opcode::Push(n)
}

/// The handler that duplicates the `n`th value.
pub fn generate_dup_n_fn(n: u8) -> (r: Opcode)
    requires
        1 <= n <= 16,
    ensures
        r == Opcode::Dup(n),
{
    Opcode::Dup(n)
}

/// The handler that swaps the top with the value `n` below it.
pub fn generate_swap_n_fn(n: u8) -> (r: Opcode)
    requires
        1 <= n <= 16,
    ensures
        r == Opcode::Swap(n),
{
    Opcode::Swap(n)
}

/// The handler that logs with `n` topics.
pub fn generate_log_n_fn(n: u8) -> (r: Opcode)
    requires
        n <= 4,
    ensures
        r == Opcode::Log(n),
{
    Opcode::Log(n)
}

/// Registers the 32 pushes under 0x60 to 0x7f.
pub fn insert_push_n_functions(opcodes: &mut Opcodes)
    ensures
        forall|b: u8|
            #[trigger] lookup(final(opcodes)@, b) == if 0x60 <= b <= 0x7f {
                Some(Opcode::Push((b - 0x5f) as u8))
            } else {
                lookup(old(opcodes)@, b)
            },
{
    let mut n: u8 = 1;
    while n <= 32
        invariant
            1 <= n <= 33,
            forall|b: u8|
                #[trigger] lookup(opcodes@, b) == if 0x60 <= b < 0x5f + n {
                    Some(Opcode::Push((b - 0x5f) as u8))
                } else {
                    lookup(old(opcodes)@, b)
                },
        decreases 33 - n,
    {
        let ghost before = opcodes@;
        opcodes.insert(0x5f + n, generate_push_n_fn(n));
        assert forall|b: u8|
            #[trigger] lookup(opcodes@, b) == if 0x60 <= b < 0x5f + n + 1 {
                Some(Opcode::Push((b - 0x5f) as u8))
            } else {
                lookup(old(opcodes)@, b)
            } by {
            assert(lookup(before, b) == if 0x60 <= b < 0x5f + n {
                Some(Opcode::Push((b - 0x5f) as u8))
            } else {
                lookup(old(opcodes)@, b)
            });
        }
        n += 1;
    }
}

/// Registers the 16 duplications under 0x80 to 0x8f.
pub fn insert_dup_n_functions(opcodes: &mut Opcodes)
    ensures
        forall|b: u8|
            #[trigger] lookup(final(opcodes)@, b) == if 0x80 <= b <= 0x8f {
                Some(Opcode::Dup((b - 0x7f) as u8))
            } else {
                lookup(old(opcodes)@, b)
            },
{
    let mut n: u8 = 1;
    while n <= 16
        invariant
            1 <= n <= 17,
            forall|b: u8|
                #[trigger] lookup(opcodes@, b) == if 0x80 <= b < 0x7f + n {
                    Some(Opcode::Dup((b - 0x7f) as u8))
                } else {
                    lookup(old(opcodes)@, b)
                },
        decreases 17 - n,
    {
        let ghost before = opcodes@;
        opcodes.insert(0x7f + n, generate_dup_n_fn(n));
        assert forall|b: u8|
            #[trigger] lookup(opcodes@, b) == if 0x80 <= b < 0x7f + n + 1 {
                Some(Opcode::Dup((b - 0x7f) as u8))
            } else {
                lookup(old(opcodes)@, b)
            } by {
            assert(lookup(before, b) == if 0x80 <= b < 0x7f + n {
                Some(Opcode::Dup((b - 0x7f) as u8))
            } else {
                lookup(old(opcodes)@, b)
            });
        }
        n += 1;
    }
}

/// Registers the 16 swaps under 0x90 to 0x9f.
pub fn insert_swap_n_functions(opcodes: &mut Opcodes)
    ensures
        forall|b: u8|
            #[trigger] lookup(final(opcodes)@, b) == if 0x90 <= b <= 0x9f {
                Some(Opcode::Swap((b - 0x8f) as u8))
            } else {
                lookup(old(opcodes)@, b)
            },
{
    let mut n: u8 = 1;
    while n <= 16
        invariant
            1 <= n <= 17,
            forall|b: u8|
                #[trigger] lookup(opcodes@, b) == if 0x90 <= b < 0x8f + n {
                    Some(Opcode::Swap((b - 0x8f) as u8))
                } else {
                    lookup(old(opcodes)@, b)
                },
        decreases 17 - n,
    {
        let ghost before = opcodes@;
        opcodes.insert(0x8f + n, generate_swap_n_fn(n));
        assert forall|b: u8|
            #[trigger] lookup(opcodes@, b) == if 0x90 <= b < 0x8f + n + 1 {
                Some(Opcode::Swap((b - 0x8f) as u8))
            } else {
                lookup(old(opcodes)@, b)
            } by {
            assert(lookup(before, b) == if 0x90 <= b < 0x8f + n {
                Some(Opcode::Swap((b - 0x8f) as u8))
            } else {
                lookup(old(opcodes)@, b)
            });
        }
        n += 1;
    }
}

/// Registers the five logs under 0xa0 to 0xa4.
pub fn insert_log_n_function(opcodes: &mut Opcodes)
    ensures
        forall|b: u8|
            #[trigger] lookup(final(opcodes)@, b) == if 0xa0 <= b <= 0xa4 {
                Some(Opcode::Log((b - 0xa0) as u8))
            } else {
                lookup(old(opcodes)@, b)
            },
{
    let mut n: u8 = 0;
    while n <= 4
        invariant
            n <= 5,
            forall|b: u8|
                #[trigger] lookup(opcodes@, b) == if 0xa0 <= b < 0xa0 + n {
                    Some(Opcode::Log((b - 0xa0) as u8))
                } else {
                    lookup(old(opcodes)@, b)
                },
        decreases 5 - n,
    {
        let ghost before = opcodes@;
        opcodes.insert(0xa0 + n, generate_log_n_fn(n));
        assert forall|b: u8|
            #[trigger] lookup(opcodes@, b) == if 0xa0 <= b < 0xa0 + n + 1 {
                Some(Opcode::Log((b - 0xa0) as u8))
            } else {
                lookup(old(opcodes)@, b)
            } by {
            assert(lookup(before, b) == if 0xa0 <= b < 0xa0 + n {
                Some(Opcode::Log((b - 0xa0) as u8))
            } else {
                lookup(old(opcodes)@, b)
            });
        }
        n += 1;
    }
}

/// The dispatch table: the handler of every opcode that the machine knows.
pub fn get_opcodes() -> (opcodes: Opcodes)
    ensures
        forall|b: u8| #[trigger] lookup(opcodes@, b) == opcode_of(b),
        valid_table(opcodes@),
{
    let mut opcodes: Opcodes = HashMap::new();

    opcodes.insert(0x00, Opcode::Stop);
    opcodes.insert(0x01, Opcode::Add);
    opcodes.insert(0x02, Opcode::Mul);
    opcodes.insert(0x03, Opcode::Sub);
    opcodes.insert(0x04, Opcode::Div);
    opcodes.insert(0x05, Opcode::SDiv);
    opcodes.insert(0x06, Opcode::Mod);
    opcodes.insert(0x07, Opcode::SMod);
    opcodes.insert(0x08, Opcode::AddMod);
    opcodes.insert(0x09, Opcode::MulMod);
    opcodes.insert(0x0a, Opcode::Exp);
    assert(forall|b: u8|
        #[trigger] lookup(opcodes@, b) == if b <= 0x0a {
            opcode_of(b)
        } else {
            None
        });

    opcodes.insert(0x10, Opcode::Lt);
    opcodes.insert(0x11, Opcode::Gt);
    opcodes.insert(0x12, Opcode::Slt);
    opcodes.insert(0x13, Opcode::Sgt);
    opcodes.insert(0x14, Opcode::Eq);
    opcodes.insert(0x15, Opcode::IsZero);
    opcodes.insert(0x16, Opcode::And);
    opcodes.insert(0x17, Opcode::Or);
    opcodes.insert(0x18, Opcode::Xor);
    opcodes.insert(0x19, Opcode::Not);
    assert(forall|b: u8|
        #[trigger] lookup(opcodes@, b) == if b <= 0x19 {
            opcode_of(b)
        } else {
            None
        });
    opcodes.insert(0x1a, Opcode::Byte);
    opcodes.insert(0x1b, Opcode::Shl);
    opcodes.insert(0x1c, Opcode::Shr);
    opcodes.insert(0x1d, Opcode::Sar);

    opcodes.insert(0x20, Opcode::Sha3);
    assert(forall|b: u8|
        #[trigger] lookup(opcodes@, b) == if b <= 0x20 {
            opcode_of(b)
        } else {
            None
        });

    opcodes.insert(0x30, Opcode::Address);
    opcodes.insert(0x31, Opcode::Balance);
    opcodes.insert(0x32, Opcode::Origin);
    opcodes.insert(0x33, Opcode::Caller);
    opcodes.insert(0x34, Opcode::CallValue);
    opcodes.insert(0x35, Opcode::CallDataLoad);
    opcodes.insert(0x36, Opcode::CallDataSize);
    opcodes.insert(0x37, Opcode::CallDataCopy);
    assert(forall|b: u8|
        #[trigger] lookup(opcodes@, b) == if b <= 0x37 {
            opcode_of(b)
        } else {
            None
        });
    opcodes.insert(0x38, Opcode::CodeSize);
    opcodes.insert(0x39, Opcode::CodeCopy);
    opcodes.insert(0x3a, Opcode::GasPrice);
    opcodes.insert(0x3b, Opcode::ExtCodeSize);
    opcodes.insert(0x3c, Opcode::ExtCodeCopy);
    opcodes.insert(0x3f, Opcode::ExtCodeHash);
    assert(forall|b: u8|
        #[trigger] lookup(opcodes@, b) == if b <= 0x3f {
            opcode_of(b)
        } else {
            None
        });

    opcodes.insert(0x40, Opcode::BlockHash);
    opcodes.insert(0x41, Opcode::Coinbase);
    opcodes.insert(0x42, Opcode::Timestamp);
    opcodes.insert(0x43, Opcode::Number);
    opcodes.insert(0x44, Opcode::Difficulty);
    opcodes.insert(0x45, Opcode::GasLimit);
    opcodes.insert(0x46, Opcode::Chain);
    opcodes.insert(0x47, Opcode::SelfBalance);
    opcodes.insert(0x48, Opcode::BaseFee);
    assert(forall|b: u8|
        #[trigger] lookup(opcodes@, b) == if b <= 0x48 {
            opcode_of(b)
        } else {
            None
        });

    opcodes.insert(0x50, Opcode::Pop);
    opcodes.insert(0x51, Opcode::MLoad);
    opcodes.insert(0x52, Opcode::MStore);
    opcodes.insert(0x53, Opcode::MStore8);
    opcodes.insert(0x54, Opcode::SLoad);
    opcodes.insert(0x55, Opcode::SStore);
    assert(forall|b: u8|
        #[trigger] lookup(opcodes@, b) == if b <= 0x55 {
            opcode_of(b)
        } else {
            None
        });
    opcodes.insert(0x56, Opcode::Jump);
    opcodes.insert(0x57, Opcode::JumpI);
    opcodes.insert(0x58, Opcode::Pc);
    opcodes.insert(0x59, Opcode::MSize);
    opcodes.insert(0x5a, Opcode::Gas);
    opcodes.insert(0x5b, Opcode::JumpDest);
    assert(forall|b: u8|
        #[trigger] lookup(opcodes@, b) == if b <= 0x5b {
            opcode_of(b)
        } else {
            None
        });

    insert_push_n_functions(&mut opcodes);
    assert(forall|b: u8|
        #[trigger] lookup(opcodes@, b) == if b <= 0x7f {
            opcode_of(b)
        } else {
            None
        });
    insert_dup_n_functions(&mut opcodes);
    assert(forall|b: u8|
        #[trigger] lookup(opcodes@, b) == if b <= 0x8f {
            opcode_of(b)
        } else {
            None
        });
    insert_swap_n_functions(&mut opcodes);
    assert(forall|b: u8|
        #[trigger] lookup(opcodes@, b) == if b <= 0x9f {
            opcode_of(b)
        } else {
            None
        });
    insert_log_n_function(&mut opcodes);
    assert(forall|b: u8|
        #[trigger] lookup(opcodes@, b) == if b <= 0xa4 {
            opcode_of(b)
        } else {
            None
        });

    let ghost families = opcodes@;

    opcodes.insert(0xf3, Opcode::Return);
    opcodes.insert(0xfd, Opcode::Invalid);
    opcodes.insert(0xfe, Opcode::Invalid);

    assert forall|b: u8| #[trigger] lookup(opcodes@, b) == opcode_of(b) by {
        assert(lookup(families, b) == if b <= 0xa4 {
            opcode_of(b)
        } else {
            None
        });
    }
    assert forall|b: u8| opcodes@.contains_key(b) implies valid_opcode(#[trigger] opcodes@[b]) by {
        assert(lookup(opcodes@, b) == opcode_of(b));
        lemma_table_is_valid(b);
    }
    opcodes
}

/// The reduced table: the arithmetic, the first three comparisons, `pop`
/// and the pushes, which read nothing but the stack and the program.
pub fn get_opcode_functions() -> (opcode_functions: Opcodes)
    ensures
        forall|b: u8| #[trigger] lookup(opcode_functions@, b) == core_opcode_of(b),
        valid_table(opcode_functions@),
{
    let mut opcodes: Opcodes = HashMap::new();

    opcodes.insert(0x00, Opcode::Stop);
    opcodes.insert(0x01, Opcode::Add);
    opcodes.insert(0x02, Opcode::Mul);
    opcodes.insert(0x03, Opcode::Sub);
    opcodes.insert(0x04, Opcode::Div);
    opcodes.insert(0x05, Opcode::SDiv);
    opcodes.insert(0x06, Opcode::Mod);
    opcodes.insert(0x07, Opcode::SMod);
    opcodes.insert(0x08, Opcode::AddMod);
    opcodes.insert(0x09, Opcode::MulMod);
    opcodes.insert(0x0a, Opcode::Exp);
    assert(forall|b: u8|
        #[trigger] lookup(opcodes@, b) == if b <= 0x0a {
            core_opcode_of(b)
        } else {
            None
        });

    opcodes.insert(0x10, Opcode::Lt);
    opcodes.insert(0x11, Opcode::Gt);
    opcodes.insert(0x12, Opcode::Slt);

    opcodes.insert(0x50, Opcode::Pop);
    assert(forall|b: u8|
        #[trigger] lookup(opcodes@, b) == if b <= 0x50 {
            core_opcode_of(b)
        } else {
            None
        });

    let ghost scalars = opcodes@;

    insert_push_n_functions(&mut opcodes);

    assert forall|b: u8| #[trigger] lookup(opcodes@, b) == core_opcode_of(b) by {
        assert(lookup(scalars, b) == if b <= 0x50 {
            core_opcode_of(b)
        } else {
            None
        });
    }
    assert forall|b: u8| opcodes@.contains_key(b) implies valid_opcode(#[trigger] opcodes@[b]) by {
        assert(lookup(opcodes@, b) == core_opcode_of(b));
        lemma_table_is_valid(b);
    }
    opcodes
}

} // verus!
