//! The machine: its state, the ghost model that the handlers are proved
//! against, and the dispatch loop.

pub mod constants;
pub mod context;
pub mod opcodes;
pub mod utils;

use vstd::prelude::*;
use vstd::slice::slice_to_vec;
use std::collections::HashMap;
use crate::evm::opcodes::{
    arithmetic, block, environmental, logic, memory, misc, stack, state, storage, system,
    transaction,
};
use crate::evm::utils::{
    dup_n, dup_n_step, get_jumpdests, get_opcodes, jumpdests_of, lemma_families_frame, log_n,
    log_n_step, lookup, opcode_of, push_n, push_n_step, swap_n, swap_n_step, valid_opcode,
    valid_table,
};
use crate::utils::types::{
    EvmError, EvmResult, EvmResultView, ExecutionData, Logs, LogsView, NextAction, Opcode,
    Opcodes, no_logs,
};
use crate::word::Word;

verus! {

broadcast use vstd::std_specs::hash::group_hash_axioms;

/// The most memory, in bytes, that a program can touch.
pub const MEMORY_LIMIT: usize = 0x4000_0000;

/// The size of the memory buffer of a fresh machine.
pub const BASELINE_MEMORY: usize = 256;

/// The virtual machine.
#[derive(Debug)]
pub struct EVM {
    /// The offsets of the program that a jump may target, ascending.
    pub jumpdests: Vec<usize>,
    /// The bytes of memory that have been materialised; the rest reads zero.
    pub memory: Vec<u8>,
    /// The persistent storage.
    pub storage: HashMap<usize, Word>,
    /// The logical size of memory in bytes.
    pub msize: usize,
    /// The offset of the next instruction.
    pub pc: usize,
    /// The stack; its last element is the top.
    pub stack: Vec<Word>,
    /// The most recent log record.
    pub logs: Logs,
    /// The bytes that the program returned.
    pub result: Vec<u8>,
}

/// The machine as plain values: what the contracts of the handlers speak of.
#[verifier::ext_equal]
pub struct Machine {
    pub stack: Seq<Word>,
    pub memory: Seq<u8>,
    pub storage: Map<usize, Word>,
    pub msize: nat,
    pub pc: nat,
    pub jumpdests: Seq<nat>,
    pub logs: LogsView,
    pub result: Seq<u8>,
}

/// A machine after a handler, and what the handler told the loop.
pub type Step = (Machine, Result<NextAction, EvmError>);

/// `n` zero bytes.
pub open spec fn zeros(n: nat) -> Seq<u8> {
    Seq::new(n, |i: int| 0u8)
}

/// The byte of memory at `i`: zero past what has been materialised.
pub open spec fn read_byte(memory: Seq<u8>, i: int) -> u8 {
    if 0 <= i < memory.len() {
        memory[i]
    } else {
        0
    }
}

/// The `n` bytes of memory from `offset` on.
pub open spec fn read_bytes(memory: Seq<u8>, offset: nat, n: nat) -> Seq<u8> {
    Seq::new(n, |k: int| read_byte(memory, offset + k))
}

/// Memory after `bytes` were written at `offset`: the buffer grows as far as
/// the write reaches, and a write of nothing changes nothing.
pub open spec fn write_bytes(memory: Seq<u8>, offset: nat, bytes: Seq<u8>) -> Seq<u8> {
    if bytes.len() == 0 {
        memory
    } else {
        Seq::new(
            if memory.len() >= offset + bytes.len() {
                memory.len()
            } else {
                offset + bytes.len()
            },
            |i: int|
                if offset <= i < offset + bytes.len() {
                    bytes[i - offset]
                } else {
                    read_byte(memory, i)
                },
        )
    }
}

/// The logical size that covers the byte at `last_byte`.
pub open spec fn size_for(last_byte: nat) -> nat {
    (last_byte / 32 + 1) * 32
}

/// A vector of offsets as plain numbers.
pub open spec fn offsets(v: Seq<usize>) -> Seq<nat> {
    v.map_values(|d: usize| d as nat)
}

/// Whether the offsets ascend strictly.
pub open spec fn ascending(s: Seq<nat>) -> bool {
    forall|i: int, j: int| 0 <= i < j < s.len() ==> s[i] < s[j]
}

impl Machine {
    /// The machine right after construction.
    pub open spec fn fresh() -> Machine {
        Machine {
            stack: Seq::empty(),
            memory: zeros(BASELINE_MEMORY as nat),
            storage: Map::empty(),
            msize: 0,
            pc: 0,
            jumpdests: Seq::empty(),
            logs: no_logs(),
            result: Seq::empty(),
        }
    }

    /// The machine made ready for another run: storage and the jump
    /// destinations stay, the rest is as in a fresh machine.
    pub open spec fn reset(self) -> Machine {
        Machine { storage: self.storage, jumpdests: self.jumpdests, ..Machine::fresh() }
    }

    /// The `i`th value from the top of the stack; 0 is the top.
    pub open spec fn top(self, i: nat) -> Word {
        self.stack[self.stack.len() - 1 - i]
    }

    /// The stack without its top `k` values.
    pub open spec fn drop_top(self, k: nat) -> Machine {
        Machine { stack: self.stack.take(self.stack.len() - k), ..self }
    }

    /// The stack with `value` on top.
    pub open spec fn pushed(self, value: Word) -> Machine {
        Machine { stack: self.stack.push(value), ..self }
    }

    /// The stack with `value` in place of its top `k` values.
    pub open spec fn replace_top(self, k: nat, value: Word) -> Machine {
        self.drop_top(k).pushed(value)
    }

    /// The logical size of memory grown to cover the byte at `last_byte`.
    pub open spec fn touch(self, last_byte: nat) -> Machine {
        Machine {
            msize: if size_for(last_byte) > self.msize {
                size_for(last_byte)
            } else {
                self.msize
            },
            ..self
        }
    }

    /// The logical size of memory grown to cover the `size` bytes from
    /// `offset` on; a range of no bytes grows nothing.
    pub open spec fn touch_range(self, offset: nat, size: nat) -> Machine {
        if size == 0 {
            self
        } else {
            self.touch((offset + size - 1) as nat)
        }
    }

    /// Memory with `bytes` written at `offset`.
    pub open spec fn written(self, offset: nat, bytes: Seq<u8>) -> Machine {
        Machine { memory: write_bytes(self.memory, offset, bytes), ..self }
    }

    /// The program counter set to `pc`.
    pub open spec fn at(self, pc: nat) -> Machine {
        Machine { pc, ..self }
    }
}

/// Whether a step kept the jump destinations, did not shrink the logical
/// size of memory, and left it a multiple of 32 if it was one.
pub open spec fn keeps_frame(m: Machine, step: Step) -> bool {
    &&& step.0.jumpdests == m.jumpdests
    &&& step.0.msize >= m.msize
    &&& m.msize % 32 == 0 ==> step.0.msize % 32 == 0
}

/// The handler succeeded and the run goes on.
pub open spec fn proceed(m: Machine) -> Step {
    (m, Ok(NextAction::Continue))
}

/// The handler stopped the run with `code`.
pub open spec fn halt(m: Machine, code: u8) -> Step {
    (m, Ok(NextAction::Exit(code)))
}

/// The handler found a defect and left the machine as it was.
pub open spec fn fail(m: Machine, e: EvmError) -> Step {
    (m, Err(e))
}

/// A handler that pushes `value`.
pub open spec fn nullary(m: Machine, value: Word) -> Step {
    proceed(m.pushed(value))
}

/// A handler that replaces the top of the stack by `value`.
pub open spec fn unary(m: Machine, value: Word) -> Step {
    if m.stack.len() < 1 {
        fail(m, EvmError::StackUnderflow)
    } else {
        proceed(m.replace_top(1, value))
    }
}

/// A handler that replaces the top two values of the stack by `value`.
pub open spec fn binary(m: Machine, value: Word) -> Step {
    if m.stack.len() < 2 {
        fail(m, EvmError::StackUnderflow)
    } else {
        proceed(m.replace_top(2, value))
    }
}

/// A handler that replaces the top three values of the stack by `value`.
pub open spec fn ternary(m: Machine, value: Word) -> Step {
    if m.stack.len() < 3 {
        fail(m, EvmError::StackUnderflow)
    } else {
        proceed(m.replace_top(3, value))
    }
}

impl View for EVM {
    type V = Machine;

    open spec fn view(&self) -> Machine {
        Machine {
            stack: self.stack@,
            memory: self.memory@,
            storage: self.storage@,
            msize: self.msize as nat,
            pc: self.pc as nat,
            jumpdests: offsets(self.jumpdests@),
            logs: self.logs@,
            result: self.result@,
        }
    }
}

impl EVM {
    /// Whether the machine is well formed: its jump destinations ascend.
    pub open spec fn wf(&self) -> bool {
        ascending(self@.jumpdests)
    }

    /// A fresh machine.
    pub fn new() -> (evm: EVM)
        ensures
            evm@ == Machine::fresh(),
            evm.wf(),
    {
        let evm = EVM {
            stack: Vec::with_capacity(1024),
            memory: vec![0u8; BASELINE_MEMORY],
            storage: HashMap::new(),
            pc: 0,
            msize: 0,
            jumpdests: Vec::new(),
            logs: Logs::new(),
            result: Vec::new(),
        };
        assert(evm@ =~= Machine::fresh());
        evm
    }

    /// Makes the machine ready for another run.  Storage is kept.
    pub fn reset(&mut self)
        ensures
            final(self)@ == old(self)@.reset(),
    {
        self.pc = 0;
        self.stack.clear();
        self.memory = vec![0u8; BASELINE_MEMORY];
        self.msize = 0;
        self.logs = Logs::new();
        self.result = Vec::new();
        assert(self@ =~= old(self)@.reset());
    }

    /// The `i`th value from the top of the stack; 0 is the top.
    pub fn peek(&self, i: usize) -> (r: Word)
        requires
            i < self.stack@.len(),
        ensures
            r == self@.top(i as nat),
    {
        self.stack[self.stack.len() - 1 - i]
    }

    /// Puts `value` on the stack.
    pub fn push(&mut self, value: Word)
        ensures
            final(self)@ == old(self)@.pushed(value),
    {
        self.stack.push(value);
        assert(self@ =~= old(self)@.pushed(value));
    }

    /// Takes the top `k` values off the stack.
    pub fn drop_top(&mut self, k: usize)
        requires
            k <= old(self).stack@.len(),
        ensures
            final(self)@ == old(self)@.drop_top(k as nat),
    {
        let keep: usize = self.stack.len() - k;
        self.stack.truncate(keep);
        assert(self@ =~= old(self)@.drop_top(k as nat));
    }

    /// Puts `value` in place of the top `k` values of the stack.
    pub fn replace_top(&mut self, k: usize, value: Word)
        requires
            k <= old(self).stack@.len(),
        ensures
            final(self)@ == old(self)@.replace_top(k as nat, value),
    {
        self.drop_top(k);
        self.push(value);
    }

    /// The `n` bytes of memory from `offset` on; what was never written
    /// reads as zero.
    pub fn load(&self, offset: usize, n: usize) -> (r: Vec<u8>)
        requires
            offset + n <= MEMORY_LIMIT,
        ensures
            r@ == read_bytes(self@.memory, offset as nat, n as nat),
    {
        let mut out: Vec<u8> = Vec::new();
        let mut k: usize = 0;
        while k < n
            invariant
                k <= n,
                offset + n <= MEMORY_LIMIT,
                out@.len() == k,
                forall|j: int| 0 <= j < k ==> out@[j] == read_byte(self.memory@, offset + j),
            decreases n - k,
        {
            let i: usize = offset + k;
            let b: u8 = if i < self.memory.len() {
                self.memory[i]
            } else {
                0
            };
            out.push(b);
            k += 1;
        }
        assert(out@ =~= read_bytes(self@.memory, offset as nat, n as nat));
        out
    }

    /// Writes `bytes` into memory at `offset`, growing the buffer as far as
    /// the write reaches.
    pub fn store(&mut self, offset: usize, bytes: &[u8])
        requires
            offset + bytes@.len() <= MEMORY_LIMIT,
        ensures
            final(self)@ == old(self)@.written(offset as nat, bytes@),
    {
        let n: usize = bytes.len();
        if n == 0 {
            return ;
        }
        if self.memory.len() < offset + n {
            self.memory.resize(offset + n, 0u8);
        }
        let ghost grown = self.memory@;
        assert(forall|i: int| 0 <= i < grown.len() ==> grown[i] == read_byte(old(self).memory@, i));
        let mut k: usize = 0;
        while k < n
            invariant
                k <= n,
                n == bytes@.len(),
                offset + n <= MEMORY_LIMIT,
                self.memory@.len() == grown.len(),
                grown.len() >= offset + n,
                forall|i: int|
                    0 <= i < grown.len() ==> self.memory@[i] == if offset <= i < offset + k {
                        bytes@[i - offset]
                    } else {
                        grown[i]
                    },
                self.stack == old(self).stack,
                self.storage == old(self).storage,
                self.msize == old(self).msize,
                self.pc == old(self).pc,
                self.jumpdests == old(self).jumpdests,
                self.logs == old(self).logs,
                self.result == old(self).result,
            decreases n - k,
        {
            let b: u8 = bytes[k];
            self.memory[offset + k] = b;
            k += 1;
        }
        assert(self@ =~= old(self)@.written(offset as nat, bytes@));
    }
}

/// What the handler that `op` selects makes of the machine.
pub open spec fn op_step(op: Opcode, m: Machine, data: ExecutionData) -> Step {
    match op {
        Opcode::Stop => misc::stop_step(m),
        Opcode::Add => arithmetic::add_step(m),
        Opcode::Mul => arithmetic::mul_step(m),
        Opcode::Sub => arithmetic::sub_step(m),
        Opcode::Div => arithmetic::div_step(m),
        Opcode::SDiv => arithmetic::s_div_step(m),
        Opcode::Mod => arithmetic::modulo_step(m),
        Opcode::SMod => arithmetic::s_modulo_step(m),
        Opcode::AddMod => arithmetic::add_mod_step(m),
        Opcode::MulMod => arithmetic::mul_mod_step(m),
        Opcode::Exp => arithmetic::exp_step(m),
        Opcode::Lt => logic::lt_step(m),
        Opcode::Gt => logic::gt_step(m),
        Opcode::Slt => logic::slt_step(m),
        Opcode::Sgt => logic::sgt_step(m),
        Opcode::Eq => logic::eq_step(m),
        Opcode::IsZero => logic::is_zero_step(m),
        Opcode::And => logic::and_step(m),
        Opcode::Or => logic::or_step(m),
        Opcode::Xor => logic::xor_step(m),
        Opcode::Not => logic::not_step(m),
        Opcode::Byte => misc::byte_step(m),
        Opcode::Shl => misc::shl_step(m),
        Opcode::Shr => misc::shr_step(m),
        Opcode::Sar => misc::sar_step(m),
        Opcode::Sha3 => misc::sha3_step(m),
        Opcode::Address => transaction::address_step(m, data),
        Opcode::Balance => state::balance_step(m, data),
        Opcode::Origin => transaction::origin_step(m, data),
        Opcode::Caller => transaction::caller_step(m, data),
        Opcode::CallValue => transaction::callvalue_step(m, data),
        Opcode::CallDataLoad => transaction::calldataload_step(m, data),
        Opcode::CallDataSize => transaction::calldatasize_step(m, data),
        Opcode::CallDataCopy => transaction::calldatacopy_step(m, data),
        Opcode::CodeSize => misc::codesize_step(m, data.bytecode@),
        Opcode::CodeCopy => misc::codecopy_step(m, data.bytecode@),
        Opcode::GasPrice => transaction::gasprice_step(m, data),
        Opcode::ExtCodeSize => environmental::extcodesize_step(m, data),
        Opcode::ExtCodeCopy => environmental::extcodecopy_step(m, data),
        Opcode::ExtCodeHash => environmental::extcodehash_step(m, data),
        Opcode::BlockHash => block::blockhash_step(m),
        Opcode::Coinbase => block::coinbase_step(m, data),
        Opcode::Timestamp => block::timestamp_step(m, data),
        Opcode::Number => block::number_step(m, data),
        Opcode::Difficulty => block::difficulty_step(m, data),
        Opcode::GasLimit => block::gaslimit_step(m, data),
        Opcode::Chain => block::chain_step(m, data),
        Opcode::SelfBalance => block::selfbalance_step(m, data),
        Opcode::BaseFee => block::basefee_step(m, data),
        Opcode::Pop => stack::pop_step(m),
        Opcode::MLoad => memory::mload_step(m),
        Opcode::MStore => memory::mstore_step(m),
        Opcode::MStore8 => memory::mstore8_step(m),
        Opcode::SLoad => storage::sload_step(m),
        Opcode::SStore => storage::sstore_step(m),
        Opcode::Jump => stack::jump_step(m),
        Opcode::JumpI => stack::jumpi_step(m),
        Opcode::Pc => stack::pc_step(m),
        Opcode::MSize => memory::msize_step(m),
        Opcode::Gas => misc::gas_step(m),
        Opcode::JumpDest => stack::jumpdest_step(m),
        Opcode::Push(n) => push_n_step(m, data.bytecode@, n as nat),
        Opcode::Dup(n) => dup_n_step(m, n as nat),
        Opcode::Swap(n) => swap_n_step(m, n as nat),
        Opcode::Log(n) => log_n_step(m, data, n as nat),
        Opcode::Return => system::return_data_step(m),
        Opcode::Invalid => misc::invalid_step(m),
    }
}

/// No handler changes the jump destinations, and none shrinks the logical
/// size of memory or leaves it off a multiple of 32.
pub proof fn lemma_op_frame(op: Opcode, m: Machine, data: ExecutionData)
    ensures
        keeps_frame(m, op_step(op, m, data)),
{
    match op {
        Opcode::Add | Opcode::Mul | Opcode::Sub | Opcode::Div | Opcode::SDiv | Opcode::Mod | Opcode::SMod | Opcode::AddMod | Opcode::MulMod | Opcode::Exp => {
            arithmetic::lemma_frame(m);
        },
        Opcode::Lt | Opcode::Gt | Opcode::Slt | Opcode::Sgt | Opcode::Eq | Opcode::IsZero | Opcode::And | Opcode::Or | Opcode::Xor | Opcode::Not => {
            logic::lemma_frame(m);
        },
        Opcode::MLoad | Opcode::MStore | Opcode::MStore8 | Opcode::MSize => {
            memory::lemma_frame(m);
        },
        Opcode::Stop | Opcode::Byte | Opcode::Shl | Opcode::Shr | Opcode::Sar | Opcode::Sha3 | Opcode::Gas | Opcode::Invalid | Opcode::CodeSize | Opcode::CodeCopy => {
            misc::lemma_frame(m, data.bytecode@);
        },
        Opcode::Pop | Opcode::Jump | Opcode::JumpI | Opcode::Pc | Opcode::JumpDest => {
            stack::lemma_frame(m);
        },
        Opcode::SLoad | Opcode::SStore => {
            storage::lemma_frame(m);
        },
        Opcode::Return => {
            system::lemma_frame(m);
        },
        Opcode::BlockHash | Opcode::Coinbase | Opcode::Timestamp | Opcode::Number | Opcode::Difficulty | Opcode::GasLimit | Opcode::Chain | Opcode::SelfBalance | Opcode::BaseFee => {
            block::lemma_frame(m, data);
        },
        Opcode::Balance => {
            state::lemma_frame(m, data);
        },
        Opcode::ExtCodeSize | Opcode::ExtCodeCopy | Opcode::ExtCodeHash => {
            environmental::lemma_frame(m, data);
        },
        Opcode::Address | Opcode::Origin | Opcode::Caller | Opcode::CallValue | Opcode::CallDataLoad | Opcode::CallDataSize | Opcode::CallDataCopy | Opcode::GasPrice => {
            transaction::lemma_frame(m, data);
        },
        Opcode::Push(_) | Opcode::Dup(_) | Opcode::Swap(_) | Opcode::Log(_) => {
            lemma_families_frame(m, data);
        },
    }
}

/// Runs the handler that `op` selects.
pub fn dispatch(op: Opcode, evm: &mut EVM, data: &ExecutionData) -> (r: Result<
    NextAction,
    EvmError,
>)
    requires
        old(evm).wf(),
        old(evm).pc >= 1,
        valid_opcode(op),
    ensures
        (final(evm)@, r) == op_step(op, old(evm)@, *data),
{
    match op {
        Opcode::Stop => misc::stop(evm, data),
        Opcode::Add => crate::evm::opcodes::arithmetic::add(evm, data),
        Opcode::Mul => crate::evm::opcodes::arithmetic::mul(evm, data),
        Opcode::Sub => crate::evm::opcodes::arithmetic::sub(evm, data),
        Opcode::Div => arithmetic::div(evm, data),
        Opcode::SDiv => arithmetic::s_div(evm, data),
        Opcode::Mod => arithmetic::modulo(evm, data),
        Opcode::SMod => arithmetic::s_modulo(evm, data),
        Opcode::AddMod => arithmetic::add_mod(evm, data),
        Opcode::MulMod => arithmetic::mul_mod(evm, data),
        Opcode::Exp => arithmetic::exp(evm, data),
        Opcode::Lt => logic::lt(evm, data),
        Opcode::Gt => logic::gt(evm, data),
        Opcode::Slt => logic::slt(evm, data),
        Opcode::Sgt => logic::sgt(evm, data),
        Opcode::Eq => logic::eq(evm, data),
        Opcode::IsZero => logic::is_zero(evm, data),
        Opcode::And => logic::and(evm, data),
        Opcode::Or => logic::or(evm, data),
        Opcode::Xor => logic::xor(evm, data),
        Opcode::Not => logic::not(evm, data),
        Opcode::Byte => misc::byte(evm, data),
        Opcode::Shl => misc::shl(evm, data),
        Opcode::Shr => misc::shr(evm, data),
        Opcode::Sar => misc::sar(evm, data),
        Opcode::Sha3 => misc::sha3(evm, data),
        Opcode::Address => transaction::address(evm, data),
        Opcode::Balance => state::balance(evm, data),
        Opcode::Origin => transaction::origin(evm, data),
        Opcode::Caller => transaction::caller(evm, data),
        Opcode::CallValue => transaction::callvalue(evm, data),
        Opcode::CallDataLoad => transaction::calldataload(evm, data),
        Opcode::CallDataSize => transaction::calldatasize(evm, data),
        Opcode::CallDataCopy => transaction::calldatacopy(evm, data),
        Opcode::CodeSize => misc::codesize(evm, data),
        Opcode::CodeCopy => misc::codecopy(evm, data),
        Opcode::GasPrice => transaction::gasprice(evm, data),
        Opcode::ExtCodeSize => environmental::extcodesize(evm, data),
        Opcode::ExtCodeCopy => environmental::extcodecopy(evm, data),
        Opcode::ExtCodeHash => environmental::extcodehash(evm, data),
        Opcode::BlockHash => block::blockhash(evm, data),
        Opcode::Coinbase => block::coinbase(evm, data),
        Opcode::Timestamp => block::timestamp(evm, data),
        Opcode::Number => block::number(evm, data),
        Opcode::Difficulty => block::difficulty(evm, data),
        Opcode::GasLimit => block::gaslimit(evm, data),
        Opcode::Chain => block::chain(evm, data),
        Opcode::SelfBalance => block::selfbalance(evm, data),
        Opcode::BaseFee => block::basefee(evm, data),
        Opcode::Pop => stack::pop(evm, data),
        Opcode::MLoad => memory::mload(evm, data),
        Opcode::MStore => memory::mstore(evm, data),
        Opcode::MStore8 => memory::mstore8(evm, data),
        Opcode::SLoad => storage::sload(evm, data),
        Opcode::SStore => storage::sstore(evm, data),
        Opcode::Jump => stack::jump(evm, data),
        Opcode::JumpI => stack::jumpi(evm, data),
        Opcode::Pc => stack::pc(evm, data),
        Opcode::MSize => memory::msize(evm, data),
        Opcode::Gas => misc::gas(evm, data),
        Opcode::JumpDest => stack::jumpdest(evm, data),
        Opcode::Push(n) => push_n(evm, n, data),
        Opcode::Dup(n) => dup_n(evm, n),
        Opcode::Swap(n) => swap_n(evm, n),
        Opcode::Log(n) => log_n(evm, data, n),
        Opcode::Return => system::return_data(evm, data),
        Opcode::Invalid => misc::invalid(evm, data),
    }
}

/// One turn of the dispatch loop with the handlers of `table`: the opcode at
/// the program counter is fetched, the counter moves past it, and the
/// opcode's handler runs.
pub open spec fn step_with(m: Machine, data: ExecutionData, table: Map<u8, Opcode>) -> Step {
    if m.pc >= data.bytecode@.len() {
        fail(m, EvmError::MissingOpcode)
    } else {
        let byte = data.bytecode@[m.pc as int];
        let fetched = m.at(m.pc + 1);
        match lookup(table, byte) {
            Some(op) => op_step(op, fetched, data),
            None => fail(fetched, EvmError::UnknownOpcode(byte)),
        }
    }
}

/// The table as a map: every opcode that has a handler, with its handler.
pub open spec fn full_table() -> Map<u8, Opcode> {
    Map::new(|b: u8| opcode_of(b).is_some(), |b: u8| opcode_of(b).unwrap())
}

/// One turn of the dispatch loop with every handler that the machine knows.
pub open spec fn step_spec(m: Machine, data: ExecutionData) -> Step {
    step_with(m, data, full_table())
}

/// A turn of the loop changes no jump destination, does not shrink the
/// logical size of memory and keeps it a multiple of 32.
pub proof fn lemma_step_frame(m: Machine, data: ExecutionData, table: Map<u8, Opcode>)
    ensures
        keeps_frame(m, step_with(m, data, table)),
{
    if m.pc < data.bytecode@.len() {
        let byte = data.bytecode@[m.pc as int];
        if let Some(op) = lookup(table, byte) {
            lemma_op_frame(op, m.at(m.pc + 1), data);
        }
    }
}

/// Fetches the opcode at the program counter, moves the counter past it and
/// runs the opcode's handler.  Fails with `MissingOpcode` where the counter
/// is past the program, and with `UnknownOpcode` where the table holds no
/// handler for the byte.
pub fn step(evm: &mut EVM, data: &ExecutionData, opcodes: &Opcodes) -> (r: Result<
    NextAction,
    EvmError,
>)
    requires
        old(evm).wf(),
        valid_table(opcodes@),
    ensures
        (final(evm)@, r) == step_with(old(evm)@, *data, opcodes@),
        final(evm).wf(),
{
    if evm.pc >= data.bytecode.len() {
        return Err(EvmError::MissingOpcode);
    }
    let opcode_num: u8 = data.bytecode[evm.pc];
    evm.pc += 1;
    assert(evm@ =~= old(evm)@.at(old(evm)@.pc + 1));
    proof {
        lemma_step_frame(old(evm)@, *data, opcodes@);
    }
    match opcodes.get(&opcode_num) {
        Some(opcode) => dispatch(*opcode, evm, data),
        None => Err(EvmError::UnknownOpcode(opcode_num)),
    }
}

/// The machine at the start of a run: as it was left, with the jump
/// destinations of the program.
pub open spec fn started(m: Machine, data: ExecutionData) -> Machine {
    Machine { jumpdests: jumpdests_of(data.bytecode@), ..m }
}

/// A run of at most `fuel` turns: the machine at its end, and the exit code
/// or the defect that ended it.  A run that reaches the end of the program
/// ends with code 0.
pub open spec fn run_spec(m: Machine, data: ExecutionData, fuel: nat) -> (
    Machine,
    Result<u8, EvmError>,
)
    decreases fuel,
{
    if m.pc >= data.bytecode@.len() {
        (m, Ok(0))
    } else if fuel == 0 {
        (m, Err(EvmError::StepLimit))
    } else {
        let (next, outcome) = step_spec(m, data);
        match outcome {
            Ok(NextAction::Continue) => run_spec(next, data, (fuel - 1) as nat),
            Ok(NextAction::Exit(code)) => (next, Ok(code)),
            Err(e) => (next, Err(e)),
        }
    }
}

/// Within a run the logical size of memory never shrinks and stays a
/// multiple of 32, and the jump destinations stay those of the program.
pub proof fn lemma_run_msize_monotonic(m: Machine, data: ExecutionData, fuel: nat)
    ensures
        run_spec(m, data, fuel).0.msize >= m.msize,
        m.msize % 32 == 0 ==> run_spec(m, data, fuel).0.msize % 32 == 0,
        run_spec(m, data, fuel).0.jumpdests == m.jumpdests,
    decreases fuel,
{
    if m.pc < data.bytecode@.len() && fuel > 0 {
        lemma_step_frame(m, data, full_table());
        let (next, outcome) = step_spec(m, data);
        if outcome == Ok::<NextAction, EvmError>(NextAction::Continue) {
            lemma_run_msize_monotonic(next, data, (fuel - 1) as nat);
        }
    }
}

/// What a run reports: the stack with its top first, and whether the run
/// ended with code 0.
pub open spec fn result_of(end: Machine, outcome: Result<u8, EvmError>) -> EvmResultView {
    EvmResultView {
        stack: end.stack.reverse(),
        success: outcome == Ok::<u8, EvmError>(0),
        logs: end.logs,
        result: end.result,
        error: match outcome {
            Ok(_) => None,
            Err(e) => Some(e),
        },
    }
}

impl EVM {
    /// Runs the program for at most `max_steps` instructions, reports what
    /// it left, and resets the machine.  A run that is still going after
    /// `max_steps` instructions fails with `StepLimit`.
    pub fn run(&mut self, data: ExecutionData, max_steps: u64) -> (result: EvmResult)
        ensures
            result@ == result_of(
                run_spec(started(old(self)@, data), data, max_steps as nat).0,
                run_spec(started(old(self)@, data), data, max_steps as nat).1,
            ),
            final(self)@ == run_spec(started(old(self)@, data), data, max_steps as nat).0.reset(),
    {
        let opcodes = get_opcodes();

        self.jumpdests = get_jumpdests(data.bytecode);
        assert(self@ =~= started(old(self)@, data));
        let ghost start = self@;

        let mut outcome: Result<u8, EvmError> = Ok(0);
        let mut steps: u64 = max_steps;
        let mut running: bool = true;

        while running && self.pc < data.bytecode.len()
            invariant
                self.wf(),
                valid_table(opcodes@),
                forall|b: u8| #[trigger] lookup(opcodes@, b) == opcode_of(b),
                running ==> outcome == Ok::<u8, EvmError>(0),
                running ==> run_spec(start, data, max_steps as nat) == run_spec(
                    self@,
                    data,
                    steps as nat,
                ),
                !running ==> run_spec(start, data, max_steps as nat) == (self@, outcome),
            decreases
                    if running {
                        1int
                    } else {
                        0int
                    },
                    steps,
        {
            if steps == 0 {
                outcome = Err(EvmError::StepLimit);
                running = false;
            } else {
                steps -= 1;
                assert(lookup(opcodes@, data.bytecode@[self.pc as int]) == lookup(
                    full_table(),
                    data.bytecode@[self.pc as int],
                ));
                let next_action = step(self, &data, &opcodes);
                match next_action {
                    Ok(NextAction::Continue) => {},
                    Ok(NextAction::Exit(status_code)) => {
                        outcome = Ok(status_code);
                        running = false;
                    },
                    Err(e) => {
                        outcome = Err(e);
                        running = false;
                    },
                }
            }
        }
        let result = self.get_result(outcome);
        self.reset();

        result
    }

    /// Runs the program to its end, reports what it left, and resets the
    /// machine.  The run is cut off after 2^64 - 1 instructions.
    pub fn execute(&mut self, data: ExecutionData) -> (result: EvmResult)
        ensures
            result@ == result_of(
                run_spec(started(old(self)@, data), data, u64::MAX as nat).0,
                run_spec(started(old(self)@, data), data, u64::MAX as nat).1,
            ),
            final(self)@ == run_spec(started(old(self)@, data), data, u64::MAX as nat).0.reset(),
    {
        self.run(data, u64::MAX)
    }

    /// What the run reports: the stack is copied in reverse, so that its
    /// top comes first.
    fn get_result(&self, outcome: Result<u8, EvmError>) -> (result: EvmResult)
        ensures
            result@ == result_of(self@, outcome),
    {
        let len: usize = self.stack.len();
        let mut stack: Vec<Word> = Vec::new();
        let mut i: usize = len;
        while i > 0
            invariant
                i <= len,
                len == self.stack@.len(),
                stack@.len() == len - i,
                forall|j: int| 0 <= j < stack@.len() ==> stack@[j] == self.stack@[len - 1 - j],
            decreases i,
        {
            i -= 1;
            stack.push(self.stack[i]);
        }
        assert(stack@ =~= self.stack@.reverse());
        let success = match outcome {
            Ok(status_code) => status_code == 0,
            Err(_) => false,
        };
        let error = match outcome {
            Ok(_) => None,
            Err(e) => Some(e),
        };
        EvmResult {
            stack,
            success,
            logs: Logs {
                address: self.logs.address.clone(),
                data: slice_to_vec(self.logs.data.as_slice()),
                topics: slice_to_vec(self.logs.topics.as_slice()),
            },
            result: slice_to_vec(self.result.as_slice()),
            error,
        }
    }
}

} // verus!
