//! Control signals, errors, the dispatch table's entries, the execution
//! context and the result of a run.

use vstd::prelude::*;
use vstd::hash_map::StringHashMap;
use std::collections::HashMap;
use crate::word::Word;

verus! {

/// What a handler tells the dispatch loop to do next.
#[derive(Debug, Clone, Copy, PartialEq, Eq, Structural)]
pub enum NextAction {
    /// Fetch the next instruction.
    Continue,
    /// Stop the run; code 0 is success, any other code is failure.
    Exit(u8),
}

/// A defect of the program or of its input that aborts the run.
#[derive(Debug, Clone, Copy, PartialEq, Eq, Structural)]
pub enum EvmError {
    /// The program counter points past the program.
    MissingOpcode,
    /// No handler is registered for this byte.
    UnknownOpcode(u8),
    /// A handler needs more operands than the stack holds.
    StackUnderflow,
    /// A push reads its immediate data past the end of the program.
    MissingData,
    /// An offset, a size or a key is more than the machine can address.
    OutOfRange,
    /// A field of the context is not hexadecimal text.
    MalformedField,
    /// The run took more steps than it was allowed.
    StepLimit,
}

/// The closed set of handlers that a byte of the program can select.
#[derive(Debug, Clone, Copy, PartialEq, Eq, Structural)]
pub enum Opcode {
    Stop,
    Add,
    Mul,
    Sub,
    Div,
    SDiv,
    Mod,
    SMod,
    AddMod,
    MulMod,
    Exp,
    Lt,
    Gt,
    Slt,
    Sgt,
    Eq,
    IsZero,
    And,
    Or,
    Xor,
    Not,
    Byte,
    Shl,
    Shr,
    Sar,
    Sha3,
    Address,
    Balance,
    Origin,
    Caller,
    CallValue,
    CallDataLoad,
    CallDataSize,
    CallDataCopy,
    CodeSize,
    CodeCopy,
    GasPrice,
    ExtCodeSize,
    ExtCodeCopy,
    ExtCodeHash,
    BlockHash,
    Coinbase,
    Timestamp,
    Number,
    Difficulty,
    GasLimit,
    Chain,
    SelfBalance,
    BaseFee,
    Pop,
    MLoad,
    MStore,
    MStore8,
    SLoad,
    SStore,
    Jump,
    JumpI,
    Pc,
    MSize,
    Gas,
    JumpDest,
    /// Push the next `n` bytes of the program, `n` from 1 to 32.
    Push(u8),
    /// Duplicate the `n`th value from the top, `n` from 1 to 16.
    Dup(u8),
    /// Exchange the top with the value `n` below it, `n` from 1 to 16.
    Swap(u8),
    /// Record a log with `n` topics, `n` from 0 to 4.
    Log(u8),
    Return,
    Invalid,
}

/// The dispatch table: the handler of each opcode byte that has one.
pub type Opcodes = HashMap<u8, Opcode>;

/// An address as the state map spells it: `0x` and lower-case digits.
pub type Address = String;

/// The text that the assembler read and the bytes it wrote, in hexadecimal.
#[derive(Debug)]
pub struct Code {
    pub assembly: String,
    pub bin: String,
}

/// What is known of one account.  Numbers are hexadecimal text.
#[derive(Debug)]
pub struct AccountState {
    pub nonce: Option<String>,
    pub balance: Option<String>,
    pub code: Option<Code>,
}

/// The accounts, by address.
pub struct State {
    pub accounts: StringHashMap<AccountState>,
}

impl View for State {
    type V = Map<Seq<char>, AccountState>;

    open spec fn view(&self) -> Map<Seq<char>, AccountState> {
        self.accounts@
    }
}

impl State {
    /// No accounts.
    pub fn new() -> (r: State)
        ensures
            r@ == Map::<Seq<char>, AccountState>::empty(),
    {
        State { accounts: StringHashMap::new() }
    }

    /// Sets what is known of the account at `address`.
    pub fn insert(&mut self, address: String, account: AccountState)
        ensures
            final(self)@ == old(self)@.insert(address@, account),
    {
        self.accounts.insert(address, account);
    }

    /// The account at `address`, if there is one.
    pub fn get(&self, address: &str) -> (r: Option<&AccountState>)
        ensures
            match r {
                Some(a) => self@.contains_key(address@) && *a == self@[address@],
                None => !self@.contains_key(address@),
            },
    {
        self.accounts.get(address)
    }
}

/// The fields of the transaction.  Numbers and call data are hexadecimal
/// text.
#[derive(Debug)]
pub struct TxData {
    pub from: Option<String>,
    pub to: Option<String>,
    pub origin: Option<String>,
    pub gasprice: Option<String>,
    pub value: Option<String>,
    pub data: Option<String>,
}

/// The fields of the block, as hexadecimal text.
#[derive(Debug)]
pub struct BlockData {
    pub basefee: Option<String>,
    pub coinbase: Option<String>,
    pub timestamp: Option<String>,
    pub number: Option<String>,
    pub gaslimit: Option<String>,
    pub difficulty: Option<String>,
    pub chainid: Option<String>,
}

/// What a run is expected to leave: the stack, top first, as hexadecimal
/// text, and whether it succeeds.
#[derive(Debug)]
pub struct Expect {
    pub stack: Option<Vec<String>>,
    pub success: bool,
}

/// One case of a suite: a program, its context and what to expect of it.
pub struct EvmTest {
    pub name: String,
    pub hint: String,
    pub code: Code,
    pub tx: Option<TxData>,
    pub block: Option<BlockData>,
    pub state: Option<State>,
    pub expect: Expect,
}

/// The most recent log record: who emitted it, the bytes of memory it
/// carries, and its topics.
#[derive(Debug)]
pub struct Logs {
    pub address: String,
    pub data: Vec<u8>,
    pub topics: Vec<Word>,
}

/// A log record as plain values.
pub struct LogsView {
    pub address: Seq<char>,
    pub data: Seq<u8>,
    pub topics: Seq<Word>,
}

impl View for Logs {
    type V = LogsView;

    open spec fn view(&self) -> LogsView {
        LogsView { address: self.address@, data: self.data@, topics: self.topics@ }
    }
}

/// The record of a machine that has logged nothing.
pub open spec fn no_logs() -> LogsView {
    LogsView { address: Seq::empty(), data: Seq::empty(), topics: Seq::empty() }
}

impl Logs {
    /// The empty record.
    pub fn new() -> (r: Logs)
        ensures
            r@ == no_logs(),
    {
        Logs { address: String::new(), data: Vec::new(), topics: Vec::new() }
    }
}

/// What a run leaves behind.
#[derive(Debug)]
pub struct EvmResult {
    /// The stack, top first.
    pub stack: Vec<Word>,
    /// Whether the run ended without failure.
    pub success: bool,
    /// The most recent log record.
    pub logs: Logs,
    /// The bytes that the program returned.
    pub result: Vec<u8>,
    /// The defect that aborted the run, if one did.
    pub error: Option<EvmError>,
}

/// The result of a run as plain values.
pub struct EvmResultView {
    pub stack: Seq<Word>,
    pub success: bool,
    pub logs: LogsView,
    pub result: Seq<u8>,
    pub error: Option<EvmError>,
}

impl View for EvmResult {
    type V = EvmResultView;

    open spec fn view(&self) -> EvmResultView {
        EvmResultView {
            stack: self.stack@,
            success: self.success,
            logs: self.logs@,
            result: self.result@,
            error: self.error,
        }
    }
}

/// The program and its read-only context.
pub struct ExecutionData<'a> {
    pub bytecode: &'a Vec<u8>,
    pub tx: &'a Option<TxData>,
    pub block: &'a Option<BlockData>,
    pub state: &'a Option<State>,
}

} // verus!
