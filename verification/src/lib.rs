//! A bytecode interpreter for a stack machine with 256-bit words.
//!
//! The machine's values are [`word::Word`]s.  The instruction handlers live
//! under [`evm::opcodes`], the dispatch loop in [`evm`], and every handler is
//! proved against a ghost model of the machine, [`evm::Machine`].

pub mod evm;
pub mod keccak;
pub mod text;
pub mod u256;
pub mod utils;
pub mod word;
