//! The opcode bytes that the machine itself looks for.

use vstd::prelude::*;

verus! {

/// The opcode that marks a jump destination.
pub const JUMPDEST: u8 = 0x5b;

} // verus!
