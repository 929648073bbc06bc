//! The instruction handlers, by family.  Each takes the machine and the
//! execution data, and leaves the machine unchanged when it fails.

pub mod arithmetic;
pub mod block;
pub mod environmental;
pub mod logic;
pub mod memory;
pub mod misc;
pub mod stack;
pub mod state;
pub mod storage;
pub mod system;
pub mod transaction;
