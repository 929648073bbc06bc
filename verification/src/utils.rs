//! The data that travels between the machine and its callers.

pub mod types;
