//! A CHIP-8 virtual machine: opcode decoding, machine state, and the
//! fetch-decode-execute cycle, with every instruction's effect stated and
//! proved.

pub mod utils;
pub mod error;
pub mod keys;
pub mod instruction;
pub mod model;
pub mod machine;
pub mod laws;
