//! An emulator for a small RISC-style instruction set: a register file, a
//! flags register, a bounded call stack and a fetch-decode-execute cycle over
//! 32-bit instruction words, with every step stated and proved.

pub mod alu;
pub mod cpu;
pub mod decoder;
pub mod fault;
pub mod laws;
pub mod machine;
pub mod stack;
