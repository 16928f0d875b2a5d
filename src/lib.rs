//! A register-based bytecode interpreter: a fixed table of opcodes and an
//! engine that fetches, decodes and executes them against 32 registers.
pub mod instruction;
pub mod semantics;
pub mod vm;
