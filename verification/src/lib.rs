//! A software model of a small stack-oriented microprocessor: a register
//! file, a flat byte-addressable memory, a catalog of instructions made of
//! micro-operations, and the fetch-decode-execute engine that runs them.

pub mod encoding;
pub mod errors;
pub mod ram;
pub mod registers;
pub mod cpu;
pub mod microinstruction;
pub mod instruction;
pub mod vm;
pub mod laws;
