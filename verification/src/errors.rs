use vstd::prelude::*;

verus! {

/// The ways in which a run of the machine can fail. None of them is
/// recoverable: the first one ends the run.
#[derive(Debug, Clone, Copy, PartialEq, Eq, Structural)]
pub enum MicroprocessorErrors {
    /// The base pointer would move past the reserved high-memory boundary.
    BpError,
    /// An access leaves the memory, or asks for a scalar wider than four bytes.
    MemoryOverflow,
    /// An operand is malformed. Kept for encodings that no current
    /// instruction produces.
    InstructionParamError,
    /// The value fetched at the program counter names no instruction.
    UnknownOpcode,
}

} // verus!
