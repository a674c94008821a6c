//! Reasons for which the interpreter halts an instruction.

use vstd::prelude::*;

verus! {

/// Why an instruction could not complete.
#[derive(Debug, Clone, Copy, PartialEq, Eq, Structural, Hash)]
pub enum PanicReason {
    /// The range is not owned by the running context.
    MemoryOwnership,
    /// The range does not fit in the linear memory.
    MemoryOverflow,
    /// A write of no bytes was asked for.
    MemoryWriteSize,
    /// The transaction has no input at the index.
    InputNotFound,
    /// The transaction has no output at the index.
    OutputNotFound,
    /// The transaction has no witness at the index.
    WitnessNotFound,
}

} // verus!
