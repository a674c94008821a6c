//! Sizes and fixed addresses shared by the codec and the interpreter.

use vstd::prelude::*;

verus! {

/// Width of a machine word in bytes.
pub const WORD_SIZE: usize = 8;

/// Highest address of the linear memory, exclusive.
pub const VM_MAX_RAM: u64 = 67_108_864;

/// Number of bytes of the linear memory.
pub const MEM_SIZE: usize = 67_108_864;

/// Address at which the byte image of the running transaction starts: it
/// follows the 32-byte transaction id, the word holding the image's size
/// and 255 balance entries of 40 bytes each.
pub const VM_TX_MEMORY: usize = 10_240;

} // verus!
