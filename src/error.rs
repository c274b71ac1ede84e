//! Faults that stop the interpreter.

use vstd::prelude::*;

verus! {

/// A fatal condition, reported to the driver instead of aborting.
#[derive(Clone, Copy, Debug, PartialEq, Eq, Structural)]
pub enum ChipError {
    /// The word fetched at `pc` encodes no operation.
    InvalidOpcode { word: u16, pc: u16 },
    /// A call at `pc` found all stack entries in use.
    StackOverflow { pc: u16 },
    /// A return at `pc` found the stack empty.
    StackUnderflow { pc: u16 },
    /// The instruction at `pc` would touch memory past its end, starting at `index`.
    MemoryOutOfRange { pc: u16, index: u16 },
    /// A program of `len` bytes does not fit above the program base.
    RomTooLarge { len: usize },
}

} // verus!
