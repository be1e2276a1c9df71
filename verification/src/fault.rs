//! The ways in which the machine refuses to go on.

use vstd::prelude::*;

verus! {

/// Why a request to the machine was refused. A refused request leaves the
/// machine as it was.
#[derive(Debug, PartialEq, Eq, Clone, Copy, Structural)]
pub enum Fault {
    /// The word fetched at `pc` stands for no instruction.
    UnknownInstruction { pc: u16, word: u16 },
    /// An instruction carries a register index or sprite height above 15,
    /// or an address above 4095.
    OperandOutOfRange { pc: u16 },
    /// A call found all sixteen stack slots taken.
    StackOverflow { pc: u16, depth: u16 },
    /// A return found the stack empty.
    StackUnderflow { pc: u16, depth: u16 },
    /// A memory access would reach up to `address`, beyond the last byte.
    MemoryOutOfBounds { pc: u16, address: u32 },
    /// A key test names a key above 15.
    KeyOutOfBounds { pc: u16, key: u8 },
    /// A program image of `len` bytes does not fit above the entry point.
    ImageTooLarge { len: usize },
}

impl Fault {
    /// Whether the run can go on after this fault. Only an unknown
    /// instruction can be stepped over; every other fault ends the run.
    pub open spec fn recoverable(self) -> bool {
        self is UnknownInstruction
    }

    /// Tells a fault that the caller may step over from a fatal one.
    pub fn is_recoverable(&self) -> (yes: bool)
        ensures
            yes == self.recoverable(),
    {
        match self {
            Fault::UnknownInstruction { .. } => true,
            _ => false,
        }
    }
}

} // verus!
