//! Operation codes that carry no operand.

use vstd::prelude::*;

verus! {

/// The instructions whose word is fixed.
#[derive(Debug, PartialEq, Eq, Clone, Copy, Structural)]
pub enum Instrs {
    Cls,
    Ret,
}

impl Instrs {
    /// The word of the instruction.
    pub open spec fn word(self) -> u16 {
        match self {
            Instrs::Cls => 0x00E0,
            Instrs::Ret => 0x00EE,
        }
    }
}

/// An operation code with room for operands.
#[derive(Debug, Clone, Copy, PartialEq, Eq)]
pub struct OpCode {
    pub instr: Instrs,
    pub x: usize,
    pub y: usize,
    pub nnn: usize,
}

impl OpCode {
    /// The operation code of a fixed word, with all operands at zero. The
    /// word must be that of `Cls` or of `Ret`.
    pub fn new(instr4: u16) -> (opcode: OpCode)
        requires
            instr4 == 0x00E0 || instr4 == 0x00EE,
        ensures
            opcode.instr.word() == instr4,
            opcode.x == 0,
            opcode.y == 0,
            opcode.nnn == 0,
    {
        let instr: Instrs = if instr4 == 0x00E0 {
            Instrs::Cls
        } else {
            Instrs::Ret
        };
        OpCode { instr, x: 0, y: 0, nnn: 0 }
    }
}

} // verus!
