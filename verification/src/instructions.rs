//! The instruction set and its decoder.

use vstd::prelude::*;

verus! {

/// One decoded instruction with its operands.
///
/// Register operands are written `x` and `y`, an immediate byte `kk`, a
/// twelve-bit address `nnn` and a sprite height `n`.
#[derive(Debug, PartialEq, Eq, Clone, Copy, Structural)]
pub enum Instruction {
    Cls,
    Ret,
    Jp(u16),
    Call(u16),
    Se(u8, u8),
    Sne(u8, u8),
    SeXY(u8, u8),
    LdX(u8, u8),
    AddX(u8, u8),
    LdXY(u8, u8),
    Or(u8, u8),
    And(u8, u8),
    Xor(u8, u8),
    Add(u8, u8),
    Sub(u8, u8),
    Shr(u8),
    Subn(u8, u8),
    Shl(u8),
    SneXY(u8, u8),
    LdI(u16),
    JpV0(u16),
    Rnd(u8, u8),
    Drw(u8, u8, u8),
    Skp(u8),
    Sknp(u8),
    LdVxDt(u8),
    LdK(u8),
    LdDtVx(u8),
    LdSt(u8),
    AddI(u8),
    LdF(u8),
    LdB(u8),
    LdIx(u8),
    LdVxI(u8),
}

/// The register field `x` of a word: bits 8 to 11.
pub open spec fn field_x(word: u16) -> u8 {
    ((word / 256) % 16) as u8
}

/// The register field `y` of a word: bits 4 to 7.
pub open spec fn field_y(word: u16) -> u8 {
    ((word / 16) % 16) as u8
}

/// The nibble `n` of a word: bits 0 to 3.
pub open spec fn field_n(word: u16) -> u8 {
    (word % 16) as u8
}

/// The immediate byte `kk` of a word: bits 0 to 7.
pub open spec fn field_kk(word: u16) -> u8 {
    (word % 256) as u8
}

/// The address `nnn` of a word: bits 0 to 11.
pub open spec fn field_nnn(word: u16) -> u16 {
    word % 4096
}

/// The instruction that a word stands for, if any.
///
/// The top nibble selects the family; the families 0, 8, E and F are told
/// apart further by their low byte or low nibble, and a word that matches
/// no member of its family stands for nothing.
pub open spec fn decode(word: u16) -> Option<Instruction> {
    let x = field_x(word);
    let y = field_y(word);
    let n = field_n(word);
    let kk = field_kk(word);
    let nnn = field_nnn(word);
    let family = word / 4096;
    if family == 0x0 {
        if word == 0x00E0 {
            Some(Instruction::Cls)
        } else if word == 0x00EE {
            Some(Instruction::Ret)
        } else {
            None
        }
    } else if family == 0x1 {
        Some(Instruction::Jp(nnn))
    } else if family == 0x2 {
        Some(Instruction::Call(nnn))
    } else if family == 0x3 {
        Some(Instruction::Se(x, kk))
    } else if family == 0x4 {
        Some(Instruction::Sne(x, kk))
    } else if family == 0x5 {
        Some(Instruction::SeXY(x, y))
    } else if family == 0x6 {
        Some(Instruction::LdX(x, kk))
    } else if family == 0x7 {
        Some(Instruction::AddX(x, kk))
    } else if family == 0x8 {
        if n == 0x0 {
            Some(Instruction::LdXY(x, y))
        } else if n == 0x1 {
            Some(Instruction::Or(x, y))
        } else if n == 0x2 {
            Some(Instruction::And(x, y))
        } else if n == 0x3 {
            Some(Instruction::Xor(x, y))
        } else if n == 0x4 {
            Some(Instruction::Add(x, y))
        } else if n == 0x5 {
            Some(Instruction::Sub(x, y))
        } else if n == 0x6 {
            Some(Instruction::Shr(x))
        } else if n == 0x7 {
            Some(Instruction::Subn(x, y))
        } else if n == 0xE {
            Some(Instruction::Shl(x))
        } else {
            None
        }
    } else if family == 0x9 {
        Some(Instruction::SneXY(x, y))
    } else if family == 0xA {
        Some(Instruction::LdI(nnn))
    } else if family == 0xB {
        Some(Instruction::JpV0(nnn))
    } else if family == 0xC {
        Some(Instruction::Rnd(x, kk))
    } else if family == 0xD {
        Some(Instruction::Drw(x, y, n))
    } else if family == 0xE {
        if kk == 0x9E {
            Some(Instruction::Skp(x))
        } else if kk == 0xA1 {
            Some(Instruction::Sknp(x))
        } else {
            None
        }
    } else {
        if kk == 0x07 {
            Some(Instruction::LdVxDt(x))
        } else if kk == 0x0A {
            Some(Instruction::LdK(x))
        } else if kk == 0x15 {
            Some(Instruction::LdDtVx(x))
        } else if kk == 0x18 {
            Some(Instruction::LdSt(x))
        } else if kk == 0x1E {
            Some(Instruction::AddI(x))
        } else if kk == 0x29 {
            Some(Instruction::LdF(x))
        } else if kk == 0x33 {
            Some(Instruction::LdB(x))
        } else if kk == 0x55 {
            Some(Instruction::LdIx(x))
        } else if kk == 0x65 {
            Some(Instruction::LdVxI(x))
        } else {
            None
        }
    }
}

impl Instruction {
    /// Whether every operand fits the field that carries it in a word: a
    /// register index and a sprite height below 16, an address below 4096.
    pub open spec fn wf(self) -> bool {
        match self {
            Instruction::Cls | Instruction::Ret => true,
            Instruction::Jp(nnn)
            | Instruction::Call(nnn)
            | Instruction::LdI(nnn)
            | Instruction::JpV0(nnn) => nnn < 4096,
            Instruction::Se(x, _)
            | Instruction::Sne(x, _)
            | Instruction::LdX(x, _)
            | Instruction::AddX(x, _)
            | Instruction::Rnd(x, _) => x < 16,
            Instruction::SeXY(x, y)
            | Instruction::LdXY(x, y)
            | Instruction::Or(x, y)
            | Instruction::And(x, y)
            | Instruction::Xor(x, y)
            | Instruction::Add(x, y)
            | Instruction::Sub(x, y)
            | Instruction::Subn(x, y)
            | Instruction::SneXY(x, y) => x < 16 && y < 16,
            Instruction::Drw(x, y, n) => x < 16 && y < 16 && n < 16,
            Instruction::Shr(x)
            | Instruction::Shl(x)
            | Instruction::Skp(x)
            | Instruction::Sknp(x)
            | Instruction::LdVxDt(x)
            | Instruction::LdK(x)
            | Instruction::LdDtVx(x)
            | Instruction::LdSt(x)
            | Instruction::AddI(x)
            | Instruction::LdF(x)
            | Instruction::LdB(x)
            | Instruction::LdIx(x)
            | Instruction::LdVxI(x) => x < 16,
        }
    }

    /// What a word that stands for this instruction holds beyond the
    /// instruction: the field that the instruction does not read. A shift
    /// passes over the field `y`, a comparison of two registers over the low
    /// nibble; every other instruction reads its whole word.
    pub open spec fn unread(self, word: u16) -> int {
        match self {
            Instruction::Shr(_) | Instruction::Shl(_) => 16 * field_y(word),
            Instruction::SeXY(_, _) | Instruction::SneXY(_, _) => field_n(word) as int,
            _ => 0,
        }
    }

    /// Tells whether every operand is in range.
    pub fn is_wf(&self) -> (ok: bool)
        ensures
            ok == self.wf(),
    {
        match *self {
            Instruction::Cls | Instruction::Ret => true,
            Instruction::Jp(nnn)
            | Instruction::Call(nnn)
            | Instruction::LdI(nnn)
            | Instruction::JpV0(nnn) => nnn < 4096,
            Instruction::Se(x, _)
            | Instruction::Sne(x, _)
            | Instruction::LdX(x, _)
            | Instruction::AddX(x, _)
            | Instruction::Rnd(x, _) => x < 16,
            Instruction::SeXY(x, y)
            | Instruction::LdXY(x, y)
            | Instruction::Or(x, y)
            | Instruction::And(x, y)
            | Instruction::Xor(x, y)
            | Instruction::Add(x, y)
            | Instruction::Sub(x, y)
            | Instruction::Subn(x, y)
            | Instruction::SneXY(x, y) => x < 16 && y < 16,
            Instruction::Drw(x, y, n) => x < 16 && y < 16 && n < 16,
            Instruction::Shr(x)
            | Instruction::Shl(x)
            | Instruction::Skp(x)
            | Instruction::Sknp(x)
            | Instruction::LdVxDt(x)
            | Instruction::LdK(x)
            | Instruction::LdDtVx(x)
            | Instruction::LdSt(x)
            | Instruction::AddI(x)
            | Instruction::LdF(x)
            | Instruction::LdB(x)
            | Instruction::LdIx(x)
            | Instruction::LdVxI(x) => x < 16,
        }
    }

    /// The word that stands for this instruction.
    ///
    /// The shift instructions carry no second register; their word is
    /// written with the field `y` at zero.
    pub open spec fn encode(self) -> int {
        match self {
            Instruction::Cls => 0x00E0,
            Instruction::Ret => 0x00EE,
            Instruction::Jp(nnn) => 0x1000 + nnn,
            Instruction::Call(nnn) => 0x2000 + nnn,
            Instruction::Se(x, kk) => 0x3000 + 256 * x + kk,
            Instruction::Sne(x, kk) => 0x4000 + 256 * x + kk,
            Instruction::SeXY(x, y) => 0x5000 + 256 * x + 16 * y,
            Instruction::LdX(x, kk) => 0x6000 + 256 * x + kk,
            Instruction::AddX(x, kk) => 0x7000 + 256 * x + kk,
            Instruction::LdXY(x, y) => 0x8000 + 256 * x + 16 * y,
            Instruction::Or(x, y) => 0x8001 + 256 * x + 16 * y,
            Instruction::And(x, y) => 0x8002 + 256 * x + 16 * y,
            Instruction::Xor(x, y) => 0x8003 + 256 * x + 16 * y,
            Instruction::Add(x, y) => 0x8004 + 256 * x + 16 * y,
            Instruction::Sub(x, y) => 0x8005 + 256 * x + 16 * y,
            Instruction::Shr(x) => 0x8006 + 256 * x,
            Instruction::Subn(x, y) => 0x8007 + 256 * x + 16 * y,
            Instruction::Shl(x) => 0x800E + 256 * x,
            Instruction::SneXY(x, y) => 0x9000 + 256 * x + 16 * y,
            Instruction::LdI(nnn) => 0xA000 + nnn,
            Instruction::JpV0(nnn) => 0xB000 + nnn,
            Instruction::Rnd(x, kk) => 0xC000 + 256 * x + kk,
            Instruction::Drw(x, y, n) => 0xD000 + 256 * x + 16 * y + n,
            Instruction::Skp(x) => 0xE09E + 256 * x,
            Instruction::Sknp(x) => 0xE0A1 + 256 * x,
            Instruction::LdVxDt(x) => 0xF007 + 256 * x,
            Instruction::LdK(x) => 0xF00A + 256 * x,
            Instruction::LdDtVx(x) => 0xF015 + 256 * x,
            Instruction::LdSt(x) => 0xF018 + 256 * x,
            Instruction::AddI(x) => 0xF01E + 256 * x,
            Instruction::LdF(x) => 0xF029 + 256 * x,
            Instruction::LdB(x) => 0xF033 + 256 * x,
            Instruction::LdIx(x) => 0xF055 + 256 * x,
            Instruction::LdVxI(x) => 0xF065 + 256 * x,
        }
    }

    /// Decodes an instruction word. An unknown word gives `None`.
    pub fn from_u16(opcode: u16) -> (instr: Option<Instruction>)
        ensures
            instr == decode(opcode),
    {
        let vx: u8 = ((opcode & 0x0F00) >> 8) as u8;
        let vy: u8 = ((opcode & 0x00F0) >> 4) as u8;
        let nnn: u16 = opcode & 0x0FFF;
        let kk: u8 = (opcode & 0x00FF) as u8;
        let n: u8 = (opcode & 0x000F) as u8;
        proof {
            assert((opcode & 0x0F00) >> 8 == (opcode / 256) % 16) by (bit_vector);
            assert((opcode & 0x00F0) >> 4 == (opcode / 16) % 16) by (bit_vector);
            assert(opcode & 0x0FFF == opcode % 4096) by (bit_vector);
            assert(opcode & 0x00FF == opcode % 256) by (bit_vector);
            assert(opcode & 0x000F == opcode % 16) by (bit_vector);
            assert(opcode & 0xF000 == (opcode / 4096) * 4096) by (bit_vector);
        }

        match opcode & 0xF000 {
            0x0000 => match opcode {
                0x00E0 => Some(Instruction::Cls),
                0x00EE => Some(Instruction::Ret),
                _ => None,
            },
            0x1000 => Some(Instruction::Jp(nnn)),
            0x2000 => Some(Instruction::Call(nnn)),
            0x3000 => Some(Instruction::Se(vx, kk)),
            0x4000 => Some(Instruction::Sne(vx, kk)),
            0x5000 => Some(Instruction::SeXY(vx, vy)),
            0x6000 => Some(Instruction::LdX(vx, kk)),
            0x7000 => Some(Instruction::AddX(vx, kk)),
            0x8000 => match n {
                0x0 => Some(Instruction::LdXY(vx, vy)),
                0x1 => Some(Instruction::Or(vx, vy)),
                0x2 => Some(Instruction::And(vx, vy)),
                0x3 => Some(Instruction::Xor(vx, vy)),
                0x4 => Some(Instruction::Add(vx, vy)),
                0x5 => Some(Instruction::Sub(vx, vy)),
                0x6 => Some(Instruction::Shr(vx)),
                0x7 => Some(Instruction::Subn(vx, vy)),
                0xE => Some(Instruction::Shl(vx)),
                _ => None,
            },
            0x9000 => Some(Instruction::SneXY(vx, vy)),
            0xA000 => Some(Instruction::LdI(nnn)),
            0xB000 => Some(Instruction::JpV0(nnn)),
            0xC000 => Some(Instruction::Rnd(vx, kk)),
            0xD000 => Some(Instruction::Drw(vx, vy, n)),
            0xE000 => match kk {
                0x9E => Some(Instruction::Skp(vx)),
                0xA1 => Some(Instruction::Sknp(vx)),
                _ => None,
            },
            0xF000 => match kk {
                0x07 => Some(Instruction::LdVxDt(vx)),
                0x0A => Some(Instruction::LdK(vx)),
                0x15 => Some(Instruction::LdDtVx(vx)),
                0x18 => Some(Instruction::LdSt(vx)),
                0x1E => Some(Instruction::AddI(vx)),
                0x29 => Some(Instruction::LdF(vx)),
                0x33 => Some(Instruction::LdB(vx)),
                0x55 => Some(Instruction::LdIx(vx)),
                0x65 => Some(Instruction::LdVxI(vx)),
                _ => None,
            },
            _ => None,
        }
    }
}

/// A word is the sum of its fields, each weighted by its place.
pub proof fn lemma_word_is_sum_of_fields(word: u16)
    ensures
        word == 4096 * (word / 4096) + 256 * field_x(word) + 16 * field_y(word) + field_n(word),
        field_kk(word) == 16 * field_y(word) + field_n(word),
        field_nnn(word) == 256 * field_x(word) + field_kk(word),
        word / 4096 < 16,
        field_x(word) < 16,
        field_y(word) < 16,
        field_n(word) < 16,
        field_nnn(word) < 4096,
{
    let f = word / 4096;
    let x = (word / 256) % 16;
    let y = (word / 16) % 16;
    let n = word % 16;
    let kk = word % 256;
    let nnn = word % 4096;
    assert(f < 16 && x < 16 && y < 16 && n < 16 && kk < 256 && nnn < 4096 && word == 4096 * f + 256
        * x + 16 * y + n && kk == 16 * y + n && nnn == 256 * x + kk) by (bit_vector)
        requires
            f == word / 4096,
            x == (word / 256) % 16,
            y == (word / 16) % 16,
            n == word % 16,
            kk == word % 256,
            nnn == word % 4096,
    ;
}

/// The fields of a word built from a family, two registers and a nibble.
proof fn lemma_fields_of_sum(family: u16, x: u16, y: u16, n: u16)
    requires
        family < 16,
        x < 16,
        y < 16,
        n < 16,
    ensures
        ({
            let word = (4096 * family + 256 * x + 16 * y + n) as u16;
            &&& word == 4096 * family + 256 * x + 16 * y + n
            &&& word / 4096 == family
            &&& field_x(word) == x
            &&& field_y(word) == y
            &&& field_n(word) == n
            &&& field_kk(word) == 16 * y + n
            &&& field_nnn(word) == 256 * x + 16 * y + n
        }),
{
    let word = (4096 * family + 256 * x + 16 * y + n) as u16;
    assert(word / 4096 == family && (word / 256) % 16 == x && (word / 16) % 16 == y && word % 16
        == n && word % 256 == 16 * y + n && word % 4096 == 256 * x + 16 * y + n)
        by (bit_vector)
        requires
            family < 16,
            x < 16,
            y < 16,
            n < 16,
            word == 4096 * family + 256 * x + 16 * y + n,
    ;
}

/// Every decoded instruction has its operands in range.
pub proof fn lemma_decode_wf(word: u16)
    ensures
        decode(word) matches Some(instr) ==> instr.wf(),
{
}

/// What decoding gives carries the word's own fields: the instruction
/// encodes back to the word, up to the one field that it does not read.
pub proof fn lemma_decode_then_encode(word: u16)
    ensures
        decode(word) matches Some(instr) ==> instr.encode() + instr.unread(word) == word,
{
    lemma_word_is_sum_of_fields(word);
}

/// A word decodes to an instruction exactly when the instruction, with its
/// operands in range, encodes to the word up to the field that it does not
/// read. So decoding fails exactly on the words that no instruction
/// encodes to.
pub proof fn lemma_decode_iff_encode(word: u16, instr: Instruction)
    ensures
        decode(word) == Some(instr) <==> instr.wf() && instr.encode() + instr.unread(word) == word,
{
    if decode(word) == Some(instr) {
        lemma_decode_wf(word);
        lemma_decode_then_encode(word);
    }
    if instr.wf() && instr.encode() + instr.unread(word) == word {
        lemma_word_is_sum_of_fields(word);
        match instr {
            Instruction::Shr(x) => lemma_fields_of_sum(0x8, x as u16, field_y(word) as u16, 0x6),
            Instruction::Shl(x) => lemma_fields_of_sum(0x8, x as u16, field_y(word) as u16, 0xE),
            Instruction::SeXY(x, y) => lemma_fields_of_sum(
                0x5,
                x as u16,
                y as u16,
                field_n(word) as u16,
            ),
            Instruction::SneXY(x, y) => lemma_fields_of_sum(
                0x9,
                x as u16,
                y as u16,
                field_n(word) as u16,
            ),
            _ => lemma_encode_then_decode(instr),
        }
    }
}

/// Every instruction with operands in range is the decoding of its own
/// word, so no two of them share a word.
pub proof fn lemma_encode_then_decode(instr: Instruction)
    requires
        instr.wf(),
    ensures
        0 <= instr.encode() <= 0xFFFF,
        decode(instr.encode() as u16) == Some(instr),
{
    match instr {
        Instruction::Cls => lemma_fields_of_sum(0x0, 0x0, 0xE, 0x0),
        Instruction::Ret => lemma_fields_of_sum(0x0, 0x0, 0xE, 0xE),
        Instruction::Jp(nnn) => lemma_fields_of_address(0x1, nnn),
        Instruction::Call(nnn) => lemma_fields_of_address(0x2, nnn),
        Instruction::Se(x, kk) => lemma_fields_of_byte(0x3, x, kk),
        Instruction::Sne(x, kk) => lemma_fields_of_byte(0x4, x, kk),
        Instruction::SeXY(x, y) => lemma_fields_of_sum(0x5, x as u16, y as u16, 0x0),
        Instruction::LdX(x, kk) => lemma_fields_of_byte(0x6, x, kk),
        Instruction::AddX(x, kk) => lemma_fields_of_byte(0x7, x, kk),
        Instruction::LdXY(x, y) => lemma_fields_of_sum(0x8, x as u16, y as u16, 0x0),
        Instruction::Or(x, y) => lemma_fields_of_sum(0x8, x as u16, y as u16, 0x1),
        Instruction::And(x, y) => lemma_fields_of_sum(0x8, x as u16, y as u16, 0x2),
        Instruction::Xor(x, y) => lemma_fields_of_sum(0x8, x as u16, y as u16, 0x3),
        Instruction::Add(x, y) => lemma_fields_of_sum(0x8, x as u16, y as u16, 0x4),
        Instruction::Sub(x, y) => lemma_fields_of_sum(0x8, x as u16, y as u16, 0x5),
        Instruction::Shr(x) => lemma_fields_of_sum(0x8, x as u16, 0x0, 0x6),
        Instruction::Subn(x, y) => lemma_fields_of_sum(0x8, x as u16, y as u16, 0x7),
        Instruction::Shl(x) => lemma_fields_of_sum(0x8, x as u16, 0x0, 0xE),
        Instruction::SneXY(x, y) => lemma_fields_of_sum(0x9, x as u16, y as u16, 0x0),
        Instruction::LdI(nnn) => lemma_fields_of_address(0xA, nnn),
        Instruction::JpV0(nnn) => lemma_fields_of_address(0xB, nnn),
        Instruction::Rnd(x, kk) => lemma_fields_of_byte(0xC, x, kk),
        Instruction::Drw(x, y, n) => lemma_fields_of_sum(0xD, x as u16, y as u16, n as u16),
        Instruction::Skp(x) => lemma_fields_of_sum(0xE, x as u16, 0x9, 0xE),
        Instruction::Sknp(x) => lemma_fields_of_sum(0xE, x as u16, 0xA, 0x1),
        Instruction::LdVxDt(x) => lemma_fields_of_sum(0xF, x as u16, 0x0, 0x7),
        Instruction::LdK(x) => lemma_fields_of_sum(0xF, x as u16, 0x0, 0xA),
        Instruction::LdDtVx(x) => lemma_fields_of_sum(0xF, x as u16, 0x1, 0x5),
        Instruction::LdSt(x) => lemma_fields_of_sum(0xF, x as u16, 0x1, 0x8),
        Instruction::AddI(x) => lemma_fields_of_sum(0xF, x as u16, 0x1, 0xE),
        Instruction::LdF(x) => lemma_fields_of_sum(0xF, x as u16, 0x2, 0x9),
        Instruction::LdB(x) => lemma_fields_of_sum(0xF, x as u16, 0x3, 0x3),
        Instruction::LdIx(x) => lemma_fields_of_sum(0xF, x as u16, 0x5, 0x5),
        Instruction::LdVxI(x) => lemma_fields_of_sum(0xF, x as u16, 0x6, 0x5),
    }
}

/// The fields of a word built from a family and an address.
proof fn lemma_fields_of_address(family: u16, nnn: u16)
    requires
        family < 16,
        nnn < 4096,
    ensures
        ({
            let word = (4096 * family + nnn) as u16;
            &&& word == 4096 * family + nnn
            &&& word / 4096 == family
            &&& field_nnn(word) == nnn
        }),
{
    let word = (4096 * family + nnn) as u16;
    assert(word / 4096 == family && word % 4096 == nnn) by (bit_vector)
        requires
            family < 16,
            nnn < 4096,
            word == 4096 * family + nnn,
    ;
}

/// The fields of a word built from a family, a register and a byte.
proof fn lemma_fields_of_byte(family: u16, x: u8, kk: u8)
    requires
        family < 16,
        x < 16,
    ensures
        ({
            let word = (4096 * family + 256 * x + kk) as u16;
            &&& word == 4096 * family + 256 * x + kk
            &&& word / 4096 == family
            &&& field_x(word) == x
            &&& field_kk(word) == kk
        }),
{
    let word = (4096 * family + 256 * x + kk) as u16;
    assert(word / 4096 == family && (word / 256) % 16 == x && word % 256 == kk) by (bit_vector)
        requires
            family < 16,
            x < 16,
            word == 4096 * family + 256 * x + kk,
    ;
}

} // verus!
