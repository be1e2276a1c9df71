//! The machine as mathematics: its state as sequences and numbers, and what
//! each instruction makes of a state.
//!
//! Nothing here runs. The executable machine is proved to do what these
//! functions say.

use crate::fault::Fault;
use crate::instructions::decode;
use crate::instructions::Instruction;
use crate::sprite::collides;
use crate::sprite::draw_gfx;
use crate::sprite::sprite_at;
use vstd::prelude::*;

verus! {

/// Pixels in a row of the screen.
pub const WIDTH: usize = 64;

/// Rows of the screen.
pub const HEIGHT: usize = 32;

/// Where a program is loaded and where it starts.
pub const ENTRY_POINT: u16 = 0x200;

/// Bytes of memory.
pub const MEMORY_SIZE: usize = 4096;

/// Return addresses that the stack can hold.
pub const STACK_DEPTH: u16 = 16;

/// The state of the machine.
#[verifier::ext_equal]
pub struct State {
    /// 4096 bytes; the font lies at 0, a program at `ENTRY_POINT`.
    pub memory: Seq<u8>,
    /// The registers V0 to VF. VF doubles as the flag.
    pub v: Seq<u8>,
    /// The index register.
    pub i: u16,
    /// The program counter.
    pub pc: u16,
    /// 64 by 32 pixels, row by row, each 0 or 1.
    pub gfx: Seq<u8>,
    pub delay_timer: u8,
    pub sound_timer: u8,
    /// Sixteen slots, of which the lowest `sp` hold return addresses.
    pub stack: Seq<u16>,
    pub sp: u16,
    /// Sixteen keys; a key is pressed where its byte is not zero.
    pub key: Seq<u8>,
    /// Set to 1 by every draw.
    pub draw_flag: u8,
    /// Whether the machine waits for a key.
    pub key_flag: bool,
    /// The register that the awaited key goes to.
    pub key_register: u8,
    pub pause: bool,
}

impl State {
    /// The shape that every state of a running machine has.
    pub open spec fn wf(self) -> bool {
        &&& self.memory.len() == MEMORY_SIZE
        &&& self.v.len() == 16
        &&& self.gfx.len() == WIDTH * HEIGHT
        &&& self.stack.len() == STACK_DEPTH
        &&& self.key.len() == 16
        &&& self.sp <= STACK_DEPTH
        &&& self.key_register < 16
        &&& forall|p: int| 0 <= p < WIDTH * HEIGHT ==> #[trigger] self.gfx[p] <= 1
    }

    /// This state with register `x` holding `value`.
    pub open spec fn with_v(self, x: u8, value: u8) -> State {
        State { v: self.v.update(x as int, value), ..self }
    }

    /// This state with the flag register holding 1 or 0.
    pub open spec fn with_flag(self, flag: bool) -> State {
        self.with_v(0xF, if flag { 1 } else { 0 })
    }

    /// This state with the program counter two bytes on, around the end of
    /// the sixteen-bit range.
    pub open spec fn advanced(self) -> State {
        State { pc: next_pc(self.pc), ..self }
    }

    /// This state, with the program counter moved over the next instruction
    /// if `taken`.
    pub open spec fn skipping(self, taken: bool) -> State {
        if taken {
            self.advanced()
        } else {
            self
        }
    }

    /// This state after one sixtieth of a second: each timer that is not
    /// zero is one less.
    pub open spec fn ticked(self) -> State {
        State {
            delay_timer: if self.delay_timer > 0 {
                (self.delay_timer - 1) as u8
            } else {
                0
            },
            sound_timer: if self.sound_timer > 0 {
                (self.sound_timer - 1) as u8
            } else {
                0
            },
            ..self
        }
    }

    /// This state after `ticks` sixtieths of a second.
    pub open spec fn ticked_by(self, ticks: nat) -> State {
        State {
            delay_timer: if self.delay_timer > ticks {
                (self.delay_timer - ticks) as u8
            } else {
                0
            },
            sound_timer: if self.sound_timer > ticks {
                (self.sound_timer - ticks) as u8
            } else {
                0
            },
            ..self
        }
    }
}

/// The address two bytes after `pc`, around the end of the range.
pub open spec fn next_pc(pc: u16) -> u16 {
    ((pc + 2) % 0x1_0000) as u16
}

/// The state of a machine that has just been made: the font at the bottom
/// of memory, everything else at zero, the program counter at the entry
/// point.
pub open spec fn initial_state() -> State {
    State {
        memory: Seq::new(MEMORY_SIZE as nat, |a: int| if a < 80 { font()[a] } else { 0u8 }),
        v: Seq::new(16, |r: int| 0u8),
        i: 0,
        pc: ENTRY_POINT,
        gfx: Seq::new((WIDTH * HEIGHT) as nat, |p: int| 0u8),
        delay_timer: 0,
        sound_timer: 0,
        stack: Seq::new(STACK_DEPTH as nat, |d: int| 0u16),
        sp: 0,
        key: Seq::new(16, |k: int| 0u8),
        draw_flag: 1,
        key_flag: false,
        key_register: 0,
        pause: false,
    }
}

/// The glyphs of the sixteen hexadecimal digits, five bytes each.
pub const FONT_SET: [u8; 80] = [
    0xF0, 0x90, 0x90, 0x90, 0xF0,
    0x20, 0x60, 0x20, 0x20, 0x70,
    0xF0, 0x10, 0xF0, 0x80, 0xF0,
    0xF0, 0x10, 0xF0, 0x10, 0xF0,
    0x90, 0x90, 0xF0, 0x10, 0x10,
    0xF0, 0x80, 0xF0, 0x10, 0xF0,
    0xF0, 0x80, 0xF0, 0x90, 0xF0,
    0xF0, 0x10, 0x20, 0x40, 0x40,
    0xF0, 0x90, 0xF0, 0x90, 0xF0,
    0xF0, 0x90, 0xF0, 0x10, 0xF0,
    0xF0, 0x90, 0xF0, 0x90, 0x90,
    0xE0, 0x90, 0xE0, 0x90, 0xE0,
    0xF0, 0x80, 0x80, 0x80, 0xF0,
    0xE0, 0x90, 0x90, 0x90, 0xE0,
    0xF0, 0x80, 0xF0, 0x80, 0xF0,
    0xF0, 0x80, 0xF0, 0x80, 0x80,
];

/// The font as a sequence of 80 bytes.
pub open spec fn font() -> Seq<u8> {
    FONT_SET@
}

/// Memory with the font at the bottom and `image` from the entry point on.
pub open spec fn loaded_memory(memory: Seq<u8>, image: Seq<u8>) -> Seq<u8> {
    Seq::new(
        memory.len(),
        |a: int|
            if a < 80 {
                font()[a]
            } else if ENTRY_POINT <= a < ENTRY_POINT + image.len() {
                image[a - ENTRY_POINT]
            } else {
                memory[a]
            },
    )
}

/// The index of the lowest key that is pressed among the keys from `from`
/// on, or 16 if none of them is.
pub open spec fn lowest_pressed_from(key: Seq<u8>, from: int) -> int
    decreases 16 - from,
{
    if from >= 16 {
        16
    } else if key[from] != 0 {
        from
    } else {
        lowest_pressed_from(key, from + 1)
    }
}

/// The index of the lowest key that is pressed, or 16 if none is.
pub open spec fn lowest_pressed(key: Seq<u8>) -> int {
    lowest_pressed_from(key, 0)
}

/// The big-endian word at `pc`, or the fault of reading beyond memory.
pub open spec fn fetch(s: State) -> Result<u16, Fault> {
    if s.pc + 1 >= MEMORY_SIZE {
        Err(Fault::MemoryOutOfBounds { pc: s.pc, address: (s.pc + 1) as u32 })
    } else {
        Ok((s.memory[s.pc as int] * 256 + s.memory[s.pc + 1]) as u16)
    }
}

/// Memory with the decimal digits of `value` at `i`, `i + 1` and `i + 2`:
/// hundreds, tens, ones.
pub open spec fn with_bcd(memory: Seq<u8>, i: int, value: u8) -> Seq<u8> {
    memory.update(i, value / 100).update(i + 1, (value / 10) % 10).update(i + 2, value % 10)
}

/// Memory with the registers V0 to V`x` at `i` and the bytes after it.
pub open spec fn with_registers(memory: Seq<u8>, i: int, v: Seq<u8>, x: int) -> Seq<u8> {
    Seq::new(
        memory.len(),
        |a: int|
            if i <= a <= i + x {
                v[a - i]
            } else {
                memory[a]
            },
    )
}

/// The registers with V0 to V`x` read from memory at `i` and the bytes
/// after it.
pub open spec fn with_memory(v: Seq<u8>, memory: Seq<u8>, i: int, x: int) -> Seq<u8> {
    Seq::new(
        v.len(),
        |r: int|
            if r <= x {
                memory[i + r]
            } else {
                v[r]
            },
    )
}

/// What an instruction makes of a state, `random` being the byte that
/// chance gives to `Rnd`; or the fault with which it is refused.
///
/// A jump, a call and a return set the program counter to their target. A
/// skip that is taken moves it over one instruction. No other instruction
/// touches it: moving on to the next instruction is left to `cycle`.
pub open spec fn execute(s: State, instr: Instruction, random: u8) -> Result<State, Fault> {
    if !instr.wf() {
        Err(Fault::OperandOutOfRange { pc: s.pc })
    } else {
        match instr {
            Instruction::Cls => Ok(
                State { gfx: Seq::new((WIDTH * HEIGHT) as nat, |p: int| 0u8), ..s },
            ),
            Instruction::Ret => if s.sp == 0 {
                Err(Fault::StackUnderflow { pc: s.pc, depth: s.sp })
            } else {
                Ok(State { sp: (s.sp - 1) as u16, pc: s.stack[s.sp - 1], ..s })
            },
            Instruction::Jp(nnn) => Ok(State { pc: nnn, ..s }),
            Instruction::Call(nnn) => if s.sp >= STACK_DEPTH {
                Err(Fault::StackOverflow { pc: s.pc, depth: s.sp })
            } else {
                Ok(
                    State {
                        stack: s.stack.update(s.sp as int, s.pc),
                        sp: (s.sp + 1) as u16,
                        pc: nnn,
                        ..s
                    },
                )
            },
            Instruction::Se(x, kk) => Ok(s.skipping(s.v[x as int] == kk)),
            Instruction::Sne(x, kk) => Ok(s.skipping(s.v[x as int] != kk)),
            Instruction::SeXY(x, y) => Ok(s.skipping(s.v[x as int] == s.v[y as int])),
            Instruction::LdX(x, kk) => Ok(s.with_v(x, kk)),
            Instruction::AddX(x, kk) => Ok(s.with_v(x, ((s.v[x as int] + kk) % 256) as u8)),
            Instruction::LdXY(x, y) => Ok(s.with_v(x, s.v[y as int])),
            Instruction::Or(x, y) => Ok(s.with_v(x, s.v[x as int] | s.v[y as int])),
            Instruction::And(x, y) => Ok(s.with_v(x, s.v[x as int] & s.v[y as int])),
            Instruction::Xor(x, y) => Ok(s.with_v(x, s.v[x as int] ^ s.v[y as int])),
            Instruction::Add(x, y) => {
                let sum = s.v[x as int] + s.v[y as int];
                Ok(s.with_v(x, (sum % 256) as u8).with_flag(sum > 255))
            },
            Instruction::Sub(x, y) => {
                let difference = s.v[x as int] - s.v[y as int];
                Ok(s.with_v(x, (difference % 256) as u8).with_flag(difference >= 0))
            },
            Instruction::Shr(x) => {
                let flagged = s.with_flag(s.v[x as int] % 2 == 1);
                Ok(flagged.with_v(x, flagged.v[x as int] / 2))
            },
            Instruction::Subn(x, y) => {
                let difference = s.v[y as int] - s.v[x as int];
                Ok(s.with_v(x, (difference % 256) as u8).with_flag(difference >= 0))
            },
            Instruction::Shl(x) => {
                let flagged = s.with_flag(s.v[x as int] >= 128);
                Ok(flagged.with_v(x, ((flagged.v[x as int] * 2) % 256) as u8))
            },
            Instruction::SneXY(x, y) => Ok(s.skipping(s.v[x as int] != s.v[y as int])),
            Instruction::LdI(nnn) => Ok(State { i: nnn, ..s }),
            Instruction::JpV0(nnn) => Ok(State { pc: ((nnn + s.v[0]) % 0x1_0000) as u16, ..s }),
            Instruction::Rnd(x, kk) => Ok(s.with_v(x, random & kk)),
            Instruction::Drw(x, y, n) => if n > 0 && s.i + n > MEMORY_SIZE {
                Err(Fault::MemoryOutOfBounds { pc: s.pc, address: (s.i + n - 1) as u32 })
            } else {
                let sprite = sprite_at(s.memory, s.i as int, n as int);
                let px = s.v[x as int] as int;
                let py = s.v[y as int] as int;
                Ok(
                    State {
                        gfx: draw_gfx(s.gfx, sprite, px, py),
                        draw_flag: 1,
                        ..s.with_flag(collides(s.gfx, sprite, px, py))
                    },
                )
            },
            Instruction::Skp(x) => if s.v[x as int] >= 16 {
                Err(Fault::KeyOutOfBounds { pc: s.pc, key: s.v[x as int] })
            } else {
                Ok(s.skipping(s.key[s.v[x as int] as int] != 0))
            },
            Instruction::Sknp(x) => if s.v[x as int] >= 16 {
                Err(Fault::KeyOutOfBounds { pc: s.pc, key: s.v[x as int] })
            } else {
                Ok(s.skipping(s.key[s.v[x as int] as int] == 0))
            },
            Instruction::LdVxDt(x) => Ok(s.with_v(x, s.delay_timer)),
            Instruction::LdK(x) => {
                let k = lowest_pressed(s.key);
                if k < 16 {
                    Ok(State { key_flag: false, ..s.with_v(x, k as u8) })
                } else {
                    Ok(State { key_flag: true, key_register: x, ..s })
                }
            },
            Instruction::LdDtVx(x) => Ok(State { delay_timer: s.v[x as int], ..s }),
            Instruction::LdSt(x) => Ok(State { sound_timer: s.v[x as int], ..s }),
            Instruction::AddI(x) => Ok(
                State { i: ((s.i + s.v[x as int]) % 0x1_0000) as u16, ..s },
            ),
            Instruction::LdF(x) => Ok(State { i: (s.v[x as int] * 5) as u16, ..s }),
            Instruction::LdB(x) => if s.i + 2 >= MEMORY_SIZE {
                Err(Fault::MemoryOutOfBounds { pc: s.pc, address: (s.i + 2) as u32 })
            } else {
                Ok(State { memory: with_bcd(s.memory, s.i as int, s.v[x as int]), ..s })
            },
            Instruction::LdIx(x) => if s.i + x >= MEMORY_SIZE {
                Err(Fault::MemoryOutOfBounds { pc: s.pc, address: (s.i + x) as u32 })
            } else {
                Ok(State { memory: with_registers(s.memory, s.i as int, s.v, x as int), ..s })
            },
            Instruction::LdVxI(x) => if s.i + x >= MEMORY_SIZE {
                Err(Fault::MemoryOutOfBounds { pc: s.pc, address: (s.i + x) as u32 })
            } else {
                Ok(State { v: with_memory(s.v, s.memory, s.i as int, x as int), ..s })
            },
        }
    }
}

/// Whether `cycle` moves the program counter on after this instruction has
/// left the machine in the state `after`. It does not after a jump, a call
/// or a return, which have set the counter themselves, nor while the
/// machine waits for a key.
pub open spec fn advances(instr: Instruction, after: State) -> bool {
    !after.key_flag && !(instr is Jp || instr is Call || instr is Ret || instr is JpV0)
}

/// What an instruction makes of a state, with the word on whether the
/// program counter is to move on.
pub open spec fn execute_instr(s: State, instr: Instruction, random: u8) -> Result<
    (State, bool),
    Fault,
> {
    match execute(s, instr, random) {
        Err(fault) => Err(fault),
        Ok(after) => Ok((after, advances(instr, after))),
    }
}

/// What executing the word `opcode` makes of a state. A word that stands
/// for no instruction is refused.
pub open spec fn execute_word(s: State, opcode: u16, random: u8) -> Result<(State, bool), Fault> {
    match decode(opcode) {
        None => Err(Fault::UnknownInstruction { pc: s.pc, word: opcode }),
        Some(instr) => execute_instr(s, instr, random),
    }
}

/// What fetching the word at the program counter and executing it makes
/// of a state.
pub open spec fn step(s: State, random: u8) -> Result<(State, bool), Fault> {
    match fetch(s) {
        Err(fault) => Err(fault),
        Ok(opcode) => execute_word(s, opcode, random),
    }
}

/// One whole cycle: fetch the word at the program counter, decode it,
/// execute it, and move the program counter on unless the instruction
/// holds it.
pub open spec fn cycle(s: State, random: u8) -> Result<State, Fault> {
    match step(s, random) {
        Err(fault) => Err(fault),
        Ok((after, advance)) => Ok(
            if advance {
                after.advanced()
            } else {
                after
            },
        ),
    }
}

/// Whether executing the word takes a byte from chance: only `Rnd` does.
pub open spec fn takes_chance(opcode: u16) -> bool {
    decode(opcode) matches Some(Instruction::Rnd(_, _))
}

/// Whether the cycle that starts in this state takes a byte from chance:
/// it does where the word at the program counter is a `Rnd`.
pub open spec fn cycle_takes_chance(s: State) -> bool {
    fetch(s) matches Ok(opcode) && takes_chance(opcode)
}

/// Whether a machine that ran a cycle from the state `before`, chance
/// giving `random`, is in the state `after` and has answered `outcome`.
pub open spec fn cycle_gives(
    before: State,
    random: u8,
    after: State,
    outcome: Result<(), Fault>,
) -> bool {
    match cycle(before, random) {
        Ok(next) => after == next && outcome is Ok,
        Err(fault) => after == before && outcome == Err::<(), Fault>(fault),
    }
}

/// The keys as the machine holds them: 1 for a pressed key, 0 for a free
/// one.
pub open spec fn key_bytes(pressed: Seq<bool>) -> Seq<u8> {
    Seq::new(
        pressed.len(),
        |k: int|
            if pressed[k] {
                1u8
            } else {
                0u8
            },
    )
}

/// The state in which a request leaves the machine, and the answer it
/// gives: those of the model, or the fault and the state as it was.
pub open spec fn settled<T>(before: State, result: Result<(State, T), Fault>) -> (
    State,
    Result<T, Fault>,
) {
    match result {
        Ok((after, value)) => (after, Ok(value)),
        Err(fault) => (before, Err(fault)),
    }
}

} // verus!
