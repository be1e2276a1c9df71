//! The machine that runs: its state in vectors, and the functions that
//! change it, each proved to do what the model says.

use crate::fault::Fault;
use crate::instructions::Instruction;
use crate::model;
use crate::model::ENTRY_POINT;
use crate::model::FONT_SET;
use crate::model::HEIGHT;
use crate::model::MEMORY_SIZE;
use crate::model::State;
use crate::model::WIDTH;
use crate::model::cycle_gives;
use crate::model::cycle_takes_chance;
use crate::model::execute_word;
use crate::model::fetch;
use crate::model::initial_state;
use crate::model::key_bytes;
use crate::model::loaded_memory;
use crate::model::lowest_pressed;
use crate::model::lowest_pressed_from;
use crate::model::settled;
use crate::model::step;
use crate::model::takes_chance;
use crate::model::with_memory;
use crate::model::with_registers;
use crate::sprite::draw_sprite;
use rand::Rng;
use vstd::prelude::*;

verus! {

/// A CHIP-8 machine.
#[derive(Debug, Clone, PartialEq, Eq)]
pub struct Chip8 {
    pub memory: Vec<u8>,
    pub v: Vec<u8>,
    pub i: u16,
    pub pc: u16,
    pub gfx: Vec<u8>,
    pub delay_timer: u8,
    pub sound_timer: u8,
    pub stack: Vec<u16>,
    pub sp: u16,
    pub key: Vec<u8>,
    pub draw_flag: u8,
    pub key_flag: bool,
    pub key_register: u8,
    pub pause: bool,
}

/// Whether the instruction steers the program or tests a condition.
spec fn steers(instr: Instruction) -> bool {
    ||| instr is Cls
        ||| instr is Ret
        ||| instr is Jp
        ||| instr is Call
        ||| instr is Se
        ||| instr is Sne
        ||| instr is SeXY
        ||| instr is SneXY
        ||| instr is JpV0
        ||| instr is Skp
        ||| instr is Sknp
}

/// Whether the instruction computes into a register.
spec fn computes(instr: Instruction) -> bool {
    ||| instr is LdX
        ||| instr is AddX
        ||| instr is LdXY
        ||| instr is Or
        ||| instr is And
        ||| instr is Xor
        ||| instr is Add
        ||| instr is Sub
        ||| instr is Shr
        ||| instr is Subn
        ||| instr is Shl
        ||| instr is Rnd
}

/// Whether the instruction touches memory, the screen, the timers, the
/// keys or the index register.
spec fn stores(instr: Instruction) -> bool {
    !steers(instr) && !computes(instr)
}

/// A byte from the generator of the current thread: `rand::thread_rng`,
/// asked through `Rng::gen_range` for a value from 0 to 255. Nothing is
/// claimed of the byte; any value may come back. The range is never empty,
/// so `gen_range` does not panic; the generator itself panics where the
/// operating system gives it no seed.
#[verifier::external_body]
fn random_byte() -> (byte: u8) {
    rand::thread_rng().gen_range(0..=255)
}

impl View for Chip8 {
    type V = State;

    open spec fn view(&self) -> State {
        State {
            memory: self.memory@,
            v: self.v@,
            i: self.i,
            pc: self.pc,
            gfx: self.gfx@,
            delay_timer: self.delay_timer,
            sound_timer: self.sound_timer,
            stack: self.stack@,
            sp: self.sp,
            key: self.key@,
            draw_flag: self.draw_flag,
            key_flag: self.key_flag,
            key_register: self.key_register,
            pause: self.pause,
        }
    }
}

impl Chip8 {
    /// Whether the machine has the shape that every function here keeps:
    /// vectors of the right lengths, a stack pointer within the stack,
    /// pixels that are 0 or 1.
    pub open spec fn wf(&self) -> bool {
        self@.wf()
    }

    /// A new machine: the font in memory, all else at zero, ready to run
    /// from the entry point.
    pub fn init() -> (machine: Chip8)
        ensures
            machine.wf(),
            machine@ == initial_state(),
    {
        let mut memory: Vec<u8> = vec![0; MEMORY_SIZE];
        let mut a: usize = 0;
        while a < 80
            invariant
                a <= 80,
                memory@.len() == MEMORY_SIZE,
                forall|b: int| 0 <= b < a ==> memory@[b] == FONT_SET@[b],
                forall|b: int| a <= b < MEMORY_SIZE ==> memory@[b] == 0,
            decreases 80 - a,
        {
            memory[a] = FONT_SET[a];
            a += 1;
        }
        let machine = Chip8 {
            memory,
            v: vec![0; 16],
            i: 0x0000,
            pc: ENTRY_POINT,
            gfx: vec![0; WIDTH * HEIGHT],
            delay_timer: 0x00,
            sound_timer: 0x00,
            stack: vec![0; 16],
            sp: 0x0000,
            key: vec![0; 16],
            draw_flag: 0x01,
            key_flag: false,
            key_register: 0,
            pause: false,
        };
        assert(machine@ =~= initial_state());
        machine
    }

    /// Whether the machine is well formed. A machine that was made by
    /// `init` and changed only through the functions of this crate is.
    pub fn is_wf(&self) -> (ok: bool)
        ensures
            ok == self.wf(),
    {
        if self.memory.len() != MEMORY_SIZE || self.v.len() != 16 || self.gfx.len() != WIDTH
            * HEIGHT || self.stack.len() != 16 || self.key.len() != 16 || self.sp > 16
            || self.key_register >= 16 {
            return false;
        }
        let mut p: usize = 0;
        while p < WIDTH * HEIGHT
            invariant
                p <= WIDTH * HEIGHT,
                self.gfx@.len() == WIDTH * HEIGHT,
                forall|q: int| 0 <= q < p ==> #[trigger] self.gfx@[q] <= 1,
            decreases WIDTH * HEIGHT - p,
        {
            if self.gfx[p] > 1 {
                return false;
            }
            p += 1;
        }
        true
    }

    /// Copies the font to the bottom of memory and the program image to
    /// the entry point. An image that does not fit is refused.
    pub fn load_game(&mut self, game_buffer: &[u8]) -> (loaded: Result<(), Fault>)
        requires
            old(self).wf(),
        ensures
            final(self).wf(),
            game_buffer@.len() <= MEMORY_SIZE - ENTRY_POINT ==> loaded is Ok && final(self)@ == (
            State { memory: loaded_memory(old(self)@.memory, game_buffer@), ..old(self)@ }),
            game_buffer@.len() > MEMORY_SIZE - ENTRY_POINT ==> loaded == Err::<(), Fault>(
                Fault::ImageTooLarge { len: game_buffer.len() },
            ) && final(self)@ == old(self)@,
    {
        let len: usize = game_buffer.len();
        if len > MEMORY_SIZE - ENTRY_POINT as usize {
            return Err(Fault::ImageTooLarge { len });
        }
        let mut a: usize = 0;
        while a < 80
            invariant
                a <= 80,
                self.memory@.len() == MEMORY_SIZE,
                forall|b: int| 0 <= b < a ==> self.memory@[b] == FONT_SET@[b],
                forall|b: int| a <= b < MEMORY_SIZE ==> self.memory@[b] == old(self).memory@[b],
                *self == (Chip8 { memory: self.memory, ..*old(self) }),
            decreases 80 - a,
        {
            self.memory[a] = FONT_SET[a];
            a += 1;
        }
        let mut k: usize = 0;
        while k < len
            invariant
                k <= len,
                len == game_buffer@.len(),
                len <= MEMORY_SIZE - ENTRY_POINT,
                self.memory@.len() == MEMORY_SIZE,
                forall|b: int| 0 <= b < 80 ==> self.memory@[b] == FONT_SET@[b],
                forall|b: int|
                    ENTRY_POINT <= b < ENTRY_POINT + k ==> self.memory@[b] == game_buffer@[b
                        - ENTRY_POINT],
                forall|b: int|
                    80 <= b < MEMORY_SIZE && !(ENTRY_POINT <= b < ENTRY_POINT + k)
                        ==> self.memory@[b] == old(self).memory@[b],
                *self == (Chip8 { memory: self.memory, ..*old(self) }),
            decreases len - k,
        {
            self.memory[k + ENTRY_POINT as usize] = game_buffer[k];
            k += 1;
        }
        assert(self@.memory =~= loaded_memory(old(self)@.memory, game_buffer@));
        Ok(())
    }

    /// Reads the instruction word at the program counter, high byte first.
    pub fn get_opcode(&self) -> (opcode: Result<u16, Fault>)
        requires
            self.wf(),
        ensures
            opcode == fetch(self@),
    {
        if self.pc as usize + 1 >= MEMORY_SIZE {
            return Err(Fault::MemoryOutOfBounds { pc: self.pc, address: self.pc as u32 + 1 });
        }
        let high: u8 = self.memory[self.pc as usize];
        let low: u8 = self.memory[self.pc as usize + 1];
        assert((high as u16) << 8 | (low as u16) == high * 256 + low) by (bit_vector);
        Ok((high as u16) << 8 | low as u16)
    }

    /// Moves the program counter to the next instruction.
    pub fn next_opcode(&mut self)
        ensures
            final(self)@ == old(self)@.advanced(),
    {
        self.pc = self.pc.wrapping_add(2);
    }

    /// The lowest key that is pressed, or 16 if none is.
    fn pressed_key(&self) -> (k: u8)
        requires
            self.wf(),
        ensures
            k == lowest_pressed(self.key@),
    {
        let mut k: u8 = 0;
        while k < 16
            invariant
                k <= 16,
                self.key@.len() == 16,
                lowest_pressed_from(self.key@, k as int) == lowest_pressed(self.key@),
            decreases 16 - k,
        {
            if self.key[k as usize] != 0 {
                return k;
            }
            k += 1;
        }
        k
    }

    /// Copies the registers V0 to V`x` to memory at `i`.
    fn dump_registers(&mut self, x: u8)
        requires
            old(self).wf(),
            x < 16,
            old(self).i + x < MEMORY_SIZE,
        ensures
            final(self)@ == (State {
                memory: with_registers(
                    old(self)@.memory,
                    old(self).i as int,
                    old(self)@.v,
                    x as int,
                ),
                ..old(self)@
            }),
    {
        let base: usize = self.i as usize;
        let mut r: u8 = 0;
        while r <= x
            invariant
                r <= x + 1,
                x < 16,
                base == old(self).i,
                base + x < MEMORY_SIZE,
                self.v@.len() == 16,
                self.memory@.len() == MEMORY_SIZE,
                self.memory@ =~= with_registers(old(self)@.memory, base as int, self.v@, r - 1),
                *self == (Chip8 { memory: self.memory, ..*old(self) }),
            decreases x + 1 - r,
        {
            self.memory[base + r as usize] = self.v[r as usize];
            r += 1;
        }
    }

    /// Copies memory at `i` to the registers V0 to V`x`.
    fn load_registers(&mut self, x: u8)
        requires
            old(self).wf(),
            x < 16,
            old(self).i + x < MEMORY_SIZE,
        ensures
            final(self)@ == (State {
                v: with_memory(old(self)@.v, old(self)@.memory, old(self).i as int, x as int),
                ..old(self)@
            }),
    {
        let base: usize = self.i as usize;
        let mut r: u8 = 0;
        while r <= x
            invariant
                r <= x + 1,
                x < 16,
                base == old(self).i,
                base + x < MEMORY_SIZE,
                self.memory@.len() == MEMORY_SIZE,
                self.v@.len() == 16,
                self.v@ =~= with_memory(old(self)@.v, self.memory@, base as int, r - 1),
                *self == (Chip8 { v: self.v, ..*old(self) }),
            decreases x + 1 - r,
        {
            self.v[r as usize] = self.memory[base + r as usize];
            r += 1;
        }
    }

    /// Puts `value` into register `x`.
    fn write_v(&mut self, x: u8, value: u8)
        requires
            old(self).wf(),
            x < 16,
        ensures
            final(self).wf(),
            final(self)@ == old(self)@.with_v(x, value),
    {
        self.v[x as usize] = value;
    }

    /// Puts 1 or 0 into the flag register.
    fn write_flag(&mut self, flag: bool)
        requires
            old(self).wf(),
        ensures
            final(self).wf(),
            final(self)@ == old(self)@.with_flag(flag),
    {
        self.v[0xF] = if flag {
            1
        } else {
            0
        };
    }

    /// Moves the program counter over the next instruction if `taken`.
    fn skip_if(&mut self, taken: bool)
        requires
            old(self).wf(),
        ensures
            final(self).wf(),
            final(self)@ == old(self)@.skipping(taken),
    {
        if taken {
            self.pc = self.pc.wrapping_add(2);
        }
    }

    /// Applies one instruction to the machine, `random` being the byte
    /// that `Rnd` is to use, and tells whether the program counter is to
    /// move on to the next instruction afterwards. An instruction that
    /// cannot be carried out is refused with its fault and changes
    /// nothing.
    pub fn execute(&mut self, instr: Instruction, random: u8) -> (outcome: Result<bool, Fault>)
        requires
            old(self).wf(),
        ensures
            final(self).wf(),
            (final(self)@, outcome) == settled(
                old(self)@,
                model::execute_instr(old(self)@, instr, random),
            ),
    {
        if !instr.is_wf() {
            return Err(Fault::OperandOutOfRange { pc: self.pc });
        }
        match instr {
            Instruction::Cls
            | Instruction::Ret
            | Instruction::Jp(_)
            | Instruction::Call(_)
            | Instruction::Se(_, _)
            | Instruction::Sne(_, _)
            | Instruction::SeXY(_, _)
            | Instruction::SneXY(_, _)
            | Instruction::JpV0(_)
            | Instruction::Skp(_)
            | Instruction::Sknp(_) => self.execute_flow(instr),
            Instruction::LdX(_, _)
            | Instruction::AddX(_, _)
            | Instruction::LdXY(_, _)
            | Instruction::Or(_, _)
            | Instruction::And(_, _)
            | Instruction::Xor(_, _)
            | Instruction::Add(_, _)
            | Instruction::Sub(_, _)
            | Instruction::Shr(_)
            | Instruction::Subn(_, _)
            | Instruction::Shl(_)
            | Instruction::Rnd(_, _) => self.execute_arithmetic(instr, random),
            _ => self.execute_memory(instr),
        }
    }

    /// The instructions that steer the program or test a condition.
    fn execute_flow(&mut self, instr: Instruction) -> (outcome: Result<bool, Fault>)
        requires
            old(self).wf(),
            instr.wf(),
            steers(instr),
        ensures
            final(self).wf(),
            (final(self)@, outcome) == settled(
                old(self)@,
                model::execute_instr(old(self)@, instr, 0),
            ),
    {
        let mut holds: bool = false;
        match instr {
            Instruction::Cls => {
                self.gfx = vec![0; WIDTH * HEIGHT];
                assert(self.gfx@ =~= Seq::new((WIDTH * HEIGHT) as nat, |p: int| 0u8));
            },
            Instruction::Ret => {
                if self.sp == 0 {
                    return Err(Fault::StackUnderflow { pc: self.pc, depth: self.sp });
                }
                self.sp -= 1;
                self.pc = self.stack[self.sp as usize];
                holds = true;
            },
            Instruction::Jp(addr) => {
                self.pc = addr;
                holds = true;
            },
            Instruction::Call(addr) => {
                if self.sp >= 16 {
                    return Err(Fault::StackOverflow { pc: self.pc, depth: self.sp });
                }
                self.stack[self.sp as usize] = self.pc;
                self.sp += 1;
                self.pc = addr;
                holds = true;
            },
            Instruction::Se(x, byte) => {
                self.skip_if(self.v[x as usize] == byte);
            },
            Instruction::Sne(x, byte) => {
                self.skip_if(self.v[x as usize] != byte);
            },
            Instruction::SeXY(x, y) => {
                self.skip_if(self.v[x as usize] == self.v[y as usize]);
            },
            Instruction::SneXY(x, y) => {
                self.skip_if(self.v[x as usize] != self.v[y as usize]);
            },
            Instruction::JpV0(addr) => {
                self.pc = addr.wrapping_add(self.v[0] as u16);
                holds = true;
            },
            Instruction::Skp(x) => {
                let k: u8 = self.v[x as usize];
                if k >= 16 {
                    return Err(Fault::KeyOutOfBounds { pc: self.pc, key: k });
                }
                self.skip_if(self.key[k as usize] != 0);
            },
            Instruction::Sknp(x) => {
                let k: u8 = self.v[x as usize];
                if k >= 16 {
                    return Err(Fault::KeyOutOfBounds { pc: self.pc, key: k });
                }
                self.skip_if(self.key[k as usize] == 0);
            },
            _ => {},
        }
        Ok(!self.key_flag && !holds)
    }

    /// The instructions that compute into a register.
    fn execute_arithmetic(&mut self, instr: Instruction, random: u8) -> (outcome: Result<
        bool,
        Fault,
    >)
        requires
            old(self).wf(),
            instr.wf(),
            computes(instr),
        ensures
            final(self).wf(),
            (final(self)@, outcome) == settled(
                old(self)@,
                model::execute_instr(old(self)@, instr, random),
            ),
    {
        match instr {
            Instruction::LdX(x, byte) => {
                self.write_v(x, byte);
            },
            Instruction::AddX(x, byte) => {
                let a: u8 = self.v[x as usize];
                let sum: u8 = a.wrapping_add(byte);
                assert(sum == (a + byte) % 256);
                self.write_v(x, sum);
            },
            Instruction::LdXY(x, y) => {
                let b: u8 = self.v[y as usize];
                self.write_v(x, b);
            },
            Instruction::Or(x, y) => {
                let a: u8 = self.v[x as usize];
                let b: u8 = self.v[y as usize];
                self.write_v(x, a | b);
            },
            Instruction::And(x, y) => {
                let a: u8 = self.v[x as usize];
                let b: u8 = self.v[y as usize];
                self.write_v(x, a & b);
            },
            Instruction::Xor(x, y) => {
                let a: u8 = self.v[x as usize];
                let b: u8 = self.v[y as usize];
                self.write_v(x, a ^ b);
            },
            Instruction::Add(x, y) => {
                let a: u8 = self.v[x as usize];
                let b: u8 = self.v[y as usize];
                let sum: u8 = a.wrapping_add(b);
                assert(sum == (a + b) % 256);
                self.write_v(x, sum);
                self.write_flag(a as u16 + b as u16 > 255);
            },
            Instruction::Sub(x, y) => {
                let a: u8 = self.v[x as usize];
                let b: u8 = self.v[y as usize];
                let difference: u8 = a.wrapping_sub(b);
                assert(difference == (a - b) % 256);
                self.write_v(x, difference);
                self.write_flag(a >= b);
            },
            Instruction::Shr(x) => {
                let a: u8 = self.v[x as usize];
                assert((a & 0x01 == 1) == (a % 2 == 1)) by (bit_vector);
                self.write_flag(a & 0x01 == 1);
                let b: u8 = self.v[x as usize];
                assert(b >> 1 == b / 2) by (bit_vector);
                self.write_v(x, b >> 1);
            },
            Instruction::Subn(x, y) => {
                let a: u8 = self.v[x as usize];
                let b: u8 = self.v[y as usize];
                let difference: u8 = b.wrapping_sub(a);
                assert(difference == (b - a) % 256);
                self.write_v(x, difference);
                self.write_flag(b >= a);
            },
            Instruction::Shl(x) => {
                let a: u8 = self.v[x as usize];
                assert(((a & 0x80) >> 7 == 1) == (a >= 128)) by (bit_vector);
                self.write_flag((a & 0x80) >> 7 == 1);
                let b: u8 = self.v[x as usize];
                assert(b << 1 == (b * 2) % 256) by (bit_vector);
                self.write_v(x, b << 1);
            },
            Instruction::Rnd(x, byte) => {
                self.write_v(x, random & byte);
            },
            _ => {},
        }
        Ok(!self.key_flag)
    }

    /// The instructions that touch memory, the screen, the timers, the
    /// keys or the index register.
    fn execute_memory(&mut self, instr: Instruction) -> (outcome: Result<bool, Fault>)
        requires
            old(self).wf(),
            instr.wf(),
            stores(instr),
        ensures
            final(self).wf(),
            (final(self)@, outcome) == settled(
                old(self)@,
                model::execute_instr(old(self)@, instr, 0),
            ),
    {
        match instr {
            Instruction::LdI(addr) => {
                self.i = addr;
            },
            Instruction::Drw(x, y, n) => {
                if n > 0 && self.i as usize + n as usize > MEMORY_SIZE {
                    return Err(
                        Fault::MemoryOutOfBounds {
                            pc: self.pc,
                            address: self.i as u32 + n as u32 - 1,
                        },
                    );
                }
                let px: u8 = self.v[x as usize];
                let py: u8 = self.v[y as usize];
                let collision: bool = draw_sprite(
                    &mut self.gfx,
                    &self.memory,
                    self.i as usize,
                    n,
                    px,
                    py,
                );
                self.write_flag(collision);
                self.draw_flag = 1;
            },
            Instruction::LdVxDt(x) => {
                self.write_v(x, self.delay_timer);
            },
            Instruction::LdK(x) => {
                let k: u8 = self.pressed_key();
                if k < 16 {
                    self.write_v(x, k);
                    self.key_flag = false;
                } else {
                    self.key_flag = true;
                    self.key_register = x;
                }
            },
            Instruction::LdDtVx(x) => {
                self.delay_timer = self.v[x as usize];
            },
            Instruction::LdSt(x) => {
                self.sound_timer = self.v[x as usize];
            },
            Instruction::AddI(x) => {
                self.i = self.i.wrapping_add(self.v[x as usize] as u16);
            },
            Instruction::LdF(x) => {
                self.i = self.v[x as usize] as u16 * 5;
            },
            Instruction::LdB(x) => {
                let num: u8 = self.v[x as usize];
                let pos: usize = self.i as usize;
                if pos + 2 >= MEMORY_SIZE {
                    return Err(
                        Fault::MemoryOutOfBounds { pc: self.pc, address: self.i as u32 + 2 },
                    );
                }
                self.memory[pos] = num / 100;
                self.memory[pos + 1] = (num / 10) % 10;
                self.memory[pos + 2] = num % 10;
            },
            Instruction::LdIx(x) => {
                if self.i as usize + x as usize >= MEMORY_SIZE {
                    return Err(
                        Fault::MemoryOutOfBounds {
                            pc: self.pc,
                            address: self.i as u32 + x as u32,
                        },
                    );
                }
                self.dump_registers(x);
            },
            Instruction::LdVxI(x) => {
                if self.i as usize + x as usize >= MEMORY_SIZE {
                    return Err(
                        Fault::MemoryOutOfBounds {
                            pc: self.pc,
                            address: self.i as u32 + x as u32,
                        },
                    );
                }
                self.load_registers(x);
            },
            _ => {},
        }
        Ok(!self.key_flag)
    }

    /// Decodes and executes one instruction word, and tells whether the
    /// program counter is to move on afterwards. `Rnd` takes its byte from
    /// the thread's random generator, so of its result only this is known:
    /// it is what some byte gives. Every other word has one result.
    pub fn fetch_and_execute(&mut self, opcode: u16) -> (outcome: Result<bool, Fault>)
        requires
            old(self).wf(),
        ensures
            final(self).wf(),
            exists|random: u8|
                (final(self)@, outcome) == #[trigger] settled(
                    old(self)@,
                    execute_word(old(self)@, opcode, random),
                ),
            !takes_chance(opcode) ==> (final(self)@, outcome) == settled(
                old(self)@,
                execute_word(old(self)@, opcode, 0),
            ),
    {
        match Instruction::from_u16(opcode) {
            None => {
                let outcome = Err(Fault::UnknownInstruction { pc: self.pc, word: opcode });
                assert((self@, outcome) == settled(old(self)@, execute_word(old(self)@, opcode, 0)));
                outcome
            },
            Some(Instruction::Rnd(x, byte)) => {
                let random: u8 = random_byte();
                let outcome = self.execute(Instruction::Rnd(x, byte), random);
                assert((self@, outcome) == settled(
                    old(self)@,
                    execute_word(old(self)@, opcode, random),
                ));
                outcome
            },
            Some(instr) => {
                let outcome = self.execute(instr, 0);
                assert((self@, outcome) == settled(old(self)@, execute_word(old(self)@, opcode, 0)));
                outcome
            },
        }
    }

    /// Fetches the word at the program counter and executes it. The
    /// program counter is left for the caller to move on, if the answer
    /// says so.
    pub fn emulate_cycle(&mut self) -> (outcome: Result<bool, Fault>)
        requires
            old(self).wf(),
        ensures
            final(self).wf(),
            exists|random: u8|
                (final(self)@, outcome) == #[trigger] settled(old(self)@, step(old(self)@, random)),
            !cycle_takes_chance(old(self)@) ==> (final(self)@, outcome) == settled(
                old(self)@,
                step(old(self)@, 0),
            ),
    {
        match self.get_opcode() {
            Err(fault) => {
                let outcome = Err(fault);
                assert((self@, outcome) == settled(old(self)@, step(old(self)@, 0)));
                outcome
            },
            Ok(opcode) => {
                let outcome = self.fetch_and_execute(opcode);
                let ghost random = choose|random: u8|
                    (self@, outcome) == #[trigger] settled(
                        old(self)@,
                        execute_word(old(self)@, opcode, random),
                    );
                assert((self@, outcome) == settled(old(self)@, step(old(self)@, random)));
                outcome
            },
        }
    }

    /// Runs one whole cycle: fetch, decode, execute, and move the program
    /// counter on unless the instruction holds it. A fault leaves the
    /// machine as it was; after an unknown instruction the caller may step
    /// over the word with `next_opcode`.
    pub fn cycle(&mut self) -> (outcome: Result<(), Fault>)
        requires
            old(self).wf(),
        ensures
            final(self).wf(),
            exists|random: u8| #[trigger] cycle_gives(old(self)@, random, final(self)@, outcome),
            !cycle_takes_chance(old(self)@) ==> cycle_gives(old(self)@, 0, final(self)@, outcome),
    {
        match self.emulate_cycle() {
            Err(fault) => {
                let ghost random = choose|random: u8|
                    (self@, Err::<bool, Fault>(fault)) == #[trigger] settled(
                        old(self)@,
                        step(old(self)@, random),
                    );
                assert(cycle_gives(old(self)@, random, self@, Err(fault)));
                Err(fault)
            },
            Ok(advance) => {
                let ghost random = choose|random: u8|
                    (self@, Ok::<bool, Fault>(advance)) == #[trigger] settled(
                        old(self)@,
                        step(old(self)@, random),
                    );
                if advance {
                    self.next_opcode();
                }
                assert(cycle_gives(old(self)@, random, self@, Ok(())));
                Ok(())
            },
        }
    }

    /// Runs one whole cycle as `cycle` does, with `random` as the byte of
    /// chance in place of the generator's: with the bytes of a seeded
    /// source a run can be repeated.
    pub fn cycle_with(&mut self, random: u8) -> (outcome: Result<(), Fault>)
        requires
            old(self).wf(),
        ensures
            final(self).wf(),
            cycle_gives(old(self)@, random, final(self)@, outcome),
    {
        let opcode: u16 = match self.get_opcode() {
            Ok(opcode) => opcode,
            Err(fault) => {
                return Err(fault);
            },
        };
        let instr: Instruction = match Instruction::from_u16(opcode) {
            Some(instr) => instr,
            None => {
                return Err(Fault::UnknownInstruction { pc: self.pc, word: opcode });
            },
        };
        match self.execute(instr, random) {
            Err(fault) => Err(fault),
            Ok(advance) => {
                if advance {
                    self.next_opcode();
                }
                Ok(())
            },
        }
    }

    /// Takes over the keys from the keyboard: key `k` is pressed where
    /// `pressed[k]` is true.
    pub fn set_keys(&mut self, pressed: &[bool; 16])
        requires
            old(self).wf(),
        ensures
            final(self).wf(),
            final(self)@ == (State { key: key_bytes(pressed@), ..old(self)@ }),
    {
        let mut k: usize = 0;
        while k < 16
            invariant
                k <= 16,
                self.key@.len() == 16,
                forall|j: int| 0 <= j < k ==> self.key@[j] == key_bytes(pressed@)[j],
                *self == (Chip8 { key: self.key, ..*old(self) }),
            decreases 16 - k,
        {
            self.key[k] = if pressed[k] {
                1
            } else {
                0
            };
            k += 1;
        }
        assert(self.key@ =~= key_bytes(pressed@));
    }

    /// Lets one sixtieth of a second pass: each timer that is not zero
    /// goes down by one.
    pub fn tick_timers(&mut self)
        ensures
            final(self)@ == old(self)@.ticked(),
    {
        if self.delay_timer > 0 {
            self.delay_timer -= 1;
        }
        if self.sound_timer > 0 {
            self.sound_timer -= 1;
        }
    }

    /// Lets `ticks` sixtieths of a second pass at once.
    pub fn advance_timers(&mut self, ticks: u128)
        ensures
            final(self)@ == old(self)@.ticked_by(ticks as nat),
    {
        if ticks >= self.delay_timer as u128 {
            self.delay_timer = 0;
        } else {
            self.delay_timer -= ticks as u8;
        }
        if ticks >= self.sound_timer as u128 {
            self.sound_timer = 0;
        } else {
            self.sound_timer -= ticks as u8;
        }
    }
}

} // verus!
