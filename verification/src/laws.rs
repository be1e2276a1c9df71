//! Laws of the machine, proved of the model that the executable machine
//! follows.

use crate::fault::Fault;
use crate::instructions::decode;
use crate::instructions::Instruction;
use crate::model::cycle;
use crate::model::execute;
use crate::model::fetch;
use crate::model::lowest_pressed;
use crate::model::lowest_pressed_from;
use crate::model::next_pc;
use crate::model::State;
use crate::sprite::collides;
use crate::sprite::covers;
use crate::sprite::draw_gfx;
use crate::sprite::sprite_at;
use vstd::prelude::*;

verus! {

/// An instruction that is carried out leaves the machine well formed.
pub proof fn lemma_execute_keeps_wf(s: State, instr: Instruction, random: u8)
    requires
        s.wf(),
    ensures
        execute(s, instr, random) matches Ok(after) ==> after.wf(),
{
}

/// A cycle that is carried out leaves the machine well formed.
pub proof fn lemma_cycle_keeps_wf(s: State, random: u8)
    requires
        s.wf(),
    ensures
        cycle(s, random) matches Ok(after) ==> after.wf(),
{
    if fetch(s) is Ok && decode(fetch(s)->Ok_0) is Some {
        lemma_execute_keeps_wf(s, decode(fetch(s)->Ok_0)->Some_0, random);
    }
}

/// Only `Rnd` reads the byte of chance: every other instruction gives the
/// same result whatever the byte.
pub proof fn lemma_chance_only_in_rnd(s: State, instr: Instruction, a: u8, b: u8)
    requires
        !(instr is Rnd),
    ensures
        execute(s, instr, a) == execute(s, instr, b),
{
}

/// `Add` sets the flag to 1 exactly when the true sum exceeds 255, and
/// leaves the sum modulo 256 in the first register, unless that is the flag
/// register.
pub proof fn lemma_add_sets_carry(s: State, x: u8, y: u8, random: u8)
    requires
        s.wf(),
        x < 16,
        y < 16,
    ensures
        execute(s, Instruction::Add(x, y), random) matches Ok(after) && {
            let sum = s.v[x as int] + s.v[y as int];
            &&& after.v[0xF] == if sum > 255 {
                1int
            } else {
                0int
            }
            &&& x != 0xF ==> after.v[x as int] == sum % 256
            &&& forall|r: int| 0 <= r < 0xF && r != x ==> after.v[r] == s.v[r]
        },
{
}

/// `Sub` sets the flag to 1 exactly when nothing is borrowed, that is when
/// the first register is at least the second, and leaves the difference
/// modulo 256 in the first register, unless that is the flag register.
pub proof fn lemma_sub_sets_no_borrow(s: State, x: u8, y: u8, random: u8)
    requires
        s.wf(),
        x < 16,
        y < 16,
    ensures
        execute(s, Instruction::Sub(x, y), random) matches Ok(after) && {
            let difference = s.v[x as int] - s.v[y as int];
            &&& after.v[0xF] == if s.v[x as int] >= s.v[y as int] {
                1int
            } else {
                0int
            }
            &&& x != 0xF ==> after.v[x as int] == difference % 256
            &&& forall|r: int| 0 <= r < 0xF && r != x ==> after.v[r] == s.v[r]
        },
{
}

/// `Subn` subtracts the other way round: the flag is 1 exactly when the
/// second register is at least the first.
pub proof fn lemma_subn_sets_no_borrow(s: State, x: u8, y: u8, random: u8)
    requires
        s.wf(),
        x < 16,
        y < 16,
    ensures
        execute(s, Instruction::Subn(x, y), random) matches Ok(after) && {
            let difference = s.v[y as int] - s.v[x as int];
            &&& after.v[0xF] == if s.v[y as int] >= s.v[x as int] {
                1int
            } else {
                0int
            }
            &&& x != 0xF ==> after.v[x as int] == difference % 256
            &&& forall|r: int| 0 <= r < 0xF && r != x ==> after.v[r] == s.v[r]
        },
{
}

/// `Shr` leaves in the flag the lowest bit that the register had before
/// the shift, and in the register half its value. Where the register is the
/// flag register itself the shift comes last and clears it, so the law
/// leaves out a flag register that holds an odd value.
pub proof fn lemma_shr_keeps_low_bit(s: State, x: u8, random: u8)
    requires
        s.wf(),
        x < 16,
        x != 0xF || s.v[0xF] % 2 == 0,
    ensures
        execute(s, Instruction::Shr(x), random) matches Ok(after) && {
            &&& after.v[0xF] == s.v[x as int] % 2
            &&& x != 0xF ==> after.v[x as int] == s.v[x as int] / 2
            &&& forall|r: int| 0 <= r < 0xF && r != x ==> after.v[r] == s.v[r]
        },
{
}

/// `Shl` leaves in the flag the highest bit that the register had before
/// the shift, and in the register twice its value modulo 256. Where the
/// register is the flag register itself the shift comes last, so the law
/// leaves out a flag register whose highest bit is set.
pub proof fn lemma_shl_keeps_high_bit(s: State, x: u8, random: u8)
    requires
        s.wf(),
        x < 16,
        x != 0xF || s.v[0xF] < 128,
    ensures
        execute(s, Instruction::Shl(x), random) matches Ok(after) && {
            &&& after.v[0xF] == s.v[x as int] / 128
            &&& x != 0xF ==> after.v[x as int] == (s.v[x as int] * 2) % 256
            &&& forall|r: int| 0 <= r < 0xF && r != x ==> after.v[r] == s.v[r]
        },
{
}

/// Drawing flips exactly the pixels that the sprite covers, and sets the
/// flag to 1 exactly when a pixel that was on went off.
pub proof fn lemma_draw_flags_collision(s: State, x: u8, y: u8, n: u8, random: u8)
    requires
        s.wf(),
        x < 16,
        y < 16,
        n < 16,
        n > 0 ==> s.i + n <= 4096,
    ensures
        execute(s, Instruction::Drw(x, y, n), random) matches Ok(after) && {
            &&& after.v[0xF] <= 1
            &&& after.v[0xF] == 1 <==> exists|p: int|
                0 <= p < 2048 && #[trigger] s.gfx[p] == 1 && after.gfx[p] == 0
            &&& forall|r: int| 0 <= r < 0xF ==> after.v[r] == s.v[r]
            &&& after.memory == s.memory
            &&& after.i == s.i
        },
{
    let sprite = sprite_at(s.memory, s.i as int, n as int);
    let px = s.v[x as int] as int;
    let py = s.v[y as int] as int;
    let after = execute(s, Instruction::Drw(x, y, n), random)->Ok_0;
    assert(after.gfx == draw_gfx(s.gfx, sprite, px, py));
    if collides(s.gfx, sprite, px, py) {
        let p = choose|p: int|
            0 <= p < s.gfx.len() && #[trigger] covers(sprite, px, py, p) && s.gfx[p] == 1;
        assert(s.gfx[p] == 1 && after.gfx[p] == 0);
    }
    if exists|p: int| 0 <= p < 2048 && #[trigger] s.gfx[p] == 1 && after.gfx[p] == 0 {
        let p = choose|p: int| 0 <= p < 2048 && #[trigger] s.gfx[p] == 1 && after.gfx[p] == 0;
        assert(covers(sprite, px, py, p));
    }
}

/// Drawing the same sprite twice at the same position leaves every pixel
/// as it was before the first draw.
///
/// The position is read from the registers at each draw, and the first
/// draw writes the flag register: the law speaks of draws for which both
/// read the same position.
pub proof fn lemma_draw_twice_restores(s: State, x: u8, y: u8, n: u8, random: u8)
    requires
        s.wf(),
        x < 16,
        y < 16,
        n < 16,
        n > 0 ==> s.i + n <= 4096,
        execute(s, Instruction::Drw(x, y, n), random) matches Ok(once) ==> once.v[x as int]
            == s.v[x as int] && once.v[y as int] == s.v[y as int],
    ensures
        execute(s, Instruction::Drw(x, y, n), random) matches Ok(once) && execute(
            once,
            Instruction::Drw(x, y, n),
            random,
        ) matches Ok(twice) && twice.gfx == s.gfx,
{
    let sprite = sprite_at(s.memory, s.i as int, n as int);
    let px = s.v[x as int] as int;
    let py = s.v[y as int] as int;
    let once = execute(s, Instruction::Drw(x, y, n), random)->Ok_0;
    let twice = execute(once, Instruction::Drw(x, y, n), random)->Ok_0;
    assert(once.gfx == draw_gfx(s.gfx, sprite, px, py));
    assert(twice.gfx == draw_gfx(once.gfx, sprite, px, py));
    assert(twice.gfx =~= s.gfx);
}

/// A call succeeds exactly when fewer than sixteen return addresses are on
/// the stack; with sixteen it is refused as an overflow. A call that
/// succeeds puts the address of the call on the stack and goes to its
/// target.
pub proof fn lemma_call(s: State, nnn: u16, random: u8)
    requires
        s.wf(),
        nnn < 4096,
    ensures
        s.sp < 16 ==> (execute(s, Instruction::Call(nnn), random) matches Ok(after) && after.sp
            == s.sp + 1 && after.stack[s.sp as int] == s.pc && after.pc == nnn),
        s.sp == 16 ==> execute(s, Instruction::Call(nnn), random) == Err::<State, Fault>(
            Fault::StackOverflow { pc: s.pc, depth: 16 },
        ),
{
}

/// A return succeeds exactly when the stack holds a return address; with
/// an empty stack it is refused as an underflow. A return that succeeds
/// takes the topmost address off the stack and goes there.
pub proof fn lemma_ret(s: State, random: u8)
    requires
        s.wf(),
    ensures
        s.sp > 0 ==> (execute(s, Instruction::Ret, random) matches Ok(after) && after.sp == s.sp
            - 1 && after.pc == s.stack[s.sp - 1]),
        s.sp == 0 ==> execute(s, Instruction::Ret, random) == Err::<State, Fault>(
            Fault::StackUnderflow { pc: s.pc, depth: 0 },
        ),
{
}

/// A return undoes a call: it brings back the program counter and the
/// stack pointer that the machine had at the call.
pub proof fn lemma_ret_undoes_call(s: State, nnn: u16, random: u8)
    requires
        s.wf(),
        nnn < 4096,
        s.sp < 16,
    ensures
        execute(s, Instruction::Call(nnn), random) matches Ok(called) && execute(
            called,
            Instruction::Ret,
            random,
        ) matches Ok(back) && back.pc == s.pc && back.sp == s.sp,
{
}

/// The state after calling each of `targets` in turn, the one call nested
/// in the other, or the fault of the first call that is refused.
pub open spec fn after_calls(s: State, targets: Seq<u16>) -> Result<State, Fault>
    decreases targets.len(),
{
    if targets.len() == 0 {
        Ok(s)
    } else {
        match after_calls(s, targets.drop_last()) {
            Err(fault) => Err(fault),
            Ok(before) => execute(before, Instruction::Call(targets.last()), 0),
        }
    }
}

/// Nested calls succeed as long as the stack has room and no longer: from
/// an empty stack sixteen calls succeed and the seventeenth is an overflow.
pub proof fn lemma_nested_calls(s: State, targets: Seq<u16>)
    requires
        s.wf(),
        forall|k: int| 0 <= k < targets.len() ==> targets[k] < 4096,
    ensures
        s.sp + targets.len() <= 16 ==> (after_calls(s, targets) matches Ok(after) && after.wf()
            && after.sp == s.sp + targets.len()),
        s.sp + targets.len() > 16 ==> (after_calls(s, targets) matches Err(fault)
            && fault is StackOverflow),
    decreases targets.len(),
{
    if targets.len() > 0 {
        lemma_nested_calls(s, targets.drop_last());
    }
}

/// The timers go down by exactly one a tick and stop at zero: `ticks`
/// ticks at once are `ticks` single ticks.
pub proof fn lemma_ticks_add_up(s: State, ticks: nat)
    ensures
        s.ticked_by(0) == s,
        s.ticked_by(ticks).ticked() == s.ticked_by(ticks + 1),
        s.ticked_by(ticks).delay_timer == if s.delay_timer >= ticks {
            s.delay_timer - ticks
        } else {
            0
        },
        s.ticked_by(ticks).sound_timer == if s.sound_timer >= ticks {
            s.sound_timer - ticks
        } else {
            0
        },
{
}

/// Ticks add up: letting `a` ticks pass and then `b` is letting `a + b`
/// pass, however the time is cut into pieces.
pub proof fn lemma_ticks_compose(s: State, a: nat, b: nat)
    ensures
        s.ticked_by(a).ticked_by(b) == s.ticked_by(a + b),
{
}

/// The timers do not depend on how many instructions run: no instruction
/// changes a timer but the two that load it from a register.
pub proof fn lemma_instructions_leave_timers(s: State, instr: Instruction, random: u8)
    requires
        s.wf(),
    ensures
        execute(s, instr, random) matches Ok(after) ==> {
            &&& !(instr is LdDtVx) ==> after.delay_timer == s.delay_timer
            &&& !(instr is LdSt) ==> after.sound_timer == s.sound_timer
        },
{
}

/// What `lowest_pressed` gives is the lowest key that is pressed: that key
/// is pressed and none below it is; it is 16 exactly when no key is.
pub proof fn lemma_lowest_pressed(key: Seq<u8>)
    requires
        key.len() == 16,
    ensures
        0 <= lowest_pressed(key) <= 16,
        lowest_pressed(key) < 16 ==> key[lowest_pressed(key)] != 0,
        forall|j: int| 0 <= j < lowest_pressed(key) ==> key[j] == 0,
{
    lemma_lowest_pressed_from(key, 0);
}

/// The same of the keys from `from` on.
proof fn lemma_lowest_pressed_from(key: Seq<u8>, from: int)
    requires
        key.len() == 16,
        0 <= from <= 16,
    ensures
        from <= lowest_pressed_from(key, from) <= 16,
        lowest_pressed_from(key, from) < 16 ==> key[lowest_pressed_from(key, from)] != 0,
        forall|j: int| from <= j < lowest_pressed_from(key, from) ==> key[j] == 0,
    decreases 16 - from,
{
    if from < 16 && key[from] == 0 {
        lemma_lowest_pressed_from(key, from + 1);
    }
}

/// A key read with no key pressed holds the machine where it is: the cycle
/// sets the wait and nothing else, and every further cycle leaves the
/// machine unchanged, so the program counter does not move however often
/// the cycle is run.
pub proof fn lemma_key_read_waits(s: State, x: u8, random: u8)
    requires
        s.wf(),
        fetch(s) matches Ok(word) && decode(word) == Some(Instruction::LdK(x)),
        forall|k: int| 0 <= k < 16 ==> s.key[k] == 0,
    ensures
        cycle(s, random) matches Ok(waiting) && waiting == (State {
            key_flag: true,
            key_register: x,
            ..s
        }) && cycle(waiting, random) == Ok::<State, Fault>(waiting),
{
    lemma_lowest_pressed(s.key);
    crate::instructions::lemma_decode_wf(fetch(s)->Ok_0);
    let waiting = State { key_flag: true, key_register: x, ..s };
    assert(fetch(waiting) == fetch(s));
}

/// A key read with a key pressed completes at once: the lowest pressed key
/// goes to the register, the wait ends, and the program counter moves on to
/// the next instruction.
pub proof fn lemma_key_read_completes(s: State, x: u8, random: u8)
    requires
        s.wf(),
        fetch(s) matches Ok(word) && decode(word) == Some(Instruction::LdK(x)),
        exists|k: int| 0 <= k < 16 && s.key[k] != 0,
    ensures
        cycle(s, random) matches Ok(after) && {
            let k = lowest_pressed(s.key);
            &&& 0 <= k < 16
            &&& s.key[k] != 0
            &&& forall|j: int| 0 <= j < k ==> s.key[j] == 0
            &&& after == (State { key_flag: false, pc: next_pc(s.pc), ..s.with_v(x, k as u8) })
        },
{
    lemma_lowest_pressed(s.key);
    crate::instructions::lemma_decode_wf(fetch(s)->Ok_0);
}

/// A skip moves the program counter four bytes on over the whole cycle
/// when its condition holds and two when it does not, and changes nothing
/// else.
pub proof fn lemma_skip_moves_two_or_four(s: State, x: u8, kk: u8, random: u8)
    requires
        s.wf(),
        !s.key_flag,
        fetch(s) matches Ok(word) && decode(word) == Some(Instruction::Se(x, kk)),
    ensures
        cycle(s, random) == Ok::<State, Fault>(
            State {
                pc: ((s.pc + if s.v[x as int] == kk {
                    4int
                } else {
                    2int
                }) % 0x1_0000) as u16,
                ..s
            },
        ),
{
    crate::instructions::lemma_decode_wf(fetch(s)->Ok_0);
}

/// A jump to itself holds the machine still: the cycle leaves every part
/// of the state as it was.
pub proof fn lemma_jump_to_self_is_still(s: State, random: u8)
    requires
        s.wf(),
        fetch(s) matches Ok(word) && decode(word) == Some(Instruction::Jp(s.pc)),
    ensures
        cycle(s, random) == Ok::<State, Fault>(s),
{
    crate::instructions::lemma_decode_wf(fetch(s)->Ok_0);
}

} // verus!
