//! Time: how long a frame may take, and when the timers tick.
//!
//! The machine does not read a clock. Whoever drives it measures the time
//! and asks here what follows from it.

use vstd::prelude::*;

verus! {

/// Milliseconds that one frame is given: a sixtieth of a second, rounded
/// down.
pub const FRAME_MILLIS: u64 = 16;

/// Timer ticks in a second.
pub const TICKS_PER_SECOND: u64 = 60;

/// Nanoseconds in a second.
pub const NANOS_PER_SECOND: u64 = 1_000_000_000;

/// The milliseconds left of a frame on which `elapsed_millis` were spent:
/// nothing, once the frame has taken its time or more.
pub open spec fn frame_rest(elapsed_millis: int) -> int {
    if elapsed_millis < FRAME_MILLIS {
        FRAME_MILLIS - elapsed_millis
    } else {
        0
    }
}

/// How long to sleep after a cycle that took `elapsed_millis`, so that
/// cycles come no faster than frames. A cycle that was slow is not made up
/// for.
pub fn frame_delay(elapsed_millis: u128) -> (millis: u64)
    ensures
        millis == frame_rest(elapsed_millis as int),
{
    if elapsed_millis < FRAME_MILLIS as u128 {
        FRAME_MILLIS - elapsed_millis as u64
    } else {
        0
    }
}

/// The number of whole sixtieths of a second in a time of `secs` seconds
/// and `nanos` nanoseconds.
pub open spec fn ticks_in(secs: int, nanos: int) -> int {
    (secs * NANOS_PER_SECOND + nanos) * TICKS_PER_SECOND / (NANOS_PER_SECOND as int)
}

/// The number of timer ticks that fall into the time since the start of a
/// run, given as whole seconds and the nanoseconds beyond them.
pub fn ticks_elapsed(secs: u64, nanos: u32) -> (ticks: u128)
    ensures
        ticks == ticks_in(secs as int, nanos as int),
{
    let whole: u128 = secs as u128 * 1_000_000_000;
    (whole + nanos as u128) * 60 / 1_000_000_000
}

/// The ticks that the timers have been given so far.
#[derive(Debug, Clone, Copy)]
pub struct TimerSchedule {
    pub ticks_done: u128,
}

impl TimerSchedule {
    /// A schedule at the start of a run.
    pub fn new() -> (schedule: TimerSchedule)
        ensures
            schedule.ticks_done == 0,
    {
        TimerSchedule { ticks_done: 0 }
    }

    /// The ticks that are due now that the run has lasted `secs` seconds
    /// and `nanos` nanoseconds, and counts them as given. Over a run the
    /// ticks handed out add up to the ticks in the time that has passed,
    /// however often or seldom this is asked.
    pub fn due(&mut self, secs: u64, nanos: u32) -> (ticks: u128)
        ensures
            final(self).ticks_done == if ticks_in(secs as int, nanos as int) > old(
                self,
            ).ticks_done {
                ticks_in(secs as int, nanos as int)
            } else {
                old(self).ticks_done as int
            },
            ticks == final(self).ticks_done - old(self).ticks_done,
    {
        let now: u128 = ticks_elapsed(secs, nanos);
        if now > self.ticks_done {
            let ticks: u128 = now - self.ticks_done;
            self.ticks_done = now;
            ticks
        } else {
            0
        }
    }
}

/// As time goes on the count of ticks does not go back.
pub proof fn lemma_ticks_follow_time(secs: nat, nanos: nat, later_secs: nat, later_nanos: nat)
    requires
        secs * NANOS_PER_SECOND + nanos <= later_secs * NANOS_PER_SECOND + later_nanos,
    ensures
        0 <= ticks_in(secs as int, nanos as int) <= ticks_in(later_secs as int, later_nanos as int),
{
    let now = (secs * 1_000_000_000 + nanos) * 60;
    let later = (later_secs * 1_000_000_000 + later_nanos) * 60;
    vstd::arithmetic::div_mod::lemma_div_is_ordered(now as int, later as int, 1_000_000_000);
    vstd::arithmetic::div_mod::lemma_div_is_ordered(0, now as int, 1_000_000_000);
}

/// A whole second holds sixty ticks, and a time short of a sixtieth of a
/// second holds none.
pub proof fn lemma_sixty_ticks_a_second(secs: nat, nanos: nat)
    requires
        nanos < NANOS_PER_SECOND,
    ensures
        ticks_in(secs as int, 0) == 60 * secs,
        ticks_in(secs as int, nanos as int) == 60 * secs + nanos * 60 / 1_000_000_000,
        ticks_in(0, nanos as int) == 0 <==> nanos * 60 < 1_000_000_000,
{
    let total = (secs * 1_000_000_000 + nanos) * 60;
    let part = nanos * 60;
    let q = part / 1_000_000_000;
    let r = part % 1_000_000_000;
    assert(total == (60 * secs + q) * 1_000_000_000 + r);
    vstd::arithmetic::div_mod::lemma_fundamental_div_mod_converse(
        total as int,
        1_000_000_000,
        (60 * secs + q) as int,
        r as int,
    );
    vstd::arithmetic::div_mod::lemma_fundamental_div_mod_converse(
        (secs * 1_000_000_000 * 60) as int,
        1_000_000_000,
        (60 * secs) as int,
        0,
    );
}

} // verus!
