//! The timer unit: delay and sound counters that tick at 60 Hz of elapsed
//! time, whatever the instruction rate.
use vstd::prelude::*;

verus! {

/// Accumulator units per tick: elapsed microseconds are counted sixty-fold,
/// so one tick, 1/60 s, is exactly one second of microseconds.
pub const TICK_UNITS: u64 = 1_000_000;

/// One frame, 1/60 s rounded up to whole microseconds.
pub const FRAME_US: u64 = 16_667;

/// Delay and sound timers, with the elapsed time not yet spent on a tick.
#[derive(PartialEq, Eq, Structural, Clone, Copy, Debug)]
pub struct Timers {
    pub delay: u8,
    pub sound: u8,
    /// Sixty times the microseconds since the last tick.
    pub acc: u64,
}

impl Timers {
    pub open spec fn wf(self) -> bool {
        self.acc < TICK_UNITS
    }
}

/// `a - t`, but never below zero.
pub open spec fn sat_sub(a: u8, t: int) -> u8 {
    if t >= a {
        0
    } else {
        (a - t) as u8
    }
}

/// Whole ticks in the accumulator after `elapsed_us` more microseconds.
pub open spec fn ticks_for(t: Timers, elapsed_us: u64) -> int {
    (t.acc + 60 * elapsed_us) / TICK_UNITS as int
}

/// The timers after `elapsed_us` microseconds.
pub open spec fn tick_spec(t: Timers, elapsed_us: u64) -> Timers {
    let n = ticks_for(t, elapsed_us);
    Timers {
        delay: sat_sub(t.delay, n),
        sound: sat_sub(t.sound, n),
        acc: ((t.acc + 60 * elapsed_us) % TICK_UNITS as int) as u64,
    }
}

/// The timers after `k` calls of `elapsed_us` microseconds each.
pub open spec fn tick_n(t: Timers, elapsed_us: u64, k: nat) -> Timers
    decreases k,
{
    if k == 0 {
        t
    } else {
        tick_spec(tick_n(t, elapsed_us, (k - 1) as nat), elapsed_us)
    }
}

impl Timers {
    /// Both timers at zero, nothing accumulated.
    pub fn new() -> (r: Timers)
        ensures
            r == (Timers { delay: 0, sound: 0, acc: 0 }),
    {
        Timers { delay: 0, sound: 0, acc: 0 }
    }

    /// Whether the sound timer asks the host for a tone.
    pub fn sounding(&self) -> (r: bool)
        ensures
            r == (self.sound > 0),
    {
        self.sound > 0
    }

    /// Lets `elapsed_us` microseconds pass: both timers drop by one for each
    /// whole 1/60 s accumulated, and stop at zero.
    pub fn tick(&mut self, elapsed_us: u64)
        requires
            old(self).wf(),
        ensures
            final(self).wf(),
            *final(self) == tick_spec(*old(self), elapsed_us),
    {
        let total: u128 = self.acc as u128 + elapsed_us as u128 * 60;
        let n: u128 = total / (TICK_UNITS as u128);
        self.acc = (total % (TICK_UNITS as u128)) as u64;
        self.delay = if n >= self.delay as u128 { 0 } else { (self.delay as u128 - n) as u8 };
        self.sound = if n >= self.sound as u128 { 0 } else { (self.sound as u128 - n) as u8 };
    }
}

} // verus!
