use vstd::prelude::*;

verus! {

/// A counter after one tick: one less, but never below zero.
pub open spec fn decayed(c: u8) -> u8 {
    if c > 0 {
        (c - 1) as u8
    } else {
        0
    }
}

/// A counter after `k` ticks.
pub open spec fn decayed_by(c: u8, k: nat) -> u8
    decreases k,
{
    if k == 0 {
        c
    } else {
        decayed(decayed_by(c, (k - 1) as nat))
    }
}

/// The delay and sound counters.
#[derive(Clone, Copy, Debug, PartialEq, Eq, Structural)]
pub struct Timers {
    pub delay: u8,
    pub sound: u8,
}

impl Timers {
    /// Both counters at zero.
    pub fn new() -> (r: Timers)
        ensures
            r.delay == 0 && r.sound == 0,
    {
        Timers { delay: 0, sound: 0 }
    }

    /// Whether sound output is on: the sound counter is not zero.
    pub fn sound_active(&self) -> (r: bool)
        ensures
            r == (self.sound > 0),
    {
        self.sound > 0
    }

    /// One timer tick: each counter drops by one, stopping at zero.
    pub fn tick(&mut self)
        ensures
            final(self).delay == decayed(old(self).delay),
            final(self).sound == decayed(old(self).sound),
    {
        if self.delay > 0 {
            self.delay = self.delay - 1;
        }
        if self.sound > 0 {
            self.sound = self.sound - 1;
        }
    }
}

} // verus!
