//! Two independent 8-bit countdown counters (delay and sound), each
//! decremented once per timer tick by an external clock and saturating at
//! zero. The counters have no knowledge of the instruction set; the
//! execution engine only sets and reads them.

use vstd::prelude::*;

verus! {

/// The tick rate, in ticks per second, at which the external clock is
/// expected to decrement the counters.
pub const TIMER_FREQUENCY: u32 = 60;

pub struct Timer {
    pub delay: u8,
    pub sound: u8,
    pub frequency: u32,
}

impl Timer {
    pub fn new() -> (t: Timer)
        ensures
            t.delay == 0,
            t.sound == 0,
            t.frequency == TIMER_FREQUENCY,
    {
        Self { delay: 0, sound: 0, frequency: TIMER_FREQUENCY }
    }

    pub fn set_delay_timer(&mut self, value: u8)
        ensures
            *final(self) == (Timer { delay: value, ..*old(self) }),
    {
        self.delay = value;
    }

    pub fn set_sound_timer(&mut self, value: u8)
        ensures
            *final(self) == (Timer { sound: value, ..*old(self) }),
    {
        self.sound = value;
    }

    /// One timer tick: each counter that is nonzero goes down by one;
    /// a counter at zero stays at zero (it never wraps).
    pub fn update(&mut self)
        ensures
            final(self).delay == if old(self).delay > 0 { old(self).delay - 1 } else { 0int },
            final(self).sound == if old(self).sound > 0 { old(self).sound - 1 } else { 0int },
            final(self).frequency == old(self).frequency,
    {
        self.update_delay_timer();
        self.update_sound_timer();
    }

    fn update_delay_timer(&mut self)
        ensures
            *final(self) == (Timer {
                delay: if old(self).delay > 0 { (old(self).delay - 1) as u8 } else { 0u8 },
                ..*old(self)
            }),
    {
        if self.delay > 0 {
            self.delay -= 1;
        }
    }

    fn update_sound_timer(&mut self)
        ensures
            *final(self) == (Timer {
                sound: if old(self).sound > 0 { (old(self).sound - 1) as u8 } else { 0u8 },
                ..*old(self)
            }),
    {
        if self.sound > 0 {
            self.sound -= 1;
        }
    }

    pub fn get_delay_timer(&self) -> (r: u8)
        ensures
            r == self.delay,
    {
        self.delay
    }

    pub fn get_sound_timer(&self) -> (r: u8)
        ensures
            r == self.sound,
    {
        self.sound
    }

    pub fn get_frequency(&self) -> (r: u32)
        ensures
            r == self.frequency,
    {
        self.frequency
    }
}

impl Default for Timer {
    fn default() -> (t: Timer)
        ensures
            t.delay == 0,
            t.sound == 0,
            t.frequency == TIMER_FREQUENCY,
    {
        Self::new()
    }
}

} // verus!
