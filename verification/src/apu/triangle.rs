use vstd::prelude::*;
use crate::bits::lemma_u8_bits;
use super::common::{length_stepped, LengthCounter, LENGTH_LOOKUP};

verus! {

/// The 32-step triangle waveform the channel plays.
pub const SEQUENCER_LOOKUP: [u8; 32] = [
    15, 14, 13, 12, 11, 10, 9, 8, 7, 6, 5, 4, 3, 2, 1, 0,
    0, 1, 2, 3, 4, 5, 6, 7, 8, 9, 10, 11, 12, 13, 14, 15,
];

/// The triangle channel: a 32-step sequencer clocked by a timer and gated
/// by both a linear counter and a length counter.
pub struct TriangleChannel {
    pub enabled: bool,
    pub control_flag: bool,
    pub counter_reload: u8,
    pub timer_period: u16,
    pub timer: u16,
    pub length_counter: LengthCounter,
    pub linear_counter: u8,
    pub linear_counter_reload: bool,
    pub duty_cycle: u8,
}

/// The channel after a quarter-frame clock of its linear counter.
pub open spec fn triangle_linear_stepped(t: TriangleChannel) -> TriangleChannel {
    TriangleChannel {
        linear_counter: if t.linear_counter_reload {
            t.counter_reload
        } else if t.linear_counter > 0 {
            (t.linear_counter - 1) as u8
        } else {
            0
        },
        linear_counter_reload: t.linear_counter_reload && t.control_flag,
        ..t
    }
}

/// The channel after a half-frame clock of its length counter.
pub open spec fn triangle_length_stepped(t: TriangleChannel) -> TriangleChannel {
    TriangleChannel { length_counter: length_stepped(t.length_counter), ..t }
}

/// The channel after one clock of its timer.
pub open spec fn triangle_timer_stepped(t: TriangleChannel) -> TriangleChannel {
    if t.timer == 0 {
        TriangleChannel {
            timer: t.timer_period,
            duty_cycle: if t.linear_counter > 0 && t.length_counter.counter != 0 {
                ((t.duty_cycle + 1) % 32) as u8
            } else {
                t.duty_cycle
            },
            ..t
        }
    } else {
        TriangleChannel { timer: (t.timer - 1) as u16, ..t }
    }
}

impl TriangleChannel {
    /// The sequencer position stays within the waveform.
    pub open spec fn wf(&self) -> bool {
        self.duty_cycle < 32
    }

    pub fn new() -> (t: TriangleChannel)
        ensures
            t.wf(),
            !t.enabled && !t.control_flag && !t.linear_counter_reload,
            t.counter_reload == 0 && t.timer_period == 0 && t.timer == 0,
            t.linear_counter == 0 && t.duty_cycle == 0,
            !t.length_counter.enabled && t.length_counter.counter == 0,
    {
        TriangleChannel {
            enabled: false,
            control_flag: false,
            counter_reload: 0,
            timer_period: 0,
            timer: 0,
            length_counter: LengthCounter::default(),
            linear_counter: 0,
            linear_counter_reload: false,
            duty_cycle: 0,
        }
    }

    /// $4008: control flag and linear counter reload value.
    pub fn write_setup(&mut self, val: u8)
        ensures
            *final(self) == (TriangleChannel {
                control_flag: val & 0b1000_0000 != 0,
                counter_reload: val & 0b0111_1111,
                ..*old(self)
            }),
    {
        self.control_flag = val & 0b1000_0000 != 0;
        self.counter_reload = val & 0b0111_1111;
    }

    /// $400A: low eight bits of the timer period.
    pub fn write_timer_low(&mut self, val: u8)
        ensures
            *final(self) == (TriangleChannel {
                timer_period: (old(self).timer_period & 0xFF00) | (val as u16),
                ..*old(self)
            }),
    {
        self.timer_period = (self.timer_period & 0xFF00) | (val as u16);
    }

    /// $400B: high three bits of the timer period and the length index;
    /// restarts the timer and requests a linear counter reload.
    pub fn write_timer_high(&mut self, val: u8)
        ensures
            final(self).timer_period == (old(self).timer_period & 0x00FF) | (((val & 0b111) as u16) << 8),
            final(self).timer == final(self).timer_period,
            final(self).length_counter.counter == LENGTH_LOOKUP@[(val >> 3) as int],
            final(self).length_counter.enabled == old(self).length_counter.enabled,
            final(self).linear_counter_reload,
            final(self).enabled == old(self).enabled,
            final(self).control_flag == old(self).control_flag,
            final(self).counter_reload == old(self).counter_reload,
            final(self).linear_counter == old(self).linear_counter,
            final(self).duty_cycle == old(self).duty_cycle,
    {
        self.timer_period = (self.timer_period & 0x00FF) | (((val & 0b111) as u16) << 8);
        self.timer = self.timer_period;
        proof {
            lemma_u8_bits(val);
        }
        self.length_counter.set(val >> 3);
        self.linear_counter_reload = true;
    }

    /// Dispatches a write to one of the channel's registers; other
    /// addresses are ignored.
    pub fn write(&mut self, addr: u16, val: u8)
        ensures
            *final(self) == triangle_written(*old(self), addr, val),
    {
        match addr {
            0x4008 => self.write_setup(val),
            0x400A => self.write_timer_low(val),
            0x400B => self.write_timer_high(val),
            _ => {},
        }
    }

    /// On a quarter frame: reloads the linear counter when asked to, else
    /// counts it down; the reload request is dropped unless the control
    /// flag holds it.
    pub fn step_linear_counter(&mut self)
        ensures
            *final(self) == triangle_linear_stepped(*old(self)),
            final(self).linear_counter == if old(self).linear_counter_reload {
                old(self).counter_reload as int
            } else if old(self).linear_counter > 0 {
                old(self).linear_counter - 1
            } else {
                0
            },
            final(self).linear_counter_reload == (old(self).linear_counter_reload
                && old(self).control_flag),
            final(self).enabled == old(self).enabled,
            final(self).control_flag == old(self).control_flag,
            final(self).counter_reload == old(self).counter_reload,
            final(self).timer_period == old(self).timer_period,
            final(self).timer == old(self).timer,
            final(self).length_counter == old(self).length_counter,
            final(self).duty_cycle == old(self).duty_cycle,
    {
        if self.linear_counter_reload {
            self.linear_counter = self.counter_reload;
        } else if self.linear_counter > 0 {
            self.linear_counter -= 1;
        }
        if !self.control_flag {
            self.linear_counter_reload = false;
        }
    }

    #[inline]
    pub fn step_length_counter(&mut self)
        ensures
            *final(self) == triangle_length_stepped(*old(self)),
            final(self).length_counter.enabled == old(self).length_counter.enabled,
            final(self).length_counter.counter == if old(self).length_counter.enabled
                && old(self).length_counter.counter > 0 {
                old(self).length_counter.counter - 1
            } else {
                old(self).length_counter.counter as int
            },
            *final(self) == (TriangleChannel { length_counter: final(self).length_counter, ..*old(self) }),
    {
        self.length_counter.step();
    }

    /// Clocks the timer; each time it reloads, the sequencer advances if both
    /// counters are non-zero.
    pub fn step_timer(&mut self)
        requires
            old(self).wf(),
        ensures
            final(self).wf(),
            *final(self) == triangle_timer_stepped(*old(self)),
            old(self).timer == 0 ==> final(self).timer == old(self).timer_period
                && final(self).duty_cycle == if old(self).linear_counter > 0
                && old(self).length_counter.counter != 0 {
                (old(self).duty_cycle + 1) % 32
            } else {
                old(self).duty_cycle as int
            },
            old(self).timer != 0 ==> final(self).timer == old(self).timer - 1
                && final(self).duty_cycle == old(self).duty_cycle,
            final(self).enabled == old(self).enabled,
            final(self).control_flag == old(self).control_flag,
            final(self).counter_reload == old(self).counter_reload,
            final(self).timer_period == old(self).timer_period,
            final(self).length_counter == old(self).length_counter,
            final(self).linear_counter == old(self).linear_counter,
            final(self).linear_counter_reload == old(self).linear_counter_reload,
    {
        if self.timer == 0 {
            self.timer = self.timer_period;
            if self.linear_counter > 0 && !self.length_counter.is_zero() {
                let d: u8 = self.duty_cycle + 1;
                proof {
                    lemma_u8_bits(d);
                }
                self.duty_cycle = (self.duty_cycle + 1) & 31;
            }
        } else {
            self.timer -= 1;
        }
    }

    pub fn set_enabled(&mut self, enabled: bool)
        ensures
            final(self).enabled == enabled,
            final(self).length_counter.counter == if enabled {
                old(self).length_counter.counter
            } else {
                0
            },
            final(self).length_counter.enabled == old(self).length_counter.enabled,
            *final(self) == (TriangleChannel {
                enabled,
                length_counter: final(self).length_counter,
                ..*old(self)
            }),
            *final(self) == triangle_enabled_set(*old(self), enabled),
    {
        self.enabled = enabled;
        if !enabled {
            self.length_counter.reset_to_zero();
        }
    }

    /// Silent when disabled, when either counter is zero, or at ultrasonic
    /// periods (2 or less); otherwise the current waveform step.
    pub fn output(&self) -> (v: u8)
        requires
            self.wf(),
        ensures
            v == triangle_output(*self),
            v <= 15,
    {
        if !self.enabled || self.length_counter.is_zero() || self.linear_counter == 0
            || self.timer_period <= 2 {
            0
        } else {
            SEQUENCER_LOOKUP[self.duty_cycle as usize]
        }
    }
}


/// The level the triangle channel outputs.
pub open spec fn triangle_output(c: TriangleChannel) -> u8 {
    if !c.enabled || c.length_counter.counter == 0 || c.linear_counter == 0 || c.timer_period <= 2 {
        0
    } else {
        SEQUENCER_LOOKUP@[c.duty_cycle as int]
    }
}


/// The triangle channel after a write of `val` to register `addr`: $4008
/// sets the control flag and the linear counter reload value; $400A the
/// low eight bits of the period; $400B its high three bits and the length
/// counter, restarts the timer and requests a linear counter reload; other
/// addresses change nothing.
pub open spec fn triangle_written(t: TriangleChannel, addr: u16, val: u8) -> TriangleChannel {
    if addr == 0x4008 {
        TriangleChannel { control_flag: val & 0b1000_0000 != 0, counter_reload: val & 0b0111_1111, ..t }
    } else if addr == 0x400A {
        TriangleChannel { timer_period: (t.timer_period & 0xFF00) | (val as u16), ..t }
    } else if addr == 0x400B {
        let period = (t.timer_period & 0x00FF) | (((val & 0b111) as u16) << 8);
        TriangleChannel {
            timer_period: period,
            timer: period,
            length_counter: LengthCounter { counter: LENGTH_LOOKUP@[(val >> 3) as int], ..t.length_counter },
            linear_counter_reload: true,
            ..t
        }
    } else {
        t
    }
}

/// The triangle channel enabled or disabled through $4015: disabling
/// clears the length counter.
pub open spec fn triangle_enabled_set(t: TriangleChannel, enabled: bool) -> TriangleChannel {
    TriangleChannel {
        enabled,
        length_counter: LengthCounter {
            counter: if enabled { t.length_counter.counter } else { 0 },
            ..t.length_counter
        },
        ..t
    }
}

} // verus!
