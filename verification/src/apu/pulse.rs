use vstd::prelude::*;
use crate::bits::{lemma_apu_fields, lemma_u8_bits};
use super::common::{
    envelope_stepped, envelope_volume, length_stepped, timer_stepped, Envelope, LengthCounter, Timer,
    LENGTH_LOOKUP,
};

verus! {

/// The four duty-cycle waveforms of the pulse channels.
pub const DUTY_TABLE: [[u8; 8]; 4] = [
    [0, 1, 0, 0, 0, 0, 0, 0],
    [0, 1, 1, 0, 0, 0, 0, 0],
    [0, 1, 1, 1, 1, 0, 0, 0],
    [1, 0, 0, 1, 1, 1, 1, 1],
];

#[derive(Copy, Clone)]
pub enum PulseChannelId {
    Pulse1,
    Pulse2,
}

/// A pulse (square wave) channel with envelope, length counter and
/// frequency sweep.
pub struct PulseChannel {
    pub id: PulseChannelId,
    pub enabled: bool,
    pub duty_mode: u8,
    pub duty_cycle: u8,
    pub sweep_enabled: bool,
    pub sweep_period: u8,
    pub sweep_negate: bool,
    pub sweep_shift: u8,
    pub sweep_reload: bool,
    pub sweep_divider: u8,
    pub sweep_mute: bool,
    pub length_counter: LengthCounter,
    pub envelope: Envelope,
    pub timer: Timer,
}

/// The period the sweep unit aims for: the current period plus, or minus
/// (not below zero), the period shifted right by the shift count.
pub open spec fn sweep_target(period: u16, shift: u8, negate: bool) -> int {
    let change = period >> shift;
    if negate {
        if change > period {
            0
        } else {
            period - change
        }
    } else {
        period + change
    }
}

/// The channel after one clock of its timer.
pub open spec fn pulse_timer_stepped(p: PulseChannel) -> PulseChannel {
    PulseChannel {
        timer: timer_stepped(p.timer),
        duty_cycle: if p.timer.counter == 0 {
            ((p.duty_cycle + 1) % 8) as u8
        } else {
            p.duty_cycle
        },
        ..p
    }
}

/// The channel after a half-frame clock of its length counter.
pub open spec fn pulse_length_stepped(p: PulseChannel) -> PulseChannel {
    PulseChannel { length_counter: length_stepped(p.length_counter), ..p }
}

/// The channel after a quarter-frame clock of its envelope.
pub open spec fn pulse_envelope_stepped(p: PulseChannel) -> PulseChannel {
    PulseChannel { envelope: envelope_stepped(p.envelope), ..p }
}

/// The channel after a half-frame clock of its sweep unit.
pub open spec fn pulse_sweep_stepped(p: PulseChannel) -> PulseChannel {
    let target = sweep_target(p.timer.period, p.sweep_shift, p.sweep_negate);
    let mute = p.timer.period < 8 || target > 0x7FF;
    PulseChannel {
        sweep_mute: mute,
        timer: Timer {
            period: if p.sweep_divider == 0 && p.sweep_enabled && !mute {
                target as u16
            } else {
                p.timer.period
            },
            ..p.timer
        },
        sweep_divider: if p.sweep_divider == 0 || p.sweep_reload {
            p.sweep_period
        } else {
            (p.sweep_divider - 1) as u8
        },
        sweep_reload: false,
        ..p
    }
}

impl PulseChannel {
    /// The period fits the 11 bits of the hardware register and the duty
    /// fields index the duty table.
    pub open spec fn wf(&self) -> bool {
        &&& self.timer.period <= 0x7FF
        &&& self.duty_mode < 4
        &&& self.duty_cycle < 8
        &&& self.sweep_shift < 8
        &&& self.envelope.wf()
    }

    pub fn new(id: PulseChannelId) -> (p: PulseChannel)
        ensures
            p.wf(),
            p.id == id,
            !p.enabled && !p.sweep_enabled && !p.sweep_negate && !p.sweep_reload && !p.sweep_mute,
            p.duty_mode == 0 && p.duty_cycle == 0,
            p.sweep_period == 0 && p.sweep_shift == 0 && p.sweep_divider == 0,
            p.timer.counter == 0 && p.timer.period == 0,
            !p.length_counter.enabled && p.length_counter.counter == 0,
            p.envelope.decay == 0 && !p.envelope.start && !p.envelope.constant_mode,
    {
        PulseChannel {
            id,
            enabled: false,
            length_counter: LengthCounter::default(),
            envelope: Envelope::default(),
            duty_mode: 0,
            duty_cycle: 0,
            timer: Timer::default(),
            sweep_enabled: false,
            sweep_period: 0,
            sweep_negate: false,
            sweep_shift: 0,
            sweep_reload: false,
            sweep_divider: 0,
            sweep_mute: false,
        }
    }

    /// Clocks the timer; each reload advances the duty sequence by one step.
    pub fn step_timer(&mut self)
        requires
            old(self).wf(),
        ensures
            final(self).wf(),
            *final(self) == pulse_timer_stepped(*old(self)),
            final(self).timer.period == old(self).timer.period,
            final(self).timer.counter == if old(self).timer.counter == 0 {
                old(self).timer.period as int
            } else {
                old(self).timer.counter - 1
            },
            final(self).duty_cycle == if old(self).timer.counter == 0 {
                (old(self).duty_cycle + 1) % 8
            } else {
                old(self).duty_cycle as int
            },
            *final(self) == (PulseChannel {
                timer: final(self).timer,
                duty_cycle: final(self).duty_cycle,
                ..*old(self)
            }),
    {
        if self.timer.step() {
            let d: u8 = self.duty_cycle + 1;
            proof {
                lemma_u8_bits(d);
            }
            self.duty_cycle = (self.duty_cycle + 1) & 7;
        }
    }

    pub fn step_length_counter(&mut self)
        ensures
            *final(self) == pulse_length_stepped(*old(self)),
            final(self).length_counter.enabled == old(self).length_counter.enabled,
            final(self).length_counter.counter == if old(self).length_counter.enabled
                && old(self).length_counter.counter > 0 {
                old(self).length_counter.counter - 1
            } else {
                old(self).length_counter.counter as int
            },
            *final(self) == (PulseChannel { length_counter: final(self).length_counter, ..*old(self) }),
    {
        self.length_counter.step();
    }

    pub fn step_envelope(&mut self)
        requires
            old(self).wf(),
        ensures
            final(self).wf(),
            *final(self) == pulse_envelope_stepped(*old(self)),
            *final(self) == (PulseChannel {
                envelope: envelope_stepped(old(self).envelope),
                ..*old(self)
            }),
    {
        proof {
            super::common::lemma_envelope_bounded(self.envelope);
        }
        self.envelope.step();
    }

    /// Disabling the channel also silences its length counter.
    pub fn set_enabled(&mut self, enabled: bool)
        ensures
            final(self).length_counter.counter == if enabled {
                old(self).length_counter.counter
            } else {
                0
            },
            final(self).length_counter.enabled == old(self).length_counter.enabled,
            *final(self) == (PulseChannel {
                enabled,
                length_counter: final(self).length_counter,
                ..*old(self)
            }),
            *final(self) == pulse_enabled_set(*old(self), enabled),
    {
        self.enabled = enabled;
        if !enabled {
            self.length_counter.reset_to_zero();
        }
    }

    /// $4000/$4004: duty mode, length counter halt, envelope settings; the
    /// envelope restarts.
    pub fn write_control(&mut self, val: u8)
        requires
            old(self).wf(),
        ensures
            final(self).wf(),
            final(self).duty_mode == (val >> 6) & 0b11,
            final(self).length_counter.enabled == (val & 0b0010_0000 == 0),
            final(self).length_counter.counter == old(self).length_counter.counter,
            final(self).envelope == (Envelope {
                looping: val & 0b0010_0000 != 0,
                constant_mode: val & 0b0001_0000 != 0,
                period: val & 0b1111,
                constant_volume: val & 0b1111,
                start: true,
                ..old(self).envelope
            }),
            *final(self) == (PulseChannel {
                duty_mode: final(self).duty_mode,
                length_counter: final(self).length_counter,
                envelope: final(self).envelope,
                ..*old(self)
            }),
    {
        proof {
            lemma_u8_bits(val);
            lemma_u8_bits(val >> 6);
        }
        self.duty_mode = (val >> 6) & 0b11;
        let halt_length_counter = val & 0b0010_0000 != 0;
        self.length_counter.set_enabled(!halt_length_counter);
        self.envelope.looping = halt_length_counter;
        self.envelope.constant_mode = val & 0b0001_0000 != 0;
        self.envelope.period = val & 0b1111;
        self.envelope.constant_volume = val & 0b1111;
        self.envelope.start = true;
    }

    /// $4001/$4005: sweep unit settings; the sweep divider reloads.
    pub fn write_sweep(&mut self, val: u8)
        requires
            old(self).wf(),
        ensures
            final(self).wf(),
            *final(self) == (PulseChannel {
                sweep_enabled: val & 0b1000_0000 != 0,
                sweep_period: (val >> 4) & 0b111,
                sweep_negate: val & 0b1000 != 0,
                sweep_shift: val & 0b111,
                sweep_reload: true,
                ..*old(self)
            }),
    {
        self.sweep_enabled = val & 0b1000_0000 != 0;
        self.sweep_period = (val >> 4) & 0b111;
        self.sweep_negate = val & 0b1000 != 0;
        proof {
            lemma_u8_bits(val);
        }
        self.sweep_shift = val & 0b111;
        self.sweep_reload = true;
    }

    /// $4002/$4006: low eight bits of the timer period.
    #[inline]
    pub fn write_reload_low(&mut self, val: u8)
        requires
            old(self).wf(),
        ensures
            final(self).wf(),
            final(self).timer.period == (old(self).timer.period & 0xFF00) | (val as u16),
            final(self).timer.counter == old(self).timer.counter,
            *final(self) == (PulseChannel { timer: final(self).timer, ..*old(self) }),
    {
        let p = self.timer.period;
        proof {
            lemma_apu_fields(p, val, 0, 0);
        }
        self.timer.period = (self.timer.period & 0xFF00) | (val as u16);
    }

    /// $4003/$4007: high three bits of the timer period and the length
    /// index; the duty sequence restarts.
    #[inline]
    pub fn write_reload_high(&mut self, val: u8)
        requires
            old(self).wf(),
        ensures
            final(self).wf(),
            final(self).timer.period == (old(self).timer.period & 0x00FF) | (((val & 7) as u16) << 8),
            final(self).timer.counter == old(self).timer.counter,
            final(self).duty_cycle == 0,
            final(self).length_counter.counter == LENGTH_LOOKUP@[(val >> 3) as int],
            final(self).length_counter.enabled == old(self).length_counter.enabled,
            *final(self) == (PulseChannel {
                timer: final(self).timer,
                duty_cycle: 0,
                length_counter: final(self).length_counter,
                ..*old(self)
            }),
    {
        let p = self.timer.period;
        proof {
            lemma_apu_fields(p, val, 0, 0);
        }
        self.timer.period = (self.timer.period & 0x00FF) | (((val & 7) as u16) << 8);
        self.duty_cycle = 0;
        proof {
            lemma_u8_bits(val);
        }
        self.length_counter.set(val >> 3);
    }

    /// Dispatches a write to the channel's registers ($4000-$4003 for the
    /// first pulse channel, $4004-$4007 for the second); other addresses
    /// are ignored.
    pub fn write(&mut self, addr: u16, val: u8)
        requires
            old(self).wf(),
        ensures
            final(self).wf(),
            *final(self) == pulse_written(*old(self), addr, val),
    {
        match addr {
            0x4000 | 0x4004 => self.write_control(val),
            0x4001 | 0x4005 => self.write_sweep(val),
            0x4002 | 0x4006 => self.write_reload_low(val),
            0x4003 | 0x4007 => self.write_reload_high(val),
            _ => {},
        }
    }

    fn sweep_target_period(&self) -> (p: u16)
        requires
            self.wf(),
        ensures
            p == sweep_target(self.timer.period, self.sweep_shift, self.sweep_negate),
    {
        let period = self.timer.period;
        let shift = self.sweep_shift;
        let change_amount = period >> shift;
        proof {
            lemma_apu_fields(period, 0, shift, 0);
        }
        if self.sweep_negate {
            if change_amount > self.timer.period {
                0
            } else {
                self.timer.period - change_amount
            }
        } else {
            self.timer.period + change_amount
        }
    }

    /// On a half frame: mutes the channel when the period is below 8 or the
    /// target above $7FF; when the divider is due, an enabled, unmuted sweep
    /// moves the period to its target; then the divider reloads or counts
    /// down.
    pub fn step_sweep(&mut self)
        requires
            old(self).wf(),
        ensures
            final(self).wf(),
            *final(self) == pulse_sweep_stepped(*old(self)),
            ({
                let target = sweep_target(
                    old(self).timer.period,
                    old(self).sweep_shift,
                    old(self).sweep_negate,
                );
                let mute = old(self).timer.period < 8 || target > 0x7FF;
                &&& final(self).sweep_mute == mute
                &&& final(self).timer.period == if old(self).sweep_divider == 0
                    && old(self).sweep_enabled && !mute {
                    target
                } else {
                    old(self).timer.period as int
                }
            }),
            final(self).sweep_divider == if old(self).sweep_divider == 0 || old(self).sweep_reload {
                old(self).sweep_period as int
            } else {
                old(self).sweep_divider - 1
            },
            !final(self).sweep_reload,
            *final(self) == (PulseChannel {
                sweep_mute: final(self).sweep_mute,
                timer: final(self).timer,
                sweep_divider: final(self).sweep_divider,
                sweep_reload: final(self).sweep_reload,
                ..*old(self)
            }),
            final(self).timer.counter == old(self).timer.counter,
    {
        let target_period = self.sweep_target_period();
        self.sweep_mute = self.timer.period < 8 || target_period > 0x7FF;
        if self.sweep_divider == 0 && self.sweep_enabled && !self.sweep_mute {
            self.timer.period = target_period;
        }
        if self.sweep_divider == 0 || self.sweep_reload {
            self.sweep_divider = self.sweep_period;
            self.sweep_reload = false;
        } else {
            self.sweep_divider -= 1;
        }
    }

    pub fn is_length_counter_active(&self) -> (b: bool)
        ensures
            b == (self.length_counter.counter != 0),
    {
        !self.length_counter.is_zero()
    }

    /// Silent when disabled, muted by the sweep, with the length counter at
    /// zero or at a low step of the duty waveform; otherwise the envelope's
    /// volume.
    pub fn output(&self) -> (v: u8)
        requires
            self.wf(),
        ensures
            v == pulse_output(*self),
            v <= 15,
    {
        if !self.enabled || self.sweep_mute || self.length_counter.is_zero()
            || DUTY_TABLE[self.duty_mode as usize][self.duty_cycle as usize] == 0 {
            return 0;
        }
        self.envelope.output()
    }
}


/// The level a pulse channel outputs.
pub open spec fn pulse_output(c: PulseChannel) -> u8 {
    if !c.enabled || c.sweep_mute || c.length_counter.counter == 0
        || DUTY_TABLE@[c.duty_mode as int]@[c.duty_cycle as int] == 0 {
        0
    } else {
        envelope_volume(c.envelope)
    }
}


/// A pulse channel after a write of `val` to register `addr`: $4000/$4004
/// sets the duty mode, the length counter halt and the envelope (which
/// restarts); $4001/$4005 the sweep unit (its divider reloads); $4002/$4006
/// the low eight bits of the period; $4003/$4007 its high three bits and the
/// length counter, and the duty sequence restarts; other addresses change
/// nothing.
pub open spec fn pulse_written(p: PulseChannel, addr: u16, val: u8) -> PulseChannel {
    if addr == 0x4000 || addr == 0x4004 {
        PulseChannel {
            duty_mode: (val >> 6) & 0b11,
            length_counter: LengthCounter { enabled: val & 0b0010_0000 == 0, ..p.length_counter },
            envelope: Envelope {
                looping: val & 0b0010_0000 != 0,
                constant_mode: val & 0b0001_0000 != 0,
                period: val & 0b1111,
                constant_volume: val & 0b1111,
                start: true,
                ..p.envelope
            },
            ..p
        }
    } else if addr == 0x4001 || addr == 0x4005 {
        PulseChannel {
            sweep_enabled: val & 0b1000_0000 != 0,
            sweep_period: (val >> 4) & 0b111,
            sweep_negate: val & 0b1000 != 0,
            sweep_shift: val & 0b111,
            sweep_reload: true,
            ..p
        }
    } else if addr == 0x4002 || addr == 0x4006 {
        PulseChannel { timer: Timer { period: (p.timer.period & 0xFF00) | (val as u16), ..p.timer }, ..p }
    } else if addr == 0x4003 || addr == 0x4007 {
        PulseChannel {
            timer: Timer { period: (p.timer.period & 0x00FF) | (((val & 7) as u16) << 8), ..p.timer },
            duty_cycle: 0,
            length_counter: LengthCounter { counter: LENGTH_LOOKUP@[(val >> 3) as int], ..p.length_counter },
            ..p
        }
    } else {
        p
    }
}

/// A pulse channel enabled or disabled through $4015: disabling clears the
/// length counter.
pub open spec fn pulse_enabled_set(p: PulseChannel, enabled: bool) -> PulseChannel {
    PulseChannel {
        enabled,
        length_counter: LengthCounter {
            counter: if enabled { p.length_counter.counter } else { 0 },
            ..p.length_counter
        },
        ..p
    }
}


proof fn lemma_shift_not_above(p: u16, s: u8)
    by (bit_vector)
    ensures
        p >> s <= p,
{
}

/// The sweep unit's target: with negate set it lies below the period by
/// the period shifted right by the shift count, and without it as far
/// above; so a negating sweep never raises the period (the pitch never
/// drops) and an adding one never lowers it. On a half-frame clock the
/// period moves only to that target.
pub proof fn law_sweep_direction(ch: PulseChannel, period: u16, shift: u8)
    ensures
        0 <= sweep_target(period, shift, true) <= period <= sweep_target(period, shift, false),
        sweep_target(period, shift, true) == period - (period >> shift),
        sweep_target(period, shift, false) == period + (period >> shift),
        sweep_target(period, shift, false) - period == period - sweep_target(period, shift, true),
        ch.sweep_negate ==> pulse_sweep_stepped(ch).timer.period <= ch.timer.period,
        !ch.sweep_negate ==> pulse_sweep_stepped(ch).timer.period >= ch.timer.period,
{
    lemma_shift_not_above(period, shift);
    lemma_shift_not_above(ch.timer.period, ch.sweep_shift);
}


/// The number of high steps in the first `n` steps of duty sequence `m`.
pub open spec fn duty_high_count(m: int, n: int) -> int
    decreases n,
{
    if n <= 0 {
        0
    } else {
        duty_high_count(m, n - 1) + DUTY_TABLE@[m]@[n - 1]
    }
}

/// The duty sequences: 12.5%, 25%, 50% and 75% of their eight steps are
/// high, every step is 0 or 1, and the 75% sequence is the 25% one
/// inverted.
pub proof fn law_duty_cycles()
    ensures
        duty_high_count(0, 8) == 1,
        duty_high_count(1, 8) == 2,
        duty_high_count(2, 8) == 4,
        duty_high_count(3, 8) == 6,
        forall|m: int, i: int| 0 <= m < 4 && 0 <= i < 8 ==> #[trigger] DUTY_TABLE@[m]@[i] <= 1,
        forall|i: int| 0 <= i < 8 ==> #[trigger] DUTY_TABLE@[3]@[i] + DUTY_TABLE@[1]@[i] == 1,
{
    reveal_with_fuel(duty_high_count, 9);
}

} // verus!
