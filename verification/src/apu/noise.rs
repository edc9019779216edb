use vstd::prelude::*;
use crate::bits::{lemma_apu_fields, lemma_u8_bits};
use super::common::{
    envelope_stepped, envelope_volume, length_stepped, timer_stepped, Envelope, LengthCounter, Timer,
    LENGTH_LOOKUP,
};

verus! {

pub const NOISE_PERIOD_TABLE: [u16; 16] = [
    4, 8, 16, 32, 64, 96, 128, 160, 202, 254, 380, 508, 762, 1016, 2034, 4068,
];

/// The noise channel: a 15-bit linear-feedback shift register clocked by a
/// timer, gated by a length counter and shaped by an envelope.
pub struct NoiseChannel {
    pub enabled: bool,
    pub length_counter: LengthCounter,
    pub envelope: Envelope,
    pub timer: Timer,
    pub shift_register: u16,
    pub mode: bool,
}

/// The shift register after one clock: shifted right, with the exclusive or
/// of bit 0 and bit 6 (mode set) or bit 1 (mode clear) fed into bit 14.
pub open spec fn lfsr_next(sr: u16, mode: bool) -> u16 {
    let bit: u16 = if mode { 6 } else { 1 };
    let feedback = (sr & 1) ^ ((sr >> bit) & 1);
    (sr >> 1) | (feedback << 14)
}

/// The channel after one clock of its timer.
pub open spec fn noise_timer_stepped(n: NoiseChannel) -> NoiseChannel {
    NoiseChannel {
        timer: timer_stepped(n.timer),
        shift_register: if n.timer.counter == 0 {
            lfsr_next(n.shift_register, n.mode)
        } else {
            n.shift_register
        },
        ..n
    }
}

/// The channel after a half-frame clock of its length counter.
pub open spec fn noise_length_stepped(n: NoiseChannel) -> NoiseChannel {
    NoiseChannel { length_counter: length_stepped(n.length_counter), ..n }
}

/// The channel after a quarter-frame clock of its envelope.
pub open spec fn noise_envelope_stepped(n: NoiseChannel) -> NoiseChannel {
    NoiseChannel { envelope: envelope_stepped(n.envelope), ..n }
}

impl NoiseChannel {
    /// The envelope's levels are four-bit values.
    pub open spec fn wf(&self) -> bool {
        self.envelope.wf()
    }

    pub fn new() -> (n: NoiseChannel)
        ensures
            n.wf(),
            !n.enabled && !n.mode,
            n.shift_register == 1,
            n.timer.counter == 0 && n.timer.period == 0,
            !n.length_counter.enabled && n.length_counter.counter == 0,
            n.envelope.decay == 0 && !n.envelope.start && !n.envelope.constant_mode,
    {
        NoiseChannel {
            enabled: false,
            length_counter: LengthCounter::default(),
            envelope: Envelope::default(),
            timer: Timer::default(),
            shift_register: 1,
            mode: false,
        }
    }

    /// Disabling the channel also silences its length counter.
    pub fn set_enabled(&mut self, enabled: bool)
        ensures
            final(self).enabled == enabled,
            final(self).length_counter.counter == if enabled {
                old(self).length_counter.counter
            } else {
                0
            },
            final(self).length_counter.enabled == old(self).length_counter.enabled,
            final(self).envelope == old(self).envelope,
            final(self).timer == old(self).timer,
            final(self).shift_register == old(self).shift_register,
            final(self).mode == old(self).mode,
            *final(self) == noise_enabled_set(*old(self), enabled),
    {
        self.enabled = enabled;
        if !enabled {
            self.length_counter.reset_to_zero();
        }
    }

    pub fn step_timer(&mut self)
        ensures
            *final(self) == noise_timer_stepped(*old(self)),
            final(self).timer.period == old(self).timer.period,
            final(self).timer.counter == if old(self).timer.counter == 0 {
                old(self).timer.period as int
            } else {
                old(self).timer.counter - 1
            },
            final(self).shift_register == if old(self).timer.counter == 0 {
                lfsr_next(old(self).shift_register, old(self).mode)
            } else {
                old(self).shift_register
            },
            final(self).enabled == old(self).enabled,
            final(self).mode == old(self).mode,
            final(self).length_counter == old(self).length_counter,
            final(self).envelope == old(self).envelope,
    {
        if self.timer.step() {
            let bit: u16 = if self.mode { 6 } else { 1 };
            let bit0 = self.shift_register & 1;
            let other_bit = (self.shift_register >> bit) & 1;
            let feedback = bit0 ^ other_bit;
            let sr = self.shift_register;
            proof {
                lemma_apu_fields(sr, 0, 0, bit);
            }
            self.shift_register = self.shift_register >> 1;
            self.shift_register = self.shift_register | (feedback << 14);
        }
    }

    #[inline]
    pub fn step_length_counter(&mut self)
        ensures
            *final(self) == noise_length_stepped(*old(self)),
            final(self).length_counter.enabled == old(self).length_counter.enabled,
            final(self).length_counter.counter == if old(self).length_counter.enabled
                && old(self).length_counter.counter > 0 {
                old(self).length_counter.counter - 1
            } else {
                old(self).length_counter.counter as int
            },
            final(self).enabled == old(self).enabled,
            final(self).envelope == old(self).envelope,
            final(self).timer == old(self).timer,
            final(self).shift_register == old(self).shift_register,
            final(self).mode == old(self).mode,
    {
        self.length_counter.step();
    }

    #[inline]
    pub fn step_envelope(&mut self)
        requires
            old(self).wf(),
        ensures
            final(self).wf(),
            *final(self) == noise_envelope_stepped(*old(self)),
            final(self).envelope == envelope_stepped(old(self).envelope),
            final(self).enabled == old(self).enabled,
            final(self).length_counter == old(self).length_counter,
            final(self).timer == old(self).timer,
            final(self).shift_register == old(self).shift_register,
            final(self).mode == old(self).mode,
    {
        proof {
            super::common::lemma_envelope_bounded(self.envelope);
        }
        self.envelope.step();
    }

    /// Register writes: $400C (halt flag, envelope), $400E (mode, period
    /// index), $400F (length index, envelope restart); other addresses are
    /// ignored.
    pub fn write(&mut self, addr: u16, val: u8)
        requires
            old(self).wf(),
        ensures
            final(self).wf(),
            final(self).enabled == old(self).enabled,
            final(self).shift_register == old(self).shift_register,
            final(self).timer.counter == old(self).timer.counter,
            addr == 0x400C ==> {
                &&& final(self).length_counter.enabled == (val & 0b0010_0000 == 0)
                &&& final(self).length_counter.counter == old(self).length_counter.counter
                &&& final(self).envelope == (Envelope {
                    looping: val & 0b0010_0000 != 0,
                    constant_mode: val & 0b0001_0000 != 0,
                    period: val & 0b1111,
                    constant_volume: val & 0b1111,
                    ..old(self).envelope
                })
                &&& final(self).mode == old(self).mode
                &&& final(self).timer == old(self).timer
            },
            addr == 0x400E ==> {
                &&& final(self).mode == (val & 0b1000_0000 != 0)
                &&& final(self).timer.period == NOISE_PERIOD_TABLE@[(val & 0b1111) as int]
                &&& final(self).length_counter == old(self).length_counter
                &&& final(self).envelope == old(self).envelope
            },
            addr == 0x400F ==> {
                &&& final(self).length_counter.counter == LENGTH_LOOKUP@[(val >> 3) as int]
                &&& final(self).length_counter.enabled == old(self).length_counter.enabled
                &&& final(self).envelope == (Envelope { start: true, ..old(self).envelope })
                &&& final(self).mode == old(self).mode
                &&& final(self).timer == old(self).timer
            },
            addr != 0x400C && addr != 0x400E && addr != 0x400F ==> *final(self) == *old(self),
            *final(self) == noise_written(*old(self), addr, val),
    {
        match addr {
            0x400C => {
                let halt_length_counter = val & 0b0010_0000 != 0;
                self.length_counter.set_enabled(!halt_length_counter);
                self.envelope.looping = halt_length_counter;
                self.envelope.constant_mode = val & 0b0001_0000 != 0;
                self.envelope.period = val & 0b1111;
                proof {
                    lemma_u8_bits(val);
                }
                self.envelope.constant_volume = val & 0b1111;
            },
            0x400E => {
                self.mode = val & 0b1000_0000 != 0;
                let idx = val & 0b1111;
                proof {
                    lemma_u8_bits(val);
                }
                self.timer.period = NOISE_PERIOD_TABLE[idx as usize];
            },
            0x400F => {
                proof {
                    lemma_u8_bits(val);
                }
                self.length_counter.set(val >> 3);
                self.envelope.start = true;
            },
            _ => {},
        }
    }

    /// Silent while bit 0 of the shift register is set or the length counter
    /// is zero; otherwise the envelope's volume.
    pub fn output(&self) -> (v: u8)
        requires
            self.wf(),
        ensures
            v == noise_output(*self),
            v <= 15,
    {
        if self.shift_register & 1 == 1 || self.length_counter.is_zero() {
            0
        } else {
            self.envelope.output()
        }
    }
}


/// The level the noise channel outputs.
pub open spec fn noise_output(c: NoiseChannel) -> u8 {
    if c.shift_register & 1 == 1 || c.length_counter.counter == 0 {
        0
    } else {
        envelope_volume(c.envelope)
    }
}


/// The noise channel after a write of `val` to register `addr`: $400C sets
/// the length counter halt and the envelope; $400E the mode and the period
/// (from the period table); $400F the length counter, and the envelope
/// restarts; other addresses change nothing.
pub open spec fn noise_written(n: NoiseChannel, addr: u16, val: u8) -> NoiseChannel {
    if addr == 0x400C {
        NoiseChannel {
            length_counter: LengthCounter { enabled: val & 0b0010_0000 == 0, ..n.length_counter },
            envelope: Envelope {
                looping: val & 0b0010_0000 != 0,
                constant_mode: val & 0b0001_0000 != 0,
                period: val & 0b1111,
                constant_volume: val & 0b1111,
                ..n.envelope
            },
            ..n
        }
    } else if addr == 0x400E {
        NoiseChannel {
            mode: val & 0b1000_0000 != 0,
            timer: Timer { period: NOISE_PERIOD_TABLE@[(val & 0b1111) as int], ..n.timer },
            ..n
        }
    } else if addr == 0x400F {
        NoiseChannel {
            length_counter: LengthCounter { counter: LENGTH_LOOKUP@[(val >> 3) as int], ..n.length_counter },
            envelope: Envelope { start: true, ..n.envelope },
            ..n
        }
    } else {
        n
    }
}

/// The noise channel enabled or disabled through $4015: disabling clears
/// the length counter.
pub open spec fn noise_enabled_set(n: NoiseChannel, enabled: bool) -> NoiseChannel {
    NoiseChannel {
        enabled,
        length_counter: LengthCounter {
            counter: if enabled { n.length_counter.counter } else { 0 },
            ..n.length_counter
        },
        ..n
    }
}

} // verus!
