pub mod common;
pub mod dmc;
pub mod noise;
pub mod pulse;
pub mod triangle;

use vstd::prelude::*;
use crate::bits::lemma_u32_bits;
use self::noise::{
    noise_enabled_set, noise_envelope_stepped, noise_length_stepped, noise_output, noise_timer_stepped,
    noise_written, NoiseChannel,
};
use self::pulse::{
    pulse_enabled_set, pulse_envelope_stepped, pulse_length_stepped, pulse_output,
    pulse_sweep_stepped, pulse_timer_stepped, pulse_written, PulseChannel, PulseChannelId,
};
use self::triangle::{
    triangle_enabled_set, triangle_length_stepped, triangle_linear_stepped, triangle_output,
    triangle_timer_stepped, triangle_written, TriangleChannel,
};

verus! {

/// Number of entries of the pulse mixer lookup table.
pub const PULSE_MIXER_LEN: usize = 32;
/// Number of entries of the triangle/noise mixer lookup table.
pub const TND_MIXER_LEN: usize = 204;

#[derive(Clone, Copy, PartialEq, Eq, Structural)]
pub enum FrameMode {
    FourStep,
    FiveStep,
}

/// The audio processing unit: the four sound channels and the frame
/// sequencer that clocks their envelopes, counters and sweeps.
#[allow(clippy::upper_case_acronyms)]
pub struct APU {
    pub cycle: u32,
    pub frame_counter: u32,
    pub frame_interrupt: bool,
    pub frame_mode: FrameMode,
    pub pulse1: PulseChannel,
    pub pulse2: PulseChannel,
    pub triangle: TriangleChannel,
    pub noise: NoiseChannel,
}

/// A quarter-frame clock falls on the given frame-counter value.
pub open spec fn is_quarter_frame(fc: u32, mode: FrameMode) -> bool {
    fc == 3729 || fc == 7457 || fc == 11186 || (fc == 14915 && mode == FrameMode::FourStep)
        || fc == 18641
}

/// A half-frame clock falls on the given frame-counter value.
pub open spec fn is_half_frame(fc: u32, mode: FrameMode) -> bool {
    fc == 7457 || (fc == 14915 && mode == FrameMode::FourStep) || fc == 18641
}

/// The channels after a quarter-frame clock: envelopes and the triangle's
/// linear counter.
pub open spec fn quarter_clocked(a: APU) -> APU {
    APU {
        pulse1: pulse_envelope_stepped(a.pulse1),
        pulse2: pulse_envelope_stepped(a.pulse2),
        triangle: triangle_linear_stepped(a.triangle),
        noise: noise_envelope_stepped(a.noise),
        ..a
    }
}

/// The channels after a half-frame clock: length counters, then the pulse
/// sweeps.
pub open spec fn half_clocked(a: APU) -> APU {
    APU {
        pulse1: pulse_sweep_stepped(pulse_length_stepped(a.pulse1)),
        pulse2: pulse_sweep_stepped(pulse_length_stepped(a.pulse2)),
        triangle: triangle_length_stepped(a.triangle),
        noise: noise_length_stepped(a.noise),
        ..a
    }
}

/// The frame sequencer advanced by one step, before the channels it clocks:
/// the pulse and noise timers run and the frame counter moves on; the
/// four-step sequence restarts after 14915 steps, the five-step one after
/// 18641, raising the frame interrupt.
pub open spec fn sequencer_advanced(a: APU) -> APU {
    let fc = (a.frame_counter + 1) as u32;
    let resets = (fc == 14915 && a.frame_mode == FrameMode::FourStep) || fc == 18641;
    APU {
        pulse1: pulse_timer_stepped(a.pulse1),
        pulse2: pulse_timer_stepped(a.pulse2),
        noise: noise_timer_stepped(a.noise),
        frame_counter: if resets {
            0
        } else {
            fc
        },
        frame_interrupt: a.frame_interrupt || fc == 18641,
        ..a
    }
}

/// One step of the frame sequencer with the clocks it gives.
pub open spec fn sequencer_stepped(a: APU) -> APU {
    let fc = (a.frame_counter + 1) as u32;
    let a1 = sequencer_advanced(a);
    let a2 = if is_quarter_frame(fc, a.frame_mode) {
        quarter_clocked(a1)
    } else {
        a1
    };
    if is_half_frame(fc, a.frame_mode) {
        half_clocked(a2)
    } else {
        a2
    }
}

/// The APU after one CPU cycle: the triangle timer runs every cycle, the
/// frame sequencer on every second one.
pub open spec fn apu_stepped(a: APU) -> APU {
    let a1 = APU { cycle: (a.cycle + 1) as u32, triangle: triangle_timer_stepped(a.triangle), ..a };
    if a1.cycle % 2 == 0 {
        sequencer_stepped(a1)
    } else {
        a1
    }
}

/// The APU after a CPU write of `val` to `addr`: $4000-$4003 and
/// $4004-$4007 go to the pulse channels, $4008-$400B to the triangle,
/// $400C-$400F to the noise channel; $4015 enables or disables the four
/// channels (bits 0 to 3); $4017 selects the sequencer mode (bit 7) and
/// clears the frame interrupt when bit 6 is set; other addresses change
/// nothing.
pub open spec fn apu_write_result(a: APU, addr: u16, val: u8) -> APU {
    if 0x4000 <= addr <= 0x4003 {
        APU { pulse1: pulse_written(a.pulse1, addr, val), ..a }
    } else if 0x4004 <= addr <= 0x4007 {
        APU { pulse2: pulse_written(a.pulse2, addr, val), ..a }
    } else if 0x4008 <= addr <= 0x400B {
        APU { triangle: triangle_written(a.triangle, addr, val), ..a }
    } else if 0x400C <= addr <= 0x400F {
        APU { noise: noise_written(a.noise, addr, val), ..a }
    } else if addr == 0x4015 {
        APU {
            pulse1: pulse_enabled_set(a.pulse1, val & 1 != 0),
            pulse2: pulse_enabled_set(a.pulse2, val & 2 != 0),
            triangle: triangle_enabled_set(a.triangle, val & 4 != 0),
            noise: noise_enabled_set(a.noise, val & 8 != 0),
            ..a
        }
    } else if addr == 0x4017 {
        APU {
            frame_mode: if val & 0b1000_0000 == 0 {
                FrameMode::FourStep
            } else {
                FrameMode::FiveStep
            },
            frame_interrupt: a.frame_interrupt && val & 0b0100_0000 == 0,
            ..a
        }
    } else {
        a
    }
}

/// `a2` is the APU after the write, and consistent.
pub open spec fn apu_written(a: APU, addr: u16, val: u8, a2: APU) -> bool {
    &&& a2.wf()
    &&& a2 == apu_write_result(a, addr, val)
}

/// The APU at power-on: counters at zero, four-step mode, channels off.
pub open spec fn apu_power_on(apu: APU) -> bool {
    &&& apu.cycle == 0 && apu.frame_counter == 0 && !apu.frame_interrupt
    &&& apu.frame_mode == FrameMode::FourStep
    &&& !apu.pulse1.enabled && !apu.pulse2.enabled && !apu.triangle.enabled && !apu.noise.enabled
}

impl APU {
    /// The channels satisfy their own invariants.
    pub open spec fn wf(&self) -> bool {
        &&& self.pulse1.wf()
        &&& self.pulse2.wf()
        &&& self.triangle.wf()
        &&& self.noise.wf()
    }

    pub fn new() -> (apu: APU)
        ensures
            apu.wf(),
            apu_power_on(apu),
    {
        APU {
            cycle: 0,
            frame_counter: 0,
            frame_interrupt: false,
            frame_mode: FrameMode::FourStep,
            pulse1: PulseChannel::new(PulseChannelId::Pulse1),
            pulse2: PulseChannel::new(PulseChannelId::Pulse2),
            triangle: TriangleChannel::new(),
            noise: NoiseChannel::new(),
        }
    }

    /// The two mixer table indices for the current channel outputs: the sum
    /// of the pulse outputs, and three times the triangle output plus twice
    /// the noise output.
    #[inline]
    pub fn get_sample_indices(&self) -> (idx: (usize, usize))
        requires
            self.wf(),
        ensures
            idx.0 == pulse_output(self.pulse1) + pulse_output(self.pulse2),
            idx.1 == 3 * triangle_output(self.triangle) + 2 * noise_output(self.noise),
            idx.0 < PULSE_MIXER_LEN,
            idx.1 < TND_MIXER_LEN,
    {
        let p1 = self.pulse1.output();
        let p2 = self.pulse2.output();
        let t = self.triangle.output();
        let n = self.noise.output();
        ((p1 + p2) as usize, (3 * t + 2 * n) as usize)
    }

    /// CPU writes to the APU registers: $4000-$4003 and $4004-$4007 to the
    /// pulse channels, $4008-$400B to the triangle, $400C-$400F to the noise
    /// channel, $4015 enables channels, $4017 selects the sequencer mode and
    /// may clear the frame interrupt; $4010-$4013 (sample playback) and other
    /// addresses are ignored.
    pub fn write(&mut self, addr: u16, val: u8)
        requires
            old(self).wf(),
        ensures
            apu_written(*old(self), addr, val, *final(self)),
    {
        match addr {
            0x4000..=0x4003 => self.pulse1.write(addr, val),
            0x4004..=0x4007 => self.pulse2.write(addr, val),
            0x4008..=0x400B => self.triangle.write(addr, val),
            0x400C..=0x400F => self.noise.write(addr, val),
            0x4010..=0x4013 => {},  // DMC
            // Control
            0x4015 => {
                self.pulse1.set_enabled(val & 1 != 0);
                self.pulse2.set_enabled(val & 2 != 0);
                self.triangle.set_enabled(val & 4 != 0);
                self.noise.set_enabled(val & 8 != 0);
            },
            // Frame Counter
            0x4017 => {
                self.frame_mode = if val & 0b1000_0000 == 0 {
                    FrameMode::FourStep
                } else {
                    FrameMode::FiveStep
                };
                if val & 0b0100_0000 != 0 {
                    self.frame_interrupt = false;
                }
            },
            _ => {},
        }
    }

    /// Reading $4015 acknowledges the frame interrupt; every read gives 0.
    pub fn read(&mut self, addr: u16) -> (v: u8)
        ensures
            v == 0,
            addr == 0x4015 ==> *final(self) == (APU { frame_interrupt: false, ..*old(self) }),
            addr != 0x4015 ==> *final(self) == *old(self),
    {
        match addr {
            0x4015 => {
                self.frame_interrupt = false;
                0
            },
            _ => 0,
        }
    }

    /// Whether the frame sequencer is raising its interrupt.
    pub fn is_asserting_irq(&self) -> (b: bool)
        ensures
            b == self.frame_interrupt,
    {
        self.frame_interrupt
    }

    /// Advances the APU by one CPU cycle.
    pub fn step(&mut self)
        requires
            old(self).wf(),
            old(self).cycle < u32::MAX,
            old(self).frame_counter < u32::MAX,
        ensures
            final(self).wf(),
            *final(self) == apu_stepped(*old(self)),
    {
        self.cycle += 1;
        self.triangle.step_timer();
        let c = self.cycle;
        proof {
            lemma_u32_bits(c);
        }
        if self.cycle & 1 == 0 {
            self.step_frame_sequencer();
        }
    }

    fn step_frame_sequencer(&mut self)
        requires
            old(self).wf(),
            old(self).frame_counter < u32::MAX,
        ensures
            final(self).wf(),
            *final(self) == sequencer_stepped(*old(self)),
    {
        let (quarter_frame, half_frame) = self.advance_frame_counter();
        if quarter_frame {
            self.clock_quarter_frame();
        }
        if half_frame {
            self.clock_half_frame();
        }
    }

    fn advance_frame_counter(&mut self) -> (clocks: (bool, bool))
        requires
            old(self).wf(),
            old(self).frame_counter < u32::MAX,
        ensures
            final(self).wf(),
            *final(self) == sequencer_advanced(*old(self)),
            clocks.0 == is_quarter_frame((old(self).frame_counter + 1) as u32, old(self).frame_mode),
            clocks.1 == is_half_frame((old(self).frame_counter + 1) as u32, old(self).frame_mode),
    {
        self.pulse1.step_timer();
        self.pulse2.step_timer();
        self.noise.step_timer();
        self.frame_counter += 1;
        let mut quarter_frame = false;
        let mut half_frame = false;
        match self.frame_counter {
            3729 => quarter_frame = true,
            7457 => {
                quarter_frame = true;
                half_frame = true;
            },
            11186 => quarter_frame = true,
            14915 => {
                if self.frame_mode == FrameMode::FourStep {
                    quarter_frame = true;
                    half_frame = true;
                    self.frame_counter = 0;
                }
            },
            18641 => {
                // this only happens in 5 step mode
                quarter_frame = true;
                half_frame = true;
                self.frame_interrupt = true;
                self.frame_counter = 0;
            },
            _ => {},
        };
        (quarter_frame, half_frame)
    }

    fn clock_quarter_frame(&mut self)
        requires
            old(self).wf(),
        ensures
            final(self).wf(),
            *final(self) == quarter_clocked(*old(self)),
    {
        self.pulse1.step_envelope();
        self.pulse2.step_envelope();
        self.triangle.step_linear_counter();
        self.noise.step_envelope();
    }

    fn clock_half_frame(&mut self)
        requires
            old(self).wf(),
        ensures
            final(self).wf(),
            *final(self) == half_clocked(*old(self)),
    {
        self.pulse1.step_length_counter();
        self.pulse2.step_length_counter();
        self.triangle.step_length_counter();
        self.noise.step_length_counter();
        self.pulse1.step_sweep();
        self.pulse2.step_sweep();
    }
}

/// In four-step mode the frame sequencer never raises the frame interrupt.
pub proof fn law_four_step_no_interrupt(a: APU)
    requires
        a.frame_mode == FrameMode::FourStep,
        a.frame_counter < 14915,
        !a.frame_interrupt,
    ensures
        !apu_stepped(a).frame_interrupt,
        apu_stepped(a).frame_counter < 14915,
{
}

} // verus!
