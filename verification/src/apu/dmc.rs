use vstd::prelude::*;
use crate::bits::{lemma_apu_fields, lemma_u8_bits};
use super::common::{timer_stepped, Timer};

verus! {

/// Timer periods, in CPU cycles, selected by the low four bits of $4010.
pub const DELTA_MODULATION_RATES: [u16; 16] = [
    428, 380, 340, 320, 286, 254, 226, 214, 190, 160, 142, 128, 106, 84, 72, 54,
];

/// The delta modulation channel: plays 1-bit delta-encoded samples that it
/// fetches from CPU memory, one byte at a time.
pub struct DeltaModulationChannel {
    pub enabled: bool,
    pub interrupt_flag: bool,
    pub loop_flag: bool,
    pub output_level: u8,
    pub sample_addr: u16,
    pub sample_len: u16,
    pub current_addr: u16,
    pub bytes_remaining: u16,
    pub shift_register: u8,
    pub silence_flag: bool,
    pub output_bits_remaining: u8,
    pub irq_enabled: bool,
    pub cpu_stall: u32,
    pub memory_read_request: Option<u16>,
    pub timer: Timer,
}

/// The channel after the reader restarts the sample.
pub open spec fn restarted(d: DeltaModulationChannel) -> DeltaModulationChannel {
    DeltaModulationChannel { current_addr: d.sample_addr, bytes_remaining: d.sample_len, ..d }
}

/// The memory reader: when the shifter has run out of bits and sample bytes
/// remain, it requests the next byte (stalling the CPU for four cycles),
/// advances the address (wrapping from $FFFF to $8000) and restarts a
/// looping sample that has run out.
pub open spec fn reader_stepped(d: DeltaModulationChannel) -> DeltaModulationChannel {
    if d.output_bits_remaining == 0 && d.bytes_remaining > 0 {
        let next = DeltaModulationChannel {
            cpu_stall: (d.cpu_stall + 4) as u32,
            memory_read_request: Some(d.current_addr),
            output_bits_remaining: 8,
            current_addr: if d.current_addr == 0xFFFF {
                0x8000
            } else {
                (d.current_addr + 1) as u16
            },
            bytes_remaining: (d.bytes_remaining - 1) as u16,
            ..d
        };
        if next.bytes_remaining == 0 && d.loop_flag {
            restarted(next)
        } else {
            next
        }
    } else {
        d
    }
}

/// The output unit: while bits remain, each bit raises (1) or lowers (0)
/// the output level by two within 0..=127 (unless silenced), then the
/// shift register moves on.
pub open spec fn shifter_stepped(d: DeltaModulationChannel) -> DeltaModulationChannel {
    if d.output_bits_remaining != 0 {
        let level: u8 = if d.silence_flag {
            d.output_level
        } else if d.shift_register & 1 == 1 {
            if d.output_level <= 125 {
                (d.output_level + 2) as u8
            } else {
                d.output_level
            }
        } else if d.output_level >= 2 {
            (d.output_level - 2) as u8
        } else {
            d.output_level
        };
        DeltaModulationChannel {
            output_level: level,
            shift_register: d.shift_register >> 1,
            output_bits_remaining: (d.output_bits_remaining - 1) as u8,
            ..d
        }
    } else {
        d
    }
}

/// The channel as `new` makes it.
pub open spec fn dmc_initial() -> DeltaModulationChannel {
    DeltaModulationChannel {
        enabled: false,
        interrupt_flag: false,
        loop_flag: false,
        output_level: 0,
        sample_addr: 0,
        sample_len: 0,
        current_addr: 0,
        bytes_remaining: 0,
        shift_register: 0,
        silence_flag: false,
        output_bits_remaining: 0,
        irq_enabled: false,
        cpu_stall: 0,
        memory_read_request: None,
        timer: Timer { counter: 0, period: 0 },
    }
}

/// The channel after `val` is written to register `addr`.
pub open spec fn dmc_written(d: DeltaModulationChannel, addr: u16, val: u8) -> DeltaModulationChannel {
    if addr == 0x4010 {
        DeltaModulationChannel {
            irq_enabled: val & 0b1000_0000 != 0,
            loop_flag: val & 0b0100_0000 != 0,
            timer: Timer { period: DELTA_MODULATION_RATES@[(val & 0b1111) as int], ..d.timer },
            ..d
        }
    } else if addr == 0x4011 {
        DeltaModulationChannel { output_level: val & 0b0111_1111, ..d }
    } else if addr == 0x4012 {
        DeltaModulationChannel { sample_addr: (0xC000 + 64 * val) as u16, ..d }
    } else if addr == 0x4013 {
        DeltaModulationChannel { sample_len: (16 * val + 1) as u16, ..d }
    } else {
        d
    }
}

/// The channel after one APU cycle.
pub open spec fn dmc_timer_stepped(d: DeltaModulationChannel) -> DeltaModulationChannel {
    if !d.enabled {
        d
    } else {
        let r = reader_stepped(d);
        if r.memory_read_request is None {
            let t = DeltaModulationChannel { timer: timer_stepped(r.timer), ..r };
            if r.timer.counter == 0 {
                shifter_stepped(t)
            } else {
                t
            }
        } else {
            r
        }
    }
}

/// The channel after the bus answers its memory read with `val`.
pub open spec fn dmc_answered(d: DeltaModulationChannel, val: u8) -> DeltaModulationChannel {
    let e = DeltaModulationChannel { shift_register: val, timer: timer_stepped(d.timer), ..d };
    if d.timer.counter == 0 {
        shifter_stepped(e)
    } else {
        e
    }
}

/// The channel after it is enabled or disabled.
pub open spec fn dmc_enabled(d: DeltaModulationChannel, enabled: bool) -> DeltaModulationChannel {
    if !enabled {
        DeltaModulationChannel { enabled, bytes_remaining: 0, ..d }
    } else if d.bytes_remaining == 0 {
        restarted(DeltaModulationChannel { enabled, ..d })
    } else {
        DeltaModulationChannel { enabled, ..d }
    }
}

/// The operations that change a channel.
pub enum DmcEvent {
    Write(u16, u8),
    SetEnabled(bool),
    StepTimer,
    MemoryReadResponse(u8),
    ClearInterruptFlag,
}

/// The channel after one operation.
pub open spec fn dmc_after(d: DeltaModulationChannel, e: DmcEvent) -> DeltaModulationChannel {
    match e {
        DmcEvent::Write(addr, val) => dmc_written(d, addr, val),
        DmcEvent::SetEnabled(enabled) => dmc_enabled(d, enabled),
        DmcEvent::StepTimer => dmc_timer_stepped(d),
        DmcEvent::MemoryReadResponse(val) => dmc_answered(d, val),
        DmcEvent::ClearInterruptFlag => DeltaModulationChannel { interrupt_flag: false, ..d },
    }
}

/// The channel after a sequence of operations, in order.
pub open spec fn dmc_run(d: DeltaModulationChannel, es: Seq<DmcEvent>) -> DeltaModulationChannel
    decreases es.len(),
{
    if es.len() == 0 {
        d
    } else {
        dmc_after(dmc_run(d, es.drop_last()), es.last())
    }
}

impl DeltaModulationChannel {
    pub fn new() -> (d: DeltaModulationChannel)
        ensures
            d == dmc_initial(),
            !d.enabled && !d.interrupt_flag && !d.loop_flag && !d.silence_flag && !d.irq_enabled,
            d.output_level == 0 && d.sample_addr == 0 && d.sample_len == 0,
            d.current_addr == 0 && d.bytes_remaining == 0 && d.shift_register == 0,
            d.output_bits_remaining == 0 && d.cpu_stall == 0,
            d.memory_read_request is None,
            d.timer.counter == 0 && d.timer.period == 0,
    {
        DeltaModulationChannel {
            enabled: false,
            interrupt_flag: false,
            loop_flag: false,
            output_level: 0,
            sample_addr: 0,
            sample_len: 0,
            current_addr: 0,
            bytes_remaining: 0,
            shift_register: 0,
            silence_flag: false,
            output_bits_remaining: 0,
            irq_enabled: false,
            cpu_stall: 0,
            memory_read_request: None,
            timer: Timer::default(),
        }
    }

    /// Register writes: $4010 (IRQ enable, loop, rate), $4011 (direct
    /// output level), $4012 (sample address $C000 + 64 * value), $4013
    /// (sample length 16 * value + 1); other addresses are ignored.
    pub fn write(&mut self, addr: u16, val: u8)
        ensures
            *final(self) == dmc_written(*old(self), addr, val),
            old(self).output_level <= 127 ==> final(self).output_level <= 127,
            addr == 0x4010 ==> *final(self) == (DeltaModulationChannel {
                irq_enabled: val & 0b1000_0000 != 0,
                loop_flag: val & 0b0100_0000 != 0,
                timer: Timer {
                    period: DELTA_MODULATION_RATES@[(val & 0b1111) as int],
                    ..old(self).timer
                },
                ..*old(self)
            }),
            addr == 0x4011 ==> *final(self) == (DeltaModulationChannel {
                output_level: val & 0b0111_1111,
                ..*old(self)
            }),
            addr == 0x4012 ==> *final(self) == (DeltaModulationChannel {
                sample_addr: (0xC000 + 64 * val) as u16,
                ..*old(self)
            }),
            addr == 0x4013 ==> *final(self) == (DeltaModulationChannel {
                sample_len: (16 * val + 1) as u16,
                ..*old(self)
            }),
            !(0x4010 <= addr <= 0x4013) ==> *final(self) == *old(self),
    {
        match addr {
            0x4010 => {
                self.irq_enabled = val & 0b1000_0000 != 0;
                self.loop_flag = val & 0b0100_0000 != 0;
                let rate_index = val & 0b1111;
                proof {
                    lemma_u8_bits(val);
                }
                self.timer.period = DELTA_MODULATION_RATES[rate_index as usize];
            },
            0x4011 => {
                self.output_level = val & 0b0111_1111;
                assert(val & 0b0111_1111 <= 127) by (bit_vector);
            },
            0x4012 => {
                let a = 0xC000 | ((val as u16) << 6);
                proof {
                    lemma_apu_fields(0, val, 0, 0);
                }
                self.sample_addr = a;
            },
            0x4013 => {
                let l = ((val as u16) << 4) | 1;
                proof {
                    lemma_apu_fields(0, val, 0, 0);
                }
                self.sample_len = l;
            },
            _ => {},
        }
    }

    /// Once per APU cycle while enabled: steps the memory reader, then,
    /// unless a memory read is pending, clocks the timer and on its reload
    /// steps the output unit.
    pub fn step_timer(&mut self)
        requires
            old(self).cpu_stall <= u32::MAX - 4,
        ensures
            *final(self) == dmc_timer_stepped(*old(self)),
            old(self).output_level <= 127 ==> final(self).output_level <= 127,
            !old(self).enabled ==> *final(self) == *old(self),
            old(self).enabled ==> {
                let r = reader_stepped(*old(self));
                if r.memory_read_request is None {
                    if r.timer.counter == 0 {
                        *final(self) == shifter_stepped(
                            DeltaModulationChannel { timer: timer_stepped(r.timer), ..r },
                        )
                    } else {
                        *final(self) == (DeltaModulationChannel { timer: timer_stepped(r.timer), ..r })
                    }
                } else {
                    *final(self) == r
                }
            },
    {
        if self.enabled {
            self.step_reader();
            if self.memory_read_request.is_none() && self.timer.step() {
                self.step_shifter();
            }
        }
    }

    /// Hands the channel the byte it asked the bus for; clocks the timer and
    /// on its reload steps the output unit.
    pub fn set_memory_read_response(&mut self, val: u8)
        ensures
            *final(self) == dmc_answered(*old(self), val),
            old(self).output_level <= 127 ==> final(self).output_level <= 127,
            ({
                let d = DeltaModulationChannel {
                    shift_register: val,
                    timer: timer_stepped(old(self).timer),
                    ..*old(self)
                };
                if old(self).timer.counter == 0 {
                    *final(self) == shifter_stepped(d)
                } else {
                    *final(self) == d
                }
            }),
    {
        self.shift_register = val;
        if self.timer.step() {
            self.step_shifter();
        }
    }

    fn restart(&mut self)
        ensures
            *final(self) == restarted(*old(self)),
    {
        self.current_addr = self.sample_addr;
        self.bytes_remaining = self.sample_len;
    }

    fn step_reader(&mut self)
        requires
            old(self).cpu_stall <= u32::MAX - 4,
        ensures
            *final(self) == reader_stepped(*old(self)),
    {
        if self.output_bits_remaining == 0 && self.bytes_remaining > 0 {
            // a fixed four-cycle stall; on hardware it depends on when the read lands
            self.cpu_stall += 4;
            // the bus answers the request right after this step
            self.memory_read_request = Some(self.current_addr);
            self.output_bits_remaining = 8;
            self.current_addr = match self.current_addr {
                0xFFFF => 0x8000,
                _ => self.current_addr + 1,
            };
            self.bytes_remaining -= 1;
            if self.bytes_remaining == 0 && self.loop_flag {
                self.restart();
            } else if self.bytes_remaining == 0 && self.interrupt_flag {
                self.interrupt_flag = true;
            }
        }
    }

    fn step_shifter(&mut self)
        ensures
            *final(self) == shifter_stepped(*old(self)),
    {
        if self.output_bits_remaining != 0 {
            if !self.silence_flag {
                match self.shift_register & 1 {
                    1 => {
                        if self.output_level <= 125 {
                            self.output_level += 2
                        }
                    },
                    _ => {
                        if self.output_level >= 2 {
                            self.output_level -= 2
                        }
                    },
                };
            }
            self.shift_register = self.shift_register >> 1;
            self.output_bits_remaining -= 1;
        }
    }

    pub fn is_active(&self) -> (b: bool)
        ensures
            b == (self.bytes_remaining > 0),
    {
        self.bytes_remaining > 0
    }

    pub fn clear_interrupt_flag(&mut self)
        ensures
            old(self).output_level <= 127 ==> final(self).output_level <= 127,
            *final(self) == (DeltaModulationChannel { interrupt_flag: false, ..*old(self) }),
    {
        self.interrupt_flag = false;
    }

    /// Disabling drops the remaining sample bytes; enabling an idle channel
    /// restarts its sample.
    pub fn set_enabled(&mut self, enabled: bool)
        ensures
            *final(self) == dmc_enabled(*old(self), enabled),
            old(self).output_level <= 127 ==> final(self).output_level <= 127,
            !enabled ==> *final(self) == (DeltaModulationChannel {
                enabled,
                bytes_remaining: 0,
                ..*old(self)
            }),
            enabled && old(self).bytes_remaining == 0 ==> *final(self) == restarted(
                DeltaModulationChannel { enabled, ..*old(self) },
            ),
            enabled && old(self).bytes_remaining != 0 ==> *final(self) == (DeltaModulationChannel {
                enabled,
                ..*old(self)
            }),
    {
        self.enabled = enabled;
        if !enabled {
            self.bytes_remaining = 0
        } else if self.bytes_remaining == 0 {
            self.restart();
        }
    }

    pub fn output(&self) -> (v: u8)
        ensures
            v == self.output_level,
    {
        self.output_level
    }
}

/// The output level never leaves 0..=127 once it is there, whatever the
/// bits the output unit plays.
pub proof fn law_dmc_level_bounded(d: DeltaModulationChannel)
    requires
        d.output_level <= 127,
    ensures
        shifter_stepped(d).output_level <= 127,
{
}


/// Whatever sequence of register writes, enables, APU cycles, memory
/// answers and interrupt acknowledgements drives a channel, its output
/// level stays at or below 127 if it starts there, as it does from `new`.
pub proof fn law_dmc_level_reachable(d: DeltaModulationChannel, es: Seq<DmcEvent>)
    requires
        d.output_level <= 127,
    ensures
        dmc_run(d, es).output_level <= 127,
        dmc_run(dmc_initial(), es).output_level <= 127,
    decreases es.len(),
{
    if es.len() > 0 {
        law_dmc_level_reachable(d, es.drop_last());
        let p = dmc_run(d, es.drop_last());
        let q = dmc_run(dmc_initial(), es.drop_last());
        lemma_dmc_after_bounded(p, es.last());
        lemma_dmc_after_bounded(q, es.last());
    }
}

proof fn lemma_dmc_after_bounded(d: DeltaModulationChannel, e: DmcEvent)
    requires
        d.output_level <= 127,
    ensures
        dmc_after(d, e).output_level <= 127,
{
    match e {
        DmcEvent::Write(addr, val) => {
            assert(val & 0b0111_1111 <= 127) by (bit_vector);
        },
        DmcEvent::StepTimer => {
            let r = reader_stepped(d);
            law_dmc_level_bounded(DeltaModulationChannel { timer: timer_stepped(r.timer), ..r });
        },
        DmcEvent::MemoryReadResponse(val) => {
            law_dmc_level_bounded(DeltaModulationChannel { shift_register: val, timer: timer_stepped(d.timer), ..d });
        },
        _ => {},
    }
}

} // verus!
