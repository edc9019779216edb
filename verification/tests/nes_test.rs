use nessy::apu::common::Timer;
use nessy::apu::dmc::DeltaModulationChannel;
use nessy::bus::controller::{Joypad, JoypadStatus};
use nessy::bus::Bus;
use nessy::cpu::disassembler::parse_hex;
use nessy::cpu::mappers::basic::Basic;
use nessy::cpu::mappers::Mapper;
use nessy::cpu::memory::Memory;
use nessy::cpu::opcodes::{decode, AddressingMode, Op};
use nessy::cpu::rom::{Mirroring, RomError, ROM};
use nessy::cpu::CPU;

/// An NROM image with one 16 KiB PRG bank holding `program` at $8000 (and
/// $C000), the reset vector pointing there, and one CHR bank of zeros.
fn nrom_image(program: &[u8]) -> Vec<u8> {
    let mut bytes = vec![0x4E, 0x45, 0x53, 0x1A, 1, 1, 0, 0, 0, 0, 0, 0, 0, 0, 0, 0];
    let mut prg = vec![0u8; 0x4000];
    prg[..program.len()].copy_from_slice(program);
    prg[0x3FFC] = 0x00;
    prg[0x3FFD] = 0x80;
    prg[0x3FFE] = 0x00;
    prg[0x3FFF] = 0x90;
    bytes.extend_from_slice(&prg);
    bytes.extend_from_slice(&[0u8; 0x2000]);
    bytes
}

fn cpu_with(program: &[u8]) -> CPU {
    let rom = match ROM::new(nrom_image(program)) {
        Ok(rom) => rom,
        Err(_) => panic!("the image should be accepted"),
    };
    CPU::new(Bus::new(rom))
}

#[test]
fn rom_rejects_bad_magic() {
    let mut image = nrom_image(&[]);
    image[3] = 0x1B;
    assert!(matches!(ROM::new(image), Err(RomError::InvalidiNesHeader)));
}

#[test]
fn rom_rejects_ines_version_2() {
    let mut image = nrom_image(&[]);
    image[7] = 0b0000_1000;
    assert!(matches!(ROM::new(image), Err(RomError::InvalidiNesHeader)));
}

#[test]
fn rom_rejects_unsupported_mapper() {
    let mut image = nrom_image(&[]);
    image[6] = 0x30; // mapper 3 (CNROM)
    assert!(matches!(ROM::new(image), Err(RomError::UnsupportedMapper(3))));
}

#[test]
fn rom_parses_header_fields() {
    let mut image = nrom_image(&[]);
    image[6] = 0b0000_0111; // vertical, battery, trainer
    image.extend_from_slice(&[0u8; 512]);
    let rom = match ROM::new(image) {
        Ok(rom) => rom,
        Err(_) => panic!("the image should be accepted"),
    };
    assert_eq!(rom.cart.prg_rom_size, 1);
    assert_eq!(rom.cart.chr_rom_size, 1);
    assert_eq!(rom.cart.mirroring, Mirroring::Vertical);
    assert_eq!(rom.cart.mapper_id, 0);
    assert!(rom.cart.battery);
    assert!(rom.cart.trainer);
    assert_eq!(rom.cart.prg_rom_start, 16 + 512);
    assert_eq!(rom.cart.chr_rom_start, 16 + 512 + 0x4000);
}

#[test]
fn rom_four_screen_wins_over_vertical() {
    let mut image = nrom_image(&[]);
    image[6] = 0b0000_1001;
    let rom = match ROM::new(image) {
        Ok(rom) => rom,
        Err(_) => panic!("the image should be accepted"),
    };
    assert_eq!(rom.cart.mirroring, Mirroring::FourScreen);
}

#[test]
fn rom_hash_is_sha256_of_the_image() {
    let rom = match ROM::new(nrom_image(&[0xEA])) {
        Ok(rom) => rom,
        Err(_) => panic!("the image should be accepted"),
    };
    let hex: String = rom.cart.hash.iter().map(|b| format!("{:02x}", b)).collect();
    assert_eq!(hex, "1a1b7f3484ba1d3ac44ae5d9aa4344c3cf4016ec37c519ad717aa48e78c46ed3");
}

#[test]
fn cpu_starts_at_reset_vector() {
    let cpu = cpu_with(&[0xEA]);
    assert_eq!(cpu.pc, 0x8000);
    assert_eq!(cpu.sp, 0xFD);
    assert_eq!(cpu.a, 0);
    assert_eq!(cpu.status, 0b0010_0100);
}

#[test]
fn cpu_runs_a_small_program() {
    let program = [
        0xA9, 0x05, // LDA #$05
        0x69, 0x03, // ADC #$03
        0x8D, 0x00, 0x02, // STA $0200
        0xAA, // TAX
        0xE8, // INX
        0x38, // SEC
        0xE9, 0x0A, // SBC #$0A
        0x48, // PHA
        0xA9, 0x00, // LDA #$00
        0x68, // PLA
        0x20, 0x20, 0x80, // JSR $8020
        0xD0, 0x02, // BNE +2
        0xEA, 0xEA, // skipped
        0x4C, 0x17, 0x80, // JMP $8017
    ];
    let mut full = [0u8; 0x23];
    full[..program.len()].copy_from_slice(&program);
    full[0x20] = 0xA0; // LDY #$07
    full[0x21] = 0x07;
    full[0x22] = 0x60; // RTS
    let mut cpu = cpu_with(&full);

    assert_eq!(cpu.step(), 2); // LDA
    assert_eq!(cpu.a, 5);
    assert_eq!(cpu.step(), 2); // ADC
    assert_eq!(cpu.a, 8);
    assert_eq!(cpu.status & 1, 0);
    assert_eq!(cpu.step(), 4); // STA
    assert_eq!(cpu.bus.read_byte(0x0200), 8);
    assert_eq!(cpu.bus.read_byte(0x0A00), 8); // RAM mirror
    assert_eq!(cpu.step(), 2); // TAX
    assert_eq!(cpu.x, 8);
    assert_eq!(cpu.step(), 2); // INX
    assert_eq!(cpu.x, 9);
    assert_eq!(cpu.step(), 2); // SEC
    assert_eq!(cpu.step(), 2); // SBC
    assert_eq!(cpu.a, 0xFE);
    assert_eq!(cpu.status & 1, 0); // borrow
    assert_eq!(cpu.status & 0x80, 0x80); // negative
    assert_eq!(cpu.step(), 3); // PHA
    assert_eq!(cpu.sp, 0xFC);
    assert_eq!(cpu.step(), 2); // LDA #0
    assert_eq!(cpu.status & 2, 2); // zero
    assert_eq!(cpu.step(), 4); // PLA
    assert_eq!(cpu.a, 0xFE);
    assert_eq!(cpu.sp, 0xFD);
    assert_eq!(cpu.step(), 6); // JSR
    assert_eq!(cpu.pc, 0x8020);
    assert_eq!(cpu.sp, 0xFB);
    assert_eq!(cpu.step(), 2); // LDY
    assert_eq!(cpu.y, 7);
    assert_eq!(cpu.step(), 6); // RTS
    assert_eq!(cpu.pc, 0x8013);
    assert_eq!(cpu.step(), 3); // BNE taken
    assert_eq!(cpu.pc, 0x8017);
    assert_eq!(cpu.step(), 3); // JMP
    assert_eq!(cpu.pc, 0x8017);
    assert_eq!(cpu.total_cycles, 2 + 2 + 4 + 2 + 2 + 2 + 2 + 3 + 2 + 4 + 6 + 2 + 6 + 3 + 3);
}

#[test]
fn cpu_adc_sets_overflow_and_carry() {
    let mut cpu = cpu_with(&[0xA9, 0x7F, 0x69, 0x01, 0xA9, 0xFF, 0x69, 0x01]);
    cpu.step();
    cpu.step();
    assert_eq!(cpu.a, 0x80);
    assert_eq!(cpu.status & 0x40, 0x40); // overflow
    assert_eq!(cpu.status & 1, 0);
    cpu.step();
    cpu.step();
    assert_eq!(cpu.a, 0x00);
    assert_eq!(cpu.status & 1, 1); // carry
    assert_eq!(cpu.status & 2, 2); // zero
    assert_eq!(cpu.status & 0x40, 0);
}

#[test]
fn cpu_page_crossing_costs_a_cycle() {
    // LDX #$01; LDA $80FF,X (crosses into $8100)
    let mut cpu = cpu_with(&[0xA2, 0x01, 0xBD, 0xFF, 0x80]);
    cpu.step();
    assert_eq!(cpu.step(), 5);
}

#[test]
fn cpu_brk_jumps_through_irq_vector() {
    let mut cpu = cpu_with(&[0x00]);
    assert_eq!(cpu.step(), 7);
    assert_eq!(cpu.pc, 0x9000);
    assert_eq!(cpu.sp, 0xFA);
    // pushed status has both B bits set
    assert_eq!(cpu.bus.read_byte(0x01FB) & 0x30, 0x30);
    assert_eq!(cpu.status & 0x04, 0x04);
}

#[test]
fn decode_known_opcodes() {
    assert_eq!(decode(0xA9), Some((Op::Lda, AddressingMode::Immediate)));
    assert_eq!(decode(0x6C), Some((Op::Jmp, AddressingMode::Indirect)));
    assert_eq!(decode(0xB1), Some((Op::Lda, AddressingMode::IndirectY)));
    assert_eq!(decode(0xEA), Some((Op::Nop, AddressingMode::Implied)));
    assert_eq!(decode(0x02), None);
}

#[test]
fn addressing_mode_code_roundtrip() {
    for code in 0u8..=255 {
        if let Some(mode) = AddressingMode::from_code(code) {
            assert_eq!(u8::from(mode), code);
        }
    }
    assert_eq!(AddressingMode::from_code(0), Some(AddressingMode::Immediate));
    assert_eq!(AddressingMode::from_code(200), None);
}

#[test]
fn addressing_mode_from_number() {
    for code in 0u8..12 {
        assert_eq!(u8::from(AddressingMode::from(code)), code);
    }
    assert_eq!(AddressingMode::from(4), AddressingMode::Absolute);
    assert_eq!(AddressingMode::from(11), AddressingMode::Relative);
}

#[test]
fn joypad_reports_buttons_in_order() {
    let mut pad = Joypad::new();
    pad.update_button_state(JoypadStatus::A, true);
    pad.update_button_state(JoypadStatus::START, true);
    pad.write(1);
    pad.write(0);
    let reads: Vec<u8> = (0..9).map(|_| pad.read()).collect();
    assert_eq!(reads, vec![1, 0, 0, 1, 0, 0, 0, 0, 1]);
}

#[test]
fn joypad_strobe_keeps_reporting_a() {
    let mut pad = Joypad::new();
    pad.update(0b0000_0001);
    pad.write(1);
    assert_eq!(pad.read(), 1);
    assert_eq!(pad.read(), 1);
}

#[test]
fn bus_oam_dma_copies_a_page() {
    let mut cpu = cpu_with(&[0xEA]);
    for i in 0..256u16 {
        cpu.bus.write_byte(0x0300 + i, i as u8);
    }
    cpu.bus.write_byte(0x4014, 0x03);
    assert!(cpu.bus.dma_transfer);
    assert_eq!(cpu.bus.ppu.attributes[0], 0);
    assert_eq!(cpu.bus.ppu.attributes[255], 255);
}

#[test]
fn cpu_rti_returns_from_brk_handler() {
    let mut program = vec![0u8; 0x1001];
    program[0] = 0x00; // BRK
    program[0x1000] = 0x40; // RTI at $9000
    let mut cpu = cpu_with(&program);
    cpu.step();
    assert_eq!(cpu.pc, 0x9000);
    assert_eq!(cpu.step(), 6);
    assert_eq!(cpu.pc, 0x8001);
    assert_eq!(cpu.sp, 0xFD);
    assert_eq!(cpu.status, 0b0010_0100);
}

#[test]
fn cpu_sbc_matches_adc_of_complement() {
    // SEC; LDA #$50; SBC #$30  versus  SEC; LDA #$50; ADC #$CF
    let mut a = cpu_with(&[0x38, 0xA9, 0x50, 0xE9, 0x30]);
    let mut b = cpu_with(&[0x38, 0xA9, 0x50, 0x69, 0xCF]);
    for _ in 0..3 {
        a.step();
        b.step();
    }
    assert_eq!(a.a, 0x20);
    assert_eq!(a.a, b.a);
    assert_eq!(a.status, b.status);
    // and with a borrow that overflows: $80 - $01
    let mut c = cpu_with(&[0x38, 0xA9, 0x80, 0xE9, 0x01]);
    let mut d = cpu_with(&[0x38, 0xA9, 0x80, 0x69, 0xFE]);
    for _ in 0..3 {
        c.step();
        d.step();
    }
    assert_eq!(c.a, 0x7F);
    assert_eq!(c.status & 0x40, 0x40);
    assert_eq!((c.a, c.status), (d.a, d.status));
}

#[test]
fn cpu_php_plp_restores_flags() {
    // SEC; SED; PHP; CLC; CLD; PLP
    let mut cpu = cpu_with(&[0x38, 0xF8, 0x08, 0x18, 0xD8, 0x28]);
    cpu.step();
    cpu.step();
    let before = cpu.status;
    cpu.step();
    assert_eq!(cpu.bus.read_byte(0x01FD), before | 0x30);
    cpu.step();
    cpu.step();
    assert_eq!(cpu.status & 0x09, 0);
    assert_eq!(cpu.step(), 4);
    assert_eq!(cpu.status, (before & !0x10) | 0x20);
    assert_eq!(cpu.sp, 0xFD);
}

#[test]
fn trace_step_formats_like_nestest() {
    let mut cpu = cpu_with(&[0xA9, 0x05, 0x8D, 0x00, 0x02, 0xEA, 0xB1, 0x44, 0x6C, 0x34, 0x12]);
    let (cycles, line) = cpu.trace_step();
    assert_eq!(cycles, 2);
    assert_eq!(line, "8000  A9 05     LDA #$05      A:00 X:00 Y:00 P:24 SP:FD");
    let (_, line) = cpu.trace_step();
    assert_eq!(line, "8002  8D 00 02  STA $0200     A:05 X:00 Y:00 P:24 SP:FD");
    let (_, line) = cpu.trace_step();
    assert_eq!(line, "8005  EA        NOP           A:05 X:00 Y:00 P:24 SP:FD");
    let (_, line) = cpu.trace_step();
    assert_eq!(line, "8006  B1 44     LDA ($44),Y   A:05 X:00 Y:00 P:24 SP:FD");
}

#[test]
fn trace_shows_indirect_jump_low_byte() {
    let mut cpu = cpu_with(&[0x6C, 0x34, 0x12]);
    let (_, line) = cpu.trace_step();
    assert_eq!(line, "8000  6C 34 12  JMP ($34)     A:00 X:00 Y:00 P:24 SP:FD");
}

#[test]
fn state_fmt_reports_opcode_and_registers() {
    let mut cpu = cpu_with(&[0xA9, 0x05]);
    assert_eq!(cpu.state_fmt(), "8000 A9 LDA A 00 X 00 Y 00 P 24 SP FD");
    assert_eq!(cpu.pc, 0x8000);
}

#[test]
fn parse_hex_reads_space_separated_bytes() {
    assert_eq!(parse_hex("A9 05 8D"), vec![0xA9, 0x05, 0x8D]);
    assert_eq!(parse_hex("ff"), vec![0xFF]);
    assert_eq!(parse_hex("+1f 00FF 0"), vec![0x1F, 0xFF, 0x00]);
}

#[test]
fn basic_memory_reads_and_writes_the_image() {
    let rom = match ROM::new(nrom_image(&[0xA9])) {
        Ok(rom) => rom,
        Err(_) => panic!("the image should be accepted"),
    };
    let mut mem = Basic { rom };
    assert_eq!(mem.read_byte(0), 0x4E);
    assert_eq!(mem.read_byte(16), 0xA9);
    mem.write_byte(17, 0x42);
    assert_eq!(mem.read_byte(17), 0x42);
    assert_eq!(mem.read_word(16), 0x42A9);
}

#[test]
fn get_tile_reads_sixteen_pattern_bytes() {
    let mut image = nrom_image(&[]);
    let chr_start = 16 + 0x4000;
    for i in 0..16 {
        image[chr_start + 0x1000 + 2 * 16 + i] = (i as u8) + 1;
    }
    let mut rom = match ROM::new(image) {
        Ok(rom) => rom,
        Err(_) => panic!("the image should be accepted"),
    };
    let mut tile = [0u8; 16];
    rom.mapper.get_tile(&mut rom.cart, 0x1000, 2, &mut tile);
    assert_eq!(tile, [1, 2, 3, 4, 5, 6, 7, 8, 9, 10, 11, 12, 13, 14, 15, 16]);
}

#[test]
fn ppu_palette_mirror_reads_back() {
    let mut cpu = cpu_with(&[0xEA]);
    cpu.bus.write_byte(0x2006, 0x3F);
    cpu.bus.write_byte(0x2006, 0x10);
    cpu.bus.write_byte(0x2007, 0x2A);
    cpu.bus.write_byte(0x2006, 0x3F);
    cpu.bus.write_byte(0x2006, 0x00);
    assert_eq!(cpu.bus.read_byte(0x2007), 0x2A);
}

#[test]
fn ppu_nametable_read_is_buffered_and_mirrored() {
    // horizontal mirroring: $2400 mirrors $2000
    let mut cpu = cpu_with(&[0xEA]);
    cpu.bus.write_byte(0x2006, 0x20);
    cpu.bus.write_byte(0x2006, 0x05);
    cpu.bus.write_byte(0x2007, 0x77);
    cpu.bus.write_byte(0x2006, 0x24);
    cpu.bus.write_byte(0x2006, 0x05);
    let _stale = cpu.bus.read_byte(0x2007);
    cpu.bus.write_byte(0x2006, 0x24);
    cpu.bus.write_byte(0x2006, 0x06);
    assert_eq!(cpu.bus.read_byte(0x2007), 0x77);
}

#[test]
fn registers_string_matches_debug_view() {
    let mut cpu = cpu_with(&[0xA2, 0x10]);
    cpu.step();
    assert_eq!(cpu.registers_string(), "A:00 X:10 Y:00 P:24 SP:FD");
}

#[test]
fn mmc1_serial_port_loads_prg_bank() {
    let mut cart = nessy::cpu::rom::Cart {
        bytes: vec![0; 0x10000],
        hash: [0; 32],
        prg_rom_size: 2,
        chr_rom_size: 1,
        mirroring: Mirroring::Horizontal,
        mapper_id: 1,
        battery: false,
        trainer: false,
        prg_rom_start: 16,
        chr_rom_start: 0x8010,
    };
    let mut m = nessy::cpu::mappers::mmc1::MMC1::new();
    // 0b0101 = 5, lowest bit first
    for (addr, v) in [(0x8000u16, 1u8), (0x8000, 0), (0x8000, 1), (0x8000, 0), (0xE000, 0)] {
        m.write(&mut cart, addr, v);
    }
    assert_eq!(m.prg_bank, 5);
    assert_eq!(m.shift_reg, 0b10000);
}

#[test]
fn ppu_address_and_scroll_pairs() {
    let mut r = nessy::ppu::registers::Registers::new();
    r.write_address(0x61);
    r.write_address(0x08);
    assert_eq!(r.v, 0x2108);
    assert!(!r.w);
    r.write_scroll(0x7D);
    r.write_scroll(0x5E);
    assert_eq!(r.x, 5);
    assert_eq!((r.scroll.x, r.scroll.y), (0x7D, 0x5E));
    assert!(!r.w);
}

#[test]
fn ppu_coarse_x_wraps_into_next_nametable() {
    let mut r = nessy::ppu::registers::Registers::new();
    r.v = 0x3A1F;
    r.increment_x();
    assert_eq!(r.v & 0x001F, 0);
    assert_eq!(r.v & 0x0400, 0x0400);
    assert_eq!(r.v & 0x7BE0, 0x3A1F & 0x7BE0);
}

#[test]
fn apu_four_step_mode_never_interrupts() {
    let mut apu = nessy::apu::APU::new();
    for _ in 0..100_000 {
        apu.step();
    }
    assert!(!apu.is_asserting_irq());
    apu.write(0x4017, 0x80);
    for _ in 0..40_000 {
        apu.step();
    }
    // five-step mode raises it at the end of its sequence
    assert!(apu.is_asserting_irq());
}

#[test]
fn set_pixel_writes_inside_a_double_width_buffer() {
    let mut buf = vec![0u8; 2 * 256 * 240 * 3];
    nessy::ppu::PPU::set_pixel(&mut buf, 300, 2, (1, 2, 3));
    let off = (2 * 512 + 300) * 3;
    assert_eq!(&buf[off..off + 3], &[1, 2, 3]);
    nessy::ppu::PPU::set_pixel(&mut buf, 512, 0, (9, 9, 9));
    nessy::ppu::PPU::set_pixel(&mut buf, 0, 240, (9, 9, 9));
    assert!(buf.iter().filter(|&&b| b == 9).count() == 0);
    let mut small = vec![0u8; 6];
    nessy::ppu::PPU::set_pixel(&mut small, 1, 0, (4, 5, 6));
    assert_eq!(small, vec![0, 0, 0, 4, 5, 6]);
    nessy::ppu::PPU::set_pixel(&mut small, 2, 0, (7, 7, 7));
    assert_eq!(small, vec![0, 0, 0, 4, 5, 6]);
}

#[test]
fn undocumented_opcodes_run_as_nop() {
    let mut cpu = cpu_with(&[0x02, 0x1A, 0xA9, 0x05]);
    let a = cpu.a;
    assert_eq!(cpu.step(), 2);
    assert_eq!(cpu.pc, 0x8001);
    assert_eq!(cpu.a, a);
    assert_eq!(cpu.step(), 2);
    assert_eq!(cpu.pc, 0x8002);
    assert_eq!(cpu.step(), 2);
    assert_eq!(cpu.a, 5);
}

#[test]
fn dmc_direct_load_keeps_seven_bits() {
    let mut d = DeltaModulationChannel::new();
    d.write(0x4011, 0xFF);
    assert_eq!(d.output(), 127);
    d.write(0x4010, 0x0F);
    d.set_memory_read_response(0xFF);
    assert!(d.output() <= 127);
}

#[test]
fn nes_step_runs_the_cpu_then_the_ppu() {
    let rom = match ROM::new(nrom_image(&[0xA9, 0x05, 0xEA])) {
        Ok(rom) => rom,
        Err(_) => panic!("the image should be accepted"),
    };
    let mut nes = nessy::nes::Nes::new(rom);
    assert_eq!(nes.cpu.pc, 0x8000);
    let dot = nes.cpu.bus.ppu.cycle;
    assert_eq!(nes.step(), 2);
    assert_eq!(nes.cpu.a, 5);
    assert_eq!(nes.cpu.bus.ppu.cycle, (dot + 6) % 341);
    assert_eq!(nes.step(), 2);
    assert_eq!(nes.cpu.pc, 0x8003);
}

#[test]
fn timer_wraps_once_per_period_plus_one_clocks() {
    let mut t = Timer { counter: 2, period: 3 };
    let wraps: Vec<bool> = (0..8).map(|_| t.step()).collect();
    assert_eq!(wraps, vec![false, false, true, false, false, false, true, false]);
    assert_eq!(t.period, 3);
}

#[test]
fn next_frame_stops_at_the_vertical_blank() {
    let rom = match ROM::new(nrom_image(&[0x4C, 0x00, 0x80])) {
        Ok(rom) => rom,
        Err(_) => panic!("the image should be accepted"),
    };
    let mut nes = nessy::nes::Nes::new(rom);
    nes.next_frame();
    assert!(!nes.cpu.bus.ppu.frame_complete);
    assert_eq!(nes.cpu.bus.ppu.scanline, 241);
    assert!(nes.cpu.bus.ppu.cycle >= 1 && nes.cpu.bus.ppu.cycle <= 9);
    assert_eq!(nes.cpu.pc, 0x8000);
    nes.next_frame();
    assert_eq!(nes.cpu.bus.ppu.scanline, 241);
}
