use nessy::apu::common::{Envelope, LengthCounter, Timer};
use nessy::bus::controller::Joypad;
use nessy::cpu::mappers::mmc1::MMC1;
use nessy::cpu::mappers::mmc3::MMC3;
use nessy::cpu::mappers::nrom::NROM;
use nessy::ppu::registers::Registers;
use nessy::cpu::rom::{Cart, Mirroring};
use nessy::ppu::SpriteData;
use nessy::savestate::{ByteBuffer, Save, SaveState, SaveStateError, Section};

fn cart() -> Cart {
    Cart {
        bytes: vec![0; 0x10000],
        hash: [0; 32],
        prg_rom_size: 2,
        chr_rom_size: 1,
        mirroring: Mirroring::Horizontal,
        mapper_id: 4,
        battery: false,
        trainer: false,
        prg_rom_start: 16,
        chr_rom_start: 0x8000,
    }
}

#[test]
fn timer_save_writes_a_child_section() {
    let mut root = Section::new("root");
    let t = Timer { counter: 0x1234, period: 0xABCD };
    t.save(&mut root);
    assert_eq!(root.children.len(), 1);
    assert_eq!(root.children[0].name, "timer");
    assert_eq!(root.children[0].data.data, vec![0x12, 0x34, 0xAB, 0xCD]);
}

#[test]
fn timer_save_load_roundtrip() {
    let mut root = Section::new("root");
    let t = Timer { counter: 7, period: 300 };
    t.save(&mut root);
    let mut u = Timer::default();
    assert!(u.load(&mut root).is_ok());
    assert_eq!(u.counter, 7);
    assert_eq!(u.period, 300);
}

#[test]
fn load_from_missing_section_names_it() {
    let mut root = Section::new("root");
    let mut u = Timer::default();
    match u.load(&mut root) {
        Err(SaveStateError::MissingSection(name)) => assert_eq!(name, "timer"),
        _ => panic!("expected a missing section"),
    }
}

#[test]
fn load_from_short_section_is_invalid_data() {
    let mut root = Section::new("root");
    let child = root.create_child("timer");
    child.data.write_u16(9);
    let mut u = Timer { counter: 1, period: 2 };
    assert!(matches!(u.load(&mut root), Err(SaveStateError::InvalidData)));
    // the counter was read before the data ran out
    assert_eq!(u.counter, 9);
    assert_eq!(u.period, 2);
}

#[test]
fn length_counter_and_envelope_roundtrip() {
    let mut root = Section::new("root");
    let l = LengthCounter { enabled: true, counter: 42 };
    let e = Envelope {
        constant_mode: true,
        looping: false,
        start: true,
        constant_volume: 3,
        period: 4,
        divider: 5,
        decay: 6,
    };
    l.save(&mut root);
    e.save(&mut root);
    let mut l2 = LengthCounter::default();
    let mut e2 = Envelope::default();
    assert!(l2.load(&mut root).is_ok());
    assert!(e2.load(&mut root).is_ok());
    assert!(l2.enabled);
    assert_eq!(l2.counter, 42);
    assert!(e2.constant_mode && !e2.looping && e2.start);
    assert_eq!((e2.constant_volume, e2.period, e2.divider, e2.decay), (3, 4, 5, 6));
}

#[test]
fn joypad_save_load_roundtrip() {
    let mut root = Section::new("root");
    let mut j = Joypad::new();
    j.write(1);
    j.update(0b1010_0101);
    j.save(&mut root);
    assert_eq!(root.data.data, vec![1, 0, 0b1010_0101]);
    let mut k = Joypad::new();
    assert!(k.load(&mut root).is_ok());
    assert!(k.strobe);
    assert_eq!(k.index, 0);
    assert_eq!(k.status, 0b1010_0101);
}

#[test]
fn mmc1_save_load_roundtrip() {
    let mut root = Section::new("root");
    let mut m = MMC1::new();
    m.prg_ram[5] = 9;
    m.chr_ram[0x1FFF] = 8;
    m.control = 0x1F;
    m.prg_bank = 3;
    m.save(&mut root);
    assert_eq!(root.children[0].data.data.len(), 0x4007);
    let mut n = MMC1::new();
    assert!(n.load(&mut root).is_ok());
    assert_eq!(n.prg_ram[5], 9);
    assert_eq!(n.chr_ram[0x1FFF], 8);
    assert_eq!(n.control, 0x1F);
    assert_eq!(n.prg_bank, 3);
}

#[test]
fn mmc3_save_load_roundtrip() {
    let c = cart();
    let mut root = Section::new("root");
    let mut m = MMC3::new(&c);
    m.registers = [1, 2, 3, 4, 5, 6, 7, 0];
    m.prg_ram[0x100] = 0x42;
    m.irq_enabled = true;
    m.irq_reload = 17;
    m.save(&mut root);
    assert_eq!(root.children[0].name, "MMC3");
    assert_eq!(root.children[0].data.data.len(), 0x203F);
    let mut n = MMC3::new(&c);
    assert!(n.load(&mut root).is_ok());
    assert_eq!(n.registers, [1, 2, 3, 4, 5, 6, 7, 0]);
    assert_eq!(n.prg_ram[0x100], 0x42);
    assert_eq!(n.prg_offsets, m.prg_offsets);
    assert_eq!(n.chr_offsets, m.chr_offsets);
    assert!(n.irq_enabled);
    assert_eq!(n.irq_reload, 17);
}

#[test]
fn sprites_write_all_read_all() {
    let sprites = [
        SpriteData { x: 300, idx: 1, chr: [0; 8], palette_idx: 2, behind_background: true },
        SpriteData { x: 7, idx: 9, chr: [0; 8], palette_idx: 3, behind_background: false },
    ];
    let mut root = Section::new("root");
    root.write_all(&sprites);
    assert_eq!(root.data.data, vec![1, 44, 1, 2, 1, 0, 7, 9, 3, 0]);
    let mut back = [
        SpriteData { x: 0, idx: 0, chr: [1; 8], palette_idx: 0, behind_background: false },
        SpriteData { x: 0, idx: 0, chr: [1; 8], palette_idx: 0, behind_background: true },
    ];
    assert!(root.read_all(&mut back).is_ok());
    assert_eq!(back[0].x, 300);
    assert_eq!(back[0].idx, 1);
    assert!(back[0].behind_background);
    assert_eq!(back[1].x, 7);
    assert_eq!(back[1].palette_idx, 3);
    assert!(!back[1].behind_background);
    assert_eq!(back[1].chr, [1; 8]);
}

#[test]
fn read_all_stops_at_first_failure() {
    let mut root = Section::new("root");
    root.data.write_u16(5);
    root.data.write_u8(6);
    root.data.write_u8(7);
    root.data.write_bool(true);
    root.data.write_u8(0);
    let mut back = [
        SpriteData { x: 0, idx: 0, chr: [0; 8], palette_idx: 0, behind_background: false },
        SpriteData { x: 1, idx: 1, chr: [0; 8], palette_idx: 1, behind_background: false },
    ];
    assert!(matches!(root.read_all(&mut back), Err(SaveStateError::InvalidData)));
    assert_eq!(back[0].x, 5);
    assert_eq!(back[0].palette_idx, 7);
}

#[test]
fn byte_buffer_u32_slices_roundtrip() {
    let mut b = ByteBuffer::new();
    b.write_u32_slice(&[1, 0x01020304]);
    assert_eq!(b.data, vec![0, 0, 0, 1, 1, 2, 3, 4]);
    let mut out = [0u32; 2];
    assert!(b.read_u32_slice(&mut out).is_ok());
    assert_eq!(out, [1, 0x01020304]);
    let mut more = [9u32; 1];
    assert!(b.read_u32_slice(&mut more).is_err());
    assert_eq!(more, [9]);
}

#[test]
fn save_state_encode_decode_roundtrip() {
    let hash = [7u8; 32];
    let mut state = SaveState::new(&hash);
    Timer { counter: 1, period: 2 }.save(state.get_root_mut());
    let bytes = state.encode();
    let mut back = match SaveState::decode(&bytes) {
        Ok(s) => s,
        Err(_) => panic!("decoding what was encoded should succeed"),
    };
    assert_eq!(back.get_rom_hash(), hash);
    let mut t = Timer::default();
    assert!(t.load(back.get_root_mut()).is_ok());
    assert_eq!((t.counter, t.period), (1, 2));
}

#[test]
fn nrom_save_load_roundtrip() {
    let mut root = Section::new("root");
    let mut m = NROM::new();
    m.ram[0x7FF] = 0x5A;
    m.save(&mut root);
    assert_eq!(root.children[0].name, "NROM");
    let mut n = NROM::new();
    assert!(n.load(&mut root).is_ok());
    assert_eq!(n.ram[0x7FF], 0x5A);
}

#[test]
fn nrom_load_from_short_section_keeps_ram() {
    let mut root = Section::new("root");
    root.create_child("NROM").data.write_u8(1);
    let mut n = NROM::new();
    n.ram[0] = 3;
    assert!(matches!(n.load(&mut root), Err(SaveStateError::InvalidData)));
    assert_eq!(n.ram[0], 3);
}

#[test]
fn ppu_registers_save_load_roundtrip() {
    let mut root = Section::new("root");
    let mut r = Registers::new();
    r.v = 0x2345;
    r.t = 0x0102;
    r.x = 5;
    r.w = true;
    r.ctrl.bits = 0x80;
    r.oam_addr = 9;
    r.save(&mut root);
    assert_eq!(root.children[0].name, "regs");
    assert_eq!(root.children[0].data.data, vec![0x23, 0x45, 0x01, 0x02, 5, 1, 0, 0x80, 0, 0, 9]);
    let mut s = Registers::new();
    assert!(s.load(&mut root).is_ok());
    assert_eq!((s.v, s.t, s.x, s.w, s.f), (0x2345, 0x0102, 5, true, false));
    assert_eq!((s.ctrl.bits, s.oam_addr), (0x80, 9));
}

#[test]
fn save_state_decode_rejects_bad_magic_and_newer_versions() {
    let mut bytes = SaveState::new(&[0u8; 32]).encode();
    bytes[0] = b'X';
    assert!(matches!(SaveState::decode(&bytes), Err(SaveStateError::InvalidHeader)));
    let mut bytes = SaveState::new(&[0u8; 32]).encode();
    bytes[6] = 1;
    assert!(matches!(SaveState::decode(&bytes), Err(SaveStateError::InvalidVersion(1))));
}

#[test]
fn section_decode_ignores_trailing_bytes() {
    let mut root = Section::new("root");
    root.data.write_u8(7);
    let t = Timer { counter: 1, period: 2 };
    t.save(&mut root);
    let mut buf = vec![];
    root.encode_into(&mut buf);
    assert_eq!(root.size(), buf.len());
    assert_eq!(buf.len(), 4 + 1 + 4 + 1 + 1 + (5 + 1 + 4 + 1 + 4));
    let encoded_len = buf.len();
    buf.extend_from_slice(&[9, 9, 9]);
    let back = Section::decode(&buf);
    assert_eq!(back.name, "root");
    assert_eq!(back.data.data, vec![7]);
    assert_eq!(back.children.len(), 1);
    assert_eq!(back.children[0].name, "timer");
    assert_eq!(back.children[0].data.data, vec![0, 1, 0, 2]);
    assert_eq!(back.size(), encoded_len);
}
