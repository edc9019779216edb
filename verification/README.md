# nessy

A Nintendo Entertainment System emulator whose core is verified with Verus.

`src/` is the library. Its functions are proved against their contracts,
except two small trusted wrappers: the SHA-256 digest of a cartridge image
(the `sha2` crate) and the lossy UTF-8 decoding of save-state names (std):

- `cpu/`: the 6502 (decoding, addressing modes, every official instruction,
  the others run as NOP, interrupts, cycle counts), the trace and disassembly helpers, iNES parsing
  (`rom.rs`), the cartridge mappers NROM, MMC1, UxROM and MMC3, and a
  small two-pass assembler (`assembler.rs`);
- `ppu/`: the picture processor, dot by dot: registers, VRAM and palette
  access, background fetches, sprite evaluation and pixel output, and the
  drawing of a whole frame at once, background and the 64 sprites
  (`whole_frame.rs`, `overlay.rs`);
- `apu/`: the sound channels (two pulse, triangle, noise) and the frame
  sequencer; `dmc.rs` holds a delta modulation channel that the APU does
  not drive;
- `bus/`: the CPU's address space, OAM DMA, interrupts and the controllers;
- `nes.rs`: the console: one CPU step followed by the PPU and APU cycles
  it took, and stepping until the next complete frame;
- `savestate.rs`: the save-state format (a tree of named sections); the
  PPU registers and sprites, the APU units, the controllers and the NROM,
  MMC1 and MMC3 mappers implement its `Save` trait. The PPU as a whole,
  the UxROM mapper, the bus, the CPU and the console do not, so there is no
  whole-console save state yet.

`app/` is a headless front end (file I/O, the frame loop, and the
floating-point sound mixer). `tests/` exercises the library on concrete
programs and states.
