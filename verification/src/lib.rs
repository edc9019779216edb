pub mod apu;
pub mod bits;
pub mod savestate;
pub mod ppu;
pub mod bus;
pub mod cpu;
pub mod nes;
