use vstd::prelude::*;
use sha2::{Digest, Sha256};
use super::mappers::AnyMapper;
use super::mappers::mmc1::{MMC1, mmc1_fresh};
use super::mappers::mmc3::{MMC3, mmc3_fresh};
use super::mappers::nrom::{NROM, nrom_fresh};
use super::mappers::unrom::{UNROM, unrom_fresh};
use super::mappers::Mapper;

verus! {

pub const PRG_ROM_PAGE_SIZE: usize = 16384;

/// The kind of nametable mirroring a cartridge wires.
#[derive(Debug, PartialEq, Eq, Structural, Clone, Copy)]
pub enum Mirroring {
    Horizontal,
    Vertical,
    OneScreenLowerBank,
    OneScreenUpperBank,
    FourScreen,
}

/// An iNES cartridge image and what its header says of it.
pub struct Cart {
    pub bytes: Vec<u8>,
    pub hash: [u8; 32],
    pub prg_rom_size: u8,  // 16kb units
    pub chr_rom_size: u8,  // 8kb units
    pub mirroring: Mirroring,
    pub mapper_id: u8,
    pub battery: bool,
    pub trainer: bool,
    pub prg_rom_start: usize,
    pub chr_rom_start: usize,
}

/// A cartridge and the mapper its header selects.
#[allow(clippy::upper_case_acronyms)]
pub struct ROM {
    pub cart: Cart,
    pub mapper: AnyMapper,
}

#[derive(Debug)]
pub enum RomError {
    InvalidiNesHeader,
    InvalidSaveStateHeader,
    UnsupportedMapper(u8),
}

/// The SHA-256 digest of a byte string.
pub uninterp spec fn sha256_digest(data: Seq<u8>) -> Seq<u8>;

/// SHA-256 of `data`, computed with `sha2::Sha256` (`new`, `update`,
/// `finalize`). The contract names the digest and claims nothing else.
#[verifier::external_body]
fn sha256(data: &Vec<u8>) -> (h: [u8; 32])
    ensures
        h@ == sha256_digest(data@),
{
    let mut hasher = Sha256::new();
    hasher.update(data);
    hasher.finalize().into()
}

/// The image starts with the iNES magic "NES\x1A".
pub open spec fn ines_magic_ok(b: Seq<u8>) -> bool {
    b.len() >= 4 && b[0] == 78 && b[1] == 69 && b[2] == 83 && b[3] == 26
}

/// The header check never reads past the image: either the image holds the
/// eight header bytes it looks at, or the magic is refused at a byte the
/// image holds.
pub open spec fn ines_header_readable(b: Seq<u8>) -> bool {
    ||| b.len() >= 8
    ||| b.len() >= 1 && b[0] != 78
    ||| b.len() >= 2 && b[0] == 78 && b[1] != 69
    ||| b.len() >= 3 && b[0] == 78 && b[1] == 69 && b[2] != 83
    ||| b.len() >= 4 && b[0] == 78 && b[1] == 69 && b[2] == 83 && b[3] != 26
}

/// An iNES 1.0 header: the magic, and version bits (byte 7, bits 2-3) of 0.
pub open spec fn ines_accepted(b: Seq<u8>) -> bool {
    ines_magic_ok(b) && b.len() >= 8 && (b[7] >> 2) & 0b11 == 0
}

/// The mapper number: high nibble from byte 7, low nibble from byte 6.
pub open spec fn ines_mapper_id(b: Seq<u8>) -> u8 {
    (b[7] & 0b1111_0000) | (b[6] >> 4)
}

/// The mirroring that flags byte 6 selects.
pub open spec fn ines_mirroring(flags6: u8) -> Mirroring {
    if flags6 & 0b1000 != 0 {
        Mirroring::FourScreen
    } else if flags6 & 0b1 != 0 {
        Mirroring::Vertical
    } else {
        Mirroring::Horizontal
    }
}

/// Where PRG ROM starts: after the 16-byte header and, if present, the
/// 512-byte trainer.
pub open spec fn ines_prg_rom_start(b: Seq<u8>) -> int {
    16 + if b[6] & 0b100 != 0 {
        512int
    } else {
        0
    }
}

/// The mappers this emulator implements.
pub open spec fn mapper_supported(id: u8) -> bool {
    id == 0 || id == 1 || id == 2 || id == 4
}

/// `cart` is what the header of `b` describes, with `b` as its image and
/// `hash` as its digest.
pub open spec fn ines_cart(cart: Cart, b: Seq<u8>, hash: Seq<u8>) -> bool {
    &&& cart.bytes@ == b
    &&& cart.hash@ == hash
    &&& cart.prg_rom_size == b[4]
    &&& cart.chr_rom_size == b[5]
    &&& cart.mirroring == ines_mirroring(b[6])
    &&& cart.mapper_id == ines_mapper_id(b)
    &&& cart.battery == (b[6] & 0b10 != 0)
    &&& cart.trainer == (b[6] & 0b100 != 0)
    &&& cart.prg_rom_start == ines_prg_rom_start(b)
    &&& cart.chr_rom_start == ines_prg_rom_start(b) + b[4] * PRG_ROM_PAGE_SIZE
}

/// `m` is mapper `id` at power-on for a cartridge of `prg_rom_size` PRG
/// banks.
pub open spec fn mapper_fresh(m: AnyMapper, id: u8, prg_rom_size: u8) -> bool {
    match m {
        AnyMapper::Nrom(n) => id == 0 && nrom_fresh(n),
        AnyMapper::Mmc1(n) => id == 1 && mmc1_fresh(n),
        AnyMapper::Unrom(n) => id == 2 && unrom_fresh(n),
        AnyMapper::Mmc3(n) => id == 4 && mmc3_fresh(n, prg_rom_size),
    }
}

/// The one input on which building a mapper panics: MMC3 with no PRG ROM.
pub open spec fn mapper_buildable(id: u8, prg_rom_size: u8) -> bool {
    id == 4 ==> prg_rom_size >= 1
}

impl ROM {
    /// Parses an iNES image, hashes it and builds the mapper its header
    /// selects.
    pub fn new(bytes: Vec<u8>) -> (r: Result<ROM, RomError>)
        requires
            ines_header_readable(bytes@),
            ines_accepted(bytes@) ==> mapper_buildable(ines_mapper_id(bytes@), bytes@[4]),
        ensures
            !ines_accepted(bytes@) <==> r matches Err(RomError::InvalidiNesHeader),
            ines_accepted(bytes@) && !mapper_supported(ines_mapper_id(bytes@)) <==> r matches Err(
                RomError::UnsupportedMapper(_),
            ),
            r matches Err(RomError::UnsupportedMapper(id)) ==> id == ines_mapper_id(bytes@),
            !(r matches Err(RomError::InvalidSaveStateHeader)),
            r matches Ok(rom) ==> ines_cart(rom.cart, bytes@, sha256_digest(bytes@))
                && mapper_fresh(rom.mapper, rom.cart.mapper_id, rom.cart.prg_rom_size),
            r matches Ok(rom) ==> rom.mapper.inv(),
    {
        if bytes[0] != 78 || bytes[1] != 69 || bytes[2] != 83 || bytes[3] != 26 {
            return Err(RomError::InvalidiNesHeader);
        }

        let ines_ver = (bytes[7] >> 2) & 0b11;
        if ines_ver != 0 {
            // only support iNES version 1
            return Err(RomError::InvalidiNesHeader);
        }

        let hash = sha256(&bytes);
        ROM::with_hash(bytes, hash)
    }

    /// What follows the hashing: parses the header of `bytes` and builds
    /// the cartridge, with `hash` as its digest, and its mapper.
    pub fn with_hash(bytes: Vec<u8>, hash: [u8; 32]) -> (r: Result<ROM, RomError>)
        requires
            ines_header_readable(bytes@),
            ines_accepted(bytes@) ==> mapper_buildable(ines_mapper_id(bytes@), bytes@[4]),
        ensures
            !ines_accepted(bytes@) <==> r matches Err(RomError::InvalidiNesHeader),
            ines_accepted(bytes@) && !mapper_supported(ines_mapper_id(bytes@)) <==> r matches Err(
                RomError::UnsupportedMapper(_),
            ),
            r matches Err(RomError::UnsupportedMapper(id)) ==> id == ines_mapper_id(bytes@),
            !(r matches Err(RomError::InvalidSaveStateHeader)),
            r matches Ok(rom) ==> ines_cart(rom.cart, bytes@, hash@) && mapper_fresh(
                rom.mapper,
                rom.cart.mapper_id,
                rom.cart.prg_rom_size,
            ),
            r matches Ok(rom) ==> rom.mapper.inv(),
    {
        if bytes[0] != 78 || bytes[1] != 69 || bytes[2] != 83 || bytes[3] != 26 {
            return Err(RomError::InvalidiNesHeader);
        }

        let ines_ver = (bytes[7] >> 2) & 0b11;
        if ines_ver != 0 {
            // only support iNES version 1
            return Err(RomError::InvalidiNesHeader);
        }

        let flags6 = bytes[6];
        let four_screen = flags6 & 0b1000 != 0;
        let vertical_mirroring = flags6 & 0b1 != 0;
        let mirroring = if four_screen {
            Mirroring::FourScreen
        } else if vertical_mirroring {
            Mirroring::Vertical
        } else {
            Mirroring::Horizontal
        };

        let battery = flags6 & 0b10 != 0;
        let trainer = flags6 & 0b100 != 0;
        let mapper_id = (bytes[7] & 0b1111_0000) | (flags6 >> 4);
        let prg_rom_size = bytes[4];
        let chr_rom_size = bytes[5];
        let prg_rom_start: usize = 16 + if trainer {
            512
        } else {
            0
        };
        let chr_rom_start = prg_rom_start + (prg_rom_size as usize) * PRG_ROM_PAGE_SIZE;
        let cart = Cart {
            bytes,
            hash,
            prg_rom_size,
            chr_rom_size,
            mirroring,
            mapper_id,
            battery,
            trainer,
            prg_rom_start,
            chr_rom_start,
        };

        let mapper = ROM::get_mapper(mapper_id, &cart);
        match mapper {
            Ok(mapper) => Ok(ROM { mapper, cart }),
            Err(e) => Err(e),
        }
    }

    fn get_mapper(mapper_id: u8, cart: &Cart) -> (r: Result<AnyMapper, RomError>)
        requires
            mapper_buildable(mapper_id, cart.prg_rom_size),
        ensures
            mapper_supported(mapper_id) <==> r is Ok,
            r matches Ok(m) ==> mapper_fresh(m, mapper_id, cart.prg_rom_size),
            r matches Err(e) ==> e matches RomError::UnsupportedMapper(id) && id == mapper_id,
    {
        match mapper_id {
            0 => Ok(AnyMapper::Nrom(NROM::new())),
            1 => Ok(AnyMapper::Mmc1(MMC1::new())),
            2 => Ok(AnyMapper::Unrom(UNROM::new())),
            4 => Ok(AnyMapper::Mmc3(MMC3::new(cart))),
            _ => Err(RomError::UnsupportedMapper(mapper_id)),
        }
    }
}

} // verus!
