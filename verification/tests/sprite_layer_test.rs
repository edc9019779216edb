use nessy::cpu::rom::ROM;
use nessy::ppu::render::COLOR_PALETTE;
use nessy::ppu::PPU;

/// An NROM image whose CHR holds, at tile 2 of the first pattern table, a
/// row 0 with only its leftmost pixel set (colour 1) and a row 1 with only
/// its rightmost pixel at colour 3.
fn ppu_with_tile() -> PPU {
    let mut bytes = vec![0x4E, 0x45, 0x53, 0x1A, 1, 1, 0, 0, 0, 0, 0, 0, 0, 0, 0, 0];
    bytes.extend_from_slice(&vec![0u8; 0x4000]);
    let mut chr = vec![0u8; 0x2000];
    chr[2 * 16] = 0x80;
    chr[2 * 16 + 1] = 0x01;
    chr[2 * 16 + 9] = 0x01;
    bytes.extend_from_slice(&chr);
    let rom = match ROM::new(bytes) {
        Ok(rom) => rom,
        Err(_) => panic!("the image should be accepted"),
    };
    PPU::new(rom)
}

fn pixel(frame: &[u8], x: usize, y: usize) -> [u8; 3] {
    let o = (y * 256 + x) * 3;
    [frame[o], frame[o + 1], frame[o + 2]]
}

fn color(i: usize) -> [u8; 3] {
    [COLOR_PALETTE[3 * i], COLOR_PALETTE[3 * i + 1], COLOR_PALETTE[3 * i + 2]]
}

#[test]
fn render_sprites_draws_a_sprite_one_line_below_its_oam_y() {
    let mut ppu = ppu_with_tile();
    ppu.attributes[0] = 9;
    ppu.attributes[1] = 2;
    ppu.attributes[2] = 0;
    ppu.attributes[3] = 20;
    ppu.palette[0x11] = 0x16;
    ppu.palette[0x13] = 0x2A;
    let mut frame = vec![0u8; 256 * 240 * 3];
    ppu.render_sprites(&mut frame);
    assert_eq!(pixel(&frame, 20, 10), color(0x16));
    assert_eq!(pixel(&frame, 27, 11), color(0x2A));
    assert_eq!(pixel(&frame, 21, 10), [0, 0, 0]);
    assert_eq!(pixel(&frame, 20, 9), [0, 0, 0]);
}

#[test]
fn render_sprites_flips_horizontally() {
    let mut ppu = ppu_with_tile();
    ppu.attributes[0] = 9;
    ppu.attributes[1] = 2;
    ppu.attributes[2] = 0x40;
    ppu.attributes[3] = 20;
    ppu.palette[0x11] = 0x16;
    let mut frame = vec![0u8; 256 * 240 * 3];
    ppu.render_sprites(&mut frame);
    assert_eq!(pixel(&frame, 27, 10), color(0x16));
    assert_eq!(pixel(&frame, 20, 10), [0, 0, 0]);
}

#[test]
fn earlier_sprites_are_drawn_in_front() {
    let mut ppu = ppu_with_tile();
    for j in 0..2 {
        ppu.attributes[4 * j] = 9;
        ppu.attributes[4 * j + 1] = 2;
        ppu.attributes[4 * j + 3] = 20;
    }
    ppu.attributes[2] = 0;
    ppu.attributes[6] = 1;
    ppu.palette[0x11] = 0x16;
    ppu.palette[0x15] = 0x30;
    let mut frame = vec![0u8; 256 * 240 * 3];
    ppu.render_sprites(&mut frame);
    assert_eq!(pixel(&frame, 20, 10), color(0x16));
}

#[test]
fn sprite_tile_pixels_past_the_frame_are_dropped() {
    let mut ppu = ppu_with_tile();
    let mut frame = vec![0u8; 256 * 3];
    let palette = [None, Some((1, 2, 3)), Some((4, 5, 6)), Some((7, 8, 9))];
    ppu.render_sprite_tile(0, 2, 100, 0, false, false, false, palette, &mut frame);
    assert_eq!(pixel(&frame, 100, 0), [1, 2, 3]);
    assert_eq!(frame.len(), 256 * 3);
}

#[test]
fn render_frame_draws_the_background_then_sprites() {
    let mut ppu = ppu_with_tile();
    ppu.regs.mask.bits = 0x08 | 0x10;
    ppu.vram[0] = 2;
    ppu.palette[0] = 0x0F;
    ppu.palette[1] = 0x16;
    ppu.attributes[0] = 9;
    ppu.attributes[1] = 2;
    ppu.attributes[3] = 40;
    ppu.palette[0x11] = 0x2A;
    let mut frame = vec![0xAAu8; 256 * 240 * 3];
    ppu.render_frame(&mut frame);
    assert_eq!(pixel(&frame, 0, 0), color(0x16));
    assert_eq!(pixel(&frame, 1, 0), color(0x0F));
    assert_eq!(pixel(&frame, 100, 200), color(0x0F));
    assert_eq!(pixel(&frame, 40, 10), color(0x2A));
}

#[test]
fn render_frame_scrolls_the_background() {
    let mut ppu = ppu_with_tile();
    ppu.regs.mask.bits = 0x08;
    ppu.vram[0] = 2;
    ppu.palette[0] = 0x0F;
    ppu.palette[1] = 0x16;
    ppu.regs.scroll.x = 1;
    let mut frame = vec![0u8; 256 * 240 * 3];
    ppu.render_frame(&mut frame);
    assert_eq!(pixel(&frame, 0, 0), color(0x0F));
    // with horizontal mirroring the right nametable is the second one,
    // whose first tile is tile 0 (blank)
    assert_eq!(pixel(&frame, 255, 0), color(0x0F));
}

#[test]
fn render_frame_leaves_the_frame_when_nothing_is_shown() {
    let mut ppu = ppu_with_tile();
    let mut frame = vec![7u8; 256 * 240 * 3];
    ppu.render_frame(&mut frame);
    assert!(frame.iter().all(|&b| b == 7));
}
