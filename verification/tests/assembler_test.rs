use nessy::cpu::assembler::{Assembler, Program};

fn assemble(source: &str, pc: usize) -> Program {
    let mut a = Assembler::new();
    a.assemble(source, pc)
}

#[test]
fn assembles_immediate_absolute_and_implied() {
    let p = assemble("LDA #$05\nSTA $0200\nBRK", 0x0600);
    assert_eq!(p.addr, 0x0600);
    assert_eq!(p.bytes, vec![0xa9, 0x05, 0x8d, 0x00, 0x02, 0x00]);
}

#[test]
fn assembles_zero_page_and_decimal_operands() {
    let p = assemble("LDA $10\nLDX #10\nLDA #+7", 0);
    assert_eq!(p.bytes, vec![0xa5, 0x10, 0xa2, 0x0a, 0xa9, 0x07]);
}

#[test]
fn trims_lines_and_skips_empty_ones() {
    let p = assemble("\n   LDA   #$FF  \n\n\tNOP\t\n", 0);
    assert_eq!(p.bytes, vec![0xa9, 0xff, 0xea]);
}

#[test]
fn resolves_labels_forward_and_backward() {
    let src = "start:\nLDX #10\nloop:\nDEX\nBNE loop\nJMP start\nJMP end\nend:\nNOP";
    let p = assemble(src, 0x8000);
    assert_eq!(
        p.bytes,
        vec![0xa2, 0x0a, 0xca, 0xd0, 0xfd, 0x4c, 0x00, 0x80, 0x4c, 0x0b, 0x80, 0xea]
    );
}

#[test]
fn forward_branch_offset() {
    let p = assemble("BEQ skip\nNOP\nskip:\nRTS", 0x0600);
    assert_eq!(p.bytes, vec![0xf0, 0x01, 0xea, 0x60]);
}

#[test]
fn later_calls_emit_earlier_instructions_again() {
    let mut a = Assembler::new();
    let first = a.assemble("NOP", 0);
    assert_eq!(first.bytes, vec![0xea]);
    let second = a.assemble("INX", 0x10);
    assert_eq!(second.addr, 0x10);
    assert_eq!(second.bytes, vec![0xea, 0xe8]);
}
