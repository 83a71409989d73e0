use prisme::ppu::Ppu;

#[test]
fn a_color_reads_back_with_the_open_bus_in_bit_seven() {
    let mut ppu = Ppu::new();
    ppu.write(0x21, 0x42);
    ppu.write(0x22, 0xE7);
    ppu.write(0x22, 0xFF);
    ppu.write(0x21, 0x42);
    assert_eq!(ppu.read(0x3B), Some(0xE7));
    assert_eq!(ppu.read(0x3B), Some(0x7F | (0xE7 & 0x80)));
    assert_eq!(ppu.cgram[0x42], 0x7FE7);
}

#[test]
fn a_vram_word_reads_back_through_the_prefetch() {
    let mut ppu = Ppu::new();
    ppu.write(0x15, 0x80);
    ppu.write(0x16, 0x34);
    ppu.write(0x17, 0x92);
    ppu.write(0x18, 0xCD);
    ppu.write(0x19, 0xAB);
    ppu.write(0x16, 0x34);
    ppu.write(0x17, 0x92);
    assert_eq!(ppu.read(0x39), Some(0xCD));
    assert_eq!(ppu.read(0x3A), Some(0xAB));
    assert_eq!(ppu.vram[0x1234], 0xABCD);
}

#[test]
fn a_sprite_word_reads_back_byte_by_byte() {
    let mut ppu = Ppu::new();
    ppu.write(0x02, 0x05);
    ppu.write(0x03, 0x00);
    ppu.write(0x04, 0x11);
    ppu.write(0x04, 0x22);
    ppu.write(0x02, 0x05);
    ppu.write(0x03, 0x00);
    assert_eq!(ppu.read(0x38), Some(0x11));
    assert_eq!(ppu.read(0x38), Some(0x22));
}
