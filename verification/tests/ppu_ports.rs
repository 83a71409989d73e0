use prisme::ppu::Ppu;


fn set_addr(ppu: &mut Ppu, addr: u16) {
    ppu.write(0x16, (addr & 0xFF) as u8);
    ppu.write(0x17, (addr >> 8) as u8);
}

#[test]
fn vram_word_write_increment_on_high() {
    let mut ppu = Ppu::new();
    ppu.write(0x15, 0x80); // VMAIN: step 1, increment on $2119
    set_addr(&mut ppu, 0);
    ppu.write(0x18, 0x34);
    ppu.write(0x19, 0x12);
    ppu.write(0x18, 0x78);
    ppu.write(0x19, 0x56);
    assert_eq!(ppu.vram[0], 0x1234);
    assert_eq!(ppu.vram[1], 0x5678);
    assert_eq!(ppu.vram_addr, 2);
}

#[test]
fn vram_increment_on_low_only() {
    let mut ppu = Ppu::new();
    ppu.write(0x15, 0x00); // VMAIN: step 1, increment on $2118 (low)
    set_addr(&mut ppu, 0);
    ppu.write(0x18, 0xAA); // low write increments
    assert_eq!(ppu.vram_addr, 1);
    ppu.write(0x19, 0xBB); // high write does not
    assert_eq!(ppu.vram_addr, 1);
    assert_eq!(ppu.vram[0], 0x00AA);
    assert_eq!(ppu.vram[1], 0xBB00);
}

#[test]
fn vram_increment_steps() {
    for (bits, step) in [(0u8, 1u16), (1, 32), (2, 128), (3, 128)] {
        let mut ppu = Ppu::new();
        ppu.write(0x15, 0x80 | bits);
        set_addr(&mut ppu, 0);
        ppu.write(0x18, 0);
        ppu.write(0x19, 0);
        assert_eq!(ppu.vram_addr, step, "bits {bits}");
    }
}

#[test]
fn vram_remap_2bpp() {
    let mut ppu = Ppu::new();
    // VMAIN bits3-2 = 01 (2bpp remap). addr low byte YYYccccc.
    ppu.vmain = 0x04;
    // 0x0001 = ccccc=00001 YYY=000 -> cccccYYY = 00001000 = 0x08
    assert_eq!(ppu.vram_remap(0x0001), 0x0008);
    // 0x00E0 = ccccc=00000 YYY=111 -> 00000111 = 0x0007
    assert_eq!(ppu.vram_remap(0x00E0), 0x0007);
    // high bits (rrrrrrrr) pass through
    assert_eq!(ppu.vram_remap(0x1F01), 0x1F08);
}

#[test]
fn vram_prefetch_dummy_read() {
    let mut ppu = Ppu::new();
    ppu.vram[5] = 0xABCD;
    ppu.vram[6] = 0x1122;
    ppu.write(0x15, 0x00); // step 1, increment/reload on $2139 low read
    set_addr(&mut ppu, 5); // prefetch loaded with vram[5]
    // Full-word read pattern on the low port: A, A, A+1 ...
    assert_eq!(ppu.read(0x39), Some(0xCD)); // vram[5] low
    assert_eq!(ppu.read(0x39), Some(0xCD)); // still vram[5] low (dummy)
    assert_eq!(ppu.read(0x39), Some(0x22)); // vram[6] low
}

#[test]
fn cgram_word_latch_write_and_read() {
    let mut ppu = Ppu::new();
    ppu.write(0x21, 0x10); // CGADD = 0x10
    ppu.write(0x22, 0x34); // low latch
    ppu.write(0x22, 0x12); // store word 0x1234 & 0x7FFF
    assert_eq!(ppu.cgram[0x10], 0x1234);
    assert_eq!(ppu.cgram_addr, 0x11);
    // bit15 masked off on write
    ppu.write(0x21, 0x20);
    ppu.write(0x22, 0xFF);
    ppu.write(0x22, 0xFF);
    assert_eq!(ppu.cgram[0x20], 0x7FFF);
    // read back index 0x10
    ppu.write(0x21, 0x10);
    assert_eq!(ppu.read(0x3B), Some(0x34)); // low
    assert_eq!(ppu.read(0x3B), Some(0x12)); // high (bit7 = ppu2 open bus = 0)
    assert_eq!(ppu.cgram_addr, 0x11);
}

#[test]
fn oam_word_and_byte_addressing() {
    let mut ppu = Ppu::new();
    // Table 1: even write latches, odd write commits the word.
    ppu.write(0x02, 0x00); // OAMADDL
    ppu.write(0x03, 0x00); // OAMADDH -> internal addr 0
    ppu.write(0x04, 0x11); // latch
    ppu.write(0x04, 0x22); // write word to bytes 0,1
    assert_eq!(ppu.oam_lo[0], 0x11);
    assert_eq!(ppu.oam_lo[1], 0x22);
    assert_eq!(ppu.oam_addr, 2);
    // Table 2: byte-direct writes. OAMADD bit8 selects high table.
    ppu.write(0x02, 0x00);
    ppu.write(0x03, 0x01); // internal addr = (0x100 & 0x1FF) << 1 = 0x200
    assert_eq!(ppu.oam_addr, 0x200);
    ppu.write(0x04, 0x5A);
    assert_eq!(ppu.oam_hi[0], 0x5A);
    assert_eq!(ppu.oam_addr, 0x201);
    // read back table 1 byte 0
    ppu.write(0x02, 0x00);
    ppu.write(0x03, 0x00);
    assert_eq!(ppu.read(0x38), Some(0x11));
    assert_eq!(ppu.read(0x38), Some(0x22));
}

#[test]
fn oam_high_table_mirrors_32_bytes() {
    let mut ppu = Ppu::new();
    ppu.oam_hi[0] = 0x99;
    // internal addr 0x220 mirrors 0x200 (addr & 0x1F = 0)
    ppu.oam_addr = 0x220;
    assert_eq!(ppu.oam_read(), 0x99);
}

#[test]
fn counter_latch_and_flipflops() {
    let mut ppu = Ppu::new();
    ppu.set_hv_counters(0x123, 0x0AB);
    // Before latch the flag is clear.
    assert!(!ppu.counter_latched);
    ppu.read(0x37); // SLHV latches, returns open bus (None)
    assert!(ppu.counter_latched);
    // OPHCT: low byte then bit8.
    assert_eq!(ppu.read(0x3C), Some(0x23));
    assert_eq!(ppu.read(0x3C).map(|v| v & 1), Some(0x01));
    // OPVCT: low byte then bit8 (0xAB -> low 0xAB, bit8 = 0).
    assert_eq!(ppu.read(0x3D), Some(0xAB));
    assert_eq!(ppu.read(0x3D).map(|v| v & 1), Some(0x00));
    // STAT78 reports the latch flag (still set), then clears it and resets
    // the flip-flops.
    let s = ppu.read(0x3F).unwrap();
    assert_eq!(s & 0x40, 0x40);
    assert!(!ppu.counter_latched);
    assert!(!ppu.ophct_hi);
    assert!(!ppu.opvct_hi);
}

#[test]
fn stat78_region_bit_preserved() {
    let mut ppu = Ppu::new();
    ppu.is_pal = false;
    assert_eq!(ppu.read(0x3F), Some(0x01));
    let mut ppu = Ppu::new();
    ppu.is_pal = true;
    assert_eq!(ppu.read(0x3F), Some(0x11));
}

#[test]
fn bg_scroll_shared_latch() {
    let mut ppu = Ppu::new();
    // BG1HOFS write twice (low first): value2<<8 | (bgofs_latch & ~7) | (bghofs_latch & 7)
    ppu.write(0x0D, 0x05); // bgofs_latch=bghofs_latch=0x05
    ppu.write(0x0D, 0x01); // BG1HOFS = (0x01<<8)|(0x05&~7)|(0x05&7) = 0x100|0x00|0x05 = 0x105
    assert_eq!(ppu.bg_hofs[0], 0x105);
    // BG1VOFS: value<<8 | bgofs_latch
    ppu.write(0x0E, 0x02); // bgofs_latch currently 0x01 -> VOFS = ... then latch=0x02
    assert_eq!(ppu.bg_vofs[0], (0x02 << 8 | 0x01) & 0x3FF);
}

#[test]
fn obsel_decode() {
    let mut ppu = Ppu::new();
    // size=011, NN=10, base=101
    ppu.write(0x01, 0b011_10_101);
    assert_eq!(ppu.obj_size, 0b011);
    assert_eq!(ppu.obj_name_base, 0b101 << 13);
    assert_eq!(ppu.obj_name_gap, ((0b10u16) + 1) << 12);
}

#[test]
fn open_bus_latches_refresh_on_read() {
    let mut ppu = Ppu::new();
    // A PPU1 read drives the PPU1 open-bus latch; STAT77 bit4 is undriven
    // and returns that latched value on the next read.
    ppu.oam_lo[0] = 0xFF;
    ppu.oam_addr = 0;
    assert_eq!(ppu.read(0x38), Some(0xFF));
    assert_eq!(ppu.read(0x3E).unwrap() & 0x10, 0x10);
    // A PPU2 read drives the PPU2 latch; STAT78 bit5 (undriven) reflects it.
    ppu.ophct = 0x1FF;
    ppu.ophct_hi = false;
    assert_eq!(ppu.read(0x3C), Some(0xFF));
    assert_eq!(ppu.read(0x3F).unwrap() & 0x20, 0x20);
    // OPHCT high read: bits7-1 come from the PPU2 latch (=0xFF here).
    ppu.ophct = 0x100;
    ppu.ophct_hi = false;
    assert_eq!(ppu.read(0x3C), Some(0x00)); // low byte -> ppu2_mdr = 0x00
    assert_eq!(ppu.read(0x3C), Some(0x01)); // bit8=1, bits7-1 = mdr = 0
}

#[test]
fn mode7_mpy() {
    let mut ppu = Ppu::new();
    // M7A = 0x0002
    ppu.write(0x1B, 0x02);
    ppu.write(0x1B, 0x00);
    // M7B second (high) byte = multiplier: write low 0, high 3 -> operand 3
    ppu.write(0x1C, 0x00);
    ppu.write(0x1C, 0x03);
    let expected = (0x0002i32 * 3) as u32;
    assert_eq!(ppu.read(0x34), Some((expected & 0xFF) as u8));
    assert_eq!(ppu.read(0x35), Some((expected >> 8) as u8));
    assert_eq!(ppu.read(0x36), Some((expected >> 16) as u8));
}
