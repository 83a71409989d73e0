use prisme::ppu::background::{bg_source_line, decode_tile_pixel, render_bg_line};
use prisme::ppu::{LayerPixel, Ppu};


/// Write a 4bpp 8x8 tile at word `base` so that row `r` has pixel value
/// `pattern[r][c]` (0..15) for column c. Planes are bit-packed per §2.
fn write_4bpp_tile(ppu: &mut Ppu, base: usize, pattern: &[[u8; 8]; 8]) {
    for r in 0..8 {
        let (mut p0, mut p1, mut p2, mut p3) = (0u16, 0u16, 0u16, 0u16);
        for c in 0..8 {
            let v = pattern[r][c] as u16;
            let bit = 7 - c;
            p0 |= (v & 1) << bit;
            p1 |= ((v >> 1) & 1) << bit;
            p2 |= ((v >> 2) & 1) << bit;
            p3 |= ((v >> 3) & 1) << bit;
        }
        // planes 0/1 in first block word, planes 2/3 in the +8 block word.
        ppu.vram[base + r] = p0 | (p1 << 8);
        ppu.vram[base + 8 + r] = p2 | (p3 << 8);
    }
}

#[test]
fn decode_4bpp_tile_pixels() {
    let mut ppu = Ppu::new();
    let mut pat = [[0u8; 8]; 8];
    // Distinct values across the top row, a diagonal, and corners.
    pat[0] = [1, 2, 3, 4, 5, 6, 7, 8];
    pat[1][7] = 15;
    pat[7][0] = 9;
    write_4bpp_tile(&mut ppu, 0, &pat);
    for c in 0..8u32 {
        assert_eq!(decode_tile_pixel(&ppu, 0, c, 0, 4), pat[0][c as usize]);
    }
    assert_eq!(decode_tile_pixel(&ppu, 0, 7, 1, 4), 15);
    assert_eq!(decode_tile_pixel(&ppu, 0, 0, 7, 4), 9);
    assert_eq!(decode_tile_pixel(&ppu, 0, 1, 2, 4), 0);
}

#[test]
fn render_bg_line_mode1_4bpp_with_palette_and_scroll() {
    let mut ppu = Ppu::new();
    ppu.bg_mode = 1;
    ppu.bg_map_base[0] = 0x0000;
    ppu.bg_map_size[0] = 0;
    ppu.bg_char_base[0] = 0x1000;
    ppu.bg_tile_size[0] = false;

    let mut pat = [[0u8; 8]; 8];
    pat[0] = [1, 2, 3, 0, 5, 6, 7, 8];
    // 4bpp tile stride = 16 words; place tile number 1 at char_base + 16.
    write_4bpp_tile(&mut ppu, 0x1000 + 16, &pat);

    // Tilemap entry (0,0): tile 1, palette 3, priority 1.
    ppu.vram[0] = 1 | (3 << 10) | (1 << 13);

    let mut out = [LayerPixel::default(); 256];
    render_bg_line(&ppu, 0, 0, 0, &mut out);

    // color = palette*16 + val (mode 1, no per-BG offset).
    assert_eq!(out[0].color, 3 * 16 + 1);
    assert!(out[0].opaque);
    assert_eq!(out[0].priority, 1);
    assert_eq!(out[1].color, 3 * 16 + 2);
    // pixel value 0 -> transparent (color-0 within palette).
    assert!(!out[3].opaque);
    assert_eq!(out[7].color, 3 * 16 + 8);
}

#[test]
fn render_bg_line_hflip() {
    let mut ppu = Ppu::new();
    ppu.bg_mode = 1;
    ppu.bg_char_base[0] = 0x0000;
    let mut pat = [[0u8; 8]; 8];
    pat[0] = [1, 2, 3, 4, 5, 6, 7, 8];
    write_4bpp_tile(&mut ppu, 16, &pat);
    ppu.vram[0] = 1 | 0x4000; // tile 1, H-flip
    let mut out = [LayerPixel::default(); 256];
    render_bg_line(&ppu, 0, 0, 0, &mut out);
    // Reversed row.
    assert_eq!(out[0].color, 8);
    assert_eq!(out[7].color, 1);
}

#[test]
fn interlace_bg_source_line() {
    // Non-interlace: identity regardless of field/mosaic.
    assert_eq!(bg_source_line(false, false, false, 100), 100);
    assert_eq!(bg_source_line(false, true, false, 100), 100);
    // Interlace field 0: row r -> 2r; field 1: 2r+1 (the two 448-line fields).
    assert_eq!(bg_source_line(true, false, false, 100), 200);
    assert_eq!(bg_source_line(true, true, false, 100), 201);
    assert_eq!(bg_source_line(true, false, false, 0), 0);
    assert_eq!(bg_source_line(true, true, false, 0), 1);
    // Mosaic suppresses the field bit.
    assert_eq!(bg_source_line(true, true, true, 100), 200);
}

#[test]
fn offset_per_tile_shifts_one_bg1_column() {
    let mut ppu = Ppu::new();
    ppu.bg_mode = 2; // BG1/BG2 4bpp, BG3 = OPT data
    // BG1: map at 0, char at 0x2000, 8x8 tiles, no scroll.
    ppu.bg_map_base[0] = 0x0000;
    ppu.bg_char_base[0] = 0x2000;
    ppu.bg_tile_size[0] = false;
    ppu.bg_hofs[0] = 0;
    ppu.bg_vofs[0] = 0;
    // BG3 (OPT): map at 0x1000, no scroll, 8x8.
    ppu.bg_map_base[2] = 0x1000;
    ppu.bg_tile_size[2] = false;
    ppu.bg_hofs[2] = 0;
    ppu.bg_vofs[2] = 0;

    // BG1 tilemap row 0: map column c selects tile number c+1, so a
    // horizontal shift of N tiles changes the visible tile.
    for c in 0..8u16 {
        ppu.vram[c as usize] = c + 1;
    }
    // Solid 4bpp tiles: tile T (1..=8) has every pixel = value T.
    for t in 1..=8u16 {
        let base = 0x2000 + (t as usize) * 16;
        for r in 0..8 {
            let (mut p0, mut p1, mut p2, mut p3) = (0u16, 0u16, 0u16, 0u16);
            for c in 0..8 {
                let bit = 7 - c;
                p0 |= (t & 1) << bit;
                p1 |= ((t >> 1) & 1) << bit;
                p2 |= ((t >> 2) & 1) << bit;
                p3 |= ((t >> 3) & 1) << bit;
            }
            ppu.vram[base + r] = p0 | (p1 << 8);
            ppu.vram[base + 8 + r] = p2 | (p3 << 8);
        }
    }

    // OPT H entry for screen column 1: BG3 tile (0,0) = vram[0x1000].
    // bit13 = apply to BG1, replacement H scroll value = 16 (two tiles).
    ppu.vram[0x1000] = 0x2000 | 16;

    let mut out = [LayerPixel::default(); 256];
    render_bg_line(&ppu, 0, 0, 0, &mut out);

    // Column 0 (never offset): tile col 0 -> tile 1 -> value 1.
    assert_eq!(out[0].color, 1);
    // Column 1 (screen x 8..15): shifted +16 px -> BG tile col 3 -> tile 4.
    assert_eq!(out[8].color, 4);
    assert_eq!(out[15].color, 4);
    // Column 2 has no OPT entry (BG3 tile (1,0) = 0) -> unshifted tile col 2.
    assert_eq!(out[16].color, 3);
}

#[test]
fn mode0_per_bg_palette_offset() {
    let mut ppu = Ppu::new();
    ppu.bg_mode = 0; // all 2bpp
    ppu.bg_char_base[1] = 0x0000;
    // 2bpp tile 1 (stride 8 words) row 0 = value 1 in column 0.
    ppu.vram[8] = 0x0080; // plane0 bit7 set -> pixel value 1 at col 0
    // BG2 map base default 0; entry (0,0) selects tile 1, palette 0.
    ppu.vram[0] = 1;
    let mut out = [LayerPixel::default(); 256];
    render_bg_line(&ppu, 1, 0, 0, &mut out); // BG2
    // Mode 0 BG2 base offset = 32; palette 0, val 1 -> color 33.
    assert_eq!(out[0].color, 32 + 1);
    assert!(out[0].opaque);
}
