use prisme::ppu::mode7::{clip, render_mode7_line};
use prisme::ppu::Ppu;


/// Identity matrix (M7A=M7D=1.0, M7B=M7C=0, center/scroll 0) maps screen
/// (x,y) 1:1 to playfield (x,y).
#[test]
fn identity_matrix_maps_1to1() {
    let mut ppu = Ppu::new();
    ppu.m7a = 0x0100;
    ppu.m7d = 0x0100;
    ppu.m7b = 0;
    ppu.m7c = 0;
    ppu.m7x = 0;
    ppu.m7y = 0;
    ppu.m7_hofs = 0;
    ppu.m7_vofs = 0;
    ppu.m7sel = 0; // wrap

    // Tilemap: playfield tile (0,0) = tile 1, tile (1,0) = tile 2.
    ppu.vram[0] = (ppu.vram[0] & 0xFF00) | 1; // map index 0 low byte
    ppu.vram[1] = (ppu.vram[1] & 0xFF00) | 2; // map index 1 low byte
    // Char data (high bytes): tile 1 pixel (0,0)=0xAB, tile 2 pixel(0,0)=0xCD.
    ppu.vram[1 * 64] = (0xABu16) << 8;
    ppu.vram[2 * 64] = (0xCDu16) << 8;

    let mut out = [0u8; 256];
    render_mode7_line(&ppu, 0, &mut out);
    assert_eq!(out[0], 0xAB); // screen (0,0) -> playfield (0,0) -> tile 1
    assert_eq!(out[8], 0xCD); // screen (8,0) -> playfield (8,0) -> tile 2
    // With the identity matrix a line past the visible ones samples its own
    // playfield row: row 1024 wraps to row 0.
    let mut far = [0u8; 256];
    render_mode7_line(&ppu, 1024, &mut far);
    assert_eq!(far[0], out[0]);
}

#[test]
fn transparent_outside_screen_over() {
    let mut ppu = Ppu::new();
    ppu.m7a = 0x0100;
    ppu.m7d = 0x0100;
    ppu.m7sel = 0x80; // over = 2: outside 1024×1024 transparent
    ppu.m7_hofs = 0x1FFF; // -1 as 13-bit signed -> playfield x negative
    let mut out = [0u8; 256];
    render_mode7_line(&ppu, 0, &mut out);
    // Screen column 0 samples playfield x = -1 (outside) -> transparent.
    assert_eq!(out[0], 0);
}

#[test]
fn clip_quirk() {
    assert_eq!(clip(5), 5);
    assert_eq!(clip(-1), -1);
    // bit13 set forces sign-extension from bit10.
    assert_eq!(clip(0x2000), 0x2000 | !0x3FF);
    assert_eq!(clip(0x0400), 0); // 1024 masked to 10 bits -> 0
}
