use prisme::ppu::render::{
    apply_brightness, average, cmath_channel, color_math, fixed_color, priority_order,
    resolve_screen, scale_channel, Resolved,
};
use prisme::ppu::{LayerPixel, ObjPixel, Ppu};


fn bg_px(color: u8, priority: u8) -> LayerPixel {
    LayerPixel {
        color,
        priority,
        opaque: true,
    }
}
fn obj_px(color: u8, priority: u8) -> ObjPixel {
    ObjPixel {
        color,
        priority,
        palette: 0,
        opaque: true,
    }
}

fn idx_of(r: Option<Resolved>) -> Option<u8> {
    r.map(|r| r.idx)
}

#[test]
fn mode1_default_bg1_over_bg2_same_priority() {
    let ppu = Ppu::new();
    let mut bgs = [[LayerPixel::default(); 256]; 4];
    bgs[0][0] = bg_px(10, 0);
    bgs[1][0] = bg_px(20, 0);
    let obj = [ObjPixel::default(); 256];
    let order = priority_order(1, false, false);
    assert_eq!(
        idx_of(resolve_screen(&ppu, order, &bgs, &obj, 0x0F, 0, 0)),
        Some(10)
    );
}

#[test]
fn mode1_bg3_priority_lift() {
    let ppu = Ppu::new();
    let mut bgs = [[LayerPixel::default(); 256]; 4];
    bgs[0][0] = bg_px(10, 1);
    bgs[2][0] = bg_px(30, 1);
    let obj = [ObjPixel::default(); 256];
    let o0 = priority_order(1, false, false);
    assert_eq!(
        idx_of(resolve_screen(&ppu, o0, &bgs, &obj, 0x0F, 0, 0)),
        Some(10)
    );
    let o1 = priority_order(1, true, false);
    assert_eq!(
        idx_of(resolve_screen(&ppu, o1, &bgs, &obj, 0x0F, 0, 0)),
        Some(30)
    );
}

#[test]
fn obj_priority_interleaves_with_bg() {
    let ppu = Ppu::new();
    let mut bgs = [[LayerPixel::default(); 256]; 4];
    bgs[0][0] = bg_px(10, 1);
    let mut obj = [ObjPixel::default(); 256];
    obj[0] = obj_px(200, 3);
    let order = priority_order(1, false, false);
    assert_eq!(
        idx_of(resolve_screen(&ppu, order, &bgs, &obj, 0x1F, 0, 0)),
        Some(200)
    );
    obj[0] = obj_px(200, 1);
    assert_eq!(
        idx_of(resolve_screen(&ppu, order, &bgs, &obj, 0x1F, 0, 0)),
        Some(10)
    );
}

#[test]
fn main_screen_disable_removes_layer() {
    let ppu = Ppu::new();
    let mut bgs = [[LayerPixel::default(); 256]; 4];
    bgs[0][0] = bg_px(10, 0);
    bgs[1][0] = bg_px(20, 0);
    let obj = [ObjPixel::default(); 256];
    let order = priority_order(1, false, false);
    assert_eq!(
        idx_of(resolve_screen(&ppu, order, &bgs, &obj, 0x0E, 0, 0)),
        Some(20)
    );
}

#[test]
fn window_masks_a_layer() {
    let mut ppu = Ppu::new();
    // BG1 W1 enabled, range [0,10].
    ppu.w12sel = 0b10;
    ppu.w1_left = 0;
    ppu.w1_right = 10;
    let mut bgs = [[LayerPixel::default(); 256]; 4];
    bgs[0][5] = bg_px(10, 0);
    bgs[1][5] = bg_px(20, 0);
    let obj = [ObjPixel::default(); 256];
    let order = priority_order(1, false, false);
    // Window masking off for BG1 -> BG1 wins.
    assert_eq!(
        idx_of(resolve_screen(&ppu, order, &bgs, &obj, 0x0F, 0x00, 5)),
        Some(10)
    );
    // Enable BG1 masking (win bit0): x=5 is inside window -> BG1 removed, BG2.
    assert_eq!(
        idx_of(resolve_screen(&ppu, order, &bgs, &obj, 0x0F, 0x01, 5)),
        Some(20)
    );
    // Outside the window (x=15) BG1 is not masked.
    bgs[0][15] = bg_px(10, 0);
    bgs[1][15] = bg_px(20, 0);
    assert_eq!(
        idx_of(resolve_screen(&ppu, order, &bgs, &obj, 0x0F, 0x01, 15)),
        Some(10)
    );
}

#[test]
fn backdrop_when_all_transparent() {
    let ppu = Ppu::new();
    let bgs = [[LayerPixel::default(); 256]; 4];
    let obj = [ObjPixel::default(); 256];
    let order = priority_order(0, false, false);
    assert!(resolve_screen(&ppu, order, &bgs, &obj, 0x1F, 0, 0).is_none());
}

#[test]
fn color_math_add_sub_half() {
    // add, no half, no saturation.
    assert_eq!(cmath_channel(10, 5, false, false), 15);
    // add saturates at 31.
    assert_eq!(cmath_channel(20, 20, false, false), 31);
    // add + half = true average of the 6-bit sum (no early clamp).
    assert_eq!(cmath_channel(20, 20, false, true), 20);
    // subtract clamps at 0.
    assert_eq!(cmath_channel(5, 10, true, false), 0);
    // subtract then half.
    assert_eq!(cmath_channel(20, 4, true, true), 8);

    // Full-color add on packed BGR555.
    let m = 10 | (10 << 5) | (10 << 10);
    let a = 5 | (5 << 5) | (5 << 10);
    assert_eq!(color_math(m, a, false, false), 15 | (15 << 5) | (15 << 10));
}

#[test]
fn coldata_channel_accumulation() {
    let mut ppu = Ppu::new();
    // Write red only.
    ppu.write(0x32, 0x20 | 0x0A);
    assert_eq!(ppu.coldata_r, 0x0A);
    assert_eq!(ppu.coldata_g, 0);
    // Write green only; red retained.
    ppu.write(0x32, 0x40 | 0x05);
    assert_eq!(ppu.coldata_r, 0x0A);
    assert_eq!(ppu.coldata_g, 0x05);
    // Write blue only; red+green retained.
    ppu.write(0x32, 0x80 | 0x1F);
    assert_eq!(fixed_color(&ppu), 0x0A | (0x05 << 5) | (0x1F << 10));
}

#[test]
fn brightness_scaling() {
    assert_eq!(apply_brightness(0x7FFF, 15), 0x7FFF);
    assert_eq!(scale_channel(31, 15), 31);
    assert_eq!(scale_channel(31, 7), (31 * 8) >> 4);
    // Brightness 0 = screen black, not c/16.
    assert_eq!(scale_channel(16, 0), 0);
    assert_eq!(scale_channel(31, 0), 0);
    assert_eq!(apply_brightness(0x7FFF, 0), 0);
}

#[test]
fn subscreen_add_composites_through_color_math() {
    let mut ppu = Ppu::new();
    ppu.bg_mode = 1;
    ppu.brightness = 15;
    ppu.main_screen = 0x02; // BG2 on main
    ppu.sub_screen = 0x01; // BG1 on sub
    ppu.cgwsel = 0x02; // addend = subscreen
    ppu.cgadsub = 0x20 | 0x02; // backdrop math enable + BG2 math enable, add
    ppu.cgram[0] = 0; // backdrop black
    ppu.cgram[1] = 0x0210; // BG1 (sub) color
    ppu.cgram[2 * 16 + 1] = 0x0004; // BG2 (main) palette2 idx1

    // BG1 tile -> palette 0 idx 1 at column 0.
    ppu.bg_char_base[0] = 0x0000;
    ppu.vram[16] = 0x0080; // 4bpp tile1 row0 col0 -> value 1
    ppu.vram[0] = 1; // BG1 map entry tile 1
                     // BG2 tile -> palette 2 idx 1.
    ppu.bg_char_base[1] = 0x0000;
    ppu.bg_map_base[1] = 0x0400;
    ppu.vram[0x0400] = 1 | (2 << 10); // BG2 map entry tile 1 palette 2
    ppu.render_scanline(0);
    // Main BG2 (0x0004) + Sub BG1 (0x0210) added per channel.
    let expected = color_math(0x0004, 0x0210, false, false);
    assert_eq!(ppu.framebuffer.0[0], expected);
}

#[test]
fn pseudo_hires_averages_main_and_sub_half_dots() {
    let mut ppu = Ppu::new();
    ppu.bg_mode = 1;
    ppu.brightness = 15;
    ppu.pseudo_hires = true; // $2133 bit3
    ppu.main_screen = 0x01; // BG1 on main
    ppu.sub_screen = 0x02; // BG2 on sub
    ppu.cgwsel = 0;
    ppu.cgadsub = 0; // no color math
    ppu.cgram[0] = 0;
    // BG1 (main) tile 1 -> palette 0 idx 1 -> cgram[1] = red 31.
    ppu.bg_char_base[0] = 0x0000;
    ppu.vram[16] = 0x0080; // 4bpp tile1 row0 col0 value 1
    ppu.vram[0] = 1;
    ppu.cgram[1] = 0x001F;
    // BG2 (sub) tile 1 palette 1 -> cgram[17] = blue 31.
    ppu.bg_char_base[1] = 0x0000;
    ppu.bg_map_base[1] = 0x0400;
    ppu.vram[0x0400] = 1 | (1 << 10);
    ppu.cgram[17] = 0x7C00;

    ppu.render_scanline(0);

    // Left half-dot = subscreen (BG2), right half-dot = main (BG1), averaged.
    let expected = average(apply_brightness(0x001F, 15), apply_brightness(0x7C00, 15));
    assert_eq!(ppu.framebuffer.0[0], expected);
}

#[test]
fn non_hires_output_unchanged_by_hires_path() {
    // With pseudo-hires off the compositor must take the single-pass path.
    let mut ppu = Ppu::new();
    ppu.bg_mode = 1;
    ppu.brightness = 15;
    ppu.main_screen = 0x01;
    ppu.cgram[0] = 0x1234;
    ppu.bg_char_base[0] = 0x0000;
    ppu.vram[16] = 0x0080;
    ppu.vram[0] = 1;
    ppu.cgram[1] = 0x7FFF;
    ppu.render_scanline(0);
    assert_eq!(ppu.framebuffer.0[0], 0x7FFF);
    assert_eq!(ppu.framebuffer.0[1], 0x1234);
}

#[test]
fn forced_blank_and_render_write_row() {
    let mut ppu = Ppu::new();
    ppu.bg_mode = 1;
    ppu.brightness = 15;
    ppu.main_screen = 0x01;
    ppu.cgram[0] = 0x1234;
    ppu.bg_char_base[0] = 0x0000;
    ppu.vram[16] = 0x0080;
    ppu.vram[0] = 1;
    ppu.cgram[1] = 0x7FFF;
    ppu.render_scanline(0);
    assert_eq!(ppu.framebuffer.0[0], 0x7FFF);
    assert_eq!(ppu.framebuffer.0[1], 0x1234);

    ppu.forced_blank = true;
    ppu.render_scanline(0);
    assert_eq!(ppu.framebuffer.0[0], 0);
}
