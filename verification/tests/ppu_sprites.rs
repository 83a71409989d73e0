use prisme::ppu::sprites::render_obj_line;
use prisme::ppu::{ObjPixel, Ppu};


fn set_sprite(ppu: &mut Ppu, idx: usize, x: u16, y: u8, tile: u8, attr: u8) {
    ppu.oam_lo[idx * 4] = (x & 0xFF) as u8;
    ppu.oam_lo[idx * 4 + 1] = y;
    ppu.oam_lo[idx * 4 + 2] = tile;
    ppu.oam_lo[idx * 4 + 3] = attr;
    let shift = (idx & 3) * 2;
    let byte = &mut ppu.oam_hi[idx >> 2];
    *byte &= !(0b11 << shift);
    *byte |= (((x >> 8) & 1) as u8) << shift; // X bit8
}

fn set_sprite_size(ppu: &mut Ppu, idx: usize, large: bool) {
    let shift = (idx & 3) * 2 + 1;
    let byte = &mut ppu.oam_hi[idx >> 2];
    if large {
        *byte |= 1 << shift;
    } else {
        *byte &= !(1 << shift);
    }
}

#[test]
fn single_sprite_pixel_color_priority() {
    let mut ppu = Ppu::new();
    // 8×8 sprites (OBSEL size mode 0 small), name base 0.
    ppu.write(0x01, 0x00);
    // Tile 0, 4bpp: top-left pixel value 5 (planes 0 and 2 set at bit7).
    ppu.vram[0] = 0x0080; // plane0 = 0x80
    ppu.vram[8] = 0x0080; // plane2 = 0x80
    // X=100, Y=50, tile 0, palette 2, priority 1, no flip.
    let attr = (1 << 4) | (2 << 1); // priority=1, palette=2
    set_sprite(&mut ppu, 0, 100, 50, 0, attr);

    let mut out = [ObjPixel::default(); 256];
    render_obj_line(&mut ppu, 50, &mut out);

    let p = out[100];
    assert!(p.opaque);
    assert_eq!(p.color, 128 + 2 * 16 + 5);
    assert_eq!(p.priority, 1);
    assert_eq!(p.palette, 2);
    // Neighbouring column (pixel value 0) is transparent.
    assert!(!out[101].opaque);
    assert!(!ppu.obj_range_over);
    assert!(!ppu.obj_time_over);
}

#[test]
fn hflip_moves_pixel_to_right_edge() {
    let mut ppu = Ppu::new();
    ppu.write(0x01, 0x00);
    ppu.vram[0] = 0x0080;
    ppu.vram[8] = 0x0080;
    let attr = 0x40; // H-flip, priority 0, palette 0
    set_sprite(&mut ppu, 0, 100, 50, 0, attr);

    let mut out = [ObjPixel::default(); 256];
    render_obj_line(&mut ppu, 50, &mut out);
    // Left pixel of the 8×8 tile is mirrored to the rightmost column.
    assert!(!out[100].opaque);
    assert!(out[107].opaque);
    assert_eq!(out[107].color, 128 + 5);
}

#[test]
fn range_over_at_33_sprites() {
    let mut ppu = Ppu::new();
    ppu.write(0x01, 0x00); // 8×8 small
    // 33 sprites all intersecting line 0 (Y=0), spread across X.
    for i in 0..33usize {
        set_sprite(&mut ppu, i, (i as u16) * 7, 0, 0, 0);
    }
    let mut out = [ObjPixel::default(); 256];
    render_obj_line(&mut ppu, 0, &mut out);
    assert!(ppu.obj_range_over);
    // 33 × 1 sliver = 33 ≤ 34, so no time over.
    assert!(!ppu.obj_time_over);
}

#[test]
fn time_over_beyond_34_slivers() {
    let mut ppu = Ppu::new();
    // OBSEL size mode 0: large = 16×16 → 2 slivers/line.
    ppu.write(0x01, 0x00);
    // Park all sprites off line 0 (default Y=0 would intersect).
    for i in 0..128usize {
        ppu.oam_lo[i * 4 + 1] = 240;
    }
    // 18 large sprites × 2 slivers = 36 > 34, and 18 ≤ 32 (no range over).
    for i in 0..18usize {
        set_sprite(&mut ppu, i, (i as u16) * 3, 0, 0, 0);
        set_sprite_size(&mut ppu, i, true);
    }
    let mut out = [ObjPixel::default(); 256];
    render_obj_line(&mut ppu, 0, &mut out);
    assert!(ppu.obj_time_over);
    assert!(!ppu.obj_range_over);
}

#[test]
fn lower_index_sprite_wins_on_overlap() {
    let mut ppu = Ppu::new();
    ppu.write(0x01, 0x00);
    // Two opaque tiles: tile 0 pixel value 1, tile 1 pixel value 2.
    ppu.vram[0] = 0x0080; // tile 0 plane0 bit7
    ppu.vram[16] = 0x0080; // tile 1 (word +16) plane0 bit7
    set_sprite(&mut ppu, 0, 40, 0, 0, 1 << 1); // palette 1
    set_sprite(&mut ppu, 1, 40, 0, 1, 2 << 1); // palette 2, same X
    let mut out = [ObjPixel::default(); 256];
    render_obj_line(&mut ppu, 0, &mut out);
    // Sprite 0 (lower index) is in front.
    assert_eq!(out[40].palette, 1);
    assert_eq!(out[40].color, 128 + 16 + 1);
}

#[test]
fn offscreen_slivers_do_not_consume_time_budget() {
    let mut ppu = Ppu::new();
    ppu.write(0x01, 0x00); // OBSEL mode 0: large = 16×16 → 2 slivers.
    for i in 0..128usize {
        ppu.oam_lo[i * 4 + 1] = 240;
    }
    // 32 large sprites at X=255: tile0 (255..262) is on screen and counts;
    // tile1 (263..270) is off the right edge and must NOT count. So each
    // sprite consumes 1 sliver → 32 ≤ 34, no time over. The old code counted
    // both tiles (64 slivers) and wrongly flagged time over.
    for i in 0..32usize {
        set_sprite(&mut ppu, i, 255, 0, 0, 0);
        set_sprite_size(&mut ppu, i, true);
    }
    let mut out = [ObjPixel::default(); 256];
    render_obj_line(&mut ppu, 0, &mut out);
    assert!(!ppu.obj_time_over);
    assert!(!ppu.obj_range_over);
}

#[test]
fn range_time_flags_are_sticky_across_lines() {
    let mut ppu = Ppu::new();
    ppu.write(0x01, 0x00);
    // 33 sprites intersect line 0 → range over on that line.
    for i in 0..33usize {
        set_sprite(&mut ppu, i, (i as u16) * 7, 0, 0, 0);
    }
    let mut out = [ObjPixel::default(); 256];
    render_obj_line(&mut ppu, 0, &mut out);
    assert!(ppu.obj_range_over);
    // A later clean line (no sprite in range) must NOT clear the flag.
    for i in 0..128usize {
        ppu.oam_lo[i * 4 + 1] = 240;
    }
    render_obj_line(&mut ppu, 5, &mut out);
    assert!(ppu.obj_range_over);
    // Only the per-frame pre-render clear resets it.
    ppu.start_frame();
    assert!(!ppu.obj_range_over);
    assert!(!ppu.obj_time_over);
}

#[test]
fn priority_rotation_first_sprite_wins() {
    let mut ppu = Ppu::new();
    ppu.write(0x01, 0x00);
    ppu.vram[0] = 0x0080; // tile 0 pixel value 1
    ppu.vram[16] = 0x0080; // tile 1 pixel value 1
    for i in 0..128usize {
        ppu.oam_lo[i * 4 + 1] = 240;
    }
    set_sprite(&mut ppu, 0, 40, 0, 0, 1 << 1); // palette 1
    set_sprite(&mut ppu, 1, 40, 0, 1, 2 << 1); // palette 2, same X
    // $2103 bit7 rotation on, OAMADDL=2 → FirstSprite=(2&$FE)>>1=1.
    ppu.write(0x02, 0x02);
    ppu.write(0x03, 0x80);
    let mut out = [ObjPixel::default(); 256];
    render_obj_line(&mut ppu, 0, &mut out);
    // Rotation makes sprite 1 the highest-priority (front) sprite.
    assert_eq!(out[40].palette, 2);
}

#[test]
fn offscreen_negative_x_still_consumes_range() {
    let mut ppu = Ppu::new();
    ppu.write(0x01, 0x00);
    // 33 sprites at X=-256 (byte0=0, X bit8=1): all offscreen but still
    // consume range slots → range over with no visible pixels.
    for i in 0..33usize {
        set_sprite(&mut ppu, i, 0x100, 0, 0, 0);
    }
    let mut out = [ObjPixel::default(); 256];
    render_obj_line(&mut ppu, 0, &mut out);
    assert!(ppu.obj_range_over);
    assert!(out.iter().all(|p| !p.opaque));
}
