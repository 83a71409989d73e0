//! BG layers: 2/4/8bpp planar tile decode, 32x32/64x32/32x64/64x64 tilemaps,
//! H/V scroll, 8x8 and 16x16 tiles, H/V flip, palette selection, mosaic,
//! offset-per-tile (modes 2/4/6), screen-interlace vertical doubling, and the
//! per-half-dot `phase` sampling the compositor blends for hires modes 5/6.
//!
//! Mode 7 lives in `mode7.rs`; `render_bg_line` emits a transparent line for
//! mode 7 and the compositor fills BG1 there.

use super::{layer_clear, LayerPixel, Ppu};
use vstd::prelude::*;

verus! {

/// Bits per pixel of BG `bg` (0=BG1..3=BG4) in `mode`; `None` when that BG is
/// not a tile layer in that mode (absent, or the offset-per-tile channel).
pub open spec fn spec_bg_bpp(mode: u8, bg: int) -> Option<u8> {
    if mode == 0 {
        Some(2u8)
    } else if mode == 1 {
        if bg <= 1 {
            Some(4u8)
        } else if bg == 2 {
            Some(2u8)
        } else {
            None
        }
    } else if mode == 2 {
        if bg <= 1 {
            Some(4u8)
        } else {
            None
        }
    } else if mode == 3 {
        if bg == 0 {
            Some(8u8)
        } else if bg == 1 {
            Some(4u8)
        } else {
            None
        }
    } else if mode == 4 {
        if bg == 0 {
            Some(8u8)
        } else if bg == 1 {
            Some(2u8)
        } else {
            None
        }
    } else if mode == 5 {
        if bg == 0 {
            Some(4u8)
        } else if bg == 1 {
            Some(2u8)
        } else {
            None
        }
    } else if mode == 6 {
        if bg == 0 {
            Some(4u8)
        } else {
            None
        }
    } else {
        None
    }
}

/// Vertical source row: with screen interlace, display row `line` of field
/// `field` samples row `2*line + field` of the 448-line source; the field bit
/// is dropped while the layer's mosaic is on.
pub open spec fn spec_bg_source_line(interlace: bool, field: bool, mosaic_on: bool, line: u16) -> u32 {
    if interlace {
        (2 * line + if mosaic_on || !field { 0int } else { 1int }) as u32
    } else {
        line as u32
    }
}

/// Tilemap word address of tile (tx, ty): the 32x32 quadrant chosen by the
/// BGnSC size bits (bit0 = 64 wide, bit1 = 64 tall).
pub open spec fn spec_tilemap_entry_addr(base: u32, size: u8, tx: u32, ty: u32) -> u32 {
    let a = base + (ty & 0x1F) * 32 + (tx & 0x1F);
    let b = if size & 0x01 != 0 && tx & 0x20 != 0 {
        a + 0x400
    } else {
        a
    };
    let c = if size & 0x02 != 0 && ty & 0x20 != 0 {
        if size & 0x01 != 0 {
            b + 0x800
        } else {
            b + 0x400
        }
    } else {
        b
    };
    (c as u32) & 0x7FFF
}

/// Bit `bit` (7 = leftmost pixel) of the low and high plane bytes of one
/// word: a 2-bit contribution.
pub open spec fn plane_pair(w: u16, bit: u32) -> u8 {
    (((w >> bit) & 1) as u8 | (((w >> (8 + bit) as u32) & 1) as u8) << 1u8) as u8
}

/// The VRAM word holding planes 2k and 2k+1 of row `fine_y` of a tile.
pub open spec fn plane_word(ppu: &Ppu, tile_word: u32, fine_y: u32, k: int) -> u16 {
    ppu.vram@[((tile_word + 8 * k + fine_y) as u32 & 0x7FFF) as int]
}

/// The planar pixel value at (`fine_x`, `fine_y`) of the tile at `tile_word`:
/// bit 2k/2k+1 come from the low/high byte of plane word k, bit 7 of a byte
/// being the leftmost pixel.
pub open spec fn spec_tile_pixel(ppu: &Ppu, tile_word: u32, fine_x: u32, fine_y: u32, bpp: u8) -> u8 {
    let bit = (7 - fine_x) as u32;
    let v0 = plane_pair(plane_word(ppu, tile_word, fine_y, 0), bit);
    let v1 = if bpp >= 4 {
        (v0 | plane_pair(plane_word(ppu, tile_word, fine_y, 1), bit) << 2u8) as u8
    } else {
        v0
    };
    if bpp == 8 {
        (v1 | plane_pair(plane_word(ppu, tile_word, fine_y, 2), bit) << 4u8 | plane_pair(
            plane_word(ppu, tile_word, fine_y, 3),
            bit,
        ) << 6u8) as u8
    } else {
        v1
    }
}

/// The BG3 tilemap entry offset-per-tile reads for BG3 tile column `htile`
/// at vertical offset `voff`.
pub open spec fn spec_opt_entry(ppu: &Ppu, htile: u32, voff: u32) -> u16 {
    let vshift: u32 = if ppu.bg_tile_size@[2] { 4 } else { 3 };
    let vtile = voff >> vshift;
    ppu.vram@[spec_tilemap_entry_addr(ppu.bg_map_base@[2] as u32, ppu.bg_map_size@[2], htile, vtile) as int]
}

/// Effective (hofs, vofs) of BG `bg` (0 or 1) at 8-px screen column `col` in
/// the offset-per-tile modes. Column 0 is never affected; entry 0 (BG3 tile
/// column BG3HOFS>>3) applies to column 1. Bit13 marks an entry for BG1,
/// bit14 for BG2. Mode 4 has one row whose bit15 picks H or V; modes 2/6
/// take H from the BG3VOFS row and V from the row below. An H entry replaces
/// all but the low 3 bits of HOFS; a V entry replaces VOFS.
pub open spec fn spec_opt_scroll(ppu: &Ppu, bg: int, col: u32) -> (u32, u32) {
    let base_h = ppu.bg_hofs@[bg] as u32;
    let base_v = ppu.bg_vofs@[bg] as u32;
    if col == 0 {
        (base_h, base_v)
    } else {
        let vshift: u32 = if ppu.bg_tile_size@[2] { 4 } else { 3 };
        let hshift: u32 = if ppu.bg_mode == 6 { 3 } else { vshift };
        let hoff = ((((col - 1) as u32) << 3u32) + (ppu.bg_hofs@[2] as u32 & !7u32)) as u32;
        let htile = hoff >> hshift;
        let valid = if bg == 0 { 0x2000u16 } else { 0x4000u16 };
        let bg3_v = ppu.bg_vofs@[2] as u32;
        if ppu.bg_mode == 4 {
            let entry = spec_opt_entry(ppu, htile, bg3_v);
            if entry & valid != 0 {
                if entry & 0x8000 == 0 {
                    (((entry & 0x3FF & !7u16) as u32) | (base_h & 7), base_v)
                } else {
                    (base_h, (entry & 0x3FF) as u32)
                }
            } else {
                (base_h, base_v)
            }
        } else {
            let hl = spec_opt_entry(ppu, htile, bg3_v);
            let vl = spec_opt_entry(ppu, htile, (bg3_v + 8) as u32);
            (
                if hl & valid != 0 {
                    ((hl & 0x3FF & !7u16) as u32) | (base_h & 7)
                } else {
                    base_h
                },
                if vl & valid != 0 {
                    (vl & 0x3FF) as u32
                } else {
                    base_v
                },
            )
        }
    }
}

/// Mosaic is on for BG `bg` when its enable bit is set and the size is not 1.
pub open spec fn bg_mosaic_on(ppu: &Ppu, bg: int) -> bool {
    ppu.mosaic_enable & (1u8 << bg as u8) != 0 && ppu.mosaic_size != 0
}

/// Offset-per-tile applies to BG1/BG2 in modes 2, 4 and 6.
pub open spec fn bg_opt(ppu: &Ppu, bg: int) -> bool {
    (ppu.bg_mode == 2 || ppu.bg_mode == 4 || ppu.bg_mode == 6) && bg < 2
}

/// The scroll pair used for 8-px screen column `c`.
pub open spec fn spec_col_scroll(ppu: &Ppu, bg: int, c: u32) -> (u32, u32) {
    if bg_opt(ppu, bg) {
        spec_opt_scroll(ppu, bg, c)
    } else {
        (ppu.bg_hofs@[bg] as u32, ppu.bg_vofs@[bg] as u32)
    }
}

/// The mosaic-snapped source row of display row `line`.
pub open spec fn spec_bg_sy(ppu: &Ppu, bg: int, line: u16) -> u32 {
    let base = spec_bg_source_line(ppu.interlace, ppu.interlace_field, bg_mosaic_on(ppu, bg), line);
    let msize = (ppu.mosaic_size + 1) as u32;
    if bg_mosaic_on(ppu, bg) {
        ((base / msize) * msize) as u32
    } else {
        base
    }
}

/// Hires modes 5/6 force 16-px-wide tiles and sample two half-dots per column.
pub open spec fn bg_hires(ppu: &Ppu) -> bool {
    ppu.bg_mode == 5 || ppu.bg_mode == 6
}

/// Tile width in pixels: 16 for 16x16 tiles and in the hires modes.
pub open spec fn bg_tile_w(ppu: &Ppu, bg: int) -> u32 {
    if bg_hires(ppu) || ppu.bg_tile_size@[bg] { 16 } else { 8 }
}

/// Tile height in pixels.
pub open spec fn bg_tile_h(ppu: &Ppu, bg: int) -> u32 {
    if ppu.bg_tile_size@[bg] { 16 } else { 8 }
}

/// The position (fx, fy) in the layer's tilemap plane that screen column `x`
/// samples: mosaic-snapped, doubled in hires, scrolled, wrapped to the map size.
pub open spec fn spec_bg_field(ppu: &Ppu, bg: int, sy: u32, hofs: u32, vofs: u32, x: u32, phase: u32) -> (u32, u32) {
    let size = ppu.bg_map_size@[bg];
    let map_w = ((if size & 0x01 != 0 { 64u32 } else { 32u32 }) * bg_tile_w(ppu, bg)) as u32;
    let map_h = ((if size & 0x02 != 0 { 64u32 } else { 32u32 }) * bg_tile_h(ppu, bg)) as u32;
    let msize = (ppu.mosaic_size + 1) as u32;
    let sx: u32 = if bg_mosaic_on(ppu, bg) { ((x / msize) * msize) as u32 } else { x };
    let field_x: u32 = if bg_hires(ppu) { (sx * 2 + phase) as u32 } else { sx };
    (((field_x + hofs) as u32) & ((map_w - 1) as u32), ((sy + vofs) as u32) & ((map_h - 1) as u32))
}

/// The tilemap entry covering plane position (fx, fy).
pub open spec fn spec_bg_entry(ppu: &Ppu, bg: int, fx: u32, fy: u32) -> u16 {
    ppu.vram@[spec_tilemap_entry_addr(
        ppu.bg_map_base@[bg] as u32,
        ppu.bg_map_size@[bg],
        fx / bg_tile_w(ppu, bg),
        fy / bg_tile_h(ppu, bg),
    ) as int]
}

/// The char word and in-char pixel (fine x, fine y) that `entry` shows at
/// plane position (fx, fy): flips applied, 16-px tiles made of the 8x8 chars
/// +0/+1/+16/+17.
pub open spec fn spec_bg_char(ppu: &Ppu, bg: int, bpp: u8, entry: u16, fx: u32, fy: u32) -> (u32, u32, u32) {
    let tw = bg_tile_w(ppu, bg);
    let th = bg_tile_h(ppu, bg);
    let ix: u32 = if entry & 0x4000 != 0 { (tw - 1 - fx % tw) as u32 } else { fx % tw };
    let iy: u32 = if entry & 0x8000 != 0 { (th - 1 - fy % th) as u32 } else { fy % th };
    let tile_num = ((((entry & 0x03FF) as u32) + ix / 8 + (iy / 8) * 16) as u32) & 0x03FF;
    let tile_word = ((ppu.bg_char_base@[bg] as u32 + tile_num * (bpp as u32 * 4)) as u32) & 0x7FFF;
    (tile_word, ix & 7, iy & 7)
}

/// The layer pixel of pixel value `val` under tilemap `entry`: transparent
/// for 0; else the CGRAM index (palette base of mode 0, palette, value; the
/// value alone at 8bpp) with the entry's priority bit.
pub open spec fn spec_bg_color(ppu: &Ppu, bg: int, bpp: u8, entry: u16, val: u8) -> LayerPixel {
    if val != 0 {
        let palette = ((entry >> 10u16) & 0x07) as u16;
        let palette_base: u16 = if ppu.bg_mode == 0 { (bg * 32) as u16 } else { 0 };
        let color: u16 = if bpp == 8 {
            val as u16
        } else {
            (palette_base + palette * (1u16 << bpp as u16) + val) as u16
        };
        LayerPixel { color: color as u8, priority: ((entry >> 13u16) & 0x01) as u8, opaque: true }
    } else {
        layer_clear()
    }
}

/// The pixel of column `x`, given the layer's depth, source row and the
/// column's scroll.
pub open spec fn spec_bg_pixel_at(
    ppu: &Ppu,
    bg: int,
    bpp: u8,
    sy: u32,
    hofs: u32,
    vofs: u32,
    x: u32,
    phase: u32,
) -> LayerPixel {
    let f = spec_bg_field(ppu, bg, sy, hofs, vofs, x, phase);
    let entry = spec_bg_entry(ppu, bg, f.0, f.1);
    let c = spec_bg_char(ppu, bg, bpp, entry, f.0, f.1);
    spec_bg_color(ppu, bg, bpp, entry, spec_tile_pixel(ppu, c.0, c.1, c.2, bpp))
}

/// Column `x` of BG `bg` on display row `line`: transparent when the BG is no
/// tile layer in the current mode.
pub open spec fn spec_bg_pixel(ppu: &Ppu, bg: int, line: u16, phase: u32, x: int) -> LayerPixel {
    match spec_bg_bpp(ppu.bg_mode, bg) {
        None => layer_clear(),
        Some(bpp) => {
            let cs = spec_col_scroll(ppu, bg, ((x as u32) >> 3u32) & 31);
            spec_bg_pixel_at(ppu, bg, bpp, spec_bg_sy(ppu, bg, line), cs.0, cs.1, x as u32, phase)
        },
    }
}

fn bg_bpp(mode: u8, bg_index: usize) -> (r: Option<u8>)
    ensures
        r == spec_bg_bpp(mode, bg_index as int),
{
    match mode {
        0 => Some(2),
        1 => match bg_index {
            0 | 1 => Some(4),
            2 => Some(2),
            _ => None,
        },
        2 => match bg_index {
            0 | 1 => Some(4),
            _ => None,
        },
        3 => match bg_index {
            0 => Some(8),
            1 => Some(4),
            _ => None,
        },
        4 => match bg_index {
            0 => Some(8),
            1 => Some(2),
            _ => None,
        },
        5 => match bg_index {
            0 => Some(4),
            1 => Some(2),
            _ => None,
        },
        6 => match bg_index {
            0 => Some(4),
            _ => None,
        },
        _ => None,
    }
}

/// Vertical source line for a BG tile fetch (public for its test).
pub fn bg_source_line(interlace: bool, field: bool, mosaic_on: bool, line: u16) -> (r: u32)
    ensures
        r == spec_bg_source_line(interlace, field, mosaic_on, line),
{
    if interlace {
        let f: u32 = if mosaic_on {
            0
        } else {
            field as u32
        };
        let r = ((line as u32) << 1) | f;
        proof {
            crate::bits::lemma_u32_bits();
            assert(r == 2 * (line as u32) + f);
        }
        r
    } else {
        line as u32
    }
}

/// Tilemap word address for tile (tx, ty).
fn tilemap_entry_addr(base: u32, size: u8, tx: u32, ty: u32) -> (r: u32)
    requires
        base < 0x10000,
    ensures
        r == spec_tilemap_entry_addr(base, size, tx, ty),
        r < 0x8000,
{
    proof {
        crate::bits::lemma_u32_bits();
        assert(ty & 0x1F < 32 && tx & 0x1F < 32);
    }
    let mut a = base + (ty & 0x1F) * 32 + (tx & 0x1F);
    if size & 0x01 != 0 && tx & 0x20 != 0 {
        a += 0x400;
    }
    if size & 0x02 != 0 && ty & 0x20 != 0 {
        a += if size & 0x01 != 0 {
            0x800
        } else {
            0x400
        };
    }
    proof {
        assert(a & 0x7FFF < 0x8000);
    }
    a & 0x7FFF
}

fn pair_bits(w: u16, bit: u32) -> (r: u8)
    requires
        bit < 8,
    ensures
        r == plane_pair(w, bit),
        r < 4,
{
    let lo = ((w >> bit) & 1) as u8;
    let hi = ((w >> (8 + bit)) & 1) as u8;
    proof {
        crate::bits::lemma_u16_bits();
        crate::bits::lemma_u8_bits();
        assert((w >> bit) & 1 < 2 && (w >> (8 + bit) as u32) & 1 < 2);
        assert(lo | (hi << 1u8) < 4);
    }
    lo | (hi << 1)
}

fn vram_word(ppu: &Ppu, idx: u32) -> (w: u16)
    ensures
        w == ppu.vram@[(idx & 0x7FFF) as int],
{
    proof {
        crate::bits::lemma_u32_bits();
    }
    ppu.vram[(idx & 0x7FFF) as usize]
}

/// Decode one planar pixel value (0 .. 2^bpp - 1) from the tile at
/// `tile_word` (public for its test).
pub fn decode_tile_pixel(ppu: &Ppu, tile_word: u32, fine_x: u32, fine_y: u32, bpp: u8) -> (r: u8)
    requires
        fine_x < 8,
        fine_y < 8,
        tile_word < 0x8000,
    ensures
        r == spec_tile_pixel(ppu, tile_word, fine_x, fine_y, bpp),
{
    let bit = 7 - fine_x;
    let mut val = pair_bits(vram_word(ppu, tile_word + fine_y), bit);
    if bpp >= 4 {
        let p = pair_bits(vram_word(ppu, tile_word + 8 + fine_y), bit);
        val = val | p << 2;
    }
    if bpp == 8 {
        let p2 = pair_bits(vram_word(ppu, tile_word + 16 + fine_y), bit);
        let p3 = pair_bits(vram_word(ppu, tile_word + 24 + fine_y), bit);
        val = val | p2 << 4 | p3 << 6;
    }
    val
}

fn opt_entry(ppu: &Ppu, htile: u32, voff: u32) -> (r: u16)
    ensures
        r == spec_opt_entry(ppu, htile, voff),
{
    let vshift: u32 = if ppu.bg_tile_size[2] {
        4
    } else {
        3
    };
    let vtile = voff >> vshift;
    let addr = tilemap_entry_addr(ppu.bg_map_base[2] as u32, ppu.bg_map_size[2], htile, vtile);
    ppu.vram[addr as usize]
}

/// Effective (hofs, vofs) of BG1/BG2 at 8-px screen column `col` in the
/// offset-per-tile modes.
fn opt_scroll(ppu: &Ppu, bg_index: usize, col: u32) -> (r: (u32, u32))
    requires
        bg_index < 2,
        col < 32,
    ensures
        r == spec_opt_scroll(ppu, bg_index as int, col),
{
    let base_h = ppu.bg_hofs[bg_index] as u32;
    let base_v = ppu.bg_vofs[bg_index] as u32;
    if col == 0 {
        return (base_h, base_v);
    }
    let bg3_h = ppu.bg_hofs[2] as u32;
    let bg3_v = ppu.bg_vofs[2] as u32;
    let vshift: u32 = if ppu.bg_tile_size[2] {
        4
    } else {
        3
    };
    let hshift: u32 = if ppu.bg_mode == 6 {
        3
    } else {
        vshift
    };
    proof {
        let c = (col - 1) as u32;
        crate::bits::lemma_u32_bits();
        assert(c << 3u32 < 256);
        assert(bg3_h & !7u32 <= bg3_h);
    }
    let hoff = ((col - 1) << 3) + (bg3_h & !7);
    let htile = hoff >> hshift;
    let valid: u16 = if bg_index == 0 {
        0x2000
    } else {
        0x4000
    };
    let mut eff_h = base_h;
    let mut eff_v = base_v;
    if ppu.bg_mode == 4 {
        let entry = opt_entry(ppu, htile, bg3_v);
        if entry & valid != 0 {
            if entry & 0x8000 == 0 {
                eff_h = ((entry & 0x3FF & !7) as u32) | (base_h & 7);
            } else {
                eff_v = (entry & 0x3FF) as u32;
            }
        }
    } else {
        let hlookup = opt_entry(ppu, htile, bg3_v);
        let vlookup = opt_entry(ppu, htile, bg3_v + 8);
        if hlookup & valid != 0 {
            eff_h = ((hlookup & 0x3FF & !7) as u32) | (base_h & 7);
        }
        if vlookup & valid != 0 {
            eff_v = (vlookup & 0x3FF) as u32;
        }
    }
    (eff_h, eff_v)
}

fn bg_field(ppu: &Ppu, bg_index: usize, sy: u32, hofs: u32, vofs: u32, x: u32, phase: u32) -> (r: (
    u32,
    u32,
))
    requires
        bg_index < 4,
        sy < 0x20000,
        hofs < 0x10000,
        vofs < 0x10000,
        x < 256,
        phase < 2,
    ensures
        r == spec_bg_field(ppu, bg_index as int, sy, hofs, vofs, x, phase),
{
    let hires = ppu.bg_mode == 5 || ppu.bg_mode == 6;
    let tw_px: u32 = if hires || ppu.bg_tile_size[bg_index] {
        16
    } else {
        8
    };
    let th_px: u32 = if ppu.bg_tile_size[bg_index] {
        16
    } else {
        8
    };
    let map_size = ppu.bg_map_size[bg_index];
    let width_tiles: u32 = if map_size & 0x01 != 0 {
        64
    } else {
        32
    };
    let height_tiles: u32 = if map_size & 0x02 != 0 {
        64
    } else {
        32
    };
    let map_w_px = width_tiles * tw_px;
    let map_h_px = height_tiles * th_px;
    let mosaic_on = ppu.mosaic_enable & (1u8 << (bg_index as u8)) != 0 && ppu.mosaic_size != 0;
    let msize = (ppu.mosaic_size as u32) + 1;
    proof {
        if mosaic_on {
            assert((x / msize) * msize <= x) by (nonlinear_arith)
                requires
                    msize >= 1,
            ;
        }
    }
    let sx = if mosaic_on {
        (x / msize) * msize
    } else {
        x
    };
    let field_x = if hires {
        sx * 2 + phase
    } else {
        sx
    };
    ((field_x + hofs) & (map_w_px - 1), (sy + vofs) & (map_h_px - 1))
}

fn bg_entry(ppu: &Ppu, bg_index: usize, fx: u32, fy: u32) -> (r: u16)
    requires
        bg_index < 4,
    ensures
        r == spec_bg_entry(ppu, bg_index as int, fx, fy),
{
    let hires = ppu.bg_mode == 5 || ppu.bg_mode == 6;
    let tw_px: u32 = if hires || ppu.bg_tile_size[bg_index] {
        16
    } else {
        8
    };
    let th_px: u32 = if ppu.bg_tile_size[bg_index] {
        16
    } else {
        8
    };
    let addr = tilemap_entry_addr(
        ppu.bg_map_base[bg_index] as u32,
        ppu.bg_map_size[bg_index],
        fx / tw_px,
        fy / th_px,
    );
    ppu.vram[addr as usize]
}

fn bg_char(ppu: &Ppu, bg_index: usize, bpp: u8, entry: u16, fx: u32, fy: u32) -> (r: (u32, u32, u32))
    requires
        bg_index < 4,
        bpp == 2 || bpp == 4 || bpp == 8,
    ensures
        r == spec_bg_char(ppu, bg_index as int, bpp, entry, fx, fy),
        r.0 < 0x8000,
        r.1 < 8,
        r.2 < 8,
{
    let hires = ppu.bg_mode == 5 || ppu.bg_mode == 6;
    let tw_px: u32 = if hires || ppu.bg_tile_size[bg_index] {
        16
    } else {
        8
    };
    let th_px: u32 = if ppu.bg_tile_size[bg_index] {
        16
    } else {
        8
    };
    let mut ix = fx % tw_px;
    let mut iy = fy % th_px;
    if entry & 0x4000 != 0 {
        ix = tw_px - 1 - ix;
    }
    if entry & 0x8000 != 0 {
        iy = th_px - 1 - iy;
    }
    proof {
        crate::bits::lemma_u16_bits();
        crate::bits::lemma_u32_bits();
        assert(entry & 0x03FF < 1024);
        assert(ix & 7 < 8 && iy & 7 < 8);
    }
    let char_num = (entry & 0x03FF) as u32;
    let tn = char_num + ix / 8 + (iy / 8) * 16;
    let tile_num = tn & 0x03FF;
    proof {
        assert(tn & 0x03FF < 1024);
    }
    let words = (bpp as u32) * 4;
    proof {
        assert(tile_num * words <= 1023 * 32) by (nonlinear_arith)
            requires
                tile_num < 1024,
                words <= 32,
        ;
    }
    let tw = ppu.bg_char_base[bg_index] as u32 + tile_num * words;
    proof {
        assert(tw & 0x7FFF < 0x8000);
    }
    (tw & 0x7FFF, ix & 7, iy & 7)
}

fn bg_color(ppu: &Ppu, bg_index: usize, bpp: u8, entry: u16, val: u8) -> (r: LayerPixel)
    requires
        bg_index < 4,
        bpp == 2 || bpp == 4 || bpp == 8,
        bpp != 8 ==> val < 16,
    ensures
        r == spec_bg_color(ppu, bg_index as int, bpp, entry, val),
{
    if val != 0 {
        proof {
            crate::bits::lemma_u16_bits();
            assert((entry >> 10u16) & 0x07 < 8 && (entry >> 13u16) & 0x01 < 2);
        }
        let palette = ((entry >> 10) & 0x07) as u16;
        let priority = ((entry >> 13) & 0x01) as u8;
        let color = if bpp == 8 {
            val as u16
        } else {
            let palette_base: u16 = if ppu.bg_mode == 0 {
                (bg_index as u16) * 32
            } else {
                0
            };
            let colors_per_pal: u16 = 1u16 << (bpp as u16);
            proof {
                assert(colors_per_pal <= 16);
                assert(palette * colors_per_pal <= 7 * 16) by (nonlinear_arith)
                    requires
                        palette < 8,
                        colors_per_pal <= 16,
                ;
            }
            palette_base + palette * colors_per_pal + val as u16
        };
        LayerPixel { color: color as u8, priority, opaque: true }
    } else {
        LayerPixel::clear()
    }
}

proof fn lemma_tile_pixel_small(ppu: &Ppu, tile_word: u32, fine_x: u32, fine_y: u32, bpp: u8)
    requires
        fine_x < 8,
        bpp == 2 || bpp == 4,
    ensures
        spec_tile_pixel(ppu, tile_word, fine_x, fine_y, bpp) < 16,
{
    let bit = (7 - fine_x) as u32;
    let a = plane_pair(plane_word(ppu, tile_word, fine_y, 0), bit);
    let b = plane_pair(plane_word(ppu, tile_word, fine_y, 1), bit);
    lemma_pair_small(plane_word(ppu, tile_word, fine_y, 0), bit);
    lemma_pair_small(plane_word(ppu, tile_word, fine_y, 1), bit);
    crate::bits::lemma_u8_bits();
    assert(((a | b << 2u8) as u8) < 16);
}

fn bg_pixel_at(
    ppu: &Ppu,
    bg_index: usize,
    bpp: u8,
    sy: u32,
    hofs: u32,
    vofs: u32,
    x: u32,
    phase: u32,
) -> (r: LayerPixel)
    requires
        bg_index < 4,
        bpp == 2 || bpp == 4 || bpp == 8,
        sy < 0x20000,
        hofs < 0x10000,
        vofs < 0x10000,
        x < 256,
        phase < 2,
    ensures
        r == spec_bg_pixel_at(ppu, bg_index as int, bpp, sy, hofs, vofs, x, phase),
{
    let (fx, fy) = bg_field(ppu, bg_index, sy, hofs, vofs, x, phase);
    let entry = bg_entry(ppu, bg_index, fx, fy);
    let (tile_word, fine_x, fine_y) = bg_char(ppu, bg_index, bpp, entry, fx, fy);
    let val = decode_tile_pixel(ppu, tile_word, fine_x, fine_y, bpp);
    proof {
        if bpp != 8 {
            lemma_tile_pixel_small(ppu, tile_word, fine_x, fine_y, bpp);
        }
    }
    bg_color(ppu, bg_index, bpp, entry, val)
}

proof fn lemma_pair_small(w: u16, bit: u32)
    requires
        bit < 8,
    ensures
        plane_pair(w, bit) < 4,
{
    let lo = ((w >> bit) & 1) as u8;
    let hi = ((w >> (8 + bit) as u32) & 1) as u8;
    crate::bits::lemma_u16_bits();
    crate::bits::lemma_u8_bits();
    assert((w >> bit) & 1 < 2 && (w >> (8 + bit) as u32) & 1 < 2);
    assert(lo | (hi << 1u8) < 4);
}

/// Render one BG tile line into `out` (256 columns); transparent columns are
/// `LayerPixel::clear()`. `phase` selects the half-dot (0 = even/left,
/// 1 = odd/right) in the hires modes 5/6 and is ignored otherwise.
pub fn render_bg_line(ppu: &Ppu, bg_index: usize, line: u16, phase: u32, out: &mut [LayerPixel; 256])
    requires
        bg_index < 4,
        phase < 2,
    ensures
        forall|x: int|
            0 <= x < 256 ==> final(out)@[x] == spec_bg_pixel(ppu, bg_index as int, line, phase, x),
{
    let bpp = match bg_bpp(ppu.bg_mode, bg_index) {
        Some(b) => b,
        None => {
            *out = [LayerPixel::clear(); 256];
            return ;
        },
    };
    let base_hofs = ppu.bg_hofs[bg_index] as u32;
    let base_vofs = ppu.bg_vofs[bg_index] as u32;
    let mosaic_on = ppu.mosaic_enable & (1u8 << (bg_index as u8)) != 0 && ppu.mosaic_size != 0;
    let msize = (ppu.mosaic_size as u32) + 1;
    let opt = (ppu.bg_mode == 2 || ppu.bg_mode == 4 || ppu.bg_mode == 6) && bg_index < 2;
    let mut col_scroll = [(base_hofs, base_vofs); 32];
    if opt {
        let mut c: usize = 0;
        while c < 32
            invariant
                c <= 32,
                bg_index < 2,
                base_hofs == ppu.bg_hofs@[bg_index as int] as u32,
                base_vofs == ppu.bg_vofs@[bg_index as int] as u32,
                forall|k: int|
                    0 <= k < 32 ==> col_scroll@[k] == (if k < c {
                        spec_opt_scroll(ppu, bg_index as int, k as u32)
                    } else {
                        (base_hofs, base_vofs)
                    }),
            decreases 32 - c,
        {
            let s = opt_scroll(ppu, bg_index, c as u32);
            col_scroll[c] = s;
            c = c + 1;
        }
    }
    assert forall|k: int| 0 <= k < 32 implies col_scroll@[k] == spec_col_scroll(ppu, bg_index as int, k as u32)
        && col_scroll@[k].0 < 0x10000 && col_scroll@[k].1 < 0x10000 by {
        if opt {
            lemma_opt_scroll_small(ppu, bg_index as int, k as u32);
        }
    }
    let base_line = bg_source_line(ppu.interlace, ppu.interlace_field, mosaic_on, line);
    proof {
        if mosaic_on {
            assert((base_line / msize) * msize <= base_line) by (nonlinear_arith)
                requires
                    msize >= 1,
            ;
        }
    }
    let sy = if mosaic_on {
        (base_line / msize) * msize
    } else {
        base_line
    };
    assert(sy == spec_bg_sy(ppu, bg_index as int, line));
    let mut x: usize = 0;
    while x < 256
        invariant
            x <= 256,
            bg_index < 4,
            phase < 2,
            spec_bg_bpp(ppu.bg_mode, bg_index as int) == Some(bpp),
            bpp == 2 || bpp == 4 || bpp == 8,
            sy == spec_bg_sy(ppu, bg_index as int, line),
            sy < 0x20000,
            forall|k: int|
                0 <= k < 32 ==> col_scroll@[k] == spec_col_scroll(ppu, bg_index as int, k as u32)
                    && col_scroll@[k].0 < 0x10000 && col_scroll@[k].1 < 0x10000,
            forall|j: int| 0 <= j < x ==> out@[j] == spec_bg_pixel(ppu, bg_index as int, line, phase, j),
        decreases 256 - x,
    {
        let ci = ((x as u32) >> 3) & 31;
        proof {
            crate::bits::lemma_u32_bits();
            assert(ci < 32);
        }
        let (hofs, vofs) = col_scroll[ci as usize];
        let p = bg_pixel_at(ppu, bg_index, bpp, sy, hofs, vofs, x as u32, phase);
        out[x] = p;
        x = x + 1;
    }
}

proof fn lemma_opt_scroll_small(ppu: &Ppu, bg: int, col: u32)
    requires
        0 <= bg < 2,
    ensures
        spec_opt_scroll(ppu, bg, col).0 < 0x10000,
        spec_opt_scroll(ppu, bg, col).1 < 0x10000,
{
    let base_h = ppu.bg_hofs@[bg] as u32;
    crate::bits::lemma_u16_bits();
    crate::bits::lemma_u32_bits();
}

} // verus!
