//! Mode 7: signed 8.8 fixed-point affine transform sampling the 128x128
//! tilemap / 256-color char data interleaved in VRAM (low bytes = tilemap,
//! high bytes = char). Products are truncated to multiples of 64 before
//! summing.

use super::Ppu;
use vstd::prelude::*;

verus! {

/// A 13-bit Mode 7 scroll value, sign-extended.
pub open spec fn spec_se13(v: u16) -> i32 {
    let w = (v & 0x1FFF) as i32;
    if w & 0x1000 != 0 {
        (w - 0x2000) as i32
    } else {
        w
    }
}

/// The scroll-minus-center clip quirk: bit13 acts as the sign of a 10-bit field.
pub open spec fn spec_clip(a: i32) -> i32 {
    if a & 0x2000 != 0 {
        a | !0x3FFi32
    } else {
        a & 0x3FF
    }
}

/// A product truncated to a multiple of 64, as the hardware sums them.
pub open spec fn trunc64(v: i32) -> i32 {
    v & !63i32
}

/// The playfield pixel at (vx, vy) under screen-over mode `over` (0/1 wrap,
/// 2 transparent outside 1024x1024, 3 tile 0 outside): an 8-bit color index.
pub open spec fn spec_sample(ppu: &Ppu, vx: i32, vy: i32, over: u8) -> u8 {
    let outside = (vx & !0x3FFi32) != 0 || (vy & !0x3FFi32) != 0;
    if over == 2 && outside {
        0
    } else {
        let px = (vx & 0x3FF) as u32;
        let py = (vy & 0x3FF) as u32;
        let tile: u32 = if over == 3 && outside {
            0
        } else {
            (ppu.vram@[((((py >> 3u32) * 128 + (px >> 3u32)) as u32) & 0x7FFF) as int] & 0xFF) as u32
        };
        let char_idx = (((tile * 64 + (py & 7) * 8 + (px & 7)) as u32) & 0x7FFF) as int;
        (ppu.vram@[char_idx] >> 8u16) as u8
    }
}

/// The Mode 7 playfield inside its 1024x1024 area, whatever the
/// screen-over mode: the map is 128x128 tiles, tile (tx, ty) named by the
/// low byte of VRAM word ty*128 + tx; its character data is row-major, 8
/// words per row, so pixel (x, y) of the tile is the high byte of word
/// tile*64 + y*8 + x. The pixel one to the right is thus one word on, and
/// the one below eight words on.
pub proof fn law_mode7_playfield_is_row_major(ppu: &Ppu, x: int, y: int, over: u8)
    requires
        0 <= x < 1024,
        0 <= y < 1024,
    ensures
        ({
            let tile = ppu.vram@[(y / 8) * 128 + x / 8] as int % 256;
            spec_sample(ppu, x as i32, y as i32, over) as int == ppu.vram@[tile * 64 + (y % 8) * 8 + x % 8] as int / 256
        }),
{
    let vx = x as i32;
    let vy = y as i32;
    assert((vx & !0x3FFi32) == 0 && (vx & 0x3FF) == vx) by (bit_vector)
        requires
            0 <= vx < 1024,
    ;
    assert((vy & !0x3FFi32) == 0 && (vy & 0x3FF) == vy) by (bit_vector)
        requires
            0 <= vy < 1024,
    ;
    let px = (vx & 0x3FF) as u32;
    let py = (vy & 0x3FF) as u32;
    assert(px == x && py == y);
    assert((px >> 3u32) == px / 8 && (px & 7) == px % 8) by (bit_vector)
        requires
            px < 1024,
    ;
    assert((py >> 3u32) == py / 8 && (py & 7) == py % 8) by (bit_vector)
        requires
            py < 1024,
    ;
    let t = ((py >> 3u32) * 128 + (px >> 3u32)) as u32;
    assert(t == (y / 8) * 128 + x / 8);
    assert(t & 0x7FFF == t) by (bit_vector)
        requires
            t < 0x4000,
    ;
    let w = ppu.vram@[(t & 0x7FFF) as int];
    assert((w & 0xFF) as u32 == w as int % 256) by (bit_vector);
    let tile = (w & 0xFF) as u32;
    let c = ((tile * 64 + (py & 7) * 8 + (px & 7)) as u32);
    assert(c == tile * 64 + (y % 8) * 8 + x % 8);
    assert(c & 0x7FFF == c) by (bit_vector)
        requires
            c < 0x4000,
    ;
    let cw = ppu.vram@[(c & 0x7FFF) as int];
    assert((cw >> 8u16) as u8 as int == cw as int / 256) by (bit_vector);
}

/// Mosaic applies to Mode 7 when BG1's enable bit is set and the size is not 1.
pub open spec fn m7_mosaic(ppu: &Ppu) -> bool {
    ppu.mosaic_enable & 0x01 != 0 && ppu.mosaic_size != 0
}

/// A screen coordinate snapped to the mosaic grid, then flipped when asked.
pub open spec fn m7_source(ppu: &Ppu, v: int, flip: bool) -> int {
    let msize = ppu.mosaic_size + 1;
    let s = if m7_mosaic(ppu) {
        (v / msize) * msize
    } else {
        v
    };
    if flip {
        255 - s
    } else {
        s
    }
}

/// Horizontal scroll relative to the center, clipped.
pub open spec fn m7_hh(ppu: &Ppu) -> i32 {
    spec_clip((spec_se13(ppu.m7_hofs) - ppu.m7x) as i32)
}

/// Vertical scroll relative to the center, clipped.
pub open spec fn m7_vv(ppu: &Ppu) -> i32 {
    spec_clip((spec_se13(ppu.m7_vofs) - ppu.m7y) as i32)
}

/// The playfield X origin of `line` in 8.8 fixed point.
pub open spec fn m7_origin_x(ppu: &Ppu, line: int) -> int {
    let y = m7_source(ppu, line, ppu.m7sel & 0x02 != 0);
    trunc64((ppu.m7a * m7_hh(ppu)) as i32) + trunc64((ppu.m7b * m7_vv(ppu)) as i32) + trunc64(
        (ppu.m7b * y) as i32,
    ) + ppu.m7x * 256
}

/// The playfield Y origin of `line` in 8.8 fixed point.
pub open spec fn m7_origin_y(ppu: &Ppu, line: int) -> int {
    let y = m7_source(ppu, line, ppu.m7sel & 0x02 != 0);
    trunc64((ppu.m7c * m7_hh(ppu)) as i32) + trunc64((ppu.m7d * m7_vv(ppu)) as i32) + trunc64(
        (ppu.m7d * y) as i32,
    ) + ppu.m7y * 256
}

/// `v` is an `i32`.
pub open spec fn fits_i32(v: int) -> bool {
    i32::MIN <= v <= i32::MAX
}

/// The line's 32-bit sums stay in range: the origin as it is summed term by
/// term, and the origin plus each column's step. On a line past the visible
/// ones, large matrix values make them overflow.
pub open spec fn m7_line_fits(ppu: &Ppu, line: int) -> bool {
    let y = m7_source(ppu, line, ppu.m7sel & 0x02 != 0);
    let px = trunc64((ppu.m7a * m7_hh(ppu)) as i32) + trunc64((ppu.m7b * m7_vv(ppu)) as i32) + trunc64(
        (ppu.m7b * y) as i32,
    );
    let py = trunc64((ppu.m7c * m7_hh(ppu)) as i32) + trunc64((ppu.m7d * m7_vv(ppu)) as i32) + trunc64(
        (ppu.m7d * y) as i32,
    );
    &&& fits_i32(px)
    &&& fits_i32(py)
    &&& fits_i32(m7_origin_x(ppu, line))
    &&& fits_i32(m7_origin_y(ppu, line))
    &&& forall|col: int|
        0 <= col < 256 ==> fits_i32(m7_origin_x(ppu, line) + ppu.m7a * #[trigger] m7_column(ppu, col))
            && fits_i32(m7_origin_y(ppu, line) + ppu.m7c * m7_column(ppu, col))
}

/// The source X of screen column `col`.
pub open spec fn m7_column(ppu: &Ppu, col: int) -> int {
    m7_source(ppu, col, ppu.m7sel & 0x01 != 0)
}

/// The Mode 7 color index of screen pixel (`col`, `line`).
pub open spec fn spec_mode7_pixel(ppu: &Ppu, line: int, col: int) -> u8 {
    let x = m7_source(ppu, col, ppu.m7sel & 0x01 != 0);
    let vx = ((m7_origin_x(ppu, line) + ppu.m7a * x) as i32) >> 8i32;
    let vy = ((m7_origin_y(ppu, line) + ppu.m7c * x) as i32) >> 8i32;
    spec_sample(ppu, vx, vy, (ppu.m7sel >> 6u8) & 0x03)
}

fn se13(v: u16) -> (r: i32)
    ensures
        r == spec_se13(v),
        -4096 <= r < 4096,
{
    let w = (v & 0x1FFF) as i32;
    proof {
        crate::bits::lemma_u16_bits();
        crate::bits::lemma_i32_bits();
        assert(0 <= v & 0x1FFF < 0x2000);
        assert(w & 0x1000 != 0 ==> w >= 0x1000);
        assert(w & 0x1000 == 0 ==> w < 0x1000);
    }
    if w & 0x1000 != 0 {
        w - 0x2000
    } else {
        w
    }
}

/// The scroll-minus-center clip quirk (public for its test).
pub fn clip(a: i32) -> (r: i32)
    ensures
        r == spec_clip(a),
        -1024 <= r < 1024,
{
    proof {
        crate::bits::lemma_i32_bits();
        assert(-1024 <= (a | !0x3FFi32) < 0);
        assert(0 <= (a & 0x3FFi32) < 1024);
    }
    if a & 0x2000 != 0 {
        a | !0x3FF
    } else {
        a & 0x3FF
    }
}

fn sample(ppu: &Ppu, vx: i32, vy: i32, over: u8) -> (r: u8)
    ensures
        r == spec_sample(ppu, vx, vy, over),
{
    let outside = (vx & !0x3FF) != 0 || (vy & !0x3FF) != 0;
    if over == 2 && outside {
        return 0;
    }
    let use_tile0 = over == 3 && outside;
    proof {
        crate::bits::lemma_i32_bits();
        crate::bits::lemma_u32_bits();
        crate::bits::lemma_u16_bits();
        assert(0 <= (vx & 0x3FF) < 1024);
        assert(0 <= (vy & 0x3FF) < 1024);
    }
    let px = (vx & 0x3FF) as u32;
    let py = (vy & 0x3FF) as u32;
    let tile = if use_tile0 {
        0u32
    } else {
        proof {
            assert(py >> 3u32 < 128 && px >> 3u32 < 128);
        }
        let t = (py >> 3) * 128 + (px >> 3);
        let map_idx = t & 0x7FFF;
        proof {
            assert(t & 0x7FFF < 0x8000);
        }
        let word = ppu.vram[map_idx as usize];
        proof {
            assert(word & 0xFF < 256);
        }
        (word & 0xFF) as u32
    };
    proof {
        assert(tile < 256);
    }
    proof {
        assert(py & 7 < 8 && px & 7 < 8);
    }
    let u = tile * 64 + (py & 7) * 8 + (px & 7);
    let char_idx = u & 0x7FFF;
    proof {
        assert(u & 0x7FFF < 0x8000);
    }
    (ppu.vram[char_idx as usize] >> 8) as u8
}

proof fn lemma_trunc64_bounds(v: i32)
    ensures
        v - 64 < trunc64(v) <= v,
{
    assert(v - 64 < (v & !63i32) <= v) by (bit_vector);
}

proof fn lemma_clip_bound(a: i32)
    ensures
        -1024 <= spec_clip(a) < 1024,
{
    assert(-1024 <= (a | !0x3FFi32) < 0) by (bit_vector);
    assert(0 <= (a & 0x3FFi32) < 1024) by (bit_vector);
}

proof fn lemma_source_bound(ppu: &Ppu, v: int, flip: bool)
    requires
        0 <= v < 256,
    ensures
        0 <= m7_source(ppu, v, flip) <= 255,
{
    let msize = ppu.mosaic_size + 1;
    assert(0 <= (v / msize) * msize <= v) by (nonlinear_arith)
        requires
            msize >= 1,
            0 <= v,
    ;
}

/// Every visible line (0-255) keeps Mode 7's 32-bit sums in range, whatever
/// the matrix, scroll and center registers hold.
pub proof fn lemma_visible_line_fits(ppu: &Ppu, line: int)
    requires
        0 <= line < 256,
    ensures
        m7_line_fits(ppu, line),
{
    let hh = m7_hh(ppu);
    let vv = m7_vv(ppu);
    lemma_clip_bound((spec_se13(ppu.m7_hofs) - ppu.m7x) as i32);
    lemma_clip_bound((spec_se13(ppu.m7_vofs) - ppu.m7y) as i32);
    let y = m7_source(ppu, line, ppu.m7sel & 0x02 != 0);
    lemma_source_bound(ppu, line, ppu.m7sel & 0x02 != 0);
    let (a, b, c, d) = (ppu.m7a as int, ppu.m7b as int, ppu.m7c as int, ppu.m7d as int);
    assert(-32768 * 1024 <= a * hh <= 32768 * 1024) by (nonlinear_arith)
        requires -32768 <= a <= 32767, -1024 <= hh < 1024;
    assert(-32768 * 1024 <= b * vv <= 32768 * 1024) by (nonlinear_arith)
        requires -32768 <= b <= 32767, -1024 <= vv < 1024;
    assert(-32768 * 256 <= b * y <= 32768 * 256) by (nonlinear_arith)
        requires -32768 <= b <= 32767, 0 <= y <= 255;
    assert(-32768 * 1024 <= c * hh <= 32768 * 1024) by (nonlinear_arith)
        requires -32768 <= c <= 32767, -1024 <= hh < 1024;
    assert(-32768 * 1024 <= d * vv <= 32768 * 1024) by (nonlinear_arith)
        requires -32768 <= d <= 32767, -1024 <= vv < 1024;
    assert(-32768 * 256 <= d * y <= 32768 * 256) by (nonlinear_arith)
        requires -32768 <= d <= 32767, 0 <= y <= 255;
    lemma_trunc64_bounds((ppu.m7a * hh) as i32);
    lemma_trunc64_bounds((ppu.m7b * vv) as i32);
    lemma_trunc64_bounds((ppu.m7b * y) as i32);
    lemma_trunc64_bounds((ppu.m7c * hh) as i32);
    lemma_trunc64_bounds((ppu.m7d * vv) as i32);
    lemma_trunc64_bounds((ppu.m7d * y) as i32);
    assert forall|col: int| 0 <= col < 256 implies fits_i32(m7_origin_x(ppu, line) + ppu.m7a * #[trigger] m7_column(ppu, col))
        && fits_i32(m7_origin_y(ppu, line) + ppu.m7c * m7_column(ppu, col)) by {
        let x = m7_column(ppu, col);
        lemma_source_bound(ppu, col, ppu.m7sel & 0x01 != 0);
        assert(-32768 * 256 <= a * x <= 32768 * 256) by (nonlinear_arith)
            requires -32768 <= a <= 32767, 0 <= x <= 255;
        assert(-32768 * 256 <= c * x <= 32768 * 256) by (nonlinear_arith)
            requires -32768 <= c <= 32767, 0 <= x <= 255;
    }
}

/// Render one Mode 7 scanline (`line` = visible row) into `out` as 8-bit color
/// indices (0 = transparent). BG1 uses all 8 bits; EXTBG BG2 uses bit7 as
/// priority and the low 7 bits as color.
pub fn render_mode7_line(ppu: &Ppu, line: u16, out: &mut [u8; 256])
    requires
        m7_line_fits(ppu, line as int),
    ensures
        forall|col: int| 0 <= col < 256 ==> final(out)@[col] == spec_mode7_pixel(ppu, line as int, col),
{
    let hflip = ppu.m7sel & 0x01 != 0;
    let vflip = ppu.m7sel & 0x02 != 0;
    let over = (ppu.m7sel >> 6) & 0x03;
    let mosaic = ppu.mosaic_enable & 0x01 != 0 && ppu.mosaic_size != 0;
    let msize = ppu.mosaic_size as u32 + 1;
    let a = ppu.m7a as i32;
    let b = ppu.m7b as i32;
    let c = ppu.m7c as i32;
    let d = ppu.m7d as i32;
    let cx = ppu.m7x as i32;
    let cy = ppu.m7y as i32;
    let hh = clip(se13(ppu.m7_hofs) - cx);
    let vv = clip(se13(ppu.m7_vofs) - cy);
    proof {
        if mosaic {
            assert((line as u32 / msize) * msize <= line) by (nonlinear_arith)
                requires
                    msize >= 1,
            ;
        }
    }
    let sline = if mosaic {
        (line as u32 / msize) * msize
    } else {
        line as u32
    };
    let screen_y = if vflip {
        255 - sline as i32
    } else {
        sline as i32
    };
    proof {
        assert(-32768 * 1024 <= a * hh <= 32768 * 1024) by (nonlinear_arith)
            requires
                -32768 <= a <= 32767,
                -1024 <= hh < 1024,
        ;
        assert(-32768 * 1024 <= b * vv <= 32768 * 1024) by (nonlinear_arith)
            requires
                -32768 <= b <= 32767,
                -1024 <= vv < 1024,
        ;
        assert(-32768 * 65535 <= b * screen_y <= 32768 * 65535) by (nonlinear_arith)
            requires
                -32768 <= b <= 32767,
                -65535 <= screen_y <= 65535,
        ;
        assert(-32768 * 1024 <= c * hh <= 32768 * 1024) by (nonlinear_arith)
            requires
                -32768 <= c <= 32767,
                -1024 <= hh < 1024,
        ;
        assert(-32768 * 1024 <= d * vv <= 32768 * 1024) by (nonlinear_arith)
            requires
                -32768 <= d <= 32767,
                -1024 <= vv < 1024,
        ;
        assert(-32768 * 65535 <= d * screen_y <= 32768 * 65535) by (nonlinear_arith)
            requires
                -32768 <= d <= 32767,
                -65535 <= screen_y <= 65535,
        ;
        lemma_trunc64_bounds((a * hh) as i32);
        lemma_trunc64_bounds((b * vv) as i32);
        lemma_trunc64_bounds((b * screen_y) as i32);
        lemma_trunc64_bounds((c * hh) as i32);
        lemma_trunc64_bounds((d * vv) as i32);
        lemma_trunc64_bounds((d * screen_y) as i32);
    }
    let base_x = ((a * hh) & !63) + ((b * vv) & !63) + ((b * screen_y) & !63) + cx * 256;
    let base_y = ((c * hh) & !63) + ((d * vv) & !63) + ((d * screen_y) & !63) + cy * 256;
    assert(base_x == m7_origin_x(ppu, line as int));
    assert(base_y == m7_origin_y(ppu, line as int));
    let mut col: usize = 0;
    while col < 256
        invariant
            col <= 256,
            m7_line_fits(ppu, line as int),
            hflip == (ppu.m7sel & 0x01 != 0),
            over == (ppu.m7sel >> 6u8) & 0x03,
            mosaic == m7_mosaic(ppu),
            msize == ppu.mosaic_size + 1,
            a == ppu.m7a,
            c == ppu.m7c,
            base_x == m7_origin_x(ppu, line as int),
            base_y == m7_origin_y(ppu, line as int),
            forall|j: int| 0 <= j < col ==> out@[j] == spec_mode7_pixel(ppu, line as int, j),
        decreases 256 - col,
    {
        proof {
            if mosaic {
                assert((col as u32 / msize) * msize <= col) by (nonlinear_arith)
                    requires
                        msize >= 1,
                ;
            }
        }
        let scol = if mosaic {
            (col as u32 / msize) * msize
        } else {
            col as u32
        };
        let screen_x = if hflip {
            255 - scol as i32
        } else {
            scol as i32
        };
        proof {
            assert(-32768 * 256 <= a * screen_x <= 32768 * 256) by (nonlinear_arith)
                requires
                    -32768 <= a <= 32767,
                    -256 <= screen_x <= 256,
            ;
            assert(-32768 * 256 <= c * screen_x <= 32768 * 256) by (nonlinear_arith)
                requires
                    -32768 <= c <= 32767,
                    -256 <= screen_x <= 256,
            ;
        }
        proof {
            assert(screen_x == m7_column(ppu, col as int));
        }
        let vx = (base_x + a * screen_x) >> 8;
        let vy = (base_y + c * screen_x) >> 8;
        let px = sample(ppu, vx, vy, over);
        out[col] = px;
        col = col + 1;
    }
}

} // verus!
