//! OBJ/sprites: OAM evaluation, per-line rendering, the 32-sprite / 34-sliver
//! per-line hardware limits, priority rotation, and the range/time-over flags
//! ($213E bits 6/7).
//!
//! The line is described by three folds: `range_scan` walks OAM in rotation
//! order collecting the sprites that cover the line (the first 32 are kept;
//! a 33rd sets range over); `sprites_fold` then fetches the kept sprites in
//! reverse order, each through `tiles_fold`, spending one of 34 sliver slots
//! per on-screen 8x1 tile until the budget runs out (time over). A later
//! (lower-index) sprite overwrites, so it lands in front.

use super::{obj_clear, ObjPixel, Ppu};
use vstd::prelude::*;

verus! {

/// OBSEL small/large sizes as (width, height) in pixels.
pub open spec fn spec_obj_sizes(mode: u8) -> ((u16, u16), (u16, u16)) {
    let m = mode & 0x07;
    if m == 0 {
        ((8, 8), (16, 16))
    } else if m == 1 {
        ((8, 8), (32, 32))
    } else if m == 2 {
        ((8, 8), (64, 64))
    } else if m == 3 {
        ((16, 16), (32, 32))
    } else if m == 4 {
        ((16, 16), (64, 64))
    } else if m == 5 {
        ((32, 32), (64, 64))
    } else if m == 6 {
        ((16, 32), (32, 64))
    } else {
        ((16, 32), (32, 32))
    }
}

/// Table-2 attributes of sprite `idx`: (X bit8, size select).
pub open spec fn spec_table2(ppu: &Ppu, idx: usize) -> (bool, bool) {
    let byte = ppu.oam_hi@[(idx >> 2usize) as int];
    let shift = ((idx & 3) * 2) as u8;
    ((byte >> shift) & 1 != 0, (byte >> (shift + 1) as u8) & 1 != 0)
}

/// (width, height) of sprite `idx`.
pub open spec fn spec_sprite_dims(ppu: &Ppu, idx: usize) -> (u16, u16) {
    let sizes = spec_obj_sizes(ppu.obj_size);
    if spec_table2(ppu, idx).1 {
        sizes.1
    } else {
        sizes.0
    }
}

/// The OBSEL size table: for each size select (OBSEL bits 7-5) the small
/// and large sprite sizes, as the hardware has them; the size bit of a
/// sprite's second-table entry picks the large one.
pub proof fn law_obsel_size_table(ppu: &Ppu, idx: usize)
    ensures
        ({
            let m = ppu.obj_size & 0x07;
            let (w, h) = spec_sprite_dims(ppu, idx);
            let large = spec_table2(ppu, idx).1;
            &&& m == 0 ==> (w, h) == (if large { (16u16, 16u16) } else { (8u16, 8u16) })
            &&& m == 1 ==> (w, h) == (if large { (32u16, 32u16) } else { (8u16, 8u16) })
            &&& m == 2 ==> (w, h) == (if large { (64u16, 64u16) } else { (8u16, 8u16) })
            &&& m == 3 ==> (w, h) == (if large { (32u16, 32u16) } else { (16u16, 16u16) })
            &&& m == 4 ==> (w, h) == (if large { (64u16, 64u16) } else { (16u16, 16u16) })
            &&& m == 5 ==> (w, h) == (if large { (64u16, 64u16) } else { (32u16, 32u16) })
            &&& m == 6 ==> (w, h) == (if large { (32u16, 64u16) } else { (16u16, 32u16) })
            &&& m == 7 ==> (w, h) == (if large { (32u16, 32u16) } else { (16u16, 32u16) })
        }),
{
}

/// Without OBJ interlace a sprite covers the lines from its Y on, as many
/// as it is high, wrapping past line 255: a large sprite of size select 1
/// covers the 32 lines from its Y.
pub proof fn law_sprite_covers_its_height(ppu: &Ppu, line: u16, idx: usize)
    requires
        !ppu.obj_interlace,
    ensures
        spec_in_range(ppu, line, idx) <==> (line as int - ppu.oam_lo@[(idx * 4 + 1) as int] as int) % 256
            < spec_sprite_dims(ppu, idx).1,
        (ppu.obj_size & 0x07) == 1 && spec_table2(ppu, idx).1 ==> (spec_in_range(ppu, line, idx) <==> (line as int
            - ppu.oam_lo@[(idx * 4 + 1) as int] as int) % 256 < 32),
{
    let y = ppu.oam_lo@[(idx * 4 + 1) as int];
    let d = vstd::wrapping::u16_specs::wrapping_sub(line, y as u16);
    assert(d & 0xFF == (line as int - y as int) % 256) by (bit_vector)
        requires
            d == vstd::wrapping::u16_specs::wrapping_sub(line, y as u16),
    ;
}

/// The rotation start: with $2103 bit7 set, sprite (OAMADDL & $FE) >> 1 comes first.
pub open spec fn spec_first_sprite(ppu: &Ppu) -> usize {
    if ppu.oam_priority {
        ((ppu.oam_addr_reg & 0xFE) >> 1u16) as usize
    } else {
        0
    }
}

/// The sprite at rotation position `k`.
pub open spec fn rotation_index(ppu: &Ppu, k: int) -> usize {
    ((spec_first_sprite(ppu) + k) as usize) & 0x7F
}

/// Row of `line` inside a sprite whose top is at `y` (Y wraps mod 256).
pub open spec fn sprite_row(line: u16, y: u8) -> u16 {
    vstd::wrapping::u16_specs::wrapping_sub(line, y as u16) & 0xFF
}

/// Does sprite `idx` cover `line`? OBJ interlace halves the visible height.
pub open spec fn spec_in_range(ppu: &Ppu, line: u16, idx: usize) -> bool {
    let height = spec_sprite_dims(ppu, idx).1;
    let vis = if ppu.obj_interlace { height >> 1u16 } else { height };
    sprite_row(line, ppu.oam_lo@[(idx * 4 + 1) as int]) < vis
}

/// The sprites covering `line` among the first `k` rotation positions, in order.
pub open spec fn range_scan(ppu: &Ppu, line: u16, k: int) -> Seq<usize>
    decreases k,
{
    if k <= 0 {
        Seq::empty()
    } else {
        let prev = range_scan(ppu, line, k - 1);
        let idx = rotation_index(ppu, k - 1);
        if spec_in_range(ppu, line, idx) {
            prev.push(idx)
        } else {
            prev
        }
    }
}

/// More than 32 sprites cover the line.
pub open spec fn spec_range_over(ppu: &Ppu, line: u16) -> bool {
    range_scan(ppu, line, 128).len() > 32
}

/// The (at most 32) sprites kept for the line.
pub open spec fn spec_range_list(ppu: &Ppu, line: u16) -> Seq<usize> {
    let s = range_scan(ppu, line, 128);
    if s.len() > 32 {
        s.take(32)
    } else {
        s
    }
}

/// What the renderer needs of one sprite on one line.
#[derive(Clone, Copy)]
pub struct SpriteLine {
    /// Left edge, -256..255.
    pub x: i32,
    /// Width in pixels (8, 16, 32 or 64).
    pub width: u16,
    /// Row inside the sprite, flips and OBJ interlace applied.
    pub srow: u16,
    /// Base tile number, 0-511.
    pub base_tile: u16,
    /// Horizontal flip.
    pub hflip: bool,
    /// OBJ priority 0-3.
    pub priority: u8,
    /// OBJ palette 0-7.
    pub palette: u8,
}

/// Sprite `idx` as drawn on `line`. The row is V-flipped within the height;
/// OBJ interlace doubles it and offsets it by the field after the flip.
pub open spec fn spec_sprite_line(ppu: &Ppu, line: u16, idx: usize) -> SpriteLine {
    let (width, height) = spec_sprite_dims(ppu, idx);
    let b0 = ppu.oam_lo@[(idx * 4) as int];
    let b1 = ppu.oam_lo@[(idx * 4 + 1) as int];
    let b2 = ppu.oam_lo@[(idx * 4 + 2) as int];
    let b3 = ppu.oam_lo@[(idx * 4 + 3) as int];
    let vflip = b3 & 0x80 != 0;
    let r0 = sprite_row(line, b1);
    let r1: u16 = if ppu.obj_interlace { (r0 << 1u16) as u16 } else { r0 };
    let r2: u16 = if vflip { (height - 1 - r1) as u16 } else { r1 };
    let field = ppu.interlace_field as u16;
    let r3: u16 = if ppu.obj_interlace {
        (if vflip {
            vstd::wrapping::u16_specs::wrapping_sub(r2, field)
        } else {
            vstd::wrapping::u16_specs::wrapping_add(r2, field)
        }) & 0xFF
    } else {
        r2
    };
    SpriteLine {
        x: if spec_table2(ppu, idx).0 { (b0 - 256) as i32 } else { b0 as i32 },
        width,
        srow: r3,
        base_tile: (b2 as u16 | ((b3 as u16 & 0x01) << 8u16)) as u16,
        hflip: b3 & 0x40 != 0,
        priority: (b3 >> 4u8) & 0x03,
        palette: (b3 >> 1u8) & 0x07,
    }
}

/// One 4bpp OBJ pixel (0-15) of base tile `base_tile` at sprite pixel
/// (`col`, `row`). The name table is 16x16 tiles: a large sprite steps the
/// tile number's low nibble (X) and high nibble (Y), each wrapping in its
/// nibble; tiles $100-$1FF sit past the name-select gap.
pub open spec fn spec_fetch_pixel(ppu: &Ppu, base_tile: u16, col: u16, row: u16) -> u8 {
    let col_t = ((base_tile & 0x0F) + (col >> 3u16)) as u16 & 0x0F;
    let row_t = (((base_tile >> 4u16) & 0x0F) + (row >> 3u16)) as u16 & 0x0F;
    let tile_num = (base_tile & 0x100) | (row_t << 4u16) | col_t;
    let w0 = (ppu.obj_name_base + (tile_num & 0xFF) * 16) as u16;
    let word_addr = if tile_num & 0x100 != 0 {
        vstd::wrapping::u16_specs::wrapping_add(w0, ppu.obj_name_gap)
    } else {
        w0
    };
    let fine_y = (row & 7) as usize;
    let bit = (7 - (col & 7) as u8) as u8;
    let w01 = ppu.vram@[((word_addr as usize + fine_y) as usize & 0x7FFF) as int];
    let w23 = ppu.vram@[((word_addr as usize + 8 + fine_y) as usize & 0x7FFF) as int];
    let p0 = (w01 & 0xFF) as u8;
    let p1 = (w01 >> 8u16) as u8;
    let p2 = (w23 & 0xFF) as u8;
    let p3 = (w23 >> 8u16) as u8;
    ((p0 >> bit) & 1) | (((p1 >> bit) & 1) << 1u8) | (((p2 >> bit) & 1) << 2u8) | (((p3 >> bit) & 1)
        << 3u8)
}

/// Screen column of pixel `fx` of tile `tx`.
pub open spec fn tile_left(s: SpriteLine, tx: int) -> int {
    s.x + tx * 8
}

/// Does tile `tx` spend a sliver slot? Only on-screen tiles do, except that
/// a sprite at X = -256 spends one for every tile.
pub open spec fn tile_counts(s: SpriteLine, tx: int) -> bool {
    s.x == -256 || (tile_left(s, tx) + 7 >= 0 && tile_left(s, tx) <= 255)
}

/// The pixel pixel `fx` of tile `tx` draws, if opaque.
pub open spec fn tile_pixel(ppu: &Ppu, s: SpriteLine, tx: int, fx: int) -> u8 {
    let screen_col = tx * 8 + fx;
    let scol = if s.hflip { s.width - 1 - screen_col } else { screen_col };
    spec_fetch_pixel(ppu, s.base_tile, scol as u16, s.srow)
}

/// The OBJ pixel of color value `px` of sprite `s`.
pub open spec fn obj_pixel(s: SpriteLine, px: u8) -> ObjPixel {
    ObjPixel { color: (128 + s.palette * 16 + px) as u8, priority: s.priority, palette: s.palette, opaque: true }
}

/// `out` with the opaque pixels `fx < f` of tile `tx` drawn over it.
pub open spec fn draw_tile_upto(ppu: &Ppu, s: SpriteLine, tx: int, out: Seq<ObjPixel>, f: int) -> Seq<ObjPixel> {
    Seq::new(
        out.len(),
        |c: int|
            {
                let fx = c - tile_left(s, tx);
                if 0 <= fx < f && tile_pixel(ppu, s, tx, fx) != 0 {
                    obj_pixel(s, tile_pixel(ppu, s, tx, fx))
                } else {
                    out[c]
                }
            },
    )
}

/// The line state (pixels, slivers spent, stopped) after tiles `0..tx` of `s`.
pub open spec fn tiles_fold(ppu: &Ppu, s: SpriteLine, tx: int, out: Seq<ObjPixel>, slivers: int) -> (
    Seq<ObjPixel>,
    int,
    bool,
)
    decreases tx,
{
    if tx <= 0 {
        (out, slivers, false)
    } else {
        let prev = tiles_fold(ppu, s, tx - 1, out, slivers);
        if prev.2 {
            prev
        } else if tile_counts(s, tx - 1) && prev.1 >= 34 {
            (prev.0, prev.1, true)
        } else {
            (
                draw_tile_upto(ppu, s, tx - 1, prev.0, 8),
                if tile_counts(s, tx - 1) { prev.1 + 1 } else { prev.1 },
                false,
            )
        }
    }
}

/// The line state after the last `j` sprites of `list`, taken from the end.
pub open spec fn sprites_fold(ppu: &Ppu, line: u16, list: Seq<usize>, j: int, out: Seq<ObjPixel>, slivers: int) -> (
    Seq<ObjPixel>,
    int,
    bool,
)
    decreases j,
{
    if j <= 0 {
        (out, slivers, false)
    } else {
        let prev = sprites_fold(ppu, line, list, j - 1, out, slivers);
        if prev.2 {
            prev
        } else {
            let s = spec_sprite_line(ppu, line, list[list.len() - j]);
            tiles_fold(ppu, s, (s.width / 8) as int, prev.0, prev.1)
        }
    }
}

/// The transparent line.
pub open spec fn clear_line() -> Seq<ObjPixel> {
    Seq::new(256, |c: int| obj_clear())
}

/// The OBJ line of `line` and whether the sliver budget ran out.
pub open spec fn spec_obj_fold(ppu: &Ppu, line: u16) -> (Seq<ObjPixel>, int, bool) {
    let list = spec_range_list(ppu, line);
    sprites_fold(ppu, line, list, list.len() as int, clear_line(), 0)
}

/// Sticky flags after evaluating `line`: range over and time over are only
/// ever set here.
pub open spec fn obj_evaluated(ppu: Ppu, line: u16) -> Ppu {
    Ppu {
        obj_range_over: ppu.obj_range_over || spec_range_over(&ppu, line),
        obj_time_over: ppu.obj_time_over || spec_obj_fold(&ppu, line).2,
        ..ppu
    }
}

// --- facts about the folds ---------------------------------------------------

proof fn lemma_range_scan_prefix(ppu: &Ppu, line: u16, k1: int, k2: int)
    requires
        0 <= k1 <= k2,
    ensures
        range_scan(ppu, line, k1).len() <= range_scan(ppu, line, k2).len(),
        forall|i: int|
            0 <= i < range_scan(ppu, line, k1).len() ==> #[trigger] range_scan(ppu, line, k2)[i]
                == range_scan(ppu, line, k1)[i],
    decreases k2 - k1,
{
    if k1 < k2 {
        lemma_range_scan_prefix(ppu, line, k1, k2 - 1);
    }
}

proof fn lemma_mask7f(v: usize)
    ensures
        v & 0x7F < 128,
{
    crate::bits::lemma_usize_bits();
}

proof fn lemma_range_scan_members(ppu: &Ppu, line: u16, k: int)
    requires
        0 <= k,
    ensures
        range_scan(ppu, line, k).len() <= k,
        forall|i: int|
            0 <= i < range_scan(ppu, line, k).len() ==> #[trigger] range_scan(ppu, line, k)[i] < 128
                && spec_in_range(ppu, line, range_scan(ppu, line, k)[i]),
    decreases k,
{
    if k > 0 {
        lemma_range_scan_members(ppu, line, k - 1);
        lemma_mask7f(((spec_first_sprite(ppu) + (k - 1)) as usize));
    }
}

proof fn lemma_tiles_stop(ppu: &Ppu, s: SpriteLine, t1: int, t2: int, out: Seq<ObjPixel>, slivers: int)
    requires
        0 <= t1 <= t2,
        tiles_fold(ppu, s, t1, out, slivers).2,
    ensures
        tiles_fold(ppu, s, t2, out, slivers) == tiles_fold(ppu, s, t1, out, slivers),
    decreases t2 - t1,
{
    if t1 < t2 {
        lemma_tiles_stop(ppu, s, t1, t2 - 1, out, slivers);
    }
}

proof fn lemma_sprites_stop(
    ppu: &Ppu,
    line: u16,
    list: Seq<usize>,
    j1: int,
    j2: int,
    out: Seq<ObjPixel>,
    slivers: int,
)
    requires
        0 <= j1 <= j2,
        sprites_fold(ppu, line, list, j1, out, slivers).2,
    ensures
        sprites_fold(ppu, line, list, j2, out, slivers) == sprites_fold(ppu, line, list, j1, out, slivers),
    decreases j2 - j1,
{
    if j1 < j2 {
        lemma_sprites_stop(ppu, line, list, j1, j2 - 1, out, slivers);
    }
}

// --- execution ---------------------------------------------------------------

fn obj_sizes(mode: u8) -> (r: ((u16, u16), (u16, u16)))
    ensures
        r == spec_obj_sizes(mode),
{
    match mode & 0x07 {
        0 => ((8, 8), (16, 16)),
        1 => ((8, 8), (32, 32)),
        2 => ((8, 8), (64, 64)),
        3 => ((16, 16), (32, 32)),
        4 => ((16, 16), (64, 64)),
        5 => ((32, 32), (64, 64)),
        6 => ((16, 32), (32, 64)),
        _ => ((16, 32), (32, 32)),
    }
}

fn table2(ppu: &Ppu, idx: usize) -> (r: (bool, bool))
    requires
        idx < 128,
    ensures
        r == spec_table2(ppu, idx),
{
    proof {
        crate::bits::lemma_usize_bits();
        assert(idx >> 2usize < 32);
        assert((idx & 3) * 2 < 8);
    }
    let byte = ppu.oam_hi[idx >> 2];
    let shift = ((idx & 3) * 2) as u8;
    ((byte >> shift) & 1 != 0, (byte >> (shift + 1)) & 1 != 0)
}

fn sprite_dims(ppu: &Ppu, idx: usize) -> (r: (u16, u16))
    requires
        idx < 128,
    ensures
        r == spec_sprite_dims(ppu, idx),
        r.0 == 8 || r.0 == 16 || r.0 == 32 || r.0 == 64,
        r.1 == 8 || r.1 == 16 || r.1 == 32 || r.1 == 64,
{
    let (small, large) = obj_sizes(ppu.obj_size);
    if table2(ppu, idx).1 {
        large
    } else {
        small
    }
}

fn in_range_at(ppu: &Ppu, line: u16, idx: usize) -> (r: bool)
    requires
        idx < 128,
    ensures
        r == spec_in_range(ppu, line, idx),
{
    let (_, height) = sprite_dims(ppu, idx);
    let vis_height = if ppu.obj_interlace {
        height >> 1
    } else {
        height
    };
    let y = ppu.oam_lo[idx * 4 + 1] as u16;
    let row = line.wrapping_sub(y) & 0xFF;
    row < vis_height
}

fn sprite_line(ppu: &Ppu, line: u16, idx: usize) -> (s: SpriteLine)
    requires
        idx < 128,
        spec_in_range(ppu, line, idx),
    ensures
        s == spec_sprite_line(ppu, line, idx),
        s.width == 8 || s.width == 16 || s.width == 32 || s.width == 64,
        -256 <= s.x <= 255,
        s.palette < 8,
{
    let (x_bit8, _) = table2(ppu, idx);
    let (width, height) = sprite_dims(ppu, idx);
    let b0 = ppu.oam_lo[idx * 4] as i32;
    let b1 = ppu.oam_lo[idx * 4 + 1];
    let b2 = ppu.oam_lo[idx * 4 + 2] as u16;
    let b3 = ppu.oam_lo[idx * 4 + 3];
    let x = if x_bit8 {
        b0 - 256
    } else {
        b0
    };
    let vflip = b3 & 0x80 != 0;
    proof {
        crate::bits::lemma_u8_bits();
        crate::bits::lemma_u16_bits();
        assert((b3 >> 1u8) & 0x07 < 8);
    }
    let r0 = line.wrapping_sub(b1 as u16) & 0xFF;
    proof {
        assert(r0 <= 0xFF);
    }
    let r1 = if ppu.obj_interlace {
        r0 << 1
    } else {
        r0
    };
    proof {
        if ppu.obj_interlace {
            assert(r0 < height >> 1u16);
            assert(r0 << 1u16 < height);
        }
    }
    let r2 = if vflip {
        height - 1 - r1
    } else {
        r1
    };
    let field = ppu.interlace_field as u16;
    let r3 = if ppu.obj_interlace {
        (if vflip {
            r2.wrapping_sub(field)
        } else {
            r2.wrapping_add(field)
        }) & 0xFF
    } else {
        r2
    };
    SpriteLine {
        x,
        width,
        srow: r3,
        base_tile: b2 | ((b3 as u16 & 0x01) << 8),
        hflip: b3 & 0x40 != 0,
        priority: (b3 >> 4) & 0x03,
        palette: (b3 >> 1) & 0x07,
    }
}

fn fetch_pixel(ppu: &Ppu, base_tile: u16, col: u16, row: u16) -> (r: u8)
    requires
        ppu.obj_name_base <= 0xF00F,
    ensures
        r == spec_fetch_pixel(ppu, base_tile, col, row),
{
    let tile_col = col >> 3;
    let tile_row = row >> 3;
    proof {
        crate::bits::lemma_u16_bits();
        crate::bits::lemma_usize_bits();
        assert((base_tile & 0x0F) + (col >> 3u16) <= 0xFFFF);
        assert(((base_tile >> 4u16) & 0x0F) + (row >> 3u16) <= 0xFFFF);
    }
    let col_t = ((base_tile & 0x0F) + tile_col) & 0x0F;
    let row_t = (((base_tile >> 4) & 0x0F) + tile_row) & 0x0F;
    let tile_num = (base_tile & 0x100) | (row_t << 4) | col_t;
    proof {
        assert(tile_num & 0xFF <= 0xFF);
    }
    let mut word_addr = ppu.obj_name_base + (tile_num & 0xFF) * 16;
    if tile_num & 0x100 != 0 {
        word_addr = word_addr.wrapping_add(ppu.obj_name_gap);
    }
    proof {
        assert(row & 7 < 8 && col & 7 < 8);
    }
    let fine_y = (row & 7) as usize;
    let bit = 7 - (col & 7) as u8;
    let a01 = word_addr as usize + fine_y;
    let a23 = word_addr as usize + 8 + fine_y;
    proof {
        assert(a01 & 0x7FFF < 0x8000 && a23 & 0x7FFF < 0x8000);
    }
    let w01 = ppu.vram[a01 & 0x7FFF];
    let w23 = ppu.vram[a23 & 0x7FFF];
    let p0 = (w01 & 0xFF) as u8;
    let p1 = (w01 >> 8) as u8;
    let p2 = (w23 & 0xFF) as u8;
    let p3 = (w23 >> 8) as u8;
    ((p0 >> bit) & 1) | (((p1 >> bit) & 1) << 1) | (((p2 >> bit) & 1) << 2) | (((p3 >> bit) & 1) << 3)
}

proof fn lemma_pixel_small(ppu: &Ppu, base_tile: u16, col: u16, row: u16)
    ensures
        spec_fetch_pixel(ppu, base_tile, col, row) < 16,
{
    let col_t = ((base_tile & 0x0F) + (col >> 3u16)) as u16 & 0x0F;
    let row_t = (((base_tile >> 4u16) & 0x0F) + (row >> 3u16)) as u16 & 0x0F;
    let tile_num = (base_tile & 0x100) | (row_t << 4u16) | col_t;
    let w0 = (ppu.obj_name_base + (tile_num & 0xFF) * 16) as u16;
    let word_addr = if tile_num & 0x100 != 0 {
        vstd::wrapping::u16_specs::wrapping_add(w0, ppu.obj_name_gap)
    } else {
        w0
    };
    let fine_y = (row & 7) as usize;
    let bit = (7 - (col & 7) as u8) as u8;
    let w01 = ppu.vram@[((word_addr as usize + fine_y) as usize & 0x7FFF) as int];
    let w23 = ppu.vram@[((word_addr as usize + 8 + fine_y) as usize & 0x7FFF) as int];
    let p0 = (w01 & 0xFF) as u8;
    let p1 = (w01 >> 8u16) as u8;
    let p2 = (w23 & 0xFF) as u8;
    let p3 = (w23 >> 8u16) as u8;
    crate::bits::lemma_u8_bits();
    assert(((p0 >> bit) & 1) | (((p1 >> bit) & 1) << 1u8) | (((p2 >> bit) & 1) << 2u8) | (((p3 >> bit)
        & 1) << 3u8) < 16);
}

fn draw_tile(ppu: &Ppu, s: &SpriteLine, tx: u16, out: &mut [ObjPixel; 256])
    requires
        ppu.obj_name_base <= 0xF00F,
        s.width == 8 || s.width == 16 || s.width == 32 || s.width == 64,
        -256 <= s.x <= 255,
        s.palette < 8,
        tx < s.width / 8,
    ensures
        final(out)@ == draw_tile_upto(ppu, *s, tx as int, old(out)@, 8),
{
    let color_base = 128 + (s.palette as u16) * 16;
    let mut fx: u16 = 0;
    while fx < 8
        invariant
            fx <= 8,
            tx < s.width / 8,
            s.width == 8 || s.width == 16 || s.width == 32 || s.width == 64,
            -256 <= s.x <= 255,
            s.palette < 8,
            color_base == 128 + s.palette * 16,
            ppu.obj_name_base <= 0xF00F,
            out@ == draw_tile_upto(ppu, *s, tx as int, old(out)@, fx as int),
        decreases 8 - fx,
    {
        let screen_col = tx * 8 + fx;
        let sx = s.x + screen_col as i32;
        if sx >= 0 && sx < 256 {
            let scol = if s.hflip {
                s.width - 1 - screen_col
            } else {
                screen_col
            };
            let px = fetch_pixel(ppu, s.base_tile, scol, s.srow);
            proof {
                lemma_pixel_small(ppu, s.base_tile, scol, s.srow);
            }
            if px != 0 {
                out[sx as usize] = ObjPixel {
                    color: (color_base + px as u16) as u8,
                    priority: s.priority,
                    palette: s.palette,
                    opaque: true,
                };
            }
            assert(out@ =~= draw_tile_upto(ppu, *s, tx as int, old(out)@, fx + 1));
        } else {
            assert(out@ =~= draw_tile_upto(ppu, *s, tx as int, old(out)@, fx + 1));
        }
        fx = fx + 1;
    }
}

fn draw_sprite(ppu: &Ppu, s: &SpriteLine, out: &mut [ObjPixel; 256], slivers: &mut u32) -> (stopped: bool)
    requires
        ppu.obj_name_base <= 0xF00F,
        s.width == 8 || s.width == 16 || s.width == 32 || s.width == 64,
        -256 <= s.x <= 255,
        s.palette < 8,
        *old(slivers) <= 34,
    ensures
        (final(out)@, *final(slivers) as int, stopped) == tiles_fold(
            ppu,
            *s,
            (s.width / 8) as int,
            old(out)@,
            *old(slivers) as int,
        ),
        *final(slivers) <= 34,
{
    let n_tiles = s.width / 8;
    let mut tx: u16 = 0;
    while tx < n_tiles
        invariant
            n_tiles == s.width / 8,
            tx <= n_tiles,
            ppu.obj_name_base <= 0xF00F,
            s.width == 8 || s.width == 16 || s.width == 32 || s.width == 64,
            -256 <= s.x <= 255,
            s.palette < 8,
            *slivers <= 34,
            (out@, *slivers as int, false) == tiles_fold(ppu, *s, tx as int, old(out)@, *old(slivers) as int),
        decreases n_tiles - tx,
    {
        let tile_left = s.x + (tx as i32) * 8;
        let counts = s.x == -256 || (tile_left + 7 >= 0 && tile_left <= 255);
        if counts {
            if *slivers >= 34 {
                proof {
                    lemma_tiles_stop(ppu, *s, tx + 1, n_tiles as int, old(out)@, *old(slivers) as int);
                }
                return true;
            }
            *slivers = *slivers + 1;
        }
        draw_tile(ppu, s, tx, out);
        tx = tx + 1;
    }
    false
}

fn set_obj_flags(ppu: &mut Ppu, range_over: bool, time_over: bool)
    ensures
        *final(ppu) == (Ppu { obj_range_over: range_over, obj_time_over: time_over, ..*old(ppu) }),
{
    ppu.obj_range_over = range_over;
    ppu.obj_time_over = time_over;
}

/// Evaluate OAM for `line`: the range pass, then the time pass drawing into
/// `out`. Returns (range over, time over) for this line.
fn obj_line(ppu: &Ppu, line: u16, out: &mut [ObjPixel; 256]) -> (r: (bool, bool))
    requires
        ppu.obj_name_base <= 0xF00F,
    ensures
        r.0 == spec_range_over(ppu, line),
        r.1 == spec_obj_fold(ppu, line).2,
        final(out)@ == spec_obj_fold(ppu, line).0,
{
    *out = [ObjPixel::clear(); 256];
    assert(out@ =~= clear_line());
    let first: usize = if ppu.oam_priority {
        ((ppu.oam_addr_reg & 0xFE) >> 1) as usize
    } else {
        0
    };
    let mut in_range = [0usize; 32];
    let mut n_range: usize = 0;
    let mut range_over = false;
    let mut k: usize = 0;
    while k < 128 && !range_over
        invariant
            k <= 128,
            first == spec_first_sprite(ppu),
            n_range <= 32,
            !range_over ==> range_scan(ppu, line, k as int).len() == n_range,
            range_over ==> range_scan(ppu, line, k as int).len() == 33 && n_range == 32,
            forall|i: int| 0 <= i < n_range ==> in_range@[i] == range_scan(ppu, line, k as int)[i],
        decreases 128 - k,
    {
        let idx = (first + k) & 0x7F;
        proof {
            crate::bits::lemma_usize_bits();
            assert(idx < 128);
            assert(idx == rotation_index(ppu, k as int));
        }
        if in_range_at(ppu, line, idx) {
            if n_range == 32 {
                range_over = true;
            } else {
                in_range[n_range] = idx;
                n_range = n_range + 1;
            }
        }
        k = k + 1;
    }
    let ghost scan = range_scan(ppu, line, 128);
    let ghost list = spec_range_list(ppu, line);
    proof {
        lemma_range_scan_prefix(ppu, line, k as int, 128);
        lemma_range_scan_members(ppu, line, 128);
        if !range_over {
            assert(k == 128);
        }
        assert(list.len() == n_range);
        assert forall|i: int| 0 <= i < n_range implies in_range@[i] == list[i] && list[i] < 128
            && spec_in_range(ppu, line, list[i]) by {
            assert(scan[i] == range_scan(ppu, line, k as int)[i]);
        }
    }
    let mut slivers: u32 = 0;
    let mut stopped = false;
    let mut j: usize = 0;
    while j < n_range && !stopped
        invariant
            j <= n_range,
            n_range == list.len(),
            n_range <= 32,
            ppu.obj_name_base <= 0xF00F,
            forall|i: int|
                0 <= i < n_range ==> in_range@[i] == list[i] && list[i] < 128 && spec_in_range(
                    ppu,
                    line,
                    list[i],
                ),
            slivers <= 34,
            (out@, slivers as int, stopped) == sprites_fold(ppu, line, list, j as int, clear_line(), 0),
        decreases n_range - j,
    {
        let idx = in_range[n_range - 1 - j];
        proof {
            let i = (n_range - 1 - j) as int;
            assert(in_range@[i] == list[i] && list[i] < 128 && spec_in_range(ppu, line, list[i]));
        }
        let s = sprite_line(ppu, line, idx);
        stopped = draw_sprite(ppu, &s, out, &mut slivers);
        j = j + 1;
    }
    proof {
        if stopped {
            lemma_sprites_stop(ppu, line, list, j as int, n_range as int, clear_line(), 0);
        }
    }
    (range_over, stopped)
}

/// Evaluate OAM for `line` and write one `ObjPixel` per screen column. Sets
/// `ppu.obj_range_over` (more than 32 sprites on the line) and
/// `ppu.obj_time_over` (more than 34 8x1 tile slivers on the line); both
/// flags are sticky until `Ppu::start_frame`.
pub fn render_obj_line(ppu: &mut Ppu, line: u16, out: &mut [ObjPixel; 256])
    requires
        old(ppu).obj_name_base <= 0xF00F,
    ensures
        *final(ppu) == obj_evaluated(*old(ppu), line),
        final(out)@ == spec_obj_fold(old(ppu), line).0,
{
    let (range_over, time_over) = obj_line(ppu, line, out);
    let ro = ppu.obj_range_over || range_over;
    let to = ppu.obj_time_over || time_over;
    set_obj_flags(ppu, ro, to);
}


// --- what every OBJ pixel of a line is -------------------------------------

/// An OBJ pixel as the line holds it: transparent and clear, or opaque with
/// a palette (0-7), a priority (0-3), and a colour in that palette's slice
/// of the OBJ half of CGRAM that is not the transparent entry 0.
pub open spec fn obj_pixel_ok(p: ObjPixel) -> bool {
    if p.opaque {
        &&& p.palette <= 7
        &&& p.priority <= 3
        &&& p.color / 16 == 8 + p.palette
        &&& p.color % 16 != 0
    } else {
        p == obj_clear()
    }
}

/// A full line of such pixels.
pub open spec fn obj_line_ok(out: Seq<ObjPixel>) -> bool {
    &&& out.len() == 256
    &&& forall|c: int| 0 <= c < 256 ==> obj_pixel_ok(#[trigger] out[c])
}

proof fn lemma_attr_bits()
    by (bit_vector)
    ensures
        forall|b: u8| #[trigger] ((b >> 4u8) & 0x03u8) <= 3u8,
        forall|b: u8| #[trigger] ((b >> 1u8) & 0x07u8) <= 7u8,
{
}

proof fn lemma_nibble(p0: u8, p1: u8, p2: u8, p3: u8, bit: u8)
    by (bit_vector)
    ensures
        ((p0 >> bit) & 1) | (((p1 >> bit) & 1) << 1u8) | (((p2 >> bit) & 1) << 2u8) | (((p3 >> bit) & 1)
            << 3u8) <= 15u8,
{
}

proof fn lemma_fetch_pixel_bound(ppu: &Ppu, base_tile: u16, col: u16, row: u16)
    ensures
        spec_fetch_pixel(ppu, base_tile, col, row) <= 15,
{
    let col_t = ((base_tile & 0x0F) + (col >> 3u16)) as u16 & 0x0F;
    let row_t = (((base_tile >> 4u16) & 0x0F) + (row >> 3u16)) as u16 & 0x0F;
    let tile_num = (base_tile & 0x100) | (row_t << 4u16) | col_t;
    let w0 = (ppu.obj_name_base + (tile_num & 0xFF) * 16) as u16;
    let word_addr = if tile_num & 0x100 != 0 {
        vstd::wrapping::u16_specs::wrapping_add(w0, ppu.obj_name_gap)
    } else {
        w0
    };
    let fine_y = (row & 7) as usize;
    let bit = (7 - (col & 7) as u8) as u8;
    let w01 = ppu.vram@[((word_addr as usize + fine_y) as usize & 0x7FFF) as int];
    let w23 = ppu.vram@[((word_addr as usize + 8 + fine_y) as usize & 0x7FFF) as int];
    lemma_nibble((w01 & 0xFF) as u8, (w01 >> 8u16) as u8, (w23 & 0xFF) as u8, (w23 >> 8u16) as u8, bit);
}

proof fn lemma_sprite_line_attrs(ppu: &Ppu, line: u16, idx: usize)
    ensures
        spec_sprite_line(ppu, line, idx).priority <= 3,
        spec_sprite_line(ppu, line, idx).palette <= 7,
{
    lemma_attr_bits();
    let b3 = ppu.oam_lo@[(idx * 4 + 3) as int];
    assert(((b3 >> 4u8) & 0x03u8) <= 3u8);
    assert(((b3 >> 1u8) & 0x07u8) <= 7u8);
}

proof fn lemma_draw_tile_ok(ppu: &Ppu, s: SpriteLine, tx: int, out: Seq<ObjPixel>, f: int)
    requires
        obj_line_ok(out),
        s.priority <= 3,
        s.palette <= 7,
    ensures
        obj_line_ok(draw_tile_upto(ppu, s, tx, out, f)),
{
    let r = draw_tile_upto(ppu, s, tx, out, f);
    assert forall|c: int| 0 <= c < 256 implies obj_pixel_ok(#[trigger] r[c]) by {
        let fx = c - tile_left(s, tx);
        if 0 <= fx < f && tile_pixel(ppu, s, tx, fx) != 0 {
            let px = tile_pixel(ppu, s, tx, fx);
            let screen_col = tx * 8 + fx;
            let scol = if s.hflip { s.width - 1 - screen_col } else { screen_col };
            lemma_fetch_pixel_bound(ppu, s.base_tile, scol as u16, s.srow);
            let pal = s.palette as int;
            let v = 128 + pal * 16 + px;
            assert(v / 16 == 8 + pal && v % 16 != 0 && v <= 255) by (nonlinear_arith)
                requires
                    v == 128 + pal * 16 + px,
                    0 <= pal <= 7,
                    1 <= px <= 15,
            ;
            assert(r[c] == obj_pixel(s, px));
        }
    }
}

proof fn lemma_tiles_fold_ok(ppu: &Ppu, s: SpriteLine, tx: int, out: Seq<ObjPixel>, slivers: int)
    requires
        obj_line_ok(out),
        s.priority <= 3,
        s.palette <= 7,
    ensures
        obj_line_ok(tiles_fold(ppu, s, tx, out, slivers).0),
    decreases tx,
{
    if tx > 0 {
        lemma_tiles_fold_ok(ppu, s, tx - 1, out, slivers);
        let prev = tiles_fold(ppu, s, tx - 1, out, slivers);
        lemma_draw_tile_ok(ppu, s, tx - 1, prev.0, 8);
    }
}

proof fn lemma_sprites_fold_ok(ppu: &Ppu, line: u16, list: Seq<usize>, j: int, out: Seq<ObjPixel>, slivers: int)
    requires
        obj_line_ok(out),
    ensures
        obj_line_ok(sprites_fold(ppu, line, list, j, out, slivers).0),
    decreases j,
{
    if j > 0 {
        lemma_sprites_fold_ok(ppu, line, list, j - 1, out, slivers);
        let prev = sprites_fold(ppu, line, list, j - 1, out, slivers);
        let s = spec_sprite_line(ppu, line, list[list.len() - j]);
        lemma_sprite_line_attrs(ppu, line, list[list.len() - j]);
        lemma_tiles_fold_ok(ppu, s, (s.width / 8) as int, prev.0, prev.1);
    }
}

/// Evaluating the sprites of a line writes 256 pixels, each either clear or
/// an opaque pixel of an OBJ palette (colour 128 + 16 * palette + a
/// non-zero index, priority 0-3), and it only ever raises the range-over
/// and time-over flags, leaving the rest of the PPU as it was.
pub proof fn law_obj_line_pixels(ppu: Ppu, line: u16)
    ensures
        obj_line_ok(spec_obj_fold(&ppu, line).0),
        ppu.obj_range_over ==> obj_evaluated(ppu, line).obj_range_over,
        ppu.obj_time_over ==> obj_evaluated(ppu, line).obj_time_over,
        obj_evaluated(ppu, line) == (Ppu {
            obj_range_over: obj_evaluated(ppu, line).obj_range_over,
            obj_time_over: obj_evaluated(ppu, line).obj_time_over,
            ..ppu
        }),
{
    assert(obj_line_ok(clear_line()));
    let list = spec_range_list(&ppu, line);
    lemma_sprites_fold_ok(&ppu, line, list, list.len() as int, clear_line(), 0);
}

} // verus!
