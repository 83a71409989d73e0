//! Scanline compositor: builds the main and sub screen candidate pixels
//! independently (per-mode priority order, per-layer window masks), then
//! applies color math, master brightness and forced blank, writing BGR555
//! into `ppu.framebuffer`.
//!
//! Hires output (true hires modes 5/6, or pseudo-hires $2133 bit3 in a low-res
//! mode) produces 512 half-dots: the subscreen occupies the left/even
//! half-dots and the main screen the right/odd ones. The two half-dots per
//! screen column are averaged into the 256-wide framebuffer.

use super::window::{
    active, force_black_region, prevent_math_region, spec_active, spec_force_black,
    spec_prevent_math, W_OBJ,
};
use super::background::{render_bg_line, spec_bg_pixel};
use super::mode7::{render_mode7_line, spec_mode7_pixel};
use super::sprites::{obj_evaluated, render_obj_line, spec_obj_fold};
use super::{layer_clear, obj_clear, LayerPixel, ObjPixel, Ppu};
use crate::frame::FrameBuffer;
use vstd::prelude::*;

verus! {

/// A layer slot in a priority order: an OBJ priority class or a BG at a given
/// tilemap-priority bit.
#[derive(Clone, Copy, PartialEq, Eq, Debug, Structural)]
pub enum Src {
    /// OBJ pixels whose priority equals this value.
    Obj(u8),
    /// BG `index` (0 = BG1) pixels whose tilemap priority bit equals `prio`.
    Bg(usize, u8),
}

/// The front-to-back priority orders of the BG modes.
#[derive(Clone, Copy, PartialEq, Eq, Debug, Structural)]
pub enum PriorityOrder {
    /// Mode 0: S3 1H 2H S2 1L 2L S1 3H 4H S0 3L 4L.
    Mode0,
    /// Mode 1: S3 1H 2H S2 1L 2L S1 3H S0 3L.
    Mode1,
    /// Mode 1 with BG3 priority: 3H S3 1H 2H S2 1L 2L S1 S0 3L.
    Mode1Bg3,
    /// Modes 2-5: S3 1H S2 2H S1 1L S0 2L.
    Mode2345,
    /// Mode 6: S3 1H S2 S1 1L S0.
    Mode6,
    /// Mode 7: S3 S2 S1 1 S0.
    Mode7,
    /// Mode 7 with EXTBG: S3 S2 2H S1 1 S0 2L.
    Mode7Extbg,
}

/// The slots of an order, front first.
pub open spec fn order_slots(order: PriorityOrder) -> Seq<Src> {
    match order {
        PriorityOrder::Mode0 => seq![
            Src::Obj(3), Src::Bg(0, 1), Src::Bg(1, 1), Src::Obj(2), Src::Bg(0, 0), Src::Bg(1, 0),
            Src::Obj(1), Src::Bg(2, 1), Src::Bg(3, 1), Src::Obj(0), Src::Bg(2, 0), Src::Bg(3, 0),
        ],
        PriorityOrder::Mode1 => seq![
            Src::Obj(3), Src::Bg(0, 1), Src::Bg(1, 1), Src::Obj(2), Src::Bg(0, 0), Src::Bg(1, 0),
            Src::Obj(1), Src::Bg(2, 1), Src::Obj(0), Src::Bg(2, 0),
        ],
        PriorityOrder::Mode1Bg3 => seq![
            Src::Bg(2, 1), Src::Obj(3), Src::Bg(0, 1), Src::Bg(1, 1), Src::Obj(2), Src::Bg(0, 0),
            Src::Bg(1, 0), Src::Obj(1), Src::Obj(0), Src::Bg(2, 0),
        ],
        PriorityOrder::Mode2345 => seq![
            Src::Obj(3), Src::Bg(0, 1), Src::Obj(2), Src::Bg(1, 1), Src::Obj(1), Src::Bg(0, 0),
            Src::Obj(0), Src::Bg(1, 0),
        ],
        PriorityOrder::Mode6 => seq![
            Src::Obj(3), Src::Bg(0, 1), Src::Obj(2), Src::Obj(1), Src::Bg(0, 0), Src::Obj(0),
        ],
        PriorityOrder::Mode7 => seq![
            Src::Obj(3), Src::Obj(2), Src::Obj(1), Src::Bg(0, 0), Src::Bg(0, 1), Src::Obj(0),
        ],
        PriorityOrder::Mode7Extbg => seq![
            Src::Obj(3), Src::Obj(2), Src::Bg(1, 1), Src::Obj(1), Src::Bg(0, 0), Src::Bg(0, 1),
            Src::Obj(0), Src::Bg(1, 0),
        ],
    }
}

/// The order of BG mode `mode`.
pub open spec fn spec_priority_order(mode: u8, bg3_priority: bool, extbg: bool) -> PriorityOrder {
    if mode == 0 {
        PriorityOrder::Mode0
    } else if mode == 1 {
        if bg3_priority {
            PriorityOrder::Mode1Bg3
        } else {
            PriorityOrder::Mode1
        }
    } else if 2 <= mode <= 5 {
        PriorityOrder::Mode2345
    } else if mode == 6 {
        PriorityOrder::Mode6
    } else if extbg {
        PriorityOrder::Mode7Extbg
    } else {
        PriorityOrder::Mode7
    }
}

/// The order of BG mode `mode` (BGMODE bit3 lifts BG3 in mode 1; EXTBG adds
/// BG2 in mode 7).
pub fn priority_order(mode: u8, bg3_priority: bool, extbg: bool) -> (r: PriorityOrder)
    ensures
        r == spec_priority_order(mode, bg3_priority, extbg),
{
    match mode {
        0 => PriorityOrder::Mode0,
        1 => if bg3_priority {
            PriorityOrder::Mode1Bg3
        } else {
            PriorityOrder::Mode1
        },
        2 | 3 | 4 | 5 => PriorityOrder::Mode2345,
        6 => PriorityOrder::Mode6,
        _ => if extbg {
            PriorityOrder::Mode7Extbg
        } else {
            PriorityOrder::Mode7
        },
    }
}

impl PriorityOrder {
    /// Number of slots.
    pub fn len(self) -> (n: usize)
        ensures
            n == order_slots(self).len(),
    {
        match self {
            PriorityOrder::Mode0 => 12,
            PriorityOrder::Mode1 => 10,
            PriorityOrder::Mode1Bg3 => 10,
            PriorityOrder::Mode2345 => 8,
            PriorityOrder::Mode6 => 6,
            PriorityOrder::Mode7 => 6,
            PriorityOrder::Mode7Extbg => 8,
        }
    }

    /// Slot `i`, front first.
    pub fn slot(self, i: usize) -> (s: Src)
        requires
            i < order_slots(self).len(),
        ensures
            s == order_slots(self)[i as int],
    {
        match self {
            PriorityOrder::Mode0 => match i {
                0 => Src::Obj(3),
                1 => Src::Bg(0, 1),
                2 => Src::Bg(1, 1),
                3 => Src::Obj(2),
                4 => Src::Bg(0, 0),
                5 => Src::Bg(1, 0),
                6 => Src::Obj(1),
                7 => Src::Bg(2, 1),
                8 => Src::Bg(3, 1),
                9 => Src::Obj(0),
                10 => Src::Bg(2, 0),
                _ => Src::Bg(3, 0),
            },
            PriorityOrder::Mode1 => match i {
                0 => Src::Obj(3),
                1 => Src::Bg(0, 1),
                2 => Src::Bg(1, 1),
                3 => Src::Obj(2),
                4 => Src::Bg(0, 0),
                5 => Src::Bg(1, 0),
                6 => Src::Obj(1),
                7 => Src::Bg(2, 1),
                8 => Src::Obj(0),
                _ => Src::Bg(2, 0),
            },
            PriorityOrder::Mode1Bg3 => match i {
                0 => Src::Bg(2, 1),
                1 => Src::Obj(3),
                2 => Src::Bg(0, 1),
                3 => Src::Bg(1, 1),
                4 => Src::Obj(2),
                5 => Src::Bg(0, 0),
                6 => Src::Bg(1, 0),
                7 => Src::Obj(1),
                8 => Src::Obj(0),
                _ => Src::Bg(2, 0),
            },
            PriorityOrder::Mode2345 => match i {
                0 => Src::Obj(3),
                1 => Src::Bg(0, 1),
                2 => Src::Obj(2),
                3 => Src::Bg(1, 1),
                4 => Src::Obj(1),
                5 => Src::Bg(0, 0),
                6 => Src::Obj(0),
                _ => Src::Bg(1, 0),
            },
            PriorityOrder::Mode6 => match i {
                0 => Src::Obj(3),
                1 => Src::Bg(0, 1),
                2 => Src::Obj(2),
                3 => Src::Obj(1),
                4 => Src::Bg(0, 0),
                _ => Src::Obj(0),
            },
            PriorityOrder::Mode7 => match i {
                0 => Src::Obj(3),
                1 => Src::Obj(2),
                2 => Src::Obj(1),
                3 => Src::Bg(0, 0),
                4 => Src::Bg(0, 1),
                _ => Src::Obj(0),
            },
            PriorityOrder::Mode7Extbg => match i {
                0 => Src::Obj(3),
                1 => Src::Obj(2),
                2 => Src::Bg(1, 1),
                3 => Src::Obj(1),
                4 => Src::Bg(0, 0),
                5 => Src::Bg(0, 1),
                6 => Src::Obj(0),
                _ => Src::Bg(1, 0),
            },
        }
    }
}

/// A resolved topmost pixel for one screen.
#[derive(Clone, Copy, PartialEq, Eq, Debug, Structural)]
pub struct Resolved {
    /// CGRAM index (palette base folded in), or the 8bpp value for BG1 direct color.
    pub idx: u8,
    /// CGADSUB bit index: 0-3 = BG1-4, 4 = OBJ, 5 = backdrop.
    pub math_bit: u8,
    /// OBJ palette 0-7 (color math only applies to OBJ palettes 4-7).
    pub obj_pal: u8,
}

/// What slot `slot` shows at column `x`, if its layer is enabled, not masked
/// by its window there, and holds an opaque pixel of the slot's priority.
pub open spec fn slot_hit(
    ppu: &Ppu,
    slot: Src,
    bgs: spec_fn(int, int) -> LayerPixel,
    obj: spec_fn(int) -> ObjPixel,
    enables: u8,
    win_enables: u8,
    x: int,
) -> Option<Resolved> {
    match slot {
        Src::Obj(p) => {
            let px = obj(x);
            if enables & 0x10 != 0 && !(win_enables & 0x10 != 0 && spec_active(ppu, W_OBJ, x))
                && px.opaque && px.priority == p {
                Some(Resolved { idx: px.color, math_bit: 4, obj_pal: px.palette })
            } else {
                None
            }
        },
        Src::Bg(i, prio) => {
            let px = bgs(i as int, x);
            if enables & (1u8 << i as u8) != 0 && !(win_enables & (1u8 << i as u8) != 0 && spec_active(
                ppu,
                i,
                x,
            )) && px.opaque && px.priority == prio {
                Some(Resolved { idx: px.color, math_bit: i as u8, obj_pal: 0 })
            } else {
                None
            }
        },
    }
}

/// The first hit among the slots from `i` on.
pub open spec fn resolve_from(
    ppu: &Ppu,
    slots: Seq<Src>,
    i: int,
    bgs: spec_fn(int, int) -> LayerPixel,
    obj: spec_fn(int) -> ObjPixel,
    enables: u8,
    win_enables: u8,
    x: int,
) -> Option<Resolved>
    decreases slots.len() - i,
{
    if i >= slots.len() || i < 0 {
        None
    } else {
        match slot_hit(ppu, slots[i], bgs, obj, enables, win_enables, x) {
            Some(r) => Some(r),
            None => resolve_from(ppu, slots, i + 1, bgs, obj, enables, win_enables, x),
        }
    }
}

/// The layer pixels held in four line buffers, transparent elsewhere.
pub open spec fn layers_of(bgs: [[LayerPixel; 256]; 4]) -> spec_fn(int, int) -> LayerPixel {
    |i: int, x: int|
        if 0 <= i < 4 && 0 <= x < 256 {
            bgs@[i]@[x]
        } else {
            layer_clear()
        }
}

/// The OBJ pixels held in a line buffer, transparent elsewhere.
pub open spec fn objs_of(obj: [ObjPixel; 256]) -> spec_fn(int) -> ObjPixel {
    |x: int|
        if 0 <= x < 256 {
            obj@[x]
        } else {
            obj_clear()
        }
}

/// The topmost visible pixel of one screen at column `x`.
pub open spec fn spec_resolve_screen(
    ppu: &Ppu,
    order: PriorityOrder,
    bgs: spec_fn(int, int) -> LayerPixel,
    obj: spec_fn(int) -> ObjPixel,
    enables: u8,
    win_enables: u8,
    x: int,
) -> Option<Resolved> {
    resolve_from(ppu, order_slots(order), 0, bgs, obj, enables, win_enables, x)
}

/// Topmost visible pixel for one screen at column `x`, honoring layer enables
/// (`enables`: bit4 OBJ, bits3-0 BG4..BG1) and per-layer window masking
/// (`win_enables`: same layout, inside the window = pixel removed).
pub fn resolve_screen(
    ppu: &Ppu,
    order: PriorityOrder,
    bgs: &[[LayerPixel; 256]; 4],
    obj: &[ObjPixel; 256],
    enables: u8,
    win_enables: u8,
    x: usize,
) -> (r: Option<Resolved>)
    requires
        x < 256,
    ensures
        r == spec_resolve_screen(ppu, order, layers_of(*bgs), objs_of(*obj), enables, win_enables, x as int),
{
    let n = order.len();
    let mut i: usize = 0;
    while i < n
        invariant
            n == order_slots(order).len(),
            i <= n,
            x < 256,
            resolve_from(ppu, order_slots(order), 0, layers_of(*bgs), objs_of(*obj), enables, win_enables, x as int)
                == resolve_from(ppu, order_slots(order), i as int, layers_of(*bgs), objs_of(*obj), enables, win_enables, x as int),
        decreases n - i,
    {
        let slot = order.slot(i);
        let hit = match slot {
            Src::Obj(p) => {
                if enables & 0x10 != 0 && !(win_enables & 0x10 != 0 && active(ppu, W_OBJ, x)) {
                    let px = obj[x];
                    if px.opaque && px.priority == p {
                        Some(Resolved { idx: px.color, math_bit: 4, obj_pal: px.palette })
                    } else {
                        None
                    }
                } else {
                    None
                }
            },
            Src::Bg(bi, prio) => {
                if bi < 4 && enables & (1u8 << (bi as u8)) != 0 && !(win_enables & (1u8 << (bi as u8))
                    != 0 && active(ppu, bi, x)) {
                    let px = bgs[bi][x];
                    if px.opaque && px.priority == prio {
                        Some(Resolved { idx: px.color, math_bit: bi as u8, obj_pal: 0 })
                    } else {
                        None
                    }
                } else {
                    None
                }
            },
        };
        proof {
            assert(order_slots(order)[i as int] == slot);
            match slot {
                Src::Bg(bi, _) => {
                    assert(bi < 4);
                },
                _ => {},
            }
            assert(hit == slot_hit(ppu, slot, layers_of(*bgs), objs_of(*obj), enables, win_enables, x as int));
        }
        if hit.is_some() {
            return hit;
        }
        i = i + 1;
    }
    None
}

/// Channel `k` (0 = red, 1 = green, 2 = blue) of a BGR555 color.
pub open spec fn channel(c: u16, k: u16) -> u16 {
    (c >> (5 * k) as u16) & 0x1F
}

/// Three 5-bit channels packed as BGR555.
pub open spec fn pack555(r: u16, g: u16, b: u16) -> u16 {
    r | (g << 5u16) | (b << 10u16)
}

/// Direct color (CGWSEL bit0): the 8bpp pixel `BBGGGRRR` as BGR555.
pub open spec fn spec_direct_color(idx: u8) -> u16 {
    pack555(((idx & 0x07) as u16) << 2u16, (((idx >> 3u8) & 0x07) as u16) << 2u16, (((idx >> 6u8) & 0x03) as u16) << 3u16)
}

/// The BGR555 color of a resolved pixel: direct color for BG1 in modes 3/4/7
/// when CGWSEL bit0 is set, else its CGRAM entry.
pub open spec fn spec_resolve_color(ppu: &Ppu, r: Resolved) -> u16 {
    if r.math_bit == 0 && ppu.cgwsel & 0x01 != 0 && (ppu.bg_mode == 3 || ppu.bg_mode == 4 || ppu.bg_mode == 7) {
        spec_direct_color(r.idx)
    } else {
        ppu.cgram@[r.idx as int]
    }
}

/// COLDATA fixed color (also the subscreen backdrop).
pub open spec fn spec_fixed_color(ppu: &Ppu) -> u16 {
    pack555(ppu.coldata_r as u16, ppu.coldata_g as u16, ppu.coldata_b as u16)
}

/// One 5-bit color-math channel: add saturates at 31, subtract clamps at 0,
/// and half halves the unclamped result (add + half is the true average).
pub open spec fn spec_cmath_channel(a: int, b: int, subtract: bool, half: bool) -> int {
    let sum = if subtract {
        if a >= b { a - b } else { 0 }
    } else {
        a + b
    };
    if half {
        sum / 2
    } else if sum > 31 {
        31
    } else {
        sum
    }
}

/// Color math on two BGR555 colors, channel by channel.
pub open spec fn spec_color_math(main: u16, addend: u16, subtract: bool, half: bool) -> u16 {
    pack555(
        spec_cmath_channel(channel(main, 0) as int, channel(addend, 0) as int, subtract, half) as u16,
        spec_cmath_channel(channel(main, 1) as int, channel(addend, 1) as int, subtract, half) as u16,
        spec_cmath_channel(channel(main, 2) as int, channel(addend, 2) as int, subtract, half) as u16,
    )
}

/// Color math on one 5-bit channel, over every pair of channel values:
/// adding saturates at 31; subtracting is exact when the main channel is
/// the larger (adding the subtrahend back gives the main channel) and
/// clamps at 0 otherwise; only the half flag halves, rounding down, the
/// same sum or difference.
pub proof fn law_color_math_channel(a: int, b: int)
    requires
        0 <= a < 32,
        0 <= b < 32,
    ensures
        a >= b ==> spec_cmath_channel(a, b, true, false) + b == a,
        a < b ==> spec_cmath_channel(a, b, true, false) == 0,
        a + b <= 31 ==> spec_cmath_channel(a, b, false, false) == a + b,
        a + b > 31 ==> spec_cmath_channel(a, b, false, false) == 31,
        2 * spec_cmath_channel(a, b, false, true) <= a + b < 2 * spec_cmath_channel(a, b, false, true) + 2,
        a >= b ==> 2 * spec_cmath_channel(a, b, true, true) <= a - b < 2 * spec_cmath_channel(a, b, true, true) + 2,
        a < b ==> spec_cmath_channel(a, b, true, true) == 0,
        0 <= spec_cmath_channel(a, b, true, false) <= 31,
        0 <= spec_cmath_channel(a, b, false, false) <= 31,
{
}

/// Master brightness on one 5-bit channel: 0 is black, N = 1..15 scales by
/// (N+1)/16.
pub open spec fn spec_scale_channel(c: int, brightness: u8) -> int {
    if brightness == 0 {
        0
    } else {
        c * (brightness + 1) / 16
    }
}

/// Master brightness on a BGR555 color.
pub open spec fn spec_apply_brightness(color: u16, brightness: u8) -> u16 {
    pack555(
        spec_scale_channel(channel(color, 0) as int, brightness) as u16,
        spec_scale_channel(channel(color, 1) as int, brightness) as u16,
        spec_scale_channel(channel(color, 2) as int, brightness) as u16,
    )
}

/// Per-channel average of two BGR555 colors (rounding down).
pub open spec fn spec_average(a: u16, b: u16) -> u16 {
    pack555(
        ((channel(a, 0) + channel(b, 0)) / 2) as u16,
        ((channel(a, 1) + channel(b, 1)) / 2) as u16,
        ((channel(a, 2) + channel(b, 2)) / 2) as u16,
    )
}

proof fn lemma_channels(c: u16)
    ensures
        channel(c, 0) == c & 0x1F,
        channel(c, 1) == (c >> 5u16) & 0x1F,
        channel(c, 2) == (c >> 10u16) & 0x1F,
        c & 0x1F < 32,
        (c >> 5u16) & 0x1F < 32,
        (c >> 10u16) & 0x1F < 32,
{
    crate::bits::lemma_u16_bits();
    assert(c >> 0u16 == c);
    assert(c & 0x1F < 32 && (c >> 5u16) & 0x1F < 32 && (c >> 10u16) & 0x1F < 32);
}

proof fn lemma_half(x: u16)
    ensures
        x >> 1u16 == x / 2,
{
    crate::bits::lemma_u16_bits();
    assert(x >> 1u16 == x / 2);
}

proof fn lemma_shr4(x: u16)
    ensures
        x >> 4u16 == x / 16,
{
    crate::bits::lemma_u16_bits();
    assert(x >> 4u16 == x / 16);
}

/// Direct color (CGWSEL bit0): 8bpp pixel `BBGGGRRR` as BGR555.
fn direct_color(idx: u8) -> (c: u16)
    ensures
        c == spec_direct_color(idx),
{
    let r = ((idx & 0x07) as u16) << 2;
    let g = (((idx >> 3) & 0x07) as u16) << 2;
    let b = (((idx >> 6) & 0x03) as u16) << 3;
    r | (g << 5) | (b << 10)
}

fn resolve_color(ppu: &Ppu, r: &Resolved) -> (c: u16)
    ensures
        c == spec_resolve_color(ppu, *r),
{
    if r.math_bit == 0 && ppu.cgwsel & 0x01 != 0 && (ppu.bg_mode == 3 || ppu.bg_mode == 4 || ppu.bg_mode
        == 7) {
        direct_color(r.idx)
    } else {
        ppu.cgram[r.idx as usize]
    }
}

/// COLDATA fixed color.
pub fn fixed_color(ppu: &Ppu) -> (c: u16)
    ensures
        c == spec_fixed_color(ppu),
{
    (ppu.coldata_r as u16) | ((ppu.coldata_g as u16) << 5) | ((ppu.coldata_b as u16) << 10)
}

/// One 5-bit color-math channel.
pub fn cmath_channel(a: u16, b: u16, subtract: bool, half: bool) -> (r: u16)
    requires
        a < 32,
        b < 32,
    ensures
        r == spec_cmath_channel(a as int, b as int, subtract, half),
        r < 32,
{
    let sum = if subtract {
        a.saturating_sub(b)
    } else {
        a + b
    };
    if half {
        proof {
            lemma_half(sum);
        }
        sum >> 1
    } else if sum > 31 {
        31
    } else {
        sum
    }
}

/// Color math on packed BGR555 colors.
pub fn color_math(main: u16, addend: u16, subtract: bool, half: bool) -> (c: u16)
    ensures
        c == spec_color_math(main, addend, subtract, half),
{
    proof {
        lemma_channels(main);
        lemma_channels(addend);
    }
    let r = cmath_channel(main & 0x1F, addend & 0x1F, subtract, half);
    let g = cmath_channel((main >> 5) & 0x1F, (addend >> 5) & 0x1F, subtract, half);
    let b = cmath_channel((main >> 10) & 0x1F, (addend >> 10) & 0x1F, subtract, half);
    r | (g << 5) | (b << 10)
}

/// Master brightness on one 5-bit channel.
pub fn scale_channel(c: u16, brightness: u8) -> (r: u16)
    requires
        c < 32,
    ensures
        r == spec_scale_channel(c as int, brightness),
{
    if brightness == 0 {
        0
    } else {
        proof {
            assert(c * (brightness as u16 + 1) <= 31 * 256) by (nonlinear_arith)
                requires
                    c < 32,
                    brightness < 256,
            ;
            lemma_shr4((c * (brightness as u16 + 1)) as u16);
        }
        (c * (brightness as u16 + 1)) >> 4
    }
}

/// Master brightness on a BGR555 color.
pub fn apply_brightness(color: u16, brightness: u8) -> (c: u16)
    ensures
        c == spec_apply_brightness(color, brightness),
{
    proof {
        lemma_channels(color);
    }
    let r = scale_channel(color & 0x1F, brightness);
    let g = scale_channel((color >> 5) & 0x1F, brightness);
    let b = scale_channel((color >> 10) & 0x1F, brightness);
    r | (g << 5) | (b << 10)
}

/// Per-channel average of two BGR555 colors.
pub fn average(a: u16, b: u16) -> (c: u16)
    ensures
        c == spec_average(a, b),
{
    proof {
        lemma_channels(a);
        lemma_channels(b);
        lemma_half(((a & 0x1F) + (b & 0x1F)) as u16);
        lemma_half((((a >> 5u16) & 0x1F) + ((b >> 5u16) & 0x1F)) as u16);
        lemma_half((((a >> 10u16) & 0x1F) + ((b >> 10u16) & 0x1F)) as u16);
    }
    let r = ((a & 0x1F) + (b & 0x1F)) >> 1;
    let g = (((a >> 5) & 0x1F) + ((b >> 5) & 0x1F)) >> 1;
    let bl = (((a >> 10) & 0x1F) + ((b >> 10) & 0x1F)) >> 1;
    r | (g << 5) | (bl << 10)
}

/// The main-screen pixel at column `x` after color math, before brightness:
/// the topmost main layer (or the CGRAM-0 backdrop, CGADSUB bit5), forced
/// black where CGWSEL bits7-6 say so; when math is enabled for that layer (OBJ
/// only from palettes 4-7) and not prevented at `x`, the addend is the topmost
/// subscreen pixel (CGWSEL bit1) or the fixed color, and half is dropped under
/// forced black or over a transparent subscreen.
pub open spec fn spec_composite_main(
    ppu: &Ppu,
    order: PriorityOrder,
    main_bgs: spec_fn(int, int) -> LayerPixel,
    sub_bgs: spec_fn(int, int) -> LayerPixel,
    obj: spec_fn(int) -> ObjPixel,
    x: int,
) -> u16 {
    let main = spec_resolve_screen(ppu, order, main_bgs, obj, ppu.main_screen, ppu.main_window, x);
    let (color0, main_bit, is_obj, obj_pal) = match main {
        Some(r) => (spec_resolve_color(ppu, r), r.math_bit, r.math_bit == 4, r.obj_pal),
        None => (ppu.cgram@[0], 5u8, false, 0u8),
    };
    let fb = spec_force_black(ppu, x);
    let main_color: u16 = if fb { 0 } else { color0 };
    let prevent = spec_prevent_math(ppu, x);
    let layer_math = ppu.cgadsub & (1u8 << main_bit) != 0;
    let obj_ok = !is_obj || obj_pal >= 4;
    if !prevent && layer_math && obj_ok {
        let use_sub = ppu.cgwsel & 0x02 != 0;
        let sub = spec_resolve_screen(ppu, order, sub_bgs, obj, ppu.sub_screen, ppu.sub_window, x);
        let (addend, sub_transparent) = if use_sub {
            match sub {
                Some(r) => (spec_resolve_color(ppu, r), false),
                None => (spec_fixed_color(ppu), true),
            }
        } else {
            (spec_fixed_color(ppu), false)
        };
        let subtract = ppu.cgadsub & 0x80 != 0;
        let half = ppu.cgadsub & 0x40 != 0 && !fb && !(use_sub && sub_transparent);
        spec_color_math(main_color, addend, subtract, half)
    } else {
        main_color
    }
}

/// The subscreen pixel of the hires left half-dot: topmost subscreen layer,
/// or the fixed color when transparent; no color math.
pub open spec fn spec_subscreen_display(
    ppu: &Ppu,
    order: PriorityOrder,
    sub_bgs: spec_fn(int, int) -> LayerPixel,
    obj: spec_fn(int) -> ObjPixel,
    x: int,
) -> u16 {
    match spec_resolve_screen(ppu, order, sub_bgs, obj, ppu.sub_screen, ppu.sub_window, x) {
        Some(r) => spec_resolve_color(ppu, r),
        None => spec_fixed_color(ppu),
    }
}

fn composite_main(
    ppu: &Ppu,
    order: PriorityOrder,
    main_bgs: &[[LayerPixel; 256]; 4],
    sub_bgs: &[[LayerPixel; 256]; 4],
    obj: &[ObjPixel; 256],
    x: usize,
) -> (c: u16)
    requires
        x < 256,
    ensures
        c == spec_composite_main(ppu, order, layers_of(*main_bgs), layers_of(*sub_bgs), objs_of(*obj), x as int),
{
    let main = resolve_screen(ppu, order, main_bgs, obj, ppu.main_screen, ppu.main_window, x);
    let (color0, main_bit, is_obj, obj_pal) = match &main {
        Some(r) => (resolve_color(ppu, r), r.math_bit, r.math_bit == 4, r.obj_pal),
        None => (ppu.cgram[0], 5u8, false, 0u8),
    };
    let fb = force_black_region(ppu, x);
    let main_color: u16 = if fb {
        0
    } else {
        color0
    };
    let prevent = prevent_math_region(ppu, x);
    proof {
        match main {
            Some(r) => {
                assert(r.math_bit < 8) by {
                    lemma_resolve_bit(ppu, order_slots(order), 0, layers_of(*main_bgs), objs_of(*obj), ppu.main_screen, ppu.main_window, x as int);
                }
            },
            None => {},
        }
    }
    let layer_math = ppu.cgadsub & (1u8 << main_bit) != 0;
    let obj_ok = !is_obj || obj_pal >= 4;
    if !prevent && layer_math && obj_ok {
        let use_sub = ppu.cgwsel & 0x02 != 0;
        let (addend, sub_transparent) = if use_sub {
            match resolve_screen(ppu, order, sub_bgs, obj, ppu.sub_screen, ppu.sub_window, x) {
                Some(r) => (resolve_color(ppu, &r), false),
                None => (fixed_color(ppu), true),
            }
        } else {
            (fixed_color(ppu), false)
        };
        let subtract = ppu.cgadsub & 0x80 != 0;
        let half = ppu.cgadsub & 0x40 != 0 && !fb && !(use_sub && sub_transparent);
        color_math(main_color, addend, subtract, half)
    } else {
        main_color
    }
}

proof fn lemma_resolve_bit(
    ppu: &Ppu,
    slots: Seq<Src>,
    i: int,
    bgs: spec_fn(int, int) -> LayerPixel,
    obj: spec_fn(int) -> ObjPixel,
    enables: u8,
    win_enables: u8,
    x: int,
)
    requires
        forall|k: int| 0 <= k < slots.len() ==> (match #[trigger] slots[k] {
            Src::Bg(b, _) => b < 4,
            Src::Obj(_) => true,
        }),
    ensures
        resolve_from(ppu, slots, i, bgs, obj, enables, win_enables, x) is Some ==> resolve_from(
            ppu,
            slots,
            i,
            bgs,
            obj,
            enables,
            win_enables,
            x,
        )->0.math_bit <= 4,
    decreases slots.len() - i,
{
    if 0 <= i < slots.len() {
        let _ = slots[i];
        lemma_resolve_bit(ppu, slots, i + 1, bgs, obj, enables, win_enables, x);
    }
}

fn subscreen_display(
    ppu: &Ppu,
    order: PriorityOrder,
    sub_bgs: &[[LayerPixel; 256]; 4],
    obj: &[ObjPixel; 256],
    x: usize,
) -> (c: u16)
    requires
        x < 256,
    ensures
        c == spec_subscreen_display(ppu, order, layers_of(*sub_bgs), objs_of(*obj), x as int),
{
    match resolve_screen(ppu, order, sub_bgs, obj, ppu.sub_screen, ppu.sub_window, x) {
        Some(r) => resolve_color(ppu, &r),
        None => fixed_color(ppu),
    }
}

// --- the scanline ------------------------------------------------------------

/// True hires (modes 5/6) or pseudo-hires in a low-res mode; mode 7 never.
pub open spec fn spec_hires_output(p: &Ppu) -> bool {
    (p.bg_mode == 5 || p.bg_mode == 6 || p.pseudo_hires) && p.bg_mode != 7
}

/// Mode 7 BG1: all 8 bits are color, 0 is transparent.
pub open spec fn m7_bg1(p: &Ppu, line: u16, x: int) -> LayerPixel {
    let v = spec_mode7_pixel(p, line as int, x);
    LayerPixel { color: v, priority: 0, opaque: v != 0 }
}

/// Mode 7 EXTBG BG2: bit7 is priority, the low 7 bits color.
pub open spec fn m7_bg2(p: &Ppu, line: u16, x: int) -> LayerPixel {
    let v = spec_mode7_pixel(p, line as int, x);
    let c = v & 0x7F;
    LayerPixel { color: c, priority: (v >> 7u8) & 1, opaque: c != 0 }
}

/// The main-screen layers of `line` (BG passes on the odd half-dot).
pub open spec fn main_layers(p: Ppu, line: u16) -> spec_fn(int, int) -> LayerPixel {
    |i: int, x: int|
        if 0 <= i < 4 && 0 <= x < 256 {
            if p.bg_mode == 7 {
                if i == 0 {
                    m7_bg1(&p, line, x)
                } else if i == 1 && p.extbg {
                    m7_bg2(&p, line, x)
                } else {
                    layer_clear()
                }
            } else {
                spec_bg_pixel(&p, i, line, 1, x)
            }
        } else {
            layer_clear()
        }
}

/// The subscreen layers of `line` in hires output (even half-dot).
pub open spec fn sub_layers(p: Ppu, line: u16) -> spec_fn(int, int) -> LayerPixel {
    |i: int, x: int|
        if 0 <= i < 4 && 0 <= x < 256 && spec_hires_output(&p) {
            spec_bg_pixel(&p, i, line, 0, x)
        } else {
            layer_clear()
        }
}

/// The OBJ line of `line`.
pub open spec fn obj_layer(ppu: Ppu, line: u16) -> spec_fn(int) -> ObjPixel {
    |x: int|
        if 0 <= x < 256 {
            spec_obj_fold(&ppu, line).0[x]
        } else {
            obj_clear()
        }
}

/// Column `x` of row `line` composed from the evaluated state `p`, its OBJ
/// line `obj` and master brightness `brightness`: in hires output the main
/// screen (with color math) and the subscreen half-dots are each scaled and
/// averaged; otherwise the main screen is scaled.
pub open spec fn spec_row_pixel(p: Ppu, obj: spec_fn(int) -> ObjPixel, brightness: u8, line: u16, x: int) -> u16 {
    let order = spec_priority_order(p.bg_mode, p.bg3_priority, p.extbg);
    if spec_hires_output(&p) {
        spec_average(
            spec_apply_brightness(
                spec_composite_main(&p, order, main_layers(p, line), sub_layers(p, line), obj, x),
                brightness,
            ),
            spec_apply_brightness(spec_subscreen_display(&p, order, sub_layers(p, line), obj, x), brightness),
        )
    } else {
        spec_apply_brightness(
            spec_composite_main(&p, order, main_layers(p, line), main_layers(p, line), obj, x),
            brightness,
        )
    }
}

/// The final BGR555 color of column `x` of visible row `line`: sprites are
/// evaluated first (setting the sticky flags), then the row is composed.
pub open spec fn spec_scanline_pixel(old: Ppu, line: u16, x: int) -> u16 {
    spec_row_pixel(obj_evaluated(old, line), obj_layer(old, line), old.brightness, line, x)
}

/// `fb` with row `row` replaced by `pixels`.
pub open spec fn row_replaced(fb: Seq<u16>, row: int, pixels: spec_fn(int) -> u16) -> Seq<u16> {
    Seq::new(
        fb.len(),
        |k: int|
            if row * 256 <= k < row * 256 + 256 {
                pixels(k - row * 256)
            } else {
                fb[k]
            },
    )
}

fn write_row(fb: &mut FrameBuffer, row: usize, pixels: &[u16; 256])
    requires
        row < 224,
    ensures
        final(fb).0@ == row_replaced(old(fb).0@, row as int, |x: int| pixels@[x]),
{
    let base = row * 256;
    let mut x: usize = 0;
    while x < 256
        invariant
            row < 224,
            base == row * 256,
            x <= 256,
            fb.0@ == row_replaced(old(fb).0@, row as int, |c: int| if c < x { pixels@[c] } else { old(fb).0@[row * 256 + c] }),
        decreases 256 - x,
    {
        fb.0[base + x] = pixels[x];
        proof {
            assert(fb.0@ =~= row_replaced(old(fb).0@, row as int, |c: int| if c < x + 1 { pixels@[c] } else { old(fb).0@[row * 256 + c] }));
        }
        x = x + 1;
    }
    assert(fb.0@ =~= row_replaced(old(fb).0@, row as int, |x: int| pixels@[x]));
}

fn mode7_layers(ppu: &Ppu, line: u16) -> (r: ([LayerPixel; 256], [LayerPixel; 256]))
    requires
        line < 224,
        ppu.bg_mode == 7,
    ensures
        forall|x: int| 0 <= x < 256 ==> r.0@[x] == main_layers(*ppu, line)(0, x),
        forall|x: int| 0 <= x < 256 ==> r.1@[x] == main_layers(*ppu, line)(1, x),
{
    let mut m7 = [0u8; 256];
    proof {
        super::mode7::lemma_visible_line_fits(ppu, line as int);
    }
    render_mode7_line(ppu, line, &mut m7);
    let mut l0 = [LayerPixel::clear(); 256];
    let mut l1 = [LayerPixel::clear(); 256];
    let mut x: usize = 0;
    while x < 256
        invariant
            x <= 256,
            line < 224,
            ppu.bg_mode == 7,
            forall|c: int| 0 <= c < 256 ==> m7@[c] == spec_mode7_pixel(ppu, line as int, c),
            forall|c: int| 0 <= c < x ==> l0@[c] == main_layers(*ppu, line)(0, c),
            forall|c: int| 0 <= c < x ==> l1@[c] == main_layers(*ppu, line)(1, c),
            forall|c: int| x <= c < 256 ==> l1@[c] == layer_clear(),
        decreases 256 - x,
    {
        let v = m7[x];
        l0[x] = LayerPixel { color: v, priority: 0, opaque: v != 0 };
        if ppu.extbg {
            let c = v & 0x7F;
            l1[x] = LayerPixel { color: c, priority: (v >> 7) & 1, opaque: c != 0 };
        }
        x = x + 1;
    }
    (l0, l1)
}

fn bg_layers(ppu: &Ppu, line: u16, phase: u32) -> (r: [[LayerPixel; 256]; 4])
    requires
        phase < 2,
    ensures
        forall|i: int, x: int| 0 <= i < 4 && 0 <= x < 256 ==> r@[i]@[x] == spec_bg_pixel(ppu, i, line, phase, x),
{
    let mut bgs = [[LayerPixel::clear(); 256]; 4];
    let mut i: usize = 0;
    while i < 4
        invariant
            i <= 4,
            phase < 2,
            forall|k: int, x: int| 0 <= k < i && 0 <= x < 256 ==> bgs@[k]@[x] == spec_bg_pixel(ppu, k, line, phase, x),
        decreases 4 - i,
    {
        let mut t = [LayerPixel::clear(); 256];
        render_bg_line(ppu, i, line, phase, &mut t);
        bgs[i] = t;
        i = i + 1;
    }
    bgs
}

fn compose_row(ppu: &Ppu, line: u16, obj: &[ObjPixel; 256], brightness: u8) -> (r: [u16; 256])
    requires
        line < 224,
    ensures
        forall|x: int| 0 <= x < 256 ==> r@[x] == spec_row_pixel(*ppu, objs_of(*obj), brightness, line, x),
{
    let hires_output = (ppu.bg_mode == 5 || ppu.bg_mode == 6 || ppu.pseudo_hires) && ppu.bg_mode != 7;
    let mut bgs_main = [[LayerPixel::clear(); 256]; 4];
    let mut bgs_sub = [[LayerPixel::clear(); 256]; 4];
    if ppu.bg_mode == 7 {
        let (l0, l1) = mode7_layers(ppu, line);
        bgs_main[0] = l0;
        bgs_main[1] = l1;
    } else {
        bgs_main = bg_layers(ppu, line, 1);
        if hires_output {
            bgs_sub = bg_layers(ppu, line, 0);
        }
    }
    proof {
        assert(layers_of(bgs_main) =~= main_layers(*ppu, line));
        assert(layers_of(bgs_sub) =~= sub_layers(*ppu, line));
    }
    let order = priority_order(ppu.bg_mode, ppu.bg3_priority, ppu.extbg);
    let mut pixels = [0u16; 256];
    let mut x: usize = 0;
    while x < 256
        invariant
            x <= 256,
            hires_output == spec_hires_output(ppu),
            order == spec_priority_order(ppu.bg_mode, ppu.bg3_priority, ppu.extbg),
            layers_of(bgs_main) == main_layers(*ppu, line),
            layers_of(bgs_sub) == sub_layers(*ppu, line),
            forall|c: int| 0 <= c < x ==> pixels@[c] == spec_row_pixel(*ppu, objs_of(*obj), brightness, line, c),
        decreases 256 - x,
    {
        let v = if hires_output {
            let main_c = composite_main(ppu, order, &bgs_main, &bgs_sub, obj, x);
            let sub_c = subscreen_display(ppu, order, &bgs_sub, obj, x);
            average(apply_brightness(main_c, brightness), apply_brightness(sub_c, brightness))
        } else {
            let out = composite_main(ppu, order, &bgs_main, &bgs_main, obj, x);
            apply_brightness(out, brightness)
        };
        pixels[x] = v;
        x = x + 1;
    }
    pixels
}

fn render_visible(ppu: &mut Ppu, line: u16)
    requires
        line < 224,
        old(ppu).obj_name_base <= 0xF00F,
    ensures
        *final(ppu) == (Ppu { framebuffer: final(ppu).framebuffer, ..obj_evaluated(*old(ppu), line) }),
        final(ppu).framebuffer.0@ == row_replaced(
            old(ppu).framebuffer.0@,
            line as int,
            |x: int| spec_scanline_pixel(*old(ppu), line, x),
        ),
{
    let brightness = ppu.brightness;
    let mut obj = [ObjPixel::clear(); 256];
    render_obj_line(ppu, line, &mut obj);
    proof {
        assert(objs_of(obj) =~= obj_layer(*old(ppu), line));
    }
    let pixels = compose_row(ppu, line, &obj, brightness);
    write_row(&mut ppu.framebuffer, line as usize, &pixels);
    proof {
        assert(ppu.framebuffer.0@ =~= row_replaced(
            old(ppu).framebuffer.0@,
            line as int,
            |x: int| spec_scanline_pixel(*old(ppu), line, x),
        ));
    }
}

/// Composite one visible scanline (`line` = row 0..=223) into
/// `ppu.framebuffer`; rows past the screen are ignored and forced blank
/// writes a black row.
pub fn render_scanline(ppu: &mut Ppu, line: u16)
    requires
        old(ppu).obj_name_base <= 0xF00F,
    ensures
        line >= 224 ==> *final(ppu) == *old(ppu),
        line < 224 && old(ppu).forced_blank ==> *final(ppu) == (Ppu { framebuffer: final(ppu).framebuffer, ..*old(ppu) })
            && final(ppu).framebuffer.0@ == row_replaced(old(ppu).framebuffer.0@, line as int, |x: int| 0u16),
        line < 224 && !old(ppu).forced_blank ==> *final(ppu) == (Ppu {
            framebuffer: final(ppu).framebuffer,
            ..obj_evaluated(*old(ppu), line)
        }) && final(ppu).framebuffer.0@ == row_replaced(
            old(ppu).framebuffer.0@,
            line as int,
            |x: int| spec_scanline_pixel(*old(ppu), line, x),
        ),
{
    if line >= 224 {
        return ;
    }
    if ppu.forced_blank {
        let zeros = [0u16; 256];
        write_row(&mut ppu.framebuffer, line as usize, &zeros);
        proof {
            assert(ppu.framebuffer.0@ =~= row_replaced(old(ppu).framebuffer.0@, line as int, |x: int| 0u16));
        }
        return ;
    }
    render_visible(ppu, line);
}

impl Ppu {
    /// Render one visible scanline into `self.framebuffer` (the compositor).
    pub fn render_scanline(&mut self, line: u16)
        requires
            old(self).obj_name_base <= 0xF00F,
        ensures
            line >= 224 ==> *final(self) == *old(self),
            line < 224 && old(self).forced_blank ==> *final(self) == (Ppu {
                framebuffer: final(self).framebuffer,
                ..*old(self)
            }) && final(self).framebuffer.0@ == row_replaced(old(self).framebuffer.0@, line as int, |x: int| 0u16),
            line < 224 && !old(self).forced_blank ==> *final(self) == (Ppu {
                framebuffer: final(self).framebuffer,
                ..obj_evaluated(*old(self), line)
            }) && final(self).framebuffer.0@ == row_replaced(
                old(self).framebuffer.0@,
                line as int,
                |x: int| spec_scanline_pixel(*old(self), line, x),
            ),
    {
        render_scanline(self, line);
    }
}

} // verus!
