//! Windows W1/W2: per-layer enable/invert, OR/AND/XOR/XNOR combination, and
//! the color-math window regions of CGWSEL. Pure column tests the compositor
//! calls. Layer indices: 0=BG1..3=BG4, 4=OBJ, 5=Color.

use super::Ppu;
use vstd::prelude::*;

verus! {

pub const W_BG1: usize = 0;

pub const W_OBJ: usize = 4;

pub const W_COLOR: usize = 5;

/// The 4-bit select field of `layer` (W12SEL/W34SEL/WOBJSEL): bit0 W1
/// invert, bit1 W1 enable, bit2 W2 invert, bit3 W2 enable.
pub open spec fn spec_sel_bits(ppu: &Ppu, layer: usize) -> u8 {
    if layer == 0 {
        ppu.w12sel & 0x0F
    } else if layer == 1 {
        (ppu.w12sel >> 4u8) & 0x0F
    } else if layer == 2 {
        ppu.w34sel & 0x0F
    } else if layer == 3 {
        (ppu.w34sel >> 4u8) & 0x0F
    } else if layer == 4 {
        ppu.wobjsel & 0x0F
    } else {
        (ppu.wobjsel >> 4u8) & 0x0F
    }
}

/// The combine op of `layer` (0=OR, 1=AND, 2=XOR, 3=XNOR) from WBGLOG/WOBJLOG.
pub open spec fn spec_win_logic(ppu: &Ppu, layer: usize) -> u8 {
    if layer == 0 {
        ppu.wbglog & 0x03
    } else if layer == 1 {
        (ppu.wbglog >> 2u8) & 0x03
    } else if layer == 2 {
        (ppu.wbglog >> 4u8) & 0x03
    } else if layer == 3 {
        (ppu.wbglog >> 6u8) & 0x03
    } else if layer == 4 {
        ppu.wobjlog & 0x03
    } else {
        (ppu.wobjlog >> 2u8) & 0x03
    }
}

/// Column `x` lies in the inclusive range [left, right] (empty when left > right).
pub open spec fn in_range(x: int, left: u8, right: u8) -> bool {
    left <= x <= right
}

/// Is column `x` inside the combined window area of `layer`?
pub open spec fn spec_active(ppu: &Ppu, layer: usize, x: int) -> bool {
    let bits = spec_sel_bits(ppu, layer);
    let a1 = in_range(x, ppu.w1_left, ppu.w1_right) != (bits & 0x01 != 0);
    let a2 = in_range(x, ppu.w2_left, ppu.w2_right) != (bits & 0x04 != 0);
    let w1 = bits & 0x02 != 0;
    let w2 = bits & 0x08 != 0;
    if !w1 && !w2 {
        false
    } else if w1 && !w2 {
        a1
    } else if !w1 && w2 {
        a2
    } else {
        let op = spec_win_logic(ppu, layer);
        if op == 0 {
            a1 || a2
        } else if op == 1 {
            a1 && a2
        } else if op == 2 {
            a1 != a2
        } else {
            a1 == a2
        }
    }
}

/// CGWSEL region select (0=never, 1=outside the color window, 2=inside, 3=always).
pub open spec fn spec_region(mode: u8, inside: bool) -> bool {
    let m = mode & 0x03;
    if m == 0 {
        false
    } else if m == 1 {
        !inside
    } else if m == 2 {
        inside
    } else {
        true
    }
}

/// CGWSEL bits7-6 at column `x`.
pub open spec fn spec_force_black(ppu: &Ppu, x: int) -> bool {
    spec_region((ppu.cgwsel >> 6u8) & 0x03, spec_active(ppu, W_COLOR, x))
}

/// CGWSEL bits5-4 at column `x`.
pub open spec fn spec_prevent_math(ppu: &Ppu, x: int) -> bool {
    spec_region((ppu.cgwsel >> 4u8) & 0x03, spec_active(ppu, W_COLOR, x))
}

fn win_sel(ppu: &Ppu, layer: usize) -> (r: (bool, bool, bool, bool))
    ensures
        r.0 == (spec_sel_bits(ppu, layer) & 0x02 != 0),
        r.1 == (spec_sel_bits(ppu, layer) & 0x01 != 0),
        r.2 == (spec_sel_bits(ppu, layer) & 0x08 != 0),
        r.3 == (spec_sel_bits(ppu, layer) & 0x04 != 0),
{
    let bits = match layer {
        0 => ppu.w12sel & 0x0F,
        1 => (ppu.w12sel >> 4) & 0x0F,
        2 => ppu.w34sel & 0x0F,
        3 => (ppu.w34sel >> 4) & 0x0F,
        4 => ppu.wobjsel & 0x0F,
        _ => (ppu.wobjsel >> 4) & 0x0F,
    };
    (bits & 0x02 != 0, bits & 0x01 != 0, bits & 0x08 != 0, bits & 0x04 != 0)
}

fn win_logic(ppu: &Ppu, layer: usize) -> (r: u8)
    ensures
        r == spec_win_logic(ppu, layer),
{
    match layer {
        0 => ppu.wbglog & 0x03,
        1 => (ppu.wbglog >> 2) & 0x03,
        2 => (ppu.wbglog >> 4) & 0x03,
        3 => (ppu.wbglog >> 6) & 0x03,
        4 => ppu.wobjlog & 0x03,
        _ => (ppu.wobjlog >> 2) & 0x03,
    }
}

/// Is column `x` inside the combined window area for `layer`? The raw window
/// region; the compositor gates it by TMW/TSW before removing a pixel. The
/// column is taken as a byte (`x % 256`).
pub fn active(ppu: &Ppu, layer: usize, x: usize) -> (r: bool)
    ensures
        r == spec_active(ppu, layer, (x % 256) as int),
{
    let (w1en, w1inv, w2en, w2inv) = win_sel(ppu, layer);
    let x8 = (x % 256) as u8;
    let a1 = (x8 >= ppu.w1_left && x8 <= ppu.w1_right) ^ w1inv;
    let a2 = (x8 >= ppu.w2_left && x8 <= ppu.w2_right) ^ w2inv;
    match (w1en, w2en) {
        (false, false) => false,
        (true, false) => a1,
        (false, true) => a2,
        (true, true) => match win_logic(ppu, layer) {
            0 => a1 || a2,
            1 => a1 && a2,
            2 => a1 ^ a2,
            _ => !(a1 ^ a2),
        },
    }
}

fn region(mode: u8, inside: bool) -> (r: bool)
    ensures
        r == spec_region(mode, inside),
{
    match mode & 0x03 {
        0 => false,
        1 => !inside,
        2 => inside,
        _ => true,
    }
}

/// CGWSEL bits7-6: is the main-screen pixel at `x` forced to black?
pub fn force_black_region(ppu: &Ppu, x: usize) -> (r: bool)
    ensures
        r == spec_force_black(ppu, (x % 256) as int),
{
    region((ppu.cgwsel >> 6) & 0x03, active(ppu, W_COLOR, x))
}

/// CGWSEL bits5-4: is color math prevented at `x`?
pub fn prevent_math_region(ppu: &Ppu, x: usize) -> (r: bool)
    ensures
        r == spec_prevent_math(ppu, (x % 256) as int),
{
    region((ppu.cgwsel >> 4) & 0x03, active(ppu, W_COLOR, x))
}

/// The combined window area of a layer, column by column. Window `k`
/// covers the columns from its left to its right edge, complemented when
/// its invert bit is set. With only one window enabled the area is that
/// window's; with both, logic 0 is their union, 1 their intersection, 2 the
/// columns in exactly one of them (XOR), 3 the columns in both or in
/// neither (XNOR).
pub proof fn law_window_combination(ppu: &Ppu, layer: usize, x: int)
    ensures
        ({
            let sel = spec_sel_bits(ppu, layer);
            let a1 = (ppu.w1_left <= x && x <= ppu.w1_right) != (sel & 0x01 != 0);
            let a2 = (ppu.w2_left <= x && x <= ppu.w2_right) != (sel & 0x04 != 0);
            let w1 = sel & 0x02 != 0;
            let w2 = sel & 0x08 != 0;
            let op = spec_win_logic(ppu, layer);
            &&& !w1 && !w2 ==> !spec_active(ppu, layer, x)
            &&& w1 && !w2 ==> spec_active(ppu, layer, x) == a1
            &&& !w1 && w2 ==> spec_active(ppu, layer, x) == a2
            &&& w1 && w2 && op == 0 ==> spec_active(ppu, layer, x) == (a1 || a2)
            &&& w1 && w2 && op == 1 ==> spec_active(ppu, layer, x) == (a1 && a2)
            &&& w1 && w2 && op == 2 ==> (spec_active(ppu, layer, x) <==> (a1 && !a2) || (!a1 && a2))
            &&& w1 && w2 && op == 3 ==> (spec_active(ppu, layer, x) <==> (a1 && a2) || (!a1 && !a2))
        }),
{
}

/// A window that is not enabled for a layer never covers it: with both
/// enable bits of the layer clear, no column is inside.
pub proof fn law_disabled_window_is_empty(ppu: &Ppu, layer: usize, x: int)
    requires
        spec_sel_bits(ppu, layer) & 0x0A == 0,
    ensures
        !spec_active(ppu, layer, x),
{
    let b = spec_sel_bits(ppu, layer);
    crate::bits::lemma_u8_bits();
    assert(b & 0x0A == 0 ==> (b & 0x02 == 0 && b & 0x08 == 0));
}

/// Inverting a single enabled window complements its area: column by column
/// the inverted window covers exactly what the plain one leaves out.
pub proof fn law_invert_complements(ppu: &Ppu, inverted: &Ppu, layer: usize, x: int)
    requires
        spec_sel_bits(ppu, layer) == 0x02,
        spec_sel_bits(inverted, layer) == 0x03,
        ppu.w1_left == inverted.w1_left,
        ppu.w1_right == inverted.w1_right,
    ensures
        spec_active(inverted, layer, x) == !spec_active(ppu, layer, x),
{
    crate::bits::lemma_u8_bits();
}

/// A window whose left edge lies right of its right edge covers no column:
/// with only W1 enabled and not inverted, nothing is inside.
pub proof fn law_reversed_window_is_empty(ppu: &Ppu, layer: usize, x: int)
    requires
        spec_sel_bits(ppu, layer) == 0x02,
        ppu.w1_left > ppu.w1_right,
    ensures
        !spec_active(ppu, layer, x),
{
    crate::bits::lemma_u8_bits();
}

} // verus!
