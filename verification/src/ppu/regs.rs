//! The CPU-facing register file: what a read or a write of $21xx does.

use super::Ppu;
use vstd::array::spec_array_update;
use vstd::prelude::*;

verus! {

/// Sign-extension of a 13-bit value (Mode 7 M7X/M7Y).
pub open spec fn spec_sign_extend_13(v: u16) -> i16 {
    let w = v & 0x1FFF;
    if w & 0x1000 != 0 {
        (w | 0xE000) as i16
    } else {
        w as i16
    }
}

/// Sign-extend a 13-bit value to i16 (Mode 7 M7X/M7Y).
pub fn sign_extend_13(v: u16) -> (r: i16)
    ensures
        r == spec_sign_extend_13(v),
{
    let w = v & 0x1FFF;
    if w & 0x1000 != 0 {
        (w | 0xE000) as i16
    } else {
        w as i16
    }
}

/// The 16-bit word a Mode 7 register pair forms: this byte high, the shared
/// latch low.
pub open spec fn m7_word(value: u8, latch: u8) -> u16 {
    (((value as u16) << 8u16) | latch as u16) as u16
}

impl Ppu {
    /// Effect and result of a CPU read of $21xx (`reg` = address & 0x3F).
    /// `None` is CPU open bus. A read that returns data refreshes the driving
    /// chip's open-bus latch (PPU1 for $2134-$213A/$213E, PPU2 for
    /// $213B-$213D/$213F).
    pub open spec fn read_effect(self, reg: u8) -> (Ppu, Option<u8>) {
        let r = reg & 0x3F;
        if r == 0x34 {
            let v = (self.spec_mpy() & 0xFF) as u8;
            (Ppu { ppu1_mdr: v, ..self }, Some(v))
        } else if r == 0x35 {
            let v = (self.spec_mpy() >> 8u32) as u8;
            (Ppu { ppu1_mdr: v, ..self }, Some(v))
        } else if r == 0x36 {
            let v = (self.spec_mpy() >> 16u32) as u8;
            (Ppu { ppu1_mdr: v, ..self }, Some(v))
        } else if r == 0x37 {
            (self.counters_latched(), None)
        } else if r == 0x38 {
            let (p, v) = self.oam_byte_read();
            (Ppu { ppu1_mdr: v, ..p }, Some(v))
        } else if r == 0x39 {
            let (p, v) = self.vram_low_read();
            (Ppu { ppu1_mdr: v, ..p }, Some(v))
        } else if r == 0x3A {
            let (p, v) = self.vram_high_read();
            (Ppu { ppu1_mdr: v, ..p }, Some(v))
        } else if r == 0x3B {
            let (p, v) = self.cgram_low_high_read();
            (Ppu { ppu2_mdr: v, ..p }, Some(v))
        } else if r == 0x3C {
            let (p, v) = self.ophct_byte_read();
            (Ppu { ppu2_mdr: v, ..p }, Some(v))
        } else if r == 0x3D {
            let (p, v) = self.opvct_byte_read();
            (Ppu { ppu2_mdr: v, ..p }, Some(v))
        } else if r == 0x3E {
            let v = self.spec_stat77();
            (Ppu { ppu1_mdr: v, ..self }, Some(v))
        } else if r == 0x3F {
            let v = self.spec_stat78();
            (Ppu { ppu2_mdr: v, ..self.stat78_cleared() }, Some(v))
        } else {
            (self, None)
        }
    }

    /// CPU read of $21xx (reg = addr & 0x3F). `None` = open bus.
    pub fn read(&mut self, reg: u8) -> (r: Option<u8>)
        ensures
            *final(self) === old(self).read_effect(reg).0,
            r == old(self).read_effect(reg).1,
    {
        match reg & 0x3F {
            0x34 => {
                let v = (self.mpy() & 0xFF) as u8;
                self.ppu1_mdr = v;
                Some(v)
            },
            0x35 => {
                let v = (self.mpy() >> 8) as u8;
                self.ppu1_mdr = v;
                Some(v)
            },
            0x36 => {
                let v = (self.mpy() >> 16) as u8;
                self.ppu1_mdr = v;
                Some(v)
            },
            0x37 => {
                self.latch_counters();
                None
            },
            0x38 => {
                let v = self.oam_read();
                self.ppu1_mdr = v;
                Some(v)
            },
            0x39 => {
                let v = self.vram_read_low();
                self.ppu1_mdr = v;
                Some(v)
            },
            0x3A => {
                let v = self.vram_read_high();
                self.ppu1_mdr = v;
                Some(v)
            },
            0x3B => {
                let v = self.cgram_read();
                self.ppu2_mdr = v;
                Some(v)
            },
            0x3C => {
                let v = self.ophct_read();
                self.ppu2_mdr = v;
                Some(v)
            },
            0x3D => {
                let v = self.opvct_read();
                self.ppu2_mdr = v;
                Some(v)
            },
            0x3E => {
                let v = self.stat77();
                self.ppu1_mdr = v;
                Some(v)
            },
            0x3F => {
                let v = self.stat78();
                self.ppu2_mdr = v;
                Some(v)
            },
            _ => None,
        }
    }

    // --- writes ------------------------------------------------------------

    /// Effect of a CPU write of `value` to $21xx (`reg` = address & 0x3F): the
    /// raw byte is kept in `regs`, then the register is decoded.
    pub open spec fn after_write(self, reg: u8, value: u8) -> Ppu {
        let r = reg & 0x3F;
        self.reg_stored(r, value).decoded_write(r, value)
    }

    /// The raw register file with `value` at `r`.
    pub open spec fn reg_stored(self, r: u8, value: u8) -> Ppu {
        Ppu { regs: spec_array_update(self.regs, r as int, value), ..self }
    }

    /// What each register does on top of being stored.
    pub open spec fn decoded_write(self, r: u8, value: u8) -> Ppu {
        if r < 0x0F {
            self.decoded_write_low(r, value)
        } else if r < 0x1B {
            self.decoded_write_mid(r, value)
        } else if r < 0x2C {
            self.decoded_write_high(r, value)
        } else {
            self.decoded_write_top(r, value)
        }
    }

    /// $2100-$210E: display, OAM address/data, BG mode, mosaic, maps, chars,
    /// BG1/Mode 7 scroll.
    pub open spec fn decoded_write_low(self, r: u8, value: u8) -> Ppu {
        if r == 0x00 {
            self.inidisp_written(value)
        } else if r == 0x01 {
            self.obsel_written(value)
        } else if r == 0x02 {
            self.oamaddl_written(value)
        } else if r == 0x03 {
            self.oamaddh_written(value)
        } else if r == 0x04 {
            self.oam_written(value)
        } else if r == 0x05 {
            self.bgmode_written(value)
        } else if r == 0x06 {
            self.mosaic_written(value)
        } else if 0x07 <= r <= 0x0A {
            self.bgsc_written((r - 0x07) as int, value)
        } else if r == 0x0B {
            self.bgnba_written(0, value)
        } else if r == 0x0C {
            self.bgnba_written(2, value)
        } else if r == 0x0D {
            self.bg_hofs_written(0, value).m7_ofs_written(true, value)
        } else {
            self.bg_vofs_written(0, value).m7_ofs_written(false, value)
        }
    }

    /// $210F-$211A: BG2-4 scroll, VRAM port, M7SEL.
    pub open spec fn decoded_write_mid(self, r: u8, value: u8) -> Ppu {
        if r == 0x0F || r == 0x11 || r == 0x13 {
            self.bg_hofs_written(((r - 0x0D) / 2) as int, value)
        } else if r == 0x10 || r == 0x12 || r == 0x14 {
            self.bg_vofs_written(((r - 0x0E) / 2) as int, value)
        } else if r == 0x15 {
            self.vmain_set(value)
        } else if r == 0x16 {
            self.vmaddl_written(value)
        } else if r == 0x17 {
            self.vmaddh_written(value)
        } else if r == 0x18 {
            self.vram_low_written(value)
        } else if r == 0x19 {
            self.vram_high_written(value)
        } else {
            self.m7sel_set(value)
        }
    }

    /// $211B-$212B: Mode 7 parameters, CGRAM port, window settings.
    pub open spec fn decoded_write_high(self, r: u8, value: u8) -> Ppu {
        if r == 0x1B {
            self.m7a_written(value)
        } else if r == 0x1C {
            self.m7b_written(value)
        } else if r == 0x1D {
            self.m7c_written(value)
        } else if r == 0x1E {
            self.m7d_written(value)
        } else if r == 0x1F {
            self.m7x_written(value)
        } else if r == 0x20 {
            self.m7y_written(value)
        } else if r == 0x21 {
            self.cgadd_written(value)
        } else if r == 0x22 {
            self.cgram_written(value)
        } else if r == 0x23 {
            self.w12sel_set(value)
        } else if r == 0x24 {
            self.w34sel_set(value)
        } else if r == 0x25 {
            self.wobjsel_set(value)
        } else if r == 0x26 {
            self.w1_left_set(value)
        } else if r == 0x27 {
            self.w1_right_set(value)
        } else if r == 0x28 {
            self.w2_left_set(value)
        } else if r == 0x29 {
            self.w2_right_set(value)
        } else if r == 0x2A {
            self.wbglog_set(value)
        } else {
            self.wobjlog_set(value)
        }
    }

    /// $212C-$213F: screen enables, color math, SETINI; the rest are
    /// read-only or unused.
    pub open spec fn decoded_write_top(self, r: u8, value: u8) -> Ppu {
        if r == 0x2C {
            self.main_screen_set(value)
        } else if r == 0x2D {
            self.sub_screen_set(value)
        } else if r == 0x2E {
            self.main_window_set(value)
        } else if r == 0x2F {
            self.sub_window_set(value)
        } else if r == 0x30 {
            self.cgwsel_set(value)
        } else if r == 0x31 {
            self.cgadsub_set(value)
        } else if r == 0x32 {
            self.coldata_written(value)
        } else if r == 0x33 {
            self.setini_written(value)
        } else {
            self
        }
    }

    /// $2115 VMAIN: stored as is.
    #[verifier::opaque]
    pub open spec fn vmain_set(self, value: u8) -> Ppu {
        Ppu { vmain: value, ..self }
    }

    /// $211A M7SEL: stored as is.
    #[verifier::opaque]
    pub open spec fn m7sel_set(self, value: u8) -> Ppu {
        Ppu { m7sel: value, ..self }
    }

    /// $2123 W12SEL: stored as is.
    #[verifier::opaque]
    pub open spec fn w12sel_set(self, value: u8) -> Ppu {
        Ppu { w12sel: value, ..self }
    }

    /// $2124 W34SEL: stored as is.
    #[verifier::opaque]
    pub open spec fn w34sel_set(self, value: u8) -> Ppu {
        Ppu { w34sel: value, ..self }
    }

    /// $2125 WOBJSEL: stored as is.
    #[verifier::opaque]
    pub open spec fn wobjsel_set(self, value: u8) -> Ppu {
        Ppu { wobjsel: value, ..self }
    }

    /// $2126 WH0: stored as is.
    #[verifier::opaque]
    pub open spec fn w1_left_set(self, value: u8) -> Ppu {
        Ppu { w1_left: value, ..self }
    }

    /// $2127 WH1: stored as is.
    #[verifier::opaque]
    pub open spec fn w1_right_set(self, value: u8) -> Ppu {
        Ppu { w1_right: value, ..self }
    }

    /// $2128 WH2: stored as is.
    #[verifier::opaque]
    pub open spec fn w2_left_set(self, value: u8) -> Ppu {
        Ppu { w2_left: value, ..self }
    }

    /// $2129 WH3: stored as is.
    #[verifier::opaque]
    pub open spec fn w2_right_set(self, value: u8) -> Ppu {
        Ppu { w2_right: value, ..self }
    }

    /// $212A WBGLOG: stored as is.
    #[verifier::opaque]
    pub open spec fn wbglog_set(self, value: u8) -> Ppu {
        Ppu { wbglog: value, ..self }
    }

    /// $212B WOBJLOG: stored as is.
    #[verifier::opaque]
    pub open spec fn wobjlog_set(self, value: u8) -> Ppu {
        Ppu { wobjlog: value, ..self }
    }

    /// $212C TM: stored as is.
    #[verifier::opaque]
    pub open spec fn main_screen_set(self, value: u8) -> Ppu {
        Ppu { main_screen: value, ..self }
    }

    /// $212D TS: stored as is.
    #[verifier::opaque]
    pub open spec fn sub_screen_set(self, value: u8) -> Ppu {
        Ppu { sub_screen: value, ..self }
    }

    /// $212E TMW: stored as is.
    #[verifier::opaque]
    pub open spec fn main_window_set(self, value: u8) -> Ppu {
        Ppu { main_window: value, ..self }
    }

    /// $212F TSW: stored as is.
    #[verifier::opaque]
    pub open spec fn sub_window_set(self, value: u8) -> Ppu {
        Ppu { sub_window: value, ..self }
    }

    /// $2130 CGWSEL: stored as is.
    #[verifier::opaque]
    pub open spec fn cgwsel_set(self, value: u8) -> Ppu {
        Ppu { cgwsel: value, ..self }
    }

    /// $2131 CGADSUB: stored as is.
    #[verifier::opaque]
    pub open spec fn cgadsub_set(self, value: u8) -> Ppu {
        Ppu { cgadsub: value, ..self }
    }

    /// $2116 VMADDL: low byte of the word address; the prefetch reloads.
    #[verifier::opaque]
    pub open spec fn vmaddl_written(self, value: u8) -> Ppu {
        Ppu { vram_addr: ((self.vram_addr & 0xFF00) | value as u16) as u16, ..self }.vram_reloaded()
    }

    /// $2117 VMADDH: high byte of the word address; the prefetch reloads.
    #[verifier::opaque]
    pub open spec fn vmaddh_written(self, value: u8) -> Ppu {
        Ppu { vram_addr: ((self.vram_addr & 0x00FF) | ((value as u16) << 8u16)) as u16, ..self }.vram_reloaded()
    }

    /// $2121 CGADD: the color index; the byte toggle resets to low.
    #[verifier::opaque]
    pub open spec fn cgadd_written(self, value: u8) -> Ppu {
        Ppu { cgram_addr: value, cgram_hi: false, ..self }
    }

    /// $2100 INIDISP: forced blank (bit7) and master brightness (bits3-0).
    #[verifier::opaque]
    pub open spec fn inidisp_written(self, value: u8) -> Ppu {
        Ppu { forced_blank: value & 0x80 != 0, brightness: value & 0x0F, ..self }
    }

    /// $2101 OBSEL: size mode, name base and name-select gap.
    #[verifier::opaque]
    pub open spec fn obsel_written(self, value: u8) -> Ppu {
        Ppu {
            obj_size: (value >> 5u8) & 0x07,
            obj_name_base: (((value as u16) & 0x07) << 13u16) as u16,
            obj_name_gap: ((((value as u16 >> 3u16) & 0x03) + 1) as u16) << 12u16,
            ..self
        }
    }

    /// $2102 OAMADDL: low 8 bits of the reload value; the address reloads.
    #[verifier::opaque]
    pub open spec fn oamaddl_written(self, value: u8) -> Ppu {
        Ppu { oam_addr_reg: ((self.oam_addr_reg & 0x100) | value as u16) as u16, ..self }.oam_reloaded()
    }

    /// $2103 OAMADDH: bit0 = table select, bit7 = priority rotation; the
    /// address reloads.
    #[verifier::opaque]
    pub open spec fn oamaddh_written(self, value: u8) -> Ppu {
        Ppu {
            oam_addr_reg: ((self.oam_addr_reg & 0x0FF) | (((value as u16) & 0x01) << 8u16)) as u16,
            oam_priority: value & 0x80 != 0,
            ..self
        }.oam_reloaded()
    }

    /// $2105 BGMODE: mode, BG3 priority lift and the four char sizes.
    #[verifier::opaque]
    pub open spec fn bgmode_written(self, value: u8) -> Ppu {
        Ppu {
            bg_mode: value & 0x07,
            bg3_priority: value & 0x08 != 0,
            bg_tile_size: [value & 0x10 != 0, value & 0x20 != 0, value & 0x40 != 0, value & 0x80 != 0],
            ..self
        }
    }

    /// $2106 MOSAIC: size (bits7-4) and per-BG enable (bits3-0).
    #[verifier::opaque]
    pub open spec fn mosaic_written(self, value: u8) -> Ppu {
        Ppu { mosaic_size: (value >> 4u8) & 0x0F, mosaic_enable: value & 0x0F, ..self }
    }

    /// $2107-$210A BGnSC: tilemap base and size of BG `n+1`.
    #[verifier::opaque]
    pub open spec fn bgsc_written(self, n: int, value: u8) -> Ppu {
        Ppu {
            bg_map_base: spec_array_update(self.bg_map_base, n, (((value as u16) & 0xFC) << 8u16) as u16),
            bg_map_size: spec_array_update(self.bg_map_size, n, value & 0x03),
            ..self
        }
    }

    /// $210B/$210C BG12NBA/BG34NBA: char bases of BG `n+1` (low nibble) and
    /// BG `n+2` (high nibble).
    #[verifier::opaque]
    pub open spec fn bgnba_written(self, n: int, value: u8) -> Ppu {
        Ppu {
            bg_char_base: spec_array_update(
                spec_array_update(self.bg_char_base, n, (((value as u16) & 0x0F) << 12u16) as u16),
                n + 1,
                (((value as u16) >> 4u16) << 12u16) as u16,
            ),
            ..self
        }
    }

    /// BGnHOFS: this byte high, bits 7-3 of the shared latch and bits 2-0 of
    /// the HOFS-only latch low, 10 bits kept; both latches take the byte.
    #[verifier::opaque]
    pub open spec fn bg_hofs_written(self, n: int, value: u8) -> Ppu {
        Ppu {
            bg_hofs: spec_array_update(
                self.bg_hofs,
                n,
                ((((value as u16) << 8u16) | ((self.bgofs_latch as u16) & !0x07u16) | ((
                self.bghofs_latch as u16) & 0x07)) & 0x3FF) as u16,
            ),
            bgofs_latch: value,
            bghofs_latch: value,
            ..self
        }
    }

    /// BGnVOFS: this byte high, the shared latch low, 10 bits kept.
    #[verifier::opaque]
    pub open spec fn bg_vofs_written(self, n: int, value: u8) -> Ppu {
        Ppu {
            bg_vofs: spec_array_update(
                self.bg_vofs,
                n,
                ((((value as u16) << 8u16) | self.bgofs_latch as u16) & 0x3FF) as u16,
            ),
            bgofs_latch: value,
            ..self
        }
    }

    /// M7HOFS/M7VOFS: 13 bits of this byte over the Mode 7 latch.
    #[verifier::opaque]
    pub open spec fn m7_ofs_written(self, horizontal: bool, value: u8) -> Ppu {
        let v = (m7_word(value, self.mode7_latch) & 0x1FFF) as u16;
        if horizontal {
            Ppu { m7_hofs: v, mode7_latch: value, ..self }
        } else {
            Ppu { m7_vofs: v, mode7_latch: value, ..self }
        }
    }

    /// $211B M7A: matrix word over the shared Mode 7 latch.
    #[verifier::opaque]
    pub open spec fn m7a_written(self, value: u8) -> Ppu {
        Ppu { m7a: m7_word(value, self.mode7_latch) as i16, mode7_latch: value, ..self }
    }

    /// $211C M7B; its byte is also the MPY multiplier.
    #[verifier::opaque]
    pub open spec fn m7b_written(self, value: u8) -> Ppu {
        Ppu {
            m7b: m7_word(value, self.mode7_latch) as i16,
            mode7_latch: value,
            m7_mul_operand: value as i8,
            ..self
        }
    }

    /// $211D M7C.
    #[verifier::opaque]
    pub open spec fn m7c_written(self, value: u8) -> Ppu {
        Ppu { m7c: m7_word(value, self.mode7_latch) as i16, mode7_latch: value, ..self }
    }

    /// $211E M7D.
    #[verifier::opaque]
    pub open spec fn m7d_written(self, value: u8) -> Ppu {
        Ppu { m7d: m7_word(value, self.mode7_latch) as i16, mode7_latch: value, ..self }
    }

    /// $211F M7X: 13-bit signed center.
    #[verifier::opaque]
    pub open spec fn m7x_written(self, value: u8) -> Ppu {
        Ppu { m7x: spec_sign_extend_13(m7_word(value, self.mode7_latch)), mode7_latch: value, ..self }
    }

    /// $2120 M7Y: 13-bit signed center.
    #[verifier::opaque]
    pub open spec fn m7y_written(self, value: u8) -> Ppu {
        Ppu { m7y: spec_sign_extend_13(m7_word(value, self.mode7_latch)), mode7_latch: value, ..self }
    }

    /// $2132 COLDATA: bits7-5 select B/G/R; the selected channels take bits4-0.
    #[verifier::opaque]
    pub open spec fn coldata_written(self, value: u8) -> Ppu {
        let v = value & 0x1F;
        Ppu {
            coldata_r: if value & 0x20 != 0 { v } else { self.coldata_r },
            coldata_g: if value & 0x40 != 0 { v } else { self.coldata_g },
            coldata_b: if value & 0x80 != 0 { v } else { self.coldata_b },
            ..self
        }
    }

    /// $2133 SETINI.
    #[verifier::opaque]
    pub open spec fn setini_written(self, value: u8) -> Ppu {
        Ppu {
            overscan: value & 0x04 != 0,
            interlace: value & 0x01 != 0,
            obj_interlace: value & 0x02 != 0,
            pseudo_hires: value & 0x08 != 0,
            extbg: value & 0x40 != 0,
            ..self
        }
    }

    /// CPU write to $21xx (reg = addr & 0x3F).
    pub fn write(&mut self, reg: u8, value: u8)
        ensures
            *final(self) === old(self).after_write(reg, value),
    {
        let r = reg & 0x3F;
        proof {
            crate::bits::lemma_u8_bits();
            assert(r < 64);
        }
        self.store_reg(r, value);
        self.decode_write(r, value);
    }

    fn store_reg(&mut self, r: u8, value: u8)
        requires
            r < 64,
        ensures
            *final(self) === old(self).reg_stored(r, value),
    {
        self.regs[r as usize] = value;
        proof {
            assert(self.regs =~= spec_array_update(old(self).regs, r as int, value));
        }
    }

    fn decode_write(&mut self, r: u8, value: u8)
        requires
            r < 64,
        ensures
            *final(self) === old(self).decoded_write(r, value),
    {
        if r < 0x0F {
            self.decode_write_low(r, value);
        } else if r < 0x1B {
            self.decode_write_mid(r, value);
        } else if r < 0x2C {
            self.decode_write_high(r, value);
        } else {
            self.decode_write_top(r, value);
        }
    }

    fn decode_write_low(&mut self, r: u8, value: u8)
        requires
            r < 0x0F,
        ensures
            *final(self) === old(self).decoded_write_low(r, value),
    {
        match r {
            0x00 => self.write_inidisp(value),
            0x01 => self.write_obsel(value),
            0x02 => self.write_oamaddl(value),
            0x03 => self.write_oamaddh(value),
            0x04 => self.oam_write(value),
            0x05 => self.write_bgmode(value),
            0x06 => self.write_mosaic(value),
            0x07..=0x0A => self.write_bgsc((r - 0x07) as usize, value),
            0x0B => self.write_bgnba(0, value),
            0x0C => self.write_bgnba(2, value),
            0x0D => {
                self.write_bg_hofs(0, value);
                self.write_m7_ofs(true, value);
            },
            _ => {
                self.write_bg_vofs(0, value);
                self.write_m7_ofs(false, value);
            },
        }
    }

    fn decode_write_mid(&mut self, r: u8, value: u8)
        requires
            0x0F <= r < 0x1B,
        ensures
            *final(self) === old(self).decoded_write_mid(r, value),
    {
        match r {
            0x0F => self.write_bg_hofs(1, value),
            0x11 => self.write_bg_hofs(2, value),
            0x13 => self.write_bg_hofs(3, value),
            0x10 => self.write_bg_vofs(1, value),
            0x12 => self.write_bg_vofs(2, value),
            0x14 => self.write_bg_vofs(3, value),
            0x15 => self.set_vmain(value),
            0x16 => self.write_vmaddl(value),
            0x17 => self.write_vmaddh(value),
            0x18 => self.vram_write_low(value),
            0x19 => self.vram_write_high(value),
            _ => self.set_m7sel(value),
        }
    }

    fn decode_write_high(&mut self, r: u8, value: u8)
        requires
            0x1B <= r < 0x2C,
        ensures
            *final(self) === old(self).decoded_write_high(r, value),
    {
        match r {
            0x1B => self.write_m7a(value),
            0x1C => self.write_m7b(value),
            0x1D => self.write_m7c(value),
            0x1E => self.write_m7d(value),
            0x1F => self.write_m7x(value),
            0x20 => self.write_m7y(value),
            0x21 => self.write_cgadd(value),
            0x22 => self.cgram_write(value),
            0x23 => self.set_w12sel(value),
            0x24 => self.set_w34sel(value),
            0x25 => self.set_wobjsel(value),
            0x26 => self.set_w1_left(value),
            0x27 => self.set_w1_right(value),
            0x28 => self.set_w2_left(value),
            0x29 => self.set_w2_right(value),
            0x2A => self.set_wbglog(value),
            _ => self.set_wobjlog(value),
        }
    }

    fn decode_write_top(&mut self, r: u8, value: u8)
        requires
            0x2C <= r < 64,
        ensures
            *final(self) === old(self).decoded_write_top(r, value),
    {
        match r {
            0x2C => self.set_main_screen(value),
            0x2D => self.set_sub_screen(value),
            0x2E => self.set_main_window(value),
            0x2F => self.set_sub_window(value),
            0x30 => self.set_cgwsel(value),
            0x31 => self.set_cgadsub(value),
            0x32 => self.write_coldata(value),
            0x33 => self.write_setini(value),
            _ => {},
        }
    }

    fn set_vmain(&mut self, value: u8)
        ensures
            *final(self) === old(self).vmain_set(value),
    {
        proof {
            reveal(Ppu::vmain_set);
        }
        self.vmain = value;
    }

    fn set_m7sel(&mut self, value: u8)
        ensures
            *final(self) === old(self).m7sel_set(value),
    {
        proof {
            reveal(Ppu::m7sel_set);
        }
        self.m7sel = value;
    }

    fn set_w12sel(&mut self, value: u8)
        ensures
            *final(self) === old(self).w12sel_set(value),
    {
        proof {
            reveal(Ppu::w12sel_set);
        }
        self.w12sel = value;
    }

    fn set_w34sel(&mut self, value: u8)
        ensures
            *final(self) === old(self).w34sel_set(value),
    {
        proof {
            reveal(Ppu::w34sel_set);
        }
        self.w34sel = value;
    }

    fn set_wobjsel(&mut self, value: u8)
        ensures
            *final(self) === old(self).wobjsel_set(value),
    {
        proof {
            reveal(Ppu::wobjsel_set);
        }
        self.wobjsel = value;
    }

    fn set_w1_left(&mut self, value: u8)
        ensures
            *final(self) === old(self).w1_left_set(value),
    {
        proof {
            reveal(Ppu::w1_left_set);
        }
        self.w1_left = value;
    }

    fn set_w1_right(&mut self, value: u8)
        ensures
            *final(self) === old(self).w1_right_set(value),
    {
        proof {
            reveal(Ppu::w1_right_set);
        }
        self.w1_right = value;
    }

    fn set_w2_left(&mut self, value: u8)
        ensures
            *final(self) === old(self).w2_left_set(value),
    {
        proof {
            reveal(Ppu::w2_left_set);
        }
        self.w2_left = value;
    }

    fn set_w2_right(&mut self, value: u8)
        ensures
            *final(self) === old(self).w2_right_set(value),
    {
        proof {
            reveal(Ppu::w2_right_set);
        }
        self.w2_right = value;
    }

    fn set_wbglog(&mut self, value: u8)
        ensures
            *final(self) === old(self).wbglog_set(value),
    {
        proof {
            reveal(Ppu::wbglog_set);
        }
        self.wbglog = value;
    }

    fn set_wobjlog(&mut self, value: u8)
        ensures
            *final(self) === old(self).wobjlog_set(value),
    {
        proof {
            reveal(Ppu::wobjlog_set);
        }
        self.wobjlog = value;
    }

    fn set_main_screen(&mut self, value: u8)
        ensures
            *final(self) === old(self).main_screen_set(value),
    {
        proof {
            reveal(Ppu::main_screen_set);
        }
        self.main_screen = value;
    }

    fn set_sub_screen(&mut self, value: u8)
        ensures
            *final(self) === old(self).sub_screen_set(value),
    {
        proof {
            reveal(Ppu::sub_screen_set);
        }
        self.sub_screen = value;
    }

    fn set_main_window(&mut self, value: u8)
        ensures
            *final(self) === old(self).main_window_set(value),
    {
        proof {
            reveal(Ppu::main_window_set);
        }
        self.main_window = value;
    }

    fn set_sub_window(&mut self, value: u8)
        ensures
            *final(self) === old(self).sub_window_set(value),
    {
        proof {
            reveal(Ppu::sub_window_set);
        }
        self.sub_window = value;
    }

    fn set_cgwsel(&mut self, value: u8)
        ensures
            *final(self) === old(self).cgwsel_set(value),
    {
        proof {
            reveal(Ppu::cgwsel_set);
        }
        self.cgwsel = value;
    }

    fn set_cgadsub(&mut self, value: u8)
        ensures
            *final(self) === old(self).cgadsub_set(value),
    {
        proof {
            reveal(Ppu::cgadsub_set);
        }
        self.cgadsub = value;
    }

    fn write_vmaddl(&mut self, value: u8)
        ensures
            *final(self) === old(self).vmaddl_written(value),
    {
        proof {
            reveal(Ppu::vmaddl_written);
        }
        let a = (self.vram_addr & 0xFF00) | value as u16;
        self.vram_addr = a;
        self.vram_reload_prefetch();
    }

    fn write_vmaddh(&mut self, value: u8)
        ensures
            *final(self) === old(self).vmaddh_written(value),
    {
        proof {
            reveal(Ppu::vmaddh_written);
        }
        let a = (self.vram_addr & 0x00FF) | ((value as u16) << 8);
        self.vram_addr = a;
        self.vram_reload_prefetch();
    }

    fn write_cgadd(&mut self, value: u8)
        ensures
            *final(self) === old(self).cgadd_written(value),
    {
        proof {
            reveal(Ppu::cgadd_written);
        }
        self.cgram_addr = value;
        self.cgram_hi = false;
    }

    fn write_inidisp(&mut self, value: u8)
        ensures
            *final(self) === old(self).inidisp_written(value),
    {
        proof {
            reveal(Ppu::inidisp_written);
        }
        self.forced_blank = value & 0x80 != 0;
        self.brightness = value & 0x0F;
    }

    fn write_obsel(&mut self, value: u8)
        ensures
            *final(self) === old(self).obsel_written(value),
    {
        proof {
            reveal(Ppu::obsel_written);
        }
        self.obj_size = (value >> 5) & 0x07;
        self.obj_name_base = ((value as u16) & 0x07) << 13;
        let nn = (value as u16 >> 3) & 0x03;
        proof {
            crate::bits::lemma_u16_bits();
            assert(nn <= 3);
        }
        self.obj_name_gap = (nn + 1) << 12;
    }

    fn write_oamaddl(&mut self, value: u8)
        ensures
            *final(self) === old(self).oamaddl_written(value),
    {
        proof {
            reveal(Ppu::oamaddl_written);
        }
        self.oam_addr_reg = (self.oam_addr_reg & 0x100) | value as u16;
        self.reload_oam_addr();
    }

    fn write_oamaddh(&mut self, value: u8)
        ensures
            *final(self) === old(self).oamaddh_written(value),
    {
        proof {
            reveal(Ppu::oamaddh_written);
        }
        let reg = (self.oam_addr_reg & 0x0FF) | (((value as u16) & 0x01) << 8);
        let prio = value & 0x80 != 0;
        self.oam_addr_reg = reg;
        self.oam_priority = prio;
        self.reload_oam_addr();
    }

    fn write_bgmode(&mut self, value: u8)
        ensures
            *final(self) === old(self).bgmode_written(value),
    {
        proof {
            reveal(Ppu::bgmode_written);
        }
        self.bg_mode = value & 0x07;
        self.bg3_priority = value & 0x08 != 0;
        self.bg_tile_size = [value & 0x10 != 0, value & 0x20 != 0, value & 0x40 != 0, value & 0x80 != 0];
    }

    fn write_mosaic(&mut self, value: u8)
        ensures
            *final(self) === old(self).mosaic_written(value),
    {
        proof {
            reveal(Ppu::mosaic_written);
        }
        self.mosaic_size = (value >> 4) & 0x0F;
        self.mosaic_enable = value & 0x0F;
    }

    fn write_bgsc(&mut self, n: usize, value: u8)
        requires
            n < 4,
        ensures
            *final(self) === old(self).bgsc_written(n as int, value),
    {
        proof {
            reveal(Ppu::bgsc_written);
        }
        let base = ((value as u16) & 0xFC) << 8;
        self.bg_map_base[n] = base;
        self.bg_map_size[n] = value & 0x03;
        proof {
            assert(self.bg_map_base =~= spec_array_update(old(self).bg_map_base, n as int, base));
            assert(self.bg_map_size =~= spec_array_update(old(self).bg_map_size, n as int, value & 0x03));
        }
    }

    fn write_bgnba(&mut self, n: usize, value: u8)
        requires
            n == 0 || n == 2,
        ensures
            *final(self) === old(self).bgnba_written(n as int, value),
    {
        proof {
            reveal(Ppu::bgnba_written);
        }
        let lo = ((value as u16) & 0x0F) << 12;
        let hi = ((value as u16) >> 4) << 12;
        self.bg_char_base[n] = lo;
        self.bg_char_base[n + 1] = hi;
        proof {
            assert(self.bg_char_base =~= spec_array_update(
                spec_array_update(old(self).bg_char_base, n as int, lo),
                n + 1,
                hi,
            ));
        }
    }

    fn write_bg_hofs(&mut self, n: usize, value: u8)
        requires
            n < 4,
        ensures
            *final(self) === old(self).bg_hofs_written(n as int, value),
    {
        proof {
            reveal(Ppu::bg_hofs_written);
        }
        let v = (((value as u16) << 8) | ((self.bgofs_latch as u16) & !0x07) | ((self.bghofs_latch as u16)
            & 0x07)) & 0x3FF;
        self.bg_hofs[n] = v;
        proof {
            assert(self.bg_hofs =~= spec_array_update(old(self).bg_hofs, n as int, v));
        }
        self.bgofs_latch = value;
        self.bghofs_latch = value;
    }

    fn write_bg_vofs(&mut self, n: usize, value: u8)
        requires
            n < 4,
        ensures
            *final(self) === old(self).bg_vofs_written(n as int, value),
    {
        proof {
            reveal(Ppu::bg_vofs_written);
        }
        let v = (((value as u16) << 8) | self.bgofs_latch as u16) & 0x3FF;
        self.bg_vofs[n] = v;
        proof {
            assert(self.bg_vofs =~= spec_array_update(old(self).bg_vofs, n as int, v));
        }
        self.bgofs_latch = value;
    }

    fn write_m7_ofs(&mut self, horizontal: bool, value: u8)
        ensures
            *final(self) === old(self).m7_ofs_written(horizontal, value),
    {
        proof {
            reveal(Ppu::m7_ofs_written);
        }
        let v = (((value as u16) << 8) | self.mode7_latch as u16) & 0x1FFF;
        if horizontal {
            self.m7_hofs = v;
        } else {
            self.m7_vofs = v;
        }
        self.mode7_latch = value;
    }

    fn write_m7a(&mut self, value: u8)
        ensures
            *final(self) === old(self).m7a_written(value),
    {
        proof {
            reveal(Ppu::m7a_written);
        }
        let w = ((value as u16) << 8) | self.mode7_latch as u16;
        self.m7a = w as i16;
        self.mode7_latch = value;
    }

    fn write_m7b(&mut self, value: u8)
        ensures
            *final(self) === old(self).m7b_written(value),
    {
        proof {
            reveal(Ppu::m7b_written);
        }
        let w = ((value as u16) << 8) | self.mode7_latch as u16;
        self.m7b = w as i16;
        self.mode7_latch = value;
        self.m7_mul_operand = value as i8;
    }

    fn write_m7c(&mut self, value: u8)
        ensures
            *final(self) === old(self).m7c_written(value),
    {
        proof {
            reveal(Ppu::m7c_written);
        }
        let w = ((value as u16) << 8) | self.mode7_latch as u16;
        self.m7c = w as i16;
        self.mode7_latch = value;
    }

    fn write_m7d(&mut self, value: u8)
        ensures
            *final(self) === old(self).m7d_written(value),
    {
        proof {
            reveal(Ppu::m7d_written);
        }
        let w = ((value as u16) << 8) | self.mode7_latch as u16;
        self.m7d = w as i16;
        self.mode7_latch = value;
    }

    fn write_m7x(&mut self, value: u8)
        ensures
            *final(self) === old(self).m7x_written(value),
    {
        proof {
            reveal(Ppu::m7x_written);
        }
        let w = ((value as u16) << 8) | self.mode7_latch as u16;
        self.m7x = sign_extend_13(w);
        self.mode7_latch = value;
    }

    fn write_m7y(&mut self, value: u8)
        ensures
            *final(self) === old(self).m7y_written(value),
    {
        proof {
            reveal(Ppu::m7y_written);
        }
        let w = ((value as u16) << 8) | self.mode7_latch as u16;
        self.m7y = sign_extend_13(w);
        self.mode7_latch = value;
    }

    fn write_coldata(&mut self, value: u8)
        ensures
            *final(self) === old(self).coldata_written(value),
    {
        proof {
            reveal(Ppu::coldata_written);
        }
        let v = value & 0x1F;
        let r = if value & 0x20 != 0 { v } else { self.coldata_r };
        let g = if value & 0x40 != 0 { v } else { self.coldata_g };
        let b = if value & 0x80 != 0 { v } else { self.coldata_b };
        self.coldata_r = r;
        self.coldata_g = g;
        self.coldata_b = b;
    }

    fn write_setini(&mut self, value: u8)
        ensures
            *final(self) === old(self).setini_written(value),
    {
        proof {
            reveal(Ppu::setini_written);
        }
        self.overscan = value & 0x04 != 0;
        self.interlace = value & 0x01 != 0;
        self.obj_interlace = value & 0x02 != 0;
        self.pseudo_hires = value & 0x08 != 0;
        self.extbg = value & 0x40 != 0;
    }
}

} // verus!
