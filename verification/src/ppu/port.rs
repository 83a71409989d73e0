//! The memory ports behind $2115-$213F: VRAM with its remap, step and read
//! prefetch, CGRAM and OAM with their word latches, and the H/V counter
//! latch and status registers.

use super::Ppu;
use vstd::array::spec_array_update;
use vstd::prelude::*;

verus! {

/// VRAM word-address step of VMAIN bits1-0: 1, 32, 128, 128.
pub open spec fn spec_vram_step(vmain: u8) -> u16 {
    if vmain & 3 == 0 {
        1
    } else if vmain & 3 == 1 {
        32
    } else {
        128
    }
}

/// VMAIN bits3-2 address remap: rotate the low 8/9/10 bits left by 3.
pub open spec fn spec_vram_remap(vmain: u8, addr: u16) -> u16 {
    let a = addr & 0x7FFF;
    let m = (vmain >> 2u8) & 3;
    if m == 0 {
        a
    } else if m == 1 {
        (a & 0xFF00) | ((a & 0x001F) << 3u16) | ((a & 0x00E0) >> 5u16)
    } else if m == 2 {
        (a & 0xFE00) | ((a & 0x003F) << 3u16) | ((a & 0x01C0) >> 6u16)
    } else {
        (a & 0xFC00) | ((a & 0x007F) << 3u16) | ((a & 0x0380) >> 7u16)
    }
}

proof fn lemma_remap_in_vram(vmain: u8, addr: u16)
    ensures
        spec_vram_remap(vmain, addr) < 0x8000,
{
    crate::bits::lemma_u16_bits();
    let a = addr & 0x7FFF;
    assert(a < 0x8000);
}

/// The internal OAM byte address, 10 bits.
fn oam_index(oam_addr: u16) -> (r: u16)
    ensures
        r == oam_addr & 0x3FF,
        r < 0x400,
        r & 0x1F < 32,
        r & 1 != 0 ==> r >= 1,
{
    proof {
        crate::bits::lemma_u16_bits();
    }
    oam_addr & 0x3FF
}

impl Ppu {
    // --- VRAM port ---------------------------------------------------------

    pub(crate) fn vram_increment(&self) -> (r: u16)
        ensures
            r == spec_vram_step(self.vmain),
    {
        match self.vmain & 0x03 {
            0 => 1,
            1 => 32,
            _ => 128,
        }
    }

    /// VMAIN remap of a word address (public for the port tests).
    pub fn vram_remap(&self, addr: u16) -> (r: u16)
        ensures
            r == spec_vram_remap(self.vmain, addr),
            r < 0x8000,
    {
        proof {
            lemma_remap_in_vram(self.vmain, addr);
        }
        let a = addr & 0x7FFF;
        match (self.vmain >> 2) & 0x03 {
            0 => a,
            1 => (a & 0xFF00) | ((a & 0x001F) << 3) | ((a & 0x00E0) >> 5),
            2 => (a & 0xFE00) | ((a & 0x003F) << 3) | ((a & 0x01C0) >> 6),
            _ => (a & 0xFC00) | ((a & 0x007F) << 3) | ((a & 0x0380) >> 7),
        }
    }

    /// The prefetch latch reloaded from the word the address points at.
    pub open spec fn vram_reloaded(self) -> Ppu {
        Ppu { vram_prefetch: self.vram@[spec_vram_remap(self.vmain, self.vram_addr) as int], ..self }
    }

    /// The word address advanced by the VMAIN step (wrapping).
    pub open spec fn vram_stepped(self) -> Ppu {
        Ppu {
            vram_addr: vstd::wrapping::u16_specs::wrapping_add(self.vram_addr, spec_vram_step(self.vmain)),
            ..self
        }
    }

    pub(crate) fn vram_reload_prefetch(&mut self)
        ensures
            *final(self) == old(self).vram_reloaded(),
    {
        proof {
            lemma_remap_in_vram(self.vmain, self.vram_addr);
        }
        let i = self.vram_remap(self.vram_addr);
        self.vram_prefetch = self.vram[i as usize];
    }

    pub(crate) fn vram_step(&mut self)
        ensures
            *final(self) == old(self).vram_stepped(),
    {
        let step = self.vram_increment();
        self.vram_addr = self.vram_addr.wrapping_add(step);
    }

    /// $2139 read: low byte of the prefetch; reload + step when VMAIN bit7=0.
    #[verifier::opaque]
    pub open spec fn vram_low_read(self) -> (Ppu, u8) {
        let v = (self.vram_prefetch & 0xFF) as u8;
        if self.vmain & 0x80 == 0 {
            (self.vram_reloaded().vram_stepped(), v)
        } else {
            (self, v)
        }
    }

    /// $213A read: high byte of the prefetch; reload + step when VMAIN bit7=1.
    #[verifier::opaque]
    pub open spec fn vram_high_read(self) -> (Ppu, u8) {
        let v = (self.vram_prefetch >> 8u16) as u8;
        if self.vmain & 0x80 != 0 {
            (self.vram_reloaded().vram_stepped(), v)
        } else {
            (self, v)
        }
    }

    pub(crate) fn vram_read_low(&mut self) -> (v: u8)
        ensures
            *final(self) == old(self).vram_low_read().0,
            v == old(self).vram_low_read().1,
    {
        proof {
            reveal(Ppu::vram_low_read);
        }
        let v = (self.vram_prefetch & 0xFF) as u8;
        if self.vmain & 0x80 == 0 {
            self.vram_reload_prefetch();
            self.vram_step();
        }
        v
    }

    pub(crate) fn vram_read_high(&mut self) -> (v: u8)
        ensures
            *final(self) == old(self).vram_high_read().0,
            v == old(self).vram_high_read().1,
    {
        proof {
            reveal(Ppu::vram_high_read);
        }
        let v = (self.vram_prefetch >> 8) as u8;
        if self.vmain & 0x80 != 0 {
            self.vram_reload_prefetch();
            self.vram_step();
        }
        v
    }

    /// One VRAM word replaced.
    pub open spec fn vram_set(self, idx: int, word: u16) -> Ppu {
        Ppu { vram: Box::new(spec_array_update(*self.vram, idx, word)), ..self }
    }

    /// $2118 write: low byte of the addressed word; step when VMAIN bit7=0.
    #[verifier::opaque]
    pub open spec fn vram_low_written(self, value: u8) -> Ppu {
        let idx = spec_vram_remap(self.vmain, self.vram_addr) as int;
        let p = self.vram_set(idx, ((self.vram@[idx] & 0xFF00) | value as u16) as u16);
        if self.vmain & 0x80 == 0 {
            p.vram_stepped()
        } else {
            p
        }
    }

    /// $2119 write: high byte of the addressed word; step when VMAIN bit7=1.
    #[verifier::opaque]
    pub open spec fn vram_high_written(self, value: u8) -> Ppu {
        let idx = spec_vram_remap(self.vmain, self.vram_addr) as int;
        let p = self.vram_set(idx, ((self.vram@[idx] & 0x00FF) | ((value as u16) << 8u16)) as u16);
        if self.vmain & 0x80 != 0 {
            p.vram_stepped()
        } else {
            p
        }
    }

    pub(crate) fn vram_set_word(&mut self, idx: usize, word: u16)
        requires
            idx < 32768,
        ensures
            *final(self) == old(self).vram_set(idx as int, word),
    {
        self.vram[idx] = word;
        proof {
            assert(*self.vram =~= spec_array_update(*old(self).vram, idx as int, word));
        }
    }

    pub(crate) fn vram_write_low(&mut self, value: u8)
        ensures
            *final(self) == old(self).vram_low_written(value),
    {
        proof {
            reveal(Ppu::vram_low_written);
        }
        let idx = self.vram_remap(self.vram_addr) as usize;
        let word = (self.vram[idx] & 0xFF00) | value as u16;
        self.vram_set_word(idx, word);
        if self.vmain & 0x80 == 0 {
            self.vram_step();
        }
    }

    pub(crate) fn vram_write_high(&mut self, value: u8)
        ensures
            *final(self) == old(self).vram_high_written(value),
    {
        proof {
            reveal(Ppu::vram_high_written);
        }
        let idx = self.vram_remap(self.vram_addr) as usize;
        let word = (self.vram[idx] & 0x00FF) | ((value as u16) << 8);
        self.vram_set_word(idx, word);
        if self.vmain & 0x80 != 0 {
            self.vram_step();
        }
    }
    // --- CGRAM port --------------------------------------------------------

    /// $2122 write: first byte latched, second commits the 15-bit word and
    /// advances the index.
    #[verifier::opaque]
    pub open spec fn cgram_written(self, value: u8) -> Ppu {
        if !self.cgram_hi {
            Ppu { cgram_latch: value, cgram_hi: true, ..self }
        } else {
            Ppu {
                cgram: spec_array_update(
                    self.cgram,
                    self.cgram_addr as int,
                    ((self.cgram_latch as u16 | ((value as u16) << 8u16)) & 0x7FFF) as u16,
                ),
                cgram_addr: vstd::wrapping::u8_specs::wrapping_add(self.cgram_addr, 1),
                cgram_hi: false,
                ..self
            }
        }
    }

    /// $213B read: low byte, then bits 14-8 with bit7 from the PPU2 open bus;
    /// the index advances after the high byte.
    #[verifier::opaque]
    pub open spec fn cgram_low_high_read(self) -> (Ppu, u8) {
        let word = self.cgram@[self.cgram_addr as int];
        let v: u8 = if !self.cgram_hi {
            (word & 0xFF) as u8
        } else {
            (((word >> 8u16) & 0x7F) as u8 | (self.ppu2_mdr & 0x80)) as u8
        };
        let addr: u8 = if self.cgram_hi {
            vstd::wrapping::u8_specs::wrapping_add(self.cgram_addr, 1)
        } else {
            self.cgram_addr
        };
        (Ppu { cgram_addr: addr, cgram_hi: !self.cgram_hi, ..self }, v)
    }

    pub(crate) fn cgram_write(&mut self, value: u8)
        ensures
            *final(self) == old(self).cgram_written(value),
    {
        proof {
            reveal(Ppu::cgram_written);
        }
        if !self.cgram_hi {
            self.cgram_latch = value;
            self.cgram_hi = true;
        } else {
            let i = self.cgram_addr as usize;
            self.cgram[i] = (self.cgram_latch as u16 | ((value as u16) << 8)) & 0x7FFF;
            proof {
                assert(self.cgram =~= spec_array_update(
                    old(self).cgram,
                    i as int,
                    ((old(self).cgram_latch as u16 | ((value as u16) << 8u16)) & 0x7FFF) as u16,
                ));
            }
            self.cgram_addr = self.cgram_addr.wrapping_add(1);
            self.cgram_hi = false;
        }
    }

    fn cgram_word(&self) -> (w: u16)
        ensures
            w == self.cgram@[self.cgram_addr as int],
    {
        self.cgram[self.cgram_addr as usize]
    }

    pub(crate) fn cgram_read(&mut self) -> (v: u8)
        ensures
            *final(self) == old(self).cgram_low_high_read().0,
            v == old(self).cgram_low_high_read().1,
    {
        proof {
            reveal(Ppu::cgram_low_high_read);
        }
        let word = self.cgram_word();
        let hi = self.cgram_hi;
        let v: u8 = if !hi {
            (word & 0xFF) as u8
        } else {
            ((word >> 8) & 0x7F) as u8 | (self.ppu2_mdr & 0x80)
        };
        let addr: u8 = if hi {
            self.cgram_addr.wrapping_add(1)
        } else {
            self.cgram_addr
        };
        self.cgram_addr = addr;
        self.cgram_hi = !hi;
        v
    }

    // --- OAM port ----------------------------------------------------------

    /// $2104 write. Table 1 takes words: an even address latches the byte, an
    /// odd one commits the latched byte and this one. Table 2 ($200-$3FF,
    /// mirrored every 32 bytes) takes bytes directly. The address advances.
    #[verifier::opaque]
    pub open spec fn oam_written(self, value: u8) -> Ppu {
        let addr = self.oam_addr & 0x3FF;
        let next = (((self.oam_addr & 0x3FF) + 1) as u16) & 0x3FF;
        let p = if addr < 0x200 {
            if addr & 1 == 0 {
                self.oam_latch_set(value)
            } else {
                self.oam_word_set(addr, value)
            }
        } else {
            self.oam_high_set(addr, value)
        };
        p.oam_addr_set(next)
    }

    /// The table-1 low byte latched.
    #[verifier::opaque]
    pub open spec fn oam_latch_set(self, value: u8) -> Ppu {
        Ppu { oam_latch: value, ..self }
    }

    /// The latched byte and `value` committed to table-1 bytes `addr - 1`, `addr`.
    #[verifier::opaque]
    pub open spec fn oam_word_set(self, addr: u16, value: u8) -> Ppu {
        Ppu {
            oam_lo: spec_array_update(spec_array_update(self.oam_lo, addr - 1, self.oam_latch), addr as int, value),
            ..self
        }
    }

    /// `value` stored in table 2 at `addr` (mirrored every 32 bytes).
    #[verifier::opaque]
    pub open spec fn oam_high_set(self, addr: u16, value: u8) -> Ppu {
        Ppu { oam_hi: spec_array_update(self.oam_hi, (addr & 0x1F) as int, value), ..self }
    }

    /// The internal byte address set.
    #[verifier::opaque]
    pub open spec fn oam_addr_set(self, addr: u16) -> Ppu {
        Ppu { oam_addr: addr, ..self }
    }

    /// $2138 read: the addressed OAM byte; the address advances.
    #[verifier::opaque]
    pub open spec fn oam_byte_read(self) -> (Ppu, u8) {
        let addr = self.oam_addr & 0x3FF;
        let v = if addr < 0x200 {
            self.oam_lo@[addr as int]
        } else {
            self.oam_hi@[(addr & 0x1F) as int]
        };
        (Ppu { oam_addr: (((self.oam_addr & 0x3FF) + 1) as u16) & 0x3FF, ..self }, v)
    }

    pub(crate) fn oam_write(&mut self, value: u8)
        ensures
            *final(self) == old(self).oam_written(value),
    {
        proof {
            reveal(Ppu::oam_written);
        }
        let addr = oam_index(self.oam_addr);
        if addr < 0x200 {
            if addr & 1 == 0 {
                self.set_oam_latch(value);
            } else {
                self.store_oam_word(addr, value);
            }
        } else {
            self.store_oam_high(addr, value);
        }
        self.set_oam_addr((addr + 1) & 0x3FF);
    }

    fn set_oam_latch(&mut self, value: u8)
        ensures
            *final(self) == old(self).oam_latch_set(value),
    {
        proof {
            reveal(Ppu::oam_latch_set);
        }
        self.oam_latch = value;
    }

    fn store_oam_word(&mut self, addr: u16, value: u8)
        requires
            1 <= addr < 0x200,
        ensures
            *final(self) == old(self).oam_word_set(addr, value),
    {
        proof {
            reveal(Ppu::oam_word_set);
        }
        let latch = self.oam_latch;
        self.oam_lo[(addr - 1) as usize] = latch;
        self.oam_lo[addr as usize] = value;
        proof {
            assert(self.oam_lo =~= spec_array_update(
                spec_array_update(old(self).oam_lo, addr - 1, old(self).oam_latch),
                addr as int,
                value,
            ));
        }
    }

    fn store_oam_high(&mut self, addr: u16, value: u8)
        requires
            addr & 0x1F < 32,
        ensures
            *final(self) == old(self).oam_high_set(addr, value),
    {
        proof {
            reveal(Ppu::oam_high_set);
        }
        self.oam_hi[(addr & 0x1F) as usize] = value;
        proof {
            assert(self.oam_hi =~= spec_array_update(old(self).oam_hi, (addr & 0x1F) as int, value));
        }
    }

    fn set_oam_addr(&mut self, addr: u16)
        ensures
            *final(self) == old(self).oam_addr_set(addr),
    {
        proof {
            reveal(Ppu::oam_addr_set);
        }
        self.oam_addr = addr;
    }

    /// Read the addressed OAM byte and advance (public for the port tests).
    pub fn oam_read(&mut self) -> (v: u8)
        ensures
            *final(self) == old(self).oam_byte_read().0,
            v == old(self).oam_byte_read().1,
    {
        proof {
            reveal(Ppu::oam_byte_read);
        }
        let addr = oam_index(self.oam_addr);
        let v = if addr < 0x200 {
            self.oam_lo[addr as usize]
        } else {
            self.oam_hi[(addr & 0x1F) as usize]
        };
        self.oam_addr = (addr + 1) & 0x3FF;
        v
    }

    // --- counter latch / status -------------------------------------------

    /// SLHV: the H/V counters latched into OPHCT/OPVCT.
    #[verifier::opaque]
    pub open spec fn counters_latched(self) -> Ppu {
        Ppu {
            ophct: self.h_counter & 0x1FF,
            opvct: self.v_counter & 0x1FF,
            counter_latched: true,
            ..self
        }
    }

    /// $213C read: low byte, then bit8 with bits7-1 from the PPU2 open bus.
    #[verifier::opaque]
    pub open spec fn ophct_byte_read(self) -> (Ppu, u8) {
        if !self.ophct_hi {
            (Ppu { ophct_hi: true, ..self }, (self.ophct & 0xFF) as u8)
        } else {
            (
                Ppu { ophct_hi: false, ..self },
                (((self.ophct >> 8u16) & 0x01) as u8 | (self.ppu2_mdr & 0xFE)) as u8,
            )
        }
    }

    /// $213D read, same shape as OPHCT.
    #[verifier::opaque]
    pub open spec fn opvct_byte_read(self) -> (Ppu, u8) {
        if !self.opvct_hi {
            (Ppu { opvct_hi: true, ..self }, (self.opvct & 0xFF) as u8)
        } else {
            (
                Ppu { opvct_hi: false, ..self },
                (((self.opvct >> 8u16) & 0x01) as u8 | (self.ppu2_mdr & 0xFE)) as u8,
            )
        }
    }

    /// $213E STAT77: time over, range over, PPU1 open bus bit4, version 1.
    #[verifier::opaque]
    pub open spec fn spec_stat77(self) -> u8 {
        ((self.obj_time_over as u8) << 7u8 | (self.obj_range_over as u8) << 6u8 | (self.ppu1_mdr
            & 0x10) | 0x01) as u8
    }

    /// $213F STAT78: field, latch flag, PPU2 open bus bit5, region, version 1.
    #[verifier::opaque]
    pub open spec fn spec_stat78(self) -> u8 {
        ((self.interlace_field as u8) << 7u8 | (self.counter_latched as u8) << 6u8 | (self.ppu2_mdr
            & 0x20) | (self.is_pal as u8) << 4u8 | 0x01) as u8
    }

    /// Reading $213F resets both flip-flops and the latch flag.
    #[verifier::opaque]
    pub open spec fn stat78_cleared(self) -> Ppu {
        Ppu { ophct_hi: false, opvct_hi: false, counter_latched: false, ..self }
    }

    /// The signed 16x8 product M7A * (last $211C byte), as 24 readable bits.
    #[verifier::opaque]
    pub open spec fn spec_mpy(self) -> u32 {
        ((self.m7a as int) * (self.m7_mul_operand as int)) as u32
    }

    pub(crate) fn latch_counters(&mut self)
        ensures
            *final(self) == old(self).counters_latched(),
    {
        proof {
            reveal(Ppu::counters_latched);
        }
        self.ophct = self.h_counter & 0x1FF;
        self.opvct = self.v_counter & 0x1FF;
        self.counter_latched = true;
    }

    pub(crate) fn ophct_read(&mut self) -> (v: u8)
        ensures
            *final(self) == old(self).ophct_byte_read().0,
            v == old(self).ophct_byte_read().1,
    {
        proof {
            reveal(Ppu::ophct_byte_read);
        }
        if !self.ophct_hi {
            self.ophct_hi = true;
            (self.ophct & 0xFF) as u8
        } else {
            self.ophct_hi = false;
            ((self.ophct >> 8) & 0x01) as u8 | (self.ppu2_mdr & 0xFE)
        }
    }

    pub(crate) fn opvct_read(&mut self) -> (v: u8)
        ensures
            *final(self) == old(self).opvct_byte_read().0,
            v == old(self).opvct_byte_read().1,
    {
        proof {
            reveal(Ppu::opvct_byte_read);
        }
        if !self.opvct_hi {
            self.opvct_hi = true;
            (self.opvct & 0xFF) as u8
        } else {
            self.opvct_hi = false;
            ((self.opvct >> 8) & 0x01) as u8 | (self.ppu2_mdr & 0xFE)
        }
    }

    pub(crate) fn stat77(&self) -> (v: u8)
        ensures
            v == self.spec_stat77(),
    {
        proof {
            reveal(Ppu::spec_stat77);
        }
        (self.obj_time_over as u8) << 7 | (self.obj_range_over as u8) << 6 | (self.ppu1_mdr & 0x10)
            | 0x01
    }

    pub(crate) fn stat78(&mut self) -> (v: u8)
        ensures
            v == old(self).spec_stat78(),
            *final(self) == old(self).stat78_cleared(),
    {
        proof {
            reveal(Ppu::spec_stat78);
            reveal(Ppu::stat78_cleared);
        }
        let v = (self.interlace_field as u8) << 7 | (self.counter_latched as u8) << 6 | (self.ppu2_mdr
            & 0x20) | (self.is_pal as u8) << 4 | 0x01;
        self.ophct_hi = false;
        self.opvct_hi = false;
        self.counter_latched = false;
        v
    }

    pub(crate) fn mpy(&self) -> (r: u32)
        ensures
            r == self.spec_mpy(),
    {
        proof {
            reveal(Ppu::spec_mpy);
        }
        let a = self.m7a as i32;
        let b = self.m7_mul_operand as i32;
        proof {
            assert(-32768 * 128 <= a * b <= 32768 * 128) by (nonlinear_arith)
                requires
                    -32768 <= a <= 32767,
                    -128 <= b <= 127,
            ;
        }
        (a * b) as u32
    }
}

} // verus!
