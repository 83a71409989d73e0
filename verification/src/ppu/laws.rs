//! What the PPU's memory ports give back of what was written through them.

use super::Ppu;
use vstd::prelude::*;

verus! {

/// The stored color word and the two bytes $213B reads back of it.
proof fn lemma_color_bytes(lo: u8, hi: u8)
    ensures
        ((((lo as u16 | ((hi as u16) << 8u16)) & 0x7FFF) as u16) & 0xFF) as u8 == lo,
        ((((((lo as u16 | ((hi as u16) << 8u16)) & 0x7FFF) as u16) >> 8u16) & 0x7F) as u8) == hi & 0x7F,
{
    assert(((((lo as u16 | ((hi as u16) << 8u16)) & 0x7FFF) as u16) & 0xFF) as u8 == lo) by (bit_vector);
    assert(((((((lo as u16 | ((hi as u16) << 8u16)) & 0x7FFF) as u16) >> 8u16) & 0x7F) as u8) == hi & 0x7F)
        by (bit_vector);
}

/// A color written to CGRAM reads back: after $2121 selects `idx` and two
/// $2122 writes store `lo` then `hi`, selecting `idx` again and reading
/// $213B twice gives `lo`, then `hi`'s low seven bits with bit 7 from the
/// PPU2 open bus, which the first read left holding `lo`.
pub proof fn law_cgram_reads_back_what_was_written(p: Ppu, idx: u8, lo: u8, hi: u8)
    ensures
        ({
            let w = p.after_write(0x21, idx).after_write(0x22, lo).after_write(0x22, hi).after_write(0x21, idx);
            let (q, first) = w.read_effect(0x3B);
            let (_, second) = q.read_effect(0x3B);
            first == Some(lo) && second == Some(((hi & 0x7F) | (lo & 0x80)) as u8)
        }),
{
    reveal(Ppu::cgadd_written);
    reveal(Ppu::cgram_written);
    reveal(Ppu::cgram_low_high_read);
    lemma_color_bytes(lo, hi);
    assert((0x21u8 & 0x3Fu8) == 0x21u8 && (0x22u8 & 0x3Fu8) == 0x22u8 && (0x3Bu8 & 0x3Fu8) == 0x3Bu8)
        by (bit_vector);
    let a = p.after_write(0x21, idx);
    assert(a.cgram_addr == idx && !a.cgram_hi);
    let b = a.after_write(0x22, lo);
    assert(b.cgram_hi && b.cgram_latch == lo && b.cgram_addr == idx);
    let c = b.after_write(0x22, hi);
    let word = ((lo as u16 | ((hi as u16) << 8u16)) & 0x7FFF) as u16;
    assert(c.cgram@[idx as int] == word);
    let w = c.after_write(0x21, idx);
    assert(w.cgram@[idx as int] == word && w.cgram_addr == idx && !w.cgram_hi);
    let (q, first) = w.read_effect(0x3B);
    assert(first == Some(lo));
    assert(q.cgram_hi && q.cgram_addr == idx && q.ppu2_mdr == lo && q.cgram@[idx as int] == word);
}

/// The word address and data bytes of a VRAM round trip.
proof fn lemma_vram_bytes(b: u16, al: u8, ah: u8, old_word: u16, lo: u8, hi: u8)
    by (bit_vector)
    ensures
        ((((((b & 0xFF00) | al as u16) as u16) & 0x00FF) | ((ah as u16) << 8u16)) as u16)
            == (((ah as u16) << 8u16) | al as u16) as u16,
        (((((old_word & 0xFF00) | lo as u16) as u16) & 0x00FF) | ((hi as u16) << 8u16)) as u16
            == (lo as u16 | ((hi as u16) << 8u16)) as u16,
        (((lo as u16 | ((hi as u16) << 8u16)) as u16) & 0xFF) as u8 == lo,
        ((((lo as u16 | ((hi as u16) << 8u16)) as u16) >> 8u16) as u8) == hi,
        ((0x80u8 >> 2u8) & 3) == 0,
        (((((ah as u16) << 8u16) | al as u16) as u16) & 0x7FFF) < 0x8000,
        (0x80u8 & 0x80) != 0,
        (0x15u8 & 0x3Fu8) == 0x15u8 && (0x16u8 & 0x3Fu8) == 0x16u8 && (0x17u8 & 0x3Fu8) == 0x17u8,
        (0x18u8 & 0x3Fu8) == 0x18u8 && (0x19u8 & 0x3Fu8) == 0x19u8,
        (0x39u8 & 0x3Fu8) == 0x39u8 && (0x3Au8 & 0x3Fu8) == 0x3Au8,
{
}

/// A word written to VRAM reads back: with VMAIN set to step after the high
/// byte and no remap, $2116/$2117 select a word address, $2118/$2119 store
/// `lo` and `hi`; selecting the same address again reloads the prefetch,
/// and $2139 then $213A read `lo` then `hi`.
pub proof fn law_vram_reads_back_what_was_written(p: Ppu, al: u8, ah: u8, lo: u8, hi: u8)
    ensures
        ({
            let w = p.after_write(0x15, 0x80).after_write(0x16, al).after_write(0x17, ah).after_write(0x18, lo)
                .after_write(0x19, hi).after_write(0x16, al).after_write(0x17, ah);
            let (q, first) = w.read_effect(0x39);
            let (_, second) = q.read_effect(0x3A);
            first == Some(lo) && second == Some(hi)
        }),
{
    reveal(Ppu::vmain_set);
    reveal(Ppu::vmaddl_written);
    reveal(Ppu::vmaddh_written);
    reveal(Ppu::vram_low_written);
    reveal(Ppu::vram_high_written);
    reveal(Ppu::vram_low_read);
    reveal(Ppu::vram_high_read);
    let addr = (((ah as u16) << 8u16) | al as u16) as u16;
    let a0 = p.after_write(0x15, 0x80);
    lemma_vram_bytes(p.vram_addr, al, ah, 0, lo, hi);
    assert(a0.vmain == 0x80);
    let a1 = a0.after_write(0x16, al);
    let a2 = a1.after_write(0x17, ah);
    lemma_vram_bytes(a1.vram_addr, al, ah, 0, lo, hi);
    assert(a2.vram_addr == addr && a2.vmain == 0x80);
    let idx = (addr & 0x7FFF) as int;
    assert(0 <= idx < 32768);
    assert(super::port::spec_vram_remap(0x80, addr) == addr & 0x7FFF);
    let a3 = a2.after_write(0x18, lo);
    let old_word = a2.vram@[idx];
    lemma_vram_bytes(p.vram_addr, al, ah, old_word, lo, hi);
    assert(a3.vram_addr == addr && a3.vmain == 0x80);
    assert(a3.vram@[idx] == (((old_word & 0xFF00) | lo as u16) as u16));
    let a4 = a3.after_write(0x19, hi);
    let word = (lo as u16 | ((hi as u16) << 8u16)) as u16;
    assert(a4.vram@[idx] == word);
    assert(a4.vmain == 0x80);
    let a5 = a4.after_write(0x16, al);
    let w = a5.after_write(0x17, ah);
    lemma_vram_bytes(a4.vram_addr, al, ah, old_word, lo, hi);
    assert(a5.vram@[idx] == word && a5.vmain == 0x80);
    assert(w.vram_addr == addr);
    assert(w.vmain == 0x80 && w.vram@[idx] == word);
    assert(w.vram_prefetch == word);
    let (q, first) = w.read_effect(0x39);
    assert(first == Some(lo));
    assert(q.vram_prefetch == word && q.vmain == 0x80);
}

/// The byte addresses of an OAM round trip on sprite word `n`.
proof fn lemma_oam_addresses(reg: u16, reg2: u16, n: u8)
    by (bit_vector)
    ensures
        ({
            let r1 = ((reg & 0x100) | n as u16) as u16;
            let r2 = ((r1 & 0x0FF) | (((0u8 as u16) & 0x01) << 8u16)) as u16;
            ((r2 & 0x1FF) << 1u16) as u16 == ((n as u16) << 1u16) as u16
        }),
        ({
            let r1 = ((reg2 & 0x100) | n as u16) as u16;
            let r2 = ((r1 & 0x0FF) | (((0u8 as u16) & 0x01) << 8u16)) as u16;
            ((r2 & 0x1FF) << 1u16) as u16 == ((n as u16) << 1u16) as u16
        }),
        ((n as u16) << 1u16) as u16 & 0x3FF == ((n as u16) << 1u16) as u16,
        (((n as u16) << 1u16) as u16) < 0x200,
        (((n as u16) << 1u16) as u16) & 1 == 0,
        ((((((n as u16) << 1u16) as u16) & 0x3FF) + 1) as u16) & 0x3FF == (((n as u16) << 1u16) + 1) as u16,
        ((((n as u16) << 1u16) + 1) as u16) & 0x3FF == (((n as u16) << 1u16) + 1) as u16,
        ((((n as u16) << 1u16) + 1) as u16) & 1 == 1,
        ((((n as u16) << 1u16) + 1) as u16) < 0x200,
        (0x02u8 & 0x3Fu8) == 0x02u8 && (0x03u8 & 0x3Fu8) == 0x03u8 && (0x04u8 & 0x3Fu8) == 0x04u8,
        (0x38u8 & 0x3Fu8) == 0x38u8 && (0u8 & 0x80) == 0,
{
}

/// A sprite word written to OAM reads back: with $2102/$2103 selecting word
/// `n` of the low table, two $2104 writes store `lo` then `hi` (the first
/// latched, the second committing both); selecting word `n` again and
/// reading $2138 twice gives `lo` then `hi`.
pub proof fn law_oam_reads_back_what_was_written(p: Ppu, n: u8, lo: u8, hi: u8)
    ensures
        ({
            let w = p.after_write(0x02, n).after_write(0x03, 0).after_write(0x04, lo).after_write(0x04, hi)
                .after_write(0x02, n).after_write(0x03, 0);
            let (q, first) = w.read_effect(0x38);
            let (_, second) = q.read_effect(0x38);
            first == Some(lo) && second == Some(hi)
        }),
{
    reveal(Ppu::oamaddl_written);
    reveal(Ppu::oamaddh_written);
    reveal(Ppu::oam_reloaded);
    reveal(Ppu::oam_written);
    reveal(Ppu::oam_latch_set);
    reveal(Ppu::oam_word_set);
    reveal(Ppu::oam_addr_set);
    reveal(Ppu::oam_byte_read);
    let a = (((n as u16) << 1u16) as u16);
    let a1 = p.after_write(0x02, n);
    let a2 = a1.after_write(0x03, 0);
    lemma_oam_addresses(p.oam_addr_reg, p.oam_addr_reg, n);
    assert(a2.oam_addr == a);
    let a3 = a2.after_write(0x04, lo);
    assert(a3.oam_latch == lo && a3.oam_addr == (a + 1) as u16);
    let a4 = a3.after_write(0x04, hi);
    assert(a4.oam_lo@[a as int] == lo && a4.oam_lo@[a + 1] == hi);
    let a5 = a4.after_write(0x02, n);
    let w = a5.after_write(0x03, 0);
    lemma_oam_addresses(a4.oam_addr_reg, a4.oam_addr_reg, n);
    assert(w.oam_addr == a && w.oam_lo@[a as int] == lo && w.oam_lo@[a + 1] == hi);
    let (q, first) = w.read_effect(0x38);
    assert(first == Some(lo));
    assert(q.oam_addr == (a + 1) as u16 && q.oam_lo@[a + 1] == hi);
}

} // verus!
