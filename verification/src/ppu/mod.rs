//! S-PPU data layer: VRAM/CGRAM/OAM memories and their CPU ports
//! ($2100-$213F) with the hardware latch / increment / prefetch behaviour,
//! the typed register decode, and the pixel types the renderers share.
//!
//! Every port is stated as a pure transition of the whole `Ppu`:
//! `Ppu::after_write` for a CPU write, `Ppu::read_effect` for a CPU read
//! (which also changes state: prefetch, flip-flops, open-bus latches).

pub mod background;
pub mod port;
pub mod regs;
pub mod mode7;
pub mod render;
pub mod sprites;
pub mod window;
pub mod laws;

use crate::frame::FrameBuffer;
use vstd::prelude::*;

verus! {

/// One pixel emitted by the sprite renderer for a scanline column.
#[derive(Clone, Copy, Default, PartialEq, Eq, Debug, Structural)]
pub struct ObjPixel {
    /// Full 8-bit CGRAM index (OBJ base 128 + palette*16 + pixel). Meaningful
    /// only when `opaque`.
    pub color: u8,
    /// OBJ priority 0-3 (OAM byte 3 bits5-4).
    pub priority: u8,
    /// OBJ palette 0-7 (OAM byte 3 bits3-1).
    pub palette: u8,
    /// True if this column holds an opaque OBJ pixel.
    pub opaque: bool,
}

/// One pixel emitted by a background tile fetch for a scanline column.
#[derive(Clone, Copy, Default, PartialEq, Eq, Debug, Structural)]
pub struct LayerPixel {
    /// Full 8-bit CGRAM index with palette base applied. Meaningful only when
    /// `opaque`.
    pub color: u8,
    /// Tilemap priority bit (tilemap entry bit13).
    pub priority: u8,
    /// True if opaque (non-zero pixel within its palette).
    pub opaque: bool,
}

/// The transparent sprite pixel.
pub open spec fn obj_clear() -> ObjPixel {
    ObjPixel { color: 0, priority: 0, palette: 0, opaque: false }
}

/// The transparent background pixel.
pub open spec fn layer_clear() -> LayerPixel {
    LayerPixel { color: 0, priority: 0, opaque: false }
}

impl ObjPixel {
    pub fn clear() -> (p: ObjPixel)
        ensures
            p == obj_clear(),
    {
        ObjPixel { color: 0, priority: 0, palette: 0, opaque: false }
    }
}

impl LayerPixel {
    pub fn clear() -> (p: LayerPixel)
        ensures
            p == layer_clear(),
    {
        LayerPixel { color: 0, priority: 0, opaque: false }
    }
}

pub struct Ppu {
    /// 32K words (64 KB), two byte planes fused into one u16 per word address.
    pub vram: Box<[u16; 32768]>,
    /// 256 BGR555 colors (`0BBBBBGG GGGRRRRR`).
    pub cgram: [u16; 256],
    /// OAM table 1 (512 B): 128 sprites x 4 bytes.
    pub oam_lo: [u8; 512],
    /// OAM table 2 (32 B): 2 bits/sprite (X bit8 + size).
    pub oam_hi: [u8; 32],
    /// Final composited frame for the current field.
    pub framebuffer: FrameBuffer,
    /// Raw last-written $2100-$213F.
    pub regs: [u8; 64],
    /// PPU1/PPU2 open-bus data latches.
    pub ppu1_mdr: u8,
    pub ppu2_mdr: u8,
    /// $2115 VMAIN.
    pub vmain: u8,
    /// $2116/$2117 word address.
    pub vram_addr: u16,
    /// Read prefetch buffer (dummy-read latch).
    pub vram_prefetch: u16,
    /// $2121 color index.
    pub cgram_addr: u8,
    /// Low-byte latch for $2122 word writes.
    pub cgram_latch: u8,
    /// Byte toggle shared by $2122 write and $213B read (false = low byte next).
    pub cgram_hi: bool,
    /// OAMADD reload value from $2102 (+ $2103 bit0), 9-bit word address.
    pub oam_addr_reg: u16,
    /// $2103 bit7: sprite priority rotation enable.
    pub oam_priority: bool,
    /// Internal byte address (0..0x3FF), auto-incrementing.
    pub oam_addr: u16,
    /// Low-byte latch for $2104 word writes into table 1.
    pub oam_latch: u8,
    /// Current H/V dot counters, latched into OPHCT/OPVCT on SLHV.
    pub h_counter: u16,
    pub v_counter: u16,
    pub ophct: u16,
    pub opvct: u16,
    /// OPHCT/OPVCT read flip-flops (false = low byte next).
    pub ophct_hi: bool,
    pub opvct_hi: bool,
    /// Counter-latch flag ($213F bit6).
    pub counter_latched: bool,
    /// Interlace field toggle ($213F bit7).
    pub interlace_field: bool,
    /// $213F bit4: 0 = NTSC, 1 = PAL.
    pub is_pal: bool,
    /// $213E bit6 OBJ range over (>32 sprites on a line).
    pub obj_range_over: bool,
    /// $213E bit7 OBJ time over (>34 tile slivers on a line).
    pub obj_time_over: bool,
    /// $2100 INIDISP bit7.
    pub forced_blank: bool,
    /// $2100 INIDISP bits3-0 master brightness 0-15.
    pub brightness: u8,
    /// $2101 OBSEL bits7-5 object size mode.
    pub obj_size: u8,
    /// $2101 OBSEL name base word address.
    pub obj_name_base: u16,
    /// $2101 OBSEL name-select gap for tiles $100-$1FF.
    pub obj_name_gap: u16,
    /// $2105 BGMODE bits2-0.
    pub bg_mode: u8,
    /// $2105 bit3: Mode 1 BG3 priority lift.
    pub bg3_priority: bool,
    /// $2105 bits4-7: per-BG char size (false = 8x8, true = 16x16).
    pub bg_tile_size: [bool; 4],
    /// $2106 bits7-4 mosaic size.
    pub mosaic_size: u8,
    /// $2106 bits3-0 mosaic enable.
    pub mosaic_enable: u8,
    /// $2107-$210A BGnSC tilemap base word address.
    pub bg_map_base: [u16; 4],
    /// $2107-$210A BGnSC size.
    pub bg_map_size: [u8; 4],
    /// $210B/$210C char base word address per BG.
    pub bg_char_base: [u16; 4],
    /// $210D-$2114 H/V scroll (10-bit).
    pub bg_hofs: [u16; 4],
    pub bg_vofs: [u16; 4],
    /// Shared scroll write latch.
    pub bgofs_latch: u8,
    /// Extra latch used only by BGnHOFS writes.
    pub bghofs_latch: u8,
    /// $210D/$210E M7HOFS/M7VOFS (13-bit signed).
    pub m7_hofs: u16,
    pub m7_vofs: u16,
    /// Shared single Mode-7 write latch.
    pub mode7_latch: u8,
    /// $211B-$211E matrix (16-bit signed 8.8).
    pub m7a: i16,
    pub m7b: i16,
    pub m7c: i16,
    pub m7d: i16,
    /// $211F/$2120 center (13-bit signed).
    pub m7x: i16,
    pub m7y: i16,
    /// $211A M7SEL.
    pub m7sel: u8,
    /// Most recent byte written to $211C, the MPY multiplier.
    pub m7_mul_operand: i8,
    /// $212C TM main-screen layer enable.
    pub main_screen: u8,
    /// $212D TS sub-screen layer enable.
    pub sub_screen: u8,
    /// $212E TMW main-screen window masking enable.
    pub main_window: u8,
    /// $212F TSW sub-screen window masking enable.
    pub sub_window: u8,
    /// $2133 bit2 overscan.
    pub overscan: bool,
    /// $2133 bit0 screen interlace.
    pub interlace: bool,
    /// $2133 bit1 OBJ interlace.
    pub obj_interlace: bool,
    /// $2133 bit3 pseudo-hires.
    pub pseudo_hires: bool,
    /// $2133 bit6 EXTBG.
    pub extbg: bool,
    /// $2123 W12SEL.
    pub w12sel: u8,
    /// $2124 W34SEL.
    pub w34sel: u8,
    /// $2125 WOBJSEL.
    pub wobjsel: u8,
    /// $2126/$2127 window 1 left/right (inclusive).
    pub w1_left: u8,
    pub w1_right: u8,
    /// $2128/$2129 window 2 left/right.
    pub w2_left: u8,
    pub w2_right: u8,
    /// $212A WBGLOG.
    pub wbglog: u8,
    /// $212B WOBJLOG.
    pub wobjlog: u8,
    /// $2130 CGWSEL.
    pub cgwsel: u8,
    /// $2131 CGADSUB.
    pub cgadsub: u8,
    /// $2132 COLDATA fixed color, per-channel 5-bit.
    pub coldata_r: u8,
    pub coldata_g: u8,
    pub coldata_b: u8,
}

impl Ppu {
    /// Power-on state: every memory, latch and register cleared.
    pub open spec fn is_power_on(self) -> bool {
        &&& forall|i: int| 0 <= i < 32768 ==> self.vram@[i] == 0
        &&& forall|i: int| 0 <= i < 256 ==> self.cgram@[i] == 0
        &&& forall|i: int| 0 <= i < 512 ==> self.oam_lo@[i] == 0
        &&& forall|i: int| 0 <= i < 32 ==> self.oam_hi@[i] == 0
        &&& forall|i: int| 0 <= i < 57344 ==> self.framebuffer.0@[i] == 0
        &&& forall|i: int| 0 <= i < 64 ==> self.regs@[i] == 0
        &&& forall|i: int| 0 <= i < 4 ==> !self.bg_tile_size@[i]
        &&& forall|i: int|
            0 <= i < 4 ==> self.bg_map_base@[i] == 0 && self.bg_map_size@[i] == 0
                && self.bg_char_base@[i] == 0 && self.bg_hofs@[i] == 0 && self.bg_vofs@[i] == 0
        &&& self.ppu1_mdr == 0 && self.ppu2_mdr == 0
        &&& self.vmain == 0 && self.vram_addr == 0 && self.vram_prefetch == 0
        &&& self.cgram_addr == 0 && self.cgram_latch == 0 && !self.cgram_hi
        &&& self.oam_addr_reg == 0 && !self.oam_priority && self.oam_addr == 0 && self.oam_latch == 0
        &&& self.h_counter == 0 && self.v_counter == 0 && self.ophct == 0 && self.opvct == 0
        &&& !self.ophct_hi && !self.opvct_hi && !self.counter_latched
        &&& !self.interlace_field && !self.is_pal && !self.obj_range_over && !self.obj_time_over
        &&& !self.forced_blank && self.brightness == 0 && self.obj_size == 0
        &&& self.obj_name_base == 0 && self.obj_name_gap == 0
        &&& self.bg_mode == 0 && !self.bg3_priority && self.mosaic_size == 0 && self.mosaic_enable == 0
        &&& self.bgofs_latch == 0 && self.bghofs_latch == 0
        &&& self.m7_hofs == 0 && self.m7_vofs == 0 && self.mode7_latch == 0
        &&& self.m7a == 0 && self.m7b == 0 && self.m7c == 0 && self.m7d == 0
        &&& self.m7x == 0 && self.m7y == 0 && self.m7sel == 0 && self.m7_mul_operand == 0
        &&& self.main_screen == 0 && self.sub_screen == 0 && self.main_window == 0 && self.sub_window == 0
        &&& !self.overscan && !self.interlace && !self.obj_interlace && !self.pseudo_hires && !self.extbg
        &&& self.w12sel == 0 && self.w34sel == 0 && self.wobjsel == 0
        &&& self.w1_left == 0 && self.w1_right == 0 && self.w2_left == 0 && self.w2_right == 0
        &&& self.wbglog == 0 && self.wobjlog == 0
        &&& self.cgwsel == 0 && self.cgadsub == 0
        &&& self.coldata_r == 0 && self.coldata_g == 0 && self.coldata_b == 0
    }

    pub fn new() -> (p: Ppu)
        ensures
            p.is_power_on(),
    {
        Ppu {
            vram: Box::new([0u16; 32768]),
            cgram: [0u16; 256],
            oam_lo: [0u8; 512],
            oam_hi: [0u8; 32],
            framebuffer: FrameBuffer::new(),
            regs: [0u8; 64],
            ppu1_mdr: 0,
            ppu2_mdr: 0,
            vmain: 0,
            vram_addr: 0,
            vram_prefetch: 0,
            cgram_addr: 0,
            cgram_latch: 0,
            cgram_hi: false,
            oam_addr_reg: 0,
            oam_priority: false,
            oam_addr: 0,
            oam_latch: 0,
            h_counter: 0,
            v_counter: 0,
            ophct: 0,
            opvct: 0,
            ophct_hi: false,
            opvct_hi: false,
            counter_latched: false,
            interlace_field: false,
            is_pal: false,
            obj_range_over: false,
            obj_time_over: false,
            forced_blank: false,
            brightness: 0,
            obj_size: 0,
            obj_name_base: 0,
            obj_name_gap: 0,
            bg_mode: 0,
            bg3_priority: false,
            bg_tile_size: [false; 4],
            mosaic_size: 0,
            mosaic_enable: 0,
            bg_map_base: [0u16; 4],
            bg_map_size: [0u8; 4],
            bg_char_base: [0u16; 4],
            bg_hofs: [0u16; 4],
            bg_vofs: [0u16; 4],
            bgofs_latch: 0,
            bghofs_latch: 0,
            m7_hofs: 0,
            m7_vofs: 0,
            mode7_latch: 0,
            m7a: 0,
            m7b: 0,
            m7c: 0,
            m7d: 0,
            m7x: 0,
            m7y: 0,
            m7sel: 0,
            m7_mul_operand: 0,
            main_screen: 0,
            sub_screen: 0,
            main_window: 0,
            sub_window: 0,
            overscan: false,
            interlace: false,
            obj_interlace: false,
            pseudo_hires: false,
            extbg: false,
            w12sel: 0,
            w34sel: 0,
            wobjsel: 0,
            w1_left: 0,
            w1_right: 0,
            w2_left: 0,
            w2_right: 0,
            wbglog: 0,
            wobjlog: 0,
            cgwsel: 0,
            cgadsub: 0,
            coldata_r: 0,
            coldata_g: 0,
            coldata_b: 0,
        }
    }

    /// Top of a new field: the interlace field flips and the sticky
    /// range/time-over flags clear.
    pub open spec fn frame_started(self) -> Ppu {
        Ppu {
            interlace_field: !self.interlace_field,
            obj_range_over: false,
            obj_time_over: false,
            ..self
        }
    }

    pub fn start_frame(&mut self)
        ensures
            *final(self) == old(self).frame_started(),
    {
        self.interlace_field = !self.interlace_field;
        self.obj_range_over = false;
        self.obj_time_over = false;
    }

    pub fn set_hv_counters(&mut self, h: u16, v: u16)
        ensures
            *final(self) == (Ppu { h_counter: h, v_counter: v, ..*old(self) }),
    {
        self.h_counter = h;
        self.v_counter = v;
    }

    /// Internal OAM byte address reloaded from OAMADD.
    #[verifier::opaque]
    pub open spec fn oam_reloaded(self) -> Ppu {
        Ppu { oam_addr: ((self.oam_addr_reg & 0x1FF) << 1u16) as u16, ..self }
    }

    /// Reload the internal OAM byte address from OAMADD (start of V-blank).
    pub fn reload_oam_addr(&mut self)
        ensures
            *final(self) == old(self).oam_reloaded(),
    {
        proof {
            reveal(Ppu::oam_reloaded);
        }
        self.oam_addr = (self.oam_addr_reg & 0x1FF) << 1;
    }
}

impl Default for Ppu {
    fn default() -> (p: Ppu)
        ensures
            p.is_power_on(),
    {
        Ppu::new()
    }
}

} // verus!
