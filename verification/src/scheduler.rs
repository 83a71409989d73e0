//! Master-clock scheduler: a single u64 clock, one `next_event` timestamp for
//! the end of the current scanline, the NMI / H-V-IRQ latches and the
//! auto-joypad trigger pulse the bus consumes to give $4200-$4212 their
//! hardware semantics.
//!
//! The whole behaviour of `tick` is stated as a pure state transition
//! (`Scheduler::ticked`), built from the two per-line steps the hardware
//! performs: the IRQ comparator check (`checked`) and the end-of-line
//! bookkeeping (`line_ended`).

use vstd::prelude::*;

verus! {

/// One scanline = 1364 master cycles (both regions).
pub const CYCLES_PER_LINE: u64 = 1364;

/// Default vblank/NMI line (V=225) in both regions.
pub const NMI_LINE: u16 = 225;

/// Vblank/NMI line when overscan ($2133 bit2) selects 239 visible lines.
pub const OVERSCAN_NMI_LINE: u16 = 240;

/// Largest master-clock value the scheduler may reach. The margin above it
/// keeps every derived timestamp (next line, IRQ trigger point) inside u64.
pub const MAX_CLOCK: u64 = 0xFFFF_FFFF_FFF0_0000;

/// Video region of the console.
#[derive(Clone, Copy, PartialEq, Eq, Debug, Structural)]
pub enum Region {
    Ntsc,
    Pal,
}

/// Scanlines per frame of a region.
pub open spec fn spec_lines_per_frame(r: Region) -> u16 {
    match r {
        Region::Ntsc => 262,
        Region::Pal => 312,
    }
}

/// Master clock frequency of a region, in Hz.
pub open spec fn spec_master_clock_hz(r: Region) -> u32 {
    match r {
        Region::Ntsc => 21_477_272,
        Region::Pal => 21_281_370,
    }
}

impl Region {
    pub fn lines_per_frame(self) -> (r: u16)
        ensures
            r == spec_lines_per_frame(self),
    {
        match self {
            Region::Ntsc => 262,
            Region::Pal => 312,
        }
    }

    pub fn master_clock_hz(self) -> (r: u32)
        ensures
            r == spec_master_clock_hz(self),
    {
        match self {
            Region::Ntsc => 21_477_272,
            Region::Pal => 21_281_370,
        }
    }
}

/// Master-cycle offset from line start to the H/V-IRQ trigger point: H=0
/// fires 10 cycles into the line (1374 after the previous line's dot 0),
/// H>0 fires 14 + H*4 cycles into the line.
pub open spec fn spec_h_irq_offset(htime: u16) -> u64 {
    if htime == 0 {
        (1374 - CYCLES_PER_LINE) as u64
    } else {
        (14 + (htime as u64) * 4) as u64
    }
}

/// Trigger timestamp of the H/V-IRQ for the current line, or `None` when the
/// mode does not fire on it. Mode 1 fires every line at HTIME, mode 2 once per
/// frame at (VTIME, H=0), mode 3 once per frame at (VTIME, HTIME).
pub open spec fn spec_irq_trigger(mode: u8, v: u16, vtime: u16, htime: u16, line_start: u64) -> Option<u64> {
    if mode == 1 {
        Some((line_start + spec_h_irq_offset(htime)) as u64)
    } else if mode == 2 {
        if v == vtime {
            Some((line_start + spec_h_irq_offset(0)) as u64)
        } else {
            None
        }
    } else if mode == 3 {
        if v == vtime {
            Some((line_start + spec_h_irq_offset(htime)) as u64)
        } else {
            None
        }
    } else {
        None
    }
}

pub struct Scheduler {
    pub region: Region,
    /// Master clock, monotonically increasing for the lifetime of the console.
    pub clock: u64,
    /// Timestamp of the next end-of-line event.
    pub next_event: u64,
    /// Current scanline (V). V=0 is the pre-render line.
    pub v: u16,
    /// Scanline at which vblank starts: 225 normally, 240 in overscan.
    pub vblank_line: u16,
    /// Master-clock timestamp at which the current line started.
    pub line_start: u64,
    /// Set when V wraps to 0 (frame complete); consumer clears it.
    pub frame_done: bool,
    /// The CPU's edge-triggered /NMI latch.
    pub nmi_pending: bool,
    /// $4212.7 VBlank flag mirror.
    pub in_vblank: bool,
    /// $4200.7 mirror: NMI enable.
    pub nmi_enable: bool,
    /// $4210.7 "NMI occurred" latch.
    pub vblank_nmi_flag: bool,
    /// Pulses true when V reaches the vblank line.
    pub auto_joypad_pending: bool,
    /// Pulses true whenever a scanline boundary was crossed.
    pub line_boundary_crossed: bool,
    /// $4200 bits5-4 mirror: 0=off, 1=H-IRQ, 2=V-IRQ, 3=HV-IRQ.
    pub irq_mode: u8,
    /// $4207/$4208 HTIME, 9-bit.
    pub htime: u16,
    /// $4209/$420A VTIME, 9-bit.
    pub vtime: u16,
    /// $4211.7 TIMEUP latch.
    pub irq_pending: bool,
    /// Absolute timestamp of the next H/V-IRQ trigger for the current
    /// line/frame, or `None` when the configured mode does not fire on this
    /// line. Re-armed once per line and on every mode/HTIME/VTIME write.
    pub irq_target: Option<u64>,
}

impl Scheduler {
    /// Timing invariant: the current line started at `line_start`, ends at
    /// `next_event`, and the clock lies inside it; V is a valid line of the
    /// region; the clock keeps its headroom.
    pub open spec fn wf(self) -> bool {
        &&& self.next_event == self.line_start + CYCLES_PER_LINE
        &&& self.line_start <= self.clock
        &&& self.clock < self.next_event
        &&& self.clock <= MAX_CLOCK
        &&& self.v < spec_lines_per_frame(self.region)
    }

    /// The armed IRQ trigger timestamp.
    pub open spec fn armed_irq(self) -> Option<u64> {
        self.irq_target
    }

    /// The comparator step: a trigger at or before the clock fires (sets
    /// TIMEUP) and disarms itself.
    pub open spec fn checked(self) -> Scheduler {
        if self.irq_target is Some && self.clock >= self.irq_target->0 {
            Scheduler { irq_pending: true, irq_target: None, ..self }
        } else {
            self
        }
    }

    /// The end-of-line step: the next line starts, V advances (wrapping to 0
    /// at the end of the frame), vblank / NMI / auto-joypad latch at the
    /// vblank line, and the IRQ trigger is re-armed for the new line.
    pub open spec fn line_ended(self) -> Scheduler {
        let v1 = (self.v + 1) as u16;
        let at_vblank = v1 == self.vblank_line;
        let wraps = v1 >= spec_lines_per_frame(self.region);
        let s = Scheduler {
            line_start: self.next_event,
            next_event: (self.next_event + CYCLES_PER_LINE) as u64,
            v: if wraps {
                0
            } else {
                v1
            },
            line_boundary_crossed: true,
            in_vblank: if wraps {
                false
            } else if at_vblank {
                true
            } else {
                self.in_vblank
            },
            vblank_nmi_flag: if wraps {
                false
            } else if at_vblank {
                true
            } else {
                self.vblank_nmi_flag
            },
            nmi_pending: if at_vblank && !self.vblank_nmi_flag && self.nmi_enable {
                true
            } else {
                self.nmi_pending
            },
            auto_joypad_pending: if at_vblank {
                true
            } else {
                self.auto_joypad_pending
            },
            frame_done: if wraps {
                true
            } else {
                self.frame_done
            },
            ..self
        };
        Scheduler {
            irq_target: spec_irq_trigger(s.irq_mode, s.v, s.vtime, s.htime, s.line_start),
            ..s
        }
    }

    /// Every line boundary the clock has reached, processed in order.
    pub open spec fn lines_processed(self) -> Scheduler
        decreases self.clock + CYCLES_PER_LINE - self.next_event,
    {
        if self.clock < self.next_event || self.next_event > u64::MAX - CYCLES_PER_LINE {
            self
        } else {
            self.checked().line_ended().lines_processed()
        }
    }

    /// The whole effect of `tick(cycles)`.
    pub open spec fn ticked(self, cycles: u64) -> Scheduler {
        Scheduler { clock: (self.clock + cycles) as u64, ..self }.lines_processed().checked()
    }

    /// The trigger a register write arms: the one of the current line, unless
    /// it lies strictly in the past (the live comparator has passed it).
    pub open spec fn rearmed_on_write(self) -> Scheduler {
        let t = spec_irq_trigger(self.irq_mode, self.v, self.vtime, self.htime, self.line_start);
        Scheduler {
            irq_target: if t is Some && t->0 < self.clock {
                None
            } else {
                t
            },
            ..self
        }
    }

    /// The armed trigger, if any, is not in the past.
    pub open spec fn armed_not_past(self) -> bool {
        self.irq_target is Some ==> self.irq_target->0 >= self.clock
    }

    /// The trigger re-armed unconditionally for the current line.
    pub open spec fn rearmed(self) -> Scheduler {
        Scheduler {
            irq_target: spec_irq_trigger(self.irq_mode, self.v, self.vtime, self.htime, self.line_start),
            ..self
        }
    }

    /// Effect of a $4200 bit7 write.
    pub open spec fn nmi_enable_written(self, enable: bool) -> Scheduler {
        Scheduler {
            nmi_enable: enable,
            nmi_pending: if !self.nmi_enable && enable && self.vblank_nmi_flag {
                true
            } else {
                self.nmi_pending
            },
            ..self
        }
    }

    /// Effect of a $2133 bit2 write.
    pub open spec fn overscan_written(self, overscan: bool) -> Scheduler {
        Scheduler {
            vblank_line: if overscan {
                OVERSCAN_NMI_LINE
            } else {
                NMI_LINE
            },
            ..self
        }
    }

    /// Effect of a $4200 bits5-4 write.
    pub open spec fn irq_mode_written(self, mode: u8) -> Scheduler {
        Scheduler {
            irq_mode: mode & 3,
            irq_pending: if mode & 3 == 0 {
                false
            } else {
                self.irq_pending
            },
            ..self
        }.rearmed_on_write()
    }

    /// Effect of an HTIME write that leaves HTIME at `htime`.
    pub open spec fn htime_written(self, htime: u16) -> Scheduler {
        Scheduler { htime, ..self }.rearmed_on_write()
    }

    /// Effect of a VTIME write that leaves VTIME at `vtime`.
    pub open spec fn vtime_written(self, vtime: u16) -> Scheduler {
        Scheduler { vtime, ..self }.rearmed_on_write()
    }

    pub fn new(region: Region) -> (s: Scheduler)
        ensures
            s.region == region,
            s.clock == 0,
            s.next_event == CYCLES_PER_LINE,
            s.v == 0,
            s.vblank_line == NMI_LINE,
            s.line_start == 0,
            !s.frame_done,
            !s.nmi_pending,
            !s.in_vblank,
            !s.nmi_enable,
            !s.vblank_nmi_flag,
            !s.auto_joypad_pending,
            !s.line_boundary_crossed,
            s.irq_mode == 0,
            s.htime == 0,
            s.vtime == 0,
            !s.irq_pending,
            s.armed_irq() is None,
            s.wf(),
    {
        Scheduler {
            region,
            clock: 0,
            next_event: CYCLES_PER_LINE,
            v: 0,
            vblank_line: NMI_LINE,
            line_start: 0,
            frame_done: false,
            nmi_pending: false,
            in_vblank: false,
            nmi_enable: false,
            vblank_nmi_flag: false,
            auto_joypad_pending: false,
            line_boundary_crossed: false,
            irq_mode: 0,
            htime: 0,
            vtime: 0,
            irq_pending: false,
            irq_target: None,
        }
    }

    /// Advance the master clock by `cycles`, process every line boundary
    /// crossed (checking the armed IRQ before each), then check the IRQ once
    /// more for the line the clock now sits in.
    pub fn tick(&mut self, cycles: u64)
        requires
            old(self).wf(),
            old(self).clock + cycles <= MAX_CLOCK,
        ensures
            *final(self) == old(self).ticked(cycles),
            final(self).wf(),
            final(self).clock == old(self).clock + cycles,
            final(self).region == old(self).region,
    {
        self.clock = self.clock + cycles;
        let ghost start = *self;
        while self.clock >= self.next_event
            invariant
                self.lines_processed() == start.lines_processed(),
                self.next_event == self.line_start + CYCLES_PER_LINE,
                self.line_start <= self.clock,
                self.clock <= MAX_CLOCK,
                self.v < spec_lines_per_frame(self.region),
            decreases self.clock + CYCLES_PER_LINE - self.next_event,
        {
            self.check_irq();
            self.end_of_line();
        }
        self.check_irq();
        proof {
            lemma_lines_processed_wf(start);
        }
    }

    fn end_of_line(&mut self)
        requires
            old(self).next_event <= MAX_CLOCK,
            old(self).v < spec_lines_per_frame(old(self).region),
        ensures
            *final(self) == old(self).line_ended(),
    {
        self.line_start = self.next_event;
        self.next_event = self.next_event + CYCLES_PER_LINE;
        self.v = self.v + 1;
        self.line_boundary_crossed = true;
        if self.v == self.vblank_line {
            self.in_vblank = true;
            let was_set = self.vblank_nmi_flag;
            self.vblank_nmi_flag = true;
            if !was_set && self.nmi_enable {
                self.nmi_pending = true;
            }
            self.auto_joypad_pending = true;
        }
        if self.v >= self.region.lines_per_frame() {
            self.v = 0;
            self.in_vblank = false;
            self.vblank_nmi_flag = false;
            self.frame_done = true;
        }
        self.rearm_irq();
    }

    fn check_irq(&mut self)
        ensures
            *final(self) == old(self).checked(),
    {
        if let Some(target) = self.irq_target {
            if self.clock >= target {
                self.irq_pending = true;
                self.irq_target = None;
            }
        }
    }

    fn compute_irq_target(&self) -> (t: Option<u64>)
        requires
            self.line_start <= MAX_CLOCK,
        ensures
            t == spec_irq_trigger(self.irq_mode, self.v, self.vtime, self.htime, self.line_start),
    {
        match self.irq_mode {
            0 => None,
            1 => Some(self.line_start + Self::h_irq_offset(self.htime)),
            2 => {
                if self.v == self.vtime {
                    Some(self.line_start + Self::h_irq_offset(0))
                } else {
                    None
                }
            },
            3 => {
                if self.v == self.vtime {
                    Some(self.line_start + Self::h_irq_offset(self.htime))
                } else {
                    None
                }
            },
            _ => None,
        }
    }

    fn rearm_irq(&mut self)
        requires
            old(self).line_start <= MAX_CLOCK,
        ensures
            *final(self) == old(self).rearmed(),
    {
        self.irq_target = self.compute_irq_target();
    }

    fn rearm_irq_write(&mut self)
        requires
            old(self).line_start <= MAX_CLOCK,
        ensures
            *final(self) == old(self).rearmed_on_write(),
    {
        self.irq_target = match self.compute_irq_target() {
            Some(t) => {
                if t < self.clock {
                    None
                } else {
                    Some(t)
                }
            },
            None => None,
        };
    }

    fn h_irq_offset(htime: u16) -> (r: u64)
        ensures
            r == spec_h_irq_offset(htime),
            r <= 14 + 4 * 0xFFFF,
    {
        if htime == 0 {
            1374 - CYCLES_PER_LINE
        } else {
            14 + htime as u64 * 4
        }
    }

    /// $4200 bit7 mirror. Enabling NMI while the "NMI occurred" flag is
    /// already set is a 0->1 edge of (enable AND flag) and fires at once.
    pub fn set_nmi_enable(&mut self, enable: bool)
        ensures
            *final(self) == old(self).nmi_enable_written(enable),
    {
        if !self.nmi_enable && enable && self.vblank_nmi_flag {
            self.nmi_pending = true;
        }
        self.nmi_enable = enable;
    }

    /// $2133 bit2 mirror: moves vblank start from V=225 to V=240.
    pub fn set_overscan(&mut self, overscan: bool)
        ensures
            *final(self) == old(self).overscan_written(overscan),
    {
        self.vblank_line = if overscan {
            OVERSCAN_NMI_LINE
        } else {
            NMI_LINE
        };
    }

    /// $4200 bits5-4. Mode 0 also acknowledges a pending TIMEUP flag.
    pub fn set_irq_mode(&mut self, mode: u8)
        requires
            old(self).wf(),
        ensures
            *final(self) == old(self).irq_mode_written(mode),
            final(self).wf(),
            final(self).armed_not_past(),
    {
        self.irq_mode = mode & 0x3;
        if self.irq_mode == 0 {
            self.irq_pending = false;
        }
        self.rearm_irq_write();
    }

    /// $4207: HTIME bits 7-0.
    pub fn set_htime_lo(&mut self, value: u8)
        requires
            old(self).wf(),
        ensures
            *final(self) == old(self).htime_written(((old(self).htime & 0x100) | value as u16) as u16),
            final(self).wf(),
            final(self).armed_not_past(),
    {
        self.htime = (self.htime & 0x100) | value as u16;
        self.rearm_irq_write();
    }

    /// $4208: HTIME bit 8.
    pub fn set_htime_hi(&mut self, value: u8)
        requires
            old(self).wf(),
        ensures
            *final(self) == old(self).htime_written(((old(self).htime & 0x0FF) | (((value & 1) as u16) << 8)) as u16),
            final(self).wf(),
            final(self).armed_not_past(),
    {
        self.htime = (self.htime & 0x0FF) | (((value & 1) as u16) << 8);
        self.rearm_irq_write();
    }

    /// $4209: VTIME bits 7-0.
    pub fn set_vtime_lo(&mut self, value: u8)
        requires
            old(self).wf(),
        ensures
            *final(self) == old(self).vtime_written(((old(self).vtime & 0x100) | value as u16) as u16),
            final(self).wf(),
            final(self).armed_not_past(),
    {
        self.vtime = (self.vtime & 0x100) | value as u16;
        self.rearm_irq_write();
    }

    /// $420A: VTIME bit 8.
    pub fn set_vtime_hi(&mut self, value: u8)
        requires
            old(self).wf(),
        ensures
            *final(self) == old(self).vtime_written(((old(self).vtime & 0x0FF) | (((value & 1) as u16) << 8)) as u16),
            final(self).wf(),
            final(self).armed_not_past(),
    {
        self.vtime = (self.vtime & 0x0FF) | (((value & 1) as u16) << 8);
        self.rearm_irq_write();
    }

    /// Horizontal position in master cycles within the current line.
    pub fn h_cycles(&self) -> (h: u64)
        requires
            self.line_start <= self.clock,
        ensures
            h == self.clock - self.line_start,
    {
        self.clock - self.line_start
    }

    /// $4212.6 HBlank flag: set from dot 274 to the end of the line and on
    /// dot 0 (one dot = 4 master cycles).
    pub fn hblank(&self) -> (b: bool)
        requires
            self.line_start <= self.clock,
        ensures
            b == (self.clock - self.line_start < 4 || self.clock - self.line_start >= 274 * 4),
    {
        let h = self.h_cycles();
        h < 4 || h >= 274 * 4
    }
}

/// Processing line boundaries from any state whose current line is laid out
/// correctly ends in a well-formed state, without touching the clock or the
/// region.
proof fn lemma_lines_processed_wf(s: Scheduler)
    requires
        s.next_event == s.line_start + CYCLES_PER_LINE,
        s.line_start <= s.clock,
        s.clock <= MAX_CLOCK,
        s.v < spec_lines_per_frame(s.region),
    ensures
        s.lines_processed().wf(),
        s.lines_processed().clock == s.clock,
        s.lines_processed().region == s.region,
    decreases s.clock + CYCLES_PER_LINE - s.next_event,
{
    if s.clock >= s.next_event {
        lemma_lines_processed_wf(s.checked().line_ended());
    }
}

/// Law: `tick` keeps the timing invariant, advances the clock by exactly the
/// cycles given (the master clock only ever moves forward), and never changes
/// the region.
pub proof fn law_tick_preserves_timing(s: Scheduler, cycles: u64)
    requires
        s.wf(),
        s.clock + cycles <= MAX_CLOCK,
    ensures
        s.ticked(cycles).wf(),
        s.ticked(cycles).clock == s.clock + cycles,
        s.ticked(cycles).clock >= s.clock,
        s.ticked(cycles).region == s.region,
{
    let t = Scheduler { clock: (s.clock + cycles) as u64, ..s };
    lemma_lines_processed_wf(t);
}

/// Processing `n` line boundaries: the line start moves `n` lines on, V
/// moves `n` lines on modulo the frame, and the frame is done when it was or
/// when V passed the last line.
proof fn lemma_lines_processed_advance(s: Scheduler, n: int)
    requires
        s.next_event == s.line_start + CYCLES_PER_LINE,
        s.clock <= MAX_CLOCK,
        s.v < spec_lines_per_frame(s.region),
        0 <= n,
        s.line_start + CYCLES_PER_LINE * n <= s.clock < s.line_start + CYCLES_PER_LINE * (n + 1),
    ensures
        s.lines_processed().clock == s.clock,
        s.lines_processed().line_start == s.line_start + CYCLES_PER_LINE * n,
        s.lines_processed().v == (s.v + n) % (spec_lines_per_frame(s.region) as int),
        s.lines_processed().frame_done == (s.frame_done || s.v + n >= spec_lines_per_frame(s.region)),
    decreases n,
{
    let lpf = spec_lines_per_frame(s.region) as int;
    if s.clock < s.next_event {
        assert(n == 0) by (nonlinear_arith)
            requires
                0 <= n,
                s.line_start + CYCLES_PER_LINE * n <= s.clock,
                s.clock < s.line_start + CYCLES_PER_LINE,
        ;
        assert((s.v + 0) % lpf == s.v) by (nonlinear_arith)
            requires
                0 <= s.v < lpf,
        ;
    } else {
        assert(n >= 1) by (nonlinear_arith)
            requires
                0 <= n,
                s.clock < s.line_start + CYCLES_PER_LINE * (n + 1),
                s.clock >= s.line_start + CYCLES_PER_LINE,
        ;
        let t = s.checked().line_ended();
        assert(t.line_start == s.line_start + CYCLES_PER_LINE);
        assert(t.line_start + CYCLES_PER_LINE * (n - 1) == s.line_start + CYCLES_PER_LINE * n) by (nonlinear_arith)
            requires
                t.line_start == s.line_start + CYCLES_PER_LINE,
        ;
        assert(t.line_start + CYCLES_PER_LINE * n == s.line_start + CYCLES_PER_LINE * (n + 1)) by (nonlinear_arith)
            requires
                t.line_start == s.line_start + CYCLES_PER_LINE,
        ;
        lemma_lines_processed_advance(t, n - 1);
        if s.v + 1 >= lpf {
            assert(t.v == 0);
            assert(s.v + 1 == lpf);
            assert((0 + (n - 1)) % lpf == (s.v + n) % lpf) by (nonlinear_arith)
                requires
                    s.v + 1 == lpf,
                    lpf > 0,
                    n >= 1,
            {
                vstd::arithmetic::div_mod::lemma_mod_add_multiples_vanish(n - 1, lpf);
            }
        } else {
            assert(t.v == s.v + 1);
        }
    }
}

/// Law: `tick(cycles)` moves the line start to the start of the line the
/// clock now lies in, `n` lines on; V moves `n` lines on and wraps to 0 at
/// the end of the frame; the frame is marked done exactly when V wrapped (or
/// when it was already).
pub proof fn law_tick_advances_lines(s: Scheduler, cycles: u64)
    requires
        s.wf(),
        s.clock + cycles <= MAX_CLOCK,
    ensures
        ({
            let n = (s.clock + cycles - s.line_start) / (CYCLES_PER_LINE as int);
            let t = s.ticked(cycles);
            &&& t.clock == s.clock + cycles
            &&& t.line_start == s.line_start + CYCLES_PER_LINE * n
            &&& t.next_event == t.line_start + CYCLES_PER_LINE
            &&& t.v == (s.v + n) % (spec_lines_per_frame(s.region) as int)
            &&& t.frame_done == (s.frame_done || s.v + n >= spec_lines_per_frame(s.region))
        }),
{
    let u = Scheduler { clock: (s.clock + cycles) as u64, ..s };
    let d = s.clock + cycles - s.line_start;
    let n = d / (CYCLES_PER_LINE as int);
    assert(0 <= n && CYCLES_PER_LINE * n <= d < CYCLES_PER_LINE * (n + 1)) by (nonlinear_arith)
        requires
            d >= 0,
            n == d / (CYCLES_PER_LINE as int),
    ;
    lemma_lines_processed_advance(u, n);
    lemma_lines_processed_wf(u);
}

/// Law: what each IRQ mode arms on a line that started at `line_start`.
/// The H trigger point lies 10 master cycles into the line for H = 0 and
/// 14 + 4*H cycles in otherwise. Mode 0 arms nothing; mode 1 (H-IRQ) arms
/// on every line; mode 2 (V-IRQ) arms at H = 0 and mode 3 (HV-IRQ) at HTIME,
/// both only on the line whose V is VTIME, so at most once a frame.
pub proof fn law_irq_modes(mode: u8, v: u16, vtime: u16, htime: u16, line_start: u64)
    requires
        line_start <= MAX_CLOCK,
    ensures
        ({
            let at_h = if htime == 0 { 10int } else { 14 + 4 * htime };
            let t = spec_irq_trigger(mode, v, vtime, htime, line_start);
            &&& mode == 0 ==> t is None
            &&& mode == 1 ==> (t matches Some(x) && x == line_start + at_h)
            &&& mode == 2 && v == vtime ==> (t matches Some(x) && x == line_start + 10)
            &&& mode == 3 && v == vtime ==> (t matches Some(x) && x == line_start + at_h)
            &&& (mode == 2 || mode == 3) && v != vtime ==> t is None
            &&& mode > 3 ==> t is None
        }),
{
}

/// Law: a register write ($4200 mode, HTIME, VTIME) never arms an IRQ trigger
/// that lies in the past, so rewriting the trigger position behind the live
/// H counter cannot fire a spurious IRQ on the current line.
pub proof fn law_write_rearm_not_in_past(s: Scheduler)
    ensures
        s.rearmed_on_write().armed_not_past(),
{
}

/// Law: a tick never lowers an IRQ already latched by a previous tick
/// (TIMEUP is level-held until acknowledged), nor an NMI already pending.
pub proof fn law_tick_keeps_latched_irq(s: Scheduler, cycles: u64)
    ensures
        s.irq_pending ==> s.ticked(cycles).irq_pending,
        s.nmi_pending ==> s.ticked(cycles).nmi_pending,
{
    let t = Scheduler { clock: (s.clock + cycles) as u64, ..s };
    lemma_lines_keep_latches(t);
}

proof fn lemma_lines_keep_latches(s: Scheduler)
    ensures
        s.irq_pending ==> s.lines_processed().irq_pending,
        s.nmi_pending ==> s.lines_processed().nmi_pending,
    decreases s.clock + CYCLES_PER_LINE - s.next_event,
{
    if !(s.clock < s.next_event || s.next_event > u64::MAX - CYCLES_PER_LINE) {
        lemma_lines_keep_latches(s.checked().line_ended());
    }
}

} // verus!
