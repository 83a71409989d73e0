use prisme::scheduler::{Region, Scheduler, CYCLES_PER_LINE, NMI_LINE, OVERSCAN_NMI_LINE};


#[test]
fn pal_frame_terminates_and_latches_nmi() {
    let mut s = Scheduler::new(Region::Pal);
    s.set_nmi_enable(true);
    while !s.frame_done {
        s.tick(CYCLES_PER_LINE);
    }
    assert!(s.nmi_pending);
    assert_eq!(s.v, 0);
    assert_eq!(s.clock, 312 * CYCLES_PER_LINE);
}

#[test]
fn ntsc_frame_length() {
    let mut s = Scheduler::new(Region::Ntsc);
    while !s.frame_done {
        s.tick(100);
    }
    assert!(s.clock >= 262 * CYCLES_PER_LINE);
}

#[test]
fn nmi_disabled_sets_flag_but_not_cpu_latch() {
    let mut s = Scheduler::new(Region::Pal);
    for _ in 0..NMI_LINE {
        s.tick(CYCLES_PER_LINE);
    }
    assert!(s.vblank_nmi_flag);
    assert!(!s.nmi_pending);
}

#[test]
fn mid_vblank_enable_edge_triggers_nmi() {
    let mut s = Scheduler::new(Region::Pal);
    for _ in 0..NMI_LINE {
        s.tick(CYCLES_PER_LINE);
    }
    assert!(s.vblank_nmi_flag && !s.nmi_pending);
    // Enabling NMI while the vblank flag is already set is a 0->1 edge:
    // it must fire immediately (timing.md ยง5).
    s.set_nmi_enable(true);
    assert!(s.nmi_pending);
}

#[test]
fn vblank_nmi_flag_autoclears_at_frame_wrap() {
    let mut s = Scheduler::new(Region::Pal);
    while !s.frame_done {
        s.tick(CYCLES_PER_LINE);
    }
    assert!(!s.vblank_nmi_flag);
    assert!(!s.in_vblank);
}

#[test]
fn auto_joypad_pulses_once_at_vblank_start() {
    let mut s = Scheduler::new(Region::Pal);
    let mut pulses = 0;
    for _ in 0..NMI_LINE {
        s.tick(CYCLES_PER_LINE);
        if s.auto_joypad_pending {
            pulses += 1;
            s.auto_joypad_pending = false;
        }
    }
    assert_eq!(pulses, 1);
}

#[test]
fn hblank_toggles_within_a_line() {
    let mut s = Scheduler::new(Region::Pal);
    assert!(s.hblank()); // H=0: leftover set state from before line 0
    s.tick(4);
    assert!(!s.hblank()); // H=1: cleared
    s.tick(274 * 4 - 4 - 1);
    assert!(!s.hblank()); // just before H=274
    s.tick(1);
    assert!(s.hblank()); // H=274: set
}

#[test]
fn h_irq_fires_every_line() {
    let mut s = Scheduler::new(Region::Pal);
    s.set_htime_lo(10); // HTIME = 10 dots
    s.set_htime_hi(0);
    s.set_irq_mode(1); // H-IRQ, every line
    s.tick(14 + 10 * 4); // reach the trigger offset within line 0
    assert!(s.irq_pending);
    s.irq_pending = false;
    s.tick(CYCLES_PER_LINE); // next line: fires again
    assert!(s.irq_pending);
}

#[test]
fn v_irq_fires_once_per_frame_at_target_line() {
    let mut s = Scheduler::new(Region::Pal);
    s.set_vtime_lo(5);
    s.set_vtime_hi(0);
    s.set_irq_mode(2); // V-IRQ
    for _ in 0..5 {
        s.tick(CYCLES_PER_LINE);
        assert!(!s.irq_pending);
    }
    s.tick(20); // past the H=~2.5-dot trigger point of line 5
    assert!(s.irq_pending);
}

#[test]
fn rewriting_past_htime_midline_does_not_retrigger() {
    let mut s = Scheduler::new(Region::Pal);
    s.set_htime_lo(10); // trigger at 14 + 10*4 = 54 cycles into the line
    s.set_htime_hi(0);
    s.set_irq_mode(1);
    s.tick(54);
    assert!(s.irq_pending);
    s.irq_pending = false;
    // Mid-line, past the trigger position: rewriting a <= current HTIME must
    // NOT arm a past timestamp that re-fires this line (timing.md ยง6).
    s.tick(100); // now ~154 cycles into the line, past H=10's trigger
    s.set_htime_lo(5); // trigger would be at 34 cycles, already passed
    s.tick(1);
    assert!(!s.irq_pending);
    // The next line's unconditional rearm still fires H-mode.
    s.tick(CYCLES_PER_LINE);
    assert!(s.irq_pending);
}

#[test]
fn rewriting_future_htime_midline_arms_this_line() {
    let mut s = Scheduler::new(Region::Pal);
    s.set_htime_lo(10);
    s.set_htime_hi(0);
    s.set_irq_mode(1);
    s.tick(54);
    assert!(s.irq_pending);
    s.irq_pending = false;
    // Still before a later trigger position: rewriting a larger HTIME arms a
    // future same-line match, which the live comparator would still hit.
    s.tick(20); // ~74 cycles into the line
    s.set_htime_lo(200); // trigger at 14 + 200*4 = 814 cycles
    s.tick(814 - 74);
    assert!(s.irq_pending);
}

#[test]
fn disabling_irq_mode_acks_pending_timeup() {
    let mut s = Scheduler::new(Region::Pal);
    s.set_irq_mode(1);
    s.tick(CYCLES_PER_LINE);
    assert!(s.irq_pending);
    s.set_irq_mode(0);
    assert!(!s.irq_pending);
}

#[test]
fn each_region_runs_on_its_own_master_clock() {
    assert_eq!(Region::Ntsc.master_clock_hz(), 21_477_272);
    assert_eq!(Region::Pal.master_clock_hz(), 21_281_370);
}

#[test]
fn overscan_moves_the_start_of_vblank() {
    let mut s = Scheduler::new(Region::Ntsc);
    assert_eq!(s.vblank_line, NMI_LINE);
    s.set_overscan(true);
    assert_eq!(s.vblank_line, OVERSCAN_NMI_LINE);
    s.set_overscan(false);
    assert_eq!(s.vblank_line, NMI_LINE);
}

#[test]
fn a_tick_moves_v_by_the_lines_it_crosses_and_wraps_at_the_frame_end() {
    let mut s = Scheduler::new(Region::Ntsc);
    s.tick(1364 * 3 + 5);
    assert_eq!(s.v, 3);
    assert_eq!(s.line_start, 1364 * 3);
    assert_eq!(s.next_event, 1364 * 4);
    assert!(!s.frame_done);
    s.tick(1364 * 260);
    assert_eq!(s.v, 1);
    assert!(s.frame_done);
}
