use prisme::ppu::window::{active, force_black_region, prevent_math_region, W_BG1};
use prisme::ppu::Ppu;


#[test]
fn single_window_range_inclusive() {
    let mut ppu = Ppu::new();
    // BG1 W1 enabled, not inverted; range [10,20].
    ppu.w12sel = 0b10; // W1 enable bit for BG1
    ppu.w1_left = 10;
    ppu.w1_right = 20;
    assert!(!active(&ppu, W_BG1, 9));
    assert!(active(&ppu, W_BG1, 10));
    assert!(active(&ppu, W_BG1, 20));
    assert!(!active(&ppu, W_BG1, 21));
}

#[test]
fn inverted_window() {
    let mut ppu = Ppu::new();
    ppu.w12sel = 0b11; // BG1 W1 enable + invert
    ppu.w1_left = 10;
    ppu.w1_right = 20;
    assert!(active(&ppu, W_BG1, 9));
    assert!(!active(&ppu, W_BG1, 15));
}

#[test]
fn empty_when_left_gt_right() {
    let mut ppu = Ppu::new();
    ppu.w12sel = 0b10;
    ppu.w1_left = 200;
    ppu.w1_right = 10;
    assert!(!active(&ppu, W_BG1, 5));
    assert!(!active(&ppu, W_BG1, 205));
}

#[test]
fn two_windows_and_or() {
    let mut ppu = Ppu::new();
    // BG1 W1 [0,50] and W2 [40,100], both enabled.
    ppu.w12sel = 0b1010; // W1 enable (bit1) + W2 enable (bit3)
    ppu.w1_left = 0;
    ppu.w1_right = 50;
    ppu.w2_left = 40;
    ppu.w2_right = 100;
    // OR (default logic 0).
    assert!(active(&ppu, W_BG1, 10));
    assert!(active(&ppu, W_BG1, 90));
    // AND (logic 1): only the overlap [40,50].
    ppu.wbglog = 0b01;
    assert!(!active(&ppu, W_BG1, 10));
    assert!(active(&ppu, W_BG1, 45));
    assert!(!active(&ppu, W_BG1, 90));
}

#[test]
fn color_math_regions() {
    let mut ppu = Ppu::new();
    // Color window (layer 5) via WOBJSEL bits7-4: W1 enable, range [10,20].
    ppu.wobjsel = 0b0010_0000; // Color W1 enable
    ppu.w1_left = 10;
    ppu.w1_right = 20;
    // CGWSEL 5-4 = 2 (prevent math inside color window).
    ppu.cgwsel = 0b0010_0000;
    assert!(prevent_math_region(&ppu, 15));
    assert!(!prevent_math_region(&ppu, 5));
    // A column is taken as a byte: 256 + 15 is column 15.
    assert!(prevent_math_region(&ppu, 256 + 15));
    assert!(!prevent_math_region(&ppu, 256 + 5));
    // CGWSEL 7-6 = 3 (always force black).
    ppu.cgwsel = 0b1100_0000;
    assert!(force_black_region(&ppu, 0));
}
