use prisme::frame_plan::{frame_plan, sink_step, FramePlan, SinkStep};

#[test]
fn frames_are_dumped_on_multiples_of_the_interval() {
    let dumped: Vec<u32> = (0..10).filter(|&f| frame_plan(f, 0, 0, Some(3), true, None).dump).collect();
    assert_eq!(dumped, vec![0, 3, 6, 9]);
    assert!(!frame_plan(0, 0, 0, Some(0), true, None).dump);
    assert!(!frame_plan(3, 0, 0, Some(3), false, None).dump);
    assert!(!frame_plan(3, 0, 0, None, true, None).dump);
}

#[test]
fn the_state_is_taken_after_the_named_frame_only() {
    assert!(frame_plan(5, 0, 0, None, false, Some(5)).save_state);
    assert!(!frame_plan(4, 0, 0, None, false, Some(5)).save_state);
    assert!(!frame_plan(5, 0, 0, None, false, None).save_state);
}

#[test]
fn the_trace_window_includes_both_ends() {
    assert_eq!(frame_plan(2, 2, 4, None, false, None), FramePlan { in_window: true, dump: false, save_state: false });
    assert!(frame_plan(4, 2, 4, None, false, None).in_window);
    assert!(!frame_plan(1, 2, 4, None, false, None).in_window);
    assert!(!frame_plan(5, 2, 4, None, false, None).in_window);
}

#[test]
fn a_sink_is_installed_in_the_window_and_removed_after_it() {
    assert_eq!(sink_step(false, true), SinkStep::Install);
    assert_eq!(sink_step(true, true), SinkStep::Keep);
    assert_eq!(sink_step(true, false), SinkStep::Remove);
    assert_eq!(sink_step(false, false), SinkStep::Keep);
}
