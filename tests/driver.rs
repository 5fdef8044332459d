use glowie::driver::{surface_action, FrameDriver, SurfaceAction, SurfaceStatus};

#[test]
fn surface_failures_map_to_actions() {
    assert_eq!(surface_action(SurfaceStatus::Acquired), SurfaceAction::Render);
    assert_eq!(surface_action(SurfaceStatus::Lost), SurfaceAction::Reconfigure);
    assert_eq!(surface_action(SurfaceStatus::Outdated), SurfaceAction::Skip);
    assert_eq!(surface_action(SurfaceStatus::Timeout), SurfaceAction::Skip);
    assert_eq!(surface_action(SurfaceStatus::OutOfMemory), SurfaceAction::Fail);
}

#[test]
fn resize_between_frames_applies_at_once() {
    let mut d = FrameDriver::new();
    assert_eq!(d.resize(640, 480), Some((640, 480)));
    assert_eq!(d.pending_resize, None);
    d.begin_frame();
    assert_eq!(d.end_frame(), None);
}

#[test]
fn resize_during_a_frame_waits_for_its_end() {
    let mut d = FrameDriver::new();
    d.begin_frame();
    assert_eq!(d.resize(640, 480), None);
    assert_eq!(d.resize(1024, 768), None);
    assert!(d.in_frame);
    assert_eq!(d.end_frame(), Some((1024, 768)));
    assert!(!d.in_frame);
    assert_eq!(d.end_frame(), None);
}
