use rim::camera::CameraState;
use rim::fixed::UNIT;

#[test]
fn scroll_sequence_is_applied_in_order() {
    let mut camera = CameraState::default();
    assert_eq!(camera.target_zoom, UNIT);
    camera.apply_scroll(UNIT);
    assert_eq!(camera.target_zoom, 1_100_000);
    camera.apply_scroll(UNIT);
    assert_eq!(camera.target_zoom, 1_200_000);
    camera.apply_scroll(-3 * UNIT);
    assert_eq!(camera.target_zoom, 900_000);
}

#[test]
fn scroll_events_match_single_scrolls() {
    let mut camera = CameraState::default();
    camera.apply_scroll_events(&vec![UNIT, UNIT, -3 * UNIT]);
    assert_eq!(camera.target_zoom, 900_000);
    assert_eq!(camera.zoom, UNIT);
}

#[test]
fn each_scroll_is_clamped_on_its_own() {
    let mut camera = CameraState::default();
    camera.apply_scroll_events(&vec![200 * UNIT, -UNIT]);
    assert_eq!(camera.target_zoom, 9_900_000);
    let mut low = CameraState::default();
    low.apply_scroll_events(&vec![-200 * UNIT]);
    assert_eq!(low.target_zoom, UNIT / 10);
}

#[test]
fn smoothing_step_closes_part_of_the_gap() {
    let mut camera = CameraState::default();
    camera.target_zoom = 2 * UNIT;
    camera.smooth(16_667);
    assert_eq!(camera.zoom, 1_133_336);
}

#[test]
fn smoothing_converges_without_overshoot() {
    let mut camera = CameraState::default();
    camera.target_zoom = 2 * UNIT;
    let mut steps = 0;
    while camera.zoom != 2 * UNIT {
        let before = camera.zoom;
        camera.smooth(16_667);
        assert!(camera.zoom >= before);
        assert!(camera.zoom >= UNIT && camera.zoom <= 2 * UNIT);
        steps += 1;
        assert!(steps < 100);
    }
    assert!((2 * UNIT - camera.zoom).abs() < 1_000);
}

#[test]
fn smoothing_downward_stays_between() {
    let mut camera = CameraState::default();
    camera.target_zoom = UNIT / 2;
    for _ in 0..200 {
        camera.smooth(16_667);
        assert!(camera.zoom >= UNIT / 2 && camera.zoom <= UNIT);
    }
    assert_eq!(camera.zoom, UNIT / 2);
}

#[test]
fn smoothing_snaps_within_epsilon() {
    let mut camera = CameraState::default();
    camera.target_zoom = 2 * UNIT;
    camera.zoom = 2 * UNIT - 999;
    camera.smooth(16_667);
    assert_eq!(camera.zoom, 2 * UNIT);
    camera.smooth(16_667);
    assert_eq!(camera.zoom, 2 * UNIT);
}

#[test]
fn smoothing_with_zero_dt_keeps_a_distant_zoom() {
    let mut camera = CameraState::default();
    camera.target_zoom = 2 * UNIT;
    camera.smooth(0);
    assert_eq!(camera.zoom, UNIT);
}

#[test]
fn long_frame_lands_on_target() {
    let mut camera = CameraState::default();
    camera.target_zoom = 3 * UNIT;
    camera.smooth(1_000_000);
    assert_eq!(camera.zoom, 3 * UNIT);
}

#[test]
fn zoom_change_gate_uses_strict_epsilon() {
    let mut camera = CameraState::default();
    camera.zoom = UNIT + 1_000;
    assert!(!camera.zoom_changed());
    camera.zoom = UNIT + 1_001;
    assert!(camera.zoom_changed());
    camera.zoom = UNIT - 1_001;
    assert!(camera.zoom_changed());
}

#[test]
fn camera_new_starts_at_unit_zoom() {
    let camera = CameraState::new(UNIT / 5, UNIT / 2, 4 * UNIT);
    assert_eq!(camera.zoom, UNIT);
    assert_eq!(camera.previous_zoom, UNIT);
    assert_eq!(camera.min_zoom, UNIT / 2);
    assert_eq!(camera.max_zoom, 4 * UNIT);
    assert_eq!(camera.zoom_speed, UNIT / 5);
}
