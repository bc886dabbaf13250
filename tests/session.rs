use rim::animation::MathAnimation;
use rim::export::{
    plan_export, request_png_screenshot, screenshot_key_request, ExportAction, ExportFormat,
    ExportRequest,
};
use rim::fixed::UNIT;
use rim::performance::{
    fps_level, history_stats, memory_level, memory_usage_estimate, recent, HistoryStats, Level,
    PerformanceState,
};
use rim::scene::MathScene;

#[test]
fn animation_stops_at_its_end() {
    let mut a = MathAnimation::default();
    a.update(500_000);
    assert_eq!(a.elapsed, 0);
    a.is_playing = true;
    a.update(600_000);
    assert_eq!(a.elapsed, 600_000);
    assert!(a.is_playing);
    a.update(600_000);
    assert_eq!(a.elapsed, 1_200_000);
    assert!(!a.is_playing);
}

#[test]
fn looping_animation_starts_over() {
    let mut a = MathAnimation::default();
    a.is_playing = true;
    a.loop_animation = true;
    a.update(1_000_000);
    assert_eq!(a.elapsed, 0);
    assert!(a.is_playing);
}

#[test]
fn png_request_defaults_its_name() {
    let r = request_png_screenshot(None, 42);
    assert_eq!(r.filename, "screenshot_42.png");
    assert_eq!(r.format, ExportFormat::PNG);
    assert_eq!(r.resolution, (1920, 1080));
    let named = request_png_screenshot(Some("mine.png".to_string()), 42);
    assert_eq!(named.filename, "mine.png");
    let key = screenshot_key_request(1_700_000_000);
    assert_eq!(key.filename, "rim_screenshot_1700000000.png");
}

#[test]
fn png_is_saved_under_screenshots() {
    let r = request_png_screenshot(Some("a.png".to_string()), 0);
    match plan_export(&r) {
        ExportAction::SavePng { path } => assert_eq!(path, "screenshots/a.png"),
        ExportAction::Unsupported(_) => panic!("a PNG request must be saved"),
    }
}

#[test]
fn other_formats_are_unsupported() {
    for format in [ExportFormat::SVG, ExportFormat::GIF, ExportFormat::MP4] {
        let r = ExportRequest { format, filename: "x".to_string(), resolution: (1, 1) };
        match plan_export(&r) {
            ExportAction::Unsupported(f) => assert_eq!(f, format),
            ExportAction::SavePng { .. } => panic!("only PNG is saved"),
        }
    }
}

#[test]
fn performance_history_is_bounded() {
    let mut p = PerformanceState::default();
    p.max_history_len = 2;
    for _ in 0..120 {
        p.record_frame();
    }
    assert_eq!(p.frame_count, 120);
    assert!(!PerformanceState::should_refresh(999_999));
    assert!(PerformanceState::should_refresh(1_000_000));
    p.refresh(2_000_000, 7 * UNIT);
    assert_eq!(p.fps, 60 * UNIT);
    assert_eq!(p.frame_count, 0);
    p.refresh(1_000_000, 8 * UNIT);
    p.refresh(1_000_000, 9 * UNIT);
    assert_eq!(p.fps_history, vec![0, 0]);
    assert_eq!(p.memory_history, vec![8 * UNIT, 9 * UNIT]);
    assert!(p.toggle());
}

#[test]
fn memory_estimate_grows_within_the_minute() {
    assert_eq!(memory_usage_estimate(120), 50 * UNIT);
    assert_eq!(memory_usage_estimate(61), 50 * UNIT + 500_000);
    assert_eq!(memory_usage_estimate(59), 50 * UNIT + 59 * 500_000);
}

#[test]
fn default_scene_is_active() {
    let s = MathScene::default();
    assert_eq!(s.name, "Default Scene");
    assert!(s.active);
    assert_eq!(s.background_color.alpha, UNIT);
}

#[test]
fn readings_are_graded() {
    assert_eq!(fps_level(60 * UNIT), Level::Good);
    assert_eq!(fps_level(59 * UNIT), Level::Fair);
    assert_eq!(fps_level(30 * UNIT), Level::Fair);
    assert_eq!(fps_level(29 * UNIT), Level::Poor);
    assert_eq!(memory_level(99 * UNIT), Level::Good);
    assert_eq!(memory_level(100 * UNIT), Level::Fair);
    assert_eq!(memory_level(200 * UNIT), Level::Poor);
}

#[test]
fn history_statistics() {
    assert_eq!(history_stats(&vec![]), None);
    let h = vec![30 * UNIT, 60 * UNIT, 45 * UNIT, 0];
    assert_eq!(
        history_stats(&h),
        Some(HistoryStats { average: 33_750_000, max: 60 * UNIT, min: 0 })
    );
    assert_eq!(recent(&h, 2), vec![45 * UNIT, 0]);
    assert_eq!(recent(&h, 10), h);
}

#[test]
fn history_statistics_of_negative_readings() {
    let h = vec![-3, -4];
    assert_eq!(history_stats(&h), Some(HistoryStats { average: -4, max: 0, min: -4 }));
    let extreme = vec![i64::MIN, i64::MIN, i64::MAX];
    let s = history_stats(&extreme).unwrap();
    assert_eq!(s.min, i64::MIN);
    assert_eq!(s.max, i64::MAX);
    assert_eq!(s.average, -3074457345618258603);
}
