use kizuna::streaming::capture::screen::{
    CaptureConfigOptimizer, CursorCapture, RegionSelector, ResolutionChangeDetector, ScreenCaptureOptimizer,
};
use kizuna::streaming::types::{CaptureConfig, PixelFormat, Resolution, ScreenRegion};

#[test]
fn test_screen_capture_optimizer_frame_timing() {
    let mut optimizer = ScreenCaptureOptimizer::new(30);

    // First frame should always be captured
    assert!(optimizer.should_capture_frame());

    // Immediate second call should not capture
    assert!(!optimizer.should_capture_frame());
}

#[test]
fn test_region_selector_validation() {
    let selector = RegionSelector::new(1920, 1080);

    // Valid region
    let region = ScreenRegion { x: 100, y: 100, width: 800, height: 600 };
    let validated = selector.validate_region(region).unwrap();
    assert_eq!(validated.width, 800);
    assert_eq!(validated.height, 600);

    // Region extending beyond screen should be clamped
    let region = ScreenRegion { x: 1800, y: 1000, width: 500, height: 500 };
    let validated = selector.validate_region(region).unwrap();
    assert!(validated.width <= 120); // Clamped to screen bounds
    assert!(validated.height <= 80);
}

#[test]
fn test_cursor_capture() {
    let mut cursor = CursorCapture::new(true);
    assert!(cursor.is_enabled());

    cursor.update_cursor_position(100, 200);
    assert_eq!(cursor.cursor_position(), Some((100, 200)));

    let region = ScreenRegion { x: 50, y: 150, width: 200, height: 100 };
    assert!(cursor.is_cursor_in_region(&region));
}

#[test]
fn test_resolution_change_detector() {
    let mut detector = ResolutionChangeDetector::new(Resolution { width: 1920, height: 1080 });

    // Same resolution should not trigger change
    assert!(!detector.check_resolution_change(Resolution { width: 1920, height: 1080 }));

    // Different resolution should trigger change
    assert!(detector.check_resolution_change(Resolution { width: 2560, height: 1440 }));
}

#[test]
fn frames_are_paced_by_the_framerate() {
    let mut optimizer = ScreenCaptureOptimizer::new(10); // 100 ms between frames
    assert!(optimizer.should_capture_frame_at(1_000_000_000));
    assert!(!optimizer.should_capture_frame_at(1_099_999_999));
    assert!(optimizer.should_capture_frame_at(1_100_000_000));
    // A clock that went back captures at once.
    assert!(optimizer.should_capture_frame_at(5));
    optimizer.set_framerate(1);
    assert!(!optimizer.should_capture_frame_at(900_000_005));
    assert!(optimizer.should_capture_frame_at(1_000_000_005));
}

#[test]
fn frame_changes_follow_the_sampled_hash() {
    let mut optimizer = ScreenCaptureOptimizer::new(30);
    let a = vec![1u8; 3000];
    let mut b = a.clone();
    assert!(optimizer.has_frame_changed(&a));
    assert!(!optimizer.has_frame_changed(&a));
    // Only every thousandth byte is sampled.
    b[1] = 9;
    assert!(!optimizer.has_frame_changed(&b));
    b[1000] = 9;
    assert!(optimizer.has_frame_changed(&b));
    optimizer.set_change_detection(false);
    assert!(optimizer.has_frame_changed(&b));
}

#[test]
fn regions_off_the_screen_are_errors() {
    let selector = RegionSelector::new(1920, 1080);
    assert!(selector.validate_region(ScreenRegion { x: 1920, y: 0, width: 10, height: 10 }).is_err());
    let zero = selector.validate_region(ScreenRegion { x: 10, y: 10, width: 0, height: 0 }).unwrap();
    assert_eq!((zero.width, zero.height), (1, 1));
    let centered = selector.create_centered_region(1280, 720).unwrap();
    assert_eq!((centered.x, centered.y, centered.width, centered.height), (320, 180, 1280, 720));
    assert!(selector.create_centered_region(2000, 720).is_err());
    let full = selector.full_screen_region();
    assert_eq!((full.x, full.y, full.width, full.height), (0, 0, 1920, 1080));
}

#[test]
fn cursor_outside_or_disabled() {
    let mut cursor = CursorCapture::new(false);
    assert!(!cursor.is_enabled());
    assert_eq!(cursor.cursor_position(), None);
    let region = ScreenRegion { x: 0, y: 0, width: 10, height: 10 };
    assert!(!cursor.is_cursor_in_region(&region));
    cursor.set_enabled(true);
    cursor.update_cursor_position(10, 5);
    assert!(!cursor.is_cursor_in_region(&region));
    cursor.update_cursor_position(9, 9);
    assert!(cursor.is_cursor_in_region(&region));
}

#[test]
fn detector_adopts_new_resolutions() {
    let mut detector = ResolutionChangeDetector::new_at(Resolution { width: 800, height: 600 }, 0);
    assert!(detector.check_resolution_change_at(Resolution { width: 1024, height: 768 }, 10));
    assert_eq!(detector.current_resolution(), Resolution { width: 1024, height: 768 });
    assert!(!detector.check_resolution_change_at(Resolution { width: 1024, height: 768 }, 20));
    detector.update_resolution(Resolution { width: 640, height: 480 });
    detector.set_check_interval(5);
    assert!(detector.check_resolution_change_at(Resolution { width: 1024, height: 768 }, 30));
}

#[test]
fn capture_config_optimizations() {
    let mut config = CaptureConfig::default();
    config.framerate = 60;
    let big = CaptureConfigOptimizer::optimize_for_region(config, &ScreenRegion { x: 0, y: 0, width: 2560, height: 1440 });
    assert_eq!(big.resolution, Resolution { width: 2560, height: 1440 });
    assert_eq!(big.framerate, 30);
    let small = CaptureConfigOptimizer::optimize_for_region(config, &ScreenRegion { x: 0, y: 0, width: 640, height: 480 });
    assert_eq!(small.framerate, 60);
    let fast = CaptureConfigOptimizer::optimize_for_performance(config);
    assert_eq!(fast.buffer_count, 2);
    assert_eq!(fast.pixel_format, PixelFormat::NV12);
    let fine = CaptureConfigOptimizer::optimize_for_quality(config);
    assert_eq!(fine.pixel_format, PixelFormat::RGB24);
}

#[test]
fn frame_interval_rounds_to_the_nearest_nanosecond() {
    // 1e9 / 7 = 142857142.86 ns: the interval is 142857143 ns.
    let mut optimizer = ScreenCaptureOptimizer::new(7);
    assert!(optimizer.should_capture_frame_at(0));
    assert!(!optimizer.should_capture_frame_at(142_857_142));
    assert!(optimizer.should_capture_frame_at(142_857_143));
    // 1e9 / 1024 = 976562.5 ns: the tie goes to the even 976562.
    optimizer.set_framerate(1024);
    assert!(optimizer.should_capture_frame_at(142_857_143 + 976_562));
}
