use kizuna::streaming::encode::encoder::HardwareAccelerator;
use kizuna::streaming::encode::performance::{ContentType, EncoderOptimizer, EncoderSelector};
use kizuna::streaming::encode::quality::{CpuLoad, QualityScaler};
use kizuna::streaming::types::{EncoderConfig, QualityPreset, Resolution, StreamQuality, VideoCodecType};

fn config(width: u32, height: u32, framerate: u32, hardware: bool) -> EncoderConfig {
    EncoderConfig {
        codec: VideoCodecType::H264,
        resolution: Resolution { width, height },
        framerate,
        bitrate: 1_000_000,
        hardware_acceleration: hardware,
    }
}

#[test]
fn selector_prefers_nvenc_then_videotoolbox_then_quicksync() {
    let s = EncoderSelector::new(vec![HardwareAccelerator::QuickSync, HardwareAccelerator::VCE, HardwareAccelerator::Software, HardwareAccelerator::NVENC]).unwrap();
    assert_eq!(s.select_best_encoder().unwrap(), HardwareAccelerator::NVENC);
    let s = EncoderSelector::new(vec![HardwareAccelerator::VCE, HardwareAccelerator::QuickSync, HardwareAccelerator::Software]).unwrap();
    assert_eq!(s.select_best_encoder().unwrap(), HardwareAccelerator::QuickSync);
    let s = EncoderSelector::new(vec![HardwareAccelerator::Software]).unwrap();
    assert_eq!(s.select_best_encoder().unwrap(), HardwareAccelerator::Software);
    assert!(!s.has_hardware_acceleration());
    let s = EncoderSelector::new(vec![]).unwrap();
    assert!(s.select_best_encoder().is_err());
}

#[test]
fn heavy_configurations_get_the_first_hardware_encoder() {
    let s = EncoderSelector::new(vec![HardwareAccelerator::Software, HardwareAccelerator::VCE, HardwareAccelerator::NVENC]).unwrap();
    assert_eq!(s.select_encoder_for_config(&config(1920, 1080, 30, true)).unwrap(), HardwareAccelerator::VCE);
    assert_eq!(s.select_encoder_for_config(&config(1280, 720, 60, true)).unwrap(), HardwareAccelerator::VCE);
    // Light configuration, or hardware not asked for: the preferred encoder.
    assert_eq!(s.select_encoder_for_config(&config(1280, 720, 30, true)).unwrap(), HardwareAccelerator::NVENC);
    assert_eq!(s.select_encoder_for_config(&config(1920, 1080, 30, false)).unwrap(), HardwareAccelerator::NVENC);
    assert!(s.has_hardware_acceleration());
    assert_eq!(s.available_accelerators(), &[HardwareAccelerator::Software, HardwareAccelerator::VCE, HardwareAccelerator::NVENC]);
    let caps = s.get_capabilities();
    assert_eq!(caps.supported_codecs, vec![VideoCodecType::H264]);
    assert!(caps.hardware_acceleration_available);
    assert_eq!(caps.max_resolution, Resolution { width: 3840, height: 2160 });
    assert_eq!(caps.max_framerate, 60);
}

#[test]
fn element_names_of_accelerators() {
    assert_eq!(HardwareAccelerator::NVENC.element_name(), "nvh264enc");
    assert_eq!(HardwareAccelerator::Software.element_name(), "x264enc");
}

#[test]
fn optimizer_recommendations_by_content() {
    let mut optimizer = EncoderOptimizer::new(ContentType::Screen);
    assert_eq!(optimizer.recommended_keyframe_interval(30), 150);
    assert_eq!(optimizer.recommended_quality_factor(), 85);
    optimizer.set_content_type(ContentType::Gaming);
    assert_eq!(optimizer.content_type(), ContentType::Gaming);
    assert_eq!(optimizer.recommended_keyframe_interval(60), 120);
    assert_eq!(optimizer.recommended_quality_factor(), 75);
    assert_eq!(EncoderOptimizer::default().content_type(), ContentType::General);
}

#[test]
fn scaler_steps_within_its_bounds() {
    let mut scaler = QualityScaler::new();
    assert_eq!(scaler.current_preset(), QualityPreset::Medium);
    // Bandwidth below the need: one step down, bitrate capped at the bandwidth.
    let q = scaler.adjust_for_network_with(2_000_000, 1_000_000, 20).unwrap();
    assert_eq!(scaler.current_preset(), QualityPreset::Low);
    assert_eq!(q.bitrate, 500_000);
    assert_eq!(q.quality_factor, 50);
    assert_eq!(q.keyframe_interval, 60);
    // Already at the bottom.
    scaler.adjust_for_network_with(2_000_000, 1_000_000, 20).unwrap();
    assert_eq!(scaler.current_preset(), QualityPreset::Low);
    // Plenty of bandwidth and low latency: one step up.
    let q = scaler.adjust_for_network_with(500_000, 10_000_000, 10).unwrap();
    assert_eq!(scaler.current_preset(), QualityPreset::Medium);
    assert_eq!(q.bitrate, 1_500_000);
    // High latency alone steps down.
    scaler.adjust_for_network_with(500_000, 10_000_000, 250).unwrap();
    assert_eq!(scaler.current_preset(), QualityPreset::Low);
}

#[test]
fn scaler_follows_cpu_load() {
    let mut scaler = QualityScaler::with_bounds(QualityPreset::Medium, QualityPreset::High);
    assert_eq!(scaler.current_preset(), QualityPreset::Medium);
    scaler.adjust_for_cpu_with(CpuLoad::Idle, 10_000_000).unwrap();
    assert_eq!(scaler.current_preset(), QualityPreset::High);
    let q = scaler.adjust_for_cpu_with(CpuLoad::Idle, 2_000_000).unwrap();
    assert_eq!(scaler.current_preset(), QualityPreset::High);
    assert_eq!(q.bitrate, 2_000_000);
    scaler.adjust_for_cpu_with(CpuLoad::Overloaded, 10_000_000).unwrap();
    scaler.adjust_for_cpu_with(CpuLoad::Pressured, 10_000_000).unwrap();
    assert_eq!(scaler.current_preset(), QualityPreset::Medium);
    scaler.adjust_for_cpu_with(CpuLoad::Acceptable, 10_000_000).unwrap();
    assert_eq!(scaler.current_preset(), QualityPreset::Medium);
    scaler.set_preset(QualityPreset::Ultra);
    assert_eq!(scaler.current_preset(), QualityPreset::Ultra);
}

#[test]
fn preset_encodings() {
    let q = QualityScaler::preset_to_encoding_quality(QualityPreset::Ultra, 100_000_000).unwrap();
    assert_eq!((q.bitrate, q.quality_factor, q.keyframe_interval), (6_000_000, 95, 120));
    let q = QualityScaler::preset_to_encoding_quality(QualityPreset::Custom, 100_000_000).unwrap();
    assert_eq!((q.bitrate, q.quality_factor, q.keyframe_interval), (1_500_000, 65, 90));
    let quality = QualityPreset::High.to_quality();
    assert_eq!(quality.resolution, Resolution { width: 1920, height: 1080 });
    assert_eq!(quality.framerate, 30);
    let default = StreamQuality::default();
    assert_eq!(default.bitrate, 1_500_000);
}
