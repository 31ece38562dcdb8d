//! Core streaming data types.

use vstd::prelude::*;
use std::time::{Duration, SystemTime};
use crate::streaming::{PeerId, ViewerId};

verus! {

/// Type of stream being transmitted.
#[derive(Clone, Copy, Debug, PartialEq, Eq, Structural)]
pub enum StreamType {
    Camera,
    Screen,
    Audio,
    Combined,
}

/// Source of the stream content.
#[derive(Clone, Debug)]
pub enum StreamSource {
    Camera(CameraDevice),
    Screen(ScreenRegion),
    /// A file, by its path.
    File(String),
}

/// Current state of a stream.
#[derive(Clone, Copy, Debug, PartialEq, Eq, Structural)]
pub enum StreamState {
    Starting,
    Active,
    Paused,
    Stopping,
    Stopped,
    Error,
}

/// Video resolution.
#[derive(Clone, Copy, Debug, PartialEq, Eq, Structural)]
pub struct Resolution {
    pub width: u32,
    pub height: u32,
}

/// Quality presets for easy configuration.
#[derive(Clone, Copy, Debug, PartialEq, Eq, Structural)]
pub enum QualityPreset {
    /// 480p, 15 fps, 500 kbps.
    Low,
    /// 720p, 30 fps, 1.5 Mbps.
    Medium,
    /// 1080p, 30 fps, 3 Mbps.
    High,
    /// 1080p, 60 fps, 6 Mbps.
    Ultra,
    Custom,
}

/// Stream quality configuration.
#[derive(Clone, Copy, Debug, PartialEq, Eq, Structural)]
pub struct StreamQuality {
    pub resolution: Resolution,
    pub framerate: u32,
    pub bitrate: u32,
    pub quality_preset: QualityPreset,
    pub hardware_acceleration: bool,
}

/// The default stream quality: 720p at 30 fps and 1.5 Mbps, medium preset,
/// hardware acceleration on.
pub open spec fn default_quality() -> StreamQuality {
    StreamQuality {
        resolution: Resolution { width: 1280, height: 720 },
        framerate: 30,
        bitrate: 1_500_000,
        quality_preset: QualityPreset::Medium,
        hardware_acceleration: true,
    }
}

/// The settings of a preset; `Custom` has the default quality.
pub open spec fn preset_quality(p: QualityPreset) -> StreamQuality {
    match p {
        QualityPreset::Low => StreamQuality {
            resolution: Resolution { width: 854, height: 480 },
            framerate: 15,
            bitrate: 500_000,
            quality_preset: p,
            hardware_acceleration: true,
        },
        QualityPreset::Medium => StreamQuality {
            resolution: Resolution { width: 1280, height: 720 },
            framerate: 30,
            bitrate: 1_500_000,
            quality_preset: p,
            hardware_acceleration: true,
        },
        QualityPreset::High => StreamQuality {
            resolution: Resolution { width: 1920, height: 1080 },
            framerate: 30,
            bitrate: 3_000_000,
            quality_preset: p,
            hardware_acceleration: true,
        },
        QualityPreset::Ultra => StreamQuality {
            resolution: Resolution { width: 1920, height: 1080 },
            framerate: 60,
            bitrate: 6_000_000,
            quality_preset: p,
            hardware_acceleration: true,
        },
        QualityPreset::Custom => default_quality(),
    }
}

impl StreamQuality {
    /// The default stream quality.
    pub fn default_quality() -> (r: Self)
        ensures
            r == default_quality(),
    {
        StreamQuality {
            resolution: Resolution { width: 1280, height: 720 },
            framerate: 30,
            bitrate: 1_500_000,
            quality_preset: QualityPreset::Medium,
            hardware_acceleration: true,
        }
    }
}

impl Default for StreamQuality {
    fn default() -> (r: Self)
        ensures
            r == default_quality(),
    {
        Self::default_quality()
    }
}

impl QualityPreset {
    /// The quality settings of this preset.
    pub fn to_quality(&self) -> (r: StreamQuality)
        ensures
            r == preset_quality(*self),
    {
        match self {
            QualityPreset::Low => StreamQuality {
                resolution: Resolution { width: 854, height: 480 },
                framerate: 15,
                bitrate: 500_000,
                quality_preset: *self,
                hardware_acceleration: true,
            },
            QualityPreset::Medium => StreamQuality {
                resolution: Resolution { width: 1280, height: 720 },
                framerate: 30,
                bitrate: 1_500_000,
                quality_preset: *self,
                hardware_acceleration: true,
            },
            QualityPreset::High => StreamQuality {
                resolution: Resolution { width: 1920, height: 1080 },
                framerate: 30,
                bitrate: 3_000_000,
                quality_preset: *self,
                hardware_acceleration: true,
            },
            QualityPreset::Ultra => StreamQuality {
                resolution: Resolution { width: 1920, height: 1080 },
                framerate: 60,
                bitrate: 6_000_000,
                quality_preset: *self,
                hardware_acceleration: true,
            },
            QualityPreset::Custom => StreamQuality::default_quality(),
        }
    }
}

/// Camera device information.
#[derive(Clone, Debug)]
pub struct CameraDevice {
    pub id: String,
    pub name: String,
    pub description: Option<String>,
    pub capabilities: Vec<CameraCapability>,
}

/// Camera capability: resolution, framerate and format.
#[derive(Clone, Copy, Debug)]
pub struct CameraCapability {
    pub resolution: Resolution,
    pub framerate: u32,
    pub pixel_format: PixelFormat,
}

/// Pixel format for video frames.
#[derive(Clone, Copy, Debug, PartialEq, Eq, Structural)]
pub enum PixelFormat {
    RGB24,
    RGBA32,
    YUV420,
    NV12,
    MJPEG,
}

/// Screen region for screen capture.
#[derive(Clone, Copy, Debug)]
pub struct ScreenRegion {
    pub x: u32,
    pub y: u32,
    pub width: u32,
    pub height: u32,
}

/// Stream configuration.
#[derive(Clone, Copy, Debug)]
pub struct StreamConfig {
    pub quality: StreamQuality,
    pub enable_audio: bool,
    pub enable_recording: bool,
    pub max_viewers: u32,
}

impl Default for StreamConfig {
    /// Default quality, no audio, no recording, ten viewers at most.
    fn default() -> (r: Self)
        ensures
            r.quality == default_quality(),
            !r.enable_audio,
            !r.enable_recording,
            r.max_viewers == 10,
    {
        Self { quality: StreamQuality::default_quality(), enable_audio: false, enable_recording: false, max_viewers: 10 }
    }
}

/// Screen capture configuration.
#[derive(Clone, Copy, Debug)]
pub struct ScreenConfig {
    pub region: ScreenRegion,
    pub capture_cursor: bool,
    pub capture_audio: bool,
    pub monitor_index: Option<u32>,
    pub quality: StreamQuality,
}

/// Capture configuration.
#[derive(Clone, Copy, Debug)]
pub struct CaptureConfig {
    pub resolution: Resolution,
    pub framerate: u32,
    pub pixel_format: PixelFormat,
    pub buffer_count: u32,
    pub auto_exposure: bool,
    pub auto_focus: bool,
}

impl Default for CaptureConfig {
    /// 720p at 30 fps in YUV420 with four buffers, auto exposure and focus on.
    fn default() -> (r: Self)
        ensures
            r.resolution == (Resolution { width: 1280, height: 720 }),
            r.framerate == 30,
            r.pixel_format == PixelFormat::YUV420,
            r.buffer_count == 4,
            r.auto_exposure,
            r.auto_focus,
    {
        Self {
            resolution: Resolution { width: 1280, height: 720 },
            framerate: 30,
            pixel_format: PixelFormat::YUV420,
            buffer_count: 4,
            auto_exposure: true,
            auto_focus: true,
        }
    }
}

/// Capture capabilities.
#[derive(Clone, Debug)]
pub struct CaptureCapabilities {
    pub supported_resolutions: Vec<Resolution>,
    pub supported_framerates: Vec<u32>,
    pub supported_formats: Vec<PixelFormat>,
    pub has_auto_exposure: bool,
    pub has_auto_focus: bool,
}

/// Video frame data.
#[derive(Debug)]
pub struct VideoFrame {
    pub data: Vec<u8>,
    pub width: u32,
    pub height: u32,
    pub format: PixelFormat,
    pub timestamp: SystemTime,
}

impl Clone for VideoFrame {
    fn clone(&self) -> (r: Self)
        ensures
            r.data@ == self.data@,
            r.width == self.width,
            r.height == self.height,
            r.format == self.format,
            r.timestamp == self.timestamp,
    {
        Self {
            data: self.data.clone(),
            width: self.width,
            height: self.height,
            format: self.format,
            timestamp: self.timestamp,
        }
    }
}

/// Encoded video frame.
#[derive(Debug)]
pub struct EncodedFrame {
    pub data: Vec<u8>,
    pub timestamp: SystemTime,
    pub is_keyframe: bool,
}

impl Clone for EncodedFrame {
    fn clone(&self) -> (r: Self)
        ensures
            r.data@ == self.data@,
            r.timestamp == self.timestamp,
            r.is_keyframe == self.is_keyframe,
    {
        Self { data: self.data.clone(), timestamp: self.timestamp, is_keyframe: self.is_keyframe }
    }
}

/// Encoding quality settings.
#[derive(Clone, Copy, Debug)]
pub struct EncodingQuality {
    pub bitrate: u32,
    /// From 0 to 100.
    pub quality_factor: u32,
    pub keyframe_interval: u32,
}

/// Encoder configuration.
#[derive(Clone, Copy, Debug)]
pub struct EncoderConfig {
    pub codec: VideoCodecType,
    pub resolution: Resolution,
    pub framerate: u32,
    pub bitrate: u32,
    pub hardware_acceleration: bool,
}

/// Video codec type.
#[derive(Clone, Copy, Debug, PartialEq, Eq, Structural)]
pub enum VideoCodecType {
    H264,
    H265,
    VP8,
    VP9,
    AV1,
}

/// Encoder capabilities.
#[derive(Clone, Debug)]
pub struct EncoderCapabilities {
    pub supported_codecs: Vec<VideoCodecType>,
    pub hardware_acceleration_available: bool,
    pub max_resolution: Resolution,
    pub max_framerate: u32,
}

/// Viewer permissions.
#[derive(Clone, Copy, Debug)]
pub struct ViewerPermissions {
    pub can_view: bool,
    pub can_record: bool,
    pub can_control_quality: bool,
    pub max_quality: QualityPreset,
}

impl Default for ViewerPermissions {
    /// Viewing only, up to medium quality.
    fn default() -> (r: Self)
        ensures
            r.can_view,
            !r.can_record,
            !r.can_control_quality,
            r.max_quality == QualityPreset::Medium,
    {
        Self { can_view: true, can_record: false, can_control_quality: false, max_quality: QualityPreset::Medium }
    }
}

/// Status of a connected viewer.
#[derive(Debug)]
pub struct ViewerStatus {
    pub viewer_id: ViewerId,
    pub peer_id: PeerId,
    pub device_name: String,
    pub connection_quality: ConnectionQuality,
    pub permissions: ViewerPermissions,
    pub connected_at: SystemTime,
    pub bytes_sent: u64,
    pub current_quality: StreamQuality,
}

impl Clone for ViewerStatus {
    fn clone(&self) -> (r: Self)
        ensures
            r == *self,
    {
        Self {
            viewer_id: self.viewer_id.clone(),
            peer_id: self.peer_id.clone(),
            device_name: self.device_name.clone(),
            connection_quality: self.connection_quality,
            permissions: self.permissions,
            connected_at: self.connected_at,
            bytes_sent: self.bytes_sent,
            current_quality: self.current_quality,
        }
    }
}

/// Connection quality indicator.
#[derive(Clone, Copy, Debug, PartialEq, Eq, Structural)]
pub enum ConnectionQuality {
    Excellent,
    Good,
    Fair,
    Poor,
    Disconnected,
}

/// Recording state.
#[derive(Clone, Copy, Debug, PartialEq, Eq, Structural)]
pub enum RecordingState {
    Recording,
    Paused,
    Stopped,
    Error,
}

/// Video file format.
#[derive(Clone, Copy, Debug, PartialEq, Eq, Structural)]
pub enum VideoFormat {
    MP4,
    WebM,
    AVI,
    MOV,
}

/// Recording configuration.
#[derive(Debug)]
pub struct RecordingConfig {
    /// Path of the output file.
    pub output_path: String,
    pub format: VideoFormat,
    pub quality: StreamQuality,
    pub max_file_size: Option<u64>,
    pub max_duration: Option<Duration>,
}

impl Clone for RecordingConfig {
    fn clone(&self) -> (r: Self)
        ensures
            r == *self,
    {
        Self {
            output_path: self.output_path.clone(),
            format: self.format,
            quality: self.quality,
            max_file_size: self.max_file_size,
            max_duration: self.max_duration,
        }
    }
}

/// Recording file information.
#[derive(Debug)]
pub struct RecordingFile {
    /// Path of the file.
    pub path: String,
    pub format: VideoFormat,
    pub file_size: u64,
    pub duration: Duration,
    pub created_at: SystemTime,
}

impl Clone for RecordingFile {
    fn clone(&self) -> (r: Self)
        ensures
            r == *self,
    {
        Self {
            path: self.path.clone(),
            format: self.format,
            file_size: self.file_size,
            duration: self.duration,
            created_at: self.created_at,
        }
    }
}

} // verus!
