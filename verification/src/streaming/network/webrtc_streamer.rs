//! WebRTC streaming configuration.

use vstd::prelude::*;
use std::time::Duration;
use crate::clock::{duration_from_secs, duration_of_secs};

verus! {

/// ICE server configuration.
#[derive(Clone, Debug)]
pub struct IceServerConfig {
    pub urls: Vec<String>,
    pub username: Option<String>,
    pub credential: Option<String>,
}

/// Supported video codecs.
#[derive(Clone, Copy, Debug, PartialEq, Eq, Structural)]
pub enum VideoCodec {
    H264,
    VP8,
    VP9,
}

/// WebRTC streaming configuration.
#[derive(Debug)]
pub struct WebRtcStreamerConfig {
    /// ICE servers for NAT traversal.
    pub ice_servers: Vec<IceServerConfig>,
    /// Use video tracks (true) or data channels (false).
    pub use_video_tracks: bool,
    /// Video codec preference.
    pub preferred_codec: VideoCodec,
    /// Maximum bitrate for video streaming (bps).
    pub max_bitrate: u32,
    /// Connection timeout.
    pub connection_timeout: Duration,
    /// Enable simulcast for adaptive quality.
    pub enable_simulcast: bool,
}

impl Default for WebRtcStreamerConfig {
    /// One public STUN server, video tracks, H.264 up to 3 Mbps, a
    /// thirty-second connection timeout, no simulcast.
    fn default() -> (r: Self)
        ensures
            r.ice_servers@.len() == 1,
            r.ice_servers@[0].urls@.len() == 1,
            r.ice_servers@[0].urls@[0]@ == "stun:stun.l.google.com:19302"@,
            r.ice_servers@[0].username is None,
            r.ice_servers@[0].credential is None,
            r.use_video_tracks,
            r.preferred_codec == VideoCodec::H264,
            r.max_bitrate == 3_000_000,
            r.connection_timeout == duration_of_secs(30),
            !r.enable_simulcast,
    {
        let mut urls: Vec<String> = Vec::new();
        urls.push(String::from_str("stun:stun.l.google.com:19302"));
        let mut ice_servers: Vec<IceServerConfig> = Vec::new();
        ice_servers.push(IceServerConfig { urls, username: None, credential: None });
        Self {
            ice_servers,
            use_video_tracks: true,
            preferred_codec: VideoCodec::H264,
            max_bitrate: 3_000_000,
            connection_timeout: duration_from_secs(30),
            enable_simulcast: false,
        }
    }
}

} // verus!
