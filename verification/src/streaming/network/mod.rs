//! Network streaming settings: congestion and buffer indicators, QUIC and
//! WebRTC configuration, RTP headers and stream multiplexing.

pub mod adaptive_bitrate;
pub mod buffer_manager;
pub mod quic_streamer;
pub mod webrtc_streamer;
