use kizuna::security::identity::PeerId as SecurityPeerId;
use kizuna::streaming::network::adaptive_bitrate::{CongestionLevel, QualityChangeReason};
use kizuna::streaming::network::buffer_manager::FramePriority;
use kizuna::streaming::network::quic_streamer::{QualityLevel, QuicStreamerConfig, RtpHeader, StreamMultiplexer};
use kizuna::streaming::network::webrtc_streamer::{VideoCodec, WebRtcStreamerConfig};
use kizuna::streaming::security_integration::{AccessRequest, PeerTrustInfo};
use std::time::Duration;

#[test]
fn test_congestion_levels() {
    assert_eq!(CongestionLevel::NoCongestion, CongestionLevel::NoCongestion);
    assert_ne!(CongestionLevel::Low, CongestionLevel::High);
}

#[test]
fn test_quality_change_reasons() {
    assert_eq!(QualityChangeReason::BandwidthIncrease, QualityChangeReason::BandwidthIncrease);
    assert_ne!(QualityChangeReason::PacketLoss, QualityChangeReason::Congestion);
}

#[test]
fn test_frame_priority() {
    assert!(FramePriority::Critical > FramePriority::High);
    assert!(FramePriority::High > FramePriority::Normal);
    assert!(FramePriority::Normal > FramePriority::Low);
}

#[test]
fn frame_priority_rank_orders_as_the_enum() {
    assert!(FramePriority::Critical.rank() > FramePriority::High.rank());
    assert!(FramePriority::High.rank() > FramePriority::Normal.rank());
    assert!(FramePriority::Normal.rank() > FramePriority::Low.rank());
}

#[test]
fn test_quic_config_defaults() {
    let config = QuicStreamerConfig::default();
    assert_eq!(config.max_concurrent_streams, 10);
    assert_eq!(config.video_stream_priority, 200);
    assert!(config.enable_multiplexing);
    assert!(config.enable_0rtt);
}

#[test]
fn test_quality_levels() {
    assert_eq!(QualityLevel::Low, QualityLevel::Low);
    assert_ne!(QualityLevel::Low, QualityLevel::High);
}

#[test]
fn test_rtp_header_creation() {
    let header = RtpHeader::new(100, 12345, true);
    assert_eq!(header.version, 2);
    assert_eq!(header.sequence_number, 100);
    assert_eq!(header.timestamp, 12345);
    assert!(header.marker);
}

#[test]
fn test_stream_multiplexer() {
    let mut multiplexer = StreamMultiplexer::new();
    let peer_id = "test-peer".to_string();

    multiplexer.register_stream(&peer_id);
    assert!(multiplexer.get_stream_ids(&peer_id).is_some());

    multiplexer.unregister_stream(&peer_id);
    assert!(multiplexer.get_stream_ids(&peer_id).is_none());
}

#[test]
fn stream_ids_are_handed_out_in_order() {
    let mut multiplexer = StreamMultiplexer::new();
    let a = "a".to_string();
    let b = "b".to_string();
    multiplexer.register_stream(&a);
    multiplexer.register_stream(&b);
    multiplexer.register_stream(&a);
    assert_eq!(multiplexer.get_stream_ids(&a), Some(&vec![0u64, 2]));
    assert_eq!(multiplexer.get_stream_ids(&b), Some(&vec![1u64]));
    multiplexer.unregister_stream(&a);
    multiplexer.register_stream(&a);
    assert_eq!(multiplexer.get_stream_ids(&a), Some(&vec![3u64]));
}

#[test]
fn test_webrtc_config_defaults() {
    let config = WebRtcStreamerConfig::default();
    assert!(config.use_video_tracks);
    assert_eq!(config.preferred_codec, VideoCodec::H264);
    assert_eq!(config.max_bitrate, 3_000_000);
}

#[test]
fn webrtc_default_timeout_and_stun_server() {
    let config = WebRtcStreamerConfig::default();
    assert_eq!(config.connection_timeout, Duration::from_secs(30));
    assert_eq!(config.ice_servers.len(), 1);
    assert_eq!(config.ice_servers[0].urls, vec!["stun:stun.l.google.com:19302".to_string()]);
    assert!(!config.enable_simulcast);
}

#[test]
fn test_video_codec_variants() {
    assert_eq!(VideoCodec::H264, VideoCodec::H264);
    assert_ne!(VideoCodec::H264, VideoCodec::VP8);
    assert_ne!(VideoCodec::VP8, VideoCodec::VP9);
}

#[test]
fn test_peer_trust_info_creation() {
    let info = PeerTrustInfo {
        peer_id: "test-peer".to_string(),
        security_peer_id: SecurityPeerId::from("test-peer".to_string()),
        is_trusted: true,
        nickname: Some("Test Device".to_string()),
        verified_at: std::time::SystemTime::now(),
    };

    assert_eq!(info.peer_id, "test-peer");
    assert!(info.is_trusted);
    assert_eq!(info.nickname, Some("Test Device".to_string()));
}

#[test]
fn test_access_request_creation() {
    let request = AccessRequest {
        peer_id: "test-peer".to_string(),
        requested_at: std::time::SystemTime::now(),
        device_name: Some("Test Device".to_string()),
    };

    assert_eq!(request.peer_id, "test-peer");
    assert_eq!(request.device_name, Some("Test Device".to_string()));
}
