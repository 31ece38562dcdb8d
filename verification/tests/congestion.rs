use kizuna::streaming::network::adaptive_bitrate::{
    CongestionController, CongestionState, NetworkSamples, PacketLossRecovery, DEFAULT_BANDWIDTH_BPS,
    DEFAULT_RTT_NANOS, MAX_LOST_PACKETS,
};
use std::time::SystemTime;

#[test]
fn slow_start_grows_by_a_segment_until_the_threshold() {
    let mut c = CongestionController::new();
    assert_eq!(c.cwnd(), 10_000);
    assert_eq!(c.ssthresh(), 65535);
    assert_eq!(c.state(), CongestionState::SlowStart);
    c.update(20_000_000, false);
    assert_eq!(c.cwnd(), 11_000);
    assert_eq!(c.state(), CongestionState::SlowStart);
    for _ in 0..55 {
        c.handle_ack();
    }
    assert_eq!(c.cwnd(), 66_000);
    assert_eq!(c.state(), CongestionState::CongestionAvoidance);
    c.handle_ack();
    assert_eq!(c.cwnd(), 66_000 + 1_000_000 / 66_000);
}

#[test]
fn a_loss_halves_the_window_once_per_recovery() {
    let mut c = CongestionController::new();
    c.update(5_000_000, true);
    assert_eq!(c.cwnd(), 5_000);
    assert_eq!(c.ssthresh(), 5_000);
    assert_eq!(c.state(), CongestionState::FastRecovery);
    c.handle_packet_loss();
    assert_eq!(c.cwnd(), 5_000);
    c.handle_ack();
    assert_eq!(c.state(), CongestionState::CongestionAvoidance);
    assert_eq!(c.cwnd(), 5_000);
    c.handle_ack();
    assert_eq!(c.cwnd(), 5_200);
    c.handle_packet_loss();
    assert_eq!(c.cwnd(), 2_600);
}

#[test]
fn lost_packets_are_resent_at_most_three_times() {
    let mut r = PacketLossRecovery::new();
    let now = SystemTime::now();
    r.add_lost_packet_at(7, vec![1, 2, 3], now);
    r.add_lost_packet_at(8, vec![4], now);
    for _ in 0..3 {
        let got = r.get_recoverable_packets();
        assert_eq!(got.len(), 2);
        assert_eq!(got[0].sequence_number, 7);
        assert_eq!(got[0].data, vec![1, 2, 3]);
        assert_eq!(got[1].sequence_number, 8);
    }
    assert!(r.get_recoverable_packets().is_empty());
    r.add_lost_packet_at(9, vec![], now);
    let got = r.get_recoverable_packets();
    assert_eq!(got.len(), 1);
    assert_eq!(got[0].sequence_number, 9);
}

#[test]
fn only_the_last_hundred_lost_packets_are_kept() {
    let mut r = PacketLossRecovery::new();
    let now = SystemTime::now();
    for i in 0..(MAX_LOST_PACKETS as u64 + 5) {
        r.add_lost_packet_at(i, vec![], now);
    }
    let got = r.get_recoverable_packets();
    assert_eq!(got.len(), MAX_LOST_PACKETS);
    assert_eq!(got[0].sequence_number, 5);
}

#[test]
fn bandwidth_and_latency_averages() {
    let mut s = NetworkSamples::new();
    assert_eq!(s.estimate_bandwidth(), DEFAULT_BANDWIDTH_BPS);
    assert_eq!(s.average_rtt_nanos(), DEFAULT_RTT_NANOS);
    assert_eq!(s.average_jitter_nanos(), 0);
    s.add_bandwidth_sample(2_000_000);
    s.add_bandwidth_sample(3_000_001);
    assert_eq!(s.estimate_bandwidth(), 2_500_000);
    s.add_latency_sample(50);
    s.add_latency_sample(70);
    assert_eq!(s.average_rtt_nanos(), 60_000_000);
    assert_eq!(s.average_jitter_nanos(), 10_000_000);
    for _ in 0..10 {
        s.add_bandwidth_sample(u32::MAX);
    }
    assert_eq!(s.estimate_bandwidth(), u32::MAX);
}
