use kizuna::security::identity::PeerId;
use kizuna::security::policy::attack_detector::{AttackDetector, AttackDetectorConfig, SuspiciousPattern};

#[test]
fn test_rapid_connections_detection() {
    let mut detector = AttackDetector::new();
    let peer_id = PeerId::from_string("test_peer").unwrap();

    // Record many rapid connection attempts
    for _ in 0..15 {
        detector.record_connection_attempt(&peer_id).unwrap();
    }

    let patterns = detector.detect_suspicious_patterns(&peer_id).unwrap();
    assert!(patterns.contains(&SuspiciousPattern::RapidConnections));
}

#[test]
fn test_failed_pairings_detection() {
    let mut detector = AttackDetector::new();
    let peer_id = PeerId::from_string("test_peer").unwrap();

    // Record multiple failed pairings
    for _ in 0..5 {
        detector.record_failed_pairing(&peer_id).unwrap();
    }

    let patterns = detector.detect_suspicious_patterns(&peer_id).unwrap();
    assert!(patterns.contains(&SuspiciousPattern::FailedPairings));
}

#[test]
fn test_blocked_peer_detection() {
    let mut detector = AttackDetector::new();
    let peer_id = PeerId::from_string("test_peer").unwrap();

    // Block the peer
    detector.block_peer(&peer_id, 3600).unwrap();

    // Record attempt from blocked peer
    detector.record_connection_attempt(&peer_id).unwrap();

    let patterns = detector.detect_suspicious_patterns(&peer_id).unwrap();
    assert!(patterns.contains(&SuspiciousPattern::BlockedPeerAttempt));
}

#[test]
fn test_multiple_connections_detection() {
    let mut detector = AttackDetector::new();
    let peer_id = PeerId::from_string("test_peer").unwrap();

    // Establish multiple connections
    for _ in 0..5 {
        detector.record_connection_established(&peer_id).unwrap();
    }

    let patterns = detector.detect_suspicious_patterns(&peer_id).unwrap();
    assert!(patterns.contains(&SuspiciousPattern::MultipleConnections));
}

#[test]
fn test_should_block() {
    let mut detector = AttackDetector::new();
    let peer_id = PeerId::from_string("test_peer").unwrap();

    // Initially should not block
    assert!(!detector.should_block(&peer_id).unwrap());

    // Record many rapid attempts
    for _ in 0..15 {
        detector.record_connection_attempt(&peer_id).unwrap();
    }

    // Should now block
    assert!(detector.should_block(&peer_id).unwrap());
}

#[test]
fn test_block_unblock() {
    let mut detector = AttackDetector::new();
    let peer_id = PeerId::from_string("test_peer").unwrap();

    assert!(!detector.is_blocked(&peer_id));

    detector.block_peer(&peer_id, 3600).unwrap();
    assert!(detector.is_blocked(&peer_id));

    detector.unblock_peer(&peer_id).unwrap();
    assert!(!detector.is_blocked(&peer_id));
}

#[test]
fn test_activity_summary() {
    let mut detector = AttackDetector::new();
    let peer_id = PeerId::from_string("test_peer").unwrap();

    detector.record_connection_attempt(&peer_id).unwrap();
    detector.record_failed_pairing(&peer_id).unwrap();
    detector.record_connection_established(&peer_id).unwrap();

    let summary = detector.get_activity_summary(&peer_id);
    assert!(summary.is_some());
    assert!(summary.unwrap().contains("Recent attempts: 1"));
}

#[test]
fn test_cleanup() {
    let config = AttackDetectorConfig {
        rapid_connection_threshold: 10,
        failed_pairing_threshold: 3,
        detection_window_secs: 1, // 1 second window
        max_simultaneous_connections: 3,
    };

    let mut detector = AttackDetector::with_config(config);
    let peer_id = PeerId::from_string("test_peer").unwrap();

    detector.record_connection_attempt_at(&peer_id, 1_000).unwrap();

    // Two seconds later the window has expired.
    detector.cleanup_at(1_002).unwrap();

    // Activity should be cleaned up
    let summary = detector.get_activity_summary_at(&peer_id, 1_002);
    assert!(summary.is_none() || summary.unwrap().contains("Recent attempts: 0"));
}

#[test]
fn block_expires_after_its_duration() {
    let mut detector = AttackDetector::new();
    let peer_id = PeerId::from_string("timed_peer").unwrap();
    detector.block_peer_at(&peer_id, 60, 5_000).unwrap();
    assert!(detector.is_blocked_at(&peer_id, 5_059));
    assert!(!detector.is_blocked_at(&peer_id, 5_060));
}

#[test]
fn attempts_outside_the_window_do_not_count() {
    let mut detector = AttackDetector::new();
    let peer_id = PeerId::from_string("slow_peer").unwrap();
    for i in 0..15u64 {
        detector.record_connection_attempt_at(&peer_id, 1_000 + i).unwrap();
    }
    assert!(detector.should_block_at(&peer_id, 1_020).unwrap());
    // The default window is one minute: much later, nothing is recent.
    assert!(!detector.should_block_at(&peer_id, 10_000).unwrap());
    let patterns = detector.detect_suspicious_patterns_at(&peer_id, 10_000).unwrap();
    assert!(!patterns.contains(&SuspiciousPattern::RapidConnections));
}

#[test]
fn reset_clears_recorded_activity() {
    let mut detector = AttackDetector::new();
    let peer_id = PeerId::from_string("reset_peer").unwrap();
    for _ in 0..5 {
        detector.record_failed_pairing(&peer_id).unwrap();
    }
    detector.reset_peer_activity(&peer_id).unwrap();
    let patterns = detector.detect_suspicious_patterns(&peer_id).unwrap();
    assert!(patterns.is_empty());
    assert!(detector.get_activity_summary(&peer_id).is_none());
}
