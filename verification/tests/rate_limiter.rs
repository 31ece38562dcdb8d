use kizuna::security::identity::PeerId;
use kizuna::security::policy::rate_limiter::{RateLimitConfig, RateLimiter};

#[test]
fn test_rate_limit_basic() {
    let mut limiter = RateLimiter::new();
    let peer_id = PeerId::from_string("test_peer").unwrap();

    // First few attempts should succeed
    for _ in 0..5 {
        assert!(limiter.check_rate_limit(&peer_id).is_ok());
    }

    // Next attempt should fail (exceeds limit of 5)
    assert!(limiter.check_rate_limit(&peer_id).is_err());
    assert!(limiter.is_blocked(&peer_id));
}

#[test]
fn test_rate_limit_window() {
    let config = RateLimitConfig {
        max_attempts: 3,
        window_secs: 1, // 1 second window
        backoff_multiplier: 2,
        max_backoff_secs: 60,
    };

    let mut limiter = RateLimiter::with_config(config);
    let peer_id = PeerId::from_string("test_peer").unwrap();
    let t0: u64 = 1_000;

    // Make 3 attempts
    for _ in 0..3 {
        assert!(limiter.check_rate_limit_at(&peer_id, t0).is_ok());
    }

    // 4th attempt should fail
    assert!(limiter.check_rate_limit_at(&peer_id, t0).is_err());

    // Two seconds later the window has expired: cleanup old attempts
    limiter.cleanup_at(t0 + 2).unwrap();

    // Should be able to make attempts again once unblocked
    limiter.unblock_peer(&peer_id).unwrap();
    assert!(limiter.check_rate_limit_at(&peer_id, t0 + 2).is_ok());
}

#[test]
fn test_manual_unblock() {
    let mut limiter = RateLimiter::new();
    let peer_id = PeerId::from_string("test_peer").unwrap();

    // Exceed rate limit
    for _ in 0..6 {
        let _ = limiter.check_rate_limit(&peer_id);
    }

    assert!(limiter.is_blocked(&peer_id));

    // Manually unblock
    limiter.unblock_peer(&peer_id).unwrap();
    assert!(!limiter.is_blocked(&peer_id));
}

#[test]
fn test_attempt_count() {
    let mut limiter = RateLimiter::new();
    let peer_id = PeerId::from_string("test_peer").unwrap();

    assert_eq!(limiter.get_attempt_count(&peer_id), 0);

    limiter.check_rate_limit(&peer_id).unwrap();
    assert_eq!(limiter.get_attempt_count(&peer_id), 1);

    limiter.check_rate_limit(&peer_id).unwrap();
    assert_eq!(limiter.get_attempt_count(&peer_id), 2);
}

#[test]
fn test_reset_peer() {
    let mut limiter = RateLimiter::new();
    let peer_id = PeerId::from_string("test_peer").unwrap();

    // Make some attempts
    for _ in 0..3 {
        limiter.check_rate_limit(&peer_id).unwrap();
    }

    assert_eq!(limiter.get_attempt_count(&peer_id), 3);

    // Reset peer
    limiter.reset_peer(&peer_id).unwrap();
    assert_eq!(limiter.get_attempt_count(&peer_id), 0);
}

fn small_config() -> RateLimitConfig {
    RateLimitConfig { max_attempts: 3, window_secs: 10, backoff_multiplier: 2, max_backoff_secs: 25 }
}

#[test]
fn backoff_doubles_with_each_violation_up_to_the_cap() {
    let mut limiter = RateLimiter::with_config(small_config());
    let peer = PeerId::from_string("offender").unwrap();

    // First violation: blocked for one window (10 s).
    for t in 0..3u64 {
        assert!(limiter.check_rate_limit_at(&peer, 100 + t).is_ok());
    }
    assert!(limiter.check_rate_limit_at(&peer, 103).is_err());
    assert_eq!(limiter.time_until_unblock_at(&peer, 103), Some(10));
    // While blocked every attempt is refused.
    assert!(limiter.check_rate_limit_at(&peer, 112).is_err());
    assert!(!limiter.is_blocked_at(&peer, 113));

    // Second violation: 20 s.
    for t in 0..3u64 {
        assert!(limiter.check_rate_limit_at(&peer, 200 + t).is_ok());
    }
    assert!(limiter.check_rate_limit_at(&peer, 203).is_err());
    assert_eq!(limiter.time_until_unblock_at(&peer, 203), Some(20));

    // Third violation: 40 s, capped at 25 s.
    for t in 0..3u64 {
        assert!(limiter.check_rate_limit_at(&peer, 300 + t).is_ok());
    }
    assert!(limiter.check_rate_limit_at(&peer, 303).is_err());
    assert_eq!(limiter.time_until_unblock_at(&peer, 303), Some(25));
    assert_eq!(limiter.get_blocked_peers_at(303), vec![peer]);
    assert!(limiter.get_blocked_peers_at(400).is_empty());
}

#[test]
fn attempts_leave_the_window() {
    let mut limiter = RateLimiter::with_config(small_config());
    let peer = PeerId::from_string("p").unwrap();
    limiter.check_rate_limit_at(&peer, 50).unwrap();
    limiter.check_rate_limit_at(&peer, 55).unwrap();
    assert_eq!(limiter.get_attempt_count_at(&peer, 59), 2);
    assert_eq!(limiter.get_attempt_count_at(&peer, 62), 1);
    assert_eq!(limiter.get_attempt_count_at(&peer, 65), 0);
    limiter.cleanup_at(65).unwrap();
    assert_eq!(limiter.get_attempt_count_at(&peer, 0), 0);
}

#[test]
fn config_can_be_replaced() {
    let mut limiter = RateLimiter::new();
    assert_eq!(limiter.get_config().max_attempts, 5);
    limiter.update_config(small_config()).unwrap();
    assert_eq!(limiter.get_config().max_attempts, 3);
    assert_eq!(limiter.get_config().max_backoff_secs, 25);
}
