use kizuna::security::identity::PeerId;
use kizuna::security::policy::engine::PolicyEngineImpl;
use kizuna::security::policy::{ConnectionType, PolicyEngine, SecurityEvent, SecurityEventType, SecurityPolicy};

#[test]
fn test_connection_allowed_basic() {
    let mut engine = PolicyEngineImpl::new();
    let peer_id = PeerId::from_string("test_peer").unwrap();

    // Should allow connection by default
    let result = engine.is_connection_allowed(&peer_id, ConnectionType::LocalNetwork);
    assert!(result.is_ok());
}

#[test]
fn test_private_mode_blocking() {
    let mut engine = PolicyEngineImpl::new();
    let peer_id = PeerId::from_string("test_peer").unwrap();

    // Enable private mode
    engine.enable_private_mode().unwrap();

    // Should block connection
    let result = engine.is_connection_allowed(&peer_id, ConnectionType::LocalNetwork);
    assert!(result.is_err());

    // Add peer to allowed list
    engine.private_mode_controller_mut().add_allowed_peer(peer_id.clone()).unwrap();

    // Should now allow connection
    let result = engine.is_connection_allowed(&peer_id, ConnectionType::LocalNetwork);
    assert!(result.is_ok());
}

#[test]
fn engine_test_local_only_mode() {
    let mut engine = PolicyEngineImpl::new();
    let peer_id = PeerId::from_string("test_peer").unwrap();

    // Enable local-only mode
    engine.enable_local_only_mode().unwrap();

    // Should allow local network connections
    let result = engine.is_connection_allowed(&peer_id, ConnectionType::LocalNetwork);
    assert!(result.is_ok());

    // Should block relay connections
    let result = engine.is_connection_allowed(&peer_id, ConnectionType::Relay);
    assert!(result.is_err());
}

#[test]
fn test_rate_limiting() {
    let mut engine = PolicyEngineImpl::new();
    let peer_id = PeerId::from_string("test_peer").unwrap();

    // Make multiple connection attempts
    for _ in 0..5 {
        let _ = engine.is_connection_allowed(&peer_id, ConnectionType::LocalNetwork);
    }

    // Next attempt should fail due to rate limiting
    let result = engine.is_connection_allowed(&peer_id, ConnectionType::LocalNetwork);
    assert!(result.is_err());
}

#[test]
fn engine_test_invite_code_generation() {
    let mut engine = PolicyEngineImpl::new();
    let peer_id = PeerId::from_string("test_peer").unwrap();

    // Generate invite code
    let invite = engine.generate_invite_code(peer_id.clone()).unwrap();

    assert_eq!(invite.code().len(), 8);
    assert_eq!(invite.peer_id(), &peer_id);

    // Validate the code
    let validated = engine.validate_invite_code(invite.code()).unwrap();
    assert_eq!(validated, Some(peer_id));
}

#[test]
fn test_audit_logging() {
    let mut engine = PolicyEngineImpl::new();
    let peer_id = PeerId::from_string("test_peer").unwrap();

    // Make a connection attempt
    let _ = engine.is_connection_allowed(&peer_id, ConnectionType::LocalNetwork);

    // Check audit log
    let log = engine.get_audit_log(10).unwrap();
    assert!(!log.is_empty());
}

#[test]
fn test_policy_update() {
    let mut engine = PolicyEngineImpl::new();

    let mut policy = engine.get_policy().unwrap();
    assert!(!policy.private_mode);

    policy.private_mode = true;
    engine.update_policy(policy).unwrap();

    let updated_policy = engine.get_policy().unwrap();
    assert!(updated_policy.private_mode);
    assert!(engine.private_mode_controller().is_enabled());
}

#[test]
fn accepted_connection_is_logged_newest_first() {
    let mut engine = PolicyEngineImpl::new();
    let peer = PeerId::from_string("peer").unwrap();
    assert_eq!(engine.is_connection_allowed_at(&peer, ConnectionType::Direct, 1_000).unwrap(), true);
    let log = engine.get_audit_log(10).unwrap();
    assert_eq!(log.len(), 2);
    assert_eq!(log[0].event_type, SecurityEventType::ConnectionAccepted);
    assert_eq!(log[0].details, "Connection allowed");
    assert_eq!(log[1].event_type, SecurityEventType::ConnectionAttempt);
    assert_eq!(log[1].details, "Connection attempt via Direct");
    assert_eq!(log[1].timestamp, 1_000);
}

#[test]
fn refusals_are_explained_in_the_log() {
    let mut engine = PolicyEngineImpl::new();
    let peer = PeerId::from_string("peer").unwrap();
    engine.enable_private_mode().unwrap();
    assert!(engine.is_connection_allowed_at(&peer, ConnectionType::LocalNetwork, 10).is_err());
    let log = engine.get_audit_log(1).unwrap();
    assert_eq!(log[0].event_type, SecurityEventType::PolicyViolation);
    engine.disable_private_mode().unwrap();
    engine.enable_local_only_mode().unwrap();
    assert!(engine.is_connection_allowed_at(&peer, ConnectionType::Relay, 11).is_err());
    engine.disable_local_only_mode().unwrap();
    assert!(engine.is_connection_allowed_at(&peer, ConnectionType::Relay, 12).is_ok());
}

#[test]
fn rate_limited_attempts_are_logged_as_such() {
    let mut engine = PolicyEngineImpl::new();
    let peer = PeerId::from_string("busy").unwrap();
    for t in 0..5u64 {
        assert!(engine.is_connection_allowed_at(&peer, ConnectionType::LocalNetwork, 100 + t).is_ok());
    }
    assert!(engine.is_connection_allowed_at(&peer, ConnectionType::LocalNetwork, 105).is_err());
    let log = engine.get_audit_log(1).unwrap();
    assert_eq!(log[0].event_type, SecurityEventType::RateLimitExceeded);
    assert!(engine.rate_limiter().is_blocked_at(&peer, 105));
}

#[test]
fn policy_engine_with_a_policy_and_explicit_events() {
    let mut policy = SecurityPolicy::default();
    policy.local_only_mode = true;
    let mut engine = PolicyEngineImpl::with_policy(policy);
    assert!(engine.network_policy_enforcer().is_local_only_enabled());
    let peer = PeerId::from_string("p").unwrap();
    engine
        .log_event(SecurityEvent::new_at(SecurityEventType::PairingSuccess, Some(peer), "paired".to_string(), 3))
        .unwrap();
    assert_eq!(engine.auditor().entry_count(), 1);
    assert!(engine.check_rate_limit(&peer).unwrap());
    assert!(!engine.attack_detector().is_blocked(&peer));
    engine.cleanup().unwrap();
}

#[test]
fn fresh_peer_first_attempts_are_accepted_then_limited() {
    let mut engine = PolicyEngineImpl::new();
    let peer_id = PeerId::from_string("test_peer").unwrap();
    let mut logged = 0;
    for _ in 0..5 {
        let result = engine.is_connection_allowed(&peer_id, ConnectionType::LocalNetwork);
        assert!(matches!(result, Ok(true)));
        let now_logged = engine.get_audit_log(1000).unwrap().len();
        assert!(now_logged > logged);
        logged = now_logged;
    }
    let result = engine.is_connection_allowed(&peer_id, ConnectionType::LocalNetwork);
    assert!(result.is_err());
    assert!(engine.get_audit_log(1000).unwrap().len() > logged);
}
