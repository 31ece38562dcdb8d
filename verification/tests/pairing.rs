use kizuna::security::identity::PeerId;
use kizuna::security::trust::pairing::{format_pairing_code, PairingService};
use kizuna::security::trust::PairingCode;

#[test]
fn test_generate_pairing_code() {
    let mut service = PairingService::new();
    let code = service.generate_pairing_code().unwrap();

    // Code should be 6 digits
    assert_eq!(code.code().len(), 6);
    assert!(code.code().chars().all(|c| c.is_ascii_digit()));
}

#[test]
fn test_verify_pairing_code() {
    let mut service = PairingService::new();
    let code = service.generate_pairing_code().unwrap();
    let peer_id = PeerId::from_string("test_peer").unwrap();

    // First verification should succeed
    assert!(service.verify_pairing_code(&code, &peer_id).unwrap());

    // Second verification with same peer should succeed
    assert!(service.verify_pairing_code(&code, &peer_id).unwrap());
}

#[test]
fn test_pairing_code_expiration() {
    let mut service = PairingService::with_timeout(1); // 1 second timeout
    let t0: u64 = 50_000;
    let code = service.open_session_at(123_456, t0).unwrap();

    // Two seconds later the code has expired
    let peer_id = PeerId::from_string("test_peer").unwrap();

    // Verification should fail due to expiration
    assert!(!service.verify_pairing_code_at(&code, &peer_id, t0 + 2).unwrap());
}

#[test]
fn test_cleanup_expired_sessions() {
    let mut service = PairingService::with_timeout(1);
    let t0: u64 = 50_000;

    // Open some sessions
    service.open_session_at(111_111, t0).unwrap();
    service.open_session_at(222_222, t0).unwrap();

    assert_eq!(service.active_sessions_count(), 2);

    // Two seconds later: cleanup
    service.cleanup_expired_sessions_at(t0 + 2).unwrap();

    assert_eq!(service.active_sessions_count(), 0);
}

#[test]
fn codes_are_zero_padded_to_six_digits() {
    assert_eq!(format_pairing_code(42), "000042");
    assert_eq!(format_pairing_code(0), "000000");
    assert_eq!(format_pairing_code(999_999), "999999");
    assert_eq!(format_pairing_code(123_456), "123456");
}

#[test]
fn another_peer_presenting_a_used_code_is_an_error() {
    let mut service = PairingService::new();
    let t0: u64 = 7_000;
    let code = service.open_session_at(31_337, t0).unwrap();
    assert_eq!(code.code(), "031337");
    let first = PeerId::from_string("first").unwrap();
    let second = PeerId::from_string("second").unwrap();
    assert!(service.verify_pairing_code_at(&code, &first, t0 + 1).unwrap());
    assert!(service.verify_pairing_code_at(&code, &second, t0 + 1).is_err());
    assert!(service.verify_pairing_code_at(&code, &first, t0 + 2).unwrap());
}

#[test]
fn unknown_code_is_refused_and_completion_closes_the_session() {
    let mut service = PairingService::new();
    let t0: u64 = 7_000;
    let peer = PeerId::from_string("p").unwrap();
    let stray = PairingCode::new_at("654321".to_string(), t0);
    assert!(!service.verify_pairing_code_at(&stray, &peer, t0).unwrap());
    let code = service.open_session_at(654_321, t0).unwrap();
    assert!(service.is_valid_code_at("654321", t0 + 60));
    assert!(!service.is_valid_code_at("654321", t0 + 61));
    assert!(!service.is_valid_code_at("000000", t0));
    service.complete_pairing(code.code()).unwrap();
    assert_eq!(service.active_sessions_count(), 0);
    assert!(!service.verify_pairing_code_at(&code, &peer, t0).unwrap());
}

#[test]
fn pairing_code_expiry_counts_whole_seconds_after_creation() {
    let code = PairingCode::new_at("000001".to_string(), 100);
    assert_eq!(code.created_at(), 100);
    assert!(!code.is_expired_at(60, 160));
    assert!(code.is_expired_at(60, 161));
    // A clock that went backwards does not expire the code.
    assert!(!code.is_expired_at(60, 10));
}
