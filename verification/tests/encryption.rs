use kizuna::security::encryption::{EncryptionEngine, EncryptionEngineImpl, KeyExchange, SessionId};
use kizuna::security::error::{EncryptionError, SecurityError};
use kizuna::security::identity::PeerId;

#[test]
fn test_session_establishment() {
    let mut engine = EncryptionEngineImpl::with_defaults();
    let peer_id = PeerId::from_fingerprint([1u8; 32]);

    let _session_id = engine.establish_session(&peer_id).unwrap();
    assert_eq!(engine.session_count(), 1);
}

#[test]
fn test_encrypt_decrypt_roundtrip() {
    let mut engine = EncryptionEngineImpl::with_defaults();
    let peer_id = PeerId::from_fingerprint([2u8; 32]);

    let session_id = engine.establish_session(&peer_id).unwrap();

    let message = b"Hello, secure world!";
    let encrypted = engine.encrypt_message(&session_id, message).unwrap();
    let decrypted = engine.decrypt_message(&session_id, &encrypted).unwrap();

    assert_eq!(message, decrypted.as_slice());
}

#[test]
fn test_key_rotation() {
    let mut engine = EncryptionEngineImpl::with_defaults();
    let peer_id = PeerId::from_fingerprint([3u8; 32]);

    let session_id = engine.establish_session(&peer_id).unwrap();

    // Encrypt before rotation
    let message1 = b"Before rotation";
    let encrypted1 = engine.encrypt_message(&session_id, message1).unwrap();
    let decrypted1 = engine.decrypt_message(&session_id, &encrypted1).unwrap();
    assert_eq!(message1, decrypted1.as_slice());

    // Rotate keys
    engine.rotate_session_keys(&session_id).unwrap();

    // Encrypt after rotation
    let message2 = b"After rotation";
    let encrypted2 = engine.encrypt_message(&session_id, message2).unwrap();
    let decrypted2 = engine.decrypt_message(&session_id, &encrypted2).unwrap();
    assert_eq!(message2, decrypted2.as_slice());
}

#[test]
fn test_multiple_messages() {
    let mut engine = EncryptionEngineImpl::with_defaults();
    let peer_id = PeerId::from_fingerprint([4u8; 32]);

    let session_id = engine.establish_session(&peer_id).unwrap();

    // Send multiple messages
    for i in 0..10 {
        let message = format!("Message {}", i);
        let encrypted = engine.encrypt_message(&session_id, message.as_bytes()).unwrap();
        let decrypted = engine.decrypt_message(&session_id, &encrypted).unwrap();
        assert_eq!(message.as_bytes(), decrypted.as_slice());
    }
}

#[test]
fn test_session_not_found() {
    let mut engine = EncryptionEngineImpl::with_defaults();
    let fake_session_id = SessionId::new();

    let result = engine.encrypt_message(&fake_session_id, b"test");
    assert!(result.is_err());
}

#[test]
fn test_key_exchange() {
    let kx1 = KeyExchange::new();
    let kx2 = KeyExchange::new();

    let pk1 = kx1.public_key().clone();
    let pk2 = kx2.public_key().clone();

    let shared1 = kx1.exchange(&pk2);
    let shared2 = kx2.exchange(&pk1);

    // Both sides should derive the same shared secret
    assert_eq!(shared1, shared2);
}

#[test]
fn test_session_cleanup() {
    let mut engine = EncryptionEngineImpl::new(
        1,  // 1 second timeout
        60,
    );

    let peer_id = PeerId::from_fingerprint([5u8; 32]);
    let t0: u64 = 1_000_000;
    let _session_id = engine.establish_session_from_secret_at(peer_id, [0u8; 32], t0).unwrap();

    assert_eq!(engine.session_count(), 1);

    // Two seconds later the session has expired: clean up
    let removed = engine.cleanup_expired_sessions_at(t0 + 2).unwrap();
    assert_eq!(removed, 1);
    assert_eq!(engine.session_count(), 0);
}

#[test]
fn replayed_and_forged_messages_are_refused() {
    let mut engine = EncryptionEngineImpl::with_defaults();
    let peer = PeerId::from_fingerprint([6u8; 32]);
    let id = engine.establish_session_from_secret_at(peer, [9u8; 32], 100).unwrap();
    let first = engine.encrypt_message_at(&id, b"one", 100).unwrap();
    let second = engine.encrypt_message_at(&id, b"two", 100).unwrap();
    // Nonce, then ciphertext and a 16-byte tag.
    assert_eq!(first.len(), 12 + 3 + 16);
    assert_eq!(&first[0..12], &[0u8; 12]);
    assert_eq!(&second[4..12], &1u64.to_le_bytes());
    assert_eq!(engine.decrypt_message_at(&id, &second, 100).unwrap(), b"two");
    // An older counter is a replay.
    match engine.decrypt_message_at(&id, &first, 100) {
        Err(SecurityError::Encryption(EncryptionError::AuthenticationFailed)) => {},
        other => panic!("unexpected {:?}", other),
    }
    // A tampered body fails authentication.
    let mut third = engine.encrypt_message_at(&id, b"three", 100).unwrap();
    let last = third.len() - 1;
    third[last] ^= 1;
    assert!(engine.decrypt_message_at(&id, &third, 100).is_err());
    // Too short to hold a nonce.
    match engine.decrypt_message_at(&id, &[1, 2, 3], 100) {
        Err(SecurityError::Encryption(EncryptionError::DecryptionFailed(_))) => {},
        other => panic!("unexpected {:?}", other),
    }
}

#[test]
fn expired_sessions_and_missing_sessions_are_errors() {
    let mut engine = EncryptionEngineImpl::new(10, 60);
    let peer = PeerId::from_fingerprint([7u8; 32]);
    let id = engine.establish_session_from_secret_at(peer, [1u8; 32], 50).unwrap();
    assert_eq!(id.to_string().len(), 36);
    match engine.encrypt_message_at(&id, b"late", 61) {
        Err(SecurityError::Encryption(EncryptionError::SessionExpired(text))) => assert_eq!(text, id.to_string()),
        other => panic!("unexpected {:?}", other),
    }
    assert!(engine.encrypt_message_at(&id, b"in time", 60).is_ok());
    engine.remove_session(&id).unwrap();
    match engine.decrypt_message_at(&id, b"anything at all", 60) {
        Err(SecurityError::Encryption(EncryptionError::SessionNotFound(text))) => assert_eq!(text, id.to_string()),
        other => panic!("unexpected {:?}", other),
    }
    assert!(engine.rotate_session_keys_at(&id, 60).is_err());
}

#[test]
fn keys_are_rotated_when_the_interval_has_passed() {
    let mut engine = EncryptionEngineImpl::new(10_000, 5);
    let peer = PeerId::from_fingerprint([8u8; 32]);
    let id = engine.establish_session_from_secret_at(peer, [2u8; 32], 0).unwrap();
    let a = engine.encrypt_message_at(&id, b"x", 1).unwrap();
    let b = engine.encrypt_message_at(&id, b"x", 2).unwrap();
    assert_eq!(&b[4..12], &1u64.to_le_bytes());
    // Six seconds after the last rekeying: rekeyed, the counter starts over.
    let c = engine.encrypt_message_at(&id, b"x", 6).unwrap();
    assert_eq!(&c[0..12], &[0u8; 12]);
    assert_ne!(a[12..], c[12..]);
    assert_eq!(engine.decrypt_message_at(&id, &c, 6).unwrap(), b"x");
}

#[test]
fn session_ids_round_trip_through_their_uuid() {
    let id = SessionId::new();
    let copy = SessionId::from_uuid(*id.as_uuid());
    assert_eq!(copy.to_string(), id.to_string());
    assert_eq!(id.to_string(), id.as_uuid().to_string());
}
