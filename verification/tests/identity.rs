use ed25519_dalek::{Signature, Verifier, VerifyingKey};
use kizuna::security::identity::{
    hex_decode_text, hex_encode_bytes, DeviceIdentity, DisposableIdentity, DisposableIdentityManager, IdentityStore,
    PeerId,
};
use kizuna::security::error::{IdentityError, SecurityError};
use sha2::{Digest, Sha256};

#[test]
fn test_device_identity_generation() {
    let identity = DeviceIdentity::generate().expect("Failed to generate identity");
    let peer_id = identity.derive_peer_id();

    // Verify peer_id is derived correctly
    assert_eq!(peer_id.fingerprint().len(), 32);

    // Display name should be 16 hex characters (8 bytes)
    assert_eq!(peer_id.display_name().len(), 16);
}

#[test]
fn test_identity_serialization() {
    let identity = DeviceIdentity::generate().expect("Failed to generate identity");
    let original_peer_id = identity.derive_peer_id();

    // Serialize and deserialize
    let bytes = identity.to_bytes();
    let restored = DeviceIdentity::from_bytes(&bytes).expect("Failed to deserialize");
    let restored_peer_id = restored.derive_peer_id();

    // Verify they match
    assert_eq!(original_peer_id, restored_peer_id);
}

#[test]
fn test_peer_id_hex_conversion() {
    let identity = DeviceIdentity::generate().expect("Failed to generate identity");
    let peer_id = identity.derive_peer_id();

    // Convert to hex and back
    let hex = peer_id.to_hex();
    let restored = PeerId::from_hex(&hex).expect("Failed to parse hex");

    assert_eq!(peer_id, restored);
}

#[test]
fn test_disposable_identity_creation() {
    let identity = DisposableIdentity::generate(Some(3600)).expect("Failed to generate");

    assert!(!identity.is_active());
    assert!(!identity.is_expired());
    assert!(identity.expires_at().is_some());
}

#[test]
fn test_disposable_identity_manager() {
    let mut manager = DisposableIdentityManager::new(3600);

    // Create identities
    let id1 = manager.create_identity().expect("Failed to create");
    let id2 = manager.create_identity().expect("Failed to create");

    // Activate first identity
    manager.activate_identity(id1.id()).expect("Failed to activate");

    // Verify it's active
    let active = manager.get_active_identity().expect("Failed to get active");
    assert!(active.is_some());
    assert_eq!(active.unwrap().id(), id1.id());

    // List all
    let all = manager.list_identities();
    assert_eq!(all.len(), 2);

    // Delete one
    manager.delete_identity(id2.id()).expect("Failed to delete");
    let all = manager.list_identities();
    assert_eq!(all.len(), 1);
}

#[test]
fn peer_id_of_text_is_the_sha256_of_its_bytes() {
    let peer = PeerId::from_string("test_peer").unwrap();
    let digest = Sha256::digest(b"test_peer");
    assert_eq!(&peer.fingerprint()[..], &digest[..]);
    assert_ne!(&peer.fingerprint()[..], b"test_peer".as_slice());
    assert_eq!(PeerId::from("test_peer".to_string()), peer);
}

#[test]
fn peer_id_of_hex_text_is_that_fingerprint() {
    let hex = "00112233445566778899aabbccddeeff00112233445566778899AABBCCDDEEFF";
    let peer = PeerId::from_string(hex).unwrap();
    assert_eq!(peer.fingerprint()[1], 0x11);
    assert_eq!(peer.fingerprint()[31], 0xff);
    assert_eq!(peer.to_hex(), hex.to_lowercase());
    assert_eq!(peer.to_string(), hex.to_lowercase());
    assert_eq!(peer.display_name(), "0011223344556677");
}

#[test]
fn malformed_hex_is_refused() {
    assert!(PeerId::from_hex("abc").is_err());
    assert!(PeerId::from_hex(&"g".repeat(64)).is_err());
    assert!(PeerId::from_hex(&"é".repeat(32)).is_err());
    assert!(PeerId::from_hex(&"0".repeat(64)).is_ok());
}

#[test]
fn peer_id_of_a_public_key_is_its_sha256() {
    let key = [7u8; 32];
    let peer = PeerId::from_public_key(&key);
    let digest = Sha256::digest(key);
    assert_eq!(&peer.fingerprint()[..], &digest[..]);
    assert!(peer.same_as(&PeerId::from_fingerprint(*peer.fingerprint())));
}

#[test]
fn signatures_verify_with_the_public_key() {
    let identity = DeviceIdentity::generate().unwrap();
    let signature = identity.sign(b"hello");
    let key = VerifyingKey::from_bytes(identity.public_key()).unwrap();
    assert!(key.verify(b"hello", &Signature::from_bytes(&signature)).is_ok());
    assert!(key.verify(b"other", &Signature::from_bytes(&signature)).is_err());
    assert_eq!(identity.derive_peer_id(), PeerId::from_public_key(identity.public_key()));
}

#[test]
fn stored_identity_layout_and_corruption() {
    let identity = DeviceIdentity::generate_at(0x0102).unwrap();
    let bytes = identity.to_bytes();
    assert_eq!(bytes.len(), 76);
    assert_eq!(&bytes[0..32], identity.private_key());
    assert_eq!(&bytes[32..64], identity.public_key());
    assert_eq!(&bytes[64..72], &[2, 1, 0, 0, 0, 0, 0, 0]);
    assert_eq!(&bytes[72..76], &[0, 0, 0, 0]);
    let restored = DeviceIdentity::from_bytes(&bytes).unwrap();
    assert_eq!(restored.created_at(), 0x0102);
    assert!(DeviceIdentity::from_bytes(&bytes[..40]).is_err());
    let mut tampered = bytes.clone();
    tampered[40] ^= 1;
    assert!(DeviceIdentity::from_bytes(&tampered).is_err());
}

#[test]
fn disposable_identities_expire_and_are_cleaned_up() {
    let d = DisposableIdentity::generate_at(Some(100), 1_000).unwrap();
    assert_eq!(d.id().len(), 36);
    assert_eq!(d.created_at(), 1_000);
    assert_eq!(d.expires_at(), Some(1_100));
    assert!(!d.is_expired_at(1_099));
    assert!(d.is_expired_at(1_100));
    let forever = DisposableIdentity::generate_at(None, 1_000).unwrap();
    assert!(!forever.is_expired_at(u64::MAX));

    let mut manager = DisposableIdentityManager::new(100);
    let short = manager.create_identity_with_lifetime(Some(1)).unwrap();
    manager.create_identity_with_lifetime(None).unwrap();
    let removed = manager.cleanup_expired_at(u64::MAX).unwrap();
    assert_eq!(removed, 1);
    assert!(manager.get_identity(short.id()).unwrap().is_none());
    assert_eq!(manager.list_identities().len(), 1);
}

#[test]
fn activation_is_exclusive_and_unknown_ids_are_errors() {
    let mut manager = DisposableIdentityManager::new(3600);
    let a = manager.create_identity().unwrap();
    let b = manager.create_identity().unwrap();
    manager.activate_identity(a.id()).unwrap();
    manager.activate_identity(b.id()).unwrap();
    let active = manager.get_active_identity().unwrap().unwrap();
    assert_eq!(active.id(), b.id());
    assert!(!manager.get_identity(a.id()).unwrap().unwrap().is_active());
    assert!(manager.activate_identity("no-such-id").is_err());
    assert!(manager.delete_identity("no-such-id").is_err());
    manager.deactivate_identity(b.id()).unwrap();
    assert!(manager.get_active_identity().unwrap().is_none());
    manager.delete_all().unwrap();
    assert!(manager.list_identities().is_empty());
}

#[test]
fn identity_record_round_trips_through_hex() {
    let identity = DeviceIdentity::generate().unwrap();
    let text = IdentityStore::encode_identity(&identity);
    assert_eq!(text.len(), 2 * 76);
    assert_eq!(text, hex::encode(identity.to_bytes()));
    let restored = IdentityStore::decode_identity(&text).unwrap();
    assert_eq!(restored.derive_peer_id(), identity.derive_peer_id());
    assert_eq!(restored.created_at(), identity.created_at());
    let upper = text.to_uppercase();
    assert!(IdentityStore::decode_identity(&upper).is_ok());
    assert!(IdentityStore::decode_identity("xyz").is_err());
    assert!(IdentityStore::decode_identity("abc").is_err());
}

#[test]
fn hex_helpers_agree_with_the_hex_crate() {
    let bytes = [0u8, 1, 0x7f, 0x80, 0xfe, 0xff];
    assert_eq!(hex_encode_bytes(&bytes), hex::encode(bytes));
    assert_eq!(hex_decode_text("00017F80feFF"), Some(bytes.to_vec()));
    assert_eq!(hex_decode_text(""), Some(vec![]));
    assert_eq!(hex_decode_text("0"), None);
    assert_eq!(hex_decode_text("0g"), None);
}

fn corruption_message(r: Result<DeviceIdentity, SecurityError>) -> String {
    match r {
        Err(SecurityError::Identity(IdentityError::Corrupted(m))) => m,
        _ => panic!("expected a corruption error"),
    }
}

#[test]
fn stored_identity_errors_name_the_fault() {
    let identity = DeviceIdentity::generate_at(5).unwrap();
    let bytes = identity.to_bytes();
    assert_eq!(
        corruption_message(DeviceIdentity::from_bytes(&bytes[..40])),
        "Insufficient data for identity deserialization"
    );
    // Another identity's public key: a valid point, but not this key's.
    let other = DeviceIdentity::generate_at(5).unwrap();
    let mut swapped = bytes.clone();
    swapped[32..64].copy_from_slice(other.public_key());
    assert_eq!(corruption_message(DeviceIdentity::from_bytes(&swapped)), "Public key does not match private key");
    // A phrase length beyond the data.
    let mut short = bytes.clone();
    short[72] = 9;
    assert_eq!(corruption_message(DeviceIdentity::from_bytes(&short)), "Insufficient data for backup phrase");
    // A phrase that is not UTF-8 keeps the decoder's detail.
    let mut bad = bytes.clone();
    bad[72] = 1;
    bad.push(0xff);
    let m = corruption_message(DeviceIdentity::from_bytes(&bad));
    assert!(m.starts_with("Invalid backup phrase UTF-8: "));
    assert!(m.len() > "Invalid backup phrase UTF-8: ".len());
}
