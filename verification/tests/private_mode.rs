use kizuna::security::identity::PeerId;
use kizuna::security::policy::private_mode::{InviteCode, PrivateModeController};

#[test]
fn private_mode_test_invite_code_generation() {
    let peer_id = PeerId::from_string("test_peer").unwrap();
    let invite = InviteCode::new(peer_id.clone(), 3600);

    assert_eq!(invite.code().len(), 8);
    assert_eq!(invite.peer_id(), &peer_id);
    assert!(!invite.is_expired());
}

#[test]
fn test_private_mode_enable_disable() {
    let mut controller = PrivateModeController::new();

    assert!(!controller.is_enabled());

    controller.enable().unwrap();
    assert!(controller.is_enabled());

    controller.disable().unwrap();
    assert!(!controller.is_enabled());
}

#[test]
fn test_invite_code_validation() {
    let mut controller = PrivateModeController::new();
    let peer_id = PeerId::from_string("test_peer").unwrap();

    let invite = controller.generate_invite_code(peer_id.clone(), 3600).unwrap();

    let validated = controller.validate_invite_code(invite.code()).unwrap();
    assert_eq!(validated, Some(peer_id));

    // Invalid code
    let invalid = controller.validate_invite_code("INVALID").unwrap();
    assert_eq!(invalid, None);
}

#[test]
fn test_allowed_peers() {
    let mut controller = PrivateModeController::new();
    let peer_id = PeerId::from_string("test_peer").unwrap();

    assert!(!controller.is_peer_allowed(&peer_id));

    controller.add_allowed_peer(peer_id.clone()).unwrap();
    assert!(controller.is_peer_allowed(&peer_id));

    controller.remove_allowed_peer(&peer_id).unwrap();
    assert!(!controller.is_peer_allowed(&peer_id));
}

#[test]
fn test_discovery_filtering() {
    let mut controller = PrivateModeController::new();
    let peer_id = PeerId::from_string("test_peer").unwrap();

    // Private mode disabled - allow all
    assert!(controller.should_allow_discovery(&peer_id).unwrap());

    // Enable private mode
    controller.enable().unwrap();

    // Not in allowed list - block
    assert!(!controller.should_allow_discovery(&peer_id).unwrap());

    // Add to allowed list
    controller.add_allowed_peer(peer_id.clone()).unwrap();

    // Now allowed
    assert!(controller.should_allow_discovery(&peer_id).unwrap());
}

#[test]
fn test_connection_filtering() {
    let mut controller = PrivateModeController::new();
    let peer_id = PeerId::from_string("test_peer").unwrap();

    // Private mode disabled - allow
    assert!(controller.should_allow_connection(&peer_id).unwrap());

    // Enable private mode
    controller.enable().unwrap();

    // Not in allowed list - block
    assert!(controller.should_allow_connection(&peer_id).is_err());

    // Add to allowed list
    controller.add_allowed_peer(peer_id.clone()).unwrap();

    // Now allowed
    assert!(controller.should_allow_connection(&peer_id).unwrap());
}

#[test]
fn invite_code_uses_the_invite_alphabet_and_expires_after_its_validity() {
    let peer_id = PeerId::from_string("peer").unwrap();
    let invite = InviteCode::new_at(peer_id, 100, 1_000);
    assert!(invite
        .code()
        .chars()
        .all(|c| c.is_ascii_uppercase() || c.is_ascii_digit()));
    assert_eq!(invite.time_until_expiration_at(1_040), Some(60));
    assert!(!invite.is_expired_at(1_100));
    assert!(invite.is_expired_at(1_101));
    assert_eq!(invite.time_until_expiration_at(1_100), None);
    let forever = InviteCode::new_at(peer_id, u64::MAX, 1_000);
    assert!(!forever.is_expired_at(u64::MAX));
}

#[test]
fn expired_code_is_refused_and_removed() {
    let mut controller = PrivateModeController::new();
    let peer_id = PeerId::from_string("peer").unwrap();
    let invite = controller.generate_invite_code(peer_id, 10).unwrap();
    let code = invite.code().to_string();
    assert_eq!(controller.get_active_invite_codes().len(), 1);
    let far_future = u64::MAX;
    assert_eq!(controller.validate_invite_code_at(&code, far_future).unwrap(), None);
    assert!(controller.get_active_invite_codes().is_empty());
}

#[test]
fn revoking_and_clearing() {
    let mut controller = PrivateModeController::new();
    let p1 = PeerId::from_string("p1").unwrap();
    let p2 = PeerId::from_string("p2").unwrap();
    let i1 = controller.generate_invite_code(p1, 3600).unwrap();
    controller.generate_invite_code(p2, 3600).unwrap();
    controller.revoke_invite_code(i1.code()).unwrap();
    assert_eq!(controller.validate_invite_code(i1.code()).unwrap(), None);
    assert_eq!(controller.get_active_invite_codes().len(), 1);
    controller.clear_all_invite_codes().unwrap();
    assert!(controller.get_active_invite_codes().is_empty());
    // Making a code allowed both peers; adding one again changes nothing.
    assert_eq!(controller.get_allowed_peers().len(), 2);
    controller.add_allowed_peer(p1).unwrap();
    assert_eq!(controller.get_allowed_peers().len(), 2);
    controller.clear_allowed_peers().unwrap();
    assert!(controller.get_allowed_peers().is_empty());
}
