use kizuna::security::identity::PeerId;
use kizuna::security::trust::allowlist::{AllowlistManager, ServiceType};
use kizuna::security::trust::ServicePermissions;

#[test]
fn test_discovery_allowlist() {
    let mut manager = AllowlistManager::new();
    let peer_id = PeerId::from_string("test_peer").unwrap();

    // Initially not in allowlist
    assert!(!manager.is_in_discovery_allowlist(&peer_id));

    // Add to allowlist
    manager.add_to_discovery_allowlist(peer_id.clone()).unwrap();
    assert!(manager.is_in_discovery_allowlist(&peer_id));

    // Remove from allowlist
    manager.remove_from_discovery_allowlist(&peer_id).unwrap();
    assert!(!manager.is_in_discovery_allowlist(&peer_id));
}

#[test]
fn test_service_permissions() {
    let mut manager = AllowlistManager::new();
    let peer_id = PeerId::from_string("test_peer").unwrap();

    // Initially no permissions
    assert!(!manager.has_service_permission(&peer_id, ServiceType::Clipboard));

    // Grant clipboard permission
    manager.grant_service_permission(&peer_id, ServiceType::Clipboard).unwrap();
    assert!(manager.has_service_permission(&peer_id, ServiceType::Clipboard));

    // Revoke clipboard permission
    manager.revoke_service_permission(&peer_id, ServiceType::Clipboard).unwrap();
    assert!(!manager.has_service_permission(&peer_id, ServiceType::Clipboard));
}

#[test]
fn test_set_permissions() {
    let mut manager = AllowlistManager::new();
    let peer_id = PeerId::from_string("test_peer").unwrap();

    let permissions = ServicePermissions {
        clipboard: true,
        file_transfer: true,
        camera: false,
        commands: false,
    };

    manager.set_permissions(peer_id.clone(), permissions.clone()).unwrap();

    let retrieved = manager.get_permissions(&peer_id).unwrap();
    assert_eq!(retrieved.clipboard, permissions.clipboard);
    assert_eq!(retrieved.file_transfer, permissions.file_transfer);
    assert_eq!(retrieved.camera, permissions.camera);
    assert_eq!(retrieved.commands, permissions.commands);
}

#[test]
fn test_check_access() {
    let mut manager = AllowlistManager::new();
    let peer_id = PeerId::from_string("test_peer").unwrap();

    // No access without allowlist entry
    assert!(!manager.check_access(&peer_id, ServiceType::Clipboard).unwrap());

    // Add to allowlist
    manager.add_to_discovery_allowlist(peer_id.clone()).unwrap();

    // Still no access without service permission
    assert!(!manager.check_access(&peer_id, ServiceType::Clipboard).unwrap());

    // Grant service permission
    manager.grant_service_permission(&peer_id, ServiceType::Clipboard).unwrap();

    // Now access should be granted
    assert!(manager.check_access(&peer_id, ServiceType::Clipboard).unwrap());
}

#[test]
fn first_grant_starts_from_the_default_permissions() {
    let mut manager = AllowlistManager::new();
    let peer = PeerId::from_string("p").unwrap();
    manager.grant_service_permission(&peer, ServiceType::Camera).unwrap();
    let p = manager.get_permissions(&peer).unwrap();
    assert_eq!(p, ServicePermissions { clipboard: true, file_transfer: true, camera: true, commands: false });
    assert_eq!(ServicePermissions::default(), ServicePermissions::default_permissions());
}

#[test]
fn revoking_without_permissions_changes_nothing() {
    let mut manager = AllowlistManager::new();
    let peer = PeerId::from_string("p").unwrap();
    manager.revoke_service_permission(&peer, ServiceType::Commands).unwrap();
    assert!(manager.get_permissions(&peer).is_none());
    assert!(manager.get_all_peers_with_permissions().is_empty());
}

#[test]
fn clearing_and_removing() {
    let mut manager = AllowlistManager::new();
    let a = PeerId::from_string("a").unwrap();
    let b = PeerId::from_string("b").unwrap();
    manager.add_to_discovery_allowlist(a).unwrap();
    manager.add_to_discovery_allowlist(a).unwrap();
    manager.add_to_discovery_allowlist(b).unwrap();
    assert_eq!(manager.get_discovery_allowlist().len(), 2);
    manager.grant_service_permission(&a, ServiceType::Commands).unwrap();
    manager.grant_service_permission(&b, ServiceType::Commands).unwrap();
    assert_eq!(manager.get_all_peers_with_permissions().len(), 2);
    manager.remove_peer_permissions(&a).unwrap();
    assert!(!manager.has_service_permission(&a, ServiceType::Commands));
    assert!(manager.has_service_permission(&b, ServiceType::Commands));
    manager.clear_all_permissions().unwrap();
    assert!(manager.get_all_peers_with_permissions().is_empty());
    manager.clear_discovery_allowlist().unwrap();
    assert!(manager.get_discovery_allowlist().is_empty());
}
