use kizuna::security::policy::network_policy::{NetworkMode, NetworkPolicyEnforcer};
use kizuna::security::policy::ConnectionType;

#[test]
fn network_policy_test_local_only_mode() {
    let mut enforcer = NetworkPolicyEnforcer::new();

    assert!(!enforcer.is_local_only_enabled());

    enforcer.enable_local_only().unwrap();
    assert!(enforcer.is_local_only_enabled());

    enforcer.disable_local_only().unwrap();
    assert!(!enforcer.is_local_only_enabled());
}

#[test]
fn test_connection_type_filtering() {
    let mut enforcer = NetworkPolicyEnforcer::new();

    // Unrestricted mode - all allowed
    assert!(enforcer.is_connection_type_allowed(&ConnectionType::LocalNetwork).is_ok());
    assert!(enforcer.is_connection_type_allowed(&ConnectionType::Relay).is_ok());
    assert!(enforcer.is_connection_type_allowed(&ConnectionType::Direct).is_ok());

    // Enable local-only mode
    enforcer.enable_local_only().unwrap();

    // Only local network allowed
    assert!(enforcer.is_connection_type_allowed(&ConnectionType::LocalNetwork).is_ok());
    assert!(enforcer.is_connection_type_allowed(&ConnectionType::Relay).is_err());
    assert!(enforcer.is_connection_type_allowed(&ConnectionType::Direct).is_err());
}

#[test]
fn test_relay_connections() {
    let mut enforcer = NetworkPolicyEnforcer::new();

    assert!(enforcer.are_relay_connections_allowed());

    enforcer.enable_local_only().unwrap();
    assert!(!enforcer.are_relay_connections_allowed());
}

#[test]
fn test_global_discovery() {
    let mut enforcer = NetworkPolicyEnforcer::new();

    assert!(enforcer.is_global_discovery_allowed());

    enforcer.enable_local_only().unwrap();
    assert!(!enforcer.is_global_discovery_allowed());
}

#[test]
fn test_custom_mode() {
    let mut enforcer = NetworkPolicyEnforcer::new();

    let custom_mode = NetworkMode::Custom(vec![
        ConnectionType::LocalNetwork,
        ConnectionType::Direct,
    ]);

    enforcer.set_mode(custom_mode).unwrap();

    assert!(enforcer.is_connection_type_allowed(&ConnectionType::LocalNetwork).is_ok());
    assert!(enforcer.is_connection_type_allowed(&ConnectionType::Direct).is_ok());
    assert!(enforcer.is_connection_type_allowed(&ConnectionType::Relay).is_err());
}

#[test]
fn test_mode_indicators() {
    let mut enforcer = NetworkPolicyEnforcer::new();

    assert_eq!(enforcer.get_mode_indicator(), "Unrestricted");

    enforcer.enable_local_only().unwrap();
    assert_eq!(enforcer.get_mode_indicator(), "Local Only");

    let description = enforcer.get_mode_description();
    assert!(description.contains("local network"));
}

#[test]
fn test_validate_connection() {
    let mut enforcer = NetworkPolicyEnforcer::new();

    // Should succeed in unrestricted mode
    assert!(enforcer.validate_connection(&ConnectionType::Relay).is_ok());

    // Should fail in local-only mode
    enforcer.enable_local_only().unwrap();
    assert!(enforcer.validate_connection(&ConnectionType::Relay).is_err());
    assert!(enforcer.validate_connection(&ConnectionType::LocalNetwork).is_ok());
}

#[test]
fn custom_mode_indicator_and_description_name_the_types() {
    let mut enforcer = NetworkPolicyEnforcer::new();
    enforcer
        .set_mode(NetworkMode::Custom(vec![ConnectionType::Direct, ConnectionType::Relay]))
        .unwrap();
    assert_eq!(enforcer.get_mode_indicator(), "Custom");
    assert!(!enforcer.is_local_only_enabled());
    assert!(enforcer.are_relay_connections_allowed());
    assert!(!enforcer.is_global_discovery_allowed());
    let description = enforcer.get_mode_description();
    assert!(description.contains("Direct"));
    assert!(description.contains("Relay"));
    assert!(enforcer.validate_connection(&ConnectionType::LocalNetwork).is_err());
}
