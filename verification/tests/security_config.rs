use kizuna::security::api::{SecuritySystemBuilder, SecuritySystemConfig};
use kizuna::security::policy::SecurityPolicy;

#[test]
fn default_configuration() {
    let config = SecuritySystemConfig::default();
    assert!(config.keystore_service_name.is_none());
    assert!(config.trust_db_path.is_none());
    assert_eq!(config.session_timeout, 3600);
    assert_eq!(config.key_rotation_interval, 900);
    assert_eq!(config.disposable_identity_lifetime, 86400);
    assert!(!config.security_policy.private_mode);
    assert!(config.security_policy.require_pairing);
    assert_eq!(config.security_policy.key_rotation_interval, 300);
}

#[test]
fn builder_sets_each_field() {
    let mut policy = SecurityPolicy::default();
    policy.private_mode = true;
    let config = SecuritySystemBuilder::new()
        .keystore_service_name("svc".to_string())
        .trust_db_path("/tmp/trust.db".to_string())
        .session_timeout(60)
        .key_rotation_interval(30)
        .disposable_identity_lifetime(10)
        .security_policy(policy)
        .config();
    assert_eq!(config.keystore_service_name.as_deref(), Some("svc"));
    assert_eq!(config.trust_db_path.as_deref(), Some("/tmp/trust.db"));
    assert_eq!(config.session_timeout, 60);
    assert_eq!(config.key_rotation_interval, 30);
    assert_eq!(config.disposable_identity_lifetime, 10);
    assert!(config.security_policy.private_mode);
    let defaults = SecuritySystemBuilder::default().config();
    assert_eq!(defaults.session_timeout, 3600);
}
