use kizuna::streaming::error::StreamError;
use kizuna::security::encryption::SessionId as SecuritySessionId;
use kizuna::streaming::security_integration::{StreamAccessControl, StreamSecurityManager};
use kizuna::streaming::types::ViewerPermissions;
use std::time::SystemTime;

#[test]
fn untrusted_peer_is_refused() {
    let mut ac = StreamAccessControl::new();
    match ac.request_access_at("peer-x".to_string(), None, false, SystemTime::now()) {
        Err(StreamError::Permission(m)) => assert_eq!(m, "Peer peer-x is not trusted"),
        other => panic!("unexpected {:?}", other),
    }
    assert!(ac.get_pending_requests().is_empty());
}

#[test]
fn approve_then_revoke() {
    let mut ac = StreamAccessControl::new();
    let now = SystemTime::now();
    ac.request_access_at("peer-a".to_string(), Some("tablet".to_string()), true, now).unwrap();
    ac.request_access_at("peer-b".to_string(), None, true, now).unwrap();
    assert_eq!(ac.get_pending_requests().len(), 2);
    assert!(!ac.has_access(&"peer-a".to_string()));
    ac.approve_viewer_at(&"peer-a".to_string(), ViewerPermissions::default(), now).unwrap();
    assert!(ac.has_access(&"peer-a".to_string()));
    let pending = ac.get_pending_requests();
    assert_eq!(pending.len(), 1);
    assert_eq!(pending[0].peer_id, "peer-b");
    let viewers = ac.get_approved_viewers();
    assert_eq!(viewers.len(), 1);
    assert_eq!(viewers[0].peer_id, "peer-a");
    ac.reject_viewer(&"peer-b".to_string()).unwrap();
    assert!(ac.get_pending_requests().is_empty());
    ac.revoke_access(&"peer-a".to_string()).unwrap();
    assert!(!ac.has_access(&"peer-a".to_string()));
    assert!(ac.get_approved_viewers().is_empty());
}

#[test]
fn repeated_request_replaces_the_earlier_one() {
    let mut ac = StreamAccessControl::new();
    let now = SystemTime::now();
    ac.request_access_at("peer-a".to_string(), None, true, now).unwrap();
    ac.request_access_at("peer-a".to_string(), Some("phone".to_string()), true, now).unwrap();
    let pending = ac.get_pending_requests();
    assert_eq!(pending.len(), 1);
    assert_eq!(pending[0].device_name, Some("phone".to_string()));
}

#[test]
fn security_manager_caches_trust_answers() {
    let mut m = StreamSecurityManager::new();
    let peer = "peer-a".to_string();
    assert_eq!(m.cached_trust(&peer), None);
    assert!(m.record_trust_at(&peer, true, Some("Laptop".to_string()), SystemTime::now()));
    assert_eq!(m.cached_trust(&peer), Some(true));
    let info = m.get_peer_trust_info(&peer).unwrap().unwrap();
    assert_eq!(info.nickname, Some("Laptop".to_string()));
    assert_eq!(info.security_peer_id, StreamSecurityManager::security_peer_id(&peer));
    m.clear_trust_cache();
    assert_eq!(m.cached_trust(&peer), None);
    assert!(m.get_peer_trust_info(&peer).unwrap().is_none());
}

#[test]
fn hex_peer_text_names_its_fingerprint() {
    let hex = "ab".repeat(32);
    let id = StreamSecurityManager::security_peer_id(&hex);
    assert_eq!(id.fingerprint(), &[0xabu8; 32]);
    let other = StreamSecurityManager::security_peer_id(&"not-hex".to_string());
    assert_ne!(other.fingerprint(), &[0xabu8; 32]);
}

#[test]
fn secure_sessions_are_bound_per_stream() {
    let mut m = StreamSecurityManager::new();
    match m.session_for(&"stream-1".to_string()) {
        Err(StreamError::SessionNotFound(msg)) => assert_eq!(msg, "No security session for stream stream-1"),
        other => panic!("unexpected {:?}", other.is_ok()),
    }
    let s = SecuritySessionId::new();
    let text = s.to_string();
    m.bind_session("stream-1".to_string(), s);
    assert_eq!(m.session_for(&"stream-1".to_string()).unwrap().to_string(), text);
    m.close_secure_session(&"stream-1".to_string()).unwrap();
    assert!(m.session_for(&"stream-1".to_string()).is_err());
}
