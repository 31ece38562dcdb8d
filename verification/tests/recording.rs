use kizuna::streaming::error::StreamError;
use kizuna::streaming::recording::{
    EncryptedRecording, PermissionManager, PermissionStatus, RecordingPermission, StorageConfig,
};

fn stream() -> String {
    "stream-1".to_string()
}

#[test]
fn new_request_is_pending_without_expiry() {
    let p = RecordingPermission::new_request_at(stream(), "peer-a".to_string(), "laptop".to_string(), 100);
    assert_eq!(p.status, PermissionStatus::Pending);
    assert_eq!(p.requested_at, 100);
    assert!(p.responded_at.is_none());
    assert!(p.expires_at.is_none());
    assert!(p.allow_local_storage);
    assert!(!p.require_encryption);
    assert_eq!(p.permission_id.len(), 36);
    assert!(!p.is_valid_at(100));
}

#[test]
fn auto_approved_request_is_valid() {
    let mut m = PermissionManager::new();
    let p = m
        .request_permission_at(stream(), "peer-a".to_string(), "laptop".to_string(), true, true, 50)
        .unwrap();
    assert_eq!(p.status, PermissionStatus::Granted);
    assert_eq!(p.responded_at, Some(50));
    assert!(p.require_encryption);
    assert!(m.is_recording_permitted_at(stream(), "peer-a", 60).unwrap());
    assert!(!m.is_recording_permitted_at(stream(), "peer-b", 60).unwrap());
    assert!(!m.is_recording_permitted_at("other".to_string(), "peer-a", 60).unwrap());
}

#[test]
fn approve_sets_expiry_and_permission_expires() {
    let mut m = PermissionManager::new();
    let p = m
        .request_permission_at(stream(), "peer-a".to_string(), "laptop".to_string(), false, false, 10)
        .unwrap();
    assert!(!m.is_recording_permitted_at(stream(), "peer-a", 20).unwrap());
    assert_eq!(m.get_pending_requests().unwrap().len(), 1);
    m.approve_permission_at(p.permission_id.clone(), true, Some(1000), 20).unwrap();
    let got = m.get_permission_at(stream(), "peer-a", 500).unwrap().unwrap();
    assert_eq!(got.status, PermissionStatus::Granted);
    assert_eq!(got.expires_at, Some(1020));
    assert_eq!(got.responded_at, Some(20));
    assert!(got.require_encryption);
    assert_eq!(got.max_duration, Some(1000));
    assert!(m.is_recording_permitted_at(stream(), "peer-a", 1020).unwrap());
    assert!(!m.is_recording_permitted_at(stream(), "peer-a", 1021).unwrap());
    assert!(m.get_pending_requests().unwrap().is_empty());
}

#[test]
fn answering_twice_is_an_invalid_state() {
    let mut m = PermissionManager::new();
    let p = m
        .request_permission_at(stream(), "peer-a".to_string(), "laptop".to_string(), false, false, 10)
        .unwrap();
    m.deny_permission_at(p.permission_id.clone(), 11).unwrap();
    let e = m.approve_permission_at(p.permission_id.clone(), false, None, 12).unwrap_err();
    assert!(matches!(e, StreamError::InvalidState(_)));
    let e = m.deny_permission_at(p.permission_id.clone(), 12).unwrap_err();
    assert!(matches!(e, StreamError::InvalidState(_)));
    let all = m.get_stream_permissions(stream()).unwrap();
    assert_eq!(all.len(), 1);
    assert_eq!(all[0].status, PermissionStatus::Denied);
    assert_eq!(all[0].responded_at, Some(11));
}

#[test]
fn unknown_permission_is_an_internal_error() {
    let mut m = PermissionManager::new();
    assert!(matches!(
        m.approve_permission_at("missing".to_string(), false, None, 1),
        Err(StreamError::Internal(_))
    ));
    assert!(matches!(m.deny_permission_at("missing".to_string(), 1), Err(StreamError::Internal(_))));
    assert!(matches!(m.revoke_permission("missing".to_string()), Err(StreamError::Internal(_))));
}

#[test]
fn revoke_only_granted_permissions() {
    let mut m = PermissionManager::new();
    let p = m
        .request_permission_at(stream(), "peer-a".to_string(), "laptop".to_string(), false, false, 10)
        .unwrap();
    assert!(matches!(m.revoke_permission(p.permission_id.clone()), Err(StreamError::InvalidState(_))));
    m.approve_permission_at(p.permission_id.clone(), false, None, 11).unwrap();
    m.revoke_permission(p.permission_id.clone()).unwrap();
    assert!(!m.is_recording_permitted_at(stream(), "peer-a", 12).unwrap());
    assert_eq!(m.get_stream_permissions(stream()).unwrap()[0].status, PermissionStatus::Revoked);
}

#[test]
fn cleanup_drops_only_expired_permissions() {
    let mut m = PermissionManager::new();
    let a = m
        .request_permission_at(stream(), "peer-a".to_string(), "laptop".to_string(), false, false, 0)
        .unwrap();
    let _b = m
        .request_permission_at(stream(), "peer-b".to_string(), "phone".to_string(), false, true, 0)
        .unwrap();
    m.approve_permission_at(a.permission_id.clone(), false, Some(10), 0).unwrap();
    m.cleanup_expired_permissions_at(5).unwrap();
    assert_eq!(m.get_stream_permissions(stream()).unwrap().len(), 2);
    m.cleanup_expired_permissions_at(11).unwrap();
    let left = m.get_stream_permissions(stream()).unwrap();
    assert_eq!(left.len(), 1);
    assert_eq!(left[0].peer_id, "peer-b");
}

#[test]
fn stream_permissions_keep_request_order() {
    let mut m = PermissionManager::new();
    for peer in ["p1", "p2", "p3"] {
        m.request_permission_at(stream(), peer.to_string(), "dev".to_string(), false, false, 1).unwrap();
    }
    let v = m.get_stream_permissions(stream()).unwrap();
    let peers: Vec<&str> = v.iter().map(|p| p.peer_id.as_str()).collect();
    assert_eq!(peers, vec!["p1", "p2", "p3"]);
    assert!(m.get_stream_permissions("none".to_string()).unwrap().is_empty());
}

#[test]
fn encrypted_recording_passes_frames_through() {
    let r = EncryptedRecording::new(stream(), vec![1, 2, 3]);
    assert!(r.is_encrypted());
    let data = [9u8, 8, 7];
    assert_eq!(r.encrypt_frame(&data).unwrap(), vec![9, 8, 7]);
    assert_eq!(r.decrypt_frame(&data).unwrap(), vec![9, 8, 7]);
}

#[test]
fn storage_config_defaults() {
    let c = StorageConfig::default();
    assert_eq!(c.max_total_size, 10 * 1024 * 1024 * 1024);
    assert_eq!(c.max_age.as_secs(), 30 * 24 * 60 * 60);
    assert_eq!(c.min_free_space, 1024 * 1024 * 1024);
    assert!(c.auto_cleanup);
}
