use kizuna::streaming::types::{ConnectionQuality, QualityPreset, StreamQuality, ViewerPermissions};
use kizuna::streaming::viewer::{ViewerConnectionResult, ViewerManagementControls, ViewerRegistry, MAX_VIEWERS};
use std::time::Duration;

fn perms() -> ViewerPermissions {
    ViewerPermissions::default()
}

#[test]
fn viewers_are_added_once_each_up_to_the_limit() {
    let mut registry = ViewerRegistry::new();
    let id = registry.add_viewer("peer-0001".to_string(), perms()).unwrap();
    assert_eq!(id.len(), 36);
    assert!(registry.has_viewer(id.clone()));
    let info = registry.get_viewer(id.clone()).unwrap();
    assert_eq!(info.viewer_id(), &id);
    let status = info.status();
    assert_eq!(status.device_name, "Device-peer-000");
    assert_eq!(status.connection_quality, ConnectionQuality::Good);
    assert_eq!(status.bytes_sent, 0);
    assert_eq!(status.current_quality, StreamQuality::default());
    // The same peer again.
    assert!(registry.add_viewer("peer-0001".to_string(), perms()).is_err());
    for i in 1..MAX_VIEWERS {
        registry.add_viewer(format!("viewer-{:04}", i), perms()).unwrap();
    }
    assert_eq!(registry.viewer_count(), MAX_VIEWERS);
    assert!(registry.add_viewer("peer-9999".to_string(), perms()).is_err());
    assert_eq!(registry.get_viewer_ids().len(), MAX_VIEWERS);
    assert_eq!(registry.get_all_viewer_status().unwrap().len(), MAX_VIEWERS);
    registry.remove_viewer(id.clone()).unwrap();
    assert!(registry.remove_viewer(id).is_err());
}

#[test]
fn viewing_permission_is_required() {
    let mut registry = ViewerRegistry::new();
    let mut p = perms();
    p.can_view = false;
    assert!(registry.add_viewer("peer-0001".to_string(), p).is_err());
    assert_eq!(registry.viewer_count(), 0);
}

#[test]
fn requests_are_approved_or_rejected() {
    let mut registry = ViewerRegistry::new();
    let mut p = perms();
    p.can_record = true;
    registry.request_viewer_access("waiting-1".to_string(), p).unwrap();
    assert!(registry.request_viewer_access("waiting-1".to_string(), p).is_err());
    registry.request_viewer_access("waiting-2".to_string(), perms()).unwrap();
    assert_eq!(registry.get_pending_requests().unwrap().len(), 2);
    let id = registry.approve_viewer_request("waiting-1".to_string()).unwrap();
    assert!(registry.get_viewer(id).unwrap().permissions().can_record);
    assert_eq!(registry.get_pending_requests().unwrap().len(), 1);
    // A connected peer cannot ask again.
    assert!(registry.request_viewer_access("waiting-1".to_string(), p).is_err());
    registry.reject_viewer_request("waiting-2".to_string()).unwrap();
    assert!(registry.reject_viewer_request("waiting-2".to_string()).is_err());
    assert!(registry.approve_viewer_request("nobody-at-all".to_string()).is_err());
}

#[test]
fn viewer_details_are_updated() {
    let mut registry = ViewerRegistry::new();
    let id = registry.add_viewer("peer-abcd".to_string(), perms()).unwrap();
    registry.add_bytes_sent(id.clone(), 1000).unwrap();
    registry.add_bytes_sent(id.clone(), u64::MAX).unwrap();
    registry.set_connection_quality(id.clone(), ConnectionQuality::Fair).unwrap();
    let q = QualityPreset::High.to_quality();
    registry.set_viewer_quality(id.clone(), q).unwrap();
    let status = registry.get_viewer(id.clone()).unwrap().status();
    assert_eq!(status.bytes_sent, u64::MAX);
    assert_eq!(status.connection_quality, ConnectionQuality::Fair);
    assert_eq!(status.current_quality, q);
    assert_eq!(registry.check_permission(id.clone(), |p| p.can_view).unwrap(), true);
    assert_eq!(registry.check_permission(id, |p| p.can_record).unwrap(), false);
    assert!(registry.add_bytes_sent("missing".to_string(), 1).is_err());
}

#[test]
fn controls_connect_queue_or_reject() {
    let mut controls = ViewerManagementControls::new(ViewerRegistry::new());
    match controls.handle_viewer_connection("peer-0001".to_string(), perms(), false).unwrap() {
        ViewerConnectionResult::Connected(id) => assert_eq!(id.len(), 36),
        other => panic!("unexpected {:?}", other),
    }
    match controls.handle_viewer_connection("peer-0002".to_string(), perms(), true).unwrap() {
        ViewerConnectionResult::PendingApproval => {},
        other => panic!("unexpected {:?}", other),
    }
    let mut no_view = perms();
    no_view.can_view = false;
    match controls.handle_viewer_connection("peer-0003".to_string(), no_view, false).unwrap() {
        ViewerConnectionResult::Rejected(reason) => assert!(reason.contains("View permission")),
        other => panic!("unexpected {:?}", other),
    }
    assert_eq!(controls.get_pending_approvals().unwrap().len(), 1);
    let id = controls.approve_pending_viewer("peer-0002".to_string()).unwrap();
    assert_eq!(controls.get_viewer_count(), 2);
    assert!(!controls.is_viewer_limit_reached());
    controls.grant_recording_permission(id.clone()).unwrap();
    controls.grant_quality_control(id.clone()).unwrap();
    let p = controls.registry().get_viewer(id.clone()).unwrap().permissions();
    assert!(p.can_record && p.can_control_quality);
    controls.revoke_recording_permission(id.clone()).unwrap();
    controls.revoke_quality_control(id.clone()).unwrap();
    let p = controls.registry().get_viewer(id.clone()).unwrap().permissions();
    assert!(!p.can_record && !p.can_control_quality);
    controls.kick_viewer(id.clone(), "bye".to_string()).unwrap();
    assert!(controls.handle_viewer_disconnection(id).is_err());
}

#[test]
fn status_reports_and_poor_connections() {
    let mut registry = ViewerRegistry::new();
    let good = registry.add_viewer("peer-good".to_string(), perms()).unwrap();
    let poor = registry.add_viewer("peer-poor".to_string(), perms()).unwrap();
    registry.set_connection_quality(poor.clone(), ConnectionQuality::Poor).unwrap();
    registry.add_bytes_sent(good.clone(), 1000).unwrap();
    let controls = ViewerManagementControls::new(registry);
    let report = controls.get_viewer_status_report_with(good.clone(), Duration::from_secs(4), 4).unwrap();
    assert_eq!(report.average_bitrate, 2000);
    assert!(report.is_healthy);
    let report = controls.get_viewer_status_report_with(good.clone(), Duration::from_secs(0), 0).unwrap();
    assert_eq!(report.average_bitrate, 0);
    let report = controls.get_viewer_status_report(poor.clone()).unwrap();
    assert!(!report.is_healthy);
    assert_eq!(controls.get_poor_connection_viewers().unwrap(), vec![poor]);
    assert_eq!(controls.get_all_status_reports().unwrap().len(), 2);
}
