use kizuna::security::identity::PeerId;
use kizuna::security::policy::audit::{AuditConfig, AuditLog, EntryFilter, SecurityAuditor, Severity};
use kizuna::security::policy::{SecurityEvent, SecurityEventType};

#[test]
fn test_log_event() {
    let mut auditor = SecurityAuditor::new();
    let peer_id = PeerId::from_string("test_peer").unwrap();

    let event = SecurityEvent::new(
        SecurityEventType::ConnectionAttempt,
        Some(peer_id),
        "Test connection".to_string(),
    );

    auditor.log_event(event).unwrap();
    assert_eq!(auditor.entry_count(), 1);
}

#[test]
fn test_get_recent_entries() {
    let mut auditor = SecurityAuditor::new();
    let peer_id = PeerId::from_string("test_peer").unwrap();

    // Log multiple events
    for i in 0..5 {
        let event = SecurityEvent::new(
            SecurityEventType::ConnectionAttempt,
            Some(peer_id.clone()),
            format!("Connection {}", i),
        );
        auditor.log_event(event).unwrap();
    }

    let recent = auditor.get_recent_entries(3);
    assert_eq!(recent.len(), 3);
}

#[test]
fn test_get_entries_for_peer() {
    let mut auditor = SecurityAuditor::new();
    let peer1 = PeerId::from_string("peer1").unwrap();
    let peer2 = PeerId::from_string("peer2").unwrap();

    // Log events for different peers
    for _ in 0..3 {
        let event = SecurityEvent::new(
            SecurityEventType::ConnectionAttempt,
            Some(peer1.clone()),
            "Peer 1 connection".to_string(),
        );
        auditor.log_event(event).unwrap();
    }

    for _ in 0..2 {
        let event = SecurityEvent::new(
            SecurityEventType::ConnectionAttempt,
            Some(peer2.clone()),
            "Peer 2 connection".to_string(),
        );
        auditor.log_event(event).unwrap();
    }

    let peer1_entries = auditor.get_entries_for_peer(&peer1, 10);
    assert_eq!(peer1_entries.len(), 3);

    let peer2_entries = auditor.get_entries_for_peer(&peer2, 10);
    assert_eq!(peer2_entries.len(), 2);
}

#[test]
fn test_severity_classification() {
    let mut auditor = SecurityAuditor::new();
    let peer_id = PeerId::from_string("test_peer").unwrap();

    // Log critical event
    let critical_event = SecurityEvent::new(
        SecurityEventType::RateLimitExceeded,
        Some(peer_id.clone()),
        "Rate limit exceeded".to_string(),
    );
    auditor.log_event(critical_event).unwrap();

    // Log info event
    let info_event = SecurityEvent::new(
        SecurityEventType::ConnectionAccepted,
        Some(peer_id),
        "Connection accepted".to_string(),
    );
    auditor.log_event(info_event).unwrap();

    let critical = auditor.get_critical_events(10);
    assert_eq!(critical.len(), 1);
}

#[test]
fn test_circular_buffer() {
    let config = AuditConfig {
        max_memory_entries: 5,
        persist_to_disk: false,
        log_file_path: None,
    };

    let mut auditor = SecurityAuditor::with_config(config);
    let peer_id = PeerId::from_string("test_peer").unwrap();

    // Log more than max entries
    for i in 0..10 {
        let event = SecurityEvent::new(
            SecurityEventType::ConnectionAttempt,
            Some(peer_id.clone()),
            format!("Connection {}", i),
        );
        auditor.log_event(event).unwrap();
    }

    // Should only keep last 5
    assert_eq!(auditor.entry_count(), 5);
}

#[test]
fn test_clear() {
    let mut auditor = SecurityAuditor::new();
    let peer_id = PeerId::from_string("test_peer").unwrap();

    let event = SecurityEvent::new(
        SecurityEventType::ConnectionAttempt,
        Some(peer_id),
        "Test".to_string(),
    );
    auditor.log_event(event).unwrap();

    assert_eq!(auditor.entry_count(), 1);

    auditor.clear().unwrap();
    assert_eq!(auditor.entry_count(), 0);
}

fn event_at(t: SecurityEventType, details: &str, now: u64) -> SecurityEvent {
    SecurityEvent::new_at(t, None, details.to_string(), now)
}

#[test]
fn circular_buffer_keeps_the_newest_entries() {
    let config = AuditConfig { max_memory_entries: 3, persist_to_disk: false, log_file_path: None };
    let mut auditor = SecurityAuditor::with_config(config);
    for i in 0..6u64 {
        auditor.log_event(event_at(SecurityEventType::PairingAttempt, &format!("e{}", i), i)).unwrap();
    }
    let all = auditor.get_all_entries();
    assert_eq!(all.len(), 3);
    // All entries come oldest first; recent ones newest first.
    assert_eq!(all[0].event.details, "e3");
    assert_eq!(all[1].event.details, "e4");
    assert_eq!(all[2].event.details, "e5");
    let recent = auditor.get_recent_entries(2);
    assert_eq!(recent.len(), 2);
    assert_eq!(recent[0].event.timestamp, 5);
    assert_eq!(recent[1].event.timestamp, 4);
}

#[test]
fn severities_follow_the_event_type() {
    let mut auditor = SecurityAuditor::new();
    auditor.log_event(event_at(SecurityEventType::PairingFailure, "w", 1)).unwrap();
    auditor.log_event(event_at(SecurityEventType::SuspiciousActivity, "c", 2)).unwrap();
    auditor.log_event(event_at(SecurityEventType::PairingSuccess, "i", 3)).unwrap();
    let warnings = auditor.get_entries_by_severity(Severity::Warning, 10);
    assert_eq!(warnings.len(), 1);
    assert_eq!(warnings[0].event.details, "w");
    let critical = auditor.get_critical_events(10);
    assert_eq!(critical.len(), 1);
    assert_eq!(critical[0].event.details, "c");
    let by_type = auditor.get_entries_by_type(SecurityEventType::PairingSuccess, 10);
    assert_eq!(by_type.len(), 1);
    let any = auditor.newest_entries(&EntryFilter::Any, 2);
    assert_eq!(any.len(), 2);
    assert_eq!(any[0].event.details, "i");
}

#[test]
fn a_smaller_limit_applies_at_the_next_log() {
    let mut auditor = SecurityAuditor::new();
    for i in 0..4u64 {
        auditor.log_event(event_at(SecurityEventType::ConnectionAttempt, &format!("e{}", i), i)).unwrap();
    }
    auditor
        .update_config(AuditConfig { max_memory_entries: 2, persist_to_disk: false, log_file_path: None })
        .unwrap();
    // The entries kept stay as they are until the next event is logged.
    assert_eq!(auditor.entry_count(), 4);
    assert_eq!(auditor.get_config().max_memory_entries, 2);
    auditor.log_event(event_at(SecurityEventType::ConnectionAttempt, "e4", 4)).unwrap();
    assert_eq!(auditor.entry_count(), 2);
    let all = auditor.get_all_entries();
    assert_eq!(all[0].event.details, "e3");
    assert_eq!(all[1].event.details, "e4");
}

#[test]
fn audit_log_forwards_to_its_auditor() {
    let mut log = AuditLog::new(SecurityAuditor::new());
    let peer = PeerId::from_string("peer").unwrap();
    log.log(SecurityEvent::new_at(SecurityEventType::RateLimitExceeded, Some(peer), "x".to_string(), 7))
        .unwrap();
    assert_eq!(log.get_recent(5).len(), 1);
    assert_eq!(log.get_for_peer(&peer, 5).len(), 1);
    assert_eq!(log.get_critical(5).len(), 1);
    assert_eq!(log.auditor().entry_count(), 1);
}
