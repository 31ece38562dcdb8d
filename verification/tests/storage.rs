use kizuna::streaming::error::StreamError;
use kizuna::streaming::recording::{
    check_free_space, check_total_space, insufficient_storage, is_too_old, required_space, usage_after_delete,
    RecordingCatalog, SpaceDecision, StorageConfig,
};
use kizuna::streaming::types::VideoFormat;
use std::time::Duration;

const GIB: u64 = 1024 * 1024 * 1024;

#[test]
fn required_space_defaults_to_one_gib() {
    assert_eq!(required_space(None), GIB);
    assert_eq!(required_space(Some(5)), 5);
}

#[test]
fn total_space_decisions() {
    let mut config = StorageConfig::default();
    assert_eq!(check_total_space(0, GIB, &config, false), SpaceDecision::Fits);
    assert_eq!(check_total_space(9 * GIB, GIB, &config, false), SpaceDecision::Fits);
    assert_eq!(check_total_space(9 * GIB + 1, GIB, &config, false), SpaceDecision::CleanupFirst);
    assert_eq!(check_total_space(9 * GIB + 1, GIB, &config, true), SpaceDecision::Insufficient);
    config.auto_cleanup = false;
    assert_eq!(check_total_space(9 * GIB + 1, GIB, &config, false), SpaceDecision::Insufficient);
    match insufficient_storage() {
        StreamError::Resource(m) => assert_eq!(m, "Insufficient storage space for recording"),
        other => panic!("unexpected {:?}", other),
    }
}

#[test]
fn free_space_keeps_the_reserve() {
    let config = StorageConfig::default();
    assert!(check_free_space(2 * GIB, GIB, &config).is_ok());
    match check_free_space(2 * GIB - 1, GIB, &config) {
        Err(StreamError::Resource(m)) => assert_eq!(m, "Insufficient filesystem space for recording"),
        other => panic!("unexpected {:?}", other),
    }
    assert!(check_free_space(0, GIB, &config).is_err());
}

#[test]
fn age_and_usage_helpers() {
    assert!(is_too_old(0, 11, 10));
    assert!(!is_too_old(0, 10, 10));
    assert!(!is_too_old(20, 10, 0));
    assert_eq!(usage_after_delete(10, 3), 7);
    assert_eq!(usage_after_delete(3, 10), 0);
}

#[test]
fn catalog_register_finalize_delete() {
    let mut c = RecordingCatalog::new();
    c.register_recording_at("s1".to_string(), "/tmp/a.mp4".to_string(), VideoFormat::MP4, 42).unwrap();
    let e = c.get_recording(&"s1".to_string()).unwrap();
    assert_eq!(e.file_size, 0);
    assert_eq!(e.created_at, 42);
    assert_eq!(e.stream_source, "unknown");
    assert_eq!(e.quality_preset, "medium");
    assert!(e.tags.is_empty());
    c.finalize_recording(&"s1".to_string(), 1000, Duration::from_secs(5)).unwrap();
    let e = c.get_recording(&"s1".to_string()).unwrap();
    assert_eq!(e.file_size, 1000);
    assert_eq!(e.duration, Duration::from_secs(5));
    assert_eq!(c.get_all_recordings().unwrap().len(), 1);
    let gone = c.delete_recording(&"s1".to_string()).unwrap();
    assert_eq!(gone.file_path, "/tmp/a.mp4");
    match c.delete_recording(&"s1".to_string()) {
        Err(StreamError::SessionNotFound(m)) => assert_eq!(m, "s1"),
        other => panic!("unexpected {:?}", other),
    }
    assert!(c.get_recording(&"s1".to_string()).is_err());
}

#[test]
fn tags_are_added_once_and_searched() {
    let mut c = RecordingCatalog::new();
    c.register_recording_at("s1".to_string(), "a".to_string(), VideoFormat::MP4, 1).unwrap();
    c.register_recording_at("s2".to_string(), "b".to_string(), VideoFormat::WebM, 2).unwrap();
    c.add_tags(&"s1".to_string(), vec!["work".to_string(), "demo".to_string(), "work".to_string()]).unwrap();
    c.add_tags(&"s1".to_string(), vec!["demo".to_string(), "late".to_string()]).unwrap();
    let e = c.get_recording(&"s1".to_string()).unwrap();
    assert_eq!(e.tags, vec!["work".to_string(), "demo".to_string(), "late".to_string()]);
    let found = c.search_by_tags(&vec!["late".to_string(), "none".to_string()]).unwrap();
    assert_eq!(found.len(), 1);
    assert_eq!(found[0].session_id, "s1");
    assert!(c.search_by_tags(&vec!["none".to_string()]).unwrap().is_empty());
    assert!(matches!(
        c.add_tags(&"s9".to_string(), vec!["x".to_string()]),
        Err(StreamError::SessionNotFound(_))
    ));
}
