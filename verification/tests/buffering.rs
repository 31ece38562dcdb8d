use kizuna::streaming::error::StreamError;
use kizuna::streaming::network::buffer_manager::{
    health_for, BufferAlertType, BufferHealth, BufferMonitor, FlowController, FrameQueue, SyncTracker,
    MAX_ALERTS,
};
use std::time::SystemTime;

#[test]
fn frame_queue_is_first_in_first_out() {
    let mut q: FrameQueue<u32> = FrameQueue::new(3);
    q.push(1);
    q.push(2);
    assert_eq!(q.len(), 2);
    assert_eq!(q.front(), Some(&1));
    assert_eq!(q.pop(), Some(1));
    assert_eq!(q.pop(), Some(2));
    assert_eq!(q.pop(), None);
    assert_eq!(q.underrun_count(), 1);
    assert_eq!(q.overrun_count(), 0);
}

#[test]
fn full_frame_queue_drops_the_oldest() {
    let mut q: FrameQueue<u32> = FrameQueue::new(2);
    q.push(1);
    q.push(2);
    q.push(3);
    assert_eq!(q.len(), 2);
    assert_eq!(q.overrun_count(), 1);
    assert_eq!(q.pop(), Some(2));
    assert_eq!(q.pop(), Some(3));
}

#[test]
fn zero_capacity_queue_keeps_the_newest_frame() {
    let mut q: FrameQueue<u32> = FrameQueue::new(0);
    q.push(7);
    q.push(8);
    assert_eq!(q.len(), 1);
    assert_eq!(q.overrun_count(), 2);
    assert_eq!(q.front(), Some(&8));
}

#[test]
fn resize_and_clear_keep_counters() {
    let mut q: FrameQueue<u32> = FrameQueue::new(4);
    q.push(1);
    q.pop();
    q.pop();
    q.resize(10);
    assert_eq!(q.capacity(), 10);
    q.push(5);
    q.clear();
    assert_eq!(q.len(), 0);
    assert_eq!(q.underrun_count(), 1);
}

#[test]
fn health_thresholds() {
    assert_eq!(health_for(0, 0), BufferHealth::Healthy);
    assert_eq!(health_for(3, 3), BufferHealth::Healthy);
    assert_eq!(health_for(4, 0), BufferHealth::Warning);
    assert_eq!(health_for(0, 10), BufferHealth::Warning);
    assert_eq!(health_for(11, 0), BufferHealth::Critical);
    assert_eq!(health_for(2, 11), BufferHealth::Critical);
}

#[test]
fn monitor_counts_underruns_and_keeps_fifty_alerts() {
    let mut m = BufferMonitor::new();
    assert_eq!(m.health(), BufferHealth::Healthy);
    m.record_frame_buffered();
    assert_eq!(m.counts().frames_buffered, 1);
    let now = SystemTime::now();
    for _ in 0..4 {
        m.record_underrun_at(now);
    }
    assert_eq!(m.counts().underrun_events, 4);
    assert_eq!(m.health(), BufferHealth::Warning);
    for _ in 0..60 {
        m.record_overrun_at(now);
    }
    assert_eq!(m.health(), BufferHealth::Critical);
    let alerts = m.alerts();
    assert_eq!(alerts.len(), MAX_ALERTS);
    assert!(alerts.iter().all(|a| a.alert_type == BufferAlertType::Overrun));
    assert_eq!(alerts[0].message, "Buffer overrun detected");
}

#[test]
fn flow_control_window() {
    let mut f = FlowController::new(100);
    assert!(f.check_capacity(100).is_ok());
    f.track_sent(1, 60);
    assert_eq!(f.bytes_in_flight(), 60);
    match f.check_capacity(41) {
        Err(StreamError::Resource(m)) => assert_eq!(m, "Flow control window exceeded"),
        other => panic!("unexpected {:?}", other),
    }
    assert!(f.check_capacity(40).is_ok());
    assert_eq!(f.pending_count(), 1);
    assert!(f.acknowledge(1));
    assert_eq!(f.bytes_in_flight(), 0);
    assert!(!f.acknowledge(1));
    f.update_window(10);
    assert!(f.check_capacity(11).is_err());
}

#[test]
fn sync_tracker_corrects_large_drift_only() {
    let mut s = SyncTracker::new();
    s.update_sync_offset(1_000_000_000, 1_050_000_000).unwrap();
    assert_eq!(s.get_sync_offset(), 0);
    assert_eq!(s.corrections(), 0);
    s.update_sync_offset(1_300_000_000, 1_000_000_000).unwrap();
    assert_eq!(s.get_sync_offset(), 300_000_000);
    assert_eq!(s.corrections(), 1);
}
