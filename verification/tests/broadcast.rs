use kizuna::streaming::error::StreamError;
use kizuna::streaming::types::StreamQuality;
use kizuna::streaming::viewer::{
    check_broadcast_audience, encoding_plan, estimate_frame_size, BroadcastController,
};

#[test]
fn audience_must_be_present_and_within_the_limit() {
    match check_broadcast_audience(0) {
        Err(StreamError::Viewer(m)) => assert_eq!(m, "No viewers connected"),
        other => panic!("unexpected {:?}", other),
    }
    assert!(check_broadcast_audience(1).is_ok());
    assert!(check_broadcast_audience(10).is_ok());
    match check_broadcast_audience(11) {
        Err(StreamError::Viewer(m)) => assert_eq!(m, "Too many viewers: 11 (max: 10)"),
        other => panic!("unexpected {:?}", other),
    }
}

#[test]
fn encoder_plan_by_viewer_count() {
    assert_eq!(encoding_plan(1), (15, 1));
    assert_eq!(encoding_plan(4), (60, 2));
    assert_eq!(encoding_plan(8), (120, 4));
    assert_eq!(encoding_plan(20), (120, 8));
}

#[test]
fn frame_size_from_bitrate_and_framerate() {
    let q = StreamQuality::default();
    assert_eq!(estimate_frame_size(&q), (q.bitrate / q.framerate / 8) as u64);
    let mut q2 = q;
    q2.bitrate = 2_400_000;
    q2.framerate = 30;
    assert_eq!(estimate_frame_size(&q2), 10_000);
}

#[test]
fn broadcast_rounds_count_frames_and_stop() {
    let mut b = BroadcastController::new();
    let q = StreamQuality::default();
    let viewers = vec!["v1".to_string(), "v2".to_string()];
    b.record_round_at("s1".to_string(), q, viewers.clone(), q, 100).unwrap();
    b.record_round_at("s1".to_string(), q, viewers, q, 200).unwrap();
    let st = b.get_broadcast_stats(&"s1".to_string()).unwrap();
    assert_eq!(st.viewer_count, 2);
    assert_eq!(st.total_frames_sent, 4);
    assert_eq!(st.started_at, 100);
    assert_eq!(b.get_active_sessions(), vec!["s1".to_string()]);
    assert_eq!(b.viewer_counts(), vec![2]);
    b.stop_broadcast(&"s1".to_string()).unwrap();
    assert!(matches!(b.stop_broadcast(&"s1".to_string()), Err(StreamError::SessionNotFound(_))));
    assert!(b.get_broadcast_stats(&"s1".to_string()).is_err());
}
