use livecap::clip::ClipPlan;
use livecap::errors::RecorderError;
use livecap::manager::RecorderManager;
use livecap::platform::PlatformType;
use livecap::recorder::{
    CaptureAction, CaptureEvent, Recorder, RecorderState, RoomInfo, UserInfo,
};

fn room_info(room_id: u64) -> RoomInfo {
    RoomInfo {
        room_id,
        room_title: String::from("title"),
        room_cover: String::from("cover"),
    }
}

fn user_info() -> UserInfo {
    UserInfo {
        user_id: String::from("u1"),
        user_name: String::from("name"),
        user_avatar: String::from("avatar"),
    }
}

fn recorder(room_id: u64) -> Recorder {
    Recorder::new(PlatformType::BiliBili, room_id, room_info(room_id), user_info())
}

fn fetched(sequence: u64, timestamp_ms: u64, duration_ms: u64, path: &str) -> CaptureEvent {
    CaptureEvent::SegmentFetched {
        sequence,
        byte_length: 4096,
        timestamp_ms,
        duration_ms,
        path: String::from(path),
    }
}

fn danmu(sender: &str, text: &str, timestamp_ms: u64) -> CaptureEvent {
    CaptureEvent::DanmuReceived {
        sender: String::from(sender),
        text: String::from(text),
        timestamp_ms,
        raw: String::from("{}"),
    }
}

#[test]
fn recorder_goes_idle_connecting_recording_and_stops() {
    // A live-status flip drives Idle -> Connecting -> Recording; five
    // segments and a dozen chat entries accumulate; stop closes the session.
    let mut rec = recorder(123);
    assert_eq!(rec.state, RecorderState::Idle);

    let a = rec.step(CaptureEvent::LiveStatus { live: true });
    assert_eq!(rec.state, RecorderState::Connecting);
    assert_eq!(a, CaptureAction::ResolveStream);

    let a = rec.step(CaptureEvent::StreamResolved { now_ms: 1000 });
    assert_eq!(rec.state, RecorderState::Recording);
    assert_eq!(a, CaptureAction::FetchSegment { backoff_ms: 0 });

    for i in 0..5u64 {
        let a = rec.step(fetched(i, 1000 + i * 1000, 1000, &format!("seg{}.ts", i)));
        assert_eq!(a, CaptureAction::FetchSegment { backoff_ms: 0 });
    }
    for i in 0..12u64 {
        rec.step(danmu("viewer", &format!("hi {}", i), 1000 + i));
    }

    let a = rec.step(CaptureEvent::StopRequested);
    assert_eq!(rec.state, RecorderState::Stopping);
    assert_eq!(a, CaptureAction::StopSubtasks);
    rec.stop(99999);
    assert_eq!(rec.state, RecorderState::Stopped);

    let session = &rec.sessions[0];
    assert_eq!(session.live_id, 1000);
    assert_eq!(session.end_ts_ms, Some(99999));
    assert_eq!(session.segments.len(), 5);
    for (i, seg) in session.segments.iter().enumerate() {
        assert_eq!(seg.sequence, i as u64);
        assert!(!seg.discontinuity);
    }

    let playlist = rec.m3u8_content(1000);
    assert_eq!(playlist.matches("#EXTINF").count(), 5);
    assert!(playlist.ends_with("#EXT-X-ENDLIST\n"));

    let comments = rec.comments(1000).unwrap();
    assert_eq!(comments.len(), 12);
    for (i, c) in comments.iter().enumerate() {
        assert_eq!(c.text, format!("hi {}", i));
    }
}

#[test]
fn transient_fetch_failures_are_absorbed_without_gap() {
    // Three consecutive failures stay within the retry budget: the state
    // machine keeps recording with growing backoff, and the following
    // success appends without a discontinuity marker.
    let mut rec = recorder(7);
    rec.step(CaptureEvent::LiveStatus { live: true });
    rec.step(CaptureEvent::StreamResolved { now_ms: 500 });

    let a1 = rec.step(CaptureEvent::SegmentFetchFailed);
    assert_eq!(rec.state, RecorderState::Recording);
    assert_eq!(a1, CaptureAction::FetchSegment { backoff_ms: 1000 });
    let a2 = rec.step(CaptureEvent::SegmentFetchFailed);
    assert_eq!(a2, CaptureAction::FetchSegment { backoff_ms: 2000 });
    let a3 = rec.step(CaptureEvent::SegmentFetchFailed);
    assert_eq!(a3, CaptureAction::FetchSegment { backoff_ms: 4000 });
    assert_eq!(rec.state, RecorderState::Recording);

    rec.step(fetched(0, 600, 1000, "seg0.ts"));
    assert_eq!(rec.state, RecorderState::Recording);
    let session = &rec.sessions[0];
    assert_eq!(session.segments.len(), 1);
    assert!(!session.segments[0].discontinuity);
    assert_eq!(session.end_ts_ms, None);
}

#[test]
fn exhausted_retries_close_the_session_and_fall_back_to_idle() {
    let mut rec = recorder(7);
    rec.step(CaptureEvent::LiveStatus { live: true });
    rec.step(CaptureEvent::StreamResolved { now_ms: 500 });
    rec.step(fetched(0, 600, 1000, "seg0.ts"));
    for _ in 0..4 {
        rec.step(CaptureEvent::SegmentFetchFailed);
    }
    // The fifth consecutive failure exhausts the budget.
    let a = rec.step(CaptureEvent::SegmentFetchFailed);
    assert_eq!(rec.state, RecorderState::Idle);
    assert_eq!(a, CaptureAction::Wait);
    // The session was closed at the last written segment's timestamp.
    assert_eq!(rec.sessions[0].end_ts_ms, Some(600));
}

#[test]
fn nothing_is_appended_after_stop() {
    let mut rec = recorder(9);
    rec.step(CaptureEvent::LiveStatus { live: true });
    rec.step(CaptureEvent::StreamResolved { now_ms: 100 });
    rec.step(fetched(0, 150, 1000, "seg0.ts"));
    rec.step(danmu("a", "before", 150));
    rec.step(CaptureEvent::StopRequested);
    rec.stop(2000);

    let segments_before = rec.sessions[0].segments.len();
    let danmu_before = rec.sessions[0].danmu.len();

    let a = rec.step(fetched(1, 300, 1000, "seg1.ts"));
    assert_eq!(a, CaptureAction::Wait);
    let a = rec.step(danmu("b", "after", 300));
    assert_eq!(a, CaptureAction::Wait);

    assert_eq!(rec.state, RecorderState::Stopped);
    assert_eq!(rec.sessions[0].segments.len(), segments_before);
    assert_eq!(rec.sessions[0].danmu.len(), danmu_before);
    assert_eq!(rec.sessions[0].end_ts_ms, Some(2000));
}

#[test]
fn registry_rejects_duplicates_and_keeps_rooms_independent() {
    let mut mgr = RecorderManager::new();
    assert!(mgr
        .add_recorder(PlatformType::BiliBili, 123, true, room_info(123), user_info())
        .is_ok());
    // The same room a second time is refused.
    assert_eq!(
        mgr.add_recorder(PlatformType::BiliBili, 123, true, room_info(123), user_info()),
        Err(RecorderError::AlreadyExists)
    );
    // A different room is unaffected by the first registration.
    assert!(mgr
        .add_recorder(PlatformType::Douyin, 456, true, room_info(456), user_info())
        .is_ok());
    assert_eq!(mgr.get_recorder_list().len(), 2);

    // The adapter's refusal surfaces as PlatformRejected.
    assert_eq!(
        mgr.add_recorder(PlatformType::Huya, 789, false, room_info(789), user_info()),
        Err(RecorderError::PlatformRejected)
    );

    let removed = mgr.remove_recorder(123, 5000).unwrap();
    assert_eq!(removed.state, RecorderState::Stopped);
    assert!(matches!(
        mgr.remove_recorder(123, 5000),
        Err(RecorderError::NotFound)
    ));
    assert_eq!(mgr.get_recorder_list().len(), 1);
}

#[test]
fn registry_snapshots_and_forwards_queries() {
    let mut mgr = RecorderManager::new();
    mgr.add_recorder(PlatformType::BiliBili, 42, true, room_info(42), user_info())
        .unwrap();

    let info = mgr.get_recorder_info(42).unwrap();
    assert_eq!(info.room_id, 42);
    assert_eq!(info.platform, PlatformType::BiliBili);
    assert!(!info.live_status);
    assert_eq!(info.current_live_id, None);
    assert_eq!(info.total_length_ms, 0);
    assert!(mgr.get_recorder_info(999).is_none());

    mgr.step_room(42, CaptureEvent::LiveStatus { live: true }).unwrap();
    mgr.step_room(42, CaptureEvent::StreamResolved { now_ms: 777 }).unwrap();
    mgr.step_room(42, fetched(0, 800, 2500, "seg0.ts")).unwrap();
    mgr.step_room(42, danmu("x", "hello", 800)).unwrap();

    let info = mgr.get_recorder_info(42).unwrap();
    assert!(info.live_status);
    assert_eq!(info.current_live_id, Some(777));
    assert_eq!(info.total_length_ms, 2500);

    let entries = mgr.get_danmu(42, 777).unwrap();
    assert_eq!(entries.len(), 1);
    assert_eq!(entries[0].text, "hello");
    assert!(matches!(
        mgr.get_danmu(42, 1),
        Err(RecorderError::SessionNotFound)
    ));
    assert!(matches!(
        mgr.get_danmu(999, 777),
        Err(RecorderError::NotFound)
    ));
    assert!(matches!(
        mgr.step_room(999, CaptureEvent::LiveStatus { live: true }),
        Err(RecorderError::NotFound)
    ));
}

#[test]
fn registry_forwards_archive_playlist_and_clip_queries() {
    let mut mgr = RecorderManager::new();
    mgr.add_recorder(PlatformType::BiliBili, 55, true, room_info(55), user_info())
        .unwrap();
    mgr.step_room(55, CaptureEvent::LiveStatus { live: true }).unwrap();
    mgr.step_room(55, CaptureEvent::StreamResolved { now_ms: 10 }).unwrap();
    mgr.step_room(55, fetched(0, 10, 25000, "a.ts")).unwrap();
    mgr.step_room(55, fetched(1, 25010, 25000, "b.ts")).unwrap();

    let archives = mgr.get_archives(55).unwrap();
    assert_eq!(archives.len(), 1);
    assert_eq!(archives[0].live_id, 10);
    assert_eq!(archives[0].start_ts_ms, 10);
    assert_eq!(archives[0].end_ts_ms, None);
    assert_eq!(archives[0].duration_ms, 50000);
    assert_eq!(archives[0].segment_count, 2);
    assert_eq!(archives[0].danmu_count, 0);
    assert!(matches!(
        mgr.get_archives(999),
        Err(RecorderError::NotFound)
    ));

    let one = mgr.get_archive(55, 10).unwrap();
    assert_eq!(one.live_id, 10);
    assert_eq!(one.segment_count, 2);
    assert!(matches!(
        mgr.get_archive(55, 11),
        Err(RecorderError::SessionNotFound)
    ));
    assert!(matches!(
        mgr.get_archive(999, 10),
        Err(RecorderError::NotFound)
    ));

    let playlist = mgr.get_m3u8(55, 10).unwrap();
    assert_eq!(playlist.matches("#EXTINF").count(), 2);
    assert!(matches!(mgr.get_m3u8(999, 10), Err(RecorderError::NotFound)));

    let plan = mgr.clip_range(55, 10, 10000, 40000, "out.mp4", false).unwrap();
    assert_eq!(plan.input_paths.len(), 2);
    assert!(matches!(
        mgr.clip_range(999, 10, 10000, 40000, "out.mp4", false),
        Err(RecorderError::NotFound)
    ));
    assert!(matches!(
        mgr.clip_range(55, 11, 10000, 40000, "out.mp4", false),
        Err(RecorderError::SessionNotFound)
    ));
}

fn two_segment_recorder() -> Recorder {
    // A session whose two contiguous segments span 0-25 s and 25-50 s.
    let mut rec = recorder(55);
    rec.step(CaptureEvent::LiveStatus { live: true });
    rec.step(CaptureEvent::StreamResolved { now_ms: 10 });
    rec.step(fetched(0, 10, 25000, "a.ts"));
    rec.step(fetched(1, 25010, 25000, "b.ts"));
    rec
}

#[test]
fn clip_range_validates_its_range() {
    let rec = two_segment_recorder();
    assert!(matches!(
        rec.clip_range(10, 40000, 40000, "out.mp4", false),
        Err(RecorderError::InvalidRange)
    ));
    assert!(matches!(
        rec.clip_range(10, 41000, 40000, "out.mp4", false),
        Err(RecorderError::InvalidRange)
    ));
    assert!(matches!(
        rec.clip_range(10, 0, 50001, "out.mp4", false),
        Err(RecorderError::InvalidRange)
    ));
    assert!(matches!(
        rec.clip_range(10, 10000, 40000, "out.mp4", true),
        Err(RecorderError::OutputExists)
    ));
    assert!(matches!(
        rec.clip_range(11, 10000, 40000, "out.mp4", false),
        Err(RecorderError::SessionNotFound)
    ));
}

#[test]
fn clip_range_concatenates_covering_segments() {
    // Clipping 10-40 s of a 0-25/25-50 session covers both segments.
    let rec = two_segment_recorder();
    let plan: ClipPlan = rec.clip_range(10, 10000, 40000, "out.mp4", false).unwrap();
    assert_eq!(plan.input_paths, vec![String::from("a.ts"), String::from("b.ts")]);
    assert_eq!(plan.start_offset_ms, 10000);
    assert_eq!(plan.duration_ms, 30000);
    assert_eq!(plan.output_path, "out.mp4");
}

#[test]
fn clip_range_refuses_a_range_crossing_a_discontinuity() {
    let mut rec = recorder(56);
    rec.step(CaptureEvent::LiveStatus { live: true });
    rec.step(CaptureEvent::StreamResolved { now_ms: 10 });
    rec.step(fetched(0, 10, 10000, "a.ts"));
    // Sequence jumps from 0 to 5: a loss was detected and marked.
    rec.step(fetched(5, 20010, 10000, "b.ts"));
    assert!(rec.sessions[0].segments[1].discontinuity);

    assert!(matches!(
        rec.clip_range(10, 5000, 15000, "out.mp4", false),
        Err(RecorderError::DiscontinuousRange)
    ));
    // A range on one side of the marker is fine.
    let plan = rec.clip_range(10, 0, 10000, "out.mp4", false).unwrap();
    assert_eq!(plan.input_paths, vec![String::from("a.ts")]);
}
