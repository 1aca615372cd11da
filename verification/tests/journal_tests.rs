use livecap::errors::RecorderError;
use livecap::journal::LiveSession;

fn append(session: &mut LiveSession, seq: u64, ts: u64, dur: u64, path: &str) -> Result<(), RecorderError> {
    session.append_segment(seq, 1024, ts, dur, String::from(path))
}

#[test]
fn playlist_text_is_exact() {
    let mut s = LiveSession::new(1, 2, 0);
    append(&mut s, 0, 0, 1500, "a.ts").unwrap();
    s.close(1500);
    assert_eq!(
        s.build_playlist(),
        "#EXTM3U\n#EXT-X-VERSION:3\n#EXTINF:1.500,\na.ts\n#EXT-X-ENDLIST\n"
    );
}

#[test]
fn playlist_marks_discontinuities_and_open_sessions() {
    let mut s = LiveSession::new(1, 2, 0);
    append(&mut s, 0, 0, 1000, "a.ts").unwrap();
    // The upstream numbering jumped: the gap is recorded, never skipped.
    append(&mut s, 3, 5000, 2000, "b.ts").unwrap();
    let text = s.build_playlist();
    assert_eq!(
        text,
        "#EXTM3U\n#EXT-X-VERSION:3\n#EXTINF:1.000,\na.ts\n#EXT-X-DISCONTINUITY\n#EXTINF:2.000,\nb.ts\n"
    );
    assert!(!text.contains("#EXT-X-ENDLIST"));
}

#[test]
fn sequence_numbers_never_overwrite() {
    let mut s = LiveSession::new(1, 2, 0);
    append(&mut s, 0, 0, 1000, "a.ts").unwrap();
    append(&mut s, 1, 1000, 1000, "b.ts").unwrap();
    assert!(matches!(
        append(&mut s, 1, 2000, 1000, "c.ts"),
        Err(RecorderError::SegmentWriteError)
    ));
    assert_eq!(s.segments.len(), 2);
    assert_eq!(s.total_duration_ms, 2000);
}

#[test]
fn comments_preserve_arrival_order_with_clamped_timestamps() {
    let mut s = LiveSession::new(1, 2, 0);
    s.append_danmu(String::from("a"), String::from("first"), 500, String::new());
    // A sender clock running behind never reorders the journal.
    s.append_danmu(String::from("b"), String::from("second"), 300, String::new());
    s.append_danmu(String::from("c"), String::from("third"), 800, String::new());
    let entries = s.comments();
    assert_eq!(entries.len(), 3);
    assert_eq!(entries[0].text, "first");
    assert_eq!(entries[1].text, "second");
    assert_eq!(entries[2].text, "third");
    assert_eq!(entries[0].timestamp_ms, 500);
    assert_eq!(entries[1].timestamp_ms, 500);
    assert_eq!(entries[2].timestamp_ms, 800);
    assert!(entries.windows(2).all(|w| w[0].timestamp_ms <= w[1].timestamp_ms));
}

#[test]
fn close_never_ends_before_the_start() {
    let mut s = LiveSession::new(1, 2, 5000);
    s.close(100);
    assert_eq!(s.end_ts_ms, Some(5000));
}
