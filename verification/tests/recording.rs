use disrecord::receiver::{needs_announcement, opus_payload, ENCRYPTION_TRAILER_LEN};
use disrecord::recording::{RecordingSummary, Timestamp};

fn summary(started: (i64, u32), ended: (i64, u32)) -> RecordingSummary {
    RecordingSummary {
        started: Timestamp { secs: started.0, nanos: started.1 },
        ended: Timestamp { secs: ended.0, nanos: ended.1 },
        known_users: vec![],
        failed_users: vec![],
        archive_name: "a.zip".to_string(),
    }
}

#[test]
fn a_sender_is_announced_once() {
    assert!(needs_announcement(None, 7));
    assert!(!needs_announcement(Some(7), 7));
    assert!(needs_announcement(Some(8), 7));
}

#[test]
fn the_opus_packet_is_the_payload_without_its_trailer() {
    assert_eq!(ENCRYPTION_TRAILER_LEN, 20);
    let mut payload = vec![0xF8, 0xFF, 0xFE];
    payload.extend_from_slice(&[9u8; 20]);
    assert_eq!(opus_payload(&payload), vec![0xF8, 0xFF, 0xFE]);
    assert_eq!(opus_payload(&[1u8; 20]), Vec::<u8>::new());
    assert_eq!(opus_payload(&[1u8; 21]), vec![1]);
}

#[test]
fn elapsed_whole_seconds() {
    assert_eq!(summary((100, 0), (100, 0)).elapsed(), 0);
    assert_eq!(summary((100, 0), (160, 0)).elapsed(), 60);
    assert_eq!(summary((100, 5), (160, 4)).elapsed(), 59);
    assert_eq!(summary((100, 5), (160, 5)).elapsed(), 60);
    assert_eq!(summary((100, 0), (99, 0)).elapsed(), -1);
    assert_eq!(summary((100, 5), (100, 4)).elapsed(), 0);
    assert_eq!(summary((100, 5), (99, 6)).elapsed(), 0);
    assert_eq!(summary((100, 5), (99, 5)).elapsed(), -1);
    assert_eq!(summary((100, 5), (98, 4)).elapsed(), -2);
    assert_eq!(summary((-10, 0), (10, 0)).elapsed(), 20);
    assert_eq!(summary((i64::MIN, 0), (i64::MAX, 0)).elapsed(), u64::MAX as i128);
    assert_eq!(summary((i64::MAX, 0), (i64::MIN, 0)).elapsed(), -(u64::MAX as i128));
    assert_eq!(
        summary((i64::MIN, 0), (i64::MAX, u32::MAX)).elapsed(),
        u64::MAX as i128 + 4
    );
}

#[test]
fn duration_as_hours_minutes_and_seconds() {
    assert_eq!(summary((0, 0), (0, 0)).duration_text(), "0h 00m 00s");
    assert_eq!(summary((0, 0), (3_723, 0)).duration_text(), "1h 02m 03s");
    assert_eq!(summary((0, 0), (59, 0)).duration_text(), "0h 00m 59s");
    assert_eq!(summary((0, 0), (3_599, 0)).duration_text(), "0h 59m 59s");
    assert_eq!(summary((0, 0), (360_000 + 600 + 10, 0)).duration_text(), "100h 10m 10s");
}

#[test]
fn duration_of_a_negative_span() {
    assert_eq!(summary((10, 0), (0, 0)).duration_text(), "0h 00m -10s");
    assert_eq!(summary((3_723, 0), (0, 0)).duration_text(), "-1h -2m -3s");
    assert_eq!(summary((90, 0), (0, 0)).duration_text(), "0h -1m -30s");
    assert_eq!(summary((36_000, 0), (0, 0)).duration_text(), "-10h 00m 00s");
    assert_eq!(summary((0, 1), (0, 0)).duration_text(), "0h 00m 00s");
}
