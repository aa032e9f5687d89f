use disrecord::error::ErrorKind;
use disrecord::recording::{RecorderConfig, Timestamp};
use disrecord::writer::call_writer::TickReport;
use disrecord::writer::dispatcher::Writer;
use disrecord::writer::updates::{OpusUpdate, UserUpdate, VoiceUpdate, VoiceUpdateType};

fn new_writer() -> Writer {
    Writer::new(RecorderConfig {
        base_dir: "recordings".to_string(),
        subdir_fmt: "%Y_%m_%d_%H_%M_%S".to_string(),
    })
}

fn announce(guild: u64, user: u64) -> VoiceUpdate {
    VoiceUpdate { guild, update: VoiceUpdateType::User(UserUpdate { user, username: None }) }
}

fn tick(guild: u64, speakers: &[u64]) -> VoiceUpdate {
    let packets = speakers
        .iter()
        .map(|user| OpusUpdate { user: *user, opus_data: vec![0xF8, 0xFF, 0xFE] })
        .collect();
    VoiceUpdate { guild, update: VoiceUpdateType::Opus(packets) }
}

fn last_granule(bytes: &[u8]) -> u64 {
    let mut at = 0;
    let mut granule = 0;
    while at < bytes.len() {
        granule = u64::from_le_bytes(bytes[at + 6..at + 14].try_into().unwrap());
        let count = bytes[at + 26] as usize;
        let size: usize = bytes[at + 27..at + 27 + count].iter().map(|v| *v as usize).sum();
        at += 27 + count + size;
    }
    granule
}

#[test]
fn a_recording_is_named_by_its_start() {
    let mut writer = new_writer();
    assert_eq!(writer.config().base_dir, "recordings");
    assert!(!writer.has_call(42));
    assert_eq!(writer.start_at(42, Timestamp { secs: 1_700_000_000, nanos: 5 }), Ok(()));
    assert!(writer.has_call(42));
    assert_eq!(
        writer.output_dir(42),
        Some(vec!["recordings".to_string(), "42".to_string(), "2023_11_14_22_13_20".to_string()])
    );
    assert_eq!(writer.output_dir(43), None);
    let (summary, call) = writer.finish_at(42, Timestamp { secs: 1_700_000_060, nanos: 6 }).unwrap();
    assert!(!writer.has_call(42));
    assert_eq!(call.metadata().guild_id, 42);
    assert_eq!(call.metadata().output_dir_name, "2023_11_14_22_13_20");
    assert_eq!(call.metadata().base_dir, "recordings");
    assert_eq!(
        call.metadata().output_dir(),
        vec!["recordings".to_string(), "42".to_string(), "2023_11_14_22_13_20".to_string()]
    );
    assert_eq!(summary.started, Timestamp { secs: 1_700_000_000, nanos: 5 });
    assert_eq!(summary.ended, Timestamp { secs: 1_700_000_060, nanos: 6 });
    assert_eq!(summary.archive_name, "2023_11_14_22_13_20.zip");
    assert!(summary.known_users.is_empty());
}

#[test]
fn the_epoch_is_written_as_1970() {
    let mut writer = new_writer();
    assert_eq!(writer.start_at(1, Timestamp { secs: 0, nanos: 0 }), Ok(()));
    let (_, call) = writer.finish_at(1, Timestamp { secs: 1, nanos: 0 }).unwrap();
    assert_eq!(call.metadata().output_dir_name, "1970_01_01_00_00_00");
}

#[test]
fn no_recording_begins_without_a_name() {
    let mut writer = Writer::new(RecorderConfig {
        base_dir: "recordings".to_string(),
        subdir_fmt: "%Y_%Q".to_string(),
    });
    assert_eq!(
        writer.start_at(42, Timestamp { secs: 1_700_000_000, nanos: 0 }),
        Err(ErrorKind::IoOpen)
    );
    assert!(!writer.has_call(42));
    assert_eq!(writer.start(42), Err(ErrorKind::IoOpen));

    let mut writer = new_writer();
    assert_eq!(
        writer.start_at(42, Timestamp { secs: i64::MAX, nanos: 0 }),
        Err(ErrorKind::IoOpen)
    );
    assert!(!writer.has_call(42));
}

#[test]
fn a_recording_begins_at_the_time_of_the_clock() {
    let mut writer = new_writer();
    let started = writer.start(42).unwrap();
    assert!(started.secs > 1_700_000_000);
    let (summary, call) = writer.finish(42).unwrap();
    assert_eq!(summary.started, started);
    assert!(summary.ended.secs >= started.secs);
    assert_eq!(call.metadata().started, started);
    assert_eq!(call.metadata().output_dir_name.len(), 19);
}

#[test]
fn a_report_for_an_unknown_call_is_dropped() {
    let mut writer = new_writer();
    writer.start_at(42, Timestamp { secs: 0, nanos: 0 }).unwrap();
    assert_eq!(writer.dispatch(announce(43, 7)), Err(ErrorKind::UnknownCall));
    assert_eq!(writer.dispatch(tick(43, &[7])), Err(ErrorKind::UnknownCall));
    assert!(writer.take_output(43, 7).is_none());
    assert!(writer.users(43).is_empty());
    assert!(writer.finish_at(43, Timestamp { secs: 0, nanos: 0 }).is_none());
    writer.mark_failed(43, 7);
    writer.forget(43, 7);
    assert!(writer.has_call(42));
    assert!(writer.users(42).is_empty());
}

#[test]
fn reports_go_to_their_calls() {
    let mut writer = new_writer();
    writer.start_at(1, Timestamp { secs: 0, nanos: 0 }).unwrap();
    writer.start_at(2, Timestamp { secs: 10, nanos: 0 }).unwrap();
    assert_eq!(writer.dispatch(announce(1, 7)), Ok(TickReport::new()));
    assert_eq!(writer.dispatch(announce(2, 8)), Ok(TickReport::new()));
    assert_eq!(writer.users(1), vec![7]);
    assert_eq!(writer.users(2), vec![8]);
    for _ in 0..3 {
        let report = writer.dispatch(tick(1, &[7, 8])).unwrap();
        assert_eq!(report.unknown_users, vec![8]);
        assert!(report.discontinuous_speakers.is_empty());
        assert!(report.discontinuous_silent.is_empty());
    }
    assert_eq!(writer.dispatch(tick(2, &[])), Ok(TickReport::new()));
    let report = writer.dispatch(tick(2, &[8, 8])).unwrap();
    assert_eq!(report.discontinuous_speakers, vec![8]);
    let out = writer.take_output(1, 7).unwrap();
    assert_eq!(out.user, 7);
    assert_eq!(out.file_name, "7.opus");
    assert!(!out.bytes.is_empty());
    assert!(writer.take_output(1, 7).unwrap().bytes.is_empty());
    assert!(writer.take_output(1, 8).is_none());

    let (summary, mut call) = writer.finish_at(1, Timestamp { secs: 5, nanos: 0 }).unwrap();
    assert_eq!(summary.known_users, vec![7]);
    assert_eq!(call.tick_count(), 3);
    assert_eq!(last_granule(&call.take_output(7).unwrap().bytes), 2_880);
    assert_eq!(writer.dispatch(tick(1, &[7])), Err(ErrorKind::UnknownCall));

    let (summary, mut call) = writer.finish_at(2, Timestamp { secs: 15, nanos: 0 }).unwrap();
    assert_eq!(summary.known_users, vec![8]);
    assert_eq!(call.tick_count(), 2);
    assert_eq!(last_granule(&call.take_output(8).unwrap().bytes), 2_880);
}

#[test]
fn a_new_recording_replaces_the_one_under_way() {
    let mut writer = new_writer();
    writer.start_at(1, Timestamp { secs: 0, nanos: 0 }).unwrap();
    writer.dispatch(announce(1, 7)).unwrap();
    writer.start_at(1, Timestamp { secs: 60, nanos: 0 }).unwrap();
    assert!(writer.users(1).is_empty());
    let (summary, call) = writer.finish_at(1, Timestamp { secs: 61, nanos: 0 }).unwrap();
    assert_eq!(summary.started, Timestamp { secs: 60, nanos: 0 });
    assert_eq!(call.metadata().output_dir_name, "1970_01_01_00_01_00");
}

#[test]
fn failures_of_one_stream_stay_with_it() {
    let mut writer = new_writer();
    writer.start_at(1, Timestamp { secs: 0, nanos: 0 }).unwrap();
    writer.dispatch(announce(1, 7)).unwrap();
    writer.dispatch(announce(1, 8)).unwrap();
    writer.dispatch(announce(1, 9)).unwrap();
    writer.stream_failed(1, 9, ErrorKind::IoOpen);
    writer.take_output(1, 8);
    writer.stream_failed(1, 8, ErrorKind::IoWrite);
    writer.stream_failed(1, 7, ErrorKind::UnknownCall);
    writer.stream_failed(2, 7, ErrorKind::IoOpen);
    assert_eq!(writer.dispatch(tick(1, &[7, 8, 9])).unwrap().unknown_users, vec![9]);
    let mut users = writer.users(1);
    users.sort();
    assert_eq!(users, vec![7, 8]);
    let (_, mut call) = writer.finish_at(1, Timestamp { secs: 1, nanos: 0 }).unwrap();
    assert!(call.take_output(8).unwrap().bytes.is_empty());
    assert_eq!(last_granule(&call.take_output(7).unwrap().bytes), 960);
}
