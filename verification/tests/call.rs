use disrecord::error::ErrorKind;
use disrecord::muxer::crc::vorbis_crc32;
use disrecord::recording::{RecordingMetadata, Timestamp};
use disrecord::writer::call_writer::{CallWriter, TickReport};
use disrecord::writer::updates::{OpusUpdate, UserUpdate, VoiceUpdateType};

struct Page {
    flags: u8,
    granule: u64,
    serial: u32,
    sequence: u32,
    lacings: Vec<u8>,
    payload: Vec<u8>,
}

fn parse_pages(bytes: &[u8]) -> Vec<Page> {
    let mut pages = Vec::new();
    let mut at = 0;
    while at < bytes.len() {
        assert_eq!(&bytes[at..at + 4], b"OggS");
        assert_eq!(bytes[at + 4], 0);
        let flags = bytes[at + 5];
        let granule = u64::from_le_bytes(bytes[at + 6..at + 14].try_into().unwrap());
        let serial = u32::from_le_bytes(bytes[at + 14..at + 18].try_into().unwrap());
        let sequence = u32::from_le_bytes(bytes[at + 18..at + 22].try_into().unwrap());
        let checksum = u32::from_le_bytes(bytes[at + 22..at + 26].try_into().unwrap());
        let count = bytes[at + 26] as usize;
        let lacings = bytes[at + 27..at + 27 + count].to_vec();
        let size: usize = lacings.iter().map(|value| *value as usize).sum();
        let end = at + 27 + count + size;
        let payload = bytes[at + 27 + count..end].to_vec();
        let mut zeroed = bytes[at..end].to_vec();
        zeroed[22..26].copy_from_slice(&[0, 0, 0, 0]);
        assert_eq!(checksum, vorbis_crc32(&zeroed));
        pages.push(Page { flags, granule, serial, sequence, lacings, payload });
        at = end;
    }
    pages
}

const A: u64 = 1001;
const B: u64 = 1002;
const C: u64 = 1003;

fn new_call() -> CallWriter {
    CallWriter::new(RecordingMetadata {
        guild_id: 5,
        base_dir: "recordings".to_string(),
        output_dir_name: "2023_11_14_22_13_20".to_string(),
        started: Timestamp { secs: 1_700_000_000, nanos: 12 },
    })
}

fn announce(call: &mut CallWriter, user: u64, name: Option<&str>) {
    let update = UserUpdate { user, username: name.map(|name| name.to_string()) };
    assert_eq!(call.push(VoiceUpdateType::User(update)), TickReport::new());
}

fn frame(user: u64) -> OpusUpdate {
    OpusUpdate { user, opus_data: vec![0xF8, 1, 2, 3, 4, 5, 6, 7] }
}

fn report(call: &mut CallWriter, speakers: &[u64]) -> TickReport {
    call.push(VoiceUpdateType::Opus(speakers.iter().map(|user| frame(*user)).collect()))
}

fn tick(call: &mut CallWriter, speakers: &[u64]) -> Vec<u64> {
    report(call, speakers).unknown_users
}

fn output(call: &mut CallWriter, user: u64) -> Vec<u8> {
    call.take_output(user).unwrap().bytes
}

#[test]
fn a_new_call_knows_nobody() {
    let mut call = new_call();
    assert_eq!(call.tick_count(), 0);
    assert!(call.users().is_empty());
    assert!(!call.has_stream(A));
    assert!(call.take_output(A).is_none());
    assert_eq!(call.metadata().guild_id, 5);
    assert_eq!(
        call.metadata().output_dir(),
        vec!["recordings".to_string(), "5".to_string(), "2023_11_14_22_13_20".to_string()]
    );
    assert_eq!(call.metadata().archive_name(), "2023_11_14_22_13_20.zip");
}

#[test]
fn an_announced_user_gets_a_started_stream() {
    let mut call = new_call();
    announce(&mut call, A, Some("alice"));
    announce(&mut call, B, None);
    assert!(call.has_stream(A));
    assert!(call.has_stream(B));
    assert!(!call.has_stream(C));
    let mut users = call.users();
    users.sort();
    assert_eq!(users, vec![A, B]);

    let out = call.take_output(A).unwrap();
    assert_eq!(out.user, A);
    assert_eq!(out.file_name, "alice.opus");
    let pages = parse_pages(&out.bytes);
    assert_eq!(pages.len(), 2);
    assert_eq!(pages[0].flags, 0x02);
    assert_eq!(pages[0].sequence, 0);
    assert_eq!(pages[0].granule, 0);
    assert_eq!(&pages[0].payload[..8], b"OpusHead");
    assert_eq!(pages[1].flags, 0);
    assert_eq!(pages[1].sequence, 1);
    assert_eq!(pages[1].granule, 0);
    assert_eq!(&pages[1].payload[..8], b"OpusTags");
    assert_eq!(pages[0].serial, pages[1].serial);

    let out = call.take_output(B).unwrap();
    assert_eq!(out.file_name, "1002.opus");
    assert_eq!(parse_pages(&out.bytes).len(), 2);
}

#[test]
fn a_known_user_keeps_its_stream() {
    let mut call = new_call();
    call.announce_with_serial(A, None, 11);
    tick(&mut call, &[A]);
    output(&mut call, A);
    call.announce_with_serial(A, Some("other".to_string()), 12);
    announce(&mut call, A, Some("other"));
    let out = call.take_output(A).unwrap();
    assert!(out.bytes.is_empty());
    assert_eq!(out.file_name, "1001.opus");
    call.finish_at(Timestamp { secs: 1_700_000_100, nanos: 0 });
    let pages = parse_pages(&output(&mut call, A));
    assert_eq!(pages.len(), 1);
    assert_eq!(pages[0].serial, 11);
    assert_eq!(pages[0].sequence, 2);
    assert_eq!(pages[0].granule, 960);
}

#[test]
fn announce_draws_a_serial() {
    let mut call = new_call();
    let serial = call.announce(A, None);
    let pages = parse_pages(&output(&mut call, A));
    assert_eq!(pages[0].serial, serial);
}

#[test]
fn a_tick_counts_once_for_the_call() {
    let mut call = new_call();
    announce(&mut call, A, None);
    announce(&mut call, B, None);
    assert!(tick(&mut call, &[A, B]).is_empty());
    assert_eq!(call.tick_count(), 1);
    assert!(tick(&mut call, &[]).is_empty());
    assert_eq!(call.tick_count(), 2);
}

#[test]
fn a_packet_of_an_unknown_user_is_dropped() {
    let mut call = new_call();
    announce(&mut call, A, None);
    assert_eq!(tick(&mut call, &[C, A, B, C]), vec![C, B, C]);
    assert!(!call.has_stream(B));
    assert!(!call.has_stream(C));
    assert_eq!(call.tick_count(), 1);
    call.finish_at(Timestamp { secs: 0, nanos: 0 });
    let pages = parse_pages(&output(&mut call, A));
    assert_eq!(pages.last().unwrap().granule, 960);
}

#[test]
fn late_joiner_padding() {
    let mut call = new_call();
    announce(&mut call, A, None);
    for _ in 0..100 {
        tick(&mut call, &[A]);
    }
    announce(&mut call, B, None);
    let pages = parse_pages(&output(&mut call, B));
    assert_eq!(pages.len(), 3);
    assert_eq!(pages[0].sequence, 0);
    assert_eq!(pages[0].granule, 0);
    assert_eq!(pages[0].flags, 0x02);
    assert_eq!(pages[1].sequence, 1);
    assert_eq!(pages[1].granule, 0);
    assert_eq!(pages[2].sequence, 2);
    assert_eq!(pages[2].granule, 96_000);
    assert_eq!(pages[2].lacings, vec![3u8; 100]);
    assert_eq!(pages[2].payload, [0xF8u8, 0xFF, 0xFE].repeat(100));

    tick(&mut call, &[A, B]);
    call.finish_at(Timestamp { secs: 0, nanos: 0 });
    let pages = parse_pages(&output(&mut call, B));
    assert_eq!(pages.len(), 1);
    assert_eq!(pages[0].sequence, 3);
    assert_eq!(pages[0].granule, 96_960);
    assert_eq!(pages[0].payload, vec![0xF8, 1, 2, 3, 4, 5, 6, 7]);
    let pages = parse_pages(&output(&mut call, A));
    assert_eq!(pages.last().unwrap().granule, 96_960);
}

#[test]
fn end_to_end_two_user_call() {
    let mut call = new_call();
    announce(&mut call, A, None);
    announce(&mut call, B, None);
    let mut file_a = output(&mut call, A);
    let mut file_b = output(&mut call, B);
    for _ in 0..50 {
        tick(&mut call, &[A]);
        file_a.extend(output(&mut call, A));
        file_b.extend(output(&mut call, B));
    }
    let summary = call.finish_at(Timestamp { secs: 1_700_000_001, nanos: 0 });
    file_a.extend(output(&mut call, A));
    file_b.extend(output(&mut call, B));

    let pages_a = parse_pages(&file_a);
    let pages_b = parse_pages(&file_b);
    assert_eq!(pages_a.last().unwrap().granule, 48_000);
    assert_eq!(pages_b.last().unwrap().granule, 48_000);
    assert_eq!(pages_a.last().unwrap().flags, 0x04);
    assert_eq!(pages_b.last().unwrap().flags, 0x04);
    assert_eq!(pages_a.len(), 3);
    assert_eq!(pages_b.len(), 3);
    assert_eq!(pages_a[2].lacings, vec![8u8; 50]);
    assert_eq!(pages_b[2].lacings, vec![3u8; 50]);
    assert_eq!(pages_b[2].payload, [0xF8u8, 0xFF, 0xFE].repeat(50));
    for pages in [&pages_a, &pages_b] {
        for (at, page) in pages.iter().enumerate() {
            assert_eq!(page.sequence, at as u32);
            assert_eq!(page.flags & 0x02 != 0, at == 0);
            assert_eq!(page.flags & 0x04 != 0, at == 2);
        }
    }

    assert_eq!(summary.started, Timestamp { secs: 1_700_000_000, nanos: 12 });
    assert_eq!(summary.ended, Timestamp { secs: 1_700_000_001, nanos: 0 });
    assert_eq!(summary.archive_name, "2023_11_14_22_13_20.zip");
    assert!(summary.failed_users.is_empty());
    let mut known = summary.known_users;
    known.sort();
    assert_eq!(known, vec![A, B]);
}

#[test]
fn streams_keep_time_with_each_other() {
    let mut call = new_call();
    announce(&mut call, A, None);
    let mut files: Vec<(u64, Vec<u8>)> = vec![(A, Vec::new()), (B, Vec::new()), (C, Vec::new())];
    for round in 0..700u64 {
        if round == 120 {
            announce(&mut call, B, None);
        }
        if round == 400 {
            announce(&mut call, C, None);
        }
        let speakers: Vec<u64> =
            [A, B, C].into_iter().filter(|user| (round + user) % 3 == 0).collect();
        tick(&mut call, &speakers);
        for (user, file) in files.iter_mut() {
            if let Some(out) = call.take_output(*user) {
                file.extend(out.bytes);
            }
        }
    }
    call.finish_at(Timestamp { secs: 0, nanos: 0 });
    for (user, file) in files.iter_mut() {
        file.extend(call.take_output(*user).unwrap().bytes);
        let pages = parse_pages(file);
        assert_eq!(pages.last().unwrap().granule, 700 * 960);
        assert_eq!(pages.last().unwrap().flags, 0x04);
    }
}

#[test]
fn two_packets_of_one_user_on_one_tick_are_both_taken() {
    let mut call = new_call();
    call.announce_with_serial(A, None, 1);
    call.announce_with_serial(B, None, 2);
    assert!(tick(&mut call, &[A, A]).is_empty());
    call.finish_at(Timestamp { secs: 0, nanos: 0 });
    let pages = parse_pages(&output(&mut call, A));
    assert_eq!(pages.last().unwrap().granule, 1_920);
    assert_eq!(pages.last().unwrap().lacings, vec![8, 8]);
    let pages = parse_pages(&output(&mut call, B));
    assert_eq!(pages.last().unwrap().granule, 960);
}

#[test]
fn a_longer_frame_moves_one_stream_ahead() {
    // 0x18 is a frame of 60 ms: the stream of A gets 2,880 samples on the
    // tick on which the stream of B gets 960.
    let mut call = new_call();
    call.announce_with_serial(A, None, 1);
    call.announce_with_serial(B, None, 2);
    call.push(VoiceUpdateType::Opus(vec![OpusUpdate { user: A, opus_data: vec![0x18, 0] }]));
    call.finish_at(Timestamp { secs: 0, nanos: 0 });
    assert_eq!(parse_pages(&output(&mut call, A)).last().unwrap().granule, 2_880);
    assert_eq!(parse_pages(&output(&mut call, B)).last().unwrap().granule, 960);
}

#[test]
fn a_forgotten_user_is_unknown_again() {
    let mut call = new_call();
    announce(&mut call, A, None);
    announce(&mut call, B, None);
    call.forget(B);
    assert!(!call.has_stream(B));
    assert_eq!(call.users(), vec![A]);
    assert!(call.take_output(B).is_none());
    assert_eq!(tick(&mut call, &[B, A]), vec![B]);
    call.forget(C);
    assert_eq!(call.users(), vec![A]);
    let summary = call.finish_at(Timestamp { secs: 0, nanos: 0 });
    assert_eq!(summary.known_users, vec![A]);
}

#[test]
fn a_failed_stream_drops_its_packets() {
    let mut call = new_call();
    announce(&mut call, A, None);
    announce(&mut call, B, None);
    tick(&mut call, &[A, B]);
    output(&mut call, B);
    call.mark_failed(B);
    call.mark_failed(C);
    assert!(call.has_stream(B));
    assert!(tick(&mut call, &[A, B]).is_empty());
    let summary = call.finish_at(Timestamp { secs: 0, nanos: 0 });
    assert!(output(&mut call, B).is_empty());
    assert_eq!(parse_pages(&output(&mut call, A)).last().unwrap().granule, 1_920);
    assert_eq!(summary.failed_users, vec![B]);
    let mut known = summary.known_users;
    known.sort();
    assert_eq!(known, vec![A, B]);
}

#[test]
fn finish_takes_the_time_of_the_clock() {
    let mut call = new_call();
    announce(&mut call, A, None);
    let summary = call.finish();
    assert!(summary.ended.secs > 1_700_000_000);
    assert!(summary.ended.nanos < 2_000_000_000);
    assert_eq!(summary.started.secs, 1_700_000_000);
    assert_eq!(parse_pages(&output(&mut call, A)).last().unwrap().flags, 0x04);
}

#[test]
fn packets_that_can_be_taken() {
    let packet = |opus_data: Vec<u8>| OpusUpdate { user: A, opus_data };
    assert!(VoiceUpdateType::User(UserUpdate { user: A, username: None }).is_valid());
    assert!(VoiceUpdateType::Opus(vec![]).is_valid());
    assert!(VoiceUpdateType::Opus(vec![packet(vec![0xF8]), packet(vec![0; 65_024])]).is_valid());
    assert!(!VoiceUpdateType::Opus(vec![packet(vec![0xF8]), packet(vec![])]).is_valid());
    assert!(!VoiceUpdateType::Opus(vec![packet(vec![0; 65_025])]).is_valid());
}

#[test]
fn a_failure_is_dealt_with_by_its_kind() {
    let mut call = new_call();
    announce(&mut call, A, None);
    announce(&mut call, B, None);
    announce(&mut call, C, None);
    call.stream_failed(A, ErrorKind::IoOpen);
    call.stream_failed(B, ErrorKind::IoWrite);
    call.stream_failed(C, ErrorKind::ArchiveFailed);
    call.stream_failed(C, ErrorKind::DiscontinuousTick);
    assert!(!call.has_stream(A));
    assert!(call.has_stream(B));
    assert!(call.has_stream(C));
    output(&mut call, B);
    assert_eq!(tick(&mut call, &[A, B, C]), vec![A]);
    let summary = call.finish_at(Timestamp { secs: 0, nanos: 0 });
    assert_eq!(summary.failed_users, vec![B]);
    assert!(output(&mut call, B).is_empty());
    assert_eq!(parse_pages(&output(&mut call, C)).last().unwrap().granule, 960);
}

#[test]
fn ticks_in_turn_give_nothing_to_report() {
    let mut call = new_call();
    announce(&mut call, A, None);
    announce(&mut call, B, None);
    for _ in 0..10 {
        assert_eq!(report(&mut call, &[A]), TickReport::new());
        assert_eq!(report(&mut call, &[B, A]), TickReport::new());
        assert_eq!(report(&mut call, &[]), TickReport::new());
    }
}

#[test]
fn the_first_tick_of_a_late_joiner_is_out_of_turn() {
    let mut call = new_call();
    announce(&mut call, A, None);
    for _ in 0..100 {
        report(&mut call, &[A]);
    }
    announce(&mut call, B, None);
    announce(&mut call, C, None);
    let first = report(&mut call, &[C, A]);
    assert!(first.unknown_users.is_empty());
    assert_eq!(first.discontinuous_speakers, vec![C]);
    assert_eq!(first.discontinuous_silent, vec![B]);
    assert_eq!(report(&mut call, &[A]), TickReport::new());
}

#[test]
fn a_second_packet_on_one_tick_is_out_of_turn() {
    let mut call = new_call();
    announce(&mut call, A, None);
    announce(&mut call, B, None);
    let both = report(&mut call, &[A, C, A, B, A]);
    assert_eq!(both.unknown_users, vec![C]);
    assert_eq!(both.discontinuous_speakers, vec![A, A]);
    assert!(both.discontinuous_silent.is_empty());
}

#[test]
fn a_stream_that_takes_nothing_is_not_out_of_turn() {
    let mut call = new_call();
    announce(&mut call, A, None);
    announce(&mut call, B, None);
    for _ in 0..5 {
        report(&mut call, &[A]);
    }
    announce(&mut call, C, None);
    call.mark_failed(C);
    assert_eq!(report(&mut call, &[A]), TickReport::new());
    assert_eq!(report(&mut call, &[A, C]), TickReport::new());
}
