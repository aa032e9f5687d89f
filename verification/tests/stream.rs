use disrecord::error::ErrorKind;
use disrecord::muxer::crc::vorbis_crc32;
use disrecord::writer::names::{archive_name, decimal_string, stream_file_name};
use disrecord::writer::stream_model::StreamPhase;
use disrecord::writer::stream_writer::{PacketBuffer, StreamWriter};

const SILENCE: [u8; 3] = [0xF8, 0xFF, 0xFE];

struct Page {
    flags: u8,
    granule: u64,
    serial: u32,
    sequence: u32,
    lacings: Vec<u8>,
    payload: Vec<u8>,
}

fn parse_pages(bytes: &[u8]) -> Vec<Page> {
    let mut pages = Vec::new();
    let mut at = 0;
    while at < bytes.len() {
        assert_eq!(&bytes[at..at + 4], b"OggS");
        assert_eq!(bytes[at + 4], 0);
        let flags = bytes[at + 5];
        let granule = u64::from_le_bytes(bytes[at + 6..at + 14].try_into().unwrap());
        let serial = u32::from_le_bytes(bytes[at + 14..at + 18].try_into().unwrap());
        let sequence = u32::from_le_bytes(bytes[at + 18..at + 22].try_into().unwrap());
        let checksum = u32::from_le_bytes(bytes[at + 22..at + 26].try_into().unwrap());
        let count = bytes[at + 26] as usize;
        let lacings = bytes[at + 27..at + 27 + count].to_vec();
        let size: usize = lacings.iter().map(|value| *value as usize).sum();
        let end = at + 27 + count + size;
        let payload = bytes[at + 27 + count..end].to_vec();
        let mut zeroed = bytes[at..end].to_vec();
        zeroed[22..26].copy_from_slice(&[0, 0, 0, 0]);
        assert_eq!(checksum, vorbis_crc32(&zeroed));
        pages.push(Page { flags, granule, serial, sequence, lacings, payload });
        at = end;
    }
    pages
}

fn hex(text: &str) -> Vec<u8> {
    (0..text.len() / 2).map(|i| u8::from_str_radix(&text[2 * i..2 * i + 2], 16).unwrap()).collect()
}

#[test]
fn stream_begins_with_the_two_header_pages() {
    let mut stream = StreamWriter::with_serial(1, 42, None, 7);
    assert_eq!(stream.phase(), StreamPhase::Started);
    assert_eq!(stream.sequence(), 2);
    assert_eq!(stream.granule(), 0);
    assert_eq!(stream.tick_count(), 0);
    assert_eq!(stream.serial(), 7);
    assert_eq!(stream.guild_id(), 1);
    assert_eq!(stream.user_id(), 42);
    assert_eq!(stream.file_name(), "42.opus");
    let bytes = stream.take_output();
    let mut expected = hex(
        "4f676753000200000000000000000700000000000000f8d3410501134f707573486561640102000f80bb0000000000",
    );
    expected.extend(hex(
        "4f6767530000000000000000000007000000010000009a8e523701194f70757354616773090000006469737265636f726400000000",
    ));
    assert_eq!(bytes, expected);
    assert!(stream.take_output().is_empty());
}

#[test]
fn start_changes_nothing_on_a_started_stream() {
    let mut stream = StreamWriter::with_serial(1, 42, None, 7);
    stream.take_output();
    stream.start();
    assert_eq!(stream.sequence(), 2);
    assert_eq!(stream.phase(), StreamPhase::Started);
    assert!(stream.take_output().is_empty());
}

#[test]
fn stream_file_is_named_by_the_user() {
    let stream = StreamWriter::with_serial(1, 42, Some("alice".to_string()), 7);
    assert_eq!(stream.file_name(), "alice.opus");
    assert_eq!(stream_file_name(42, Some("bob".to_string())), "bob.opus");
    assert_eq!(stream_file_name(42, None), "42.opus");
    assert_eq!(stream_file_name(0, None), "0.opus");
    assert_eq!(archive_name("2023_11_14_22_13_20"), "2023_11_14_22_13_20.zip");
}

#[test]
fn decimal_of_numbers() {
    assert_eq!(decimal_string(0), "0");
    assert_eq!(decimal_string(7), "7");
    assert_eq!(decimal_string(10), "10");
    assert_eq!(decimal_string(109), "109");
    assert_eq!(decimal_string(1_234_567_890), "1234567890");
    assert_eq!(decimal_string(u64::MAX), "18446744073709551615");
}

#[test]
fn a_new_stream_is_started() {
    let mut stream = StreamWriter::new(3, 4, None);
    assert_eq!(stream.phase(), StreamPhase::Started);
    assert_eq!(stream.sequence(), 2);
    let serial = stream.serial();
    let pages = parse_pages(&stream.take_output());
    assert_eq!(pages.len(), 2);
    assert_eq!(pages[0].serial, serial);
    assert_eq!(pages[1].serial, serial);
}

#[test]
fn packets_wait_for_the_next_page() {
    let mut stream = StreamWriter::with_serial(1, 42, None, 7);
    stream.take_output();
    assert_eq!(stream.push(&SILENCE, 1), None);
    assert_eq!(stream.phase(), StreamPhase::Running);
    assert_eq!(stream.push_silence(2), None);
    assert_eq!(stream.push(&[0xF8, 1, 2, 3, 4], 3), None);
    assert_eq!(stream.tick_count(), 3);
    assert_eq!(stream.buffered_samples(), 2_880);
    assert_eq!(stream.granule(), 0);
    assert!(stream.take_output().is_empty());

    stream.finish();
    assert_eq!(stream.phase(), StreamPhase::Finished);
    assert_eq!(stream.granule(), 2_880);
    assert_eq!(stream.sequence(), 3);
    let pages = parse_pages(&stream.take_output());
    assert_eq!(pages.len(), 1);
    assert_eq!(pages[0].flags, 0x04);
    assert_eq!(pages[0].granule, 2_880);
    assert_eq!(pages[0].serial, 7);
    assert_eq!(pages[0].sequence, 2);
    assert_eq!(pages[0].lacings, vec![3, 3, 5]);
    assert_eq!(pages[0].payload, vec![0xF8, 0xFF, 0xFE, 0xF8, 0xFF, 0xFE, 0xF8, 1, 2, 3, 4]);
}

#[test]
fn a_finished_stream_takes_nothing() {
    let mut stream = StreamWriter::with_serial(1, 42, None, 7);
    stream.push_silence(1);
    stream.finish();
    stream.take_output();
    assert_eq!(stream.push_silence(2), None);
    stream.fill_silence(5);
    stream.dump(false);
    stream.finish();
    assert_eq!(stream.phase(), StreamPhase::Finished);
    assert_eq!(stream.sequence(), 3);
    assert_eq!(stream.granule(), 960);
    assert_eq!(stream.tick_count(), 1);
    assert!(stream.take_output().is_empty());
}

#[test]
fn a_failed_stream_takes_nothing() {
    let mut stream = StreamWriter::with_serial(1, 42, None, 7);
    stream.push_silence(1);
    stream.mark_failed();
    assert_eq!(stream.phase(), StreamPhase::Failed);
    stream.take_output();
    assert_eq!(stream.push_silence(5), None);
    stream.finish();
    assert_eq!(stream.phase(), StreamPhase::Failed);
    assert_eq!(stream.sequence(), 2);
    assert!(stream.take_output().is_empty());
}

#[test]
fn a_tick_out_of_turn_is_reported_and_taken() {
    let mut stream = StreamWriter::with_serial(1, 42, None, 7);
    assert_eq!(stream.push_silence(1), None);
    assert_eq!(stream.push_silence(3), Some(ErrorKind::DiscontinuousTick));
    assert_eq!(stream.tick_count(), 3);
    assert_eq!(stream.push_silence(3), Some(ErrorKind::DiscontinuousTick));
    assert_eq!(stream.push_silence(4), None);
    assert_eq!(stream.push_silence(0), Some(ErrorKind::DiscontinuousTick));
    assert_eq!(stream.buffered_samples(), 5 * 960);
}

#[test]
fn the_buffer_is_flushed_when_the_lacing_table_is_full() {
    // 0x80: a CELT frame of 2.5 ms, 120 samples at 48 kHz.
    let mut stream = StreamWriter::with_serial(1, 42, None, 7);
    stream.take_output();
    for tick in 1..=255u64 {
        stream.push(&[0x80, 0], tick);
    }
    assert!(stream.take_output().is_empty());
    assert_eq!(stream.sequence(), 2);
    stream.push(&[0x80, 0], 256);
    assert_eq!(stream.sequence(), 3);
    assert_eq!(stream.granule(), 255 * 120);
    assert_eq!(stream.buffered_samples(), 120);
    let pages = parse_pages(&stream.take_output());
    assert_eq!(pages.len(), 1);
    assert_eq!(pages[0].flags, 0);
    assert_eq!(pages[0].sequence, 2);
    assert_eq!(pages[0].granule, 255 * 120);
    assert_eq!(pages[0].lacings, vec![2u8; 255]);
    assert_eq!(pages[0].payload.len(), 255 * 2);
}

#[test]
fn a_page_of_silence_is_flushed_above_200_000_samples() {
    let mut stream = StreamWriter::with_serial(1, 42, None, 7);
    stream.take_output();
    for tick in 1..=209u64 {
        stream.push_silence(tick);
    }
    assert!(stream.take_output().is_empty());
    stream.push_silence(210);
    let pages = parse_pages(&stream.take_output());
    assert_eq!(pages.len(), 1);
    assert_eq!(pages[0].granule, 209 * 960);
    assert_eq!(pages[0].lacings, vec![3u8; 209]);
}

#[test]
fn the_buffer_is_flushed_when_a_packet_would_not_fit() {
    let mut stream = StreamWriter::with_serial(1, 42, None, 7);
    stream.take_output();
    for tick in 1..=253u64 {
        stream.push(&[0x80, 0], tick);
    }
    let mut long = vec![0u8; 600];
    long[0] = 0xF8;
    stream.push(&long, 254);
    let pages = parse_pages(&stream.take_output());
    assert_eq!(pages.len(), 1);
    assert_eq!(pages[0].lacings.len(), 253);
    assert_eq!(pages[0].granule, 253 * 120);
    stream.finish();
    let pages = parse_pages(&stream.take_output());
    assert_eq!(pages.len(), 1);
    assert_eq!(pages[0].lacings, vec![255, 255, 90]);
    assert_eq!(pages[0].payload, long);
    assert_eq!(pages[0].granule, 253 * 120 + 960);
    assert_eq!(pages[0].flags, 0x04);
}

#[test]
fn the_buffer_is_flushed_above_200_000_samples() {
    // 0x18: a SILK frame of 60 ms, 2,880 samples at 48 kHz.
    let mut stream = StreamWriter::with_serial(1, 42, None, 7);
    stream.take_output();
    for tick in 1..=70u64 {
        stream.push(&[0x18, 0], tick);
    }
    assert_eq!(stream.buffered_samples(), 201_600);
    assert!(stream.take_output().is_empty());
    stream.push(&[0x18, 0], 71);
    assert_eq!(stream.granule(), 201_600);
    assert_eq!(stream.buffered_samples(), 2_880);
    let pages = parse_pages(&stream.take_output());
    assert_eq!(pages.len(), 1);
    assert_eq!(pages[0].granule, 201_600);
    assert_eq!(pages[0].lacings, vec![2u8; 70]);
}

#[test]
fn the_longest_packet_fills_a_page() {
    let mut stream = StreamWriter::with_serial(1, 42, None, 7);
    stream.take_output();
    stream.push_silence(1);
    let mut long = vec![1u8; 65_024];
    long[0] = 0xF8;
    stream.push(&long, 2);
    let pages = parse_pages(&stream.take_output());
    assert_eq!(pages.len(), 1);
    assert_eq!(pages[0].lacings, vec![3]);
    stream.finish();
    let pages = parse_pages(&stream.take_output());
    assert_eq!(pages.len(), 1);
    assert_eq!(pages[0].lacings.len(), 255);
    assert_eq!(pages[0].lacings[254], 254);
    assert_eq!(pages[0].payload, long);
    assert_eq!(pages[0].granule, 1_920);
}

#[test]
fn silence_is_filled_in_whole_pages() {
    let mut stream = StreamWriter::with_serial(1, 42, None, 7);
    stream.take_output();
    stream.fill_silence(600);
    assert_eq!(stream.sequence(), 5);
    assert_eq!(stream.granule(), 576_000);
    assert_eq!(stream.tick_count(), 0);
    assert_eq!(stream.buffered_samples(), 0);
    assert_eq!(stream.phase(), StreamPhase::Started);
    let pages = parse_pages(&stream.take_output());
    assert_eq!(pages.len(), 3);
    let sizes = [255usize, 255, 90];
    let granules = [244_800u64, 489_600, 576_000];
    for at in 0..3 {
        assert_eq!(pages[at].flags, 0);
        assert_eq!(pages[at].sequence, 2 + at as u32);
        assert_eq!(pages[at].granule, granules[at]);
        assert_eq!(pages[at].lacings, vec![3u8; sizes[at]]);
        assert_eq!(pages[at].payload, SILENCE.repeat(sizes[at]));
    }
}

#[test]
fn no_silence_is_filled_for_no_ticks() {
    let mut stream = StreamWriter::with_serial(1, 42, None, 7);
    stream.take_output();
    stream.fill_silence(0);
    assert_eq!(stream.sequence(), 2);
    assert!(stream.take_output().is_empty());
}

#[test]
fn pages_of_a_file_are_numbered_and_flagged() {
    let mut stream = StreamWriter::with_serial(1, 42, None, 0xDEAD_BEEF);
    stream.fill_silence(300);
    let mut tick = 300u64;
    for _ in 0..600 {
        tick += 1;
        stream.push(&[0x18, 0, 0], tick);
    }
    stream.finish();
    let pages = parse_pages(&stream.take_output());
    assert!(pages.len() > 6);
    let mut granule = 0u64;
    for (at, page) in pages.iter().enumerate() {
        assert_eq!(page.sequence, at as u32);
        assert_eq!(page.serial, 0xDEAD_BEEF);
        assert_eq!(page.flags & 0x01, 0);
        assert_eq!(page.flags & 0x02 != 0, at == 0);
        assert_eq!(page.flags & 0x04 != 0, at == pages.len() - 1);
        let samples: u64 = if at < 2 {
            0
        } else {
            let mut samples = 0;
            let mut offset = 0;
            for value in &page.lacings {
                assert!(*value < 255);
                samples += if page.payload[offset] == 0xF8 { 960 } else { 2_880 };
                offset += *value as usize;
            }
            samples
        };
        assert_eq!(page.granule, granule + samples);
        granule = page.granule;
    }
    assert_eq!(granule, 300 * 960 + 600 * 2_880);
}

#[test]
fn packet_buffer_keeps_count() {
    let mut buffer = PacketBuffer::new();
    assert!(buffer.opus.is_empty());
    assert!(buffer.tocs.is_empty());
    assert_eq!(buffer.total_samples, 0);
    buffer.append(&SILENCE);
    buffer.append(&[0x18, 9]);
    assert_eq!(buffer.opus, vec![0xF8, 0xFF, 0xFE, 0x18, 9]);
    assert_eq!(buffer.tocs.len(), 2);
    assert_eq!(buffer.tocs[0].sample_count(), 960);
    assert_eq!(buffer.tocs[1].sample_count(), 2_880);
    assert_eq!(buffer.segments.lacings().as_slice(), &[3, 2]);
    assert_eq!(buffer.segments.total_size(), 5);
    assert_eq!(buffer.total_samples, 3_840);
    buffer.clear();
    assert!(buffer.opus.is_empty());
    assert!(buffer.tocs.is_empty());
    assert!(buffer.segments.lacings().is_empty());
    assert_eq!(buffer.total_samples, 0);
}
