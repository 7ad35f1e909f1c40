use std::io::{Cursor, Seek, SeekFrom, Write};

use valence::capture::reader::{read_header, CaptureReader};
use valence::capture::writer::{CaptureWriter, StreamOp};
use valence::capture::{
    side_to_u8, state_to_u8, u8_to_side, u8_to_state, CaptureError, CaptureHeader, CaptureRecord,
};
use valence::packet::{CompressionThreshold, PacketSide, PacketState};

fn perform(stream: &mut Cursor<Vec<u8>>, op: &StreamOp) {
    match op {
        StreamOp::Write(bytes) => stream.write_all(bytes).unwrap(),
        StreamOp::SeekStart(position) => {
            stream.seek(SeekFrom::Start(*position)).unwrap();
        }
    }
}

fn record(sequence: u64, side: PacketSide, raw_bytes: Vec<u8>) -> CaptureRecord {
    CaptureRecord {
        sequence,
        side,
        state: PacketState::Login,
        compression_threshold: CompressionThreshold(-1),
        packet_id: -2,
        raw_bytes,
    }
}

fn write_capture(
    started_ms: i64,
    records: &[CaptureRecord],
    threshold: CompressionThreshold,
    online_mode: bool,
) -> Vec<u8> {
    let mut stream = Cursor::new(vec![]);
    let (mut writer, op) = CaptureWriter::new(CaptureHeader::new(started_ms));
    perform(&mut stream, &op);
    for record in records {
        let op = writer.write_record(record).unwrap();
        perform(&mut stream, &op);
    }
    let end = stream.stream_position().unwrap();
    for op in writer.finish(end, threshold, online_mode) {
        perform(&mut stream, &op);
    }
    assert_eq!(stream.position(), end);
    stream.into_inner()
}

#[derive(Default)]
struct ReplaySummary {
    total_records: usize,
    replayed_records: usize,
    failed_records: usize,
}

fn replay_record(record: &CaptureRecord) -> Result<Vec<u8>, String> {
    let bytes = write_capture(
        0,
        std::slice::from_ref(record),
        record.compression_threshold,
        false,
    );
    let mut reader = CaptureReader::new(bytes).map_err(|e| e.message())?;
    match reader.read_record() {
        Ok(Some(again)) if again == *record => Ok(again.raw_bytes),
        Ok(_) => Err("record differed from capture input".to_owned()),
        Err(e) => Err(e.message()),
    }
}

fn replay_capture(
    name: &str,
    bytes: Vec<u8>,
    failures: &mut Vec<String>,
) -> Result<ReplaySummary, CaptureError> {
    let mut reader = CaptureReader::new(bytes)?;
    let header = reader.header();

    let mut summary = ReplaySummary::default();
    let mut captured = [vec![], vec![]];
    let mut replayed = [vec![], vec![]];

    while let Some(record) = reader.read_record()? {
        summary.total_records += 1;
        let side = side_to_u8(record.side) as usize;
        captured[side].extend_from_slice(&record.raw_bytes);

        match replay_record(&record) {
            Ok(bytes) => {
                summary.replayed_records += 1;
                replayed[side].extend_from_slice(&bytes);
            }
            Err(err) => {
                summary.failed_records += 1;
                replayed[side].extend_from_slice(&record.raw_bytes);
                failures.push(format!(
                    "{name} seq={} side={:?} state={:?} id=0x{:02X}: {err}",
                    record.sequence, record.side, record.state, record.packet_id,
                ));
            }
        }
    }

    if captured != replayed {
        summary.failed_records += 1;
        failures.push(format!(
            "{name}: reconstructed stream mismatch; final_threshold={}, online_mode={}",
            header.final_compression_threshold.0, header.online_mode,
        ));
    }

    Ok(summary)
}

/// Captures to be replayed, by name.
fn capture_fixtures() -> Vec<(&'static str, Vec<u8>)> {
    let login = vec![
        record(0, PacketSide::Serverbound, vec![16, 0, 5]),
        record(1, PacketSide::Serverbound, vec![]),
        record(2, PacketSide::Clientbound, vec![3; 70000]),
    ];
    vec![
        (
            "empty",
            write_capture(0, &[], CompressionThreshold(-1), false),
        ),
        (
            "login",
            write_capture(1234, &login, CompressionThreshold(256), true),
        ),
    ]
}

#[test]
fn replay_capture_fixtures() {
    let capture_files = capture_fixtures();
    let mut overall = ReplaySummary::default();
    let mut failures = vec![];

    for (name, bytes) in capture_files {
        let summary = replay_capture(name, bytes, &mut failures).unwrap();
        overall.total_records += summary.total_records;
        overall.replayed_records += summary.replayed_records;
        overall.failed_records += summary.failed_records;
        println!(
            "capture={name} total={} replayed={} failed={}",
            summary.total_records, summary.replayed_records, summary.failed_records,
        );
    }

    assert!(
        failures.is_empty(),
        "capture replay found {} failures",
        failures.len()
    );
    assert_eq!(overall.total_records, 3);
    assert_eq!(overall.replayed_records, 3);
    assert_eq!(overall.failed_records, 0);
}

#[test]
fn header_layout() {
    let bytes = write_capture(-2, &[], CompressionThreshold(256), true);
    let mut expected = b"VPCAP001".to_vec();
    expected.extend([1, 0, 1, 0]);
    expected.extend([2, 3, 0, 0]);
    expected.extend([0xfe, 0xff, 0xff, 0xff, 0xff, 0xff, 0xff, 0xff]);
    expected.extend([0, 1, 0, 0]);
    assert_eq!(bytes, expected);
}

#[test]
fn record_layout() {
    let (mut writer, _) = CaptureWriter::new(CaptureHeader::new(0));
    let op = writer
        .write_record(&CaptureRecord {
            sequence: 0x0102030405060708,
            side: PacketSide::Serverbound,
            state: PacketState::Play,
            compression_threshold: CompressionThreshold(64),
            packet_id: -1,
            raw_bytes: vec![9, 8],
        })
        .unwrap();
    match op {
        StreamOp::Write(bytes) => assert_eq!(
            bytes,
            vec![
                8, 7, 6, 5, 4, 3, 2, 1, 1, 4, 64, 0, 0, 0, 0xff, 0xff, 0xff, 0xff, 2, 0, 0, 0, 9, 8
            ]
        ),
        StreamOp::SeekStart(_) => panic!("a write was expected"),
    }
}

#[test]
fn finishing_changes_only_the_header() {
    let records = [record(4, PacketSide::Serverbound, vec![1, 2, 3])];
    let one = write_capture(9, &records, CompressionThreshold(-1), false);
    let other = write_capture(9, &records, CompressionThreshold(512), true);
    assert_ne!(one[..28], other[..28]);
    assert_eq!(one[28..], other[28..]);
    assert_eq!(one.len(), 28 + 22 + 3);
}

#[test]
fn new_headers() {
    assert_eq!(
        CaptureHeader::new(5),
        CaptureHeader {
            protocol_version: 770,
            connection_started_unix_ms: 5,
            final_compression_threshold: CompressionThreshold(-1),
            online_mode: false,
        }
    );
}

#[test]
fn capture_is_read_back() {
    let records = vec![
        record(0, PacketSide::Clientbound, vec![1, 2, 3]),
        record(u64::MAX, PacketSide::Serverbound, vec![]),
    ];
    let bytes = write_capture(i64::MIN, &records, CompressionThreshold(i32::MIN), true);
    let mut reader = CaptureReader::new(bytes).unwrap();
    assert_eq!(
        reader.header(),
        CaptureHeader {
            protocol_version: 770,
            connection_started_unix_ms: i64::MIN,
            final_compression_threshold: CompressionThreshold(i32::MIN),
            online_mode: true,
        }
    );
    assert_eq!(reader.read_record().unwrap().unwrap(), records[0]);
    assert_eq!(reader.read_record().unwrap().unwrap(), records[1]);
    assert_eq!(reader.read_record(), Ok(None));
    assert_eq!(reader.read_record(), Ok(None));
}

#[test]
fn bad_headers_are_refused() {
    let good = write_capture(7, &[], CompressionThreshold(-1), false);
    assert!(read_header(&good).is_ok());
    for len in 0..28 {
        let cut = good[..len].to_vec();
        assert_eq!(read_header(&cut), Err(CaptureError::UnexpectedEof));
    }
    let mut bad = good.clone();
    bad[7] = b'2';
    assert_eq!(read_header(&bad), Err(CaptureError::InvalidMagic));
    let mut bad = good.clone();
    bad[9] = 1;
    assert_eq!(read_header(&bad), Err(CaptureError::UnsupportedVersion(257)));
    let mut bad = good.clone();
    bad[10] = 2;
    assert_eq!(read_header(&bad), Err(CaptureError::InvalidOnlineMode(2)));
    // The byte that is kept free is not looked at.
    let mut odd = good.clone();
    odd[11] = 99;
    assert_eq!(read_header(&odd), read_header(&good));
}

#[test]
fn bad_records_are_refused() {
    let head = write_capture(7, &[], CompressionThreshold(-1), false).len();
    let good = write_capture(
        7,
        &[record(1, PacketSide::Clientbound, vec![5, 6])],
        CompressionThreshold(-1),
        false,
    );
    for len in head..good.len() {
        let mut reader = CaptureReader::new(good[..len].to_vec()).unwrap();
        if len < head + 8 {
            assert_eq!(reader.read_record(), Ok(None));
        } else {
            assert_eq!(reader.read_record(), Err(CaptureError::UnexpectedEof));
        }
        assert_eq!(reader.read_record(), Ok(None));
    }
    let mut bad = good.clone();
    bad[head + 8] = 2;
    let mut reader = CaptureReader::new(bad).unwrap();
    assert_eq!(reader.read_record(), Err(CaptureError::InvalidSide(2)));
    let mut bad = good.clone();
    bad[head + 9] = 5;
    let mut reader = CaptureReader::new(bad).unwrap();
    assert_eq!(reader.read_record(), Err(CaptureError::InvalidState(5)));
}

#[test]
fn error_texts() {
    assert_eq!(CaptureError::InvalidMagic.message(), "invalid capture magic");
    assert_eq!(
        CaptureError::UnsupportedVersion(65535).message(),
        "unsupported capture version 65535"
    );
    assert_eq!(
        CaptureError::InvalidOnlineMode(10).message(),
        "invalid online mode flag 10"
    );
    assert_eq!(
        CaptureError::InvalidSide(2).message(),
        "invalid packet side 2"
    );
    assert_eq!(
        CaptureError::InvalidState(255).message(),
        "invalid packet state 255"
    );
    assert_eq!(
        CaptureError::TooLarge.message(),
        "capture packet is too large"
    );
    assert_eq!(
        CaptureError::UnexpectedEof.message(),
        "failed to fill whole buffer"
    );
}

#[test]
fn sides_and_states_have_bytes() {
    for side in [PacketSide::Clientbound, PacketSide::Serverbound] {
        assert_eq!(u8_to_side(side_to_u8(side)), Ok(side));
    }
    assert_eq!(side_to_u8(PacketSide::Serverbound), 1);
    assert_eq!(u8_to_side(2), Err(CaptureError::InvalidSide(2)));
    for state in [
        PacketState::Handshake,
        PacketState::Status,
        PacketState::Login,
        PacketState::Configuration,
        PacketState::Play,
    ] {
        assert_eq!(u8_to_state(state_to_u8(state)), Ok(state));
    }
    assert_eq!(state_to_u8(PacketState::Play), 4);
    assert_eq!(u8_to_state(5), Err(CaptureError::InvalidState(5)));
}
