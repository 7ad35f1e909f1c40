use std::path::PathBuf;

use valence::capture::reader::CaptureReader;
use valence::capture::writer::StreamOp;
use valence::inspector::connection::{Connection, Event};
use valence::inspector::connection_capture::{
    threshold_label, timestamp_prefix, ConnectionCapture, Timestamp,
};
use valence::inspector::proxy::{
    clientbound_steps, ended_steps, failed_steps, finish_steps, listener_steps, received_steps,
    serverbound_steps, CaptureOptions, ClientboundPacket, DisconnectionReason, EndStep,
    HandShakeIntent, ListenerEvent, ListenerStep, ProxyMessage, ServerboundPacket, Session, Step,
    ONLINE_MODE_TEXT,
};
use valence::packet::{CompressionThreshold, PacketSide, PacketState};

fn started_at() -> Timestamp {
    Timestamp {
        year: 2025,
        month: 3,
        day: 14,
        hour: 1,
        minute: 59,
        second: 26,
        millisecond: 53,
    }
}

fn written(op: &StreamOp) -> &Vec<u8> {
    match op {
        StreamOp::Write(bytes) => bytes,
        StreamOp::SeekStart(_) => panic!("a write was expected"),
    }
}

fn at(state: PacketState) -> Session {
    Session {
        state,
        threshold: CompressionThreshold(64),
    }
}

#[test]
fn names_tell_the_time() {
    assert_eq!(timestamp_prefix(started_at()), "20250314-015926-053");
    let early = Timestamp {
        year: -5,
        ..started_at()
    };
    assert_eq!(timestamp_prefix(early), "-0050314-015926-053");
}

#[test]
fn threshold_labels() {
    assert_eq!(threshold_label(CompressionThreshold(-1)), "none");
    assert_eq!(threshold_label(CompressionThreshold(i32::MIN)), "none");
    assert_eq!(threshold_label(CompressionThreshold(0)), "0");
    assert_eq!(threshold_label(CompressionThreshold(256)), "256");
}

#[test]
fn connection_is_captured() {
    let begun = ConnectionCapture::create(started_at(), 1_234_567_899, 80).unwrap();
    assert_eq!(begun.temp_name, "20250314-015926-053-00080.tmp");
    let mut capture = begun.capture;
    let mut bytes = written(&begun.op).clone();
    for raw in [vec![1], vec![2, 2]] {
        let op = capture
            .write_packet(
                PacketSide::Serverbound,
                PacketState::Login,
                CompressionThreshold(-1),
                3,
                &raw,
            )
            .unwrap();
        bytes.extend_from_slice(written(&op));
    }
    capture.mark_online_mode();
    let end = bytes.len() as u64;
    let ended = capture.finish(end, CompressionThreshold(256));
    assert_eq!(
        ended.final_name,
        "20250314-015926-053-00080-256-online.vpcap"
    );
    assert_eq!(ended.ops.len(), 3);
    assert!(matches!(ended.ops[0], StreamOp::SeekStart(0)));
    let header = written(&ended.ops[1]);
    bytes[..header.len()].copy_from_slice(header);
    assert!(matches!(ended.ops[2], StreamOp::SeekStart(p) if p == end));

    let mut reader = CaptureReader::new(bytes).unwrap();
    assert_eq!(reader.header().connection_started_unix_ms, 1234);
    assert!(reader.header().online_mode);
    let first = reader.read_record().unwrap().unwrap();
    assert_eq!((first.sequence, first.raw_bytes), (0, vec![1]));
    let second = reader.read_record().unwrap().unwrap();
    assert_eq!((second.sequence, second.raw_bytes), (1, vec![2, 2]));
    assert_eq!(reader.read_record(), Ok(None));
}

#[test]
fn failed_packets_use_no_number() {
    let begun = ConnectionCapture::create(started_at(), 0, 80).unwrap();
    let mut capture = begun.capture;
    let write = |capture: &mut ConnectionCapture| {
        let op = capture
            .write_packet(
                PacketSide::Clientbound,
                PacketState::Play,
                CompressionThreshold(0),
                1,
                &vec![5],
            )
            .unwrap();
        written(&op)[0]
    };
    assert_eq!(write(&mut capture), 0);
    assert_eq!(write(&mut capture), 1);
    capture.packet_not_written();
    assert_eq!(capture.next_sequence(), 1);
    assert_eq!(write(&mut capture), 1);
}

#[test]
fn options_and_reasons_hold_what_they_are_given() {
    let options = CaptureOptions {
        output_dir: PathBuf::from("captures"),
    };
    assert_eq!(options.clone().output_dir, PathBuf::from("captures"));
    let reason = DisconnectionReason::Error(anyhow::Error::msg("lost"));
    match reason {
        DisconnectionReason::Error(e) => assert_eq!(e.to_string(), "lost"),
        DisconnectionReason::OnlineModeRequired => panic!("another reason was given"),
    }
}

#[test]
fn offline_captures_say_so() {
    let begun = ConnectionCapture::create(started_at(), -1_999_999, 65535).unwrap();
    let header = written(&begun.op).clone();
    let ended = begun.capture.finish(28, CompressionThreshold(-1));
    assert_eq!(
        ended.final_name,
        "20250314-015926-053-65535-none-offline.vpcap"
    );
    // Times before the epoch are rounded towards it.
    let reader = CaptureReader::new(header).unwrap();
    assert_eq!(reader.header().connection_started_unix_ms, -1);
}

#[test]
fn far_off_times_are_refused() {
    let most = i64::MAX as i128 * 1_000_000 + 999_999;
    assert!(ConnectionCapture::create(started_at(), most, 1).is_some());
    assert!(ConnectionCapture::create(started_at(), most + 1, 1).is_none());
    assert!(ConnectionCapture::create(started_at(), i128::MIN, 1).is_none());
}

#[test]
fn connections_begin_with_a_handshake() {
    let session = Session::new();
    assert_eq!(session.state, PacketState::Handshake);
    assert_eq!(session.threshold, CompressionThreshold(-1));
}

#[test]
fn every_packet_is_captured_and_shown() {
    let threshold = CompressionThreshold(64);
    let state = PacketState::Play;
    let side = PacketSide::Clientbound;
    assert_eq!(
        received_steps(side, at(state)),
        vec![
            Step::Capture {
                side,
                state,
                threshold
            },
            Step::Inspect {
                side,
                state,
                threshold
            },
        ]
    );
}

#[test]
fn client_packets_change_the_state() {
    let cases = [
        (
            PacketState::Handshake,
            ServerboundPacket::Intention(HandShakeIntent::Status),
            PacketState::Status,
        ),
        (
            PacketState::Handshake,
            ServerboundPacket::Intention(HandShakeIntent::Login),
            PacketState::Login,
        ),
        (
            PacketState::Login,
            ServerboundPacket::LoginAcknowledged,
            PacketState::Configuration,
        ),
        (
            PacketState::Play,
            ServerboundPacket::ConfigurationAcknowledged,
            PacketState::Configuration,
        ),
        (
            PacketState::Configuration,
            ServerboundPacket::FinishConfiguration,
            PacketState::Play,
        ),
    ];
    for (state, packet, next) in cases {
        assert_eq!(
            serverbound_steps(at(state), packet),
            vec![Step::SetState(next), Step::Forward]
        );
        assert_eq!(
            serverbound_steps(at(state), ServerboundPacket::Other),
            vec![Step::Forward]
        );
    }
    assert_eq!(
        serverbound_steps(at(PacketState::Status), ServerboundPacket::LoginAcknowledged),
        vec![Step::Forward]
    );
}

#[test]
fn online_mode_is_refused() {
    assert_eq!(
        clientbound_steps(at(PacketState::Login), ClientboundPacket::Hello),
        vec![
            Step::MarkOnlineMode,
            Step::SendDisconnect,
            Step::ShutdownClient,
            Step::LogOnlineMode,
            Step::FailOnlineMode,
        ]
    );
    assert_eq!(
        clientbound_steps(at(PacketState::Play), ClientboundPacket::Hello),
        vec![Step::Forward]
    );
    assert_eq!(
        ONLINE_MODE_TEXT,
        "This server is running in online mode, which is unsupported by the Packet Inspector."
    );
}

#[test]
fn compression_starts_after_it_was_announced() {
    let packet = ClientboundPacket::LoginCompression(256);
    assert_eq!(
        clientbound_steps(at(PacketState::Login), packet),
        vec![
            Step::Forward,
            Step::SetThreshold(CompressionThreshold(256))
        ]
    );
    assert_eq!(
        clientbound_steps(at(PacketState::Play), packet),
        vec![Step::Forward]
    );
}

fn apply(session: Session, steps: Vec<Step>) -> Session {
    let mut session = session;
    for step in steps {
        match step {
            Step::SetState(state) => session.state = state,
            Step::SetThreshold(threshold) => session.threshold = threshold,
            _ => {}
        }
    }
    session
}

#[test]
fn login_is_over_for_good() {
    let mut session = Session::new();
    let login = ServerboundPacket::Intention(HandShakeIntent::Login);
    session = apply(session, serverbound_steps(session, login));
    let compression = ClientboundPacket::LoginCompression(256);
    session = apply(session, clientbound_steps(session, compression));
    assert_eq!(session.threshold, CompressionThreshold(256));
    let acknowledged = ServerboundPacket::LoginAcknowledged;
    session = apply(session, serverbound_steps(session, acknowledged));
    assert_eq!(session.state, PacketState::Configuration);

    let late = ClientboundPacket::LoginCompression(-1);
    for packet in [
        ServerboundPacket::FinishConfiguration,
        login,
        acknowledged,
        ServerboundPacket::ConfigurationAcknowledged,
        ServerboundPacket::FinishConfiguration,
    ] {
        session = apply(session, serverbound_steps(session, packet));
        session = apply(session, clientbound_steps(session, late));
        assert_eq!(session.threshold, CompressionThreshold(256));
        assert!(matches!(
            session.state,
            PacketState::Configuration | PacketState::Play
        ));
    }
    assert_eq!(session.state, PacketState::Play);
}

#[test]
fn status_requests_stay() {
    let session = at(PacketState::Status);
    for packet in [
        ServerboundPacket::Intention(HandShakeIntent::Login),
        ServerboundPacket::LoginAcknowledged,
        ServerboundPacket::FinishConfiguration,
    ] {
        assert_eq!(apply(session, serverbound_steps(session, packet)), session);
    }
    let compression = ClientboundPacket::LoginCompression(1);
    assert_eq!(
        apply(session, clientbound_steps(session, compression)),
        session
    );
}

#[test]
fn lost_connections_shut_down_the_other_side() {
    assert_eq!(
        failed_steps(PacketSide::Serverbound),
        vec![Step::ShutdownServer, Step::LogError, Step::FailConnection]
    );
    assert_eq!(
        failed_steps(PacketSide::Clientbound),
        vec![Step::ShutdownClient, Step::FailError]
    );
}

#[test]
fn listener_serves_until_stopped() {
    assert_eq!(
        listener_steps(ListenerEvent::Accepted),
        vec![
            ListenerStep::LogConnected,
            ListenerStep::ConnectServer,
            ListenerStep::SpawnSession
        ]
    );
    for event in [
        ListenerEvent::Message(ProxyMessage::Stop),
        ListenerEvent::MessagesClosed,
    ] {
        assert_eq!(
            listener_steps(event),
            vec![ListenerStep::AbortSessions, ListenerStep::Finish]
        );
    }
}

#[test]
fn ended_connections_are_wound_up() {
    assert_eq!(
        ended_steps(PacketSide::Serverbound),
        vec![
            EndStep::Abort(PacketSide::Clientbound),
            EndStep::Await(PacketSide::Clientbound)
        ]
    );
    assert_eq!(
        ended_steps(PacketSide::Clientbound),
        vec![
            EndStep::Abort(PacketSide::Serverbound),
            EndStep::Await(PacketSide::Serverbound)
        ]
    );
    let session = at(PacketState::Play);
    assert_eq!(
        finish_steps(true, true, session),
        vec![
            EndStep::FinishCapture(CompressionThreshold(64)),
            EndStep::Finish
        ]
    );
    assert_eq!(finish_steps(true, false, session), vec![EndStep::Finish]);
    assert_eq!(finish_steps(false, true, session), vec![EndStep::FailTask]);
}

#[test]
fn connection_tab() {
    let tab = Connection::new();
    assert_eq!(tab.name(), "Connection");
    let idle = tab.controls(false);
    assert!(idle.settings_enabled);
    assert_eq!(idle.button, "Start Listening");
    assert_eq!(idle.on_click, Event::StartListening);
    let busy = tab.controls(true);
    assert!(!busy.settings_enabled);
    assert_eq!(busy.button, "Stop Listening");
    assert_eq!(busy.on_click, Event::StopListening);
}
