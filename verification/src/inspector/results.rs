//! What calls on the proxy, its captures and its tab do and hand back.

use vstd::prelude::*;

use super::connection::{Connection, Controls, Event};
use super::connection_capture::{
    threshold_label, timestamp_prefix, Begun, ConnectionCapture, Ended, PacketModel, Timestamp,
};
use super::laws::{
    captures_end_with_the_last_threshold, client_packets_change_the_state_and_go_on,
    every_packet_is_captured_and_shown, failures_shut_out_the_other_side,
    server_packets_go_on_or_end_it, the_listener_serves_until_it_is_stopped,
    the_other_direction_is_ended_too,
};
use super::names::{
    milliseconds_are_those_that_passed, names_begin_alike, names_tell_online_mode,
    packets_take_one_number_each, records_say_what_was_captured, thresholds_are_told_by_digits,
    times_are_told_in_full,
};
use super::proxy::{
    clientbound_steps, ended_steps, extrapolate_packet, failed_steps, finish_steps, listener_steps,
    read_clientbound, read_serverbound, received_steps, serverbound_steps, ClientboundPacket,
    Decode, EndStep, HandShakeIntent, Intention, ListenerEvent, ListenerStep, LoginCompression,
    ServerboundPacket, Session, Step,
};
use crate::capture::layout::{headers_are_laid_out, octet_at, quad_at, records_are_laid_out};
use crate::capture::writer::{OpModel, StreamOp};
use crate::capture::CaptureError;
use crate::packet::{CompressionThreshold, Packet, PacketSide, PacketState};
use crate::text::number_of;

verus! {

/// For every packet, `received_steps` says to capture it and then to show it, both
/// with the side, the state and the threshold that it was given.
pub proof fn received_packets_are_captured_and_shown(
    side: PacketSide,
    session: Session,
    steps: Vec<Step>,
)
    requires
        call_ensures(received_steps, (side, session), steps),
    ensures
        steps@.len() == 2,
        steps@[0] == (Step::Capture { side, state: session.state, threshold: session.threshold }),
        steps@[1] == (Step::Inspect { side, state: session.state, threshold: session.threshold }),
{
    every_packet_is_captured_and_shown(side, session);
}

/// A connection begins with the handshake and without compression.
pub proof fn connections_begin_with_the_handshake(session: Session)
    requires
        call_ensures(Session::new, (), session),
    ensures
        session.state == PacketState::Handshake,
        session.threshold.0 == -1,
{
}

/// `serverbound_steps` ends in sending the packet on, after at most a change of
/// state.
pub proof fn client_packets_are_always_sent_on(
    session: Session,
    packet: ServerboundPacket,
    steps: Vec<Step>,
)
    requires
        call_ensures(serverbound_steps, (session, packet), steps),
    ensures
        1 <= steps@.len() <= 2,
        steps@.last() == Step::Forward,
        steps@.len() == 2 ==> steps@[0] is SetState,
        steps@.len() == 2 <==> match packet {
            ServerboundPacket::Intention(intent) => {
                session.state == PacketState::Handshake && intent != HandShakeIntent::Transfer
            },
            ServerboundPacket::LoginAcknowledged => session.state == PacketState::Login,
            ServerboundPacket::ConfigurationAcknowledged => session.state == PacketState::Play,
            ServerboundPacket::FinishConfiguration => session.state == PacketState::Configuration,
            ServerboundPacket::Other => false,
        },
{
    client_packets_change_the_state_and_go_on(session, packet);
}

/// `clientbound_steps` sends a packet on just where it is not a request for
/// encryption at login, and then first of all; and sets the threshold just where the
/// packet does so at login.
pub proof fn server_packets_are_sent_on_but_one(
    session: Session,
    packet: ClientboundPacket,
    steps: Vec<Step>,
)
    requires
        call_ensures(clientbound_steps, (session, packet), steps),
    ensures
        steps@[0] == Step::Forward <==> !(session.state == PacketState::Login && packet
            == ClientboundPacket::Hello),
        steps@[0] == Step::Forward ==> steps@.len() <= 2,
        steps@.len() == 2 ==> match packet {
            ClientboundPacket::LoginCompression(n) => steps@[1] == Step::SetThreshold(
                CompressionThreshold(n),
            ),
            _ => false,
        },
        session.state == PacketState::Login && packet is LoginCompression ==> steps@.len() == 2,
{
    server_packets_go_on_or_end_it(session, packet);
}

/// `failed_steps` shuts out the side that the packets went to.
pub proof fn failed_directions_shut_out_their_side(side: PacketSide, steps: Vec<Step>)
    requires
        call_ensures(failed_steps, (side,), steps),
    ensures
        side == PacketSide::Serverbound ==> steps@ == seq![
            Step::ShutdownServer,
            Step::LogError,
            Step::FailConnection,
        ],
        side == PacketSide::Clientbound ==> steps@ == seq![Step::ShutdownClient, Step::FailError],
{
    failures_shut_out_the_other_side();
}

/// `listener_steps` serves each client that connects, and ends on anything else.
pub proof fn listeners_serve_each_client(event: ListenerEvent, steps: Vec<ListenerStep>)
    requires
        call_ensures(listener_steps, (event,), steps),
    ensures
        steps@.contains(ListenerStep::SpawnSession) <==> event == ListenerEvent::Accepted,
        steps@.contains(ListenerStep::ConnectServer) <==> event == ListenerEvent::Accepted,
        steps@.last() == ListenerStep::Finish <==> event != ListenerEvent::Accepted,
        steps@[0] == ListenerStep::AbortSessions <==> event != ListenerEvent::Accepted,
{
    the_listener_serves_until_it_is_stopped(event);
    if event is Accepted {
        assert(steps@[2] == ListenerStep::SpawnSession);
        assert(steps@[1] == ListenerStep::ConnectServer);
    }
}

/// `ended_steps` aborts the other direction and waits for it.
pub proof fn ended_directions_end_the_other(side: PacketSide, steps: Vec<EndStep>)
    requires
        call_ensures(ended_steps, (side,), steps),
    ensures
        steps@.len() == 2,
        steps@[0] matches EndStep::Abort(other) && other != side,
        steps@[1] matches EndStep::Await(other) && other != side,
{
    the_other_direction_is_ended_too(side);
}

/// `finish_steps` ends a capture just where one is taken and the first direction was
/// run to its end, with the threshold in force.
pub proof fn finished_connections_end_their_capture(
    ran_to_end: bool,
    capturing: bool,
    session: Session,
    steps: Vec<EndStep>,
)
    requires
        call_ensures(finish_steps, (ran_to_end, capturing, session), steps),
    ensures
        steps@.len() > 0,
        steps@.last() == EndStep::Finish <==> ran_to_end,
        steps@.last() == EndStep::FailTask <==> !ran_to_end,
        steps@.len() == 2 <==> ran_to_end && capturing,
        steps@.len() <= 2,
        steps@.len() == 2 ==> steps@[0] == EndStep::FinishCapture(session.threshold),
{
    captures_end_with_the_last_threshold(ran_to_end, capturing, session);
}

/// A capture begins with no packet counted, offline, with a header that says so, and
/// under a name that ends in ".tmp"; it does so just where the time in whole
/// milliseconds fits.
pub proof fn captures_begin_empty(
    started_at: Timestamp,
    unix_nanos: i128,
    port: u16,
    r: Option<Begun>,
)
    requires
        call_ensures(ConnectionCapture::create, (started_at, unix_nanos, port), r),
    ensures
        r is Some <==> -0x8000_0000_0000_0001 < unix_nanos as int / 1_000_000 + (if unix_nanos < 0
            && unix_nanos as int % 1_000_000 != 0 {
            1int
        } else {
            0
        }) < 0x8000_0000_0000_0000,
        r matches Some(begun) ==> {
            &&& begun.capture@.client_port == port
            &&& begun.capture@.started_at == started_at
            &&& begun.capture@.next_sequence == 0
            &&& !begun.capture@.online_mode
            &&& begun.capture@.header.protocol_version == 770
            &&& begun.capture@.header.final_compression_threshold.0 == -1
            &&& !begun.capture@.header.online_mode
            &&& unix_nanos >= 0 ==> begun.capture@.header.connection_started_unix_ms
                == unix_nanos as int / 1_000_000
            &&& ".tmp"@.is_suffix_of(begun.temp_name@)
            &&& started_at.prefix().is_prefix_of(begun.temp_name@)
            &&& begun.op@ matches OpModel::Write(bytes) && bytes.len() == 28 && bytes[10] == 0
        },
{
    milliseconds_are_those_that_passed(unix_nanos as int);
    milliseconds_are_those_that_passed(-unix_nanos as int);
    if let Some(begun) = r {
        let stem = names_begin_alike(started_at, port, CompressionThreshold(0), false);
        let name = begun.temp_name@;
        reveal_strlit(".tmp");
        assert(name.subrange(name.len() - 4, name.len() as int) =~= ".tmp"@);
        let time = started_at.prefix();
        assert(stem.subrange(0, time.len() as int) =~= time);
        assert(name.subrange(0, time.len() as int) =~= time);
        headers_are_laid_out(begun.capture@.header);
    }
}

/// A capture ends with the header anew at the start and then back at the end. Where
/// the server was noted to run in online mode, and only there, both the name and the
/// header say so, whatever the threshold, which both tell too.
pub proof fn captures_end_as_they_went(
    capture: ConnectionCapture,
    end: u64,
    threshold: CompressionThreshold,
    r: Ended,
)
    requires
        call_ensures(ConnectionCapture::finish, (capture, end, threshold), r),
    ensures
        "-online.vpcap"@.is_suffix_of(r.final_name@) <==> capture@.online_mode,
        "-offline.vpcap"@.is_suffix_of(r.final_name@) <==> !capture@.online_mode,
        capture@.started_at.prefix().is_prefix_of(r.final_name@),
        r.ops@.len() == 3,
        r.ops@[0]@ == OpModel::SeekStart(0),
        r.ops@[2]@ == OpModel::SeekStart(end as nat),
        r.ops@[1]@ matches OpModel::Write(bytes) && {
            &&& bytes.len() == 28
            &&& bytes[10] == 1 <==> capture@.online_mode
            &&& bytes[10] == 0 <==> !capture@.online_mode
            &&& bytes[24] + 0x100 * bytes[25] + 0x1_0000 * bytes[26] + 0x100_0000 * bytes[27]
                == threshold.0 as int % 0x1_0000_0000
        },
{
    names_tell_online_mode(capture@, threshold);
    headers_are_laid_out(capture@.final_header(threshold));
    let stem = names_begin_alike(
        capture@.started_at,
        capture@.client_port,
        threshold,
        capture@.online_mode,
    );
    let time = capture@.started_at.prefix();
    let name = r.final_name@;
    assert(stem.subrange(0, time.len() as int) =~= time);
    assert(name.subrange(0, time.len() as int) =~= time);
}

/// While the proxy listens it can be stopped and nothing set; else it can be set up
/// and started.
pub proof fn controls_follow_the_proxy(tab: &Connection, is_listening: bool, r: Controls)
    requires
        call_ensures(Connection::controls, (tab, is_listening), r),
    ensures
        r.settings_enabled <==> !is_listening,
        r.on_click == Event::StopListening <==> is_listening,
        r.on_click == Event::StartListening <==> !is_listening,
        r.button@ == "Stop Listening"@ <==> is_listening,
        r.button@ == "Start Listening"@ <==> !is_listening,
{
    reveal_strlit("Stop Listening");
    reveal_strlit("Start Listening");
    assert("Stop Listening"@.len() != "Start Listening"@.len());
}

/// A packet is captured under the next number with all that it came with, unless it
/// is too large; and only then is the number used up.
pub proof fn packets_are_captured_in_turn(
    capture: &mut ConnectionCapture,
    side: PacketSide,
    state: PacketState,
    threshold: CompressionThreshold,
    id: i32,
    raw: &Vec<u8>,
    r: Result<StreamOp, CaptureError>,
    i: int,
)
    requires
        call_ensures(
            ConnectionCapture::write_packet,
            (capture, side, state, threshold, id, raw),
            r,
        ),
        old(capture)@.next_sequence < u64::MAX,
        0 <= i < raw@.len(),
    ensures
        ({
            let (m, a) = (old(capture)@, final(capture)@);
            &&& r is Ok <==> raw@.len() <= 0xffff_ffff
            &&& r is Ok ==> a.next_sequence == m.next_sequence + 1
            &&& r is Err ==> a.next_sequence == m.next_sequence
            &&& a.client_port == m.client_port
            &&& a.started_at == m.started_at
            &&& a.online_mode == m.online_mode
            &&& a.header == m.header
            &&& r is Ok ==> match r->Ok_0 {
                StreamOp::Write(bytes) => {
                    &&& bytes@.len() == 22 + raw@.len()
                    &&& octet_at(bytes@, 0) == m.next_sequence
                    &&& bytes@[8] == 1 <==> side == PacketSide::Serverbound
                    &&& bytes@[8] == 0 <==> side == PacketSide::Clientbound
                    &&& bytes@[9] == (match state {
                        PacketState::Handshake => 0u8,
                        PacketState::Status => 1u8,
                        PacketState::Login => 2u8,
                        PacketState::Configuration => 3u8,
                        PacketState::Play => 4u8,
                    })
                    &&& quad_at(bytes@, 10) == threshold.0 as int % 0x1_0000_0000
                    &&& quad_at(bytes@, 14) == id as int % 0x1_0000_0000
                    &&& bytes@[22 + i] == raw@[i]
                },
                StreamOp::SeekStart(_) => false,
            }
        }),
{
    let p = PacketModel {
        side,
        state,
        compression_threshold: threshold,
        packet_id: id,
        raw_bytes: raw@,
    };
    let record = p.record(old(capture)@.next_sequence);
    records_say_what_was_captured(p, old(capture)@.next_sequence);
    if r is Ok {
        records_are_laid_out(record);
        assert(r->Ok_0@ is Write);
        assert(record.raw_bytes[i] == raw@[i]);
    }
}

/// A packet that could not be written gives its number back, and nothing else
/// changes.
pub proof fn numbers_are_given_back(capture: &mut ConnectionCapture)
    requires
        call_ensures(ConnectionCapture::packet_not_written, (capture,), ()),
        old(capture)@.next_sequence > 0,
    ensures
        final(capture)@.next_sequence == old(capture)@.next_sequence - 1,
        final(capture)@.online_mode == old(capture)@.online_mode,
        final(capture)@.header == old(capture)@.header,
        final(capture)@.client_port == old(capture)@.client_port,
        final(capture)@.started_at == old(capture)@.started_at,
{
    packets_take_one_number_each(old(capture)@);
}

/// Online mode is noted for good, and nothing else changes.
pub proof fn online_mode_is_noted(capture: &mut ConnectionCapture)
    requires
        call_ensures(ConnectionCapture::mark_online_mode, (capture,), ()),
    ensures
        final(capture)@.online_mode,
        final(capture)@.next_sequence == old(capture)@.next_sequence,
        final(capture)@.header == old(capture)@.header,
        final(capture)@.client_port == old(capture)@.client_port,
        final(capture)@.started_at == old(capture)@.started_at,
{
}

/// The next number is told, and thresholds are labelled by their digits, or "none".
pub proof fn numbers_and_labels_are_told(
    capture: &ConnectionCapture,
    next: u64,
    threshold: CompressionThreshold,
    label: String,
)
    requires
        call_ensures(ConnectionCapture::next_sequence, (capture,), next),
        call_ensures(threshold_label, (threshold,), label),
    ensures
        next == capture@.next_sequence,
        threshold.0 < 0 ==> label@ == seq!['n', 'o', 'n', 'e'],
        threshold.0 >= 0 ==> number_of(label@) == threshold.0,
{
    thresholds_are_told_by_digits(threshold);
}

/// The text of a time tells it.
pub proof fn times_are_told(time: Timestamp, text: String)
    requires
        call_ensures(timestamp_prefix, (time,), text),
        time.month < 100,
        time.day < 100,
        time.hour < 100,
        time.minute < 100,
        time.second < 100,
        time.millisecond < 1000,
        0 <= time.year < 10000,
    ensures
        text@.len() == 19,
        number_of(text@.take(4)) == time.year,
        number_of(text@.subrange(4, 6)) == time.month,
        number_of(text@.subrange(6, 8)) == time.day,
        text@[8] == '-',
        number_of(text@.subrange(9, 11)) == time.hour,
        number_of(text@.subrange(11, 13)) == time.minute,
        number_of(text@.subrange(13, 15)) == time.second,
        text@[15] == '-',
        number_of(text@.subrange(16, 19)) == time.millisecond,
{
    times_are_told_in_full(time);
}

/// Whether reading a body as a packet of type `P` gives just this.
pub open spec fn is_read_as<P: Decode>(body: &Vec<u8>, read: Result<P, String>) -> bool {
    forall|r: Result<P, String>|
        #![trigger call_ensures(P::decode, (body,), r)]
        call_ensures(P::decode, (body,), r) ==> r == read
}

/// A packet is read as one of a type just where it has the id of that type and its
/// body can be read as such, and is then what was read.
pub proof fn packets_are_read_as_their_type<P: Packet + Decode>(
    id: i32,
    body: &Vec<u8>,
    read: Result<P, String>,
    r: Option<P>,
)
    requires
        call_ensures(extrapolate_packet::<P>, (id, body), r),
        is_read_as::<P>(body, read),
    ensures
        r is Some <==> id == P::ID && read is Ok,
        r is Some ==> read == Ok::<P, String>(r->0),
{
}

/// A packet from the client is told apart by the state: at the handshake by what the
/// client means to do, at login, in play and in configuration by the one packet that
/// matters there, and never where the status is asked for.
pub proof fn client_packets_are_told_by_state<I, L, C, F>(
    state: PacketState,
    id: i32,
    body: &Vec<u8>,
    r: ServerboundPacket,
    intention: Result<I, String>,
    login: Result<L, String>,
    configuration: Result<C, String>,
    finish: Result<F, String>,
) where
    I: Packet + Decode + Intention,
    L: Packet + Decode,
    C: Packet + Decode,
    F: Packet + Decode,

    requires
        call_ensures(read_serverbound::<I, L, C, F>, (state, id, body), r),
        is_read_as::<I>(body, intention),
        is_read_as::<L>(body, login),
        is_read_as::<C>(body, configuration),
        is_read_as::<F>(body, finish),
    ensures
        r is Intention <==> state == PacketState::Handshake && id == I::ID && intention is Ok,
        r is LoginAcknowledged <==> state == PacketState::Login && id == L::ID && login is Ok,
        r is ConfigurationAcknowledged <==> state == PacketState::Play && id == C::ID
            && configuration is Ok,
        r is FinishConfiguration <==> state == PacketState::Configuration && id == F::ID
            && finish is Ok,
        r matches ServerboundPacket::Intention(intent) ==> call_ensures(
            I::intent,
            (&intention->Ok_0,),
            intent,
        ),
{
}

/// A packet from the server is told apart at login only: as a request for encryption
/// first, and else as one that sets the compression.
pub proof fn server_packets_are_told_at_login<H, C>(
    state: PacketState,
    id: i32,
    body: &Vec<u8>,
    r: ClientboundPacket,
    hello: Result<H, String>,
    compression: Result<C, String>,
) where H: Packet + Decode, C: Packet + Decode + LoginCompression
    requires
        call_ensures(read_clientbound::<H, C>, (state, id, body), r),
        is_read_as::<H>(body, hello),
        is_read_as::<C>(body, compression),
    ensures
        r is Hello <==> state == PacketState::Login && id == H::ID && hello is Ok,
        r is LoginCompression <==> state == PacketState::Login && !(id == H::ID && hello is Ok)
            && id == C::ID && compression is Ok,
        r matches ClientboundPacket::LoginCompression(n) ==> call_ensures(
            C::threshold,
            (&compression->Ok_0,),
            n,
        ),
{
}

/// The tab is called "Connection".
pub proof fn the_tab_has_a_name(tab: &Connection, name: &'static str)
    requires
        call_ensures(Connection::name, (tab,), name),
    ensures
        name@ == "Connection"@,
{
}

/// All packets can be handled but requests for a transfer, and captures can be begun,
/// noted and ended whenever, and go on while there are numbers.
pub proof fn packets_can_be_handled(
    side: PacketSide,
    session: Session,
    from_client: ServerboundPacket,
    from_server: ClientboundPacket,
    capture: &mut ConnectionCapture,
    id: i32,
    raw: &Vec<u8>,
    end: u64,
)
    ensures
        call_requires(received_steps, (side, session)),
        call_requires(clientbound_steps, (session, from_server)),
        call_requires(failed_steps, (side,)),
        session.state != PacketState::Handshake || from_client != ServerboundPacket::Intention(
            HandShakeIntent::Transfer,
        ) ==> call_requires(serverbound_steps, (session, from_client)),
        old(capture)@.next_sequence < u64::MAX ==> call_requires(
            ConnectionCapture::write_packet,
            (capture, side, session.state, session.threshold, id, raw),
        ),
        old(capture)@.next_sequence > 0 ==> call_requires(
            ConnectionCapture::packet_not_written,
            (capture,),
        ),
        call_requires(ConnectionCapture::mark_online_mode, (capture,)),
        call_requires(ConnectionCapture::finish, (*old(capture), end, session.threshold)),
{
}

} // verus!
