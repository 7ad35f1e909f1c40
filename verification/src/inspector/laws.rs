//! What the proxy does, packet by packet and in the end.

use vstd::prelude::*;

use super::proxy::{
    after_packets, after_steps, asks_transfer, client_packets_are_forwarded,
    compression_is_set_at_login, has_intent, next_state, other_side,
    server_packets_are_forwarded_or_refused, sets_threshold, spec_clientbound, spec_ended,
    spec_failed, spec_finish, spec_listener, spec_received, spec_serverbound, tells,
    ClientboundPacket, Decode, EndStep, HandShakeIntent, Handled, Intention, ListenerEvent,
    ListenerStep, LoginCompression, ServerboundPacket, Session, Step,
};
use crate::packet::{CompressionThreshold, Packet, PacketSide, PacketState};

verus! {

/// The side that a packet is meant for.
pub open spec fn meant_for(packet: Handled) -> PacketSide {
    match packet {
        Handled::FromClient(_) => PacketSide::Serverbound,
        Handled::FromServer(_) => PacketSide::Clientbound,
    }
}

/// All that is done with a packet.
pub open spec fn all_steps(session: Session, packet: Handled) -> Seq<Step> {
    match packet {
        Handled::FromClient(p) => spec_received(PacketSide::Serverbound, session)
            + spec_serverbound(session, p),
        Handled::FromServer(p) => spec_received(PacketSide::Clientbound, session)
            + spec_clientbound(session, p),
    }
}

/// How often something of a kind is done.
pub open spec fn times(steps: Seq<Step>, kind: spec_fn(Step) -> bool) -> nat
    decreases steps.len(),
{
    if steps.len() == 0 {
        0
    } else {
        times(steps.drop_last(), kind) + (if kind(steps.last()) {
            1nat
        } else {
            0nat
        })
    }
}

/// Every packet, for whichever side, is first captured and then shown, with its side
/// and with the state and the threshold as they stand. Nothing else comes first.
pub proof fn every_packet_is_captured_and_shown(side: PacketSide, session: Session)
    ensures
        spec_received(side, session).len() == 2,
        match spec_received(side, session)[0] {
            Step::Capture { side: s, state, threshold } => {
                &&& s == side
                &&& state == session.state
                &&& threshold == session.threshold
            },
            _ => false,
        },
        match spec_received(side, session)[1] {
            Step::Inspect { side: s, state, threshold } => {
                &&& s == side
                &&& state == session.state
                &&& threshold == session.threshold
            },
            _ => false,
        },
{
}

/// Of all that is done with a packet, it is captured once and shown once, before
/// anything else; and it is sent on once, unless it is a request for encryption at
/// login, which never is.
pub proof fn every_packet_is_handled_once(session: Session, packet: Handled)
    ensures
        times(all_steps(session, packet), |s: Step| s is Capture) == 1,
        times(all_steps(session, packet), |s: Step| s is Inspect) == 1,
        times(all_steps(session, packet), |s: Step| s is Forward) == (if session.state
            == PacketState::Login && packet == Handled::FromServer(ClientboundPacket::Hello) {
            0nat
        } else {
            1nat
        }),
        all_steps(session, packet)[0] is Capture,
        all_steps(session, packet)[1] is Inspect,
        after_steps(session, spec_received(meant_for(packet), session)) == session,
{
    reveal_with_fuel(times, 8);
    reveal_with_fuel(after_steps, 3);
}

/// A packet from the client changes the state just where it is one of these, and
/// then to this state: at the handshake, what the client means to do; at login, that
/// it is acknowledged; in play, that configuration is; in configuration, that it is
/// finished.
pub proof fn states_are_changed_by_these_packets(state: PacketState, packet: ServerboundPacket)
    ensures
        next_state(state, packet) == Some(PacketState::Status) <==> state == PacketState::Handshake
            && packet == ServerboundPacket::Intention(HandShakeIntent::Status),
        next_state(state, packet) == Some(PacketState::Login) <==> state == PacketState::Handshake
            && packet == ServerboundPacket::Intention(HandShakeIntent::Login),
        next_state(state, packet) == Some(PacketState::Configuration) <==> (state
            == PacketState::Login && packet == ServerboundPacket::LoginAcknowledged) || (state
            == PacketState::Play && packet == ServerboundPacket::ConfigurationAcknowledged),
        next_state(state, packet) == Some(PacketState::Play) <==> state
            == PacketState::Configuration && packet == ServerboundPacket::FinishConfiguration,
        next_state(state, packet) != Some(PacketState::Handshake),
        asks_transfer(state, packet) <==> state == PacketState::Handshake && packet
            == ServerboundPacket::Intention(HandShakeIntent::Transfer),
{
}

/// A packet from the client is sent on as the last thing. Before that comes nothing
/// but the change of state, if there is one.
pub proof fn client_packets_change_the_state_and_go_on(
    session: Session,
    packet: ServerboundPacket,
)
    ensures
        ({
            let steps = spec_serverbound(session, packet);
            let to = if session.state == PacketState::Handshake && packet
                == ServerboundPacket::Intention(HandShakeIntent::Status) {
                Some(PacketState::Status)
            } else if session.state == PacketState::Handshake && packet
                == ServerboundPacket::Intention(HandShakeIntent::Login) {
                Some(PacketState::Login)
            } else if session.state == PacketState::Login && packet
                == ServerboundPacket::LoginAcknowledged {
                Some(PacketState::Configuration)
            } else if session.state == PacketState::Play && packet
                == ServerboundPacket::ConfigurationAcknowledged {
                Some(PacketState::Configuration)
            } else if session.state == PacketState::Configuration && packet
                == ServerboundPacket::FinishConfiguration {
                Some(PacketState::Play)
            } else {
                None
            };
            &&& steps.last() == Step::Forward
            &&& to is None ==> steps.len() == 1
            &&& to is Some ==> steps.len() == 2 && steps[0] == Step::SetState(to->0)
        }),
{
}

/// A packet from the server goes on first. After it comes nothing, unless it sets
/// the compression at login, which then takes effect. A request for encryption at
/// login is noted, the client is told and shut out, and that is reported and is the
/// error that the direction ends with; in any other state it goes on.
pub proof fn server_packets_go_on_or_end_it(session: Session, packet: ClientboundPacket)
    ensures
        ({
            let steps = spec_clientbound(session, packet);
            let at_login = session.state == PacketState::Login;
            &&& at_login && packet == ClientboundPacket::Hello ==> {
                &&& steps.len() == 5
                &&& steps[0] == Step::MarkOnlineMode
                &&& steps[1] == Step::SendDisconnect
                &&& steps[2] == Step::ShutdownClient
                &&& steps[3] == Step::LogOnlineMode
                &&& steps[4] == Step::FailOnlineMode
            }
            &&& at_login ==> (packet matches ClientboundPacket::LoginCompression(n) ==> {
                &&& steps.len() == 2
                &&& steps[0] == Step::Forward
                &&& steps[1] == Step::SetThreshold(CompressionThreshold(n))
            })
            &&& !at_login || packet is Other ==> {
                &&& steps.len() == 1
                &&& steps[0] == Step::Forward
            }
        }),
{
}

/// Where no packet can be read from the client, the server is shut out, that is
/// reported, and the connection has failed. Where none can be read from the server,
/// the client is shut out, and the error is what the direction ends with.
pub proof fn failures_shut_out_the_other_side()
    ensures
        spec_failed(PacketSide::Serverbound).len() == 3,
        spec_failed(PacketSide::Serverbound)[0] == Step::ShutdownServer,
        spec_failed(PacketSide::Serverbound)[1] == Step::LogError,
        spec_failed(PacketSide::Serverbound)[2] == Step::FailConnection,
        spec_failed(PacketSide::Clientbound).len() == 2,
        spec_failed(PacketSide::Clientbound)[0] == Step::ShutdownClient,
        spec_failed(PacketSide::Clientbound)[1] == Step::FailError,
{
}

/// For a client that connects the listener reports, connects to the server and
/// starts a task. On any message, and where none can come any more, it aborts the
/// tasks and ends.
pub proof fn the_listener_serves_until_it_is_stopped(event: ListenerEvent)
    ensures
        event is Accepted ==> {
            &&& spec_listener(event).len() == 3
            &&& spec_listener(event)[0] == ListenerStep::LogConnected
            &&& spec_listener(event)[1] == ListenerStep::ConnectServer
            &&& spec_listener(event)[2] == ListenerStep::SpawnSession
        },
        event is Message || event is MessagesClosed ==> {
            &&& spec_listener(event).len() == 2
            &&& spec_listener(event)[0] == ListenerStep::AbortSessions
            &&& spec_listener(event)[1] == ListenerStep::Finish
        },
{
}

/// When one direction has ended, the other, and it alone, is aborted and then
/// waited for.
pub proof fn the_other_direction_is_ended_too(side: PacketSide)
    ensures
        other_side(side) != side,
        spec_ended(side).len() == 2,
        match spec_ended(side)[0] {
            EndStep::Abort(other) => other != side,
            _ => false,
        },
        match spec_ended(side)[1] {
            EndStep::Await(other) => other != side,
            _ => false,
        },
{
}

/// Where the first direction was run to its end, its result is what the connection
/// ends with, after the capture, if there is one, has ended with the threshold in
/// force. Where it was not, that is the error, and the capture is not ended.
pub proof fn captures_end_with_the_last_threshold(
    ran_to_end: bool,
    capturing: bool,
    session: Session,
)
    ensures
        ({
            let steps = spec_finish(ran_to_end, capturing, session);
            &&& !ran_to_end ==> steps.len() == 1 && steps[0] == EndStep::FailTask
            &&& ran_to_end ==> steps.last() == EndStep::Finish
            &&& ran_to_end && !capturing ==> steps.len() == 1
            &&& ran_to_end && capturing ==> {
                &&& steps.len() == 2
                &&& steps[0] == EndStep::FinishCapture(session.threshold)
            }
        }),
{
}

/// The state changes by what sets it, the threshold by what sets it, and nothing by
/// anything else.
pub proof fn steps_change_what_they_set(session: Session, steps: Seq<Step>, step: Step)
    ensures
        after_steps(session, Seq::empty()) == session,
        after_steps(session, steps.push(step)).state == (match step {
            Step::SetState(state) => state,
            _ => after_steps(session, steps).state,
        }),
        after_steps(session, steps.push(step)).threshold == (match step {
            Step::SetThreshold(threshold) => threshold,
            _ => after_steps(session, steps).threshold,
        }),
{
    assert(steps.push(step).drop_last() =~= steps);
}

/// Packets are handled one after the other, each as the connection then stands; the
/// state follows what the client sends, the threshold what the server does.
pub proof fn packets_are_handled_in_turn(session: Session, packets: Seq<Handled>, packet: Handled)
    ensures
        after_packets(session, Seq::empty()) == session,
        ({
            let before = after_packets(session, packets);
            let after = after_packets(session, packets.push(packet));
            &&& after == after_steps(before, all_steps(before, packet))
            &&& after.state != before.state ==> (packet matches Handled::FromClient(p)
                && next_state(before.state, p) == Some(after.state))
            &&& after.threshold != before.threshold ==> {
                &&& before.state == PacketState::Login
                &&& packet == Handled::FromServer(
                    ClientboundPacket::LoginCompression(after.threshold.0),
                )
            }
        }),
{
    assert(packets.push(packet).drop_last() =~= packets);
    let before = after_packets(session, packets);
    every_packet_is_handled_once(before, packet);
    match packet {
        Handled::FromClient(p) => {
            lemma_joined_steps(
                before,
                spec_received(PacketSide::Serverbound, before),
                spec_serverbound(before, p),
            );
            client_packets_are_forwarded(before, p);
        },
        Handled::FromServer(p) => {
            lemma_joined_steps(
                before,
                spec_received(PacketSide::Clientbound, before),
                spec_clientbound(before, p),
            );
            server_packets_are_forwarded_or_refused(before, p);
            compression_is_set_at_login(before, p);
        },
    }
}

/// Steps that follow others begin where these ended.
proof fn lemma_joined_steps(session: Session, first: Seq<Step>, more: Seq<Step>)
    ensures
        after_steps(session, first + more) == after_steps(after_steps(session, first), more),
    decreases more.len(),
{
    if more.len() == 0 {
        assert(first + more =~= first);
    } else {
        assert((first + more).drop_last() =~= first + more.drop_last());
        lemma_joined_steps(session, first, more.drop_last());
    }
}

/// A packet with another id than that of a type is never found to be of that type;
/// one with the same id is found to be just where reading gives a packet, if reading
/// gives the same whenever it is done.
pub proof fn packets_are_found_by_id_and_body<P: Packet + Decode>(
    id: i32,
    body: &Vec<u8>,
    found: bool,
    read: Result<P, String>,
)
    requires
        tells::<P>(id, body, found),
        forall|r: Result<P, String>|
            #![trigger call_ensures(P::decode, (body,), r)]
            call_ensures(P::decode, (body,), r) ==> r == read,
    ensures
        found <==> id == P::ID && read is Ok,
{
}

/// What a client means to do is what the packet says that was read.
pub proof fn intents_are_those_of_the_packet<I: Decode + Intention>(
    body: &Vec<u8>,
    packet: I,
    intent: HandShakeIntent,
)
    ensures
        has_intent::<I>(body, packet, intent) <==> call_ensures(I::decode, (body,), Ok(packet))
            && call_ensures(I::intent, (&packet,), intent),
{
}

/// The threshold that is set is the one that the packet says that was read.
pub proof fn thresholds_are_those_of_the_packet<C: Decode + LoginCompression>(
    body: &Vec<u8>,
    packet: C,
    threshold: i32,
)
    ensures
        sets_threshold::<C>(body, packet, threshold) <==> call_ensures(
            C::decode,
            (body,),
            Ok(packet),
        ) && call_ensures(C::threshold, (&packet,), threshold),
{
}

} // verus!
