//! What the proxy does with the packets that it is handed.

use vstd::prelude::*;

use crate::packet::{CompressionThreshold, Packet, PacketSide, PacketState};

verus! {

/// Messages to the running proxy.
#[derive(Copy, Clone, Debug, PartialEq, Eq, Structural)]
pub enum ProxyMessage {
    Stop,
}

/// Errors of `anyhow`, which are handed on as they are.
#[verifier::external_type_specification]
#[verifier::external_body]
pub struct ExError(anyhow::Error);

/// Paths of `std`, which are handed on as they are.
#[verifier::external_type_specification]
#[verifier::external_body]
pub struct ExPathBuf(std::path::PathBuf);

/// `PathBuf::clone` of `std` gives the same path again.
pub assume_specification[ <std::path::PathBuf as Clone>::clone ](
    path: &std::path::PathBuf,
) -> (r: std::path::PathBuf)
    ensures
        r == *path,
;

/// Why a client was disconnected.
#[derive(Debug)]
pub enum DisconnectionReason {
    /// The server runs in online mode, which the proxy cannot read.
    OnlineModeRequired,
    /// The connection failed.
    Error(anyhow::Error),
}

/// Where captures are put.
#[derive(Clone, Debug)]
pub struct CaptureOptions {
    pub output_dir: std::path::PathBuf,
}

/// The text that a client is disconnected with where the server runs in online
/// mode.
pub const ONLINE_MODE_TEXT: &'static str =
    "This server is running in online mode, which is unsupported by the Packet Inspector.";

/// What the listener of the proxy hears.
#[derive(Copy, Clone, Debug, PartialEq, Eq, Structural)]
pub enum ListenerEvent {
    /// A client has connected.
    Accepted,
    /// A message came in.
    Message(ProxyMessage),
    /// There will be no more messages.
    MessagesClosed,
}

/// Something that the listener of the proxy does.
#[derive(Copy, Clone, Debug, PartialEq, Eq, Structural)]
pub enum ListenerStep {
    /// Report that the client has connected.
    LogConnected,
    /// Connect to the server for the client.
    ConnectServer,
    /// Serve the client by a task of its own.
    SpawnSession,
    /// Abort the tasks of all clients.
    AbortSessions,
    /// End without an error.
    Finish,
}

/// What the listener does on an event: for each client that connects it reports,
/// connects to the server and starts a task, and where it is told to stop, or
/// nobody is left to tell it, it aborts all tasks and ends.
pub open spec fn spec_listener(event: ListenerEvent) -> Seq<ListenerStep> {
    match event {
        ListenerEvent::Accepted => seq![
            ListenerStep::LogConnected,
            ListenerStep::ConnectServer,
            ListenerStep::SpawnSession,
        ],
        _ => seq![ListenerStep::AbortSessions, ListenerStep::Finish],
    }
}

/// What the listener does on an event.
pub fn listener_steps(event: ListenerEvent) -> (r: Vec<ListenerStep>)
    ensures
        r@ == spec_listener(event),
{
    let mut steps: Vec<ListenerStep> = Vec::new();
    match event {
        ListenerEvent::Accepted => {
            steps.push(ListenerStep::LogConnected);
            steps.push(ListenerStep::ConnectServer);
            steps.push(ListenerStep::SpawnSession);
        },
        ListenerEvent::Message(ProxyMessage::Stop) | ListenerEvent::MessagesClosed => {
            steps.push(ListenerStep::AbortSessions);
            steps.push(ListenerStep::Finish);
        },
    }
    proof {
        assert(steps@ =~= spec_listener(event));
    }
    steps
}

/// Something that is done when a direction of a connection has ended.
#[derive(Copy, Clone, Debug, PartialEq, Eq, Structural)]
pub enum EndStep {
    /// Abort the direction for this side.
    Abort(PacketSide),
    /// Wait until the direction for this side has ended.
    Await(PacketSide),
    /// End the capture with this threshold, and report where that fails.
    FinishCapture(CompressionThreshold),
    /// End with why the direction could not be run to its end.
    FailTask,
    /// End as the direction did that ended first.
    Finish,
}

/// The other side.
pub open spec fn other_side(side: PacketSide) -> PacketSide {
    match side {
        PacketSide::Clientbound => PacketSide::Serverbound,
        PacketSide::Serverbound => PacketSide::Clientbound,
    }
}

/// What is done first when the direction for `side` has ended: the other one is
/// aborted and waited for.
pub open spec fn spec_ended(side: PacketSide) -> Seq<EndStep> {
    seq![EndStep::Abort(other_side(side)), EndStep::Await(other_side(side))]
}

/// What is done first when the direction for `side` has ended.
pub fn ended_steps(side: PacketSide) -> (r: Vec<EndStep>)
    ensures
        r@ == spec_ended(side),
{
    let other = match side {
        PacketSide::Clientbound => PacketSide::Serverbound,
        PacketSide::Serverbound => PacketSide::Clientbound,
    };
    let mut steps: Vec<EndStep> = Vec::new();
    steps.push(EndStep::Abort(other));
    steps.push(EndStep::Await(other));
    proof {
        assert(steps@ =~= spec_ended(side));
    }
    steps
}

/// What is done once no direction runs any more. A capture is ended with the
/// threshold that is then in force. Where the first direction was not run to its
/// end, but its task broke down, that comes before all else.
pub open spec fn spec_finish(ran_to_end: bool, capturing: bool, session: Session) -> Seq<EndStep> {
    if !ran_to_end {
        seq![EndStep::FailTask]
    } else if capturing {
        seq![EndStep::FinishCapture(session.threshold), EndStep::Finish]
    } else {
        seq![EndStep::Finish]
    }
}

/// What is done once no direction runs any more.
pub fn finish_steps(ran_to_end: bool, capturing: bool, session: Session) -> (r: Vec<EndStep>)
    ensures
        r@ == spec_finish(ran_to_end, capturing, session),
{
    let mut steps: Vec<EndStep> = Vec::new();
    if !ran_to_end {
        steps.push(EndStep::FailTask);
    } else {
        if capturing {
            steps.push(EndStep::FinishCapture(session.threshold));
        }
        steps.push(EndStep::Finish);
    }
    proof {
        assert(steps@ =~= spec_finish(ran_to_end, capturing, session));
    }
    steps
}

/// How a connection stands: what state its packets belong to and how they are
/// compressed.
#[derive(Copy, Clone, Debug, PartialEq, Eq, Structural)]
pub struct Session {
    pub state: PacketState,
    pub threshold: CompressionThreshold,
}

impl Session {
    /// A connection that has just begun.
    pub fn new() -> (r: Session)
        ensures
            r.state == PacketState::Handshake,
            r.threshold == CompressionThreshold::spec_default(),
    {
        Session { state: PacketState::Handshake, threshold: CompressionThreshold::default() }
    }
}

/// What a client means to do.
#[derive(Copy, Clone, Debug, PartialEq, Eq, Structural)]
pub enum HandShakeIntent {
    Status,
    Login,
    Transfer,
}

/// A packet from the client, as far as it matters to the proxy.
#[derive(Copy, Clone, Debug, PartialEq, Eq, Structural)]
pub enum ServerboundPacket {
    Intention(HandShakeIntent),
    LoginAcknowledged,
    ConfigurationAcknowledged,
    FinishConfiguration,
    Other,
}

/// A packet from the server, as far as it matters to the proxy.
#[derive(Copy, Clone, Debug, PartialEq, Eq, Structural)]
pub enum ClientboundPacket {
    /// A request for encryption.
    Hello,
    LoginCompression(i32),
    Other,
}

/// Something that the proxy does for a packet.
#[derive(Copy, Clone, Debug, PartialEq, Eq, Structural)]
pub enum Step {
    /// Capture the packet, if captures are taken.
    Capture { side: PacketSide, state: PacketState, threshold: CompressionThreshold },
    /// Show the packet to those who watch.
    Inspect { side: PacketSide, state: PacketState, threshold: CompressionThreshold },
    /// From now on packets belong to this state.
    SetState(PacketState),
    /// From now on packets are compressed like this.
    SetThreshold(CompressionThreshold),
    /// Send the bytes of the packet on as they came.
    Forward,
    /// Note in the capture, if there is one, that the server runs in online mode.
    MarkOnlineMode,
    /// Send the client `ONLINE_MODE_TEXT`, in red, as the reason why it is
    /// disconnected.
    SendDisconnect,
    /// Shut down what is written to the client.
    ShutdownClient,
    /// Shut down what is written to the server.
    ShutdownServer,
    /// Report that the client was disconnected because of online mode.
    LogOnlineMode,
    /// Report that the client was disconnected because of the error.
    LogError,
    /// End with "server is running in online mode".
    FailOnlineMode,
    /// End with "connection error".
    FailConnection,
    /// End with the error.
    FailError,
}

/// What is first done with every packet, on either side: it is captured and
/// shown, with how the connection stood when it came.
pub open spec fn spec_received(side: PacketSide, session: Session) -> Seq<Step> {
    seq![
        Step::Capture { side, state: session.state, threshold: session.threshold },
        Step::Inspect { side, state: session.state, threshold: session.threshold },
    ]
}

/// What is first done with every packet.
pub fn received_steps(side: PacketSide, session: Session) -> (r: Vec<Step>)
    ensures
        r@ == spec_received(side, session),
{
    let mut steps: Vec<Step> = Vec::new();
    steps.push(Step::Capture { side, state: session.state, threshold: session.threshold });
    steps.push(Step::Inspect { side, state: session.state, threshold: session.threshold });
    proof {
        assert(steps@ =~= spec_received(side, session));
    }
    steps
}

/// The state that a packet from the client leads to.
pub open spec fn next_state(state: PacketState, packet: ServerboundPacket) -> Option<PacketState> {
    match (state, packet) {
        (
            PacketState::Handshake,
            ServerboundPacket::Intention(HandShakeIntent::Status),
        ) => Some(PacketState::Status),
        (
            PacketState::Handshake,
            ServerboundPacket::Intention(HandShakeIntent::Login),
        ) => Some(PacketState::Login),
        (PacketState::Login, ServerboundPacket::LoginAcknowledged) => Some(
            PacketState::Configuration,
        ),
        (PacketState::Play, ServerboundPacket::ConfigurationAcknowledged) => Some(
            PacketState::Configuration,
        ),
        (PacketState::Configuration, ServerboundPacket::FinishConfiguration) => Some(
            PacketState::Play,
        ),
        _ => None,
    }
}

/// Whether a packet asks for a transfer, which is not supported.
pub open spec fn asks_transfer(state: PacketState, packet: ServerboundPacket) -> bool {
    state == PacketState::Handshake && packet == ServerboundPacket::Intention(
        HandShakeIntent::Transfer,
    )
}

/// What is then done with a packet from the client: the state may change, and
/// the packet goes to the server.
pub open spec fn spec_serverbound(session: Session, packet: ServerboundPacket) -> Seq<Step> {
    match next_state(session.state, packet) {
        Some(state) => seq![Step::SetState(state), Step::Forward],
        None => seq![Step::Forward],
    }
}

/// What is done with a packet from the client after it was captured and shown.
pub fn serverbound_steps(session: Session, packet: ServerboundPacket) -> (r: Vec<Step>)
    requires
        !asks_transfer(session.state, packet),
    ensures
        r@ == spec_serverbound(session, packet),
{
    let mut steps: Vec<Step> = Vec::new();
    match session.state {
        PacketState::Handshake => {
            if let ServerboundPacket::Intention(intent) = packet {
                if intent == HandShakeIntent::Status {
                    steps.push(Step::SetState(PacketState::Status));
                } else {
                    steps.push(Step::SetState(PacketState::Login));
                }
            }
        },
        PacketState::Login => {
            if packet == ServerboundPacket::LoginAcknowledged {
                steps.push(Step::SetState(PacketState::Configuration));
            }
        },
        PacketState::Play => {
            if packet == ServerboundPacket::ConfigurationAcknowledged {
                steps.push(Step::SetState(PacketState::Configuration));
            }
        },
        PacketState::Configuration => {
            if packet == ServerboundPacket::FinishConfiguration {
                steps.push(Step::SetState(PacketState::Play));
            }
        },
        PacketState::Status => {},
    }
    steps.push(Step::Forward);
    proof {
        assert(steps@ =~= spec_serverbound(session, packet));
    }
    steps
}

/// What is then done with a packet from the server. A request for encryption
/// ends the connection and never reaches the client. Any other packet goes to
/// the client, and one that sets the compression takes effect after it.
pub open spec fn spec_clientbound(session: Session, packet: ClientboundPacket) -> Seq<Step> {
    if session.state == PacketState::Login && packet == ClientboundPacket::Hello {
        seq![
            Step::MarkOnlineMode,
            Step::SendDisconnect,
            Step::ShutdownClient,
            Step::LogOnlineMode,
            Step::FailOnlineMode,
        ]
    } else {
        match packet {
            ClientboundPacket::LoginCompression(threshold) if session.state
                == PacketState::Login => seq![
                Step::Forward,
                Step::SetThreshold(CompressionThreshold(threshold)),
            ],
            _ => seq![Step::Forward],
        }
    }
}

/// What is done with a packet from the server after it was captured and shown.
pub fn clientbound_steps(session: Session, packet: ClientboundPacket) -> (r: Vec<Step>)
    ensures
        r@ == spec_clientbound(session, packet),
{
    let mut steps: Vec<Step> = Vec::new();
    if session.state == PacketState::Login && packet == ClientboundPacket::Hello {
        steps.push(Step::MarkOnlineMode);
        steps.push(Step::SendDisconnect);
        steps.push(Step::ShutdownClient);
        steps.push(Step::LogOnlineMode);
        steps.push(Step::FailOnlineMode);
    } else {
        steps.push(Step::Forward);
        if session.state == PacketState::Login {
            if let ClientboundPacket::LoginCompression(threshold) = packet {
                steps.push(Step::SetThreshold(CompressionThreshold(threshold)));
            }
        }
    }
    proof {
        assert(steps@ =~= spec_clientbound(session, packet));
    }
    steps
}

/// What is done where no packet can be read: the other side is shut down, and a
/// client that is lost is reported.
pub open spec fn spec_failed(side: PacketSide) -> Seq<Step> {
    match side {
        PacketSide::Serverbound => seq![Step::ShutdownServer, Step::LogError, Step::FailConnection],
        PacketSide::Clientbound => seq![Step::ShutdownClient, Step::FailError],
    }
}

/// What is done where no packet for `side` can be read.
pub fn failed_steps(side: PacketSide) -> (r: Vec<Step>)
    ensures
        r@ == spec_failed(side),
{
    let mut steps: Vec<Step> = Vec::new();
    match side {
        PacketSide::Serverbound => {
            steps.push(Step::ShutdownServer);
            steps.push(Step::LogError);
            steps.push(Step::FailConnection);
        },
        PacketSide::Clientbound => {
            steps.push(Step::ShutdownClient);
            steps.push(Step::FailError);
        },
    }
    proof {
        assert(steps@ =~= spec_failed(side));
    }
    steps
}

/// What can be read from the body of a packet.
pub trait Decode: Sized {
    /// The packet with this body, or why there is none.
    fn decode(body: &Vec<u8>) -> Result<Self, String>;
}

/// Reads a packet as one of type `P`: `None` if it has another id or its body
/// cannot be read as such.
pub fn extrapolate_packet<P: Packet + Decode>(id: i32, body: &Vec<u8>) -> (r: Option<P>)
    ensures
        id != P::ID ==> r is None,
        id == P::ID ==> match r {
            Some(packet) => call_ensures(P::decode, (body,), Ok(packet)),
            None => exists|e: String| call_ensures(P::decode, (body,), Err(e)),
        },
{
    if id != P::ID {
        return None;
    }
    match P::decode(body) {
        Ok(packet) => Some(packet),
        Err(e) => {
            proof {
                assert(call_ensures(P::decode, (body,), Err(e)));
            }
            None
        },
    }
}

/// What says what a client means to do.
pub trait Intention {
    fn intent(&self) -> HandShakeIntent;
}

/// What says how packets are compressed.
pub trait LoginCompression {
    fn threshold(&self) -> i32;
}

/// Whether a packet is found to be of type `P` just where it has the id of that
/// type and can be read as such.
pub open spec fn tells<P: Packet + Decode>(id: i32, body: &Vec<u8>, found: bool) -> bool {
    if id != P::ID {
        !found
    } else if found {
        exists|packet: P| call_ensures(P::decode, (body,), Ok(packet))
    } else {
        exists|e: String| call_ensures(P::decode, (body,), Err(e))
    }
}

/// Whether `body` is read as `packet`, which tells this intent.
pub open spec fn has_intent<I: Decode + Intention>(
    body: &Vec<u8>,
    packet: I,
    intent: HandShakeIntent,
) -> bool {
    &&& call_ensures(I::decode, (body,), Ok(packet))
    &&& call_ensures(I::intent, (&packet,), intent)
}

/// Whether `body` is read as `packet`, which sets this threshold.
pub open spec fn sets_threshold<C: Decode + LoginCompression>(
    body: &Vec<u8>,
    packet: C,
    threshold: i32,
) -> bool {
    &&& call_ensures(C::decode, (body,), Ok(packet))
    &&& call_ensures(C::threshold, (&packet,), threshold)
}

/// What a packet from the client is, given the types that it can have: of these,
/// one is looked for in each state but that of a status request.
pub fn read_serverbound<I, L, C, F>(state: PacketState, id: i32, body: &Vec<u8>) -> (r:
    ServerboundPacket) where
    I: Packet + Decode + Intention,
    L: Packet + Decode,
    C: Packet + Decode,
    F: Packet + Decode,

    ensures
        match state {
            PacketState::Handshake => {
                &&& r is Intention || r is Other
                &&& tells::<I>(id, body, r is Intention)
                &&& r matches ServerboundPacket::Intention(intent) ==> exists|packet: I|
                    #[trigger] has_intent::<I>(body, packet, intent)
            },
            PacketState::Status => r is Other,
            PacketState::Login => {
                &&& r is LoginAcknowledged || r is Other
                &&& tells::<L>(id, body, r is LoginAcknowledged)
            },
            PacketState::Play => {
                &&& r is ConfigurationAcknowledged || r is Other
                &&& tells::<C>(id, body, r is ConfigurationAcknowledged)
            },
            PacketState::Configuration => {
                &&& r is FinishConfiguration || r is Other
                &&& tells::<F>(id, body, r is FinishConfiguration)
            },
        },
{
    match state {
        PacketState::Handshake => match extrapolate_packet::<I>(id, body) {
            Some(packet) => {
                let intent = packet.intent();
                proof {
                    assert(has_intent::<I>(body, packet, intent));
                }
                ServerboundPacket::Intention(intent)
            },
            None => ServerboundPacket::Other,
        },
        PacketState::Status => ServerboundPacket::Other,
        PacketState::Login => match extrapolate_packet::<L>(id, body) {
            Some(_) => ServerboundPacket::LoginAcknowledged,
            None => ServerboundPacket::Other,
        },
        PacketState::Play => match extrapolate_packet::<C>(id, body) {
            Some(_) => ServerboundPacket::ConfigurationAcknowledged,
            None => ServerboundPacket::Other,
        },
        PacketState::Configuration => match extrapolate_packet::<F>(id, body) {
            Some(_) => ServerboundPacket::FinishConfiguration,
            None => ServerboundPacket::Other,
        },
    }
}

/// What a packet from the server is, given the types that it can have. They are
/// looked for at login only, a request for encryption first.
pub fn read_clientbound<H, C>(state: PacketState, id: i32, body: &Vec<u8>) -> (r:
    ClientboundPacket) where H: Packet + Decode, C: Packet + Decode + LoginCompression
    ensures
        state != PacketState::Login ==> r is Other,
        state == PacketState::Login ==> tells::<H>(id, body, r is Hello),
        state == PacketState::Login && !(r is Hello) ==> tells::<C>(
            id,
            body,
            r is LoginCompression,
        ),
        r is LoginCompression ==> exists|packet: C| #[trigger]
            sets_threshold::<C>(body, packet, r->LoginCompression_0),
{
    if state != PacketState::Login {
        return ClientboundPacket::Other;
    }
    if let Some(_) = extrapolate_packet::<H>(id, body) {
        return ClientboundPacket::Hello;
    }
    match extrapolate_packet::<C>(id, body) {
        Some(packet) => {
            let threshold: i32 = packet.threshold();
            let found = ClientboundPacket::LoginCompression(threshold);
            proof {
                assert(sets_threshold::<C>(body, packet, found->LoginCompression_0));
            }
            found
        },
        None => ClientboundPacket::Other,
    }
}

impl Step {
    /// How the connection stands after the step.
    pub open spec fn changes(self, session: Session) -> Session {
        match self {
            Step::SetState(state) => Session { state, ..session },
            Step::SetThreshold(threshold) => Session { threshold, ..session },
            _ => session,
        }
    }
}

/// How a connection stands after steps.
pub open spec fn after_steps(session: Session, steps: Seq<Step>) -> Session
    decreases steps.len(),
{
    if steps.len() == 0 {
        session
    } else {
        steps.last().changes(after_steps(session, steps.drop_last()))
    }
}

/// Whatever the client sends goes to the server, once, and after the change of
/// state that it brings. The client never changes the compression.
pub proof fn client_packets_are_forwarded(session: Session, packet: ServerboundPacket)
    ensures
        spec_serverbound(session, packet).last() == Step::Forward,
        spec_serverbound(session, packet).drop_last().all(|s: Step| s is SetState),
        after_steps(session, spec_serverbound(session, packet)) == (Session {
            state: match next_state(session.state, packet) {
                Some(state) => state,
                None => session.state,
            },
            ..session
        }),
{
    reveal_with_fuel(after_steps, 3);
}

/// What the server sends goes to the client, once and first of all, unless it is
/// a request for encryption: then the client gets nothing of it and the
/// connection ends. The server never changes the state.
pub proof fn server_packets_are_forwarded_or_refused(session: Session, packet: ClientboundPacket)
    ensures
        ({
            let steps = spec_clientbound(session, packet);
            let refused = session.state == PacketState::Login && packet == ClientboundPacket::Hello;
            &&& refused ==> steps.last() == Step::FailOnlineMode && !steps.contains(Step::Forward)
            &&& !refused ==> steps[0] == Step::Forward && steps.skip(1).all(
                |s: Step| s is SetThreshold,
            )
            &&& after_steps(session, steps).state == session.state
        }),
{
    reveal_with_fuel(after_steps, 6);
    let steps = spec_clientbound(session, packet);
    if session.state == PacketState::Login && packet == ClientboundPacket::Hello {
        assert forall|i: int| 0 <= i < steps.len() implies steps[i] != Step::Forward by {
            assert(i == 0 || i == 1 || i == 2 || i == 3 || i == 4);
        }
    }
}

/// The only ways between states: from the handshake to status or login, from
/// there to configuration, and between configuration and play.
pub proof fn states_change_in_order(state: PacketState, packet: ServerboundPacket)
    requires
        next_state(state, packet) is Some,
    ensures
        match next_state(state, packet)->0 {
            PacketState::Handshake => false,
            PacketState::Status => state == PacketState::Handshake,
            PacketState::Login => state == PacketState::Handshake,
            PacketState::Configuration => state == PacketState::Login || state
                == PacketState::Play,
            PacketState::Play => state == PacketState::Configuration,
        },
{
}

/// The compression changes just where the server sets it at login.
pub proof fn compression_is_set_at_login(session: Session, packet: ClientboundPacket)
    ensures
        after_steps(session, spec_clientbound(session, packet)).threshold == (match packet {
            ClientboundPacket::LoginCompression(t) if session.state
                == PacketState::Login => CompressionThreshold(t),
            _ => session.threshold,
        }),
{
    reveal_with_fuel(after_steps, 6);
}

/// A packet that was handled, by where it came from.
pub ghost enum Handled {
    FromClient(ServerboundPacket),
    FromServer(ClientboundPacket),
}

/// How a connection stands after a packet was handled.
pub open spec fn after_packet(session: Session, packet: Handled) -> Session {
    match packet {
        Handled::FromClient(p) => after_steps(session, spec_serverbound(session, p)),
        Handled::FromServer(p) => after_steps(session, spec_clientbound(session, p)),
    }
}

/// How a connection stands after packets were handled one by one.
pub open spec fn after_packets(session: Session, packets: Seq<Handled>) -> Session
    decreases packets.len(),
{
    if packets.len() == 0 {
        session
    } else {
        after_packet(after_packets(session, packets.drop_last()), packets.last())
    }
}

/// What one packet does to a connection.
proof fn lemma_after_packet(session: Session, packet: Handled)
    ensures
        match packet {
            Handled::FromClient(p) => {
                &&& after_packet(session, packet).threshold == session.threshold
                &&& after_packet(session, packet).state == (match next_state(session.state, p) {
                    Some(state) => state,
                    None => session.state,
                })
            },
            Handled::FromServer(p) => {
                &&& after_packet(session, packet).state == session.state
                &&& session.state != PacketState::Login ==> after_packet(session, packet).threshold
                    == session.threshold
            },
        },
{
    match packet {
        Handled::FromClient(p) => client_packets_are_forwarded(session, p),
        Handled::FromServer(p) => {
            server_packets_are_forwarded_or_refused(session, p);
            compression_is_set_at_login(session, p);
        },
    }
}

/// Once login is over, a connection stays in configuration and play, and its
/// compression stays as it is.
pub proof fn login_is_over_for_good(session: Session, packets: Seq<Handled>)
    requires
        session.state == PacketState::Configuration || session.state == PacketState::Play,
    ensures
        after_packets(session, packets).threshold == session.threshold,
        after_packets(session, packets).state == PacketState::Configuration || after_packets(
            session,
            packets,
        ).state == PacketState::Play,
    decreases packets.len(),
{
    if packets.len() > 0 {
        let before = after_packets(session, packets.drop_last());
        login_is_over_for_good(session, packets.drop_last());
        lemma_after_packet(before, packets.last());
    }
}

/// A connection that asks for the status does nothing else.
pub proof fn status_requests_stay(session: Session, packets: Seq<Handled>)
    requires
        session.state == PacketState::Status,
    ensures
        after_packets(session, packets) == session,
    decreases packets.len(),
{
    if packets.len() > 0 {
        let before = after_packets(session, packets.drop_last());
        status_requests_stay(session, packets.drop_last());
        lemma_after_packet(before, packets.last());
    }
}

} // verus!
