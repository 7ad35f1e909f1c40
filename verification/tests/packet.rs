use valence::inspector::proxy::{
    extrapolate_packet, read_clientbound, read_serverbound, ClientboundPacket, Decode,
    HandShakeIntent, Intention, LoginCompression, ServerboundPacket,
};
use valence::packet::{
    encode_id, packet_bytes, CompressionThreshold, Encode, Packet, PacketSide, PacketState,
    MAX_PACKET_SIZE, MINECRAFT_VERSION, PROTOCOL_VERSION,
};

#[derive(Debug)]
#[allow(dead_code)]
struct RegularStruct {
    foo: i32,
    bar: bool,
    baz: f64,
}

impl Packet for RegularStruct {
    const ID: i32 = 1;
    const NAME: &'static str = "RegularStruct";
    const SIDE: PacketSide = PacketSide::Clientbound;
    const STATE: PacketState = PacketState::Play;
}

#[derive(Debug)]
struct UnitStruct;

impl Packet for UnitStruct {
    const ID: i32 = 2;
    const NAME: &'static str = "UnitStruct";
    const SIDE: PacketSide = PacketSide::Clientbound;
    const STATE: PacketState = PacketState::Play;
}

impl Encode for UnitStruct {
    fn encode(&self) -> (Vec<u8>, Result<(), String>) {
        (vec![], Ok(()))
    }
}

#[derive(Debug)]
#[allow(dead_code)]
struct StructWithGenerics<'z, T = ()> {
    foo: &'z str,
    bar: T,
}

impl<T: std::fmt::Debug> Packet for StructWithGenerics<'_, T> {
    const ID: i32 = 5;
    const NAME: &'static str = "StructWithGenerics";
    const SIDE: PacketSide = PacketSide::Clientbound;
    const STATE: PacketState = PacketState::Play;
}

#[derive(Debug, PartialEq)]
struct OneByte(u8);

impl Packet for OneByte {
    const ID: i32 = 300;
    const NAME: &'static str = "OneByte";
    const SIDE: PacketSide = PacketSide::Serverbound;
    const STATE: PacketState = PacketState::Login;
}

impl Encode for OneByte {
    fn encode(&self) -> (Vec<u8>, Result<(), String>) {
        if self.0 == 0 {
            (vec![99], Err("zero".to_owned()))
        } else {
            (vec![self.0], Ok(()))
        }
    }
}

impl Decode for OneByte {
    fn decode(body: &Vec<u8>) -> Result<Self, String> {
        match body.first() {
            Some(b) => Ok(OneByte(*b)),
            None => Err("empty".to_owned()),
        }
    }
}

impl Intention for OneByte {
    fn intent(&self) -> HandShakeIntent {
        match self.0 {
            1 => HandShakeIntent::Status,
            2 => HandShakeIntent::Login,
            _ => HandShakeIntent::Transfer,
        }
    }
}

impl LoginCompression for OneByte {
    fn threshold(&self) -> i32 {
        i32::from(self.0)
    }
}

/// A packet without a body.
#[derive(Debug)]
struct Empty<const N: i32>;

impl<const N: i32> Packet for Empty<N> {
    const ID: i32 = N;
    const NAME: &'static str = "Empty";
    const SIDE: PacketSide = PacketSide::Serverbound;
    const STATE: PacketState = PacketState::Login;
}

impl<const N: i32> Decode for Empty<N> {
    fn decode(body: &Vec<u8>) -> Result<Self, String> {
        if body.is_empty() {
            Ok(Empty)
        } else {
            Err("not empty".to_owned())
        }
    }
}

#[test]
fn client_packets_are_told_by_the_state() {
    let read = |state, id, body: &Vec<u8>| {
        read_serverbound::<OneByte, Empty<3>, Empty<4>, Empty<5>>(state, id, body)
    };
    assert_eq!(
        read(PacketState::Handshake, 300, &vec![1]),
        ServerboundPacket::Intention(HandShakeIntent::Status)
    );
    assert_eq!(
        read(PacketState::Handshake, 300, &vec![2]),
        ServerboundPacket::Intention(HandShakeIntent::Login)
    );
    assert_eq!(
        read(PacketState::Handshake, 300, &vec![]),
        ServerboundPacket::Other
    );
    assert_eq!(
        read(PacketState::Login, 3, &vec![]),
        ServerboundPacket::LoginAcknowledged
    );
    assert_eq!(
        read(PacketState::Login, 3, &vec![0]),
        ServerboundPacket::Other
    );
    assert_eq!(
        read(PacketState::Play, 4, &vec![]),
        ServerboundPacket::ConfigurationAcknowledged
    );
    assert_eq!(
        read(PacketState::Configuration, 5, &vec![]),
        ServerboundPacket::FinishConfiguration
    );
    assert_eq!(
        read(PacketState::Configuration, 4, &vec![]),
        ServerboundPacket::Other
    );
    assert_eq!(
        read(PacketState::Status, 300, &vec![1]),
        ServerboundPacket::Other
    );
}

#[test]
fn server_packets_are_told_at_login() {
    let read =
        |state, id, body: &Vec<u8>| read_clientbound::<Empty<1>, OneByte>(state, id, body);
    assert_eq!(
        read(PacketState::Login, 1, &vec![]),
        ClientboundPacket::Hello
    );
    assert_eq!(
        read(PacketState::Login, 300, &vec![64]),
        ClientboundPacket::LoginCompression(64)
    );
    assert_eq!(
        read(PacketState::Login, 1, &vec![7]),
        ClientboundPacket::Other
    );
    assert_eq!(
        read(PacketState::Play, 300, &vec![64]),
        ClientboundPacket::Other
    );
}

#[test]
fn packet_name() {
    assert_eq!(RegularStruct::NAME, "RegularStruct");
    assert_eq!(UnitStruct::NAME, "UnitStruct");
    assert_eq!(StructWithGenerics::<()>::NAME, "StructWithGenerics");
}

#[test]
fn versions() {
    assert_eq!(PROTOCOL_VERSION, 770);
    assert_eq!(MINECRAFT_VERSION, "1.21.5");
    assert_eq!(MAX_PACKET_SIZE, 2097152);
}

#[test]
fn threshold_conversions() {
    assert_eq!(CompressionThreshold::default(), CompressionThreshold(-1));
    assert_eq!(CompressionThreshold::from(256), CompressionThreshold(256));
    assert_eq!(i32::from(CompressionThreshold(64)), 64);
}

#[test]
fn ids_are_variable_length() {
    fn id(id: i32) -> Vec<u8> {
        let mut out = vec![];
        encode_id(id, &mut out);
        out
    }
    assert_eq!(id(0), vec![0]);
    assert_eq!(id(127), vec![0x7f]);
    assert_eq!(id(128), vec![0x80, 0x01]);
    assert_eq!(id(25565), vec![0xdd, 0xc7, 0x01]);
    assert_eq!(id(i32::MAX), vec![0xff, 0xff, 0xff, 0xff, 0x07]);
    assert_eq!(id(-1), vec![0xff, 0xff, 0xff, 0xff, 0x0f]);
    assert_eq!(id(i32::MIN), vec![0x80, 0x80, 0x80, 0x80, 0x08]);
}

#[test]
fn packets_are_told_apart() {
    // A body can look like a part of an id, but never takes its place.
    assert_ne!(packet_bytes(1, &vec![1]), packet_bytes(129, &vec![]));
    assert_eq!(packet_bytes(129, &vec![]), vec![0x81, 0x01]);
    assert_eq!(packet_bytes(1, &vec![1]), vec![0x01, 0x01]);
}

#[test]
fn id_comes_before_the_body() {
    let mut out = vec![9];
    UnitStruct.encode_with_id(&mut out).unwrap();
    OneByte(7).encode_with_id(&mut out).unwrap();
    assert_eq!(out, vec![9, 2, 0xac, 0x02, 7]);
    assert_eq!(packet_bytes(300, &vec![7]), vec![0xac, 0x02, 7]);

    let mut out = vec![];
    assert_eq!(OneByte(0).encode_with_id(&mut out), Err("zero".to_owned()));
    // What was encoded before the failure is there.
    assert_eq!(out, vec![0xac, 0x02, 99]);
}

#[test]
fn packets_are_extrapolated_by_id_and_body() {
    assert_eq!(extrapolate_packet::<OneByte>(300, &vec![5, 6]), Some(OneByte(5)));
    assert_eq!(extrapolate_packet::<OneByte>(301, &vec![5, 6]), None);
    assert_eq!(extrapolate_packet::<OneByte>(300, &vec![]), None);
}
