//! What packets are told apart by, and how they begin.

use vstd::prelude::*;

verus! {

/// The most bytes in a single packet.
pub const MAX_PACKET_SIZE: i32 = 2097152;

/// The protocol version that packets are written for.
pub const PROTOCOL_VERSION: i32 = 770;

/// The name of the game version that packets are written for.
pub const MINECRAFT_VERSION: &'static str = "1.21.5";

/// The inner value of a threshold that compresses nothing.
pub const NO_COMPRESSION: i32 = -1;

/// How large a packet has to be to be compressed.
///
/// A value of zero or more compresses the packets whose encoded length is at
/// least that. A negative value compresses none.
#[derive(Copy, Clone, PartialEq, Eq, PartialOrd, Ord, Hash, Debug, Structural)]
pub struct CompressionThreshold(pub i32);

impl CompressionThreshold {
    /// No compression.
    pub open spec fn spec_default() -> CompressionThreshold {
        CompressionThreshold(NO_COMPRESSION)
    }
}

impl Default for CompressionThreshold {
    /// No compression.
    fn default() -> (r: CompressionThreshold)
        ensures
            r == CompressionThreshold::spec_default(),
    {
        CompressionThreshold(NO_COMPRESSION)
    }
}

impl From<i32> for CompressionThreshold {
    fn from(value: i32) -> (r: CompressionThreshold) {
        CompressionThreshold(value)
    }
}

impl vstd::std_specs::convert::FromSpecImpl<i32> for CompressionThreshold {
    open spec fn obeys_from_spec() -> bool {
        true
    }

    open spec fn from_spec(value: i32) -> CompressionThreshold {
        CompressionThreshold(value)
    }
}

impl From<CompressionThreshold> for i32 {
    fn from(value: CompressionThreshold) -> (r: i32) {
        value.0
    }
}

impl vstd::std_specs::convert::FromSpecImpl<CompressionThreshold> for i32 {
    open spec fn obeys_from_spec() -> bool {
        true
    }

    open spec fn from_spec(value: CompressionThreshold) -> i32 {
        value.0
    }
}

/// The side that a packet is meant for.
#[derive(Copy, Clone, PartialEq, Eq, Hash, Debug, Structural)]
pub enum PacketSide {
    /// From the server to the client.
    Clientbound,
    /// From the client to the server.
    Serverbound,
}

/// The state in which a packet is used.
#[derive(Copy, Clone, PartialEq, Eq, Hash, Debug, Structural)]
pub enum PacketState {
    Handshake,
    Status,
    Login,
    Configuration,
    Play,
}

/// `n` in groups of seven bits, the lowest first, each but the last marked by
/// the top bit of its byte.
pub open spec fn varint_bytes(n: nat) -> Seq<u8>
    decreases n,
{
    if n < 128 {
        seq![n as u8]
    } else {
        seq![(n % 128 + 128) as u8] + varint_bytes(n / 128)
    }
}

/// The bits of `n` as an unsigned number.
pub open spec fn unsigned_32(n: i32) -> nat {
    if n >= 0 {
        n as nat
    } else {
        (n + 0x1_0000_0000) as nat
    }
}

/// The bytes that a packet with this id begins with.
pub open spec fn id_bytes(id: i32) -> Seq<u8> {
    varint_bytes(unsigned_32(id))
}

/// Appends an id.
pub fn encode_id(id: i32, out: &mut Vec<u8>)
    ensures
        final(out)@ == old(out)@ + id_bytes(id),
{
    let mut rest: u64 = if id >= 0 {
        id as u64
    } else {
        (id as i64 + 0x1_0000_0000) as u64
    };
    while rest >= 128
        invariant
            out@ + varint_bytes(rest as nat) == old(out)@ + id_bytes(id),
        decreases rest,
    {
        let ghost before = out@;
        out.push((rest % 128 + 128) as u8);
        proof {
            assert(out@ + varint_bytes((rest / 128) as nat) =~= before + varint_bytes(rest as nat));
        }
        rest = rest / 128;
    }
    let ghost before = out@;
    out.push(rest as u8);
    proof {
        assert(out@ =~= before + varint_bytes(rest as nat));
    }
}

/// A packet as it is sent: its id and then its body.
pub fn packet_bytes(id: i32, body: &Vec<u8>) -> (r: Vec<u8>)
    ensures
        r@ == id_bytes(id) + body@,
{
    let mut out: Vec<u8> = Vec::new();
    encode_id(id, &mut out);
    let mut tail = body.clone();
    out.append(&mut tail);
    proof {
        assert(out@ =~= id_bytes(id) + body@);
    }
    out
}

/// Numbers in groups of seven bits end where they say, so that one cannot be
/// taken for another.
proof fn lemma_varint_prefix(a: nat, b: nat, x: Seq<u8>, y: Seq<u8>)
    requires
        varint_bytes(a) + x == varint_bytes(b) + y,
    ensures
        a == b,
        x == y,
    decreases a,
{
    let s = varint_bytes(a) + x;
    let t = varint_bytes(b) + y;
    assert(s[0] == varint_bytes(a)[0]);
    assert(t[0] == varint_bytes(b)[0]);
    if a < 128 {
        assert(b < 128);
        assert(s.skip(1) =~= x);
        assert(t.skip(1) =~= y);
    } else {
        assert(b >= 128);
        assert(s.skip(1) =~= varint_bytes(a / 128) + x);
        assert(t.skip(1) =~= varint_bytes(b / 128) + y);
        lemma_varint_prefix(a / 128, b / 128, x, y);
    }
}

/// From the bytes of a packet its id and its body are known.
pub proof fn packets_are_told_apart(id: i32, body: Seq<u8>, other_id: i32, other_body: Seq<u8>)
    requires
        id_bytes(id) + body == id_bytes(other_id) + other_body,
    ensures
        id == other_id,
        body == other_body,
{
    lemma_varint_prefix(unsigned_32(id), unsigned_32(other_id), body, other_body);
}

/// What has a body that can be encoded.
pub trait Encode {
    /// The encoded body. Where encoding fails, these are the bytes that were
    /// encoded before, and why there are no more.
    fn encode(&self) -> (Vec<u8>, Result<(), String>);
}

/// Types that are packets.
///
/// An encoded packet begins with its id, which is followed by its body.
/// `Encode` gives the body alone.
pub trait Packet: std::fmt::Debug {
    /// The id that the packet begins with.
    const ID: i32;

    /// The name of the packet.
    const NAME: &'static str;

    /// The side that the packet is meant for.
    const SIDE: PacketSide;

    /// The state in which the packet is used.
    const STATE: PacketState;

    /// Appends the id and then the body. Where encoding the body fails, what was
    /// encoded of it has been appended all the same.
    fn encode_with_id(&self, out: &mut Vec<u8>) -> (r: Result<(), String>) where Self: Encode
        ensures
            exists|body: Vec<u8>|
                {
                    &&& #[trigger] call_ensures(Self::encode, (self,), (body, r))
                    &&& final(out)@ == old(out)@ + id_bytes(Self::ID) + body@
                },
    {
        encode_id(Self::ID, out);
        let (body, r) = self.encode();
        let ghost sent = body;
        let mut body = body;
        out.append(&mut body);
        proof {
            assert(call_ensures(Self::encode, (self,), (sent, r)));
            assert(out@ =~= old(out)@ + id_bytes(Self::ID) + sent@);
        }
        r
    }
}

/// The number that groups of seven bits stand for, the lowest first.
pub open spec fn grouped_value(bytes: Seq<u8>) -> int
    decreases bytes.len(),
{
    if bytes.len() == 0 {
        0
    } else {
        bytes[0] as int % 128 + 128 * grouped_value(bytes.skip(1))
    }
}

/// A number in groups of seven bits has these bits, in the order of their worth.
/// All groups but the last are marked by the top bit, and none is needless.
pub proof fn groups_stand_for_their_number(n: nat)
    ensures
        grouped_value(varint_bytes(n)) == n,
        varint_bytes(n).len() >= 1,
        varint_bytes(n).last() < 128,
        varint_bytes(n).len() > 1 ==> varint_bytes(n).last() > 0,
        forall|i: int|
            0 <= i < varint_bytes(n).len() - 1 ==> #[trigger] varint_bytes(n)[i] >= 128,
    decreases n,
{
    reveal_with_fuel(grouped_value, 2);
    let all = varint_bytes(n);
    if n < 128 {
        assert(all.skip(1) =~= Seq::empty());
    } else {
        let rest = varint_bytes(n / 128);
        groups_stand_for_their_number(n / 128);
        assert(all.skip(1) =~= rest);
        assert(all.last() == rest.last());
        assert forall|i: int| 0 <= i < all.len() - 1 implies #[trigger] all[i] >= 128 by {
            if i > 0 {
                assert(all[i] == rest[i - 1]);
            }
        }
        if rest.len() == 1 {
            assert(rest.last() == n / 128);
        }
    }
}

/// The bytes of an id are those of its bits as a number without a sign, five at the
/// most.
pub proof fn ids_are_told_by_their_bits(id: i32)
    ensures
        id >= 0 ==> grouped_value(id_bytes(id)) == id,
        id < 0 ==> grouped_value(id_bytes(id)) == id + 0x1_0000_0000,
        1 <= id_bytes(id).len() <= 5,
        id_bytes(id).last() < 128,
        forall|i: int| 0 <= i < id_bytes(id).len() - 1 ==> #[trigger] id_bytes(id)[i] >= 128,
{
    groups_stand_for_their_number(unsigned_32(id));
    reveal_with_fuel(varint_bytes, 6);
}

/// Unless something else is asked for, nothing is compressed. A threshold and its
/// number stand for each other.
pub proof fn thresholds_are_their_numbers(n: i32, t: CompressionThreshold)
    ensures
        CompressionThreshold::spec_default().0 == -1,
        <CompressionThreshold as vstd::std_specs::convert::FromSpec<i32>>::from_spec(n).0 == n,
        <i32 as vstd::std_specs::convert::FromSpec<CompressionThreshold>>::from_spec(t) == t.0,
{
}

/// A packet is its id and then its body: the id ends at the first byte without a top
/// bit, and what follows is the body.
pub proof fn packets_are_ids_and_bodies(id: i32, body: &Vec<u8>, bytes: Vec<u8>) -> (n: int)
    requires
        call_ensures(packet_bytes, (id, body), bytes),
    ensures
        1 <= n <= 5,
        bytes@.len() == n + body@.len(),
        bytes@[n - 1] < 128,
        forall|i: int| 0 <= i < n - 1 ==> #[trigger] bytes@[i] >= 128,
        id >= 0 ==> grouped_value(bytes@.take(n)) == id,
        id < 0 ==> grouped_value(bytes@.take(n)) == id + 0x1_0000_0000,
        bytes@.skip(n) == body@,
{
    let head = id_bytes(id);
    let n = head.len() as int;
    ids_are_told_by_their_bits(id);
    assert(bytes@.take(n) =~= head);
    assert(bytes@.skip(n) =~= body@);
    assert forall|i: int| 0 <= i < n - 1 implies #[trigger] bytes@[i] >= 128 by {
        assert(bytes@[i] == head[i]);
    }
    n
}

/// An id is put behind what was there.
pub proof fn ids_are_appended(id: i32, out: &mut Vec<u8>)
    requires
        call_ensures(encode_id, (id, out), ()),
    ensures
        old(out)@.len() < final(out)@.len() <= old(out)@.len() + 5,
        final(out)@.take(old(out)@.len() as int) == old(out)@,
        id >= 0 ==> grouped_value(final(out)@.skip(old(out)@.len() as int)) == id,
        id < 0 ==> grouped_value(final(out)@.skip(old(out)@.len() as int)) == id + 0x1_0000_0000,
{
    ids_are_told_by_their_bits(id);
    assert(final(out)@.take(old(out)@.len() as int) =~= old(out)@);
    assert(final(out)@.skip(old(out)@.len() as int) =~= id_bytes(id));
}

/// A packet is encoded behind what was there, as its id and the body that encoding
/// it gives, with what encoding it says.
pub proof fn packets_are_encoded_whole<P: Packet + Encode>(
    packet: &P,
    out: &mut Vec<u8>,
    r: Result<(), String>,
    body: Seq<u8>,
    said: Result<(), String>,
) -> (n: int)
    requires
        call_ensures(P::encode_with_id, (packet, out), r),
        forall|b: Vec<u8>, s: Result<(), String>|
            #![trigger call_ensures(P::encode, (packet,), (b, s))]
            call_ensures(P::encode, (packet,), (b, s)) ==> b@ == body && s == said,
    ensures
        r == said,
        1 <= n <= 5,
        ({
            let (before, after) = (old(out)@, final(out)@);
            let at = before.len() as int;
            &&& after.len() == at + n + body.len()
            &&& after.take(at) == before
            &&& P::ID >= 0 ==> grouped_value(after.subrange(at, at + n)) == P::ID
            &&& P::ID < 0 ==> grouped_value(after.subrange(at, at + n)) == P::ID + 0x1_0000_0000
            &&& after.skip(at + n) == body
        }),
{
    let head = id_bytes(P::ID);
    let n = head.len() as int;
    let before = old(out)@;
    let at = before.len() as int;
    let after = final(out)@;
    ids_are_told_by_their_bits(P::ID);
    assert(after.len() == at + n + body.len());
    assert(after.take(at) =~= before);
    assert(after.subrange(at, at + n) =~= head);
    assert(after.skip(at + n) =~= body);
    n
}

} // verus!
