//! Which byte of a capture says what.

use vstd::arithmetic::div_mod::lemma_fundamental_div_mod_converse;
use vstd::prelude::*;

use super::laws::StreamModel;
use super::number::{bytes_range, le_bytes, le_value, number_is_read_back, signed};
use super::reader::{byte_side, byte_state, number_at, parse_header, parse_record};
use super::writer::OpModel;
use super::{
    header_bytes, record_bytes, record_head, side_byte, spec_magic, state_byte, CaptureError,
    CaptureHeader, RecordModel,
};
use crate::packet::{PacketSide, PacketState};
use crate::text::{decimal_text, decimals_stand_for_their_number, number_of};

verus! {

/// The number in two bytes, the lower first.
pub open spec fn pair_at(b: Seq<u8>, i: int) -> int {
    b[i] + 0x100 * b[i + 1]
}

/// The number in four bytes, the lowest first.
pub open spec fn quad_at(b: Seq<u8>, i: int) -> int {
    b[i] + 0x100 * b[i + 1] + 0x1_0000 * b[i + 2] + 0x100_0000 * b[i + 3]
}

/// The number in eight bytes, the lowest first.
pub open spec fn octet_at(b: Seq<u8>, i: int) -> int {
    quad_at(b, i) + 0x1_0000_0000 * quad_at(b, i + 4)
}

/// Bytes are read as numbers with the lowest byte first.
pub proof fn numbers_are_read_from_the_lowest_byte(b: Seq<u8>, i: int)
    requires
        0 <= i,
    ensures
        i + 2 <= b.len() ==> number_at(b, i, i + 2) == pair_at(b, i),
        i + 4 <= b.len() ==> number_at(b, i, i + 4) == quad_at(b, i),
        i + 8 <= b.len() ==> number_at(b, i, i + 8) == octet_at(b, i),
{
    reveal_with_fuel(le_value, 3);
    if i + 2 <= b.len() {
        lemma_pair(b.subrange(i, i + 2));
    }
    if i + 4 <= b.len() {
        lemma_quad(b.subrange(i, i + 4));
    }
    if i + 8 <= b.len() {
        lemma_octet(b.subrange(i, i + 8));
    }
}

/// The value of two bytes.
proof fn lemma_pair(b: Seq<u8>)
    requires
        b.len() >= 2,
    ensures
        le_value(b) == b[0] + 0x100 * b[1] + 0x1_0000 * le_value(b.skip(2)),
{
    assert(b.skip(1).skip(1) =~= b.skip(2));
    assert(le_value(b.skip(1)) == b[1] + 0x100 * le_value(b.skip(2)));
    if b.len() == 2 {
        assert(le_value(b.skip(2)) == 0);
    }
}

/// The value of four bytes.
proof fn lemma_quad(b: Seq<u8>)
    requires
        b.len() >= 4,
    ensures
        le_value(b) == quad_at(b, 0) + 0x1_0000_0000 * le_value(b.skip(4)),
{
    lemma_pair(b);
    lemma_pair(b.skip(2));
    assert(b.skip(2).skip(2) =~= b.skip(4));
}

/// The value of eight bytes.
proof fn lemma_octet(b: Seq<u8>)
    requires
        b.len() == 8,
    ensures
        le_value(b) == octet_at(b, 0),
{
    lemma_quad(b);
    lemma_quad(b.skip(4));
    assert(b.skip(4).skip(4) =~= Seq::empty());
}

/// A number is written with as many bytes as asked for, the lowest first. A number
/// below zero is written as its two's complement.
pub proof fn numbers_are_written_from_the_lowest_byte(v: int)
    ensures
        le_bytes(v, 2).len() == 2,
        pair_at(le_bytes(v, 2), 0) == v % 0x1_0000,
        le_bytes(v, 4).len() == 4,
        quad_at(le_bytes(v, 4), 0) == v % 0x1_0000_0000,
        le_bytes(v, 8).len() == 8,
        octet_at(le_bytes(v, 8), 0) == v % 0x1_0000_0000_0000_0000,
{
    reveal_with_fuel(bytes_range, 9);
    number_is_read_back(v, 2);
    number_is_read_back(v, 4);
    number_is_read_back(v, 8);
    lemma_pair(le_bytes(v, 2));
    assert(le_bytes(v, 2).skip(2) =~= Seq::empty());
    lemma_quad(le_bytes(v, 4));
    assert(le_bytes(v, 4).skip(4) =~= Seq::empty());
    lemma_octet(le_bytes(v, 8));
}

/// A number with a sign is the one whose two's complement was read.
pub proof fn the_top_bit_is_the_sign(v: nat, half: nat)
    requires
        v < 2 * half,
    ensures
        -half <= signed(v, half) < half,
        signed(v, half) == v || signed(v, half) == v - 2 * half,
{
}

/// Each side and each state has a byte of its own, and these stand for them when
/// they are read.
pub proof fn sides_and_states_have_bytes(side: PacketSide, state: PacketState)
    ensures
        side_byte(PacketSide::Clientbound) == 0,
        side_byte(PacketSide::Serverbound) == 1,
        state_byte(PacketState::Handshake) == 0,
        state_byte(PacketState::Status) == 1,
        state_byte(PacketState::Login) == 2,
        state_byte(PacketState::Configuration) == 3,
        state_byte(PacketState::Play) == 4,
        byte_side(side_byte(side)) == side,
        byte_state(state_byte(state)) == state,
{
}

/// Where each part of a header stands.
pub proof fn headers_are_laid_out(h: CaptureHeader)
    ensures
        ({
            let b = header_bytes(h);
            &&& b.len() == 28
            &&& b[0] == 0x56 && b[1] == 0x50 && b[2] == 0x43 && b[3] == 0x41
            &&& b[4] == 0x50 && b[5] == 0x30 && b[6] == 0x30 && b[7] == 0x31
            &&& b[8] == 1 && b[9] == 0
            &&& h.online_mode ==> b[10] == 1
            &&& !h.online_mode ==> b[10] == 0
            &&& b[11] == 0
            &&& quad_at(b, 12) == h.protocol_version as int % 0x1_0000_0000
            &&& octet_at(b, 16) == h.connection_started_unix_ms as int % 0x1_0000_0000_0000_0000
            &&& quad_at(b, 24) == h.final_compression_threshold.0 as int % 0x1_0000_0000
        }),
{
    let protocol = le_bytes(h.protocol_version as int, 4);
    let started = le_bytes(h.connection_started_unix_ms as int, 8);
    let threshold = le_bytes(h.final_compression_threshold.0 as int, 4);
    numbers_are_written_from_the_lowest_byte(1);
    numbers_are_written_from_the_lowest_byte(h.protocol_version as int);
    numbers_are_written_from_the_lowest_byte(h.connection_started_unix_ms as int);
    numbers_are_written_from_the_lowest_byte(h.final_compression_threshold.0 as int);
    let b = header_bytes(h);
    assert(b[8] == le_bytes(1, 2)[0] && b[9] == le_bytes(1, 2)[1]);
    assert(b.subrange(12, 16) =~= protocol);
    assert(b.subrange(16, 24) =~= started);
    assert(b.subrange(24, 28) =~= threshold);
    lemma_quad_within(b, 12, 16);
    lemma_quad_within(b, 16, 24);
    lemma_quad_within(b, 24, 28);
    lemma_quad_further(b, 16, 24);
}

/// Four bytes of a part are those of the whole.
proof fn lemma_quad_within(b: Seq<u8>, i: int, j: int)
    requires
        0 <= i,
        i + 4 <= j <= b.len(),
    ensures
        quad_at(b.subrange(i, j), 0) == quad_at(b, i),
{
}

/// The next four bytes of a part are those of the whole.
proof fn lemma_quad_further(b: Seq<u8>, i: int, j: int)
    requires
        0 <= i,
        i + 8 <= j <= b.len(),
    ensures
        quad_at(b.subrange(i, j), 4) == quad_at(b, i + 4),
{
}

/// Where each part of a record stands.
pub proof fn records_are_laid_out(r: RecordModel)
    requires
        r.raw_bytes.len() <= u32::MAX,
    ensures
        ({
            let b = record_bytes(r);
            &&& b.len() == 22 + r.raw_bytes.len()
            &&& octet_at(b, 0) == r.sequence
            &&& b[8] == (match r.side {
                PacketSide::Clientbound => 0u8,
                PacketSide::Serverbound => 1u8,
            })
            &&& b[9] == (match r.state {
                PacketState::Handshake => 0u8,
                PacketState::Status => 1u8,
                PacketState::Login => 2u8,
                PacketState::Configuration => 3u8,
                PacketState::Play => 4u8,
            })
            &&& quad_at(b, 10) == r.compression_threshold.0 as int % 0x1_0000_0000
            &&& quad_at(b, 14) == r.packet_id as int % 0x1_0000_0000
            &&& quad_at(b, 18) == r.raw_bytes.len()
            &&& forall|i: int| 0 <= i < r.raw_bytes.len() ==> b[22 + i] == #[trigger] r.raw_bytes[i]
        }),
{
    let head = record_head(r);
    let b = record_bytes(r);
    lemma_head(r);
    assert(b.subrange(0, 22) =~= head);
    lemma_quad_same(b, head, 0);
    lemma_quad_same(b, head, 4);
    lemma_quad_same(b, head, 10);
    lemma_quad_same(b, head, 14);
    lemma_quad_same(b, head, 18);
    assert(b[8] == head[8] && b[9] == head[9]);
}

/// Four bytes of what a sequence begins with are those of the whole.
proof fn lemma_quad_same(b: Seq<u8>, head: Seq<u8>, i: int)
    requires
        0 <= i,
        i + 4 <= head.len() <= b.len(),
        b.subrange(0, head.len() as int) == head,
    ensures
        quad_at(b, i) == quad_at(head, i),
{
    let part = b.subrange(0, head.len() as int);
    assert(part[i] == b[i] && part[i + 1] == b[i + 1] && part[i + 2] == b[i + 2] && part[i + 3]
        == b[i + 3]);
}

/// A number in four bytes.
proof fn lemma_written_quad(v: int)
    ensures
        le_bytes(v, 4).len() == 4,
        quad_at(le_bytes(v, 4), 0) == v % 0x1_0000_0000,
{
    numbers_are_written_from_the_lowest_byte(v);
}

/// A number in eight bytes.
proof fn lemma_written_octet(v: int)
    ensures
        le_bytes(v, 8).len() == 8,
        quad_at(le_bytes(v, 8), 0) + 0x1_0000_0000 * quad_at(le_bytes(v, 8), 4) == v
            % 0x1_0000_0000_0000_0000,
{
    numbers_are_written_from_the_lowest_byte(v);
}

/// Where each part of a record before the bytes of its packet stands.
proof fn lemma_head(r: RecordModel)
    requires
        r.raw_bytes.len() <= u32::MAX,
    ensures
        ({
            let b = record_head(r);
            &&& b.len() == 22
            &&& octet_at(b, 0) == r.sequence
            &&& b[8] == side_byte(r.side)
            &&& b[9] == state_byte(r.state)
            &&& quad_at(b, 10) == r.compression_threshold.0 as int % 0x1_0000_0000
            &&& quad_at(b, 14) == r.packet_id as int % 0x1_0000_0000
            &&& quad_at(b, 18) == r.raw_bytes.len()
        }),
{
    let sequence = le_bytes(r.sequence as int, 8);
    let threshold = le_bytes(r.compression_threshold.0 as int, 4);
    let id = le_bytes(r.packet_id as int, 4);
    let len = le_bytes(r.raw_bytes.len() as int, 4);
    lemma_written_octet(r.sequence as int);
    lemma_written_quad(r.compression_threshold.0 as int);
    lemma_written_quad(r.packet_id as int);
    lemma_written_quad(r.raw_bytes.len() as int);
    let b = record_head(r);
    assert(b.subrange(0, 8) =~= sequence);
    assert(b.subrange(10, 14) =~= threshold);
    assert(b.subrange(14, 18) =~= id);
    assert(b.subrange(18, 22) =~= len);
    lemma_quad_within(b, 0, 8);
    lemma_quad_further(b, 0, 8);
    lemma_quad_within(b, 10, 14);
    lemma_quad_within(b, 14, 18);
    lemma_quad_within(b, 18, 22);
}

/// Whether bytes begin as every capture does.
pub open spec fn begins_as_capture(b: Seq<u8>) -> bool {
    &&& b.len() >= 8
    &&& b[0] == 0x56 && b[1] == 0x50 && b[2] == 0x43 && b[3] == 0x41
    &&& b[4] == 0x50 && b[5] == 0x30 && b[6] == 0x30 && b[7] == 0x31
}

/// The first eight bytes are the expected ones just where each is.
proof fn lemma_begins(b: Seq<u8>)
    requires
        b.len() >= 8,
    ensures
        b.take(8) == spec_magic() <==> begins_as_capture(b),
{
    if begins_as_capture(b) {
        assert(b.take(8) =~= spec_magic());
    } else if b.take(8) == spec_magic() {
        assert forall|i: int| 0 <= i < 8 implies b[i] == #[trigger] spec_magic()[i] by {
            assert(b[i] == b.take(8)[i]);
        }
        let m = spec_magic();
        assert(m[0] == 0x56 && m[1] == 0x50 && m[2] == 0x43 && m[3] == 0x41 && m[4] == 0x50 && m[5]
            == 0x30 && m[6] == 0x30 && m[7] == 0x31);
    }
}

/// When a header can be read, and what is wrong where it cannot: first the magic
/// bytes count, then the version, then the online mode.
pub proof fn headers_are_read_or_refused(b: Seq<u8>)
    ensures
        parse_header(b) is Ok <==> begins_as_capture(b) && b.len() >= 28 && pair_at(b, 8) == 1
            && b[10] <= 1,
        parse_header(b) == Err::<CaptureHeader, _>(CaptureError::InvalidMagic) <==> b.len() >= 8
            && !begins_as_capture(b),
        forall|v: u16|
            parse_header(b) == Err::<CaptureHeader, _>(CaptureError::UnsupportedVersion(v)) <==> {
                &&& begins_as_capture(b)
                &&& b.len() >= 10
                &&& v == pair_at(b, 8)
                &&& v != 1
            },
        forall|v: u8|
            parse_header(b) == Err::<CaptureHeader, _>(CaptureError::InvalidOnlineMode(v)) <==> {
                &&& begins_as_capture(b)
                &&& b.len() >= 11
                &&& pair_at(b, 8) == 1
                &&& v == b[10]
                &&& v > 1
            },
        parse_header(b) == Err::<CaptureHeader, _>(CaptureError::UnexpectedEof) <==> {
            ||| b.len() < 8
            ||| begins_as_capture(b) && b.len() < 10
            ||| begins_as_capture(b) && b.len() < 11 && pair_at(b, 8) == 1
            ||| begins_as_capture(b) && b.len() < 28 && pair_at(b, 8) == 1 && b[10] <= 1
        },
        parse_header(b) matches Ok(h) ==> {
            &&& h.online_mode <==> b[10] == 1
            &&& h.protocol_version as int % 0x1_0000_0000 == quad_at(b, 12)
            &&& h.connection_started_unix_ms as int % 0x1_0000_0000_0000_0000 == octet_at(b, 16)
            &&& h.final_compression_threshold.0 as int % 0x1_0000_0000 == quad_at(b, 24)
        },
{
    if b.len() >= 8 {
        lemma_begins(b);
    }
    if b.len() >= 10 {
        numbers_are_read_from_the_lowest_byte(b, 8);
    }
    if b.len() >= 28 {
        numbers_are_read_from_the_lowest_byte(b, 12);
        numbers_are_read_from_the_lowest_byte(b, 16);
        numbers_are_read_from_the_lowest_byte(b, 24);
    }
}

/// When a record can be read, when there is none, and what is wrong where it cannot
/// be read: first the side counts, then the state, then whether all bytes are there.
/// A record takes the bytes before its packet and those of the packet; what is
/// refused takes the bytes up to what is wrong; and where the bytes end, all are
/// taken.
pub proof fn records_are_read_or_refused(b: Seq<u8>)
    ensures
        ({
            let (found, taken) = parse_record(b);
            &&& found == Ok::<Option<RecordModel>, CaptureError>(None) <==> b.len() < 8
            &&& (found matches Ok(o) && o is Some) <==> {
                &&& b.len() >= 22
                &&& b[8] <= 1
                &&& b[9] <= 4
                &&& b.len() >= 22 + quad_at(b, 18)
            }
            &&& forall|v: u8|
                found == Err::<Option<RecordModel>, _>(CaptureError::InvalidSide(v)) <==> {
                    &&& b.len() >= 9
                    &&& v == b[8]
                    &&& v > 1
                }
            &&& forall|v: u8|
                found == Err::<Option<RecordModel>, _>(CaptureError::InvalidState(v)) <==> {
                    &&& b.len() >= 10
                    &&& b[8] <= 1
                    &&& v == b[9]
                    &&& v > 4
                }
            &&& found == Err::<Option<RecordModel>, _>(CaptureError::UnexpectedEof) <==> {
                ||| b.len() == 8
                ||| b.len() == 9 && b[8] <= 1
                ||| 10 <= b.len() < 22 && b[8] <= 1 && b[9] <= 4
                ||| 22 <= b.len() < 22 + quad_at(b, 18) && b[8] <= 1 && b[9] <= 4
            }
            &&& match found {
                Ok(None) | Err(CaptureError::UnexpectedEof) => taken == b.len(),
                Err(CaptureError::InvalidSide(_)) => taken == 9,
                Err(CaptureError::InvalidState(_)) => taken == 10,
                Ok(Some(r)) => taken == 22 + quad_at(b, 18),
                Err(_) => false,
            }
        }),
{
    numbers_are_read_from_the_lowest_byte(b, 18);
}

/// What a record that was read says of its bytes.
pub proof fn records_say_what_the_bytes_do(b: Seq<u8>, r: RecordModel)
    requires
        parse_record(b).0 == Ok::<_, CaptureError>(Some(r)),
    ensures
        r.sequence == octet_at(b, 0),
        r.side == PacketSide::Clientbound <==> b[8] == 0,
        r.side == PacketSide::Serverbound <==> b[8] == 1,
        r.state == PacketState::Handshake <==> b[9] == 0,
        r.state == PacketState::Status <==> b[9] == 1,
        r.state == PacketState::Login <==> b[9] == 2,
        r.state == PacketState::Configuration <==> b[9] == 3,
        r.state == PacketState::Play <==> b[9] == 4,
        r.compression_threshold.0 as int % 0x1_0000_0000 == quad_at(b, 10),
        r.packet_id as int % 0x1_0000_0000 == quad_at(b, 14),
        r.raw_bytes.len() == quad_at(b, 18),
        forall|i: int| 0 <= i < r.raw_bytes.len() ==> #[trigger] r.raw_bytes[i] == b[22 + i],
{
    numbers_are_read_from_the_lowest_byte(b, 0);
    numbers_are_read_from_the_lowest_byte(b, 10);
    numbers_are_read_from_the_lowest_byte(b, 14);
    numbers_are_read_from_the_lowest_byte(b, 18);
}

/// Errors that speak of a value name it in digits at their end; each error begins
/// with words of its own.
pub proof fn errors_name_what_is_wrong(v: u16, f: u8)
    ensures
        ({
            let text = CaptureError::UnsupportedVersion(v).spec_message();
            &&& "unsupported capture version "@.is_prefix_of(text)
            &&& number_of(text.skip(28)) == v
        }),
        ({
            let text = CaptureError::InvalidOnlineMode(f).spec_message();
            &&& "invalid online mode flag "@.is_prefix_of(text)
            &&& number_of(text.skip(25)) == f
        }),
        ({
            let text = CaptureError::InvalidSide(f).spec_message();
            &&& "invalid packet side "@.is_prefix_of(text)
            &&& number_of(text.skip(20)) == f
        }),
        ({
            let text = CaptureError::InvalidState(f).spec_message();
            &&& "invalid packet state "@.is_prefix_of(text)
            &&& number_of(text.skip(21)) == f
        }),
        CaptureError::UnexpectedEof.spec_message() == "failed to fill whole buffer"@,
        CaptureError::InvalidMagic.spec_message() == "invalid capture magic"@,
        CaptureError::TooLarge.spec_message() == "capture packet is too large"@,
{
    reveal_strlit("unsupported capture version ");
    reveal_strlit("invalid online mode flag ");
    reveal_strlit("invalid packet side ");
    reveal_strlit("invalid packet state ");
    lemma_behind("unsupported capture version "@, v as nat);
    lemma_behind("invalid online mode flag "@, f as nat);
    lemma_behind("invalid packet side "@, f as nat);
    lemma_behind("invalid packet state "@, f as nat);
}

/// Digits behind words.
proof fn lemma_behind(words: Seq<char>, n: nat)
    ensures
        words.is_prefix_of(words + decimal_text(n)),
        number_of((words + decimal_text(n)).skip(words.len() as int)) == n,
{
    let digits = decimal_text(n);
    decimals_stand_for_their_number(n);
    assert((words + digits).subrange(0, words.len() as int) =~= words);
    assert((words + digits).skip(words.len() as int) =~= digits);
}

/// What is written to a stream stands where the stream stood, and the stream then
/// stands behind it. All other bytes stay, and there are no more than are needed. To
/// go to a position changes no bytes.
pub proof fn streams_hold_what_was_written(s: StreamModel, bytes: Seq<u8>, to: nat)
    ensures
        ({
            let w = s.apply(OpModel::Write(bytes));
            &&& w.position == s.position + bytes.len()
            &&& forall|i: int|
                0 <= i < bytes.len() ==> w.data[s.position + i] == #[trigger] bytes[i]
            &&& forall|i: int|
                0 <= i < s.data.len() && !(s.position <= i < w.position) ==> w.data[i]
                    == #[trigger] s.data[i]
            &&& w.data.len() == (if s.data.len() > w.position {
                s.data.len()
            } else {
                w.position
            })
        }),
        s.apply(OpModel::SeekStart(to)) == (StreamModel { data: s.data, position: to }),
{
    let w = s.apply(OpModel::Write(bytes));
    let p = s.position as int;
    assert forall|i: int| 0 <= i < bytes.len() implies w.data[p + i] == #[trigger] bytes[i] by {}
}

/// The bytes of a number are those that it was read from.
proof fn lemma_bytes_again(b: Seq<u8>, k: int)
    ensures
        le_bytes(le_value(b) + k * bytes_range(b.len()), b.len()) == b,
    decreases b.len(),
{
    let n = b.len();
    let v = le_value(b) + k * bytes_range(n);
    if n == 0 {
        assert(le_bytes(v, 0) =~= b);
    } else {
        let low = b[0] as int;
        let high = le_value(b.skip(1)) as int;
        let r = bytes_range((n - 1) as nat);
        let rest = high + k * r;
        assert(v == 256 * rest + low) by (nonlinear_arith)
            requires
                v == low + 256 * high + k * (256 * r),
                rest == high + k * r,
        ;
        lemma_fundamental_div_mod_converse(v, 256, rest, low);
        lemma_bytes_again(b.skip(1), k);
        assert(le_bytes(v, n) == seq![b[0]] + le_bytes(rest, (n - 1) as nat));
        assert(seq![b[0]] + b.skip(1) =~= b);
    }
}

/// The bytes of a number with a sign are those that it was read from.
proof fn lemma_signed_again(b: Seq<u8>, half: nat)
    requires
        2 * half == bytes_range(b.len()),
    ensures
        le_bytes(signed(le_value(b), half), b.len()) == b,
        le_bytes(le_value(b) as int, b.len()) == b,
{
    lemma_bytes_again(b, 0);
    lemma_bytes_again(b, -1);
}

/// A header that was read is written again as it stood, but for the byte that says
/// nothing.
pub proof fn headers_are_written_again(b: Seq<u8>, h: CaptureHeader, i: int)
    requires
        parse_header(b) == Ok::<_, CaptureError>(h),
        0 <= i < 28,
        i != 11,
    ensures
        header_bytes(h)[i] == b[i],
{
    headers_are_read_or_refused(b);
    headers_are_laid_out(h);
    reveal_with_fuel(bytes_range, 9);
    let c = header_bytes(h);
    numbers_are_read_from_the_lowest_byte(b, 12);
    numbers_are_read_from_the_lowest_byte(b, 16);
    numbers_are_read_from_the_lowest_byte(b, 24);
    lemma_signed_again(b.subrange(12, 16), 0x8000_0000);
    lemma_signed_again(b.subrange(16, 24), 0x8000_0000_0000_0000);
    lemma_signed_again(b.subrange(24, 28), 0x8000_0000);
    assert(c.subrange(12, 16) =~= le_bytes(h.protocol_version as int, 4));
    assert(c.subrange(16, 24) =~= le_bytes(h.connection_started_unix_ms as int, 8));
    assert(c.subrange(24, 28) =~= le_bytes(h.final_compression_threshold.0 as int, 4));
    if 12 <= i < 16 {
        assert(c.subrange(12, 16)[i - 12] == b.subrange(12, 16)[i - 12]);
    } else if 16 <= i < 24 {
        assert(c.subrange(16, 24)[i - 16] == b.subrange(16, 24)[i - 16]);
    } else if 24 <= i {
        assert(c.subrange(24, 28)[i - 24] == b.subrange(24, 28)[i - 24]);
    }
}

/// A record that was read is written again as it stood.
pub proof fn records_are_written_again(b: Seq<u8>, r: RecordModel)
    requires
        parse_record(b).0 == Ok::<_, CaptureError>(Some(r)),
    ensures
        record_bytes(r) == b.take(parse_record(b).1 as int),
{
    records_are_read_or_refused(b);
    records_say_what_the_bytes_do(b, r);
    reveal_with_fuel(bytes_range, 9);
    let c = record_bytes(r);
    let taken = b.take(parse_record(b).1 as int);
    numbers_are_read_from_the_lowest_byte(b, 0);
    numbers_are_read_from_the_lowest_byte(b, 10);
    numbers_are_read_from_the_lowest_byte(b, 14);
    numbers_are_read_from_the_lowest_byte(b, 18);
    lemma_signed_again(b.subrange(0, 8), 0x8000_0000_0000_0000);
    lemma_signed_again(b.subrange(10, 14), 0x8000_0000);
    lemma_signed_again(b.subrange(14, 18), 0x8000_0000);
    lemma_signed_again(b.subrange(18, 22), 0x8000_0000);
    let sequence = b.subrange(0, 8);
    let threshold = b.subrange(10, 14);
    let id = b.subrange(14, 18);
    let len = b.subrange(18, 22);
    assert(le_bytes(r.sequence as int, 8) == sequence);
    assert(le_bytes(r.compression_threshold.0 as int, 4) == threshold);
    assert(le_bytes(r.packet_id as int, 4) == id);
    assert(le_bytes(r.raw_bytes.len() as int, 4) == len);
    assert(c =~= sequence + seq![b[8], b[9]] + threshold + id + len + r.raw_bytes);
    assert(c =~= taken);
}

} // verus!
