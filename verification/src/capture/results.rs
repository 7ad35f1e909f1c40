//! What calls that write and read captures do and hand back.

use vstd::prelude::*;

use super::laws::{header_is_read_back, record_is_read_back};
use super::layout::{
    begins_as_capture, errors_name_what_is_wrong, headers_are_laid_out, headers_are_read_or_refused, octet_at, pair_at,
    quad_at, records_are_laid_out, records_are_read_or_refused, records_say_what_the_bytes_do,
};
use super::reader::{read_header, CaptureReader};
use super::writer::{CaptureWriter, OpModel, StreamOp};
use super::{
    magic, side_to_u8, state_to_u8, u8_to_side, u8_to_state, CaptureError, CaptureHeader,
    CaptureRecord,
};
use crate::packet::{CompressionThreshold, PacketSide, PacketState};
use crate::text::number_of;

verus! {

/// Captures begin with "VPCAP001".
pub proof fn captures_begin_with_their_magic(bytes: Vec<u8>)
    requires
        call_ensures(magic, (), bytes),
    ensures
        bytes@ == seq![0x56u8, 0x50, 0x43, 0x41, 0x50, 0x30, 0x30, 0x31],
{
}

/// The header of a connection that has just started says when it did, and else that
/// nothing is known yet.
pub proof fn headers_begin_without_knowledge(started: i64, h: CaptureHeader)
    requires
        call_ensures(CaptureHeader::new, (started,), h),
    ensures
        h.connection_started_unix_ms == started,
        h.protocol_version == 770,
        h.final_compression_threshold.0 == -1,
        !h.online_mode,
{
}

/// Sides and states are turned into bytes and back.
pub proof fn sides_and_states_are_turned_back(
    side: PacketSide,
    state: PacketState,
    a: u8,
    b: u8,
    side_again: Result<PacketSide, CaptureError>,
    state_again: Result<PacketState, CaptureError>,
)
    requires
        call_ensures(side_to_u8, (side,), a),
        call_ensures(u8_to_side, (a,), side_again),
        call_ensures(state_to_u8, (state,), b),
        call_ensures(u8_to_state, (b,), state_again),
    ensures
        side_again == Ok::<_, CaptureError>(side),
        state_again == Ok::<_, CaptureError>(state),
        a == 0 <==> side == PacketSide::Clientbound,
        a == 1 <==> side == PacketSide::Serverbound,
        b == 0 <==> state == PacketState::Handshake,
        b == 1 <==> state == PacketState::Status,
        b == 2 <==> state == PacketState::Login,
        b == 3 <==> state == PacketState::Configuration,
        b == 4 <==> state == PacketState::Play,
{
}

/// Bytes that stand for no side or state are refused, and named.
pub proof fn other_bytes_are_refused(
    b: u8,
    side: Result<PacketSide, CaptureError>,
    state: Result<PacketState, CaptureError>,
)
    requires
        call_ensures(u8_to_side, (b,), side),
        call_ensures(u8_to_state, (b,), state),
    ensures
        side is Ok <==> b <= 1,
        side is Err ==> side == Err::<PacketSide, _>(CaptureError::InvalidSide(b)),
        state is Ok <==> b <= 4,
        state is Err ==> state == Err::<PacketState, _>(CaptureError::InvalidState(b)),
{
}

/// A writer begins with writing its header.
pub proof fn writers_begin_with_the_header(header: CaptureHeader, w: CaptureWriter, op: StreamOp)
    requires
        call_ensures(CaptureWriter::new, (header,), (w, op)),
    ensures
        w.spec_header() == header,
        match op {
            StreamOp::Write(bytes) => {
                &&& bytes@.len() == 28
                &&& begins_as_capture(bytes@)
                &&& pair_at(bytes@, 8) == 1
                &&& bytes@[10] == 1 <==> header.online_mode
                &&& bytes@[10] == 0 <==> !header.online_mode
                &&& bytes@[11] == 0
                &&& quad_at(bytes@, 12) == header.protocol_version as int % 0x1_0000_0000
                &&& octet_at(bytes@, 16) == header.connection_started_unix_ms as int
                    % 0x1_0000_0000_0000_0000
                &&& quad_at(bytes@, 24) == header.final_compression_threshold.0 as int
                    % 0x1_0000_0000
            },
            StreamOp::SeekStart(_) => false,
        },
{
    headers_are_laid_out(header);
    assert(op@ is Write);
}

/// A record is written whole, unless its packet is too large.
pub proof fn writers_write_records(
    w: &mut CaptureWriter,
    record: &CaptureRecord,
    r: Result<StreamOp, CaptureError>,
    i: int,
)
    requires
        call_ensures(CaptureWriter::write_record, (w, record), r),
        0 <= i < record.raw_bytes@.len(),
    ensures
        *final(w) == *old(w),
        r is Ok <==> record.raw_bytes@.len() <= 0xffff_ffff,
        r is Err ==> r->Err_0 == CaptureError::TooLarge,
        r is Ok ==> match r->Ok_0 {
            StreamOp::Write(bytes) => {
                &&& bytes@.len() == 22 + record.raw_bytes@.len()
                &&& octet_at(bytes@, 0) == record.sequence
                &&& bytes@[8] == 1 <==> record.side == PacketSide::Serverbound
                &&& bytes@[9] == (match record.state {
                    PacketState::Handshake => 0u8,
                    PacketState::Status => 1u8,
                    PacketState::Login => 2u8,
                    PacketState::Configuration => 3u8,
                    PacketState::Play => 4u8,
                })
                &&& quad_at(bytes@, 10) == record.compression_threshold.0 as int % 0x1_0000_0000
                &&& quad_at(bytes@, 14) == record.packet_id as int % 0x1_0000_0000
                &&& quad_at(bytes@, 18) == record.raw_bytes@.len()
                &&& bytes@[22 + i] == record.raw_bytes@[i]
            },
            StreamOp::SeekStart(_) => false,
        },
{
    if r is Ok {
        records_are_laid_out(record@);
        assert(r->Ok_0@ is Write);
        assert(record@.raw_bytes[i] == record.raw_bytes@[i]);
    }
}

/// A writer ends with its header anew at the start, and then back where the stream
/// ended.
pub proof fn writers_end_with_the_header(
    w: CaptureWriter,
    end: u64,
    threshold: CompressionThreshold,
    online_mode: bool,
    ops: Vec<StreamOp>,
)
    requires
        call_ensures(CaptureWriter::finish, (w, end, threshold, online_mode), ops),
    ensures
        ops@.len() == 3,
        ops@[0]@ == OpModel::SeekStart(0),
        ops@[2]@ == OpModel::SeekStart(end as nat),
        ops@[1]@ matches OpModel::Write(bytes) && {
            &&& bytes.len() == 28
            &&& bytes[10] == 1 <==> online_mode
            &&& quad_at(bytes, 12) == w.spec_header().protocol_version as int % 0x1_0000_0000
            &&& octet_at(bytes, 16) == w.spec_header().connection_started_unix_ms as int
                % 0x1_0000_0000_0000_0000
            &&& quad_at(bytes, 24) == threshold.0 as int % 0x1_0000_0000
        },
{
    headers_are_laid_out(
        CaptureHeader { final_compression_threshold: threshold, online_mode, ..w.spec_header() },
    );
}

/// A header is read just where the bytes begin as a capture, have a known version and
/// online mode, and are enough; and then says what they do.
pub proof fn headers_are_read(bytes: &Vec<u8>, r: Result<CaptureHeader, CaptureError>)
    requires
        call_ensures(read_header, (bytes,), r),
    ensures
        r is Ok <==> begins_as_capture(bytes@) && bytes@.len() >= 28 && pair_at(bytes@, 8) == 1
            && bytes@[10] <= 1,
        r matches Ok(h) ==> {
            &&& h.online_mode <==> bytes@[10] == 1
            &&& h.protocol_version as int % 0x1_0000_0000 == quad_at(bytes@, 12)
            &&& h.connection_started_unix_ms as int % 0x1_0000_0000_0000_0000 == octet_at(
                bytes@,
                16,
            )
            &&& h.final_compression_threshold.0 as int % 0x1_0000_0000 == quad_at(bytes@, 24)
        },
        r matches Err(e) ==> match e {
            CaptureError::InvalidMagic => !begins_as_capture(bytes@),
            CaptureError::UnsupportedVersion(v) => v == pair_at(bytes@, 8) && v != 1,
            CaptureError::InvalidOnlineMode(v) => v == bytes@[10] && v > 1,
            CaptureError::UnexpectedEof => bytes@.len() < 28,
            _ => false,
        },
{
    headers_are_read_or_refused(bytes@);
}

/// A record is read just where its side and state are known and all its bytes are
/// there, and says what they do; there is none where fewer than eight bytes are left.
pub proof fn records_are_read(
    reader: &mut CaptureReader,
    r: Result<Option<CaptureRecord>, CaptureError>,
    i: int,
)
    requires
        call_ensures(CaptureReader::read_record, (reader,), r),
        0 <= i,
    ensures
        ({
            let b = old(reader).rest();
            &&& final(reader).spec_header() == old(reader).spec_header()
            &&& r is Ok && r->Ok_0 is None <==> b.len() < 8
            &&& r is Ok && r->Ok_0 is Some <==> b.len() >= 22 && b[8] <= 1 && b[9] <= 4 && b.len()
                >= 22 + quad_at(b, 18)
            &&& r is Ok && r->Ok_0 is Some ==> {
                let record = r->Ok_0->0;
                &&& record.sequence == octet_at(b, 0)
                &&& record.side == PacketSide::Serverbound <==> b[8] == 1
                &&& record.state == PacketState::Handshake <==> b[9] == 0
                &&& record.state == PacketState::Status <==> b[9] == 1
                &&& record.state == PacketState::Login <==> b[9] == 2
                &&& record.state == PacketState::Configuration <==> b[9] == 3
                &&& record.state == PacketState::Play <==> b[9] == 4
                &&& record.compression_threshold.0 as int % 0x1_0000_0000 == quad_at(b, 10)
                &&& record.packet_id as int % 0x1_0000_0000 == quad_at(b, 14)
                &&& record.raw_bytes@.len() == quad_at(b, 18)
                &&& i < record.raw_bytes@.len() ==> record.raw_bytes@[i] == b[22 + i]
                &&& final(reader).rest() == b.skip(22 + quad_at(b, 18))
            }
        }),
{
    let b = old(reader).rest();
    records_are_read_or_refused(b);
    if r is Ok && r->Ok_0 is Some {
        let record = r->Ok_0->0;
        records_say_what_the_bytes_do(b, record@);
        if i < record.raw_bytes@.len() {
            assert(record@.raw_bytes[i] == b[22 + i]);
        }
    }
}

/// What a writer begins with is what a reader begins with.
pub proof fn written_headers_are_read(
    header: CaptureHeader,
    w: CaptureWriter,
    written: Vec<u8>,
    bytes: Vec<u8>,
    rest: Seq<u8>,
    r: Result<CaptureReader, CaptureError>,
)
    requires
        call_ensures(CaptureWriter::new, (header,), (w, StreamOp::Write(written))),
        bytes@ == written@ + rest,
        call_ensures(CaptureReader::new, (bytes,), r),
    ensures
        r is Ok,
        r->Ok_0.spec_header() == header,
        r->Ok_0.rest() == rest,
{
    header_is_read_back(header, rest);
    assert(StreamOp::Write(written)@ == OpModel::Write(written@));
}

/// What a writer writes for a record is read as that record, whatever follows.
pub proof fn written_records_are_read(
    w: &mut CaptureWriter,
    record: &CaptureRecord,
    written: Vec<u8>,
    reader: &mut CaptureReader,
    rest: Seq<u8>,
    r: Result<Option<CaptureRecord>, CaptureError>,
)
    requires
        call_ensures(CaptureWriter::write_record, (w, record), Ok(StreamOp::Write(written))),
        old(reader).rest() == written@ + rest,
        call_ensures(CaptureReader::read_record, (reader,), r),
    ensures
        r is Ok,
        r->Ok_0 is Some,
        r->Ok_0->0@ == record@,
        final(reader).rest() == rest,
{
    assert(StreamOp::Write(written)@ == OpModel::Write(written@));
    record_is_read_back(record@, rest);
}

/// A reader tells the header that it read, and an error the value that it names.
pub proof fn headers_and_errors_are_told(
    reader: &CaptureReader,
    h: CaptureHeader,
    e: &CaptureError,
    text: String,
)
    requires
        call_ensures(CaptureReader::header, (reader,), h),
        call_ensures(CaptureError::message, (e,), text),
    ensures
        h == reader.spec_header(),
        match *e {
            CaptureError::UnexpectedEof => text@ == "failed to fill whole buffer"@,
            CaptureError::InvalidMagic => text@ == "invalid capture magic"@,
            CaptureError::TooLarge => text@ == "capture packet is too large"@,
            CaptureError::UnsupportedVersion(v) => number_of(text@.skip(28)) == v
                && "unsupported capture version "@.is_prefix_of(text@),
            CaptureError::InvalidOnlineMode(v) => number_of(text@.skip(25)) == v
                && "invalid online mode flag "@.is_prefix_of(text@),
            CaptureError::InvalidSide(v) => number_of(text@.skip(20)) == v
                && "invalid packet side "@.is_prefix_of(text@),
            CaptureError::InvalidState(v) => number_of(text@.skip(21)) == v
                && "invalid packet state "@.is_prefix_of(text@),
        },
{
    match *e {
        CaptureError::UnsupportedVersion(v) => errors_name_what_is_wrong(v, 0),
        CaptureError::InvalidOnlineMode(v) => errors_name_what_is_wrong(0, v),
        CaptureError::InvalidSide(v) => errors_name_what_is_wrong(0, v),
        CaptureError::InvalidState(v) => errors_name_what_is_wrong(0, v),
        _ => errors_name_what_is_wrong(0, 0),
    }
}

/// Any bytes can be read as a capture, and any header and record written.
pub proof fn captures_can_be_read_and_written(
    bytes: &Vec<u8>,
    reader: &mut CaptureReader,
    header: CaptureHeader,
    w: &mut CaptureWriter,
    record: &CaptureRecord,
)
    ensures
        call_requires(read_header, (bytes,)),
        call_requires(CaptureReader::new, (*bytes,)),
        old(reader).wf() ==> call_requires(CaptureReader::read_record, (reader,)),
        call_requires(CaptureWriter::new, (header,)),
        call_requires(CaptureWriter::write_record, (w, record)),
{
}

/// A reader that was made can go on reading, and stays so.
pub proof fn readers_go_on(
    bytes: Vec<u8>,
    made: Result<CaptureReader, CaptureError>,
    reader: &mut CaptureReader,
    r: Result<Option<CaptureRecord>, CaptureError>,
)
    requires
        call_ensures(CaptureReader::new, (bytes,), made),
        call_ensures(CaptureReader::read_record, (reader,), r),
    ensures
        made is Ok ==> made->Ok_0.wf(),
        final(reader).wf(),
{
}

} // verus!
