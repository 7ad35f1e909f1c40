//! Reading captures.

use vstd::prelude::*;
use vstd::slice::slice_subrange;

use super::number::{get_i32, get_i64, get_u16, get_u32, get_u64, le_value, signed};
use super::{
    magic, spec_magic, u8_to_side, u8_to_state, CaptureError, CaptureHeader, CaptureRecord,
    RecordModel, HEADER_LEN, RECORD_HEAD_LEN, VERSION,
};
use crate::packet::{CompressionThreshold, PacketSide, PacketState};

verus! {

/// The number in bytes `i` to `j`.
pub open spec fn number_at(bytes: Seq<u8>, i: int, j: int) -> nat {
    le_value(bytes.subrange(i, j))
}

/// The header that a capture begins with, or the first thing that is wrong.
pub open spec fn parse_header(bytes: Seq<u8>) -> Result<CaptureHeader, CaptureError> {
    if bytes.len() < 8 {
        Err(CaptureError::UnexpectedEof)
    } else if bytes.take(8) != spec_magic() {
        Err(CaptureError::InvalidMagic)
    } else if bytes.len() < 10 {
        Err(CaptureError::UnexpectedEof)
    } else if number_at(bytes, 8, 10) != VERSION {
        Err(CaptureError::UnsupportedVersion(number_at(bytes, 8, 10) as u16))
    } else if bytes.len() < 11 {
        Err(CaptureError::UnexpectedEof)
    } else if bytes[10] > 1 {
        Err(CaptureError::InvalidOnlineMode(bytes[10]))
    } else if bytes.len() < 28 {
        Err(CaptureError::UnexpectedEof)
    } else {
        Ok(
            CaptureHeader {
                protocol_version: signed(number_at(bytes, 12, 16), 0x8000_0000) as i32,
                connection_started_unix_ms: signed(
                    number_at(bytes, 16, 24),
                    0x8000_0000_0000_0000,
                ) as i64,
                final_compression_threshold: CompressionThreshold(
                    signed(number_at(bytes, 24, 28), 0x8000_0000) as i32,
                ),
                online_mode: bytes[10] == 1,
            },
        )
    }
}

/// The side that a byte stands for, if it is 0 or 1.
pub open spec fn byte_side(b: u8) -> PacketSide {
    if b == 0 {
        PacketSide::Clientbound
    } else {
        PacketSide::Serverbound
    }
}

/// The state that a byte stands for, if it is at most 4.
pub open spec fn byte_state(b: u8) -> PacketState {
    if b == 0 {
        PacketState::Handshake
    } else if b == 1 {
        PacketState::Status
    } else if b == 2 {
        PacketState::Login
    } else if b == 3 {
        PacketState::Configuration
    } else {
        PacketState::Play
    }
}

/// The record that `rest` begins with, `None` if too little is left for a
/// sequence number, or the first thing that is wrong; and how many bytes were
/// read. Where the bytes end too early all were.
pub open spec fn parse_record(rest: Seq<u8>) -> (Result<Option<RecordModel>, CaptureError>, nat) {
    let n = rest.len();
    let raw_len = number_at(rest, 18, 22);
    if n < 8 {
        (Ok(None), n)
    } else if n < 9 {
        (Err(CaptureError::UnexpectedEof), n)
    } else if rest[8] > 1 {
        (Err(CaptureError::InvalidSide(rest[8])), 9)
    } else if n < 10 {
        (Err(CaptureError::UnexpectedEof), n)
    } else if rest[9] > 4 {
        (Err(CaptureError::InvalidState(rest[9])), 10)
    } else if n < 22 || n < 22 + raw_len {
        (Err(CaptureError::UnexpectedEof), n)
    } else {
        (
            Ok(
                Some(
                    RecordModel {
                        sequence: number_at(rest, 0, 8) as u64,
                        side: byte_side(rest[8]),
                        state: byte_state(rest[9]),
                        compression_threshold: CompressionThreshold(
                            signed(number_at(rest, 10, 14), 0x8000_0000) as i32,
                        ),
                        packet_id: signed(number_at(rest, 14, 18), 0x8000_0000) as i32,
                        raw_bytes: rest.subrange(22, 22 + raw_len as int),
                    },
                ),
            ),
            22 + raw_len,
        )
    }
}

/// Reads the header that a capture begins with.
pub fn read_header(bytes: &Vec<u8>) -> (r: Result<CaptureHeader, CaptureError>)
    ensures
        r == parse_header(bytes@),
{
    let n: usize = bytes.len();
    if n < 8 {
        return Err(CaptureError::UnexpectedEof);
    }
    let expected = magic();
    let mut i: usize = 0;
    while i < 8
        invariant
            i <= 8,
            8 <= bytes@.len(),
            expected@ == spec_magic(),
            forall|j: int| 0 <= j < i ==> bytes@[j] == expected@[j],
        decreases 8 - i,
    {
        if bytes[i] != expected[i] {
            proof {
                assert(bytes@.take(8)[i as int] != spec_magic()[i as int]);
            }
            return Err(CaptureError::InvalidMagic);
        }
        i += 1;
    }
    proof {
        assert(bytes@.take(8) =~= spec_magic());
    }
    let version: u16 = match get_u16(part(bytes, 8)) {
        Some(v) => v,
        None => {
            return Err(CaptureError::UnexpectedEof);
        },
    };
    proof {
        lemma_part(bytes@, 8, 2);
    }
    if version != VERSION {
        return Err(CaptureError::UnsupportedVersion(version));
    }
    if n < 11 {
        return Err(CaptureError::UnexpectedEof);
    }
    let online_mode = match bytes[10] {
        0 => false,
        1 => true,
        flag => {
            return Err(CaptureError::InvalidOnlineMode(flag));
        },
    };
    if n < 12 {
        return Err(CaptureError::UnexpectedEof);
    }
    let protocol_version: i32 = match get_i32(part(bytes, 12)) {
        Some(v) => v,
        None => {
            return Err(CaptureError::UnexpectedEof);
        },
    };
    let connection_started_unix_ms: i64 = match get_i64(part(bytes, 16)) {
        Some(v) => v,
        None => {
            return Err(CaptureError::UnexpectedEof);
        },
    };
    let threshold: i32 = match get_i32(part(bytes, 24)) {
        Some(v) => v,
        None => {
            return Err(CaptureError::UnexpectedEof);
        },
    };
    proof {
        lemma_part(bytes@, 12, 4);
        lemma_part(bytes@, 16, 8);
        lemma_part(bytes@, 24, 4);
    }
    Ok(
        CaptureHeader {
            protocol_version,
            connection_started_unix_ms,
            final_compression_threshold: CompressionThreshold(threshold),
            online_mode,
        },
    )
}

/// The bytes from `at` on.
fn part(bytes: &Vec<u8>, at: usize) -> (r: &[u8])
    requires
        at <= bytes@.len(),
    ensures
        r@ == bytes@.skip(at as int),
{
    slice_subrange(bytes.as_slice(), at, bytes.len())
}

/// The first bytes of a part.
proof fn lemma_part(bytes: Seq<u8>, at: int, n: int)
    requires
        0 <= at,
        0 <= n,
        at + n <= bytes.len(),
    ensures
        bytes.skip(at).take(n) == bytes.subrange(at, at + n),
{
    assert(bytes.skip(at).take(n) =~= bytes.subrange(at, at + n));
}

/// Reads a capture from its bytes.
pub struct CaptureReader {
    bytes: Vec<u8>,
    position: usize,
    header: CaptureHeader,
}

impl CaptureReader {
    /// The position lies in the capture.
    pub closed spec fn wf(&self) -> bool {
        self.position <= self.bytes@.len()
    }

    /// The header of the capture.
    pub closed spec fn spec_header(&self) -> CaptureHeader {
        self.header
    }

    /// The bytes that were not read yet.
    pub closed spec fn rest(&self) -> Seq<u8> {
        self.bytes@.skip(self.position as int)
    }

    /// Reads the header, to go on with the records.
    pub fn new(bytes: Vec<u8>) -> (r: Result<Self, CaptureError>)
        ensures
            match r {
                Ok(reader) => {
                    &&& reader.wf()
                    &&& parse_header(bytes@) == Ok::<_, CaptureError>(reader.spec_header())
                    &&& reader.rest() == bytes@.skip(28)
                },
                Err(e) => parse_header(bytes@) == Err::<CaptureHeader, _>(e),
            },
    {
        match read_header(&bytes) {
            Ok(header) => Ok(CaptureReader { bytes, position: HEADER_LEN, header }),
            Err(e) => Err(e),
        }
    }

    /// The header of the capture.
    pub fn header(&self) -> (r: CaptureHeader)
        ensures
            r == self.spec_header(),
    {
        self.header
    }

    /// Gives up on the bytes that are left.
    fn end(&mut self)
        requires
            old(self).wf(),
        ensures
            final(self).wf(),
            final(self).spec_header() == old(self).spec_header(),
            final(self).rest() == old(self).rest().skip(old(self).rest().len() as int),
    {
        self.position = self.bytes.len();
        proof {
            assert(self.rest() =~= old(self).rest().skip(old(self).rest().len() as int));
        }
    }

    /// Reads the next record. There is none where too little is left for its
    /// sequence number.
    pub fn read_record(&mut self) -> (r: Result<Option<CaptureRecord>, CaptureError>)
        requires
            old(self).wf(),
        ensures
            final(self).wf(),
            final(self).spec_header() == old(self).spec_header(),
            final(self).rest() == old(self).rest().skip(parse_record(old(self).rest()).1 as int),
            match r {
                Ok(Some(record)) => parse_record(old(self).rest()).0 == Ok::<_, CaptureError>(
                    Some(record@),
                ),
                Ok(None) => parse_record(old(self).rest()).0 == Ok::<
                    Option<RecordModel>,
                    CaptureError,
                >(None),
                Err(e) => parse_record(old(self).rest()).0 == Err::<Option<RecordModel>, _>(e),
            },
    {
        let at: usize = self.position;
        let n: usize = self.bytes.len() - at;
        let ghost all = self.bytes@;
        let ghost rest = self.rest();
        let sequence: u64 = match get_u64(part(&self.bytes, at)) {
            Some(v) => v,
            None => {
                self.end();
                return Ok(None);
            },
        };
        if n < 9 {
            self.end();
            return Err(CaptureError::UnexpectedEof);
        }
        let side = match u8_to_side(self.bytes[at + 8]) {
            Ok(side) => side,
            Err(e) => {
                self.position = at + 9;
                proof {
                    assert(self.rest() =~= rest.skip(9));
                }
                return Err(e);
            },
        };
        if n < 10 {
            self.end();
            return Err(CaptureError::UnexpectedEof);
        }
        let state = match u8_to_state(self.bytes[at + 9]) {
            Ok(state) => state,
            Err(e) => {
                self.position = at + 10;
                proof {
                    assert(self.rest() =~= rest.skip(10));
                }
                return Err(e);
            },
        };
        let threshold: i32 = match get_i32(part(&self.bytes, at + 10)) {
            Some(v) => v,
            None => {
                self.end();
                return Err(CaptureError::UnexpectedEof);
            },
        };
        let packet_id: i32 = match get_i32(part(&self.bytes, at + 14)) {
            Some(v) => v,
            None => {
                self.end();
                return Err(CaptureError::UnexpectedEof);
            },
        };
        let raw_len: u32 = match get_u32(part(&self.bytes, at + 18)) {
            Some(v) => v,
            None => {
                self.end();
                return Err(CaptureError::UnexpectedEof);
            },
        };
        proof {
            lemma_part(all, at as int, 8);
            lemma_part(all, at + 10, 4);
            lemma_part(all, at + 14, 4);
            lemma_part(all, at + 18, 4);
            assert(rest.subrange(0, 8) =~= all.subrange(at as int, at + 8));
            assert(rest.subrange(10, 14) =~= all.subrange(at + 10, at + 14));
            assert(rest.subrange(14, 18) =~= all.subrange(at + 14, at + 18));
            assert(rest.subrange(18, 22) =~= all.subrange(at + 18, at + 22));
        }
        let start: usize = at + RECORD_HEAD_LEN;
        if self.bytes.len() - start < raw_len as usize {
            self.end();
            return Err(CaptureError::UnexpectedEof);
        }
        let mut raw_bytes: Vec<u8> = Vec::new();
        raw_bytes.extend_from_slice(
            slice_subrange(self.bytes.as_slice(), start, start + raw_len as usize),
        );
        self.position = start + raw_len as usize;
        proof {
            assert(raw_bytes@ =~= rest.subrange(22, 22 + raw_len));
            assert(self.rest() =~= rest.skip(22 + raw_len));
        }
        Ok(
            Some(
                CaptureRecord {
                    sequence,
                    side,
                    state,
                    compression_threshold: CompressionThreshold(threshold),
                    packet_id,
                    raw_bytes,
                },
            ),
        )
    }
}

} // verus!
