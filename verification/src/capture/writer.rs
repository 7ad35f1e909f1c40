//! Writing captures.

use vstd::prelude::*;

use super::number::{put_i32, put_i64, put_u16, put_u32, put_u64};
use super::{
    header_bytes, magic, record_bytes, side_to_u8, state_to_u8, CaptureError, CaptureHeader,
    CaptureRecord, VERSION,
};
use crate::packet::CompressionThreshold;

verus! {

/// Something to be done to the stream that a capture is written to.
pub enum StreamOp {
    /// Write these bytes where the stream stands.
    Write(Vec<u8>),
    /// Go to this position from the start.
    SeekStart(u64),
}

/// A stream operation as a value.
pub ghost enum OpModel {
    Write(Seq<u8>),
    SeekStart(nat),
}

impl View for StreamOp {
    type V = OpModel;

    open spec fn view(&self) -> OpModel {
        match self {
            StreamOp::Write(bytes) => OpModel::Write(bytes@),
            StreamOp::SeekStart(position) => OpModel::SeekStart(*position as nat),
        }
    }
}

/// The bytes of a header.
fn write_header(header: CaptureHeader) -> (r: Vec<u8>)
    ensures
        r@ == header_bytes(header),
{
    let mut out = magic();
    put_u16(&mut out, VERSION);
    out.push(
        if header.online_mode {
            1
        } else {
            0
        },
    );
    out.push(0);
    put_i32(&mut out, header.protocol_version);
    put_i64(&mut out, header.connection_started_unix_ms);
    put_i32(&mut out, header.final_compression_threshold.0);
    proof {
        assert(out@ =~= header_bytes(header));
    }
    out
}

/// Writes a capture: says what is to be done to its stream.
pub struct CaptureWriter {
    header: CaptureHeader,
}

impl CaptureWriter {
    /// The header as it was written at first.
    pub closed spec fn spec_header(&self) -> CaptureHeader {
        self.header
    }

    /// Begins a capture with its header.
    pub fn new(header: CaptureHeader) -> (r: (Self, StreamOp))
        ensures
            r.0.spec_header() == header,
            r.1@ == OpModel::Write(header_bytes(header)),
    {
        (CaptureWriter { header }, StreamOp::Write(write_header(header)))
    }

    /// Adds a record, unless its packet is too large.
    pub fn write_record(&mut self, record: &CaptureRecord) -> (r: Result<StreamOp, CaptureError>)
        ensures
            *final(self) == *old(self),
            match r {
                Ok(op) => {
                    &&& record.raw_bytes@.len() <= u32::MAX
                    &&& op@ == OpModel::Write(record_bytes(record@))
                },
                Err(e) => {
                    &&& record.raw_bytes@.len() > u32::MAX
                    &&& e == CaptureError::TooLarge
                },
            },
    {
        let len: u64 = record.raw_bytes.len() as u64;
        if len > u32::MAX as u64 {
            return Err(CaptureError::TooLarge);
        }
        let mut out: Vec<u8> = Vec::new();
        put_u64(&mut out, record.sequence);
        out.push(side_to_u8(record.side));
        out.push(state_to_u8(record.state));
        put_i32(&mut out, record.compression_threshold.0);
        put_i32(&mut out, record.packet_id);
        put_u32(&mut out, len as u32);
        let mut raw_bytes = record.raw_bytes.clone();
        out.append(&mut raw_bytes);
        proof {
            assert(out@ =~= record_bytes(record@));
        }
        Ok(StreamOp::Write(out))
    }

    /// Ends a capture whose stream stands at `end`: writes the header anew and
    /// goes back to the end.
    pub fn finish(
        self,
        end: u64,
        final_compression_threshold: CompressionThreshold,
        online_mode: bool,
    ) -> (r: Vec<StreamOp>)
        ensures
            r@.len() == 3,
            r@[0]@ == OpModel::SeekStart(0),
            r@[1]@ == OpModel::Write(
                header_bytes(
                    CaptureHeader {
                        final_compression_threshold,
                        online_mode,
                        ..self.spec_header()
                    },
                ),
            ),
            r@[2]@ == OpModel::SeekStart(end as nat),
    {
        let header = CaptureHeader { final_compression_threshold, online_mode, ..self.header };
        let mut ops: Vec<StreamOp> = Vec::new();
        ops.push(StreamOp::SeekStart(0));
        ops.push(StreamOp::Write(write_header(header)));
        ops.push(StreamOp::SeekStart(end));
        ops
    }
}

} // verus!
