//! Capturing one connection.

use vstd::prelude::*;
use vstd::string::StringExecFns;

use crate::capture::laws::{
    capture_is_read_back, finish_ops, left_after, write_ops, StreamModel,
};
use crate::capture::reader::{parse_header, parse_record};
use crate::capture::writer::{CaptureWriter, OpModel, StreamOp};
use crate::capture::{
    header_bytes, record_bytes, CaptureError, CaptureHeader, CaptureRecord, RecordModel,
};
use crate::packet::{CompressionThreshold, PacketSide, PacketState, PROTOCOL_VERSION};
use crate::text::{
    decimal, decimal_text, padded, padded_text, signed_padded, signed_padded_text,
};

verus! {

/// A time of day at a date.
#[derive(Copy, Clone, Debug, PartialEq, Eq, Structural)]
pub struct Timestamp {
    pub year: i32,
    pub month: u8,
    pub day: u8,
    pub hour: u8,
    pub minute: u8,
    pub second: u8,
    pub millisecond: u16,
}

impl Timestamp {
    /// The text that the names of captures begin with.
    pub open spec fn prefix(self) -> Seq<char> {
        signed_padded_text(self.year as int, 4) + padded_text(self.month as nat, 2) + padded_text(
            self.day as nat,
            2,
        ) + "-"@ + padded_text(self.hour as nat, 2) + padded_text(self.minute as nat, 2)
            + padded_text(self.second as nat, 2) + "-"@ + padded_text(self.millisecond as nat, 3)
    }
}

/// The text that the names of captures begin with.
pub fn timestamp_prefix(time: Timestamp) -> (r: String)
    ensures
        r@ == time.prefix(),
{
    let mut s = signed_padded(time.year, 4);
    s.append(padded(time.month as u64, 2).as_str());
    s.append(padded(time.day as u64, 2).as_str());
    s.append("-");
    s.append(padded(time.hour as u64, 2).as_str());
    s.append(padded(time.minute as u64, 2).as_str());
    s.append(padded(time.second as u64, 2).as_str());
    s.append("-");
    s.append(padded(time.millisecond as u64, 3).as_str());
    s
}

/// A threshold as the names of captures tell it.
pub open spec fn threshold_text(threshold: CompressionThreshold) -> Seq<char> {
    if threshold.0 < 0 {
        "none"@
    } else {
        decimal_text(threshold.0 as nat)
    }
}

/// A threshold as the names of captures tell it.
pub fn threshold_label(threshold: CompressionThreshold) -> (r: String)
    ensures
        r@ == threshold_text(threshold),
{
    if threshold.0 < 0 {
        "none".to_owned()
    } else {
        decimal(threshold.0 as u64)
    }
}

/// Whole milliseconds in a number of nanoseconds, rounded towards zero.
pub open spec fn whole_ms(nanos: int) -> int {
    if nanos >= 0 {
        nanos / 1_000_000
    } else {
        -((-nanos) / 1_000_000)
    }
}

/// Whole milliseconds in a number of nanoseconds, if there are not too many.
fn millis(nanos: i128) -> (r: Option<i64>)
    ensures
        match r {
            Some(ms) => ms == whole_ms(nanos as int),
            None => !(i64::MIN <= whole_ms(nanos as int) <= i64::MAX),
        },
{
    let ms: i128 = if nanos >= 0 {
        nanos / 1_000_000
    } else if nanos == i128::MIN {
        return None;
    } else {
        -((-nanos) / 1_000_000)
    };
    if i64::MIN as i128 <= ms && ms <= i64::MAX as i128 {
        Some(ms as i64)
    } else {
        None
    }
}

/// The name of a capture that is not finished.
pub open spec fn temp_text(started_at: Timestamp, port: u16) -> Seq<char> {
    started_at.prefix() + "-"@ + padded_text(port as nat, 5) + ".tmp"@
}

/// The name of a finished capture.
pub open spec fn final_text(
    started_at: Timestamp,
    port: u16,
    threshold: CompressionThreshold,
    online_mode: bool,
) -> Seq<char> {
    started_at.prefix() + "-"@ + padded_text(port as nat, 5) + "-"@ + threshold_text(threshold)
        + "-"@ + (if online_mode {
        "online"@
    } else {
        "offline"@
    }) + ".vpcap"@
}

/// The capture of a connection.
pub struct ConnectionCapture {
    client_port: u16,
    started_at: Timestamp,
    next_sequence: u64,
    online_mode: bool,
    writer: CaptureWriter,
}

/// What a capture of a connection has come to.
pub ghost struct SessionModel {
    pub client_port: u16,
    pub started_at: Timestamp,
    /// The number of the next packet.
    pub next_sequence: u64,
    pub online_mode: bool,
    /// The header as it was written at first.
    pub header: CaptureHeader,
}

/// A packet to be captured.
pub ghost struct PacketModel {
    pub side: PacketSide,
    pub state: PacketState,
    pub compression_threshold: CompressionThreshold,
    pub packet_id: i32,
    pub raw_bytes: Seq<u8>,
}

impl PacketModel {
    /// The record of the packet under a number.
    pub open spec fn record(self, sequence: u64) -> RecordModel {
        RecordModel {
            sequence,
            side: self.side,
            state: self.state,
            compression_threshold: self.compression_threshold,
            packet_id: self.packet_id,
            raw_bytes: self.raw_bytes,
        }
    }
}

impl SessionModel {
    /// The capture after one more packet.
    pub open spec fn after_packet(self) -> SessionModel {
        SessionModel { next_sequence: (self.next_sequence + 1) as u64, ..self }
    }

    /// The capture without its last packet.
    pub open spec fn before_packet(self) -> SessionModel {
        SessionModel { next_sequence: (self.next_sequence - 1) as u64, ..self }
    }

    /// The capture after some packets.
    pub open spec fn after_packets(self, n: nat) -> SessionModel
        decreases n,
    {
        if n == 0 {
            self
        } else {
            self.after_packets((n - 1) as nat).after_packet()
        }
    }

    /// What is done for packets that are captured one after the other.
    pub open spec fn packet_ops(self, packets: Seq<PacketModel>) -> Seq<OpModel> {
        Seq::new(
            packets.len(),
            |i: int|
                OpModel::Write(
                    record_bytes(packets[i].record(self.after_packets(i as nat).next_sequence)),
                ),
        )
    }

    /// The header that the capture ends with.
    pub open spec fn final_header(self, threshold: CompressionThreshold) -> CaptureHeader {
        CaptureHeader {
            final_compression_threshold: threshold,
            online_mode: self.online_mode,
            ..self.header
        }
    }
}

impl View for ConnectionCapture {
    type V = SessionModel;

    closed spec fn view(&self) -> SessionModel {
        SessionModel {
            client_port: self.client_port,
            started_at: self.started_at,
            next_sequence: self.next_sequence,
            online_mode: self.online_mode,
            header: self.writer.spec_header(),
        }
    }
}

/// A capture that has begun: what to do first, and the name to do it under.
pub struct Begun {
    pub capture: ConnectionCapture,
    pub temp_name: String,
    pub op: StreamOp,
}

/// A capture that is to end: what to do last, and the name that it then gets.
pub struct Ended {
    pub ops: Vec<StreamOp>,
    pub final_name: String,
}

impl ConnectionCapture {
    /// Begins the capture of a connection that started at a time, given also in
    /// nanoseconds since the Unix epoch. `None` if that is too far off.
    pub fn create(started_at: Timestamp, unix_nanos: i128, client_port: u16) -> (r: Option<Begun>)
        ensures
            match r {
                Some(begun) => {
                    let header = CaptureHeader {
                        protocol_version: PROTOCOL_VERSION,
                        connection_started_unix_ms: whole_ms(unix_nanos as int) as i64,
                        final_compression_threshold: CompressionThreshold::spec_default(),
                        online_mode: false,
                    };
                    &&& i64::MIN <= whole_ms(unix_nanos as int) <= i64::MAX
                    &&& begun.capture@ == (SessionModel {
                        client_port,
                        started_at,
                        next_sequence: 0,
                        online_mode: false,
                        header,
                    })
                    &&& begun.temp_name@ == temp_text(started_at, client_port)
                    &&& begun.op@ == OpModel::Write(header_bytes(header))
                },
                None => !(i64::MIN <= whole_ms(unix_nanos as int) <= i64::MAX),
            },
    {
        let started_ms: i64 = match millis(unix_nanos) {
            Some(ms) => ms,
            None => {
                return None;
            },
        };
        let mut temp_name = timestamp_prefix(started_at);
        temp_name.append("-");
        temp_name.append(padded(client_port as u64, 5).as_str());
        temp_name.append(".tmp");
        let (writer, op) = CaptureWriter::new(CaptureHeader::new(started_ms));
        let capture = ConnectionCapture {
            client_port,
            started_at,
            next_sequence: 0,
            online_mode: false,
            writer,
        };
        Some(Begun { capture, temp_name, op })
    }

    /// The number of the next packet.
    pub fn next_sequence(&self) -> (r: u64)
        ensures
            r == self@.next_sequence,
    {
        self.next_sequence
    }

    /// Captures a packet under the next number.
    pub fn write_packet(
        &mut self,
        side: PacketSide,
        state: PacketState,
        compression_threshold: CompressionThreshold,
        packet_id: i32,
        raw_bytes: &Vec<u8>,
    ) -> (r: Result<StreamOp, CaptureError>)
        requires
            old(self)@.next_sequence < u64::MAX,
        ensures
            match r {
                Ok(op) => {
                    &&& raw_bytes@.len() <= u32::MAX
                    &&& op@ == OpModel::Write(
                        record_bytes(
                            (PacketModel {
                                side,
                                state,
                                compression_threshold,
                                packet_id,
                                raw_bytes: raw_bytes@,
                            }).record(old(self)@.next_sequence),
                        ),
                    )
                    &&& final(self)@ == old(self)@.after_packet()
                },
                Err(e) => {
                    &&& raw_bytes@.len() > u32::MAX
                    &&& e == CaptureError::TooLarge
                    &&& final(self)@ == old(self)@
                },
            },
    {
        let record = CaptureRecord {
            sequence: self.next_sequence,
            side,
            state,
            compression_threshold,
            packet_id,
            raw_bytes: raw_bytes.clone(),
        };
        match self.writer.write_record(&record) {
            Ok(op) => {
                self.next_sequence += 1;
                Ok(op)
            },
            Err(e) => Err(e),
        }
    }

    /// Takes back the number of the last packet, whose record could not be
    /// written.
    pub fn packet_not_written(&mut self)
        requires
            old(self)@.next_sequence > 0,
        ensures
            final(self)@ == old(self)@.before_packet(),
    {
        self.next_sequence -= 1;
    }

    /// Notes that the server runs in online mode.
    pub fn mark_online_mode(&mut self)
        ensures
            final(self)@ == (SessionModel { online_mode: true, ..old(self)@ }),
    {
        self.online_mode = true;
    }

    /// Ends the capture, whose stream stands at `end`.
    pub fn finish(self, end: u64, final_threshold: CompressionThreshold) -> (r: Ended)
        ensures
            r.ops@.len() == 3,
            r.ops@[0]@ == OpModel::SeekStart(0),
            r.ops@[1]@ == OpModel::Write(header_bytes(self@.final_header(final_threshold))),
            r.ops@[2]@ == OpModel::SeekStart(end as nat),
            r.final_name@ == final_text(
                self@.started_at,
                self@.client_port,
                final_threshold,
                self@.online_mode,
            ),
    {
        let mut final_name = timestamp_prefix(self.started_at);
        final_name.append("-");
        final_name.append(padded(self.client_port as u64, 5).as_str());
        final_name.append("-");
        final_name.append(threshold_label(final_threshold).as_str());
        final_name.append("-");
        final_name.append(
            if self.online_mode {
                "online"
            } else {
                "offline"
            },
        );
        final_name.append(".vpcap");
        let ops = self.writer.finish(end, final_threshold, self.online_mode);
        Ended { ops, final_name }
    }
}

/// A packet whose record could not be written uses up no number: the capture is
/// then as it was before.
pub proof fn failed_packets_use_no_number(m: SessionModel)
    requires
        m.next_sequence < u64::MAX,
    ensures
        m.after_packet().before_packet() == m,
{
}

/// The packets of a capture are numbered in order.
pub proof fn packets_are_numbered_in_order(m: SessionModel, n: nat)
    requires
        m.next_sequence + n <= u64::MAX,
    ensures
        m.after_packets(n) == (SessionModel {
            next_sequence: (m.next_sequence + n) as u64,
            ..m
        }),
    decreases n,
{
    if n > 0 {
        packets_are_numbered_in_order(m, (n - 1) as nat);
    }
}

/// The capture of a connection is read back as the packets were handed in,
/// numbered from 0, after a header that says how the connection ended.
pub proof fn connection_is_read_back(
    m: SessionModel,
    packets: Seq<PacketModel>,
    online_mode: bool,
    threshold: CompressionThreshold,
    k: nat,
)
    requires
        m.next_sequence == 0,
        packets.len() <= u64::MAX,
        forall|i: int|
            0 <= i < packets.len() ==> (#[trigger] packets[i]).raw_bytes.len() <= u32::MAX,
        k <= packets.len(),
    ensures
        ({
            let finished = (SessionModel { online_mode, ..m }).final_header(threshold);
            let begun = seq![OpModel::Write(header_bytes(m.header))] + m.packet_ops(packets);
            let written = (StreamModel { data: Seq::empty(), position: 0 }).run(begun);
            let data = written.run(finish_ops(finished, written.position)).data;
            &&& parse_header(data) == Ok::<_, CaptureError>(finished)
            &&& parse_record(left_after(data.skip(28), k)).0 == (if k < packets.len() {
                Ok::<_, CaptureError>(Some(packets[k as int].record(k as u64)))
            } else {
                Ok(None)
            })
        }),
{
    let records = Seq::new(packets.len(), |i: int| packets[i].record(i as u64));
    assert forall|i: int| 0 <= i < packets.len() implies #[trigger] m.packet_ops(packets)[i]
        == OpModel::Write(record_bytes(records[i])) by {
        packets_are_numbered_in_order(m, i as nat);
    }
    assert(seq![OpModel::Write(header_bytes(m.header))] + m.packet_ops(packets) =~= write_ops(
        m.header,
        records,
    ));
    assert forall|i: int| 0 <= i < records.len() implies (
    #[trigger] records[i]).raw_bytes.len() <= u32::MAX by {
        assert(packets[i].raw_bytes.len() <= u32::MAX);
    }
    capture_is_read_back(m.header, records, threshold, online_mode, k);
}

} // verus!
