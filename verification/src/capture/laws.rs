//! What holds of captures as a whole.

use vstd::prelude::*;

use super::number::{bytes_range, le_bytes, number_is_read_back};
use super::reader::{number_at, parse_header, parse_record};
use super::writer::OpModel;
use super::{
    header_bytes, record_bytes, side_byte, spec_magic, state_byte, CaptureError, CaptureHeader,
    RecordModel, VERSION,
};
use crate::packet::CompressionThreshold;

verus! {

/// A stream that a capture is written to: what it holds and where it stands.
#[verifier::ext_equal]
pub struct StreamModel {
    pub data: Seq<u8>,
    pub position: nat,
}

impl StreamModel {
    /// The stream after an operation. Bytes that are written take the place of
    /// those that stood there; a gap before them is filled with zeros.
    pub open spec fn apply(self, op: OpModel) -> StreamModel {
        match op {
            OpModel::SeekStart(position) => StreamModel { position, ..self },
            OpModel::Write(bytes) => {
                let p = self.position as int;
                let end = p + bytes.len();
                let before = if p <= self.data.len() {
                    self.data.take(p)
                } else {
                    self.data + Seq::new((p - self.data.len()) as nat, |i: int| 0u8)
                };
                let after = if end <= self.data.len() {
                    self.data.skip(end)
                } else {
                    Seq::empty()
                };
                StreamModel { data: before + bytes + after, position: end as nat }
            },
        }
    }

    /// The stream after some operations.
    pub open spec fn run(self, ops: Seq<OpModel>) -> StreamModel
        decreases ops.len(),
    {
        if ops.len() == 0 {
            self
        } else {
            self.run(ops.drop_last()).apply(ops.last())
        }
    }
}

/// What is done to write a header and records.
pub open spec fn write_ops(h: CaptureHeader, records: Seq<RecordModel>) -> Seq<OpModel> {
    seq![OpModel::Write(header_bytes(h))] + records.map_values(
        |r: RecordModel| OpModel::Write(record_bytes(r)),
    )
}

/// What is done to end a capture whose stream stands at `end`.
pub open spec fn finish_ops(h: CaptureHeader, end: nat) -> Seq<OpModel> {
    seq![OpModel::SeekStart(0), OpModel::Write(header_bytes(h)), OpModel::SeekStart(end)]
}

/// The bytes of the first `n` records.
pub open spec fn joined(records: Seq<RecordModel>, n: nat) -> Seq<u8>
    decreases n,
{
    if n == 0 {
        Seq::empty()
    } else {
        joined(records, (n - 1) as nat) + record_bytes(records[n - 1])
    }
}

/// The bytes of the records from `k` on.
pub open spec fn joined_from(records: Seq<RecordModel>, k: nat) -> Seq<u8>
    decreases records.len() - k,
{
    if k >= records.len() {
        Seq::empty()
    } else {
        record_bytes(records[k as int]) + joined_from(records, k + 1)
    }
}

/// What is left after `k` records were read.
pub open spec fn left_after(rest: Seq<u8>, k: nat) -> Seq<u8>
    decreases k,
{
    if k == 0 {
        rest
    } else {
        let left = left_after(rest, (k - 1) as nat);
        left.skip(parse_record(left).1 as int)
    }
}

/// A number that was written at some place is read there.
proof fn lemma_number_at(before: Seq<u8>, v: int, n: nat, after: Seq<u8>)
    ensures
        number_at(before + le_bytes(v, n) + after, before.len() as int, (before.len() + n) as int) == v
            % bytes_range(n),
        le_bytes(v, n).len() == n,
{
    number_is_read_back(v, n);
    assert((before + le_bytes(v, n) + after).subrange(before.len() as int, (before.len() + n) as int)
        =~= le_bytes(v, n));
}

/// How far numbers of each size reach.
proof fn lemma_ranges()
    ensures
        bytes_range(2) == 0x1_0000,
        bytes_range(4) == 0x1_0000_0000,
        bytes_range(8) == 0x1_0000_0000_0000_0000,
{
    reveal_with_fuel(bytes_range, 9);
}

/// The header that was written is the one that is read, whatever follows.
pub proof fn header_is_read_back(h: CaptureHeader, rest: Seq<u8>)
    ensures
        header_bytes(h).len() == 28,
        parse_header(header_bytes(h) + rest) == Ok::<_, CaptureError>(h),
        (header_bytes(h) + rest).skip(28) == rest,
{
    lemma_ranges();
    let all = header_bytes(h) + rest;
    let flags = seq![
        if h.online_mode {
            1u8
        } else {
            0u8
        },
        0u8,
    ];
    let version = le_bytes(VERSION as int, 2);
    let protocol = le_bytes(h.protocol_version as int, 4);
    let started = le_bytes(h.connection_started_unix_ms as int, 8);
    let threshold = le_bytes(h.final_compression_threshold.0 as int, 4);
    let a = spec_magic();
    let b = a + version + flags;
    let c = b + protocol;
    let d = c + started;
    lemma_number_at(a, VERSION as int, 2, flags + protocol + started + threshold + rest);
    assert(all =~= a + version + (flags + protocol + started + threshold + rest));
    lemma_number_at(b, h.protocol_version as int, 4, started + threshold + rest);
    assert(all =~= b + protocol + (started + threshold + rest));
    lemma_number_at(c, h.connection_started_unix_ms as int, 8, threshold + rest);
    assert(all =~= c + started + (threshold + rest));
    lemma_number_at(d, h.final_compression_threshold.0 as int, 4, rest);
    assert(all =~= d + threshold + rest);
    assert(all.take(8) =~= spec_magic());
    assert(all[10] == flags[0]);
    assert(all.skip(28) =~= rest);
}

/// The record that was written is the one that is read, whatever follows, and
/// no more than its bytes are read.
pub proof fn record_is_read_back(r: RecordModel, rest: Seq<u8>)
    requires
        r.raw_bytes.len() <= u32::MAX,
    ensures
        record_bytes(r).len() == 22 + r.raw_bytes.len(),
        parse_record(record_bytes(r) + rest) == (
            Ok::<_, CaptureError>(Some(r)),
            record_bytes(r).len(),
        ),
        (record_bytes(r) + rest).skip(record_bytes(r).len() as int) == rest,
{
    lemma_ranges();
    let all = record_bytes(r) + rest;
    let sequence = le_bytes(r.sequence as int, 8);
    let tags = seq![side_byte(r.side), state_byte(r.state)];
    let threshold = le_bytes(r.compression_threshold.0 as int, 4);
    let id = le_bytes(r.packet_id as int, 4);
    let len = le_bytes(r.raw_bytes.len() as int, 4);
    let raw = r.raw_bytes;
    let none = Seq::<u8>::empty();
    let b = sequence + tags;
    let c = b + threshold;
    let d = c + id;
    lemma_number_at(none, r.sequence as int, 8, tags + threshold + id + len + raw + rest);
    assert(all =~= none + sequence + (tags + threshold + id + len + raw + rest));
    lemma_number_at(b, r.compression_threshold.0 as int, 4, id + len + raw + rest);
    assert(all =~= b + threshold + (id + len + raw + rest));
    lemma_number_at(c, r.packet_id as int, 4, len + raw + rest);
    assert(all =~= c + id + (len + raw + rest));
    lemma_number_at(d, r.raw_bytes.len() as int, 4, raw + rest);
    assert(all =~= d + len + (raw + rest));
    assert(all[8] == side_byte(r.side));
    assert(all[9] == state_byte(r.state));
    assert(all.subrange(22, 22 + raw.len() as int) =~= raw);
    assert(all.skip(22 + raw.len() as int) =~= rest);
}

/// The records split at any place.
proof fn lemma_joined(records: Seq<RecordModel>, k: nat)
    requires
        k <= records.len(),
    ensures
        joined(records, k) + joined_from(records, k) == joined(records, records.len()),
    decreases records.len() - k,
{
    if k < records.len() {
        lemma_joined(records, k + 1);
        assert(joined(records, k) + joined_from(records, k) =~= joined(records, k + 1)
            + joined_from(records, k + 1));
    } else {
        assert(joined(records, k) + joined_from(records, k) =~= joined(records, k));
    }
}

/// Records come back one after the other, in the order in which they were
/// written, and then there are no more.
pub proof fn records_are_read_back(records: Seq<RecordModel>, k: nat)
    requires
        k <= records.len(),
        forall|i: int|
            0 <= i < records.len() ==> (#[trigger] records[i]).raw_bytes.len() <= u32::MAX,
    ensures
        parse_record(left_after(joined(records, records.len()), k)).0 == (if k < records.len() {
            Ok::<_, CaptureError>(Some(records[k as int]))
        } else {
            Ok(None)
        }),
        left_after(joined(records, records.len()), k) == joined_from(records, k),
    decreases k,
{
    if k == 0 {
        lemma_joined(records, 0);
        assert(joined_from(records, 0) =~= joined(records, records.len()));
    } else {
        records_are_read_back(records, (k - 1) as nat);
        record_is_read_back(records[k - 1], joined_from(records, k));
    }
    if k < records.len() {
        record_is_read_back(records[k as int], joined_from(records, k + 1));
    }
}

/// Writing at the end of a stream appends.
proof fn lemma_append(data: Seq<u8>, bytes: Seq<u8>)
    ensures
        (StreamModel { data, position: data.len() }).apply(OpModel::Write(bytes)) == (StreamModel {
            data: data + bytes,
            position: (data + bytes).len(),
        }),
{
    let s = StreamModel { data, position: data.len() };
    assert(s.apply(OpModel::Write(bytes)).data =~= data + bytes);
}

/// What an empty stream holds after a header and the first records.
proof fn lemma_written(h: CaptureHeader, records: Seq<RecordModel>, n: nat)
    requires
        n <= records.len(),
    ensures
        (StreamModel { data: Seq::empty(), position: 0 }).run(write_ops(h, records).take(1 + n as int))
            == (StreamModel {
            data: header_bytes(h) + joined(records, n),
            position: (header_bytes(h) + joined(records, n)).len(),
        }),
    decreases n,
{
    let empty = StreamModel { data: Seq::empty(), position: 0 };
    let ops = write_ops(h, records).take(1 + n as int);
    if n == 0 {
        assert(ops.drop_last() =~= Seq::empty());
        assert(ops.last() == OpModel::Write(header_bytes(h)));
        lemma_append(Seq::empty(), header_bytes(h));
        assert(Seq::empty() + header_bytes(h) =~= header_bytes(h) + joined(records, 0));
        assert(empty.run(ops.drop_last()) == empty);
    } else {
        let before = header_bytes(h) + joined(records, (n - 1) as nat);
        lemma_written(h, records, (n - 1) as nat);
        assert(ops.drop_last() =~= write_ops(h, records).take(n as int));
        assert(ops.last() == OpModel::Write(record_bytes(records[n - 1])));
        lemma_append(before, record_bytes(records[n - 1]));
        assert(before + record_bytes(records[n - 1]) =~= header_bytes(h) + joined(records, n));
    }
}

/// Ending a capture changes its header and nothing else.
pub proof fn finishing_changes_only_the_header(
    h: CaptureHeader,
    finished: CaptureHeader,
    rest: Seq<u8>,
)
    ensures
        (StreamModel {
            data: header_bytes(h) + rest,
            position: (header_bytes(h) + rest).len(),
        }).run(finish_ops(finished, (header_bytes(h) + rest).len())) == (StreamModel {
            data: header_bytes(finished) + rest,
            position: (header_bytes(finished) + rest).len(),
        }),
{
    header_is_read_back(h, rest);
    header_is_read_back(finished, rest);
    let s = StreamModel {
        data: header_bytes(h) + rest,
        position: (header_bytes(h) + rest).len(),
    };
    let ops = finish_ops(finished, s.position);
    let s1 = s.apply(ops[0]);
    let s2 = s1.apply(ops[1]);
    assert(ops.drop_last().drop_last().drop_last() =~= Seq::empty());
    assert(s.run(ops.drop_last().drop_last().drop_last()) == s);
    assert(s.run(ops.drop_last().drop_last()) == s1);
    assert(s.run(ops.drop_last()) == s2);
    assert(s2.data =~= header_bytes(finished) + rest);
}

/// A capture that was written and ended is read back whole: its header with how
/// the connection ended, then its records, then no more.
pub proof fn capture_is_read_back(
    h: CaptureHeader,
    records: Seq<RecordModel>,
    threshold: CompressionThreshold,
    online_mode: bool,
    k: nat,
)
    requires
        forall|i: int|
            0 <= i < records.len() ==> (#[trigger] records[i]).raw_bytes.len() <= u32::MAX,
        k <= records.len(),
    ensures
        ({
            let finished = CaptureHeader {
                final_compression_threshold: threshold,
                online_mode,
                ..h
            };
            let written = (StreamModel { data: Seq::empty(), position: 0 }).run(
                write_ops(h, records),
            );
            let data = written.run(finish_ops(finished, written.position)).data;
            &&& parse_header(data) == Ok::<_, CaptureError>(finished)
            &&& parse_record(left_after(data.skip(28), k)).0 == (if k < records.len() {
                Ok::<_, CaptureError>(Some(records[k as int]))
            } else {
                Ok(None)
            })
        }),
{
    let finished = CaptureHeader { final_compression_threshold: threshold, online_mode, ..h };
    let rest = joined(records, records.len());
    lemma_written(h, records, records.len());
    assert(write_ops(h, records).take(1 + records.len() as int) =~= write_ops(h, records));
    finishing_changes_only_the_header(h, finished, rest);
    header_is_read_back(finished, rest);
    records_are_read_back(records, k);
}

} // verus!
