//! Files that hold the packets of a connection.
//!
//! A capture begins with a header: the magic bytes, the format version, whether
//! the server ran in online mode, a zero byte, the protocol version, when the
//! connection started and the compression threshold that it ended with. Records
//! follow, one for each packet. Numbers are little-endian.

pub mod laws;
pub mod layout;
pub mod number;
pub mod reader;
pub mod results;
pub mod writer;

use vstd::prelude::*;

use crate::packet::{CompressionThreshold, PacketSide, PacketState, PROTOCOL_VERSION};
use crate::text::{decimal, decimal_text};
use number::le_bytes;
use vstd::string::StringExecFns;

verus! {

/// The number of bytes that a header has.
pub const HEADER_LEN: usize = 28;

/// The number of bytes that a record has before those of its packet.
pub const RECORD_HEAD_LEN: usize = 22;

/// The version of the format.
pub const VERSION: u16 = 1;

/// The bytes that every capture begins with, `VPCAP001`.
pub open spec fn spec_magic() -> Seq<u8> {
    seq![0x56u8, 0x50, 0x43, 0x41, 0x50, 0x30, 0x30, 0x31]
}

/// The bytes that every capture begins with.
pub fn magic() -> (r: Vec<u8>)
    ensures
        r@ == spec_magic(),
{
    let r: Vec<u8> = vec![0x56, 0x50, 0x43, 0x41, 0x50, 0x30, 0x30, 0x31];
    proof {
        assert(r@ =~= spec_magic());
    }
    r
}

/// What a capture says of its connection.
#[derive(Copy, Clone, Debug, PartialEq, Eq, Structural)]
pub struct CaptureHeader {
    pub protocol_version: i32,
    pub connection_started_unix_ms: i64,
    pub final_compression_threshold: CompressionThreshold,
    pub online_mode: bool,
}

impl CaptureHeader {
    /// The header of a connection that has just started.
    pub fn new(connection_started_unix_ms: i64) -> (r: Self)
        ensures
            r == (CaptureHeader {
                protocol_version: PROTOCOL_VERSION,
                connection_started_unix_ms,
                final_compression_threshold: CompressionThreshold::spec_default(),
                online_mode: false,
            }),
    {
        CaptureHeader {
            protocol_version: PROTOCOL_VERSION,
            connection_started_unix_ms,
            final_compression_threshold: CompressionThreshold::default(),
            online_mode: false,
        }
    }
}

/// A packet of a connection.
#[derive(Clone, Debug, PartialEq, Eq)]
pub struct CaptureRecord {
    pub sequence: u64,
    pub side: PacketSide,
    pub state: PacketState,
    pub compression_threshold: CompressionThreshold,
    pub packet_id: i32,
    pub raw_bytes: Vec<u8>,
}

/// What a record says.
#[verifier::ext_equal]
pub struct RecordModel {
    pub sequence: u64,
    pub side: PacketSide,
    pub state: PacketState,
    pub compression_threshold: CompressionThreshold,
    pub packet_id: i32,
    pub raw_bytes: Seq<u8>,
}

impl View for CaptureRecord {
    type V = RecordModel;

    open spec fn view(&self) -> RecordModel {
        RecordModel {
            sequence: self.sequence,
            side: self.side,
            state: self.state,
            compression_threshold: self.compression_threshold,
            packet_id: self.packet_id,
            raw_bytes: self.raw_bytes@,
        }
    }
}

/// Why a capture cannot be read or written.
#[derive(Copy, Clone, Debug, PartialEq, Eq, Structural)]
pub enum CaptureError {
    /// The bytes end too early.
    UnexpectedEof,
    /// The bytes do not begin as a capture does.
    InvalidMagic,
    /// The version of the format is not known.
    UnsupportedVersion(u16),
    /// The online mode is neither on nor off.
    InvalidOnlineMode(u8),
    /// There is no such side.
    InvalidSide(u8),
    /// There is no such state.
    InvalidState(u8),
    /// The packet has more bytes than a record can say.
    TooLarge,
}

impl CaptureError {
    /// The error in words.
    pub open spec fn spec_message(self) -> Seq<char> {
        match self {
            CaptureError::UnexpectedEof => "failed to fill whole buffer"@,
            CaptureError::InvalidMagic => "invalid capture magic"@,
            CaptureError::UnsupportedVersion(v) => "unsupported capture version "@ + decimal_text(
                v as nat,
            ),
            CaptureError::InvalidOnlineMode(v) => "invalid online mode flag "@ + decimal_text(
                v as nat,
            ),
            CaptureError::InvalidSide(v) => "invalid packet side "@ + decimal_text(v as nat),
            CaptureError::InvalidState(v) => "invalid packet state "@ + decimal_text(v as nat),
            CaptureError::TooLarge => "capture packet is too large"@,
        }
    }

    /// The error in words.
    pub fn message(&self) -> (r: String)
        ensures
            r@ == self.spec_message(),
    {
        match self {
            CaptureError::UnexpectedEof => "failed to fill whole buffer".to_owned(),
            CaptureError::InvalidMagic => "invalid capture magic".to_owned(),
            CaptureError::UnsupportedVersion(v) => {
                let mut s = "unsupported capture version ".to_owned();
                s.append(decimal(*v as u64).as_str());
                s
            },
            CaptureError::InvalidOnlineMode(v) => {
                let mut s = "invalid online mode flag ".to_owned();
                s.append(decimal(*v as u64).as_str());
                s
            },
            CaptureError::InvalidSide(v) => {
                let mut s = "invalid packet side ".to_owned();
                s.append(decimal(*v as u64).as_str());
                s
            },
            CaptureError::InvalidState(v) => {
                let mut s = "invalid packet state ".to_owned();
                s.append(decimal(*v as u64).as_str());
                s
            },
            CaptureError::TooLarge => "capture packet is too large".to_owned(),
        }
    }
}

/// The byte that stands for a side.
pub open spec fn side_byte(side: PacketSide) -> u8 {
    match side {
        PacketSide::Clientbound => 0,
        PacketSide::Serverbound => 1,
    }
}

/// The byte that stands for a state.
pub open spec fn state_byte(state: PacketState) -> u8 {
    match state {
        PacketState::Handshake => 0,
        PacketState::Status => 1,
        PacketState::Login => 2,
        PacketState::Configuration => 3,
        PacketState::Play => 4,
    }
}

/// The byte that stands for a side.
pub fn side_to_u8(side: PacketSide) -> (r: u8)
    ensures
        r == side_byte(side),
{
    match side {
        PacketSide::Clientbound => 0,
        PacketSide::Serverbound => 1,
    }
}

/// The side that a byte stands for.
pub fn u8_to_side(value: u8) -> (r: Result<PacketSide, CaptureError>)
    ensures
        match r {
            Ok(side) => side_byte(side) == value,
            Err(e) => value > 1 && e == CaptureError::InvalidSide(value),
        },
{
    match value {
        0 => Ok(PacketSide::Clientbound),
        1 => Ok(PacketSide::Serverbound),
        _ => Err(CaptureError::InvalidSide(value)),
    }
}

/// The byte that stands for a state.
pub fn state_to_u8(state: PacketState) -> (r: u8)
    ensures
        r == state_byte(state),
{
    match state {
        PacketState::Handshake => 0,
        PacketState::Status => 1,
        PacketState::Login => 2,
        PacketState::Configuration => 3,
        PacketState::Play => 4,
    }
}

/// The state that a byte stands for.
pub fn u8_to_state(value: u8) -> (r: Result<PacketState, CaptureError>)
    ensures
        match r {
            Ok(state) => state_byte(state) == value,
            Err(e) => value > 4 && e == CaptureError::InvalidState(value),
        },
{
    match value {
        0 => Ok(PacketState::Handshake),
        1 => Ok(PacketState::Status),
        2 => Ok(PacketState::Login),
        3 => Ok(PacketState::Configuration),
        4 => Ok(PacketState::Play),
        _ => Err(CaptureError::InvalidState(value)),
    }
}

/// The bytes of a header.
pub open spec fn header_bytes(h: CaptureHeader) -> Seq<u8> {
    spec_magic() + le_bytes(VERSION as int, 2) + seq![
        if h.online_mode {
            1u8
        } else {
            0u8
        },
        0u8,
    ] + le_bytes(h.protocol_version as int, 4) + le_bytes(h.connection_started_unix_ms as int, 8)
        + le_bytes(h.final_compression_threshold.0 as int, 4)
}

/// The bytes of a record before those of its packet.
pub open spec fn record_head(r: RecordModel) -> Seq<u8> {
    le_bytes(r.sequence as int, 8) + seq![side_byte(r.side), state_byte(r.state)] + le_bytes(
        r.compression_threshold.0 as int,
        4,
    ) + le_bytes(r.packet_id as int, 4) + le_bytes(r.raw_bytes.len() as int, 4)
}

/// The bytes of a record.
pub open spec fn record_bytes(r: RecordModel) -> Seq<u8> {
    record_head(r) + r.raw_bytes
}

} // verus!
