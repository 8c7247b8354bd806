//! Message schema: the typed command/response vocabulary exchanged between
//! host and target, with its compact tagged-union wire encoding.
//!
//! This layer operates on the exact byte slice handed over by the frame
//! codec and performs no semantic validation of addresses; that belongs to
//! the address validator.

use vstd::prelude::*;
use crate::MAX_FRAME_PAYLOAD;

verus! {

/// Wire tag of `Ping`.
pub const TAG_PING: u8 = 0;

/// Wire tag of `WriteChunk`.
pub const TAG_WRITE_CHUNK: u8 = 1;

/// Wire tag of `Execute`.
pub const TAG_EXECUTE: u8 = 2;

/// Wire tag of `Ack`.
pub const TAG_ACK: u8 = 0;

/// Wire tag of `Nack`.
pub const TAG_NACK: u8 = 1;

/// Wire tag of `Pong`.
pub const TAG_PONG: u8 = 2;

/// Why a command was rejected.
#[derive(Clone, Copy, Debug, PartialEq, Eq, Structural)]
pub enum ErrorKind {
    /// The requested range overflows the address width or leaves the
    /// writable range.
    OutOfBounds,
    /// The requested range intersects the range reserved for the running
    /// bootloader.
    OverlapsReserved,
}

/// Command sent by the host.
#[derive(Debug, PartialEq, Eq)]
pub enum Host2TargetMessage {
    /// Liveness probe; carries no data.
    Ping,
    /// Write `data` into device memory starting at `address`.
    WriteChunk { address: u32, data: Vec<u8> },
    /// Hand control over to loaded code at `entry_point`.
    Execute { entry_point: u32 },
}

/// Mathematical model of a host command: `WriteChunk` data as a sequence.
pub enum HostMessageView {
    Ping,
    WriteChunk { address: u32, data: Seq<u8> },
    Execute { entry_point: u32 },
}

impl View for Host2TargetMessage {
    type V = HostMessageView;

    open spec fn view(&self) -> HostMessageView {
        match self {
            Host2TargetMessage::Ping => HostMessageView::Ping,
            Host2TargetMessage::WriteChunk { address, data } => HostMessageView::WriteChunk {
                address: *address,
                data: data@,
            },
            Host2TargetMessage::Execute { entry_point } => HostMessageView::Execute {
                entry_point: *entry_point,
            },
        }
    }
}

/// Response sent by the target.
#[derive(Clone, Copy, Debug, PartialEq, Eq, Structural)]
pub enum Target2HostMessage {
    /// Previous command accepted and applied.
    Ack,
    /// Previous command rejected; device state unchanged.
    Nack { reason: ErrorKind },
    /// Reply to `Ping`.
    Pong,
}

/// Why a byte slice could not be decoded into a command or response.
#[derive(Clone, Copy, Debug, PartialEq, Eq, Structural)]
pub enum SchemaError {
    /// The leading tag byte names no known message, or a field holds an
    /// unknown code.
    UnknownTag,
    /// The slice ends before the fields of the tagged message do.
    Truncated,
    /// The length field is inconsistent with the remaining bytes, or fixed
    /// fields are followed by trailing bytes.
    LengthMismatch,
}

/// A host command the wire format can carry: `WriteChunk` data must fit in a
/// frame beside its seven header bytes.
pub open spec fn req_wf(m: HostMessageView) -> bool {
    match m {
        HostMessageView::WriteChunk { address, data } => data.len() + 7 <= MAX_FRAME_PAYLOAD,
        _ => true,
    }
}

/// Little-endian bytes of a 32-bit value.
pub open spec fn le32_bytes(x: u32) -> Seq<u8> {
    seq![
        (x & 0xff) as u8,
        ((x >> 8) & 0xff) as u8,
        ((x >> 16) & 0xff) as u8,
        ((x >> 24) & 0xff) as u8,
    ]
}

/// 32-bit value of four little-endian bytes.
pub open spec fn u32_from_le(b0: u8, b1: u8, b2: u8, b3: u8) -> u32 {
    (b0 as u32) | ((b1 as u32) << 8) | ((b2 as u32) << 16) | ((b3 as u32) << 24)
}

/// Little-endian bytes of a 16-bit value.
pub open spec fn le16_bytes(x: u16) -> Seq<u8> {
    seq![(x & 0xff) as u8, ((x >> 8) & 0xff) as u8]
}

/// 16-bit value of two little-endian bytes.
pub open spec fn u16_from_le(b0: u8, b1: u8) -> u16 {
    (b0 as u16) | ((b1 as u16) << 8)
}

pub proof fn lemma_u32_le_round_trip(x: u32)
    ensures
        ({
            let b = le32_bytes(x);
            u32_from_le(b[0], b[1], b[2], b[3]) == x
        }),
{
    assert(((x & 0xff) as u8 as u32) | ((((x >> 8) & 0xff) as u8 as u32) << 8) | ((((x >> 16)
        & 0xff) as u8 as u32) << 16) | ((((x >> 24) & 0xff) as u8 as u32) << 24) == x)
        by (bit_vector);
}

pub proof fn lemma_u16_le_round_trip(x: u16)
    ensures
        ({
            let b = le16_bytes(x);
            u16_from_le(b[0], b[1]) == x
        }),
{
    assert(((x & 0xff) as u8 as u16) | ((((x >> 8) & 0xff) as u8 as u16) << 8) == x)
        by (bit_vector);
}

/// Wire byte of an error kind.
pub open spec fn error_kind_byte(k: ErrorKind) -> u8 {
    match k {
        ErrorKind::OutOfBounds => 0,
        ErrorKind::OverlapsReserved => 1,
    }
}

/// Wire encoding of a host command.
pub open spec fn serialize_req_spec(m: HostMessageView) -> Seq<u8> {
    match m {
        HostMessageView::Ping => seq![TAG_PING],
        HostMessageView::WriteChunk { address, data } => seq![TAG_WRITE_CHUNK] + le32_bytes(
            address,
        ) + le16_bytes(data.len() as u16) + data,
        HostMessageView::Execute { entry_point } => seq![TAG_EXECUTE] + le32_bytes(entry_point),
    }
}

/// Wire encoding of a response.
pub open spec fn serialize_resp_spec(m: Target2HostMessage) -> Seq<u8> {
    match m {
        Target2HostMessage::Ack => seq![TAG_ACK],
        Target2HostMessage::Nack { reason } => seq![TAG_NACK, error_kind_byte(reason)],
        Target2HostMessage::Pong => seq![TAG_PONG],
    }
}

/// Decoding of a byte slice into a host command, or the exact reason it is
/// malformed.
pub open spec fn deserialize_req_spec(s: Seq<u8>) -> Result<HostMessageView, SchemaError> {
    if s.len() == 0 {
        Err(SchemaError::Truncated)
    } else if s[0] == TAG_PING {
        if s.len() == 1 {
            Ok(HostMessageView::Ping)
        } else {
            Err(SchemaError::LengthMismatch)
        }
    } else if s[0] == TAG_WRITE_CHUNK {
        if s.len() < 7 {
            Err(SchemaError::Truncated)
        } else if s.len() != 7 + u16_from_le(s[5], s[6]) {
            Err(SchemaError::LengthMismatch)
        } else {
            Ok(
                HostMessageView::WriteChunk {
                    address: u32_from_le(s[1], s[2], s[3], s[4]),
                    data: s.subrange(7, s.len() as int),
                },
            )
        }
    } else if s[0] == TAG_EXECUTE {
        if s.len() < 5 {
            Err(SchemaError::Truncated)
        } else if s.len() != 5 {
            Err(SchemaError::LengthMismatch)
        } else {
            Ok(HostMessageView::Execute { entry_point: u32_from_le(s[1], s[2], s[3], s[4]) })
        }
    } else {
        Err(SchemaError::UnknownTag)
    }
}

/// Decoding of a byte slice into a response, or the exact reason it is
/// malformed.
pub open spec fn deserialize_resp_spec(s: Seq<u8>) -> Result<Target2HostMessage, SchemaError> {
    if s.len() == 0 {
        Err(SchemaError::Truncated)
    } else if s[0] == TAG_ACK {
        if s.len() == 1 {
            Ok(Target2HostMessage::Ack)
        } else {
            Err(SchemaError::LengthMismatch)
        }
    } else if s[0] == TAG_NACK {
        if s.len() < 2 {
            Err(SchemaError::Truncated)
        } else if s.len() != 2 {
            Err(SchemaError::LengthMismatch)
        } else if s[1] == 0 {
            Ok(Target2HostMessage::Nack { reason: ErrorKind::OutOfBounds })
        } else if s[1] == 1 {
            Ok(Target2HostMessage::Nack { reason: ErrorKind::OverlapsReserved })
        } else {
            Err(SchemaError::UnknownTag)
        }
    } else if s[0] == TAG_PONG {
        if s.len() == 1 {
            Ok(Target2HostMessage::Pong)
        } else {
            Err(SchemaError::LengthMismatch)
        }
    } else {
        Err(SchemaError::UnknownTag)
    }
}

fn push_u32_le(out: &mut Vec<u8>, x: u32)
    ensures
        final(out)@ == old(out)@ + le32_bytes(x),
{
    out.push((x & 0xff) as u8);
    out.push(((x >> 8) & 0xff) as u8);
    out.push(((x >> 16) & 0xff) as u8);
    out.push(((x >> 24) & 0xff) as u8);
    assert(out@ =~= old(out)@ + le32_bytes(x));
}

fn push_u16_le(out: &mut Vec<u8>, x: u16)
    ensures
        final(out)@ == old(out)@ + le16_bytes(x),
{
    out.push((x & 0xff) as u8);
    out.push(((x >> 8) & 0xff) as u8);
    assert(out@ =~= old(out)@ + le16_bytes(x));
}

fn read_u32_le(bytes: &[u8], i: usize) -> (r: u32)
    requires
        i + 4 <= bytes@.len(),
    ensures
        r == u32_from_le(bytes@[i as int], bytes@[i + 1], bytes@[i + 2], bytes@[i + 3]),
{
    (bytes[i] as u32) | ((bytes[i + 1] as u32) << 8) | ((bytes[i + 2] as u32) << 16) | ((bytes[i
        + 3] as u32) << 24)
}

/// Encode a host command into its exact wire bytes.
pub fn serialize_request(m: &Host2TargetMessage) -> (r: Vec<u8>)
    requires
        req_wf(m@),
    ensures
        r@ == serialize_req_spec(m@),
        r@.len() <= MAX_FRAME_PAYLOAD,
{
    let mut out: Vec<u8> = Vec::new();
    match m {
        Host2TargetMessage::Ping => {
            out.push(TAG_PING);
        },
        Host2TargetMessage::WriteChunk { address, data } => {
            out.push(TAG_WRITE_CHUNK);
            push_u32_le(&mut out, *address);
            push_u16_le(&mut out, data.len() as u16);
            let mut i: usize = 0;
            while i < data.len()
                invariant
                    i <= data@.len(),
                    out@ == seq![TAG_WRITE_CHUNK] + le32_bytes(m@->WriteChunk_address)
                        + le16_bytes(data@.len() as u16) + data@.subrange(0, i as int),
                    data@ == m@->WriteChunk_data,
                decreases data@.len() - i,
            {
                out.push(data[i]);
                assert(data@.subrange(0, i + 1) =~= data@.subrange(0, i as int) + seq![data@[i as int]]);
                i = i + 1;
            }
            assert(data@.subrange(0, data@.len() as int) =~= data@);
        },
        Host2TargetMessage::Execute { entry_point } => {
            out.push(TAG_EXECUTE);
            push_u32_le(&mut out, *entry_point);
        },
    }
    assert(out@ =~= serialize_req_spec(m@));
    out
}

/// Encode a response into its exact wire bytes.
pub fn serialize_response(m: &Target2HostMessage) -> (r: Vec<u8>)
    ensures
        r@ == serialize_resp_spec(*m),
        r@.len() <= MAX_FRAME_PAYLOAD,
{
    let mut out: Vec<u8> = Vec::new();
    match m {
        Target2HostMessage::Ack => {
            out.push(TAG_ACK);
        },
        Target2HostMessage::Nack { reason } => {
            out.push(TAG_NACK);
            match reason {
                ErrorKind::OutOfBounds => out.push(0),
                ErrorKind::OverlapsReserved => out.push(1),
            }
        },
        Target2HostMessage::Pong => {
            out.push(TAG_PONG);
        },
    }
    assert(out@ =~= serialize_resp_spec(*m));
    out
}

/// Decode a byte slice into a host command, or say exactly why it is
/// malformed.
pub fn deserialize_request(bytes: &[u8]) -> (r: Result<Host2TargetMessage, SchemaError>)
    ensures
        match deserialize_req_spec(bytes@) {
            Ok(m) => r is Ok && r->Ok_0@ == m,
            Err(e) => r == Err::<Host2TargetMessage, SchemaError>(e),
        },
{
    if bytes.len() == 0 {
        return Err(SchemaError::Truncated);
    }
    let tag = bytes[0];
    if tag == TAG_PING {
        if bytes.len() == 1 {
            Ok(Host2TargetMessage::Ping)
        } else {
            Err(SchemaError::LengthMismatch)
        }
    } else if tag == TAG_WRITE_CHUNK {
        if bytes.len() < 7 {
            return Err(SchemaError::Truncated);
        }
        let n = (bytes[5] as u16) | ((bytes[6] as u16) << 8);
        if bytes.len() != 7 + n as usize {
            return Err(SchemaError::LengthMismatch);
        }
        let address = read_u32_le(bytes, 1);
        let mut data: Vec<u8> = Vec::new();
        let mut i: usize = 7;
        while i < bytes.len()
            invariant
                7 <= i <= bytes@.len(),
                data@ == bytes@.subrange(7, i as int),
            decreases bytes@.len() - i,
        {
            data.push(bytes[i]);
            assert(bytes@.subrange(7, i + 1) =~= bytes@.subrange(7, i as int) + seq![bytes@[i as int]]);
            i = i + 1;
        }
        Ok(Host2TargetMessage::WriteChunk { address, data })
    } else if tag == TAG_EXECUTE {
        if bytes.len() < 5 {
            Err(SchemaError::Truncated)
        } else if bytes.len() != 5 {
            Err(SchemaError::LengthMismatch)
        } else {
            Ok(Host2TargetMessage::Execute { entry_point: read_u32_le(bytes, 1) })
        }
    } else {
        Err(SchemaError::UnknownTag)
    }
}

/// Decode a byte slice into a response, or say exactly why it is malformed.
pub fn deserialize_response(bytes: &[u8]) -> (r: Result<Target2HostMessage, SchemaError>)
    ensures
        r == deserialize_resp_spec(bytes@),
{
    if bytes.len() == 0 {
        return Err(SchemaError::Truncated);
    }
    let tag = bytes[0];
    if tag == TAG_ACK {
        if bytes.len() == 1 {
            Ok(Target2HostMessage::Ack)
        } else {
            Err(SchemaError::LengthMismatch)
        }
    } else if tag == TAG_NACK {
        if bytes.len() < 2 {
            Err(SchemaError::Truncated)
        } else if bytes.len() != 2 {
            Err(SchemaError::LengthMismatch)
        } else if bytes[1] == 0 {
            Ok(Target2HostMessage::Nack { reason: ErrorKind::OutOfBounds })
        } else if bytes[1] == 1 {
            Ok(Target2HostMessage::Nack { reason: ErrorKind::OverlapsReserved })
        } else {
            Err(SchemaError::UnknownTag)
        }
    } else if tag == TAG_PONG {
        if bytes.len() == 1 {
            Ok(Target2HostMessage::Pong)
        } else {
            Err(SchemaError::LengthMismatch)
        }
    } else {
        Err(SchemaError::UnknownTag)
    }
}

/// Round trip of the command encoding: every wire-representable command
/// decodes back to itself.
pub proof fn lemma_request_round_trip(m: HostMessageView)
    requires
        req_wf(m),
    ensures
        deserialize_req_spec(serialize_req_spec(m)) == Ok::<HostMessageView, SchemaError>(m),
{
    match m {
        HostMessageView::Ping => {
        },
        HostMessageView::WriteChunk { address, data } => {
            let s = serialize_req_spec(m);
            let a = le32_bytes(address);
            let l = le16_bytes(data.len() as u16);
            assert(s.len() == 7 + data.len());
            assert(s[0] == TAG_WRITE_CHUNK);
            assert(s[1] == a[0] && s[2] == a[1] && s[3] == a[2] && s[4] == a[3]);
            assert(s[5] == l[0] && s[6] == l[1]);
            lemma_u16_le_round_trip(data.len() as u16);
            assert(u16_from_le(s[5], s[6]) == data.len());
            lemma_u32_le_round_trip(address);
            assert(u32_from_le(s[1], s[2], s[3], s[4]) == address);
            assert(s.subrange(7, s.len() as int) =~= data);
        },
        HostMessageView::Execute { entry_point } => {
            let s = serialize_req_spec(m);
            let a = le32_bytes(entry_point);
            assert(s.len() == 5);
            assert(s[0] == TAG_EXECUTE);
            assert(s[1] == a[0] && s[2] == a[1] && s[3] == a[2] && s[4] == a[3]);
            lemma_u32_le_round_trip(entry_point);
        },
    }
}

/// Every wire-representable command serializes into one frame payload.
pub proof fn lemma_serialized_request_len(m: HostMessageView)
    requires
        req_wf(m),
    ensures
        serialize_req_spec(m).len() <= MAX_FRAME_PAYLOAD,
{
}

/// Round trip of the response encoding.
pub proof fn lemma_response_round_trip(m: Target2HostMessage)
    ensures
        deserialize_resp_spec(serialize_resp_spec(m)) == Ok::<Target2HostMessage, SchemaError>(m),
{
}

} // verus!
