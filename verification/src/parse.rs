//! Bounds-checked parsing of the kernel's interface message buffer.
//!
//! The routing-interface list arrives as one byte buffer holding a sequence
//! of variable-length messages. Each message begins with a fixed header: a
//! little-endian two-byte total length, a version byte, and a type byte. The
//! parser advances by exactly the declared length whatever the type is, keeps
//! only well-formed interface-info records, and stops (rather than crashing)
//! at any malformed or truncated trailing record.

use vstd::prelude::*;

use crate::data::CounterSample;

verus! {

/// Message-type tag of an interface-info record with 64-bit counters.
pub const IFINFO_TYPE: u8 = 18;

/// Bytes needed to read a message's declared length and its type tag.
pub const HEADER_LEN: usize = 4;

/// Offset of the type tag inside a message.
pub const TYPE_OFFSET: usize = 3;

/// Offset of the interface index (little-endian u16) inside an
/// interface-info message.
pub const INDEX_OFFSET: usize = 12;

/// Offset of the cumulative input-packet counter (little-endian u64).
pub const PACKETS_IN_OFFSET: usize = 56;

/// Offset of the cumulative input-error counter.
pub const ERRORS_IN_OFFSET: usize = 64;

/// Offset of the cumulative output-packet counter.
pub const PACKETS_OUT_OFFSET: usize = 72;

/// Offset of the cumulative output-error counter.
pub const ERRORS_OUT_OFFSET: usize = 80;

/// Offset of the cumulative input-byte counter.
pub const BYTES_IN_OFFSET: usize = 96;

/// Offset of the cumulative output-byte counter.
pub const BYTES_OUT_OFFSET: usize = 104;

/// Shortest declared length under which an interface-info message still
/// holds all six counters.
pub const IFINFO_MIN_LEN: usize = 112;

/// One well-formed interface-info message: the kernel's interface index and
/// the six cumulative counters read from the payload.
#[derive(Clone, Copy, PartialEq, Eq, Structural, Debug)]
pub struct IfaceMessage {
    pub index: u16,
    pub counters: CounterSample,
}

/// The little-endian u16 held at `pos`.
pub open spec fn le_u16(b: Seq<u8>, pos: int) -> u16 {
    (b[pos] as u16) | ((b[pos + 1] as u16) << 8)
}

/// The little-endian u64 held at `pos`.
pub open spec fn le_u64(b: Seq<u8>, pos: int) -> u64 {
    (b[pos] as u64) | ((b[pos + 1] as u64) << 8) | ((b[pos + 2] as u64) << 16) | ((b[pos + 3]
        as u64) << 24) | ((b[pos + 4] as u64) << 32) | ((b[pos + 5] as u64) << 40) | ((b[pos + 6]
        as u64) << 48) | ((b[pos + 7] as u64) << 56)
}

/// The interface-info record held by the message starting at `pos`.
pub open spec fn message_at(b: Seq<u8>, pos: int) -> IfaceMessage {
    IfaceMessage {
        index: le_u16(b, pos + INDEX_OFFSET as int),
        counters: CounterSample {
            in_bytes: le_u64(b, pos + BYTES_IN_OFFSET as int),
            out_bytes: le_u64(b, pos + BYTES_OUT_OFFSET as int),
            packets_in: le_u64(b, pos + PACKETS_IN_OFFSET as int),
            packets_out: le_u64(b, pos + PACKETS_OUT_OFFSET as int),
            errors_in: le_u64(b, pos + ERRORS_IN_OFFSET as int),
            errors_out: le_u64(b, pos + ERRORS_OUT_OFFSET as int),
        },
    }
}

/// The interface-info records of the message stream from `pos` on.
///
/// Parsing stops at the end of the buffer, at a remainder too short for a
/// header, at a declared length shorter than the header, and at a message
/// whose declared length overruns the buffer. A message of any other type,
/// and an interface-info message too short for its counters, is skipped by
/// its declared length.
pub open spec fn parsed_from(b: Seq<u8>, pos: int) -> Seq<IfaceMessage>
    decreases b.len() - pos,
{
    if pos < 0 || pos + HEADER_LEN as int > b.len() {
        Seq::empty()
    } else {
        let msglen = le_u16(b, pos) as int;
        if msglen < HEADER_LEN as int || pos + msglen > b.len() {
            Seq::empty()
        } else {
            let rest = parsed_from(b, pos + msglen);
            if b[pos + TYPE_OFFSET as int] == IFINFO_TYPE && msglen >= IFINFO_MIN_LEN as int {
                seq![message_at(b, pos)] + rest
            } else {
                rest
            }
        }
    }
}

/// The interface-info records held by a whole buffer.
pub open spec fn parsed(b: Seq<u8>) -> Seq<IfaceMessage> {
    parsed_from(b, 0)
}

/// Reads the little-endian u16 at `pos`.
fn read_le_u16(b: &Vec<u8>, pos: usize) -> (r: u16)
    requires
        pos + 2 <= b.len(),
    ensures
        r == le_u16(b@, pos as int),
{
    (b[pos] as u16) | ((b[pos + 1] as u16) << 8)
}

/// Reads the little-endian u64 at `pos`.
fn read_le_u64(b: &Vec<u8>, pos: usize) -> (r: u64)
    requires
        pos + 8 <= b.len(),
    ensures
        r == le_u64(b@, pos as int),
{
    (b[pos] as u64) | ((b[pos + 1] as u64) << 8) | ((b[pos + 2] as u64) << 16) | ((b[pos + 3]
        as u64) << 24) | ((b[pos + 4] as u64) << 32) | ((b[pos + 5] as u64) << 40) | ((b[pos + 6]
        as u64) << 48) | ((b[pos + 7] as u64) << 56)
}

/// Reads the index and the six counters of the interface-info message at
/// `pos`.
fn read_message(b: &Vec<u8>, pos: usize) -> (r: IfaceMessage)
    requires
        pos + IFINFO_MIN_LEN <= b.len(),
    ensures
        r == message_at(b@, pos as int),
{
    IfaceMessage {
        index: read_le_u16(b, pos + INDEX_OFFSET),
        counters: CounterSample {
            in_bytes: read_le_u64(b, pos + BYTES_IN_OFFSET),
            out_bytes: read_le_u64(b, pos + BYTES_OUT_OFFSET),
            packets_in: read_le_u64(b, pos + PACKETS_IN_OFFSET),
            packets_out: read_le_u64(b, pos + PACKETS_OUT_OFFSET),
            errors_in: read_le_u64(b, pos + ERRORS_IN_OFFSET),
            errors_out: read_le_u64(b, pos + ERRORS_OUT_OFFSET),
        },
    }
}

/// Walks the message stream and returns every well-formed interface-info
/// record, in buffer order.
pub fn parse_interface_messages(buf: &Vec<u8>) -> (r: Vec<IfaceMessage>)
    ensures
        r@ == parsed(buf@),
{
    let mut out: Vec<IfaceMessage> = Vec::new();
    let mut pos: usize = 0;
    loop
        invariant
            pos <= buf@.len(),
            parsed(buf@) == out@ + parsed_from(buf@, pos as int),
        ensures
            parsed(buf@) == out@ + parsed_from(buf@, pos as int),
            parsed_from(buf@, pos as int) == Seq::<IfaceMessage>::empty(),
        decreases buf@.len() - pos,
    {
        if buf.len() - pos < HEADER_LEN {
            break;
        }
        let msglen = read_le_u16(buf, pos) as usize;
        if msglen < HEADER_LEN || buf.len() - pos < msglen {
            break;
        }
        if buf[pos + TYPE_OFFSET] == IFINFO_TYPE && msglen >= IFINFO_MIN_LEN {
            let msg = read_message(buf, pos);
            proof {
                assert(parsed_from(buf@, pos as int) == seq![message_at(buf@, pos as int)]
                    + parsed_from(buf@, pos as int + msglen as int));
                assert(out@.push(msg) + parsed_from(buf@, pos as int + msglen as int) =~= out@
                    + parsed_from(buf@, pos as int));
            }
            out.push(msg);
        } else {
            proof {
                assert(parsed_from(buf@, pos as int) == parsed_from(
                    buf@,
                    pos as int + msglen as int,
                ));
            }
        }
        pos = pos + msglen;
    }
    proof {
        assert(out@ + Seq::<IfaceMessage>::empty() =~= out@);
    }
    out
}

} // verus!
