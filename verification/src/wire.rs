//! The binary record that carries one captured frame between relay and client.
//!
//! A record is 24 bytes long: the timestamp (8 bytes), the arbitration id
//! (4 bytes), a reserved word that is written as zero and ignored on read
//! (4 bytes), and the payload (8 bytes, zero-padded). Multi-byte fields are
//! little-endian on every host.

use vstd::prelude::*;

verus! {

/// Length of one record on the wire.
pub const WIRE_FRAME_LEN: usize = 24;

/// One captured CAN frame.
///
/// `timestamp` holds the capture time in seconds, as the bit pattern of an
/// IEEE-754 double; this crate carries it and never computes on it.
/// `data` is the payload, padded with zeros to eight bytes.
#[derive(Clone, Copy, Debug, PartialEq, Eq)]
pub struct CanFrame {
    pub timestamp: u64,
    pub id: u32,
    pub data: [u8; 8],
}

/// The eight bytes of `x`, least significant first.
pub open spec fn u64_le(x: u64) -> Seq<u8> {
    seq![
        (x % 256) as u8,
        (x / 0x100 % 256) as u8,
        (x / 0x1_0000 % 256) as u8,
        (x / 0x100_0000 % 256) as u8,
        (x / 0x1_0000_0000 % 256) as u8,
        (x / 0x100_0000_0000 % 256) as u8,
        (x / 0x1_0000_0000_0000 % 256) as u8,
        (x / 0x100_0000_0000_0000 % 256) as u8,
    ]
}

/// The four bytes of `x`, least significant first.
pub open spec fn u32_le(x: u32) -> Seq<u8> {
    seq![
        (x % 256) as u8,
        (x / 0x100 % 256) as u8,
        (x / 0x1_0000 % 256) as u8,
        (x / 0x100_0000 % 256) as u8,
    ]
}

/// The number that the first eight bytes of `b` spell, least significant first.
pub open spec fn u64_from_le(b: Seq<u8>) -> int {
    b[0] + b[1] * 0x100 + b[2] * 0x1_0000 + b[3] * 0x100_0000 + b[4] * 0x1_0000_0000 + b[5]
        * 0x100_0000_0000 + b[6] * 0x1_0000_0000_0000 + b[7] * 0x100_0000_0000_0000
}

/// The number that the first four bytes of `b` spell, least significant first.
pub open spec fn u32_from_le(b: Seq<u8>) -> int {
    b[0] + b[1] * 0x100 + b[2] * 0x1_0000 + b[3] * 0x100_0000
}

/// `payload` cut or zero-padded to exactly eight bytes.
pub open spec fn pad8(payload: Seq<u8>) -> Seq<u8> {
    Seq::new(8, |i: int| if i < payload.len() { payload[i] } else { 0u8 })
}

/// The record that stands for `frame`.
pub open spec fn spec_encode(frame: CanFrame) -> Seq<u8> {
    u64_le(frame.timestamp) + u32_le(frame.id) + seq![0u8, 0u8, 0u8, 0u8] + frame.data@
}

/// Whether `frame` is what the record `bytes` stands for. The reserved word
/// (bytes 12 to 15) plays no part.
pub open spec fn decodes_to(bytes: Seq<u8>, frame: CanFrame) -> bool {
    &&& bytes.len() == WIRE_FRAME_LEN
    &&& frame.timestamp == u64_from_le(bytes.subrange(0, 8))
    &&& frame.id == u32_from_le(bytes.subrange(8, 12))
    &&& frame.data@ == bytes.subrange(16, 24)
}

impl CanFrame {
    /// A frame from a payload of any length: the first eight bytes count, a
    /// shorter payload is padded with zeros.
    pub fn from_payload(timestamp: u64, id: u32, payload: &[u8]) -> (frame: CanFrame)
        ensures
            frame.timestamp == timestamp,
            frame.id == id,
            frame.data@ == pad8(payload@),
    {
        let mut data = [0u8; 8];
        let mut i: usize = 0;
        while i < 8 && i < payload.len()
            invariant
                i <= 8,
                i <= payload@.len(),
                forall|k: int| 0 <= k < i ==> data@[k] == payload@[k],
                forall|k: int| i <= k < 8 ==> data@[k] == 0u8,
            decreases 8 - i,
        {
            data[i] = payload[i];
            i = i + 1;
        }
        assert(data@ =~= pad8(payload@));
        CanFrame { timestamp, id, data }
    }
}

/// Writes `frame` as one record.
pub fn encode(frame: &CanFrame) -> (bytes: [u8; 24])
    ensures
        bytes@ == spec_encode(*frame),
{
    let t = frame.timestamp;
    let id = frame.id;
    let d = &frame.data;
    let bytes = [
        (t % 256) as u8,
        (t / 0x100 % 256) as u8,
        (t / 0x1_0000 % 256) as u8,
        (t / 0x100_0000 % 256) as u8,
        (t / 0x1_0000_0000 % 256) as u8,
        (t / 0x100_0000_0000 % 256) as u8,
        (t / 0x1_0000_0000_0000 % 256) as u8,
        (t / 0x100_0000_0000_0000 % 256) as u8,
        (id % 256) as u8,
        (id / 0x100 % 256) as u8,
        (id / 0x1_0000 % 256) as u8,
        (id / 0x100_0000 % 256) as u8,
        0u8,
        0u8,
        0u8,
        0u8,
        d[0],
        d[1],
        d[2],
        d[3],
        d[4],
        d[5],
        d[6],
        d[7],
    ];
    assert(bytes@ =~= spec_encode(*frame));
    bytes
}

/// Reads one record. Anything that is not exactly 24 bytes long is no record.
pub fn decode(bytes: &[u8]) -> (frame: Option<CanFrame>)
    ensures
        frame is Some <==> bytes@.len() == WIRE_FRAME_LEN,
        frame matches Some(f) ==> decodes_to(bytes@, f),
{
    if bytes.len() != WIRE_FRAME_LEN {
        return None;
    }
    let timestamp: u64 = bytes[0] as u64 + bytes[1] as u64 * 0x100 + bytes[2] as u64 * 0x1_0000
        + bytes[3] as u64 * 0x100_0000 + bytes[4] as u64 * 0x1_0000_0000 + bytes[5] as u64
        * 0x100_0000_0000 + bytes[6] as u64 * 0x1_0000_0000_0000 + bytes[7] as u64
        * 0x100_0000_0000_0000;
    let id: u32 = bytes[8] as u32 + bytes[9] as u32 * 0x100 + bytes[10] as u32 * 0x1_0000
        + bytes[11] as u32 * 0x100_0000;
    let data = [
        bytes[16],
        bytes[17],
        bytes[18],
        bytes[19],
        bytes[20],
        bytes[21],
        bytes[22],
        bytes[23],
    ];
    assert(data@ =~= bytes@.subrange(16, 24));
    Some(CanFrame { timestamp, id, data })
}

/// A frame survives the wire unchanged: the record written for it reads back
/// as the same timestamp, id and payload.
pub proof fn lemma_round_trip(frame: CanFrame)
    ensures
        spec_encode(frame).len() == WIRE_FRAME_LEN,
        decodes_to(spec_encode(frame), frame),
{
    let b = spec_encode(frame);
    assert(b.subrange(16, 24) =~= frame.data@);
    assert(b.subrange(0, 8) =~= u64_le(frame.timestamp));
    assert(b.subrange(8, 12) =~= u32_le(frame.id));
    lemma_u64_le_inverse(frame.timestamp);
    lemma_u32_le_inverse(frame.id);
}

/// What a record reads back as is settled by the record: the frame written
/// is the only one that the record stands for.
pub proof fn lemma_round_trip_is_identity(frame: CanFrame, back: CanFrame)
    requires
        decodes_to(spec_encode(frame), back),
    ensures
        back == frame,
{
    lemma_round_trip(frame);
    assert(back.data@ =~= frame.data@);
    assert(back.data =~= frame.data);
}

/// A frame made from a payload of any length comes back from the wire with
/// the same time and id, and with that payload cut or zero-padded to eight
/// bytes.
pub proof fn lemma_round_trip_of_payload(frame: CanFrame, payload: Seq<u8>, back: CanFrame)
    requires
        frame.data@ == pad8(payload),
        decodes_to(spec_encode(frame), back),
    ensures
        back.timestamp == frame.timestamp,
        back.id == frame.id,
        back.data@ == pad8(payload),
        payload.len() >= 8 ==> back.data@ == payload.subrange(0, 8),
        payload.len() < 8 ==> back.data@.subrange(0, payload.len() as int) == payload && forall|i: int|
            payload.len() <= i < 8 ==> back.data@[i] == 0,
{
    lemma_round_trip_is_identity(frame, back);
    if payload.len() >= 8 {
        assert(back.data@ =~= payload.subrange(0, 8));
    } else {
        assert(back.data@.subrange(0, payload.len() as int) =~= payload);
    }
}

/// The eight bytes of a number spell that number.
pub proof fn lemma_u64_le_inverse(x: u64)
    ensures
        u64_from_le(u64_le(x)) == x,
{
    assert(x == (x % 256) + (x / 0x100 % 256) * 0x100 + (x / 0x1_0000 % 256) * 0x1_0000 + (x
        / 0x100_0000 % 256) * 0x100_0000 + (x / 0x1_0000_0000 % 256) * 0x1_0000_0000 + (x
        / 0x100_0000_0000 % 256) * 0x100_0000_0000 + (x / 0x1_0000_0000_0000 % 256)
        * 0x1_0000_0000_0000 + (x / 0x100_0000_0000_0000 % 256) * 0x100_0000_0000_0000)
        by (bit_vector);
}

/// The four bytes of a number spell that number.
pub proof fn lemma_u32_le_inverse(x: u32)
    ensures
        u32_from_le(u32_le(x)) == x,
{
    assert(x == (x % 256) + (x / 0x100 % 256) * 0x100 + (x / 0x1_0000 % 256) * 0x1_0000 + (x
        / 0x100_0000 % 256) * 0x100_0000) by (bit_vector);
}

} // verus!
