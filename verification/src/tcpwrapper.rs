//! Frames from a relay.
//!
//! A relay streams records of 24 bytes each with nothing between them. The
//! connection is read elsewhere; every record read is handed in here.

use crate::wire::{decode, decodes_to, pad8, CanFrame, WIRE_FRAME_LEN};
use vstd::prelude::*;

verus! {

/// Why a piece of the stream is no record.
#[derive(Clone, Copy, Debug, PartialEq, Eq, Structural)]
pub enum RecordError {
    /// It is not 24 bytes long, but `found`.
    Length { found: usize },
}

/// Holds the frame received last from a relay.
#[derive(Debug)]
pub struct TcpWrapper {
    timestamp: u64,
    id: u32,
    data: [u8; 8],
}

impl TcpWrapper {
    /// The frame held at present.
    pub closed spec fn frame(&self) -> CanFrame {
        CanFrame { timestamp: self.timestamp, id: self.id, data: self.data }
    }

    /// A holder that has received nothing yet: time zero, id zero, empty
    /// payload.
    pub fn new() -> (wrapper: Self)
        ensures
            wrapper.frame().timestamp == 0,
            wrapper.frame().id == 0,
            wrapper.frame().data@ == pad8(Seq::<u8>::empty()),
    {
        let wrapper = TcpWrapper { timestamp: 0, id: 0, data: [0u8; 8] };
        assert(wrapper.frame().data@ =~= pad8(Seq::<u8>::empty()));
        wrapper
    }

    /// Takes in the next record of the stream. Bytes that are no record are
    /// refused and change nothing.
    pub fn parse(&mut self, record: &[u8]) -> (taken: Result<(), RecordError>)
        ensures
            taken is Ok <==> record@.len() == WIRE_FRAME_LEN,
            taken is Ok ==> decodes_to(record@, final(self).frame()),
            taken matches Err(e) ==> e == (RecordError::Length { found: record@.len() as usize })
                && final(self).frame() == old(self).frame(),
    {
        match decode(record) {
            Some(frame) => {
                self.timestamp = frame.timestamp;
                self.id = frame.id;
                self.data = frame.data;
                Ok(())
            },
            None => Err(RecordError::Length { found: record.len() }),
        }
    }

    /// The time of the frame held, in seconds, as the bit pattern of a double.
    pub fn get_timestamp(&self) -> (timestamp: u64)
        ensures
            timestamp == self.frame().timestamp,
    {
        self.timestamp
    }

    /// The arbitration id of the frame held.
    pub fn get_id(&self) -> (id: u32)
        ensures
            id == self.frame().id,
    {
        self.id
    }

    /// The payload of the frame held, padded with zeros to eight bytes.
    pub fn get_data(&self) -> (data: [u8; 8])
        ensures
            data == self.frame().data,
    {
        self.data
    }
}

} // verus!
