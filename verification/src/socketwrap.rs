//! Frames from a live bus interface.
//!
//! The interface itself is read elsewhere. What it delivers is handed in
//! here together with the time of receipt, since the interface supplies none.

use crate::wire::{pad8, CanFrame};
use vstd::prelude::*;

verus! {

/// What the interface delivered.
#[derive(Debug, PartialEq, Eq)]
pub enum BusFrame {
    /// A data frame: its raw arbitration id and its payload.
    Data { id: u32, payload: Vec<u8> },
    /// A remote request; it carries no data.
    Remote,
    /// An error report of the interface.
    Error,
}

/// Holds the frame received last from a live interface.
#[derive(Debug)]
pub struct CanWrapper {
    last_timestamp: u64,
    last_id: u32,
    last_data: [u8; 8],
}

impl CanWrapper {
    /// The frame held at present.
    pub closed spec fn frame(&self) -> CanFrame {
        CanFrame { timestamp: self.last_timestamp, id: self.last_id, data: self.last_data }
    }

    /// A holder that has received nothing yet: time zero, id zero, empty
    /// payload.
    pub fn new() -> (wrapper: Self)
        ensures
            wrapper.frame().timestamp == 0,
            wrapper.frame().id == 0,
            wrapper.frame().data@ == pad8(Seq::<u8>::empty()),
    {
        let wrapper = CanWrapper { last_timestamp: 0, last_id: 0, last_data: [0u8; 8] };
        assert(wrapper.frame().data@ =~= pad8(Seq::<u8>::empty()));
        wrapper
    }

    /// Takes in what the interface delivered at the time `now` (seconds, as the
    /// bit pattern of a double). The time is noted in any case. A data frame
    /// replaces id and payload, the payload cut or padded to eight bytes;
    /// after anything else id and payload stay as they were.
    pub fn parse(&mut self, now: u64, received: &BusFrame)
        ensures
            final(self).frame().timestamp == now,
            match *received {
                BusFrame::Data { id, payload } => {
                    &&& final(self).frame().id == id
                    &&& final(self).frame().data@ == pad8(payload@)
                },
                _ => {
                    &&& final(self).frame().id == old(self).frame().id
                    &&& final(self).frame().data == old(self).frame().data
                },
            },
    {
        self.last_timestamp = now;
        match received {
            BusFrame::Data { id, payload } => {
                let frame = CanFrame::from_payload(now, *id, payload.as_slice());
                self.last_id = frame.id;
                self.last_data = frame.data;
            },
            _ => {},
        }
    }

    /// The time of receipt of the frame held.
    pub fn get_timestamp(&self) -> (timestamp: u64)
        ensures
            timestamp == self.frame().timestamp,
    {
        self.last_timestamp
    }

    /// The arbitration id of the frame held.
    pub fn get_id(&self) -> (id: u32)
        ensures
            id == self.frame().id,
    {
        self.last_id
    }

    /// The payload of the frame held, padded with zeros to eight bytes.
    pub fn get_data(&self) -> (data: [u8; 8])
        ensures
            data == self.frame().data,
    {
        self.last_data
    }
}

} // verus!
