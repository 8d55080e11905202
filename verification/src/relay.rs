//! The decisions of the relay.
//!
//! One reader takes what comes from upstream and publishes it on a channel of
//! fixed capacity; every subscriber has a writer of its own that forwards what
//! is published to its connection. A writer that falls behind loses the
//! messages it was too slow for, is told how many, and goes on with the
//! oldest one still there. Reading, publishing and writing happen elsewhere;
//! here it is decided what to do about their outcome.

use vstd::prelude::*;

verus! {

/// Why publishing has stopped.
#[derive(Clone, Copy, Debug, PartialEq, Eq, Structural)]
pub enum StopReason {
    /// Upstream closed the connection.
    Closed,
    /// Reading from upstream failed.
    Failed,
}

/// What the reader does after a read from upstream.
#[derive(Debug, PartialEq, Eq)]
pub enum UpstreamAction {
    /// Publish these bytes and read on.
    Publish(Vec<u8>),
    /// Stop reading; nothing more is published.
    Stop(StopReason),
}

/// The bytes of `buffer` that a read of `count` bytes filled.
pub open spec fn filled(buffer: Seq<u8>, count: nat) -> Seq<u8> {
    if count <= buffer.len() {
        buffer.subrange(0, count as int)
    } else {
        buffer
    }
}

/// Decides on the outcome of one read from upstream into `buffer`: `Some` with
/// the number of bytes read, or `None` for a failed read. A read of nothing
/// means that upstream is done.
pub fn on_upstream_read(outcome: Option<usize>, buffer: &[u8]) -> (action: UpstreamAction)
    ensures
        match outcome {
            None => action == UpstreamAction::Stop(StopReason::Failed),
            Some(count) => if count == 0 {
                action == UpstreamAction::Stop(StopReason::Closed)
            } else {
                action matches UpstreamAction::Publish(bytes) && bytes@ == filled(
                    buffer@,
                    count as nat,
                )
            },
        },
{
    match outcome {
        None => UpstreamAction::Stop(StopReason::Failed),
        Some(count) => {
            if count == 0 {
                UpstreamAction::Stop(StopReason::Closed)
            } else {
                let end = if count <= buffer.len() {
                    count
                } else {
                    buffer.len()
                };
                let mut bytes: Vec<u8> = Vec::new();
                let mut i: usize = 0;
                while i < end
                    invariant
                        i <= end <= buffer@.len(),
                        bytes@ == buffer@.subrange(0, i as int),
                    decreases end - i,
                {
                    bytes.push(buffer[i]);
                    assert(buffer@.subrange(0, i as int).push(buffer@[i as int]) =~= buffer@.subrange(
                        0,
                        i + 1,
                    ));
                    i = i + 1;
                }
                assert(buffer@.subrange(0, buffer@.len() as int) =~= buffer@);
                UpstreamAction::Publish(bytes)
            }
        },
    }
}

/// Whether a frame is worth publishing: only while somebody listens.
pub fn should_publish(subscribers: usize) -> (publish: bool)
    ensures
        publish == (subscribers > 0),
{
    subscribers > 0
}

/// What happened to a subscriber's writer.
#[derive(Debug, PartialEq, Eq)]
pub enum SubscriberEvent {
    /// The channel handed over the next message.
    Message(Vec<u8>),
    /// The writer fell behind and this many messages are lost to it.
    Lagged(u64),
    /// The channel is closed: nothing will be published any more.
    Closed,
    /// Writing the last message to the connection failed.
    WriteFailed,
}

/// What the writer does next.
#[derive(Debug, PartialEq, Eq)]
pub enum SubscriberAction {
    /// Write these bytes to the connection, then ask the channel again.
    Forward(Vec<u8>),
    /// Report that this many messages were lost, then ask the channel again.
    ReportLag(u64),
    /// End this writer. Other writers and the reader are not affected.
    Stop,
}

/// The state of one subscriber's writer.
#[derive(Clone, Copy, Debug, PartialEq, Eq, Structural)]
pub struct Subscriber {
    /// Whether the writer is still at work.
    pub active: bool,
    /// Messages handed to the connection so far.
    pub forwarded: u64,
    /// Messages lost by falling behind so far.
    pub missed: u64,
}

/// `a + b`, or the largest number there is where the sum is beyond it.
pub open spec fn saturating_sum(a: u64, b: u64) -> u64 {
    if a + b > u64::MAX {
        u64::MAX
    } else {
        (a + b) as u64
    }
}

impl Subscriber {
    /// The writer after `event`, and what it does about it.
    pub open spec fn spec_step(self, event: SubscriberEvent) -> (Subscriber, SubscriberAction) {
        if !self.active {
            (self, SubscriberAction::Stop)
        } else {
            match event {
                SubscriberEvent::Message(bytes) => (
                    Subscriber { forwarded: saturating_sum(self.forwarded, 1), ..self },
                    SubscriberAction::Forward(bytes),
                ),
                SubscriberEvent::Lagged(count) => (
                    Subscriber { missed: saturating_sum(self.missed, count), ..self },
                    SubscriberAction::ReportLag(count),
                ),
                SubscriberEvent::Closed => (
                    Subscriber { active: false, ..self },
                    SubscriberAction::Stop,
                ),
                SubscriberEvent::WriteFailed => (
                    Subscriber { active: false, ..self },
                    SubscriberAction::Stop,
                ),
            }
        }
    }

    /// A writer for a subscriber that has just connected.
    pub fn new() -> (subscriber: Subscriber)
        ensures
            subscriber == (Subscriber { active: true, forwarded: 0, missed: 0 }),
    {
        Subscriber { active: true, forwarded: 0, missed: 0 }
    }

    /// Takes note of `event` and says what to do. A message is forwarded as
    /// it is. Falling behind is reported and the writer goes on. A closed
    /// channel or a failed write ends the writer, and once ended it stays so.
    pub fn step(&mut self, event: SubscriberEvent) -> (action: SubscriberAction)
        ensures
            (*final(self), action) == old(self).spec_step(event),
    {
        if !self.active {
            return SubscriberAction::Stop;
        }
        match event {
            SubscriberEvent::Message(bytes) => {
                self.forwarded = self.forwarded.saturating_add(1);
                SubscriberAction::Forward(bytes)
            },
            SubscriberEvent::Lagged(count) => {
                self.missed = self.missed.saturating_add(count);
                SubscriberAction::ReportLag(count)
            },
            SubscriberEvent::Closed => {
                self.active = false;
                SubscriberAction::Stop
            },
            SubscriberEvent::WriteFailed => {
                self.active = false;
                SubscriberAction::Stop
            },
        }
    }
}

/// A writer that has ended does nothing more, whatever happens: it stays
/// ended, its counts stand, and the answer to every event is to stop.
pub proof fn lemma_stopped_stays_stopped(subscriber: Subscriber, event: SubscriberEvent)
    requires
        !subscriber.active,
    ensures
        subscriber.spec_step(event) == (subscriber, SubscriberAction::Stop),
{
}

/// Falling behind never ends a writer: after a lag it is as active as before
/// and has forwarded as much; only the count of lost messages grows.
pub proof fn lemma_lag_keeps_the_writer(subscriber: Subscriber, count: u64)
    ensures
        subscriber.spec_step(SubscriberEvent::Lagged(count)).0.active == subscriber.active,
        subscriber.spec_step(SubscriberEvent::Lagged(count)).0.forwarded == subscriber.forwarded,
{
}

} // verus!
