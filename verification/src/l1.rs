//! The destination-chain interfaces: the contract that accepts checkpoints
//! and the confirmation event stream.

use vstd::prelude::*;
use crate::types::{FuelBlock, FuelBlockCommittedOnL1, InvalidL1Height, L1Height, U256};

verus! {

/// Destination-chain failures, classified so callers can pick a retry
/// policy: `Network` is transient connectivity, `Other` is logical.
#[derive(Clone, Debug, PartialEq, Eq)]
pub enum Error {
    Network(String),
    Other(String),
}

impl Error {
    /// An invalid height is a logical failure, never a connectivity one.
    pub fn from_invalid_height(err: InvalidL1Height) -> (r: Error)
        ensures
            r matches Error::Other(m) && m@ == "invalid L1 height"@,
    {
        Error::Other(err.describe())
    }
}

/// One item pulled from the confirmation stream: an observation, or a
/// per-item failure that must not end the stream.
pub type EventItem = Result<FuelBlockCommittedOnL1, Error>;

/// A lazy, non-restartable sequence of confirmation events, consumed one
/// item at a time in arrival order.
pub trait EventStream {
    /// The items this stream will still deliver, in order.
    spec fn remaining(&self) -> Seq<EventItem>;

    /// Pull the next item; `None` once the stream has ended.
    fn next_event(&mut self) -> (r: Option<EventItem>)
        ensures
            old(self).remaining().len() == 0 ==> r is None && final(self).remaining()
                == old(self).remaining(),
            old(self).remaining().len() > 0 ==> r == Some(old(self).remaining()[0])
                && final(self).remaining() == old(self).remaining().drop_first(),
    ;
}

/// Opens the confirmation stream. Establishment may fail (connectivity);
/// a stream, once obtained, carries exactly the announced events and is
/// not restartable.
pub trait EventStreamer {
    type Stream: EventStream;

    /// The events the stream will carry once established.
    spec fn stream_events(&self) -> Seq<EventItem>;

    /// Open the stream, consuming the streamer: the sequence cannot be
    /// replayed from the start once it has been handed out.
    fn establish_stream(self) -> (r: Result<Self::Stream, Error>)
        ensures
            r matches Ok(s) ==> s.remaining() == self.stream_events(),
    ;
}

/// The destination-chain contract: submit a checkpoint, and observe the
/// confirmations it emits from a given destination height on.
pub trait Contract {
    type Streamer: EventStreamer;

    /// The confirmation events the destination chain delivers from the
    /// given height on.
    spec fn events_from(&self, height: L1Height) -> Seq<EventItem>;

    /// Record a source-chain block on the destination chain. The signing
    /// and broadcast mechanics are outside this core, so nothing more is
    /// promised of the outcome.
    fn submit(&self, block: FuelBlock) -> Result<(), Error>;

    /// Obtain a streamer for the confirmations starting at `height`.
    fn event_streamer(&mut self, height: L1Height) -> (r: Self::Streamer)
        ensures
            r.stream_events() == old(self).events_from(height),
    ;
}

/// Read-only queries against the destination chain. Interface only: what
/// these return depends on the chain alone, so nothing is promised here.
pub trait Api {
    /// The current destination-chain block number.
    fn get_block_number(&self) -> Result<L1Height, Error>;

    /// The submitter account's balance.
    fn balance(&self) -> Result<U256, Error>;
}

} // verus!
