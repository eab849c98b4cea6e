//! Substitutable in-memory implementations of the chain interfaces,
//! verified against the same contracts the production adapters are
//! trusted for. They are injected at construction wherever a test or an
//! example needs a deterministic chain.

use vstd::prelude::*;
use crate::fuel;
use crate::fuel::Api;
use crate::l1;
use crate::l1::{Contract, EventItem};
use crate::types::{FuelBlock, L1Height};

verus! {

/// The first block in `s` stored at exactly `height`, if any.
pub open spec fn first_block_at(s: Seq<FuelBlock>, height: u32) -> Option<FuelBlock>
    decreases s.len(),
{
    if s.len() == 0 {
        None
    } else if s[0].height == height {
        Some(s[0])
    } else {
        first_block_at(s.drop_first(), height)
    }
}

/// What `first_block_at` finds: the earliest block at the height, or a
/// proof that no block sits there.
proof fn lemma_first_block_at(s: Seq<FuelBlock>, height: u32)
    ensures
        match first_block_at(s, height) {
            Some(b) => exists|i: int|
                0 <= i < s.len() && s[i] == b && s[i].height == height,
            None => forall|j: int| 0 <= j < s.len() ==> s[j].height != height,
        },
    decreases s.len(),
{
    if s.len() > 0 && s[0].height != height {
        let rest = s.drop_first();
        lemma_first_block_at(rest, height);
        match first_block_at(rest, height) {
            Some(b) => {
                let wit = choose|i: int| 0 <= i < rest.len() && rest[i] == b && rest[i].height
                    == height;
                assert(s[wit + 1] == rest[wit]);
            },
            None => {
                assert forall|j: int| 0 <= j < s.len() implies s[j].height != height by {
                    if j > 0 {
                        assert(rest[j - 1] == s[j]);
                        assert(rest[j - 1].height != height);
                    }
                }
            },
        }
    }
}

/// A first match at a first index pins `first_block_at` down.
proof fn lemma_first_block_at_unique(s: Seq<FuelBlock>, height: u32, i: int)
    requires
        0 <= i < s.len(),
        s[i].height == height,
        forall|j: int| 0 <= j < i ==> s[j].height != height,
    ensures
        first_block_at(s, height) == Some(s[i]),
    decreases s.len(),
{
    if i == 0 {
    } else {
        let rest = s.drop_first();
        assert(rest[i - 1] == s[i]);
        assert forall|j: int| 0 <= j < i - 1 implies rest[j].height != height by {
            assert(rest[j] == s[j + 1]);
        }
        lemma_first_block_at_unique(rest, height, i - 1);
    }
}

/// A deterministic source-chain reader serving from a fixed set of
/// blocks. With no latest block configured, reads fail as a disconnected
/// reader would.
pub struct FakeFuelApi {
    latest: Option<FuelBlock>,
    blocks: Vec<FuelBlock>,
}

impl FakeFuelApi {
    pub fn new() -> (r: FakeFuelApi)
        ensures
            r.chain_latest() is None,
            forall|h: u32| #[trigger] r.block_at(h) is None,
    {
        FakeFuelApi { latest: None, blocks: Vec::new() }
    }

    /// Make the reader consider `block` the newest one.
    pub fn set_latest(&mut self, block: FuelBlock)
        ensures
            final(self).chain_latest() == Some(block),
            forall|h: u32| #[trigger] final(self).block_at(h) == old(self).block_at(h),
    {
        self.latest = Some(block);
    }

    /// Make `block` available at its own height; earlier blocks at the
    /// same height keep precedence.
    pub fn add_block(&mut self, block: FuelBlock)
        ensures
            final(self).chain_latest() == old(self).chain_latest(),
            forall|h: u32| #[trigger]
                final(self).block_at(h) == (match old(self).block_at(h) {
                    Some(b) => Some(b),
                    None => if block.height == h {
                        Some(block)
                    } else {
                        None::<FuelBlock>
                    },
                }),
    {
        self.blocks.push(block);
        proof {
            assert forall|h: u32| #[trigger]
                first_block_at(self.blocks@, h) == (match first_block_at(
                old(self).blocks@,
                h,
            ) {
                Some(b) => Some(b),
                None => if block.height == h {
                    Some(block)
                } else {
                    None::<FuelBlock>
                },
            }) by {
                lemma_first_block_at_snoc(old(self).blocks@, block, h);
            }
        }
    }
}

/// Appending a block only serves heights nothing served before.
proof fn lemma_first_block_at_snoc(s: Seq<FuelBlock>, block: FuelBlock, height: u32)
    ensures
        first_block_at(s.push(block), height) == (match first_block_at(s, height) {
            Some(b) => Some(b),
            None => if block.height == height {
                Some(block)
            } else {
                None::<FuelBlock>
            },
        }),
    decreases s.len(),
{
    if s.len() == 0 {
        assert(s.push(block)[0] == block);
        if block.height != height {
            assert(s.push(block).drop_first() =~= s);
        }
    } else {
        assert(s.push(block)[0] == s[0]);
        assert(s.push(block).drop_first() =~= s.drop_first().push(block));
        lemma_first_block_at_snoc(s.drop_first(), block, height);
    }
}

impl fuel::Api for FakeFuelApi {
    closed spec fn chain_latest(&self) -> Option<FuelBlock> {
        self.latest
    }

    closed spec fn block_at(&self, height: u32) -> Option<FuelBlock> {
        first_block_at(self.blocks@, height)
    }

    fn latest_block(&self) -> (r: Result<FuelBlock, fuel::Error>) {
        match &self.latest {
            Some(block) => Ok(*block),
            None => Err(fuel::Error::Network("fuel node is unreachable".to_owned())),
        }
    }

    fn block_at_height(&self, height: u32) -> (r: Result<Option<FuelBlock>, fuel::Error>) {
        let n = self.blocks.len();
        let mut i: usize = 0;
        while i < n
            invariant
                n == self.blocks.len(),
                i <= n,
                forall|j: int| 0 <= j < i ==> self.blocks@[j].height != height,
            decreases n - i,
        {
            if self.blocks[i].height == height {
                proof {
                    lemma_first_block_at_unique(self.blocks@, height, i as int);
                }
                return Ok(Some(self.blocks[i]));
            }
            i += 1;
        }
        proof {
            lemma_first_block_at(self.blocks@, height);
            if first_block_at(self.blocks@, height) is Some {
                let wit = choose|k: int|
                    0 <= k < self.blocks@.len() && self.blocks@[k] == first_block_at(
                        self.blocks@,
                        height,
                    )->Some_0 && self.blocks@[k].height == height;
                assert(self.blocks@[wit].height != height);
            }
        }
        Ok(None)
    }
}

/// A stream over a fixed list of events, consumed front to back.
pub struct FakeEventStream {
    events: Vec<EventItem>,
}

impl l1::EventStream for FakeEventStream {
    closed spec fn remaining(&self) -> Seq<EventItem> {
        self.events@
    }

    fn next_event(&mut self) -> (r: Option<EventItem>) {
        if self.events.len() == 0 {
            None
        } else {
            Some(self.events.remove(0))
        }
    }
}

/// A streamer over a fixed list of events; establishment fails when the
/// fake is configured as disconnected.
pub struct FakeEventStreamer {
    events: Vec<EventItem>,
    connects: bool,
}

impl l1::EventStreamer for FakeEventStreamer {
    type Stream = FakeEventStream;

    closed spec fn stream_events(&self) -> Seq<EventItem> {
        self.events@
    }

    fn establish_stream(self) -> (r: Result<FakeEventStream, l1::Error>) {
        let FakeEventStreamer { events, connects } = self;
        if connects {
            Ok(FakeEventStream { events })
        } else {
            Err(l1::Error::Network("destination chain is unreachable".to_owned()))
        }
    }
}

/// A destination contract delivering a fixed list of confirmation events,
/// and only from one expected starting height.
pub struct FakeContract {
    from_height: L1Height,
    events: Vec<EventItem>,
    connects: bool,
}

impl FakeContract {
    /// Deliver `events` to a listener that starts scanning at exactly
    /// `from_height`; a listener starting anywhere else sees an empty
    /// stream. With `connects` false, establishment fails.
    pub fn new(from_height: L1Height, events: Vec<EventItem>, connects: bool) -> (r: FakeContract)
        ensures
            forall|h: L1Height| #[trigger]
                r.events_from(h) == (if h == from_height {
                    events@
                } else {
                    Seq::<EventItem>::empty()
                }),
    {
        FakeContract { from_height, events, connects }
    }
}

impl l1::Contract for FakeContract {
    type Streamer = FakeEventStreamer;

    closed spec fn events_from(&self, height: L1Height) -> Seq<EventItem> {
        if height == self.from_height {
            self.events@
        } else {
            Seq::<EventItem>::empty()
        }
    }

    fn submit(&self, _block: FuelBlock) -> Result<(), l1::Error> {
        Ok(())
    }

    fn event_streamer(&mut self, height: L1Height) -> (r: FakeEventStreamer) {
        let at_expected_height = height.get() == self.from_height.get();
        if at_expected_height {
            proof {
                L1Height::lemma_ext(height, self.from_height);
            }
            let mut events: Vec<EventItem> = Vec::new();
            core::mem::swap(&mut events, &mut self.events);
            FakeEventStreamer { events, connects: self.connects }
        } else {
            FakeEventStreamer { events: Vec::new(), connects: self.connects }
        }
    }
}

} // verus!
