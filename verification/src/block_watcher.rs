//! The block watcher: once per tick it decides whether a new checkpoint
//! candidate exists and emits it on the bounded handoff queue.
//!
//! The checkpoint cadence is aligned to absolute source-chain height — each
//! epoch boundary is the largest multiple of the commit interval not above
//! the current height — so epochs are deterministic and replay-safe.

use vstd::prelude::*;
use vstd::arithmetic::div_mod::{
    lemma_fundamental_div_mod, lemma_mod_bound, lemma_mod_multiples_vanish,
};
use crate::channel::BoundedQueue;
use crate::errors::Error;
use crate::fuel;
use crate::metrics::IntGauge;
use crate::storage::{latest_of, lemma_latest_is_max, Storage};
use crate::types::{BlockSubmission, CommitInterval, FuelBlock};

verus! {

/// The largest multiple of `interval` not exceeding `height`: the height
/// eligible for the next checkpoint.
pub open spec fn epoch_of(height: u32, interval: u32) -> int
    recommends
        interval >= 1,
{
    height - (height as int % interval as int)
}

/// Whether the given epoch boundary is already covered by a stored
/// submission, making a new checkpoint unnecessary.
pub open spec fn is_stale(subs: Seq<BlockSubmission>, epoch: int) -> bool {
    match latest_of(subs) {
        Some(m) => m.block.height >= epoch,
        None => false,
    }
}

/// Law: for every positive interval and height, the epoch boundary lies
/// between zero and the height, is a multiple of the interval, and is the
/// largest such multiple.
pub proof fn lemma_epoch_boundary(height: u32, interval: u32)
    requires
        interval >= 1,
    ensures
        0 <= epoch_of(height, interval) <= height,
        epoch_of(height, interval) % (interval as int) == 0,
        height - epoch_of(height, interval) < interval,
{
    let h = height as int;
    let i = interval as int;
    lemma_mod_bound(h, i);
    lemma_fundamental_div_mod(h, i);
    assert(h - h % i == i * (h / i));
    lemma_mod_multiples_vanish(h / i, 0int, i);
    assert((i * (h / i) + 0int) % i == 0int % i);
}

/// Law (monotonic staleness): once some stored submission has a block
/// height of at least `x`, every epoch boundary at or below `x` is stale,
/// so the watcher never emits a candidate for such a boundary again.
pub proof fn lemma_staleness_monotonic(subs: Seq<BlockSubmission>, x: u32, epoch: int)
    requires
        exists|i: int| 0 <= i < subs.len() && subs[i].block.height >= x,
        epoch <= x,
    ensures
        is_stale(subs, epoch),
{
    let wit = choose|i: int| 0 <= i < subs.len() && subs[i].block.height >= x;
    lemma_latest_is_max(subs);
    assert(subs[wit].block.height <= latest_of(subs)->Some_0.block.height);
}

/// The watcher's own gauges, exposed for registration into a process-wide
/// collector.
pub struct Metrics {
    pub latest_fuel_block: IntGauge,
}

impl Default for Metrics {
    /// The height gauge starts at zero, under its registered name.
    fn default() -> (r: Self)
        ensures
            r.latest_fuel_block.spec_name() == "latest_fuel_block"@,
            r.latest_fuel_block.spec_get() == 0,
    {
        Metrics { latest_fuel_block: IntGauge::new("latest_fuel_block".to_owned()) }
    }
}

/// Decides, once per invocation, whether a new checkpoint candidate exists
/// and emits it on the handoff queue.
pub struct BlockWatcher<A, Db> {
    pub fuel_adapter: A,
    pub tx_fuel_block: BoundedQueue,
    pub storage: Db,
    pub commit_interval: CommitInterval,
    pub metrics: Metrics,
}

impl<A, Db> BlockWatcher<A, Db> {
    pub fn new(
        commit_interval: CommitInterval,
        tx_fuel_block: BoundedQueue,
        fuel_adapter: A,
        storage: Db,
    ) -> (r: Self)
        ensures
            r.commit_interval == commit_interval,
            r.tx_fuel_block == tx_fuel_block,
            r.fuel_adapter == fuel_adapter,
            r.storage == storage,
            r.metrics.latest_fuel_block.spec_name() == "latest_fuel_block"@,
            r.metrics.latest_fuel_block.spec_get() == 0,
    {
        BlockWatcher {
            commit_interval,
            fuel_adapter,
            tx_fuel_block,
            storage,
            metrics: Metrics::default(),
        }
    }

    /// The gauges this component owns.
    pub fn metrics(&self) -> (r: &Metrics)
        ensures
            r == &self.metrics,
    {
        &self.metrics
    }
}

impl<A, Db> BlockWatcher<A, Db> where A: fuel::Api, Db: Storage {
    /// Fetch the newest source-chain block and record its height in the
    /// "latest observed" gauge.
    pub fn fetch_latest_block(&mut self) -> (r: Result<FuelBlock, Error>)
        ensures
            final(self).fuel_adapter == old(self).fuel_adapter,
            final(self).storage == old(self).storage,
            final(self).tx_fuel_block == old(self).tx_fuel_block,
            final(self).commit_interval == old(self).commit_interval,
            final(self).metrics.latest_fuel_block.spec_name() == old(
                self,
            ).metrics.latest_fuel_block.spec_name(),
            r matches Ok(b) ==> old(self).fuel_adapter.chain_latest() == Some(b)
                && final(self).metrics.latest_fuel_block.spec_get() == b.height as i64,
            r matches Err(e) ==> e matches Error::Network(_) && final(self).metrics == old(
                self,
            ).metrics,
    {
        let current_block = match self.fuel_adapter.latest_block() {
            Ok(b) => b,
            Err(e) => {
                return Err(Error::from(e));
            },
        };
        self.metrics.latest_fuel_block.set(current_block.height as i64);
        Ok(current_block)
    }

    /// Whether the epoch at `block_height` is already covered by a stored
    /// submission.
    pub fn check_if_stale(&self, block_height: u32) -> (r: Result<bool, Error>)
        ensures
            r == Ok::<bool, Error>(is_stale(self.storage.subs(), block_height as int)),
    {
        match self.last_submitted_block_height() {
            Ok(Some(submitted_height)) => Ok(submitted_height >= block_height),
            Ok(None) => Ok(false),
            Err(e) => Err(e),
        }
    }

    /// The epoch boundary for the given source-chain height.
    pub fn current_epoch_block_height(&self, current_block_height: u32) -> (r: u32)
        ensures
            r == epoch_of(current_block_height, self.commit_interval.spec_get()),
    {
        let interval = self.commit_interval.get();
        proof {
            lemma_mod_bound(current_block_height as int, interval as int);
            lemma_fundamental_div_mod(current_block_height as int, interval as int);
            assert(current_block_height as int % interval as int <= current_block_height as int)
                by (nonlinear_arith)
                requires
                    interval >= 1,
            ;
        }
        current_block_height - (current_block_height % interval)
    }

    /// The block height of the latest stored submission, if any.
    pub fn last_submitted_block_height(&self) -> (r: Result<Option<u32>, Error>)
        ensures
            r == Ok::<Option<u32>, Error>(
                match latest_of(self.storage.subs()) {
                    Some(s) => Some(s.block.height),
                    None => None::<u32>,
                },
            ),
    {
        match self.storage.submission_w_latest_block() {
            Ok(Some(submission)) => Ok(Some(submission.block.height)),
            Ok(None) => Ok(None),
            Err(e) => Err(Error::from_storage(e)),
        }
    }

    /// Fetch the block at exactly the given height; a height the reader no
    /// longer provides is a logical failure naming no candidate.
    pub fn fetch_block(&self, height: u32) -> (r: Result<FuelBlock, Error>)
        ensures
            r matches Ok(b) ==> self.fuel_adapter.block_at(height) == Some(b),
            self.fuel_adapter.block_at(height) is None ==> r is Err,
    {
        match self.fuel_adapter.block_at_height(height) {
            Ok(Some(block)) => Ok(block),
            Ok(None) => Err(
                Error::Other("fuel node could not provide the block at the epoch height".to_owned()),
            ),
            Err(e) => Err(Error::from(e)),
        }
    }

    /// One tick: observe the newest block, record its height in the gauge
    /// unconditionally, and emit the epoch-boundary block on the handoff
    /// queue unless the epoch is already covered.
    pub fn run(&mut self) -> (r: Result<(), Error>)
        ensures
            final(self).fuel_adapter == old(self).fuel_adapter,
            final(self).storage == old(self).storage,
            final(self).commit_interval == old(self).commit_interval,
            final(self).tx_fuel_block.spec_capacity() == old(self).tx_fuel_block.spec_capacity(),
            final(self).metrics.latest_fuel_block.spec_name() == old(
                self,
            ).metrics.latest_fuel_block.spec_name(),
            r is Ok ==> old(self).fuel_adapter.chain_latest() is Some,
            r is Ok ==> ({
                let b = old(self).fuel_adapter.chain_latest()->Some_0;
                let epoch = epoch_of(b.height, old(self).commit_interval.spec_get());
                let stale = is_stale(old(self).storage.subs(), epoch);
                let emitted = if b.height == epoch {
                    b
                } else {
                    old(self).fuel_adapter.block_at(epoch as u32)->Some_0
                };
                &&& final(self).metrics.latest_fuel_block.spec_get() == b.height as i64
                &&& stale ==> final(self).tx_fuel_block.pending() == old(
                    self,
                ).tx_fuel_block.pending()
                &&& !stale ==> {
                    &&& b.height != epoch ==> old(self).fuel_adapter.block_at(epoch as u32)
                        is Some
                    &&& final(self).tx_fuel_block.pending() == old(
                        self,
                    ).tx_fuel_block.pending().push(emitted)
                }
            }),
            r is Err ==> final(self).tx_fuel_block.pending() == old(self).tx_fuel_block.pending(),
    {
        let current_block = match self.fetch_latest_block() {
            Ok(b) => b,
            Err(e) => {
                return Err(e);
            },
        };
        let current_epoch_block_height = self.current_epoch_block_height(current_block.height);

        let stale = match self.check_if_stale(current_epoch_block_height) {
            Ok(s) => s,
            Err(e) => {
                return Err(e);
            },
        };
        if stale {
            return Ok(());
        }
        let block = if current_block.height == current_epoch_block_height {
            current_block
        } else {
            match self.fetch_block(current_epoch_block_height) {
                Ok(b) => b,
                Err(e) => {
                    return Err(e);
                },
            }
        };

        match self.tx_fuel_block.send(block) {
            Ok(_) => Ok(()),
            Err(_) => Err(
                Error::Other("checkpoint candidate queue has no free capacity".to_owned()),
            ),
        }
    }
}

} // verus!
