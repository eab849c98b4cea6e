//! The commit listener: continuously reconciles destination-chain
//! confirmations with the submission store.
//!
//! Scanning starts at the submittal height of the latest stored
//! submission. Each event is handled in arrival order, one at a time, and
//! a single mismatch is never allowed to terminate the stream: streams may
//! race ahead of store writes or replay duplicates, and one anomaly must
//! not stop all future reconciliation.

use vstd::prelude::*;
use crate::errors::Error;
use crate::l1::{Contract, EventItem, EventStream, EventStreamer};
use crate::metrics::IntGauge;
use crate::storage::{find_submission, latest_of, lemma_find_submission, Storage};
use crate::types::{BlockSubmission, FuelBlockCommittedOnL1, L1Height};

verus! {

/// A cooperative cancellation signal, observed between successive event
/// pulls; in-flight handling of the current event always completes before
/// listening stops.
pub struct CancellationToken {
    cancelled: bool,
}

impl CancellationToken {
    pub closed spec fn spec_is_cancelled(&self) -> bool {
        self.cancelled
    }

    pub fn new() -> (r: CancellationToken)
        ensures
            !r.spec_is_cancelled(),
    {
        CancellationToken { cancelled: false }
    }

    /// Signal cancellation; the signal is never withdrawn.
    pub fn cancel(&mut self)
        ensures
            final(self).spec_is_cancelled(),
    {
        self.cancelled = true;
    }

    pub fn is_cancelled(&self) -> (r: bool)
        ensures
            r == self.spec_is_cancelled(),
    {
        self.cancelled
    }
}

impl Default for CancellationToken {
    /// A fresh token carries no signal.
    fn default() -> (r: Self)
        ensures
            !r.spec_is_cancelled(),
    {
        CancellationToken::new()
    }
}

/// The destination height confirmation scanning starts from: the
/// submittal height of the latest stored submission, or zero on an empty
/// store.
pub open spec fn starting_height_of(subs: Seq<BlockSubmission>) -> L1Height {
    match latest_of(subs) {
        Some(s) => s.submittal_height,
        None => L1Height::spec_new(0),
    }
}

/// The store contents and the confirmed-height gauge after handling one
/// stream item, per the per-event isolation policy: an errored item, an
/// unknown hash, or an already-completed record changes nothing.
pub open spec fn apply_event(subs: Seq<BlockSubmission>, gauge: i64, ev: EventItem) -> (
    Seq<BlockSubmission>,
    i64,
) {
    match ev {
        Err(_) => (subs, gauge),
        Ok(event) => match find_submission(subs, event.fuel_block_hash@) {
            Some(i) => if !subs[i].completed {
                (
                    subs.update(i, (BlockSubmission { completed: true, ..subs[i] })),
                    subs[i].block.height as i64,
                )
            } else {
                (subs, gauge)
            },
            None => (subs, gauge),
        },
    }
}

/// The isolation policy folded over a whole stream, in arrival order.
pub open spec fn apply_events(subs: Seq<BlockSubmission>, gauge: i64, evs: Seq<EventItem>) -> (
    Seq<BlockSubmission>,
    i64,
)
    decreases evs.len(),
{
    if evs.len() == 0 {
        (subs, gauge)
    } else {
        let stepped = apply_event(subs, gauge, evs[0]);
        apply_events(stepped.0, stepped.1, evs.drop_first())
    }
}

/// Folding one more event is one more step.
pub proof fn lemma_apply_events_snoc(
    subs: Seq<BlockSubmission>,
    gauge: i64,
    evs: Seq<EventItem>,
    ev: EventItem,
)
    ensures
        apply_events(subs, gauge, evs.push(ev)) == apply_event(
            apply_events(subs, gauge, evs).0,
            apply_events(subs, gauge, evs).1,
            ev,
        ),
    decreases evs.len(),
{
    if evs.len() == 0 {
        let stepped = apply_event(subs, gauge, ev);
        assert(evs.push(ev)[0] == ev);
        assert(evs.push(ev).drop_first() =~= evs);
        assert(apply_events(subs, gauge, evs) == (subs, gauge));
        assert(apply_events(stepped.0, stepped.1, evs) == (stepped.0, stepped.1));
        assert(apply_events(subs, gauge, evs.push(ev)) == apply_events(stepped.0, stepped.1, evs));
    } else {
        let stepped = apply_event(subs, gauge, evs[0]);
        assert(evs.push(ev)[0] == evs[0]);
        assert(evs.push(ev).drop_first() =~= evs.drop_first().push(ev));
        lemma_apply_events_snoc(stepped.0, stepped.1, evs.drop_first(), ev);
        assert(apply_events(subs, gauge, evs.push(ev)) == apply_events(
            stepped.0,
            stepped.1,
            evs.drop_first().push(ev),
        ));
        assert(apply_events(subs, gauge, evs) == apply_events(
            stepped.0,
            stepped.1,
            evs.drop_first(),
        ));
    }
}

/// Law: `completed` never reverts. A record that is already completed is
/// left exactly as it is by any stream of confirmation events.
pub proof fn lemma_completed_never_reverts(
    subs: Seq<BlockSubmission>,
    gauge: i64,
    evs: Seq<EventItem>,
    i: int,
)
    requires
        0 <= i < subs.len(),
        subs[i].completed,
    ensures
        apply_events(subs, gauge, evs).0.len() == subs.len(),
        apply_events(subs, gauge, evs).0[i] == subs[i],
    decreases evs.len(),
{
    if evs.len() > 0 {
        let stepped = apply_event(subs, gauge, evs[0]);
        assert(stepped.0.len() == subs.len() && stepped.0[i] == subs[i]) by {
            match evs[0] {
                Err(_) => {},
                Ok(event) => {
                    match find_submission(subs, event.fuel_block_hash@) {
                        Some(j) => {
                            lemma_find_submission(subs, event.fuel_block_hash@);
                            if !subs[j].completed {
                                assert(j != i);
                            }
                        },
                        None => {},
                    }
                },
            }
        }
        lemma_completed_never_reverts(stepped.0, stepped.1, evs.drop_first(), i);
    }
}

/// The listener's own gauges, exposed for registration into a
/// process-wide collector.
pub struct Metrics {
    pub latest_committed_block: IntGauge,
}

impl Default for Metrics {
    /// The confirmed-height gauge starts at zero, under its registered
    /// name.
    fn default() -> (r: Self)
        ensures
            r.latest_committed_block.spec_name() == "latest_committed_block"@,
            r.latest_committed_block.spec_get() == 0,
    {
        Metrics { latest_committed_block: IntGauge::new("latest_committed_block".to_owned()) }
    }
}

/// Consumes the destination chain's confirmation stream and advances
/// submission state.
pub struct CommitListener<C, Db> {
    pub contract: C,
    pub storage: Db,
    pub metrics: Metrics,
    pub cancel_token: CancellationToken,
}

impl<C, Db> CommitListener<C, Db> {
    pub fn new(contract: C, storage: Db, cancel_token: CancellationToken) -> (r: Self)
        ensures
            r.contract == contract,
            r.storage == storage,
            r.cancel_token == cancel_token,
            r.metrics.latest_committed_block.spec_name() == "latest_committed_block"@,
            r.metrics.latest_committed_block.spec_get() == 0,
    {
        CommitListener { contract, storage, metrics: Metrics::default(), cancel_token }
    }

    /// The gauges this component owns.
    pub fn metrics(&self) -> (r: &Metrics)
        ensures
            r == &self.metrics,
    {
        &self.metrics
    }
}

impl<C, Db> CommitListener<C, Db> where C: Contract, Db: Storage {
    /// Where confirmation scanning starts: the latest submission's
    /// submittal height, or zero when nothing was ever submitted.
    fn determine_starting_l1_height(&mut self) -> (r: Result<L1Height, Error>)
        ensures
            *final(self) == *old(self),
            r == Ok::<L1Height, Error>(starting_height_of(old(self).storage.subs())),
    {
        match self.storage.submission_w_latest_block() {
            Ok(Some(submission)) => Ok(submission.submittal_height),
            Ok(None) => Ok(L1Height::new(0)),
            Err(e) => Err(Error::from_storage(e)),
        }
    }

    /// Mark the submission carrying the event's block hash completed and
    /// record its source height in the "latest confirmed" gauge. Succeeds
    /// exactly when a pending record carries the hash; on failure the
    /// store and the gauge are untouched.
    fn handle_block_committed(&mut self, committed_on_l1: FuelBlockCommittedOnL1) -> (r: Result<
        (),
        Error,
    >)
        ensures
            final(self).contract == old(self).contract,
            final(self).cancel_token == old(self).cancel_token,
            final(self).metrics.latest_committed_block.spec_name() == old(
                self,
            ).metrics.latest_committed_block.spec_name(),
            ({
                let stepped = apply_event(
                    old(self).storage.subs(),
                    old(self).metrics.latest_committed_block.spec_get(),
                    Ok(committed_on_l1),
                );
                &&& final(self).storage.subs() == stepped.0
                &&& final(self).metrics.latest_committed_block.spec_get() == stepped.1
            }),
            r is Ok <==> (match find_submission(
                old(self).storage.subs(),
                committed_on_l1.fuel_block_hash@,
            ) {
                Some(i) => !old(self).storage.subs()[i].completed,
                None => false,
            }),
    {
        match self.storage.set_submission_completed(committed_on_l1.fuel_block_hash) {
            Ok(submission) => {
                self.metrics.latest_committed_block.set(submission.block.height as i64);
                Ok(())
            },
            Err(e) => Err(Error::from_storage(e)),
        }
    }

    /// One long-lived invocation: open the confirmation stream at the
    /// starting height and reconcile every event in arrival order, until
    /// the stream ends or cancellation is observed between pulls.
    ///
    /// Per-event failures are isolated and never propagate; only a failure
    /// to establish the stream surfaces, leaving everything untouched.
    pub fn run(&mut self) -> (r: Result<(), Error>)
        ensures
            final(self).cancel_token == old(self).cancel_token,
            final(self).metrics.latest_committed_block.spec_name() == old(
                self,
            ).metrics.latest_committed_block.spec_name(),
            r is Err ==> final(self).storage.subs() == old(self).storage.subs()
                && final(self).metrics.latest_committed_block.spec_get()
                == old(self).metrics.latest_committed_block.spec_get(),
            old(self).cancel_token.spec_is_cancelled() ==> final(self).storage.subs()
                == old(self).storage.subs()
                && final(self).metrics.latest_committed_block.spec_get()
                == old(self).metrics.latest_committed_block.spec_get(),
            r is Ok && !old(self).cancel_token.spec_is_cancelled() ==> ({
                let evs = old(self).contract.events_from(
                    starting_height_of(old(self).storage.subs()),
                );
                let folded = apply_events(
                    old(self).storage.subs(),
                    old(self).metrics.latest_committed_block.spec_get(),
                    evs,
                );
                &&& final(self).storage.subs() == folded.0
                &&& final(self).metrics.latest_committed_block.spec_get() == folded.1
            }),
    {
        let height = match self.determine_starting_l1_height() {
            Ok(h) => h,
            Err(e) => {
                return Err(e);
            },
        };
        let streamer = self.contract.event_streamer(height);
        let mut stream = match streamer.establish_stream() {
            Ok(s) => s,
            Err(e) => {
                return Err(Error::from(e));
            },
        };

        let ghost evs = stream.remaining();
        let ghost subs0 = self.storage.subs();
        let ghost gauge0 = self.metrics.latest_committed_block.spec_get();
        let ghost contract1 = self.contract;
        let ghost token0 = self.cancel_token;
        let ghost name0 = self.metrics.latest_committed_block.spec_name();
        let ghost mut processed: Seq<EventItem> = Seq::empty();

        proof {
            assert(processed + stream.remaining() =~= evs);
        }

        loop
            invariant
                self.contract == contract1,
                self.cancel_token == token0,
                self.metrics.latest_committed_block.spec_name() == name0,
                processed + stream.remaining() == evs,
                (self.storage.subs(), self.metrics.latest_committed_block.spec_get())
                    == apply_events(subs0, gauge0, processed),
                token0.spec_is_cancelled() ==> self.storage.subs() == subs0
                    && self.metrics.latest_committed_block.spec_get() == gauge0,
            ensures
                self.cancel_token == token0,
                self.metrics.latest_committed_block.spec_name() == name0,
                token0.spec_is_cancelled() ==> self.storage.subs() == subs0
                    && self.metrics.latest_committed_block.spec_get() == gauge0,
                !token0.spec_is_cancelled() ==> (
                self.storage.subs(),
                self.metrics.latest_committed_block.spec_get(),
                ) == apply_events(subs0, gauge0, evs),
            decreases stream.remaining().len(),
        {
            if self.cancel_token.is_cancelled() {
                break;
            }
            match stream.next_event() {
                None => {
                    proof {
                        assert(processed =~= evs);
                    }
                    break;
                },
                Some(item) => {
                    match item {
                        Ok(event) => {
                            let _ = self.handle_block_committed(event);
                        },
                        Err(_) => {
                            // A per-item stream failure: isolated, never
                            // terminates the loop.
                        },
                    }
                    proof {
                        lemma_apply_events_snoc(subs0, gauge0, processed, item);
                        processed = processed.push(item);
                        assert(processed + stream.remaining() =~= evs);
                    }
                },
            }
        }
        Ok(())
    }
}

} // verus!
