//! The bounded handoff queue between the watcher and the external
//! submitter: a small fixed-capacity FIFO, the single backpressure point of
//! the system. A send into a full queue fails rather than losing a
//! candidate, which caps in-flight unsent candidates at the capacity.

use vstd::prelude::*;
use crate::types::FuelBlock;

verus! {

/// A fixed-capacity FIFO of checkpoint candidates.
pub struct BoundedQueue {
    items: Vec<FuelBlock>,
    capacity: usize,
}

impl BoundedQueue {
    /// The queued candidates, oldest first, for specifications.
    pub closed spec fn pending(&self) -> Seq<FuelBlock> {
        self.items@
    }

    /// The fixed capacity, for specifications.
    pub closed spec fn spec_capacity(&self) -> usize {
        self.capacity
    }

    /// A fresh queue with room for `capacity` candidates.
    pub fn new(capacity: usize) -> (r: BoundedQueue)
        ensures
            r.pending() == Seq::<FuelBlock>::empty(),
            r.spec_capacity() == capacity,
    {
        BoundedQueue { items: Vec::new(), capacity }
    }

    /// Enqueue a candidate; gives the candidate back when the queue has no
    /// free capacity.
    pub fn send(&mut self, block: FuelBlock) -> (r: Result<(), FuelBlock>)
        ensures
            final(self).spec_capacity() == old(self).spec_capacity(),
            old(self).pending().len() < old(self).spec_capacity() ==> r == Ok::<(), FuelBlock>(())
                && final(self).pending() == old(self).pending().push(block),
            old(self).pending().len() >= old(self).spec_capacity() ==> r == Err::<(), FuelBlock>(
                block,
            ) && final(self).pending() == old(self).pending(),
    {
        if self.items.len() < self.capacity {
            self.items.push(block);
            Ok(())
        } else {
            Err(block)
        }
    }

    /// Dequeue the oldest candidate, if any.
    pub fn try_recv(&mut self) -> (r: Option<FuelBlock>)
        ensures
            final(self).spec_capacity() == old(self).spec_capacity(),
            old(self).pending().len() == 0 ==> r is None
                && final(self).pending() == old(self).pending(),
            old(self).pending().len() > 0 ==> r == Some(old(self).pending()[0])
                && final(self).pending() == old(self).pending().drop_first(),
    {
        if self.items.len() == 0 {
            None
        } else {
            let block = self.items.remove(0);
            Some(block)
        }
    }
}

} // verus!
