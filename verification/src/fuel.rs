//! The source-chain reader interface.

use vstd::prelude::*;
use crate::types::FuelBlock;

verus! {

/// Failures of the source-chain reader are always connectivity failures:
/// a missing block is reported as an absent value, not as an error.
#[derive(Clone, Debug, PartialEq, Eq)]
pub enum Error {
    Network(String),
}

/// Read-only access to the source chain. Implementations are injected at
/// construction; the contracts relate each answer to the reader's view of
/// the chain, without promising that a read succeeds (connectivity may
/// fail at any time).
pub trait Api {
    /// The newest block the reader can currently see, if any.
    spec fn chain_latest(&self) -> Option<FuelBlock>;

    /// The block stored at the given height, if any.
    spec fn block_at(&self, height: u32) -> Option<FuelBlock>;

    /// Fetch the newest block of the source chain.
    fn latest_block(&self) -> (r: Result<FuelBlock, Error>)
        ensures
            r matches Ok(b) ==> self.chain_latest() == Some(b),
    ;

    /// Fetch the block at exactly the given height; an absent height is
    /// `Ok(None)`, not an error.
    fn block_at_height(&self, height: u32) -> (r: Result<Option<FuelBlock>, Error>)
        ensures
            r matches Ok(ob) ==> ob == self.block_at(height),
    ;
}

} // verus!
