//! The data model shared by the watcher, the listener and the store.

use vstd::prelude::*;

verus! {

/// Identifies a source-chain block. Immutable once observed.
#[derive(Clone, Copy, Debug, PartialEq, Eq)]
pub struct FuelBlock {
    pub hash: [u8; 32],
    pub height: u32,
}

/// A 256-bit destination-chain amount, carried but never inspected by this
/// core.
#[derive(Clone, Copy, Debug, PartialEq, Eq, Default)]
pub struct U256 {
    pub low: u128,
    pub high: u128,
}

/// Raised when a raw value cannot be represented as a destination-chain
/// height.
#[derive(Clone, Copy, Debug, PartialEq, Eq)]
pub struct InvalidL1Height;

impl InvalidL1Height {
    /// A human-readable description of the failure.
    pub fn describe(&self) -> (r: String)
        ensures
            r@ == "invalid L1 height"@,
    {
        "invalid L1 height".to_owned()
    }
}

/// A validated destination-chain height. Construction from a raw signed
/// value fails unless the value fits the accepted range.
#[derive(Clone, Copy, Debug, PartialEq, Eq)]
pub struct L1Height {
    value: u32,
}

impl L1Height {
    /// The height as a number, for specifications.
    pub closed spec fn spec_get(self) -> u32 {
        self.value
    }

    /// The height holding the given number, for specifications.
    pub closed spec fn spec_new(value: u32) -> L1Height {
        L1Height { value }
    }

    /// A height is nothing but its number.
    pub proof fn lemma_ext(a: L1Height, b: L1Height)
        requires
            a.spec_get() == b.spec_get(),
        ensures
            a == b,
    {
    }

    pub fn new(value: u32) -> (r: L1Height)
        ensures
            r == L1Height::spec_new(value),
            r.spec_get() == value,
    {
        L1Height { value }
    }

    /// Validated construction: succeeds exactly when the raw value is
    /// representable as a height.
    pub fn try_from_raw(raw: i64) -> (r: Result<L1Height, InvalidL1Height>)
        ensures
            r is Ok <==> 0 <= raw <= u32::MAX,
            r matches Ok(h) ==> h.spec_get() == raw,
            r matches Err(e) ==> e == InvalidL1Height,
    {
        if 0 <= raw && raw <= u32::MAX as i64 {
            Ok(L1Height { value: raw as u32 })
        } else {
            Err(InvalidL1Height)
        }
    }

    pub fn get(&self) -> (r: u32)
        ensures
            r == self.spec_get(),
    {
        self.value
    }
}

/// The intent and outcome of checkpointing one source-chain block on the
/// destination chain. `submittal_height` is the destination height at the
/// time of submission, the starting point for confirmation scanning.
/// `completed` starts `false` and moves to `true` at most once.
#[derive(Clone, Copy, Debug, PartialEq, Eq)]
pub struct BlockSubmission {
    pub block: FuelBlock,
    pub submittal_height: L1Height,
    pub completed: bool,
}

/// An observation from the destination chain's event stream; consumed
/// transiently to update a submission, never persisted.
#[derive(Clone, Copy, Debug, PartialEq, Eq)]
pub struct FuelBlockCommittedOnL1 {
    pub fuel_block_hash: [u8; 32],
    pub commit_height: U256,
}

/// A positive checkpoint epoch width. Construction rejects zero, so every
/// value of this type can serve as a modulus.
#[derive(Clone, Copy, Debug, PartialEq, Eq)]
pub struct CommitInterval {
    value: u32,
}

impl CommitInterval {
    #[verifier::type_invariant]
    spec fn positive(self) -> bool {
        self.value >= 1
    }

    /// The width as a number, for specifications.
    pub closed spec fn spec_get(self) -> u32 {
        self.value
    }

    /// Succeeds exactly on positive widths.
    pub fn new(value: u32) -> (r: Option<CommitInterval>)
        ensures
            r is Some <==> value >= 1,
            r matches Some(c) ==> c.spec_get() == value,
    {
        if value == 0 {
            None
        } else {
            Some(CommitInterval { value })
        }
    }

    pub fn get(&self) -> (r: u32)
        ensures
            r == self.spec_get(),
            r >= 1,
    {
        proof {
            use_type_invariant(self);
        }
        self.value
    }
}

/// Element-wise equality of two block hashes.
pub fn hashes_equal(a: &[u8; 32], b: &[u8; 32]) -> (r: bool)
    ensures
        r == (a@ == b@),
{
    let mut i: usize = 0;
    while i < 32
        invariant
            i <= 32,
            forall|j: int| 0 <= j < i ==> a@[j] == b@[j],
        decreases 32 - i,
    {
        if a[i] != b[i] {
            assert(a@[i as int] != b@[i as int]);
            return false;
        }
        i += 1;
    }
    proof {
        assert(a@ =~= b@);
    }
    true
}

} // verus!
