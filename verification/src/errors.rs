//! The top-level failure taxonomy: `Network` is transient connectivity the
//! scheduler should retry next tick, `Storage` is a durable-store failure,
//! and `Other` covers logical failures that are safe to retry because no
//! partial state is left behind.

use vstd::prelude::*;
use crate::fuel;
use crate::l1;
use crate::storage;

verus! {

#[derive(Clone, Debug, PartialEq, Eq)]
pub enum Error {
    Other(String),
    Network(String),
    Storage(String),
}

impl core::convert::From<l1::Error> for Error {
    /// Destination-chain connectivity failures keep their classification;
    /// everything else is a logical failure.
    fn from(value: l1::Error) -> (r: Error) {
        match value {
            l1::Error::Network(e) => Error::Network(e),
            l1::Error::Other(e) => Error::Other(e),
        }
    }
}

impl vstd::std_specs::convert::FromSpecImpl<l1::Error> for Error {
    open spec fn obeys_from_spec() -> bool {
        true
    }

    open spec fn from_spec(value: l1::Error) -> Error {
        match value {
            l1::Error::Network(e) => Error::Network(e),
            l1::Error::Other(e) => Error::Other(e),
        }
    }
}

impl core::convert::From<fuel::Error> for Error {
    /// Source-chain failures are connectivity failures by construction.
    fn from(value: fuel::Error) -> (r: Error) {
        match value {
            fuel::Error::Network(e) => Error::Network(e),
        }
    }
}

impl vstd::std_specs::convert::FromSpecImpl<fuel::Error> for Error {
    open spec fn obeys_from_spec() -> bool {
        true
    }

    open spec fn from_spec(value: fuel::Error) -> Error {
        match value {
            fuel::Error::Network(e) => Error::Network(e),
        }
    }
}

impl Error {
    /// Store failures surface under the `Storage` classification, keeping
    /// the store's own description of what went wrong.
    pub fn from_storage(value: storage::Error) -> (r: Error)
        ensures
            r matches Error::Storage(m) && m@ == value.describe_view(),
    {
        Error::Storage(value.describe())
    }
}

} // verus!
