//! The failures that the ledger core reports.

use vstd::prelude::*;

verus! {

/// Why an operation of the ledger core failed.
#[derive(Clone, Copy, Debug, PartialEq, Eq, Structural)]
pub enum HolochainError {
    /// Text handed in from outside could not be decoded.
    DecodeError,
    /// A header link is broken, or a push would put diverging content under
    /// an address that is already taken.
    ChainConsistencyError,
    /// No response arrived for a dispatched action within the caller's bound.
    DispatchTimeout,
    /// The content store could not be reached.
    StoreUnavailable,
}

impl HolochainError {
    /// A short description of the failure.
    pub fn to_string(&self) -> (text: String)
        ensures
            text@ == match *self {
                HolochainError::DecodeError => "could not decode the given text"@,
                HolochainError::ChainConsistencyError => "the chain is not consistent"@,
                HolochainError::DispatchTimeout => "no response within the bound"@,
                HolochainError::StoreUnavailable => "the content store is unavailable"@,
            },
    {
        match self {
            HolochainError::DecodeError => "could not decode the given text".to_owned(),
            HolochainError::ChainConsistencyError => "the chain is not consistent".to_owned(),
            HolochainError::DispatchTimeout => "no response within the bound".to_owned(),
            HolochainError::StoreUnavailable => "the content store is unavailable".to_owned(),
        }
    }
}

} // verus!
