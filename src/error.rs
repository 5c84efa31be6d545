//! Errors returned by the operations on the pools.
use vstd::prelude::*;

verus! {

/// Why an operation was refused. A refused operation leaves the state unchanged.
#[derive(Clone, Copy, Debug, PartialEq, Eq, Structural)]
pub enum ContractError {
    /// The caller is not the administrator.
    Unauthorized,
    /// A contribution was made while the tier's round is closed.
    RoundNotOpen,
    /// Settlement was asked for while the tier's round is still open.
    RoundStillOpen,
    /// The contribution exceeds the tier's ceiling.
    ContributionTooLarge,
    /// The contribution amount is zero.
    InvalidAmount,
    /// Settlement was asked for on a pool whose total is zero.
    EmptyPool,
    /// The persisted state could not be read.
    StateLoadFailure,
}

} // verus!
