use vstd::prelude::*;

verus! {

/// The failure kinds of the transition operations. Every error aborts the
/// whole transition before any state mutation is committed; nothing is
/// retried internally.
#[derive(Clone, Copy, PartialEq, Eq, Structural, Debug)]
pub enum CustomError {
    /// A mutating user-facing call arrived while the ledger was paused.
    ContractPaused,
    /// An administrative call came from a principal other than the owner.
    Unauthorized,
    /// The denomination is not in the configured set of valid amounts.
    InvalidAmount,
    /// The upgrade target package is not strictly greater than the current one.
    InvalidUpgrade,
    /// A buyer named themselves as referrer.
    SelfReferralNotAllowed,
    /// Checked arithmetic overflowed.
    ArithmeticError,
    /// The placement resolver found no referrer with spare capacity.
    NoSpilloverAvailable,
    /// Reserved: the named referrer was rejected. No transition operation
    /// currently returns this kind.
    InvalidReferrer,
    /// The buyer is on the blacklist.
    UserBlacklisted,
}

} // verus!
