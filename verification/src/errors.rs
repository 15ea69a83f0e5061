use vstd::prelude::*;

verus! {

/// The failure conditions every operation reports. Each operation's contract
/// states exactly which condition yields which variant; every error aborts the
/// whole operation with no partial mutation.
#[derive(Clone, Copy, Debug, PartialEq, Eq, Structural)]
pub enum VestingError {
    /// The caller is not the principal the operation demands
    /// (admin, vault owner, delegate, or proposed admin).
    Unauthorized,
    /// The vault id or milestone id does not exist.
    NotFound,
    /// The contract or the vault is in a state that forbids the operation:
    /// paused, deprecated, not yet initialized, already fully released,
    /// not revocable, or outside the clawback grace window.
    InvalidState,
    /// A parameter is malformed: a negative amount, an amount over the
    /// supported bound, `end < start`, a step longer than the whole schedule,
    /// mismatched batch array lengths, or a token not eligible for rescue.
    InvalidArgument,
    /// An amount exceeds what is available: a claim above the claimable
    /// entitlement, a stake above the unstaked entitlement, a rescue with no
    /// surplus, or a transfer above the held balance.
    InsufficientBalance,
}

} // verus!
