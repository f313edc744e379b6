use vstd::prelude::*;

verus! {

/// Every way an operation on the ledger can fail. A failed operation leaves
/// the state unchanged and emits no transfer instructions.
#[derive(Debug, Clone, PartialEq, Eq, Structural)]
pub enum ContractError {
    /// A non-fungible deposit was not sent by its claimed collection.
    InvalidCw721Token,
    /// The caller is neither the owner nor the creator of the configuration.
    Unauthorized,
    /// Appending the incoming rewards would push the sum of odds in the box
    /// over the configured budget; `current` is the sum already in the box,
    /// `requested` the sum of the incoming odds.
    MaxOddsReached { current: u64, requested: u64 },
    /// No box is stored under the given id.
    BoxNotFound,
    /// Reserved: the declared reward value and the attached payment differ.
    /// The batch reward-add path computes the declared value but by design
    /// does not enforce the match.
    AmountNotMatch,
    /// The attached payment is not exactly one non-zero coin of the native
    /// denomination.
    PaymentFailed,
    /// A box with the given id already exists.
    ConflictID,
    /// Defensive: a drawn reward id has no record in the box. The resolution
    /// pool is built from the box's own rewards, so this is never returned.
    RewardNotFound,
    /// The box has been finalized and accepts no further opens.
    BoxTerminated,
}

} // verus!
