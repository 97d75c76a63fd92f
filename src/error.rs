use vstd::prelude::*;

verus! {

/// Every way an operation on the registry or on a pool can be refused.
#[derive(Clone, Copy, Debug, PartialEq, Eq, Structural)]
pub enum ErrorCode {
    /// The registry has already been created.
    AlreadyInitialized,
    /// The entry amount is not one of the accepted denominations.
    InvalidEntryAmount,
    /// The participant cap lies outside `2..=10`.
    InvalidParticipantCount,
    /// The pool has been settled, or was never opened.
    RaceNotActive,
    /// The player is already in the pool.
    AlreadyJoined,
    /// The pool has reached its participant cap.
    PoolFull,
    /// A non-empty pool was settled with an empty recipient list.
    NoWinners,
    /// The recipient list is shorter than the participant count plus one.
    InsufficientRecipients,
    /// The prize pot does not fit in a `u64`.
    ArithmeticOverflow,
}

} // verus!
