//! Errors returned by the ledger operations.

use vstd::prelude::*;

verus! {

/// The five families of failure. The family tells a caller what to do next:
/// fix the input, wait, look elsewhere, give up, or retry with other limits.
#[derive(Clone, Copy, Debug, PartialEq, Eq, Structural)]
pub enum ErrorKind {
    /// The input is malformed; the caller must correct and resubmit it.
    Validation,
    /// The operation does not fit the current phase of the batch.
    Phase,
    /// The token, pool or account is unknown.
    NotFound,
    /// The operation would break an invariant of the ledger.
    Invariant,
    /// The quoted minimum was not met.
    Slippage,
}

/// Why an operation was refused.
#[derive(Clone, Copy, Debug, PartialEq, Eq, Structural)]
pub enum Error {
    /// The content reference of a token is empty.
    EmptyContentHash,
    /// The title of a token is empty.
    EmptyTitle,
    /// The title is longer than 100 bytes.
    TitleTooLong,
    /// The description is longer than 1000 bytes.
    DescriptionTooLong,
    /// The media reference is empty.
    EmptyMedia,
    /// The media reference begins with neither `ipfs://` nor `ar://`.
    InvalidMediaProtocol,
    /// The number of copies is zero.
    ZeroCopies,
    /// The number of copies is more than a billion.
    TooManyCopies,
    /// The payment does not cover the platform fee.
    InsufficientDeposit,
    /// The stake is below the minimum.
    StakeTooLow,
    /// The stake exceeds the balance of the account.
    InsufficientBalance,
    /// An amount that must not be zero is.
    ZeroAmount,
    /// The payment does not cover the price.
    InsufficientPayment,
    /// A range does not start before it ends.
    InvalidTimeRange,
    /// A range has ended already.
    EndTimeNotInFuture,
    /// The payment does not cover the storage.
    StorageNotCovered,
    /// The balance is below what storage takes.
    BelowMinimumStorage,
    /// The caller is not the owner.
    NotOwner,
    /// The text is not a well-formed account name.
    InvalidAccountId,
    /// A batch is running already.
    BlockInProgress,
    /// No batch is running.
    NoActiveBlock,
    /// No token waits for a batch.
    EmptyQueue,
    /// The batch does not take votes now.
    NotInVotingPhase,
    /// Voting on the batch has not ended yet.
    VotingNotEnded,
    /// The token is not a member of the batch.
    TokenNotInBlock,
    /// The token is not being voted on.
    TokenNotInVoting,
    /// The batch is not in the phase asked for.
    InvalidBlockPhase,
    /// The phase asked for cannot be checked.
    InvalidPhaseCheck,
    /// The time for voting is over.
    VotingPeriodEnded,
    /// The time is outside the public period.
    NotInPublicPeriod,
    /// The account has not staked.
    NotVoter,
    /// No token has this identifier.
    TokenNotFound,
    /// The token has no pool.
    PoolNotFound,
    /// The supply of the token is set already.
    SupplyAlreadyInitialized,
    /// More tokens are asked for than are left of the supply.
    InsufficientTokensAvailable,
    /// A reserve of the pool is empty.
    InsufficientReserves,
    /// More liquidity units are handed in than exist.
    InsufficientLiquidity,
    /// The pool has been seeded already.
    PoolAlreadyInitialized,
    /// The payment is below what the ratio of the reserves asks for.
    InsufficientNativeTokens,
    /// An amount would exceed what a balance can hold.
    AmountOverflow,
    /// A point in time would lie beyond what a timestamp can hold.
    TimeOverflow,
    /// No identifier is left for another token.
    RegistryFull,
    /// The operation would yield less than the minimum that the caller accepts.
    SlippageExceeded,
}

impl Error {
    /// The family an error belongs to.
    pub open spec fn spec_kind(self) -> ErrorKind {
        match self {
            Error::EmptyContentHash
            | Error::EmptyTitle
            | Error::TitleTooLong
            | Error::DescriptionTooLong
            | Error::EmptyMedia
            | Error::InvalidMediaProtocol
            | Error::ZeroCopies
            | Error::TooManyCopies
            | Error::InsufficientDeposit
            | Error::StakeTooLow
            | Error::InsufficientBalance
            | Error::ZeroAmount
            | Error::InsufficientPayment
            | Error::InvalidTimeRange
            | Error::EndTimeNotInFuture
            | Error::StorageNotCovered
            | Error::BelowMinimumStorage
            | Error::NotOwner
            | Error::InvalidAccountId => ErrorKind::Validation,
            Error::BlockInProgress
            | Error::NoActiveBlock
            | Error::EmptyQueue
            | Error::NotInVotingPhase
            | Error::VotingNotEnded
            | Error::TokenNotInBlock
            | Error::TokenNotInVoting
            | Error::InvalidBlockPhase
            | Error::InvalidPhaseCheck
            | Error::VotingPeriodEnded
            | Error::NotInPublicPeriod
            | Error::NotVoter => ErrorKind::Phase,
            Error::TokenNotFound | Error::PoolNotFound => ErrorKind::NotFound,
            Error::SupplyAlreadyInitialized
            | Error::InsufficientTokensAvailable
            | Error::InsufficientReserves
            | Error::InsufficientLiquidity
            | Error::PoolAlreadyInitialized
            | Error::InsufficientNativeTokens
            | Error::AmountOverflow
            | Error::TimeOverflow
            | Error::RegistryFull => ErrorKind::Invariant,
            Error::SlippageExceeded => ErrorKind::Slippage,
        }
    }

    /// The family an error belongs to.
    #[verifier::when_used_as_spec(spec_kind)]
    pub fn kind(self) -> (k: ErrorKind)
        ensures
            k == self.spec_kind(),
    {
        match self {
            Error::EmptyContentHash
            | Error::EmptyTitle
            | Error::TitleTooLong
            | Error::DescriptionTooLong
            | Error::EmptyMedia
            | Error::InvalidMediaProtocol
            | Error::ZeroCopies
            | Error::TooManyCopies
            | Error::InsufficientDeposit
            | Error::StakeTooLow
            | Error::InsufficientBalance
            | Error::ZeroAmount
            | Error::InsufficientPayment
            | Error::InvalidTimeRange
            | Error::EndTimeNotInFuture
            | Error::StorageNotCovered
            | Error::BelowMinimumStorage
            | Error::NotOwner
            | Error::InvalidAccountId => ErrorKind::Validation,
            Error::BlockInProgress
            | Error::NoActiveBlock
            | Error::EmptyQueue
            | Error::NotInVotingPhase
            | Error::VotingNotEnded
            | Error::TokenNotInBlock
            | Error::TokenNotInVoting
            | Error::InvalidBlockPhase
            | Error::InvalidPhaseCheck
            | Error::VotingPeriodEnded
            | Error::NotInPublicPeriod
            | Error::NotVoter => ErrorKind::Phase,
            Error::TokenNotFound | Error::PoolNotFound => ErrorKind::NotFound,
            Error::SupplyAlreadyInitialized
            | Error::InsufficientTokensAvailable
            | Error::InsufficientReserves
            | Error::InsufficientLiquidity
            | Error::PoolAlreadyInitialized
            | Error::InsufficientNativeTokens
            | Error::AmountOverflow
            | Error::TimeOverflow
            | Error::RegistryFull => ErrorKind::Invariant,
            Error::SlippageExceeded => ErrorKind::Slippage,
        }
    }
}

} // verus!
