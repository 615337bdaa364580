//! Typed errors returned by the components.

use vstd::prelude::*;

verus! {

/// Failure of a capability check.
#[derive(Clone, Copy, Debug, PartialEq, Eq, Structural)]
pub enum AccessControlError {
    InvalidCaller,
    MissingRole,
    RoleRedundant,
}

/// Errors of the raffle engine and of the contract built on it.
#[derive(Clone, Copy, Debug, PartialEq, Eq, Structural)]
pub enum RaffleError {
    IncorrectEra,
    NoReward,
    NoRatioSet,
    IncorrectRatio,
    NoWinner,
    TooManyWinners,
    /// Winners were to be drawn from a store without participants.
    NoParticipant,
    /// A draw selected no participant.
    NoSelectedParticipant,
    /// The random source failed.
    RandomGeneratorError(RandomGeneratorError),
    DivByZero,
    MulOverFlow,
    AddOverFlow,
    AccessControlError(AccessControlError),
    FailedToDecode,
    TryFromIntError,
    CrossContractCallError1,
    CrossContractCallError2,
    TransferError,
    DappsStakingDeveloperAddressMissing,
    RewardManagerAddressMissing,
}

/// Errors of the pending-reward ledger.
#[derive(Clone, Copy, Debug, PartialEq, Eq, Structural)]
pub enum RewardError {
    InsufficientTransferredBalance,
    TransferError,
    AddOverFlow,
    NoReward,
    AccessControlError(AccessControlError),
}

/// Errors of the random source.
#[derive(Clone, Copy, Debug, PartialEq, Eq, Structural)]
pub enum RandomGeneratorError {
    DivByZero,
    MulOverFlow,
    AddOverFlow,
    SubOverFlow,
    MissingAddress,
    AccessControlError(AccessControlError),
}

/// Errors of the participant store.
#[derive(Clone, Copy, Debug, PartialEq, Eq, Structural)]
pub enum ParticipantManagerError {
    MaxSizeExceeded,
    PageNotFound,
    AddOverFlow,
    AccessControlError(AccessControlError),
}

/// Errors of the oracle bridge and of the meta-transaction relay.
#[derive(Clone, Copy, Debug, PartialEq, Eq, Structural)]
pub enum RollupClientError {
    /// A message or a relayed payload could not be decoded.
    FailedToDecode,
    /// A request could not be encoded.
    FailedToEncode,
    /// A message does not carry the hashes that the contract expects.
    HashMismatch,
    /// A value of the key-value store is not the one that the batch was
    /// computed for.
    CondNotMet,
    /// The pointer to the processed messages would move backwards.
    InvalidPopTarget,
    /// The signature does not authenticate the request.
    BadSignature,
    /// The request does not carry the signer's next nonce.
    NonceMismatch,
    /// The signer's nonce cannot advance any further.
    NonceOverflow,
    /// The caller does not hold the capability that the operation needs.
    AccessControlError(AccessControlError),
    /// The raffle engine refused the message.
    RaffleError(RaffleError),
}

} // verus!
