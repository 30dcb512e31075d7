//! The ways in which a call can fail.

use vstd::prelude::*;

verus! {

/// The documented refusals of the contract.
#[derive(Copy, Clone, Debug, Eq, PartialEq, PartialOrd, Ord, Structural)]
pub enum Error {
    /// `initialize` called twice.
    AlreadyInitialized,
    /// Empty milestone list, or removing the last one.
    NoMilestones,
    /// Non-positive amount, or a numeric input out of range.
    InvalidAmount,
    /// Caller is not the required party, admin or juror.
    NotAuthorized,
    /// Action does not match the escrow's current status, or splits a dispute on
    /// which every juror has voted.
    InvalidState,
    /// No escrow with that ID.
    EscrowNotFound,
    /// Milestone index out of range.
    InvalidMilestone,
    /// Milestone already paid out.
    AlreadyReleased,
    /// Auto-release or force-resolve deadline has not passed yet.
    TooEarly,
    /// Action blocked while a dispute is open.
    EscrowDisputed,
    /// No dispute exists for that escrow and milestone.
    NoDispute,
    /// Dispute already resolved.
    AlreadyResolved,
    /// Caller is not assigned to this dispute, or has no juror stake.
    NotAJuror,
    /// Juror already cast a vote.
    AlreadyVoted,
    /// Not every assigned juror has voted yet.
    VotingIncomplete,
    /// Stake below the configured minimum.
    InsufficientStake,
    /// Juror pool is empty, or holds none but the parties.
    NoJurorsAvailable,
    /// Protocol fee above `MAX_FEE_BPS`.
    FeeTooHigh,
    /// Jury size is zero or even.
    InvalidJurySize,
    /// Re-registering a juror with a different stake asset.
    AssetMismatch,
    /// Stake cannot be withdrawn while assigned to an open dispute.
    JurorHasActiveDispute,
    /// Renter and host are the same address.
    SameParty,
    /// Empty evidence string.
    MissingEvidence,
    /// Milestone offsets out of order.
    NonChronologicalMilestones,
    /// `create_escrow` and `deposit` are blocked by the admin's pause.
    ContractPaused,
    /// Slash rate above `MAX_SLASH_BPS`.
    SlashTooHigh,
    /// Below `min_reputation` to register as a juror.
    ReputationTooLow,
    /// Deposit blocked until the host accepts.
    HostAcceptancePending,
    /// Description or evidence above `MAX_STRING_LENGTH`.
    StringTooLong,
    /// Milestone count above `MAX_MILESTONES`.
    TooManyMilestones,
    /// `expire_unfunded_escrow` called before its window elapsed.
    NotYetExpired,
    /// Voting window outside its bounds.
    InvalidVotingWindow,
    /// Arbitration fee above `MAX_ARBITRATION_FEE_BPS`.
    ArbitrationFeeTooHigh,
    /// Additional evidence above `MAX_ADDITIONAL_EVIDENCE` entries.
    TooMuchEvidence,
}

/// Why a call failed.
#[derive(Copy, Clone, Debug, Eq, PartialEq, Structural)]
pub enum Failure {
    /// The contract refuses the call.
    Refused(Error),
    /// The call aborts without an error of its own: a number left the range of
    /// its type, or a dispute names a milestone that its escrow does not have.
    Aborted,
}

/// The number by which callers on the network see an error.
pub open spec fn error_code(e: Error) -> u32 {
    match e {
        Error::AlreadyInitialized => 1,
        Error::NoMilestones => 2,
        Error::InvalidAmount => 3,
        Error::NotAuthorized => 4,
        Error::InvalidState => 5,
        Error::EscrowNotFound => 6,
        Error::InvalidMilestone => 7,
        Error::AlreadyReleased => 8,
        Error::TooEarly => 9,
        Error::EscrowDisputed => 10,
        Error::NoDispute => 11,
        Error::AlreadyResolved => 12,
        Error::NotAJuror => 13,
        Error::AlreadyVoted => 14,
        Error::VotingIncomplete => 15,
        Error::InsufficientStake => 16,
        Error::NoJurorsAvailable => 17,
        Error::FeeTooHigh => 18,
        Error::InvalidJurySize => 19,
        Error::AssetMismatch => 20,
        Error::JurorHasActiveDispute => 21,
        Error::SameParty => 22,
        Error::MissingEvidence => 23,
        Error::NonChronologicalMilestones => 24,
        Error::ContractPaused => 25,
        Error::SlashTooHigh => 26,
        Error::ReputationTooLow => 27,
        Error::HostAcceptancePending => 28,
        Error::StringTooLong => 29,
        Error::TooManyMilestones => 30,
        Error::NotYetExpired => 31,
        Error::InvalidVotingWindow => 32,
        Error::ArbitrationFeeTooHigh => 33,
        Error::TooMuchEvidence => 34,
    }
}

impl Error {
    /// The number by which callers on the network see this error.
    pub fn code(&self) -> (n: u32)
        ensures
            n == error_code(*self),
            1 <= n <= 34,
    {
        match self {
            Error::AlreadyInitialized => 1,
            Error::NoMilestones => 2,
            Error::InvalidAmount => 3,
            Error::NotAuthorized => 4,
            Error::InvalidState => 5,
            Error::EscrowNotFound => 6,
            Error::InvalidMilestone => 7,
            Error::AlreadyReleased => 8,
            Error::TooEarly => 9,
            Error::EscrowDisputed => 10,
            Error::NoDispute => 11,
            Error::AlreadyResolved => 12,
            Error::NotAJuror => 13,
            Error::AlreadyVoted => 14,
            Error::VotingIncomplete => 15,
            Error::InsufficientStake => 16,
            Error::NoJurorsAvailable => 17,
            Error::FeeTooHigh => 18,
            Error::InvalidJurySize => 19,
            Error::AssetMismatch => 20,
            Error::JurorHasActiveDispute => 21,
            Error::SameParty => 22,
            Error::MissingEvidence => 23,
            Error::NonChronologicalMilestones => 24,
            Error::ContractPaused => 25,
            Error::SlashTooHigh => 26,
            Error::ReputationTooLow => 27,
            Error::HostAcceptancePending => 28,
            Error::StringTooLong => 29,
            Error::TooManyMilestones => 30,
            Error::NotYetExpired => 31,
            Error::InvalidVotingWindow => 32,
            Error::ArbitrationFeeTooHigh => 33,
            Error::TooMuchEvidence => 34,
        }
    }
}

} // verus!
