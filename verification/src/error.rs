//! The failures an operation can end in. Each one aborts the operation that
//! met it: the ledger is then left exactly as it was.

use vstd::prelude::*;

verus! {

/// The four families of failure.
#[derive(Clone, Copy, Debug, PartialEq, Eq, Structural)]
pub enum ErrorKind {
    /// The caller has not proven the identity that the operation asks for.
    Authorization,
    /// An input is malformed or out of range.
    Validation,
    /// The ledger is not in a state in which the operation can run.
    State,
    /// A reward or a total does not fit its integer type.
    Arithmetic,
}

/// What a notification payload can violate.
#[derive(Clone, Copy, Debug, PartialEq, Eq, Structural)]
pub enum EventFault {
    RewardRateNotPositive,
    MinStakeNotPositive,
    StakeAmountNotPositive,
    TotalBelowAmount,
    UnstakeAmountNotPositive,
    NegativeReward,
    NegativeRemaining,
    EscrowAmountNotPositive,
    UnlockNotAfterTimestamp,
    ReleasedAmountNotPositive,
    NoRecipients,
    TotalRewardsNotPositive,
}

/// Why an operation failed.
#[derive(Clone, Copy, Debug, PartialEq, Eq, Structural)]
pub enum Error {
    /// The principal that must sign has not done so.
    Unauthorized,
    /// The caller of an administrator-only operation is not the administrator.
    NotAdmin,
    /// The two lists of a batch differ in length.
    LengthMismatch,
    /// The batch names no account.
    EmptyBatch,
    /// A stake is smaller than the configured minimum.
    BelowMinimumStake,
    /// More is withdrawn than the position holds after accrual.
    InsufficientStake,
    /// An escrow is asked to hold nothing, or less.
    EscrowAmountNotPositive,
    /// An escrow would unlock now or in the past.
    UnlockNotInFuture,
    /// The depositor already uses this escrow id.
    EscrowIdInUse,
    /// A recurring payment would move nothing, or less.
    PaymentAmountNotPositive,
    /// A recurring payment would repeat without pause.
    IntervalNotPositive,
    /// A notification would contradict itself.
    InvalidEvent(EventFault),
    /// No configuration has been set.
    NotInitialized,
    /// The configuration is already set.
    AlreadyInitialized,
    /// The account has no stake position.
    NoStake,
    /// The position's accrual window starts after the current time.
    AccrualStartInFuture,
    /// No escrow exists under this depositor and id.
    EscrowNotFound,
    /// The escrow's unlock time has not come.
    EscrowStillLocked,
    /// No recurring payment has this id.
    PaymentNotFound,
    /// The recurring payment was canceled.
    PaymentNotActive,
    /// The recurring payment is not due yet.
    TooEarly,
    /// The recurring payment is canceled already.
    AlreadyCanceled,
    /// A reward, a balance, a total or a counter left its integer range.
    Overflow,
}

impl EventFault {
    /// The text that describes this fault.
    pub open spec fn text(self) -> Seq<char> {
        match self {
            EventFault::RewardRateNotPositive => "event validation: reward_rate must be > 0"@,
            EventFault::MinStakeNotPositive => "event validation: min_stake must be > 0"@,
            EventFault::StakeAmountNotPositive => "event validation: stake amount must be > 0"@,
            EventFault::TotalBelowAmount => "event validation: total < amount — impossible state"@,
            EventFault::UnstakeAmountNotPositive => "event validation: unstake amount must be > 0"@,
            EventFault::NegativeReward => "event validation: reward cannot be negative"@,
            EventFault::NegativeRemaining => "event validation: remaining cannot be negative"@,
            EventFault::EscrowAmountNotPositive => "event validation: escrow amount must be > 0"@,
            EventFault::UnlockNotAfterTimestamp => "event validation: unlock_ts must be in the future"@,
            EventFault::ReleasedAmountNotPositive => "event validation: released amount must be > 0"@,
            EventFault::NoRecipients => "event validation: batch must have at least one recipient"@,
            EventFault::TotalRewardsNotPositive => "event validation: total_rewards must be > 0"@,
        }
    }

    /// The text that describes this fault.
    pub fn message(&self) -> (m: &'static str)
        ensures
            m@ == self.text(),
    {
        match self {
            EventFault::RewardRateNotPositive => "event validation: reward_rate must be > 0",
            EventFault::MinStakeNotPositive => "event validation: min_stake must be > 0",
            EventFault::StakeAmountNotPositive => "event validation: stake amount must be > 0",
            EventFault::TotalBelowAmount => "event validation: total < amount — impossible state",
            EventFault::UnstakeAmountNotPositive => "event validation: unstake amount must be > 0",
            EventFault::NegativeReward => "event validation: reward cannot be negative",
            EventFault::NegativeRemaining => "event validation: remaining cannot be negative",
            EventFault::EscrowAmountNotPositive => "event validation: escrow amount must be > 0",
            EventFault::UnlockNotAfterTimestamp => "event validation: unlock_ts must be in the future",
            EventFault::ReleasedAmountNotPositive => "event validation: released amount must be > 0",
            EventFault::NoRecipients => "event validation: batch must have at least one recipient",
            EventFault::TotalRewardsNotPositive => "event validation: total_rewards must be > 0",
        }
    }
}

impl Error {
    /// The family this failure belongs to.
    pub open spec fn spec_kind(&self) -> ErrorKind {
        match *self {
            Error::Unauthorized | Error::NotAdmin => ErrorKind::Authorization,
            Error::LengthMismatch
            | Error::EmptyBatch
            | Error::BelowMinimumStake
            | Error::InsufficientStake
            | Error::EscrowAmountNotPositive
            | Error::UnlockNotInFuture
            | Error::EscrowIdInUse
            | Error::PaymentAmountNotPositive
            | Error::IntervalNotPositive
            | Error::InvalidEvent(_) => ErrorKind::Validation,
            Error::NotInitialized
            | Error::AlreadyInitialized
            | Error::NoStake
            | Error::AccrualStartInFuture
            | Error::EscrowNotFound
            | Error::EscrowStillLocked
            | Error::PaymentNotFound
            | Error::PaymentNotActive
            | Error::TooEarly
            | Error::AlreadyCanceled => ErrorKind::State,
            Error::Overflow => ErrorKind::Arithmetic,
        }
    }

    /// The family this failure belongs to.
    #[verifier::when_used_as_spec(spec_kind)]
    pub fn kind(&self) -> (k: ErrorKind)
        ensures
            k == self.spec_kind(),
    {
        match self {
            Error::Unauthorized | Error::NotAdmin => ErrorKind::Authorization,
            Error::LengthMismatch
            | Error::EmptyBatch
            | Error::BelowMinimumStake
            | Error::InsufficientStake
            | Error::EscrowAmountNotPositive
            | Error::UnlockNotInFuture
            | Error::EscrowIdInUse
            | Error::PaymentAmountNotPositive
            | Error::IntervalNotPositive
            | Error::InvalidEvent(_) => ErrorKind::Validation,
            Error::NotInitialized
            | Error::AlreadyInitialized
            | Error::NoStake
            | Error::AccrualStartInFuture
            | Error::EscrowNotFound
            | Error::EscrowStillLocked
            | Error::PaymentNotFound
            | Error::PaymentNotActive
            | Error::TooEarly
            | Error::AlreadyCanceled => ErrorKind::State,
            Error::Overflow => ErrorKind::Arithmetic,
        }
    }

    /// The text that describes this failure.
    pub open spec fn text(self) -> Seq<char> {
        match self {
            Error::Unauthorized => "caller is not authorized"@,
            Error::NotAdmin => "caller is not the contract admin"@,
            Error::LengthMismatch => "stakers and bonus_amounts must be the same length"@,
            Error::EmptyBatch => "staker list must not be empty"@,
            Error::BelowMinimumStake => "stake amount is below the minimum stake"@,
            Error::InsufficientStake => "unstake amount exceeds the staked balance"@,
            Error::EscrowAmountNotPositive => "escrow amount must be > 0"@,
            Error::UnlockNotInFuture => "unlock_ts must be in the future"@,
            Error::EscrowIdInUse => "escrow ID already in use — choose a different escrow_id"@,
            Error::PaymentAmountNotPositive => "Amount must be positive"@,
            Error::IntervalNotPositive => "Interval must be positive"@,
            Error::InvalidEvent(fault) => fault.text(),
            Error::NotInitialized => "staking contract not initialised"@,
            Error::AlreadyInitialized => "staking contract already initialised"@,
            Error::NoStake => "no stake found for this account"@,
            Error::AccrualStartInFuture => "stake position starts in the future"@,
            Error::EscrowNotFound => "escrow entry not found"@,
            Error::EscrowStillLocked => "escrow is still locked — unlock_ts has not been reached"@,
            Error::PaymentNotFound => "Payment not found"@,
            Error::PaymentNotActive => "Payment is not active"@,
            Error::TooEarly => "Too early for next execution"@,
            Error::AlreadyCanceled => "Payment is already canceled"@,
            Error::Overflow => "arithmetic overflow"@,
        }
    }

    /// The text that describes this failure.
    pub fn message(&self) -> (m: &'static str)
        ensures
            m@ == self.text(),
    {
        match self {
            Error::Unauthorized => "caller is not authorized",
            Error::NotAdmin => "caller is not the contract admin",
            Error::LengthMismatch => "stakers and bonus_amounts must be the same length",
            Error::EmptyBatch => "staker list must not be empty",
            Error::BelowMinimumStake => "stake amount is below the minimum stake",
            Error::InsufficientStake => "unstake amount exceeds the staked balance",
            Error::EscrowAmountNotPositive => "escrow amount must be > 0",
            Error::UnlockNotInFuture => "unlock_ts must be in the future",
            Error::EscrowIdInUse => "escrow ID already in use — choose a different escrow_id",
            Error::PaymentAmountNotPositive => "Amount must be positive",
            Error::IntervalNotPositive => "Interval must be positive",
            Error::InvalidEvent(fault) => fault.message(),
            Error::NotInitialized => "staking contract not initialised",
            Error::AlreadyInitialized => "staking contract already initialised",
            Error::NoStake => "no stake found for this account",
            Error::AccrualStartInFuture => "stake position starts in the future",
            Error::EscrowNotFound => "escrow entry not found",
            Error::EscrowStillLocked => "escrow is still locked — unlock_ts has not been reached",
            Error::PaymentNotFound => "Payment not found",
            Error::PaymentNotActive => "Payment is not active",
            Error::TooEarly => "Too early for next execution",
            Error::AlreadyCanceled => "Payment is already canceled",
            Error::Overflow => "arithmetic overflow",
        }
    }
}

} // verus!
