//! Notifications: the typed records of completed operations, the rules each
//! payload must meet, and their publication.
//!
//! A notification carries a two-level topic, the family and the operation,
//! and a payload of plain values. A payload is checked against its own rules
//! right before it is published, and one that fails them is not published.

use vstd::prelude::*;
use crate::address::Address;
use crate::error::{Error, EventFault};
use crate::ledger::Ledger;

verus! {

/// A topic word, by which observers filter notifications.
#[derive(Clone, Copy, Debug, PartialEq, Eq, Structural)]
pub enum Topic {
    /// The family of the staking, escrow and batch notifications.
    Staking,
    Initialize,
    Stake,
    Unstake,
    Escrow,
    Batch,
    /// The family of the recurring-payment notifications.
    Recurring,
    Created,
    Executed,
    Canceled,
}

impl Topic {
    /// The word as it is published.
    pub open spec fn text(self) -> Seq<char> {
        match self {
            Topic::Staking => "STAKING"@,
            Topic::Initialize => "INIT"@,
            Topic::Stake => "STAKE"@,
            Topic::Unstake => "UNSTK"@,
            Topic::Escrow => "ESCROW"@,
            Topic::Batch => "BATCH"@,
            Topic::Recurring => "recur"@,
            Topic::Created => "created"@,
            Topic::Executed => "executed"@,
            Topic::Canceled => "canceled"@,
        }
    }

    /// The word as it is published.
    pub fn as_str(&self) -> (s: &'static str)
        ensures
            s@ == self.text(),
    {
        match self {
            Topic::Staking => "STAKING",
            Topic::Initialize => "INIT",
            Topic::Stake => "STAKE",
            Topic::Unstake => "UNSTK",
            Topic::Escrow => "ESCROW",
            Topic::Batch => "BATCH",
            Topic::Recurring => "recur",
            Topic::Created => "created",
            Topic::Executed => "executed",
            Topic::Canceled => "canceled",
        }
    }
}

/// The family topic of the staking, escrow and batch notifications.
pub const CONTRACT_TOPIC: Topic = Topic::Staking;

/// The operation topic of an initialization.
pub fn topic_initialize() -> (t: Topic)
    ensures
        t == Topic::Initialize,
{
    Topic::Initialize
}

/// The operation topic of a stake.
pub fn topic_stake() -> (t: Topic)
    ensures
        t == Topic::Stake,
{
    Topic::Stake
}

/// The operation topic of an unstake.
pub fn topic_unstake() -> (t: Topic)
    ensures
        t == Topic::Unstake,
{
    Topic::Unstake
}

/// The operation topic of an escrow lock or release.
pub fn topic_escrow() -> (t: Topic)
    ensures
        t == Topic::Escrow,
{
    Topic::Escrow
}

/// The operation topic of a batch settlement.
pub fn topic_batch() -> (t: Topic)
    ensures
        t == Topic::Batch,
{
    Topic::Batch
}

/// Published once, when the configuration is set.
#[derive(Clone, Copy, Debug, PartialEq, Eq, Structural)]
pub struct InitializeEventData {
    pub admin: Address,
    pub reward_rate: u32,
    pub min_stake: i128,
    pub timestamp: u64,
}

/// Published on every stake.
#[derive(Clone, Copy, Debug, PartialEq, Eq, Structural)]
pub struct StakeEventData {
    pub staker: Address,
    pub amount: i128,
    pub total: i128,
    pub timestamp: u64,
}

/// Published on every unstake.
#[derive(Clone, Copy, Debug, PartialEq, Eq, Structural)]
pub struct UnstakeEventData {
    pub staker: Address,
    pub amount: i128,
    pub reward: i128,
    pub remaining: i128,
    pub timestamp: u64,
}

/// Published when funds are locked into escrow.
#[derive(Clone, Copy, Debug, PartialEq, Eq, Structural)]
pub struct EscrowLockedEventData {
    pub depositor: Address,
    pub beneficiary: Address,
    pub amount: i128,
    pub unlock_ts: u64,
    pub timestamp: u64,
}

/// Published when escrowed funds are released to the beneficiary.
#[derive(Clone, Copy, Debug, PartialEq, Eq, Structural)]
pub struct EscrowReleasedEventData {
    pub beneficiary: Address,
    pub amount: i128,
    pub timestamp: u64,
}

/// Published once per batch settlement: the summary of the whole batch.
#[derive(Clone, Copy, Debug, PartialEq, Eq, Structural)]
pub struct BatchRewardEventData {
    /// How many accounts were credited.
    pub recipients: u32,
    /// The sum of what they were credited.
    pub total_rewards: i128,
    /// The time of the settlement.
    pub timestamp: u64,
}

/// Published when a recurring payment is created.
#[derive(Clone, Copy, Debug, PartialEq, Eq, Structural)]
pub struct PaymentCreatedEventData {
    pub payment_id: u64,
    pub sender: Address,
}

/// Published when a recurring payment is executed.
#[derive(Clone, Copy, Debug, PartialEq, Eq, Structural)]
pub struct PaymentExecutedEventData {
    pub payment_id: u64,
    pub amount: i128,
    pub next_execution: u64,
}

/// Published when a recurring payment is canceled.
#[derive(Clone, Copy, Debug, PartialEq, Eq, Structural)]
pub struct PaymentCanceledEventData {
    pub payment_id: u64,
    pub sender: Address,
}

/// What a notification carries.
#[derive(Clone, Copy, Debug, PartialEq, Eq, Structural)]
pub enum EventPayload {
    Initialize(InitializeEventData),
    Stake(StakeEventData),
    Unstake(UnstakeEventData),
    EscrowLocked(EscrowLockedEventData),
    EscrowReleased(EscrowReleasedEventData),
    BatchReward(BatchRewardEventData),
    PaymentCreated(PaymentCreatedEventData),
    PaymentExecuted(PaymentExecutedEventData),
    PaymentCanceled(PaymentCanceledEventData),
}

/// A published notification.
#[derive(Clone, Copy, Debug, PartialEq, Eq, Structural)]
pub struct Notification {
    pub family: Topic,
    pub operation: Topic,
    pub payload: EventPayload,
}

impl InitializeEventData {
    /// The first rule this payload breaks, if any.
    pub open spec fn fault(self) -> Option<EventFault> {
        if self.reward_rate == 0 {
            Some(EventFault::RewardRateNotPositive)
        } else if self.min_stake <= 0 {
            Some(EventFault::MinStakeNotPositive)
        } else {
            None
        }
    }

    /// The notification that publishes this payload.
    pub open spec fn notification(self) -> Notification {
        Notification {
            family: Topic::Staking,
            operation: Topic::Initialize,
            payload: EventPayload::Initialize(self),
        }
    }
}

impl StakeEventData {
    /// The first rule this payload breaks, if any.
    pub open spec fn fault(self) -> Option<EventFault> {
        if self.amount <= 0 {
            Some(EventFault::StakeAmountNotPositive)
        } else if self.total < self.amount {
            Some(EventFault::TotalBelowAmount)
        } else {
            None
        }
    }

    /// The notification that publishes this payload.
    pub open spec fn notification(self) -> Notification {
        Notification {
            family: Topic::Staking,
            operation: Topic::Stake,
            payload: EventPayload::Stake(self),
        }
    }
}

impl UnstakeEventData {
    /// The first rule this payload breaks, if any.
    pub open spec fn fault(self) -> Option<EventFault> {
        if self.amount <= 0 {
            Some(EventFault::UnstakeAmountNotPositive)
        } else if self.reward < 0 {
            Some(EventFault::NegativeReward)
        } else if self.remaining < 0 {
            Some(EventFault::NegativeRemaining)
        } else {
            None
        }
    }

    /// The notification that publishes this payload.
    pub open spec fn notification(self) -> Notification {
        Notification {
            family: Topic::Staking,
            operation: Topic::Unstake,
            payload: EventPayload::Unstake(self),
        }
    }
}

impl EscrowLockedEventData {
    /// The first rule this payload breaks, if any.
    pub open spec fn fault(self) -> Option<EventFault> {
        if self.amount <= 0 {
            Some(EventFault::EscrowAmountNotPositive)
        } else if self.unlock_ts <= self.timestamp {
            Some(EventFault::UnlockNotAfterTimestamp)
        } else {
            None
        }
    }

    /// The notification that publishes this payload.
    pub open spec fn notification(self) -> Notification {
        Notification {
            family: Topic::Staking,
            operation: Topic::Escrow,
            payload: EventPayload::EscrowLocked(self),
        }
    }
}

impl EscrowReleasedEventData {
    /// The first rule this payload breaks, if any.
    pub open spec fn fault(self) -> Option<EventFault> {
        if self.amount <= 0 {
            Some(EventFault::ReleasedAmountNotPositive)
        } else {
            None
        }
    }

    /// The notification that publishes this payload.
    pub open spec fn notification(self) -> Notification {
        Notification {
            family: Topic::Staking,
            operation: Topic::Escrow,
            payload: EventPayload::EscrowReleased(self),
        }
    }
}

impl BatchRewardEventData {
    /// The first rule this payload breaks, if any.
    pub open spec fn fault(self) -> Option<EventFault> {
        if self.recipients == 0 {
            Some(EventFault::NoRecipients)
        } else if self.total_rewards <= 0 {
            Some(EventFault::TotalRewardsNotPositive)
        } else {
            None
        }
    }

    /// The notification that publishes this payload.
    pub open spec fn notification(self) -> Notification {
        Notification {
            family: Topic::Staking,
            operation: Topic::Batch,
            payload: EventPayload::BatchReward(self),
        }
    }
}

impl PaymentCreatedEventData {
    /// The notification that publishes this payload.
    pub open spec fn notification(self) -> Notification {
        Notification {
            family: Topic::Recurring,
            operation: Topic::Created,
            payload: EventPayload::PaymentCreated(self),
        }
    }
}

impl PaymentExecutedEventData {
    /// The notification that publishes this payload.
    pub open spec fn notification(self) -> Notification {
        Notification {
            family: Topic::Recurring,
            operation: Topic::Executed,
            payload: EventPayload::PaymentExecuted(self),
        }
    }
}

impl PaymentCanceledEventData {
    /// The notification that publishes this payload.
    pub open spec fn notification(self) -> Notification {
        Notification {
            family: Topic::Recurring,
            operation: Topic::Canceled,
            payload: EventPayload::PaymentCanceled(self),
        }
    }
}

/// The verdict on a payload: accepted where it breaks no rule, else rejected
/// with the first rule it breaks.
pub open spec fn verdict(fault: Option<EventFault>) -> Result<(), Error> {
    match fault {
        None => Ok(()),
        Some(f) => Err(Error::InvalidEvent(f)),
    }
}

/// Accepts an initialization payload with a positive rate and a positive
/// minimum stake.
pub fn validate_initialize_event(data: &InitializeEventData) -> (r: Result<(), Error>)
    ensures
        r == verdict(data.fault()),
{
    if data.reward_rate == 0 {
        Err(Error::InvalidEvent(EventFault::RewardRateNotPositive))
    } else if data.min_stake <= 0 {
        Err(Error::InvalidEvent(EventFault::MinStakeNotPositive))
    } else {
        Ok(())
    }
}

/// Accepts a stake payload with a positive amount and a total that is not
/// below it.
pub fn validate_stake_event(data: &StakeEventData) -> (r: Result<(), Error>)
    ensures
        r == verdict(data.fault()),
{
    if data.amount <= 0 {
        Err(Error::InvalidEvent(EventFault::StakeAmountNotPositive))
    } else if data.total < data.amount {
        Err(Error::InvalidEvent(EventFault::TotalBelowAmount))
    } else {
        Ok(())
    }
}

/// Accepts an unstake payload with a positive amount, and a reward and a
/// remainder that are not negative.
pub fn validate_unstake_event(data: &UnstakeEventData) -> (r: Result<(), Error>)
    ensures
        r == verdict(data.fault()),
{
    if data.amount <= 0 {
        Err(Error::InvalidEvent(EventFault::UnstakeAmountNotPositive))
    } else if data.reward < 0 {
        Err(Error::InvalidEvent(EventFault::NegativeReward))
    } else if data.remaining < 0 {
        Err(Error::InvalidEvent(EventFault::NegativeRemaining))
    } else {
        Ok(())
    }
}

/// Accepts an escrow-locked payload with a positive amount and an unlock
/// time after its timestamp.
pub fn validate_escrow_locked_event(data: &EscrowLockedEventData) -> (r: Result<(), Error>)
    ensures
        r == verdict(data.fault()),
{
    if data.amount <= 0 {
        Err(Error::InvalidEvent(EventFault::EscrowAmountNotPositive))
    } else if data.unlock_ts <= data.timestamp {
        Err(Error::InvalidEvent(EventFault::UnlockNotAfterTimestamp))
    } else {
        Ok(())
    }
}

/// Accepts an escrow-released payload with a positive amount.
pub fn validate_escrow_released_event(data: &EscrowReleasedEventData) -> (r: Result<(), Error>)
    ensures
        r == verdict(data.fault()),
{
    if data.amount <= 0 {
        Err(Error::InvalidEvent(EventFault::ReleasedAmountNotPositive))
    } else {
        Ok(())
    }
}

/// Accepts a batch summary with at least one recipient and a positive total.
pub fn validate_batch_reward_event(data: &BatchRewardEventData) -> (r: Result<(), Error>)
    ensures
        r == verdict(data.fault()),
{
    if data.recipients == 0 {
        Err(Error::InvalidEvent(EventFault::NoRecipients))
    } else if data.total_rewards <= 0 {
        Err(Error::InvalidEvent(EventFault::TotalRewardsNotPositive))
    } else {
        Ok(())
    }
}

/// Checks an initialization payload and publishes it.
pub fn emit_initialize(ledger: &mut Ledger, data: InitializeEventData) -> (r: Result<(), Error>)
    ensures
        r == verdict(data.fault()),
        final(ledger)@ == (if data.fault() is None {
            old(ledger)@.publish(data.notification())
        } else {
            old(ledger)@
        }),
{
    match validate_initialize_event(&data) {
        Err(e) => Err(e),
        Ok(()) => {
            ledger.publish(
                Notification {
                    family: CONTRACT_TOPIC,
                    operation: topic_initialize(),
                    payload: EventPayload::Initialize(data),
                },
            );
            Ok(())
        },
    }
}

/// Checks a stake payload and publishes it.
pub fn emit_stake(ledger: &mut Ledger, data: StakeEventData) -> (r: Result<(), Error>)
    ensures
        r == verdict(data.fault()),
        final(ledger)@ == (if data.fault() is None {
            old(ledger)@.publish(data.notification())
        } else {
            old(ledger)@
        }),
{
    match validate_stake_event(&data) {
        Err(e) => Err(e),
        Ok(()) => {
            ledger.publish(
                Notification {
                    family: CONTRACT_TOPIC,
                    operation: topic_stake(),
                    payload: EventPayload::Stake(data),
                },
            );
            Ok(())
        },
    }
}

/// Checks an unstake payload and publishes it.
pub fn emit_unstake(ledger: &mut Ledger, data: UnstakeEventData) -> (r: Result<(), Error>)
    ensures
        r == verdict(data.fault()),
        final(ledger)@ == (if data.fault() is None {
            old(ledger)@.publish(data.notification())
        } else {
            old(ledger)@
        }),
{
    match validate_unstake_event(&data) {
        Err(e) => Err(e),
        Ok(()) => {
            ledger.publish(
                Notification {
                    family: CONTRACT_TOPIC,
                    operation: topic_unstake(),
                    payload: EventPayload::Unstake(data),
                },
            );
            Ok(())
        },
    }
}

/// Checks an escrow-locked payload and publishes it.
pub fn emit_escrow_locked(ledger: &mut Ledger, data: EscrowLockedEventData) -> (r: Result<
    (),
    Error,
>)
    ensures
        r == verdict(data.fault()),
        final(ledger)@ == (if data.fault() is None {
            old(ledger)@.publish(data.notification())
        } else {
            old(ledger)@
        }),
{
    match validate_escrow_locked_event(&data) {
        Err(e) => Err(e),
        Ok(()) => {
            ledger.publish(
                Notification {
                    family: CONTRACT_TOPIC,
                    operation: topic_escrow(),
                    payload: EventPayload::EscrowLocked(data),
                },
            );
            Ok(())
        },
    }
}

/// Checks an escrow-released payload and publishes it.
pub fn emit_escrow_released(ledger: &mut Ledger, data: EscrowReleasedEventData) -> (r: Result<
    (),
    Error,
>)
    ensures
        r == verdict(data.fault()),
        final(ledger)@ == (if data.fault() is None {
            old(ledger)@.publish(data.notification())
        } else {
            old(ledger)@
        }),
{
    match validate_escrow_released_event(&data) {
        Err(e) => Err(e),
        Ok(()) => {
            ledger.publish(
                Notification {
                    family: CONTRACT_TOPIC,
                    operation: topic_escrow(),
                    payload: EventPayload::EscrowReleased(data),
                },
            );
            Ok(())
        },
    }
}

/// Checks a batch summary and publishes it.
pub fn emit_batch_reward(ledger: &mut Ledger, data: BatchRewardEventData) -> (r: Result<
    (),
    Error,
>)
    ensures
        r == verdict(data.fault()),
        final(ledger)@ == (if data.fault() is None {
            old(ledger)@.publish(data.notification())
        } else {
            old(ledger)@
        }),
{
    match validate_batch_reward_event(&data) {
        Err(e) => Err(e),
        Ok(()) => {
            ledger.publish(
                Notification {
                    family: CONTRACT_TOPIC,
                    operation: topic_batch(),
                    payload: EventPayload::BatchReward(data),
                },
            );
            Ok(())
        },
    }
}

} // verus!
