//! On-ledger financial primitives: time-weighted reward accrual, batch
//! settlement, time-locked escrow and recurring payments.
//!
//! Every operation is a transition of a [`ledger::Ledger`]: it reads the
//! records it needs, decides in memory, and either fails and leaves the
//! ledger as it was, or writes each record it changes once and appends to the
//! journal what it did: the records written and removed, the transfers of
//! funds asked for, and the one notification of the operation. The host that
//! runs the ledger proves the signatures, carries the transfers out and
//! publishes the notifications.
//!
//! What an operation does is stated as a function on the ledger's view, a
//! [`ledger::LedgerView`], beside the operation; the laws that relate several
//! operations are proved over these functions.

pub mod address;
pub mod batch_reward;
pub mod error;
pub mod escrow;
pub mod events;
pub mod ledger;
pub mod recurring_payment;
pub mod reward;
pub mod staking;
pub mod table;
