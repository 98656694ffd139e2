//! Time-locked escrow: funds held between a depositor and a beneficiary until
//! an unlock time.
//!
//! An entry exists from `lock` until `release`. That the key is in use is the
//! state "funds held": a released entry is taken out, not zeroed.

use vstd::prelude::*;
use crate::address::Address;
use crate::error::Error;
use crate::events::{
    EscrowLockedEventData, EscrowReleasedEventData, emit_escrow_locked, emit_escrow_released,
    validate_escrow_released_event,
};
use crate::ledger::{Effect, Ledger, LedgerView, StorageKey, Transfer, carried_out, same_record};
use crate::table::Key;

verus! {

/// The keys of the escrow records.
#[derive(Clone, Copy, Debug, PartialEq, Eq, Structural)]
pub enum EscrowKey {
    /// The escrow that a depositor opened under an id of their choice.
    Entry(Address, u64),
}

impl Key for EscrowKey {
    fn same(&self, other: &EscrowKey) -> (r: bool) {
        *self == *other
    }
}

/// One escrow: all that is needed to check and release it.
#[derive(Clone, Copy, Debug, PartialEq, Eq, Structural)]
pub struct EscrowEntry {
    pub depositor: Address,
    pub beneficiary: Address,
    pub amount: i128,
    /// The time from which `release` may be called.
    pub unlock_ts: u64,
}

/// The escrow operations.
pub struct EscrowContract;

impl EscrowContract {
    /// What `lock` does to the ledger `s`.
    ///
    /// It fails, in this order: with `Unauthorized` where `depositor` has not
    /// signed; with `EscrowAmountNotPositive` where `amount` is not positive;
    /// with `UnlockNotInFuture` where `unlock_ts` is not after the current
    /// time; with `EscrowIdInUse` where the depositor has an escrow under
    /// `escrow_id`; with `NotInitialized` where no configuration is set. Else
    /// `amount` moves from the depositor into custody, the entry is written,
    /// and the lock is published.
    pub open spec fn lock_outcome(
        s: LedgerView,
        depositor: Address,
        beneficiary: Address,
        amount: i128,
        unlock_ts: u64,
        escrow_id: u64,
    ) -> Result<LedgerView, Error> {
        let key = EscrowKey::Entry(depositor, escrow_id);
        if !s.authorizes(depositor) {
            Err(Error::Unauthorized)
        } else if amount <= 0 {
            Err(Error::EscrowAmountNotPositive)
        } else if unlock_ts <= s.timestamp {
            Err(Error::UnlockNotInFuture)
        } else if s.escrows.contains_key(key) {
            Err(Error::EscrowIdInUse)
        } else if s.config is None {
            Err(Error::NotInitialized)
        } else {
            Ok(
                s.transfer(
                    Transfer {
                        token: s.config->Some_0.token,
                        from: depositor,
                        to: s.contract,
                        amount,
                    },
                ).set_escrow(key, EscrowEntry { depositor, beneficiary, amount, unlock_ts }).publish(
                    EscrowLockedEventData {
                        depositor,
                        beneficiary,
                        amount,
                        unlock_ts,
                        timestamp: s.timestamp,
                    }.notification(),
                ),
            )
        }
    }

    /// Locks `amount` in escrow for `beneficiary` until `unlock_ts`, under an
    /// id that the depositor chooses.
    pub fn lock(
        ledger: &mut Ledger,
        depositor: Address,
        beneficiary: Address,
        amount: i128,
        unlock_ts: u64,
        escrow_id: u64,
    ) -> (r: Result<(), Error>)
        ensures
            carried_out(
                Self::lock_outcome(
                    old(ledger)@,
                    depositor,
                    beneficiary,
                    amount,
                    unlock_ts,
                    escrow_id,
                ),
                old(ledger)@,
                final(ledger)@,
                r,
            ),
    {
        if !ledger.is_authorized(&depositor) {
            return Err(Error::Unauthorized);
        }
        let now = ledger.timestamp();
        if amount <= 0 {
            return Err(Error::EscrowAmountNotPositive);
        }
        if unlock_ts <= now {
            return Err(Error::UnlockNotInFuture);
        }
        let key = EscrowKey::Entry(depositor, escrow_id);
        if ledger.has_escrow(&key) {
            return Err(Error::EscrowIdInUse);
        }
        let config = match ledger.config() {
            Some(config) => config,
            None => {
                return Err(Error::NotInitialized);
            },
        };
        let custody = ledger.current_contract_address();
        ledger.transfer(config.token, depositor, custody, amount);
        ledger.set_escrow(key, EscrowEntry { depositor, beneficiary, amount, unlock_ts });
        emit_escrow_locked(
            ledger,
            EscrowLockedEventData { depositor, beneficiary, amount, unlock_ts, timestamp: now },
        )
    }

    /// What `release` does to the ledger `s`.
    ///
    /// It fails, in this order: with `EscrowNotFound` where the depositor has
    /// no escrow under `escrow_id`; with `EscrowStillLocked` where the current
    /// time is before the unlock time; with `NotInitialized` where no
    /// configuration is set; with the payload's fault where the entry holds
    /// no positive amount. Else the entry is removed, and only then the
    /// amount moves out of custody to the beneficiary; the release is
    /// published last.
    pub open spec fn release_outcome(s: LedgerView, depositor: Address, escrow_id: u64) -> Result<
        LedgerView,
        Error,
    > {
        let key = EscrowKey::Entry(depositor, escrow_id);
        if !s.escrows.contains_key(key) {
            Err(Error::EscrowNotFound)
        } else {
            let entry = s.escrows[key];
            let data = EscrowReleasedEventData {
                beneficiary: entry.beneficiary,
                amount: entry.amount,
                timestamp: s.timestamp,
            };
            if s.timestamp < entry.unlock_ts {
                Err(Error::EscrowStillLocked)
            } else if s.config is None {
                Err(Error::NotInitialized)
            } else if data.fault() is Some {
                Err(Error::InvalidEvent(data.fault().unwrap()))
            } else {
                Ok(
                    s.remove_escrow(key).transfer(
                        Transfer {
                            token: s.config->Some_0.token,
                            from: s.contract,
                            to: entry.beneficiary,
                            amount: entry.amount,
                        },
                    ).publish(data.notification()),
                )
            }
        }
    }

    /// Releases the escrow of `depositor` under `escrow_id` to its
    /// beneficiary. Anyone may call this: the funds go to the beneficiary
    /// that the entry names.
    pub fn release(ledger: &mut Ledger, depositor: Address, escrow_id: u64) -> (r: Result<
        (),
        Error,
    >)
        ensures
            carried_out(
                Self::release_outcome(old(ledger)@, depositor, escrow_id),
                old(ledger)@,
                final(ledger)@,
                r,
            ),
    {
        let key = EscrowKey::Entry(depositor, escrow_id);
        let entry = match ledger.escrow(&key) {
            Some(entry) => entry,
            None => {
                return Err(Error::EscrowNotFound);
            },
        };
        let now = ledger.timestamp();
        if now < entry.unlock_ts {
            return Err(Error::EscrowStillLocked);
        }
        let config = match ledger.config() {
            Some(config) => config,
            None => {
                return Err(Error::NotInitialized);
            },
        };
        let data = EscrowReleasedEventData {
            beneficiary: entry.beneficiary,
            amount: entry.amount,
            timestamp: now,
        };
        match validate_escrow_released_event(&data) {
            Err(e) => {
                return Err(e);
            },
            Ok(()) => {},
        }
        ledger.remove_escrow(&key);
        let custody = ledger.current_contract_address();
        ledger.transfer(config.token, custody, entry.beneficiary, entry.amount);
        emit_escrow_released(ledger, data)
    }

    /// The escrow of `depositor` under `escrow_id`, if there is one.
    pub fn get_escrow(ledger: &Ledger, depositor: Address, escrow_id: u64) -> (r: Option<
        EscrowEntry,
    >)
        ensures
            r == (if ledger@.escrows.contains_key(EscrowKey::Entry(depositor, escrow_id)) {
                Some(ledger@.escrows[EscrowKey::Entry(depositor, escrow_id)])
            } else {
                None
            }),
    {
        ledger.escrow(&EscrowKey::Entry(depositor, escrow_id))
    }
}

/// A lock followed by a release at or after the unlock time leaves no entry
/// under the key, the escrows as they were before the lock, and moves exactly
/// the locked amount out of custody to the beneficiary: the release removes
/// the entry, then asks for that one transfer, then publishes.
pub proof fn lemma_lock_then_release(
    s: LedgerView,
    depositor: Address,
    beneficiary: Address,
    amount: i128,
    unlock_ts: u64,
    escrow_id: u64,
    now: u64,
)
    requires
        EscrowContract::lock_outcome(s, depositor, beneficiary, amount, unlock_ts, escrow_id)
            is Ok,
        now >= unlock_ts,
    ensures
        ({
            let key = EscrowKey::Entry(depositor, escrow_id);
            let locked = EscrowContract::lock_outcome(
                s,
                depositor,
                beneficiary,
                amount,
                unlock_ts,
                escrow_id,
            )->Ok_0.at(now);
            let outcome = EscrowContract::release_outcome(locked, depositor, escrow_id);
            &&& locked.escrows.contains_key(key)
            &&& outcome is Ok
            &&& !outcome->Ok_0.escrows.contains_key(key)
            &&& outcome->Ok_0.escrows == s.escrows
            &&& outcome->Ok_0.journal == locked.journal.push(
                Effect::Remove(StorageKey::Escrow(key)),
            ).push(
                Effect::Transfer(
                    Transfer {
                        token: s.config->Some_0.token,
                        from: s.contract,
                        to: beneficiary,
                        amount,
                    },
                ),
            ).push(
                Effect::Notify(
                    EscrowReleasedEventData { beneficiary, amount, timestamp: now }.notification(),
                ),
            )
        }),
{
    let key = EscrowKey::Entry(depositor, escrow_id);
    let entry = EscrowEntry { depositor, beneficiary, amount, unlock_ts };
    assert(s.escrows.insert(key, entry).remove(key) =~= s.escrows);
}

/// A release before the unlock time fails with `EscrowStillLocked`.
pub proof fn lemma_release_before_unlock(
    s: LedgerView,
    depositor: Address,
    beneficiary: Address,
    amount: i128,
    unlock_ts: u64,
    escrow_id: u64,
    now: u64,
)
    requires
        EscrowContract::lock_outcome(s, depositor, beneficiary, amount, unlock_ts, escrow_id)
            is Ok,
        now < unlock_ts,
    ensures
        EscrowContract::release_outcome(
            EscrowContract::lock_outcome(
                s,
                depositor,
                beneficiary,
                amount,
                unlock_ts,
                escrow_id,
            )->Ok_0.at(now),
            depositor,
            escrow_id,
        ) == Err::<LedgerView, Error>(Error::EscrowStillLocked),
{
}

/// A second lock under the same depositor and id fails, whatever else it
/// asks for and whenever it comes; where its amount and unlock time are in
/// order, it fails with `EscrowIdInUse`.
pub proof fn lemma_lock_twice(
    s: LedgerView,
    depositor: Address,
    beneficiary: Address,
    amount: i128,
    unlock_ts: u64,
    escrow_id: u64,
    later: u64,
    second_beneficiary: Address,
    second_amount: i128,
    second_unlock_ts: u64,
)
    requires
        EscrowContract::lock_outcome(s, depositor, beneficiary, amount, unlock_ts, escrow_id)
            is Ok,
    ensures
        ({
            let locked = EscrowContract::lock_outcome(
                s,
                depositor,
                beneficiary,
                amount,
                unlock_ts,
                escrow_id,
            )->Ok_0.at(later);
            let again = EscrowContract::lock_outcome(
                locked,
                depositor,
                second_beneficiary,
                second_amount,
                second_unlock_ts,
                escrow_id,
            );
            &&& again is Err
            &&& (second_amount > 0 && second_unlock_ts > later ==> again == Err::<
                LedgerView,
                Error,
            >(Error::EscrowIdInUse))
        }),
{
}

/// A release succeeds once: the next one finds no entry, whenever it comes.
pub proof fn lemma_release_once(s: LedgerView, depositor: Address, escrow_id: u64, later: u64)
    requires
        EscrowContract::release_outcome(s, depositor, escrow_id) is Ok,
    ensures
        EscrowContract::release_outcome(
            EscrowContract::release_outcome(s, depositor, escrow_id)->Ok_0.at(later),
            depositor,
            escrow_id,
        ) == Err::<LedgerView, Error>(Error::EscrowNotFound),
{
}

/// A lock reads and writes no record but the escrow under its key: on two
/// ledgers that agree on the clock, the custody account, the configuration,
/// the depositor's signature and that escrow, it answers the same, writes the
/// same entry, journals the same, and leaves every other record of either
/// ledger as it was.
pub proof fn lemma_lock_is_local(
    a: LedgerView,
    b: LedgerView,
    depositor: Address,
    beneficiary: Address,
    amount: i128,
    unlock_ts: u64,
    escrow_id: u64,
)
    requires
        a.same_setting(b),
        a.authorizes(depositor) == b.authorizes(depositor),
        same_record(a.escrows, b.escrows, EscrowKey::Entry(depositor, escrow_id)),
    ensures
        (match (
            EscrowContract::lock_outcome(a, depositor, beneficiary, amount, unlock_ts, escrow_id),
            EscrowContract::lock_outcome(b, depositor, beneficiary, amount, unlock_ts, escrow_id),
        ) {
            (Ok(x), Ok(y)) => {
                let key = EscrowKey::Entry(depositor, escrow_id);
                let entry = EscrowEntry { depositor, beneficiary, amount, unlock_ts };
                &&& x.escrows == a.escrows.insert(key, entry)
                &&& y.escrows == b.escrows.insert(key, entry)
                &&& x.journal_since(a) == y.journal_since(b)
                &&& x == (LedgerView { escrows: x.escrows, journal: x.journal, ..a })
                &&& y == (LedgerView { escrows: y.escrows, journal: y.journal, ..b })
            },
            (Err(e), Err(f)) => e == f,
            _ => false,
        }),
{
    match (
        EscrowContract::lock_outcome(a, depositor, beneficiary, amount, unlock_ts, escrow_id),
        EscrowContract::lock_outcome(b, depositor, beneficiary, amount, unlock_ts, escrow_id),
    ) {
        (Ok(x), Ok(y)) => {
            assert(x.journal_since(a) =~= y.journal_since(b));
        },
        _ => {},
    }
}

/// A release reads and writes no record but the escrow under its key: on two
/// ledgers that agree on the clock, the custody account, the configuration
/// and that escrow, it answers the same, removes the entry, journals the
/// same, and leaves every other record of either ledger as it was.
pub proof fn lemma_release_is_local(
    a: LedgerView,
    b: LedgerView,
    depositor: Address,
    escrow_id: u64,
)
    requires
        a.same_setting(b),
        same_record(a.escrows, b.escrows, EscrowKey::Entry(depositor, escrow_id)),
    ensures
        (match (
            EscrowContract::release_outcome(a, depositor, escrow_id),
            EscrowContract::release_outcome(b, depositor, escrow_id),
        ) {
            (Ok(x), Ok(y)) => {
                let key = EscrowKey::Entry(depositor, escrow_id);
                &&& x.escrows == a.escrows.remove(key)
                &&& y.escrows == b.escrows.remove(key)
                &&& x.journal_since(a) == y.journal_since(b)
                &&& x == (LedgerView { escrows: x.escrows, journal: x.journal, ..a })
                &&& y == (LedgerView { escrows: y.escrows, journal: y.journal, ..b })
            },
            (Err(e), Err(f)) => e == f,
            _ => false,
        }),
{
    match (
        EscrowContract::release_outcome(a, depositor, escrow_id),
        EscrowContract::release_outcome(b, depositor, escrow_id),
    ) {
        (Ok(x), Ok(y)) => {
            assert(x.journal_since(a) =~= y.journal_since(b));
        },
        _ => {},
    }
}

} // verus!
