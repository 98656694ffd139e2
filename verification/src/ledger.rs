//! The ledger: the records of every family, the clock, the proven signers,
//! and the journal of what an operation did.
//!
//! The ledger is the record store. Its readers and writers store and answer
//! what they are handed, one record under one key; the rules of staking,
//! escrow and payments are those of the operations built on them.
//!
//! The journal lists, in order, every record written or removed, every
//! transfer of funds asked for, and every notification published. It is what
//! makes an operation observable: the host that runs the ledger carries the
//! transfers out and publishes the notifications.

use vstd::prelude::*;
use crate::address::Address;
use crate::escrow::{EscrowEntry, EscrowKey};
use crate::events::Notification;
use crate::recurring_payment::{DataKey, RecurringPayment};
use crate::staking::{Config, StakeEntry, StakingKey};
use crate::table::Table;

verus! {

/// The key of a record: one case for each record family.
#[derive(Clone, Copy, Debug, PartialEq, Eq, Structural)]
pub enum StorageKey {
    Staking(StakingKey),
    Escrow(EscrowKey),
    Recurring(DataKey),
}

/// A movement of funds: `amount` of `token` from `from` to `to`.
#[derive(Clone, Copy, Debug, PartialEq, Eq, Structural)]
pub struct Transfer {
    pub token: Address,
    pub from: Address,
    pub to: Address,
    pub amount: i128,
}

/// One entry of the journal.
#[derive(Clone, Copy, Debug, PartialEq, Eq, Structural)]
pub enum Effect {
    /// The record under this key was written.
    Write(StorageKey),
    /// The record under this key was removed.
    Remove(StorageKey),
    /// This movement of funds was asked for.
    Transfer(Transfer),
    /// This notification was published.
    Notify(Notification),
}

/// The key of the configuration.
pub open spec fn config_key() -> StorageKey {
    StorageKey::Staking(StakingKey::Config)
}

/// The key of the stake position of `owner`.
pub open spec fn stake_key(owner: Address) -> StorageKey {
    StorageKey::Staking(StakingKey::StakeEntry(owner))
}

/// The key of the payment schedule `id`.
pub open spec fn payment_key(id: u64) -> StorageKey {
    StorageKey::Recurring(DataKey::Payment(id))
}

/// The key of the payment counter.
pub open spec fn payment_count_key() -> StorageKey {
    StorageKey::Recurring(DataKey::PaymentCount)
}

/// What a ledger holds, as plain mathematics.
#[verifier::ext_equal]
pub struct LedgerView {
    /// The principal that holds funds in custody.
    pub contract: Address,
    /// The current time.
    pub timestamp: u64,
    /// Whether every principal counts as having signed.
    pub all_authorized: bool,
    /// The principals that have signed.
    pub signers: Seq<Address>,
    pub config: Option<Config>,
    pub stakes: Map<Address, StakeEntry>,
    pub escrows: Map<EscrowKey, EscrowEntry>,
    pub payments: Map<u64, RecurringPayment>,
    pub payment_count: u64,
    pub journal: Seq<Effect>,
}

impl LedgerView {
    /// The empty ledger of `contract`, at time 0.
    pub open spec fn initial(contract: Address) -> LedgerView {
        LedgerView {
            contract,
            timestamp: 0,
            all_authorized: false,
            signers: Seq::empty(),
            config: None,
            stakes: Map::empty(),
            escrows: Map::empty(),
            payments: Map::empty(),
            payment_count: 0,
            journal: Seq::empty(),
        }
    }

    /// Whether `who` has proven their authority.
    pub open spec fn authorizes(self, who: Address) -> bool {
        self.all_authorized || self.signers.contains(who)
    }

    /// The ledger at another time.
    pub open spec fn at(self, timestamp: u64) -> LedgerView {
        LedgerView { timestamp, ..self }
    }

    /// The ledger with one more journal entry.
    pub open spec fn with_effect(self, effect: Effect) -> LedgerView {
        LedgerView { journal: self.journal.push(effect), ..self }
    }

    /// The ledger with an empty journal.
    pub open spec fn without_journal(self) -> LedgerView {
        LedgerView { journal: Seq::empty(), ..self }
    }

    /// What the journal holds beyond the journal of `before`.
    pub open spec fn journal_since(self, before: LedgerView) -> Seq<Effect> {
        self.journal.skip(before.journal.len() as int)
    }

    /// Whether the two ledgers have the same clock, the same custody account
    /// and the same configuration.
    pub open spec fn same_setting(self, other: LedgerView) -> bool {
        &&& self.contract == other.contract
        &&& self.timestamp == other.timestamp
        &&& self.config == other.config
    }

    /// The ledger after the configuration was written.
    pub open spec fn set_config(self, config: Config) -> LedgerView {
        LedgerView { config: Some(config), ..self }.with_effect(Effect::Write(config_key()))
    }

    /// The ledger after the stake position of `owner` was written.
    pub open spec fn set_stake(self, owner: Address, entry: StakeEntry) -> LedgerView {
        LedgerView { stakes: self.stakes.insert(owner, entry), ..self }.with_effect(
            Effect::Write(stake_key(owner)),
        )
    }

    /// The ledger after the stake position of `owner` was removed.
    pub open spec fn remove_stake(self, owner: Address) -> LedgerView {
        LedgerView { stakes: self.stakes.remove(owner), ..self }.with_effect(
            Effect::Remove(stake_key(owner)),
        )
    }

    /// The ledger after the escrow under `key` was written.
    pub open spec fn set_escrow(self, key: EscrowKey, entry: EscrowEntry) -> LedgerView {
        LedgerView { escrows: self.escrows.insert(key, entry), ..self }.with_effect(
            Effect::Write(StorageKey::Escrow(key)),
        )
    }

    /// The ledger after the escrow under `key` was removed.
    pub open spec fn remove_escrow(self, key: EscrowKey) -> LedgerView {
        LedgerView { escrows: self.escrows.remove(key), ..self }.with_effect(
            Effect::Remove(StorageKey::Escrow(key)),
        )
    }

    /// The ledger after the payment schedule `id` was written.
    pub open spec fn set_payment(self, id: u64, payment: RecurringPayment) -> LedgerView {
        LedgerView { payments: self.payments.insert(id, payment), ..self }.with_effect(
            Effect::Write(payment_key(id)),
        )
    }

    /// The ledger after the payment counter was written.
    pub open spec fn set_payment_count(self, count: u64) -> LedgerView {
        LedgerView { payment_count: count, ..self }.with_effect(
            Effect::Write(payment_count_key()),
        )
    }

    /// The ledger after a movement of funds was asked for.
    pub open spec fn transfer(self, transfer: Transfer) -> LedgerView {
        self.with_effect(Effect::Transfer(transfer))
    }

    /// The ledger after a notification was published.
    pub open spec fn publish(self, notification: Notification) -> LedgerView {
        self.with_effect(Effect::Notify(notification))
    }
}

/// Whether the two maps hold the same under `key`: the same record, or none.
pub open spec fn same_record<K, T>(a: Map<K, T>, b: Map<K, T>, key: K) -> bool {
    &&& a.contains_key(key) == b.contains_key(key)
    &&& a.contains_key(key) ==> a[key] == b[key]
}

/// How many records the journal says were written.
pub open spec fn writes(journal: Seq<Effect>) -> nat
    decreases journal.len(),
{
    if journal.len() == 0 {
        0
    } else {
        writes(journal.drop_last()) + if journal.last() is Write {
            1nat
        } else {
            0nat
        }
    }
}

/// How many notifications the journal says were published.
pub open spec fn notifications(journal: Seq<Effect>) -> nat
    decreases journal.len(),
{
    if journal.len() == 0 {
        0
    } else {
        notifications(journal.drop_last()) + if journal.last() is Notify {
            1nat
        } else {
            0nat
        }
    }
}

/// One more journal entry counts as a write if it is one, and as a
/// notification if it is one.
pub proof fn lemma_count_pushed(journal: Seq<Effect>, effect: Effect)
    ensures
        writes(journal.push(effect)) == writes(journal) + if effect is Write {
            1nat
        } else {
            0nat
        },
        notifications(journal.push(effect)) == notifications(journal) + if effect is Notify {
            1nat
        } else {
            0nat
        },
{
    assert(journal.push(effect).drop_last() =~= journal);
}

/// Whether an operation that answered `r` and took the ledger from `before` to
/// `after` did what `outcome` says: on success the ledger is the new one, on
/// failure the answer is the error and the ledger is as it was.
pub open spec fn carried_out(
    outcome: Result<LedgerView, crate::error::Error>,
    before: LedgerView,
    after: LedgerView,
    r: Result<(), crate::error::Error>,
) -> bool {
    match outcome {
        Ok(next) => r is Ok && after == next,
        Err(e) => r == Err::<(), crate::error::Error>(e) && after == before,
    }
}

/// A copy of `v`.
fn copy_of<T: Copy>(v: &Vec<T>) -> (r: Vec<T>)
    ensures
        r@ == v@,
{
    let mut r: Vec<T> = Vec::new();
    let mut i: usize = 0;
    while i < v.len()
        invariant
            i <= v@.len(),
            r@ == v@.take(i as int),
        decreases v@.len() - i,
    {
        r.push(v[i]);
        assert(v@.take(i as int).push(v@[i as int]) =~= v@.take(i + 1));
        i = i + 1;
    }
    assert(r@ =~= v@);
    r
}

/// The ledger.
pub struct Ledger {
    contract: Address,
    timestamp: u64,
    all_authorized: bool,
    signers: Vec<Address>,
    config: Option<Config>,
    stakes: Table<Address, StakeEntry>,
    escrows: Table<EscrowKey, EscrowEntry>,
    payments: Table<u64, RecurringPayment>,
    payment_count: u64,
    journal: Vec<Effect>,
}

impl View for Ledger {
    type V = LedgerView;

    closed spec fn view(&self) -> LedgerView {
        LedgerView {
            contract: self.contract,
            timestamp: self.timestamp,
            all_authorized: self.all_authorized,
            signers: self.signers@,
            config: self.config,
            stakes: self.stakes@,
            escrows: self.escrows@,
            payments: self.payments@,
            payment_count: self.payment_count,
            journal: self.journal@,
        }
    }
}

impl Ledger {
    /// The empty ledger of `contract`, at time 0, with no signer.
    pub fn new(contract: Address) -> (ledger: Ledger)
        ensures
            ledger@ == LedgerView::initial(contract),
    {
        let ledger = Ledger {
            contract,
            timestamp: 0,
            all_authorized: false,
            signers: Vec::new(),
            config: None,
            stakes: Table::new(),
            escrows: Table::new(),
            payments: Table::new(),
            payment_count: 0,
            journal: Vec::new(),
        };
        assert(ledger@ =~= LedgerView::initial(contract));
        ledger
    }

    /// A ledger that holds the same.
    pub fn duplicate(&self) -> (ledger: Ledger)
        ensures
            ledger@ == self@,
    {
        let ledger = Ledger {
            contract: self.contract,
            timestamp: self.timestamp,
            all_authorized: self.all_authorized,
            signers: copy_of(&self.signers),
            config: self.config,
            stakes: self.stakes.duplicate(),
            escrows: self.escrows.duplicate(),
            payments: self.payments.duplicate(),
            payment_count: self.payment_count,
            journal: copy_of(&self.journal),
        };
        assert(ledger@ =~= self@);
        ledger
    }

    /// The principal that holds funds in custody.
    pub fn current_contract_address(&self) -> (a: Address)
        ensures
            a == self@.contract,
    {
        self.contract
    }

    /// The current time.
    pub fn timestamp(&self) -> (t: u64)
        ensures
            t == self@.timestamp,
    {
        self.timestamp
    }

    /// Sets the clock.
    pub fn set_timestamp(&mut self, timestamp: u64)
        ensures
            final(self)@ == old(self)@.at(timestamp),
    {
        self.timestamp = timestamp;
        assert(self@ =~= old(self)@.at(timestamp));
    }

    /// Lets every principal count as having signed.
    pub fn mock_all_auths(&mut self)
        ensures
            final(self)@ == (LedgerView { all_authorized: true, ..old(self)@ }),
    {
        self.all_authorized = true;
        assert(self@ =~= (LedgerView { all_authorized: true, ..old(self)@ }));
    }

    /// Records that `who` has signed.
    pub fn authorize(&mut self, who: Address)
        ensures
            final(self)@ == (LedgerView { signers: old(self)@.signers.push(who), ..old(self)@ }),
    {
        self.signers.push(who);
        assert(self@ =~= (LedgerView { signers: old(self)@.signers.push(who), ..old(self)@ }));
    }

    /// Whether `who` has proven their authority.
    pub fn is_authorized(&self, who: &Address) -> (r: bool)
        ensures
            r == self@.authorizes(*who),
    {
        if self.all_authorized {
            return true;
        }
        let mut i: usize = 0;
        while i < self.signers.len()
            invariant
                i <= self.signers@.len(),
                forall|j: int| 0 <= j < i ==> self.signers@[j] != *who,
            decreases self.signers@.len() - i,
        {
            if self.signers[i].same(who) {
                return true;
            }
            i = i + 1;
        }
        false
    }

    /// The configuration, if it is set.
    pub fn config(&self) -> (c: Option<Config>)
        ensures
            c == self@.config,
    {
        self.config
    }

    /// Writes the configuration.
    pub fn set_config(&mut self, config: Config)
        ensures
            final(self)@ == old(self)@.set_config(config),
    {
        self.config = Some(config);
        self.journal.push(Effect::Write(StorageKey::Staking(StakingKey::Config)));
        assert(self@ =~= old(self)@.set_config(config));
    }

    /// The stake position of `owner`, if there is one.
    pub fn stake_entry(&self, owner: &Address) -> (e: Option<StakeEntry>)
        ensures
            e == (if self@.stakes.contains_key(*owner) {
                Some(self@.stakes[*owner])
            } else {
                None
            }),
    {
        self.stakes.get(owner)
    }

    /// Writes the stake position of `owner`.
    pub fn set_stake(&mut self, owner: Address, entry: StakeEntry)
        ensures
            final(self)@ == old(self)@.set_stake(owner, entry),
    {
        self.stakes.set(owner, entry);
        self.journal.push(Effect::Write(StorageKey::Staking(StakingKey::StakeEntry(owner))));
        assert(self@ =~= old(self)@.set_stake(owner, entry));
    }

    /// Removes the stake position of `owner`.
    pub fn remove_stake(&mut self, owner: &Address)
        ensures
            final(self)@ == old(self)@.remove_stake(*owner),
    {
        self.stakes.remove(owner);
        self.journal.push(Effect::Remove(StorageKey::Staking(StakingKey::StakeEntry(*owner))));
        assert(self@ =~= old(self)@.remove_stake(*owner));
    }

    /// The escrow under `key`, if there is one.
    pub fn escrow(&self, key: &EscrowKey) -> (e: Option<EscrowEntry>)
        ensures
            e == (if self@.escrows.contains_key(*key) {
                Some(self@.escrows[*key])
            } else {
                None
            }),
    {
        self.escrows.get(key)
    }

    /// Whether an escrow is stored under `key`.
    pub fn has_escrow(&self, key: &EscrowKey) -> (r: bool)
        ensures
            r == self@.escrows.contains_key(*key),
    {
        self.escrows.has(key)
    }

    /// Writes the escrow under `key`.
    pub fn set_escrow(&mut self, key: EscrowKey, entry: EscrowEntry)
        ensures
            final(self)@ == old(self)@.set_escrow(key, entry),
    {
        self.escrows.set(key, entry);
        self.journal.push(Effect::Write(StorageKey::Escrow(key)));
        assert(self@ =~= old(self)@.set_escrow(key, entry));
    }

    /// Removes the escrow under `key`.
    pub fn remove_escrow(&mut self, key: &EscrowKey)
        ensures
            final(self)@ == old(self)@.remove_escrow(*key),
    {
        self.escrows.remove(key);
        self.journal.push(Effect::Remove(StorageKey::Escrow(*key)));
        assert(self@ =~= old(self)@.remove_escrow(*key));
    }

    /// The payment schedule `id`, if there is one.
    pub fn payment(&self, id: u64) -> (p: Option<RecurringPayment>)
        ensures
            p == (if self@.payments.contains_key(id) {
                Some(self@.payments[id])
            } else {
                None
            }),
    {
        self.payments.get(&id)
    }

    /// Writes the payment schedule `id`.
    pub fn set_payment(&mut self, id: u64, payment: RecurringPayment)
        ensures
            final(self)@ == old(self)@.set_payment(id, payment),
    {
        self.payments.set(id, payment);
        self.journal.push(Effect::Write(StorageKey::Recurring(DataKey::Payment(id))));
        assert(self@ =~= old(self)@.set_payment(id, payment));
    }

    /// The number of payment schedules created so far.
    pub fn payment_count(&self) -> (n: u64)
        ensures
            n == self@.payment_count,
    {
        self.payment_count
    }

    /// Writes the payment counter.
    pub fn set_payment_count(&mut self, count: u64)
        ensures
            final(self)@ == old(self)@.set_payment_count(count),
    {
        self.payment_count = count;
        self.journal.push(Effect::Write(StorageKey::Recurring(DataKey::PaymentCount)));
        assert(self@ =~= old(self)@.set_payment_count(count));
    }

    /// Asks for a movement of funds.
    pub fn transfer(&mut self, token: Address, from: Address, to: Address, amount: i128)
        ensures
            final(self)@ == old(self)@.transfer(Transfer { token, from, to, amount }),
    {
        self.journal.push(Effect::Transfer(Transfer { token, from, to, amount }));
        assert(self@ =~= old(self)@.transfer(Transfer { token, from, to, amount }));
    }

    /// Publishes a notification.
    pub fn publish(&mut self, notification: Notification)
        ensures
            final(self)@ == old(self)@.publish(notification),
    {
        self.journal.push(Effect::Notify(notification));
        assert(self@ =~= old(self)@.publish(notification));
    }

    /// The journal: what was done, in order.
    pub fn journal(&self) -> (j: &Vec<Effect>)
        ensures
            j@ == self@.journal,
    {
        &self.journal
    }

    /// Empties the journal.
    pub fn clear_journal(&mut self)
        ensures
            final(self)@ == old(self)@.without_journal(),
    {
        self.journal = Vec::new();
        assert(self@ =~= old(self)@.without_journal());
    }
}

} // verus!
