use settlement_engine::address::{Address, AddressKind};
use settlement_engine::escrow::{EscrowEntry, EscrowKey};
use settlement_engine::events::{BatchRewardEventData, EventPayload, Notification, Topic};
use settlement_engine::ledger::{Effect, Ledger, StorageKey, Transfer};
use settlement_engine::recurring_payment::{DataKey, RecurringPayment};
use settlement_engine::staking::{Config, StakeEntry, StakingKey};
use settlement_engine::table::{Key, Table};

fn generate(n: u128) -> Address {
    Address::account(0, n)
}

#[test]
fn addresses_are_the_same_when_all_their_parts_agree() {
    let a = Address::account(1, 2);
    assert_eq!(a, Address { kind: AddressKind::Account, hi: 1, lo: 2 });
    assert_eq!(Address::contract(1, 2), Address { kind: AddressKind::Contract, hi: 1, lo: 2 });
    assert!(a.same(&Address::account(1, 2)));
    assert!(!a.same(&Address::contract(1, 2)));
    assert!(!a.same(&Address::account(2, 2)));
    assert!(!a.same(&Address::account(1, 3)));
    assert!(Key::same(&7u64, &7u64));
    assert!(!Key::same(&7u64, &8u64));
    assert!(Key::same(&EscrowKey::Entry(a, 1), &EscrowKey::Entry(a, 1)));
    assert!(!Key::same(&EscrowKey::Entry(a, 1), &EscrowKey::Entry(a, 2)));
    assert!(!Key::same(&EscrowKey::Entry(a, 1), &EscrowKey::Entry(generate(9), 1)));
}

#[test]
fn a_table_holds_one_record_under_a_key() {
    let mut table: Table<u64, i128> = Table::new();
    assert_eq!(table.get(&1), None);
    assert!(!table.has(&1));
    table.set(1, 10);
    table.set(2, 20);
    table.set(3, 30);
    table.set(2, 21);
    assert_eq!(table.get(&1), Some(10));
    assert_eq!(table.get(&2), Some(21));
    assert_eq!(table.get(&3), Some(30));
    assert!(table.has(&2));
    table.remove(&2);
    assert_eq!(table.get(&2), None);
    assert_eq!(table.get(&1), Some(10));
    assert_eq!(table.get(&3), Some(30));
    table.remove(&2);
    table.remove(&1);
    assert_eq!(table.get(&3), Some(30));
    assert!(!table.has(&1));
    table.set(2, 22);
    assert_eq!(table.get(&2), Some(22));
}

#[test]
fn a_duplicate_table_goes_its_own_way() {
    let mut table: Table<Address, StakeEntry> = Table::new();
    table.set(generate(1), StakeEntry { balance: 5, staked_at: 1 });
    table.set(generate(2), StakeEntry { balance: 6, staked_at: 2 });
    let mut copy = table.duplicate();
    assert_eq!(copy.get(&generate(1)), Some(StakeEntry { balance: 5, staked_at: 1 }));
    assert_eq!(copy.get(&generate(2)), Some(StakeEntry { balance: 6, staked_at: 2 }));
    copy.remove(&generate(1));
    copy.set(generate(3), StakeEntry { balance: 7, staked_at: 3 });
    assert!(table.has(&generate(1)));
    assert!(!table.has(&generate(3)));
}

#[test]
fn a_new_ledger_is_empty_at_time_zero() {
    let contract = Address::contract(3, 4);
    let ledger = Ledger::new(contract);
    assert_eq!(ledger.current_contract_address(), contract);
    assert_eq!(ledger.timestamp(), 0);
    assert_eq!(ledger.config(), None);
    assert_eq!(ledger.payment_count(), 0);
    assert_eq!(ledger.stake_entry(&generate(1)), None);
    assert_eq!(ledger.escrow(&EscrowKey::Entry(generate(1), 1)), None);
    assert_eq!(ledger.payment(1), None);
    assert!(!ledger.is_authorized(&generate(1)));
    assert!(ledger.journal().is_empty());
}

#[test]
fn the_clock_is_what_it_was_last_set_to() {
    let mut ledger = Ledger::new(generate(0));
    ledger.set_timestamp(1_700_000_000);
    assert_eq!(ledger.timestamp(), 1_700_000_000);
    ledger.set_timestamp(5);
    assert_eq!(ledger.timestamp(), 5);
    assert!(ledger.journal().is_empty());
}

#[test]
fn signers_are_those_that_were_recorded() {
    let mut ledger = Ledger::new(generate(0));
    ledger.authorize(generate(1));
    ledger.authorize(generate(3));
    assert!(ledger.is_authorized(&generate(1)));
    assert!(!ledger.is_authorized(&generate(2)));
    assert!(ledger.is_authorized(&generate(3)));
    ledger.mock_all_auths();
    assert!(ledger.is_authorized(&generate(2)));
    assert!(ledger.journal().is_empty());
}

#[test]
fn every_write_and_removal_is_journaled_in_order() {
    let mut ledger = Ledger::new(generate(0));
    let owner = generate(1);
    let key = EscrowKey::Entry(owner, 9);
    let config = Config { admin: owner, token: generate(2), reward_rate: 1, min_stake: 1 };
    let escrow = EscrowEntry { depositor: owner, beneficiary: generate(3), amount: 4, unlock_ts: 5 };
    let payment = RecurringPayment {
        sender: owner,
        recipient: generate(3),
        token: generate(2),
        amount: 6,
        interval: 7,
        next_execution: 8,
        active: true,
    };
    let notification = Notification {
        family: Topic::Staking,
        operation: Topic::Batch,
        payload: EventPayload::BatchReward(BatchRewardEventData {
            recipients: 1,
            total_rewards: 2,
            timestamp: 3,
        }),
    };
    ledger.set_config(config);
    ledger.set_stake(owner, StakeEntry { balance: 10, staked_at: 11 });
    ledger.set_escrow(key, escrow);
    ledger.set_payment(12, payment);
    ledger.set_payment_count(12);
    ledger.transfer(generate(2), owner, generate(3), 13);
    ledger.publish(notification);
    assert_eq!(ledger.config(), Some(config));
    assert_eq!(ledger.stake_entry(&owner), Some(StakeEntry { balance: 10, staked_at: 11 }));
    assert_eq!(ledger.escrow(&key), Some(escrow));
    assert!(ledger.has_escrow(&key));
    assert_eq!(ledger.payment(12), Some(payment));
    assert_eq!(ledger.payment_count(), 12);
    ledger.remove_stake(&owner);
    ledger.remove_escrow(&key);
    assert_eq!(ledger.stake_entry(&owner), None);
    assert!(!ledger.has_escrow(&key));
    assert_eq!(
        ledger.journal().as_slice(),
        &[
            Effect::Write(StorageKey::Staking(StakingKey::Config)),
            Effect::Write(StorageKey::Staking(StakingKey::StakeEntry(owner))),
            Effect::Write(StorageKey::Escrow(key)),
            Effect::Write(StorageKey::Recurring(DataKey::Payment(12))),
            Effect::Write(StorageKey::Recurring(DataKey::PaymentCount)),
            Effect::Transfer(Transfer {
                token: generate(2),
                from: owner,
                to: generate(3),
                amount: 13
            }),
            Effect::Notify(notification),
            Effect::Remove(StorageKey::Staking(StakingKey::StakeEntry(owner))),
            Effect::Remove(StorageKey::Escrow(key)),
        ]
    );
    ledger.clear_journal();
    assert!(ledger.journal().is_empty());
    assert_eq!(ledger.config(), Some(config));
    assert_eq!(ledger.payment(12), Some(payment));
}

#[test]
fn a_duplicate_ledger_holds_the_same_and_goes_its_own_way() {
    let mut ledger = Ledger::new(Address::contract(0, 1));
    ledger.set_timestamp(77);
    ledger.authorize(generate(5));
    ledger.set_stake(generate(1), StakeEntry { balance: 10, staked_at: 11 });
    ledger.set_payment_count(3);
    let mut copy = ledger.duplicate();
    assert_eq!(copy.current_contract_address(), Address::contract(0, 1));
    assert_eq!(copy.timestamp(), 77);
    assert!(copy.is_authorized(&generate(5)));
    assert!(!copy.is_authorized(&generate(6)));
    assert_eq!(copy.stake_entry(&generate(1)), Some(StakeEntry { balance: 10, staked_at: 11 }));
    assert_eq!(copy.payment_count(), 3);
    assert_eq!(copy.journal(), ledger.journal());
    copy.remove_stake(&generate(1));
    copy.set_timestamp(78);
    assert_eq!(ledger.stake_entry(&generate(1)), Some(StakeEntry { balance: 10, staked_at: 11 }));
    assert_eq!(ledger.timestamp(), 77);
    assert_eq!(ledger.journal().len(), 2);
    assert_eq!(copy.journal().len(), 3);
}
