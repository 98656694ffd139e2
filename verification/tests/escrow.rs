use settlement_engine::address::Address;
use settlement_engine::error::{Error, EventFault};
use settlement_engine::escrow::{EscrowContract, EscrowEntry, EscrowKey};
use settlement_engine::events::{
    EscrowLockedEventData, EscrowReleasedEventData, EventPayload, Notification, Topic,
};
use settlement_engine::ledger::{Effect, Ledger, StorageKey, Transfer};
use settlement_engine::staking::StakingContract;

fn generate(n: u128) -> Address {
    Address::account(0, n)
}

fn custody() -> Address {
    Address::contract(0, 0xC0)
}

fn token() -> Address {
    Address::contract(0, 0x70)
}

fn set_ledger_ts(ledger: &mut Ledger, ts: u64) {
    ledger.set_timestamp(ts);
}

fn make_env() -> Ledger {
    let mut ledger = Ledger::new(custody());
    ledger.mock_all_auths();
    set_ledger_ts(&mut ledger, 1_700_000_000);
    ledger
}

/// Sets the configuration, so that the escrow knows its token.
fn deploy_escrow(ledger: &mut Ledger) {
    StakingContract::initialize(ledger, generate(0xAD), token(), 1200u32, 100i128).unwrap();
}

fn succeed(r: Result<(), Error>) {
    if let Err(e) = r {
        panic!("{}", e.message());
    }
}

#[test]
fn escrow_release_frees_storage_slot() {
    let mut env = make_env();
    deploy_escrow(&mut env);
    let depositor = generate(1);
    let beneficiary = generate(2);
    let escrow_id = 42u64;

    succeed(EscrowContract::lock(
        &mut env,
        depositor,
        beneficiary,
        1_000i128,
        1_700_000_000 + 86_400,
        escrow_id,
    ));

    // Advance past unlock
    set_ledger_ts(&mut env, 1_700_000_000 + 86_401);

    succeed(EscrowContract::release(&mut env, depositor, escrow_id));

    // Slot must be gone
    let entry = EscrowContract::get_escrow(&env, depositor, escrow_id);
    assert!(entry.is_none(), "storage slot should be freed after release");
}

#[test]
#[should_panic(expected = "escrow is still locked")]
fn release_before_unlock_ts_panics() {
    let mut env = make_env();
    deploy_escrow(&mut env);
    let depositor = generate(1);
    let beneficiary = generate(2);

    succeed(EscrowContract::lock(
        &mut env,
        depositor,
        beneficiary,
        500i128,
        1_700_000_000 + 86_400,
        1u64,
    ));
    // Try to release immediately
    succeed(EscrowContract::release(&mut env, depositor, 1u64));
}

#[test]
fn lock_moves_funds_in_writes_the_entry_and_publishes() {
    let mut env = make_env();
    deploy_escrow(&mut env);
    env.clear_journal();
    let depositor = generate(1);
    let beneficiary = generate(2);
    let unlock_ts = 1_700_000_000 + 86_400;

    assert_eq!(EscrowContract::lock(&mut env, depositor, beneficiary, 1_000, unlock_ts, 7), Ok(()));

    let key = EscrowKey::Entry(depositor, 7);
    assert_eq!(
        EscrowContract::get_escrow(&env, depositor, 7),
        Some(EscrowEntry { depositor, beneficiary, amount: 1_000, unlock_ts })
    );
    assert!(env.has_escrow(&key));
    assert_eq!(
        env.journal().as_slice(),
        &[
            Effect::Transfer(Transfer {
                token: token(),
                from: depositor,
                to: custody(),
                amount: 1_000
            }),
            Effect::Write(StorageKey::Escrow(key)),
            Effect::Notify(Notification {
                family: Topic::Staking,
                operation: Topic::Escrow,
                payload: EventPayload::EscrowLocked(EscrowLockedEventData {
                    depositor,
                    beneficiary,
                    amount: 1_000,
                    unlock_ts,
                    timestamp: 1_700_000_000,
                }),
            }),
        ]
    );
}

#[test]
fn release_removes_the_entry_before_it_moves_the_funds() {
    let mut env = make_env();
    deploy_escrow(&mut env);
    let depositor = generate(1);
    let beneficiary = generate(2);
    let unlock_ts = 1_700_000_000 + 86_400;
    EscrowContract::lock(&mut env, depositor, beneficiary, 1_000, unlock_ts, 7).unwrap();
    set_ledger_ts(&mut env, unlock_ts);
    env.clear_journal();

    assert_eq!(EscrowContract::release(&mut env, depositor, 7), Ok(()));

    assert_eq!(
        env.journal().as_slice(),
        &[
            Effect::Remove(StorageKey::Escrow(EscrowKey::Entry(depositor, 7))),
            Effect::Transfer(Transfer {
                token: token(),
                from: custody(),
                to: beneficiary,
                amount: 1_000
            }),
            Effect::Notify(Notification {
                family: Topic::Staking,
                operation: Topic::Escrow,
                payload: EventPayload::EscrowReleased(EscrowReleasedEventData {
                    beneficiary,
                    amount: 1_000,
                    timestamp: unlock_ts,
                }),
            }),
        ]
    );
}

#[test]
fn release_needs_no_signature() {
    let mut env = Ledger::new(custody());
    set_ledger_ts(&mut env, 100);
    deploy_escrow(&mut env);
    let depositor = generate(1);
    assert_eq!(
        EscrowContract::lock(&mut env, depositor, generate(2), 10, 200, 1),
        Err(Error::Unauthorized)
    );
    env.authorize(depositor);
    assert_eq!(EscrowContract::lock(&mut env, depositor, generate(2), 10, 200, 1), Ok(()));
    let mut later = Ledger::new(custody());
    deploy_escrow(&mut later);
    later.set_escrow(
        EscrowKey::Entry(depositor, 1),
        EscrowEntry { depositor, beneficiary: generate(2), amount: 10, unlock_ts: 200 },
    );
    set_ledger_ts(&mut later, 200);
    assert!(!later.is_authorized(&depositor));
    assert_eq!(EscrowContract::release(&mut later, depositor, 1), Ok(()));
}

#[test]
fn release_before_the_unlock_time_leaves_the_entry() {
    let mut env = make_env();
    deploy_escrow(&mut env);
    let depositor = generate(1);
    let unlock_ts = 1_700_000_000 + 86_400;
    EscrowContract::lock(&mut env, depositor, generate(2), 500, unlock_ts, 1).unwrap();
    let before = env.journal().len();
    set_ledger_ts(&mut env, unlock_ts - 1);
    assert_eq!(EscrowContract::release(&mut env, depositor, 1), Err(Error::EscrowStillLocked));
    assert_eq!(env.journal().len(), before);
    assert_eq!(
        EscrowContract::get_escrow(&env, depositor, 1),
        Some(EscrowEntry { depositor, beneficiary: generate(2), amount: 500, unlock_ts })
    );
    // at the unlock time itself the release goes through
    set_ledger_ts(&mut env, unlock_ts);
    assert_eq!(EscrowContract::release(&mut env, depositor, 1), Ok(()));
}

#[test]
fn locking_twice_under_one_id_fails() {
    let mut env = make_env();
    deploy_escrow(&mut env);
    let depositor = generate(1);
    let unlock_ts = 1_700_000_000 + 86_400;
    EscrowContract::lock(&mut env, depositor, generate(2), 500, unlock_ts, 1).unwrap();
    let before = env.journal().len();
    assert_eq!(
        EscrowContract::lock(&mut env, depositor, generate(3), 900, unlock_ts + 5, 1),
        Err(Error::EscrowIdInUse)
    );
    assert_eq!(env.journal().len(), before);
    assert_eq!(EscrowContract::get_escrow(&env, depositor, 1).unwrap().amount, 500);
    // another id of the same depositor, and the same id of another, are free
    assert_eq!(EscrowContract::lock(&mut env, depositor, generate(3), 900, unlock_ts, 2), Ok(()));
    assert_eq!(EscrowContract::lock(&mut env, generate(4), generate(3), 900, unlock_ts, 1), Ok(()));
    // once released, the id is free again
    set_ledger_ts(&mut env, unlock_ts);
    EscrowContract::release(&mut env, depositor, 1).unwrap();
    assert_eq!(
        EscrowContract::lock(&mut env, depositor, generate(3), 900, unlock_ts + 5, 1),
        Ok(())
    );
}

#[test]
fn release_succeeds_once() {
    let mut env = make_env();
    deploy_escrow(&mut env);
    let depositor = generate(1);
    assert_eq!(EscrowContract::release(&mut env, depositor, 1), Err(Error::EscrowNotFound));
    EscrowContract::lock(&mut env, depositor, generate(2), 500, 1_700_000_001, 1).unwrap();
    set_ledger_ts(&mut env, 1_700_000_001);
    assert_eq!(EscrowContract::release(&mut env, depositor, 1), Ok(()));
    let before = env.journal().len();
    assert_eq!(EscrowContract::release(&mut env, depositor, 1), Err(Error::EscrowNotFound));
    assert_eq!(env.journal().len(), before);
}

#[test]
fn lock_checks_its_inputs_in_order() {
    let mut env = make_env();
    let depositor = generate(1);
    let beneficiary = generate(2);
    let now = 1_700_000_000;
    assert_eq!(
        EscrowContract::lock(&mut env, depositor, beneficiary, 0, now, 1),
        Err(Error::EscrowAmountNotPositive)
    );
    assert_eq!(
        EscrowContract::lock(&mut env, depositor, beneficiary, -1, now + 1, 1),
        Err(Error::EscrowAmountNotPositive)
    );
    assert_eq!(
        EscrowContract::lock(&mut env, depositor, beneficiary, 1, now, 1),
        Err(Error::UnlockNotInFuture)
    );
    assert_eq!(
        EscrowContract::lock(&mut env, depositor, beneficiary, 1, now - 1, 1),
        Err(Error::UnlockNotInFuture)
    );
    assert_eq!(
        EscrowContract::lock(&mut env, depositor, beneficiary, 1, now + 1, 1),
        Err(Error::NotInitialized)
    );
    assert!(env.journal().is_empty());
    deploy_escrow(&mut env);
    assert_eq!(EscrowContract::lock(&mut env, depositor, beneficiary, 1, now + 1, 1), Ok(()));
}

#[test]
fn release_of_an_entry_that_holds_nothing_is_rejected() {
    let mut env = make_env();
    let depositor = generate(1);
    let key = EscrowKey::Entry(depositor, 3);
    env.set_escrow(
        key,
        EscrowEntry { depositor, beneficiary: generate(2), amount: 0, unlock_ts: 5 },
    );
    assert_eq!(EscrowContract::release(&mut env, depositor, 3), Err(Error::NotInitialized));
    deploy_escrow(&mut env);
    let before = env.journal().len();
    assert_eq!(
        EscrowContract::release(&mut env, depositor, 3),
        Err(Error::InvalidEvent(EventFault::ReleasedAmountNotPositive))
    );
    assert_eq!(env.journal().len(), before);
    assert!(env.has_escrow(&key));
}

#[test]
fn get_escrow_reads_and_changes_nothing() {
    let mut env = make_env();
    deploy_escrow(&mut env);
    let depositor = generate(1);
    assert_eq!(EscrowContract::get_escrow(&env, depositor, 1), None);
    EscrowContract::lock(&mut env, depositor, generate(2), 500, 1_700_000_001, 1).unwrap();
    let before = env.journal().len();
    let first = EscrowContract::get_escrow(&env, depositor, 1);
    let second = EscrowContract::get_escrow(&env, depositor, 1);
    assert_eq!(first, second);
    assert!(first.is_some());
    assert_eq!(EscrowContract::get_escrow(&env, depositor, 2), None);
    assert_eq!(EscrowContract::get_escrow(&env, generate(2), 1), None);
    assert_eq!(env.journal().len(), before);
}
