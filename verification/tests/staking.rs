use settlement_engine::address::Address;
use settlement_engine::error::{Error, EventFault};
use settlement_engine::events::{
    EventPayload, InitializeEventData, Notification, StakeEventData, Topic, UnstakeEventData,
};
use settlement_engine::ledger::{Effect, Ledger, StorageKey, Transfer};
use settlement_engine::staking::{Config, StakeEntry, StakingContract, StakingKey};

const DAY: u64 = 24 * 60 * 60;

fn generate(n: u128) -> Address {
    Address::account(0, n)
}

fn custody() -> Address {
    Address::contract(0, 0xC0)
}

fn set_ledger_ts(ledger: &mut Ledger, ts: u64) {
    ledger.set_timestamp(ts);
}

fn make_env() -> Ledger {
    let mut ledger = Ledger::new(custody());
    ledger.mock_all_auths();
    set_ledger_ts(&mut ledger, 1_700_000_000);
    ledger
}

/// Sets the configuration and answers the administrator and the token.
fn deploy_staking(ledger: &mut Ledger) -> (Address, Address) {
    let admin = generate(0xAD);
    let token = Address::contract(0, 0x70);
    StakingContract::initialize(ledger, admin, token, 1200u32, 100i128).unwrap();
    (admin, token)
}

fn last_unstake(ledger: &Ledger) -> UnstakeEventData {
    match ledger.journal().last() {
        Some(Effect::Notify(Notification { payload: EventPayload::Unstake(data), .. })) => *data,
        other => panic!("the last effect is no unstake notification: {:?}", other),
    }
}

#[test]
fn config_stored_in_instance_storage() {
    let mut env = make_env();
    let (admin, token) = deploy_staking(&mut env);

    let config = StakingContract::get_config(&env).unwrap();
    assert_eq!(config.admin, admin);
    assert_eq!(config.reward_rate, 1200u32);
    assert_eq!(config.min_stake, 100i128);
    assert_eq!(config.token, token);
}

#[test]
fn stake_then_full_unstake_returns_principal_plus_reward() {
    let mut env = make_env();
    deploy_staking(&mut env);
    let staker = generate(1);

    StakingContract::stake(&mut env, staker, 1_000i128).unwrap();

    // Advance 30 days
    set_ledger_ts(&mut env, 1_700_000_000 + 30 * 24 * 60 * 60);

    StakingContract::unstake(&mut env, staker, 1_000i128).unwrap();

    let remaining = StakingContract::get_stake(&env, staker);
    assert_eq!(remaining, 0, "full unstake should leave zero balance");
    assert_eq!(env.stake_entry(&staker), None);
}

#[test]
fn partial_unstake_preserves_correct_remaining_balance() {
    let mut env = make_env();
    deploy_staking(&mut env);
    let staker = generate(1);

    StakingContract::stake(&mut env, staker, 1_000i128).unwrap();
    StakingContract::unstake(&mut env, staker, 400i128).unwrap();

    let remaining = StakingContract::get_stake(&env, staker);
    assert_eq!(remaining, 600, "remaining balance mismatch after partial unstake");
}

#[test]
fn second_stake_accumulates_correctly() {
    let mut env = make_env();
    deploy_staking(&mut env);
    let staker = generate(1);

    StakingContract::stake(&mut env, staker, 500i128).unwrap();
    StakingContract::stake(&mut env, staker, 500i128).unwrap();

    let balance = StakingContract::get_stake(&env, staker);
    assert!(balance >= 1_000, "expected at least 1000 after two stakes, got {balance}");
    assert_eq!(balance, 1_000);
}

#[test]
fn reward_is_non_zero_after_time_passes() {
    let mut env = make_env();
    deploy_staking(&mut env);
    let staker = generate(1);

    StakingContract::stake(&mut env, staker, 10_000i128).unwrap();
    set_ledger_ts(&mut env, 1_700_000_000 + 365 * 24 * 60 * 60); // +1 year

    StakingContract::unstake(&mut env, staker, 10_000i128).unwrap();

    let payload = last_unstake(&env);
    assert!(payload.reward > 0, "expected non-zero reward after 1 year, got {}", payload.reward);
    // At 12% a year, 10_000 principal for 1 year = 1200 reward
    assert!(
        payload.reward >= 1_100 && payload.reward <= 1_300,
        "reward out of expected range: {}",
        payload.reward
    );
    assert_eq!(payload.reward, 1_200);
    assert_eq!(payload.amount, 10_000);
    assert_eq!(payload.remaining, 1_200);
    assert_eq!(StakingContract::get_stake(&env, staker), 1_200);
}

#[test]
fn minimum_stake_enforced_after_optimization() {
    let mut env = make_env();
    deploy_staking(&mut env);
    let staker = generate(1);
    let before = env.journal().len();
    let result = StakingContract::stake(&mut env, staker, 50i128);
    assert!(result.is_err(), "stake below minimum should fail");
    assert_eq!(result, Err(Error::BelowMinimumStake));
    assert_eq!(env.journal().len(), before);
    assert_eq!(env.stake_entry(&staker), None);
}

#[test]
fn double_initialize_still_panics() {
    let mut env = make_env();
    let (admin, token) = deploy_staking(&mut env);
    let before = env.journal().len();
    let result = StakingContract::initialize(&mut env, admin, token, 1200u32, 100i128);
    assert!(result.is_err(), "double initialize should fail");
    assert_eq!(result, Err(Error::AlreadyInitialized));
    assert_eq!(env.journal().len(), before);
}

#[test]
fn initialize_writes_the_configuration_and_publishes_it() {
    let mut env = make_env();
    assert_eq!(StakingContract::get_config(&env), Err(Error::NotInitialized));
    let (admin, token) = deploy_staking(&mut env);
    assert_eq!(
        env.config(),
        Some(Config { admin, token, reward_rate: 1200, min_stake: 100 })
    );
    assert_eq!(
        env.journal().as_slice(),
        &[
            Effect::Write(StorageKey::Staking(StakingKey::Config)),
            Effect::Notify(Notification {
                family: Topic::Staking,
                operation: Topic::Initialize,
                payload: EventPayload::Initialize(InitializeEventData {
                    admin,
                    reward_rate: 1200,
                    min_stake: 100,
                    timestamp: 1_700_000_000,
                }),
            }),
        ]
    );
}

#[test]
fn initialize_rejects_a_rate_or_a_minimum_that_is_not_positive() {
    let mut env = make_env();
    let admin = generate(0xAD);
    let token = Address::contract(0, 0x70);
    assert_eq!(
        StakingContract::initialize(&mut env, admin, token, 0, 100),
        Err(Error::InvalidEvent(EventFault::RewardRateNotPositive))
    );
    assert_eq!(
        StakingContract::initialize(&mut env, admin, token, 1200, 0),
        Err(Error::InvalidEvent(EventFault::MinStakeNotPositive))
    );
    assert_eq!(env.config(), None);
    assert!(env.journal().is_empty());
    assert_eq!(StakingContract::initialize(&mut env, admin, token, 1, 1), Ok(()));
}

#[test]
fn stake_moves_funds_in_writes_once_and_publishes_once() {
    let mut env = make_env();
    let (_, token) = deploy_staking(&mut env);
    let staker = generate(1);
    env.clear_journal();

    StakingContract::stake(&mut env, staker, 500i128).unwrap();

    assert_eq!(
        env.stake_entry(&staker),
        Some(StakeEntry { balance: 500, staked_at: 1_700_000_000 })
    );
    assert_eq!(
        env.journal().as_slice(),
        &[
            Effect::Transfer(Transfer { token, from: staker, to: custody(), amount: 500 }),
            Effect::Write(StorageKey::Staking(StakingKey::StakeEntry(staker))),
            Effect::Notify(Notification {
                family: Topic::Staking,
                operation: Topic::Stake,
                payload: EventPayload::Stake(StakeEventData {
                    staker,
                    amount: 500,
                    total: 500,
                    timestamp: 1_700_000_000,
                }),
            }),
        ]
    );
}

#[test]
fn stake_folds_the_reward_in_before_it_adds_the_amount() {
    let mut env = make_env();
    deploy_staking(&mut env);
    let staker = generate(1);
    StakingContract::stake(&mut env, staker, 10_000).unwrap();
    set_ledger_ts(&mut env, 1_700_000_000 + 2 * 365 * DAY + 17);
    StakingContract::stake(&mut env, staker, 100).unwrap();
    // 10_000 + two years at 12% + 100
    assert_eq!(
        env.stake_entry(&staker),
        Some(StakeEntry { balance: 12_500, staked_at: 1_700_000_000 + 2 * 365 * DAY + 17 })
    );
    // the window has started anew: another year counts from the second stake
    set_ledger_ts(&mut env, 1_700_000_000 + 3 * 365 * DAY);
    StakingContract::stake(&mut env, staker, 100).unwrap();
    assert_eq!(StakingContract::get_stake(&env, staker), 12_600);
}

#[test]
fn unstake_removes_first_then_moves_funds_out_then_publishes() {
    let mut env = make_env();
    let (_, token) = deploy_staking(&mut env);
    let staker = generate(1);
    StakingContract::stake(&mut env, staker, 1_000).unwrap();
    env.clear_journal();

    StakingContract::unstake(&mut env, staker, 1_000).unwrap();

    assert_eq!(
        env.journal().as_slice(),
        &[
            Effect::Remove(StorageKey::Staking(StakingKey::StakeEntry(staker))),
            Effect::Transfer(Transfer { token, from: custody(), to: staker, amount: 1_000 }),
            Effect::Notify(Notification {
                family: Topic::Staking,
                operation: Topic::Unstake,
                payload: EventPayload::Unstake(UnstakeEventData {
                    staker,
                    amount: 1_000,
                    reward: 0,
                    remaining: 0,
                    timestamp: 1_700_000_000,
                }),
            }),
        ]
    );
}

#[test]
fn partial_unstake_writes_the_remainder_and_restarts_the_window() {
    let mut env = make_env();
    deploy_staking(&mut env);
    let staker = generate(1);
    StakingContract::stake(&mut env, staker, 20_000).unwrap();
    set_ledger_ts(&mut env, 1_700_000_000 + 365 * DAY);
    env.clear_journal();

    StakingContract::unstake(&mut env, staker, 22_000).unwrap();

    // 20_000 + 2_400 - 22_000
    assert_eq!(
        env.stake_entry(&staker),
        Some(StakeEntry { balance: 400, staked_at: 1_700_000_000 + 365 * DAY })
    );
    assert_eq!(
        env.journal()[0],
        Effect::Write(StorageKey::Staking(StakingKey::StakeEntry(staker)))
    );
    let payload = last_unstake(&env);
    assert_eq!(payload.reward, 2_400);
    assert_eq!(payload.remaining, 400);
}

#[test]
fn unstake_of_all_that_accrued_leaves_no_record() {
    let mut env = make_env();
    deploy_staking(&mut env);
    let staker = generate(1);
    StakingContract::stake(&mut env, staker, 10_000).unwrap();
    set_ledger_ts(&mut env, 1_700_000_000 + 365 * DAY);
    StakingContract::unstake(&mut env, staker, 11_200).unwrap();
    assert_eq!(env.stake_entry(&staker), None);
    assert_eq!(StakingContract::get_stake(&env, staker), 0);
    assert_eq!(StakingContract::unstake(&mut env, staker, 1), Err(Error::NoStake));
}

#[test]
fn unstake_fails_beyond_the_balance_after_accrual() {
    let mut env = make_env();
    deploy_staking(&mut env);
    let staker = generate(1);
    StakingContract::stake(&mut env, staker, 10_000).unwrap();
    set_ledger_ts(&mut env, 1_700_000_000 + 365 * DAY);
    let before = env.journal().len();
    assert_eq!(StakingContract::unstake(&mut env, staker, 11_201), Err(Error::InsufficientStake));
    assert_eq!(env.journal().len(), before);
    assert_eq!(
        env.stake_entry(&staker),
        Some(StakeEntry { balance: 10_000, staked_at: 1_700_000_000 })
    );
}

#[test]
fn get_stake_reads_the_balance_and_computes_no_reward() {
    let mut env = make_env();
    deploy_staking(&mut env);
    let staker = generate(1);
    StakingContract::stake(&mut env, staker, 1_000).unwrap();
    set_ledger_ts(&mut env, 1_700_000_000 + 5 * 365 * DAY);
    let before = env.journal().len();
    assert_eq!(StakingContract::get_stake(&env, staker), 1_000);
    assert_eq!(StakingContract::get_stake(&env, generate(2)), 0);
    assert_eq!(env.journal().len(), before);
}

#[test]
fn staking_needs_the_signature_of_the_staker() {
    let mut env = Ledger::new(custody());
    set_ledger_ts(&mut env, 1_700_000_000);
    deploy_staking(&mut env);
    let staker = generate(1);
    let other = generate(2);
    assert_eq!(StakingContract::stake(&mut env, staker, 500), Err(Error::Unauthorized));
    env.authorize(other);
    assert_eq!(StakingContract::stake(&mut env, staker, 500), Err(Error::Unauthorized));
    env.authorize(staker);
    assert_eq!(StakingContract::stake(&mut env, staker, 500), Ok(()));
    assert_eq!(StakingContract::stake(&mut env, other, 500), Ok(()));

    let mut fresh = Ledger::new(custody());
    deploy_staking(&mut fresh);
    fresh.set_stake(staker, StakeEntry { balance: 500, staked_at: 0 });
    assert_eq!(StakingContract::unstake(&mut fresh, staker, 100), Err(Error::Unauthorized));
    assert!(fresh.is_authorized(&staker) == false);
    fresh.mock_all_auths();
    assert!(fresh.is_authorized(&staker));
    assert_eq!(StakingContract::unstake(&mut fresh, staker, 100), Ok(()));
}

#[test]
fn staking_needs_a_configuration() {
    let mut env = make_env();
    let staker = generate(1);
    assert_eq!(StakingContract::stake(&mut env, staker, 500), Err(Error::NotInitialized));
    assert_eq!(StakingContract::unstake(&mut env, staker, 500), Err(Error::NotInitialized));
    assert!(env.journal().is_empty());
}

#[test]
fn a_window_that_starts_in_the_future_fails_the_operation() {
    let mut env = make_env();
    deploy_staking(&mut env);
    let staker = generate(1);
    StakingContract::stake(&mut env, staker, 1_000).unwrap();
    set_ledger_ts(&mut env, 1_699_999_999);
    assert_eq!(StakingContract::stake(&mut env, staker, 1_000), Err(Error::AccrualStartInFuture));
    assert_eq!(StakingContract::unstake(&mut env, staker, 1_000), Err(Error::AccrualStartInFuture));
    assert_eq!(StakingContract::get_stake(&env, staker), 1_000);
}

#[test]
fn a_total_beyond_the_integer_range_is_an_overflow() {
    let mut env = make_env();
    deploy_staking(&mut env);
    let staker = generate(1);
    env.set_stake(staker, StakeEntry { balance: i128::MAX - 50, staked_at: 1_700_000_000 });
    assert_eq!(StakingContract::stake(&mut env, staker, 100), Err(Error::Overflow));
    // the reward itself cannot be computed after ten years
    set_ledger_ts(&mut env, 1_700_000_000 + 10 * 365 * DAY);
    assert_eq!(StakingContract::unstake(&mut env, staker, 100), Err(Error::Overflow));
    // balance plus reward leaves the range
    let rich = generate(2);
    env.set_stake(rich, StakeEntry { balance: (i128::MAX / 10) * 9, staked_at: 1_700_000_000 });
    assert_eq!(StakingContract::unstake(&mut env, rich, 100), Err(Error::Overflow));
    assert_eq!(StakingContract::stake(&mut env, rich, 100), Err(Error::Overflow));
    assert_eq!(
        env.stake_entry(&rich),
        Some(StakeEntry { balance: (i128::MAX / 10) * 9, staked_at: 1_700_000_000 })
    );
}

#[test]
fn an_unstake_of_nothing_is_rejected_by_its_notification() {
    let mut env = make_env();
    deploy_staking(&mut env);
    let staker = generate(1);
    StakingContract::stake(&mut env, staker, 1_000).unwrap();
    let before = env.journal().len();
    assert_eq!(
        StakingContract::unstake(&mut env, staker, 0),
        Err(Error::InvalidEvent(EventFault::UnstakeAmountNotPositive))
    );
    assert_eq!(
        StakingContract::unstake(&mut env, staker, -5),
        Err(Error::InvalidEvent(EventFault::UnstakeAmountNotPositive))
    );
    assert_eq!(StakingContract::unstake(&mut env, staker, i128::MIN), Err(Error::Overflow));
    assert_eq!(env.journal().len(), before);
    assert_eq!(StakingContract::get_stake(&env, staker), 1_000);
}

#[test]
fn a_stake_that_its_notification_contradicts_is_rejected() {
    let mut env = make_env();
    let admin = generate(0xAD);
    let token = Address::contract(0, 0x70);
    // a configuration that was not set through `initialize`
    env.set_config(Config { admin, token, reward_rate: 1200, min_stake: -10 });
    let staker = generate(1);
    assert_eq!(
        StakingContract::stake(&mut env, staker, 0),
        Err(Error::InvalidEvent(EventFault::StakeAmountNotPositive))
    );
    assert_eq!(StakingContract::stake(&mut env, staker, -11), Err(Error::BelowMinimumStake));
    // a position that holds less than nothing
    env.set_stake(staker, StakeEntry { balance: -5, staked_at: 0 });
    assert_eq!(
        StakingContract::stake(&mut env, staker, 100),
        Err(Error::InvalidEvent(EventFault::TotalBelowAmount))
    );
    assert_eq!(env.stake_entry(&staker), Some(StakeEntry { balance: -5, staked_at: 0 }));
}
