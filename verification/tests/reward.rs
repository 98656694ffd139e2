use settlement_engine::error::Error;
use settlement_engine::reward::{BASIS_POINTS, SECONDS_PER_YEAR};
use settlement_engine::staking::{StakeEntry, StakingContract};

const DAY: u64 = 24 * 60 * 60;
const YEAR: u64 = 365 * DAY;

#[test]
fn a_year_is_365_days_and_the_scale_is_ten_thousand() {
    assert_eq!(SECONDS_PER_YEAR, 31_536_000);
    assert_eq!(SECONDS_PER_YEAR, YEAR);
    assert_eq!(BASIS_POINTS, 10_000);
}

#[test]
fn twelve_percent_of_ten_thousand_over_one_year_is_1200() {
    let start = 1_700_000_000;
    assert_eq!(StakingContract::compute_reward(10_000, start, start + YEAR, 1200), Ok(1200));
}

#[test]
fn reward_is_floored_once_at_the_end() {
    // 12_345 * 777 * 3 = 28_776_195, a ten-thousandth of which is 2877.6195
    assert_eq!(StakingContract::compute_reward(12_345, 0, 3 * YEAR, 777), Ok(2877));
    // 9_999 * 1 * 1 = 9_999: less than one unit
    assert_eq!(StakingContract::compute_reward(9_999, 0, YEAR, 1), Ok(0));
    assert_eq!(StakingContract::compute_reward(10_000, 0, YEAR, 1), Ok(1));
}

#[test]
fn only_completed_years_count() {
    assert_eq!(StakingContract::compute_reward(1_000, 0, 30 * DAY, 1200), Ok(0));
    assert_eq!(StakingContract::compute_reward(10_000, 0, YEAR - 1, 1200), Ok(0));
    assert_eq!(StakingContract::compute_reward(10_000, 0, YEAR, 1200), Ok(1200));
    assert_eq!(StakingContract::compute_reward(10_000, 0, 2 * YEAR - 1, 1200), Ok(1200));
    assert_eq!(StakingContract::compute_reward(10_000, 0, 2 * YEAR + 100, 1200), Ok(2400));
}

#[test]
fn nothing_is_earned_on_nothing_or_in_no_time() {
    assert_eq!(StakingContract::compute_reward(0, 0, 50 * YEAR, 1200), Ok(0));
    assert_eq!(StakingContract::compute_reward(0, 0, u64::MAX, u32::MAX), Ok(0));
    assert_eq!(StakingContract::compute_reward(1_000_000, 77, 77, 1200), Ok(0));
    assert_eq!(StakingContract::compute_reward(i128::MAX, u64::MAX, u64::MAX, u32::MAX), Ok(0));
    assert_eq!(StakingContract::compute_reward(1_000_000, 0, 10 * YEAR, 0), Ok(0));
}

#[test]
fn reward_grows_with_the_balance_and_with_time() {
    let mut last = 0;
    for years in 0..6u64 {
        let reward = StakingContract::compute_reward(50_000, 10, 10 + years * YEAR + 5, 1200);
        let reward = reward.unwrap();
        assert!(reward >= last);
        assert_eq!(reward, 6_000 * years as i128);
        last = reward;
    }
    let mut last = 0;
    for balance in [0i128, 1, 9_999, 10_000, 10_001, 1_000_000, 1 << 100] {
        let reward = StakingContract::compute_reward(balance, 0, 4 * YEAR, 250).unwrap();
        assert!(reward >= last);
        assert_eq!(reward, balance * 250 * 4 / 10_000);
        last = reward;
    }
}

#[test]
fn a_product_beyond_128_bits_is_an_overflow() {
    assert_eq!(
        StakingContract::compute_reward(i128::MAX, 0, 10 * YEAR, u32::MAX),
        Err(Error::Overflow)
    );
    // twice the largest balance still fits 128 unsigned bits; three times does not
    assert_eq!(
        StakingContract::compute_reward(i128::MAX, 0, YEAR, 2),
        Ok(((u128::MAX - 1) / 10_000) as i128)
    );
    assert_eq!(StakingContract::compute_reward(i128::MAX, 0, YEAR, 3), Err(Error::Overflow));
    assert_eq!(
        StakingContract::compute_reward(i128::MAX, 0, 2 * YEAR, 1),
        Ok(((u128::MAX - 1) / 10_000) as i128)
    );
    assert_eq!(StakingContract::compute_reward(i128::MAX, 0, 3 * YEAR, 1), Err(Error::Overflow));
}

#[test]
fn a_position_accrues_what_the_calculator_answers() {
    let entry = StakeEntry { balance: 10_000, staked_at: 1_000 };
    assert_eq!(entry.accrued(1_000 + YEAR, 1200), Ok(1200));
    assert_eq!(entry.accrued(1_000, 1200), Ok(0));
    assert_eq!(entry.accrued(999, 1200), Err(Error::AccrualStartInFuture));
    let empty = StakeEntry { balance: 0, staked_at: 5_000 };
    assert_eq!(empty.accrued(10, 1200), Ok(0));
    let negative = StakeEntry { balance: -1, staked_at: 0 };
    assert_eq!(negative.accrued(10 * YEAR, 1200), Ok(0));
    let huge = StakeEntry { balance: i128::MAX, staked_at: 0 };
    assert_eq!(huge.accrued(5 * YEAR, 1200), Err(Error::Overflow));
}
