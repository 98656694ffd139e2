//! Stake positions: setting the configuration, staking, unstaking, and the
//! reward calculator they share.
//!
//! A position's accrual window starts anew whenever its balance changes, so
//! reward is always counted over the time since the last change, and never
//! twice.

use vstd::prelude::*;
use crate::address::Address;
use crate::error::Error;
use crate::events::{
    InitializeEventData, StakeEventData, UnstakeEventData, emit_initialize, emit_stake,
    emit_unstake, validate_initialize_event, validate_stake_event, validate_unstake_event,
};
use crate::ledger::{Effect, Ledger, LedgerView, Transfer, carried_out, same_record, stake_key};
use crate::reward::{
    BASIS_POINTS, SECONDS_PER_YEAR, lemma_numerator_shape, lemma_reward_in_range,
    lemma_reward_zero, reward_outcome,
};

verus! {

/// The keys of the staking records.
#[derive(Clone, Copy, Debug, PartialEq, Eq, Structural)]
pub enum StakingKey {
    /// The configuration.
    Config,
    /// The stake position of an account.
    StakeEntry(Address),
}

/// The configuration: set once, read by every operation that needs it.
#[derive(Clone, Copy, Debug, PartialEq, Eq, Structural)]
pub struct Config {
    /// Who may settle batches.
    pub admin: Address,
    /// The token that stakes and escrows are held in.
    pub token: Address,
    /// The reward rate, in basis points per year.
    pub reward_rate: u32,
    /// The least amount one stake may add.
    pub min_stake: i128,
}

/// The stake position of one account.
#[derive(Clone, Copy, Debug, PartialEq, Eq, Structural)]
pub struct StakeEntry {
    /// What the account has staked, rewards folded in.
    pub balance: i128,
    /// When the current accrual window began.
    pub staked_at: u64,
}

impl StakeEntry {
    /// The reward this position has earned at `now`: none on an empty
    /// position, `AccrualStartInFuture` where the window starts after `now`,
    /// else what the calculator answers.
    pub open spec fn pending_reward(self, now: u64, rate: u32) -> Result<i128, Error> {
        if self.balance <= 0 {
            Ok(0)
        } else if self.staked_at > now {
            Err(Error::AccrualStartInFuture)
        } else {
            reward_outcome(self.balance as int, now - self.staked_at, rate as int)
        }
    }

    /// The reward this position has earned at `now`.
    pub fn accrued(&self, now: u64, rate: u32) -> (r: Result<i128, Error>)
        ensures
            r == self.pending_reward(now, rate),
            r matches Ok(reward) ==> reward >= 0,
    {
        if self.balance <= 0 {
            Ok(0)
        } else if self.staked_at > now {
            Err(Error::AccrualStartInFuture)
        } else {
            proof {
                if reward_outcome(self.balance as int, now - self.staked_at, rate as int) is Ok {
                    lemma_reward_in_range(self.balance as int, now - self.staked_at, rate as int);
                }
            }
            StakingContract::compute_reward(self.balance, self.staked_at, now, rate)
        }
    }
}

impl LedgerView {
    /// The stake position of `owner`: the stored one or, where none is
    /// stored, an empty one that starts now.
    pub open spec fn position(self, owner: Address) -> StakeEntry {
        if self.stakes.contains_key(owner) {
            self.stakes[owner]
        } else {
            StakeEntry { balance: 0, staked_at: self.timestamp }
        }
    }
}

/// The staking operations.
pub struct StakingContract;

impl StakingContract {
    /// The reward that `balance` has earned at `rate` between `staked_at` and
    /// `now`, or `Overflow` where the intermediate product does not fit.
    pub fn compute_reward(balance: i128, staked_at: u64, now: u64, rate: u32) -> (r: Result<
        i128,
        Error,
    >)
        requires
            balance >= 0,
            staked_at <= now,
        ensures
            r == reward_outcome(balance as int, now - staked_at, rate as int),
    {
        let elapsed: u64 = now - staked_at;
        proof {
            lemma_numerator_shape(balance as int, elapsed as int, rate as int);
            lemma_reward_zero(balance as int, elapsed as int, rate as int);
        }
        if balance == 0 {
            return Ok(0);
        }
        let years: u64 = elapsed / SECONDS_PER_YEAR;
        assert(rate as int * years as int <= 0x1_0000_0000 * 0x1_0000_0000_0000_0000)
            by (nonlinear_arith)
            requires
                0 <= rate as int <= 0x1_0000_0000,
                0 <= years as int <= 0x1_0000_0000_0000_0000,
        ;
        let rate_years: u128 = (rate as u128) * (years as u128);
        match (balance as u128).checked_mul(rate_years) {
            None => Err(Error::Overflow),
            Some(numerator) => {
                let reward: u128 = numerator / BASIS_POINTS;
                Ok(reward as i128)
            },
        }
    }

    /// What `initialize` does to the ledger `s`.
    ///
    /// It fails with `AlreadyInitialized` where a configuration is set, and
    /// with the payload's fault where the rate or the minimum stake is not
    /// positive. Else it writes the configuration and publishes it.
    pub open spec fn initialize_outcome(
        s: LedgerView,
        admin: Address,
        token: Address,
        reward_rate: u32,
        min_stake: i128,
    ) -> Result<LedgerView, Error> {
        let data = InitializeEventData { admin, reward_rate, min_stake, timestamp: s.timestamp };
        if s.config is Some {
            Err(Error::AlreadyInitialized)
        } else if data.fault() is Some {
            Err(Error::InvalidEvent(data.fault().unwrap()))
        } else {
            Ok(
                s.set_config(Config { admin, token, reward_rate, min_stake }).publish(
                    data.notification(),
                ),
            )
        }
    }

    /// Sets the configuration, once.
    pub fn initialize(
        ledger: &mut Ledger,
        admin: Address,
        token: Address,
        reward_rate: u32,
        min_stake: i128,
    ) -> (r: Result<(), Error>)
        ensures
            carried_out(
                Self::initialize_outcome(old(ledger)@, admin, token, reward_rate, min_stake),
                old(ledger)@,
                final(ledger)@,
                r,
            ),
    {
        if ledger.config().is_some() {
            return Err(Error::AlreadyInitialized);
        }
        let data = InitializeEventData {
            admin,
            reward_rate,
            min_stake,
            timestamp: ledger.timestamp(),
        };
        match validate_initialize_event(&data) {
            Err(e) => {
                return Err(e);
            },
            Ok(()) => {},
        }
        ledger.set_config(Config { admin, token, reward_rate, min_stake });
        emit_initialize(ledger, data)
    }

    /// The configuration, or `NotInitialized` where none is set.
    pub fn get_config(ledger: &Ledger) -> (r: Result<Config, Error>)
        ensures
            r == (match ledger@.config {
                Some(config) => Ok::<Config, Error>(config),
                None => Err(Error::NotInitialized),
            }),
    {
        match ledger.config() {
            Some(config) => Ok(config),
            None => Err(Error::NotInitialized),
        }
    }

    /// What `stake` does to the ledger `s`.
    ///
    /// It fails, in this order: with `Unauthorized` where `staker` has not
    /// signed; with `NotInitialized` where no configuration is set; with
    /// `BelowMinimumStake` where `amount` is under the minimum; with the
    /// calculator's error; with `Overflow` where the new total does not fit;
    /// with the payload's fault. Else the reward earned so far and `amount`
    /// are added to the balance, the window starts anew, `amount` moves from
    /// the staker into custody, and the new total is published.
    pub open spec fn stake_outcome(s: LedgerView, staker: Address, amount: i128) -> Result<
        LedgerView,
        Error,
    > {
        if !s.authorizes(staker) {
            Err(Error::Unauthorized)
        } else if s.config is None {
            Err(Error::NotInitialized)
        } else {
            let config = s.config->Some_0;
            let entry = s.position(staker);
            if amount < config.min_stake {
                Err(Error::BelowMinimumStake)
            } else {
                match entry.pending_reward(s.timestamp, config.reward_rate) {
                    Err(e) => Err(e),
                    Ok(reward) => {
                        let folded = entry.balance + reward;
                        let total = folded + amount;
                        let data = StakeEventData {
                            staker,
                            amount,
                            total: total as i128,
                            timestamp: s.timestamp,
                        };
                        if folded > i128::MAX || total > i128::MAX || total < i128::MIN {
                            Err(Error::Overflow)
                        } else if data.fault() is Some {
                            Err(Error::InvalidEvent(data.fault().unwrap()))
                        } else {
                            Ok(
                                s.transfer(
                                    Transfer {
                                        token: config.token,
                                        from: staker,
                                        to: s.contract,
                                        amount,
                                    },
                                ).set_stake(
                                    staker,
                                    StakeEntry { balance: total as i128, staked_at: s.timestamp },
                                ).publish(data.notification()),
                            )
                        }
                    },
                }
            }
        }
    }

    /// Adds `amount` to the stake of `staker`.
    pub fn stake(ledger: &mut Ledger, staker: Address, amount: i128) -> (r: Result<(), Error>)
        ensures
            carried_out(
                Self::stake_outcome(old(ledger)@, staker, amount),
                old(ledger)@,
                final(ledger)@,
                r,
            ),
    {
        if !ledger.is_authorized(&staker) {
            return Err(Error::Unauthorized);
        }
        let config = match ledger.config() {
            Some(config) => config,
            None => {
                return Err(Error::NotInitialized);
            },
        };
        if amount < config.min_stake {
            return Err(Error::BelowMinimumStake);
        }
        let now = ledger.timestamp();
        let entry = match ledger.stake_entry(&staker) {
            Some(entry) => entry,
            None => StakeEntry { balance: 0, staked_at: now },
        };
        let reward = match entry.accrued(now, config.reward_rate) {
            Ok(reward) => reward,
            Err(e) => {
                return Err(e);
            },
        };
        let folded = match entry.balance.checked_add(reward) {
            Some(folded) => folded,
            None => {
                return Err(Error::Overflow);
            },
        };
        let total = match folded.checked_add(amount) {
            Some(total) => total,
            None => {
                return Err(Error::Overflow);
            },
        };
        let data = StakeEventData { staker, amount, total, timestamp: now };
        match validate_stake_event(&data) {
            Err(e) => {
                return Err(e);
            },
            Ok(()) => {},
        }
        let custody = ledger.current_contract_address();
        ledger.transfer(config.token, staker, custody, amount);
        ledger.set_stake(staker, StakeEntry { balance: total, staked_at: now });
        emit_stake(ledger, data)
    }

    /// What `unstake` does to the ledger `s`.
    ///
    /// It fails, in this order: with `Unauthorized` where `staker` has not
    /// signed; with `NotInitialized` where no configuration is set; with
    /// `NoStake` where the account has no position; with the calculator's
    /// error; with `Overflow` where the balance with its reward does not fit;
    /// with `InsufficientStake` where `amount` is more than that; with
    /// `Overflow` where the remainder does not fit; with the payload's fault.
    /// Else the reward is added to the balance and `amount` taken from it, the
    /// window starts anew, a position left empty is removed, `amount` moves
    /// out of custody to the staker, and the result is published.
    pub open spec fn unstake_outcome(s: LedgerView, staker: Address, amount: i128) -> Result<
        LedgerView,
        Error,
    > {
        if !s.authorizes(staker) {
            Err(Error::Unauthorized)
        } else if s.config is None {
            Err(Error::NotInitialized)
        } else if !s.stakes.contains_key(staker) {
            Err(Error::NoStake)
        } else {
            let config = s.config->Some_0;
            let entry = s.stakes[staker];
            match entry.pending_reward(s.timestamp, config.reward_rate) {
                Err(e) => Err(e),
                Ok(reward) => {
                    let available = entry.balance + reward;
                    let remaining = available - amount;
                    let data = UnstakeEventData {
                        staker,
                        amount,
                        reward,
                        remaining: remaining as i128,
                        timestamp: s.timestamp,
                    };
                    if available > i128::MAX {
                        Err(Error::Overflow)
                    } else if amount > available {
                        Err(Error::InsufficientStake)
                    } else if remaining > i128::MAX {
                        Err(Error::Overflow)
                    } else if data.fault() is Some {
                        Err(Error::InvalidEvent(data.fault().unwrap()))
                    } else {
                        let settled = if remaining == 0 {
                            s.remove_stake(staker)
                        } else {
                            s.set_stake(
                                staker,
                                StakeEntry { balance: remaining as i128, staked_at: s.timestamp },
                            )
                        };
                        Ok(
                            settled.transfer(
                                Transfer {
                                    token: config.token,
                                    from: s.contract,
                                    to: staker,
                                    amount,
                                },
                            ).publish(data.notification()),
                        )
                    }
                },
            }
        }
    }

    /// Takes `amount` out of the stake of `staker`.
    pub fn unstake(ledger: &mut Ledger, staker: Address, amount: i128) -> (r: Result<(), Error>)
        ensures
            carried_out(
                Self::unstake_outcome(old(ledger)@, staker, amount),
                old(ledger)@,
                final(ledger)@,
                r,
            ),
    {
        if !ledger.is_authorized(&staker) {
            return Err(Error::Unauthorized);
        }
        let config = match ledger.config() {
            Some(config) => config,
            None => {
                return Err(Error::NotInitialized);
            },
        };
        let entry = match ledger.stake_entry(&staker) {
            Some(entry) => entry,
            None => {
                return Err(Error::NoStake);
            },
        };
        let now = ledger.timestamp();
        let reward = match entry.accrued(now, config.reward_rate) {
            Ok(reward) => reward,
            Err(e) => {
                return Err(e);
            },
        };
        let available = match entry.balance.checked_add(reward) {
            Some(available) => available,
            None => {
                return Err(Error::Overflow);
            },
        };
        if amount > available {
            return Err(Error::InsufficientStake);
        }
        let remaining = match available.checked_sub(amount) {
            Some(remaining) => remaining,
            None => {
                return Err(Error::Overflow);
            },
        };
        let data = UnstakeEventData { staker, amount, reward, remaining, timestamp: now };
        match validate_unstake_event(&data) {
            Err(e) => {
                return Err(e);
            },
            Ok(()) => {},
        }
        if remaining == 0 {
            ledger.remove_stake(&staker);
        } else {
            ledger.set_stake(staker, StakeEntry { balance: remaining, staked_at: now });
        }
        let custody = ledger.current_contract_address();
        ledger.transfer(config.token, custody, staker, amount);
        emit_unstake(ledger, data)
    }

    /// The staked balance of `staker`, with no reward computed: 0 where the
    /// account has no position.
    pub fn get_stake(ledger: &Ledger, staker: Address) -> (balance: i128)
        ensures
            balance == (if ledger@.stakes.contains_key(staker) {
                ledger@.stakes[staker].balance
            } else {
                0
            }),
    {
        match ledger.stake_entry(&staker) {
            Some(entry) => entry.balance,
            None => 0,
        }
    }
}

/// The configuration is set once: after an initialization, whose rate and
/// minimum stake are positive, every further one fails.
pub proof fn lemma_initialize_once(
    s: LedgerView,
    admin: Address,
    token: Address,
    reward_rate: u32,
    min_stake: i128,
    later: u64,
    second_admin: Address,
    second_token: Address,
    second_rate: u32,
    second_min_stake: i128,
)
    requires
        StakingContract::initialize_outcome(s, admin, token, reward_rate, min_stake) is Ok,
    ensures
        reward_rate > 0,
        min_stake > 0,
        StakingContract::initialize_outcome(
            StakingContract::initialize_outcome(s, admin, token, reward_rate, min_stake)->Ok_0.at(
                later,
            ),
            second_admin,
            second_token,
            second_rate,
            second_min_stake,
        ) == Err::<LedgerView, Error>(Error::AlreadyInitialized),
{
}

/// A stake leaves a position that holds at least the amount staked, which is
/// positive, and whose accrual window starts now, so that no reward is
/// counted twice: right after the stake nothing is pending. It asks for one
/// transfer, makes one write and publishes one notification, in this order.
pub proof fn lemma_stake_effects(s: LedgerView, staker: Address, amount: i128)
    requires
        StakingContract::stake_outcome(s, staker, amount) is Ok,
    ensures
        ({
            let staked = StakingContract::stake_outcome(s, staker, amount)->Ok_0;
            let entry = staked.stakes[staker];
            &&& staked.stakes.contains_key(staker)
            &&& 0 < amount <= entry.balance
            &&& entry.staked_at == s.timestamp
            &&& entry.pending_reward(s.timestamp, s.config->Some_0.reward_rate) == Ok::<
                i128,
                Error,
            >(0)
            &&& staked.journal == s.journal.push(
                Effect::Transfer(
                    Transfer {
                        token: s.config->Some_0.token,
                        from: staker,
                        to: s.contract,
                        amount,
                    },
                ),
            ).push(Effect::Write(stake_key(staker))).push(
                Effect::Notify(
                    StakeEventData {
                        staker,
                        amount,
                        total: entry.balance,
                        timestamp: s.timestamp,
                    }.notification(),
                ),
            )
        }),
{
    let staked = StakingContract::stake_outcome(s, staker, amount)->Ok_0;
    lemma_reward_zero(staked.stakes[staker].balance as int, 0, s.config->Some_0.reward_rate as int);
}

/// An unstake leaves no empty position behind: the position is removed where
/// nothing remains, and otherwise holds a positive balance on which, its
/// window starting now, nothing is pending. It writes or removes the record
/// once, then asks for one transfer of the amount out of custody, then
/// publishes one notification.
pub proof fn lemma_unstake_effects(s: LedgerView, staker: Address, amount: i128)
    requires
        StakingContract::unstake_outcome(s, staker, amount) is Ok,
    ensures
        ({
            let unstaked = StakingContract::unstake_outcome(s, staker, amount)->Ok_0;
            &&& amount > 0
            &&& (unstaked.stakes.contains_key(staker) ==> {
                &&& unstaked.stakes[staker].balance > 0
                &&& unstaked.stakes[staker].staked_at == s.timestamp
                &&& unstaked.stakes[staker].pending_reward(
                    s.timestamp,
                    s.config->Some_0.reward_rate,
                ) == Ok::<i128, Error>(0)
            })
            &&& unstaked.journal.len() == s.journal.len() + 3
            &&& unstaked.journal.take(s.journal.len() as int) == s.journal
            &&& unstaked.journal[s.journal.len() as int] == (if unstaked.stakes.contains_key(
                staker,
            ) {
                Effect::Write(stake_key(staker))
            } else {
                Effect::Remove(stake_key(staker))
            })
            &&& unstaked.journal[s.journal.len() as int + 1] == Effect::Transfer(
                Transfer {
                    token: s.config->Some_0.token,
                    from: s.contract,
                    to: staker,
                    amount,
                },
            )
            &&& unstaked.journal[s.journal.len() as int + 2] is Notify
        }),
{
    let unstaked = StakingContract::unstake_outcome(s, staker, amount)->Ok_0;
    if unstaked.stakes.contains_key(staker) {
        lemma_reward_zero(
            unstaked.stakes[staker].balance as int,
            0,
            s.config->Some_0.reward_rate as int,
        );
    }
}

/// A stake reads and writes no record but the staker's own: on two ledgers
/// that agree on the clock, the custody account, the configuration, the
/// staker's signature and the staker's position, it answers the same, writes
/// the same position, journals the same, and leaves every other record of
/// either ledger as it was.
pub proof fn lemma_stake_is_local(a: LedgerView, b: LedgerView, staker: Address, amount: i128)
    requires
        a.same_setting(b),
        a.authorizes(staker) == b.authorizes(staker),
        same_record(a.stakes, b.stakes, staker),
    ensures
        (match (
            StakingContract::stake_outcome(a, staker, amount),
            StakingContract::stake_outcome(b, staker, amount),
        ) {
            (Ok(x), Ok(y)) => {
                &&& x.stakes.contains_key(staker)
                &&& x.stakes == a.stakes.insert(staker, x.stakes[staker])
                &&& y.stakes == b.stakes.insert(staker, x.stakes[staker])
                &&& x.journal_since(a) == y.journal_since(b)
                &&& x == (LedgerView { stakes: x.stakes, journal: x.journal, ..a })
                &&& y == (LedgerView { stakes: y.stakes, journal: y.journal, ..b })
            },
            (Err(e), Err(f)) => e == f,
            _ => false,
        }),
{
    match (
        StakingContract::stake_outcome(a, staker, amount),
        StakingContract::stake_outcome(b, staker, amount),
    ) {
        (Ok(x), Ok(y)) => {
            assert(x.journal_since(a) =~= y.journal_since(b));
        },
        _ => {},
    }
}

/// An unstake reads and writes no record but the staker's own: on two ledgers
/// that agree on the clock, the custody account, the configuration, the
/// staker's signature and the staker's position, it answers the same, leaves
/// the same position or none, journals the same, and leaves every other
/// record of either ledger as it was.
pub proof fn lemma_unstake_is_local(a: LedgerView, b: LedgerView, staker: Address, amount: i128)
    requires
        a.same_setting(b),
        a.authorizes(staker) == b.authorizes(staker),
        same_record(a.stakes, b.stakes, staker),
    ensures
        (match (
            StakingContract::unstake_outcome(a, staker, amount),
            StakingContract::unstake_outcome(b, staker, amount),
        ) {
            (Ok(x), Ok(y)) => {
                &&& same_record(x.stakes, y.stakes, staker)
                &&& x.stakes.remove(staker) == a.stakes.remove(staker)
                &&& y.stakes.remove(staker) == b.stakes.remove(staker)
                &&& x.journal_since(a) == y.journal_since(b)
                &&& x == (LedgerView { stakes: x.stakes, journal: x.journal, ..a })
                &&& y == (LedgerView { stakes: y.stakes, journal: y.journal, ..b })
            },
            (Err(e), Err(f)) => e == f,
            _ => false,
        }),
{
    match (
        StakingContract::unstake_outcome(a, staker, amount),
        StakingContract::unstake_outcome(b, staker, amount),
    ) {
        (Ok(x), Ok(y)) => {
            assert(x.journal_since(a) =~= y.journal_since(b));
            assert(x.stakes.remove(staker) =~= a.stakes.remove(staker));
            assert(y.stakes.remove(staker) =~= b.stakes.remove(staker));
        },
        _ => {},
    }
}

} // verus!
