//! Batch settlement: rewards credited to many accounts in one operation, with
//! one summary notification.
//!
//! The accounts are settled in the order given. Each one is read once and, if
//! it is credited, written once. An account that is named twice is settled
//! twice: the second time on the position the first left.

use vstd::prelude::*;
use crate::address::Address;
use crate::error::Error;
use crate::events::{BatchRewardEventData, emit_batch_reward};
use crate::ledger::{
    Ledger, LedgerView, carried_out, lemma_count_pushed, notifications, same_record, writes,
};
use crate::staking::StakeEntry;

verus! {

/// An account and the bonus to credit it on top of its accrued reward.
#[derive(Clone, Copy, Debug, PartialEq, Eq, Structural)]
pub struct RewardRecipient {
    pub staker: Address,
    /// Extra amount to credit; 0 for none.
    pub bonus_amount: i128,
}

/// What settling one account comes to.
#[derive(Clone, Copy, Debug, PartialEq, Eq, Structural)]
pub enum Settlement {
    /// Nothing is credited and nothing written.
    Skipped,
    /// `credit` is added to the balance; `entry` is the position to write.
    Credited { entry: StakeEntry, credit: i128 },
}

/// What settling the position `entry` with `bonus` comes to.
///
/// An empty position with no bonus is skipped, before anything is computed.
/// Else the credit is the accrued reward plus the bonus. A credit that is
/// not positive is skipped. A positive one is added to the balance, and the
/// accrual window starts anew. A credit or a balance that does not fit is an
/// `Overflow`.
pub open spec fn settle(entry: StakeEntry, bonus: i128, now: u64, rate: u32) -> Result<
    Settlement,
    Error,
> {
    if entry.balance == 0 && bonus == 0 {
        Ok(Settlement::Skipped)
    } else {
        match entry.pending_reward(now, rate) {
            Err(e) => Err(e),
            Ok(reward) => {
                let credit = reward + bonus;
                if credit > i128::MAX {
                    Err(Error::Overflow)
                } else if credit <= 0 {
                    Ok(Settlement::Skipped)
                } else if entry.balance + credit > i128::MAX {
                    Err(Error::Overflow)
                } else {
                    Ok(
                        Settlement::Credited {
                            entry: StakeEntry {
                                balance: (entry.balance + credit) as i128,
                                staked_at: now,
                            },
                            credit: credit as i128,
                        },
                    )
                }
            },
        }
    }
}

/// Settles one position in memory.
pub fn settle_account(entry: StakeEntry, bonus: i128, now: u64, rate: u32) -> (r: Result<
    Settlement,
    Error,
>)
    ensures
        r == settle(entry, bonus, now, rate),
        r matches Ok(Settlement::Credited { entry: written, credit }) ==> credit > 0,
{
    if entry.balance == 0 && bonus == 0 {
        return Ok(Settlement::Skipped);
    }
    let reward = match entry.accrued(now, rate) {
        Ok(reward) => reward,
        Err(e) => {
            return Err(e);
        },
    };
    let credit = match reward.checked_add(bonus) {
        Some(credit) => credit,
        None => {
            return Err(Error::Overflow);
        },
    };
    if credit <= 0 {
        return Ok(Settlement::Skipped);
    }
    match entry.balance.checked_add(credit) {
        Some(balance) => Ok(
            Settlement::Credited { entry: StakeEntry { balance, staked_at: now }, credit },
        ),
        None => Err(Error::Overflow),
    }
}

/// A settlement credits a positive amount, adds exactly that to the balance,
/// and starts the accrual window anew, so that no reward is counted twice:
/// on the position it writes, nothing is pending at that time. It writes no
/// empty position where it found none below zero.
pub proof fn lemma_settlement_credits(entry: StakeEntry, bonus: i128, now: u64, rate: u32)
    requires
        settle(entry, bonus, now, rate) matches Ok(Settlement::Credited { .. }),
    ensures
        ({
            let written = settle(entry, bonus, now, rate)->Ok_0->entry;
            let credit = settle(entry, bonus, now, rate)->Ok_0->credit;
            &&& credit > 0
            &&& entry.pending_reward(now, rate) is Ok
            &&& credit == entry.pending_reward(now, rate)->Ok_0 + bonus
            &&& written.balance == entry.balance + credit
            &&& written.staked_at == now
            &&& written.pending_reward(now, rate) == Ok::<i128, Error>(0)
            &&& (entry.balance >= 0 ==> written.balance > 0)
        }),
{
    let written = settle(entry, bonus, now, rate)->Ok_0->entry;
    crate::reward::lemma_reward_zero(written.balance as int, 0, rate as int);
}

/// How far a batch has come: the ledger as the accounts settled so far left
/// it, what they were credited in sum, and how many of them were credited.
pub struct BatchProgress {
    pub ledger: LedgerView,
    pub total: i128,
    pub count: u32,
}

impl BatchProgress {
    /// The start of a batch on the ledger `s`.
    pub open spec fn start(s: LedgerView) -> BatchProgress {
        BatchProgress { ledger: s, total: 0, count: 0 }
    }

    /// The summary of the batch.
    pub open spec fn summary(self) -> BatchRewardEventData {
        BatchRewardEventData {
            recipients: self.count,
            total_rewards: self.total,
            timestamp: self.ledger.timestamp,
        }
    }
}

/// The batch after one more account: `staker` is settled with `bonus` on the
/// position the ledger holds for it. A credited account is written and
/// counted, and its credit added to the total; a total or a count that does
/// not fit is an `Overflow`.
pub open spec fn batch_step(p: BatchProgress, staker: Address, bonus: i128, rate: u32) -> Result<
    BatchProgress,
    Error,
> {
    match settle(p.ledger.position(staker), bonus, p.ledger.timestamp, rate) {
        Err(e) => Err(e),
        Ok(Settlement::Skipped) => Ok(p),
        Ok(Settlement::Credited { entry, credit }) => {
            if p.total + credit > i128::MAX || p.count + 1 > u32::MAX {
                Err(Error::Overflow)
            } else {
                Ok(
                    BatchProgress {
                        ledger: p.ledger.set_stake(staker, entry),
                        total: (p.total + credit) as i128,
                        count: (p.count + 1) as u32,
                    },
                )
            }
        },
    }
}

/// The batch after the accounts of `stakers`, in order, each with the bonus
/// at its place in `bonuses`. The first failure ends the batch.
pub open spec fn batch_fold(
    p: BatchProgress,
    stakers: Seq<Address>,
    bonuses: Seq<i128>,
    rate: u32,
) -> Result<BatchProgress, Error>
    decreases stakers.len(),
{
    if stakers.len() == 0 {
        Ok(p)
    } else {
        match batch_fold(p, stakers.drop_last(), bonuses.drop_last(), rate) {
            Err(e) => Err(e),
            Ok(q) => batch_step(q, stakers.last(), bonuses[stakers.len() - 1], rate),
        }
    }
}

/// A batch that has failed after some accounts fails the same way after more.
pub proof fn lemma_failure_is_final(
    p: BatchProgress,
    stakers: Seq<Address>,
    bonuses: Seq<i128>,
    rate: u32,
    n: int,
)
    requires
        0 <= n <= stakers.len(),
        stakers.len() == bonuses.len(),
        batch_fold(p, stakers.take(n), bonuses.take(n), rate) is Err,
    ensures
        batch_fold(p, stakers, bonuses, rate) == batch_fold(
            p,
            stakers.take(n),
            bonuses.take(n),
            rate,
        ),
    decreases stakers.len() - n,
{
    if n == stakers.len() {
        assert(stakers.take(n) =~= stakers);
        assert(bonuses.take(n) =~= bonuses);
    } else {
        assert(stakers.take(n + 1).drop_last() =~= stakers.take(n));
        assert(bonuses.take(n + 1).drop_last() =~= bonuses.take(n));
        lemma_failure_is_final(p, stakers, bonuses, rate, n + 1);
    }
}

/// The previewed rewards of the accounts of `stakers`, in order: for each the
/// reward accrued on the position the ledger holds for it. The first failure
/// ends the preview.
pub open spec fn preview_fold(s: LedgerView, stakers: Seq<Address>, rate: u32) -> Result<
    Seq<i128>,
    Error,
>
    decreases stakers.len(),
{
    if stakers.len() == 0 {
        Ok(Seq::empty())
    } else {
        match preview_fold(s, stakers.drop_last(), rate) {
            Err(e) => Err(e),
            Ok(rewards) => match s.position(stakers.last()).pending_reward(s.timestamp, rate) {
                Err(e) => Err(e),
                Ok(reward) => Ok(rewards.push(reward)),
            },
        }
    }
}

/// A preview that has failed after some accounts fails the same way after
/// more.
pub proof fn lemma_preview_failure_is_final(
    s: LedgerView,
    stakers: Seq<Address>,
    rate: u32,
    n: int,
)
    requires
        0 <= n <= stakers.len(),
        preview_fold(s, stakers.take(n), rate) is Err,
    ensures
        preview_fold(s, stakers, rate) == preview_fold(s, stakers.take(n), rate),
    decreases stakers.len() - n,
{
    if n == stakers.len() {
        assert(stakers.take(n) =~= stakers);
    } else {
        assert(stakers.take(n + 1).drop_last() =~= stakers.take(n));
        lemma_preview_failure_is_final(s, stakers, rate, n + 1);
    }
}

/// What account `i` of the batch comes to: it is settled on the position that
/// the accounts before it left.
pub open spec fn outcome_at(
    p: BatchProgress,
    stakers: Seq<Address>,
    bonuses: Seq<i128>,
    rate: u32,
    i: int,
) -> Result<Settlement, Error> {
    match batch_fold(p, stakers.take(i), bonuses.take(i), rate) {
        Err(e) => Err(e),
        Ok(q) => settle(q.ledger.position(stakers[i]), bonuses[i], q.ledger.timestamp, rate),
    }
}

/// How many of the first `n` accounts of the batch are credited.
pub open spec fn credited_among(
    p: BatchProgress,
    stakers: Seq<Address>,
    bonuses: Seq<i128>,
    rate: u32,
    n: int,
) -> nat
    decreases n,
{
    if n <= 0 {
        0
    } else {
        credited_among(p, stakers, bonuses, rate, n - 1) + if outcome_at(
            p,
            stakers,
            bonuses,
            rate,
            n - 1,
        ) matches Ok(Settlement::Credited { .. }) {
            1nat
        } else {
            0nat
        }
    }
}

/// A batch of N accounts of which M are credited makes exactly M writes and
/// no notification while it runs, counts M recipients, and leaves all but the
/// stake positions and the journal as they were.
pub proof fn lemma_batch_accounting(
    p: BatchProgress,
    stakers: Seq<Address>,
    bonuses: Seq<i128>,
    rate: u32,
    n: int,
)
    requires
        0 <= n <= stakers.len(),
        stakers.len() == bonuses.len(),
        batch_fold(p, stakers.take(n), bonuses.take(n), rate) is Ok,
    ensures
        ({
            let q = batch_fold(p, stakers.take(n), bonuses.take(n), rate)->Ok_0;
            let credited = credited_among(p, stakers, bonuses, rate, n);
            &&& credited <= n
            &&& q.count == p.count + credited
            &&& q.total >= p.total
            &&& (credited > 0 ==> q.total > p.total)
            &&& (credited == 0 ==> q.total == p.total)
            &&& writes(q.ledger.journal) == writes(p.ledger.journal) + credited
            &&& notifications(q.ledger.journal) == notifications(p.ledger.journal)
            &&& q.ledger.journal.len() == p.ledger.journal.len() + credited
            &&& q.ledger == (LedgerView {
                stakes: q.ledger.stakes,
                journal: q.ledger.journal,
                ..p.ledger
            })
        }),
    decreases n,
{
    if n == 0 {
        assert(stakers.take(0).len() == 0);
    } else {
        assert(stakers.take(n).drop_last() =~= stakers.take(n - 1));
        assert(bonuses.take(n).drop_last() =~= bonuses.take(n - 1));
        assert(stakers.take(n).last() == stakers[n - 1]);
        assert(bonuses.take(n)[stakers.take(n).len() - 1] == bonuses[n - 1]);
        let before = batch_fold(p, stakers.take(n - 1), bonuses.take(n - 1), rate);
        assert(before is Ok);
        lemma_batch_accounting(p, stakers, bonuses, rate, n - 1);
        let mid = before->Ok_0;
        let q = batch_fold(p, stakers.take(n), bonuses.take(n), rate)->Ok_0;
        assert(batch_step(mid, stakers[n - 1], bonuses[n - 1], rate) == Ok::<
            BatchProgress,
            Error,
        >(q));
        let outcome = settle(
            mid.ledger.position(stakers[n - 1]),
            bonuses[n - 1],
            mid.ledger.timestamp,
            rate,
        );
        assert(outcome == outcome_at(p, stakers, bonuses, rate, n - 1));
        match outcome {
            Ok(Settlement::Credited { entry, credit }) => {
                lemma_count_pushed(
                    mid.ledger.journal,
                    crate::ledger::Effect::Write(crate::ledger::stake_key(stakers[n - 1])),
                );
                assert(credit > 0);
            },
            _ => {},
        }
    }
}

/// A batch leaves the position of an account that it does not name as it was.
pub proof fn lemma_batch_leaves_others(
    p: BatchProgress,
    stakers: Seq<Address>,
    bonuses: Seq<i128>,
    rate: u32,
    other: Address,
)
    requires
        stakers.len() == bonuses.len(),
        batch_fold(p, stakers, bonuses, rate) is Ok,
        !stakers.contains(other),
    ensures
        ({
            let q = batch_fold(p, stakers, bonuses, rate)->Ok_0;
            &&& q.ledger.timestamp == p.ledger.timestamp
            &&& q.ledger.position(other) == p.ledger.position(other)
            &&& q.ledger.stakes.contains_key(other) == p.ledger.stakes.contains_key(other)
        }),
    decreases stakers.len(),
{
    if stakers.len() > 0 {
        let head = stakers.drop_last();
        let head_bonuses = bonuses.drop_last();
        assert(!head.contains(other)) by {
            if head.contains(other) {
                let i = choose|i: int| 0 <= i < head.len() && head[i] == other;
                assert(stakers[i] == other);
            }
        }
        assert(stakers.last() != other) by {
            assert(stakers[stakers.len() - 1] == stakers.last());
        }
        lemma_batch_leaves_others(p, head, head_bonuses, rate, other);
    }
}

/// A preview that succeeds answers, at each place, the reward accrued on the
/// position the ledger holds for the account at that place.
pub proof fn lemma_preview_pointwise(s: LedgerView, stakers: Seq<Address>, rate: u32)
    requires
        preview_fold(s, stakers, rate) is Ok,
    ensures
        preview_fold(s, stakers, rate)->Ok_0.len() == stakers.len(),
        forall|i: int|
            0 <= i < stakers.len() ==> s.position(#[trigger] stakers[i]).pending_reward(
                s.timestamp,
                rate,
            ) == Ok::<i128, Error>(preview_fold(s, stakers, rate)->Ok_0[i]),
    decreases stakers.len(),
{
    if stakers.len() > 0 {
        lemma_preview_pointwise(s, stakers.drop_last(), rate);
        let head = preview_fold(s, stakers.drop_last(), rate)->Ok_0;
        let all = preview_fold(s, stakers, rate)->Ok_0;
        assert forall|i: int| 0 <= i < stakers.len() implies s.position(
            #[trigger] stakers[i],
        ).pending_reward(s.timestamp, rate) == Ok::<i128, Error>(all[i]) by {
            if i < stakers.len() - 1 {
                assert(stakers.drop_last()[i] == stakers[i]);
                assert(all[i] == head[i]);
            } else {
                assert(stakers[i] == stakers.last());
            }
        }
    }
}

/// What a preview answers for an account is the reward that a settlement at
/// the same time computes for it: where the batch reaches account `i` and has
/// not named it before, it settles the account on the previewed reward, plus
/// the bonus.
pub proof fn lemma_preview_matches_settlement(
    s: LedgerView,
    stakers: Seq<Address>,
    bonuses: Seq<i128>,
    i: int,
)
    requires
        s.config is Some,
        stakers.len() == bonuses.len(),
        0 <= i < stakers.len(),
        !stakers.take(i).contains(stakers[i]),
        batch_fold(
            BatchProgress::start(s),
            stakers.take(i),
            bonuses.take(i),
            s.config->Some_0.reward_rate,
        ) is Ok,
        BatchRewardContract::preview_outcome(s, stakers) is Ok,
    ensures
        ({
            let rate = s.config->Some_0.reward_rate;
            let preview = BatchRewardContract::preview_outcome(s, stakers)->Ok_0;
            let q = batch_fold(BatchProgress::start(s), stakers.take(i), bonuses.take(i), rate)->Ok_0;
            &&& preview.len() == stakers.len()
            &&& q.ledger.position(stakers[i]).pending_reward(q.ledger.timestamp, rate) == Ok::<
                i128,
                Error,
            >(preview[i])
            &&& outcome_at(BatchProgress::start(s), stakers, bonuses, rate, i) == settle(
                s.position(stakers[i]),
                bonuses[i],
                s.timestamp,
                rate,
            )
        }),
{
    let rate = s.config->Some_0.reward_rate;
    lemma_preview_pointwise(s, stakers, rate);
    lemma_batch_leaves_others(
        BatchProgress::start(s),
        stakers.take(i),
        bonuses.take(i),
        rate,
        stakers[i],
    );
}

/// A batch reads and writes no positions but those of the accounts it names:
/// started on two ledgers that agree on the clock and on the position of each
/// named account, with the same total and count so far, it fails the same
/// way on both, or it leaves the same total and count, journals the same, and
/// leaves the two ledgers in agreement on every position they agreed on.
pub proof fn lemma_batch_is_local(
    p: BatchProgress,
    q: BatchProgress,
    stakers: Seq<Address>,
    bonuses: Seq<i128>,
    rate: u32,
)
    requires
        stakers.len() == bonuses.len(),
        p.ledger.timestamp == q.ledger.timestamp,
        p.total == q.total,
        p.count == q.count,
        forall|i: int|
            0 <= i < stakers.len() ==> same_record(
                p.ledger.stakes,
                q.ledger.stakes,
                #[trigger] stakers[i],
            ),
    ensures
        (match (batch_fold(p, stakers, bonuses, rate), batch_fold(q, stakers, bonuses, rate)) {
            (Ok(x), Ok(y)) => {
                &&& x.total == y.total
                &&& x.count == y.count
                &&& x.ledger.timestamp == p.ledger.timestamp
                &&& y.ledger.timestamp == q.ledger.timestamp
                &&& x.ledger.journal.len() >= p.ledger.journal.len()
                &&& y.ledger.journal.len() >= q.ledger.journal.len()
                &&& x.ledger.journal_since(p.ledger) == y.ledger.journal_since(q.ledger)
                &&& forall|owner: Address|
                    same_record(p.ledger.stakes, q.ledger.stakes, owner) ==> #[trigger] same_record(
                        x.ledger.stakes,
                        y.ledger.stakes,
                        owner,
                    )
            },
            (Err(e), Err(f)) => e == f,
            _ => false,
        }),
    decreases stakers.len(),
{
    if stakers.len() == 0 {
        assert(p.ledger.journal_since(p.ledger) =~= q.ledger.journal_since(q.ledger));
    } else {
        let head = stakers.drop_last();
        let head_bonuses = bonuses.drop_last();
        let last = stakers.last();
        let bonus = bonuses[stakers.len() - 1];
        assert forall|i: int| 0 <= i < head.len() implies same_record(
            p.ledger.stakes,
            q.ledger.stakes,
            #[trigger] head[i],
        ) by {
            assert(head[i] == stakers[i]);
        }
        lemma_batch_is_local(p, q, head, head_bonuses, rate);
        match (batch_fold(p, head, head_bonuses, rate), batch_fold(q, head, head_bonuses, rate)) {
            (Ok(x), Ok(y)) => {
                assert(same_record(p.ledger.stakes, q.ledger.stakes, last)) by {
                    assert(stakers[stakers.len() - 1] == last);
                }
                assert(same_record(x.ledger.stakes, y.ledger.stakes, last));
                assert(x.ledger.position(last) == y.ledger.position(last));
                match (batch_step(x, last, bonus, rate), batch_step(y, last, bonus, rate)) {
                    (Ok(x2), Ok(y2)) => {
                        assert(x2.ledger.journal_since(p.ledger) =~= y2.ledger.journal_since(
                            q.ledger,
                        )) by {
                            if x2.ledger.journal.len() > x.ledger.journal.len() {
                                let written = x2.ledger.journal.last();
                                assert(x2.ledger.journal =~= x.ledger.journal.push(written));
                                assert(y2.ledger.journal =~= y.ledger.journal.push(written));
                                assert(x2.ledger.journal_since(p.ledger) =~= x.ledger.journal_since(
                                    p.ledger,
                                ).push(written));
                                assert(y2.ledger.journal_since(q.ledger) =~= y.ledger.journal_since(
                                    q.ledger,
                                ).push(written));
                            }
                        }
                        assert forall|owner: Address|
                            same_record(
                                p.ledger.stakes,
                                q.ledger.stakes,
                                owner,
                            ) implies #[trigger] same_record(
                            x2.ledger.stakes,
                            y2.ledger.stakes,
                            owner,
                        ) by {
                            assert(same_record(x.ledger.stakes, y.ledger.stakes, owner));
                        }
                    },
                    _ => {},
                }
            },
            _ => {},
        }
    }
}

/// A preview reads no positions but those of the accounts it names: on two
/// ledgers that agree on the clock and on the position of each named account,
/// it answers the same.
pub proof fn lemma_preview_is_local(a: LedgerView, b: LedgerView, stakers: Seq<Address>, rate: u32)
    requires
        a.timestamp == b.timestamp,
        forall|i: int|
            0 <= i < stakers.len() ==> same_record(a.stakes, b.stakes, #[trigger] stakers[i]),
    ensures
        preview_fold(a, stakers, rate) == preview_fold(b, stakers, rate),
    decreases stakers.len(),
{
    if stakers.len() > 0 {
        let head = stakers.drop_last();
        assert forall|i: int| 0 <= i < head.len() implies same_record(
            a.stakes,
            b.stakes,
            #[trigger] head[i],
        ) by {
            assert(head[i] == stakers[i]);
        }
        lemma_preview_is_local(a, b, head, rate);
        assert(same_record(a.stakes, b.stakes, stakers.last())) by {
            assert(stakers[stakers.len() - 1] == stakers.last());
        }
    }
}

/// The batch settlement operations.
pub struct BatchRewardContract;

impl BatchRewardContract {
    /// What `distribute_rewards` does to the ledger `s`.
    ///
    /// It fails, in this order: with `Unauthorized` where `admin` has not
    /// signed; with `LengthMismatch` where the two lists differ in length;
    /// with `EmptyBatch` where they are empty; with `NotInitialized` where no
    /// configuration is set; with `NotAdmin` where `admin` is not the
    /// configured administrator; with the first failure of the batch. Else
    /// the ledger is what the batch left, with the summary published after
    /// the writes if any account was credited.
    pub open spec fn distribute_outcome(
        s: LedgerView,
        admin: Address,
        stakers: Seq<Address>,
        bonuses: Seq<i128>,
    ) -> Result<LedgerView, Error> {
        if !s.authorizes(admin) {
            Err(Error::Unauthorized)
        } else if stakers.len() != bonuses.len() {
            Err(Error::LengthMismatch)
        } else if stakers.len() == 0 {
            Err(Error::EmptyBatch)
        } else if s.config is None {
            Err(Error::NotInitialized)
        } else if s.config->Some_0.admin != admin {
            Err(Error::NotAdmin)
        } else {
            match batch_fold(
                BatchProgress::start(s),
                stakers,
                bonuses,
                s.config->Some_0.reward_rate,
            ) {
                Err(e) => Err(e),
                Ok(p) => if p.count > 0 {
                    Ok(p.ledger.publish(p.summary().notification()))
                } else {
                    Ok(p.ledger)
                },
            }
        }
    }

    /// Settles one account of a batch on the working ledger `work`, and
    /// answers the total and the count that the batch has come to.
    fn settle_next(
        work: &mut Ledger,
        staker: Address,
        bonus: i128,
        rate: u32,
        total: i128,
        count: u32,
    ) -> (r: Result<(i128, u32), Error>)
        ensures
            (match batch_step(
                BatchProgress { ledger: old(work)@, total, count },
                staker,
                bonus,
                rate,
            ) {
                Ok(next) => {
                    &&& r == Ok::<(i128, u32), Error>((next.total, next.count))
                    &&& final(work)@ == next.ledger
                },
                Err(e) => r == Err::<(i128, u32), Error>(e) && final(work)@ == old(work)@,
            }),
            r matches Ok((t, c)) ==> (c == count && t == total) || (c == count + 1 && t > total),
    {
        let now = work.timestamp();
        let entry = match work.stake_entry(&staker) {
            Some(entry) => entry,
            None => StakeEntry { balance: 0, staked_at: now },
        };
        match settle_account(entry, bonus, now, rate) {
            Err(e) => Err(e),
            Ok(Settlement::Skipped) => Ok((total, count)),
            Ok(Settlement::Credited { entry: written, credit }) => {
                match (total.checked_add(credit), count.checked_add(1)) {
                    (Some(total), Some(count)) => {
                        work.set_stake(staker, written);
                        Ok((total, count))
                    },
                    _ => Err(Error::Overflow),
                }
            },
        }
    }

    /// Credits each account of `stakers` its accrued reward and the bonus at
    /// its place in `bonus_amounts`, and publishes one summary.
    #[verifier::loop_isolation(false)]
    pub fn distribute_rewards(
        ledger: &mut Ledger,
        admin: Address,
        stakers: &Vec<Address>,
        bonus_amounts: &Vec<i128>,
    ) -> (r: Result<(), Error>)
        ensures
            carried_out(
                Self::distribute_outcome(old(ledger)@, admin, stakers@, bonus_amounts@),
                old(ledger)@,
                final(ledger)@,
                r,
            ),
    {
        if !ledger.is_authorized(&admin) {
            return Err(Error::Unauthorized);
        }
        if stakers.len() != bonus_amounts.len() {
            return Err(Error::LengthMismatch);
        }
        if stakers.len() == 0 {
            return Err(Error::EmptyBatch);
        }
        let config = match ledger.config() {
            Some(config) => config,
            None => {
                return Err(Error::NotInitialized);
            },
        };
        if !config.admin.same(&admin) {
            return Err(Error::NotAdmin);
        }
        let rate = config.reward_rate;
        let ghost start = BatchProgress::start(ledger@);
        let mut work = ledger.duplicate();
        let mut total_rewards: i128 = 0;
        let mut recipients: u32 = 0;
        let mut i: usize = 0;
        while i < stakers.len()
            invariant
                i <= stakers@.len(),
                batch_fold(start, stakers@.take(i as int), bonus_amounts@.take(i as int), rate)
                    == Ok::<BatchProgress, Error>(
                    BatchProgress { ledger: work@, total: total_rewards, count: recipients },
                ),
                recipients == 0 ==> total_rewards == 0,
                recipients > 0 ==> total_rewards > 0,
            decreases stakers@.len() - i,
        {
            proof {
                assert(stakers@.take(i + 1).drop_last() =~= stakers@.take(i as int));
                assert(bonus_amounts@.take(i + 1).drop_last() =~= bonus_amounts@.take(i as int));
            }
            match Self::settle_next(
                &mut work,
                stakers[i],
                bonus_amounts[i],
                rate,
                total_rewards,
                recipients,
            ) {
                Ok((total, count)) => {
                    total_rewards = total;
                    recipients = count;
                },
                Err(e) => {
                    proof {
                        lemma_failure_is_final(start, stakers@, bonus_amounts@, rate, i + 1);
                    }
                    return Err(e);
                },
            }
            i = i + 1;
        }
        proof {
            assert(stakers@.take(i as int) =~= stakers@);
            assert(bonus_amounts@.take(i as int) =~= bonus_amounts@);
        }
        if recipients > 0 {
            let summary = BatchRewardEventData {
                recipients,
                total_rewards,
                timestamp: work.timestamp(),
            };
            match emit_batch_reward(&mut work, summary) {
                Err(e) => {
                    return Err(e);
                },
                Ok(()) => {},
            }
        }
        *ledger = work;
        Ok(())
    }

    /// What `preview_rewards` answers on the ledger `s`: `NotInitialized`
    /// where no configuration is set, else the previewed rewards, or the
    /// first failure among them.
    pub open spec fn preview_outcome(s: LedgerView, stakers: Seq<Address>) -> Result<
        Seq<i128>,
        Error,
    > {
        match s.config {
            None => Err(Error::NotInitialized),
            Some(config) => preview_fold(s, stakers, config.reward_rate),
        }
    }

    /// The reward each account of `stakers` would be credited by a settlement
    /// now, bonus apart. Nothing is written and nothing published.
    #[verifier::loop_isolation(false)]
    pub fn preview_rewards(ledger: &Ledger, stakers: &Vec<Address>) -> (r: Result<
        Vec<i128>,
        Error,
    >)
        ensures
            (match Self::preview_outcome(ledger@, stakers@) {
                Ok(rewards) => r is Ok && r->Ok_0@ == rewards,
                Err(e) => r == Err::<Vec<i128>, Error>(e),
            }),
    {
        let config = match ledger.config() {
            Some(config) => config,
            None => {
                return Err(Error::NotInitialized);
            },
        };
        let now = ledger.timestamp();
        let rate = config.reward_rate;
        let mut results: Vec<i128> = Vec::new();
        let mut i: usize = 0;
        while i < stakers.len()
            invariant
                i <= stakers@.len(),
                ledger@.timestamp == now,
                preview_fold(ledger@, stakers@.take(i as int), rate) == Ok::<Seq<i128>, Error>(
                    results@,
                ),
            decreases stakers@.len() - i,
        {
            let staker = stakers[i];
            let entry = match ledger.stake_entry(&staker) {
                Some(entry) => entry,
                None => StakeEntry { balance: 0, staked_at: now },
            };
            proof {
                assert(stakers@.take(i + 1).drop_last() =~= stakers@.take(i as int));
            }
            match entry.accrued(now, rate) {
                Ok(reward) => {
                    results.push(reward);
                },
                Err(e) => {
                    proof {
                        lemma_preview_failure_is_final(ledger@, stakers@, rate, i + 1);
                    }
                    return Err(e);
                },
            }
            i = i + 1;
        }
        proof {
            assert(stakers@.take(i as int) =~= stakers@);
        }
        Ok(results)
    }
}

/// A settlement of N accounts of which M are credited makes exactly M writes
/// and publishes one notification, or none where M is 0. It asks for no
/// transfer and removes no record.
pub proof fn lemma_distribute_accounting(
    s: LedgerView,
    admin: Address,
    stakers: Seq<Address>,
    bonuses: Seq<i128>,
)
    requires
        BatchRewardContract::distribute_outcome(s, admin, stakers, bonuses) is Ok,
    ensures
        ({
            let t = BatchRewardContract::distribute_outcome(s, admin, stakers, bonuses)->Ok_0;
            let credited = credited_among(
                BatchProgress::start(s),
                stakers,
                bonuses,
                s.config->Some_0.reward_rate,
                stakers.len() as int,
            );
            let published = if credited > 0 {
                1nat
            } else {
                0nat
            };
            &&& credited <= stakers.len()
            &&& writes(t.journal) == writes(s.journal) + credited
            &&& notifications(t.journal) == notifications(s.journal) + published
            &&& t.journal.len() == s.journal.len() + credited + published
            &&& t == (LedgerView { stakes: t.stakes, journal: t.journal, ..s })
        }),
{
    let rate = s.config->Some_0.reward_rate;
    let n = stakers.len() as int;
    assert(stakers.take(n) =~= stakers);
    assert(bonuses.take(n) =~= bonuses);
    lemma_batch_accounting(BatchProgress::start(s), stakers, bonuses, rate, n);
    let p = batch_fold(BatchProgress::start(s), stakers, bonuses, rate)->Ok_0;
    if p.count > 0 {
        lemma_count_pushed(
            p.ledger.journal,
            crate::ledger::Effect::Notify(p.summary().notification()),
        );
    }
}

/// A settlement reads and writes no positions but those of the accounts it
/// names: on two ledgers that agree on the clock, the custody account, the
/// configuration, the administrator's signature and the position of each
/// named account, it answers the same, journals the same, and leaves the two
/// ledgers in agreement on every position they agreed on.
pub proof fn lemma_distribute_is_local(
    a: LedgerView,
    b: LedgerView,
    admin: Address,
    stakers: Seq<Address>,
    bonuses: Seq<i128>,
)
    requires
        a.same_setting(b),
        a.authorizes(admin) == b.authorizes(admin),
        forall|i: int|
            0 <= i < stakers.len() ==> same_record(a.stakes, b.stakes, #[trigger] stakers[i]),
    ensures
        (match (
            BatchRewardContract::distribute_outcome(a, admin, stakers, bonuses),
            BatchRewardContract::distribute_outcome(b, admin, stakers, bonuses),
        ) {
            (Ok(x), Ok(y)) => {
                &&& x.journal_since(a) == y.journal_since(b)
                &&& forall|owner: Address|
                    same_record(a.stakes, b.stakes, owner) ==> #[trigger] same_record(
                        x.stakes,
                        y.stakes,
                        owner,
                    )
                &&& x == (LedgerView { stakes: x.stakes, journal: x.journal, ..a })
                &&& y == (LedgerView { stakes: y.stakes, journal: y.journal, ..b })
            },
            (Err(e), Err(f)) => e == f,
            _ => false,
        }),
        BatchRewardContract::preview_outcome(a, stakers) == BatchRewardContract::preview_outcome(
            b,
            stakers,
        ),
{
    if a.config is Some {
        let rate = a.config->Some_0.reward_rate;
        lemma_preview_is_local(a, b, stakers, rate);
        if stakers.len() == bonuses.len() {
            let p = BatchProgress::start(a);
            let q = BatchProgress::start(b);
            lemma_batch_is_local(p, q, stakers, bonuses, rate);
            match (
                BatchRewardContract::distribute_outcome(a, admin, stakers, bonuses),
                BatchRewardContract::distribute_outcome(b, admin, stakers, bonuses),
            ) {
                (Ok(x), Ok(y)) => {
                    lemma_distribute_accounting(a, admin, stakers, bonuses);
                    lemma_distribute_accounting(b, admin, stakers, bonuses);
                    let px = batch_fold(p, stakers, bonuses, rate)->Ok_0;
                    let qy = batch_fold(q, stakers, bonuses, rate)->Ok_0;
                    if px.count > 0 {
                        let published = crate::ledger::Effect::Notify(px.summary().notification());
                        assert(x.journal =~= px.ledger.journal.push(published));
                        assert(y.journal =~= qy.ledger.journal.push(published));
                        assert(x.journal_since(a) =~= px.ledger.journal_since(a).push(published));
                        assert(y.journal_since(b) =~= qy.ledger.journal_since(b).push(published));
                    }
                },
                _ => {},
            }
        }
    }
}

} // verus!
