//! Recurring payments: schedules that move a fixed amount at a fixed interval,
//! and catch up in one jump when they are run late.

use vstd::prelude::*;
use vstd::arithmetic::div_mod::lemma_fundamental_div_mod;
use vstd::arithmetic::mul::lemma_mul_is_commutative;
use vstd::arithmetic::mul::lemma_mul_is_distributive_add_other_way;
use crate::address::Address;
use crate::error::Error;
use crate::events::{
    EventPayload, Notification, PaymentCanceledEventData, PaymentCreatedEventData,
    PaymentExecutedEventData, Topic,
};
use crate::ledger::{Effect, Ledger, LedgerView, Transfer, carried_out, payment_key, same_record};

verus! {

/// The keys of the recurring-payment records.
#[derive(Clone, Copy, Debug, PartialEq, Eq, Structural)]
pub enum DataKey {
    /// The schedule with this id.
    Payment(u64),
    /// The number of schedules created so far.
    PaymentCount,
}

/// One payment schedule.
#[derive(Clone, Copy, Debug, PartialEq, Eq, Structural)]
pub struct RecurringPayment {
    pub sender: Address,
    pub recipient: Address,
    pub token: Address,
    pub amount: i128,
    pub interval: u64,
    pub next_execution: u64,
    pub active: bool,
}

/// The time a schedule is next due after it ran at `now`: the first time on
/// the schedule's grid, `scheduled` plus a multiple of `interval`, that lies
/// after `now`. Intervals that were missed are passed over in this one jump.
pub open spec fn next_due(scheduled: int, interval: int, now: int) -> int {
    scheduled + ((now - scheduled) / interval + 1) * interval
}

/// The next due time lies after `now`, at most one interval after it, and on
/// the schedule's grid.
pub proof fn lemma_next_due(scheduled: int, interval: int, now: int)
    requires
        0 < interval,
        scheduled <= now,
    ensures
        now < next_due(scheduled, interval, now) <= now + interval,
        next_due(scheduled, interval, now) == scheduled + ((now - scheduled) / interval)
            * interval + interval,
        (next_due(scheduled, interval, now) - scheduled) % interval == 0,
        0 <= (now - scheduled) / interval <= now - scheduled,
{
    let late = now - scheduled;
    let missed = late / interval;
    lemma_fundamental_div_mod(late, interval);
    lemma_mul_is_commutative(interval, missed);
    lemma_mul_is_distributive_add_other_way(interval, missed, 1);
    assert((missed + 1) * interval == missed * interval + interval);
    assert(0 <= late % interval < interval);
    assert(0 <= missed <= late) by (nonlinear_arith)
        requires
            0 <= late,
            0 < interval,
            missed == late / interval,
    ;
    assert(((missed + 1) * interval) % interval == 0) by (nonlinear_arith)
        requires
            0 < interval,
    ;
}

/// The recurring-payment operations.
pub struct RecurringPaymentContract;

impl RecurringPaymentContract {
    /// What `create_payment` does to the ledger `s`, and the id it assigns.
    ///
    /// It fails, in this order: with `Unauthorized` where `sender` has not
    /// signed; with `PaymentAmountNotPositive` where `amount` is not
    /// positive; with `IntervalNotPositive` where `interval` is 0; with
    /// `Overflow` where the counter cannot grow. Else the counter grows by
    /// one, the schedule is written under the new count, active and first
    /// due at `start_time`, and its creation is published.
    pub open spec fn create_outcome(
        s: LedgerView,
        sender: Address,
        recipient: Address,
        token: Address,
        amount: i128,
        interval: u64,
        start_time: u64,
    ) -> Result<(LedgerView, u64), Error> {
        if !s.authorizes(sender) {
            Err(Error::Unauthorized)
        } else if amount <= 0 {
            Err(Error::PaymentAmountNotPositive)
        } else if interval == 0 {
            Err(Error::IntervalNotPositive)
        } else if s.payment_count == u64::MAX {
            Err(Error::Overflow)
        } else {
            let id = (s.payment_count + 1) as u64;
            Ok(
                (
                    s.set_payment(
                        id,
                        RecurringPayment {
                            sender,
                            recipient,
                            token,
                            amount,
                            interval,
                            next_execution: start_time,
                            active: true,
                        },
                    ).set_payment_count(id).publish(
                        PaymentCreatedEventData { payment_id: id, sender }.notification(),
                    ),
                    id,
                ),
            )
        }
    }

    /// Creates a payment schedule and answers its id.
    pub fn create_payment(
        ledger: &mut Ledger,
        sender: Address,
        recipient: Address,
        token: Address,
        amount: i128,
        interval: u64,
        start_time: u64,
    ) -> (r: Result<u64, Error>)
        ensures
            (match Self::create_outcome(
                old(ledger)@,
                sender,
                recipient,
                token,
                amount,
                interval,
                start_time,
            ) {
                Ok((next, id)) => r == Ok::<u64, Error>(id) && final(ledger)@ == next,
                Err(e) => r == Err::<u64, Error>(e) && final(ledger)@ == old(ledger)@,
            }),
    {
        if !ledger.is_authorized(&sender) {
            return Err(Error::Unauthorized);
        }
        if amount <= 0 {
            return Err(Error::PaymentAmountNotPositive);
        }
        if interval == 0 {
            return Err(Error::IntervalNotPositive);
        }
        let count = match ledger.payment_count().checked_add(1) {
            Some(count) => count,
            None => {
                return Err(Error::Overflow);
            },
        };
        ledger.set_payment(
            count,
            RecurringPayment {
                sender,
                recipient,
                token,
                amount,
                interval,
                next_execution: start_time,
                active: true,
            },
        );
        ledger.set_payment_count(count);
        ledger.publish(
            Notification {
                family: Topic::Recurring,
                operation: Topic::Created,
                payload: EventPayload::PaymentCreated(
                    PaymentCreatedEventData { payment_id: count, sender },
                ),
            },
        );
        Ok(count)
    }

    /// What `execute_payment` does to the ledger `s`.
    ///
    /// It fails, in this order: with `PaymentNotFound` where no schedule has
    /// this id; with `PaymentNotActive` where it was canceled; with
    /// `TooEarly` where it is not due yet; with `IntervalNotPositive` where
    /// the schedule holds no positive interval; with `Overflow` where the
    /// next due time does not fit. Else the amount moves once from the sender
    /// to the recipient, however many intervals were missed, the schedule is
    /// written with its next due time, and the execution is published.
    pub open spec fn execute_outcome(s: LedgerView, payment_id: u64) -> Result<LedgerView, Error> {
        if !s.payments.contains_key(payment_id) {
            Err(Error::PaymentNotFound)
        } else {
            let payment = s.payments[payment_id];
            let next = next_due(
                payment.next_execution as int,
                payment.interval as int,
                s.timestamp as int,
            );
            if !payment.active {
                Err(Error::PaymentNotActive)
            } else if s.timestamp < payment.next_execution {
                Err(Error::TooEarly)
            } else if payment.interval == 0 {
                Err(Error::IntervalNotPositive)
            } else if next > u64::MAX {
                Err(Error::Overflow)
            } else {
                Ok(
                    s.transfer(
                        Transfer {
                            token: payment.token,
                            from: payment.sender,
                            to: payment.recipient,
                            amount: payment.amount,
                        },
                    ).set_payment(
                        payment_id,
                        RecurringPayment { next_execution: next as u64, ..payment },
                    ).publish(
                        PaymentExecutedEventData {
                            payment_id,
                            amount: payment.amount,
                            next_execution: next as u64,
                        }.notification(),
                    ),
                )
            }
        }
    }

    /// Runs the payment schedule `payment_id` once.
    pub fn execute_payment(ledger: &mut Ledger, payment_id: u64) -> (r: Result<(), Error>)
        ensures
            carried_out(
                Self::execute_outcome(old(ledger)@, payment_id),
                old(ledger)@,
                final(ledger)@,
                r,
            ),
            r is Ok ==> final(ledger)@.payments[payment_id].next_execution > old(
                ledger,
            )@.timestamp,
    {
        let payment = match ledger.payment(payment_id) {
            Some(payment) => payment,
            None => {
                return Err(Error::PaymentNotFound);
            },
        };
        if !payment.active {
            return Err(Error::PaymentNotActive);
        }
        let now = ledger.timestamp();
        if now < payment.next_execution {
            return Err(Error::TooEarly);
        }
        if payment.interval == 0 {
            return Err(Error::IntervalNotPositive);
        }
        let late: u64 = now - payment.next_execution;
        let missed: u64 = late / payment.interval;
        proof {
            lemma_next_due(payment.next_execution as int, payment.interval as int, now as int);
        }
        let next_wide: u128 = payment.next_execution as u128 + (missed as u128) * (
        payment.interval as u128) + payment.interval as u128;
        if next_wide > u64::MAX as u128 {
            return Err(Error::Overflow);
        }
        let next: u64 = next_wide as u64;
        ledger.transfer(payment.token, payment.sender, payment.recipient, payment.amount);
        ledger.set_payment(
            payment_id,
            RecurringPayment {
                sender: payment.sender,
                recipient: payment.recipient,
                token: payment.token,
                amount: payment.amount,
                interval: payment.interval,
                next_execution: next,
                active: payment.active,
            },
        );
        ledger.publish(
            Notification {
                family: Topic::Recurring,
                operation: Topic::Executed,
                payload: EventPayload::PaymentExecuted(
                    PaymentExecutedEventData {
                        payment_id,
                        amount: payment.amount,
                        next_execution: next,
                    },
                ),
            },
        );
        Ok(())
    }

    /// What `cancel_payment` does to the ledger `s`.
    ///
    /// It fails, in this order: with `PaymentNotFound` where no schedule has
    /// this id; with `Unauthorized` where its sender has not signed; with
    /// `AlreadyCanceled` where it is not active. Else the schedule is written
    /// as inactive, for good, and the cancellation is published.
    pub open spec fn cancel_outcome(s: LedgerView, payment_id: u64) -> Result<LedgerView, Error> {
        if !s.payments.contains_key(payment_id) {
            Err(Error::PaymentNotFound)
        } else {
            let payment = s.payments[payment_id];
            if !s.authorizes(payment.sender) {
                Err(Error::Unauthorized)
            } else if !payment.active {
                Err(Error::AlreadyCanceled)
            } else {
                Ok(
                    s.set_payment(payment_id, RecurringPayment { active: false, ..payment }).publish(
                        PaymentCanceledEventData {
                            payment_id,
                            sender: payment.sender,
                        }.notification(),
                    ),
                )
            }
        }
    }

    /// Cancels the payment schedule `payment_id`. Only its sender may.
    pub fn cancel_payment(ledger: &mut Ledger, payment_id: u64) -> (r: Result<(), Error>)
        ensures
            carried_out(
                Self::cancel_outcome(old(ledger)@, payment_id),
                old(ledger)@,
                final(ledger)@,
                r,
            ),
    {
        let payment = match ledger.payment(payment_id) {
            Some(payment) => payment,
            None => {
                return Err(Error::PaymentNotFound);
            },
        };
        if !ledger.is_authorized(&payment.sender) {
            return Err(Error::Unauthorized);
        }
        if !payment.active {
            return Err(Error::AlreadyCanceled);
        }
        ledger.set_payment(
            payment_id,
            RecurringPayment {
                sender: payment.sender,
                recipient: payment.recipient,
                token: payment.token,
                amount: payment.amount,
                interval: payment.interval,
                next_execution: payment.next_execution,
                active: false,
            },
        );
        ledger.publish(
            Notification {
                family: Topic::Recurring,
                operation: Topic::Canceled,
                payload: EventPayload::PaymentCanceled(
                    PaymentCanceledEventData { payment_id, sender: payment.sender },
                ),
            },
        );
        Ok(())
    }

    /// The payment schedule `payment_id`, or `PaymentNotFound`.
    pub fn get_payment(ledger: &Ledger, payment_id: u64) -> (r: Result<RecurringPayment, Error>)
        ensures
            r == (if ledger@.payments.contains_key(payment_id) {
                Ok::<RecurringPayment, Error>(ledger@.payments[payment_id])
            } else {
                Err(Error::PaymentNotFound)
            }),
    {
        match ledger.payment(payment_id) {
            Some(payment) => Ok(payment),
            None => Err(Error::PaymentNotFound),
        }
    }
}

/// An execution moves the amount exactly once, and leaves the schedule due at
/// a time strictly after the execution, at most one interval after it, and
/// on the schedule's grid: it cannot run again in the same instant.
pub proof fn lemma_execution_moves_on(s: LedgerView, payment_id: u64)
    requires
        RecurringPaymentContract::execute_outcome(s, payment_id) is Ok,
    ensures
        ({
            let before = s.payments[payment_id];
            let executed = RecurringPaymentContract::execute_outcome(s, payment_id)->Ok_0;
            let after = executed.payments[payment_id];
            &&& after == (RecurringPayment { next_execution: after.next_execution, ..before })
            &&& s.timestamp < after.next_execution <= s.timestamp + before.interval
            &&& (after.next_execution - before.next_execution) % (before.interval as int) == 0
            &&& executed.journal == s.journal.push(
                Effect::Transfer(
                    Transfer {
                        token: before.token,
                        from: before.sender,
                        to: before.recipient,
                        amount: before.amount,
                    },
                ),
            ).push(Effect::Write(payment_key(payment_id))).push(
                Effect::Notify(
                    PaymentExecutedEventData {
                        payment_id,
                        amount: before.amount,
                        next_execution: after.next_execution,
                    }.notification(),
                ),
            )
            &&& RecurringPaymentContract::execute_outcome(executed, payment_id) == Err::<
                LedgerView,
                Error,
            >(Error::TooEarly)
        }),
{
    let before = s.payments[payment_id];
    lemma_next_due(before.next_execution as int, before.interval as int, s.timestamp as int);
}

/// A cancellation succeeds once and for good: the schedule is inactive, a
/// second cancellation fails with `AlreadyCanceled`, and an execution with
/// `PaymentNotActive`, whenever they come.
pub proof fn lemma_cancel_once(s: LedgerView, payment_id: u64, later: u64)
    requires
        RecurringPaymentContract::cancel_outcome(s, payment_id) is Ok,
    ensures
        ({
            let canceled = RecurringPaymentContract::cancel_outcome(s, payment_id)->Ok_0.at(later);
            &&& s.payments[payment_id].active
            &&& !canceled.payments[payment_id].active
            &&& RecurringPaymentContract::cancel_outcome(canceled, payment_id) == Err::<
                LedgerView,
                Error,
            >(Error::AlreadyCanceled)
            &&& RecurringPaymentContract::execute_outcome(canceled, payment_id) == Err::<
                LedgerView,
                Error,
            >(Error::PaymentNotActive)
        }),
{
}

/// An execution and a cancellation read and write no record but the schedule
/// they name: on two ledgers that agree on the clock, on that schedule and on
/// the signature of its sender, each answers the same, writes the same
/// schedule, journals the same, and leaves every other record of either
/// ledger as it was.
pub proof fn lemma_schedule_is_local(a: LedgerView, b: LedgerView, payment_id: u64)
    requires
        a.timestamp == b.timestamp,
        same_record(a.payments, b.payments, payment_id),
        a.payments.contains_key(payment_id) ==> a.authorizes(a.payments[payment_id].sender)
            == b.authorizes(a.payments[payment_id].sender),
    ensures
        (match (
            RecurringPaymentContract::execute_outcome(a, payment_id),
            RecurringPaymentContract::execute_outcome(b, payment_id),
        ) {
            (Ok(x), Ok(y)) => {
                &&& x.payments == a.payments.insert(payment_id, x.payments[payment_id])
                &&& y.payments == b.payments.insert(payment_id, x.payments[payment_id])
                &&& x.journal_since(a) == y.journal_since(b)
                &&& x == (LedgerView { payments: x.payments, journal: x.journal, ..a })
                &&& y == (LedgerView { payments: y.payments, journal: y.journal, ..b })
            },
            (Err(e), Err(f)) => e == f,
            _ => false,
        }),
        (match (
            RecurringPaymentContract::cancel_outcome(a, payment_id),
            RecurringPaymentContract::cancel_outcome(b, payment_id),
        ) {
            (Ok(x), Ok(y)) => {
                &&& x.payments == a.payments.insert(payment_id, x.payments[payment_id])
                &&& y.payments == b.payments.insert(payment_id, x.payments[payment_id])
                &&& x.journal_since(a) == y.journal_since(b)
                &&& x == (LedgerView { payments: x.payments, journal: x.journal, ..a })
                &&& y == (LedgerView { payments: y.payments, journal: y.journal, ..b })
            },
            (Err(e), Err(f)) => e == f,
            _ => false,
        }),
{
    match (
        RecurringPaymentContract::execute_outcome(a, payment_id),
        RecurringPaymentContract::execute_outcome(b, payment_id),
    ) {
        (Ok(x), Ok(y)) => {
            assert(x.journal_since(a) =~= y.journal_since(b));
        },
        _ => {},
    }
    match (
        RecurringPaymentContract::cancel_outcome(a, payment_id),
        RecurringPaymentContract::cancel_outcome(b, payment_id),
    ) {
        (Ok(x), Ok(y)) => {
            assert(x.journal_since(a) =~= y.journal_since(b));
        },
        _ => {},
    }
}

/// A creation reads no record but the counter, and writes the counter and
/// the schedule under the new count: on two ledgers that agree on the counter
/// and on the sender's signature, it answers the same id, writes the same
/// schedule, journals the same, and leaves every other record of either
/// ledger as it was.
pub proof fn lemma_create_is_local(
    a: LedgerView,
    b: LedgerView,
    sender: Address,
    recipient: Address,
    token: Address,
    amount: i128,
    interval: u64,
    start_time: u64,
)
    requires
        a.payment_count == b.payment_count,
        a.authorizes(sender) == b.authorizes(sender),
    ensures
        (match (
            RecurringPaymentContract::create_outcome(
                a,
                sender,
                recipient,
                token,
                amount,
                interval,
                start_time,
            ),
            RecurringPaymentContract::create_outcome(
                b,
                sender,
                recipient,
                token,
                amount,
                interval,
                start_time,
            ),
        ) {
            (Ok((x, id)), Ok((y, other))) => {
                &&& id == other
                &&& id == a.payment_count + 1
                &&& x.payments == a.payments.insert(id, x.payments[id])
                &&& y.payments == b.payments.insert(id, x.payments[id])
                &&& x.journal_since(a) == y.journal_since(b)
                &&& x == (LedgerView {
                    payments: x.payments,
                    payment_count: id,
                    journal: x.journal,
                    ..a
                })
                &&& y == (LedgerView {
                    payments: y.payments,
                    payment_count: id,
                    journal: y.journal,
                    ..b
                })
            },
            (Err(e), Err(f)) => e == f,
            _ => false,
        }),
{
    match (
        RecurringPaymentContract::create_outcome(
            a,
            sender,
            recipient,
            token,
            amount,
            interval,
            start_time,
        ),
        RecurringPaymentContract::create_outcome(
            b,
            sender,
            recipient,
            token,
            amount,
            interval,
            start_time,
        ),
    ) {
        (Ok((x, id)), Ok((y, other))) => {
            assert(x.journal_since(a) =~= y.journal_since(b));
        },
        _ => {},
    }
}

} // verus!
