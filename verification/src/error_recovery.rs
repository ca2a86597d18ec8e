//! Recovery of what a settlement left behind: the timeout sweep, the
//! integrity check of one transaction, and the emergency release of a
//! user's locks.
//!
//! The sweep is the backstop for settlements that stopped half way. It
//! releases locks and refunds a purchase whose assets were never pulled;
//! for a redemption it compensates nothing.

use vstd::prelude::*;
use crate::error::Error;
use crate::nav_calculator::saturated;
use crate::ledger::{memo, plain_memo, reply_value, LedgerCall, LedgerRequest};
use crate::principal::PrincipalId;
use crate::quote_manager::{assignment_of, has_assignment, AssignmentStore};
use crate::transaction_manager::{
    capped_count,
    due_transactions,
    has_transaction,
    history_preserved,
    lock_is_recoverable,
    swept_locks,
    swept_transactions,
    transaction_of,
    TransactionManager,
};
use crate::types::{
    AssetId,
    LockedFundType,
    LockedFunds,
    OperationType,
    QuoteAssignment,
    Transaction,
    TransactionStatus,
};

verus! {

/// The span over which recent recoveries are counted, in nanoseconds: a day.
pub const RECENT_RECOVERY_NS: u64 = 86_400_000_000_000;

/// One recovery, for the audit trail.
#[derive(Clone, Copy, Debug)]
pub struct RecoveryEvent {
    pub transaction_id: u64,
    pub user: PrincipalId,
    pub operation: OperationType,
    pub recovered_at: u64,
    pub funds_recovered: bool,
}

/// A purchase that timed out before its assets were pulled: its user is
/// owed the settlement amount, where escrow holds it.
#[derive(Clone, Copy, Debug)]
pub struct RefundCandidate {
    pub transaction_id: u64,
    pub user: PrincipalId,
    pub amount: u64,
}

/// What a timeout sweep did.
#[derive(Debug)]
pub struct SweepReport {
    /// How many transactions were timed out.
    pub recovered: u32,
    /// The refunds to attempt.
    pub refunds: Vec<RefundCandidate>,
}

/// What an emergency recovery released.
#[derive(Debug)]
pub struct RecoveryReport {
    pub user: PrincipalId,
    pub recovered_ckusdc: u64,
    pub recovered_nav_tokens: u64,
    pub recovered_assets: Vec<(AssetId, u64)>,
    pub timestamp: u64,
}

/// Counts of recoveries.
#[derive(Clone, Copy, Debug, PartialEq, Eq, Structural)]
pub struct RecoveryStatistics {
    pub total_recoveries: u32,
    pub recoveries_last_24h: u32,
    pub average_recovery_time_ms: u64,
}

/// The audit trail of recoveries: events are added and never changed.
pub struct RecoveryLog {
    events: Vec<RecoveryEvent>,
}

/// The event that records the recovery of a transaction at `now`.
pub open spec fn event_of(tx: Transaction, now: u64) -> RecoveryEvent {
    RecoveryEvent {
        transaction_id: tx.id,
        user: tx.user,
        operation: tx.operation,
        recovered_at: now,
        funds_recovered: true,
    }
}

/// Whether a timed-out transaction is refunded: it is a purchase that was
/// `InProgress`, and its assignment is stored.
pub open spec fn needs_refund(tx: Transaction, assignments: Seq<QuoteAssignment>) -> bool {
    tx.operation == OperationType::Buy && tx.status == TransactionStatus::InProgress && has_assignment(
        assignments,
        tx.request_id,
    )
}

/// The refunds to attempt for the transactions that a sweep timed out.
pub open spec fn refund_candidates(due: Seq<Transaction>, assignments: Seq<QuoteAssignment>) -> Seq<RefundCandidate>
    decreases due.len(),
{
    if due.len() == 0 {
        Seq::<RefundCandidate>::empty()
    } else {
        let rest = refund_candidates(due.drop_last(), assignments);
        let tx = due.last();
        if needs_refund(tx, assignments) {
            rest.push(
                RefundCandidate {
                    transaction_id: tx.id,
                    user: tx.user,
                    amount: assignment_of(assignments, tx.request_id).ckusdc_amount,
                },
            )
        } else {
            rest
        }
    }
}

/// The events of the transactions that a sweep timed out.
pub open spec fn events_of(due: Seq<Transaction>, now: u64) -> Seq<RecoveryEvent> {
    due.map_values(|t: Transaction| event_of(t, now))
}

impl RecoveryLog {
    /// The events, oldest first.
    pub closed spec fn view(&self) -> Seq<RecoveryEvent> {
        self.events@
    }

    /// A log without events.
    pub fn new() -> (log: RecoveryLog)
        ensures
            log@ == Seq::<RecoveryEvent>::empty(),
    {
        RecoveryLog { events: Vec::new() }
    }

    /// Adds an event.
    pub fn record(&mut self, event: RecoveryEvent)
        ensures
            final(self)@ == old(self)@.push(event),
    {
        self.events.push(event);
    }

    /// The events, oldest first.
    pub fn events(&self) -> (out: Vec<RecoveryEvent>)
        ensures
            out@ == self@,
    {
        let mut out: Vec<RecoveryEvent> = Vec::new();
        let mut i: usize = 0;
        while i < self.events.len()
            invariant
                i <= self.events.len(),
                out@ == self.events@.take(i as int),
            decreases self.events.len() - i,
        {
            out.push(self.events[i]);
            i += 1;
            assert(out@ =~= self.events@.take(i as int));
        }
        assert(self.events@.take(i as int) =~= self.events@);
        out
    }
}

/// Times out every transaction that is not `Completed`, `Failed` or
/// `TimedOut` and whose deadline has passed at `now`; releases the locks of
/// those transactions; records each in the log; and says which purchases
/// to refund. A transaction that was timed out is not due again.
pub fn detect_and_handle_timeouts(
    manager: &mut TransactionManager,
    assignments: &AssignmentStore,
    log: &mut RecoveryLog,
    now: u64,
) -> (report: SweepReport)
    requires
        old(manager).wf(),
        assignments.wf(),
    ensures
        final(manager).wf(),
        final(manager).counter() == old(manager).counter(),
        final(manager).transactions() == swept_transactions(old(manager).transactions(), now, false),
        final(manager).locks() == swept_locks(old(manager).transactions(), old(manager).locks(), now, false),
        history_preserved(old(manager).transactions(), final(manager).transactions()),
        final(log)@ == old(log)@ + events_of(due_transactions(old(manager).transactions(), now, false), now),
        report.recovered == capped_count(due_transactions(old(manager).transactions(), now, false).len() as int),
        report.refunds@ == refund_candidates(due_transactions(old(manager).transactions(), now, false), assignments@),
{
    let due = manager.time_out_due(now, false);
    let mut refunds: Vec<RefundCandidate> = Vec::new();
    let mut i: usize = 0;
    assert(due@.take(0).len() == 0);
    assert(log@ =~= old(log)@ + events_of(due@.take(0), now));
    while i < due.len()
        invariant
            i <= due.len(),
            assignments.wf(),
            log@ == old(log)@ + events_of(due@.take(i as int), now),
            refunds@ == refund_candidates(due@.take(i as int), assignments@),
        decreases due.len() - i,
    {
        assert(due@.take(i + 1).drop_last() =~= due@.take(i as int));
        let tx = &due[i];
        log.record(
            RecoveryEvent {
                transaction_id: tx.id,
                user: tx.user,
                operation: tx.operation,
                recovered_at: now,
                funds_recovered: true,
            },
        );
        assert(log@ =~= old(log)@ + events_of(due@.take(i + 1), now));
        if tx.operation == OperationType::Buy && tx.status == TransactionStatus::InProgress {
            match assignments.get_assignment(tx.request_id) {
                Ok(assignment) => {
                    refunds.push(
                        RefundCandidate { transaction_id: tx.id, user: tx.user, amount: assignment.ckusdc_amount },
                    );
                },
                Err(_) => {},
            }
        }
        i += 1;
    }
    assert(due@.take(i as int) =~= due@);
    let recovered: u32 = if due.len() > 0xFFFF_FFFFusize {
        0xFFFF_FFFFu32
    } else {
        due.len() as u32
    };
    SweepReport { recovered, refunds }
}

/// The balance to ask for before a refund is made: that of escrow.
pub fn refund_balance_query(escrow: PrincipalId) -> (call: LedgerCall)
    ensures
        call == (LedgerCall::SettlementBalance { account: escrow }),
{
    LedgerCall::SettlementBalance { account: escrow }
}

/// The refund to make, given the balance of escrow: the settlement amount
/// goes back to the user where escrow holds at least that much, and
/// nothing is refunded otherwise.
pub open spec fn refund_call(candidate: RefundCandidate, balance: u64) -> Option<LedgerCall> {
    if balance >= candidate.amount {
        Some(LedgerCall::SettlementTransfer { to: candidate.user, amount: candidate.amount })
    } else {
        None
    }
}

/// Decides on a refund, given what the ledger answered to the balance
/// query.
pub fn decide_refund(candidate: &RefundCandidate, balance_reply: Result<u64, String>) -> (r: Result<
    Option<LedgerRequest>,
    Error,
>)
    ensures
        match reply_value(balance_reply) {
            Err(e) => r == Err::<Option<LedgerRequest>, Error>(e),
            Ok(balance) => r is Ok && match r->Ok_0 {
                Some(request) => refund_call(*candidate, balance) == Some(request.call) && request.memo@
                    == plain_memo("Refund for failed tx "@, candidate.transaction_id),
                None => refund_call(*candidate, balance) is None,
            },
        },
{
    let balance = match balance_reply {
        Ok(balance) => balance,
        Err(reason) => {
            return Err(Error::LedgerCallFailed { reason });
        },
    };
    if balance >= candidate.amount {
        Ok(
            Some(
                LedgerRequest {
                    call: LedgerCall::SettlementTransfer { to: candidate.user, amount: candidate.amount },
                    memo: memo("Refund for failed tx ", candidate.transaction_id, "", None, "", None, ""),
                },
            ),
        )
    } else {
        Ok(None)
    }
}

/// Whether the lock is the one that a transaction of this operation needs:
/// settlement currency for a purchase, bundle tokens for a redemption.
pub open spec fn is_expected_lock(lock: LockedFunds, operation: OperationType) -> bool {
    match operation {
        OperationType::Buy => lock.fund_type == LockedFundType::CkUSDC,
        OperationType::Sell => lock.fund_type is NAVTokens,
    }
}

/// Whether a transaction and its locks fit together at `now`. A
/// transaction that is `Completed`, `Failed` or `TimedOut` needs no lock.
/// Any other one must have the lock that its operation needs, and none of
/// its locks may have expired.
pub open spec fn integrity_check(txs: Seq<Transaction>, locks: Seq<LockedFunds>, transaction_id: u64, now: u64) -> Result<
    (),
    Error,
> {
    let tx = transaction_of(txs, transaction_id);
    let own = locks.filter(|l: LockedFunds| l.transaction_id == transaction_id);
    if !has_transaction(txs, transaction_id) {
        Err(Error::TransactionNotFound)
    } else if tx.status.is_terminal() {
        Ok(())
    } else if !(exists|i: int| 0 <= i < own.len() && is_expected_lock(#[trigger] own[i], tx.operation)) {
        match tx.operation {
            OperationType::Buy => Err(Error::MissingSettlementLock),
            OperationType::Sell => Err(Error::MissingTokenLock),
        }
    } else if exists|i: int| 0 <= i < own.len() && (#[trigger] own[i]).expires_at < now {
        Err(Error::LockExpired)
    } else {
        Ok(())
    }
}

/// Checks that a transaction and its locks fit together at `now`.
pub fn validate_transaction_integrity(manager: &TransactionManager, transaction_id: u64, now: u64) -> (r: Result<
    (),
    Error,
>)
    requires
        manager.wf(),
    ensures
        r == integrity_check(manager.transactions(), manager.locks(), transaction_id, now),
{
    let tx = match manager.get_transaction(transaction_id) {
        Ok(tx) => tx,
        Err(e) => {
            return Err(e);
        },
    };
    if tx.status.terminal() {
        return Ok(());
    }
    let own = manager.get_transaction_locks(transaction_id);
    let mut expected = false;
    let mut expired = false;
    let mut i: usize = 0;
    while i < own.len()
        invariant
            i <= own.len(),
            expected <==> exists|k: int| 0 <= k < i && is_expected_lock(#[trigger] own@[k], tx.operation),
            expired <==> exists|k: int| 0 <= k < i && (#[trigger] own@[k]).expires_at < now,
        decreases own.len() - i,
    {
        let l = &own[i];
        let fits = match tx.operation {
            OperationType::Buy => l.fund_type == LockedFundType::CkUSDC,
            OperationType::Sell => match l.fund_type {
                LockedFundType::NAVTokens { .. } => true,
                LockedFundType::CkUSDC => false,
            },
        };
        if fits {
            expected = true;
        }
        if l.expires_at < now {
            expired = true;
        }
        i += 1;
    }
    if !expected {
        return match tx.operation {
            OperationType::Buy => Err(Error::MissingSettlementLock),
            OperationType::Sell => Err(Error::MissingTokenLock),
        };
    }
    if expired {
        return Err(Error::LockExpired);
    }
    Ok(())
}

/// The sum of the amounts of the locks of settlement currency, or of those
/// of bundle tokens.
pub open spec fn released_total(released: Seq<LockedFunds>, settlement_currency: bool) -> nat
    decreases released.len(),
{
    if released.len() == 0 {
        0
    } else {
        released_total(released.drop_last(), settlement_currency) + if (released.last().fund_type
            == LockedFundType::CkUSDC) == settlement_currency {
            released.last().amount as nat
        } else {
            0
        }
    }
}

/// Releases every lock of `user` that belongs to a transaction which is
/// not `Completed`, `Failed` or `TimedOut`, and reports the totals by fund
/// type, capped at 64 bits. Ledger transfers that were made for those
/// transactions are not looked at.
pub fn perform_emergency_recovery(manager: &mut TransactionManager, user: PrincipalId, now: u64) -> (report:
    RecoveryReport)
    requires
        old(manager).wf(),
    ensures
        final(manager).wf(),
        final(manager).counter() == old(manager).counter(),
        final(manager).transactions() == old(manager).transactions(),
        final(manager).locks() == old(manager).locks().filter(
            |l: LockedFunds| !lock_is_recoverable(old(manager).transactions(), l, user),
        ),
        report.user == user,
        report.timestamp == now,
        report.recovered_assets@.len() == 0,
        report.recovered_ckusdc == saturated(
            released_total(
                old(manager).locks().filter(
                    |l: LockedFunds| lock_is_recoverable(old(manager).transactions(), l, user),
                ),
                true,
            ),
        ),
        report.recovered_nav_tokens == saturated(
            released_total(
                old(manager).locks().filter(
                    |l: LockedFunds| lock_is_recoverable(old(manager).transactions(), l, user),
                ),
                false,
            ),
        ),
{
    let released = manager.release_user_locks(&user);
    let mut ckusdc: u64 = 0;
    let mut nav: u64 = 0;
    let mut i: usize = 0;
    while i < released.len()
        invariant
            i <= released.len(),
            ckusdc == saturated(released_total(released@.take(i as int), true)),
            nav == saturated(released_total(released@.take(i as int), false)),
        decreases released.len() - i,
    {
        assert(released@.take(i + 1).drop_last() =~= released@.take(i as int));
        match released[i].fund_type {
            LockedFundType::CkUSDC => {
                ckusdc = ckusdc.saturating_add(released[i].amount);
            },
            LockedFundType::NAVTokens { .. } => {
                nav = nav.saturating_add(released[i].amount);
            },
        }
        i += 1;
    }
    assert(released@.take(i as int) =~= released@);
    RecoveryReport {
        user,
        recovered_ckusdc: ckusdc,
        recovered_nav_tokens: nav,
        recovered_assets: Vec::new(),
        timestamp: now,
    }
}

/// The time a day before `now`, or zero.
pub open spec fn recent_since(now: u64) -> u64 {
    if now >= RECENT_RECOVERY_NS {
        (now - RECENT_RECOVERY_NS) as u64
    } else {
        0
    }
}

/// How many recoveries there were, and how many in the day before `now`.
pub fn get_recovery_statistics(log: &RecoveryLog, now: u64) -> (stats: RecoveryStatistics)
    ensures
        stats.total_recoveries == capped_count(log@.len() as int),
        stats.recoveries_last_24h == capped_count(
            log@.filter(|e: RecoveryEvent| e.recovered_at > recent_since(now)).len() as int,
        ),
        stats.average_recovery_time_ms == 0,
{
    let since = now.saturating_sub(RECENT_RECOVERY_NS);
    let ghost recent = |e: RecoveryEvent| e.recovered_at > recent_since(now);
    let mut count: usize = 0;
    let mut i: usize = 0;
    proof {
        reveal(Seq::filter);
        assert(log.events@.take(0).filter(recent) =~= Seq::<RecoveryEvent>::empty());
    }
    while i < log.events.len()
        invariant
            i <= log.events.len(),
            since == recent_since(now),
            recent == (|e: RecoveryEvent| e.recovered_at > recent_since(now)),
            count == log.events@.take(i as int).filter(recent).len(),
            count <= i,
        decreases log.events.len() - i,
    {
        proof {
            assert(log.events@.take(i + 1) =~= log.events@.take(i as int).push(log.events@[i as int]));
            log.events@.take(i as int).lemma_filter_push(log.events@[i as int], recent);
        }
        if log.events[i].recovered_at > since {
            count += 1;
        }
        i += 1;
    }
    assert(log.events@.take(i as int) =~= log.events@);
    let total = log.events.len();
    RecoveryStatistics {
        total_recoveries: if total > 0xFFFF_FFFFusize {
            0xFFFF_FFFFu32
        } else {
            total as u32
        },
        recoveries_last_24h: if count > 0xFFFF_FFFFusize {
            0xFFFF_FFFFu32
        } else {
            count as u32
        },
        average_recovery_time_ms: 0,
    }
}

} // verus!
