//! The settlement records, their status transitions, and the escrow locks
//! that belong to them.
//!
//! A transaction moves `Pending -> FundsLocked -> WaitingForResolver ->
//! InProgress -> AssetsTransferred -> Completed`; `Failed` and `TimedOut`
//! can follow any of the others. Once it is `Completed`, `Failed` or
//! `TimedOut` no field of it changes again. A lock is identified by its
//! user, its transaction and its fund type, and there is never more than
//! one lock with the same identity.

use vstd::prelude::*;
use crate::error::Error;
use crate::nav_calculator::saturated;
use crate::principal::PrincipalId;
use crate::types::{
    BundleTransactionHistory,
    LockedFundType,
    LockedFunds,
    OperationType,
    Transaction,
    TransactionStats,
    TransactionStatus,
    TransactionSummary,
    UserTransactionSummary,
};

verus! {

/// How long after its creation a transaction times out, in nanoseconds.
pub const TRANSACTION_TIMEOUT_NS: u64 = 1_800_000_000_000;

/// Nanoseconds in a millisecond.
pub const NS_PER_MS: u64 = 1_000_000;

/// Whether a transaction with this id is among `txs`.
pub open spec fn has_transaction(txs: Seq<Transaction>, id: u64) -> bool {
    exists|i: int| 0 <= i < txs.len() && txs[i].id == id
}

/// The transaction with this id among `txs`.
pub open spec fn transaction_of(txs: Seq<Transaction>, id: u64) -> Transaction
    recommends
        has_transaction(txs, id),
{
    txs[choose|i: int| 0 <= i < txs.len() && txs[i].id == id]
}

/// The ids are positive, at most `counter`, and strictly increasing.
pub open spec fn ordered_transactions(txs: Seq<Transaction>, counter: u64) -> bool {
    &&& forall|i: int| 0 <= i < txs.len() ==> 1 <= #[trigger] txs[i].id <= counter
    &&& forall|i: int, j: int| 0 <= i < j < txs.len() ==> txs[i].id < txs[j].id
}

/// A transaction after the move to `status` at time `now`: the status and
/// the time of the last update change, and a terminal status stamps the
/// time of completion.
pub open spec fn transitioned(tx: Transaction, status: TransactionStatus, now: u64) -> Transaction {
    Transaction {
        status,
        updated_at: now,
        completed_at: if status.is_terminal() {
            Some(now)
        } else {
            tx.completed_at
        },
        ..tx
    }
}

/// `txs` with the transaction `id` moved to `status`.
pub open spec fn with_transition(txs: Seq<Transaction>, id: u64, status: TransactionStatus, now: u64) -> Seq<
    Transaction,
> {
    txs.map_values(
        |t: Transaction|
            if t.id == id {
                transitioned(t, status, now)
            } else {
                t
            },
    )
}

/// The transaction that a quote for `operation` creates at time `now`.
pub open spec fn new_transaction(
    id: u64,
    user: PrincipalId,
    resolver: PrincipalId,
    bundle_id: u64,
    operation: OperationType,
    nav_tokens: u64,
    ckusdc_amount: u64,
    now: u64,
) -> Transaction {
    Transaction {
        id,
        request_id: id,
        user,
        resolver,
        bundle_id,
        operation,
        status: TransactionStatus::Pending,
        nav_tokens,
        ckusdc_amount,
        created_at: now,
        updated_at: now,
        completed_at: None,
        timeout_at: saturated(now as nat + TRANSACTION_TIMEOUT_NS as nat),
    }
}

/// Whether the lock has this identity.
pub open spec fn lock_matches(lock: LockedFunds, user: PrincipalId, transaction_id: u64, fund_type: LockedFundType) -> bool {
    lock.user == user && lock.transaction_id == transaction_id && lock.fund_type == fund_type
}

/// Whether a lock with this identity is among `locks`.
pub open spec fn has_lock(
    locks: Seq<LockedFunds>,
    user: PrincipalId,
    transaction_id: u64,
    fund_type: LockedFundType,
) -> bool {
    exists|i: int| 0 <= i < locks.len() && lock_matches(#[trigger] locks[i], user, transaction_id, fund_type)
}

/// The lock with this identity among `locks`.
pub open spec fn lock_of(
    locks: Seq<LockedFunds>,
    user: PrincipalId,
    transaction_id: u64,
    fund_type: LockedFundType,
) -> LockedFunds
    recommends
        has_lock(locks, user, transaction_id, fund_type),
{
    locks[choose|i: int| 0 <= i < locks.len() && lock_matches(#[trigger] locks[i], user, transaction_id, fund_type)]
}

/// No two locks have the same user, transaction and fund type.
pub open spec fn exclusive_locks(locks: Seq<LockedFunds>) -> bool {
    forall|i: int, j: int|
        0 <= i < j < locks.len() ==> !lock_matches(
            #[trigger] locks[i],
            (#[trigger] locks[j]).user,
            locks[j].transaction_id,
            locks[j].fund_type,
        )
}

/// `locks` without the lock of this identity.
pub open spec fn without_lock(
    locks: Seq<LockedFunds>,
    user: PrincipalId,
    transaction_id: u64,
    fund_type: LockedFundType,
) -> Seq<LockedFunds> {
    locks.filter(|l: LockedFunds| !lock_matches(l, user, transaction_id, fund_type))
}

/// A sequence filtered by a predicate that only the element at `i` fails is
/// the sequence without that element.
pub proof fn lemma_filter_removes_one<T>(s: Seq<T>, keep: spec_fn(T) -> bool, i: int)
    requires
        0 <= i < s.len(),
        !keep(s[i]),
        forall|j: int| 0 <= j < s.len() && j != i ==> keep(#[trigger] s[j]),
    ensures
        s.filter(keep) == s.remove(i),
    decreases s.len(),
{
    reveal(Seq::filter);
    let front = s.drop_last();
    if i == s.len() - 1 {
        lemma_filter_keeps_all(front, keep);
        assert(s.remove(i) =~= front);
    } else {
        lemma_filter_removes_one(front, keep, i);
        assert(s.remove(i) =~= front.remove(i).push(s.last()));
    }
}

/// A sequence filtered by a predicate that all its elements meet is the
/// sequence itself.
pub proof fn lemma_filter_keeps_all<T>(s: Seq<T>, keep: spec_fn(T) -> bool)
    requires
        forall|j: int| 0 <= j < s.len() ==> keep(#[trigger] s[j]),
    ensures
        s.filter(keep) == s,
    decreases s.len(),
{
    reveal(Seq::filter);
    if s.len() > 0 {
        lemma_filter_keeps_all(s.drop_last(), keep);
        assert(s.drop_last().push(s.last()) =~= s);
    }
}

/// With increasing ids, the transaction found for an id is the one at any
/// index that holds the id.
pub proof fn lemma_transaction_at(txs: Seq<Transaction>, counter: u64, i: int)
    requires
        ordered_transactions(txs, counter),
        0 <= i < txs.len(),
    ensures
        has_transaction(txs, txs[i].id),
        transaction_of(txs, txs[i].id) == txs[i],
{
    let id = txs[i].id;
    let c = choose|k: int| 0 <= k < txs.len() && txs[k].id == id;
    if c < i {
        assert(txs[c].id < txs[i].id);
    } else if i < c {
        assert(txs[i].id < txs[c].id);
    }
}

/// With exclusive locks, the lock found for an identity is the one at any
/// index that has the identity.
pub proof fn lemma_lock_at(locks: Seq<LockedFunds>, i: int)
    requires
        exclusive_locks(locks),
        0 <= i < locks.len(),
    ensures
        has_lock(locks, locks[i].user, locks[i].transaction_id, locks[i].fund_type),
        lock_of(locks, locks[i].user, locks[i].transaction_id, locks[i].fund_type) == locks[i],
{
    let l = locks[i];
    let c = choose|k: int|
        0 <= k < locks.len() && lock_matches(#[trigger] locks[k], l.user, l.transaction_id, l.fund_type);
    if c < i {
        assert(!lock_matches(locks[c], locks[i].user, locks[i].transaction_id, locks[i].fund_type));
    } else if i < c {
        assert(!lock_matches(locks[i], locks[c].user, locks[c].transaction_id, locks[c].fund_type));
    }
}

/// Every lock belongs to a recorded transaction and to that
/// transaction's user.
pub open spec fn owned_locks(txs: Seq<Transaction>, locks: Seq<LockedFunds>) -> bool {
    forall|i: int|
        0 <= i < locks.len() ==> has_transaction(txs, (#[trigger] locks[i]).transaction_id)
            && transaction_of(txs, locks[i].transaction_id).user == locks[i].user
}

/// What a transition does to the lookup of every id: the transaction `id`
/// is moved, every other one stays as it is, and no id comes or goes.
pub proof fn lemma_transition_lookup(
    txs: Seq<Transaction>,
    counter: u64,
    id: u64,
    status: TransactionStatus,
    now: u64,
    other: u64,
)
    requires
        ordered_transactions(txs, counter),
    ensures
        ordered_transactions(with_transition(txs, id, status, now), counter),
        has_transaction(with_transition(txs, id, status, now), other) == has_transaction(txs, other),
        has_transaction(txs, other) ==> transaction_of(with_transition(txs, id, status, now), other) == if other
            == id {
            transitioned(transaction_of(txs, other), status, now)
        } else {
            transaction_of(txs, other)
        },
{
    let after = with_transition(txs, id, status, now);
    assert forall|i: int| 0 <= i < txs.len() implies (#[trigger] after[i]).id == txs[i].id by {}
    if has_transaction(txs, other) {
        let i = choose|i: int| 0 <= i < txs.len() && txs[i].id == other;
        assert(after[i].id == other);
        lemma_transaction_at(txs, counter, i);
        lemma_transaction_at(after, counter, i);
    }
    if has_transaction(after, other) {
        let i = choose|i: int| 0 <= i < after.len() && after[i].id == other;
        assert(txs[i].id == other);
    }
}

/// What a new transaction with a larger id does to the lookup of every id.
pub proof fn lemma_push_lookup(txs: Seq<Transaction>, counter: u64, tx: Transaction, other: u64)
    requires
        ordered_transactions(txs, counter),
        tx.id > counter,
    ensures
        ordered_transactions(txs.push(tx), tx.id),
        has_transaction(txs.push(tx), other) == (has_transaction(txs, other) || other == tx.id),
        has_transaction(txs, other) ==> transaction_of(txs.push(tx), other) == transaction_of(txs, other),
        transaction_of(txs.push(tx), tx.id) == tx,
{
    let after = txs.push(tx);
    assert forall|i: int, j: int| 0 <= i < j < after.len() implies after[i].id < after[j].id by {
        if j == txs.len() {
            assert(after[i] == txs[i]);
        } else {
            assert(after[i] == txs[i] && after[j] == txs[j]);
        }
    }
    assert forall|i: int| 0 <= i < after.len() implies 1 <= #[trigger] after[i].id <= tx.id by {
        if i < txs.len() {
            assert(after[i] == txs[i]);
        }
    }
    lemma_transaction_at(after, tx.id, txs.len() as int);
    if has_transaction(txs, other) {
        let i = choose|i: int| 0 <= i < txs.len() && txs[i].id == other;
        assert(after[i] == txs[i]);
        lemma_transaction_at(txs, counter, i);
        lemma_transaction_at(after, tx.id, i);
    }
    if has_transaction(after, other) && other != tx.id {
        let i = choose|i: int| 0 <= i < after.len() && after[i].id == other;
        assert(after[i] == txs[i]);
    }
}

/// The transactions and the locks of the engine.
pub struct TransactionManager {
    transactions: Vec<Transaction>,
    locks: Vec<LockedFunds>,
    counter: u64,
}

impl TransactionManager {
    /// The transactions, by increasing id.
    pub closed spec fn transactions(&self) -> Seq<Transaction> {
        self.transactions@
    }

    /// The locks, in the order in which they were made.
    pub closed spec fn locks(&self) -> Seq<LockedFunds> {
        self.locks@
    }

    /// The id that was given out last, or zero.
    pub closed spec fn counter(&self) -> u64 {
        self.counter
    }

    /// The invariant of the manager: ids increase and locks are exclusive.
    pub open spec fn wf(&self) -> bool {
        &&& ordered_transactions(self.transactions(), self.counter())
        &&& exclusive_locks(self.locks())
        &&& owned_locks(self.transactions(), self.locks())
    }

    /// A manager without transactions or locks.
    pub fn new() -> (m: TransactionManager)
        ensures
            m.wf(),
            m.transactions() == Seq::<Transaction>::empty(),
            m.locks() == Seq::<LockedFunds>::empty(),
            m.counter() == 0,
    {
        TransactionManager { transactions: Vec::new(), locks: Vec::new(), counter: 0 }
    }

    fn position(&self, transaction_id: u64) -> (r: Option<usize>)
        requires
            self.wf(),
        ensures
            r is Some <==> has_transaction(self.transactions(), transaction_id),
            r matches Some(i) ==> i < self.transactions().len() && self.transactions()[i as int].id
                == transaction_id && self.transactions()[i as int] == transaction_of(
                self.transactions(),
                transaction_id,
            ),
    {
        let mut i: usize = 0;
        while i < self.transactions.len()
            invariant
                self.wf(),
                i <= self.transactions.len(),
                forall|k: int| 0 <= k < i ==> self.transactions@[k].id != transaction_id,
            decreases self.transactions.len() - i,
        {
            if self.transactions[i].id == transaction_id {
                proof {
                    lemma_transaction_at(self.transactions@, self.counter, i as int);
                }
                return Some(i);
            }
            i += 1;
        }
        None
    }

    /// Records a new `Pending` transaction and returns its id, the next
    /// after the last one given out. Its deadline is thirty minutes after
    /// `now`.
    pub fn create_transaction(
        &mut self,
        user: PrincipalId,
        resolver: PrincipalId,
        bundle_id: u64,
        operation: OperationType,
        nav_tokens: u64,
        ckusdc_amount: u64,
        now: u64,
    ) -> (r: Result<u64, Error>)
        requires
            old(self).wf(),
        ensures
            final(self).wf(),
            final(self).locks() == old(self).locks(),
            history_preserved(old(self).transactions(), final(self).transactions()),
            old(self).counter() == u64::MAX ==> r == Err::<u64, Error>(Error::CounterOverflow) && *final(self)
                == *old(self),
            old(self).counter() < u64::MAX ==> r == Ok::<u64, Error>((old(self).counter() + 1) as u64)
                && final(self).counter() == old(self).counter() + 1 && final(self).transactions() == old(
                self,
            ).transactions().push(
                new_transaction(
                    (old(self).counter() + 1) as u64,
                    user,
                    resolver,
                    bundle_id,
                    operation,
                    nav_tokens,
                    ckusdc_amount,
                    now,
                ),
            ),
    {
        if self.counter == u64::MAX {
            return Err(Error::CounterOverflow);
        }
        let id = self.counter + 1;
        let tx = Transaction {
            id,
            request_id: id,
            user,
            resolver,
            bundle_id,
            operation,
            status: TransactionStatus::Pending,
            nav_tokens,
            ckusdc_amount,
            created_at: now,
            updated_at: now,
            completed_at: None,
            timeout_at: now.saturating_add(TRANSACTION_TIMEOUT_NS),
        };
        self.transactions.push(tx);
        self.counter = id;
        proof {
            let before = old(self).transactions();
            lemma_push_lookup(before, old(self).counter(), tx, id);
            lemma_push_preserves_history(before, old(self).counter(), tx);
            assert forall|k: int| 0 <= k < self.locks@.len() implies has_transaction(
                self.transactions@,
                (#[trigger] self.locks@[k]).transaction_id,
            ) && transaction_of(self.transactions@, self.locks@[k].transaction_id).user
                == self.locks@[k].user by {
                lemma_push_lookup(before, old(self).counter(), tx, self.locks@[k].transaction_id);
            }
        }
        Ok(id)
    }

    /// The transaction with this id.
    pub fn get_transaction(&self, transaction_id: u64) -> (r: Result<Transaction, Error>)
        requires
            self.wf(),
        ensures
            r == if has_transaction(self.transactions(), transaction_id) {
                Ok::<Transaction, Error>(transaction_of(self.transactions(), transaction_id))
            } else {
                Err::<Transaction, Error>(Error::TransactionNotFound)
            },
    {
        match self.position(transaction_id) {
            Some(i) => Ok(self.transactions[i]),
            None => Err(Error::TransactionNotFound),
        }
    }

    /// Moves a transaction to `status` at time `now`. Fails for an unknown
    /// id, and for a transaction that is already `Completed`, `Failed` or
    /// `TimedOut`: such a transaction never changes again.
    pub fn update_transaction_status(&mut self, transaction_id: u64, status: TransactionStatus, now: u64) -> (r:
        Result<(), Error>)
        requires
            old(self).wf(),
        ensures
            final(self).wf(),
            final(self).locks() == old(self).locks(),
            final(self).counter() == old(self).counter(),
            r == transition_result(old(self).transactions(), transaction_id),
            history_preserved(old(self).transactions(), final(self).transactions()),
            final(self).transactions() == if r is Ok {
                with_transition(old(self).transactions(), transaction_id, status, now)
            } else {
                old(self).transactions()
            },
    {
        match self.position(transaction_id) {
            None => Err(Error::TransactionNotFound),
            Some(i) => {
                let tx = self.transactions[i];
                if tx.status.terminal() {
                    return Err(Error::TransactionFinal);
                }
                let done = status.terminal();
                let moved = Transaction {
                    status,
                    updated_at: now,
                    completed_at: if done {
                        Some(now)
                    } else {
                        tx.completed_at
                    },
                    ..tx
                };
                self.transactions[i] = moved;
                proof {
                    let before = old(self).transactions();
                    let after = with_transition(before, transaction_id, status, now);
                    assert forall|k: int| 0 <= k < before.len() implies self.transactions@[k] == after[k] by {
                        if k != i {
                            if k < i {
                                assert(before[k].id < before[i as int].id);
                            } else {
                                assert(before[i as int].id < before[k].id);
                            }
                        }
                    }
                    assert(self.transactions@ =~= after);
                    lemma_transition_lookup(before, self.counter, transaction_id, status, now, transaction_id);
                    lemma_transition_preserves_history(before, self.counter, transaction_id, status, now);
                    assert forall|k: int| 0 <= k < self.locks@.len() implies has_transaction(
                        after,
                        (#[trigger] self.locks@[k]).transaction_id,
                    ) && transaction_of(after, self.locks@[k].transaction_id).user
                        == self.locks@[k].user by {
                        lemma_transition_lookup(
                            before,
                            self.counter,
                            transaction_id,
                            status,
                            now,
                            self.locks@[k].transaction_id,
                        );
                    }
                }
                Ok(())
            },
        }
    }
}

/// Whether a transition of the transaction `id` is accepted.
pub open spec fn transition_result(txs: Seq<Transaction>, id: u64) -> Result<(), Error> {
    if !has_transaction(txs, id) {
        Err(Error::TransactionNotFound)
    } else if transaction_of(txs, id).status.is_terminal() {
        Err(Error::TransactionFinal)
    } else {
        Ok(())
    }
}

/// The sum of the amounts that `user` has locked of `fund_type`.
pub open spec fn locked_total(locks: Seq<LockedFunds>, user: PrincipalId, fund_type: LockedFundType) -> nat
    decreases locks.len(),
{
    if locks.len() == 0 {
        0
    } else {
        locked_total(locks.drop_last(), user, fund_type) + if locks.last().user == user && locks.last().fund_type
            == fund_type {
            locks.last().amount as nat
        } else {
            0
        }
    }
}

/// What is left of a ledger balance when the user's locks of the same fund
/// type are taken off; zero where the locks exceed it.
pub open spec fn available_balance(
    locks: Seq<LockedFunds>,
    user: PrincipalId,
    fund_type: LockedFundType,
    balance: u64,
) -> u64 {
    if balance as nat >= locked_total(locks, user, fund_type) {
        (balance as nat - locked_total(locks, user, fund_type)) as u64
    } else {
        0
    }
}

/// Whether `amount` is covered by the available balance.
pub open spec fn balance_check(
    locks: Seq<LockedFunds>,
    user: PrincipalId,
    fund_type: LockedFundType,
    amount: u64,
    balance: u64,
) -> Result<(), Error> {
    let available = available_balance(locks, user, fund_type, balance);
    if available >= amount {
        Ok(())
    } else {
        match fund_type {
            LockedFundType::CkUSDC => Err(Error::InsufficientBalance { required: amount, available }),
            LockedFundType::NAVTokens { bundle_id } => Err(
                Error::InsufficientTokenBalance { bundle_id, required: amount, available },
            ),
        }
    }
}

/// Whether a lock can be made: the transaction is known, has no lock of
/// this fund type yet, is `Pending`, and, where a ledger balance is given,
/// the amount is covered by what is available of it. The checks are made in
/// this order.
pub open spec fn lock_result(
    txs: Seq<Transaction>,
    locks: Seq<LockedFunds>,
    transaction_id: u64,
    fund_type: LockedFundType,
    amount: u64,
    balance: Option<u64>,
) -> Result<(), Error> {
    let tx = transaction_of(txs, transaction_id);
    if !has_transaction(txs, transaction_id) {
        Err(Error::TransactionNotFound)
    } else if has_lock(locks, tx.user, transaction_id, fund_type) {
        Err(Error::AlreadyLocked)
    } else if tx.status != TransactionStatus::Pending {
        Err(Error::NotPending)
    } else {
        match balance {
            Some(b) => balance_check(locks, tx.user, fund_type, amount, b),
            None => Ok(()),
        }
    }
}

/// The lock that reserves `amount` for `tx`: it expires when the
/// transaction times out.
pub open spec fn new_lock(tx: Transaction, fund_type: LockedFundType, amount: u64, now: u64) -> LockedFunds {
    LockedFunds {
        user: tx.user,
        transaction_id: tx.id,
        fund_type,
        amount,
        locked_at: now,
        expires_at: tx.timeout_at,
    }
}

/// What `unlock_user_funds` returns.
pub open spec fn unlock_result(
    txs: Seq<Transaction>,
    locks: Seq<LockedFunds>,
    transaction_id: u64,
    fund_type: LockedFundType,
) -> Result<u64, Error> {
    let tx = transaction_of(txs, transaction_id);
    if !has_transaction(txs, transaction_id) {
        Err(Error::TransactionNotFound)
    } else if !has_lock(locks, tx.user, transaction_id, fund_type) {
        Err(Error::NoLockFound)
    } else {
        Ok(lock_of(locks, tx.user, transaction_id, fund_type).amount)
    }
}

/// Taking locks away leaves the rest exclusive and owned.
pub proof fn lemma_filter_keeps_locks_valid(
    txs: Seq<Transaction>,
    locks: Seq<LockedFunds>,
    keep: spec_fn(LockedFunds) -> bool,
)
    requires
        exclusive_locks(locks),
        owned_locks(txs, locks),
    ensures
        exclusive_locks(locks.filter(keep)),
        owned_locks(txs, locks.filter(keep)),
        forall|i: int|
            0 <= i < locks.filter(keep).len() ==> locks.contains(#[trigger] locks.filter(keep)[i]) && keep(
                locks.filter(keep)[i],
            ),
    decreases locks.len(),
{
    reveal(Seq::filter);
    if locks.len() > 0 {
        let front = locks.drop_last();
        let last = locks.last();
        assert forall|i: int, j: int| 0 <= i < j < front.len() implies !lock_matches(
            #[trigger] front[i],
            (#[trigger] front[j]).user,
            front[j].transaction_id,
            front[j].fund_type,
        ) by {
            assert(front[i] == locks[i] && front[j] == locks[j]);
        }
        assert forall|i: int| 0 <= i < front.len() implies has_transaction(
            txs,
            (#[trigger] front[i]).transaction_id,
        ) && transaction_of(txs, front[i].transaction_id).user == front[i].user by {
            assert(front[i] == locks[i]);
        }
        lemma_filter_keeps_locks_valid(txs, front, keep);
        let kept = front.filter(keep);
        assert forall|i: int| 0 <= i < kept.len() implies locks.contains(#[trigger] kept[i]) by {
            assert(front.contains(kept[i]));
            let k = choose|k: int| 0 <= k < front.len() && front[k] == kept[i];
            assert(locks[k] == kept[i]);
        }
        if keep(last) {
            let all = kept.push(last);
            assert(locks.filter(keep) == all);
            assert(locks[locks.len() - 1] == last);
            assert forall|i: int, j: int| 0 <= i < j < all.len() implies !lock_matches(
                #[trigger] all[i],
                (#[trigger] all[j]).user,
                all[j].transaction_id,
                all[j].fund_type,
            ) by {
                if j == kept.len() {
                    assert(front.contains(kept[i]));
                    let k = choose|k: int| 0 <= k < front.len() && front[k] == kept[i];
                    assert(locks[k] == kept[i]);
                    assert(!lock_matches(
                        locks[k],
                        locks[locks.len() - 1].user,
                        locks[locks.len() - 1].transaction_id,
                        locks[locks.len() - 1].fund_type,
                    ));
                } else {
                    assert(all[i] == kept[i] && all[j] == kept[j]);
                }
            }
            assert forall|i: int| 0 <= i < all.len() implies has_transaction(
                txs,
                (#[trigger] all[i]).transaction_id,
            ) && transaction_of(txs, all[i].transaction_id).user == all[i].user && locks.contains(all[i])
                && keep(all[i]) by {
                if i < kept.len() {
                    assert(all[i] == kept[i]);
                }
            }
        }
    }
}

impl TransactionManager {
    fn lock_position(&self, user: &PrincipalId, transaction_id: u64, fund_type: &LockedFundType) -> (r: Option<
        usize,
    >)
        requires
            self.wf(),
        ensures
            r is Some <==> has_lock(self.locks(), *user, transaction_id, *fund_type),
            r matches Some(i) ==> i < self.locks().len() && lock_matches(
                self.locks()[i as int],
                *user,
                transaction_id,
                *fund_type,
            ) && self.locks()[i as int] == lock_of(self.locks(), *user, transaction_id, *fund_type),
    {
        let mut i: usize = 0;
        while i < self.locks.len()
            invariant
                self.wf(),
                i <= self.locks.len(),
                forall|k: int| 0 <= k < i ==> !lock_matches(#[trigger] self.locks@[k], *user, transaction_id, *fund_type),
            decreases self.locks.len() - i,
        {
            let l = &self.locks[i];
            if l.transaction_id == transaction_id && l.fund_type == *fund_type && l.user.same_as(user) {
                proof {
                    lemma_lock_at(self.locks@, i as int);
                }
                return Some(i);
            }
            i += 1;
        }
        None
    }

    /// Whether the transaction is known and has a lock of this fund type.
    pub fn is_fund_already_locked(&self, transaction_id: u64, fund_type: &LockedFundType) -> (r: bool)
        requires
            self.wf(),
        ensures
            r == (has_transaction(self.transactions(), transaction_id) && has_lock(
                self.locks(),
                transaction_of(self.transactions(), transaction_id).user,
                transaction_id,
                *fund_type,
            )),
    {
        match self.position(transaction_id) {
            None => false,
            Some(i) => {
                let user = self.transactions[i].user;
                self.lock_position(&user, transaction_id, fund_type).is_some()
            },
        }
    }

    /// The sum of what `user` has locked of `fund_type`, capped at 64 bits.
    pub fn get_user_total_locked_amount(&self, user: PrincipalId, fund_type: &LockedFundType) -> (r: u64)
        ensures
            r == saturated(locked_total(self.locks(), user, *fund_type)),
    {
        let mut total: u64 = 0;
        let mut i: usize = 0;
        while i < self.locks.len()
            invariant
                i <= self.locks.len(),
                total == saturated(locked_total(self.locks@.take(i as int), user, *fund_type)),
            decreases self.locks.len() - i,
        {
            assert(self.locks@.take(i + 1).drop_last() =~= self.locks@.take(i as int));
            let l = &self.locks[i];
            if l.fund_type == *fund_type && l.user.same_as(&user) {
                total = total.saturating_add(l.amount);
            }
            i += 1;
        }
        assert(self.locks@.take(i as int) =~= self.locks@);
        total
    }

    /// Whether `amount` is covered by `balance`, the user's balance on the
    /// ledger of `fund_type`, less what the user has locked of it already.
    pub fn validate_sufficient_balance(
        &self,
        user: PrincipalId,
        fund_type: &LockedFundType,
        amount: u64,
        balance: u64,
    ) -> (r: Result<(), Error>)
        ensures
            r == balance_check(self.locks(), user, *fund_type, amount, balance),
    {
        let locked = self.get_user_total_locked_amount(user, fund_type);
        let available = balance.saturating_sub(locked);
        if available >= amount {
            Ok(())
        } else {
            match fund_type {
                LockedFundType::CkUSDC => Err(Error::InsufficientBalance { required: amount, available }),
                LockedFundType::NAVTokens { bundle_id } => Err(
                    Error::InsufficientTokenBalance { bundle_id: *bundle_id, required: amount, available },
                ),
            }
        }
    }

    fn lock_checked(
        &mut self,
        transaction_id: u64,
        fund_type: LockedFundType,
        amount: u64,
        balance: Option<u64>,
        now: u64,
    ) -> (r: Result<(), Error>)
        requires
            old(self).wf(),
        ensures
            final(self).wf(),
            final(self).counter() == old(self).counter(),
            r == lock_result(
                old(self).transactions(),
                old(self).locks(),
                transaction_id,
                fund_type,
                amount,
                balance,
            ),
            r is Ok ==> final(self).locks() == old(self).locks().push(
                new_lock(transaction_of(old(self).transactions(), transaction_id), fund_type, amount, now),
            ) && final(self).transactions() == with_transition(
                old(self).transactions(),
                transaction_id,
                TransactionStatus::FundsLocked,
                now,
            ),
            r is Err ==> final(self).locks() == old(self).locks() && final(self).transactions() == old(
                self,
            ).transactions(),
    {
        let tx = match self.position(transaction_id) {
            None => {
                return Err(Error::TransactionNotFound);
            },
            Some(i) => self.transactions[i],
        };
        if self.lock_position(&tx.user, transaction_id, &fund_type).is_some() {
            return Err(Error::AlreadyLocked);
        }
        if tx.status != TransactionStatus::Pending {
            return Err(Error::NotPending);
        }
        match balance {
            Some(b) => {
                match self.validate_sufficient_balance(tx.user, &fund_type, amount, b) {
                    Ok(()) => {},
                    Err(e) => {
                        return Err(e);
                    },
                }
            },
            None => {},
        }
        let lock = LockedFunds {
            user: tx.user,
            transaction_id,
            fund_type,
            amount,
            locked_at: now,
            expires_at: tx.timeout_at,
        };
        self.locks.push(lock);
        proof {
            let before = old(self).locks();
            let after = self.locks@;
            assert forall|i: int, j: int| 0 <= i < j < after.len() implies !lock_matches(
                #[trigger] after[i],
                (#[trigger] after[j]).user,
                after[j].transaction_id,
                after[j].fund_type,
            ) by {
                if j == before.len() {
                    assert(after[i] == before[i]);
                } else {
                    assert(after[i] == before[i] && after[j] == before[j]);
                }
            }
            assert forall|i: int| 0 <= i < after.len() implies has_transaction(
                self.transactions@,
                (#[trigger] after[i]).transaction_id,
            ) && transaction_of(self.transactions@, after[i].transaction_id).user == after[i].user by {
                if i < before.len() {
                    assert(after[i] == before[i]);
                }
            }
        }
        let moved = self.update_transaction_status(transaction_id, TransactionStatus::FundsLocked, now);
        assert(moved is Ok);
        Ok(())
    }

    /// Reserves `amount` of `fund_type` for a `Pending` transaction and
    /// moves it to `FundsLocked`. A second lock of the same fund type for
    /// the same transaction fails with `AlreadyLocked`, and changes nothing.
    pub fn lock_user_funds(&mut self, transaction_id: u64, fund_type: LockedFundType, amount: u64, now: u64) -> (r:
        Result<(), Error>)
        requires
            old(self).wf(),
        ensures
            final(self).wf(),
            final(self).counter() == old(self).counter(),
            r == lock_result(
                old(self).transactions(),
                old(self).locks(),
                transaction_id,
                fund_type,
                amount,
                None,
            ),
            r is Ok ==> final(self).locks() == old(self).locks().push(
                new_lock(transaction_of(old(self).transactions(), transaction_id), fund_type, amount, now),
            ) && final(self).transactions() == with_transition(
                old(self).transactions(),
                transaction_id,
                TransactionStatus::FundsLocked,
                now,
            ),
            r is Err ==> final(self).locks() == old(self).locks() && final(self).transactions() == old(
                self,
            ).transactions(),
    {
        self.lock_checked(transaction_id, fund_type, amount, None, now)
    }

    /// Reserves `amount` as `lock_user_funds` does, after checking it
    /// against `balance`, the user's balance as the ledger of `fund_type`
    /// reported it. The check for an existing lock comes first.
    pub fn lock_user_funds_with_validation(
        &mut self,
        transaction_id: u64,
        fund_type: LockedFundType,
        amount: u64,
        balance: u64,
        now: u64,
    ) -> (r: Result<(), Error>)
        requires
            old(self).wf(),
        ensures
            final(self).wf(),
            final(self).counter() == old(self).counter(),
            r == lock_result(
                old(self).transactions(),
                old(self).locks(),
                transaction_id,
                fund_type,
                amount,
                Some(balance),
            ),
            r is Ok ==> final(self).locks() == old(self).locks().push(
                new_lock(transaction_of(old(self).transactions(), transaction_id), fund_type, amount, now),
            ) && final(self).transactions() == with_transition(
                old(self).transactions(),
                transaction_id,
                TransactionStatus::FundsLocked,
                now,
            ),
            r is Err ==> final(self).locks() == old(self).locks() && final(self).transactions() == old(
                self,
            ).transactions(),
    {
        self.lock_checked(transaction_id, fund_type, amount, Some(balance), now)
    }

    /// Releases the lock of `fund_type` of a transaction and returns its
    /// amount. Fails with `NoLockFound` where there is none: a second
    /// release after a first one fails.
    pub fn unlock_user_funds(&mut self, transaction_id: u64, fund_type: &LockedFundType) -> (r: Result<u64, Error>)
        requires
            old(self).wf(),
        ensures
            final(self).wf(),
            final(self).counter() == old(self).counter(),
            final(self).transactions() == old(self).transactions(),
            r == unlock_result(old(self).transactions(), old(self).locks(), transaction_id, *fund_type),
            final(self).locks() == if r is Ok {
                without_lock(
                    old(self).locks(),
                    transaction_of(old(self).transactions(), transaction_id).user,
                    transaction_id,
                    *fund_type,
                )
            } else {
                old(self).locks()
            },
    {
        let user = match self.position(transaction_id) {
            None => {
                return Err(Error::TransactionNotFound);
            },
            Some(i) => self.transactions[i].user,
        };
        match self.lock_position(&user, transaction_id, fund_type) {
            None => Err(Error::NoLockFound),
            Some(i) => {
                let lock = self.locks.remove(i);
                proof {
                    let before = old(self).locks();
                    let keep = |l: LockedFunds| !lock_matches(l, user, transaction_id, *fund_type);
                    assert forall|j: int| 0 <= j < before.len() && j != i implies keep(#[trigger] before[j]) by {
                        if j < i {
                            assert(!lock_matches(
                                before[j],
                                before[i as int].user,
                                before[i as int].transaction_id,
                                before[i as int].fund_type,
                            ));
                        } else {
                            assert(!lock_matches(
                                before[i as int],
                                before[j].user,
                                before[j].transaction_id,
                                before[j].fund_type,
                            ));
                        }
                    }
                    lemma_filter_removes_one(before, keep, i as int);
                    lemma_filter_keeps_locks_valid(self.transactions@, before, keep);
                }
                Ok(lock.amount)
            },
        }
    }

    /// When the lock of `fund_type` of a transaction expires.
    pub fn get_lock_expiration_time(&self, transaction_id: u64, fund_type: &LockedFundType) -> (r: Result<
        u64,
        Error,
    >)
        requires
            self.wf(),
        ensures
            r == match unlock_result(self.transactions(), self.locks(), transaction_id, *fund_type) {
                Ok(_) => Ok::<u64, Error>(
                    lock_of(
                        self.locks(),
                        transaction_of(self.transactions(), transaction_id).user,
                        transaction_id,
                        *fund_type,
                    ).expires_at,
                ),
                Err(e) => Err::<u64, Error>(e),
            },
    {
        let user = match self.position(transaction_id) {
            None => {
                return Err(Error::TransactionNotFound);
            },
            Some(i) => self.transactions[i].user,
        };
        match self.lock_position(&user, transaction_id, fund_type) {
            None => Err(Error::NoLockFound),
            Some(i) => Ok(self.locks[i].expires_at),
        }
    }

    /// Sets when the lock of `fund_type` of a transaction expires.
    pub fn extend_lock_expiration(&mut self, transaction_id: u64, fund_type: &LockedFundType, new_expiration: u64) -> (r:
        Result<(), Error>)
        requires
            old(self).wf(),
        ensures
            final(self).wf(),
            final(self).counter() == old(self).counter(),
            final(self).transactions() == old(self).transactions(),
            r == match unlock_result(old(self).transactions(), old(self).locks(), transaction_id, *fund_type) {
                Ok(_) => Ok::<(), Error>(()),
                Err(e) => Err::<(), Error>(e),
            },
            final(self).locks() == if r is Ok {
                with_expiration(
                    old(self).locks(),
                    transaction_of(old(self).transactions(), transaction_id).user,
                    transaction_id,
                    *fund_type,
                    new_expiration,
                )
            } else {
                old(self).locks()
            },
    {
        let user = match self.position(transaction_id) {
            None => {
                return Err(Error::TransactionNotFound);
            },
            Some(i) => self.transactions[i].user,
        };
        match self.lock_position(&user, transaction_id, fund_type) {
            None => Err(Error::NoLockFound),
            Some(i) => {
                let lock = self.locks[i];
                self.locks[i] = LockedFunds { expires_at: new_expiration, ..lock };
                proof {
                    let before = old(self).locks();
                    let after = with_expiration(before, user, transaction_id, *fund_type, new_expiration);
                    assert forall|k: int| 0 <= k < before.len() implies self.locks@[k] == after[k] by {
                        if k < i {
                            assert(!lock_matches(
                                before[k],
                                before[i as int].user,
                                before[i as int].transaction_id,
                                before[i as int].fund_type,
                            ));
                        } else if k > i {
                            assert(!lock_matches(
                                before[i as int],
                                before[k].user,
                                before[k].transaction_id,
                                before[k].fund_type,
                            ));
                        }
                    }
                    assert(self.locks@ =~= after);
                    assert forall|a: int, b: int| 0 <= a < b < after.len() implies !lock_matches(
                        #[trigger] after[a],
                        (#[trigger] after[b]).user,
                        after[b].transaction_id,
                        after[b].fund_type,
                    ) by {
                        assert(!lock_matches(
                            before[a],
                            before[b].user,
                            before[b].transaction_id,
                            before[b].fund_type,
                        ));
                    }
                    assert forall|k: int| 0 <= k < after.len() implies has_transaction(
                        self.transactions@,
                        (#[trigger] after[k]).transaction_id,
                    ) && transaction_of(self.transactions@, after[k].transaction_id).user == after[k].user by {
                        assert(before[k].transaction_id == after[k].transaction_id);
                    }
                }
                Ok(())
            },
        }
    }
}

/// `locks` with the expiry of the lock of this identity set to `expires_at`.
pub open spec fn with_expiration(
    locks: Seq<LockedFunds>,
    user: PrincipalId,
    transaction_id: u64,
    fund_type: LockedFundType,
    expires_at: u64,
) -> Seq<LockedFunds> {
    locks.map_values(
        |l: LockedFunds|
            if lock_matches(l, user, transaction_id, fund_type) {
                LockedFunds { expires_at, ..l }
            } else {
                l
            },
    )
}

/// What can be summed over transactions.
pub enum Measure {
    /// One for each transaction.
    Count,
    /// One for each transaction with this status.
    WithStatus(TransactionStatus),
    /// One for each transaction that is not `Completed`, `Failed` or
    /// `TimedOut`.
    Open,
    /// The settlement amount.
    Volume,
    /// The settlement amount of `Completed` transactions.
    CompletedVolume,
    /// The bundle tokens of transactions of this operation.
    Tokens(OperationType),
    /// One for each `Completed` transaction with a time of completion.
    Timed,
    /// The milliseconds from creation to completion of such a transaction.
    CompletionMs,
    /// One for each transaction of this operation.
    Operation(OperationType),
    /// The settlement amount of `Completed` transactions of this operation.
    OperationVolume(OperationType),
}

/// What a transaction adds to a sum.
pub open spec fn measure(tx: Transaction, m: Measure) -> nat {
    match m {
        Measure::Count => 1,
        Measure::WithStatus(status) => if tx.status == status {
            1
        } else {
            0
        },
        Measure::Open => if tx.status.is_terminal() {
            0
        } else {
            1
        },
        Measure::Volume => tx.ckusdc_amount as nat,
        Measure::CompletedVolume => if tx.status == TransactionStatus::Completed {
            tx.ckusdc_amount as nat
        } else {
            0
        },
        Measure::Tokens(operation) => if tx.operation == operation {
            tx.nav_tokens as nat
        } else {
            0
        },
        Measure::Timed => if tx.status == TransactionStatus::Completed && tx.completed_at is Some {
            1
        } else {
            0
        },
        Measure::CompletionMs => if tx.status == TransactionStatus::Completed {
            completion_ms(tx) as nat
        } else {
            0
        },
        Measure::Operation(operation) => if tx.operation == operation {
            1
        } else {
            0
        },
        Measure::OperationVolume(operation) => if tx.operation == operation && tx.status
            == TransactionStatus::Completed {
            tx.ckusdc_amount as nat
        } else {
            0
        },
    }
}

/// The milliseconds from creation to completion; zero for a transaction
/// that is not complete, or whose completion is stamped before its
/// creation.
pub open spec fn completion_ms(tx: Transaction) -> u64 {
    match tx.completed_at {
        Some(done) => if done >= tx.created_at {
            ((done - tx.created_at) / NS_PER_MS as int) as u64
        } else {
            0
        },
        None => 0,
    }
}

/// The sum of a measure over the transactions.
pub open spec fn total(txs: Seq<Transaction>, m: Measure) -> nat
    decreases txs.len(),
{
    if txs.len() == 0 {
        0
    } else {
        total(txs.drop_last(), m) + measure(txs.last(), m)
    }
}

/// A sum grows by what the next transaction adds.
pub proof fn lemma_total_step(txs: Seq<Transaction>, i: int, m: Measure)
    requires
        0 <= i < txs.len(),
    ensures
        total(txs.take(i + 1), m) == total(txs.take(i), m) + measure(txs[i], m),
{
    assert(txs.take(i + 1).drop_last() =~= txs.take(i));
}

/// The totals over all transactions. Sums that exceed 64 bits are reported
/// as the largest 64-bit number.
pub open spec fn transaction_stats(txs: Seq<Transaction>) -> TransactionStats {
    TransactionStats {
        total_transactions: saturated(total(txs, Measure::Count)),
        completed_transactions: saturated(total(txs, Measure::WithStatus(TransactionStatus::Completed))),
        failed_transactions: saturated(
            total(txs, Measure::WithStatus(TransactionStatus::Failed)) + total(
                txs,
                Measure::WithStatus(TransactionStatus::TimedOut),
            ),
        ),
        pending_transactions: saturated(total(txs, Measure::Open)),
        total_volume_ckusdc: saturated(total(txs, Measure::Volume)),
        total_nav_tokens_minted: saturated(total(txs, Measure::Tokens(OperationType::Buy))),
        total_nav_tokens_burned: saturated(total(txs, Measure::Tokens(OperationType::Sell))),
        average_completion_time_ms: if total(txs, Measure::Timed) > 0 {
            (saturated(total(txs, Measure::CompletionMs)) as nat / saturated(
                total(txs, Measure::Timed),
            ) as nat) as u64
        } else {
            0
        },
    }
}

/// The transactions of one bundle.
pub open spec fn of_bundle(txs: Seq<Transaction>, bundle_id: u64) -> Seq<Transaction> {
    txs.filter(|t: Transaction| t.bundle_id == bundle_id)
}

/// The transactions of one user.
pub open spec fn of_user(txs: Seq<Transaction>, user: PrincipalId) -> Seq<Transaction> {
    txs.filter(|t: Transaction| t.user == user)
}

/// The latest time of creation among the transactions, if there is one.
pub open spec fn latest_creation(txs: Seq<Transaction>) -> Option<u64>
    decreases txs.len(),
{
    if txs.len() == 0 {
        None
    } else {
        match latest_creation(txs.drop_last()) {
            Some(t) => if txs.last().created_at > t {
                Some(txs.last().created_at)
            } else {
                Some(t)
            },
            None => Some(txs.last().created_at),
        }
    }
}

/// The totals over the transactions of one bundle.
pub open spec fn bundle_history(txs: Seq<Transaction>, bundle_id: u64) -> BundleTransactionHistory {
    let own = of_bundle(txs, bundle_id);
    BundleTransactionHistory {
        bundle_id,
        total_buy_transactions: saturated(total(own, Measure::Operation(OperationType::Buy))),
        total_sell_transactions: saturated(total(own, Measure::Operation(OperationType::Sell))),
        total_volume_bought: saturated(total(own, Measure::OperationVolume(OperationType::Buy))),
        total_volume_sold: saturated(total(own, Measure::OperationVolume(OperationType::Sell))),
        last_transaction_at: latest_creation(own),
        active_transactions: if total(own, Measure::Open) > u32::MAX {
            u32::MAX
        } else {
            total(own, Measure::Open) as u32
        },
    }
}

/// The totals over the transactions and the locks of one user.
pub open spec fn user_summary(txs: Seq<Transaction>, locks: Seq<LockedFunds>, user: PrincipalId) -> UserTransactionSummary {
    let own = of_user(txs, user);
    UserTransactionSummary {
        user,
        total_transactions: saturated(total(own, Measure::Count)),
        buy_transactions: saturated(total(own, Measure::Operation(OperationType::Buy))),
        sell_transactions: saturated(total(own, Measure::Operation(OperationType::Sell))),
        total_volume_ckusdc: saturated(total(own, Measure::CompletedVolume)),
        current_locked_funds: saturated(locked_by_user(locks, user)),
        last_transaction_at: latest_creation(own),
    }
}

/// The sum of the amounts of all locks of `user`, of any fund type.
pub open spec fn locked_by_user(locks: Seq<LockedFunds>, user: PrincipalId) -> nat
    decreases locks.len(),
{
    if locks.len() == 0 {
        0
    } else {
        locked_by_user(locks.drop_last(), user) + if locks.last().user == user {
            locks.last().amount as nat
        } else {
            0
        }
    }
}

/// A transaction as a listing shows it: for a complete one, with the
/// milliseconds it took.
pub open spec fn summary_of(tx: Transaction) -> TransactionSummary {
    TransactionSummary {
        id: tx.id,
        user: tx.user,
        bundle_id: tx.bundle_id,
        operation: tx.operation,
        status: tx.status,
        nav_tokens: tx.nav_tokens,
        ckusdc_amount: tx.ckusdc_amount,
        created_at: tx.created_at,
        duration_ms: match tx.completed_at {
            Some(_) => Some(completion_ms(tx)),
            None => None,
        },
    }
}

/// The milliseconds from creation to completion.
pub fn completion_time_ms(tx: &Transaction) -> (ms: u64)
    ensures
        ms == completion_ms(*tx),
{
    match tx.completed_at {
        Some(done) => if done >= tx.created_at {
            (done - tx.created_at) / NS_PER_MS
        } else {
            0
        },
        None => 0,
    }
}

/// The first transaction, by id, that meets `wanted`.
pub open spec fn first_matching(txs: Seq<Transaction>, wanted: spec_fn(Transaction) -> bool) -> Option<
    Transaction,
> {
    if txs.filter(wanted).len() == 0 {
        None
    } else {
        Some(txs.filter(wanted)[0])
    }
}

/// The first transaction, by id, that was made for this request.
pub open spec fn request_lookup(txs: Seq<Transaction>, request_id: u64) -> Result<Transaction, Error> {
    match first_matching(txs, |t: Transaction| t.request_id == request_id) {
        Some(tx) => Ok(tx),
        None => Err(Error::TransactionNotFoundForRequest),
    }
}

/// Whether a resolver may act on a transaction: it is the assigned
/// resolver, and the transaction waits for it.
pub open spec fn resolver_check(txs: Seq<Transaction>, transaction_id: u64, caller: PrincipalId) -> Result<
    (),
    Error,
> {
    let tx = transaction_of(txs, transaction_id);
    if !has_transaction(txs, transaction_id) {
        Err(Error::TransactionNotFound)
    } else if tx.resolver != caller {
        Err(Error::NotAssignedResolver)
    } else if tx.status != TransactionStatus::FundsLocked && tx.status != TransactionStatus::WaitingForResolver {
        Err(Error::WrongStatus)
    } else {
        Ok(())
    }
}

impl TransactionManager {
    /// The totals over all transactions.
    pub fn get_transaction_stats(&self) -> (stats: TransactionStats)
        ensures
            stats == transaction_stats(self.transactions()),
    {
        let mut count: u64 = 0;
        let mut completed: u64 = 0;
        let mut failed: u64 = 0;
        let mut open: u64 = 0;
        let mut volume: u64 = 0;
        let mut minted: u64 = 0;
        let mut burned: u64 = 0;
        let mut timed: u64 = 0;
        let mut time: u64 = 0;
        let mut i: usize = 0;
        let ghost txs = self.transactions@;
        while i < self.transactions.len()
            invariant
                i <= self.transactions.len(),
                txs == self.transactions@,
                count == saturated(total(txs.take(i as int), Measure::Count)),
                completed == saturated(total(txs.take(i as int), Measure::WithStatus(TransactionStatus::Completed))),
                failed == saturated(
                    total(txs.take(i as int), Measure::WithStatus(TransactionStatus::Failed)) + total(
                        txs.take(i as int),
                        Measure::WithStatus(TransactionStatus::TimedOut),
                    ),
                ),
                open == saturated(total(txs.take(i as int), Measure::Open)),
                volume == saturated(total(txs.take(i as int), Measure::Volume)),
                minted == saturated(total(txs.take(i as int), Measure::Tokens(OperationType::Buy))),
                burned == saturated(total(txs.take(i as int), Measure::Tokens(OperationType::Sell))),
                timed == saturated(total(txs.take(i as int), Measure::Timed)),
                time == saturated(total(txs.take(i as int), Measure::CompletionMs)),
            decreases self.transactions.len() - i,
        {
            proof {
                lemma_total_step(txs, i as int, Measure::Count);
                lemma_total_step(txs, i as int, Measure::WithStatus(TransactionStatus::Completed));
                lemma_total_step(txs, i as int, Measure::WithStatus(TransactionStatus::Failed));
                lemma_total_step(txs, i as int, Measure::WithStatus(TransactionStatus::TimedOut));
                lemma_total_step(txs, i as int, Measure::Open);
                lemma_total_step(txs, i as int, Measure::Volume);
                lemma_total_step(txs, i as int, Measure::Tokens(OperationType::Buy));
                lemma_total_step(txs, i as int, Measure::Tokens(OperationType::Sell));
                lemma_total_step(txs, i as int, Measure::Timed);
                lemma_total_step(txs, i as int, Measure::CompletionMs);
            }
            let tx = &self.transactions[i];
            count = count.saturating_add(1);
            volume = volume.saturating_add(tx.ckusdc_amount);
            match tx.operation {
                OperationType::Buy => {
                    minted = minted.saturating_add(tx.nav_tokens);
                },
                OperationType::Sell => {
                    burned = burned.saturating_add(tx.nav_tokens);
                },
            }
            match tx.status {
                TransactionStatus::Completed => {
                    completed = completed.saturating_add(1);
                    if tx.completed_at.is_some() {
                        timed = timed.saturating_add(1);
                    }
                    time = time.saturating_add(completion_time_ms(tx));
                },
                TransactionStatus::Failed | TransactionStatus::TimedOut => {
                    failed = failed.saturating_add(1);
                },
                _ => {
                    open = open.saturating_add(1);
                },
            }
            i += 1;
        }
        assert(txs.take(i as int) =~= txs);
        TransactionStats {
            total_transactions: count,
            completed_transactions: completed,
            failed_transactions: failed,
            pending_transactions: open,
            total_volume_ckusdc: volume,
            total_nav_tokens_minted: minted,
            total_nav_tokens_burned: burned,
            average_completion_time_ms: if timed > 0 {
                time / timed
            } else {
                0
            },
        }
    }

    /// The transaction with this id as a listing shows it.
    pub fn get_transaction_summary(&self, transaction_id: u64) -> (r: Result<TransactionSummary, Error>)
        requires
            self.wf(),
        ensures
            r == if has_transaction(self.transactions(), transaction_id) {
                Ok::<TransactionSummary, Error>(summary_of(transaction_of(self.transactions(), transaction_id)))
            } else {
                Err::<TransactionSummary, Error>(Error::TransactionNotFound)
            },
    {
        match self.position(transaction_id) {
            None => Err(Error::TransactionNotFound),
            Some(i) => {
                let tx = &self.transactions[i];
                Ok(
                    TransactionSummary {
                        id: tx.id,
                        user: tx.user,
                        bundle_id: tx.bundle_id,
                        operation: tx.operation,
                        status: tx.status,
                        nav_tokens: tx.nav_tokens,
                        ckusdc_amount: tx.ckusdc_amount,
                        created_at: tx.created_at,
                        duration_ms: match tx.completed_at {
                            Some(_) => Some(completion_time_ms(tx)),
                            None => None,
                        },
                    },
                )
            },
        }
    }

    /// Whether `caller` may act as the resolver of a transaction.
    pub fn validate_resolver_for_transaction(&self, transaction_id: u64, caller: &PrincipalId) -> (r: Result<
        (),
        Error,
    >)
        requires
            self.wf(),
        ensures
            r == resolver_check(self.transactions(), transaction_id, *caller),
    {
        match self.position(transaction_id) {
            None => Err(Error::TransactionNotFound),
            Some(i) => {
                let tx = &self.transactions[i];
                if !tx.resolver.same_as(caller) {
                    Err(Error::NotAssignedResolver)
                } else if tx.status != TransactionStatus::FundsLocked && tx.status
                    != TransactionStatus::WaitingForResolver {
                    Err(Error::WrongStatus)
                } else {
                    Ok(())
                }
            },
        }
    }

    /// The first transaction, by id, that was made for this request.
    pub fn get_transaction_by_request(&self, request_id: u64) -> (r: Result<Transaction, Error>)
        requires
            self.wf(),
        ensures
            r == request_lookup(self.transactions(), request_id),
            r matches Ok(tx) ==> tx.request_id == request_id && has_transaction(self.transactions(), tx.id)
                && transaction_of(self.transactions(), tx.id) == tx,
    {
        let ghost wanted = |t: Transaction| t.request_id == request_id;
        let ghost txs = self.transactions@;
        let mut i: usize = 0;
        while i < self.transactions.len()
            invariant
                self.wf(),
                i <= self.transactions.len(),
                txs == self.transactions@,
                wanted == (|t: Transaction| t.request_id == request_id),
                txs.take(i as int).filter(wanted).len() == 0,
            decreases self.transactions.len() - i,
        {
            proof {
                assert(txs.take(i + 1) =~= txs.take(i as int).push(txs[i as int]));
                txs.take(i as int).lemma_filter_push(txs[i as int], wanted);
            }
            if self.transactions[i].request_id == request_id {
                proof {
                    assert(txs =~= txs.take(i + 1) + txs.skip(i + 1));
                    Seq::filter_distributes_over_add(txs.take(i + 1), txs.skip(i + 1), wanted);
                    assert(txs.take(i as int).filter(wanted) =~= Seq::<Transaction>::empty());
                    lemma_transaction_at(txs, self.counter, i as int);
                }
                return Ok(self.transactions[i]);
            }
            i += 1;
        }
        assert(txs.take(i as int) =~= txs);
        Err(Error::TransactionNotFoundForRequest)
    }

    /// The transactions of `user`, by increasing id.
    pub fn get_user_transactions(&self, user: &PrincipalId) -> (out: Vec<Transaction>)
        ensures
            out@ == of_user(self.transactions(), *user),
    {
        let ghost wanted = |t: Transaction| t.user == *user;
        let ghost txs = self.transactions@;
        let mut out: Vec<Transaction> = Vec::new();
        let mut i: usize = 0;
        proof {
            reveal(Seq::filter);
            assert(txs.take(0).filter(wanted) =~= Seq::<Transaction>::empty());
        }
        while i < self.transactions.len()
            invariant
                i <= self.transactions.len(),
                txs == self.transactions@,
                wanted == (|t: Transaction| t.user == *user),
                out@ == txs.take(i as int).filter(wanted),
            decreases self.transactions.len() - i,
        {
            proof {
                assert(txs.take(i + 1) =~= txs.take(i as int).push(txs[i as int]));
                txs.take(i as int).lemma_filter_push(txs[i as int], wanted);
            }
            if self.transactions[i].user.same_as(user) {
                out.push(self.transactions[i]);
            }
            i += 1;
        }
        assert(txs.take(i as int) =~= txs);
        out
    }

    /// The transactions with this status, by increasing id.
    pub fn get_transactions_by_status(&self, status: TransactionStatus) -> (out: Vec<Transaction>)
        ensures
            out@ == self.transactions().filter(|t: Transaction| t.status == status),
    {
        let ghost wanted = |t: Transaction| t.status == status;
        let ghost txs = self.transactions@;
        let mut out: Vec<Transaction> = Vec::new();
        let mut i: usize = 0;
        proof {
            reveal(Seq::filter);
            assert(txs.take(0).filter(wanted) =~= Seq::<Transaction>::empty());
        }
        while i < self.transactions.len()
            invariant
                i <= self.transactions.len(),
                txs == self.transactions@,
                wanted == (|t: Transaction| t.status == status),
                out@ == txs.take(i as int).filter(wanted),
            decreases self.transactions.len() - i,
        {
            proof {
                assert(txs.take(i + 1) =~= txs.take(i as int).push(txs[i as int]));
                txs.take(i as int).lemma_filter_push(txs[i as int], wanted);
            }
            if self.transactions[i].status == status {
                out.push(self.transactions[i]);
            }
            i += 1;
        }
        assert(txs.take(i as int) =~= txs);
        out
    }

    /// The locks of `user`, in the order in which they were made.
    pub fn get_user_locked_funds(&self, user: &PrincipalId) -> (out: Vec<LockedFunds>)
        ensures
            out@ == self.locks().filter(|l: LockedFunds| l.user == *user),
    {
        let ghost wanted = |l: LockedFunds| l.user == *user;
        let ghost locks = self.locks@;
        let mut out: Vec<LockedFunds> = Vec::new();
        let mut i: usize = 0;
        proof {
            reveal(Seq::filter);
            assert(locks.take(0).filter(wanted) =~= Seq::<LockedFunds>::empty());
        }
        while i < self.locks.len()
            invariant
                i <= self.locks.len(),
                locks == self.locks@,
                wanted == (|l: LockedFunds| l.user == *user),
                out@ == locks.take(i as int).filter(wanted),
            decreases self.locks.len() - i,
        {
            proof {
                assert(locks.take(i + 1) =~= locks.take(i as int).push(locks[i as int]));
                locks.take(i as int).lemma_filter_push(locks[i as int], wanted);
            }
            if self.locks[i].user.same_as(user) {
                out.push(self.locks[i]);
            }
            i += 1;
        }
        assert(locks.take(i as int) =~= locks);
        out
    }
}

/// What a transaction adds to a sum.
pub fn measure_of(tx: &Transaction, m: &Measure) -> (r: u64)
    ensures
        r == measure(*tx, *m),
{
    match m {
        Measure::Count => 1,
        Measure::WithStatus(status) => if tx.status == *status {
            1
        } else {
            0
        },
        Measure::Open => if tx.status.terminal() {
            0
        } else {
            1
        },
        Measure::Volume => tx.ckusdc_amount,
        Measure::CompletedVolume => if tx.status == TransactionStatus::Completed {
            tx.ckusdc_amount
        } else {
            0
        },
        Measure::Tokens(operation) => if tx.operation == *operation {
            tx.nav_tokens
        } else {
            0
        },
        Measure::Timed => if tx.status == TransactionStatus::Completed && tx.completed_at.is_some() {
            1
        } else {
            0
        },
        Measure::CompletionMs => if tx.status == TransactionStatus::Completed {
            completion_time_ms(tx)
        } else {
            0
        },
        Measure::Operation(operation) => if tx.operation == *operation {
            1
        } else {
            0
        },
        Measure::OperationVolume(operation) => if tx.operation == *operation && tx.status
            == TransactionStatus::Completed {
            tx.ckusdc_amount
        } else {
            0
        },
    }
}

/// The sum of a measure over the transactions, capped at 64 bits.
pub fn total_of(txs: &Vec<Transaction>, m: &Measure) -> (r: u64)
    ensures
        r == saturated(total(txs@, *m)),
{
    let mut sum: u64 = 0;
    let mut i: usize = 0;
    while i < txs.len()
        invariant
            i <= txs.len(),
            sum == saturated(total(txs@.take(i as int), *m)),
        decreases txs.len() - i,
    {
        proof {
            lemma_total_step(txs@, i as int, *m);
        }
        sum = sum.saturating_add(measure_of(&txs[i], m));
        i += 1;
    }
    assert(txs@.take(i as int) =~= txs@);
    sum
}

/// The latest time of creation among the transactions.
pub fn latest_creation_of(txs: &Vec<Transaction>) -> (r: Option<u64>)
    ensures
        r == latest_creation(txs@),
{
    let mut latest: Option<u64> = None;
    let mut i: usize = 0;
    while i < txs.len()
        invariant
            i <= txs.len(),
            latest == latest_creation(txs@.take(i as int)),
        decreases txs.len() - i,
    {
        assert(txs@.take(i + 1).drop_last() =~= txs@.take(i as int));
        let created = txs[i].created_at;
        latest = match latest {
            Some(t) => if created > t {
                Some(created)
            } else {
                Some(t)
            },
            None => Some(created),
        };
        i += 1;
    }
    assert(txs@.take(i as int) =~= txs@);
    latest
}

/// The locks of a transaction, as the pairs of fund type and amount that a
/// release reports.
pub open spec fn released_funds(locks: Seq<LockedFunds>, transaction_id: u64) -> Seq<(LockedFundType, u64)> {
    locks.filter(|l: LockedFunds| l.transaction_id == transaction_id).map_values(
        |l: LockedFunds| (l.fund_type, l.amount),
    )
}

/// `locks` without the locks of a transaction.
pub open spec fn without_transaction(locks: Seq<LockedFunds>, transaction_id: u64) -> Seq<LockedFunds> {
    locks.filter(|l: LockedFunds| l.transaction_id != transaction_id)
}

/// The locks that have not expired at `now`.
pub open spec fn unexpired_locks(locks: Seq<LockedFunds>, now: u64) -> Seq<LockedFunds> {
    locks.filter(|l: LockedFunds| l.expires_at > now)
}

/// A count as 32 bits, capped.
pub open spec fn capped_count(n: int) -> u32 {
    if n > u32::MAX {
        u32::MAX
    } else if n < 0 {
        0
    } else {
        n as u32
    }
}

impl TransactionManager {
    fn transactions_of_bundle(&self, bundle_id: u64) -> (out: Vec<Transaction>)
        ensures
            out@ == of_bundle(self.transactions(), bundle_id),
    {
        let ghost wanted = |t: Transaction| t.bundle_id == bundle_id;
        let ghost txs = self.transactions@;
        let mut out: Vec<Transaction> = Vec::new();
        let mut i: usize = 0;
        proof {
            reveal(Seq::filter);
            assert(txs.take(0).filter(wanted) =~= Seq::<Transaction>::empty());
        }
        while i < self.transactions.len()
            invariant
                i <= self.transactions.len(),
                txs == self.transactions@,
                wanted == (|t: Transaction| t.bundle_id == bundle_id),
                out@ == txs.take(i as int).filter(wanted),
            decreases self.transactions.len() - i,
        {
            proof {
                assert(txs.take(i + 1) =~= txs.take(i as int).push(txs[i as int]));
                txs.take(i as int).lemma_filter_push(txs[i as int], wanted);
            }
            if self.transactions[i].bundle_id == bundle_id {
                out.push(self.transactions[i]);
            }
            i += 1;
        }
        assert(txs.take(i as int) =~= txs);
        out
    }

    /// The totals over the transactions of one bundle.
    pub fn get_bundle_transaction_history(&self, bundle_id: u64) -> (history: BundleTransactionHistory)
        ensures
            history == bundle_history(self.transactions(), bundle_id),
    {
        let own = self.transactions_of_bundle(bundle_id);
        let open = total_of(&own, &Measure::Open);
        BundleTransactionHistory {
            bundle_id,
            total_buy_transactions: total_of(&own, &Measure::Operation(OperationType::Buy)),
            total_sell_transactions: total_of(&own, &Measure::Operation(OperationType::Sell)),
            total_volume_bought: total_of(&own, &Measure::OperationVolume(OperationType::Buy)),
            total_volume_sold: total_of(&own, &Measure::OperationVolume(OperationType::Sell)),
            last_transaction_at: latest_creation_of(&own),
            active_transactions: if open > 0xFFFF_FFFFu64 {
                0xFFFF_FFFFu32
            } else {
                open as u32
            },
        }
    }

    /// The totals over the transactions and the locks of one user.
    pub fn get_user_transaction_summary(&self, user: PrincipalId) -> (summary: UserTransactionSummary)
        ensures
            summary == user_summary(self.transactions(), self.locks(), user),
    {
        let own = self.get_user_transactions(&user);
        let mut locked: u64 = 0;
        let mut i: usize = 0;
        while i < self.locks.len()
            invariant
                i <= self.locks.len(),
                locked == saturated(locked_by_user(self.locks@.take(i as int), user)),
            decreases self.locks.len() - i,
        {
            assert(self.locks@.take(i + 1).drop_last() =~= self.locks@.take(i as int));
            if self.locks[i].user.same_as(&user) {
                locked = locked.saturating_add(self.locks[i].amount);
            }
            i += 1;
        }
        assert(self.locks@.take(i as int) =~= self.locks@);
        UserTransactionSummary {
            user,
            total_transactions: total_of(&own, &Measure::Count),
            buy_transactions: total_of(&own, &Measure::Operation(OperationType::Buy)),
            sell_transactions: total_of(&own, &Measure::Operation(OperationType::Sell)),
            total_volume_ckusdc: total_of(&own, &Measure::CompletedVolume),
            current_locked_funds: locked,
            last_transaction_at: latest_creation_of(&own),
        }
    }

    fn release_transaction_locks(&mut self, transaction_id: u64) -> (released: Vec<(LockedFundType, u64)>)
        requires
            old(self).wf(),
        ensures
            final(self).wf(),
            final(self).counter() == old(self).counter(),
            final(self).transactions() == old(self).transactions(),
            released@ == released_funds(old(self).locks(), transaction_id),
            final(self).locks() == without_transaction(old(self).locks(), transaction_id),
    {
        let ghost gone = |l: LockedFunds| l.transaction_id == transaction_id;
        let ghost keep = |l: LockedFunds| l.transaction_id != transaction_id;
        let ghost pair = |l: LockedFunds| (l.fund_type, l.amount);
        let ghost locks = self.locks@;
        let mut released: Vec<(LockedFundType, u64)> = Vec::new();
        let mut kept: Vec<LockedFunds> = Vec::new();
        let mut i: usize = 0;
        proof {
            reveal(Seq::filter);
            assert(locks.take(0).filter(gone) =~= Seq::<LockedFunds>::empty());
            assert(locks.take(0).filter(keep) =~= Seq::<LockedFunds>::empty());
            assert(released@ =~= locks.take(0).filter(gone).map_values(pair));
        }
        while i < self.locks.len()
            invariant
                i <= self.locks.len(),
                locks == self.locks@,
                gone == (|l: LockedFunds| l.transaction_id == transaction_id),
                keep == (|l: LockedFunds| l.transaction_id != transaction_id),
                pair == (|l: LockedFunds| (l.fund_type, l.amount)),
                released@ == locks.take(i as int).filter(gone).map_values(pair),
                kept@ == locks.take(i as int).filter(keep),
            decreases self.locks.len() - i,
        {
            proof {
                assert(locks.take(i + 1) =~= locks.take(i as int).push(locks[i as int]));
                locks.take(i as int).lemma_filter_push(locks[i as int], gone);
                locks.take(i as int).lemma_filter_push(locks[i as int], keep);
            }
            let l = self.locks[i];
            if l.transaction_id == transaction_id {
                released.push((l.fund_type, l.amount));
                assert(released@ =~= locks.take(i + 1).filter(gone).map_values(pair));
            } else {
                kept.push(l);
            }
            i += 1;
        }
        proof {
            assert(locks.take(i as int) =~= locks);
            lemma_filter_keeps_locks_valid(self.transactions@, locks, keep);
        }
        self.locks = kept;
        released
    }

    /// Releases every lock of a transaction and reports what was released,
    /// as pairs of fund type and amount.
    pub fn unlock_all_transaction_funds(&mut self, transaction_id: u64) -> (r: Result<
        Vec<(LockedFundType, u64)>,
        Error,
    >)
        requires
            old(self).wf(),
        ensures
            final(self).wf(),
            final(self).counter() == old(self).counter(),
            final(self).transactions() == old(self).transactions(),
            match r {
                Ok(released) => has_transaction(old(self).transactions(), transaction_id) && released@
                    == released_funds(old(self).locks(), transaction_id) && final(self).locks()
                    == without_transaction(old(self).locks(), transaction_id),
                Err(e) => !has_transaction(old(self).transactions(), transaction_id) && e
                    == Error::TransactionNotFound && final(self).locks() == old(self).locks(),
            },
    {
        if self.position(transaction_id).is_none() {
            return Err(Error::TransactionNotFound);
        }
        Ok(self.release_transaction_locks(transaction_id))
    }

    /// Removes every lock that has expired at `now`, whatever the status of
    /// its transaction, and returns how many were removed.
    pub fn cleanup_expired_locks(&mut self, now: u64) -> (removed: u32)
        requires
            old(self).wf(),
        ensures
            final(self).wf(),
            final(self).counter() == old(self).counter(),
            final(self).transactions() == old(self).transactions(),
            final(self).locks() == unexpired_locks(old(self).locks(), now),
            removed == capped_count(old(self).locks().len() - final(self).locks().len()),
    {
        let ghost keep = |l: LockedFunds| l.expires_at > now;
        let ghost locks = self.locks@;
        let mut kept: Vec<LockedFunds> = Vec::new();
        let mut i: usize = 0;
        proof {
            reveal(Seq::filter);
            assert(locks.take(0).filter(keep) =~= Seq::<LockedFunds>::empty());
        }
        while i < self.locks.len()
            invariant
                i <= self.locks.len(),
                locks == self.locks@,
                keep == (|l: LockedFunds| l.expires_at > now),
                kept@ == locks.take(i as int).filter(keep),
                kept@.len() <= i,
            decreases self.locks.len() - i,
        {
            proof {
                assert(locks.take(i + 1) =~= locks.take(i as int).push(locks[i as int]));
                locks.take(i as int).lemma_filter_push(locks[i as int], keep);
            }
            let l = self.locks[i];
            if l.expires_at > now {
                kept.push(l);
            }
            i += 1;
        }
        proof {
            assert(locks.take(i as int) =~= locks);
            lemma_filter_keeps_locks_valid(self.transactions@, locks, keep);
        }
        let gone: usize = self.locks.len() - kept.len();
        self.locks = kept;
        if gone > 0xFFFF_FFFFusize {
            0xFFFF_FFFFu32
        } else {
            gone as u32
        }
    }
}

/// Whether two records of one transaction agree in all that is fixed when
/// the transaction is created.
pub open spec fn same_terms(a: Transaction, b: Transaction) -> bool {
    &&& a.id == b.id
    &&& a.request_id == b.request_id
    &&& a.user == b.user
    &&& a.resolver == b.resolver
    &&& a.bundle_id == b.bundle_id
    &&& a.operation == b.operation
    &&& a.nav_tokens == b.nav_tokens
    &&& a.ckusdc_amount == b.ckusdc_amount
    &&& a.created_at == b.created_at
    &&& a.timeout_at == b.timeout_at
}

/// Whether `after` can follow `before`: no transaction is gone, none has
/// changed its terms, and one that was `Completed`, `Failed` or `TimedOut`
/// has not changed at all.
pub open spec fn history_preserved(before: Seq<Transaction>, after: Seq<Transaction>) -> bool {
    forall|id: u64| #[trigger]
        has_transaction(before, id) ==> {
            &&& has_transaction(after, id)
            &&& same_terms(transaction_of(before, id), transaction_of(after, id))
            &&& transaction_of(before, id).status.is_terminal() ==> transaction_of(after, id)
                == transaction_of(before, id)
        }
}

/// A transition that is accepted, and one that is refused, preserve the
/// history.
pub proof fn lemma_transition_preserves_history(
    txs: Seq<Transaction>,
    counter: u64,
    id: u64,
    status: TransactionStatus,
    now: u64,
)
    requires
        ordered_transactions(txs, counter),
        transition_result(txs, id) is Ok,
    ensures
        history_preserved(txs, with_transition(txs, id, status, now)),
        history_preserved(txs, txs),
{
    assert forall|other: u64| #[trigger] has_transaction(txs, other) implies {
        &&& has_transaction(with_transition(txs, id, status, now), other)
        &&& same_terms(transaction_of(txs, other), transaction_of(with_transition(txs, id, status, now), other))
        &&& transaction_of(txs, other).status.is_terminal() ==> transaction_of(
            with_transition(txs, id, status, now),
            other,
        ) == transaction_of(txs, other)
    } by {
        lemma_transition_lookup(txs, counter, id, status, now, other);
    }
}

/// A new transaction preserves the history.
pub proof fn lemma_push_preserves_history(txs: Seq<Transaction>, counter: u64, tx: Transaction)
    requires
        ordered_transactions(txs, counter),
        tx.id > counter,
    ensures
        history_preserved(txs, txs.push(tx)),
{
    assert forall|other: u64| #[trigger] has_transaction(txs, other) implies {
        &&& has_transaction(txs.push(tx), other)
        &&& same_terms(transaction_of(txs, other), transaction_of(txs.push(tx), other))
        &&& transaction_of(txs.push(tx), other) == transaction_of(txs, other)
    } by {
        lemma_push_lookup(txs, counter, tx, other);
    }
}

/// Histories compose.
pub proof fn lemma_history_composes(a: Seq<Transaction>, b: Seq<Transaction>, c: Seq<Transaction>)
    requires
        history_preserved(a, b),
        history_preserved(b, c),
    ensures
        history_preserved(a, c),
{
    assert forall|id: u64| #[trigger] has_transaction(a, id) implies {
        &&& has_transaction(c, id)
        &&& same_terms(transaction_of(a, id), transaction_of(c, id))
        &&& transaction_of(a, id).status.is_terminal() ==> transaction_of(c, id) == transaction_of(a, id)
    } by {
        assert(has_transaction(b, id));
    }
}

/// Once a lock is made, a second lock of the same fund type for the same
/// transaction is refused with `AlreadyLocked`, whatever its amount and
/// whatever the ledger balance.
pub proof fn lemma_second_lock_is_refused(
    txs: Seq<Transaction>,
    locks: Seq<LockedFunds>,
    counter: u64,
    transaction_id: u64,
    fund_type: LockedFundType,
    amount: u64,
    balance: Option<u64>,
    now: u64,
    second_amount: u64,
    second_balance: Option<u64>,
)
    requires
        ordered_transactions(txs, counter),
        lock_result(txs, locks, transaction_id, fund_type, amount, balance) is Ok,
    ensures
        lock_result(
            with_transition(txs, transaction_id, TransactionStatus::FundsLocked, now),
            locks.push(new_lock(transaction_of(txs, transaction_id), fund_type, amount, now)),
            transaction_id,
            fund_type,
            second_amount,
            second_balance,
        ) == Err::<(), Error>(Error::AlreadyLocked),
{
    let tx = transaction_of(txs, transaction_id);
    let after = locks.push(new_lock(tx, fund_type, amount, now));
    lemma_transition_lookup(txs, counter, transaction_id, TransactionStatus::FundsLocked, now, transaction_id);
    assert(lock_matches(after[locks.len() as int], tx.user, transaction_id, fund_type));
}

/// A transition is refused for a transaction that is `Completed`, `Failed`
/// or `TimedOut`.
pub proof fn lemma_final_transactions_stay(txs: Seq<Transaction>, id: u64)
    requires
        has_transaction(txs, id),
        transaction_of(txs, id).status.is_terminal(),
    ensures
        transition_result(txs, id) == Err::<(), Error>(Error::TransactionFinal),
{
}

/// Whether a transaction is due for recovery at `now`: it is not
/// `Completed`, `Failed` or `TimedOut`, and its deadline has passed. With
/// `inclusive`, a deadline at `now` itself has passed.
pub open spec fn is_due(tx: Transaction, now: u64, inclusive: bool) -> bool {
    !tx.status.is_terminal() && (tx.timeout_at < now || (inclusive && tx.timeout_at == now))
}

/// The transactions after a timeout sweep at `now`: every due transaction
/// is `TimedOut`, every other one is as it was.
pub open spec fn swept_transactions(txs: Seq<Transaction>, now: u64, inclusive: bool) -> Seq<Transaction> {
    txs.map_values(
        |t: Transaction|
            if is_due(t, now, inclusive) {
                transitioned(t, TransactionStatus::TimedOut, now)
            } else {
                t
            },
    )
}

/// Whether the lock belongs to a transaction that is due at `now`.
pub open spec fn lock_is_due(txs: Seq<Transaction>, lock: LockedFunds, now: u64, inclusive: bool) -> bool {
    has_transaction(txs, lock.transaction_id) && is_due(transaction_of(txs, lock.transaction_id), now, inclusive)
}

/// The locks after a timeout sweep at `now`: those of due transactions are
/// released.
pub open spec fn swept_locks(txs: Seq<Transaction>, locks: Seq<LockedFunds>, now: u64, inclusive: bool) -> Seq<LockedFunds> {
    locks.filter(|l: LockedFunds| !lock_is_due(txs, l, now, inclusive))
}

/// The transactions that are due at `now`, as they are before the sweep.
pub open spec fn due_transactions(txs: Seq<Transaction>, now: u64, inclusive: bool) -> Seq<Transaction> {
    txs.filter(|t: Transaction| is_due(t, now, inclusive))
}

/// Whether the lock belongs to `user` and to a transaction that is not
/// `Completed`, `Failed` or `TimedOut`.
pub open spec fn lock_is_recoverable(txs: Seq<Transaction>, lock: LockedFunds, user: PrincipalId) -> bool {
    lock.user == user && has_transaction(txs, lock.transaction_id) && !transaction_of(
        txs,
        lock.transaction_id,
    ).status.is_terminal()
}

/// A sequence filtered by a predicate that none of its elements meets is
/// empty.
pub proof fn lemma_filter_keeps_none<T>(s: Seq<T>, keep: spec_fn(T) -> bool)
    requires
        forall|j: int| 0 <= j < s.len() ==> !keep(#[trigger] s[j]),
    ensures
        s.filter(keep) == Seq::<T>::empty(),
    decreases s.len(),
{
    reveal(Seq::filter);
    if s.len() > 0 {
        lemma_filter_keeps_none(s.drop_last(), keep);
    }
}

/// Where every transaction keeps its id, the lookup of an id finds the
/// transaction at the same place as before.
pub proof fn lemma_same_ids_lookup(before: Seq<Transaction>, after: Seq<Transaction>, counter: u64, id: u64)
    requires
        ordered_transactions(before, counter),
        after.len() == before.len(),
        forall|i: int| 0 <= i < before.len() ==> (#[trigger] after[i]).id == before[i].id,
    ensures
        ordered_transactions(after, counter),
        has_transaction(after, id) == has_transaction(before, id),
        has_transaction(before, id) ==> exists|i: int|
            0 <= i < before.len() && before[i] == transaction_of(before, id) && after[i] == transaction_of(
                after,
                id,
            ),
{
    assert forall|i: int, j: int| 0 <= i < j < after.len() implies after[i].id < after[j].id by {
        assert(before[i].id < before[j].id);
    }
    assert forall|i: int| 0 <= i < after.len() implies 1 <= #[trigger] after[i].id <= counter by {
        assert(1 <= before[i].id <= counter);
    }
    if has_transaction(before, id) {
        let i = choose|i: int| 0 <= i < before.len() && before[i].id == id;
        assert(after[i].id == id);
        lemma_transaction_at(before, counter, i);
        lemma_transaction_at(after, counter, i);
    }
    if has_transaction(after, id) {
        let i = choose|i: int| 0 <= i < after.len() && after[i].id == id;
        assert(before[i].id == id);
    }
}

/// A timeout sweep preserves the history: it changes no terms, and no
/// transaction that was `Completed`, `Failed` or `TimedOut`.
pub proof fn lemma_sweep_preserves_history(txs: Seq<Transaction>, counter: u64, now: u64, inclusive: bool)
    requires
        ordered_transactions(txs, counter),
    ensures
        ordered_transactions(swept_transactions(txs, now, inclusive), counter),
        history_preserved(txs, swept_transactions(txs, now, inclusive)),
{
    let after = swept_transactions(txs, now, inclusive);
    lemma_same_ids_lookup(txs, after, counter, 0);
    assert forall|id: u64| #[trigger] has_transaction(txs, id) implies {
        &&& has_transaction(after, id)
        &&& same_terms(transaction_of(txs, id), transaction_of(after, id))
        &&& transaction_of(txs, id).status.is_terminal() ==> transaction_of(after, id) == transaction_of(txs, id)
    } by {
        lemma_same_ids_lookup(txs, after, counter, id);
    }
}

/// A second sweep at the same time changes nothing and finds nothing due:
/// no transaction is recovered twice, and no lock is released twice.
pub proof fn lemma_sweep_is_idempotent(
    txs: Seq<Transaction>,
    locks: Seq<LockedFunds>,
    counter: u64,
    now: u64,
    inclusive: bool,
)
    requires
        ordered_transactions(txs, counter),
    ensures
        due_transactions(swept_transactions(txs, now, inclusive), now, inclusive) == Seq::<Transaction>::empty(),
        swept_transactions(swept_transactions(txs, now, inclusive), now, inclusive) == swept_transactions(txs, now, inclusive),
        swept_locks(
            swept_transactions(txs, now, inclusive),
            swept_locks(txs, locks, now, inclusive),
            now,
            inclusive,
        ) == swept_locks(txs, locks, now, inclusive),
{
    let once = swept_transactions(txs, now, inclusive);
    assert forall|i: int| 0 <= i < once.len() implies !is_due(#[trigger] once[i], now, inclusive) by {}
    lemma_filter_keeps_none(once, |t: Transaction| is_due(t, now, inclusive));
    assert(swept_transactions(once, now, inclusive) =~= once);
    let kept = swept_locks(txs, locks, now, inclusive);
    assert forall|j: int| 0 <= j < kept.len() implies !lock_is_due(once, #[trigger] kept[j], now, inclusive) by {
        let id = kept[j].transaction_id;
        lemma_same_ids_lookup(txs, once, counter, id);
        if has_transaction(once, id) {
            let i = choose|i: int|
                0 <= i < txs.len() && txs[i] == transaction_of(txs, id) && once[i] == transaction_of(once, id);
            assert(!is_due(once[i], now, inclusive));
        }
    }
    lemma_filter_keeps_all(kept, |l: LockedFunds| !lock_is_due(once, l, now, inclusive));
}

/// A transaction that a sweep has timed out is not due at any later time,
/// and a later sweep leaves it as it is.
pub proof fn lemma_recovered_once(
    txs: Seq<Transaction>,
    counter: u64,
    now: u64,
    inclusive: bool,
    later: u64,
    later_inclusive: bool,
    id: u64,
)
    requires
        ordered_transactions(txs, counter),
        has_transaction(txs, id),
        is_due(transaction_of(txs, id), now, inclusive),
    ensures
        has_transaction(swept_transactions(txs, now, inclusive), id),
        !is_due(transaction_of(swept_transactions(txs, now, inclusive), id), later, later_inclusive),
        transaction_of(swept_transactions(swept_transactions(txs, now, inclusive), later, later_inclusive), id) == transaction_of(
            swept_transactions(txs, now, inclusive),
            id,
        ),
{
    let once = swept_transactions(txs, now, inclusive);
    let twice = swept_transactions(once, later, later_inclusive);
    lemma_same_ids_lookup(txs, once, counter, id);
    lemma_same_ids_lookup(once, twice, counter, id);
    let i = choose|i: int|
        0 <= i < txs.len() && txs[i] == transaction_of(txs, id) && once[i] == transaction_of(once, id);
    let j = choose|j: int|
        0 <= j < once.len() && once[j] == transaction_of(once, id) && twice[j] == transaction_of(twice, id);
    assert(once[i].status == TransactionStatus::TimedOut);
}

impl TransactionManager {
    /// Times out every transaction that is due at `now`, releases the locks
    /// of those transactions, and returns the transactions as they were
    /// before.
    pub fn time_out_due(&mut self, now: u64, inclusive: bool) -> (due: Vec<Transaction>)
        requires
            old(self).wf(),
        ensures
            final(self).wf(),
            final(self).counter() == old(self).counter(),
            due@ == due_transactions(old(self).transactions(), now, inclusive),
            final(self).transactions() == swept_transactions(old(self).transactions(), now, inclusive),
            final(self).locks() == swept_locks(old(self).transactions(), old(self).locks(), now, inclusive),
            history_preserved(old(self).transactions(), final(self).transactions()),
    {
        let ghost txs = self.transactions@;
        let ghost locks = self.locks@;
        let ghost keep = |l: LockedFunds| !lock_is_due(txs, l, now, inclusive);
        let mut kept: Vec<LockedFunds> = Vec::new();
        let mut k: usize = 0;
        proof {
            reveal(Seq::filter);
            assert(locks.take(0).filter(keep) =~= Seq::<LockedFunds>::empty());
        }
        while k < self.locks.len()
            invariant
                self.wf(),
                k <= self.locks.len(),
                txs == self.transactions@,
                locks == self.locks@,
                keep == (|l: LockedFunds| !lock_is_due(txs, l, now, inclusive)),
                kept@ == locks.take(k as int).filter(keep),
            decreases self.locks.len() - k,
        {
            proof {
                assert(locks.take(k + 1) =~= locks.take(k as int).push(locks[k as int]));
                locks.take(k as int).lemma_filter_push(locks[k as int], keep);
            }
            let l = self.locks[k];
            let lock_due = match self.position(l.transaction_id) {
                Some(i) => {
                    let tx = &self.transactions[i];
                    !tx.status.terminal() && (tx.timeout_at < now || (inclusive && tx.timeout_at == now))
                },
                None => false,
            };
            if !lock_due {
                kept.push(l);
            }
            k += 1;
        }
        proof {
            assert(locks.take(k as int) =~= locks);
            lemma_filter_keeps_locks_valid(txs, locks, keep);
        }
        self.locks = kept;
        let ghost wanted = |t: Transaction| is_due(t, now, inclusive);
        let ghost kept_locks = locks.filter(keep);
        let ghost counter = self.counter;
        let mut due: Vec<Transaction> = Vec::new();
        let mut i: usize = 0;
        proof {
            assert(txs.take(0).filter(wanted) =~= Seq::<Transaction>::empty());
        }
        while i < self.transactions.len()
            invariant
                i <= self.transactions.len(),
                self.locks@ == kept_locks,
                self.counter == counter,
                self.transactions@.len() == txs.len(),
                wanted == (|t: Transaction| is_due(t, now, inclusive)),
                due@ == txs.take(i as int).filter(wanted),
                forall|j: int| 0 <= j < i ==> #[trigger] self.transactions@[j] == swept_transactions(txs, now, inclusive)[j],
                forall|j: int| i <= j < txs.len() ==> #[trigger] self.transactions@[j] == txs[j],
            decreases self.transactions.len() - i,
        {
            proof {
                assert(txs.take(i + 1) =~= txs.take(i as int).push(txs[i as int]));
                txs.take(i as int).lemma_filter_push(txs[i as int], wanted);
            }
            let tx = self.transactions[i];
            if !tx.status.terminal() && (tx.timeout_at < now || (inclusive && tx.timeout_at == now)) {
                due.push(tx);
                self.transactions[i] = Transaction {
                    status: TransactionStatus::TimedOut,
                    updated_at: now,
                    completed_at: Some(now),
                    ..tx
                };
            }
            i += 1;
        }
        proof {
            assert(txs.take(i as int) =~= txs);
            let after = swept_transactions(txs, now, inclusive);
            assert(self.transactions@ =~= after);
            assert(ordered_transactions(txs, counter));
            lemma_sweep_preserves_history(txs, self.counter, now, inclusive);
            assert forall|j: int| 0 <= j < self.locks@.len() implies has_transaction(
                after,
                (#[trigger] self.locks@[j]).transaction_id,
            ) && transaction_of(after, self.locks@[j].transaction_id).user == self.locks@[j].user by {
                let id = self.locks@[j].transaction_id;
                assert(locks.contains(kept_locks[j]));
                let m = choose|m: int| 0 <= m < locks.len() && locks[m] == self.locks@[j];
                assert(has_transaction(txs, locks[m].transaction_id));
                lemma_same_ids_lookup(txs, after, self.counter, id);
                let p = choose|p: int|
                    0 <= p < txs.len() && txs[p] == transaction_of(txs, id) && after[p] == transaction_of(
                        after,
                        id,
                    );
                assert(after[p].user == txs[p].user);
            }
        }
        due
    }

    /// Releases every lock of `user` that belongs to a transaction which is
    /// not `Completed`, `Failed` or `TimedOut`, and returns the released
    /// locks.
    pub fn release_user_locks(&mut self, user: &PrincipalId) -> (released: Vec<LockedFunds>)
        requires
            old(self).wf(),
        ensures
            final(self).wf(),
            final(self).counter() == old(self).counter(),
            final(self).transactions() == old(self).transactions(),
            released@ == old(self).locks().filter(
                |l: LockedFunds| lock_is_recoverable(old(self).transactions(), l, *user),
            ),
            final(self).locks() == old(self).locks().filter(
                |l: LockedFunds| !lock_is_recoverable(old(self).transactions(), l, *user),
            ),
    {
        let ghost txs = self.transactions@;
        let ghost locks = self.locks@;
        let ghost gone = |l: LockedFunds| lock_is_recoverable(txs, l, *user);
        let ghost keep = |l: LockedFunds| !lock_is_recoverable(txs, l, *user);
        let mut kept: Vec<LockedFunds> = Vec::new();
        let mut released: Vec<LockedFunds> = Vec::new();
        let mut k: usize = 0;
        proof {
            reveal(Seq::filter);
            assert(locks.take(0).filter(keep) =~= Seq::<LockedFunds>::empty());
            assert(locks.take(0).filter(gone) =~= Seq::<LockedFunds>::empty());
        }
        while k < self.locks.len()
            invariant
                self.wf(),
                k <= self.locks.len(),
                txs == self.transactions@,
                locks == self.locks@,
                gone == (|l: LockedFunds| lock_is_recoverable(txs, l, *user)),
                keep == (|l: LockedFunds| !lock_is_recoverable(txs, l, *user)),
                kept@ == locks.take(k as int).filter(keep),
                released@ == locks.take(k as int).filter(gone),
            decreases self.locks.len() - k,
        {
            proof {
                assert(locks.take(k + 1) =~= locks.take(k as int).push(locks[k as int]));
                locks.take(k as int).lemma_filter_push(locks[k as int], keep);
                locks.take(k as int).lemma_filter_push(locks[k as int], gone);
            }
            let l = self.locks[k];
            let recoverable = l.user.same_as(user) && match self.position(l.transaction_id) {
                Some(i) => !self.transactions[i].status.terminal(),
                None => false,
            };
            if recoverable {
                released.push(l);
            } else {
                kept.push(l);
            }
            k += 1;
        }
        proof {
            assert(locks.take(k as int) =~= locks);
            lemma_filter_keeps_locks_valid(txs, locks, keep);
        }
        self.locks = kept;
        released
    }

    /// The locks of a transaction, in the order in which they were made.
    pub fn get_transaction_locks(&self, transaction_id: u64) -> (out: Vec<LockedFunds>)
        ensures
            out@ == self.locks().filter(|l: LockedFunds| l.transaction_id == transaction_id),
    {
        let ghost wanted = |l: LockedFunds| l.transaction_id == transaction_id;
        let ghost locks = self.locks@;
        let mut out: Vec<LockedFunds> = Vec::new();
        let mut i: usize = 0;
        proof {
            reveal(Seq::filter);
            assert(locks.take(0).filter(wanted) =~= Seq::<LockedFunds>::empty());
        }
        while i < self.locks.len()
            invariant
                i <= self.locks.len(),
                locks == self.locks@,
                wanted == (|l: LockedFunds| l.transaction_id == transaction_id),
                out@ == locks.take(i as int).filter(wanted),
            decreases self.locks.len() - i,
        {
            proof {
                assert(locks.take(i + 1) =~= locks.take(i as int).push(locks[i as int]));
                locks.take(i as int).lemma_filter_push(locks[i as int], wanted);
            }
            if self.locks[i].transaction_id == transaction_id {
                out.push(self.locks[i]);
            }
            i += 1;
        }
        assert(locks.take(i as int) =~= locks);
        out
    }
}

/// A transaction that is taking long.
#[derive(Clone, Copy, Debug, PartialEq, Eq, Structural)]
pub struct HealthWarning {
    pub transaction_id: u64,
    /// The age of the transaction in milliseconds.
    pub age_ms: u64,
}

/// The age of a transaction at `now`, in nanoseconds; zero for one from the
/// future.
pub open spec fn age_of(tx: Transaction, now: u64) -> u64 {
    if now >= tx.created_at {
        (now - tx.created_at) as u64
    } else {
        0
    }
}

/// Whether a transaction is taking long at `now`: it is not `Completed`,
/// `Failed` or `TimedOut`, and it is older than half the timeout.
pub open spec fn is_slow(tx: Transaction, now: u64) -> bool {
    !tx.status.is_terminal() && age_of(tx, now) > TRANSACTION_TIMEOUT_NS / 2
}

/// The warnings for the transactions that are taking long at `now`.
pub open spec fn health_warnings(txs: Seq<Transaction>, now: u64) -> Seq<HealthWarning> {
    txs.filter(|t: Transaction| is_slow(t, now)).map_values(
        |t: Transaction| HealthWarning { transaction_id: t.id, age_ms: (age_of(t, now) / NS_PER_MS) as u64 },
    )
}

/// The index of the transaction that was created last; among several, the
/// first of them. Zero for no transactions.
pub open spec fn latest_index(txs: Seq<Transaction>) -> int
    decreases txs.len(),
{
    if txs.len() <= 1 {
        0
    } else {
        let before = latest_index(txs.drop_last());
        if txs.last().created_at > txs[before].created_at {
            txs.len() - 1
        } else {
            before
        }
    }
}

/// The `limit` transactions that were created last, as summaries, the last
/// created first; among transactions created at the same time, the one
/// with the smaller id first.
pub open spec fn recent_summaries(txs: Seq<Transaction>, limit: nat) -> Seq<TransactionSummary>
    decreases limit,
{
    if limit == 0 || txs.len() == 0 {
        Seq::<TransactionSummary>::empty()
    } else {
        seq![summary_of(txs[latest_index(txs)])] + recent_summaries(
            txs.remove(latest_index(txs)),
            (limit - 1) as nat,
        )
    }
}

fn index_of_latest(txs: &Vec<Transaction>) -> (r: usize)
    requires
        txs@.len() > 0,
    ensures
        r == latest_index(txs@),
        r < txs@.len(),
{
    let mut best: usize = 0;
    let mut i: usize = 1;
    assert(txs@.take(1).len() == 1);
    while i < txs.len()
        invariant
            1 <= i <= txs.len(),
            best < i,
            best == latest_index(txs@.take(i as int)),
        decreases txs.len() - i,
    {
        proof {
            assert(txs@.take(i + 1).drop_last() =~= txs@.take(i as int));
            assert(txs@.take(i as int)[best as int] == txs@[best as int]);
        }
        if txs[i].created_at > txs[best].created_at {
            best = i;
        }
        i += 1;
    }
    assert(txs@.take(i as int) =~= txs@);
    best
}

impl TransactionManager {
    /// Times out every transaction that is not `Completed`, `Failed` or
    /// `TimedOut` and whose deadline is at or before `now`, releases the
    /// locks of those transactions, and returns how many there were.
    pub fn cleanup_expired_transactions(&mut self, now: u64) -> (cleaned: u32)
        requires
            old(self).wf(),
        ensures
            final(self).wf(),
            final(self).counter() == old(self).counter(),
            final(self).transactions() == swept_transactions(old(self).transactions(), now, true),
            final(self).locks() == swept_locks(old(self).transactions(), old(self).locks(), now, true),
            history_preserved(old(self).transactions(), final(self).transactions()),
            cleaned == capped_count(due_transactions(old(self).transactions(), now, true).len() as int),
    {
        let due = self.time_out_due(now, true);
        if due.len() > 0xFFFF_FFFFusize {
            0xFFFF_FFFFu32
        } else {
            due.len() as u32
        }
    }

    /// The transactions that are taking long at `now`, each with its age.
    pub fn monitor_transaction_health(&self, now: u64) -> (warnings: Vec<HealthWarning>)
        ensures
            warnings@ == health_warnings(self.transactions(), now),
    {
        let ghost slow = |t: Transaction| is_slow(t, now);
        let ghost warning = |t: Transaction|
            HealthWarning { transaction_id: t.id, age_ms: (age_of(t, now) / NS_PER_MS) as u64 };
        let ghost txs = self.transactions@;
        let mut warnings: Vec<HealthWarning> = Vec::new();
        let mut i: usize = 0;
        proof {
            reveal(Seq::filter);
            assert(txs.take(0).filter(slow) =~= Seq::<Transaction>::empty());
            assert(warnings@ =~= txs.take(0).filter(slow).map_values(warning));
        }
        while i < self.transactions.len()
            invariant
                i <= self.transactions.len(),
                txs == self.transactions@,
                slow == (|t: Transaction| is_slow(t, now)),
                warning == (|t: Transaction|
                    HealthWarning { transaction_id: t.id, age_ms: (age_of(t, now) / NS_PER_MS) as u64 }),
                warnings@ == txs.take(i as int).filter(slow).map_values(warning),
            decreases self.transactions.len() - i,
        {
            proof {
                assert(txs.take(i + 1) =~= txs.take(i as int).push(txs[i as int]));
                txs.take(i as int).lemma_filter_push(txs[i as int], slow);
            }
            let tx = &self.transactions[i];
            let age = now.saturating_sub(tx.created_at);
            if !tx.status.terminal() && age > TRANSACTION_TIMEOUT_NS / 2 {
                warnings.push(HealthWarning { transaction_id: tx.id, age_ms: age / NS_PER_MS });
                assert(warnings@ =~= txs.take(i + 1).filter(slow).map_values(warning));
            }
            i += 1;
        }
        assert(txs.take(i as int) =~= txs);
        warnings
    }

    /// The `limit` transactions that were created last, the last created
    /// first.
    pub fn get_recent_transactions(&self, limit: usize) -> (out: Vec<TransactionSummary>)
        ensures
            out@ == recent_summaries(self.transactions(), limit as nat),
    {
        let mut rest: Vec<Transaction> = Vec::new();
        let mut k: usize = 0;
        while k < self.transactions.len()
            invariant
                k <= self.transactions.len(),
                rest@ == self.transactions@.take(k as int),
            decreases self.transactions.len() - k,
        {
            rest.push(self.transactions[k]);
            k += 1;
            assert(rest@ =~= self.transactions@.take(k as int));
        }
        assert(self.transactions@.take(k as int) =~= self.transactions@);
        let mut out: Vec<TransactionSummary> = Vec::new();
        let mut left: usize = limit;
        assert(out@ + recent_summaries(rest@, left as nat) =~= recent_summaries(
            self.transactions@,
            limit as nat,
        ));
        while left > 0 && rest.len() > 0
            invariant
                out@ + recent_summaries(rest@, left as nat) == recent_summaries(
                    self.transactions@,
                    limit as nat,
                ),
            decreases left,
        {
            let ghost before = rest@;
            let ghost done = out@;
            let i = index_of_latest(&rest);
            let tx = rest.remove(i);
            out.push(
                TransactionSummary {
                    id: tx.id,
                    user: tx.user,
                    bundle_id: tx.bundle_id,
                    operation: tx.operation,
                    status: tx.status,
                    nav_tokens: tx.nav_tokens,
                    ckusdc_amount: tx.ckusdc_amount,
                    created_at: tx.created_at,
                    duration_ms: match tx.completed_at {
                        Some(_) => Some(completion_time_ms(&tx)),
                        None => None,
                    },
                },
            );
            left -= 1;
            assert(out@ + recent_summaries(rest@, left as nat) =~= done + recent_summaries(
                before,
                (left + 1) as nat,
            ));
        }
        assert(recent_summaries(rest@, left as nat) =~= Seq::<TransactionSummary>::empty());
        assert(out@ =~= out@ + Seq::<TransactionSummary>::empty());
        out
    }
}

impl TransactionManager {
    /// The id that was given out last, or zero.
    pub fn last_transaction_id(&self) -> (id: u64)
        ensures
            id == self.counter(),
    {
        self.counter
    }

    /// All transactions, by increasing id.
    pub fn all_transactions(&self) -> (out: Vec<Transaction>)
        ensures
            out@ == self.transactions(),
    {
        let mut out: Vec<Transaction> = Vec::new();
        let mut i: usize = 0;
        while i < self.transactions.len()
            invariant
                i <= self.transactions.len(),
                out@ == self.transactions@.take(i as int),
            decreases self.transactions.len() - i,
        {
            out.push(self.transactions[i]);
            i += 1;
            assert(out@ =~= self.transactions@.take(i as int));
        }
        assert(self.transactions@.take(i as int) =~= self.transactions@);
        out
    }

    /// All locks, in the order in which they were made.
    pub fn all_locks(&self) -> (out: Vec<LockedFunds>)
        ensures
            out@ == self.locks(),
    {
        let mut out: Vec<LockedFunds> = Vec::new();
        let mut i: usize = 0;
        while i < self.locks.len()
            invariant
                i <= self.locks.len(),
                out@ == self.locks@.take(i as int),
            decreases self.locks.len() - i,
        {
            out.push(self.locks[i]);
            i += 1;
            assert(out@ =~= self.locks@.take(i as int));
        }
        assert(self.locks@.take(i as int) =~= self.locks@);
        out
    }

    /// Puts back a transaction that was recorded before, when the state is
    /// loaded. Its id must be larger than every id that is there.
    pub fn restore_transaction(&mut self, tx: Transaction) -> (r: Result<(), Error>)
        requires
            old(self).wf(),
        ensures
            final(self).wf(),
            final(self).locks() == old(self).locks(),
            tx.id > old(self).counter() ==> r == Ok::<(), Error>(()) && final(self).transactions() == old(
                self,
            ).transactions().push(tx) && final(self).counter() == tx.id,
            tx.id <= old(self).counter() ==> r == Err::<(), Error>(Error::InconsistentRecord) && final(self).transactions() == old(self).transactions() && final(self).counter() == old(self).counter(),
    {
        if tx.id <= self.counter {
            return Err(Error::InconsistentRecord);
        }
        let ghost before = self.transactions@;
        self.transactions.push(tx);
        self.counter = tx.id;
        proof {
            lemma_push_lookup(before, old(self).counter(), tx, tx.id);
            assert forall|k: int| 0 <= k < self.locks@.len() implies has_transaction(
                self.transactions@,
                (#[trigger] self.locks@[k]).transaction_id,
            ) && transaction_of(self.transactions@, self.locks@[k].transaction_id).user
                == self.locks@[k].user by {
                lemma_push_lookup(before, old(self).counter(), tx, self.locks@[k].transaction_id);
            }
        }
        Ok(())
    }

    /// Puts back a lock that was made before, when the state is loaded. Its
    /// transaction must be there and belong to its user, and no lock of
    /// the same identity may be there.
    pub fn restore_lock(&mut self, lock: LockedFunds) -> (r: Result<(), Error>)
        requires
            old(self).wf(),
        ensures
            final(self).wf(),
            final(self).transactions() == old(self).transactions(),
            final(self).counter() == old(self).counter(),
            r is Ok <==> has_transaction(old(self).transactions(), lock.transaction_id) && transaction_of(
                old(self).transactions(),
                lock.transaction_id,
            ).user == lock.user && !has_lock(old(self).locks(), lock.user, lock.transaction_id, lock.fund_type),
            r matches Err(e) ==> e == Error::InconsistentRecord,
            final(self).locks() == if r is Ok {
                old(self).locks().push(lock)
            } else {
                old(self).locks()
            },
    {
        match self.position(lock.transaction_id) {
            None => {
                return Err(Error::InconsistentRecord);
            },
            Some(i) => {
                if !self.transactions[i].user.same_as(&lock.user) {
                    return Err(Error::InconsistentRecord);
                }
            },
        }
        if self.lock_position(&lock.user, lock.transaction_id, &lock.fund_type).is_some() {
            return Err(Error::InconsistentRecord);
        }
        let ghost before = self.locks@;
        self.locks.push(lock);
        proof {
            let after = self.locks@;
            assert forall|i: int, j: int| 0 <= i < j < after.len() implies !lock_matches(
                #[trigger] after[i],
                (#[trigger] after[j]).user,
                after[j].transaction_id,
                after[j].fund_type,
            ) by {
                if j == before.len() {
                    assert(after[i] == before[i]);
                } else {
                    assert(after[i] == before[i] && after[j] == before[j]);
                }
            }
            assert forall|i: int| 0 <= i < after.len() implies has_transaction(
                self.transactions@,
                (#[trigger] after[i]).transaction_id,
            ) && transaction_of(self.transactions@, after[i].transaction_id).user == after[i].user by {
                if i < before.len() {
                    assert(after[i] == before[i]);
                }
            }
        }
        Ok(())
    }

    /// Raises the id that counts as given out last, when the state is
    /// loaded. The counter never goes back.
    pub fn restore_counter(&mut self, counter: u64)
        requires
            old(self).wf(),
        ensures
            final(self).wf(),
            final(self).transactions() == old(self).transactions(),
            final(self).locks() == old(self).locks(),
            final(self).counter() == if counter > old(self).counter() {
                counter
            } else {
                old(self).counter()
            },
    {
        if counter > self.counter {
            self.counter = counter;
        }
    }
}

} // verus!
