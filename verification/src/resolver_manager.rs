//! The resolvers: who may fill trades, and how they have done.

use vstd::prelude::*;
use crate::admin::{admin_is, is_admin};
use crate::error::Error;
use crate::memory::GlobalState;
use crate::principal::PrincipalId;
use crate::nav_calculator::saturated;

verus! {

/// The largest fee rate of a resolver, in basis points.
pub const MAX_RESOLVER_FEE_RATE: u64 = 1000;

/// A liquidity provider.
#[derive(Clone, Debug)]
pub struct ResolverInfo {
    pub principal: PrincipalId,
    pub name: String,
    pub fee_rate: u64,
    pub total_volume_processed: u64,
    pub successful_transactions: u64,
    pub failed_transactions: u64,
    pub is_active: bool,
    pub registered_at: u64,
    pub last_active: u64,
}

/// Totals over the resolvers.
#[derive(Clone, Copy, Debug, PartialEq, Eq, Structural)]
pub struct ResolverStatistics {
    pub total_resolvers: u64,
    pub active_resolvers: u64,
    pub total_volume_processed: u64,
    pub total_transactions: u64,
}

/// Whether a resolver with this identity is among `resolvers`.
pub open spec fn has_resolver(resolvers: Seq<ResolverInfo>, principal: PrincipalId) -> bool {
    exists|i: int| 0 <= i < resolvers.len() && (#[trigger] resolvers[i]).principal == principal
}

/// The resolver with this identity among `resolvers`.
pub open spec fn resolver_of(resolvers: Seq<ResolverInfo>, principal: PrincipalId) -> ResolverInfo
    recommends
        has_resolver(resolvers, principal),
{
    resolvers[choose|i: int| 0 <= i < resolvers.len() && (#[trigger] resolvers[i]).principal == principal]
}

/// No two resolvers have the same identity.
pub open spec fn distinct_resolvers(resolvers: Seq<ResolverInfo>) -> bool {
    forall|i: int, j: int|
        0 <= i < j < resolvers.len() ==> (#[trigger] resolvers[i]).principal != (#[trigger] resolvers[j]).principal
}

/// With distinct identities, the resolver found for an identity is the one
/// at any index that holds it.
pub proof fn lemma_resolver_at(resolvers: Seq<ResolverInfo>, i: int)
    requires
        distinct_resolvers(resolvers),
        0 <= i < resolvers.len(),
    ensures
        has_resolver(resolvers, resolvers[i].principal),
        resolver_of(resolvers, resolvers[i].principal) == resolvers[i],
{
    let c = choose|k: int| 0 <= k < resolvers.len() && (#[trigger] resolvers[k]).principal == resolvers[i].principal;
    if c < i {
        assert(resolvers[c].principal != resolvers[i].principal);
    } else if i < c {
        assert(resolvers[i].principal != resolvers[c].principal);
    }
}

/// What can be summed over resolvers.
pub enum ResolverMeasure {
    /// One for each active resolver.
    Active,
    /// The volume processed.
    Volume,
    /// The transactions, successful and failed.
    Transactions,
}

/// What a resolver adds to a sum.
pub open spec fn resolver_measure(resolver: ResolverInfo, m: ResolverMeasure) -> nat {
    match m {
        ResolverMeasure::Active => if resolver.is_active {
            1
        } else {
            0
        },
        ResolverMeasure::Volume => resolver.total_volume_processed as nat,
        ResolverMeasure::Transactions => resolver.successful_transactions as nat
            + resolver.failed_transactions as nat,
    }
}

/// The sum of a measure over the resolvers.
pub open spec fn resolver_total(resolvers: Seq<ResolverInfo>, m: ResolverMeasure) -> nat
    decreases resolvers.len(),
{
    if resolvers.len() == 0 {
        0
    } else {
        resolver_total(resolvers.drop_last(), m) + resolver_measure(resolvers.last(), m)
    }
}

/// The totals over the resolvers, each capped at 64 bits.
pub open spec fn resolver_statistics(resolvers: Seq<ResolverInfo>) -> ResolverStatistics {
    ResolverStatistics {
        total_resolvers: saturated(resolvers.len()),
        active_resolvers: saturated(resolver_total(resolvers, ResolverMeasure::Active)),
        total_volume_processed: saturated(resolver_total(resolvers, ResolverMeasure::Volume)),
        total_transactions: saturated(resolver_total(resolvers, ResolverMeasure::Transactions)),
    }
}

/// A resolver as it is when it is registered at `now`.
pub open spec fn new_resolver(principal: PrincipalId, name: String, fee_rate: u64, now: u64) -> ResolverInfo {
    ResolverInfo {
        principal,
        name,
        fee_rate,
        total_volume_processed: 0,
        successful_transactions: 0,
        failed_transactions: 0,
        is_active: true,
        registered_at: now,
        last_active: now,
    }
}

/// A resolver after one more transaction of `volume`.
pub open spec fn with_performance(resolver: ResolverInfo, success: bool, volume: u64, now: u64) -> ResolverInfo {
    ResolverInfo {
        total_volume_processed: saturated(resolver.total_volume_processed as nat + volume as nat),
        successful_transactions: if success {
            saturated(resolver.successful_transactions as nat + 1)
        } else {
            resolver.successful_transactions
        },
        failed_transactions: if success {
            resolver.failed_transactions
        } else {
            saturated(resolver.failed_transactions as nat + 1)
        },
        last_active: now,
        ..resolver
    }
}

/// The registered resolvers.
pub struct ResolverRegistry {
    resolvers: Vec<ResolverInfo>,
}

impl ResolverRegistry {
    /// The resolvers, in the order in which they were registered.
    pub closed spec fn view(&self) -> Seq<ResolverInfo> {
        self.resolvers@
    }

    /// No two resolvers have the same identity.
    pub open spec fn wf(&self) -> bool {
        distinct_resolvers(self@)
    }

    /// A registry without resolvers.
    pub fn new() -> (r: ResolverRegistry)
        ensures
            r.wf(),
            r@ == Seq::<ResolverInfo>::empty(),
    {
        ResolverRegistry { resolvers: Vec::new() }
    }

    fn position(&self, principal: &PrincipalId) -> (r: Option<usize>)
        requires
            self.wf(),
        ensures
            r is Some <==> has_resolver(self@, *principal),
            r matches Some(i) ==> i < self@.len() && self@[i as int].principal == *principal && self@[i as int]
                == resolver_of(self@, *principal),
    {
        let mut i: usize = 0;
        while i < self.resolvers.len()
            invariant
                self.wf(),
                i <= self.resolvers.len(),
                forall|k: int| 0 <= k < i ==> (#[trigger] self.resolvers@[k]).principal != *principal,
            decreases self.resolvers.len() - i,
        {
            if self.resolvers[i].principal.same_as(principal) {
                proof {
                    lemma_resolver_at(self.resolvers@, i as int);
                }
                return Some(i);
            }
            i += 1;
        }
        None
    }

    /// Registers the caller as a resolver. Only the administrator may
    /// register, the fee rate is at most 1000 basis points, and nobody is
    /// registered twice.
    pub fn register_resolver(&mut self, state: &GlobalState, caller: &PrincipalId, name: String, fee_rate: u64, now: u64) -> (r:
        Result<(), Error>)
        requires
            old(self).wf(),
        ensures
            final(self).wf(),
            r == registration_check(*state, old(self)@, *caller, *caller, fee_rate),
            final(self)@ == if r is Ok {
                old(self)@.push(new_resolver(*caller, name, fee_rate, now))
            } else {
                old(self)@
            },
    {
        self.register_resolver_admin(state, caller, *caller, name, fee_rate, now)
    }

    /// Registers `resolver_principal` as a resolver. Only the administrator
    /// may register, the fee rate is at most 1000 basis points, and nobody
    /// is registered twice.
    pub fn register_resolver_admin(
        &mut self,
        state: &GlobalState,
        caller: &PrincipalId,
        resolver_principal: PrincipalId,
        name: String,
        fee_rate: u64,
        now: u64,
    ) -> (r: Result<(), Error>)
        requires
            old(self).wf(),
        ensures
            final(self).wf(),
            r == registration_check(*state, old(self)@, *caller, resolver_principal, fee_rate),
            final(self)@ == if r is Ok {
                old(self)@.push(new_resolver(resolver_principal, name, fee_rate, now))
            } else {
                old(self)@
            },
    {
        if !is_admin(state, caller) {
            return Err(Error::NotAdmin);
        }
        if fee_rate > MAX_RESOLVER_FEE_RATE {
            return Err(Error::ResolverFeeTooHigh);
        }
        if self.position(&resolver_principal).is_some() {
            return Err(Error::ResolverExists);
        }
        self.resolvers.push(
            ResolverInfo {
                principal: resolver_principal,
                name,
                fee_rate,
                total_volume_processed: 0,
                successful_transactions: 0,
                failed_transactions: 0,
                is_active: true,
                registered_at: now,
                last_active: now,
            },
        );
        proof {
            let before = old(self)@;
            let after = self.resolvers@;
            assert forall|i: int, j: int| 0 <= i < j < after.len() implies (#[trigger] after[i]).principal != (
            #[trigger] after[j]).principal by {
                if j == before.len() {
                    assert(after[i] == before[i]);
                } else {
                    assert(after[i] == before[i] && after[j] == before[j]);
                }
            }
        }
        Ok(())
    }

    /// Sets whether a resolver is active. The administrator and the
    /// resolver itself may.
    pub fn update_resolver_status(&mut self, state: &GlobalState, caller: &PrincipalId, resolver: &PrincipalId, is_active: bool, now: u64) -> (r:
        Result<(), Error>)
        requires
            old(self).wf(),
        ensures
            final(self).wf(),
            r == if !admin_is(*state, *caller) && *caller != *resolver {
                Err::<(), Error>(Error::NotAdmin)
            } else if !has_resolver(old(self)@, *resolver) {
                Err::<(), Error>(Error::ResolverNotFound)
            } else {
                Ok::<(), Error>(())
            },
            r is Err ==> final(self)@ == old(self)@,
            r is Ok ==> final(self)@.len() == old(self)@.len() && forall|i: int|
                0 <= i < old(self)@.len() ==> #[trigger] final(self)@[i] == if old(self)@[i].principal
                    == *resolver {
                    ResolverInfo { is_active, last_active: now, ..old(self)@[i] }
                } else {
                    old(self)@[i]
                },
    {
        if !is_admin(state, caller) && !caller.same_as(resolver) {
            return Err(Error::NotAdmin);
        }
        match self.position(resolver) {
            None => Err(Error::ResolverNotFound),
            Some(i) => {
                self.resolvers[i].is_active = is_active;
                self.resolvers[i].last_active = now;
                proof {
                    let before = old(self)@;
                    let after = self.resolvers@;
                    assert forall|a: int, b: int| 0 <= a < b < after.len() implies (#[trigger] after[a]).principal
                        != (#[trigger] after[b]).principal by {
                        assert(after[a].principal == before[a].principal);
                        assert(after[b].principal == before[b].principal);
                    }
                }
                Ok(())
            },
        }
    }

    /// Counts one more transaction of `volume` for a resolver. The counts
    /// and the volume stop at the largest 64-bit number.
    pub fn update_resolver_performance(&mut self, resolver: &PrincipalId, transaction_success: bool, volume: u64, now: u64) -> (r:
        Result<(), Error>)
        requires
            old(self).wf(),
        ensures
            final(self).wf(),
            r == if has_resolver(old(self)@, *resolver) {
                Ok::<(), Error>(())
            } else {
                Err::<(), Error>(Error::ResolverNotFound)
            },
            r is Err ==> final(self)@ == old(self)@,
            r is Ok ==> final(self)@.len() == old(self)@.len() && forall|i: int|
                0 <= i < old(self)@.len() ==> #[trigger] final(self)@[i] == if old(self)@[i].principal
                    == *resolver {
                    with_performance(old(self)@[i], transaction_success, volume, now)
                } else {
                    old(self)@[i]
                },
    {
        match self.position(resolver) {
            None => Err(Error::ResolverNotFound),
            Some(i) => {
                let total = self.resolvers[i].total_volume_processed.saturating_add(volume);
                self.resolvers[i].total_volume_processed = total;
                self.resolvers[i].last_active = now;
                if transaction_success {
                    let n = self.resolvers[i].successful_transactions.saturating_add(1);
                    self.resolvers[i].successful_transactions = n;
                } else {
                    let n = self.resolvers[i].failed_transactions.saturating_add(1);
                    self.resolvers[i].failed_transactions = n;
                }
                proof {
                    let before = old(self)@;
                    let after = self.resolvers@;
                    assert forall|a: int, b: int| 0 <= a < b < after.len() implies (#[trigger] after[a]).principal
                        != (#[trigger] after[b]).principal by {
                        assert(after[a].principal == before[a].principal);
                        assert(after[b].principal == before[b].principal);
                    }
                }
                Ok(())
            },
        }
    }

    /// The resolver with this identity.
    pub fn get_resolver(&self, principal: &PrincipalId) -> (r: Result<&ResolverInfo, Error>)
        requires
            self.wf(),
        ensures
            match r {
                Ok(resolver) => has_resolver(self@, *principal) && *resolver == resolver_of(self@, *principal),
                Err(e) => !has_resolver(self@, *principal) && e == Error::ResolverNotFound,
            },
    {
        match self.position(principal) {
            Some(i) => Ok(&self.resolvers[i]),
            None => Err(Error::ResolverNotFound),
        }
    }

    /// Whether a resolver with this identity is registered.
    pub fn is_resolver_registered(&self, principal: &PrincipalId) -> (r: bool)
        requires
            self.wf(),
        ensures
            r == has_resolver(self@, *principal),
    {
        self.position(principal).is_some()
    }

    /// Whether a resolver with this identity is registered and active.
    pub fn is_resolver_active(&self, principal: &PrincipalId) -> (r: bool)
        requires
            self.wf(),
        ensures
            r == (has_resolver(self@, *principal) && resolver_of(self@, *principal).is_active),
    {
        match self.position(principal) {
            Some(i) => self.resolvers[i].is_active,
            None => false,
        }
    }

    /// The identities of the active resolvers, in the order in which they
    /// were registered.
    pub fn get_active_resolvers(&self) -> (out: Vec<PrincipalId>)
        ensures
            out@ == self@.filter(|r: ResolverInfo| r.is_active).map_values(|r: ResolverInfo| r.principal),
    {
        let ghost active = |r: ResolverInfo| r.is_active;
        let ghost identity = |r: ResolverInfo| r.principal;
        let ghost all = self.resolvers@;
        let mut out: Vec<PrincipalId> = Vec::new();
        let mut i: usize = 0;
        proof {
            reveal(Seq::filter);
            assert(all.take(0).filter(active) =~= Seq::<ResolverInfo>::empty());
            assert(out@ =~= all.take(0).filter(active).map_values(identity));
        }
        while i < self.resolvers.len()
            invariant
                i <= self.resolvers.len(),
                all == self.resolvers@,
                active == (|r: ResolverInfo| r.is_active),
                identity == (|r: ResolverInfo| r.principal),
                out@ == all.take(i as int).filter(active).map_values(identity),
            decreases self.resolvers.len() - i,
        {
            proof {
                assert(all.take(i + 1) =~= all.take(i as int).push(all[i as int]));
                all.take(i as int).lemma_filter_push(all[i as int], active);
            }
            if self.resolvers[i].is_active {
                out.push(self.resolvers[i].principal);
                assert(out@ =~= all.take(i + 1).filter(active).map_values(identity));
            }
            i += 1;
        }
        assert(all.take(i as int) =~= all);
        out
    }

    /// The totals over the resolvers.
    pub fn get_resolver_statistics(&self) -> (stats: ResolverStatistics)
        ensures
            stats == resolver_statistics(self@),
    {
        let mut active: u64 = 0;
        let mut volume: u64 = 0;
        let mut transactions: u64 = 0;
        let mut i: usize = 0;
        let ghost all = self.resolvers@;
        while i < self.resolvers.len()
            invariant
                i <= self.resolvers.len(),
                all == self.resolvers@,
                active == saturated(resolver_total(all.take(i as int), ResolverMeasure::Active)),
                volume == saturated(resolver_total(all.take(i as int), ResolverMeasure::Volume)),
                transactions == saturated(resolver_total(all.take(i as int), ResolverMeasure::Transactions)),
            decreases self.resolvers.len() - i,
        {
            assert(all.take(i + 1).drop_last() =~= all.take(i as int));
            let r = &self.resolvers[i];
            if r.is_active {
                active = active.saturating_add(1);
            }
            volume = volume.saturating_add(r.total_volume_processed);
            transactions = transactions.saturating_add(r.successful_transactions).saturating_add(
                r.failed_transactions,
            );
            i += 1;
        }
        assert(all.take(i as int) =~= all);
        ResolverStatistics {
            total_resolvers: self.resolvers.len() as u64,
            active_resolvers: active,
            total_volume_processed: volume,
            total_transactions: transactions,
        }
    }
}

/// Whether a registration is accepted.
pub open spec fn registration_check(
    state: GlobalState,
    resolvers: Seq<ResolverInfo>,
    caller: PrincipalId,
    resolver: PrincipalId,
    fee_rate: u64,
) -> Result<(), Error> {
    if !admin_is(state, caller) {
        Err(Error::NotAdmin)
    } else if fee_rate > MAX_RESOLVER_FEE_RATE {
        Err(Error::ResolverFeeTooHigh)
    } else if has_resolver(resolvers, resolver) {
        Err(Error::ResolverExists)
    } else {
        Ok(())
    }
}

impl ResolverRegistry {
    /// How many resolvers are registered.
    pub fn len(&self) -> (n: usize)
        ensures
            n == self@.len(),
    {
        self.resolvers.len()
    }

    /// The resolver at a position, in the order in which the resolvers were
    /// registered.
    pub fn get_at(&self, index: usize) -> (r: &ResolverInfo)
        requires
            index < self@.len(),
        ensures
            *r == self@[index as int],
    {
        &self.resolvers[index]
    }

    /// Puts back a resolver that was registered before, when the state is
    /// loaded. No resolver with its identity may be there.
    pub fn restore_resolver(&mut self, resolver: ResolverInfo) -> (r: Result<(), Error>)
        requires
            old(self).wf(),
        ensures
            final(self).wf(),
            r == if has_resolver(old(self)@, resolver.principal) {
                Err::<(), Error>(Error::ResolverExists)
            } else {
                Ok::<(), Error>(())
            },
            final(self)@ == if r is Ok {
                old(self)@.push(resolver)
            } else {
                old(self)@
            },
    {
        if self.position(&resolver.principal).is_some() {
            return Err(Error::ResolverExists);
        }
        let ghost before = self.resolvers@;
        self.resolvers.push(resolver);
        proof {
            let after = self.resolvers@;
            assert forall|i: int, j: int| 0 <= i < j < after.len() implies (#[trigger] after[i]).principal != (
            #[trigger] after[j]).principal by {
                if j == before.len() {
                    assert(after[i] == before[i]);
                } else {
                    assert(after[i] == before[i] && after[j] == before[j]);
                }
            }
        }
        Ok(())
    }
}

} // verus!
