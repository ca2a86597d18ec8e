//! The bundles, by id.

use vstd::prelude::*;
use crate::admin::{admin_is, is_admin};
use crate::asset_registry::{asset_of, has_asset, AssetRegistry};
use crate::error::Error;
use crate::memory::{GlobalState, DEFAULT_PLATFORM_FEE_BPS, MAX_FEE_BPS};
use crate::nav_calculator::{total_percentage, MAX_ALLOCATIONS};
use crate::principal::PrincipalId;
use crate::transaction_manager::capped_count;
use crate::types::{AssetAllocation, AssetId, BundleConfig, TokenLocation};

verus! {

/// Whether a bundle with this id is among `bundles`.
pub open spec fn has_bundle(bundles: Seq<BundleConfig>, id: u64) -> bool {
    exists|i: int| 0 <= i < bundles.len() && (#[trigger] bundles[i]).id == id
}

/// The bundle with this id among `bundles`.
pub open spec fn bundle_of(bundles: Seq<BundleConfig>, id: u64) -> BundleConfig
    recommends
        has_bundle(bundles, id),
{
    bundles[choose|i: int| 0 <= i < bundles.len() && (#[trigger] bundles[i]).id == id]
}

/// No two bundles have the same id.
pub open spec fn distinct_bundles(bundles: Seq<BundleConfig>) -> bool {
    forall|i: int, j: int| 0 <= i < j < bundles.len() ==> (#[trigger] bundles[i]).id != (#[trigger] bundles[j]).id
}

/// The platform fee of a bundle in basis points: its own, or 50.
pub open spec fn fee_bps_of(bundle: BundleConfig) -> u64 {
    match bundle.platform_fee_bps {
        Some(bps) => bps,
        None => DEFAULT_PLATFORM_FEE_BPS,
    }
}

/// The platform fee on a settlement amount: `amount * bps / 10000`,
/// truncated, and capped at 64 bits.
pub open spec fn platform_fee(amount: u64, bps: u64) -> u64 {
    if amount as nat * bps as nat / 10_000 > u64::MAX {
        u64::MAX
    } else {
        (amount as nat * bps as nat / 10_000) as u64
    }
}

/// With a fee of at most 10000 basis points, the fee is at most the amount.
pub proof fn lemma_fee_within_amount(amount: u64, bps: u64)
    requires
        bps <= MAX_FEE_BPS,
    ensures
        platform_fee(amount, bps) <= amount,
        platform_fee(amount, bps) == amount as nat * bps as nat / 10_000,
{
    assert(amount as nat * bps as nat <= amount as nat * 10_000) by (nonlinear_arith)
        requires
            bps <= 10_000,
    ;
    vstd::arithmetic::div_mod::lemma_div_is_ordered(
        amount as int * bps as int,
        amount as int * 10_000,
        10_000,
    );
    vstd::arithmetic::div_mod::lemma_div_multiples_vanish(amount as int, 10_000);
    assert(amount as int * 10_000 == 10_000 * amount as int);
}

/// The platform fee on a settlement amount.
pub fn compute_platform_fee(amount: u64, bps: u64) -> (fee: u64)
    ensures
        fee == platform_fee(amount, bps),
{
    assert(amount as u128 * bps as u128 <= 0xFFFF_FFFF_FFFF_FFFF * 0xFFFF_FFFF_FFFF_FFFF) by (nonlinear_arith)
        requires
            amount <= 0xFFFF_FFFF_FFFF_FFFF,
            bps <= 0xFFFF_FFFF_FFFF_FFFF,
    ;
    let fee: u128 = amount as u128 * bps as u128 / 10_000u128;
    if fee > u64::MAX as u128 {
        u64::MAX
    } else {
        fee as u64
    }
}

/// With distinct ids, the bundle found for an id is the one at any index
/// that holds the id.
pub proof fn lemma_bundle_at(bundles: Seq<BundleConfig>, i: int)
    requires
        distinct_bundles(bundles),
        0 <= i < bundles.len(),
    ensures
        has_bundle(bundles, bundles[i].id),
        bundle_of(bundles, bundles[i].id) == bundles[i],
{
    let c = choose|k: int| 0 <= k < bundles.len() && (#[trigger] bundles[k]).id == bundles[i].id;
    if c < i {
        assert(bundles[c].id != bundles[i].id);
    } else if i < c {
        assert(bundles[i].id != bundles[c].id);
    }
}

/// The first index at or after `from` of an allocation whose asset is not
/// registered or not active.
pub open spec fn first_unusable_asset(
    assets: Seq<crate::types::AssetInfo>,
    allocations: Seq<AssetAllocation>,
    from: int,
) -> Option<int>
    decreases allocations.len() - from,
{
    if from < 0 || from >= allocations.len() {
        None
    } else if !has_asset(assets, allocations[from].asset_id@) || !asset_of(
        assets,
        allocations[from].asset_id@,
    ).is_active {
        Some(from)
    } else {
        first_unusable_asset(assets, allocations, from + 1)
    }
}

/// Whether a bundle can be made of the allocations: they sum to 100, and
/// every asset is registered and active.
pub open spec fn bundle_request_check(assets: Seq<crate::types::AssetInfo>, allocations: Seq<AssetAllocation>) -> Result<
    (),
    Error,
> {
    if total_percentage(allocations) != 100 {
        Err(Error::TotalPercentage { got: capped_count(total_percentage(allocations) as int) })
    } else {
        match first_unusable_asset(assets, allocations, 0) {
            None => Ok(()),
            Some(i) => if has_asset(assets, allocations[i].asset_id@) {
                Err(Error::AssetInactive { asset_id: allocations[i].asset_id })
            } else {
                Err(Error::AssetNotFound { asset_id: allocations[i].asset_id })
            },
        }
    }
}

/// Checks the allocations of a bundle that is to be created.
pub fn validate_bundle_request(registry: &AssetRegistry, allocations: &Vec<AssetAllocation>) -> (r: Result<
    (),
    Error,
>)
    requires
        registry.wf(),
    ensures
        r == bundle_request_check(registry@, allocations@),
{
    let mut total: u32 = 0;
    let mut i: usize = 0;
    while i < allocations.len()
        invariant
            i <= allocations.len(),
            total == capped_count(total_percentage(allocations@.take(i as int)) as int),
        decreases allocations.len() - i,
    {
        assert(allocations@.take(i + 1).drop_last() =~= allocations@.take(i as int));
        total = total.saturating_add(allocations[i].percentage as u32);
        i += 1;
    }
    assert(allocations@.take(i as int) =~= allocations@);
    if total != 100 {
        return Err(Error::TotalPercentage { got: total });
    }
    let mut j: usize = 0;
    while j < allocations.len()
        invariant
            j <= allocations.len(),
            registry.wf(),
            total_percentage(allocations@) == 100,
            first_unusable_asset(registry@, allocations@, 0) == first_unusable_asset(
                registry@,
                allocations@,
                j as int,
            ),
        decreases allocations.len() - j,
    {
        match registry.get_asset(&allocations[j].asset_id) {
            Err(e) => {
                return Err(e);
            },
            Ok(asset) => {
                if !asset.is_active {
                    return Err(Error::AssetInactive { asset_id: allocations[j].asset_id.clone() });
                }
            },
        }
        j += 1;
    }
    Ok(())
}

/// The bundles.
pub struct BundleStore {
    bundles: Vec<BundleConfig>,
}

impl BundleStore {
    /// The bundles, in the order in which they were created.
    pub closed spec fn view(&self) -> Seq<BundleConfig> {
        self.bundles@
    }

    /// No two bundles have the same id.
    pub open spec fn wf(&self) -> bool {
        distinct_bundles(self@)
    }

    /// A store without bundles.
    pub fn new() -> (r: BundleStore)
        ensures
            r.wf(),
            r@ == Seq::<BundleConfig>::empty(),
    {
        BundleStore { bundles: Vec::new() }
    }

    fn position(&self, bundle_id: u64) -> (r: Option<usize>)
        requires
            self.wf(),
        ensures
            r is Some <==> has_bundle(self@, bundle_id),
            r matches Some(i) ==> i < self@.len() && self@[i as int].id == bundle_id && self@[i as int]
                == bundle_of(self@, bundle_id),
    {
        let mut i: usize = 0;
        while i < self.bundles.len()
            invariant
                self.wf(),
                i <= self.bundles.len(),
                forall|k: int| 0 <= k < i ==> (#[trigger] self.bundles@[k]).id != bundle_id,
            decreases self.bundles.len() - i,
        {
            if self.bundles[i].id == bundle_id {
                proof {
                    lemma_bundle_at(self.bundles@, i as int);
                }
                return Some(i);
            }
            i += 1;
        }
        None
    }

    /// The bundle with this id.
    pub fn get_bundle(&self, bundle_id: u64) -> (r: Result<&BundleConfig, Error>)
        requires
            self.wf(),
        ensures
            match r {
                Ok(bundle) => has_bundle(self@, bundle_id) && *bundle == bundle_of(self@, bundle_id),
                Err(e) => !has_bundle(self@, bundle_id) && e == (Error::BundleNotFound { bundle_id }),
            },
    {
        match self.position(bundle_id) {
            Some(i) => Ok(&self.bundles[i]),
            None => Err(Error::BundleNotFound { bundle_id }),
        }
    }

    /// How many bundles there are.
    pub fn get_bundle_count(&self) -> (n: u64)
        ensures
            n == self@.len(),
    {
        self.bundles.len() as u64
    }

    /// Stores a new bundle under the next bundle id, with the default
    /// platform fee. The allocations must pass `validate_bundle_request`.
    pub fn create_bundle(
        &mut self,
        state: &mut GlobalState,
        registry: &AssetRegistry,
        name: String,
        symbol: String,
        description: Option<String>,
        allocations: Vec<AssetAllocation>,
        token_location: TokenLocation,
        creator: PrincipalId,
        now: u64,
    ) -> (r: Result<u64, Error>)
        requires
            old(self).wf(),
            registry.wf(),
            old(state).bundle_counter < u64::MAX,
        ensures
            final(self).wf(),
            match r {
                Ok(id) => {
                    &&& bundle_request_check(registry@, allocations@) is Ok
                    &&& !has_bundle(old(self)@, old(state).bundle_counter)
                    &&& id == old(state).bundle_counter
                    &&& *final(state) == (GlobalState { bundle_counter: (id + 1) as u64, ..*old(state) })
                    &&& final(self)@ == old(self)@.push(
                        BundleConfig {
                            id,
                            name,
                            symbol,
                            description,
                            creator,
                            allocations,
                            token_location,
                            created_at: now,
                            is_active: true,
                            platform_fee_bps: Some(
                                match old(state).default_platform_fee_bps {
                                    Some(bps) => bps,
                                    None => DEFAULT_PLATFORM_FEE_BPS,
                                },
                            ),
                        },
                    )
                },
                Err(e) => {
                    &&& final(self)@ == old(self)@
                    &&& *final(state) == *old(state)
                    &&& match bundle_request_check(registry@, allocations@) {
                        Err(reason) => e == reason,
                        Ok(()) => has_bundle(old(self)@, old(state).bundle_counter) && e == (
                        Error::BundleExists { bundle_id: old(state).bundle_counter }),
                    }
                },
            },
    {
        match validate_bundle_request(registry, &allocations) {
            Ok(()) => {},
            Err(e) => {
                return Err(e);
            },
        }
        if self.position(state.bundle_counter).is_some() {
            return Err(Error::BundleExists { bundle_id: state.bundle_counter });
        }
        let id = crate::memory::get_next_bundle_id(state);
        let fee = crate::admin::get_default_platform_fee_bps(state);
        let bundle = BundleConfig {
            id,
            name,
            symbol,
            description,
            creator,
            allocations,
            token_location,
            created_at: now,
            is_active: true,
            platform_fee_bps: Some(fee),
        };
        self.bundles.push(bundle);
        proof {
            let before = old(self)@;
            let after = self.bundles@;
            assert forall|i: int, j: int| 0 <= i < j < after.len() implies (#[trigger] after[i]).id != (
            #[trigger] after[j]).id by {
                if j == before.len() {
                    assert(after[i] == before[i]);
                } else {
                    assert(after[i] == before[i] && after[j] == before[j]);
                }
            }
        }
        Ok(id)
    }

    /// Sets the platform fee of a bundle in basis points. Only the
    /// administrator may, and the fee is at most 10000.
    pub fn set_bundle_platform_fee(&mut self, state: &GlobalState, caller: &PrincipalId, bundle_id: u64, fee_bps: u64) -> (r:
        Result<(), Error>)
        requires
            old(self).wf(),
        ensures
            final(self).wf(),
            r == if !admin_is(*state, *caller) {
                Err::<(), Error>(Error::NotAdmin)
            } else if fee_bps > MAX_FEE_BPS {
                Err::<(), Error>(Error::FeeTooHigh)
            } else if !has_bundle(old(self)@, bundle_id) {
                Err::<(), Error>(Error::BundleNotFound { bundle_id })
            } else {
                Ok::<(), Error>(())
            },
            r is Err ==> final(self)@ == old(self)@,
            r is Ok ==> final(self)@.len() == old(self)@.len() && forall|i: int|
                0 <= i < old(self)@.len() ==> #[trigger] final(self)@[i] == if old(self)@[i].id == bundle_id {
                    BundleConfig { platform_fee_bps: Some(fee_bps), ..old(self)@[i] }
                } else {
                    old(self)@[i]
                },
    {
        if !is_admin(state, caller) {
            return Err(Error::NotAdmin);
        }
        if fee_bps > MAX_FEE_BPS {
            return Err(Error::FeeTooHigh);
        }
        match self.position(bundle_id) {
            None => Err(Error::BundleNotFound { bundle_id }),
            Some(i) => {
                self.bundles[i].platform_fee_bps = Some(fee_bps);
                proof {
                    let before = old(self)@;
                    let after = self.bundles@;
                    assert forall|a: int, b: int| 0 <= a < b < after.len() implies (#[trigger] after[a]).id != (
                    #[trigger] after[b]).id by {
                        assert(after[a].id == before[a].id && after[b].id == before[b].id);
                    }
                }
                Ok(())
            },
        }
    }

    /// Marks a bundle as inactive. Only the administrator may.
    pub fn force_deactivate_bundle(&mut self, state: &GlobalState, caller: &PrincipalId, bundle_id: u64) -> (r:
        Result<(), Error>)
        requires
            old(self).wf(),
        ensures
            final(self).wf(),
            r == if !admin_is(*state, *caller) {
                Err::<(), Error>(Error::NotAdmin)
            } else if !has_bundle(old(self)@, bundle_id) {
                Err::<(), Error>(Error::BundleNotFound { bundle_id })
            } else {
                Ok::<(), Error>(())
            },
            r is Err ==> final(self)@ == old(self)@,
            r is Ok ==> final(self)@.len() == old(self)@.len() && forall|i: int|
                0 <= i < old(self)@.len() ==> #[trigger] final(self)@[i] == if old(self)@[i].id == bundle_id {
                    BundleConfig { is_active: false, ..old(self)@[i] }
                } else {
                    old(self)@[i]
                },
    {
        if !is_admin(state, caller) {
            return Err(Error::NotAdmin);
        }
        match self.position(bundle_id) {
            None => Err(Error::BundleNotFound { bundle_id }),
            Some(i) => {
                self.bundles[i].is_active = false;
                proof {
                    let before = old(self)@;
                    let after = self.bundles@;
                    assert forall|a: int, b: int| 0 <= a < b < after.len() implies (#[trigger] after[a]).id != (
                    #[trigger] after[b]).id by {
                        assert(after[a].id == before[a].id && after[b].id == before[b].id);
                    }
                }
                Ok(())
            },
        }
    }
}

/// Whether the bundle holds the asset.
pub open spec fn uses_asset(bundle: BundleConfig, asset_id: Seq<char>) -> bool {
    exists|i: int| 0 <= i < bundle.allocations@.len() && (#[trigger] bundle.allocations@[i]).asset_id@ == asset_id
}

/// Whether `out` holds exactly the bundles of `kept`, in their order.
pub open spec fn lists(out: Seq<&BundleConfig>, kept: Seq<BundleConfig>) -> bool {
    out.len() == kept.len() && forall|i: int| 0 <= i < out.len() ==> *(#[trigger] out[i]) == kept[i]
}

impl BundleStore {
    /// The active bundles, in the order in which they were created.
    pub fn list_active_bundles(&self) -> (out: Vec<&BundleConfig>)
        ensures
            lists(out@, self@.filter(|b: BundleConfig| b.is_active)),
    {
        let ghost wanted = |b: BundleConfig| b.is_active;
        let ghost all = self.bundles@;
        let mut out: Vec<&BundleConfig> = Vec::new();
        let mut i: usize = 0;
        proof {
            reveal(Seq::filter);
            assert(all.take(0).filter(wanted) =~= Seq::<BundleConfig>::empty());
        }
        while i < self.bundles.len()
            invariant
                i <= self.bundles.len(),
                all == self.bundles@,
                wanted == (|b: BundleConfig| b.is_active),
                lists(out@, all.take(i as int).filter(wanted)),
            decreases self.bundles.len() - i,
        {
            proof {
                assert(all.take(i + 1) =~= all.take(i as int).push(all[i as int]));
                all.take(i as int).lemma_filter_push(all[i as int], wanted);
            }
            if self.bundles[i].is_active {
                out.push(&self.bundles[i]);
            }
            i += 1;
        }
        assert(all.take(i as int) =~= all);
        out
    }

    /// The bundles that `user` created, in the order in which they were
    /// created.
    pub fn get_user_bundles(&self, user: &PrincipalId) -> (out: Vec<&BundleConfig>)
        ensures
            lists(out@, self@.filter(|b: BundleConfig| b.creator == *user)),
    {
        let ghost wanted = |b: BundleConfig| b.creator == *user;
        let ghost all = self.bundles@;
        let mut out: Vec<&BundleConfig> = Vec::new();
        let mut i: usize = 0;
        proof {
            reveal(Seq::filter);
            assert(all.take(0).filter(wanted) =~= Seq::<BundleConfig>::empty());
        }
        while i < self.bundles.len()
            invariant
                i <= self.bundles.len(),
                all == self.bundles@,
                wanted == (|b: BundleConfig| b.creator == *user),
                lists(out@, all.take(i as int).filter(wanted)),
            decreases self.bundles.len() - i,
        {
            proof {
                assert(all.take(i + 1) =~= all.take(i as int).push(all[i as int]));
                all.take(i as int).lemma_filter_push(all[i as int], wanted);
            }
            if self.bundles[i].creator.same_as(user) {
                out.push(&self.bundles[i]);
            }
            i += 1;
        }
        assert(all.take(i as int) =~= all);
        out
    }

    /// The ids of the bundles that hold the asset, in the order in which
    /// the bundles were created.
    pub fn get_bundles_using_asset(&self, asset_id: &AssetId) -> (out: Vec<u64>)
        ensures
            out@ == self@.filter(|b: BundleConfig| uses_asset(b, asset_id@)).map_values(|b: BundleConfig| b.id),
    {
        let ghost wanted = |b: BundleConfig| uses_asset(b, asset_id@);
        let ghost id_of = |b: BundleConfig| b.id;
        let ghost all = self.bundles@;
        let mut out: Vec<u64> = Vec::new();
        let mut i: usize = 0;
        proof {
            reveal(Seq::filter);
            assert(all.take(0).filter(wanted) =~= Seq::<BundleConfig>::empty());
            assert(out@ =~= all.take(0).filter(wanted).map_values(id_of));
        }
        while i < self.bundles.len()
            invariant
                i <= self.bundles.len(),
                all == self.bundles@,
                wanted == (|b: BundleConfig| uses_asset(b, asset_id@)),
                id_of == (|b: BundleConfig| b.id),
                out@ == all.take(i as int).filter(wanted).map_values(id_of),
            decreases self.bundles.len() - i,
        {
            proof {
                assert(all.take(i + 1) =~= all.take(i as int).push(all[i as int]));
                all.take(i as int).lemma_filter_push(all[i as int], wanted);
            }
            let allocations = &self.bundles[i].allocations;
            let mut found = false;
            let mut k: usize = 0;
            while k < allocations.len()
                invariant
                    k <= allocations.len(),
                    found <==> exists|m: int| 0 <= m < k && (#[trigger] allocations@[m]).asset_id@ == asset_id@,
                decreases allocations.len() - k,
            {
                if allocations[k].asset_id == *asset_id {
                    found = true;
                }
                k += 1;
            }
            if found {
                out.push(self.bundles[i].id);
                assert(out@ =~= all.take(i + 1).filter(wanted).map_values(id_of));
            }
            i += 1;
        }
        assert(all.take(i as int) =~= all);
        out
    }

    /// The ids of the inactive bundles: those that a cleanup looks at.
    pub fn inactive_bundles(&self) -> (out: Vec<u64>)
        ensures
            out@ == self@.filter(|b: BundleConfig| !b.is_active).map_values(|b: BundleConfig| b.id),
    {
        let ghost wanted = |b: BundleConfig| !b.is_active;
        let ghost id_of = |b: BundleConfig| b.id;
        let ghost all = self.bundles@;
        let mut out: Vec<u64> = Vec::new();
        let mut i: usize = 0;
        proof {
            reveal(Seq::filter);
            assert(all.take(0).filter(wanted) =~= Seq::<BundleConfig>::empty());
            assert(out@ =~= all.take(0).filter(wanted).map_values(id_of));
        }
        while i < self.bundles.len()
            invariant
                i <= self.bundles.len(),
                all == self.bundles@,
                wanted == (|b: BundleConfig| !b.is_active),
                id_of == (|b: BundleConfig| b.id),
                out@ == all.take(i as int).filter(wanted).map_values(id_of),
            decreases self.bundles.len() - i,
        {
            proof {
                assert(all.take(i + 1) =~= all.take(i as int).push(all[i as int]));
                all.take(i as int).lemma_filter_push(all[i as int], wanted);
            }
            if !self.bundles[i].is_active {
                out.push(self.bundles[i].id);
                assert(out@ =~= all.take(i + 1).filter(wanted).map_values(id_of));
            }
            i += 1;
        }
        assert(all.take(i as int) =~= all);
        out
    }

    /// Removes an inactive bundle of which no token exists; `total_tokens`
    /// is the supply of its token as the ledger answered it. Only the
    /// administrator may. Returns whether the bundle was removed.
    pub fn cleanup_inactive_bundles(&mut self, state: &GlobalState, caller: &PrincipalId, bundle_id: u64, total_tokens: u64) -> (r:
        Result<bool, Error>)
        requires
            old(self).wf(),
        ensures
            final(self).wf(),
            !admin_is(*state, *caller) ==> r == Err::<bool, Error>(Error::NotAdmin) && final(self)@ == old(self)@,
            admin_is(*state, *caller) ==> r == Ok::<bool, Error>(removable(old(self)@, bundle_id, total_tokens))
                && final(self)@ == if removable(old(self)@, bundle_id, total_tokens) {
                old(self)@.filter(|b: BundleConfig| b.id != bundle_id)
            } else {
                old(self)@
            },
    {
        if !is_admin(state, caller) {
            return Err(Error::NotAdmin);
        }
        match self.position(bundle_id) {
            None => Ok(false),
            Some(i) => {
                if self.bundles[i].is_active || total_tokens != 0 {
                    return Ok(false);
                }
                let ghost before = self.bundles@;
                let _ = self.bundles.remove(i);
                proof {
                    let after = self.bundles@;
                    let keep = |b: BundleConfig| b.id != bundle_id;
                    assert forall|a: int, b: int| 0 <= a < b < after.len() implies (#[trigger] after[a]).id != (
                    #[trigger] after[b]).id by {
                        let a0 = if a < i {
                            a
                        } else {
                            a + 1
                        };
                        let b0 = if b < i {
                            b
                        } else {
                            b + 1
                        };
                        assert(after[a] == before[a0] && after[b] == before[b0]);
                        assert(before[a0].id != before[b0].id);
                    }
                    assert forall|j: int| 0 <= j < before.len() && j != i implies keep(#[trigger] before[j]) by {
                        if j < i {
                            assert(before[j].id != before[i as int].id);
                        } else {
                            assert(before[i as int].id != before[j].id);
                        }
                    }
                    crate::transaction_manager::lemma_filter_removes_one(before, keep, i as int);
                }
                Ok(true)
            },
        }
    }
}

/// Whether a bundle can be removed: it is known and inactive, and no token
/// of it exists.
pub open spec fn removable(bundles: Seq<BundleConfig>, bundle_id: u64, total_tokens: u64) -> bool {
    has_bundle(bundles, bundle_id) && !bundle_of(bundles, bundle_id).is_active && total_tokens == 0
}

/// A copy of the allocations.
pub fn copy_asset_allocations(items: &Vec<AssetAllocation>) -> (out: Vec<AssetAllocation>)
    ensures
        out@ == items@,
{
    let mut out: Vec<AssetAllocation> = Vec::new();
    let mut i: usize = 0;
    while i < items.len()
        invariant
            i <= items.len(),
            out@ == items@.take(i as int),
        decreases items.len() - i,
    {
        out.push(items[i].clone());
        i += 1;
        assert(out@ =~= items@.take(i as int));
    }
    assert(items@.take(i as int) =~= items@);
    out
}

impl BundleStore {
    /// The bundle at a position, in the order in which the bundles were
    /// created.
    pub fn get_at(&self, index: usize) -> (b: &BundleConfig)
        requires
            index < self@.len(),
        ensures
            *b == self@[index as int],
    {
        &self.bundles[index]
    }

    /// Puts back a bundle that was created before, when the state is
    /// loaded. No bundle with its id may be there.
    pub fn restore_bundle(&mut self, bundle: BundleConfig) -> (r: Result<(), Error>)
        requires
            old(self).wf(),
        ensures
            final(self).wf(),
            r == if has_bundle(old(self)@, bundle.id) {
                Err::<(), Error>(Error::BundleExists { bundle_id: bundle.id })
            } else {
                Ok::<(), Error>(())
            },
            final(self)@ == if r is Ok {
                old(self)@.push(bundle)
            } else {
                old(self)@
            },
    {
        if self.position(bundle.id).is_some() {
            return Err(Error::BundleExists { bundle_id: bundle.id });
        }
        let ghost before = self.bundles@;
        self.bundles.push(bundle);
        proof {
            let after = self.bundles@;
            assert forall|i: int, j: int| 0 <= i < j < after.len() implies (#[trigger] after[i]).id != (
            #[trigger] after[j]).id by {
                if j == before.len() {
                    assert(after[i] == before[i]);
                } else {
                    assert(after[i] == before[i] && after[j] == before[j]);
                }
            }
        }
        Ok(())
    }
}

} // verus!
