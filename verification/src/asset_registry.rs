//! The assets that bundles can hold, by name.

use vstd::prelude::*;
use crate::admin::{admin_is, is_admin};
use crate::error::Error;
use crate::memory::GlobalState;
use crate::principal::PrincipalId;
use crate::types::{AssetCategory, AssetFilter, AssetId, AssetInfo, AssetInfoUpdate, AssetStandard, TokenLocation};

verus! {

/// Whether an asset with this name is among `assets`.
pub open spec fn has_asset(assets: Seq<AssetInfo>, asset_id: Seq<char>) -> bool {
    exists|i: int| 0 <= i < assets.len() && (#[trigger] assets[i]).id@ == asset_id
}

/// The asset with this name among `assets`.
pub open spec fn asset_of(assets: Seq<AssetInfo>, asset_id: Seq<char>) -> AssetInfo
    recommends
        has_asset(assets, asset_id),
{
    assets[choose|i: int| 0 <= i < assets.len() && (#[trigger] assets[i]).id@ == asset_id]
}

/// No two assets have the same name.
pub open spec fn distinct_assets(assets: Seq<AssetInfo>) -> bool {
    forall|i: int, j: int| 0 <= i < j < assets.len() ==> (#[trigger] assets[i]).id@ != (#[trigger] assets[j]).id@
}

/// Where the asset's token is, for an asset on a ledger of several tokens.
pub open spec fn token_location_of(asset: AssetInfo) -> Option<TokenLocation> {
    match asset.standard {
        AssetStandard::ICRC151 { token_id } => Some(TokenLocation { ledger: asset.ledger_canister, token_id }),
        _ => None,
    }
}

/// Where the token of the named asset is: the asset must be registered and
/// be held on a ledger of several tokens.
pub open spec fn asset_location(assets: Seq<AssetInfo>, asset_id: AssetId) -> Result<TokenLocation, Error> {
    if !has_asset(assets, asset_id@) {
        Err(Error::AssetNotFound { asset_id })
    } else {
        match token_location_of(asset_of(assets, asset_id@)) {
            Some(location) => Ok(location),
            None => Err(Error::NotMultiToken),
        }
    }
}

/// With distinct names, the asset found for a name is the one at any index
/// that has the name.
pub proof fn lemma_asset_at(assets: Seq<AssetInfo>, i: int)
    requires
        distinct_assets(assets),
        0 <= i < assets.len(),
    ensures
        has_asset(assets, assets[i].id@),
        asset_of(assets, assets[i].id@) == assets[i],
{
    let c = choose|k: int| 0 <= k < assets.len() && (#[trigger] assets[k]).id@ == assets[i].id@;
    if c < i {
        assert(assets[c].id@ != assets[i].id@);
    } else if i < c {
        assert(assets[i].id@ != assets[c].id@);
    }
}

/// The registered assets.
pub struct AssetRegistry {
    assets: Vec<AssetInfo>,
}

impl AssetRegistry {
    /// The assets, in the order in which they were added.
    pub closed spec fn view(&self) -> Seq<AssetInfo> {
        self.assets@
    }

    /// No two assets have the same name.
    pub open spec fn wf(&self) -> bool {
        distinct_assets(self@)
    }

    /// A registry without assets.
    pub fn new() -> (r: AssetRegistry)
        ensures
            r.wf(),
            r@ == Seq::<AssetInfo>::empty(),
    {
        AssetRegistry { assets: Vec::new() }
    }

    fn position(&self, asset_id: &AssetId) -> (r: Option<usize>)
        requires
            self.wf(),
        ensures
            r is Some <==> has_asset(self@, asset_id@),
            r matches Some(i) ==> i < self@.len() && self@[i as int].id@ == asset_id@ && self@[i as int]
                == asset_of(self@, asset_id@),
    {
        let mut i: usize = 0;
        while i < self.assets.len()
            invariant
                self.wf(),
                i <= self.assets.len(),
                forall|k: int| 0 <= k < i ==> (#[trigger] self.assets@[k]).id@ != asset_id@,
            decreases self.assets.len() - i,
        {
            if self.assets[i].id == *asset_id {
                proof {
                    lemma_asset_at(self.assets@, i as int);
                }
                return Some(i);
            }
            i += 1;
        }
        None
    }

    /// The named asset.
    pub fn get_asset(&self, asset_id: &AssetId) -> (r: Result<&AssetInfo, Error>)
        requires
            self.wf(),
        ensures
            match r {
                Ok(asset) => has_asset(self@, asset_id@) && *asset == asset_of(self@, asset_id@),
                Err(e) => !has_asset(self@, asset_id@) && e == (Error::AssetNotFound { asset_id: *asset_id }),
            },
    {
        match self.position(asset_id) {
            Some(i) => Ok(&self.assets[i]),
            None => Err(Error::AssetNotFound { asset_id: asset_id.clone() }),
        }
    }

    /// How many assets are registered.
    pub fn get_asset_count(&self) -> (n: u64)
        ensures
            n == self@.len(),
    {
        self.assets.len() as u64
    }

    /// Where the token of the named asset is.
    pub fn get_asset_icrc151_location(&self, asset_id: &AssetId) -> (r: Result<TokenLocation, Error>)
        requires
            self.wf(),
        ensures
            r == asset_location(self@, *asset_id),
    {
        match self.position(asset_id) {
            None => Err(Error::AssetNotFound { asset_id: asset_id.clone() }),
            Some(i) => {
                let asset = &self.assets[i];
                match asset.standard {
                    AssetStandard::ICRC151 { token_id } => Ok(
                        TokenLocation { ledger: asset.ledger_canister, token_id },
                    ),
                    _ => Err(Error::NotMultiToken),
                }
            },
        }
    }

    /// Registers an asset. Only the administrator may, and the name must be
    /// new.
    pub fn add_asset(&mut self, state: &GlobalState, caller: &PrincipalId, asset: AssetInfo) -> (r: Result<
        (),
        Error,
    >)
        requires
            old(self).wf(),
        ensures
            final(self).wf(),
            r == if !admin_is(*state, *caller) {
                Err::<(), Error>(Error::NotAdmin)
            } else if has_asset(old(self)@, asset.id@) {
                Err::<(), Error>(Error::AssetExists { asset_id: asset.id })
            } else {
                Ok::<(), Error>(())
            },
            final(self)@ == if r is Ok {
                old(self)@.push(asset)
            } else {
                old(self)@
            },
    {
        if !is_admin(state, caller) {
            return Err(Error::NotAdmin);
        }
        if self.position(&asset.id).is_some() {
            return Err(Error::AssetExists { asset_id: asset.id.clone() });
        }
        self.assets.push(asset);
        proof {
            let before = old(self)@;
            let after = self.assets@;
            assert forall|i: int, j: int| 0 <= i < j < after.len() implies (#[trigger] after[i]).id@ != (
            #[trigger] after[j]).id@ by {
                if j == before.len() {
                    assert(after[i] == before[i]);
                } else {
                    assert(after[i] == before[i] && after[j] == before[j]);
                }
            }
        }
        Ok(())
    }

    /// Marks an asset as inactive. Only the administrator may.
    pub fn deactivate_asset(&mut self, state: &GlobalState, caller: &PrincipalId, asset_id: &AssetId) -> (r:
        Result<(), Error>)
        requires
            old(self).wf(),
        ensures
            final(self).wf(),
            r == if !admin_is(*state, *caller) {
                Err::<(), Error>(Error::NotAdmin)
            } else if !has_asset(old(self)@, asset_id@) {
                Err::<(), Error>(Error::AssetNotFound { asset_id: *asset_id })
            } else {
                Ok::<(), Error>(())
            },
            r is Err ==> final(self)@ == old(self)@,
            r is Ok ==> final(self)@.len() == old(self)@.len() && forall|i: int|
                0 <= i < old(self)@.len() ==> #[trigger] final(self)@[i] == if old(self)@[i].id@ == asset_id@ {
                    AssetInfo { is_active: false, ..old(self)@[i] }
                } else {
                    old(self)@[i]
                },
    {
        if !is_admin(state, caller) {
            return Err(Error::NotAdmin);
        }
        match self.position(asset_id) {
            None => Err(Error::AssetNotFound { asset_id: asset_id.clone() }),
            Some(i) => {
                self.assets[i].is_active = false;
                proof {
                    let before = old(self)@;
                    let after = self.assets@;
                    assert forall|a: int, b: int| 0 <= a < b < after.len() implies (#[trigger] after[a]).id@ != (
                    #[trigger] after[b]).id@ by {
                        assert(after[a].id@ == before[a].id@ && after[b].id@ == before[b].id@);
                    }
                    assert forall|k: int| 0 <= k < before.len() implies #[trigger] after[k] == if before[k].id@
                        == asset_id@ {
                        AssetInfo { is_active: false, ..before[k] }
                    } else {
                        before[k]
                    } by {
                        if k != i {
                            if k < i {
                                assert(before[k].id@ != before[i as int].id@);
                            } else {
                                assert(before[i as int].id@ != before[k].id@);
                            }
                        }
                    }
                }
                Ok(())
            },
        }
    }
}

/// Whether two categories are of the same kind; the text of `Other` does
/// not matter.
pub open spec fn same_category_kind(a: AssetCategory, b: AssetCategory) -> bool {
    match (a, b) {
        (AssetCategory::Cryptocurrency, AssetCategory::Cryptocurrency) => true,
        (AssetCategory::Stablecoin, AssetCategory::Stablecoin) => true,
        (AssetCategory::CommodityBacked, AssetCategory::CommodityBacked) => true,
        (AssetCategory::Stocks, AssetCategory::Stocks) => true,
        (AssetCategory::Other(_), AssetCategory::Other(_)) => true,
        _ => false,
    }
}

/// Whether two standards are of the same kind; the token they name does
/// not matter.
pub open spec fn same_standard_kind(a: AssetStandard, b: AssetStandard) -> bool {
    match (a, b) {
        (AssetStandard::ICRC2, AssetStandard::ICRC2) => true,
        (AssetStandard::MTLS { .. }, AssetStandard::MTLS { .. }) => true,
        (AssetStandard::ICRC151 { .. }, AssetStandard::ICRC151 { .. }) => true,
        _ => false,
    }
}

/// Whether an asset passes a filter; every asset passes no filter.
pub open spec fn passes_filter(asset: AssetInfo, filter: Option<AssetFilter>) -> bool {
    match filter {
        None => true,
        Some(f) => {
            &&& f.active_only ==> asset.is_active
            &&& f.category matches Some(c) ==> same_category_kind(asset.metadata.category, c)
            &&& f.standard matches Some(s) ==> same_standard_kind(asset.standard, s)
        },
    }
}

/// An asset after an update: every field that the update names is set.
pub open spec fn updated_asset(asset: AssetInfo, updates: AssetInfoUpdate) -> AssetInfo {
    AssetInfo {
        name: match updates.name {
            Some(name) => name,
            None => asset.name,
        },
        oracle_ticker: match updates.oracle_ticker {
            Some(ticker) => Some(ticker),
            None => asset.oracle_ticker,
        },
        minter_canister: match updates.minter_canister {
            Some(minter) => Some(minter),
            None => asset.minter_canister,
        },
        is_active: match updates.is_active {
            Some(active) => active,
            None => asset.is_active,
        },
        metadata: match updates.metadata {
            Some(metadata) => metadata,
            None => asset.metadata,
        },
        ..asset
    }
}

/// Whether two categories are of the same kind.
pub fn category_kinds_match(a: &AssetCategory, b: &AssetCategory) -> (r: bool)
    ensures
        r == same_category_kind(*a, *b),
{
    match (a, b) {
        (AssetCategory::Cryptocurrency, AssetCategory::Cryptocurrency) => true,
        (AssetCategory::Stablecoin, AssetCategory::Stablecoin) => true,
        (AssetCategory::CommodityBacked, AssetCategory::CommodityBacked) => true,
        (AssetCategory::Stocks, AssetCategory::Stocks) => true,
        (AssetCategory::Other(_), AssetCategory::Other(_)) => true,
        _ => false,
    }
}

/// Whether two standards are of the same kind.
pub fn standard_kinds_match(a: &AssetStandard, b: &AssetStandard) -> (r: bool)
    ensures
        r == same_standard_kind(*a, *b),
{
    match (a, b) {
        (AssetStandard::ICRC2, AssetStandard::ICRC2) => true,
        (AssetStandard::MTLS { .. }, AssetStandard::MTLS { .. }) => true,
        (AssetStandard::ICRC151 { .. }, AssetStandard::ICRC151 { .. }) => true,
        _ => false,
    }
}

/// Whether `out` holds exactly the assets of `kept`, in their order.
pub open spec fn lists_assets(out: Seq<&AssetInfo>, kept: Seq<AssetInfo>) -> bool {
    out.len() == kept.len() && forall|i: int| 0 <= i < out.len() ==> *(#[trigger] out[i]) == kept[i]
}

impl AssetRegistry {
    /// The assets that pass the filter, in the order in which they were
    /// added.
    pub fn list_assets(&self, filter: &Option<AssetFilter>) -> (out: Vec<&AssetInfo>)
        ensures
            lists_assets(out@, self@.filter(|a: AssetInfo| passes_filter(a, *filter))),
    {
        let ghost wanted = |a: AssetInfo| passes_filter(a, *filter);
        let ghost all = self.assets@;
        let mut out: Vec<&AssetInfo> = Vec::new();
        let mut i: usize = 0;
        proof {
            reveal(Seq::filter);
            assert(all.take(0).filter(wanted) =~= Seq::<AssetInfo>::empty());
        }
        while i < self.assets.len()
            invariant
                i <= self.assets.len(),
                all == self.assets@,
                wanted == (|a: AssetInfo| passes_filter(a, *filter)),
                lists_assets(out@, all.take(i as int).filter(wanted)),
            decreases self.assets.len() - i,
        {
            proof {
                assert(all.take(i + 1) =~= all.take(i as int).push(all[i as int]));
                all.take(i as int).lemma_filter_push(all[i as int], wanted);
            }
            let asset = &self.assets[i];
            let passes = match filter {
                None => true,
                Some(f) => {
                    let active = !f.active_only || asset.is_active;
                    let category = match &f.category {
                        Some(c) => category_kinds_match(&asset.metadata.category, c),
                        None => true,
                    };
                    let standard = match &f.standard {
                        Some(s) => standard_kinds_match(&asset.standard, s),
                        None => true,
                    };
                    active && category && standard
                },
            };
            if passes {
                out.push(asset);
            }
            i += 1;
        }
        assert(all.take(i as int) =~= all);
        out
    }

    /// Changes the fields of an asset that the update names. Only the
    /// administrator may.
    pub fn update_asset(&mut self, state: &GlobalState, caller: &PrincipalId, asset_id: &AssetId, updates: AssetInfoUpdate) -> (r:
        Result<(), Error>)
        requires
            old(self).wf(),
        ensures
            final(self).wf(),
            r == if !admin_is(*state, *caller) {
                Err::<(), Error>(Error::NotAdmin)
            } else if !has_asset(old(self)@, asset_id@) {
                Err::<(), Error>(Error::AssetNotFound { asset_id: *asset_id })
            } else {
                Ok::<(), Error>(())
            },
            r is Err ==> final(self)@ == old(self)@,
            r is Ok ==> final(self)@.len() == old(self)@.len() && forall|i: int|
                0 <= i < old(self)@.len() ==> #[trigger] final(self)@[i] == if old(self)@[i].id@ == asset_id@ {
                    updated_asset(old(self)@[i], updates)
                } else {
                    old(self)@[i]
                },
    {
        if !is_admin(state, caller) {
            return Err(Error::NotAdmin);
        }
        match self.position(asset_id) {
            None => Err(Error::AssetNotFound { asset_id: asset_id.clone() }),
            Some(i) => {
                let ghost before = self.assets@;
                match updates.name {
                    Some(name) => {
                        self.assets[i].name = name;
                    },
                    None => {},
                }
                match updates.oracle_ticker {
                    Some(ticker) => {
                        self.assets[i].oracle_ticker = Some(ticker);
                    },
                    None => {},
                }
                match updates.minter_canister {
                    Some(minter) => {
                        self.assets[i].minter_canister = Some(minter);
                    },
                    None => {},
                }
                match updates.is_active {
                    Some(active) => {
                        self.assets[i].is_active = active;
                    },
                    None => {},
                }
                match updates.metadata {
                    Some(metadata) => {
                        self.assets[i].metadata = metadata;
                    },
                    None => {},
                }
                proof {
                    let after = self.assets@;
                    assert forall|a: int, b: int| 0 <= a < b < after.len() implies (#[trigger] after[a]).id@ != (
                    #[trigger] after[b]).id@ by {
                        assert(after[a].id@ == before[a].id@ && after[b].id@ == before[b].id@);
                    }
                    assert forall|k: int| 0 <= k < before.len() implies #[trigger] after[k] == if before[k].id@
                        == asset_id@ {
                        updated_asset(before[k], updates)
                    } else {
                        before[k]
                    } by {
                        if k != i {
                            if k < i {
                                assert(before[k].id@ != before[i as int].id@);
                            } else {
                                assert(before[i as int].id@ != before[k].id@);
                            }
                        }
                    }
                }
                Ok(())
            },
        }
    }

    /// Moves an asset to another ledger and standard. Only the
    /// administrator may.
    pub fn update_asset_token_location(
        &mut self,
        state: &GlobalState,
        caller: &PrincipalId,
        asset_id: &AssetId,
        ledger_canister: PrincipalId,
        standard: AssetStandard,
    ) -> (r: Result<(), Error>)
        requires
            old(self).wf(),
        ensures
            final(self).wf(),
            r == if !admin_is(*state, *caller) {
                Err::<(), Error>(Error::NotAdmin)
            } else if !has_asset(old(self)@, asset_id@) {
                Err::<(), Error>(Error::AssetNotFound { asset_id: *asset_id })
            } else {
                Ok::<(), Error>(())
            },
            r is Err ==> final(self)@ == old(self)@,
            r is Ok ==> final(self)@.len() == old(self)@.len() && forall|i: int|
                0 <= i < old(self)@.len() ==> #[trigger] final(self)@[i] == if old(self)@[i].id@ == asset_id@ {
                    AssetInfo { ledger_canister, standard, ..old(self)@[i] }
                } else {
                    old(self)@[i]
                },
    {
        if !is_admin(state, caller) {
            return Err(Error::NotAdmin);
        }
        match self.position(asset_id) {
            None => Err(Error::AssetNotFound { asset_id: asset_id.clone() }),
            Some(i) => {
                let ghost before = self.assets@;
                self.assets[i].ledger_canister = ledger_canister;
                self.assets[i].standard = standard;
                proof {
                    let after = self.assets@;
                    assert forall|a: int, b: int| 0 <= a < b < after.len() implies (#[trigger] after[a]).id@ != (
                    #[trigger] after[b]).id@ by {
                        assert(after[a].id@ == before[a].id@ && after[b].id@ == before[b].id@);
                    }
                    assert forall|k: int| 0 <= k < before.len() implies #[trigger] after[k] == if before[k].id@
                        == asset_id@ {
                        AssetInfo { ledger_canister, standard, ..before[k] }
                    } else {
                        before[k]
                    } by {
                        if k != i {
                            if k < i {
                                assert(before[k].id@ != before[i as int].id@);
                            } else {
                                assert(before[i as int].id@ != before[k].id@);
                            }
                        }
                    }
                }
                Ok(())
            },
        }
    }
}

/// Two predicates that agree on every element filter alike.
pub proof fn lemma_filters_agree<T>(s: Seq<T>, p: spec_fn(T) -> bool, q: spec_fn(T) -> bool)
    requires
        forall|i: int| 0 <= i < s.len() ==> p(#[trigger] s[i]) == q(s[i]),
    ensures
        s.filter(p) == s.filter(q),
    decreases s.len(),
{
    reveal(Seq::filter);
    if s.len() > 0 {
        lemma_filters_agree(s.drop_last(), p, q);
    }
}

/// Without a filter every asset is listed.
pub proof fn lemma_filter_all_assets(assets: Seq<AssetInfo>)
    ensures
        assets.filter(|a: AssetInfo| passes_filter(a, None)) == assets,
{
    crate::transaction_manager::lemma_filter_keeps_all(assets, |a: AssetInfo| passes_filter(a, None));
}

impl AssetRegistry {
    /// Puts back an asset that was registered before, when the state is
    /// loaded. No asset with its name may be there.
    pub fn restore_asset(&mut self, asset: AssetInfo) -> (r: Result<(), Error>)
        requires
            old(self).wf(),
        ensures
            final(self).wf(),
            r == if has_asset(old(self)@, asset.id@) {
                Err::<(), Error>(Error::AssetExists { asset_id: asset.id })
            } else {
                Ok::<(), Error>(())
            },
            final(self)@ == if r is Ok {
                old(self)@.push(asset)
            } else {
                old(self)@
            },
    {
        if self.position(&asset.id).is_some() {
            return Err(Error::AssetExists { asset_id: asset.id.clone() });
        }
        let ghost before = self.assets@;
        self.assets.push(asset);
        proof {
            let after = self.assets@;
            assert forall|i: int, j: int| 0 <= i < j < after.len() implies (#[trigger] after[i]).id@ != (
            #[trigger] after[j]).id@ by {
                if j == before.len() {
                    assert(after[i] == before[i]);
                } else {
                    assert(after[i] == before[i] && after[j] == before[j]);
                }
            }
        }
        Ok(())
    }
}

} // verus!
