//! What the buy flow and the sell flow share: the constituent amounts of a
//! settlement, each with the token it is held in.
//!
//! The amounts of the constituents are those of the accepted quote: the
//! coordinator has signed them, and the engine does not compute others.

use vstd::prelude::*;
use crate::asset_registry::{asset_location, AssetRegistry};
use crate::error::Error;
use crate::transaction_manager::{has_transaction, transaction_of};
use crate::types::{
    AssetAllocation,
    AssetAmount,
    AssetId,
    AssetInfo,
    TokenLocation,
    Transaction,
    TransactionStatus,
};

verus! {

/// One constituent of a settlement: the asset, its token, and how much of
/// it moves.
#[derive(Debug)]
pub struct AssetLeg {
    pub asset_id: AssetId,
    pub token: TokenLocation,
    pub amount: u64,
}

/// Whether the asset is among the allocations.
pub open spec fn is_allocated(allocations: Seq<AssetAllocation>, asset_id: Seq<char>) -> bool {
    exists|i: int| 0 <= i < allocations.len() && (#[trigger] allocations[i]).asset_id@ == asset_id
}

/// The leg of one asset amount. Where allocations are given the asset must
/// be among them; the asset must be registered on a ledger of several
/// tokens.
pub open spec fn leg_of(assets: Seq<AssetInfo>, allowed: Option<Seq<AssetAllocation>>, item: AssetAmount) -> Result<
    AssetLeg,
    Error,
> {
    if allowed is Some && !is_allocated(allowed->Some_0, item.asset_id@) {
        Err(Error::AssetNotInBundle)
    } else {
        match asset_location(assets, item.asset_id) {
            Ok(token) => Ok(AssetLeg { asset_id: item.asset_id, token, amount: item.amount }),
            Err(e) => Err(e),
        }
    }
}

/// The legs of the asset amounts, in their order, or the error of the
/// first amount that has no leg.
pub open spec fn legs_of(assets: Seq<AssetInfo>, allowed: Option<Seq<AssetAllocation>>, items: Seq<AssetAmount>) -> Result<
    Seq<AssetLeg>,
    Error,
>
    decreases items.len(),
{
    if items.len() == 0 {
        Ok(Seq::<AssetLeg>::empty())
    } else {
        match legs_of(assets, allowed, items.drop_last()) {
            Err(e) => Err(e),
            Ok(front) => match leg_of(assets, allowed, items.last()) {
                Ok(leg) => Ok(front.push(leg)),
                Err(e) => Err(e),
            },
        }
    }
}

/// An error among the first amounts is the error of all of them.
pub proof fn lemma_legs_error_persists(
    assets: Seq<AssetInfo>,
    allowed: Option<Seq<AssetAllocation>>,
    items: Seq<AssetAmount>,
    n: int,
)
    requires
        0 <= n <= items.len(),
        legs_of(assets, allowed, items.take(n)) is Err,
    ensures
        legs_of(assets, allowed, items) == legs_of(assets, allowed, items.take(n)),
    decreases items.len() - n,
{
    if n < items.len() {
        assert(items.take(n + 1).drop_last() =~= items.take(n));
        lemma_legs_error_persists(assets, allowed, items, n + 1);
    } else {
        assert(items.take(n) =~= items);
    }
}

/// The first leg at or after `from` that moves a positive amount.
pub open spec fn first_positive_leg(legs: Seq<AssetLeg>, from: int) -> Option<int>
    decreases legs.len() - from,
{
    if from < 0 || from >= legs.len() {
        None
    } else if legs[from].amount > 0 {
        Some(from)
    } else {
        first_positive_leg(legs, from + 1)
    }
}

/// The leg that `first_positive_leg` finds is at or after `from`, within
/// the legs, and moves a positive amount.
pub proof fn lemma_next_leg_is_later(legs: Seq<AssetLeg>, from: int)
    requires
        0 <= from,
    ensures
        first_positive_leg(legs, from) matches Some(i) ==> from <= i < legs.len() && legs[i].amount > 0,
    decreases legs.len() - from,
{
    if from < legs.len() && legs[from].amount == 0 {
        lemma_next_leg_is_later(legs, from + 1);
    }
}

/// Whether a settlement of the transaction is under way: the transaction
/// is known and is `InProgress` or `AssetsTransferred`.
pub open spec fn settlement_under_way(txs: Seq<Transaction>, transaction_id: u64) -> bool {
    has_transaction(txs, transaction_id) && (transaction_of(txs, transaction_id).status
        == TransactionStatus::InProgress || transaction_of(txs, transaction_id).status
        == TransactionStatus::AssetsTransferred)
}

fn allocated(allocations: &Vec<AssetAllocation>, asset_id: &AssetId) -> (r: bool)
    ensures
        r == is_allocated(allocations@, asset_id@),
{
    let mut i: usize = 0;
    while i < allocations.len()
        invariant
            i <= allocations.len(),
            forall|k: int| 0 <= k < i ==> (#[trigger] allocations@[k]).asset_id@ != asset_id@,
        decreases allocations.len() - i,
    {
        if allocations[i].asset_id == *asset_id {
            return true;
        }
        i += 1;
    }
    false
}

/// The legs of the asset amounts. Where `allowed` is given every asset must
/// be among those allocations.
pub fn build_legs(registry: &AssetRegistry, allowed: Option<&Vec<AssetAllocation>>, items: &Vec<AssetAmount>) -> (r:
    Result<Vec<AssetLeg>, Error>)
    requires
        registry.wf(),
    ensures
        match r {
            Ok(legs) => legs_of(registry@, allowed_view(allowed), items@) == Ok::<Seq<AssetLeg>, Error>(legs@),
            Err(e) => legs_of(registry@, allowed_view(allowed), items@) == Err::<Seq<AssetLeg>, Error>(e),
        },
{
    let mut legs: Vec<AssetLeg> = Vec::new();
    let mut i: usize = 0;
    assert(items@.take(0).len() == 0);
    while i < items.len()
        invariant
            i <= items.len(),
            registry.wf(),
            legs_of(registry@, allowed_view(allowed), items@.take(i as int)) == Ok::<Seq<AssetLeg>, Error>(
                legs@,
            ),
        decreases items.len() - i,
    {
        assert(items@.take(i + 1).drop_last() =~= items@.take(i as int));
        let item = &items[i];
        let permitted = match allowed {
            Some(allocations) => allocated(allocations, &item.asset_id),
            None => true,
        };
        if !permitted {
            proof {
                lemma_legs_error_persists(registry@, allowed_view(allowed), items@, i + 1);
            }
            return Err(Error::AssetNotInBundle);
        }
        match registry.get_asset_icrc151_location(&item.asset_id) {
            Ok(token) => {
                legs.push(AssetLeg { asset_id: item.asset_id.clone(), token, amount: item.amount });
            },
            Err(e) => {
                proof {
                    lemma_legs_error_persists(registry@, allowed_view(allowed), items@, i + 1);
                }
                return Err(e);
            },
        }
        i += 1;
    }
    assert(items@.take(i as int) =~= items@);
    Ok(legs)
}

/// The allocations that the legs are held to, if any.
pub open spec fn allowed_view(allowed: Option<&Vec<AssetAllocation>>) -> Option<Seq<AssetAllocation>> {
    match allowed {
        Some(allocations) => Some(allocations@),
        None => None,
    }
}

/// The first leg at or after `from` that moves a positive amount.
pub fn next_positive_leg(legs: &Vec<AssetLeg>, from: usize) -> (r: Option<usize>)
    ensures
        match r {
            Some(i) => first_positive_leg(legs@, from as int) == Some(i as int) && from <= i < legs@.len()
                && legs@[i as int].amount > 0,
            None => first_positive_leg(legs@, from as int) is None,
        },
{
    let mut i: usize = from;
    while i < legs.len()
        invariant
            from <= i,
            first_positive_leg(legs@, from as int) == first_positive_leg(legs@, i as int),
        decreases legs.len() - i,
    {
        if legs[i].amount > 0 {
            return Some(i);
        }
        i += 1;
    }
    None
}

} // verus!
